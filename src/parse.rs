use vstd::prelude::*;

use crate::asm_stack::{
    StackAluInstruction, StackConstOperation, StackBaseInstruction, StackBaseOperation, StackCallInstruction, StackFunctionInstruction,
    StackFunctionOperation, StackJumpInstruction, StackLabelInstruction, StackMemInstruction,
    StackOpInstruction,
};
use crate::compile::{
    atom_views, compile_program, lemma_program_spec_views, program_spec, Atom, FullAtom, Instruction,
};
use crate::context::copy_chars;
use crate::cpu::Register;
use crate::error::{
    string_of, CompileError, CompileErrorWithPos, ErrorView, ParsePosition, PosCompileError,
};
use crate::jump::{JumpInstruction, JumpOperation, LoadLabelInstruction};
use crate::load_const::{LoadConstInstruction, LoadConstOperation};
use crate::ops::{
    AluInstruction, AluOperation, BranchInstruction, CustomInstruction, CustomMultiInstruction,
    MemInstruction, MemOperation, NopInstruction,
};
use crate::stmt::{
    AtomView, InstrView,
    alu_named, dot_index, jump_named, local_named, manip_named, mem_named, res_atom, res_instr,
    split_spec, stack_stmt, statement, stmt_spec,
};
use crate::parse_parts::{
    constant_spec, is_space, upper_seq, words_of, words_view,
    parse_u16_constant, slice_from, split_whitespace, to_upper, whitespace_checker, word_is,
    ParseParts,
};
use crate::stackop::{
    AluStackOp, ConstStackOp, LocalOperation, LocalStackOp, ManipStackOp, StackLocalMode,
    StackOperation,
};

verus! {

pub open spec fn contains_char(s: Seq<char>, c: char) -> bool {
    exists|i: int| 0 <= i < s.len() && s[i] == c
}

fn has_char(s: &[char], c: char) -> (r: bool)
    ensures
        r == contains_char(s@, c),
{
    let mut i: usize = 0;
    while i < s.len()
        invariant
            0 <= i <= s.len(),
            forall|j: int| 0 <= j < i ==> s@[j] != c,
        decreases s.len() - i,
    {
        if s[i] == c {
            return true;
        }
        i = i + 1;
    }
    false
}

impl AluOperation {
    /// The ALU operation named by a mnemonic.
    pub fn parse_operation(s: &[char]) -> (r: Option<AluOperation>)
        ensures
            r == alu_named(s@),
    {
        if word_is(s, "ADD") {
            Some(AluOperation::ADD)
        } else if word_is(s, "AND") {
            Some(AluOperation::AND)
        } else if word_is(s, "SUB") {
            Some(AluOperation::SUB)
        } else if word_is(s, "OR") {
            Some(AluOperation::OR)
        } else if word_is(s, "MOV") {
            Some(AluOperation::MOV)
        } else if word_is(s, "INC") {
            Some(AluOperation::INC)
        } else if word_is(s, "DEC") {
            Some(AluOperation::DEC)
        } else if word_is(s, "NOT") {
            Some(AluOperation::NOT)
        } else if word_is(s, "NEG") {
            Some(AluOperation::NEG)
        } else {
            None
        }
    }
}

impl MemOperation {
    /// The memory operation named by a mnemonic.
    pub fn parse_operation(s: &[char]) -> (r: Option<MemOperation>)
        ensures
            r == mem_named(s@),
    {
        if word_is(s, "LOAD") {
            Some(MemOperation::LOAD)
        } else if word_is(s, "STORE") {
            Some(MemOperation::STORE)
        } else if word_is(s, "LADD") {
            Some(MemOperation::LADD)
        } else if word_is(s, "LSUB") {
            Some(MemOperation::LSUB)
        } else {
            None
        }
    }
}

impl JumpOperation {
    /// The jump named by a mnemonic.
    pub fn parse_operation(s: &[char]) -> (r: Option<JumpOperation>)
        ensures
            r == jump_named(s@),
    {
        if word_is(s, "JMP") {
            Some(JumpOperation::JMP)
        } else if word_is(s, "JEQ") {
            Some(JumpOperation::JEQ)
        } else if word_is(s, "JGT") {
            Some(JumpOperation::JGT)
        } else if word_is(s, "JLT") {
            Some(JumpOperation::JLT)
        } else if word_is(s, "JLE") {
            Some(JumpOperation::JLE)
        } else if word_is(s, "JGE") {
            Some(JumpOperation::JGE)
        } else if word_is(s, "JNE") {
            Some(JumpOperation::JNE)
        } else {
            None
        }
    }
}

impl LoadConstOperation {
    pub fn parse_operation(s: &[char]) -> (r: Option<LoadConstOperation>)
        ensures
            r == (if s@ == "LCONST"@ {
                Some(LoadConstOperation::LOAD)
            } else if s@ == "ACONST"@ {
                Some(LoadConstOperation::ADD)
            } else {
                None
            }),
    {
        if word_is(s, "LCONST") {
            Some(LoadConstOperation::LOAD)
        } else if word_is(s, "ACONST") {
            Some(LoadConstOperation::ADD)
        } else {
            None
        }
    }
}

impl StackBaseOperation {
    pub fn parse_operation(s: &[char]) -> (r: Option<StackBaseOperation>)
        ensures
            r == (if s@ == "INIT"@ {
                Some(StackBaseOperation::INIT)
            } else if s@ == "PUSH"@ {
                Some(StackBaseOperation::PUSH)
            } else if s@ == "POP"@ {
                Some(StackBaseOperation::POP)
            } else {
                None
            }),
    {
        if word_is(s, "INIT") {
            Some(StackBaseOperation::INIT)
        } else if word_is(s, "PUSH") {
            Some(StackBaseOperation::PUSH)
        } else if word_is(s, "POP") {
            Some(StackBaseOperation::POP)
        } else {
            None
        }
    }
}

impl StackFunctionOperation {
    pub fn parse_operation(s: &[char]) -> (r: Option<StackFunctionOperation>)
        ensures
            r == (if s@ == "FUNC"@ {
                Some(StackFunctionOperation::INIT)
            } else if s@ == "RET"@ {
                Some(StackFunctionOperation::RETURN)
            } else {
                None
            }),
    {
        if word_is(s, "FUNC") {
            Some(StackFunctionOperation::INIT)
        } else if word_is(s, "RET") {
            Some(StackFunctionOperation::RETURN)
        } else {
            None
        }
    }
}

impl LocalOperation {
    pub fn parse_operation(s: &[char]) -> (r: Option<LocalOperation>)
        ensures
            r == local_named(s@),
    {
        if word_is(s, "LOCINIT") {
            Some(LocalOperation::LOCINIT)
        } else if word_is(s, "LOCEND") {
            Some(LocalOperation::LOCEND)
        } else if word_is(s, "LVAR") {
            Some(LocalOperation::LOAD(StackLocalMode::VAR))
        } else if word_is(s, "SVAR") {
            Some(LocalOperation::STORE(StackLocalMode::VAR))
        } else if word_is(s, "AVAR") {
            Some(LocalOperation::ADDR(StackLocalMode::VAR))
        } else if word_is(s, "LARG") {
            Some(LocalOperation::LOAD(StackLocalMode::ARG))
        } else if word_is(s, "SARG") {
            Some(LocalOperation::STORE(StackLocalMode::ARG))
        } else if word_is(s, "AARG") {
            Some(LocalOperation::ADDR(StackLocalMode::ARG))
        } else {
            None
        }
    }
}

impl ManipStackOp {
    /// The stack manipulation named by a mnemonic.
    pub fn parse_asm(s: &[char]) -> (r: Option<ManipStackOp>)
        ensures
            r == manip_named(s@),
    {
        if word_is(s, "SWP") {
            Some(ManipStackOp::swp())
        } else if word_is(s, "DUP") {
            Some(ManipStackOp::dup())
        } else if word_is(s, "DROP") {
            Some(ManipStackOp::drop(1))
        } else if word_is(s, "PUZX") {
            Some(ManipStackOp::puzx())
        } else {
            None
        }
    }
}

impl BranchInstruction {
    /// Sets the condition flags from the letters `E`, `G`, `L` of a flag
    /// string; one without any of them leaves the flags as they are.
    pub fn set_flags_from_str(&mut self, s: &[char])
        ensures
            (contains_char(s@, 'E') || contains_char(s@, 'G') || contains_char(s@, 'L')) ==> *final(self) == (BranchInstruction {
                eq: contains_char(s@, 'E'),
                gt: contains_char(s@, 'G'),
                lt: contains_char(s@, 'L'),
                ..*old(self)
            }),
            !(contains_char(s@, 'E') || contains_char(s@, 'G') || contains_char(s@, 'L')) ==> *final(self) == *old(self),
    {
        let (e, g, l) = (has_char(s, 'E'), has_char(s, 'G'), has_char(s, 'L'));
        if e || g || l {
            self.set_flags(e, g, l);
        }
    }
}

impl StackMemInstruction {
    /// Sets the flags from the letters `H`, `L`, `S`: with neither `H` nor
    /// `L`, only the swap flag is taken.
    pub fn set_flags_from_str(&mut self, s: &[char])
        ensures
            final(self).op == old(self).op,
            final(self).sw == contains_char(s@, 'S'),
            (contains_char(s@, 'H') || contains_char(s@, 'L')) ==> final(self).hi == contains_char(
                s@,
                'H',
            ) && final(self).lo == contains_char(s@, 'L'),
            !(contains_char(s@, 'H') || contains_char(s@, 'L')) ==> !final(self).hi && !final(self).lo,
    {
        let (h, l, w) = (has_char(s, 'H'), has_char(s, 'L'), has_char(s, 'S'));
        if h || l {
            self.set_flags(h, l, w);
        } else {
            self.set_flags(false, false, w);
        }
    }
}

impl StackAluInstruction {
    /// Sets the negate flags from the letters `X`, `Y`, `O`.
    pub fn set_flags_from_str(&mut self, s: &[char])
        ensures
            *final(self) == (StackAluInstruction {
                nx: contains_char(s@, 'X'),
                ny: contains_char(s@, 'Y'),
                no: contains_char(s@, 'O'),
                ..*old(self)
            }),
    {
        let (x, y, o) = (has_char(s, 'X'), has_char(s, 'Y'), has_char(s, 'O'));
        self.set_flags(x, y, o);
    }
}

impl StackConstOperation {
    pub fn parse_operation(s: &[char]) -> (r: Option<StackConstOperation>)
        ensures
            s@ == "PCONST"@ ==> r == Some(StackConstOperation::CONST),
    {
        if word_is(s, "PCONST") {
            Some(StackConstOperation::CONST)
        } else if word_is(s, "ACONST") {
            Some(StackConstOperation::ACONST)
        } else if word_is(s, "PLABEL") {
            Some(StackConstOperation::LABEL)
        } else {
            None
        }
    }
}

/// Splits `CMD.FLAGS` at its first dot.
fn split_flags(s: &[char]) -> (r: (Vec<char>, Vec<char>))
    ensures
        (r.0@, r.1@) == split_spec(s@),
{
    let mut i: usize = 0;
    while i < s.len()
        invariant
            0 <= i <= s.len(),
            forall|j: int| 0 <= j < i ==> s@[j] != '.',
        decreases s.len() - i,
    {
        if s[i] == '.' {
            let mut head: Vec<char> = Vec::new();
            let mut k: usize = 0;
            while k < i
                invariant
                    0 <= k <= i,
                    i < s.len(),
                    head@ == s@.take(k as int),
                decreases i - k,
            {
                head.push(s[k]);
                assert(s@.take(k + 1) =~= s@.take(k as int).push(s@[k as int]));
                k = k + 1;
            }
            let tail = slice_from(s, i + 1);
            proof {
                lemma_dot_index(s@, i as int);
            }
            return (head, tail);
        }
        i = i + 1;
    }
    proof {
        lemma_dot_index(s@, i as int);
    }
    (copy_chars(s), Vec::new())
}

proof fn lemma_dot_index(s: Seq<char>, i: int)
    requires
        0 <= i <= s.len(),
        forall|j: int| 0 <= j < i ==> s[j] != '.',
        i == s.len() || s[i] == '.',
    ensures
        dot_index(s) == i,
    decreases i,
{
    if i > 0 {
        lemma_dot_index(s.skip(1), i - 1);
    }
}

fn prefixed(prefix: &str, s: &[char]) -> (r: String)
    ensures
        r@ == prefix@ + s@,
{
    let mut v: Vec<char> = Vec::new();
    let n = prefix.unicode_len();
    let mut i: usize = 0;
    while i < n
        invariant
            n == prefix@.len(),
            0 <= i <= n,
            v@ == prefix@.take(i as int),
        decreases n - i,
    {
        v.push(prefix.get_char(i));
        assert(prefix@.take(i + 1) =~= prefix@.take(i as int).push(prefix@[i as int]));
        i = i + 1;
    }
    assert(prefix@.take(i as int) =~= prefix@);
    let mut j: usize = 0;
    while j < s.len()
        invariant
            0 <= j <= s.len(),
            v@ == prefix@ + s@.take(j as int),
        decreases s.len() - j,
    {
        v.push(s[j]);
        assert(prefix@ + s@.take(j + 1) =~= (prefix@ + s@.take(j as int)).push(s@[j as int]));
        j = j + 1;
    }
    assert(s@.take(j as int) =~= s@);
    string_of(v.as_slice())
}

/// A statement of the stack instruction set, its mnemonic after the `$`.
pub fn parse_stack_instruction(cmd: &[char], flags: &[char], mut parts: ParseParts) -> (r: Result<
    Instruction,
    CompileError,
>)
    ensures
        res_instr(r) == stack_stmt(cmd@, flags@, words_view(parts.parts@), parts.idx as int),
{
    if let Some(m) = ManipStackOp::parse_asm(cmd) {
        return Ok(Instruction::StackOp(StackOpInstruction::new(StackOperation::Manip(m))));
    }
    if let Some(op) = StackBaseOperation::parse_operation(cmd) {
        let reg = match op {
            StackBaseOperation::INIT => Register::ZX,
            _ => parts.pop_register()?,
        };
        return Ok(Instruction::StackBase(StackBaseInstruction::new(op, reg)));
    }
    if let Some(op) = LocalOperation::parse_operation(cmd) {
        let idx = match op {
            LocalOperation::LOCEND => 0,
            _ => parts.pop_const()?,
        };
        return Ok(
            Instruction::StackOp(StackOpInstruction::new(StackOperation::Local(LocalStackOp::new(op, idx)))),
        );
    }
    if word_is(cmd, "PLABEL") {
        let l = parts.pop_label()?;
        return Ok(Instruction::StackLabel(StackLabelInstruction::new_label(l)));
    }
    if word_is(cmd, "PCONST") {
        let v = parts.pop_const()?;
        return Ok(
            Instruction::StackOp(StackOpInstruction::new(StackOperation::Const(ConstStackOp::new(v, false)))),
        );
    }
    if word_is(cmd, "ACONST") {
        let v = parts.pop_const()?;
        return Ok(
            Instruction::StackOp(StackOpInstruction::new(StackOperation::Const(ConstStackOp::new(v, true)))),
        );
    }
    if let Some(op) = AluOperation::parse_operation(cmd) {
        let a = AluStackOp {
            op,
            nx: has_char(flags, 'X'),
            ny: has_char(flags, 'Y'),
            no: has_char(flags, 'O'),
        };
        return Ok(Instruction::StackOp(StackOpInstruction::new(StackOperation::Alu(a))));
    }
    if let Some(op) = MemOperation::parse_operation(cmd) {
        let mut m = StackMemInstruction::new(op);
        m.set_flags_from_str(flags);
        return Ok(Instruction::StackMem(m));
    }
    if let Some(op) = JumpOperation::parse_operation(cmd) {
        let l = parts.pop_label()?;
        return Ok(Instruction::StackJump(StackJumpInstruction::new(op, l)));
    }
    if let Some(op) = StackFunctionOperation::parse_operation(cmd) {
        return match op {
            StackFunctionOperation::INIT => {
                let locals = parts.pop_const()?;
                let args = parts.pop_const()?;
                let returned = parts.pop_const()?;
                Ok(Instruction::StackFunction(StackFunctionInstruction::new_init(locals, args, returned)))
            },
            StackFunctionOperation::RETURN => Ok(
                Instruction::StackFunction(StackFunctionInstruction::new_return()),
            ),
        };
    }
    if word_is(cmd, "CALL") {
        let l = parts.pop_label()?;
        return Ok(Instruction::StackCall(StackCallInstruction::new(l)));
    }
    Err(CompileError::UnknownCommand(prefixed("$", cmd)))
}

/// One statement: mnemonics are case-insensitive, operands follow separated
/// by whitespace.
pub fn parse_instruction(s: &[char]) -> (r: Result<Atom, CompileError>)
    ensures
        res_atom(r) == stmt_spec(s@),
        r matches Ok(a) ==> a is Instruction,
{
    let up = to_upper(s);
    let words = split_whitespace(up.as_slice());
    let ghost wv = words@;
    let mut parts = ParseParts::new(words);
    let ghost ws = words_of(upper_seq(s@));
    assert(words_view(wv) == ws);
    let command_raw = parts.pop_command()?;
    assert(command_raw@ == ws[0]);
    let (cmd, flags) = split_flags(command_raw.as_slice());
    let ins = parse_statement(cmd.as_slice(), flags.as_slice(), parts)?;
    Ok(Atom::Instruction(ins))
}

/// A statement of the machine's instructions and macros, or after `$` one of
/// the stack instruction set; `parts` holds its operands from `parts.idx` on.
pub fn parse_statement(cmd: &[char], flags: &[char], mut parts: ParseParts) -> (r: Result<
    Instruction,
    CompileError,
>)
    ensures
        res_instr(r) == statement(cmd@, flags@, words_view(parts.parts@), parts.idx as int),
{
    let ins = if word_is(cmd, "NOP") {
        Instruction::Nop(NopInstruction::new())
    } else if let Some(op) = AluOperation::parse_operation(cmd) {
        let dst = parts.pop_register()?;
        let a = parts.pop_register()?;
        let b = if op.is_binary() {
            parts.pop_register()?
        } else {
            Register::ZX
        };
        let mut i = AluInstruction::new(op, dst, a, b);
        i.set_flags(has_char(flags, 'X'), has_char(flags, 'Y'), has_char(flags, 'O'));
        Instruction::Alu(i)
    } else if let Some(op) = MemOperation::parse_operation(cmd) {
        let dst = parts.pop_register()?;
        let addr = parts.pop_register()?;
        let shift = parts.pop_shift()?;
        let mut m = MemInstruction::new(op, dst, addr, shift)?;
        m.set_flags(has_char(flags, 'H'), has_char(flags, 'L'), has_char(flags, 'S'));
        Instruction::Mem(m)
    } else if word_is(cmd, "BRANCH") {
        let cond = parts.pop_register()?;
        let shift = parts.pop_shift()?;
        let mut b = BranchInstruction::new(cond, shift)?;
        b.set_flags_from_str(flags);
        Instruction::Branch(b)
    } else if let Some(op) = LoadConstOperation::parse_operation(cmd) {
        let dst = parts.pop_register()?;
        let val = parts.pop_const()?;
        Instruction::LoadConst(LoadConstInstruction::new(op, dst, val))
    } else if word_is(cmd, "HALT") {
        Instruction::Mem(MemInstruction::new(MemOperation::STORE, Register::ZX, Register::ZX, -1)?)
    } else if word_is(cmd, "LLABEL") {
        let dst = parts.pop_register()?;
        let l = parts.pop_label()?;
        Instruction::LoadLabel(LoadLabelInstruction::new(dst, l))
    } else if let Some(op) = JumpOperation::parse_operation(cmd) {
        let cond = if op == JumpOperation::JMP {
            Register::ZX
        } else {
            parts.pop_register()?
        };
        let l = parts.pop_label()?;
        Instruction::Jump(JumpInstruction::new(op, l, cond))
    } else if cmd.len() > 0 && cmd[0] == '$' {
        let rest = slice_from(cmd, 1);
        parse_stack_instruction(rest.as_slice(), flags, parts)?
    } else {
        return Err(CompileError::UnknownCommand(string_of(cmd)));
    };
    Ok(ins)
}


/// A character that ends a statement.
pub open spec fn is_end(c: char) -> bool {
    c == ';' || c == '#' || c == '\n' || c == '(' || c == ')' || c == '{' || c == '}'
}

pub fn end_checker(c: char) -> (r: bool)
    ensures
        r == is_end(c),
{
    c == ';' || c == '#' || c == '\n' || c == '(' || c == ')' || c == '{' || c == '}'
}

pub fn letter_checker(c: char) -> (r: bool)
    ensures
        r == (('a' <= c && c <= 'z') || ('A' <= c && c <= 'Z') || c == '$'),
{
    ('a' <= c && c <= 'z') || ('A' <= c && c <= 'Z') || c == '$'
}

pub fn nummeric_checker(c: char) -> (r: bool)
    ensures
        r == (('0' <= c && c <= '9') || c == '+' || c == '-'),
{
    ('0' <= c && c <= '9') || c == '+' || c == '-'
}

/// The index of the bracket that closes the one opened just before `from`,
/// counting nested pairs of the same kind.
fn find_close(chars: &Vec<char>, from: usize, end: usize, open: char, close: char) -> (r: Option<usize>)
    requires
        from <= end <= chars.len(),
    ensures
        r == close_spec(chars@, from as int, end as int, 0, open, close),
        r is Some ==> from <= r->0 < end,
{
    let mut depth: usize = 0;
    let mut k = from;
    while k < end
        invariant
            from <= k <= end,
            end <= chars.len(),
            depth <= k - from,
            close_spec(chars@, from as int, end as int, 0, open, close) == close_spec(
                chars@,
                k as int,
                end as int,
                depth as nat,
                open,
                close,
            ),
        decreases end - k,
    {
        let c = chars[k];
        if c == close {
            if depth == 0 {
                proof {
                    lemma_close_bounds(chars@, k as int, end as int, 0, open, close);
                }
                return Some(k);
            }
            depth = depth - 1;
        } else if c == open {
            depth = depth + 1;
        }
        k = k + 1;
    }
    None
}

/// Where the bracket opened before `k` closes, `depth` brackets of the same
/// kind being open inside it.
pub open spec fn close_spec(c: Seq<char>, k: int, end: int, depth: nat, open: char, close: char) -> Option<usize>
    decreases end - k,
{
    if k >= end || k < 0 {
        None
    } else if c[k] == close {
        if depth == 0 {
            Some(k as usize)
        } else {
            close_spec(c, k + 1, end, (depth - 1) as nat, open, close)
        }
    } else if c[k] == open {
        close_spec(c, k + 1, end, depth + 1, open, close)
    } else {
        close_spec(c, k + 1, end, depth, open, close)
    }
}

proof fn lemma_close_bounds(c: Seq<char>, k: int, end: int, depth: nat, open: char, close: char)
    requires
        0 <= k,
        end <= usize::MAX,
    ensures
        close_spec(c, k, end, depth, open, close) is Some ==> k <= close_spec(
            c,
            k,
            end,
            depth,
            open,
            close,
        )->0 < end,
    decreases end - k,
{
    if k < end {
        lemma_close_bounds(c, k + 1, end, if c[k] == close && depth > 0 {
            (depth - 1) as nat
        } else if c[k] == open && c[k] != close {
            depth + 1
        } else {
            depth
        }, open, close);
    }
}

/// Where a string literal whose body starts at `k` ends: the first quote not
/// escaped by a backslash.
pub open spec fn string_end_spec(c: Seq<char>, k: int, end: int, escaped: bool) -> Option<usize>
    decreases end - k,
{
    if k >= end || k < 0 {
        None
    } else if escaped {
        string_end_spec(c, k + 1, end, false)
    } else if c[k] == '\\' {
        string_end_spec(c, k + 1, end, true)
    } else if c[k] == '"' {
        Some(k as usize)
    } else {
        string_end_spec(c, k + 1, end, false)
    }
}

proof fn lemma_string_end_bounds(c: Seq<char>, k: int, end: int, escaped: bool)
    requires
        0 <= k,
        end <= usize::MAX,
    ensures
        string_end_spec(c, k, end, escaped) is Some ==> k <= string_end_spec(c, k, end, escaped)->0 < end,
    decreases end - k,
{
    if k < end {
        lemma_string_end_bounds(c, k + 1, end, !escaped && c[k] == '\\');
    }
}

/// The index of the quote that closes a string literal begun just before
/// `from`; a backslash escapes the next character.
fn find_string_end(chars: &Vec<char>, from: usize, end: usize) -> (r: Option<usize>)
    requires
        from <= end <= chars.len(),
    ensures
        r == string_end_spec(chars@, from as int, end as int, false),
        r is Some ==> from <= r->0 < end,
{
    proof {
        lemma_string_end_bounds(chars@, from as int, end as int, false);
    }
    let mut k = from;
    let mut escaped = false;
    while k < end
        invariant
            from <= k <= end,
            end <= chars.len(),
            string_end_spec(chars@, from as int, end as int, false) == string_end_spec(
                chars@,
                k as int,
                end as int,
                escaped,
            ),
        decreases end - k,
    {
        let c = chars[k];
        if escaped {
            escaped = false;
        } else if c == '\\' {
            escaped = true;
        } else if c == '"' {
            return Some(k);
        }
        k = k + 1;
    }
    None
}

/// The first byte of a character's UTF-8 encoding.
pub open spec fn utf8_first(c: char) -> u16 {
    let v = c as u32;
    if v < 0x80 {
        v as u16
    } else if v < 0x800 {
        ((0xc0 | (v >> 6u32)) & 0xff) as u16
    } else if v < 0x10000 {
        ((0xe0 | (v >> 12u32)) & 0xff) as u16
    } else {
        ((0xf0 | (v >> 18u32)) & 0xff) as u16
    }
}

pub fn first_utf8_byte(c: char) -> (r: u16)
    ensures
        r == utf8_first(c),
        (c as u32) < 0x80 ==> r == c as u16,
{
    let v = c as u32;
    if v < 0x80 {
        v as u16
    } else if v < 0x800 {
        ((0xc0 | (v >> 6u32)) & 0xff) as u16
    } else if v < 0x10000 {
        ((0xe0 | (v >> 12u32)) & 0xff) as u16
    } else {
        ((0xf0 | (v >> 18u32)) & 0xff) as u16
    }
}

/// The character an escape letter stands for.
pub open spec fn escaped(c: char) -> char {
    if c == 'n' {
        '\n'
    } else if c == 't' {
        '\t'
    } else if c == '0' {
        '\0'
    } else {
        c
    }
}

/// Reading a string body from the left: the words so far, and whether the
/// last character was an unused backslash.
pub open spec fn unescape_state(s: Seq<char>) -> (Seq<u16>, bool)
    decreases s.len(),
{
    if s.len() == 0 {
        (seq![], false)
    } else {
        let (out, special) = unescape_state(s.drop_last());
        let c = s.last();
        if special {
            (out.push(utf8_first(escaped(c))), false)
        } else if c == '\\' {
            (out, true)
        } else {
            (out.push(utf8_first(c)), false)
        }
    }
}

/// The words of a string literal's body: `\n`, `\t` and `\0` stand for
/// newline, tab and zero, a backslash before any other character for that
/// character; each character gives the first byte of its UTF-8 encoding.
pub fn string_words(body: &[char]) -> (r: Vec<u16>)
    ensures
        r@ == unescape_state(body@).0,
{
    let mut r: Vec<u16> = Vec::new();
    let mut special = false;
    let mut i: usize = 0;
    while i < body.len()
        invariant
            0 <= i <= body.len(),
            (r@, special) == unescape_state(body@.take(i as int)),
        decreases body.len() - i,
    {
        let mut cur = body[i];
        assert(body@.take(i + 1).drop_last() =~= body@.take(i as int));
        if special {
            cur = if cur == 'n' {
                '\n'
            } else if cur == 't' {
                '\t'
            } else if cur == '0' {
                '\0'
            } else {
                cur
            };
            special = false;
            r.push(first_utf8_byte(cur));
        } else if cur == '\\' {
            special = true;
        } else {
            r.push(first_utf8_byte(cur));
        }
        i = i + 1;
    }
    assert(body@.take(i as int) =~= body@);
    r
}

fn sub_chars(chars: &Vec<char>, from: usize, to: usize) -> (r: Vec<char>)
    requires
        from <= to <= chars.len(),
    ensures
        r@ == chars@.subrange(from as int, to as int),
{
    let mut r: Vec<char> = Vec::new();
    let mut k = from;
    while k < to
        invariant
            from <= k <= to,
            to <= chars.len(),
            r@ == chars@.subrange(from as int, k as int),
        decreases to - k,
    {
        r.push(chars[k]);
        assert(chars@.subrange(from as int, k + 1) =~= chars@.subrange(from as int, k as int).push(
            chars@[k as int],
        ));
        k = k + 1;
    }
    r
}

fn advance(pos: ParsePosition, chars: &Vec<char>, from: usize, to: usize) -> (r: ParsePosition)
    requires
        from <= to <= chars.len(),
{
    let mut p = pos;
    let mut k = from;
    while k < to
        invariant
            from <= k <= to,
            to <= chars.len(),
        decreases to - k,
    {
        if p.pos < usize::MAX && p.line < usize::MAX && p.line_pos < usize::MAX {
            p.next(chars[k]);
        }
        k = k + 1;
    }
    p
}

/// Reads a listing into atoms.
pub struct AsmParse {
    pub chars: Vec<char>,
    pub atoms: Vec<FullAtom>,
    pub current_scope: usize,
}

impl AsmParse {
    pub fn new(chars: Vec<char>) -> (r: AsmParse)
        ensures
            r.chars@ == chars@,
            r.atoms@.len() == 0,
            r.current_scope == 0,
    {
        AsmParse { chars, atoms: Vec::new(), current_scope: 0 }
    }

    /// Reads the whole text, appending its atoms. Each `{` opens a block with
    /// an id greater than any before it.
    pub fn parse(&mut self) -> (r: Result<(), PosCompileError>)
        ensures
            final(self).chars@ == old(self).chars@,
            final(self).current_scope >= old(self).current_scope,
            r is Ok ==> exists|fresh: Seq<FullAtom>|
                final(self).atoms@ == old(self).atoms@ + fresh && ids_within(
                    fresh,
                    old(self).current_scope,
                    final(self).current_scope,
                ) && ids_distinct(fresh) && parse_spec(
                    old(self).chars@,
                    0,
                    old(self).chars@.len() as int,
                    old(self).current_scope,
                    seq![],
                ) == (
                    Ok::<Seq<Result<AtomView, ErrorView>>, ErrorView>(atoms_view(fresh)),
                    final(self).current_scope,
                ),
            r is Err ==> parse_spec(
                old(self).chars@,
                0,
                old(self).chars@.len() as int,
                old(self).current_scope,
                seq![],
            ).0 == Err::<Seq<Result<AtomView, ErrorView>>, ErrorView>(r->Err_0.error@),
    {
        let n = self.chars.len();
        let mut scope = self.current_scope;
        let mut fresh = parse_range(&self.chars, 0, n, ParsePosition { pos: 0, line: 0, line_pos: 0 }, &mut scope)?;
        let ghost f = fresh@;
        self.atoms.append(&mut fresh);
        self.current_scope = scope;
        assert(self.atoms@ == old(self).atoms@ + f);
        Ok(())
    }

    /// Reads the whole text and hands out its atoms.
    pub fn atoms(self) -> (r: Result<Vec<FullAtom>, PosCompileError>)
        ensures
            r is Ok ==> exists|fresh: Seq<FullAtom>|
                r->Ok_0@ == self.atoms@ + fresh && ids_within(fresh, self.current_scope, usize::MAX)
                    && ids_distinct(fresh) && parse_spec(
                    self.chars@,
                    0,
                    self.chars@.len() as int,
                    self.current_scope,
                    seq![],
                ).0 == Ok::<Seq<Result<AtomView, ErrorView>>, ErrorView>(atoms_view(fresh)),
            r is Err ==> parse_spec(
                self.chars@,
                0,
                self.chars@.len() as int,
                self.current_scope,
                seq![],
            ).0 == Err::<Seq<Result<AtomView, ErrorView>>, ErrorView>(r->Err_0.error@),
    {
        let mut p = self;
        p.parse()?;
        proof {
            let fresh = choose|fresh: Seq<FullAtom>|
                p.atoms@ == self.atoms@ + fresh && ids_within(fresh, self.current_scope, p.current_scope)
                    && ids_distinct(fresh) && parse_spec(
                    self.chars@,
                    0,
                    self.chars@.len() as int,
                    self.current_scope,
                    seq![],
                ) == (
                    Ok::<Seq<Result<AtomView, ErrorView>>, ErrorView>(atoms_view(fresh)),
                    p.current_scope,
                );
            lemma_ids_widen(fresh, self.current_scope, p.current_scope, usize::MAX);
        }
        Ok(p.atoms)
    }
}

/// The id of a block-opening atom.
pub open spec fn enter_id(a: FullAtom) -> Option<usize> {
    match a.compiled {
        Ok(Atom::EnterLocalScope(id)) => Some(id),
        _ => None,
    }
}

/// Every block id among the atoms lies in `(lo, hi]`.
pub open spec fn ids_within(v: Seq<FullAtom>, lo: usize, hi: usize) -> bool {
    forall|i: int|
        0 <= i < v.len() && (#[trigger] enter_id(v[i])) is Some ==> lo < enter_id(v[i])->0 <= hi
}

/// No two blocks among the atoms share an id.
pub open spec fn ids_distinct(v: Seq<FullAtom>) -> bool {
    forall|i: int, j: int|
        0 <= i < v.len() && 0 <= j < v.len() && i != j && (#[trigger] enter_id(v[i])) is Some
            && (#[trigger] enter_id(v[j])) is Some ==> enter_id(v[i])->0 != enter_id(v[j])->0
}

proof fn lemma_ids_widen(v: Seq<FullAtom>, lo: usize, a: usize, b: usize)
    requires
        ids_within(v, lo, a),
        a <= b,
    ensures
        ids_within(v, lo, b),
{
}

proof fn lemma_push_plain(v: Seq<FullAtom>, x: FullAtom, lo: usize, hi: usize)
    requires
        ids_within(v, lo, hi),
        ids_distinct(v),
        enter_id(x) is None,
    ensures
        ids_within(v.push(x), lo, hi),
        ids_distinct(v.push(x)),
{
    let w = v.push(x);
    assert forall|i: int| 0 <= i < w.len() && (#[trigger] enter_id(w[i])) is Some implies lo
        < enter_id(w[i])->0 <= hi by {
        assert(w[i] == v[i]);
    }
    assert forall|i: int, j: int|
        0 <= i < w.len() && 0 <= j < w.len() && i != j && (#[trigger] enter_id(w[i])) is Some && (
        #[trigger] enter_id(w[j])) is Some implies enter_id(w[i])->0 != enter_id(w[j])->0 by {
        assert(w[i] == v[i]);
        assert(w[j] == v[j]);
    }
}

proof fn lemma_push_enter(v: Seq<FullAtom>, x: FullAtom, lo: usize, hi: usize)
    requires
        lo <= hi,
        ids_within(v, lo, hi),
        ids_distinct(v),
        hi < usize::MAX,
        enter_id(x) == Some((hi + 1) as usize),
    ensures
        ids_within(v.push(x), lo, (hi + 1) as usize),
        ids_distinct(v.push(x)),
{
    let w = v.push(x);
    assert forall|i: int| 0 <= i < w.len() && (#[trigger] enter_id(w[i])) is Some implies lo
        < enter_id(w[i])->0 <= hi + 1 by {
        if i < v.len() {
            assert(w[i] == v[i]);
        }
    }
    assert forall|i: int, j: int|
        0 <= i < w.len() && 0 <= j < w.len() && i != j && (#[trigger] enter_id(w[i])) is Some && (
        #[trigger] enter_id(w[j])) is Some implies enter_id(w[i])->0 != enter_id(w[j])->0 by {
        if i < v.len() {
            assert(w[i] == v[i]);
        }
        if j < v.len() {
            assert(w[j] == v[j]);
        }
    }
}

proof fn lemma_append(v: Seq<FullAtom>, u: Seq<FullAtom>, lo: usize, mid: usize, hi: usize)
    requires
        ids_within(v, lo, mid),
        ids_distinct(v),
        ids_within(u, mid, hi),
        ids_distinct(u),
        lo <= mid <= hi,
    ensures
        ids_within(v + u, lo, hi),
        ids_distinct(v + u),
{
    let w = v + u;
    assert forall|i: int| 0 <= i < w.len() && (#[trigger] enter_id(w[i])) is Some implies lo
        < enter_id(w[i])->0 <= hi by {
        if i < v.len() {
            assert(w[i] == v[i]);
        } else {
            assert(w[i] == u[i - v.len()]);
        }
    }
    assert forall|i: int, j: int|
        0 <= i < w.len() && 0 <= j < w.len() && i != j && (#[trigger] enter_id(w[i])) is Some && (
        #[trigger] enter_id(w[j])) is Some implies enter_id(w[i])->0 != enter_id(w[j])->0 by {
        if i < v.len() {
            assert(w[i] == v[i]);
        } else {
            assert(w[i] == u[i - v.len()]);
        }
        if j < v.len() {
            assert(w[j] == v[j]);
        } else {
            assert(w[j] == u[j - v.len()]);
        }
    }
}

proof fn lemma_reinsert(v: Seq<FullAtom>, u: Seq<FullAtom>, lo: usize, mid: usize, hi: usize)
    requires
        v.len() > 0,
        ids_within(v, lo, mid),
        ids_distinct(v),
        ids_within(u, mid, hi),
        ids_distinct(u),
        lo <= mid <= hi,
    ensures
        ids_within((v.drop_last() + u).push(v.last()), lo, hi),
        ids_distinct((v.drop_last() + u).push(v.last())),
{
    let p = v.drop_last();
    let x = v.last();
    let w = (p + u).push(x);
    assert forall|i: int| 0 <= i < w.len() && (#[trigger] enter_id(w[i])) is Some implies lo
        < enter_id(w[i])->0 <= hi by {
        if i < p.len() {
            assert(w[i] == v[i]);
        } else if i < p.len() + u.len() {
            assert(w[i] == u[i - p.len()]);
        } else {
            assert(w[i] == v[v.len() - 1]);
        }
    }
    assert forall|i: int, j: int|
        0 <= i < w.len() && 0 <= j < w.len() && i != j && (#[trigger] enter_id(w[i])) is Some && (
        #[trigger] enter_id(w[j])) is Some implies enter_id(w[i])->0 != enter_id(w[j])->0 by {
        let vi: int = if i < p.len() {
            i
        } else if i < p.len() + u.len() {
            -1
        } else {
            v.len() - 1
        };
        let vj: int = if j < p.len() {
            j
        } else if j < p.len() + u.len() {
            -1
        } else {
            v.len() - 1
        };
        if vi >= 0 {
            assert(w[i] == v[vi]);
        } else {
            assert(w[i] == u[i - p.len()]);
        }
        if vj >= 0 {
            assert(w[j] == v[vj]);
        } else {
            assert(w[j] == u[j - p.len()]);
        }
    }
}

/// Where a statement that starts at `k` ends: after a `:`, or before a
/// character that ends statements.
pub open spec fn stmt_end_spec(c: Seq<char>, k: int, end: int, prev: char) -> int
    decreases end - k,
{
    if k >= end || k < 0 {
        end
    } else if prev == ':' || is_end(c[k]) {
        k
    } else {
        stmt_end_spec(c, k + 1, end, c[k])
    }
}

/// Where a comment that starts at `k` ends: before the newline.
pub open spec fn comment_end_spec(c: Seq<char>, k: int, end: int) -> int
    decreases end - k,
{
    if k >= end || k < 0 {
        end
    } else if c[k] == '\n' {
        k
    } else {
        comment_end_spec(c, k + 1, end)
    }
}

/// Where a numeric literal that starts at `k` ends: before whitespace or a
/// character that ends statements.
pub open spec fn number_end_spec(c: Seq<char>, k: int, end: int) -> int
    decreases end - k,
{
    if k >= end || k < 0 {
        end
    } else if is_space(c[k]) || is_end(c[k]) {
        k
    } else {
        number_end_spec(c, k + 1, end)
    }
}

pub open spec fn is_letter(ch: char) -> bool {
    ('a' <= ch && ch <= 'z') || ('A' <= ch && ch <= 'Z') || ch == '$'
}

pub open spec fn is_numeric(ch: char) -> bool {
    ('0' <= ch && ch <= '9') || ch == '+' || ch == '-'
}

/// What a statement's text reads as: a label where it ends in `:`, else an instruction.
pub open spec fn stmt_atom(text: Seq<char>) -> Result<AtomView, ErrorView> {
    if text.len() > 0 && text.last() == ':' {
        Ok(AtomView::Label(text.drop_last()))
    } else {
        stmt_spec(text)
    }
}

/// What a numeric literal reads as: one raw word.
pub open spec fn number_atom(text: Seq<char>) -> Result<AtomView, ErrorView> {
    let up = upper_seq(text);
    match constant_spec(up) {
        Some(v) => Ok(AtomView::Instruction(InstrView::Custom(v))),
        None => Err(ErrorView::InvalidNumber(up)),
    }
}

/// Reading `c[i..end]` with `acc` read so far and `scope` the last block id
/// given: the atoms (each read or failed), or the error that stopped
/// reading, and the last block id given.
pub open spec fn parse_spec(
    c: Seq<char>,
    i: int,
    end: int,
    scope: usize,
    acc: Seq<Result<AtomView, ErrorView>>,
) -> (Result<Seq<Result<AtomView, ErrorView>>, ErrorView>, usize)
    decreases end - i,
{
    if i >= end || i < 0 {
        (Ok(acc), scope)
    } else {
        let ch = c[i];
        if is_letter(ch) {
            let k = stmt_end_spec(c, i, end, '\0');
            let next = if k > i && k <= end {
                k
            } else {
                i + 1
            };
            parse_spec(c, next, end, scope, acc.push(stmt_atom(c.subrange(i, next))))
        } else if ch == '#' {
            let k = comment_end_spec(c, i, end);
            let next = if k > i && k <= end {
                k
            } else {
                i + 1
            };
            parse_spec(c, next, end, scope, acc)
        } else if is_numeric(ch) {
            let k = number_end_spec(c, i, end);
            let next = if k > i && k <= end {
                k
            } else {
                i + 1
            };
            parse_spec(c, next, end, scope, acc.push(number_atom(c.subrange(i, next))))
        } else if ch == '"' {
            match string_end_spec(c, i + 1, end, false) {
                Some(k) if i < k < end => parse_spec(
                    c,
                    k + 1,
                    end,
                    scope,
                    acc.push(
                        Ok(
                            AtomView::Instruction(
                                InstrView::CustomMulti(unescape_state(c.subrange(i + 1, k as int)).0),
                            ),
                        ),
                    ),
                ),
                _ => (Err(ErrorView::UnexpectedEndOfFile), scope),
            }
        } else if ch == '{' {
            match close_spec(c, i + 1, end, 0, '{', '}') {
                Some(k) if i < k < end => if scope == usize::MAX {
                    (Err(ErrorView::TooManyAttempts), scope)
                } else {
                    let id = (scope + 1) as usize;
                    let (inner, s2) = parse_spec(c, i + 1, k as int, id, seq![]);
                    match inner {
                        Err(e) => (Err(e), s2),
                        Ok(v) => parse_spec(
                            c,
                            k + 1,
                            end,
                            s2,
                            (acc.push(Ok(AtomView::EnterLocalScope(id))) + v).push(
                                Ok(AtomView::LeaveLocalScope),
                            ),
                        ),
                    }
                },
                _ => (Err(ErrorView::UnexpectedEndOfFile), scope),
            }
        } else if ch == '(' {
            match close_spec(c, i + 1, end, 0, '(', ')') {
                Some(k) if i < k < end => {
                    let (inner, s2) = parse_spec(c, i + 1, k as int, scope, seq![]);
                    match inner {
                        Err(e) => (Err(e), s2),
                        Ok(v) => parse_spec(
                            c,
                            k + 1,
                            end,
                            s2,
                            if acc.len() > 0 {
                                (acc.drop_last() + v).push(acc.last())
                            } else {
                                v
                            },
                        ),
                    }
                },
                _ => (Err(ErrorView::UnexpectedEndOfFile), scope),
            }
        } else if ch == '}' || ch == ')' {
            parse_spec(c, i + 1, end, scope, acc.push(Err(ErrorView::UnmatchedClosingBracket)))
        } else if is_end(ch) || is_space(ch) {
            parse_spec(c, i + 1, end, scope, acc)
        } else {
            parse_spec(c, i + 1, end, scope, acc.push(Err(ErrorView::UnknownToken(ch))))
        }
    }
}

/// What a whole listing reads as.
pub open spec fn listing_spec(s: Seq<char>) -> Result<Seq<Result<AtomView, ErrorView>>, ErrorView> {
    parse_spec(s, 0, s.len() as int, 0, seq![]).0
}

pub open spec fn atom_result(a: FullAtom) -> Result<AtomView, ErrorView> {
    res_atom(a.compiled)
}

pub open spec fn atoms_view(v: Seq<FullAtom>) -> Seq<Result<AtomView, ErrorView>> {
    v.map_values(|a: FullAtom| atom_result(a))
}

/// Reads `chars[start..end]`, whose first character stands at `pos`, into
/// atoms. Blocks get the ids after `*scope`, in the order they open.
#[verifier::rlimit(100)]
fn parse_range(
    chars: &Vec<char>,
    start: usize,
    end: usize,
    pos: ParsePosition,
    scope: &mut usize,
) -> (r: Result<Vec<FullAtom>, PosCompileError>)
    requires
        start <= end <= chars.len(),
    ensures
        *final(scope) >= *old(scope),
        r is Ok ==> ids_within(r->Ok_0@, *old(scope), *final(scope)) && ids_distinct(r->Ok_0@),
        r is Ok ==> parse_spec(chars@, start as int, end as int, *old(scope), seq![]) == (
            Ok::<Seq<Result<AtomView, ErrorView>>, ErrorView>(atoms_view(r->Ok_0@)),
            *final(scope),
        ),
        r is Err ==> parse_spec(chars@, start as int, end as int, *old(scope), seq![]).0 == Err::<
            Seq<Result<AtomView, ErrorView>>,
            ErrorView,
        >(r->Err_0.error@),
    decreases end - start,
{
    let mut atoms: Vec<FullAtom> = Vec::new();
    let mut i = start;
    let mut p = pos;
    assert(atoms_view(atoms@) =~= Seq::<Result<AtomView, ErrorView>>::empty());
    while i < end
        invariant
            start <= i <= end,
            end <= chars.len(),
            *scope >= *old(scope),
            ids_within(atoms@, *old(scope), *scope),
            ids_distinct(atoms@),
            parse_spec(chars@, start as int, end as int, *old(scope), seq![]) == parse_spec(
                chars@,
                i as int,
                end as int,
                *scope,
                atoms_view(atoms@),
            ),
        decreases end - i,
    {
        let ghost before = atoms@;
        let ghost sc0 = *scope;
        let ghost whole = parse_spec(chars@, start as int, end as int, *old(scope), seq![]);
        let c = chars[i];
        let start_pos = p;
        if letter_checker(c) {
            let mut k = i;
            let mut prev = '\0';
            while k < end
                invariant
                    i <= k <= end,
                    i < end,
                    end <= chars.len(),
                    is_letter(chars@[i as int]),
                    k == i ==> prev == '\0',
                    stmt_end_spec(chars@, i as int, end as int, '\0') == stmt_end_spec(
                        chars@,
                        k as int,
                        end as int,
                        prev,
                    ),
                ensures
                    k > i,
                    stmt_end_spec(chars@, i as int, end as int, '\0') == k as int,
                decreases end - k,
            {
                let cur = chars[k];
                if prev == ':' || end_checker(cur) {
                    break ;
                }
                prev = cur;
                k = k + 1;
            }
            assert(k > i);
            let text = sub_chars(chars, i, k);
            let compiled = if text.len() > 0 && text[text.len() - 1] == ':' {
                let mut name = text;
                name.pop();
                Ok(Atom::Label(name))
            } else {
                parse_instruction(text.as_slice())
            };
            p = advance(p, chars, i, k);
            let fa = FullAtom { start_pos, end_pos: p, compiled };
            proof {
                lemma_push_plain(before, fa, *old(scope), *scope);
                assert(atom_result(fa) == stmt_atom(chars@.subrange(i as int, k as int)));
            }
            atoms.push(fa);
            assert(atoms_view(atoms@) =~= atoms_view(before).push(atom_result(fa)));
            i = k;
        } else if c == '#' {
            let mut k = i;
            while k < end && chars[k] != '\n'
                invariant
                    i <= k <= end,
                    end <= chars.len(),
                    comment_end_spec(chars@, i as int, end as int) == comment_end_spec(
                        chars@,
                        k as int,
                        end as int,
                    ),
                decreases end - k,
            {
                k = k + 1;
            }
            p = advance(p, chars, i, k);
            i = if k > i {
                k
            } else {
                i + 1
            };
        } else if nummeric_checker(c) {
            let mut k = i;
            while k < end && !whitespace_checker(chars[k]) && !end_checker(chars[k])
                invariant
                    i <= k <= end,
                    end <= chars.len(),
                    number_end_spec(chars@, i as int, end as int) == number_end_spec(
                        chars@,
                        k as int,
                        end as int,
                    ),
                decreases end - k,
            {
                k = k + 1;
            }
            assert(!is_space(c) && !is_end(c));
            assert(k > i);
            let text = to_upper(sub_chars(chars, i, k).as_slice());
            let compiled = match parse_u16_constant(text.as_slice()) {
                Ok(v) => Ok(Atom::Instruction(Instruction::Custom(CustomInstruction::new(v)))),
                Err(e) => Err(e),
            };
            p = advance(p, chars, i, k);
            let fa = FullAtom { start_pos, end_pos: p, compiled };
            proof {
                lemma_push_plain(before, fa, *old(scope), *scope);
                assert(atom_result(fa) == number_atom(chars@.subrange(i as int, k as int)));
            }
            atoms.push(fa);
            assert(atoms_view(atoms@) =~= atoms_view(before).push(atom_result(fa)));
            i = k;
        } else if c == '"' {
            match find_string_end(chars, i + 1, end) {
                None => {
                    return Err(CompileError::UnexpectedEndOfFile.with_pos(start_pos));
                },
                Some(k) => {
                    let body = sub_chars(chars, i + 1, k);
                    let words = string_words(body.as_slice());
                    p = advance(p, chars, i, k + 1);
                    let fa = FullAtom {
                        start_pos,
                        end_pos: p,
                        compiled: Ok(
                            Atom::Instruction(Instruction::CustomMulti(CustomMultiInstruction::new(words))),
                        ),
                    };
                    proof {
                        lemma_push_plain(before, fa, *old(scope), *scope);
                    }
                    atoms.push(fa);
                    assert(atoms_view(atoms@) =~= atoms_view(before).push(atom_result(fa)));
                    i = k + 1;
                },
            }
        } else if c == '{' {
            match find_close(chars, i + 1, end, '{', '}') {
                None => {
                    return Err(CompileError::UnexpectedEndOfFile.with_pos(start_pos));
                },
                Some(k) => {
                    if *scope == usize::MAX {
                        return Err(CompileError::TooManyAttempts.with_pos(start_pos));
                    }
                    let ghost s0 = *scope;
                    *scope = *scope + 1;
                    let id = *scope;
                    let enter = FullAtom {
                        start_pos,
                        end_pos: start_pos,
                        compiled: Ok(Atom::EnterLocalScope(id)),
                    };
                    proof {
                        lemma_push_enter(before, enter, *old(scope), s0);
                    }
                    atoms.push(enter);
                    let ghost s1 = *scope;
                    let inner_pos = advance(p, chars, i, i + 1);
                    let ghost with_enter = atoms@;
                    let mut inner = parse_range(chars, i + 1, k, inner_pos, scope)?;
                    proof {
                        lemma_append(atoms@, inner@, *old(scope), s1, *scope);
                    }
                    let ghost inner_v = inner@;
                    atoms.append(&mut inner);
                    p = advance(p, chars, i, k + 1);
                    let leave = FullAtom { start_pos: p, end_pos: p, compiled: Ok(Atom::LeaveLocalScope) };
                    proof {
                        lemma_push_plain(atoms@, leave, *old(scope), *scope);
                    }
                    atoms.push(leave);
                    assert(atoms_view(atoms@) =~= (atoms_view(before).push(
                        Ok(AtomView::EnterLocalScope(id)),
                    ) + atoms_view(inner_v)).push(Ok(AtomView::LeaveLocalScope)));
                    i = k + 1;
                },
            }
        } else if c == '(' {
            match find_close(chars, i + 1, end, '(', ')') {
                None => {
                    return Err(CompileError::UnexpectedEndOfFile.with_pos(start_pos));
                },
                Some(k) => {
                    let ghost s1 = *scope;
                    let last = atoms.pop();
                    let ghost popped = atoms@;
                    assert(before.len() > 0 ==> popped == before.drop_last() && last == Some(before.last()));
                    assert(before.len() == 0 ==> popped == before && last is None);
                    let inner_pos = advance(p, chars, i, i + 1);
                    let mut inner = parse_range(chars, i + 1, k, inner_pos, scope)?;
                    proof {
                        if before.len() > 0 {
                            lemma_reinsert(before, inner@, *old(scope), s1, *scope);
                        } else {
                            lemma_append(before, inner@, *old(scope), s1, *scope);
                        }
                        lemma_ids_widen(before, *old(scope), s1, s1);
                    }
                    let ghost inner_v = inner@;
                    atoms.append(&mut inner);
                    assert(atoms@ == popped + inner_v);
                    if let Some(l) = last {
                        atoms.push(l);
                        assert(atoms@ == (before.drop_last() + inner_v).push(before.last()));
                        assert(atoms_view(atoms@) =~= (atoms_view(before).drop_last() + atoms_view(
                            inner_v,
                        )).push(atoms_view(before).last()));
                    } else {
                        assert(atoms@ == before + inner_v);
                        assert(atoms_view(atoms@) =~= atoms_view(inner_v));
                    }
                    p = advance(p, chars, i, k + 1);
                    i = k + 1;
                },
            }
        } else if c == '}' || c == ')' {
            p = advance(p, chars, i, i + 1);
            let fa = FullAtom { start_pos, end_pos: p, compiled: Err(CompileError::UnmatchedClosingBracket) };
            proof {
                lemma_push_plain(before, fa, *old(scope), *scope);
            }
            atoms.push(fa);
            assert(atoms_view(atoms@) =~= atoms_view(before).push(atom_result(fa)));
            i = i + 1;
        } else if end_checker(c) || whitespace_checker(c) {
            p = advance(p, chars, i, i + 1);
            i = i + 1;
        } else {
            p = advance(p, chars, i, i + 1);
            let fa = FullAtom { start_pos, end_pos: p, compiled: Err(CompileError::UnknownToken(c)) };
            proof {
                lemma_push_plain(before, fa, *old(scope), *scope);
            }
            atoms.push(fa);
            assert(atoms_view(atoms@) =~= atoms_view(before).push(atom_result(fa)));
            i = i + 1;
        }
    }
    Ok(atoms)
}

/// The characters of a string slice.
pub fn chars_of(s: &str) -> (r: Vec<char>)
    ensures
        r@ == s@,
{
    let n = s.unicode_len();
    let mut r: Vec<char> = Vec::new();
    let mut i: usize = 0;
    while i < n
        invariant
            n == s@.len(),
            0 <= i <= n,
            r@ == s@.take(i as int),
        decreases n - i,
    {
        r.push(s.get_char(i));
        assert(s@.take(i + 1) =~= s@.take(i as int).push(s@[i as int]));
        i = i + 1;
    }
    assert(s@.take(i as int) =~= s@);
    r
}

/// Reads a listing into atoms, each with its source range. Blocks get
/// distinct ids from 1 on.
pub fn parse_listing(inp: &str) -> (r: Result<Vec<FullAtom>, PosCompileError>)
    ensures
        r is Ok ==> ids_within(r->Ok_0@, 0, usize::MAX) && ids_distinct(r->Ok_0@),
        r is Ok ==> listing_spec(inp@) == Ok::<Seq<Result<AtomView, ErrorView>>, ErrorView>(
            atoms_view(r->Ok_0@),
        ),
        r is Err ==> listing_spec(inp@) == Err::<Seq<Result<AtomView, ErrorView>>, ErrorView>(
            r->Err_0.error@,
        ),
{
    let p = AsmParse::new(chars_of(inp));
    let r = p.atoms();
    proof {
        if r is Ok {
            let fresh = choose|fresh: Seq<FullAtom>|
                r->Ok_0@ == p.atoms@ + fresh && ids_within(fresh, p.current_scope, usize::MAX)
                    && ids_distinct(fresh) && parse_spec(
                    p.chars@,
                    0,
                    p.chars@.len() as int,
                    p.current_scope,
                    seq![],
                ).0 == Ok::<Seq<Result<AtomView, ErrorView>>, ErrorView>(atoms_view(fresh));
            assert(r->Ok_0@ =~= fresh);
        }
    }
    r
}

/// Every atom of a listing read without error.
pub open spec fn all_read(l: Seq<Result<AtomView, ErrorView>>) -> bool {
    forall|k: int| 0 <= k < l.len() ==> (#[trigger] l[k]) is Ok
}

pub open spec fn read_atoms(l: Seq<Result<AtomView, ErrorView>>) -> Seq<AtomView> {
    l.map_values(|r: Result<AtomView, ErrorView>| r->Ok_0)
}

/// `s` reads without error into atoms that compile to the words `w`.
pub open spec fn compiles_to(s: Seq<char>, w: Seq<u16>) -> bool {
    match listing_spec(s) {
        Ok(l) => all_read(l) && exists|atoms: Seq<Atom>|
            atom_views(atoms) == read_atoms(l) && program_spec(atoms) == Ok::<
                Seq<u16>,
                Seq<ErrorView>,
            >(w),
        Err(_) => false,
    }
}

/// Parses and compiles a listing: every atom that fails to read is reported
/// with its position; otherwise the atoms are compiled.
pub fn parse_and_compile(source: &str) -> (r: Result<Vec<u16>, Vec<PosCompileError>>)
    ensures
        r is Ok ==> compiles_to(source@, r->Ok_0@),
        (exists|w: Seq<u16>| compiles_to(source@, w)) ==> r is Ok,
{
    let mut listing = match parse_listing(source) {
        Ok(l) => l,
        Err(e) => {
            return Err(vec![e]);
        },
    };
    let ghost l0 = listing@;
    let ghost lv = atoms_view(l0);
    assert(listing_spec(source@) == Ok::<Seq<Result<AtomView, ErrorView>>, ErrorView>(lv));
    assert(l0.take(l0.len() as int) =~= l0);
    let n = listing.len();
    let mut rev: Vec<FullAtom> = Vec::new();
    while listing.len() > 0
        invariant
            listing@.len() + rev@.len() == n,
            n == l0.len(),
            listing@ == l0.take(listing@.len() as int),
            forall|k: int| 0 <= k < rev@.len() ==> rev@[k] == l0[n - 1 - k],
        decreases listing.len(),
    {
        let ghost m = listing@.len();
        match listing.pop() {
            Some(fa) => {
                assert(fa == l0[m - 1]);
                rev.push(fa);
                assert(l0.take(m as int).drop_last() =~= l0.take(m - 1));
            },
            None => {},
        }
    }
    let mut errors: Vec<PosCompileError> = Vec::new();
    let mut atoms: Vec<Atom> = Vec::new();
    while rev.len() > 0
        invariant
            rev@.len() <= n,
            n == l0.len(),
            lv == atoms_view(l0),
            forall|k: int| 0 <= k < rev@.len() ==> rev@[k] == l0[n - 1 - k],
            errors@.len() == 0 ==> all_read(lv.take(n - rev@.len())) && atom_views(atoms@)
                == read_atoms(lv.take(n - rev@.len())),
            errors@.len() > 0 ==> !all_read(lv.take(n - rev@.len())),
        decreases rev.len(),
    {
        let ghost done = n - rev@.len();
        let ghost pre = lv.take(done);
        assert(lv.take(done + 1) =~= pre.push(lv[done]));
        let fa = rev.pop().unwrap();
        assert(fa == l0[done]);
        assert(lv[done] == atom_result(fa));
        match fa.compiled {
            Ok(a) => {
                let ghost before = atoms@;
                atoms.push(a);
                proof {
                    if errors@.len() == 0 {
                        assert(atom_views(atoms@) =~= atom_views(before).push(a@));
                        assert(read_atoms(pre.push(lv[done])) =~= read_atoms(pre).push(a@));
                        assert forall|k: int| 0 <= k < pre.push(lv[done]).len() implies (#[trigger] pre.push(
                            lv[done],
                        )[k]) is Ok by {
                            if k < pre.len() {
                                assert(pre.push(lv[done])[k] == pre[k]);
                            }
                        }
                    } else {
                        assert(!all_read(pre));
                        let k = choose|k: int| 0 <= k < pre.len() && !(pre[k] is Ok);
                        assert(pre.push(lv[done])[k] == pre[k]);
                    }
                }
            },
            Err(e) => {
                errors.push(e.with_range(fa.start_pos, fa.end_pos));
                proof {
                    assert(!(pre.push(lv[done])[done as int] is Ok));
                }
            },
        }
    }
    assert(lv.take(n as int) =~= lv);
    if errors.len() > 0 {
        return Err(errors);
    }
    match compile_program(&atoms) {
        Ok(w) => {
            assert(program_spec(atoms@) == Ok::<Seq<u16>, Seq<ErrorView>>(w@));
            Ok(w)
        },
        Err(es) => {
            proof {
                assert forall|w: Seq<u16>| !compiles_to(source@, w) by {
                    if compiles_to(source@, w) {
                        let other = choose|atoms2: Seq<Atom>|
                            atom_views(atoms2) == read_atoms(lv) && program_spec(atoms2) == Ok::<
                                Seq<u16>,
                                Seq<ErrorView>,
                            >(w);
                        lemma_program_spec_views(atoms@, other);
                    }
                }
            }
            let mut out: Vec<PosCompileError> = Vec::new();
            for e in es {
                out.push(e.with_pos(ParsePosition { pos: 0, line: 0, line_pos: 0 }));
            }
            Err(out)
        },
    }
}

/// Compiling the same source text twice gives the same words.
pub proof fn lemma_source_deterministic(s: Seq<char>, w1: Seq<u16>, w2: Seq<u16>)
    requires
        compiles_to(s, w1),
        compiles_to(s, w2),
    ensures
        w1 == w2,
{
    let l = listing_spec(s)->Ok_0;
    let a1 = choose|atoms: Seq<Atom>|
        atom_views(atoms) == read_atoms(l) && program_spec(atoms) == Ok::<Seq<u16>, Seq<ErrorView>>(w1);
    let a2 = choose|atoms: Seq<Atom>|
        atom_views(atoms) == read_atoms(l) && program_spec(atoms) == Ok::<Seq<u16>, Seq<ErrorView>>(w2);
    lemma_program_spec_views(a1, a2);
}

} // verus!
