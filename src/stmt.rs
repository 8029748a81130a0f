use vstd::prelude::*;

use crate::asm_stack::{
    ConstInternalOp, StackAluInstruction, StackBaseInstruction, StackBaseOperation,
    StackFunctionInstruction, StackFunctionOperation, StackLocalInstruction, StackMemInstruction,
};
use crate::compile::{Atom, Instruction};
use crate::cpu::Register;
use crate::error::{CompileError, ErrorView};
use crate::jump::JumpOperation;
use crate::load_const::{LoadConstInstruction, LoadConstOperation};
use crate::ops::{
    alu_binary, branch_shift_ok, mem_shift_ok, AluInstruction, AluOperation, BranchInstruction,
    MemInstruction, MemOperation,
};
use crate::parse::contains_char;
use crate::parse_parts::{constant_spec, register_spec, upper_seq, words_of};
use crate::stackop::{
    AluStackOp, ConstStackOp, LocalOperation, LocalStackOp, ManipStackOp, ManipStackOperation,
    StackOperation,
};

verus! {

/// An instruction statement with its texts seen as sequences.
pub enum InstrView {
    Nop,
    Custom(u16),
    CustomMulti(Seq<u16>),
    Alu(AluInstruction),
    Mem(MemInstruction),
    Branch(BranchInstruction),
    LoadConst(LoadConstInstruction),
    LoadLabel(Register, Seq<char>),
    Jump(JumpOperation, Seq<char>, Register),
    StackBase(StackBaseInstruction),
    StackMem(StackMemInstruction),
    StackAlu(StackAluInstruction),
    StackJump(JumpOperation, Seq<char>),
    StackCall(Seq<char>),
    StackLabel(Seq<char>),
    StackLocal(StackLocalInstruction),
    StackFunction(StackFunctionInstruction),
    StackOp(StackOperation),
    StackConstLabel(Seq<char>),
    StackConst(u16),
    StackAConst(u16),
}

impl View for Instruction {
    type V = InstrView;

    open spec fn view(&self) -> InstrView {
        match self {
            Instruction::Nop(_) => InstrView::Nop,
            Instruction::Custom(c) => InstrView::Custom(c.val),
            Instruction::CustomMulti(c) => InstrView::CustomMulti(c.val@),
            Instruction::Alu(a) => InstrView::Alu(*a),
            Instruction::Mem(m) => InstrView::Mem(*m),
            Instruction::Branch(b) => InstrView::Branch(*b),
            Instruction::LoadConst(l) => InstrView::LoadConst(*l),
            Instruction::LoadLabel(l) => InstrView::LoadLabel(l.dst, l.label@),
            Instruction::Jump(j) => InstrView::Jump(j.op, j.targ@, j.cond),
            Instruction::StackBase(b) => InstrView::StackBase(*b),
            Instruction::StackMem(m) => InstrView::StackMem(*m),
            Instruction::StackAlu(a) => InstrView::StackAlu(*a),
            Instruction::StackJump(j) => InstrView::StackJump(j.op, j.targ@),
            Instruction::StackCall(c) => InstrView::StackCall(c.targ@),
            Instruction::StackLabel(l) => InstrView::StackLabel(l.label@),
            Instruction::StackLocal(l) => InstrView::StackLocal(*l),
            Instruction::StackFunction(f) => InstrView::StackFunction(*f),
            Instruction::StackOp(o) => InstrView::StackOp(o.op),
            Instruction::StackConst(c) => match c.val {
                ConstInternalOp::Label(l) => InstrView::StackConstLabel(l@),
                ConstInternalOp::Const(v) => InstrView::StackConst(v),
                ConstInternalOp::AConst(v) => InstrView::StackAConst(v),
            },
        }
    }
}

/// An atom with its texts seen as sequences.
pub enum AtomView {
    Instruction(InstrView),
    Label(Seq<char>),
    EnterLocalScope(usize),
    LeaveLocalScope,
    Nop,
}

impl View for Atom {
    type V = AtomView;

    open spec fn view(&self) -> AtomView {
        match self {
            Atom::Instruction(i) => AtomView::Instruction(i@),
            Atom::Label(l) => AtomView::Label(l@),
            Atom::EnterLocalScope(id) => AtomView::EnterLocalScope(*id),
            Atom::LeaveLocalScope => AtomView::LeaveLocalScope,
            Atom::Nop => AtomView::Nop,
        }
    }
}

pub open spec fn alu_named(s: Seq<char>) -> Option<AluOperation> {
    if s == "ADD"@ {
        Some(AluOperation::ADD)
    } else if s == "AND"@ {
        Some(AluOperation::AND)
    } else if s == "SUB"@ {
        Some(AluOperation::SUB)
    } else if s == "OR"@ {
        Some(AluOperation::OR)
    } else if s == "MOV"@ {
        Some(AluOperation::MOV)
    } else if s == "INC"@ {
        Some(AluOperation::INC)
    } else if s == "DEC"@ {
        Some(AluOperation::DEC)
    } else if s == "NOT"@ {
        Some(AluOperation::NOT)
    } else if s == "NEG"@ {
        Some(AluOperation::NEG)
    } else {
        None
    }
}

pub open spec fn mem_named(s: Seq<char>) -> Option<MemOperation> {
    if s == "LOAD"@ {
        Some(MemOperation::LOAD)
    } else if s == "STORE"@ {
        Some(MemOperation::STORE)
    } else if s == "LADD"@ {
        Some(MemOperation::LADD)
    } else if s == "LSUB"@ {
        Some(MemOperation::LSUB)
    } else {
        None
    }
}

pub open spec fn jump_named(s: Seq<char>) -> Option<JumpOperation> {
    if s == "JMP"@ {
        Some(JumpOperation::JMP)
    } else if s == "JEQ"@ {
        Some(JumpOperation::JEQ)
    } else if s == "JGT"@ {
        Some(JumpOperation::JGT)
    } else if s == "JLT"@ {
        Some(JumpOperation::JLT)
    } else if s == "JLE"@ {
        Some(JumpOperation::JLE)
    } else if s == "JGE"@ {
        Some(JumpOperation::JGE)
    } else if s == "JNE"@ {
        Some(JumpOperation::JNE)
    } else {
        None
    }
}

pub open spec fn lconst_named(s: Seq<char>) -> Option<LoadConstOperation> {
    if s == "LCONST"@ {
        Some(LoadConstOperation::LOAD)
    } else if s == "ACONST"@ {
        Some(LoadConstOperation::ADD)
    } else {
        None
    }
}

pub open spec fn base_named(s: Seq<char>) -> Option<StackBaseOperation> {
    if s == "INIT"@ {
        Some(StackBaseOperation::INIT)
    } else if s == "PUSH"@ {
        Some(StackBaseOperation::PUSH)
    } else if s == "POP"@ {
        Some(StackBaseOperation::POP)
    } else {
        None
    }
}

pub open spec fn func_named(s: Seq<char>) -> Option<StackFunctionOperation> {
    if s == "FUNC"@ {
        Some(StackFunctionOperation::INIT)
    } else if s == "RET"@ {
        Some(StackFunctionOperation::RETURN)
    } else {
        None
    }
}

pub open spec fn local_named(s: Seq<char>) -> Option<LocalOperation> {
    if s == "LOCINIT"@ {
        Some(LocalOperation::LOCINIT)
    } else if s == "LOCEND"@ {
        Some(LocalOperation::LOCEND)
    } else if s == "LVAR"@ {
        Some(LocalOperation::LOAD(crate::stackop::StackLocalMode::VAR))
    } else if s == "SVAR"@ {
        Some(LocalOperation::STORE(crate::stackop::StackLocalMode::VAR))
    } else if s == "AVAR"@ {
        Some(LocalOperation::ADDR(crate::stackop::StackLocalMode::VAR))
    } else if s == "LARG"@ {
        Some(LocalOperation::LOAD(crate::stackop::StackLocalMode::ARG))
    } else if s == "SARG"@ {
        Some(LocalOperation::STORE(crate::stackop::StackLocalMode::ARG))
    } else if s == "AARG"@ {
        Some(LocalOperation::ADDR(crate::stackop::StackLocalMode::ARG))
    } else {
        None
    }
}

pub open spec fn manip_named(s: Seq<char>) -> Option<ManipStackOp> {
    if s == "SWP"@ {
        Some(ManipStackOp { op: ManipStackOperation::Swp })
    } else if s == "DUP"@ {
        Some(ManipStackOp { op: ManipStackOperation::Dup })
    } else if s == "DROP"@ {
        Some(ManipStackOp { op: ManipStackOperation::Drop(1) })
    } else if s == "PUZX"@ {
        Some(ManipStackOp { op: ManipStackOperation::Puzx })
    } else {
        None
    }
}

/// Operand `k` of a statement's words, read as a register.
pub open spec fn reg_arg(ws: Seq<Seq<char>>, k: int) -> Result<Register, ErrorView> {
    if 0 <= k < ws.len() {
        match register_spec(ws[k]) {
            Some(r) => Ok(r),
            None => Err(ErrorView::UnknownRegister(ws[k])),
        }
    } else {
        Err(ErrorView::NotEnoughArguments)
    }
}

/// Operand `k`, read as a numeric literal.
pub open spec fn const_arg(ws: Seq<Seq<char>>, k: int) -> Result<u16, ErrorView> {
    if 0 <= k < ws.len() {
        match constant_spec(ws[k]) {
            Some(v) => Ok(v),
            None => Err(ErrorView::InvalidNumber(ws[k])),
        }
    } else {
        Err(ErrorView::NotEnoughArguments)
    }
}

/// Operand `k`, read as a signed byte.
pub open spec fn shift_arg(ws: Seq<Seq<char>>, k: int) -> Result<i8, ErrorView> {
    match const_arg(ws, k) {
        Err(e) => Err(e),
        Ok(v) => if v < 128 || v >= 0xff80 {
            Ok(v as i8)
        } else {
            Err(ErrorView::InvalidNumber(ws[k]))
        },
    }
}

/// Operand `k`, a label name.
pub open spec fn label_arg(ws: Seq<Seq<char>>, k: int) -> Result<Seq<char>, ErrorView> {
    if 0 <= k < ws.len() {
        Ok(ws[k])
    } else {
        Err(ErrorView::NotEnoughArguments)
    }
}

/// A stack statement: `cmd` is its mnemonic after the `$`, its operands are
/// the words from index `b` on.
pub open spec fn stack_stmt(cmd: Seq<char>, flags: Seq<char>, ws: Seq<Seq<char>>, b: int) -> Result<
    InstrView,
    ErrorView,
> {
    if manip_named(cmd) is Some {
        Ok(InstrView::StackOp(StackOperation::Manip(manip_named(cmd)->0)))
    } else if base_named(cmd) is Some {
        let op = base_named(cmd)->0;
        let reg = if op == StackBaseOperation::INIT {
            Ok(Register::ZX)
        } else {
            reg_arg(ws, b)
        };
        match reg {
            Err(e) => Err(e),
            Ok(r) => Ok(InstrView::StackBase(StackBaseInstruction { op, reg: r })),
        }
    } else if local_named(cmd) is Some {
        let op = local_named(cmd)->0;
        let idx = if op == LocalOperation::LOCEND {
            Ok(0u16)
        } else {
            const_arg(ws, b)
        };
        match idx {
            Err(e) => Err(e),
            Ok(i) => Ok(InstrView::StackOp(StackOperation::Local(LocalStackOp { op, idx: i }))),
        }
    } else if cmd == "PLABEL"@ {
        match label_arg(ws, b) {
            Err(e) => Err(e),
            Ok(l) => Ok(InstrView::StackLabel(l)),
        }
    } else if cmd == "PCONST"@ {
        match const_arg(ws, b) {
            Err(e) => Err(e),
            Ok(v) => Ok(InstrView::StackOp(StackOperation::Const(ConstStackOp { val: v, do_add: false }))),
        }
    } else if cmd == "ACONST"@ {
        match const_arg(ws, b) {
            Err(e) => Err(e),
            Ok(v) => Ok(InstrView::StackOp(StackOperation::Const(ConstStackOp { val: v, do_add: true }))),
        }
    } else if alu_named(cmd) is Some {
        Ok(
            InstrView::StackOp(
                StackOperation::Alu(
                    AluStackOp {
                        op: alu_named(cmd)->0,
                        nx: contains_char(flags, 'X'),
                        ny: contains_char(flags, 'Y'),
                        no: contains_char(flags, 'O'),
                    },
                ),
            ),
        )
    } else if mem_named(cmd) is Some {
        let hl = contains_char(flags, 'H') || contains_char(flags, 'L');
        Ok(
            InstrView::StackMem(
                StackMemInstruction {
                    op: mem_named(cmd)->0,
                    hi: hl && contains_char(flags, 'H'),
                    lo: hl && contains_char(flags, 'L'),
                    sw: contains_char(flags, 'S'),
                },
            ),
        )
    } else if jump_named(cmd) is Some {
        match label_arg(ws, b) {
            Err(e) => Err(e),
            Ok(l) => Ok(InstrView::StackJump(jump_named(cmd)->0, l)),
        }
    } else if func_named(cmd) is Some {
        if func_named(cmd)->0 == StackFunctionOperation::INIT {
            match (const_arg(ws, b), const_arg(ws, b + 1), const_arg(ws, b + 2)) {
                (Err(e), _, _) => Err(e),
                (Ok(_), Err(e), _) => Err(e),
                (Ok(_), Ok(_), Err(e)) => Err(e),
                (Ok(l), Ok(a), Ok(r)) => Ok(
                    InstrView::StackFunction(
                        StackFunctionInstruction {
                            op: StackFunctionOperation::INIT,
                            locals: l,
                            args: a,
                            returned: r,
                        },
                    ),
                ),
            }
        } else {
            Ok(
                InstrView::StackFunction(
                    StackFunctionInstruction {
                        op: StackFunctionOperation::RETURN,
                        locals: 0,
                        args: 0,
                        returned: 0,
                    },
                ),
            )
        }
    } else if cmd == "CALL"@ {
        match label_arg(ws, b) {
            Err(e) => Err(e),
            Ok(l) => Ok(InstrView::StackCall(l)),
        }
    } else {
        Err(ErrorView::UnknownCommand("$"@ + cmd))
    }
}

/// A statement of the machine's own instructions and macros, or a stack
/// statement after `$`; its operands are the words from index `b` on.
pub open spec fn statement(cmd: Seq<char>, flags: Seq<char>, ws: Seq<Seq<char>>, b: int) -> Result<
    InstrView,
    ErrorView,
> {
    if cmd == "NOP"@ {
        Ok(InstrView::Nop)
    } else if alu_named(cmd) is Some {
        let op = alu_named(cmd)->0;
        match (reg_arg(ws, b), reg_arg(ws, b + 1)) {
            (Err(e), _) => Err(e),
            (Ok(_), Err(e)) => Err(e),
            (Ok(d), Ok(a)) => {
                let src_b = if alu_binary(op) {
                    reg_arg(ws, b + 2)
                } else {
                    Ok(Register::ZX)
                };
                match src_b {
                    Err(e) => Err(e),
                    Ok(y) => Ok(
                        InstrView::Alu(
                            AluInstruction {
                                op,
                                dst: d,
                                src_a: a,
                                src_b: y,
                                nx: contains_char(flags, 'X'),
                                ny: contains_char(flags, 'Y'),
                                no: contains_char(flags, 'O'),
                            },
                        ),
                    ),
                }
            },
        }
    } else if mem_named(cmd) is Some {
        match (reg_arg(ws, b), reg_arg(ws, b + 1), shift_arg(ws, b + 2)) {
            (Err(e), _, _) => Err(e),
            (Ok(_), Err(e), _) => Err(e),
            (Ok(_), Ok(_), Err(e)) => Err(e),
            (Ok(d), Ok(a), Ok(s)) => if !mem_shift_ok(s) {
                Err(ErrorView::ShiftIsTooBig(s))
            } else {
                Ok(
                    InstrView::Mem(
                        MemInstruction {
                            op: mem_named(cmd)->0,
                            dst: d,
                            addr: a,
                            shift: s,
                            hi: contains_char(flags, 'H'),
                            lo: contains_char(flags, 'L'),
                            sw: contains_char(flags, 'S'),
                        },
                    ),
                )
            },
        }
    } else if cmd == "BRANCH"@ {
        match (reg_arg(ws, b), shift_arg(ws, b + 1)) {
            (Err(e), _) => Err(e),
            (Ok(_), Err(e)) => Err(e),
            (Ok(c), Ok(s)) => if !branch_shift_ok(s) {
                Err(ErrorView::ShiftIsTooBig(s))
            } else {
                let any = contains_char(flags, 'E') || contains_char(flags, 'G') || contains_char(flags, 'L');
                Ok(
                    InstrView::Branch(
                        BranchInstruction {
                            eq: !any || contains_char(flags, 'E'),
                            gt: !any || contains_char(flags, 'G'),
                            lt: !any || contains_char(flags, 'L'),
                            cond: c,
                            shift: s,
                        },
                    ),
                )
            },
        }
    } else if lconst_named(cmd) is Some {
        match (reg_arg(ws, b), const_arg(ws, b + 1)) {
            (Err(e), _) => Err(e),
            (Ok(_), Err(e)) => Err(e),
            (Ok(d), Ok(v)) => Ok(
                InstrView::LoadConst(LoadConstInstruction { op: lconst_named(cmd)->0, dst: d, val: v }),
            ),
        }
    } else if cmd == "HALT"@ {
        Ok(
            InstrView::Mem(
                MemInstruction {
                    op: MemOperation::STORE,
                    dst: Register::ZX,
                    addr: Register::ZX,
                    shift: -1i8,
                    hi: false,
                    lo: false,
                    sw: false,
                },
            ),
        )
    } else if cmd == "LLABEL"@ {
        match (reg_arg(ws, b), label_arg(ws, b + 1)) {
            (Err(e), _) => Err(e),
            (Ok(_), Err(e)) => Err(e),
            (Ok(d), Ok(l)) => Ok(InstrView::LoadLabel(d, l)),
        }
    } else if jump_named(cmd) is Some {
        let op = jump_named(cmd)->0;
        if op == JumpOperation::JMP {
            match label_arg(ws, b) {
                Err(e) => Err(e),
                Ok(l) => Ok(InstrView::Jump(op, l, Register::ZX)),
            }
        } else {
            match (reg_arg(ws, b), label_arg(ws, b + 1)) {
                (Err(e), _) => Err(e),
                (Ok(_), Err(e)) => Err(e),
                (Ok(c), Ok(l)) => Ok(InstrView::Jump(op, l, c)),
            }
        }
    } else if cmd.len() > 0 && cmd[0] == '$' {
        stack_stmt(cmd.skip(1), flags, ws, b)
    } else {
        Err(ErrorView::UnknownCommand(cmd))
    }
}

/// The index of the first `.` of `s`, or its length.
pub open spec fn dot_index(s: Seq<char>) -> int
    decreases s.len(),
{
    if s.len() == 0 {
        0
    } else if s[0] == '.' {
        0
    } else {
        1 + dot_index(s.skip(1))
    }
}

/// The mnemonic before the first `.`, and the flags after it.
pub open spec fn split_spec(s: Seq<char>) -> (Seq<char>, Seq<char>) {
    let d = dot_index(s);
    if d < s.len() {
        (s.take(d), s.skip(d + 1))
    } else {
        (s, seq![])
    }
}

/// What a statement's text parses to: its words upper-cased, the first split
/// into mnemonic and flags, the rest operands.
pub open spec fn stmt_spec(s: Seq<char>) -> Result<AtomView, ErrorView> {
    let ws = words_of(upper_seq(s));
    if ws.len() == 0 {
        Err(ErrorView::NoCommandSupplied)
    } else {
        let (cmd, flags) = split_spec(ws[0]);
        match statement(cmd, flags, ws, 1) {
            Ok(i) => Ok(AtomView::Instruction(i)),
            Err(e) => Err(e),
        }
    }
}

pub open spec fn res_instr(r: Result<Instruction, CompileError>) -> Result<InstrView, ErrorView> {
    match r {
        Ok(i) => Ok(i@),
        Err(e) => Err(e@),
    }
}

pub open spec fn res_atom(r: Result<Atom, CompileError>) -> Result<AtomView, ErrorView> {
    match r {
        Ok(a) => Ok(a@),
        Err(e) => Err(e@),
    }
}

} // verus!
