use vstd::prelude::*;

use crate::context::{wadd, wrapping_add16, wrapping_sub16, wsub};
use crate::cpu::{self, Register};
use crate::load_const::{instr_add, load_const_spec, LoadConstOperation};
use crate::ops::{alu_binary, alu_op_spec, mem_op_spec, AluOperation, MemOperation};

verus! {

/// The stack must be in memory (no value held in registers) before the operation.
pub const FLAG_SAVE_STACK: u16 = 1;

/// The operation moves the stack pointer itself.
pub const FLAG_RESET_STACK: u16 = 2;

/// The operation has an effect beyond its pushed values.
pub const FLAG_IMPURE: u16 = 4;

/// What a stack operation takes from the stack, pushes back, needs as scratch
/// registers, and its flags.
#[derive(Copy, Clone, Debug, PartialEq, Eq, Structural)]
pub struct StackOpSignature {
    pub flags: u16,
    pub takes: usize,
    pub pushes: usize,
    pub temps: usize,
}

impl StackOpSignature {
    /// Whether any of the flags in `other` is set.
    pub fn check(&self, other: u16) -> (r: bool)
        ensures
            r == (self.flags & other != 0),
    {
        self.flags & other != 0
    }
}

/// Reorderings of the top of the stack.
#[derive(Copy, Clone, Debug, PartialEq, Eq, Structural)]
pub enum ManipStackOperation {
    Swp,
    Dup,
    Drop(u8),
    Puzx,
}

#[derive(Copy, Clone, Debug, PartialEq, Eq, Structural)]
pub struct ManipStackOp {
    pub op: ManipStackOperation,
}

impl ManipStackOp {
    pub fn swp() -> (r: ManipStackOp)
        ensures
            r.op == ManipStackOperation::Swp,
    {
        ManipStackOp { op: ManipStackOperation::Swp }
    }

    pub fn dup() -> (r: ManipStackOp)
        ensures
            r.op == ManipStackOperation::Dup,
    {
        ManipStackOp { op: ManipStackOperation::Dup }
    }

    pub fn drop(n: u8) -> (r: ManipStackOp)
        ensures
            r.op == ManipStackOperation::Drop(n),
    {
        ManipStackOp { op: ManipStackOperation::Drop(n) }
    }

    pub fn puzx() -> (r: ManipStackOp)
        ensures
            r.op == ManipStackOperation::Puzx,
    {
        ManipStackOp { op: ManipStackOperation::Puzx }
    }
}

/// Whether a local lives above the frame pointer (a variable) or below it (an argument).
#[derive(Copy, Clone, Debug, PartialEq, Eq, Structural)]
pub enum StackLocalMode {
    VAR,
    ARG,
}

#[derive(Copy, Clone, Debug, PartialEq, Eq, Structural)]
pub enum LocalOperation {
    LOCINIT,
    LOCEND,
    LOAD(StackLocalMode),
    STORE(StackLocalMode),
    ADDR(StackLocalMode),
}

/// A frame operation: open or close a frame of `idx` locals, or load, store
/// or take the address of local `idx`.
#[derive(Copy, Clone, Debug, PartialEq, Eq, Structural)]
pub struct LocalStackOp {
    pub op: LocalOperation,
    pub idx: u16,
}

impl LocalStackOp {
    pub fn new(op: LocalOperation, idx: u16) -> (r: LocalStackOp)
        ensures
            r.op == op,
            r.idx == idx,
    {
        LocalStackOp { op, idx }
    }
}

/// An ALU operation on the top of the stack.
#[derive(Copy, Clone, Debug, PartialEq, Eq, Structural)]
pub struct AluStackOp {
    pub op: AluOperation,
    pub nx: bool,
    pub ny: bool,
    pub no: bool,
}

/// Push a constant, or add one to the top of the stack.
#[derive(Copy, Clone, Debug, PartialEq, Eq, Structural)]
pub struct ConstStackOp {
    pub val: u16,
    pub do_add: bool,
}

impl ConstStackOp {
    pub fn new(val: u16, do_add: bool) -> (r: ConstStackOp)
        ensures
            r.val == val,
            r.do_add == do_add,
    {
        ConstStackOp { val, do_add }
    }
}

/// One operation of the stack virtual instruction set.
#[derive(Copy, Clone, Debug, PartialEq, Eq, Structural)]
pub enum StackOperation {
    Manip(ManipStackOp),
    Local(LocalStackOp),
    Alu(AluStackOp),
    Const(ConstStackOp),
}

pub open spec fn sig(takes: usize, pushes: usize, temps: usize, flags: u16) -> StackOpSignature {
    StackOpSignature { flags, takes, pushes, temps }
}

pub open spec fn signature_spec(op: StackOperation) -> StackOpSignature {
    match op {
        StackOperation::Manip(m) => match m.op {
            ManipStackOperation::Swp => sig(2, 2, 0, 0),
            ManipStackOperation::Dup => sig(1, 2, 0, 0),
            ManipStackOperation::Drop(n) => sig(n as usize, 0, 0, 0),
            ManipStackOperation::Puzx => sig(0, 1, 0, 0),
        },
        StackOperation::Local(l) => match l.op {
            LocalOperation::LOCINIT | LocalOperation::LOCEND => sig(0, 0, 0, 7),
            LocalOperation::STORE(_) => sig(1, 0, 1, 4),
            _ => sig(0, 1, 0, 0),
        },
        StackOperation::Alu(a) => if alu_binary(a.op) {
            sig(2, 1, 0, 0)
        } else {
            sig(1, 1, 0, 0)
        },
        StackOperation::Const(c) => if c.do_add {
            sig(1, 1, 0, 0)
        } else {
            sig(0, 1, 0, 0)
        },
    }
}

impl StackOperation {
    pub fn signature(&self) -> (r: StackOpSignature)
        ensures
            r == signature_spec(*self),
    {
        match self {
            StackOperation::Manip(m) => match m.op {
                ManipStackOperation::Swp => StackOpSignature { flags: 0, takes: 2, pushes: 2, temps: 0 },
                ManipStackOperation::Dup => StackOpSignature { flags: 0, takes: 1, pushes: 2, temps: 0 },
                ManipStackOperation::Drop(n) => StackOpSignature {
                    flags: 0,
                    takes: n as usize,
                    pushes: 0,
                    temps: 0,
                },
                ManipStackOperation::Puzx => StackOpSignature { flags: 0, takes: 0, pushes: 1, temps: 0 },
            },
            StackOperation::Local(l) => match l.op {
                LocalOperation::LOCINIT | LocalOperation::LOCEND => StackOpSignature {
                    flags: 7,
                    takes: 0,
                    pushes: 0,
                    temps: 0,
                },
                LocalOperation::STORE(_) => StackOpSignature { flags: 4, takes: 1, pushes: 0, temps: 1 },
                _ => StackOpSignature { flags: 0, takes: 0, pushes: 1, temps: 0 },
            },
            StackOperation::Alu(a) => if a.op.is_binary() {
                StackOpSignature { flags: 0, takes: 2, pushes: 1, temps: 0 }
            } else {
                StackOpSignature { flags: 0, takes: 1, pushes: 1, temps: 0 }
            },
            StackOperation::Const(c) => if c.do_add {
                StackOpSignature { flags: 0, takes: 1, pushes: 1, temps: 0 }
            } else {
                StackOpSignature { flags: 0, takes: 0, pushes: 1, temps: 0 }
            },
        }
    }
}

/// Whether the register lists are long enough for the operation's signature.
pub open spec fn regs_fit(op: StackOperation, inps: Seq<Register>, outs: Seq<Register>, temps: Seq<
    Register,
>) -> bool {
    let s = signature_spec(op);
    &&& inps.len() >= s.takes
    &&& outs.len() >= s.pushes
    &&& temps.len() >= s.temps
}

pub open spec fn alu_spec(a: AluOperation, dst: Register, x: Register, y: Register) -> cpu::Instruction {
    alu_op_spec(a, dst, x, y, false, false, false)
}

pub open spec fn mem_spec(m: MemOperation, dst: Register, addr: Register, shift: i8) -> cpu::Instruction {
    mem_op_spec(m, dst, addr, shift, false, false, false)
}

/// The address of a local: `LP + idx` for variables, `LP - 4 - idx` for arguments.
pub open spec fn local_shift(mode: StackLocalMode, idx: u16) -> u16 {
    match mode {
        StackLocalMode::VAR => idx,
        StackLocalMode::ARG => wsub(wsub(0, 4), idx),
    }
}

pub open spec fn local_addr_spec(out: Register, mode: StackLocalMode, idx: u16) -> Seq<cpu::Instruction> {
    seq![alu_spec(AluOperation::MOV, out, Register::LP, Register::ZX)] + load_const_spec(
        LoadConstOperation::ADD,
        out,
        local_shift(mode, idx),
    )
}

/// What the operation emits given the registers of its inputs, outputs and
/// scratch, and which registers then hold its outputs.
pub open spec fn execute_spec(
    op: StackOperation,
    inps: Seq<Register>,
    outs: Seq<Register>,
    temps: Seq<Register>,
) -> (Seq<cpu::Instruction>, Seq<Register>) {
    match op {
        StackOperation::Manip(m) => match m.op {
            ManipStackOperation::Swp => (seq![], outs.update(0, inps[1]).update(1, inps[0])),
            ManipStackOperation::Dup => (seq![], outs.update(0, inps[0]).update(1, inps[0])),
            ManipStackOperation::Drop(_) => (seq![], outs),
            ManipStackOperation::Puzx => (seq![], outs.update(0, Register::ZX)),
        },
        StackOperation::Local(l) => match l.op {
            LocalOperation::LOCINIT => (
                seq![
                    mem_spec(MemOperation::STORE, Register::LP, Register::SP, 0),
                    alu_spec(AluOperation::INC, Register::LP, Register::SP, Register::ZX),
                ] + load_const_spec(LoadConstOperation::ADD, Register::SP, wadd(l.idx, 1)),
                outs,
            ),
            LocalOperation::LOCEND => (
                seq![
                    alu_spec(AluOperation::DEC, Register::SP, Register::LP, Register::ZX),
                    mem_spec(MemOperation::LOAD, Register::LP, Register::SP, 0),
                ],
                outs,
            ),
            LocalOperation::LOAD(mode) => (
                local_addr_spec(outs[0], mode, l.idx) + seq![
                    mem_spec(MemOperation::LOAD, outs[0], outs[0], 0),
                ],
                outs,
            ),
            LocalOperation::STORE(mode) => (
                local_addr_spec(temps[0], mode, l.idx) + seq![
                    mem_spec(MemOperation::STORE, inps[0], temps[0], 0),
                ],
                outs,
            ),
            LocalOperation::ADDR(mode) => (local_addr_spec(outs[0], mode, l.idx), outs),
        },
        StackOperation::Alu(a) => (
            seq![
                alu_op_spec(
                    a.op,
                    outs[0],
                    inps[0],
                    if alu_binary(a.op) {
                        inps[1]
                    } else {
                        Register::ZX
                    },
                    a.nx,
                    a.ny,
                    a.no,
                ),
            ],
            outs,
        ),
        StackOperation::Const(c) => if c.do_add {
            (
                seq![alu_spec(AluOperation::MOV, outs[0], inps[0], Register::ZX)]
                    + load_const_spec(LoadConstOperation::ADD, outs[0], c.val),
                outs,
            )
        } else {
            (load_const_spec(LoadConstOperation::LOAD, outs[0], c.val), outs)
        },
    }
}

fn mem_word(m: MemOperation, dst: Register, addr: Register, shift: i8) -> (r: cpu::Instruction)
    requires
        -3 <= shift <= 3,
    ensures
        r == mem_spec(m, dst, addr, shift),
{
    match m.instr(dst, addr, shift) {
        Ok(i) => i,
        Err(_) => cpu::Instruction::NOP,
    }
}

fn local_addr(out: Register, mode: StackLocalMode, idx: u16) -> (r: Vec<cpu::Instruction>)
    ensures
        r@ == local_addr_spec(out, mode, idx),
{
    let shift = match mode {
        StackLocalMode::VAR => idx,
        StackLocalMode::ARG => wrapping_sub16(wrapping_sub16(0, 4), idx),
    };
    let mut r = vec![AluOperation::MOV.instr(out, Register::LP, Register::ZX)];
    let mut v = instr_add(out, shift);
    r.append(&mut v);
    assert(r@ =~= local_addr_spec(out, mode, idx));
    r
}

impl StackOperation {
    /// Emits the operation's work on the given registers; may rename which
    /// registers hold the outputs.
    fn execute_regs(
        &self,
        inps: &Vec<Register>,
        outs: &mut Vec<Register>,
        temps: &Vec<Register>,
    ) -> (r: Vec<cpu::Instruction>)
        requires
            regs_fit(*self, inps@, old(outs)@, temps@),
        ensures
            (r@, final(outs)@) == execute_spec(*self, inps@, old(outs)@, temps@),
    {
        match self {
            StackOperation::Manip(m) => {
                match m.op {
                    ManipStackOperation::Swp => {
                        let a = inps[1];
                        let b = inps[0];
                        outs.set(0, a);
                        outs.set(1, b);
                    },
                    ManipStackOperation::Dup => {
                        let a = inps[0];
                        outs.set(0, a);
                        outs.set(1, a);
                    },
                    ManipStackOperation::Drop(_) => {},
                    ManipStackOperation::Puzx => {
                        outs.set(0, Register::ZX);
                    },
                }
                Vec::new()
            },
            StackOperation::Local(l) => match l.op {
                LocalOperation::LOCINIT => {
                    let mut r = vec![
                        mem_word(MemOperation::STORE, Register::LP, Register::SP, 0),
                        AluOperation::INC.instr(Register::LP, Register::SP, Register::ZX),
                    ];
                    let mut v = instr_add(Register::SP, wrapping_add16(l.idx, 1));
                    r.append(&mut v);
                    r
                },
                LocalOperation::LOCEND => {
                    vec![
                        AluOperation::DEC.instr(Register::SP, Register::LP, Register::ZX),
                        mem_word(MemOperation::LOAD, Register::LP, Register::SP, 0),
                    ]
                },
                LocalOperation::LOAD(mode) => {
                    let mut r = local_addr(outs[0], mode, l.idx);
                    r.push(mem_word(MemOperation::LOAD, outs[0], outs[0], 0));
                    r
                },
                LocalOperation::STORE(mode) => {
                    let mut r = local_addr(temps[0], mode, l.idx);
                    r.push(mem_word(MemOperation::STORE, inps[0], temps[0], 0));
                    r
                },
                LocalOperation::ADDR(mode) => local_addr(outs[0], mode, l.idx),
            },
            StackOperation::Alu(a) => {
                let y = if a.op.is_binary() {
                    inps[1]
                } else {
                    Register::ZX
                };
                vec![a.op.instr_flags(outs[0], inps[0], y, a.nx, a.ny, a.no)]
            },
            StackOperation::Const(c) => {
                if c.do_add {
                    let mut r = vec![AluOperation::MOV.instr(outs[0], inps[0], Register::ZX)];
                    let mut v = instr_add(outs[0], c.val);
                    r.append(&mut v);
                    r
                } else {
                    crate::load_const::instr_const(LoadConstOperation::LOAD, outs[0], c.val)
                }
            },
        }
    }
}

/// Every instruction of `s` can be encoded.
pub open spec fn all_valid(s: Seq<cpu::Instruction>) -> bool {
    forall|i: int| 0 <= i < s.len() ==> cpu::valid_instruction(#[trigger] s[i])
}

pub proof fn lemma_load_const_valid(op: LoadConstOperation, dst: Register, val: u16)
    ensures
        all_valid(load_const_spec(op, dst, val)),
{
    let s = load_const_spec(op, dst, val);
    assert forall|i: int| 0 <= i < s.len() implies cpu::valid_instruction(#[trigger] s[i]) by {}
}

pub proof fn lemma_execute_valid(
    op: StackOperation,
    inps: Seq<Register>,
    outs: Seq<Register>,
    temps: Seq<Register>,
)
    ensures
        all_valid(execute_spec(op, inps, outs, temps).0),
{
    match op {
        StackOperation::Local(l) => {
            match l.op {
                LocalOperation::LOCINIT => {
                    lemma_load_const_valid(LoadConstOperation::ADD, Register::SP, wadd(l.idx, 1));
                },
                LocalOperation::LOAD(mode) => {
                    lemma_load_const_valid(LoadConstOperation::ADD, outs[0], local_shift(mode, l.idx));
                },
                LocalOperation::STORE(mode) => {
                    lemma_load_const_valid(LoadConstOperation::ADD, temps[0], local_shift(mode, l.idx));
                },
                LocalOperation::ADDR(mode) => {
                    lemma_load_const_valid(LoadConstOperation::ADD, outs[0], local_shift(mode, l.idx));
                },
                _ => {},
            }
        },
        StackOperation::Const(c) => {
            lemma_load_const_valid(LoadConstOperation::ADD, outs[0], c.val);
            lemma_load_const_valid(LoadConstOperation::LOAD, outs[0], c.val);
        },
        _ => {},
    }
    let s = execute_spec(op, inps, outs, temps).0;
    assert forall|i: int| 0 <= i < s.len() implies cpu::valid_instruction(#[trigger] s[i]) by {
        match op {
            StackOperation::Local(l) => {
                match l.op {
                    LocalOperation::LOCINIT => {
                        let t = load_const_spec(LoadConstOperation::ADD, Register::SP, wadd(l.idx, 1));
                        if i >= 2 {
                            assert(s[i] == t[i - 2]);
                        }
                    },
                    LocalOperation::LOAD(mode) => {
                        let t = local_addr_spec(outs[0], mode, l.idx);
                        if 1 <= i < t.len() {
                            assert(s[i] == t[i]);
                            assert(t[i] == load_const_spec(LoadConstOperation::ADD, outs[0], local_shift(mode, l.idx))[i - 1]);
                        }
                    },
                    LocalOperation::STORE(mode) => {
                        let t = local_addr_spec(temps[0], mode, l.idx);
                        if 1 <= i < t.len() {
                            assert(s[i] == t[i]);
                            assert(t[i] == load_const_spec(LoadConstOperation::ADD, temps[0], local_shift(mode, l.idx))[i - 1]);
                        }
                    },
                    LocalOperation::ADDR(mode) => {
                        if 1 <= i {
                            assert(s[i] == load_const_spec(LoadConstOperation::ADD, outs[0], local_shift(mode, l.idx))[i - 1]);
                        }
                    },
                    _ => {},
                }
            },
            StackOperation::Const(c) => {
                if c.do_add && i >= 1 {
                    assert(s[i] == load_const_spec(LoadConstOperation::ADD, outs[0], c.val)[i - 1]);
                }
            },
            _ => {},
        }
    }
}

/// The registers an operation works on: its inputs (deepest first), its
/// outputs and its scratch registers.
pub struct StackExecCtx {
    pub inps: Vec<Register>,
    pub outs: Vec<Register>,
    pub temps: Vec<Register>,
}

impl StackOperation {
    /// Emits the operation's work on the registers of `stack`; may rename
    /// which registers hold the outputs.
    pub fn execute(&self, stack: &mut StackExecCtx) -> (r: Vec<cpu::Instruction>)
        requires
            regs_fit(*self, old(stack).inps@, old(stack).outs@, old(stack).temps@),
        ensures
            (r@, final(stack).outs@) == execute_spec(
                *self,
                old(stack).inps@,
                old(stack).outs@,
                old(stack).temps@,
            ),
            final(stack).inps == old(stack).inps,
            final(stack).temps == old(stack).temps,
    {
        self.execute_regs(&stack.inps, &mut stack.outs, &stack.temps)
    }
}

/// `n` copies of `i`.
pub open spec fn repeat(i: cpu::Instruction, n: nat) -> Seq<cpu::Instruction>
    decreases n,
{
    if n == 0 {
        seq![]
    } else {
        repeat(i, (n - 1) as nat).push(i)
    }
}

pub open spec fn dec_sp() -> cpu::Instruction {
    alu_spec(AluOperation::DEC, Register::SP, Register::SP, Register::ZX)
}

pub open spec fn inc_sp() -> cpu::Instruction {
    alu_spec(AluOperation::INC, Register::SP, Register::SP, Register::ZX)
}

/// The words that move SP by `k`.
pub open spec fn shift_sp(k: int) -> Seq<cpu::Instruction> {
    if k < 0 {
        repeat(dec_sp(), (-k) as nat)
    } else {
        repeat(inc_sp(), k as nat)
    }
}

/// Loads of the `takes` (at most two) top values into `inps`, topmost first.
pub open spec fn loads_spec(inps: Seq<Register>, takes: nat) -> Seq<cpu::Instruction> {
    if takes == 0 {
        seq![]
    } else if takes == 1 {
        seq![mem_spec(MemOperation::LOAD, inps[0], Register::SP, -1i8)]
    } else {
        seq![
            mem_spec(MemOperation::LOAD, inps[1], Register::SP, -1i8),
            mem_spec(MemOperation::LOAD, inps[0], Register::SP, -2i8),
        ]
    }
}

/// Stores of the first `n` outputs at `SP + base`, `SP + base + 1`, ...
pub open spec fn stores_spec(outs: Seq<Register>, n: nat, base: int) -> Seq<cpu::Instruction>
    decreases n,
{
    if n == 0 {
        seq![]
    } else {
        stores_spec(outs, (n - 1) as nat, base).push(
            mem_spec(MemOperation::STORE, outs[n - 1], Register::SP, (base + n - 1) as i8),
        )
    }
}

pub open spec fn naive_regs() -> Seq<Register> {
    seq![Register::R2, Register::R3, Register::R4, Register::R5]
}

pub open spec fn naive_temps(temps: usize) -> Seq<Register> {
    naive_regs().reverse().take(temps as int)
}

pub open spec fn naive_outs(temps: usize) -> Seq<Register> {
    naive_regs().take(4 - temps)
}

/// The naive compilation: pure operations that push nothing only lower SP;
/// the others load their inputs from below SP, do their work, store their
/// outputs and leave SP at the new top.
pub open spec fn compile_stackop_spec(op: StackOperation) -> Seq<cpu::Instruction> {
    let s = signature_spec(op);
    if s.pushes == 0 && s.flags & FLAG_IMPURE == 0 {
        repeat(dec_sp(), s.takes as nat)
    } else {
        let save = s.flags & FLAG_SAVE_STACK != 0;
        let base: int = if save {
            0
        } else {
            -(s.takes as int)
        };
        let (body, outs) = execute_spec(
            op,
            naive_regs(),
            naive_outs(s.temps),
            naive_temps(s.temps),
        );
        loads_spec(naive_regs(), s.takes as nat) + (if save {
            repeat(dec_sp(), s.takes as nat)
        } else {
            seq![]
        }) + body + stores_spec(outs, s.pushes as nat, base) + shift_sp(base + s.pushes)
    }
}

fn push_repeat(r: &mut Vec<cpu::Instruction>, i: cpu::Instruction, n: usize)
    ensures
        final(r)@ == old(r)@ + repeat(i, n as nat),
{
    let mut k: usize = 0;
    while k < n
        invariant
            0 <= k <= n,
            r@ == old(r)@ + repeat(i, k as nat),
        decreases n - k,
    {
        r.push(i);
        assert(old(r)@ + repeat(i, (k + 1) as nat) =~= (old(r)@ + repeat(i, k as nat)).push(i));
        k = k + 1;
    }
}

/// Compiles one stack operation without keeping anything in registers.
pub fn compile_stackop(op: StackOperation) -> (r: Vec<cpu::Instruction>)
    requires
        signature_spec(op).takes <= 2 || (signature_spec(op).pushes == 0 && signature_spec(
            op,
        ).flags & FLAG_IMPURE == 0),
    ensures
        r@ == compile_stackop_spec(op),
{
    let s = op.signature();
    let dec = AluOperation::DEC.instr(Register::SP, Register::SP, Register::ZX);
    let inc = AluOperation::INC.instr(Register::SP, Register::SP, Register::ZX);
    let mut r: Vec<cpu::Instruction> = Vec::new();
    if s.pushes == 0 && !s.check(FLAG_IMPURE) {
        push_repeat(&mut r, dec, s.takes);
        assert(r@ =~= compile_stackop_spec(op));
        return r;
    }
    let inps = vec![Register::R2, Register::R3, Register::R4, Register::R5];
    let mut outs = vec![Register::R2, Register::R3, Register::R4, Register::R5];
    let mut temps: Vec<Register> = Vec::new();
    if s.temps > 0 {
        temps.push(Register::R5);
        outs.pop();
    }
    assert(inps@ =~= naive_regs());
    assert(outs@ =~= naive_outs(s.temps));
    assert(temps@ =~= naive_temps(s.temps));
    if s.takes == 2 {
        r.push(mem_word(MemOperation::LOAD, inps[1], Register::SP, -1));
        r.push(mem_word(MemOperation::LOAD, inps[0], Register::SP, -2));
    } else if s.takes == 1 {
        r.push(mem_word(MemOperation::LOAD, inps[0], Register::SP, -1));
    }
    assert(r@ =~= loads_spec(naive_regs(), s.takes as nat));
    let ghost r1 = r@;
    let save = s.check(FLAG_SAVE_STACK);
    let mut base: i8 = -(s.takes as i8);
    if save {
        push_repeat(&mut r, dec, s.takes);
        base = 0;
    }
    let ghost r2 = r@;
    let mut stack = StackExecCtx { inps, outs, temps };
    let mut body = op.execute(&mut stack);
    let outs = stack.outs;
    r.append(&mut body);
    let ghost r3 = r@;
    let mut i: usize = 0;
    while i < s.pushes
        invariant
            0 <= i <= s.pushes,
            s.pushes <= 2,
            outs@.len() >= s.pushes,
            -2 <= base <= 0,
            r@ == r3 + stores_spec(outs@, i as nat, base as int),
        decreases s.pushes - i,
    {
        r.push(mem_word(MemOperation::STORE, outs[i], Register::SP, base + i as i8));
        i = i + 1;
    }
    let fin: i8 = base + s.pushes as i8;
    if fin < 0 {
        push_repeat(&mut r, dec, (-fin) as usize);
    } else {
        push_repeat(&mut r, inc, fin as usize);
    }
    assert(r@ =~= compile_stackop_spec(op));
    r
}

} // verus!
