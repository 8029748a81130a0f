use vstd::prelude::*;

use crate::context::{label_offset_spec, wsub, CompileContext, Env};
use crate::cpu::{self, Register};
use crate::error::{res_view, CompileError, ErrorView};
use crate::load_const::{instr_add, load_const_spec, LoadConstOperation};
use crate::ops::{alu_op_spec, mem_op_spec, AluOperation, MemOperation};

verus! {

/// The jumps: unconditional, and on each comparison of a register with zero.
#[derive(Copy, Clone, Debug, PartialEq, Eq, Structural)]
pub enum JumpOperation {
    JMP,
    JEQ,
    JGT,
    JLT,
    JLE,
    JGE,
    JNE,
}

/// The branch flags `(eq, gt, lt)` under which the jump is taken.
pub open spec fn jump_flags(op: JumpOperation) -> (bool, bool, bool) {
    match op {
        JumpOperation::JMP => (true, true, true),
        JumpOperation::JEQ => (true, false, false),
        JumpOperation::JGT => (false, true, false),
        JumpOperation::JLT => (false, false, true),
        JumpOperation::JGE => (true, true, false),
        JumpOperation::JLE => (true, false, true),
        JumpOperation::JNE => (false, true, true),
    }
}

/// The branch shift for an offset, where it lies within 31 words either way.
pub open spec fn short_shift(t: u16) -> Option<i8> {
    if t < 32 {
        Some(t as i8)
    } else if t > 0xffe0 {
        Some((t - 0x10000) as i8)
    } else {
        None
    }
}

pub open spec fn branch_word(eq: bool, gt: bool, lt: bool, cond: Register, shift: i8) -> cpu::Instruction {
    cpu::Instruction::BRANCH(cpu::BranchInstruction { eq, gt, lt, cond, shift })
}

/// A jump by offset `t`: one branch when it reaches, else a PC-relative add
/// of the offset into PC, skipped by the inverted branch when conditional.
pub open spec fn jump_spec(op: JumpOperation, cond: Register, t: u16) -> Seq<cpu::Instruction> {
    let (eq, gt, lt) = jump_flags(op);
    match short_shift(t) {
        Some(s) => seq![branch_word(eq, gt, lt, cond, s)],
        None => if eq && gt && lt {
            seq![
                mem_op_spec(MemOperation::LADD, Register::PC, Register::PC, 1, false, false, false),
                cpu::Instruction::CUSTOM(t),
            ]
        } else {
            seq![
                branch_word(!eq, !gt, !lt, cond, 3),
                mem_op_spec(MemOperation::LADD, Register::PC, Register::PC, 1, false, false, false),
                cpu::Instruction::CUSTOM(wsub(t, 1)),
            ]
        },
    }
}

/// What compiling at `ctx` gives, with the label's offset put through `f`.
pub open spec fn with_offset(
    env: Env,
    name: Seq<char>,
    f: spec_fn(u16) -> Seq<cpu::Instruction>,
) -> Result<Seq<cpu::Instruction>, ErrorView> {
    match label_offset_spec(env.labels, env.scopes, env.pc, name) {
        Ok(t) => Ok(f(t)),
        Err(e) => Err(e),
    }
}

impl JumpOperation {
    pub fn get_flags(&self) -> (r: (bool, bool, bool))
        ensures
            r == jump_flags(*self),
    {
        match self {
            JumpOperation::JMP => (true, true, true),
            JumpOperation::JEQ => (true, false, false),
            JumpOperation::JGT => (false, true, false),
            JumpOperation::JLT => (false, false, true),
            JumpOperation::JGE => (true, true, false),
            JumpOperation::JLE => (true, false, true),
            JumpOperation::JNE => (false, true, true),
        }
    }
}

/// The branch shift for an offset, where it reaches.
pub fn convert_u16_to_shift(t: u16) -> (r: Option<i8>)
    ensures
        r == short_shift(t),
{
    if t < 32 {
        Some(t as i8)
    } else if t > 0xffe0 {
        Some((t as i32 - 0x10000) as i8)
    } else {
        None
    }
}

/// The primitive instructions of a jump by offset `t`.
pub fn jump_by(op: JumpOperation, cond: Register, t: u16) -> (r: Vec<cpu::Instruction>)
    ensures
        r@ == jump_spec(op, cond, t),
{
    let (eq, gt, lt) = op.get_flags();
    let ladd = cpu::Instruction::LOAD(
        cpu::MemInstruction {
            hi: true,
            lo: false,
            sw: false,
            dst: Register::PC,
            addr: Register::PC,
            shift: 1,
        },
    );
    let r = match convert_u16_to_shift(t) {
        Some(s) => vec![
            cpu::Instruction::BRANCH(cpu::BranchInstruction { eq, gt, lt, cond, shift: s }),
        ],
        None => if eq && gt && lt {
            vec![ladd, cpu::Instruction::CUSTOM(t)]
        } else {
            vec![
                cpu::Instruction::BRANCH(
                    cpu::BranchInstruction { eq: !eq, gt: !gt, lt: !lt, cond, shift: 3 },
                ),
                ladd,
                cpu::Instruction::CUSTOM(crate::context::wrapping_sub16(t, 1)),
            ]
        },
    };
    assert(r@ =~= jump_spec(op, cond, t));
    r
}

/// `Jxx [cond] LABEL`.
#[derive(Clone, Debug)]
pub struct JumpInstruction {
    pub op: JumpOperation,
    pub targ: Vec<char>,
    pub cond: Register,
}

impl JumpInstruction {
    pub fn new(op: JumpOperation, targ: Vec<char>, cond: Register) -> (r: JumpInstruction)
        ensures
            r.op == op,
            r.targ@ == targ@,
            r.cond == cond,
    {
        JumpInstruction { op, targ, cond }
    }

    pub open spec fn compile_spec(&self, env: Env) -> Result<
        Seq<cpu::Instruction>,
        ErrorView,
    > {
        with_offset(env, self.targ@, |t: u16| jump_spec(self.op, self.cond, t))
    }

    pub fn compile(&self, ctx: &CompileContext) -> (r: Result<Vec<cpu::Instruction>, CompileError>)
        ensures
            res_view(r) == self.compile_spec(ctx.env()),
    {
        match ctx.resolve_named(self.targ.as_slice()) {
            Ok(t) => Ok(jump_by(self.op, self.cond, t)),
            Err(e) => Err(e),
        }
    }
}

/// What loading the label's address into `dst` emits, for offset `t` from
/// the first of its words.
pub open spec fn load_label_spec(dst: Register, t: u16) -> Seq<cpu::Instruction> {
    if dst != Register::PC {
        seq![alu_op_spec(AluOperation::MOV, dst, Register::PC, Register::ZX, false, false, false)]
            + load_const_spec(LoadConstOperation::ADD, dst, t)
    } else {
        load_const_spec(LoadConstOperation::ADD, dst, t)
    }
}

/// The primitive instructions that load the address `t` words from here into `dst`.
pub fn instr_load_label(dst: Register, t: u16) -> (r: Vec<cpu::Instruction>)
    ensures
        r@ == load_label_spec(dst, t),
{
    let mut r: Vec<cpu::Instruction> = Vec::new();
    if dst != Register::PC {
        r.push(AluOperation::MOV.instr(dst, Register::PC, Register::ZX));
    }
    let mut v = instr_add(dst, t);
    r.append(&mut v);
    assert(r@ =~= load_label_spec(dst, t));
    r
}

/// `LLABEL dst LABEL`: the label's address into `dst`.
#[derive(Clone, Debug)]
pub struct LoadLabelInstruction {
    pub dst: Register,
    pub label: Vec<char>,
}

impl LoadLabelInstruction {
    pub fn new(dst: Register, label: Vec<char>) -> (r: LoadLabelInstruction)
        ensures
            r.dst == dst,
            r.label@ == label@,
    {
        LoadLabelInstruction { dst, label }
    }

    pub open spec fn compile_spec(&self, env: Env) -> Result<
        Seq<cpu::Instruction>,
        ErrorView,
    > {
        with_offset(env, self.label@, |t: u16| load_label_spec(self.dst, t))
    }

    pub fn compile(&self, ctx: &CompileContext) -> (r: Result<Vec<cpu::Instruction>, CompileError>)
        ensures
            res_view(r) == self.compile_spec(ctx.env()),
    {
        match ctx.resolve_named(self.label.as_slice()) {
            Ok(t) => Ok(instr_load_label(self.dst, t)),
            Err(e) => Err(e),
        }
    }
}

} // verus!
