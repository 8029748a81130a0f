use vstd::prelude::*;

use crate::context::wsub;
use crate::disasm::{decimal_text, signed_text};
use crate::error::{CompileError, ErrorView};
use crate::cpu::{self, Register};
use crate::ops::{alu_op_spec, mem_op_spec, AluOperation, MemOperation};

verus! {

/// Load a constant into a register, or add one to it.
#[derive(Copy, Clone, Debug, PartialEq, Eq, Structural)]
pub enum LoadConstOperation {
    LOAD,
    ADD,
}

/// `LCONST dst val` / `ACONST dst val`.
#[derive(Copy, Clone, Debug)]
pub struct LoadConstInstruction {
    pub op: LoadConstOperation,
    pub dst: Register,
    pub val: u16,
}

/// The one- or two-word forms for the small deltas 0, 1, 2 and -1 from `src`.
pub open spec fn short_variant_spec(val: u16, dst: Register, src: Register) -> Option<
    Seq<cpu::Instruction>,
> {
    if val == 0 {
        Some(seq![alu_op_spec(AluOperation::ADD, dst, src, Register::ZX, false, false, false)])
    } else if val == 1 {
        Some(seq![alu_op_spec(AluOperation::INC, dst, src, Register::ZX, false, false, false)])
    } else if val == 2 {
        Some(
            seq![
                alu_op_spec(AluOperation::INC, dst, src, Register::ZX, false, false, false),
                alu_op_spec(AluOperation::INC, dst, dst, Register::ZX, false, false, false),
            ],
        )
    } else if val == 0xffff {
        Some(seq![alu_op_spec(AluOperation::DEC, dst, src, Register::ZX, false, false, false)])
    } else {
        None
    }
}

pub open spec fn const_mem_op(op: LoadConstOperation) -> MemOperation {
    match op {
        LoadConstOperation::LOAD => MemOperation::LOAD,
        LoadConstOperation::ADD => MemOperation::LADD,
    }
}

pub open spec fn const_src(op: LoadConstOperation, dst: Register) -> Register {
    match op {
        LoadConstOperation::LOAD => Register::ZX,
        LoadConstOperation::ADD => dst,
    }
}

/// The cheapest of the four forms, in order of preference: a short form; a
/// PC-relative load (or add) of the next word when the value fits 12 bits;
/// zeroing and subtracting the negated value when that fits 12 bits (plain
/// loads into a register other than PC); else a load of the word two ahead
/// with a branch over it.
pub open spec fn load_const_spec(op: LoadConstOperation, dst: Register, val: u16) -> Seq<
    cpu::Instruction,
> {
    let neg = wsub(0, val);
    let mop = const_mem_op(op);
    match short_variant_spec(val, dst, const_src(op, dst)) {
        Some(v) => v,
        None => if val < 4096 {
            seq![
                mem_op_spec(mop, dst, Register::PC, 1, false, false, false),
                cpu::Instruction::CUSTOM(val),
            ]
        } else if neg < 4096 && op == LoadConstOperation::LOAD && dst != Register::PC {
            seq![
                alu_op_spec(AluOperation::MOV, dst, Register::ZX, Register::ZX, false, false, false),
                mem_op_spec(MemOperation::LSUB, dst, Register::PC, 1, false, false, false),
                cpu::Instruction::CUSTOM(neg),
            ]
        } else {
            seq![
                mem_op_spec(mop, dst, Register::PC, 2, false, false, false),
                cpu::Instruction::BRANCH(
                    cpu::BranchInstruction {
                        eq: true,
                        gt: true,
                        lt: true,
                        cond: Register::ZX,
                        shift: 2,
                    },
                ),
                cpu::Instruction::CUSTOM(val),
            ]
        },
    }
}

impl LoadConstOperation {
    pub fn src(&self, dst: Register) -> (r: Register)
        ensures
            r == const_src(*self, dst),
    {
        match self {
            LoadConstOperation::LOAD => Register::ZX,
            LoadConstOperation::ADD => dst,
        }
    }

    pub fn mem_op(&self) -> (r: MemOperation)
        ensures
            r == const_mem_op(*self),
    {
        match self {
            LoadConstOperation::LOAD => MemOperation::LOAD,
            LoadConstOperation::ADD => MemOperation::LADD,
        }
    }
}

fn mem_word(op: MemOperation, dst: Register, addr: Register, shift: i8) -> (r: cpu::Instruction)
    requires
        -3 <= shift <= 3,
    ensures
        r == mem_op_spec(op, dst, addr, shift, false, false, false),
{
    match op.instr(dst, addr, shift) {
        Ok(i) => i,
        Err(_) => cpu::Instruction::NOP,
    }
}

impl LoadConstInstruction {
    pub fn new(op: LoadConstOperation, dst: Register, val: u16) -> (r: LoadConstInstruction)
        ensures
            r.op == op,
            r.dst == dst,
            r.val == val,
    {
        LoadConstInstruction { op, dst, val }
    }

    /// A constant given as a signed number: -32768 ..= 65535, negative values
    /// as two's complement; any other value is `InvalidNumber`.
    pub fn new_signed(op: LoadConstOperation, dst: Register, val: i32) -> (r: Result<
        LoadConstInstruction,
        CompileError,
    >)
        ensures
            -32768 <= val <= 65535 ==> r is Ok && r->Ok_0.op == op && r->Ok_0.dst == dst
                && r->Ok_0.val as int == (if val < 0 {
                val + 65536
            } else {
                val as int
            }),
            !(-32768 <= val <= 65535) ==> r is Err && r->Err_0@ == ErrorView::InvalidNumber(
                signed_text(val as int),
            ),
    {
        if val < -32768 || val > 65535 {
            return Err(CompileError::InvalidNumber(decimal_text(val)));
        }
        let v: u16 = if val < 0 {
            (val + 65536) as u16
        } else {
            val as u16
        };
        Ok(LoadConstInstruction { op, dst, val: v })
    }

    /// The short form for `val` relative to `src`, if there is one.
    pub fn short_variant(val: u16, dst: Register, src: Register) -> (r: Option<
        Vec<cpu::Instruction>,
    >)
        ensures
            r is Some <==> short_variant_spec(val, dst, src) is Some,
            r is Some ==> r->0@ == short_variant_spec(val, dst, src)->0,
    {
        let r = if val == 0 {
            Some(vec![AluOperation::ADD.instr(dst, src, Register::ZX)])
        } else if val == 1 {
            Some(vec![AluOperation::INC.instr(dst, src, Register::ZX)])
        } else if val == 2 {
            Some(
                vec![
                    AluOperation::INC.instr(dst, src, Register::ZX),
                    AluOperation::INC.instr(dst, dst, Register::ZX),
                ],
            )
        } else if val == 0xffff {
            Some(vec![AluOperation::DEC.instr(dst, src, Register::ZX)])
        } else {
            None
        };
        proof {
            if r is Some {
                assert(r->0@ =~= short_variant_spec(val, dst, src)->0);
            }
        }
        r
    }

    /// The primitive instructions that put the constant in place.
    pub fn compile(&self) -> (r: Vec<cpu::Instruction>)
        ensures
            r@ == load_const_spec(self.op, self.dst, self.val),
    {
        instr_const(self.op, self.dst, self.val)
    }
}

/// The primitive instructions of `op dst val`.
pub fn instr_const(op: LoadConstOperation, dst: Register, val: u16) -> (r: Vec<cpu::Instruction>)
    ensures
        r@ == load_const_spec(op, dst, val),
{
    let neg = crate::context::wrapping_sub16(0, val);
    let mop = op.mem_op();
    if let Some(v) = LoadConstInstruction::short_variant(val, dst, op.src(dst)) {
        return v;
    }
    let r = if val < 4096 {
        vec![mem_word(mop, dst, Register::PC, 1), cpu::Instruction::CUSTOM(val)]
    } else if neg < 4096 && op == LoadConstOperation::LOAD && dst != Register::PC {
        vec![
            AluOperation::MOV.instr(dst, Register::ZX, Register::ZX),
            mem_word(MemOperation::LSUB, dst, Register::PC, 1),
            cpu::Instruction::CUSTOM(neg),
        ]
    } else {
        vec![
            mem_word(mop, dst, Register::PC, 2),
            cpu::Instruction::BRANCH(
                cpu::BranchInstruction {
                    eq: true,
                    gt: true,
                    lt: true,
                    cond: Register::ZX,
                    shift: 2,
                },
            ),
            cpu::Instruction::CUSTOM(val),
        ]
    };
    assert(r@ =~= load_const_spec(op, dst, val));
    r
}

/// The primitive instructions that add `val` to `dst`.
pub fn instr_add(dst: Register, val: u16) -> (r: Vec<cpu::Instruction>)
    ensures
        r@ == load_const_spec(LoadConstOperation::ADD, dst, val),
{
    instr_const(LoadConstOperation::ADD, dst, val)
}

} // verus!
