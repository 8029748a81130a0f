use vstd::prelude::*;

use crate::cpu::{self, Register};
use crate::error::{res_view, CompileError, ErrorView};

verus! {

/// The ALU operations that the assembler knows, each one ALU word.
#[derive(Copy, Clone, Debug, PartialEq, Eq, Structural)]
pub enum AluOperation {
    ADD,
    AND,
    SUB,
    OR,
    MOV,
    INC,
    DEC,
    NOT,
    NEG,
}

pub open spec fn alu_word_spec(
    add: bool,
    nx: bool,
    ny: bool,
    no: bool,
    dst: Register,
    a: Register,
    b: Register,
) -> cpu::Instruction {
    let i = cpu::AluInstruction { nx, ny, no, dst, src_a: a, src_b: b };
    if add {
        cpu::Instruction::ADD(i)
    } else {
        cpu::Instruction::AND(i)
    }
}

/// Whether the operation reads a second operand.
pub open spec fn alu_binary(op: AluOperation) -> bool {
    match op {
        AluOperation::ADD | AluOperation::AND | AluOperation::SUB | AluOperation::OR => true,
        _ => false,
    }
}

/// The native word of `op`, with each of its negate flags toggled by the given ones.
pub open spec fn alu_op_spec(
    op: AluOperation,
    dst: Register,
    a: Register,
    b: Register,
    tx: bool,
    ty: bool,
    to: bool,
) -> cpu::Instruction {
    match op {
        AluOperation::ADD => alu_word_spec(true, tx, ty, to, dst, a, b),
        AluOperation::AND => alu_word_spec(false, tx, ty, to, dst, a, b),
        AluOperation::SUB => alu_word_spec(true, !tx, ty, !to, dst, a, b),
        AluOperation::OR => alu_word_spec(false, !tx, !ty, !to, dst, a, b),
        AluOperation::MOV => alu_word_spec(true, tx, ty, to, dst, a, Register::ZX),
        AluOperation::INC => alu_word_spec(true, !tx, !ty, !to, dst, a, Register::ZX),
        AluOperation::DEC => alu_word_spec(true, tx, !ty, to, dst, a, Register::ZX),
        AluOperation::NOT => alu_word_spec(true, !tx, ty, to, dst, a, Register::ZX),
        AluOperation::NEG => alu_word_spec(true, tx, !ty, !to, dst, a, Register::ZX),
    }
}

fn alu_word(
    add: bool,
    nx: bool,
    ny: bool,
    no: bool,
    dst: Register,
    a: Register,
    b: Register,
) -> (r: cpu::Instruction)
    ensures
        r == alu_word_spec(add, nx, ny, no, dst, a, b),
{
    let i = cpu::AluInstruction { nx, ny, no, dst, src_a: a, src_b: b };
    if add {
        cpu::Instruction::ADD(i)
    } else {
        cpu::Instruction::AND(i)
    }
}

impl AluOperation {
    pub fn is_binary(&self) -> (r: bool)
        ensures
            r == alu_binary(*self),
    {
        match self {
            AluOperation::ADD | AluOperation::AND | AluOperation::SUB | AluOperation::OR => true,
            _ => false,
        }
    }

    /// The operation's word with no extra flags.
    pub fn instr(&self, dst: Register, a: Register, b: Register) -> (r: cpu::Instruction)
        ensures
            r == alu_op_spec(*self, dst, a, b, false, false, false),
    {
        self.instr_flags(dst, a, b, false, false, false)
    }

    /// The operation's word with its negate flags toggled by `tx`, `ty`, `to`.
    pub fn instr_flags(
        &self,
        dst: Register,
        a: Register,
        b: Register,
        tx: bool,
        ty: bool,
        to: bool,
    ) -> (r: cpu::Instruction)
        ensures
            r == alu_op_spec(*self, dst, a, b, tx, ty, to),
    {
        match self {
            AluOperation::ADD => alu_word(true, tx, ty, to, dst, a, b),
            AluOperation::AND => alu_word(false, tx, ty, to, dst, a, b),
            AluOperation::SUB => alu_word(true, !tx, ty, !to, dst, a, b),
            AluOperation::OR => alu_word(false, !tx, !ty, !to, dst, a, b),
            AluOperation::MOV => alu_word(true, tx, ty, to, dst, a, Register::ZX),
            AluOperation::INC => alu_word(true, !tx, !ty, !to, dst, a, Register::ZX),
            AluOperation::DEC => alu_word(true, tx, !ty, to, dst, a, Register::ZX),
            AluOperation::NOT => alu_word(true, !tx, ty, to, dst, a, Register::ZX),
            AluOperation::NEG => alu_word(true, tx, !ty, !to, dst, a, Register::ZX),
        }
    }
}

/// An ALU statement of the listing.
#[derive(Copy, Clone, Debug)]
pub struct AluInstruction {
    pub op: AluOperation,
    pub dst: Register,
    pub src_a: Register,
    pub src_b: Register,
    pub nx: bool,
    pub ny: bool,
    pub no: bool,
}

impl AluInstruction {
    pub fn new(op: AluOperation, dst: Register, src_a: Register, src_b: Register) -> (r:
        AluInstruction)
        ensures
            r == (AluInstruction { op, dst, src_a, src_b, nx: false, ny: false, no: false }),
    {
        AluInstruction { op, dst, src_a, src_b, nx: false, ny: false, no: false }
    }

    pub fn set_flags(&mut self, nx: bool, ny: bool, no: bool)
        ensures
            *final(self) == (AluInstruction { nx, ny, no, ..*old(self) }),
    {
        self.nx = nx;
        self.ny = ny;
        self.no = no;
    }

    pub fn compile(&self) -> (r: Vec<cpu::Instruction>)
        ensures
            r@ == seq![
                alu_op_spec(self.op, self.dst, self.src_a, self.src_b, self.nx, self.ny, self.no),
            ],
    {
        vec![self.op.instr_flags(self.dst, self.src_a, self.src_b, self.nx, self.ny, self.no)]
    }
}

/// The memory operations: plain load and store, and loads that add to or
/// subtract from the destination (flag `hi`, flag `lo`).
#[derive(Copy, Clone, Debug, PartialEq, Eq, Structural)]
pub enum MemOperation {
    LOAD,
    STORE,
    LADD,
    LSUB,
}

pub open spec fn mem_op_spec(
    op: MemOperation,
    dst: Register,
    addr: Register,
    shift: i8,
    hi: bool,
    lo: bool,
    sw: bool,
) -> cpu::Instruction {
    match op {
        MemOperation::LOAD => cpu::Instruction::LOAD(
            cpu::MemInstruction { hi, lo, sw, dst, addr, shift },
        ),
        MemOperation::STORE => cpu::Instruction::STORE(
            cpu::MemInstruction { hi, lo, sw, dst, addr, shift },
        ),
        MemOperation::LADD => cpu::Instruction::LOAD(
            cpu::MemInstruction { hi: true, lo, sw, dst, addr, shift },
        ),
        MemOperation::LSUB => cpu::Instruction::LOAD(
            cpu::MemInstruction { hi, lo: true, sw, dst, addr, shift },
        ),
    }
}

pub open spec fn mem_shift_ok(shift: i8) -> bool {
    -3 <= shift <= 3
}

impl MemOperation {
    /// The operation's word; a shift outside `[-3, 3]` is `ShiftIsTooBig`.
    pub fn instr(&self, dst: Register, addr: Register, shift: i8) -> (r: Result<
        cpu::Instruction,
        CompileError,
    >)
        ensures
            mem_shift_ok(shift) ==> r == Ok::<cpu::Instruction, CompileError>(
                mem_op_spec(*self, dst, addr, shift, false, false, false),
            ),
            !mem_shift_ok(shift) ==> r is Err && r->Err_0@ == ErrorView::ShiftIsTooBig(shift),
    {
        self.instr_flags(dst, addr, shift, false, false, false)
    }

    pub fn instr_flags(
        &self,
        dst: Register,
        addr: Register,
        shift: i8,
        hi: bool,
        lo: bool,
        sw: bool,
    ) -> (r: Result<cpu::Instruction, CompileError>)
        ensures
            mem_shift_ok(shift) ==> r == Ok::<cpu::Instruction, CompileError>(
                mem_op_spec(*self, dst, addr, shift, hi, lo, sw),
            ),
            !mem_shift_ok(shift) ==> r is Err && r->Err_0@ == ErrorView::ShiftIsTooBig(shift),
    {
        if shift < -3 || shift > 3 {
            return Err(CompileError::ShiftIsTooBig(shift));
        }
        let r = match self {
            MemOperation::LOAD => cpu::Instruction::LOAD(
                cpu::MemInstruction { hi, lo, sw, dst, addr, shift },
            ),
            MemOperation::STORE => cpu::Instruction::STORE(
                cpu::MemInstruction { hi, lo, sw, dst, addr, shift },
            ),
            MemOperation::LADD => cpu::Instruction::LOAD(
                cpu::MemInstruction { hi: true, lo, sw, dst, addr, shift },
            ),
            MemOperation::LSUB => cpu::Instruction::LOAD(
                cpu::MemInstruction { hi, lo: true, sw, dst, addr, shift },
            ),
        };
        Ok(r)
    }
}

/// A memory statement of the listing.
#[derive(Copy, Clone, Debug)]
pub struct MemInstruction {
    pub op: MemOperation,
    pub dst: Register,
    pub addr: Register,
    pub shift: i8,
    pub hi: bool,
    pub lo: bool,
    pub sw: bool,
}

impl MemInstruction {
    /// A memory statement; a shift outside `[-3, 3]` is `ShiftIsTooBig`.
    pub fn new(op: MemOperation, dst: Register, addr: Register, shift: i8) -> (r: Result<
        MemInstruction,
        CompileError,
    >)
        ensures
            mem_shift_ok(shift) ==> r == Ok::<MemInstruction, CompileError>(
                MemInstruction { op, dst, addr, shift, hi: false, lo: false, sw: false },
            ),
            !mem_shift_ok(shift) ==> r is Err && r->Err_0@ == ErrorView::ShiftIsTooBig(shift),
    {
        if shift < -3 || shift > 3 {
            return Err(CompileError::ShiftIsTooBig(shift));
        }
        Ok(MemInstruction { op, dst, addr, shift, hi: false, lo: false, sw: false })
    }

    pub fn set_flags(&mut self, hi: bool, lo: bool, sw: bool)
        ensures
            *final(self) == (MemInstruction { hi, lo, sw, ..*old(self) }),
    {
        self.hi = hi;
        self.lo = lo;
        self.sw = sw;
    }

    pub fn compile(&self) -> (r: Result<Vec<cpu::Instruction>, CompileError>)
        ensures
            res_view(r) == (if mem_shift_ok(self.shift) {
                Ok::<Seq<cpu::Instruction>, ErrorView>(
                    seq![
                        mem_op_spec(
                            self.op,
                            self.dst,
                            self.addr,
                            self.shift,
                            self.hi,
                            self.lo,
                            self.sw,
                        ),
                    ],
                )
            } else {
                Err(ErrorView::ShiftIsTooBig(self.shift))
            }),
    {
        match self.op.instr_flags(self.dst, self.addr, self.shift, self.hi, self.lo, self.sw) {
            Ok(i) => {
                let v = vec![i];
                assert(v@ =~= seq![i]);
                Ok(v)
            },
            Err(e) => Err(e),
        }
    }
}

pub open spec fn branch_shift_ok(shift: i8) -> bool {
    -31 <= shift <= 31
}

/// A branch statement of the listing: jump `shift` words when `cond`
/// compares to zero as the flags select.
#[derive(Copy, Clone, Debug)]
pub struct BranchInstruction {
    pub eq: bool,
    pub gt: bool,
    pub lt: bool,
    pub cond: Register,
    pub shift: i8,
}

pub open spec fn branch_spec(b: BranchInstruction) -> cpu::Instruction {
    cpu::Instruction::BRANCH(
        cpu::BranchInstruction { eq: b.eq, gt: b.gt, lt: b.lt, cond: b.cond, shift: b.shift },
    )
}

impl BranchInstruction {
    /// An unconditional branch; a shift outside `[-31, 31]` is `ShiftIsTooBig`.
    pub fn new(cond: Register, shift: i8) -> (r: Result<BranchInstruction, CompileError>)
        ensures
            branch_shift_ok(shift) ==> r == Ok::<BranchInstruction, CompileError>(
                BranchInstruction { eq: true, gt: true, lt: true, cond, shift },
            ),
            !branch_shift_ok(shift) ==> r is Err && r->Err_0@ == ErrorView::ShiftIsTooBig(shift),
    {
        if shift < -31 || shift > 31 {
            return Err(CompileError::ShiftIsTooBig(shift));
        }
        Ok(BranchInstruction { eq: true, gt: true, lt: true, cond, shift })
    }

    pub fn set_flags(&mut self, eq: bool, gt: bool, lt: bool)
        ensures
            *final(self) == (BranchInstruction { eq, gt, lt, ..*old(self) }),
    {
        self.eq = eq;
        self.gt = gt;
        self.lt = lt;
    }

    /// The branch word; `InvalidInstruction` when the shift does not fit.
    pub fn compile(&self) -> (r: Result<Vec<cpu::Instruction>, CompileError>)
        ensures
            res_view(r) == (if branch_shift_ok(self.shift) {
                Ok::<Seq<cpu::Instruction>, ErrorView>(seq![branch_spec(*self)])
            } else {
                Err(ErrorView::InvalidInstruction(cpu::InstructionError::InvalidShift))
            }),
    {
        let ins = cpu::Instruction::BRANCH(
            cpu::BranchInstruction {
                eq: self.eq,
                gt: self.gt,
                lt: self.lt,
                cond: self.cond,
                shift: self.shift,
            },
        );
        match ins.validate() {
            Err(e) => Err(CompileError::InvalidInstruction(e)),
            Ok(()) => {
                let v = vec![ins];
                assert(v@ =~= seq![ins]);
                Ok(v)
            },
        }
    }
}

/// A raw data word.
#[derive(Copy, Clone, Debug)]
pub struct CustomInstruction {
    pub val: u16,
}

impl CustomInstruction {
    pub fn new(val: u16) -> (r: CustomInstruction)
        ensures
            r.val == val,
    {
        CustomInstruction { val }
    }

    pub fn compile(&self) -> (r: Vec<cpu::Instruction>)
        ensures
            r@ == seq![cpu::Instruction::CUSTOM(self.val)],
    {
        vec![cpu::Instruction::CUSTOM(self.val)]
    }
}

/// Raw data words in a row, as a string literal gives them.
#[derive(Clone, Debug)]
pub struct CustomMultiInstruction {
    pub val: Vec<u16>,
}

impl CustomMultiInstruction {
    pub fn new(val: Vec<u16>) -> (r: CustomMultiInstruction)
        ensures
            r.val == val,
    {
        CustomMultiInstruction { val }
    }

    pub fn compile(&self) -> (r: Vec<cpu::Instruction>)
        ensures
            r@.len() == self.val@.len(),
            forall|i: int|
                0 <= i < r@.len() ==> r@[i] == cpu::Instruction::CUSTOM(#[trigger] self.val@[i]),
    {
        let mut r: Vec<cpu::Instruction> = Vec::new();
        let mut i: usize = 0;
        while i < self.val.len()
            invariant
                0 <= i <= self.val.len(),
                r@.len() == i,
                forall|j: int|
                    0 <= j < i ==> r@[j] == cpu::Instruction::CUSTOM(#[trigger] self.val@[j]),
            decreases self.val.len() - i,
        {
            r.push(cpu::Instruction::CUSTOM(self.val[i]));
            i = i + 1;
        }
        r
    }
}

/// The do-nothing instruction.
#[derive(Copy, Clone, Debug)]
pub struct NopInstruction {}

impl NopInstruction {
    pub fn new() -> (r: NopInstruction) {
        NopInstruction {  }
    }

    pub fn compile(&self) -> (r: Vec<cpu::Instruction>)
        ensures
            r@ == seq![cpu::Instruction::NOP],
    {
        vec![cpu::Instruction::NOP]
    }
}

/// The primitive instructions of several macro-instructions in a row.
pub fn compile_instructions(parts: Vec<Vec<cpu::Instruction>>) -> (r: Vec<cpu::Instruction>)
    ensures
        r@ == parts@.map_values(|v: Vec<cpu::Instruction>| v@).flatten(),
{
    let mut r: Vec<cpu::Instruction> = Vec::new();
    let mut i: usize = 0;
    while i < parts.len()
        invariant
            0 <= i <= parts.len(),
            r@ == parts@.take(i as int).map_values(|v: Vec<cpu::Instruction>| v@).flatten(),
        decreases parts.len() - i,
    {
        let part = &parts[i];
        let mut j: usize = 0;
        let ghost before = r@;
        while j < part.len()
            invariant
                0 <= j <= part.len(),
                r@ == before + part@.take(j as int),
            decreases part.len() - j,
        {
            r.push(part[j]);
            assert((before + part@.take(j as int)).push(part@[j as int]) =~= before + part@.take(
                j + 1,
            ));
            j = j + 1;
        }
        assert(part@.take(j as int) =~= part@);
        proof {
            let f = |v: Vec<cpu::Instruction>| v@;
            assert(parts@.take(i + 1).map_values(f) =~= parts@.take(i as int).map_values(f).push(
                part@,
            ));
            parts@.take(i as int).map_values(f).lemma_flatten_push(part@);
        }
        i = i + 1;
    }
    assert(parts@.take(i as int) =~= parts@);
    r
}

} // verus!
