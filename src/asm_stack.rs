use vstd::prelude::*;

use crate::context::{wadd, wrapping_add16, wrapping_sub16, wsub, CompileContext, Env};
use crate::cpu::{self, Register};
use crate::error::{res_view, CompileError, ErrorView};
use crate::jump::{instr_load_label, jump_by, jump_spec, load_label_spec, with_offset, JumpOperation};
use crate::load_const::{instr_const, load_const_spec, LoadConstOperation};
use crate::ops::{alu_binary, alu_op_spec, mem_op_spec, AluOperation, MemOperation};
use crate::stackop::{
    alu_spec, compile_stackop, compile_stackop_spec, local_addr_spec, mem_spec, LocalOperation, StackLocalMode, StackOperation, };

verus! {

fn mem_word(m: MemOperation, dst: Register, addr: Register, shift: i8) -> (r: cpu::Instruction)
    requires
        -3 <= shift <= 3,
    ensures
        r == mem_spec(m, dst, addr, shift),
{
    match m.instr(dst, addr, shift) {
        Ok(i) => i,
        Err(_) => cpu::Instruction::NOP,
    }
}

pub open spec fn push_spec(reg: Register) -> Seq<cpu::Instruction> {
    seq![
        mem_spec(MemOperation::STORE, reg, Register::SP, 0),
        alu_spec(AluOperation::INC, Register::SP, Register::SP, Register::ZX),
    ]
}

pub open spec fn pop_spec(reg: Register) -> Seq<cpu::Instruction> {
    seq![
        mem_spec(MemOperation::LOAD, reg, Register::SP, -1i8),
        alu_spec(AluOperation::DEC, Register::SP, Register::SP, Register::ZX),
    ]
}

fn push_words(r: &mut Vec<cpu::Instruction>, reg: Register)
    ensures
        final(r)@ == old(r)@ + push_spec(reg),
{
    r.push(mem_word(MemOperation::STORE, reg, Register::SP, 0));
    r.push(AluOperation::INC.instr(Register::SP, Register::SP, Register::ZX));
    assert(final(r)@ =~= old(r)@ + push_spec(reg));
}

fn pop_words(r: &mut Vec<cpu::Instruction>, reg: Register)
    ensures
        final(r)@ == old(r)@ + pop_spec(reg),
{
    r.push(mem_word(MemOperation::LOAD, reg, Register::SP, -1));
    r.push(AluOperation::DEC.instr(Register::SP, Register::SP, Register::ZX));
    assert(final(r)@ =~= old(r)@ + pop_spec(reg));
}

fn append_words(r: &mut Vec<cpu::Instruction>, v: Vec<cpu::Instruction>)
    ensures
        final(r)@ == old(r)@ + v@,
{
    let mut v = v;
    r.append(&mut v);
}

/// The explicit-pointer stack primitives; duplicating and swapping the top
/// are operations of the stack instruction set (`ManipStackOp`).
#[derive(Copy, Clone, Debug, PartialEq, Eq, Structural)]
pub enum StackBaseOperation {
    INIT,
    PUSH,
    POP,
}

/// `$INIT`, `$PUSH reg`, `$POP reg`.
#[derive(Copy, Clone, Debug)]
pub struct StackBaseInstruction {
    pub op: StackBaseOperation,
    pub reg: Register,
}

/// The stack starts at 0x4000, growing upward; LP starts equal to SP.
pub open spec fn stack_base_spec(op: StackBaseOperation, reg: Register) -> Seq<cpu::Instruction> {
    match op {
        StackBaseOperation::INIT => load_const_spec(LoadConstOperation::LOAD, Register::SP, 0x4000)
            + seq![alu_spec(AluOperation::MOV, Register::LP, Register::SP, Register::ZX)],
        StackBaseOperation::PUSH => push_spec(reg),
        StackBaseOperation::POP => pop_spec(reg),
    }
}

impl StackBaseInstruction {
    pub fn new(op: StackBaseOperation, reg: Register) -> (r: StackBaseInstruction)
        ensures
            r.op == op,
            r.reg == reg,
    {
        StackBaseInstruction { op, reg }
    }

    pub fn compile(&self) -> (r: Vec<cpu::Instruction>)
        ensures
            r@ == stack_base_spec(self.op, self.reg),
    {
        let mut r: Vec<cpu::Instruction> = Vec::new();
        match self.op {
            StackBaseOperation::INIT => {
                r = instr_const(LoadConstOperation::LOAD, Register::SP, 0x4000);
                r.push(AluOperation::MOV.instr(Register::LP, Register::SP, Register::ZX));
            },
            StackBaseOperation::PUSH => push_words(&mut r, self.reg),
            StackBaseOperation::POP => pop_words(&mut r, self.reg),
        }
        assert(r@ =~= stack_base_spec(self.op, self.reg));
        r
    }
}

/// `$LOAD` / `$STORE`: address on top, value below it for a store.
#[derive(Copy, Clone, Debug)]
pub struct StackMemInstruction {
    pub op: MemOperation,
    pub hi: bool,
    pub lo: bool,
    pub sw: bool,
}

pub open spec fn stack_mem_spec(i: StackMemInstruction) -> Seq<cpu::Instruction> {
    pop_spec(Register::R3) + (if i.op != MemOperation::LOAD {
        pop_spec(Register::R2)
    } else {
        seq![]
    }) + seq![mem_op_spec(i.op, Register::R2, Register::R3, 0, i.hi, i.lo, i.sw)] + (if i.op
        != MemOperation::STORE {
        push_spec(Register::R2)
    } else {
        seq![]
    })
}

impl StackMemInstruction {
    pub fn new(op: MemOperation) -> (r: StackMemInstruction)
        ensures
            r == (StackMemInstruction { op, hi: false, lo: false, sw: false }),
    {
        StackMemInstruction { op, hi: false, lo: false, sw: false }
    }

    pub fn set_flags(&mut self, hi: bool, lo: bool, sw: bool)
        ensures
            *final(self) == (StackMemInstruction { hi, lo, sw, ..*old(self) }),
    {
        self.hi = hi;
        self.lo = lo;
        self.sw = sw;
    }

    pub fn compile(&self) -> (r: Vec<cpu::Instruction>)
        ensures
            r@ == stack_mem_spec(*self),
    {
        let mut r: Vec<cpu::Instruction> = Vec::new();
        pop_words(&mut r, Register::R3);
        if self.op != MemOperation::LOAD {
            pop_words(&mut r, Register::R2);
        }
        let m = match self.op.instr_flags(Register::R2, Register::R3, 0, self.hi, self.lo, self.sw) {
            Ok(i) => i,
            Err(_) => cpu::Instruction::NOP,
        };
        r.push(m);
        if self.op != MemOperation::STORE {
            push_words(&mut r, Register::R2);
        }
        assert(r@ =~= stack_mem_spec(*self));
        r
    }
}

/// An ALU operation on the explicit stack: pops its operands, pushes the result.
#[derive(Copy, Clone, Debug)]
pub struct StackAluInstruction {
    pub op: AluOperation,
    pub nx: bool,
    pub ny: bool,
    pub no: bool,
}

pub open spec fn stack_alu_spec(i: StackAluInstruction) -> Seq<cpu::Instruction> {
    (if alu_binary(i.op) {
        pop_spec(Register::R3)
    } else {
        seq![]
    }) + pop_spec(Register::R2) + seq![
        alu_op_spec(
            i.op,
            Register::R2,
            Register::R2,
            if alu_binary(i.op) {
                Register::R3
            } else {
                Register::ZX
            },
            i.nx,
            i.ny,
            i.no,
        ),
    ] + push_spec(Register::R2)
}

impl StackAluInstruction {
    pub fn new(op: AluOperation) -> (r: StackAluInstruction)
        ensures
            r == (StackAluInstruction { op, nx: false, ny: false, no: false }),
    {
        StackAluInstruction { op, nx: false, ny: false, no: false }
    }

    pub fn set_flags(&mut self, nx: bool, ny: bool, no: bool)
        ensures
            *final(self) == (StackAluInstruction { nx, ny, no, ..*old(self) }),
    {
        self.nx = nx;
        self.ny = ny;
        self.no = no;
    }

    pub fn compile(&self) -> (r: Vec<cpu::Instruction>)
        ensures
            r@ == stack_alu_spec(*self),
    {
        let mut r: Vec<cpu::Instruction> = Vec::new();
        let second = if self.op.is_binary() {
            pop_words(&mut r, Register::R3);
            Register::R3
        } else {
            Register::ZX
        };
        pop_words(&mut r, Register::R2);
        r.push(self.op.instr_flags(Register::R2, Register::R2, second, self.nx, self.ny, self.no));
        push_words(&mut r, Register::R2);
        assert(r@ =~= stack_alu_spec(*self));
        r
    }
}

/// `$Jxx LABEL`: conditional jumps pop their condition first.
#[derive(Clone, Debug)]
pub struct StackJumpInstruction {
    pub op: JumpOperation,
    pub targ: Vec<char>,
}

pub open spec fn stack_jump_spec(op: JumpOperation, t: u16) -> Seq<cpu::Instruction> {
    if op == JumpOperation::JMP {
        jump_spec(op, Register::ZX, t)
    } else {
        pop_spec(Register::R2) + jump_spec(op, Register::R2, wsub(t, 2))
    }
}

impl StackJumpInstruction {
    pub fn new(op: JumpOperation, targ: Vec<char>) -> (r: StackJumpInstruction)
        ensures
            r.op == op,
            r.targ@ == targ@,
    {
        StackJumpInstruction { op, targ }
    }

    pub open spec fn compile_spec(&self, env: Env) -> Result<Seq<cpu::Instruction>, ErrorView> {
        with_offset(env, self.targ@, |t: u16| stack_jump_spec(self.op, t))
    }

    pub fn compile(&self, ctx: &CompileContext) -> (r: Result<Vec<cpu::Instruction>, CompileError>)
        ensures
            res_view(r) == self.compile_spec(ctx.env()),
    {
        let t = match ctx.resolve_named(self.targ.as_slice()) {
            Ok(t) => t,
            Err(e) => {
                return Err(e);
            },
        };
        let mut r: Vec<cpu::Instruction> = Vec::new();
        if self.op == JumpOperation::JMP {
            r = jump_by(self.op, Register::ZX, t);
        } else {
            pop_words(&mut r, Register::R2);
            append_words(&mut r, jump_by(self.op, Register::R2, wrapping_sub16(t, 2)));
        }
        Ok(r)
    }
}

/// What the constant statements of the explicit stack push.
#[derive(Copy, Clone, Debug, PartialEq, Eq, Structural)]
pub enum StackConstOperation {
    CONST,
    ACONST,
    LABEL,
}

#[derive(Clone, Debug)]
pub enum ConstInternalOp {
    Label(Vec<char>),
    Const(u16),
    AConst(u16),
}

/// Pushes a constant or a label's address, or adds a constant to the top.
#[derive(Clone, Debug)]
pub struct StackConstInstruction {
    pub val: ConstInternalOp,
}

pub open spec fn stack_const_spec(c: ConstInternalOp, t: u16) -> Seq<cpu::Instruction> {
    match c {
        ConstInternalOp::Const(v) => load_const_spec(LoadConstOperation::LOAD, Register::R2, v)
            + push_spec(Register::R2),
        ConstInternalOp::AConst(v) => pop_spec(Register::R2) + load_const_spec(
            LoadConstOperation::ADD,
            Register::R2,
            v,
        ) + push_spec(Register::R2),
        ConstInternalOp::Label(_) => load_label_spec(Register::R2, t) + push_spec(Register::R2),
    }
}

impl StackConstInstruction {
    pub fn new_const(val: u16) -> (r: StackConstInstruction)
        ensures
            r.val == ConstInternalOp::Const(val),
    {
        StackConstInstruction { val: ConstInternalOp::Const(val) }
    }

    pub fn new_aconst(val: u16) -> (r: StackConstInstruction)
        ensures
            r.val == ConstInternalOp::AConst(val),
    {
        StackConstInstruction { val: ConstInternalOp::AConst(val) }
    }

    pub fn new_label(label: Vec<char>) -> (r: StackConstInstruction)
        ensures
            r.val matches ConstInternalOp::Label(l) && l@ == label@,
    {
        StackConstInstruction { val: ConstInternalOp::Label(label) }
    }

    pub open spec fn compile_spec(&self, env: Env) -> Result<Seq<cpu::Instruction>, ErrorView> {
        match self.val {
            ConstInternalOp::Label(l) => with_offset(env, l@, |t: u16| stack_const_spec(self.val, t)),
            _ => Ok(stack_const_spec(self.val, 0)),
        }
    }

    pub fn compile(&self, ctx: &CompileContext) -> (r: Result<Vec<cpu::Instruction>, CompileError>)
        ensures
            res_view(r) == self.compile_spec(ctx.env()),
    {
        let mut r: Vec<cpu::Instruction> = Vec::new();
        match &self.val {
            ConstInternalOp::Const(v) => {
                r = instr_const(LoadConstOperation::LOAD, Register::R2, *v);
            },
            ConstInternalOp::AConst(v) => {
                pop_words(&mut r, Register::R2);
                append_words(&mut r, instr_const(LoadConstOperation::ADD, Register::R2, *v));
            },
            ConstInternalOp::Label(l) => {
                let t = match ctx.resolve_named(l.as_slice()) {
                    Ok(t) => t,
                    Err(e) => {
                        return Err(e);
                    },
                };
                r = instr_load_label(Register::R2, t);
            },
        }
        push_words(&mut r, Register::R2);
        Ok(r)
    }
}

/// `$CALL LABEL`: pushes the return address, then jumps.
#[derive(Clone, Debug)]
pub struct StackCallInstruction {
    pub targ: Vec<char>,
}

/// Seven words: SP up one, the return address (after the last word) into R2
/// and onto the stack, then PC plus the offset of the target.
pub open spec fn stack_call_spec(t: u16) -> Seq<cpu::Instruction> {
    seq![
        alu_spec(AluOperation::INC, Register::SP, Register::SP, Register::ZX),
        alu_spec(AluOperation::MOV, Register::R2, Register::PC, Register::ZX),
        mem_spec(MemOperation::LADD, Register::R2, Register::PC, 3),
        mem_spec(MemOperation::STORE, Register::R2, Register::SP, -1i8),
        mem_spec(MemOperation::LADD, Register::PC, Register::PC, 2),
        cpu::Instruction::CUSTOM(6),
        cpu::Instruction::CUSTOM(wsub(t, 4)),
    ]
}

impl StackCallInstruction {
    pub fn new(targ: Vec<char>) -> (r: StackCallInstruction)
        ensures
            r.targ@ == targ@,
    {
        StackCallInstruction { targ }
    }

    pub open spec fn compile_spec(&self, env: Env) -> Result<Seq<cpu::Instruction>, ErrorView> {
        with_offset(env, self.targ@, |t: u16| stack_call_spec(t))
    }

    pub fn compile(&self, ctx: &CompileContext) -> (r: Result<Vec<cpu::Instruction>, CompileError>)
        ensures
            res_view(r) == self.compile_spec(ctx.env()),
    {
        let t = match ctx.resolve_named(self.targ.as_slice()) {
            Ok(t) => t,
            Err(e) => {
                return Err(e);
            },
        };
        let r = vec![
            AluOperation::INC.instr(Register::SP, Register::SP, Register::ZX),
            AluOperation::MOV.instr(Register::R2, Register::PC, Register::ZX),
            mem_word(MemOperation::LADD, Register::R2, Register::PC, 3),
            mem_word(MemOperation::STORE, Register::R2, Register::SP, -1),
            mem_word(MemOperation::LADD, Register::PC, Register::PC, 2),
            cpu::Instruction::CUSTOM(6),
            cpu::Instruction::CUSTOM(wrapping_sub16(t, 4)),
        ];
        assert(r@ =~= stack_call_spec(t));
        Ok(r)
    }
}

/// `$PLABEL LABEL`: pushes the label's address.
#[derive(Clone, Debug)]
pub struct StackLabelInstruction {
    pub label: Vec<char>,
}

impl StackLabelInstruction {
    pub fn new_label(label: Vec<char>) -> (r: StackLabelInstruction)
        ensures
            r.label@ == label@,
    {
        StackLabelInstruction { label }
    }

    pub open spec fn compile_spec(&self, env: Env) -> Result<Seq<cpu::Instruction>, ErrorView> {
        with_offset(env, self.label@, |t: u16| load_label_spec(Register::R2, t) + push_spec(Register::R2))
    }

    pub fn compile(&self, ctx: &CompileContext) -> (r: Result<Vec<cpu::Instruction>, CompileError>)
        ensures
            res_view(r) == self.compile_spec(ctx.env()),
    {
        let t = match ctx.resolve_named(self.label.as_slice()) {
            Ok(t) => t,
            Err(e) => {
                return Err(e);
            },
        };
        let mut r = instr_load_label(Register::R2, t);
        push_words(&mut r, Register::R2);
        Ok(r)
    }
}

/// Frame operations on the explicit stack.
#[derive(Copy, Clone, Debug)]
pub struct StackLocalInstruction {
    pub op: LocalOperation,
    pub idx: u16,
}

pub open spec fn stack_local_spec(op: LocalOperation, idx: u16) -> Seq<cpu::Instruction> {
    match op {
        LocalOperation::LOCINIT => seq![
            mem_spec(MemOperation::STORE, Register::LP, Register::SP, 0),
            alu_spec(AluOperation::INC, Register::LP, Register::SP, Register::ZX),
        ] + load_const_spec(LoadConstOperation::ADD, Register::SP, wadd(idx, 1)),
        LocalOperation::LOCEND => seq![
            alu_spec(AluOperation::DEC, Register::SP, Register::LP, Register::ZX),
            mem_spec(MemOperation::LOAD, Register::LP, Register::SP, 0),
        ],
        LocalOperation::LOAD(mode) => local_addr_spec(Register::R2, mode, idx) + seq![
            mem_spec(MemOperation::LOAD, Register::R2, Register::R2, 0),
        ] + push_spec(Register::R2),
        LocalOperation::STORE(mode) => local_addr_spec(Register::R3, mode, idx) + pop_spec(
            Register::R2,
        ) + seq![mem_spec(MemOperation::STORE, Register::R2, Register::R3, 0)],
        LocalOperation::ADDR(mode) => local_addr_spec(Register::R2, mode, idx) + push_spec(
            Register::R2,
        ),
    }
}

impl StackLocalInstruction {
    pub fn new(op: LocalOperation, idx: u16) -> (r: StackLocalInstruction)
        ensures
            r.op == op,
            r.idx == idx,
    {
        StackLocalInstruction { op, idx }
    }

    /// The address of local `idx` into `out`.
    pub fn load_address(out: Register, mode: StackLocalMode, idx: u16) -> (r: Vec<cpu::Instruction>)
        ensures
            r@ == local_addr_spec(out, mode, idx),
    {
        let shift = match mode {
            StackLocalMode::VAR => idx,
            StackLocalMode::ARG => wrapping_sub16(wrapping_sub16(0, 4), idx),
        };
        let mut r = vec![AluOperation::MOV.instr(out, Register::LP, Register::ZX)];
        append_words(&mut r, crate::load_const::instr_add(out, shift));
        assert(r@ =~= local_addr_spec(out, mode, idx));
        r
    }

    pub fn compile(&self) -> (r: Vec<cpu::Instruction>)
        ensures
            r@ == stack_local_spec(self.op, self.idx),
    {
        let mut r: Vec<cpu::Instruction> = Vec::new();
        match self.op {
            LocalOperation::LOCINIT => {
                r.push(mem_word(MemOperation::STORE, Register::LP, Register::SP, 0));
                r.push(AluOperation::INC.instr(Register::LP, Register::SP, Register::ZX));
                append_words(&mut r, crate::load_const::instr_add(Register::SP, wrapping_add16(self.idx, 1)));
            },
            LocalOperation::LOCEND => {
                r.push(AluOperation::DEC.instr(Register::SP, Register::LP, Register::ZX));
                r.push(mem_word(MemOperation::LOAD, Register::LP, Register::SP, 0));
            },
            LocalOperation::LOAD(mode) => {
                r = Self::load_address(Register::R2, mode, self.idx);
                r.push(mem_word(MemOperation::LOAD, Register::R2, Register::R2, 0));
                push_words(&mut r, Register::R2);
            },
            LocalOperation::STORE(mode) => {
                r = Self::load_address(Register::R3, mode, self.idx);
                pop_words(&mut r, Register::R2);
                r.push(mem_word(MemOperation::STORE, Register::R2, Register::R3, 0));
            },
            LocalOperation::ADDR(mode) => {
                r = Self::load_address(Register::R2, mode, self.idx);
                push_words(&mut r, Register::R2);
            },
        }
        assert(r@ =~= stack_local_spec(self.op, self.idx));
        r
    }
}

/// Function prologue and epilogue.
#[derive(Copy, Clone, Debug, PartialEq, Eq, Structural)]
pub enum StackFunctionOperation {
    INIT,
    RETURN,
}

/// `$FUNC locals args returned` / `$RET`.
#[derive(Copy, Clone, Debug)]
pub struct StackFunctionInstruction {
    pub op: StackFunctionOperation,
    pub locals: u16,
    pub args: u16,
    pub returned: u16,
}

/// The prologue saves where SP must return to (`SP - args - 1 + returned`)
/// and opens a frame of `locals`; the epilogue closes the frame, restores SP
/// and jumps to the saved return address.
pub open spec fn stack_function_spec(f: StackFunctionInstruction) -> Seq<cpu::Instruction> {
    match f.op {
        StackFunctionOperation::INIT => load_const_spec(
            LoadConstOperation::LOAD,
            Register::R2,
            wadd(wsub(0, wadd(f.args, 1)), f.returned),
        ) + seq![alu_spec(AluOperation::ADD, Register::R2, Register::R2, Register::SP)] + push_spec(
            Register::R2,
        ) + stack_local_spec(LocalOperation::LOCINIT, f.locals),
        StackFunctionOperation::RETURN => stack_local_spec(LocalOperation::LOCEND, 0) + seq![
            mem_spec(MemOperation::LOAD, Register::R2, Register::SP, -2i8),
            mem_spec(MemOperation::LOAD, Register::SP, Register::SP, -1i8),
            alu_spec(AluOperation::MOV, Register::PC, Register::R2, Register::ZX),
        ],
    }
}

impl StackFunctionInstruction {
    pub fn new_init(locals: u16, args: u16, returned: u16) -> (r: StackFunctionInstruction)
        ensures
            r == (StackFunctionInstruction { op: StackFunctionOperation::INIT, locals, args, returned }),
    {
        StackFunctionInstruction { op: StackFunctionOperation::INIT, locals, args, returned }
    }

    pub fn new_return() -> (r: StackFunctionInstruction)
        ensures
            r == (StackFunctionInstruction {
                op: StackFunctionOperation::RETURN,
                locals: 0,
                args: 0,
                returned: 0,
            }),
    {
        StackFunctionInstruction { op: StackFunctionOperation::RETURN, locals: 0, args: 0, returned: 0 }
    }

    pub fn compile(&self) -> (r: Vec<cpu::Instruction>)
        ensures
            r@ == stack_function_spec(*self),
    {
        let mut r: Vec<cpu::Instruction> = Vec::new();
        match self.op {
            StackFunctionOperation::INIT => {
                let v = wrapping_add16(wrapping_sub16(0, wrapping_add16(self.args, 1)), self.returned);
                r = instr_const(LoadConstOperation::LOAD, Register::R2, v);
                r.push(AluOperation::ADD.instr(Register::R2, Register::R2, Register::SP));
                push_words(&mut r, Register::R2);
                append_words(&mut r, StackLocalInstruction::new(LocalOperation::LOCINIT, self.locals).compile());
            },
            StackFunctionOperation::RETURN => {
                r = StackLocalInstruction::new(LocalOperation::LOCEND, 0).compile();
                r.push(mem_word(MemOperation::LOAD, Register::R2, Register::SP, -2));
                r.push(mem_word(MemOperation::LOAD, Register::SP, Register::SP, -1));
                r.push(AluOperation::MOV.instr(Register::PC, Register::R2, Register::ZX));
            },
        }
        assert(r@ =~= stack_function_spec(*self));
        r
    }
}

/// One operation of the stack virtual instruction set, compiled naively where
/// it stands.
#[derive(Copy, Clone, Debug)]
pub struct StackOpInstruction {
    pub op: StackOperation,
}

impl StackOpInstruction {
    pub fn new(op: StackOperation) -> (r: StackOpInstruction)
        ensures
            r.op == op,
    {
        StackOpInstruction { op }
    }

    pub fn compile(&self) -> (r: Vec<cpu::Instruction>)
        ensures
            r@ == compile_stackop_spec(self.op),
    {
        assert(0u16 & 4u16 == 0) by (bit_vector);
        compile_stackop(self.op)
    }
}

} // verus!
