use vstd::prelude::*;

use crate::asm_stack::{
    stack_const_spec, ConstInternalOp,
    stack_alu_spec, stack_base_spec, stack_function_spec, stack_local_spec, stack_mem_spec,
    StackAluInstruction, StackBaseInstruction, StackCallInstruction, StackFunctionInstruction,
    StackJumpInstruction, StackLabelInstruction, StackLocalInstruction, StackMemInstruction,
    StackConstInstruction, StackOpInstruction,
};
use crate::context::{
    active_scope_of, emit_named_changes, emit_named_spec, index_of, table, wadd_n, CompileContext,
    Env, LabelView,
};
use crate::cpu::{self, encode_spec, valid_instruction, InstructionError};
use crate::error::{res_view, CompileError, ErrorView, ParsePosition};
use crate::jump::{JumpInstruction, LoadLabelInstruction};
use crate::load_const::{load_const_spec, LoadConstInstruction};
use crate::ops::{
    alu_op_spec, branch_shift_ok, branch_spec, mem_op_spec, mem_shift_ok, AluInstruction,
    BranchInstruction, CustomInstruction, CustomMultiInstruction, MemInstruction, NopInstruction,
};
use crate::stackop::compile_stackop_spec;

verus! {

/// Every kind of statement that compiles to primitive instructions.
#[derive(Clone, Debug)]
pub enum Instruction {
    Nop(NopInstruction),
    Custom(CustomInstruction),
    CustomMulti(CustomMultiInstruction),
    Alu(AluInstruction),
    Mem(MemInstruction),
    Branch(BranchInstruction),
    LoadConst(LoadConstInstruction),
    LoadLabel(LoadLabelInstruction),
    Jump(JumpInstruction),
    StackBase(StackBaseInstruction),
    StackMem(StackMemInstruction),
    StackAlu(StackAluInstruction),
    StackJump(StackJumpInstruction),
    StackCall(StackCallInstruction),
    StackLabel(StackLabelInstruction),
    StackLocal(StackLocalInstruction),
    StackFunction(StackFunctionInstruction),
    StackOp(StackOpInstruction),
    StackConst(StackConstInstruction),
}

pub open spec fn raw_words(v: Seq<u16>) -> Seq<cpu::Instruction> {
    Seq::new(v.len(), |i: int| cpu::Instruction::CUSTOM(v[i]))
}

/// What an instruction compiles to at `env`.
pub open spec fn instr_spec(i: Instruction, env: Env) -> Result<Seq<cpu::Instruction>, ErrorView> {
    match i {
        Instruction::Nop(_) => Ok(seq![cpu::Instruction::NOP]),
        Instruction::Custom(c) => Ok(seq![cpu::Instruction::CUSTOM(c.val)]),
        Instruction::CustomMulti(c) => Ok(raw_words(c.val@)),
        Instruction::Alu(a) => Ok(seq![alu_op_spec(a.op, a.dst, a.src_a, a.src_b, a.nx, a.ny, a.no)]),
        Instruction::Mem(m) => if mem_shift_ok(m.shift) {
            Ok(seq![mem_op_spec(m.op, m.dst, m.addr, m.shift, m.hi, m.lo, m.sw)])
        } else {
            Err(ErrorView::ShiftIsTooBig(m.shift))
        },
        Instruction::Branch(b) => if branch_shift_ok(b.shift) {
            Ok(seq![branch_spec(b)])
        } else {
            Err(ErrorView::InvalidInstruction(InstructionError::InvalidShift))
        },
        Instruction::LoadConst(l) => Ok(load_const_spec(l.op, l.dst, l.val)),
        Instruction::LoadLabel(l) => l.compile_spec(env),
        Instruction::Jump(j) => j.compile_spec(env),
        Instruction::StackBase(b) => Ok(stack_base_spec(b.op, b.reg)),
        Instruction::StackMem(m) => Ok(stack_mem_spec(m)),
        Instruction::StackAlu(a) => Ok(stack_alu_spec(a)),
        Instruction::StackJump(j) => j.compile_spec(env),
        Instruction::StackCall(c) => c.compile_spec(env),
        Instruction::StackLabel(l) => l.compile_spec(env),
        Instruction::StackLocal(l) => Ok(stack_local_spec(l.op, l.idx)),
        Instruction::StackFunction(f) => Ok(stack_function_spec(f)),
        Instruction::StackOp(o) => Ok(compile_stackop_spec(o.op)),
        Instruction::StackConst(c) => c.compile_spec(env),
    }
}

impl Instruction {
    /// The primitive instructions this statement stands for at the context's
    /// address, with its labels resolved.
    pub fn compile(&self, ctx: &CompileContext) -> (r: Result<Vec<cpu::Instruction>, CompileError>)
        ensures
            res_view(r) == instr_spec(*self, ctx.env()),
    {
        match self {
            Instruction::Nop(n) => Ok(n.compile()),
            Instruction::Custom(c) => Ok(c.compile()),
            Instruction::CustomMulti(c) => {
                let v = c.compile();
                assert(v@ =~= raw_words(c.val@));
                Ok(v)
            },
            Instruction::Alu(a) => Ok(a.compile()),
            Instruction::Mem(m) => m.compile(),
            Instruction::Branch(b) => b.compile(),
            Instruction::LoadConst(l) => Ok(l.compile()),
            Instruction::LoadLabel(l) => l.compile(ctx),
            Instruction::Jump(j) => j.compile(ctx),
            Instruction::StackBase(b) => Ok(b.compile()),
            Instruction::StackMem(m) => Ok(m.compile()),
            Instruction::StackAlu(a) => Ok(a.compile()),
            Instruction::StackJump(j) => j.compile(ctx),
            Instruction::StackCall(c) => c.compile(ctx),
            Instruction::StackLabel(l) => l.compile(ctx),
            Instruction::StackLocal(l) => Ok(l.compile()),
            Instruction::StackFunction(f) => Ok(f.compile()),
            Instruction::StackOp(o) => Ok(o.compile()),
            Instruction::StackConst(c) => c.compile(ctx),
        }
    }
}

/// One parsed unit of a listing.
#[derive(Clone, Debug)]
pub enum Atom {
    Instruction(Instruction),
    Label(Vec<char>),
    EnterLocalScope(usize),
    LeaveLocalScope,
    Nop,
}

/// An atom, or the error met while reading it, with its place in the source.
#[derive(Debug)]
pub struct FullAtom {
    pub start_pos: ParsePosition,
    pub end_pos: ParsePosition,
    pub compiled: Result<Atom, CompileError>,
}

/// The state of a pass as a model.
pub struct PassState {
    pub pc: u16,
    pub out: Seq<cpu::Instruction>,
    pub labels: Seq<LabelView>,
    pub scopes: Seq<usize>,
    pub changed: bool,
    pub errors: Seq<ErrorView>,
}

pub open spec fn errors_view(e: Seq<CompileError>) -> Seq<ErrorView> {
    e.map_values(|x: CompileError| x@)
}

pub open spec fn state_of(ctx: CompileContext, errors: Seq<CompileError>) -> PassState {
    PassState {
        pc: ctx.current_pc,
        out: ctx.instructions@,
        labels: table(ctx.labels@),
        scopes: ctx.scope_stack@,
        changed: ctx.should_recompile,
        errors: errors_view(errors),
    }
}

pub open spec fn env_of(st: PassState) -> Env {
    Env { labels: st.labels, scopes: st.scopes, pc: st.pc }
}

/// One atom of a pass: instructions append their words (or record their
/// error), labels take the current address, scope markers open and close scopes.
pub open spec fn step(st: PassState, a: Atom) -> PassState {
    match a {
        Atom::Instruction(i) => match instr_spec(i, env_of(st)) {
            Ok(v) => PassState { pc: wadd_n(st.pc, v.len()), out: st.out + v, ..st },
            Err(e) => PassState { errors: st.errors.push(e), ..st },
        },
        Atom::Label(n) => {
            let sc = active_scope_of(st.scopes);
            PassState {
                labels: emit_named_spec(st.labels, sc, n@, st.pc),
                changed: st.changed || emit_named_changes(st.labels, sc, n@, st.pc),
                ..st
            }
        },
        Atom::EnterLocalScope(id) => PassState { scopes: st.scopes.push(id), ..st },
        Atom::LeaveLocalScope => if st.scopes.len() > 0 {
            PassState { scopes: st.scopes.drop_last(), ..st }
        } else {
            st
        },
        Atom::Nop => st,
    }
}

pub open spec fn run_atoms(atoms: Seq<Atom>, st: PassState) -> PassState
    decreases atoms.len(),
{
    if atoms.len() == 0 {
        st
    } else {
        step(run_atoms(atoms.drop_last(), st), atoms.last())
    }
}

/// A pass starts at address 0 in the outermost scope, with the given table.
pub open spec fn start_state(labels: Seq<LabelView>) -> PassState {
    PassState {
        pc: 0,
        out: seq![],
        labels,
        scopes: seq![0usize],
        changed: false,
        errors: seq![],
    }
}

#[verifier::opaque]
pub open spec fn run_pass(atoms: Seq<Atom>, labels: Seq<LabelView>) -> PassState {
    run_atoms(atoms, start_state(labels))
}

/// Runs every atom once from the context's state, recording each atom's
/// compile error and going on.
pub fn compile_pass(atoms: &Vec<Atom>, ctx: &mut CompileContext, errors: &mut Vec<CompileError>)
    ensures
        old(ctx).wf() ==> final(ctx).wf(),
        state_of(*final(ctx), final(errors)@) == run_atoms(atoms@, state_of(*old(ctx), old(errors)@)),
{
    let ghost st0 = state_of(*ctx, errors@);
    let mut i: usize = 0;
    while i < atoms.len()
        invariant
            0 <= i <= atoms.len(),
            state_of(*ctx, errors@) == run_atoms(atoms@.take(i as int), st0),
            old(ctx).wf() ==> ctx.wf(),
        decreases atoms.len() - i,
    {
        assert(atoms@.take(i + 1).drop_last() =~= atoms@.take(i as int));
        let ghost before = state_of(*ctx, errors@);
        match &atoms[i] {
            Atom::Instruction(ins) => {
                match ins.compile(ctx) {
                    Ok(v) => {
                        ctx.instruct_all(v);
                    },
                    Err(e) => {
                        errors.push(e);
                        assert(errors_view(errors@) =~= before.errors.push(e@));
                    },
                }
            },
            Atom::Label(n) => {
                ctx.emit_named_label(n.as_slice());
            },
            Atom::EnterLocalScope(id) => {
                ctx.enter_local_scope(*id);
            },
            Atom::LeaveLocalScope => {
                ctx.leave_local_scope();
            },
            Atom::Nop => {},
        }
        assert(state_of(*ctx, errors@) =~= step(before, atoms@[i as int]));
        i = i + 1;
    }
    assert(atoms@.take(i as int) =~= atoms@);
}

/// The label table before any pass: every label with no address yet, or the
/// first redefinition.
pub struct DeclState {
    pub labels: Seq<LabelView>,
    pub scopes: Seq<usize>,
    pub err: Option<ErrorView>,
}

pub open spec fn declare_step(st: DeclState, a: Atom) -> DeclState {
    if st.err is Some {
        st
    } else {
        match a {
            Atom::Label(n) => {
                let sc = active_scope_of(st.scopes);
                if index_of(st.labels, sc, n@) >= 0 {
                    DeclState { err: Some(ErrorView::LabelRedefined(n@)), ..st }
                } else {
                    DeclState { labels: st.labels.push(LabelView { scope: sc, name: n@, addr: None }), ..st }
                }
            },
            Atom::EnterLocalScope(id) => DeclState { scopes: st.scopes.push(id), ..st },
            Atom::LeaveLocalScope => if st.scopes.len() > 0 {
                DeclState { scopes: st.scopes.drop_last(), ..st }
            } else {
                st
            },
            _ => st,
        }
    }
}

pub open spec fn declare_atoms(atoms: Seq<Atom>) -> DeclState
    decreases atoms.len(),
{
    if atoms.len() == 0 {
        DeclState { labels: seq![], scopes: seq![0usize], err: None }
    } else {
        declare_step(declare_atoms(atoms.drop_last()), atoms.last())
    }
}

/// Passes until one changes no label, at most `k` of them.
pub open spec fn iterate(atoms: Seq<Atom>, labels: Seq<LabelView>, k: nat) -> Result<
    Seq<cpu::Instruction>,
    Seq<ErrorView>,
>
    decreases k,
{
    if k == 0 {
        Err(seq![ErrorView::TooManyAttempts])
    } else {
        let st = run_pass(atoms, labels);
        if st.errors.len() > 0 {
            Err(st.errors)
        } else if !st.changed {
            Ok(st.out)
        } else {
            iterate(atoms, st.labels, (k - 1) as nat)
        }
    }
}

/// The bound on passes.
pub const MAX_ATTEMPTS: usize = 1024;

/// The words of a program: declare its labels, iterate passes to a fixed
/// point, encode the output.
pub open spec fn program_spec(atoms: Seq<Atom>) -> Result<Seq<u16>, Seq<ErrorView>> {
    let d = declare_atoms(atoms);
    if d.err is Some {
        Err(seq![d.err->0])
    } else {
        match iterate(atoms, d.labels, MAX_ATTEMPTS as nat) {
            Err(es) => Err(es),
            Ok(out) => if forall|i: int| 0 <= i < out.len() ==> valid_instruction(#[trigger] out[i]) {
                Ok(out.map_values(|x: cpu::Instruction| encode_spec(x)))
            } else {
                Err(seq![ErrorView::InvalidInstruction(InstructionError::InvalidShift)])
            },
        }
    }
}

/// One full pass from address 0 on the context's table.
fn one_pass(atoms: &Vec<Atom>, ctx: &mut CompileContext) -> (errors: Vec<CompileError>)
    ensures
        old(ctx).wf() ==> final(ctx).wf(),
        state_of(*final(ctx), errors@) == run_pass(atoms@, table(old(ctx).labels@)),
{
    let ghost labels_before = table(ctx.labels@);
    ctx.reset();
    let mut errors: Vec<CompileError> = Vec::new();
    assert(errors_view(errors@) =~= Seq::<ErrorView>::empty());
    assert(state_of(*ctx, errors@) == start_state(labels_before));
    compile_pass(atoms, ctx, &mut errors);
    proof {
        reveal(run_pass);
    }
    errors
}

/// Records every label of the listing before the first pass.
pub fn declare_labels(atoms: &Vec<Atom>, ctx: &mut CompileContext) -> (r: Result<(), CompileError>)
    requires
        table(old(ctx).labels@) == Seq::<LabelView>::empty(),
        old(ctx).scope_stack@ == seq![0usize],
    ensures
        declare_atoms(atoms@).err is Some <==> r is Err,
        r is Err ==> r->Err_0@ == declare_atoms(atoms@).err->0,
        r is Ok ==> table(final(ctx).labels@) == declare_atoms(atoms@).labels,
        final(ctx).wf(),
{
    let mut i: usize = 0;
    while i < atoms.len()
        invariant
            0 <= i <= atoms.len(),
            declare_atoms(atoms@.take(i as int)).err is None,
            declare_atoms(atoms@.take(i as int)).labels == table(ctx.labels@),
            declare_atoms(atoms@.take(i as int)).scopes == ctx.scope_stack@,
            ctx.wf(),
        decreases atoms.len() - i,
    {
        assert(atoms@.take(i + 1).drop_last() =~= atoms@.take(i as int));
        match &atoms[i] {
            Atom::Label(n) => {
                let r = ctx.declare_label(n.as_slice());
                if r.is_err() {
                    proof {
                        lemma_declare_err_sticks(atoms@, i + 1);
                    }
                    return r;
                }
            },
            Atom::EnterLocalScope(id) => {
                ctx.enter_local_scope(*id);
            },
            Atom::LeaveLocalScope => {
                ctx.leave_local_scope();
            },
            _ => {},
        }
        i = i + 1;
    }
    assert(atoms@.take(i as int) =~= atoms@);
    Ok(())
}

proof fn lemma_declare_err_sticks(atoms: Seq<Atom>, j: int)
    requires
        0 <= j <= atoms.len(),
        declare_atoms(atoms.take(j)).err is Some,
    ensures
        declare_atoms(atoms).err == declare_atoms(atoms.take(j)).err,
    decreases atoms.len() - j,
{
    if j < atoms.len() {
        assert(atoms.take(j + 1).drop_last() =~= atoms.take(j));
        lemma_declare_err_sticks(atoms, j + 1);
    } else {
        assert(atoms.take(j) =~= atoms);
    }
}

/// Encodes the output of the last pass; the first word that does not fit is
/// `InvalidInstruction`.
pub fn encode_all(out: &Vec<cpu::Instruction>) -> (r: Result<Vec<u16>, CompileError>)
    ensures
        (forall|i: int| 0 <= i < out@.len() ==> valid_instruction(#[trigger] out@[i])) ==> r is Ok
            && r->Ok_0@ == out@.map_values(|x: cpu::Instruction| encode_spec(x)),
        !(forall|i: int| 0 <= i < out@.len() ==> valid_instruction(#[trigger] out@[i])) ==> r is Err
            && r->Err_0@ == ErrorView::InvalidInstruction(InstructionError::InvalidShift),
{
    let mut words: Vec<u16> = Vec::new();
    let mut i: usize = 0;
    while i < out.len()
        invariant
            0 <= i <= out.len(),
            words@ == out@.take(i as int).map_values(|x: cpu::Instruction| encode_spec(x)),
            forall|j: int| 0 <= j < i ==> valid_instruction(#[trigger] out@[j]),
        decreases out.len() - i,
    {
        match out[i].encode() {
            Ok(w) => {
                words.push(w);
                assert(out@.take(i + 1).map_values(|x: cpu::Instruction| encode_spec(x))
                    =~= out@.take(i as int).map_values(|x: cpu::Instruction| encode_spec(x)).push(w));
            },
            Err(e) => {
                return Err(CompileError::InvalidInstruction(e));
            },
        }
        i = i + 1;
    }
    assert(out@.take(i as int) =~= out@);
    Ok(words)
}

#[verifier::rlimit(50)]
/// Compiles atoms to words: labels are declared, then passes run from
/// address 0 until no label moves (at most 1024 of them); a pass with errors
/// ends the compile with all of them.
pub fn compile_program(atoms: &Vec<Atom>) -> (r: Result<Vec<u16>, Vec<CompileError>>)
    ensures
        r is Ok ==> program_spec(atoms@) == Ok::<Seq<u16>, Seq<ErrorView>>(r->Ok_0@),
        r is Err ==> program_spec(atoms@) == Err::<Seq<u16>, Seq<ErrorView>>(
            errors_view(r->Err_0@),
        ),
{
    let mut ctx = CompileContext::new();
    assert(table(ctx.labels@) =~= Seq::<LabelView>::empty());
    match declare_labels(atoms, &mut ctx) {
        Err(e) => {
            let v = vec![e];
            assert(errors_view(v@) =~= seq![declare_atoms(atoms@).err->0]);
            return Err(v);
        },
        Ok(()) => {},
    }
    let ghost labels0 = table(ctx.labels@);
    let mut attempts: usize = MAX_ATTEMPTS;
    loop
        invariant_except_break
            iterate(atoms@, labels0, MAX_ATTEMPTS as nat) == iterate(
                atoms@,
                table(ctx.labels@),
                attempts as nat,
            ),
        invariant
            attempts <= MAX_ATTEMPTS,
            declare_atoms(atoms@).err is None,
            labels0 == declare_atoms(atoms@).labels,
            ctx.wf(),
        ensures
            iterate(atoms@, labels0, MAX_ATTEMPTS as nat) == Ok::<
                Seq<cpu::Instruction>,
                Seq<ErrorView>,
            >(ctx.instructions@),
        decreases attempts,
    {
        if attempts == 0 {
            let v = vec![CompileError::TooManyAttempts];
            assert(errors_view(v@) =~= seq![ErrorView::TooManyAttempts]);
            return Err(v);
        }
        let ghost labels_before = table(ctx.labels@);
        let errors = one_pass(atoms, &mut ctx);
        let ghost st = run_pass(atoms@, labels_before);
        assert(state_of(ctx, errors@) == st);
        assert(iterate(atoms@, labels_before, attempts as nat) == (if st.errors.len() > 0 {
            Err(st.errors)
        } else if !st.changed {
            Ok(st.out)
        } else {
            iterate(atoms@, st.labels, (attempts - 1) as nat)
        }));
        if errors.len() > 0 {
            return Err(errors);
        }
        if !ctx.should_recompile {
            break ;
        }
        attempts = attempts - 1;
    }
    match encode_all(&ctx.instructions) {
        Ok(w) => Ok(w),
        Err(e) => {
            let v = vec![e];
            assert(errors_view(v@) =~= seq![ErrorView::InvalidInstruction(InstructionError::InvalidShift)]);
            Err(v)
        },
    }
}

proof fn lemma_unchanged_keeps_table(atoms: Seq<Atom>, st: PassState)
    ensures
        !run_atoms(atoms, st).changed ==> (!st.changed && run_atoms(atoms, st).labels == st.labels),
    decreases atoms.len(),
{
    if atoms.len() > 0 {
        lemma_unchanged_keeps_table(atoms.drop_last(), st);
    }
}

/// Once a pass has changed no label, running it again on the table it left
/// gives the same output, the same table and again no change.
pub proof fn lemma_converged_pass_repeats(atoms: Seq<Atom>, labels: Seq<LabelView>)
    requires
        !run_pass(atoms, labels).changed,
    ensures
        run_pass(atoms, run_pass(atoms, labels).labels) == run_pass(atoms, labels),
{
    reveal(run_pass);
    lemma_unchanged_keeps_table(atoms, start_state(labels));
}

pub open spec fn atom_views(a: Seq<Atom>) -> Seq<crate::stmt::AtomView> {
    a.map_values(|x: Atom| x@)
}

proof fn lemma_instr_view(i: Instruction, j: Instruction, env: Env)
    requires
        i@ == j@,
    ensures
        instr_spec(i, env) == instr_spec(j, env),
{
    match (i, j) {
        (Instruction::StackConst(a), Instruction::StackConst(b)) => {
            match (a.val, b.val) {
                (ConstInternalOp::Label(x), ConstInternalOp::Label(y)) => {
                    assert(stack_const_spec(a.val, 0) == stack_const_spec(b.val, 0));
                },
                _ => {},
            }
        },
        _ => {},
    }
}

proof fn lemma_step_view(st: PassState, a: Atom, b: Atom)
    requires
        a@ == b@,
    ensures
        step(st, a) == step(st, b),
{
    match (a, b) {
        (Atom::Instruction(x), Atom::Instruction(y)) => {
            lemma_instr_view(x, y, env_of(st));
        },
        _ => {},
    }
}

proof fn lemma_run_view(x: Seq<Atom>, y: Seq<Atom>, st: PassState)
    requires
        atom_views(x) == atom_views(y),
    ensures
        run_atoms(x, st) == run_atoms(y, st),
    decreases x.len(),
{
    assert(x.len() == atom_views(x).len());
    assert(y.len() == atom_views(y).len());
    if x.len() > 0 {
        assert(atom_views(x.drop_last()) =~= atom_views(x).drop_last());
        assert(atom_views(y.drop_last()) =~= atom_views(y).drop_last());
        lemma_run_view(x.drop_last(), y.drop_last(), st);
        assert(x.last()@ == atom_views(x).last());
        assert(y.last()@ == atom_views(y).last());
        lemma_step_view(run_atoms(x.drop_last(), st), x.last(), y.last());
    }
}

proof fn lemma_declare_view(x: Seq<Atom>, y: Seq<Atom>)
    requires
        atom_views(x) == atom_views(y),
    ensures
        declare_atoms(x) == declare_atoms(y),
    decreases x.len(),
{
    assert(x.len() == atom_views(x).len());
    assert(y.len() == atom_views(y).len());
    if x.len() > 0 {
        assert(atom_views(x.drop_last()) =~= atom_views(x).drop_last());
        assert(atom_views(y.drop_last()) =~= atom_views(y).drop_last());
        lemma_declare_view(x.drop_last(), y.drop_last());
        assert(x.last()@ == atom_views(x).last());
        assert(y.last()@ == atom_views(y).last());
    }
}

proof fn lemma_iterate_view(x: Seq<Atom>, y: Seq<Atom>, labels: Seq<LabelView>, k: nat)
    requires
        atom_views(x) == atom_views(y),
    ensures
        iterate(x, labels, k) == iterate(y, labels, k),
    decreases k,
{
    reveal(run_pass);
    lemma_run_view(x, y, start_state(labels));
    if k > 0 {
        lemma_iterate_view(x, y, run_pass(x, labels).labels, (k - 1) as nat);
    }
}

/// What a program compiles to depends only on what its atoms say, not on how
/// they are held.
pub proof fn lemma_program_spec_views(x: Seq<Atom>, y: Seq<Atom>)
    requires
        atom_views(x) == atom_views(y),
    ensures
        program_spec(x) == program_spec(y),
{
    lemma_declare_view(x, y);
    lemma_iterate_view(x, y, declare_atoms(x).labels, MAX_ATTEMPTS as nat);
}

/// Compiling the same atoms twice gives the same result.
pub proof fn lemma_compile_deterministic(a: Seq<Atom>, b: Seq<Atom>)
    requires
        a == b,
    ensures
        program_spec(a) == program_spec(b),
{
}

} // verus!
