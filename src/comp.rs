use vstd::prelude::*;

use crate::cpu::{self, Register};
use crate::ops::{AluOperation, MemOperation};
use crate::stackop::{
    all_valid, dec_sp, execute_spec, inc_sp, lemma_execute_valid, mem_spec, StackExecCtx,
    signature_spec, StackOperation, FLAG_RESET_STACK, FLAG_SAVE_STACK,
};

verus! {

/// The general registers that may hold stack values.
pub open spec fn window_regs() -> Seq<Register> {
    seq![Register::R2, Register::R3, Register::R4, Register::R5]
}

pub open spec fn is_window_reg(r: Register) -> bool {
    r == Register::R2 || r == Register::R3 || r == Register::R4 || r == Register::R5
}

/// Compiles stack operations keeping the top of the stack in registers.
/// `stack_reg` lists the registers that hold the top values, oldest first;
/// every value below them is in memory below SP.
pub struct OptCompiler {
    pub stack_reg: Vec<Register>,
    pub out: Vec<cpu::Instruction>,
}

fn contains(v: &Vec<Register>, r: Register) -> (b: bool)
    ensures
        b == v@.contains(r),
{
    let mut i: usize = 0;
    while i < v.len()
        invariant
            0 <= i <= v.len(),
            forall|j: int| 0 <= j < i ==> v@[j] != r,
        decreases v.len() - i,
    {
        if v[i] == r {
            return true;
        }
        i = i + 1;
    }
    false
}

fn mem_word(m: MemOperation, dst: Register, addr: Register, shift: i8) -> (r: cpu::Instruction)
    requires
        -3 <= shift <= 3,
    ensures
        cpu::valid_instruction(r),
        r == mem_spec(m, dst, addr, shift),
{
    match m.instr(dst, addr, shift) {
        Ok(i) => i,
        Err(_) => cpu::Instruction::NOP,
    }
}

/// The compiler's state as a model: the registers holding the top of the
/// stack (oldest first) and the code emitted so far.
pub struct Window {
    pub reg: Seq<Register>,
    pub out: Seq<cpu::Instruction>,
}

/// Writes the oldest register-held value below SP's new top.
pub open spec fn spill1(w: Window) -> Window {
    if w.reg.len() > 0 {
        Window {
            reg: w.reg.drop_first(),
            out: w.out + seq![mem_spec(MemOperation::STORE, w.reg[0], Register::SP, 0), inc_sp()],
        }
    } else {
        w
    }
}

/// Writes every register-held value to memory, oldest first.
pub open spec fn flush(w: Window) -> Window
    decreases w.reg.len(),
{
    if w.reg.len() == 0 {
        w
    } else {
        flush(spill1(w))
    }
}

pub open spec fn free_in(c: Register, used: Seq<Register>, reg: Seq<Register>) -> bool {
    !used.contains(c) && !reg.contains(c)
}

/// The first of R2..R5 neither in `used` nor in the window.
pub open spec fn first_free(used: Seq<Register>, reg: Seq<Register>) -> Option<Register> {
    if free_in(Register::R2, used, reg) {
        Some(Register::R2)
    } else if free_in(Register::R3, used, reg) {
        Some(Register::R3)
    } else if free_in(Register::R4, used, reg) {
        Some(Register::R4)
    } else if free_in(Register::R5, used, reg) {
        Some(Register::R5)
    } else {
        None
    }
}

/// A free register, spilling the oldest window values until one is free.
pub open spec fn alloc_spec(w: Window, used: Seq<Register>) -> (Window, Register)
    decreases w.reg.len(),
{
    match first_free(used, w.reg) {
        Some(c) => (w, c),
        None => if w.reg.len() == 0 {
            (w, Register::R2)
        } else {
            alloc_spec(spill1(w), used)
        },
    }
}

/// A free register loaded with the value just below SP, SP lowered.
pub open spec fn load_one_spec(w: Window, used: Seq<Register>) -> (Window, Register) {
    let (w2, r) = alloc_spec(w, used);
    (
        Window {
            out: w2.out + seq![dec_sp(), mem_spec(MemOperation::LOAD, r, Register::SP, 0)],
            ..w2
        },
        r,
    )
}

/// Takes `n` inputs, topmost first, from the window or from memory; `inps`
/// ends deepest first.
pub open spec fn take_spec(w: Window, n: nat, used: Seq<Register>, inps: Seq<Register>) -> (
    Window,
    Seq<Register>,
    Seq<Register>,
)
    decreases n,
{
    if n == 0 {
        (w, used, inps)
    } else {
        let (w2, r) = if w.reg.len() > 0 {
            (Window { reg: w.reg.drop_last(), ..w }, w.reg.last())
        } else {
            load_one_spec(w, used)
        };
        take_spec(w2, (n - 1) as nat, used.push(r), seq![r] + inps)
    }
}

/// Allocates `n` registers in turn, each added to `used`.
pub open spec fn alloc_n_spec(w: Window, n: nat, used: Seq<Register>, acc: Seq<Register>) -> (
    Window,
    Seq<Register>,
    Seq<Register>,
)
    decreases n,
{
    if n == 0 {
        (w, acc, used)
    } else {
        let (w2, r) = alloc_spec(w, used);
        alloc_n_spec(w2, (n - 1) as nat, used.push(r), acc.push(r))
    }
}

/// Drops `n` values: window registers first, then by lowering SP.
pub open spec fn drop_spec(w: Window, n: nat) -> Window
    decreases n,
{
    if n == 0 {
        w
    } else if w.reg.len() > 0 {
        drop_spec(Window { reg: w.reg.drop_last(), ..w }, (n - 1) as nat)
    } else {
        drop_spec(Window { out: w.out.push(dec_sp()), ..w }, (n - 1) as nat)
    }
}

/// One operation against the window: a pure operation that pushes nothing
/// only drops; otherwise the inputs are taken, the window flushed where the
/// flags ask for it, scratch and output registers allocated, the work
/// emitted, and the outputs become the new top of the window.
pub open spec fn step_spec(w: Window, op: StackOperation) -> Window {
    let s = signature_spec(op);
    if s.pushes == 0 && s.flags == 0 {
        drop_spec(w, s.takes as nat)
    } else {
        let (w1, used1, inps) = take_spec(w, s.takes as nat, seq![], seq![]);
        let w2 = if s.flags & FLAG_SAVE_STACK != 0 || s.flags & FLAG_RESET_STACK != 0 {
            flush(w1)
        } else {
            w1
        };
        let (w3, temps, _u) = alloc_n_spec(w2, s.temps as nat, used1, seq![]);
        let (w4, outs, _u2) = alloc_n_spec(w3, s.pushes as nat, temps, seq![]);
        let (body, outs2) = execute_spec(op, inps, outs, temps);
        Window { reg: w4.reg + outs2, out: w4.out + body }
    }
}

/// The window after the operations, in order, from `w`.
pub open spec fn steps_spec(w: Window, ops: Seq<StackOperation>) -> Window
    decreases ops.len(),
{
    if ops.len() == 0 {
        w
    } else {
        step_spec(steps_spec(w, ops.drop_last()), ops.last())
    }
}

/// The code of the register-window compiler: every operation against an
/// empty window, then the window written back; nothing for no operations.
pub open spec fn opt_compile_spec(ops: Seq<StackOperation>) -> Seq<cpu::Instruction> {
    if ops.len() == 0 {
        seq![]
    } else {
        flush(steps_spec(Window { reg: seq![], out: seq![] }, ops)).out
    }
}

impl OptCompiler {
    pub open spec fn window(&self) -> Window {
        Window { reg: self.stack_reg@, out: self.out@ }
    }

    /// Writes the oldest register-held value to memory and advances SP.
    fn reset_single(&mut self)
        requires
            all_valid(old(self).out@),
        ensures
            all_valid(final(self).out@),
            final(self).window() == spill1(old(self).window()),
    {
        if self.stack_reg.len() > 0 {
            let entry = self.stack_reg.remove(0);
            self.out.push(mem_word(MemOperation::STORE, entry, Register::SP, 0));
            self.out.push(AluOperation::INC.instr(Register::SP, Register::SP, Register::ZX));
            assert(self.out@ =~= old(self).out@ + seq![
                mem_spec(MemOperation::STORE, entry, Register::SP, 0),
                inc_sp(),
            ]);
            assert(self.stack_reg@ =~= old(self).stack_reg@.drop_first());
        }
    }

    /// Writes every register-held value to memory, oldest first.
    pub fn reset_stack(&mut self)
        requires
            all_valid(old(self).out@),
        ensures
            all_valid(final(self).out@),
            final(self).window() == flush(old(self).window()),
            final(self).stack_reg@.len() == 0,
    {
        while self.stack_reg.len() > 0
            invariant
                all_valid(self.out@),
                flush(old(self).window()) == flush(self.window()),
            decreases self.stack_reg.len(),
        {
            self.reset_single();
        }
    }

    /// A window register outside `used` and outside the window, spilling the
    /// oldest window values until one is free.
    fn alloc_free_register(&mut self, used: &Vec<Register>) -> (r: Register)
        requires
            all_valid(old(self).out@),
            used@.len() < 4,
        ensures
            all_valid(final(self).out@),
            (final(self).window(), r) == alloc_spec(old(self).window(), used@),
            is_window_reg(r),
            !used@.contains(r),
            !final(self).stack_reg@.contains(r),
    {
        loop
            invariant
                all_valid(self.out@),
                used@.len() < 4,
                alloc_spec(old(self).window(), used@) == alloc_spec(self.window(), used@),
            decreases self.stack_reg.len(),
        {
            let cands = [Register::R2, Register::R3, Register::R4, Register::R5];
            assert(cands@ =~= window_regs());
            let mut k: usize = 0;
            while k < 4
                invariant
                    all_valid(self.out@),
                    0 <= k <= 4,
                    cands@ == window_regs(),
                    alloc_spec(old(self).window(), used@) == alloc_spec(self.window(), used@),
                    forall|j: int|
                        0 <= j < k ==> !free_in(#[trigger] cands@[j], used@, self.stack_reg@),
                decreases 4 - k,
            {
                let c = cands[k];
                if !contains(used, c) && !contains(&self.stack_reg, c) {
                    assert(is_window_reg(c));
                    assert(first_free(used@, self.stack_reg@) == Some(c)) by {
                        if k > 0 {
                            assert(!free_in(cands@[0], used@, self.stack_reg@));
                        }
                        if k > 1 {
                            assert(!free_in(cands@[1], used@, self.stack_reg@));
                        }
                        if k > 2 {
                            assert(!free_in(cands@[2], used@, self.stack_reg@));
                        }
                    }
                    return c;
                }
                k = k + 1;
            }
            assert(!free_in(cands@[0], used@, self.stack_reg@));
            assert(!free_in(cands@[1], used@, self.stack_reg@));
            assert(!free_in(cands@[2], used@, self.stack_reg@));
            assert(!free_in(cands@[3], used@, self.stack_reg@));
            if self.stack_reg.len() == 0 {
                proof {
                    lemma_free_candidate(used@, cands@);
                    assert(self.stack_reg@ =~= Seq::<Register>::empty());
                }
                assert(false);
            }
            self.reset_single();
        }
    }

    /// Gives the value below the window a register: lowers SP and loads it.
    fn load_one_into_reg(&mut self, used: &Vec<Register>) -> (r: Register)
        requires
            all_valid(old(self).out@),
            used@.len() < 4,
        ensures
            all_valid(final(self).out@),
            (final(self).window(), r) == load_one_spec(old(self).window(), used@),
            !used@.contains(r),
    {
        let reg = self.alloc_free_register(used);
        let ghost mid = self.out@;
        self.out.push(AluOperation::DEC.instr(Register::SP, Register::SP, Register::ZX));
        self.out.push(mem_word(MemOperation::LOAD, reg, Register::SP, 0));
        assert(self.out@ =~= mid + seq![dec_sp(), mem_spec(MemOperation::LOAD, reg, Register::SP, 0)]);
        reg
    }

    /// Compiles one operation against the window.
    pub fn compile_one(&mut self, op: StackOperation)
        requires
            all_valid(old(self).out@),
        ensures
            all_valid(final(self).out@),
            final(self).window() == step_spec(old(self).window(), op),
    {
        let s = op.signature();
        if s.pushes == 0 && s.flags == 0 {
            let mut left = s.takes;
            while left > 0 && self.stack_reg.len() > 0
                invariant
                    all_valid(self.out@),
                    drop_spec(old(self).window(), s.takes as nat) == drop_spec(self.window(), left as nat),
                decreases left,
            {
                let ghost w0 = self.window();
                self.stack_reg.pop();
                assert(self.window() =~= Window { reg: w0.reg.drop_last(), ..w0 });
                left = left - 1;
            }
            while left > 0
                invariant
                    all_valid(self.out@),
                    self.stack_reg@.len() == 0 || left == 0,
                    drop_spec(old(self).window(), s.takes as nat) == drop_spec(self.window(), left as nat),
                decreases left,
            {
                let ghost w0 = self.window();
                self.out.push(AluOperation::DEC.instr(Register::SP, Register::SP, Register::ZX));
                assert(self.window() =~= Window { out: w0.out.push(dec_sp()), ..w0 });
                left = left - 1;
            }
            return ;
        }
        let mut inps: Vec<Register> = Vec::new();
        let mut used: Vec<Register> = Vec::new();
        let ghost take_all = take_spec(old(self).window(), s.takes as nat, seq![], seq![]);
        let mut i: usize = 0;
        while i < s.takes
            invariant
                all_valid(self.out@),
                s == signature_spec(op),
                s.takes <= 2,
                i <= s.takes,
                inps@.len() == i,
                used@.len() == i,
                take_all == take_spec(self.window(), (s.takes - i) as nat, used@, inps@),
            decreases s.takes - i,
        {
            let ghost w0 = self.window();
            let reg = if self.stack_reg.len() > 0 {
                let r = self.stack_reg.pop().unwrap();
                assert(self.window() =~= Window { reg: w0.reg.drop_last(), ..w0 });
                r
            } else {
                self.load_one_into_reg(&used)
            };
            used.push(reg);
            let ghost inps0 = inps@;
            inps.insert(0, reg);
            assert(inps@ =~= seq![reg] + inps0);
            i = i + 1;
        }
        let ghost w1 = self.window();
        assert(take_all == (w1, used@, inps@));
        if s.check(FLAG_SAVE_STACK) || s.check(FLAG_RESET_STACK) {
            self.reset_stack();
        }
        let ghost w2 = self.window();
        assert(w2 == (if s.flags & FLAG_SAVE_STACK != 0 || s.flags & FLAG_RESET_STACK != 0 {
            flush(w1)
        } else {
            w1
        }));
        let ghost temps_all = alloc_n_spec(self.window(), s.temps as nat, used@, seq![]);
        let mut temps: Vec<Register> = Vec::new();
        let mut k: usize = 0;
        while k < s.temps
            invariant
                all_valid(self.out@),
                s == signature_spec(op),
                s.temps <= 1,
                k <= s.temps,
                temps@.len() == k,
                used@.len() <= 2 + k,
                temps_all == alloc_n_spec(self.window(), (s.temps - k) as nat, used@, temps@),
            decreases s.temps - k,
        {
            let reg = self.alloc_free_register(&used);
            temps.push(reg);
            used.push(reg);
            k = k + 1;
        }
        assert(temps_all == (self.window(), temps@, used@));
        let ghost w3 = self.window();
        let mut used2: Vec<Register> = Vec::new();
        let mut t: usize = 0;
        while t < temps.len()
            invariant
                t <= temps.len(),
                used2@ == temps@.take(t as int),
            decreases temps.len() - t,
        {
            used2.push(temps[t]);
            assert(temps@.take(t + 1) =~= temps@.take(t as int).push(temps@[t as int]));
            t = t + 1;
        }
        assert(temps@.take(t as int) =~= temps@);
        let ghost outs_all = alloc_n_spec(self.window(), s.pushes as nat, temps@, seq![]);
        let mut outs: Vec<Register> = Vec::new();
        let mut p: usize = 0;
        while p < s.pushes
            invariant
                all_valid(self.out@),
                s == signature_spec(op),
                s.pushes <= 2,
                s.temps <= 1,
                p <= s.pushes,
                outs@.len() == p,
                used2@.len() == s.temps + p,
                outs_all == alloc_n_spec(self.window(), (s.pushes - p) as nat, used2@, outs@),
            decreases s.pushes - p,
        {
            let reg = self.alloc_free_register(&used2);
            outs.push(reg);
            used2.push(reg);
            p = p + 1;
        }
        let ghost outs0 = outs@;
        let ghost inps0 = inps@;
        let ghost temps0 = temps@;
        let ghost w4 = self.window();
        assert(outs_all.0 == w4 && outs_all.1 == outs0);
        let mut stack_info = StackExecCtx { inps, outs, temps };
        let mut body = op.execute(&mut stack_info);
        let outs = stack_info.outs;
        proof {
            lemma_execute_valid(op, inps0, outs0, temps0);
        }
        let ghost before = self.out@;
        let ghost body0 = body@;
        assert(execute_spec(op, inps0, outs0, temps0) == (body0, outs@));
        self.out.append(&mut body);
        assert forall|k: int| 0 <= k < self.out@.len() implies cpu::valid_instruction(#[trigger] self.out@[k]) by {
            if k >= before.len() {
                assert(self.out@[k] == execute_spec(op, inps0, outs0, temps0).0[k - before.len()]);
            }
        }
        let ghost reg4 = self.stack_reg@;
        let mut q: usize = 0;
        while q < outs.len()
            invariant
                all_valid(self.out@),
                q <= outs.len(),
                self.stack_reg@ == reg4 + outs@.take(q as int),
                self.out@ == before + body0,
                before == w4.out,
                reg4 == w4.reg,
            decreases outs.len() - q,
        {
            self.stack_reg.push(outs[q]);
            assert(reg4 + outs@.take(q + 1) =~= (reg4 + outs@.take(q as int)).push(outs@[q as int]));
            q = q + 1;
        }
        assert(outs@.take(q as int) =~= outs@);
        proof {
            let sp = step_spec(old(self).window(), op);
            assert(self.out@ == w4.out + execute_spec(op, inps0, outs0, temps0).0);
            assert(sp == Window { reg: w4.reg + outs@, out: w4.out + execute_spec(op, inps0, outs0, temps0).0 });
        }
        assert(self.window() =~= step_spec(old(self).window(), op));
    }
}

/// Fewer than four registers leave one of the four window registers out.
proof fn lemma_free_candidate(used: Seq<Register>, cands: Seq<Register>)
    requires
        used.len() < 4,
        cands == window_regs(),
    ensures
        exists|k: int| 0 <= k < 4 && !used.contains(#[trigger] cands[k]),
{
    if forall|k: int| 0 <= k < 4 ==> used.contains(#[trigger] cands[k]) {
        assert forall|k: int| 0 <= k < 4 implies #[trigger] cands[k] == used[0] || cands[k]
            == used[1] || cands[k] == used[2] by {
            assert(used.contains(cands[k]));
            let j = choose|j: int| 0 <= j < used.len() && used[j] == cands[k];
            assert(j == 0 || j == 1 || j == 2);
        }
        assert(cands[0] == used[0] || cands[0] == used[1] || cands[0] == used[2]);
        assert(cands[1] == used[0] || cands[1] == used[1] || cands[1] == used[2]);
        assert(cands[2] == used[0] || cands[2] == used[1] || cands[2] == used[2]);
        assert(cands[3] == used[0] || cands[3] == used[1] || cands[3] == used[2]);
    }
}

/// Compiles a sequence of stack operations with the top of the stack held in
/// registers, and writes the window back to memory at the end.
pub fn compile(ops: &Vec<StackOperation>) -> (r: Vec<cpu::Instruction>)
    ensures
        r@ == opt_compile_spec(ops@),
        all_valid(r@),
{
    let mut c = OptCompiler { stack_reg: Vec::new(), out: Vec::new() };
    let ghost w0 = c.window();
    assert(w0 =~= Window { reg: seq![], out: seq![] });
    let mut i: usize = 0;
    while i < ops.len()
        invariant
            i <= ops.len(),
            all_valid(c.out@),
            w0 == (Window { reg: seq![], out: seq![] }),
            c.window() == steps_spec(w0, ops@.take(i as int)),
        decreases ops.len() - i,
    {
        assert(ops@.take(i + 1).drop_last() =~= ops@.take(i as int));
        c.compile_one(ops[i]);
        i = i + 1;
    }
    assert(ops@.take(i as int) =~= ops@);
    if ops.len() > 0 {
        c.reset_stack();
    }
    c.out
}

/// A block of stack operations compiled with the peephole pass and the
/// register window.
#[derive(Clone, Debug)]
pub struct StackOptAtom {
    pub ops: Vec<StackOperation>,
}

impl StackOptAtom {
    pub fn new(ops: Vec<StackOperation>) -> (r: StackOptAtom)
        ensures
            r.ops@ == ops@,
    {
        StackOptAtom { ops }
    }

    /// The block's operations, optimized, then compiled with the register window.
    pub fn compile(&self) -> (r: Vec<cpu::Instruction>)
        ensures
            exists|opt: Seq<StackOperation>|
                crate::optim::optimized(self.ops@, opt) && crate::optim::rewrites_to(self.ops@, opt)
                    && r@ == opt_compile_spec(opt),
            self.ops@.len() == 0 ==> r@.len() == 0,
            all_valid(r@),
    {
        let mut ops: Vec<StackOperation> = Vec::new();
        let mut i: usize = 0;
        while i < self.ops.len()
            invariant
                0 <= i <= self.ops.len(),
                ops@ == self.ops@.take(i as int),
            decreases self.ops.len() - i,
        {
            ops.push(self.ops[i]);
            assert(self.ops@.take(i + 1) =~= self.ops@.take(i as int).push(self.ops@[i as int]));
            i = i + 1;
        }
        let opt = crate::optim::optimize(ops);
        proof {
            if self.ops@.len() == 0 {
                assert(ops@ =~= Seq::<StackOperation>::empty());
                assert(crate::optim::normal(ops@));
            }
        }
        assert(ops@ =~= self.ops@);
        compile(&opt)
    }
}

} // verus!
