use vstd::prelude::*;

use crate::context::wsub;
use crate::ops::AluOperation;
use crate::stackop::{
    signature_spec, ConstStackOp, LocalOperation, ManipStackOp,
    ManipStackOperation, StackOperation,
};

verus! {

/// A store to a local followed by a load of the same local.
pub open spec fn store_then_load(a: StackOperation, b: StackOperation) -> bool {
    match (a, b) {
        (StackOperation::Local(s), StackOperation::Local(l)) => match (s.op, l.op) {
            (LocalOperation::STORE(ms), LocalOperation::LOAD(ml)) => ms == ml && s.idx == l.idx,
            _ => false,
        },
        _ => false,
    }
}

/// A constant push followed by a plain ADD or SUB.
pub open spec fn const_then_add(a: StackOperation, b: StackOperation) -> bool {
    match (a, b) {
        (StackOperation::Const(c), StackOperation::Alu(x)) => !c.do_add && !x.nx && !x.ny && !x.no
            && (x.op == AluOperation::ADD || x.op == AluOperation::SUB),
        _ => false,
    }
}

/// A pure operation whose pushes a following DROP discards.
pub open spec fn pure_then_drop(a: StackOperation, b: StackOperation) -> bool {
    match b {
        StackOperation::Manip(m) => match m.op {
            ManipStackOperation::Drop(n) => {
                let s = signature_spec(a);
                s.flags == 0 && s.pushes <= n && n - s.pushes + s.takes <= 255
            },
            _ => false,
        },
        _ => false,
    }
}

/// Whether the peephole rules rewrite the adjacent pair `a`, `b`.
pub open spec fn rewrites(a: StackOperation, b: StackOperation) -> bool {
    store_then_load(a, b) || const_then_add(a, b) || pure_then_drop(a, b)
}

/// What replaces the pair, in program order: a store then a load of the same
/// local becomes a duplicate then the store; a constant then ADD (SUB) becomes
/// adding the constant (its negation); a pure operation then a drop becomes a
/// drop of the operation's own inputs.
pub open spec fn replacement(a: StackOperation, b: StackOperation) -> Seq<StackOperation> {
    if store_then_load(a, b) {
        seq![StackOperation::Manip(ManipStackOp { op: ManipStackOperation::Dup }), a]
    } else if const_then_add(a, b) {
        let c = a->Const_0;
        let x = b->Alu_0;
        seq![
            StackOperation::Const(
                ConstStackOp {
                    val: if x.op == AluOperation::SUB {
                        wsub(0, c.val)
                    } else {
                        c.val
                    },
                    do_add: true,
                },
            ),
        ]
    } else {
        let n = b->Manip_0.op->Drop_0;
        let s = signature_spec(a);
        seq![
            StackOperation::Manip(
                ManipStackOp { op: ManipStackOperation::Drop((n - s.pushes + s.takes) as u8) },
            ),
        ]
    }
}

/// No rule applies anywhere in `s`.
pub open spec fn normal(s: Seq<StackOperation>) -> bool {
    forall|i: int| 0 <= i && i + 1 < s.len() ==> !#[trigger] rewrites(s[i], s[i + 1])
}

/// The sequence with the adjacent pair at `i` replaced.
pub open spec fn rewrite_at(x: Seq<StackOperation>, i: int) -> Seq<StackOperation> {
    x.take(i) + replacement(x[i], x[i + 1]) + x.skip(i + 2)
}

/// `y` is `x` with one rule applied to one adjacent pair.
pub open spec fn one_rewrite(x: Seq<StackOperation>, y: Seq<StackOperation>) -> bool {
    exists|i: int| 0 <= i && i + 1 < x.len() && rewrites(x[i], x[i + 1]) && y == rewrite_at(x, i)
}

/// `y` comes from `x` by `n` rule applications.
pub open spec fn derives(x: Seq<StackOperation>, y: Seq<StackOperation>, n: nat) -> bool
    decreases n,
{
    if n == 0 {
        x == y
    } else {
        exists|z: Seq<StackOperation>| derives(x, z, (n - 1) as nat) && one_rewrite(z, y)
    }
}

/// `y` comes from `x` by applying the rules, any number of times.
pub open spec fn rewrites_to(x: Seq<StackOperation>, y: Seq<StackOperation>) -> bool {
    exists|n: nat| derives(x, y, n)
}

/// What the optimizer promises of `out` for the input `ops`: no rule applies
/// anywhere in it, and an input to which none applies comes back unchanged.
pub open spec fn optimized(ops: Seq<StackOperation>, out: Seq<StackOperation>) -> bool {
    &&& normal(out)
    &&& normal(ops) ==> out == ops
}

pub open spec fn is_lvar(o: StackOperation) -> int {
    match o {
        StackOperation::Local(l) => match l.op {
            LocalOperation::LOAD(_) => 1,
            _ => 0,
        },
        _ => 0,
    }
}

pub open spec fn lvars(s: Seq<StackOperation>) -> int
    decreases s.len(),
{
    if s.len() == 0 {
        0
    } else {
        lvars(s.drop_last()) + is_lvar(s.last())
    }
}

proof fn lemma_lvars_nonneg(s: Seq<StackOperation>)
    ensures
        lvars(s) >= 0,
    decreases s.len(),
{
    if s.len() > 0 {
        lemma_lvars_nonneg(s.drop_last());
    }
}

/// The replacement for the pair, last operation first, if a rule applies.
fn rewrite(a: StackOperation, b: StackOperation) -> (r: Option<Vec<StackOperation>>)
    ensures
        r is Some <==> rewrites(a, b),
        r is Some ==> r->0@.reverse() == replacement(a, b),
{
    if let (StackOperation::Local(s), StackOperation::Local(l)) = (a, b) {
        if let (LocalOperation::STORE(ms), LocalOperation::LOAD(ml)) = (s.op, l.op) {
            if ms == ml && s.idx == l.idx {
                let v = vec![a, StackOperation::Manip(ManipStackOp::dup())];
                assert(v@.reverse() =~= replacement(a, b));
                return Some(v);
            }
        }
    }
    if let (StackOperation::Const(c), StackOperation::Alu(x)) = (a, b) {
        if !c.do_add && !x.nx && !x.ny && !x.no && (x.op == AluOperation::ADD || x.op
            == AluOperation::SUB) {
            let val = if x.op == AluOperation::SUB {
                crate::context::wrapping_sub16(0, c.val)
            } else {
                c.val
            };
            let v = vec![StackOperation::Const(ConstStackOp::new(val, true))];
            assert(v@.reverse() =~= replacement(a, b));
            return Some(v);
        }
    }
    if let StackOperation::Manip(m) = b {
        if let ManipStackOperation::Drop(n) = m.op {
            let s = a.signature();
            if s.flags == 0 && s.pushes <= n as usize && (n as usize - s.pushes) + s.takes <= 255 {
                let k = ((n as usize - s.pushes) + s.takes) as u8;
                let v = vec![StackOperation::Manip(ManipStackOp::drop(k))];
                assert(v@.reverse() =~= replacement(a, b));
                return Some(v);
            }
        }
    }
    None
}

#[verifier::rlimit(60)]
/// Runs the peephole rules to a local fixed point: each rule looks at the
/// last two operations kept, and what it produces is looked at again.
pub fn optimize(ops: Vec<StackOperation>) -> (r: Vec<StackOperation>)
    ensures
        optimized(ops@, r@),
        rewrites_to(ops@, r@),
{
    let mut queue: Vec<StackOperation> = Vec::new();
    let mut i: usize = ops.len();
    while i > 0
        invariant
            i <= ops.len(),
            queue@.len() == ops.len() - i,
            forall|k: int| 0 <= k < queue@.len() ==> queue@[k] == ops@[ops.len() - 1 - k],
        decreases i,
    {
        i = i - 1;
        queue.push(ops[i]);
    }
    let mut compiled: Vec<StackOperation> = Vec::new();
    let ghost mut steps: nat = 0;
    proof {
        lemma_lvars_nonneg(queue@);
        lemma_lvars_nonneg(compiled@);
        assert(compiled@ + queue@.reverse() =~= ops@);
    }
    loop
        invariant
            forall|j: int|
                0 <= j && j + 2 < compiled@.len() ==> !#[trigger] rewrites(
                    compiled@[j],
                    compiled@[j + 1],
                ),
            normal(ops@) ==> compiled@.len() + queue@.len() == ops@.len(),
            normal(ops@) ==> compiled@ == ops@.take(compiled@.len() as int),
            normal(ops@) ==> forall|k: int|
                0 <= k < queue@.len() ==> queue@[k] == ops@[ops.len() - 1 - k],
            lvars(queue@) >= 0,
            lvars(compiled@) >= 0,
            derives(ops@, compiled@ + queue@.reverse(), steps),
        ensures
            optimized(ops@, compiled@),
            derives(ops@, compiled@, steps),
        decreases compiled@.len() + queue@.len(), lvars(compiled@) + lvars(queue@), queue@.len(),
    {
        let n = compiled.len();
        let mut found: Option<Vec<StackOperation>> = None;
        if n >= 2 {
            found = rewrite(compiled[n - 2], compiled[n - 1]);
        }
        if let Some(repl) = found {
            let a = compiled[n - 2];
            let b = compiled[n - 1];
            proof {
                if normal(ops@) {
                    assert(compiled@[n - 2] == ops@[n - 2]);
                    assert(compiled@[n - 1] == ops@[n - 1]);
                    assert(!rewrites(ops@[(n - 2) as int], ops@[(n - 2) + 1]));
                }
            }
            let ghost c0 = compiled@;
            let ghost q0 = queue@;
            compiled.pop();
            compiled.pop();
            assert(compiled@ == c0.drop_last().drop_last());
            let mut k: usize = 0;
            while k < repl.len()
                invariant
                    0 <= k <= repl.len(),
                    queue@ == q0 + repl@.take(k as int),
                decreases repl.len() - k,
            {
                queue.push(repl[k]);
                assert(q0 + repl@.take(k + 1) =~= (q0 + repl@.take(k as int)).push(repl@[k as int]));
                k = k + 1;
            }
            proof {
                assert(repl@.take(k as int) =~= repl@);
                let rr = replacement(a, b);
                assert(repl@ =~= rr.reverse()) by {
                    assert(repl@.reverse().reverse() =~= repl@);
                }
                let c1 = c0.drop_last();
                let c2 = c1.drop_last();
                assert(c1.last() == a);
                assert(c0.last() == b);
                assert(lvars(c0) == lvars(c1) + is_lvar(b));
                assert(lvars(c1) == lvars(c2) + is_lvar(a));
                lemma_lvars_nonneg(c2);
                lemma_lvars_nonneg(q0);
                if store_then_load(a, b) {
                    assert(repl@.len() == 2);
                    assert(repl@[0] == a);
                    assert(repl@[1] == StackOperation::Manip(ManipStackOp { op: ManipStackOperation::Dup }));
                    let q1 = q0.push(repl@[0]);
                    assert((q0 + repl@).drop_last() =~= q1);
                    assert(q1.drop_last() =~= q0);
                    assert(lvars(q1) == lvars(q0) + is_lvar(a));
                    assert(lvars(q0 + repl@) == lvars(q1));
                } else {
                    assert(repl@.len() == 1);
                    assert((q0 + repl@).drop_last() =~= q0);
                    lemma_lvars_nonneg(q0 + repl@);
                }
                lemma_lvars_nonneg(queue@);
                lemma_lvars_nonneg(compiled@);
                let cur0 = c0 + q0.reverse();
                let next = compiled@ + queue@.reverse();
                assert(cur0[n - 2] == a);
                assert(cur0[n - 1] == b);
                assert(cur0.take(n - 2) =~= c2);
                assert(cur0.skip(n as int) =~= q0.reverse());
                assert(queue@.reverse() =~= rr + q0.reverse());
                assert(next =~= rewrite_at(cur0, n - 2));
                assert(one_rewrite(cur0, next));
                assert(derives(ops@, next, steps + 1));
                steps = steps + 1;
            }
            continue ;
        }
        assert(n >= 2 ==> !rewrites(compiled@[n - 2], compiled@[(n - 2) + 1]));
        let ghost old_queue = queue@;
        match queue.pop() {
            Some(op) => {
                let ghost c0 = compiled@;
                proof {
                    assert(lvars(old_queue) == lvars(queue@) + is_lvar(op));
                    lemma_lvars_nonneg(queue@);
                    if normal(ops@) {
                        assert(ops@.take(compiled@.len() + 1int) =~= ops@.take(
                            compiled@.len() as int,
                        ).push(op));
                    }
                }
                compiled.push(op);
                proof {
                    assert(old_queue == queue@.push(op));
                    assert(compiled@ + queue@.reverse() =~= c0 + old_queue.reverse());
                    assert(compiled@.drop_last() =~= c0);
                    assert(lvars(compiled@) == lvars(c0) + is_lvar(op));
                    lemma_lvars_nonneg(compiled@);
                }
            },
            None => {
                proof {
                    if normal(ops@) {
                        assert(compiled@ =~= ops@);
                    }
                    assert(compiled@ + queue@.reverse() =~= compiled@);
                    assert forall|j: int| 0 <= j && j + 1 < compiled@.len() implies !#[trigger] rewrites(
                        compiled@[j],
                        compiled@[j + 1],
                    ) by {
                        if j + 2 < compiled@.len() {
                            assert(!rewrites(compiled@[j], compiled@[j + 1]));
                        }
                    }
                }
                break ;
            },
        }
    }
    proof {
        assert(rewrites_to(ops@, compiled@));
    }
    compiled
}

proof fn lemma_normal_no_rewrite(x: Seq<StackOperation>, y: Seq<StackOperation>)
    requires
        normal(x),
    ensures
        !one_rewrite(x, y),
{
    if one_rewrite(x, y) {
        let i = choose|i: int| 0 <= i && i + 1 < x.len() && rewrites(x[i], x[i + 1]) && y == rewrite_at(x, i);
        assert(!rewrites(x[i], x[i + 1]));
    }
}

proof fn lemma_pair_derives(a: StackOperation, b: StackOperation, y: Seq<StackOperation>, n: nat)
    requires
        rewrites(a, b),
        normal(replacement(a, b)),
        derives(seq![a, b], y, n),
    ensures
        y == seq![a, b] || y == replacement(a, b),
    decreases n,
{
    if n > 0 {
        let z = choose|z: Seq<StackOperation>| derives(seq![a, b], z, (n - 1) as nat) && one_rewrite(z, y);
        lemma_pair_derives(a, b, z, (n - 1) as nat);
        if z == replacement(a, b) {
            lemma_normal_no_rewrite(z, y);
        } else {
            let i = choose|i: int| 0 <= i && i + 1 < z.len() && rewrites(z[i], z[i + 1]) && y == rewrite_at(z, i);
            assert(i == 0);
            assert(z.take(0) =~= Seq::<StackOperation>::empty());
            assert(z.skip(2) =~= Seq::<StackOperation>::empty());
            assert(y =~= replacement(a, b));
        }
    }
}

/// An adjacent pair that a rule rewrites, alone, is optimized to the rule's
/// replacement, where no rule applies inside that replacement: a store then a
/// load of the same local becomes a duplicate then the store; a constant then
/// ADD or SUB becomes adding the constant or its negation; a pure operation
/// then a DROP becomes a DROP of the operation's inputs.
pub proof fn lemma_pair_optimized(a: StackOperation, b: StackOperation, out: Seq<StackOperation>)
    requires
        rewrites(a, b),
        normal(replacement(a, b)),
        optimized(seq![a, b], out),
        rewrites_to(seq![a, b], out),
    ensures
        out == replacement(a, b),
{
    let n = choose|n: nat| derives(seq![a, b], out, n);
    lemma_pair_derives(a, b, out, n);
    if out == seq![a, b] {
        assert(!rewrites(out[0int], out[0int + 1]));
    }
}

/// A store to a local followed by a load of it is optimized to a duplicate
/// followed by the store.
pub proof fn lemma_store_load_optimized(s: StackOperation, l: StackOperation, out: Seq<StackOperation>)
    requires
        store_then_load(s, l),
        optimized(seq![s, l], out),
        rewrites_to(seq![s, l], out),
    ensures
        out == seq![StackOperation::Manip(ManipStackOp { op: ManipStackOperation::Dup }), s],
{
    let r = replacement(s, l);
    assert(normal(r)) by {
        assert forall|i: int| 0 <= i && i + 1 < r.len() implies !#[trigger] rewrites(r[i], r[i + 1]) by {
            assert(i == 0);
        }
    }
    lemma_pair_optimized(s, l, out);
}

/// Optimizing twice gives what optimizing once gave: the optimizer's output
/// is left as it is.
pub proof fn lemma_optimize_idempotent(
    ops: Seq<StackOperation>,
    once: Seq<StackOperation>,
    twice: Seq<StackOperation>,
)
    requires
        optimized(ops, once),
        optimized(once, twice),
    ensures
        twice == once,
{
}

} // verus!
