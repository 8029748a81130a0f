use vstd::prelude::*;

use crate::cpu::Instruction;
use crate::error::{string_of, CompileError, ErrorView};

verus! {

/// A named label: its scope, its name, and its address once a pass has reached it.
#[derive(Clone, Debug)]
pub struct LabelEntry {
    pub scope: usize,
    pub name: Vec<char>,
    pub addr: Option<u16>,
}

/// The state of one compile pass: program counter, output so far, the label
/// table (kept from pass to pass), the scope stack and the recompile flag.
pub struct CompileContext {
    pub current_pc: u16,
    pub instructions: Vec<Instruction>,
    pub labels: Vec<LabelEntry>,
    pub scope_stack: Vec<usize>,
    pub label_pos: Vec<u16>,
    pub should_recompile: bool,
}

/// A label entry with its name seen as characters.
pub struct LabelView {
    pub scope: usize,
    pub name: Seq<char>,
    pub addr: Option<u16>,
}

impl View for LabelEntry {
    type V = LabelView;

    open spec fn view(&self) -> LabelView {
        LabelView { scope: self.scope, name: self.name@, addr: self.addr }
    }
}

/// The label table as views.
pub open spec fn table(v: Seq<LabelEntry>) -> Seq<LabelView> {
    v.map_values(|e: LabelEntry| e@)
}

pub open spec fn entry_matches(e: LabelView, scope: usize, name: Seq<char>) -> bool {
    e.scope == scope && e.name == name
}

/// The index of the first entry keyed by `(scope, name)`, or -1.
pub open spec fn index_of(labels: Seq<LabelView>, scope: usize, name: Seq<char>) -> int
    decreases labels.len(),
{
    if labels.len() == 0 {
        -1
    } else {
        let k = index_of(labels.drop_last(), scope, name);
        if k >= 0 {
            k
        } else if entry_matches(labels.last(), scope, name) {
            labels.len() - 1
        } else {
            -1
        }
    }
}

/// The entry that `name` refers to from inside the scopes `scopes`: the
/// innermost scope that holds the name wins.
pub open spec fn lookup_scopes(labels: Seq<LabelView>, scopes: Seq<usize>, name: Seq<char>) -> int
    decreases scopes.len(),
{
    if scopes.len() == 0 {
        -1
    } else {
        let k = index_of(labels, scopes.last(), name);
        if k >= 0 {
            k
        } else {
            lookup_scopes(labels, scopes.drop_last(), name)
        }
    }
}

pub open spec fn active_scope_of(scopes: Seq<usize>) -> usize {
    if scopes.len() == 0 {
        0
    } else {
        scopes.last()
    }
}

/// `a - b` modulo 2^16.
pub open spec fn wsub(a: u16, b: u16) -> u16 {
    if a >= b {
        (a - b) as u16
    } else {
        (a + 0x10000 - b) as u16
    }
}

/// `a + n` modulo 2^16.
pub open spec fn wadd_n(a: u16, n: nat) -> u16 {
    ((a + n % 0x10000) % 0x10000) as u16
}

/// `a + b` modulo 2^16.
pub open spec fn wadd(a: u16, b: u16) -> u16 {
    if a + b < 0x10000 {
        (a + b) as u16
    } else {
        (a + b - 0x10000) as u16
    }
}

pub fn wrapping_sub16(a: u16, b: u16) -> (r: u16)
    ensures
        r == wsub(a, b),
{
    if a >= b {
        a - b
    } else {
        ((a as u32 + 0x10000u32) - b as u32) as u16
    }
}

pub fn wrapping_add16(a: u16, b: u16) -> (r: u16)
    ensures
        r == wadd(a, b),
{
    let s = a as u32 + b as u32;
    if s < 0x10000 {
        s as u16
    } else {
        (s - 0x10000u32) as u16
    }
}

/// The offset from `pc` to the label `name` as seen from the scopes `scopes`.
/// A label declared but not yet reached counts as being at `pc`.
pub open spec fn label_offset_spec(
    labels: Seq<LabelView>,
    scopes: Seq<usize>,
    pc: u16,
    name: Seq<char>,
) -> Result<u16, ErrorView> {
    let k = lookup_scopes(labels, scopes, name);
    if k < 0 {
        Err(ErrorView::UnknownLabel(name))
    } else {
        match labels[k].addr {
            Some(a) => Ok(wsub(a, pc)),
            None => Ok(0),
        }
    }
}

pub proof fn lemma_index_of_bounds(labels: Seq<LabelView>, scope: usize, name: Seq<char>)
    ensures
        -1 <= index_of(labels, scope, name) < labels.len(),
        index_of(labels, scope, name) >= 0 ==> entry_matches(
            labels[index_of(labels, scope, name)],
            scope,
            name,
        ),
        index_of(labels, scope, name) < 0 ==> forall|j: int|
            0 <= j < labels.len() ==> !entry_matches(#[trigger] labels[j], scope, name),
    decreases labels.len(),
{
    if labels.len() > 0 {
        lemma_index_of_bounds(labels.drop_last(), scope, name);
        if index_of(labels, scope, name) < 0 {
            assert forall|j: int| 0 <= j < labels.len() implies !entry_matches(
                #[trigger] labels[j],
                scope,
                name,
            ) by {
                if j < labels.len() - 1 {
                    assert(labels.drop_last()[j] == labels[j]);
                }
            }
        }
    }
}

pub proof fn lemma_lookup_bounds(labels: Seq<LabelView>, scopes: Seq<usize>, name: Seq<char>)
    ensures
        -1 <= lookup_scopes(labels, scopes, name) < labels.len(),
    decreases scopes.len(),
{
    if scopes.len() > 0 {
        lemma_index_of_bounds(labels, scopes.last(), name);
        lemma_lookup_bounds(labels, scopes.drop_last(), name);
    }
}

/// A name resolves only to a label of a scope that is open: a label declared
/// inside a block is invisible once the block's scope is off the stack.
pub proof fn lemma_lookup_in_open_scope(labels: Seq<LabelView>, scopes: Seq<usize>, name: Seq<char>)
    ensures
        lookup_scopes(labels, scopes, name) >= 0 ==> ({
            let k = lookup_scopes(labels, scopes, name);
            &&& k < labels.len()
            &&& scopes.contains(labels[k].scope)
            &&& labels[k].name == name
        }),
    decreases scopes.len(),
{
    if scopes.len() > 0 {
        lemma_index_of_bounds(labels, scopes.last(), name);
        lemma_lookup_in_open_scope(labels, scopes.drop_last(), name);
        let k = lookup_scopes(labels, scopes, name);
        if k >= 0 {
            if index_of(labels, scopes.last(), name) >= 0 {
                assert(scopes[scopes.len() - 1] == scopes.last());
            } else {
                let j = choose|j: int| 0 <= j < scopes.drop_last().len() && scopes.drop_last()[j]
                    == labels[k].scope;
                assert(scopes[j] == labels[k].scope);
            }
        }
    }
}

/// Same-named labels of different scopes are different keys: where every
/// label of that name lies in another scope, the name is free in `scope`.
pub proof fn lemma_other_scopes_do_not_collide(labels: Seq<LabelView>, scope: usize, name: Seq<char>)
    requires
        forall|i: int| 0 <= i < labels.len() && #[trigger] labels[i].name == name ==> labels[i].scope != scope,
    ensures
        index_of(labels, scope, name) == -1,
{
    lemma_index_of_bounds(labels, scope, name);
}

proof fn lemma_index_of_prefix(labels: Seq<LabelView>, scope: usize, name: Seq<char>, j: int)
    requires
        0 <= j <= labels.len(),
        index_of(labels.take(j), scope, name) >= 0,
    ensures
        index_of(labels, scope, name) == index_of(labels.take(j), scope, name),
    decreases labels.len() - j,
{
    if j < labels.len() {
        assert(labels.take(j + 1).drop_last() =~= labels.take(j));
        lemma_index_of_prefix(labels, scope, name, j + 1);
    } else {
        assert(labels.take(j) =~= labels);
    }
}

/// A vector holding the characters of `a`.
pub fn copy_chars(a: &[char]) -> (r: Vec<char>)
    ensures
        r@ == a@,
{
    let mut r: Vec<char> = Vec::new();
    let mut i: usize = 0;
    while i < a.len()
        invariant
            0 <= i <= a.len(),
            r@ == a@.take(i as int),
        decreases a.len() - i,
    {
        r.push(a[i]);
        assert(a@.take(i as int).push(a@[i as int]) =~= a@.take(i + 1));
        i = i + 1;
    }
    assert(a@.take(i as int) =~= a@);
    r
}

/// Whether two character slices hold the same characters.
pub fn chars_eq(a: &[char], b: &[char]) -> (r: bool)
    ensures
        r == (a@ == b@),
{
    if a.len() != b.len() {
        return false;
    }
    let mut i: usize = 0;
    while i < a.len()
        invariant
            a.len() == b.len(),
            0 <= i <= a.len(),
            forall|j: int| 0 <= j < i ==> a@[j] == b@[j],
        decreases a.len() - i,
    {
        if a[i] != b[i] {
            return false;
        }
        i = i + 1;
    }
    assert(a@ =~= b@);
    true
}

/// No two entries share a (scope, name) key.
pub open spec fn keys_unique(t: Seq<LabelView>) -> bool {
    forall|i: int, j: int|
        0 <= i < j < t.len() ==> !(t[i].scope == t[j].scope && t[i].name == t[j].name)
}

proof fn lemma_unique_push(t: Seq<LabelView>, e: LabelView)
    requires
        keys_unique(t),
        index_of(t, e.scope, e.name) < 0,
    ensures
        keys_unique(t.push(e)),
{
    lemma_index_of_bounds(t, e.scope, e.name);
    let u = t.push(e);
    assert forall|i: int, j: int| 0 <= i < j < u.len() implies !(u[i].scope == u[j].scope
        && u[i].name == u[j].name) by {
        if j == t.len() {
            assert(!entry_matches(t[i], e.scope, e.name));
        }
    }
}

proof fn lemma_unique_update(t: Seq<LabelView>, k: int, e: LabelView)
    requires
        keys_unique(t),
        0 <= k < t.len(),
        t[k].scope == e.scope,
        t[k].name == e.name,
    ensures
        keys_unique(t.update(k, e)),
{
}

impl CompileContext {
    /// The label table maps each key to one entry.
    pub open spec fn wf(&self) -> bool {
        keys_unique(table(self.labels@))
    }

    pub open spec fn active_scope(&self) -> usize {
        active_scope_of(self.scope_stack@)
    }

    /// A fresh context: program counter 0, nothing emitted, no labels, outermost scope.
    pub fn new() -> (r: CompileContext)
        ensures
            r.current_pc == 0,
            r.instructions@ == Seq::<Instruction>::empty(),
            r.labels@ == Seq::<LabelEntry>::empty(),
            r.scope_stack@ == seq![0usize],
            r.label_pos@ == Seq::<u16>::empty(),
            !r.should_recompile,
            r.wf(),
    {
        CompileContext {
            current_pc: 0,
            instructions: Vec::new(),
            labels: Vec::new(),
            scope_stack: vec![0],
            label_pos: Vec::new(),
            should_recompile: false,
        }
    }

    /// Starts a pass: program counter 0, no output, outermost scope, flag down.
    /// The label table is kept.
    pub fn reset(&mut self)
        ensures
            final(self).current_pc == 0,
            final(self).instructions@ == Seq::<Instruction>::empty(),
            final(self).labels == old(self).labels,
            final(self).scope_stack@ == seq![0usize],
            final(self).label_pos == old(self).label_pos,
            !final(self).should_recompile,
    {
        self.current_pc = 0;
        self.instructions = Vec::new();
        self.scope_stack = vec![0];
        self.should_recompile = false;
    }

    /// Appends one instruction and advances the program counter.
    pub fn instruct(&mut self, instruction: Instruction)
        ensures
            final(self).instructions@ == old(self).instructions@.push(instruction),
            final(self).current_pc == wadd(old(self).current_pc, 1),
            final(self).labels == old(self).labels,
            final(self).scope_stack == old(self).scope_stack,
            final(self).label_pos == old(self).label_pos,
            final(self).should_recompile == old(self).should_recompile,
    {
        self.instructions.push(instruction);
        self.current_pc = wrapping_add16(self.current_pc, 1);
    }

    /// Appends instructions in order, advancing the program counter by each.
    pub fn instruct_all(&mut self, v: Vec<Instruction>)
        ensures
            final(self).instructions@ == old(self).instructions@ + v@,
            final(self).current_pc == wadd_n(old(self).current_pc, v@.len()),
            final(self).labels == old(self).labels,
            final(self).scope_stack == old(self).scope_stack,
            final(self).label_pos == old(self).label_pos,
            final(self).should_recompile == old(self).should_recompile,
    {
        let mut i: usize = 0;
        while i < v.len()
            invariant
                0 <= i <= v.len(),
                self.instructions@ == old(self).instructions@ + v@.take(i as int),
                self.current_pc == old(self).current_pc,
                self.labels == old(self).labels,
                self.scope_stack == old(self).scope_stack,
                self.label_pos == old(self).label_pos,
                self.should_recompile == old(self).should_recompile,
            decreases v.len() - i,
        {
            self.instructions.push(v[i]);
            assert(v@.take(i as int).push(v@[i as int]) =~= v@.take(i + 1));
            i = i + 1;
        }
        assert(v@.take(i as int) =~= v@);
        self.current_pc = ((self.current_pc as usize + v.len() % 0x10000) % 0x10000) as u16;
    }

    /// Replaces the instruction emitted at `pc`.
    pub fn patch_instruct(&mut self, pc: u16, instruction: Instruction)
        requires
            (pc as int) < old(self).instructions.len(),
        ensures
            final(self).instructions@ == old(self).instructions@.update(pc as int, instruction),
            final(self).current_pc == old(self).current_pc,
            final(self).labels == old(self).labels,
            final(self).scope_stack == old(self).scope_stack,
            final(self).label_pos == old(self).label_pos,
            final(self).should_recompile == old(self).should_recompile,
    {
        self.instructions.set(pc as usize, instruction);
    }

    /// Allocates an anonymous label, first guessed eight words ahead, and asks
    /// for another pass.
    pub fn emit_new_label(&mut self) -> (id: usize)
        requires
            old(self).label_pos.len() < usize::MAX,
        ensures
            id == old(self).label_pos.len(),
            final(self).label_pos@ == old(self).label_pos@.push(wadd(old(self).current_pc, 8)),
            final(self).should_recompile,
            final(self).current_pc == old(self).current_pc,
            final(self).instructions == old(self).instructions,
            final(self).labels == old(self).labels,
            final(self).scope_stack == old(self).scope_stack,
    {
        let id = self.label_pos.len();
        self.label_pos.push(wrapping_add16(self.current_pc, 8));
        self.should_recompile = true;
        id
    }

    /// Places the anonymous label `id` at the current address; a move asks for
    /// another pass.
    pub fn emit_label(&mut self, id: usize) -> (r: Result<(), CompileError>)
        requires
            id < old(self).label_pos.len(),
        ensures
            r is Ok,
            final(self).label_pos@ == old(self).label_pos@.update(id as int, old(self).current_pc),
            final(self).should_recompile == (old(self).should_recompile || old(
                self,
            ).label_pos@[id as int] != old(self).current_pc),
            final(self).current_pc == old(self).current_pc,
            final(self).instructions == old(self).instructions,
            final(self).labels == old(self).labels,
            final(self).scope_stack == old(self).scope_stack,
    {
        let prev_value = self.label_pos[id];
        if prev_value != self.current_pc {
            self.label_pos.set(id, self.current_pc);
            self.should_recompile = true;
        } else {
            assert(self.label_pos@.update(id as int, self.current_pc) =~= self.label_pos@);
        }
        Ok(())
    }

    /// The offset from the current address to the anonymous label `label_id`;
    /// `usize::MAX` stands for eight words ahead.
    pub fn resolve_label(&self, label_id: usize) -> (r: Result<u16, CompileError>)
        requires
            label_id == usize::MAX || label_id < self.label_pos.len(),
        ensures
            label_id == usize::MAX ==> r == Ok::<u16, CompileError>(wadd(self.current_pc, 8)),
            label_id != usize::MAX ==> r == Ok::<u16, CompileError>(
                wsub(self.label_pos@[label_id as int], self.current_pc),
            ),
    {
        if label_id == usize::MAX {
            return Ok(wrapping_add16(self.current_pc, 8));
        }
        Ok(wrapping_sub16(self.label_pos[label_id], self.current_pc))
    }

    /// Opens the block scope `id`.
    pub fn enter_local_scope(&mut self, id: usize)
        ensures
            final(self).scope_stack@ == old(self).scope_stack@.push(id),
            final(self).current_pc == old(self).current_pc,
            final(self).instructions == old(self).instructions,
            final(self).labels == old(self).labels,
            final(self).label_pos == old(self).label_pos,
            final(self).should_recompile == old(self).should_recompile,
    {
        self.scope_stack.push(id);
    }

    /// Closes the innermost scope.
    pub fn leave_local_scope(&mut self)
        ensures
            old(self).scope_stack.len() > 0 ==> final(self).scope_stack@
                == old(self).scope_stack@.drop_last(),
            old(self).scope_stack.len() == 0 ==> final(self).scope_stack@
                == old(self).scope_stack@,
            final(self).current_pc == old(self).current_pc,
            final(self).instructions == old(self).instructions,
            final(self).labels == old(self).labels,
            final(self).label_pos == old(self).label_pos,
            final(self).should_recompile == old(self).should_recompile,
    {
        if self.scope_stack.len() > 0 {
            self.scope_stack.pop();
        }
    }

    /// The scope that labels are declared in: the innermost one, 0 outside all blocks.
    pub fn current_scope(&self) -> (r: usize)
        ensures
            r == self.active_scope(),
    {
        let n = self.scope_stack.len();
        if n == 0 {
            0
        } else {
            self.scope_stack[n - 1]
        }
    }

    /// The index of the entry keyed by `(scope, name)`.
    pub fn find_label(&self, scope: usize, name: &[char]) -> (r: Option<usize>)
        ensures
            r is Some ==> r->0 as int == index_of(table(self.labels@), scope, name@),
            r is None ==> index_of(table(self.labels@), scope, name@) == -1,
    {
        let mut i: usize = 0;
        while i < self.labels.len()
            invariant
                0 <= i <= self.labels.len(),
                index_of(table(self.labels@).take(i as int), scope, name@) == -1,
            decreases self.labels.len() - i,
        {
            let e = &self.labels[i];
            assert(table(self.labels@).take(i + 1).drop_last() =~= table(self.labels@).take(i as int));
            if e.scope == scope && chars_eq(e.name.as_slice(), name) {
                proof {
                    lemma_index_of_prefix(table(self.labels@), scope, name@, i + 1);
                }
                return Some(i);
            }
            i = i + 1;
        }
        assert(table(self.labels@).take(i as int) =~= table(self.labels@));
        None
    }

    /// The entry that `name` refers to from the current scope stack.
    pub fn lookup_label(&self, name: &[char]) -> (r: Option<usize>)
        ensures
            r is Some ==> r->0 as int == lookup_scopes(table(self.labels@), self.scope_stack@, name@),
            r is None ==> lookup_scopes(table(self.labels@), self.scope_stack@, name@) == -1,
    {
        let mut n = self.scope_stack.len();
        assert(self.scope_stack@.take(n as int) =~= self.scope_stack@);
        while n > 0
            invariant
                n <= self.scope_stack.len(),
                lookup_scopes(table(self.labels@), self.scope_stack@, name@) == lookup_scopes(
                    table(self.labels@),
                    self.scope_stack@.take(n as int),
                    name@,
                ),
            decreases n,
        {
            assert(self.scope_stack@.take(n as int).drop_last() =~= self.scope_stack@.take(
                n - 1,
            ));
            if let Some(k) = self.find_label(self.scope_stack[n - 1], name) {
                return Some(k);
            }
            n = n - 1;
        }
        None
    }

    /// The offset from the current address to the label `name`.
    pub fn resolve_named(&self, name: &[char]) -> (r: Result<u16, CompileError>)
        ensures
            res_view16(r) == label_offset_spec(
                table(self.labels@),
                self.scope_stack@,
                self.current_pc,
                name@,
            ),
    {
        proof {
            lemma_lookup_bounds(table(self.labels@), self.scope_stack@, name@);
        }
        match self.lookup_label(name) {
            None => Err(CompileError::UnknownLabel(string_of(name))),
            Some(k) => match self.labels[k].addr {
                Some(a) => Ok(wrapping_sub16(a, self.current_pc)),
                None => Ok(0),
            },
        }
    }

    /// Records `name` in the current scope before any pass; a second record of
    /// the same key is `LabelRedefined`.
    pub fn declare_label(&mut self, name: &[char]) -> (r: Result<(), CompileError>)
        ensures
            old(self).wf() ==> final(self).wf(),
            index_of(table(old(self).labels@), old(self).active_scope(), name@) >= 0 ==> (r is Err
                && r->Err_0@ == ErrorView::LabelRedefined(name@) && final(self).labels
                == old(self).labels),
            index_of(table(old(self).labels@), old(self).active_scope(), name@) < 0 ==> (r is Ok
                && table(final(self).labels@) == table(old(self).labels@).push(
                LabelView { scope: old(self).active_scope(), name: name@, addr: None },
            )),
            final(self).current_pc == old(self).current_pc,
            final(self).instructions == old(self).instructions,
            final(self).scope_stack == old(self).scope_stack,
            final(self).label_pos == old(self).label_pos,
            final(self).should_recompile == old(self).should_recompile,
    {
        let scope = self.current_scope();
        match self.find_label(scope, name) {
            Some(_) => Err(CompileError::LabelRedefined(string_of(name))),
            None => {
                self.labels.push(LabelEntry { scope, name: copy_chars(name), addr: None });
                assert(table(self.labels@) =~= table(old(self).labels@).push(
                    LabelView { scope, name: name@, addr: None },
                ));
                proof {
                    if old(self).wf() {
                        lemma_unique_push(
                            table(old(self).labels@),
                            LabelView { scope, name: name@, addr: None },
                        );
                    }
                }
                Ok(())
            },
        }
    }

    /// Places the label `name` of the current scope at the current address.
    /// A new entry, or one whose address moves, asks for another pass.
    pub fn emit_named_label(&mut self, name: &[char])
        ensures
            old(self).wf() ==> final(self).wf(),
            table(final(self).labels@) == emit_named_spec(
                table(old(self).labels@),
                old(self).active_scope(),
                name@,
                old(self).current_pc,
            ),
            final(self).should_recompile == (old(self).should_recompile || emit_named_changes(
                table(old(self).labels@),
                old(self).active_scope(),
                name@,
                old(self).current_pc,
            )),
            final(self).current_pc == old(self).current_pc,
            final(self).instructions == old(self).instructions,
            final(self).scope_stack == old(self).scope_stack,
            final(self).label_pos == old(self).label_pos,
    {
        let scope = self.current_scope();
        let pc = self.current_pc;
        proof {
            lemma_index_of_bounds(table(self.labels@), scope, name@);
        }
        match self.find_label(scope, name) {
            Some(k) => {
                if self.labels[k].addr != Some(pc) {
                    let e = LabelEntry { scope, name: copy_chars(name), addr: Some(pc) };
                    self.labels.set(k, e);
                    self.should_recompile = true;
                    assert(table(self.labels@) =~= table(old(self).labels@).update(
                        k as int,
                        LabelView { scope, name: name@, addr: Some(pc) },
                    ));
                    proof {
                        if old(self).wf() {
                            lemma_unique_update(
                                table(old(self).labels@),
                                k as int,
                                LabelView { scope, name: name@, addr: Some(pc) },
                            );
                        }
                    }
                }
            },
            None => {
                self.labels.push(LabelEntry { scope, name: copy_chars(name), addr: Some(pc) });
                self.should_recompile = true;
                assert(table(self.labels@) =~= table(old(self).labels@).push(
                    LabelView { scope, name: name@, addr: Some(pc) },
                ));
                proof {
                    if old(self).wf() {
                        lemma_unique_push(
                            table(old(self).labels@),
                            LabelView { scope, name: name@, addr: Some(pc) },
                        );
                    }
                }
            },
        }
    }
}

/// What a macro-instruction may read while compiling: the label table, the
/// scope stack and the current address.
pub struct Env {
    pub labels: Seq<LabelView>,
    pub scopes: Seq<usize>,
    pub pc: u16,
}

impl CompileContext {
    pub open spec fn env(&self) -> Env {
        Env { labels: table(self.labels@), scopes: self.scope_stack@, pc: self.current_pc }
    }
}

pub open spec fn res_view16(r: Result<u16, CompileError>) -> Result<u16, ErrorView> {
    match r {
        Ok(v) => Ok(v),
        Err(e) => Err(e@),
    }
}

/// Whether placing `name` at `pc` changes the table.
pub open spec fn emit_named_changes(
    labels: Seq<LabelView>,
    scope: usize,
    name: Seq<char>,
    pc: u16,
) -> bool {
    let k = index_of(labels, scope, name);
    k < 0 || labels[k].addr != Some(pc)
}

/// The table after placing `name` of `scope` at `pc`.
pub open spec fn emit_named_spec(
    labels: Seq<LabelView>,
    scope: usize,
    name: Seq<char>,
    pc: u16,
) -> Seq<LabelView> {
    let k = index_of(labels, scope, name);
    if k < 0 {
        labels.push(LabelView { scope, name, addr: Some(pc) })
    } else if labels[k].addr == Some(pc) {
        labels
    } else {
        labels.update(k, LabelView { scope, name, addr: Some(pc) })
    }
}

} // verus!
