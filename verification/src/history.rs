//! Reversible document transactions for editor commands.
//!
//! The history decides what is undone, redone, merged or discarded; the
//! caller applies the transactions it hands back to the drawing, in order.

use vstd::prelude::*;

verus! {

/// One reversible mutation of an entity container or block definition.
/// `S` is the entity space, `E` an entity and `D` a block definition.
#[derive(Debug, Clone)]
pub enum Edit<S, E, D> {
    InsertEntity { space: S, index: usize, entity: E },
    RemoveEntity { space: S, index: usize, entity: E },
    ReplaceEntity { space: S, index: usize, before: E, after: E },
    ReplaceBlockDefinition { name: String, before: Option<D>, after: Option<D> },
    RenameBlock { before: String, after: String },
}

/// The edit that undoes `edit`.
pub open spec fn edit_inverse<S, E, D>(edit: Edit<S, E, D>) -> Edit<S, E, D> {
    match edit {
        Edit::InsertEntity { space, index, entity } => Edit::RemoveEntity { space, index, entity },
        Edit::RemoveEntity { space, index, entity } => Edit::InsertEntity { space, index, entity },
        Edit::ReplaceEntity { space, index, before, after } => Edit::ReplaceEntity {
            space,
            index,
            before: after,
            after: before,
        },
        Edit::ReplaceBlockDefinition { name, before, after } => Edit::ReplaceBlockDefinition {
            name,
            before: after,
            after: before,
        },
        Edit::RenameBlock { before, after } => Edit::RenameBlock { before: after, after: before },
    }
}

/// Whether an edit renames a block definition.
pub open spec fn edit_is_rename<S, E, D>(edit: Edit<S, E, D>) -> bool {
    edit is RenameBlock
}

/// The edits that undo a transaction: each edit inverted, in reverse order.
pub open spec fn edits_inverse<S, E, D>(edits: Seq<Edit<S, E, D>>) -> Seq<Edit<S, E, D>> {
    Seq::new(edits.len(), |i: int| edit_inverse(edits[edits.len() - 1 - i]))
}

/// A transaction made only of block renames (and at least one).
pub open spec fn is_rename_only_edits<S, E, D>(edits: Seq<Edit<S, E, D>>) -> bool {
    edits.len() > 0 && forall|i: int| 0 <= i < edits.len() ==> edit_is_rename(#[trigger] edits[i])
}

pub open spec fn option_cloned<T: Clone>(a: Option<T>, b: Option<T>) -> bool {
    match (a, b) {
        (None, None) => true,
        (Some(x), Some(y)) => cloned(x, y),
        _ => false,
    }
}

/// `copy` is a clone of `edit`: same variant, equal indices and names, and
/// every payload a clone of the original payload.
pub open spec fn edit_cloned<S: Clone, E: Clone, D: Clone>(
    edit: Edit<S, E, D>,
    copy: Edit<S, E, D>,
) -> bool {
    match (edit, copy) {
        (
            Edit::InsertEntity { space: s0, index: i0, entity: e0 },
            Edit::InsertEntity { space: s1, index: i1, entity: e1 },
        ) => cloned(s0, s1) && i0 == i1 && cloned(e0, e1),
        (
            Edit::RemoveEntity { space: s0, index: i0, entity: e0 },
            Edit::RemoveEntity { space: s1, index: i1, entity: e1 },
        ) => cloned(s0, s1) && i0 == i1 && cloned(e0, e1),
        (
            Edit::ReplaceEntity { space: s0, index: i0, before: b0, after: a0 },
            Edit::ReplaceEntity { space: s1, index: i1, before: b1, after: a1 },
        ) => cloned(s0, s1) && i0 == i1 && cloned(b0, b1) && cloned(a0, a1),
        (
            Edit::ReplaceBlockDefinition { name: n0, before: b0, after: a0 },
            Edit::ReplaceBlockDefinition { name: n1, before: b1, after: a1 },
        ) => n0 == n1 && option_cloned(b0, b1) && option_cloned(a0, a1),
        (
            Edit::RenameBlock { before: b0, after: a0 },
            Edit::RenameBlock { before: b1, after: a1 },
        ) => b0 == b1 && a0 == a1,
        _ => false,
    }
}

/// `copy` is an edit-by-edit clone of `edits`.
pub open spec fn edits_cloned<S: Clone, E: Clone, D: Clone>(
    edits: Seq<Edit<S, E, D>>,
    copy: Seq<Edit<S, E, D>>,
) -> bool {
    &&& edits.len() == copy.len()
    &&& forall|i: int| 0 <= i < edits.len() ==> edit_cloned(#[trigger] edits[i], copy[i])
}

impl<S: Clone, E: Clone, D: Clone> Edit<S, E, D> {
    /// The edit that reverses this one.
    pub fn invert(&self) -> (inverse: Self)
        ensures
            edit_cloned(edit_inverse(*self), inverse),
    {
        match self {
            Edit::InsertEntity { space, index, entity } => Edit::RemoveEntity {
                space: space.clone(),
                index: *index,
                entity: entity.clone(),
            },
            Edit::RemoveEntity { space, index, entity } => Edit::InsertEntity {
                space: space.clone(),
                index: *index,
                entity: entity.clone(),
            },
            Edit::ReplaceEntity { space, index, before, after } => Edit::ReplaceEntity {
                space: space.clone(),
                index: *index,
                before: after.clone(),
                after: before.clone(),
            },
            Edit::ReplaceBlockDefinition { name, before, after } => Edit::ReplaceBlockDefinition {
                name: name.clone(),
                before: after.clone(),
                after: before.clone(),
            },
            Edit::RenameBlock { before, after } => Edit::RenameBlock {
                before: after.clone(),
                after: before.clone(),
            },
        }
    }

    /// A copy of this edit.
    pub(crate) fn duplicate(&self) -> (copy: Self)
        ensures
            edit_cloned(*self, copy),
    {
        match self {
            Edit::InsertEntity { space, index, entity } => Edit::InsertEntity {
                space: space.clone(),
                index: *index,
                entity: entity.clone(),
            },
            Edit::RemoveEntity { space, index, entity } => Edit::RemoveEntity {
                space: space.clone(),
                index: *index,
                entity: entity.clone(),
            },
            Edit::ReplaceEntity { space, index, before, after } => Edit::ReplaceEntity {
                space: space.clone(),
                index: *index,
                before: before.clone(),
                after: after.clone(),
            },
            Edit::ReplaceBlockDefinition { name, before, after } => Edit::ReplaceBlockDefinition {
                name: name.clone(),
                before: before.clone(),
                after: after.clone(),
            },
            Edit::RenameBlock { before, after } => Edit::RenameBlock {
                before: before.clone(),
                after: after.clone(),
            },
        }
    }

    pub fn is_rename(&self) -> (rename: bool)
        ensures
            rename == edit_is_rename(*self),
    {
        match self {
            Edit::RenameBlock { .. } => true,
            _ => false,
        }
    }
}

/// Inverting an edit twice gives the edit back.
pub proof fn lemma_edit_inverse_involution<S, E, D>(edit: Edit<S, E, D>)
    ensures
        edit_inverse(edit_inverse(edit)) == edit,
{
}

/// Inverting a transaction twice gives the transaction back.
pub proof fn lemma_edits_inverse_involution<S, E, D>(edits: Seq<Edit<S, E, D>>)
    ensures
        edits_inverse(edits_inverse(edits)) == edits,
{
    let twice = edits_inverse(edits_inverse(edits));
    assert forall|i: int| 0 <= i < edits.len() implies twice[i] == edits[i] by {
        lemma_edit_inverse_involution(edits[i]);
    }
    assert(twice =~= edits);
}


/// One undoable command, possibly spanning several edits.
#[derive(Debug, Clone)]
pub struct Transaction<S, E, D> {
    pub edits: Vec<Edit<S, E, D>>,
}

impl<S, E, D> View for Transaction<S, E, D> {
    type V = Seq<Edit<S, E, D>>;

    open spec fn view(&self) -> Seq<Edit<S, E, D>> {
        self.edits@
    }
}

/// The edits of each transaction, in order.
pub open spec fn transactions_view<S, E, D>(transactions: Seq<Transaction<S, E, D>>) -> Seq<
    Seq<Edit<S, E, D>>,
> {
    transactions.map_values(|t: Transaction<S, E, D>| t.edits@)
}

/// Every block rename of a sequence of edits, as (before, after) name pairs.
pub open spec fn rename_pairs<S, E, D>(edits: Seq<Edit<S, E, D>>) -> Seq<(Seq<char>, Seq<char>)>
    decreases edits.len(),
{
    if edits.len() == 0 {
        seq![]
    } else {
        let rest = rename_pairs(edits.drop_last());
        match edits.last() {
            Edit::RenameBlock { before, after } => rest.push((before@, after@)),
            _ => rest,
        }
    }
}

/// Moves the elements of `v` into a vector of the reverse order.
fn reversed<T>(v: Vec<T>) -> (r: Vec<T>)
    ensures
        r@ == v@.reverse(),
{
    let mut v = v;
    let ghost orig = v@;
    let mut r: Vec<T> = Vec::new();
    while v.len() > 0
        invariant
            v@.len() <= orig.len(),
            v@ == orig.subrange(0, v@.len() as int),
            r@.len() == orig.len() - v@.len(),
            forall|k: int| 0 <= k < r@.len() ==> #[trigger] r@[k] == orig[orig.len() - 1 - k],
        decreases v.len(),
    {
        let x = v.pop().unwrap();
        r.push(x);
    }
    assert(r@ =~= orig.reverse());
    r
}

impl<S: Clone, E: Clone, D: Clone> Transaction<S, E, D> {
    pub fn is_empty(&self) -> (empty: bool)
        ensures
            empty <==> self@.len() == 0,
    {
        self.edits.len() == 0
    }

    /// A non-empty transaction made only of block renames.
    pub fn is_rename_only(&self) -> (rename_only: bool)
        ensures
            rename_only == is_rename_only_edits(self@),
    {
        if self.edits.len() == 0 {
            return false;
        }
        let mut i: usize = 0;
        while i < self.edits.len()
            invariant
                i <= self.edits@.len(),
                forall|k: int| 0 <= k < i ==> edit_is_rename(#[trigger] self.edits@[k]),
            decreases self.edits@.len() - i,
        {
            if !self.edits[i].is_rename() {
                return false;
            }
            i = i + 1;
        }
        true
    }

    /// The (before, after) names of every block rename, in order.
    pub fn rename_edits(&self) -> (pairs: Vec<(String, String)>)
        ensures
            pairs@.len() == rename_pairs(self@).len(),
            forall|k: int|
                0 <= k < pairs@.len() ==> (#[trigger] pairs@[k]).0@ == rename_pairs(self@)[k].0
                    && pairs@[k].1@ == rename_pairs(self@)[k].1,
    {
        let mut pairs: Vec<(String, String)> = Vec::new();
        let mut i: usize = 0;
        while i < self.edits.len()
            invariant
                i <= self.edits@.len(),
                pairs@.len() == rename_pairs(self.edits@.take(i as int)).len(),
                forall|k: int|
                    0 <= k < pairs@.len() ==> (#[trigger] pairs@[k]).0@ == rename_pairs(
                        self.edits@.take(i as int),
                    )[k].0 && pairs@[k].1@ == rename_pairs(self.edits@.take(i as int))[k].1,
            decreases self.edits@.len() - i,
        {
            assert(self.edits@.take(i + 1).drop_last() =~= self.edits@.take(i as int));
            match &self.edits[i] {
                Edit::RenameBlock { before, after } => {
                    pairs.push((before.clone(), after.clone()));
                },
                _ => {},
            }
            i = i + 1;
        }
        assert(self.edits@.take(self.edits@.len() as int) =~= self.edits@);
        pairs
    }

    /// The transaction that undoes this one: every edit inverted, last first.
    pub fn invert(&self) -> (inverse: Self)
        ensures
            edits_cloned(edits_inverse(self@), inverse@),
    {
        let mut edits: Vec<Edit<S, E, D>> = Vec::new();
        let n = self.edits.len();
        let mut i: usize = 0;
        while i < n
            invariant
                n == self.edits@.len(),
                i <= n,
                edits@.len() == i,
                forall|k: int|
                    0 <= k < i ==> edit_cloned(
                        edit_inverse(self.edits@[n - 1 - k]),
                        #[trigger] edits@[k],
                    ),
            decreases n - i,
        {
            edits.push(self.edits[n - 1 - i].invert());
            i = i + 1;
        }
        Transaction { edits }
    }

    /// A copy of this transaction.
    pub(crate) fn duplicate(&self) -> (copy: Self)
        ensures
            edits_cloned(self@, copy@),
    {
        let mut edits: Vec<Edit<S, E, D>> = Vec::new();
        let mut i: usize = 0;
        while i < self.edits.len()
            invariant
                i <= self.edits@.len(),
                edits@.len() == i,
                forall|k: int| 0 <= k < i ==> edit_cloned(self.edits@[k], #[trigger] edits@[k]),
            decreases self.edits@.len() - i,
        {
            edits.push(self.edits[i].duplicate());
            i = i + 1;
        }
        Transaction { edits }
    }
}


/// Abstract state of a history: the undo and redo stacks (each transaction
/// as its edits), the transaction being recorded, and the revision counters.
pub struct HistoryState<S, E, D> {
    pub undo: Seq<Seq<Edit<S, E, D>>>,
    pub redo: Seq<Seq<Edit<S, E, D>>>,
    pub open: Option<Seq<Edit<S, E, D>>>,
    pub revision: u64,
    pub clean_revision: u64,
}

/// `rev` moved by `delta` steps, wrapping around like the counter does.
pub open spec fn rev_shift(rev: u64, delta: int) -> u64 {
    ((rev as int + delta) % 0x1_0000_0000_0000_0000) as u64
}

pub proof fn lemma_rev_shift(rev: u64, delta: int, step: int)
    ensures
        rev_shift(rev, 0) == rev,
        rev_shift(rev_shift(rev, delta), step) == rev_shift(rev, delta + step),
        vstd::wrapping::u64_specs::wrapping_add(rev_shift(rev, delta), 1) == rev_shift(
            rev,
            delta + 1,
        ),
        vstd::wrapping::u64_specs::wrapping_sub(rev_shift(rev, delta), 1) == rev_shift(
            rev,
            delta - 1,
        ),
        0 <= -step < 0x1_0000_0000_0000_0000 ==> vstd::wrapping::u64_specs::wrapping_sub(
            rev_shift(rev, delta),
            (-step) as u64,
        ) == rev_shift(rev, delta + step),
{
    let m: int = 0x1_0000_0000_0000_0000;
    assert(rev_shift(rev, 0) == rev) by {
        assert((rev as int) % m == rev as int);
    }
    let a = (rev as int + delta) % m;
    assert(0 <= a < m);
    assert((a + step) % m == (rev as int + delta + step) % m) by {
        vstd::arithmetic::div_mod::lemma_add_mod_noop(rev as int + delta, step, m);
        vstd::arithmetic::div_mod::lemma_small_mod(a as nat, m as nat);
        vstd::arithmetic::div_mod::lemma_add_mod_noop(a, step, m);
        vstd::arithmetic::div_mod::lemma_mod_twice(rev as int + delta, m);
    }
}

/// The history after the transaction being recorded is closed: a non-empty
/// one becomes the newest undo step and drops the redo stack.
pub open spec fn commit_state<S, E, D>(h: HistoryState<S, E, D>) -> HistoryState<S, E, D> {
    match h.open {
        Some(t) if t.len() > 0 => HistoryState {
            undo: h.undo.push(t),
            redo: seq![],
            open: None,
            revision: rev_shift(h.revision, 1),
            clean_revision: h.clean_revision,
        },
        _ => HistoryState { open: None, ..h },
    }
}

/// The history after one undo: the newest undo step moves to the redo stack.
pub open spec fn undo_state<S, E, D>(h: HistoryState<S, E, D>) -> HistoryState<S, E, D> {
    let c = commit_state(h);
    if c.undo.len() == 0 {
        c
    } else {
        HistoryState {
            undo: c.undo.drop_last(),
            redo: c.redo.push(c.undo.last()),
            revision: rev_shift(c.revision, -1),
            ..c
        }
    }
}

/// The history after one redo: the newest redo step moves back to the undo stack.
pub open spec fn redo_state<S, E, D>(h: HistoryState<S, E, D>) -> HistoryState<S, E, D> {
    let c = commit_state(h);
    if c.redo.len() == 0 {
        c
    } else {
        HistoryState {
            undo: c.undo.push(c.redo.last()),
            redo: c.redo.drop_last(),
            revision: rev_shift(c.revision, 1),
            ..c
        }
    }
}

/// The history after recording one edit.
pub open spec fn record_state<S, E, D>(h: HistoryState<S, E, D>, edit: Edit<S, E, D>) -> HistoryState<
    S,
    E,
    D,
> {
    match h.open {
        Some(t) => HistoryState { open: Some(t.push(edit)), ..h },
        None => commit_state(HistoryState { open: Some(seq![edit]), ..h }),
    }
}

/// The transactions that `since` cuts off the top of the undo stack.
pub open spec fn steps_since<S, E, D>(h: HistoryState<S, E, D>, since: int) -> Seq<
    Seq<Edit<S, E, D>>,
> {
    h.undo.subrange(since, h.undo.len() as int)
}

/// Selects block renames.
pub open spec fn rename_pred<S, E, D>() -> spec_fn(Edit<S, E, D>) -> bool {
    |e: Edit<S, E, D>| edit_is_rename(e)
}

/// Selects every edit that is not a block rename.
pub open spec fn other_pred<S, E, D>() -> spec_fn(Edit<S, E, D>) -> bool {
    |e: Edit<S, E, D>| !edit_is_rename(e)
}

/// Selects rename-only transactions.
pub open spec fn rename_only_pred<S, E, D>() -> spec_fn(Seq<Edit<S, E, D>>) -> bool {
    |t: Seq<Edit<S, E, D>>| is_rename_only_edits(t)
}

/// The undo steps that replace the steps since `since` when they are merged:
/// each block rename on its own, then every other edit in one step.
pub open spec fn collapsed_steps<S, E, D>(rest: Seq<Seq<Edit<S, E, D>>>) -> Seq<
    Seq<Edit<S, E, D>>,
> {
    let flat = rest.flatten();
    let renames = flat.filter(rename_pred());
    let others = flat.filter(other_pred());
    renames.map_values(|e: Edit<S, E, D>| seq![e]) + if others.len() > 0 {
        seq![others]
    } else {
        seq![]
    }
}

/// The history after the steps since `since` are merged into one.
pub open spec fn collapse_state<S, E, D>(h: HistoryState<S, E, D>, since: int) -> HistoryState<
    S,
    E,
    D,
> {
    let c = commit_state(h);
    if c.undo.len() <= since {
        c
    } else {
        let rest = steps_since(c, since);
        let added = collapsed_steps(rest);
        HistoryState {
            undo: c.undo.subrange(0, since) + added,
            redo: seq![],
            open: None,
            revision: rev_shift(c.revision, added.len() - rest.len()),
            clean_revision: c.clean_revision,
        }
    }
}

/// The undo steps since `since` that survive a discard: the rename-only ones.
pub open spec fn kept_renames<S, E, D>(rest: Seq<Seq<Edit<S, E, D>>>) -> Seq<Seq<Edit<S, E, D>>> {
    rest.filter(rename_only_pred())
}

/// What a discard applies to the drawing, in order: the inverse of every
/// step since `since`, newest first, then the kept renames again, oldest first.
pub open spec fn discard_plan<S, E, D>(rest: Seq<Seq<Edit<S, E, D>>>) -> Seq<Seq<Edit<S, E, D>>> {
    rest.reverse().map_values(|t: Seq<Edit<S, E, D>>| edits_inverse(t)) + kept_renames(rest)
}

/// The history after the steps since `since` are discarded.
pub open spec fn discard_state<S, E, D>(h: HistoryState<S, E, D>, since: int) -> HistoryState<
    S,
    E,
    D,
> {
    let c = commit_state(h);
    if c.undo.len() <= since {
        HistoryState { redo: seq![], ..c }
    } else {
        let rest = steps_since(c, since);
        let kept = kept_renames(rest);
        HistoryState {
            undo: c.undo.subrange(0, since) + kept,
            redo: seq![],
            open: None,
            revision: rev_shift(c.revision, kept.len() - rest.len()),
            clean_revision: c.clean_revision,
        }
    }
}

/// Undo/redo stack with a clean revision for dirty tracking.
pub struct History<S, E, D> {
    undo: Vec<Transaction<S, E, D>>,
    redo: Vec<Transaction<S, E, D>>,
    open: Option<Transaction<S, E, D>>,
    revision: u64,
    clean_revision: u64,
}

impl<S, E, D> View for History<S, E, D> {
    type V = HistoryState<S, E, D>;

    closed spec fn view(&self) -> HistoryState<S, E, D> {
        HistoryState {
            undo: transactions_view(self.undo@),
            redo: transactions_view(self.redo@),
            open: match self.open {
                Some(t) => Some(t.edits@),
                None => None,
            },
            revision: self.revision,
            clean_revision: self.clean_revision,
        }
    }
}


impl<S: Clone, E: Clone, D: Clone> Default for History<S, E, D> {
    fn default() -> (history: Self)
        ensures
            history@.undo.len() == 0,
            history@.redo.len() == 0,
            history@.open is None,
            history@.revision == 0,
            history@.clean_revision == 0,
            steps_hold_edits(history@),
    {
        History::new()
    }
}

impl<S: Clone, E: Clone, D: Clone> History<S, E, D> {
    /// An empty, clean history.
    pub fn new() -> (history: Self)
        ensures
            history@.undo.len() == 0,
            history@.redo.len() == 0,
            history@.open is None,
            history@.revision == 0,
            history@.clean_revision == 0,
            steps_hold_edits(history@),
    {
        let history = History {
            undo: Vec::new(),
            redo: Vec::new(),
            open: None,
            revision: 0,
            clean_revision: 0,
        };
        assert(history@.undo =~= seq![]);
        assert(history@.redo =~= seq![]);
        history
    }

    /// The drawing differs from the last saved or loaded state.
    pub fn is_dirty(&self) -> (dirty: bool)
        ensures
            dirty <==> self@.revision != self@.clean_revision,
    {
        self.revision != self.clean_revision
    }

    pub fn can_undo(&self) -> (can: bool)
        ensures
            can <==> self@.undo.len() > 0,
    {
        self.undo.len() > 0
    }

    pub fn can_redo(&self) -> (can: bool)
        ensures
            can <==> self@.redo.len() > 0,
    {
        self.redo.len() > 0
    }

    pub fn undo_len(&self) -> (len: usize)
        ensures
            len == self@.undo.len(),
    {
        self.undo.len()
    }

    /// The newest undo step.
    pub fn peek_undo(&self) -> (top: Option<&Transaction<S, E, D>>)
        ensures
            top is None <==> self@.undo.len() == 0,
            top matches Some(t) ==> t@ == self@.undo.last(),
    {
        if self.undo.len() == 0 {
            None
        } else {
            Some(&self.undo[self.undo.len() - 1])
        }
    }

    /// The newest redo step.
    pub fn peek_redo(&self) -> (top: Option<&Transaction<S, E, D>>)
        ensures
            top is None <==> self@.redo.len() == 0,
            top matches Some(t) ==> t@ == self@.redo.last(),
    {
        if self.redo.len() == 0 {
            None
        } else {
            Some(&self.redo[self.redo.len() - 1])
        }
    }

    /// Records the current revision as the saved one.
    pub fn mark_clean(&mut self)
        ensures
            final(self)@ == (HistoryState { clean_revision: old(self)@.revision, ..old(self)@ }),
            steps_hold_edits(old(self)@) ==> steps_hold_edits(final(self)@),
    {
        self.clean_revision = self.revision;
    }

    /// Forgets every step; the history is clean at revision 0.
    pub fn clear(&mut self)
        ensures
            final(self)@.undo.len() == 0,
            final(self)@.redo.len() == 0,
            final(self)@.open is None,
            final(self)@.revision == 0,
            final(self)@.clean_revision == 0,
            steps_hold_edits(old(self)@) ==> steps_hold_edits(final(self)@),
    {
        self.undo.clear();
        self.redo.clear();
        self.open = None;
        self.revision = 0;
        self.mark_clean();
        assert(self@.undo =~= seq![]);
        assert(self@.redo =~= seq![]);
    }

    /// Closes the transaction being recorded; a non-empty one becomes an undo step.
    pub fn commit_open(&mut self)
        ensures
            final(self)@ == commit_state(old(self)@),
            steps_hold_edits(old(self)@) ==> steps_hold_edits(final(self)@),
    {
        let ghost h = self@;
        if let Some(open) = self.open.take() {
            if !open.is_empty() {
                let ghost t = open@;
                self.undo.push(open);
                self.redo.clear();
                proof {
                    lemma_rev_shift(h.revision, 0, 1);
                }
                self.revision = self.revision.wrapping_add(1);
                assert(self@.undo =~= h.undo.push(t));
                assert(self@.redo =~= seq![]);
            }
        }
    }

    /// Starts a transaction; a pending one is committed first.
    pub fn begin(&mut self)
        ensures
            final(self)@ == (HistoryState {
                open: Some(seq![]),
                ..commit_state(old(self)@)
            }),
            steps_hold_edits(old(self)@) ==> steps_hold_edits(final(self)@),
    {
        self.commit_open();
        self.open = Some(Transaction { edits: Vec::new() });
        assert(self@.open.unwrap() =~= seq![]);
    }

    /// Adds an edit to the open transaction, or commits it as a step of its own.
    pub fn record(&mut self, edit: Edit<S, E, D>)
        ensures
            final(self)@ == record_state(old(self)@, edit),
            steps_hold_edits(old(self)@) ==> steps_hold_edits(final(self)@),
    {
        let ghost h = self@;
        match self.open.take() {
            Some(mut open) => {
                let ghost t = open@;
                open.edits.push(edit);
                self.open = Some(open);
                assert(self@.open == Some(t.push(edit)));
            },
            None => {
                let mut edits = Vec::new();
                edits.push(edit);
                self.open = Some(Transaction { edits });
                assert(self@.open.unwrap() =~= seq![edit]);
                assert(self@ == (HistoryState { open: Some(seq![edit]), ..h }));
                self.commit_open();
            },
        }
    }

    /// Takes back the newest edit of the transaction being recorded.
    pub fn pop_last_open_edit(&mut self) -> (edit: Option<Edit<S, E, D>>)
        ensures
            old(self)@.open is Some && old(self)@.open.unwrap().len() > 0 ==> {
                &&& edit == Some(old(self)@.open.unwrap().last())
                &&& final(self)@ == (HistoryState {
                    open: Some(old(self)@.open.unwrap().drop_last()),
                    ..old(self)@
                })
            },
            !(old(self)@.open is Some && old(self)@.open.unwrap().len() > 0) ==> edit is None
                && final(self)@ == old(self)@,
            steps_hold_edits(old(self)@) ==> steps_hold_edits(final(self)@),
    {
        match self.open.take() {
            Some(mut open) => {
                let edit = open.edits.pop();
                self.open = Some(open);
                edit
            },
            None => None,
        }
    }

    /// Undoes the newest step. Returns the transaction to apply to the
    /// drawing (the step's inverse), or `None` when there is nothing to undo.
    pub fn undo(&mut self) -> (apply: Option<Transaction<S, E, D>>)
        ensures
            final(self)@ == undo_state(old(self)@),
            apply is None <==> commit_state(old(self)@).undo.len() == 0,
            apply matches Some(t) ==> edits_cloned(
                edits_inverse(commit_state(old(self)@).undo.last()),
                t@,
            ),
            steps_hold_edits(old(self)@) ==> steps_hold_edits(final(self)@),
    {
        self.commit_open();
        let ghost c = self@;
        match self.undo.pop() {
            None => None,
            Some(transaction) => {
                let inverse = transaction.invert();
                self.redo.push(transaction);
                proof {
                    lemma_rev_shift(c.revision, 0, -1);
                }
                self.revision = self.revision.wrapping_sub(1);
                assert(self@.undo =~= c.undo.drop_last());
                assert(self@.redo =~= c.redo.push(c.undo.last()));
                Some(inverse)
            },
        }
    }

    /// Undoes the newest step only while more than `min_len` steps remain.
    pub fn undo_beyond(&mut self, min_len: usize) -> (apply: Option<Transaction<S, E, D>>)
        ensures
            old(self)@.undo.len() <= min_len ==> final(self)@ == old(self)@ && apply is None,
            old(self)@.undo.len() > min_len ==> {
                &&& final(self)@ == undo_state(old(self)@)
                &&& apply is Some
                &&& edits_cloned(
                    edits_inverse(commit_state(old(self)@).undo.last()),
                    apply.unwrap()@,
                )
            },
            steps_hold_edits(old(self)@) ==> steps_hold_edits(final(self)@),
    {
        if self.undo.len() <= min_len {
            return None;
        }
        self.undo()
    }

    /// Redoes the newest undone step. Returns the transaction to apply to the
    /// drawing (a copy of the step), or `None` when there is nothing to redo.
    pub fn redo(&mut self) -> (apply: Option<Transaction<S, E, D>>)
        ensures
            final(self)@ == redo_state(old(self)@),
            apply is None <==> commit_state(old(self)@).redo.len() == 0,
            apply matches Some(t) ==> edits_cloned(commit_state(old(self)@).redo.last(), t@),
            steps_hold_edits(old(self)@) ==> steps_hold_edits(final(self)@),
    {
        self.commit_open();
        let ghost c = self@;
        match self.redo.pop() {
            None => None,
            Some(transaction) => {
                let copy = transaction.duplicate();
                self.undo.push(transaction);
                proof {
                    lemma_rev_shift(c.revision, 0, 1);
                }
                self.revision = self.revision.wrapping_add(1);
                assert(self@.redo =~= c.redo.drop_last());
                assert(self@.undo =~= c.undo.push(c.redo.last()));
                Some(copy)
            },
        }
    }
}


impl<S: Clone, E: Clone, D: Clone> History<S, E, D> {
    /// Merges the undo steps since `since` into one. Block renames stay steps
    /// of their own (so saving a block does not bundle a tree rename with the
    /// drawing edits made in the session); every other edit, in order, becomes
    /// one step. Returns whether any step was written back.
    pub fn collapse_since(&mut self, since: usize) -> (changed: bool)
        ensures
            final(self)@ == collapse_state(old(self)@, since as int),
            changed <==> (commit_state(old(self)@).undo.len() > since && collapsed_steps(
                steps_since(commit_state(old(self)@), since as int),
            ).len() > 0),
            steps_hold_edits(old(self)@) ==> steps_hold_edits(final(self)@),
            steps_hold_edits(old(self)@) ==> (changed <==> commit_state(old(self)@).undo.len() > since),
    {
        proof {
            if steps_hold_edits(self@) {
                lemma_collapse_changes_iff_steps_past(self@, since as int);
            }
        }
        self.commit_open();
        if self.undo.len() <= since {
            return false;
        }
        let ghost c = self@;
        let rest = self.undo.split_off(since);
        let ghost rest_view = transactions_view(rest@);
        assert(rest_view =~= steps_since(c, since as int));
        assert(self@.undo =~= c.undo.subrange(0, since as int));
        let removed = rest.len() as u64;
        let mut rename_edits: Vec<Edit<S, E, D>> = Vec::new();
        let mut other_edits: Vec<Edit<S, E, D>> = Vec::new();
        let mut pending = reversed(rest);
        let ghost mut done: Seq<Edit<S, E, D>> = seq![];
        let ghost mut k: int = 0;
        while pending.len() > 0
            invariant
                0 <= k <= rest_view.len(),
                pending@.len() == rest_view.len() - k,
                forall|i: int|
                    0 <= i < pending@.len() ==> (#[trigger] pending@[i])@ == rest_view[rest_view.len()
                        - 1 - i],
                done == rest_view.take(k).flatten(),
                rename_edits@ == done.filter(rename_pred()),
                other_edits@ == done.filter(other_pred()),
            decreases pending.len(),
        {
            let transaction = pending.pop().unwrap();
            let ghost t = transaction@;
            assert(t == rest_view[k]);
            let mut edits = reversed(transaction.edits);
            let ghost mut j: int = 0;
            while edits.len() > 0
                invariant
                    0 <= j <= t.len(),
                    edits@.len() == t.len() - j,
                    forall|i: int| 0 <= i < edits@.len() ==> #[trigger] edits@[i] == t[t.len() - 1 - i],
                    done == rest_view.take(k).flatten() + t.take(j),
                    rename_edits@ == done.filter(rename_pred()),
                    other_edits@ == done.filter(other_pred()),
                decreases edits.len(),
            {
                let edit = edits.pop().unwrap();
                assert(t.take(j + 1) =~= t.take(j).push(edit));
                proof {
                    assert(done.push(edit) =~= rest_view.take(k).flatten() + t.take(j + 1));
                    done.lemma_filter_push(edit, rename_pred());
                    done.lemma_filter_push(edit, other_pred());
                    done = done.push(edit);
                    j = j + 1;
                }
                if edit.is_rename() {
                    rename_edits.push(edit);
                } else {
                    other_edits.push(edit);
                }
            }
            proof {
                assert(t.take(j) =~= t);
                assert(rest_view.take(k + 1) =~= rest_view.take(k).push(t));
                rest_view.take(k).lemma_flatten_push(t);
                k = k + 1;
            }
        }
        assert(rest_view.take(k) =~= rest_view);
        proof {
            lemma_rev_shift(c.revision, 0, -(removed as int));
        }
        self.revision = self.revision.wrapping_sub(removed);
        let ghost renames = rename_edits@;
        let ghost others = other_edits@;
        let ghost prefix = c.undo.subrange(0, since as int);
        let mut changed = false;
        let mut pending_renames = reversed(rename_edits);
        let ghost mut r: int = 0;
        while pending_renames.len() > 0
            invariant
                0 <= r <= renames.len(),
                pending_renames@.len() == renames.len() - r,
                forall|i: int|
                    0 <= i < pending_renames@.len() ==> #[trigger] pending_renames@[i]
                        == renames[renames.len() - 1 - i],
                self@.undo.len() == prefix.len() + r,
                forall|i: int| 0 <= i < prefix.len() ==> #[trigger] self@.undo[i] == prefix[i],
                forall|i: int|
                    0 <= i < r ==> #[trigger] self@.undo[prefix.len() + i] == seq![renames[i]],
                self@.revision == rev_shift(c.revision, r - rest_view.len()),
                self@.redo == c.redo,
                self@.open is None,
                self@.clean_revision == c.clean_revision,
                changed <==> r > 0,
            decreases pending_renames.len(),
        {
            let edit = pending_renames.pop().unwrap();
            let mut edits = Vec::new();
            edits.push(edit);
            let ghost before = self.undo@;
            self.undo.push(Transaction { edits });
            proof {
                lemma_rev_shift(c.revision, r - rest_view.len(), 1);
            }
            self.revision = self.revision.wrapping_add(1);
            changed = true;
            assert(self@.undo =~= before.map_values(|t: Transaction<S, E, D>| t.edits@).push(seq![edit]));
            proof {
                r = r + 1;
            }
        }
        let ghost singles = self@.undo;
        assert forall|i: int| prefix.len() <= i < singles.len() implies singles[i] == (prefix
            + renames.map_values(|e: Edit<S, E, D>| seq![e]))[i] by {
            assert(singles[prefix.len() + (i - prefix.len())] == seq![renames[i - prefix.len()]]);
        }
        assert(singles =~= prefix + renames.map_values(|e: Edit<S, E, D>| seq![e]));
        if other_edits.len() > 0 {
            let ghost before = self@.undo;
            self.undo.push(Transaction { edits: other_edits });
            proof {
                lemma_rev_shift(c.revision, r - rest_view.len(), 1);
            }
            self.revision = self.revision.wrapping_add(1);
            changed = true;
            assert(self@.undo =~= before.push(others));
        }
        self.redo.clear();
        assert(self@.redo =~= seq![]);
        assert(self@.undo =~= prefix + collapsed_steps(rest_view));
        changed
    }
}


impl<S: Clone, E: Clone, D: Clone> History<S, E, D> {
    /// Drops the undo steps since `since` so they cannot be redone, and returns
    /// the transactions to apply to the drawing, in order: the inverse of each
    /// dropped step, newest first, then a copy of each rename-only step, oldest
    /// first. Those rename-only steps stay on the undo stack, so an explicit
    /// block rename survives the discard.
    pub fn discard_since(&mut self, since: usize) -> (apply: Vec<Transaction<S, E, D>>)
        ensures
            final(self)@ == discard_state(old(self)@, since as int),
            commit_state(old(self)@).undo.len() <= since ==> apply@.len() == 0,
            commit_state(old(self)@).undo.len() > since ==> {
                let plan = discard_plan(steps_since(commit_state(old(self)@), since as int));
                &&& apply@.len() == plan.len()
                &&& forall|i: int|
                    0 <= i < plan.len() ==> edits_cloned(#[trigger] plan[i], apply@[i]@)
            },
            steps_hold_edits(old(self)@) ==> steps_hold_edits(final(self)@),
    {
        self.commit_open();
        if self.undo.len() <= since {
            self.redo.clear();
            assert(self@.redo =~= seq![]);
            return Vec::new();
        }
        let ghost c = self@;
        let mut rest = self.undo.split_off(since);
        let ghost rest_view = transactions_view(rest@);
        let ghost n: int = rest_view.len() as int;
        let ghost prefix = c.undo.subrange(0, since as int);
        assert(rest_view =~= steps_since(c, since as int));
        assert(self@.undo =~= prefix);
        let mut apply: Vec<Transaction<S, E, D>> = Vec::new();
        let mut kept_newest_first: Vec<Transaction<S, E, D>> = Vec::new();
        while rest.len() > 0
            invariant
                n == rest_view.len(),
                rest@.len() <= n,
                forall|i: int| 0 <= i < rest@.len() ==> (#[trigger] rest@[i])@ == rest_view[i],
                apply@.len() == n - rest@.len(),
                forall|i: int|
                    0 <= i < apply@.len() ==> edits_cloned(
                        edits_inverse(rest_view[n - 1 - i]),
                        (#[trigger] apply@[i])@,
                    ),
                ({
                    let kept = rest_view.subrange(rest@.len() as int, n).filter(rename_only_pred());
                    &&& kept_newest_first@.len() == kept.len()
                    &&& forall|i: int|
                        0 <= i < kept.len() ==> (#[trigger] kept_newest_first@[i])@ == kept[kept.len()
                            - 1 - i]
                }),
                self@.undo == prefix,
                self@.redo == c.redo,
                self@.open is None,
                self@.clean_revision == c.clean_revision,
                self@.revision == rev_shift(c.revision, rest@.len() - n),
            decreases rest.len(),
        {
            let ghost m = rest@.len();
            let transaction = rest.pop().unwrap();
            let ghost t = transaction@;
            assert(t == rest_view[m - 1]);
            let keep = transaction.is_rename_only();
            apply.push(transaction.invert());
            proof {
                lemma_rev_shift(c.revision, m - n, -1);
                let suffix = rest_view.subrange(m as int, n);
                assert(rest_view.subrange(m - 1, n) =~= seq![t] + suffix);
                suffix.lemma_filter_prepend(t, rename_only_pred());
            }
            self.revision = self.revision.wrapping_sub(1);
            if keep {
                kept_newest_first.push(transaction);
            }
        }
        assert(rest_view.subrange(0, n) =~= rest_view);
        let ghost kept = kept_renames(rest_view);
        let ghost k: int = kept.len() as int;
        let ghost inverses = apply@;
        let ghost mut q: int = 0;
        while kept_newest_first.len() > 0
            invariant
                n == rest_view.len(),
                k == kept.len(),
                kept == kept_renames(rest_view),
                inverses.len() == n,
                0 <= q <= k,
                kept_newest_first@.len() == k - q,
                forall|i: int|
                    0 <= i < kept_newest_first@.len() ==> (#[trigger] kept_newest_first@[i])@
                        == kept[k - 1 - i],
                apply@.len() == n + q,
                forall|i: int| 0 <= i < n ==> #[trigger] apply@[i] == inverses[i],
                forall|i: int|
                    0 <= i < q ==> edits_cloned(kept[i], (#[trigger] apply@[n + i])@),
                self@.undo.len() == prefix.len() + q,
                forall|i: int| 0 <= i < prefix.len() ==> #[trigger] self@.undo[i] == prefix[i],
                forall|i: int| 0 <= i < q ==> #[trigger] self@.undo[prefix.len() + i] == kept[i],
                self@.redo == c.redo,
                self@.open is None,
                self@.clean_revision == c.clean_revision,
                self@.revision == rev_shift(c.revision, q - n),
            decreases kept_newest_first.len(),
        {
            let transaction = kept_newest_first.pop().unwrap();
            assert(transaction@ == kept[q]);
            apply.push(transaction.duplicate());
            let ghost before = self.undo@;
            self.undo.push(transaction);
            proof {
                lemma_rev_shift(c.revision, q - n, 1);
            }
            self.revision = self.revision.wrapping_add(1);
            assert(self@.undo =~= transactions_view(before).push(kept[q]));
            proof {
                q = q + 1;
            }
        }
        self.redo.clear();
        assert(self@.redo =~= seq![]);
        let ghost undo = self@.undo;
        assert forall|i: int| prefix.len() <= i < undo.len() implies undo[i] == (prefix
            + kept)[i] by {
            assert(undo[prefix.len() + (i - prefix.len())] == kept[i - prefix.len()]);
        }
        assert(undo =~= prefix + kept);
        let ghost plan = discard_plan(rest_view);
        assert forall|i: int| 0 <= i < plan.len() implies edits_cloned(
            #[trigger] plan[i],
            apply@[i]@,
        ) by {
            if i >= n {
                assert(apply@[n + (i - n)] == apply@[i]);
            }
        }
        apply
    }
}


/// Undo followed by redo gives back the committed history.
pub proof fn lemma_undo_then_redo<S, E, D>(h: HistoryState<S, E, D>)
    requires
        commit_state(h).undo.len() > 0,
    ensures
        redo_state(undo_state(h)) == commit_state(h),
{
    let c = commit_state(h);
    let u = undo_state(h);
    assert(commit_state(u) == u);
    lemma_rev_shift(c.revision, -1, 1);
    lemma_rev_shift(c.revision, 0, 0);
    assert(u.undo.push(u.redo.last()) =~= c.undo);
    assert(u.redo.drop_last() =~= c.redo);
}

/// Redo followed by undo gives back the committed history.
pub proof fn lemma_redo_then_undo<S, E, D>(h: HistoryState<S, E, D>)
    requires
        commit_state(h).redo.len() > 0,
    ensures
        undo_state(redo_state(h)) == commit_state(h),
{
    let c = commit_state(h);
    let r = redo_state(h);
    assert(commit_state(r) == r);
    lemma_rev_shift(c.revision, 1, -1);
    lemma_rev_shift(c.revision, 0, 0);
    assert(r.undo.drop_last() =~= c.undo);
    assert(r.redo.push(r.undo.last()) =~= c.redo);
}

/// Undoing a command that was just recorded restores the undo stack and the
/// revision, so a drawing undone back to its saved state is clean again; the
/// command becomes the only thing to redo.
pub proof fn lemma_undo_restores_revision<S, E, D>(h: HistoryState<S, E, D>, t: Seq<Edit<S, E, D>>)
    requires
        h.open == Some(t),
        t.len() > 0,
    ensures
        undo_state(h).undo == h.undo,
        undo_state(h).revision == h.revision,
        undo_state(h).redo == seq![t],
        h.revision == h.clean_revision ==> undo_state(h).revision == undo_state(h).clean_revision,
{
    lemma_rev_shift(h.revision, 1, -1);
    lemma_rev_shift(h.revision, 0, 0);
    assert(h.undo.push(t).drop_last() =~= h.undo);
    assert(seq![].push(t) =~= seq![t]);
}

/// A command that recorded no edit leaves no undo step and no new revision.
pub proof fn lemma_empty_command_leaves_no_step<S, E, D>(h: HistoryState<S, E, D>)
    requires
        h.open == Some(Seq::<Edit<S, E, D>>::empty()),
    ensures
        commit_state(h) == (HistoryState { open: None, ..h }),
{
}

/// Committing a new step forgets everything that could be redone.
pub proof fn lemma_new_step_clears_redo<S, E, D>(h: HistoryState<S, E, D>, t: Seq<Edit<S, E, D>>)
    requires
        h.open == Some(t),
        t.len() > 0,
    ensures
        commit_state(h).redo.len() == 0,
        commit_state(h).undo == h.undo.push(t),
{
}

/// An edit recorded outside a transaction is an undo step of its own.
pub proof fn lemma_record_outside_transaction<S, E, D>(h: HistoryState<S, E, D>, edit: Edit<S, E, D>)
    requires
        h.open is None,
    ensures
        record_state(h, edit).undo == h.undo.push(seq![edit]),
        record_state(h, edit).redo.len() == 0,
        record_state(h, edit).open is None,
{
}

proof fn lemma_flatten_singletons<A>(s: Seq<A>)
    ensures
        s.map_values(|e: A| seq![e]).flatten() == s,
    decreases s.len(),
{
    if s.len() > 0 {
        lemma_flatten_singletons(s.drop_last());
        let m = s.map_values(|e: A| seq![e]);
        assert(m =~= s.drop_last().map_values(|e: A| seq![e]).push(seq![s.last()]));
        s.drop_last().map_values(|e: A| seq![e]).lemma_flatten_push(seq![s.last()]);
        assert(s =~= s.drop_last() + seq![s.last()]);
    } else {
        assert(s.map_values(|e: A| seq![e]) =~= seq![]);
    }
}

/// Collapsing keeps the steps below `since`, forgets the redo stack, and
/// keeps every edit: the merged steps hold the renames of the collapsed steps
/// followed by all their other edits, each group in its original order.
pub proof fn lemma_collapse_keeps_edits<S, E, D>(h: HistoryState<S, E, D>, since: int)
    requires
        0 <= since < commit_state(h).undo.len(),
    ensures
        ({
            let c = commit_state(h);
            let flat = steps_since(c, since).flatten();
            let after = collapse_state(h, since);
            &&& after.undo.subrange(0, since) == c.undo.subrange(0, since)
            &&& after.undo.subrange(since, after.undo.len() as int).flatten() == flat.filter(
                rename_pred(),
            ) + flat.filter(other_pred())
            &&& after.redo.len() == 0
        }),
{
    let c = commit_state(h);
    let flat = steps_since(c, since).flatten();
    let renames = flat.filter(rename_pred());
    let others = flat.filter(other_pred());
    let after = collapse_state(h, since);
    let singles = renames.map_values(|e: Edit<S, E, D>| seq![e]);
    let added = collapsed_steps(steps_since(c, since));
    assert(after.undo.subrange(0, since) =~= c.undo.subrange(0, since));
    assert(after.undo.subrange(since, after.undo.len() as int) =~= added);
    lemma_flatten_singletons(renames);
    if others.len() > 0 {
        assert(added =~= singles.push(others));
        singles.lemma_flatten_push(others);
    } else {
        assert(added =~= singles);
        assert(others =~= seq![]);
        assert(renames + others =~= renames);
    }
}

/// Discarding keeps the steps below `since` and, above them, exactly the
/// rename-only steps; nothing is left to redo.
pub proof fn lemma_discard_keeps_renames<S, E, D>(h: HistoryState<S, E, D>, since: int)
    requires
        0 <= since < commit_state(h).undo.len(),
    ensures
        ({
            let c = commit_state(h);
            let after = discard_state(h, since);
            &&& after.undo == c.undo.subrange(0, since) + kept_renames(steps_since(c, since))
            &&& forall|i: int|
                since <= i < after.undo.len() ==> is_rename_only_edits(#[trigger] after.undo[i])
            &&& after.redo.len() == 0
        }),
{
    let c = commit_state(h);
    let rest = steps_since(c, since);
    let kept = kept_renames(rest);
    let after = discard_state(h, since);
    assert forall|i: int| since <= i < after.undo.len() implies is_rename_only_edits(
        #[trigger] after.undo[i],
    ) by {
        assert(after.undo[i] == kept[i - since]);
        rest.lemma_filter_pred(rename_only_pred(), i - since);
    }
}


/// Every undo and redo step holds at least one edit.
pub open spec fn steps_hold_edits<S, E, D>(h: HistoryState<S, E, D>) -> bool {
    &&& forall|i: int| 0 <= i < h.undo.len() ==> #[trigger] h.undo[i].len() > 0
    &&& forall|i: int| 0 <= i < h.redo.len() ==> #[trigger] h.redo[i].len() > 0
}

/// Committing keeps every step holding an edit.
pub broadcast proof fn lemma_commit_keeps_steps<S, E, D>(h: HistoryState<S, E, D>)
    requires
        steps_hold_edits(h),
    ensures
        #[trigger] steps_hold_edits(commit_state(h)),
{
}

/// Recording keeps every step holding an edit.
pub broadcast proof fn lemma_record_keeps_steps<S, E, D>(h: HistoryState<S, E, D>, edit: Edit<S, E, D>)
    requires
        steps_hold_edits(h),
    ensures
        #[trigger] steps_hold_edits(record_state(h, edit)),
{
    let opened = HistoryState { open: Some(seq![edit]), ..h };
    assert(steps_hold_edits(commit_state(opened)));
}

/// Undoing keeps every step holding an edit.
pub broadcast proof fn lemma_undo_keeps_steps<S, E, D>(h: HistoryState<S, E, D>)
    requires
        steps_hold_edits(h),
    ensures
        #[trigger] steps_hold_edits(undo_state(h)),
{
    assert(steps_hold_edits(commit_state(h)));
}

/// Redoing keeps every step holding an edit.
pub broadcast proof fn lemma_redo_keeps_steps<S, E, D>(h: HistoryState<S, E, D>)
    requires
        steps_hold_edits(h),
    ensures
        #[trigger] steps_hold_edits(redo_state(h)),
{
    assert(steps_hold_edits(commit_state(h)));
}

/// Collapsing keeps every step holding an edit: each rename is a step of
/// its own and the other edits make one step only when there are some.
pub broadcast proof fn lemma_collapse_keeps_steps<S, E, D>(h: HistoryState<S, E, D>, since: int)
    requires
        steps_hold_edits(h),
        0 <= since,
    ensures
        #[trigger] steps_hold_edits(collapse_state(h, since)),
{
    let c = commit_state(h);
    assert(steps_hold_edits(c));
    if c.undo.len() > since {
        let rest = steps_since(c, since);
        let flat = rest.flatten();
        let renames = flat.filter(rename_pred());
        let others = flat.filter(other_pred());
        let added = collapsed_steps(rest);
        let after = collapse_state(h, since);
        assert forall|i: int| 0 <= i < after.undo.len() implies #[trigger] after.undo[i].len() > 0 by {
            if i >= since {
                let k = i - since;
                if k < renames.len() {
                    assert(added[k] == seq![renames[k]]);
                } else {
                    assert(added[k] == others);
                }
            } else {
                assert(after.undo[i] == c.undo[i]);
            }
        }
    }
}

/// Discarding keeps every step holding an edit: the steps kept above
/// `since` are rename-only ones.
pub broadcast proof fn lemma_discard_keeps_steps<S, E, D>(h: HistoryState<S, E, D>, since: int)
    requires
        steps_hold_edits(h),
        0 <= since,
    ensures
        #[trigger] steps_hold_edits(discard_state(h, since)),
{
    let c = commit_state(h);
    assert(steps_hold_edits(c));
    if c.undo.len() > since {
        let rest = steps_since(c, since);
        let kept = kept_renames(rest);
        let dropped = discard_state(h, since);
        assert forall|i: int| 0 <= i < dropped.undo.len() implies #[trigger] dropped.undo[i].len() > 0 by {
            if i >= since {
                assert(dropped.undo[i] == kept[i - since]);
                rest.lemma_filter_pred(rename_only_pred(), i - since);
            } else {
                assert(dropped.undo[i] == c.undo[i]);
            }
        }
    }
}

pub broadcast group group_steps_hold_edits {
    lemma_commit_keeps_steps,
    lemma_record_keeps_steps,
    lemma_undo_keeps_steps,
    lemma_redo_keeps_steps,
    lemma_collapse_keeps_steps,
    lemma_discard_keeps_steps,
}

/// The history's operations never make a step without edits: committing,
/// recording, undoing, redoing, collapsing and discarding keep every step
/// holding an edit (an empty history has none).
pub proof fn lemma_steps_hold_edits_kept<S, E, D>(
    h: HistoryState<S, E, D>,
    edit: Edit<S, E, D>,
    since: int,
)
    requires
        steps_hold_edits(h),
        0 <= since,
    ensures
        steps_hold_edits(commit_state(h)),
        steps_hold_edits(record_state(h, edit)),
        steps_hold_edits(undo_state(h)),
        steps_hold_edits(redo_state(h)),
        steps_hold_edits(collapse_state(h, since)),
        steps_hold_edits(discard_state(h, since)),
{
    lemma_commit_keeps_steps(h);
    lemma_record_keeps_steps(h, edit);
    lemma_undo_keeps_steps(h);
    lemma_redo_keeps_steps(h);
    lemma_collapse_keeps_steps(h, since);
    lemma_discard_keeps_steps(h, since);
}

/// Collapsing writes back a step exactly when there are steps past
/// `since`, provided every step holds an edit (see
/// `lemma_steps_hold_edits_kept`).
pub proof fn lemma_collapse_changes_iff_steps_past<S, E, D>(h: HistoryState<S, E, D>, since: int)
    requires
        steps_hold_edits(h),
        0 <= since,
    ensures
        (commit_state(h).undo.len() > since && collapsed_steps(
            steps_since(commit_state(h), since),
        ).len() > 0) <==> commit_state(h).undo.len() > since,
{
    let c = commit_state(h);
    if c.undo.len() > since {
        let rest = steps_since(c, since);
        assert(rest[0] == c.undo[since]);
        assert(rest[0].len() > 0);
        let flat = rest.flatten();
        assert(flat == rest.first().add(rest.drop_first().flatten()));
        assert(flat.len() > 0);
        assert(flat[0] == rest[0][0]);
        flat.filter_lemma(rename_pred());
        flat.filter_lemma(other_pred());
        if edit_is_rename(flat[0]) {
            assert(flat.filter(rename_pred()).contains(flat[0]));
        } else {
            assert(flat.filter(other_pred()).contains(flat[0]));
        }
    }
}


/// A drawing as the edits see it: the entities of each space, in order,
/// and the block definitions by name.
#[verifier::reject_recursive_types(S)]
pub struct Drawing<S, E, D> {
    pub spaces: Map<S, Seq<E>>,
    pub blocks: Map<Seq<char>, D>,
}

/// The definition a drawing holds under `name`, if any.
pub open spec fn block_at<S, E, D>(d: Drawing<S, E, D>, name: Seq<char>) -> Option<D> {
    if d.blocks.contains_key(name) {
        Some(d.blocks[name])
    } else {
        None
    }
}

/// The edit fits the drawing: an insertion position exists, a removed or
/// replaced entity is the one recorded at its index, a replaced definition
/// is the one recorded, and a renamed block exists under its old name and
/// its new name is free.
pub open spec fn edit_fits<S, E, D>(d: Drawing<S, E, D>, edit: Edit<S, E, D>) -> bool {
    match edit {
        Edit::InsertEntity { space, index, .. } => d.spaces.contains_key(space) && index
            <= d.spaces[space].len(),
        Edit::RemoveEntity { space, index, entity } => d.spaces.contains_key(space) && index
            < d.spaces[space].len() && d.spaces[space][index as int] == entity,
        Edit::ReplaceEntity { space, index, before, .. } => d.spaces.contains_key(space) && index
            < d.spaces[space].len() && d.spaces[space][index as int] == before,
        Edit::ReplaceBlockDefinition { name, before, .. } => block_at(d, name@) == before,
        Edit::RenameBlock { before, after } => d.blocks.contains_key(before@)
            && !d.blocks.contains_key(after@),
    }
}

/// What an edit does to the drawing.
pub open spec fn apply_edit<S, E, D>(d: Drawing<S, E, D>, edit: Edit<S, E, D>) -> Drawing<S, E, D> {
    match edit {
        Edit::InsertEntity { space, index, entity } => Drawing {
            spaces: d.spaces.insert(space, d.spaces[space].insert(index as int, entity)),
            ..d
        },
        Edit::RemoveEntity { space, index, .. } => Drawing {
            spaces: d.spaces.insert(space, d.spaces[space].remove(index as int)),
            ..d
        },
        Edit::ReplaceEntity { space, index, after, .. } => Drawing {
            spaces: d.spaces.insert(space, d.spaces[space].update(index as int, after)),
            ..d
        },
        Edit::ReplaceBlockDefinition { name, after, .. } => Drawing {
            blocks: match after {
                Some(def) => d.blocks.insert(name@, def),
                None => d.blocks.remove(name@),
            },
            ..d
        },
        Edit::RenameBlock { before, after } => Drawing {
            blocks: d.blocks.remove(before@).insert(after@, d.blocks[before@]),
            ..d
        },
    }
}

/// A transaction's edits applied one after another.
pub open spec fn apply_edits<S, E, D>(d: Drawing<S, E, D>, edits: Seq<Edit<S, E, D>>) -> Drawing<
    S,
    E,
    D,
>
    decreases edits.len(),
{
    if edits.len() == 0 {
        d
    } else {
        apply_edit(apply_edits(d, edits.drop_last()), edits.last())
    }
}

/// Each edit of the transaction fits the drawing it meets.
pub open spec fn edits_fit<S, E, D>(d: Drawing<S, E, D>, edits: Seq<Edit<S, E, D>>) -> bool
    decreases edits.len(),
{
    if edits.len() == 0 {
        true
    } else {
        edits_fit(d, edits.drop_last()) && edit_fits(apply_edits(d, edits.drop_last()), edits.last())
    }
}

/// Undoing an edit restores the drawing: applying the inverse after an
/// edit that fits gives back the drawing before it. (So the inverse of a
/// replacement puts back the entity it replaced, and the inverse of a
/// rename renames back.)
pub proof fn lemma_inverse_undoes_edit<S, E, D>(d: Drawing<S, E, D>, edit: Edit<S, E, D>)
    requires
        edit_fits(d, edit),
    ensures
        edit_fits(apply_edit(d, edit), edit_inverse(edit)),
        apply_edit(apply_edit(d, edit), edit_inverse(edit)) == d,
{
    let after = apply_edit(d, edit);
    match edit {
        Edit::InsertEntity { space, index, entity } => {
            let s = d.spaces[space];
            assert(s.insert(index as int, entity).remove(index as int) =~= s);
            assert(apply_edit(after, edit_inverse(edit)).spaces =~= d.spaces);
        },
        Edit::RemoveEntity { space, index, entity } => {
            let s = d.spaces[space];
            assert(s.remove(index as int).insert(index as int, entity) =~= s);
            assert(apply_edit(after, edit_inverse(edit)).spaces =~= d.spaces);
        },
        Edit::ReplaceEntity { space, index, before, after: a } => {
            let s = d.spaces[space];
            assert(s.update(index as int, a).update(index as int, before) =~= s);
            assert(apply_edit(after, edit_inverse(edit)).spaces =~= d.spaces);
        },
        Edit::ReplaceBlockDefinition { name, before, after: a } => {
            assert(apply_edit(after, edit_inverse(edit)).blocks =~= d.blocks);
        },
        Edit::RenameBlock { before, after: a } => {
            assert(apply_edit(after, edit_inverse(edit)).blocks =~= d.blocks);
        },
    }
}

/// Applying a sequence of edits from the front: the first edit, then the
/// rest.
proof fn lemma_apply_edits_front<S, E, D>(d: Drawing<S, E, D>, first: Edit<S, E, D>, rest: Seq<Edit<S, E, D>>)
    ensures
        apply_edits(d, seq![first] + rest) == apply_edits(apply_edit(d, first), rest),
        edits_fit(d, seq![first] + rest) == (edit_fits(d, first) && edits_fit(apply_edit(d, first), rest)),
    decreases rest.len(),
{
    if rest.len() == 0 {
        let all = seq![first] + rest;
        assert(all.drop_last() =~= Seq::<Edit<S, E, D>>::empty());
        assert(all.last() == first);
        assert(apply_edits(d, Seq::<Edit<S, E, D>>::empty()) == d);
        assert(edits_fit(d, Seq::<Edit<S, E, D>>::empty()));
        assert(edits_fit(d, all) == edit_fits(d, first));
        assert(edits_fit(apply_edit(d, first), rest));
        assert(apply_edits(apply_edit(d, first), rest) == apply_edit(d, first));
    } else {
        let all = seq![first] + rest;
        lemma_apply_edits_front(d, first, rest.drop_last());
        assert(all.drop_last() =~= seq![first] + rest.drop_last());
        assert(all.last() == rest.last());
        assert(edits_fit(d, all) == (edits_fit(d, all.drop_last()) && edit_fits(
            apply_edits(d, all.drop_last()),
            all.last(),
        )));
        assert(edits_fit(apply_edit(d, first), rest) == (edits_fit(apply_edit(d, first), rest.drop_last())
            && edit_fits(apply_edits(apply_edit(d, first), rest.drop_last()), rest.last())));
    }
}

/// Undoing a transaction restores the drawing: after edits that fit, the
/// transaction `undo` hands back (each edit inverted, newest first) fits
/// and gives back the drawing before them.
pub proof fn lemma_undo_restores_drawing<S, E, D>(d: Drawing<S, E, D>, edits: Seq<Edit<S, E, D>>)
    requires
        edits_fit(d, edits),
    ensures
        edits_fit(apply_edits(d, edits), edits_inverse(edits)),
        apply_edits(apply_edits(d, edits), edits_inverse(edits)) == d,
    decreases edits.len(),
{
    if edits.len() == 0 {
        assert(edits_inverse(edits) =~= Seq::<Edit<S, E, D>>::empty());
    } else {
        let front = edits.drop_last();
        let e = edits.last();
        let mid = apply_edits(d, front);
        lemma_undo_restores_drawing(d, front);
        lemma_inverse_undoes_edit(mid, e);
        assert(edits_inverse(edits) =~= seq![edit_inverse(e)] + edits_inverse(front));
        lemma_apply_edits_front(apply_edit(mid, e), edit_inverse(e), edits_inverse(front));
    }
}

} // verus!
