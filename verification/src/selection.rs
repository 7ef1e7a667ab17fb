//! Top-level entity selection scoped to the loaded document.

use std::collections::HashSet;
use vstd::prelude::*;

verus! {

broadcast use vstd::std_specs::hash::group_hash_axioms;

/// Identity of a drawing entity.
#[derive(Debug, Clone, Copy, PartialEq, Eq, Hash, PartialOrd, Ord, Structural)]
pub struct EntityId(pub u64);

/// The ids of `s`, each kept at its first occurrence.
pub open spec fn dedup(s: Seq<EntityId>) -> Seq<EntityId>
    decreases s.len(),
{
    if s.len() == 0 {
        seq![]
    } else {
        let d = dedup(s.drop_last());
        if d.contains(s.last()) {
            d
        } else {
            d.push(s.last())
        }
    }
}

/// The ids that occur an odd number of times in `s`.
pub open spec fn odd_ids(s: Seq<EntityId>) -> Set<EntityId>
    decreases s.len(),
{
    if s.len() == 0 {
        Set::empty()
    } else {
        let p = odd_ids(s.drop_last());
        if p.contains(s.last()) {
            p.remove(s.last())
        } else {
            p.insert(s.last())
        }
    }
}

/// The selection after toggling every id of `ids`: ids toggled an odd number
/// of times that were selected are dropped; those that were not selected are
/// appended, in the order of their first occurrence in `ids`.
pub open spec fn toggled(current: Seq<EntityId>, ids: Seq<EntityId>) -> Seq<EntityId> {
    let odd = odd_ids(ids);
    current.filter(outside(odd)) + dedup(ids).filter(newly_toggled(odd, current))
}

/// Keeps the ids outside `set`.
pub open spec fn outside(set: Set<EntityId>) -> spec_fn(EntityId) -> bool {
    |x: EntityId| !set.contains(x)
}

/// Keeps the ids of `odd` that are not in `current`.
pub open spec fn newly_toggled(odd: Set<EntityId>, current: Seq<EntityId>) -> spec_fn(
    EntityId,
) -> bool {
    |x: EntityId| odd.contains(x) && !current.contains(x)
}

/// `s` holds no id twice.
pub open spec fn distinct(s: Seq<EntityId>) -> bool {
    forall|i: int, j: int| 0 <= i < j < s.len() ==> s[i] != s[j]
}

/// Ordered set of top-level model-space entity ids.
pub struct Selection {
    ids: Vec<EntityId>,
    members: HashSet<u64>,
}

impl View for Selection {
    type V = Seq<EntityId>;

    closed spec fn view(&self) -> Seq<EntityId> {
        self.ids@
    }
}

/// Replacing with a list keeps each listed id exactly once: no duplicates,
/// and an id is selected exactly when it was listed.
pub proof fn lemma_dedup_props(s: Seq<EntityId>)
    ensures
        distinct(dedup(s)),
        forall|x: EntityId| dedup(s).contains(x) <==> s.contains(x),
    decreases s.len(),
{
    if s.len() > 0 {
        lemma_dedup_props(s.drop_last());
        assert forall|x: EntityId| s.contains(x) <==> (s.drop_last().contains(x) || x == s.last()) by {
            if s.contains(x) {
                let i = choose|i: int| 0 <= i < s.len() && s[i] == x;
                if i < s.len() - 1 {
                    assert(s.drop_last()[i] == x);
                }
            }
            if s.drop_last().contains(x) {
                let i = choose|i: int| 0 <= i < s.len() - 1 && s.drop_last()[i] == x;
                assert(s[i] == x);
            }
            if x == s.last() {
                assert(s[s.len() - 1] == x);
            }
        }
        let d = dedup(s.drop_last());
        if !d.contains(s.last()) {
            assert forall|x: EntityId| d.push(s.last()).contains(x) <==> (d.contains(x) || x
                == s.last()) by {
                if d.push(s.last()).contains(x) {
                    let i = choose|i: int| 0 <= i < d.len() + 1 && d.push(s.last())[i] == x;
                    if i < d.len() {
                        assert(d[i] == x);
                    }
                }
                if d.contains(x) {
                    let i = choose|i: int| 0 <= i < d.len() && d[i] == x;
                    assert(d.push(s.last())[i] == x);
                }
                if x == s.last() {
                    assert(d.push(s.last())[d.len() as int] == x);
                }
            }
            assert forall|i: int, j: int| 0 <= i < j < d.len() + 1 implies d.push(s.last())[i]
                != d.push(s.last())[j] by {
                if j == d.len() {
                    assert(d.contains(d[i]));
                }
            }
        }
    }
}

/// Keeps the ids whose membership in `set` equals `keep`.
pub open spec fn set_pred(set: Set<u64>, keep: bool) -> spec_fn(EntityId) -> bool {
    |x: EntityId| set.contains(x.0) == keep
}

/// Keeps every id but `id`.
pub open spec fn differs_from(id: EntityId) -> spec_fn(EntityId) -> bool {
    |x: EntityId| x != id
}

proof fn lemma_filter_agree<A>(s: Seq<A>, p: spec_fn(A) -> bool, q: spec_fn(A) -> bool)
    requires
        forall|i: int| 0 <= i < s.len() ==> p(s[i]) == q(#[trigger] s[i]),
    ensures
        s.filter(p) == s.filter(q),
    decreases s.len(),
{
    reveal(Seq::filter);
    if s.len() > 0 {
        lemma_filter_agree(s.drop_last(), p, q);
    }
}

/// The ids of `v` whose membership in `set` equals `keep`, in order.
fn filter_by_set(v: &Vec<EntityId>, set: &HashSet<u64>, keep: bool) -> (r: Vec<EntityId>)
    requires
        distinct(v@),
    ensures
        r@ == v@.filter(set_pred(set@, keep)),
        distinct(r@),
        forall|x: EntityId| r@.contains(x) <==> (v@.contains(x) && set@.contains(x.0) == keep),
{
    let mut r: Vec<EntityId> = Vec::new();
    let mut i: usize = 0;
    while i < v.len()
        invariant
            i <= v@.len(),
            distinct(v@),
            r@ == v@.take(i as int).filter(set_pred(set@, keep)),
            distinct(r@),
            forall|x: EntityId|
                r@.contains(x) <==> (v@.take(i as int).contains(x) && set@.contains(x.0) == keep),
        decreases v@.len() - i,
    {
        let x = v[i];
        assert(v@.take(i + 1) =~= v@.take(i as int).push(x));
        let ghost t0 = v@.take(i as int);
        let ghost t1 = v@.take(i + 1);
        proof {
            v@.take(i as int).lemma_filter_push(x, set_pred(set@, keep));
            assert forall|y: EntityId| t1.contains(y) <==> (t0.contains(y) || y == x) by {
                if t1.contains(y) {
                    let k = choose|k: int| 0 <= k < t1.len() && t1[k] == y;
                    if k < i {
                        assert(t0[k] == y);
                    }
                }
                if t0.contains(y) {
                    let k = choose|k: int| 0 <= k < t0.len() && t0[k] == y;
                    assert(t1[k] == y);
                }
                if y == x {
                    assert(t1[i as int] == y);
                }
            }
            assert(!t0.contains(x)) by {
                if t0.contains(x) {
                    let k = choose|k: int| 0 <= k < t0.len() && t0[k] == x;
                    assert(v@[k] == v@[i as int]);
                }
            }
        }
        let ghost before_r = r@;
        let hit = set.contains(&x.0);
        assert(hit == set@.contains(x.0));
        if hit == keep {
            let ghost before = r@;
            r.push(x);
            assert forall|y: EntityId| r@.contains(y) <==> (before.contains(y) || y == x) by {
                if r@.contains(y) {
                    let k = choose|k: int| 0 <= k < r@.len() && r@[k] == y;
                    if k < before.len() {
                        assert(before[k] == y);
                    }
                }
                if before.contains(y) {
                    let k = choose|k: int| 0 <= k < before.len() && before[k] == y;
                    assert(r@[k] == y);
                }
                if y == x {
                    assert(r@[before.len() as int] == y);
                }
            }
            assert forall|a: int, b: int| 0 <= a < b < r@.len() implies r@[a] != r@[b] by {
                if b == before.len() {
                    assert(before.contains(before[a]));
                }
            }
        }
        assert forall|y: EntityId| r@.contains(y) <==> (t1.contains(y) && set@.contains(y.0)
            == keep) by {
            if hit == keep {
                assert(r@.contains(y) <==> (before_r.contains(y) || y == x));
            } else {
                assert(r@ == before_r);
                if y == x {
                    assert(!t0.contains(y));
                }
            }
        }
        i = i + 1;
    }
    assert(v@.take(v@.len() as int) =~= v@);
    r
}

proof fn lemma_contains_push(s: Seq<EntityId>, x: EntityId)
    ensures
        forall|y: EntityId| #[trigger] s.push(x).contains(y) <==> (s.contains(y) || y == x),
{
    assert forall|y: EntityId| s.push(x).contains(y) <==> (s.contains(y) || y == x) by {
        if s.push(x).contains(y) {
            let k = choose|k: int| 0 <= k < s.len() + 1 && s.push(x)[k] == y;
            if k < s.len() {
                assert(s[k] == y);
            }
        }
        if s.contains(y) {
            let k = choose|k: int| 0 <= k < s.len() && s[k] == y;
            assert(s.push(x)[k] == y);
        }
        if y == x {
            assert(s.push(x)[s.len() as int] == y);
        }
    }
}

/// The value shared by every entry, `None` when the entries are empty, one is
/// missing, or two differ.
pub open spec fn shared(values: Seq<Option<String>>) -> Option<String> {
    if values.len() > 0 && values[0] is Some && forall|i: int|
        0 <= i < values.len() ==> #[trigger] values[i] is Some && values[i].unwrap()@
            == values[0].unwrap()@ {
        values[0]
    } else {
        None
    }
}

/// The layer shared by every selected entity: `layers` holds, for each
/// selected id in order, the entity's layer or `None` for a missing entity.
pub fn shared_layer(layers: &[Option<String>]) -> (layer: Option<String>)
    ensures
        layer is Some <==> shared(layers@) is Some,
        layer is Some ==> layer.unwrap()@ == shared(layers@).unwrap()@,
{
    if layers.len() == 0 {
        return None;
    }
    let first = match &layers[0] {
        Some(name) => name.clone(),
        None => return None,
    };
    let mut i: usize = 1;
    while i < layers.len()
        invariant
            1 <= i <= layers@.len(),
            layers@[0] is Some,
            first@ == layers@[0].unwrap()@,
            forall|k: int|
                0 <= k < i ==> #[trigger] layers@[k] is Some && layers@[k].unwrap()@ == first@,
        decreases layers@.len() - i,
    {
        match &layers[i] {
            Some(name) => {
                if !(*name == first) {
                    assert(!(layers@[i as int].unwrap()@ == layers@[0].unwrap()@));
                    return None;
                }
            },
            None => return None,
        }
        i = i + 1;
    }
    Some(first)
}

impl Default for Selection {
    fn default() -> (selection: Self)
        ensures
            selection.wf(),
            selection@ == Seq::<EntityId>::empty(),
    {
        Selection::new()
    }
}

/// An id toggled an odd number of times was listed.
proof fn lemma_odd_listed(ids: Seq<EntityId>, x: EntityId)
    requires
        odd_ids(ids).contains(x),
    ensures
        ids.contains(x),
    decreases ids.len(),
{
    if ids.len() > 0 && x != ids.last() {
        lemma_odd_listed(ids.drop_last(), x);
        let i = choose|i: int| 0 <= i < ids.drop_last().len() && ids.drop_last()[i] == x;
        assert(ids[i] == x);
    } else if ids.len() > 0 {
        assert(ids[ids.len() - 1] == x);
    }
}

/// Toggling a list is a symmetric difference: afterwards an id is
/// selected exactly when it was selected or listed an odd number of times,
/// but not both.
pub proof fn lemma_toggled_is_symmetric_difference(current: Seq<EntityId>, ids: Seq<EntityId>)
    ensures
        forall|x: EntityId|
            #[trigger] toggled(current, ids).contains(x) <==> (current.contains(x) != odd_ids(
                ids,
            ).contains(x)),
{
    let odd = odd_ids(ids);
    let kept = current.filter(outside(odd));
    let added = dedup(ids).filter(newly_toggled(odd, current));
    lemma_dedup_props(ids);
    assert forall|x: EntityId| #[trigger] toggled(current, ids).contains(x) <==> (current.contains(x)
        != odd.contains(x)) by {
        let t = toggled(current, ids);
        if t.contains(x) {
            let k = choose|k: int| 0 <= k < t.len() && t[k] == x;
            if k < kept.len() {
                assert(kept[k] == x);
                assert(kept.contains(x));
                current.lemma_filter_contains_rev(outside(odd), x);
                current.lemma_filter_pred(outside(odd), k);
            } else {
                assert(added[k - kept.len()] == x);
                dedup(ids).lemma_filter_pred(newly_toggled(odd, current), k - kept.len());
            }
        }
        if current.contains(x) && !odd.contains(x) {
            let i = choose|i: int| 0 <= i < current.len() && current[i] == x;
            current.lemma_filter_contains(outside(odd), i);
            let k = choose|k: int| 0 <= k < kept.len() && kept[k] == x;
            assert(t[k] == x);
        }
        if !current.contains(x) && odd.contains(x) {
            lemma_odd_listed(ids, x);
            assert(dedup(ids).contains(x));
            let i = choose|i: int| 0 <= i < dedup(ids).len() && dedup(ids)[i] == x;
            dedup(ids).lemma_filter_contains(newly_toggled(odd, current), i);
            let k = choose|k: int| 0 <= k < added.len() && added[k] == x;
            assert(t[kept.len() + k] == x);
        }
    }
}

/// Toggling an unselected id twice gives the selection back.
pub proof fn lemma_toggle_twice(s: Seq<EntityId>, id: EntityId)
    requires
        !s.contains(id),
    ensures
        s.push(id).filter(differs_from(id)) == s,
{
    s.lemma_filter_push(id, differs_from(id));
    lemma_filter_agree(s, differs_from(id), |x: EntityId| true);
    lemma_filter_all(s);
}

proof fn lemma_filter_all(s: Seq<EntityId>)
    ensures
        s.filter(|x: EntityId| true) == s,
    decreases s.len(),
{
    reveal(Seq::filter);
    if s.len() > 0 {
        lemma_filter_all(s.drop_last());
        assert(s.drop_last().push(s.last()) =~= s);
    }
}

/// Toggling an empty list of candidates leaves the selection unchanged.
pub proof fn lemma_toggle_nothing(s: Seq<EntityId>)
    ensures
        toggled(s, seq![]) == s,
{
    reveal(Seq::filter);
    lemma_filter_agree(s, outside(odd_ids(seq![])), |x: EntityId| true);
    lemma_filter_all(s);
    assert(dedup(Seq::<EntityId>::empty()).filter(newly_toggled(odd_ids(seq![]), s)) =~= seq![]);
}

impl Selection {
    /// Selection invariant: no id twice, and the membership set holds
    /// exactly the selected ids.
    pub closed spec fn wf(&self) -> bool {
        &&& distinct(self.ids@)
        &&& forall|x: u64| self.members@.contains(x) <==> self.ids@.contains(EntityId(x))
    }

    /// An empty selection.
    pub fn new() -> (selection: Self)
        ensures
            selection.wf(),
            selection@ == Seq::<EntityId>::empty(),
            distinct(selection@),
    {
        Selection { ids: Vec::new(), members: HashSet::new() }
    }

    pub fn clear(&mut self)
        ensures
            final(self).wf(),
            final(self)@ == Seq::<EntityId>::empty(),
            distinct(final(self)@),
    {
        self.ids.clear();
        self.members.clear();
        assert(self.ids@ =~= seq![]);
    }

    pub fn is_empty(&self) -> (empty: bool)
        ensures
            empty <==> self@.len() == 0,
    {
        self.ids.len() == 0
    }

    pub fn len(&self) -> (len: usize)
        ensures
            len == self@.len(),
    {
        self.ids.len()
    }

    /// The selected ids in selection order.
    pub fn ids(&self) -> (ids: &[EntityId])
        ensures
            ids@ == self@,
    {
        self.ids.as_slice()
    }

    pub fn contains(&self, id: EntityId) -> (selected: bool)
        requires
            self.wf(),
        ensures
            selected <==> self@.contains(id),
    {
        self.members.contains(&id.0)
    }

    /// Adds `id` when it is not selected, removes it when it is.
    pub fn toggle(&mut self, id: EntityId)
        requires
            old(self).wf(),
        ensures
            final(self).wf(),
            old(self)@.contains(id) ==> final(self)@ == old(self)@.filter(differs_from(id)),
            !old(self)@.contains(id) ==> final(self)@ == old(self)@.push(id),
            distinct(final(self)@),
    {
        let ghost before = self.ids@;
        if self.members.remove(&id.0) {
            let mut single: HashSet<u64> = HashSet::new();
            single.insert(id.0);
            let kept = filter_by_set(&self.ids, &single, false);
            proof {
                lemma_filter_agree(before, set_pred(single@, false), differs_from(id));
            }
            self.ids = kept;
        } else {
            self.members.insert(id.0);
            self.ids.push(id);
            assert forall|x: EntityId| self.ids@.contains(x) <==> (before.contains(x) || x == id) by {
                if self.ids@.contains(x) {
                    let k = choose|k: int| 0 <= k < self.ids@.len() && self.ids@[k] == x;
                    if k < before.len() {
                        assert(before[k] == x);
                    }
                }
                if before.contains(x) {
                    let k = choose|k: int| 0 <= k < before.len() && before[k] == x;
                    assert(self.ids@[k] == x);
                }
                if x == id {
                    assert(self.ids@[before.len() as int] == x);
                }
            }
            assert forall|a: int, b: int| 0 <= a < b < self.ids@.len() implies self.ids@[a]
                != self.ids@[b] by {
                if b == before.len() {
                    assert(before.contains(before[a]));
                }
            }
        }
    }

    /// Selects exactly the ids of `ids`, each once, in first-occurrence order.
    pub fn replace_all(&mut self, ids: &[EntityId])
        ensures
            final(self).wf(),
            final(self)@ == dedup(ids@),
            distinct(final(self)@),
    {
        self.ids.clear();
        self.members.clear();
        let mut i: usize = 0;
        while i < ids.len()
            invariant
                i <= ids@.len(),
                self.ids@ == dedup(ids@.take(i as int)),
                forall|x: u64| self.members@.contains(x) <==> ids@.take(i as int).contains(EntityId(x)),
            decreases ids@.len() - i,
        {
            let id = ids[i];
            let ghost t0 = ids@.take(i as int);
            let ghost t1 = ids@.take(i + 1);
            assert(t1 =~= t0.push(id));
            assert(t1.drop_last() =~= t0);
            proof {
                lemma_dedup_props(t0);
                lemma_contains_push(t0, id);
            }
            if self.members.insert(id.0) {
                self.ids.push(id);
            }
            i = i + 1;
        }
        assert(ids@.take(ids@.len() as int) =~= ids@);
        proof {
            lemma_dedup_props(ids@);
        }
    }

    /// Toggles every id of `ids`: an id listed an odd number of times is
    /// removed when selected and appended when not.
    pub fn toggle_all(&mut self, ids: &[EntityId])
        requires
            old(self).wf(),
        ensures
            final(self).wf(),
            final(self)@ == toggled(old(self)@, ids@),
            distinct(final(self)@),
    {
        let ghost current = self.ids@;
        let ghost odd_spec = odd_ids(ids@);
        let mut odd: HashSet<u64> = HashSet::new();
        let mut i: usize = 0;
        while i < ids.len()
            invariant
                i <= ids@.len(),
                forall|x: u64| odd@.contains(x) <==> odd_ids(ids@.take(i as int)).contains(EntityId(x)),
            decreases ids@.len() - i,
        {
            let id = ids[i];
            assert(ids@.take(i + 1).drop_last() =~= ids@.take(i as int));
            if !odd.remove(&id.0) {
                odd.insert(id.0);
            }
            i = i + 1;
        }
        assert(ids@.take(ids@.len() as int) =~= ids@);
        let mut add: Vec<EntityId> = Vec::new();
        let mut seen: HashSet<u64> = HashSet::new();
        let mut i: usize = 0;
        while i < ids.len()
            invariant
                i <= ids@.len(),
                self.wf(),
                self.ids@ == current,
                forall|x: u64| odd@.contains(x) <==> odd_spec.contains(EntityId(x)),
                forall|x: u64| seen@.contains(x) <==> ids@.take(i as int).contains(EntityId(x)),
                add@ == dedup(ids@.take(i as int)).filter(newly_toggled(odd_spec, current)),
                distinct(add@),
                forall|x: EntityId|
                    add@.contains(x) ==> ids@.take(i as int).contains(x) && !current.contains(x),
            decreases ids@.len() - i,
        {
            let id = ids[i];
            let ghost t0 = ids@.take(i as int);
            let ghost t1 = ids@.take(i + 1);
            assert(t1 =~= t0.push(id));
            assert(t1.drop_last() =~= t0);
            proof {
                lemma_dedup_props(t0);
                lemma_contains_push(t0, id);
                dedup(t0).lemma_filter_push(id, newly_toggled(odd_spec, current));
            }
            if !seen.contains(&id.0) {
                seen.insert(id.0);
                if odd.contains(&id.0) && !self.members.contains(&id.0) {
                    let ghost before = add@;
                    add.push(id);
                    proof {
                        lemma_contains_push(before, id);
                        assert forall|a: int, b: int| 0 <= a < b < add@.len() implies add@[a]
                            != add@[b] by {
                            if b == before.len() {
                                assert(before.contains(before[a]));
                            }
                        }
                    }
                }
            } else {
                seen.insert(id.0);
            }
            i = i + 1;
        }
        assert(ids@.take(ids@.len() as int) =~= ids@);
        let kept = filter_by_set(&self.ids, &odd, false);
        proof {
            lemma_filter_agree(current, set_pred(odd@, false), outside(odd_spec));
        }
        let mut i: usize = 0;
        while i < self.ids.len()
            invariant
                i <= current.len(),
                self.ids@ == current,
                distinct(current),
                forall|x: u64| odd@.contains(x) <==> odd_spec.contains(EntityId(x)),
                forall|x: u64|
                    #[trigger] self.members@.contains(x) <==> (current.contains(EntityId(x)) && !(
                    odd@.contains(x) && current.take(i as int).contains(EntityId(x)))),
            decreases current.len() - i,
        {
            let id = self.ids[i];
            proof {
                lemma_contains_push(current.take(i as int), id);
                assert(current.take(i + 1) =~= current.take(i as int).push(id));
            }
            let ghost members_before = self.members@;
            let is_odd = odd.contains(&id.0);
            if is_odd {
                self.members.remove(&id.0);
            }
            assert forall|x: u64|
                self.members@.contains(x) <==> (current.contains(EntityId(x)) && !(odd@.contains(x)
                    && current.take(i + 1).contains(EntityId(x)))) by {
                assert(members_before.contains(x) <==> (current.contains(EntityId(x)) && !(
                odd@.contains(x) && current.take(i as int).contains(EntityId(x)))));
                assert(is_odd == odd@.contains(id.0));
                if is_odd {
                    assert(self.members@ == members_before.remove(id.0));
                } else {
                    assert(self.members@ == members_before);
                }
                assert(current.take(i + 1).contains(EntityId(x)) <==> (current.take(i as int).contains(EntityId(x)) || EntityId(x) == id));
                if x == id.0 {
                    assert(current.contains(id)) by {
                        assert(current[i as int] == id);
                    }
                } else {
                    assert(EntityId(x) != id);
                }
            }
            i = i + 1;
        }
        assert(current.take(current.len() as int) =~= current);
        self.ids = kept;
        let ghost kept_view = self.ids@;
        assert forall|x: u64| self.members@.contains(x) <==> self.ids@.contains(EntityId(x)) by {}
        proof {
            lemma_dedup_props(ids@);
        }
        let mut j: usize = 0;
        while j < add.len()
            invariant
                j <= add@.len(),
                add@ == dedup(ids@).filter(newly_toggled(odd_spec, current)),
                kept_view == current.filter(outside(odd_spec)),
                self.ids@ == kept_view + add@.take(j as int),
                distinct(add@),
                forall|x: EntityId| add@.contains(x) ==> !current.contains(x),
                forall|x: EntityId| kept_view.contains(x) ==> current.contains(x),
                distinct(self.ids@),
                forall|x: u64| self.members@.contains(x) <==> self.ids@.contains(EntityId(x)),
            decreases add@.len() - j,
        {
            let id = add[j];
            let ghost before = self.ids@;
            proof {
                assert(add@.contains(add@[j as int]));
                assert(!before.contains(id)) by {
                    if before.contains(id) {
                        let k = choose|k: int| 0 <= k < before.len() && before[k] == id;
                        if k >= kept_view.len() {
                            assert(add@[k - kept_view.len()] == id);
                        } else {
                            assert(kept_view.contains(id));
                        }
                    }
                }
                lemma_contains_push(before, id);
                assert(kept_view + add@.take(j + 1) =~= before.push(id));
            }
            self.members.insert(id.0);
            self.ids.push(id);
            proof {
                assert forall|a: int, b: int| 0 <= a < b < self.ids@.len() implies self.ids@[a]
                    != self.ids@[b] by {
                    if b == before.len() {
                        assert(before.contains(before[a]));
                    }
                }
            }
            j = j + 1;
        }
        assert(add@.take(add@.len() as int) =~= add@);
    }

    /// Applies a finished box selection: toggles the candidates, or replaces
    /// the selection with them.
    pub fn commit_box(&mut self, candidates: &[EntityId], toggle: bool)
        requires
            old(self).wf(),
        ensures
            final(self).wf(),
            toggle ==> final(self)@ == toggled(old(self)@, candidates@),
            !toggle ==> final(self)@ == dedup(candidates@),
            distinct(final(self)@),
    {
        if toggle {
            self.toggle_all(candidates);
        } else {
            self.replace_all(candidates);
        }
    }

    /// Drops the selected ids that are no longer in the drawing; `existing`
    /// holds the ids the drawing still has.
    pub fn retain_valid(&mut self, existing: &[EntityId])
        requires
            old(self).wf(),
        ensures
            final(self).wf(),
            final(self)@ == old(self)@.filter(|x: EntityId| existing@.contains(x)),
            distinct(final(self)@),
    {
        let ghost current = self.ids@;
        let mut valid: HashSet<u64> = HashSet::new();
        let mut i: usize = 0;
        while i < existing.len()
            invariant
                i <= existing@.len(),
                forall|x: u64| valid@.contains(x) <==> existing@.take(i as int).contains(EntityId(x)),
            decreases existing@.len() - i,
        {
            let id = existing[i];
            proof {
                lemma_contains_push(existing@.take(i as int), id);
                assert(existing@.take(i + 1) =~= existing@.take(i as int).push(id));
            }
            valid.insert(id.0);
            i = i + 1;
        }
        assert(existing@.take(existing@.len() as int) =~= existing@);
        let kept = filter_by_set(&self.ids, &valid, true);
        proof {
            lemma_filter_agree(
                current,
                set_pred(valid@, true),
                |x: EntityId| existing@.contains(x),
            );
        }
        let mut i: usize = 0;
        while i < self.ids.len()
            invariant
                i <= current.len(),
                self.ids@ == current,
                forall|x: u64| valid@.contains(x) <==> existing@.contains(EntityId(x)),
                forall|x: u64|
                    #[trigger] self.members@.contains(x) <==> (current.contains(EntityId(x)) && !(
                    !valid@.contains(x) && current.take(i as int).contains(EntityId(x)))),
            decreases current.len() - i,
        {
            let id = self.ids[i];
            proof {
                lemma_contains_push(current.take(i as int), id);
                assert(current.take(i + 1) =~= current.take(i as int).push(id));
            }
            let ghost members_before = self.members@;
            let keep = valid.contains(&id.0);
            if !keep {
                self.members.remove(&id.0);
            }
            assert forall|x: u64|
                self.members@.contains(x) <==> (current.contains(EntityId(x)) && !(!valid@.contains(x)
                    && current.take(i + 1).contains(EntityId(x)))) by {
                assert(members_before.contains(x) <==> (current.contains(EntityId(x)) && !(
                !valid@.contains(x) && current.take(i as int).contains(EntityId(x)))));
                if x == id.0 {
                    assert(current.contains(id)) by {
                        assert(current[i as int] == id);
                    }
                } else {
                    assert(EntityId(x) != id);
                }
            }
            i = i + 1;
        }
        assert(current.take(current.len() as int) =~= current);
        self.ids = kept;
    }

    /// Selects exactly `id`.
    pub fn replace(&mut self, id: EntityId)
        ensures
            final(self).wf(),
            final(self)@ == seq![id],
            distinct(final(self)@),
    {
        self.ids.clear();
        self.members.clear();
        self.ids.push(id);
        self.members.insert(id.0);
        assert(self.ids@ =~= seq![id]);
        assert forall|x: u64| self.members@.contains(x) <==> self.ids@.contains(EntityId(x)) by {
            if x == id.0 {
                assert(self.ids@[0] == EntityId(x));
            }
        }
    }
}

} // verus!
