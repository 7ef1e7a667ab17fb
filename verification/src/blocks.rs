//! The Blocks tree: which block definitions each definition (or model
//! space) inserts, how often, and the panel state over it (expanded rows,
//! search, inline rename).
//!
//! Block names are compared ignoring ASCII case. A definition may insert
//! itself through other definitions; every walk of the tree stops at a name
//! already on its path.

use crate::text::{contains_text, eq_ignore_case, find_text, lower, lowercase, chars_of};
use vstd::prelude::*;

verus! {

/// The key of model space in the tree.
pub const MODEL_KEY: &'static str = "";

/// A block definition inserted by a parent, with the number of inserts.
#[derive(Debug, Clone)]
pub struct BlockChild {
    pub name: String,
    pub count: usize,
}

/// One parent (a definition, or model space under the empty key) and the
/// definitions it inserts, in order.
#[derive(Debug)]
pub struct BlockNode {
    pub key: String,
    pub children: Vec<BlockChild>,
}

/// The plain value of a child entry.
pub struct ChildView {
    pub name: Seq<char>,
    pub count: nat,
}

/// The plain value of a parent entry.
pub struct NodeView {
    pub key: Seq<char>,
    pub children: Seq<ChildView>,
}

impl View for BlockChild {
    type V = ChildView;

    open spec fn view(&self) -> ChildView {
        ChildView { name: self.name@, count: self.count as nat }
    }
}

pub open spec fn children_view(children: Seq<BlockChild>) -> Seq<ChildView> {
    children.map_values(|c: BlockChild| c@)
}

impl View for BlockNode {
    type V = NodeView;

    open spec fn view(&self) -> NodeView {
        NodeView { key: self.key@, children: children_view(self.children@) }
    }
}

/// The definition hierarchy of a drawing.
#[derive(Debug)]
pub struct BlockTree {
    nodes: Vec<BlockNode>,
}

pub open spec fn nodes_view(nodes: Seq<BlockNode>) -> Seq<NodeView> {
    nodes.map_values(|n: BlockNode| n@)
}

impl View for BlockTree {
    type V = Seq<NodeView>;

    closed spec fn view(&self) -> Seq<NodeView> {
        nodes_view(self.nodes@)
    }
}

/// Every inserted definition has a name.
pub open spec fn named_children(tree: Seq<NodeView>) -> bool {
    forall|i: int, j: int|
        0 <= i < tree.len() && 0 <= j < tree[i].children.len() ==> #[trigger] tree[i].children[j].name.len()
            > 0
}

/// The children listed under the first parent whose key equals `key`
/// ignoring ASCII case, from entry `from` on.
pub open spec fn children_from(tree: Seq<NodeView>, key: Seq<char>, from: int) -> Seq<ChildView>
    decreases tree.len() - from,
{
    if from < 0 || from >= tree.len() {
        seq![]
    } else if lower(tree[from].key) == lower(key) {
        tree[from].children
    } else {
        children_from(tree, key, from + 1)
    }
}

/// The definitions a parent inserts.
pub open spec fn children_of(tree: Seq<NodeView>, key: Seq<char>) -> Seq<ChildView> {
    children_from(tree, key, 0)
}

/// The lower-cased names of all inserted definitions, from entry `from` on.
pub open spec fn names_from(tree: Seq<NodeView>, from: int) -> Seq<Seq<char>>
    decreases tree.len() - from,
{
    if from < 0 || from >= tree.len() {
        seq![]
    } else {
        tree[from].children.map_values(|c: ChildView| lower(c.name)) + names_from(tree, from + 1)
    }
}

pub open spec fn all_names(tree: Seq<NodeView>) -> Seq<Seq<char>> {
    names_from(tree, 0)
}

/// How many entries of `names` are not among `seen`.
pub open spec fn unseen(names: Seq<Seq<char>>, seen: Seq<Seq<char>>) -> nat
    decreases names.len(),
{
    if names.len() == 0 {
        0
    } else {
        unseen(names.drop_last(), seen) + if seen.contains(names.last()) {
            0nat
        } else {
            1nat
        }
    }
}

pub open spec fn lowered(names: Seq<Seq<char>>) -> Seq<Seq<char>> {
    names.map_values(|n: Seq<char>| lower(n))
}

/// Whether `key` is on the path `ancestors`, ignoring ASCII case.
pub open spec fn on_path(ancestors: Seq<Seq<char>>, key: Seq<char>) -> bool {
    lowered(ancestors).contains(lower(key))
}

/// The path below `key`: `key` added, unless it is model space.
pub open spec fn path_below(ancestors: Seq<Seq<char>>, key: Seq<char>) -> Seq<Seq<char>> {
    if key.len() > 0 {
        ancestors.push(key)
    } else {
        ancestors
    }
}

/// Orders a walk: a definition that is inserted somewhere comes below one
/// that is not, which comes below model space.
pub open spec fn rank(tree: Seq<NodeView>, key: Seq<char>) -> nat {
    if key.len() == 0 {
        4
    } else if all_names(tree).contains(lower(key)) {
        0
    } else {
        2
    }
}

pub proof fn lemma_unseen_monotone(names: Seq<Seq<char>>, seen: Seq<Seq<char>>, k: Seq<char>)
    ensures
        unseen(names, seen.push(k)) <= unseen(names, seen),
        names.contains(k) && !seen.contains(k) ==> unseen(names, seen.push(k)) < unseen(
            names,
            seen,
        ),
    decreases names.len(),
{
    if names.len() > 0 {
        lemma_unseen_monotone(names.drop_last(), seen, k);
        assert(seen.push(k).contains(names.last()) <== seen.contains(names.last())) by {
            if seen.contains(names.last()) {
                let i = choose|i: int| 0 <= i < seen.len() && #[trigger] seen[i] == names.last();
                assert(seen.push(k)[i] == names.last());
            }
        }
        if names.contains(k) && !seen.contains(k) {
            if names.last() == k {
                assert(seen.push(k)[seen.len() as int] == k);
            } else {
                let i = choose|i: int| 0 <= i < names.len() && #[trigger] names[i] == k;
                assert(names.drop_last()[i] == k);
            }
        }
    }
}

pub proof fn lemma_children_named(tree: Seq<NodeView>, key: Seq<char>, from: int, j: int)
    requires
        0 <= from,
        0 <= j < children_from(tree, key, from).len(),
    ensures
        names_from(tree, from).contains(lower(children_from(tree, key, from)[j].name)),
    decreases tree.len() - from,
{
    if from < tree.len() {
        let here = tree[from].children.map_values(|c: ChildView| lower(c.name));
        if lower(tree[from].key) == lower(key) {
            assert((here + names_from(tree, from + 1))[j] == lower(tree[from].children[j].name));
        } else {
            lemma_children_named(tree, key, from + 1, j);
            let rest = names_from(tree, from + 1);
            let target = lower(children_from(tree, key, from + 1)[j].name);
            let k = choose|k: int| 0 <= k < rest.len() && #[trigger] rest[k] == target;
            assert((here + names_from(tree, from + 1))[here.len() + k] == names_from(
                tree,
                from + 1,
            )[k]);
        }
    }
}

pub proof fn lemma_path_below_shrinks(tree: Seq<NodeView>, key: Seq<char>, ancestors: Seq<Seq<char>>)
    requires
        !(key.len() > 0 && on_path(ancestors, key)),
    ensures
        unseen(all_names(tree), lowered(path_below(ancestors, key))) <= unseen(
            all_names(tree),
            lowered(ancestors),
        ),
        rank(tree, key) == 0 ==> unseen(all_names(tree), lowered(path_below(ancestors, key)))
            < unseen(all_names(tree), lowered(ancestors)),
{
    if key.len() > 0 {
        assert(lowered(ancestors.push(key)) =~= lowered(ancestors).push(lower(key)));
        lemma_unseen_monotone(all_names(tree), lowered(ancestors), lower(key));
    }
}

/// Whether the search `query` (already lower-cased) keeps the row `label`
/// whose children are listed under `key`: its label contains the query, or
/// a row below it does. An empty query keeps every row. A walk stops at a
/// definition already on its path.
pub open spec fn node_matches_spec(
    tree: Seq<NodeView>,
    label: Seq<char>,
    key: Seq<char>,
    query: Seq<char>,
    ancestors: Seq<Seq<char>>,
) -> bool
    decreases unseen(all_names(tree), lowered(ancestors)), rank(tree, key), 0nat,
{
    if query.len() == 0 || contains_text(lower(label), query) {
        true
    } else if key.len() > 0 && on_path(ancestors, key) {
        false
    } else {
        proof {
            lemma_path_below_shrinks(tree, key, ancestors);
        }
        any_child_matches(tree, key, 0, query, path_below(ancestors, key))
    }
}

/// Whether one of the children of `key`, from the one at `from` on, is
/// kept by the search.
pub open spec fn any_child_matches(
    tree: Seq<NodeView>,
    key: Seq<char>,
    from: int,
    query: Seq<char>,
    ancestors: Seq<Seq<char>>,
) -> bool
    decreases unseen(all_names(tree), lowered(ancestors)), 1nat, children_of(tree, key).len() - from,
{
    let children = children_of(tree, key);
    if from < 0 || from >= children.len() {
        false
    } else if children[from].name.len() == 0 {
        any_child_matches(tree, key, from + 1, query, ancestors)
    } else {
        proof {
            lemma_children_named(tree, key, 0, from);
        }
        node_matches_spec(tree, children[from].name, children[from].name, query, ancestors)
            || any_child_matches(tree, key, from + 1, query, ancestors)
    }
}

/// The plain value of a list of names.
pub open spec fn strings_view(names: Seq<String>) -> Seq<Seq<char>> {
    names.map_values(|s: String| s@)
}

/// The tree after adding `child` under `parent`: to the first entry whose
/// key equals `parent` ignoring ASCII case, or to a new entry at the end.
pub open spec fn with_child(tree: Seq<NodeView>, parent: Seq<char>, child: ChildView) -> Seq<
    NodeView,
> {
    let i = node_index(tree, parent, 0);
    if i < tree.len() {
        tree.update(
            i,
            NodeView { key: tree[i].key, children: tree[i].children.push(child) },
        )
    } else {
        tree.push(NodeView { key: parent, children: seq![child] })
    }
}

/// The index of the first entry from `from` on whose key equals `key`
/// ignoring ASCII case; the length of the tree when there is none.
pub open spec fn node_index(tree: Seq<NodeView>, key: Seq<char>, from: int) -> int
    decreases tree.len() - from,
{
    if from < 0 || from >= tree.len() {
        tree.len() as int
    } else if lower(tree[from].key) == lower(key) {
        from
    } else {
        node_index(tree, key, from + 1)
    }
}

pub proof fn lemma_node_index(tree: Seq<NodeView>, key: Seq<char>, from: int)
    requires
        0 <= from <= tree.len(),
    ensures
        from <= node_index(tree, key, from) <= tree.len(),
        node_index(tree, key, from) < tree.len() ==> lower(tree[node_index(tree, key, from)].key)
            == lower(key) && children_from(tree, key, from) == tree[node_index(
            tree,
            key,
            from,
        )].children,
        node_index(tree, key, from) == tree.len() ==> children_from(tree, key, from) == Seq::<
            ChildView,
        >::empty(),
        forall|k: int|
            from <= k < node_index(tree, key, from) ==> lower(#[trigger] tree[k].key) != lower(key),
    decreases tree.len() - from,
{
    if from < tree.len() && lower(tree[from].key) != lower(key) {
        lemma_node_index(tree, key, from + 1);
    }
}

/// Every definition the tree lists has a name: the tree starts empty and
/// `add_child` refuses an empty name.
pub proof fn lemma_children_stay_named(tree: Seq<NodeView>, parent: Seq<char>, child: ChildView)
    requires
        named_children(tree),
        child.name.len() > 0,
    ensures
        named_children(with_child(tree, parent, child)),
        named_children(Seq::<NodeView>::empty()),
{
    lemma_node_index(tree, parent, 0);
    let after = with_child(tree, parent, child);
    assert forall|i: int, j: int| 0 <= i < after.len() && 0 <= j < after[i].children.len() implies #[trigger] after[i].children[j].name.len() > 0 by {
        let k = node_index(tree, parent, 0);
        if i < tree.len() && i != k {
            assert(after[i] == tree[i]);
        }
    }
}

impl BlockTree {
    /// A tree with no entries.
    pub fn new() -> (tree: Self)
        ensures
            tree@ == Seq::<NodeView>::empty(),
    {
        let tree = BlockTree { nodes: Vec::new() };
        assert(tree@ =~= Seq::<NodeView>::empty());
        tree
    }

    fn find(&self, key: &str) -> (index: usize)
        ensures
            index == node_index(self@, key@, 0),
    {
        proof {
            lemma_node_index(self@, key@, 0);
        }
        let mut i: usize = 0;
        while i < self.nodes.len()
            invariant
                i <= self.nodes@.len(),
                node_index(self@, key@, 0) == node_index(self@, key@, i as int),
            decreases self.nodes@.len() - i,
        {
            assert(self@[i as int] == self.nodes@[i as int]@);
            if eq_ignore_case(self.nodes[i].key.as_str(), key) {
                return i;
            }
            i = i + 1;
        }
        i
    }

    /// Records that `parent` inserts the definition `name` `count` times.
    /// A definition needs a name: an empty one is refused (`false`).
    pub fn add_child(&mut self, parent: &str, name: &str, count: usize) -> (added: bool)
        ensures
            added == (name@.len() > 0),
            added ==> final(self)@ == with_child(
                old(self)@,
                parent@,
                ChildView { name: name@, count: count as nat },
            ),
            !added ==> final(self)@ == old(self)@,
    {
        if name.unicode_len() == 0 {
            return false;
        }
        let i = self.find(parent);
        let child = BlockChild { name: name.to_string(), count };
        if i < self.nodes.len() {
            let mut children: Vec<BlockChild> = Vec::new();
            let mut j: usize = 0;
            while j < self.nodes[i].children.len()
                invariant
                    i < self.nodes@.len(),
                    j <= self.nodes@[i as int].children@.len(),
                    children_view(children@) == children_view(
                        self.nodes@[i as int].children@,
                    ).take(j as int),
                decreases self.nodes@[i as int].children@.len() - j,
            {
                let c = &self.nodes[i].children[j];
                assert(children_view(self.nodes@[i as int].children@)[j as int] == c@);
                let copy = BlockChild { name: c.name.clone(), count: c.count };
                assert(copy@ == c@);
                let ghost before = children@;
                children.push(copy);
                assert(children@ =~= before.push(copy));
                assert(children_view(children@) =~= children_view(before).push(copy@));
                assert(children_view(self.nodes@[i as int].children@).take(j + 1) =~= children_view(
                    self.nodes@[i as int].children@,
                ).take(j as int).push(c@));
                assert(children_view(children@) =~= children_view(
                    self.nodes@[i as int].children@,
                ).take(j + 1));
                j = j + 1;
            }
            assert(children_view(self.nodes@[i as int].children@).take(j as int) =~= children_view(
                self.nodes@[i as int].children@,
            ));
            let ghost before = children_view(children@);
            children.push(child);
            assert(children_view(children@) =~= before.push(child@));
            let node = BlockNode { key: self.nodes[i].key.clone(), children };
            self.nodes.set(i, node);
        } else {
            let mut children: Vec<BlockChild> = Vec::new();
            children.push(child);
            assert(children_view(children@) =~= seq![child@]);
            self.nodes.push(BlockNode { key: parent.to_string(), children });
        }
        assert(self@ =~= with_child(
            old(self)@,
            parent@,
            ChildView { name: name@, count: count as nat },
        ));
        true
    }

    /// The definitions a parent (the empty key: model space) inserts.
    pub fn children_of(&self, key: &str) -> (children: &[BlockChild])
        ensures
            children_view(children@) == children_of(self@, key@),
    {
        proof {
            lemma_node_index(self@, key@, 0);
        }
        let i = self.find(key);
        if i < self.nodes.len() {
            assert(children_view(self.nodes@[i as int].children@) == self@[i as int].children);
            self.nodes[i].children.as_slice()
        } else {
            let none: &[BlockChild] = &[];
            assert(children_view(none@) =~= Seq::<ChildView>::empty());
            none
        }
    }
}

/// Whether `key` is on the path `ancestors`, ignoring ASCII case.
pub fn is_on_path(ancestors: &Vec<String>, key: &str) -> (found: bool)
    ensures
        found == on_path(strings_view(ancestors@), key@),
{
    let ghost names = strings_view(ancestors@);
    let mut i: usize = 0;
    while i < ancestors.len()
        invariant
            names == strings_view(ancestors@),
            i <= ancestors@.len(),
            forall|k: int| 0 <= k < i ==> lower(#[trigger] names[k]) != lower(key@),
        decreases ancestors@.len() - i,
    {
        if eq_ignore_case(ancestors[i].as_str(), key) {
            assert(lowered(names)[i as int] == lower(key@));
            return true;
        }
        i = i + 1;
    }
    assert forall|k: int| 0 <= k < lowered(names).len() implies lowered(names)[k] != lower(key@) by {
        assert(lower(names[k]) != lower(key@));
    }
    false
}

/// Whether the search `query` (already lower-cased) keeps the row `label`
/// whose children are listed under `key` (see `node_matches_spec`). The
/// path `ancestors` is handed back as it came.
pub fn node_matches(
    tree: &BlockTree,
    label: &str,
    key: &str,
    query: &str,
    ancestors: &mut Vec<String>,
) -> (found: bool)
    ensures
        found == node_matches_spec(tree@, label@, key@, query@, strings_view(old(ancestors)@)),
        strings_view(final(ancestors)@) == strings_view(old(ancestors)@),
    decreases unseen(all_names(tree@), lowered(strings_view(old(ancestors)@))), rank(tree@, key@),
{
    let ghost anc = strings_view(ancestors@);
    if query.unicode_len() == 0 {
        return true;
    }
    let label_lower = chars_of(lowercase(label).as_str());
    let query_chars = chars_of(query);
    if find_text(&label_lower, &query_chars) {
        return true;
    }
    let keyed = key.unicode_len() != 0;
    if keyed && is_on_path(ancestors, key) {
        return false;
    }
    if keyed {
        ancestors.push(key.to_string());
        assert(strings_view(ancestors@) =~= anc.push(key@));
    }
    proof {
        lemma_path_below_shrinks(tree@, key@, anc);
    }
    let children = tree.children_of(key);
    let mut found = false;
    let mut i: usize = 0;
    while i < children.len() && !found
        invariant
            children_view(children@) == children_of(tree@, key@),
            strings_view(ancestors@) == path_below(anc, key@),
            i <= children@.len(),
            found ==> any_child_matches(tree@, key@, 0, query@, path_below(anc, key@)),
            !found ==> any_child_matches(tree@, key@, 0, query@, path_below(anc, key@))
                == any_child_matches(tree@, key@, i as int, query@, path_below(anc, key@)),
            unseen(all_names(tree@), lowered(path_below(anc, key@))) <= unseen(
                all_names(tree@),
                lowered(anc),
            ),
            rank(tree@, key@) == 0 ==> unseen(all_names(tree@), lowered(path_below(anc, key@)))
                < unseen(all_names(tree@), lowered(anc)),
            anc == strings_view(old(ancestors)@),
        decreases children@.len() - i,
    {
        let child = &children[i];
        assert(children_of(tree@, key@)[i as int] == child@);
        if child.name.as_str().unicode_len() != 0 {
            proof {
                lemma_children_named(tree@, key@, 0, i as int);
            }
            if node_matches(tree, child.name.as_str(), child.name.as_str(), query, ancestors) {
                found = true;
            }
        }
        i = i + 1;
    }
    if keyed {
        let ghost full = ancestors@;
        ancestors.pop();
        assert(ancestors@ =~= full.drop_last());
        assert(strings_view(ancestors@) =~= strings_view(full).drop_last());
        assert(strings_view(ancestors@) =~= anc);
    }
    found
}

/// Whether a walk from `parent` reaches the definition `target` (which is
/// not model space), stopping at definitions already on the path.
pub open spec fn reaches(
    tree: Seq<NodeView>,
    target: Seq<char>,
    parent: Seq<char>,
    ancestors: Seq<Seq<char>>,
) -> bool
    decreases unseen(all_names(tree), lowered(ancestors)), rank(tree, parent), 0nat,
{
    if parent.len() > 0 && on_path(ancestors, parent) {
        false
    } else {
        proof {
            lemma_path_below_shrinks(tree, parent, ancestors);
        }
        (parent.len() > 0 && lower(parent) == lower(target)) || any_child_reaches(
            tree,
            target,
            parent,
            0,
            path_below(ancestors, parent),
        )
    }
}

/// Whether a walk from one of the children of `key` (from `from` on)
/// reaches `target`.
pub open spec fn any_child_reaches(
    tree: Seq<NodeView>,
    target: Seq<char>,
    key: Seq<char>,
    from: int,
    ancestors: Seq<Seq<char>>,
) -> bool
    decreases unseen(all_names(tree), lowered(ancestors)), 1nat, children_of(tree, key).len() - from,
{
    let children = children_of(tree, key);
    if from < 0 || from >= children.len() {
        false
    } else if children[from].name.len() == 0 {
        any_child_reaches(tree, target, key, from + 1, ancestors)
    } else {
        proof {
            lemma_children_named(tree, key, 0, from);
        }
        reaches(tree, target, children[from].name, ancestors) || any_child_reaches(
            tree,
            target,
            key,
            from + 1,
            ancestors,
        )
    }
}

/// The (lower-cased) rows to expand so that `target` shows: every parent,
/// from `parent` down, of a child whose walk reaches `target`.
pub open spec fn expansions(
    tree: Seq<NodeView>,
    target: Seq<char>,
    parent: Seq<char>,
    ancestors: Seq<Seq<char>>,
) -> Set<Seq<char>>
    decreases unseen(all_names(tree), lowered(ancestors)), rank(tree, parent), 0nat,
{
    if parent.len() > 0 && on_path(ancestors, parent) {
        Set::empty()
    } else {
        proof {
            lemma_path_below_shrinks(tree, parent, ancestors);
        }
        child_expansions(tree, target, parent, 0, path_below(ancestors, parent))
    }
}

/// The rows to expand for the children of `key`, from `from` on.
pub open spec fn child_expansions(
    tree: Seq<NodeView>,
    target: Seq<char>,
    key: Seq<char>,
    from: int,
    ancestors: Seq<Seq<char>>,
) -> Set<Seq<char>>
    decreases unseen(all_names(tree), lowered(ancestors)), 1nat, children_of(tree, key).len() - from,
{
    let children = children_of(tree, key);
    if from < 0 || from >= children.len() {
        Set::empty()
    } else if children[from].name.len() == 0 {
        child_expansions(tree, target, key, from + 1, ancestors)
    } else {
        proof {
            lemma_children_named(tree, key, 0, from);
        }
        let below = expansions(tree, target, children[from].name, ancestors);
        let here = if reaches(tree, target, children[from].name, ancestors) {
            below.insert(lower(key))
        } else {
            below
        };
        here.union(child_expansions(tree, target, key, from + 1, ancestors))
    }
}

/// A set of row keys, kept lower-cased.
#[derive(Debug)]
pub struct KeySet {
    keys: Vec<String>,
}

impl View for KeySet {
    type V = Set<Seq<char>>;

    closed spec fn view(&self) -> Set<Seq<char>> {
        strings_view(self.keys@).to_set()
    }
}

impl KeySet {
    pub fn new() -> (set: Self)
        ensures
            set@ == Set::<Seq<char>>::empty(),
    {
        let set = KeySet { keys: Vec::new() };
        assert(strings_view(set.keys@) =~= seq![]);
        assert(set@ =~= Set::<Seq<char>>::empty());
        set
    }

    fn position(&self, text: &str) -> (index: usize)
        ensures
            index <= self.keys@.len(),
            index < self.keys@.len() ==> self.keys@[index as int]@ == text@,
            index == self.keys@.len() ==> !self@.contains(text@),
    {
        let ghost key = text@;
        let mut i: usize = 0;
        while i < self.keys.len()
            invariant
                text@ == key,
                i <= self.keys@.len(),
                forall|k: int| 0 <= k < i ==> #[trigger] self.keys@[k]@ != key,
            decreases self.keys@.len() - i,
        {
            if crate::text::str_eq(self.keys[i].as_str(), text) {
                return i;
            }
            i = i + 1;
        }
        assert(!strings_view(self.keys@).contains(key)) by {
            if strings_view(self.keys@).contains(key) {
                let k = choose|k: int|
                    0 <= k < strings_view(self.keys@).len() && #[trigger] strings_view(
                        self.keys@,
                    )[k] == key;
                assert(self.keys@[k]@ == key);
            }
        }
        i
    }

    /// Whether the set holds `key` (given lower-cased).
    pub fn contains(&self, key: &str) -> (found: bool)
        ensures
            found == self@.contains(key@),
    {
        let i = self.position(key);
        if i < self.keys.len() {
            assert(strings_view(self.keys@)[i as int] == key@);
            true
        } else {
            false
        }
    }

    /// Adds `key`; says whether it was new.
    pub fn insert(&mut self, key: &str) -> (added: bool)
        ensures
            final(self)@ == old(self)@.insert(key@),
            added == !old(self)@.contains(key@),
    {
        let i = self.position(key);
        if i < self.keys.len() {
            assert(strings_view(self.keys@)[i as int] == key@);
            assert(self@.insert(key@) =~= self@);
            return false;
        }
        let ghost before = self.keys@;
        self.keys.push(key.to_string());
        assert(strings_view(self.keys@) =~= strings_view(before).push(key@));
        assert(self@ =~= old(self)@.insert(key@)) by {
            broadcast use vstd::seq_lib::group_seq_properties;
        }
        true
    }

    /// Removes `key`; says whether it was there.
    pub fn remove(&mut self, key: &str) -> (removed: bool)
        ensures
            final(self)@ == old(self)@.remove(key@),
            removed == old(self)@.contains(key@),
    {
        let ghost old_keys = strings_view(self.keys@);
        let mut kept: Vec<String> = Vec::new();
        let mut found = false;
        let mut i: usize = 0;
        while i < self.keys.len()
            invariant
                old_keys == strings_view(self.keys@),
                i <= self.keys@.len(),
                strings_view(kept@).to_set() == old_keys.take(i as int).to_set().remove(key@),
                found == old_keys.take(i as int).contains(key@),
            decreases self.keys@.len() - i,
        {
            let ghost before = kept@;
            let ghost prefix = old_keys.take(i as int);
            assert(old_keys.take(i + 1) =~= prefix.push(old_keys[i as int]));
            if crate::text::str_eq(self.keys[i].as_str(), key) {
                found = true;
                assert(old_keys.take(i + 1).to_set().remove(key@) =~= prefix.to_set().remove(
                    key@,
                )) by {
                    broadcast use vstd::seq_lib::group_seq_properties;
                }
            } else {
                kept.push(self.keys[i].clone());
                assert(strings_view(kept@) =~= strings_view(before).push(old_keys[i as int]));
                assert(old_keys.take(i + 1).to_set().remove(key@) =~= prefix.to_set().remove(
                    key@,
                ).insert(old_keys[i as int])) by {
                    broadcast use vstd::seq_lib::group_seq_properties;
                }
                assert(strings_view(kept@).to_set() =~= strings_view(before).to_set().insert(
                    old_keys[i as int],
                )) by {
                    broadcast use vstd::seq_lib::group_seq_properties;
                }
            }
            assert(old_keys.take(i + 1).contains(key@) == (prefix.contains(key@) || old_keys[i as int]
                == key@)) by {
                broadcast use vstd::seq_lib::group_seq_properties;
            }
            i = i + 1;
        }
        assert(old_keys.take(i as int) =~= old_keys);
        self.keys = kept;
        found
    }
}

/// Expands every row on a walk from `parent` to `target`, so that the
/// target shows; says whether `target` was reached. The path `ancestors`
/// is handed back as it came.
pub fn expand_paths_to(
    tree: &BlockTree,
    target: &str,
    parent: &str,
    ancestors: &mut Vec<String>,
    expanded: &mut KeySet,
) -> (found: bool)
    ensures
        found == reaches(tree@, target@, parent@, strings_view(old(ancestors)@)),
        final(expanded)@ == old(expanded)@.union(
            expansions(tree@, target@, parent@, strings_view(old(ancestors)@)),
        ),
        strings_view(final(ancestors)@) == strings_view(old(ancestors)@),
    decreases unseen(all_names(tree@), lowered(strings_view(old(ancestors)@))), rank(tree@, parent@),
{
    let ghost anc = strings_view(ancestors@);
    let keyed = parent.unicode_len() != 0;
    if keyed && is_on_path(ancestors, parent) {
        assert(old(expanded)@.union(Set::empty()) =~= old(expanded)@);
        return false;
    }
    let mut found = keyed && eq_ignore_case(parent, target);
    if keyed {
        ancestors.push(parent.to_string());
        assert(strings_view(ancestors@) =~= anc.push(parent@));
    }
    proof {
        lemma_path_below_shrinks(tree@, parent@, anc);
    }
    let parent_key = lowercase(parent);
    let children = tree.children_of(parent);
    let ghost below = path_below(anc, parent@);
    let mut i: usize = 0;
    while i < children.len()
        invariant
            children_view(children@) == children_of(tree@, parent@),
            strings_view(ancestors@) == below,
            below == path_below(anc, parent@),
            parent_key@ == lower(parent@),
            i <= children@.len(),
            ((parent@.len() > 0 && lower(parent@) == lower(target@)) || any_child_reaches(
                tree@,
                target@,
                parent@,
                0,
                below,
            )) == (found || any_child_reaches(tree@, target@, parent@, i as int, below)),
            old(expanded)@.union(child_expansions(tree@, target@, parent@, 0, below))
                == expanded@.union(child_expansions(tree@, target@, parent@, i as int, below)),
            unseen(all_names(tree@), lowered(below)) <= unseen(all_names(tree@), lowered(anc)),
            rank(tree@, parent@) == 0 ==> unseen(all_names(tree@), lowered(below)) < unseen(
                all_names(tree@),
                lowered(anc),
            ),
            anc == strings_view(old(ancestors)@),
        decreases children@.len() - i,
    {
        let child = &children[i];
        assert(children_of(tree@, parent@)[i as int] == child@);
        let ghost before = expanded@;
        if child.name.as_str().unicode_len() != 0 {
            proof {
                lemma_children_named(tree@, parent@, 0, i as int);
            }
            if expand_paths_to(tree, target, child.name.as_str(), ancestors, expanded) {
                expanded.insert(parent_key.as_str());
                found = true;
            }
            assert(before.union(child_expansions(tree@, target@, parent@, i as int, below))
                =~= expanded@.union(child_expansions(tree@, target@, parent@, i + 1, below)));
        }
        i = i + 1;
    }
    if keyed {
        let ghost full = ancestors@;
        ancestors.pop();
        assert(ancestors@ =~= full.drop_last());
        assert(strings_view(ancestors@) =~= strings_view(full).drop_last());
        assert(strings_view(ancestors@) =~= anc);
    }
    assert(old(expanded)@.union(child_expansions(tree@, target@, parent@, 0, below))
        =~= expanded@.union(Set::empty()));
    found
}

/// One visible row of the tree: a definition, how often its parent
/// inserts it, how many definitions are above it on its path (rows right
/// under model space are at level 0), and whether it closes a cycle.
#[derive(Debug, Clone, PartialEq, Eq)]
pub struct TreeRow {
    pub name: String,
    pub count: usize,
    pub level: usize,
    pub cyclic: bool,
}

/// The plain value of a row.
pub struct RowView {
    pub name: Seq<char>,
    pub count: nat,
    pub level: nat,
    pub cyclic: bool,
}

impl View for TreeRow {
    type V = RowView;

    open spec fn view(&self) -> RowView {
        RowView {
            name: self.name@,
            count: self.count as nat,
            level: self.level as nat,
            cyclic: self.cyclic,
        }
    }
}

pub open spec fn rows_view(rows: Seq<TreeRow>) -> Seq<RowView> {
    rows.map_values(|r: TreeRow| r@)
}

/// The visible rows below `parent`, from its child at `from` on: each
/// child the search keeps, followed (when it is expanded and does not close
/// a cycle) by the rows below it.
pub open spec fn child_rows(
    tree: Seq<NodeView>,
    expanded: Set<Seq<char>>,
    query: Seq<char>,
    parent: Seq<char>,
    from: int,
    ancestors: Seq<Seq<char>>,
) -> Seq<RowView>
    decreases unseen(all_names(tree), lowered(ancestors)), children_of(tree, parent).len() - from,
{
    let children = children_of(tree, parent);
    if from < 0 || from >= children.len() {
        seq![]
    } else if children[from].name.len() == 0 || (query.len() > 0 && !node_matches_spec(
        tree,
        children[from].name,
        children[from].name,
        query,
        ancestors,
    )) {
        child_rows(tree, expanded, query, parent, from + 1, ancestors)
    } else {
        let child = children[from];
        let cyclic = on_path(ancestors, child.name);
        let row = RowView {
            name: child.name,
            count: child.count,
            level: ancestors.len(),
            cyclic,
        };
        let below = if !cyclic && expanded.contains(lower(child.name)) {
            proof {
                lemma_children_named(tree, parent, 0, from);
                assert(lowered(ancestors.push(child.name)) =~= lowered(ancestors).push(
                    lower(child.name),
                ));
                lemma_unseen_monotone(all_names(tree), lowered(ancestors), lower(child.name));
            }
            child_rows(tree, expanded, query, child.name, 0, ancestors.push(child.name))
        } else {
            seq![]
        };
        seq![row] + below + child_rows(tree, expanded, query, parent, from + 1, ancestors)
    }
}

fn push_rows(
    tree: &BlockTree,
    expanded: &KeySet,
    query: &str,
    parent: &str,
    ancestors: &mut Vec<String>,
    rows: &mut Vec<TreeRow>,
)
    ensures
        rows_view(final(rows)@) == rows_view(old(rows)@) + child_rows(
            tree@,
            expanded@,
            query@,
            parent@,
            0,
            strings_view(old(ancestors)@),
        ),
        strings_view(final(ancestors)@) == strings_view(old(ancestors)@),
    decreases unseen(all_names(tree@), lowered(strings_view(old(ancestors)@))),
{
    let ghost anc = strings_view(ancestors@);
    let ghost start = rows_view(rows@);
    let children = tree.children_of(parent);
    let mut i: usize = 0;
    while i < children.len()
        invariant
            children_view(children@) == children_of(tree@, parent@),
            strings_view(ancestors@) == anc,
            anc == strings_view(old(ancestors)@),
            i <= children@.len(),
            rows_view(rows@) + child_rows(tree@, expanded@, query@, parent@, i as int, anc)
                == start + child_rows(tree@, expanded@, query@, parent@, 0, anc),
        decreases children@.len() - i,
    {
        let child = &children[i];
        assert(children_of(tree@, parent@)[i as int] == child@);
        let ghost rest = child_rows(tree@, expanded@, query@, parent@, i + 1, anc);
        let named = child.name.as_str().unicode_len() != 0;
        let kept = named && (query.unicode_len() == 0 || node_matches(
            tree,
            child.name.as_str(),
            child.name.as_str(),
            query,
            ancestors,
        ));
        if kept {
            let cyclic = is_on_path(ancestors, child.name.as_str());
            let row = TreeRow {
                name: child.name.clone(),
                count: child.count,
                level: ancestors.len(),
                cyclic,
            };
            let ghost before = rows_view(rows@);
            rows.push(row);
            assert(rows_view(rows@) =~= before.push(row@));
            let lower_name = lowercase(child.name.as_str());
            if !cyclic && expanded.contains(lower_name.as_str()) {
                proof {
                    lemma_children_named(tree@, parent@, 0, i as int);
                    assert(lowered(anc.push(child.name@)) =~= lowered(anc).push(lower(child.name@)));
                    lemma_unseen_monotone(all_names(tree@), lowered(anc), lower(child.name@));
                }
                ancestors.push(child.name.clone());
                assert(strings_view(ancestors@) =~= anc.push(child.name@));
                let ghost mid = rows_view(rows@);
                push_rows(tree, expanded, query, child.name.as_str(), ancestors, rows);
                let ghost full = ancestors@;
                ancestors.pop();
                assert(ancestors@ =~= full.drop_last());
                assert(strings_view(ancestors@) =~= strings_view(full).drop_last());
                assert(strings_view(ancestors@) =~= anc);
                assert(rows_view(rows@) + rest =~= before + child_rows(
                    tree@,
                    expanded@,
                    query@,
                    parent@,
                    i as int,
                    anc,
                ));
            } else {
                assert(rows_view(rows@) + rest =~= before + child_rows(
                    tree@,
                    expanded@,
                    query@,
                    parent@,
                    i as int,
                    anc,
                ));
            }
        }
        i = i + 1;
    }
    assert(rows_view(rows@) =~= rows_view(rows@) + Seq::<RowView>::empty());
}

/// The inline rename of one definition: its name, the edited text, and
/// whether the text is still to be selected as a whole.
#[derive(Debug, Clone)]
pub struct InlineRename {
    pub name: String,
    pub draft: String,
    pub select_all: bool,
}

/// The plain value of an inline rename.
pub struct RenameView {
    pub name: Seq<char>,
    pub draft: Seq<char>,
    pub select_all: bool,
}

impl View for InlineRename {
    type V = RenameView;

    open spec fn view(&self) -> RenameView {
        RenameView { name: self.name@, draft: self.draft@, select_all: self.select_all }
    }
}

/// Selection, expansion, search and rename draft of the Blocks tree.
#[derive(Debug)]
pub struct BlocksPanel {
    pub selected: Option<String>,
    pub error: Option<String>,
    expanded: KeySet,
    search: String,
    renaming: Option<InlineRename>,
}

pub open spec fn opt_view(s: Option<String>) -> Option<Seq<char>> {
    match s {
        Some(t) => Some(t@),
        None => None,
    }
}

/// The plain value of the panel.
pub struct PanelView {
    pub selected: Option<Seq<char>>,
    pub error: Option<Seq<char>>,
    pub expanded: Set<Seq<char>>,
    pub search: Seq<char>,
    pub renaming: Option<RenameView>,
}

impl View for BlocksPanel {
    type V = PanelView;

    closed spec fn view(&self) -> PanelView {
        PanelView {
            selected: opt_view(self.selected),
            error: opt_view(self.error),
            expanded: self.expanded@,
            search: self.search@,
            renaming: match self.renaming {
                Some(r) => Some(r@),
                None => None,
            },
        }
    }
}

impl Default for BlocksPanel {
    /// Nothing selected, nothing searched, model space expanded.
    fn default() -> (panel: Self)
        ensures
            panel@.selected is None,
            panel@.error is None,
            panel@.expanded == set![Seq::<char>::empty()],
            panel@.search == Seq::<char>::empty(),
            panel@.renaming is None,
    {
        let mut expanded = KeySet::new();
        expanded.insert(MODEL_KEY);
        let panel = BlocksPanel {
            selected: None,
            error: None,
            expanded,
            search: String::new(),
            renaming: None,
        };
        proof {
            reveal_strlit("");
        }
        assert(MODEL_KEY@ =~= Seq::<char>::empty());
        assert(panel@.expanded =~= set![Seq::<char>::empty()]);
        panel
    }
}

impl BlocksPanel {
    /// Whether the row of `key` is expanded.
    pub fn is_expanded(&self, key: &str) -> (open: bool)
        ensures
            open == self@.expanded.contains(lower(key@)),
    {
        let key = lowercase(key);
        self.expanded.contains(key.as_str())
    }

    /// Opens a closed row, closes an open one.
    pub fn toggle(&mut self, key: &str)
        ensures
            final(self)@.expanded == toggled(old(self)@.expanded, lower(key@)),
            final(self)@.selected == old(self)@.selected,
            final(self)@.error == old(self)@.error,
            final(self)@.search == old(self)@.search,
            final(self)@.renaming == old(self)@.renaming,
    {
        let key = lowercase(key);
        if !self.expanded.remove(key.as_str()) {
            self.expanded.insert(key.as_str());
        }
    }

    pub fn expand(&mut self, key: &str)
        ensures
            final(self)@.expanded == old(self)@.expanded.insert(lower(key@)),
            final(self)@.selected == old(self)@.selected,
            final(self)@.error == old(self)@.error,
            final(self)@.search == old(self)@.search,
            final(self)@.renaming == old(self)@.renaming,
    {
        let key = lowercase(key);
        self.expanded.insert(key.as_str());
    }

    /// The search text as typed.
    pub fn search(&self) -> (text: &str)
        ensures
            text@ == self@.search,
    {
        self.search.as_str()
    }

    pub fn set_search(&mut self, text: String)
        ensures
            final(self)@.search == text@,
            final(self)@.selected == old(self)@.selected,
            final(self)@.error == old(self)@.error,
            final(self)@.expanded == old(self)@.expanded,
            final(self)@.renaming == old(self)@.renaming,
    {
        self.search = text;
    }

    pub fn is_renaming(&self) -> (renaming: bool)
        ensures
            renaming == self@.renaming is Some,
    {
        self.renaming.is_some()
    }

    /// The rename in progress.
    pub fn renaming(&self) -> (renaming: Option<&InlineRename>)
        ensures
            match renaming {
                Some(r) => self@.renaming == Some(r@),
                None => self@.renaming is None,
            },
    {
        match &self.renaming {
            Some(r) => Some(r),
            None => None,
        }
    }

    pub fn cancel_rename(&mut self)
        ensures
            final(self)@.renaming is None,
            final(self)@.selected == old(self)@.selected,
            final(self)@.error == old(self)@.error,
            final(self)@.expanded == old(self)@.expanded,
            final(self)@.search == old(self)@.search,
    {
        self.renaming = None;
    }

    /// A definition was renamed elsewhere: a rename in progress of it
    /// follows the new name.
    pub fn retarget_rename(&mut self, from: &str, to: &str)
        ensures
            match old(self)@.renaming {
                Some(r) => final(self)@.renaming == Some(
                    if lower(r.name) == lower(from@) {
                        RenameView { name: to@, draft: r.draft, select_all: r.select_all }
                    } else {
                        r
                    },
                ),
                None => final(self)@.renaming is None,
            },
            final(self)@.selected == old(self)@.selected,
            final(self)@.error == old(self)@.error,
            final(self)@.expanded == old(self)@.expanded,
            final(self)@.search == old(self)@.search,
    {
        let mut current = None;
        std::mem::swap(&mut current, &mut self.renaming);
        match current {
            Some(r) => {
                if eq_ignore_case(r.name.as_str(), from) {
                    self.renaming = Some(
                        InlineRename { name: to.to_string(), draft: r.draft, select_all: r.select_all },
                    );
                } else {
                    self.renaming = Some(r);
                }
            },
            None => {},
        }
    }

    /// Starts renaming a definition inline: it becomes the selection, the
    /// draft starts as its name, fully selected, and any error is cleared.
    pub fn start_rename(&mut self, name: String)
        ensures
            final(self)@.selected == Some(name@),
            final(self)@.renaming == Some(RenameView { name: name@, draft: name@, select_all: true }),
            final(self)@.error is None,
            final(self)@.expanded == old(self)@.expanded,
            final(self)@.search == old(self)@.search,
    {
        self.selected = Some(name.clone());
        self.renaming = Some(InlineRename { draft: name.clone(), name, select_all: true });
        self.error = None;
    }

    /// Edits the rename draft; the whole-text selection is done once the
    /// editor has applied it.
    pub fn edit_draft(&mut self, draft: String, select_all: bool)
        ensures
            match old(self)@.renaming {
                Some(r) => final(self)@.renaming == Some(
                    RenameView { name: r.name, draft: draft@, select_all },
                ),
                None => final(self)@.renaming is None,
            },
            final(self)@.selected == old(self)@.selected,
            final(self)@.error == old(self)@.error,
            final(self)@.expanded == old(self)@.expanded,
            final(self)@.search == old(self)@.search,
    {
        let mut current = None;
        std::mem::swap(&mut current, &mut self.renaming);
        if let Some(r) = current {
            self.renaming = Some(InlineRename { name: r.name, draft, select_all });
        }
    }

    /// Selects a row (`None`: the model row) and clears any error.
    pub fn select(&mut self, name: Option<String>)
        ensures
            final(self)@.selected == opt_view(name),
            final(self)@.error is None,
            final(self)@.expanded == old(self)@.expanded,
            final(self)@.search == old(self)@.search,
            final(self)@.renaming == old(self)@.renaming,
    {
        self.selected = name;
        self.error = None;
    }

    /// The outcome of committing the rename: a refusal is shown and keeps
    /// the editor open; otherwise the editor closes and the error clears.
    pub fn finish_rename(&mut self, refusal: Option<String>)
        ensures
            match refusal {
                Some(message) => final(self)@.error == Some(message@) && final(self)@.renaming
                    == old(self)@.renaming,
                None => final(self)@.error is None && final(self)@.renaming is None,
            },
            final(self)@.selected == old(self)@.selected,
            final(self)@.expanded == old(self)@.expanded,
            final(self)@.search == old(self)@.search,
    {
        match refusal {
            Some(message) => {
                self.error = Some(message);
            },
            None => {
                self.renaming = None;
                self.error = None;
            },
        }
    }

    /// While a definition is edited in place (`edit_stack`, outermost
    /// first), model space, every definition on the stack, and every row on
    /// a walk to the innermost one are expanded.
    pub fn expand_active_edit_path(&mut self, tree: &BlockTree, edit_stack: &[String])
        ensures
            edit_stack@.len() == 0 ==> final(self)@ == old(self)@,
            edit_stack@.len() > 0 ==> final(self)@.expanded == old(self)@.expanded.insert(
                Seq::<char>::empty(),
            ).union(lowered(strings_view(edit_stack@)).to_set()).union(
                expansions(
                    tree@,
                    edit_stack@.last()@,
                    Seq::<char>::empty(),
                    Seq::<Seq<char>>::empty(),
                ),
            ),
            final(self)@.selected == old(self)@.selected,
            final(self)@.error == old(self)@.error,
            final(self)@.search == old(self)@.search,
            final(self)@.renaming == old(self)@.renaming,
    {
        if edit_stack.len() == 0 {
            return;
        }
        self.expand(MODEL_KEY);
        proof {
            reveal_strlit("");
        }
        assert(lower(MODEL_KEY@) =~= Seq::<char>::empty());
        let ghost base = self@.expanded;
        let mut i: usize = 0;
        while i < edit_stack.len()
            invariant
                i <= edit_stack@.len(),
                self@.expanded == base.union(lowered(strings_view(edit_stack@.take(i as int))).to_set()),
                self@.selected == old(self)@.selected,
                self@.error == old(self)@.error,
                self@.search == old(self)@.search,
                self@.renaming == old(self)@.renaming,
            decreases edit_stack@.len() - i,
        {
            self.expand(edit_stack[i].as_str());
            assert(lowered(strings_view(edit_stack@.take(i + 1))) =~= lowered(
                strings_view(edit_stack@.take(i as int)),
            ).push(lower(edit_stack@[i as int]@)));
            assert(self@.expanded =~= base.union(
                lowered(strings_view(edit_stack@.take(i + 1))).to_set(),
            )) by {
                broadcast use vstd::seq_lib::group_seq_properties;
            }
            i = i + 1;
        }
        assert(edit_stack@.take(i as int) =~= edit_stack@);
        let target = &edit_stack[edit_stack.len() - 1];
        assert(target@ == edit_stack@.last()@);
        let mut ancestors: Vec<String> = Vec::new();
        assert(strings_view(ancestors@) =~= Seq::<Seq<char>>::empty());
        let ghost mid = self@.expanded;
        proof {
            reveal_strlit("");
        }
        assert(MODEL_KEY@ =~= Seq::<char>::empty());
        expand_paths_to(tree, target.as_str(), MODEL_KEY, &mut ancestors, &mut self.expanded);
        assert(self@.expanded == mid.union(
            expansions(tree@, edit_stack@.last()@, Seq::<char>::empty(), Seq::<Seq<char>>::empty()),
        ));
    }

    /// Whether the model row shows under the current search.
    pub fn shows_model_row(&self, tree: &BlockTree) -> (shows: bool)
        ensures
            shows == node_matches_spec(
                tree@,
                "Model"@,
                Seq::<char>::empty(),
                crate::text::normalized(self@.search),
                Seq::<Seq<char>>::empty(),
            ),
    {
        let query_chars = crate::text::normalize(self.search.as_str());
        let query = crate::text::string_of(&query_chars, 0, query_chars.len());
        assert(query_chars@.subrange(0, query_chars@.len() as int) =~= query_chars@);
        let mut ancestors: Vec<String> = Vec::new();
        assert(strings_view(ancestors@) =~= Seq::<Seq<char>>::empty());
        proof {
            reveal_strlit("");
        }
        assert(MODEL_KEY@ =~= Seq::<char>::empty());
        node_matches(tree, "Model", MODEL_KEY, query.as_str(), &mut ancestors)
    }

    /// The rows under the model row, when it is expanded, for the current
    /// search (trimmed, ASCII lower-cased).
    pub fn visible_rows(&self, tree: &BlockTree) -> (rows: Vec<TreeRow>)
        ensures
            rows_view(rows@) == if self@.expanded.contains(Seq::<char>::empty()) {
                child_rows(
                    tree@,
                    self@.expanded,
                    crate::text::normalized(self@.search),
                    Seq::<char>::empty(),
                    0,
                    Seq::<Seq<char>>::empty(),
                )
            } else {
                Seq::<RowView>::empty()
            },
    {
        let mut rows: Vec<TreeRow> = Vec::new();
        assert(rows_view(rows@) =~= Seq::<RowView>::empty());
        proof {
            reveal_strlit("");
        }
        assert(MODEL_KEY@ =~= Seq::<char>::empty());
        if !self.expanded.contains(MODEL_KEY) {
            return rows;
        }
        let query_chars = crate::text::normalize(self.search.as_str());
        let query = crate::text::string_of(&query_chars, 0, query_chars.len());
        assert(query_chars@.subrange(0, query_chars@.len() as int) =~= query_chars@);
        let mut ancestors: Vec<String> = Vec::new();
        assert(strings_view(ancestors@) =~= Seq::<Seq<char>>::empty());
        push_rows(tree, &self.expanded, query.as_str(), MODEL_KEY, &mut ancestors, &mut rows);
        assert(rows_view(rows@) =~= Seq::<RowView>::empty() + child_rows(
            tree@,
            self@.expanded,
            crate::text::normalized(self@.search),
            Seq::<char>::empty(),
            0,
            Seq::<Seq<char>>::empty(),
        ));
        rows
    }
}

/// A set with `key` taken out when it is in, and put in otherwise.
pub open spec fn toggled(keys: Set<Seq<char>>, key: Seq<char>) -> Set<Seq<char>> {
    if keys.contains(key) {
        keys.remove(key)
    } else {
        keys.insert(key)
    }
}

/// Toggling a row twice leaves the expanded rows as they were.
pub proof fn lemma_toggle_twice(keys: Set<Seq<char>>, key: Seq<char>)
    ensures
        toggled(toggled(keys, key), key) == keys,
{
    assert(toggled(toggled(keys, key), key) =~= keys);
}

proof fn lemma_any_child_from(
    tree: Seq<NodeView>,
    key: Seq<char>,
    from: int,
    i: int,
    query: Seq<char>,
    ancestors: Seq<Seq<char>>,
)
    requires
        0 <= from <= i < children_of(tree, key).len(),
        children_of(tree, key)[i].name.len() > 0,
        node_matches_spec(
            tree,
            children_of(tree, key)[i].name,
            children_of(tree, key)[i].name,
            query,
            ancestors,
        ),
    ensures
        any_child_matches(tree, key, from, query, ancestors),
    decreases i - from,
{
    if from < i {
        lemma_any_child_from(tree, key, from + 1, i, query, ancestors);
    }
}

/// The search keeps a row when it keeps one of the rows below it: a
/// definition whose inserted definitions match stays visible, with the path
/// to the match.
pub proof fn lemma_search_keeps_ancestors(
    tree: Seq<NodeView>,
    label: Seq<char>,
    key: Seq<char>,
    query: Seq<char>,
    ancestors: Seq<Seq<char>>,
    i: int,
)
    requires
        !(key.len() > 0 && on_path(ancestors, key)),
        0 <= i < children_of(tree, key).len(),
        children_of(tree, key)[i].name.len() > 0,
        node_matches_spec(
            tree,
            children_of(tree, key)[i].name,
            children_of(tree, key)[i].name,
            query,
            path_below(ancestors, key),
        ),
    ensures
        node_matches_spec(tree, label, key, query, ancestors),
{
    lemma_any_child_from(tree, key, 0, i, query, path_below(ancestors, key));
}

} // verus!
