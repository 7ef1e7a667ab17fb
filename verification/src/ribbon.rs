//! The adaptive ribbon: its commands and groups, and which commands fold
//! into a group's overflow menu when the row is too narrow.
//!
//! Measuring text and comparing widths are floating-point work done by the
//! caller; packing asks it, through a closure, whether a set of hidden
//! commands makes the ribbon fit.

use vstd::prelude::*;

verus! {

/// Discrete height breakpoint of the ribbon chrome.
#[derive(Debug, Clone, Copy, PartialEq, Eq, Structural)]
pub enum RibbonDensity {
    Micro,
    Compact,
}

/// One ribbon command.
#[derive(Debug, Clone, Copy)]
pub struct RibbonCommand {
    pub id: &'static str,
    pub label: &'static str,
    pub short_label: &'static str,
    pub icon: &'static str,
    pub tooltip: &'static str,
    pub priority: u8,
    pub enabled: bool,
    pub active: bool,
}

/// A named set of commands that collapses into one overflow menu.
#[derive(Debug, Clone)]
pub struct RibbonGroup {
    pub id: &'static str,
    pub name: &'static str,
    pub commands: Vec<RibbonCommand>,
}

/// What the ribbon asked for.
#[derive(Debug, Clone, PartialEq)]
pub enum RibbonAction {
    Command(&'static str),
    SetLayer(String),
    SetSelectedLayerCurrent,
}

/// The commands of a group that show, and those in its overflow menu, by
/// index, in order.
#[derive(Debug, Clone, PartialEq, Eq)]
pub struct PackedGroup {
    pub visible: Vec<usize>,
    pub overflow: Vec<usize>,
}

/// The label a command shows: the short one in the micro density.
pub fn command_label(command: &RibbonCommand, density: RibbonDensity) -> (label: &'static str)
    ensures
        label == if density == RibbonDensity::Micro {
            command.short_label
        } else {
            command.label
        },
{
    if density == RibbonDensity::Micro {
        command.short_label
    } else {
        command.label
    }
}

/// The caption of a group's overflow menu.
pub fn overflow_caption(name: &str) -> (caption: String)
    ensures
        caption@ == name@ + " ▾"@,
{
    let mut caption = name.to_string();
    caption.append(" ▾");
    caption
}

/// The plain value of the hidden flags, group by group.
pub open spec fn flags_view(hidden: Seq<Vec<bool>>) -> Seq<Seq<bool>> {
    hidden.map_values(|row: Vec<bool>| row@)
}

/// The plain value of the priorities, group by group.
pub open spec fn priorities_view(priorities: Seq<Vec<u8>>) -> Seq<Seq<u8>> {
    priorities.map_values(|row: Vec<u8>| row@)
}

/// Whether `hidden` has the shape of `priorities`.
pub open spec fn same_shape(priorities: Seq<Seq<u8>>, hidden: Seq<Seq<bool>>) -> bool {
    hidden.len() == priorities.len() && forall|g: int|
        0 <= g < priorities.len() ==> #[trigger] hidden[g].len() == priorities[g].len()
}

/// Whether command `(g, c)` exists.
pub open spec fn is_command(priorities: Seq<Seq<u8>>, g: int, c: int) -> bool {
    0 <= g < priorities.len() && 0 <= c < priorities[g].len()
}

/// Commands fold in order of falling priority, then falling group index,
/// then falling command index: whether `(g1, c1)` folds before `(g2, c2)`.
pub open spec fn folds_before(priorities: Seq<Seq<u8>>, g1: int, c1: int, g2: int, c2: int) -> bool {
    let p1 = priorities[g1][c1];
    let p2 = priorities[g2][c2];
    p1 > p2 || (p1 == p2 && (g1 > g2 || (g1 == g2 && c1 > c2)))
}

/// Whether every hidden command folds before every shown one.
pub open spec fn folded_in_order(priorities: Seq<Seq<u8>>, hidden: Seq<Seq<bool>>) -> bool {
    forall|g1: int, c1: int, g2: int, c2: int|
        is_command(priorities, g1, c1) && is_command(priorities, g2, c2) && #[trigger] hidden[g1][c1]
            && !#[trigger] hidden[g2][c2] ==> folds_before(priorities, g1, c1, g2, c2)
}

/// Whether every command is hidden.
pub open spec fn all_hidden(priorities: Seq<Seq<u8>>, hidden: Seq<Seq<bool>>) -> bool {
    forall|g: int, c: int| #[trigger] is_command(priorities, g, c) ==> hidden[g][c]
}

/// The next command to fold: the shown one that folds first.
pub open spec fn is_next_victim(
    priorities: Seq<Seq<u8>>,
    hidden: Seq<Seq<bool>>,
    g: int,
    c: int,
) -> bool {
    &&& is_command(priorities, g, c)
    &&& !hidden[g][c]
    &&& forall|g2: int, c2: int|
        is_command(priorities, g2, c2) && !#[trigger] hidden[g2][c2] && (g2 != g || c2 != c)
            ==> folds_before(priorities, g, c, g2, c2)
}

/// The shown command that folds first, if any is shown.
pub fn next_hide_victim(priorities: &Vec<Vec<u8>>, hidden: &Vec<Vec<bool>>) -> (victim: Option<
    (usize, usize),
>)
    requires
        same_shape(priorities_view(priorities@), flags_view(hidden@)),
    ensures
        match victim {
            Some((g, c)) => is_next_victim(
                priorities_view(priorities@),
                flags_view(hidden@),
                g as int,
                c as int,
            ),
            None => all_hidden(priorities_view(priorities@), flags_view(hidden@)),
        },
{
    let ghost pr = priorities_view(priorities@);
    let ghost hd = flags_view(hidden@);
    let mut best: Option<(usize, usize)> = None;
    let mut g: usize = 0;
    while g < priorities.len()
        invariant
            pr == priorities_view(priorities@),
            hd == flags_view(hidden@),
            same_shape(pr, hd),
            g <= pr.len(),
            match best {
                Some((bg, bc)) => {
                    &&& is_command(pr, bg as int, bc as int)
                    &&& bg < g
                    &&& !hd[bg as int][bc as int]
                    &&& forall|g2: int, c2: int|
                        0 <= g2 < g && is_command(pr, g2, c2) && !#[trigger] hd[g2][c2] && (g2
                            != bg || c2 != bc) ==> folds_before(pr, bg as int, bc as int, g2, c2)
                },
                None => forall|g2: int, c2: int|
                    0 <= g2 < g && #[trigger] is_command(pr, g2, c2) ==> hd[g2][c2],
            },
        decreases pr.len() - g,
    {
        let row = &priorities[g];
        let flags = &hidden[g];
        assert(pr[g as int] == row@);
        assert(hd[g as int] == flags@);
        let mut c: usize = 0;
        while c < row.len()
            invariant
                pr == priorities_view(priorities@),
                hd == flags_view(hidden@),
                same_shape(pr, hd),
                g < pr.len(),
                pr[g as int] == row@,
                hd[g as int] == flags@,
                c <= row@.len(),
                match best {
                    Some((bg, bc)) => {
                        &&& is_command(pr, bg as int, bc as int)
                        &&& bg <= g
                        &&& (bg == g ==> bc < c)
                        &&& !hd[bg as int][bc as int]
                        &&& forall|g2: int, c2: int|
                            (0 <= g2 < g || (g2 == g && 0 <= c2 < c)) && is_command(pr, g2, c2)
                                && !#[trigger] hd[g2][c2] && (g2 != bg || c2 != bc)
                                ==> folds_before(pr, bg as int, bc as int, g2, c2)
                    },
                    None => forall|g2: int, c2: int|
                        (0 <= g2 < g || (g2 == g && 0 <= c2 < c)) && #[trigger] is_command(
                            pr,
                            g2,
                            c2,
                        ) ==> hd[g2][c2],
                },
            decreases row@.len() - c,
        {
            if !flags[c] {
                let better = match best {
                    None => true,
                    Some((bg, bc)) => {
                        let p = row[c];
                        let q = priorities[bg][bc];
                        assert(pr[bg as int][bc as int] == q);
                        p >= q
                    },
                };
                if better {
                    best = Some((g, c));
                }
            }
            c = c + 1;
        }
        g = g + 1;
    }
    best
}

/// The packed groups for a set of hidden flags: each group's shown and
/// folded command indices, in order.
pub open spec fn indices_where(flags: Seq<bool>, value: bool, upto: int) -> Seq<usize>
    decreases upto,
{
    if upto <= 0 {
        seq![]
    } else if flags[upto - 1] == value {
        indices_where(flags, value, upto - 1).push((upto - 1) as usize)
    } else {
        indices_where(flags, value, upto - 1)
    }
}

/// The plain value of a packed group.
pub struct PackedView {
    pub visible: Seq<usize>,
    pub overflow: Seq<usize>,
}

impl View for PackedGroup {
    type V = PackedView;

    open spec fn view(&self) -> PackedView {
        PackedView { visible: self.visible@, overflow: self.overflow@ }
    }
}

pub open spec fn packed_of(flags: Seq<bool>) -> PackedView {
    PackedView {
        visible: indices_where(flags, false, flags.len() as int),
        overflow: indices_where(flags, true, flags.len() as int),
    }
}

fn pack_flags(flags: &Vec<bool>) -> (packed: PackedGroup)
    ensures
        packed@ == packed_of(flags@),
{
    let mut visible: Vec<usize> = Vec::new();
    let mut overflow: Vec<usize> = Vec::new();
    let mut i: usize = 0;
    while i < flags.len()
        invariant
            i <= flags@.len(),
            visible@ == indices_where(flags@, false, i as int),
            overflow@ == indices_where(flags@, true, i as int),
        decreases flags@.len() - i,
    {
        if flags[i] {
            overflow.push(i);
        } else {
            visible.push(i);
        }
        i = i + 1;
    }
    PackedGroup { visible, overflow }
}

fn unfolded(priorities: &Vec<Vec<u8>>) -> (hidden: Vec<Vec<bool>>)
    ensures
        same_shape(priorities_view(priorities@), flags_view(hidden@)),
        forall|g: int, c: int|
            #[trigger] is_command(priorities_view(priorities@), g, c) ==> !flags_view(hidden@)[g][c],
{
    let mut hidden: Vec<Vec<bool>> = Vec::new();
    let mut g: usize = 0;
    while g < priorities.len()
        invariant
            g <= priorities@.len(),
            hidden@.len() == g,
            forall|k: int| 0 <= k < g ==> #[trigger] hidden@[k]@.len() == priorities@[k]@.len(),
            forall|k: int, c: int|
                0 <= k < g && 0 <= c < hidden@[k]@.len() ==> !#[trigger] hidden@[k]@[c],
        decreases priorities@.len() - g,
    {
        let mut row: Vec<bool> = Vec::new();
        let mut c: usize = 0;
        while c < priorities[g].len()
            invariant
                g < priorities@.len(),
                c <= priorities@[g as int]@.len(),
                row@.len() == c,
                forall|k: int| 0 <= k < c ==> !#[trigger] row@[k],
            decreases priorities@[g as int]@.len() - c,
        {
            row.push(false);
            c = c + 1;
        }
        hidden.push(row);
        g = g + 1;
    }
    hidden
}

/// The flags with command `(g, c)` hidden.
fn fold(hidden: &mut Vec<Vec<bool>>, g: usize, c: usize)
    requires
        g < old(hidden)@.len(),
        c < old(hidden)@[g as int]@.len(),
    ensures
        flags_view(final(hidden)@) == flags_view(old(hidden)@).update(
            g as int,
            flags_view(old(hidden)@)[g as int].update(c as int, true),
        ),
{
    let mut row: Vec<bool> = Vec::new();
    let mut i: usize = 0;
    while i < hidden[g].len()
        invariant
            g < hidden@.len(),
            i <= hidden@[g as int]@.len(),
            row@ == hidden@[g as int]@.take(i as int),
        decreases hidden@[g as int]@.len() - i,
    {
        row.push(hidden[g][i]);
        assert(hidden@[g as int]@.take(i + 1) =~= hidden@[g as int]@.take(i as int).push(
            hidden@[g as int]@[i as int],
        ));
        i = i + 1;
    }
    assert(hidden@[g as int]@.take(i as int) =~= hidden@[g as int]@);
    row.set(c, true);
    hidden.set(g, row);
    assert(flags_view(hidden@) =~= flags_view(old(hidden)@).update(
        g as int,
        flags_view(old(hidden)@)[g as int].update(c as int, true),
    ));
}

/// How many commands are shown.
pub open spec fn shown_count(hidden: Seq<Seq<bool>>) -> nat
    decreases hidden.len(),
{
    if hidden.len() == 0 {
        0
    } else {
        shown_count(hidden.drop_last()) + hidden.last().filter(|f: bool| !f).len()
    }
}

proof fn lemma_fold_shrinks(hidden: Seq<Seq<bool>>, g: int, c: int)
    requires
        0 <= g < hidden.len(),
        0 <= c < hidden[g].len(),
        !hidden[g][c],
    ensures
        shown_count(hidden.update(g, hidden[g].update(c, true))) == shown_count(hidden) - 1,
    decreases hidden.len(),
{
    let h2 = hidden.update(g, hidden[g].update(c, true));
    if g == hidden.len() - 1 {
        assert(h2.drop_last() =~= hidden.drop_last());
        lemma_filter_update(hidden[g], c);
    } else {
        assert(h2.drop_last() =~= hidden.drop_last().update(g, hidden[g].update(c, true)));
        lemma_fold_shrinks(hidden.drop_last(), g, c);
        assert(h2.last() == hidden.last());
    }
}

proof fn lemma_filter_update(flags: Seq<bool>, c: int)
    requires
        0 <= c < flags.len(),
        !flags[c],
    ensures
        flags.update(c, true).filter(|f: bool| !f).len() == flags.filter(|f: bool| !f).len() - 1,
    decreases flags.len(),
{
    let f2 = flags.update(c, true);
    reveal(Seq::filter);
    if c == flags.len() - 1 {
        assert(f2.drop_last() =~= flags.drop_last());
    } else {
        assert(f2.drop_last() =~= flags.drop_last().update(c, true));
        lemma_filter_update(flags.drop_last(), c);
    }
}

/// Whether `after` is `before` with the shown command `(g, c)`, the next
/// victim, folded.
pub open spec fn one_more_folded(
    priorities: Seq<Seq<u8>>,
    before: Seq<Seq<bool>>,
    after: Seq<Seq<bool>>,
    g: int,
    c: int,
) -> bool {
    &&& is_next_victim(priorities, before, g, c)
    &&& after == before.update(g, before[g].update(c, true))
}

/// Whether no command is hidden.
pub open spec fn none_hidden(priorities: Seq<Seq<u8>>, hidden: Seq<Seq<bool>>) -> bool {
    forall|g: int, c: int| #[trigger] is_command(priorities, g, c) ==> !hidden[g][c]
}

/// `after` is `before` with its next victim folded.
pub open spec fn folds_step(priorities: Seq<Seq<u8>>, before: Seq<Seq<bool>>, after: Seq<Seq<bool>>) -> bool {
    exists|g: int, c: int| one_more_folded(priorities, before, after, g, c)
}

/// The fold order from the unfolded ribbon: each set of hidden flags is the
/// one before with the next victim folded.
pub open spec fn fold_chain(priorities: Seq<Seq<u8>>, states: Seq<Seq<Seq<bool>>>) -> bool {
    &&& states.len() > 0
    &&& same_shape(priorities, states[0])
    &&& none_hidden(priorities, states[0])
    &&& forall|i: int|
        0 <= i < states.len() - 1 ==> #[trigger] folds_step(priorities, states[i], states[i + 1])
}

/// State `i` hides exactly `i` commands, and they fold before every shown
/// one: it is the first `i` commands of the fold order.
pub open spec fn prefix_states(priorities: Seq<Seq<u8>>, states: Seq<Seq<Seq<bool>>>) -> bool {
    forall|i: int|
        0 <= i < states.len() ==> (#[trigger] shown_count(states[i]) == shown_count(states[0]) - i
            && folded_in_order(priorities, states[i]))
}

/// The plain values of a sequence of hidden-flag sets.
pub open spec fn states_view(states: Seq<Vec<Vec<bool>>>) -> Seq<Seq<Seq<bool>>> {
    states.map_values(|h: Vec<Vec<bool>>| flags_view(h@))
}

/// Packs the ribbon: commands fold into their group's overflow menu one by
/// one, in the order of `folds_before`, until `fits` says the ribbon fits
/// (or every command is folded). `fits` is asked about the hidden flags,
/// group by group. The states asked run along the fold order from the
/// unfolded ribbon; every state before the last was refused, so no fewer
/// folds along that order fit.
pub fn pack_ribbon<F: Fn(&Vec<Vec<bool>>) -> bool>(priorities: &Vec<Vec<u8>>, fits: F) -> (packed:
    Vec<PackedGroup>)
    requires
        forall|h: &Vec<Vec<bool>>| #[trigger] fits.requires((h,)),
    ensures
        packed@.len() == priorities@.len(),
        exists|asked: Seq<Vec<Vec<bool>>>|
            {
                &&& fold_chain(priorities_view(priorities@), states_view(asked))
                &&& prefix_states(priorities_view(priorities@), states_view(asked))
                &&& forall|i: int|
                    #![trigger asked[i]]
                    0 <= i < asked.len() - 1 ==> fits.ensures((&asked[i],), false)
                &&& fits.ensures((&asked.last(),), true) || all_hidden(
                    priorities_view(priorities@),
                    flags_view(asked.last()@),
                )
                &&& folded_in_order(priorities_view(priorities@), flags_view(asked.last()@))
                &&& forall|g: int|
                    0 <= g < priorities@.len() ==> #[trigger] packed@[g]@ == packed_of(
                        flags_view(asked.last()@)[g],
                    )
            },
{
    let ghost pr = priorities_view(priorities@);
    let mut hidden = unfolded(priorities);
    let ghost mut asked: Seq<Vec<Vec<bool>>> = seq![hidden];
    proof {
        assert(states_view(asked) =~= seq![flags_view(hidden@)]);
        assert(folded_in_order(pr, flags_view(hidden@)));
    }
    loop
        invariant_except_break
            pr == priorities_view(priorities@),
            same_shape(pr, flags_view(hidden@)),
            folded_in_order(pr, flags_view(hidden@)),
            forall|h: &Vec<Vec<bool>>| #[trigger] fits.requires((h,)),
            asked.len() > 0,
            asked.last() == hidden,
            fold_chain(pr, states_view(asked)),
            prefix_states(pr, states_view(asked)),
            forall|i: int|
                #![trigger asked[i]]
                0 <= i < asked.len() - 1 ==> fits.ensures((&asked[i],), false),
        ensures
            same_shape(pr, flags_view(hidden@)),
            folded_in_order(pr, flags_view(hidden@)),
            fits.ensures((&hidden,), true) || all_hidden(pr, flags_view(hidden@)),
            asked.len() > 0,
            asked.last() == hidden,
            fold_chain(pr, states_view(asked)),
            prefix_states(pr, states_view(asked)),
            forall|i: int|
                #![trigger asked[i]]
                0 <= i < asked.len() - 1 ==> fits.ensures((&asked[i],), false),
        decreases shown_count(flags_view(hidden@)),
    {
        if fits(&hidden) {
            break;
        }
        match next_hide_victim(priorities, &hidden) {
            None => {
                break;
            },
            Some((g, c)) => {
                let ghost before = flags_view(hidden@);
                let ghost old_asked = asked;
                assert(before[g as int].len() == pr[g as int].len());
                fold(&mut hidden, g, c);
                proof {
                    lemma_fold_shrinks(before, g as int, c as int);
                    let after = flags_view(hidden@);
                    assert forall|g1: int, c1: int, g2: int, c2: int|
                        is_command(pr, g1, c1) && is_command(pr, g2, c2) && #[trigger] after[g1][c1]
                            && !#[trigger] after[g2][c2] implies folds_before(pr, g1, c1, g2, c2) by {
                        if g1 == g && c1 == c {
                            assert(!before[g2][c2]);
                        } else {
                            assert(before[g1][c1]);
                            assert(!before[g2][c2]);
                        }
                    }
                    assert(same_shape(pr, after));
                    assert(one_more_folded(pr, before, after, g as int, c as int));
                    assert(folds_step(pr, before, after));
                    asked = old_asked.push(hidden);
                    assert(states_view(asked) =~= states_view(old_asked).push(after));
                    assert(states_view(old_asked).last() == before);
                    let sv = states_view(asked);
                    assert forall|i: int| 0 <= i < sv.len() - 1 implies #[trigger] folds_step(
                        pr,
                        sv[i],
                        sv[i + 1],
                    ) by {
                        if i < sv.len() - 2 {
                            assert(sv[i] == states_view(old_asked)[i]);
                            assert(sv[i + 1] == states_view(old_asked)[i + 1]);
                        }
                    }
                    assert forall|i: int| 0 <= i < sv.len() implies #[trigger] shown_count(sv[i])
                        == shown_count(sv[0]) - i && folded_in_order(pr, sv[i]) by {
                        if i < sv.len() - 1 {
                            assert(sv[i] == states_view(old_asked)[i]);
                        }
                    }
                    assert(prefix_states(pr, sv));
                    assert forall|i: int|
                        #![trigger asked[i]]
                        0 <= i < asked.len() - 1 implies fits.ensures((&asked[i],), false) by {
                        if i < asked.len() - 2 {
                            assert(asked[i] == old_asked[i]);
                        }
                    }
                }
            },
        }
    }
    let mut packed: Vec<PackedGroup> = Vec::new();
    let mut g: usize = 0;
    while g < hidden.len()
        invariant
            g <= hidden@.len(),
            hidden@.len() == priorities@.len(),
            packed@.len() == g,
            forall|k: int| 0 <= k < g ==> #[trigger] packed@[k]@ == packed_of(flags_view(hidden@)[k]),
        decreases hidden@.len() - g,
    {
        packed.push(pack_flags(&hidden[g]));
        g = g + 1;
    }
    packed
}

} // verus!
