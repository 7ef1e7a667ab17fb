//! Dynamic-block authoring: how a reference becomes dynamic, which point
//! authoring waits for, and names for new parameters.

use crate::text::{decimal, decimal_string, str_eq};
use vstd::prelude::*;

verus! {

/// How a reference becomes dynamic: on its own copy of the definition, or
/// on the shared definition.
#[derive(Debug, Clone, Copy, PartialEq, Eq, Structural)]
pub enum ConvertMode {
    Unique,
    Shared,
}

/// Which point dynamic-block authoring waits for.
#[derive(Debug, Clone, Copy, PartialEq, Eq, Structural)]
pub enum AuthoringPick {
    Idle,
    DirectionStart,
    DirectionEnd,
}

/// The state of the convert dialog after a frame.
#[derive(Debug, Clone, Copy, PartialEq, Eq, Structural)]
pub enum ConvertDialogResult {
    Open,
    Cancel,
    Continue(ConvertMode),
}

/// The name `base`, or `base` followed by an index.
pub open spec fn numbered(base: Seq<char>, index: nat) -> Seq<char> {
    base + " "@ + decimal(index)
}

pub open spec fn taken(existing: Seq<Seq<char>>, name: Seq<char>) -> bool {
    existing.contains(name)
}

/// The first index from `from` (below 1000) whose numbered name is free.
pub open spec fn first_free(existing: Seq<Seq<char>>, base: Seq<char>, from: nat) -> Option<nat>
    decreases 1000 - from,
{
    if from >= 1000 {
        None
    } else if !taken(existing, numbered(base, from)) {
        Some(from)
    } else {
        first_free(existing, base, from + 1)
    }
}

/// The name a new parameter gets: `base` when it is free, else `base 2`,
/// `base 3`, … (below 1000), else `base new`.
pub open spec fn fresh_name(existing: Option<Seq<Seq<char>>>, base: Seq<char>) -> Seq<char> {
    match existing {
        None => base,
        Some(names) => if !taken(names, base) {
            base
        } else {
            match first_free(names, base, 2) {
                Some(i) => numbered(base, i),
                None => base + " new"@,
            }
        },
    }
}

fn is_taken(existing: &[String], name: &str) -> (found: bool)
    ensures
        found == taken(existing@.map_values(|s: String| s@), name@),
{
    let ghost names = existing@.map_values(|s: String| s@);
    let mut i: usize = 0;
    while i < existing.len()
        invariant
            names == existing@.map_values(|s: String| s@),
            i <= existing@.len(),
            forall|k: int| 0 <= k < i ==> #[trigger] names[k] != name@,
        decreases existing@.len() - i,
    {
        if str_eq(existing[i].as_str(), name) {
            assert(names[i as int] == name@);
            return true;
        }
        i = i + 1;
    }
    false
}

/// A parameter name not yet used by the definition (`existing` holds the
/// names of its parameters; `None` when the block is not dynamic yet).
pub fn unique_parameter_name(existing: Option<&[String]>, base: &str) -> (name: String)
    ensures
        name@ == fresh_name(
            match existing {
                Some(e) => Some(e@.map_values(|s: String| s@)),
                None => None,
            },
            base@,
        ),
{
    let names = match existing {
        None => {
            return base.to_string();
        },
        Some(names) => names,
    };
    let ghost view = names@.map_values(|s: String| s@);
    if !is_taken(names, base) {
        return base.to_string();
    }
    let mut index: u64 = 2;
    while index < 1000
        invariant
            2 <= index <= 1000,
            view == names@.map_values(|s: String| s@),
            taken(view, base@),
            existing == Some(names),
            first_free(view, base@, 2) == first_free(view, base@, index as nat),
        decreases 1000 - index,
    {
        let mut candidate = base.to_string();
        candidate.append(" ");
        let number = decimal_string(index);
        candidate.append(number.as_str());
        assert(candidate@ == numbered(base@, index as nat));
        if !is_taken(names, candidate.as_str()) {
            assert(first_free(view, base@, index as nat) == Some(index as nat));
            return candidate;
        }
        index = index + 1;
    }
    let mut fallback = base.to_string();
    fallback.append(" new");
    fallback
}

} // verus!
