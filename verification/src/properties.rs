//! Text shown by the read-only inspector of the current selection.

use crate::text::{chars_of, push_char, str_eq};
use vstd::prelude::*;

verus! {

pub open spec fn yes_no_text(value: bool) -> Seq<char> {
    if value {
        "Yes"@
    } else {
        "No"@
    }
}

pub fn yes_no(value: bool) -> (text: String)
    ensures
        text@ == yes_no_text(value),
{
    if value {
        "Yes".to_string()
    } else {
        "No".to_string()
    }
}

/// A line break becomes a space.
pub open spec fn one_line(c: char) -> char {
    if c == '\r' || c == '\n' {
        ' '
    } else {
        c
    }
}

/// A value on one line, cut to `max` characters with an ellipsis as the
/// last one when it is longer.
pub open spec fn truncated(value: Seq<char>, max: nat) -> Seq<char> {
    let cleaned = value.map_values(|c: char| one_line(c));
    if cleaned.len() <= max {
        cleaned
    } else {
        let keep: int = if max == 0 {
            0
        } else {
            max - 1
        };
        cleaned.take(keep).push('…')
    }
}

pub fn truncate(value: &str, max: usize) -> (text: String)
    ensures
        text@ == truncated(value@, max as nat),
{
    let chars = chars_of(value);
    let keep: usize = if chars.len() <= max {
        chars.len()
    } else if max == 0 {
        0
    } else {
        max - 1
    };
    let ghost cleaned = value@.map_values(|c: char| one_line(c));
    let mut text = String::new();
    let mut i: usize = 0;
    while i < keep
        invariant
            chars@ == value@,
            keep <= chars@.len(),
            i <= keep,
            cleaned == value@.map_values(|c: char| one_line(c)),
            text@ == cleaned.take(i as int),
        decreases keep - i,
    {
        let c = chars[i];
        let line = if c == '\r' || c == '\n' {
            ' '
        } else {
            c
        };
        push_char(&mut text, line);
        assert(cleaned.take(i + 1) =~= cleaned.take(i as int).push(one_line(c)));
        i = i + 1;
    }
    if chars.len() > max {
        push_char(&mut text, '…');
    } else {
        assert(cleaned.take(i as int) =~= cleaned);
    }
    text
}

/// The one value every selected object shares, "Mixed" when they differ,
/// and a dash when nothing is selected.
pub open spec fn shared(values: Seq<Seq<char>>) -> Seq<char> {
    if values.len() == 0 {
        "—"@
    } else if forall|i: int| 0 <= i < values.len() ==> #[trigger] values[i] == values[0] {
        values[0]
    } else {
        "Mixed"@
    }
}

pub fn shared_text(values: &[String]) -> (text: String)
    ensures
        text@ == shared(values@.map_values(|s: String| s@)),
{
    let ghost vs = values@.map_values(|s: String| s@);
    if values.len() == 0 {
        return "—".to_string();
    }
    let first = values[0].as_str();
    let mut i: usize = 1;
    while i < values.len()
        invariant
            vs == values@.map_values(|s: String| s@),
            1 <= i <= values@.len(),
            first@ == vs[0],
            forall|k: int| 0 <= k < i ==> #[trigger] vs[k] == vs[0],
        decreases values@.len() - i,
    {
        if !str_eq(values[i].as_str(), first) {
            assert(vs[i as int] != vs[0]);
            return "Mixed".to_string();
        }
        i = i + 1;
    }
    values[0].clone()
}

} // verus!
