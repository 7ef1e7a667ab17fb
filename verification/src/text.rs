//! Character-level text helpers shared by the input, menu and status code.

use vstd::prelude::*;

verus! {

/// Unicode `White_Space` characters, the ones `str::trim` removes.
pub open spec fn is_white(c: char) -> bool {
    ||| ('\u{9}' <= c && c <= '\u{d}')
    ||| c == ' '
    ||| c == '\u{85}'
    ||| c == '\u{a0}'
    ||| c == '\u{1680}'
    ||| ('\u{2000}' <= c && c <= '\u{200a}')
    ||| c == '\u{2028}'
    ||| c == '\u{2029}'
    ||| c == '\u{202f}'
    ||| c == '\u{205f}'
    ||| c == '\u{3000}'
}

/// ASCII lower-casing of one character; every other character is kept.
pub open spec fn ascii_lower(c: char) -> char {
    if 'A' <= c && c <= 'Z' {
        ((c as u32) + 32) as char
    } else {
        c
    }
}

/// ASCII upper-casing of one character; every other character is kept.
pub open spec fn ascii_upper(c: char) -> char {
    if 'a' <= c && c <= 'z' {
        ((c as u32) - 32) as char
    } else {
        c
    }
}

/// ASCII lower-casing of a text.
pub open spec fn lower(s: Seq<char>) -> Seq<char> {
    s.map_values(|c: char| ascii_lower(c))
}

/// Index of the first character of `s` at or after `from` that is not white space.
pub open spec fn first_non_white(s: Seq<char>, from: int) -> int
    decreases s.len() - from,
{
    if from >= s.len() || !is_white(s[from]) {
        from
    } else {
        first_non_white(s, from + 1)
    }
}

/// One past the last character of `s` before `to` that is not white space.
pub open spec fn end_non_white(s: Seq<char>, to: int) -> int
    decreases to,
{
    if to <= 0 || !is_white(s[to - 1]) {
        to
    } else {
        end_non_white(s, to - 1)
    }
}

/// `s` without leading and trailing white space.
pub open spec fn trim(s: Seq<char>) -> Seq<char> {
    let start = first_non_white(s, 0);
    if start >= s.len() {
        seq![]
    } else {
        s.subrange(start, end_non_white(s, s.len() as int))
    }
}

/// The name as compared by the key and binding tables: trimmed, ASCII lower case.
pub open spec fn normalized(s: Seq<char>) -> Seq<char> {
    lower(trim(s))
}

proof fn lemma_first_non_white(s: Seq<char>, from: int)
    requires
        0 <= from <= s.len(),
    ensures
        from <= first_non_white(s, from) <= s.len(),
        first_non_white(s, from) < s.len() ==> !is_white(s[first_non_white(s, from)]),
        forall|i: int| from <= i < first_non_white(s, from) ==> is_white(s[i]),
    decreases s.len() - from,
{
    if from < s.len() && is_white(s[from]) {
        lemma_first_non_white(s, from + 1);
    }
}

proof fn lemma_end_non_white(s: Seq<char>, to: int)
    requires
        0 <= to <= s.len(),
    ensures
        0 <= end_non_white(s, to) <= to,
        end_non_white(s, to) > 0 ==> !is_white(s[end_non_white(s, to) - 1]),
        forall|i: int| end_non_white(s, to) <= i < to ==> is_white(s[i]),
    decreases to,
{
    if to > 0 && is_white(s[to - 1]) {
        lemma_end_non_white(s, to - 1);
    }
}

/// A word of lower-case ASCII letters is its own normalized form.
pub proof fn lemma_lower_word_normalized(s: Seq<char>)
    requires
        s.len() > 0,
        forall|i: int| 0 <= i < s.len() ==> 'a' <= #[trigger] s[i] <= 'z',
    ensures
        normalized(s) == s,
{
    assert(first_non_white(s, 0) == 0);
    assert(end_non_white(s, s.len() as int) == s.len());
    assert(trim(s) =~= s);
    assert(lower(s) =~= s);
}

/// Appends one character (std's `String::push`).
#[verifier::external_body]
pub(crate) fn push_char(s: &mut String, c: char)
    ensures
        final(s)@ == old(s)@.push(c),
{
    s.push(c);
}

pub fn is_white_char(c: char) -> (w: bool)
    ensures
        w == is_white(c),
{
    ('\u{9}' <= c && c <= '\u{d}') || c == ' ' || c == '\u{85}' || c == '\u{a0}' || c
        == '\u{1680}' || ('\u{2000}' <= c && c <= '\u{200a}') || c == '\u{2028}' || c
        == '\u{2029}' || c == '\u{202f}' || c == '\u{205f}' || c == '\u{3000}'
}

pub fn to_ascii_lower(c: char) -> (l: char)
    ensures
        l == ascii_lower(c),
{
    if 'A' <= c && c <= 'Z' {
        let code = (c as u32) + 32;
        assert(0x61 <= code <= 0x7a);
        char_from_ascii(code)
    } else {
        c
    }
}

pub fn to_ascii_upper(c: char) -> (u: char)
    ensures
        u == ascii_upper(c),
{
    if 'a' <= c && c <= 'z' {
        let code = (c as u32) - 32;
        char_from_ascii(code)
    } else {
        c
    }
}

/// The character with an ASCII code.
fn char_from_ascii(code: u32) -> (c: char)
    requires
        code < 0x80,
    ensures
        c == code as char,
{
    (code as u8) as char
}

/// The characters of a text.
pub fn chars_of(s: &str) -> (v: Vec<char>)
    ensures
        v@ == s@,
{
    let n = s.unicode_len();
    let mut v: Vec<char> = Vec::new();
    let mut i: usize = 0;
    while i < n
        invariant
            n == s@.len(),
            i <= n,
            v@ == s@.take(i as int),
        decreases n - i,
    {
        v.push(s.get_char(i));
        assert(s@.take(i + 1) =~= s@.take(i as int).push(s@[i as int]));
        i = i + 1;
    }
    assert(s@.take(n as int) =~= s@);
    v
}

/// The text made of the characters `v[from..to]`.
pub fn string_of(v: &Vec<char>, from: usize, to: usize) -> (s: String)
    requires
        from <= to <= v@.len(),
    ensures
        s@ == v@.subrange(from as int, to as int),
{
    let mut s = String::new();
    let mut i = from;
    while i < to
        invariant
            from <= i <= to <= v@.len(),
            s@ == v@.subrange(from as int, i as int),
        decreases to - i,
    {
        push_char(&mut s, v[i]);
        assert(v@.subrange(from as int, i + 1) =~= v@.subrange(from as int, i as int).push(
            v@[i as int],
        ));
        i = i + 1;
    }
    s
}

/// `s` without leading and trailing white space, ASCII lower-cased.
pub fn normalize(s: &str) -> (n: Vec<char>)
    ensures
        n@ == normalized(s@),
{
    let chars = chars_of(s);
    let len = chars.len();
    let mut start: usize = 0;
    while start < len && is_white_char(chars[start])
        invariant
            start <= len == s@.len(),
            chars@ == s@,
            forall|i: int| 0 <= i < start ==> is_white(s@[i]),
        decreases len - start,
    {
        start = start + 1;
    }
    proof {
        lemma_first_non_white(s@, 0);
        let f = first_non_white(s@, 0);
        if f < start {
            assert(is_white(s@[f]));
        }
        if start < f {
            assert(is_white(s@[start as int]));
        }
    }
    let mut out: Vec<char> = Vec::new();
    if start == len {
        assert(out@ =~= normalized(s@));
        return out;
    }
    let mut end: usize = len;
    while end > start && is_white_char(chars[end - 1])
        invariant
            start < len == s@.len(),
            start <= end <= len,
            chars@ == s@,
            !is_white(s@[start as int]),
            forall|i: int| end <= i < len ==> is_white(s@[i]),
        decreases end,
    {
        end = end - 1;
    }
    proof {
        lemma_end_non_white(s@, len as int);
        let e = end_non_white(s@, len as int);
        if e < end {
            assert(is_white(s@[end - 1]));
        }
        if end < e {
            assert(is_white(s@[e - 1]));
        }
    }
    let mut i = start;
    while i < end
        invariant
            start <= i <= end <= len == s@.len(),
            chars@ == s@,
            out@ == lower(s@.subrange(start as int, i as int)),
        decreases end - i,
    {
        out.push(to_ascii_lower(chars[i]));
        assert(s@.subrange(start as int, i + 1) =~= s@.subrange(start as int, i as int).push(
            s@[i as int],
        ));
        assert(out@ =~= lower(s@.subrange(start as int, i + 1)));
        i = i + 1;
    }
    out
}

/// `v` spells the text `lit`.
pub fn chars_eq(v: &Vec<char>, lit: &str) -> (eq: bool)
    ensures
        eq == (v@ == lit@),
{
    let n = lit.unicode_len();
    if v.len() != n {
        return false;
    }
    let mut i: usize = 0;
    while i < n
        invariant
            n == lit@.len() == v@.len(),
            i <= n,
            forall|k: int| 0 <= k < i ==> v@[k] == lit@[k],
        decreases n - i,
    {
        if v[i] != lit.get_char(i) {
            return false;
        }
        i = i + 1;
    }
    assert(v@ =~= lit@);
    true
}

/// Two texts are equal.
pub fn str_eq(a: &str, b: &str) -> (eq: bool)
    ensures
        eq == (a@ == b@),
{
    let chars = chars_of(a);
    chars_eq(&chars, b)
}

/// The text ASCII lower-cased (`str::to_ascii_lowercase`).
pub fn lowercase(s: &str) -> (l: String)
    ensures
        l@ == lower(s@),
{
    let chars = chars_of(s);
    let mut l = String::new();
    let mut i: usize = 0;
    while i < chars.len()
        invariant
            chars@ == s@,
            i <= chars@.len(),
            l@ == lower(s@.take(i as int)),
        decreases chars@.len() - i,
    {
        push_char(&mut l, to_ascii_lower(chars[i]));
        assert(lower(s@.take(i + 1)) =~= lower(s@.take(i as int)).push(ascii_lower(s@[i as int])));
        i = i + 1;
    }
    assert(s@.take(i as int) =~= s@);
    l
}

/// Two texts are equal ignoring ASCII case (`str::eq_ignore_ascii_case`).
pub fn eq_ignore_case(a: &str, b: &str) -> (eq: bool)
    ensures
        eq == (lower(a@) == lower(b@)),
{
    let x = chars_of(a);
    let y = chars_of(b);
    if x.len() != y.len() {
        assert(lower(a@).len() != lower(b@).len());
        return false;
    }
    let mut i: usize = 0;
    while i < x.len()
        invariant
            x@ == a@,
            y@ == b@,
            x@.len() == y@.len(),
            i <= x@.len(),
            forall|k: int| 0 <= k < i ==> ascii_lower(a@[k]) == ascii_lower(b@[k]),
        decreases x@.len() - i,
    {
        if to_ascii_lower(x[i]) != to_ascii_lower(y[i]) {
            assert(lower(a@)[i as int] != lower(b@)[i as int]);
            return false;
        }
        i = i + 1;
    }
    assert(lower(a@) =~= lower(b@));
    true
}

/// `needle` occurs in `hay` at `at`.
pub open spec fn occurs_at(hay: Seq<char>, needle: Seq<char>, at: int) -> bool {
    0 <= at && at + needle.len() <= hay.len() && hay.subrange(at, at + needle.len()) == needle
}

/// `needle` occurs somewhere in `hay` (`str::contains`).
pub open spec fn contains_text(hay: Seq<char>, needle: Seq<char>) -> bool {
    exists|at: int| #[trigger] occurs_at(hay, needle, at)
}

/// Whether `needle` occurs in `hay`.
pub fn find_text(hay: &Vec<char>, needle: &Vec<char>) -> (found: bool)
    ensures
        found == contains_text(hay@, needle@),
{
    let n = needle.len();
    if n > hay.len() {
        assert forall|at: int| !occurs_at(hay@, needle@, at) by {}
        return false;
    }
    if n == 0 {
        assert(hay@.subrange(0, 0) =~= needle@);
        assert(occurs_at(hay@, needle@, 0));
        return true;
    }
    let limit = hay.len() - n;
    let mut at: usize = 0;
    while at <= limit
        invariant
            0 < n == needle@.len(),
            n <= hay@.len() <= usize::MAX,
            limit == hay@.len() - n,
            at <= limit + 1,
            forall|k: int| 0 <= k < at ==> !#[trigger] occurs_at(hay@, needle@, k),
        decreases limit + 1 - at,
    {
        let mut j: usize = 0;
        let mut same = true;
        while j < n && same
            invariant
                n == needle@.len(),
                n <= hay@.len() <= usize::MAX,
                at <= hay@.len() - n,
                j <= n,
                forall|k: int| 0 <= k < j ==> hay@[at + k] == needle@[k],
                !same ==> j < n && hay@[at + j] != needle@[j as int],
            decreases n - j + (if same { 1int } else { 0int }),
        {
            if hay[at + j] != needle[j] {
                same = false;
            } else {
                j = j + 1;
            }
        }
        if same {
            assert(hay@.subrange(at as int, at + n) =~= needle@);
            assert(occurs_at(hay@, needle@, at as int));
            return true;
        }
        assert(hay@.subrange(at as int, at + n)[j as int] != needle@[j as int]);
        at = at + 1;
    }
    assert forall|k: int| !occurs_at(hay@, needle@, k) by {
        if 0 <= k < at {
        }
    }
    false
}

/// The ASCII digit of a value below ten.
pub open spec fn digit_char(d: nat) -> char {
    ((d + 48) as u32) as char
}

/// The decimal notation of `n`, without leading zeros.
pub open spec fn decimal(n: nat) -> Seq<char>
    decreases n,
{
    if n < 10 {
        seq![digit_char(n)]
    } else {
        decimal(n / 10).push(digit_char(n % 10))
    }
}

proof fn lemma_take_reverse_step(before: Seq<char>, digits: Seq<char>, i: int)
    requires
        0 < i <= digits.len(),
    ensures
        before + digits.take(i).reverse() == before.push(digits[i - 1]) + digits.take(i - 1).reverse(),
{
    let t = digits.take(i);
    assert(t.reverse() =~= seq![digits[i - 1]] + digits.take(i - 1).reverse());
    assert(before + t.reverse() =~= before.push(digits[i - 1]) + digits.take(i - 1).reverse());
}

/// The decimal notation of a number.
pub fn decimal_string(n: u64) -> (text: String)
    ensures
        text@ == decimal(n as nat),
{
    let mut digits: Vec<char> = Vec::new();
    let mut rest = n;
    // digits holds the low-order digits, last first
    while rest >= 10
        invariant
            decimal(n as nat) == decimal(rest as nat) + digits@.reverse(),
        decreases rest,
    {
        let d = rest % 10;
        let ghost before = digits@;
        digits.push(char_from_ascii((d + 48) as u32));
        proof {
            assert(decimal(rest as nat) == decimal((rest / 10) as nat).push(digit_char((rest % 10) as nat)));
            assert(digits@.reverse() =~= seq![digit_char((rest % 10) as nat)] + before.reverse());
            assert(decimal(rest as nat) + before.reverse() =~= decimal((rest / 10) as nat) + digits@.reverse());
        }
        rest = rest / 10;
    }
    let mut text = String::new();
    push_char(&mut text, char_from_ascii((rest + 48) as u32));
    assert(text@ =~= decimal(rest as nat));
    let mut i = digits.len();
    while i > 0
        invariant
            i <= digits@.len(),
            decimal(n as nat) == text@ + digits@.take(i as int).reverse(),
        decreases i,
    {
        let ghost before = text@;
        push_char(&mut text, digits[i - 1]);
        proof {
            lemma_take_reverse_step(before, digits@, i as int);
        }
        i = i - 1;
    }
    assert(digits@.take(0).reverse() =~= seq![]);
    assert(text@ + seq![] =~= text@);
    text
}

} // verus!
