//! Numeric fields typed beside the cursor during drawing: which fields a
//! drawing stage exposes, and how keystrokes edit them.
//!
//! Reading a field as a number and laying the overlay out on screen work on
//! floating-point values and stay with the window code.

use crate::text::{chars_of, normalize, normalized, push_char, string_of};
use vstd::prelude::*;

verus! {

/// Which numeric fields a drawing stage exposes.
#[derive(Debug, Clone, Copy, PartialEq, Eq, Structural)]
pub enum DynamicLayout {
    Hidden,
    LengthAngle,
    Radius,
    WidthHeight,
    Angle,
    Factor,
}

impl Default for DynamicLayout {
    fn default() -> (layout: Self)
        ensures
            layout == DynamicLayout::Hidden,
    {
        DynamicLayout::Hidden
    }
}

/// What one field holds.
#[derive(Debug, Clone, Copy, PartialEq, Eq, Structural)]
pub enum FieldKind {
    Length,
    Angle,
    Radius,
    Width,
    Height,
    Factor,
}

impl FieldKind {
    pub fn label(self) -> (label: &'static str)
        ensures
            label@ == field_label(self),
    {
        match self {
            FieldKind::Length => "Length",
            FieldKind::Angle => "Angle",
            FieldKind::Radius => "Radius",
            FieldKind::Width => "Width",
            FieldKind::Height => "Height",
            FieldKind::Factor => "Factor",
        }
    }

    /// Only an angle may be negative.
    pub fn allows_minus(self) -> (minus: bool)
        ensures
            minus == (self == FieldKind::Angle),
    {
        matches!(self, FieldKind::Angle)
    }

    /// Every field but the angle must hold a value above the tolerance.
    pub fn must_be_positive(self) -> (positive: bool)
        ensures
            positive == (self != FieldKind::Angle),
    {
        !matches!(self, FieldKind::Angle)
    }
}

pub open spec fn field_label(kind: FieldKind) -> Seq<char> {
    match kind {
        FieldKind::Length => "Length"@,
        FieldKind::Angle => "Angle"@,
        FieldKind::Radius => "Radius"@,
        FieldKind::Width => "Width"@,
        FieldKind::Height => "Height"@,
        FieldKind::Factor => "Factor"@,
    }
}

/// The message shown when a field does not hold an acceptable value.
pub open spec fn invalid_text(kind: FieldKind) -> Seq<char> {
    match kind {
        FieldKind::Length => "Length must be a positive number"@,
        FieldKind::Angle => "Angle must be a finite number"@,
        FieldKind::Radius => "Radius must be a positive number"@,
        FieldKind::Width => "Width must be a positive number"@,
        FieldKind::Height => "Height must be a positive number"@,
        FieldKind::Factor => "Scale factor must be greater than zero"@,
    }
}

pub fn invalid_message(kind: FieldKind) -> (message: &'static str)
    ensures
        message@ == invalid_text(kind),
{
    match kind {
        FieldKind::Length => "Length must be a positive number",
        FieldKind::Angle => "Angle must be a finite number",
        FieldKind::Radius => "Radius must be a positive number",
        FieldKind::Width => "Width must be a positive number",
        FieldKind::Height => "Height must be a positive number",
        FieldKind::Factor => "Scale factor must be greater than zero",
    }
}

/// One numeric field: the text typed so far, whether the user typed in it,
/// and whether its value is locked for the next point.
#[derive(Debug)]
pub struct Field {
    pub kind: FieldKind,
    pub buffer: String,
    pub locked: bool,
    pub typed: bool,
}

/// The plain value of a field.
pub struct FieldView {
    pub kind: FieldKind,
    pub buffer: Seq<char>,
    pub locked: bool,
    pub typed: bool,
}

impl View for Field {
    type V = FieldView;

    open spec fn view(&self) -> FieldView {
        FieldView { kind: self.kind, buffer: self.buffer@, locked: self.locked, typed: self.typed }
    }
}

pub open spec fn blank_field(kind: FieldKind) -> FieldView {
    FieldView { kind, buffer: seq![], locked: false, typed: false }
}

impl Field {
    pub fn new(kind: FieldKind) -> (field: Self)
        ensures
            field@ == blank_field(kind),
    {
        Field { kind, buffer: String::new(), locked: false, typed: false }
    }

    pub fn reset(&mut self)
        ensures
            final(self)@ == blank_field(old(self).kind),
    {
        self.buffer = String::new();
        self.locked = false;
        self.typed = false;
    }

    fn copied(&self) -> (field: Self)
        ensures
            field@ == self@,
    {
        Field { kind: self.kind, buffer: self.buffer.clone(), locked: self.locked, typed: self.typed }
    }
}

/// The field kinds of a layout, in order.
pub open spec fn layout_kinds(layout: DynamicLayout) -> Seq<FieldKind> {
    match layout {
        DynamicLayout::Hidden => seq![],
        DynamicLayout::LengthAngle => seq![FieldKind::Length, FieldKind::Angle],
        DynamicLayout::Radius => seq![FieldKind::Radius],
        DynamicLayout::WidthHeight => seq![FieldKind::Width, FieldKind::Height],
        DynamicLayout::Angle => seq![FieldKind::Angle],
        DynamicLayout::Factor => seq![FieldKind::Factor],
    }
}

pub open spec fn blank_fields(kinds: Seq<FieldKind>) -> Seq<FieldView> {
    kinds.map_values(|k: FieldKind| blank_field(k))
}

pub open spec fn fields_view(fields: Seq<Field>) -> Seq<FieldView> {
    fields.map_values(|f: Field| f@)
}

/// Blank fields for a layout.
pub fn fields_for(layout: DynamicLayout) -> (fields: Vec<Field>)
    ensures
        fields_view(fields@) == blank_fields(layout_kinds(layout)),
{
    let fields = match layout {
        DynamicLayout::Hidden => Vec::new(),
        DynamicLayout::LengthAngle => vec![Field::new(FieldKind::Length), Field::new(FieldKind::Angle)],
        DynamicLayout::Radius => vec![Field::new(FieldKind::Radius)],
        DynamicLayout::WidthHeight => vec![Field::new(FieldKind::Width), Field::new(FieldKind::Height)],
        DynamicLayout::Angle => vec![Field::new(FieldKind::Angle)],
        DynamicLayout::Factor => vec![Field::new(FieldKind::Factor)],
    };
    assert(fields_view(fields@) =~= blank_fields(layout_kinds(layout)));
    fields
}

/// The field after one typed character, and whether the character was taken.
/// A comma is read as a decimal point; a minus sign only starts an empty
/// angle; a second decimal point is refused.
pub open spec fn typed_char(field: FieldView, ch: char) -> (FieldView, bool) {
    let c = if ch == ',' {
        '.'
    } else {
        ch
    };
    let taken = FieldView {
        kind: field.kind,
        buffer: field.buffer.push(c),
        locked: false,
        typed: true,
    };
    if c == '-' {
        if field.kind == FieldKind::Angle && field.buffer.len() == 0 {
            (taken, true)
        } else {
            (field, false)
        }
    } else if c == '.' {
        if field.buffer.contains('.') || field.buffer.contains(',') {
            (field, false)
        } else {
            (taken, true)
        }
    } else if '0' <= c && c <= '9' {
        (taken, true)
    } else {
        (field, false)
    }
}

pub open spec fn is_ascii_alphabetic(c: char) -> bool {
    ('a' <= c && c <= 'z') || ('A' <= c && c <= 'Z')
}

/// Typing `text` into a field: each character that the field takes is
/// appended; an ASCII letter that it does not take stops the run and hands
/// the whole text back (`false`), keeping what was taken before it.
/// Otherwise the result says whether any character was taken.
pub open spec fn typed_text(field: FieldView, text: Seq<char>, taken: bool) -> (FieldView, bool)
    decreases text.len(),
{
    if text.len() == 0 {
        (field, taken)
    } else {
        let (next, ok) = typed_char(field, text[0]);
        if ok {
            typed_text(next, text.skip(1), true)
        } else if is_ascii_alphabetic(text[0]) {
            (field, false)
        } else {
            typed_text(field, text.skip(1), taken)
        }
    }
}

fn buffer_has_point(buffer: &String) -> (found: bool)
    ensures
        found == (buffer@.contains('.') || buffer@.contains(',')),
{
    let chars = chars_of(buffer.as_str());
    let mut i: usize = 0;
    while i < chars.len()
        invariant
            chars@ == buffer@,
            i <= chars@.len(),
            forall|j: int| 0 <= j < i ==> chars@[j] != '.' && chars@[j] != ',',
        decreases chars@.len() - i,
    {
        if chars[i] == '.' || chars[i] == ',' {
            assert(buffer@[i as int] == chars[i as int]);
            return true;
        }
        i = i + 1;
    }
    false
}

/// Types one character into a field (see `typed_char`).
pub fn insert_char(field: &mut Field, ch: char) -> (taken: bool)
    ensures
        (final(field)@, taken) == typed_char(old(field)@, ch),
{
    let c = if ch == ',' {
        '.'
    } else {
        ch
    };
    if c == '-' {
        if !field.kind.allows_minus() || field.buffer.as_str().unicode_len() != 0 {
            return false;
        }
    } else if c == '.' {
        if buffer_has_point(&field.buffer) {
            return false;
        }
    } else if !('0' <= c && c <= '9') {
        return false;
    }
    field.typed = true;
    field.locked = false;
    push_char(&mut field.buffer, c);
    true
}

/// What a keystroke routed through the numeric fields came to.
#[derive(Debug, Clone, Copy, PartialEq, Eq)]
pub enum DynamicKeyResult {
    /// The keystroke is not for the fields.
    Unhandled,
    Handled,
    Submit,
    FinishEmpty,
    Invalid(&'static str),
}

/// A field takes the live value: nothing was typed into it and it holds
/// only white space.
pub open spec fn needs_live(f: FieldView) -> bool {
    !f.typed && normalized(f.buffer).len() == 0
}

/// The numeric fields of the current drawing stage and the one that has
/// the keyboard.
#[derive(Debug)]
pub struct DynamicInput {
    layout: DynamicLayout,
    fields: Vec<Field>,
    active: usize,
}

/// The plain value of the numeric fields.
pub struct InputView {
    pub layout: DynamicLayout,
    pub fields: Seq<FieldView>,
    pub active: nat,
}

impl View for DynamicInput {
    type V = InputView;

    closed spec fn view(&self) -> InputView {
        InputView { layout: self.layout, fields: fields_view(self.fields@), active: self.active as nat }
    }
}

/// Whether a field is locked, or was typed into and is not empty.
pub open spec fn holds_value(field: FieldView) -> bool {
    field.locked || (field.typed && field.buffer.len() > 0)
}

/// Whether some field is locked, or was typed into and is not empty.
pub open spec fn any_typed_or_locked(fields: Seq<FieldView>) -> bool {
    exists|i: int| 0 <= i < fields.len() && #[trigger] holds_value(fields[i])
}

/// The first field, from `from` on, that was typed or locked and whose value
/// the number check refused.
pub open spec fn first_refused(fields: Seq<FieldView>, accepted: Seq<bool>, from: int) -> Option<
    int,
>
    decreases fields.len() - from,
{
    if from < 0 || from >= fields.len() {
        None
    } else if (fields[from].typed || fields[from].locked) && !accepted[from] {
        Some(from)
    } else {
        first_refused(fields, accepted, from + 1)
    }
}

/// How Enter is answered.
pub enum EnterOutcome {
    FinishEmpty,
    Submit,
    Refused(FieldKind),
}

/// The answer to Enter, given which fields hold an acceptable number.
pub open spec fn enter_outcome(
    fields: Seq<FieldView>,
    accepted: Seq<bool>,
    finish_on_empty_enter: bool,
) -> EnterOutcome {
    if !any_typed_or_locked(fields) {
        if finish_on_empty_enter {
            EnterOutcome::FinishEmpty
        } else {
            EnterOutcome::Submit
        }
    } else {
        match first_refused(fields, accepted, 0) {
            Some(i) => EnterOutcome::Refused(fields[i].kind),
            None => EnterOutcome::Submit,
        }
    }
}

/// Whether a key result gives an Enter outcome.
pub open spec fn answers(result: DynamicKeyResult, outcome: EnterOutcome) -> bool {
    match outcome {
        EnterOutcome::FinishEmpty => result == DynamicKeyResult::FinishEmpty,
        EnterOutcome::Submit => result == DynamicKeyResult::Submit,
        EnterOutcome::Refused(kind) => result matches DynamicKeyResult::Invalid(m) && m@
            == invalid_text(kind),
    }
}

impl Default for DynamicInput {
    fn default() -> (input: Self)
        ensures
            input@.layout == DynamicLayout::Hidden,
            input@.fields.len() == 0,
            input@.active == 0,
    {
        let input = DynamicInput { layout: DynamicLayout::Hidden, fields: Vec::new(), active: 0 };
        assert(input@.fields =~= seq![]);
        input
    }
}

impl DynamicInput {
    pub fn layout(&self) -> (layout: DynamicLayout)
        ensures
            layout == self@.layout,
    {
        self.layout
    }

    /// Whether a drawing stage shows fields (and so owns the keyboard).
    pub fn is_active(&self) -> (active: bool)
        ensures
            active == (self@.layout != DynamicLayout::Hidden),
    {
        !matches!(self.layout, DynamicLayout::Hidden)
    }

    /// The fields, in order.
    pub fn fields(&self) -> (fields: &[Field])
        ensures
            fields_view(fields@) == self@.fields,
    {
        self.fields.as_slice()
    }

    /// The index of the field that has the keyboard.
    pub fn active(&self) -> (active: usize)
        ensures
            active == self@.active,
    {
        self.active
    }

    /// Switches to a layout; staying in the same layout keeps what was typed.
    pub fn set_layout(&mut self, layout: DynamicLayout)
        ensures
            old(self)@.layout == layout ==> final(self)@ == old(self)@,
            old(self)@.layout != layout ==> final(self)@.layout == layout && final(self)@.fields
                == blank_fields(layout_kinds(layout)) && final(self)@.active == 0,
    {
        if self.layout == layout {
            return;
        }
        self.layout = layout;
        self.fields = fields_for(layout);
        self.active = 0;
    }

    /// Clears every field and gives the keyboard to the first one.
    pub fn reset_values(&mut self)
        ensures
            final(self)@.layout == old(self)@.layout,
            final(self)@.fields == blank_fields(old(self)@.fields.map_values(|f: FieldView| f.kind)),
            final(self)@.active == 0,
    {
        let ghost kinds = old(self)@.fields.map_values(|f: FieldView| f.kind);
        let mut fields: Vec<Field> = Vec::new();
        let mut i: usize = 0;
        while i < self.fields.len()
            invariant
                kinds == fields_view(self.fields@).map_values(|f: FieldView| f.kind),
                i <= self.fields@.len(),
                fields_view(fields@) == blank_fields(kinds.take(i as int)),
            decreases self.fields@.len() - i,
        {
            fields.push(Field::new(self.fields[i].kind));
            assert(blank_fields(kinds.take(i + 1)) =~= blank_fields(kinds.take(i as int)).push(
                blank_field(kinds[i as int]),
            ));
            assert(fields_view(fields@) =~= blank_fields(kinds.take(i + 1)));
            i = i + 1;
        }
        assert(kinds.take(i as int) =~= kinds);
        self.fields = fields;
        self.active = 0;
    }

    /// Whether some field is locked, or holds typed text.
    pub fn has_typed_or_locked(&self) -> (found: bool)
        ensures
            found == any_typed_or_locked(self@.fields),
    {
        let mut i: usize = 0;
        while i < self.fields.len()
            invariant
                i <= self.fields@.len(),
                forall|j: int| 0 <= j < i ==> !#[trigger] holds_value(self@.fields[j]),
            decreases self.fields@.len() - i,
        {
            let field = &self.fields[i];
            assert(self@.fields[i as int] == field@);
            if field.locked || (field.typed && field.buffer.as_str().unicode_len() != 0) {
                assert(holds_value(self@.fields[i as int]));
                return true;
            }
            assert(!holds_value(self@.fields[i as int]));
            i = i + 1;
        }
        false
    }

    /// Enter: with nothing typed or locked, either finish the command (when
    /// the stage allows it) or take the cursor point; otherwise refuse the
    /// first typed or locked field whose number was not accepted, or submit.
    /// `accepted[i]` says whether field `i` holds an acceptable number.
    pub fn enter(&self, finish_on_empty_enter: bool, accepted: &[bool]) -> (result: DynamicKeyResult)
        requires
            accepted@.len() == self@.fields.len(),
        ensures
            answers(result, enter_outcome(self@.fields, accepted@, finish_on_empty_enter)),
    {
        if !self.has_typed_or_locked() {
            if finish_on_empty_enter {
                return DynamicKeyResult::FinishEmpty;
            }
            return DynamicKeyResult::Submit;
        }
        let mut i: usize = 0;
        while i < self.fields.len()
            invariant
                accepted@.len() == self@.fields.len(),
                any_typed_or_locked(self@.fields),
                i <= self@.fields.len(),
                first_refused(self@.fields, accepted@, 0) == first_refused(
                    self@.fields,
                    accepted@,
                    i as int,
                ),
            decreases self.fields@.len() - i,
        {
            let field = &self.fields[i];
            assert(self@.fields[i as int] == field@);
            if (field.typed || field.locked) && !accepted[i] {
                assert(first_refused(self@.fields, accepted@, i as int) == Some(i as int));
                assert(any_typed_or_locked(self@.fields));
                assert(enter_outcome(self@.fields, accepted@, finish_on_empty_enter)
                    == EnterOutcome::Refused(field.kind));
                let message = invalid_message(field.kind);
                let result = DynamicKeyResult::Invalid(message);
                assert(answers(result, EnterOutcome::Refused(field.kind)));
                return result;
            }
            i = i + 1;
        }
        DynamicKeyResult::Submit
    }

    /// Backspace: the active field loses its last character and counts as
    /// typed and unlocked.
    pub fn backspace(&mut self)
        ensures
            final(self)@.layout == old(self)@.layout,
            final(self)@.active == old(self)@.active,
            old(self)@.active >= old(self)@.fields.len() ==> final(self)@.fields
                == old(self)@.fields,
            old(self)@.active < old(self)@.fields.len() ==> final(self)@.fields == old(self)@.fields.update(
                old(self)@.active as int,
                FieldView {
                    kind: old(self)@.fields[old(self)@.active as int].kind,
                    buffer: if old(self)@.fields[old(self)@.active as int].buffer.len() == 0 {
                        seq![]
                    } else {
                        old(self)@.fields[old(self)@.active as int].buffer.drop_last()
                    },
                    locked: false,
                    typed: true,
                },
            ),
    {
        if self.active >= self.fields.len() {
            return;
        }
        let i = self.active;
        let mut chars = chars_of(self.fields[i].buffer.as_str());
        if chars.len() > 0 {
            chars.pop();
        } else {
            assert(chars@ =~= seq![]);
        }
        let buffer = string_of(&chars, 0, chars.len());
        assert(chars@.subrange(0, chars@.len() as int) =~= chars@);
        assert(old(self)@.fields[i as int] == old(self).fields@[i as int]@);
        let field = Field { kind: self.fields[i].kind, buffer, locked: false, typed: true };
        self.fields.set(i, field);
        assert(fields_view(self.fields@) =~= fields_view(old(self).fields@).update(
            i as int,
            field@,
        ));
    }

    /// Types text into the active field (see `typed_text`); with no active
    /// field nothing is taken.
    pub fn insert_text(&mut self, text: &str) -> (result: Result<bool, &'static str>)
        ensures
            final(self)@.layout == old(self)@.layout,
            final(self)@.active == old(self)@.active,
            old(self)@.active >= old(self)@.fields.len() ==> final(self)@.fields
                == old(self)@.fields && result == Ok::<bool, &'static str>(false),
            old(self)@.active < old(self)@.fields.len() ==> ({
                let (field, taken) = typed_text(
                    old(self)@.fields[old(self)@.active as int],
                    text@,
                    false,
                );
                final(self)@.fields == old(self)@.fields.update(old(self)@.active as int, field)
                    && result == Ok::<bool, &'static str>(taken)
            }),
    {
        if self.active >= self.fields.len() {
            return Ok(false);
        }
        let i = self.active;
        let mut field = self.fields[i].copied();
        assert(old(self)@.fields[i as int] == old(self).fields@[i as int]@);
        let chars = chars_of(text);
        assert(text@.skip(0) =~= text@);
        let mut consumed = false;
        let mut k: usize = 0;
        let mut stopped = false;
        while k < chars.len() && !stopped
            invariant
                chars@ == text@,
                k <= chars@.len(),
                !stopped ==> typed_text(old(self)@.fields[i as int], text@, false) == typed_text(
                    field@,
                    text@.skip(k as int),
                    consumed,
                ),
                stopped ==> !consumed,
                stopped ==> typed_text(old(self)@.fields[i as int], text@, false) == (
                field@,
                false,
                ),
                old(self)@.active == i,
                i < old(self)@.fields.len(),
            decreases chars@.len() - k,
        {
            let ch = chars[k];
            let ghost before = field@;
            assert(text@.skip(k as int)[0] == ch);
            assert(text@.skip(k as int).skip(1) =~= text@.skip(k + 1));
            if insert_char(&mut field, ch) {
                consumed = true;
            } else if ('a' <= ch && ch <= 'z') || ('A' <= ch && ch <= 'Z') {
                stopped = true;
                consumed = false;
            }
            k = k + 1;
        }
        if !stopped {
            assert(text@.skip(k as int) =~= seq![]);
            assert(typed_text(field@, text@.skip(k as int), consumed) == (field@, consumed));
        } else {
            assert(typed_text(old(self)@.fields[i as int], text@, false) == (field@, false));
            assert(!consumed);
        }
        assert(typed_text(old(self)@.fields[i as int], text@, false) == (field@, consumed));
        self.fields.set(i, field);
        assert(fields_view(self.fields@) =~= fields_view(old(self).fields@).update(
            i as int,
            field@,
        ));
        Ok(consumed)
    }

    /// Tab, after the active field was locked: the keyboard moves to the
    /// next field, wrapping around.
    pub fn advance(&mut self)
        ensures
            final(self)@.layout == old(self)@.layout,
            final(self)@.fields == old(self)@.fields,
            old(self)@.fields.len() == 0 ==> final(self)@.active == old(self)@.active,
            old(self)@.fields.len() > 0 ==> final(self)@.active == (old(self)@.active + 1)
                % old(self)@.fields.len(),
    {
        if self.fields.len() == 0 {
            return;
        }
        let len = self.fields.len();
        let r = self.active % len;
        proof {
            vstd::arithmetic::div_mod::lemma_add_mod_noop(self.active as int, 1, len as int);
            if len > 1 {
                vstd::arithmetic::div_mod::lemma_small_mod(1, len as nat);
            }
        }
        self.active = (r + 1) % len;
    }

    /// Whether the active field takes the live value when it is locked: it
    /// exists, nothing was typed into it and it holds only white space.
    pub fn active_needs_live_value(&self) -> (needs: bool)
        ensures
            needs == (self@.active < self@.fields.len() && needs_live(
                self@.fields[self@.active as int],
            )),
    {
        if self.active >= self.fields.len() {
            return false;
        }
        let field = &self.fields[self.active];
        assert(self@.fields[self@.active as int] == field@);
        !field.typed && normalize(field.buffer.as_str()).len() == 0
    }

    /// Locks the active field, first filling it with the live value when
    /// one is given and the field is untyped and empty.
    pub fn lock_active(&mut self, live_text: Option<&str>)
        ensures
            final(self)@.layout == old(self)@.layout,
            final(self)@.active == old(self)@.active,
            old(self)@.active >= old(self)@.fields.len() ==> final(self)@.fields
                == old(self)@.fields,
            old(self)@.active < old(self)@.fields.len() ==> final(self)@.fields == old(self)@.fields.update(
                old(self)@.active as int,
                FieldView {
                    kind: old(self)@.fields[old(self)@.active as int].kind,
                    buffer: if live_text is Some && needs_live(
                        old(self)@.fields[old(self)@.active as int],
                    ) {
                        live_text.unwrap()@
                    } else {
                        old(self)@.fields[old(self)@.active as int].buffer
                    },
                    locked: true,
                    typed: true,
                },
            ),
    {
        let fill = self.active_needs_live_value();
        if self.active >= self.fields.len() {
            return;
        }
        let i = self.active;
        let buffer = match live_text {
            Some(t) => if fill {
                t.to_string()
            } else {
                self.fields[i].buffer.clone()
            },
            None => self.fields[i].buffer.clone(),
        };
        let field = Field { kind: self.fields[i].kind, buffer, locked: true, typed: true };
        self.fields.set(i, field);
        assert(fields_view(self.fields@) =~= fields_view(old(self).fields@).update(
            i as int,
            field@,
        ));
    }
}

} // verus!
