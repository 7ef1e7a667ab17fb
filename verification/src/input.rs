//! Rebindable mouse and keyboard actions. Bindings are exact about modifiers.

use crate::text::{chars_eq, normalize, normalized};
use vstd::prelude::*;

verus! {

/// User-facing commands that can be rebound in Settings.
#[derive(Debug, Clone, Copy, PartialEq, Eq, PartialOrd, Ord, Hash, Structural)]
pub enum InputAction {
    SelectReplace,
    SelectToggle,
    SelectClear,
    Pan,
    ZoomExtents,
}

impl InputAction {
    /// Every action, in settings order.
    pub const ALL: [InputAction; 5] = [
        InputAction::SelectReplace,
        InputAction::SelectToggle,
        InputAction::SelectClear,
        InputAction::Pan,
        InputAction::ZoomExtents,
    ];

    pub fn label(self) -> (label: &'static str)
        ensures
            label@ == action_label(self),
    {
        match self {
            InputAction::SelectReplace => "Select",
            InputAction::SelectToggle => "Add / remove from selection",
            InputAction::SelectClear => "Clear selection",
            InputAction::Pan => "Pan",
            InputAction::ZoomExtents => "Zoom extents",
        }
    }

    pub fn group(self) -> (group: &'static str)
        ensures
            group@ == action_group(self),
    {
        match self {
            InputAction::SelectReplace | InputAction::SelectToggle | InputAction::SelectClear => "Selection",
            InputAction::Pan | InputAction::ZoomExtents => "View",
        }
    }

    /// Pan is usually bound to a drag rather than a click.
    pub fn prefers_drag(self) -> (drag: bool)
        ensures
            drag <==> self == InputAction::Pan,
    {
        match self {
            InputAction::Pan => true,
            _ => false,
        }
    }
}

pub open spec fn action_label(action: InputAction) -> Seq<char> {
    match action {
        InputAction::SelectReplace => "Select"@,
        InputAction::SelectToggle => "Add / remove from selection"@,
        InputAction::SelectClear => "Clear selection"@,
        InputAction::Pan => "Pan"@,
        InputAction::ZoomExtents => "Zoom extents"@,
    }
}

pub open spec fn action_group(action: InputAction) -> Seq<char> {
    match action {
        InputAction::SelectReplace | InputAction::SelectToggle | InputAction::SelectClear => "Selection"@,
        InputAction::Pan | InputAction::ZoomExtents => "View"@,
    }
}

/// Mouse button identity.
#[derive(Debug, Clone, Copy, PartialEq, Eq, Structural)]
pub enum MouseButtonKind {
    Left,
    Middle,
    Right,
}

impl MouseButtonKind {
    pub fn label(self) -> (label: &'static str)
        ensures
            label@ == button_label(self),
    {
        match self {
            MouseButtonKind::Left => "Left",
            MouseButtonKind::Middle => "Middle",
            MouseButtonKind::Right => "Right",
        }
    }
}

pub open spec fn button_label(button: MouseButtonKind) -> Seq<char> {
    match button {
        MouseButtonKind::Left => "Left"@,
        MouseButtonKind::Middle => "Middle"@,
        MouseButtonKind::Right => "Right"@,
    }
}

/// How a binding is activated.
#[derive(Debug, Clone, Copy, PartialEq, Eq, Structural)]
pub enum Gesture {
    Click,
    DoubleClick,
    Drag,
    Key,
}

impl Default for Gesture {
    fn default() -> (gesture: Self)
        ensures
            gesture == Gesture::Click,
    {
        Gesture::Click
    }
}

/// Keyboard keys that a binding can name.
#[derive(Debug, Clone, Copy, PartialEq, Eq, Structural)]
pub enum Key {
    Escape,
    Enter,
    Space,
    Tab,
    Backspace,
    Delete,
    Insert,
    Home,
    End,
    PageUp,
    PageDown,
    ArrowLeft,
    ArrowRight,
    ArrowUp,
    ArrowDown,
    F1,
    F2,
    F3,
    F4,
    F5,
    F6,
    F7,
    F8,
    F9,
    F10,
    F11,
    F12,
    Num0,
    Num1,
    Num2,
    Num3,
    Num4,
    Num5,
    Num6,
    Num7,
    Num8,
    Num9,
    A,
    B,
    C,
    D,
    E,
    F,
    G,
    H,
    I,
    J,
    K,
    L,
    M,
    N,
    O,
    P,
    Q,
    R,
    S,
    T,
    U,
    V,
    W,
    X,
    Y,
    Z,
}

/// The key a normalized name stands for.
pub open spec fn key_named(n: Seq<char>) -> Option<Key> {
    if n == "escape"@ || n == "esc"@ {
        Some(Key::Escape)
    } else if n == "enter"@ || n == "return"@ {
        Some(Key::Enter)
    } else if n == "space"@ || n == "spacebar"@ {
        Some(Key::Space)
    } else if n == "tab"@ {
        Some(Key::Tab)
    } else if n == "backspace"@ {
        Some(Key::Backspace)
    } else if n == "delete"@ || n == "del"@ {
        Some(Key::Delete)
    } else if n == "insert"@ {
        Some(Key::Insert)
    } else if n == "home"@ {
        Some(Key::Home)
    } else if n == "end"@ {
        Some(Key::End)
    } else if n == "pageup"@ || n == "page_up"@ {
        Some(Key::PageUp)
    } else if n == "pagedown"@ || n == "page_down"@ {
        Some(Key::PageDown)
    } else if n == "left"@ || n == "arrowleft"@ {
        Some(Key::ArrowLeft)
    } else if n == "right"@ || n == "arrowright"@ {
        Some(Key::ArrowRight)
    } else if n == "up"@ || n == "arrowup"@ {
        Some(Key::ArrowUp)
    } else if n == "down"@ || n == "arrowdown"@ {
        Some(Key::ArrowDown)
    } else if n == "f1"@ {
        Some(Key::F1)
    } else if n == "f2"@ {
        Some(Key::F2)
    } else if n == "f3"@ {
        Some(Key::F3)
    } else if n == "f4"@ {
        Some(Key::F4)
    } else if n == "f5"@ {
        Some(Key::F5)
    } else if n == "f6"@ {
        Some(Key::F6)
    } else if n == "f7"@ {
        Some(Key::F7)
    } else if n == "f8"@ {
        Some(Key::F8)
    } else if n == "f9"@ {
        Some(Key::F9)
    } else if n == "f10"@ {
        Some(Key::F10)
    } else if n == "f11"@ {
        Some(Key::F11)
    } else if n == "f12"@ {
        Some(Key::F12)
    } else if n == "0"@ || n == "num0"@ {
        Some(Key::Num0)
    } else if n == "1"@ || n == "num1"@ {
        Some(Key::Num1)
    } else if n == "2"@ || n == "num2"@ {
        Some(Key::Num2)
    } else if n == "3"@ || n == "num3"@ {
        Some(Key::Num3)
    } else if n == "4"@ || n == "num4"@ {
        Some(Key::Num4)
    } else if n == "5"@ || n == "num5"@ {
        Some(Key::Num5)
    } else if n == "6"@ || n == "num6"@ {
        Some(Key::Num6)
    } else if n == "7"@ || n == "num7"@ {
        Some(Key::Num7)
    } else if n == "8"@ || n == "num8"@ {
        Some(Key::Num8)
    } else if n == "9"@ || n == "num9"@ {
        Some(Key::Num9)
    } else if n == "a"@ {
        Some(Key::A)
    } else if n == "b"@ {
        Some(Key::B)
    } else if n == "c"@ {
        Some(Key::C)
    } else if n == "d"@ {
        Some(Key::D)
    } else if n == "e"@ {
        Some(Key::E)
    } else if n == "f"@ {
        Some(Key::F)
    } else if n == "g"@ {
        Some(Key::G)
    } else if n == "h"@ {
        Some(Key::H)
    } else if n == "i"@ {
        Some(Key::I)
    } else if n == "j"@ {
        Some(Key::J)
    } else if n == "k"@ {
        Some(Key::K)
    } else if n == "l"@ {
        Some(Key::L)
    } else if n == "m"@ {
        Some(Key::M)
    } else if n == "n"@ {
        Some(Key::N)
    } else if n == "o"@ {
        Some(Key::O)
    } else if n == "p"@ {
        Some(Key::P)
    } else if n == "q"@ {
        Some(Key::Q)
    } else if n == "r"@ {
        Some(Key::R)
    } else if n == "s"@ {
        Some(Key::S)
    } else if n == "t"@ {
        Some(Key::T)
    } else if n == "u"@ {
        Some(Key::U)
    } else if n == "v"@ {
        Some(Key::V)
    } else if n == "w"@ {
        Some(Key::W)
    } else if n == "x"@ {
        Some(Key::X)
    } else if n == "y"@ {
        Some(Key::Y)
    } else if n == "z"@ {
        Some(Key::Z)
    } else {
        None
    }
}

/// The key a binding name stands for, ignoring surrounding white space and
/// ASCII case.
pub fn key_from_name(name: &str) -> (key: Option<Key>)
    ensures
        key == key_named(normalized(name@)),
{
    let n = normalize(name);
    if chars_eq(&n, "escape") || chars_eq(&n, "esc") {
        Some(Key::Escape)
    } else if chars_eq(&n, "enter") || chars_eq(&n, "return") {
        Some(Key::Enter)
    } else if chars_eq(&n, "space") || chars_eq(&n, "spacebar") {
        Some(Key::Space)
    } else if chars_eq(&n, "tab") {
        Some(Key::Tab)
    } else if chars_eq(&n, "backspace") {
        Some(Key::Backspace)
    } else if chars_eq(&n, "delete") || chars_eq(&n, "del") {
        Some(Key::Delete)
    } else if chars_eq(&n, "insert") {
        Some(Key::Insert)
    } else if chars_eq(&n, "home") {
        Some(Key::Home)
    } else if chars_eq(&n, "end") {
        Some(Key::End)
    } else if chars_eq(&n, "pageup") || chars_eq(&n, "page_up") {
        Some(Key::PageUp)
    } else if chars_eq(&n, "pagedown") || chars_eq(&n, "page_down") {
        Some(Key::PageDown)
    } else if chars_eq(&n, "left") || chars_eq(&n, "arrowleft") {
        Some(Key::ArrowLeft)
    } else if chars_eq(&n, "right") || chars_eq(&n, "arrowright") {
        Some(Key::ArrowRight)
    } else if chars_eq(&n, "up") || chars_eq(&n, "arrowup") {
        Some(Key::ArrowUp)
    } else if chars_eq(&n, "down") || chars_eq(&n, "arrowdown") {
        Some(Key::ArrowDown)
    } else if chars_eq(&n, "f1") {
        Some(Key::F1)
    } else if chars_eq(&n, "f2") {
        Some(Key::F2)
    } else if chars_eq(&n, "f3") {
        Some(Key::F3)
    } else if chars_eq(&n, "f4") {
        Some(Key::F4)
    } else if chars_eq(&n, "f5") {
        Some(Key::F5)
    } else if chars_eq(&n, "f6") {
        Some(Key::F6)
    } else if chars_eq(&n, "f7") {
        Some(Key::F7)
    } else if chars_eq(&n, "f8") {
        Some(Key::F8)
    } else if chars_eq(&n, "f9") {
        Some(Key::F9)
    } else if chars_eq(&n, "f10") {
        Some(Key::F10)
    } else if chars_eq(&n, "f11") {
        Some(Key::F11)
    } else if chars_eq(&n, "f12") {
        Some(Key::F12)
    } else if chars_eq(&n, "0") || chars_eq(&n, "num0") {
        Some(Key::Num0)
    } else if chars_eq(&n, "1") || chars_eq(&n, "num1") {
        Some(Key::Num1)
    } else if chars_eq(&n, "2") || chars_eq(&n, "num2") {
        Some(Key::Num2)
    } else if chars_eq(&n, "3") || chars_eq(&n, "num3") {
        Some(Key::Num3)
    } else if chars_eq(&n, "4") || chars_eq(&n, "num4") {
        Some(Key::Num4)
    } else if chars_eq(&n, "5") || chars_eq(&n, "num5") {
        Some(Key::Num5)
    } else if chars_eq(&n, "6") || chars_eq(&n, "num6") {
        Some(Key::Num6)
    } else if chars_eq(&n, "7") || chars_eq(&n, "num7") {
        Some(Key::Num7)
    } else if chars_eq(&n, "8") || chars_eq(&n, "num8") {
        Some(Key::Num8)
    } else if chars_eq(&n, "9") || chars_eq(&n, "num9") {
        Some(Key::Num9)
    } else if chars_eq(&n, "a") {
        Some(Key::A)
    } else if chars_eq(&n, "b") {
        Some(Key::B)
    } else if chars_eq(&n, "c") {
        Some(Key::C)
    } else if chars_eq(&n, "d") {
        Some(Key::D)
    } else if chars_eq(&n, "e") {
        Some(Key::E)
    } else if chars_eq(&n, "f") {
        Some(Key::F)
    } else if chars_eq(&n, "g") {
        Some(Key::G)
    } else if chars_eq(&n, "h") {
        Some(Key::H)
    } else if chars_eq(&n, "i") {
        Some(Key::I)
    } else if chars_eq(&n, "j") {
        Some(Key::J)
    } else if chars_eq(&n, "k") {
        Some(Key::K)
    } else if chars_eq(&n, "l") {
        Some(Key::L)
    } else if chars_eq(&n, "m") {
        Some(Key::M)
    } else if chars_eq(&n, "n") {
        Some(Key::N)
    } else if chars_eq(&n, "o") {
        Some(Key::O)
    } else if chars_eq(&n, "p") {
        Some(Key::P)
    } else if chars_eq(&n, "q") {
        Some(Key::Q)
    } else if chars_eq(&n, "r") {
        Some(Key::R)
    } else if chars_eq(&n, "s") {
        Some(Key::S)
    } else if chars_eq(&n, "t") {
        Some(Key::T)
    } else if chars_eq(&n, "u") {
        Some(Key::U)
    } else if chars_eq(&n, "v") {
        Some(Key::V)
    } else if chars_eq(&n, "w") {
        Some(Key::W)
    } else if chars_eq(&n, "x") {
        Some(Key::X)
    } else if chars_eq(&n, "y") {
        Some(Key::Y)
    } else if chars_eq(&n, "z") {
        Some(Key::Z)
    } else {
        None
    }
}


/// Modifier keys held during a gesture.
#[derive(Debug, Clone, Copy, PartialEq, Eq, Structural)]
pub struct Modifiers {
    pub alt: bool,
    pub ctrl: bool,
    pub shift: bool,
    /// The Command key on a Mac.
    pub mac_cmd: bool,
    /// Ctrl elsewhere, Command on a Mac.
    pub command: bool,
}

/// One concrete shortcut. Modifier flags are exact: Ctrl+Click does not also
/// fire a no-modifier Click binding.
#[derive(Debug, Clone, PartialEq, Eq)]
pub struct Binding {
    pub mouse: Option<MouseButtonKind>,
    pub key: Option<String>,
    pub gesture: Gesture,
    pub ctrl: bool,
    pub shift: bool,
    pub alt: bool,
    pub command: bool,
}

/// The plain value of a binding: its key name as text.
pub struct BindingView {
    pub mouse: Option<MouseButtonKind>,
    pub key: Option<Seq<char>>,
    pub gesture: Gesture,
    pub ctrl: bool,
    pub shift: bool,
    pub alt: bool,
    pub command: bool,
}

impl View for Binding {
    type V = BindingView;

    open spec fn view(&self) -> BindingView {
        BindingView {
            mouse: self.mouse,
            key: match self.key {
                Some(k) => Some(k@),
                None => None,
            },
            gesture: self.gesture,
            ctrl: self.ctrl,
            shift: self.shift,
            alt: self.alt,
            command: self.command,
        }
    }
}

/// A binding's key name as compared: trimmed and ASCII lower-cased.
pub open spec fn key_norm(key: Option<Seq<char>>) -> Option<Seq<char>> {
    match key {
        Some(k) => Some(normalized(k)),
        None => None,
    }
}

/// Two bindings are the same shortcut.
pub open spec fn conflict(a: BindingView, b: BindingView) -> bool {
    &&& a.mouse == b.mouse
    &&& key_norm(a.key) == key_norm(b.key)
    &&& a.gesture == b.gesture
    &&& a.ctrl == b.ctrl
    &&& a.shift == b.shift
    &&& a.alt == b.alt
    &&& a.command == b.command
}

/// A binding that can fire: a key binding names a known key, a pointer
/// binding names a button.
pub open spec fn valid_binding(b: BindingView) -> bool {
    match b.gesture {
        Gesture::Key => b.key is Some && key_named(normalized(b.key.unwrap())) is Some,
        _ => b.mouse is Some,
    }
}

/// The modifiers held match the binding exactly. On a Mac (or when the
/// Command key itself is reported) Ctrl and Command are told apart;
/// elsewhere either one stands for the Ctrl family.
pub open spec fn modifiers_match(b: BindingView, m: Modifiers, mac: bool) -> bool {
    if b.shift != m.shift || b.alt != m.alt {
        false
    } else if mac || m.mac_cmd {
        b.command == m.command && b.ctrl == m.ctrl
    } else {
        (b.ctrl || b.command) == (m.ctrl || m.command)
    }
}

/// The binding fires for a pointer gesture of `button`.
pub open spec fn pointer_match(
    b: BindingView,
    gesture: Gesture,
    button: Option<MouseButtonKind>,
    m: Modifiers,
    mac: bool,
) -> bool {
    b.gesture == gesture && b.mouse == button && modifiers_match(b, m, mac)
}

/// A binding without button, key or modifiers.
pub open spec fn plain_binding() -> BindingView {
    BindingView {
        mouse: None,
        key: None,
        gesture: Gesture::Click,
        ctrl: false,
        shift: false,
        alt: false,
        command: false,
    }
}

/// A single click of `button`.
pub open spec fn click_view(button: MouseButtonKind) -> BindingView {
    BindingView { mouse: Some(button), ..plain_binding() }
}

/// A drag with `button`.
pub open spec fn drag_view(button: MouseButtonKind) -> BindingView {
    BindingView { mouse: Some(button), gesture: Gesture::Drag, ..plain_binding() }
}

/// A double click of `button`.
pub open spec fn double_click_view(button: MouseButtonKind) -> BindingView {
    BindingView { mouse: Some(button), gesture: Gesture::DoubleClick, ..plain_binding() }
}

/// A key binding named `name`.
pub open spec fn key_view(name: Seq<char>) -> BindingView {
    BindingView { key: Some(name), gesture: Gesture::Key, ..plain_binding() }
}

impl Default for Binding {
    fn default() -> (binding: Self)
        ensures
            binding@ == plain_binding(),
    {
        Binding {
            mouse: None,
            key: None,
            gesture: Gesture::Click,
            ctrl: false,
            shift: false,
            alt: false,
            command: false,
        }
    }
}

impl Binding {
    /// A key binding without modifiers.
    pub fn key(name: &str) -> (binding: Self)
        ensures
            binding@ == key_view(name@),
    {
        Binding {
            mouse: None,
            key: Some(name.to_string()),
            gesture: Gesture::Key,
            ctrl: false,
            shift: false,
            alt: false,
            command: false,
        }
    }

    /// A single click of `button` without modifiers.
    pub fn click(button: MouseButtonKind) -> (binding: Self)
        ensures
            binding@ == click_view(button),
    {
        Binding {
            mouse: Some(button),
            key: None,
            gesture: Gesture::Click,
            ctrl: false,
            shift: false,
            alt: false,
            command: false,
        }
    }

    /// A double click of `button` without modifiers.
    pub fn double_click(button: MouseButtonKind) -> (binding: Self)
        ensures
            binding@ == double_click_view(button),
    {
        Binding {
            mouse: Some(button),
            key: None,
            gesture: Gesture::DoubleClick,
            ctrl: false,
            shift: false,
            alt: false,
            command: false,
        }
    }

    /// A drag with `button` without modifiers.
    pub fn drag(button: MouseButtonKind) -> (binding: Self)
        ensures
            binding@ == drag_view(button),
    {
        Binding {
            mouse: Some(button),
            key: None,
            gesture: Gesture::Drag,
            ctrl: false,
            shift: false,
            alt: false,
            command: false,
        }
    }

    pub fn with_ctrl(self) -> (binding: Self)
        ensures
            binding@ == (BindingView { ctrl: true, ..self@ }),
    {
        let mut binding = self;
        binding.ctrl = true;
        binding
    }

    pub fn with_shift(self) -> (binding: Self)
        ensures
            binding@ == (BindingView { shift: true, ..self@ }),
    {
        let mut binding = self;
        binding.shift = true;
        binding
    }

    pub fn with_command(self) -> (binding: Self)
        ensures
            binding@ == (BindingView { command: true, ..self@ }),
    {
        let mut binding = self;
        binding.command = true;
        binding
    }

    /// A copy of this binding.
    pub(crate) fn copied(&self) -> (binding: Self)
        ensures
            binding == *self,
    {
        Binding {
            mouse: self.mouse,
            key: match &self.key {
                Some(k) => Some(k.clone()),
                None => None,
            },
            gesture: self.gesture,
            ctrl: self.ctrl,
            shift: self.shift,
            alt: self.alt,
            command: self.command,
        }
    }

    pub fn is_valid(&self) -> (valid: bool)
        ensures
            valid == valid_binding(self@),
    {
        match self.gesture {
            Gesture::Key => match &self.key {
                Some(name) => key_from_name(name.as_str()).is_some(),
                None => false,
            },
            _ => self.mouse.is_some(),
        }
    }

    /// The two bindings are the same shortcut, up to key-name case and
    /// surrounding white space.
    pub fn conflicts_with(&self, other: &Self) -> (same: bool)
        ensures
            same == conflict(self@, other@),
    {
        let keys_match = match (&self.key, &other.key) {
            (Some(a), Some(b)) => {
                let na = normalize(a.as_str());
                let nb = normalize(b.as_str());
                vec_chars_eq(&na, &nb)
            },
            (None, None) => true,
            _ => false,
        };
        self.mouse == other.mouse && keys_match && self.gesture == other.gesture && self.ctrl
            == other.ctrl && self.shift == other.shift && self.alt == other.alt && self.command
            == other.command
    }

    /// This binding with its key name trimmed and lower-cased.
    pub fn normalized(&self) -> (binding: Self)
        ensures
            binding@ == (BindingView { key: key_norm(self@.key), ..self@ }),
    {
        let key = match &self.key {
            Some(k) => {
                let n = normalize(k.as_str());
                Some(crate::text::string_of(&n, 0, n.len()))
            },
            None => None,
        };
        assert(key is Some ==> key.unwrap()@ =~= key_norm(self@.key).unwrap());
        Binding {
            mouse: self.mouse,
            key,
            gesture: self.gesture,
            ctrl: self.ctrl,
            shift: self.shift,
            alt: self.alt,
            command: self.command,
        }
    }

    /// The held modifiers are exactly the binding's; `mac` tells whether the
    /// platform is macOS.
    pub fn matches_modifiers(&self, modifiers: Modifiers, mac: bool) -> (matched: bool)
        ensures
            matched == modifiers_match(self@, modifiers, mac),
    {
        if self.shift != modifiers.shift || self.alt != modifiers.alt {
            return false;
        }
        if mac || modifiers.mac_cmd {
            self.command == modifiers.command && self.ctrl == modifiers.ctrl
        } else {
            (self.ctrl || self.command) == (modifiers.ctrl || modifiers.command)
        }
    }

    pub fn matches_click(
        &self,
        button: Option<MouseButtonKind>,
        modifiers: Modifiers,
        mac: bool,
    ) -> (matched: bool)
        ensures
            matched == pointer_match(self@, Gesture::Click, button, modifiers, mac),
    {
        self.gesture == Gesture::Click && self.mouse == button && self.matches_modifiers(
            modifiers,
            mac,
        )
    }

    pub fn matches_double_click(
        &self,
        button: Option<MouseButtonKind>,
        modifiers: Modifiers,
        mac: bool,
    ) -> (matched: bool)
        ensures
            matched == pointer_match(self@, Gesture::DoubleClick, button, modifiers, mac),
    {
        self.gesture == Gesture::DoubleClick && self.mouse == button && self.matches_modifiers(
            modifiers,
            mac,
        )
    }

    pub fn matches_drag(
        &self,
        button: Option<MouseButtonKind>,
        modifiers: Modifiers,
        mac: bool,
    ) -> (matched: bool)
        ensures
            matched == pointer_match(self@, Gesture::Drag, button, modifiers, mac),
    {
        self.gesture == Gesture::Drag && self.mouse == button && self.matches_modifiers(
            modifiers,
            mac,
        )
    }

    /// A key binding fires when its key was pressed this frame (`pressed`)
    /// with exactly its modifiers.
    pub fn matches_key(&self, pressed: &[Key], modifiers: Modifiers, mac: bool) -> (matched: bool)
        ensures
            matched == key_match(self@, pressed@, modifiers, mac),
    {
        if self.gesture != Gesture::Key {
            return false;
        }
        let name = match &self.key {
            Some(name) => name,
            None => return false,
        };
        let key = match key_from_name(name.as_str()) {
            Some(key) => key,
            None => return false,
        };
        let mut i: usize = 0;
        while i < pressed.len()
            invariant
                i <= pressed@.len(),
                forall|j: int| 0 <= j < i ==> pressed@[j] != key,
                self.gesture == Gesture::Key,
                self.key is Some,
                Some(key) == key_named(normalized(self.key.unwrap()@)),
            decreases pressed@.len() - i,
        {
            if pressed[i] == key {
                assert(pressed@.contains(key));
                return self.matches_modifiers(modifiers, mac);
            }
            i = i + 1;
        }
        false
    }
}

/// A key binding fires for the keys pressed this frame.
pub open spec fn key_match(b: BindingView, pressed: Seq<Key>, m: Modifiers, mac: bool) -> bool {
    &&& b.gesture == Gesture::Key
    &&& b.key is Some
    &&& key_named(normalized(b.key.unwrap())) is Some
    &&& pressed.contains(key_named(normalized(b.key.unwrap())).unwrap())
    &&& modifiers_match(b, m, mac)
}

fn vec_chars_eq(a: &Vec<char>, b: &Vec<char>) -> (eq: bool)
    ensures
        eq == (a@ == b@),
{
    if a.len() != b.len() {
        return false;
    }
    let mut i: usize = 0;
    while i < a.len()
        invariant
            a@.len() == b@.len(),
            i <= a@.len(),
            forall|k: int| 0 <= k < i ==> a@[k] == b@[k],
        decreases a@.len() - i,
    {
        if a[i] != b[i] {
            return false;
        }
        i = i + 1;
    }
    assert(a@ =~= b@);
    true
}


/// All rebindable actions. Missing actions fall back to defaults.
#[derive(Debug, Clone, PartialEq, Eq)]
pub struct InputMap {
    pub select_replace: Vec<Binding>,
    pub select_toggle: Vec<Binding>,
    pub select_clear: Vec<Binding>,
    pub pan: Vec<Binding>,
    pub zoom_extents: Vec<Binding>,
}

/// The bindings of every action, as plain values.
pub struct InputMapView {
    pub select_replace: Seq<BindingView>,
    pub select_toggle: Seq<BindingView>,
    pub select_clear: Seq<BindingView>,
    pub pan: Seq<BindingView>,
    pub zoom_extents: Seq<BindingView>,
}

pub open spec fn bindings_view(v: Seq<Binding>) -> Seq<BindingView> {
    v.map_values(|b: Binding| b@)
}

impl View for InputMap {
    type V = InputMapView;

    open spec fn view(&self) -> InputMapView {
        InputMapView {
            select_replace: bindings_view(self.select_replace@),
            select_toggle: bindings_view(self.select_toggle@),
            select_clear: bindings_view(self.select_clear@),
            pan: bindings_view(self.pan@),
            zoom_extents: bindings_view(self.zoom_extents@),
        }
    }
}

/// The bindings of one action.
pub open spec fn list_view(m: InputMapView, action: InputAction) -> Seq<BindingView> {
    match action {
        InputAction::SelectReplace => m.select_replace,
        InputAction::SelectToggle => m.select_toggle,
        InputAction::SelectClear => m.select_clear,
        InputAction::Pan => m.pan,
        InputAction::ZoomExtents => m.zoom_extents,
    }
}

/// `m` with the bindings of `action` replaced by `list`.
pub open spec fn with_list(m: InputMapView, action: InputAction, list: Seq<BindingView>) -> InputMapView {
    match action {
        InputAction::SelectReplace => InputMapView { select_replace: list, ..m },
        InputAction::SelectToggle => InputMapView { select_toggle: list, ..m },
        InputAction::SelectClear => InputMapView { select_clear: list, ..m },
        InputAction::Pan => InputMapView { pan: list, ..m },
        InputAction::ZoomExtents => InputMapView { zoom_extents: list, ..m },
    }
}

/// The factory bindings of each action.
pub open spec fn standard_list(action: InputAction) -> Seq<BindingView> {
    match action {
        InputAction::SelectReplace => seq![
            click_view(MouseButtonKind::Left),
            drag_view(MouseButtonKind::Left),
        ],
        InputAction::SelectToggle => seq![
            BindingView { ctrl: true, ..click_view(MouseButtonKind::Left) },
            BindingView { shift: true, ..click_view(MouseButtonKind::Left) },
            BindingView { ctrl: true, ..drag_view(MouseButtonKind::Left) },
            BindingView { shift: true, ..drag_view(MouseButtonKind::Left) },
        ],
        InputAction::SelectClear => seq![key_view("escape"@)],
        InputAction::Pan => seq![drag_view(MouseButtonKind::Middle)],
        InputAction::ZoomExtents => seq![
            double_click_view(MouseButtonKind::Left),
            BindingView { command: true, ..key_view("e"@) },
        ],
    }
}

/// The factory input map.
pub open spec fn standard_map() -> InputMapView {
    InputMapView {
        select_replace: standard_list(InputAction::SelectReplace),
        select_toggle: standard_list(InputAction::SelectToggle),
        select_clear: standard_list(InputAction::SelectClear),
        pan: standard_list(InputAction::Pan),
        zoom_extents: standard_list(InputAction::ZoomExtents),
    }
}

/// Some binding of some action is the same shortcut as `b`.
pub open spec fn taken(m: InputMapView, b: BindingView) -> bool {
    exists|a: InputAction, i: int|
        0 <= i < list_view(m, a).len() && conflict(#[trigger] list_view(m, a)[i], b)
}

/// A pointer click binding: its drag companion shares the button and modifiers.
pub open spec fn is_pointer_click(b: BindingView) -> bool {
    b.gesture == Gesture::Click && b.mouse is Some
}

/// The drag form of every pointer click of `list`, in order.
pub open spec fn drag_companions(list: Seq<BindingView>) -> Seq<BindingView> {
    list.filter(pointer_click_pred()).map_values(as_drag())
}

pub open spec fn pointer_click_pred() -> spec_fn(BindingView) -> bool {
    |b: BindingView| is_pointer_click(b)
}

pub open spec fn as_drag() -> spec_fn(BindingView) -> BindingView {
    |b: BindingView| BindingView { gesture: Gesture::Drag, ..b }
}

pub open spec fn valid_pred() -> spec_fn(BindingView) -> bool {
    |b: BindingView| valid_binding(b)
}

/// `m` after offering each of `drags` to `action`, in order: a drag is added
/// unless some action already has the same shortcut.
pub open spec fn add_drags(m: InputMapView, action: InputAction, drags: Seq<BindingView>) -> InputMapView
    decreases drags.len(),
{
    if drags.len() == 0 {
        m
    } else {
        let before = add_drags(m, action, drags.drop_last());
        let d = drags.last();
        if taken(before, d) {
            before
        } else {
            with_list(before, action, list_view(before, action).push(d))
        }
    }
}

/// Click-select and box-select share a button: every select click gets its
/// drag companion unless that shortcut is already bound.
pub open spec fn with_drag_companions(m: InputMapView) -> InputMapView {
    let m1 = add_drags(
        m,
        InputAction::SelectReplace,
        drag_companions(list_view(m, InputAction::SelectReplace)),
    );
    add_drags(
        m1,
        InputAction::SelectToggle,
        drag_companions(list_view(m1, InputAction::SelectToggle)),
    )
}

/// The valid bindings of `list`, or the factory ones when none is valid.
pub open spec fn sanitized_list(list: Seq<BindingView>, action: InputAction) -> Seq<BindingView> {
    let kept = list.filter(valid_pred());
    if kept.len() == 0 {
        standard_list(action)
    } else {
        kept
    }
}

/// The input map after `sanitize`.
pub open spec fn sanitized_map(m: InputMapView) -> InputMapView {
    with_drag_companions(
        InputMapView {
            select_replace: sanitized_list(m.select_replace, InputAction::SelectReplace),
            select_toggle: sanitized_list(m.select_toggle, InputAction::SelectToggle),
            select_clear: sanitized_list(m.select_clear, InputAction::SelectClear),
            pan: sanitized_list(m.pan, InputAction::Pan),
            zoom_extents: sanitized_list(m.zoom_extents, InputAction::ZoomExtents),
        },
    )
}

/// The bindings of `list`, each tagged with `action`.
pub open spec fn tagged(action: InputAction, list: Seq<BindingView>) -> Seq<(InputAction, BindingView)> {
    list.map_values(|b: BindingView| (action, b))
}

/// Every binding of the map, tagged with its action, in settings order.
pub open spec fn all_items(m: InputMapView) -> Seq<(InputAction, BindingView)> {
    tagged(InputAction::SelectReplace, m.select_replace) + tagged(
        InputAction::SelectToggle,
        m.select_toggle,
    ) + tagged(InputAction::SelectClear, m.select_clear) + tagged(InputAction::Pan, m.pan)
        + tagged(InputAction::ZoomExtents, m.zoom_extents)
}

/// The conflicts of item `i` with the items `i + 1 .. j`, in order.
pub open spec fn conflict_row(items: Seq<(InputAction, BindingView)>, i: int, j: int) -> Seq<
    (InputAction, InputAction, BindingView),
>
    decreases j - i,
{
    if j <= i + 1 {
        seq![]
    } else {
        let row = conflict_row(items, i, j - 1);
        if conflict(items[i].1, items[j - 1].1) {
            row.push((items[i].0, items[j - 1].0, items[i].1))
        } else {
            row
        }
    }
}

/// The conflicts of the items before `i` with every later item.
pub open spec fn conflict_rows(items: Seq<(InputAction, BindingView)>, i: int) -> Seq<
    (InputAction, InputAction, BindingView),
>
    decreases i,
{
    if i <= 0 {
        seq![]
    } else {
        conflict_rows(items, i - 1) + conflict_row(items, i - 1, items.len() as int)
    }
}

/// Every pair of bindings that are the same shortcut, as (earlier action,
/// later action, binding), in settings order.
pub open spec fn conflict_list(m: InputMapView) -> Seq<(InputAction, InputAction, BindingView)> {
    conflict_rows(all_items(m), all_items(m).len() as int)
}

pub open spec fn triples_view(v: Seq<(InputAction, InputAction, Binding)>) -> Seq<
    (InputAction, InputAction, BindingView),
> {
    v.map_values(|t: (InputAction, InputAction, Binding)| (t.0, t.1, t.2@))
}

pub open spec fn pairs_view(v: Seq<(InputAction, Binding)>) -> Seq<(InputAction, BindingView)> {
    v.map_values(|t: (InputAction, Binding)| (t.0, t.1@))
}

/// Appends a copy of each binding of `list`, tagged with `action`.
fn push_tagged(items: &mut Vec<(InputAction, Binding)>, action: InputAction, list: &Vec<Binding>)
    ensures
        pairs_view(final(items)@) == pairs_view(old(items)@) + tagged(action, bindings_view(list@)),
{
    let ghost start = pairs_view(items@);
    let mut i: usize = 0;
    while i < list.len()
        invariant
            i <= list@.len(),
            pairs_view(items@) == start + tagged(action, bindings_view(list@.take(i as int))),
        decreases list@.len() - i,
    {
        let ghost before = items@;
        items.push((action, list[i].copied()));
        assert(list@.take(i + 1) =~= list@.take(i as int).push(list@[i as int]));
        assert(pairs_view(items@) =~= pairs_view(before).push((action, list@[i as int]@)));
        assert(tagged(action, bindings_view(list@.take(i + 1))) =~= tagged(
            action,
            bindings_view(list@.take(i as int)),
        ).push((action, list@[i as int]@)));
        i = i + 1;
    }
    assert(list@.take(list@.len() as int) =~= list@);
}

/// Some binding of `list` fires for a pointer gesture.
fn any_pointer_match(
    list: &[Binding],
    gesture: Gesture,
    button: Option<MouseButtonKind>,
    modifiers: Modifiers,
    mac: bool,
) -> (found: bool)
    ensures
        found <==> exists|i: int|
            0 <= i < list@.len() && pointer_match(
                #[trigger] list@[i]@,
                gesture,
                button,
                modifiers,
                mac,
            ),
{
    let mut i: usize = 0;
    while i < list.len()
        invariant
            i <= list@.len(),
            forall|k: int|
                0 <= k < i ==> !pointer_match(#[trigger] list@[k]@, gesture, button, modifiers, mac),
        decreases list@.len() - i,
    {
        let b = &list[i];
        if b.gesture == gesture && b.mouse == button && b.matches_modifiers(modifiers, mac) {
            return true;
        }
        i = i + 1;
    }
    false
}

/// The button of the first drag binding of `list`.
pub open spec fn first_drag_button(list: Seq<BindingView>) -> Option<MouseButtonKind>
    decreases list.len(),
{
    if list.len() == 0 {
        None
    } else if list[0].gesture == Gesture::Drag {
        list[0].mouse
    } else {
        first_drag_button(list.drop_first())
    }
}

proof fn lemma_views_index(list: Seq<Binding>, views: Seq<BindingView>)
    requires
        bindings_view(list) == views,
    ensures
        list.len() == views.len(),
        forall|i: int| 0 <= i < list.len() ==> #[trigger] list[i]@ == views[i],
{
    assert forall|i: int| 0 <= i < list.len() implies #[trigger] list[i]@ == views[i] by {
        assert(bindings_view(list)[i] == list[i]@);
    }
}

/// A copy of each binding of `list`.
fn copy_bindings(list: &Vec<Binding>) -> (copy: Vec<Binding>)
    ensures
        copy@ == list@,
{
    let mut copy: Vec<Binding> = Vec::new();
    let mut i: usize = 0;
    while i < list.len()
        invariant
            i <= list@.len(),
            copy@ == list@.take(i as int),
        decreases list@.len() - i,
    {
        copy.push(list[i].copied());
        assert(list@.take(i + 1) =~= list@.take(i as int).push(list@[i as int]));
        i = i + 1;
    }
    assert(list@.take(list@.len() as int) =~= list@);
    copy
}

/// Some binding of `list` is the same shortcut as `b`.
fn any_conflict(list: &Vec<Binding>, b: &Binding) -> (found: bool)
    ensures
        found <==> exists|i: int| 0 <= i < list@.len() && conflict(#[trigger] list@[i]@, b@),
{
    let mut i: usize = 0;
    while i < list.len()
        invariant
            i <= list@.len(),
            forall|k: int| 0 <= k < i ==> !conflict(#[trigger] list@[k]@, b@),
        decreases list@.len() - i,
    {
        if list[i].conflicts_with(b) {
            return true;
        }
        i = i + 1;
    }
    false
}

impl Default for InputMap {
    fn default() -> (map: Self)
        ensures
            map@ == standard_map(),
    {
        InputMap::standard()
    }
}

impl InputMap {
    /// The factory bindings.
    pub fn standard() -> (map: Self)
        ensures
            map@ == standard_map(),
    {
        let mut select_replace = Vec::new();
        select_replace.push(Binding::click(MouseButtonKind::Left));
        select_replace.push(Binding::drag(MouseButtonKind::Left));
        let mut select_toggle = Vec::new();
        select_toggle.push(Binding::click(MouseButtonKind::Left).with_ctrl());
        select_toggle.push(Binding::click(MouseButtonKind::Left).with_shift());
        select_toggle.push(Binding::drag(MouseButtonKind::Left).with_ctrl());
        select_toggle.push(Binding::drag(MouseButtonKind::Left).with_shift());
        let mut select_clear = Vec::new();
        select_clear.push(Binding::key("escape"));
        let mut pan = Vec::new();
        pan.push(Binding::drag(MouseButtonKind::Middle));
        let mut zoom_extents = Vec::new();
        zoom_extents.push(Binding::double_click(MouseButtonKind::Left));
        zoom_extents.push(Binding::key("e").with_command());
        let map = InputMap { select_replace, select_toggle, select_clear, pan, zoom_extents };
        assert(map@.select_replace =~= standard_list(InputAction::SelectReplace));
        assert(map@.select_toggle =~= standard_list(InputAction::SelectToggle));
        assert(map@.select_clear =~= standard_list(InputAction::SelectClear));
        assert(map@.pan =~= standard_list(InputAction::Pan));
        assert(map@.zoom_extents =~= standard_list(InputAction::ZoomExtents));
        map
    }

    /// The bindings of `action`.
    pub fn bindings_for(&self, action: InputAction) -> (list: &[Binding])
        ensures
            bindings_view(list@) == list_view(self@, action),
    {
        match action {
            InputAction::SelectReplace => self.select_replace.as_slice(),
            InputAction::SelectToggle => self.select_toggle.as_slice(),
            InputAction::SelectClear => self.select_clear.as_slice(),
            InputAction::Pan => self.pan.as_slice(),
            InputAction::ZoomExtents => self.zoom_extents.as_slice(),
        }
    }

    fn list(&self, action: InputAction) -> (list: &Vec<Binding>)
        ensures
            bindings_view(list@) == list_view(self@, action),
    {
        match action {
            InputAction::SelectReplace => &self.select_replace,
            InputAction::SelectToggle => &self.select_toggle,
            InputAction::SelectClear => &self.select_clear,
            InputAction::Pan => &self.pan,
            InputAction::ZoomExtents => &self.zoom_extents,
        }
    }

    /// The bindings of `action`, for editing in place.
    pub fn bindings_for_mut(&mut self, action: InputAction) -> (list: &mut Vec<Binding>)
        ensures
            bindings_view(list@) == list_view(old(self)@, action),
            final(self)@ == with_list(old(self)@, action, bindings_view(final(list)@)),
    {
        match action {
            InputAction::SelectReplace => &mut self.select_replace,
            InputAction::SelectToggle => &mut self.select_toggle,
            InputAction::SelectClear => &mut self.select_clear,
            InputAction::Pan => &mut self.pan,
            InputAction::ZoomExtents => &mut self.zoom_extents,
        }
    }

    /// Every pair of bindings that are the same shortcut, as (earlier action,
    /// later action, binding), in settings order.
    pub fn conflicts(&self) -> (found: Vec<(InputAction, InputAction, Binding)>)
        ensures
            triples_view(found@) == conflict_list(self@),
    {
        let mut items: Vec<(InputAction, Binding)> = Vec::new();
        push_tagged(&mut items, InputAction::SelectReplace, &self.select_replace);
        push_tagged(&mut items, InputAction::SelectToggle, &self.select_toggle);
        push_tagged(&mut items, InputAction::SelectClear, &self.select_clear);
        push_tagged(&mut items, InputAction::Pan, &self.pan);
        push_tagged(&mut items, InputAction::ZoomExtents, &self.zoom_extents);
        let ghost all = pairs_view(items@);
        assert(all =~= all_items(self@));
        let n = items.len();
        let mut out: Vec<(InputAction, InputAction, Binding)> = Vec::new();
        let mut i: usize = 0;
        while i < n
            invariant
                n == items@.len(),
                all == pairs_view(items@),
                i <= n,
                triples_view(out@) == conflict_rows(all, i as int),
            decreases n - i,
        {
            let ghost row_start = triples_view(out@);
            let mut j: usize = i + 1;
            while j < n
                invariant
                    n == items@.len(),
                    all == pairs_view(items@),
                    i < n,
                    i + 1 <= j <= n,
                    triples_view(out@) == row_start + conflict_row(all, i as int, j as int),
                decreases n - j,
            {
                let (left_action, left) = &items[i];
                let (right_action, right) = &items[j];
                if left.conflicts_with(right) {
                    let ghost before = out@;
                    out.push((*left_action, *right_action, left.copied()));
                    assert(triples_view(out@) =~= triples_view(before).push(
                        (all[i as int].0, all[j as int].0, all[i as int].1),
                    ));
                }
                j = j + 1;
            }
            i = i + 1;
        }
        assert(all.len() == n);
        out
    }

    /// Some binding of `action` fires for a click of `button`.
    pub fn clicked(
        &self,
        action: InputAction,
        button: Option<MouseButtonKind>,
        modifiers: Modifiers,
        mac: bool,
    ) -> (fired: bool)
        ensures
            fired <==> exists|i: int|
                0 <= i < list_view(self@, action).len() && pointer_match(
                    #[trigger] list_view(self@, action)[i],
                    Gesture::Click,
                    button,
                    modifiers,
                    mac,
                ),
    {
        let list = self.bindings_for(action);
        let found = any_pointer_match(list, Gesture::Click, button, modifiers, mac);
        proof {
            lemma_views_index(list@, list_view(self@, action));
        }
        found
    }

    /// Some binding of `action` fires for a double click of `button`.
    pub fn double_clicked(
        &self,
        action: InputAction,
        button: Option<MouseButtonKind>,
        modifiers: Modifiers,
        mac: bool,
    ) -> (fired: bool)
        ensures
            fired <==> exists|i: int|
                0 <= i < list_view(self@, action).len() && pointer_match(
                    #[trigger] list_view(self@, action)[i],
                    Gesture::DoubleClick,
                    button,
                    modifiers,
                    mac,
                ),
    {
        let list = self.bindings_for(action);
        let found = any_pointer_match(list, Gesture::DoubleClick, button, modifiers, mac);
        proof {
            lemma_views_index(list@, list_view(self@, action));
        }
        found
    }

    /// Some binding of `action` fires for a drag with `button`.
    pub fn dragged(
        &self,
        action: InputAction,
        button: Option<MouseButtonKind>,
        modifiers: Modifiers,
        mac: bool,
    ) -> (fired: bool)
        ensures
            fired <==> exists|i: int|
                0 <= i < list_view(self@, action).len() && pointer_match(
                    #[trigger] list_view(self@, action)[i],
                    Gesture::Drag,
                    button,
                    modifiers,
                    mac,
                ),
    {
        let list = self.bindings_for(action);
        let found = any_pointer_match(list, Gesture::Drag, button, modifiers, mac);
        proof {
            lemma_views_index(list@, list_view(self@, action));
        }
        found
    }

    /// A click or a drag with `button` selects for `action`.
    pub fn selects_with_pointer(
        &self,
        action: InputAction,
        button: Option<MouseButtonKind>,
        modifiers: Modifiers,
        mac: bool,
    ) -> (fired: bool)
        ensures
            fired <==> exists|i: int|
                0 <= i < list_view(self@, action).len() && (pointer_match(
                    #[trigger] list_view(self@, action)[i],
                    Gesture::Click,
                    button,
                    modifiers,
                    mac,
                ) || pointer_match(list_view(self@, action)[i], Gesture::Drag, button, modifiers, mac)),
    {
        self.clicked(action, button, modifiers, mac) || self.dragged(action, button, modifiers, mac)
    }

    /// Some key binding of `action` fires for the keys pressed this frame.
    pub fn key_pressed(&self, action: InputAction, pressed: &[Key], modifiers: Modifiers, mac: bool) -> (fired: bool)
        ensures
            fired <==> exists|i: int|
                0 <= i < list_view(self@, action).len() && key_match(
                    #[trigger] list_view(self@, action)[i],
                    pressed@,
                    modifiers,
                    mac,
                ),
    {
        let list = self.bindings_for(action);
        proof {
            lemma_views_index(list@, list_view(self@, action));
        }
        let mut i: usize = 0;
        while i < list.len()
            invariant
                i <= list@.len(),
                bindings_view(list@) == list_view(self@, action),
                forall|k: int| 0 <= k < i ==> !key_match(#[trigger] list@[k]@, pressed@, modifiers, mac),
            decreases list@.len() - i,
        {
            if list[i].matches_key(pressed, modifiers, mac) {
                assert(list_view(self@, action)[i as int] == list@[i as int]@);
                return true;
            }
            i = i + 1;
        }
        false
    }

    /// The button of the first drag binding of `action`.
    pub fn pointer_button_for_drag(&self, action: InputAction) -> (button: Option<MouseButtonKind>)
        ensures
            button == first_drag_button(list_view(self@, action)),
    {
        let list = self.bindings_for(action);
        assert(list_view(self@, action).skip(0) =~= list_view(self@, action));
        let mut i: usize = 0;
        while i < list.len()
            invariant
                i <= list@.len(),
                bindings_view(list@) == list_view(self@, action),
                first_drag_button(list_view(self@, action)) == first_drag_button(
                    list_view(self@, action).skip(i as int),
                ),
            decreases list@.len() - i,
        {
            let ghost rest = list_view(self@, action).skip(i as int);
            assert(rest[0] == list@[i as int]@);
            assert(rest.drop_first() =~= list_view(self@, action).skip(i + 1));
            if list[i].gesture == Gesture::Drag {
                return list[i].mouse;
            }
            i = i + 1;
        }
        assert(list_view(self@, action).skip(i as int) =~= seq![]);
        None
    }

    /// Drops invalid bindings, restores the factory bindings of any action
    /// left with none, and gives every select click its drag companion.
    pub fn sanitize(&mut self)
        ensures
            final(self)@ == sanitized_map(old(self)@),
    {
        self.sanitize_action(InputAction::SelectReplace);
        self.sanitize_action(InputAction::SelectToggle);
        self.sanitize_action(InputAction::SelectClear);
        self.sanitize_action(InputAction::Pan);
        self.sanitize_action(InputAction::ZoomExtents);
        self.ensure_select_drag_companions();
    }

    fn sanitize_action(&mut self, action: InputAction)
        ensures
            final(self)@ == with_list(
                old(self)@,
                action,
                sanitized_list(list_view(old(self)@, action), action),
            ),
    {
        let ghost lv = list_view(self@, action);
        let mut kept: Vec<Binding> = Vec::new();
        {
            let list = self.list(action);
            let mut i: usize = 0;
            while i < list.len()
                invariant
                    i <= list@.len(),
                    bindings_view(list@) == lv,
                    bindings_view(kept@) == lv.take(i as int).filter(valid_pred()),
                decreases list@.len() - i,
            {
                let b = &list[i];
                assert(b@ == lv[i as int]);
                assert(lv.take(i + 1) =~= lv.take(i as int).push(b@));
                proof {
                    lv.take(i as int).lemma_filter_push(b@, valid_pred());
                }
                if b.is_valid() {
                    let ghost before = kept@;
                    kept.push(b.copied());
                    assert(bindings_view(kept@) =~= bindings_view(before).push(b@));
                }
                i = i + 1;
            }
            assert(lv.take(list@.len() as int) =~= lv);
        }
        if kept.len() == 0 {
            let standard = InputMap::standard();
            kept = copy_bindings(standard.list(action));
        }
        self.set_list(action, kept);
    }

    /// Some binding of some action is the same shortcut as `b`.
    fn is_taken(&self, b: &Binding) -> (found: bool)
        ensures
            found == taken(self@, b@),
    {
        let r1 = any_conflict(&self.select_replace, b);
        let r2 = any_conflict(&self.select_toggle, b);
        let r3 = any_conflict(&self.select_clear, b);
        let r4 = any_conflict(&self.pan, b);
        let r5 = any_conflict(&self.zoom_extents, b);
        let found = r1 || r2 || r3 || r4 || r5;
        proof {
            if r1 {
                let i = choose|i: int|
                    0 <= i < self.select_replace@.len() && conflict(self.select_replace@[i]@, b@);
                assert(conflict(list_view(self@, InputAction::SelectReplace)[i], b@));
            } else if r2 {
                let i = choose|i: int|
                    0 <= i < self.select_toggle@.len() && conflict(self.select_toggle@[i]@, b@);
                assert(conflict(list_view(self@, InputAction::SelectToggle)[i], b@));
            } else if r3 {
                let i = choose|i: int|
                    0 <= i < self.select_clear@.len() && conflict(self.select_clear@[i]@, b@);
                assert(conflict(list_view(self@, InputAction::SelectClear)[i], b@));
            } else if r4 {
                let i = choose|i: int| 0 <= i < self.pan@.len() && conflict(self.pan@[i]@, b@);
                assert(conflict(list_view(self@, InputAction::Pan)[i], b@));
            } else if r5 {
                let i = choose|i: int|
                    0 <= i < self.zoom_extents@.len() && conflict(self.zoom_extents@[i]@, b@);
                assert(conflict(list_view(self@, InputAction::ZoomExtents)[i], b@));
            } else {
                assert forall|a: InputAction, i: int|
                    0 <= i < list_view(self@, a).len() implies !conflict(
                    #[trigger] list_view(self@, a)[i],
                    b@,
                ) by {
                    match a {
                        InputAction::SelectReplace => assert(self.select_replace@[i]@ == list_view(self@, a)[i]),
                        InputAction::SelectToggle => assert(self.select_toggle@[i]@ == list_view(self@, a)[i]),
                        InputAction::SelectClear => assert(self.select_clear@[i]@ == list_view(self@, a)[i]),
                        InputAction::Pan => assert(self.pan@[i]@ == list_view(self@, a)[i]),
                        InputAction::ZoomExtents => assert(self.zoom_extents@[i]@ == list_view(self@, a)[i]),
                    }
                }
            }
        }
        found
    }

    /// Offers the drag form of each pointer click of `action` to `action`.
    fn add_companions_for(&mut self, action: InputAction)
        ensures
            final(self)@ == add_drags(
                old(self)@,
                action,
                drag_companions(list_view(old(self)@, action)),
            ),
    {
        let ghost orig = self@;
        let ghost lv = list_view(orig, action);
        let mut companions: Vec<Binding> = Vec::new();
        {
            let list = self.list(action);
            let mut i: usize = 0;
            while i < list.len()
                invariant
                    i <= list@.len(),
                    bindings_view(list@) == lv,
                    bindings_view(companions@) == drag_companions(lv.take(i as int)),
                decreases list@.len() - i,
            {
                let b = &list[i];
                let ghost x = b@;
                assert(x == lv[i as int]);
                assert(lv.take(i + 1) =~= lv.take(i as int).push(x));
                proof {
                    lv.take(i as int).lemma_filter_push(x, pointer_click_pred());
                }
                if b.gesture == Gesture::Click && b.mouse.is_some() {
                    let mut drag = b.copied();
                    drag.gesture = Gesture::Drag;
                    let ghost before = companions@;
                    companions.push(drag);
                    proof {
                        let f = lv.take(i as int).filter(pointer_click_pred());
                        f.lemma_push_map_commute(as_drag(), x);
                        assert(bindings_view(companions@) =~= bindings_view(before).push(
                            as_drag()(x),
                        ));
                    }
                }
                i = i + 1;
            }
            assert(lv.take(list@.len() as int) =~= lv);
        }
        let ghost drags = drag_companions(lv);
        let mut j: usize = 0;
        while j < companions.len()
            invariant
                j <= companions@.len(),
                bindings_view(companions@) == drags,
                self@ == add_drags(orig, action, drags.take(j as int)),
            decreases companions@.len() - j,
        {
            let drag = &companions[j];
            assert(drags.take(j + 1).drop_last() =~= drags.take(j as int));
            assert(drags.take(j + 1).last() == drag@);
            if !self.is_taken(drag) {
                let ghost before = self@;
                let mut list = copy_bindings(self.list(action));
                list.push(drag.copied());
                assert(bindings_view(list@) =~= list_view(before, action).push(drag@));
                self.set_list(action, list);
            }
            j = j + 1;
        }
        assert(drags.take(companions@.len() as int) =~= drags);
    }

    /// Click-select and box-select share a button. Older saved maps only
    /// stored the click, which made a left drag do nothing; every select
    /// click gets its drag form unless that shortcut is already bound.
    fn ensure_select_drag_companions(&mut self)
        ensures
            final(self)@ == with_drag_companions(old(self)@),
    {
        self.add_companions_for(InputAction::SelectReplace);
        self.add_companions_for(InputAction::SelectToggle);
    }

    /// Replaces the bindings of `action`.
    fn set_list(&mut self, action: InputAction, list: Vec<Binding>)
        ensures
            final(self)@ == with_list(old(self)@, action, bindings_view(list@)),
    {
        match action {
            InputAction::SelectReplace => self.select_replace = list,
            InputAction::SelectToggle => self.select_toggle = list,
            InputAction::SelectClear => self.select_clear = list,
            InputAction::Pan => self.pan = list,
            InputAction::ZoomExtents => self.zoom_extents = list,
        }
    }

    /// Restores the factory bindings of `action`.
    pub fn reset_action(&mut self, action: InputAction)
        ensures
            final(self)@ == with_list(old(self)@, action, standard_list(action)),
    {
        let standard = InputMap::standard();
        let list = copy_bindings(standard.list(action));
        self.set_list(action, list);
    }

    /// Restores every factory binding.
    pub fn reset_all(&mut self)
        ensures
            final(self)@ == standard_map(),
    {
        *self = InputMap::standard();
    }
}


/// `parts` joined with `sep` between neighbours.
pub open spec fn joined(parts: Seq<Seq<char>>, sep: Seq<char>) -> Seq<char>
    decreases parts.len(),
{
    if parts.len() == 0 {
        seq![]
    } else if parts.len() == 1 {
        parts[0]
    } else {
        joined(parts.drop_last(), sep) + sep + parts.last()
    }
}

pub open spec fn strs_view(parts: Seq<&str>) -> Seq<Seq<char>> {
    parts.map_values(|p: &str| p@)
}

/// Modifier names joined with `+`.
pub fn join_mods(parts: &[&str]) -> (text: String)
    ensures
        text@ == joined(strs_view(parts@), "+"@),
{
    let mut text = String::new();
    let mut i: usize = 0;
    while i < parts.len()
        invariant
            i <= parts@.len(),
            text@ == joined(strs_view(parts@.take(i as int)), "+"@),
        decreases parts@.len() - i,
    {
        let ghost before = parts@.take(i as int);
        let ghost after = parts@.take(i + 1);
        assert(strs_view(after).drop_last() =~= strs_view(before));
        if i > 0 {
            text.append("+");
        }
        text.append(parts[i]);
        assert(i == 0 ==> strs_view(after) =~= seq![parts@[0]@]);
        i = i + 1;
    }
    assert(parts@.take(parts@.len() as int) =~= parts@);
    text
}

/// The upper-case form of a character by the Unicode case tables.
pub uninterp spec fn unicode_upper(c: char) -> Seq<char>;

/// Upper-cases one character (std's `char::to_uppercase`); an ASCII
/// character maps to its ASCII upper case.
#[verifier::external_body]
fn char_to_upper(c: char) -> (upper: String)
    ensures
        upper@ == unicode_upper(c),
        (c as u32) < 0x80 ==> upper@ == seq![crate::text::ascii_upper(c)],
{
    c.to_uppercase().collect()
}

/// How a key name is shown: a few keys have fixed captions; otherwise the
/// normalized name with its first character upper-cased.
pub open spec fn key_caption(name: Seq<char>) -> Seq<char> {
    let n = normalized(name);
    if n == "escape"@ || n == "esc"@ {
        "Esc"@
    } else if n == "enter"@ || n == "return"@ {
        "Enter"@
    } else if n == "pageup"@ || n == "page_up"@ {
        "Page Up"@
    } else if n == "pagedown"@ || n == "page_down"@ {
        "Page Down"@
    } else if n.len() == 0 {
        n
    } else {
        unicode_upper(n[0]) + n.skip(1)
    }
}

/// `key_caption` where the first character is ASCII: its ASCII capital.
pub open spec fn ascii_key_caption(name: Seq<char>) -> Seq<char> {
    let n = normalized(name);
    if n == "escape"@ || n == "esc"@ {
        "Esc"@
    } else if n == "enter"@ || n == "return"@ {
        "Enter"@
    } else if n == "pageup"@ || n == "page_up"@ {
        "Page Up"@
    } else if n == "pagedown"@ || n == "page_down"@ {
        "Page Down"@
    } else if n.len() == 0 {
        n
    } else {
        seq![crate::text::ascii_upper(n[0])] + n.skip(1)
    }
}

/// The caption of a key name in the shortcut list.
pub fn display_key_name(name: &str) -> (caption: String)
    ensures
        caption@ == key_caption(name@),
        normalized(name@).len() == 0 || (normalized(name@)[0] as u32) < 0x80 ==> caption@
            == ascii_key_caption(name@),
{
    let n = normalize(name);
    if chars_eq(&n, "escape") || chars_eq(&n, "esc") {
        "Esc".to_string()
    } else if chars_eq(&n, "enter") || chars_eq(&n, "return") {
        "Enter".to_string()
    } else if chars_eq(&n, "pageup") || chars_eq(&n, "page_up") {
        "Page Up".to_string()
    } else if chars_eq(&n, "pagedown") || chars_eq(&n, "page_down") {
        "Page Down".to_string()
    } else if n.len() == 0 {
        String::new()
    } else {
        let mut caption = char_to_upper(n[0]);
        let rest = crate::text::string_of(&n, 1, n.len());
        caption.append(rest.as_str());
        assert(n@.subrange(1, n@.len() as int) =~= n@.skip(1));
        caption
    }
}

/// The modifier names of a binding, in display order.
pub open spec fn modifier_names(b: BindingView, mac: bool) -> Seq<Seq<char>> {
    let ctrl_family: Seq<Seq<char>> = if b.ctrl || (b.command && !mac) {
        seq!["Ctrl"@]
    } else if b.command {
        seq!["Cmd"@]
    } else {
        seq![]
    };
    let shift: Seq<Seq<char>> = if b.shift {
        seq!["Shift"@]
    } else {
        seq![]
    };
    let alt: Seq<Seq<char>> = if b.alt {
        seq!["Alt"@]
    } else {
        seq![]
    };
    ctrl_family + shift + alt
}

/// The text a binding is shown as, such as `Ctrl+Left click` or `Ctrl+E`.
pub open spec fn binding_text(b: BindingView, mac: bool) -> Seq<char> {
    let prefix = joined(modifier_names(b, mac), "+"@);
    let lead = if prefix.len() == 0 {
        prefix
    } else {
        prefix + "+"@
    };
    match b.gesture {
        Gesture::Key => lead + match b.key {
            Some(k) => key_caption(k),
            None => "?"@,
        },
        Gesture::Click => match b.mouse {
            Some(button) => lead + button_label(button) + " click"@,
            None => "(invalid)"@,
        },
        Gesture::DoubleClick => match b.mouse {
            Some(button) => lead + button_label(button) + " double-click"@,
            None => "(invalid)"@,
        },
        Gesture::Drag => match b.mouse {
            Some(button) => lead + button_label(button) + " drag"@,
            None => "(invalid)"@,
        },
    }
}

impl Binding {
    /// The text the shortcut list shows for this binding; `mac` tells
    /// whether the platform is macOS, where Command is shown as `Cmd`.
    pub fn display_text(&self, mac: bool) -> (text: String)
        ensures
            text@ == binding_text(self@, mac),
    {
        let mut parts: Vec<&str> = Vec::new();
        if self.ctrl || (self.command && !mac) {
            parts.push("Ctrl");
        } else if self.command {
            parts.push("Cmd");
        }
        if self.shift {
            parts.push("Shift");
        }
        if self.alt {
            parts.push("Alt");
        }
        assert(strs_view(parts@) =~= modifier_names(self@, mac));
        let prefix = join_mods(parts.as_slice());
        let mut lead = prefix;
        if lead.unicode_len() > 0 {
            lead.append("+");
        }
        match self.gesture {
            Gesture::Key => {
                match &self.key {
                    Some(name) => {
                        let caption = display_key_name(name.as_str());
                        lead.append(caption.as_str());
                    },
                    None => lead.append("?"),
                }
                lead
            },
            Gesture::Click => match self.mouse {
                Some(button) => {
                    lead.append(button.label());
                    lead.append(" click");
                    lead
                },
                None => "(invalid)".to_string(),
            },
            Gesture::DoubleClick => match self.mouse {
                Some(button) => {
                    lead.append(button.label());
                    lead.append(" double-click");
                    lead
                },
                None => "(invalid)".to_string(),
            },
            Gesture::Drag => match self.mouse {
                Some(button) => {
                    lead.append(button.label());
                    lead.append(" drag");
                    lead
                },
                None => "(invalid)".to_string(),
            },
        }
    }
}

/// The binding's modifier flags set from the modifiers held while it was
/// captured. Off a Mac, Ctrl and Command are stored as Command.
pub open spec fn with_held_modifiers(b: BindingView, m: Modifiers, mac: bool) -> BindingView {
    if mac || m.mac_cmd {
        BindingView { shift: m.shift, alt: m.alt, command: m.command, ctrl: m.ctrl, ..b }
    } else {
        BindingView { shift: m.shift, alt: m.alt, command: m.command || m.ctrl, ctrl: false, ..b }
    }
}

/// Sets the binding's modifier flags from the modifiers held.
pub fn apply_modifiers(binding: &mut Binding, modifiers: Modifiers, mac: bool)
    ensures
        final(binding)@ == with_held_modifiers(old(binding)@, modifiers, mac),
{
    binding.shift = modifiers.shift;
    binding.alt = modifiers.alt;
    if mac || modifiers.mac_cmd {
        binding.command = modifiers.command;
        binding.ctrl = modifiers.ctrl;
    } else {
        binding.command = modifiers.command || modifiers.ctrl;
        binding.ctrl = false;
    }
}

/// What one mouse button did this frame.
#[derive(Debug, Clone, Copy, PartialEq, Eq, Structural)]
pub struct PointerPress {
    pub button: MouseButtonKind,
    pub double_clicked: bool,
    pub clicked: bool,
}

/// The binding captured from the first press, if any: a pressed key (by
/// name) wins; otherwise the first button of `pointer` that was double
/// clicked or clicked, a click becoming a drag when the action prefers drags.
pub open spec fn captured(
    key_name: Option<Seq<char>>,
    pointer: Seq<PointerPress>,
    m: Modifiers,
    mac: bool,
    prefer_drag: bool,
) -> Option<BindingView>
    decreases pointer.len(),
{
    match key_name {
        Some(name) => Some(with_held_modifiers(key_view(name), m, mac)),
        None => if pointer.len() == 0 {
            None
        } else if pointer[0].double_clicked {
            Some(with_held_modifiers(double_click_view(pointer[0].button), m, mac))
        } else if pointer[0].clicked {
            Some(
                with_held_modifiers(
                    if prefer_drag {
                        drag_view(pointer[0].button)
                    } else {
                        click_view(pointer[0].button)
                    },
                    m,
                    mac,
                ),
            )
        } else {
            captured(None, pointer.drop_first(), m, mac, prefer_drag)
        },
    }
}

/// Captures a new binding from this frame's input: `pressed_key` is the name
/// of a key pressed this frame, `pointer` what each button did, in the order
/// left, middle, right.
pub fn capture_binding(
    pressed_key: Option<&str>,
    pointer: &[PointerPress],
    modifiers: Modifiers,
    mac: bool,
    prefer_drag: bool,
) -> (binding: Option<Binding>)
    ensures
        binding is Some <==> captured(
            match pressed_key {
                Some(k) => Some(k@),
                None => None,
            },
            pointer@,
            modifiers,
            mac,
            prefer_drag,
        ) is Some,
        binding matches Some(b) ==> Some(b@) == captured(
            match pressed_key {
                Some(k) => Some(k@),
                None => None,
            },
            pointer@,
            modifiers,
            mac,
            prefer_drag,
        ),
{
    if let Some(name) = pressed_key {
        let mut binding = Binding::key(name);
        apply_modifiers(&mut binding, modifiers, mac);
        return Some(binding);
    }
    assert(pointer@.skip(0) =~= pointer@);
    let mut i: usize = 0;
    while i < pointer.len()
        invariant
            pressed_key is None,
            i <= pointer@.len(),
            captured(None, pointer@, modifiers, mac, prefer_drag) == captured(
                None,
                pointer@.skip(i as int),
                modifiers,
                mac,
                prefer_drag,
            ),
        decreases pointer@.len() - i,
    {
        let press = pointer[i];
        let ghost rest = pointer@.skip(i as int);
        assert(rest[0] == press);
        assert(rest.drop_first() =~= pointer@.skip(i + 1));
        if press.double_clicked {
            let mut binding = Binding::double_click(press.button);
            apply_modifiers(&mut binding, modifiers, mac);
            return Some(binding);
        }
        if press.clicked {
            let mut binding = if prefer_drag {
                Binding::drag(press.button)
            } else {
                Binding::click(press.button)
            };
            apply_modifiers(&mut binding, modifiers, mac);
            return Some(binding);
        }
        i = i + 1;
    }
    assert(pointer@.skip(i as int) =~= seq![]);
    None
}

/// A binding captured from a gesture fires for that same gesture with the
/// same modifiers held.
pub proof fn lemma_captured_modifiers_match(b: BindingView, m: Modifiers, mac: bool)
    ensures
        modifiers_match(with_held_modifiers(b, m, mac), m, mac),
{
}


/// Bindings are exact about modifiers: a binding without Ctrl/Command never
/// fires while Ctrl or Command is held, and one with Ctrl never fires
/// without it; the same for Shift and Alt.
pub proof fn lemma_modifiers_are_exact(b: BindingView, m: Modifiers, mac: bool)
    ensures
        !b.ctrl && !b.command && (m.ctrl || m.command) ==> !modifiers_match(b, m, mac),
        b.ctrl && !m.ctrl && !m.command ==> !modifiers_match(b, m, mac),
        b.shift != m.shift ==> !modifiers_match(b, m, mac),
        b.alt != m.alt ==> !modifiers_match(b, m, mac),
{
}

/// Being the same shortcut is symmetric and reflexive.
pub proof fn lemma_conflict_symmetric(a: BindingView, b: BindingView)
    ensures
        conflict(a, b) == conflict(b, a),
        conflict(a, a),
{
}

proof fn lemma_add_drags_grows(m: InputMapView, action: InputAction, drags: Seq<BindingView>, other: InputAction)
    ensures
        list_view(add_drags(m, action, drags), other).len() >= list_view(m, other).len(),
    decreases drags.len(),
{
    if drags.len() > 0 {
        lemma_add_drags_grows(m, action, drags.drop_last(), other);
    }
}

/// After `sanitize` every action has at least one binding.
pub proof fn lemma_sanitize_leaves_no_action_empty(m: InputMapView, action: InputAction)
    ensures
        list_view(sanitized_map(m), action).len() > 0,
{
    let base = InputMapView {
        select_replace: sanitized_list(m.select_replace, InputAction::SelectReplace),
        select_toggle: sanitized_list(m.select_toggle, InputAction::SelectToggle),
        select_clear: sanitized_list(m.select_clear, InputAction::SelectClear),
        pan: sanitized_list(m.pan, InputAction::Pan),
        zoom_extents: sanitized_list(m.zoom_extents, InputAction::ZoomExtents),
    };
    assert(list_view(base, action).len() > 0);
    let m1 = add_drags(
        base,
        InputAction::SelectReplace,
        drag_companions(list_view(base, InputAction::SelectReplace)),
    );
    lemma_add_drags_grows(
        base,
        InputAction::SelectReplace,
        drag_companions(list_view(base, InputAction::SelectReplace)),
        action,
    );
    lemma_add_drags_grows(
        m1,
        InputAction::SelectToggle,
        drag_companions(list_view(m1, InputAction::SelectToggle)),
        action,
    );
}


/// Every binding of every action can fire.
pub open spec fn all_valid(m: InputMapView) -> bool {
    forall|a: InputAction, i: int|
        0 <= i < list_view(m, a).len() ==> valid_binding(#[trigger] list_view(m, a)[i])
}

proof fn lemma_standard_valid(action: InputAction)
    ensures
        forall|i: int|
            0 <= i < standard_list(action).len() ==> valid_binding(#[trigger] standard_list(action)[i]),
{
    reveal_strlit("escape");
    reveal_strlit("e");
    crate::text::lemma_lower_word_normalized("escape"@);
    crate::text::lemma_lower_word_normalized("e"@);
}


/// The drag form of a pointer click names a button, so it can fire.
proof fn lemma_companions_valid(list: Seq<BindingView>)
    ensures
        forall|i: int|
            0 <= i < drag_companions(list).len() ==> valid_binding(#[trigger] drag_companions(list)[i]),
{
    let clicks = list.filter(pointer_click_pred());
    assert forall|i: int| 0 <= i < drag_companions(list).len() implies valid_binding(
        #[trigger] drag_companions(list)[i],
    ) by {
        list.lemma_filter_pred(pointer_click_pred(), i);
        assert(drag_companions(list)[i] == BindingView { gesture: Gesture::Drag, ..clicks[i] });
    }
}

proof fn lemma_add_drags_valid(m: InputMapView, action: InputAction, drags: Seq<BindingView>)
    requires
        all_valid(m),
        forall|i: int| 0 <= i < drags.len() ==> valid_binding(#[trigger] drags[i]),
    ensures
        all_valid(add_drags(m, action, drags)),
    decreases drags.len(),
{
    if drags.len() > 0 {
        lemma_add_drags_valid(m, action, drags.drop_last());
        let before = add_drags(m, action, drags.drop_last());
        let d = drags.last();
        assert(valid_binding(d));
        if !taken(before, d) {
            let after = with_list(before, action, list_view(before, action).push(d));
            assert forall|a: InputAction, i: int| 0 <= i < list_view(after, a).len() implies valid_binding(
                #[trigger] list_view(after, a)[i],
            ) by {
                if a == action && i == list_view(before, action).len() {
                } else {
                    assert(list_view(after, a)[i] == list_view(before, a)[i]);
                }
            }
        }
    }
}

/// After `sanitize` every binding can fire: invalid ones are dropped, an
/// emptied action gets its factory bindings, and drag companions are
/// drags of clicks with a button.
pub proof fn lemma_sanitize_keeps_only_valid(m: InputMapView)
    ensures
        all_valid(sanitized_map(m)),
{
    let base = InputMapView {
        select_replace: sanitized_list(m.select_replace, InputAction::SelectReplace),
        select_toggle: sanitized_list(m.select_toggle, InputAction::SelectToggle),
        select_clear: sanitized_list(m.select_clear, InputAction::SelectClear),
        pan: sanitized_list(m.pan, InputAction::Pan),
        zoom_extents: sanitized_list(m.zoom_extents, InputAction::ZoomExtents),
    };
    assert forall|a: InputAction, i: int| 0 <= i < list_view(base, a).len() implies valid_binding(
        #[trigger] list_view(base, a)[i],
    ) by {
        lemma_standard_valid(a);
        let list = list_view(m, a);
        if list.filter(valid_pred()).len() > 0 {
            list.lemma_filter_pred(valid_pred(), i);
        }
    }
    let d1 = drag_companions(list_view(base, InputAction::SelectReplace));
    lemma_companions_valid(list_view(base, InputAction::SelectReplace));
    lemma_add_drags_valid(base, InputAction::SelectReplace, d1);
    let m1 = add_drags(base, InputAction::SelectReplace, d1);
    lemma_companions_valid(list_view(m1, InputAction::SelectToggle));
    lemma_add_drags_valid(
        m1,
        InputAction::SelectToggle,
        drag_companions(list_view(m1, InputAction::SelectToggle)),
    );
}


/// Adding drags only appends: every binding stays where it was.
proof fn lemma_add_drags_keeps_entries(m: InputMapView, action: InputAction, drags: Seq<BindingView>, a: InputAction, i: int)
    requires
        0 <= i < list_view(m, a).len(),
    ensures
        i < list_view(add_drags(m, action, drags), a).len(),
        list_view(add_drags(m, action, drags), a)[i] == list_view(m, a)[i],
    decreases drags.len(),
{
    if drags.len() > 0 {
        lemma_add_drags_keeps_entries(m, action, drags.drop_last(), a, i);
    }
}

/// Adding drags keeps every shortcut that was bound.
proof fn lemma_add_drags_keeps_taken(m: InputMapView, action: InputAction, drags: Seq<BindingView>, b: BindingView)
    requires
        taken(m, b),
    ensures
        taken(add_drags(m, action, drags), b),
{
    let (a, i) = choose|a: InputAction, i: int|
        0 <= i < list_view(m, a).len() && conflict(#[trigger] list_view(m, a)[i], b);
    lemma_add_drags_keeps_entries(m, action, drags, a, i);
    assert(conflict(list_view(add_drags(m, action, drags), a)[i], b));
}

/// After adding drags, each of them is bound (by itself or an earlier binding).
proof fn lemma_add_drags_binds_each(m: InputMapView, action: InputAction, drags: Seq<BindingView>, j: int)
    requires
        0 <= j < drags.len(),
    ensures
        taken(add_drags(m, action, drags), drags[j]),
    decreases drags.len(),
{
    let before = add_drags(m, action, drags.drop_last());
    let d = drags.last();
    if j < drags.len() - 1 {
        lemma_add_drags_binds_each(m, action, drags.drop_last(), j);
        assert(drags.drop_last()[j] == drags[j]);
        if !taken(before, d) {
            let after = with_list(before, action, list_view(before, action).push(d));
            let (a, i) = choose|a: InputAction, i: int|
                0 <= i < list_view(before, a).len() && conflict(#[trigger] list_view(before, a)[i], drags[j]);
            assert(list_view(after, a)[i] == list_view(before, a)[i]);
        }
    } else if !taken(before, d) {
        let after = with_list(before, action, list_view(before, action).push(d));
        let k = list_view(before, action).len() as int;
        assert(list_view(after, action)[k] == d);
        assert(conflict(list_view(after, action)[k], d));
    }
}

/// Every binding after adding drags was there before, or is one of the drags.
proof fn lemma_add_drags_sources(m: InputMapView, action: InputAction, drags: Seq<BindingView>, a: InputAction, i: int)
    requires
        0 <= i < list_view(add_drags(m, action, drags), a).len(),
    ensures
        (i < list_view(m, a).len() && list_view(add_drags(m, action, drags), a)[i] == list_view(m, a)[i])
            || drags.contains(list_view(add_drags(m, action, drags), a)[i]),
    decreases drags.len(),
{
    if drags.len() > 0 {
        let before = add_drags(m, action, drags.drop_last());
        let d = drags.last();
        let after = add_drags(m, action, drags);
        if i < list_view(before, a).len() {
            if !taken(before, d) {
                assert(list_view(after, a)[i] == list_view(before, a)[i]);
            }
            lemma_add_drags_sources(m, action, drags.drop_last(), a, i);
            if drags.drop_last().contains(list_view(before, a)[i]) {
                let k = choose|k: int| 0 <= k < drags.drop_last().len() && drags.drop_last()[k] == list_view(before, a)[i];
                assert(drags[k] == list_view(before, a)[i]);
            }
        } else {
            assert(list_view(after, a)[i] == d);
            assert(drags[drags.len() - 1] == d);
        }
    }
}

/// The drag form of a click of `list` is among its drag companions.
proof fn lemma_companion_present(list: Seq<BindingView>, i: int)
    requires
        0 <= i < list.len(),
        is_pointer_click(list[i]),
    ensures
        drag_companions(list).contains(BindingView { gesture: Gesture::Drag, ..list[i] }),
{
    let clicks = list.filter(pointer_click_pred());
    list.filter_lemma(pointer_click_pred());
    assert(clicks.contains(list[i]));
    let k = choose|k: int| 0 <= k < clicks.len() && clicks[k] == list[i];
    assert(drag_companions(list)[k] == BindingView { gesture: Gesture::Drag, ..list[i] });
}

/// The drags that companions hold are no clicks.
proof fn lemma_companions_are_drags(list: Seq<BindingView>, b: BindingView)
    requires
        drag_companions(list).contains(b),
    ensures
        b.gesture == Gesture::Drag,
{
    let k = choose|k: int| 0 <= k < drag_companions(list).len() && drag_companions(list)[k] == b;
}

/// After `sanitize` every select click (of Select or Toggle) has its drag
/// companion bound, so a window can be dragged with the same button and
/// modifiers.
pub proof fn lemma_sanitize_pairs_select_clicks(m: InputMapView, action: InputAction, i: int)
    requires
        action == InputAction::SelectReplace || action == InputAction::SelectToggle,
        0 <= i < list_view(sanitized_map(m), action).len(),
        is_pointer_click(list_view(sanitized_map(m), action)[i]),
    ensures
        taken(
            sanitized_map(m),
            BindingView { gesture: Gesture::Drag, ..list_view(sanitized_map(m), action)[i] },
        ),
{
    let base = InputMapView {
        select_replace: sanitized_list(m.select_replace, InputAction::SelectReplace),
        select_toggle: sanitized_list(m.select_toggle, InputAction::SelectToggle),
        select_clear: sanitized_list(m.select_clear, InputAction::SelectClear),
        pan: sanitized_list(m.pan, InputAction::Pan),
        zoom_extents: sanitized_list(m.zoom_extents, InputAction::ZoomExtents),
    };
    let d1 = drag_companions(list_view(base, InputAction::SelectReplace));
    let m1 = add_drags(base, InputAction::SelectReplace, d1);
    let d2 = drag_companions(list_view(m1, InputAction::SelectToggle));
    let fin = add_drags(m1, InputAction::SelectToggle, d2);
    assert(fin == sanitized_map(m));
    let c = list_view(fin, action)[i];
    let twin = BindingView { gesture: Gesture::Drag, ..c };
    lemma_add_drags_sources(m1, InputAction::SelectToggle, d2, action, i);
    if d2.contains(c) {
        lemma_companions_are_drags(list_view(m1, InputAction::SelectToggle), c);
    }
    assert(list_view(m1, action)[i] == c);
    if action == InputAction::SelectToggle {
        lemma_companion_present(list_view(m1, InputAction::SelectToggle), i);
        let j = choose|j: int| 0 <= j < d2.len() && d2[j] == twin;
        lemma_add_drags_binds_each(m1, InputAction::SelectToggle, d2, j);
    } else {
        lemma_add_drags_sources(base, InputAction::SelectReplace, d1, action, i);
        if d1.contains(c) {
            lemma_companions_are_drags(list_view(base, InputAction::SelectReplace), c);
        }
        assert(list_view(base, action)[i] == c);
        lemma_companion_present(list_view(base, InputAction::SelectReplace), i);
        let j = choose|j: int| 0 <= j < d1.len() && d1[j] == twin;
        lemma_add_drags_binds_each(base, InputAction::SelectReplace, d1, j);
        lemma_add_drags_keeps_taken(m1, InputAction::SelectToggle, d2, twin);
    }
}


/// Keeping the valid bindings of a list of valid bindings keeps them all.
proof fn lemma_filter_all_valid(list: Seq<BindingView>)
    requires
        forall|i: int| 0 <= i < list.len() ==> valid_binding(#[trigger] list[i]),
    ensures
        list.filter(valid_pred()) == list,
    decreases list.len(),
{
    reveal(Seq::filter);
    if list.len() > 0 {
        lemma_filter_all_valid(list.drop_last());
        assert(valid_binding(list[list.len() - 1]));
        assert(list.drop_last().push(list.last()) =~= list);
    }
}

/// Adding drags that are all bound already changes nothing.
proof fn lemma_add_bound_drags(m: InputMapView, action: InputAction, drags: Seq<BindingView>)
    requires
        forall|j: int| 0 <= j < drags.len() ==> taken(m, #[trigger] drags[j]),
    ensures
        add_drags(m, action, drags) == m,
    decreases drags.len(),
{
    if drags.len() > 0 {
        lemma_add_bound_drags(m, action, drags.drop_last());
        assert(taken(m, drags[drags.len() - 1]));
    }
}

/// Every drag companion of a select list of a sanitized map is bound there.
proof fn lemma_companions_bound(m: InputMapView, action: InputAction)
    requires
        action == InputAction::SelectReplace || action == InputAction::SelectToggle,
    ensures
        forall|j: int|
            0 <= j < drag_companions(list_view(sanitized_map(m), action)).len() ==> taken(
                sanitized_map(m),
                #[trigger] drag_companions(list_view(sanitized_map(m), action))[j],
            ),
{
    let list = list_view(sanitized_map(m), action);
    let clicks = list.filter(pointer_click_pred());
    assert forall|j: int| 0 <= j < drag_companions(list).len() implies taken(
        sanitized_map(m),
        #[trigger] drag_companions(list)[j],
    ) by {
        list.lemma_filter_pred(pointer_click_pred(), j);
        assert(clicks.contains(clicks[j]));
        list.lemma_filter_contains_rev(pointer_click_pred(), clicks[j]);
        let i = choose|i: int| 0 <= i < list.len() && list[i] == clicks[j];
        lemma_sanitize_pairs_select_clicks(m, action, i);
        assert(drag_companions(list)[j] == BindingView { gesture: Gesture::Drag, ..clicks[j] });
    }
}

/// Sanitizing twice gives what sanitizing once gave.
pub proof fn lemma_sanitize_idempotent(m: InputMapView)
    ensures
        sanitized_map(sanitized_map(m)) == sanitized_map(m),
{
    let s1 = sanitized_map(m);
    lemma_sanitize_keeps_only_valid(m);
    assert forall|a: InputAction| sanitized_list(list_view(s1, a), a) == list_view(s1, a) by {
        lemma_sanitize_leaves_no_action_empty(m, a);
        lemma_filter_all_valid(list_view(s1, a));
    }
    let base = InputMapView {
        select_replace: sanitized_list(s1.select_replace, InputAction::SelectReplace),
        select_toggle: sanitized_list(s1.select_toggle, InputAction::SelectToggle),
        select_clear: sanitized_list(s1.select_clear, InputAction::SelectClear),
        pan: sanitized_list(s1.pan, InputAction::Pan),
        zoom_extents: sanitized_list(s1.zoom_extents, InputAction::ZoomExtents),
    };
    assert(sanitized_list(list_view(s1, InputAction::SelectReplace), InputAction::SelectReplace)
        == list_view(s1, InputAction::SelectReplace));
    assert(sanitized_list(list_view(s1, InputAction::SelectToggle), InputAction::SelectToggle)
        == list_view(s1, InputAction::SelectToggle));
    assert(sanitized_list(list_view(s1, InputAction::SelectClear), InputAction::SelectClear)
        == list_view(s1, InputAction::SelectClear));
    assert(sanitized_list(list_view(s1, InputAction::Pan), InputAction::Pan) == list_view(s1, InputAction::Pan));
    assert(sanitized_list(list_view(s1, InputAction::ZoomExtents), InputAction::ZoomExtents)
        == list_view(s1, InputAction::ZoomExtents));
    assert(base == s1);
    lemma_companions_bound(m, InputAction::SelectReplace);
    lemma_add_bound_drags(s1, InputAction::SelectReplace, drag_companions(list_view(s1, InputAction::SelectReplace)));
    lemma_companions_bound(m, InputAction::SelectToggle);
    lemma_add_bound_drags(s1, InputAction::SelectToggle, drag_companions(list_view(s1, InputAction::SelectToggle)));
}

} // verus!
