//! Keyboard keys and hot-key combinations.

use vstd::prelude::*;

verus! {

/// A key of the keyboard that the GUI reacts to.
#[derive(PartialEq, Eq, Structural, Hash, Copy, Clone)]
pub enum Key {
    Space,
    Left,
    Right,
    Up,
    Down,
    Backspace,
    Delete,
    Insert,
    Numpad0,
    Numpad1,
    Numpad2,
    Numpad3,
    Numpad4,
    Numpad5,
    Numpad6,
    Numpad7,
    Numpad8,
    Numpad9,
    Escape,
    Enter,
    F1,
    F2,
    F3,
    F4,
    F5,
    F6,
    F7,
    F8,
    F9,
    F10,
    F11,
    F12,
    Num0,
    Num1,
    Num2,
    Num3,
    Num4,
    Num5,
    Num6,
    Num7,
    Num8,
    Num9,
    A,
    B,
    C,
    D,
    E,
    F,
    G,
    H,
    I,
    J,
    K,
    L,
    M,
    N,
    O,
    P,
    Q,
    R,
    S,
    T,
    U,
    V,
    W,
    X,
    Y,
    Z,
}

/// The keys `A` to `Z`.
pub open spec fn spec_is_letter(k: Key) -> bool {
    match k {
        Key::A
        | Key::B
        | Key::C
        | Key::D
        | Key::E
        | Key::F
        | Key::G
        | Key::H
        | Key::I
        | Key::J
        | Key::K
        | Key::L
        | Key::M
        | Key::N
        | Key::O
        | Key::P
        | Key::Q
        | Key::R
        | Key::S
        | Key::T
        | Key::U
        | Key::V
        | Key::W
        | Key::X
        | Key::Y
        | Key::Z => true,
        _ => false,
    }
}

/// The digit keys `1` to `9` of the main keyboard (`0` is not one of them).
pub open spec fn spec_is_number(k: Key) -> bool {
    match k {
        Key::Num1
        | Key::Num2
        | Key::Num3
        | Key::Num4
        | Key::Num5
        | Key::Num6
        | Key::Num7
        | Key::Num8
        | Key::Num9 => true,
        _ => false,
    }
}

/// The text by which a key is shown to the user.
pub open spec fn spec_key_name(k: Key) -> Seq<char> {
    match k {
        Key::Space => "Space"@,
        Key::Left => "Left"@,
        Key::Right => "Right"@,
        Key::Up => "Up"@,
        Key::Down => "Down"@,
        Key::Backspace => "Backspace"@,
        Key::Delete => "Delete"@,
        Key::Insert => "Insert"@,
        Key::Numpad0 => "Numpad 0"@,
        Key::Numpad1 => "Numpad 1"@,
        Key::Numpad2 => "Numpad 2"@,
        Key::Numpad3 => "Numpad 3"@,
        Key::Numpad4 => "Numpad 4"@,
        Key::Numpad5 => "Numpad 5"@,
        Key::Numpad6 => "Numpad 6"@,
        Key::Numpad7 => "Numpad 7"@,
        Key::Numpad8 => "Numpad 8"@,
        Key::Numpad9 => "Numpad 9"@,
        Key::Escape => "Escape"@,
        Key::Enter => "Enter"@,
        Key::F1 => "F1"@,
        Key::F2 => "F2"@,
        Key::F3 => "F3"@,
        Key::F4 => "F4"@,
        Key::F5 => "F5"@,
        Key::F6 => "F6"@,
        Key::F7 => "F7"@,
        Key::F8 => "F8"@,
        Key::F9 => "F9"@,
        Key::F10 => "F10"@,
        Key::F11 => "F11"@,
        Key::F12 => "F12"@,
        Key::Num0 => "0"@,
        Key::Num1 => "1"@,
        Key::Num2 => "2"@,
        Key::Num3 => "3"@,
        Key::Num4 => "4"@,
        Key::Num5 => "5"@,
        Key::Num6 => "6"@,
        Key::Num7 => "7"@,
        Key::Num8 => "8"@,
        Key::Num9 => "9"@,
        Key::A => "A"@,
        Key::B => "B"@,
        Key::C => "C"@,
        Key::D => "D"@,
        Key::E => "E"@,
        Key::F => "F"@,
        Key::G => "G"@,
        Key::H => "H"@,
        Key::I => "I"@,
        Key::J => "J"@,
        Key::K => "K"@,
        Key::L => "L"@,
        Key::M => "M"@,
        Key::N => "N"@,
        Key::O => "O"@,
        Key::P => "P"@,
        Key::Q => "Q"@,
        Key::R => "R"@,
        Key::S => "S"@,
        Key::T => "T"@,
        Key::U => "U"@,
        Key::V => "V"@,
        Key::W => "W"@,
        Key::X => "X"@,
        Key::Y => "Y"@,
        Key::Z => "Z"@,
    }
}

impl Key {
    /// Whether the key is one of the letters `A` to `Z`.
    pub fn is_letter(self) -> (r: bool)
        ensures
            r == spec_is_letter(self),
    {
        match self {
            Self::A
            | Self::B
            | Self::C
            | Self::D
            | Self::E
            | Self::F
            | Self::G
            | Self::H
            | Self::I
            | Self::J
            | Self::K
            | Self::L
            | Self::M
            | Self::N
            | Self::O
            | Self::P
            | Self::Q
            | Self::R
            | Self::S
            | Self::T
            | Self::U
            | Self::V
            | Self::W
            | Self::X
            | Self::Y
            | Self::Z => true,
            _ => false,
        }
    }

    /// Whether the key is one of the digits `1` to `9` of the main keyboard.
    pub fn is_number(self) -> (r: bool)
        ensures
            r == spec_is_number(self),
    {
        match self {
            Self::Num1
            | Self::Num2
            | Self::Num3
            | Self::Num4
            | Self::Num5
            | Self::Num6
            | Self::Num7
            | Self::Num8
            | Self::Num9 => true,
            _ => false,
        }
    }

    /// The text by which the key is shown to the user (`Numpad 0`, `F1`, `7`, `Q`, ...).
    pub fn name(self) -> (r: &'static str)
        ensures
            r@ == spec_key_name(self),
    {
        match self {
            Self::Space => "Space",
            Self::Left => "Left",
            Self::Right => "Right",
            Self::Up => "Up",
            Self::Down => "Down",
            Self::Backspace => "Backspace",
            Self::Delete => "Delete",
            Self::Insert => "Insert",
            Self::Numpad0 => "Numpad 0",
            Self::Numpad1 => "Numpad 1",
            Self::Numpad2 => "Numpad 2",
            Self::Numpad3 => "Numpad 3",
            Self::Numpad4 => "Numpad 4",
            Self::Numpad5 => "Numpad 5",
            Self::Numpad6 => "Numpad 6",
            Self::Numpad7 => "Numpad 7",
            Self::Numpad8 => "Numpad 8",
            Self::Numpad9 => "Numpad 9",
            Self::Escape => "Escape",
            Self::Enter => "Enter",
            Self::F1 => "F1",
            Self::F2 => "F2",
            Self::F3 => "F3",
            Self::F4 => "F4",
            Self::F5 => "F5",
            Self::F6 => "F6",
            Self::F7 => "F7",
            Self::F8 => "F8",
            Self::F9 => "F9",
            Self::F10 => "F10",
            Self::F11 => "F11",
            Self::F12 => "F12",
            Self::Num0 => "0",
            Self::Num1 => "1",
            Self::Num2 => "2",
            Self::Num3 => "3",
            Self::Num4 => "4",
            Self::Num5 => "5",
            Self::Num6 => "6",
            Self::Num7 => "7",
            Self::Num8 => "8",
            Self::Num9 => "9",
            Self::A => "A",
            Self::B => "B",
            Self::C => "C",
            Self::D => "D",
            Self::E => "E",
            Self::F => "F",
            Self::G => "G",
            Self::H => "H",
            Self::I => "I",
            Self::J => "J",
            Self::K => "K",
            Self::L => "L",
            Self::M => "M",
            Self::N => "N",
            Self::O => "O",
            Self::P => "P",
            Self::Q => "Q",
            Self::R => "R",
            Self::S => "S",
            Self::T => "T",
            Self::U => "U",
            Self::V => "V",
            Self::W => "W",
            Self::X => "X",
            Self::Y => "Y",
            Self::Z => "Z",
        }
    }
}

/// A key together with the modifier keys that must be held with it.
#[derive(PartialEq, Eq, Structural, Hash, Copy, Clone)]
pub struct Hotkey {
    pub key: Key,
    pub ctrl: bool,
    pub alt: bool,
    pub shift: bool,
}

/// The text by which a hot-key is shown: `[`, the held modifiers, the key's name, `]`.
pub open spec fn spec_hotkey_text(h: Hotkey) -> Seq<char> {
    "["@ + (if h.ctrl { "Ctrl+"@ } else { Seq::empty() }) + (if h.alt { "Alt+"@ } else {
        Seq::empty()
    }) + (if h.shift { "Shift+"@ } else { Seq::empty() }) + spec_key_name(h.key) + "]"@
}

impl Hotkey {
    /// The key alone, with no modifier.
    pub fn new(key: Key) -> (r: Self)
        ensures
            r == (Hotkey { key, ctrl: false, alt: false, shift: false }),
    {
        Self { key, ctrl: false, alt: false, shift: false }
    }

    /// The key with `Ctrl`.
    pub fn ctrl(key: Key) -> (r: Self)
        ensures
            r == (Hotkey { key, ctrl: true, alt: false, shift: false }),
    {
        Self { key, ctrl: true, alt: false, shift: false }
    }

    /// The key with `Alt`.
    pub fn alt(key: Key) -> (r: Self)
        ensures
            r == (Hotkey { key, ctrl: false, alt: true, shift: false }),
    {
        Self { key, ctrl: false, alt: true, shift: false }
    }

    /// The key with `Shift`.
    pub fn shift(key: Key) -> (r: Self)
        ensures
            r == (Hotkey { key, ctrl: false, alt: false, shift: true }),
    {
        Self { key, ctrl: false, alt: false, shift: true }
    }

    /// The key with `Ctrl` and `Shift`.
    pub fn ctrl_shift(key: Key) -> (r: Self)
        ensures
            r == (Hotkey { key, ctrl: true, alt: false, shift: true }),
    {
        Self { key, ctrl: true, alt: false, shift: true }
    }

    /// Whether no modifier key is part of the combination.
    pub fn no_modifiers(&self) -> (r: bool)
        ensures
            r == !(self.ctrl || self.alt || self.shift),
    {
        !(self.ctrl || self.alt || self.shift)
    }

    /// The text by which the combination is shown to the user, such as `[Ctrl+Shift+Z]`.
    pub fn text(&self) -> (r: String)
        ensures
            r@ == spec_hotkey_text(*self),
    {
        let mut result = "[".to_owned();
        if self.ctrl {
            result.append("Ctrl+");
        }
        if self.alt {
            result.append("Alt+");
        }
        if self.shift {
            result.append("Shift+");
        }
        result.append(self.key.name());
        result.append("]");
        proof {
            assert(result@ =~= spec_hotkey_text(*self));
        }
        result
    }
}

} // verus!
