//! PS/2 set-1 scancodes.

use vstd::prelude::*;

verus! {

/// A PS/2 set-1 scancode plus whether it is an extended (E0-prefixed) code.
#[derive(Debug, Clone, Copy, PartialEq, Eq, Structural)]
pub struct Scancode {
    /// The scancode byte (make code).
    pub code: u16,
    /// Whether the make code is prefixed with 0xE0.
    pub extended: bool,
}

/// Physical keys, named by their US-QWERTY position: the name is a label for the position, not
/// the character produced, because the guest applies its own layout.
#[derive(Debug, Clone, Copy, PartialEq, Eq, Hash)]
pub enum Key {
    // Letters A-Z.
    A,
    B,
    C,
    D,
    E,
    F,
    G,
    H,
    I,
    J,
    K,
    L,
    M,
    N,
    O,
    P,
    Q,
    R,
    S,
    T,
    U,
    V,
    W,
    X,
    Y,
    Z,
    // Top-row digits, left to right (1, 2, .. 9, 0).
    Digit1,
    Digit2,
    Digit3,
    Digit4,
    Digit5,
    Digit6,
    Digit7,
    Digit8,
    Digit9,
    Digit0,
    // Control-punctuation block, in physical order.
    Escape,
    Minus,
    Equal,
    Backspace,
    Tab,
    BracketLeft,
    BracketRight,
    Enter,
    Semicolon,
    Quote,
    Backquote,
    Backslash,
    Comma,
    Period,
    Slash,
    Space,
    CapsLock,
    // Modifier keys.
    LeftShift,
    RightShift,
    LeftControl,
    LeftAlt,
    // Function keys.
    F1,
    F2,
    F3,
    F4,
    F5,
    F6,
    F7,
    F8,
    F9,
    F10,
    F11,
    F12,
    // Lock keys.
    NumLock,
    ScrollLock,
    // Numpad keys (non-extended; NumLock on).
    Numpad0,
    Numpad1,
    Numpad2,
    Numpad3,
    Numpad4,
    Numpad5,
    Numpad6,
    Numpad7,
    Numpad8,
    Numpad9,
    NumpadMultiply,
    NumpadSubtract,
    NumpadAdd,
    NumpadDecimal,
    // Extended (E0-prefixed) keys.
    RightControl,
    RightAlt,
    NumpadDivide,
    NumpadEnter,
    Home,
    End,
    PageUp,
    PageDown,
    Insert,
    Delete,
    ArrowUp,
    ArrowDown,
    ArrowLeft,
    ArrowRight,
    LeftMeta,
    RightMeta,
    Menu,
    PrintScreen,
}

impl Key {
    /// The set-1 scancode for this key.
    pub open spec fn set1(self) -> Scancode {
        match self {
            Key::A => Scancode { code: 0x1E, extended: false },
            Key::B => Scancode { code: 0x30, extended: false },
            Key::C => Scancode { code: 0x2E, extended: false },
            Key::D => Scancode { code: 0x20, extended: false },
            Key::E => Scancode { code: 0x12, extended: false },
            Key::F => Scancode { code: 0x21, extended: false },
            Key::G => Scancode { code: 0x22, extended: false },
            Key::H => Scancode { code: 0x23, extended: false },
            Key::I => Scancode { code: 0x17, extended: false },
            Key::J => Scancode { code: 0x24, extended: false },
            Key::K => Scancode { code: 0x25, extended: false },
            Key::L => Scancode { code: 0x26, extended: false },
            Key::M => Scancode { code: 0x32, extended: false },
            Key::N => Scancode { code: 0x31, extended: false },
            Key::O => Scancode { code: 0x18, extended: false },
            Key::P => Scancode { code: 0x19, extended: false },
            Key::Q => Scancode { code: 0x10, extended: false },
            Key::R => Scancode { code: 0x13, extended: false },
            Key::S => Scancode { code: 0x1F, extended: false },
            Key::T => Scancode { code: 0x14, extended: false },
            Key::U => Scancode { code: 0x16, extended: false },
            Key::V => Scancode { code: 0x2F, extended: false },
            Key::W => Scancode { code: 0x11, extended: false },
            Key::X => Scancode { code: 0x2D, extended: false },
            Key::Y => Scancode { code: 0x15, extended: false },
            Key::Z => Scancode { code: 0x2C, extended: false },
            Key::Digit1 => Scancode { code: 0x02, extended: false },
            Key::Digit2 => Scancode { code: 0x03, extended: false },
            Key::Digit3 => Scancode { code: 0x04, extended: false },
            Key::Digit4 => Scancode { code: 0x05, extended: false },
            Key::Digit5 => Scancode { code: 0x06, extended: false },
            Key::Digit6 => Scancode { code: 0x07, extended: false },
            Key::Digit7 => Scancode { code: 0x08, extended: false },
            Key::Digit8 => Scancode { code: 0x09, extended: false },
            Key::Digit9 => Scancode { code: 0x0A, extended: false },
            Key::Digit0 => Scancode { code: 0x0B, extended: false },
            Key::Escape => Scancode { code: 0x01, extended: false },
            Key::Minus => Scancode { code: 0x0C, extended: false },
            Key::Equal => Scancode { code: 0x0D, extended: false },
            Key::Backspace => Scancode { code: 0x0E, extended: false },
            Key::Tab => Scancode { code: 0x0F, extended: false },
            Key::BracketLeft => Scancode { code: 0x1A, extended: false },
            Key::BracketRight => Scancode { code: 0x1B, extended: false },
            Key::Enter => Scancode { code: 0x1C, extended: false },
            Key::Semicolon => Scancode { code: 0x27, extended: false },
            Key::Quote => Scancode { code: 0x28, extended: false },
            Key::Backquote => Scancode { code: 0x29, extended: false },
            Key::Backslash => Scancode { code: 0x2B, extended: false },
            Key::Comma => Scancode { code: 0x33, extended: false },
            Key::Period => Scancode { code: 0x34, extended: false },
            Key::Slash => Scancode { code: 0x35, extended: false },
            Key::Space => Scancode { code: 0x39, extended: false },
            Key::CapsLock => Scancode { code: 0x3A, extended: false },
            Key::LeftShift => Scancode { code: 0x2A, extended: false },
            Key::RightShift => Scancode { code: 0x36, extended: false },
            Key::LeftControl => Scancode { code: 0x1D, extended: false },
            Key::LeftAlt => Scancode { code: 0x38, extended: false },
            Key::F1 => Scancode { code: 0x3B, extended: false },
            Key::F2 => Scancode { code: 0x3C, extended: false },
            Key::F3 => Scancode { code: 0x3D, extended: false },
            Key::F4 => Scancode { code: 0x3E, extended: false },
            Key::F5 => Scancode { code: 0x3F, extended: false },
            Key::F6 => Scancode { code: 0x40, extended: false },
            Key::F7 => Scancode { code: 0x41, extended: false },
            Key::F8 => Scancode { code: 0x42, extended: false },
            Key::F9 => Scancode { code: 0x43, extended: false },
            Key::F10 => Scancode { code: 0x44, extended: false },
            Key::F11 => Scancode { code: 0x57, extended: false },
            Key::F12 => Scancode { code: 0x58, extended: false },
            Key::NumLock => Scancode { code: 0x45, extended: false },
            Key::ScrollLock => Scancode { code: 0x46, extended: false },
            Key::Numpad0 => Scancode { code: 0x52, extended: false },
            Key::Numpad1 => Scancode { code: 0x4F, extended: false },
            Key::Numpad2 => Scancode { code: 0x50, extended: false },
            Key::Numpad3 => Scancode { code: 0x51, extended: false },
            Key::Numpad4 => Scancode { code: 0x4B, extended: false },
            Key::Numpad5 => Scancode { code: 0x4C, extended: false },
            Key::Numpad6 => Scancode { code: 0x4D, extended: false },
            Key::Numpad7 => Scancode { code: 0x47, extended: false },
            Key::Numpad8 => Scancode { code: 0x48, extended: false },
            Key::Numpad9 => Scancode { code: 0x49, extended: false },
            Key::NumpadMultiply => Scancode { code: 0x37, extended: false },
            Key::NumpadSubtract => Scancode { code: 0x4A, extended: false },
            Key::NumpadAdd => Scancode { code: 0x4E, extended: false },
            Key::NumpadDecimal => Scancode { code: 0x53, extended: false },
            Key::RightControl => Scancode { code: 0x1D, extended: true },
            Key::RightAlt => Scancode { code: 0x38, extended: true },
            Key::NumpadDivide => Scancode { code: 0x35, extended: true },
            Key::NumpadEnter => Scancode { code: 0x1C, extended: true },
            Key::Home => Scancode { code: 0x47, extended: true },
            Key::End => Scancode { code: 0x4F, extended: true },
            Key::PageUp => Scancode { code: 0x49, extended: true },
            Key::PageDown => Scancode { code: 0x51, extended: true },
            Key::Insert => Scancode { code: 0x52, extended: true },
            Key::Delete => Scancode { code: 0x53, extended: true },
            Key::ArrowUp => Scancode { code: 0x48, extended: true },
            Key::ArrowDown => Scancode { code: 0x50, extended: true },
            Key::ArrowLeft => Scancode { code: 0x4B, extended: true },
            Key::ArrowRight => Scancode { code: 0x4D, extended: true },
            Key::LeftMeta => Scancode { code: 0x5B, extended: true },
            Key::RightMeta => Scancode { code: 0x5C, extended: true },
            Key::Menu => Scancode { code: 0x5D, extended: true },
            Key::PrintScreen => Scancode { code: 0x7C, extended: true },
        }
    }

    /// The set-1 scancode for this key.
    pub fn scancode(self) -> (r: Scancode)
        ensures
            r == self.set1(),
    {
        let (code, extended): (u16, bool) = match self {
            Key::A => (0x1E, false),
            Key::B => (0x30, false),
            Key::C => (0x2E, false),
            Key::D => (0x20, false),
            Key::E => (0x12, false),
            Key::F => (0x21, false),
            Key::G => (0x22, false),
            Key::H => (0x23, false),
            Key::I => (0x17, false),
            Key::J => (0x24, false),
            Key::K => (0x25, false),
            Key::L => (0x26, false),
            Key::M => (0x32, false),
            Key::N => (0x31, false),
            Key::O => (0x18, false),
            Key::P => (0x19, false),
            Key::Q => (0x10, false),
            Key::R => (0x13, false),
            Key::S => (0x1F, false),
            Key::T => (0x14, false),
            Key::U => (0x16, false),
            Key::V => (0x2F, false),
            Key::W => (0x11, false),
            Key::X => (0x2D, false),
            Key::Y => (0x15, false),
            Key::Z => (0x2C, false),
            Key::Digit1 => (0x02, false),
            Key::Digit2 => (0x03, false),
            Key::Digit3 => (0x04, false),
            Key::Digit4 => (0x05, false),
            Key::Digit5 => (0x06, false),
            Key::Digit6 => (0x07, false),
            Key::Digit7 => (0x08, false),
            Key::Digit8 => (0x09, false),
            Key::Digit9 => (0x0A, false),
            Key::Digit0 => (0x0B, false),
            Key::Escape => (0x01, false),
            Key::Minus => (0x0C, false),
            Key::Equal => (0x0D, false),
            Key::Backspace => (0x0E, false),
            Key::Tab => (0x0F, false),
            Key::BracketLeft => (0x1A, false),
            Key::BracketRight => (0x1B, false),
            Key::Enter => (0x1C, false),
            Key::Semicolon => (0x27, false),
            Key::Quote => (0x28, false),
            Key::Backquote => (0x29, false),
            Key::Backslash => (0x2B, false),
            Key::Comma => (0x33, false),
            Key::Period => (0x34, false),
            Key::Slash => (0x35, false),
            Key::Space => (0x39, false),
            Key::CapsLock => (0x3A, false),
            Key::LeftShift => (0x2A, false),
            Key::RightShift => (0x36, false),
            Key::LeftControl => (0x1D, false),
            Key::LeftAlt => (0x38, false),
            Key::F1 => (0x3B, false),
            Key::F2 => (0x3C, false),
            Key::F3 => (0x3D, false),
            Key::F4 => (0x3E, false),
            Key::F5 => (0x3F, false),
            Key::F6 => (0x40, false),
            Key::F7 => (0x41, false),
            Key::F8 => (0x42, false),
            Key::F9 => (0x43, false),
            Key::F10 => (0x44, false),
            Key::F11 => (0x57, false),
            Key::F12 => (0x58, false),
            Key::NumLock => (0x45, false),
            Key::ScrollLock => (0x46, false),
            Key::Numpad0 => (0x52, false),
            Key::Numpad1 => (0x4F, false),
            Key::Numpad2 => (0x50, false),
            Key::Numpad3 => (0x51, false),
            Key::Numpad4 => (0x4B, false),
            Key::Numpad5 => (0x4C, false),
            Key::Numpad6 => (0x4D, false),
            Key::Numpad7 => (0x47, false),
            Key::Numpad8 => (0x48, false),
            Key::Numpad9 => (0x49, false),
            Key::NumpadMultiply => (0x37, false),
            Key::NumpadSubtract => (0x4A, false),
            Key::NumpadAdd => (0x4E, false),
            Key::NumpadDecimal => (0x53, false),
            Key::RightControl => (0x1D, true),
            Key::RightAlt => (0x38, true),
            Key::NumpadDivide => (0x35, true),
            Key::NumpadEnter => (0x1C, true),
            Key::Home => (0x47, true),
            Key::End => (0x4F, true),
            Key::PageUp => (0x49, true),
            Key::PageDown => (0x51, true),
            Key::Insert => (0x52, true),
            Key::Delete => (0x53, true),
            Key::ArrowUp => (0x48, true),
            Key::ArrowDown => (0x50, true),
            Key::ArrowLeft => (0x4B, true),
            Key::ArrowRight => (0x4D, true),
            Key::LeftMeta => (0x5B, true),
            Key::RightMeta => (0x5C, true),
            Key::Menu => (0x5D, true),
            // PrintScreen make sequence is E0 12 E0 7C; collapsed to a single 0x7C + E0 code.
            Key::PrintScreen => (0x7C, true),
        };
        Scancode { code, extended }
    }

    /// The key a set-1 scancode denotes, if it is one this table knows.
    pub fn from_scancode(code: u16, extended: bool) -> (r: Option<Key>)
        ensures
            match r {
                Some(k) => k.set1() == (Scancode { code, extended }),
                None => forall|k: Key|
                    #![trigger k.set1()]
                    k.set1() != (Scancode { code, extended }),
            },
            r == key_at(Scancode { code, extended }),
    {
        let found = if extended {
            match code {
                0x1D => Some(Key::RightControl),
                0x38 => Some(Key::RightAlt),
                0x35 => Some(Key::NumpadDivide),
                0x1C => Some(Key::NumpadEnter),
                0x47 => Some(Key::Home),
                0x4F => Some(Key::End),
                0x49 => Some(Key::PageUp),
                0x51 => Some(Key::PageDown),
                0x52 => Some(Key::Insert),
                0x53 => Some(Key::Delete),
                0x48 => Some(Key::ArrowUp),
                0x50 => Some(Key::ArrowDown),
                0x4B => Some(Key::ArrowLeft),
                0x4D => Some(Key::ArrowRight),
                0x5B => Some(Key::LeftMeta),
                0x5C => Some(Key::RightMeta),
                0x5D => Some(Key::Menu),
                0x7C => Some(Key::PrintScreen),
                _ => None,
            }
        } else {
            match code {
                0x1E => Some(Key::A),
                0x30 => Some(Key::B),
                0x2E => Some(Key::C),
                0x20 => Some(Key::D),
                0x12 => Some(Key::E),
                0x21 => Some(Key::F),
                0x22 => Some(Key::G),
                0x23 => Some(Key::H),
                0x17 => Some(Key::I),
                0x24 => Some(Key::J),
                0x25 => Some(Key::K),
                0x26 => Some(Key::L),
                0x32 => Some(Key::M),
                0x31 => Some(Key::N),
                0x18 => Some(Key::O),
                0x19 => Some(Key::P),
                0x10 => Some(Key::Q),
                0x13 => Some(Key::R),
                0x1F => Some(Key::S),
                0x14 => Some(Key::T),
                0x16 => Some(Key::U),
                0x2F => Some(Key::V),
                0x11 => Some(Key::W),
                0x2D => Some(Key::X),
                0x15 => Some(Key::Y),
                0x2C => Some(Key::Z),
                0x02 => Some(Key::Digit1),
                0x03 => Some(Key::Digit2),
                0x04 => Some(Key::Digit3),
                0x05 => Some(Key::Digit4),
                0x06 => Some(Key::Digit5),
                0x07 => Some(Key::Digit6),
                0x08 => Some(Key::Digit7),
                0x09 => Some(Key::Digit8),
                0x0A => Some(Key::Digit9),
                0x0B => Some(Key::Digit0),
                0x01 => Some(Key::Escape),
                0x0C => Some(Key::Minus),
                0x0D => Some(Key::Equal),
                0x0E => Some(Key::Backspace),
                0x0F => Some(Key::Tab),
                0x1A => Some(Key::BracketLeft),
                0x1B => Some(Key::BracketRight),
                0x1C => Some(Key::Enter),
                0x27 => Some(Key::Semicolon),
                0x28 => Some(Key::Quote),
                0x29 => Some(Key::Backquote),
                0x2B => Some(Key::Backslash),
                0x33 => Some(Key::Comma),
                0x34 => Some(Key::Period),
                0x35 => Some(Key::Slash),
                0x39 => Some(Key::Space),
                0x3A => Some(Key::CapsLock),
                0x2A => Some(Key::LeftShift),
                0x36 => Some(Key::RightShift),
                0x1D => Some(Key::LeftControl),
                0x38 => Some(Key::LeftAlt),
                0x3B => Some(Key::F1),
                0x3C => Some(Key::F2),
                0x3D => Some(Key::F3),
                0x3E => Some(Key::F4),
                0x3F => Some(Key::F5),
                0x40 => Some(Key::F6),
                0x41 => Some(Key::F7),
                0x42 => Some(Key::F8),
                0x43 => Some(Key::F9),
                0x44 => Some(Key::F10),
                0x57 => Some(Key::F11),
                0x58 => Some(Key::F12),
                0x45 => Some(Key::NumLock),
                0x46 => Some(Key::ScrollLock),
                0x52 => Some(Key::Numpad0),
                0x4F => Some(Key::Numpad1),
                0x50 => Some(Key::Numpad2),
                0x51 => Some(Key::Numpad3),
                0x4B => Some(Key::Numpad4),
                0x4C => Some(Key::Numpad5),
                0x4D => Some(Key::Numpad6),
                0x47 => Some(Key::Numpad7),
                0x48 => Some(Key::Numpad8),
                0x49 => Some(Key::Numpad9),
                0x37 => Some(Key::NumpadMultiply),
                0x4A => Some(Key::NumpadSubtract),
                0x4E => Some(Key::NumpadAdd),
                0x53 => Some(Key::NumpadDecimal),
                _ => None,
            }
        };
        proof {
            if found is None {
                assert forall|k: Key| #[trigger] k.set1() != (Scancode { code, extended }) by {
                    law_keys_come_back(k);
                }
            }
        }
        found
    }
}

/// The key at a position of the table, if there is one.
pub open spec fn key_at(s: Scancode) -> Option<Key> {
    if s == (Scancode { code: 0x1E, extended: false }) {
        Some(Key::A)
    } else if s == (Scancode { code: 0x30, extended: false }) {
        Some(Key::B)
    } else if s == (Scancode { code: 0x2E, extended: false }) {
        Some(Key::C)
    } else if s == (Scancode { code: 0x20, extended: false }) {
        Some(Key::D)
    } else if s == (Scancode { code: 0x12, extended: false }) {
        Some(Key::E)
    } else if s == (Scancode { code: 0x21, extended: false }) {
        Some(Key::F)
    } else if s == (Scancode { code: 0x22, extended: false }) {
        Some(Key::G)
    } else if s == (Scancode { code: 0x23, extended: false }) {
        Some(Key::H)
    } else if s == (Scancode { code: 0x17, extended: false }) {
        Some(Key::I)
    } else if s == (Scancode { code: 0x24, extended: false }) {
        Some(Key::J)
    } else if s == (Scancode { code: 0x25, extended: false }) {
        Some(Key::K)
    } else if s == (Scancode { code: 0x26, extended: false }) {
        Some(Key::L)
    } else if s == (Scancode { code: 0x32, extended: false }) {
        Some(Key::M)
    } else if s == (Scancode { code: 0x31, extended: false }) {
        Some(Key::N)
    } else if s == (Scancode { code: 0x18, extended: false }) {
        Some(Key::O)
    } else if s == (Scancode { code: 0x19, extended: false }) {
        Some(Key::P)
    } else if s == (Scancode { code: 0x10, extended: false }) {
        Some(Key::Q)
    } else if s == (Scancode { code: 0x13, extended: false }) {
        Some(Key::R)
    } else if s == (Scancode { code: 0x1F, extended: false }) {
        Some(Key::S)
    } else if s == (Scancode { code: 0x14, extended: false }) {
        Some(Key::T)
    } else if s == (Scancode { code: 0x16, extended: false }) {
        Some(Key::U)
    } else if s == (Scancode { code: 0x2F, extended: false }) {
        Some(Key::V)
    } else if s == (Scancode { code: 0x11, extended: false }) {
        Some(Key::W)
    } else if s == (Scancode { code: 0x2D, extended: false }) {
        Some(Key::X)
    } else if s == (Scancode { code: 0x15, extended: false }) {
        Some(Key::Y)
    } else if s == (Scancode { code: 0x2C, extended: false }) {
        Some(Key::Z)
    } else if s == (Scancode { code: 0x02, extended: false }) {
        Some(Key::Digit1)
    } else if s == (Scancode { code: 0x03, extended: false }) {
        Some(Key::Digit2)
    } else if s == (Scancode { code: 0x04, extended: false }) {
        Some(Key::Digit3)
    } else if s == (Scancode { code: 0x05, extended: false }) {
        Some(Key::Digit4)
    } else if s == (Scancode { code: 0x06, extended: false }) {
        Some(Key::Digit5)
    } else if s == (Scancode { code: 0x07, extended: false }) {
        Some(Key::Digit6)
    } else if s == (Scancode { code: 0x08, extended: false }) {
        Some(Key::Digit7)
    } else if s == (Scancode { code: 0x09, extended: false }) {
        Some(Key::Digit8)
    } else if s == (Scancode { code: 0x0A, extended: false }) {
        Some(Key::Digit9)
    } else if s == (Scancode { code: 0x0B, extended: false }) {
        Some(Key::Digit0)
    } else if s == (Scancode { code: 0x01, extended: false }) {
        Some(Key::Escape)
    } else if s == (Scancode { code: 0x0C, extended: false }) {
        Some(Key::Minus)
    } else if s == (Scancode { code: 0x0D, extended: false }) {
        Some(Key::Equal)
    } else if s == (Scancode { code: 0x0E, extended: false }) {
        Some(Key::Backspace)
    } else if s == (Scancode { code: 0x0F, extended: false }) {
        Some(Key::Tab)
    } else if s == (Scancode { code: 0x1A, extended: false }) {
        Some(Key::BracketLeft)
    } else if s == (Scancode { code: 0x1B, extended: false }) {
        Some(Key::BracketRight)
    } else if s == (Scancode { code: 0x1C, extended: false }) {
        Some(Key::Enter)
    } else if s == (Scancode { code: 0x27, extended: false }) {
        Some(Key::Semicolon)
    } else if s == (Scancode { code: 0x28, extended: false }) {
        Some(Key::Quote)
    } else if s == (Scancode { code: 0x29, extended: false }) {
        Some(Key::Backquote)
    } else if s == (Scancode { code: 0x2B, extended: false }) {
        Some(Key::Backslash)
    } else if s == (Scancode { code: 0x33, extended: false }) {
        Some(Key::Comma)
    } else if s == (Scancode { code: 0x34, extended: false }) {
        Some(Key::Period)
    } else if s == (Scancode { code: 0x35, extended: false }) {
        Some(Key::Slash)
    } else if s == (Scancode { code: 0x39, extended: false }) {
        Some(Key::Space)
    } else if s == (Scancode { code: 0x3A, extended: false }) {
        Some(Key::CapsLock)
    } else if s == (Scancode { code: 0x2A, extended: false }) {
        Some(Key::LeftShift)
    } else if s == (Scancode { code: 0x36, extended: false }) {
        Some(Key::RightShift)
    } else if s == (Scancode { code: 0x1D, extended: false }) {
        Some(Key::LeftControl)
    } else if s == (Scancode { code: 0x38, extended: false }) {
        Some(Key::LeftAlt)
    } else if s == (Scancode { code: 0x3B, extended: false }) {
        Some(Key::F1)
    } else if s == (Scancode { code: 0x3C, extended: false }) {
        Some(Key::F2)
    } else if s == (Scancode { code: 0x3D, extended: false }) {
        Some(Key::F3)
    } else if s == (Scancode { code: 0x3E, extended: false }) {
        Some(Key::F4)
    } else if s == (Scancode { code: 0x3F, extended: false }) {
        Some(Key::F5)
    } else if s == (Scancode { code: 0x40, extended: false }) {
        Some(Key::F6)
    } else if s == (Scancode { code: 0x41, extended: false }) {
        Some(Key::F7)
    } else if s == (Scancode { code: 0x42, extended: false }) {
        Some(Key::F8)
    } else if s == (Scancode { code: 0x43, extended: false }) {
        Some(Key::F9)
    } else if s == (Scancode { code: 0x44, extended: false }) {
        Some(Key::F10)
    } else if s == (Scancode { code: 0x57, extended: false }) {
        Some(Key::F11)
    } else if s == (Scancode { code: 0x58, extended: false }) {
        Some(Key::F12)
    } else if s == (Scancode { code: 0x45, extended: false }) {
        Some(Key::NumLock)
    } else if s == (Scancode { code: 0x46, extended: false }) {
        Some(Key::ScrollLock)
    } else if s == (Scancode { code: 0x52, extended: false }) {
        Some(Key::Numpad0)
    } else if s == (Scancode { code: 0x4F, extended: false }) {
        Some(Key::Numpad1)
    } else if s == (Scancode { code: 0x50, extended: false }) {
        Some(Key::Numpad2)
    } else if s == (Scancode { code: 0x51, extended: false }) {
        Some(Key::Numpad3)
    } else if s == (Scancode { code: 0x4B, extended: false }) {
        Some(Key::Numpad4)
    } else if s == (Scancode { code: 0x4C, extended: false }) {
        Some(Key::Numpad5)
    } else if s == (Scancode { code: 0x4D, extended: false }) {
        Some(Key::Numpad6)
    } else if s == (Scancode { code: 0x47, extended: false }) {
        Some(Key::Numpad7)
    } else if s == (Scancode { code: 0x48, extended: false }) {
        Some(Key::Numpad8)
    } else if s == (Scancode { code: 0x49, extended: false }) {
        Some(Key::Numpad9)
    } else if s == (Scancode { code: 0x37, extended: false }) {
        Some(Key::NumpadMultiply)
    } else if s == (Scancode { code: 0x4A, extended: false }) {
        Some(Key::NumpadSubtract)
    } else if s == (Scancode { code: 0x4E, extended: false }) {
        Some(Key::NumpadAdd)
    } else if s == (Scancode { code: 0x53, extended: false }) {
        Some(Key::NumpadDecimal)
    } else if s == (Scancode { code: 0x1D, extended: true }) {
        Some(Key::RightControl)
    } else if s == (Scancode { code: 0x38, extended: true }) {
        Some(Key::RightAlt)
    } else if s == (Scancode { code: 0x35, extended: true }) {
        Some(Key::NumpadDivide)
    } else if s == (Scancode { code: 0x1C, extended: true }) {
        Some(Key::NumpadEnter)
    } else if s == (Scancode { code: 0x47, extended: true }) {
        Some(Key::Home)
    } else if s == (Scancode { code: 0x4F, extended: true }) {
        Some(Key::End)
    } else if s == (Scancode { code: 0x49, extended: true }) {
        Some(Key::PageUp)
    } else if s == (Scancode { code: 0x51, extended: true }) {
        Some(Key::PageDown)
    } else if s == (Scancode { code: 0x52, extended: true }) {
        Some(Key::Insert)
    } else if s == (Scancode { code: 0x53, extended: true }) {
        Some(Key::Delete)
    } else if s == (Scancode { code: 0x48, extended: true }) {
        Some(Key::ArrowUp)
    } else if s == (Scancode { code: 0x50, extended: true }) {
        Some(Key::ArrowDown)
    } else if s == (Scancode { code: 0x4B, extended: true }) {
        Some(Key::ArrowLeft)
    } else if s == (Scancode { code: 0x4D, extended: true }) {
        Some(Key::ArrowRight)
    } else if s == (Scancode { code: 0x5B, extended: true }) {
        Some(Key::LeftMeta)
    } else if s == (Scancode { code: 0x5C, extended: true }) {
        Some(Key::RightMeta)
    } else if s == (Scancode { code: 0x5D, extended: true }) {
        Some(Key::Menu)
    } else if s == (Scancode { code: 0x7C, extended: true }) {
        Some(Key::PrintScreen)
    } else {
        None
    }
}

/// Every key comes back from its own scancode.
pub proof fn law_keys_come_back(k: Key)
    ensures
        key_at(k.set1()) == Some(k),
{
}

/// No two keys share a scancode.
pub proof fn law_scancodes_are_distinct(j: Key, k: Key)
    requires
        j.set1() == k.set1(),
    ensures
        j == k,
{
    law_keys_come_back(j);
    law_keys_come_back(k);
}

/// The keys of the original keyboard in the order in which set 1 numbers them: row by row from the
/// top left, then the function keys, the locks and the keypad.
pub open spec fn numbered_keys() -> Seq<Key> {
    seq![
        Key::Escape,
        Key::Digit1,
        Key::Digit2,
        Key::Digit3,
        Key::Digit4,
        Key::Digit5,
        Key::Digit6,
        Key::Digit7,
        Key::Digit8,
        Key::Digit9,
        Key::Digit0,
        Key::Minus,
        Key::Equal,
        Key::Backspace,
        Key::Tab,
        Key::Q,
        Key::W,
        Key::E,
        Key::R,
        Key::T,
        Key::Y,
        Key::U,
        Key::I,
        Key::O,
        Key::P,
        Key::BracketLeft,
        Key::BracketRight,
        Key::Enter,
        Key::LeftControl,
        Key::A,
        Key::S,
        Key::D,
        Key::F,
        Key::G,
        Key::H,
        Key::J,
        Key::K,
        Key::L,
        Key::Semicolon,
        Key::Quote,
        Key::Backquote,
        Key::LeftShift,
        Key::Backslash,
        Key::Z,
        Key::X,
        Key::C,
        Key::V,
        Key::B,
        Key::N,
        Key::M,
        Key::Comma,
        Key::Period,
        Key::Slash,
        Key::RightShift,
        Key::NumpadMultiply,
        Key::LeftAlt,
        Key::Space,
        Key::CapsLock,
        Key::F1,
        Key::F2,
        Key::F3,
        Key::F4,
        Key::F5,
        Key::F6,
        Key::F7,
        Key::F8,
        Key::F9,
        Key::F10,
        Key::NumLock,
        Key::ScrollLock,
        Key::Numpad7,
        Key::Numpad8,
        Key::Numpad9,
        Key::NumpadSubtract,
        Key::Numpad4,
        Key::Numpad5,
        Key::Numpad6,
        Key::NumpadAdd,
        Key::Numpad1,
        Key::Numpad2,
        Key::Numpad3,
        Key::Numpad0,
        Key::NumpadDecimal,
    ]
}

/// Set 1 numbers the keys of the original keyboard one after the other from 1 on, without a prefix.
#[verifier::rlimit(60)]
pub proof fn law_keys_are_numbered_in_order(i: int, r: Scancode)
    requires
        0 <= i < numbered_keys().len(),
        call_ensures(Key::scancode, (numbered_keys()[i],), r),
    ensures
        numbered_keys().len() == 83,
        r.code == i + 1,
        !r.extended,
{
}

/// The key of the original keyboard that a later key doubles, if it does: the second Enter, Control,
/// Alt and slash, and the navigation keys that the keypad had first.
pub open spec fn doubled_key(key: Key) -> Option<Key> {
    match key {
        Key::NumpadEnter => Some(Key::Enter),
        Key::RightControl => Some(Key::LeftControl),
        Key::NumpadDivide => Some(Key::Slash),
        Key::RightAlt => Some(Key::LeftAlt),
        Key::Home => Some(Key::Numpad7),
        Key::ArrowUp => Some(Key::Numpad8),
        Key::PageUp => Some(Key::Numpad9),
        Key::ArrowLeft => Some(Key::Numpad4),
        Key::ArrowRight => Some(Key::Numpad6),
        Key::End => Some(Key::Numpad1),
        Key::ArrowDown => Some(Key::Numpad2),
        Key::PageDown => Some(Key::Numpad3),
        Key::Insert => Some(Key::Numpad0),
        Key::Delete => Some(Key::NumpadDecimal),
        _ => None,
    }
}

/// A key that doubles another has the other's code behind a prefix.
pub proof fn law_doubled_keys_share_a_code(key: Key, r: Scancode, other: Scancode)
    requires
        doubled_key(key) is Some,
        call_ensures(Key::scancode, (key,), r),
        call_ensures(Key::scancode, (doubled_key(key)->0,), other),
    ensures
        r.extended,
        !other.extended,
        r.code == other.code,
{
}

/// Every key is numbered in order, doubles one that is, or is one of the few that came later:
/// `F11` and `F12` behind the keypad, and, behind a prefix, the two logo keys and the menu key one
/// after the other, and `PrintScreen`.
#[verifier::rlimit(60)]
pub proof fn law_later_keys_have_their_codes(key: Key, r: Scancode)
    requires
        call_ensures(Key::scancode, (key,), r),
    ensures
        key == Key::F11 ==> r == (Scancode { code: 0x57, extended: false }),
        key == Key::F12 ==> r == (Scancode { code: 0x58, extended: false }),
        key == Key::LeftMeta ==> r == (Scancode { code: 0x5b, extended: true }),
        key == Key::RightMeta ==> r == (Scancode { code: 0x5c, extended: true }),
        key == Key::Menu ==> r == (Scancode { code: 0x5d, extended: true }),
        key == Key::PrintScreen ==> r == (Scancode { code: 0x7c, extended: true }),
        r.code > 0x53 || r.extended ==> doubled_key(key) is Some || key == Key::F11 || key
            == Key::F12 || key == Key::LeftMeta || key == Key::RightMeta || key == Key::Menu || key
            == Key::PrintScreen,
{
}

/// The key that stands at `i` in declaration order.
pub open spec fn nth(i: int) -> Key {
    if i == 0 {
        Key::A
    } else if i == 1 {
        Key::B
    } else if i == 2 {
        Key::C
    } else if i == 3 {
        Key::D
    } else if i == 4 {
        Key::E
    } else if i == 5 {
        Key::F
    } else if i == 6 {
        Key::G
    } else if i == 7 {
        Key::H
    } else if i == 8 {
        Key::I
    } else if i == 9 {
        Key::J
    } else if i == 10 {
        Key::K
    } else if i == 11 {
        Key::L
    } else if i == 12 {
        Key::M
    } else if i == 13 {
        Key::N
    } else if i == 14 {
        Key::O
    } else if i == 15 {
        Key::P
    } else if i == 16 {
        Key::Q
    } else if i == 17 {
        Key::R
    } else if i == 18 {
        Key::S
    } else if i == 19 {
        Key::T
    } else if i == 20 {
        Key::U
    } else if i == 21 {
        Key::V
    } else if i == 22 {
        Key::W
    } else if i == 23 {
        Key::X
    } else if i == 24 {
        Key::Y
    } else if i == 25 {
        Key::Z
    } else if i == 26 {
        Key::Digit1
    } else if i == 27 {
        Key::Digit2
    } else if i == 28 {
        Key::Digit3
    } else if i == 29 {
        Key::Digit4
    } else if i == 30 {
        Key::Digit5
    } else if i == 31 {
        Key::Digit6
    } else if i == 32 {
        Key::Digit7
    } else if i == 33 {
        Key::Digit8
    } else if i == 34 {
        Key::Digit9
    } else if i == 35 {
        Key::Digit0
    } else if i == 36 {
        Key::Escape
    } else if i == 37 {
        Key::Minus
    } else if i == 38 {
        Key::Equal
    } else if i == 39 {
        Key::Backspace
    } else if i == 40 {
        Key::Tab
    } else if i == 41 {
        Key::BracketLeft
    } else if i == 42 {
        Key::BracketRight
    } else if i == 43 {
        Key::Enter
    } else if i == 44 {
        Key::Semicolon
    } else if i == 45 {
        Key::Quote
    } else if i == 46 {
        Key::Backquote
    } else if i == 47 {
        Key::Backslash
    } else if i == 48 {
        Key::Comma
    } else if i == 49 {
        Key::Period
    } else if i == 50 {
        Key::Slash
    } else if i == 51 {
        Key::Space
    } else if i == 52 {
        Key::CapsLock
    } else if i == 53 {
        Key::LeftShift
    } else if i == 54 {
        Key::RightShift
    } else if i == 55 {
        Key::LeftControl
    } else if i == 56 {
        Key::LeftAlt
    } else if i == 57 {
        Key::F1
    } else if i == 58 {
        Key::F2
    } else if i == 59 {
        Key::F3
    } else if i == 60 {
        Key::F4
    } else if i == 61 {
        Key::F5
    } else if i == 62 {
        Key::F6
    } else if i == 63 {
        Key::F7
    } else if i == 64 {
        Key::F8
    } else if i == 65 {
        Key::F9
    } else if i == 66 {
        Key::F10
    } else if i == 67 {
        Key::F11
    } else if i == 68 {
        Key::F12
    } else if i == 69 {
        Key::NumLock
    } else if i == 70 {
        Key::ScrollLock
    } else if i == 71 {
        Key::Numpad0
    } else if i == 72 {
        Key::Numpad1
    } else if i == 73 {
        Key::Numpad2
    } else if i == 74 {
        Key::Numpad3
    } else if i == 75 {
        Key::Numpad4
    } else if i == 76 {
        Key::Numpad5
    } else if i == 77 {
        Key::Numpad6
    } else if i == 78 {
        Key::Numpad7
    } else if i == 79 {
        Key::Numpad8
    } else if i == 80 {
        Key::Numpad9
    } else if i == 81 {
        Key::NumpadMultiply
    } else if i == 82 {
        Key::NumpadSubtract
    } else if i == 83 {
        Key::NumpadAdd
    } else if i == 84 {
        Key::NumpadDecimal
    } else if i == 85 {
        Key::RightControl
    } else if i == 86 {
        Key::RightAlt
    } else if i == 87 {
        Key::NumpadDivide
    } else if i == 88 {
        Key::NumpadEnter
    } else if i == 89 {
        Key::Home
    } else if i == 90 {
        Key::End
    } else if i == 91 {
        Key::PageUp
    } else if i == 92 {
        Key::PageDown
    } else if i == 93 {
        Key::Insert
    } else if i == 94 {
        Key::Delete
    } else if i == 95 {
        Key::ArrowUp
    } else if i == 96 {
        Key::ArrowDown
    } else if i == 97 {
        Key::ArrowLeft
    } else if i == 98 {
        Key::ArrowRight
    } else if i == 99 {
        Key::LeftMeta
    } else if i == 100 {
        Key::RightMeta
    } else if i == 101 {
        Key::Menu
    } else {
        Key::PrintScreen
    }
}

/// Where a key stands in declaration order.
pub open spec fn place(k: Key) -> int {
    match k {
        Key::A => 0,
        Key::B => 1,
        Key::C => 2,
        Key::D => 3,
        Key::E => 4,
        Key::F => 5,
        Key::G => 6,
        Key::H => 7,
        Key::I => 8,
        Key::J => 9,
        Key::K => 10,
        Key::L => 11,
        Key::M => 12,
        Key::N => 13,
        Key::O => 14,
        Key::P => 15,
        Key::Q => 16,
        Key::R => 17,
        Key::S => 18,
        Key::T => 19,
        Key::U => 20,
        Key::V => 21,
        Key::W => 22,
        Key::X => 23,
        Key::Y => 24,
        Key::Z => 25,
        Key::Digit1 => 26,
        Key::Digit2 => 27,
        Key::Digit3 => 28,
        Key::Digit4 => 29,
        Key::Digit5 => 30,
        Key::Digit6 => 31,
        Key::Digit7 => 32,
        Key::Digit8 => 33,
        Key::Digit9 => 34,
        Key::Digit0 => 35,
        Key::Escape => 36,
        Key::Minus => 37,
        Key::Equal => 38,
        Key::Backspace => 39,
        Key::Tab => 40,
        Key::BracketLeft => 41,
        Key::BracketRight => 42,
        Key::Enter => 43,
        Key::Semicolon => 44,
        Key::Quote => 45,
        Key::Backquote => 46,
        Key::Backslash => 47,
        Key::Comma => 48,
        Key::Period => 49,
        Key::Slash => 50,
        Key::Space => 51,
        Key::CapsLock => 52,
        Key::LeftShift => 53,
        Key::RightShift => 54,
        Key::LeftControl => 55,
        Key::LeftAlt => 56,
        Key::F1 => 57,
        Key::F2 => 58,
        Key::F3 => 59,
        Key::F4 => 60,
        Key::F5 => 61,
        Key::F6 => 62,
        Key::F7 => 63,
        Key::F8 => 64,
        Key::F9 => 65,
        Key::F10 => 66,
        Key::F11 => 67,
        Key::F12 => 68,
        Key::NumLock => 69,
        Key::ScrollLock => 70,
        Key::Numpad0 => 71,
        Key::Numpad1 => 72,
        Key::Numpad2 => 73,
        Key::Numpad3 => 74,
        Key::Numpad4 => 75,
        Key::Numpad5 => 76,
        Key::Numpad6 => 77,
        Key::Numpad7 => 78,
        Key::Numpad8 => 79,
        Key::Numpad9 => 80,
        Key::NumpadMultiply => 81,
        Key::NumpadSubtract => 82,
        Key::NumpadAdd => 83,
        Key::NumpadDecimal => 84,
        Key::RightControl => 85,
        Key::RightAlt => 86,
        Key::NumpadDivide => 87,
        Key::NumpadEnter => 88,
        Key::Home => 89,
        Key::End => 90,
        Key::PageUp => 91,
        Key::PageDown => 92,
        Key::Insert => 93,
        Key::Delete => 94,
        Key::ArrowUp => 95,
        Key::ArrowDown => 96,
        Key::ArrowLeft => 97,
        Key::ArrowRight => 98,
        Key::LeftMeta => 99,
        Key::RightMeta => 100,
        Key::Menu => 101,
        Key::PrintScreen => 102,
    }
}

/// Every key stands at its own place.
proof fn lemma_place(k: Key)
    ensures
        nth(place(k)) == k,
        0 <= place(k) < 103,
{
}

/// Every key this table knows, in declaration order: handy for enumerating over the full set-1
/// surface.
pub fn all_keys() -> (r: Vec<Key>)
    ensures
        r@.len() == 103,
        forall|i: int| 0 <= i < r@.len() ==> #[trigger] r@[i] == nth(i),
        forall|k: Key| #[trigger] r@.contains(k),
{
    let keys = vec![
        Key::A,
        Key::B,
        Key::C,
        Key::D,
        Key::E,
        Key::F,
        Key::G,
        Key::H,
        Key::I,
        Key::J,
        Key::K,
        Key::L,
        Key::M,
        Key::N,
        Key::O,
        Key::P,
        Key::Q,
        Key::R,
        Key::S,
        Key::T,
        Key::U,
        Key::V,
        Key::W,
        Key::X,
        Key::Y,
        Key::Z,
        Key::Digit1,
        Key::Digit2,
        Key::Digit3,
        Key::Digit4,
        Key::Digit5,
        Key::Digit6,
        Key::Digit7,
        Key::Digit8,
        Key::Digit9,
        Key::Digit0,
        Key::Escape,
        Key::Minus,
        Key::Equal,
        Key::Backspace,
        Key::Tab,
        Key::BracketLeft,
        Key::BracketRight,
        Key::Enter,
        Key::Semicolon,
        Key::Quote,
        Key::Backquote,
        Key::Backslash,
        Key::Comma,
        Key::Period,
        Key::Slash,
        Key::Space,
        Key::CapsLock,
        Key::LeftShift,
        Key::RightShift,
        Key::LeftControl,
        Key::LeftAlt,
        Key::F1,
        Key::F2,
        Key::F3,
        Key::F4,
        Key::F5,
        Key::F6,
        Key::F7,
        Key::F8,
        Key::F9,
        Key::F10,
        Key::F11,
        Key::F12,
        Key::NumLock,
        Key::ScrollLock,
        Key::Numpad0,
        Key::Numpad1,
        Key::Numpad2,
        Key::Numpad3,
        Key::Numpad4,
        Key::Numpad5,
        Key::Numpad6,
        Key::Numpad7,
        Key::Numpad8,
        Key::Numpad9,
        Key::NumpadMultiply,
        Key::NumpadSubtract,
        Key::NumpadAdd,
        Key::NumpadDecimal,
        Key::RightControl,
        Key::RightAlt,
        Key::NumpadDivide,
        Key::NumpadEnter,
        Key::Home,
        Key::End,
        Key::PageUp,
        Key::PageDown,
        Key::Insert,
        Key::Delete,
        Key::ArrowUp,
        Key::ArrowDown,
        Key::ArrowLeft,
        Key::ArrowRight,
        Key::LeftMeta,
        Key::RightMeta,
        Key::Menu,
        Key::PrintScreen,
    ];
    assert(keys@.len() == 103);
    assert forall|i: int| 0 <= i < keys@.len() implies #[trigger] keys@[i] == nth(i) by {}
    assert forall|k: Key| #[trigger] keys@.contains(k) by {
        lemma_place(k);
        assert(keys@[place(k)] == nth(place(k)));
    }
    keys
}

/// A key's scancode leads back to the key, and a scancode that no key has leads nowhere.
pub proof fn law_scancodes_lead_back(
    k: Key,
    s: Scancode,
    back: Option<Key>,
    code: u16,
    extended: bool,
    found: Option<Key>,
)
    requires
        call_ensures(Key::scancode, (k,), s),
        call_ensures(Key::from_scancode, (s.code, s.extended), back),
        call_ensures(Key::from_scancode, (code, extended), found),
    ensures
        back == Some(k),
        found == Some(k) ==> s.code == code && s.extended == extended,
        found is None ==> s.code != code || s.extended != extended,
{
    law_keys_come_back(k);
}

/// There are 103 keys, and every one is listed.
pub proof fn law_every_key_is_listed(r: Vec<Key>, k: Key)
    requires
        call_ensures(all_keys, (), r),
    ensures
        r@.len() == 103,
        r@.contains(k),
{
}

} // verus!
