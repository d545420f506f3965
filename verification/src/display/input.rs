//! Keyboard and pointer input: from native events to the protocol's.

use std::collections::HashMap;

use vstd::prelude::*;

use crate::display::{DisplayEvent, DisplayEventView};
use crate::proto::message::input::{key_flag, lock_state, modifier, pointer_button};
use crate::proto::scancode;
use crate::proto::scancode::Key;

pub use crate::proto::scancode::Scancode;

verus! {

/// A physical key, as native windowing names it. The keys that PS/2 set 1 has no use for are all
/// [`KeyCode::Other`].
#[derive(Debug, Clone, Copy, PartialEq, Eq)]
pub enum KeyCode {
    /// The key at the position of `Escape`.
    Escape,
    /// The key at the position of `Digit1`.
    Digit1,
    /// The key at the position of `Digit2`.
    Digit2,
    /// The key at the position of `Digit3`.
    Digit3,
    /// The key at the position of `Digit4`.
    Digit4,
    /// The key at the position of `Digit5`.
    Digit5,
    /// The key at the position of `Digit6`.
    Digit6,
    /// The key at the position of `Digit7`.
    Digit7,
    /// The key at the position of `Digit8`.
    Digit8,
    /// The key at the position of `Digit9`.
    Digit9,
    /// The key at the position of `Digit0`.
    Digit0,
    /// The key at the position of `Minus`.
    Minus,
    /// The key at the position of `Equal`.
    Equal,
    /// The key at the position of `Backspace`.
    Backspace,
    /// The key at the position of `Tab`.
    Tab,
    /// The key at the position of `KeyQ`.
    KeyQ,
    /// The key at the position of `KeyW`.
    KeyW,
    /// The key at the position of `KeyE`.
    KeyE,
    /// The key at the position of `KeyR`.
    KeyR,
    /// The key at the position of `KeyT`.
    KeyT,
    /// The key at the position of `KeyY`.
    KeyY,
    /// The key at the position of `KeyU`.
    KeyU,
    /// The key at the position of `KeyI`.
    KeyI,
    /// The key at the position of `KeyO`.
    KeyO,
    /// The key at the position of `KeyP`.
    KeyP,
    /// The key at the position of `BracketLeft`.
    BracketLeft,
    /// The key at the position of `BracketRight`.
    BracketRight,
    /// The key at the position of `Enter`.
    Enter,
    /// The key at the position of `ControlLeft`.
    ControlLeft,
    /// The key at the position of `KeyA`.
    KeyA,
    /// The key at the position of `KeyS`.
    KeyS,
    /// The key at the position of `KeyD`.
    KeyD,
    /// The key at the position of `KeyF`.
    KeyF,
    /// The key at the position of `KeyG`.
    KeyG,
    /// The key at the position of `KeyH`.
    KeyH,
    /// The key at the position of `KeyJ`.
    KeyJ,
    /// The key at the position of `KeyK`.
    KeyK,
    /// The key at the position of `KeyL`.
    KeyL,
    /// The key at the position of `Semicolon`.
    Semicolon,
    /// The key at the position of `Quote`.
    Quote,
    /// The key at the position of `Backquote`.
    Backquote,
    /// The key at the position of `ShiftLeft`.
    ShiftLeft,
    /// The key at the position of `Backslash`.
    Backslash,
    /// The key at the position of `KeyZ`.
    KeyZ,
    /// The key at the position of `KeyX`.
    KeyX,
    /// The key at the position of `KeyC`.
    KeyC,
    /// The key at the position of `KeyV`.
    KeyV,
    /// The key at the position of `KeyB`.
    KeyB,
    /// The key at the position of `KeyN`.
    KeyN,
    /// The key at the position of `KeyM`.
    KeyM,
    /// The key at the position of `Comma`.
    Comma,
    /// The key at the position of `Period`.
    Period,
    /// The key at the position of `Slash`.
    Slash,
    /// The key at the position of `ShiftRight`.
    ShiftRight,
    /// The key at the position of `NumpadMultiply`.
    NumpadMultiply,
    /// The key at the position of `AltLeft`.
    AltLeft,
    /// The key at the position of `Space`.
    Space,
    /// The key at the position of `CapsLock`.
    CapsLock,
    /// The key at the position of `F1`.
    F1,
    /// The key at the position of `F2`.
    F2,
    /// The key at the position of `F3`.
    F3,
    /// The key at the position of `F4`.
    F4,
    /// The key at the position of `F5`.
    F5,
    /// The key at the position of `F6`.
    F6,
    /// The key at the position of `F7`.
    F7,
    /// The key at the position of `F8`.
    F8,
    /// The key at the position of `F9`.
    F9,
    /// The key at the position of `F10`.
    F10,
    /// The key at the position of `NumLock`.
    NumLock,
    /// The key at the position of `ScrollLock`.
    ScrollLock,
    /// The key at the position of `Numpad7`.
    Numpad7,
    /// The key at the position of `Numpad8`.
    Numpad8,
    /// The key at the position of `Numpad9`.
    Numpad9,
    /// The key at the position of `NumpadSubtract`.
    NumpadSubtract,
    /// The key at the position of `Numpad4`.
    Numpad4,
    /// The key at the position of `Numpad5`.
    Numpad5,
    /// The key at the position of `Numpad6`.
    Numpad6,
    /// The key at the position of `NumpadAdd`.
    NumpadAdd,
    /// The key at the position of `Numpad1`.
    Numpad1,
    /// The key at the position of `Numpad2`.
    Numpad2,
    /// The key at the position of `Numpad3`.
    Numpad3,
    /// The key at the position of `Numpad0`.
    Numpad0,
    /// The key at the position of `NumpadDecimal`.
    NumpadDecimal,
    /// The key at the position of `F11`.
    F11,
    /// The key at the position of `F12`.
    F12,
    /// The key at the position of `NumpadEnter`.
    NumpadEnter,
    /// The key at the position of `ControlRight`.
    ControlRight,
    /// The key at the position of `NumpadDivide`.
    NumpadDivide,
    /// The key at the position of `AltRight`.
    AltRight,
    /// The key at the position of `Home`.
    Home,
    /// The key at the position of `ArrowUp`.
    ArrowUp,
    /// The key at the position of `PageUp`.
    PageUp,
    /// The key at the position of `ArrowLeft`.
    ArrowLeft,
    /// The key at the position of `ArrowRight`.
    ArrowRight,
    /// The key at the position of `End`.
    End,
    /// The key at the position of `ArrowDown`.
    ArrowDown,
    /// The key at the position of `PageDown`.
    PageDown,
    /// The key at the position of `Insert`.
    Insert,
    /// The key at the position of `Delete`.
    Delete,
    /// The key at the position of `SuperLeft`.
    SuperLeft,
    /// The key at the position of `SuperRight`.
    SuperRight,
    /// The key at the position of `ContextMenu`.
    ContextMenu,
    /// Any other key.
    Other,
}

/// The protocol's name for the key at a position, if it has one.
pub open spec fn key_of(code: KeyCode) -> Option<Key> {
    match code {
        KeyCode::Escape => Some(Key::Escape),
        KeyCode::Digit1 => Some(Key::Digit1),
        KeyCode::Digit2 => Some(Key::Digit2),
        KeyCode::Digit3 => Some(Key::Digit3),
        KeyCode::Digit4 => Some(Key::Digit4),
        KeyCode::Digit5 => Some(Key::Digit5),
        KeyCode::Digit6 => Some(Key::Digit6),
        KeyCode::Digit7 => Some(Key::Digit7),
        KeyCode::Digit8 => Some(Key::Digit8),
        KeyCode::Digit9 => Some(Key::Digit9),
        KeyCode::Digit0 => Some(Key::Digit0),
        KeyCode::Minus => Some(Key::Minus),
        KeyCode::Equal => Some(Key::Equal),
        KeyCode::Backspace => Some(Key::Backspace),
        KeyCode::Tab => Some(Key::Tab),
        KeyCode::KeyQ => Some(Key::Q),
        KeyCode::KeyW => Some(Key::W),
        KeyCode::KeyE => Some(Key::E),
        KeyCode::KeyR => Some(Key::R),
        KeyCode::KeyT => Some(Key::T),
        KeyCode::KeyY => Some(Key::Y),
        KeyCode::KeyU => Some(Key::U),
        KeyCode::KeyI => Some(Key::I),
        KeyCode::KeyO => Some(Key::O),
        KeyCode::KeyP => Some(Key::P),
        KeyCode::BracketLeft => Some(Key::BracketLeft),
        KeyCode::BracketRight => Some(Key::BracketRight),
        KeyCode::Enter => Some(Key::Enter),
        KeyCode::ControlLeft => Some(Key::LeftControl),
        KeyCode::KeyA => Some(Key::A),
        KeyCode::KeyS => Some(Key::S),
        KeyCode::KeyD => Some(Key::D),
        KeyCode::KeyF => Some(Key::F),
        KeyCode::KeyG => Some(Key::G),
        KeyCode::KeyH => Some(Key::H),
        KeyCode::KeyJ => Some(Key::J),
        KeyCode::KeyK => Some(Key::K),
        KeyCode::KeyL => Some(Key::L),
        KeyCode::Semicolon => Some(Key::Semicolon),
        KeyCode::Quote => Some(Key::Quote),
        KeyCode::Backquote => Some(Key::Backquote),
        KeyCode::ShiftLeft => Some(Key::LeftShift),
        KeyCode::Backslash => Some(Key::Backslash),
        KeyCode::KeyZ => Some(Key::Z),
        KeyCode::KeyX => Some(Key::X),
        KeyCode::KeyC => Some(Key::C),
        KeyCode::KeyV => Some(Key::V),
        KeyCode::KeyB => Some(Key::B),
        KeyCode::KeyN => Some(Key::N),
        KeyCode::KeyM => Some(Key::M),
        KeyCode::Comma => Some(Key::Comma),
        KeyCode::Period => Some(Key::Period),
        KeyCode::Slash => Some(Key::Slash),
        KeyCode::ShiftRight => Some(Key::RightShift),
        KeyCode::NumpadMultiply => Some(Key::NumpadMultiply),
        KeyCode::AltLeft => Some(Key::LeftAlt),
        KeyCode::Space => Some(Key::Space),
        KeyCode::CapsLock => Some(Key::CapsLock),
        KeyCode::F1 => Some(Key::F1),
        KeyCode::F2 => Some(Key::F2),
        KeyCode::F3 => Some(Key::F3),
        KeyCode::F4 => Some(Key::F4),
        KeyCode::F5 => Some(Key::F5),
        KeyCode::F6 => Some(Key::F6),
        KeyCode::F7 => Some(Key::F7),
        KeyCode::F8 => Some(Key::F8),
        KeyCode::F9 => Some(Key::F9),
        KeyCode::F10 => Some(Key::F10),
        KeyCode::NumLock => Some(Key::NumLock),
        KeyCode::ScrollLock => Some(Key::ScrollLock),
        KeyCode::Numpad7 => Some(Key::Numpad7),
        KeyCode::Numpad8 => Some(Key::Numpad8),
        KeyCode::Numpad9 => Some(Key::Numpad9),
        KeyCode::NumpadSubtract => Some(Key::NumpadSubtract),
        KeyCode::Numpad4 => Some(Key::Numpad4),
        KeyCode::Numpad5 => Some(Key::Numpad5),
        KeyCode::Numpad6 => Some(Key::Numpad6),
        KeyCode::NumpadAdd => Some(Key::NumpadAdd),
        KeyCode::Numpad1 => Some(Key::Numpad1),
        KeyCode::Numpad2 => Some(Key::Numpad2),
        KeyCode::Numpad3 => Some(Key::Numpad3),
        KeyCode::Numpad0 => Some(Key::Numpad0),
        KeyCode::NumpadDecimal => Some(Key::NumpadDecimal),
        KeyCode::F11 => Some(Key::F11),
        KeyCode::F12 => Some(Key::F12),
        KeyCode::NumpadEnter => Some(Key::NumpadEnter),
        KeyCode::ControlRight => Some(Key::RightControl),
        KeyCode::NumpadDivide => Some(Key::NumpadDivide),
        KeyCode::AltRight => Some(Key::RightAlt),
        KeyCode::Home => Some(Key::Home),
        KeyCode::ArrowUp => Some(Key::ArrowUp),
        KeyCode::PageUp => Some(Key::PageUp),
        KeyCode::ArrowLeft => Some(Key::ArrowLeft),
        KeyCode::ArrowRight => Some(Key::ArrowRight),
        KeyCode::End => Some(Key::End),
        KeyCode::ArrowDown => Some(Key::ArrowDown),
        KeyCode::PageDown => Some(Key::PageDown),
        KeyCode::Insert => Some(Key::Insert),
        KeyCode::Delete => Some(Key::Delete),
        KeyCode::SuperLeft => Some(Key::LeftMeta),
        KeyCode::SuperRight => Some(Key::RightMeta),
        KeyCode::ContextMenu => Some(Key::Menu),
        KeyCode::Other => None,
    }
}

/// A scancode without E0 prefix.
fn plain(code: u16) -> (r: Option<Scancode>)
    ensures
        r == Some(Scancode { code, extended: false }),
{
    Some(Scancode { code, extended: false })
}

/// A scancode with E0 prefix.
fn extended(code: u16) -> (r: Option<Scancode>)
    ensures
        r == Some(Scancode { code, extended: true }),
{
    Some(Scancode { code, extended: true })
}

/// Translate a physical key code to PS/2 set 1: the scancode of the protocol's key at that
/// position.
pub fn keycode_to_scancode(code: KeyCode) -> (r: Option<Scancode>)
    ensures
        r == (match key_of(code) {
            None => None,
            Some(key) => Some(key.set1()),
        }),
{
    match code {
        KeyCode::Escape => plain(0x01),
        KeyCode::Digit1 => plain(0x02),
        KeyCode::Digit2 => plain(0x03),
        KeyCode::Digit3 => plain(0x04),
        KeyCode::Digit4 => plain(0x05),
        KeyCode::Digit5 => plain(0x06),
        KeyCode::Digit6 => plain(0x07),
        KeyCode::Digit7 => plain(0x08),
        KeyCode::Digit8 => plain(0x09),
        KeyCode::Digit9 => plain(0x0a),
        KeyCode::Digit0 => plain(0x0b),
        KeyCode::Minus => plain(0x0c),
        KeyCode::Equal => plain(0x0d),
        KeyCode::Backspace => plain(0x0e),
        KeyCode::Tab => plain(0x0f),
        KeyCode::KeyQ => plain(0x10),
        KeyCode::KeyW => plain(0x11),
        KeyCode::KeyE => plain(0x12),
        KeyCode::KeyR => plain(0x13),
        KeyCode::KeyT => plain(0x14),
        KeyCode::KeyY => plain(0x15),
        KeyCode::KeyU => plain(0x16),
        KeyCode::KeyI => plain(0x17),
        KeyCode::KeyO => plain(0x18),
        KeyCode::KeyP => plain(0x19),
        KeyCode::BracketLeft => plain(0x1a),
        KeyCode::BracketRight => plain(0x1b),
        KeyCode::Enter => plain(0x1c),
        KeyCode::ControlLeft => plain(0x1d),
        KeyCode::KeyA => plain(0x1e),
        KeyCode::KeyS => plain(0x1f),
        KeyCode::KeyD => plain(0x20),
        KeyCode::KeyF => plain(0x21),
        KeyCode::KeyG => plain(0x22),
        KeyCode::KeyH => plain(0x23),
        KeyCode::KeyJ => plain(0x24),
        KeyCode::KeyK => plain(0x25),
        KeyCode::KeyL => plain(0x26),
        KeyCode::Semicolon => plain(0x27),
        KeyCode::Quote => plain(0x28),
        KeyCode::Backquote => plain(0x29),
        KeyCode::ShiftLeft => plain(0x2a),
        KeyCode::Backslash => plain(0x2b),
        KeyCode::KeyZ => plain(0x2c),
        KeyCode::KeyX => plain(0x2d),
        KeyCode::KeyC => plain(0x2e),
        KeyCode::KeyV => plain(0x2f),
        KeyCode::KeyB => plain(0x30),
        KeyCode::KeyN => plain(0x31),
        KeyCode::KeyM => plain(0x32),
        KeyCode::Comma => plain(0x33),
        KeyCode::Period => plain(0x34),
        KeyCode::Slash => plain(0x35),
        KeyCode::ShiftRight => plain(0x36),
        KeyCode::NumpadMultiply => plain(0x37),
        KeyCode::AltLeft => plain(0x38),
        KeyCode::Space => plain(0x39),
        KeyCode::CapsLock => plain(0x3a),
        KeyCode::F1 => plain(0x3b),
        KeyCode::F2 => plain(0x3c),
        KeyCode::F3 => plain(0x3d),
        KeyCode::F4 => plain(0x3e),
        KeyCode::F5 => plain(0x3f),
        KeyCode::F6 => plain(0x40),
        KeyCode::F7 => plain(0x41),
        KeyCode::F8 => plain(0x42),
        KeyCode::F9 => plain(0x43),
        KeyCode::F10 => plain(0x44),
        KeyCode::NumLock => plain(0x45),
        KeyCode::ScrollLock => plain(0x46),
        KeyCode::Numpad7 => plain(0x47),
        KeyCode::Numpad8 => plain(0x48),
        KeyCode::Numpad9 => plain(0x49),
        KeyCode::NumpadSubtract => plain(0x4a),
        KeyCode::Numpad4 => plain(0x4b),
        KeyCode::Numpad5 => plain(0x4c),
        KeyCode::Numpad6 => plain(0x4d),
        KeyCode::NumpadAdd => plain(0x4e),
        KeyCode::Numpad1 => plain(0x4f),
        KeyCode::Numpad2 => plain(0x50),
        KeyCode::Numpad3 => plain(0x51),
        KeyCode::Numpad0 => plain(0x52),
        KeyCode::NumpadDecimal => plain(0x53),
        KeyCode::F11 => plain(0x57),
        KeyCode::F12 => plain(0x58),
        KeyCode::NumpadEnter => extended(0x1c),
        KeyCode::ControlRight => extended(0x1d),
        KeyCode::NumpadDivide => extended(0x35),
        KeyCode::AltRight => extended(0x38),
        KeyCode::Home => extended(0x47),
        KeyCode::ArrowUp => extended(0x48),
        KeyCode::PageUp => extended(0x49),
        KeyCode::ArrowLeft => extended(0x4b),
        KeyCode::ArrowRight => extended(0x4d),
        KeyCode::End => extended(0x4f),
        KeyCode::ArrowDown => extended(0x50),
        KeyCode::PageDown => extended(0x51),
        KeyCode::Insert => extended(0x52),
        KeyCode::Delete => extended(0x53),
        KeyCode::SuperLeft => extended(0x5b),
        KeyCode::SuperRight => extended(0x5c),
        KeyCode::ContextMenu => extended(0x5d),
        KeyCode::Other => None,
    }
}

/// No two keys share a scancode: the guest can tell every key it is sent from every other.
pub proof fn law_positions_are_told_apart(a: KeyCode, b: KeyCode)
    requires
        key_of(a) is Some,
        key_of(b) is Some,
        key_of(a)->0.set1() == key_of(b)->0.set1(),
    ensures
        a == b,
{
    scancode::law_scancodes_are_distinct(key_of(a)->0, key_of(b)->0);
}

/// The positions of the original keyboard in the order in which set 1 numbers them: row by row from
/// the top left, then the function keys, the locks and the keypad.
pub open spec fn numbered_positions() -> Seq<KeyCode> {
    seq![
        KeyCode::Escape,
        KeyCode::Digit1,
        KeyCode::Digit2,
        KeyCode::Digit3,
        KeyCode::Digit4,
        KeyCode::Digit5,
        KeyCode::Digit6,
        KeyCode::Digit7,
        KeyCode::Digit8,
        KeyCode::Digit9,
        KeyCode::Digit0,
        KeyCode::Minus,
        KeyCode::Equal,
        KeyCode::Backspace,
        KeyCode::Tab,
        KeyCode::KeyQ,
        KeyCode::KeyW,
        KeyCode::KeyE,
        KeyCode::KeyR,
        KeyCode::KeyT,
        KeyCode::KeyY,
        KeyCode::KeyU,
        KeyCode::KeyI,
        KeyCode::KeyO,
        KeyCode::KeyP,
        KeyCode::BracketLeft,
        KeyCode::BracketRight,
        KeyCode::Enter,
        KeyCode::ControlLeft,
        KeyCode::KeyA,
        KeyCode::KeyS,
        KeyCode::KeyD,
        KeyCode::KeyF,
        KeyCode::KeyG,
        KeyCode::KeyH,
        KeyCode::KeyJ,
        KeyCode::KeyK,
        KeyCode::KeyL,
        KeyCode::Semicolon,
        KeyCode::Quote,
        KeyCode::Backquote,
        KeyCode::ShiftLeft,
        KeyCode::Backslash,
        KeyCode::KeyZ,
        KeyCode::KeyX,
        KeyCode::KeyC,
        KeyCode::KeyV,
        KeyCode::KeyB,
        KeyCode::KeyN,
        KeyCode::KeyM,
        KeyCode::Comma,
        KeyCode::Period,
        KeyCode::Slash,
        KeyCode::ShiftRight,
        KeyCode::NumpadMultiply,
        KeyCode::AltLeft,
        KeyCode::Space,
        KeyCode::CapsLock,
        KeyCode::F1,
        KeyCode::F2,
        KeyCode::F3,
        KeyCode::F4,
        KeyCode::F5,
        KeyCode::F6,
        KeyCode::F7,
        KeyCode::F8,
        KeyCode::F9,
        KeyCode::F10,
        KeyCode::NumLock,
        KeyCode::ScrollLock,
        KeyCode::Numpad7,
        KeyCode::Numpad8,
        KeyCode::Numpad9,
        KeyCode::NumpadSubtract,
        KeyCode::Numpad4,
        KeyCode::Numpad5,
        KeyCode::Numpad6,
        KeyCode::NumpadAdd,
        KeyCode::Numpad1,
        KeyCode::Numpad2,
        KeyCode::Numpad3,
        KeyCode::Numpad0,
        KeyCode::NumpadDecimal,
    ]
}

/// Set 1 numbers the positions of the original keyboard one after the other from 1 on, without a
/// prefix: the digits are 0x02 to 0x0b, the row from Q on is 0x10 and up, the row from A on 0x1e, the
/// row from Z on 0x2c, the function keys 0x3b and the keypad 0x47.
#[verifier::rlimit(60)]
pub proof fn law_positions_are_numbered_in_order(i: int, r: Option<Scancode>)
    requires
        0 <= i < numbered_positions().len(),
        call_ensures(keycode_to_scancode, (numbered_positions()[i],), r),
    ensures
        numbered_positions().len() == 83,
        r is Some,
        r->0.code == i + 1,
        !r->0.extended,
{
}

/// The position of the original keyboard that a later one doubles, if it does: the second Enter,
/// Control, Alt and slash, and the navigation keys that the keypad had first.
pub open spec fn doubled_position(code: KeyCode) -> Option<KeyCode> {
    match code {
        KeyCode::NumpadEnter => Some(KeyCode::Enter),
        KeyCode::ControlRight => Some(KeyCode::ControlLeft),
        KeyCode::NumpadDivide => Some(KeyCode::Slash),
        KeyCode::AltRight => Some(KeyCode::AltLeft),
        KeyCode::Home => Some(KeyCode::Numpad7),
        KeyCode::ArrowUp => Some(KeyCode::Numpad8),
        KeyCode::PageUp => Some(KeyCode::Numpad9),
        KeyCode::ArrowLeft => Some(KeyCode::Numpad4),
        KeyCode::ArrowRight => Some(KeyCode::Numpad6),
        KeyCode::End => Some(KeyCode::Numpad1),
        KeyCode::ArrowDown => Some(KeyCode::Numpad2),
        KeyCode::PageDown => Some(KeyCode::Numpad3),
        KeyCode::Insert => Some(KeyCode::Numpad0),
        KeyCode::Delete => Some(KeyCode::NumpadDecimal),
        _ => None,
    }
}

/// A position that doubles another has the other's code behind a prefix.
pub proof fn law_doubled_positions_share_a_code(
    code: KeyCode,
    r: Option<Scancode>,
    other: Option<Scancode>,
)
    requires
        doubled_position(code) is Some,
        call_ensures(keycode_to_scancode, (code,), r),
        call_ensures(keycode_to_scancode, (doubled_position(code)->0,), other),
    ensures
        r is Some && other is Some,
        r->0.extended,
        !other->0.extended,
        r->0.code == other->0.code,
{
}

/// The few keys that came later have codes of their own: `F11` and `F12` behind the keypad, and,
/// behind a prefix, the two logo keys and the menu key one after the other. A key that has no place
/// on the keyboard has no code, and every other one has.
#[verifier::rlimit(60)]
pub proof fn law_later_positions_have_their_codes(code: KeyCode, r: Option<Scancode>)
    requires
        call_ensures(keycode_to_scancode, (code,), r),
    ensures
        code == KeyCode::F11 ==> r == Some(Scancode { code: 0x57, extended: false }),
        code == KeyCode::F12 ==> r == Some(Scancode { code: 0x58, extended: false }),
        code == KeyCode::SuperLeft ==> r == Some(Scancode { code: 0x5b, extended: true }),
        code == KeyCode::SuperRight ==> r == Some(Scancode { code: 0x5c, extended: true }),
        code == KeyCode::ContextMenu ==> r == Some(Scancode { code: 0x5d, extended: true }),
        r is None <==> code == KeyCode::Other,
{
}

/// Whether a key or button went down or came up.
#[derive(Debug, Clone, Copy, PartialEq, Eq)]
pub enum ElementState {
    /// It went down.
    Pressed,
    /// It came up.
    Released,
}

impl ElementState {
    /// Whether it went down.
    pub fn is_pressed(self) -> (r: bool)
        ensures
            r == (self is Pressed),
    {
        match self {
            ElementState::Pressed => true,
            ElementState::Released => false,
        }
    }
}

/// Convert key state and scancode to protocol key flags.
pub fn key_flags(state: ElementState, extended: bool) -> (r: u8)
    ensures
        r == key_flag_bits(state is Pressed, extended),
{
    let mut flags: u8 = 0;
    if state.is_pressed() {
        flags = flags | key_flag::PRESSED;
    }
    if extended {
        flags = flags | key_flag::EXTENDED;
    }
    assert(0u8 | 1u8 == 1u8 && 0u8 | 2u8 == 2u8 && 1u8 | 2u8 == 3u8) by (bit_vector);
    flags
}

/// The protocol's flags for a key: one bit for a press, one for an E0 prefix.
pub open spec fn key_flag_bits(pressed: bool, extended: bool) -> u8 {
    ((if pressed {
        key_flag::PRESSED as int
    } else {
        0
    }) + (if extended {
        key_flag::EXTENDED as int
    } else {
        0
    })) as u8
}

/// A mouse button.
#[derive(Debug, Clone, Copy, PartialEq, Eq)]
pub enum MouseButton {
    /// The left button.
    Left,
    /// The right button.
    Right,
    /// The middle button, or the wheel pressed.
    Middle,
    /// The back button.
    Back,
    /// The forward button.
    Forward,
    /// Any other button.
    Other(u16),
}

/// The protocol's bit for a button; zero for the buttons it has none for.
pub open spec fn button_bit(button: MouseButton) -> u8 {
    match button {
        MouseButton::Left => pointer_button::LEFT,
        MouseButton::Right => pointer_button::RIGHT,
        MouseButton::Middle => pointer_button::MIDDLE,
        MouseButton::Back => pointer_button::X1,
        MouseButton::Forward => pointer_button::X2,
        MouseButton::Other(_) => 0,
    }
}

/// The held buttons after a button went down or came up.
pub open spec fn held_after(current: u8, button: MouseButton, pressed: bool) -> u8 {
    if pressed {
        current | button_bit(button)
    } else {
        current & !button_bit(button)
    }
}

/// Update protocol pointer button bitmask from one mouse button event.
pub fn update_buttons(current: u8, button: MouseButton, state: ElementState) -> (r: u8)
    ensures
        r == held_after(current, button, state is Pressed),
{
    let bit: u8 = match button {
        MouseButton::Left => pointer_button::LEFT,
        MouseButton::Right => pointer_button::RIGHT,
        MouseButton::Middle => pointer_button::MIDDLE,
        MouseButton::Back => pointer_button::X1,
        MouseButton::Forward => pointer_button::X2,
        MouseButton::Other(_) => 0,
    };
    if state.is_pressed() {
        current | bit
    } else {
        current & !bit
    }
}

/// A button event sets or clears the button's own bit and leaves every other button as it was.
pub proof fn law_buttons_are_held_apart(
    current: u8,
    button: MouseButton,
    pressed: bool,
    other: MouseButton,
)
    ensures
        pressed ==> held_after(current, button, pressed) & button_bit(button) == button_bit(button),
        !pressed ==> held_after(current, button, pressed) & button_bit(button) == 0,
        button_bit(other) != button_bit(button) ==> held_after(current, button, pressed)
            & button_bit(other) == current & button_bit(other),
{
    let b = button_bit(button);
    let o = button_bit(other);
    assert((current | b) & b == b && (current & !b) & b == 0) by (bit_vector);
    assert((b & o) == 0 ==> (current | b) & o == current & o && (current & !b) & o == current & o)
        by (bit_vector);
    if o != b {
        lemma_bits_are_disjoint(b, o);
    }
}

/// Two different buttons share no bit.
proof fn lemma_bits_are_disjoint(b: u8, o: u8)
    requires
        b == 0 || b == 1 || b == 2 || b == 4 || b == 8 || b == 16,
        o == 0 || o == 1 || o == 2 || o == 4 || o == 8 || o == 16,
        b != o,
    ensures
        b & o == 0,
{
    assert(b & o == 0) by (bit_vector)
        requires
            b == 0 || b == 1 || b == 2 || b == 4 || b == 8 || b == 16,
            o == 0 || o == 1 || o == 2 || o == 4 || o == 8 || o == 16,
            b != o,
    ;
}

/// Which modifier keys are held.
#[derive(Debug, Clone, Copy, PartialEq, Eq)]
pub struct ModifiersState {
    /// Shift.
    pub shift_key: bool,
    /// Control.
    pub control_key: bool,
    /// Alt.
    pub alt_key: bool,
    /// The logo key.
    pub super_key: bool,
}

/// The protocol's bits for the modifiers that are held.
pub open spec fn modifier_bits(state: ModifiersState) -> u16 {
    ((if state.shift_key {
        modifier::SHIFT as int
    } else {
        0
    }) + (if state.control_key {
        modifier::CTRL as int
    } else {
        0
    }) + (if state.alt_key {
        modifier::ALT as int
    } else {
        0
    }) + (if state.super_key {
        modifier::META as int
    } else {
        0
    })) as u16
}

/// Convert modifier state to protocol modifier bits.
pub fn modifiers(state: ModifiersState) -> (r: u16)
    ensures
        r == modifier_bits(state),
{
    let mut out: u16 = 0;
    if state.shift_key {
        out = out + modifier::SHIFT;
    }
    if state.control_key {
        out = out + modifier::CTRL;
    }
    if state.alt_key {
        out = out + modifier::ALT;
    }
    if state.super_key {
        out = out + modifier::META;
    }
    out
}

/// Lock-state reporting differs between windowing backends, so no locks are reported.
pub fn locks() -> (r: u8)
    ensures
        r & lock_state::CAPS == 0,
        r & lock_state::NUM == 0,
        r & lock_state::SCROLL == 0,
        r == 0,
{
    assert(forall|b: u8| 0u8 & b == 0u8) by (bit_vector);
    0
}

/// What happened to a native window, in plain values.
#[derive(Debug, Clone, PartialEq, Eq)]
pub enum WindowInput {
    /// The user asked to close it.
    CloseRequested,
    /// It has a new inner size, in physical pixels.
    Resized {
        /// New width.
        width: u32,
        /// New height.
        height: u32,
    },
    /// It has a new position.
    Moved {
        /// New X.
        x: i32,
        /// New Y.
        y: i32,
    },
    /// It gained or lost focus.
    Focused(bool),
    /// A key went down or came up.
    Key {
        /// Which one.
        code: KeyCode,
        /// Down or up.
        state: ElementState,
    },
    /// The held modifiers changed.
    ModifiersChanged(ModifiersState),
    /// The pointer moved, window-relative.
    CursorMoved {
        /// New X.
        x: i32,
        /// New Y.
        y: i32,
    },
    /// A button went down or came up.
    MouseInput {
        /// Which one.
        button: MouseButton,
        /// Down or up.
        state: ElementState,
    },
    /// The wheel turned, in protocol units.
    Wheel {
        /// Horizontally.
        wheel_x: i16,
        /// Vertically.
        wheel_y: i16,
    },
    /// An input method committed text.
    Text(String),
    /// It has to be drawn again.
    RedrawRequested,
}

/// What a [`WindowInput`] holds.
pub enum WindowInputView {
    /// See [`WindowInput::CloseRequested`].
    CloseRequested,
    /// See [`WindowInput::Resized`].
    Resized {
        /// New width.
        width: u32,
        /// New height.
        height: u32,
    },
    /// See [`WindowInput::Moved`].
    Moved {
        /// New X.
        x: i32,
        /// New Y.
        y: i32,
    },
    /// See [`WindowInput::Focused`].
    Focused(bool),
    /// See [`WindowInput::Key`].
    Key {
        /// Which one.
        code: KeyCode,
        /// Down or up.
        state: ElementState,
    },
    /// See [`WindowInput::ModifiersChanged`].
    ModifiersChanged(ModifiersState),
    /// See [`WindowInput::CursorMoved`].
    CursorMoved {
        /// New X.
        x: i32,
        /// New Y.
        y: i32,
    },
    /// See [`WindowInput::MouseInput`].
    MouseInput {
        /// Which one.
        button: MouseButton,
        /// Down or up.
        state: ElementState,
    },
    /// See [`WindowInput::Wheel`].
    Wheel {
        /// Horizontally.
        wheel_x: i16,
        /// Vertically.
        wheel_y: i16,
    },
    /// See [`WindowInput::Text`].
    Text(Seq<char>),
    /// See [`WindowInput::RedrawRequested`].
    RedrawRequested,
}

impl View for WindowInput {
    type V = WindowInputView;

    open spec fn view(&self) -> WindowInputView {
        match self {
            WindowInput::CloseRequested => WindowInputView::CloseRequested,
            WindowInput::Resized { width, height } => WindowInputView::Resized {
                width: *width,
                height: *height,
            },
            WindowInput::Moved { x, y } => WindowInputView::Moved { x: *x, y: *y },
            WindowInput::Focused(focused) => WindowInputView::Focused(*focused),
            WindowInput::Key { code, state } => WindowInputView::Key { code: *code, state: *state },
            WindowInput::ModifiersChanged(state) => WindowInputView::ModifiersChanged(*state),
            WindowInput::CursorMoved { x, y } => WindowInputView::CursorMoved { x: *x, y: *y },
            WindowInput::MouseInput { button, state } => WindowInputView::MouseInput {
                button: *button,
                state: *state,
            },
            WindowInput::Wheel { wheel_x, wheel_y } => WindowInputView::Wheel {
                wheel_x: *wheel_x,
                wheel_y: *wheel_y,
            },
            WindowInput::Text(text) => WindowInputView::Text(text@),
            WindowInput::RedrawRequested => WindowInputView::RedrawRequested,
        }
    }
}

/// What has to be done to the surface of a native window.
#[derive(Debug, Clone, Copy, PartialEq, Eq)]
pub enum SurfaceAction {
    /// Nothing.
    Keep,
    /// Give it another size.
    Resize {
        /// New width.
        width: u16,
        /// New height.
        height: u16,
    },
    /// Draw the last frame on it again.
    Refresh,
}

/// What is known of the pointer.
pub struct PointerView {
    /// Held buttons.
    pub buttons: u8,
    /// Where the pointer was last seen over each window.
    pub positions: Map<u32, (i32, i32)>,
}

/// A size as the protocol has it.
pub open spec fn clamped(n: u32) -> u16 {
    if n <= u16::MAX {
        n as u16
    } else {
        u16::MAX
    }
}

impl PointerView {
    /// Where the pointer was last seen over a window.
    pub open spec fn position(self, window_id: u32) -> (i32, i32) {
        if self.positions.contains_key(window_id) {
            self.positions[window_id]
        } else {
            (0, 0)
        }
    }

    /// The event for the pointer as it is, with some turn of the wheel.
    pub open spec fn event(self, window_id: u32, wheel_x: i16, wheel_y: i16) -> DisplayEventView {
        DisplayEventView::Pointer {
            window_id,
            x: self.position(window_id).0,
            y: self.position(window_id).1,
            buttons: self.buttons,
            wheel_x,
            wheel_y,
        }
    }

    /// What is known of the pointer after some input.
    pub open spec fn after(self, window_id: u32, input: WindowInputView) -> PointerView {
        match input {
            WindowInputView::CursorMoved { x, y } => PointerView {
                positions: self.positions.insert(window_id, (x, y)),
                ..self
            },
            WindowInputView::MouseInput { button, state } => PointerView {
                buttons: held_after(self.buttons, button, state is Pressed),
                ..self
            },
            _ => self,
        }
    }

    /// The events that some input to a window makes. Positions are reported on X11 only: Wayland
    /// does not tell a client where its windows are.
    pub open spec fn events(
        self,
        is_x11: bool,
        window_id: u32,
        input: WindowInputView,
    ) -> Seq<DisplayEventView> {
        match input {
            WindowInputView::CloseRequested => seq![DisplayEventView::CloseRequested { window_id }],
            WindowInputView::Resized { width, height } => seq![
                DisplayEventView::ResizeRequested {
                    window_id,
                    width: clamped(width),
                    height: clamped(height),
                },
            ],
            WindowInputView::Moved { x, y } => if is_x11 {
                seq![DisplayEventView::MoveRequested { window_id, x, y }]
            } else {
                Seq::empty()
            },
            WindowInputView::Focused(focused) => seq![
                DisplayEventView::Focused { window_id, focused },
                DisplayEventView::Modifiers { modifiers: 0, locks: 0 },
            ],
            WindowInputView::Key { code, state } => match key_of(code) {
                None => Seq::empty(),
                Some(key) => seq![
                    DisplayEventView::Key {
                        scancode: key.set1().code,
                        pressed: state is Pressed,
                        extended: key.set1().extended,
                    },
                ],
            },
            WindowInputView::ModifiersChanged(state) => seq![
                DisplayEventView::Modifiers { modifiers: modifier_bits(state), locks: 0 },
            ],
            WindowInputView::CursorMoved { .. } | WindowInputView::MouseInput { .. } => seq![
                self.after(window_id, input).event(window_id, 0, 0),
            ],
            WindowInputView::Wheel { wheel_x, wheel_y } => seq![
                self.event(window_id, wheel_x, wheel_y),
            ],
            WindowInputView::Text(text) => seq![DisplayEventView::Text { text }],
            WindowInputView::RedrawRequested => Seq::empty(),
        }
    }
}

/// What some input asks of the surface.
pub open spec fn surface_action(input: WindowInputView) -> SurfaceAction {
    match input {
        WindowInputView::Resized { width, height } => SurfaceAction::Resize {
            width: clamped(width),
            height: clamped(height),
        },
        WindowInputView::RedrawRequested => SurfaceAction::Refresh,
        _ => SurfaceAction::Keep,
    }
}

/// What some events hold.
pub open spec fn event_views(events: Seq<DisplayEvent>) -> Seq<DisplayEventView> {
    events.map_values(|event: DisplayEvent| event@)
}

/// The pointer over the native windows.
#[derive(Debug)]
pub struct Pointer {
    buttons: u8,
    positions: HashMap<u32, (i32, i32)>,
}

impl View for Pointer {
    type V = PointerView;

    closed spec fn view(&self) -> PointerView {
        PointerView { buttons: self.buttons, positions: self.positions@ }
    }
}

impl Default for Pointer {
    fn default() -> (r: Self)
        ensures
            r@ == (PointerView { buttons: 0, positions: Map::empty() }),
    {
        Pointer::new()
    }
}

impl Pointer {
    /// A pointer that has not been seen, with no button held.
    pub fn new() -> (r: Self)
        ensures
            r@ == (PointerView { buttons: 0, positions: Map::empty() }),
    {
        Pointer { buttons: 0, positions: HashMap::new() }
    }

    /// The event for the pointer as it is, with some turn of the wheel.
    fn event(&self, window_id: u32, wheel_x: i16, wheel_y: i16) -> (r: DisplayEvent)
        ensures
            r@ == self@.event(window_id, wheel_x, wheel_y),
    {
        broadcast use vstd::std_specs::hash::group_hash_axioms;

        let (x, y): (i32, i32) = match self.positions.get(&window_id) {
            Some(position) => *position,
            None => (0, 0),
        };
        DisplayEvent::Pointer { window_id, x, y, buttons: self.buttons, wheel_x, wheel_y }
    }

    /// Turns what happened to a native window into events for the session, and says what has to
    /// be done to its surface.
    pub fn handle_window_event(&mut self, is_x11: bool, window_id: u32, input: WindowInput) -> (r: (
        Vec<DisplayEvent>,
        SurfaceAction,
    ))
        ensures
            final(self)@ == old(self)@.after(window_id, input@),
            event_views(r.0@) == old(self)@.events(is_x11, window_id, input@),
            r.1 == surface_action(input@),
    {
        broadcast use vstd::std_specs::hash::group_hash_axioms;

        let ghost expected = self@.events(is_x11, window_id, input@);
        let mut events: Vec<DisplayEvent> = Vec::new();
        let mut action = SurfaceAction::Keep;
        match input {
            WindowInput::CloseRequested => {
                events.push(DisplayEvent::CloseRequested { window_id });
            },
            WindowInput::Resized { width, height } => {
                let width: u16 = if width <= u16::MAX as u32 { width as u16 } else { u16::MAX };
                let height: u16 = if height <= u16::MAX as u32 { height as u16 } else { u16::MAX };
                action = SurfaceAction::Resize { width, height };
                events.push(DisplayEvent::ResizeRequested { window_id, width, height });
            },
            WindowInput::Moved { x, y } => {
                if is_x11 {
                    events.push(DisplayEvent::MoveRequested { window_id, x, y });
                }
            },
            WindowInput::Focused(focused) => {
                events.push(DisplayEvent::Focused { window_id, focused });
                events.push(DisplayEvent::Modifiers { modifiers: 0, locks: locks() });
            },
            WindowInput::Key { code, state } => {
                if let Some(scancode) = keycode_to_scancode(code) {
                    events.push(
                        DisplayEvent::Key {
                            scancode: scancode.code,
                            pressed: state.is_pressed(),
                            extended: scancode.extended,
                        },
                    );
                }
            },
            WindowInput::ModifiersChanged(state) => {
                events.push(
                    DisplayEvent::Modifiers { modifiers: modifiers(state), locks: locks() },
                );
            },
            WindowInput::CursorMoved { x, y } => {
                self.positions.insert(window_id, (x, y));
                events.push(self.event(window_id, 0, 0));
            },
            WindowInput::MouseInput { button, state } => {
                self.buttons = update_buttons(self.buttons, button, state);
                events.push(self.event(window_id, 0, 0));
            },
            WindowInput::Wheel { wheel_x, wheel_y } => {
                events.push(self.event(window_id, wheel_x, wheel_y));
            },
            WindowInput::Text(text) => {
                events.push(DisplayEvent::Text { text });
            },
            WindowInput::RedrawRequested => {
                action = SurfaceAction::Refresh;
            },
        }
        assert(event_views(events@) =~= expected);
        (events, action)
    }
}

/// Losing or gaining focus resets the modifiers, so a key that came up elsewhere is not left
/// held in the guest.
pub proof fn law_focus_resets_modifiers(
    pointer: PointerView,
    is_x11: bool,
    window_id: u32,
    focused: bool,
)
    ensures
        pointer.events(is_x11, window_id, WindowInputView::Focused(focused)).last()
            == (DisplayEventView::Modifiers { modifiers: 0, locks: 0 }),
{
}

/// A press reports the pointer where it was last seen over the window, and the release that
/// follows brings the held buttons back to what they were, if the button was not held before.
pub proof fn law_a_click_leaves_no_button_held(
    pointer: PointerView,
    window_id: u32,
    button: MouseButton,
)
    requires
        pointer.buttons & button_bit(button) == 0,
    ensures
        pointer.after(
            window_id,
            WindowInputView::MouseInput { button, state: ElementState::Pressed },
        ).after(
            window_id,
            WindowInputView::MouseInput { button, state: ElementState::Released },
        ) == pointer,
{
    let b = button_bit(button);
    let c = pointer.buttons;
    assert(c & b == 0 ==> (c | b) & !b == c) by (bit_vector);
}

/// A key event carries the scancode of the key's position and whether the key went down, and a key
/// without a scancode makes no event. The pointer and the surface have no part in it.
pub proof fn law_key_events_carry_the_scancode(
    is_x11: bool,
    window_id: u32,
    code: KeyCode,
    state: ElementState,
    scancode: Option<Scancode>,
)
    requires
        call_ensures(keycode_to_scancode, (code,), scancode),
    ensures
        forall|p: &mut Pointer, r: (Vec<DisplayEvent>, SurfaceAction)| #[trigger]
            call_ensures(
                Pointer::handle_window_event,
                (p, is_x11, window_id, WindowInput::Key { code, state }),
                r,
            ) ==> {
                &&& r.0@.len() == (if scancode is Some { 1int } else { 0 })
                &&& scancode matches Some(s) ==> r.0@[0] == (DisplayEvent::Key {
                    scancode: s.code,
                    pressed: state == ElementState::Pressed,
                    extended: s.extended,
                })
                &&& r.1 == SurfaceAction::Keep
                &&& final(p)@ == (*p)@
            },
{
    assert forall|p: &mut Pointer, r: (Vec<DisplayEvent>, SurfaceAction)| #[trigger]
        call_ensures(
            Pointer::handle_window_event,
            (p, is_x11, window_id, WindowInput::Key { code, state }),
            r,
        ) implies {
        &&& r.0@.len() == (if scancode is Some { 1int } else { 0 })
        &&& scancode matches Some(s) ==> r.0@[0] == (DisplayEvent::Key {
            scancode: s.code,
            pressed: state == ElementState::Pressed,
            extended: s.extended,
        })
        &&& r.1 == SurfaceAction::Keep
        &&& final(p)@ == (*p)@
    } by {
        assert(event_views(r.0@).len() == r.0@.len());
        if scancode is Some {
            assert(event_views(r.0@)[0] == r.0@[0]@);
        }
    }
}

/// A pointer that moves over a window is reported there, with the buttons that were held and the
/// wheel at rest, and is remembered there; where it was over other windows is not forgotten.
pub proof fn law_pointer_moves_are_reported(is_x11: bool, window_id: u32, x: i32, y: i32, other: u32)
    requires
        other != window_id,
    ensures
        forall|p: &mut Pointer, r: (Vec<DisplayEvent>, SurfaceAction)| #[trigger]
            call_ensures(
                Pointer::handle_window_event,
                (p, is_x11, window_id, WindowInput::CursorMoved { x, y }),
                r,
            ) ==> {
                &&& r.0@ == seq![
                    DisplayEvent::Pointer {
                        window_id,
                        x,
                        y,
                        buttons: (*p)@.buttons,
                        wheel_x: 0,
                        wheel_y: 0,
                    },
                ]
                &&& final(p)@.buttons == (*p)@.buttons
                &&& final(p)@.position(window_id) == (x, y)
                &&& final(p)@.position(other) == (*p)@.position(other)
                &&& r.1 == SurfaceAction::Keep
            },
{
    assert forall|p: &mut Pointer, r: (Vec<DisplayEvent>, SurfaceAction)| #[trigger]
        call_ensures(
            Pointer::handle_window_event,
            (p, is_x11, window_id, WindowInput::CursorMoved { x, y }),
            r,
        ) implies r.0@ == seq![
        DisplayEvent::Pointer { window_id, x, y, buttons: (*p)@.buttons, wheel_x: 0, wheel_y: 0 },
    ] by {
        assert(event_views(r.0@).len() == r.0@.len());
        assert(event_views(r.0@)[0] == r.0@[0]@);
    }
}

/// What the held buttons are after a button went down or came up, by the protocol's own numbers:
/// left 1, right 2, middle 4, back 8, forward 16.
pub proof fn law_buttons_have_their_bits(
    current: u8,
    button: MouseButton,
    state: ElementState,
    r: u8,
)
    requires
        call_ensures(update_buttons, (current, button, state), r),
    ensures
        button == MouseButton::Left ==> r == (if state == ElementState::Pressed {
            current | 1u8
        } else {
            current & 0xfeu8
        }),
        button == MouseButton::Right ==> r == (if state == ElementState::Pressed {
            current | 2u8
        } else {
            current & 0xfdu8
        }),
        button == MouseButton::Middle ==> r == (if state == ElementState::Pressed {
            current | 4u8
        } else {
            current & 0xfbu8
        }),
        button == MouseButton::Back ==> r == (if state == ElementState::Pressed {
            current | 8u8
        } else {
            current & 0xf7u8
        }),
        button == MouseButton::Forward ==> r == (if state == ElementState::Pressed {
            current | 16u8
        } else {
            current & 0xefu8
        }),
        button is Other ==> r == current,
{
    assert(!1u8 == 0xfeu8 && !2u8 == 0xfdu8 && !4u8 == 0xfbu8 && !8u8 == 0xf7u8 && !16u8 == 0xefu8
        && current | 0u8 == current && current & !0u8 == current) by (bit_vector);
}

/// A button is reported where the pointer was last seen over the window, at the origin if nowhere,
/// with the buttons that are held now; a turn of the wheel is reported there too, with the buttons
/// as they were.
pub proof fn law_buttons_and_wheel_are_reported(
    is_x11: bool,
    window_id: u32,
    button: MouseButton,
    state: ElementState,
    held: u8,
    now_held: u8,
    wheel_x: i16,
    wheel_y: i16,
)
    requires
        call_ensures(update_buttons, (held, button, state), now_held),
    ensures
        forall|p: &mut Pointer, r: (Vec<DisplayEvent>, SurfaceAction)| #[trigger]
            call_ensures(
                Pointer::handle_window_event,
                (p, is_x11, window_id, WindowInput::MouseInput { button, state }),
                r,
            ) ==> {
                let at = if (*p)@.positions.contains_key(window_id) {
                    (*p)@.positions[window_id]
                } else {
                    (0i32, 0i32)
                };
                &&& r.0@ == seq![
                    DisplayEvent::Pointer {
                        window_id,
                        x: at.0,
                        y: at.1,
                        buttons: final(p)@.buttons,
                        wheel_x: 0,
                        wheel_y: 0,
                    },
                ]
                &&& (*p)@.buttons == held ==> final(p)@.buttons == now_held
                &&& final(p)@.positions == (*p)@.positions
                &&& r.1 == SurfaceAction::Keep
            },
        forall|p: &mut Pointer, r: (Vec<DisplayEvent>, SurfaceAction)| #[trigger]
            call_ensures(
                Pointer::handle_window_event,
                (p, is_x11, window_id, WindowInput::Wheel { wheel_x, wheel_y }),
                r,
            ) ==> {
                let at = if (*p)@.positions.contains_key(window_id) {
                    (*p)@.positions[window_id]
                } else {
                    (0i32, 0i32)
                };
                &&& r.0@ == seq![
                    DisplayEvent::Pointer {
                        window_id,
                        x: at.0,
                        y: at.1,
                        buttons: (*p)@.buttons,
                        wheel_x,
                        wheel_y,
                    },
                ]
                &&& final(p)@ == (*p)@
                &&& r.1 == SurfaceAction::Keep
            },
{
    assert forall|p: &mut Pointer, r: (Vec<DisplayEvent>, SurfaceAction)| #[trigger]
        call_ensures(
            Pointer::handle_window_event,
            (p, is_x11, window_id, WindowInput::MouseInput { button, state }),
            r,
        ) implies r.0@ == seq![
        DisplayEvent::Pointer {
            window_id,
            x: (*p)@.position(window_id).0,
            y: (*p)@.position(window_id).1,
            buttons: final(p)@.buttons,
            wheel_x: 0,
            wheel_y: 0,
        },
    ] by {
        assert(event_views(r.0@).len() == r.0@.len());
        assert(event_views(r.0@)[0] == r.0@[0]@);
    }
    assert forall|p: &mut Pointer, r: (Vec<DisplayEvent>, SurfaceAction)| #[trigger]
        call_ensures(
            Pointer::handle_window_event,
            (p, is_x11, window_id, WindowInput::Wheel { wheel_x, wheel_y }),
            r,
        ) implies r.0@ == seq![
        DisplayEvent::Pointer {
            window_id,
            x: (*p)@.position(window_id).0,
            y: (*p)@.position(window_id).1,
            buttons: (*p)@.buttons,
            wheel_x,
            wheel_y,
        },
    ] by {
        assert(event_views(r.0@).len() == r.0@.len());
        assert(event_views(r.0@)[0] == r.0@[0]@);
    }
}

/// The held modifiers by the protocol's own numbers: shift 1, control 2, alt 4, the logo key 8, each
/// counted exactly when it is held. A key's flags: 1 for a press, 2 for a prefix.
pub proof fn law_modifiers_and_flags_have_their_bits(
    held: ModifiersState,
    bits: u16,
    state: ElementState,
    extended: bool,
    flags: u8,
)
    requires
        call_ensures(modifiers, (held,), bits),
        call_ensures(key_flags, (state, extended), flags),
    ensures
        bits % 2 == (if held.shift_key { 1int } else { 0 }),
        (bits / 2) % 2 == (if held.control_key { 1int } else { 0 }),
        (bits / 4) % 2 == (if held.alt_key { 1int } else { 0 }),
        (bits / 8) % 2 == (if held.super_key { 1int } else { 0 }),
        bits < 16,
        flags % 2 == (if state == ElementState::Pressed { 1int } else { 0 }),
        flags / 2 == (if extended { 1int } else { 0 }),
{
}

/// What the other inputs of a native window become: each is reported with its own window and its own
/// values, a size that the protocol cannot hold as the largest it can, a position on X11 only, a
/// change of focus with the modifiers reset behind it. Only a size and a need to be drawn concern the
/// surface, and none of them moves the pointer.
pub proof fn law_window_inputs_become_events(
    is_x11: bool,
    window_id: u32,
    input: WindowInput,
    bits: u16,
)
    requires
        input is CloseRequested || input is Resized || input is Moved || input is Focused
            || input is ModifiersChanged || input is Text || input is RedrawRequested,
        input matches WindowInput::ModifiersChanged(held) ==> call_ensures(
            modifiers,
            (held,),
            bits,
        ),
    ensures
        forall|p: &mut Pointer, r: (Vec<DisplayEvent>, SurfaceAction)| #[trigger]
            call_ensures(Pointer::handle_window_event, (p, is_x11, window_id, input), r) ==> {
                &&& final(p)@ == (*p)@
                &&& !(input is Resized) && !(input is RedrawRequested) ==> r.1
                    == SurfaceAction::Keep
                &&& match input {
                    WindowInput::CloseRequested => r.0@ == seq![
                        DisplayEvent::CloseRequested { window_id },
                    ],
                    WindowInput::Resized { width, height } => {
                        let w = if width < 65535 { width as u16 } else { 65535u16 };
                        let h = if height < 65535 { height as u16 } else { 65535u16 };
                        &&& r.0@ == seq![
                            DisplayEvent::ResizeRequested { window_id, width: w, height: h },
                        ]
                        &&& r.1 == (SurfaceAction::Resize { width: w, height: h })
                    },
                    WindowInput::Moved { x, y } => r.0@ == (if is_x11 {
                        seq![DisplayEvent::MoveRequested { window_id, x, y }]
                    } else {
                        Seq::empty()
                    }),
                    WindowInput::Focused(focused) => r.0@ == seq![
                        DisplayEvent::Focused { window_id, focused },
                        DisplayEvent::Modifiers { modifiers: 0, locks: 0 },
                    ],
                    WindowInput::ModifiersChanged(_) => r.0@ == seq![
                        DisplayEvent::Modifiers { modifiers: bits, locks: 0 },
                    ],
                    WindowInput::Text(text) => {
                        &&& r.0@.len() == 1
                        &&& r.0@[0] matches DisplayEvent::Text { text: sent }
                        &&& sent@ == text@
                    },
                    _ => r.0@.len() == 0 && r.1 == SurfaceAction::Refresh,
                }
            },
{
    assert forall|p: &mut Pointer, r: (Vec<DisplayEvent>, SurfaceAction)| #[trigger]
        call_ensures(
            Pointer::handle_window_event,
            (p, is_x11, window_id, input),
            r,
        ) implies event_views(r.0@).len() == r.0@.len() && (r.0@.len() > 0 ==> event_views(r.0@)[0]
        == r.0@[0]@) && (r.0@.len() > 1 ==> event_views(r.0@)[1] == r.0@[1]@) by {}
    assert forall|p: &mut Pointer, r: (Vec<DisplayEvent>, SurfaceAction)| #[trigger]
        call_ensures(Pointer::handle_window_event, (p, is_x11, window_id, input), r) implies {
        match input {
            WindowInput::Focused(focused) => r.0@ == seq![
                DisplayEvent::Focused { window_id, focused },
                DisplayEvent::Modifiers { modifiers: 0, locks: 0 },
            ],
            WindowInput::Moved { x, y } => r.0@ == (if is_x11 {
                seq![DisplayEvent::MoveRequested { window_id, x, y }]
            } else {
                Seq::empty()
            }),
            _ => true,
        }
    } by {}
}

} // verus!
