//! Set 1 scancodes.

use oxrdp::proto::scancode::{all_keys, Key, Scancode};

/// Equality helper spelling out both fields for readability in the anchor table.
fn sc(code: u16, extended: bool) -> Scancode {
    Scancode { code, extended }
}

#[test]
fn non_extended_anchors() {
    assert_eq!(Key::Escape.scancode(), sc(0x01, false));
    assert_eq!(Key::Digit1.scancode(), sc(0x02, false));
    assert_eq!(Key::Q.scancode(), sc(0x10, false));
    assert_eq!(Key::A.scancode(), sc(0x1E, false));
    assert_eq!(Key::Z.scancode(), sc(0x2C, false));
    assert_eq!(Key::Space.scancode(), sc(0x39, false));
    assert_eq!(Key::Enter.scancode(), sc(0x1C, false));
    assert_eq!(Key::LeftShift.scancode(), sc(0x2A, false));
    assert_eq!(Key::LeftControl.scancode(), sc(0x1D, false));
    assert_eq!(Key::LeftAlt.scancode(), sc(0x38, false));
    assert_eq!(Key::F1.scancode(), sc(0x3B, false));
    assert_eq!(Key::F12.scancode(), sc(0x58, false));
    assert_eq!(Key::NumLock.scancode(), sc(0x45, false));
    assert_eq!(Key::Numpad7.scancode(), sc(0x47, false));
}

#[test]
fn extended_anchors() {
    assert_eq!(Key::RightControl.scancode(), sc(0x1D, true));
    assert_eq!(Key::RightAlt.scancode(), sc(0x38, true));
    assert_eq!(Key::ArrowUp.scancode(), sc(0x48, true));
    assert_eq!(Key::ArrowLeft.scancode(), sc(0x4B, true));
    assert_eq!(Key::ArrowRight.scancode(), sc(0x4D, true));
    assert_eq!(Key::ArrowDown.scancode(), sc(0x50, true));
    assert_eq!(Key::Home.scancode(), sc(0x47, true));
    assert_eq!(Key::End.scancode(), sc(0x4F, true));
    assert_eq!(Key::Insert.scancode(), sc(0x52, true));
    assert_eq!(Key::Delete.scancode(), sc(0x53, true));
    assert_eq!(Key::PageUp.scancode(), sc(0x49, true));
    assert_eq!(Key::PageDown.scancode(), sc(0x51, true));
    assert_eq!(Key::NumpadEnter.scancode(), sc(0x1C, true));
    assert_eq!(Key::NumpadDivide.scancode(), sc(0x35, true));
    assert_eq!(Key::LeftMeta.scancode(), sc(0x5B, true));
    assert_eq!(Key::RightMeta.scancode(), sc(0x5C, true));
    assert_eq!(Key::Menu.scancode(), sc(0x5D, true));
}

#[test]
fn round_trip_exhaustive() {
    for k in all_keys() {
        let s = k.scancode();
        assert_eq!(Key::from_scancode(s.code, s.extended), Some(k));
    }
}

#[test]
fn unassigned_codes_are_none() {
    assert_eq!(Key::from_scancode(0x00, false), None);
    assert_eq!(Key::from_scancode(0xF0, false), None);
}

#[test]
fn extended_disambiguates_same_byte() {
    assert_eq!(Key::from_scancode(0x1D, false), Some(Key::LeftControl));
    assert_eq!(Key::from_scancode(0x1D, true), Some(Key::RightControl));
    assert_ne!(
        Key::from_scancode(0x1D, false),
        Key::from_scancode(0x1D, true)
    );
}
