//! TPKT framing.

use oxrdp::rdp::tpkt::{frame_length, take_frame, TpktError};

#[test]
fn round_trips_a_frame() {
    let frame = vec![0x03, 0x00, 0x00, 0x09, 0x02, 0xF0, 0x80, 0xAA, 0xBB];
    let mut wire = frame.clone();
    let got = take_frame(&mut wire).unwrap().unwrap();
    assert_eq!(got, frame);
    assert!(wire.is_empty());
}

#[test]
fn reads_exact_length() {
    // two frames back-to-back; take_frame must return only the first.
    let f1 = vec![0x03, 0x00, 0x00, 0x07, 0x02, 0xF0, 0x80];
    let f2 = vec![0x03, 0x00, 0x00, 0x08, 0x02, 0xF0, 0x80, 0x11];
    let mut wire = [f1.clone(), f2.clone()].concat();
    assert_eq!(take_frame(&mut wire).unwrap(), Some(f1));
    assert_eq!(take_frame(&mut wire).unwrap(), Some(f2));
    assert_eq!(take_frame(&mut wire).unwrap(), None);
}

#[test]
fn rejects_bad_tpkt() {
    let mut wire = vec![0x09, 0x00, 0x00, 0x04]; // version != 3
    assert!(take_frame(&mut wire).is_err());
}

#[test]
fn a_partial_frame_is_left_where_it_is() {
    let mut wire = vec![0x03, 0x00, 0x00];
    assert_eq!(take_frame(&mut wire), Ok(None));
    wire.push(0x06);
    assert_eq!(frame_length(&wire), Ok(Some(6)));
    assert_eq!(take_frame(&mut wire), Ok(None));
    assert_eq!(wire, vec![0x03, 0x00, 0x00, 0x06]);
    wire.extend_from_slice(&[1, 2]);
    assert_eq!(
        take_frame(&mut wire),
        Ok(Some(vec![0x03, 0x00, 0x00, 0x06, 1, 2]))
    );
}

#[test]
fn errors_say_what_is_wrong() {
    assert_eq!(frame_length(&[9, 0, 0, 4]), Err(TpktError::Version(9)));
    assert_eq!(frame_length(&[3, 0, 0, 3]), Err(TpktError::Length(3)));
    assert_eq!(frame_length(&[3, 0, 1, 2]), Ok(Some(258)));
}
