//! Reading the NAL layout of an Annex B payload.

use oxrdp::client::decode::annexb::{
    contains_idr, describe, has_parameter_sets, slices_are_non_reference, stream_profile, units,
};

#[test]
fn finds_an_idr_slice_after_either_start_code() {
    assert!(contains_idr(&[0, 0, 1, 0x65, 0x88, 0x84]));
    assert!(contains_idr(&[0, 0, 0, 1, 0x65, 0x88, 0x84]));
}

#[test]
fn finds_the_idr_in_a_keyframe_access_unit() {
    // The layout the wire format mandates for a keyframe: SPS, then PPS, then the slice.
    let access_unit = [
        0, 0, 0, 1, 0x67, 0x42, 0x00, 0x1e, // SPS
        0, 0, 0, 1, 0x68, 0xce, 0x3c, 0x80, // PPS
        0, 0, 0, 1, 0x65, 0x88, 0x84, // IDR slice
    ];
    assert!(contains_idr(&access_unit));
}

#[test]
fn annexb_skips_nal_types_it_has_no_use_for() {
    // The full keyframe layout the wire format mandates: an access unit delimiter first if
    // present, then SEI, then the parameter sets, then the slice, then anything else.
    let access_unit = [
        0, 0, 0, 1, 0x09, 0x10, // AUD
        0, 0, 0, 1, 0x06, 0x05, 0x01, 0x00, // SEI
        0, 0, 0, 1, 0x67, 0x42, 0x00, 0x1e, // SPS
        0, 0, 0, 1, 0x68, 0xce, 0x3c, 0x80, // PPS
        0, 0, 0, 1, 0x65, 0x88, // IDR slice
        0, 0, 0, 1, 0x0c, 0xff, 0x80, // filler
    ];
    assert!(contains_idr(&access_unit));
}

#[test]
fn finds_an_idr_wherever_it_sits() {
    // The wire format pins the order, but the scan does not depend on it: a decoder that only accepts
    // the layout it expects turns an encoder's ordering bug into a window that never
    // starts, which is a worse failure than tolerating the bug.
    let out_of_order = [
        0, 0, 0, 1, 0x0c, 0xff, 0x80, // filler ahead of everything
        0, 0, 0, 1, 0x65, 0x88, // IDR slice
        0, 0, 0, 1, 0x67, 0x42, 0x00, 0x1e, // SPS after the slice
    ];
    assert!(contains_idr(&out_of_order));
}

#[test]
fn rejects_a_payload_with_no_idr_slice() {
    // A non-IDR slice (type 1) cannot start a decode...
    assert!(!contains_idr(&[0, 0, 0, 1, 0x41, 0x9a, 0x00]));
    // ...and neither can parameter sets on their own: they belong in the same access
    // unit as the IDR, so a payload holding only these is not a picture to start from.
    let parameter_sets = [
        0, 0, 0, 1, 0x67, 0x42, 0x00, 0x1e, // SPS
        0, 0, 0, 1, 0x68, 0xce, 0x3c, 0x80, // PPS
    ];
    assert!(!contains_idr(&parameter_sets));
}

#[test]
fn units_report_each_nal_type_and_length() {
    // A keyframe in the mandated layout. Lengths are the NAL unit itself: header byte
    // included, start code excluded. Getting that wrong by the three or four bytes of the
    // next start code is the obvious way for this to be quietly useless.
    let access_unit = [
        0, 0, 0, 1, 0x67, 0x42, 0x00, 0x1e, // SPS, 4 bytes
        0, 0, 0, 1, 0x68, 0xce, 0x3c, // PPS, 3 bytes
        0, 0, 1, 0x65, 0x88, 0x84, 0x21, 0x11, // IDR, 5 bytes, short start code
    ];

    let found: Vec<(u8, u8, usize)> = units(&access_unit)
        .into_iter()
        .map(|unit| (unit.nal_type, unit.ref_idc, unit.len))
        .collect();
    // `nal_ref_idc` is the two bits above the type: 0x67 and 0x68 carry 3, 0x65 carries 3.
    assert_eq!(found, vec![(7, 3, 4), (8, 3, 3), (5, 3, 5)]);
}

#[test]
fn a_disposable_picture_is_recognised_as_one() {
    // The shape captured off the guest: an access unit delimiter and a single non-IDR slice,
    // both with nal_ref_idc = 0. Nothing refers to this picture.
    let disposable = [
        0, 0, 0, 1, 0x09, 0x30, // AUD, ref_idc 0
        0, 0, 0, 1, 0x01, 0x9a, 0x00, // non-IDR slice, ref_idc 0
    ];
    assert_eq!(slices_are_non_reference(&disposable), Some(true));
    assert_eq!(describe(&disposable), "AUD/0(2) slice/0(3)");

    // A slice that others predict from is not disposable.
    let reference = [0, 0, 0, 1, 0x41, 0x9a, 0x00];
    assert_eq!(slices_are_non_reference(&reference), Some(false));

    // Parameter sets alone contain no slice to judge.
    assert_eq!(slices_are_non_reference(&[0, 0, 0, 1, 0x67, 0x42]), None);
}

#[test]
fn the_stream_profile_is_read_from_the_sps() {
    // profile_idc 66, constraint_set1 set, level 3.1 — Constrained Baseline.
    let constrained = [0, 0, 0, 1, 0x67, 66, 0b0100_0000, 31, 0x8d];
    let profile = stream_profile(&constrained).expect("an SPS is present");
    assert_eq!(profile.profile_idc, 66);
    assert_eq!(profile.level_idc, 31);
    assert_eq!(profile.level(), "3.1");
    assert!(profile.is_constrained_baseline());
    assert_eq!(profile.name(), "Constrained Baseline");

    // The same profile without constraint_set1 is plain Baseline, which openh264 does not
    // fully implement — the distinction is the whole point of reading this byte.
    let baseline = [0, 0, 0, 1, 0x67, 66, 0x00, 31, 0x8d];
    let profile = stream_profile(&baseline).expect("an SPS is present");
    assert!(!profile.is_constrained_baseline());
    assert_eq!(profile.name(), "Baseline");

    // High profile, level 4.0.
    let high = [0, 0, 0, 1, 0x67, 100, 0x00, 40, 0x8d];
    let profile = stream_profile(&high).expect("an SPS is present");
    assert_eq!(profile.name(), "High");
    assert_eq!(profile.level(), "4.0");
    assert!(!profile.is_constrained_baseline());
}

#[test]
fn a_payload_with_no_sps_has_no_profile_to_report() {
    // A delta frame carries no parameter sets, so there is nothing to read and nothing to
    // guess at.
    assert_eq!(stream_profile(&[0, 0, 0, 1, 0x41, 0x9a, 0x00]), None);
    assert_eq!(stream_profile(&[]), None);
    // An SPS truncated before its three fixed bytes must not be read past its end.
    assert_eq!(stream_profile(&[0, 0, 0, 1, 0x67, 66]), None);
}

#[test]
fn describe_names_the_units_in_order() {
    let access_unit = [
        0, 0, 0, 1, 0x09, 0x10, // AUD
        0, 0, 0, 1, 0x67, 0x42, 0x00, 0x1e, // SPS
        0, 0, 0, 1, 0x68, 0xce, 0x3c, // PPS
        0, 0, 0, 1, 0x65, 0x88, 0x84, // IDR
    ];

    // `type/ref_idc(bytes)`: an access unit delimiter is never a reference, the parameter
    // sets and the IDR carry nal_ref_idc 3.
    assert_eq!(
        describe(&access_unit),
        "AUD/0(2) SPS/3(4) PPS/3(3) IDR/3(3)"
    );
}

#[test]
fn describe_says_so_when_there_is_nothing_to_describe() {
    // A payload with no start codes at all is itself the finding.
    assert_eq!(
        describe(&[0xde, 0xad, 0xbe, 0xef]),
        "no NAL units in 4 bytes"
    );
    assert_eq!(describe(&[]), "no NAL units in 0 bytes");
}

#[test]
fn describe_names_unknown_types_rather_than_hiding_them() {
    assert_eq!(describe(&[0, 0, 0, 1, 0x18, 0x00]), "type-24/0(2)");
}

#[test]
fn parameter_sets_are_detected_for_the_rule_that_forbids_them() {
    // These are allowed only on a keyframe, so this is what makes an encoder that repeats
    // them on a delta frame visible rather than merely suspected.
    let with_sps = [0, 0, 0, 1, 0x67, 0x42, 0, 0, 0, 1, 0x41, 0x9a];
    let with_pps = [0, 0, 0, 1, 0x68, 0xce, 0, 0, 0, 1, 0x41, 0x9a];
    let delta_only = [0, 0, 0, 1, 0x41, 0x9a, 0x00];

    assert!(has_parameter_sets(&with_sps));
    assert!(has_parameter_sets(&with_pps));
    assert!(!has_parameter_sets(&delta_only));
}

#[test]
fn rejects_a_header_with_the_forbidden_bit_set() {
    assert!(!contains_idr(&[0, 0, 0, 1, 0xe5, 0x88]));
}

#[test]
fn rejects_truncated_and_empty_payloads() {
    assert!(!contains_idr(&[]));
    assert!(!contains_idr(&[0, 0, 1]));
    assert!(!contains_idr(&[0x65, 0x88, 0x84]));
}
