//! What an H.264 stream waits for, and what is said about it.

use oxrdp::client::decode::h264::{Gate, Note, Picture};
use oxrdp::client::decode::DecodeError;
use oxrdp::proto::message::window::frame_flag;
use oxrdp::proto::message::{codec, FrameData};

fn frame(frame_id: u64, flags: u8, data: Vec<u8>) -> FrameData {
    FrameData {
        window_id: 7,
        frame_id,
        codec: codec::H264,
        flags,
        width: 2,
        height: 2,
        captured_us: 1,
        encoded_us: 2,
        data,
    }
}

/// A parameter set and an IDR slice.
fn keyframe(frame_id: u64) -> FrameData {
    frame(
        frame_id,
        frame_flag::KEYFRAME,
        vec![0, 0, 0, 1, 0x67, 66, 0x40, 31, 0, 0, 0, 1, 0x65, 0x88],
    )
}

fn delta(frame_id: u64) -> FrameData {
    frame(frame_id, 0, vec![0, 0, 0, 1, 0x41, 0x9a])
}

fn grey(width: usize, height: usize) -> Picture {
    Picture {
        y: vec![126; width * height],
        u: vec![128; width.div_ceil(2) * height.div_ceil(2)],
        v: vec![128; width.div_ceil(2) * height.div_ceil(2)],
        width,
        height,
        y_stride: width,
        u_stride: width.div_ceil(2),
        v_stride: width.div_ceil(2),
    }
}

#[test]
fn a_stream_starts_at_a_keyframe_and_says_what_it_cost() {
    let mut gate = Gate::new();
    let mut notes = Vec::new();
    assert!(!gate.pass(&delta(1), &mut notes));
    assert!(!gate.pass(&delta(2), &mut notes));
    assert!(notes.is_empty());
    assert!(gate.pass(&keyframe(3), &mut notes));
    match notes.as_slice() {
        [Note::Resynchronised {
            window_id: 7,
            frame_id: 3,
            discarded: 2,
        }, Note::Profile {
            window_id: 7,
            profile,
        }] => {
            assert_eq!(profile.name(), "Constrained Baseline");
        }
        other => panic!("unexpected notes: {other:?}"),
    }
    // Said once.
    notes.clear();
    assert!(gate.pass(&keyframe(4), &mut notes));
    assert!(gate.pass(&delta(5), &mut notes));
    assert!(notes.is_empty());
}

#[test]
fn a_picture_is_labelled_with_its_frame() {
    let mut gate = Gate::new();
    let mut notes = Vec::new();
    assert!(gate.pass(&keyframe(1), &mut notes));
    let out = gate
        .settle(keyframe(1), Ok(Some(grey(3, 1))), &mut notes)
        .expect("settles")
        .expect("a picture");
    assert_eq!((out.window_id, out.frame_id), (7, 1));
    assert_eq!((out.captured_us, out.encoded_us), (1, 2));
    assert_eq!((out.width, out.height), (3, 1), "the picture's own size");
    assert_eq!(out.codec, codec::RAW_BGRA);
    // (298 * (126 - 16) + 128) >> 8, in every channel.
    assert_eq!(out.data, [128, 128, 128, 255].repeat(3));
    assert_eq!(gate.settle(keyframe(2), Ok(None), &mut notes), Ok(None));
    assert!(!gate.awaiting_keyframe);
}

#[test]
fn a_refused_frame_is_described_and_the_stream_waits() {
    let mut gate = Gate::new();
    let mut notes = Vec::new();
    assert!(gate.pass(&keyframe(1), &mut notes));
    notes.clear();
    // Parameter sets on a frame that is not a keyframe, around a slice that nothing refers to.
    let odd = frame(2, 0, vec![0, 0, 0, 1, 0x67, 0x42, 0, 0, 0, 1, 0x01, 0x9a]);
    assert_eq!(
        gate.settle(odd.clone(), Err("no".to_string()), &mut notes),
        Err(DecodeError::Bitstream("no".to_string()))
    );
    assert!(gate.awaiting_keyframe);
    assert_eq!(
        notes,
        vec![
            Note::Rejected {
                window_id: 7,
                frame_id: 2,
                bytes: 12,
                keyframe: false,
                contents: "SPS/3(2) slice/0(2)".to_string(),
            },
            Note::ParameterSets {
                window_id: 7,
                frame_id: 2,
                contents: "SPS/3(2) slice/0(2)".to_string(),
            },
            Note::NonReference {
                window_id: 7,
                frame_id: 2,
            }
        ]
    );
    // The parameter sets are mentioned once per decoder.
    notes.clear();
    gate.awaiting_keyframe = false;
    assert!(gate
        .settle(odd, Err("no".to_string()), &mut notes)
        .is_err());
    assert_eq!(notes.len(), 2);
}

#[test]
fn a_picture_that_cannot_be_is_refused() {
    let mut gate = Gate::new();
    let mut notes = Vec::new();
    assert!(gate.pass(&keyframe(1), &mut notes));
    assert_eq!(
        gate.settle(keyframe(1), Ok(Some(grey(0, 4))), &mut notes),
        Err(DecodeError::Geometry {
            width: 0,
            height: 4
        })
    );
    let mut short = grey(4, 4);
    short.y.pop();
    assert_eq!(
        gate.settle(keyframe(2), Ok(Some(short)), &mut notes),
        Err(DecodeError::Bitstream(
            "decoded picture is smaller than its declared geometry".to_string()
        ))
    );
}
