//! Choosing and routing decoders.

use oxrdp::client::decode::{
    checked_geometry, codecs_with, new_decoder, preferred_codecs, supports_codec, DecodeError,
    Decoder, PassthroughDecoder, WindowDecoders, MAX_DECODED_PIXELS,
};
use oxrdp::proto::message::window::frame_flag;
use oxrdp::proto::message::{codec, FrameData};

fn bgra_frame(window_id: u32, width: u16, height: u16) -> FrameData {
    FrameData {
        window_id,
        frame_id: 1,
        codec: codec::RAW_BGRA,
        flags: frame_flag::KEYFRAME,
        width,
        height,
        captured_us: 10,
        encoded_us: 20,
        data: vec![0x7f; usize::from(width) * usize::from(height) * 4],
    }
}

#[test]
fn passthrough_returns_the_frame_untouched() {
    let frame = bgra_frame(1, 4, 2);
    let expected = frame.clone();

    let decoded = PassthroughDecoder::new()
        .decode(frame)
        .expect("a well-formed RAW_BGRA frame decodes")
        .expect("and yields a picture");

    assert_eq!(decoded, expected);
}

#[test]
fn passthrough_rejects_a_payload_that_does_not_match_the_geometry() {
    let mut frame = bgra_frame(1, 4, 2);
    frame.data.truncate(7);

    let error = PassthroughDecoder::new()
        .decode(frame)
        .expect_err("a short payload is rejected");

    assert_eq!(
        error,
        DecodeError::PayloadLength {
            expected: 32,
            actual: 7
        }
    );
}

#[test]
fn passthrough_rejects_empty_geometry() {
    let mut frame = bgra_frame(1, 4, 2);
    frame.width = 0;
    frame.data.clear();

    assert_eq!(
        PassthroughDecoder::new().decode(frame),
        Err(DecodeError::Geometry {
            width: 0,
            height: 2
        })
    );
}

#[test]
fn geometry_is_bounded_before_anything_is_allocated() {
    assert!(checked_geometry(MAX_DECODED_PIXELS + 1, 1).is_err());
    assert!(checked_geometry(usize::MAX, usize::MAX).is_err());
    assert_eq!(checked_geometry(1920, 1080), Ok((1920, 1080)));
}

#[test]
fn raw_bgra_is_always_advertised_and_supported() {
    let codecs = preferred_codecs();
    assert!(codecs.contains(&codec::RAW_BGRA));
    assert!(supports_codec(codec::RAW_BGRA));
    assert!(!supports_codec(codec::H265));
    assert!(!supports_codec(0));
}

#[test]
fn h264_leads_the_preference_list_when_it_is_compiled_in() {
    assert_eq!(preferred_codecs(), vec![codec::H264, codec::RAW_BGRA]);
    assert!(supports_codec(codec::H264));
}

#[test]
fn only_raw_bgra_is_advertised_without_the_h264_feature() {
    assert_eq!(codecs_with(false), vec![codec::RAW_BGRA]);
    assert!(!codecs_with(false).contains(&codec::H264));
}

#[test]
fn unknown_codecs_have_no_decoder() {
    assert_eq!(new_decoder(0).err(), Some(DecodeError::UnsupportedCodec(0)));
    assert_eq!(
        new_decoder(codec::AV1).err(),
        Some(DecodeError::UnsupportedCodec(codec::AV1))
    );
}

#[test]
fn window_decoders_keep_one_decoder_per_window() {
    let mut decoders = WindowDecoders::new();

    decoders.decode(bgra_frame(1, 2, 2)).expect("window 1");
    decoders.decode(bgra_frame(2, 2, 2)).expect("window 2");
    assert_eq!(decoders.len(), 2);

    decoders.forget(1);
    assert_eq!(decoders.len(), 1);
    assert!(decoders.contains(2));
}

#[test]
fn window_decoders_rebuild_when_a_window_changes_codec() {
    let mut decoders = WindowDecoders::new();
    decoders.decode(bgra_frame(1, 2, 2)).expect("first codec");

    let mut switched = bgra_frame(1, 2, 2);
    switched.codec = codec::H265;
    let error = decoders
        .decode(switched)
        .expect_err("an unsupported codec has no decoder");

    assert_eq!(error, DecodeError::UnsupportedCodec(codec::H265));
}

#[test]
fn a_bad_frame_does_not_disturb_other_windows() {
    let mut decoders = WindowDecoders::new();
    decoders.decode(bgra_frame(1, 2, 2)).expect("window 1");

    let mut broken = bgra_frame(2, 2, 2);
    broken.data.clear();
    assert!(decoders.decode(broken).is_err());

    // Window 1 still decodes, and window 2 recovers on its next good frame.
    assert!(decoders.decode(bgra_frame(1, 2, 2)).is_ok());
    assert!(decoders.decode(bgra_frame(2, 2, 2)).is_ok());
}
