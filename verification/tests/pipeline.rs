//! One window's decode worker.

use oxrdp::client::clock::ClientClock;
use oxrdp::client::decode::pipeline::{
    report, DecoderFactory, DropReason, DroppedFrame, FrameReport, StreamDecoders, Worker,
    QUEUE_DEPTH,
};
use oxrdp::client::decode::{DecodeError, DecodeErrorView, Decoder, PassthroughDecoder};
use oxrdp::proto::message::window::frame_flag;
use oxrdp::proto::message::{codec, FrameData, FrameDataView};

/// What a decoder answers a frame with.
type Answer = Result<Option<FrameDataView>, DecodeErrorView>;

fn raw_frame(window_id: u32, frame_id: u64, width: u16, height: u16) -> FrameData {
    FrameData {
        window_id,
        frame_id,
        codec: codec::RAW_BGRA,
        flags: frame_flag::KEYFRAME,
        width,
        height,
        captured_us: frame_id,
        encoded_us: frame_id,
        data: vec![0x40; usize::from(width) * usize::from(height) * 4],
    }
}

/// A decoder that never produces a picture, like one waiting for a keyframe.
struct SilentDecoder;

impl Decoder for SilentDecoder {
    fn consumes(&self) -> u8 {
        codec::RAW_BGRA
    }

    fn steps_to(&self, _frame: FrameDataView, r: Answer, _after: &Self) -> bool {
        matches!(r, Ok(None))
    }

    fn codec(&self) -> u8 {
        codec::RAW_BGRA
    }

    fn decode(&mut self, _frame: FrameData) -> Result<Option<FrameData>, DecodeError> {
        Ok(None)
    }
}

struct SilentFactory;

impl DecoderFactory for SilentFactory {
    type Made = SilentDecoder;

    fn make(&self, _window_id: u32, _codec: u8) -> Result<SilentDecoder, DecodeError> {
        Ok(SilentDecoder)
    }
}

/// A decoder that fails every frame.
struct FailingDecoder;

impl Decoder for FailingDecoder {
    fn consumes(&self) -> u8 {
        codec::RAW_BGRA
    }

    fn steps_to(&self, _frame: FrameDataView, r: Answer, _after: &Self) -> bool {
        matches!(r, Err(DecodeErrorView::Bitstream(_)))
    }

    fn codec(&self) -> u8 {
        codec::RAW_BGRA
    }

    fn decode(&mut self, _frame: FrameData) -> Result<Option<FrameData>, DecodeError> {
        Err(DecodeError::Bitstream("synthetic failure".to_string()))
    }
}

struct FailingFactory;

impl DecoderFactory for FailingFactory {
    type Made = FailingDecoder;

    fn make(&self, _window_id: u32, _codec: u8) -> Result<FailingDecoder, DecodeError> {
        Ok(FailingDecoder)
    }
}

/// A factory that has no decoder for anything.
struct RefusingFactory;

impl DecoderFactory for RefusingFactory {
    type Made = PassthroughDecoder;

    fn make(&self, _window_id: u32, codec: u8) -> Result<PassthroughDecoder, DecodeError> {
        Err(DecodeError::UnsupportedCodec(codec))
    }
}

#[test]
fn frames_reach_the_sink_in_frame_id_order() {
    let mut worker = Worker::new(1);
    let clock = ClientClock::new();
    let order: Vec<u64> = (0..32)
        .map(|frame_id| {
            worker
                .handle(raw_frame(1, frame_id, 2, 2), &StreamDecoders, clock)
                .0
                .expect("every frame is presented")
                .frame_id
        })
        .collect();
    assert_eq!(order, (0..32).collect::<Vec<_>>());
}

#[test]
fn a_frame_that_yields_no_picture_is_acknowledged_instead() {
    let mut worker = Worker::new(1);
    let (taken, said) = worker.handle(raw_frame(1, 7, 2, 2), &SilentFactory, ClientClock::new());

    match said {
        FrameReport::Dropped(dropped) => assert_eq!(
            dropped,
            DroppedFrame {
                window_id: 1,
                frame_id: 7,
                finished_us: dropped.finished_us,
            }
        ),
        other => panic!("the drop is reported, got {other:?}"),
    }
    assert_eq!(taken, Err(DropReason::NoPicture), "nothing was presented");
}

#[test]
fn a_failing_frame_is_acknowledged_and_the_worker_survives() {
    let mut worker = Worker::new(1);
    for frame_id in 0..3 {
        let (taken, said) = worker.handle(
            raw_frame(1, frame_id, 2, 2),
            &FailingFactory,
            ClientClock::new(),
        );
        assert!(matches!(
            taken,
            Err(DropReason::Failed(DecodeError::Bitstream(_)))
        ));
        match said {
            FrameReport::Dropped(dropped) => {
                assert_eq!(dropped.frame_id, frame_id, "the worker kept going")
            }
            other => panic!("each failure is reported, got {other:?}"),
        }
    }
}

#[test]
fn an_unsupported_codec_is_acknowledged_rather_than_stalling_the_window() {
    let mut worker = Worker::new(1);
    let (taken, said) = worker.handle(raw_frame(1, 1, 2, 2), &RefusingFactory, ClientClock::new());
    assert_eq!(
        taken,
        Err(DropReason::NoDecoder(DecodeError::UnsupportedCodec(
            codec::RAW_BGRA
        )))
    );
    match said {
        FrameReport::Dropped(dropped) => assert_eq!(
            dropped.frame_id, 1,
            "a window whose codec has no decoder must still release its flow-control slot"
        ),
        other => panic!("reported, got {other:?}"),
    }
}

#[test]
fn one_stalled_window_does_not_block_another() {
    // Each window has a worker of its own: window 1's has been given nothing, and window 2's
    // presents its frame all the same.
    let _stalled: Worker<PassthroughDecoder> = Worker::new(1);
    let mut worker = Worker::new(2);
    let frame = worker
        .handle(raw_frame(2, 0, 2, 2), &StreamDecoders, ClientClock::new())
        .0
        .expect("window 2 is presented while window 1 is stalled");
    assert_eq!(frame.window_id, 2);
}

#[test]
fn the_real_passthrough_decoder_is_used_by_default() {
    let mut worker = Worker::new(3);
    let clock = ClientClock::new();

    // A well-formed RAW_BGRA frame is presented untouched...
    let frame = worker
        .handle(raw_frame(3, 0, 4, 2), &StreamDecoders, clock)
        .0
        .expect("presented");
    assert_eq!(frame.data.len(), 4 * 2 * 4);
    assert_eq!(frame.codec, codec::RAW_BGRA);

    // ...and a malformed one is acknowledged rather than presented.
    let mut broken = raw_frame(3, 1, 4, 2);
    broken.data.truncate(3);
    let (taken, said) = worker.handle(broken, &StreamDecoders, clock);
    assert_eq!(
        taken,
        Err(DropReason::Failed(DecodeError::PayloadLength {
            expected: 32,
            actual: 3
        }))
    );
    match said {
        FrameReport::Dropped(dropped) => assert_eq!(dropped.frame_id, 1),
        other => panic!("reported, got {other:?}"),
    }
}

#[test]
fn a_codec_change_mid_stream_starts_a_fresh_decoder() {
    let mut worker = Worker::new(1);
    let clock = ClientClock::new();
    assert!(worker
        .handle(raw_frame(1, 0, 2, 2), &StreamDecoders, clock)
        .0
        .is_ok());

    // No decoder for this one: the old decoder is dropped with its stream.
    let mut switched = raw_frame(1, 1, 2, 2);
    switched.codec = codec::AV1;
    assert_eq!(
        worker.handle(switched, &StreamDecoders, clock).0,
        Err(DropReason::NoDecoder(DecodeError::UnsupportedCodec(
            codec::AV1
        )))
    );

    // And the window recovers on a codec that there is one for.
    assert!(worker
        .handle(raw_frame(1, 2, 2, 2), &StreamDecoders, clock)
        .0
        .is_ok());
}

#[test]
fn each_frame_gets_its_own_report() {
    assert_eq!(
        report(1, 2, &Ok(raw_frame(1, 2, 1, 1)), 30),
        FrameReport::Decoded {
            window_id: 1,
            frame_id: 2,
            decoded_us: 30,
        }
    );
    assert_eq!(
        report(1, 2, &Err(DropReason::NoPicture), 30),
        FrameReport::Dropped(DroppedFrame {
            window_id: 1,
            frame_id: 2,
            finished_us: 30,
        })
    );
    assert_eq!(QUEUE_DEPTH, 4);
}

/// A decoder that gives each frame the number of frames before it as its timestamp.
struct CountingDecoder {
    seen: u64,
}

impl Decoder for CountingDecoder {
    fn consumes(&self) -> u8 {
        codec::RAW_BGRA
    }

    fn steps_to(&self, _frame: FrameDataView, _r: Answer, after: &Self) -> bool {
        after.seen == self.seen + 1
    }

    fn codec(&self) -> u8 {
        codec::RAW_BGRA
    }

    fn decode(&mut self, mut frame: FrameData) -> Result<Option<FrameData>, DecodeError> {
        frame.captured_us = self.seen;
        self.seen += 1;
        Ok(Some(frame))
    }
}

struct CountingFactory;

impl DecoderFactory for CountingFactory {
    type Made = CountingDecoder;

    fn make(&self, _window_id: u32, _codec: u8) -> Result<CountingDecoder, DecodeError> {
        Ok(CountingDecoder { seen: 0 })
    }
}

#[test]
fn each_frame_is_decoded_from_the_one_before() {
    let mut worker = Worker::new(7);
    for n in 0..5u64 {
        let (out, _) = worker.handle(raw_frame(7, n, 2, 2), &CountingFactory, ClientClock::new());
        assert_eq!(out.unwrap().captured_us, n);
    }
    assert_eq!(worker.decoder().unwrap().seen, 5);
}
