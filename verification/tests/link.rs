//! Messages on a stream of bytes, and the fields that they are made of.

use oxrdp::client::link::{Link, LinkError, Received};
use oxrdp::proto::channel;
use oxrdp::proto::envelope::{fragment, max_message_len, MAX_CHUNK_PAYLOAD};
use oxrdp::proto::latency::{agent_to_client, Samples};
use oxrdp::proto::message::{
    msg_type, FrameData, Message, Output, DisplayLayout, Ping, TextInput, WindowTitle,
};
use oxrdp::proto::pdu::{
    decode, encode_vec, DecodeError, EncodeError, ReadCursor, WriteCursor,
};
use oxrdp::proto::wire::{
    read_bool, read_i16, read_i32, read_string, read_u64, write_bool, write_i16, write_i32,
    write_string, write_u64,
};

fn ping(seq: u32) -> Message {
    Message::Ping(Ping { seq, sent_us: 9 })
}

#[test]
fn queued_messages_arrive_whole_and_in_order() {
    let big = Message::FrameData(FrameData {
        window_id: 1,
        frame_id: 2,
        codec: 1,
        flags: 0,
        width: 1,
        height: 1,
        captured_us: 3,
        encoded_us: 4,
        data: vec![7; MAX_CHUNK_PAYLOAD * 2],
    });
    let mut near = Link::new();
    for message in [&ping(1), &big, &ping(2)] {
        near.queue(message).expect("it encodes");
    }

    // The stream takes and gives as many bytes at a time as it likes.
    let mut far = Link::new();
    let mut got = Vec::new();
    let mut step = 1;
    while !near.unsent().is_empty() {
        let n = step.min(near.unsent().len());
        far.receive(&near.unsent()[..n]);
        assert!(near.on_written(n));
        step = step * 3 % 40_009 + 1;
        loop {
            match far.next().expect("the bytes are understood") {
                Received::Message(message) => got.push(message),
                Received::Skipped => {}
                Received::Incomplete => break,
            }
        }
    }
    assert!(!near.on_written(0), "nothing was taken");
    assert_eq!(got, vec![ping(1), big, ping(2)]);
}

#[test]
fn chunks_on_a_video_channel_arrive_whole() {
    let frame = Message::FrameData(FrameData {
        window_id: 1,
        frame_id: 2,
        codec: 1,
        flags: 0,
        width: 1,
        height: 1,
        captured_us: 3,
        encoded_us: 4,
        data: vec![7; MAX_CHUNK_PAYLOAD * 2],
    });
    for video_channel in [0, 16, 17, u16::MAX] {
        let mut link = Link::new();
        let chunks = frame.to_chunks(video_channel).expect("it encodes");
        assert_eq!(chunks.len(), 3);
        for chunk in &chunks {
            link.receive(chunk);
        }
        assert!(matches!(link.next(), Ok(Received::Skipped)));
        assert!(matches!(link.next(), Ok(Received::Skipped)));
        match link.next() {
            Ok(Received::Message(message)) => assert_eq!(message, frame),
            other => panic!("expected the frame, got {other:?}"),
        }
        assert!(matches!(link.next(), Ok(Received::Incomplete)));
    }
}

#[test]
fn a_message_that_does_not_encode_is_not_queued() {
    let mut link = Link::new();
    let long = Message::TextInput(TextInput {
        text: "x".repeat(70_000),
    });
    assert!(matches!(
        link.queue(&long),
        Err(EncodeError::FieldTooLarge { .. })
    ));
    assert!(link.unsent().is_empty());
}

#[test]
fn what_cannot_be_understood_is_an_error() {
    let mut link = Link::new();
    link.receive(&[msg_type::PING, 0, 0, 0, 0xFF, 0xFF, 0xFF, 0xFF]);
    assert!(matches!(link.next(), Err(LinkError::Framing(_))));

    let mut link = Link::new();
    link.receive(&[msg_type::PING, 0, 0, 0, 1, 0, 0, 0, 5]);
    assert!(matches!(link.next(), Err(LinkError::Body(_))));

    let mut link = Link::new();
    link.receive(&[0xF0, 0, 0, 0, 1, 0, 0, 0, 5]);
    assert!(matches!(link.next(), Ok(Received::Skipped)));
    assert!(matches!(link.next(), Ok(Received::Incomplete)));
}

#[test]
fn text_has_to_be_text() {
    // A title of two bytes that are not UTF-8.
    let mut body = vec![1, 0, 0, 0, 2, 0, 0xC3, 0x28];
    assert!(matches!(
        decode::<WindowTitle>(&body),
        Err(DecodeError::InvalidField { .. })
    ));
    body[6] = 0xC3;
    body[7] = 0xA9;
    assert_eq!(decode::<WindowTitle>(&body).map(|t| t.title), Ok("é".to_string()));
}

#[test]
fn a_layout_holds_as_many_outputs_as_a_byte_counts() {
    let output = Output {
        id: 0,
        x: 0,
        y: 0,
        width: 1,
        height: 1,
        scale_num: 1,
        scale_den: 1,
        refresh_mhz: 1,
    };
    let full = DisplayLayout {
        outputs: vec![output; 255],
    };
    let bytes = encode_vec(&full).expect("255 fit");
    assert_eq!(decode::<DisplayLayout>(&bytes), Ok(full));
    // The count is a byte and saturates: what is past it is not read back.
    let more = encode_vec(&DisplayLayout {
        outputs: vec![output; 256],
    })
    .expect("it encodes all the same");
    assert_eq!(more[0], 255);
    assert_eq!(
        decode::<DisplayLayout>(&more).map(|layout| layout.outputs.len()),
        Ok(255)
    );
}

#[test]
fn fields_come_back() {
    let mut dst = WriteCursor::new();
    write_bool(&mut dst, true, "flag").unwrap();
    write_i16(&mut dst, -2, "short").unwrap();
    write_i32(&mut dst, i32::MIN, "int").unwrap();
    write_u64(&mut dst, u64::MAX - 1, "long").unwrap();
    write_string(&mut dst, "é", "text").unwrap();
    let bytes = dst.into_vec();
    assert_eq!(
        bytes,
        vec![
            1, 0xFE, 0xFF, 0, 0, 0, 0x80, 0xFE, 0xFF, 0xFF, 0xFF, 0xFF, 0xFF, 0xFF, 0xFF, 2, 0,
            0xC3, 0xA9
        ]
    );
    let mut src = ReadCursor::new(&bytes);
    assert_eq!(read_bool(&mut src, "flag"), Ok(true));
    assert_eq!(read_i16(&mut src, "short"), Ok(-2));
    assert_eq!(read_i32(&mut src, "int"), Ok(i32::MIN));
    assert_eq!(read_u64(&mut src, "long"), Ok(u64::MAX - 1));
    assert_eq!(read_string(&mut src, "text"), Ok("é".to_string()));
    assert_eq!(
        read_bool(&mut src, "more"),
        Err(DecodeError::NotEnoughBytes { context: "more" })
    );
}

#[test]
fn fragments_carry_their_own_headers() {
    let chunks = fragment(msg_type::FRAME_DATA, channel::VIDEO_BASE, &[5; 3]).unwrap();
    assert_eq!(
        chunks,
        vec![vec![msg_type::FRAME_DATA, 0, 16, 0, 3, 0, 0, 0, 5, 5, 5]]
    );
    assert_eq!(max_message_len(msg_type::PING), 4 * 1024);
    assert_eq!(max_message_len(msg_type::WINDOW_TITLE), 8 * 1024);
}

#[test]
fn percentiles_do_not_depend_on_the_order_of_arrival() {
    let mut samples = Samples::new(10);
    for v in [50, 10, 40, 20, 30] {
        samples.push(v);
    }
    assert_eq!(samples.to_vec(), vec![50, 10, 40, 20, 30]);
    assert_eq!(samples.percentile(0), Some(10));
    assert_eq!(samples.percentile(50), Some(30));
    assert_eq!(samples.percentile(95), Some(50));
    assert_eq!((samples.min(), samples.max()), (Some(10), Some(50)));
}

#[test]
fn agent_times_saturate_on_the_client_clock() {
    assert_eq!(agent_to_client(5_100, 4_000), 1_100);
    assert_eq!(agent_to_client(8_000, -2_100), 10_100);
    assert_eq!(agent_to_client(1, 2), 0);
    assert_eq!(agent_to_client(u64::MAX, -1), u64::MAX);
}
