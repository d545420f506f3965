//! Chunk framing, fragmentation and reassembly.

use oxrdp::proto::envelope::{
    fragment, ChunkHeader, Reassembler, CHUNK_HEADER_LEN, MAX_CHUNK_PAYLOAD, MAX_PENDING_CHANNELS,
};
use oxrdp::proto::message::msg_type;
use oxrdp::proto::pdu::{decode, encode_vec, DecodeError};
use oxrdp::proto::{channel, chunk_flags};

fn parse(frame: &[u8]) -> (ChunkHeader, Vec<u8>) {
    let header = decode::<ChunkHeader>(frame).unwrap();
    let body = frame[CHUNK_HEADER_LEN..][..header.length as usize].to_vec();
    (header, body)
}

#[test]
fn header_round_trip() {
    let h = ChunkHeader {
        msg_type: msg_type::FRAME_DATA,
        flags: chunk_flags::FRAG_MORE,
        channel: channel::VIDEO_BASE,
        length: 1234,
    };
    let bytes = encode_vec(&h).unwrap();
    assert_eq!(bytes.len(), CHUNK_HEADER_LEN);
    assert_eq!(bytes[0], msg_type::FRAME_DATA);
    assert_eq!(bytes[1], chunk_flags::FRAG_MORE);
    assert_eq!(&bytes[2..4], &channel::VIDEO_BASE.to_le_bytes());
    assert_eq!(&bytes[4..8], &1234u32.to_le_bytes());
    assert_eq!(decode::<ChunkHeader>(&bytes).unwrap(), h);
    assert!(h.has_more());
}

#[test]
fn reserved_flags_are_ignored_not_rejected() {
    // Forward compatibility: a future version may define one of these bits, and a current
    // receiver must not hard-fail the connection over it.
    let bytes = [
        msg_type::PING,
        0x80 | chunk_flags::FRAG_MORE,
        0,
        0,
        0,
        0,
        0,
        0,
    ];
    let h = decode::<ChunkHeader>(&bytes).unwrap();
    assert_eq!(
        h.flags,
        chunk_flags::FRAG_MORE,
        "unknown bits are masked off"
    );
    assert!(h.has_more());
}

#[test]
fn caps_the_number_of_pending_channels() {
    // A peer must not be able to pin memory on thousands of channels before authenticating.
    let mut r = Reassembler::new();
    let chunk = vec![0u8; 16];
    for ch in 0..MAX_PENDING_CHANNELS as u16 {
        let h = ChunkHeader {
            msg_type: msg_type::FRAME_DATA,
            flags: chunk_flags::FRAG_MORE,
            channel: channel::VIDEO_BASE + ch,
            length: chunk.len() as u32,
        };
        assert!(r.push(&h, &chunk).unwrap().is_none());
    }
    assert_eq!(r.pending_channels(), MAX_PENDING_CHANNELS);

    let overflow = ChunkHeader {
        msg_type: msg_type::FRAME_DATA,
        flags: chunk_flags::FRAG_MORE,
        channel: 60000,
        length: chunk.len() as u32,
    };
    assert!(matches!(
        r.push(&overflow, &chunk),
        Err(DecodeError::InvalidLength { .. })
    ));
}

#[test]
fn pending_bytes_are_tracked_and_released() {
    let mut r = Reassembler::new();
    let body = vec![3u8; MAX_CHUNK_PAYLOAD + 1];
    let frames = fragment(msg_type::FRAME_DATA, channel::VIDEO_BASE, &body).unwrap();

    let (h0, b0) = parse(&frames[0]);
    r.push(&h0, &b0).unwrap();
    assert_eq!(r.pending_bytes(), MAX_CHUNK_PAYLOAD);

    let (h1, b1) = parse(&frames[1]);
    r.push(&h1, &b1).unwrap().expect("completes");
    assert_eq!(
        r.pending_bytes(),
        0,
        "a completed message releases its buffer"
    );
    assert_eq!(r.pending_channels(), 0);
}

#[test]
fn rejects_oversized_chunk() {
    let mut bytes = [0u8; CHUNK_HEADER_LEN];
    bytes[0] = msg_type::FRAME_DATA;
    bytes[4..8].copy_from_slice(&((MAX_CHUNK_PAYLOAD + 1) as u32).to_le_bytes());
    assert!(matches!(
        decode::<ChunkHeader>(&bytes),
        Err(DecodeError::InvalidLength { .. })
    ));
}

#[test]
fn small_message_is_one_chunk() {
    let frames = fragment(msg_type::PING, channel::CONTROL, &[1, 2, 3]).unwrap();
    assert_eq!(frames.len(), 1);
    let (h, body) = parse(&frames[0]);
    assert!(!h.has_more());
    let mut r = Reassembler::new();
    let msg = r.push(&h, &body).unwrap().unwrap();
    assert_eq!(msg.msg_type, msg_type::PING);
    assert_eq!(msg.payload, vec![1, 2, 3]);
    assert_eq!(r.pending_channels(), 0);
}

#[test]
fn empty_payload_still_produces_a_chunk() {
    let frames = fragment(msg_type::PING, channel::CONTROL, &[]).unwrap();
    assert_eq!(frames.len(), 1);
    let (h, body) = parse(&frames[0]);
    assert_eq!(h.length, 0);
    let mut r = Reassembler::new();
    assert_eq!(
        r.push(&h, &body).unwrap().unwrap().payload,
        Vec::<u8>::new()
    );
}

#[test]
fn large_message_fragments_and_reassembles() {
    let payload: Vec<u8> = (0..(MAX_CHUNK_PAYLOAD * 2 + 7)).map(|i| i as u8).collect();
    let frames = fragment(msg_type::FRAME_DATA, channel::VIDEO_BASE, &payload).unwrap();
    assert_eq!(frames.len(), 3);

    let mut r = Reassembler::new();
    let mut out = None;
    for (i, f) in frames.iter().enumerate() {
        let (h, body) = parse(f);
        assert_eq!(h.has_more(), i < 2);
        if let Some(msg) = r.push(&h, &body).unwrap() {
            out = Some(msg);
        }
    }
    let msg = out.expect("message completed");
    assert_eq!(msg.msg_type, msg_type::FRAME_DATA);
    assert_eq!(msg.payload, payload);
    assert_eq!(r.pending_channels(), 0);
}

#[test]
fn channels_reassemble_independently() {
    let video: Vec<u8> = vec![7u8; MAX_CHUNK_PAYLOAD + 1];
    let video_frames = fragment(msg_type::FRAME_DATA, channel::VIDEO_BASE, &video).unwrap();
    let input_frames = fragment(msg_type::KEY_EVENT, channel::INPUT, &[9, 9]).unwrap();

    let mut r = Reassembler::new();
    // First video chunk, then a complete input message interleaved, then the rest.
    let (h0, b0) = parse(&video_frames[0]);
    assert!(r.push(&h0, &b0).unwrap().is_none());

    let (hi, bi) = parse(&input_frames[0]);
    let input = r
        .push(&hi, &bi)
        .unwrap()
        .expect("input completes immediately");
    assert_eq!(input.msg_type, msg_type::KEY_EVENT);

    let (h1, b1) = parse(&video_frames[1]);
    let done = r.push(&h1, &b1).unwrap().expect("video completes");
    assert_eq!(done.payload, video);
}

#[test]
fn rejects_type_change_mid_message() {
    let frames = fragment(
        msg_type::FRAME_DATA,
        channel::VIDEO_BASE,
        &vec![0u8; MAX_CHUNK_PAYLOAD + 1],
    )
    .unwrap();
    let mut r = Reassembler::new();
    let (h0, b0) = parse(&frames[0]);
    r.push(&h0, &b0).unwrap();

    let bogus = ChunkHeader {
        msg_type: msg_type::PING,
        flags: 0,
        channel: channel::VIDEO_BASE,
        length: 1,
    };
    assert!(matches!(
        r.push(&bogus, &[0]),
        Err(DecodeError::InvalidField { field: "type", .. })
    ));
    assert_eq!(r.pending_channels(), 0, "the failed channel is discarded");
}

#[test]
fn rejects_message_over_its_type_limit() {
    // PING's limit is 4 KiB; feed fragments past it.
    let mut r = Reassembler::new();
    let chunk = vec![0u8; MAX_CHUNK_PAYLOAD];
    let h = ChunkHeader {
        msg_type: msg_type::PING,
        flags: chunk_flags::FRAG_MORE,
        channel: channel::CONTROL,
        length: chunk.len() as u32,
    };
    assert!(matches!(
        r.push(&h, &chunk),
        Err(DecodeError::InvalidLength { .. })
    ));
    assert_eq!(r.pending_channels(), 0);
}

#[test]
fn rejects_payload_length_mismatch() {
    let h = ChunkHeader {
        msg_type: msg_type::PING,
        flags: 0,
        channel: channel::CONTROL,
        length: 4,
    };
    let mut r = Reassembler::new();
    assert!(matches!(
        r.push(&h, &[1, 2]),
        Err(DecodeError::InvalidLength { .. })
    ));
}

#[test]
fn interleaved_messages_both_arrive() {
    let first: Vec<u8> = (0..MAX_CHUNK_PAYLOAD * 2 + 5).map(|i| i as u8).collect();
    let second: Vec<u8> = (0..MAX_CHUNK_PAYLOAD + 9).map(|i| (i * 7) as u8).collect();
    let a = fragment(msg_type::FRAME_DATA, 16, &first).unwrap();
    let b = fragment(msg_type::FRAME_DATA, 17, &second).unwrap();
    assert_eq!((a.len(), b.len()), (3, 2));
    // Every order that keeps each message's own: which two of the five turns are the second's.
    for i in 0..5 {
        for j in i + 1..5 {
            let (mut a, mut b) = (a.iter(), b.iter());
            let mut r = Reassembler::new();
            let mut whole = Vec::new();
            for turn in 0..5 {
                let chunk = if turn == i || turn == j {
                    b.next()
                } else {
                    a.next()
                };
                let (header, payload) = parse(chunk.unwrap());
                if let Some(message) = r.push(&header, &payload).unwrap() {
                    whole.push((header.channel, message.payload));
                }
            }
            whole.sort();
            assert_eq!(whole, vec![(16, first.clone()), (17, second.clone())]);
            assert_eq!((r.pending_channels(), r.pending_bytes()), (0, 0));
        }
    }
}
