//! The client session: the handshake, the events, and the housekeeping it answers by itself.

use oxrdp::client::event::ClientEvent;
use oxrdp::client::link::{Link, LinkError, Received};
use oxrdp::client::session::{ClientSession, ConnectError, SessionConfig};
use oxrdp::proto::channel;
use oxrdp::proto::message::{
    codec, error_code, feature, ClientHello, Close, DisplayLayout, Error as ProtoError, FrameData,
    Message, Output, Ping, Pong, ServerHello, WindowOpened,
};
use oxrdp::proto::pdu::{DecodeError, EncodeError};

fn config() -> SessionConfig {
    SessionConfig {
        auth_token: "token".into(),
        client_name: "test".into(),
        codecs: vec![codec::RAW_BGRA],
        display: DisplayLayout {
            outputs: vec![Output {
                id: 0,
                x: 0,
                y: 0,
                width: 800,
                height: 600,
                scale_num: 1,
                scale_den: 1,
                refresh_mhz: 60_000,
            }],
        },
    }
}

/// What a peer puts on the wire for a message on a channel.
fn wire(message: &Message, channel: u16) -> Vec<u8> {
    message.to_chunks(channel).expect("the message encodes").concat()
}

/// Reads the next message out of a link.
fn read(link: &mut Link) -> Message {
    loop {
        match link.next().expect("the bytes are understood") {
            Received::Message(message) => return message,
            Received::Skipped => {}
            Received::Incomplete => panic!("a message is due"),
        }
    }
}

/// Moves what the session has to send over to the peer's end.
fn deliver(session: &mut ClientSession, peer: &mut Link) {
    let bytes = session.unsent().to_vec();
    peer.receive(&bytes);
    if !bytes.is_empty() {
        assert!(session.on_written(bytes.len()));
    }
    assert!(session.unsent().is_empty());
}

/// A greeted link, with the hello taken off it.
fn greeted() -> (Link, ClientHello) {
    let mut link = ClientSession::greet(&config()).expect("the hello encodes");
    let mut peer = Link::new();
    let hello = link.unsent().to_vec();
    peer.receive(&hello);
    assert!(link.on_written(hello.len()));
    match read(&mut peer) {
        Message::ClientHello(hello) => (link, hello),
        other => panic!("expected ClientHello, got {:#04x}", other.msg_type()),
    }
}

fn server_hello(features: u64) -> Message {
    Message::ServerHello(ServerHello {
        version: 1,
        features,
        session_id: 99,
        codec: codec::RAW_BGRA,
    })
}

fn connected(features: u64) -> ClientSession {
    let (mut link, _) = greeted();
    link.receive(&wire(&server_hello(features), channel::CONTROL));
    match ClientSession::connect(link) {
        Ok(session) => session,
        Err((_, error)) => panic!("the handshake completes: {error:?}"),
    }
}

#[test]
fn handshake_then_events() {
    let (mut link, hello) = greeted();
    assert_eq!(hello.auth_token, "token");
    assert_eq!(hello.client_name, "test");
    assert_eq!((hello.version_min, hello.version_max), (1, 1));

    link.receive(&wire(
        &Message::ServerHello(ServerHello {
            version: 1,
            features: feature::CURSOR_STREAM | feature::FRAME_ACK,
            session_id: 99,
            codec: codec::RAW_BGRA,
        }),
        channel::CONTROL,
    ));
    let mut session = match ClientSession::connect(link) {
        Ok(session) => session,
        Err((_, error)) => panic!("the handshake completes: {error:?}"),
    };
    assert_eq!(session.version, 1);
    assert_eq!(session.session_id, 99);
    assert_eq!(session.codec, codec::RAW_BGRA);
    assert!(session.has_feature(feature::FRAME_ACK));

    // A ping must be answered by the session itself, not surfaced as an event.
    session.receive(&wire(
        &Message::Ping(Ping { seq: 1, sent_us: 5 }),
        channel::CONTROL,
    ));
    assert_eq!(session.next_event().expect("no error"), None);
    let mut peer = Link::new();
    deliver(&mut session, &mut peer);
    let pong = read(&mut peer);
    assert!(matches!(pong, Message::Pong(p) if p.seq == 1));

    session.receive(&wire(
        &Message::WindowOpened(WindowOpened {
            window_id: 1,
            video_channel: channel::VIDEO_BASE,
            pid: 4,
            app_id: "notepad.exe".into(),
            title: "Untitled".into(),
            x: 0,
            y: 0,
            width: 800,
            height: 600,
            dpi: 96,
            flags: 0,
            owner_id: 0,
        }),
        channel::CONTROL,
    ));
    session.receive(&wire(
        &Message::FrameData(FrameData {
            window_id: 1,
            frame_id: 1,
            codec: codec::RAW_BGRA,
            flags: 1,
            width: 2,
            height: 1,
            captured_us: 1,
            encoded_us: 2,
            data: vec![1, 2, 3, 4, 5, 6, 7, 8],
        }),
        channel::VIDEO_BASE,
    ));

    match session.next_event().expect("no error").expect("an event") {
        ClientEvent::WindowOpened(w) => {
            assert_eq!(w.app_id, "notepad.exe");
            assert_eq!(w.video_channel, channel::VIDEO_BASE);
        }
        other => panic!("expected WindowOpened, got {other:?}"),
    }
    match session.next_event().expect("no error").expect("an event") {
        ClientEvent::Frame(f) => {
            assert_eq!(f.window_id, 1);
            assert_eq!(f.data.len(), 8);
        }
        other => panic!("expected Frame, got {other:?}"),
    }
}

#[test]
fn auth_failure_is_reported() {
    let (mut link, _) = greeted();
    link.receive(&wire(
        &Message::Error(ProtoError {
            code: error_code::AUTH_FAILED,
            message: "bad token".into(),
        }),
        channel::CONTROL,
    ));

    match ClientSession::connect(link) {
        Err((_, Some(ConnectError::Refused(message)))) => {
            assert!(message.contains("bad token"));
            assert_eq!(
                message,
                "authentication rejected by the agent: bad token (code 2)"
            );
        }
        Err((_, other)) => panic!("expected a refusal, got {other:?}"),
        Ok(_) => panic!("a refused client has no session"),
    }
}

#[test]
fn closed_stream_ends_the_event_loop() {
    let mut session = connected(0);
    // The peer sends nothing more, so nothing is left to read.
    assert_eq!(session.next_event().expect("no error"), None);
}

#[test]
fn a_session_fault_is_told_apart_from_a_refused_token() {
    let (mut link, _) = greeted();
    link.receive(&wire(
        &Message::Error(ProtoError {
            code: error_code::CAPTURE_FAILED,
            message: "no display".into(),
        }),
        channel::CONTROL,
    ));
    match ClientSession::await_hello(&mut link) {
        Err(ConnectError::Refused(message)) => assert_eq!(
            message,
            format!(
                "agent refused the session: no display (code {})",
                error_code::CAPTURE_FAILED
            )
        ),
        other => panic!("expected a refusal, got {other:?}"),
    }
}

#[test]
fn an_answer_other_than_a_hello_is_unexpected() {
    let (mut link, _) = greeted();
    link.receive(&wire(
        &Message::Close(Close { reason: 0 }),
        channel::CONTROL,
    ));
    assert_eq!(
        ClientSession::await_hello(&mut link),
        Err(ConnectError::Unexpected(
            "expected ServerHello, got 0x04".to_string()
        ))
    );
}

#[test]
fn a_hello_may_arrive_one_byte_at_a_time() {
    let (mut link, _) = greeted();
    let bytes = wire(&server_hello(feature::FRAME_ACK), channel::CONTROL);
    let (last, first) = bytes.split_last().expect("the hello has bytes");
    for byte in first {
        link.receive(&[*byte]);
        assert_eq!(ClientSession::await_hello(&mut link), Ok(None));
    }
    link.receive(&[*last]);
    match ClientSession::await_hello(&mut link) {
        Ok(Some(hello)) => assert_eq!(hello.session_id, 99),
        other => panic!("expected a hello, got {other:?}"),
    }
}

#[test]
fn a_link_without_an_answer_comes_back() {
    let (link, _) = greeted();
    match ClientSession::connect(link) {
        Err((mut link, None)) => {
            link.receive(&wire(&server_hello(0), channel::CONTROL));
            assert!(ClientSession::connect(link).is_ok());
        }
        Err((_, Some(error))) => panic!("nothing is wrong yet: {error:?}"),
        Ok(_) => panic!("there is no hello yet"),
    }
}

#[test]
fn a_config_that_does_not_fit_a_hello_is_refused() {
    let mut long = config();
    long.auth_token = "x".repeat(70_000);
    assert!(matches!(
        ClientSession::greet(&long),
        Err(EncodeError::FieldTooLarge { .. })
    ));
}

#[test]
fn only_features_both_ends_know_are_active() {
    let session = connected(u64::MAX);
    assert!(session.has_feature(feature::FRAME_ACK));
    assert_eq!(session.features, feature::SUPPORTED);
    let session = connected(0);
    assert!(!session.has_feature(feature::FRAME_ACK));
}

#[test]
fn a_message_of_an_unknown_type_is_skipped() {
    let mut session = connected(0);
    // Type 0xF0 on the control channel, with two bytes of body.
    session.receive(&[0xF0, 0, 0, 0, 2, 0, 0, 0, 1, 2]);
    session.receive(&wire(
        &Message::Close(Close { reason: 7 }),
        channel::CONTROL,
    ));
    assert_eq!(
        session.next_event(),
        Ok(Some(ClientEvent::Closed(Close { reason: 7 })))
    );
}

#[test]
fn a_malformed_body_is_an_error() {
    let mut session = connected(0);
    // A ping is twelve bytes long; this one has three.
    session.receive(&[0x05, 0, 0, 0, 3, 0, 0, 0, 1, 2, 3]);
    assert!(matches!(
        session.next_event(),
        Err(LinkError::Body(DecodeError::NotEnoughBytes { .. }))
    ));
}

#[test]
fn a_chunk_past_the_limit_is_an_error() {
    let mut session = connected(0);
    session.receive(&[0x20, 0, 16, 0, 0xFF, 0xFF, 0xFF, 0xFF]);
    assert!(matches!(
        session.next_event(),
        Err(LinkError::Framing(DecodeError::InvalidLength { .. }))
    ));
}

/// Nothing could be measured across the two ends without this: an agent timestamp could not be
/// placed on the client's clock at all.
#[test]
fn a_ping_round_trip_produces_a_clock_estimate() {
    let mut session = connected(feature::WINDOW_CONTROL);
    assert_eq!(
        session.clock_offset_us(),
        None,
        "nothing is known before a pong"
    );

    session.ping();

    let mut peer = Link::new();
    deliver(&mut session, &mut peer);
    let ping = match read(&mut peer) {
        Message::Ping(ping) => ping,
        other => panic!("expected Ping, got {:#04x}", other.msg_type()),
    };

    // The agent answers with its own clock, which here reads a long way ahead of ours.
    let agent_us = ping.sent_us + 1_000_000;
    session.receive(&wire(
        &Message::Pong(Pong {
            seq: ping.seq,
            sent_us: ping.sent_us,
            agent_us,
        }),
        channel::CONTROL,
    ));

    // The pong is housekeeping, so it is consumed rather than surfaced.
    assert_eq!(session.next_event().expect("no error"), None);

    let offset = session.clock_offset_us().expect("a pong has landed");
    // The estimate assumes a symmetric path, so it lands within half the round trip of the
    // true offset.
    let rtt = session.rtt_us().last().expect("an rtt sample");
    let error = (offset - 1_000_000).unsigned_abs();
    assert!(
        error <= rtt / 2 + 1,
        "offset {offset} is further than half the {rtt} us round trip from the truth"
    );
}

#[test]
fn an_estimate_is_exact_on_a_clock_that_is_given() {
    let mut session = connected(0);
    assert_eq!(session.offset_at(0), None);
    session.ping_at(1_000);
    session.receive(&wire(
        &Message::Pong(Pong {
            seq: 0,
            sent_us: 1_000,
            agent_us: 5_100,
        }),
        channel::CONTROL,
    ));
    assert_eq!(session.next_event_at(1_200), Ok(None));
    // rtt 200, offset 5100 - (1000 + 100).
    let best = session.offset_at(1_200).expect("a pong has landed");
    assert_eq!(best.offset_us, 4_000);
    assert_eq!(best.rtt_us, 200);
    assert_eq!(best.taken_at_us, 1_200);
}

#[test]
fn pongs_that_arrive_together_are_all_counted() {
    let mut session = connected(0);
    session.ping_at(1_000);
    session.ping_at(2_000);
    let mut bytes = Vec::new();
    for (seq, sent_us) in [(0, 1_000), (1, 2_000)] {
        bytes.extend(wire(
            &Message::Pong(Pong {
                seq,
                sent_us,
                agent_us: 5_000,
            }),
            channel::CONTROL,
        ));
    }
    session.receive(&bytes);
    assert_eq!(session.next_event_at(2_500), Ok(None));
    assert_eq!(session.rtt_us().to_vec(), vec![1_500, 500]);

    // On the session's own clock each one is timed as it lands, so the second is no earlier.
    let mut session = connected(0);
    session.ping_at(0);
    session.ping_at(0);
    session.receive(&bytes);
    assert_eq!(session.next_event(), Ok(None));
    let landed = session.rtt_us().to_vec();
    assert_eq!(landed.len(), 2);
    assert!(landed[0] <= landed[1]);
}

#[test]
fn a_link_error_says_what_is_wrong() {
    let error = DecodeError::NotEnoughBytes { context: "header" };
    assert_eq!(
        LinkError::Framing(error).message(),
        "not enough bytes in header"
    );
    assert_eq!(LinkError::Body(error).message(), error.message());
}
