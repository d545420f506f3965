//! What the client prints.

use std::collections::HashMap;

use oxrdp::client::decode::DecodeError;
use oxrdp::client::describe::{
    connected_line, describe_event, describe_window_flags, opened_line, titled_line, Line,
    FRAME_LOG_STRIDE,
};
use oxrdp::client::event::ClientEvent;
use oxrdp::proto::message::window::window_flag;
use oxrdp::proto::message::{
    codec, Close, CursorPosition, CursorShape, CursorVisibility, Error, FrameData, WindowGeometry,
    WindowIcon, WindowOpened, WindowState, WindowTitle, WindowZOrder,
};
use oxrdp::text::{decimal_text, join, push_hex, push_hex_byte, push_right_aligned, push_signed};

fn stdout(event: ClientEvent) -> String {
    match describe_event(&event, &mut HashMap::new()) {
        Some(Line::Stdout(line)) => line,
        other => panic!("expected a line, got {other:?}"),
    }
}

fn stderr(event: ClientEvent) -> String {
    match describe_event(&event, &mut HashMap::new()) {
        Some(Line::Stderr(line)) => line,
        other => panic!("expected a line, got {other:?}"),
    }
}

#[test]
fn flags_are_printed_by_name() {
    assert_eq!(describe_window_flags(0), "none");
    assert_eq!(
        describe_window_flags(window_flag::RESIZABLE | window_flag::HAS_FRAME),
        "resizable,has_frame"
    );
    assert_eq!(
        describe_window_flags(window_flag::TOPMOST | 0x8000),
        "topmost,unknown:0x8000"
    );
}

#[test]
fn events_are_printed() {
    assert_eq!(
        stdout(ClientEvent::WindowGeometry(WindowGeometry {
            window_id: 1,
            x: -5,
            y: 7,
            width: 30,
            height: 40,
        })),
        "window geometry: id=1 pos=(-5,7) size=30x40"
    );
    assert_eq!(
        stdout(ClientEvent::WindowTitle(WindowTitle {
            window_id: 1,
            title: "tab\there".into(),
        })),
        "window title: id=1 title=\"tab\\there\""
    );
    assert_eq!(
        stdout(ClientEvent::WindowState(WindowState {
            window_id: 1,
            state: 2,
            flags: 0x1f,
        })),
        "window state: id=1 state=2 flags=0x1f"
    );
    assert_eq!(
        stdout(ClientEvent::WindowZOrder(WindowZOrder {
            window_id: 1,
            above_window_id: 2,
        })),
        "window z-order: id=1 above=2"
    );
    assert_eq!(
        stdout(ClientEvent::WindowIcon(WindowIcon {
            window_id: 1,
            width: 1,
            height: 2,
            bgra: vec![0; 8],
        })),
        "window icon: id=1 size=1x2 bytes=8"
    );
    assert_eq!(
        stdout(ClientEvent::CursorShape(CursorShape {
            cursor_id: 5,
            width: 1,
            height: 2,
            hotspot_x: 3,
            hotspot_y: 4,
            format: 1,
            data: vec![],
        })),
        "cursor shape: id=5 size=1x2 hotspot=(3,4)"
    );
    assert_eq!(
        stdout(ClientEvent::CursorPosition(CursorPosition {
            window_id: 1,
            x: -1,
            y: 2,
        })),
        "cursor position: window=1 pos=(-1,2)"
    );
    assert_eq!(
        stdout(ClientEvent::CursorVisibility(CursorVisibility {
            visible: false,
        })),
        "cursor visibility: visible=false"
    );
    assert_eq!(
        stderr(ClientEvent::Error(Error {
            code: 6,
            message: "capture failed".into(),
        })),
        "oxclient: agent error 6: capture failed"
    );
    assert_eq!(
        stderr(ClientEvent::Closed(Close { reason: 1 })),
        "oxclient: agent closed the session (reason=1)"
    );
}

#[test]
fn a_title_shown_in_quotes_is_put_into_the_line() {
    let window = WindowOpened {
        window_id: 3,
        video_channel: 16,
        pid: 1,
        app_id: "app.exe".into(),
        title: "ignored".into(),
        x: -1,
        y: 2,
        width: 10,
        height: 20,
        dpi: 96,
        flags: window_flag::TOPMOST,
        owner_id: 0,
    };
    assert_eq!(
        opened_line(&window, "<shown>"),
        "window opened: id=3 app_id=app.exe title=<shown> geometry=10x20+-1+2 flags=[topmost]"
    );
    assert_eq!(titled_line(3, "<shown>"), "window title: id=3 title=<shown>");
}

#[test]
fn only_some_frames_are_printed() {
    let frame = ClientEvent::Frame(FrameData {
        window_id: 1,
        frame_id: 9,
        codec: codec::H264,
        flags: 0,
        width: 1,
        height: 1,
        captured_us: 0,
        encoded_us: 0,
        data: vec![1, 2, 3],
    });
    let mut counts = HashMap::new();
    let printed: Vec<u64> = (1..=2 * FRAME_LOG_STRIDE)
        .filter(|_| describe_event(&frame, &mut counts).is_some())
        .collect();
    assert_eq!(printed, vec![1, FRAME_LOG_STRIDE, 2 * FRAME_LOG_STRIDE]);
    assert_eq!(
        describe_event(&frame, &mut HashMap::new()),
        Some(Line::Stdout(
            "frame: id=9 window=1 codec=2 bytes=3 keyframe=false".to_string()
        ))
    );
}

#[test]
fn a_session_is_announced() {
    assert_eq!(
        connected_line(1, 0xbeef, 2, 0b1011),
        "oxclient: connected: protocol v1 session=0xbeef codec=2 features=0xb"
    );
}

#[test]
fn decode_errors_read_well() {
    assert_eq!(
        DecodeError::UnsupportedCodec(9).message(),
        "no decoder for codec 9"
    );
    assert_eq!(
        DecodeError::Init {
            codec: 2,
            detail: "no".to_string()
        }
        .message(),
        "codec 2 failed to initialise: no"
    );
    assert_eq!(
        DecodeError::PayloadLength {
            expected: 32,
            actual: 7
        }
        .message(),
        "frame payload does not match its geometry: expected 32 bytes, got 7"
    );
    assert_eq!(
        DecodeError::Geometry {
            width: 0,
            height: 2
        }
        .message(),
        "unusable frame geometry 0x2"
    );
    assert_eq!(
        DecodeError::Bitstream("bad".to_string()).message(),
        "bitstream rejected: bad"
    );
}

#[test]
fn numbers_are_written_out() {
    assert_eq!(decimal_text(0), "0");
    assert_eq!(decimal_text(u64::MAX), "18446744073709551615");
    let mut out = String::new();
    push_signed(&mut out, i64::MIN);
    assert_eq!(out, "-9223372036854775808");
    let mut out = String::new();
    push_hex(&mut out, 0xDEAD);
    push_hex_byte(&mut out, 5);
    assert_eq!(out, "0xdead0x05");
    let mut out = String::new();
    push_right_aligned(&mut out, "ab", 4);
    push_right_aligned(&mut out, "abcdef", 4);
    assert_eq!(out, "  ababcdef");
    assert_eq!(join(&vec!["a".to_string(), "b".to_string()], ", "), "a, b");
    assert_eq!(join(&vec![], ", "), "");
}
