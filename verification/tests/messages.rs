//! Message bodies survive the wire.

use oxrdp::proto::message::input::{
    cursor_format, key_flag, lock_state, modifier, pointer_button, window_action,
};
use oxrdp::proto::message::window::{frame_flag, window_flag, window_show};
use oxrdp::proto::message::{
    ClientHello, Close, CursorPosition, CursorShape, CursorVisibility, DisplayLayout, Error,
    FrameAck, FrameData, KeyEvent, ModifierSync, Output, Ping, PointerEvent, Pong, QualityHint,
    ServerHello, TextInput, WindowClosed, WindowControl, WindowGeometry, WindowIcon, WindowOpened,
    WindowState, WindowTitle, WindowZOrder,
};
use oxrdp::proto::pdu::{decode, encode_vec, Encode};

fn layout() -> DisplayLayout {
    DisplayLayout {
        outputs: vec![
            Output {
                id: 0,
                x: 0,
                y: 0,
                width: 1920,
                height: 1080,
                scale_num: 1,
                scale_den: 1,
                refresh_mhz: 60_000,
            },
            Output {
                id: 1,
                x: 1920,
                y: -120,
                width: 2560,
                height: 1440,
                scale_num: 3,
                scale_den: 2,
                refresh_mhz: 143_980,
            },
        ],
    }
}

#[test]
fn output_and_layout_round_trip() {
    let l = layout();
    let bytes = encode_vec(&l).unwrap();
    assert_eq!(bytes.len(), l.size());
    assert_eq!(bytes.len(), 1 + 2 * 21);
    assert_eq!(decode::<DisplayLayout>(&bytes).unwrap(), l);
}

#[test]
fn control_client_hello_round_trip() {
    let m = ClientHello {
        version_min: 1,
        version_max: 1,
        features: 0b1011,
        auth_token: "s3cret".into(),
        client_name: "oxclient".into(),
        codecs: vec![2, 1],
        display: layout(),
    };
    let bytes = encode_vec(&m).unwrap();
    assert_eq!(bytes.len(), m.size());
    assert_eq!(decode::<ClientHello>(&bytes).unwrap(), m);
}

#[test]
fn control_server_hello_round_trip() {
    let m = ServerHello {
        version: 1,
        features: 0b11,
        session_id: 0xDEAD_BEEF_CAFE_0001,
        codec: 1,
    };
    let bytes = encode_vec(&m).unwrap();
    assert_eq!(bytes.len(), 19);
    assert_eq!(decode::<ServerHello>(&bytes).unwrap(), m);
}

#[test]
fn small_control_messages_round_trip() {
    let e = Error {
        code: 2,
        message: "auth failed".into(),
    };
    assert_eq!(decode::<Error>(&encode_vec(&e).unwrap()).unwrap(), e);

    let c = Close { reason: 1 };
    assert_eq!(decode::<Close>(&encode_vec(&c).unwrap()).unwrap(), c);

    let p = Ping {
        seq: 7,
        sent_us: 1_234_567_890,
    };
    assert_eq!(encode_vec(&p).unwrap().len(), 12);
    assert_eq!(decode::<Ping>(&encode_vec(&p).unwrap()).unwrap(), p);

    let q = Pong {
        seq: 7,
        sent_us: 1_234_567_890,
        agent_us: 9_876_543_210,
    };
    assert_eq!(encode_vec(&q).unwrap().len(), 20);
    assert_eq!(decode::<Pong>(&encode_vec(&q).unwrap()).unwrap(), q);

    let h = QualityHint {
        window_id: 0,
        target_fps: 60,
        max_bitrate_kbps: 20_000,
        flags: 1,
    };
    assert_eq!(encode_vec(&h).unwrap().len(), 11);
    assert_eq!(decode::<QualityHint>(&encode_vec(&h).unwrap()).unwrap(), h);
}

#[test]
fn u64_is_little_endian() {
    let p = Ping {
        seq: 0,
        sent_us: 0x0102_0304_0506_0708,
    };
    let bytes = encode_vec(&p).unwrap();
    assert_eq!(
        &bytes[4..12],
        &[0x08, 0x07, 0x06, 0x05, 0x04, 0x03, 0x02, 0x01]
    );
}

#[test]
fn input_pointer_event_round_trip() {
    let m = PointerEvent {
        window_id: 7,
        x: -12,
        y: 340,
        buttons: pointer_button::LEFT | pointer_button::X2,
        wheel_x: 0,
        wheel_y: -120,
        timestamp: 987_654_321,
    };
    let bytes = encode_vec(&m).unwrap();
    assert_eq!(bytes.len(), 25);
    assert_eq!(decode::<PointerEvent>(&bytes).unwrap(), m);
}

#[test]
fn key_event_round_trip() {
    let m = KeyEvent {
        scancode: 0x1C,
        flags: key_flag::PRESSED | key_flag::EXTENDED,
        timestamp: 42,
    };
    let bytes = encode_vec(&m).unwrap();
    assert_eq!(bytes.len(), 11);
    assert!(m.is_pressed());
    assert_eq!(decode::<KeyEvent>(&bytes).unwrap(), m);

    let up = KeyEvent {
        scancode: 0x1C,
        flags: 0,
        timestamp: 43,
    };
    assert!(!up.is_pressed());
}

#[test]
fn text_and_modifiers_round_trip() {
    let t = TextInput {
        text: "한글 입력".into(),
    };
    assert_eq!(decode::<TextInput>(&encode_vec(&t).unwrap()).unwrap(), t);

    let m = ModifierSync {
        modifiers: modifier::SHIFT | modifier::CTRL,
        locks: lock_state::CAPS,
    };
    assert_eq!(encode_vec(&m).unwrap().len(), 3);
    assert_eq!(decode::<ModifierSync>(&encode_vec(&m).unwrap()).unwrap(), m);
}

#[test]
fn window_control_round_trip() {
    let m = WindowControl {
        window_id: 7,
        action: window_action::RESIZE,
        x: 0,
        y: 0,
        width: 1280,
        height: 720,
    };
    let bytes = encode_vec(&m).unwrap();
    assert_eq!(bytes.len(), 17);
    assert_eq!(decode::<WindowControl>(&bytes).unwrap(), m);
}

#[test]
fn cursor_messages_round_trip() {
    let s = CursorShape {
        cursor_id: 3,
        width: 2,
        height: 2,
        hotspot_x: 0,
        hotspot_y: 1,
        format: cursor_format::BGRA_PREMUL,
        data: vec![9u8; 16],
    };
    let bytes = encode_vec(&s).unwrap();
    assert_eq!(bytes.len(), s.size());
    assert_eq!(decode::<CursorShape>(&bytes).unwrap(), s);

    let p = CursorPosition {
        window_id: 7,
        x: 5,
        y: -9,
    };
    assert_eq!(encode_vec(&p).unwrap().len(), 12);
    assert_eq!(
        decode::<CursorPosition>(&encode_vec(&p).unwrap()).unwrap(),
        p
    );

    let v = CursorVisibility { visible: false };
    assert_eq!(encode_vec(&v).unwrap(), vec![0u8]);
    assert_eq!(
        decode::<CursorVisibility>(&[1]).unwrap(),
        CursorVisibility { visible: true }
    );
}

#[test]
fn negative_coordinates_survive() {
    let m = CursorPosition {
        window_id: 0,
        x: i32::MIN,
        y: -1,
    };
    assert_eq!(
        decode::<CursorPosition>(&encode_vec(&m).unwrap()).unwrap(),
        m
    );
}

#[test]
fn window_opened_round_trip() {
    let m = WindowOpened {
        window_id: 42,
        video_channel: 16,
        pid: 1234,
        app_id: "notepad.exe".into(),
        title: "Untitled - Notepad".into(),
        x: -100,
        y: 50,
        width: 800,
        height: 600,
        dpi: 144,
        flags: window_flag::RESIZABLE | window_flag::HAS_FRAME,
        owner_id: 0,
    };
    let bytes = encode_vec(&m).unwrap();
    assert_eq!(bytes.len(), m.size());
    assert_eq!(decode::<WindowOpened>(&bytes).unwrap(), m);
}

#[test]
fn window_events_round_trip() {
    let c = WindowClosed { window_id: 42 };
    assert_eq!(decode::<WindowClosed>(&encode_vec(&c).unwrap()).unwrap(), c);

    let g = WindowGeometry {
        window_id: 42,
        x: -5,
        y: 7,
        width: 1024,
        height: 768,
    };
    assert_eq!(encode_vec(&g).unwrap().len(), 16);
    assert_eq!(
        decode::<WindowGeometry>(&encode_vec(&g).unwrap()).unwrap(),
        g
    );

    let t = WindowTitle {
        window_id: 42,
        title: "새 문서".into(),
    };
    assert_eq!(decode::<WindowTitle>(&encode_vec(&t).unwrap()).unwrap(), t);

    let s = WindowState {
        window_id: 42,
        state: window_show::MAXIMIZED,
        flags: window_flag::MAXIMIZED,
    };
    assert_eq!(encode_vec(&s).unwrap().len(), 9);
    assert_eq!(decode::<WindowState>(&encode_vec(&s).unwrap()).unwrap(), s);

    let z = WindowZOrder {
        window_id: 42,
        above_window_id: 7,
    };
    assert_eq!(encode_vec(&z).unwrap().len(), 8);
    assert_eq!(decode::<WindowZOrder>(&encode_vec(&z).unwrap()).unwrap(), z);

    let i = WindowIcon {
        window_id: 42,
        width: 2,
        height: 2,
        bgra: vec![1, 2, 3, 4, 5, 6, 7, 8, 9, 10, 11, 12, 13, 14, 15, 16],
    };
    assert_eq!(encode_vec(&i).unwrap().len(), i.size());
    assert_eq!(decode::<WindowIcon>(&encode_vec(&i).unwrap()).unwrap(), i);
}

#[test]
fn window_frame_data_round_trip() {
    let m = FrameData {
        window_id: 42,
        frame_id: 9_000_000_001,
        codec: 1,
        flags: frame_flag::KEYFRAME,
        width: 800,
        height: 600,
        captured_us: 111_222_333,
        encoded_us: 111_222_999,
        data: vec![0xAB; 64],
    };
    let bytes = encode_vec(&m).unwrap();
    assert_eq!(bytes.len(), m.size());
    assert_eq!(bytes.len(), 4 + 8 + 1 + 1 + 2 + 2 + 8 + 8 + 4 + 64);
    assert!(m.is_keyframe());
    assert_eq!(decode::<FrameData>(&bytes).unwrap(), m);
}

#[test]
fn frame_ack_round_trip() {
    let m = FrameAck {
        window_id: 42,
        frame_id: 9_000_000_001,
        decoded_us: 5,
        presented_us: 9,
    };
    let bytes = encode_vec(&m).unwrap();
    assert_eq!(bytes.len(), 28);
    assert_eq!(decode::<FrameAck>(&bytes).unwrap(), m);
}

#[test]
fn empty_frame_payload_is_valid() {
    let m = FrameData {
        window_id: 1,
        frame_id: 0,
        codec: 1,
        flags: 0,
        width: 0,
        height: 0,
        captured_us: 0,
        encoded_us: 0,
        data: Vec::new(),
    };
    assert_eq!(decode::<FrameData>(&encode_vec(&m).unwrap()).unwrap(), m);
}
