//! What the session task does about events, and what the agent is told.

use oxrdp::client::decode::pipeline::{DroppedFrame, FrameReport, StreamDecoders, Worker};
use oxrdp::client::clock::ClientClock;
use oxrdp::client::driver::{
    codec_refusal, frame_ack, handle_display_event, handle_event, handle_report, Action,
};
use oxrdp::client::event::ClientEvent;
use oxrdp::client::geometry::{GeometrySync, SETTLE};
use oxrdp::client::latency::LatencyMonitor;
use oxrdp::client::model::WindowModel;
use oxrdp::display::{DisplayCommand, DisplayEvent};
use oxrdp::proto::channel;
use oxrdp::proto::message::input::{key_flag, window_action};
use oxrdp::proto::message::window::{frame_flag, window_flag};
use oxrdp::proto::message::{
    codec, feature, Close, FrameData, Message, WindowClosed, WindowControl, WindowGeometry,
    WindowOpened,
};

/// One second, in the microseconds the session counts.
const SECOND: u64 = 1_000_000;

/// Some moment of the session, long after it began.
const NOW: u64 = 60 * SECOND;

fn opened(window_id: u32, x: i32, y: i32, width: u16, height: u16, flags: u32) -> ClientEvent {
    ClientEvent::WindowOpened(WindowOpened {
        window_id,
        video_channel: channel::VIDEO_BASE,
        pid: 1,
        app_id: "app.exe".into(),
        title: "app".into(),
        x,
        y,
        width,
        height,
        dpi: 96,
        flags,
        owner_id: 0,
    })
}

fn model_with(
    window_id: u32,
    x: i32,
    y: i32,
    width: u16,
    height: u16,
    flags: u32,
) -> WindowModel {
    let mut model = WindowModel::new();
    model.apply(opened(window_id, x, y, width, height, flags));
    model
}

/// A tracker for a window the host WM has already placed at `placed`, long enough ago that
/// the settling window has closed by now.
fn settled_geometry(
    window_id: u32,
    guest: (i32, i32),
    size: (u16, u16),
    placed: (i32, i32),
) -> GeometrySync {
    let past = NOW - SETTLE - SECOND;
    let mut geometry = GeometrySync::new();
    geometry.created(past, window_id, guest.0, guest.1, size);
    // Placement while settling, then the first post-settling report that becomes the
    // anchor. Both silent; only a later report can be a gesture.
    assert_eq!(geometry.moved(past, window_id, placed.0, placed.1), None);
    assert_eq!(
        geometry.moved(past + SETTLE + 1_000, window_id, placed.0, placed.1),
        None
    );
    geometry
}

/// Feeds one display event in and returns what the agent is told.
fn tell(
    features: u64,
    model: &WindowModel,
    geometry: &mut GeometrySync,
    event: DisplayEvent,
) -> Option<Message> {
    handle_display_event(
        features,
        model,
        geometry,
        &mut LatencyMonitor::disabled(),
        event,
        NOW,
        None,
    )
}

fn control(message: Option<Message>) -> WindowControl {
    match message {
        Some(Message::WindowControl(control)) => control,
        other => panic!("expected WindowControl, got {other:?}"),
    }
}

/// Connecting must not rearrange the guest: the host window manager places and sizes every
/// native window as it is created, and forwarding those events would move guest windows off
/// their desktop.
#[test]
fn a_freshly_created_window_sends_no_geometry_to_the_agent() {
    let model = model_with(1, 100, 200, 800, 600, window_flag::RESIZABLE);
    let mut geometry = GeometrySync::new();
    geometry.created(NOW, 1, 100, 200, (800, 600));

    for event in [
        DisplayEvent::MoveRequested {
            window_id: 1,
            x: 3257,
            y: 2262,
        },
        DisplayEvent::ResizeRequested {
            window_id: 1,
            width: 122,
            height: 47,
        },
    ] {
        assert_eq!(
            tell(feature::WINDOW_CONTROL, &model, &mut geometry, event),
            None,
            "the WM's placement must not have reached the agent"
        );
    }
    // A close request always does.
    assert_eq!(
        control(tell(
            feature::WINDOW_CONTROL,
            &model,
            &mut geometry,
            DisplayEvent::CloseRequested { window_id: 1 }
        ))
        .action,
        window_action::CLOSE
    );
}

#[test]
fn a_non_resizable_window_never_sends_a_resize() {
    // charmap: a fixed-size dialog.
    let model = model_with(1, 100, 200, 322, 197, window_flag::HAS_FRAME);
    let mut geometry = settled_geometry(1, (100, 200), (322, 197), (259, 2262));

    assert_eq!(
        tell(
            feature::WINDOW_CONTROL,
            &model,
            &mut geometry,
            DisplayEvent::ResizeRequested {
                window_id: 1,
                width: 1,
                height: 52,
            },
        ),
        None,
        "a fixed-size window must never be asked to resize"
    );
    assert_eq!(
        control(tell(
            feature::WINDOW_CONTROL,
            &model,
            &mut geometry,
            DisplayEvent::CloseRequested { window_id: 1 }
        ))
        .action,
        window_action::CLOSE
    );
}

#[test]
fn a_user_drag_sends_a_guest_space_move() {
    let model = model_with(1, 100, 200, 800, 600, window_flag::RESIZABLE);
    // The window sits at guest (100,200) but at host (3257,2262) on a multi-monitor desktop.
    let mut geometry = settled_geometry(1, (100, 200), (800, 600), (3257, 2262));

    let control = control(tell(
        feature::WINDOW_CONTROL,
        &model,
        &mut geometry,
        DisplayEvent::MoveRequested {
            window_id: 1,
            x: 3297,
            y: 2247,
        },
    ));
    assert_eq!(control.action, window_action::MOVE);
    // The guest is told about the displacement applied to its own position, never about a
    // host screen coordinate it has no room for.
    assert_eq!((control.x, control.y), (140, 185));
}

#[test]
fn a_user_resize_of_a_resizable_window_reaches_the_agent() {
    let model = model_with(1, 100, 200, 800, 600, window_flag::RESIZABLE);
    let mut geometry = settled_geometry(1, (100, 200), (800, 600), (100, 200));
    // A resize needs a post-settling baseline before a later, different size is intent.
    assert_eq!(
        geometry.resized(NOW, &model, 1, 800, 600),
        None,
        "the first size after settling is a baseline"
    );

    let control = control(tell(
        feature::WINDOW_CONTROL,
        &model,
        &mut geometry,
        DisplayEvent::ResizeRequested {
            window_id: 1,
            width: 1024,
            height: 768,
        },
    ));
    assert_eq!(control.action, window_action::RESIZE);
    assert_eq!((control.width, control.height), (1024, 768));
}

/// What reaches the agent for one display event on a session with `features`.
fn wire_effect(features: u64, event: DisplayEvent) -> Option<Message> {
    let model = model_with(7, 0, 0, 800, 600, window_flag::RESIZABLE);
    tell(features, &model, &mut GeometrySync::new(), event)
}

/// A keystroke has to reach the agent, with a scancode that is not silently zero.
#[test]
fn a_key_press_reaches_the_agent_with_its_scancode() {
    let sent = wire_effect(
        feature::WINDOW_CONTROL,
        // 0x1e is `A` in PS/2 set 1.
        DisplayEvent::Key {
            scancode: 0x1e,
            pressed: true,
            extended: false,
        },
    )
    .expect("a key press must reach the agent");

    match sent {
        Message::KeyEvent(key) => {
            assert_eq!(key.scancode, 0x1e, "the scancode must survive intact");
            assert_ne!(
                key.scancode, 0,
                "a zero scancode types nothing on the guest"
            );
            assert_eq!(key.flags & key_flag::PRESSED, key_flag::PRESSED);
            assert_eq!(key.flags & key_flag::EXTENDED, 0);
        }
        other => panic!("expected KeyEvent, got {:#04x}", other.msg_type()),
    }
}

#[test]
fn a_key_release_and_the_extended_bit_survive() {
    let sent = wire_effect(
        feature::WINDOW_CONTROL,
        // Right-hand Ctrl: an E0-prefixed key, released.
        DisplayEvent::Key {
            scancode: 0x1d,
            pressed: false,
            extended: true,
        },
    )
    .expect("a key release must reach the agent");

    match sent {
        Message::KeyEvent(key) => {
            assert_eq!(key.scancode, 0x1d);
            assert_eq!(key.flags & key_flag::PRESSED, 0, "this is a release");
            assert_eq!(key.flags & key_flag::EXTENDED, key_flag::EXTENDED);
        }
        other => panic!("expected KeyEvent, got {:#04x}", other.msg_type()),
    }
}

#[test]
fn a_pointer_click_reaches_the_agent_window_relative() {
    let sent = wire_effect(
        feature::WINDOW_CONTROL,
        DisplayEvent::Pointer {
            window_id: 7,
            x: 475,
            y: 269,
            buttons: 1,
            wheel_x: 0,
            wheel_y: 3,
        },
    )
    .expect("a click must reach the agent");

    match sent {
        Message::PointerEvent(pointer) => {
            assert_eq!(pointer.window_id, 7, "addressed to the window under it");
            assert_eq!((pointer.x, pointer.y), (475, 269));
            assert_eq!(pointer.buttons, 1, "the button bit must be set");
            assert_eq!((pointer.wheel_x, pointer.wheel_y), (0, 3));
        }
        other => panic!("expected PointerEvent, got {:#04x}", other.msg_type()),
    }
}

#[test]
fn modifier_state_reaches_the_agent() {
    let sent = wire_effect(
        feature::WINDOW_CONTROL,
        DisplayEvent::Modifiers {
            modifiers: 0b0000_0101,
            locks: 0b0000_0010,
        },
    )
    .expect("modifier state must reach the agent");

    match sent {
        Message::ModifierSync(sync) => {
            assert_eq!(sync.modifiers, 0b0000_0101);
            assert_eq!(sync.locks, 0b0000_0010);
        }
        other => panic!("expected ModifierSync, got {:#04x}", other.msg_type()),
    }
}

#[test]
fn text_input_reaches_the_agent_only_when_negotiated() {
    let with = wire_effect(
        feature::WINDOW_CONTROL | feature::TEXT_INPUT,
        DisplayEvent::Text {
            text: "한글".to_string(),
        },
    )
    .expect("text must reach the agent when the feature is negotiated");

    match with {
        Message::TextInput(input) => assert_eq!(input.text, "한글"),
        other => panic!("expected TextInput, got {:#04x}", other.msg_type()),
    }

    // Without the feature the client must stay silent rather than send a message the agent
    // never agreed to handle.
    let without = wire_effect(
        feature::WINDOW_CONTROL,
        DisplayEvent::Text {
            text: "한글".to_string(),
        },
    );
    assert!(without.is_none(), "text must not be sent unnegotiated");
}

#[test]
fn focus_and_minimizing_are_window_controls() {
    let activated = control(wire_effect(
        feature::WINDOW_CONTROL,
        DisplayEvent::Focused {
            window_id: 7,
            focused: true,
        },
    ));
    assert_eq!(activated.action, window_action::ACTIVATE);
    assert_eq!(
        wire_effect(
            feature::WINDOW_CONTROL,
            DisplayEvent::Focused {
                window_id: 7,
                focused: false,
            },
        ),
        None
    );
    for (minimized, action) in [
        (true, window_action::MINIMIZE),
        (false, window_action::RESTORE),
    ] {
        let event = DisplayEvent::Minimized {
            window_id: 7,
            minimized,
        };
        assert_eq!(
            control(wire_effect(feature::WINDOW_CONTROL, event.clone())).action,
            action
        );
        assert_eq!(wire_effect(0, event), None, "not without the feature");
    }
    assert_eq!(
        wire_effect(
            u64::MAX,
            DisplayEvent::BackendError {
                message: "lost".to_string(),
            },
        ),
        None
    );
}

fn raw_frame(window_id: u32, frame_id: u64) -> FrameData {
    FrameData {
        window_id,
        frame_id,
        codec: codec::RAW_BGRA,
        flags: frame_flag::KEYFRAME,
        width: 2,
        height: 2,
        captured_us: frame_id,
        encoded_us: frame_id,
        data: vec![0x20; 2 * 2 * 4],
    }
}

/// A frame that produced no picture still has to be acknowledged: the agent's in-flight budget
/// applies to it as to any other, and a frame swallowed silently would hold a slot in that
/// budget forever.
#[test]
fn headless_acknowledges_a_frame_it_could_not_decode() {
    // A RAW_BGRA frame whose payload is too short for its geometry: the decoder rejects it, so
    // nothing is ever presented for it.
    let mut broken = raw_frame(1, 9);
    broken.data.truncate(3);

    let mut worker = Worker::new(1);
    let (taken, report) = worker.handle(broken, &StreamDecoders, ClientClock::new());
    assert!(taken.is_err(), "the decoder rejects it");

    let ack = handle_report(
        feature::FRAME_ACK,
        &mut LatencyMonitor::disabled(),
        report,
    )
    .expect("an undecodable frame must still be acknowledged");
    match ack {
        Message::FrameAck(ack) => assert_eq!((ack.window_id, ack.frame_id), (1, 9)),
        other => panic!("expected FrameAck, got {:#04x}", other.msg_type()),
    }
}

/// A frame being decoded must not delay input: the session task only passes frames on, so an
/// input event is answered whatever state any decoder is in.
#[test]
fn input_reaches_the_agent_while_decode_is_blocked() {
    let mut model = WindowModel::new();
    let mut geometry = GeometrySync::new();
    let mut latency = LatencyMonitor::disabled();
    handle_event(
        &mut model,
        &mut geometry,
        &mut latency,
        opened(1, 0, 0, 2, 2, window_flag::RESIZABLE),
        NOW,
    );

    // Comfortably more frames than a worker's queue holds, none of them decoded yet.
    for frame_id in 0..16 {
        assert_eq!(
            handle_event(
                &mut model,
                &mut geometry,
                &mut latency,
                ClientEvent::Frame(raw_frame(1, frame_id)),
                NOW,
            ),
            vec![Action::Decode(raw_frame(1, frame_id))]
        );
    }

    let pointer = tell(
        feature::WINDOW_CONTROL,
        &model,
        &mut geometry,
        DisplayEvent::Pointer {
            window_id: 1,
            x: 42,
            y: 24,
            buttons: 1,
            wheel_x: 0,
            wheel_y: 0,
        },
    )
    .expect("input must not wait for decode");

    match pointer {
        Message::PointerEvent(event) => {
            assert_eq!((event.x, event.y), (42, 24));
            assert_eq!(event.buttons, 1);
        }
        other => panic!("expected PointerEvent, got {:#04x}", other.msg_type()),
    }
}

#[test]
fn a_decoded_frame_is_acknowledged_only_once_it_is_presented() {
    let mut latency = LatencyMonitor::enabled();
    latency.on_arrival(1, 3, 100, 200, 1_000);
    assert_eq!(
        handle_report(
            feature::FRAME_ACK,
            &mut latency,
            FrameReport::Decoded {
                window_id: 1,
                frame_id: 3,
                decoded_us: 1_500,
            },
        ),
        None
    );
    let model = model_with(1, 0, 0, 800, 600, 0);
    let sent = handle_display_event(
        feature::FRAME_ACK,
        &model,
        &mut GeometrySync::new(),
        &mut latency,
        DisplayEvent::Presented {
            window_id: 1,
            frame_id: 3,
            decoded_us: 1_500,
            presented_us: 1_700,
        },
        NOW,
        Some(0),
    );
    match sent {
        Some(Message::FrameAck(ack)) => {
            assert_eq!((ack.window_id, ack.frame_id), (1, 3));
            assert_eq!((ack.decoded_us, ack.presented_us), (1_500, 1_700));
        }
        other => panic!("expected FrameAck, got {other:?}"),
    }
    let window = latency.window(1).expect("the window was measured");
    assert_eq!(window.presented, 1);
    assert_eq!(window.client.last(), Some(700));
    assert_eq!(window.total.last(), Some(1_600));
}

#[test]
fn a_dropped_frame_is_acknowledged_only_if_that_was_agreed_on() {
    let dropped = FrameReport::Dropped(DroppedFrame {
        window_id: 4,
        frame_id: 5,
        finished_us: 6,
    });
    let mut latency = LatencyMonitor::disabled();
    assert_eq!(handle_report(0, &mut latency, dropped), None);
    match handle_report(feature::FRAME_ACK, &mut latency, dropped) {
        Some(Message::FrameAck(ack)) => {
            assert_eq!((ack.window_id, ack.frame_id), (4, 5));
            assert_eq!((ack.decoded_us, ack.presented_us), (6, 6));
        }
        other => panic!("expected FrameAck, got {other:?}"),
    }
    assert_eq!(frame_ack(0, 1, 2, 3, 4), None);
}

#[test]
fn a_window_is_created_moved_and_forgotten() {
    let mut model = WindowModel::new();
    let mut geometry = GeometrySync::new();
    let mut latency = LatencyMonitor::enabled();
    let actions = handle_event(
        &mut model,
        &mut geometry,
        &mut latency,
        opened(1, 10, 20, 300, 200, window_flag::RESIZABLE),
        NOW,
    );
    match actions.as_slice() {
        [Action::Display(DisplayCommand::CreateWindow(window))] => {
            assert_eq!((window.x, window.y), (10, 20));
            assert_eq!((window.width, window.height), (300, 200));
        }
        other => panic!("expected a window, got {other:?}"),
    }
    // What the WM does with the new window is silent.
    assert_eq!(geometry.moved(NOW, 1, 500, 500), None);

    let moved = handle_event(
        &mut model,
        &mut geometry,
        &mut latency,
        ClientEvent::WindowGeometry(WindowGeometry {
            window_id: 1,
            x: 11,
            y: 20,
            width: 300,
            height: 200,
        }),
        NOW,
    );
    assert!(matches!(
        moved.as_slice(),
        [Action::Display(DisplayCommand::MoveWindow(_))]
    ));

    assert_eq!(
        handle_event(
            &mut model,
            &mut geometry,
            &mut latency,
            ClientEvent::WindowClosed(WindowClosed { window_id: 1 }),
            NOW,
        ),
        vec![
            Action::Forget(1),
            Action::Display(DisplayCommand::DestroyWindow(1))
        ]
    );
    assert_eq!(geometry.moved(NOW + SETTLE + 1, 1, 900, 900), None);
}

#[test]
fn a_closed_session_stops() {
    let actions = handle_event(
        &mut WindowModel::new(),
        &mut GeometrySync::new(),
        &mut LatencyMonitor::disabled(),
        ClientEvent::Closed(Close { reason: 0 }),
        NOW,
    );
    assert_eq!(actions.last(), Some(&Action::Stop));
}

#[test]
fn a_codec_that_was_not_offered_is_refused() {
    assert_eq!(codec_refusal(codec::RAW_BGRA), None);
    assert_eq!(codec_refusal(codec::H264), None);
    assert_eq!(
        codec_refusal(codec::AV1),
        Some(
            "agent selected codec 4 which this client cannot decode (advertised [2, 1])"
                .to_string()
        )
    );
}
