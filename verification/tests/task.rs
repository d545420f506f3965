//! The session task as a state machine.

use oxrdp::client::clock::ClientClock;
use oxrdp::client::decode::pipeline::{DroppedFrame, FrameReport};
use oxrdp::client::describe::Line;
use oxrdp::client::driver::{farewell, session_config, Action};
use oxrdp::client::event::ClientEvent;
use oxrdp::client::headless::HeadlessTask;
use oxrdp::client::latency::LatencyMonitor;
use oxrdp::client::task::{Happening, Known, SessionTask};
use oxrdp::display::{DisplayCommand, DisplayEvent};
use oxrdp::proto::message::window::frame_flag;
use oxrdp::proto::message::{
    close_reason, codec, error_code, feature, Close, Error, FrameData, Message, WindowClosed,
    WindowOpened,
};

const KNOWN: Known = Known {
    features: feature::FRAME_ACK,
    rtt_us: None,
    offset_us: Some(0),
};

fn frame(frame_id: u64) -> FrameData {
    FrameData {
        window_id: 1,
        frame_id,
        codec: codec::RAW_BGRA,
        flags: frame_flag::KEYFRAME,
        width: 1,
        height: 1,
        captured_us: 10,
        encoded_us: 20,
        data: vec![0; 4],
    }
}

fn opened() -> ClientEvent {
    ClientEvent::WindowOpened(WindowOpened {
        window_id: 1,
        video_channel: 16,
        pid: 1,
        app_id: "app.exe".into(),
        title: "a \"title\"".into(),
        x: 0,
        y: 0,
        width: 2,
        height: 2,
        dpi: 96,
        flags: 0,
        owner_id: 0,
    })
}

#[test]
fn a_held_frame_stops_reading_until_there_is_room() {
    let mut task = SessionTask::new(LatencyMonitor::disabled());
    task.step(Happening::Agent(opened()), KNOWN, 0);
    assert!(task.reads());
    assert_eq!(
        task.step(Happening::Agent(ClientEvent::Frame(frame(1))), KNOWN, 0),
        vec![Action::Decode(frame(1))]
    );
    // The worker had no room for it.
    assert_eq!(task.step(Happening::Full(frame(1)), KNOWN, 0), vec![]);
    assert!(!task.reads());
    // Everything else keeps going.
    assert_eq!(
        task.step(Happening::PingDue, KNOWN, 0),
        vec![Action::Ping]
    );
    let sent = task.step(
        Happening::Display(DisplayEvent::Modifiers {
            modifiers: 1,
            locks: 0,
        }),
        KNOWN,
        0,
    );
    assert!(matches!(
        sent.as_slice(),
        [Action::Send(Message::ModifierSync(_))]
    ));
    assert!(!task.reads());
    assert_eq!(
        task.step(Happening::Room(true), KNOWN, 0),
        vec![Action::Decode(frame(1))]
    );
    assert!(task.reads());
}

#[test]
fn a_held_frame_goes_with_its_worker() {
    let mut task = SessionTask::new(LatencyMonitor::disabled());
    task.step(Happening::Full(frame(1)), KNOWN, 0);
    assert_eq!(task.step(Happening::Room(false), KNOWN, 0), vec![]);
    assert!(task.reads());
}

#[test]
fn a_lost_agent_shuts_the_display_down() {
    let mut task = SessionTask::new(LatencyMonitor::disabled());
    assert_eq!(
        task.step(Happening::AgentGone, KNOWN, 0),
        vec![Action::Display(DisplayCommand::Shutdown), Action::Stop]
    );
    assert_eq!(
        task.step(Happening::Abandoned, KNOWN, 0),
        vec![Action::Stop]
    );
}

#[test]
fn reports_and_errors_are_printed() {
    let mut task = SessionTask::new(LatencyMonitor::enabled());
    assert_eq!(task.step(Happening::ReportDue, KNOWN, 0), vec![]);
    task.step(Happening::Agent(opened()), KNOWN, 0);
    task.step(Happening::Agent(ClientEvent::Frame(frame(1))), KNOWN, 100);
    task.step(
        Happening::Finished(FrameReport::Decoded {
            window_id: 1,
            frame_id: 1,
            decoded_us: 150,
        }),
        KNOWN,
        160,
    );
    task.step(
        Happening::Display(DisplayEvent::Presented {
            window_id: 1,
            frame_id: 1,
            decoded_us: 150,
            presented_us: 200,
        }),
        KNOWN,
        200,
    );
    match task.step(Happening::ReportDue, KNOWN, 300).as_slice() {
        [Action::Print(report)] => {
            assert!(report.contains("window 1: 1 presented, 0 never presented"));
            assert_eq!(Some(report.clone()), task.report(KNOWN));
        }
        other => panic!("expected a report, got {other:?}"),
    }
    assert_eq!(
        task.step(
            Happening::Display(DisplayEvent::BackendError {
                message: "lost".to_string(),
            }),
            KNOWN,
            0
        ),
        vec![Action::Print(
            "oxclient: display backend error: lost\n".to_string()
        )]
    );
    let dropped = task.step(
        Happening::Finished(FrameReport::Dropped(DroppedFrame {
            window_id: 1,
            frame_id: 8,
            finished_us: 9,
        })),
        KNOWN,
        0,
    );
    assert!(matches!(
        dropped.as_slice(),
        [Action::Send(Message::FrameAck(ack))] if ack.frame_id == 8
    ));
}

#[test]
fn a_disabled_monitor_has_nothing_to_report() {
    let mut task = SessionTask::new(LatencyMonitor::disabled());
    task.step(Happening::Agent(ClientEvent::Frame(frame(1))), KNOWN, 0);
    assert_eq!(task.report(KNOWN), None);
}

#[test]
fn a_session_without_windows_prints_decodes_and_acknowledges() {
    let mut task = HeadlessTask::new();
    let clock = ClientClock::new();
    let (lines, message) = task.step(opened(), feature::FRAME_ACK, clock);
    assert_eq!(
        lines,
        vec![Line::Stdout(
            "window opened: id=1 app_id=app.exe title=\"a \\\"title\\\"\" geometry=2x2+0+0 flags=[none]"
                .to_string()
        )]
    );
    assert_eq!(message, None);

    let (lines, message) = task.step(ClientEvent::Frame(frame(5)), feature::FRAME_ACK, clock);
    assert_eq!(
        lines,
        vec![Line::Stdout(
            "frame: id=5 window=1 codec=1 bytes=4 keyframe=true".to_string()
        )]
    );
    match message {
        Some(Message::FrameAck(ack)) => assert_eq!((ack.window_id, ack.frame_id), (1, 5)),
        other => panic!("expected FrameAck, got {other:?}"),
    }

    // The second frame is not printed, but its failure is, and it is acknowledged all the same.
    let mut broken = frame(6);
    broken.data.truncate(3);
    let (lines, message) = task.step(ClientEvent::Frame(broken), feature::FRAME_ACK, clock);
    assert_eq!(
        lines,
        vec![Line::Stderr(
            "oxclient: dropped frame 6 for window 1: frame payload does not match its geometry: expected 4 bytes, got 3"
                .to_string()
        )]
    );
    assert!(matches!(message, Some(Message::FrameAck(ack)) if ack.frame_id == 6));

    let (lines, message) = task.step(
        ClientEvent::WindowClosed(WindowClosed { window_id: 1 }),
        feature::FRAME_ACK,
        clock,
    );
    assert_eq!(lines, vec![Line::Stdout("window closed: id=1".to_string())]);
    assert_eq!(message, None);
}

#[test]
fn a_session_advertises_what_it_can_decode() {
    let config = session_config("token".to_string(), "me".to_string());
    assert_eq!(config.auth_token, "token");
    assert_eq!(config.client_name, "me");
    assert_eq!(config.codecs, vec![codec::H264, codec::RAW_BGRA]);
    assert_eq!(config.display.outputs.len(), 1);
    assert_eq!(
        (
            config.display.outputs[0].width,
            config.display.outputs[0].height
        ),
        (1920, 1080)
    );
}

#[test]
fn a_refusal_is_said_before_the_session_ends() {
    assert_eq!(
        farewell("no".to_string()),
        vec![
            Message::Error(Error {
                code: error_code::UNSUPPORTED_CODEC,
                message: "no".to_string(),
            }),
            Message::Close(Close {
                reason: close_reason::ERROR,
            })
        ]
    );
}
