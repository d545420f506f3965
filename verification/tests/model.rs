//! The client's model of the guest's windows.

use oxrdp::client::event::ClientEvent;
use oxrdp::client::model::{ModelChange, RemoteWindow, WindowModel};
use oxrdp::proto::message::codec;
use oxrdp::proto::message::window::{window_flag, window_show};
use oxrdp::proto::message::{
    Close, CursorPosition, CursorVisibility, Error as ProtoError, FrameData, WindowClosed,
    WindowGeometry, WindowOpened, WindowState, WindowTitle, WindowZOrder,
};

fn opened(id: u32, title: &str) -> ClientEvent {
    ClientEvent::WindowOpened(WindowOpened {
        window_id: id,
        video_channel: 16 + id as u16,
        pid: 1,
        app_id: "notepad.exe".into(),
        title: title.into(),
        x: 0,
        y: 0,
        width: 800,
        height: 600,
        dpi: 96,
        flags: 0,
        owner_id: 0,
    })
}

#[test]
fn opening_and_closing_a_window() {
    let mut m = WindowModel::new();
    assert_eq!(
        m.apply(opened(1, "Untitled")),
        vec![ModelChange::Created(1)]
    );
    assert_eq!(m.len(), 1);
    assert_eq!(m.get(1).unwrap().app_id, "notepad.exe");
    assert_eq!(m.stack(), &[1]);

    assert_eq!(
        m.apply(ClientEvent::WindowClosed(WindowClosed { window_id: 1 })),
        vec![ModelChange::Destroyed(1)]
    );
    assert!(m.is_empty());
    assert!(m.stack().is_empty());
}

#[test]
fn window_flags_are_decoded_for_the_backend() {
    let mut m = WindowModel::new();
    let mut ev = opened(1, "Tooltip");
    if let ClientEvent::WindowOpened(ref mut w) = ev {
        // A frameless, non-resizable, always-on-top window — a tooltip or a menu.
        w.flags = window_flag::TOPMOST;
    }
    m.apply(ev);
    let w = m.get(1).unwrap();
    assert!(w.topmost);
    assert!(
        !w.resizable,
        "a backend must not offer to resize a fixed window"
    );
    assert!(
        !w.has_frame,
        "a backend must not decorate a frameless window"
    );

    let mut ev = opened(2, "Editor");
    if let ClientEvent::WindowOpened(ref mut w) = ev {
        w.flags = window_flag::RESIZABLE | window_flag::HAS_FRAME;
    }
    m.apply(ev);
    let w = m.get(2).unwrap();
    assert!(w.resizable && w.has_frame && !w.topmost);
}

#[test]
fn a_duplicate_open_is_ignored() {
    let mut m = WindowModel::new();
    m.apply(opened(1, "a"));
    assert!(m.apply(opened(1, "b")).is_empty(), "no second Created");
    assert_eq!(m.len(), 1);
    assert_eq!(m.get(1).unwrap().title, "a", "the first mapping wins");
}

#[test]
fn events_for_unknown_windows_are_ignored() {
    let mut m = WindowModel::new();
    // A geometry update racing with a close must not fabricate a window.
    assert!(m
        .apply(ClientEvent::WindowGeometry(WindowGeometry {
            window_id: 9,
            x: 1,
            y: 2,
            width: 3,
            height: 4
        }))
        .is_empty());
    assert!(m
        .apply(ClientEvent::WindowClosed(WindowClosed { window_id: 9 }))
        .is_empty());
    assert!(m.is_empty());
}

#[test]
fn only_real_changes_produce_work() {
    let mut m = WindowModel::new();
    m.apply(opened(1, "Untitled"));

    // Same geometry as it opened with: nothing for the backend to do.
    assert!(m
        .apply(ClientEvent::WindowGeometry(WindowGeometry {
            window_id: 1,
            x: 0,
            y: 0,
            width: 800,
            height: 600
        }))
        .is_empty());
    assert_eq!(
        m.apply(ClientEvent::WindowGeometry(WindowGeometry {
            window_id: 1,
            x: 10,
            y: 20,
            width: 800,
            height: 600
        })),
        vec![ModelChange::Moved(1)]
    );
    assert_eq!((m.get(1).unwrap().x, m.get(1).unwrap().y), (10, 20));

    assert!(m
        .apply(ClientEvent::WindowTitle(WindowTitle {
            window_id: 1,
            title: "Untitled".into()
        }))
        .is_empty());
    assert_eq!(
        m.apply(ClientEvent::WindowTitle(WindowTitle {
            window_id: 1,
            title: "Saved".into()
        })),
        vec![ModelChange::Retitled(1)]
    );
}

#[test]
fn state_changes_track_minimize_and_maximize() {
    let mut m = WindowModel::new();
    m.apply(opened(1, "w"));
    assert_eq!(
        m.apply(ClientEvent::WindowState(WindowState {
            window_id: 1,
            state: window_show::MAXIMIZED,
            flags: 0
        })),
        vec![ModelChange::StateChanged(1)]
    );
    assert!(m.get(1).unwrap().maximized);
    assert!(!m.get(1).unwrap().minimized);
    // Repeating the same state is not a change.
    assert!(m
        .apply(ClientEvent::WindowState(WindowState {
            window_id: 1,
            state: window_show::MAXIMIZED,
            flags: 0
        }))
        .is_empty());
}

#[test]
fn a_state_update_replaces_the_flags() {
    let mut m = WindowModel::new();
    let mut ev = opened(1, "w");
    if let ClientEvent::WindowOpened(ref mut w) = ev {
        w.flags = window_flag::RESIZABLE | window_flag::HAS_FRAME;
    }
    m.apply(ev);
    // Same show state, other flags: the backend hears of it, and nothing is merged in.
    assert_eq!(
        m.apply(ClientEvent::WindowState(WindowState {
            window_id: 1,
            state: window_show::NORMAL,
            flags: window_flag::HAS_FRAME | window_flag::TOPMOST
        })),
        vec![ModelChange::StateChanged(1)]
    );
    let w = m.get(1).unwrap();
    assert!(!w.resizable && w.has_frame && w.topmost);
    assert!(!w.minimized && !w.maximized);
    assert!(m
        .apply(ClientEvent::WindowState(WindowState {
            window_id: 1,
            state: window_show::NORMAL,
            flags: window_flag::HAS_FRAME | window_flag::TOPMOST
        }))
        .is_empty());
}

#[test]
fn restacking_moves_a_window_above_another() {
    let mut m = WindowModel::new();
    m.apply(opened(1, "a"));
    m.apply(opened(2, "b"));
    m.apply(opened(3, "c"));
    assert_eq!(m.stack(), &[1, 2, 3]);

    // Put 1 directly above 2.
    assert_eq!(
        m.apply(ClientEvent::WindowZOrder(WindowZOrder {
            window_id: 1,
            above_window_id: 2
        })),
        vec![ModelChange::Restacked]
    );
    assert_eq!(m.stack(), &[2, 1, 3]);

    // Send 3 to the bottom.
    m.apply(ClientEvent::WindowZOrder(WindowZOrder {
        window_id: 3,
        above_window_id: 0,
    }));
    assert_eq!(m.stack(), &[3, 2, 1]);
}

#[test]
fn restacking_against_an_unknown_reference_is_ignored() {
    let mut m = WindowModel::new();
    m.apply(opened(1, "a"));
    assert!(m
        .apply(ClientEvent::WindowZOrder(WindowZOrder {
            window_id: 1,
            above_window_id: 99
        }))
        .is_empty());
    assert_eq!(m.stack(), &[1]);
}

#[test]
fn frames_pass_through_without_being_retained() {
    let mut m = WindowModel::new();
    m.apply(opened(1, "w"));
    let frame = FrameData {
        window_id: 1,
        frame_id: 1,
        codec: codec::RAW_BGRA,
        flags: 0,
        width: 2,
        height: 1,
        captured_us: 1,
        encoded_us: 2,
        data: vec![1, 2, 3, 4, 5, 6, 7, 8],
    };
    let changes = m.apply(ClientEvent::Frame(frame.clone()));
    assert_eq!(changes, vec![ModelChange::Frame(frame)]);
    // The model holds metadata only — pixels are the renderer's business.
    assert_eq!(
        std::mem::size_of_val(m.get(1).unwrap()),
        std::mem::size_of::<RemoteWindow>()
    );
}

#[test]
fn cursor_and_session_events() {
    let mut m = WindowModel::new();
    assert!(m.cursor_visible());
    assert_eq!(
        m.apply(ClientEvent::CursorVisibility(CursorVisibility {
            visible: false
        })),
        vec![ModelChange::CursorVisibility(false)]
    );
    assert!(!m.cursor_visible());

    assert_eq!(
        m.apply(ClientEvent::CursorPosition(CursorPosition {
            window_id: 1,
            x: 5,
            y: 6
        })),
        vec![ModelChange::CursorMoved {
            window_id: 1,
            x: 5,
            y: 6
        }]
    );

    assert_eq!(
        m.apply(ClientEvent::Error(ProtoError {
            code: 6,
            message: "capture failed".into()
        })),
        vec![ModelChange::AgentError {
            code: 6,
            message: "capture failed".into()
        }]
    );
    assert_eq!(
        m.apply(ClientEvent::Closed(Close { reason: 0 })),
        vec![ModelChange::Closed]
    );
}
