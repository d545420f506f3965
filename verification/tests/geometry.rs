//! Keeping the guest's geometry and the host's in step.

use oxrdp::client::event::ClientEvent;
use oxrdp::client::geometry::{GeometrySync, SETTLE};
use oxrdp::client::model::WindowModel;
use oxrdp::proto::message::window::{window_flag, window_show};
use oxrdp::proto::message::{WindowGeometry, WindowOpened, WindowState};

/// One millisecond, in the microseconds the tracker counts.
const MILLISECOND: u64 = 1_000;

/// Some moment of the session.
const START: u64 = 5_000_000;

const RESIZABLE: u32 = window_flag::RESIZABLE | window_flag::HAS_FRAME;
const FIXED: u32 = window_flag::HAS_FRAME;

fn model_with(
    window_id: u32,
    x: i32,
    y: i32,
    width: u16,
    height: u16,
    flags: u32,
) -> WindowModel {
    let mut model = WindowModel::new();
    model.apply(ClientEvent::WindowOpened(WindowOpened {
        window_id,
        video_channel: 16,
        pid: 1,
        app_id: "app.exe".into(),
        title: "app".into(),
        x,
        y,
        width,
        height,
        dpi: 96,
        flags,
        owner_id: 0,
    }));
    model
}

/// A window created, then settled, with the WM having placed it at `placed`.
fn settled(
    window_id: u32,
    guest: (i32, i32),
    size: (u16, u16),
    placed: (i32, i32),
) -> (GeometrySync, u64) {
    let start = START;
    let mut sync = GeometrySync::new();
    sync.created(start, window_id, guest.0, guest.1, size);
    // The window manager places the window; this is not a gesture.
    assert_eq!(sync.moved(start, window_id, placed.0, placed.1), None);
    (sync, start + SETTLE + MILLISECOND)
}

#[test]
fn a_freshly_created_window_sends_no_geometry() {
    let model = model_with(1, 100, 200, 800, 600, RESIZABLE);
    let start = START;
    let mut sync = GeometrySync::new();

    sync.created(start, 1, 100, 200, (800, 600));

    // Everything the host window manager does while placing the window is silent: the
    // position it chose, the size it chose, and both again a moment later.
    assert_eq!(sync.moved(start, 1, 3257, 2262), None);
    assert_eq!(sync.resized(start, &model, 1, 122, 47), None);
    let later = start + 200 * MILLISECOND;
    assert_eq!(sync.moved(later, 1, 3214, 156), None);
    assert_eq!(sync.resized(later, &model, 1, 466, 77), None);
}

#[test]
fn a_user_drag_after_settling_sends_a_guest_space_position() {
    let (mut sync, now) = settled(1, (100, 200), (800, 600), (3257, 2262));

    // The user drags the window 40 right and 15 up. What the guest is told is its own
    // position moved by that much — never the host coordinate.
    let target = sync.moved(now, 1, 3297, 2247);

    assert_eq!(target, Some((140, 185)));
}

#[test]
fn a_host_screen_position_is_never_sent_as_a_guest_position() {
    let (mut sync, now) = settled(1, (10, 20), (800, 600), (3257, 2262));

    // Whatever the user does, the number sent is anchored to the guest's own last position.
    // The host coordinates here are far outside any plausible guest desktop.
    let first = sync.moved(now, 1, 3260, 2264).expect("a drag is reported");
    let second = sync
        .moved(now + 10 * MILLISECOND, 1, 3250, 2260)
        .expect("a second drag is reported");

    assert_eq!(first, (13, 22));
    assert_eq!(second, (3, 18));
}

#[test]
fn the_first_position_after_settling_is_an_anchor_not_a_move() {
    let start = START;
    let mut sync = GeometrySync::new();
    sync.created(start, 1, 100, 200, (800, 600));
    let now = start + SETTLE + MILLISECOND;

    // A window manager that reported nothing at all during settling must still not be able
    // to turn its first report into a move.
    assert_eq!(sync.moved(now, 1, 3257, 2262), None);
    assert_eq!(sync.moved(now, 1, 3267, 2262), Some((110, 200)));
}

#[test]
fn applying_guest_geometry_does_not_bounce_back() {
    let (mut sync, now) = settled(1, (100, 200), (800, 600), (100, 200));

    // The guest moves its own window; the client applies it and the WM reports the result.
    sync.guest_moved(now, 1, 640, 480, (800, 600));
    assert_eq!(sync.moved(now, 1, 640, 480), None);

    // And the settling window closes again afterwards.
    let later = now + SETTLE + MILLISECOND;
    assert_eq!(sync.moved(later, 1, 650, 480), Some((650, 480)));
}

#[test]
fn a_window_that_never_moves_sends_nothing() {
    let (mut sync, now) = settled(1, (100, 200), (800, 600), (300, 400));

    // Repeated reports of the same position are not drags.
    assert_eq!(sync.moved(now, 1, 300, 400), None);
    assert_eq!(sync.moved(now, 1, 300, 400), None);
}

#[test]
fn a_non_resizable_window_never_asks_the_guest_to_resize() {
    // charmap: a fixed-size dialog that reports has_frame without resizable.
    let model = model_with(1, 100, 200, 322, 197, FIXED);
    let (mut sync, now) = settled(1, (100, 200), (322, 197), (259, 2262));

    assert_eq!(sync.resized(now, &model, 1, 1, 52), None);
    assert_eq!(sync.resized(now, &model, 1, 640, 480), None);
}

#[test]
fn a_resizable_window_reports_a_real_user_resize() {
    let model = model_with(1, 100, 200, 800, 600, RESIZABLE);
    let (mut sync, now) = settled(1, (100, 200), (800, 600), (100, 200));

    assert_eq!(sync.resized(now, &model, 1, 1024, 768), Some((1024, 768)));
    // Repeats of the size just reported are not new intent.
    assert_eq!(sync.resized(now, &model, 1, 1024, 768), None);
}

#[test]
fn a_zero_sized_report_is_never_a_resize() {
    let model = model_with(1, 100, 200, 800, 600, RESIZABLE);
    let (mut sync, now) = settled(1, (100, 200), (800, 600), (100, 200));

    // Some window managers report 0x0 when a window is unmapped or minimised. Forwarding
    // that would ask the guest to resize its window to nothing.
    assert_eq!(sync.resized(now, &model, 1, 0, 0), None);
    assert_eq!(sync.resized(now, &model, 1, 1024, 0), None);
    assert_eq!(sync.resized(now, &model, 1, 0, 768), None);
}

#[test]
fn resizability_is_read_from_the_model_not_cached_at_creation() {
    // The tracker holds no copy of the flag: it asks the model every time, so a `WindowState`
    // that carries a post-open flag change is followed.
    let resizable = model_with(1, 100, 200, 800, 600, RESIZABLE);
    let fixed = model_with(1, 100, 200, 800, 600, FIXED);
    let (mut sync, now) = settled(1, (100, 200), (800, 600), (100, 200));

    assert_eq!(sync.resized(now, &fixed, 1, 1024, 768), None);
    assert_eq!(
        sync.resized(now, &resizable, 1, 1024, 768),
        Some((1024, 768))
    );
}

#[test]
fn a_show_state_change_does_not_make_a_fixed_window_resizable() {
    let mut model = model_with(1, 100, 200, 322, 197, FIXED);
    let (mut sync, now) = settled(1, (100, 200), (322, 197), (100, 200));

    // Minimising and restoring is the one state change the guest does send, and it must not
    // turn charmap into something the client may resize.
    model.apply(ClientEvent::WindowState(WindowState {
        window_id: 1,
        state: window_show::MINIMIZED,
        flags: 0,
    }));
    model.apply(ClientEvent::WindowState(WindowState {
        window_id: 1,
        state: window_show::NORMAL,
        flags: 0,
    }));

    assert_eq!(sync.resized(now, &model, 1, 640, 480), None);
}

#[test]
fn an_unknown_window_is_silent() {
    let model = model_with(1, 0, 0, 800, 600, RESIZABLE);
    let mut sync = GeometrySync::new();
    let now = START;

    assert_eq!(sync.moved(now, 9, 10, 10), None);
    assert_eq!(sync.resized(now, &model, 9, 10, 10), None);
}

#[test]
fn a_forgotten_window_is_silent() {
    let model = model_with(1, 100, 200, 800, 600, RESIZABLE);
    let (mut sync, now) = settled(1, (100, 200), (800, 600), (100, 200));

    sync.forget(1);

    assert_eq!(sync.moved(now, 1, 500, 500), None);
    assert_eq!(sync.resized(now, &model, 1, 640, 480), None);
}

#[test]
fn windows_do_not_share_anchors() {
    let start = START;
    let mut sync = GeometrySync::new();
    sync.created(start, 1, 100, 100, (800, 600));
    sync.created(start, 2, 500, 500, (400, 300));
    assert_eq!(sync.moved(start, 1, 0, 0), None);
    assert_eq!(sync.moved(start, 2, 2000, 2000), None);
    let now = start + SETTLE + MILLISECOND;

    assert_eq!(sync.moved(now, 1, 10, 5), Some((110, 105)));
    assert_eq!(sync.moved(now, 2, 1990, 2000), Some((490, 500)));
}

#[test]
fn extreme_host_coordinates_cannot_overflow_the_guest_position() {
    let (mut sync, now) = settled(1, (i32::MAX, i32::MIN), (800, 600), (0, 0));

    let target = sync.moved(now, 1, i32::MAX, i32::MIN).expect("a drag");

    assert_eq!(target, (i32::MAX, i32::MIN));
}

#[test]
fn geometry_events_track_the_model_after_a_guest_geometry_update() {
    let mut model = model_with(1, 100, 200, 800, 600, RESIZABLE);
    let (mut sync, now) = settled(1, (100, 200), (800, 600), (300, 300));

    // The guest reports its own move; the model and the tracker are updated together, the
    // way the session task does it.
    model.apply(ClientEvent::WindowGeometry(WindowGeometry {
        window_id: 1,
        x: 640,
        y: 480,
        width: 800,
        height: 600,
    }));
    let window = model.get(1).expect("the window is still open");
    sync.guest_moved(now, 1, window.x, window.y, (window.width, window.height));

    // The WM echo of that move is silent, and a later drag is measured from the guest's new
    // position rather than the one it had before.
    assert_eq!(sync.moved(now, 1, 700, 700), None);
    let later = now + SETTLE + MILLISECOND;
    assert_eq!(sync.moved(later, 1, 705, 690), Some((645, 470)));
}

#[test]
fn the_whole_drag_is_sent_whatever_happens_to_other_windows() {
    let mut sync = GeometrySync::new();
    sync.created(START, 1, 100, 200, (800, 600));
    sync.created(START, 2, 0, 0, (10, 10));
    let now = START + SETTLE;
    // The window manager's placing: the last of these is where the drag starts.
    assert_eq!(sync.moved(START, 1, 7, 7), None);
    assert_eq!(sync.moved(now - 1, 1, 40, 50), None);
    assert_eq!(sync.moved(now, 1, 45, 50), Some((105, 200)));
    assert_eq!(sync.moved(now, 2, 1_000, 1_000), None);
    sync.forget(2);
    assert_eq!(sync.moved(now + 5, 1, 30, 80), Some((90, 230)));
}
