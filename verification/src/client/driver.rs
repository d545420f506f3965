//! What a session does between the wire and the display.
//!
//! The session task reads the wire, writes input and acknowledges frames. Everything it decides
//! on the way stands here; the task itself only moves bytes, frames and commands about.

use vstd::prelude::*;

use crate::client::decode::pipeline::FrameReport;
use crate::client::decode::{preferred_codecs, supports_codec};
use crate::client::event::{ClientEvent, ClientEventView};
use crate::client::geometry;
use crate::client::geometry::{GeometrySync, WindowSync};
use crate::client::latency::{FrameStages, LatencyMonitor, LatencyView, Partial};
use crate::client::model;
use crate::client::model::{ModelChange, ModelChangeView, ModelView, WindowModel};
use crate::client::session::SessionConfig;
use crate::display;
use crate::display::{
    command_for_change, DisplayCommand, DisplayCommandView, DisplayEvent, DisplayEventView,
};
use crate::display::input;
use crate::display::input::{key_flags, ElementState};
use crate::proto::message::input::window_action;
use crate::proto::message::{
    close_reason, error_code, feature, Close, DisplayLayout, Error, ErrorView, FrameAck, FrameData,
    FrameDataView, KeyEvent, Message, MessageView, ModifierSync, Output, PointerEvent, TextInput,
    TextInputView, WindowClosed, WindowControl, WindowGeometry, WindowOpened,
};
use crate::text;

verus! {

/// Something the session task has to do.
#[derive(Debug, PartialEq, Eq)]
pub enum Action {
    /// Drop the decoder of a window.
    Forget(u32),
    /// Hand a frame to its window's decode worker. Frames leave the session task immediately, so
    /// no frame's decode time is charged to the input path.
    Decode(FrameData),
    /// Hand a command to the display thread.
    Display(DisplayCommand),
    /// Send a message to the agent.
    Send(Message),
    /// Ping the agent.
    Ping,
    /// Print a text to standard error, as it is.
    Print(String),
    /// End the session.
    Stop,
}

/// What an [`Action`] holds.
pub enum ActionView {
    /// See [`Action::Forget`].
    Forget(u32),
    /// See [`Action::Decode`].
    Decode(FrameDataView),
    /// See [`Action::Display`].
    Display(DisplayCommandView),
    /// See [`Action::Send`].
    Send(MessageView),
    /// See [`Action::Ping`].
    Ping,
    /// See [`Action::Print`].
    Print(Seq<char>),
    /// See [`Action::Stop`].
    Stop,
}

impl View for Action {
    type V = ActionView;

    open spec fn view(&self) -> ActionView {
        match self {
            Action::Forget(id) => ActionView::Forget(*id),
            Action::Decode(frame) => ActionView::Decode(frame@),
            Action::Display(command) => ActionView::Display(command@),
            Action::Send(message) => ActionView::Send(message@),
            Action::Ping => ActionView::Ping,
            Action::Print(text) => ActionView::Print(text@),
            Action::Stop => ActionView::Stop,
        }
    }
}

/// What some actions hold.
pub open spec fn action_views(actions: Seq<Action>) -> Seq<ActionView> {
    actions.map_values(|action: Action| action@)
}

/// What a model change asks the session task to do. Frames never take the display's path: a frame
/// that reaches the presenter still encoded is a black window, not an error.
pub open spec fn change_actions(model: ModelView, change: ModelChangeView) -> Seq<ActionView> {
    match change {
        ModelChangeView::Frame(frame) => seq![ActionView::Decode(frame)],
        ModelChangeView::Destroyed(id) => seq![
            ActionView::Forget(id),
            ActionView::Display(DisplayCommandView::DestroyWindow(id)),
        ],
        _ => match display::command_for(model, change) {
            None => Seq::empty(),
            Some(command) => seq![ActionView::Display(command)],
        },
    }
}

/// What a model change does to the geometry. Every geometry change the client is about to cause
/// itself (creating a native window, or applying the guest's own move) is recorded before the
/// display layer acts on it, so the window manager events it provokes are recognised as echoes
/// rather than as the user acting.
pub open spec fn change_geometry(
    model: ModelView,
    followed: Map<u32, WindowSync>,
    change: ModelChangeView,
    now_us: u64,
) -> Map<u32, WindowSync> {
    match change {
        ModelChangeView::Created(id) => if model.windows.contains_key(id) {
            let w = model.windows[id];
            followed.insert(id, geometry::anchored(now_us, w.x, w.y, (w.width, w.height)))
        } else {
            followed
        },
        ModelChangeView::Moved(id) => if model.windows.contains_key(id) && followed.contains_key(
            id,
        ) {
            let w = model.windows[id];
            followed.insert(id, geometry::anchored(now_us, w.x, w.y, (w.width, w.height)))
        } else {
            followed
        },
        ModelChangeView::Destroyed(id) => followed.remove(id),
        _ => followed,
    }
}

/// What a model change does to the latency accounting. A frame is stamped the moment it is off
/// the wire: that is the boundary between "the network had it" and "we have it".
pub open spec fn change_latency(
    latency: LatencyView,
    change: ModelChangeView,
    now_us: u64,
) -> LatencyView {
    match change {
        ModelChangeView::Frame(frame) => latency.after_arrival(
            frame.window_id,
            frame.frame_id,
            Partial {
                captured_us: frame.captured_us,
                encoded_us: frame.encoded_us,
                arrived_us: now_us,
                decoded_us: None,
            },
        ),
        ModelChangeView::Destroyed(id) => LatencyView {
            windows: latency.windows.remove(id),
            ..latency
        },
        _ => latency,
    }
}

/// What some model changes ask the session task to do, in order.
pub open spec fn actions_for(model: ModelView, changes: Seq<ModelChangeView>) -> Seq<ActionView>
    decreases changes.len(),
{
    if changes.len() == 0 {
        Seq::empty()
    } else {
        actions_for(model, changes.drop_last()) + change_actions(model, changes.last())
    }
}

/// What some model changes do to the geometry.
pub open spec fn geometry_for(
    model: ModelView,
    followed: Map<u32, WindowSync>,
    changes: Seq<ModelChangeView>,
    now_us: u64,
) -> Map<u32, WindowSync>
    decreases changes.len(),
{
    if changes.len() == 0 {
        followed
    } else {
        change_geometry(
            model,
            geometry_for(model, followed, changes.drop_last(), now_us),
            changes.last(),
            now_us,
        )
    }
}

/// What some model changes do to the latency accounting.
pub open spec fn latency_for(
    latency: LatencyView,
    changes: Seq<ModelChangeView>,
    now_us: u64,
) -> LatencyView
    decreases changes.len(),
{
    if changes.len() == 0 {
        latency
    } else {
        change_latency(latency_for(latency, changes.drop_last(), now_us), changes.last(), now_us)
    }
}

/// What an event asks the session task to do.
pub open spec fn event_actions(before: ModelView, event: ClientEventView) -> Seq<ActionView> {
    actions_for(before.after(event), before.changes(event)) + if event is Closed {
        seq![ActionView::Stop]
    } else {
        Seq::empty()
    }
}

/// Carries out one model change, as far as the session's own state goes.
fn take_change(
    model: &WindowModel,
    geometry: &mut GeometrySync,
    latency: &mut LatencyMonitor,
    change: ModelChange,
    now_us: u64,
    actions: &mut Vec<Action>,
)
    ensures
        final(geometry)@ == change_geometry(model@, old(geometry)@, change@, now_us),
        final(latency)@ == change_latency(old(latency)@, change@, now_us),
        action_views(final(actions)@) == action_views(old(actions)@) + change_actions(
            model@,
            change@,
        ),
{
    let ghost asked = change_actions(model@, change@);
    let ghost before = action_views(actions@);
    match &change {
        ModelChange::Created(id) => {
            if let Some(window) = model.get(*id) {
                geometry.created(now_us, *id, window.x, window.y, (window.width, window.height));
            }
        },
        ModelChange::Moved(id) => {
            if let Some(window) = model.get(*id) {
                geometry.guest_moved(
                    now_us,
                    *id,
                    window.x,
                    window.y,
                    (window.width, window.height),
                );
            }
        },
        ModelChange::Destroyed(id) => {
            actions.push(Action::Forget(*id));
            geometry.forget(*id);
            latency.forget(*id);
        },
        ModelChange::Frame(frame) => {
            latency.on_arrival(
                frame.window_id,
                frame.frame_id,
                frame.captured_us,
                frame.encoded_us,
                now_us,
            );
        },
        _ => {},
    }
    match change {
        ModelChange::Frame(frame) => {
            actions.push(Action::Decode(frame));
        },
        other => {
            if let Some(command) = command_for_change(model, other) {
                actions.push(Action::Display(command));
            }
        },
    }
    assert(action_views(actions@) =~= before + asked);
}

/// Takes in one event from the agent and says what the session task has to do about it.
pub fn handle_event(
    model: &mut WindowModel,
    geometry: &mut GeometrySync,
    latency: &mut LatencyMonitor,
    event: ClientEvent,
    now_us: u64,
) -> (r: Vec<Action>)
    ensures
        final(model)@ == old(model)@.after(event@),
        final(geometry)@ == geometry_for(
            final(model)@,
            old(geometry)@,
            old(model)@.changes(event@),
            now_us,
        ),
        final(latency)@ == latency_for(old(latency)@, old(model)@.changes(event@), now_us),
        action_views(r@) == event_actions(old(model)@, event@),
{
    let closed = match &event {
        ClientEvent::Closed(_) => true,
        _ => false,
    };
    let ghost views = model@.changes(event@);
    let mut rest = model.apply(event);
    let mut actions: Vec<Action> = Vec::new();
    let ghost mut k: int = 0;
    assert(action_views(actions@) =~= actions_for(model@, views.take(0)));
    while rest.len() > 0
        invariant
            0 <= k <= views.len(),
            model::are_changes(rest@, views.skip(k)),
            geometry@ == geometry_for(model@, old(geometry)@, views.take(k), now_us),
            latency@ == latency_for(old(latency)@, views.take(k), now_us),
            action_views(actions@) == actions_for(model@, views.take(k)),
        decreases rest.len(),
    {
        let ghost held = rest@;
        let change = rest.remove(0);
        proof {
            assert(held[0]@ == views.skip(k)[0]);
            assert(change@ == views[k]);
            assert(views.take(k + 1).drop_last() =~= views.take(k));
            assert(rest@ =~= held.remove(0));
            assert forall|i: int| 0 <= i < rest@.len() implies (#[trigger] rest@[i])@
                == views.skip(k + 1)[i] by {
                assert(rest@[i] == held[i + 1]);
                assert(held[i + 1]@ == views.skip(k)[i + 1]);
            }
        }
        take_change(model, geometry, latency, change, now_us, &mut actions);
        proof {
            k = k + 1;
        }
    }
    proof {
        assert(views.take(k) =~= views);
    }
    if closed {
        actions.push(Action::Stop);
    }
    assert(action_views(actions@) =~= event_actions(old(model)@, event@));
    actions
}

/// The acknowledgement of a frame, if it was agreed on.
pub open spec fn ack_for(
    features: u64,
    window_id: u32,
    frame_id: u64,
    decoded_us: u64,
    presented_us: u64,
) -> Option<MessageView> {
    if features & feature::FRAME_ACK != 0 {
        Some(
            MessageView::FrameAck(FrameAck { window_id, frame_id, decoded_us, presented_us }),
        )
    } else {
        None
    }
}

/// What an optional message holds.
pub open spec fn message_view(m: Option<Message>) -> Option<MessageView> {
    match m {
        None => None,
        Some(m) => Some(m@),
    }
}

/// The acknowledgement of a frame, if it was agreed on.
pub fn frame_ack(
    features: u64,
    window_id: u32,
    frame_id: u64,
    decoded_us: u64,
    presented_us: u64,
) -> (r: Option<Message>)
    ensures
        message_view(r) == ack_for(features, window_id, frame_id, decoded_us, presented_us),
{
    if features & feature::FRAME_ACK != 0 {
        Some(Message::FrameAck(FrameAck { window_id, frame_id, decoded_us, presented_us }))
    } else {
        None
    }
}

/// Takes in what a decode worker says of a frame, and gives what to tell the agent.
///
/// A frame that will never be presented still has to be acknowledged. The agent keeps a bounded
/// number of unacknowledged frames per window and the display layer only reports frames it
/// actually presented, so a client joining mid-GOP would otherwise spend that budget on frames it
/// dropped and stall the window.
pub fn handle_report(features: u64, latency: &mut LatencyMonitor, report: FrameReport) -> (r:
    Option<Message>)
    ensures
        match report {
            FrameReport::Decoded { window_id, frame_id, decoded_us } => r is None && final(latency)@
                == old(latency)@.after_decode(window_id, frame_id, decoded_us),
            FrameReport::Dropped(dropped) => {
                &&& final(latency)@ == old(latency)@.after_drop(dropped.window_id, dropped.frame_id)
                &&& message_view(r) == ack_for(
                    features,
                    dropped.window_id,
                    dropped.frame_id,
                    dropped.finished_us,
                    dropped.finished_us,
                )
            },
        },
{
    match report {
        FrameReport::Decoded { window_id, frame_id, decoded_us } => {
            latency.on_decoded(window_id, frame_id, decoded_us);
            None
        },
        FrameReport::Dropped(dropped) => {
            latency.on_dropped(dropped.window_id, dropped.frame_id);
            frame_ack(
                features,
                dropped.window_id,
                dropped.frame_id,
                dropped.finished_us,
                dropped.finished_us,
            )
        },
    }
}

/// A request to do something to a window.
pub open spec fn control(
    window_id: u32,
    action: u8,
    position: (i32, i32),
    size: (u16, u16),
) -> MessageView {
    MessageView::WindowControl(
        WindowControl {
            window_id,
            action,
            x: position.0,
            y: position.1,
            width: size.0,
            height: size.1,
        },
    )
}

/// A request to do something to a window, if the agent agreed to take such requests.
pub open spec fn control_if(
    features: u64,
    window_id: u32,
    action: u8,
    position: (i32, i32),
    size: (u16, u16),
) -> Option<MessageView> {
    if features & feature::WINDOW_CONTROL != 0 {
        Some(control(window_id, action, position, size))
    } else {
        None
    }
}

/// The size that a native window's new size asks the guest for, if it is the user's doing.
pub open spec fn asked_size(
    model: ModelView,
    followed: Map<u32, WindowSync>,
    now_us: u64,
    window_id: u32,
    size: (u16, u16),
) -> Option<(u16, u16)> {
    if followed.contains_key(window_id) && geometry::size_counts(model, window_id, size.0, size.1)
        && now_us >= followed[window_id].settling_until && followed[window_id].local_size != Some(
        size,
    ) {
        Some(size)
    } else {
        None
    }
}

/// The position that a native window's new position asks the guest for, if it is the user's
/// doing.
pub open spec fn asked_place(
    followed: Map<u32, WindowSync>,
    now_us: u64,
    window_id: u32,
    x: i32,
    y: i32,
) -> Option<(i32, i32)> {
    if followed.contains_key(window_id) {
        followed[window_id].asked_position(now_us, x, y)
    } else {
        None
    }
}

/// What a display event tells the agent. Text and window requests are sent only where the agent
/// agreed to handle them.
pub open spec fn told(
    features: u64,
    model: ModelView,
    followed: Map<u32, WindowSync>,
    event: DisplayEventView,
    now_us: u64,
) -> Option<MessageView> {
    match event {
        DisplayEventView::Pointer { window_id, x, y, buttons, wheel_x, wheel_y } => Some(
            MessageView::PointerEvent(
                PointerEvent { window_id, x, y, buttons, wheel_x, wheel_y, timestamp: now_us },
            ),
        ),
        DisplayEventView::Key { scancode, pressed, extended } => Some(
            MessageView::KeyEvent(
                KeyEvent {
                    scancode,
                    flags: input::key_flag_bits(pressed, extended),
                    timestamp: now_us,
                },
            ),
        ),
        DisplayEventView::Text { text } => if features & feature::TEXT_INPUT != 0 {
            Some(MessageView::TextInput(TextInputView { text }))
        } else {
            None
        },
        DisplayEventView::Modifiers { modifiers, locks } => Some(
            MessageView::ModifierSync(ModifierSync { modifiers, locks }),
        ),
        DisplayEventView::Focused { window_id, focused } => if focused {
            control_if(features, window_id, window_action::ACTIVATE, (0, 0), (0, 0))
        } else {
            None
        },
        DisplayEventView::CloseRequested { window_id } => control_if(
            features,
            window_id,
            window_action::CLOSE,
            (0, 0),
            (0, 0),
        ),
        DisplayEventView::ResizeRequested { window_id, width, height } => match asked_size(
            model,
            followed,
            now_us,
            window_id,
            (width, height),
        ) {
            None => None,
            Some(size) => control_if(features, window_id, window_action::RESIZE, (0, 0), size),
        },
        DisplayEventView::MoveRequested { window_id, x, y } => match asked_place(
            followed,
            now_us,
            window_id,
            x,
            y,
        ) {
            None => None,
            Some(place) => control_if(features, window_id, window_action::MOVE, place, (0, 0)),
        },
        DisplayEventView::Minimized { window_id, minimized } => control_if(
            features,
            window_id,
            if minimized {
                window_action::MINIMIZE
            } else {
                window_action::RESTORE
            },
            (0, 0),
            (0, 0),
        ),
        DisplayEventView::Presented {
            window_id,
            frame_id,
            decoded_us,
            presented_us,
        } => ack_for(features, window_id, frame_id, decoded_us, presented_us),
        DisplayEventView::BackendError { .. } => None,
    }
}

/// What a display event leaves known of the geometry. Where the agent takes no window requests,
/// positions and sizes are not followed.
pub open spec fn followed_after(
    features: u64,
    model: ModelView,
    followed: Map<u32, WindowSync>,
    event: DisplayEventView,
    now_us: u64,
) -> Map<u32, WindowSync> {
    match event {
        DisplayEventView::ResizeRequested { window_id, width, height } => if features
            & feature::WINDOW_CONTROL != 0 && followed.contains_key(window_id)
            && geometry::size_counts(model, window_id, width, height) {
            followed.insert(
                window_id,
                WindowSync { local_size: Some((width, height)), ..followed[window_id] },
            )
        } else {
            followed
        },
        DisplayEventView::MoveRequested { window_id, x, y } => if features
            & feature::WINDOW_CONTROL != 0 && followed.contains_key(window_id) {
            followed.insert(window_id, followed[window_id].after_move(now_us, x, y))
        } else {
            followed
        },
        _ => followed,
    }
}

/// What a display event leaves known of the latency. A frame counts once the agent's clock can be
/// placed on the client's.
pub open spec fn latency_after(
    latency: LatencyView,
    event: DisplayEventView,
    offset_us: Option<i64>,
) -> LatencyView {
    match (event, offset_us) {
        (
            DisplayEventView::Presented { window_id, frame_id, presented_us, .. },
            Some(offset),
        ) => latency.after_present(window_id, frame_id, presented_us, offset),
        _ => latency,
    }
}

/// A request to do something to a window, if the agent agreed to take such requests.
fn window_control(
    features: u64,
    window_id: u32,
    action: u8,
    position: (i32, i32),
    size: (u16, u16),
) -> (r: Option<Message>)
    ensures
        message_view(r) == control_if(features, window_id, action, position, size),
{
    if features & feature::WINDOW_CONTROL != 0 {
        Some(
            Message::WindowControl(
                WindowControl {
                    window_id,
                    action,
                    x: position.0,
                    y: position.1,
                    width: size.0,
                    height: size.1,
                },
            ),
        )
    } else {
        None
    }
}

/// Takes in one event from the display, and gives what to tell the agent.
///
/// The display layer reports what the host window manager did, which is not the same thing as
/// what the user asked for: a window manager places and sizes every window the moment it is
/// created. [`GeometrySync`] is what tells the two apart, and what turns a host-screen position
/// into one that means something on the guest.
pub fn handle_display_event(
    features: u64,
    model: &WindowModel,
    geometry: &mut GeometrySync,
    latency: &mut LatencyMonitor,
    event: DisplayEvent,
    now_us: u64,
    offset_us: Option<i64>,
) -> (r: Option<Message>)
    ensures
        message_view(r) == told(features, model@, old(geometry)@, event@, now_us),
        final(geometry)@ == followed_after(features, model@, old(geometry)@, event@, now_us),
        final(latency)@ == latency_after(old(latency)@, event@, offset_us),
{
    match event {
        DisplayEvent::Pointer { window_id, x, y, buttons, wheel_x, wheel_y } => Some(
            Message::PointerEvent(
                PointerEvent { window_id, x, y, buttons, wheel_x, wheel_y, timestamp: now_us },
            ),
        ),
        DisplayEvent::Key { scancode, pressed, extended } => {
            let state = if pressed {
                ElementState::Pressed
            } else {
                ElementState::Released
            };
            Some(
                Message::KeyEvent(
                    KeyEvent { scancode, flags: key_flags(state, extended), timestamp: now_us },
                ),
            )
        },
        DisplayEvent::Text { text } => if features & feature::TEXT_INPUT != 0 {
            Some(Message::TextInput(TextInput { text }))
        } else {
            None
        },
        DisplayEvent::Modifiers { modifiers, locks } => Some(
            Message::ModifierSync(ModifierSync { modifiers, locks }),
        ),
        DisplayEvent::Focused { window_id, focused } => if focused {
            window_control(features, window_id, window_action::ACTIVATE, (0, 0), (0, 0))
        } else {
            None
        },
        DisplayEvent::CloseRequested { window_id } => window_control(
            features,
            window_id,
            window_action::CLOSE,
            (0, 0),
            (0, 0),
        ),
        DisplayEvent::ResizeRequested { window_id, width, height } => {
            if features & feature::WINDOW_CONTROL == 0 {
                return None;
            }
            match geometry.resized(now_us, model, window_id, width, height) {
                None => None,
                Some(size) => window_control(
                    features,
                    window_id,
                    window_action::RESIZE,
                    (0, 0),
                    size,
                ),
            }
        },
        DisplayEvent::MoveRequested { window_id, x, y } => {
            if features & feature::WINDOW_CONTROL == 0 {
                return None;
            }
            match geometry.moved(now_us, window_id, x, y) {
                None => None,
                Some(place) => window_control(
                    features,
                    window_id,
                    window_action::MOVE,
                    place,
                    (0, 0),
                ),
            }
        },
        DisplayEvent::Minimized { window_id, minimized } => window_control(
            features,
            window_id,
            if minimized {
                window_action::MINIMIZE
            } else {
                window_action::RESTORE
            },
            (0, 0),
            (0, 0),
        ),
        DisplayEvent::Presented { window_id, frame_id, decoded_us, presented_us } => {
            if let Some(offset) = offset_us {
                latency.on_presented(window_id, frame_id, presented_us, offset);
            }
            frame_ack(features, window_id, frame_id, decoded_us, presented_us)
        },
        DisplayEvent::BackendError { .. } => None,
    }
}

/// What the agent is told when it selected a codec that was not offered.
pub open spec fn codec_refusal_text(codec: u8) -> Seq<char> {
    "agent selected codec "@ + text::decimal(codec as nat)
        + " which this client cannot decode (advertised ["@ + text::joined(
        crate::client::decode::codec_list(true).map_values(|c: u8| text::decimal(c as nat)),
        ", "@,
    ) + "])"@
}

/// What the agent is told when it selected a codec that was not offered, or `None` if it chose
/// from what was. If it did not, every frame would fail to decode: it is said once, and the
/// session ends.
pub fn codec_refusal(codec: u8) -> (r: Option<String>)
    ensures
        match r {
            None => crate::client::decode::codec_list(true).contains(codec),
            Some(message) => !crate::client::decode::codec_list(true).contains(codec) && message@
                == codec_refusal_text(codec),
        },
{
    if supports_codec(codec) {
        return None;
    }
    let mut out = "agent selected codec ".to_owned();
    text::push_decimal(&mut out, codec as u64);
    text::push_str(&mut out, " which this client cannot decode (advertised [");
    let codecs = preferred_codecs();
    let mut names: Vec<String> = Vec::new();
    let mut i: usize = 0;
    while i < codecs.len()
        invariant
            i <= codecs.len(),
            names@.map_values(|s: String| s@) == codecs@.take(i as int).map_values(
                |c: u8| text::decimal(c as nat),
            ),
        decreases codecs.len() - i,
    {
        let name = text::decimal_text(codecs[i] as u64);
        let ghost before = names@;
        names.push(name);
        proof {
            assert(codecs@.take(i + 1) =~= codecs@.take(i as int).push(codecs@[i as int]));
            assert(names@.map_values(|s: String| s@) =~= before.map_values(|s: String| s@).push(
                name@,
            ));
            assert(codecs@.take(i + 1).map_values(|c: u8| text::decimal(c as nat))
                =~= codecs@.take(i as int).map_values(|c: u8| text::decimal(c as nat)).push(
                text::decimal(codecs@[i as int] as nat),
            ));
        }
        i = i + 1;
    }
    assert(codecs@.take(codecs@.len() as int) =~= codecs@);
    let list = text::join(&names, ", ");
    text::push_str(&mut out, list.as_str());
    text::push_str(&mut out, "])");
    Some(out)
}

/// What the agent is told when the session ends because of a codec that was not offered, in
/// order.
pub fn farewell(message: String) -> (r: Vec<Message>)
    ensures
        r@.len() == 2,
        r@[0]@ == MessageView::Error(
            ErrorView { code: error_code::UNSUPPORTED_CODEC, message: message@ },
        ),
        r@[1]@ == MessageView::Close(Close { reason: close_reason::ERROR }),
{
    vec![
        Message::Error(Error { code: error_code::UNSUPPORTED_CODEC, message }),
        Message::Close(Close { reason: close_reason::ERROR }),
    ]
}

/// The one output that a session advertises, whatever the host has: a conservative one that every
/// agent can serve.
pub open spec fn advertised_output() -> Output {
    Output {
        id: 0,
        x: 0,
        y: 0,
        width: 1920,
        height: 1080,
        scale_num: 1,
        scale_den: 1,
        refresh_mhz: 60_000,
    }
}

/// What a session is opened with. Codecs are in descending preference, and only what can actually
/// be decoded.
pub fn session_config(auth_token: String, client_name: String) -> (r: SessionConfig)
    ensures
        r.auth_token@ == auth_token@,
        r.client_name@ == client_name@,
        r.codecs@ == crate::client::decode::codec_list(true),
        r.display@ == seq![advertised_output()],
{
    let outputs: Vec<Output> = vec![
        Output {
            id: 0,
            x: 0,
            y: 0,
            width: 1920,
            height: 1080,
            scale_num: 1,
            scale_den: 1,
            refresh_mhz: 60_000,
        },
    ];
    assert(outputs@ =~= seq![advertised_output()]);
    SessionConfig {
        auth_token,
        client_name,
        codecs: preferred_codecs(),
        display: DisplayLayout { outputs },
    }
}

/// The agent is never sent what it did not agree to handle: no window requests, no text and no
/// acknowledgements unless the feature was negotiated.
pub proof fn law_nothing_is_sent_unnegotiated(
    features: u64,
    model: ModelView,
    followed: Map<u32, WindowSync>,
    event: DisplayEventView,
    now_us: u64,
)
    ensures
        ({
            let m = told(features, model, followed, event, now_us);
            &&& m matches Some(MessageView::WindowControl(_)) ==> features
                & feature::WINDOW_CONTROL != 0
            &&& m matches Some(MessageView::TextInput(_)) ==> features & feature::TEXT_INPUT != 0
            &&& m matches Some(MessageView::FrameAck(_)) ==> features & feature::FRAME_ACK != 0
        }),
{
}

/// Connecting does not rearrange the guest: while a window that was just created settles, neither
/// its placement nor its size is sent, whatever the window manager does to it.
pub proof fn law_connecting_rearranges_nothing(
    features: u64,
    model: ModelView,
    followed: Map<u32, WindowSync>,
    window_id: u32,
    now_us: u64,
    later_us: u64,
    event: DisplayEventView,
)
    requires
        model.windows.contains_key(window_id),
        later_us < geometry::settled_at(now_us),
        (event matches DisplayEventView::MoveRequested { window_id: id, .. } && id == window_id)
            || (event matches DisplayEventView::ResizeRequested { window_id: id, .. } && id
            == window_id),
    ensures
        told(
            features,
            model,
            change_geometry(model, followed, ModelChangeView::Created(window_id), now_us),
            event,
            later_us,
        ) is None,
{
}

/// A window the guest reports as fixed-size is never asked to resize.
pub proof fn law_fixed_windows_are_never_resized(
    features: u64,
    model: ModelView,
    followed: Map<u32, WindowSync>,
    window_id: u32,
    width: u16,
    height: u16,
    now_us: u64,
)
    requires
        !geometry::is_resizable(model, window_id),
    ensures
        told(
            features,
            model,
            followed,
            DisplayEventView::ResizeRequested { window_id, width, height },
            now_us,
        ) is None,
{
}

/// Where acknowledgements were agreed on, every frame gets one that carries its own ids, whether
/// it was presented or will never be.
pub proof fn law_every_frame_is_acknowledged(
    features: u64,
    model: ModelView,
    followed: Map<u32, WindowSync>,
    window_id: u32,
    frame_id: u64,
    decoded_us: u64,
    presented_us: u64,
    now_us: u64,
)
    requires
        features & feature::FRAME_ACK != 0,
    ensures
        told(
            features,
            model,
            followed,
            DisplayEventView::Presented { window_id, frame_id, decoded_us, presented_us },
            now_us,
        ) == Some(
            MessageView::FrameAck(FrameAck { window_id, frame_id, decoded_us, presented_us }),
        ),
        ack_for(features, window_id, frame_id, decoded_us, decoded_us) == Some(
            MessageView::FrameAck(
                FrameAck { window_id, frame_id, decoded_us, presented_us: decoded_us },
            ),
        ),
{
}

/// A frame never goes from the wire to the display: it goes to a decoder, and only a decoder's
/// picture is presented.
pub proof fn law_frames_go_through_the_decoder(model: ModelView, change: ModelChangeView, i: int)
    requires
        0 <= i < change_actions(model, change).len(),
    ensures
        !(change_actions(model, change)[i] matches ActionView::Display(DisplayCommandView::Frame(
            _,
        ))),
{
}

/// What the user does with pointer and keyboard is told to the agent as it is, with the time it was
/// done.
pub proof fn law_input_is_told(
    features: u64,
    model: &WindowModel,
    event: DisplayEvent,
    now_us: u64,
    offset_us: Option<i64>,
)
    ensures
        forall|g: &mut GeometrySync, l: &mut LatencyMonitor, r: Option<Message>| #[trigger]
            call_ensures(
                handle_display_event,
                (features, model, g, l, event, now_us, offset_us),
                r,
            ) ==> match event {
                DisplayEvent::Pointer { window_id, x, y, buttons, wheel_x, wheel_y } => {
                    &&& r matches Some(Message::PointerEvent(m))
                    &&& m.window_id == window_id
                    &&& m.x == x && m.y == y
                    &&& m.buttons == buttons
                    &&& m.wheel_x == wheel_x && m.wheel_y == wheel_y
                    &&& m.timestamp == now_us
                },
                DisplayEvent::Key { scancode, pressed, extended } => {
                    &&& r matches Some(Message::KeyEvent(m))
                    &&& m.scancode == scancode
                    &&& m.flags == (if pressed {
                        1int
                    } else {
                        0
                    }) + (if extended {
                        2int
                    } else {
                        0
                    })
                    &&& m.timestamp == now_us
                },
                DisplayEvent::Modifiers { modifiers, locks } => {
                    &&& r matches Some(Message::ModifierSync(m))
                    &&& m.modifiers == modifiers
                    &&& m.locks == locks
                },
                DisplayEvent::Text { text } => if features & 0x10 != 0 {
                    r matches Some(Message::TextInput(m)) && m.text@ == text@
                } else {
                    r is None
                },
                DisplayEvent::BackendError { .. } => r is None,
                _ => true,
            },
{
}

/// What the user does with a native window is asked of the guest's window: focusing it, closing it,
/// minimizing it and restoring it.
pub proof fn law_window_requests_are_told(
    features: u64,
    model: &WindowModel,
    event: DisplayEvent,
    window_id: u32,
    action: int,
    now_us: u64,
    offset_us: Option<i64>,
)
    requires
        match event {
            DisplayEvent::CloseRequested { window_id: id } => id == window_id && action == 1,
            DisplayEvent::Focused { window_id: id, focused } => id == window_id && focused
                && action == 2,
            DisplayEvent::Minimized { window_id: id, minimized } => id == window_id && action == (
            if minimized {
                3int
            } else {
                5
            }),
            _ => false,
        },
    ensures
        forall|g: &mut GeometrySync, l: &mut LatencyMonitor, r: Option<Message>| #[trigger]
            call_ensures(
                handle_display_event,
                (features, model, g, l, event, now_us, offset_us),
                r,
            ) ==> {
                &&& features & 8 == 0 ==> r is None
                &&& features & 8 != 0 ==> (r matches Some(Message::WindowControl(m))
                    && m.window_id == window_id && m.action == action && m.x == 0 && m.y == 0
                    && m.width == 0 && m.height == 0)
                &&& final(g)@ == (*g)@
                &&& final(l)@ == (*l)@
            },
{
}

/// A window that loses the focus is nobody's request.
pub proof fn law_lost_focus_is_not_told(
    features: u64,
    model: &WindowModel,
    window_id: u32,
    now_us: u64,
    offset_us: Option<i64>,
)
    ensures
        forall|g: &mut GeometrySync, l: &mut LatencyMonitor, r: Option<Message>| #[trigger]
            call_ensures(
                handle_display_event,
                (
                    features,
                    model,
                    g,
                    l,
                    DisplayEvent::Focused { window_id, focused: false },
                    now_us,
                    offset_us,
                ),
                r,
            ) ==> r is None,
{
}

/// A native window's new size or position asks the guest for what [`GeometrySync`] makes of it, and
/// for nothing where the agent takes no window requests.
pub proof fn law_geometry_requests_are_told(
    features: u64,
    model: &WindowModel,
    window_id: u32,
    width: u16,
    height: u16,
    x: i32,
    y: i32,
    now_us: u64,
    offset_us: Option<i64>,
)
    ensures
        forall|
            g: &mut GeometrySync,
            h: &mut GeometrySync,
            l: &mut LatencyMonitor,
            r: Option<Message>,
            size: Option<(u16, u16)>,
        |
            #![trigger call_ensures(handle_display_event, (features, model, g, l, DisplayEvent::ResizeRequested { window_id, width, height }, now_us, offset_us), r), call_ensures(GeometrySync::resized, (h, now_us, model, window_id, width, height), size)]
            call_ensures(
                handle_display_event,
                (
                    features,
                    model,
                    g,
                    l,
                    DisplayEvent::ResizeRequested { window_id, width, height },
                    now_us,
                    offset_us,
                ),
                r,
            ) && call_ensures(
                GeometrySync::resized,
                (h, now_us, model, window_id, width, height),
                size,
            ) && (*h)@ == (*g)@ ==> {
                &&& features & 8 == 0 ==> r is None && final(g)@ == (*g)@
                &&& features & 8 != 0 ==> final(g)@ == final(h)@
                &&& features & 8 != 0 && size is None ==> r is None
                &&& features & 8 != 0 && size is Some ==> (r matches Some(Message::WindowControl(m))
                    && m.window_id == window_id && m.action == 7 && m.width == size->Some_0.0
                    && m.height == size->Some_0.1 && m.x == 0 && m.y == 0)
            },
        forall|
            g: &mut GeometrySync,
            h: &mut GeometrySync,
            l: &mut LatencyMonitor,
            r: Option<Message>,
            place: Option<(i32, i32)>,
        |
            #![trigger call_ensures(handle_display_event, (features, model, g, l, DisplayEvent::MoveRequested { window_id, x, y }, now_us, offset_us), r), call_ensures(GeometrySync::moved, (h, now_us, window_id, x, y), place)]
            call_ensures(
                handle_display_event,
                (
                    features,
                    model,
                    g,
                    l,
                    DisplayEvent::MoveRequested { window_id, x, y },
                    now_us,
                    offset_us,
                ),
                r,
            ) && call_ensures(GeometrySync::moved, (h, now_us, window_id, x, y), place) && (*h)@
                == (*g)@ ==> {
                &&& features & 8 == 0 ==> r is None && final(g)@ == (*g)@
                &&& features & 8 != 0 ==> final(g)@ == final(h)@
                &&& features & 8 != 0 && place is None ==> r is None
                &&& features & 8 != 0 && place is Some ==> (
                r matches Some(Message::WindowControl(m)) && m.window_id == window_id && m.action
                    == 6 && m.x == place->Some_0.0 && m.y == place->Some_0.1 && m.width == 0
                    && m.height == 0)
            },
{
}

/// A frame is acknowledged with the times it was decoded and presented at, and counted the way
/// [`LatencyMonitor`] counts it, once the clocks are related.
pub proof fn law_presented_frames_are_told(
    features: u64,
    model: &WindowModel,
    window_id: u32,
    frame_id: u64,
    decoded_us: u64,
    presented_us: u64,
    now_us: u64,
    offset: i64,
)
    ensures
        forall|
            g: &mut GeometrySync,
            l: &mut LatencyMonitor,
            offset_us: Option<i64>,
            r: Option<Message>,
        | #[trigger]
            call_ensures(
                handle_display_event,
                (
                    features,
                    model,
                    g,
                    l,
                    DisplayEvent::Presented { window_id, frame_id, decoded_us, presented_us },
                    now_us,
                    offset_us,
                ),
                r,
            ) ==> {
                &&& features & 2 == 0 ==> r is None
                &&& features & 2 != 0 ==> (r matches Some(Message::FrameAck(m)) && m.window_id
                    == window_id && m.frame_id == frame_id && m.decoded_us == decoded_us
                    && m.presented_us == presented_us)
                &&& offset_us is None ==> final(l)@ == (*l)@
                &&& final(g)@ == (*g)@
            },
        forall|
            g: &mut GeometrySync,
            l: &mut LatencyMonitor,
            k: &mut LatencyMonitor,
            r: Option<Message>,
            stages: Option<FrameStages>,
        |
            #![trigger call_ensures(handle_display_event, (features, model, g, l, DisplayEvent::Presented { window_id, frame_id, decoded_us, presented_us }, now_us, Some(offset)), r), call_ensures(LatencyMonitor::on_presented, (k, window_id, frame_id, presented_us, offset), stages)]
            call_ensures(
                handle_display_event,
                (
                    features,
                    model,
                    g,
                    l,
                    DisplayEvent::Presented { window_id, frame_id, decoded_us, presented_us },
                    now_us,
                    Some(offset),
                ),
                r,
            ) && call_ensures(
                LatencyMonitor::on_presented,
                (k, window_id, frame_id, presented_us, offset),
                stages,
            ) && (*k)@ == (*l)@ ==> final(k)@ == final(l)@,
{
}

/// A frame that will never be presented is acknowledged all the same, where acknowledgements were
/// agreed on; one that was decoded is not yet.
pub proof fn law_reports_are_told(features: u64, report: FrameReport)
    ensures
        forall|l: &mut LatencyMonitor, r: Option<Message>| #[trigger]
            call_ensures(handle_report, (features, l, report), r) ==> match report {
                FrameReport::Decoded { .. } => r is None,
                FrameReport::Dropped(dropped) => if features & 2 == 0 {
                    r is None
                } else {
                    r matches Some(Message::FrameAck(m)) && m.window_id == dropped.window_id
                        && m.frame_id == dropped.frame_id && m.decoded_us == dropped.finished_us
                        && m.presented_us == dropped.finished_us
                },
            },
        forall|l: &mut LatencyMonitor, k: &mut LatencyMonitor, r: Option<Message>|
            #![trigger call_ensures(handle_report, (features, l, report), r), call_ensures(LatencyMonitor::on_decoded, (k, report->window_id, report->frame_id, report->decoded_us), ())]
            report is Decoded && call_ensures(handle_report, (features, l, report), r)
                && call_ensures(
                LatencyMonitor::on_decoded,
                (k, report->window_id, report->frame_id, report->decoded_us),
                (),
            ) && (*k)@ == (*l)@ ==> final(k)@ == final(l)@,
        forall|l: &mut LatencyMonitor, k: &mut LatencyMonitor, r: Option<Message>|
            #![trigger call_ensures(handle_report, (features, l, report), r), call_ensures(LatencyMonitor::on_dropped, (k, report->Dropped_0.window_id, report->Dropped_0.frame_id), ())]
            report is Dropped && call_ensures(handle_report, (features, l, report), r)
                && call_ensures(
                LatencyMonitor::on_dropped,
                (k, report->Dropped_0.window_id, report->Dropped_0.frame_id),
                (),
            ) && (*k)@ == (*l)@ ==> final(k)@ == final(l)@,
{
}

/// Before a session ends because of the codec, the agent is told the error and that the session is
/// over, in this order.
pub proof fn law_farewells_name_the_error(message: String, r: Vec<Message>)
    requires
        call_ensures(farewell, (message,), r),
    ensures
        r@.len() == 2,
        r@[0] matches Message::Error(e) && e.code == 4 && e.message@ == message@,
        r@[1] matches Message::Close(c) && c.reason == 2,
{
}

/// A session is opened with the token and the name it was given, one output of 1920 by 1080 at 60 Hz,
/// and only codecs that can be decoded.
pub proof fn law_sessions_offer_what_is_given(
    auth_token: String,
    client_name: String,
    r: SessionConfig,
    codec: u8,
    supported: bool,
)
    requires
        call_ensures(session_config, (auth_token, client_name), r),
        call_ensures(supports_codec, (codec,), supported),
    ensures
        r.auth_token@ == auth_token@,
        r.client_name@ == client_name@,
        r.display.outputs@.len() == 1,
        ({
            let o = r.display.outputs@[0];
            &&& o.id == 0 && o.x == 0 && o.y == 0
            &&& o.width == 1920 && o.height == 1080
            &&& o.scale_num == 1 && o.scale_den == 1
            &&& o.refresh_mhz == 60_000
        }),
        r.codecs@.contains(codec) == supported,
{
    assert(r.display@ =~= r.display.outputs@);
}

/// A codec is refused exactly where it was not offered.
pub proof fn law_codecs_are_refused_unless_offered(
    codec: u8,
    r: Option<String>,
    supported: bool,
)
    requires
        call_ensures(codec_refusal, (codec,), r),
        call_ensures(supports_codec, (codec,), supported),
    ensures
        r is None <==> supported,
{
}

/// The one change there may be, and what it asks for.
proof fn lemma_one_change(
    before: ModelView,
    event: ClientEventView,
    followed: Map<u32, WindowSync>,
    latency: LatencyView,
    now_us: u64,
)
    ensures
        ({
            let changes = before.changes(event);
            let after = before.after(event);
            &&& changes.len() <= 1
            &&& changes.len() == 0 ==> {
                &&& actions_for(after, changes) == Seq::<ActionView>::empty()
                &&& geometry_for(after, followed, changes, now_us) == followed
                &&& latency_for(latency, changes, now_us) == latency
            }
            &&& changes.len() == 1 ==> {
                &&& actions_for(after, changes) == change_actions(after, changes[0])
                &&& geometry_for(after, followed, changes, now_us) == change_geometry(
                    after,
                    followed,
                    changes[0],
                    now_us,
                )
                &&& latency_for(latency, changes, now_us) == change_latency(
                    latency,
                    changes[0],
                    now_us,
                )
            }
        }),
{
    let changes = before.changes(event);
    let after = before.after(event);
    if changes.len() == 1 {
        let none = changes.drop_last();
        assert(none.len() == 0);
        assert(actions_for(after, none) == Seq::<ActionView>::empty());
        assert(actions_for(after, changes) == actions_for(after, none) + change_actions(
            after,
            changes[0],
        ));
        assert(actions_for(after, changes) =~= change_actions(after, changes[0]));
        assert(geometry_for(after, followed, none, now_us) == followed);
        assert(latency_for(latency, none, now_us) == latency);
    }
}

/// Whether some actions are what a change to the windows asks for: a frame goes to its decoder, a
/// window that is gone loses its decoder before its native window, and anything else goes to the
/// display as `command`, if there is one.
pub open spec fn carries_out(
    actions: Seq<Action>,
    change: ModelChange,
    command: Option<DisplayCommand>,
) -> bool {
    match change {
        ModelChange::Frame(frame) => actions.len() == 1 && (actions[0] matches Action::Decode(f)
            && f@ == frame@),
        ModelChange::Destroyed(id) => actions.len() == 2 && actions[0] == Action::Forget(id)
            && actions[1] == Action::Display(DisplayCommand::DestroyWindow(id)),
        _ => match command {
            None => actions.len() == 0,
            Some(command) => actions.len() == 1 && (actions[0] matches Action::Display(c) && c@
                == command@),
        },
    }
}

/// What the agent sends changes the model as [`WindowModel::apply`] changes it, and each change is
/// carried out: by the decoders or, with the command that [`command_for_change`] gives, by the
/// display. The session ends where the agent closes it, and nowhere else.
pub proof fn law_agent_events_are_carried_out(event: ClientEvent, now_us: u64)
    ensures
        forall|
            m: &mut WindowModel,
            n: &mut WindowModel,
            g: &mut GeometrySync,
            l: &mut LatencyMonitor,
            r: Vec<Action>,
            changes: Vec<ModelChange>,
            command: Option<DisplayCommand>,
        |
            #![trigger call_ensures(handle_event, (m, g, l, event, now_us), r), call_ensures(WindowModel::apply, (n, event), changes), call_ensures(command_for_change, (&*final(n), changes@[0]), command)]
            call_ensures(handle_event, (m, g, l, event, now_us), r) && (*n)@ == (*m)@
                && call_ensures(WindowModel::apply, (n, event), changes) && call_ensures(
                command_for_change,
                (&*final(n), changes@[0]),
                command,
            ) ==> {
                let k = if event is Closed {
                    r@.len() - 1
                } else {
                    r@.len() as int
                };
                &&& final(m)@ == final(n)@
                &&& changes@.len() <= 1
                &&& k >= 0
                &&& changes@.len() == 0 ==> k == 0
                &&& changes@.len() == 1 ==> carries_out(r@.take(k), changes@[0], command)
                &&& event is Closed ==> r@.last() == Action::Stop
            },
{
    assert forall|
        m: &mut WindowModel,
        n: &mut WindowModel,
        g: &mut GeometrySync,
        l: &mut LatencyMonitor,
        r: Vec<Action>,
        changes: Vec<ModelChange>,
        command: Option<DisplayCommand>,
    |
        #![trigger call_ensures(handle_event, (m, g, l, event, now_us), r), call_ensures(WindowModel::apply, (n, event), changes), call_ensures(command_for_change, (&*final(n), changes@[0]), command)]
        call_ensures(handle_event, (m, g, l, event, now_us), r) && (*n)@ == (*m)@
            && call_ensures(WindowModel::apply, (n, event), changes) && call_ensures(
            command_for_change,
            (&*final(n), changes@[0]),
            command,
        ) implies {
        let k = if event is Closed {
            r@.len() - 1
        } else {
            r@.len() as int
        };
        &&& final(m)@ == final(n)@
        &&& changes@.len() <= 1
        &&& k >= 0
        &&& changes@.len() == 0 ==> k == 0
        &&& changes@.len() == 1 ==> carries_out(r@.take(k), changes@[0], command)
        &&& event is Closed ==> r@.last() == Action::Stop
    } by {
        let views = (*m)@.changes(event@);
        lemma_one_change((*m)@, event@, (*g)@, (*l)@, now_us);
        assert(action_views(r@).len() == r@.len());
        assert(model::are_changes(changes@, views));
        let asked = event_actions((*m)@, event@);
        if changes@.len() == 1 {
            assert(changes@[0]@ == views[0]);
        }
        if r@.len() > 0 {
            assert(action_views(r@)[0] == r@[0]@);
            assert(action_views(r@)[r@.len() - 1] == r@[r@.len() - 1]@);
        }
    }
}

/// What is known of a window's geometry starts with the window, follows the guest's own moves and ends
/// with the window, as [`GeometrySync`] has it; nothing else that the agent sends touches it.
pub proof fn law_agent_events_anchor_the_geometry(
    opened: WindowOpened,
    moved: WindowGeometry,
    closed: WindowClosed,
    event: ClientEvent,
    now_us: u64,
)
    ensures
        forall|
            m: &mut WindowModel,
            g: &mut GeometrySync,
            h: &mut GeometrySync,
            l: &mut LatencyMonitor,
            r: Vec<Action>,
        |
            #![trigger call_ensures(handle_event, (m, g, l, ClientEvent::WindowOpened(opened), now_us), r), call_ensures(GeometrySync::created, (h, now_us, opened.window_id, opened.x, opened.y, (opened.width, opened.height)), ())]
            call_ensures(
                handle_event,
                (m, g, l, ClientEvent::WindowOpened(opened), now_us),
                r,
            ) && call_ensures(
                GeometrySync::created,
                (h, now_us, opened.window_id, opened.x, opened.y, (opened.width, opened.height)),
                (),
            ) && (*h)@ == (*g)@ ==> final(g)@ == (if (*m)@.windows.contains_key(
                opened.window_id,
            ) {
                (*g)@
            } else {
                final(h)@
            }),
        forall|
            m: &mut WindowModel,
            g: &mut GeometrySync,
            h: &mut GeometrySync,
            l: &mut LatencyMonitor,
            r: Vec<Action>,
        |
            #![trigger call_ensures(handle_event, (m, g, l, ClientEvent::WindowGeometry(moved), now_us), r), call_ensures(GeometrySync::guest_moved, (h, now_us, moved.window_id, moved.x, moved.y, (moved.width, moved.height)), ())]
            call_ensures(
                handle_event,
                (m, g, l, ClientEvent::WindowGeometry(moved), now_us),
                r,
            ) && call_ensures(
                GeometrySync::guest_moved,
                (h, now_us, moved.window_id, moved.x, moved.y, (moved.width, moved.height)),
                (),
            ) && (*h)@ == (*g)@ ==> final(g)@ == (if (*m)@.windows.contains_key(
                moved.window_id,
            ) && ({
                let w = (*m)@.windows[moved.window_id];
                w.x != moved.x || w.y != moved.y || w.width != moved.width || w.height
                    != moved.height
            }) {
                final(h)@
            } else {
                (*g)@
            }),
        forall|
            m: &mut WindowModel,
            g: &mut GeometrySync,
            h: &mut GeometrySync,
            l: &mut LatencyMonitor,
            r: Vec<Action>,
        |
            #![trigger call_ensures(handle_event, (m, g, l, ClientEvent::WindowClosed(closed), now_us), r), call_ensures(GeometrySync::forget, (h, closed.window_id), ())]
            call_ensures(
                handle_event,
                (m, g, l, ClientEvent::WindowClosed(closed), now_us),
                r,
            ) && call_ensures(GeometrySync::forget, (h, closed.window_id), ()) && (*h)@ == (*g)@
                ==> final(g)@ == (if (*m)@.windows.contains_key(closed.window_id) {
                final(h)@
            } else {
                (*g)@
            }),
        !(event is WindowOpened) && !(event is WindowGeometry) && !(event is WindowClosed)
            ==> forall|
            m: &mut WindowModel,
            g: &mut GeometrySync,
            l: &mut LatencyMonitor,
            r: Vec<Action>,
        | #[trigger]
            call_ensures(handle_event, (m, g, l, event, now_us), r) ==> final(g)@ == (*g)@,
{
    assert forall|
        m: &mut WindowModel,
        g: &mut GeometrySync,
        h: &mut GeometrySync,
        l: &mut LatencyMonitor,
        r: Vec<Action>,
    |
        #![trigger call_ensures(handle_event, (m, g, l, ClientEvent::WindowOpened(opened), now_us), r), call_ensures(GeometrySync::created, (h, now_us, opened.window_id, opened.x, opened.y, (opened.width, opened.height)), ())]
        call_ensures(handle_event, (m, g, l, ClientEvent::WindowOpened(opened), now_us), r)
            && call_ensures(
            GeometrySync::created,
            (h, now_us, opened.window_id, opened.x, opened.y, (opened.width, opened.height)),
            (),
        ) && (*h)@ == (*g)@ implies final(g)@ == (if (*m)@.windows.contains_key(
        opened.window_id,
    ) {
        (*g)@
    } else {
        final(h)@
    }) by {
        lemma_one_change(
            (*m)@,
            ClientEvent::WindowOpened(opened)@,
            (*g)@,
            (*l)@,
            now_us,
        );
    }
    assert forall|
        m: &mut WindowModel,
        g: &mut GeometrySync,
        h: &mut GeometrySync,
        l: &mut LatencyMonitor,
        r: Vec<Action>,
    |
        #![trigger call_ensures(handle_event, (m, g, l, ClientEvent::WindowGeometry(moved), now_us), r), call_ensures(GeometrySync::guest_moved, (h, now_us, moved.window_id, moved.x, moved.y, (moved.width, moved.height)), ())]
        call_ensures(handle_event, (m, g, l, ClientEvent::WindowGeometry(moved), now_us), r)
            && call_ensures(
            GeometrySync::guest_moved,
            (h, now_us, moved.window_id, moved.x, moved.y, (moved.width, moved.height)),
            (),
        ) && (*h)@ == (*g)@ implies final(g)@ == (if (*m)@.windows.contains_key(moved.window_id)
        && ({
        let w = (*m)@.windows[moved.window_id];
        w.x != moved.x || w.y != moved.y || w.width != moved.width || w.height != moved.height
    }) {
        final(h)@
    } else {
        (*g)@
    }) by {
        lemma_one_change(
            (*m)@,
            ClientEvent::WindowGeometry(moved)@,
            (*g)@,
            (*l)@,
            now_us,
        );
    }
    assert forall|
        m: &mut WindowModel,
        g: &mut GeometrySync,
        h: &mut GeometrySync,
        l: &mut LatencyMonitor,
        r: Vec<Action>,
    |
        #![trigger call_ensures(handle_event, (m, g, l, ClientEvent::WindowClosed(closed), now_us), r), call_ensures(GeometrySync::forget, (h, closed.window_id), ())]
        call_ensures(handle_event, (m, g, l, ClientEvent::WindowClosed(closed), now_us), r)
            && call_ensures(GeometrySync::forget, (h, closed.window_id), ()) && (*h)@
            == (*g)@ implies final(g)@ == (if (*m)@.windows.contains_key(closed.window_id) {
        final(h)@
    } else {
        (*g)@
    }) by {
        lemma_one_change(
            (*m)@,
            ClientEvent::WindowClosed(closed)@,
            (*g)@,
            (*l)@,
            now_us,
        );
    }
    if !(event is WindowOpened) && !(event is WindowGeometry) && !(event is WindowClosed) {
        assert forall|
            m: &mut WindowModel,
            g: &mut GeometrySync,
            l: &mut LatencyMonitor,
            r: Vec<Action>,
        | #[trigger] call_ensures(handle_event, (m, g, l, event, now_us), r) implies final(g)@
            == (*g)@ by {
            lemma_one_change((*m)@, event@, (*g)@, (*l)@, now_us);
        }
    }
}

/// A frame is counted as arrived the moment it is taken in, with the agent's own times, and a window
/// that is gone is no longer counted, as [`LatencyMonitor`] has it; nothing else that the agent sends
/// is counted.
pub proof fn law_agent_events_are_counted(
    frame: FrameData,
    closed: WindowClosed,
    event: ClientEvent,
    now_us: u64,
)
    ensures
        forall|
            m: &mut WindowModel,
            g: &mut GeometrySync,
            l: &mut LatencyMonitor,
            k: &mut LatencyMonitor,
            r: Vec<Action>,
        |
            #![trigger call_ensures(handle_event, (m, g, l, ClientEvent::Frame(frame), now_us), r), call_ensures(LatencyMonitor::on_arrival, (k, frame.window_id, frame.frame_id, frame.captured_us, frame.encoded_us, now_us), ())]
            call_ensures(handle_event, (m, g, l, ClientEvent::Frame(frame), now_us), r)
                && call_ensures(
                LatencyMonitor::on_arrival,
                (
                    k,
                    frame.window_id,
                    frame.frame_id,
                    frame.captured_us,
                    frame.encoded_us,
                    now_us,
                ),
                (),
            ) && (*k)@ == (*l)@ ==> final(l)@ == final(k)@,
        forall|
            m: &mut WindowModel,
            g: &mut GeometrySync,
            l: &mut LatencyMonitor,
            k: &mut LatencyMonitor,
            r: Vec<Action>,
        |
            #![trigger call_ensures(handle_event, (m, g, l, ClientEvent::WindowClosed(closed), now_us), r), call_ensures(LatencyMonitor::forget, (k, closed.window_id), ())]
            call_ensures(
                handle_event,
                (m, g, l, ClientEvent::WindowClosed(closed), now_us),
                r,
            ) && call_ensures(LatencyMonitor::forget, (k, closed.window_id), ()) && (*k)@
                == (*l)@ ==> final(l)@ == (if (*m)@.windows.contains_key(closed.window_id) {
                final(k)@
            } else {
                (*l)@
            }),
        !(event is Frame) && !(event is WindowClosed) ==> forall|
            m: &mut WindowModel,
            g: &mut GeometrySync,
            l: &mut LatencyMonitor,
            r: Vec<Action>,
        | #[trigger]
            call_ensures(handle_event, (m, g, l, event, now_us), r) ==> final(l)@ == (*l)@,
{
    assert forall|
        m: &mut WindowModel,
        g: &mut GeometrySync,
        l: &mut LatencyMonitor,
        k: &mut LatencyMonitor,
        r: Vec<Action>,
    |
        #![trigger call_ensures(handle_event, (m, g, l, ClientEvent::Frame(frame), now_us), r), call_ensures(LatencyMonitor::on_arrival, (k, frame.window_id, frame.frame_id, frame.captured_us, frame.encoded_us, now_us), ())]
        call_ensures(handle_event, (m, g, l, ClientEvent::Frame(frame), now_us), r)
            && call_ensures(
            LatencyMonitor::on_arrival,
            (k, frame.window_id, frame.frame_id, frame.captured_us, frame.encoded_us, now_us),
            (),
        ) && (*k)@ == (*l)@ implies final(l)@ == final(k)@ by {
        lemma_one_change((*m)@, ClientEvent::Frame(frame)@, (*g)@, (*l)@, now_us);
    }
    assert forall|
        m: &mut WindowModel,
        g: &mut GeometrySync,
        l: &mut LatencyMonitor,
        k: &mut LatencyMonitor,
        r: Vec<Action>,
    |
        #![trigger call_ensures(handle_event, (m, g, l, ClientEvent::WindowClosed(closed), now_us), r), call_ensures(LatencyMonitor::forget, (k, closed.window_id), ())]
        call_ensures(handle_event, (m, g, l, ClientEvent::WindowClosed(closed), now_us), r)
            && call_ensures(LatencyMonitor::forget, (k, closed.window_id), ()) && (*k)@
            == (*l)@ implies final(l)@ == (if (*m)@.windows.contains_key(closed.window_id) {
        final(k)@
    } else {
        (*l)@
    }) by {
        lemma_one_change(
            (*m)@,
            ClientEvent::WindowClosed(closed)@,
            (*g)@,
            (*l)@,
            now_us,
        );
    }
    if !(event is Frame) && !(event is WindowClosed) {
        assert forall|
            m: &mut WindowModel,
            g: &mut GeometrySync,
            l: &mut LatencyMonitor,
            r: Vec<Action>,
        | #[trigger] call_ensures(handle_event, (m, g, l, event, now_us), r) implies final(l)@
            == (*l)@ by {
            lemma_one_change((*m)@, event@, (*g)@, (*l)@, now_us);
        }
    }
}

/// A frame is acknowledged with its own ids and times, where that was agreed on.
pub proof fn law_acknowledgements_carry_the_frame(
    features: u64,
    window_id: u32,
    frame_id: u64,
    decoded_us: u64,
    presented_us: u64,
    r: Option<Message>,
)
    requires
        call_ensures(frame_ack, (features, window_id, frame_id, decoded_us, presented_us), r),
    ensures
        features & 2 == 0 ==> r is None,
        features & 2 != 0 ==> (r matches Some(Message::FrameAck(m)) && m.window_id == window_id
            && m.frame_id == frame_id && m.decoded_us == decoded_us && m.presented_us
            == presented_us),
{
}

/// A codec is refused with what it is and what was offered instead.
pub proof fn law_codec_refusals_are_worded(
    codec: u8,
    offered: Vec<u8>,
    parts: Vec<String>,
    list: String,
    r: Option<String>,
)
    requires
        call_ensures(codec_refusal, (codec,), r),
        call_ensures(preferred_codecs, (), offered),
        call_ensures(text::join, (&parts, ", "), list),
        parts@.len() == offered@.len(),
        forall|i: int|
            0 <= i < offered@.len() ==> (#[trigger] parts@[i])@ == text::decimal(
                offered@[i] as nat,
            ),
    ensures
        r matches Some(message) ==> message@ == "agent selected codec "@ + text::decimal(
            codec as nat,
        ) + " which this client cannot decode (advertised ["@ + list@ + "])"@,
{
    let given = parts@.map_values(|s: String| s@);
    let owed = offered@.map_values(|c: u8| text::decimal(c as nat));
    assert forall|i: int| 0 <= i < offered@.len() implies given[i] == #[trigger] owed[i] by {
        assert(parts@[i]@ == text::decimal(offered@[i] as nat));
    }
    assert(given =~= owed);
}

} // verus!
