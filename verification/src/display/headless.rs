//! A backend without windows, for tests and for machines without a display server.

use std::collections::HashSet;

use vstd::prelude::*;

use crate::display::presenter::PresentTimes;
use crate::display::{
    apply_display_command, DisplayBackend, DisplayCommand, DisplayCommandView, DisplayError,
    WindowSpec,
};
use crate::proto::message::{CursorShape, FrameData};

verus! {

/// Recorded backend call for headless tests.
#[derive(Debug, Clone, PartialEq, Eq)]
pub enum HeadlessCall {
    /// Create a window.
    Created {
        /// Window id.
        window_id: u32,
        /// Application id.
        app_id: String,
        /// Window title.
        title: String,
        /// X coordinate.
        x: i32,
        /// Y coordinate.
        y: i32,
        /// Width.
        width: u16,
        /// Height.
        height: u16,
        /// Owner window id.
        owner_id: u32,
    },
    /// Destroy a window.
    Destroyed(u32),
    /// Move or resize a window.
    Moved {
        /// Window id.
        window_id: u32,
        /// X coordinate.
        x: i32,
        /// Y coordinate.
        y: i32,
        /// Width.
        width: u16,
        /// Height.
        height: u16,
    },
    /// Retitle a window.
    Retitled {
        /// Window id.
        window_id: u32,
        /// New title.
        title: String,
    },
    /// Change state.
    StateChanged {
        /// Window id.
        window_id: u32,
        /// Minimized.
        minimized: bool,
        /// Maximized.
        maximized: bool,
    },
    /// Change icon.
    IconChanged(u32),
    /// Restack windows bottom-to-top.
    Restacked(Vec<u32>),
    /// Present frame.
    Frame {
        /// Window id.
        window_id: u32,
        /// Frame id.
        frame_id: u64,
        /// Payload bytes.
        bytes: usize,
    },
    /// Cursor shape changed.
    CursorShape {
        /// Cursor id.
        cursor_id: u32,
        /// Width.
        width: u16,
        /// Height.
        height: u16,
    },
    /// Cursor moved.
    CursorMoved {
        /// Window id.
        window_id: u32,
        /// X.
        x: i32,
        /// Y.
        y: i32,
    },
    /// Cursor visibility changed.
    CursorVisibility(bool),
    /// Agent error surfaced.
    AgentError {
        /// Error code.
        code: u16,
        /// Error message.
        message: String,
    },
    /// Session closed.
    Closed,
}

/// What a [`HeadlessCall`] holds.
pub enum HeadlessCallView {
    /// See [`HeadlessCall::Created`].
    Created {
        /// Window id.
        window_id: u32,
        /// Application id.
        app_id: Seq<char>,
        /// Window title.
        title: Seq<char>,
        /// X coordinate.
        x: i32,
        /// Y coordinate.
        y: i32,
        /// Width.
        width: u16,
        /// Height.
        height: u16,
        /// Owner window id.
        owner_id: u32,
    },
    /// See [`HeadlessCall::Destroyed`].
    Destroyed(u32),
    /// See [`HeadlessCall::Moved`].
    Moved {
        /// Window id.
        window_id: u32,
        /// X coordinate.
        x: i32,
        /// Y coordinate.
        y: i32,
        /// Width.
        width: u16,
        /// Height.
        height: u16,
    },
    /// See [`HeadlessCall::Retitled`].
    Retitled {
        /// Window id.
        window_id: u32,
        /// New title.
        title: Seq<char>,
    },
    /// See [`HeadlessCall::StateChanged`].
    StateChanged {
        /// Window id.
        window_id: u32,
        /// Minimized.
        minimized: bool,
        /// Maximized.
        maximized: bool,
    },
    /// See [`HeadlessCall::IconChanged`].
    IconChanged(u32),
    /// See [`HeadlessCall::Restacked`].
    Restacked(Seq<u32>),
    /// See [`HeadlessCall::Frame`].
    Frame {
        /// Window id.
        window_id: u32,
        /// Frame id.
        frame_id: u64,
        /// Payload bytes.
        bytes: nat,
    },
    /// See [`HeadlessCall::CursorShape`].
    CursorShape {
        /// Cursor id.
        cursor_id: u32,
        /// Width.
        width: u16,
        /// Height.
        height: u16,
    },
    /// See [`HeadlessCall::CursorMoved`].
    CursorMoved {
        /// Window id.
        window_id: u32,
        /// X.
        x: i32,
        /// Y.
        y: i32,
    },
    /// See [`HeadlessCall::CursorVisibility`].
    CursorVisibility(bool),
    /// See [`HeadlessCall::AgentError`].
    AgentError {
        /// Error code.
        code: u16,
        /// Error message.
        message: Seq<char>,
    },
    /// See [`HeadlessCall::Closed`].
    Closed,
}

impl View for HeadlessCall {
    type V = HeadlessCallView;

    open spec fn view(&self) -> HeadlessCallView {
        match self {
            HeadlessCall::Created {
                window_id,
                app_id,
                title,
                x,
                y,
                width,
                height,
                owner_id,
            } => HeadlessCallView::Created {
                window_id: *window_id,
                app_id: app_id@,
                title: title@,
                x: *x,
                y: *y,
                width: *width,
                height: *height,
                owner_id: *owner_id,
            },
            HeadlessCall::Destroyed(id) => HeadlessCallView::Destroyed(*id),
            HeadlessCall::Moved { window_id, x, y, width, height } => HeadlessCallView::Moved {
                window_id: *window_id,
                x: *x,
                y: *y,
                width: *width,
                height: *height,
            },
            HeadlessCall::Retitled { window_id, title } => HeadlessCallView::Retitled {
                window_id: *window_id,
                title: title@,
            },
            HeadlessCall::StateChanged {
                window_id,
                minimized,
                maximized,
            } => HeadlessCallView::StateChanged {
                window_id: *window_id,
                minimized: *minimized,
                maximized: *maximized,
            },
            HeadlessCall::IconChanged(id) => HeadlessCallView::IconChanged(*id),
            HeadlessCall::Restacked(stack) => HeadlessCallView::Restacked(stack@),
            HeadlessCall::Frame { window_id, frame_id, bytes } => HeadlessCallView::Frame {
                window_id: *window_id,
                frame_id: *frame_id,
                bytes: *bytes as nat,
            },
            HeadlessCall::CursorShape { cursor_id, width, height } => HeadlessCallView::CursorShape {
                cursor_id: *cursor_id,
                width: *width,
                height: *height,
            },
            HeadlessCall::CursorMoved { window_id, x, y } => HeadlessCallView::CursorMoved {
                window_id: *window_id,
                x: *x,
                y: *y,
            },
            HeadlessCall::CursorVisibility(visible) => HeadlessCallView::CursorVisibility(*visible),
            HeadlessCall::AgentError { code, message } => HeadlessCallView::AgentError {
                code: *code,
                message: message@,
            },
            HeadlessCall::Closed => HeadlessCallView::Closed,
        }
    }
}

/// What some calls hold.
pub open spec fn call_views(calls: Seq<HeadlessCall>) -> Seq<HeadlessCallView> {
    calls.map_values(|call: HeadlessCall| call@)
}

/// The call that a command is recorded as.
pub open spec fn recorded(command: DisplayCommandView) -> HeadlessCallView {
    match command {
        DisplayCommandView::CreateWindow(w) => HeadlessCallView::Created {
            window_id: w.window_id,
            app_id: w.app_id,
            title: w.title,
            x: w.x,
            y: w.y,
            width: w.width,
            height: w.height,
            owner_id: w.owner_id,
        },
        DisplayCommandView::DestroyWindow(id) => HeadlessCallView::Destroyed(id),
        DisplayCommandView::MoveWindow(w) => HeadlessCallView::Moved {
            window_id: w.window_id,
            x: w.x,
            y: w.y,
            width: w.width,
            height: w.height,
        },
        DisplayCommandView::RetitleWindow(w) => HeadlessCallView::Retitled {
            window_id: w.window_id,
            title: w.title,
        },
        DisplayCommandView::ChangeState(w) => HeadlessCallView::StateChanged {
            window_id: w.window_id,
            minimized: w.minimized,
            maximized: w.maximized,
        },
        DisplayCommandView::ChangeIcon(w) => HeadlessCallView::IconChanged(w.window_id),
        DisplayCommandView::Restack(stack) => HeadlessCallView::Restacked(stack),
        DisplayCommandView::Frame(frame) => HeadlessCallView::Frame {
            window_id: frame.window_id,
            frame_id: frame.frame_id,
            bytes: frame.data.len(),
        },
        DisplayCommandView::CursorShape(shape) => HeadlessCallView::CursorShape {
            cursor_id: shape.cursor_id,
            width: shape.width,
            height: shape.height,
        },
        DisplayCommandView::CursorPosition { window_id, x, y } => HeadlessCallView::CursorMoved {
            window_id,
            x,
            y,
        },
        DisplayCommandView::CursorVisibility(visible) => HeadlessCallView::CursorVisibility(
            visible,
        ),
        DisplayCommandView::AgentError { code, message } => HeadlessCallView::AgentError {
            code,
            message,
        },
        DisplayCommandView::Shutdown => HeadlessCallView::Closed,
    }
}

/// What a [`HeadlessBackend`] holds.
pub struct HeadlessView {
    /// The calls recorded, oldest first.
    pub calls: Seq<HeadlessCallView>,
    /// The windows that exist.
    pub windows: Set<u32>,
}

impl HeadlessView {
    /// The backend once it has executed a command. Frames for windows that do not exist leave
    /// no trace.
    pub open spec fn after(self, command: DisplayCommandView) -> HeadlessView {
        match command {
            DisplayCommandView::CreateWindow(w) => HeadlessView {
                calls: self.calls.push(recorded(command)),
                windows: self.windows.insert(w.window_id),
            },
            DisplayCommandView::DestroyWindow(id) => HeadlessView {
                calls: self.calls.push(recorded(command)),
                windows: self.windows.remove(id),
            },
            DisplayCommandView::Frame(frame) if !self.windows.contains(frame.window_id) => self,
            _ => HeadlessView { calls: self.calls.push(recorded(command)), ..self },
        }
    }
}

/// Headless backend that records calls without opening native windows.
#[derive(Debug)]
pub struct HeadlessBackend {
    calls: Vec<HeadlessCall>,
    windows: HashSet<u32>,
}

impl View for HeadlessBackend {
    type V = HeadlessView;

    closed spec fn view(&self) -> HeadlessView {
        HeadlessView { calls: call_views(self.calls@), windows: self.windows@ }
    }
}

impl Default for HeadlessBackend {
    fn default() -> (r: Self)
        ensures
            r@ == (HeadlessView { calls: Seq::empty(), windows: Set::empty() }),
    {
        HeadlessBackend::new()
    }
}

impl HeadlessBackend {
    /// Create an empty headless backend.
    pub fn new() -> (r: Self)
        ensures
            r@ == (HeadlessView { calls: Seq::empty(), windows: Set::empty() }),
    {
        broadcast use vstd::std_specs::hash::group_hash_axioms;

        let r = HeadlessBackend { calls: Vec::new(), windows: HashSet::new() };
        assert(r@.calls =~= Seq::empty());
        assert(r@.windows =~= Set::empty());
        r
    }

    /// Recorded calls.
    pub fn calls(&self) -> (r: &[HeadlessCall])
        ensures
            call_views(r@) == self@.calls,
    {
        self.calls.as_slice()
    }

    /// Remove and return recorded calls.
    pub fn take_calls(&mut self) -> (r: Vec<HeadlessCall>)
        ensures
            call_views(r@) == old(self)@.calls,
            final(self)@ == (HeadlessView { calls: Seq::empty(), ..old(self)@ }),
    {
        let mut calls: Vec<HeadlessCall> = Vec::new();
        std::mem::swap(&mut self.calls, &mut calls);
        assert(self@.calls =~= Seq::empty());
        calls
    }

    /// Records a call.
    fn record(&mut self, call: HeadlessCall)
        ensures
            final(self)@ == (HeadlessView { calls: old(self)@.calls.push(call@), ..old(self)@ }),
    {
        self.calls.push(call);
        assert(self@.calls =~= old(self)@.calls.push(call@));
    }
}

impl DisplayBackend for HeadlessBackend {
    open spec fn executes(
        before: Self,
        command: DisplayCommandView,
        r: Result<(), DisplayError>,
        after: Self,
    ) -> bool {
        r is Ok && after@ == before@.after(command)
    }

    fn create_window(&mut self, window: &WindowSpec) -> Result<(), DisplayError> {
        broadcast use vstd::std_specs::hash::group_hash_axioms;

        self.windows.insert(window.window_id);
        self.record(
            HeadlessCall::Created {
                window_id: window.window_id,
                app_id: window.app_id.clone(),
                title: window.title.clone(),
                x: window.x,
                y: window.y,
                width: window.width,
                height: window.height,
                owner_id: window.owner_id,
            },
        );
        Ok(())
    }

    fn destroy_window(&mut self, window_id: u32) -> Result<(), DisplayError> {
        broadcast use vstd::std_specs::hash::group_hash_axioms;

        self.windows.remove(&window_id);
        self.record(HeadlessCall::Destroyed(window_id));
        Ok(())
    }

    fn move_window(&mut self, window: &WindowSpec) -> Result<(), DisplayError> {
        self.record(
            HeadlessCall::Moved {
                window_id: window.window_id,
                x: window.x,
                y: window.y,
                width: window.width,
                height: window.height,
            },
        );
        Ok(())
    }

    fn retitle_window(&mut self, window: &WindowSpec) -> Result<(), DisplayError> {
        self.record(
            HeadlessCall::Retitled { window_id: window.window_id, title: window.title.clone() },
        );
        Ok(())
    }

    fn change_state(&mut self, window: &WindowSpec) -> Result<(), DisplayError> {
        self.record(
            HeadlessCall::StateChanged {
                window_id: window.window_id,
                minimized: window.minimized,
                maximized: window.maximized,
            },
        );
        Ok(())
    }

    fn change_icon(&mut self, window: &WindowSpec) -> Result<(), DisplayError> {
        self.record(HeadlessCall::IconChanged(window.window_id));
        Ok(())
    }

    fn restack(&mut self, stack: &[u32]) -> Result<(), DisplayError> {
        let mut copy: Vec<u32> = Vec::new();
        copy.extend_from_slice(stack);
        assert(copy@ =~= stack@);
        self.record(HeadlessCall::Restacked(copy));
        Ok(())
    }

    fn frame(&mut self, frame: &FrameData) -> (r: Result<Option<PresentTimes>, DisplayError>)
        ensures
            r == Ok::<Option<PresentTimes>, DisplayError>(
                if old(self)@.windows.contains(frame.window_id) {
                    Some(PresentTimes { decoded_us: 0, presented_us: 0 })
                } else {
                    None
                },
            ),
    {
        broadcast use vstd::std_specs::hash::group_hash_axioms;

        if !self.windows.contains(&frame.window_id) {
            return Ok(None);
        }
        self.record(
            HeadlessCall::Frame {
                window_id: frame.window_id,
                frame_id: frame.frame_id,
                bytes: frame.data.len(),
            },
        );
        Ok(Some(PresentTimes { decoded_us: 0, presented_us: 0 }))
    }

    fn cursor_shape(&mut self, shape: &CursorShape) -> Result<(), DisplayError> {
        self.record(
            HeadlessCall::CursorShape {
                cursor_id: shape.cursor_id,
                width: shape.width,
                height: shape.height,
            },
        );
        Ok(())
    }

    fn cursor_moved(&mut self, window_id: u32, x: i32, y: i32) -> Result<(), DisplayError> {
        self.record(HeadlessCall::CursorMoved { window_id, x, y });
        Ok(())
    }

    fn cursor_visibility(&mut self, visible: bool) -> Result<(), DisplayError> {
        self.record(HeadlessCall::CursorVisibility(visible));
        Ok(())
    }

    fn agent_error(&mut self, code: u16, message: &str) -> Result<(), DisplayError> {
        self.record(HeadlessCall::AgentError { code, message: message.to_owned() });
        Ok(())
    }

    fn closed(&mut self) -> Result<(), DisplayError> {
        self.record(HeadlessCall::Closed);
        Ok(())
    }
}

/// Commands are recorded one by one and in order: whatever came before stays recorded.
pub proof fn law_calls_are_recorded_in_order(backend: HeadlessView, command: DisplayCommandView)
    ensures
        ({
            let after = backend.after(command).calls;
            after == backend.calls || after == backend.calls.push(recorded(command))
        }),
{
}

/// A frame for a window that was never created, or was destroyed, is not presented.
pub proof fn law_frames_for_unknown_windows_are_dropped(
    backend: HeadlessView,
    window_id: u32,
    frame: crate::proto::message::FrameDataView,
)
    requires
        frame.window_id == window_id,
    ensures
        ({
            let gone = backend.after(DisplayCommandView::DestroyWindow(window_id));
            gone.after(DisplayCommandView::Frame(frame)) == gone
        }),
        !backend.windows.contains(window_id) ==> backend.after(DisplayCommandView::Frame(frame))
            == backend,
{
}

/// Every command is recorded as the call of its name with what the command said, except a frame for a
/// window that does not exist.
pub proof fn law_commands_are_recorded(command: DisplayCommand)
    ensures
        forall|
            b: &mut HeadlessBackend,
            r: Result<(), DisplayError>,
            before: &[HeadlessCall],
            after: &[HeadlessCall],
        |
            #![trigger call_ensures(apply_display_command::<HeadlessBackend>, (b, command), r), call_ensures(HeadlessBackend::calls, (&*b,), before), call_ensures(HeadlessBackend::calls, (&*final(b),), after)]
            call_ensures(apply_display_command::<HeadlessBackend>, (b, command), r)
                && call_ensures(HeadlessBackend::calls, (&*b,), before) && call_ensures(
                HeadlessBackend::calls,
                (&*final(b),),
                after,
            ) ==> {
                let n = before@.len() as int;
                let lost = command matches DisplayCommand::Frame(f) && !(*b)@.windows.contains(
                    f.window_id,
                );
                &&& r is Ok
                &&& after@.len() == (if lost {
                    n
                } else {
                    n + 1
                })
                &&& !lost ==> is_call(command, after@[n])
                &&& forall|i: int| 0 <= i < n ==> (#[trigger] after@[i])@ == before@[i]@
            },
{
    assert forall|
        b: &mut HeadlessBackend,
        r: Result<(), DisplayError>,
        before: &[HeadlessCall],
        after: &[HeadlessCall],
    |
        #![trigger call_ensures(apply_display_command::<HeadlessBackend>, (b, command), r), call_ensures(HeadlessBackend::calls, (&*b,), before), call_ensures(HeadlessBackend::calls, (&*final(b),), after)]
        call_ensures(apply_display_command::<HeadlessBackend>, (b, command), r) && call_ensures(
            HeadlessBackend::calls,
            (&*b,),
            before,
        ) && call_ensures(HeadlessBackend::calls, (&*final(b),), after) implies {
        let n = before@.len() as int;
        let lost = command matches DisplayCommand::Frame(f) && !(*b)@.windows.contains(f.window_id);
        &&& r is Ok
        &&& after@.len() == (if lost {
            n
        } else {
            n + 1
        })
        &&& !lost ==> is_call(command, after@[n])
        &&& forall|i: int| 0 <= i < n ==> (#[trigger] after@[i])@ == before@[i]@
    } by {
        let n = before@.len() as int;
        let (old, new) = ((*b)@.calls, final(b)@.calls);
        assert(call_views(before@).len() == n);
        assert(call_views(after@).len() == after@.len());
        assert(HeadlessBackend::executes(*b, command@, r, *final(b)));
        assert(new == (*b)@.after(command@).calls);
        assert forall|i: int| 0 <= i < n implies (#[trigger] after@[i])@ == before@[i]@ by {
            assert(call_views(after@)[i] == after@[i]@);
            assert(call_views(before@)[i] == before@[i]@);
            assert(new[i] == old[i]);
        }
        if new.len() > n {
            assert(new[n] == recorded(command@));
            assert(call_views(after@)[n] == after@[n]@);
        }
    }
}

/// Whether a call says what a command does.
pub open spec fn is_call(command: DisplayCommand, call: HeadlessCall) -> bool {
    match command {
        DisplayCommand::CreateWindow(w) => {
            &&& call matches HeadlessCall::Created {
                window_id,
                app_id,
                title,
                x,
                y,
                width,
                height,
                owner_id,
            }
            &&& window_id == w.window_id && owner_id == w.owner_id
            &&& app_id@ == w.app_id@ && title@ == w.title@
            &&& x == w.x && y == w.y && width == w.width && height == w.height
        },
        DisplayCommand::DestroyWindow(id) => call == HeadlessCall::Destroyed(id),
        DisplayCommand::MoveWindow(w) => {
            &&& call matches HeadlessCall::Moved { window_id, x, y, width, height }
            &&& window_id == w.window_id
            &&& x == w.x && y == w.y && width == w.width && height == w.height
        },
        DisplayCommand::RetitleWindow(w) => {
            &&& call matches HeadlessCall::Retitled { window_id, title }
            &&& window_id == w.window_id && title@ == w.title@
        },
        DisplayCommand::ChangeState(w) => {
            &&& call matches HeadlessCall::StateChanged { window_id, minimized, maximized }
            &&& window_id == w.window_id && minimized == w.minimized && maximized == w.maximized
        },
        DisplayCommand::ChangeIcon(w) => call == HeadlessCall::IconChanged(w.window_id),
        DisplayCommand::Restack(stack) => call matches HeadlessCall::Restacked(s) && s@ == stack@,
        DisplayCommand::Frame(f) => {
            &&& call matches HeadlessCall::Frame { window_id, frame_id, bytes }
            &&& window_id == f.window_id && frame_id == f.frame_id && bytes == f.data@.len()
        },
        DisplayCommand::CursorShape(s) => {
            &&& call matches HeadlessCall::CursorShape { cursor_id, width, height }
            &&& cursor_id == s.cursor_id && width == s.width && height == s.height
        },
        DisplayCommand::CursorPosition { window_id, x, y } => call == (HeadlessCall::CursorMoved {
            window_id,
            x,
            y,
        }),
        DisplayCommand::CursorVisibility(visible) => call == HeadlessCall::CursorVisibility(
            visible,
        ),
        DisplayCommand::AgentError { code, message } => call matches HeadlessCall::AgentError {
            code: c,
            message: m,
        } && c == code && m@ == message@,
        DisplayCommand::Shutdown => call == HeadlessCall::Closed,
    }
}

/// Taking the calls leaves none behind.
pub proof fn law_taken_calls_are_gone()
    ensures
        forall|b: &mut HeadlessBackend, r: Vec<HeadlessCall>, after: &[HeadlessCall]|
            #![trigger call_ensures(HeadlessBackend::take_calls, (b,), r), call_ensures(HeadlessBackend::calls, (&*final(b),), after)]
            call_ensures(HeadlessBackend::take_calls, (b,), r) && call_ensures(
                HeadlessBackend::calls,
                (&*final(b),),
                after,
            ) ==> after@.len() == 0 && r@.len() == (*b)@.calls.len() && final(b)@.windows
                == (*b)@.windows,
{
    assert forall|b: &mut HeadlessBackend, r: Vec<HeadlessCall>, after: &[HeadlessCall]|
        #![trigger call_ensures(HeadlessBackend::take_calls, (b,), r), call_ensures(HeadlessBackend::calls, (&*final(b),), after)]
        call_ensures(HeadlessBackend::take_calls, (b,), r) && call_ensures(
            HeadlessBackend::calls,
            (&*final(b),),
            after,
        ) implies after@.len() == 0 && r@.len() == (*b)@.calls.len() && final(b)@.windows
        == (*b)@.windows by {
        assert(call_views(after@).len() == after@.len());
        assert(call_views(r@).len() == r@.len());
    }
}

} // verus!
