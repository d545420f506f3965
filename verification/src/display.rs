//! Display layer for the client.
//!
//! Native window lifecycle and presentation: the window model emits ordered changes, these become
//! [`DisplayCommand`]s, and a [`DisplayBackend`] executes them on native windows. What happens to
//! those windows comes back as [`DisplayEvent`]s. `WindowZOrder` is accepted and ignored by the
//! native backends: stacking belongs to the local window manager.

pub mod headless;
pub mod input;
pub mod pixels;
pub mod presenter;
pub mod windows;

use vstd::prelude::*;

use crate::client::model;
use crate::client::model::{
    ModelChange, ModelChangeView, ModelView, RemoteWindow, RemoteWindowView, WindowModel,
};
use crate::display::presenter::PresentTimes;
use crate::proto::message::{
    CursorShape, CursorShapeView, FrameData, FrameDataView, Output, WindowIcon, WindowIconView,
};
use crate::proto::pdu;

verus! {

/// What a backend needs to know about one window.
#[derive(Debug, Clone, PartialEq, Eq)]
pub struct WindowSpec {
    /// Protocol id, stable for the session.
    pub window_id: u32,
    /// Application id, for `WM_CLASS`.
    pub app_id: String,
    /// Current title.
    pub title: String,
    /// Guest-side X.
    pub x: i32,
    /// Guest-side Y.
    pub y: i32,
    /// Width.
    pub width: u16,
    /// Height.
    pub height: u16,
    /// Owning window, or 0.
    pub owner_id: u32,
    /// Whether the window is minimized.
    pub minimized: bool,
    /// Whether the window is maximized.
    pub maximized: bool,
    /// Whether the user may resize the window.
    pub resizable: bool,
    /// Whether the guest window has a system frame.
    pub has_frame: bool,
    /// Whether the guest keeps the window above others.
    pub topmost: bool,
    /// Latest icon, if there is one.
    pub icon: Option<WindowIcon>,
}

/// What a [`WindowSpec`] holds.
pub struct WindowSpecView {
    /// See [`WindowSpec::window_id`].
    pub window_id: u32,
    /// See [`WindowSpec::app_id`].
    pub app_id: Seq<char>,
    /// See [`WindowSpec::title`].
    pub title: Seq<char>,
    /// See [`WindowSpec::x`].
    pub x: i32,
    /// See [`WindowSpec::y`].
    pub y: i32,
    /// See [`WindowSpec::width`].
    pub width: u16,
    /// See [`WindowSpec::height`].
    pub height: u16,
    /// See [`WindowSpec::owner_id`].
    pub owner_id: u32,
    /// See [`WindowSpec::minimized`].
    pub minimized: bool,
    /// See [`WindowSpec::maximized`].
    pub maximized: bool,
    /// See [`WindowSpec::resizable`].
    pub resizable: bool,
    /// See [`WindowSpec::has_frame`].
    pub has_frame: bool,
    /// See [`WindowSpec::topmost`].
    pub topmost: bool,
    /// See [`WindowSpec::icon`].
    pub icon: Option<WindowIconView>,
}

impl View for WindowSpec {
    type V = WindowSpecView;

    open spec fn view(&self) -> WindowSpecView {
        WindowSpecView {
            window_id: self.window_id,
            app_id: self.app_id@,
            title: self.title@,
            x: self.x,
            y: self.y,
            width: self.width,
            height: self.height,
            owner_id: self.owner_id,
            minimized: self.minimized,
            maximized: self.maximized,
            resizable: self.resizable,
            has_frame: self.has_frame,
            topmost: self.topmost,
            icon: model::icon_view(self.icon),
        }
    }
}

/// What a backend needs to know about a remote window.
pub open spec fn spec_of(window: RemoteWindowView) -> WindowSpecView {
    WindowSpecView {
        window_id: window.window_id,
        app_id: window.app_id,
        title: window.title,
        x: window.x,
        y: window.y,
        width: window.width,
        height: window.height,
        owner_id: window.owner_id,
        minimized: window.minimized,
        maximized: window.maximized,
        resizable: window.resizable,
        has_frame: window.has_frame,
        topmost: window.topmost,
        icon: window.icon,
    }
}

/// A copy of an icon.
fn copy_icon(icon: &Option<WindowIcon>) -> (r: Option<WindowIcon>)
    ensures
        model::icon_view(r) == model::icon_view(*icon),
{
    match icon {
        None => None,
        Some(icon) => Some(
            WindowIcon {
                window_id: icon.window_id,
                width: icon.width,
                height: icon.height,
                bgra: pdu::copy_bytes(icon.bgra.as_slice()),
            },
        ),
    }
}

/// What a backend needs to know about a remote window.
pub fn window_spec(window: &RemoteWindow) -> (r: WindowSpec)
    ensures
        r@ == spec_of(window@),
{
    WindowSpec {
        window_id: window.window_id,
        app_id: window.app_id.clone(),
        title: window.title.clone(),
        x: window.x,
        y: window.y,
        width: window.width,
        height: window.height,
        owner_id: window.owner_id,
        minimized: window.minimized,
        maximized: window.maximized,
        resizable: window.resizable,
        has_frame: window.has_frame,
        topmost: window.topmost,
        icon: copy_icon(&window.icon),
    }
}

/// Session thread to display thread command.
#[derive(Debug, Clone, PartialEq, Eq)]
pub enum DisplayCommand {
    /// Create a native window.
    CreateWindow(WindowSpec),
    /// Destroy a native window.
    DestroyWindow(u32),
    /// Apply guest geometry.
    MoveWindow(WindowSpec),
    /// Apply a window title.
    RetitleWindow(WindowSpec),
    /// Apply minimized/maximized/restored state.
    ChangeState(WindowSpec),
    /// Apply a window icon where the platform supports it.
    ChangeIcon(WindowSpec),
    /// The stacking order changed; bottom to top.
    Restack(Vec<u32>),
    /// Present a frame.
    Frame(FrameData),
    /// Set cursor bitmap.
    CursorShape(CursorShape),
    /// The cursor moved.
    CursorPosition {
        /// Window the cursor is over.
        window_id: u32,
        /// Window-relative X.
        x: i32,
        /// Window-relative Y.
        y: i32,
    },
    /// Show or hide native cursor.
    CursorVisibility(bool),
    /// Surface an agent error.
    AgentError {
        /// Protocol error code.
        code: u16,
        /// Human-readable message from the agent.
        message: String,
    },
    /// Stop the display loop.
    Shutdown,
}

/// What a [`DisplayCommand`] holds.
pub enum DisplayCommandView {
    /// See [`DisplayCommand::CreateWindow`].
    CreateWindow(WindowSpecView),
    /// See [`DisplayCommand::DestroyWindow`].
    DestroyWindow(u32),
    /// See [`DisplayCommand::MoveWindow`].
    MoveWindow(WindowSpecView),
    /// See [`DisplayCommand::RetitleWindow`].
    RetitleWindow(WindowSpecView),
    /// See [`DisplayCommand::ChangeState`].
    ChangeState(WindowSpecView),
    /// See [`DisplayCommand::ChangeIcon`].
    ChangeIcon(WindowSpecView),
    /// See [`DisplayCommand::Restack`].
    Restack(Seq<u32>),
    /// See [`DisplayCommand::Frame`].
    Frame(FrameDataView),
    /// See [`DisplayCommand::CursorShape`].
    CursorShape(CursorShapeView),
    /// See [`DisplayCommand::CursorPosition`].
    CursorPosition {
        /// Window the cursor is over.
        window_id: u32,
        /// Window-relative X.
        x: i32,
        /// Window-relative Y.
        y: i32,
    },
    /// See [`DisplayCommand::CursorVisibility`].
    CursorVisibility(bool),
    /// See [`DisplayCommand::AgentError`].
    AgentError {
        /// Protocol error code.
        code: u16,
        /// Human-readable message from the agent.
        message: Seq<char>,
    },
    /// See [`DisplayCommand::Shutdown`].
    Shutdown,
}

impl View for DisplayCommand {
    type V = DisplayCommandView;

    open spec fn view(&self) -> DisplayCommandView {
        match self {
            DisplayCommand::CreateWindow(w) => DisplayCommandView::CreateWindow(w@),
            DisplayCommand::DestroyWindow(id) => DisplayCommandView::DestroyWindow(*id),
            DisplayCommand::MoveWindow(w) => DisplayCommandView::MoveWindow(w@),
            DisplayCommand::RetitleWindow(w) => DisplayCommandView::RetitleWindow(w@),
            DisplayCommand::ChangeState(w) => DisplayCommandView::ChangeState(w@),
            DisplayCommand::ChangeIcon(w) => DisplayCommandView::ChangeIcon(w@),
            DisplayCommand::Restack(stack) => DisplayCommandView::Restack(stack@),
            DisplayCommand::Frame(frame) => DisplayCommandView::Frame(frame@),
            DisplayCommand::CursorShape(shape) => DisplayCommandView::CursorShape(shape@),
            DisplayCommand::CursorPosition {
                window_id,
                x,
                y,
            } => DisplayCommandView::CursorPosition { window_id: *window_id, x: *x, y: *y },
            DisplayCommand::CursorVisibility(visible) => DisplayCommandView::CursorVisibility(
                *visible,
            ),
            DisplayCommand::AgentError { code, message } => DisplayCommandView::AgentError {
                code: *code,
                message: message@,
            },
            DisplayCommand::Shutdown => DisplayCommandView::Shutdown,
        }
    }
}

/// Display thread to session thread event.
///
/// Coordinates are physical pixels. Pointer coordinates are window-relative.
#[derive(Debug, Clone, PartialEq, Eq)]
pub enum DisplayEvent {
    /// Pointer motion, button, or wheel state.
    Pointer {
        /// Target window.
        window_id: u32,
        /// Window-relative X.
        x: i32,
        /// Window-relative Y.
        y: i32,
        /// Held button bitmask.
        buttons: u8,
        /// Horizontal wheel delta in protocol units.
        wheel_x: i16,
        /// Vertical wheel delta in protocol units.
        wheel_y: i16,
    },
    /// Keyboard key press or release, already translated to PS/2 set 1.
    Key {
        /// PS/2 set 1 scancode.
        scancode: u16,
        /// `true` on press, `false` on release.
        pressed: bool,
        /// Whether the scancode has an E0 prefix.
        extended: bool,
    },
    /// UTF-8 text input for the IME path.
    Text {
        /// Text to send.
        text: String,
    },
    /// Authoritative modifier and lock state.
    Modifiers {
        /// Protocol modifier bitmask.
        modifiers: u16,
        /// Protocol lock bitmask.
        locks: u8,
    },
    /// Native focus changed.
    Focused {
        /// Window id.
        window_id: u32,
        /// Whether focus was gained.
        focused: bool,
    },
    /// User requested window close.
    CloseRequested {
        /// Window id.
        window_id: u32,
    },
    /// Local window size changed.
    ResizeRequested {
        /// Window id.
        window_id: u32,
        /// New width.
        width: u16,
        /// New height.
        height: u16,
    },
    /// Local X11 window position changed.
    MoveRequested {
        /// Window id.
        window_id: u32,
        /// New X.
        x: i32,
        /// New Y.
        y: i32,
    },
    /// Minimized state changed.
    Minimized {
        /// Window id.
        window_id: u32,
        /// Whether minimized.
        minimized: bool,
    },
    /// Frame was presented.
    Presented {
        /// Window id.
        window_id: u32,
        /// Frame id.
        frame_id: u64,
        /// Decode completion timestamp.
        decoded_us: u64,
        /// Presentation completion timestamp.
        presented_us: u64,
    },
    /// Fatal backend error.
    BackendError {
        /// Human-readable error.
        message: String,
    },
}

/// What a [`DisplayEvent`] holds.
pub enum DisplayEventView {
    /// See [`DisplayEvent::Pointer`].
    Pointer {
        /// Target window.
        window_id: u32,
        /// Window-relative X.
        x: i32,
        /// Window-relative Y.
        y: i32,
        /// Held button bitmask.
        buttons: u8,
        /// Horizontal wheel delta in protocol units.
        wheel_x: i16,
        /// Vertical wheel delta in protocol units.
        wheel_y: i16,
    },
    /// See [`DisplayEvent::Key`].
    Key {
        /// PS/2 set 1 scancode.
        scancode: u16,
        /// `true` on press, `false` on release.
        pressed: bool,
        /// Whether the scancode has an E0 prefix.
        extended: bool,
    },
    /// See [`DisplayEvent::Text`].
    Text {
        /// Text to send.
        text: Seq<char>,
    },
    /// See [`DisplayEvent::Modifiers`].
    Modifiers {
        /// Protocol modifier bitmask.
        modifiers: u16,
        /// Protocol lock bitmask.
        locks: u8,
    },
    /// See [`DisplayEvent::Focused`].
    Focused {
        /// Window id.
        window_id: u32,
        /// Whether focus was gained.
        focused: bool,
    },
    /// See [`DisplayEvent::CloseRequested`].
    CloseRequested {
        /// Window id.
        window_id: u32,
    },
    /// See [`DisplayEvent::ResizeRequested`].
    ResizeRequested {
        /// Window id.
        window_id: u32,
        /// New width.
        width: u16,
        /// New height.
        height: u16,
    },
    /// See [`DisplayEvent::MoveRequested`].
    MoveRequested {
        /// Window id.
        window_id: u32,
        /// New X.
        x: i32,
        /// New Y.
        y: i32,
    },
    /// See [`DisplayEvent::Minimized`].
    Minimized {
        /// Window id.
        window_id: u32,
        /// Whether minimized.
        minimized: bool,
    },
    /// See [`DisplayEvent::Presented`].
    Presented {
        /// Window id.
        window_id: u32,
        /// Frame id.
        frame_id: u64,
        /// Decode completion timestamp.
        decoded_us: u64,
        /// Presentation completion timestamp.
        presented_us: u64,
    },
    /// See [`DisplayEvent::BackendError`].
    BackendError {
        /// Human-readable error.
        message: Seq<char>,
    },
}

impl View for DisplayEvent {
    type V = DisplayEventView;

    open spec fn view(&self) -> DisplayEventView {
        match self {
            DisplayEvent::Pointer {
                window_id,
                x,
                y,
                buttons,
                wheel_x,
                wheel_y,
            } => DisplayEventView::Pointer {
                window_id: *window_id,
                x: *x,
                y: *y,
                buttons: *buttons,
                wheel_x: *wheel_x,
                wheel_y: *wheel_y,
            },
            DisplayEvent::Key { scancode, pressed, extended } => DisplayEventView::Key {
                scancode: *scancode,
                pressed: *pressed,
                extended: *extended,
            },
            DisplayEvent::Text { text } => DisplayEventView::Text { text: text@ },
            DisplayEvent::Modifiers { modifiers, locks } => DisplayEventView::Modifiers {
                modifiers: *modifiers,
                locks: *locks,
            },
            DisplayEvent::Focused { window_id, focused } => DisplayEventView::Focused {
                window_id: *window_id,
                focused: *focused,
            },
            DisplayEvent::CloseRequested { window_id } => DisplayEventView::CloseRequested {
                window_id: *window_id,
            },
            DisplayEvent::ResizeRequested {
                window_id,
                width,
                height,
            } => DisplayEventView::ResizeRequested {
                window_id: *window_id,
                width: *width,
                height: *height,
            },
            DisplayEvent::MoveRequested { window_id, x, y } => DisplayEventView::MoveRequested {
                window_id: *window_id,
                x: *x,
                y: *y,
            },
            DisplayEvent::Minimized { window_id, minimized } => DisplayEventView::Minimized {
                window_id: *window_id,
                minimized: *minimized,
            },
            DisplayEvent::Presented {
                window_id,
                frame_id,
                decoded_us,
                presented_us,
            } => DisplayEventView::Presented {
                window_id: *window_id,
                frame_id: *frame_id,
                decoded_us: *decoded_us,
                presented_us: *presented_us,
            },
            DisplayEvent::BackendError { message } => DisplayEventView::BackendError {
                message: message@,
            },
        }
    }
}

/// The display event loop is closed.
#[derive(Debug, Clone, Copy, PartialEq, Eq)]
pub struct Closed;

/// Error returned when the display loop or backend fails.
#[derive(Debug, Clone, PartialEq, Eq)]
pub struct DisplayError {
    message: String,
}

impl View for DisplayError {
    type V = Seq<char>;

    closed spec fn view(&self) -> Seq<char> {
        self.message@
    }
}

impl DisplayError {
    /// Creates a display error with a human-readable message.
    pub fn new(message: String) -> (r: Self)
        ensures
            r@ == message@,
    {
        DisplayError { message }
    }

    /// Error text.
    pub fn message(&self) -> (r: &str)
        ensures
            r@ == self@,
    {
        self.message.as_str()
    }
}

/// A backend that executes already-ordered commands.
///
/// This trait is intentionally smaller than a native event loop. It lets the headless backend
/// test the mapping without a display server.
pub trait DisplayBackend: Sized {
    /// Whether a backend, told to execute a command, may answer `r` and be left as `after`.
    spec fn executes(
        before: Self,
        command: DisplayCommandView,
        r: Result<(), DisplayError>,
        after: Self,
    ) -> bool;

    /// Create one native window.
    fn create_window(&mut self, window: &WindowSpec) -> (r: Result<(), DisplayError>)
        ensures
            Self::executes(
                *old(self),
                DisplayCommandView::CreateWindow(window@),
                r,
                *final(self),
            ),
    ;

    /// Destroy one native window.
    fn destroy_window(&mut self, window_id: u32) -> (r: Result<(), DisplayError>)
        ensures
            Self::executes(
                *old(self),
                DisplayCommandView::DestroyWindow(window_id),
                r,
                *final(self),
            ),
    ;

    /// Apply geometry; X11 backends also apply position, Wayland backends only apply size.
    fn move_window(&mut self, window: &WindowSpec) -> (r: Result<(), DisplayError>)
        ensures
            Self::executes(*old(self), DisplayCommandView::MoveWindow(window@), r, *final(self)),
    ;

    /// Apply title.
    fn retitle_window(&mut self, window: &WindowSpec) -> (r: Result<(), DisplayError>)
        ensures
            Self::executes(
                *old(self),
                DisplayCommandView::RetitleWindow(window@),
                r,
                *final(self),
            ),
    ;

    /// Apply minimized/maximized/restored state.
    fn change_state(&mut self, window: &WindowSpec) -> (r: Result<(), DisplayError>)
        ensures
            Self::executes(*old(self), DisplayCommandView::ChangeState(window@), r, *final(self)),
    ;

    /// Apply icon if supported.
    fn change_icon(&mut self, window: &WindowSpec) -> (r: Result<(), DisplayError>)
        ensures
            Self::executes(*old(self), DisplayCommandView::ChangeIcon(window@), r, *final(self)),
    ;

    /// Accept restack notification.
    fn restack(&mut self, stack: &[u32]) -> (r: Result<(), DisplayError>)
        ensures
            Self::executes(*old(self), DisplayCommandView::Restack(stack@), r, *final(self)),
    ;

    /// Present a frame. `None` means that there was nothing to present it on.
    fn frame(&mut self, frame: &FrameData) -> (r: Result<Option<PresentTimes>, DisplayError>)
        ensures
            Self::executes(
                *old(self),
                DisplayCommandView::Frame(frame@),
                done(r),
                *final(self),
            ),
    ;

    /// Apply cursor shape.
    fn cursor_shape(&mut self, shape: &CursorShape) -> (r: Result<(), DisplayError>)
        ensures
            Self::executes(*old(self), DisplayCommandView::CursorShape(shape@), r, *final(self)),
    ;

    /// Accept cursor move.
    fn cursor_moved(&mut self, window_id: u32, x: i32, y: i32) -> (r: Result<(), DisplayError>)
        ensures
            Self::executes(
                *old(self),
                DisplayCommandView::CursorPosition { window_id, x, y },
                r,
                *final(self),
            ),
    ;

    /// Apply cursor visibility.
    fn cursor_visibility(&mut self, visible: bool) -> (r: Result<(), DisplayError>)
        ensures
            Self::executes(
                *old(self),
                DisplayCommandView::CursorVisibility(visible),
                r,
                *final(self),
            ),
    ;

    /// Surface an agent error.
    fn agent_error(&mut self, code: u16, message: &str) -> (r: Result<(), DisplayError>)
        ensures
            Self::executes(
                *old(self),
                DisplayCommandView::AgentError { code, message: message@ },
                r,
                *final(self),
            ),
    ;

    /// Close the backend.
    fn closed(&mut self) -> (r: Result<(), DisplayError>)
        ensures
            Self::executes(*old(self), DisplayCommandView::Shutdown, r, *final(self)),
    ;
}

/// Whether a call succeeded, leaving out what it gave.
pub open spec fn done(r: Result<Option<PresentTimes>, DisplayError>) -> Result<(), DisplayError> {
    match r {
        Ok(_) => Ok(()),
        Err(e) => Err(e),
    }
}

/// Executes one command on a backend.
///
/// # Errors
///
/// Whatever the backend answers.
pub fn apply_display_command<B: DisplayBackend>(backend: &mut B, command: DisplayCommand) -> (r:
    Result<(), DisplayError>)
    ensures
        B::executes(*old(backend), command@, r, *final(backend)),
{
    match command {
        DisplayCommand::CreateWindow(window) => backend.create_window(&window),
        DisplayCommand::DestroyWindow(window_id) => backend.destroy_window(window_id),
        DisplayCommand::MoveWindow(window) => backend.move_window(&window),
        DisplayCommand::RetitleWindow(window) => backend.retitle_window(&window),
        DisplayCommand::ChangeState(window) => backend.change_state(&window),
        DisplayCommand::ChangeIcon(window) => backend.change_icon(&window),
        DisplayCommand::Restack(stack) => backend.restack(stack.as_slice()),
        DisplayCommand::Frame(frame) => match backend.frame(&frame) {
            Ok(_) => Ok(()),
            Err(e) => Err(e),
        },
        DisplayCommand::CursorShape(shape) => backend.cursor_shape(&shape),
        DisplayCommand::CursorPosition { window_id, x, y } => backend.cursor_moved(
            window_id,
            x,
            y,
        ),
        DisplayCommand::CursorVisibility(visible) => backend.cursor_visibility(visible),
        DisplayCommand::AgentError { code, message } => backend.agent_error(
            code,
            message.as_str(),
        ),
        DisplayCommand::Shutdown => backend.closed(),
    }
}

/// The command that a model change asks for. Changes to windows that are gone by now ask for
/// nothing: the model can legally emit races against a close.
pub open spec fn command_for(model: ModelView, change: ModelChangeView) -> Option<
    DisplayCommandView,
> {
    match change {
        ModelChangeView::Created(id) => if model.windows.contains_key(id) {
            Some(DisplayCommandView::CreateWindow(spec_of(model.windows[id])))
        } else {
            None
        },
        ModelChangeView::Destroyed(id) => Some(DisplayCommandView::DestroyWindow(id)),
        ModelChangeView::Moved(id) => if model.windows.contains_key(id) {
            Some(DisplayCommandView::MoveWindow(spec_of(model.windows[id])))
        } else {
            None
        },
        ModelChangeView::Retitled(id) => if model.windows.contains_key(id) {
            Some(DisplayCommandView::RetitleWindow(spec_of(model.windows[id])))
        } else {
            None
        },
        ModelChangeView::StateChanged(id) => if model.windows.contains_key(id) {
            Some(DisplayCommandView::ChangeState(spec_of(model.windows[id])))
        } else {
            None
        },
        ModelChangeView::IconChanged(id) => if model.windows.contains_key(id) {
            Some(DisplayCommandView::ChangeIcon(spec_of(model.windows[id])))
        } else {
            None
        },
        ModelChangeView::Restacked => Some(DisplayCommandView::Restack(model.stack)),
        ModelChangeView::Frame(frame) => Some(DisplayCommandView::Frame(frame)),
        ModelChangeView::CursorShape(shape) => Some(DisplayCommandView::CursorShape(shape)),
        ModelChangeView::CursorMoved { window_id, x, y } => Some(
            DisplayCommandView::CursorPosition { window_id, x, y },
        ),
        ModelChangeView::CursorVisibility(visible) => Some(
            DisplayCommandView::CursorVisibility(visible),
        ),
        ModelChangeView::AgentError { code, message } => Some(
            DisplayCommandView::AgentError { code, message },
        ),
        ModelChangeView::Closed => Some(DisplayCommandView::Shutdown),
    }
}

/// The command that a model change asks for.
pub fn command_for_change(model: &WindowModel, change: ModelChange) -> (r: Option<DisplayCommand>)
    ensures
        match r {
            None => command_for(model@, change@) is None,
            Some(command) => command_for(model@, change@) == Some(command@),
        },
{
    match change {
        ModelChange::Created(id) => match model.get(id) {
            None => None,
            Some(window) => Some(DisplayCommand::CreateWindow(window_spec(window))),
        },
        ModelChange::Destroyed(id) => Some(DisplayCommand::DestroyWindow(id)),
        ModelChange::Moved(id) => match model.get(id) {
            None => None,
            Some(window) => Some(DisplayCommand::MoveWindow(window_spec(window))),
        },
        ModelChange::Retitled(id) => match model.get(id) {
            None => None,
            Some(window) => Some(DisplayCommand::RetitleWindow(window_spec(window))),
        },
        ModelChange::StateChanged(id) => match model.get(id) {
            None => None,
            Some(window) => Some(DisplayCommand::ChangeState(window_spec(window))),
        },
        ModelChange::IconChanged(id) => match model.get(id) {
            None => None,
            Some(window) => Some(DisplayCommand::ChangeIcon(window_spec(window))),
        },
        ModelChange::Restacked => {
            let stack = model.stack();
            let mut copy: Vec<u32> = Vec::new();
            copy.extend_from_slice(stack);
            assert(copy@ =~= stack@);
            Some(DisplayCommand::Restack(copy))
        },
        ModelChange::Frame(frame) => Some(DisplayCommand::Frame(frame)),
        ModelChange::CursorShape(shape) => Some(DisplayCommand::CursorShape(shape)),
        ModelChange::CursorMoved { window_id, x, y } => Some(
            DisplayCommand::CursorPosition { window_id, x, y },
        ),
        ModelChange::CursorVisibility(visible) => Some(DisplayCommand::CursorVisibility(visible)),
        ModelChange::AgentError { code, message } => Some(
            DisplayCommand::AgentError { code, message },
        ),
        ModelChange::Closed => Some(DisplayCommand::Shutdown),
    }
}

/// Applies one model change to a backend.
///
/// Unknown windows are ignored because the model can legally emit frame races against close.
///
/// # Errors
///
/// Whatever the backend answers.
pub fn apply_model_change<B: DisplayBackend>(
    backend: &mut B,
    model: &WindowModel,
    change: ModelChange,
) -> (r: Result<(), DisplayError>)
    ensures
        match command_for(model@, change@) {
            None => r is Ok && *final(backend) == *old(backend),
            Some(command) => B::executes(*old(backend), command, r, *final(backend)),
        },
{
    match command_for_change(model, change) {
        None => Ok(()),
        Some(command) => apply_display_command(backend, command),
    }
}

/// What a native window is created with.
#[derive(Debug, Clone, Copy)]
pub struct NativeAttributes {
    /// Inner width in physical pixels.
    pub width: u32,
    /// Inner height in physical pixels.
    pub height: u32,
    /// Whether the user may resize it.
    pub resizable: bool,
    /// Whether it starts maximized.
    pub maximized: bool,
    /// Whether it stays above others.
    pub always_on_top: bool,
    /// Where it is placed. Only X11 lets a client say.
    pub position: Option<(i32, i32)>,
}

/// What a native window is created with. Whether it is resizable is the guest's to say: without
/// that every window would be fixed-size or every window resizable, and both are wrong for some
/// application.
pub fn native_attributes(window: &WindowSpec, is_x11: bool) -> (r: NativeAttributes)
    ensures
        r.width == window.width,
        r.height == window.height,
        r.resizable == window.resizable,
        r.maximized == window.maximized,
        r.always_on_top == window.topmost,
        r.position == (if is_x11 {
            Some((window.x, window.y))
        } else {
            None
        }),
{
    NativeAttributes {
        width: window.width as u32,
        height: window.height as u32,
        resizable: window.resizable,
        maximized: window.maximized,
        always_on_top: window.topmost,
        position: if is_x11 {
            Some((window.x, window.y))
        } else {
            None
        },
    }
}

/// The output that a screen is.
pub open spec fn screen_output(index: int, size: (u16, u16)) -> Output {
    Output {
        id: index as u8,
        x: 0,
        y: 0,
        width: size.0,
        height: size.1,
        scale_num: 1,
        scale_den: 1,
        refresh_mhz: 60_000,
    }
}

/// How many screens can be told apart: an output's id is a byte.
pub const MAX_SCREENS: usize = 256;

/// The outputs that some screens are, given by their sizes. Screens past those that can be told
/// apart are left out.
pub fn screen_outputs(screens: &[(u16, u16)]) -> (r: Vec<Output>)
    ensures
        r@.len() == (if screens@.len() < MAX_SCREENS {
            screens@.len()
        } else {
            MAX_SCREENS as nat
        }),
        forall|i: int| 0 <= i < r@.len() ==> #[trigger] r@[i] == screen_output(i, screens@[i]),
{
    let mut outputs: Vec<Output> = Vec::new();
    let mut i: usize = 0;
    while i < screens.len() && i < MAX_SCREENS
        invariant
            i <= screens@.len(),
            i <= MAX_SCREENS,
            i == outputs@.len(),
            forall|j: int|
                0 <= j < i ==> #[trigger] outputs@[j] == screen_output(j, screens@[j]),
        decreases screens@.len() - i,
    {
        let (width, height): (u16, u16) = screens[i];
        outputs.push(
            Output {
                id: i as u8,
                x: 0,
                y: 0,
                width,
                height,
                scale_num: 1,
                scale_den: 1,
                refresh_mhz: 60_000,
            },
        );
        i = i + 1;
    }
    outputs
}

/// The text an agent error reaches the session with.
pub open spec fn agent_error_text(code: u16, message: Seq<char>) -> Seq<char> {
    "agent error "@ + crate::text::decimal(code as nat) + ": "@ + message
}

/// The event an agent error reaches the session with.
pub fn agent_error_event(code: u16, message: &str) -> (r: DisplayEvent)
    ensures
        r@ == (DisplayEventView::BackendError { message: agent_error_text(code, message@) }),
{
    let mut out = "agent error ".to_owned();
    crate::text::push_decimal(&mut out, code as u64);
    crate::text::push_str(&mut out, ": ");
    crate::text::push_str(&mut out, message);
    DisplayEvent::BackendError { message: out }
}

/// Whether a backend is told of a window what the model holds of it.
pub open spec fn describes(spec: WindowSpec, window: RemoteWindow) -> bool {
    &&& spec.window_id == window.window_id
    &&& spec.app_id@ == window.app_id@
    &&& spec.title@ == window.title@
    &&& spec.x == window.x && spec.y == window.y
    &&& spec.width == window.width && spec.height == window.height
    &&& spec.owner_id == window.owner_id
    &&& spec.minimized == window.minimized && spec.maximized == window.maximized
    &&& spec.resizable == window.resizable
    &&& spec.has_frame == window.has_frame
    &&& spec.topmost == window.topmost
    &&& spec.icon is Some <==> window.icon is Some
    &&& spec.icon is Some ==> {
        let (a, b) = (spec.icon->0, window.icon->0);
        a.window_id == b.window_id && a.width == b.width && a.height == b.height && a.bgra@
            == b.bgra@
    }
}

/// A backend is told of a window what the model holds of it, field by field.
pub proof fn law_specs_describe_their_windows(window: &RemoteWindow, r: WindowSpec)
    requires
        call_ensures(window_spec, (window,), r),
    ensures
        describes(r, *window),
{
    assert(model::icon_view(r.icon) == model::icon_view(window.icon));
}

/// A change to a window asks for the command of its name with what the model now holds of that
/// window, and for nothing where the window is gone.
pub proof fn law_window_changes_become_commands(
    model: &WindowModel,
    change: ModelChange,
    id: u32,
    window: Option<&RemoteWindow>,
    r: Option<DisplayCommand>,
)
    requires
        call_ensures(command_for_change, (model, change), r),
        call_ensures(WindowModel::get, (model, id), window),
    ensures
        change == ModelChange::Created(id) ==> match window {
            None => r is None,
            Some(w) => r matches Some(DisplayCommand::CreateWindow(s)) && describes(s, *w),
        },
        change == ModelChange::Moved(id) ==> match window {
            None => r is None,
            Some(w) => r matches Some(DisplayCommand::MoveWindow(s)) && describes(s, *w),
        },
        change == ModelChange::Retitled(id) ==> match window {
            None => r is None,
            Some(w) => r matches Some(DisplayCommand::RetitleWindow(s)) && describes(s, *w),
        },
        change == ModelChange::StateChanged(id) ==> match window {
            None => r is None,
            Some(w) => r matches Some(DisplayCommand::ChangeState(s)) && describes(s, *w),
        },
        change == ModelChange::IconChanged(id) ==> match window {
            None => r is None,
            Some(w) => r matches Some(DisplayCommand::ChangeIcon(s)) && describes(s, *w),
        },
        change == ModelChange::Destroyed(id) ==> r == Some(DisplayCommand::DestroyWindow(id)),
{
}

/// Any other change asks for the command of its name with what it carries.
pub proof fn law_other_changes_become_commands(
    model: &WindowModel,
    change: ModelChange,
    stack: &[u32],
    r: Option<DisplayCommand>,
)
    requires
        call_ensures(command_for_change, (model, change), r),
        call_ensures(WindowModel::stack, (model,), stack),
    ensures
        match change {
            ModelChange::Restacked => r matches Some(DisplayCommand::Restack(s)) && s@ == stack@,
            ModelChange::Frame(frame) => r matches Some(DisplayCommand::Frame(f)) && f@ == frame@,
            ModelChange::CursorShape(shape) => r matches Some(DisplayCommand::CursorShape(s))
                && s@ == shape@,
            ModelChange::CursorMoved { window_id, x, y } => r == Some(
                DisplayCommand::CursorPosition { window_id, x, y },
            ),
            ModelChange::CursorVisibility(visible) => r == Some(
                DisplayCommand::CursorVisibility(visible),
            ),
            ModelChange::AgentError { code, message } => r matches Some(
                DisplayCommand::AgentError { code: c, message: m },
            ) && c == code && m@ == message@,
            ModelChange::Closed => r == Some(DisplayCommand::Shutdown),
            _ => true,
        },
{
}

/// A change does to a backend what the command it asks for does, and nothing where it asks for none.
pub proof fn law_changes_are_executed<B: DisplayBackend>(
    model: &WindowModel,
    change: ModelChange,
    command: Option<DisplayCommand>,
)
    requires
        call_ensures(command_for_change, (model, change), command),
    ensures
        forall|b: &mut B, r: Result<(), DisplayError>| #[trigger]
            call_ensures(apply_model_change::<B>, (b, model, change), r) ==> match command {
                None => r is Ok && *final(b) == *b,
                Some(command) => B::executes(*b, command@, r, *final(b)),
            },
{
}

/// A native window gets the guest window's size, whether it may be resized, is maximized and stays on
/// top; and its position, where a client may say.
pub proof fn law_native_windows_follow_the_guest(
    window: &WindowSpec,
    is_x11: bool,
    r: NativeAttributes,
)
    requires
        call_ensures(native_attributes, (window, is_x11), r),
    ensures
        r.width == window.width && r.height == window.height,
        r.resizable == window.resizable,
        r.maximized == window.maximized,
        r.always_on_top == window.topmost,
        is_x11 ==> r.position == Some((window.x, window.y)),
        !is_x11 ==> r.position is None,
{
}

/// Screens are outputs in order, up to 256 of them, numbered from 0, each of its screen's size at the
/// origin, unscaled and at 60 Hz.
pub proof fn law_screens_are_outputs(screens: &[(u16, u16)], r: Vec<Output>, i: int)
    requires
        call_ensures(screen_outputs, (screens,), r),
    ensures
        screens@.len() <= 256 ==> r@.len() == screens@.len(),
        screens@.len() > 256 ==> r@.len() == 256,
        0 <= i < r@.len() ==> ({
            let o = r@[i];
            &&& o.id == i
            &&& o.width == screens@[i].0 && o.height == screens@[i].1
            &&& o.x == 0 && o.y == 0
            &&& o.scale_num == 1 && o.scale_den == 1
            &&& o.refresh_mhz == 60_000
        }),
{
    if 0 <= i < r@.len() {
        assert(r@[i] == screen_output(i, screens@[i]));
    }
}

/// An agent's error reaches the session with its code and its own words.
pub proof fn law_agent_errors_are_passed_on(code: u16, message: &str, r: DisplayEvent)
    requires
        call_ensures(agent_error_event, (code, message), r),
    ensures
        r matches DisplayEvent::BackendError { message: m } && m@ == "agent error "@
            + crate::text::decimal(code as nat) + ": "@ + message@,
{
}

} // verus!
