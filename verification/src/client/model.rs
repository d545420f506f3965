//! Remote-window state, independent of any display backend.
//!
//! [`WindowModel`] turns the raw [`ClientEvent`] stream into an ordered list of
//! [`ModelChange`]s ("create this native window", "retitle it", "restack it"), so a backend
//! only has to execute instructions instead of diffing protocol messages itself. Every
//! backend (X11, Wayland, a headless test harness) consumes the same list, which is why this
//! lives below the backend boundary.
//!
//! The model deliberately does **not** retain frame pixels. Frames are large, arrive at video
//! rate, and are consumed immediately by the renderer; buffering them here would add a copy
//! and a queue to the one path where neither is affordable.

use std::collections::HashMap;

use vstd::prelude::*;

use crate::client::event::{ClientEvent, ClientEventView};
use crate::proto::message::window::{window_flag, window_show};
use crate::proto::message::{
    CursorShape, CursorShapeView, CursorVisibility, FrameData, FrameDataView, WindowClosed,
    WindowGeometry, WindowIcon, WindowIconView, WindowOpened, WindowOpenedView, WindowState,
    WindowTitle, WindowZOrder,
};

verus! {

/// Everything the display layer knows about one remote window.
#[derive(Debug, Clone, PartialEq, Eq)]
pub struct RemoteWindow {
    /// Protocol id, stable for the session.
    pub window_id: u32,
    /// Channel this window's frames arrive on.
    pub video_channel: u16,
    /// Executable base name: the value a backend should use for `WM_CLASS`.
    pub app_id: String,
    /// Current title.
    pub title: String,
    /// Guest-side position of the visible frame.
    pub x: i32,
    /// Guest-side position of the visible frame.
    pub y: i32,
    /// Visible frame width; matches the captured frame size.
    pub width: u16,
    /// Visible frame height; matches the captured frame size.
    pub height: u16,
    /// Guest DPI for this window.
    pub dpi: u16,
    /// Owning window, or 0: a backend maps this to transient-for so dialogs stack correctly.
    pub owner_id: u32,
    /// Whether the guest reports the window minimized.
    pub minimized: bool,
    /// Whether the guest reports the window maximized.
    pub maximized: bool,
    /// Whether the guest window can be resized by the user. A backend uses this to decide
    /// whether its native window is resizable: without it every window becomes fixed-size or
    /// every window becomes resizable, and both are wrong for some app.
    pub resizable: bool,
    /// Whether the guest window has a system frame. A backend that draws its own decoration
    /// for a frameless window (a tooltip, a menu) would put a title bar where the app expects
    /// none.
    pub has_frame: bool,
    /// Whether the guest keeps the window above others.
    pub topmost: bool,
    /// Latest icon, if the agent has sent one.
    pub icon: Option<WindowIcon>,
}

/// What a [`RemoteWindow`] holds.
pub struct RemoteWindowView {
    /// See [`RemoteWindow::window_id`].
    pub window_id: u32,
    /// See [`RemoteWindow::video_channel`].
    pub video_channel: u16,
    /// See [`RemoteWindow::app_id`].
    pub app_id: Seq<char>,
    /// See [`RemoteWindow::title`].
    pub title: Seq<char>,
    /// See [`RemoteWindow::x`].
    pub x: i32,
    /// See [`RemoteWindow::y`].
    pub y: i32,
    /// See [`RemoteWindow::width`].
    pub width: u16,
    /// See [`RemoteWindow::height`].
    pub height: u16,
    /// See [`RemoteWindow::dpi`].
    pub dpi: u16,
    /// See [`RemoteWindow::owner_id`].
    pub owner_id: u32,
    /// See [`RemoteWindow::minimized`].
    pub minimized: bool,
    /// See [`RemoteWindow::maximized`].
    pub maximized: bool,
    /// See [`RemoteWindow::resizable`].
    pub resizable: bool,
    /// See [`RemoteWindow::has_frame`].
    pub has_frame: bool,
    /// See [`RemoteWindow::topmost`].
    pub topmost: bool,
    /// See [`RemoteWindow::icon`].
    pub icon: Option<WindowIconView>,
}

/// What an optional icon holds.
pub open spec fn icon_view(icon: Option<WindowIcon>) -> Option<WindowIconView> {
    match icon {
        None => None,
        Some(icon) => Some(icon@),
    }
}

impl View for RemoteWindow {
    type V = RemoteWindowView;

    open spec fn view(&self) -> RemoteWindowView {
        RemoteWindowView {
            window_id: self.window_id,
            video_channel: self.video_channel,
            app_id: self.app_id@,
            title: self.title@,
            x: self.x,
            y: self.y,
            width: self.width,
            height: self.height,
            dpi: self.dpi,
            owner_id: self.owner_id,
            minimized: self.minimized,
            maximized: self.maximized,
            resizable: self.resizable,
            has_frame: self.has_frame,
            topmost: self.topmost,
            icon: icon_view(self.icon),
        }
    }
}

/// A window after a state update. The update holds the complete current state and flags, never a
/// delta: what was stored is replaced.
pub open spec fn with_state(w: RemoteWindowView, m: WindowState) -> RemoteWindowView {
    RemoteWindowView {
        minimized: m.state == window_show::MINIMIZED,
        maximized: m.state == window_show::MAXIMIZED,
        resizable: m.flags & window_flag::RESIZABLE != 0,
        has_frame: m.flags & window_flag::HAS_FRAME != 0,
        topmost: m.flags & window_flag::TOPMOST != 0,
        ..w
    }
}

/// The window that an announcement describes.
pub open spec fn opened_window(m: WindowOpenedView) -> RemoteWindowView {
    RemoteWindowView {
        window_id: m.window_id,
        video_channel: m.video_channel,
        app_id: m.app_id,
        title: m.title,
        x: m.x,
        y: m.y,
        width: m.width,
        height: m.height,
        dpi: m.dpi,
        owner_id: m.owner_id,
        minimized: m.flags & window_flag::MINIMIZED != 0,
        maximized: m.flags & window_flag::MAXIMIZED != 0,
        resizable: m.flags & window_flag::RESIZABLE != 0,
        has_frame: m.flags & window_flag::HAS_FRAME != 0,
        topmost: m.flags & window_flag::TOPMOST != 0,
        icon: None,
    }
}

impl RemoteWindow {
    fn from_opened(m: &WindowOpened) -> (r: Self)
        ensures
            r@ == opened_window(m@),
    {
        RemoteWindow {
            window_id: m.window_id,
            video_channel: m.video_channel,
            app_id: m.app_id.clone(),
            title: m.title.clone(),
            x: m.x,
            y: m.y,
            width: m.width,
            height: m.height,
            dpi: m.dpi,
            owner_id: m.owner_id,
            minimized: m.flags & window_flag::MINIMIZED != 0,
            maximized: m.flags & window_flag::MAXIMIZED != 0,
            resizable: m.flags & window_flag::RESIZABLE != 0,
            has_frame: m.flags & window_flag::HAS_FRAME != 0,
            topmost: m.flags & window_flag::TOPMOST != 0,
            icon: None,
        }
    }
}

/// An instruction for the display backend.
///
/// Emitted in the order it must be applied. A backend that executes these in order ends up
/// consistent with the guest without ever inspecting a protocol message.
#[derive(Debug, Clone, PartialEq, Eq)]
pub enum ModelChange {
    /// Create a native window for this remote window.
    Created(u32),
    /// The window is gone; destroy its native window.
    Destroyed(u32),
    /// Position and/or size changed.
    Moved(u32),
    /// The title changed.
    Retitled(u32),
    /// Minimized/maximized/restored, or one of the flags changed.
    StateChanged(u32),
    /// A new icon is available.
    IconChanged(u32),
    /// Stacking changed; the backend should restack to match [`WindowModel::stack`].
    Restacked,
    /// A frame is ready to present. The pixels travel with the event, not in the model.
    Frame(FrameData),
    /// The cursor bitmap changed.
    CursorShape(CursorShape),
    /// The cursor moved within a window.
    CursorMoved {
        /// Window the cursor is over.
        window_id: u32,
        /// Window-relative position.
        x: i32,
        /// Window-relative position.
        y: i32,
    },
    /// The cursor was shown or hidden.
    CursorVisibility(bool),
    /// The agent reported an error; surface it and keep going.
    AgentError {
        /// Protocol error code.
        code: u16,
        /// Human-readable message from the agent.
        message: String,
    },
    /// The session is over.
    Closed,
}

/// What a [`ModelChange`] holds.
pub enum ModelChangeView {
    /// See [`ModelChange::Created`].
    Created(u32),
    /// See [`ModelChange::Destroyed`].
    Destroyed(u32),
    /// See [`ModelChange::Moved`].
    Moved(u32),
    /// See [`ModelChange::Retitled`].
    Retitled(u32),
    /// See [`ModelChange::StateChanged`].
    StateChanged(u32),
    /// See [`ModelChange::IconChanged`].
    IconChanged(u32),
    /// See [`ModelChange::Restacked`].
    Restacked,
    /// See [`ModelChange::Frame`].
    Frame(FrameDataView),
    /// See [`ModelChange::CursorShape`].
    CursorShape(CursorShapeView),
    /// See [`ModelChange::CursorMoved`].
    CursorMoved {
        /// Window the cursor is over.
        window_id: u32,
        /// Window-relative position.
        x: i32,
        /// Window-relative position.
        y: i32,
    },
    /// See [`ModelChange::CursorVisibility`].
    CursorVisibility(bool),
    /// See [`ModelChange::AgentError`].
    AgentError {
        /// Protocol error code.
        code: u16,
        /// Human-readable message from the agent.
        message: Seq<char>,
    },
    /// See [`ModelChange::Closed`].
    Closed,
}

impl View for ModelChange {
    type V = ModelChangeView;

    open spec fn view(&self) -> ModelChangeView {
        match self {
            ModelChange::Created(id) => ModelChangeView::Created(*id),
            ModelChange::Destroyed(id) => ModelChangeView::Destroyed(*id),
            ModelChange::Moved(id) => ModelChangeView::Moved(*id),
            ModelChange::Retitled(id) => ModelChangeView::Retitled(*id),
            ModelChange::StateChanged(id) => ModelChangeView::StateChanged(*id),
            ModelChange::IconChanged(id) => ModelChangeView::IconChanged(*id),
            ModelChange::Restacked => ModelChangeView::Restacked,
            ModelChange::Frame(f) => ModelChangeView::Frame(f@),
            ModelChange::CursorShape(c) => ModelChangeView::CursorShape(c@),
            ModelChange::CursorMoved { window_id, x, y } => ModelChangeView::CursorMoved {
                window_id: *window_id,
                x: *x,
                y: *y,
            },
            ModelChange::CursorVisibility(v) => ModelChangeView::CursorVisibility(*v),
            ModelChange::AgentError { code, message } => ModelChangeView::AgentError {
                code: *code,
                message: message@,
            },
            ModelChange::Closed => ModelChangeView::Closed,
        }
    }
}

/// What some changes are to a list of what they hold.
pub open spec fn are_changes(changes: Seq<ModelChange>, views: Seq<ModelChangeView>) -> bool {
    &&& changes.len() == views.len()
    &&& forall|i: int| 0 <= i < changes.len() ==> (#[trigger] changes[i])@ == views[i]
}

/// What a [`WindowModel`] knows.
pub struct ModelView {
    /// The open windows by id.
    pub windows: Map<u32, RemoteWindowView>,
    /// Bottom-to-top stacking order.
    pub stack: Seq<u32>,
    /// Whether the cursor should be drawn.
    pub cursor_visible: bool,
}

impl ModelView {
    /// Every open window stands in the stacking order once, and nothing else does; a window is
    /// kept under its own id.
    pub open spec fn wf(self) -> bool {
        &&& self.windows.dom().finite()
        &&& self.stack.no_duplicates()
        &&& forall|id: u32| #[trigger] self.stack.contains(id) <==> self.windows.dom().contains(id)
        &&& forall|id: u32|
            self.windows.dom().contains(id) ==> (#[trigger] self.windows[id]).window_id == id
    }

    /// This model with one window replaced.
    pub open spec fn with_window(self, id: u32, w: RemoteWindowView) -> ModelView {
        ModelView { windows: self.windows.insert(id, w), ..self }
    }

    /// Where `window_id` comes to stand when it is put above `above`, counted after it was taken
    /// out: at the bottom for 0, nowhere for an unknown window.
    pub open spec fn place_above(self, window_id: u32, above: u32) -> Option<int> {
        let current = self.stack.index_of(window_id);
        let i = self.stack.index_of(above);
        if above == 0 {
            Some(0)
        } else if !self.stack.contains(above) {
            None
        } else if i > current {
            Some(i)
        } else {
            Some(i + 1)
        }
    }

    /// This model with a window moved to another place of the stacking order.
    pub open spec fn restacked(self, window_id: u32, target: int) -> ModelView {
        let rest = self.stack.remove(self.stack.index_of(window_id));
        ModelView {
            stack: rest.insert(
                if target < rest.len() { target } else { rest.len() as int },
                window_id,
            ),
            ..self
        }
    }

    /// The model after an event.
    pub open spec fn after(self, event: ClientEventView) -> ModelView {
        match event {
            ClientEventView::WindowOpened(m) => if self.windows.dom().contains(m.window_id) {
                self
            } else {
                ModelView {
                    windows: self.windows.insert(m.window_id, opened_window(m)),
                    stack: self.stack.push(m.window_id),
                    ..self
                }
            },
            ClientEventView::WindowClosed(m) => if self.windows.dom().contains(m.window_id) {
                ModelView {
                    windows: self.windows.remove(m.window_id),
                    stack: self.stack.remove(self.stack.index_of(m.window_id)),
                    ..self
                }
            } else {
                self
            },
            ClientEventView::WindowGeometry(m) => if self.windows.dom().contains(m.window_id) {
                self.with_window(
                    m.window_id,
                    RemoteWindowView {
                        x: m.x,
                        y: m.y,
                        width: m.width,
                        height: m.height,
                        ..self.windows[m.window_id]
                    },
                )
            } else {
                self
            },
            ClientEventView::WindowTitle(m) => if self.windows.dom().contains(m.window_id) {
                self.with_window(
                    m.window_id,
                    RemoteWindowView { title: m.title, ..self.windows[m.window_id] },
                )
            } else {
                self
            },
            ClientEventView::WindowState(m) => if self.windows.dom().contains(m.window_id) {
                self.with_window(m.window_id, with_state(self.windows[m.window_id], m))
            } else {
                self
            },
            ClientEventView::WindowIcon(m) => if self.windows.dom().contains(m.window_id) {
                self.with_window(
                    m.window_id,
                    RemoteWindowView { icon: Some(m), ..self.windows[m.window_id] },
                )
            } else {
                self
            },
            ClientEventView::WindowZOrder(m) => if self.windows.dom().contains(m.window_id) {
                match self.place_above(m.window_id, m.above_window_id) {
                    None => self,
                    Some(target) => if target == self.stack.index_of(m.window_id) {
                        self
                    } else {
                        self.restacked(m.window_id, target)
                    },
                }
            } else {
                self
            },
            ClientEventView::CursorVisibility(m) => ModelView {
                cursor_visible: m.visible,
                ..self
            },
            _ => self,
        }
    }

    /// The changes that an event asks of a backend.
    pub open spec fn changes(self, event: ClientEventView) -> Seq<ModelChangeView> {
        match event {
            ClientEventView::WindowOpened(m) => if self.windows.dom().contains(m.window_id) {
                seq![]
            } else {
                seq![ModelChangeView::Created(m.window_id)]
            },
            ClientEventView::WindowClosed(m) => if self.windows.dom().contains(m.window_id) {
                seq![ModelChangeView::Destroyed(m.window_id)]
            } else {
                seq![]
            },
            ClientEventView::WindowGeometry(m) => if self.windows.dom().contains(m.window_id) && {
                let w = self.windows[m.window_id];
                w.x != m.x || w.y != m.y || w.width != m.width || w.height != m.height
            } {
                seq![ModelChangeView::Moved(m.window_id)]
            } else {
                seq![]
            },
            ClientEventView::WindowTitle(m) => if self.windows.dom().contains(m.window_id)
                && self.windows[m.window_id].title != m.title {
                seq![ModelChangeView::Retitled(m.window_id)]
            } else {
                seq![]
            },
            ClientEventView::WindowState(m) => if self.windows.dom().contains(m.window_id) && {
                let w = self.windows[m.window_id];
                let new = with_state(w, m);
                w.minimized != new.minimized || w.maximized != new.maximized || w.resizable
                    != new.resizable || w.has_frame != new.has_frame || w.topmost != new.topmost
            } {
                seq![ModelChangeView::StateChanged(m.window_id)]
            } else {
                seq![]
            },
            ClientEventView::WindowIcon(m) => if self.windows.dom().contains(m.window_id) {
                seq![ModelChangeView::IconChanged(m.window_id)]
            } else {
                seq![]
            },
            ClientEventView::WindowZOrder(m) => if self.windows.dom().contains(m.window_id) {
                match self.place_above(m.window_id, m.above_window_id) {
                    None => seq![],
                    Some(target) => if target == self.stack.index_of(m.window_id) {
                        seq![]
                    } else {
                        seq![ModelChangeView::Restacked]
                    },
                }
            } else {
                seq![]
            },
            ClientEventView::Frame(f) => seq![ModelChangeView::Frame(f)],
            ClientEventView::CursorShape(c) => seq![ModelChangeView::CursorShape(c)],
            ClientEventView::CursorPosition(p) => seq![
                ModelChangeView::CursorMoved { window_id: p.window_id, x: p.x, y: p.y },
            ],
            ClientEventView::CursorVisibility(v) => seq![
                ModelChangeView::CursorVisibility(v.visible),
            ],
            ClientEventView::Error(e) => seq![
                ModelChangeView::AgentError { code: e.code, message: e.message },
            ],
            ClientEventView::Closed(_) => seq![ModelChangeView::Closed],
        }
    }
}

/// The client's view of the guest's windows.
#[derive(Debug)]
pub struct WindowModel {
    windows: HashMap<u32, RemoteWindow>,
    /// Bottom-to-top stacking order.
    stack: Vec<u32>,
    cursor_visible: bool,
}

/// The windows by id.
spec fn by_id(windows: Map<u32, RemoteWindow>) -> Map<u32, RemoteWindowView> {
    windows.map_values(|w: RemoteWindow| w@)
}

impl View for WindowModel {
    type V = ModelView;

    closed spec fn view(&self) -> ModelView {
        ModelView {
            windows: by_id(self.windows@),
            stack: self.stack@,
            cursor_visible: self.cursor_visible,
        }
    }
}

impl Default for WindowModel {
    /// A model with no windows and a hidden cursor; [`WindowModel::new`] shows it.
    fn default() -> (r: Self)
        ensures
            r@ == (ModelView {
                windows: Map::empty(),
                stack: Seq::empty(),
                cursor_visible: false,
            }),
    {
        broadcast use vstd::std_specs::hash::group_hash_axioms;

        let windows: HashMap<u32, RemoteWindow> = HashMap::new();
        assert(by_id(windows@) =~= Map::<u32, RemoteWindowView>::empty());
        WindowModel { windows, stack: Vec::new(), cursor_visible: false }
    }
}

/// Where `id` stands in `stack`.
fn position(stack: &Vec<u32>, id: u32) -> (r: Option<usize>)
    requires
        stack@.no_duplicates(),
    ensures
        match r {
            Some(i) => i < stack.len() && stack@[i as int] == id && stack@.contains(id)
                && stack@.index_of(id) == i,
            None => !stack@.contains(id),
        },
{
    let mut i: usize = 0;
    while i < stack.len()
        invariant
            i <= stack.len(),
            stack@.no_duplicates(),
            forall|j: int| 0 <= j < i ==> stack@[j] != id,
        decreases stack.len() - i,
    {
        if stack[i] == id {
            return Some(i);
        }
        i = i + 1;
    }
    None
}

impl WindowModel {
    #[verifier::type_invariant]
    spec fn inv(self) -> bool {
        self@.wf()
    }

    /// An empty model.
    pub fn new() -> (r: Self)
        ensures
            r@ == (ModelView {
                windows: Map::empty(),
                stack: Seq::empty(),
                cursor_visible: true,
            }),
    {
        let mut model = WindowModel::default();
        proof {
            use_type_invariant(&model);
        }
        model.cursor_visible = true;
        model
    }

    /// A window by id.
    pub fn get(&self, window_id: u32) -> (r: Option<&RemoteWindow>)
        ensures
            match r {
                Some(w) => self@.windows.dom().contains(window_id) && w@
                    == self@.windows[window_id],
                None => !self@.windows.dom().contains(window_id),
            },
            self@.wf(),
    {
        broadcast use vstd::std_specs::hash::group_hash_axioms;

        proof {
            use_type_invariant(self);
        }
        self.windows.get(&window_id)
    }

    /// Number of windows currently mapped.
    pub fn len(&self) -> (r: usize)
        ensures
            r == self@.windows.dom().len(),
            self@.wf(),
    {
        broadcast use vstd::std_specs::hash::group_hash_axioms;

        proof {
            use_type_invariant(self);
        }
        assert(self@.windows.dom() =~= self.windows@.dom());
        self.windows.len()
    }

    /// Whether no windows are mapped.
    pub fn is_empty(&self) -> (r: bool)
        ensures
            r == (self@.windows.dom().len() == 0),
            self@.wf(),
    {
        self.len() == 0
    }

    /// Stacking order, bottom to top.
    pub fn stack(&self) -> (r: &[u32])
        ensures
            r@ == self@.stack,
            self@.wf(),
    {
        proof {
            use_type_invariant(self);
        }
        self.stack.as_slice()
    }

    /// Whether the cursor should be drawn.
    pub fn cursor_visible(&self) -> (r: bool)
        ensures
            r == self@.cursor_visible,
    {
        self.cursor_visible
    }

    /// Apply one event, returning the changes a backend must perform.
    ///
    /// An event for a window the model has never seen is ignored rather than treated as an
    /// error: the agent may legitimately send a geometry update racing with a close.
    pub fn apply(&mut self, event: ClientEvent) -> (r: Vec<ModelChange>)
        ensures
            final(self)@ == old(self)@.after(event@),
            are_changes(r@, old(self)@.changes(event@)),
    {
        match event {
            ClientEvent::WindowOpened(m) => self.on_opened(m),
            ClientEvent::WindowClosed(m) => self.on_closed(m.window_id),
            ClientEvent::WindowGeometry(m) => self.on_geometry(m),
            ClientEvent::WindowTitle(m) => self.on_title(m),
            ClientEvent::WindowState(m) => self.on_state(m),
            ClientEvent::WindowZOrder(m) => self.on_zorder(m.window_id, m.above_window_id),
            ClientEvent::WindowIcon(m) => self.on_icon(m),
            ClientEvent::Frame(f) => vec![ModelChange::Frame(f)],
            ClientEvent::CursorShape(c) => vec![ModelChange::CursorShape(c)],
            ClientEvent::CursorPosition(p) => vec![
                ModelChange::CursorMoved { window_id: p.window_id, x: p.x, y: p.y },
            ],
            ClientEvent::CursorVisibility(v) => {
                proof {
                    use_type_invariant(&*self);
                }
                self.cursor_visible = v.visible;
                vec![ModelChange::CursorVisibility(v.visible)]
            },
            ClientEvent::Error(e) => vec![
                ModelChange::AgentError { code: e.code, message: e.message },
            ],
            ClientEvent::Closed(_) => vec![ModelChange::Closed],
        }
    }

    /// Takes the model apart, leaving an empty one behind.
    fn take(&mut self) -> (r: (HashMap<u32, RemoteWindow>, Vec<u32>, bool))
        ensures
            old(self)@ == (ModelView {
                windows: by_id(r.0@),
                stack: r.1@,
                cursor_visible: r.2,
            }),
            old(self)@.wf(),
    {
        let mut this = WindowModel::default();
        std::mem::swap(self, &mut this);
        proof {
            use_type_invariant(&this);
        }
        let WindowModel { windows, stack, cursor_visible } = this;
        (windows, stack, cursor_visible)
    }

    fn on_opened(&mut self, m: WindowOpened) -> (r: Vec<ModelChange>)
        ensures
            final(self)@ == old(self)@.after(ClientEventView::WindowOpened(m@)),
            are_changes(r@, old(self)@.changes(ClientEventView::WindowOpened(m@))),
    {
        broadcast use vstd::std_specs::hash::group_hash_axioms;

        let id: u32 = m.window_id;
        // Ids are never reused within a session, so a repeat is a protocol violation; keep the
        // first and ignore the duplicate rather than orphaning a native window.
        if self.get(id).is_some() {
            return Vec::new();
        }
        let ghost before = self@;
        let (mut windows, mut stack, cursor_visible) = self.take();
        windows.insert(id, RemoteWindow::from_opened(&m));
        stack.push(id);
        proof {
            let after = before.after(ClientEventView::WindowOpened(m@));
            assert(by_id(windows@) =~= after.windows);
            lemma_stack_push(before, id, opened_window(m@));
        }
        *self = WindowModel { windows, stack, cursor_visible };
        vec![ModelChange::Created(id)]
    }

    fn on_closed(&mut self, id: u32) -> (r: Vec<ModelChange>)
        ensures
            ({
                let event = ClientEventView::WindowClosed(WindowClosed { window_id: id });
                &&& final(self)@ == old(self)@.after(event)
                &&& are_changes(r@, old(self)@.changes(event))
            }),
    {
        broadcast use vstd::std_specs::hash::group_hash_axioms;

        if self.get(id).is_none() {
            return Vec::new();
        }
        let ghost before = self@;
        let (mut windows, mut stack, cursor_visible) = self.take();
        windows.remove(&id);
        assert(before.stack.contains(id));
        if let Some(i) = position(&stack, id) {
            stack.remove(i);
        }
        proof {
            assert(by_id(windows@) =~= before.windows.remove(id));
            lemma_stack_remove(before, id);
        }
        *self = WindowModel { windows, stack, cursor_visible };
        vec![ModelChange::Destroyed(id)]
    }

    fn on_geometry(&mut self, m: WindowGeometry) -> (r: Vec<ModelChange>)
        ensures
            final(self)@ == old(self)@.after(ClientEventView::WindowGeometry(m)),
            are_changes(r@, old(self)@.changes(ClientEventView::WindowGeometry(m))),
    {
        broadcast use vstd::std_specs::hash::group_hash_axioms;

        let ghost before = self@;
        match self.get(m.window_id) {
            None => {
                return Vec::new();
            },
            Some(w) => {
                if w.x == m.x && w.y == m.y && w.width == m.width && w.height == m.height {
                    proof {
                        lemma_with_same_window(before, m.window_id);
                    }
                    return Vec::new();
                }
            },
        }
        let (mut windows, stack, cursor_visible) = self.take();
        if let Some(mut w) = windows.remove(&m.window_id) {
            w.x = m.x;
            w.y = m.y;
            w.width = m.width;
            w.height = m.height;
            windows.insert(m.window_id, w);
        }
        proof {
            let after = before.after(ClientEventView::WindowGeometry(m));
            assert(by_id(windows@) =~= after.windows);
            assert(after.windows.dom() =~= before.windows.dom());
        }
        *self = WindowModel { windows, stack, cursor_visible };
        vec![ModelChange::Moved(m.window_id)]
    }

    fn on_title(&mut self, m: WindowTitle) -> (r: Vec<ModelChange>)
        ensures
            final(self)@ == old(self)@.after(ClientEventView::WindowTitle(m@)),
            are_changes(r@, old(self)@.changes(ClientEventView::WindowTitle(m@))),
    {
        broadcast use vstd::std_specs::hash::group_hash_axioms;

        let ghost before = self@;
        let window_id: u32 = m.window_id;
        match self.get(window_id) {
            None => {
                return Vec::new();
            },
            Some(w) => {
                if w.title == m.title {
                    proof {
                        lemma_with_same_window(before, window_id);
                    }
                    return Vec::new();
                }
            },
        }
        let (mut windows, stack, cursor_visible) = self.take();
        if let Some(mut w) = windows.remove(&window_id) {
            w.title = m.title;
            windows.insert(window_id, w);
        }
        proof {
            let after = before.after(ClientEventView::WindowTitle(m@));
            assert(by_id(windows@) =~= after.windows);
            assert(after.windows.dom() =~= before.windows.dom());
        }
        *self = WindowModel { windows, stack, cursor_visible };
        vec![ModelChange::Retitled(window_id)]
    }

    fn on_state(&mut self, m: WindowState) -> (r: Vec<ModelChange>)
        ensures
            final(self)@ == old(self)@.after(ClientEventView::WindowState(m)),
            are_changes(r@, old(self)@.changes(ClientEventView::WindowState(m))),
    {
        broadcast use vstd::std_specs::hash::group_hash_axioms;

        let ghost before = self@;
        let minimized = m.state == window_show::MINIMIZED;
        let maximized = m.state == window_show::MAXIMIZED;
        let resizable = m.flags & window_flag::RESIZABLE != 0;
        let has_frame = m.flags & window_flag::HAS_FRAME != 0;
        let topmost = m.flags & window_flag::TOPMOST != 0;
        match self.get(m.window_id) {
            None => {
                return Vec::new();
            },
            Some(w) => {
                if w.minimized == minimized && w.maximized == maximized && w.resizable
                    == resizable && w.has_frame == has_frame && w.topmost == topmost {
                    proof {
                        lemma_with_same_window(before, m.window_id);
                    }
                    return Vec::new();
                }
            },
        }
        let (mut windows, stack, cursor_visible) = self.take();
        if let Some(mut w) = windows.remove(&m.window_id) {
            w.minimized = minimized;
            w.maximized = maximized;
            w.resizable = resizable;
            w.has_frame = has_frame;
            w.topmost = topmost;
            windows.insert(m.window_id, w);
        }
        proof {
            let after = before.after(ClientEventView::WindowState(m));
            assert(by_id(windows@) =~= after.windows);
            assert(after.windows.dom() =~= before.windows.dom());
        }
        *self = WindowModel { windows, stack, cursor_visible };
        vec![ModelChange::StateChanged(m.window_id)]
    }

    fn on_icon(&mut self, m: WindowIcon) -> (r: Vec<ModelChange>)
        ensures
            final(self)@ == old(self)@.after(ClientEventView::WindowIcon(m@)),
            are_changes(r@, old(self)@.changes(ClientEventView::WindowIcon(m@))),
    {
        broadcast use vstd::std_specs::hash::group_hash_axioms;

        let ghost before = self@;
        let id: u32 = m.window_id;
        if self.get(id).is_none() {
            return Vec::new();
        }
        let (mut windows, stack, cursor_visible) = self.take();
        if let Some(mut w) = windows.remove(&id) {
            w.icon = Some(m);
            windows.insert(id, w);
        }
        proof {
            let after = before.after(ClientEventView::WindowIcon(m@));
            assert(by_id(windows@) =~= after.windows);
            assert(after.windows.dom() =~= before.windows.dom());
        }
        *self = WindowModel { windows, stack, cursor_visible };
        vec![ModelChange::IconChanged(id)]
    }

    /// Restack `window_id` to sit directly above `above_window_id` (0 = bottom).
    fn on_zorder(&mut self, window_id: u32, above_window_id: u32) -> (r: Vec<ModelChange>)
        ensures
            ({
                let event = ClientEventView::WindowZOrder(
                    WindowZOrder { window_id, above_window_id },
                );
                &&& final(self)@ == old(self)@.after(event)
                &&& are_changes(r@, old(self)@.changes(event))
            }),
    {
        broadcast use vstd::std_specs::hash::group_hash_axioms;

        let ghost before = self@;
        if self.get(window_id).is_none() {
            return Vec::new();
        }
        proof {
            use_type_invariant(&*self);
            assert(before.stack.contains(window_id));
        }
        let current: usize = match position(&self.stack, window_id) {
            Some(current) => current,
            None => {
                return Vec::new();
            },
        };
        let target: usize = if above_window_id == 0 {
            0
        } else {
            match position(&self.stack, above_window_id) {
                // Insert after the reference window, accounting for the removal below.
                Some(i) => if i > current {
                    i
                } else {
                    i + 1
                },
                // The reference window is unknown; leave the stack alone rather than guessing.
                None => {
                    return Vec::new();
                },
            }
        };
        if target == current {
            return Vec::new();
        }
        let (windows, mut stack, cursor_visible) = self.take();
        stack.remove(current);
        let target: usize = if target < stack.len() { target } else { stack.len() };
        stack.insert(target, window_id);
        proof {
            lemma_restacked(before, window_id, target as int);
        }
        *self = WindowModel { windows, stack, cursor_visible };
        vec![ModelChange::Restacked]
    }
}

/// A new window on top keeps the model well-formed.
proof fn lemma_stack_push(m: ModelView, id: u32, w: RemoteWindowView)
    requires
        m.wf(),
        !m.windows.dom().contains(id),
        w.window_id == id,
    ensures
        (ModelView { windows: m.windows.insert(id, w), stack: m.stack.push(id), ..m }).wf(),
{
    let stack = m.stack.push(id);
    assert(!m.stack.contains(id));
    assert forall|j: u32| #[trigger] stack.contains(j) <==> m.windows.insert(id, w).dom().contains(
        j,
    ) by {
        if m.stack.contains(j) {
            let i = m.stack.index_of(j);
            assert(stack[i] == j);
        }
        assert(stack[stack.len() - 1] == id);
        if stack.contains(j) && j != id {
            let i = stack.index_of(j);
            assert(m.stack[i] == j);
        }
    }
    assert forall|i: int, j: int| 0 <= i < stack.len() && 0 <= j < stack.len() && i != j implies
        stack[i] != stack[j] by {
        if i < m.stack.len() && j < m.stack.len() {
            assert(m.stack[i] != m.stack[j]);
        } else if i < m.stack.len() {
            assert(m.stack.contains(m.stack[i]));
        } else {
            assert(m.stack.contains(m.stack[j]));
        }
    }
}

/// Taking a window out keeps the model well-formed.
proof fn lemma_stack_remove(m: ModelView, id: u32)
    requires
        m.wf(),
        m.windows.dom().contains(id),
    ensures
        (ModelView {
            windows: m.windows.remove(id),
            stack: m.stack.remove(m.stack.index_of(id)),
            ..m
        }).wf(),
{
    assert(m.stack.contains(id));
    let p = m.stack.index_of(id);
    let stack = m.stack.remove(p);
    assert forall|i: int| 0 <= i < stack.len() implies #[trigger] stack[i] == m.stack[if i < p {
        i
    } else {
        i + 1
    }] by {}
    assert forall|j: u32| #[trigger] stack.contains(j) <==> m.windows.remove(id).dom().contains(
        j,
    ) by {
        if stack.contains(j) {
            let i = stack.index_of(j);
            let k = if i < p { i } else { i + 1 };
            assert(m.stack[k] == j && m.stack.contains(j));
            assert(m.stack[k] != m.stack[p]);
        }
        if m.windows.remove(id).dom().contains(j) {
            assert(m.stack.contains(j));
            let k = m.stack.index_of(j);
            assert(k != p);
            assert(stack[if k < p { k } else { k - 1 }] == j);
        }
    }
}

/// Moving a window within the stacking order keeps the model well-formed.
proof fn lemma_restacked(m: ModelView, id: u32, target: int)
    requires
        m.wf(),
        m.windows.dom().contains(id),
        0 <= target <= m.stack.len() - 1,
    ensures
        m.restacked(id, target).wf(),
{
    lemma_stack_remove(m, id);
    assert(m.stack.contains(id));
    let p = m.stack.index_of(id);
    let rest = m.stack.remove(p);
    let less = ModelView { windows: m.windows.remove(id), stack: rest, ..m };
    assert(!rest.contains(id)) by {
        assert(!less.windows.dom().contains(id));
    }
    let stack = rest.insert(target, id);
    assert forall|i: int| 0 <= i < stack.len() && i != target implies #[trigger] stack[i]
        == rest[if i < target { i } else { i - 1 }] by {}
    assert(stack[target] == id);
    assert forall|j: u32| #[trigger] stack.contains(j) <==> m.windows.dom().contains(j) by {
        if stack.contains(j) && j != id {
            let i = stack.index_of(j);
            assert(rest[if i < target { i } else { i - 1 }] == j);
            assert(rest.contains(j));
        }
        if m.windows.dom().contains(j) && j != id {
            assert(less.windows.dom().contains(j));
            assert(rest.contains(j));
            let k = rest.index_of(j);
            assert(stack[if k < target { k } else { k + 1 }] == j);
        }
    }
    assert forall|i: int, j: int| 0 <= i < stack.len() && 0 <= j < stack.len() && i != j implies
        stack[i] != stack[j] by {
        let a = if i < target { i } else { i - 1 };
        let b = if j < target { j } else { j - 1 };
        if i == target {
            assert(rest.contains(rest[b]));
        } else if j == target {
            assert(rest.contains(rest[a]));
        } else {
            assert(rest[a] != rest[b]);
        }
    }
}

/// A window replaced by itself is no change.
proof fn lemma_with_same_window(m: ModelView, id: u32)
    requires
        m.windows.dom().contains(id),
    ensures
        m.with_window(id, m.windows[id]) == m,
{
    assert(m.windows.insert(id, m.windows[id]) =~= m.windows);
}

/// Every event keeps the stacking order and the open windows in step.
pub proof fn law_model_stays_well_formed(m: ModelView, event: ClientEventView)
    requires
        m.wf(),
    ensures
        m.after(event).wf(),
{
    match event {
        ClientEventView::WindowOpened(o) => {
            if !m.windows.dom().contains(o.window_id) {
                lemma_stack_push(m, o.window_id, opened_window(o));
            }
        },
        ClientEventView::WindowClosed(c) => {
            if m.windows.dom().contains(c.window_id) {
                lemma_stack_remove(m, c.window_id);
            }
        },
        ClientEventView::WindowZOrder(z) => {
            if m.windows.dom().contains(z.window_id) {
                assert(m.stack.contains(z.window_id));
                match m.place_above(z.window_id, z.above_window_id) {
                    None => {},
                    Some(target) => {
                        let len = m.stack.len() - 1;
                        let target = if target < len { target } else { len };
                        lemma_restacked(m, z.window_id, target);
                    },
                }
            }
        },
        _ => {
            assert(m.after(event).windows.dom() =~= m.windows.dom());
        },
    }
}

/// Which window an event is about, if it is about one that has to be open.
pub open spec fn subject(event: ClientEventView) -> Option<u32> {
    match event {
        ClientEventView::WindowClosed(m) => Some(m.window_id),
        ClientEventView::WindowGeometry(m) => Some(m.window_id),
        ClientEventView::WindowTitle(m) => Some(m.window_id),
        ClientEventView::WindowState(m) => Some(m.window_id),
        ClientEventView::WindowIcon(m) => Some(m.window_id),
        ClientEventView::WindowZOrder(m) => Some(m.window_id),
        _ => None,
    }
}

/// An event about a window that is not open changes nothing and asks for nothing.
pub proof fn law_unknown_windows_are_ignored(m: ModelView, event: ClientEventView)
    requires
        subject(event) is Some,
        !m.windows.dom().contains(subject(event)->0),
    ensures
        m.after(event) == m,
        m.changes(event) == Seq::<ModelChangeView>::empty(),
{
}

/// The first announcement of a window wins: a second one changes nothing.
pub proof fn law_duplicate_opens_are_ignored(m: ModelView, w: WindowOpenedView)
    requires
        m.windows.dom().contains(w.window_id),
    ensures
        m.after(ClientEventView::WindowOpened(w)) == m,
        m.changes(ClientEventView::WindowOpened(w)) == Seq::<ModelChangeView>::empty(),
{
}

/// Only real changes make work: an event that asks for nothing leaves the model as it is, and
/// one that asks to move a window, retitle it or change its state does not.
pub proof fn law_only_real_changes_make_work(m: ModelView, event: ClientEventView)
    requires
        m.wf(),
    ensures
        m.changes(event).len() == 0 ==> m.after(event) == m,
        event is WindowGeometry || event is WindowTitle || event is WindowState ==> (m.changes(
            event,
        ).len() > 0 ==> m.after(event) != m),
        m.changes(event).len() <= 1,
{
    match subject(event) {
        Some(id) => {
            if m.windows.dom().contains(id) {
                lemma_with_same_window(m, id);
                let after = m.after(event);
                if m.changes(event).len() > 0 && !(event is WindowClosed) {
                    assert(event is WindowZOrder || after.windows.dom().contains(id));
                }
            }
        },
        None => {},
    }
}

/// A state update of an open window replaces what was stored of its state and its flags, and
/// keeps the rest of the window and every other window.
pub proof fn law_state_updates_replace_the_flags(m: ModelView, s: WindowState)
    requires
        m.windows.dom().contains(s.window_id),
    ensures
        ({
            let after = m.after(ClientEventView::WindowState(s));
            let w = after.windows[s.window_id];
            &&& w.minimized == (s.state == window_show::MINIMIZED)
            &&& w.maximized == (s.state == window_show::MAXIMIZED)
            &&& w.resizable == (s.flags & window_flag::RESIZABLE != 0)
            &&& w.has_frame == (s.flags & window_flag::HAS_FRAME != 0)
            &&& w.topmost == (s.flags & window_flag::TOPMOST != 0)
            &&& w == with_state(m.windows[s.window_id], s)
            &&& after.windows.remove(s.window_id) == m.windows.remove(s.window_id)
            &&& after.windows.dom() == m.windows.dom()
            &&& after.stack == m.stack
            &&& after.cursor_visible == m.cursor_visible
        }),
{
    let after = m.after(ClientEventView::WindowState(s));
    assert(after.windows.remove(s.window_id) =~= m.windows.remove(s.window_id));
    assert(after.windows.dom() =~= m.windows.dom());
}

/// A window restacked above another one sits directly above it, and one restacked above 0 sits
/// at the bottom.
pub proof fn law_restacking_puts_a_window_above(m: ModelView, window_id: u32, above: u32)
    requires
        m.wf(),
        m.windows.dom().contains(window_id),
        above == 0 || m.windows.dom().contains(above),
        above != window_id,
    ensures
        ({
            let stack = m.after(
                ClientEventView::WindowZOrder(WindowZOrder { window_id, above_window_id: above }),
            ).stack;
            if above == 0 {
                stack.first() == window_id
            } else {
                exists|i: int|
                    0 <= i < stack.len() - 1 && stack[i] == above && #[trigger] stack[i + 1]
                        == window_id
            }
        }),
{
    assert(m.stack.contains(window_id));
    let current = m.stack.index_of(window_id);
    let event = ClientEventView::WindowZOrder(WindowZOrder { window_id, above_window_id: above });
    let stack = m.after(event).stack;
    if above != 0 {
        assert(m.stack.contains(above));
        let i = m.stack.index_of(above);
        assert(i != current);
        let at = if i > current { i - 1 } else { i };
        assert(stack[at] == above && stack[at + 1] == window_id);
    }
}

/// Frames and cursor bitmaps pass through: the model keeps nothing of them.
pub proof fn law_pixels_are_not_retained(m: ModelView, event: ClientEventView)
    requires
        event is Frame || event is CursorShape,
    ensures
        m.after(event) == m,
        m.changes(event).len() == 1,
{
}

/// A window takes the geometry that the agent reports: position and size are the message's own, the
/// rest of the window and every other window are kept, and a move is asked for exactly when one of
/// the four differs from what was stored. A window that is not open stays unknown.
pub proof fn law_geometry_is_followed(m: WindowGeometry)
    ensures
        forall|
            p: &mut WindowModel,
            r: Vec<ModelChange>,
            before: Option<&RemoteWindow>,
            after: Option<&RemoteWindow>,
        |
            #![trigger call_ensures(WindowModel::apply, (p, ClientEvent::WindowGeometry(m)), r), call_ensures(WindowModel::get, (&*p, m.window_id), before), call_ensures(WindowModel::get, (&*final(p), m.window_id), after)]
            call_ensures(WindowModel::apply, (p, ClientEvent::WindowGeometry(m)), r) && call_ensures(
                WindowModel::get,
                (&*p, m.window_id),
                before,
            ) && call_ensures(WindowModel::get, (&*final(p), m.window_id), after) ==> {
                &&& before is None ==> after is None && r@.len() == 0 && final(p)@ == (*p)@
                &&& before matches Some(b) ==> {
                    &&& after matches Some(a)
                    &&& a.x == m.x && a.y == m.y && a.width == m.width && a.height == m.height
                    &&& a@ == (RemoteWindowView {
                        x: m.x,
                        y: m.y,
                        width: m.width,
                        height: m.height,
                        ..b@
                    })
                    &&& r@ == (if b.x == m.x && b.y == m.y && b.width == m.width && b.height
                        == m.height {
                        Seq::empty()
                    } else {
                        seq![ModelChange::Moved(m.window_id)]
                    })
                }
                &&& final(p)@.windows.remove(m.window_id) == (*p)@.windows.remove(m.window_id)
                &&& final(p)@.cursor_visible == (*p)@.cursor_visible
                &&& final(p)@.stack == (*p)@.stack
            },
{
    assert forall|
        p: &mut WindowModel,
        r: Vec<ModelChange>,
        before: Option<&RemoteWindow>,
        after: Option<&RemoteWindow>,
    |
        #![trigger call_ensures(WindowModel::apply, (p, ClientEvent::WindowGeometry(m)), r), call_ensures(WindowModel::get, (&*p, m.window_id), before), call_ensures(WindowModel::get, (&*final(p), m.window_id), after)]
            call_ensures(WindowModel::apply, (p, ClientEvent::WindowGeometry(m)), r) && call_ensures(
                WindowModel::get,
                (&*p, m.window_id),
                before,
            ) && call_ensures(WindowModel::get, (&*final(p), m.window_id), after) implies {
                &&& before is None ==> after is None && r@.len() == 0 && final(p)@ == (*p)@
                &&& before matches Some(b) ==> {
                    &&& after matches Some(a)
                    &&& a.x == m.x && a.y == m.y && a.width == m.width && a.height == m.height
                    &&& a@ == (RemoteWindowView {
                        x: m.x,
                        y: m.y,
                        width: m.width,
                        height: m.height,
                        ..b@
                    })
                    &&& r@ == (if b.x == m.x && b.y == m.y && b.width == m.width && b.height
                        == m.height {
                        Seq::empty()
                    } else {
                        seq![ModelChange::Moved(m.window_id)]
                    })
                }
                &&& final(p)@.windows.remove(m.window_id) == (*p)@.windows.remove(m.window_id)
                &&& final(p)@.cursor_visible == (*p)@.cursor_visible
                &&& final(p)@.stack == (*p)@.stack
            } by {
        assert(r@.len() > 0 ==> r@[0]@ == (*p)@.changes(ClientEvent::WindowGeometry(m)@)[0]);
        assert(final(p)@.windows.remove(m.window_id) =~= (*p)@.windows.remove(m.window_id));
    }
}

/// A window takes the title that the agent reports, and nothing else of it or of another window
/// changes; a new title is asked for exactly when it differs from the one that was stored.
pub proof fn law_titles_are_followed(m: WindowTitle)
    ensures
        forall|
            p: &mut WindowModel,
            r: Vec<ModelChange>,
            before: Option<&RemoteWindow>,
            after: Option<&RemoteWindow>,
        |
            #![trigger call_ensures(WindowModel::apply, (p, ClientEvent::WindowTitle(m)), r), call_ensures(WindowModel::get, (&*p, m.window_id), before), call_ensures(WindowModel::get, (&*final(p), m.window_id), after)]
            call_ensures(WindowModel::apply, (p, ClientEvent::WindowTitle(m)), r) && call_ensures(
                WindowModel::get,
                (&*p, m.window_id),
                before,
            ) && call_ensures(WindowModel::get, (&*final(p), m.window_id), after) ==> {
                &&& before is None ==> after is None && r@.len() == 0 && final(p)@ == (*p)@
                &&& before matches Some(b) ==> {
                    &&& after matches Some(a)
                    &&& a.title@ == m.title@
                    &&& a@ == (RemoteWindowView { title: m.title@, ..b@ })
                    &&& r@ == (if b.title@ == m.title@ {
                        Seq::empty()
                    } else {
                        seq![ModelChange::Retitled(m.window_id)]
                    })
                }
                &&& final(p)@.windows.remove(m.window_id) == (*p)@.windows.remove(m.window_id)
                &&& final(p)@.cursor_visible == (*p)@.cursor_visible
                &&& final(p)@.stack == (*p)@.stack
            },
{
    assert forall|
        p: &mut WindowModel,
        r: Vec<ModelChange>,
        before: Option<&RemoteWindow>,
        after: Option<&RemoteWindow>,
    |
        #![trigger call_ensures(WindowModel::apply, (p, ClientEvent::WindowTitle(m)), r), call_ensures(WindowModel::get, (&*p, m.window_id), before), call_ensures(WindowModel::get, (&*final(p), m.window_id), after)]
            call_ensures(WindowModel::apply, (p, ClientEvent::WindowTitle(m)), r) && call_ensures(
                WindowModel::get,
                (&*p, m.window_id),
                before,
            ) && call_ensures(WindowModel::get, (&*final(p), m.window_id), after) implies {
                &&& before is None ==> after is None && r@.len() == 0 && final(p)@ == (*p)@
                &&& before matches Some(b) ==> {
                    &&& after matches Some(a)
                    &&& a.title@ == m.title@
                    &&& a@ == (RemoteWindowView { title: m.title@, ..b@ })
                    &&& r@ == (if b.title@ == m.title@ {
                        Seq::empty()
                    } else {
                        seq![ModelChange::Retitled(m.window_id)]
                    })
                }
                &&& final(p)@.windows.remove(m.window_id) == (*p)@.windows.remove(m.window_id)
                &&& final(p)@.cursor_visible == (*p)@.cursor_visible
                &&& final(p)@.stack == (*p)@.stack
            } by {
        assert(r@.len() > 0 ==> r@[0]@ == (*p)@.changes(ClientEvent::WindowTitle(m)@)[0]);
        assert(final(p)@.windows.remove(m.window_id) =~= (*p)@.windows.remove(m.window_id));
    }
}

/// A window takes the show state and the flags that the agent reports (`window_show`: 1 is
/// minimized, 2 maximized; `window_flag`: see the bits), and a change is asked for exactly when one
/// of the five differs from what was stored.
pub proof fn law_states_are_followed(m: WindowState)
    ensures
        forall|
            p: &mut WindowModel,
            r: Vec<ModelChange>,
            before: Option<&RemoteWindow>,
            after: Option<&RemoteWindow>,
        |
            #![trigger call_ensures(WindowModel::apply, (p, ClientEvent::WindowState(m)), r), call_ensures(WindowModel::get, (&*p, m.window_id), before), call_ensures(WindowModel::get, (&*final(p), m.window_id), after)]
            call_ensures(WindowModel::apply, (p, ClientEvent::WindowState(m)), r) && call_ensures(
                WindowModel::get,
                (&*p, m.window_id),
                before,
            ) && call_ensures(WindowModel::get, (&*final(p), m.window_id), after) ==> {
                &&& before is None ==> after is None && r@.len() == 0 && final(p)@ == (*p)@
                &&& before matches Some(b) ==> {
                    &&& after matches Some(a)
                    &&& a.minimized == (m.state == 1)
                    &&& a.maximized == (m.state == 2)
                    &&& a.resizable == (m.flags & 1 != 0)
                    &&& a.has_frame == (m.flags & 2 != 0)
                    &&& a.topmost == (m.flags & 4 != 0)
                    &&& a@ == (RemoteWindowView {
                        minimized: a.minimized,
                        maximized: a.maximized,
                        resizable: a.resizable,
                        has_frame: a.has_frame,
                        topmost: a.topmost,
                        ..b@
                    })
                    &&& r@ == (if b.minimized == a.minimized && b.maximized == a.maximized
                        && b.resizable == a.resizable && b.has_frame == a.has_frame && b.topmost
                        == a.topmost {
                        Seq::empty()
                    } else {
                        seq![ModelChange::StateChanged(m.window_id)]
                    })
                }
                &&& final(p)@.windows.remove(m.window_id) == (*p)@.windows.remove(m.window_id)
                &&& final(p)@.cursor_visible == (*p)@.cursor_visible
                &&& final(p)@.stack == (*p)@.stack
            },
{
    assert forall|
        p: &mut WindowModel,
        r: Vec<ModelChange>,
        before: Option<&RemoteWindow>,
        after: Option<&RemoteWindow>,
    |
        #![trigger call_ensures(WindowModel::apply, (p, ClientEvent::WindowState(m)), r), call_ensures(WindowModel::get, (&*p, m.window_id), before), call_ensures(WindowModel::get, (&*final(p), m.window_id), after)]
            call_ensures(WindowModel::apply, (p, ClientEvent::WindowState(m)), r) && call_ensures(
                WindowModel::get,
                (&*p, m.window_id),
                before,
            ) && call_ensures(WindowModel::get, (&*final(p), m.window_id), after) implies {
                &&& before is None ==> after is None && r@.len() == 0 && final(p)@ == (*p)@
                &&& before matches Some(b) ==> {
                    &&& after matches Some(a)
                    &&& a.minimized == (m.state == 1)
                    &&& a.maximized == (m.state == 2)
                    &&& a.resizable == (m.flags & 1 != 0)
                    &&& a.has_frame == (m.flags & 2 != 0)
                    &&& a.topmost == (m.flags & 4 != 0)
                    &&& a@ == (RemoteWindowView {
                        minimized: a.minimized,
                        maximized: a.maximized,
                        resizable: a.resizable,
                        has_frame: a.has_frame,
                        topmost: a.topmost,
                        ..b@
                    })
                    &&& r@ == (if b.minimized == a.minimized && b.maximized == a.maximized
                        && b.resizable == a.resizable && b.has_frame == a.has_frame && b.topmost
                        == a.topmost {
                        Seq::empty()
                    } else {
                        seq![ModelChange::StateChanged(m.window_id)]
                    })
                }
                &&& final(p)@.windows.remove(m.window_id) == (*p)@.windows.remove(m.window_id)
                &&& final(p)@.cursor_visible == (*p)@.cursor_visible
                &&& final(p)@.stack == (*p)@.stack
            } by {
        assert(r@.len() > 0 ==> r@[0]@ == (*p)@.changes(ClientEvent::WindowState(m)@)[0]);
        assert(final(p)@.windows.remove(m.window_id) =~= (*p)@.windows.remove(m.window_id));
    }
}

/// A window takes every icon that the agent sends, and each is asked for.
pub proof fn law_icons_are_followed(m: WindowIcon)
    ensures
        forall|
            p: &mut WindowModel,
            r: Vec<ModelChange>,
            before: Option<&RemoteWindow>,
            after: Option<&RemoteWindow>,
        |
            #![trigger call_ensures(WindowModel::apply, (p, ClientEvent::WindowIcon(m)), r), call_ensures(WindowModel::get, (&*p, m.window_id), before), call_ensures(WindowModel::get, (&*final(p), m.window_id), after)]
            call_ensures(WindowModel::apply, (p, ClientEvent::WindowIcon(m)), r) && call_ensures(
                WindowModel::get,
                (&*p, m.window_id),
                before,
            ) && call_ensures(WindowModel::get, (&*final(p), m.window_id), after) ==> {
                &&& before is None ==> after is None && r@.len() == 0 && final(p)@ == (*p)@
                &&& before matches Some(b) ==> {
                    &&& after matches Some(a)
                    &&& a.icon matches Some(icon)
                    &&& icon@ == m@
                    &&& a@ == (RemoteWindowView { icon: Some(m@), ..b@ })
                    &&& r@ == seq![ModelChange::IconChanged(m.window_id)]
                }
                &&& final(p)@.windows.remove(m.window_id) == (*p)@.windows.remove(m.window_id)
                &&& final(p)@.cursor_visible == (*p)@.cursor_visible
                &&& final(p)@.stack == (*p)@.stack
            },
{
    assert forall|
        p: &mut WindowModel,
        r: Vec<ModelChange>,
        before: Option<&RemoteWindow>,
        after: Option<&RemoteWindow>,
    |
        #![trigger call_ensures(WindowModel::apply, (p, ClientEvent::WindowIcon(m)), r), call_ensures(WindowModel::get, (&*p, m.window_id), before), call_ensures(WindowModel::get, (&*final(p), m.window_id), after)]
            call_ensures(WindowModel::apply, (p, ClientEvent::WindowIcon(m)), r) && call_ensures(
                WindowModel::get,
                (&*p, m.window_id),
                before,
            ) && call_ensures(WindowModel::get, (&*final(p), m.window_id), after) implies {
                &&& before is None ==> after is None && r@.len() == 0 && final(p)@ == (*p)@
                &&& before matches Some(b) ==> {
                    &&& after matches Some(a)
                    &&& a.icon matches Some(icon)
                    &&& icon@ == m@
                    &&& a@ == (RemoteWindowView { icon: Some(m@), ..b@ })
                    &&& r@ == seq![ModelChange::IconChanged(m.window_id)]
                }
                &&& final(p)@.windows.remove(m.window_id) == (*p)@.windows.remove(m.window_id)
                &&& final(p)@.cursor_visible == (*p)@.cursor_visible
                &&& final(p)@.stack == (*p)@.stack
            } by {
        assert(r@.len() > 0 ==> r@[0]@ == (*p)@.changes(ClientEvent::WindowIcon(m)@)[0]);
        assert(final(p)@.windows.remove(m.window_id) =~= (*p)@.windows.remove(m.window_id));
    }
}

/// A window that opens is kept with everything its announcement says of it and no icon, on top of
/// the others, and a native window is asked for. A second announcement of an open window is ignored.
pub proof fn law_opened_windows_are_kept(m: WindowOpened)
    ensures
        forall|
            p: &mut WindowModel,
            r: Vec<ModelChange>,
            before: Option<&RemoteWindow>,
            after: Option<&RemoteWindow>,
        |
            #![trigger call_ensures(WindowModel::apply, (p, ClientEvent::WindowOpened(m)), r), call_ensures(WindowModel::get, (&*p, m.window_id), before), call_ensures(WindowModel::get, (&*final(p), m.window_id), after)]
            call_ensures(WindowModel::apply, (p, ClientEvent::WindowOpened(m)), r) && call_ensures(
                WindowModel::get,
                (&*p, m.window_id),
                before,
            ) && call_ensures(WindowModel::get, (&*final(p), m.window_id), after) ==> {
                &&& before is Some ==> r@.len() == 0 && final(p)@ == (*p)@
                &&& before is None ==> {
                    &&& after matches Some(a)
                    &&& a.window_id == m.window_id && a.video_channel == m.video_channel
                    &&& a.app_id@ == m.app_id@ && a.title@ == m.title@
                    &&& a.x == m.x && a.y == m.y && a.width == m.width && a.height == m.height
                    &&& a.dpi == m.dpi && a.owner_id == m.owner_id
                    &&& a.minimized == (m.flags & 8 != 0)
                    &&& a.maximized == (m.flags & 0x10 != 0)
                    &&& a.resizable == (m.flags & 1 != 0)
                    &&& a.has_frame == (m.flags & 2 != 0)
                    &&& a.topmost == (m.flags & 4 != 0)
                    &&& a.icon is None
                    &&& r@ == seq![ModelChange::Created(m.window_id)]
                    &&& final(p)@.stack == (*p)@.stack.push(m.window_id)
                }
                &&& final(p)@.windows.remove(m.window_id) == (*p)@.windows.remove(m.window_id)
                &&& final(p)@.cursor_visible == (*p)@.cursor_visible
            },
{
    assert forall|
        p: &mut WindowModel,
        r: Vec<ModelChange>,
        before: Option<&RemoteWindow>,
        after: Option<&RemoteWindow>,
    |
        #![trigger call_ensures(WindowModel::apply, (p, ClientEvent::WindowOpened(m)), r), call_ensures(WindowModel::get, (&*p, m.window_id), before), call_ensures(WindowModel::get, (&*final(p), m.window_id), after)]
            call_ensures(WindowModel::apply, (p, ClientEvent::WindowOpened(m)), r) && call_ensures(
                WindowModel::get,
                (&*p, m.window_id),
                before,
            ) && call_ensures(WindowModel::get, (&*final(p), m.window_id), after) implies {
                &&& before is Some ==> r@.len() == 0 && final(p)@ == (*p)@
                &&& before is None ==> {
                    &&& after matches Some(a)
                    &&& a.window_id == m.window_id && a.video_channel == m.video_channel
                    &&& a.app_id@ == m.app_id@ && a.title@ == m.title@
                    &&& a.x == m.x && a.y == m.y && a.width == m.width && a.height == m.height
                    &&& a.dpi == m.dpi && a.owner_id == m.owner_id
                    &&& a.minimized == (m.flags & 8 != 0)
                    &&& a.maximized == (m.flags & 0x10 != 0)
                    &&& a.resizable == (m.flags & 1 != 0)
                    &&& a.has_frame == (m.flags & 2 != 0)
                    &&& a.topmost == (m.flags & 4 != 0)
                    &&& a.icon is None
                    &&& r@ == seq![ModelChange::Created(m.window_id)]
                    &&& final(p)@.stack == (*p)@.stack.push(m.window_id)
                }
                &&& final(p)@.windows.remove(m.window_id) == (*p)@.windows.remove(m.window_id)
                &&& final(p)@.cursor_visible == (*p)@.cursor_visible
            } by {
        assert(r@.len() > 0 ==> r@[0]@ == (*p)@.changes(ClientEvent::WindowOpened(m)@)[0]);
        assert(final(p)@.windows.remove(m.window_id) =~= (*p)@.windows.remove(m.window_id));
    }
}

/// A window that closes is gone, from the stacking order too, where the others keep their order; and
/// its native window is asked to be destroyed.
pub proof fn law_closed_windows_are_gone(m: WindowClosed)
    ensures
        forall|
            p: &mut WindowModel,
            r: Vec<ModelChange>,
            before: Option<&RemoteWindow>,
            after: Option<&RemoteWindow>,
        |
            #![trigger call_ensures(WindowModel::apply, (p, ClientEvent::WindowClosed(m)), r), call_ensures(WindowModel::get, (&*p, m.window_id), before), call_ensures(WindowModel::get, (&*final(p), m.window_id), after)]
            call_ensures(WindowModel::apply, (p, ClientEvent::WindowClosed(m)), r) && call_ensures(
                WindowModel::get,
                (&*p, m.window_id),
                before,
            ) && call_ensures(WindowModel::get, (&*final(p), m.window_id), after) ==> {
                &&& before is None ==> after is None && r@.len() == 0 && final(p)@ == (*p)@
                &&& before is Some ==> {
                    &&& after is None
                    &&& r@ == seq![ModelChange::Destroyed(m.window_id)]
                    &&& !final(p)@.stack.contains(m.window_id)
                    &&& final(p)@.stack.len() == (*p)@.stack.len() - 1
                    &&& exists|at: int|
                        0 <= at < (*p)@.stack.len() && (*p)@.stack[at] == m.window_id
                            && final(p)@.stack == #[trigger] (*p)@.stack.remove(at)
                }
                &&& final(p)@.windows.remove(m.window_id) == (*p)@.windows.remove(m.window_id)
                &&& final(p)@.cursor_visible == (*p)@.cursor_visible
            },
{
    assert forall|
        p: &mut WindowModel,
        r: Vec<ModelChange>,
        before: Option<&RemoteWindow>,
        after: Option<&RemoteWindow>,
    |
        #![trigger call_ensures(WindowModel::apply, (p, ClientEvent::WindowClosed(m)), r), call_ensures(WindowModel::get, (&*p, m.window_id), before), call_ensures(WindowModel::get, (&*final(p), m.window_id), after)]
            call_ensures(WindowModel::apply, (p, ClientEvent::WindowClosed(m)), r) && call_ensures(
                WindowModel::get,
                (&*p, m.window_id),
                before,
            ) && call_ensures(WindowModel::get, (&*final(p), m.window_id), after) implies {
                &&& before is None ==> after is None && r@.len() == 0 && final(p)@ == (*p)@
                &&& before is Some ==> {
                    &&& after is None
                    &&& r@ == seq![ModelChange::Destroyed(m.window_id)]
                    &&& !final(p)@.stack.contains(m.window_id)
                    &&& final(p)@.stack.len() == (*p)@.stack.len() - 1
                    &&& exists|at: int|
                        0 <= at < (*p)@.stack.len() && (*p)@.stack[at] == m.window_id
                            && final(p)@.stack == #[trigger] (*p)@.stack.remove(at)
                }
                &&& final(p)@.windows.remove(m.window_id) == (*p)@.windows.remove(m.window_id)
                &&& final(p)@.cursor_visible == (*p)@.cursor_visible
            } by {
        assert(r@.len() > 0 ==> r@[0]@ == (*p)@.changes(ClientEvent::WindowClosed(m)@)[0]);
        assert(final(p)@.windows.remove(m.window_id) =~= (*p)@.windows.remove(m.window_id));
        if before is Some {
            assert((*p)@.stack.contains(m.window_id));
            let at = (*p)@.stack.index_of(m.window_id);
            assert(final(p)@.stack == (*p)@.stack.remove(at));
        }
    }
}

/// What concerns no window's place or looks is passed on as it came: frames, the cursor, errors and
/// the end of the session, each with its own values. Only whether the cursor is shown is kept.
pub proof fn law_other_events_are_passed_on(event: ClientEvent)
    requires
        event is Frame || event is CursorShape || event is CursorPosition
            || event is CursorVisibility || event is Error || event is Closed,
    ensures
        forall|p: &mut WindowModel, r: Vec<ModelChange>| #[trigger]
            call_ensures(WindowModel::apply, (p, event), r) ==> {
                &&& final(p)@.windows == (*p)@.windows && final(p)@.stack == (*p)@.stack
                &&& !(event is CursorVisibility) ==> final(p)@.cursor_visible
                    == (*p)@.cursor_visible
                &&& r@.len() == 1
                &&& match event {
                    ClientEvent::Frame(f) => r@[0] matches ModelChange::Frame(out) && out@ == f@,
                    ClientEvent::CursorShape(c) => r@[0] matches ModelChange::CursorShape(out)
                        && out@ == c@,
                    ClientEvent::CursorPosition(c) => r@[0] == (ModelChange::CursorMoved {
                        window_id: c.window_id,
                        x: c.x,
                        y: c.y,
                    }),
                    ClientEvent::CursorVisibility(v) => {
                        &&& r@[0] == ModelChange::CursorVisibility(v.visible)
                        &&& final(p)@.cursor_visible == v.visible
                    },
                    ClientEvent::Error(e) => {
                        &&& r@[0] matches ModelChange::AgentError { code, message }
                        &&& code == e.code && message@ == e.message@
                    },
                    _ => r@[0] == ModelChange::Closed,
                }
            },
{
    assert forall|p: &mut WindowModel, r: Vec<ModelChange>| #[trigger]
        call_ensures(WindowModel::apply, (p, event), r) implies {
                &&& final(p)@.windows == (*p)@.windows && final(p)@.stack == (*p)@.stack
                &&& !(event is CursorVisibility) ==> final(p)@.cursor_visible
                    == (*p)@.cursor_visible
                &&& r@.len() == 1
                &&& match event {
                    ClientEvent::Frame(f) => r@[0] matches ModelChange::Frame(out) && out@ == f@,
                    ClientEvent::CursorShape(c) => r@[0] matches ModelChange::CursorShape(out)
                        && out@ == c@,
                    ClientEvent::CursorPosition(c) => r@[0] == (ModelChange::CursorMoved {
                        window_id: c.window_id,
                        x: c.x,
                        y: c.y,
                    }),
                    ClientEvent::CursorVisibility(v) => {
                        &&& r@[0] == ModelChange::CursorVisibility(v.visible)
                        &&& final(p)@.cursor_visible == v.visible
                    },
                    ClientEvent::Error(e) => {
                        &&& r@[0] matches ModelChange::AgentError { code, message }
                        &&& code == e.code && message@ == e.message@
                    },
                    _ => r@[0] == ModelChange::Closed,
                }
            } by {
        assert(r@.len() == 1);
        assert(r@[0]@ == (*p)@.changes(event@)[0]);
    }
}

/// Restacking moves one window and no other: the others keep their order, and it is asked for
/// exactly when the order changed. Above an unknown window, nothing moves.
pub proof fn law_restacking_keeps_the_others(m: ModelView, window_id: u32, above: u32)
    requires
        m.wf(),
        m.windows.dom().contains(window_id),
        above != window_id,
    ensures
        ({
            let event = ClientEventView::WindowZOrder(
                WindowZOrder { window_id, above_window_id: above },
            );
            let after = m.after(event);
            &&& after.windows == m.windows && after.cursor_visible == m.cursor_visible
            &&& after.stack.contains(window_id) && after.stack.len() == m.stack.len()
            &&& after.stack.remove(after.stack.index_of(window_id)) == m.stack.remove(
                m.stack.index_of(window_id),
            )
            &&& above != 0 && !m.windows.dom().contains(above) ==> after == m
            &&& m.changes(event) == (if after.stack == m.stack {
                Seq::empty()
            } else {
                seq![ModelChangeView::Restacked]
            })
        }),
{
    let event = ClientEventView::WindowZOrder(WindowZOrder { window_id, above_window_id: above });
    let after = m.after(event);
    assert(m.stack.contains(window_id));
    let current = m.stack.index_of(window_id);
    law_model_stays_well_formed(m, event);
    if after != m {
        let target = m.place_above(window_id, above)->0;
        if above != 0 {
            assert(m.stack.contains(above));
            assert(m.stack.index_of(above) != current);
        }
        let rest = m.stack.remove(current);
        assert(0 <= target <= rest.len());
        assert(after.stack == rest.insert(target, window_id));
        assert(after.stack[target] == window_id);
        assert(after.stack.contains(window_id));
        let at = after.stack.index_of(window_id);
        assert(at == target);
        assert(after.stack.remove(at) =~= rest);
        assert(after.stack != m.stack) by {
            assert(m.stack[current] == window_id);
            assert(target != current);
            if after.stack == m.stack {
                assert(m.stack[target] == m.stack[current]);
            }
        }
    }
}

/// A new model has no windows and shows the cursor; whether it is shown is the agent's to say.
pub proof fn law_models_start_empty(
    m: WindowModel,
    len: usize,
    empty: bool,
    stack: &[u32],
    visible: bool,
    shape: CursorVisibility,
)
    requires
        call_ensures(WindowModel::new, (), m),
        call_ensures(WindowModel::len, (&m,), len),
        call_ensures(WindowModel::is_empty, (&m,), empty),
        call_ensures(WindowModel::stack, (&m,), stack),
        call_ensures(WindowModel::cursor_visible, (&m,), visible),
    ensures
        len == 0 && empty && stack@.len() == 0 && visible,
        forall|p: &mut WindowModel, r: Vec<ModelChange>, now: bool|
            #![trigger call_ensures(WindowModel::apply, (p, ClientEvent::CursorVisibility(shape)), r), call_ensures(WindowModel::cursor_visible, (&*final(p),), now)]
            call_ensures(WindowModel::apply, (p, ClientEvent::CursorVisibility(shape)), r)
                && call_ensures(WindowModel::cursor_visible, (&*final(p),), now) ==> now
                == shape.visible,
{
    assert(m@.windows.dom() =~= Set::empty());
}

} // verus!
