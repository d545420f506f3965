//! What the display layer reacts to.

use vstd::prelude::*;

use crate::proto::message::{
    Close, CursorPosition, CursorShape, CursorShapeView, CursorVisibility, Error, ErrorView,
    FrameData, FrameDataView, WindowClosed, WindowGeometry, WindowIcon, WindowIconView,
    WindowOpened, WindowOpenedView, WindowState, WindowTitle, WindowTitleView, WindowZOrder,
};

verus! {

/// What the display/render layer reacts to.
#[derive(Debug, Clone, PartialEq, Eq)]
pub enum ClientEvent {
    /// A remote window appeared; create a native window for it.
    WindowOpened(WindowOpened),
    /// A window moved or resized on the guest.
    WindowGeometry(WindowGeometry),
    /// A window's title changed.
    WindowTitle(WindowTitle),
    /// A window's show state changed.
    WindowState(WindowState),
    /// A window's stacking position changed.
    WindowZOrder(WindowZOrder),
    /// A window's icon arrived.
    WindowIcon(WindowIcon),
    /// A remote window closed; destroy its native window.
    WindowClosed(WindowClosed),
    /// A frame for a window; decode and present it.
    Frame(FrameData),
    /// The cursor bitmap changed.
    CursorShape(CursorShape),
    /// The cursor moved.
    CursorPosition(CursorPosition),
    /// The cursor was shown or hidden.
    CursorVisibility(CursorVisibility),
    /// The agent reported an error.
    Error(Error),
    /// The agent is closing the session.
    Closed(Close),
}

/// What a [`ClientEvent`] holds.
pub enum ClientEventView {
    /// See [`ClientEvent::WindowOpened`].
    WindowOpened(WindowOpenedView),
    /// See [`ClientEvent::WindowGeometry`].
    WindowGeometry(WindowGeometry),
    /// See [`ClientEvent::WindowTitle`].
    WindowTitle(WindowTitleView),
    /// See [`ClientEvent::WindowState`].
    WindowState(WindowState),
    /// See [`ClientEvent::WindowZOrder`].
    WindowZOrder(WindowZOrder),
    /// See [`ClientEvent::WindowIcon`].
    WindowIcon(WindowIconView),
    /// See [`ClientEvent::WindowClosed`].
    WindowClosed(WindowClosed),
    /// See [`ClientEvent::Frame`].
    Frame(FrameDataView),
    /// See [`ClientEvent::CursorShape`].
    CursorShape(CursorShapeView),
    /// See [`ClientEvent::CursorPosition`].
    CursorPosition(CursorPosition),
    /// See [`ClientEvent::CursorVisibility`].
    CursorVisibility(CursorVisibility),
    /// See [`ClientEvent::Error`].
    Error(ErrorView),
    /// See [`ClientEvent::Closed`].
    Closed(Close),
}

impl View for ClientEvent {
    type V = ClientEventView;

    open spec fn view(&self) -> ClientEventView {
        match self {
            ClientEvent::WindowOpened(m) => ClientEventView::WindowOpened(m@),
            ClientEvent::WindowGeometry(m) => ClientEventView::WindowGeometry(m@),
            ClientEvent::WindowTitle(m) => ClientEventView::WindowTitle(m@),
            ClientEvent::WindowState(m) => ClientEventView::WindowState(m@),
            ClientEvent::WindowZOrder(m) => ClientEventView::WindowZOrder(m@),
            ClientEvent::WindowIcon(m) => ClientEventView::WindowIcon(m@),
            ClientEvent::WindowClosed(m) => ClientEventView::WindowClosed(m@),
            ClientEvent::Frame(m) => ClientEventView::Frame(m@),
            ClientEvent::CursorShape(m) => ClientEventView::CursorShape(m@),
            ClientEvent::CursorPosition(m) => ClientEventView::CursorPosition(m@),
            ClientEvent::CursorVisibility(m) => ClientEventView::CursorVisibility(m@),
            ClientEvent::Error(m) => ClientEventView::Error(m@),
            ClientEvent::Closed(m) => ClientEventView::Closed(m@),
        }
    }
}

} // verus!
