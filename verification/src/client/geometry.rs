//! Which local window-geometry changes are the user's intent, and what they mean on the guest.
//!
//! # The problem this exists to solve
//!
//! The display layer reports what the host window manager did: a resize when a native window
//! changes size, a move when it changes position. Those events are identical whether the
//! user dragged the window or the WM placed it, and a WM places and sizes every window the
//! moment it is created. Forwarding them all turned "connect to the guest" into "rearrange and
//! shrink every window on the guest", with host-screen coordinates written into a guest desktop
//! where they mean nothing.
//!
//! # The two rules
//!
//! 1. **A geometry change the client caused is not the user's intent.** Creating a window and
//!    applying the guest's own geometry both provoke WM events; both open a short settling
//!    window during which local reports only *update what the client believes*, and are never
//!    sent onward.
//! 2. **Only an observed displacement is ever sent, never an observed position.** A position is
//!    a host-screen coordinate, which has no meaning on the guest. A displacement is the same
//!    number in both spaces. The guest position the client sends is always
//!    `last known guest position + (how far the user just dragged it)`, so it needs two local
//!    observations to send one move, which makes "echo the WM's placement" structurally
//!    impossible rather than merely unlikely.
//!
//! Size needs no such translation: the local size is authoritative, and a size is not a
//! coordinate in anybody's screen space.
//!
//! Times are microseconds on the client's clock.

use std::collections::HashMap;

use vstd::prelude::*;

use crate::client::model::{ModelView, RemoteWindow, WindowModel};

verus! {

/// How long, in microseconds, after a client-caused geometry change local reports are treated
/// as the window manager settling rather than as the user acting.
///
/// A window manager places a window within a frame or two of mapping it; a user cannot see a
/// window appear, reach for it and drag it inside this window. Should a WM place a window later
/// than this, the second rule above still holds: the first position observed only ever becomes
/// an anchor.
pub const SETTLE: u64 = 750_000;

/// Per-window geometry state: what the client believes, and whether it is settled.
#[derive(Debug, Clone, Copy)]
pub struct WindowSync {
    /// Local reports before this time are the window manager, not the user.
    pub settling_until: u64,
    /// Guest-space position that `local_anchor` corresponds to.
    pub guest_anchor: (i32, i32),
    /// Local position last observed, or `None` until the WM has reported one.
    pub local_anchor: Option<(i32, i32)>,
    /// Local size last observed or applied.
    pub local_size: Option<(u16, u16)>,
}

/// The `i32` nearest to `v`.
pub open spec fn nearest_i32(v: int) -> i32 {
    if v < i32::MIN {
        i32::MIN
    } else if v > i32::MAX {
        i32::MAX
    } else {
        v as i32
    }
}

/// When a settling window that opens at `now` closes.
pub open spec fn settled_at(now: u64) -> u64 {
    if now + SETTLE <= u64::MAX {
        (now + SETTLE) as u64
    } else {
        u64::MAX
    }
}

/// What is known of a window whose geometry the client itself just set.
pub open spec fn anchored(now: u64, x: i32, y: i32, size: (u16, u16)) -> WindowSync {
    WindowSync {
        settling_until: settled_at(now),
        guest_anchor: (x, y),
        local_anchor: None,
        local_size: Some(size),
    }
}

impl WindowSync {
    /// How far the window was dragged since its last observed position.
    pub open spec fn displacement(self, x: i32, y: i32) -> Option<(i32, i32)> {
        match self.local_anchor {
            None => None,
            Some(previous) => Some((nearest_i32(x - previous.0), nearest_i32(y - previous.1))),
        }
    }

    /// The guest position that a report of a local position asks for, if it is the user's doing.
    pub open spec fn asked_position(self, now: u64, x: i32, y: i32) -> Option<(i32, i32)> {
        match self.displacement(x, y) {
            None => None,
            Some(d) => if now < self.settling_until || (d.0 == 0 && d.1 == 0) {
                None
            } else {
                Some(
                    (
                        nearest_i32(self.guest_anchor.0 + d.0),
                        nearest_i32(self.guest_anchor.1 + d.1),
                    ),
                )
            },
        }
    }

    /// What is known after a report of a local position.
    pub open spec fn after_move(self, now: u64, x: i32, y: i32) -> WindowSync {
        WindowSync {
            local_anchor: Some((x, y)),
            guest_anchor: match self.asked_position(now, x, y) {
                None => self.guest_anchor,
                Some(target) => target,
            },
            ..self
        }
    }
}

/// Whether the guest lets the window be resized.
pub open spec fn is_resizable(model: ModelView, window_id: u32) -> bool {
    model.windows.dom().contains(window_id) && model.windows[window_id].resizable
}

/// Whether a report of a local size counts at all.
pub open spec fn size_counts(model: ModelView, window_id: u32, width: u16, height: u16) -> bool {
    is_resizable(model, window_id) && width != 0 && height != 0
}

/// A call of a [`GeometrySync`].
pub enum GeometryCall {
    /// See [`GeometrySync::created`].
    Created {
        /// When it was.
        now: u64,
        /// The window.
        window_id: u32,
        /// Its position on the guest.
        guest: (i32, i32),
        /// Its size.
        size: (u16, u16),
    },
    /// See [`GeometrySync::guest_moved`].
    GuestMoved {
        /// When it was.
        now: u64,
        /// The window.
        window_id: u32,
        /// Its position on the guest.
        guest: (i32, i32),
        /// Its size.
        size: (u16, u16),
    },
    /// See [`GeometrySync::forget`].
    Forget {
        /// The window.
        window_id: u32,
    },
    /// See [`GeometrySync::moved`].
    Moved {
        /// When it was.
        now: u64,
        /// The window.
        window_id: u32,
        /// The local position reported.
        x: i32,
        /// The local position reported.
        y: i32,
    },
    /// See [`GeometrySync::resized`].
    Resized {
        /// When it was.
        now: u64,
        /// The guest's windows.
        model: ModelView,
        /// The window.
        window_id: u32,
        /// The local size reported.
        width: u16,
        /// The local size reported.
        height: u16,
    },
}

impl GeometryCall {
    /// The window that a call is about.
    pub open spec fn window(self) -> u32 {
        match self {
            GeometryCall::Created { window_id, .. } => window_id,
            GeometryCall::GuestMoved { window_id, .. } => window_id,
            GeometryCall::Forget { window_id } => window_id,
            GeometryCall::Moved { window_id, .. } => window_id,
            GeometryCall::Resized { window_id, .. } => window_id,
        }
    }

    /// Whether a call is a report of what the window manager did with a window.
    pub open spec fn reports(self, id: u32) -> bool {
        self.window() == id && (self is Moved || self is Resized)
    }

    /// Whether a call sets or drops what is known of a window.
    pub open spec fn resets(self, id: u32) -> bool {
        self.window() == id && !(self is Moved) && !(self is Resized)
    }

    /// Whether what a report says counts as the window manager's doing, being before `settled`.
    pub open spec fn is_before(self, settled: u64) -> bool {
        match self {
            GeometryCall::Moved { now, .. } => now < settled,
            GeometryCall::Resized { now, .. } => now < settled,
            _ => false,
        }
    }
}

/// The position that a call asks of the guest, if it asks for one.
pub open spec fn position_asked(known: Map<u32, WindowSync>, call: GeometryCall) -> Option<
    (i32, i32),
> {
    match call {
        GeometryCall::Moved { now, window_id, x, y } => if known.dom().contains(window_id) {
            known[window_id].asked_position(now, x, y)
        } else {
            None
        },
        _ => None,
    }
}

/// The size that a call asks of the guest, if it asks for one.
pub open spec fn size_asked(known: Map<u32, WindowSync>, call: GeometryCall) -> Option<
    (u16, u16),
> {
    match call {
        GeometryCall::Resized { now, model, window_id, width, height } => if known.dom().contains(
            window_id,
        ) && size_counts(model, window_id, width, height) && !(now
            < known[window_id].settling_until || known[window_id].local_size == Some(
            (width, height),
        )) {
            Some((width, height))
        } else {
            None
        },
        _ => None,
    }
}

/// What is known after a call.
pub open spec fn known_after(known: Map<u32, WindowSync>, call: GeometryCall) -> Map<
    u32,
    WindowSync,
> {
    match call {
        GeometryCall::Created { now, window_id, guest, size } => known.insert(
            window_id,
            anchored(now, guest.0, guest.1, size),
        ),
        GeometryCall::GuestMoved { now, window_id, guest, size } => if known.dom().contains(
            window_id,
        ) {
            known.insert(window_id, anchored(now, guest.0, guest.1, size))
        } else {
            known
        },
        GeometryCall::Forget { window_id } => known.remove(window_id),
        GeometryCall::Moved { now, window_id, x, y } => if known.dom().contains(window_id) {
            known.insert(window_id, known[window_id].after_move(now, x, y))
        } else {
            known
        },
        GeometryCall::Resized { now, model, window_id, width, height } => if known.dom().contains(
            window_id,
        ) && size_counts(model, window_id, width, height) {
            known.insert(
                window_id,
                WindowSync { local_size: Some((width, height)), ..known[window_id] },
            )
        } else {
            known
        },
    }
}

/// What is known after some calls, one after the other.
pub open spec fn known_after_all(known: Map<u32, WindowSync>, calls: Seq<GeometryCall>) -> Map<
    u32,
    WindowSync,
>
    decreases calls.len(),
{
    if calls.len() == 0 {
        known
    } else {
        known_after(known_after_all(known, calls.drop_last()), calls.last())
    }
}

/// Decides what a local geometry change should tell the guest.
#[derive(Debug)]
pub struct GeometrySync {
    windows: HashMap<u32, WindowSync>,
}

impl View for GeometrySync {
    type V = Map<u32, WindowSync>;

    closed spec fn view(&self) -> Map<u32, WindowSync> {
        self.windows@
    }
}

impl Default for GeometrySync {
    fn default() -> (r: Self)
        ensures
            r@ == Map::<u32, WindowSync>::empty(),
    {
        broadcast use vstd::std_specs::hash::group_hash_axioms;

        GeometrySync { windows: HashMap::new() }
    }
}

/// `a + b`, at most and at least what an `i32` holds.
fn add_i32(a: i32, b: i32) -> (r: i32)
    ensures
        r == nearest_i32(a + b),
{
    let v: i64 = a as i64 + b as i64;
    if v < i32::MIN as i64 {
        i32::MIN
    } else if v > i32::MAX as i64 {
        i32::MAX
    } else {
        v as i32
    }
}

/// `a - b`, at most and at least what an `i32` holds.
fn sub_i32(a: i32, b: i32) -> (r: i32)
    ensures
        r == nearest_i32(a - b),
{
    let v: i64 = a as i64 - b as i64;
    if v < i32::MIN as i64 {
        i32::MIN
    } else if v > i32::MAX as i64 {
        i32::MAX
    } else {
        v as i32
    }
}

impl GeometrySync {
    /// Creates an empty tracker.
    pub fn new() -> (r: Self)
        ensures
            r@ == Map::<u32, WindowSync>::empty(),
    {
        GeometrySync::default()
    }

    /// A native window was just created from the guest's geometry.
    pub fn created(&mut self, now: u64, window_id: u32, x: i32, y: i32, size: (u16, u16))
        ensures
            final(self)@ == known_after(
                old(self)@,
                GeometryCall::Created { now, window_id, guest: (x, y), size },
            ),
    {
        broadcast use vstd::std_specs::hash::group_hash_axioms;

        self.windows.insert(
            window_id,
            WindowSync {
                settling_until: now.saturating_add(SETTLE),
                guest_anchor: (x, y),
                // Not seeded from the requested position: the WM is free to place the window
                // somewhere else entirely, and guessing here is exactly how a WM placement gets
                // mistaken for a drag.
                local_anchor: None,
                local_size: Some(size),
            },
        );
    }

    /// The guest moved or resized a window and the client is applying it locally.
    pub fn guest_moved(&mut self, now: u64, window_id: u32, x: i32, y: i32, size: (u16, u16))
        ensures
            final(self)@ == known_after(
                old(self)@,
                GeometryCall::GuestMoved { now, window_id, guest: (x, y), size },
            ),
    {
        broadcast use vstd::std_specs::hash::group_hash_axioms;

        if self.windows.contains_key(&window_id) {
            self.created(now, window_id, x, y, size);
        }
    }

    /// Drops a window's state.
    pub fn forget(&mut self, window_id: u32)
        ensures
            final(self)@ == known_after(old(self)@, GeometryCall::Forget { window_id }),
    {
        broadcast use vstd::std_specs::hash::group_hash_axioms;

        self.windows.remove(&window_id);
        assert(self@ =~= old(self)@.remove(window_id));
    }

    /// A native window reports a new position.
    ///
    /// Returns the guest-space position to send, or `None` when this is not the user moving the
    /// window.
    pub fn moved(&mut self, now: u64, window_id: u32, x: i32, y: i32) -> (r: Option<(i32, i32)>)
        ensures
            r == position_asked(old(self)@, GeometryCall::Moved { now, window_id, x, y }),
            final(self)@ == known_after(old(self)@, GeometryCall::Moved { now, window_id, x, y }),
    {
        broadcast use vstd::std_specs::hash::group_hash_axioms;

        let state: WindowSync = match self.windows.get(&window_id) {
            None => {
                return None;
            },
            Some(state) => *state,
        };
        let settling = now < state.settling_until;
        let mut after = state;
        after.local_anchor = Some((x, y));
        let mut sent: Option<(i32, i32)> = None;
        // While settling, the window manager is still placing this window. And one observation
        // is an anchor, not a displacement: there is nothing to send yet.
        if !settling {
            if let Some((previous_x, previous_y)) = state.local_anchor {
                let dx: i32 = sub_i32(x, previous_x);
                let dy: i32 = sub_i32(y, previous_y);
                if dx != 0 || dy != 0 {
                    let target = (
                        add_i32(state.guest_anchor.0, dx),
                        add_i32(state.guest_anchor.1, dy),
                    );
                    // The user's drag is now the truth for both spaces.
                    after.guest_anchor = target;
                    sent = Some(target);
                }
            }
        }
        self.windows.insert(window_id, after);
        sent
    }

    /// A native window reports a new size.
    ///
    /// Returns the size to ask the guest for, or `None` when the client must not ask.
    pub fn resized(
        &mut self,
        now: u64,
        model: &WindowModel,
        window_id: u32,
        width: u16,
        height: u16,
    ) -> (r: Option<(u16, u16)>)
        ensures
            r == size_asked(
                old(self)@,
                GeometryCall::Resized { now, model: model@, window_id, width, height },
            ),
            final(self)@ == known_after(
                old(self)@,
                GeometryCall::Resized { now, model: model@, window_id, width, height },
            ),
    {
        broadcast use vstd::std_specs::hash::group_hash_axioms;

        // A window the guest reports as fixed-size is a dialog like charmap: asking it to
        // resize either does nothing or corrupts it, and the WM should not have offered.
        let resizable = match model.get(window_id) {
            None => false,
            Some(window) => window.resizable,
        };
        if !resizable {
            return None;
        }
        // A zero axis is an unmapped or minimised window, not a resize to nothing.
        if width == 0 || height == 0 {
            return None;
        }
        let state: WindowSync = match self.windows.get(&window_id) {
            None => {
                return None;
            },
            Some(state) => *state,
        };
        let settling = now < state.settling_until;
        let unchanged = match state.local_size {
            None => false,
            Some((w, h)) => w == width && h == height,
        };
        let mut after = state;
        after.local_size = Some((width, height));
        self.windows.insert(window_id, after);
        if settling || unchanged {
            return None;
        }
        Some((width, height))
    }
}

/// The first position reported after the client set a window's geometry is never sent, however
/// late it comes: it takes two observations to make a displacement.
pub proof fn law_placement_is_never_sent(
    set_at: u64,
    guest: (i32, i32),
    size: (u16, u16),
    now: u64,
    x: i32,
    y: i32,
)
    ensures
        anchored(set_at, guest.0, guest.1, size).asked_position(now, x, y) is None,
{
}

/// Nothing is sent while a window settles, whatever the window manager reports.
pub proof fn law_settling_windows_are_silent(
    state: WindowSync,
    now: u64,
    x: i32,
    y: i32,
)
    requires
        now < state.settling_until,
    ensures
        state.asked_position(now, x, y) is None,
        state.after_move(now, x, y).guest_anchor == state.guest_anchor,
{
}

/// What is sent is the guest's own last position moved by what the user dragged: shifting every
/// host coordinate by the same amount changes nothing that is sent.
pub proof fn law_host_coordinates_are_never_sent(
    state: WindowSync,
    now: u64,
    previous: (i32, i32),
    x: i32,
    y: i32,
    shift: (int, int),
)
    requires
        state.local_anchor == Some(previous),
        i32::MIN <= previous.0 + shift.0 <= i32::MAX,
        i32::MIN <= previous.1 + shift.1 <= i32::MAX,
        i32::MIN <= x + shift.0 <= i32::MAX,
        i32::MIN <= y + shift.1 <= i32::MAX,
    ensures
        ({
            let moved = WindowSync {
                local_anchor: Some(
                    ((previous.0 + shift.0) as i32, (previous.1 + shift.1) as i32),
                ),
                ..state
            };
            moved.asked_position(now, (x + shift.0) as i32, (y + shift.1) as i32)
                == state.asked_position(now, x, y)
        }),
{
}

/// A window that is reported twice at one place is not being dragged.
pub proof fn law_standing_still_sends_nothing(
    state: WindowSync,
    now: u64,
    later: u64,
    x: i32,
    y: i32,
)
    ensures
        state.after_move(now, x, y).asked_position(later, x, y) is None,
{
}

/// A drag and the drag back lead to the guest position it started from, if no coordinate leaves
/// the range of a position on the way.
pub proof fn law_dragging_back_returns(
    state: WindowSync,
    now: u64,
    later: u64,
    previous: (i32, i32),
    x: i32,
    y: i32,
)
    requires
        state.local_anchor == Some(previous),
        now >= state.settling_until,
        later >= state.settling_until,
        (x, y) != previous,
        i32::MIN <= x - previous.0 <= i32::MAX,
        i32::MIN <= y - previous.1 <= i32::MAX,
        i32::MIN <= previous.0 - x <= i32::MAX,
        i32::MIN <= previous.1 - y <= i32::MAX,
        i32::MIN <= state.guest_anchor.0 + (x - previous.0) <= i32::MAX,
        i32::MIN <= state.guest_anchor.1 + (y - previous.1) <= i32::MAX,
    ensures
        state.after_move(now, x, y).asked_position(later, previous.0, previous.1) == Some(
            state.guest_anchor,
        ),
{
}

/// Whether the same is known of a window.
pub open spec fn agree_on(a: Map<u32, WindowSync>, b: Map<u32, WindowSync>, id: u32) -> bool {
    &&& a.dom().contains(id) == b.dom().contains(id)
    &&& a.dom().contains(id) ==> a[id] == b[id]
}

/// Windows are followed apart: a call about one window leaves what is known of another as it is.
pub proof fn law_calls_disturb_no_other_window(
    known: Map<u32, WindowSync>,
    call: GeometryCall,
    other: u32,
)
    requires
        call.window() != other,
    ensures
        agree_on(known, known_after(known, call), other),
{
}

/// What a window's reports are answered with depends on that window alone: where the same is known
/// of it, any calls leave the same known of it and any report of it gets the same answer.
pub proof fn law_answers_depend_on_one_window(
    a: Map<u32, WindowSync>,
    b: Map<u32, WindowSync>,
    id: u32,
    calls: Seq<GeometryCall>,
    report: GeometryCall,
)
    requires
        agree_on(a, b, id),
        report.window() == id,
    ensures
        agree_on(known_after_all(a, calls), known_after_all(b, calls), id),
        position_asked(known_after_all(a, calls), report) == position_asked(
            known_after_all(b, calls),
            report,
        ),
        size_asked(known_after_all(a, calls), report) == size_asked(
            known_after_all(b, calls),
            report,
        ),
    decreases calls.len(),
{
    if calls.len() > 0 {
        law_answers_depend_on_one_window(a, b, id, calls.drop_last(), report);
    }
}

/// A forgotten window is silent, whatever is reported of it and whenever, until it is created
/// again: the guest moving it does not bring it back.
pub proof fn law_forgotten_windows_are_silent(
    known: Map<u32, WindowSync>,
    id: u32,
    calls: Seq<GeometryCall>,
    report: GeometryCall,
)
    requires
        forall|i: int|
            0 <= i < calls.len() ==> !((#[trigger] calls[i]) is Created && calls[i].window() == id),
        report.reports(id),
    ensures
        ({
            let after = known_after_all(
                known_after(known, GeometryCall::Forget { window_id: id }),
                calls,
            );
            &&& !after.dom().contains(id)
            &&& position_asked(after, report) is None
            &&& size_asked(after, report) is None
        }),
    decreases calls.len(),
{
    if calls.len() > 0 {
        let fewer = calls.drop_last();
        assert forall|i: int| 0 <= i < fewer.len() implies !((#[trigger] fewer[i]) is Created
            && fewer[i].window() == id) by {
            assert(fewer[i] == calls[i]);
        }
        law_forgotten_windows_are_silent(known, id, fewer, report);
        assert(!(calls[calls.len() - 1] is Created && calls[calls.len() - 1].window() == id));
    }
}

/// The positions reported of a window among some calls, each with its time, in order.
pub open spec fn positions(calls: Seq<GeometryCall>, id: u32) -> Seq<(u64, i32, i32)>
    decreases calls.len(),
{
    if calls.len() == 0 {
        Seq::empty()
    } else {
        let before = positions(calls.drop_last(), id);
        match calls.last() {
            GeometryCall::Moved { now, window_id, x, y } if window_id == id => before.push(
                (now, x, y),
            ),
            _ => before,
        }
    }
}

/// What is known of a window once positions were reported of it.
pub open spec fn followed(state: WindowSync, reports: Seq<(u64, i32, i32)>) -> WindowSync
    decreases reports.len(),
{
    if reports.len() == 0 {
        state
    } else {
        let (now, x, y) = reports.last();
        followed(state, reports.drop_last()).after_move(now, x, y)
    }
}

/// Reports leave the settling time alone.
proof fn lemma_followed(state: WindowSync, reports: Seq<(u64, i32, i32)>)
    ensures
        followed(state, reports).settling_until == state.settling_until,
        reports.len() == 0 ==> followed(state, reports) == state,
        reports.len() > 0 ==> followed(state, reports).local_anchor == Some(
            (reports.last().1, reports.last().2),
        ),
    decreases reports.len(),
{
    if reports.len() > 0 {
        lemma_followed(state, reports.drop_last());
    }
}

/// Among any calls that neither set nor drop a window, its position is followed through its own
/// reports.
proof fn lemma_position_is_followed(
    known: Map<u32, WindowSync>,
    id: u32,
    calls: Seq<GeometryCall>,
)
    requires
        known.dom().contains(id),
        forall|i: int| 0 <= i < calls.len() ==> !(#[trigger] calls[i]).resets(id),
    ensures
        ({
            let after = known_after_all(known, calls);
            let expected = followed(known[id], positions(calls, id));
            &&& after.dom().contains(id)
            &&& after[id].settling_until == expected.settling_until
            &&& after[id].guest_anchor == expected.guest_anchor
            &&& after[id].local_anchor == expected.local_anchor
        }),
    decreases calls.len(),
{
    if calls.len() > 0 {
        let fewer = calls.drop_last();
        assert forall|i: int| 0 <= i < fewer.len() implies !(#[trigger] fewer[i]).resets(id) by {
            assert(fewer[i] == calls[i]);
        }
        lemma_position_is_followed(known, id, fewer);
        assert(!calls[calls.len() - 1].resets(id));
        let reports = positions(fewer, id);
        match calls.last() {
            GeometryCall::Moved { now, window_id, x, y } if window_id == id => {
                assert(reports.push((now, x, y)).drop_last() =~= reports);
            },
            _ => {},
        }
    }
}

/// A window that was just created sends nothing until it has settled, whatever is reported of it
/// and of other windows; and its first position is never sent, however late it comes.
pub proof fn law_created_windows_stay_silent(
    known: Map<u32, WindowSync>,
    now: u64,
    id: u32,
    guest: (i32, i32),
    size: (u16, u16),
    calls: Seq<GeometryCall>,
    report: GeometryCall,
)
    requires
        forall|i: int| 0 <= i < calls.len() ==> !(#[trigger] calls[i]).resets(id),
        report.reports(id),
        report.is_before(settled_at(now)) || (report is Moved && positions(calls, id).len() == 0),
    ensures
        ({
            let created = GeometryCall::Created { now, window_id: id, guest, size };
            let after = known_after_all(known_after(known, created), calls);
            &&& position_asked(after, report) is None
            &&& size_asked(after, report) is None
        }),
{
    let created = GeometryCall::Created { now, window_id: id, guest, size };
    let start = known_after(known, created);
    lemma_position_is_followed(start, id, calls);
    lemma_followed(start[id], positions(calls, id));
}

/// Whether a step of a drag stays within the range of a position: the step from `last` to `at`,
/// and the guest position that it leads to.
pub open spec fn step_fits(
    guest: (i32, i32),
    origin: (u64, i32, i32),
    last: (u64, i32, i32),
    at: (u64, i32, i32),
) -> bool {
    &&& i32::MIN <= at.1 - last.1 <= i32::MAX
    &&& i32::MIN <= at.2 - last.2 <= i32::MAX
    &&& i32::MIN <= guest.0 + (at.1 - origin.1) <= i32::MAX
    &&& i32::MIN <= guest.1 + (at.2 - origin.2) <= i32::MAX
}

/// Whether every step of a drag that starts at report `k - 1` stays within the range of a position.
pub open spec fn drag_fits(guest: (i32, i32), reports: Seq<(u64, i32, i32)>, k: int) -> bool {
    forall|i: int|
        k <= i < reports.len() ==> #[trigger] step_fits(
            guest,
            reports[k - 1],
            reports[i - 1],
            reports[i],
        )
}

/// Where a drag from `origin` to `at` leads a window that was at `guest`.
pub open spec fn dragged(
    guest: (i32, i32),
    origin: (u64, i32, i32),
    at: (u64, i32, i32),
) -> (i32, i32) {
    ((guest.0 + (at.1 - origin.1)) as i32, (guest.1 + (at.2 - origin.2)) as i32)
}

/// One step of a drag.
proof fn lemma_drag_step(
    state: WindowSync,
    guest: (i32, i32),
    origin: (u64, i32, i32),
    last: (u64, i32, i32),
    at: (u64, i32, i32),
)
    requires
        state.local_anchor == Some((last.1, last.2)),
        state.guest_anchor == dragged(guest, origin, last),
        i32::MIN <= guest.0 + (last.1 - origin.1) <= i32::MAX,
        i32::MIN <= guest.1 + (last.2 - origin.2) <= i32::MAX,
        step_fits(guest, origin, last, at),
        at.0 >= state.settling_until,
    ensures
        state.after_move(at.0, at.1, at.2).guest_anchor == dragged(guest, origin, at),
        (at.1, at.2) != (last.1, last.2) ==> state.asked_position(at.0, at.1, at.2) == Some(
            dragged(guest, origin, at),
        ),
{
}

/// Whether report `k - 1` is where a drag starts: the last one of the window manager's placing,
/// or the first one of all, with every later report past the settling time.
pub open spec fn drag_starts(settled: u64, reports: Seq<(u64, i32, i32)>, k: int) -> bool {
    &&& 1 <= k <= reports.len()
    &&& k == 1 || forall|i: int| 0 <= i < k ==> (#[trigger] reports[i]).0 < settled
    &&& forall|i: int| k <= i < reports.len() ==> (#[trigger] reports[i]).0 >= settled
}

/// Where a drag has led to so far.
proof fn lemma_drag(
    state: WindowSync,
    guest: (i32, i32),
    reports: Seq<(u64, i32, i32)>,
    k: int,
)
    requires
        state.guest_anchor == guest,
        state.local_anchor is None,
        drag_starts(state.settling_until, reports, k),
        drag_fits(guest, reports, k),
    ensures
        followed(state, reports).guest_anchor == dragged(guest, reports[k - 1], reports.last()),
        i32::MIN <= guest.0 + (reports.last().1 - reports[k - 1].1) <= i32::MAX,
        i32::MIN <= guest.1 + (reports.last().2 - reports[k - 1].2) <= i32::MAX,
    decreases reports.len(),
{
    if reports.len() == k {
        lemma_settling(state, guest, reports, k);
    } else {
        let fewer = reports.drop_last();
        let n = reports.len() - 1;
        lemma_drag_before(state.settling_until, guest, reports, k);
        lemma_drag(state, guest, fewer, k);
        lemma_followed(state, fewer);
        assert(step_fits(guest, reports[k - 1], reports[n - 1], reports[n]));
        lemma_drag_step(
            followed(state, fewer),
            guest,
            reports[k - 1],
            reports[n - 1],
            reports[n],
        );
    }
}

/// Until a drag starts, the guest's position is what it was.
proof fn lemma_settling(
    state: WindowSync,
    guest: (i32, i32),
    reports: Seq<(u64, i32, i32)>,
    k: int,
)
    requires
        state.guest_anchor == guest,
        state.local_anchor is None,
        reports.len() == k >= 1,
        k == 1 || forall|i: int| 0 <= i < k ==> (#[trigger] reports[i]).0 < state.settling_until,
    ensures
        followed(state, reports).guest_anchor == guest,
    decreases k,
{
    let fewer = reports.drop_last();
    lemma_followed(state, fewer);
    if k > 1 {
        assert forall|i: int| 0 <= i < k - 1 implies (#[trigger] fewer[i]).0
            < state.settling_until by {
            assert(reports[i] == fewer[i]);
        }
        lemma_settling(state, guest, fewer, k - 1);
        assert(reports[k - 1].0 < state.settling_until);
    }
}

/// A drag without its last report is a drag.
proof fn lemma_drag_before(
    settled: u64,
    guest: (i32, i32),
    reports: Seq<(u64, i32, i32)>,
    k: int,
)
    requires
        drag_starts(settled, reports, k),
        drag_fits(guest, reports, k),
        k < reports.len(),
    ensures
        drag_starts(settled, reports.drop_last(), k),
        drag_fits(guest, reports.drop_last(), k),
{
    let fewer = reports.drop_last();
    assert forall|i: int| k <= i < fewer.len() implies #[trigger] step_fits(
        guest,
        fewer[k - 1],
        fewer[i - 1],
        fewer[i],
    ) by {
        assert(step_fits(guest, reports[k - 1], reports[i - 1], reports[i]));
    }
    assert forall|i: int| k <= i < fewer.len() implies (#[trigger] fewer[i]).0 >= settled by {
        assert(reports[i] == fewer[i]);
    }
    if k != 1 {
        assert forall|i: int| 0 <= i < k implies (#[trigger] fewer[i]).0 < settled by {
            assert(reports[i] == fewer[i]);
        }
    }
}

/// What is sent of a drag is the guest's own position plus the whole drag so far, from where the
/// window manager left the window to where it is now; never a host coordinate. Reports of other
/// windows in between make no difference, nor do sizes.
///
/// This holds as long as no coordinate leaves the range of a position on the way.
pub proof fn law_the_whole_drag_is_sent(
    known: Map<u32, WindowSync>,
    now: u64,
    id: u32,
    guest: (i32, i32),
    size: (u16, u16),
    calls: Seq<GeometryCall>,
    report: GeometryCall,
    k: int,
)
    requires
        forall|i: int| 0 <= i < calls.len() ==> !(#[trigger] calls[i]).resets(id),
        report is Moved && report.window() == id,
        ({
            let reports = positions(calls.push(report), id);
            let n = reports.len() - 1;
            &&& drag_starts(settled_at(now), reports, k)
            &&& drag_fits(guest, reports, k)
            &&& k <= n
            &&& (reports[n].1, reports[n].2) != (reports[n - 1].1, reports[n - 1].2)
        }),
    ensures
        ({
            let created = GeometryCall::Created { now, window_id: id, guest, size };
            let reports = positions(calls.push(report), id);
            let (origin, last) = (reports[k - 1], reports.last());
            &&& i32::MIN <= guest.0 + (last.1 - origin.1) <= i32::MAX
            &&& i32::MIN <= guest.1 + (last.2 - origin.2) <= i32::MAX
            &&& position_asked(known_after_all(known_after(known, created), calls), report) == Some(
                (
                    (guest.0 + (last.1 - origin.1)) as i32,
                    (guest.1 + (last.2 - origin.2)) as i32,
                ),
            )
        }),
{
    let created = GeometryCall::Created { now, window_id: id, guest, size };
    let start = known_after(known, created);
    let all = calls.push(report);
    assert(all.drop_last() =~= calls);
    let fewer = positions(calls, id);
    let reports = positions(all, id);
    let n = reports.len() - 1;
    assert(reports.drop_last() =~= fewer);
    lemma_position_is_followed(start, id, calls);
    lemma_followed(start[id], fewer);
    lemma_drag(start[id], guest, reports, k);
    lemma_drag_before(start[id].settling_until, guest, reports, k);
    lemma_drag(start[id], guest, fewer, k);
    assert(fewer.last() == reports[n - 1]);
    assert(step_fits(guest, reports[k - 1], reports[n - 1], reports[n]));
    lemma_drag_step(
        followed(start[id], fewer),
        guest,
        reports[k - 1],
        reports[n - 1],
        reports[n],
    );
}

/// A size that the user gave a window is asked of the guest, exactly as reported: for a window that
/// is known, that the guest lets be resized and that has settled, whenever neither axis is zero and
/// the width or the height differs from the last local size; and for nothing else. The size is then
/// the last local one, and nothing else that is known changes.
pub proof fn law_resizes_are_asked_for(
    now: u64,
    model: &WindowModel,
    window_id: u32,
    width: u16,
    height: u16,
    window: Option<&RemoteWindow>,
)
    requires
        call_ensures(WindowModel::get, (model, window_id), window),
    ensures
        forall|p: &mut GeometrySync, r: Option<(u16, u16)>| #[trigger]
            call_ensures(GeometrySync::resized, (p, now, model, window_id, width, height), r) ==> {
                let known = (*p)@.contains_key(window_id);
                let counts = known && (window matches Some(w) && w.resizable) && width != 0
                    && height != 0;
                let state = (*p)@[window_id];
                let differs = match state.local_size {
                    None => true,
                    Some(last) => last.0 != width || last.1 != height,
                };
                &&& r is Some <==> counts && now >= state.settling_until && differs
                &&& r matches Some(asked) ==> asked.0 == width && asked.1 == height
                &&& counts ==> {
                    let after = final(p)@[window_id];
                    &&& final(p)@.contains_key(window_id)
                    &&& after.local_size == Some((width, height))
                    &&& after.settling_until == state.settling_until
                    &&& after.guest_anchor == state.guest_anchor
                    &&& after.local_anchor == state.local_anchor
                }
                &&& !counts ==> final(p)@ == (*p)@
                &&& final(p)@.remove(window_id) == (*p)@.remove(window_id)
            },
{
    assert forall|p: &mut GeometrySync, r: Option<(u16, u16)>| #[trigger]
        call_ensures(
            GeometrySync::resized,
            (p, now, model, window_id, width, height),
            r,
        ) implies final(p)@.remove(window_id) == (*p)@.remove(window_id) by {
        assert(final(p)@.remove(window_id) =~= (*p)@.remove(window_id));
    }
}

/// A position that the user dragged a window to is asked of the guest as how far it was dragged: for
/// a window that is known and has settled, whenever it was seen before and is somewhere else now; and
/// for nothing else. What was asked for is then the guest's position, the place it was seen is the
/// last local one, and nothing else that is known changes.
///
/// The distance and the place it leads to are exact as long as they fit a position.
pub proof fn law_moves_are_asked_for(
    now: u64,
    window_id: u32,
    x: i32,
    y: i32,
)
    ensures
        forall|p: &mut GeometrySync, r: Option<(i32, i32)>| #[trigger]
            call_ensures(GeometrySync::moved, (p, now, window_id, x, y), r) ==> {
                let known = (*p)@.contains_key(window_id);
                let state = (*p)@[window_id];
                let after = final(p)@[window_id];
                &&& r is Some <==> known && now >= state.settling_until && (state.local_anchor
                    matches Some(last) && (last.0 != x || last.1 != y))
                &&& !known ==> final(p)@ == (*p)@
                &&& known ==> {
                    &&& final(p)@.contains_key(window_id)
                    &&& after.local_anchor == Some((x, y))
                    &&& after.local_size == state.local_size
                    &&& after.settling_until == state.settling_until
                    &&& after.guest_anchor == (match r {
                        Some(asked) => asked,
                        None => state.guest_anchor,
                    })
                }
                &&& r matches Some(asked) ==> {
                    let last = state.local_anchor->0;
                    let (dx, dy) = (x - last.0, y - last.1);
                    let (gx, gy) = (state.guest_anchor.0 + dx, state.guest_anchor.1 + dy);
                    &&& i32::MIN <= dx <= i32::MAX && i32::MIN <= gx <= i32::MAX ==> asked.0 == gx
                    &&& i32::MIN <= dy <= i32::MAX && i32::MIN <= gy <= i32::MAX ==> asked.1 == gy
                }
                &&& final(p)@.remove(window_id) == (*p)@.remove(window_id)
            },
{
    assert forall|p: &mut GeometrySync, r: Option<(i32, i32)>| #[trigger]
        call_ensures(
            GeometrySync::moved,
            (p, now, window_id, x, y),
            r,
        ) implies final(p)@.remove(window_id) == (*p)@.remove(window_id) by {
        assert(final(p)@.remove(window_id) =~= (*p)@.remove(window_id));
    }
}

/// A window that was just created settles for 750 milliseconds, stands where the guest has it, has
/// the size it was created with and has not been seen anywhere yet.
pub proof fn law_created_windows_settle(
    now: u64,
    window_id: u32,
    x: i32,
    y: i32,
    size: (u16, u16),
)
    ensures
        forall|p: &mut GeometrySync| #[trigger]
            call_ensures(GeometrySync::created, (p, now, window_id, x, y, size), ()) ==> {
                &&& {
                    let after = final(p)@[window_id];
                    &&& final(p)@.contains_key(window_id)
                    &&& now + 750_000 <= u64::MAX ==> after.settling_until == now + 750_000
                    &&& now + 750_000 > u64::MAX ==> after.settling_until == u64::MAX
                    &&& after.guest_anchor == (x, y)
                    &&& after.local_anchor is None
                    &&& after.local_size == Some(size)
                }
                &&& final(p)@.remove(window_id) == (*p)@.remove(window_id)
            },
{
    assert forall|p: &mut GeometrySync| #[trigger]
        call_ensures(
            GeometrySync::created,
            (p, now, window_id, x, y, size),
            (),
        ) implies final(p)@.remove(window_id) == (*p)@.remove(window_id) by {
        assert(final(p)@.remove(window_id) =~= (*p)@.remove(window_id));
    }
}

/// A window that the guest moves or resizes settles again for 750 milliseconds, at the guest's new
/// position and size, and has to be seen again; a window that is not known stays unknown.
pub proof fn law_moved_windows_settle_again(
    now: u64,
    window_id: u32,
    x: i32,
    y: i32,
    size: (u16, u16),
)
    ensures
        forall|p: &mut GeometrySync| #[trigger]
            call_ensures(GeometrySync::guest_moved, (p, now, window_id, x, y, size), ()) ==> {
                &&& !(*p)@.contains_key(window_id) ==> final(p)@ == (*p)@
                &&& (*p)@.contains_key(window_id) ==> {
                    let after = final(p)@[window_id];
                    &&& final(p)@.contains_key(window_id)
                    &&& now + 750_000 <= u64::MAX ==> after.settling_until == now + 750_000
                    &&& now + 750_000 > u64::MAX ==> after.settling_until == u64::MAX
                    &&& after.guest_anchor == (x, y)
                    &&& after.local_anchor is None
                    &&& after.local_size == Some(size)
                }
                &&& final(p)@.remove(window_id) == (*p)@.remove(window_id)
            },
{
    assert forall|p: &mut GeometrySync| #[trigger]
        call_ensures(
            GeometrySync::guest_moved,
            (p, now, window_id, x, y, size),
            (),
        ) implies final(p)@.remove(window_id) == (*p)@.remove(window_id) by {
        assert(final(p)@.remove(window_id) =~= (*p)@.remove(window_id));
    }
}

} // verus!
