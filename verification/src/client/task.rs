//! The session task: everything that can happen to a session, and what is done about it.
//!
//! Decode runs on one worker per window, and decoded frames go from there straight to the
//! display. The task keeps only the protocol: reading the wire, writing input, and acknowledging
//! frames. A worker that has no room for a frame hands it back, and while the task holds such a
//! frame it stops reading the wire. That is what pushes back on the agent, and it costs the input
//! path nothing: everything else keeps being taken in.

use vstd::prelude::*;

use crate::client::decode::pipeline::FrameReport;
use crate::client::driver;
use crate::client::driver::{
    handle_display_event, handle_event, handle_report, Action, ActionView,
};
use crate::client::event::{ClientEvent, ClientEventView};
use crate::client::geometry::{GeometrySync, WindowSync};
use crate::client::latency;
use crate::client::latency::{LatencyMonitor, LatencyView};
use crate::client::model::{ModelView, WindowModel};
use crate::display::{DisplayCommand, DisplayCommandView, DisplayEvent, DisplayEventView};
use crate::proto::message::{FrameData, FrameDataView, Message, MessageView};
use crate::text;

verus! {

/// Something that happened to a session.
#[derive(Debug)]
pub enum Happening {
    /// The agent sent an event.
    Agent(ClientEvent),
    /// The connection to the agent ended, or failed.
    AgentGone,
    /// A decode worker had no room for a frame, and handed it back.
    Full(FrameData),
    /// The worker that the held frame waits for has room again, or is gone (`false`).
    Room(bool),
    /// A decode worker is done with a frame.
    Finished(FrameReport),
    /// The display reports an event.
    Display(DisplayEvent),
    /// The display, or every decode worker, is gone.
    Abandoned,
    /// It is time to ping the agent.
    PingDue,
    /// It is time for a latency report.
    ReportDue,
}

/// What a [`Happening`] holds.
pub enum HappeningView {
    /// See [`Happening::Agent`].
    Agent(ClientEventView),
    /// See [`Happening::AgentGone`].
    AgentGone,
    /// See [`Happening::Full`].
    Full(FrameDataView),
    /// See [`Happening::Room`].
    Room(bool),
    /// See [`Happening::Finished`].
    Finished(FrameReport),
    /// See [`Happening::Display`].
    Display(DisplayEventView),
    /// See [`Happening::Abandoned`].
    Abandoned,
    /// See [`Happening::PingDue`].
    PingDue,
    /// See [`Happening::ReportDue`].
    ReportDue,
}

impl View for Happening {
    type V = HappeningView;

    open spec fn view(&self) -> HappeningView {
        match self {
            Happening::Agent(event) => HappeningView::Agent(event@),
            Happening::AgentGone => HappeningView::AgentGone,
            Happening::Full(frame) => HappeningView::Full(frame@),
            Happening::Room(alive) => HappeningView::Room(*alive),
            Happening::Finished(report) => HappeningView::Finished(*report),
            Happening::Display(event) => HappeningView::Display(event@),
            Happening::Abandoned => HappeningView::Abandoned,
            Happening::PingDue => HappeningView::PingDue,
            Happening::ReportDue => HappeningView::ReportDue,
        }
    }
}

/// What the session knows when something happens.
#[derive(Debug, Clone, Copy)]
pub struct Known {
    /// The features that were agreed on.
    pub features: u64,
    /// The last round trip. Not the best one: the figure stands beside the offset, and has to come
    /// from as recent an exchange.
    pub rtt_us: Option<u64>,
    /// How far ahead of the client's clock the agent's is, once that is known.
    pub offset_us: Option<i64>,
}

/// What a [`SessionTask`] holds.
#[verifier::ext_equal]
pub struct TaskView {
    /// The guest's windows.
    pub model: ModelView,
    /// What is known of their geometry.
    pub followed: Map<u32, WindowSync>,
    /// The latency accounting.
    pub latency: LatencyView,
    /// A frame that a worker had no room for.
    pub held: Option<FrameDataView>,
}

/// What a worker's report asks for: a frame that will never be presented is acknowledged here.
pub open spec fn report_actions(features: u64, report: FrameReport) -> Seq<ActionView> {
    match report {
        FrameReport::Decoded { .. } => Seq::empty(),
        FrameReport::Dropped(dropped) => send_if(
            driver::ack_for(
                features,
                dropped.window_id,
                dropped.frame_id,
                dropped.finished_us,
                dropped.finished_us,
            ),
        ),
    }
}

/// Sending a message, if there is one.
pub open spec fn send_if(message: Option<MessageView>) -> Seq<ActionView> {
    match message {
        None => Seq::empty(),
        Some(message) => seq![ActionView::Send(message)],
    }
}

/// What is printed of a display event: a backend's errors, and nothing else.
pub open spec fn complaint(event: DisplayEventView) -> Seq<ActionView> {
    match event {
        DisplayEventView::BackendError { message } => seq![
            ActionView::Print("oxclient: display backend error: "@ + message + "\n"@),
        ],
        _ => Seq::empty(),
    }
}

impl TaskView {
    /// Whether the wire may be read.
    pub open spec fn reads(self) -> bool {
        self.held is None
    }

    /// The latency report, if there is anything to report.
    pub open spec fn report(self, known: Known) -> Option<Seq<char>> {
        if self.latency.enabled && self.latency.has_samples() {
            Some(latency::report_text(self.latency, known.rtt_us, known.offset_us))
        } else {
            None
        }
    }

    /// What is done about something that happened.
    pub open spec fn asks(self, happening: HappeningView, known: Known, now_us: u64) -> Seq<
        ActionView,
    > {
        match happening {
            HappeningView::Agent(event) => driver::event_actions(self.model, event),
            HappeningView::AgentGone => seq![
                ActionView::Display(DisplayCommandView::Shutdown),
                ActionView::Stop,
            ],
            HappeningView::Full(_) => Seq::empty(),
            HappeningView::Room(alive) => match self.held {
                Some(frame) if alive => seq![ActionView::Decode(frame)],
                _ => Seq::empty(),
            },
            HappeningView::Finished(report) => report_actions(known.features, report),
            HappeningView::Display(event) => send_if(
                driver::told(known.features, self.model, self.followed, event, now_us),
            ) + complaint(event),
            HappeningView::Abandoned => seq![ActionView::Stop],
            HappeningView::PingDue => seq![ActionView::Ping],
            HappeningView::ReportDue => match self.report(known) {
                None => Seq::empty(),
                Some(report) => seq![ActionView::Print(report)],
            },
        }
    }

    /// The task after something happened.
    pub open spec fn after(self, happening: HappeningView, known: Known, now_us: u64) -> TaskView {
        match happening {
            HappeningView::Agent(event) => TaskView {
                model: self.model.after(event),
                followed: driver::geometry_for(
                    self.model.after(event),
                    self.followed,
                    self.model.changes(event),
                    now_us,
                ),
                latency: driver::latency_for(self.latency, self.model.changes(event), now_us),
                ..self
            },
            HappeningView::Full(frame) => TaskView { held: Some(frame), ..self },
            HappeningView::Room(_) => TaskView { held: None, ..self },
            HappeningView::Finished(FrameReport::Decoded { window_id, frame_id, decoded_us }) =>
            TaskView {
                latency: self.latency.after_decode(window_id, frame_id, decoded_us),
                ..self
            },
            HappeningView::Finished(FrameReport::Dropped(dropped)) => TaskView {
                latency: self.latency.after_drop(dropped.window_id, dropped.frame_id),
                ..self
            },
            HappeningView::Display(event) => TaskView {
                followed: driver::followed_after(
                    known.features,
                    self.model,
                    self.followed,
                    event,
                    now_us,
                ),
                latency: driver::latency_after(self.latency, event, known.offset_us),
                ..self
            },
            _ => self,
        }
    }
}

/// The state of a session task.
pub struct SessionTask {
    model: WindowModel,
    geometry: GeometrySync,
    latency: LatencyMonitor,
    held: Option<FrameData>,
}

impl View for SessionTask {
    type V = TaskView;

    closed spec fn view(&self) -> TaskView {
        TaskView {
            model: self.model@,
            followed: self.geometry@,
            latency: self.latency@,
            held: match self.held {
                None => None,
                Some(frame) => Some(frame@),
            },
        }
    }
}

impl SessionTask {
    /// A task that has seen nothing yet.
    pub fn new(latency: LatencyMonitor) -> (r: Self)
        ensures
            r@ == (TaskView {
                model: ModelView {
                    windows: Map::empty(),
                    stack: Seq::empty(),
                    cursor_visible: true,
                },
                followed: Map::empty(),
                latency: latency@,
                held: None,
            }),
    {
        SessionTask { model: WindowModel::new(), geometry: GeometrySync::new(), latency, held: None }
    }

    /// Whether the wire may be read: not while a frame is held that has nowhere to go.
    pub fn reads(&self) -> (r: bool)
        ensures
            r == self@.reads(),
    {
        self.held.is_none()
    }

    /// The latency report, if latency is being measured and a frame was presented.
    pub fn report(&self, known: Known) -> (r: Option<String>)
        ensures
            match r {
                None => self@.report(known) is None,
                Some(text) => self@.report(known) == Some(text@),
            },
    {
        if self.latency.is_enabled() && self.latency.has_samples() {
            Some(self.latency.report(known.rtt_us, known.offset_us))
        } else {
            None
        }
    }

    /// Takes in something that happened, and says what to do about it, in order.
    pub fn step(&mut self, happening: Happening, known: Known, now_us: u64) -> (r: Vec<Action>)
        ensures
            final(self)@ == old(self)@.after(happening@, known, now_us),
            driver::action_views(r@) == old(self)@.asks(happening@, known, now_us),
    {
        let ghost asked = self@.asks(happening@, known, now_us);
        let mut actions: Vec<Action> = Vec::new();
        match happening {
            Happening::Agent(event) => {
                return handle_event(
                    &mut self.model,
                    &mut self.geometry,
                    &mut self.latency,
                    event,
                    now_us,
                );
            },
            Happening::AgentGone => {
                actions.push(Action::Display(DisplayCommand::Shutdown));
                actions.push(Action::Stop);
            },
            Happening::Full(frame) => {
                self.held = Some(frame);
            },
            Happening::Room(alive) => {
                let held = self.held.take();
                if alive {
                    if let Some(frame) = held {
                        actions.push(Action::Decode(frame));
                    }
                }
            },
            Happening::Finished(report) => {
                if let Some(message) = handle_report(known.features, &mut self.latency, report) {
                    actions.push(Action::Send(message));
                }
            },
            Happening::Display(event) => {
                let complaint = match &event {
                    DisplayEvent::BackendError { message } => {
                        let mut line = "oxclient: display backend error: ".to_owned();
                        text::push_str(&mut line, message.as_str());
                        text::push_str(&mut line, "\n");
                        Some(line)
                    },
                    _ => None,
                };
                let message = handle_display_event(
                    known.features,
                    &self.model,
                    &mut self.geometry,
                    &mut self.latency,
                    event,
                    now_us,
                    known.offset_us,
                );
                if let Some(message) = message {
                    actions.push(Action::Send(message));
                }
                if let Some(line) = complaint {
                    actions.push(Action::Print(line));
                }
            },
            Happening::Abandoned => {
                actions.push(Action::Stop);
            },
            Happening::PingDue => {
                actions.push(Action::Ping);
            },
            Happening::ReportDue => {
                if let Some(report) = self.report(known) {
                    actions.push(Action::Print(report));
                }
            },
        }
        assert(driver::action_views(actions@) =~= asked);
        actions
    }
}

/// A frame being decoded does not delay input: what is done about a display event, and what is
/// kept of it, is the same whether a frame is held or not.
pub proof fn law_input_does_not_wait_for_decode(
    task: TaskView,
    held: Option<FrameDataView>,
    event: DisplayEventView,
    known: Known,
    now_us: u64,
)
    ensures
        ({
            let stalled = TaskView { held, ..task };
            let happening = HappeningView::Display(event);
            &&& stalled.asks(happening, known, now_us) == task.asks(happening, known, now_us)
            &&& stalled.after(happening, known, now_us) == (TaskView {
                held,
                ..task.after(happening, known, now_us)
            })
        }),
{
}

/// Something that happened, what the session knew then, and when it was.
pub struct Moment {
    /// What happened.
    pub happening: HappeningView,
    /// What the session knew.
    pub known: Known,
    /// When it was.
    pub now_us: u64,
}

/// The task after some moments, one after the other.
pub open spec fn lived(task: TaskView, moments: Seq<Moment>) -> TaskView
    decreases moments.len(),
{
    if moments.len() == 0 {
        task
    } else {
        let last = moments.last();
        lived(task, moments.drop_last()).after(last.happening, last.known, last.now_us)
    }
}

/// Whether a happening is neither news of the worker nor something read off the wire.
pub open spec fn leaves_the_frame(happening: HappeningView) -> bool {
    !(happening is Room) && !(happening is Full) && !(happening is Agent)
}

/// A frame that a worker had no room for is not lost, however much happens meanwhile: the wire is
/// not read while it is held, nothing but news of the worker ends that, and if the worker lives on
/// the frame goes to it as it was, before anything that is read later.
pub proof fn law_a_held_frame_is_kept(
    task: TaskView,
    frame: FrameDataView,
    full: Moment,
    between: Seq<Moment>,
    room: Moment,
)
    requires
        full.happening == HappeningView::Full(frame),
        forall|i: int|
            0 <= i < between.len() ==> leaves_the_frame((#[trigger] between[i]).happening),
        room.happening == HappeningView::Room(true),
    ensures
        ({
            let holding = task.after(full.happening, full.known, full.now_us);
            let later = lived(holding, between);
            &&& !holding.reads()
            &&& !later.reads()
            &&& later.held == Some(frame)
            &&& later.asks(room.happening, room.known, room.now_us) == seq![
                ActionView::Decode(frame),
            ]
            &&& later.after(room.happening, room.known, room.now_us).reads()
        }),
    decreases between.len(),
{
    if between.len() > 0 {
        let before = between.drop_last();
        assert forall|i: int| 0 <= i < before.len() implies leaves_the_frame(
            (#[trigger] before[i]).happening,
        ) by {
            assert(before[i] == between[i]);
        }
        law_a_held_frame_is_kept(task, frame, full, before, room);
        assert(leaves_the_frame(between[between.len() - 1].happening));
    }
}

/// The agent hears of every frame that will not be presented: where acknowledgements were agreed
/// on, a worker's report is answered with one that carries the frame's own ids.
pub proof fn law_dropped_frames_are_acknowledged(
    task: TaskView,
    report: FrameReport,
    known: Known,
    now_us: u64,
)
    requires
        known.features & crate::proto::message::feature::FRAME_ACK != 0,
        report is Dropped,
    ensures
        ({
            let asked = task.asks(HappeningView::Finished(report), known, now_us);
            &&& asked.len() == 1
            &&& asked[0] matches ActionView::Send(MessageView::FrameAck(ack))
            &&& ack.window_id == report->Dropped_0.window_id
            &&& ack.frame_id == report->Dropped_0.frame_id
        }),
{
}

/// When the agent is gone the display is shut down and the session ends; when the display is gone the
/// session ends; a ping that is due is sent. None of these changes what is known.
pub proof fn law_endings_and_pings_are_acted_on(known: Known, now_us: u64)
    ensures
        forall|t: &mut SessionTask, r: Vec<Action>| #[trigger]
            call_ensures(SessionTask::step, (t, Happening::AgentGone, known, now_us), r) ==> {
                &&& r@.len() == 2
                &&& r@[0] == Action::Display(DisplayCommand::Shutdown)
                &&& r@[1] == Action::Stop
                &&& final(t)@ == (*t)@
            },
        forall|t: &mut SessionTask, r: Vec<Action>| #[trigger]
            call_ensures(SessionTask::step, (t, Happening::Abandoned, known, now_us), r) ==> r@
                == seq![Action::Stop] && final(t)@ == (*t)@,
        forall|t: &mut SessionTask, r: Vec<Action>| #[trigger]
            call_ensures(SessionTask::step, (t, Happening::PingDue, known, now_us), r) ==> r@
                == seq![Action::Ping] && final(t)@ == (*t)@,
{
    assert forall|t: &mut SessionTask, r: Vec<Action>| #[trigger]
        call_ensures(SessionTask::step, (t, Happening::AgentGone, known, now_us), r) implies {
        &&& r@.len() == 2
        &&& r@[0] == Action::Display(DisplayCommand::Shutdown)
        &&& r@[1] == Action::Stop
        &&& final(t)@ == (*t)@
    } by {
        let views = driver::action_views(r@);
        assert(views.len() == r@.len());
        assert(views[0] == r@[0]@ && views[1] == r@[1]@);
    }
    assert forall|t: &mut SessionTask, r: Vec<Action>| #[trigger]
        call_ensures(SessionTask::step, (t, Happening::Abandoned, known, now_us), r) implies r@
        == seq![Action::Stop] && final(t)@ == (*t)@ by {
        let views = driver::action_views(r@);
        assert(views.len() == r@.len());
        assert(views[0] == r@[0]@);
        assert(r@ =~= seq![Action::Stop]);
    }
    assert forall|t: &mut SessionTask, r: Vec<Action>| #[trigger]
        call_ensures(SessionTask::step, (t, Happening::PingDue, known, now_us), r) implies r@
        == seq![Action::Ping] && final(t)@ == (*t)@ by {
        let views = driver::action_views(r@);
        assert(views.len() == r@.len());
        assert(views[0] == r@[0]@);
        assert(r@ =~= seq![Action::Ping]);
    }
}

/// A frame that comes back is held, and the wire is not read until there is news of its worker: if it
/// has room the frame goes to it, and if it is gone so is the frame.
pub proof fn law_full_workers_stop_the_reading(
    frame: FrameData,
    alive: bool,
    known: Known,
    now_us: u64,
    later: Known,
    later_us: u64,
)
    ensures
        forall|
            t: &mut SessionTask,
            u: &mut SessionTask,
            r: Vec<Action>,
            s: Vec<Action>,
            stalled: bool,
            reads: bool,
        |
            #![trigger call_ensures(SessionTask::step, (t, Happening::Full(frame), known, now_us), r), call_ensures(SessionTask::step, (u, Happening::Room(alive), later, later_us), s), call_ensures(SessionTask::reads, (&*final(t),), stalled), call_ensures(SessionTask::reads, (&*final(u),), reads)]
            call_ensures(SessionTask::step, (t, Happening::Full(frame), known, now_us), r)
                && (*u)@ == final(t)@ && call_ensures(
                SessionTask::step,
                (u, Happening::Room(alive), later, later_us),
                s,
            ) && call_ensures(SessionTask::reads, (&*final(t),), stalled) && call_ensures(
                SessionTask::reads,
                (&*final(u),),
                reads,
            ) ==> {
                &&& r@.len() == 0
                &&& !stalled
                &&& reads
                &&& alive ==> s@.len() == 1 && (s@[0] matches Action::Decode(f) && f@ == frame@)
                &&& !alive ==> s@.len() == 0
                &&& final(u)@.model == (*t)@.model
                &&& final(u)@.followed == (*t)@.followed
                &&& final(u)@.latency == (*t)@.latency
            },
{
    assert forall|
        t: &mut SessionTask,
        u: &mut SessionTask,
        r: Vec<Action>,
        s: Vec<Action>,
        stalled: bool,
        reads: bool,
    |
        #![trigger call_ensures(SessionTask::step, (t, Happening::Full(frame), known, now_us), r), call_ensures(SessionTask::step, (u, Happening::Room(alive), later, later_us), s), call_ensures(SessionTask::reads, (&*final(t),), stalled), call_ensures(SessionTask::reads, (&*final(u),), reads)]
        call_ensures(SessionTask::step, (t, Happening::Full(frame), known, now_us), r) && (*u)@
            == final(t)@ && call_ensures(
            SessionTask::step,
            (u, Happening::Room(alive), later, later_us),
            s,
        ) && call_ensures(SessionTask::reads, (&*final(t),), stalled) && call_ensures(
            SessionTask::reads,
            (&*final(u),),
            reads,
        ) implies {
        &&& r@.len() == 0
        &&& !stalled
        &&& reads
        &&& alive ==> s@.len() == 1 && (s@[0] matches Action::Decode(f) && f@ == frame@)
        &&& !alive ==> s@.len() == 0
        &&& final(u)@.model == (*t)@.model
        &&& final(u)@.followed == (*t)@.followed
        &&& final(u)@.latency == (*t)@.latency
    } by {
        assert(driver::action_views(r@).len() == r@.len());
        let views = driver::action_views(s@);
        assert(views.len() == s@.len());
        if alive {
            assert(views[0] == s@[0]@);
        }
    }
}

/// A display event is handled as [`handle_display_event`] handles it, and what that tells is sent; an
/// error of the backend is printed.
pub proof fn law_display_events_are_handled(event: DisplayEvent, known: Known, now_us: u64)
    ensures
        forall|
            t: &mut SessionTask,
            m: &WindowModel,
            g: &mut GeometrySync,
            l: &mut LatencyMonitor,
            r: Vec<Action>,
            told: Option<Message>,
        |
            #![trigger call_ensures(SessionTask::step, (t, Happening::Display(event), known, now_us), r), call_ensures(handle_display_event, (known.features, m, g, l, event, now_us, known.offset_us), told)]
            call_ensures(SessionTask::step, (t, Happening::Display(event), known, now_us), r)
                && call_ensures(
                handle_display_event,
                (known.features, m, g, l, event, now_us, known.offset_us),
                told,
            ) && m@ == (*t)@.model && (*g)@ == (*t)@.followed && (*l)@ == (*t)@.latency ==> {
                &&& final(t)@.model == (*t)@.model
                &&& final(t)@.followed == final(g)@
                &&& final(t)@.latency == final(l)@
                &&& final(t)@.held == (*t)@.held
                &&& match event {
                    DisplayEvent::BackendError { message } => r@.len() == 1 && (
                    r@[0] matches Action::Print(line) && line@
                        == "oxclient: display backend error: "@ + message@ + "\n"@),
                    _ => match told {
                        None => r@.len() == 0,
                        Some(message) => r@.len() == 1 && (r@[0] matches Action::Send(sent)
                            && sent@ == message@),
                    },
                }
            },
{
    assert forall|
        t: &mut SessionTask,
        m: &WindowModel,
        g: &mut GeometrySync,
        l: &mut LatencyMonitor,
        r: Vec<Action>,
        told: Option<Message>,
    |
        #![trigger call_ensures(SessionTask::step, (t, Happening::Display(event), known, now_us), r), call_ensures(handle_display_event, (known.features, m, g, l, event, now_us, known.offset_us), told)]
        call_ensures(SessionTask::step, (t, Happening::Display(event), known, now_us), r)
            && call_ensures(
            handle_display_event,
            (known.features, m, g, l, event, now_us, known.offset_us),
            told,
        ) && m@ == (*t)@.model && (*g)@ == (*t)@.followed && (*l)@ == (*t)@.latency implies {
        &&& final(t)@.model == (*t)@.model
        &&& final(t)@.followed == final(g)@
        &&& final(t)@.latency == final(l)@
        &&& final(t)@.held == (*t)@.held
        &&& match event {
            DisplayEvent::BackendError { message } => r@.len() == 1 && (
            r@[0] matches Action::Print(line) && line@ == "oxclient: display backend error: "@
                + message@ + "\n"@),
            _ => match told {
                None => r@.len() == 0,
                Some(message) => r@.len() == 1 && (r@[0] matches Action::Send(sent) && sent@
                    == message@),
            },
        }
    } by {
        let views = driver::action_views(r@);
        assert(views.len() == r@.len());
        if r@.len() > 0 {
            assert(views[0] == r@[0]@);
        }
    }
}

/// A worker's report is handled as [`handle_report`] handles it, and what that tells is sent.
pub proof fn law_reports_are_handled(report: FrameReport, known: Known, now_us: u64)
    ensures
        forall|
            t: &mut SessionTask,
            l: &mut LatencyMonitor,
            r: Vec<Action>,
            told: Option<Message>,
        |
            #![trigger call_ensures(SessionTask::step, (t, Happening::Finished(report), known, now_us), r), call_ensures(handle_report, (known.features, l, report), told)]
            call_ensures(SessionTask::step, (t, Happening::Finished(report), known, now_us), r)
                && call_ensures(handle_report, (known.features, l, report), told) && (*l)@
                == (*t)@.latency ==> {
                &&& final(t)@.model == (*t)@.model
                &&& final(t)@.followed == (*t)@.followed
                &&& final(t)@.latency == final(l)@
                &&& final(t)@.held == (*t)@.held
                &&& match told {
                    None => r@.len() == 0,
                    Some(message) => r@.len() == 1 && (r@[0] matches Action::Send(sent) && sent@
                        == message@),
                }
            },
{
    assert forall|
        t: &mut SessionTask,
        l: &mut LatencyMonitor,
        r: Vec<Action>,
        told: Option<Message>,
    |
        #![trigger call_ensures(SessionTask::step, (t, Happening::Finished(report), known, now_us), r), call_ensures(handle_report, (known.features, l, report), told)]
        call_ensures(SessionTask::step, (t, Happening::Finished(report), known, now_us), r)
            && call_ensures(handle_report, (known.features, l, report), told) && (*l)@
            == (*t)@.latency implies {
        &&& final(t)@.model == (*t)@.model
        &&& final(t)@.followed == (*t)@.followed
        &&& final(t)@.latency == final(l)@
        &&& final(t)@.held == (*t)@.held
        &&& match told {
            None => r@.len() == 0,
            Some(message) => r@.len() == 1 && (r@[0] matches Action::Send(sent) && sent@
                == message@),
        }
    } by {
        let views = driver::action_views(r@);
        assert(views.len() == r@.len());
        if r@.len() > 0 {
            assert(views[0] == r@[0]@);
        }
    }
}

/// What the agent sends is handled as [`handle_event`] handles it.
pub proof fn law_agent_events_are_handled(event: ClientEvent, known: Known, now_us: u64)
    ensures
        forall|
            t: &mut SessionTask,
            m: &mut WindowModel,
            g: &mut GeometrySync,
            l: &mut LatencyMonitor,
            r: Vec<Action>,
            s: Vec<Action>,
        |
            #![trigger call_ensures(SessionTask::step, (t, Happening::Agent(event), known, now_us), r), call_ensures(handle_event, (m, g, l, event, now_us), s)]
            call_ensures(SessionTask::step, (t, Happening::Agent(event), known, now_us), r)
                && call_ensures(handle_event, (m, g, l, event, now_us), s) && (*m)@ == (*t)@.model
                && (*g)@ == (*t)@.followed && (*l)@ == (*t)@.latency ==> {
                &&& final(t)@.model == final(m)@
                &&& final(t)@.followed == final(g)@
                &&& final(t)@.latency == final(l)@
                &&& final(t)@.held == (*t)@.held
                &&& driver::action_views(r@) == driver::action_views(s@)
            },
{
}

/// A report is printed when it is due, if latency is measured and a frame was presented; it is what
/// [`LatencyMonitor::report`] says of the last round trip and the offset.
pub proof fn law_due_reports_are_printed(known: Known, now_us: u64)
    ensures
        forall|
            t: &mut SessionTask,
            l: &LatencyMonitor,
            r: Vec<Action>,
            enabled: bool,
            some: bool,
            text: String,
        |
            #![trigger call_ensures(SessionTask::step, (t, Happening::ReportDue, known, now_us), r), call_ensures(LatencyMonitor::is_enabled, (l,), enabled), call_ensures(LatencyMonitor::has_samples, (l,), some), call_ensures(LatencyMonitor::report, (l, known.rtt_us, known.offset_us), text)]
            call_ensures(SessionTask::step, (t, Happening::ReportDue, known, now_us), r)
                && call_ensures(LatencyMonitor::is_enabled, (l,), enabled) && call_ensures(
                LatencyMonitor::has_samples,
                (l,),
                some,
            ) && call_ensures(LatencyMonitor::report, (l, known.rtt_us, known.offset_us), text)
                && l@ == (*t)@.latency ==> {
                &&& final(t)@ == (*t)@
                &&& enabled && some ==> r@.len() == 1 && (r@[0] matches Action::Print(line) && line@
                    == text@)
                &&& !(enabled && some) ==> r@.len() == 0
            },
{
    assert forall|
        t: &mut SessionTask,
        l: &LatencyMonitor,
        r: Vec<Action>,
        enabled: bool,
        some: bool,
        text: String,
    |
        #![trigger call_ensures(SessionTask::step, (t, Happening::ReportDue, known, now_us), r), call_ensures(LatencyMonitor::is_enabled, (l,), enabled), call_ensures(LatencyMonitor::has_samples, (l,), some), call_ensures(LatencyMonitor::report, (l, known.rtt_us, known.offset_us), text)]
        call_ensures(SessionTask::step, (t, Happening::ReportDue, known, now_us), r)
            && call_ensures(LatencyMonitor::is_enabled, (l,), enabled) && call_ensures(
            LatencyMonitor::has_samples,
            (l,),
            some,
        ) && call_ensures(LatencyMonitor::report, (l, known.rtt_us, known.offset_us), text) && l@
            == (*t)@.latency implies {
        &&& final(t)@ == (*t)@
        &&& enabled && some ==> r@.len() == 1 && (r@[0] matches Action::Print(line) && line@
            == text@)
        &&& !(enabled && some) ==> r@.len() == 0
    } by {
        let views = driver::action_views(r@);
        assert(views.len() == r@.len());
        if r@.len() > 0 {
            assert(views[0] == r@[0]@);
        }
    }
}

} // verus!
