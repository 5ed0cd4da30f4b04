//! The frame loop that ties capture, conversion and the room together.
//!
//! [`EngineLoop`] performs nothing itself. Each [`Command`] it gives is carried
//! out by the caller, who answers with the [`LoopEvent`] that came of it and
//! the time. The loop
//!   * brings the session up and announces it,
//!   * paces captured frames through the conversion into the encoder,
//!   * reports statistics about once a second,
//!   * follows a `Reconfigure` and ends on a `Stop`,
//!   * turns any failure into a single `Error` event.
use crate::engine::convert::ConverterDims;
use crate::logic::control::{ControlMsg, EngineEvent, EngineEventView, StatsSnapshot};
use crate::logic::pacing::{FramePacer, Instant, PacerView, NANOS_PER_SEC};
use crate::logic::quality::{encode_config, EncodeConfig, Quality};
use vstd::prelude::*;
use vstd::string::StringExecFns;

verus! {

/// What a session is brought up with. `quality` is the starting rung; later
/// ones arrive as control messages.
pub struct StartParams {
    pub ws_url: String,
    pub token: String,
    pub monitor_x: i32,
    pub monitor_y: i32,
    pub quality: Quality,
}

/// The [`StartParams`] with their texts as sequences of characters.
pub struct StartView {
    pub ws_url: Seq<char>,
    pub token: Seq<char>,
    pub monitor_x: i32,
    pub monitor_y: i32,
    pub quality: Quality,
}

impl View for StartParams {
    type V = StartView;

    open spec fn view(&self) -> StartView {
        StartView {
            ws_url: self.ws_url@,
            token: self.token@,
            monitor_x: self.monitor_x,
            monitor_y: self.monitor_y,
            quality: self.quality,
        }
    }
}

/// The longest wait between two looks at the control channel: ten
/// milliseconds.
pub const MAX_WAIT_NANOS: u64 = 10_000_000;

/// The latest clock reading that the loop is asked at: no duration of the
/// standard library is longer.
pub const CLOCK_LIMIT: u128 = 18_446_744_073_709_551_615_999_999_999;

/// What the caller is to do next.
pub enum Command<F> {
    /// Start capturing the monitor at this corner.
    OpenCapture { x: i32, y: i32 },
    /// Make the converter, and a buffer of its destination size.
    CreateConverter(ConverterDims),
    /// Connect to the room.
    Connect { ws_url: String, token: String },
    /// Publish the track.
    Publish(EncodeConfig),
    /// Hand an event to the host.
    Emit(EngineEvent<F>),
    /// Look for a control message.
    PollControl,
    /// Publish the track anew.
    Reconfigure(EncodeConfig),
    /// Resize the converter, and take a buffer of that size.
    ResizeConverter { width: u32, height: u32 },
    /// Look for a captured frame, and keep it if there is one.
    PollFrame,
    /// Convert the frame that was kept last and push it.
    PushFrame,
    /// Read the room's statistics.
    ReadStats,
    /// Wait.
    Sleep { nanos: u64 },
    /// Close the room.
    CloseRoom,
    /// Nothing more: the session is over.
    Exit,
}

/// A [`Command`] with its text as a sequence of characters.
pub enum CommandView<F> {
    OpenCapture { x: i32, y: i32 },
    CreateConverter(ConverterDims),
    Connect { ws_url: Seq<char>, token: Seq<char> },
    Publish(EncodeConfig),
    Emit(EngineEventView<F>),
    PollControl,
    Reconfigure(EncodeConfig),
    ResizeConverter { width: u32, height: u32 },
    PollFrame,
    PushFrame,
    ReadStats,
    Sleep { nanos: nat },
    CloseRoom,
    Exit,
}

impl<F> View for Command<F> {
    type V = CommandView<F>;

    open spec fn view(&self) -> CommandView<F> {
        match *self {
            Command::OpenCapture { x, y } => CommandView::OpenCapture { x, y },
            Command::CreateConverter(dims) => CommandView::CreateConverter(dims),
            Command::Connect { ws_url, token } => CommandView::Connect {
                ws_url: ws_url@,
                token: token@,
            },
            Command::Publish(cfg) => CommandView::Publish(cfg),
            Command::Emit(ev) => CommandView::Emit(ev@),
            Command::PollControl => CommandView::PollControl,
            Command::Reconfigure(cfg) => CommandView::Reconfigure(cfg),
            Command::ResizeConverter { width, height } => CommandView::ResizeConverter {
                width,
                height,
            },
            Command::PollFrame => CommandView::PollFrame,
            Command::PushFrame => CommandView::PushFrame,
            Command::ReadStats => CommandView::ReadStats,
            Command::Sleep { nanos } => CommandView::Sleep { nanos: nanos as nat },
            Command::CloseRoom => CommandView::CloseRoom,
            Command::Exit => CommandView::Exit,
        }
    }
}

/// What came of a command.
pub enum LoopEvent<F> {
    /// It is done.
    Done,
    /// It failed, for this reason.
    Failed(String),
    /// The monitor is being captured at this size.
    Opened { width: u32, height: u32 },
    /// There was a control message.
    Message(ControlMsg),
    /// There was no control message.
    NoMessage,
    /// The host is gone.
    Disconnected,
    /// Whether there was a captured frame.
    Frame(bool),
    /// The statistics, if there were any.
    Stats(Option<StatsSnapshot<F>>),
}

/// A [`LoopEvent`] with its text as a sequence of characters.
pub enum LoopEventView<F> {
    Done,
    Failed(Seq<char>),
    Opened { width: u32, height: u32 },
    Message(ControlMsg),
    NoMessage,
    Disconnected,
    Frame(bool),
    Stats(Option<StatsSnapshot<F>>),
}

impl<F> View for LoopEvent<F> {
    type V = LoopEventView<F>;

    open spec fn view(&self) -> LoopEventView<F> {
        match *self {
            LoopEvent::Done => LoopEventView::Done,
            LoopEvent::Failed(m) => LoopEventView::Failed(m@),
            LoopEvent::Opened { width, height } => LoopEventView::Opened { width, height },
            LoopEvent::Message(m) => LoopEventView::Message(m),
            LoopEvent::NoMessage => LoopEventView::NoMessage,
            LoopEvent::Disconnected => LoopEventView::Disconnected,
            LoopEvent::Frame(got) => LoopEventView::Frame(got),
            LoopEvent::Stats(s) => LoopEventView::Stats(s),
        }
    }
}

/// Which command the loop awaits the outcome of.
#[derive(Clone, Copy, PartialEq, Eq, Debug, Structural)]
pub enum Phase {
    /// The runtime that everything else needs is being built.
    Building,
    Opening,
    Converting,
    Connecting,
    Publishing,
    /// The host is being told that the session is up.
    Announcing,
    /// Control messages are being taken, until there is none.
    Draining,
    Reconfiguring,
    Resizing,
    Polling,
    Pushing,
    Reading,
    /// Statistics are being handed to the host.
    Reporting,
    Sleeping,
    Closing,
    /// The host is being told that the session ended.
    Ending,
    /// The host is being told that the session failed.
    Failing,
    Over,
}

/// What a loop knows.
pub struct LoopView {
    pub phase: Phase,
    pub ws_url: Seq<char>,
    pub token: Seq<char>,
    pub monitor_x: i32,
    pub monitor_y: i32,
    pub cfg: EncodeConfig,
    pub pacer: PacerView,
    /// A frame has been captured.
    pub have_frame: bool,
    /// When statistics were last reported.
    pub last_stats: nat,
}

/// The time from one reading to another, or nothing where it went back.
pub open spec fn since(later: nat, earlier: nat) -> nat {
    if later < earlier {
        0
    } else {
        (later - earlier) as nat
    }
}

/// What the runtime's failure is reported as.
pub open spec fn runtime_failure(msg: Seq<char>) -> Seq<char> {
    "tokio runtime build failed: "@ + msg
}

impl LoopView {
    /// A loop that is about to bring a session up.
    pub open spec fn fresh(p: StartView) -> LoopView {
        let cfg = crate::logic::quality::encode_config_of(p.quality);
        LoopView {
            phase: Phase::Building,
            ws_url: p.ws_url,
            token: p.token,
            monitor_x: p.monitor_x,
            monitor_y: p.monitor_y,
            cfg,
            pacer: PacerView {
                interval: crate::logic::pacing::interval_of(cfg.fps),
                next: None,
            },
            have_frame: false,
            last_stats: 0,
        }
    }

    /// The event can come of the command that the loop awaits.
    pub open spec fn awaits<F>(self, ev: LoopEventView<F>) -> bool {
        match self.phase {
            Phase::Building | Phase::Converting | Phase::Connecting | Phase::Publishing
            | Phase::Reconfiguring | Phase::Resizing | Phase::Pushing => ev is Done || ev is Failed,
            Phase::Opening => ev is Opened || ev is Failed,
            Phase::Draining => ev is Message || ev is NoMessage || ev is Disconnected,
            Phase::Polling => ev is Frame || ev is Failed,
            Phase::Reading => ev is Stats,
            Phase::Announcing | Phase::Reporting | Phase::Sleeping | Phase::Closing
            | Phase::Ending | Phase::Failing => ev is Done,
            Phase::Over => false,
        }
    }

    /// The loop in another phase.
    pub open spec fn at(self, phase: Phase) -> LoopView {
        LoopView { phase, ..self }
    }

    /// Waits for the next frame, but never longer than the control channel may
    /// go unread.
    pub open spec fn rest<F>(self, now: nat) -> (LoopView, CommandView<F>) {
        let wait = match self.pacer.next {
            None => 0,
            Some(deadline) => since(deadline, now),
        };
        (
            self.at(Phase::Sleeping),
            CommandView::Sleep {
                nanos: if wait < MAX_WAIT_NANOS {
                    wait
                } else {
                    MAX_WAIT_NANOS as nat
                },
            },
        )
    }

    /// Reads the statistics if a second has passed since the last report, and
    /// waits otherwise.
    pub open spec fn report_or_rest<F>(self, now: nat) -> (LoopView, CommandView<F>) {
        if since(now, self.last_stats) >= NANOS_PER_SEC {
            (self.at(Phase::Reading), CommandView::ReadStats)
        } else {
            self.rest(now)
        }
    }

    /// What an event does: the loop after it and the command that follows.
    pub open spec fn step<F>(self, now: nat, ev: LoopEventView<F>) -> (LoopView, CommandView<F>) {
        match ev {
            LoopEventView::Failed(msg) => (
                self.at(Phase::Failing),
                CommandView::Emit(
                    EngineEventView::Error(
                        if self.phase is Building {
                            runtime_failure(msg)
                        } else {
                            msg
                        },
                    ),
                ),
            ),
            LoopEventView::Opened { width, height } => (
                self.at(Phase::Converting),
                CommandView::CreateConverter(
                    ConverterDims {
                        src_w: width,
                        src_h: height,
                        dst_w: self.cfg.width,
                        dst_h: self.cfg.height,
                    },
                ),
            ),
            LoopEventView::Message(ControlMsg::Reconfigure(q)) => {
                let cfg = crate::logic::quality::encode_config_of(q);
                (
                    LoopView { phase: Phase::Reconfiguring, cfg, ..self },
                    CommandView::Reconfigure(cfg),
                )
            },
            LoopEventView::Message(ControlMsg::Stop) | LoopEventView::Disconnected => (
                self.at(Phase::Closing),
                CommandView::CloseRoom,
            ),
            LoopEventView::NoMessage => (self.at(Phase::Polling), CommandView::PollFrame),
            LoopEventView::Frame(got) => {
                let due = self.pacer.due(now);
                let paced = LoopView {
                    have_frame: self.have_frame || got,
                    pacer: self.pacer.after_tick(now),
                    ..self
                };
                if due && paced.have_frame {
                    (paced.at(Phase::Pushing), CommandView::PushFrame)
                } else {
                    paced.report_or_rest(now)
                }
            },
            LoopEventView::Stats(Some(s)) => (
                self.at(Phase::Reporting),
                CommandView::Emit(EngineEventView::Stats(s)),
            ),
            LoopEventView::Stats(None) => (LoopView { last_stats: now, ..self }).rest(now),
            LoopEventView::Done => match self.phase {
                Phase::Building => (
                    self.at(Phase::Opening),
                    CommandView::OpenCapture { x: self.monitor_x, y: self.monitor_y },
                ),
                Phase::Converting => (
                    self.at(Phase::Connecting),
                    CommandView::Connect { ws_url: self.ws_url, token: self.token },
                ),
                Phase::Connecting => (self.at(Phase::Publishing), CommandView::Publish(self.cfg)),
                Phase::Publishing => (
                    self.at(Phase::Announcing),
                    CommandView::Emit(EngineEventView::Started),
                ),
                Phase::Announcing => (
                    LoopView { phase: Phase::Draining, last_stats: now, ..self },
                    CommandView::PollControl,
                ),
                Phase::Reconfiguring => (
                    self.at(Phase::Resizing),
                    CommandView::ResizeConverter { width: self.cfg.width, height: self.cfg.height },
                ),
                Phase::Resizing => (
                    LoopView {
                        phase: Phase::Draining,
                        pacer: self.pacer.with_fps(self.cfg.fps),
                        ..self
                    },
                    CommandView::PollControl,
                ),
                Phase::Pushing => self.report_or_rest(now),
                Phase::Reporting => (LoopView { last_stats: now, ..self }).rest(now),
                Phase::Sleeping => (self.at(Phase::Draining), CommandView::PollControl),
                Phase::Closing => (
                    self.at(Phase::Ending),
                    CommandView::Emit(EngineEventView::Ended),
                ),
                _ => (self.at(Phase::Over), CommandView::Exit),
            },
        }
    }

    /// The pacer is sound, its last frame lies within the clock's range, and it
    /// runs at the rate of the rung unless that is just being changed.
    pub open spec fn wf(self) -> bool {
        &&& self.pacer.wf()
        &&& self.pacer.next matches Some(deadline) ==> deadline <= CLOCK_LIMIT
            + self.pacer.interval
        &&& self.pacer.interval == crate::logic::pacing::interval_of(self.cfg.fps)
            || self.phase is Reconfiguring || self.phase is Resizing || self.phase is Failing
            || self.phase is Over
    }
}

/// The frame loop of one session.
pub struct EngineLoop {
    phase: Phase,
    ws_url: String,
    token: String,
    monitor_x: i32,
    monitor_y: i32,
    cfg: EncodeConfig,
    pacer: FramePacer,
    have_frame: bool,
    last_stats: Instant,
}

impl View for EngineLoop {
    type V = LoopView;

    closed spec fn view(&self) -> LoopView {
        LoopView {
            phase: self.phase,
            ws_url: self.ws_url@,
            token: self.token@,
            monitor_x: self.monitor_x,
            monitor_y: self.monitor_y,
            cfg: self.cfg,
            pacer: self.pacer@,
            have_frame: self.have_frame,
            last_stats: self.last_stats.nanos as nat,
        }
    }
}

impl EngineLoop {
    /// A loop that awaits whether the runtime could be built.
    pub fn new(p: &StartParams) -> (l: EngineLoop)
        ensures
            l@ == LoopView::fresh(p@),
            l@.wf(),
    {
        let cfg = encode_config(p.quality);
        EngineLoop {
            phase: Phase::Building,
            ws_url: p.ws_url.clone(),
            token: p.token.clone(),
            monitor_x: p.monitor_x,
            monitor_y: p.monitor_y,
            cfg,
            pacer: FramePacer::new(cfg.fps),
            have_frame: false,
            last_stats: Instant { nanos: 0 },
        }
    }

    /// Whether an event can come of the command that the loop awaits.
    pub fn awaits<F>(&self, ev: &LoopEvent<F>) -> (r: bool)
        ensures
            r == self@.awaits(ev@),
    {
        match self.phase {
            Phase::Building | Phase::Converting | Phase::Connecting | Phase::Publishing
            | Phase::Reconfiguring | Phase::Resizing | Phase::Pushing => matches!(
                ev,
                LoopEvent::Done | LoopEvent::Failed(_)
            ),
            Phase::Opening => matches!(ev, LoopEvent::Opened { .. } | LoopEvent::Failed(_)),
            Phase::Draining => matches!(
                ev,
                LoopEvent::Message(_) | LoopEvent::NoMessage | LoopEvent::Disconnected
            ),
            Phase::Polling => matches!(ev, LoopEvent::Frame(_) | LoopEvent::Failed(_)),
            Phase::Reading => matches!(ev, LoopEvent::Stats(_)),
            Phase::Announcing | Phase::Reporting | Phase::Sleeping | Phase::Closing
            | Phase::Ending | Phase::Failing => matches!(ev, LoopEvent::Done),
            Phase::Over => false,
        }
    }

    fn rest<F>(&mut self, now: Instant) -> (c: Command<F>)
        ensures
            (final(self)@, c@) == old(self)@.rest::<F>(now.nanos as nat),
    {
        self.phase = Phase::Sleeping;
        let deadline: u128 = self.pacer.next_deadline(now).nanos;
        let wait: u128 = if deadline < now.nanos {
            0
        } else {
            deadline - now.nanos
        };
        Command::Sleep {
            nanos: if wait < MAX_WAIT_NANOS as u128 {
                wait as u64
            } else {
                MAX_WAIT_NANOS
            },
        }
    }

    fn report_or_rest<F>(&mut self, now: Instant) -> (c: Command<F>)
        ensures
            (final(self)@, c@) == old(self)@.report_or_rest::<F>(now.nanos as nat),
    {
        let passed: u128 = if now.nanos < self.last_stats.nanos {
            0
        } else {
            now.nanos - self.last_stats.nanos
        };
        if passed >= NANOS_PER_SEC as u128 {
            self.phase = Phase::Reading;
            Command::ReadStats
        } else {
            self.rest(now)
        }
    }

    /// Takes the outcome of the last command, at the time `now`, and gives the
    /// next one.
    pub fn step<F>(&mut self, now: Instant, ev: LoopEvent<F>) -> (c: Command<F>)
        requires
            old(self)@.wf(),
            old(self)@.awaits(ev@),
            now.nanos <= CLOCK_LIMIT,
        ensures
            final(self)@ == old(self)@.step(now.nanos as nat, ev@).0,
            c@ == old(self)@.step(now.nanos as nat, ev@).1,
            final(self)@.wf(),
    {
        match ev {
            LoopEvent::Failed(msg) => {
                let text: String = if self.phase == Phase::Building {
                    "tokio runtime build failed: ".to_string().concat(msg.as_str())
                } else {
                    msg
                };
                self.phase = Phase::Failing;
                Command::Emit(EngineEvent::Error(text))
            },
            LoopEvent::Opened { width, height } => {
                self.phase = Phase::Converting;
                Command::CreateConverter(
                    ConverterDims {
                        src_w: width,
                        src_h: height,
                        dst_w: self.cfg.width,
                        dst_h: self.cfg.height,
                    },
                )
            },
            LoopEvent::Message(ControlMsg::Reconfigure(q)) => {
                self.cfg = encode_config(q);
                self.phase = Phase::Reconfiguring;
                Command::Reconfigure(self.cfg)
            },
            LoopEvent::Message(ControlMsg::Stop) | LoopEvent::Disconnected => {
                self.phase = Phase::Closing;
                Command::CloseRoom
            },
            LoopEvent::NoMessage => {
                self.phase = Phase::Polling;
                Command::PollFrame
            },
            LoopEvent::Frame(got) => {
                if got {
                    self.have_frame = true;
                }
                let due = self.pacer.tick(now);
                if due && self.have_frame {
                    self.phase = Phase::Pushing;
                    Command::PushFrame
                } else {
                    self.report_or_rest(now)
                }
            },
            LoopEvent::Stats(Some(s)) => {
                self.phase = Phase::Reporting;
                Command::Emit(EngineEvent::Stats(s))
            },
            LoopEvent::Stats(None) => {
                self.last_stats = now;
                self.rest(now)
            },
            LoopEvent::Done => self.done(now),
        }
    }

    /// The last command is done.
    fn done<F>(&mut self, now: Instant) -> (c: Command<F>)
        requires
            old(self)@.wf(),
            old(self)@.awaits(LoopEventView::<F>::Done),
            now.nanos <= CLOCK_LIMIT,
        ensures
            final(self)@ == old(self)@.step(now.nanos as nat, LoopEventView::<F>::Done).0,
            c@ == old(self)@.step(now.nanos as nat, LoopEventView::<F>::Done).1,
            final(self)@.wf(),
    {
        match self.phase {
            Phase::Building => {
                self.phase = Phase::Opening;
                Command::OpenCapture { x: self.monitor_x, y: self.monitor_y }
            },
            Phase::Converting => {
                self.phase = Phase::Connecting;
                Command::Connect { ws_url: self.ws_url.clone(), token: self.token.clone() }
            },
            Phase::Connecting => {
                self.phase = Phase::Publishing;
                Command::Publish(self.cfg)
            },
            Phase::Publishing => {
                self.phase = Phase::Announcing;
                Command::Emit(EngineEvent::Started)
            },
            Phase::Announcing => {
                self.phase = Phase::Draining;
                self.last_stats = now;
                Command::PollControl
            },
            Phase::Reconfiguring => {
                self.phase = Phase::Resizing;
                Command::ResizeConverter { width: self.cfg.width, height: self.cfg.height }
            },
            Phase::Resizing => {
                proof {
                    crate::logic::pacing::law_interval_is_nearest(self.cfg.fps);
                }
                self.phase = Phase::Draining;
                self.pacer.set_fps(self.cfg.fps);
                Command::PollControl
            },
            Phase::Pushing => self.report_or_rest(now),
            Phase::Reporting => {
                self.last_stats = now;
                self.rest(now)
            },
            Phase::Sleeping => {
                self.phase = Phase::Draining;
                Command::PollControl
            },
            Phase::Closing => {
                self.phase = Phase::Ending;
                Command::Emit(EngineEvent::Ended)
            },
            _ => {
                self.phase = Phase::Over;
                Command::Exit
            },
        }
    }
}

impl LoopView {
    /// The loop after each of the outcomes of `script` in turn, each with its
    /// time.
    pub open spec fn after<F>(self, script: Seq<(nat, LoopEventView<F>)>) -> LoopView
        decreases script.len(),
    {
        if script.len() == 0 {
            self
        } else {
            self.after(script.drop_last()).step(script.last().0, script.last().1).0
        }
    }

    /// The commands that it gives, in order.
    pub open spec fn commands<F>(self, script: Seq<(nat, LoopEventView<F>)>) -> Seq<CommandView<F>>
        decreases script.len(),
    {
        if script.len() == 0 {
            seq![]
        } else {
            self.commands(script.drop_last()).push(
                self.after(script.drop_last()).step(script.last().0, script.last().1).1,
            )
        }
    }

    /// Every outcome in `script` is one that the loop awaits.
    pub open spec fn can_run<F>(self, script: Seq<(nat, LoopEventView<F>)>) -> bool
        decreases script.len(),
    {
        script.len() > 0 ==> {
            &&& self.can_run(script.drop_last())
            &&& self.after(script.drop_last()).awaits(script.last().1)
        }
    }

    /// The session is not up yet.
    pub open spec fn is_starting(self) -> bool {
        ||| self.phase is Building
        ||| self.phase is Opening
        ||| self.phase is Converting
        ||| self.phase is Connecting
        ||| self.phase is Publishing
    }

    /// The host is being told, or has been told, how the session came to its
    /// end.
    pub open spec fn is_finished(self) -> bool {
        self.phase is Ending || self.phase is Failing || self.phase is Over
    }
}

/// The events that the commands hand to the host, in order.
pub open spec fn told<F>(commands: Seq<CommandView<F>>) -> Seq<EngineEventView<F>>
    decreases commands.len(),
{
    if commands.len() == 0 {
        seq![]
    } else {
        match commands.last() {
            CommandView::Emit(ev) => told(commands.drop_last()).push(ev),
            _ => told(commands.drop_last()),
        }
    }
}

/// What the host is told of a session that is up: that it started, and then
/// nothing but statistics.
pub open spec fn is_running_story<F>(events: Seq<EngineEventView<F>>) -> bool {
    &&& events.len() > 0
    &&& events[0] is Started
    &&& forall|i: int| 0 < i < events.len() ==> #[trigger] events[i] is Stats
}

/// What the host is told of a session that is over: at the end that it ended,
/// which only one that was up can, or that it failed; and before that what it
/// is told of one that is not.
pub open spec fn is_finished_story<F>(events: Seq<EngineEventView<F>>) -> bool {
    &&& events.len() > 0
    &&& {
        ||| events.last() is Ended && is_running_story(events.drop_last())
        ||| events.last() is Error && (events.len() == 1 || is_running_story(events.drop_last()))
    }
}

/// What the host is told fits where the session stands.
pub open spec fn is_story_of<F>(s: LoopView, events: Seq<EngineEventView<F>>) -> bool {
    if s.is_starting() {
        events.len() == 0
    } else if s.is_finished() {
        is_finished_story(events)
    } else {
        is_running_story(events)
    }
}

proof fn lemma_story_goes_on<F>(
    s: LoopView,
    now: nat,
    ev: LoopEventView<F>,
    events: Seq<EngineEventView<F>>,
)
    requires
        s.awaits(ev),
        is_story_of(s, events),
    ensures
        is_story_of(
            s.step(now, ev).0,
            match s.step(now, ev).1 {
                CommandView::Emit(told) => events.push(told),
                _ => events,
            },
        ),
{
    if let CommandView::Emit(told) = s.step(now, ev).1 {
        assert(events.push(told).drop_last() =~= events);
    }
}

/// The host is told one orderly story, whatever comes of the commands: nothing
/// while the session comes up, once that it started, then only statistics, and
/// at the very end, once, that it ended or that it failed.
pub proof fn law_host_is_told_in_order<F>(
    p: StartView,
    script: Seq<(nat, LoopEventView<F>)>,
)
    requires
        LoopView::fresh(p).can_run(script),
    ensures
        is_story_of(
            LoopView::fresh(p).after(script),
            told(LoopView::fresh(p).commands(script)),
        ),
    decreases script.len(),
{
    if script.len() > 0 {
        let fresh = LoopView::fresh(p);
        let before = script.drop_last();
        law_host_is_told_in_order(p, before);
        let s = fresh.after(before);
        let (now, ev) = script.last();
        let cmds = fresh.commands(before);
        lemma_story_goes_on(s, now, ev, told(cmds));
        let cmd = s.step(now, ev).1;
        assert(cmds.push(cmd).drop_last() =~= cmds);
    }
}

/// What the session was started with is what it is brought up with: the monitor
/// is captured at the corner, the room is connected to at the address and with
/// the token, and the track is published at the setting of the rung that were
/// given, whatever comes of the commands.
pub proof fn law_session_is_brought_up_as_told<F>(
    p: StartView,
    script: Seq<(nat, LoopEventView<F>)>,
    i: int,
)
    requires
        LoopView::fresh(p).can_run(script),
        0 <= i < LoopView::fresh(p).commands(script).len(),
    ensures
        match LoopView::fresh(p).commands(script)[i] {
            CommandView::OpenCapture { x, y } => x == p.monitor_x && y == p.monitor_y,
            CommandView::CreateConverter(dims) => {
                let cfg = crate::logic::quality::encode_config_of(p.quality);
                dims.dst_w == cfg.width && dims.dst_h == cfg.height
            },
            CommandView::Connect { ws_url, token } => ws_url == p.ws_url && token == p.token,
            CommandView::Publish(cfg) => cfg == crate::logic::quality::encode_config_of(p.quality),
            _ => true,
        },
    decreases script.len(),
{
    if script.len() > 0 {
        let before = script.drop_last();
        lemma_start_is_kept(p, before);
        let cmds = LoopView::fresh(p).commands(before);
        if i < cmds.len() {
            law_session_is_brought_up_as_told(p, before, i);
        }
    }
}

proof fn lemma_start_is_kept<F>(p: StartView, script: Seq<(nat, LoopEventView<F>)>)
    requires
        LoopView::fresh(p).can_run(script),
    ensures
        ({
            let s = LoopView::fresh(p).after(script);
            &&& s.ws_url == p.ws_url
            &&& s.token == p.token
            &&& s.monitor_x == p.monitor_x
            &&& s.monitor_y == p.monitor_y
            &&& s.is_starting() ==> s.cfg == crate::logic::quality::encode_config_of(p.quality)
        }),
    decreases script.len(),
{
    if script.len() > 0 {
        lemma_start_is_kept(p, script.drop_last());
    }
}

/// A failed step of any kind is told to the host as one `Error`, with its
/// reason, and nothing follows but the exit.
pub proof fn law_failure_is_told_once<F>(s: LoopView, now: nat, msg: Seq<char>, later: nat)
    requires
        s.awaits(LoopEventView::<F>::Failed(msg)),
    ensures
        ({
            let (failing, told) = s.step(now, LoopEventView::<F>::Failed(msg));
            &&& told == CommandView::<F>::Emit(
                EngineEventView::Error(
                    if s.phase is Building {
                        "tokio runtime build failed: "@ + msg
                    } else {
                        msg
                    },
                ),
            )
            &&& failing.step(later, LoopEventView::<F>::Done).1 == CommandView::<F>::Exit
            &&& forall|ev: LoopEventView<F>|
                #[trigger] failing.step(later, LoopEventView::<F>::Done).0.awaits(ev) ==> false
        }),
{
}

/// A `Stop`, and likewise a host that is gone, closes the room, tells the host
/// that the session ended, and exits, with nothing in between.
pub proof fn law_stop_closes_and_ends<F>(
    s: LoopView,
    ev: LoopEventView<F>,
    t0: nat,
    t1: nat,
    t2: nat,
)
    requires
        s.awaits(ev),
        ev is Disconnected || ev == LoopEventView::<F>::Message(ControlMsg::Stop),
    ensures
        ({
            let (s1, c1) = s.step(t0, ev);
            let (s2, c2) = s1.step(t1, LoopEventView::<F>::Done);
            let (s3, c3) = s2.step(t2, LoopEventView::<F>::Done);
            &&& c1 == CommandView::<F>::CloseRoom
            &&& c2 == CommandView::<F>::Emit(EngineEventView::Ended)
            &&& c3 == CommandView::<F>::Exit
            &&& s3.phase is Over
        }),
{
}

/// A session is only ever ended by a `Stop` or by the host's absence, and only
/// ever fails where one of its steps failed.
pub proof fn law_end_has_a_cause<F>(s: LoopView, now: nat, ev: LoopEventView<F>)
    requires
        s.awaits(ev),
    ensures
        s.step(now, ev).0.phase is Closing <==> ev is Disconnected || ev == LoopEventView::<
            F,
        >::Message(ControlMsg::Stop),
        s.step(now, ev).0.phase is Failing <==> ev is Failed,
{
}

/// A wait is never longer than ten milliseconds, and never runs past the next
/// frame's deadline.
pub proof fn law_wait_is_short<F>(s: LoopView, now: nat, ev: LoopEventView<F>)
    requires
        s.awaits(ev),
    ensures
        s.step(now, ev).1 matches CommandView::Sleep { nanos } ==> {
            &&& nanos <= MAX_WAIT_NANOS
            &&& s.step(now, ev).0.pacer.next matches Some(deadline) ==> now + nanos <= deadline
                || nanos == 0
        },
{
}

/// Statistics are read no sooner than a second after they were last reported,
/// and the second is counted anew from the report.
pub proof fn law_stats_at_most_once_a_second<F>(s: LoopView, now: nat, ev: LoopEventView<F>)
    requires
        s.awaits(ev),
    ensures
        s.step(now, ev).1 is ReadStats ==> s.last_stats + NANOS_PER_SEC <= now,
        s.phase is Reporting || ev == LoopEventView::<F>::Stats(None) ==> s.step(
            now,
            ev,
        ).0.last_stats == now,
{
}

/// A frame is pushed exactly when one is due and one has been captured.
pub proof fn law_push_is_paced<F>(s: LoopView, now: nat, got: bool)
    requires
        s.phase is Polling,
    ensures
        s.step(now, LoopEventView::<F>::Frame(got)).1 is PushFrame <==> s.pacer.due(now) && (
        s.have_frame || got),
{
}

/// The setting that the room was last asked to publish.
pub open spec fn published<F>(commands: Seq<CommandView<F>>) -> Option<EncodeConfig>
    decreases commands.len(),
{
    if commands.len() == 0 {
        None
    } else {
        match commands.last() {
            CommandView::Publish(cfg) => Some(cfg),
            CommandView::Reconfigure(cfg) => Some(cfg),
            _ => published(commands.drop_last()),
        }
    }
}

/// The size that the converter was last asked for.
pub open spec fn converted_to<F>(commands: Seq<CommandView<F>>) -> Option<(u32, u32)>
    decreases commands.len(),
{
    if commands.len() == 0 {
        None
    } else {
        match commands.last() {
            CommandView::CreateConverter(dims) => Some((dims.dst_w, dims.dst_h)),
            CommandView::ResizeConverter { width, height } => Some((width, height)),
            _ => converted_to(commands.drop_last()),
        }
    }
}

/// Whenever a frame is pushed, the track, the converter and the pacer are all
/// at one and the same rung.
pub proof fn law_rung_is_in_step<F>(
    p: StartView,
    script: Seq<(nat, LoopEventView<F>)>,
)
    requires
        LoopView::fresh(p).can_run(script),
        LoopView::fresh(p).after(script).phase is Pushing,
    ensures
        ({
            let fresh = LoopView::fresh(p);
            let cfg = fresh.after(script).cfg;
            &&& published(fresh.commands(script)) == Some(cfg)
            &&& converted_to(fresh.commands(script)) == Some((cfg.width, cfg.height))
            &&& fresh.after(script).pacer.interval == crate::logic::pacing::interval_of(cfg.fps)
        }),
{
    lemma_rung_is_in_step(p, script);
}

/// What the track and the converter were last asked for fits the phase and the
/// setting of the loop.
spec fn in_step(s: LoopView, track: Option<EncodeConfig>, size: Option<(u32, u32)>) -> bool {
    let sized = size == Some((s.cfg.width, s.cfg.height));
    let in_rate = s.pacer.interval == crate::logic::pacing::interval_of(s.cfg.fps);
    match s.phase {
        Phase::Building | Phase::Opening => in_rate,
        Phase::Converting | Phase::Connecting => in_rate && sized,
        Phase::Reconfiguring => track == Some(s.cfg),
        Phase::Resizing => track == Some(s.cfg) && sized,
        Phase::Failing | Phase::Over => true,
        _ => in_rate && track == Some(s.cfg) && sized,
    }
}

proof fn lemma_step_is_in_step<F>(
    s: LoopView,
    now: nat,
    ev: LoopEventView<F>,
    track: Option<EncodeConfig>,
    size: Option<(u32, u32)>,
)
    requires
        s.awaits(ev),
        in_step(s, track, size),
    ensures
        ({
            let (end, cmd) = s.step(now, ev);
            in_step(
                end,
                match cmd {
                    CommandView::Publish(cfg) => Some(cfg),
                    CommandView::Reconfigure(cfg) => Some(cfg),
                    _ => track,
                },
                match cmd {
                    CommandView::CreateConverter(dims) => Some((dims.dst_w, dims.dst_h)),
                    CommandView::ResizeConverter { width, height } => Some((width, height)),
                    _ => size,
                },
            )
        }),
{
}

#[verifier::spinoff_prover]
proof fn lemma_rung_is_in_step<F>(
    p: StartView,
    script: Seq<(nat, LoopEventView<F>)>,
)
    requires
        LoopView::fresh(p).can_run(script),
    ensures
        in_step(
            LoopView::fresh(p).after(script),
            published(LoopView::fresh(p).commands(script)),
            converted_to(LoopView::fresh(p).commands(script)),
        ),
    decreases script.len(),
{
    if script.len() > 0 {
        let fresh = LoopView::fresh(p);
        let before = script.drop_last();
        lemma_rung_is_in_step(p, before);
        let s = fresh.after(before);
        let (now, ev) = script.last();
        let cmds = fresh.commands(before);
        lemma_step_is_in_step(s, now, ev, published(cmds), converted_to(cmds));
        let cmd = s.step(now, ev).1;
        assert(cmds.push(cmd).drop_last() =~= cmds);
    }
}

/// Switching rungs: whatever the loop was at, the room is asked for exactly the
/// setting of the rung that the message names, the converter for its size, and
/// the pacer for its rate, counted from the last frame; then the next message is
/// looked for.
pub proof fn law_reconfigure_goes_to_the_rung<F>(
    s: LoopView,
    q: Quality,
    t0: nat,
    t1: nat,
    t2: nat,
)
    requires
        s.awaits(LoopEventView::<F>::Message(ControlMsg::Reconfigure(q))),
    ensures
        ({
            let (s1, c1) = s.step(
                t0,
                LoopEventView::<F>::Message(ControlMsg::Reconfigure(q)),
            );
            let (s2, c2) = s1.step(t1, LoopEventView::<F>::Done);
            let (s3, c3) = s2.step(t2, LoopEventView::<F>::Done);
            let (width, height, fps, kbps) = match q {
                Quality::Low => (1280u32, 720u32, 30u32, 2500u32),
                Quality::Medium => (1600u32, 900u32, 60u32, 5000u32),
                Quality::High => (1920u32, 1080u32, 60u32, 8000u32),
            };
            &&& c1 == CommandView::<F>::Reconfigure(
                EncodeConfig { width, height, fps, max_bitrate_kbps: kbps },
            )
            &&& c2 == CommandView::<F>::ResizeConverter { width, height }
            &&& c3 is PollControl
            &&& s3.phase is Draining
            &&& s3.pacer.interval == crate::logic::pacing::interval_of(fps)
            &&& s3.pacer == s.pacer.with_fps(fps)
        }),
{
}

/// The rung that was asked for last: by the last `Reconfigure` received, or at the
/// start where there was none.
pub open spec fn last_asked<F>(first: Quality, script: Seq<(nat, LoopEventView<F>)>) -> Quality
    decreases script.len(),
{
    if script.len() == 0 {
        first
    } else {
        match script.last().1 {
            LoopEventView::Message(ControlMsg::Reconfigure(q)) => q,
            _ => last_asked(first, script.drop_last()),
        }
    }
}

/// Whatever comes of the commands, the setting that the room was last asked to
/// publish is that of the rung that was asked for last.
pub proof fn law_last_asked_rung_is_published<F>(
    p: StartView,
    script: Seq<(nat, LoopEventView<F>)>,
)
    requires
        LoopView::fresh(p).can_run(script),
    ensures
        published(LoopView::fresh(p).commands(script)) is None || published(
            LoopView::fresh(p).commands(script),
        ) == Some(crate::logic::quality::encode_config_of(last_asked(p.quality, script))),
{
    lemma_last_asked(p, script);
}

proof fn lemma_last_asked<F>(p: StartView, script: Seq<(nat, LoopEventView<F>)>)
    requires
        LoopView::fresh(p).can_run(script),
    ensures
        ({
            let cfg = crate::logic::quality::encode_config_of(last_asked(p.quality, script));
            &&& LoopView::fresh(p).after(script).cfg == cfg
            &&& published(LoopView::fresh(p).commands(script)) is None || published(
                LoopView::fresh(p).commands(script),
            ) == Some(cfg)
        }),
    decreases script.len(),
{
    if script.len() > 0 {
        let fresh = LoopView::fresh(p);
        let before = script.drop_last();
        lemma_last_asked(p, before);
        let s = fresh.after(before);
        let (now, ev) = script.last();
        let cmd = s.step(now, ev).1;
        let cmds = fresh.commands(before);
        assert(cmds.push(cmd).drop_last() =~= cmds);
        lemma_setting_changes_on_message(s, now, ev);
    }
}

proof fn lemma_setting_changes_on_message<F>(s: LoopView, now: nat, ev: LoopEventView<F>)
    requires
        s.awaits(ev),
    ensures
        ({
            let (end, cmd) = s.step(now, ev);
            &&& end.cfg == match ev {
                LoopEventView::Message(ControlMsg::Reconfigure(
                    q,
                )) => crate::logic::quality::encode_config_of(q),
                _ => s.cfg,
            }
            &&& cmd matches CommandView::Publish(cfg) ==> cfg == end.cfg
            &&& cmd matches CommandView::Reconfigure(cfg) ==> cfg == end.cfg
            &&& ev is Message ==> !(cmd is Publish)
        }),
{
}

/// Statistics are read whenever a round ends a second or more after they were last
/// reported, and the loop never goes to wait with a report overdue.
pub proof fn law_stats_are_read_when_due<F>(s: LoopView, now: nat, ev: LoopEventView<F>)
    requires
        s.awaits(ev),
    ensures
        ({
            let (end, cmd) = s.step(now, ev);
            let round_ends = (s.phase is Pushing && ev is Done) || (ev is Frame && !(cmd
                is PushFrame));
            &&& round_ends && s.last_stats + 1_000_000_000 <= now ==> cmd is ReadStats
            &&& round_ends && now < s.last_stats + 1_000_000_000 ==> cmd is Sleep
            &&& cmd is Sleep ==> now < end.last_stats + 1_000_000_000
        }),
{
}

/// Every sample that was read is told to the host as it is, and the wait follows.
pub proof fn law_stats_are_told<F>(
    s: LoopView,
    sample: StatsSnapshot<F>,
    now: nat,
    later: nat,
)
    requires
        s.phase is Reading,
    ensures
        ({
            let (told, c1) = s.step(now, LoopEventView::Stats(Some(sample)));
            let (rested, c2) = told.step(later, LoopEventView::<F>::Done);
            let (none, c3) = s.step(now, LoopEventView::<F>::Stats(None));
            &&& c1 == CommandView::Emit(EngineEventView::Stats(sample))
            &&& c2 is Sleep
            &&& rested.last_stats == later
            &&& c3 is Sleep
            &&& none.last_stats == now
        }),
{
}

/// A wait lasts until the next frame's deadline, or ten milliseconds where that is
/// sooner; it is empty where the deadline has passed or there is none.
pub proof fn law_wait_lasts_to_the_deadline<F>(s: LoopView, now: nat, ev: LoopEventView<F>)
    requires
        s.awaits(ev),
    ensures
        s.step(now, ev).1 matches CommandView::Sleep { nanos } ==> match s.step(
            now,
            ev,
        ).0.pacer.next {
            None => nanos == 0,
            Some(deadline) => if deadline <= now {
                nanos == 0
            } else if deadline <= now + 10_000_000 {
                now + nanos == deadline
            } else {
                nanos == 10_000_000
            },
        },
{
}

/// A session that nothing fails comes up in this order: the capture, a converter
/// from the captured size to the rung's, the connection, the track, and then the
/// word to the host, from which the first second of statistics is counted.
pub proof fn law_session_comes_up_in_order<F>(
    p: StartView,
    width: u32,
    height: u32,
    now: nat,
    ready: nat,
)
    ensures
        ({
            let done = LoopEventView::<F>::Done;
            let (s1, c1) = LoopView::fresh(p).step(now, done);
            let (s2, c2) = s1.step(now, LoopEventView::<F>::Opened { width, height });
            let (s3, c3) = s2.step(now, done);
            let (s4, c4) = s3.step(now, done);
            let (s5, c5) = s4.step(now, done);
            let (s6, c6) = s5.step(ready, done);
            &&& c1 == CommandView::<F>::OpenCapture { x: p.monitor_x, y: p.monitor_y }
            &&& c2 matches CommandView::CreateConverter(dims) && dims.src_w == width && dims.src_h
                == height
            &&& c3 == CommandView::<F>::Connect { ws_url: p.ws_url, token: p.token }
            &&& c4 is Publish
            &&& c5 == CommandView::<F>::Emit(EngineEventView::Started)
            &&& c6 is PollControl
            &&& s6.phase is Draining
            &&& s6.last_stats == ready
            &&& !s6.have_frame
            &&& s6.pacer.next is None
            &&& s6.pacer.interval == crate::logic::pacing::interval_of(s6.cfg.fps)
            &&& s1.awaits(LoopEventView::<F>::Opened { width, height })
            &&& s2.awaits(done) && s3.awaits(done) && s4.awaits(done) && s5.awaits(done)
        }),
{
}

/// A round looks for messages until there is none, then for a frame, and begins
/// anew after the wait.
pub proof fn law_rounds_follow_each_other<F>(s: LoopView, now: nat)
    ensures
        s.phase is Draining ==> {
            &&& s.step(now, LoopEventView::<F>::NoMessage).1 is PollFrame
            &&& s.step(now, LoopEventView::<F>::NoMessage).0.phase is Polling
        },
        s.phase is Sleeping ==> {
            &&& s.step(now, LoopEventView::<F>::Done).1 is PollControl
            &&& s.step(now, LoopEventView::<F>::Done).0.phase is Draining
        },
        s.phase is Closing ==> {
            &&& s.step(now, LoopEventView::<F>::Done).1 == CommandView::<F>::Emit(
                EngineEventView::Ended,
            )
            &&& s.step(now, LoopEventView::<F>::Done).0.phase is Ending
        },
        s.phase is Ending || s.phase is Failing ==> {
            &&& s.step(now, LoopEventView::<F>::Done).1 is Exit
            &&& s.step(now, LoopEventView::<F>::Done).0.phase is Over
        },
{
}

/// What an outcome does not concern, it leaves alone: the address, the token and
/// the corner stay for good; the setting changes on a `Reconfigure` only; a frame
/// is there once one was captured; the pacer is asked once per look for a frame
/// and follows a new rate once the converter does; and the last report is as of
/// the announcement or of the report itself.
pub proof fn law_outcomes_leave_the_rest<F>(s: LoopView, now: nat, ev: LoopEventView<F>)
    requires
        s.awaits(ev),
    ensures
        ({
            let end = s.step(now, ev).0;
            &&& end.ws_url == s.ws_url
            &&& end.token == s.token
            &&& end.monitor_x == s.monitor_x
            &&& end.monitor_y == s.monitor_y
            &&& !(ev is Message) ==> end.cfg == s.cfg
            &&& end.have_frame == (s.have_frame || ev == LoopEventView::<F>::Frame(true))
            &&& end.pacer == if ev is Frame {
                s.pacer.after_tick(now)
            } else if s.phase is Resizing && ev is Done {
                s.pacer.with_fps(s.cfg.fps)
            } else {
                s.pacer
            }
            &&& end.last_stats == if s.phase is Announcing || s.phase is Reporting || ev
                == LoopEventView::<F>::Stats(None) {
                now
            } else {
                s.last_stats
            }
        }),
{
}

/// A loop begins with the parameters it was given, at the setting of the starting
/// rung, without a frame and without a deadline, and awaits the runtime.
pub proof fn law_loop_begins_as_told(p: StartView)
    ensures
        ({
            let s = LoopView::fresh(p);
            &&& s.phase is Building
            &&& s.ws_url == p.ws_url
            &&& s.token == p.token
            &&& s.monitor_x == p.monitor_x
            &&& s.monitor_y == p.monitor_y
            &&& s.cfg == crate::logic::quality::encode_config_of(p.quality)
            &&& s.pacer.next is None
            &&& s.pacer.interval == crate::logic::pacing::interval_of(s.cfg.fps)
            &&& !s.have_frame
        }),
{
}

/// Which outcomes the loop takes: every step that can fail may fail; the opening
/// gives a size, the look for messages a message, none or the host's absence, the
/// look for a frame whether there was one, and the reading of statistics a sample
/// or none; and once it is over it takes none.
pub proof fn law_loop_takes_what_can_come<F>(
    s: LoopView,
    msg: Seq<char>,
    m: ControlMsg,
    got: bool,
    sample: Option<StatsSnapshot<F>>,
    width: u32,
    height: u32,
)
    ensures
        s.awaits(LoopEventView::<F>::Failed(msg)) <==> s.phase is Building || s.phase is Opening
            || s.phase is Converting || s.phase is Connecting || s.phase is Publishing || s.phase
            is Reconfiguring || s.phase is Resizing || s.phase is Polling || s.phase is Pushing,
        s.awaits(LoopEventView::<F>::Opened { width, height }) <==> s.phase is Opening,
        s.awaits(LoopEventView::<F>::Message(m)) <==> s.phase is Draining,
        s.awaits(LoopEventView::<F>::NoMessage) <==> s.phase is Draining,
        s.awaits(LoopEventView::<F>::Disconnected) <==> s.phase is Draining,
        s.awaits(LoopEventView::<F>::Frame(got)) <==> s.phase is Polling,
        s.awaits(LoopEventView::<F>::Stats(sample)) <==> s.phase is Reading,
        s.awaits(LoopEventView::<F>::Done) <==> !(s.phase is Opening || s.phase is Draining
            || s.phase is Polling || s.phase is Reading || s.phase is Over),
{
}

/// A command and an outcome are seen for what they are, with all that they carry.
pub proof fn law_loop_values_are_seen_as_they_are<F>(
    p: StartParams,
    c: Command<F>,
    ev: LoopEvent<F>,
)
    ensures
        p@.ws_url == p.ws_url@,
        p@.token == p.token@,
        p@.monitor_x == p.monitor_x,
        p@.monitor_y == p.monitor_y,
        p@.quality == p.quality,
        match c {
            Command::OpenCapture { x, y } => c@ == CommandView::<F>::OpenCapture { x, y },
            Command::CreateConverter(d) => c@ == CommandView::<F>::CreateConverter(d),
            Command::Connect { ws_url, token } => c@ == CommandView::<F>::Connect {
                ws_url: ws_url@,
                token: token@,
            },
            Command::Publish(cfg) => c@ == CommandView::<F>::Publish(cfg),
            Command::Emit(e) => c@ == CommandView::Emit(e@),
            Command::PollControl => c@ is PollControl,
            Command::Reconfigure(cfg) => c@ == CommandView::<F>::Reconfigure(cfg),
            Command::ResizeConverter { width, height } => c@
                == CommandView::<F>::ResizeConverter { width, height },
            Command::PollFrame => c@ is PollFrame,
            Command::PushFrame => c@ is PushFrame,
            Command::ReadStats => c@ is ReadStats,
            Command::Sleep { nanos } => c@ == CommandView::<F>::Sleep { nanos: nanos as nat },
            Command::CloseRoom => c@ is CloseRoom,
            Command::Exit => c@ is Exit,
        },
        match ev {
            LoopEvent::Done => ev@ is Done,
            LoopEvent::Failed(m) => ev@ == LoopEventView::<F>::Failed(m@),
            LoopEvent::Opened { width, height } => ev@ == LoopEventView::<F>::Opened {
                width,
                height,
            },
            LoopEvent::Message(m) => ev@ == LoopEventView::<F>::Message(m),
            LoopEvent::NoMessage => ev@ is NoMessage,
            LoopEvent::Disconnected => ev@ is Disconnected,
            LoopEvent::Frame(got) => ev@ == LoopEventView::<F>::Frame(got),
            LoopEvent::Stats(sample) => ev@ == LoopEventView::Stats(sample),
        },
{
}

/// The loop can be asked at any time that a duration of whole seconds in 64 bits
/// and a fraction can hold.
pub proof fn law_clock_reaches_every_duration()
    ensures
        CLOCK_LIMIT == u64::MAX * 1_000_000_000 + 999_999_999,
{
}

} // verus!
