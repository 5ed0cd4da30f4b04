//! The timed run: connect, publish, push the moving bars until the time is up,
//! close the room and sum up.
//!
//! [`SpikeRun`] performs nothing itself. Each [`SpikeCommand`] it gives is
//! carried out by the caller, who answers with the [`SpikeEvent`] that came of it
//! and the time. Statistics are handed in whenever they come.
use crate::engine::room::{probe_plan, scan, ProbePlan, RtcRow, Seen, SeenView};
use crate::engine::run::CLOCK_LIMIT;
use crate::logic::pacing::{Instant, NANOS_PER_SEC};
use crate::probe::bars::{next_shift, HEIGHT, WIDTH};
use crate::probe::report::spike_summary;
use crate::probe::settings::FRAME_MILLIS;
use vstd::prelude::*;

verus! {

/// What the caller is to do next.
pub enum SpikeCommand {
    /// Connect to the room.
    Connect { ws_url: String, token: String },
    /// Publish a track.
    Publish(ProbePlan),
    /// Draw the bars, moved by `shift`, and push them.
    PushBars { shift: u32 },
    /// Wait.
    Sleep { millis: u64 },
    /// Take no more statistics.
    StopStats,
    /// Close the room.
    CloseRoom,
    /// Nothing more: the run came to this.
    Finish(Result<String, String>),
}

/// A [`SpikeCommand`] with its texts as sequences of characters.
pub enum SpikeCommandView {
    Connect { ws_url: Seq<char>, token: Seq<char> },
    Publish(ProbePlan),
    PushBars { shift: u32 },
    Sleep { millis: u64 },
    StopStats,
    CloseRoom,
    Finish(Result<Seq<char>, Seq<char>>),
}

impl View for SpikeCommand {
    type V = SpikeCommandView;

    open spec fn view(&self) -> SpikeCommandView {
        match *self {
            SpikeCommand::Connect { ws_url, token } => SpikeCommandView::Connect {
                ws_url: ws_url@,
                token: token@,
            },
            SpikeCommand::Publish(plan) => SpikeCommandView::Publish(plan),
            SpikeCommand::PushBars { shift } => SpikeCommandView::PushBars { shift },
            SpikeCommand::Sleep { millis } => SpikeCommandView::Sleep { millis },
            SpikeCommand::StopStats => SpikeCommandView::StopStats,
            SpikeCommand::CloseRoom => SpikeCommandView::CloseRoom,
            SpikeCommand::Finish(Ok(s)) => SpikeCommandView::Finish(Ok(s@)),
            SpikeCommand::Finish(Err(s)) => SpikeCommandView::Finish(Err(s@)),
        }
    }
}

/// What came of a command.
pub enum SpikeEvent {
    /// The room is connected to, under this identity.
    Connected { identity: String, room: String },
    /// It is done.
    Done,
    /// It failed, for this reason.
    Failed(String),
}

/// A [`SpikeEvent`] with its texts as sequences of characters.
pub enum SpikeEventView {
    Connected { identity: Seq<char>, room: Seq<char> },
    Done,
    Failed(Seq<char>),
}

impl View for SpikeEvent {
    type V = SpikeEventView;

    open spec fn view(&self) -> SpikeEventView {
        match *self {
            SpikeEvent::Connected { identity, room } => SpikeEventView::Connected {
                identity: identity@,
                room: room@,
            },
            SpikeEvent::Done => SpikeEventView::Done,
            SpikeEvent::Failed(m) => SpikeEventView::Failed(m@),
        }
    }
}

/// Which command a run awaits the outcome of.
#[derive(Clone, Copy, PartialEq, Eq, Debug, Structural)]
pub enum SpikePhase {
    /// The caller is getting ready.
    Starting,
    Connecting,
    Publishing,
    Pushing,
    Sleeping,
    Stopping,
    Closing,
    Over,
}

/// What a run knows.
pub struct SpikeView {
    pub phase: SpikePhase,
    pub ws_url: Seq<char>,
    pub token: Seq<char>,
    pub seconds: nat,
    /// When the last picture may be pushed.
    pub deadline: nat,
    /// How far the next picture is moved.
    pub shift: u32,
    pub identity: Seq<char>,
    pub room: Seq<char>,
    /// What was last seen of the encoder.
    pub seen: Option<SeenView>,
}

impl SpikeView {
    /// A run that has not begun.
    pub open spec fn fresh(ws_url: Seq<char>, token: Seq<char>, seconds: nat) -> SpikeView {
        SpikeView {
            phase: SpikePhase::Starting,
            ws_url,
            token,
            seconds,
            deadline: 0,
            shift: 0,
            identity: seq![],
            room: seq![],
            seen: None,
        }
    }

    /// The run has not begun.
    pub open spec fn is_fresh(self) -> bool {
        self == SpikeView::fresh(self.ws_url, self.token, self.seconds)
    }

    /// The run in another phase.
    pub open spec fn at(self, phase: SpikePhase) -> SpikeView {
        SpikeView { phase, ..self }
    }

    /// The event can come of the command that the run awaits.
    pub open spec fn awaits(self, ev: SpikeEventView) -> bool {
        match self.phase {
            SpikePhase::Connecting => ev is Connected || ev is Failed,
            SpikePhase::Publishing => ev is Done || ev is Failed,
            SpikePhase::Over => false,
            _ => ev is Done,
        }
    }

    /// Pushes another picture if there is time for it, and comes to an end
    /// otherwise.
    pub open spec fn turn(self, now: nat) -> (SpikeView, SpikeCommandView) {
        if now < self.deadline {
            (
                self.at(SpikePhase::Pushing),
                SpikeCommandView::PushBars { shift: self.shift },
            )
        } else {
            (self.at(SpikePhase::Stopping), SpikeCommandView::StopStats)
        }
    }

    /// What an event does: the run after it and the command that follows.
    pub open spec fn step(self, now: nat, ev: SpikeEventView) -> (SpikeView, SpikeCommandView) {
        match ev {
            SpikeEventView::Connected { identity, room } => (
                SpikeView { phase: SpikePhase::Publishing, identity, room, ..self },
                SpikeCommandView::Publish(crate::engine::room::probe_plan_of(WIDTH, HEIGHT)),
            ),
            SpikeEventView::Failed(msg) => (
                self.at(SpikePhase::Over),
                SpikeCommandView::Finish(Err(msg)),
            ),
            SpikeEventView::Done => match self.phase {
                SpikePhase::Starting => (
                    self.at(SpikePhase::Connecting),
                    SpikeCommandView::Connect { ws_url: self.ws_url, token: self.token },
                ),
                SpikePhase::Publishing => (SpikeView {
                    deadline: now + self.seconds * (NANOS_PER_SEC as nat),
                    ..self
                }).turn(now),
                SpikePhase::Pushing => (
                    SpikeView {
                        phase: SpikePhase::Sleeping,
                        shift: ((self.shift + 4) % 0x1_0000_0000) as u32,
                        ..self
                    },
                    SpikeCommandView::Sleep { millis: FRAME_MILLIS },
                ),
                SpikePhase::Sleeping => self.turn(now),
                SpikePhase::Stopping => (
                    self.at(SpikePhase::Closing),
                    SpikeCommandView::CloseRoom,
                ),
                _ => (
                    self.at(SpikePhase::Over),
                    SpikeCommandView::Finish(
                        Ok(
                            crate::probe::report::spike_summary_of(
                                self.identity,
                                self.room,
                                self.seen,
                            ),
                        ),
                    ),
                ),
            },
        }
    }

    /// The run once it was handed a report, which counts if it has a row about
    /// the video that is sent.
    pub open spec fn saw(self, rows: Seq<RtcRow>) -> SpikeView {
        match crate::engine::room::scan_of(rows) {
            Some(seen) => SpikeView { seen: Some(seen), ..self },
            None => self,
        }
    }
}

/// A timed run of the test picture.
pub struct SpikeRun {
    phase: SpikePhase,
    ws_url: String,
    token: String,
    seconds: u64,
    deadline: u128,
    shift: u32,
    identity: String,
    room: String,
    last: Option<Seen>,
}

impl View for SpikeRun {
    type V = SpikeView;

    closed spec fn view(&self) -> SpikeView {
        SpikeView {
            phase: self.phase,
            ws_url: self.ws_url@,
            token: self.token@,
            seconds: self.seconds as nat,
            deadline: self.deadline as nat,
            shift: self.shift,
            identity: self.identity@,
            room: self.room@,
            seen: crate::engine::room::seen_view(self.last),
        }
    }
}

impl SpikeRun {
    /// A run over the given time, against the server at `ws_url`, that has not
    /// begun.
    pub fn new(ws_url: String, token: String, seconds: u64) -> (r: SpikeRun)
        ensures
            r@ == SpikeView::fresh(ws_url@, token@, seconds as nat),
    {
        proof {
            reveal_strlit("");
        }
        let r = SpikeRun {
            phase: SpikePhase::Starting,
            ws_url,
            token,
            seconds,
            deadline: 0,
            shift: 0,
            identity: "".to_string(),
            room: "".to_string(),
            last: None,
        };
        assert(r@.identity =~= seq![] && r@.room =~= seq![]);
        r
    }

    /// Whether an event can come of the command that the run awaits.
    pub fn awaits(&self, ev: &SpikeEvent) -> (r: bool)
        ensures
            r == self@.awaits(ev@),
    {
        match self.phase {
            SpikePhase::Connecting => matches!(
                ev,
                SpikeEvent::Connected { .. } | SpikeEvent::Failed(_)
            ),
            SpikePhase::Publishing => matches!(ev, SpikeEvent::Done | SpikeEvent::Failed(_)),
            SpikePhase::Over => false,
            _ => matches!(ev, SpikeEvent::Done),
        }
    }

    /// Takes a report of statistics.
    pub fn saw(&mut self, rows: &Vec<RtcRow>)
        ensures
            final(self)@ == old(self)@.saw(rows@),
    {
        if let Some(seen) = scan(rows) {
            self.last = Some(seen);
        }
    }

    fn turn(&mut self, now: Instant) -> (c: SpikeCommand)
        ensures
            (final(self)@, c@) == old(self)@.turn(now.nanos as nat),
    {
        if now.nanos < self.deadline {
            self.phase = SpikePhase::Pushing;
            SpikeCommand::PushBars { shift: self.shift }
        } else {
            self.phase = SpikePhase::Stopping;
            SpikeCommand::StopStats
        }
    }

    /// Takes the outcome of the last command, at the time `now`, and gives the
    /// next one.
    pub fn step(&mut self, now: Instant, ev: SpikeEvent) -> (c: SpikeCommand)
        requires
            old(self)@.awaits(ev@),
            now.nanos <= CLOCK_LIMIT,
        ensures
            final(self)@ == old(self)@.step(now.nanos as nat, ev@).0,
            c@ == old(self)@.step(now.nanos as nat, ev@).1,
    {
        match ev {
            SpikeEvent::Connected { identity, room } => {
                self.phase = SpikePhase::Publishing;
                self.identity = identity;
                self.room = room;
                SpikeCommand::Publish(probe_plan(WIDTH, HEIGHT))
            },
            SpikeEvent::Failed(msg) => {
                self.phase = SpikePhase::Over;
                SpikeCommand::Finish(Err(msg))
            },
            SpikeEvent::Done => match self.phase {
                SpikePhase::Starting => {
                    self.phase = SpikePhase::Connecting;
                    SpikeCommand::Connect {
                        ws_url: self.ws_url.clone(),
                        token: self.token.clone(),
                    }
                },
                SpikePhase::Publishing => {
                    self.deadline = now.nanos + self.seconds as u128 * NANOS_PER_SEC as u128;
                    self.turn(now)
                },
                SpikePhase::Pushing => {
                    self.phase = SpikePhase::Sleeping;
                    self.shift = next_shift(self.shift);
                    SpikeCommand::Sleep { millis: FRAME_MILLIS }
                },
                SpikePhase::Sleeping => self.turn(now),
                SpikePhase::Stopping => {
                    self.phase = SpikePhase::Closing;
                    SpikeCommand::CloseRoom
                },
                _ => {
                    self.phase = SpikePhase::Over;
                    let seen = match &self.last {
                        Some(s) => Some(
                            Seen {
                                encoder: s.encoder.clone(),
                                frames_encoded: s.frames_encoded,
                                limitation: s.limitation.clone(),
                            },
                        ),
                        None => None,
                    };
                    SpikeCommand::Finish(
                        Ok(spike_summary(self.identity.as_str(), self.room.as_str(), seen)),
                    )
                },
            },
        }
    }
}

/// What a run is handed: the outcome of a command, with its time, or a report of
/// statistics.
pub enum SpikeInput {
    Outcome { now: nat, ev: SpikeEventView },
    Report(Seq<RtcRow>),
}

impl SpikeView {
    /// The run after each of the inputs in turn.
    pub open spec fn after(self, script: Seq<SpikeInput>) -> SpikeView
        decreases script.len(),
    {
        if script.len() == 0 {
            self
        } else {
            match script.last() {
                SpikeInput::Outcome { now, ev } => self.after(script.drop_last()).step(now, ev).0,
                SpikeInput::Report(rows) => self.after(script.drop_last()).saw(rows),
            }
        }
    }

    /// The commands that it gives, in order.
    pub open spec fn commands(self, script: Seq<SpikeInput>) -> Seq<SpikeCommandView>
        decreases script.len(),
    {
        if script.len() == 0 {
            seq![]
        } else {
            let before = script.drop_last();
            match script.last() {
                SpikeInput::Outcome { now, ev } => self.commands(before).push(
                    self.after(before).step(now, ev).1,
                ),
                SpikeInput::Report(_) => self.commands(before),
            }
        }
    }

    /// Every outcome in `script` is one that the run awaits.
    pub open spec fn can_run(self, script: Seq<SpikeInput>) -> bool
        decreases script.len(),
    {
        script.len() > 0 ==> {
            &&& self.can_run(script.drop_last())
            &&& script.last() matches SpikeInput::Outcome { ev, .. } ==> self.after(
                script.drop_last(),
            ).awaits(ev)
        }
    }
}

/// How far the pictures that the commands push are moved, in order.
pub open spec fn shifts(commands: Seq<SpikeCommandView>) -> Seq<u32>
    decreases commands.len(),
{
    if commands.len() == 0 {
        seq![]
    } else {
        match commands.last() {
            SpikeCommandView::PushBars { shift } => shifts(commands.drop_last()).push(shift),
            _ => shifts(commands.drop_last()),
        }
    }
}

/// What the last report that counts says of the encoder.
pub open spec fn last_sight(script: Seq<SpikeInput>) -> Option<SeenView>
    decreases script.len(),
{
    if script.len() == 0 {
        None
    } else {
        match script.last() {
            SpikeInput::Report(rows) if crate::engine::room::scan_of(rows) is Some =>
                crate::engine::room::scan_of(rows),
            _ => last_sight(script.drop_last()),
        }
    }
}

/// The pictures that were pushed fit the phase of the run and the next shift.
spec fn shifts_fit(s: SpikeView, pushed: Seq<u32>) -> bool {
    let done = if s.phase is Pushing {
        pushed.len() - 1
    } else {
        pushed.len() as int
    };
    &&& s.phase is Pushing ==> pushed.len() > 0
    &&& s.shift == (4 * done) % 0x1_0000_0000
    &&& forall|i: int| 0 <= i < pushed.len() ==> #[trigger] pushed[i] == (4 * i) % 0x1_0000_0000
}

proof fn lemma_step_shifts(s: SpikeView, now: nat, ev: SpikeEventView, pushed: Seq<u32>)
    requires
        s.awaits(ev),
        shifts_fit(s, pushed),
    ensures
        shifts_fit(
            s.step(now, ev).0,
            match s.step(now, ev).1 {
                SpikeCommandView::PushBars { shift } => pushed.push(shift),
                _ => pushed,
            },
        ),
{
}

#[verifier::spinoff_prover]
proof fn lemma_shifts(fresh: SpikeView, script: Seq<SpikeInput>)
    requires
        fresh.is_fresh(),
        fresh.can_run(script),
    ensures
        shifts_fit(fresh.after(script), shifts(fresh.commands(script))),
    decreases script.len(),
{
    if script.len() > 0 {
        let before = script.drop_last();
        lemma_shifts(fresh, before);
        match script.last() {
            SpikeInput::Outcome { now, ev } => {
                let cmds = fresh.commands(before);
                lemma_step_shifts(fresh.after(before), now, ev, shifts(cmds));
                let cmd = fresh.after(before).step(now, ev).1;
                assert(cmds.push(cmd).drop_last() =~= cmds);
            },
            SpikeInput::Report(_) => {},
        }
    }
}

/// The picture moves on by four with every push, from where it began, whatever
/// comes of the commands.
pub proof fn law_bars_move_on(fresh: SpikeView, script: Seq<SpikeInput>, i: int)
    requires
        fresh.is_fresh(),
        fresh.can_run(script),
        0 <= i < shifts(fresh.commands(script)).len(),
    ensures
        shifts(fresh.commands(script))[i] == (4 * i) % 0x1_0000_0000,
{
    lemma_shifts(fresh, script);
}

/// The run connects to the server that it was given, with the token that it was
/// given, and publishes the test picture's size, whatever comes of the commands.
pub proof fn law_run_connects_as_told(fresh: SpikeView, script: Seq<SpikeInput>, i: int)
    requires
        fresh.is_fresh(),
        fresh.can_run(script),
        0 <= i < fresh.commands(script).len(),
    ensures
        match fresh.commands(script)[i] {
            SpikeCommandView::Connect { ws_url, token } => ws_url == fresh.ws_url && token
                == fresh.token,
            SpikeCommandView::Publish(plan) => plan == crate::engine::room::probe_plan_of(
                WIDTH,
                HEIGHT,
            ),
            _ => true,
        },
    decreases script.len(),
{
    if script.len() > 0 {
        let before = script.drop_last();
        lemma_start_is_kept(fresh, before);
        if i < fresh.commands(before).len() {
            law_run_connects_as_told(fresh, before, i);
        }
    }
}

proof fn lemma_start_is_kept(fresh: SpikeView, script: Seq<SpikeInput>)
    ensures
        fresh.after(script).ws_url == fresh.ws_url,
        fresh.after(script).token == fresh.token,
    decreases script.len(),
{
    if script.len() > 0 {
        lemma_start_is_kept(fresh, script.drop_last());
    }
}

/// The time runs from the publication, and no picture is pushed once it is up.
pub proof fn law_pushes_end_in_time(s: SpikeView, now: nat, ev: SpikeEventView)
    requires
        s.awaits(ev),
    ensures
        s.step(now, ev).1 is PushBars ==> now < s.step(now, ev).0.deadline,
        s.phase is Publishing && ev is Done ==> s.step(now, ev).0.deadline == now + s.seconds
            * NANOS_PER_SEC,
        !(s.phase is Publishing) ==> s.step(now, ev).0.deadline == s.deadline,
{
}

/// A run is summed up with what the last report that counts says of the
/// encoder.
pub proof fn law_summary_tells_last_sight(fresh: SpikeView, script: Seq<SpikeInput>, now: nat)
    requires
        fresh.is_fresh(),
        fresh.can_run(script),
        fresh.after(script).phase is Closing,
    ensures
        ({
            let end = fresh.after(script);
            end.step(now, SpikeEventView::Done).1 == SpikeCommandView::Finish(
                Ok(
                    crate::probe::report::spike_summary_of(
                        end.identity,
                        end.room,
                        last_sight(script),
                    ),
                ),
            )
        }),
{
    lemma_last_sight(fresh, script);
}

proof fn lemma_last_sight(fresh: SpikeView, script: Seq<SpikeInput>)
    requires
        fresh.is_fresh(),
    ensures
        fresh.after(script).seen == last_sight(script),
    decreases script.len(),
{
    if script.len() > 0 {
        lemma_last_sight(fresh, script.drop_last());
    }
}

/// A run begins with what it was given, an unmoved picture and nothing seen.
pub proof fn law_run_begins_as_told(ws_url: Seq<char>, token: Seq<char>, seconds: nat)
    ensures
        ({
            let s = SpikeView::fresh(ws_url, token, seconds);
            &&& s.phase is Starting
            &&& s.ws_url == ws_url
            &&& s.token == token
            &&& s.seconds == seconds
            &&& s.shift == 0
            &&& s.seen is None
        }),
{
}

/// A run in order: it connects, publishes, pushes a picture and waits a frame's
/// time as long as there is time, and then stops the statistics, closes the room
/// and sums up. A failure ends it with the reason.
pub proof fn law_run_takes_its_course(
    s: SpikeView,
    now: nat,
    identity: Seq<char>,
    room: Seq<char>,
    msg: Seq<char>,
)
    ensures
        ({
            let (end, cmd) = s.step(now, SpikeEventView::Done);
            let (on, publish) = s.step(now, SpikeEventView::Connected { identity, room });
            let (over, failed) = s.step(now, SpikeEventView::Failed(msg));
            &&& s.phase is Starting ==> end.phase is Connecting && cmd
                == SpikeCommandView::Connect { ws_url: s.ws_url, token: s.token }
            &&& on.phase is Publishing && on.identity == identity && on.room == room
            &&& publish matches SpikeCommandView::Publish(plan) && plan.width == 1280
                && plan.height == 720
            &&& over.phase is Over && failed == SpikeCommandView::Finish(Err(msg))
            &&& s.phase is Publishing ==> end.deadline == now + s.seconds * 1_000_000_000
            &&& s.phase is Publishing && s.seconds > 0 ==> end.phase is Pushing && cmd
                == SpikeCommandView::PushBars { shift: s.shift }
            &&& s.phase is Publishing && s.seconds == 0 ==> end.phase is Stopping && cmd
                is StopStats
            &&& s.phase is Pushing ==> end.phase is Sleeping && cmd == SpikeCommandView::Sleep {
                millis: 33,
            }
            &&& s.phase is Sleeping && now < s.deadline ==> end.phase is Pushing && cmd
                == SpikeCommandView::PushBars { shift: s.shift }
            &&& s.phase is Sleeping && now >= s.deadline ==> end.phase is Stopping && cmd
                is StopStats
            &&& s.phase is Stopping ==> end.phase is Closing && cmd is CloseRoom
            &&& s.phase is Closing ==> end.phase is Over && (
            cmd matches SpikeCommandView::Finish(Ok(_)))
        }),
{
    if s.seconds > 0 {
        assert(s.seconds * 1_000_000_000 > 0);
    }
}

/// What an outcome does not concern, it leaves alone: the names are those of the
/// connection, the picture moves when a push is done, and only a report changes
/// what was seen.
pub proof fn law_run_leaves_the_rest(s: SpikeView, now: nat, ev: SpikeEventView, rows: Seq<RtcRow>)
    requires
        s.awaits(ev),
    ensures
        ({
            let end = s.step(now, ev).0;
            let saw = s.saw(rows);
            &&& end.seconds == s.seconds
            &&& !(ev is Connected) ==> end.identity == s.identity && end.room == s.room
            &&& end.seen == s.seen
            &&& !(s.phase is Pushing) ==> end.shift == s.shift
            &&& saw.phase == s.phase && saw.shift == s.shift && saw.deadline == s.deadline
            &&& saw.identity == s.identity && saw.room == s.room && saw.seconds == s.seconds
            &&& crate::engine::room::scan_of(rows) is Some ==> saw.seen
                == crate::engine::room::scan_of(rows)
            &&& crate::engine::room::scan_of(rows) is None ==> saw.seen == s.seen
        }),
{
}

/// Which outcomes a run takes.
pub proof fn law_run_takes_what_can_come(
    s: SpikeView,
    identity: Seq<char>,
    room: Seq<char>,
    msg: Seq<char>,
)
    ensures
        s.awaits(SpikeEventView::Connected { identity, room }) <==> s.phase is Connecting,
        s.awaits(SpikeEventView::Failed(msg)) <==> s.phase is Connecting || s.phase is Publishing,
        s.awaits(SpikeEventView::Done) <==> !(s.phase is Connecting || s.phase is Over),
{
}

/// A command and an outcome are seen for what they are.
pub proof fn law_run_values_are_seen_as_they_are(c: SpikeCommand, ev: SpikeEvent)
    ensures
        match c {
            SpikeCommand::Connect { ws_url, token } => c@ == SpikeCommandView::Connect {
                ws_url: ws_url@,
                token: token@,
            },
            SpikeCommand::Publish(plan) => c@ == SpikeCommandView::Publish(plan),
            SpikeCommand::PushBars { shift } => c@ == SpikeCommandView::PushBars { shift },
            SpikeCommand::Sleep { millis } => c@ == SpikeCommandView::Sleep { millis },
            SpikeCommand::StopStats => c@ is StopStats,
            SpikeCommand::CloseRoom => c@ is CloseRoom,
            SpikeCommand::Finish(Ok(s)) => c@ == SpikeCommandView::Finish(Ok(s@)),
            SpikeCommand::Finish(Err(s)) => c@ == SpikeCommandView::Finish(Err(s@)),
        },
        match ev {
            SpikeEvent::Connected { identity, room } => ev@ == SpikeEventView::Connected {
                identity: identity@,
                room: room@,
            },
            SpikeEvent::Done => ev@ is Done,
            SpikeEvent::Failed(m) => ev@ == SpikeEventView::Failed(m@),
        },
{
}

} // verus!
