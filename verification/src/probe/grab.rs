//! The screen run's frame loop: push the frame that was captured first, and then,
//! at a steady rate, the newest one there is, until told to stop. The first few
//! are kept as files.
//!
//! [`GrabLoop`] performs nothing itself. Each [`GrabCommand`] it gives is carried
//! out by the caller, who answers with the [`GrabEvent`] that came of it and the
//! time.
use crate::logic::pacing::Instant;
use crate::probe::settings::{dump_path, frame_rest, FRAME_MILLIS};
use vstd::prelude::*;

verus! {

/// How long to wait before the next look for the first frame: five milliseconds
/// where there was none yet, and not at all once it is there.
pub fn first_frame_wait(got: bool) -> (millis: Option<u64>)
    ensures
        millis == (if got {
            None
        } else {
            Some(5u64)
        }),
{
    if got {
        None
    } else {
        Some(5)
    }
}

/// What the caller is to do next.
pub enum GrabCommand {
    /// Convert and push the newest frame, and keep it in the file `dump` if there
    /// is one.
    Push { dump: Option<String> },
    /// Look whether the run is to stop.
    CheckStop,
    /// Look for a captured frame, and make it the newest if there is one.
    TryFrame,
    /// Wait.
    Sleep { nanos: u64 },
    /// Nothing more: the run is over.
    Exit,
}

/// A [`GrabCommand`] with its text as a sequence of characters.
pub enum GrabCommandView {
    Push { dump: Option<Seq<char>> },
    CheckStop,
    TryFrame,
    Sleep { nanos: nat },
    Exit,
}

impl View for GrabCommand {
    type V = GrabCommandView;

    open spec fn view(&self) -> GrabCommandView {
        match *self {
            GrabCommand::Push { dump: Some(path) } => GrabCommandView::Push { dump: Some(path@) },
            GrabCommand::Push { dump: None } => GrabCommandView::Push { dump: None },
            GrabCommand::CheckStop => GrabCommandView::CheckStop,
            GrabCommand::TryFrame => GrabCommandView::TryFrame,
            GrabCommand::Sleep { nanos } => GrabCommandView::Sleep { nanos: nanos as nat },
            GrabCommand::Exit => GrabCommandView::Exit,
        }
    }
}

/// What came of a command.
#[derive(Clone, Copy, PartialEq, Eq, Debug, Structural)]
pub enum GrabEvent {
    /// It is done.
    Done,
    /// Whether the run is to stop.
    Stop(bool),
    /// Whether there was a captured frame.
    Frame(bool),
    /// The capture failed.
    Failed,
}

/// Which command the loop awaits the outcome of.
#[derive(Clone, Copy, PartialEq, Eq, Debug, Structural)]
pub enum GrabPhase {
    /// The first frame is being captured.
    Starting,
    /// The first frame is being pushed.
    First,
    Checking,
    Grabbing,
    Pushing,
    Sleeping,
    Over,
}

/// What a loop knows.
pub struct GrabView {
    pub phase: GrabPhase,
    /// How many frames have been pushed.
    pub frames: nat,
    /// When the current round began.
    pub began: nat,
}

impl GrabView {
    /// A loop that awaits the first frame.
    pub open spec fn fresh() -> GrabView {
        GrabView { phase: GrabPhase::Starting, frames: 0, began: 0 }
    }

    /// The loop in another phase.
    pub open spec fn at(self, phase: GrabPhase) -> GrabView {
        GrabView { phase, ..self }
    }

    /// The event can come of the command that the loop awaits.
    pub open spec fn awaits(self, ev: GrabEvent) -> bool {
        match self.phase {
            GrabPhase::Starting | GrabPhase::First | GrabPhase::Pushing | GrabPhase::Sleeping => ev
                is Done,
            GrabPhase::Checking => ev is Stop,
            GrabPhase::Grabbing => ev is Frame || ev is Failed,
            GrabPhase::Over => false,
        }
    }

    /// What an event does: the loop after it and the command that follows.
    pub open spec fn step(self, now: nat, ev: GrabEvent) -> (GrabView, GrabCommandView) {
        let push = GrabCommandView::Push {
            dump: crate::probe::settings::dump_path_of(self.frames),
        };
        match ev {
            GrabEvent::Failed | GrabEvent::Stop(true) => (
                self.at(GrabPhase::Over),
                GrabCommandView::Exit,
            ),
            GrabEvent::Stop(false) => (
                GrabView { phase: GrabPhase::Grabbing, began: now, ..self },
                GrabCommandView::TryFrame,
            ),
            GrabEvent::Frame(_) => (self.at(GrabPhase::Pushing), push),
            GrabEvent::Done => match self.phase {
                GrabPhase::Starting => (self.at(GrabPhase::First), push),
                GrabPhase::First => (
                    GrabView { phase: GrabPhase::Checking, frames: self.frames + 1, ..self },
                    GrabCommandView::CheckStop,
                ),
                GrabPhase::Pushing => {
                    let pushed = GrabView { frames: self.frames + 1, ..self };
                    let passed = crate::engine::run::since(now, self.began);
                    if passed <= FRAME_MILLIS * 1_000_000 {
                        (
                            pushed.at(GrabPhase::Sleeping),
                            GrabCommandView::Sleep {
                                nanos: (FRAME_MILLIS * 1_000_000 - passed) as nat,
                            },
                        )
                    } else {
                        (pushed.at(GrabPhase::Checking), GrabCommandView::CheckStop)
                    }
                },
                _ => (self.at(GrabPhase::Checking), GrabCommandView::CheckStop),
            },
        }
    }
}

/// The frame loop of a screen run.
pub struct GrabLoop {
    phase: GrabPhase,
    frames: u64,
    began: Instant,
}

impl View for GrabLoop {
    type V = GrabView;

    closed spec fn view(&self) -> GrabView {
        GrabView {
            phase: self.phase,
            frames: self.frames as nat,
            began: self.began.nanos as nat,
        }
    }
}

impl GrabLoop {
    /// A loop that awaits the first frame.
    pub fn new() -> (l: GrabLoop)
        ensures
            l@ == GrabView::fresh(),
    {
        GrabLoop { phase: GrabPhase::Starting, frames: 0, began: Instant { nanos: 0 } }
    }

    /// How many frames have been pushed.
    pub fn frames(&self) -> (n: u64)
        ensures
            n == self@.frames,
    {
        self.frames
    }

    /// Whether an event can come of the command that the loop awaits.
    pub fn awaits(&self, ev: GrabEvent) -> (r: bool)
        ensures
            r == self@.awaits(ev),
    {
        match self.phase {
            GrabPhase::Starting | GrabPhase::First | GrabPhase::Pushing
            | GrabPhase::Sleeping => matches!(ev, GrabEvent::Done),
            GrabPhase::Checking => matches!(ev, GrabEvent::Stop(_)),
            GrabPhase::Grabbing => matches!(ev, GrabEvent::Frame(_) | GrabEvent::Failed),
            GrabPhase::Over => false,
        }
    }

    /// Takes the outcome of the last command, at the time `now`, and gives the
    /// next one.
    pub fn step(&mut self, now: Instant, ev: GrabEvent) -> (c: GrabCommand)
        requires
            old(self)@.awaits(ev),
            old(self)@.frames < u64::MAX,
        ensures
            final(self)@ == old(self)@.step(now.nanos as nat, ev).0,
            c@ == old(self)@.step(now.nanos as nat, ev).1,
    {
        match ev {
            GrabEvent::Failed | GrabEvent::Stop(true) => {
                self.phase = GrabPhase::Over;
                GrabCommand::Exit
            },
            GrabEvent::Stop(false) => {
                self.phase = GrabPhase::Grabbing;
                self.began = now;
                GrabCommand::TryFrame
            },
            GrabEvent::Frame(_) => {
                self.phase = GrabPhase::Pushing;
                GrabCommand::Push { dump: dump_path(self.frames) }
            },
            GrabEvent::Done => match self.phase {
                GrabPhase::Starting => {
                    self.phase = GrabPhase::First;
                    GrabCommand::Push { dump: dump_path(self.frames) }
                },
                GrabPhase::First => {
                    self.frames = self.frames + 1;
                    self.phase = GrabPhase::Checking;
                    GrabCommand::CheckStop
                },
                GrabPhase::Pushing => {
                    self.frames = self.frames + 1;
                    let passed: u128 = if now.nanos < self.began.nanos {
                        0
                    } else {
                        now.nanos - self.began.nanos
                    };
                    match frame_rest(passed) {
                        Some(nanos) => {
                            self.phase = GrabPhase::Sleeping;
                            GrabCommand::Sleep { nanos }
                        },
                        None => {
                            self.phase = GrabPhase::Checking;
                            GrabCommand::CheckStop
                        },
                    }
                },
                _ => {
                    self.phase = GrabPhase::Checking;
                    GrabCommand::CheckStop
                },
            },
        }
    }
}

impl GrabView {
    /// The loop after each of the outcomes of `script` in turn, each with its
    /// time.
    pub open spec fn after(self, script: Seq<(nat, GrabEvent)>) -> GrabView
        decreases script.len(),
    {
        if script.len() == 0 {
            self
        } else {
            self.after(script.drop_last()).step(script.last().0, script.last().1).0
        }
    }

    /// The commands that it gives, in order.
    pub open spec fn commands(self, script: Seq<(nat, GrabEvent)>) -> Seq<GrabCommandView>
        decreases script.len(),
    {
        if script.len() == 0 {
            seq![]
        } else {
            self.commands(script.drop_last()).push(
                self.after(script.drop_last()).step(script.last().0, script.last().1).1,
            )
        }
    }

    /// Every outcome in `script` is one that the loop awaits.
    pub open spec fn can_run(self, script: Seq<(nat, GrabEvent)>) -> bool
        decreases script.len(),
    {
        script.len() > 0 ==> {
            &&& self.can_run(script.drop_last())
            &&& self.after(script.drop_last()).awaits(script.last().1)
        }
    }
}

/// The files of the frames that the commands push, in order.
pub open spec fn dumps(commands: Seq<GrabCommandView>) -> Seq<Option<Seq<char>>>
    decreases commands.len(),
{
    if commands.len() == 0 {
        seq![]
    } else {
        match commands.last() {
            GrabCommandView::Push { dump } => dumps(commands.drop_last()).push(dump),
            _ => dumps(commands.drop_last()),
        }
    }
}

/// The frames that were pushed fit the phase of the loop and its count, and each
/// went to the file of its number.
pub open spec fn is_tally(s: GrabView, pushed: Seq<Option<Seq<char>>>) -> bool {
    &&& pushed.len() == s.frames + if s.phase is First || s.phase is Pushing {
        1nat
    } else {
        0nat
    }
    &&& forall|i: int|
        0 <= i < pushed.len() ==> #[trigger] pushed[i] == crate::probe::settings::dump_path_of(
            i as nat,
        )
}

proof fn lemma_step_tally(
    s: GrabView,
    now: nat,
    ev: GrabEvent,
    pushed: Seq<Option<Seq<char>>>,
)
    requires
        s.awaits(ev),
        is_tally(s, pushed),
    ensures
        is_tally(
            s.step(now, ev).0,
            match s.step(now, ev).1 {
                GrabCommandView::Push { dump } => pushed.push(dump),
                _ => pushed,
            },
        ),
{
}

/// Every frame that is pushed is counted once, when its push is done, and each
/// of the first few goes to the file of its number, whatever comes of the
/// commands.
pub proof fn law_frames_are_counted(script: Seq<(nat, GrabEvent)>)
    requires
        GrabView::fresh().can_run(script),
    ensures
        is_tally(GrabView::fresh().after(script), dumps(GrabView::fresh().commands(script))),
    decreases script.len(),
{
    if script.len() > 0 {
        let fresh = GrabView::fresh();
        let before = script.drop_last();
        law_frames_are_counted(before);
        let s = fresh.after(before);
        let (now, ev) = script.last();
        let cmds = fresh.commands(before);
        lemma_step_tally(s, now, ev, dumps(cmds));
        let cmd = s.step(now, ev).1;
        assert(cmds.push(cmd).drop_last() =~= cmds);
    }
}

/// A round that took less than a frame's time is filled up to it exactly, and
/// one that took longer is followed by the next at once.
pub proof fn law_round_fills_frame(s: GrabView, now: nat)
    requires
        s.phase is Pushing,
        s.began <= now,
    ensures
        match s.step(now, GrabEvent::Done).1 {
            GrabCommandView::Sleep { nanos } => now + nanos == s.began + FRAME_MILLIS * 1_000_000,
            c => c is CheckStop && now > s.began + FRAME_MILLIS * 1_000_000,
        },
{
}

/// The loop only ever ends because it is told to stop or the capture failed, and
/// it is asked to stop before every frame but the first.
pub proof fn law_stop_is_heeded(s: GrabView, now: nat, ev: GrabEvent)
    requires
        s.awaits(ev),
    ensures
        s.step(now, ev).0.phase is Over <==> ev == GrabEvent::Stop(true) || ev is Failed,
        s.step(now, ev).1 is TryFrame <==> ev == GrabEvent::Stop(false),
{
}

/// A loop begins with the first frame still to come and none pushed.
pub proof fn law_grab_begins_with_nothing()
    ensures
        GrabView::fresh().phase is Starting,
        GrabView::fresh().frames == 0,
{
}

/// The rounds in order: the first frame is pushed as it is; from then on the loop
/// asks whether to stop, looks for a frame, pushes the newest whether or not there
/// was one, and asks again, after the rest of the frame's time if any is left.
pub proof fn law_rounds_follow_each_other(s: GrabView, now: nat, got: bool)
    ensures
        s.phase is Starting ==> {
            &&& s.step(now, GrabEvent::Done).1 is Push
            &&& s.step(now, GrabEvent::Done).0.phase is First
            &&& s.step(now, GrabEvent::Done).0.frames == s.frames
        },
        s.phase is First ==> {
            &&& s.step(now, GrabEvent::Done).1 is CheckStop
            &&& s.step(now, GrabEvent::Done).0.phase is Checking
            &&& s.step(now, GrabEvent::Done).0.frames == s.frames + 1
        },
        s.phase is Checking ==> {
            &&& s.step(now, GrabEvent::Stop(false)).1 is TryFrame
            &&& s.step(now, GrabEvent::Stop(false)).0.phase is Grabbing
            &&& s.step(now, GrabEvent::Stop(false)).0.began == now
            &&& s.step(now, GrabEvent::Stop(true)).1 is Exit
            &&& s.step(now, GrabEvent::Stop(true)).0.phase is Over
        },
        s.phase is Grabbing ==> {
            &&& s.step(now, GrabEvent::Frame(got)).1 is Push
            &&& s.step(now, GrabEvent::Frame(got)).0.phase is Pushing
            &&& s.step(now, GrabEvent::Failed).1 is Exit
            &&& s.step(now, GrabEvent::Failed).0.phase is Over
        },
        s.phase is Pushing ==> {
            let (end, cmd) = s.step(now, GrabEvent::Done);
            &&& end.frames == s.frames + 1
            &&& now > s.began + 33_000_000 ==> cmd is CheckStop && end.phase is Checking
            &&& s.began <= now <= s.began + 33_000_000 ==> end.phase is Sleeping && (
            cmd matches GrabCommandView::Sleep { nanos } && now + nanos == s.began + 33_000_000)
            &&& now < s.began ==> end.phase is Sleeping && cmd == GrabCommandView::Sleep {
                nanos: 33_000_000,
            }
        },
        s.phase is Sleeping ==> {
            &&& s.step(now, GrabEvent::Done).1 is CheckStop
            &&& s.step(now, GrabEvent::Done).0.phase is Checking
        },
{
}

/// Only a push that is done is counted, and only a new round moves its beginning.
pub proof fn law_grab_leaves_the_rest(s: GrabView, now: nat, ev: GrabEvent)
    requires
        s.awaits(ev),
    ensures
        s.step(now, ev).0.frames == if ev is Done && (s.phase is First || s.phase is Pushing) {
            s.frames + 1
        } else {
            s.frames
        },
        s.step(now, ev).0.began == if ev == GrabEvent::Stop(false) {
            now
        } else {
            s.began
        },
{
}

/// Which outcomes the loop takes.
pub proof fn law_grab_takes_what_can_come(s: GrabView, stop: bool, got: bool)
    ensures
        s.awaits(GrabEvent::Stop(stop)) <==> s.phase is Checking,
        s.awaits(GrabEvent::Frame(got)) <==> s.phase is Grabbing,
        s.awaits(GrabEvent::Failed) <==> s.phase is Grabbing,
        s.awaits(GrabEvent::Done) <==> s.phase is Starting || s.phase is First || s.phase is Pushing
            || s.phase is Sleeping,
{
}

/// A command is seen for what it is.
pub proof fn law_grab_command_is_seen_as_it_is(c: GrabCommand)
    ensures
        match c {
            GrabCommand::Push { dump: Some(path) } => c@ == GrabCommandView::Push {
                dump: Some(path@),
            },
            GrabCommand::Push { dump: None } => c@ == GrabCommandView::Push { dump: None },
            GrabCommand::CheckStop => c@ is CheckStop,
            GrabCommand::TryFrame => c@ is TryFrame,
            GrabCommand::Sleep { nanos } => c@ == GrabCommandView::Sleep { nanos: nanos as nat },
            GrabCommand::Exit => c@ is Exit,
        },
{
}

} // verus!
