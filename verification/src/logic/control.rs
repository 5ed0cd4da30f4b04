//! Engine-lifecycle state machine.
//!
//! `Session` owns no I/O and no clock: it consumes lifecycle messages (`start`,
//! engine events, a guard timeout, `stop`) and returns the [`Action`]s that the
//! caller is to perform, in order. The retry policy is "retry once, silently":
//! the first failure forks the child anew, a second one gives up and engages
//! the fallback.
use crate::logic::quality::Quality;
use vstd::prelude::*;

verus! {

/// A control message from the host down to the session.
#[derive(Clone, PartialEq, Eq, Debug)]
pub enum ControlMsg {
    Stop,
    Reconfigure(Quality),
}

/// A stats sample surfaced by the engine while it is live. `F` is the type of
/// the frame rate, which is only passed through.
#[derive(Clone, PartialEq, Debug)]
pub struct StatsSnapshot<F> {
    pub fps: F,
    pub bitrate_kbps: u32,
    pub rtt_ms: u32,
}

/// An event coming up from the engine.
#[derive(Clone, PartialEq, Debug)]
pub enum EngineEvent<F> {
    Started,
    Stats(StatsSnapshot<F>),
    Error(String),
    Ended,
}

/// An [`EngineEvent`] with its text as a sequence of characters.
pub enum EngineEventView<F> {
    Started,
    Stats(StatsSnapshot<F>),
    Error(Seq<char>),
    Ended,
}

impl<F> View for EngineEvent<F> {
    type V = EngineEventView<F>;

    open spec fn view(&self) -> EngineEventView<F> {
        match *self {
            EngineEvent::Started => EngineEventView::Started,
            EngineEvent::Stats(s) => EngineEventView::Stats(s),
            EngineEvent::Error(m) => EngineEventView::Error(m@),
            EngineEvent::Ended => EngineEventView::Ended,
        }
    }
}

/// A side effect that the caller must carry out. `Session` never performs one
/// itself: it only decides the sequence.
#[derive(Clone, PartialEq, Eq, Debug)]
pub enum Action {
    ForkChild,
    KillChild,
    EmitStarted,
    EmitFailed(String),
    StartGuard,
    ClearGuard,
    /// Forward a buffered `Reconfigure` to the child once it is live.
    ForwardReconfigure(Quality),
}

/// An [`Action`] with its text as a sequence of characters.
pub enum ActionView {
    ForkChild,
    KillChild,
    EmitStarted,
    EmitFailed(Seq<char>),
    StartGuard,
    ClearGuard,
    ForwardReconfigure(Quality),
}

impl View for Action {
    type V = ActionView;

    open spec fn view(&self) -> ActionView {
        match *self {
            Action::ForkChild => ActionView::ForkChild,
            Action::KillChild => ActionView::KillChild,
            Action::EmitStarted => ActionView::EmitStarted,
            Action::EmitFailed(m) => ActionView::EmitFailed(m@),
            Action::StartGuard => ActionView::StartGuard,
            Action::ClearGuard => ActionView::ClearGuard,
            Action::ForwardReconfigure(q) => ActionView::ForwardReconfigure(q),
        }
    }
}

/// The actions are the listed ones, in that order.
pub open spec fn are_actions(actions: Seq<Action>, listed: Seq<ActionView>) -> bool {
    &&& actions.len() == listed.len()
    &&& forall|i: int| 0 <= i < listed.len() ==> (#[trigger] actions[i])@ == listed[i]
}

/// Where a session stands.
#[derive(Clone, Copy, PartialEq, Eq, Debug, Structural)]
pub enum State {
    Idle,
    Connecting,
    Live,
    Stopping,
    Ended,
    Failed,
}

/// A session's state, whether its one silent retry is spent, and the
/// `Reconfigure` it holds for the child.
pub struct SessionView {
    pub state: State,
    pub retried: bool,
    pub pending: Option<Quality>,
}

/// What can happen to a session.
pub enum SessionEvent {
    Start,
    EngineStarted,
    EngineError(Seq<char>),
    ChildExit,
    GuardTimeout,
    Stop,
    Reconfigure(Quality),
}

impl SessionView {
    /// A session that nothing has happened to.
    pub open spec fn fresh() -> SessionView {
        SessionView { state: State::Idle, retried: false, pending: None }
    }

    /// Nothing that the engine reports changes the session any more, but for the
    /// exit that a stopping one waits for.
    pub open spec fn is_over(self) -> bool {
        self.state is Failed || self.state is Ended || self.state is Stopping
    }

    /// What a failure with the given message does.
    pub open spec fn failed(self, msg: Seq<char>) -> (SessionView, Seq<ActionView>) {
        if self.is_over() {
            (self, seq![])
        } else if !self.retried {
            (
                SessionView { state: State::Connecting, retried: true, ..self },
                seq![ActionView::KillChild, ActionView::ForkChild, ActionView::StartGuard],
            )
        } else {
            (
                SessionView { state: State::Failed, ..self },
                seq![
                    ActionView::KillChild,
                    ActionView::ClearGuard,
                    ActionView::EmitFailed(msg),
                ],
            )
        }
    }

    /// What an event does: the session after it and the actions it calls for.
    pub open spec fn step(self, ev: SessionEvent) -> (SessionView, Seq<ActionView>) {
        match ev {
            SessionEvent::Start => (
                SessionView { state: State::Connecting, ..self },
                seq![ActionView::ForkChild, ActionView::StartGuard],
            ),
            SessionEvent::EngineStarted => if self.is_over() {
                (self, seq![])
            } else {
                (
                    SessionView { state: State::Live, pending: None, ..self },
                    match self.pending {
                        None => seq![ActionView::ClearGuard, ActionView::EmitStarted],
                        Some(q) => seq![
                            ActionView::ClearGuard,
                            ActionView::EmitStarted,
                            ActionView::ForwardReconfigure(q),
                        ],
                    },
                )
            },
            SessionEvent::EngineError(msg) => self.failed(msg),
            SessionEvent::ChildExit => if self.state is Stopping {
                (SessionView { state: State::Ended, ..self }, seq![])
            } else {
                self.failed("child exited"@)
            },
            SessionEvent::GuardTimeout => self.failed("timeout"@),
            SessionEvent::Stop => (
                SessionView { state: State::Stopping, ..self },
                seq![ActionView::KillChild, ActionView::ClearGuard],
            ),
            SessionEvent::Reconfigure(q) => if self.state is Live {
                (self, seq![])
            } else {
                (SessionView { pending: Some(q), ..self }, seq![])
            },
        }
    }
}

/// What a control message means to a session.
pub open spec fn control_event(m: ControlMsg) -> SessionEvent {
    match m {
        ControlMsg::Stop => SessionEvent::Stop,
        ControlMsg::Reconfigure(q) => SessionEvent::Reconfigure(q),
    }
}

/// The engine lifecycle of one screen-share session.
pub struct Session {
    state: State,
    /// The one silent retry is spent: the next failure falls back.
    retried: bool,
    /// A `Reconfigure` received before the child was live, replayed once it is.
    pending_reconfigure: Option<Quality>,
}

impl View for Session {
    type V = SessionView;

    closed spec fn view(&self) -> SessionView {
        SessionView {
            state: self.state,
            retried: self.retried,
            pending: self.pending_reconfigure,
        }
    }
}

impl Default for Session {
    fn default() -> (s: Session)
        ensures
            s@ == SessionView::fresh(),
    {
        Session { state: State::Idle, retried: false, pending_reconfigure: None }
    }
}

impl Session {
    /// A fresh session.
    pub fn new() -> (s: Session)
        ensures
            s@ == SessionView::fresh(),
    {
        Session { state: State::Idle, retried: false, pending_reconfigure: None }
    }

    /// `Idle -> Connecting`. Fork the child and arm the startup guard.
    pub fn start(&mut self) -> (actions: Vec<Action>)
        ensures
            final(self)@ == old(self)@.step(SessionEvent::Start).0,
            are_actions(actions@, old(self)@.step(SessionEvent::Start).1),
    {
        self.state = State::Connecting;
        let actions = vec![Action::ForkChild, Action::StartGuard];
        actions
    }

    /// `Connecting -> Live`. Disarm the guard, tell the host that the engine is
    /// up, and replay a `Reconfigure` that arrived early. Once the session has
    /// failed, ended or is stopping, a late report is ignored.
    pub fn on_engine_started(&mut self) -> (actions: Vec<Action>)
        ensures
            final(self)@ == old(self)@.step(SessionEvent::EngineStarted).0,
            are_actions(actions@, old(self)@.step(SessionEvent::EngineStarted).1),
    {
        match self.state {
            State::Failed | State::Ended | State::Stopping => {
                let actions: Vec<Action> = vec![];
                return actions;
            },
            _ => {},
        }
        self.state = State::Live;
        let mut actions = vec![Action::ClearGuard, Action::EmitStarted];
        if let Some(q) = self.pending_reconfigure.take() {
            actions.push(Action::ForwardReconfigure(q));
        }
        actions
    }

    /// The engine reported an error.
    pub fn on_engine_error(&mut self, msg: &str) -> (actions: Vec<Action>)
        ensures
            final(self)@ == old(self)@.step(
                SessionEvent::EngineError(msg@),
            ).0,
            are_actions(actions@, old(self)@.step(
                SessionEvent::EngineError(msg@),
            ).1),
    {
        self.fail(msg)
    }

    /// The child is gone. That ends a stopping session, and is a failure of any
    /// other.
    pub fn on_child_exit(&mut self) -> (actions: Vec<Action>)
        ensures
            final(self)@ == old(self)@.step(SessionEvent::ChildExit).0,
            are_actions(actions@, old(self)@.step(SessionEvent::ChildExit).1),
    {
        if self.state == State::Stopping {
            self.state = State::Ended;
            let actions: Vec<Action> = vec![];
            return actions;
        }
        self.fail("child exited")
    }

    /// The startup guard went off.
    pub fn on_guard_timeout(&mut self) -> (actions: Vec<Action>)
        ensures
            final(self)@ == old(self)@.step(SessionEvent::GuardTimeout).0,
            are_actions(actions@, old(self)@.step(SessionEvent::GuardTimeout).1),
    {
        self.fail("timeout")
    }

    /// `* -> Stopping`. Stop always wins; `on_child_exit` then ends the session.
    pub fn stop(&mut self) -> (actions: Vec<Action>)
        ensures
            final(self)@ == old(self)@.step(SessionEvent::Stop).0,
            are_actions(actions@, old(self)@.step(SessionEvent::Stop).1),
    {
        self.state = State::Stopping;
        let actions = vec![Action::KillChild, Action::ClearGuard];
        actions
    }

    /// A control message of the host. `Stop` is [`stop`](Self::stop). The caller
    /// itself forwards a `Reconfigure` to a live child, so a live session has
    /// nothing to do for it; any other session holds it until it is live.
    pub fn on_control(&mut self, m: ControlMsg) -> (actions: Vec<Action>)
        ensures
            final(self)@ == old(self)@.step(control_event(m)).0,
            are_actions(actions@, old(self)@.step(control_event(m)).1),
    {
        match m {
            ControlMsg::Stop => self.stop(),
            ControlMsg::Reconfigure(q) => {
                if self.state != State::Live {
                    self.pending_reconfigure = Some(q);
                }
                let actions: Vec<Action> = vec![];
                actions
            },
        }
    }

    /// Whether the engine is up.
    pub fn is_live(&self) -> (r: bool)
        ensures
            r == (self@.state is Live),
    {
        self.state == State::Live
    }

    /// Whether the session has given up.
    pub fn fallback_engaged(&self) -> (r: bool)
        ensures
            r == (self@.state is Failed),
    {
        self.state == State::Failed
    }

    /// The failure policy. The first failure forks the child anew, silently; the
    /// second gives up. Once the session has failed, ended or is stopping, a
    /// late failure is ignored.
    pub(crate) fn fail(&mut self, msg: &str) -> (actions: Vec<Action>)
        ensures
            final(self)@ == old(self)@.failed(msg@).0,
            are_actions(actions@, old(self)@.failed(msg@).1),
    {
        match self.state {
            State::Failed | State::Ended | State::Stopping => {
                let actions: Vec<Action> = vec![];
                return actions;
            },
            _ => {},
        }
        if !self.retried {
            self.retried = true;
            self.state = State::Connecting;
            let actions = vec![Action::KillChild, Action::ForkChild, Action::StartGuard];
            actions
        } else {
            self.state = State::Failed;
            let actions = vec![
                Action::KillChild,
                Action::ClearGuard,
                Action::EmitFailed(msg.to_string()),
            ];
            actions
        }
    }
}

impl SessionEvent {
    /// One of the three ways in which the engine can fail.
    pub open spec fn is_failure(self) -> bool {
        self is EngineError || self is ChildExit || self is GuardTimeout
    }
}

impl SessionView {
    /// The session after each of `evs` in turn.
    pub open spec fn after(self, evs: Seq<SessionEvent>) -> SessionView
        decreases evs.len(),
    {
        if evs.len() == 0 {
            self
        } else {
            self.after(evs.drop_last()).step(evs.last()).0
        }
    }

    /// The actions that `evs` call for, in order.
    pub open spec fn actions(self, evs: Seq<SessionEvent>) -> Seq<ActionView>
        decreases evs.len(),
    {
        if evs.len() == 0 {
            seq![]
        } else {
            self.actions(evs.drop_last()) + self.after(evs.drop_last()).step(evs.last()).1
        }
    }
}

/// How many of the actions fork a child.
pub open spec fn forks(actions: Seq<ActionView>) -> nat {
    actions.filter(|a: ActionView| a is ForkChild).len()
}

/// How many of the events are starts.
pub open spec fn starts(evs: Seq<SessionEvent>) -> nat {
    evs.filter(|e: SessionEvent| e is Start).len()
}

/// Whether the actions leave the startup guard armed, given whether it was.
pub open spec fn guard_armed(armed: bool, actions: Seq<ActionView>) -> bool
    decreases actions.len(),
{
    if actions.len() == 0 {
        armed
    } else if actions.last() is StartGuard {
        true
    } else if actions.last() is ClearGuard {
        false
    } else {
        guard_armed(armed, actions.drop_last())
    }
}

/// The first failure of a running session is silent: the child is forked anew
/// behind a guard, and the host is told nothing.
pub proof fn law_first_failure_is_silent(s: SessionView, ev: SessionEvent)
    requires
        !s.is_over(),
        !s.retried,
        ev.is_failure(),
    ensures
        s.step(ev).0 == (SessionView { state: State::Connecting, retried: true, ..s }),
        s.step(ev).1 == seq![
            ActionView::KillChild,
            ActionView::ForkChild,
            ActionView::StartGuard,
        ],
{
}

/// A second failure gives up, and tells the host so with the reason.
pub proof fn law_second_failure_falls_back(s: SessionView, ev: SessionEvent)
    requires
        !s.is_over(),
        s.retried,
        ev.is_failure(),
    ensures
        s.step(ev).0 == (SessionView { state: State::Failed, ..s }),
        s.step(ev).1 == seq![
            ActionView::KillChild,
            ActionView::ClearGuard,
            ActionView::EmitFailed(
                match ev {
                    SessionEvent::EngineError(msg) => msg,
                    SessionEvent::ChildExit => "child exited"@,
                    _ => "timeout"@,
                },
            ),
        ],
{
}

/// Once a session has failed, ended or is stopping, a failure calls for
/// nothing. All it can change is that the exit of the child ends a stopping
/// session.
pub proof fn law_late_failure_is_ignored(s: SessionView, ev: SessionEvent)
    requires
        s.is_over(),
        ev.is_failure(),
    ensures
        s.step(ev).1 == Seq::<ActionView>::empty(),
        s.step(ev).0 == if s.state is Stopping && ev is ChildExit {
            SessionView { state: State::Ended, ..s }
        } else {
            s
        },
{
}

#[verifier::spinoff_prover]
proof fn lemma_forks_of_step(s: SessionView, ev: SessionEvent)
    ensures
        forks(s.step(ev).1) == (if ev is Start {
            1nat
        } else {
            0nat
        }) + (if !s.retried && s.step(ev).0.retried {
            1nat
        } else {
            0nat
        }),
        s.retried ==> s.step(ev).0.retried,
        ev is Start ==> s.step(ev).0.retried == s.retried,
{
    reveal_with_fuel(Seq::filter, 5);
    let acts = s.step(ev).1;
    if acts.len() > 0 {
        assert(acts.drop_last().len() == acts.len() - 1);
    }
    assert(acts.len() >= 1 ==> acts.drop_last() =~= acts.take(acts.len() - 1));
}

/// The silent retry happens at most once in a session's life: whatever
/// happens to it, a child is forked once for each start and once more exactly
/// where the retry has been spent.
pub proof fn law_retries_once(evs: Seq<SessionEvent>)
    ensures
        forks(SessionView::fresh().actions(evs)) == starts(evs) + if SessionView::fresh().after(
            evs,
        ).retried {
            1nat
        } else {
            0nat
        },
    decreases evs.len(),
{
    reveal(Seq::filter);
    if evs.len() > 0 {
        let before = evs.drop_last();
        let s = SessionView::fresh().after(before);
        law_retries_once(before);
        lemma_forks_of_step(s, evs.last());
        let fork = |a: ActionView| a is ForkChild;
        Seq::filter_distributes_over_add(
            SessionView::fresh().actions(before),
            s.step(evs.last()).1,
            fork,
        );
    }
}

impl SessionView {
    /// The actions that the failures among `evs` call for, in order.
    pub open spec fn failure_actions(self, evs: Seq<SessionEvent>) -> Seq<ActionView>
        decreases evs.len(),
    {
        if evs.len() == 0 {
            seq![]
        } else if evs.last().is_failure() {
            self.failure_actions(evs.drop_last()) + self.after(evs.drop_last()).step(evs.last()).1
        } else {
            self.failure_actions(evs.drop_last())
        }
    }
}

/// Over a session's whole life the failures together fork a child at most once,
/// however often the engine came up in between: once where the retry has been
/// spent, and not at all before.
pub proof fn law_failures_fork_at_most_once(evs: Seq<SessionEvent>)
    ensures
        forks(SessionView::fresh().failure_actions(evs)) <= 1,
        forks(SessionView::fresh().failure_actions(evs)) == if SessionView::fresh().after(
            evs,
        ).retried {
            1nat
        } else {
            0nat
        },
    decreases evs.len(),
{
    reveal(Seq::filter);
    if evs.len() > 0 {
        let before = evs.drop_last();
        let s = SessionView::fresh().after(before);
        law_failures_fork_at_most_once(before);
        lemma_forks_of_step(s, evs.last());
        let fork = |a: ActionView| a is ForkChild;
        Seq::filter_distributes_over_add(
            SessionView::fresh().failure_actions(before),
            s.step(evs.last()).1,
            fork,
        );
    }
}

/// Only a failure spends the retry, and once spent it stays so.
pub proof fn law_retry_stays_spent(s: SessionView, ev: SessionEvent, evs: Seq<SessionEvent>)
    ensures
        !s.retried && s.step(ev).0.retried ==> ev.is_failure(),
        s.retried ==> s.after(evs).retried,
    decreases evs.len(),
{
    if evs.len() > 0 {
        law_retry_stays_spent(s, ev, evs.drop_last());
    }
}

/// From the stop of a session on, whatever arrives short of a new start or
/// another stop calls for nothing, a late report that the engine is up included,
/// and the session is neither live nor failed. It has ended once the child is
/// gone.
pub proof fn law_stop_wins(s: SessionView, evs: Seq<SessionEvent>)
    requires
        forall|i: int|
            0 <= i < evs.len() ==> (#[trigger] evs[i]).is_failure() || evs[i] is Reconfigure
                || evs[i] is EngineStarted,
    ensures
        s.step(SessionEvent::Stop).0.actions(evs) == Seq::<ActionView>::empty(),
        ({
            let end = s.step(SessionEvent::Stop).0.after(evs);
            if evs.contains(SessionEvent::ChildExit) {
                end.state is Ended
            } else {
                end.state is Stopping
            }
        }),
    decreases evs.len(),
{
    if evs.len() > 0 {
        let before = evs.drop_last();
        assert forall|i: int| 0 <= i < before.len() implies (#[trigger] before[i]).is_failure()
            || before[i] is Reconfigure || before[i] is EngineStarted by {
            assert(before[i] == evs[i]);
        }
        law_stop_wins(s, before);
        let last = evs[evs.len() - 1];
        assert(last.is_failure() || last is Reconfigure || last is EngineStarted);
        assert(evs.contains(SessionEvent::ChildExit) == (before.contains(SessionEvent::ChildExit)
            || last is ChildExit)) by {
            if before.contains(SessionEvent::ChildExit) {
                let k = choose|k: int|
                    0 <= k < before.len() && before[k] == SessionEvent::ChildExit;
                assert(evs[k] == SessionEvent::ChildExit);
            }
            if evs.contains(SessionEvent::ChildExit) && !(last is ChildExit) {
                let k = choose|k: int| 0 <= k < evs.len() && evs[k] == SessionEvent::ChildExit;
                assert(before[k] == SessionEvent::ChildExit);
            }
        }
    }
}

/// A `Reconfigure` that comes while the engine is not up is held through
/// anything but another `Reconfigure` or a start of the engine, and is the last
/// thing that the start forwards, unless the session is over by then. It is
/// forwarded once.
pub proof fn law_reconfigure_is_replayed(s: SessionView, q: Quality, evs: Seq<SessionEvent>)
    requires
        !(s.state is Live),
        forall|i: int|
            0 <= i < evs.len() ==> !(#[trigger] evs[i] is Reconfigure) && !(evs[i]
                is EngineStarted),
        !s.step(SessionEvent::Reconfigure(q)).0.after(evs).is_over(),
    ensures
        ({
            let held = s.step(SessionEvent::Reconfigure(q)).0.after(evs);
            let (live, acts) = held.step(SessionEvent::EngineStarted);
            &&& s.step(SessionEvent::Reconfigure(q)).1 == Seq::<ActionView>::empty()
            &&& acts == seq![
                ActionView::ClearGuard,
                ActionView::EmitStarted,
                ActionView::ForwardReconfigure(q),
            ]
            &&& live.state is Live
            &&& live.step(SessionEvent::EngineStarted).1 == seq![
                ActionView::ClearGuard,
                ActionView::EmitStarted,
            ]
        }),
{
    lemma_pending_is_kept(s.step(SessionEvent::Reconfigure(q)).0, evs);
}

proof fn lemma_pending_is_kept(s: SessionView, evs: Seq<SessionEvent>)
    requires
        forall|i: int|
            0 <= i < evs.len() ==> !(#[trigger] evs[i] is Reconfigure) && !(evs[i]
                is EngineStarted),
    ensures
        s.after(evs).pending == s.pending,
    decreases evs.len(),
{
    if evs.len() > 0 {
        let before = evs.drop_last();
        assert forall|i: int| 0 <= i < before.len() implies !(#[trigger] before[i] is Reconfigure)
            && !(before[i] is EngineStarted) by {
            assert(before[i] == evs[i]);
        }
        lemma_pending_is_kept(s, before);
        let last = evs[evs.len() - 1];
        assert(!(last is Reconfigure) && !(last is EngineStarted));
    }
}

/// A session is live exactly from a report that the engine is up, made before the
/// session is over, until something other than a `Reconfigure` or another such
/// report happens to it.
pub proof fn law_live_means_started(s: SessionView, ev: SessionEvent)
    ensures
        s.step(ev).0.state is Live <==> (ev is EngineStarted && !s.is_over()) || (s.state is Live
            && ev is Reconfigure),
{
}

/// The host is told of a failure exactly when a session gives up.
pub proof fn law_failure_is_reported_once(s: SessionView, ev: SessionEvent)
    ensures
        (exists|i: int|
            0 <= i < s.step(ev).1.len() && #[trigger] s.step(ev).1[i] is EmitFailed) <==> (!(
        s.state is Failed) && s.step(ev).0.state is Failed),
{
    let acts = s.step(ev).1;
    if !(s.state is Failed) && s.step(ev).0.state is Failed {
        assert(acts[2] is EmitFailed);
    }
}

proof fn lemma_guard_concat(armed: bool, a: Seq<ActionView>, b: Seq<ActionView>)
    ensures
        guard_armed(armed, a + b) == guard_armed(guard_armed(armed, a), b),
    decreases b.len(),
{
    if b.len() == 0 {
        assert(a + b =~= a);
    } else {
        lemma_guard_concat(armed, a, b.drop_last());
        assert((a + b).drop_last() =~= a + b.drop_last());
    }
}

#[verifier::spinoff_prover]
proof fn lemma_guard_of_step(s: SessionView, ev: SessionEvent)
    ensures
        guard_armed(s.state is Connecting, s.step(ev).1) == (s.step(ev).0.state is Connecting),
{
    let armed = s.state is Connecting;
    let acts = s.step(ev).1;
    assert(guard_armed(armed, seq![]) == armed);
    if acts.len() > 0 && !(acts.last() is StartGuard || acts.last() is ClearGuard) {
        let one = acts.drop_last();
        if !(one.last() is ClearGuard) {
            let two = one.drop_last();
            assert(two.last() is ClearGuard);
            assert(!guard_armed(armed, two));
        }
        assert(!guard_armed(armed, one));
    }
}

/// The startup guard is armed exactly while a session is connecting, whatever
/// has happened to it.
pub proof fn law_guard_covers_connecting(evs: Seq<SessionEvent>)
    ensures
        guard_armed(false, SessionView::fresh().actions(evs)) <==> SessionView::fresh().after(
            evs,
        ).state is Connecting,
    decreases evs.len(),
{
    if evs.len() > 0 {
        let before = evs.drop_last();
        let s = SessionView::fresh().after(before);
        let acts = s.step(evs.last()).1;
        law_guard_covers_connecting(before);
        lemma_guard_concat(false, SessionView::fresh().actions(before), acts);
        lemma_guard_of_step(s, evs.last());
    }
}

/// A session begins idle, with its retry unspent and nothing held.
pub proof fn law_session_begins_idle()
    ensures
        SessionView::fresh().state is Idle,
        !SessionView::fresh().retried,
        SessionView::fresh().pending is None,
{
}

/// Whatever has happened, a stop kills the child and disarms the guard, and the
/// session is then stopping.
pub proof fn law_stop_kills_from_any_state(s: SessionView)
    ensures
        s.step(SessionEvent::Stop).1 == seq![ActionView::KillChild, ActionView::ClearGuard],
        s.step(SessionEvent::Stop).0.state is Stopping,
        s.step(SessionEvent::Stop).0.retried == s.retried,
        s.step(SessionEvent::Stop).0.pending == s.pending,
{
}

/// Whatever has happened, a start forks a child behind a guard, and the session
/// is then connecting.
pub proof fn law_start_forks_from_any_state(s: SessionView)
    ensures
        s.step(SessionEvent::Start).1 == seq![ActionView::ForkChild, ActionView::StartGuard],
        s.step(SessionEvent::Start).0.state is Connecting,
        s.step(SessionEvent::Start).0.retried == s.retried,
        s.step(SessionEvent::Start).0.pending == s.pending,
{
}

/// The engine's start disarms the guard and is told to the host, and forwards
/// what is held and nothing else; a session that is over takes no notice of it.
pub proof fn law_engine_start_is_told(s: SessionView)
    ensures
        ({
            let (end, acts) = s.step(SessionEvent::EngineStarted);
            if s.state is Failed || s.state is Ended || s.state is Stopping {
                end == s && acts.len() == 0
            } else {
                &&& end.state is Live
                &&& end.retried == s.retried
                &&& end.pending is None
                &&& acts.len() == if s.pending is None {
                    2nat
                } else {
                    3nat
                }
                &&& acts[0] is ClearGuard
                &&& acts[1] is EmitStarted
                &&& s.pending matches Some(q) ==> acts[2] == ActionView::ForwardReconfigure(q)
            }
        }),
{
}

/// A `Reconfigure` calls for nothing. A live session does not change by it; any
/// other holds the rung that was asked for last.
pub proof fn law_reconfigure_is_held(s: SessionView, q: Quality)
    ensures
        ({
            let (end, acts) = s.step(SessionEvent::Reconfigure(q));
            &&& acts.len() == 0
            &&& end.state == s.state
            &&& end.retried == s.retried
            &&& end.pending == if s.state is Live {
                s.pending
            } else {
                Some(q)
            }
        }),
{
}

/// A control message is heeded for what it says.
pub proof fn law_control_is_heeded(m: ControlMsg)
    ensures
        match m {
            ControlMsg::Stop => control_event(m) is Stop,
            ControlMsg::Reconfigure(q) => control_event(m) == SessionEvent::Reconfigure(q),
        },
{
}

/// Whether a child runs once the actions are carried out, given whether one did:
/// a fork starts one, a kill ends it.
pub open spec fn child_runs(runs: bool, actions: Seq<ActionView>) -> bool
    decreases actions.len(),
{
    if actions.len() == 0 {
        runs
    } else if actions.last() is ForkChild {
        true
    } else if actions.last() is KillChild {
        false
    } else {
        child_runs(runs, actions.drop_last())
    }
}

proof fn lemma_child_concat(runs: bool, a: Seq<ActionView>, b: Seq<ActionView>)
    ensures
        child_runs(runs, a + b) == child_runs(child_runs(runs, a), b),
    decreases b.len(),
{
    if b.len() == 0 {
        assert(a + b =~= a);
    } else {
        lemma_child_concat(runs, a, b.drop_last());
        assert((a + b).drop_last() =~= a + b.drop_last());
    }
}

#[verifier::spinoff_prover]
proof fn lemma_child_of_step(s: SessionView, ev: SessionEvent, runs: bool)
    requires
        s.is_over() ==> !runs,
        s.state is Connecting ==> runs,
    ensures
        s.step(ev).0.is_over() ==> !child_runs(runs, s.step(ev).1),
        s.step(ev).0.state is Connecting ==> child_runs(runs, s.step(ev).1),
{
    reveal_with_fuel(child_runs, 4);
    let acts = s.step(ev).1;
    assert(child_runs(runs, seq![]) == runs);
    if acts.len() > 0 {
        let one = acts.drop_last();
        assert(one.len() == acts.len() - 1);
        if one.len() > 0 {
            let two = one.drop_last();
            assert(two.len() == one.len() - 1);
            if two.len() > 0 {
                assert(two.drop_last().len() == two.len() - 1);
            }
        }
    }
}

/// No child outlives its session, whatever happens: once it has failed, ended or
/// is stopping none runs, and while it is connecting one does.
pub proof fn law_no_child_outlives_session(evs: Seq<SessionEvent>)
    ensures
        ({
            let end = SessionView::fresh().after(evs);
            let runs = child_runs(false, SessionView::fresh().actions(evs));
            &&& end.state is Failed || end.state is Ended || end.state is Stopping ==> !runs
            &&& end.state is Connecting ==> runs
        }),
    decreases evs.len(),
{
    if evs.len() > 0 {
        let before = evs.drop_last();
        let s = SessionView::fresh().after(before);
        let acts = SessionView::fresh().actions(before);
        law_no_child_outlives_session(before);
        lemma_child_of_step(s, evs.last(), child_runs(false, acts));
        lemma_child_concat(false, acts, s.step(evs.last()).1);
    }
}

/// The actions that a caller gets are the listed ones: as many, and each in its
/// place, with its text and its rung.
pub proof fn law_actions_are_as_listed(actions: Seq<Action>, listed: Seq<ActionView>, i: int)
    requires
        are_actions(actions, listed),
        0 <= i < listed.len(),
    ensures
        actions.len() == listed.len(),
        match actions[i] {
            Action::ForkChild => listed[i] is ForkChild,
            Action::KillChild => listed[i] is KillChild,
            Action::EmitStarted => listed[i] is EmitStarted,
            Action::EmitFailed(m) => listed[i] == ActionView::EmitFailed(m@),
            Action::StartGuard => listed[i] is StartGuard,
            Action::ClearGuard => listed[i] is ClearGuard,
            Action::ForwardReconfigure(q) => listed[i] == ActionView::ForwardReconfigure(q),
        },
{
    assert(actions[i]@ == listed[i]);
}

/// An event of the engine is seen for what it is, with its figures and its text.
pub proof fn law_event_is_seen_as_it_is<F>(e: EngineEvent<F>)
    ensures
        match e {
            EngineEvent::Started => e@ is Started,
            EngineEvent::Stats(s) => e@ == EngineEventView::Stats(s),
            EngineEvent::Error(m) => e@ == EngineEventView::<F>::Error(m@),
            EngineEvent::Ended => e@ is Ended,
        },
{
}

} // verus!
