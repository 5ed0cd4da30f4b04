//! Frame pacing: when the next frame is due, and whether one is due now.
use vstd::prelude::*;

verus! {

/// A reading of a monotonic clock: nanoseconds since the clock's origin.
#[derive(Clone, Copy, PartialEq, Eq, Debug, Structural)]
pub struct Instant {
    pub nanos: u128,
}

/// Nanoseconds in one second.
pub const NANOS_PER_SEC: u64 = 1_000_000_000;

/// Whether the frame interval of `fps` is rounded up where one second divided
/// by `fps` lies exactly half-way between two nanoseconds. That happens at the
/// ten rates `1024 * 5^k`, and the interval is read off the binary64 quotient
/// `1 / fps`: it lies above the half at these seven rates, below it at
/// 16000000 and 80000000, and on it (to even, hence down) at 1024.
pub open spec fn half_rounds_up(fps: nat) -> bool {
    ||| fps == 5_120
    ||| fps == 25_600
    ||| fps == 128_000
    ||| fps == 640_000
    ||| fps == 3_200_000
    ||| fps == 400_000_000
    ||| fps == 2_000_000_000
}

/// The time between two frames at `fps` frames a second, to the nearest
/// nanosecond. A rate of zero counts as one.
pub open spec fn interval_of(fps: u32) -> nat {
    let rate: nat = if fps == 0 {
        1
    } else {
        fps as nat
    };
    let whole = NANOS_PER_SEC as nat / rate;
    let rest = NANOS_PER_SEC as nat % rate;
    if 2 * rest > rate || (2 * rest == rate && half_rounds_up(rate)) {
        whole + 1
    } else {
        whole
    }
}

fn interval_nanos(fps: u32) -> (r: u64)
    ensures
        r == interval_of(fps),
        r <= NANOS_PER_SEC,
{
    let rate: u64 = if fps == 0 {
        1
    } else {
        fps as u64
    };
    let whole: u64 = NANOS_PER_SEC / rate;
    let rest: u64 = NANOS_PER_SEC % rate;
    proof {
        lemma_interval_parts(rate as int);
    }
    let up = rate == 5_120 || rate == 25_600 || rate == 128_000 || rate == 640_000 || rate
        == 3_200_000 || rate == 400_000_000 || rate == 2_000_000_000;
    if 2 * rest > rate || (2 * rest == rate && up) {
        whole + 1
    } else {
        whole
    }
}

proof fn lemma_interval_parts(rate: int)
    requires
        rate >= 1,
    ensures
        NANOS_PER_SEC as int == rate * (NANOS_PER_SEC as int / rate) + NANOS_PER_SEC as int % rate,
        0 <= NANOS_PER_SEC as int / rate <= NANOS_PER_SEC,
        0 <= NANOS_PER_SEC as int % rate < rate,
        rate >= 2 ==> NANOS_PER_SEC as int / rate < NANOS_PER_SEC,
        rate == 1 ==> NANOS_PER_SEC as int % rate == 0,
{
    let n = NANOS_PER_SEC as int;
    let q = n / rate;
    vstd::arithmetic::div_mod::lemma_fundamental_div_mod(n, rate);
    assert(0 <= n % rate < rate) by (nonlinear_arith)
        requires
            rate >= 1,
    ;
    assert(0 <= q <= n && (rate >= 2 ==> q < n)) by (nonlinear_arith)
        requires
            rate >= 1,
            n == rate * q + n % rate,
            0 <= n % rate < rate,
            n == 1_000_000_000,
    ;
}

/// What a pacer knows: its interval and the time of the next frame, once a
/// first frame has been let through.
pub struct PacerView {
    pub interval: nat,
    pub next: Option<nat>,
}

impl PacerView {
    /// The next frame is due at `now`.
    pub open spec fn due(self, now: nat) -> bool {
        match self.next {
            None => true,
            Some(deadline) => now >= deadline,
        }
    }

    /// The pacer after it was asked at `now`. A frame that is let through less
    /// than one interval late keeps the cadence; one that is later starts it
    /// anew from `now`.
    pub open spec fn after_tick(self, now: nat) -> PacerView {
        match self.next {
            Some(deadline) if now < deadline => self,
            Some(deadline) if now < deadline + self.interval => PacerView {
                next: Some(deadline + self.interval),
                ..self
            },
            _ => PacerView { next: Some(now + self.interval), ..self },
        }
    }

    /// The pacer once its rate is `fps`: the frame that the pending deadline
    /// was counted from stays where it is.
    pub open spec fn with_fps(self, fps: u32) -> PacerView {
        let interval = interval_of(fps);
        PacerView {
            interval,
            next: match self.next {
                None => None,
                Some(deadline) => Some((deadline - self.interval + interval) as nat),
            },
        }
    }

    /// A deadline is never earlier than one interval after the clock's origin,
    /// and an interval is never longer than a second.
    pub open spec fn wf(self) -> bool {
        &&& self.interval <= NANOS_PER_SEC
        &&& self.next matches Some(deadline) ==> self.interval <= deadline
    }
}

/// Lets frames through at a target rate.
pub struct FramePacer {
    interval: u64,
    next: Option<u128>,
}

impl View for FramePacer {
    type V = PacerView;

    closed spec fn view(&self) -> PacerView {
        PacerView {
            interval: self.interval as nat,
            next: match self.next {
                None => None,
                Some(deadline) => Some(deadline as nat),
            },
        }
    }
}

impl FramePacer {
    /// What every pacer keeps.
    #[verifier::type_invariant]
    spec fn inv(self) -> bool {
        self@.wf()
    }

    /// A pacer that lets its first frame through at once.
    pub fn new(fps: u32) -> (p: FramePacer)
        ensures
            p@ == (PacerView { interval: interval_of(fps), next: None }),
            p@.wf(),
    {
        FramePacer { interval: interval_nanos(fps), next: None }
    }

    /// Changes the rate and moves the pending deadline to the new cadence,
    /// counted from the last frame.
    pub fn set_fps(&mut self, fps: u32)
        requires
            old(self)@.with_fps(fps).next matches Some(deadline) ==> deadline <= u128::MAX,
        ensures
            final(self)@ == old(self)@.with_fps(fps),
            final(self)@.wf(),
    {
        proof {
            use_type_invariant(&*self);
        }
        let interval: u64 = interval_nanos(fps);
        let next: Option<u128> = match self.next {
            None => None,
            Some(deadline) => Some(deadline - self.interval as u128 + interval as u128),
        };
        *self = FramePacer { interval, next };
    }

    /// When the next frame is due; `now` where no frame has been let through
    /// yet.
    pub fn next_deadline(&self, now: Instant) -> (deadline: Instant)
        ensures
            deadline.nanos == (match self@.next {
                None => now.nanos as nat,
                Some(deadline) => deadline,
            }),
    {
        match self.next {
            None => now,
            Some(deadline) => Instant { nanos: deadline },
        }
    }

    /// Whether a frame is due at `now`; if it is, the next deadline is set.
    pub fn tick(&mut self, now: Instant) -> (emit: bool)
        requires
            old(self)@.due(now.nanos as nat) ==> (old(self)@.after_tick(
                now.nanos as nat,
            ).next matches Some(d) ==> d <= u128::MAX),
        ensures
            emit == old(self)@.due(now.nanos as nat),
            final(self)@ == old(self)@.after_tick(now.nanos as nat),
            final(self)@.wf(),
    {
        proof {
            use_type_invariant(&*self);
        }
        let interval: u128 = self.interval as u128;
        match self.next {
            None => {
                self.next = Some(now.nanos + interval);
                true
            },
            Some(deadline) => {
                if now.nanos < deadline {
                    false
                } else if now.nanos - deadline >= interval {
                    self.next = Some(now.nanos + interval);
                    true
                } else {
                    self.next = Some(deadline + interval);
                    true
                }
            },
        }
    }
}

/// The interval is the nearest whole number of nanoseconds to one second
/// divided by the rate, and no longer than a second.
pub proof fn law_interval_is_nearest(fps: u32)
    ensures
        ({
            let rate: int = if fps == 0 {
                1
            } else {
                fps as int
            };
            -rate <= 2 * (interval_of(fps) * rate - NANOS_PER_SEC) <= rate
        }),
        interval_of(fps) <= NANOS_PER_SEC,
{
    let rate: int = if fps == 0 {
        1
    } else {
        fps as int
    };
    lemma_interval_parts(rate);
    let whole = NANOS_PER_SEC as int / rate;
    assert((whole + 1) * rate == rate * whole + rate && whole * rate == rate * whole)
        by (nonlinear_arith);
}

/// After a frame is let through, the next deadline lies after it, by no more
/// than one interval.
pub proof fn law_deadline_follows_frame(p: PacerView, now: nat)
    requires
        p.wf(),
        p.interval > 0,
        p.due(now),
    ensures
        p.after_tick(now).next matches Some(deadline) && now < deadline <= now + p.interval,
{
}

/// After a stall of one interval or more exactly one frame makes up for it:
/// nothing more is let through until a full interval has passed.
pub proof fn law_stall_does_not_burst(p: PacerView, now: nat, later: nat)
    requires
        p.wf(),
        p.next matches Some(deadline) && deadline + p.interval <= now,
        now <= later,
    ensures
        p.due(now),
        p.after_tick(now).due(later) <==> now + p.interval <= later,
{
}

/// A frame that is less than one interval late does not shift the cadence.
pub proof fn law_late_frame_keeps_cadence(p: PacerView, now: nat)
    requires
        p.next matches Some(deadline) && deadline <= now < deadline + p.interval,
    ensures
        p.after_tick(now).next == Some((p.next->0 + p.interval) as nat),
{
}

/// Asking before the deadline lets nothing through and changes nothing.
pub proof fn law_early_tick_is_inert(p: PacerView, now: nat)
    requires
        !p.due(now),
    ensures
        p.after_tick(now) == p,
{
}

/// Changing the rate keeps the frame that the deadline is counted from, and a
/// change to the same rate changes nothing.
pub proof fn law_set_fps_keeps_last_frame(p: PacerView, fps: u32)
    requires
        p.wf(),
        p.next is Some,
    ensures
        p.with_fps(fps).next is Some,
        p.with_fps(fps).next->0 - p.with_fps(fps).interval == p.next->0 - p.interval,
        p.interval == interval_of(fps) ==> p.with_fps(fps) == p,
{
}

/// The pacer after it was asked at each of `times` in turn.
pub open spec fn after_ticks(p: PacerView, times: Seq<nat>) -> PacerView
    decreases times.len(),
{
    if times.len() == 0 {
        p
    } else {
        after_ticks(p, times.drop_last()).after_tick(times.last())
    }
}

/// How many frames it lets through.
pub open spec fn emitted(p: PacerView, times: Seq<nat>) -> nat
    decreases times.len(),
{
    if times.len() == 0 {
        0
    } else {
        let before = after_ticks(p, times.drop_last());
        emitted(p, times.drop_last()) + if before.due(times.last()) {
            1nat
        } else {
            0nat
        }
    }
}

/// The times do not go back.
pub open spec fn in_order(times: Seq<nat>) -> bool {
    forall|i: int, j: int| 0 <= i <= j < times.len() ==> times[i] <= times[j]
}

proof fn lemma_ticks_keep_interval(p: PacerView, times: Seq<nat>)
    requires
        p.wf(),
    ensures
        after_ticks(p, times).wf(),
        after_ticks(p, times).interval == p.interval,
    decreases times.len(),
{
    if times.len() > 0 {
        lemma_ticks_keep_interval(p, times.drop_last());
    }
}

proof fn lemma_deadline_grows(p: PacerView, times: Seq<nat>)
    requires
        p.wf(),
        p.interval > 0,
        times.len() > 0,
        in_order(times),
    ensures
        ({
            let n = emitted(p, times);
            &&& n >= 1 ==> (after_ticks(p, times).next matches Some(d) && d > times[0] + (n - 1)
                * p.interval)
            &&& n >= 2 ==> times.last() > times[0] + (n - 2) * p.interval
        }),
    decreases times.len(),
{
    let before = times.drop_last();
    let t = times.last();
    lemma_ticks_keep_interval(p, before);
    let i = p.interval as int;
    if before.len() > 0 {
        assert(in_order(before)) by {
            assert forall|a: int, b: int| 0 <= a <= b < before.len() implies before[a]
                <= before[b] by {
                assert(times[a] <= times[b]);
            }
        }
        assert(before[0] == times[0]);
        assert(before.last() == times[times.len() - 2]);
        lemma_deadline_grows(p, before);
        let m = emitted(p, before) as int;
        assert((m + 1 - 1) * i == (m - 1) * i + i) by (nonlinear_arith);
    }
    assert(times[0] <= t);
    assert((1 - 1) * i == 0);
}

/// A pacer never runs ahead of its rate, however it is asked: `n` frames let
/// through span more than `n - 2` intervals.
pub proof fn law_rate_is_bounded(p: PacerView, times: Seq<nat>)
    requires
        p.wf(),
        p.interval > 0,
        in_order(times),
        emitted(p, times) >= 2,
    ensures
        (emitted(p, times) - 2) * p.interval < times.last() - times[0],
{
    lemma_deadline_grows(p, times);
}

proof fn lemma_deadline_from_first(p: PacerView, times: Seq<nat>)
    requires
        p.wf(),
        p.next is None,
        times.len() > 0,
    ensures
        emitted(p, times) >= 1,
        after_ticks(p, times).next matches Some(d) && d >= times[0] + emitted(p, times)
            * p.interval,
    decreases times.len(),
{
    let before = times.drop_last();
    let i = p.interval as int;
    lemma_ticks_keep_interval(p, before);
    if before.len() == 0 {
        assert(after_ticks(p, before) == p && emitted(p, before) == 0);
        assert(1 * i == i);
    } else {
        lemma_deadline_from_first(p, before);
        assert(before[0] == times[0]);
        let n = emitted(p, before) as int;
        assert((n + 1) * i == n * i + i) by (nonlinear_arith);
    }
}

/// A fresh pacer keeps its frames at least one interval apart on the whole: where
/// the last of `times` lets the `n`-th frame through, it lies no less than
/// `n - 1` intervals after the first.
pub proof fn law_frames_are_spaced(p: PacerView, times: Seq<nat>)
    requires
        p.wf(),
        p.next is None,
        times.len() > 0,
        after_ticks(p, times.drop_last()).due(times.last()),
    ensures
        (emitted(p, times) - 1) * p.interval <= times.last() - times[0],
{
    let before = times.drop_last();
    assert(emitted(p, times) == emitted(p, before) + 1);
    if before.len() == 0 {
        assert(emitted(p, before) == 0);
        assert(0 * p.interval == 0);
        assert(times.last() == times[0]);
    } else {
        lemma_deadline_from_first(p, before);
        assert(before[0] == times[0]);
    }
}

/// A pacer that is asked at least once per interval meets its rate exactly:
/// after the first frame at `times[0]`, the `k`-th deadline lies `k` whole
/// intervals later, and one frame is let through for each interval begun.
pub proof fn law_rate_is_met(p: PacerView, times: Seq<nat>)
    requires
        p.wf(),
        p.interval > 0,
        p.next is None,
        times.len() > 0,
        in_order(times),
        forall|k: int| 0 <= k < times.len() - 1 ==> #[trigger] times[k + 1] - times[k]
            <= p.interval,
    ensures
        emitted(p, times) == (times.last() - times[0]) / (p.interval as int) + 1,
        after_ticks(p, times).next == Some(
            (times[0] + emitted(p, times) * p.interval) as nat,
        ),
    decreases times.len(),
{
    let before = times.drop_last();
    let t = times.last() as int;
    let i = p.interval as int;
    lemma_ticks_keep_interval(p, before);
    if before.len() == 0 {
        assert(times.last() == times[0]);
        assert(0int / i == 0) by (nonlinear_arith)
            requires
                i > 0,
        ;
        assert(after_ticks(p, before) == p && emitted(p, before) == 0);
        assert(1 * i == i);
    } else {
        assert(in_order(before)) by {
            assert forall|a: int, b: int| 0 <= a <= b < before.len() implies before[a]
                <= before[b] by {
                assert(times[a] <= times[b]);
            }
        }
        assert forall|k: int| 0 <= k < before.len() - 1 implies #[trigger] before[k + 1]
            - before[k] <= p.interval by {
            assert(times[k + 1] - times[k] <= p.interval);
        }
        assert(before[0] == times[0]);
        law_rate_is_met(p, before);
        let n = emitted(p, before) as int;
        let t0 = times[0] as int;
        let b = before.last() as int;
        assert(times[(times.len() - 2) + 1] - times[times.len() - 2] <= p.interval);
        assert(times[times.len() - 2] <= times[times.len() - 1]);
        assert(times[0] <= times[times.len() - 2]);
        let q = (b - t0) / i;
        assert(q * i <= b - t0 < q * i + i) by (nonlinear_arith)
            requires
                q == (b - t0) / i,
                i > 0,
        ;
        assert(n * i == q * i + i && (n + 1) * i == n * i + i) by (nonlinear_arith)
            requires
                n == q + 1,
        ;
        assert(after_ticks(p, before).next == Some((t0 + n * i) as nat));
        assert(emitted(p, times) == if t >= t0 + n * i {
            n + 1
        } else {
            n
        });
        if t >= t0 + n * i {
            assert((t - t0) / i == n) by (nonlinear_arith)
                requires
                    n * i <= t - t0 < n * i + i,
                    i > 0,
            ;
        } else {
            assert((t - t0) / i == q) by (nonlinear_arith)
                requires
                    q * i <= t - t0 < q * i + i,
                    i > 0,
            ;
        }
    }
}

/// Where one second falls exactly half-way between `whole` and `whole + 1`
/// intervals of a rate, the interval goes the way of the binary64 quotient: up at
/// seven of the ten such rates.
pub proof fn law_half_way_rates(fps: u32, whole: nat)
    requires
        fps > 0,
        2 * NANOS_PER_SEC == (2 * whole + 1) * fps,
    ensures
        interval_of(fps) == if fps == 5_120 || fps == 25_600 || fps == 128_000 || fps == 640_000
            || fps == 3_200_000 || fps == 400_000_000 || fps == 2_000_000_000 {
            whole + 1
        } else {
            whole
        },
{
    let n = NANOS_PER_SEC as int;
    let rate = fps as int;
    let w = whole as int;
    assert((2 * w + 1) * rate == 2 * (w * rate) + rate) by (nonlinear_arith);
    let rest = n - w * rate;
    assert(2 * rest == rate);
    vstd::arithmetic::div_mod::lemma_fundamental_div_mod_converse(n, rate, w, rest);
}

/// A frame is due from its deadline on, and at once where there is none yet. The
/// first frame is followed by the next one full interval later.
pub proof fn law_due_from_deadline(p: PacerView, now: nat)
    ensures
        p.next matches Some(deadline) ==> (p.due(now) <==> deadline <= now),
        p.next is None ==> p.due(now) && p.after_tick(now).next == Some(now + p.interval),
        p.after_tick(now).interval == p.interval,
{
}

/// A change of rate takes hold whatever went before it: the interval is that of
/// the new rate, a pacer without a frame stays without one, and of two changes
/// only the second counts.
pub proof fn law_set_fps_takes_hold(p: PacerView, a: u32, b: u32)
    requires
        p.wf(),
    ensures
        p.with_fps(a).interval == interval_of(a),
        p.next is None <==> p.with_fps(a).next is None,
        p.with_fps(a).with_fps(b) == p.with_fps(b),
        p.with_fps(a).wf(),
{
    law_interval_is_nearest(a);
}

} // verus!
