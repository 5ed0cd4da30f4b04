use poshumim_hwscreen::logic::pacing::{FramePacer, Instant};
use std::time::Duration;

fn start() -> Instant {
    let clock = std::time::Instant::now();
    Instant { nanos: 1_000_000_000 + clock.elapsed().as_nanos() }
}

fn after(t: Instant, d: Duration) -> Instant {
    Instant { nanos: t.nanos + d.as_nanos() }
}

#[test]
fn emits_at_the_target_rate() {
    let t0 = start();
    let mut p = FramePacer::new(30); // 33.33 ms
    assert!(p.tick(t0), "first tick emits");
    assert!(!p.tick(after(t0, Duration::from_millis(10))), "too soon");
    assert!(p.tick(after(t0, Duration::from_millis(34))), "one interval later");
    assert!(!p.tick(after(t0, Duration::from_millis(40))));
    assert!(p.tick(after(t0, Duration::from_millis(67))));
}

#[test]
fn a_long_stall_does_not_burst() {
    let t0 = start();
    let mut p = FramePacer::new(60);
    assert!(p.tick(t0));
    // 500 ms gap ~ 30 missed slots; only ONE catch-up frame, then back to cadence.
    assert!(p.tick(after(t0, Duration::from_millis(500))));
    assert!(!p.tick(after(t0, Duration::from_millis(505))));
    assert!(p.tick(after(t0, Duration::from_millis(517))));
}

#[test]
fn set_fps_changes_cadence() {
    let t0 = start();
    let mut p = FramePacer::new(30);
    assert!(p.tick(t0));
    p.set_fps(60);
    assert!(!p.tick(after(t0, Duration::from_millis(10))));
    assert!(p.tick(after(t0, Duration::from_millis(17))));
}

fn interval(fps: u32) -> u128 {
    let t0 = start();
    let mut p = FramePacer::new(fps);
    assert!(p.tick(t0));
    p.next_deadline(t0).nanos - t0.nanos
}

#[test]
fn interval_is_the_duration_of_one_over_fps() {
    let mut rates: Vec<u32> = (0..3000).collect();
    let mut r: u32 = 1024;
    for _ in 0..9 {
        rates.push(r - 1);
        rates.push(r);
        rates.push(r + 1);
        r *= 5;
    }
    rates.push(2_000_000_000 - 1);
    rates.push(2_000_000_000);
    rates.push(2_000_000_000 + 1);
    rates.push(u32::MAX);
    let mut seed: u64 = 7;
    for _ in 0..20000 {
        seed = seed.wrapping_mul(6364136223846793005).wrapping_add(1442695040888963407);
        rates.push((seed >> 32) as u32);
        rates.push((seed >> 44) as u32);
    }
    for fps in rates {
        let expected = Duration::from_secs_f64(1.0 / fps.max(1) as f64);
        assert_eq!(interval(fps), expected.as_nanos(), "{fps}");
    }
}

#[test]
fn exact_intervals() {
    assert_eq!(interval(0), 1_000_000_000);
    assert_eq!(interval(1), 1_000_000_000);
    assert_eq!(interval(30), 33_333_333);
    assert_eq!(interval(60), 16_666_667);
}

#[test]
fn deadline_is_now_before_the_first_frame() {
    let t0 = start();
    let mut p = FramePacer::new(30);
    assert_eq!(p.next_deadline(t0), t0);
    assert!(p.tick(t0));
    assert_eq!(p.next_deadline(t0), after(t0, Duration::from_nanos(33_333_333)));
    assert_eq!(p.next_deadline(after(t0, Duration::from_secs(9))).nanos, t0.nanos + 33_333_333);
}

#[test]
fn late_frame_keeps_cadence() {
    let t0 = start();
    let mut p = FramePacer::new(100);
    assert!(p.tick(t0));
    assert!(p.tick(after(t0, Duration::from_millis(19))));
    assert_eq!(p.next_deadline(t0), after(t0, Duration::from_millis(20)));
    // a whole interval late: the cadence starts anew
    assert!(p.tick(after(t0, Duration::from_millis(30))));
    assert_eq!(p.next_deadline(t0), after(t0, Duration::from_millis(40)));
}

#[test]
fn rate_is_met_without_drift() {
    let t0 = start();
    let mut p = FramePacer::new(50);
    let mut n = 0;
    for ms in (0..10_000).step_by(7) {
        if p.tick(after(t0, Duration::from_millis(ms))) {
            n += 1;
        }
    }
    assert_eq!(n, 9_996 / 20 + 1);
}

#[test]
fn set_fps_keeps_the_last_frame() {
    let t0 = start();
    let mut p = FramePacer::new(10);
    assert!(p.tick(t0));
    p.set_fps(20);
    assert_eq!(p.next_deadline(t0), after(t0, Duration::from_millis(50)));
    p.set_fps(10);
    assert_eq!(p.next_deadline(t0), after(t0, Duration::from_millis(100)));
    let mut q = FramePacer::new(10);
    q.set_fps(20);
    assert_eq!(q.next_deadline(t0), t0);
}

#[test]
fn frames_are_spaced_on_the_whole() {
    let t0 = Instant { nanos: 5 };
    let mut p = FramePacer::new(60);
    let mut n: u128 = 0;
    for ms in [0u64, 3, 17, 49, 50, 51, 90, 400, 401, 417] {
        let t = after(t0, Duration::from_millis(ms));
        if p.tick(t) {
            n += 1;
            assert!((n - 1) * 16_666_667 <= t.nanos - t0.nanos);
        }
    }
    assert!(n >= 5);
}
