use poshumim_hwscreen::logic::control::{Action, ControlMsg, Session};
use poshumim_hwscreen::logic::quality::Quality;

#[test]
fn happy_path() {
    let mut s = Session::new();
    assert_eq!(s.start(), vec![Action::ForkChild, Action::StartGuard]);
    assert!(!s.is_live());
    assert_eq!(s.on_engine_started(), vec![Action::ClearGuard, Action::EmitStarted]);
    assert!(s.is_live());
    assert_eq!(s.stop(), vec![Action::KillChild, Action::ClearGuard]);
    let _ = s.on_child_exit();
    assert!(!s.is_live());
}

#[test]
fn first_failure_retries_silently_second_falls_back() {
    let mut s = Session::new();
    s.start();
    s.on_engine_started();
    // 1st failure -> silent re-fork
    assert_eq!(s.on_engine_error("gpu reset"), vec![Action::KillChild, Action::ForkChild, Action::StartGuard]);
    assert!(!s.fallback_engaged());
    s.on_engine_started();
    // 2nd failure -> give up
    assert_eq!(
        s.on_engine_error("gpu reset again"),
        vec![Action::KillChild, Action::ClearGuard, Action::EmitFailed("gpu reset again".into())]
    );
    assert!(s.fallback_engaged());
}

#[test]
fn guard_timeout_before_started_counts_as_a_failure() {
    let mut s = Session::new();
    s.start();
    assert_eq!(s.on_guard_timeout(), vec![Action::KillChild, Action::ForkChild, Action::StartGuard]);
    assert_eq!(
        s.on_guard_timeout(),
        vec![Action::KillChild, Action::ClearGuard, Action::EmitFailed("timeout".into())]
    );
}

#[test]
fn child_exit_before_started_is_a_failure_not_a_clean_end() {
    let mut s = Session::new();
    s.start();
    assert_eq!(s.on_child_exit(), vec![Action::KillChild, Action::ForkChild, Action::StartGuard]);
}

#[test]
fn reconfigure_before_live_is_replayed_after_started() {
    let mut s = Session::new();
    s.start();
    assert_eq!(s.on_control(ControlMsg::Reconfigure(Quality::High)), vec![]); // buffered
    let acts = s.on_engine_started();
    assert!(acts.contains(&Action::EmitStarted));
    assert!(acts.contains(&Action::ForwardReconfigure(Quality::High)));
}

#[test]
fn stop_wins_from_any_state() {
    let mut s = Session::new();
    s.start();
    assert_eq!(s.stop(), vec![Action::KillChild, Action::ClearGuard]);
    assert_eq!(s.on_engine_error("late error"), vec![]); // ignored after stop
}

#[test]
fn child_exit_names_itself() {
    let mut s = Session::default();
    s.start();
    s.on_guard_timeout();
    assert_eq!(
        s.on_child_exit(),
        vec![Action::KillChild, Action::ClearGuard, Action::EmitFailed("child exited".into())]
    );
    assert_eq!(s.on_child_exit(), vec![]);
    assert!(s.fallback_engaged());
}

#[test]
fn reconfigure_is_forwarded_once_and_the_last_wins() {
    let mut s = Session::new();
    assert_eq!(s.on_control(ControlMsg::Reconfigure(Quality::Low)), vec![]);
    s.start();
    s.on_guard_timeout();
    assert_eq!(s.on_control(ControlMsg::Reconfigure(Quality::High)), vec![]);
    assert_eq!(
        s.on_engine_started(),
        vec![Action::ClearGuard, Action::EmitStarted, Action::ForwardReconfigure(Quality::High)]
    );
    // live: the caller forwards it itself
    assert_eq!(s.on_control(ControlMsg::Reconfigure(Quality::Medium)), vec![]);
    assert_eq!(s.on_engine_started(), vec![Action::ClearGuard, Action::EmitStarted]);
}

#[test]
fn stop_by_control_message_then_exit_is_quiet() {
    let mut s = Session::new();
    s.start();
    s.on_engine_started();
    assert_eq!(s.on_control(ControlMsg::Stop), vec![Action::KillChild, Action::ClearGuard]);
    assert_eq!(s.on_guard_timeout(), vec![]);
    assert_eq!(s.on_child_exit(), vec![]);
    assert_eq!(s.on_child_exit(), vec![]);
    assert!(!s.fallback_engaged());
}

#[test]
fn a_child_is_forked_once_per_start_and_once_more() {
    let mut s = Session::new();
    let mut acts = s.start();
    for _ in 0..5 {
        acts.extend(s.on_engine_started());
        acts.extend(s.on_engine_error("x"));
    }
    assert_eq!(acts.iter().filter(|a| **a == Action::ForkChild).count(), 2);
}

#[test]
fn guard_is_armed_while_connecting() {
    let mut s = Session::new();
    let mut armed = false;
    let mut note = |acts: Vec<Action>| {
        for a in acts {
            match a {
                Action::StartGuard => armed = true,
                Action::ClearGuard => armed = false,
                _ => {}
            }
        }
        armed
    };
    assert!(note(s.start()));
    assert!(!note(s.on_engine_started()));
    assert!(note(s.on_engine_error("x")));
    assert!(!note(s.on_engine_error("y")));
    assert!(!note(s.on_child_exit()));
}

#[test]
fn late_started_does_not_undo_a_stop() {
    let mut s = Session::new();
    s.start();
    s.on_control(ControlMsg::Reconfigure(Quality::Low));
    s.stop();
    assert_eq!(s.on_engine_started(), vec![]);
    assert!(!s.is_live());
    assert_eq!(s.on_child_exit(), vec![]);
    assert_eq!(s.on_engine_started(), vec![]);
    assert!(!s.is_live());
}

#[test]
fn late_started_does_not_undo_the_fallback() {
    let mut s = Session::new();
    s.start();
    s.on_guard_timeout();
    s.on_guard_timeout();
    assert!(s.fallback_engaged());
    assert_eq!(s.on_engine_started(), vec![]);
    assert!(s.fallback_engaged());
    assert!(!s.is_live());
}

#[test]
fn failures_fork_at_most_once() {
    let mut s = Session::new();
    let mut forks = 0;
    for _ in 0..5 {
        s.start();
        s.on_engine_started();
        for acts in [s.on_engine_error("e"), s.on_child_exit(), s.on_guard_timeout()] {
            forks += acts.iter().filter(|a| **a == Action::ForkChild).count();
        }
        s.on_engine_started();
    }
    assert_eq!(forks, 1);
}
