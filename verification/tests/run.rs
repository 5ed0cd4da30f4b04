use poshumim_hwscreen::engine::convert::ConverterDims;
use poshumim_hwscreen::engine::run::{Command, EngineLoop, LoopEvent, StartParams};
use poshumim_hwscreen::logic::control::{ControlMsg, EngineEvent, StatsSnapshot};
use poshumim_hwscreen::logic::pacing::Instant;
use poshumim_hwscreen::logic::quality::{encode_config, Quality};

fn at(ms: u128) -> Instant {
    Instant { nanos: ms * 1_000_000 }
}

fn params() -> StartParams {
    StartParams {
        ws_url: "ws://x".to_string(),
        token: "t".to_string(),
        monitor_x: -5,
        monitor_y: 6,
        quality: Quality::Low,
    }
}

fn step(l: &mut EngineLoop, ms: u128, ev: LoopEvent<f64>) -> Command<f64> {
    assert!(l.awaits(&ev));
    l.step(at(ms), ev)
}

/// A loop that has just announced its session and looks for messages.
fn running() -> EngineLoop {
    let mut l = EngineLoop::new(&params());
    assert!(matches!(step(&mut l, 0, LoopEvent::Done), Command::OpenCapture { x: -5, y: 6 }));
    let c = step(&mut l, 0, LoopEvent::Opened { width: 2560, height: 1440 });
    match c {
        Command::CreateConverter(d) => assert_eq!(
            d,
            ConverterDims { src_w: 2560, src_h: 1440, dst_w: 1280, dst_h: 720 }
        ),
        _ => panic!("converter"),
    }
    match step(&mut l, 0, LoopEvent::Done) {
        Command::Connect { ws_url, token } => {
            assert_eq!((ws_url.as_str(), token.as_str()), ("ws://x", "t"))
        }
        _ => panic!("connect"),
    }
    match step(&mut l, 0, LoopEvent::Done) {
        Command::Publish(cfg) => assert_eq!(cfg, encode_config(Quality::Low)),
        _ => panic!("publish"),
    }
    assert!(matches!(step(&mut l, 0, LoopEvent::Done), Command::Emit(EngineEvent::Started)));
    assert!(matches!(step(&mut l, 100, LoopEvent::Done), Command::PollControl));
    l
}

#[test]
fn frames_are_paced() {
    let mut l = running();
    assert!(matches!(step(&mut l, 100, LoopEvent::NoMessage), Command::PollFrame));
    // due, but nothing captured yet: the slot passes
    match step(&mut l, 100, LoopEvent::Frame(false)) {
        Command::Sleep { nanos } => assert_eq!(nanos, 10_000_000),
        _ => panic!("sleep"),
    }
    assert!(matches!(step(&mut l, 110, LoopEvent::Done), Command::PollControl));
    assert!(matches!(step(&mut l, 110, LoopEvent::NoMessage), Command::PollFrame));
    // captured, but not due
    match step(&mut l, 130, LoopEvent::Frame(true)) {
        Command::Sleep { nanos } => assert_eq!(nanos, 3_333_333),
        _ => panic!("sleep"),
    }
    step(&mut l, 134, LoopEvent::Done);
    step(&mut l, 134, LoopEvent::NoMessage);
    // due: the frame that was kept is pushed
    assert!(matches!(step(&mut l, 134, LoopEvent::Frame(false)), Command::PushFrame));
    assert!(matches!(step(&mut l, 200, LoopEvent::Done), Command::Sleep { nanos: 0 }));
}

#[test]
fn stats_once_a_second() {
    let mut l = running();
    step(&mut l, 100, LoopEvent::NoMessage);
    step(&mut l, 1099, LoopEvent::Frame(true));
    assert!(matches!(step(&mut l, 1100, LoopEvent::Done), Command::ReadStats));
    let s = StatsSnapshot { fps: 29.5, bitrate_kbps: 7, rtt_ms: 8 };
    match step(&mut l, 1101, LoopEvent::Stats(Some(s.clone()))) {
        Command::Emit(EngineEvent::Stats(t)) => assert_eq!(t, s),
        _ => panic!("stats"),
    }
    assert!(matches!(step(&mut l, 1105, LoopEvent::Done), Command::Sleep { .. }));
    step(&mut l, 1106, LoopEvent::Done);
    step(&mut l, 1106, LoopEvent::NoMessage);
    assert!(matches!(step(&mut l, 2104, LoopEvent::Frame(false)), Command::PushFrame));
    assert!(matches!(step(&mut l, 2104, LoopEvent::Done), Command::Sleep { .. }));
    step(&mut l, 2105, LoopEvent::Done);
    step(&mut l, 2105, LoopEvent::NoMessage);
    assert!(matches!(step(&mut l, 2105, LoopEvent::Frame(false)), Command::ReadStats));
    assert!(matches!(step(&mut l, 2105, LoopEvent::Stats(None)), Command::Sleep { .. }));
    step(&mut l, 2106, LoopEvent::Done);
    step(&mut l, 2106, LoopEvent::NoMessage);
    assert!(matches!(step(&mut l, 2106, LoopEvent::Frame(false)), Command::Sleep { .. }));
}

#[test]
fn reconfigure_moves_everything_to_the_new_rung() {
    let mut l = running();
    step(&mut l, 100, LoopEvent::NoMessage);
    assert!(matches!(step(&mut l, 100, LoopEvent::Frame(true)), Command::PushFrame));
    step(&mut l, 100, LoopEvent::Done);
    step(&mut l, 101, LoopEvent::Done);
    let m = LoopEvent::Message(ControlMsg::Reconfigure(Quality::High));
    match step(&mut l, 101, m) {
        Command::Reconfigure(cfg) => assert_eq!(cfg, encode_config(Quality::High)),
        _ => panic!("reconfigure"),
    }
    match step(&mut l, 101, LoopEvent::Done) {
        Command::ResizeConverter { width, height } => assert_eq!((width, height), (1920, 1080)),
        _ => panic!("resize"),
    }
    // the rest of the messages comes first
    assert!(matches!(step(&mut l, 101, LoopEvent::Done), Command::PollControl));
    step(&mut l, 101, LoopEvent::NoMessage);
    // 60 frames a second, counted from the last frame
    assert!(matches!(step(&mut l, 117, LoopEvent::Frame(false)), Command::PushFrame));
}

#[test]
fn stop_and_disconnect_end_the_session() {
    for ev in [LoopEvent::Message(ControlMsg::Stop), LoopEvent::Disconnected] {
        let mut l = running();
        assert!(matches!(step(&mut l, 100, ev), Command::CloseRoom));
        assert!(matches!(step(&mut l, 100, LoopEvent::Done), Command::Emit(EngineEvent::Ended)));
        assert!(matches!(step(&mut l, 100, LoopEvent::Done), Command::Exit));
        assert!(!l.awaits(&LoopEvent::<f64>::Done));
    }
}

#[test]
fn failures_are_told_once() {
    let mut l = EngineLoop::new(&params());
    match step(&mut l, 0, LoopEvent::Failed("no threads".to_string())) {
        Command::Emit(EngineEvent::Error(m)) => {
            assert_eq!(m, "tokio runtime build failed: no threads")
        }
        _ => panic!("error"),
    }
    assert!(matches!(step(&mut l, 0, LoopEvent::Done), Command::Exit));
    let mut l = running();
    step(&mut l, 100, LoopEvent::NoMessage);
    match step(&mut l, 100, LoopEvent::Failed("device lost".to_string())) {
        Command::Emit(EngineEvent::Error(m)) => assert_eq!(m, "device lost"),
        _ => panic!("error"),
    }
    assert!(matches!(step(&mut l, 100, LoopEvent::Done), Command::Exit));
}

#[test]
fn only_fitting_outcomes_are_awaited() {
    let l = EngineLoop::new(&params());
    assert!(!l.awaits(&LoopEvent::<f64>::NoMessage));
    assert!(!l.awaits(&LoopEvent::<f64>::Frame(true)));
    let l = running();
    assert!(!l.awaits(&LoopEvent::<f64>::Done));
    assert!(!l.awaits(&LoopEvent::<f64>::Failed(String::new())));
    assert!(l.awaits(&LoopEvent::<f64>::Disconnected));
}
