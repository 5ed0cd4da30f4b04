use poshumim_hwscreen::engine::room::{probe_plan, RtcRow};
use poshumim_hwscreen::logic::pacing::Instant;
use poshumim_hwscreen::probe::grab::{first_frame_wait, GrabCommand, GrabEvent, GrabLoop};
use poshumim_hwscreen::probe::spike::{SpikeCommand, SpikeEvent, SpikeRun};

fn at(ms: u128) -> Instant {
    Instant { nanos: ms * 1_000_000 }
}

fn go(r: &mut SpikeRun, ms: u128, ev: SpikeEvent) -> SpikeCommand {
    assert!(r.awaits(&ev));
    r.step(at(ms), ev)
}

/// A run that has asked for its connection.
fn spike(seconds: u64) -> SpikeRun {
    let mut r = SpikeRun::new("ws://h".to_string(), "tok".to_string(), seconds);
    match go(&mut r, 0, SpikeEvent::Done) {
        SpikeCommand::Connect { ws_url, token } => {
            assert_eq!((ws_url.as_str(), token.as_str()), ("ws://h", "tok"))
        }
        _ => panic!("connect"),
    }
    r
}

fn connected() -> SpikeEvent {
    SpikeEvent::Connected { identity: "me".to_string(), room: "there".to_string() }
}

fn report(encoder: &str, frames: u32) -> Vec<RtcRow> {
    vec![RtcRow::OutboundRtp {
        kind: "video".to_string(),
        bytes_sent: 0,
        timestamp_us: 0,
        frames_encoded: frames,
        encoder: encoder.to_string(),
        limitation: "None".to_string(),
    }]
}

#[test]
fn spike_pushes_until_the_time_is_up() {
    let mut r = spike(1);
    assert!(!r.awaits(&SpikeEvent::Done));
    match go(&mut r, 0, connected()) {
        SpikeCommand::Publish(plan) => assert_eq!(plan, probe_plan(1280, 720)),
        _ => panic!("publish"),
    }
    assert!(matches!(go(&mut r, 500, SpikeEvent::Done), SpikeCommand::PushBars { shift: 0 }));
    assert!(matches!(go(&mut r, 500, SpikeEvent::Done), SpikeCommand::Sleep { millis: 33 }));
    r.saw(&report("first", 1));
    assert!(matches!(go(&mut r, 533, SpikeEvent::Done), SpikeCommand::PushBars { shift: 4 }));
    go(&mut r, 533, SpikeEvent::Done);
    assert!(matches!(go(&mut r, 1499, SpikeEvent::Done), SpikeCommand::PushBars { shift: 8 }));
    go(&mut r, 1499, SpikeEvent::Done);
    r.saw(&report("NVIDIA", 30));
    r.saw(&vec![RtcRow::Other]);
    assert!(matches!(go(&mut r, 1500, SpikeEvent::Done), SpikeCommand::StopStats));
    assert!(matches!(go(&mut r, 1500, SpikeEvent::Done), SpikeCommand::CloseRoom));
    match go(&mut r, 1500, SpikeEvent::Done) {
        SpikeCommand::Finish(Ok(s)) => assert_eq!(
            s,
            "{\"identity\":\"me\",\"room\":\"there\",\"encoder\":\"NVIDIA\",\"frames_encoded\":30,\"qlr\":\"None\",\"nvenc\":true}"
        ),
        _ => panic!("summary"),
    }
    assert!(!r.awaits(&SpikeEvent::Done));
}

#[test]
fn spike_of_no_time_pushes_nothing() {
    let mut r = spike(0);
    go(&mut r, 7, connected());
    assert!(matches!(go(&mut r, 7, SpikeEvent::Done), SpikeCommand::StopStats));
}

#[test]
fn spike_failures_end_it() {
    let mut r = spike(20);
    match go(&mut r, 0, SpikeEvent::Failed("refused".to_string())) {
        SpikeCommand::Finish(Err(m)) => assert_eq!(m, "refused"),
        _ => panic!("failure"),
    }
    let mut r = spike(20);
    go(&mut r, 0, connected());
    match go(&mut r, 0, SpikeEvent::Failed("no track".to_string())) {
        SpikeCommand::Finish(Err(m)) => assert_eq!(m, "no track"),
        _ => panic!("failure"),
    }
}

fn turn(l: &mut GrabLoop, ms: u128, ev: GrabEvent) -> GrabCommand {
    assert!(l.awaits(ev));
    l.step(at(ms), ev)
}

#[test]
fn grab_keeps_the_first_ten() {
    let mut l = GrabLoop::new();
    let mut c = turn(&mut l, 0, GrabEvent::Done);
    for n in 0..12u64 {
        match c {
            GrabCommand::Push { dump } => {
                let expected =
                    if n < 10 { Some(format!("wgc-dump/frame_{:02}.bmp", n)) } else { None };
                assert_eq!(dump, expected);
            }
            _ => panic!("push"),
        }
        assert_eq!(l.frames(), n);
        match turn(&mut l, 20, GrabEvent::Done) {
            GrabCommand::Sleep { nanos } => {
                assert_eq!(nanos, 23_000_000);
                turn(&mut l, 43, GrabEvent::Done);
            }
            GrabCommand::CheckStop => assert_eq!(n, 0),
            _ => panic!("rest"),
        }
        assert!(matches!(turn(&mut l, 10, GrabEvent::Stop(false)), GrabCommand::TryFrame));
        c = turn(&mut l, 11, GrabEvent::Frame(n % 2 == 0));
    }
    // a round that took too long is followed by the next at once
    assert!(matches!(turn(&mut l, 44, GrabEvent::Done), GrabCommand::CheckStop));
    assert!(matches!(turn(&mut l, 44, GrabEvent::Stop(true)), GrabCommand::Exit));
    assert_eq!(l.frames(), 13);
    assert!(!l.awaits(GrabEvent::Done));
}

#[test]
fn grab_ends_where_the_capture_fails() {
    let mut l = GrabLoop::new();
    turn(&mut l, 0, GrabEvent::Done);
    turn(&mut l, 0, GrabEvent::Done);
    turn(&mut l, 0, GrabEvent::Stop(false));
    assert!(matches!(turn(&mut l, 0, GrabEvent::Failed), GrabCommand::Exit));
    assert_eq!(l.frames(), 1);
}

#[test]
fn first_frame_is_waited_for() {
    assert_eq!(first_frame_wait(false), Some(5));
    assert_eq!(first_frame_wait(true), None);
}
