use poshumim_hwscreen::engine::capture::RawMonitor;
use poshumim_hwscreen::engine::run::StartParams;
use poshumim_hwscreen::host::{
    list_monitors, reconfigure_message, EngineEventJs, MonitorJs, StartParamsJs,
};
use poshumim_hwscreen::logic::control::{ControlMsg, EngineEvent, StatsSnapshot};
use poshumim_hwscreen::logic::quality::Quality;

#[test]
fn monitors() {
    let raw = vec![
        RawMonitor { left: 0, top: 0, right: 800, bottom: 600, flags: 1 },
        RawMonitor { left: 800, top: -1, right: 900, bottom: 99, flags: 0 },
    ];
    assert_eq!(
        list_monitors(&raw),
        vec![
            MonitorJs { x: 0, y: 0, width: 800, height: 600, primary: true },
            MonitorJs { x: 800, y: -1, width: 100, height: 100, primary: false },
        ]
    );
}

#[test]
fn start_params() {
    let js = |quality: &str| StartParamsJs {
        ws_url: "ws://h".to_string(),
        token: "tok".to_string(),
        monitor_x: -1,
        monitor_y: 2,
        quality: quality.to_string(),
    };
    let p: StartParams = js("High").into();
    assert_eq!((p.ws_url.as_str(), p.token.as_str()), ("ws://h", "tok"));
    assert_eq!((p.monitor_x, p.monitor_y, p.quality), (-1, 2, Quality::High));
    assert_eq!(StartParams::from(js("turbo")).quality, Quality::Medium);
}

#[test]
fn events() {
    let js = EngineEventJs::from(EngineEvent::<f64>::Started);
    assert_eq!(js.kind, "started");
    assert!(js.fps.is_none() && js.bitrate_kbps.is_none() && js.rtt_ms.is_none());
    assert!(js.message.is_none());
    let s = StatsSnapshot { fps: 59.94, bitrate_kbps: 4000, rtt_ms: 12 };
    let js = EngineEventJs::from(EngineEvent::Stats(s));
    assert_eq!(js.kind, "stats");
    assert_eq!((js.fps, js.bitrate_kbps, js.rtt_ms), (Some(59.94), Some(4000), Some(12)));
    assert!(js.message.is_none());
    let js = EngineEventJs::from(EngineEvent::<f64>::Error("boom".to_string()));
    assert_eq!((js.kind.as_str(), js.message.as_deref()), ("error", Some("boom")));
    assert!(js.fps.is_none());
    let js = EngineEventJs::from(EngineEvent::<f64>::Ended);
    assert_eq!((js.kind.as_str(), js.message.as_deref()), ("ended", None));
}

#[test]
fn reconfigure_messages() {
    assert_eq!(reconfigure_message("low"), ControlMsg::Reconfigure(Quality::Low));
    assert_eq!(reconfigure_message("?"), ControlMsg::Reconfigure(Quality::Medium));
}
