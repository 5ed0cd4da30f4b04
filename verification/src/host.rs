//! The host's side of a session: values as they come from and go to the
//! scripting layer.
use crate::engine::capture::{enumerate_monitors, MonitorRect, RawMonitor};
use crate::engine::run::StartParams;
use crate::logic::control::{ControlMsg, EngineEvent};
use crate::logic::quality::quality_or_medium;
use vstd::prelude::*;

verus! {

/// One monitor's rectangle on the virtual desktop and whether it is the primary
/// display. `x` and `y` are what a session is started with.
#[derive(Clone, Copy, PartialEq, Eq, Debug, Structural)]
pub struct MonitorJs {
    pub x: i32,
    pub y: i32,
    pub width: u32,
    pub height: u32,
    pub primary: bool,
}

/// A monitor for the host.
pub open spec fn monitor_js(m: MonitorRect) -> MonitorJs {
    MonitorJs { x: m.x, y: m.y, width: m.width, height: m.height, primary: m.primary }
}

/// Every monitor, in the order in which the system lists them.
pub fn list_monitors(raw: &Vec<RawMonitor>) -> (mons: Vec<MonitorJs>)
    requires
        forall|i: int|
            0 <= i < raw@.len() ==> crate::engine::capture::measurable(#[trigger] raw@[i]),
    ensures
        mons@.len() == raw@.len(),
        forall|i: int|
            0 <= i < raw@.len() ==> #[trigger] mons@[i] == monitor_js(
                crate::engine::capture::rect_of(raw@[i]),
            ),
{
    let rects = enumerate_monitors(raw);
    let mut mons: Vec<MonitorJs> = Vec::new();
    for i in 0..rects.len()
        invariant
            mons@.len() == i,
            forall|k: int| 0 <= k < i ==> #[trigger] mons@[k] == monitor_js(rects@[k]),
    {
        let m = rects[i];
        mons.push(
            MonitorJs { x: m.x, y: m.y, width: m.width, height: m.height, primary: m.primary },
        );
    }
    mons
}

/// The parameters of a session as they come from the host. `quality` names a
/// rung; an unknown name stands for `Medium`.
pub struct StartParamsJs {
    pub ws_url: String,
    pub token: String,
    pub monitor_x: i32,
    pub monitor_y: i32,
    pub quality: String,
}

impl From<StartParamsJs> for StartParams {
    fn from(j: StartParamsJs) -> (p: StartParams) {
        let quality = quality_or_medium(j.quality.as_str());
        StartParams {
            ws_url: j.ws_url,
            token: j.token,
            monitor_x: j.monitor_x,
            monitor_y: j.monitor_y,
            quality,
        }
    }
}

impl vstd::std_specs::convert::FromSpecImpl<StartParamsJs> for StartParams {
    open spec fn obeys_from_spec() -> bool {
        true
    }

    open spec fn from_spec(j: StartParamsJs) -> StartParams {
        StartParams {
            ws_url: j.ws_url,
            token: j.token,
            monitor_x: j.monitor_x,
            monitor_y: j.monitor_y,
            quality: crate::logic::quality::quality_or_medium_of(j.quality@),
        }
    }
}

/// An engine event for the host. `kind` is `started`, `stats`, `error` or
/// `ended`; the other fields are set for the kind that carries them, the three
/// figures for `stats` and the message for `error`.
pub struct EngineEventJs<F> {
    pub kind: String,
    pub fps: Option<F>,
    pub bitrate_kbps: Option<u32>,
    pub rtt_ms: Option<u32>,
    pub message: Option<String>,
}

/// `js` stands for the event `e`.
pub open spec fn is_event_js<F>(e: EngineEvent<F>, js: EngineEventJs<F>) -> bool {
    &&& js.kind@ == match e {
        EngineEvent::Started => "started"@,
        EngineEvent::Stats(_) => "stats"@,
        EngineEvent::Error(_) => "error"@,
        EngineEvent::Ended => "ended"@,
    }
    &&& match e {
        EngineEvent::Stats(s) => {
            &&& js.fps == Some(s.fps)
            &&& js.bitrate_kbps == Some(s.bitrate_kbps)
            &&& js.rtt_ms == Some(s.rtt_ms)
        },
        _ => js.fps is None && js.bitrate_kbps is None && js.rtt_ms is None,
    }
    &&& match e {
        EngineEvent::Error(m) => js.message matches Some(text) && text@ == m@,
        _ => js.message is None,
    }
}

impl<F> From<EngineEvent<F>> for EngineEventJs<F> {
    fn from(e: EngineEvent<F>) -> (js: EngineEventJs<F>)
        ensures
            is_event_js(e, js),
    {
        match e {
            EngineEvent::Started => EngineEventJs {
                kind: "started".to_string(),
                fps: None,
                bitrate_kbps: None,
                rtt_ms: None,
                message: None,
            },
            EngineEvent::Stats(s) => EngineEventJs {
                kind: "stats".to_string(),
                fps: Some(s.fps),
                bitrate_kbps: Some(s.bitrate_kbps),
                rtt_ms: Some(s.rtt_ms),
                message: None,
            },
            EngineEvent::Error(m) => EngineEventJs {
                kind: "error".to_string(),
                fps: None,
                bitrate_kbps: None,
                rtt_ms: None,
                message: Some(m),
            },
            EngineEvent::Ended => EngineEventJs {
                kind: "ended".to_string(),
                fps: None,
                bitrate_kbps: None,
                rtt_ms: None,
                message: None,
            },
        }
    }
}

impl<F> vstd::std_specs::convert::FromSpecImpl<EngineEvent<F>> for EngineEventJs<F> {
    open spec fn obeys_from_spec() -> bool {
        false
    }

    open spec fn from_spec(e: EngineEvent<F>) -> EngineEventJs<F> {
        choose|js: EngineEventJs<F>| is_event_js(e, js)
    }
}

/// The message by which the host switches rungs. An unknown name stands for
/// `Medium`.
pub fn reconfigure_message(quality: &str) -> (m: ControlMsg)
    ensures
        m == ControlMsg::Reconfigure(crate::logic::quality::quality_or_medium_of(quality@)),
{
    ControlMsg::Reconfigure(quality_or_medium(quality))
}

/// An event can be told from the kind that the host sees: two events with one
/// kind are of one variant.
pub proof fn law_kind_tells_the_event<F>(
    a: EngineEvent<F>,
    b: EngineEvent<F>,
    js_a: EngineEventJs<F>,
    js_b: EngineEventJs<F>,
)
    requires
        is_event_js(a, js_a),
        is_event_js(b, js_b),
        js_a.kind@ == js_b.kind@,
    ensures
        a is Started <==> b is Started,
        a is Stats <==> b is Stats,
        a is Error <==> b is Error,
        a is Ended <==> b is Ended,
{
    reveal_strlit("started");
    reveal_strlit("stats");
    reveal_strlit("error");
    reveal_strlit("ended");
    assert("started"@[4] == 't' && "stats"@[4] == 's' && "error"@[4] == 'r' && "ended"@[4] == 'd');
}

/// A monitor is listed with its own corner, size and mark.
pub proof fn law_monitor_is_listed_as_it_is(m: MonitorRect)
    ensures
        monitor_js(m).x == m.x,
        monitor_js(m).y == m.y,
        monitor_js(m).width == m.width,
        monitor_js(m).height == m.height,
        monitor_js(m).primary == m.primary,
{
}

/// The host sees the kind of an event by its name, the three figures of a sample
/// and no others, and the text of a failure and no other.
pub proof fn law_host_sees_the_event<F>(e: EngineEvent<F>, js: EngineEventJs<F>)
    requires
        is_event_js(e, js),
    ensures
        match e {
            EngineEvent::Started => js.kind@ == "started"@,
            EngineEvent::Stats(_) => js.kind@ == "stats"@,
            EngineEvent::Error(_) => js.kind@ == "error"@,
            EngineEvent::Ended => js.kind@ == "ended"@,
        },
        js.fps is Some <==> e is Stats,
        js.bitrate_kbps is Some <==> e is Stats,
        js.rtt_ms is Some <==> e is Stats,
        js.message is Some <==> e is Error,
        e matches EngineEvent::Stats(s) ==> js.fps == Some(s.fps) && js.bitrate_kbps == Some(
            s.bitrate_kbps,
        ) && js.rtt_ms == Some(s.rtt_ms),
        e matches EngineEvent::Error(m) ==> js.message->0@ == m@,
{
}

/// A session is started with what the host gave, at the rung that it named or at
/// `Medium`.
pub proof fn law_session_starts_as_the_host_says(j: StartParamsJs)
    ensures
        ({
            let p = <StartParams as vstd::std_specs::convert::FromSpec<StartParamsJs>>::from_spec(
                j,
            );
            let named = crate::logic::quality::quality_named(j.quality@);
            &&& p.ws_url == j.ws_url
            &&& p.token == j.token
            &&& p.monitor_x == j.monitor_x
            &&& p.monitor_y == j.monitor_y
            &&& named is Some ==> named == Some(p.quality)
            &&& named is None ==> p.quality is Medium
        }),
{
}

} // verus!
