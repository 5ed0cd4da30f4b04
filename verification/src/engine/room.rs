//! The published track: what is asked of the encoder, when a track has to be
//! taken down first, and what is read out of the send-side statistics.
use crate::logic::quality::EncodeConfig;
use vstd::prelude::*;

verus! {

/// What a track shows.
#[derive(Clone, Copy, PartialEq, Eq, Debug, Structural)]
pub enum TrackSource {
    Unknown,
    Camera,
    Microphone,
    Screenshare,
    ScreenshareAudio,
}

/// How a track is coded.
#[derive(Clone, Copy, PartialEq, Eq, Debug, Structural)]
pub enum VideoCodec {
    VP8,
    H264,
    VP9,
    AV1,
    H265,
}

/// Which encoder is asked for.
#[derive(Clone, Copy, PartialEq, Eq, Debug, Structural)]
pub enum EncoderBackend {
    Auto,
    Software,
    Hardware,
    Nvenc,
}

/// What a track is published with.
#[derive(Clone, Copy, PartialEq, Eq, Debug, Structural)]
pub struct PublishPlan {
    pub width: u32,
    pub height: u32,
    pub source: TrackSource,
    pub codec: VideoCodec,
    pub backend: EncoderBackend,
    /// Bits per second.
    pub max_bitrate: u64,
    /// Frames per second.
    pub max_framerate: u32,
    pub simulcast: bool,
}

/// The plan for an encoder setting: an H.264 screen share on the graphics card's
/// own encoder, of its size, its rate and its bitrate in bits, as one single
/// layer.
pub open spec fn publish_plan_of(cfg: EncodeConfig) -> PublishPlan {
    PublishPlan {
        width: cfg.width,
        height: cfg.height,
        source: TrackSource::Screenshare,
        codec: VideoCodec::H264,
        backend: EncoderBackend::Nvenc,
        max_bitrate: (cfg.max_bitrate_kbps * 1000) as u64,
        max_framerate: cfg.fps,
        simulcast: false,
    }
}

/// The plan for an encoder setting.
pub fn publish_plan(cfg: EncodeConfig) -> (p: PublishPlan)
    ensures
        p == publish_plan_of(cfg),
        p.width == cfg.width,
        p.height == cfg.height,
        p.max_framerate == cfg.fps,
        p.codec is H264,
        p.source is Screenshare,
        p.backend is Nvenc,
        !p.simulcast,
        p.max_bitrate == cfg.max_bitrate_kbps * 1000,
{
    PublishPlan {
        width: cfg.width,
        height: cfg.height,
        source: TrackSource::Screenshare,
        codec: VideoCodec::H264,
        backend: EncoderBackend::Nvenc,
        max_bitrate: cfg.max_bitrate_kbps as u64 * 1000,
        max_framerate: cfg.fps,
        simulcast: false,
    }
}

/// What a probe publishes its track with. The rest is left to the room's client.
#[derive(Clone, Copy, PartialEq, Eq, Debug, Structural)]
pub struct ProbePlan {
    pub width: u32,
    pub height: u32,
    pub source: TrackSource,
    pub codec: VideoCodec,
    pub backend: EncoderBackend,
}

/// The plan of a probe: an H.264 screen share of the given size on the graphics
/// card's own encoder.
pub open spec fn probe_plan_of(width: u32, height: u32) -> ProbePlan {
    ProbePlan {
        width,
        height,
        source: TrackSource::Screenshare,
        codec: VideoCodec::H264,
        backend: EncoderBackend::Nvenc,
    }
}

/// The plan of a probe.
pub fn probe_plan(width: u32, height: u32) -> (p: ProbePlan)
    ensures
        p == probe_plan_of(width, height),
        p.width == width,
        p.height == height,
        p.codec is H264,
        p.source is Screenshare,
        p.backend is Nvenc,
{
    ProbePlan {
        width,
        height,
        source: TrackSource::Screenshare,
        codec: VideoCodec::H264,
        backend: EncoderBackend::Nvenc,
    }
}

/// One codec of a statistics report: the name that rows refer to it by, and its
/// number.
pub struct CodecRow {
    pub id: String,
    pub number: u32,
}

/// The number of the codec that a row refers to: that of the first codec of this
/// name, if the report has one.
pub fn codec_number(codecs: &Vec<CodecRow>, id: &str) -> (r: Option<u32>)
    ensures
        match r {
            Some(n) => exists|i: int|
                #![trigger codecs@[i]]
                0 <= i < codecs@.len() && codecs@[i].id@ == id@ && codecs@[i].number == n && (
                forall|k: int| 0 <= k < i ==> (#[trigger] codecs@[k]).id@ != id@),
            None => forall|k: int| 0 <= k < codecs@.len() ==> (#[trigger] codecs@[k]).id@ != id@,
        },
{
    let wanted: String = id.to_string();
    for i in 0..codecs.len()
        invariant
            wanted@ == id@,
            forall|k: int| 0 <= k < i ==> (#[trigger] codecs@[k]).id@ != id@,
    {
        if codecs[i].id == wanted {
            assert(codecs@[i as int].id@ == id@);
            return Some(codecs[i].number);
        }
    }
    None
}

/// One row of a statistics report, as far as it is read here.
pub enum RtcRow {
    OutboundRtp {
        kind: String,
        bytes_sent: u64,
        timestamp_us: i64,
        frames_encoded: u32,
        encoder: String,
        limitation: String,
    },
    RemoteInboundRtp { kind: String, has_round_trip: bool },
    Other,
}

/// A row about the video that is sent.
pub open spec fn is_outbound_video(row: RtcRow) -> bool {
    row matches RtcRow::OutboundRtp { kind, .. } && kind@ == "video"@
}

/// A row about the video that is sent which names its encoder.
pub open spec fn is_encoder_row(row: RtcRow) -> bool {
    &&& is_outbound_video(row)
    &&& row matches RtcRow::OutboundRtp { encoder, .. }
    &&& encoder@.len() > 0
}

/// A receiver's row about the video that carries a round-trip time.
pub open spec fn is_round_trip(row: RtcRow) -> bool {
    row matches RtcRow::RemoteInboundRtp { kind, has_round_trip } && kind@ == "video"@
        && has_round_trip
}

/// [`is_outbound_video`] as a property of rows.
pub open spec fn outbound_video() -> spec_fn(RtcRow) -> bool {
    |row: RtcRow| is_outbound_video(row)
}

/// [`is_encoder_row`] as a property of rows.
pub open spec fn names_encoder() -> spec_fn(RtcRow) -> bool {
    |row: RtcRow| is_encoder_row(row)
}

/// [`is_round_trip`] as a property of rows.
pub open spec fn round_trip() -> spec_fn(RtcRow) -> bool {
    |row: RtcRow| is_round_trip(row)
}

/// `r` is the first row of which `p` holds, if there is one.
pub open spec fn first_row(
    rows: Seq<RtcRow>,
    p: spec_fn(RtcRow) -> bool,
    r: Option<int>,
) -> bool {
    match r {
        Some(i) => {
            &&& 0 <= i < rows.len()
            &&& p(rows[i])
            &&& forall|k: int| 0 <= k < i ==> !p(#[trigger] rows[k])
        },
        None => forall|k: int| 0 <= k < rows.len() ==> !p(#[trigger] rows[k]),
    }
}

/// `r` is the last row of which `p` holds, if there is one.
pub open spec fn last_row(
    rows: Seq<RtcRow>,
    p: spec_fn(RtcRow) -> bool,
    r: Option<int>,
) -> bool {
    match r {
        Some(i) => {
            &&& 0 <= i < rows.len()
            &&& p(rows[i])
            &&& forall|k: int| i < k < rows.len() ==> !p(#[trigger] rows[k])
        },
        None => forall|k: int| 0 <= k < rows.len() ==> !p(#[trigger] rows[k]),
    }
}

/// An index as an integer.
pub open spec fn opt_int(i: Option<usize>) -> Option<int> {
    match i {
        Some(i) => Some(i as int),
        None => None,
    }
}

/// The row that the round-trip time is read from: the last that carries one.
pub fn round_trip_row(rows: &Vec<RtcRow>) -> (r: Option<usize>)
    ensures
        last_row(rows@, round_trip(), opt_int(r)),
{
    let video: String = "video".to_string();
    let mut found: Option<usize> = None;
    for i in 0..rows.len()
        invariant
            video@ == "video"@,
            match found {
                Some(f) => {
                    &&& f < i
                    &&& is_round_trip(rows@[f as int])
                    &&& forall|k: int| f < k < i ==> !is_round_trip(#[trigger] rows@[k])
                },
                None => forall|k: int| 0 <= k < i ==> !is_round_trip(#[trigger] rows@[k]),
            },
    {
        match &rows[i] {
            RtcRow::RemoteInboundRtp { kind, has_round_trip } => {
                if *kind == video && *has_round_trip {
                    found = Some(i);
                }
            },
            _ => {},
        }
    }
    found
}

/// The row that the sender's figures are read from: the first about the video
/// that is sent.
pub fn outbound_row(rows: &Vec<RtcRow>) -> (r: Option<usize>)
    ensures
        first_row(rows@, outbound_video(), opt_int(r)),
{
    let video: String = "video".to_string();
    for i in 0..rows.len()
        invariant
            video@ == "video"@,
            forall|k: int| 0 <= k < i ==> !is_outbound_video(#[trigger] rows@[k]),
    {
        match &rows[i] {
            RtcRow::OutboundRtp { kind, .. } => {
                if *kind == video {
                    return Some(i);
                }
            },
            _ => {},
        }
    }
    None
}

/// The name of the encoder at work: that of the first row about the video that
/// is sent which has one.
pub fn encoder_impl(rows: &Vec<RtcRow>) -> (r: Option<String>)
    ensures
        match r {
            Some(name) => exists|i: int|
                #[trigger] first_row(rows@, names_encoder(), Some(i))
                    && (rows@[i] matches RtcRow::OutboundRtp { encoder, .. } && encoder@ == name@),
            None => first_row(rows@, names_encoder(), None),
        },
{
    let video: String = "video".to_string();
    for i in 0..rows.len()
        invariant
            video@ == "video"@,
            forall|k: int| 0 <= k < i ==> !is_encoder_row(#[trigger] rows@[k]),
    {
        match &rows[i] {
            RtcRow::OutboundRtp { kind, encoder, .. } => {
                if *kind == video && !encoder.as_str().is_empty() {
                    proof {
                        assert(first_row(
                            rows@,
                            names_encoder(),
                            Some(i as int),
                        ));
                    }
                    return Some(encoder.clone());
                }
            },
            _ => {},
        }
    }
    None
}

/// What a sender's row says of its encoder.
pub struct Seen {
    pub encoder: String,
    pub frames_encoded: u32,
    pub limitation: String,
}

/// A [`Seen`] with its texts as sequences of characters.
pub struct SeenView {
    pub encoder: Seq<char>,
    pub frames_encoded: u32,
    pub limitation: Seq<char>,
}

impl View for Seen {
    type V = SeenView;

    open spec fn view(&self) -> SeenView {
        SeenView {
            encoder: self.encoder@,
            frames_encoded: self.frames_encoded,
            limitation: self.limitation@,
        }
    }
}

/// The view of what was seen, if anything was.
pub open spec fn seen_view(seen: Option<Seen>) -> Option<SeenView> {
    match seen {
        Some(s) => Some(s@),
        None => None,
    }
}

/// What a sender's row says of its encoder. Any other row says nothing.
pub open spec fn seen_in(row: RtcRow) -> SeenView {
    match row {
        RtcRow::OutboundRtp { encoder, frames_encoded, limitation, .. } => SeenView {
            encoder: encoder@,
            frames_encoded,
            limitation: limitation@,
        },
        _ => SeenView { encoder: seq![], frames_encoded: 0, limitation: seq![] },
    }
}

/// What the first row about the video that is sent says of its encoder.
pub open spec fn scan_of(rows: Seq<RtcRow>) -> Option<SeenView> {
    if exists|i: int| first_row(rows, outbound_video(), Some(i)) {
        let first = choose|i: int| first_row(rows, outbound_video(), Some(i));
        Some(seen_in(rows[first]))
    } else {
        None
    }
}

/// What the first row about the video that is sent says of its encoder.
pub fn scan(rows: &Vec<RtcRow>) -> (r: Option<Seen>)
    ensures
        seen_view(r) == scan_of(rows@),
{
    match outbound_row(rows) {
        Some(i) => {
            assert(first_row(rows@, outbound_video(), Some(i as int)));
            match &rows[i] {
                RtcRow::OutboundRtp { encoder, frames_encoded, limitation, .. } => Some(
                    Seen {
                        encoder: encoder.clone(),
                        frames_encoded: *frames_encoded,
                        limitation: limitation.clone(),
                    },
                ),
                _ => None,
            }
        },
        None => None,
    }
}

/// What a bitrate is computed from.
#[derive(Clone, Copy, PartialEq, Eq, Debug, Structural)]
pub enum Bitrate {
    /// The bytes sent in the given time.
    Delta { bytes: u64, micros: u64 },
    /// The rate that the encoder aims for.
    Target,
}

/// What the bitrate is computed from, given the counter and the clock of the
/// previous sample and of this one. Without a previous sample, after a reset of
/// the counter or where the clock has not moved, a difference would say
/// nothing.
pub open spec fn bitrate_of(last: Option<(u64, i64)>, bytes: u64, timestamp_us: i64) -> Bitrate {
    match last {
        Some((b, t)) if timestamp_us > t && bytes >= b => Bitrate::Delta {
            bytes: (bytes - b) as u64,
            micros: (timestamp_us - t) as u64,
        },
        _ => Bitrate::Target,
    }
}

/// Where the figures of a statistics report are read from.
#[derive(Clone, Copy, PartialEq, Eq, Debug, Structural)]
pub struct StatsPlan {
    /// The row with the round-trip time, which counts as zero without one.
    pub round_trip: Option<usize>,
    /// The row with the frame rate and the target bitrate.
    pub outbound: usize,
    pub bitrate: Bitrate,
}

/// What the caller is to do about the track.
pub enum RoomCommand {
    /// Take the track down.
    Unpublish,
    /// Publish a track.
    Publish(PublishPlan),
    /// Nothing more: the change came to this.
    Finish(Result<(), String>),
}

/// A [`RoomCommand`] with its text as a sequence of characters.
pub enum RoomCommandView {
    Unpublish,
    Publish(PublishPlan),
    Finish(Result<(), Seq<char>>),
}

impl View for RoomCommand {
    type V = RoomCommandView;

    open spec fn view(&self) -> RoomCommandView {
        match *self {
            RoomCommand::Unpublish => RoomCommandView::Unpublish,
            RoomCommand::Publish(plan) => RoomCommandView::Publish(plan),
            RoomCommand::Finish(Ok(())) => RoomCommandView::Finish(Ok(())),
            RoomCommand::Finish(Err(msg)) => RoomCommandView::Finish(Err(msg@)),
        }
    }
}

/// What came of a command.
pub enum RoomEvent {
    /// It is done.
    Done,
    /// It failed, for this reason.
    Failed(String),
}

/// A [`RoomEvent`] with its text as a sequence of characters.
pub enum RoomEventView {
    Done,
    Failed(Seq<char>),
}

impl View for RoomEvent {
    type V = RoomEventView;

    open spec fn view(&self) -> RoomEventView {
        match *self {
            RoomEvent::Done => RoomEventView::Done,
            RoomEvent::Failed(msg) => RoomEventView::Failed(msg@),
        }
    }
}

/// Which command about the track the room awaits the outcome of.
#[derive(Clone, Copy, PartialEq, Eq, Debug, Structural)]
pub enum TrackChange {
    /// None.
    Settled,
    /// The track is being taken down, and one of this setting is to follow.
    Unpublishing(EncodeConfig),
    Publishing,
}

/// Whether a track is published, the last sample of its counter, and the change
/// that is under way.
pub struct RoomView {
    pub published: bool,
    pub last: Option<(u64, i64)>,
    pub change: TrackChange,
}

impl RoomView {
    /// A room that nothing is published in.
    pub open spec fn connected() -> RoomView {
        RoomView { published: false, last: None, change: TrackChange::Settled }
    }

    /// The room once a track is published.
    pub open spec fn with_track(self) -> RoomView {
        RoomView { published: true, last: None, change: TrackChange::Settled }
    }

    /// The room in the course of a change.
    pub open spec fn changing(self, change: TrackChange) -> RoomView {
        RoomView { change, ..self }
    }

    /// The room once a sample was taken.
    pub open spec fn sampled(self, bytes: u64, timestamp_us: i64) -> RoomView {
        RoomView { last: Some((bytes, timestamp_us)), ..self }
    }

    /// What the wish for a track calls for.
    pub open spec fn publish(self, cfg: EncodeConfig) -> (RoomView, RoomCommandView) {
        (
            self.changing(TrackChange::Publishing),
            RoomCommandView::Publish(publish_plan_of(cfg)),
        )
    }

    /// What the wish for another setting calls for: a track that is there is
    /// given up at once and taken down first.
    pub open spec fn reconfigure(self, cfg: EncodeConfig) -> (RoomView, RoomCommandView) {
        if self.published {
            (
                RoomView {
                    published: false,
                    change: TrackChange::Unpublishing(cfg),
                    ..self
                },
                RoomCommandView::Unpublish,
            )
        } else {
            self.publish(cfg)
        }
    }

    /// What the outcome of a command does: the room after it and the command that
    /// follows. A failure ends the change where it stands.
    pub open spec fn step(self, ev: RoomEventView) -> (RoomView, RoomCommandView) {
        match (ev, self.change) {
            (RoomEventView::Failed(msg), _) => (
                self.changing(TrackChange::Settled),
                RoomCommandView::Finish(Err(msg)),
            ),
            (RoomEventView::Done, TrackChange::Unpublishing(cfg)) => self.publish(cfg),
            (RoomEventView::Done, _) => (self.with_track(), RoomCommandView::Finish(Ok(()))),
        }
    }
}

/// The state of a room's one track.
pub struct RoomState {
    published: bool,
    last_bytes: Option<(u64, i64)>,
    change: TrackChange,
}

impl View for RoomState {
    type V = RoomView;

    closed spec fn view(&self) -> RoomView {
        RoomView { published: self.published, last: self.last_bytes, change: self.change }
    }
}

impl RoomState {
    /// A room that has just been connected to.
    pub fn new() -> (s: RoomState)
        ensures
            s@ == RoomView::connected(),
    {
        RoomState { published: false, last_bytes: None, change: TrackChange::Settled }
    }

    /// Begins to publish a track.
    pub fn publish(&mut self, cfg: EncodeConfig) -> (c: RoomCommand)
        ensures
            final(self)@ == old(self)@.publish(cfg).0,
            c@ == old(self)@.publish(cfg).1,
    {
        self.change = TrackChange::Publishing;
        RoomCommand::Publish(publish_plan(cfg))
    }

    /// Begins to replace the track, if there is one, by one of another setting.
    /// From here on frames have no track to go to, until one is published again.
    pub fn reconfigure(&mut self, cfg: EncodeConfig) -> (c: RoomCommand)
        ensures
            final(self)@ == old(self)@.reconfigure(cfg).0,
            c@ == old(self)@.reconfigure(cfg).1,
    {
        if self.published {
            self.published = false;
            self.change = TrackChange::Unpublishing(cfg);
            RoomCommand::Unpublish
        } else {
            self.publish(cfg)
        }
    }

    /// Whether a change is under way.
    pub fn is_changing(&self) -> (r: bool)
        ensures
            r == !(self@.change is Settled),
    {
        self.change != TrackChange::Settled
    }

    /// Takes the outcome of the last command and gives the next one.
    pub fn step(&mut self, ev: RoomEvent) -> (c: RoomCommand)
        requires
            !(old(self)@.change is Settled),
        ensures
            final(self)@ == old(self)@.step(ev@).0,
            c@ == old(self)@.step(ev@).1,
    {
        match ev {
            RoomEvent::Failed(msg) => {
                self.change = TrackChange::Settled;
                RoomCommand::Finish(Err(msg))
            },
            RoomEvent::Done => match self.change {
                TrackChange::Unpublishing(cfg) => self.publish(cfg),
                _ => {
                    self.last_bytes = None;
                    self.published = true;
                    self.change = TrackChange::Settled;
                    RoomCommand::Finish(Ok(()))
                },
            },
        }
    }

    /// Whether a frame has a track to go to.
    pub fn accepts_frames(&self) -> (r: bool)
        ensures
            r == self@.published,
    {
        self.published
    }

    /// Where the figures of a report are read from: nowhere without a track or
    /// without a row about the video that is sent. Takes the sample that the
    /// next bitrate is counted from.
    pub fn stats_plan(&mut self, rows: &Vec<RtcRow>) -> (r: Option<StatsPlan>)
        ensures
            match r {
                Some(plan) => {
                    &&& old(self)@.published
                    &&& first_row(
                        rows@,
                        outbound_video(),
                        Some(plan.outbound as int),
                    )
                    &&& last_row(
                        rows@,
                        round_trip(),
                        opt_int(plan.round_trip),
                    )
                    &&& rows@[plan.outbound as int] matches RtcRow::OutboundRtp {
                        bytes_sent,
                        timestamp_us,
                        ..
                    }
                    &&& plan.bitrate == bitrate_of(old(self)@.last, bytes_sent, timestamp_us)
                    &&& final(self)@ == old(self)@.sampled(bytes_sent, timestamp_us)
                },
                None => {
                    &&& !old(self)@.published || first_row(
                        rows@,
                        outbound_video(),
                        None,
                    )
                    &&& final(self)@ == old(self)@
                },
            },
    {
        if !self.published {
            return None;
        }
        let round_trip = round_trip_row(rows);
        match outbound_row(rows) {
            None => None,
            Some(outbound) => match &rows[outbound] {
                RtcRow::OutboundRtp { bytes_sent, timestamp_us, .. } => {
                    let bitrate = bitrate(self.last_bytes, *bytes_sent, *timestamp_us);
                    self.last_bytes = Some((*bytes_sent, *timestamp_us));
                    Some(StatsPlan { round_trip, outbound, bitrate })
                },
                _ => None,
            },
        }
    }
}

fn bitrate(last: Option<(u64, i64)>, bytes: u64, timestamp_us: i64) -> (r: Bitrate)
    ensures
        r == bitrate_of(last, bytes, timestamp_us),
{
    match last {
        Some((b, t)) => {
            if timestamp_us > t && bytes >= b {
                Bitrate::Delta {
                    bytes: bytes - b,
                    micros: (timestamp_us as i128 - t as i128) as u64,
                }
            } else {
                Bitrate::Target
            }
        },
        None => Bitrate::Target,
    }
}

/// The first sample after a track is published has nothing to be compared
/// with: its bitrate is what the encoder aims for.
pub proof fn law_fresh_track_uses_target(room: RoomView, bytes: u64, timestamp_us: i64)
    ensures
        bitrate_of(room.with_track().last, bytes, timestamp_us) is Target,
        room.change is Publishing ==> room.step(RoomEventView::Done).0 == room.with_track(),
{
}

/// Another setting takes down the track that is there before anything is
/// published. If that fails, the change ends with the reason, nothing is
/// published and no track is left; if it is done, the track of the new setting is
/// published.
pub proof fn law_take_down_comes_first(room: RoomView, cfg: EncodeConfig, msg: Seq<char>)
    requires
        room.published,
    ensures
        ({
            let (taking_down, first) = room.reconfigure(cfg);
            let (failed, end) = taking_down.step(RoomEventView::Failed(msg));
            let (publishing, second) = taking_down.step(RoomEventView::Done);
            &&& first == RoomCommandView::Unpublish
            &&& !taking_down.published
            &&& end == RoomCommandView::Finish(Err(msg))
            &&& !failed.published
            &&& failed.change is Settled
            &&& second == RoomCommandView::Publish(publish_plan_of(cfg))
            &&& !publishing.published
            &&& publishing.change is Publishing
        }),
{
}

/// A track comes to be there only by a publication that is done, and the change
/// is then over.
pub proof fn law_track_is_there_once_published(room: RoomView, ev: RoomEventView)
    requires
        !(room.change is Settled),
    ensures
        !room.published ==> (room.step(ev).0.published <==> room.change is Publishing && ev
            is Done),
        room.step(ev).1 == RoomCommandView::Finish(Ok(())) <==> room.change is Publishing && ev
            is Done,
        room.step(ev).1 is Finish <==> room.step(ev).0.change is Settled,
{
}

impl RoomView {
    /// The room after each of the outcomes in turn.
    pub open spec fn after(self, evs: Seq<RoomEventView>) -> RoomView
        decreases evs.len(),
    {
        if evs.len() == 0 {
            self
        } else {
            self.after(evs.drop_last()).step(evs.last()).0
        }
    }

    /// Every outcome is one of a command that the room awaits.
    pub open spec fn can_run(self, evs: Seq<RoomEventView>) -> bool
        decreases evs.len(),
    {
        evs.len() > 0 ==> {
            &&& self.can_run(evs.drop_last())
            &&& !(self.after(evs.drop_last()).change is Settled)
        }
    }
}

/// Whatever comes of the commands, after a wish for another setting a track is
/// there again exactly when the take-down of the old one, if there was one, and
/// the publication of the new one are both done.
pub proof fn law_reconfigured_track_is_back_when_all_is_done(
    room: RoomView,
    cfg: EncodeConfig,
    evs: Seq<RoomEventView>,
)
    requires
        room.reconfigure(cfg).0.can_run(evs),
    ensures
        ({
            let commands: nat = if room.published {
                2
            } else {
                1
            };
            &&& evs.len() <= commands
            &&& room.reconfigure(cfg).0.after(evs).published <==> evs.len() == commands && (
            forall|i: int| 0 <= i < evs.len() ==> #[trigger] evs[i] is Done)
        }),
{
    lemma_reconfigure_course(room, cfg, evs);
}

proof fn lemma_reconfigure_course(room: RoomView, cfg: EncodeConfig, evs: Seq<RoomEventView>)
    requires
        room.reconfigure(cfg).0.can_run(evs),
    ensures
        ({
            let commands: nat = if room.published {
                2
            } else {
                1
            };
            let end = room.reconfigure(cfg).0.after(evs);
            let all_done = forall|i: int| 0 <= i < evs.len() ==> #[trigger] evs[i] is Done;
            &&& evs.len() <= commands
            &&& end.published <==> evs.len() == commands && all_done
            &&& end.change is Settled <==> evs.len() == commands || !all_done
            &&& end.change is Unpublishing <==> evs.len() == 0 && room.published
        }),
    decreases evs.len(),
{
    if evs.len() > 0 {
        let before = evs.drop_last();
        lemma_reconfigure_course(room, cfg, before);
        let last = evs[evs.len() - 1];
        assert(evs.last() == last);
        assert forall|i: int| 0 <= i < before.len() implies #[trigger] before[i] == evs[i] by {}
        let all_before = forall|i: int| 0 <= i < before.len() ==> #[trigger] before[i] is Done;
        if all_before && last is Done {
            assert forall|i: int| 0 <= i < evs.len() implies #[trigger] evs[i] is Done by {
                if i < before.len() {
                    assert(before[i] is Done);
                }
            }
        }
        if !all_before {
            let k = choose|i: int| 0 <= i < before.len() && !(#[trigger] before[i] is Done);
            assert(!(evs[k] is Done));
        }
    }
}

/// A bitrate is only ever computed over a time that has passed.
pub proof fn law_delta_has_time(last: Option<(u64, i64)>, bytes: u64, timestamp_us: i64)
    ensures
        bitrate_of(last, bytes, timestamp_us) matches Bitrate::Delta { micros, .. } ==> micros > 0,
{
}

/// The bytes that the bitrates of a run of samples are computed from.
pub open spec fn counted(samples: Seq<(u64, i64)>) -> int
    decreases samples.len(),
{
    if samples.len() < 2 {
        0
    } else {
        counted(samples.drop_last()) + match bitrate_of(
            Some(samples[samples.len() - 2]),
            samples.last().0,
            samples.last().1,
        ) {
            Bitrate::Delta { bytes, .. } => bytes as int,
            Bitrate::Target => 0,
        }
    }
}

/// Every byte sent between the first and the last of a run of samples is
/// counted once, as long as the counter does not fall and the clock moves.
pub proof fn law_every_byte_is_counted(samples: Seq<(u64, i64)>)
    requires
        samples.len() > 0,
        forall|i: int, j: int|
            0 <= i < j < samples.len() ==> samples[i].0 <= samples[j].0 && samples[i].1
                < samples[j].1,
    ensures
        counted(samples) == samples.last().0 - samples[0].0,
    decreases samples.len(),
{
    if samples.len() >= 2 {
        let before = samples.drop_last();
        assert forall|i: int, j: int| 0 <= i < j < before.len() implies before[i].0
            <= before[j].0 && before[i].1 < before[j].1 by {
            assert(samples[i].0 <= samples[j].0 && samples[i].1 < samples[j].1);
        }
        law_every_byte_is_counted(before);
        let (a, b) = (samples[samples.len() - 2], samples[samples.len() - 1]);
        assert(a.0 <= b.0 && a.1 < b.1);
    }
}

/// Whatever is published for a setting is of its size, at its rate and within its
/// bitrate, as a single-layer H.264 screen share on the graphics card's encoder,
/// whether it is published at once or after a track was taken down.
pub proof fn law_setting_is_what_is_published(room: RoomView, cfg: EncodeConfig, plan: PublishPlan)
    requires
        room.publish(cfg).1 == RoomCommandView::Publish(plan) || room.reconfigure(cfg).0.step(
            RoomEventView::Done,
        ).1 == RoomCommandView::Publish(plan),
    ensures
        plan.width == cfg.width,
        plan.height == cfg.height,
        plan.max_framerate == cfg.fps,
        plan.max_bitrate == cfg.max_bitrate_kbps * 1000,
        plan.codec is H264,
        plan.source is Screenshare,
        plan.backend is Nvenc,
        !plan.simulcast,
{
}

/// What a probe publishes is of the size that it asks for, as an H.264 screen
/// share on the graphics card's encoder.
pub proof fn law_probe_publishes_its_size(width: u32, height: u32)
    ensures
        probe_plan_of(width, height).width == width,
        probe_plan_of(width, height).height == height,
        probe_plan_of(width, height).codec is H264,
        probe_plan_of(width, height).source is Screenshare,
        probe_plan_of(width, height).backend is Nvenc,
{
}

/// A room begins without a track, a sample or a change.
pub proof fn law_room_begins_empty()
    ensures
        !RoomView::connected().published,
        RoomView::connected().last is None,
        RoomView::connected().change is Settled,
{
}

/// Beginning a change, and failing at it, leaves the last sample alone; wishing
/// for a track leaves one that is there alone; a publication that is done forgets
/// the sample and settles the change.
pub proof fn law_changes_leave_the_rest(room: RoomView, cfg: EncodeConfig, msg: Seq<char>)
    ensures
        room.publish(cfg).0.published == room.published,
        room.publish(cfg).0.last == room.last,
        room.publish(cfg).0.change is Publishing,
        room.publish(cfg).1 is Publish,
        room.reconfigure(cfg).0.last == room.last,
        !room.reconfigure(cfg).0.published,
        room.published <==> room.reconfigure(cfg).1 is Unpublish,
        !room.published <==> room.reconfigure(cfg).1 is Publish,
        room.step(RoomEventView::Failed(msg)).0.published == room.published,
        room.step(RoomEventView::Failed(msg)).0.last == room.last,
        room.step(RoomEventView::Failed(msg)).1 == RoomCommandView::Finish(Err(msg)),
        room.change is Publishing ==> {
            &&& room.step(RoomEventView::Done).0.published
            &&& room.step(RoomEventView::Done).0.last is None
            &&& room.step(RoomEventView::Done).0.change is Settled
            &&& room.step(RoomEventView::Done).1 == RoomCommandView::Finish(Ok(()))
        },
{
}

/// A sample is what the next bitrate is counted from, and taking it changes
/// nothing else.
pub proof fn law_sample_is_kept(room: RoomView, bytes: u64, timestamp_us: i64)
    ensures
        room.sampled(bytes, timestamp_us).last == Some((bytes, timestamp_us)),
        room.sampled(bytes, timestamp_us).published == room.published,
        room.sampled(bytes, timestamp_us).change == room.change,
{
}

/// A bitrate is counted from two samples exactly when the clock moved on and the
/// counter did not fall, and then over all the bytes and all the time between
/// them.
pub proof fn law_bitrate_spans_two_samples(b: u64, t: i64, bytes: u64, timestamp_us: i64)
    ensures
        match bitrate_of(Some((b, t)), bytes, timestamp_us) {
            Bitrate::Delta { bytes: sent, micros } => t < timestamp_us && b <= bytes && b + sent
                == bytes && t + micros == timestamp_us,
            Bitrate::Target => timestamp_us <= t || bytes < b,
        },
        bitrate_of(None, bytes, timestamp_us) is Target,
{
}

/// Which rows are read: the sender's about video, those of them that name an
/// encoder, and the receiver's about video that carry a round-trip time.
pub proof fn law_rows_that_are_read(row: RtcRow)
    ensures
        match row {
            RtcRow::OutboundRtp { kind, encoder, .. } => {
                &&& outbound_video()(row) <==> kind@ == "video"@
                &&& names_encoder()(row) <==> kind@ == "video"@ && encoder@.len() > 0
                &&& !round_trip()(row)
            },
            RtcRow::RemoteInboundRtp { kind, has_round_trip } => {
                &&& !outbound_video()(row)
                &&& !names_encoder()(row)
                &&& round_trip()(row) <==> kind@ == "video"@ && has_round_trip
            },
            RtcRow::Other => !outbound_video()(row) && !names_encoder()(row) && !round_trip()(row),
        },
        is_outbound_video(row) == outbound_video()(row),
{
}

/// The first row with a property has it and no earlier one does; the last has it
/// and no later one does; and where there is none, no row has it.
pub proof fn law_first_and_last_rows(
    rows: Seq<RtcRow>,
    p: spec_fn(RtcRow) -> bool,
    i: int,
    k: int,
)
    requires
        0 <= i < rows.len(),
        0 <= k < rows.len(),
    ensures
        first_row(rows, p, Some(i)) ==> p(rows[i]) && (k < i ==> !p(rows[k])),
        last_row(rows, p, Some(i)) ==> p(rows[i]) && (k > i ==> !p(rows[k])),
        first_row(rows, p, None) ==> !p(rows[k]),
        last_row(rows, p, None) ==> !p(rows[k]),
{
}

/// What is scanned is what the first row about the video that is sent says, and
/// nothing exactly where there is no such row.
pub proof fn law_scan_reads_the_first_row(rows: Seq<RtcRow>, i: int)
    requires
        0 <= i < rows.len(),
        rows[i] matches RtcRow::OutboundRtp { kind, .. } && kind@ == "video"@,
        forall|k: int|
            0 <= k < i ==> !(#[trigger] rows[k] matches RtcRow::OutboundRtp { kind, .. } && kind@
                == "video"@),
    ensures
        rows[i] matches RtcRow::OutboundRtp { encoder, frames_encoded, limitation, .. }
            && scan_of(rows) is Some && scan_of(rows)->0.encoder == encoder@
            && scan_of(rows)->0.frames_encoded == frames_encoded && scan_of(rows)->0.limitation
            == limitation@,
{
    assert(first_row(rows, outbound_video(), Some(i)));
}

/// Nothing is scanned where no row is about the video that is sent.
pub proof fn law_scan_of_other_rows_is_empty(rows: Seq<RtcRow>)
    requires
        forall|k: int|
            0 <= k < rows.len() ==> !(#[trigger] rows[k] matches RtcRow::OutboundRtp { kind, .. }
                && kind@ == "video"@),
    ensures
        scan_of(rows) is None,
{
}

/// What is seen of an encoder, an index, a command and an outcome is what the
/// value holds.
pub proof fn law_room_values_are_seen_as_they_are(
    seen: Seen,
    index: usize,
    c: RoomCommand,
    ev: RoomEvent,
)
    ensures
        seen@.encoder == seen.encoder@,
        seen@.frames_encoded == seen.frames_encoded,
        seen@.limitation == seen.limitation@,
        seen_view(Some(seen)) == Some(seen@),
        seen_view(None) is None,
        opt_int(Some(index)) == Some(index as int),
        opt_int(None) is None,
        match c {
            RoomCommand::Unpublish => c@ is Unpublish,
            RoomCommand::Publish(plan) => c@ == RoomCommandView::Publish(plan),
            RoomCommand::Finish(Ok(())) => c@ == RoomCommandView::Finish(Ok(())),
            RoomCommand::Finish(Err(m)) => c@ == RoomCommandView::Finish(Err(m@)),
        },
        match ev {
            RoomEvent::Done => ev@ is Done,
            RoomEvent::Failed(m) => ev@ == RoomEventView::Failed(m@),
        },
{
}

} // verus!
