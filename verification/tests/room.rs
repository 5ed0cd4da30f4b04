use poshumim_hwscreen::engine::room::{
    codec_number, encoder_impl, outbound_row, probe_plan, publish_plan, round_trip_row, scan,
    Bitrate, CodecRow, EncoderBackend, ProbePlan, PublishPlan, RoomCommand, RoomEvent, RoomState,
    RtcRow, StatsPlan,
    TrackSource, VideoCodec,
};
use poshumim_hwscreen::logic::quality::{encode_config, Quality};

fn outbound(kind: &str, bytes: u64, ts: i64, encoder: &str) -> RtcRow {
    RtcRow::OutboundRtp {
        kind: kind.to_string(),
        bytes_sent: bytes,
        timestamp_us: ts,
        frames_encoded: 3,
        encoder: encoder.to_string(),
        limitation: "Cpu".to_string(),
    }
}

fn inbound(kind: &str, has_round_trip: bool) -> RtcRow {
    RtcRow::RemoteInboundRtp { kind: kind.to_string(), has_round_trip }
}

/// Publishes a track.
fn published(room: &mut RoomState) {
    let low = encode_config(Quality::Low);
    match room.publish(low) {
        RoomCommand::Publish(plan) => assert_eq!(plan, publish_plan(low)),
        _ => panic!("publish"),
    }
    assert!(room.is_changing());
    assert!(matches!(room.step(RoomEvent::Done), RoomCommand::Finish(Ok(()))));
    assert!(!room.is_changing());
}

#[test]
fn plan_of_a_rung() {
    assert_eq!(
        publish_plan(encode_config(Quality::High)),
        PublishPlan {
            width: 1920,
            height: 1080,
            source: TrackSource::Screenshare,
            codec: VideoCodec::H264,
            backend: EncoderBackend::Nvenc,
            max_bitrate: 8_000_000,
            max_framerate: 60,
            simulcast: false
        }
    );
    let mut cfg = encode_config(Quality::Low);
    cfg.max_bitrate_kbps = u32::MAX;
    assert_eq!(publish_plan(cfg).max_bitrate, 4_294_967_295_000);
}

#[test]
fn rows() {
    let report = vec![
        inbound("video", true),
        RtcRow::Other,
        outbound("audio", 1, 1, "opus"),
        outbound("video", 2, 2, ""),
        inbound("audio", true),
        inbound("video", true),
        inbound("video", false),
        outbound("video", 3, 3, "NVIDIA H264"),
    ];
    assert_eq!(round_trip_row(&report), Some(5));
    assert_eq!(outbound_row(&report), Some(3));
    assert_eq!(encoder_impl(&report), Some("NVIDIA H264".to_string()));
    let seen = scan(&report).unwrap();
    assert_eq!((seen.encoder.as_str(), seen.frames_encoded, seen.limitation.as_str()), ("", 3, "Cpu"));
    let silent = vec![RtcRow::Other, outbound("audio", 1, 1, "opus"), inbound("audio", true)];
    assert_eq!(round_trip_row(&silent), None);
    assert_eq!(outbound_row(&silent), None);
    assert_eq!(encoder_impl(&silent), None);
    assert!(scan(&silent).is_none());
}

#[test]
fn bitrate_counts_from_the_previous_sample() {
    let mut room = RoomState::new();
    assert!(!room.accepts_frames());
    assert_eq!(room.stats_plan(&vec![outbound("video", 100, 10, "")]), None);
    published(&mut room);
    assert!(room.accepts_frames());
    assert_eq!(room.stats_plan(&vec![RtcRow::Other]), None);
    let plan = room.stats_plan(&vec![RtcRow::Other, outbound("video", 100, 10, "")]);
    assert_eq!(plan, Some(StatsPlan { round_trip: None, outbound: 1, bitrate: Bitrate::Target }));
    let plan = room.stats_plan(&vec![outbound("video", 350, 25, ""), inbound("video", true)]);
    assert_eq!(
        plan,
        Some(StatsPlan {
            round_trip: Some(1),
            outbound: 0,
            bitrate: Bitrate::Delta { bytes: 250, micros: 15 }
        })
    );
    // the counter fell, then the clock stood still
    let plan = room.stats_plan(&vec![outbound("video", 3, 30, "")]).unwrap();
    assert_eq!(plan.bitrate, Bitrate::Target);
    let plan = room.stats_plan(&vec![outbound("video", 9, 30, "")]).unwrap();
    assert_eq!(plan.bitrate, Bitrate::Target);
    let plan = room.stats_plan(&vec![outbound("video", 9, 31, "")]).unwrap();
    assert_eq!(plan.bitrate, Bitrate::Delta { bytes: 0, micros: 1 });
}

#[test]
fn bitrate_spans_the_whole_clock() {
    let mut room = RoomState::new();
    published(&mut room);
    room.stats_plan(&vec![outbound("video", 0, i64::MIN, "")]);
    let plan = room.stats_plan(&vec![outbound("video", u64::MAX, i64::MAX, "")]).unwrap();
    assert_eq!(plan.bitrate, Bitrate::Delta { bytes: u64::MAX, micros: u64::MAX });
}

#[test]
fn every_byte_is_counted() {
    let mut room = RoomState::new();
    published(&mut room);
    let samples = [(5u64, 1i64), (5, 2), (70, 9), (1000, 10)];
    let mut total = 0;
    for (b, t) in samples {
        if let Bitrate::Delta { bytes, .. } =
            room.stats_plan(&vec![outbound("video", b, t, "")]).unwrap().bitrate
        {
            total += bytes;
        }
    }
    assert_eq!(total, 995);
}

#[test]
fn reconfigure_takes_the_track_down_first() {
    let high = encode_config(Quality::High);
    let mut room = RoomState::new();
    published(&mut room);
    room.stats_plan(&vec![outbound("video", 1, 1, "")]);
    assert!(matches!(room.reconfigure(high), RoomCommand::Unpublish));
    assert!(!room.accepts_frames());
    assert_eq!(room.stats_plan(&vec![outbound("video", 2, 2, "")]), None);
    match room.step(RoomEvent::Done) {
        RoomCommand::Publish(plan) => assert_eq!(plan, publish_plan(high)),
        _ => panic!("publish"),
    }
    assert!(!room.accepts_frames());
    assert!(matches!(room.step(RoomEvent::Done), RoomCommand::Finish(Ok(()))));
    assert!(room.accepts_frames());
    let plan = room.stats_plan(&vec![outbound("video", 2, 2, "")]).unwrap();
    assert_eq!(plan.bitrate, Bitrate::Target);
}

#[test]
fn failed_take_down_publishes_nothing() {
    let high = encode_config(Quality::High);
    let mut room = RoomState::new();
    published(&mut room);
    room.reconfigure(high);
    match room.step(RoomEvent::Failed("gone".to_string())) {
        RoomCommand::Finish(Err(m)) => assert_eq!(m, "gone"),
        _ => panic!("finish"),
    }
    assert!(!room.accepts_frames());
    assert!(!room.is_changing());
    // with no track left, the next change publishes at once
    assert!(matches!(room.reconfigure(high), RoomCommand::Publish(_)));
    assert!(matches!(room.step(RoomEvent::Done), RoomCommand::Finish(Ok(()))));
    assert!(room.accepts_frames());
}

#[test]
fn failed_publication_leaves_no_track() {
    let mut room = RoomState::new();
    room.publish(encode_config(Quality::Low));
    match room.step(RoomEvent::Failed("refused".to_string())) {
        RoomCommand::Finish(Err(m)) => assert_eq!(m, "refused"),
        _ => panic!("finish"),
    }
    assert!(!room.accepts_frames());
}

#[test]
fn plan_of_a_probe() {
    assert_eq!(
        probe_plan(1366, 768),
        ProbePlan {
            width: 1366,
            height: 768,
            source: TrackSource::Screenshare,
            codec: VideoCodec::H264,
            backend: EncoderBackend::Nvenc,
        }
    );
}

#[test]
fn codec_numbers() {
    let codec = |id: &str, number: u32| CodecRow { id: id.to_string(), number };
    let codecs = vec![codec("a", 96), codec("b", 125), codec("b", 1)];
    assert_eq!(codec_number(&codecs, "b"), Some(125));
    assert_eq!(codec_number(&codecs, "c"), None);
    assert_eq!(codec_number(&vec![], ""), None);
}
