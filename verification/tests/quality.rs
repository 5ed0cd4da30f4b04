use poshumim_hwscreen::logic::quality::{
    self, encode_config, quality_or_medium, EncodeConfig, Quality,
};

#[test]
fn rungs_match_the_spec() {
    assert_eq!(encode_config(Quality::Low),    EncodeConfig { width: 1280, height: 720,  fps: 30, max_bitrate_kbps: 2500 });
    assert_eq!(encode_config(Quality::Medium), EncodeConfig { width: 1600, height: 900,  fps: 60, max_bitrate_kbps: 5000 });
    assert_eq!(encode_config(Quality::High),   EncodeConfig { width: 1920, height: 1080, fps: 60, max_bitrate_kbps: 8000 });
}

#[test]
fn dimensions_are_always_even() {
    for q in [Quality::Low, Quality::Medium, Quality::High] {
        let c = encode_config(q);
        assert_eq!(c.width % 2, 0);
        assert_eq!(c.height % 2, 0);
    }
}

#[test]
fn parse_quality_names() {
    assert_eq!(quality::parse_quality("medium"), Ok(Quality::Medium));
    assert_eq!(quality::parse_quality("MeDiUm"), Ok(Quality::Medium));
    assert_eq!(quality::parse_quality("hIGh"), Ok(Quality::High));
    assert_eq!(quality::parse_quality(""), Err(()));
    assert_eq!(quality::parse_quality(" low"), Err(()));
    assert_eq!(quality::parse_quality("lows"), Err(()));
    assert_eq!(quality::parse_quality("l\u{00d6}w"), Err(()));
    assert_eq!(quality::parse_quality("\u{ff2c}ow"), Err(()));
}

#[test]
fn parse_quality() {
    assert_eq!("low".parse::<Quality>().unwrap(), Quality::Low);
    assert_eq!("HIGH".parse::<Quality>().unwrap(), Quality::High);
    assert!("ultra".parse::<Quality>().is_err());
}

#[test]
fn unknown_quality_is_medium() {
    assert_eq!(quality_or_medium("ultra"), Quality::Medium);
    assert_eq!(quality_or_medium("LOW"), Quality::Low);
}

#[test]
fn rungs_ascend() {
    let (l, m, h) = (
        encode_config(Quality::Low),
        encode_config(Quality::Medium),
        encode_config(Quality::High),
    );
    assert!(l.width < m.width && m.width < h.width);
    assert!(l.max_bitrate_kbps < m.max_bitrate_kbps && m.max_bitrate_kbps < h.max_bitrate_kbps);
}
