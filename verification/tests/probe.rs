use livekit_api::access_token::TokenVerifier;
use poshumim_hwscreen::engine::room::{RtcRow, Seen};
use poshumim_hwscreen::probe::bars::{fill_bars, next_shift};
use poshumim_hwscreen::probe::bmp::bmp_file;
use poshumim_hwscreen::engine::capture::MonitorRect;
use poshumim_hwscreen::probe::report::{
    describe, encoder_label, is_nvenc, last_encoder, monitor_line, result_line, spike_summary,
    summary_line,
};
use poshumim_hwscreen::probe::settings::{
    dump_path, even_size, frame_rest, given, run_seconds, ws_url,
};
use poshumim_hwscreen::probe::token::{
    dev_request, mint_dev_token, token_or_minted, TokenError,
};
use poshumim_hwscreen::text::{contains, decimal, json_quoted, signed, to_the_left, to_the_right};

#[test]
fn bars() {
    for t in [0u32, 4, 1279, 1280, u32::MAX] {
        let mut y = vec![0u8; 1280 * 3 + 5];
        let (mut u, mut v) = (vec![0u8; 9], vec![1u8; 7]);
        fill_bars(&mut y, &mut u, &mut v, t);
        for (i, p) in y.iter().enumerate() {
            let col = (i as u64 % 1280 + t as u64) % 1280;
            let bar = (col * 7 / 1280) as usize;
            assert_eq!(*p, [235u8, 210, 170, 145, 105, 80, 40][bar.min(6)]);
        }
        assert!(u.iter().chain(v.iter()).all(|p| *p == 128));
    }
    assert_eq!(next_shift(0), 4);
    assert_eq!(next_shift(u32::MAX), 3);
}

#[test]
fn bars_repeat_and_move_left() {
    let draw = |t: u32| {
        let mut y = vec![0u8; 1280];
        fill_bars(&mut y, &mut [], &mut [], t);
        y
    };
    assert_eq!(draw(17), draw(17 + 1280));
    assert_eq!(draw(18)[..1279], draw(17)[1..]);
}

#[test]
fn bmp_bytes() {
    // 2x2 picture, 10 bytes per row
    let bgra = [1u8, 2, 3, 0, 4, 5, 6, 0, 99, 99, 7, 8, 9, 0, 10, 11, 12];
    let f = bmp_file(&bgra, 2, 2, 10);
    assert_eq!(f.len(), 54 + 16);
    assert_eq!(&f[0..2], b"BM");
    assert_eq!(&f[2..6], &70u32.to_le_bytes());
    assert_eq!(&f[6..10], &0u32.to_le_bytes());
    assert_eq!(&f[10..14], &54u32.to_le_bytes());
    assert_eq!(&f[14..18], &40u32.to_le_bytes());
    assert_eq!(&f[18..22], &2i32.to_le_bytes());
    assert_eq!(&f[22..26], &2i32.to_le_bytes());
    assert_eq!(&f[26..28], &1u16.to_le_bytes());
    assert_eq!(&f[28..30], &24u16.to_le_bytes());
    assert_eq!(&f[30..34], &0u32.to_le_bytes());
    assert_eq!(&f[34..38], &16u32.to_le_bytes());
    assert_eq!(&f[38..42], &2835i32.to_le_bytes());
    assert_eq!(&f[42..46], &2835i32.to_le_bytes());
    assert_eq!(&f[46..54], &[0u8; 8]);
    assert_eq!(&f[54..62], &[7, 8, 9, 10, 11, 12, 0, 0]);
    assert_eq!(&f[62..70], &[1, 2, 3, 4, 5, 6, 0, 0]);
    assert_eq!(bmp_file(&[], 0, 0, 0).len(), 54);
    let wide = bmp_file(&vec![3u8; 4 * 400], 400, 1, 1600);
    assert_eq!(&wide[18..22], &400i32.to_le_bytes());
    assert_eq!(&wide[34..38], &1200u32.to_le_bytes());
}

fn row(kind: &str, encoder: &str) -> RtcRow {
    RtcRow::OutboundRtp {
        kind: kind.to_string(),
        bytes_sent: 0,
        timestamp_us: 0,
        frames_encoded: 1207,
        encoder: encoder.to_string(),
        limitation: "Bandwidth".to_string(),
    }
}

#[test]
fn descriptions() {
    assert_eq!(
        describe(&row("video", ""), None, "29.9", 40).unwrap(),
        "outbound-rtp  encoder=\"<none yet>\"  fps=29.9  frames_encoded=1207  key=40  qlr=Bandwidth"
    );
    assert_eq!(
        describe(&row("video", "a\"b"), None, "0.0", 0).unwrap(),
        format!(
            "outbound-rtp  encoder={:?}  fps=0.0  frames_encoded=1207  key=0  qlr=Bandwidth",
            "a\"b"
        )
    );
    assert!(describe(&row("audio", "x"), Some(1), "1.0", 1).is_none());
    assert!(describe(&RtcRow::Other, None, "1.0", 1).is_none());
    assert_eq!(
        describe(&row("video", "x"), Some(125), "30.0", 2).unwrap(),
        "outbound-rtp  codec=125  encoder=\"x\"  fps=30.0  frames_encoded=1207  key=2  qlr=Bandwidth"
    );
    assert_eq!(encoder_label("x"), "x");
}

#[test]
fn summaries() {
    let seen = Seen {
        encoder: "NVIDIA H264 Encoder".to_string(),
        frames_encoded: 600,
        limitation: "None".to_string(),
    };
    assert_eq!(
        spike_summary("hwscreen:spike3", "spi\"ke\n", Some(seen)),
        "{\"identity\":\"hwscreen:spike3\",\"room\":\"spi\\\"ke\\n\",\"encoder\":\"NVIDIA H264 Encoder\",\"frames_encoded\":600,\"qlr\":\"None\",\"nvenc\":true}"
    );
    assert_eq!(
        spike_summary("i", "r", None),
        "{\"identity\":\"i\",\"room\":\"r\",\"encoder\":\"\",\"frames_encoded\":0,\"qlr\":\"NoStats\",\"nvenc\":false}"
    );
    assert_eq!(
        summary_line("I", "R", "E", 7, "Q", false),
        "{\"identity\":I,\"room\":R,\"encoder\":E,\"frames_encoded\":7,\"qlr\":Q,\"nvenc\":false}"
    );
}

#[test]
fn nvenc_is_told_by_name() {
    assert!(is_nvenc("NVIDIA"));
    assert!(is_nvenc("xx NVIDIA yy"));
    assert!(!is_nvenc("nvidia"));
    assert!(!is_nvenc("NVIDI"));
    assert!(!is_nvenc(""));
}

#[test]
fn decimals() {
    for n in [0u64, 7, 9, 10, 99, 100, 1234567890, u32::MAX as u64, u64::MAX] {
        assert_eq!(decimal(n), n.to_string());
        assert_eq!(decimal(n).parse::<u64>().unwrap(), n);
    }
}

#[test]
fn signed_and_padded() {
    for n in [0i32, 5, -5, -10, i32::MAX, i32::MIN] {
        assert_eq!(signed(n), n.to_string());
    }
    for t in ["", "abc", "abcde", "abcdef"] {
        assert_eq!(to_the_right(t, 5), format!("{:>5}", t));
        assert_eq!(to_the_left(t, 5), format!("{:<5}", t));
    }
}

#[test]
fn monitor_lines() {
    let mut m = MonitorRect { x: -1920, y: 0, width: 1920, height: 1080, primary: true };
    assert_eq!(monitor_line(&m), "   1920x1080  @ (-1920,0)  [primary]");
    m.primary = false;
    m.height = 123456;
    assert_eq!(
        monitor_line(&m),
        format!("  {:>5}x{:<5} @ ({},{}){}", m.width, m.height, m.x, m.y, "")
    );
}

#[test]
fn latest_encoder_name() {
    let rows = vec![row("video", "a"), row("video", "b"), row("video", ""), row("audio", "c")];
    assert_eq!(last_encoder("z".to_string(), &rows), "b");
    assert_eq!(last_encoder("z".to_string(), &vec![row("audio", "c"), row("video", "")]), "z");
}

#[test]
fn result_lines() {
    assert_eq!(
        result_line(598, "NVIDIA \"x\""),
        "RESULT: captured+converted 598 frames; encoder_implementation = \"NVIDIA \\\"x\\\"\"; nvenc = true"
    );
    assert_eq!(
        result_line(0, ""),
        "RESULT: captured+converted 0 frames; encoder_implementation = \"\"; nvenc = false"
    );
}

#[test]
fn settings() {
    let s = |t: &str| Some(t.to_string());
    assert_eq!(ws_url(s("a"), s("b")), "a");
    assert_eq!(ws_url(None, s("b")), "b");
    assert_eq!(ws_url(None, None), "ws://127.0.0.1:7880");
    assert_eq!(given(s("a"), s("b")), s("a"));
    assert_eq!(given(None, None), None);
    assert_eq!(run_seconds(None), 20);
    assert_eq!(run_seconds(Some(3)), 3);
    assert_eq!(even_size(1367, 768), (1366, 768));
    assert_eq!(even_size(0, 1), (0, 0));
    assert_eq!(frame_rest(0), Some(33_000_000));
    assert_eq!(frame_rest(33_000_000), Some(0));
    assert_eq!(frame_rest(33_000_001), None);
    assert_eq!(dump_path(0).unwrap(), format!("wgc-dump/frame_{:02}.bmp", 0));
    assert_eq!(dump_path(9).unwrap(), "wgc-dump/frame_09.bmp");
    assert!(dump_path(10).is_none());
}

#[test]
fn dev_token_says_what_was_asked() {
    let jwt = mint_dev_token("hwscreen:spike", "spike").unwrap();
    let claims = TokenVerifier::with_api_key("devkey", "secret").verify(&jwt).unwrap();
    assert_eq!((claims.iss.as_str(), claims.sub.as_str()), ("devkey", "hwscreen:spike"));
    assert_eq!(claims.name, "spike");
    assert!(claims.video.room_join);
    assert_eq!(claims.video.room, "spike");
    assert_eq!(claims.video.can_publish, Some(true));
    assert_eq!(claims.video.can_subscribe, Some(false));
    assert_eq!(claims.exp - claims.nbf, 6 * 3600);
    assert!(TokenVerifier::with_api_key("devkey", "other").verify(&jwt).is_err());
}

#[test]
fn dev_token_needs_an_identity() {
    let e = mint_dev_token("", "spike").unwrap_err();
    assert_eq!(
        e,
        TokenError::InvalidClaims(
            "token grants room_join but doesn't have an identity or room".to_string()
        )
    );
    assert_eq!(
        e.message(),
        "invalid claims: token grants room_join but doesn't have an identity or room"
    );
    assert_eq!(TokenError::InvalidKeys.message(), "Invalid API Key or Secret Key");
    assert_eq!(TokenError::InvalidEnv.message(), "Invalid environment");
    assert_eq!(TokenError::Encoding.message(), "failed to encode jwt");
}

#[test]
fn given_token_is_taken() {
    assert_eq!(token_or_minted(Some("abc".to_string()), "", "").unwrap(), "abc");
    let jwt = token_or_minted(None, "who", "n").unwrap();
    let claims = TokenVerifier::with_api_key("devkey", "secret").verify(&jwt).unwrap();
    assert_eq!(claims.sub, "who");
    assert!(token_or_minted(None, "", "n").is_err());
    let r = dev_request("who", "n");
    assert_eq!((r.api_key.as_str(), r.room.as_str()), ("devkey", "spike"));
}

#[test]
fn json_strings() {
    assert_eq!(json_quoted(""), "\"\"");
    assert_eq!(json_quoted("a/b \u{e9}\u{1f600}"), "\"a/b \u{e9}\u{1f600}\"");
    assert_eq!(json_quoted("\"\\\n\r\t"), "\"\\\"\\\\\\n\\r\\t\"");
    assert_eq!(json_quoted("\0\u{1f}\u{7f}"), "\"\\u0000\\u001f\u{7f}\"");
}

#[test]
fn summary_of_odd_names_is_json() {
    assert_eq!(
        spike_summary("a\0b", "\u{1b}[0m", None),
        "{\"identity\":\"a\\u0000b\",\"room\":\"\\u001b[0m\",\"encoder\":\"\",\"frames_encoded\":0,\"qlr\":\"NoStats\",\"nvenc\":false}"
    );
}

#[test]
fn pieces_of_text() {
    for whole in ["", "a", "aab", "xx\u{e9}yy", "NVIDIA H264"] {
        for part in ["", "a", "ab", "aab", "aabb", "\u{e9}y", "NVIDIA", "264"] {
            assert_eq!(contains(whole, part), whole.contains(part));
        }
    }
}
