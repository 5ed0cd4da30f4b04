//! What the probes report of the encoder.
use crate::engine::capture::MonitorRect;
use crate::engine::room::{RtcRow, Seen, SeenView};
use crate::text::{contains, decimal, json_quoted, quoted, signed, to_the_left, to_the_right};
use vstd::prelude::*;
use vstd::string::StringExecFns;

verus! {

/// Whether an encoder's name is that of the graphics card's own encoder.
pub fn is_nvenc(encoder: &str) -> (r: bool)
    ensures
        r == crate::text::contains_text(encoder@, "NVIDIA"@),
{
    contains(encoder, "NVIDIA")
}

/// The name to show for an encoder, which has none before its first frame.
pub open spec fn encoder_label_of(encoder: Seq<char>) -> Seq<char> {
    if encoder.len() == 0 {
        "<none yet>"@
    } else {
        encoder
    }
}

/// The name to show for an encoder, which has none before its first frame.
pub fn encoder_label(encoder: &str) -> (s: String)
    ensures
        s@ == encoder_label_of(encoder@),
{
    if encoder.is_empty() {
        "<none yet>".to_string()
    } else {
        encoder.to_string()
    }
}

/// The part of a line that tells the number of the codec, where it is known.
pub open spec fn codec_part_of(codec: Option<u32>) -> Seq<char> {
    match codec {
        Some(n) => "  codec="@ + crate::text::decimal_of(n as nat),
        None => ""@,
    }
}

/// The line that describes a sender's row.
pub open spec fn describe_line_of(
    codec: Option<u32>,
    encoder: Seq<char>,
    fps: Seq<char>,
    frames_encoded: nat,
    key_frames: nat,
    limitation: Seq<char>,
) -> Seq<char> {
    "outbound-rtp"@ + codec_part_of(codec) + "  encoder="@ + encoder + "  fps="@ + fps
        + "  frames_encoded="@ + crate::text::decimal_of(frames_encoded) + "  key="@
        + crate::text::decimal_of(key_frames) + "  qlr="@ + limitation
}

/// The line that describes a sender's row, of which the encoder's name is
/// already quoted and the rate already written out.
pub fn describe_line(
    codec: Option<u32>,
    encoder: &str,
    fps: &str,
    frames_encoded: u32,
    key_frames: u32,
    limitation: &str,
) -> (s: String)
    ensures
        s@ == describe_line_of(
            codec,
            encoder@,
            fps@,
            frames_encoded as nat,
            key_frames as nat,
            limitation@,
        ),
{
    let codec_part: String = match codec {
        Some(n) => {
            let number = decimal(n as u64);
            "  codec=".to_string().concat(number.as_str())
        },
        None => "".to_string(),
    };
    let frames = decimal(frames_encoded as u64);
    let keys = decimal(key_frames as u64);
    "outbound-rtp".to_string().concat(codec_part.as_str()).concat("  encoder=").concat(
        encoder,
    ).concat("  fps=").concat(fps).concat("  frames_encoded=").concat(frames.as_str()).concat(
        "  key=",
    ).concat(keys.as_str()).concat("  qlr=").concat(limitation)
}

/// Describes a row about the video that is sent, and no other. `codec` is the
/// number of its codec, where it is to be shown, `fps` its rate, written out, and
/// `key_frames` how many key frames were encoded.
pub fn describe(row: &RtcRow, codec: Option<u32>, fps: &str, key_frames: u32) -> (r: Option<
    String,
>)
    ensures
        match r {
            Some(line) => {
                &&& crate::engine::room::is_outbound_video(*row)
                &&& row matches RtcRow::OutboundRtp { encoder, frames_encoded, limitation, .. }
                &&& line@ == describe_line_of(
                    codec,
                    crate::text::debug_text(encoder_label_of(encoder@)),
                    fps@,
                    frames_encoded as nat,
                    key_frames as nat,
                    limitation@,
                )
            },
            None => !crate::engine::room::is_outbound_video(*row),
        },
{
    match row {
        RtcRow::OutboundRtp { kind, encoder, frames_encoded, limitation, .. } => {
            if *kind == "video".to_string() {
                let label = encoder_label(encoder.as_str());
                let name = quoted(label.as_str());
                Some(
                    describe_line(
                        codec,
                        name.as_str(),
                        fps,
                        *frames_encoded,
                        key_frames,
                        limitation.as_str(),
                    ),
                )
            } else {
                None
            }
        },
        _ => None,
    }
}

/// The summary of a run, of which the texts are already quoted.
pub open spec fn summary_line_of(
    identity: Seq<char>,
    room: Seq<char>,
    encoder: Seq<char>,
    frames_encoded: nat,
    limitation: Seq<char>,
    nvenc: bool,
) -> Seq<char> {
    "{\"identity\":"@ + identity + ",\"room\":"@ + room + ",\"encoder\":"@ + encoder
        + ",\"frames_encoded\":"@ + crate::text::decimal_of(frames_encoded) + ",\"qlr\":"@
        + limitation + ",\"nvenc\":"@ + (if nvenc {
        "true"@
    } else {
        "false"@
    }) + "}"@
}

/// The summary of a run, of which the texts are already quoted.
pub fn summary_line(
    identity: &str,
    room: &str,
    encoder: &str,
    frames_encoded: u32,
    limitation: &str,
    nvenc: bool,
) -> (s: String)
    ensures
        s@ == summary_line_of(
            identity@,
            room@,
            encoder@,
            frames_encoded as nat,
            limitation@,
            nvenc,
        ),
{
    let frames = decimal(frames_encoded as u64);
    let verdict = if nvenc {
        "true"
    } else {
        "false"
    };
    "{\"identity\":".to_string().concat(identity).concat(",\"room\":").concat(room).concat(
        ",\"encoder\":",
    ).concat(encoder).concat(",\"frames_encoded\":").concat(frames.as_str()).concat(
        ",\"qlr\":",
    ).concat(limitation).concat(",\"nvenc\":").concat(verdict).concat("}")
}

/// What a run is summed up with: what was last seen of the encoder, or stand-ins
/// where nothing was.
pub open spec fn seen_or_none(seen: Option<SeenView>) -> SeenView {
    match seen {
        Some(s) => s,
        None => SeenView { encoder: ""@, frames_encoded: 0, limitation: "NoStats"@ },
    }
}

/// The summary of a run, in JSON.
pub open spec fn spike_summary_of(
    identity: Seq<char>,
    room: Seq<char>,
    seen: Option<SeenView>,
) -> Seq<char> {
    let s = seen_or_none(seen);
    summary_line_of(
        crate::text::json_text(identity),
        crate::text::json_text(room),
        crate::text::json_text(s.encoder),
        s.frames_encoded as nat,
        crate::text::json_text(s.limitation),
        crate::text::contains_text(s.encoder, "NVIDIA"@),
    )
}

/// Sums up a run in JSON: who took part where, and what was last seen of the
/// encoder.
pub fn spike_summary(identity: &str, room: &str, seen: Option<Seen>) -> (s: String)
    ensures
        s@ == spike_summary_of(identity@, room@, crate::engine::room::seen_view(seen)),
{
    let seen: Seen = match seen {
        Some(s) => s,
        None => Seen {
            encoder: "".to_string(),
            frames_encoded: 0,
            limitation: "NoStats".to_string(),
        },
    };
    let nvenc = is_nvenc(seen.encoder.as_str());
    let identity = json_quoted(identity);
    let room = json_quoted(room);
    let encoder = json_quoted(seen.encoder.as_str());
    let limitation = json_quoted(seen.limitation.as_str());
    summary_line(
        identity.as_str(),
        room.as_str(),
        encoder.as_str(),
        seen.frames_encoded,
        limitation.as_str(),
        nvenc,
    )
}

/// The members of a JSON object, as they stand between its braces: each name as a
/// string, a colon and the value, with commas between them.
pub open spec fn json_members(members: Seq<(Seq<char>, Seq<char>)>) -> Seq<char>
    decreases members.len(),
{
    if members.len() == 0 {
        seq![]
    } else {
        let (name, value) = members.last();
        let member = crate::text::json_text(name) + seq![':'] + value;
        if members.len() == 1 {
            member
        } else {
            json_members(members.drop_last()) + seq![','] + member
        }
    }
}

/// A JSON object.
pub open spec fn json_object(members: Seq<(Seq<char>, Seq<char>)>) -> Seq<char> {
    seq!['{'] + json_members(members) + seq!['}']
}

/// What the members of a run's summary are.
pub open spec fn summary_members(
    identity: Seq<char>,
    room: Seq<char>,
    seen: SeenView,
) -> Seq<(Seq<char>, Seq<char>)> {
    seq![
        ("identity"@, crate::text::json_text(identity)),
        ("room"@, crate::text::json_text(room)),
        ("encoder"@, crate::text::json_text(seen.encoder)),
        ("frames_encoded"@, crate::text::decimal_of(seen.frames_encoded as nat)),
        ("qlr"@, crate::text::json_text(seen.limitation)),
        (
            "nvenc"@,
            if crate::text::contains_text(seen.encoder, "NVIDIA"@) {
                "true"@
            } else {
                "false"@
            },
        ),
    ]
}

proof fn lemma_plain_json_chars(s: Seq<char>)
    requires
        forall|i: int|
            0 <= i < s.len() ==> 'A' <= #[trigger] s[i] && s[i] <= 'z' && s[i] != '\\',
    ensures
        crate::text::json_chars(s) == s,
    decreases s.len(),
{
    if s.len() > 0 {
        let before = s.drop_last();
        assert forall|i: int| 0 <= i < before.len() implies 'A' <= #[trigger] before[i]
            && before[i] <= 'z' && before[i] != '\\' by {
            assert(before[i] == s[i]);
        }
        lemma_plain_json_chars(before);
        let last = s[s.len() - 1];
        assert(crate::text::json_char(last) == seq![last]);
    }
    assert(crate::text::json_chars(s) =~= s);
}

/// One more member of an object, behind its key with the comma and the colon.
proof fn lemma_next_member(
    before: Seq<(Seq<char>, Seq<char>)>,
    after: Seq<(Seq<char>, Seq<char>)>,
    key: Seq<char>,
)
    requires
        before.len() > 0,
        after.len() == before.len() + 1,
        after.drop_last() == before,
        key == seq![','] + crate::text::json_text(after.last().0) + seq![':'],
    ensures
        seq!['{'] + json_members(after) == seq!['{'] + json_members(before) + key
            + after.last().1,
{
    let (name, value) = after.last();
    let text = crate::text::json_text(name);
    let rest = json_members(before);
    assert(json_members(after) == rest + seq![','] + (text + seq![':'] + value));
    assert(seq!['{'] + (rest + seq![','] + (text + seq![':'] + value)) =~= seq!['{'] + rest + (
    seq![','] + text + seq![':']) + value);
}

/// The summary of a run is a JSON object: its six members are the identity, the
/// room, the encoder and its limitation as JSON strings, the frames as a number
/// and the verdict as a truth value.
pub proof fn law_summary_is_json(identity: Seq<char>, room: Seq<char>, seen: Option<SeenView>)
    ensures
        spike_summary_of(identity, room, seen) == json_object(
            summary_members(identity, room, seen_or_none(seen)),
        ),
{
    let m = summary_members(identity, room, seen_or_none(seen));
    assert("{\"identity\":"@ == seq!['{'] + crate::text::json_text("identity"@) + seq![':']) by {
        reveal_strlit("{\"identity\":");
        reveal_strlit("identity");
        lemma_plain_json_chars("identity"@);
        assert("{\"identity\":"@ =~= seq!['{'] + crate::text::json_text("identity"@) + seq![':']);
    }
    assert(",\"room\":"@ == seq![','] + crate::text::json_text("room"@) + seq![':']) by {
        reveal_strlit(",\"room\":");
        reveal_strlit("room");
        lemma_plain_json_chars("room"@);
        assert(",\"room\":"@ =~= seq![','] + crate::text::json_text("room"@) + seq![':']);
    }
    assert(",\"encoder\":"@ == seq![','] + crate::text::json_text("encoder"@) + seq![':']) by {
        reveal_strlit(",\"encoder\":");
        reveal_strlit("encoder");
        lemma_plain_json_chars("encoder"@);
        assert(",\"encoder\":"@ =~= seq![','] + crate::text::json_text("encoder"@) + seq![':']);
    }
    assert(",\"frames_encoded\":"@ == seq![','] + crate::text::json_text("frames_encoded"@) + seq![':']) by {
        reveal_strlit(",\"frames_encoded\":");
        reveal_strlit("frames_encoded");
        lemma_plain_json_chars("frames_encoded"@);
        assert(",\"frames_encoded\":"@ =~= seq![','] + crate::text::json_text("frames_encoded"@) + seq![':']);
    }
    assert(",\"qlr\":"@ == seq![','] + crate::text::json_text("qlr"@) + seq![':']) by {
        reveal_strlit(",\"qlr\":");
        reveal_strlit("qlr");
        lemma_plain_json_chars("qlr"@);
        assert(",\"qlr\":"@ =~= seq![','] + crate::text::json_text("qlr"@) + seq![':']);
    }
    assert(",\"nvenc\":"@ == seq![','] + crate::text::json_text("nvenc"@) + seq![':']) by {
        reveal_strlit(",\"nvenc\":");
        reveal_strlit("nvenc");
        lemma_plain_json_chars("nvenc"@);
        assert(",\"nvenc\":"@ =~= seq![','] + crate::text::json_text("nvenc"@) + seq![':']);
    }
    assert("}"@ == seq!['}']) by {
        reveal_strlit("}");
        assert("}"@ =~= seq!['}']);
    }
    assert(seq!['{'] + json_members(m.take(1)) == "{\"identity\":"@ + m[0].1) by {
        let text = crate::text::json_text("identity"@);
        assert(m.take(1).last() == m[0]);
        assert(json_members(m.take(1)) == text + seq![':'] + m[0].1);
        assert(seq!['{'] + (text + seq![':'] + m[0].1) =~= seq!['{'] + text + seq![':']
            + m[0].1);
    }
    assert forall|i: int| 1 <= i < 6 implies #[trigger] m.take(i + 1).drop_last() == m.take(i)
        && m.take(i + 1).last() == m[i] by {
        assert(m.take(i + 1).drop_last() =~= m.take(i));
    }
    assert(m.take(2).drop_last() == m.take(1) && m.take(3).drop_last() == m.take(2));
    assert(m.take(4).drop_last() == m.take(3) && m.take(5).drop_last() == m.take(4));
    assert(m.take(6).drop_last() == m.take(5));
    lemma_next_member(m.take(1), m.take(2), ",\"room\":"@);
    lemma_next_member(m.take(2), m.take(3), ",\"encoder\":"@);
    lemma_next_member(m.take(3), m.take(4), ",\"frames_encoded\":"@);
    lemma_next_member(m.take(4), m.take(5), ",\"qlr\":"@);
    lemma_next_member(m.take(5), m.take(6), ",\"nvenc\":"@);
    assert(m.take(6) =~= m);
}

/// The name of the encoder as of the latest report: that of the last row about
/// the video that is sent which has one, and else the one known before.
pub fn last_encoder(known: String, rows: &Vec<RtcRow>) -> (name: String)
    ensures
        exists|last: Option<int>|
            #[trigger] crate::engine::room::last_row(
                rows@,
                crate::engine::room::names_encoder(),
                last,
            ) && name@ == match last {
                Some(i) => crate::engine::room::seen_in(rows@[i]).encoder,
                None => known@,
            },
{
    let mut name: String = known;
    let ghost known = name@;
    let ghost mut last: Option<int> = None;
    for i in 0..rows.len()
        invariant
            crate::engine::room::last_row(
                rows@.take(i as int),
                crate::engine::room::names_encoder(),
                last,
            ),
            name@ == match last {
                Some(f) => crate::engine::room::seen_in(rows@[f]).encoder,
                None => known,
            },
    {
        let ghost names = crate::engine::room::names_encoder();
        assert(rows@.take(i + 1)[i as int] == rows@[i as int]);
        assert forall|k: int| 0 <= k < i implies #[trigger] rows@.take(i + 1)[k] == rows@.take(
            i as int,
        )[k] by {}
        match &rows[i] {
            RtcRow::OutboundRtp { kind, encoder, .. } => {
                if *kind == "video".to_string() && !encoder.as_str().is_empty() {
                    name = encoder.clone();
                    proof {
                        assert(names(rows@[i as int]));
                        last = Some(i as int);
                    }
                }
            },
            _ => {},
        }
    }
    assert(rows@.take(rows@.len() as int) =~= rows@);
    name
}

/// The line that lists a monitor: its size, with the figures lined up, its corner
/// and whether it is the primary display.
pub open spec fn monitor_line_of(m: MonitorRect) -> Seq<char> {
    let w = crate::text::decimal_of(m.width as nat);
    let h = crate::text::decimal_of(m.height as nat);
    "  "@ + crate::text::blanks(w, 5) + w + "x"@ + h + crate::text::blanks(h, 5) + " @ ("@
        + crate::text::signed_of(m.x as int) + ","@ + crate::text::signed_of(m.y as int) + ")"@
        + (if m.primary {
        "  [primary]"@
    } else {
        ""@
    })
}

/// The line that lists a monitor.
pub fn monitor_line(m: &MonitorRect) -> (s: String)
    ensures
        s@ == monitor_line_of(*m),
{
    let w = decimal(m.width as u64);
    let w = to_the_right(w.as_str(), 5);
    let h = decimal(m.height as u64);
    let h = to_the_left(h.as_str(), 5);
    let x = signed(m.x);
    let y = signed(m.y);
    let mark = if m.primary {
        "  [primary]"
    } else {
        ""
    };
    let s = "  ".to_string().concat(w.as_str()).concat("x").concat(h.as_str()).concat(
        " @ (",
    ).concat(x.as_str()).concat(",").concat(y.as_str()).concat(")").concat(mark);
    assert(s@ =~= monitor_line_of(*m));
    s
}

/// The line that a screen run ends with, of which the encoder's name is already
/// quoted.
pub open spec fn result_line_of(frames: nat, encoder: Seq<char>, nvenc: bool) -> Seq<char> {
    "RESULT: captured+converted "@ + crate::text::decimal_of(frames)
        + " frames; encoder_implementation = "@ + encoder + "; nvenc = "@ + (if nvenc {
        "true"@
    } else {
        "false"@
    })
}

/// The line that a screen run ends with.
pub fn result_line(frames: u64, encoder: &str) -> (s: String)
    ensures
        s@ == result_line_of(
            frames as nat,
            crate::text::debug_text(encoder@),
            crate::text::contains_text(encoder@, "NVIDIA"@),
        ),
{
    let count = decimal(frames);
    let name = quoted(encoder);
    let verdict = if is_nvenc(encoder) {
        "true"
    } else {
        "false"
    };
    "RESULT: captured+converted ".to_string().concat(count.as_str()).concat(
        " frames; encoder_implementation = ",
    ).concat(name.as_str()).concat("; nvenc = ").concat(verdict)
}

/// An encoder without a name is shown as not there yet, and any other by its name.
pub proof fn law_nameless_encoder_is_not_there_yet(encoder: Seq<char>)
    ensures
        encoder.len() == 0 ==> encoder_label_of(encoder) == "<none yet>"@,
        encoder.len() > 0 ==> encoder_label_of(encoder) == encoder,
{
}

/// The line of a row shows each figure under its label and in its place: the codec
/// where it is known, the encoder, the rate, the frames, the key frames and, at the
/// end, the limitation.
pub proof fn law_line_shows_its_figures(
    codec: Option<u32>,
    encoder: Seq<char>,
    fps: Seq<char>,
    frames: nat,
    keys: nat,
    limitation: Seq<char>,
)
    ensures
        ({
            let line = describe_line_of(codec, encoder, fps, frames, keys, limitation);
            let head = match codec {
                Some(n) => "outbound-rtp"@ + "  codec="@ + crate::text::decimal_of(n as nat),
                None => "outbound-rtp"@,
            } + "  encoder="@ + encoder + "  fps="@ + fps;
            let tail = "  key="@ + crate::text::decimal_of(keys) + "  qlr="@ + limitation;
            &&& head.is_prefix_of(line)
            &&& tail.is_suffix_of(line)
            &&& line.len() == head.len() + ("  frames_encoded="@ + crate::text::decimal_of(
                frames,
            )).len() + tail.len()
            &&& crate::text::contains_text(
                line,
                "  frames_encoded="@ + crate::text::decimal_of(frames) + tail,
            )
        }),
{
    reveal_strlit("");
    let line = describe_line_of(codec, encoder, fps, frames, keys, limitation);
    let head = match codec {
        Some(n) => "outbound-rtp"@ + "  codec="@ + crate::text::decimal_of(n as nat),
        None => "outbound-rtp"@,
    } + "  encoder="@ + encoder + "  fps="@ + fps;
    let tail = "  key="@ + crate::text::decimal_of(keys) + "  qlr="@ + limitation;
    let middle = "  frames_encoded="@ + crate::text::decimal_of(frames);
    assert(line =~= head + (middle + tail));
    assert(line.subrange(0, head.len() as int) =~= head);
    assert(line.subrange(line.len() - tail.len(), line.len() as int) =~= tail);
    crate::text::law_middle_is_contained(head, middle + tail, seq![]);
    assert(head + (middle + tail) + seq![] =~= line);
}

/// A summary's members are who took part, where, and what was seen of the encoder,
/// each under its own name.
pub proof fn law_summary_names_its_members(identity: Seq<char>, room: Seq<char>, seen: SeenView)
    ensures
        ({
            let m = summary_members(identity, room, seen);
            &&& m.len() == 6
            &&& m[0].0 == "identity"@ && m[0].1 == crate::text::json_text(identity)
            &&& m[1].0 == "room"@ && m[1].1 == crate::text::json_text(room)
            &&& m[2].0 == "encoder"@ && m[2].1 == crate::text::json_text(seen.encoder)
            &&& m[3].0 == "frames_encoded"@ && crate::text::number_of(m[3].1)
                == seen.frames_encoded
            &&& m[4].0 == "qlr"@ && m[4].1 == crate::text::json_text(seen.limitation)
            &&& m[5].0 == "nvenc"@
            &&& crate::text::contains_text(seen.encoder, "NVIDIA"@) ==> m[5].1 == "true"@
            &&& !crate::text::contains_text(seen.encoder, "NVIDIA"@) ==> m[5].1 == "false"@
        }),
{
    crate::text::law_decimal_reads_back(seen.frames_encoded as nat);
}

/// Where nothing was seen, a run is summed up with no name, no frames and the word
/// that there were no statistics; else with what was seen.
pub proof fn law_unseen_encoder_is_summed_up(seen: SeenView)
    ensures
        seen_or_none(Some(seen)) == seen,
        seen_or_none(None).encoder == ""@,
        seen_or_none(None).frames_encoded == 0,
        seen_or_none(None).limitation == "NoStats"@,
{
}

/// The line that a screen run ends with tells the frames, the encoder and the
/// verdict, in this order and with nothing left out.
pub proof fn law_result_line_tells_all(frames: nat, encoder: Seq<char>, nvenc: bool)
    ensures
        ({
            let line = result_line_of(frames, encoder, nvenc);
            let head = "RESULT: captured+converted "@ + crate::text::decimal_of(frames)
                + " frames; encoder_implementation = "@;
            let verdict = if nvenc {
                "true"@
            } else {
                "false"@
            };
            &&& head.is_prefix_of(line)
            &&& ("; nvenc = "@ + verdict).is_suffix_of(line)
            &&& line == head + encoder + ("; nvenc = "@ + verdict)
        }),
{
    let line = result_line_of(frames, encoder, nvenc);
    let head = "RESULT: captured+converted "@ + crate::text::decimal_of(frames)
        + " frames; encoder_implementation = "@;
    let tail = "; nvenc = "@ + (if nvenc {
        "true"@
    } else {
        "false"@
    });
    assert(line =~= head + encoder + tail);
    assert(line.subrange(0, head.len() as int) =~= head);
    assert(line.subrange(line.len() - tail.len(), line.len() as int) =~= tail);
}

/// The line of a monitor shows its width and its height either side of a cross,
/// then its corner in brackets, and ends with the mark of the primary display
/// where it is that.
pub proof fn law_monitor_line_tells_all(m: MonitorRect)
    ensures
        ({
            let line = monitor_line_of(m);
            let w = crate::text::decimal_of(m.width as nat);
            let h = crate::text::decimal_of(m.height as nat);
            let corner = "("@ + crate::text::signed_of(m.x as int) + ","@ + crate::text::signed_of(
                m.y as int,
            ) + ")"@;
            &&& crate::text::contains_text(line, w + "x"@ + h)
            &&& m.primary ==> (corner + "  [primary]"@).is_suffix_of(line)
            &&& !m.primary ==> corner.is_suffix_of(line)
        }),
{
    reveal_strlit("");
    reveal_strlit(" @ (");
    reveal_strlit("(");
    let line = monitor_line_of(m);
    let w = crate::text::decimal_of(m.width as nat);
    let h = crate::text::decimal_of(m.height as nat);
    let mark = if m.primary {
        "  [primary]"@
    } else {
        ""@
    };
    let corner = "("@ + crate::text::signed_of(m.x as int) + ","@ + crate::text::signed_of(
        m.y as int,
    ) + ")"@;
    let front = "  "@ + crate::text::blanks(w, 5);
    let gap = crate::text::blanks(h, 5) + seq![' ', '@', ' '];
    assert(" @ ("@ =~= seq![' ', '@', ' '] + "("@);
    let tail = corner + mark;
    assert(line =~= front + (w + "x"@ + h) + (gap + tail));
    crate::text::law_middle_is_contained(front, w + "x"@ + h, gap + tail);
    assert(line.subrange(line.len() - tail.len(), line.len() as int) =~= tail);
    assert(!m.primary ==> tail =~= corner);
}

/// The members of an object stand behind each other, each a name, a colon and its
/// value, with commas between.
pub proof fn law_members_stand_in_a_row(
    members: Seq<(Seq<char>, Seq<char>)>,
    name: Seq<char>,
    value: Seq<char>,
)
    ensures
        json_members(seq![]) == Seq::<char>::empty(),
        members.len() == 0 ==> json_members(members.push((name, value))) == crate::text::json_text(
            name,
        ) + seq![':'] + value,
        members.len() > 0 ==> json_members(members.push((name, value))) == json_members(members)
            + seq![','] + (crate::text::json_text(name) + seq![':'] + value),
        json_object(members) == seq!['{'] + json_members(members) + seq!['}'],
{
    assert(members.push((name, value)).drop_last() =~= members);
}

} // verus!
