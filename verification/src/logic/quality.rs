//! Quality rungs and the encoder settings each one stands for.
use vstd::prelude::*;
use vstd::string::StrSliceExecFns;

verus! {

/// A rung of the quality ladder.
#[derive(Clone, Copy, PartialEq, Eq, Debug, Structural)]
pub enum Quality {
    Low,
    Medium,
    High,
}

/// What the encoder is asked for at one rung.
#[derive(Clone, Copy, PartialEq, Eq, Debug, Structural)]
pub struct EncodeConfig {
    pub width: u32,
    pub height: u32,
    pub fps: u32,
    pub max_bitrate_kbps: u32,
}

/// The settings of each rung.
pub open spec fn encode_config_of(q: Quality) -> EncodeConfig {
    match q {
        Quality::Low => EncodeConfig { width: 1280, height: 720, fps: 30, max_bitrate_kbps: 2500 },
        Quality::Medium => EncodeConfig {
            width: 1600,
            height: 900,
            fps: 60,
            max_bitrate_kbps: 5000,
        },
        Quality::High => EncodeConfig {
            width: 1920,
            height: 1080,
            fps: 60,
            max_bitrate_kbps: 8000,
        },
    }
}

/// The encoder settings of a rung.
pub fn encode_config(q: Quality) -> (cfg: EncodeConfig)
    ensures
        cfg == encode_config_of(q),
{
    match q {
        Quality::Low => EncodeConfig { width: 1280, height: 720, fps: 30, max_bitrate_kbps: 2500 },
        Quality::Medium => EncodeConfig {
            width: 1600,
            height: 900,
            fps: 60,
            max_bitrate_kbps: 5000,
        },
        Quality::High => EncodeConfig {
            width: 1920,
            height: 1080,
            fps: 60,
            max_bitrate_kbps: 8000,
        },
    }
}

/// The lower-case form of an ASCII capital; any other character is itself.
pub open spec fn ascii_lower_char(c: char) -> char {
    if 'A' <= c && c <= 'Z' {
        (c as u8 + 32) as char
    } else {
        c
    }
}

/// A text with its ASCII capitals turned to lower case.
pub open spec fn ascii_lower(s: Seq<char>) -> Seq<char> {
    s.map_values(|c: char| ascii_lower_char(c))
}

/// The rung that a text names, whatever the case of its ASCII letters.
pub open spec fn quality_named(s: Seq<char>) -> Option<Quality> {
    let name = ascii_lower(s);
    if name == "low"@ {
        Some(Quality::Low)
    } else if name == "medium"@ {
        Some(Quality::Medium)
    } else if name == "high"@ {
        Some(Quality::High)
    } else {
        None
    }
}

/// Whether `s` is `lower` once its ASCII capitals are turned to lower case.
fn lower_eq(s: &str, lower: &str) -> (same: bool)
    ensures
        same == (ascii_lower(s@) == lower@),
{
    let n: usize = s.unicode_len();
    if n != lower.unicode_len() {
        assert(ascii_lower(s@).len() != lower@.len());
        return false;
    }
    for i in 0..n
        invariant
            n == s@.len(),
            n == lower@.len(),
            forall|k: int| 0 <= k < i ==> ascii_lower_char(s@[k]) == lower@[k],
    {
        let c: char = s.get_char(i);
        let l: char = if 'A' <= c && c <= 'Z' {
            (c as u8 + 32) as char
        } else {
            c
        };
        if l != lower.get_char(i) {
            assert(ascii_lower(s@)[i as int] != lower@[i as int]);
            return false;
        }
    }
    assert(ascii_lower(s@) =~= lower@);
    true
}

/// Reads a rung's name: `low`, `medium` or `high`, in any mix of case.
pub fn parse_quality(s: &str) -> (r: Result<Quality, ()>)
    ensures
        match quality_named(s@) {
            Some(q) => r == Ok::<Quality, ()>(q),
            None => r == Err::<Quality, ()>(()),
        },
{
    if lower_eq(s, "low") {
        Ok(Quality::Low)
    } else if lower_eq(s, "medium") {
        Ok(Quality::Medium)
    } else if lower_eq(s, "high") {
        Ok(Quality::High)
    } else {
        Err(())
    }
}

impl std::str::FromStr for Quality {
    type Err = ();

    fn from_str(s: &str) -> (r: Result<Self, ()>)
        ensures
            match quality_named(s@) {
                Some(q) => r == Ok::<Quality, ()>(q),
                None => r == Err::<Quality, ()>(()),
            },
    {
        parse_quality(s)
    }
}

/// The rung that a text names, or `Medium` where it names none.
pub open spec fn quality_or_medium_of(s: Seq<char>) -> Quality {
    match quality_named(s) {
        Some(q) => q,
        None => Quality::Medium,
    }
}

/// Reads a rung's name and falls back to `Medium` on an unknown one.
pub fn quality_or_medium(s: &str) -> (q: Quality)
    ensures
        q == quality_or_medium_of(s@),
{
    match parse_quality(s) {
        Ok(q) => q,
        Err(_) => Quality::Medium,
    }
}

/// Every rung's picture has even sides.
pub proof fn law_dimensions_are_even(q: Quality)
    ensures
        encode_config_of(q).width % 2 == 0,
        encode_config_of(q).height % 2 == 0,
{
}

/// The place of a rung on the ladder.
pub open spec fn rung(q: Quality) -> int {
    match q {
        Quality::Low => 0,
        Quality::Medium => 1,
        Quality::High => 2,
    }
}

/// A higher rung never asks for less: the picture and the bitrate grow, and
/// the rate does not fall.
pub proof fn law_rungs_ascend(a: Quality, b: Quality)
    requires
        rung(a) < rung(b),
    ensures
        encode_config_of(a).width < encode_config_of(b).width,
        encode_config_of(a).height < encode_config_of(b).height,
        encode_config_of(a).fps <= encode_config_of(b).fps,
        encode_config_of(a).max_bitrate_kbps < encode_config_of(b).max_bitrate_kbps,
{
}

/// Reading a rung's name does not depend on the case of its ASCII letters.
pub proof fn law_quality_ignores_case(a: Seq<char>, b: Seq<char>)
    requires
        ascii_lower(a) == ascii_lower(b),
    ensures
        quality_named(a) == quality_named(b),
{
}

/// What each rung stands for: 720p at thirty frames and 2500 kbit a second, 900p
/// at sixty and 5000, 1080p at sixty and 8000.
pub proof fn law_rung_settings(q: Quality)
    ensures
        encode_config_of(q).width == match q {
            Quality::Low => 1280u32,
            Quality::Medium => 1600u32,
            Quality::High => 1920u32,
        },
        encode_config_of(q).height * 16 == encode_config_of(q).width * 9,
        encode_config_of(q).fps == if q is Low {
            30u32
        } else {
            60u32
        },
        encode_config_of(q).max_bitrate_kbps == match q {
            Quality::Low => 2500u32,
            Quality::Medium => 5000u32,
            Quality::High => 8000u32,
        },
{
}

/// A character is a letter, in either case.
pub open spec fn is_letter(c: char, small: char, capital: char) -> bool {
    c == small || c == capital
}

proof fn lemma_lower_letter(c: char, small: char, capital: char)
    requires
        'a' <= small && small <= 'z',
        capital as int == small as int - 32,
    ensures
        ascii_lower_char(c) == small <==> is_letter(c, small, capital),
{
}

/// Exactly three names are read, letter by letter and each letter in either case,
/// and every other text names no rung.
pub proof fn law_quality_names(s: Seq<char>)
    ensures
        quality_named(s) == Some(Quality::Low) <==> s.len() == 3 && is_letter(s[0], 'l', 'L')
            && is_letter(s[1], 'o', 'O') && is_letter(s[2], 'w', 'W'),
        quality_named(s) == Some(Quality::Medium) <==> s.len() == 6 && is_letter(s[0], 'm', 'M')
            && is_letter(s[1], 'e', 'E') && is_letter(s[2], 'd', 'D') && is_letter(s[3], 'i', 'I')
            && is_letter(s[4], 'u', 'U') && is_letter(s[5], 'm', 'M'),
        quality_named(s) == Some(Quality::High) <==> s.len() == 4 && is_letter(s[0], 'h', 'H')
            && is_letter(s[1], 'i', 'I') && is_letter(s[2], 'g', 'G') && is_letter(s[3], 'h', 'H'),
{
    reveal_strlit("low");
    reveal_strlit("medium");
    reveal_strlit("high");
    let name = ascii_lower(s);
    assert(name.len() == s.len());
    assert forall|i: int| 0 <= i < s.len() implies #[trigger] name[i] == ascii_lower_char(s[i]) by {}
    assert(name == "low"@ <==> s.len() == 3 && name[0] == 'l' && name[1] == 'o' && name[2] == 'w')
        by {
        if s.len() == 3 && name[0] == 'l' && name[1] == 'o' && name[2] == 'w' {
            assert(name =~= "low"@);
        }
    }
    assert(name == "medium"@ <==> s.len() == 6 && name[0] == 'm' && name[1] == 'e' && name[2] == 'd'
        && name[3] == 'i' && name[4] == 'u' && name[5] == 'm') by {
        if s.len() == 6 && name[0] == 'm' && name[1] == 'e' && name[2] == 'd' && name[3] == 'i'
            && name[4] == 'u' && name[5] == 'm' {
            assert(name =~= "medium"@);
        }
    }
    assert(name == "high"@ <==> s.len() == 4 && name[0] == 'h' && name[1] == 'i' && name[2] == 'g'
        && name[3] == 'h') by {
        if s.len() == 4 && name[0] == 'h' && name[1] == 'i' && name[2] == 'g' && name[3] == 'h' {
            assert(name =~= "high"@);
        }
    }
}

/// A known name stands for its rung, and an unknown one for `Medium`.
pub proof fn law_unknown_name_is_medium(s: Seq<char>)
    ensures
        quality_named(s) is Some ==> quality_named(s) == Some(quality_or_medium_of(s)),
        quality_named(s) is None ==> quality_or_medium_of(s) is Medium,
{
}

} // verus!
