//! What the probes run with: where to connect, for how long, how fast, and
//! which frames to keep.
use vstd::prelude::*;
use vstd::string::StringExecFns;

verus! {

/// The time of one frame at thirty frames a second, in whole milliseconds.
pub const FRAME_MILLIS: u64 = 33;

/// How many captured frames are kept as files.
pub const DUMP_FRAMES: u64 = 10;

/// The first of two settings that is given.
pub open spec fn first_given(arg: Option<String>, env: Option<String>) -> Option<String> {
    match arg {
        Some(s) => Some(s),
        None => env,
    }
}

/// The first of two settings that is given.
pub fn given(arg: Option<String>, env: Option<String>) -> (r: Option<String>)
    ensures
        r == first_given(arg, env),
{
    match arg {
        Some(s) => Some(s),
        None => env,
    }
}

/// Where to connect: as the argument says, else as the environment says, else
/// to a local development server.
pub fn ws_url(arg: Option<String>, env: Option<String>) -> (r: String)
    ensures
        match first_given(arg, env) {
            Some(s) => r == s,
            None => r@ == "ws://127.0.0.1:7880"@,
        },
{
    match given(arg, env) {
        Some(s) => s,
        None => "ws://127.0.0.1:7880".to_string(),
    }
}

/// How many seconds to run for: twenty, unless told otherwise.
pub fn run_seconds(seconds: Option<u32>) -> (r: u64)
    ensures
        r == (match seconds {
            Some(s) => s as int,
            None => 20,
        }),
{
    match seconds {
        Some(s) => s as u64,
        None => 20,
    }
}

/// The size to encode at: the captured one, with an odd side one shorter.
pub fn even_size(w: u32, h: u32) -> (r: (u32, u32))
    ensures
        r.0 == w - w % 2,
        r.1 == h - h % 2,
{
    (w - w % 2, h - h % 2)
}

/// How long is left of a frame's time of which `elapsed` nanoseconds have
/// passed, if any is.
pub fn frame_rest(elapsed: u128) -> (r: Option<u64>)
    ensures
        match r {
            Some(rest) => elapsed + rest == FRAME_MILLIS * 1_000_000,
            None => elapsed > FRAME_MILLIS * 1_000_000,
        },
{
    let frame: u64 = FRAME_MILLIS * 1_000_000;
    if elapsed > frame as u128 {
        None
    } else {
        Some(frame - elapsed as u64)
    }
}

/// The file that frame `n` is kept in, for the first [`DUMP_FRAMES`] frames.
pub open spec fn dump_path_of(n: nat) -> Option<Seq<char>> {
    if n < DUMP_FRAMES {
        Some("wgc-dump/frame_0"@ + crate::text::decimal_of(n) + ".bmp"@)
    } else {
        None
    }
}

/// The file that frame `n` is kept in, for the first [`DUMP_FRAMES`] frames.
pub fn dump_path(n: u64) -> (r: Option<String>)
    ensures
        match r {
            Some(path) => dump_path_of(n as nat) == Some(path@),
            None => dump_path_of(n as nat) is None,
        },
{
    if n < DUMP_FRAMES {
        let digits = crate::text::decimal(n);
        Some("wgc-dump/frame_0".to_string().concat(digits.as_str()).concat(".bmp"))
    } else {
        None
    }
}

/// The names of two kept frames are of one length, and differ.
pub proof fn law_dump_names_align(a: nat, b: nat)
    requires
        a < DUMP_FRAMES,
        b < DUMP_FRAMES,
    ensures
        dump_path_of(a)->0.len() == dump_path_of(b)->0.len(),
        a != b ==> dump_path_of(a)->0 != dump_path_of(b)->0,
{
    let at = "wgc-dump/frame_0"@.len() as int;
    assert(crate::text::decimal_of(a) == seq![crate::text::digit(a as int)]);
    assert(crate::text::decimal_of(b) == seq![crate::text::digit(b as int)]);
    assert(dump_path_of(a)->0[at] == crate::text::digit(a as int));
    assert(dump_path_of(b)->0[at] == crate::text::digit(b as int));
}

/// What is given first counts, and what is given second only where the first is
/// not.
pub proof fn law_argument_comes_first(arg: Option<String>, env: Option<String>)
    ensures
        arg is Some ==> first_given(arg, env) == arg,
        arg is None ==> first_given(arg, env) == env,
{
}

/// A frame's time is the whole milliseconds of a thirtieth of a second.
pub proof fn law_frame_time_is_a_thirtieth()
    ensures
        FRAME_MILLIS * 30 <= 1000 < (FRAME_MILLIS + 1) * 30,
{
}

/// The first ten frames are kept, each under its number in two digits.
pub proof fn law_first_ten_frames_are_kept(n: nat)
    ensures
        n >= 10 ==> dump_path_of(n) is None,
        n < 10 ==> dump_path_of(n) == Some(
            "wgc-dump/frame_0"@ + seq![(48 + n) as char] + ".bmp"@,
        ),
{
}

} // verus!
