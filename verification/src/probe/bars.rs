//! A test picture of vertical bars that moves.
use vstd::prelude::*;

verus! {

/// The size of the test picture, and its rate.
pub const WIDTH: u32 = 1280;

pub const HEIGHT: u32 = 720;

pub const FPS: u64 = 30;

/// The neutral chroma value.
pub const NEUTRAL: u8 = 128;

/// The luma of the bars, from left to right.
pub open spec fn palette() -> Seq<u8> {
    seq![235u8, 210, 170, 145, 105, 80, 40]
}

/// The luma of the byte at `i` of the picture at time `t`: seven bars of equal
/// width across a row, moved left by `t` and wrapped around.
pub open spec fn bar_luma(i: int, t: int) -> u8 {
    palette()[((i % WIDTH as int + t) % WIDTH as int) * 7 / WIDTH as int]
}

fn shade(bar: u64) -> (l: u8)
    requires
        bar < 7,
    ensures
        l == palette()[bar as int],
{
    if bar == 0 {
        235
    } else if bar == 1 {
        210
    } else if bar == 2 {
        170
    } else if bar == 3 {
        145
    } else if bar == 4 {
        105
    } else if bar == 5 {
        80
    } else {
        40
    }
}

fn fill(plane: &mut [u8], value: u8)
    ensures
        final(plane)@ == Seq::new(old(plane)@.len(), |i: int| value),
{
    let ghost n = plane@.len();
    let len: usize = plane.len();
    for i in 0..len
        invariant
            len == n,
            plane@.len() == n,
            forall|k: int| 0 <= k < i ==> plane@[k] == value,
    {
        plane[i] = value;
    }
    assert(plane@ =~= Seq::new(n, |i: int| value));
}

/// Draws the bars at time `t` into the planes of a picture whose rows are
/// [`WIDTH`] bytes apart. The chroma is neutral.
pub fn fill_bars(y_plane: &mut [u8], u_plane: &mut [u8], v_plane: &mut [u8], t: u32)
    ensures
        final(y_plane)@ == Seq::new(old(y_plane)@.len(), |i: int| bar_luma(i, t as int)),
        final(u_plane)@ == Seq::new(old(u_plane)@.len(), |i: int| NEUTRAL),
        final(v_plane)@ == Seq::new(old(v_plane)@.len(), |i: int| NEUTRAL),
{
    let ghost n = y_plane@.len();
    let len: usize = y_plane.len();
    for i in 0..len
        invariant
            len == n,
            y_plane@.len() == n,
            forall|k: int| 0 <= k < i ==> y_plane@[k] == bar_luma(k, t as int),
    {
        let col: u64 = ((i % WIDTH as usize) as u64 + t as u64) % WIDTH as u64;
        y_plane[i] = shade(col * 7 / WIDTH as u64);
    }
    assert(y_plane@ =~= Seq::new(n, |i: int| bar_luma(i, t as int)));
    fill(u_plane, NEUTRAL);
    fill(v_plane, NEUTRAL);
}

/// The time of the next picture. It wraps around, which shows as a jump once
/// in a long while.
pub fn next_shift(t: u32) -> (r: u32)
    ensures
        r == (t + 4) % 0x1_0000_0000,
{
    t.wrapping_add(4)
}

/// The picture repeats once it has moved by its width.
pub proof fn law_bars_repeat(i: int, t: int)
    requires
        0 <= i,
        0 <= t,
    ensures
        bar_luma(i, t + WIDTH) == bar_luma(i, t),
        bar_luma(i + WIDTH, t) == bar_luma(i, t),
{
}

/// The picture moves left: what a pixel shows next is what its right neighbour
/// shows now.
pub proof fn law_bars_move_left(i: int, t: int)
    requires
        0 <= i,
        0 <= t,
        i % WIDTH as int + 1 < WIDTH,
    ensures
        bar_luma(i, t + 1) == bar_luma(i + 1, t),
{
}

/// Every luma of the picture is within the limited range.
pub proof fn law_bars_are_in_range(i: int, t: int)
    requires
        0 <= i,
        0 <= t,
    ensures
        16 <= bar_luma(i, t) <= 235,
{
    let bar = ((i % WIDTH as int + t) % WIDTH as int) * 7 / WIDTH as int;
    assert(0 <= bar < 7);
}

/// A row of 1280 pixels shows seven bars of equal width, from light to dark, and
/// `t` moves them to the left.
pub proof fn law_seven_bars_across(row: int, column: int, t: int)
    requires
        0 <= row,
        0 <= column < 1280,
        0 <= t,
    ensures
        ({
            let shown = 7 * ((column + t) % 1280);
            bar_luma(row * 1280 + column, t) == if shown < 1280 {
                235u8
            } else if shown < 2 * 1280 {
                210u8
            } else if shown < 3 * 1280 {
                170u8
            } else if shown < 4 * 1280 {
                145u8
            } else if shown < 5 * 1280 {
                105u8
            } else if shown < 6 * 1280 {
                80u8
            } else {
                40u8
            }
        }),
{
    assert((row * 1280 + column) % 1280 == column);
}

/// The test picture is 720p at thirty frames a second, and its chroma is that of a
/// grey.
pub proof fn law_test_picture_is_720p()
    ensures
        WIDTH == 1280,
        HEIGHT == 720,
        FPS == 30,
        NEUTRAL == 128,
{
}

} // verus!
