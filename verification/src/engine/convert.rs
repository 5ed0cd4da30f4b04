//! BGRA -> I420 (BT.601 limited range) and the row-wise copies around it.
//!
//! A plane is a run of bytes in which row `j` begins `j * stride` bytes in.
use vstd::prelude::*;

verus! {

/// The luma of a colour.
pub open spec fn luma(r: int, g: int, b: int) -> int {
    (66 * r + 129 * g + 25 * b + 128) / 256 + 16
}

/// The blue-difference chroma of a colour.
pub open spec fn chroma_u(r: int, g: int, b: int) -> int {
    (-38 * r - 74 * g + 112 * b + 128) / 256 + 128
}

/// The red-difference chroma of a colour.
pub open spec fn chroma_v(r: int, g: int, b: int) -> int {
    (112 * r - 94 * g - 18 * b + 128) / 256 + 128
}

/// The byte of channel `c` (0 is blue, 1 green, 2 red) of the pixel in row `j`
/// and column `i` of a BGRA picture.
pub open spec fn channel(bgra: Seq<u8>, pitch: int, j: int, i: int, c: int) -> int {
    bgra[j * pitch + i * 4 + c] as int
}

/// The luma byte of a pixel.
pub open spec fn luma_at(bgra: Seq<u8>, pitch: int, j: int, i: int) -> u8 {
    luma(
        channel(bgra, pitch, j, i, 2),
        channel(bgra, pitch, j, i, 1),
        channel(bgra, pitch, j, i, 0),
    ) as u8
}

/// The blue-difference byte of the 2x2 block in block row `j` and column `i`:
/// that of its top left pixel.
pub open spec fn chroma_u_at(bgra: Seq<u8>, pitch: int, j: int, i: int) -> u8 {
    chroma_u(
        channel(bgra, pitch, 2 * j, 2 * i, 2),
        channel(bgra, pitch, 2 * j, 2 * i, 1),
        channel(bgra, pitch, 2 * j, 2 * i, 0),
    ) as u8
}

/// The red-difference byte of the 2x2 block in block row `j` and column `i`:
/// that of its top left pixel.
pub open spec fn chroma_v_at(bgra: Seq<u8>, pitch: int, j: int, i: int) -> u8 {
    chroma_v(
        channel(bgra, pitch, 2 * j, 2 * i, 2),
        channel(bgra, pitch, 2 * j, 2 * i, 1),
        channel(bgra, pitch, 2 * j, 2 * i, 0),
    ) as u8
}

/// Half of a length, rounded up: the side of a chroma plane.
pub open spec fn half_up(n: int) -> int {
    (n + 1) / 2
}

/// The byte at `k` of a plane after `rows` rows of `cols` bytes were written
/// to it from the top down: that of the last row that covers `k`, and the old
/// one where none does.
pub open spec fn plane_byte(
    old: Seq<u8>,
    stride: int,
    rows: nat,
    cols: int,
    value: spec_fn(int, int) -> u8,
    k: int,
) -> u8
    decreases rows,
{
    if rows == 0 {
        old[k]
    } else if 0 <= k - (rows - 1) * stride < cols {
        value(rows - 1, k - (rows - 1) * stride)
    } else {
        plane_byte(old, stride, (rows - 1) as nat, cols, value, k)
    }
}

/// A plane holds what it held, overwritten by `rows` rows of `cols` bytes.
pub open spec fn plane_written(
    old: Seq<u8>,
    new: Seq<u8>,
    stride: int,
    rows: nat,
    cols: int,
    value: spec_fn(int, int) -> u8,
) -> bool {
    &&& new.len() == old.len()
    &&& forall|k: int|
        0 <= k < new.len() ==> #[trigger] new[k] == plane_byte(old, stride, rows, cols, value, k)
}

/// A plane of `len` bytes has room for `rows` rows of `cols` bytes.
pub open spec fn plane_fits(len: nat, stride: int, rows: int, cols: int) -> bool {
    rows > 0 && cols > 0 ==> (rows - 1) * stride + cols <= len
}

/// A BGRA picture of `len` bytes has the blue, green and red of `h` rows of `w`
/// pixels.
pub open spec fn picture_fits(len: nat, pitch: int, w: int, h: int) -> bool {
    h > 0 ==> {
        &&& (h - 1) * pitch <= len
        &&& w > 0 ==> (h - 1) * pitch + (w - 1) * 4 + 2 < len
    }
}

proof fn lemma_row_start(j: int, rows: int, stride: int)
    requires
        0 <= j < rows,
        stride >= 0,
    ensures
        0 <= j * stride <= (rows - 1) * stride,
{
    assert(0 <= j * stride <= (rows - 1) * stride) by (nonlinear_arith)
        requires
            0 <= j < rows,
            stride >= 0,
    ;
}

/// A plane holds `j` whole rows and the first `i` bytes of the next.
#[verifier::opaque]
spec fn plane_partial(
    old: Seq<u8>,
    new: Seq<u8>,
    stride: int,
    j: nat,
    i: int,
    cols: int,
    value: spec_fn(int, int) -> u8,
) -> bool {
    &&& new.len() == old.len()
    &&& forall|k: int|
        0 <= k < new.len() ==> #[trigger] new[k] == if 0 <= k - j * stride < i {
            value(j as int, k - j * stride)
        } else {
            plane_byte(old, stride, j, cols, value, k)
        }
}

proof fn lemma_row_begins(
    old: Seq<u8>,
    new: Seq<u8>,
    stride: int,
    j: nat,
    cols: int,
    value: spec_fn(int, int) -> u8,
)
    requires
        plane_written(old, new, stride, j, cols, value),
    ensures
        plane_partial(old, new, stride, j, 0, cols, value),
{
    reveal(plane_partial);
}

proof fn lemma_byte_is_written(
    old: Seq<u8>,
    new: Seq<u8>,
    stride: int,
    j: nat,
    i: int,
    cols: int,
    value: spec_fn(int, int) -> u8,
)
    requires
        plane_partial(old, new, stride, j, i, cols, value),
        0 <= i,
        0 <= j * stride + i < new.len(),
    ensures
        plane_partial(
            old,
            new.update(j * stride + i, value(j as int, i)),
            stride,
            j,
            i + 1,
            cols,
            value,
        ),
{
    reveal(plane_partial);
}

proof fn lemma_row_is_done(
    old: Seq<u8>,
    new: Seq<u8>,
    stride: int,
    j: nat,
    cols: int,
    value: spec_fn(int, int) -> u8,
)
    requires
        plane_partial(old, new, stride, j, cols, cols, value),
    ensures
        plane_written(old, new, stride, j + 1, cols, value),
{
    reveal(plane_partial);
}

/// BGRA (top-down, `row_pitch` bytes per row) -> I420 planes, BT.601 limited
/// range. `strides` are those of the Y, U and V planes. The chroma of a 2x2
/// block is that of its top left pixel.
pub fn cpu_to_i420(
    bgra: &[u8],
    row_pitch: usize,
    w: u32,
    h: u32,
    strides: (u32, u32, u32),
    y_plane: &mut [u8],
    u_plane: &mut [u8],
    v_plane: &mut [u8],
)
    requires
        picture_fits(bgra@.len(), row_pitch as int, w as int, h as int),
        plane_fits(old(y_plane)@.len(), strides.0 as int, h as int, w as int),
        plane_fits(old(u_plane)@.len(), strides.1 as int, half_up(h as int), half_up(w as int)),
        plane_fits(old(v_plane)@.len(), strides.2 as int, half_up(h as int), half_up(w as int)),
    ensures
        plane_written(
            old(y_plane)@,
            final(y_plane)@,
            strides.0 as int,
            h as nat,
            w as int,
            |j: int, i: int| luma_at(bgra@, row_pitch as int, j, i),
        ),
        plane_written(
            old(u_plane)@,
            final(u_plane)@,
            strides.1 as int,
            half_up(h as int) as nat,
            half_up(w as int),
            |j: int, i: int| chroma_u_at(bgra@, row_pitch as int, j, i),
        ),
        plane_written(
            old(v_plane)@,
            final(v_plane)@,
            strides.2 as int,
            half_up(h as int) as nat,
            half_up(w as int),
            |j: int, i: int| chroma_v_at(bgra@, row_pitch as int, j, i),
        ),
{
    let w: usize = w as usize;
    let h: usize = h as usize;
    let (sy, su, sv): (usize, usize, usize) = (
        strides.0 as usize,
        strides.1 as usize,
        strides.2 as usize,
    );
    let ghost y0 = y_plane@;
    let ghost u0 = u_plane@;
    let ghost v0 = v_plane@;
    assert(bgra.len() == bgra@.len() && y_plane.len() == y0.len());
    assert(u_plane.len() == u0.len() && v_plane.len() == v0.len());
    let ghost pitch = row_pitch as int;
    let ghost (cw, ch) = (half_up(w as int), half_up(h as int));
    let ghost luma_of = |j: int, i: int| luma_at(bgra@, pitch, j, i);
    let ghost u_of = |j: int, i: int| chroma_u_at(bgra@, pitch, j, i);
    let ghost v_of = |j: int, i: int| chroma_v_at(bgra@, pitch, j, i);
    for j in 0..h
        invariant
            pitch == row_pitch,
            bgra@.len() <= usize::MAX,
            y0.len() <= usize::MAX,
            u0.len() <= usize::MAX,
            v0.len() <= usize::MAX,
            cw == half_up(w as int),
            ch == half_up(h as int),
            luma_of == (|j: int, i: int| luma_at(bgra@, pitch, j, i)),
            u_of == (|j: int, i: int| chroma_u_at(bgra@, pitch, j, i)),
            v_of == (|j: int, i: int| chroma_v_at(bgra@, pitch, j, i)),
            picture_fits(bgra@.len(), pitch, w as int, h as int),
            plane_fits(y0.len(), sy as int, h as int, w as int),
            plane_fits(u0.len(), su as int, ch, cw),
            plane_fits(v0.len(), sv as int, ch, cw),
            plane_written(y0, y_plane@, sy as int, j as nat, w as int, luma_of),
            plane_written(u0, u_plane@, su as int, half_up(j as int) as nat, cw, u_of),
            plane_written(v0, v_plane@, sv as int, half_up(j as int) as nat, cw, v_of),
    {
        proof {
            lemma_row_start(j as int, h as int, pitch);
            lemma_row_start(j as int, h as int, sy as int);
            lemma_row_start(j as int / 2, ch, su as int);
            lemma_row_start(j as int / 2, ch, sv as int);
        }
        let row: usize = j * row_pitch;
        let ghost cj = (j as int / 2) as nat;
        proof {
            lemma_row_begins(y0, y_plane@, sy as int, j as nat, w as int, luma_of);
            if j % 2 == 0 {
                lemma_row_begins(u0, u_plane@, su as int, cj, cw, u_of);
                lemma_row_begins(v0, v_plane@, sv as int, cj, cw, v_of);
            }
        }
        for i in 0..w
            invariant
                j < h,
                row == j * row_pitch,
                pitch == row_pitch,
                bgra@.len() <= usize::MAX,
                y0.len() <= usize::MAX,
                u0.len() <= usize::MAX,
                v0.len() <= usize::MAX,
                cj == j as int / 2,
                cw == half_up(w as int),
                ch == half_up(h as int),
                luma_of == (|j: int, i: int| luma_at(bgra@, pitch, j, i)),
                u_of == (|j: int, i: int| chroma_u_at(bgra@, pitch, j, i)),
                v_of == (|j: int, i: int| chroma_v_at(bgra@, pitch, j, i)),
                w > 0 ==> row + (w - 1) * 4 + 2 < bgra@.len(),
                w > 0 ==> j * sy + w <= y0.len(),
                w > 0 ==> cj * su + cw <= u0.len(),
                w > 0 ==> cj * sv + cw <= v0.len(),
                0 <= j * sy,
                0 <= cj * su,
                0 <= cj * sv,
                y_plane@.len() == y0.len(),
                u_plane@.len() == u0.len(),
                v_plane@.len() == v0.len(),
                plane_partial(y0, y_plane@, sy as int, j as nat, i as int, w as int, luma_of),
                j % 2 == 0 ==> plane_partial(
                    u0,
                    u_plane@,
                    su as int,
                    cj,
                    half_up(i as int),
                    cw,
                    u_of,
                ),
                j % 2 == 0 ==> plane_partial(
                    v0,
                    v_plane@,
                    sv as int,
                    cj,
                    half_up(i as int),
                    cw,
                    v_of,
                ),
                j % 2 == 1 ==> plane_written(u0, u_plane@, su as int, cj + 1, cw, u_of),
                j % 2 == 1 ==> plane_written(v0, v_plane@, sv as int, cj + 1, cw, v_of),
        {
            let b: i32 = bgra[row + i * 4] as i32;
            let g: i32 = bgra[row + i * 4 + 1] as i32;
            let r: i32 = bgra[row + i * 4 + 2] as i32;
            let y: i32 = (66 * r + 129 * g + 25 * b + 128) / 256 + 16;
            assert(luma_of(j as int, i as int) == y);
            proof {
                lemma_byte_is_written(
                    y0,
                    y_plane@,
                    sy as int,
                    j as nat,
                    i as int,
                    w as int,
                    luma_of,
                );
            }
            y_plane[j * sy + i] = y as u8;
            if j % 2 == 0 && i % 2 == 0 {
                // The bias of 128 is added before the division, which then has
                // nothing negative to round.
                let u: i32 = (-38 * r - 74 * g + 112 * b + 128 + 32768) / 256;
                let v: i32 = (112 * r - 94 * g - 18 * b + 128 + 32768) / 256;
                assert(2 * cj == j && 2 * (i as int / 2) == i);
                assert(u_of(cj as int, i as int / 2) == u);
                assert(v_of(cj as int, i as int / 2) == v);
                proof {
                    let ci = i as int / 2;
                    lemma_byte_is_written(u0, u_plane@, su as int, cj, ci, cw, u_of);
                    lemma_byte_is_written(v0, v_plane@, sv as int, cj, ci, cw, v_of);
                }
                u_plane[(j / 2) * su + i / 2] = u as u8;
                v_plane[(j / 2) * sv + i / 2] = v as u8;
            }
        }
        proof {
            lemma_row_is_done(y0, y_plane@, sy as int, j as nat, w as int, luma_of);
            if j % 2 == 0 {
                lemma_row_is_done(u0, u_plane@, su as int, cj, cw, u_of);
                lemma_row_is_done(v0, v_plane@, sv as int, cj, cw, v_of);
            }
        }
    }
}

/// How many rows of `row_bytes` bytes, taken from the top and at most `rows`,
/// lie whole within `len` bytes.
pub open spec fn rows_within(len: nat, pitch: int, row_bytes: int, rows: nat) -> nat
    decreases rows,
{
    if rows == 0 {
        0
    } else if (rows - 1) * pitch + row_bytes <= len {
        rows
    } else {
        rows_within(len, pitch, row_bytes, (rows - 1) as nat)
    }
}

proof fn lemma_rows_within(len: nat, pitch: int, row_bytes: int, rows: nat, n: nat)
    requires
        pitch >= 0,
        n <= rows,
        n > 0 ==> (n - 1) * pitch + row_bytes <= len,
        n < rows ==> n * pitch + row_bytes > len,
    ensures
        rows_within(len, pitch, row_bytes, rows) == n,
    decreases rows,
{
    if n < rows {
        lemma_row_start(n as int, rows as int, pitch);
        if n < rows - 1 {
            lemma_rows_within(len, pitch, row_bytes, (rows - 1) as nat, n);
        } else if n > 0 {
            assert(rows_within(len, pitch, row_bytes, n) == n);
        } else {
            assert(rows_within(len, pitch, row_bytes, 0) == 0);
        }
    }
}

fn count_rows_within(len: usize, pitch: usize, row_bytes: usize, rows: u32) -> (n: usize)
    ensures
        n == rows_within(len as nat, pitch as int, row_bytes as int, rows as nat),
        n <= rows,
        n > 0 ==> (n - 1) * pitch + row_bytes <= len,
{
    let rows: usize = rows as usize;
    let ghost rest = len - row_bytes;
    let n: usize = if row_bytes > len || rows == 0 {
        0
    } else if pitch == 0 || (len - row_bytes) / pitch >= rows - 1 {
        rows
    } else {
        (len - row_bytes) / pitch + 1
    };
    proof {
        let p = pitch as int;
        if row_bytes <= len && rows > 0 {
            if p == 0 {
                assert((rows - 1) * p == 0) by (nonlinear_arith)
                    requires
                        p == 0,
                ;
            } else {
                let q = rest / p;
                assert(q * p <= rest < q * p + p) by (nonlinear_arith)
                    requires
                        q == rest / p,
                        p > 0,
                ;
                if q >= rows - 1 {
                    assert((rows - 1) * p <= q * p) by (nonlinear_arith)
                        requires
                            q >= rows - 1,
                            p > 0,
                    ;
                } else {
                    assert((q + 1) * p == q * p + p) by (nonlinear_arith);
                }
            }
        }
        lemma_rows_within(len as nat, p, row_bytes as int, rows as nat, n as nat);
    }
    n
}

/// Copies the first `rows` rows of `row_bytes` bytes.
fn copy_rows(
    src: &[u8],
    src_pitch: usize,
    dst: &mut [u8],
    dst_pitch: usize,
    row_bytes: usize,
    rows: usize,
)
    requires
        plane_fits(src@.len(), src_pitch as int, rows as int, row_bytes as int),
        plane_fits(old(dst)@.len(), dst_pitch as int, rows as int, row_bytes as int),
    ensures
        plane_written(
            old(dst)@,
            final(dst)@,
            dst_pitch as int,
            rows as nat,
            row_bytes as int,
            |j: int, i: int| src@[j * src_pitch + i],
        ),
{
    if row_bytes == 0 {
        proof {
            lemma_empty_rows(
                dst@,
                dst_pitch as int,
                rows as nat,
                |j: int, i: int| src@[j * src_pitch + i],
            );
        }
        return;
    }
    let ghost d0 = dst@;
    let ghost byte_of = |j: int, i: int| src@[j * src_pitch + i];
    assert(src.len() == src@.len() && dst.len() == d0.len());
    for j in 0..rows
        invariant
            byte_of == (|j: int, i: int| src@[j * src_pitch + i]),
            row_bytes > 0,
            src@.len() <= usize::MAX,
            d0.len() <= usize::MAX,
            plane_fits(src@.len(), src_pitch as int, rows as int, row_bytes as int),
            plane_fits(d0.len(), dst_pitch as int, rows as int, row_bytes as int),
            plane_written(d0, dst@, dst_pitch as int, j as nat, row_bytes as int, byte_of),
    {
        proof {
            lemma_row_start(j as int, rows as int, src_pitch as int);
            lemma_row_start(j as int, rows as int, dst_pitch as int);
        }
        let from: usize = j * src_pitch;
        let to: usize = j * dst_pitch;
        proof {
            lemma_row_begins(d0, dst@, dst_pitch as int, j as nat, row_bytes as int, byte_of);
        }
        for i in 0..row_bytes
            invariant
                byte_of == (|j: int, i: int| src@[j * src_pitch + i]),
                from == j * src_pitch,
                to == j * dst_pitch,
                src@.len() <= usize::MAX,
                d0.len() <= usize::MAX,
                from + row_bytes <= src@.len(),
                to + row_bytes <= d0.len(),
                dst@.len() == d0.len(),
                plane_partial(
                    d0,
                    dst@,
                    dst_pitch as int,
                    j as nat,
                    i as int,
                    row_bytes as int,
                    byte_of,
                ),
        {
            assert(byte_of(j as int, i as int) == src@[from + i]);
            proof {
                lemma_byte_is_written(
                    d0,
                    dst@,
                    dst_pitch as int,
                    j as nat,
                    i as int,
                    row_bytes as int,
                    byte_of,
                );
            }
            dst[to + i] = src[from + i];
        }
        proof {
            lemma_row_is_done(d0, dst@, dst_pitch as int, j as nat, row_bytes as int, byte_of);
        }
    }
}

proof fn lemma_empty_rows(
    old: Seq<u8>,
    stride: int,
    rows: nat,
    value: spec_fn(int, int) -> u8,
)
    ensures
        plane_written(old, old, stride, rows, 0, value),
    decreases rows,
{
    if rows > 0 {
        lemma_empty_rows(old, stride, (rows - 1) as nat, value);
    }
}

/// How many bytes of each row go into the source texture: what the picture,
/// the texture and `src_w` pixels of four bytes all have.
pub open spec fn upload_row_bytes(row_pitch: int, dst_pitch: int, src_w: int) -> int {
    let shared = if row_pitch <= dst_pitch {
        row_pitch
    } else {
        dst_pitch
    };
    if shared <= src_w * 4 {
        shared
    } else {
        src_w * 4
    }
}

/// Uploads a BGRA picture into a mapped texture of `src_w` x `src_h` pixels
/// with `dst_pitch` bytes per row. The rows that the picture does not hold
/// whole keep what the texture had.
pub fn upload_bgra(
    bgra: &[u8],
    row_pitch: usize,
    texture: &mut [u8],
    dst_pitch: usize,
    src_w: u32,
    src_h: u32,
)
    requires
        plane_fits(
            old(texture)@.len(),
            dst_pitch as int,
            src_h as int,
            upload_row_bytes(row_pitch as int, dst_pitch as int, src_w as int),
        ),
    ensures
        ({
            let row_bytes = upload_row_bytes(row_pitch as int, dst_pitch as int, src_w as int);
            plane_written(
                old(texture)@,
                final(texture)@,
                dst_pitch as int,
                rows_within(bgra@.len(), row_pitch as int, row_bytes, src_h as nat),
                row_bytes,
                |j: int, i: int| bgra@[j * row_pitch + i],
            )
        }),
{
    let shared: usize = if row_pitch <= dst_pitch {
        row_pitch
    } else {
        dst_pitch
    };
    let row_bytes: usize = if shared / 4 >= src_w as usize {
        src_w as usize * 4
    } else {
        shared
    };
    let rows: usize = count_rows_within(bgra.len(), row_pitch, row_bytes, src_h);
    proof {
        if rows > 0 {
            lemma_row_start(rows - 1, src_h as int, dst_pitch as int);
        }
    }
    copy_rows(bgra, row_pitch, texture, dst_pitch, row_bytes, rows);
}

/// Reads a plane of `w` x `h` bytes back from a mapped texture with `src_pitch`
/// bytes per row into `out`, whose rows are `stride` bytes apart. It stops at
/// the first row that `out` has no room for.
pub fn read_plane(
    mapped: &[u8],
    src_pitch: usize,
    w: u32,
    h: u32,
    out: &mut [u8],
    stride: usize,
)
    requires
        plane_fits(mapped@.len(), src_pitch as int, h as int, w as int),
    ensures
        plane_written(
            old(out)@,
            final(out)@,
            stride as int,
            rows_within(old(out)@.len(), stride as int, w as int, h as nat),
            w as int,
            |j: int, i: int| mapped@[j * src_pitch + i],
        ),
{
    let rows: usize = count_rows_within(out.len(), stride, w as usize, h);
    proof {
        if rows > 0 {
            lemma_row_start(rows - 1, h as int, src_pitch as int);
        }
    }
    copy_rows(mapped, src_pitch, out, stride, w as usize, rows);
}

/// The sizes that a converter works between: that of the captured picture,
/// fixed for its life, and that of the encoded one.
#[derive(Clone, Copy, PartialEq, Eq, Debug, Structural)]
pub struct ConverterDims {
    pub src_w: u32,
    pub src_h: u32,
    pub dst_w: u32,
    pub dst_h: u32,
}

/// Half of a side, rounded up.
fn half_up_u32(n: u32) -> (r: u32)
    ensures
        r == half_up(n as int),
{
    n / 2 + n % 2
}

/// How many groups of eight cover `n` pixels.
pub open spec fn groups_of_eight(n: int) -> int {
    (n + 7) / 8
}

fn groups_of_eight_u32(n: u32) -> (r: u32)
    ensures
        r == groups_of_eight(n as int),
{
    if n % 8 == 0 {
        n / 8
    } else {
        n / 8 + 1
    }
}

impl ConverterDims {
    /// The planes and the constants have to be made anew for this size.
    pub fn needs_resize(&self, dst_w: u32, dst_h: u32) -> (r: bool)
        ensures
            r == (self.dst_w != dst_w || self.dst_h != dst_h),
    {
        !(dst_w == self.dst_w && dst_h == self.dst_h)
    }

    /// The same source at another destination size.
    pub fn resized(&self, dst_w: u32, dst_h: u32) -> (d: ConverterDims)
        ensures
            d == (ConverterDims { dst_w, dst_h, ..*self }),
    {
        ConverterDims { src_w: self.src_w, src_h: self.src_h, dst_w, dst_h }
    }

    /// The size of each chroma plane.
    pub fn chroma_size(&self) -> (r: (u32, u32))
        ensures
            r.0 == half_up(self.dst_w as int),
            r.1 == half_up(self.dst_h as int),
    {
        (half_up_u32(self.dst_w), half_up_u32(self.dst_h))
    }

    /// The constants that the shader reads: source width and height, then
    /// destination width and height.
    pub fn constants(&self) -> (r: [u32; 4])
        ensures
            r@ == seq![self.src_w, self.src_h, self.dst_w, self.dst_h],
    {
        let r = [self.src_w, self.src_h, self.dst_w, self.dst_h];
        assert(r@ =~= seq![self.src_w, self.src_h, self.dst_w, self.dst_h]);
        r
    }

    /// How many 8x8 thread groups to dispatch in each direction.
    pub fn dispatch(&self) -> (r: (u32, u32))
        ensures
            r.0 == groups_of_eight(self.dst_w as int),
            r.1 == groups_of_eight(self.dst_h as int),
    {
        (groups_of_eight_u32(self.dst_w), groups_of_eight_u32(self.dst_h))
    }
}

/// The conversion stays within the limited range: 16 to 235 for luma, 16 to
/// 240 for chroma.
pub proof fn law_limited_range(r: u8, g: u8, b: u8)
    ensures
        16 <= luma(r as int, g as int, b as int) <= 235,
        16 <= chroma_u(r as int, g as int, b as int) <= 240,
        16 <= chroma_v(r as int, g as int, b as int) <= 240,
{
}

/// A grey has neutral chroma.
pub proof fn law_grey_is_neutral(n: u8)
    ensures
        chroma_u(n as int, n as int, n as int) == 128,
        chroma_v(n as int, n as int, n as int) == 128,
{
}

/// More of any channel never makes a colour darker.
pub proof fn law_luma_is_monotone(r: u8, g: u8, b: u8, r2: u8, g2: u8, b2: u8)
    requires
        r <= r2,
        g <= g2,
        b <= b2,
    ensures
        luma(r as int, g as int, b as int) <= luma(r2 as int, g2 as int, b2 as int),
{
}

/// Where rows do not overlap, every byte that was written is in its place.
pub proof fn law_written_byte_is_in_place(
    old: Seq<u8>,
    stride: int,
    rows: nat,
    cols: int,
    value: spec_fn(int, int) -> u8,
    j: int,
    i: int,
)
    requires
        cols <= stride,
        0 <= j < rows,
        0 <= i < cols,
    ensures
        plane_byte(old, stride, rows, cols, value, j * stride + i) == value(j, i),
    decreases rows,
{
    if j < rows - 1 {
        law_written_byte_is_in_place(old, stride, (rows - 1) as nat, cols, value, j, i);
        assert(j * stride + stride <= (rows - 1) * stride) by (nonlinear_arith)
            requires
                j + 1 <= rows - 1,
                stride >= 0,
        ;
    }
}

/// The padding between the end of a row and the start of the next, and what
/// lies behind the last row, is left alone.
pub proof fn law_padding_is_untouched(
    old: Seq<u8>,
    stride: int,
    rows: nat,
    cols: int,
    value: spec_fn(int, int) -> u8,
    j: int,
    k: int,
)
    requires
        0 <= cols <= stride,
        0 <= j,
        j * stride + cols <= k,
        k < j * stride + stride || rows <= j + 1,
    ensures
        plane_byte(old, stride, rows, cols, value, k) == old[k],
    decreases rows,
{
    if rows > 0 {
        let last = rows - 1;
        if last <= j {
            assert(last * stride <= j * stride) by (nonlinear_arith)
                requires
                    last <= j,
                    stride >= 0,
            ;
        } else {
            assert(j * stride + stride <= last * stride) by (nonlinear_arith)
                requires
                    j + 1 <= last,
                    stride >= 0,
            ;
        }
        law_padding_is_untouched(old, stride, (rows - 1) as nat, cols, value, j, k);
    }
}

/// The dispatched groups cover the picture, and none lies wholly outside it.
pub proof fn law_dispatch_covers(n: u32)
    ensures
        groups_of_eight(n as int) * 8 >= n,
        n > 0 ==> (groups_of_eight(n as int) - 1) * 8 < n,
{
}

/// The conversion is that of BT.601, each value to the nearest whole number: luma
/// weighs red, green and blue by 66, 129 and 25 parts in 256 above 16, and the
/// chromas weigh them by -38, -74, 112 and by 112, -94, -18 around 128.
pub proof fn law_weights_of_bt601(r: u8, g: u8, b: u8)
    ensures
        -128 <= 66 * r + 129 * g + 25 * b - 256 * (luma(r as int, g as int, b as int) - 16) < 128,
        -128 <= -38 * r - 74 * g + 112 * b - 256 * (chroma_u(r as int, g as int, b as int) - 128)
            < 128,
        -128 <= 112 * r - 94 * g - 18 * b - 256 * (chroma_v(r as int, g as int, b as int) - 128)
            < 128,
{
}

/// Row `j` of `cols` bytes reaches over the byte at `k`.
pub open spec fn row_covers(stride: int, cols: int, j: int, k: int) -> bool {
    j * stride <= k < j * stride + cols
}

/// A byte that any row covers is that of the last row that does, however the rows
/// overlap.
pub proof fn law_last_row_wins(
    old: Seq<u8>,
    stride: int,
    rows: nat,
    cols: int,
    value: spec_fn(int, int) -> u8,
    j: int,
    k: int,
)
    requires
        0 <= j < rows,
        j * stride <= k < j * stride + cols,
        forall|later: int|
            j < later < rows ==> !#[trigger] row_covers(stride, cols, later, k),
    ensures
        plane_byte(old, stride, rows, cols, value, k) == value(j, k - j * stride),
    decreases rows,
{
    if j < rows - 1 {
        assert(!row_covers(stride, cols, rows - 1, k));
        law_last_row_wins(old, stride, (rows - 1) as nat, cols, value, j, k);
    }
}

/// A byte that no row covers stays as it was.
pub proof fn law_uncovered_byte_stays(
    old: Seq<u8>,
    stride: int,
    rows: nat,
    cols: int,
    value: spec_fn(int, int) -> u8,
    k: int,
)
    requires
        forall|j: int| 0 <= j < rows ==> !#[trigger] row_covers(stride, cols, j, k),
    ensures
        plane_byte(old, stride, rows, cols, value, k) == old[k],
    decreases rows,
{
    if rows > 0 {
        assert(!row_covers(stride, cols, rows - 1, k));
        law_uncovered_byte_stays(old, stride, (rows - 1) as nat, cols, value, k);
    }
}

/// The luma byte of the pixel in row `j` and column `i` is that of the three bytes
/// blue, green and red that stand four bytes per column into the row.
pub proof fn law_luma_is_that_of_its_pixel(
    bgra: Seq<u8>,
    pitch: int,
    w: int,
    h: nat,
    old: Seq<u8>,
    new: Seq<u8>,
    stride: int,
    j: int,
    i: int,
)
    requires
        plane_written(old, new, stride, h, w, |j: int, i: int| luma_at(bgra, pitch, j, i)),
        w <= stride,
        0 <= j < h,
        0 <= i < w,
        0 <= j * stride + i < new.len(),
    ensures
        ({
            let at = j * pitch + 4 * i;
            -128 <= 66 * bgra[at + 2] + 129 * bgra[at + 1] + 25 * bgra[at] - 256 * (new[j * stride
                + i] - 16) < 128
        }),
{
    let value = |j: int, i: int| luma_at(bgra, pitch, j, i);
    law_written_byte_is_in_place(old, stride, h, w, value, j, i);
    let at = j * pitch + 4 * i;
    law_weights_of_bt601(bgra[at + 2], bgra[at + 1], bgra[at]);
    law_limited_range(bgra[at + 2], bgra[at + 1], bgra[at]);
    assert(new[j * stride + i] == value(j, i));
}

/// The blue-difference byte of a 2x2 block is that of the three bytes of its top
/// left pixel, which stand eight bytes per block into every second row.
pub proof fn law_chroma_u_is_that_of_its_block(
    bgra: Seq<u8>,
    pitch: int,
    cw: int,
    ch: nat,
    old: Seq<u8>,
    new: Seq<u8>,
    stride: int,
    j: int,
    i: int,
)
    requires
        plane_written(old, new, stride, ch, cw, |j: int, i: int| chroma_u_at(bgra, pitch, j, i)),
        cw <= stride,
        0 <= j < ch,
        0 <= i < cw,
        0 <= j * stride + i < new.len(),
    ensures
        ({
            let at = (2 * j) * pitch + 8 * i;
            -128 <= -38 * bgra[at + 2] - 74 * bgra[at + 1] + 112 * bgra[at] - 256 * (new[j * stride
                + i] - 128) < 128
        }),
{
    let value = |j: int, i: int| chroma_u_at(bgra, pitch, j, i);
    law_written_byte_is_in_place(old, stride, ch, cw, value, j, i);
    let at = (2 * j) * pitch + 8 * i;
    law_weights_of_bt601(bgra[at + 2], bgra[at + 1], bgra[at]);
    law_limited_range(bgra[at + 2], bgra[at + 1], bgra[at]);
    assert(new[j * stride + i] == value(j, i));
}

/// The red-difference byte of a 2x2 block is that of the three bytes of its top
/// left pixel, which stand eight bytes per block into every second row.
pub proof fn law_chroma_v_is_that_of_its_block(
    bgra: Seq<u8>,
    pitch: int,
    cw: int,
    ch: nat,
    old: Seq<u8>,
    new: Seq<u8>,
    stride: int,
    j: int,
    i: int,
)
    requires
        plane_written(old, new, stride, ch, cw, |j: int, i: int| chroma_v_at(bgra, pitch, j, i)),
        cw <= stride,
        0 <= j < ch,
        0 <= i < cw,
        0 <= j * stride + i < new.len(),
    ensures
        ({
            let at = (2 * j) * pitch + 8 * i;
            -128 <= 112 * bgra[at + 2] - 94 * bgra[at + 1] - 18 * bgra[at] - 256 * (new[j * stride
                + i] - 128) < 128
        }),
{
    let value = |j: int, i: int| chroma_v_at(bgra, pitch, j, i);
    law_written_byte_is_in_place(old, stride, ch, cw, value, j, i);
    let at = (2 * j) * pitch + 8 * i;
    law_weights_of_bt601(bgra[at + 2], bgra[at + 1], bgra[at]);
    law_limited_range(bgra[at + 2], bgra[at + 1], bgra[at]);
    assert(new[j * stride + i] == value(j, i));
}

/// A plane that was written is as long as before, and its padding is the old one.
pub proof fn law_written_plane_keeps_padding(
    old: Seq<u8>,
    new: Seq<u8>,
    stride: int,
    rows: nat,
    cols: int,
    value: spec_fn(int, int) -> u8,
    j: int,
    k: int,
)
    requires
        plane_written(old, new, stride, rows, cols, value),
        0 <= cols <= stride,
        0 <= j,
        j * stride + cols <= k < new.len(),
        k < j * stride + stride || rows <= j + 1,
    ensures
        new.len() == old.len(),
        new[k] == old[k],
{
    assert(0 <= j * stride) by (nonlinear_arith)
        requires
            0 <= j,
            0 <= stride,
    ;
    law_padding_is_untouched(old, stride, rows, cols, value, j, k);
}

/// A copied byte stands in the row and the column that it was taken from.
pub proof fn law_copied_byte_is_in_place(
    src: Seq<u8>,
    src_pitch: int,
    old: Seq<u8>,
    new: Seq<u8>,
    stride: int,
    rows: nat,
    cols: int,
    j: int,
    i: int,
)
    requires
        plane_written(old, new, stride, rows, cols, |j: int, i: int| src[j * src_pitch + i]),
        cols <= stride,
        0 <= j < rows,
        0 <= i < cols,
        0 <= j * stride + i < new.len(),
    ensures
        new[j * stride + i] == src[j * src_pitch + i],
{
    let value = |j: int, i: int| src[j * src_pitch + i];
    law_written_byte_is_in_place(old, stride, rows, cols, value, j, i);
}

/// As many rows are copied as lie whole within the bytes, from the top, and no
/// more than there are.
pub proof fn law_whole_rows_are_counted(len: nat, pitch: int, row_bytes: int, rows: nat)
    requires
        pitch >= 0,
    ensures
        ({
            let n = rows_within(len, pitch, row_bytes, rows);
            &&& n <= rows
            &&& n > 0 ==> (n - 1) * pitch + row_bytes <= len
            &&& n < rows ==> n * pitch + row_bytes > len
        }),
    decreases rows,
{
    if rows > 0 && (rows - 1) * pitch + row_bytes > len {
        law_whole_rows_are_counted(len, pitch, row_bytes, (rows - 1) as nat);
    }
}

/// Of each row as many bytes go up as the picture, the texture and the source's
/// width all have, and not one less.
pub proof fn law_upload_takes_what_all_have(row_pitch: nat, dst_pitch: nat, src_w: nat)
    ensures
        ({
            let n = upload_row_bytes(row_pitch as int, dst_pitch as int, src_w as int);
            &&& n <= row_pitch
            &&& n <= dst_pitch
            &&& n <= 4 * src_w
            &&& n == row_pitch || n == dst_pitch || n == 4 * src_w
        }),
{
}

/// A plane has room exactly when its last byte of all rows lies within it, and
/// then every byte does.
pub proof fn law_room_of_a_plane(len: nat, stride: int, rows: int, cols: int, j: int, i: int)
    requires
        stride >= 0,
        0 <= j < rows,
        0 <= i < cols,
    ensures
        plane_fits(len, stride, rows, cols) <==> (rows - 1) * stride + (cols - 1) < len,
        plane_fits(len, stride, rows, cols) ==> 0 <= j * stride + i < len,
{
    lemma_row_start(j, rows, stride);
}

/// A picture is long enough exactly when the red of its last pixel lies within
/// it, and then that of every pixel does.
pub proof fn law_room_of_a_picture(len: nat, pitch: int, w: int, h: int, j: int, i: int)
    requires
        pitch >= 0,
        0 <= j < h,
        0 <= i < w,
    ensures
        picture_fits(len, pitch, w, h) <==> (h - 1) * pitch + 4 * (w - 1) + 2 < len,
        picture_fits(len, pitch, w, h) ==> 0 <= j * pitch + 4 * i + 2 < len,
{
    lemma_row_start(j, h, pitch);
}

/// A chroma plane has a byte for every block, a last odd row or column included.
pub proof fn law_chroma_covers(n: u32)
    ensures
        n <= 2 * half_up(n as int) <= n + 1,
{
}

} // verus!
