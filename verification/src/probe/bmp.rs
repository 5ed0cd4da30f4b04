//! Picture files: 24-bit bottom-up BMP.
use vstd::prelude::*;

verus! {

/// The length of the file header and the picture header together.
pub const HEADER_LEN: usize = 54;

/// The four bytes of a number, lowest first. What does not fit is cut off.
pub open spec fn le4(x: int) -> Seq<u8> {
    seq![
        (x % 256) as u8,
        (x / 256 % 256) as u8,
        (x / 65536 % 256) as u8,
        (x / 16777216 % 256) as u8,
    ]
}

/// The bytes of a row: three per pixel, padded to a multiple of four.
pub open spec fn row_len(w: int) -> int {
    (w * 3 + 3) / 4 * 4
}

/// The bytes of the picture without its headers.
pub open spec fn image_len(w: int, h: int) -> int {
    row_len(w) * h
}

/// The headers of a picture of the given size.
pub open spec fn header(w: int, h: int) -> Seq<u8> {
    seq![0x42u8, 0x4d] + le4(54 + image_len(w, h)) + le4(0) + le4(54) + le4(40) + le4(w) + le4(h)
        + seq![1u8, 0, 24, 0] + le4(0) + le4(image_len(w, h)) + le4(2835) + le4(2835) + le4(0)
        + le4(0)
}

/// Row `y` of the picture, counted from the top: blue, green and red of each
/// pixel, and zeros up to the row's length.
pub open spec fn row(bgra: Seq<u8>, pitch: int, w: int, y: int) -> Seq<u8> {
    Seq::new(
        row_len(w) as nat,
        |k: int|
            if k < 3 * w {
                bgra[y * pitch + k / 3 * 4 + k % 3]
            } else {
                0u8
            },
    )
}

/// The top `n` rows of the picture, from the lowest up.
pub open spec fn rows_up(bgra: Seq<u8>, pitch: int, w: int, n: nat) -> Seq<u8>
    decreases n,
{
    if n == 0 {
        seq![]
    } else {
        row(bgra, pitch, w, n - 1) + rows_up(bgra, pitch, w, (n - 1) as nat)
    }
}

/// The file of a BGRA picture.
pub open spec fn bmp_of(bgra: Seq<u8>, pitch: int, w: int, h: int) -> Seq<u8> {
    header(w, h) + rows_up(bgra, pitch, w, h as nat)
}

fn push_le4(out: &mut Vec<u8>, x: usize)
    ensures
        final(out)@ == old(out)@ + le4(x as int),
{
    out.push((x % 256) as u8);
    out.push((x / 256 % 256) as u8);
    out.push((x / 65536 % 256) as u8);
    out.push((x / 16777216 % 256) as u8);
    assert(out@ =~= old(out)@ + le4(x as int));
}

fn push_header(w: u32, h: u32, img_size: usize) -> (out: Vec<u8>)
    requires
        img_size == image_len(w as int, h as int),
        54 + img_size <= usize::MAX,
    ensures
        out@ == header(w as int, h as int),
{
    let mut out: Vec<u8> = Vec::new();
    out.push(0x42);
    out.push(0x4d);
    assert(out@ =~= seq![0x42u8, 0x4d]);
    push_le4(&mut out, 54 + img_size);
    push_le4(&mut out, 0);
    push_le4(&mut out, 54);
    push_le4(&mut out, 40);
    push_le4(&mut out, w as usize);
    push_le4(&mut out, h as usize);
    let ghost so_far = out@;
    out.push(1);
    out.push(0);
    out.push(24);
    out.push(0);
    assert(out@ =~= so_far + seq![1u8, 0, 24, 0]);
    push_le4(&mut out, 0);
    push_le4(&mut out, img_size);
    push_le4(&mut out, 2835);
    push_le4(&mut out, 2835);
    push_le4(&mut out, 0);
    push_le4(&mut out, 0);
    out
}

/// The file of a top-down BGRA picture with `row_pitch` bytes per row.
pub fn bmp_file(bgra: &[u8], w: u32, h: u32, row_pitch: usize) -> (out: Vec<u8>)
    requires
        crate::engine::convert::picture_fits(bgra@.len(), row_pitch as int, w as int, h as int),
        54 + image_len(w as int, h as int) <= usize::MAX,
        row_len(w as int) <= usize::MAX,
    ensures
        out@ == bmp_of(bgra@, row_pitch as int, w as int, h as int),
        out@.len() == 54 + image_len(w as int, h as int),
{
    let row_bytes: usize = ((w as u64 * 3 + 3) / 4 * 4) as usize;
    let img_size: usize = row_bytes * h as usize;
    let mut out = push_header(w, h, img_size);
    let ghost head = out@;
    let ghost pitch = row_pitch as int;
    assert(bgra.len() == bgra@.len());
    let mut y: usize = h as usize;
    while y > 0
        invariant
            y <= h,
            pitch == row_pitch,
            row_bytes == row_len(w as int),
            bgra@.len() <= usize::MAX,
            crate::engine::convert::picture_fits(bgra@.len(), pitch, w as int, h as int),
            out@ + rows_up(bgra@, pitch, w as int, y as nat) == head + rows_up(
                bgra@,
                pitch,
                w as int,
                h as nat,
            ),
        decreases y,
    {
        let ghost before = out@;
        let ghost this = row(bgra@, pitch, w as int, y - 1);
        assert(0 <= (y - 1) * row_pitch <= (h - 1) * row_pitch) by (nonlinear_arith)
            requires
                1 <= y <= h,
                row_pitch >= 0,
        ;
        let src: usize = (y - 1) * row_pitch;
        for k in 0..row_bytes
            invariant
                src == (y - 1) * row_pitch,
                pitch == row_pitch,
                row_bytes == row_len(w as int),
                bgra@.len() <= usize::MAX,
                w > 0 ==> src + (w - 1) * 4 + 2 < bgra@.len(),
                this == row(bgra@, pitch, w as int, y - 1),
                out@ == before + this.subrange(0, k as int),
        {
            let byte: u8 = if k / 3 < w as usize {
                bgra[src + k / 3 * 4 + k % 3]
            } else {
                0
            };
            out.push(byte);
            assert(this[k as int] == byte);
            assert(out@ =~= before + this.subrange(0, k + 1));
        }
        assert(this.subrange(0, row_bytes as int) =~= this);
        let ghost rest = rows_up(bgra@, pitch, w as int, (y - 1) as nat);
        assert((before + this) + rest =~= before + (this + rest));
        y = y - 1;
    }
    assert(out@ + rows_up(bgra@, pitch, w as int, 0) =~= out@);
    proof {
        lemma_rows_up_len(bgra@, pitch, w as int, h as nat);
    }
    out
}

proof fn lemma_rows_up_len(bgra: Seq<u8>, pitch: int, w: int, n: nat)
    requires
        w >= 0,
    ensures
        rows_up(bgra, pitch, w, n).len() == row_len(w) * n,
    decreases n,
{
    if n > 0 {
        lemma_rows_up_len(bgra, pitch, w, (n - 1) as nat);
        assert(row_len(w) * n == row_len(w) + row_len(w) * (n - 1)) by (nonlinear_arith);
    } else {
        assert(row_len(w) * 0 == 0);
    }
}

proof fn lemma_row_is_in_rows_up(bgra: Seq<u8>, pitch: int, w: int, n: nat, y: int, k: int)
    requires
        w >= 0,
        0 <= y < n,
        0 <= k < row_len(w),
    ensures
        0 <= (n - 1 - y) * row_len(w) + k < rows_up(bgra, pitch, w, n).len(),
        rows_up(bgra, pitch, w, n)[(n - 1 - y) * row_len(w) + k] == row(bgra, pitch, w, y)[k],
    decreases n,
{
    let len = row_len(w);
    lemma_rows_up_len(bgra, pitch, w, (n - 1) as nat);
    if y == n - 1 {
        assert((n - 1 - y) * len == 0) by (nonlinear_arith)
            requires
                n - 1 - y == 0,
        ;
        assert(len * (n - 1) >= 0) by (nonlinear_arith)
            requires
                len >= 0,
                n >= 1,
        ;
    } else {
        lemma_row_is_in_rows_up(bgra, pitch, w, (n - 1) as nat, y, k);
        assert((n - 1 - y) * len == (n - 2 - y) * len + len) by (nonlinear_arith);
    }
}

/// The file shows the picture: the blue, green and red of the pixel in row `y`
/// and column `x` stand in the row that lies as far from the file's end as `y`
/// does from the top.
pub proof fn law_pixel_is_in_file(
    bgra: Seq<u8>,
    pitch: int,
    w: int,
    h: int,
    x: int,
    y: int,
    c: int,
)
    requires
        0 <= x < w,
        0 <= y < h,
        0 <= c < 3,
    ensures
        bmp_of(bgra, pitch, w, h)[54 + (h - 1 - y) * row_len(w) + 3 * x + c] == bgra[y * pitch + x
            * 4 + c],
{
    let k = 3 * x + c;
    assert(k / 3 == x && k % 3 == c);
    lemma_row_is_in_rows_up(bgra, pitch, w, h as nat, y, k);
    assert(header(w, h).len() == 54);
}

/// The padding of a row is zero, and shorter than four bytes.
pub proof fn law_padding_is_zero(bgra: Seq<u8>, pitch: int, w: int, h: int, y: int, k: int)
    requires
        0 <= w,
        0 <= y < h,
        3 * w <= k < row_len(w),
    ensures
        bmp_of(bgra, pitch, w, h)[54 + (h - 1 - y) * row_len(w) + k] == 0,
        row_len(w) - 3 * w < 4,
{
    lemma_row_is_in_rows_up(bgra, pitch, w, h as nat, y, k);
    assert(header(w, h).len() == 54);
}

/// The number that four bytes stand for, lowest first.
pub open spec fn from_le4(b: Seq<u8>) -> int {
    b[0] + 256 * b[1] + 65536 * b[2] + 16777216 * b[3]
}

/// The headers say how large the file and the picture are: each number can be
/// read back, as long as it fits in four bytes.
pub proof fn law_header_tells_sizes(w: int, h: int)
    requires
        0 <= w,
        0 <= h,
        w < 0x1_0000_0000,
        h < 0x1_0000_0000,
        54 + image_len(w, h) < 0x1_0000_0000,
    ensures
        header(w, h).len() == 54,
        from_le4(header(w, h).subrange(2, 6)) == 54 + image_len(w, h),
        from_le4(header(w, h).subrange(18, 22)) == w,
        from_le4(header(w, h).subrange(22, 26)) == h,
        from_le4(header(w, h).subrange(34, 38)) == image_len(w, h),
{
    let n = image_len(w, h);
    assert(n >= 0) by (nonlinear_arith)
        requires
            n == row_len(w) * h,
            row_len(w) >= 0,
            h >= 0,
    ;
    lemma_le4_round_trip(54 + n);
    lemma_le4_round_trip(w);
    lemma_le4_round_trip(h);
    lemma_le4_round_trip(n);
    assert(header(w, h).subrange(2, 6) =~= le4(54 + n));
    assert(header(w, h).subrange(18, 22) =~= le4(w));
    assert(header(w, h).subrange(22, 26) =~= le4(h));
    assert(header(w, h).subrange(34, 38) =~= le4(n));
}

proof fn lemma_le4_round_trip(x: int)
    requires
        0 <= x < 0x1_0000_0000,
    ensures
        from_le4(le4(x)) == x,
{
}

/// A row is the three bytes of each pixel, and the fewest more that make it a
/// multiple of four; a picture is as many rows as it is high.
pub proof fn law_rows_are_padded_to_four(w: nat, h: nat)
    ensures
        3 * w <= row_len(w as int) < 3 * w + 4,
        row_len(w as int) % 4 == 0,
        image_len(w as int, h as int) == h * row_len(w as int),
{
    assert(row_len(w as int) * h == h * row_len(w as int)) by (nonlinear_arith);
}

/// The four bytes of a number stand for it, as far as four bytes can.
pub proof fn law_four_bytes_read_back(x: nat)
    ensures
        le4(x as int).len() == 4,
        from_le4(le4(x as int)) == x % 0x1_0000_0000,
{
    let q = x as int / 0x1_0000_0000;
    let r = x as int % 0x1_0000_0000;
    assert(x == 0x1_0000_0000 * q + r);
    assert(x as int % 256 == r % 256);
    assert(x as int / 256 == 0x100_0000 * q + r / 256);
    assert(x as int / 65536 == 0x1_0000 * q + r / 65536);
    assert(x as int / 16777216 == 0x100 * q + r / 16777216);
    assert(x as int / 256 % 256 == r / 256 % 256);
    assert(x as int / 65536 % 256 == r / 65536 % 256);
    assert(x as int / 16777216 % 256 == r / 16777216 % 256);
    assert(le4(x as int) =~= le4(r));
    lemma_le4_round_trip(r);
}

/// The headers are those of a bottom-up bitmap of 24 bits without compression or
/// palette: the mark, the place of the picture, the length of the second header,
/// one plane, and the resolution in both directions.
pub proof fn law_header_is_that_of_a_bitmap(w: nat, h: nat)
    ensures
        ({
            let b = header(w as int, h as int);
            &&& b.len() == 54
            &&& b[0] == 'B' as u8 && b[1] == 'M' as u8
            &&& from_le4(b.subrange(2, 6)) == (54 + image_len(w as int, h as int)) % 0x1_0000_0000
            &&& from_le4(b.subrange(6, 10)) == 0
            &&& from_le4(b.subrange(10, 14)) == 54
            &&& from_le4(b.subrange(14, 18)) == 40
            &&& from_le4(b.subrange(18, 22)) == w % 0x1_0000_0000
            &&& from_le4(b.subrange(22, 26)) == h % 0x1_0000_0000
            &&& b[26] + 256 * b[27] == 1
            &&& b[28] + 256 * b[29] == 24
            &&& from_le4(b.subrange(30, 34)) == 0
            &&& from_le4(b.subrange(34, 38)) == image_len(w as int, h as int) % 0x1_0000_0000
            &&& from_le4(b.subrange(38, 42)) == 2835
            &&& from_le4(b.subrange(42, 46)) == 2835
            &&& from_le4(b.subrange(46, 50)) == 0
            &&& from_le4(b.subrange(50, 54)) == 0
        }),
{
    let b = header(w as int, h as int);
    law_rows_are_padded_to_four(w, h);
    let n = image_len(w as int, h as int);
    assert(n >= 0) by (nonlinear_arith)
        requires
            n == h * row_len(w as int),
            row_len(w as int) >= 0,
            h >= 0,
    ;
    law_four_bytes_read_back((54 + n) as nat);
    law_four_bytes_read_back(0);
    law_four_bytes_read_back(54);
    law_four_bytes_read_back(40);
    law_four_bytes_read_back(w);
    law_four_bytes_read_back(h);
    law_four_bytes_read_back(n as nat);
    law_four_bytes_read_back(2835);
    assert(b.subrange(2, 6) =~= le4(54 + n));
    assert(b.subrange(6, 10) =~= le4(0));
    assert(b.subrange(10, 14) =~= le4(54));
    assert(b.subrange(14, 18) =~= le4(40));
    assert(b.subrange(18, 22) =~= le4(w as int));
    assert(b.subrange(22, 26) =~= le4(h as int));
    assert(b.subrange(30, 34) =~= le4(0));
    assert(b.subrange(34, 38) =~= le4(n));
    assert(b.subrange(38, 42) =~= le4(2835));
    assert(b.subrange(42, 46) =~= le4(2835));
    assert(b.subrange(46, 50) =~= le4(0));
    assert(b.subrange(50, 54) =~= le4(0));
}

/// A file is its headers and its picture, and nothing more.
pub proof fn law_file_is_headers_and_rows(bgra: Seq<u8>, pitch: int, w: nat, h: nat)
    ensures
        bmp_of(bgra, pitch, w as int, h as int).len() == 54 + h * row_len(w as int),
        bmp_of(bgra, pitch, w as int, h as int).take(54) == header(w as int, h as int),
{
    lemma_rows_up_len(bgra, pitch, w as int, h);
    assert(row_len(w as int) * h == h * row_len(w as int)) by (nonlinear_arith);
    assert(bmp_of(bgra, pitch, w as int, h as int).take(54) =~= header(w as int, h as int));
}

} // verus!
