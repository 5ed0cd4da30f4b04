use poshumim_hwscreen::engine::convert::{cpu_to_i420, read_plane, upload_bgra, ConverterDims};

fn synthetic_bgra(w: u32, h: u32) -> (Vec<u8>, usize) {
    let pitch = (w * 4) as usize;
    let mut v = vec![0u8; pitch * h as usize];
    for y in 0..h as usize {
        for x in 0..w as usize {
            let p = y * pitch + x * 4;
            v[p] = (x % 256) as u8;
            v[p + 1] = (y % 256) as u8;
            v[p + 2] = ((x + y) % 256) as u8;
            v[p + 3] = 255;
        }
    }
    (v, pitch)
}

fn convert_one(b: u8, g: u8, r: u8) -> (u8, u8, u8) {
    let (mut y, mut u, mut v) = ([7u8], [7u8], [7u8]);
    cpu_to_i420(&[b, g, r], 4, 1, 1, (1, 1, 1), &mut y, &mut u, &mut v);
    (y[0], u[0], v[0])
}

#[test]
fn exact_colours() {
    assert_eq!(convert_one(0, 0, 0), (16, 128, 128));
    assert_eq!(convert_one(255, 255, 255), (235, 128, 128));
    assert_eq!(convert_one(0, 0, 255), (82, 90, 240));
    assert_eq!(convert_one(0, 255, 0), (144, 54, 34));
    assert_eq!(convert_one(255, 0, 0), (41, 240, 110));
}

#[test]
fn whole_picture_matches_the_formula() {
    let (w, h) = (255u32, 127u32);
    let (bgra, pitch) = synthetic_bgra(w, h);
    let (sy, su, sv) = (260usize, 130usize, 140usize);
    let mut y = vec![1u8; sy * h as usize];
    let mut u = vec![2u8; su * 64];
    let mut v = vec![3u8; sv * 64];
    cpu_to_i420(&bgra, pitch, w, h, (260, 130, 140), &mut y, &mut u, &mut v);
    for j in 0..h as usize {
        for i in 0..w as usize {
            let p = j * pitch + i * 4;
            let (b, g, r) = (bgra[p] as i32, bgra[p + 1] as i32, bgra[p + 2] as i32);
            let luma = ((66 * r + 129 * g + 25 * b + 128) >> 8) + 16;
            assert_eq!(y[j * sy + i] as i32, luma.clamp(0, 255));
            if j % 2 == 0 && i % 2 == 0 {
                let cu = ((-38 * r - 74 * g + 112 * b + 128) >> 8) + 128;
                let cv = ((112 * r - 94 * g - 18 * b + 128) >> 8) + 128;
                assert_eq!(u[(j / 2) * su + i / 2] as i32, cu.clamp(0, 255));
                assert_eq!(v[(j / 2) * sv + i / 2] as i32, cv.clamp(0, 255));
            }
        }
        for i in w as usize..sy {
            assert_eq!(y[j * sy + i], 1);
        }
    }
    assert_eq!((u[128], v[128]), (2, 3));
}

#[test]
fn grey_has_neutral_chroma_and_range_is_limited() {
    for n in 0..=255u8 {
        let (y, u, v) = convert_one(n, n, n);
        assert_eq!((u, v), (128, 128));
        assert!((16..=235).contains(&y));
    }
    for b in (0..=255u8).step_by(15) {
        for g in (0..=255u8).step_by(15) {
            for r in (0..=255u8).step_by(15) {
                let (y, u, v) = convert_one(b, g, r);
                assert!((16..=235).contains(&y));
                assert!((16..=240).contains(&u) && (16..=240).contains(&v));
            }
        }
    }
}

#[test]
fn overlapping_rows_keep_the_last() {
    // two rows, one byte apart: the second row covers the end of the first
    let bgra = [0u8, 0, 0, 0, 255, 255, 255, 0, 255, 255, 255, 0, 0, 0, 0, 0];
    let (mut y, mut u, mut v) = ([0u8; 3], [0u8; 1], [0u8; 1]);
    cpu_to_i420(&bgra, 8, 2, 2, (1, 1, 1), &mut y, &mut u, &mut v);
    assert_eq!(y, [16, 235, 16]);
}

#[test]
fn empty_pictures() {
    let (mut y, mut u, mut v) = ([5u8; 2], [5u8; 2], [5u8; 2]);
    cpu_to_i420(&[], 0, 0, 7, (1, 1, 1), &mut y, &mut u, &mut v);
    cpu_to_i420(&[], 9, 7, 0, (1, 1, 1), &mut y, &mut u, &mut v);
    assert_eq!((y, u, v), ([5; 2], [5; 2], [5; 2]));
}

#[test]
fn upload_stops_where_the_picture_ends() {
    let bgra: Vec<u8> = (1..=20).collect();
    let mut tex = [0u8; 40];
    // 2x4 pixels, 10 bytes per row: rows of 8 bytes; the picture holds two
    upload_bgra(&bgra, 10, &mut tex, 12, 2, 4);
    assert_eq!(&tex[0..8], &bgra[0..8]);
    assert_eq!(&tex[8..12], &[0; 4]);
    assert_eq!(&tex[12..20], &bgra[10..18]);
    assert_eq!(&tex[20..], &[0; 20]);
    // a texture with shorter rows takes what it can
    let mut narrow = [0u8; 6];
    upload_bgra(&bgra, 10, &mut narrow, 3, 2, 2);
    assert_eq!(narrow, [1, 2, 3, 11, 12, 13]);
}

#[test]
fn read_back_stops_where_the_plane_ends() {
    let mapped: Vec<u8> = (1..=16).collect();
    let mut out = [0u8; 8];
    read_plane(&mapped, 4, 3, 4, &mut out, 3);
    assert_eq!(out, [1, 2, 3, 5, 6, 7, 0, 0]);
    let mut wide = [9u8; 14];
    read_plane(&mapped, 4, 3, 3, &mut wide, 5);
    assert_eq!(wide, [1, 2, 3, 9, 9, 5, 6, 7, 9, 9, 9, 10, 11, 9]);
}

#[test]
fn dims() {
    let d = ConverterDims { src_w: 2560, src_h: 1440, dst_w: 1601, dst_h: 900 };
    assert_eq!(d.chroma_size(), (801, 450));
    assert_eq!(d.dispatch(), (201, 113));
    assert_eq!(d.constants(), [2560, 1440, 1601, 900]);
    assert!(!d.needs_resize(1601, 900));
    assert!(d.needs_resize(1601, 901));
    assert!(d.needs_resize(1600, 900));
    let e = d.resized(1280, 720);
    assert_eq!(e, ConverterDims { src_w: 2560, src_h: 1440, dst_w: 1280, dst_h: 720 });
    let m = ConverterDims { src_w: 1, src_h: 1, dst_w: u32::MAX, dst_h: 0 };
    assert_eq!(m.chroma_size(), (0x8000_0000, 0));
    assert_eq!(m.dispatch(), (0x2000_0000, 0));
}
