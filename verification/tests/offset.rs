use am_renderer::offset::{shifted_row, wrap_offset};

fn reference_shift(src: &[u8], w: usize, h: usize, dx: i32, dy: i32) -> Vec<u8> {
    let wi = w as i32;
    let hi = h as i32;
    let dxw = (((dx % wi) + wi) % wi) as usize;
    let dyw = (((dy % hi) + hi) % hi) as usize;
    let mut out = vec![0u8; src.len()];
    for y in 0..h {
        let sy = if y >= dyw { y - dyw } else { y + (h - dyw) };
        for x in 0..w {
            let sx = if x >= dxw { x - dxw } else { x + (w - dxw) };
            for c in 0..4 {
                out[(y * w + x) * 4 + c] = src[(sy * w + sx) * 4 + c];
            }
        }
    }
    out
}

fn image(w: usize, h: usize) -> Vec<u8> {
    (0..w * h * 4).map(|i| (i * 7 % 251) as u8).collect()
}

#[test]
fn wrap_offset_matches_euclidean_remainder() {
    for n in 1u32..12 {
        for d in -40i32..40 {
            assert_eq!(wrap_offset(d, n) as i32, d.rem_euclid(n as i32), "d={} n={}", d, n);
        }
    }
    assert_eq!(wrap_offset(-3, 10), 7);
    assert_eq!(wrap_offset(13, 10), 3);
    assert_eq!(wrap_offset(-10, 10), 0);
    assert_eq!(wrap_offset(i32::MIN, 7), (i32::MIN).rem_euclid(7) as u32);
    assert_eq!(wrap_offset(i32::MAX, 1000), (i32::MAX).rem_euclid(1000) as u32);
}

#[test]
fn shifted_rows_match_whole_image_shift() {
    let (w, h) = (5usize, 4usize);
    let src = image(w, h);
    for (dx, dy) in [(0, 0), (1, 0), (0, 1), (2, 3), (-1, -2), (7, -9), (-12, 13)] {
        let want = reference_shift(&src, w, h, dx, dy);
        let dxw = wrap_offset(dx, w as u32) as usize;
        let dyw = wrap_offset(dy, h as u32) as usize;
        let mut got = Vec::new();
        for y in 0..h {
            got.extend(shifted_row(&src, w, h, dxw, dyw, y));
        }
        assert_eq!(got, want, "dx={} dy={}", dx, dy);
    }
}

#[test]
fn shift_by_one_pixel_moves_first_pixel() {
    let (w, h) = (3usize, 1usize);
    let src: Vec<u8> = vec![1, 1, 1, 1, 2, 2, 2, 2, 3, 3, 3, 3];
    let row = shifted_row(&src, w, h, 1, 0, 0);
    assert_eq!(row, vec![3, 3, 3, 3, 1, 1, 1, 1, 2, 2, 2, 2]);
}
