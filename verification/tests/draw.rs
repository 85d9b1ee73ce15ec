use am_renderer::draw::{
    debug_color, debug_label, draw_char, draw_line, draw_rect, draw_text, draw_text_with_bg,
    get_char_pixels,
};
use am_renderer::raster::Raster;
use image::{Rgba, RgbaImage};

fn reference_line(img: &mut RgbaImage, x0: i32, y0: i32, x1: i32, y1: i32, color: Rgba<u8>) {
    let dx = (x1 - x0).abs();
    let dy = (y1 - y0).abs();
    let sx = if x0 < x1 { 1 } else { -1 };
    let sy = if y0 < y1 { 1 } else { -1 };
    let mut err = dx - dy;
    let mut x = x0;
    let mut y = y0;
    loop {
        if x >= 0 && x < img.width() as i32 && y >= 0 && y < img.height() as i32 {
            img.put_pixel(x as u32, y as u32, color);
        }
        if x == x1 && y == y1 {
            break;
        }
        let e2 = 2 * err;
        if e2 > -dy {
            err -= dy;
            x += sx;
        }
        if e2 < dx {
            err += dx;
            y += sy;
        }
    }
}

fn reference_char(img: &mut RgbaImage, x: i32, y: i32, c: char, color: Rgba<u8>, scale: i32) {
    let bits = get_char_pixels(c);
    for row in 0..5 {
        for col in 0..3 {
            let bit_idx = 14 - (row * 3 + col);
            if ((bits >> bit_idx) & 1) == 1 {
                for dy in 0..scale {
                    for dx in 0..scale {
                        let px = x + col * scale + dx;
                        let py = y + row * scale + dy;
                        if px >= 0 && px < img.width() as i32 && py >= 0 && py < img.height() as i32 {
                            img.put_pixel(px as u32, py as u32, color);
                        }
                    }
                }
            }
        }
    }
}

fn raster(w: u32, h: u32) -> Raster {
    Raster::new(w, h)
}

fn to_image(r: Raster) -> RgbaImage {
    let (w, h) = (r.width(), r.height());
    RgbaImage::from_raw(w, h, r.into_raw()).unwrap()
}

#[test]
fn lines_match_reference() {
    let segs = [(0, 0, 19, 7), (19, 7, 0, 0), (3, 15, 3, -4), (-5, 2, 25, 9), (10, 10, 10, 10), (0, 19, 19, 0), (2, 3, 17, 3), (-30, -30, 40, 40)];
    let color = Rgba([9, 8, 7, 255]);
    for (x0, y0, x1, y1) in segs {
        let mut r = raster(20, 16);
        draw_line(&mut r, x0, y0, x1, y1, Rgba([9, 8, 7, 255]));
        let mut reference = RgbaImage::new(20, 16);
        reference_line(&mut reference, x0, y0, x1, y1, color);
        assert_eq!(to_image(r).into_raw(), reference.into_raw(), "{:?}", (x0, y0, x1, y1));
    }
}

#[test]
fn long_line_far_outside_terminates() {
    let mut r = raster(4, 4);
    draw_line(&mut r, -1_000_000, 1, 1_000_000, 2, Rgba([1, 1, 1, 1]));
    let img = to_image(r);
    assert_eq!(img.get_pixel(0, 1).0, [1, 1, 1, 1]);
    assert_eq!(img.get_pixel(0, 0).0, [0, 0, 0, 0]);
}

#[test]
fn rect_outline() {
    let mut r = raster(8, 8);
    draw_rect(&mut r, 1, 1, 4, 3, Rgba([255, 0, 0, 255]));
    let img = to_image(r);
    for x in 1..=5 {
        assert_eq!(img.get_pixel(x, 1).0, [255, 0, 0, 255]);
        assert_eq!(img.get_pixel(x, 4).0, [255, 0, 0, 255]);
    }
    for y in 1..=4 {
        assert_eq!(img.get_pixel(1, y).0, [255, 0, 0, 255]);
        assert_eq!(img.get_pixel(5, y).0, [255, 0, 0, 255]);
    }
    assert_eq!(img.get_pixel(3, 2).0, [0, 0, 0, 0]);
}

#[test]
fn glyphs_and_text_match_reference() {
    assert_eq!(get_char_pixels('0'), 0b111_101_101_101_111);
    assert_eq!(get_char_pixels('a'), get_char_pixels('A'));
    assert_eq!(get_char_pixels('?'), 0);
    let color = Rgba([0, 200, 0, 255]);
    let mut r = raster(40, 12);
    draw_char(&mut r, 1, 1, 'K', Rgba([0, 200, 0, 255]), 2);
    let mut reference = RgbaImage::new(40, 12);
    reference_char(&mut reference, 1, 1, 'K', color, 2);
    assert_eq!(to_image(r).into_raw(), reference.clone().into_raw());

    let mut r = raster(40, 12);
    draw_text(&mut r, -2, 3, "Ab:9", Rgba([0, 200, 0, 255]), 2);
    let mut reference = RgbaImage::new(40, 12);
    let mut cx = -2;
    for c in "Ab:9".chars() {
        reference_char(&mut reference, cx, 3, c, color, 2);
        cx += 8;
    }
    assert_eq!(to_image(r).into_raw(), reference.into_raw());
}

#[test]
fn text_with_background() {
    let mut r = raster(30, 10);
    draw_text_with_bg(&mut r, 0, 0, "HI", Rgba([255, 255, 255, 255]), Rgba([26, 26, 26, 230]), 1);
    let img = to_image(r);
    // Background box: 2 bytes * 4 columns wide, 5 rows high.
    assert_eq!(img.get_pixel(7, 4).0, [26, 26, 26, 230]);
    assert_eq!(img.get_pixel(8, 0).0, [0, 0, 0, 0]);
    assert_eq!(img.get_pixel(0, 5).0, [0, 0, 0, 0]);
    // The top left cell of 'H' is set.
    assert_eq!(img.get_pixel(0, 0).0, [255, 255, 255, 255]);
    assert_eq!(img.get_pixel(1, 0).0, [26, 26, 26, 230]);
}

#[test]
fn labels_and_colors() {
    assert_eq!(debug_label(&Some("my layer #1 (v2).png".to_string())), "my layer 1 v2.png");
    assert_eq!(debug_label(&None), "Layer");
    assert_eq!(debug_label(&Some("é_ok-".to_string())), "_ok-");
    assert_eq!(debug_color(0).0, [0, 255, 0, 255]);
    assert_eq!(debug_color(4).0, [255, 128, 0, 255]);
    assert_eq!(debug_color(13).0, [128, 0, 255, 255]);
    assert_eq!(debug_color(7).0, [0, 255, 0, 255]);
}

#[test]
fn raster_conversions() {
    assert!(Raster::from_raw(2, 2, vec![0; 15]).is_none());
    let r = Raster::from_raw(2, 2, vec![7; 16]).unwrap();
    assert_eq!(r.get_pixel(1, 1), [7, 7, 7, 7]);
    assert_eq!(r.as_raw().len(), 16);
    let mut r = Raster::new(3, 2);
    r.put_pixel(2, 1, Rgba([1, 2, 3, 4]));
    assert_eq!(r.get_pixel(2, 1), [1, 2, 3, 4]);
    assert_eq!(&r.as_raw()[20..24], &[1, 2, 3, 4]);
}
