//! Debug drawing on pixel buffers: straight lines by Bresenham's walk,
//! rectangle outlines, and text in a 3x5 pixel font.

use vstd::prelude::*;
use image::Rgba;
use crate::raster::{Raster, rgba_channels, set_pixel};
use vstd::string::StringSliceAdditionalSpecFns;

verus! {

/// The pixels a line walk visits from `(x, y)` with error term `err` on its
/// way to `(x1, y1)`, taking at most `fuel` steps: each step moves along x
/// when twice the error exceeds `-dy`, along y when it is below `dx`, or
/// both.
pub open spec fn line_walk(
    x: int,
    y: int,
    err: int,
    x1: int,
    y1: int,
    dx: int,
    dy: int,
    sx: int,
    sy: int,
    fuel: nat,
) -> Seq<(int, int)>
    decreases fuel,
{
    if fuel == 0 {
        Seq::empty()
    } else if x == x1 && y == y1 {
        seq![(x, y)]
    } else {
        let e2 = 2 * err;
        let nx = if e2 > -dy { x + sx } else { x };
        let err1 = if e2 > -dy { err - dy } else { err };
        let ny = if e2 < dx { y + sy } else { y };
        let err2 = if e2 < dx { err1 + dx } else { err1 };
        seq![(x, y)] + line_walk(nx, ny, err2, x1, y1, dx, dy, sx, sy, (fuel - 1) as nat)
    }
}

/// The absolute value.
pub open spec fn abs(a: int) -> int {
    if a < 0 {
        -a
    } else {
        a
    }
}

/// The pixels of the line from `(x0, y0)` to `(x1, y1)`, both ends included,
/// in the order Bresenham's algorithm visits them.
pub open spec fn line_points(x0: int, y0: int, x1: int, y1: int) -> Seq<(int, int)> {
    let dx = abs(x1 - x0);
    let dy = abs(y1 - y0);
    let sx = if x0 < x1 { 1int } else { -1int };
    let sy = if y0 < y1 { 1int } else { -1int };
    line_walk(x0, y0, dx - dy, x1, y1, dx, dy, sx, sy, (dx + dy + 1) as nat)
}

/// `(x, y)` lies in a buffer of `w` by `h` pixels, the sizes read as `i32`
/// as the drawing code reads them.
pub open spec fn in_canvas(x: int, y: int, w: u32, h: u32) -> bool {
    0 <= x < (w as i32) && 0 <= y < (h as i32)
}

/// The bytes `b` of a `w` by `h` buffer with the pixels of `pts` that lie in
/// it set to the channels `c`.
pub open spec fn paint(b: Seq<u8>, w: u32, h: u32, pts: Seq<(int, int)>, c: Seq<u8>) -> Seq<u8>
    decreases pts.len(),
{
    if pts.len() == 0 {
        b
    } else {
        let prev = paint(b, w, h, pts.drop_last(), c);
        let p = pts.last();
        if in_canvas(p.0, p.1, w, h) {
            set_pixel(prev, w as int, p.0, p.1, c)
        } else {
            prev
        }
    }
}

proof fn lemma_i32_view(w: u32)
    ensures
        (w as i32) >= 0 ==> (w as i32) as int == w as int,
{
    assert((w as i32) >= 0 ==> (w as i32) as u32 == w) by (bit_vector);
    assert((w as i32) >= 0 ==> w <= 0x7fff_ffff) by (bit_vector);
}

/// Set the pixel at `(x, y)` when it lies in the buffer.
fn plot(img: &mut Raster, x: i128, y: i128, color: Rgba<u8>)
    requires
        old(img).wf(),
    ensures
        final(img).wf(),
        final(img).spec_width() == old(img).spec_width(),
        final(img).spec_height() == old(img).spec_height(),
        final(img).bytes() == (if in_canvas(
            x as int,
            y as int,
            old(img).spec_width(),
            old(img).spec_height(),
        ) {
            set_pixel(
                old(img).bytes(),
                old(img).spec_width() as int,
                x as int,
                y as int,
                rgba_channels(color),
            )
        } else {
            old(img).bytes()
        }),
{
    let w = img.width();
    let h = img.height();
    let wi = w as i32;
    let hi = h as i32;
    if x >= 0 && x < wi as i128 && y >= 0 && y < hi as i128 {
        proof {
            lemma_i32_view(w);
            lemma_i32_view(h);
        }
        img.put_pixel(x as u32, y as u32, color);
    }
}

proof fn lemma_mul_step_bound(j: int, dy: int, dx: int)
    requires
        0 <= j <= dy - 1,
        dx >= 0,
    ensures
        j * dx <= dy * dx - dx,
{
    assert(j * dx <= (dy - 1) * dx) by (nonlinear_arith)
        requires
            j <= dy - 1,
            dx >= 0,
    ;
    assert((dy - 1) * dx == dy * dx - dx) by (nonlinear_arith);
}

/// Draw the line from `(x0, y0)` to `(x1, y1)` with Bresenham's algorithm,
/// setting each of its pixels that lies in the buffer to `color`.
pub fn draw_line(img: &mut Raster, x0: i32, y0: i32, x1: i32, y1: i32, color: Rgba<u8>)
    requires
        old(img).wf(),
    ensures
        final(img).wf(),
        final(img).spec_width() == old(img).spec_width(),
        final(img).spec_height() == old(img).spec_height(),
        final(img).bytes() == paint(
            old(img).bytes(),
            old(img).spec_width(),
            old(img).spec_height(),
            line_points(x0 as int, y0 as int, x1 as int, y1 as int),
            rgba_channels(color),
        ),
{
    let ghost b0 = img.bytes();
    let ghost w = img.spec_width();
    let ghost h = img.spec_height();
    let ghost c = rgba_channels(color);
    let ghost pts = line_points(x0 as int, y0 as int, x1 as int, y1 as int);
    let ax0 = x0 as i64;
    let ay0 = y0 as i64;
    let ax1 = x1 as i64;
    let ay1 = y1 as i64;
    let dx: i64 = if ax1 >= ax0 { ax1 - ax0 } else { ax0 - ax1 };
    let dy: i64 = if ay1 >= ay0 { ay1 - ay0 } else { ay0 - ay1 };
    let sx: i64 = if ax0 < ax1 { 1 } else { -1 };
    let sy: i64 = if ay0 < ay1 { 1 } else { -1 };
    let mut err: i64 = dx - dy;
    let mut x = ax0;
    let mut y = ay0;
    let ghost fuel0: int = dx + dy + 1;
    let ghost mut i: int = 0;
    let ghost mut j: int = 0;
    let ghost mut t: int = 0;
    let ghost mut p: int = 0;
    let ghost mut q: int = 0;
    assert(pts.take(0) =~= Seq::<(int, int)>::empty());
    assert(pts == pts.take(0) + line_walk(
        x as int,
        y as int,
        err as int,
        x1 as int,
        y1 as int,
        dx as int,
        dy as int,
        sx as int,
        sy as int,
        fuel0 as nat,
    ));
    loop
        invariant_except_break
            0 <= i <= dx,
            0 <= j <= dy,
            sx == 1 ==> x == ax0 + i && ax0 + dx == ax1,
            sx == -1 ==> x == ax0 - i && ax0 - dx == ax1,
            sy == 1 ==> y == ay0 + j && ay0 + dy == ay1,
            sy == -1 ==> y == ay0 - j && ay0 - dy == ay1,
            sx == 1 || sx == -1,
            sy == 1 || sy == -1,
            dx == abs(ax1 - ax0),
            dy == abs(ay1 - ay0),
            0 <= dx <= 0xffff_ffff,
            0 <= dy <= 0xffff_ffff,
            ax1 == x1 as i64,
            ay1 == y1 as i64,
            p == j * dx,
            q == i * dy,
            err == dx - dy + p - q,
            -dx - dy <= p - q <= dx + dy,
            0 <= t <= i + j,
            fuel0 == dx + dy + 1,
            pts == pts.take(t) + line_walk(
                x as int,
                y as int,
                err as int,
                x1 as int,
                y1 as int,
                dx as int,
                dy as int,
                sx as int,
                sy as int,
                (fuel0 - t) as nat,
            ),
            t <= pts.len(),
            c == rgba_channels(color),
            img.wf(),
            img.spec_width() == w,
            img.spec_height() == h,
            img.bytes() == paint(b0, w, h, pts.take(t), c),
        ensures
            img.wf(),
            img.spec_width() == w,
            img.spec_height() == h,
            img.bytes() == paint(b0, w, h, pts, c),
        decreases (dx - i) + (dy - j),
    {
        let ghost fuel = (fuel0 - t) as nat;
        let ghost walk = line_walk(
            x as int,
            y as int,
            err as int,
            x1 as int,
            y1 as int,
            dx as int,
            dy as int,
            sx as int,
            sy as int,
            fuel,
        );
        assert(fuel >= 1);
        assert(walk.len() >= 1);
        assert(walk[0] == (x as int, y as int));
        assert(t + 1 <= pts.len());
        assert(pts[t] == (x as int, y as int)) by {
            assert(pts[t] == (pts.take(t) + walk)[t]);
        }
        assert(pts.take(t + 1) =~= pts.take(t).push((x as int, y as int)));
        assert(pts.take(t + 1).drop_last() == pts.take(t));
        let ghost before = img.bytes();
        assert(before == paint(b0, w, h, pts.take(t), c));
        plot(img, x as i128, y as i128, color);
        assert(pts.take(t + 1).last() == (x as int, y as int));
        assert(img.bytes() == (if in_canvas(x as int, y as int, w, h) {
            set_pixel(before, w as int, x as int, y as int, c)
        } else {
            before
        }));
        assert(paint(b0, w, h, pts.take(t + 1), c) == (if in_canvas(x as int, y as int, w, h) {
            set_pixel(paint(b0, w, h, pts.take(t), c), w as int, x as int, y as int, c)
        } else {
            paint(b0, w, h, pts.take(t), c)
        }));
        assert(img.bytes() == paint(b0, w, h, pts.take(t + 1), c));
        if x == ax1 && y == ay1 {
            assert(x as int == x1 as int && y as int == y1 as int);
            assert(walk =~= seq![(x as int, y as int)]);
            assert(pts =~= pts.take(t + 1));
            break;
        }
        let e2 = 2 * err;
        proof {
            // Not at the end, so there is room to move along x or along y.
            if i == dx {
                assert(j < dy);
                lemma_mul_step_bound(j, dy as int, dx as int);
                assert(q == dx * dy);
                assert(p <= dy * dx - dx);
                assert(dy * dx == dx * dy) by (nonlinear_arith);
            }
            if j == dy {
                assert(i < dx);
                lemma_mul_step_bound(i, dx as int, dy as int);
                assert(p == dy * dx);
                assert(dy * dx == dx * dy) by (nonlinear_arith);
            }
        }
        if e2 > -dy {
            err = err - dy;
            x = x + sx;
            proof {
                i = i + 1;
                q = q + dy;
                assert(q == i * dy) by (nonlinear_arith)
                    requires
                        q == (i - 1) * dy + dy,
                ;
            }
        }
        if e2 < dx {
            err = err + dx;
            y = y + sy;
            proof {
                j = j + 1;
                p = p + dx;
                assert(p == j * dx) by (nonlinear_arith)
                    requires
                        p == (j - 1) * dx + dx,
                ;
            }
        }
        proof {
            let nwalk = line_walk(
                x as int,
                y as int,
                err as int,
                x1 as int,
                y1 as int,
                dx as int,
                dy as int,
                sx as int,
                sy as int,
                (fuel - 1) as nat,
            );
            assert(walk == seq![pts[t]] + nwalk);
            assert(pts =~= pts.take(t + 1) + nwalk);
            t = t + 1;
        }
    }
}

/// Draw the outline of the rectangle with corner `(x, y)`, `w` wide and `h`
/// high: its top, right, bottom and left sides, in that order.
pub fn draw_rect(img: &mut Raster, x: i32, y: i32, w: i32, h: i32, color: Rgba<u8>)
    requires
        old(img).wf(),
        i32::MIN <= x + w <= i32::MAX,
        i32::MIN <= y + h <= i32::MAX,
    ensures
        final(img).wf(),
        final(img).spec_width() == old(img).spec_width(),
        final(img).spec_height() == old(img).spec_height(),
        final(img).bytes() == paint(
            old(img).bytes(),
            old(img).spec_width(),
            old(img).spec_height(),
            line_points(x as int, y as int, x + w, y as int) + line_points(
                x + w,
                y as int,
                x + w,
                y + h,
            ) + line_points(x + w, y + h, x as int, y + h) + line_points(
                x as int,
                y + h,
                x as int,
                y as int,
            ),
            rgba_channels(color),
        ),
{
    let ghost b0 = img.bytes();
    let ghost wd = img.spec_width();
    let ghost ht = img.spec_height();
    let ghost c = rgba_channels(color);
    let ghost l1 = line_points(x as int, y as int, x + w, y as int);
    let ghost l2 = line_points(x + w, y as int, x + w, y + h);
    let ghost l3 = line_points(x + w, y + h, x as int, y + h);
    let ghost l4 = line_points(x as int, y + h, x as int, y as int);
    draw_line(img, x, y, x + w, y, color);
    draw_line(img, x + w, y, x + w, y + h, color);
    proof {
        lemma_paint_concat(b0, wd, ht, l1, l2, c);
    }
    draw_line(img, x + w, y + h, x, y + h, color);
    proof {
        lemma_paint_concat(b0, wd, ht, l1 + l2, l3, c);
    }
    draw_line(img, x, y + h, x, y, color);
    proof {
        lemma_paint_concat(b0, wd, ht, l1 + l2 + l3, l4, c);
    }
}

/// Painting two lists of points one after the other paints their
/// concatenation.
pub proof fn lemma_paint_concat(
    b: Seq<u8>,
    w: u32,
    h: u32,
    a: Seq<(int, int)>,
    z: Seq<(int, int)>,
    c: Seq<u8>,
)
    ensures
        paint(paint(b, w, h, a, c), w, h, z, c) == paint(b, w, h, a + z, c),
    decreases z.len(),
{
    if z.len() == 0 {
        assert(a + z =~= a);
    } else {
        lemma_paint_concat(b, w, h, a, z.drop_last(), c);
        assert((a + z).drop_last() =~= a + z.drop_last());
        assert((a + z).last() == z.last());
    }
}

/// The 3x5 glyph of a character, letters in either case: bit `14 - k`
/// stands for cell `k`, counted row by row from the top left; a character
/// without a glyph is blank.
pub open spec fn glyph_bits(c: char) -> u16 {
    match c {
        '0' => 0b111_101_101_101_111u16,
        '1' => 0b010_110_010_010_111u16,
        '2' => 0b111_001_111_100_111u16,
        '3' => 0b111_001_111_001_111u16,
        '4' => 0b101_101_111_001_001u16,
        '5' => 0b111_100_111_001_111u16,
        '6' => 0b111_100_111_101_111u16,
        '7' => 0b111_001_010_010_010u16,
        '8' => 0b111_101_111_101_111u16,
        '9' => 0b111_101_111_001_111u16,
        'A' | 'a' => 0b111_101_111_101_101u16,
        'B' | 'b' => 0b110_101_110_101_110u16,
        'C' | 'c' => 0b111_100_100_100_111u16,
        'D' | 'd' => 0b110_101_101_101_110u16,
        'E' | 'e' => 0b111_100_111_100_111u16,
        'F' | 'f' => 0b111_100_111_100_100u16,
        'G' | 'g' => 0b111_100_101_101_111u16,
        'H' | 'h' => 0b101_101_111_101_101u16,
        'I' | 'i' => 0b111_010_010_010_111u16,
        'J' | 'j' => 0b001_001_001_101_111u16,
        'K' | 'k' => 0b101_101_110_101_101u16,
        'L' | 'l' => 0b100_100_100_100_111u16,
        'M' | 'm' => 0b101_111_101_101_101u16,
        'N' | 'n' => 0b101_111_101_101_101u16,
        'O' | 'o' => 0b111_101_101_101_111u16,
        'P' | 'p' => 0b111_101_111_100_100u16,
        'Q' | 'q' => 0b111_101_111_011_001u16,
        'R' | 'r' => 0b111_101_111_101_101u16,
        'S' | 's' => 0b111_100_111_001_111u16,
        'T' | 't' => 0b111_010_010_010_010u16,
        'U' | 'u' => 0b101_101_101_101_111u16,
        'V' | 'v' => 0b101_101_101_010_010u16,
        'W' | 'w' => 0b101_101_101_111_101u16,
        'X' | 'x' => 0b101_101_010_101_101u16,
        'Y' | 'y' => 0b101_101_010_010_010u16,
        'Z' | 'z' => 0b111_001_010_100_111u16,
        ':' => 0b000_010_000_010_000u16,
        '-' => 0b000_000_111_000_000u16,
        '_' => 0b000_000_000_000_111u16,
        '.' => 0b000_000_000_000_010u16,
        '(' => 0b010_100_100_100_010u16,
        ')' => 0b010_001_001_001_010u16,
        _ => 0u16,
    }
}

/// A glyph seen in a mirror: each of its five rows read right to left.
pub open spec fn mirrored(bits: u16) -> u16 {
    ((bits & 0b100_100_100_100_100u16) >> 2u16) | (bits & 0b010_010_010_010_010u16) | ((bits
        & 0b001_001_001_001_001u16) << 2u16)
}

/// A glyph turned upside down: its rows in reverse order, each mirrored.
pub open spec fn turned(bits: u16) -> u16 {
    mirrored(
        ((bits & 0b111u16) << 12u16) | ((bits & 0b111_000u16) << 6u16) | (bits & 0b111_000_000u16)
            | ((bits >> 6u16) & 0b111_000u16) | ((bits >> 12u16) & 0b111u16),
    )
}

/// Cell `(row, col)` of a mirrored glyph is cell `(row, 2 - col)` of the
/// glyph.
pub proof fn lemma_mirrored_cells(bits: u16, row: u16, col: u16)
    requires
        row < 5,
        col < 3,
    ensures
        cell_on(mirrored(bits), (3 * row + col) as int) == cell_on(bits, (3 * row + 2 - col) as int),
{
    let k: u16 = (14 - (3 * row + col)) as u16;
    let m: u16 = (14 - (3 * row + 2 - col)) as u16;
    assert(((mirrored(bits) >> k) & 1u16) == ((bits >> m) & 1u16)) by (bit_vector)
        requires
            row < 5,
            col < 3,
            k == 14 - (3 * row + col),
            m == 14 - (3 * row + 2 - col),
    ;
}

/// No digit is drawn as another digit or as a blank: the ten digits have
/// ten distinct, non-empty glyphs.
pub proof fn lemma_digit_glyphs_distinct(c: char, d: char)
    requires
        '0' <= c <= '9',
        '0' <= d <= '9',
    ensures
        glyph_bits(c) != 0,
        c != d ==> glyph_bits(c) != glyph_bits(d),
{
}

/// Letters are drawn alike in either case.
pub proof fn lemma_glyph_case_insensitive(c: char)
    requires
        'a' <= c <= 'z',
    ensures
        glyph_bits(c) == glyph_bits(((c as u32) - 32) as char),
{
}

/// The font's look-alikes: `5` is drawn as `S` and as the mirror image of
/// `2`, `3` as the mirror image of `E`, `0` as `O`, `0` and `8` are their
/// own mirror images, `9` is `6` upside down, and `2` and `5` read the same
/// upside down.
pub proof fn lemma_glyph_lookalikes()
    ensures
        glyph_bits('5') == glyph_bits('S'),
        glyph_bits('0') == glyph_bits('O'),
        glyph_bits('5') == mirrored(glyph_bits('2')),
        glyph_bits('3') == mirrored(glyph_bits('E')),
        mirrored(glyph_bits('0')) == glyph_bits('0'),
        mirrored(glyph_bits('8')) == glyph_bits('8'),
        turned(glyph_bits('6')) == glyph_bits('9'),
        turned(glyph_bits('2')) == glyph_bits('2'),
        turned(glyph_bits('5')) == glyph_bits('5'),
{
    assert(turned(0b111_100_111_101_111u16) == 0b111_101_111_001_111u16) by (bit_vector);
    assert(turned(0b111_001_111_100_111u16) == 0b111_001_111_100_111u16) by (bit_vector);
    assert(turned(0b111_100_111_001_111u16) == 0b111_100_111_001_111u16) by (bit_vector);
    assert(mirrored(0b111_001_111_100_111u16) == 0b111_100_111_001_111u16) by (bit_vector);
    assert(mirrored(0b111_100_111_100_111u16) == 0b111_001_111_001_111u16) by (bit_vector);
    assert(mirrored(0b111_101_101_101_111u16) == 0b111_101_101_101_111u16) by (bit_vector);
    assert(mirrored(0b111_101_111_101_111u16) == 0b111_101_111_101_111u16) by (bit_vector);
}

/// The 3x5 glyph of a character.
pub fn get_char_pixels(c: char) -> (bits: u16)
    ensures
        bits == glyph_bits(c),
{
    match c {
        '0' => 0b111_101_101_101_111,
        '1' => 0b010_110_010_010_111,
        '2' => 0b111_001_111_100_111,
        '3' => 0b111_001_111_001_111,
        '4' => 0b101_101_111_001_001,
        '5' => 0b111_100_111_001_111,
        '6' => 0b111_100_111_101_111,
        '7' => 0b111_001_010_010_010,
        '8' => 0b111_101_111_101_111,
        '9' => 0b111_101_111_001_111,
        'A' | 'a' => 0b111_101_111_101_101,
        'B' | 'b' => 0b110_101_110_101_110,
        'C' | 'c' => 0b111_100_100_100_111,
        'D' | 'd' => 0b110_101_101_101_110,
        'E' | 'e' => 0b111_100_111_100_111,
        'F' | 'f' => 0b111_100_111_100_100,
        'G' | 'g' => 0b111_100_101_101_111,
        'H' | 'h' => 0b101_101_111_101_101,
        'I' | 'i' => 0b111_010_010_010_111,
        'J' | 'j' => 0b001_001_001_101_111,
        'K' | 'k' => 0b101_101_110_101_101,
        'L' | 'l' => 0b100_100_100_100_111,
        'M' | 'm' => 0b101_111_101_101_101,
        'N' | 'n' => 0b101_111_101_101_101,
        'O' | 'o' => 0b111_101_101_101_111,
        'P' | 'p' => 0b111_101_111_100_100,
        'Q' | 'q' => 0b111_101_111_011_001,
        'R' | 'r' => 0b111_101_111_101_101,
        'S' | 's' => 0b111_100_111_001_111,
        'T' | 't' => 0b111_010_010_010_010,
        'U' | 'u' => 0b101_101_101_101_111,
        'V' | 'v' => 0b101_101_101_010_010,
        'W' | 'w' => 0b101_101_101_111_101,
        'X' | 'x' => 0b101_101_010_101_101,
        'Y' | 'y' => 0b101_101_010_010_010,
        'Z' | 'z' => 0b111_001_010_100_111,
        ':' => 0b000_010_000_010_000,
        '-' => 0b000_000_111_000_000,
        '_' => 0b000_000_000_000_111,
        '.' => 0b000_000_000_000_010,
        '(' => 0b010_100_100_100_010,
        ')' => 0b010_001_001_001_010,
        _ => 0,
    }
}

/// The points of a row `w` pixels long starting at `(x0, y)`.
pub open spec fn row_points(x0: int, y: int, w: int) -> Seq<(int, int)> {
    Seq::new(if w > 0 { w as nat } else { 0 }, |i: int| (x0 + i, y))
}

/// The points of the rectangle at `(x0, y0)` of `w` by `h` pixels, row by
/// row from the top.
pub open spec fn rect_points(x0: int, y0: int, w: int, h: int) -> Seq<(int, int)>
    decreases h,
{
    if h <= 0 {
        Seq::empty()
    } else {
        rect_points(x0, y0, w, h - 1) + row_points(x0, y0 + h - 1, w)
    }
}

/// Painting one more point after a list paints the longer list.
proof fn lemma_paint_push(b: Seq<u8>, w: u32, h: u32, a: Seq<(int, int)>, p: (int, int), c: Seq<u8>)
    ensures
        paint(b, w, h, a.push(p), c) == (if in_canvas(p.0, p.1, w, h) {
            set_pixel(paint(b, w, h, a, c), w as int, p.0, p.1, c)
        } else {
            paint(b, w, h, a, c)
        }),
{
    assert(a.push(p).drop_last() =~= a);
}

/// Set each pixel of the rectangle at `(x0, y0)` of `w` by `h` pixels that
/// lies in the buffer, row by row.
pub fn fill_rect(img: &mut Raster, x0: i128, y0: i128, w: i128, h: i128, color: Rgba<u8>)
    requires
        old(img).wf(),
        -0x10_0000_0000_0000_0000_0000_0000 <= x0 <= 0x10_0000_0000_0000_0000_0000_0000,
        -0x10_0000_0000_0000_0000_0000_0000 <= y0 <= 0x10_0000_0000_0000_0000_0000_0000,
        w <= 0x10_0000_0000_0000_0000_0000_0000,
        h <= 0x10_0000_0000_0000_0000_0000_0000,
    ensures
        final(img).wf(),
        final(img).spec_width() == old(img).spec_width(),
        final(img).spec_height() == old(img).spec_height(),
        final(img).bytes() == paint(
            old(img).bytes(),
            old(img).spec_width(),
            old(img).spec_height(),
            rect_points(x0 as int, y0 as int, w as int, h as int),
            rgba_channels(color),
        ),
{
    let ghost b0 = img.bytes();
    let ghost wd = img.spec_width();
    let ghost ht = img.spec_height();
    let ghost c = rgba_channels(color);
    let mut dy: i128 = 0;
    while dy < h
        invariant
            0 <= dy,
            h <= 0x10_0000_0000_0000_0000_0000_0000,
            w <= 0x10_0000_0000_0000_0000_0000_0000,
            -0x10_0000_0000_0000_0000_0000_0000 <= x0 <= 0x10_0000_0000_0000_0000_0000_0000,
            -0x10_0000_0000_0000_0000_0000_0000 <= y0 <= 0x10_0000_0000_0000_0000_0000_0000,
            dy <= h || h < 0,
            h < 0 ==> dy == 0,
            c == rgba_channels(color),
            img.wf(),
            img.spec_width() == wd,
            img.spec_height() == ht,
            img.bytes() == paint(b0, wd, ht, rect_points(x0 as int, y0 as int, w as int, dy as int), c),
        decreases h - dy,
    {
        let mut dx: i128 = 0;
        assert(row_points(x0 as int, y0 + dy, 0) =~= Seq::<(int, int)>::empty());
        assert(rect_points(x0 as int, y0 as int, w as int, dy as int) + row_points(x0 as int, y0 + dy, 0)
            =~= rect_points(x0 as int, y0 as int, w as int, dy as int));
        while dx < w
            invariant
                0 <= dx,
                0 <= dy < h,
                w <= 0x10_0000_0000_0000_0000_0000_0000,
                h <= 0x10_0000_0000_0000_0000_0000_0000,
                -0x10_0000_0000_0000_0000_0000_0000 <= x0 <= 0x10_0000_0000_0000_0000_0000_0000,
                -0x10_0000_0000_0000_0000_0000_0000 <= y0 <= 0x10_0000_0000_0000_0000_0000_0000,
                dx <= w || w < 0,
                w < 0 ==> dx == 0,
                c == rgba_channels(color),
                img.wf(),
                img.spec_width() == wd,
                img.spec_height() == ht,
                img.bytes() == paint(
                    b0,
                    wd,
                    ht,
                    rect_points(x0 as int, y0 as int, w as int, dy as int) + row_points(
                        x0 as int,
                        y0 + dy,
                        dx as int,
                    ),
                    c,
                ),
            decreases w - dx,
        {
            let ghost before = rect_points(x0 as int, y0 as int, w as int, dy as int) + row_points(
                x0 as int,
                y0 + dy,
                dx as int,
            );
            plot(img, x0 + dx, y0 + dy, color);
            proof {
                lemma_paint_push(b0, wd, ht, before, ((x0 + dx) as int, (y0 + dy) as int), c);
                assert(row_points(x0 as int, y0 + dy, dx + 1) =~= row_points(x0 as int, y0 + dy, dx as int).push(((x0 + dx) as int, (y0 + dy) as int)));
                assert(rect_points(x0 as int, y0 as int, w as int, dy as int) + row_points(x0 as int, y0 + dy, dx + 1)
                    =~= before.push(((x0 + dx) as int, (y0 + dy) as int)));
            }
            dx = dx + 1;
        }
        proof {
            let full = if w > 0 { w as int } else { 0 };
            assert(row_points(x0 as int, y0 + dy, dx as int) =~= row_points(x0 as int, y0 + dy, w as int));
            assert(rect_points(x0 as int, y0 as int, w as int, dy + 1) == rect_points(x0 as int, y0 as int, w as int, dy as int) + row_points(x0 as int, y0 + dy + 1 - 1, w as int));
        }
        dy = dy + 1;
    }
    proof {
        if h < 0 {
            assert(rect_points(x0 as int, y0 as int, w as int, h as int) =~= Seq::<(int, int)>::empty());
            assert(rect_points(x0 as int, y0 as int, w as int, 0) =~= Seq::<(int, int)>::empty());
        }
    }
}

/// Cell `k` of a glyph is set.
pub open spec fn cell_on(bits: u16, k: int) -> bool {
    ((bits >> ((14 - k) as u16)) & 1u16) == 1u16
}

/// The points of the first `n` cells of a glyph drawn at `(x, y)` with
/// cells of `scale` by `scale` pixels: for each set cell, row by row, its
/// square, itself row by row.
pub open spec fn glyph_cells(x: int, y: int, bits: u16, scale: int, n: nat) -> Seq<(int, int)>
    decreases n,
{
    if n == 0 {
        Seq::empty()
    } else {
        let k = n - 1;
        let row = k / 3;
        let col = k % 3;
        glyph_cells(x, y, bits, scale, (n - 1) as nat) + if cell_on(bits, k) {
            rect_points(x + col * scale, y + row * scale, scale, scale)
        } else {
            Seq::empty()
        }
    }
}

/// The points of the glyph of `c` drawn at `(x, y)` at the given scale.
pub open spec fn char_points(x: int, y: int, c: char, scale: int) -> Seq<(int, int)> {
    glyph_cells(x, y, glyph_bits(c), scale, 15)
}

fn draw_char_at(img: &mut Raster, x: i128, y: i128, c: char, color: Rgba<u8>, scale: i128)
    requires
        old(img).wf(),
        -0x8_0000_0000_0000_0000_0000_0000 <= x <= 0x8_0000_0000_0000_0000_0000_0000,
        -0x8_0000_0000_0000_0000_0000_0000 <= y <= 0x8_0000_0000_0000_0000_0000_0000,
        -0x1_0000_0000 <= scale <= 0x1_0000_0000,
    ensures
        final(img).wf(),
        final(img).spec_width() == old(img).spec_width(),
        final(img).spec_height() == old(img).spec_height(),
        final(img).bytes() == paint(
            old(img).bytes(),
            old(img).spec_width(),
            old(img).spec_height(),
            char_points(x as int, y as int, c, scale as int),
            rgba_channels(color),
        ),
{
    let ghost b0 = img.bytes();
    let ghost wd = img.spec_width();
    let ghost ht = img.spec_height();
    let ghost cc = rgba_channels(color);
    let bits = get_char_pixels(c);
    let mut row: i128 = 0;
    while row < 5
        invariant
            0 <= row <= 5,
            -0x8_0000_0000_0000_0000_0000_0000 <= x <= 0x8_0000_0000_0000_0000_0000_0000,
            -0x8_0000_0000_0000_0000_0000_0000 <= y <= 0x8_0000_0000_0000_0000_0000_0000,
            -0x1_0000_0000 <= scale <= 0x1_0000_0000,
            bits == glyph_bits(c),
            cc == rgba_channels(color),
            img.wf(),
            img.spec_width() == wd,
            img.spec_height() == ht,
            img.bytes() == paint(b0, wd, ht, glyph_cells(x as int, y as int, bits, scale as int, (row * 3) as nat), cc),
        decreases 5 - row,
    {
        let mut col: i128 = 0;
        while col < 3
            invariant
                0 <= row < 5,
                0 <= col <= 3,
                -0x8_0000_0000_0000_0000_0000_0000 <= x <= 0x8_0000_0000_0000_0000_0000_0000,
                -0x8_0000_0000_0000_0000_0000_0000 <= y <= 0x8_0000_0000_0000_0000_0000_0000,
                -0x1_0000_0000 <= scale <= 0x1_0000_0000,
                bits == glyph_bits(c),
                cc == rgba_channels(color),
                img.wf(),
                img.spec_width() == wd,
                img.spec_height() == ht,
                img.bytes() == paint(b0, wd, ht, glyph_cells(x as int, y as int, bits, scale as int, (row * 3 + col) as nat), cc),
            decreases 3 - col,
        {
            let k = row * 3 + col;
            let bit_idx: u16 = (14 - k) as u16;
            let ghost before = glyph_cells(x as int, y as int, bits, scale as int, k as nat);
            assert(k / 3 == row && k % 3 == col);
            proof {
                assert(-0x2_0000_0000 <= col * scale <= 0x2_0000_0000) by (nonlinear_arith)
                    requires
                        0 <= col <= 2,
                        -0x1_0000_0000 <= scale <= 0x1_0000_0000,
                ;
                assert(-0x4_0000_0000 <= row * scale <= 0x4_0000_0000) by (nonlinear_arith)
                    requires
                        0 <= row <= 4,
                        -0x1_0000_0000 <= scale <= 0x1_0000_0000,
                ;
            }
            if ((bits >> bit_idx) & 1) == 1 {
                let cx = x + col * scale;
                let cy = y + row * scale;
                fill_rect(img, cx, cy, scale, scale, color);
                proof {
                    lemma_paint_concat(
                        b0,
                        wd,
                        ht,
                        before,
                        rect_points(cx as int, cy as int, scale as int, scale as int),
                        cc,
                    );
                }
            } else {
                assert(before + Seq::<(int, int)>::empty() =~= before);
            }
            col = col + 1;
        }
        row = row + 1;
    }
}

/// Draw the glyph of `c` with its top left corner at `(x, y)`, each cell a
/// square of `scale` by `scale` pixels.
pub fn draw_char(img: &mut Raster, x: i32, y: i32, c: char, color: Rgba<u8>, scale: i32)
    requires
        old(img).wf(),
    ensures
        final(img).wf(),
        final(img).spec_width() == old(img).spec_width(),
        final(img).spec_height() == old(img).spec_height(),
        final(img).bytes() == paint(
            old(img).bytes(),
            old(img).spec_width(),
            old(img).spec_height(),
            char_points(x as int, y as int, c, scale as int),
            rgba_channels(color),
        ),
{
    draw_char_at(img, x as i128, y as i128, c, color, scale as i128);
}

/// The points of the glyphs of `cs` drawn from `(x, y)`, each glyph four
/// cells to the right of the one before.
pub open spec fn text_points(x: int, y: int, cs: Seq<char>, scale: int) -> Seq<(int, int)>
    decreases cs.len(),
{
    if cs.len() == 0 {
        Seq::empty()
    } else {
        text_points(x, y, cs.drop_last(), scale) + char_points(
            x + 4 * scale * (cs.len() - 1),
            y,
            cs.last(),
            scale,
        )
    }
}

/// Draw a string with its top left corner at `(x, y)`, glyph after glyph.
pub fn draw_text(img: &mut Raster, x: i32, y: i32, text: &str, color: Rgba<u8>, scale: i32)
    requires
        old(img).wf(),
    ensures
        final(img).wf(),
        final(img).spec_width() == old(img).spec_width(),
        final(img).spec_height() == old(img).spec_height(),
        final(img).bytes() == paint(
            old(img).bytes(),
            old(img).spec_width(),
            old(img).spec_height(),
            text_points(x as int, y as int, text@, scale as int),
            rgba_channels(color),
        ),
{
    let ghost b0 = img.bytes();
    let ghost wd = img.spec_width();
    let ghost ht = img.spec_height();
    let ghost cc = rgba_channels(color);
    let cs = crate::text::chars_of(text);
    let s = scale as i128;
    let mut cur_x: i128 = x as i128;
    let mut i: usize = 0;
    assert(cs@.take(0) =~= Seq::<char>::empty());
    while i < cs.len()
        invariant
            cs@ == text@,
            i <= cs@.len(),
            s == scale as i128,
            -0x8000_0000 <= x < 0x8000_0000,
            cur_x == x + 4 * s * i,
            cc == rgba_channels(color),
            img.wf(),
            img.spec_width() == wd,
            img.spec_height() == ht,
            img.bytes() == paint(b0, wd, ht, text_points(x as int, y as int, cs@.take(i as int), s as int), cc),
        decreases cs@.len() - i,
    {
        proof {
            assert(-0x4_0000_0000_0000_0000_0000_0000 <= 4 * s * i <= 0x4_0000_0000_0000_0000_0000_0000) by (nonlinear_arith)
                requires
                    -0x8000_0000 <= s < 0x8000_0000,
                    0 <= i <= 0xffff_ffff_ffff_ffff,
            ;
        }
        let ghost before = text_points(x as int, y as int, cs@.take(i as int), s as int);
        draw_char_at(img, cur_x, y as i128, cs[i], color, s);
        proof {
            assert(cs@.take(i + 1).drop_last() =~= cs@.take(i as int));
            assert(cs@.take(i + 1).last() == cs@[i as int]);
            lemma_paint_concat(b0, wd, ht, before, char_points(cur_x as int, y as int, cs@[i as int], s as int), cc);
            assert(4 * s * i + 4 * s == 4 * s * (i + 1)) by (nonlinear_arith);
        }
        cur_x = cur_x + 4 * s;
        i = i + 1;
    }
    assert(cs@.take(cs@.len() as int) =~= cs@);
}

/// Fill the box behind a string with `bg`, as wide as four cells per byte of
/// its UTF-8 text and five cells high, then draw the string over it in `fg`.
pub fn draw_text_with_bg(
    img: &mut Raster,
    x: i32,
    y: i32,
    text: &str,
    fg: Rgba<u8>,
    bg: Rgba<u8>,
    scale: i32,
)
    requires
        old(img).wf(),
    ensures
        final(img).wf(),
        final(img).spec_width() == old(img).spec_width(),
        final(img).spec_height() == old(img).spec_height(),
        final(img).bytes() == paint(
            paint(
                old(img).bytes(),
                old(img).spec_width(),
                old(img).spec_height(),
                rect_points(
                    x as int,
                    y as int,
                    ((text.spec_bytes().len() as usize) as i32) * 4 * scale,
                    5 * scale,
                ),
                rgba_channels(bg),
            ),
            old(img).spec_width(),
            old(img).spec_height(),
            text_points(x as int, y as int, text@, scale as int),
            rgba_channels(fg),
        ),
{
    let len = text.len() as i32;
    proof {
        assert(-0x8_0000_0000_0000_0000 <= (len as int) * 4 * (scale as int) <= 0x8_0000_0000_0000_0000)
            by (nonlinear_arith)
            requires
                -0x8000_0000 <= len < 0x8000_0000,
                -0x8000_0000 <= scale < 0x8000_0000,
        ;
    }
    let w: i128 = (len as i128) * 4 * (scale as i128);
    let h: i128 = 5 * (scale as i128);
    fill_rect(img, x as i128, y as i128, w, h, bg);
    draw_text(img, x, y, text, fg, scale);
}

/// A character kept in a debug label: an ASCII letter or digit, a space,
/// `-`, `_` or `.`.
pub open spec fn label_char_kept(c: char) -> bool {
    ('a' <= c <= 'z') || ('A' <= c <= 'Z') || ('0' <= c <= '9') || c == ' ' || c == '-' || c
        == '_' || c == '.'
}

/// The characters of `s` that a debug label keeps, in order.
pub open spec fn kept_label_chars(s: Seq<char>) -> Seq<char>
    decreases s.len(),
{
    if s.len() == 0 {
        s
    } else if label_char_kept(s.last()) {
        kept_label_chars(s.drop_last()).push(s.last())
    } else {
        kept_label_chars(s.drop_last())
    }
}

/// The label drawn next to a layer's outline: its label, or `Layer` when it
/// has none, keeping only the characters the debug font is meant for.
pub fn debug_label(label: &Option<String>) -> (out: String)
    ensures
        out@ == kept_label_chars(
            match label {
                Some(l) => l@,
                None => "Layer"@,
            },
        ),
{
    let cs = match label {
        Some(l) => crate::text::chars_of(l.as_str()),
        None => crate::text::chars_of("Layer"),
    };
    let mut out = String::new();
    let mut i: usize = 0;
    while i < cs.len()
        invariant
            i <= cs@.len(),
            out@ == kept_label_chars(cs@.take(i as int)),
        decreases cs@.len() - i,
    {
        assert(cs@.take(i + 1).drop_last() =~= cs@.take(i as int));
        let c = cs[i];
        if ('a' <= c && c <= 'z') || ('A' <= c && c <= 'Z') || ('0' <= c && c <= '9') || c == ' '
            || c == '-' || c == '_' || c == '.' {
            crate::text::push_char(&mut out, c);
        }
        i = i + 1;
    }
    assert(cs@.take(cs@.len() as int) =~= cs@);
    out
}

/// The outline colours of debug drawing, one per layer id in turn.
pub open spec fn debug_palette(k: int) -> Seq<u8> {
    if k == 0 {
        seq![0u8, 255, 0, 255]
    } else if k == 1 {
        seq![0u8, 255, 255, 255]
    } else if k == 2 {
        seq![255u8, 0, 255, 255]
    } else if k == 3 {
        seq![255u8, 255, 0, 255]
    } else if k == 4 {
        seq![255u8, 128, 0, 255]
    } else if k == 5 {
        seq![255u8, 0, 0, 255]
    } else {
        seq![128u8, 0, 255, 255]
    }
}

/// The outline colour of the layer with id `id`: the palette entry at the
/// id, taken as a `usize`, modulo the palette's seven colours.
pub fn debug_color(id: u64) -> (c: Rgba<u8>)
    ensures
        rgba_channels(c) == debug_palette(((id as usize) as int) % 7),
{
    let k = (id as usize) % 7;
    if k == 0 {
        crate::raster::rgba(0, 255, 0, 255)
    } else if k == 1 {
        crate::raster::rgba(0, 255, 255, 255)
    } else if k == 2 {
        crate::raster::rgba(255, 0, 255, 255)
    } else if k == 3 {
        crate::raster::rgba(255, 255, 0, 255)
    } else if k == 4 {
        crate::raster::rgba(255, 128, 0, 255)
    } else if k == 5 {
        crate::raster::rgba(255, 0, 0, 255)
    } else {
        crate::raster::rgba(128, 0, 255, 255)
    }
}

} // verus!
