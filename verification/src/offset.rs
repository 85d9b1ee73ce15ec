//! The offset effect's pixel shift: every pixel moves by a whole number of
//! pixels, wrapping around the edges. Rounding the shift to whole pixels and
//! spreading the rows over threads is the caller's.

use vstd::prelude::*;

verus! {

/// Reduce a shift `d` to the equivalent shift in `[0, n)`.
pub fn wrap_offset(d: i32, n: u32) -> (r: u32)
    requires
        0 < n,
    ensures
        r < n,
        r as int == (d as int) % (n as int),
{
    if d >= 0 {
        ((d as u32) % n) as u32
    } else {
        let m = ((-(d as i64)) as u64) % (n as u64);
        proof {
            let a = -(d as int);
            assert(m as int == a % (n as int));
            vstd::arithmetic::div_mod::lemma_fundamental_div_mod(a, n as int);
            vstd::arithmetic::div_mod::lemma_mod_bound(a, n as int);
            if m == 0 {
                assert(a == (n as int) * (a / (n as int)));
                vstd::arithmetic::div_mod::lemma_mod_multiples_basic(-(a / (n as int)), n as int);
                assert((d as int) == -(a / (n as int)) * (n as int)) by (nonlinear_arith)
                    requires
                        a == (n as int) * (a / (n as int)),
                        d as int == -a,
                ;
            } else {
                assert((d as int) == (n as int) - (m as int) + (-(a / (n as int)) - 1) * (n as int))
                    by (nonlinear_arith)
                    requires
                        a == (n as int) * (a / (n as int)) + m as int,
                        d as int == -a,
                ;
                vstd::arithmetic::div_mod::lemma_mod_multiples_vanish(
                    -(a / (n as int)) - 1,
                    (n as int) - (m as int),
                    n as int,
                );
                vstd::arithmetic::div_mod::lemma_small_mod(((n as int) - (m as int)) as nat, n as nat);
            }
        }
        if m == 0 {
            0
        } else {
            (n as u64 - m) as u32
        }
    }
}

/// The source of a position moved back by `d` on an axis of length `n`.
pub open spec fn shifted_source(p: int, d: int, n: int) -> int {
    if p >= d {
        p - d
    } else {
        p + (n - d)
    }
}

/// Row `y` of an image `w` by `h` pixels whose bytes are `src`, shifted right
/// by `dx` and down by `dy` pixels with wrap-around: pixel `x` of the row is
/// the source pixel `dx` to its left and `dy` above it, wrapping around.
pub fn shifted_row(src: &[u8], w: usize, h: usize, dx: usize, dy: usize, y: usize) -> (row: Vec<u8>)
    requires
        dx < w,
        dy < h,
        y < h,
        src@.len() == 4 * w * h,
    ensures
        row@.len() == 4 * w,
        forall|x: int, c: int|
            0 <= x < w && 0 <= c < 4 ==> #[trigger] row@[x * 4 + c] == src@[(shifted_source(
                y as int,
                dy as int,
                h as int,
            ) * w + shifted_source(x, dx as int, w as int)) * 4 + c],
{
    let sy = if y >= dy { y - dy } else { y + (h - dy) };
    let mut row: Vec<u8> = Vec::new();
    let n = src.len();
    let mut x: usize = 0;
    proof {
        assert((sy as int) * (w as int) + (w as int) <= (h as int) * (w as int)) by (nonlinear_arith)
            requires
                sy < h,
        ;
    }
    while x < w
        invariant
            x <= w,
            dx < w,
            sy < h,
            sy == shifted_source(y as int, dy as int, h as int),
            src@.len() == 4 * w * h,
            n == src@.len(),
            (sy as int) * (w as int) + (w as int) <= (h as int) * (w as int),
            row@.len() == 4 * x,
            forall|k: int, c: int|
                0 <= k < x && 0 <= c < 4 ==> #[trigger] row@[k * 4 + c] == src@[(sy * w
                    + shifted_source(k, dx as int, w as int)) * 4 + c],
        decreases w - x,
    {
        let sx = if x >= dx { x - dx } else { x + (w - dx) };
        proof {
            assert(((sy as int) * (w as int) + sx) * 4 + 4 <= src@.len()) by (nonlinear_arith)
                requires
                    sx < w,
                    (sy as int) * (w as int) + (w as int) <= (h as int) * (w as int),
                    src@.len() == 4 * w * h,
            ;
        }
        let base = (sy * w + sx) * 4;
        let ghost prev = row@;
        row.push(src[base]);
        row.push(src[base + 1]);
        row.push(src[base + 2]);
        row.push(src[base + 3]);
        proof {
            assert forall|k: int, c: int|
                0 <= k < x + 1 && 0 <= c < 4 implies #[trigger] row@[k * 4 + c] == src@[(sy * w
                    + shifted_source(k, dx as int, w as int)) * 4 + c] by {
                if k < x {
                    assert(row@[k * 4 + c] == prev[k * 4 + c]);
                } else {
                    assert(k * 4 + c == 4 * x + c);
                }
            }
        }
        x = x + 1;
    }
    row
}

} // verus!
