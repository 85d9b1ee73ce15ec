//! RGBA pixel buffers as the drawing code sees them: a width, a height and
//! four bytes per pixel (red, green, blue, alpha), row by row, the layout of
//! the `image` crate's `RgbaImage`, whose `into_raw` and `from_raw` convert
//! to and from it without copying. Colours are the `image` crate's `Rgba`.

use vstd::prelude::*;
use image::Rgba;

verus! {

#[verifier::external_type_specification]
#[verifier::external_body]
#[verifier::reject_recursive_types(T)]
pub struct ExRgba<T>(Rgba<T>);

/// The red, green, blue and alpha channels of a colour.
pub uninterp spec fn rgba_channels(p: Rgba<u8>) -> Seq<u8>;

/// `Rgba(..)`: a colour from its four channels.
#[verifier::external_body]
pub(crate) fn rgba(r: u8, g: u8, b: u8, a: u8) -> (p: Rgba<u8>)
    ensures
        rgba_channels(p) == seq![r, g, b, a],
{
    Rgba([r, g, b, a])
}

/// `Rgba::0`: the four channels of a colour.
#[verifier::external_body]
fn channels(p: &Rgba<u8>) -> (c: [u8; 4])
    ensures
        c@ == rgba_channels(*p),
{
    p.0
}

/// An RGBA pixel buffer.
pub struct Raster {
    width: u32,
    height: u32,
    data: Vec<u8>,
}

/// The bytes of `b` with the pixel at `(x, y)` of an image `w` pixels wide
/// set to the channels `c`.
pub open spec fn set_pixel(b: Seq<u8>, w: int, x: int, y: int, c: Seq<u8>) -> Seq<u8> {
    let base = (y * w + x) * 4;
    Seq::new(b.len(), |k: int| if base <= k < base + 4 { c[k - base] } else { b[k] })
}

impl Raster {
    /// The buffer holds at least four bytes per pixel, as every buffer made
    /// by `new` or `from_raw` does.
    pub closed spec fn wf(&self) -> bool {
        self.data@.len() >= 4 * self.width * self.height
    }

    /// The width in pixels.
    pub closed spec fn spec_width(&self) -> u32 {
        self.width
    }

    /// The height in pixels.
    pub closed spec fn spec_height(&self) -> u32 {
        self.height
    }

    /// The bytes, four per pixel, row by row.
    pub closed spec fn bytes(&self) -> Seq<u8> {
        self.data@
    }

    /// A transparent black buffer of the given size.
    pub fn new(width: u32, height: u32) -> (r: Self)
        requires
            4 * width * height <= usize::MAX,
        ensures
            r.spec_width() == width,
            r.spec_height() == height,
            r.bytes() == Seq::new((4 * width * height) as nat, |k: int| 0u8),
            r.wf(),
    {
        proof {
            assert((width as int) * (height as int) <= 0xffff_ffff * 0xffff_ffff) by (nonlinear_arith)
                requires
                    width <= 0xffff_ffff,
                    height <= 0xffff_ffff,
            ;
        }
        let n = (4 * (width as u128) * (height as u128)) as usize;
        let mut data: Vec<u8> = Vec::new();
        let mut i: usize = 0;
        while i < n
            invariant
                i <= n,
                data@ == Seq::new(i as nat, |k: int| 0u8),
            decreases n - i,
        {
            data.push(0);
            assert(data@ =~= Seq::new((i + 1) as nat, |k: int| 0u8));
            i = i + 1;
        }
        Raster { width, height, data }
    }

    /// A buffer over the given bytes, when they hold at least four per
    /// pixel, as `ImageBuffer::from_raw` accepts them.
    pub fn from_raw(width: u32, height: u32, data: Vec<u8>) -> (r: Option<Self>)
        ensures
            (data@.len() >= 4 * width * height) == (r is Some),
            r matches Some(b) ==> b.spec_width() == width && b.spec_height() == height
                && b.bytes() == data@ && b.wf(),
    {
        proof {
            assert((width as int) * (height as int) <= 0xffff_ffff * 0xffff_ffff) by (nonlinear_arith)
                requires
                    width <= 0xffff_ffff,
                    height <= 0xffff_ffff,
            ;
        }
        let wh: u128 = (width as u128) * (height as u128);
        assert(4 * width * height == 4 * (wh as int)) by (nonlinear_arith)
            requires
                wh == (width as int) * (height as int),
        ;
        if (data.len() as u128) >= 4 * wh {
            Some(Raster { width, height, data })
        } else {
            None
        }
    }

    /// The bytes, given back.
    pub fn into_raw(self) -> (data: Vec<u8>)
        ensures
            data@ == self.bytes(),
    {
        self.data
    }

    /// The bytes.
    pub fn as_raw(&self) -> (data: &Vec<u8>)
        ensures
            data@ == self.bytes(),
    {
        &self.data
    }

    /// The width in pixels.
    pub fn width(&self) -> (w: u32)
        ensures
            w == self.spec_width(),
    {
        self.width
    }

    /// The height in pixels.
    pub fn height(&self) -> (h: u32)
        ensures
            h == self.spec_height(),
    {
        self.height
    }

    /// Set the pixel at `(x, y)`, which must lie in the buffer.
    pub fn put_pixel(&mut self, x: u32, y: u32, p: Rgba<u8>)
        requires
            old(self).wf(),
            x < old(self).spec_width(),
            y < old(self).spec_height(),
        ensures
            final(self).wf(),
            final(self).spec_width() == old(self).spec_width(),
            final(self).spec_height() == old(self).spec_height(),
            final(self).bytes() == set_pixel(
                old(self).bytes(),
                old(self).spec_width() as int,
                x as int,
                y as int,
                rgba_channels(p),
            ),
    {
        let c = channels(&p);
        let _len = self.data.len();
        let w = self.width as usize;
        proof {
            assert((y as int) * (w as int) + (x as int) < (self.height as int) * (self.width as int))
                by (nonlinear_arith)
                requires
                    x < w,
                    y < self.height,
                    w == self.width,
            ;
            assert(((y as int) * (w as int) + (x as int)) * 4 + 4 <= self.data@.len())
                by (nonlinear_arith)
                requires
                    (y as int) * (w as int) + (x as int) < (self.height as int) * (self.width as int),
                    self.data@.len() >= 4 * self.width * self.height,
            ;
        }
        let base = (y as usize * w + x as usize) * 4;
        let ghost old_bytes = self.data@;
        self.data.set(base, c[0]);
        self.data.set(base + 1, c[1]);
        self.data.set(base + 2, c[2]);
        self.data.set(base + 3, c[3]);
        assert(self.data@ =~= set_pixel(old_bytes, self.width as int, x as int, y as int, c@));
    }

    /// The channels of the pixel at `(x, y)`, which must lie in the buffer.
    pub fn get_pixel(&self, x: u32, y: u32) -> (c: [u8; 4])
        requires
            self.wf(),
            x < self.spec_width(),
            y < self.spec_height(),
        ensures
            ({
                let base = (y * self.spec_width() + x) * 4;
                c@ == self.bytes().subrange(base, base + 4)
            }),
    {
        proof {
            assert((y as int) * (self.width as int) + (x as int) < (self.height as int) * (
            self.width as int)) by (nonlinear_arith)
                requires
                    x < self.width,
                    y < self.height,
            ;
            assert(((y as int) * (self.width as int) + (x as int)) * 4 + 4 <= self.data@.len())
                by (nonlinear_arith)
                requires
                    (y as int) * (self.width as int) + (x as int) < (self.height as int) * (
                    self.width as int),
                    self.data@.len() >= 4 * self.width * self.height,
            ;
        }
        let _len = self.data.len();
        let base = (y as usize * self.width as usize + x as usize) * 4;
        let c = [self.data[base], self.data[base + 1], self.data[base + 2], self.data[base + 3]];
        assert(c@ =~= self.bytes().subrange(base as int, base + 4));
        c
    }
}

} // verus!
