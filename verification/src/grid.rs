//! The in-memory image model the scanner reads: a rectangular raster of
//! 8-bit RGB pixels, stored row-major.  Decoding an image file into this
//! form is the caller's concern; the core only ever sees plain pixel values.

use vstd::prelude::*;

verus! {

/// One pixel: an 8-bit intensity per color channel.
#[derive(Clone, Copy, PartialEq, Eq, Structural, Debug)]
pub struct Pixel {
    pub r: u8,
    pub g: u8,
    pub b: u8,
}

/// One of the three color components of a pixel.
#[derive(Clone, Copy, PartialEq, Eq, Structural, Debug)]
pub enum Channel {
    Red,
    Green,
    Blue,
}

/// The intensity of channel `c` in pixel `p`.
pub open spec fn chan_of(p: Pixel, c: Channel) -> u8 {
    match c {
        Channel::Red => p.r,
        Channel::Green => p.g,
        Channel::Blue => p.b,
    }
}

impl Pixel {
    /// The intensity of one channel.
    pub fn channel(&self, c: Channel) -> (v: u8)
        ensures
            v == chan_of(*self, c),
    {
        match c {
            Channel::Red => self.r,
            Channel::Green => self.g,
            Channel::Blue => self.b,
        }
    }
}

/// The mathematical content of a pixel grid: its dimensions and its pixels
/// in row-major order.
pub struct GridView {
    pub width: u32,
    pub height: u32,
    pub pixels: Seq<Pixel>,
}

impl GridView {
    /// A well-formed grid holds exactly one pixel per coordinate.
    pub open spec fn wf(self) -> bool {
        self.pixels.len() == self.width * self.height
    }

    /// The pixel at column `x` of row `y`.
    pub open spec fn pixel_at(self, x: int, y: int) -> Pixel {
        self.pixels[y * self.width + x]
    }
}

/// A rectangular raster of RGB pixels with read-only, bounds-checked pixel
/// access; the image source interface the scanner consumes.
pub struct PixelGrid {
    width: u32,
    height: u32,
    pixels: Vec<Pixel>,
}

impl View for PixelGrid {
    type V = GridView;

    closed spec fn view(&self) -> GridView {
        GridView { width: self.width, height: self.height, pixels: self.pixels@ }
    }
}

impl PixelGrid {
    /// A grid is well formed when its view is.
    pub closed spec fn wf(&self) -> bool {
        self@.wf()
    }

    /// Builds a grid of the given dimensions from its pixels in row-major
    /// order.  Fails exactly when the number of pixels does not match the
    /// dimensions.
    pub fn new(width: u32, height: u32, pixels: Vec<Pixel>) -> (r: Option<PixelGrid>)
        ensures
            r is Some <==> pixels@.len() == width * height,
            r matches Some(g) ==> g.wf() && g@ == (GridView {
                width,
                height,
                pixels: pixels@,
            }),
    {
        proof {
            vstd::arithmetic::mul::lemma_mul_upper_bound(
                width as int,
                u32::MAX as int,
                height as int,
                u32::MAX as int,
            );
            vstd::arithmetic::mul::lemma_mul_nonnegative(width as int, height as int);
        }
        let total: u64 = (width as u64) * (height as u64);
        if pixels.len() as u64 == total {
            Some(PixelGrid { width, height, pixels })
        } else {
            None
        }
    }

    /// The width and height of the grid, in pixels.
    pub fn dimensions(&self) -> (r: (u32, u32))
        ensures
            r.0 == self@.width,
            r.1 == self@.height,
    {
        (self.width, self.height)
    }

    /// The pixel at column `x` of row `y`; both must lie inside the grid.
    pub fn pixel_at(&self, x: u32, y: u32) -> (p: Pixel)
        requires
            self.wf(),
            x < self@.width,
            y < self@.height,
        ensures
            p == self@.pixel_at(x as int, y as int),
    {
        proof {
            vstd::arithmetic::mul::lemma_mul_inequality(
                y as int,
                self@.height - 1,
                self@.width as int,
            );
            assert((self@.height - 1) * self@.width + self@.width == self@.height * self@.width)
                by (nonlinear_arith) {}
            vstd::arithmetic::mul::lemma_mul_is_commutative(self@.width as int, self@.height as int);
            vstd::arithmetic::mul::lemma_mul_nonnegative(y as int, self@.width as int);
        }
        let _n: usize = self.pixels.len();
        let idx: usize = ((y as u64) * (self.width as u64) + (x as u64)) as usize;
        proof {
            assert(idx < _n);
        }
        self.pixels[idx]
    }
}

} // verus!
