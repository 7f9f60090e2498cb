//! The raster buffer every stage reads and produces: `width * height` pixels,
//! row by row from the top.

use vstd::prelude::*;
use crate::color::Rgb;

verus! {

/// What a raster is to the contracts: its size and its pixels in row-major order.
pub struct RasterView {
    pub width: nat,
    pub height: nat,
    pub pixels: Seq<Rgb>,
}

impl RasterView {
    /// The raster holds one pixel for each position.
    pub open spec fn wf(self) -> bool {
        self.pixels.len() == self.width * self.height
    }

    /// The pixel in column `x` of row `y`.
    pub open spec fn at(self, x: int, y: int) -> Rgb {
        self.pixels[y * self.width + x]
    }
}

/// An RGB raster. A zero-area raster (width or height 0) holds no pixel.
pub struct Raster {
    width: u32,
    height: u32,
    pixels: Vec<Rgb>,
}

impl View for Raster {
    type V = RasterView;

    closed spec fn view(&self) -> RasterView {
        RasterView {
            width: self.width as nat,
            height: self.height as nat,
            pixels: self.pixels@,
        }
    }
}

/// The pixel in column `x` of row `y` stands at `y * width + x`, inside the
/// buffer, and that position gives the row and the column back.
pub proof fn lemma_pixel_index_in_range(width: int, height: int, x: int, y: int)
    requires
        0 <= x < width,
        0 <= y < height,
    ensures
        0 <= y * width + x < width * height,
        (y * width + x) / width == y,
        (y * width + x) % width == x,
{
    assert(y * width + x < width * height) by (nonlinear_arith)
        requires
            0 <= x < width,
            0 <= y < height,
    ;
    assert(0 <= y * width) by (nonlinear_arith)
        requires
            0 <= y,
            0 < width,
    ;
    vstd::arithmetic::div_mod::lemma_fundamental_div_mod_converse(y * width + x, width, y, x);
}

/// A position inside the raster lies in a row and a column of it.
pub proof fn lemma_row_and_column(width: int, height: int, at: int)
    requires
        0 <= width,
        0 <= height,
        0 <= at < width * height,
    ensures
        0 < width,
        0 <= at % width < width,
        0 <= at / width < height,
        at == (at / width) * width + at % width,
{
    assert(0 < width) by (nonlinear_arith)
        requires
            0 <= width,
            0 <= at < width * height,
    ;
    vstd::arithmetic::div_mod::lemma_fundamental_div_mod(at, width);
    let y = at / width;
    let x = at % width;
    assert(width * y == y * width) by (nonlinear_arith);
    assert(0 <= y < height) by (nonlinear_arith)
        requires
            0 < width,
            0 <= x < width,
            0 <= y * width + x < width * height,
    ;
}

impl Raster {
    #[verifier::type_invariant]
    pub open spec fn well_formed(self) -> bool {
        self@.wf() && self@.width <= u32::MAX && self@.height <= u32::MAX
    }

    /// Builds a raster from its pixels in row-major order; `None` when their
    /// number is not `width * height`.
    pub fn new(width: u32, height: u32, pixels: Vec<Rgb>) -> (made: Option<Raster>)
        ensures
            made is Some <==> pixels@.len() == width * height,
            made matches Some(r) ==> r@ == (RasterView {
                width: width as nat,
                height: height as nat,
                pixels: pixels@,
            }),
    {
        assert(width * height <= 0xFFFF_FFFF * 0xFFFF_FFFF) by (nonlinear_arith)
            requires
                0 <= width <= 0xFFFF_FFFF,
                0 <= height <= 0xFFFF_FFFF,
        ;
        let area: u64 = width as u64 * height as u64;
        if pixels.len() as u64 == area {
            Some(Raster { width, height, pixels })
        } else {
            None
        }
    }

    pub fn width(&self) -> (w: u32)
        ensures
            w == self@.width,
    {
        self.width
    }

    pub fn height(&self) -> (h: u32)
        ensures
            h == self@.height,
    {
        self.height
    }

    /// The pixels in row-major order.
    pub fn pixels(&self) -> (p: &Vec<Rgb>)
        ensures
            p@ == self@.pixels,
            self@.wf(),
    {
        proof {
            use_type_invariant(self);
        }
        &self.pixels
    }

    /// The pixel in column `x` of row `y`.
    pub fn get_pixel(&self, x: u32, y: u32) -> (p: Rgb)
        requires
            x < self@.width,
            y < self@.height,
        ensures
            p == self@.at(x as int, y as int),
    {
        proof {
            use_type_invariant(self);
            lemma_pixel_index_in_range(self.width as int, self.height as int, x as int, y as int);
        }
        assert(y * self.width <= 0xFFFF_FFFF * 0xFFFF_FFFF) by (nonlinear_arith)
            requires
                0 <= y <= 0xFFFF_FFFF,
                0 <= self.width <= 0xFFFF_FFFF,
        ;
        let at: u64 = y as u64 * self.width as u64 + x as u64;
        let held: usize = self.pixels.len();
        assert(at < held);
        self.pixels[at as usize]
    }

    /// Gives up the raster for its pixels.
    pub fn into_pixels(self) -> (p: Vec<Rgb>)
        ensures
            p@ == self@.pixels,
    {
        self.pixels
    }
}

} // verus!
