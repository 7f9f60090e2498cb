//! Floyd-Steinberg error diffusion, as far as it is decided on integers.
//!
//! Error diffusion visits the pixels row by row from the top, each row from
//! the left. At each pixel the caller reads the pixel's error-adjusted color
//! from a buffer of fractions that it keeps, clamps it to a color and hands
//! it to [`Diffusion::step`]. The step emits the nearest palette color and
//! says which neighbors receive which share of the pixel's quantization
//! error; the caller adds the shares to its buffer and goes on with the
//! state that the step returned.

use vstd::prelude::*;
use crate::color::{Rgb, nearest_color, find_closest_color};
use crate::raster::{Raster, RasterView, lemma_pixel_index_in_range, lemma_row_and_column};

verus! {

/// Sixteenths of the error that go to the pixel on the right.
pub const RIGHT_SIXTEENTHS: u8 = 7;

/// Sixteenths of the error that go to the pixel below and to the left.
pub const BELOW_LEFT_SIXTEENTHS: u8 = 3;

/// Sixteenths of the error that go to the pixel below.
pub const BELOW_SIXTEENTHS: u8 = 5;

/// Sixteenths of the error that go to the pixel below and to the right.
pub const BELOW_RIGHT_SIXTEENTHS: u8 = 1;

/// What one step decides: the color emitted for the pixel, and for each of
/// the four neighbors its position in row-major order, or `None` where the
/// raster ends and that share of the error is dropped.
#[derive(Clone, Copy, Debug, PartialEq, Eq)]
pub struct Spread {
    pub matched: Rgb,
    pub right: Option<usize>,
    pub below_left: Option<usize>,
    pub below: Option<usize>,
    pub below_right: Option<usize>,
}

impl Spread {
    /// Sixteenths of the pixel's error that reach a neighbor.
    pub open spec fn sixteenths(self) -> int {
        (if self.right is Some { 7int } else { 0 })
        + (if self.below_left is Some { 3int } else { 0 })
        + (if self.below is Some { 5int } else { 0 })
        + (if self.below_right is Some { 1int } else { 0 })
    }

    /// Sixteenths of the pixel's error that reach a neighbor.
    pub fn shared_sixteenths(&self) -> (n: u8)
        ensures
            n == self.sixteenths(),
    {
        let mut n: u8 = 0;
        if self.right.is_some() {
            n += RIGHT_SIXTEENTHS;
        }
        if self.below_left.is_some() {
            n += BELOW_LEFT_SIXTEENTHS;
        }
        if self.below.is_some() {
            n += BELOW_SIXTEENTHS;
        }
        if self.below_right.is_some() {
            n += BELOW_RIGHT_SIXTEENTHS;
        }
        n
    }
}

/// The decision at the pixel at position `at` of a `width` by `height`
/// raster, where `matched` is emitted.
pub open spec fn spread_at(width: int, height: int, at: int, matched: Rgb) -> Spread {
    let x = at % width;
    let y = at / width;
    Spread {
        matched,
        right: if x + 1 < width {
            Some((at + 1) as usize)
        } else {
            None
        },
        below_left: if x > 0 && y + 1 < height {
            Some((at + width - 1) as usize)
        } else {
            None
        },
        below: if y + 1 < height {
            Some((at + width) as usize)
        } else {
            None
        },
        below_right: if x + 1 < width && y + 1 < height {
            Some((at + width + 1) as usize)
        } else {
            None
        },
    }
}

/// A pixel passes on its whole error, sixteen sixteenths, exactly when all
/// four neighbors lie inside the raster; at the right, left and bottom edges
/// a part is dropped.
pub proof fn lemma_spread_conserves_inside(width: int, height: int, x: int, y: int, matched: Rgb)
    requires
        0 <= x < width,
        0 <= y < height,
    ensures
        spread_at(width, height, y * width + x, matched).sixteenths() <= 16,
        spread_at(width, height, y * width + x, matched).sixteenths() == 16 <==> (0 < x && x + 1
            < width && y + 1 < height),
{
    lemma_pixel_index_in_range(width, height, x, y);
}

/// The only pixel of a one-by-one raster has no neighbor: nothing of its
/// error is passed on.
pub proof fn lemma_single_pixel_spreads_nothing(matched: Rgb)
    ensures
        spread_at(1, 1, 0, matched) == (Spread {
            matched,
            right: None,
            below_left: None,
            below: None,
            below_right: None,
        }),
{
}

/// Every neighbor that receives error comes later in the scan than the pixel
/// itself, and lies inside the raster.
pub proof fn lemma_spread_goes_ahead(width: int, height: int, at: int, matched: Rgb, to: usize)
    requires
        0 <= width,
        0 <= height,
        0 <= at < width * height,
        width * height <= usize::MAX,
        ({
            let s = spread_at(width, height, at, matched);
            s.right == Some(to) || s.below_left == Some(to) || s.below == Some(to) || s.below_right
                == Some(to)
        }),
    ensures
        at < to < width * height,
{
    lemma_row_and_column(width, height, at);
    let x = at % width;
    let y = at / width;
    assert((y + 1) * width <= height * width) by (nonlinear_arith)
        requires
            y + 1 <= height,
            0 <= width,
    ;
    assert((y + 1) * width == y * width + width) by (nonlinear_arith);
    assert(height * width == width * height) by (nonlinear_arith);
    if y + 1 < height {
        assert((y + 2) * width <= height * width) by (nonlinear_arith)
            requires
                y + 2 <= height,
                0 <= width,
        ;
        assert((y + 2) * width == y * width + 2 * width) by (nonlinear_arith);
        assert(height * width == width * height) by (nonlinear_arith);
    }
}

/// What a diffusion in progress is to the contracts: the size of the raster
/// and the colors emitted so far, in scan order.
pub struct DiffusionView {
    pub width: nat,
    pub height: nat,
    pub emitted: Seq<Rgb>,
}

/// An error diffusion in progress over a raster of a given size.
pub struct Diffusion {
    width: u32,
    height: u32,
    emitted: Vec<Rgb>,
}

impl View for Diffusion {
    type V = DiffusionView;

    closed spec fn view(&self) -> DiffusionView {
        DiffusionView {
            width: self.width as nat,
            height: self.height as nat,
            emitted: self.emitted@,
        }
    }
}

impl Diffusion {
    #[verifier::type_invariant]
    pub open spec fn well_formed(self) -> bool {
        &&& self@.emitted.len() <= self@.width * self@.height
        &&& self@.width * self@.height <= usize::MAX
        &&& self@.width <= u32::MAX
        &&& self@.height <= u32::MAX
    }

    /// Starts a diffusion over a raster of the size of `img`, with nothing
    /// emitted yet.
    pub fn begin(img: &Raster) -> (d: Diffusion)
        ensures
            d@ == (DiffusionView { width: img@.width, height: img@.height, emitted: Seq::empty() }),
    {
        let held = img.pixels().len();
        Diffusion { width: img.width(), height: img.height(), emitted: Vec::new() }
    }

    /// Number of pixels of the raster.
    pub fn area(&self) -> (n: usize)
        ensures
            n == self@.width * self@.height,
            self@.emitted.len() <= n,
    {
        proof {
            use_type_invariant(self);
        }
        assert(self.width * self.height <= 0xFFFF_FFFF * 0xFFFF_FFFF) by (nonlinear_arith)
            requires
                0 <= self.width <= 0xFFFF_FFFF,
                0 <= self.height <= 0xFFFF_FFFF,
        ;
        (self.width as u64 * self.height as u64) as usize
    }

    /// Position, in row-major order, of the pixel that the next step handles;
    /// the number of pixels once every pixel has been handled.
    pub fn position(&self) -> (at: usize)
        ensures
            at == self@.emitted.len(),
            at <= self@.width * self@.height,
    {
        proof {
            use_type_invariant(self);
        }
        self.emitted.len()
    }

    /// Whether every pixel has been handled.
    pub fn is_done(&self) -> (done: bool)
        ensures
            done <==> self@.emitted.len() == self@.width * self@.height,
    {
        self.emitted.len() == self.area()
    }

    /// Handles the next pixel, whose error-adjusted color, clamped, is
    /// `sample`: emits the palette color nearest to it and tells where the
    /// pixel's error goes.
    pub fn step(self, sample: Rgb, palette: &[Rgb]) -> (next: (Diffusion, Spread))
        requires
            palette@.len() > 0,
            self@.emitted.len() < self@.width * self@.height,
        ensures
            next.0@ == (DiffusionView {
                width: self@.width,
                height: self@.height,
                emitted: self@.emitted.push(nearest_color(palette@, sample)),
            }),
            next.1 == spread_at(
                self@.width as int,
                self@.height as int,
                self@.emitted.len() as int,
                nearest_color(palette@, sample),
            ),
    {
        proof {
            use_type_invariant(&self);
        }
        let at: usize = self.emitted.len();
        let width: usize = self.width as usize;
        let height: usize = self.height as usize;
        proof {
            lemma_row_and_column(width as int, height as int, at as int);
        }
        let x: usize = at % width;
        let y: usize = at / width;
        let matched = find_closest_color(sample, palette);
        let has_right = x + 1 < width;
        let has_below = y + 1 < height;
        proof {
            if has_below {
                assert((y + 2) * width <= height * width) by (nonlinear_arith)
                    requires
                        y + 2 <= height,
                        0 <= width,
                ;
                assert((y + 2) * width == y * width + 2 * width) by (nonlinear_arith);
                assert(height * width == width * height) by (nonlinear_arith);
            }
        }
        let spread = Spread {
            matched,
            right: if has_right {
                Some(at + 1)
            } else {
                None
            },
            below_left: if x > 0 && has_below {
                Some(at + width - 1)
            } else {
                None
            },
            below: if has_below {
                Some(at + width)
            } else {
                None
            },
            below_right: if has_right && has_below {
                Some(at + width + 1)
            } else {
                None
            },
        };
        let mut emitted = self.emitted;
        emitted.push(matched);
        (Diffusion { width: self.width, height: self.height, emitted }, spread)
    }

    /// The raster of the emitted colors, once every pixel has been handled.
    pub fn finish(self) -> (out: Raster)
        requires
            self@.emitted.len() == self@.width * self@.height,
        ensures
            out@ == (RasterView {
                width: self@.width,
                height: self@.height,
                pixels: self@.emitted,
            }),
    {
        let out = Raster::new(self.width, self.height, self.emitted);
        out.unwrap()
    }
}

} // verus!
