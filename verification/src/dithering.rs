//! Palette reduction of a raster: plain nearest-color mapping and ordered
//! dithering over the 4x4 Bayer matrix.

use vstd::prelude::*;
use crate::color::{Rgb, nearest_color, find_closest_color};
use crate::raster::{Raster, RasterView, lemma_pixel_index_in_range};

verus! {

/// The strategies by which a raster is reduced to a palette.
#[derive(Clone, Copy, Debug, PartialEq, Eq, Structural)]
pub enum DitheringAlgorithm {
    /// No dithering: every pixel becomes its nearest palette color.
    Nearest,
    /// A position-dependent bias from the Bayer matrix is added first.
    Ordered,
    /// The quantization error of each pixel is diffused to its neighbors.
    FloydSteinberg,
}

/// The strategy that goes by `name`; any name but those of the two dithering
/// strategies stands for no dithering.
pub open spec fn algorithm_named(name: Seq<char>) -> DitheringAlgorithm {
    if name == "Ordered"@ {
        DitheringAlgorithm::Ordered
    } else if name == "FloydSteinberg"@ {
        DitheringAlgorithm::FloydSteinberg
    } else {
        DitheringAlgorithm::Nearest
    }
}

/// Reads a strategy from its name, falling back to no dithering.
pub fn parse_algorithm(name: &str) -> (algo: DitheringAlgorithm)
    ensures
        algo == algorithm_named(name@),
{
    let name = name.to_owned();
    if name == "Ordered".to_owned() {
        DitheringAlgorithm::Ordered
    } else if name == "FloydSteinberg".to_owned() {
        DitheringAlgorithm::FloydSteinberg
    } else {
        DitheringAlgorithm::Nearest
    }
}

/// The raster whose every pixel is the palette color nearest to the pixel of
/// `img` at the same place.
pub open spec fn quantized(img: RasterView, palette: Seq<Rgb>) -> RasterView {
    RasterView {
        width: img.width,
        height: img.height,
        pixels: Seq::new(img.pixels.len(), |i: int| nearest_color(palette, img.pixels[i])),
    }
}

/// Maps every pixel to its nearest palette color. The palette must hold a
/// color; a raster without pixels gives a raster without pixels.
pub fn quantize(img: &Raster, palette: &[Rgb]) -> (out: Raster)
    requires
        palette@.len() > 0,
    ensures
        out@ == quantized(img@, palette@),
{
    let source = img.pixels();
    let mut mapped: Vec<Rgb> = Vec::new();
    let mut i: usize = 0;
    while i < source.len()
        invariant
            palette@.len() > 0,
            i <= source@.len(),
            mapped@.len() == i,
            forall|k: int| 0 <= k < i ==> mapped@[k] == nearest_color(palette@, source@[k]),
        decreases source@.len() - i,
    {
        mapped.push(find_closest_color(source[i], palette));
        i += 1;
    }
    assert(mapped@ =~= quantized(img@, palette@).pixels);
    let out = Raster::new(img.width(), img.height(), mapped);
    out.unwrap()
}

/// The 4x4 Bayer matrix, row by row: each of 0..16 once.
pub const BAYER_MATRIX: [u8; 16] = [0, 8, 2, 10, 12, 4, 14, 6, 3, 11, 1, 9, 15, 7, 13, 5];

/// Number of entries of a bias table: one for each threshold and channel value.
pub const BIAS_TABLE_LEN: usize = 4096;

/// The Bayer matrix as the contracts see it.
pub open spec fn bayer_matrix() -> Seq<u8> {
    seq![0u8, 8u8, 2u8, 10u8, 12u8, 4u8, 14u8, 6u8, 3u8, 11u8, 1u8, 9u8, 15u8, 7u8, 13u8, 5u8]
}

/// The threshold of pixel `(x, y)`: the matrix entry in row `y mod 4`,
/// column `x mod 4`.
pub open spec fn bayer_threshold(x: int, y: int) -> u8 {
    bayer_matrix()[(y % 4) * 4 + (x % 4)]
}

/// The threshold of pixel `(x, y)`.
pub fn bayer_threshold_at(x: u32, y: u32) -> (t: u8)
    ensures
        t == bayer_threshold(x as int, y as int),
        t < 16,
{
    let at: usize = ((y % 4) * 4 + (x % 4)) as usize;
    BAYER_MATRIX[at]
}

/// For each Bayer threshold and each channel value, the channel value after
/// the threshold's bias was added and the sum clamped to 0..=255. The entry
/// for threshold `t` and value `v` stands at `t * 256 + v`.
///
/// The bias itself is a fraction that depends on the dithering strength, so
/// the table is made where fractions can be computed; the dithering reads it.
pub struct BiasTable {
    shifted: Vec<u8>,
}

impl View for BiasTable {
    type V = Seq<u8>;

    closed spec fn view(&self) -> Seq<u8> {
        self.shifted@
    }
}

/// The entry of a bias table for threshold `t` and channel value `v`.
pub open spec fn shifted_channel(table: Seq<u8>, t: int, v: u8) -> u8 {
    table[t * 256 + v]
}

/// A color with each channel replaced by its entry for threshold `t`.
pub open spec fn shifted_color(table: Seq<u8>, t: int, c: Rgb) -> Rgb {
    Rgb {
        r: shifted_channel(table, t, c.r),
        g: shifted_channel(table, t, c.g),
        b: shifted_channel(table, t, c.b),
    }
}

impl BiasTable {
    #[verifier::type_invariant]
    pub open spec fn well_formed(self) -> bool {
        self@.len() == 4096
    }

    /// Takes the 4096 entries of a table; `None` for any other number.
    pub fn new(shifted: Vec<u8>) -> (made: Option<BiasTable>)
        ensures
            made is Some <==> shifted@.len() == 4096,
            made matches Some(t) ==> t@ == shifted@,
    {
        if shifted.len() == BIAS_TABLE_LEN {
            Some(BiasTable { shifted })
        } else {
            None
        }
    }

    /// The entry for threshold `t` and channel value `v`.
    pub fn shift(&self, t: u8, v: u8) -> (s: u8)
        requires
            t < 16,
        ensures
            s == shifted_channel(self@, t as int, v),
    {
        proof {
            use_type_invariant(self);
        }
        self.shifted[t as usize * 256 + v as usize]
    }

    /// A color with each channel replaced by its entry for threshold `t`.
    pub fn shift_color(&self, t: u8, c: Rgb) -> (s: Rgb)
        requires
            t < 16,
        ensures
            s == shifted_color(self@, t as int, c),
    {
        Rgb { r: self.shift(t, c.r), g: self.shift(t, c.g), b: self.shift(t, c.b) }
    }
}

/// What ordered dithering makes of a pixel of color `c` at `(x, y)`: the
/// palette color nearest to `c` shifted by the threshold of that position.
pub open spec fn ordered_pixel(table: Seq<u8>, palette: Seq<Rgb>, x: int, y: int, c: Rgb) -> Rgb {
    nearest_color(palette, shifted_color(table, bayer_threshold(x, y) as int, c))
}

/// The raster that ordered dithering makes of `img`.
pub open spec fn ordered(img: RasterView, palette: Seq<Rgb>, table: Seq<u8>) -> RasterView {
    RasterView {
        width: img.width,
        height: img.height,
        pixels: Seq::new(
            img.pixels.len(),
            |i: int|
                ordered_pixel(
                    table,
                    palette,
                    i % (img.width as int),
                    i / (img.width as int),
                    img.pixels[i],
                ),
        ),
    }
}

/// Ordered dithering repeats every four pixels in both directions: the same
/// color at two positions that differ by multiples of four gives the same
/// output color.
pub proof fn lemma_ordered_repeats(
    table: Seq<u8>,
    palette: Seq<Rgb>,
    x: int,
    y: int,
    right: int,
    down: int,
    c: Rgb,
)
    ensures
        ordered_pixel(table, palette, x + 4 * right, y + 4 * down, c) == ordered_pixel(
            table,
            palette,
            x,
            y,
            c,
        ),
{
    assert((x + 4 * right) % 4 == x % 4) by (nonlinear_arith);
    assert((y + 4 * down) % 4 == y % 4) by (nonlinear_arith);
}

/// Ordered dithering: each pixel is shifted by the bias of its Bayer
/// threshold, as `table` gives it, and mapped to its nearest palette color.
pub fn ordered_dither(img: &Raster, palette: &[Rgb], table: &BiasTable) -> (out: Raster)
    requires
        palette@.len() > 0,
    ensures
        out@ == ordered(img@, palette@, table@),
{
    let source = img.pixels();
    let width = img.width();
    let height = img.height();
    let mut mapped: Vec<Rgb> = Vec::new();
    let mut y: u32 = 0;
    while y < height
        invariant
            palette@.len() > 0,
            source@ == img@.pixels,
            source@.len() == width * height,
            width == img@.width,
            y <= height,
            mapped@.len() == y * width,
            forall|k: int|
                0 <= k < mapped@.len() ==> mapped@[k] == ordered_pixel(
                    table@,
                    palette@,
                    k % (width as int),
                    k / (width as int),
                    source@[k],
                ),
        decreases height - y,
    {
        let mut x: u32 = 0;
        while x < width
            invariant
                palette@.len() > 0,
                source@ == img@.pixels,
                source@.len() == width * height,
                width == img@.width,
                y < height,
                x <= width,
                mapped@.len() == y * width + x,
                forall|k: int|
                    0 <= k < mapped@.len() ==> mapped@[k] == ordered_pixel(
                        table@,
                        palette@,
                        k % (width as int),
                        k / (width as int),
                        source@[k],
                    ),
            decreases width - x,
        {
            let at = mapped.len();
            proof {
                lemma_pixel_index_in_range(width as int, height as int, x as int, y as int);
            }
            let shifted = table.shift_color(bayer_threshold_at(x, y), source[at]);
            mapped.push(find_closest_color(shifted, palette));
            x += 1;
        }
        assert(y * width + width == (y + 1) * width) by (nonlinear_arith);
        y += 1;
    }
    assert(height * width == width * height) by (nonlinear_arith);
    assert(mapped@ =~= ordered(img@, palette@, table@).pixels);
    let out = Raster::new(width, height, mapped);
    out.unwrap()
}

} // verus!
