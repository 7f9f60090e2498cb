//! Resampling of a raster through a map of source positions, the integer
//! half of a barrel-distortion warp.
//!
//! A warp decides for every output pixel where in the source it looks. Those
//! positions are fractions and are worked out by the caller; what is decided
//! here is what an output pixel shows once its source position is known.

use vstd::prelude::*;
use crate::color::Rgb;
use crate::raster::{Raster, RasterView, lemma_row_and_column};

verus! {

/// The color of every output pixel whose source lies outside the raster.
pub open spec fn black() -> Rgb {
    Rgb { r: 0, g: 0, b: 0 }
}

/// What an output pixel shows: the source pixel at the position it looks
/// at, black where it looks at none or at one outside the raster.
pub open spec fn sampled(img: RasterView, source: Option<(u32, u32)>) -> Rgb {
    match source {
        Some((x, y)) => if x < img.width && y < img.height {
            img.at(x as int, y as int)
        } else {
            black()
        },
        None => black(),
    }
}

/// The raster of the size of `img` whose pixels show what `sources` says.
pub open spec fn remapped(img: RasterView, sources: Seq<Option<(u32, u32)>>) -> RasterView {
    RasterView {
        width: img.width,
        height: img.height,
        pixels: Seq::new(img.pixels.len(), |i: int| sampled(img, sources[i])),
    }
}

/// What one output pixel shows, given the source position it looks at.
pub fn sample(img: &Raster, source: Option<(u32, u32)>) -> (p: Rgb)
    ensures
        p == sampled(img@, source),
{
    match source {
        Some((x, y)) => {
            if x < img.width() && y < img.height() {
                img.get_pixel(x, y)
            } else {
                Rgb { r: 0, g: 0, b: 0 }
            }
        },
        None => Rgb { r: 0, g: 0, b: 0 },
    }
}

/// Resamples `img`: output pixel `i`, in row-major order, shows the source
/// pixel at `sources[i]`, or black. `None` unless there is one source
/// position for each pixel.
pub fn remap(img: &Raster, sources: &[Option<(u32, u32)>]) -> (out: Option<Raster>)
    ensures
        out is Some <==> sources@.len() == img@.pixels.len(),
        out matches Some(r) ==> r@ == remapped(img@, sources@),
{
    let count = img.pixels().len();
    if sources.len() != count {
        return None;
    }
    let mut shown: Vec<Rgb> = Vec::new();
    let mut i: usize = 0;
    while i < count
        invariant
            count == img@.pixels.len(),
            count == sources@.len(),
            i <= count,
            shown@.len() == i,
            forall|k: int| 0 <= k < i ==> shown@[k] == sampled(img@, sources@[k]),
        decreases count - i,
    {
        shown.push(sample(img, sources[i]));
        i += 1;
    }
    assert(shown@ =~= remapped(img@, sources@).pixels);
    Raster::new(img.width(), img.height(), shown)
}

/// A map in which every pixel looks at its own position changes nothing.
pub proof fn lemma_identity_remap(img: RasterView, sources: Seq<Option<(u32, u32)>>)
    requires
        img.wf(),
        img.width <= u32::MAX,
        img.height <= u32::MAX,
        sources.len() == img.pixels.len(),
        forall|i: int|
            0 <= i < sources.len() ==> #[trigger] sources[i] == Some(
                ((i % (img.width as int)) as u32, (i / (img.width as int)) as u32),
            ),
    ensures
        remapped(img, sources) == img,
{
    assert forall|i: int| 0 <= i < img.pixels.len() implies sampled(img, sources[i])
        == img.pixels[i] by {
        lemma_row_and_column(img.width as int, img.height as int, i);
    }
    assert(remapped(img, sources).pixels =~= img.pixels);
}

} // verus!
