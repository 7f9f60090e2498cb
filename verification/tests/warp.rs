use retro_dither::color::Rgb;
use retro_dither::effects::{remap, sample};
use retro_dither::raster::Raster;

fn rgb(r: u8, g: u8, b: u8) -> Rgb {
    Rgb { r, g, b }
}

fn numbered() -> Raster {
    let pixels: Vec<Rgb> = (1..=6).map(|i| rgb(i, i, i)).collect();
    Raster::new(3, 2, pixels).unwrap()
}

#[test]
fn source_outside_the_raster_shows_black() {
    let img = numbered();
    assert_eq!(sample(&img, None), rgb(0, 0, 0));
    assert_eq!(sample(&img, Some((3, 0))), rgb(0, 0, 0));
    assert_eq!(sample(&img, Some((0, 2))), rgb(0, 0, 0));
    assert_eq!(sample(&img, Some((u32::MAX, u32::MAX))), rgb(0, 0, 0));
}

#[test]
fn source_inside_the_raster_shows_that_pixel() {
    let img = numbered();
    assert_eq!(sample(&img, Some((0, 0))), rgb(1, 1, 1));
    assert_eq!(sample(&img, Some((2, 0))), rgb(3, 3, 3));
    assert_eq!(sample(&img, Some((0, 1))), rgb(4, 4, 4));
    assert_eq!(sample(&img, Some((2, 1))), rgb(6, 6, 6));
}

#[test]
fn remap_needs_one_source_per_pixel() {
    let img = numbered();
    assert!(remap(&img, &[None; 5]).is_none());
    assert!(remap(&img, &[None; 7]).is_none());
    assert!(remap(&img, &[]).is_none());
    assert!(remap(&img, &[None; 6]).is_some());
}

#[test]
fn remap_with_every_pixel_at_its_own_place_changes_nothing() {
    let img = numbered();
    let sources: Vec<Option<(u32, u32)>> = (0..6u32).map(|i| Some((i % 3, i / 3))).collect();
    let out = remap(&img, &sources).unwrap();
    assert_eq!((out.width(), out.height()), (3, 2));
    assert_eq!(out.pixels(), img.pixels());
}

#[test]
fn remap_shows_sources_and_black() {
    let img = numbered();
    let sources = [Some((2, 1)), None, Some((0, 0)), Some((3, 1)), Some((1, 1)), Some((1, 0))];
    let out = remap(&img, &sources).unwrap();
    assert_eq!(
        out.pixels(),
        &vec![rgb(6, 6, 6), rgb(0, 0, 0), rgb(1, 1, 1), rgb(0, 0, 0), rgb(5, 5, 5), rgb(2, 2, 2)]
    );
}

#[test]
fn remap_of_zero_area_raster() {
    let img = Raster::new(4, 0, Vec::new()).unwrap();
    let out = remap(&img, &[]).unwrap();
    assert_eq!((out.width(), out.height()), (4, 0));
    assert!(out.pixels().is_empty());
}
