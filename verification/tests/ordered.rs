use retro_dither::color::Rgb;
use retro_dither::dithering::{bayer_threshold_at, ordered_dither, quantize, BiasTable, BAYER_MATRIX};
use retro_dither::raster::Raster;

fn rgb(r: u8, g: u8, b: u8) -> Rgb {
    Rgb { r, g, b }
}

/// The table for a strength: threshold over sixteen, less a half, times 255
/// and the strength, added to the channel value and clamped.
fn table_for(strength: f32) -> BiasTable {
    let mut shifted = Vec::with_capacity(4096);
    for t in 0..16u32 {
        let factor = (t as f32 / 16.0 - 0.5) * 255.0 * strength;
        for v in 0..256u32 {
            shifted.push((v as f32 + factor).clamp(0.0, 255.0) as u8);
        }
    }
    BiasTable::new(shifted).unwrap()
}

#[test]
fn bayer_matrix_is_the_standard_one() {
    assert_eq!(BAYER_MATRIX, [0, 8, 2, 10, 12, 4, 14, 6, 3, 11, 1, 9, 15, 7, 13, 5]);
    let mut seen = [false; 16];
    for v in BAYER_MATRIX {
        seen[v as usize] = true;
    }
    assert!(seen.iter().all(|s| *s));
}

#[test]
fn threshold_is_read_by_row_then_column() {
    assert_eq!(bayer_threshold_at(0, 0), 0);
    assert_eq!(bayer_threshold_at(1, 0), 8);
    assert_eq!(bayer_threshold_at(3, 0), 10);
    assert_eq!(bayer_threshold_at(0, 1), 12);
    assert_eq!(bayer_threshold_at(1, 2), 11);
    assert_eq!(bayer_threshold_at(3, 3), 5);
    assert_eq!(bayer_threshold_at(5, 6), 11);
    assert_eq!(bayer_threshold_at(4_000_000_003, 4_000_000_001), 6);
}

#[test]
fn threshold_repeats_every_four_pixels() {
    for y in 0..4u32 {
        for x in 0..4u32 {
            let t = bayer_threshold_at(x, y);
            assert_eq!(t, BAYER_MATRIX[(y * 4 + x) as usize]);
            assert_eq!(bayer_threshold_at(x + 4, y), t);
            assert_eq!(bayer_threshold_at(x, y + 8), t);
            assert_eq!(bayer_threshold_at(x + 400, y + 1200), t);
        }
    }
}

#[test]
fn bias_table_has_4096_entries() {
    assert!(BiasTable::new(Vec::new()).is_none());
    assert!(BiasTable::new(vec![0; 4095]).is_none());
    assert!(BiasTable::new(vec![0; 4097]).is_none());
    assert!(BiasTable::new(vec![0; 4096]).is_some());
}

#[test]
fn bias_table_is_indexed_by_threshold_then_value() {
    let shifted: Vec<u8> = (0..4096u32).map(|i| ((i / 256) * 16 + (i % 256) / 16) as u8).collect();
    let table = BiasTable::new(shifted).unwrap();
    assert_eq!(table.shift(0, 0), 0);
    assert_eq!(table.shift(0, 255), 15);
    assert_eq!(table.shift(1, 0), 16);
    assert_eq!(table.shift(15, 255), 255);
    assert_eq!(table.shift(9, 40), 146);
    assert_eq!(table.shift_color(9, rgb(40, 0, 255)), rgb(146, 144, 159));
}

#[test]
fn full_strength_table_has_the_expected_entries() {
    let table = table_for(1.0);
    // threshold 8: no bias
    assert_eq!(table.shift(8, 128), 128);
    // threshold 7: bias -15.9375
    assert_eq!(table.shift(7, 128), 112);
    // threshold 0: bias -127.5
    assert_eq!(table.shift(0, 128), 0);
    assert_eq!(table.shift(0, 127), 0);
    assert_eq!(table.shift(0, 200), 72);
    // threshold 15: bias 111.5625
    assert_eq!(table.shift(15, 128), 239);
    assert_eq!(table.shift(15, 200), 255);
}

#[test]
fn mid_gray_becomes_a_checkerboard() {
    let img = Raster::new(4, 4, vec![rgb(128, 128, 128); 16]).unwrap();
    let palette = vec![rgb(0, 0, 0), rgb(255, 255, 255)];
    let out = ordered_dither(&img, &palette, &table_for(1.0));
    let k = rgb(0, 0, 0);
    let w = rgb(255, 255, 255);
    assert_eq!(
        out.pixels(),
        &vec![k, w, k, w, w, k, w, k, k, w, k, w, w, k, w, k]
    );
}

#[test]
fn ordered_dithering_depends_on_position_modulo_four() {
    let color = rgb(90, 140, 200);
    let img = Raster::new(12, 8, vec![color; 96]).unwrap();
    let palette = vec![rgb(0, 0, 0), rgb(255, 255, 255), rgb(0, 128, 255), rgb(128, 128, 128)];
    let out = ordered_dither(&img, &palette, &table_for(0.7));
    for y in 0..8u32 {
        for x in 0..12u32 {
            assert_eq!(out.get_pixel(x, y), out.get_pixel(x % 4, y % 4));
        }
    }
}

#[test]
fn zero_strength_ordered_dithering_is_nearest_match() {
    let pixels: Vec<Rgb> = (0..20u32).map(|i| rgb((i * 13) as u8, (i * 7) as u8, (255 - i * 11) as u8)).collect();
    let img = Raster::new(5, 4, pixels).unwrap();
    let palette = vec![rgb(0, 0, 0), rgb(255, 255, 255), rgb(200, 50, 50), rgb(20, 100, 220)];
    let dithered = ordered_dither(&img, &palette, &table_for(0.0));
    assert_eq!(dithered.pixels(), quantize(&img, &palette).pixels());
}

#[test]
fn ordered_dithering_of_zero_area_raster() {
    let img = Raster::new(0, 3, Vec::new()).unwrap();
    let out = ordered_dither(&img, &[rgb(0, 0, 0)], &table_for(1.0));
    assert_eq!((out.width(), out.height()), (0, 3));
    assert!(out.pixels().is_empty());
}

#[test]
fn ordered_dithering_uses_a_separate_entry_per_channel() {
    // one pixel at (1, 0): threshold 8, whose row of the table inverts values
    let mut shifted = vec![0u8; 4096];
    for v in 0..256usize {
        shifted[8 * 256 + v] = (255 - v) as u8;
    }
    let table = BiasTable::new(shifted).unwrap();
    let img = Raster::new(2, 1, vec![rgb(255, 255, 255), rgb(250, 5, 250)]).unwrap();
    let palette = vec![rgb(0, 0, 0), rgb(0, 255, 0), rgb(255, 0, 255)];
    let out = ordered_dither(&img, &palette, &table);
    // (0, 0): threshold 0, all zero -> black; (1, 0): (5, 250, 5) -> green
    assert_eq!(out.pixels(), &vec![rgb(0, 0, 0), rgb(0, 255, 0)]);
}
