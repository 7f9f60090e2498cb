//! Where palettes come from: the fixed palettes of classic displays, and a
//! palette learned from the colors of the raster itself.

use vstd::prelude::*;
use color_quant::NeuQuant;
use crate::color::Rgb;
use crate::raster::Raster;

verus! {

/// The fixed palettes.
#[derive(Clone, Copy, Debug, PartialEq, Eq, Structural)]
pub enum PaletteName {
    GameBoy,
    NES,
    CGA,
    Pico8,
}

/// The four shades of the Game Boy screen, darkest first.
pub const GAMEBOY_COLORS: [u32; 4] = [0x0F380F, 0x306230, 0x8BAC0F, 0x9BBC0F];

/// The colors that the NES picture unit can show.
pub const NES_COLORS: [u32; 54] = [
    0x747474, 0x24188C, 0x0000A8, 0x44009C, 0x8C0074, 0xA80010, 0xA40000, 0x7C0800, 0x402C00,
    0x004400, 0x005000, 0x003C14, 0x183C5C, 0x000000, 0xBCBCBC, 0x0070EC, 0x2038EC, 0x8000F0,
    0xBC00BC, 0xE40058, 0xD82800, 0xC84C0C, 0x887000, 0x009400, 0x00A800, 0x009038, 0x008088,
    0xFCFCFC, 0x3CBCFC, 0x5C94FC, 0xCC88FC, 0xF478FC, 0xFC74B4, 0xFC7460, 0xFC9838, 0xF0BC3C,
    0x80D010, 0x4CDC48, 0x58F898, 0x00E8D8, 0x787878, 0xA8E4FC, 0xC4D4FC, 0xD4C8FC, 0xFCC4FC,
    0xFCC4D8, 0xFCBCB0, 0xFCD8A8, 0xFCE4A0, 0xE0FCA0, 0xA8F0BC, 0xB0FCCC, 0x9CFCF0, 0xC4C4C4,
];

/// The sixteen colors of the CGA text mode.
pub const CGA_COLORS: [u32; 16] = [
    0x000000, 0x0000AA, 0x00AA00, 0x00AAAA, 0xAA0000, 0xAA00AA, 0xAA5500, 0xAAAAAA, 0x555555,
    0x5555FF, 0x55FF55, 0x55FFFF, 0xFF5555, 0xFF55FF, 0xFFFF55, 0xFFFFFF,
];

/// The sixteen colors of the PICO-8.
pub const PICO8_COLORS: [u32; 16] = [
    0x000000, 0x1D2B53, 0x7E2553, 0x008751, 0xAB5236, 0x5F574F, 0xC2C3C7, 0xFFF1E8, 0xFF004D,
    0xFFA300, 0xFFEC27, 0x00E436, 0x29ADFF, 0x83769C, 0xFF77A8, 0xFFCCAA,
];

/// The color written `0xRRGGBB`.
pub open spec fn color_of_code(code: u32) -> Rgb {
    Rgb {
        r: ((code / 0x10000) % 0x100) as u8,
        g: ((code / 0x100) % 0x100) as u8,
        b: (code % 0x100) as u8,
    }
}

/// The colors written by a list of codes, in the order of the list.
pub open spec fn colors_of_codes(codes: Seq<u32>) -> Seq<Rgb> {
    Seq::new(codes.len(), |i: int| color_of_code(codes[i]))
}

/// The colors of a fixed palette.
pub open spec fn fixed_palette(name: PaletteName) -> Seq<Rgb> {
    match name {
        PaletteName::GameBoy => colors_of_codes(GAMEBOY_COLORS@),
        PaletteName::NES => colors_of_codes(NES_COLORS@),
        PaletteName::CGA => colors_of_codes(CGA_COLORS@),
        PaletteName::Pico8 => colors_of_codes(PICO8_COLORS@),
    }
}

fn decode_colors(codes: &[u32]) -> (colors: Vec<Rgb>)
    ensures
        colors@ == colors_of_codes(codes@),
{
    let mut colors: Vec<Rgb> = Vec::new();
    let mut i: usize = 0;
    while i < codes.len()
        invariant
            i <= codes@.len(),
            colors@.len() == i,
            forall|k: int| 0 <= k < i ==> colors@[k] == color_of_code(codes@[k]),
        decreases codes@.len() - i,
    {
        let code = codes[i];
        colors.push(
            Rgb {
                r: ((code / 0x10000) % 0x100) as u8,
                g: ((code / 0x100) % 0x100) as u8,
                b: (code % 0x100) as u8,
            },
        );
        i += 1;
    }
    assert(colors@ =~= colors_of_codes(codes@));
    colors
}

/// The colors of a fixed palette.
pub fn get_palette(name: PaletteName) -> (palette: Vec<Rgb>)
    ensures
        palette@ == fixed_palette(name),
        palette@.len() > 0,
{
    match name {
        PaletteName::GameBoy => decode_colors(GAMEBOY_COLORS.as_slice()),
        PaletteName::NES => decode_colors(NES_COLORS.as_slice()),
        PaletteName::CGA => decode_colors(CGA_COLORS.as_slice()),
        PaletteName::Pico8 => decode_colors(PICO8_COLORS.as_slice()),
    }
}

/// The fixed palette that goes by `name`, if one does.
pub open spec fn palette_named(name: Seq<char>) -> Option<PaletteName> {
    if name == "GameBoy"@ {
        Some(PaletteName::GameBoy)
    } else if name == "NES"@ {
        Some(PaletteName::NES)
    } else if name == "CGA"@ {
        Some(PaletteName::CGA)
    } else if name == "Pico8"@ {
        Some(PaletteName::Pico8)
    } else {
        None
    }
}

/// The fixed palette that goes by `name`; `None` for any other name.
pub fn parse_palette_name(name: &str) -> (found: Option<PaletteName>)
    ensures
        found == palette_named(name@),
{
    let name = name.to_owned();
    if name == "GameBoy".to_owned() {
        Some(PaletteName::GameBoy)
    } else if name == "NES".to_owned() {
        Some(PaletteName::NES)
    } else if name == "CGA".to_owned() {
        Some(PaletteName::CGA)
    } else if name == "Pico8".to_owned() {
        Some(PaletteName::Pico8)
    } else {
        None
    }
}

/// Fraction of the pixels, as one in so many, from which a palette is learned.
pub const SAMPLE_FACTOR: i32 = 10;

/// One more than the largest number of colors that can be learned: beyond
/// it the quantizer's 32-bit radius arithmetic leaves its range.
pub const COLOR_COUNT_LIMIT: usize = 0x1000_0000;

/// The bytes handed to the quantizer: for each pixel its three channels
/// and an opaque alpha of 255.
pub open spec fn rgba_bytes(pixels: Seq<Rgb>) -> Seq<u8> {
    Seq::new(
        4 * pixels.len(),
        |i: int|
            if i % 4 == 0 {
                pixels[i / 4].r
            } else if i % 4 == 1 {
                pixels[i / 4].g
            } else if i % 4 == 2 {
                pixels[i / 4].b
            } else {
                255u8
            },
    )
}

/// The pixels of a raster as RGBA bytes, alpha 255.
pub fn rgba_samples(img: &Raster) -> (bytes: Vec<u8>)
    ensures
        bytes@ == rgba_bytes(img@.pixels),
{
    let source = img.pixels();
    let mut bytes: Vec<u8> = Vec::new();
    let mut i: usize = 0;
    while i < source.len()
        invariant
            i <= source@.len(),
            bytes@.len() == 4 * i,
            forall|k: int| 0 <= k < 4 * i ==> bytes@[k] == rgba_bytes(source@)[k],
        decreases source@.len() - i,
    {
        let c = source[i];
        bytes.push(c.r);
        bytes.push(c.g);
        bytes.push(c.b);
        bytes.push(255);
        i += 1;
    }
    assert(bytes@ =~= rgba_bytes(source@));
    bytes
}

/// The palette that a color map of RGBA bytes holds: one color for each
/// whole group of four bytes, the alpha byte left out.
pub open spec fn palette_of_color_map(map: Seq<u8>) -> Seq<Rgb> {
    Seq::new(
        (map.len() / 4) as nat,
        |i: int| Rgb { r: map[4 * i], g: map[4 * i + 1], b: map[4 * i + 2] },
    )
}

/// Reads a palette out of a color map of RGBA bytes.
pub fn palette_from_color_map(map: &[u8]) -> (palette: Vec<Rgb>)
    ensures
        palette@ == palette_of_color_map(map@),
{
    let count = map.len() / 4;
    let mut palette: Vec<Rgb> = Vec::new();
    let mut i: usize = 0;
    while i < count
        invariant
            count == map@.len() / 4,
            4 * count <= map@.len() <= usize::MAX,
            i <= count,
            palette@.len() == i,
            forall|k: int|
                0 <= k < i ==> palette@[k] == (Rgb {
                    r: map@[4 * k],
                    g: map@[4 * k + 1],
                    b: map@[4 * k + 2],
                }),
        decreases count - i,
    {
        palette.push(Rgb { r: map[i * 4], g: map[i * 4 + 1], b: map[i * 4 + 2] });
        i += 1;
    }
    assert(palette@ =~= palette_of_color_map(map@));
    palette
}

/// The RGBA color map that the NeuQuant quantizer learns: a function of the
/// sampling factor, the number of colors and the RGBA bytes it is trained on.
pub uninterp spec fn neuquant_color_map(samplefac: int, colors: nat, pixels: Seq<u8>) -> Seq<u8>;

/// Calls `color_quant::NeuQuant::new` on RGBA bytes and returns the
/// quantizer's `color_map_rgba`. Trusted, not verified: the quantizer's
/// source shows that the map depends on these three arguments alone and
/// holds four bytes for each of the `colors` entries, and nothing more is
/// claimed of it. The bounds keep the quantizer from panicking: it wants a
/// sampling factor from 1 to 30, looks up the winner among its `colors`
/// neurons, so there must be one, and does its radius arithmetic in 32 bits.
#[verifier::external_body]
fn train_color_map(samplefac: i32, colors: usize, pixels: &[u8]) -> (map: Vec<u8>)
    requires
        1 <= samplefac <= 30,
        1 <= colors < 0x1000_0000,
    ensures
        map@ == neuquant_color_map(samplefac as int, colors as nat, pixels@),
        map@.len() == 4 * colors,
{
    NeuQuant::new(samplefac, colors, pixels).color_map_rgba()
}

/// The palette learned from the colors of `pixels`, `color_count` entries.
pub open spec fn learned_colors(pixels: Seq<Rgb>, color_count: nat) -> Seq<Rgb> {
    palette_of_color_map(neuquant_color_map(SAMPLE_FACTOR as int, color_count, rgba_bytes(pixels)))
}

/// Learns a palette of `color_count` colors from the raster's own colors.
pub fn learned_palette(img: &Raster, color_count: usize) -> (palette: Vec<Rgb>)
    requires
        1 <= color_count < COLOR_COUNT_LIMIT,
    ensures
        palette@ == learned_colors(img@.pixels, color_count as nat),
        palette@.len() == color_count,
{
    let samples = rgba_samples(img);
    let map = train_color_map(SAMPLE_FACTOR, color_count, samples.as_slice());
    palette_from_color_map(map.as_slice())
}

/// The name that asks for a learned palette.
pub open spec fn asks_for_learned(name: Seq<char>) -> bool {
    name == "None"@
}

/// The palette chosen by `name`: learned from the pixels for the name
/// `None`, the fixed palette of that name otherwise, and no color at all,
/// which leaves a raster as it is, where the name is not known.
pub open spec fn selected_palette(name: Seq<char>, pixels: Seq<Rgb>, color_count: nat) -> Seq<Rgb> {
    if asks_for_learned(name) {
        learned_colors(pixels, color_count)
    } else {
        match palette_named(name) {
            Some(fixed) => fixed_palette(fixed),
            None => Seq::empty(),
        }
    }
}

/// Chooses the palette for a raster by name. `color_count` is read only
/// where the palette is learned.
pub fn select_palette(name: &str, img: &Raster, color_count: usize) -> (palette: Vec<Rgb>)
    requires
        asks_for_learned(name@) ==> 1 <= color_count < COLOR_COUNT_LIMIT,
    ensures
        palette@ == selected_palette(name@, img@.pixels, color_count as nat),
{
    if name.to_owned() == "None".to_owned() {
        learned_palette(img, color_count)
    } else {
        match parse_palette_name(name) {
            Some(fixed) => get_palette(fixed),
            None => Vec::new(),
        }
    }
}

} // verus!
