use vstd::prelude::*;
use crate::raster::Color;

verus! {

/// A parsed font of the `rusttype` crate.
#[verifier::external_type_specification]
#[verifier::external_body]
pub struct ExFont<'a>(rusttype::Font<'a>);

/// Whether `image::load` decodes these bytes as a PNG image.
pub uninterp spec fn png_decodes(bytes: Seq<u8>) -> bool;

/// Whether `rusttype::Font::try_from_bytes` parses these bytes as a font.
pub uninterp spec fn font_parses(bytes: Seq<u8>) -> bool;

/// The RGBA bytes that `image::load` (PNG format) followed by
/// `DynamicImage::resize_exact` to `width × height` with the triangle filter
/// makes of these bytes.
pub uninterp spec fn scaled_png(bytes: Seq<u8>, width: u32, height: u32) -> Seq<u8>;

/// Calls `image::load` with a cursor over `bytes` and the PNG format, then
/// `resize_exact` with the triangle filter, `into_rgba8` and `into_raw`. The
/// contract claims that decoding succeeds exactly when `png_decodes` holds of
/// the bytes, that the scaled pixels depend on the bytes and the two sizes
/// alone, and that they are `width × height` pixels of four bytes each.
#[verifier::external_body]
fn load_scaled_png(bytes: &[u8], width: u32, height: u32) -> (r: Option<Vec<u8>>)
    requires
        width * height * 4 <= isize::MAX,
    ensures
        r is Some <==> png_decodes(bytes@),
        r is Some ==> r->0@ == scaled_png(bytes@, width, height),
        r is Some ==> r->0@.len() == width * height * 4,
{
    match image::load(std::io::Cursor::new(bytes), image::ImageFormat::Png) {
        Ok(img) => Some(img.resize_exact(width, height, image::imageops::FilterType::Triangle).into_rgba8().into_raw()),
        Err(_) => None,
    }
}

/// Calls `image::RgbaImage::from_pixel` and returns the image's raw bytes.
/// The contract claims what the source shows: the buffer holds
/// `width × height` pixels of four bytes, row by row, each pixel set to
/// `color`. `from_pixel` panics when the buffer would not fit in a vector,
/// which the precondition rules out.
#[verifier::external_body]
fn solid_rgba(width: u32, height: u32, color: Color) -> (r: Vec<u8>)
    requires
        width * height * 4 <= isize::MAX,
    ensures
        r@.len() == width * height * 4,
        forall|i: int| 0 <= i < r@.len() ==> #[trigger] r@[i] == color[i % 4],
{
    image::RgbaImage::from_pixel(width, height, image::Rgba(color)).into_raw()
}

/// Calls `rusttype::Font::try_from_bytes`. The contract claims that whether
/// parsing succeeds depends on the bytes alone.
#[verifier::external_body]
fn parse_font(bytes: &'static [u8]) -> (r: Option<rusttype::Font<'static>>)
    ensures
        r is Some <==> font_parses(bytes@),
{
    rusttype::Font::try_from_bytes(bytes)
}

/// The colour of the wallpaper when the PNG does not decode: slate blue.
pub open spec fn fallback_color() -> Color {
    [18u8, 42u8, 58u8, 255u8]
}

/// Decodes the wallpaper PNG and scales it to exactly `width × height`
/// RGBA pixels; when the PNG does not decode, every pixel is slate blue.
/// (Scaling an image to its own size copies it, so the solid fallback is
/// built at the target size directly.)
pub fn decode_wallpaper(png: &[u8], width: u32, height: u32) -> (pixels: Vec<u8>)
    requires
        width * height * 4 <= isize::MAX,
    ensures
        pixels@.len() == width * height * 4,
        png_decodes(png@) ==> pixels@ == scaled_png(png@, width, height),
        !png_decodes(png@) ==> forall|i: int|
            0 <= i < pixels@.len() ==> #[trigger] pixels@[i] == fallback_color()[i % 4],
{
    match load_scaled_png(png, width, height) {
        Some(pixels) => pixels,
        None => solid_rgba(width, height, [18, 42, 58, 255]),
    }
}

/// The three faces the desktop sets its texts in.
pub struct Fonts {
    pub regular: rusttype::Font<'static>,
    pub bold: rusttype::Font<'static>,
    pub mono: rusttype::Font<'static>,
}

impl Fonts {
    /// Parses the regular, bold and monospace faces; `None` unless all
    /// three parse.
    pub fn load(regular: &'static [u8], bold: &'static [u8], mono: &'static [u8]) -> (r: Option<Fonts>)
        ensures
            r is Some <==> (font_parses(regular@) && font_parses(bold@) && font_parses(mono@)),
    {
        let regular = parse_font(regular);
        let bold = parse_font(bold);
        let mono = parse_font(mono);
        match (regular, bold, mono) {
            (Some(regular), Some(bold), Some(mono)) => Some(Fonts { regular, bold, mono }),
            _ => None,
        }
    }
}

} // verus!
