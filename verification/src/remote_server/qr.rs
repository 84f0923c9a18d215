//! Pictures of texts that a device can read with its camera.

use vstd::prelude::*;

verus! {

/// Why there is no picture of a text.
#[derive(Debug)]
pub struct QrFailure(pub String);

/// The image of the QR code of a text as the crate `qrcode` draws it: its width and its pixels, or
/// why there is none. The image is as small as `min` and then as large as `max` let it be.
pub uninterp spec fn qr_pixels(data: Seq<char>, min: u32, max: u32, quiet_zone: bool) -> Result<
    (u32, Seq<u8>),
    Seq<char>,
>;

/// The QR code of a text as a drawing, as the crate `qrcode` writes it, or why there is none.
pub uninterp spec fn qr_svg(data: Seq<char>, min: u32, max: u32) -> Result<Seq<char>, Seq<char>>;

/// An image of grey pixels as the crate `image` writes it in the PNG format, or why it is not.
pub uninterp spec fn png_bytes(width: u32, pixels: Seq<u8>) -> Result<Seq<u8>, Seq<char>>;

/// The bytes that every PNG image starts with.
pub open spec fn png_signature() -> Seq<u8> {
    seq![0x89u8, 0x50u8, 0x4Eu8, 0x47u8, 0x0Du8, 0x0Au8, 0x1Au8, 0x0Au8]
}

/// Draws the QR code of a text with `qrcode::QrCode::new` and `qrcode::render::Renderer`: the result
/// is the one that has the name `qr_pixels`, and the image is a square.
#[verifier::external_body]
fn draw_pixels(data: &str, min: u32, max: u32, quiet_zone: bool) -> (r: Result<
    (u32, Vec<u8>),
    String,
>)
    requires
        min <= 65535,
        max <= 65535,
    ensures
        match r {
            Ok((width, pixels)) => qr_pixels(data@, min, max, quiet_zone) == Ok::<
                (u32, Seq<u8>),
                Seq<char>,
            >((width, pixels@)) && pixels@.len() == width * width,
            Err(e) => qr_pixels(data@, min, max, quiet_zone) == Err::<(u32, Seq<u8>), Seq<char>>(
                e@,
            ),
        },
{
    let code = qrcode::QrCode::new(data.as_bytes()).map_err(|e| e.to_string())?;
    let mut renderer = code.render::<image::Luma<u8>>();
    renderer.min_dimensions(min, min).max_dimensions(max, max).quiet_zone(quiet_zone);
    let drawn = renderer.build();
    Ok((drawn.width(), drawn.into_raw()))
}

/// Writes the QR code of a text as a drawing with `qrcode::QrCode::new` and
/// `qrcode::render::Renderer`: the result is the one that has the name `qr_svg`.
#[verifier::external_body]
fn draw_svg(data: &str, min: u32, max: u32) -> (r: Result<String, String>)
    requires
        min <= 65535,
        max <= 65535,
    ensures
        match r {
            Ok(svg) => qr_svg(data@, min, max) == Ok::<Seq<char>, Seq<char>>(svg@),
            Err(e) => qr_svg(data@, min, max) == Err::<Seq<char>, Seq<char>>(e@),
        },
{
    let code = qrcode::QrCode::new(data.as_bytes()).map_err(|e| e.to_string())?;
    let mut renderer = code.render::<qrcode::render::svg::Color>();
    Ok(renderer.min_dimensions(min, min).max_dimensions(max, max).build())
}

/// Writes a square image of grey pixels with `image::ImageBuffer::write_to`: the result is the one
/// that has the name `png_bytes`, and it starts as every PNG image does.
#[verifier::external_body]
fn write_png(width: u32, pixels: Vec<u8>) -> (r: Result<Vec<u8>, String>)
    requires
        pixels@.len() == width * width,
    ensures
        match r {
            Ok(png) => png_bytes(width, pixels@) == Ok::<Seq<u8>, Seq<char>>(png@)
                && png_signature().is_prefix_of(png@),
            Err(e) => png_bytes(width, pixels@) == Err::<Seq<u8>, Seq<char>>(e@),
        },
{
    let buffer = image::ImageBuffer::<image::Luma<u8>, Vec<u8>>::from_raw(width, width, pixels)
        .ok_or_else(String::new)?;
    let mut png = Vec::new();
    buffer
        .write_to(&mut std::io::Cursor::new(&mut png), image::ImageFormat::Png)
        .map_err(|e| e.to_string())?;
    Ok(png)
}

/// The picture of a text: at most 480 pixels wide, with a margin.
pub open spec fn code_png(data: Seq<char>) -> Result<Seq<u8>, Seq<char>> {
    match qr_pixels(data, 240, 480, true) {
        Ok((width, pixels)) => png_bytes(width, pixels),
        Err(e) => Err(e),
    }
}

/// The QR code of a text as a PNG image.
pub fn generate_qr_code(data: &str) -> (r: Result<Vec<u8>, QrFailure>)
    ensures
        match r {
            Ok(png) => code_png(data@) == Ok::<Seq<u8>, Seq<char>>(png@)
                && png_signature().is_prefix_of(png@),
            Err(QrFailure(e)) => code_png(data@) == Err::<Seq<u8>, Seq<char>>(e@),
        },
{
    match draw_pixels(data, 240, 480, true) {
        Ok((width, pixels)) => match write_png(width, pixels) {
            Ok(png) => Ok(png),
            Err(e) => Err(QrFailure(e)),
        },
        Err(e) => Err(QrFailure(e)),
    }
}

/// The QR code of a text as a drawing.
pub fn generate_qr_code_svg(data: &str) -> (r: Result<String, QrFailure>)
    ensures
        match r {
            Ok(svg) => qr_svg(data@, 200, 400) == Ok::<Seq<char>, Seq<char>>(svg@),
            Err(QrFailure(e)) => qr_svg(data@, 200, 400) == Err::<Seq<char>, Seq<char>>(e@),
        },
{
    match draw_svg(data, 200, 400) {
        Ok(svg) => Ok(svg),
        Err(e) => Err(QrFailure(e)),
    }
}

} // verus!
