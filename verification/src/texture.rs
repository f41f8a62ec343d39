//! Turning the bytes of an image file into the pixel data of a texture:
//! decoding with the `image` crate, the zero-size check, and the row pitch
//! of the copy to the GPU.
use vstd::prelude::*;

verus! {

/// What `image::guess_format` followed by `image::load_from_memory_with_format`
/// and `DynamicImage::to_rgba8` gives for a byte string: width, height and
/// RGBA8 pixels, or the text of the error.
pub uninterp spec fn decoded_rgba8(bytes: Seq<u8>) -> Result<(u32, u32, Seq<u8>), Seq<char>>;

/// Decode an image file held in memory: `image::guess_format` picks one of
/// the built-in formats from the leading bytes, `image::load_from_memory_with_format`
/// decodes it, and `DynamicImage::to_rgba8` converts it to RGBA8.
///
/// Trusted: neither call reads the crate's registries of user hooks, so the
/// outcome depends on the bytes alone. On success the image's width and
/// height and the raw RGBA8 buffer are handed back; the buffer holds four
/// bytes for each of the `width * height` pixels. On failure the `Display`
/// text of the `ImageError` is handed back.
#[verifier::external_body]
fn decode_rgba8(bytes: &[u8]) -> (res: Result<(u32, u32, Vec<u8>), String>)
    ensures
        match decoded_rgba8(bytes@) {
            Ok((w, h, px)) => res matches Ok((rw, rh, rpx)) && rw == w && rh == h && rpx@ == px,
            Err(m) => res matches Err(e) && e@ == m,
        },
        res matches Ok((w, h, px)) ==> px@.len() == 4 * w * h,
{
    match image::guess_format(bytes).and_then(|format| image::load_from_memory_with_format(bytes, format)) {
        Ok(img) => Ok((img.width(), img.height(), img.to_rgba8().into_raw())),
        Err(e) => Err(e.to_string()),
    }
}

/// The pixels of a texture with the layout of their copy to the GPU.
pub struct TextureData {
    pub width: u32,
    pub height: u32,
    /// Bytes of one row of pixels: four per pixel.
    pub bytes_per_row: u32,
    /// RGBA8 pixels, row by row.
    pub rgba: Vec<u8>,
}

/// Why an image cannot become a texture.
pub enum TextureError {
    /// The bytes are no image of a supported format; the decoder's message.
    Decode(String),
    /// The image has no pixels in one direction.
    ZeroDimension { width: u32, height: u32 },
    /// A row of the image has more bytes than a `u32` row pitch can count.
    RowTooLong { width: u32 },
}

/// Texture data of a decoded RGBA8 image: an image with zero width or
/// height is refused; otherwise the pixels are kept as they are, with four
/// bytes per pixel in a row.
pub fn texture_from_rgba8(width: u32, height: u32, rgba: Vec<u8>) -> (res: Result<TextureData, TextureError>)
    requires
        width == 0 || height == 0 || width <= u32::MAX / 4,
    ensures
        width == 0 || height == 0 ==> (res matches Err(TextureError::ZeroDimension { width: w, height: h })
            && w == width && h == height),
        width != 0 && height != 0 ==> (res matches Ok(t) && t.width == width && t.height == height
            && t.bytes_per_row == 4 * width && t.rgba@ == rgba@),
{
    if width == 0 || height == 0 {
        return Err(TextureError::ZeroDimension { width, height });
    }
    Ok(TextureData { width, height, bytes_per_row: 4 * width, rgba })
}

/// Decode the bytes of an image file into texture data. A decoding error
/// comes back with the decoder's message; an image with zero width or height
/// is refused; an image whose rows have more bytes than a `u32` counts is
/// refused too; any other image keeps its size and pixels, one row of
/// `bytes_per_row` bytes for each of its `height` rows.
pub fn texture_data(bytes: &[u8]) -> (res: Result<TextureData, TextureError>)
    ensures
        match decoded_rgba8(bytes@) {
            Err(m) => res matches Err(TextureError::Decode(e)) && e@ == m,
            Ok((w, h, px)) => if w == 0 || h == 0 {
                res matches Err(TextureError::ZeroDimension { width: rw, height: rh }) && rw == w && rh == h
            } else if w > u32::MAX / 4 {
                res matches Err(TextureError::RowTooLong { width: rw }) && rw == w
            } else {
                res matches Ok(t) && t.width == w && t.height == h && t.bytes_per_row == 4 * w && t.rgba@ == px
            },
        },
        res matches Ok(t) ==> t.rgba@.len() == t.bytes_per_row * t.height,
{
    match decode_rgba8(bytes) {
        Err(e) => Err(TextureError::Decode(e)),
        Ok((width, height, rgba)) => {
            if width != 0 && height != 0 && width > u32::MAX / 4 {
                Err(TextureError::RowTooLong { width })
            } else {
                texture_from_rgba8(width, height, rgba)
            }
        },
    }
}

} // verus!
