//! Decoding encoded images to RGB24 and encoding RGB24 as PNG, through the
//! `image` crate.
use vstd::prelude::*;
use crate::buffer::RgbImage;

verus! {

#[verifier::external_type_specification]
#[verifier::external_body]
pub struct ExImageError(image::ImageError);

/// Width, height and RGB24 bytes that the `image` crate decodes from the
/// encoded bytes, or `None` where it cannot.
pub uninterp spec fn decoded_rgb8(data: Seq<u8>) -> Option<(u32, u32, Seq<u8>)>;

/// PNG bytes that the `image` crate encodes for an RGB24 image, or `None`
/// where it fails.
pub uninterp spec fn png_encoded(width: u32, height: u32, px: Seq<u8>) -> Option<Seq<u8>>;

/// Relies on `image::load_from_memory` (format guessed from the bytes) and
/// `DynamicImage::into_rgb8`: the outcome depends on the bytes alone.
#[verifier::external_body]
fn decode_rgb8(data: &[u8]) -> (r: Result<(u32, u32, Vec<u8>), image::ImageError>)
    ensures
        r is Ok <==> decoded_rgb8(data@) is Some,
        r matches Ok((w, h, px)) ==> decoded_rgb8(data@) == Some((w, h, px@)),
{
    let img = image::load_from_memory(data)?.into_rgb8();
    Ok((img.width(), img.height(), img.into_raw()))
}

/// Relies on `PngEncoder::write_image` of the `image` crate with
/// `ExtendedColorType::Rgb8`, which panics unless the buffer holds exactly
/// `width * height * 3` bytes; the outcome depends on its arguments alone.
#[verifier::external_body]
fn png_bytes(px: &[u8], width: u32, height: u32) -> (r: Result<Vec<u8>, image::ImageError>)
    requires
        px@.len() == width as int * height as int * 3,
    ensures
        r is Ok <==> png_encoded(width, height, px@) is Some,
        r matches Ok(b) ==> png_encoded(width, height, px@) == Some(b@),
{
    let mut out: Vec<u8> = Vec::new();
    let enc = image::codecs::png::PngEncoder::new(&mut out);
    image::ImageEncoder::write_image(enc, px, width, height, image::ExtendedColorType::Rgb8)?;
    Ok(out)
}

/// Why an image could not be read or written.
#[derive(Debug, Clone, Copy, PartialEq, Eq, Structural)]
pub enum CodecError {
    /// The bytes are not an image in a supported format.
    Decode,
    /// The image could not be encoded.
    Encode,
}

/// The image that `data` decodes to, when it decodes to a consistent buffer.
pub open spec fn decodes_to(data: Seq<u8>, img: RgbImage) -> bool {
    &&& decoded_rgb8(data) matches Some((w, h, px))
    &&& img.width == w && img.height == h && img.data@ == px
    &&& img.wf()
}

/// Whether `data` decodes to a consistent RGB24 buffer.
pub open spec fn decodable(data: Seq<u8>) -> bool {
    decoded_rgb8(data) matches Some((w, h, px)) && px.len() == w as int * h as int * 3
}

/// Decodes encoded image bytes (PNG or JPEG) to an RGB24 image.
pub fn decode(data: &[u8]) -> (r: Result<RgbImage, CodecError>)
    ensures
        r is Ok <==> decodable(data@),
        r matches Ok(img) ==> decodes_to(data@, img),
        r matches Err(e) ==> e == CodecError::Decode,
{
    match decode_rgb8(data) {
        Ok((w, h, px)) => match RgbImage::from_raw(w, h, px) {
            Some(img) => Ok(img),
            None => Err(CodecError::Decode),
        },
        Err(_) => Err(CodecError::Decode),
    }
}

/// Encodes an image as PNG.
pub fn encode_png(img: &RgbImage) -> (r: Result<Vec<u8>, CodecError>)
    requires
        img.wf(),
    ensures
        r is Ok <==> png_encoded(img.width, img.height, img.data@) is Some,
        r matches Ok(b) ==> png_encoded(img.width, img.height, img.data@) == Some(b@),
        r matches Err(e) ==> e == CodecError::Encode,
{
    match png_bytes(img.data.as_slice(), img.width, img.height) {
        Ok(b) => Ok(b),
        Err(_) => Err(CodecError::Encode),
    }
}

} // verus!
