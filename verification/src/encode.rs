//! The image file: the byte buffer of a frame, encoded as a PNG.
//!
//! The encoding is the `png` crate's. This module checks that the buffer has
//! the shape the encoder expects, so that what is handed over is always an
//! image, and gives the encoded file back as bytes. Writing them somewhere is
//! the caller's.

use vstd::prelude::*;
use png::HasParameters;

verus! {

/// Why a frame could not be encoded.
#[derive(Debug, PartialEq, Eq, Clone, Copy, Structural)]
pub enum ImageError {
    /// The width is zero: the frame has no columns.
    ZeroWidth,
    /// The buffer does not hold three bytes for each pixel.
    WrongLength,
    /// A row is too long for the encoder on this machine.
    TooWide,
    /// The encoder failed.
    Encoder,
}

/// The error type of the encoder, `png::EncodingError`. Nothing is read
/// from a value of it.
#[verifier::external_type_specification]
#[verifier::external_body]
pub struct ExEncodingError(png::EncodingError);

/// The PNG file that the encoder makes of an image of `width` by `height`
/// pixels with the given red, green and blue bytes, eight bits a channel;
/// `None` where the encoder fails.
pub uninterp spec fn png_rgb8(width: u32, height: u32, data: Seq<u8>) -> Option<Seq<u8>>;

/// The buffer has the shape of an image that the encoder takes: the width
/// is not zero, there are three bytes for each pixel, and the bits of one row
/// can be counted in a `usize`.
pub open spec fn encodable(width: u32, height: u32, data: Seq<u8>) -> bool {
    &&& width > 0
    &&& data.len() == 3 * width * height
    &&& 24 * width <= usize::MAX
}

/// What `encode_png` returns, given what the encoder makes of the image.
pub open spec fn spec_encode_png(width: u32, height: u32, data: Seq<u8>) -> Result<Seq<u8>, ImageError> {
    if width == 0 {
        Err(ImageError::ZeroWidth)
    } else if data.len() != 3 * width * height {
        Err(ImageError::WrongLength)
    } else if 24 * width > usize::MAX {
        Err(ImageError::TooWide)
    } else {
        match png_rgb8(width, height, data) {
            Some(file) => Ok(file),
            None => Err(ImageError::Encoder),
        }
    }
}

/// Runs the encoder of the `png` crate into memory: `Encoder::new` on an
/// empty buffer, `HasParameters::set` with `ColorType::RGB` and with
/// `BitDepth::Eight`, `Encoder::write_header`, and
/// `Writer::write_image_data` with `data`.
///
/// Believed of it: the file it makes depends on `width`, `height` and `data`
/// alone, and so does whether it fails. Left out are the inputs on which it
/// would not return: a zero width, where it splits the data into rows of no
/// bytes, and a row whose bits it cannot count in a `usize`. A buffer of
/// another length than `3 * width * height` it would reject; that is left out
/// too, so that its product of row length and height is known to fit.
#[verifier::external_body]
fn run_encoder(width: u32, height: u32, data: &Vec<u8>) -> (r: Result<Vec<u8>, png::EncodingError>)
    requires
        encodable(width, height, data@),
    ensures
        r matches Ok(file) ==> png_rgb8(width, height, data@) == Some(file@),
        r is Err ==> png_rgb8(width, height, data@) is None,
{
    let mut file: Vec<u8> = Vec::new();
    {
        let mut encoder = png::Encoder::new(&mut file, width, height);
        encoder.set(png::ColorType::RGB).set(png::BitDepth::Eight);
        let mut writer = encoder.write_header()?;
        writer.write_image_data(data.as_slice())?;
    }
    Ok(file)
}

/// Whether the buffer holds exactly three bytes for each of `width * height`
/// pixels.
fn has_rgb8_length(width: u32, height: u32, len: usize) -> (r: bool)
    ensures
        r == (len == 3 * width * height),
{
    match crate::frame::pixel_count(width, height) {
        None => {
            assert(3 * width * height > usize::MAX) by (nonlinear_arith)
                requires
                    width * height > usize::MAX,
            ;
            false
        },
        Some(pixels) => match pixels.checked_mul(3) {
            None => {
                assert(3 * width * height == (width * height) * 3) by (nonlinear_arith);
                false
            },
            Some(bytes) => {
                assert(3 * width * height == (width * height) * 3) by (nonlinear_arith);
                bytes == len
            },
        },
    }
}

/// Turns the encoder's answer into the library's.
pub fn encoded(answer: Result<Vec<u8>, png::EncodingError>) -> (r: Result<Vec<u8>, ImageError>)
    ensures
        answer matches Ok(file) ==> r == Ok::<Vec<u8>, ImageError>(file),
        answer is Err ==> r == Err::<Vec<u8>, ImageError>(ImageError::Encoder),
{
    match answer {
        Ok(file) => Ok(file),
        Err(_) => Err(ImageError::Encoder),
    }
}

/// Encodes a frame as a PNG file, eight bits each of red, green and blue.
///
/// `img` is the byte buffer of the frame, three bytes a pixel, row by row.
/// A frame without columns, a buffer of the wrong length and a row too long
/// for this machine are refused before the encoder runs. A frame without
/// rows is encoded as it is.
pub fn encode_png(width: u32, height: u32, img: &Vec<u8>) -> (r: Result<Vec<u8>, ImageError>)
    ensures
        match spec_encode_png(width, height, img@) {
            Ok(file) => r matches Ok(bytes) && bytes@ == file,
            Err(e) => r == Err::<Vec<u8>, ImageError>(e),
        },
{
    if width == 0 {
        return Err(ImageError::ZeroWidth);
    }
    if !has_rgb8_length(width, height, img.len()) {
        return Err(ImageError::WrongLength);
    }
    if (width as usize).checked_mul(24).is_none() {
        return Err(ImageError::TooWide);
    }
    encoded(run_encoder(width, height, img))
}

/// The byte buffer of a frame with a pixel for every place has the length
/// that the encoder asks for: such a frame is never refused for its length.
pub proof fn lemma_frame_has_rgb8_length(
    width: u32,
    height: u32,
    levels: Seq<crate::color::Color>,
    bytes: Seq<u8>,
)
    requires
        levels.len() == width * height,
        crate::frame::is_rgb8_of(bytes, levels),
    ensures
        bytes.len() == 3 * width * height,
        width > 0 && 24 * width <= usize::MAX ==> encodable(width, height, bytes),
        !(spec_encode_png(width, height, bytes) matches Err(ImageError::WrongLength)),
{
    assert(3 * (width * height) == 3 * width * height) by (nonlinear_arith);
}

} // verus!
