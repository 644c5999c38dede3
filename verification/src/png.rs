//! Rendering the board as a grayscale PNG, one byte per pixel.

use vstd::prelude::*;

use crate::bitmap::concat_chunks;
use crate::bitmap::SharedBitmap;
use crate::MAX_TOTAL_BITS;

verus! {

/// Width and height of the rendered board image.
pub const IMAGE_SIDE: u32 = 1000;

/// The PNG encoding of a grayscale image: a pure function of the
/// dimensions and the pixel bytes, one byte per pixel in row-major order.
pub uninterp spec fn png_gray_of(width: u32, height: u32, pixels: Seq<u8>) -> Seq<u8>;

/// Relies on image's `GrayImage::from_vec` and `write_to` with the PNG
/// format: the encoder is deterministic, so the output depends on the
/// dimensions and pixel bytes alone; and on an exactly sized buffer with
/// nonzero dimensions, written through an in-memory cursor, construction,
/// header and image data writing all succeed, so a value is returned.
#[verifier::external_body]
fn encode_png_gray(width: u32, height: u32, pixels: Vec<u8>) -> (r: Option<Vec<u8>>)
    requires
        pixels@.len() == width as int * height as int,
        1 <= width,
        1 <= height,
    ensures
        r is Some,
        r matches Some(v) ==> v@ == png_gray_of(width, height, pixels@),
{
    let img = image::GrayImage::from_vec(width, height, pixels)?;
    let mut dst: Vec<u8> = Vec::new();
    let mut cursor = std::io::Cursor::new(&mut dst);
    match img.write_to(&mut cursor, image::ImageFormat::Png) {
        Ok(()) => Some(dst),
        Err(_) => None,
    }
}

/// The full board as a 1000 by 1000 grayscale PNG, one board byte per
/// pixel: the first 1,000,000 stored bytes, PNG-encoded. Rendering always
/// succeeds.
pub fn render_board_png(b: &SharedBitmap) -> (r: Option<Vec<u8>>)
    requires
        b.wf(),
        b.total_bits == MAX_TOTAL_BITS,
    ensures
        r is Some,
        r matches Some(v) ==> v@ == png_gray_of(
            IMAGE_SIDE,
            IMAGE_SIDE,
            concat_chunks(b.board(), 0, b.board().len() as int).take(1_000_000),
        ),
{
    let mut raw = b.snapshot(0, b.num_chunks());
    raw.truncate(1_000_000);
    encode_png_gray(IMAGE_SIDE, IMAGE_SIDE, raw)
}

} // verus!
