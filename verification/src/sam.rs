//! The codec's entry points, and the byte order of the machine it runs on.

use vstd::prelude::*;
use crate::bitmap::BitmapView;
use crate::byte_order::{u32_from_bytes, ByteOrder};
use crate::container::{decoded, encoded, lemma_decode_encode, DecodeError};
use crate::rasterizer::{
    colour_of, lemma_painted_pixel, lemma_unpainted_pixel, opaque, painted, unpainted,
};
use crate::surface::{Surface, SurfaceView};

verus! {

/// The HIF codec. Its operations are associated functions.
pub struct Sam;

/// `u32::from_ne_bytes`: the number that the four bytes hold in the byte
/// order of the machine this runs on, which is one of the two orders.
#[verifier::external_body]
fn u32_from_ne_bytes(bytes: [u8; 4]) -> (value: u32)
    ensures
        value == u32_from_bytes(ByteOrder::Little, bytes@) || value == u32_from_bytes(
            ByteOrder::Big,
            bytes@,
        ),
{
    u32::from_ne_bytes(bytes)
}

impl Sam {
    /// Reads four bytes as a number in the byte order of the machine this
    /// runs on. Which of the two orders that is, the result alone does not
    /// tell: `native_byte_order` finds it out.
    pub fn convert_bytes_to_u32_ne(bytes: &[u8]) -> (value: u32)
        requires
            bytes@.len() == 4,
        ensures
            value == u32_from_bytes(ByteOrder::Little, bytes@) || value == u32_from_bytes(
                ByteOrder::Big,
                bytes@,
            ),
    {
        let result: [u8; 4] = [bytes[0], bytes[1], bytes[2], bytes[3]];
        assert(result@ =~= bytes@);
        u32_from_ne_bytes(result)
    }

    /// Turns a source image into the container of its colours.
    pub fn convert_png_to_hif(image: &Surface, order: ByteOrder) -> (contents: Vec<u8>)
        ensures
            contents@ == encoded(order, unpainted(image@)),
    {
        let bitmap = Sam::unpaint(image);
        Sam::encode(&bitmap, order)
    }

    /// Turns the bytes of a container file into the surface that shows the
    /// bitmap it holds, or says why the bytes are no container.
    pub fn hif_to_png(contents: &[u8], order: ByteOrder) -> (surface: Result<Surface, DecodeError>)
        ensures
            match surface {
                Ok(s) => decoded(order, contents@) matches Ok(bitmap) && s@ == painted(bitmap),
                Err(e) => decoded(order, contents@) == Err::<BitmapView, DecodeError>(e),
            },
    {
        match Sam::decode(contents, order) {
            Ok(bitmap) => Ok(Sam::paint(&bitmap)),
            Err(e) => Err(e),
        }
    }

    /// The byte order of the machine this runs on. It is found by reading
    /// the probe bytes 1, 0, 0, 0 as a number in that order, and is the
    /// order that `ByteOrder::of_probe` gives for the number that came out.
    /// Which order that is depends on the machine alone.
    pub fn native_byte_order() -> ByteOrder {
        let probe: [u8; 4] = [1, 0, 0, 0];
        ByteOrder::of_probe(Sam::convert_bytes_to_u32_ne(probe.as_slice()))
    }
}

/// An image that is written as a container and read back, in one byte
/// order, comes back with its size and with the colour of every pixel, each
/// in its place and fully opaque.
pub proof fn lemma_image_round_trip(order: ByteOrder, image: SurfaceView, x: int, y: int)
    requires
        image.wf(),
        0 <= x < image.width,
        0 <= y < image.height,
    ensures
        decoded(order, encoded(order, unpainted(image))) == Ok::<BitmapView, DecodeError>(
            unpainted(image),
        ),
        painted(unpainted(image)).width == image.width,
        painted(unpainted(image)).height == image.height,
        painted(unpainted(image)).pixel(x, y) == opaque(colour_of(image.pixel(x, y))),
{
    lemma_unpainted_pixel(image, x, y);
    lemma_decode_encode(order, unpainted(image));
    lemma_painted_pixel(unpainted(image), x, y);
}

} // verus!
