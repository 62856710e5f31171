//! The container: the bytes of a bitmap. The width, then the height, each as
//! four bytes in one byte order, then the pixel stream, and nothing else.

use vstd::prelude::*;
use vstd::slice::{slice_subrange, slice_to_vec};
use crate::bitmap::{Bitmap, BitmapView};
use crate::byte_order::{
    lemma_u32_from_bytes_fits, lemma_u32_from_to_bytes, lemma_u32_to_from_bytes, u32_from_bytes,
    u32_to_bytes, ByteOrder,
};
use crate::sam::Sam;

verus! {

/// The number of bytes of the header: two fields of four bytes.
pub const HEADER_LEN: usize = 8;

/// Why a buffer is no container.
#[derive(Clone, Copy, Debug, PartialEq, Eq, Structural)]
pub enum DecodeError {
    /// The buffer is shorter than the header.
    MissingHeader,
    /// Fewer bytes follow the header than the size in it asks for.
    Truncated,
    /// More bytes follow the header than the size in it asks for.
    TrailingBytes,
}

/// The container of a bitmap.
pub open spec fn encoded(order: ByteOrder, bitmap: BitmapView) -> Seq<u8> {
    u32_to_bytes(order, bitmap.width as u32) + u32_to_bytes(order, bitmap.height as u32)
        + bitmap.pixels
}

/// The width that the header of a buffer declares.
pub open spec fn declared_width(order: ByteOrder, bytes: Seq<u8>) -> int
    recommends
        bytes.len() >= HEADER_LEN,
{
    u32_from_bytes(order, bytes.subrange(0, 4))
}

/// The height that the header of a buffer declares.
pub open spec fn declared_height(order: ByteOrder, bytes: Seq<u8>) -> int
    recommends
        bytes.len() >= HEADER_LEN,
{
    u32_from_bytes(order, bytes.subrange(4, 8))
}

/// The bitmap that a buffer is the container of, or why it is none: the
/// bytes after the header must be exactly three for each pixel of the
/// declared size.
pub open spec fn decoded(order: ByteOrder, bytes: Seq<u8>) -> Result<BitmapView, DecodeError> {
    if bytes.len() < HEADER_LEN {
        Err(DecodeError::MissingHeader)
    } else {
        let width = declared_width(order, bytes);
        let height = declared_height(order, bytes);
        let declared = 3 * (width * height);
        let available = bytes.len() - HEADER_LEN;
        if available < declared {
            Err(DecodeError::Truncated)
        } else if available > declared {
            Err(DecodeError::TrailingBytes)
        } else {
            Ok(
                BitmapView {
                    width: width as nat,
                    height: height as nat,
                    pixels: bytes.subrange(HEADER_LEN as int, bytes.len() as int),
                },
            )
        }
    }
}

impl Sam {
    /// Writes a bitmap as a container: eight bytes of header and three for
    /// each pixel. A bitmap without pixels is written as its header alone.
    pub fn encode(bitmap: &Bitmap, order: ByteOrder) -> (bytes: Vec<u8>)
        ensures
            bytes@ == encoded(order, bitmap@),
            bytes@.len() == HEADER_LEN + 3 * (bitmap@.width * bitmap@.height),
            decoded(order, bytes@) == Ok::<BitmapView, DecodeError>(bitmap@),
    {
        let width_bytes = order.write_u32(bitmap.width());
        let height_bytes = order.write_u32(bitmap.height());
        let mut bytes: Vec<u8> = Vec::new();
        bytes.extend_from_slice(width_bytes.as_slice());
        bytes.extend_from_slice(height_bytes.as_slice());
        bytes.extend_from_slice(bitmap.pixels());
        assert(bytes@ =~= encoded(order, bitmap@));
        proof {
            lemma_decode_encode(order, bitmap@);
        }
        bytes
    }

    /// Reads a container back into the bitmap it holds, or says why the
    /// buffer is no container. The header is trusted for the size only as
    /// far as the bytes that follow it bear it out: no byte beyond the
    /// buffer is read, and none within it is left over.
    pub fn decode(bytes: &[u8], order: ByteOrder) -> (bitmap: Result<Bitmap, DecodeError>)
        ensures
            match bitmap {
                Ok(b) => decoded(order, bytes@) == Ok::<BitmapView, DecodeError>(b@) && b@.wf()
                    && encoded(order, b@) == bytes@,
                Err(e) => decoded(order, bytes@) == Err::<BitmapView, DecodeError>(e),
            },
    {
        if bytes.len() < HEADER_LEN {
            return Err(DecodeError::MissingHeader);
        }
        let width = order.read_u32(slice_subrange(bytes, 0, 4));
        let height = order.read_u32(slice_subrange(bytes, 4, 8));
        assert(width * height <= 0xffff_ffff * 0xffff_ffff) by (nonlinear_arith)
            requires
                width <= 0xffff_ffff,
                height <= 0xffff_ffff,
        ;
        let declared: u128 = 3 * (width as u128 * height as u128);
        let available: u128 = (bytes.len() - HEADER_LEN) as u128;
        if available < declared {
            return Err(DecodeError::Truncated);
        }
        if available > declared {
            return Err(DecodeError::TrailingBytes);
        }
        let pixels = slice_to_vec(slice_subrange(bytes, HEADER_LEN, bytes.len()));
        let bitmap = Bitmap::from_parts(width, height, pixels);
        proof {
            lemma_encode_decode(order, bytes@, bitmap@);
        }
        Ok(bitmap)
    }
}

/// A container has eight bytes of header and three bytes for each pixel.
pub proof fn lemma_encoded_len(order: ByteOrder, bitmap: BitmapView)
    requires
        bitmap.wf(),
    ensures
        encoded(order, bitmap).len() == HEADER_LEN + 3 * (bitmap.width * bitmap.height),
{
}

/// Decoding the container of a bitmap, in the order it was written in, gives
/// the bitmap back: the same width, the same height, the same bytes for
/// every pixel.
pub proof fn lemma_decode_encode(order: ByteOrder, bitmap: BitmapView)
    requires
        bitmap.wf(),
    ensures
        decoded(order, encoded(order, bitmap)) == Ok::<BitmapView, DecodeError>(bitmap),
{
    let bytes = encoded(order, bitmap);
    lemma_u32_to_from_bytes(order, bitmap.width as u32);
    lemma_u32_to_from_bytes(order, bitmap.height as u32);
    assert(bytes.subrange(0, 4) =~= u32_to_bytes(order, bitmap.width as u32));
    assert(bytes.subrange(4, 8) =~= u32_to_bytes(order, bitmap.height as u32));
    assert(bytes.subrange(HEADER_LEN as int, bytes.len() as int) =~= bitmap.pixels);
}

/// A buffer that decodes to a bitmap is the container of that bitmap: no two
/// buffers hold the same bitmap in one byte order.
pub proof fn lemma_encode_decode(order: ByteOrder, bytes: Seq<u8>, bitmap: BitmapView)
    requires
        decoded(order, bytes) == Ok::<BitmapView, DecodeError>(bitmap),
    ensures
        bitmap.wf(),
        encoded(order, bitmap) == bytes,
{
    lemma_u32_from_bytes_fits(order, bytes.subrange(0, 4));
    lemma_u32_from_bytes_fits(order, bytes.subrange(4, 8));
    lemma_u32_from_to_bytes(order, bytes.subrange(0, 4));
    lemma_u32_from_to_bytes(order, bytes.subrange(4, 8));
    assert(encoded(order, bitmap) =~= bytes);
}

/// A buffer with a header that declares more pixel bytes than follow it is
/// rejected as truncated.
pub proof fn lemma_truncated_rejected(order: ByteOrder, bytes: Seq<u8>)
    requires
        bytes.len() >= HEADER_LEN,
        bytes.len() - HEADER_LEN < 3 * (declared_width(order, bytes) * declared_height(
            order,
            bytes,
        )),
    ensures
        decoded(order, bytes) == Err::<BitmapView, DecodeError>(DecodeError::Truncated),
{
}

/// Cutting bytes off the end of a container leaves a buffer that is rejected.
pub proof fn lemma_prefix_rejected(order: ByteOrder, bitmap: BitmapView, len: int)
    requires
        bitmap.wf(),
        0 <= len < encoded(order, bitmap).len(),
    ensures
        decoded(order, encoded(order, bitmap).subrange(0, len)) is Err,
{
    let bytes = encoded(order, bitmap);
    let prefix = bytes.subrange(0, len);
    if len >= HEADER_LEN {
        lemma_u32_to_from_bytes(order, bitmap.width as u32);
        lemma_u32_to_from_bytes(order, bitmap.height as u32);
        assert(prefix.subrange(0, 4) =~= u32_to_bytes(order, bitmap.width as u32));
        assert(prefix.subrange(4, 8) =~= u32_to_bytes(order, bitmap.height as u32));
    }
}

} // verus!
