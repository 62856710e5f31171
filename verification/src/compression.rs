//! The compressed sibling of a container: the same bytes as one gzip stream.

use vstd::prelude::*;
use vstd::slice::slice_subrange;
use crate::sam::Sam;

verus! {

/// A gzip encoder of the `flate2` crate that writes to a vector.
#[verifier::external_body]
pub struct GzipEncoder {
    inner: flate2::write::GzEncoder<Vec<u8>>,
}

/// `std::io::Error`, in which the encoders and decoders of the `flate2` crate
/// report their errors.
#[verifier::external_type_specification]
#[verifier::external_body]
pub struct ExIoError(std::io::Error);

/// The bytes that an encoder has taken so far, in the order it took them.
pub uninterp spec fn gz_taken(encoder: GzipEncoder) -> Seq<u8>;

/// What `flate2::read::GzDecoder` reads out of a stream: the bytes that the
/// stream's first member holds, or nothing where the decoder reports an
/// error.
pub uninterp spec fn gunzip(stream: Seq<u8>) -> Option<Seq<u8>>;

/// Whether an encoder that has taken `taken` takes `chunk` next: whether
/// `std::io::Write::write_all` on it returns `Ok`. The encoder writes to a
/// vector and reads no file, clock or chance, so its outcome depends on what
/// it has been handed alone; and it is handed whole chunks only, so the
/// bytes it has taken tell all that it was handed.
pub uninterp spec fn gz_takes(taken: Seq<u8>, chunk: Seq<u8>) -> bool;

/// Whether an encoder that has taken `taken` ends its stream: whether
/// `flate2::write::GzEncoder::finish` on it returns `Ok`.
pub uninterp spec fn gz_ends(taken: Seq<u8>) -> bool;

/// `flate2::write::GzEncoder::new` over an empty vector, at the level of
/// `flate2::Compression::default`: an encoder that has taken nothing yet.
#[verifier::external_body]
fn gz_encoder() -> (encoder: GzipEncoder)
    ensures
        gz_taken(encoder) == Seq::<u8>::empty(),
{
    GzipEncoder {
        inner: flate2::write::GzEncoder::new(Vec::new(), flate2::Compression::default()),
    }
}

/// `std::io::Write::write_all` on an encoder that has taken whole chunks so
/// far, with a chunk of no more than the full length. Whether it returns
/// `Ok` is a matter of what the encoder has taken and of the chunk; where it
/// does, the encoder has taken the whole chunk after what it had taken
/// before.
#[verifier::external_body]
fn gz_write_all(encoder: &mut GzipEncoder, chunk: &[u8]) -> (written: Result<(), std::io::Error>)
    requires
        gz_taken(*old(encoder)).len() % (CHUNK_LEN as nat) == 0,
        chunk@.len() <= CHUNK_LEN,
    ensures
        written is Ok <==> gz_takes(gz_taken(*old(encoder)), chunk@),
        written is Ok ==> gz_taken(*final(encoder)) == gz_taken(*old(encoder)) + chunk@,
{
    std::io::Write::write_all(&mut encoder.inner, chunk)
}

/// `flate2::write::GzEncoder::finish`. Whether it returns `Ok` is a matter
/// of what the encoder has taken; where it does, the vector it hands back is
/// a gzip stream of what the encoder has taken, which is to say that the
/// crate's decoder reads exactly those bytes out of it.
#[verifier::external_body]
fn gz_finish(encoder: GzipEncoder) -> (finished: Result<Vec<u8>, std::io::Error>)
    ensures
        finished is Ok <==> gz_ends(gz_taken(encoder)),
        finished matches Ok(stream) ==> gunzip(stream@) == Some(gz_taken(encoder)),
{
    encoder.inner.finish()
}

/// `std::io::Read::read_to_end` on a `flate2::read::GzDecoder` over the
/// stream: the bytes it reads out, or its error.
#[verifier::external_body]
fn gz_read_to_end(stream: &[u8]) -> (read: Result<Vec<u8>, std::io::Error>)
    ensures
        match read {
            Ok(data) => gunzip(stream@) == Some(data@),
            Err(_) => gunzip(stream@) is None,
        },
{
    let mut data: Vec<u8> = Vec::new();
    match std::io::Read::read_to_end(&mut flate2::read::GzDecoder::new(stream), &mut data) {
        Ok(_) => Ok(data),
        Err(error) => Err(error),
    }
}

/// The number of bytes that the encoder is handed at a time.
pub const CHUNK_LEN: usize = 4096;

/// Where chunk number `k` of a file of `len` bytes ends: a full chunk
/// further on, or at the end of the file.
pub open spec fn chunk_end(len: int, k: int) -> int {
    if (k + 1) * CHUNK_LEN < len {
        (k + 1) * CHUNK_LEN
    } else {
        len
    }
}

/// Whether the encoder, having taken all chunks before it, takes chunk
/// number `k` of the contents.
pub open spec fn takes_chunk(contents: Seq<u8>, k: int) -> bool {
    gz_takes(
        contents.subrange(0, k * CHUNK_LEN),
        contents.subrange(k * CHUNK_LEN, chunk_end(contents.len() as int, k)),
    )
}

/// Whether the encoder compresses the contents: it takes every chunk of
/// them in turn, and ends the stream after the last.
pub open spec fn compresses(contents: Seq<u8>) -> bool {
    &&& forall|k: int| 0 <= k && k * CHUNK_LEN < contents.len() ==> #[trigger] takes_chunk(contents, k)
    &&& gz_ends(contents)
}

/// Why a container could not be compressed: the encoder reported an error,
/// on a chunk or on ending the stream.
#[derive(Clone, Copy, Debug, PartialEq, Eq, Structural)]
pub struct CompressError;

impl Sam {
    /// Compresses the bytes of a container file into one gzip stream,
    /// handing them to the encoder chunk by chunk and in their order. It
    /// succeeds where the encoder takes every chunk and ends the stream, and
    /// fails where the encoder fails. A stream that is returned holds the
    /// container byte for byte: decompressing it gives exactly `contents`.
    /// Nothing in here looks into the container.
    pub fn compress_hif_file(contents: &[u8]) -> (compressed: Result<Vec<u8>, CompressError>)
        ensures
            compressed is Ok <==> compresses(contents@),
            compressed matches Ok(stream) ==> gunzip(stream@) == Some(contents@),
    {
        let mut encoder = gz_encoder();
        let mut offset: usize = 0;
        let ghost mut taken: int = 0;
        while offset < contents.len()
            invariant
                0 <= taken,
                offset == if taken * CHUNK_LEN < contents@.len() {
                    taken * CHUNK_LEN
                } else {
                    contents@.len() as int
                },
                gz_taken(encoder) == contents@.subrange(0, offset as int),
                forall|k: int| 0 <= k < taken ==> #[trigger] takes_chunk(contents@, k),
            decreases contents@.len() - offset,
        {
            let end: usize = if contents.len() - offset > CHUNK_LEN {
                offset + CHUNK_LEN
            } else {
                contents.len()
            };
            assert(end == chunk_end(contents@.len() as int, taken));
            let chunk = slice_subrange(contents, offset, end);
            match gz_write_all(&mut encoder, chunk) {
                Ok(()) => {},
                Err(_) => {
                    assert(!takes_chunk(contents@, taken));
                    return Err(CompressError);
                },
            }
            assert(takes_chunk(contents@, taken));
            assert(contents@.subrange(0, offset as int) + chunk@ =~= contents@.subrange(
                0,
                end as int,
            ));
            offset = end;
            proof {
                taken = taken + 1;
            }
        }
        assert(contents@.subrange(0, offset as int) =~= contents@);
        Sam::compressed(gz_finish(encoder))
    }

    /// Reads the bytes of a container file back out of its compressed
    /// sibling, if the stream is one that the decoder accepts.
    pub fn decompress_hif_file(stream: &[u8]) -> (contents: Option<Vec<u8>>)
        ensures
            match contents {
                Some(data) => gunzip(stream@) == Some(data@),
                None => gunzip(stream@) is None,
            },
    {
        Sam::decompressed(gz_read_to_end(stream))
    }

    /// What compressing returns once the encoder has ended the stream or
    /// failed to: the stream, or that it failed.
    pub fn compressed(finished: Result<Vec<u8>, std::io::Error>) -> (compressed: Result<
        Vec<u8>,
        CompressError,
    >)
        ensures
            match finished {
                Ok(stream) => compressed == Ok::<Vec<u8>, CompressError>(stream),
                Err(_) => compressed == Err::<Vec<u8>, CompressError>(CompressError),
            },
    {
        match finished {
            Ok(stream) => Ok(stream),
            Err(_) => Err(CompressError),
        }
    }

    /// What decompressing returns once the decoder has read the stream out
    /// or failed to: the bytes, or nothing.
    pub fn decompressed(read: Result<Vec<u8>, std::io::Error>) -> (contents: Option<Vec<u8>>)
        ensures
            match read {
                Ok(data) => contents == Some(data),
                Err(_) => contents is None,
            },
    {
        match read {
            Ok(data) => Some(data),
            Err(_) => None,
        }
    }
}

} // verus!
