//! The DEFLATE compressor that entries of method Deflated are written
//! through.

use vstd::prelude::*;

verus! {

/// A running DEFLATE compression. It takes content in chunks and hands out
/// the compressed stream when it is finished.
///
/// The value is a `flate2::write::DeflateEncoder` over a byte vector, at the
/// default compression level. Nothing inside it is visible to the proofs:
/// they know it by [`encoder_input`] alone.
#[verifier::external_body]
pub struct DeflateEncoder {
    inner: flate2::write::DeflateEncoder<Vec<u8>>,
}

#[verifier::external_type_specification]
#[verifier::external_body]
pub struct ExIoError(std::io::Error);

/// The buffers that were handed to the encoder since it was started, in the
/// order of the calls, whether the encoder took them or refused them.
pub uninterp spec fn encoder_input(encoder: DeflateEncoder) -> Seq<Seq<u8>>;

/// The raw DEFLATE stream that the compressor hands out at the end, after it
/// was handed these buffers. The stream is computed by the `flate2` crate and
/// not defined here.
pub uninterp spec fn deflate_stream(chunks: Seq<Seq<u8>>) -> Seq<u8>;

/// Whether the compressor, after it was handed `chunks`, takes `buf` as well.
/// The answer is the `flate2` crate's and is not defined here.
pub uninterp spec fn deflate_accepts(chunks: Seq<Seq<u8>>, buf: Seq<u8>) -> bool;

/// Whether the compressor, after it was handed `chunks`, comes to its end
/// and hands out its stream. The answer is the `flate2` crate's and is not
/// defined here.
pub uninterp spec fn deflate_finishes(chunks: Seq<Seq<u8>>) -> bool;

/// Starts a compression.
///
/// Calls `flate2::write::DeflateEncoder::new` with an empty vector and the
/// default level. The contract claims that the new encoder was handed
/// nothing.
#[verifier::external_body]
pub(crate) fn encoder_new() -> (encoder: DeflateEncoder)
    ensures
        encoder_input(encoder) == Seq::<Seq<u8>>::empty(),
{
    DeflateEncoder {
        inner: flate2::write::DeflateEncoder::new(Vec::new(), flate2::Compression::default()),
    }
}

/// Feeds one chunk of content to the compression.
///
/// Calls `write_all` on the encoder. The contract claims that the call is
/// recorded, whatever its outcome, and that the outcome is the one that the
/// name [`deflate_accepts`] stands for: the compressor runs on nothing but
/// the buffers it was handed, so the same calls end the same way.
#[verifier::external_body]
pub(crate) fn encoder_write(encoder: &mut DeflateEncoder, buf: &[u8]) -> (r: Result<
    (),
    std::io::Error,
>)
    ensures
        encoder_input(*final(encoder)) == encoder_input(*old(encoder)).push(buf@),
        r is Ok <==> deflate_accepts(encoder_input(*old(encoder)), buf@),
{
    std::io::Write::write_all(&mut encoder.inner, buf)
}

/// Ends the compression and hands out the compressed stream.
///
/// Calls `flate2::write::DeflateEncoder::finish`. The contract claims that
/// the outcome is the one that [`deflate_finishes`] stands for, and that a
/// success returns the stream that [`deflate_stream`] stands for, both for the
/// buffers that the encoder was handed.
#[verifier::external_body]
pub(crate) fn encoder_finish(encoder: DeflateEncoder) -> (r: Result<Vec<u8>, std::io::Error>)
    ensures
        r is Ok <==> deflate_finishes(encoder_input(encoder)),
        r matches Ok(out) ==> out@ == deflate_stream(encoder_input(encoder)),
{
    encoder.inner.finish()
}

} // verus!
