//! Compression of response bodies.

use std::io::Write;
use vstd::prelude::*;

verus! {

/// The brotli stream that the encoder writes for `input` at quality 11 with
/// a window of 22 bits.
pub uninterp spec fn brotli_stream(input: Seq<u8>) -> Seq<u8>;

/// Runs `CompressorWriter` of the brotli crate over `input`, writing into a
/// vector, and takes the vector back with `into_inner`, which finishes the
/// stream. The result is named, not described.
#[verifier::external_body]
fn compress_stream(input: &[u8]) -> (out: Vec<u8>)
    ensures
        out@ == brotli_stream(input@),
{
    let mut writer = brotli::CompressorWriter::new(Vec::new(), 4096, 11, 22);
    let _ = writer.write_all(input);
    writer.into_inner()
}

/// Compresses `input` with brotli.
pub fn brotli(input: &[u8]) -> (out: Vec<u8>)
    ensures
        out@ == brotli_stream(input@),
{
    compress_stream(input)
}

} // verus!
