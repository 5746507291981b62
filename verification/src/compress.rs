//! The compressed transform: trusted calls into the `zstd` crate, with names
//! for what its streaming compressor and decompressor return.

use vstd::prelude::*;

verus! {

/// The compressed stream that zstd produces for the given bytes at the given
/// compression level; deterministic for a fixed input and level.
pub uninterp spec fn zstd_compressed(s: Seq<u8>, level: int) -> Seq<u8>;

/// What zstd decompression yields on the given stream: `None` where the
/// stream is not a well-formed zstd frame.
pub uninterp spec fn zstd_decompressed(s: Seq<u8>) -> Option<Seq<u8>>;

/// Relies on `zstd::encode_all`: the compressed stream for a given input and
/// level is deterministic, and zstd compression is lossless, so
/// `zstd::decode_all` recovers exactly the input from its output.
#[verifier::external_body]
pub(crate) fn compress(b: &[u8], level: i32) -> (r: Option<Vec<u8>>)
    ensures
        r matches Some(v) ==> v@ == zstd_compressed(b@, level as int),
        r matches Some(v) ==> zstd_decompressed(v@) == Some(b@),
{
    zstd::encode_all(b, level).ok()
}

/// Relies on `zstd::decode_all`: whether a stream decompresses, and to what,
/// is a function of the stream's bytes alone.
#[verifier::external_body]
pub(crate) fn decompress(b: &[u8]) -> (r: Option<Vec<u8>>)
    ensures
        match zstd_decompressed(b@) {
            Some(d) => r matches Some(v) && v@ == d,
            None => r is None,
        },
{
    zstd::decode_all(b).ok()
}

} // verus!
