//! A compact, self-describing transport codec for JSON values.
//!
//! The wire format is `tag_byte || base64(transform(json_text))`: the leading
//! byte names the transform applied to the canonical JSON text, and the rest
//! is that transform's output in the standard printable base64 alphabet. The
//! encoder tries every registered transform and keeps the shortest result;
//! the decoder trims trailing copy/paste noise, undoes the printable layer,
//! and dispatches on the tag.

use vstd::prelude::*;

pub mod compress;
pub mod json;
pub mod printable;

use crate::compress::{compress, decompress, zstd_compressed, zstd_decompressed};
use crate::json::{
    json_depth, json_from_bytes, json_parsed, json_text_of, json_to_bytes, MAX_JSON_DEPTH,
};
use crate::printable::{
    ascii_bytes, ascii_to_string, b64_decoded, b64_encode, b64_range, lemma_b64_encode_in_range,
    lemma_trim_all_in_range, lemma_trim_drops_noise, printable_decode, printable_encode,
    trim_noise, trimmed, MAX_B64_INPUT,
};

verus! {

/// Tag of the legacy compressed container: decoded like the compressed tag,
/// never emitted by new encodes.
pub const TAG_LEGACY: u8 = 48;

/// Tag of the zstd-compressed transform.
pub const TAG_ZSTD: u8 = 49;

/// Tag of the identity transform.
pub const TAG_PLAIN: u8 = 50;

/// The fixed high-ratio compression level handed to the compressor.
pub const COMPRESSION_LEVEL: i32 = 19;

/// Why a decode failed.
#[derive(Debug, Clone, Copy, PartialEq, Eq)]
pub enum DecodeError {
    /// The input had no bytes at all.
    EmptyInput,
    /// The payload was not valid base64 after the noise trim.
    InvalidEncoding,
    /// The tag byte names no registered transform.
    UnsupportedFormat(u8),
    /// The payload was not a well-formed zstd stream.
    TransformFailure,
    /// The transformed payload was not JSON text.
    MalformedJson,
}

/// Why an encode failed.
#[derive(Debug, Clone, Copy, PartialEq, Eq)]
pub enum EncodeError {
    /// A candidate transform failed, or the chosen candidate was too long to
    /// printable-encode.
    EncodeTransformFailure,
}

/// The candidate the encoder keeps, given the canonical JSON text and its
/// compressed form: the one with fewer raw bytes, the compressed one (which
/// stands earlier in the registry) on a tie.
pub open spec fn chosen_candidate(jt: Seq<u8>, zc: Seq<u8>) -> Seq<u8> {
    if zc.len() <= jt.len() {
        zc
    } else {
        jt
    }
}

/// The tag that goes with the kept candidate.
pub open spec fn chosen_tag(jt: Seq<u8>, zc: Seq<u8>) -> u8 {
    if zc.len() <= jt.len() {
        TAG_ZSTD
    } else {
        TAG_PLAIN
    }
}

/// The transport bytes built from the canonical JSON text and its compressed
/// form: the chosen tag, then the chosen candidate in base64.
pub open spec fn transport_of(jt: Seq<u8>, zc: Seq<u8>) -> Seq<u8> {
    seq![chosen_tag(jt, zc)] + b64_encode(chosen_candidate(jt, zc))
}

/// The transport bytes that encoding a value produces once the compressor
/// has done its work on the value's canonical JSON text.
pub open spec fn encoded_transport(jt: Seq<u8>) -> Seq<u8> {
    transport_of(jt, zstd_compressed(jt, COMPRESSION_LEVEL as int))
}

/// What decoding yields, stage by stage: the tag byte is split off, trailing
/// noise is trimmed, the payload is base64-decoded, the tag's inverse
/// transform is applied, and the result is parsed as JSON. Each stage fails
/// with its own error.
pub open spec fn decode_spec(src: Seq<u8>) -> Result<serde_json::Value, DecodeError> {
    if src.len() == 0 {
        Err(DecodeError::EmptyInput)
    } else {
        let tag = src[0];
        match b64_decoded(trimmed(src.skip(1))) {
            None => Err(DecodeError::InvalidEncoding),
            Some(data) => {
                if tag == TAG_LEGACY || tag == TAG_ZSTD {
                    match zstd_decompressed(data) {
                        None => Err(DecodeError::TransformFailure),
                        Some(text) => match json_parsed(text) {
                            None => Err(DecodeError::MalformedJson),
                            Some(v) => Ok(v),
                        },
                    }
                } else if tag == TAG_PLAIN {
                    match json_parsed(data) {
                        None => Err(DecodeError::MalformedJson),
                        Some(v) => Ok(v),
                    }
                } else {
                    Err(DecodeError::UnsupportedFormat(tag))
                }
            },
        }
    }
}

/// Index of the first candidate with the fewest payload bytes, scanning left
/// to right, so earlier registry entries win ties.
pub fn pick_shortest(options: &Vec<(u8, Vec<u8>)>) -> (r: usize)
    requires
        options@.len() > 0,
    ensures
        0 <= r < options@.len(),
        forall|j: int| 0 <= j < options@.len() ==> options@[r as int].1@.len() <= #[trigger] options@[j].1@.len(),
        forall|j: int| 0 <= j < r ==> #[trigger] options@[j].1@.len() > options@[r as int].1@.len(),
{
    let mut best: usize = 0;
    let mut i: usize = 1;
    while i < options.len()
        invariant
            options@.len() > 0,
            0 <= best < i <= options@.len(),
            forall|j: int| 0 <= j < i ==> options@[best as int].1@.len() <= #[trigger] options@[j].1@.len(),
            forall|j: int| 0 <= j < best ==> #[trigger] options@[j].1@.len() > options@[best as int].1@.len(),
        decreases options@.len() - i,
    {
        if options[best].1.len() > options[i].1.len() {
            best = i;
        }
        i = i + 1;
    }
    best
}

/// Build the tagged printable transport from the canonical JSON text and its
/// compressed form: pick the shorter candidate, base64 it, prepend the tag.
/// Returns `None` exactly where the chosen candidate is too long for its
/// base64 form to be addressable.
pub fn build_transport(json_text: Vec<u8>, compressed: Vec<u8>) -> (r: Option<String>)
    ensures
        r is Some <==> chosen_candidate(json_text@, compressed@).len() <= MAX_B64_INPUT,
        r matches Some(s) ==> ascii_bytes(s@) == transport_of(json_text@, compressed@),
        r matches Some(s) ==> forall|i: int| 0 <= i < s@.len() ==> (#[trigger] s@[i] as int) < 128,
        r matches Some(s) ==> b64_decoded(b64_encode(chosen_candidate(json_text@, compressed@)))
            == Some(chosen_candidate(json_text@, compressed@)),
{
    let ghost jt = json_text@;
    let ghost zc = compressed@;
    let mut options: Vec<(u8, Vec<u8>)> = Vec::new();
    options.push((TAG_ZSTD, compressed));
    options.push((TAG_PLAIN, json_text));
    let idx = pick_shortest(&options);
    proof {
        assert(options@[0].1@ == zc);
        assert(options@[1].1@ == jt);
        if zc.len() <= jt.len() {
            assert(idx == 0);
        } else {
            assert(options@[idx as int].1@.len() <= options@[1].1@.len());
            assert(idx == 1);
        }
        assert(options@[idx as int].1@ == chosen_candidate(jt, zc));
        assert(options@[idx as int].0 == chosen_tag(jt, zc));
    }
    if options[idx].1.len() > MAX_B64_INPUT {
        return None;
    }
    let tag = options[idx].0;
    let mut payload = printable_encode(options[idx].1.as_slice());
    let mut out: Vec<u8> = Vec::new();
    out.push(tag);
    out.append(&mut payload);
    proof {
        assert(out@ =~= transport_of(jt, zc));
        lemma_b64_encode_in_range(chosen_candidate(jt, zc));
        assert forall|i: int| 0 <= i < out@.len() implies out@[i] < 128 by {
            if i > 0 {
                assert(out@[i] == b64_encode(chosen_candidate(jt, zc))[i - 1]);
                assert(b64_range(out@[i]));
            }
        }
    }
    Some(ascii_to_string(out))
}

/// Decode a transport string back to the JSON value it carries, failing with
/// the error of the first stage that rejects the input.
pub fn decode(src: &[u8]) -> (r: Result<serde_json::Value, DecodeError>)
    ensures
        r == decode_spec(src@),
{
    if src.len() == 0 {
        return Err(DecodeError::EmptyInput);
    }
    let tag = *vstd::slice::slice_index_get(src, 0);
    let payload = vstd::slice::slice_subrange(src, 1, src.len());
    proof {
        assert(payload@ =~= src@.skip(1));
    }
    let cleaned = trim_noise(payload);
    let data = match printable_decode(cleaned.as_slice()) {
        None => {
            return Err(DecodeError::InvalidEncoding);
        },
        Some(d) => d,
    };
    if tag == TAG_LEGACY || tag == TAG_ZSTD {
        let text = match decompress(data.as_slice()) {
            None => {
                return Err(DecodeError::TransformFailure);
            },
            Some(t) => t,
        };
        match json_from_bytes(text.as_slice()) {
            None => Err(DecodeError::MalformedJson),
            Some(v) => Ok(v),
        }
    } else if tag == TAG_PLAIN {
        match json_from_bytes(data.as_slice()) {
            None => Err(DecodeError::MalformedJson),
            Some(v) => Ok(v),
        }
    } else {
        Err(DecodeError::UnsupportedFormat(tag))
    }
}

/// Encode a JSON value as a tagged printable transport string.
///
/// On success the transport's bytes are exactly `encoded_transport` of the
/// value's canonical JSON text, every character is printable ASCII, and the
/// payload after the tag is strict base64 decoding back to the chosen raw
/// bytes. Decoding the whole transport yields the value again — the
/// round-trip law is part of this contract — for every value nested no
/// deeper than the JSON parser's recursion limit; a deeper value still
/// encodes, but no parser of this crate can read its text back.
pub fn encode(value: serde_json::Value) -> (r: Result<String, EncodeError>)
    ensures
        r matches Ok(s) ==> ascii_bytes(s@) == encoded_transport(json_text_of(value)),
        r matches Ok(s) ==> forall|i: int| 0 <= i < s@.len() ==> (#[trigger] s@[i] as int) < 128,
        r matches Ok(s) ==> b64_decoded(ascii_bytes(s@).skip(1)) == Some(
            chosen_candidate(
                json_text_of(value),
                zstd_compressed(json_text_of(value), COMPRESSION_LEVEL as int),
            ),
        ),
        r matches Ok(s) ==> (json_depth(value) <= MAX_JSON_DEPTH as int ==> decode_spec(
            ascii_bytes(s@),
        ) == Ok::<serde_json::Value, DecodeError>(value)),
        r matches Err(e) ==> e == EncodeError::EncodeTransformFailure,
{
    let json_text = json_to_bytes(&value);
    let ghost jt = json_text@;
    let compressed = match compress(json_text.as_slice(), COMPRESSION_LEVEL) {
        None => {
            return Err(EncodeError::EncodeTransformFailure);
        },
        Some(z) => z,
    };
    let ghost zc = compressed@;
    match build_transport(json_text, compressed) {
        None => Err(EncodeError::EncodeTransformFailure),
        Some(s) => {
            proof {
                let t = transport_of(jt, zc);
                let chosen = chosen_candidate(jt, zc);
                assert(t.skip(1) =~= b64_encode(chosen));
                lemma_b64_encode_in_range(chosen);
                lemma_trim_all_in_range(b64_encode(chosen));
                if json_depth(value) <= MAX_JSON_DEPTH as int {
                    assert(decode_spec(t) == Ok::<serde_json::Value, DecodeError>(value));
                }
            }
            Ok(s)
        },
    }
}

/// Shortest-pick: the emitted tag names the candidate with the fewest raw
/// bytes; the compressed candidate, standing earlier in the registry, wins
/// ties.
pub proof fn lemma_shortest_pick(jt: Seq<u8>)
    ensures
        zstd_compressed(jt, COMPRESSION_LEVEL as int).len() <= jt.len() ==> encoded_transport(
            jt,
        )[0] == TAG_ZSTD,
        zstd_compressed(jt, COMPRESSION_LEVEL as int).len() > jt.len() ==> encoded_transport(
            jt,
        )[0] == TAG_PLAIN,
{
}

/// Legacy compatibility: a transport tagged with the legacy container byte
/// decodes exactly as the same transport tagged as compressed.
pub proof fn lemma_legacy_tag(rest: Seq<u8>)
    ensures
        decode_spec(seq![TAG_LEGACY] + rest) == decode_spec(seq![TAG_ZSTD] + rest),
{
    let a = seq![TAG_LEGACY] + rest;
    let b = seq![TAG_ZSTD] + rest;
    assert(a.skip(1) =~= rest);
    assert(b.skip(1) =~= rest);
}

/// Every byte after the tag of an encoded transport lies in the printable
/// range, so the decoder's noise trim never shortens an intact transport.
pub proof fn lemma_encoded_in_range(jt: Seq<u8>)
    ensures
        forall|k: int| 1 <= k < encoded_transport(jt).len() ==> b64_range(
            #[trigger] encoded_transport(jt)[k],
        ),
{
    let zc = zstd_compressed(jt, COMPRESSION_LEVEL as int);
    let chosen = chosen_candidate(jt, zc);
    lemma_b64_encode_in_range(chosen);
    assert forall|k: int| 1 <= k < encoded_transport(jt).len() implies b64_range(
        #[trigger] encoded_transport(jt)[k],
    ) by {
        assert(encoded_transport(jt)[k] == b64_encode(chosen)[k - 1]);
    }
}

/// Noise tolerance: appended bytes that begin outside the printable range
/// are trimmed away, so decoding is unchanged. Encoded transports satisfy
/// the in-range premise by `lemma_encoded_in_range`.
pub proof fn lemma_noise_tolerance(t: Seq<u8>, noise: Seq<u8>)
    requires
        t.len() >= 1,
        forall|k: int| 1 <= k < t.len() ==> b64_range(#[trigger] t[k]),
        noise.len() > 0,
        !b64_range(noise[0]),
    ensures
        decode_spec(t + noise) == decode_spec(t),
{
    let u = t + noise;
    assert(u[0] == t[0]);
    assert(u.skip(1) =~= t.skip(1) + noise);
    assert(forall|k: int| 0 <= k < t.skip(1).len() ==> b64_range(#[trigger] t.skip(1)[k]));
    lemma_trim_drops_noise(t.skip(1), noise);
    lemma_trim_all_in_range(t.skip(1));
    assert(trimmed(u.skip(1)) == trimmed(t.skip(1)));
}

/// Unknown tag: where the leading byte names no registered transform, the
/// decode fails, with `UnsupportedFormat` whenever the payload itself is
/// well-formed base64 (an unreadable payload is reported first).
pub proof fn lemma_unknown_tag(src: Seq<u8>)
    requires
        src.len() >= 1,
        src[0] != TAG_LEGACY,
        src[0] != TAG_ZSTD,
        src[0] != TAG_PLAIN,
    ensures
        decode_spec(src) is Err,
        b64_decoded(trimmed(src.skip(1))) is Some ==> decode_spec(src) == Err::<
            serde_json::Value,
            DecodeError,
        >(DecodeError::UnsupportedFormat(src[0])),
        b64_decoded(trimmed(src.skip(1))) is None ==> decode_spec(src) == Err::<
            serde_json::Value,
            DecodeError,
        >(DecodeError::InvalidEncoding),
{
}

} // verus!
