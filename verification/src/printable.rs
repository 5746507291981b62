//! The printable side of the wire format: a mathematical model of standard
//! base64, the decoder's best-effort noise trim, and the trusted calls into
//! the `base64` crate.

use vstd::prelude::*;
use base64::Engine;
use base64::prelude::BASE64_STANDARD;

verus! {

/// The contiguous byte range `+` .. `z` that the noise trim keeps: a loose
/// superset of the standard base64 alphabet together with its `=` padding.
pub open spec fn b64_range(b: u8) -> bool {
    43 <= b <= 122
}

/// The standard base64 symbol for a six-bit value.
pub open spec fn b64_char(v: int) -> u8 {
    if v < 26 {
        (65 + v) as u8
    } else if v < 52 {
        (71 + v) as u8
    } else if v < 62 {
        (v - 4) as u8
    } else if v == 62 {
        43u8
    } else {
        47u8
    }
}

/// Standard base64 with `=` padding: each group of three bytes becomes four
/// symbols, and a final partial group is padded out.
pub open spec fn b64_encode(s: Seq<u8>) -> Seq<u8>
    decreases s.len(),
{
    if s.len() == 0 {
        Seq::empty()
    } else if s.len() == 1 {
        let b0 = s[0] as int;
        seq![b64_char(b0 / 4), b64_char(b0 % 4 * 16), 61u8, 61u8]
    } else if s.len() == 2 {
        let b0 = s[0] as int;
        let b1 = s[1] as int;
        seq![b64_char(b0 / 4), b64_char(b0 % 4 * 16 + b1 / 16), b64_char(b1 % 16 * 4), 61u8]
    } else {
        let b0 = s[0] as int;
        let b1 = s[1] as int;
        let b2 = s[2] as int;
        seq![
            b64_char(b0 / 4),
            b64_char(b0 % 4 * 16 + b1 / 16),
            b64_char(b1 % 16 * 4 + b2 / 64),
            b64_char(b2 % 64),
        ] + b64_encode(s.skip(3))
    }
}

/// What strict base64 decoding yields on the given bytes: `None` where they
/// are not a well-formed encoding under the standard alphabet.
pub uninterp spec fn b64_decoded(s: Seq<u8>) -> Option<Seq<u8>>;

/// The longest input whose base64 form still has a length that fits in
/// `usize`; the engine cannot encode anything longer.
pub const MAX_B64_INPUT: usize = (usize::MAX - 4) / 4 * 3;

/// Relies on base64's `BASE64_STANDARD` engine: standard alphabet with `=`
/// padding, four symbols per three input bytes, and a strict decode in the
/// same engine recovers exactly the input bytes.
#[verifier::external_body]
pub(crate) fn printable_encode(b: &[u8]) -> (r: Vec<u8>)
    requires
        b@.len() <= MAX_B64_INPUT,
    ensures
        r@ == b64_encode(b@),
        b64_decoded(r@) == Some(b@),
{
    BASE64_STANDARD.encode(b).into_bytes()
}

/// Relies on base64's strict decode in the `BASE64_STANDARD` engine: whether
/// the bytes decode, and to what, is a function of the bytes alone.
#[verifier::external_body]
pub(crate) fn printable_decode(b: &[u8]) -> (r: Option<Vec<u8>>)
    ensures
        match b64_decoded(b@) {
            Some(d) => r matches Some(v) && v@ == d,
            None => r is None,
        },
{
    BASE64_STANDARD.decode(b).ok()
}

/// The byte values of a string's characters; faithful for ASCII strings.
pub open spec fn ascii_bytes(s: Seq<char>) -> Seq<u8> {
    s.map_values(|c: char| c as u8)
}

/// Relies on `String::from_utf8`: bytes below 128 are valid UTF-8 and become
/// the string whose characters are exactly those byte values, each below 128.
#[verifier::external_body]
pub(crate) fn ascii_to_string(v: Vec<u8>) -> (r: String)
    requires
        forall|i: int| 0 <= i < v@.len() ==> v@[i] < 128,
    ensures
        ascii_bytes(r@) == v@,
        forall|i: int| 0 <= i < r@.len() ==> (#[trigger] r@[i] as int) < 128,
{
    match String::from_utf8(v) {
        Ok(s) => s,
        Err(_) => String::new(),
    }
}

/// Every base64 symbol, `=` padding included, lies in the `+` .. `z` range.
pub proof fn lemma_b64_char_in_range(v: int)
    requires
        0 <= v < 64,
    ensures
        b64_range(b64_char(v)),
{
}

/// Every byte of a base64 encoding lies in the `+` .. `z` range, so the
/// noise trim never touches an intact payload.
pub proof fn lemma_b64_encode_in_range(s: Seq<u8>)
    ensures
        forall|i: int| 0 <= i < b64_encode(s).len() ==> b64_range(#[trigger] b64_encode(s)[i]),
    decreases s.len(),
{
    if s.len() == 0 {
    } else if s.len() == 1 {
        let b0 = s[0] as int;
        lemma_b64_char_in_range(b0 / 4);
        lemma_b64_char_in_range(b0 % 4 * 16);
        assert(b64_range(61u8));
        assert forall|i: int| 0 <= i < b64_encode(s).len() implies b64_range(
            #[trigger] b64_encode(s)[i],
        ) by {
            assert(i == 0 || i == 1 || i == 2 || i == 3);
        }
    } else if s.len() == 2 {
        let b0 = s[0] as int;
        let b1 = s[1] as int;
        lemma_b64_char_in_range(b0 / 4);
        lemma_b64_char_in_range(b0 % 4 * 16 + b1 / 16);
        lemma_b64_char_in_range(b1 % 16 * 4);
        assert forall|i: int| 0 <= i < b64_encode(s).len() implies b64_range(
            #[trigger] b64_encode(s)[i],
        ) by {
            assert(i == 0 || i == 1 || i == 2 || i == 3);
        }
    } else {
        let b0 = s[0] as int;
        let b1 = s[1] as int;
        let b2 = s[2] as int;
        lemma_b64_char_in_range(b0 / 4);
        lemma_b64_char_in_range(b0 % 4 * 16 + b1 / 16);
        lemma_b64_char_in_range(b1 % 16 * 4 + b2 / 64);
        lemma_b64_char_in_range(b2 % 64);
        lemma_b64_encode_in_range(s.skip(3));
        let head = seq![
            b64_char(b0 / 4),
            b64_char(b0 % 4 * 16 + b1 / 16),
            b64_char(b1 % 16 * 4 + b2 / 64),
            b64_char(b2 % 64),
        ];
        let tail = b64_encode(s.skip(3));
        assert(b64_encode(s) == head + tail);
        assert forall|i: int| 0 <= i < b64_encode(s).len() implies b64_range(
            #[trigger] b64_encode(s)[i],
        ) by {
            if i < 4 {
                assert(b64_encode(s)[i] == head[i]);
                assert(i == 0 || i == 1 || i == 2 || i == 3);
            } else {
                assert(b64_encode(s)[i] == tail[i - 4]);
            }
        }
    }
}

/// Length of the prefix the noise trim keeps: everything before the first
/// byte outside the `+` .. `z` range.
pub open spec fn trim_len(s: Seq<u8>) -> int
    decreases s.len(),
{
    if s.len() == 0 {
        0
    } else if !b64_range(s[0]) {
        0
    } else {
        1 + trim_len(s.skip(1))
    }
}

/// The payload after the decoder's best-effort noise trim: the prefix before
/// the first byte outside the `+` .. `z` range.
pub open spec fn trimmed(s: Seq<u8>) -> Seq<u8> {
    s.take(trim_len(s))
}

/// The kept prefix is exactly the run of in-range bytes at the front.
pub proof fn lemma_trim_len_at(s: Seq<u8>, n: int)
    requires
        0 <= n <= s.len(),
        forall|k: int| 0 <= k < n ==> b64_range(s[k]),
        n < s.len() ==> !b64_range(s[n]),
    ensures
        trim_len(s) == n,
    decreases n,
{
    if n == 0 {
    } else {
        assert(b64_range(s[0]));
        lemma_trim_len_at(s.skip(1), n - 1);
    }
}

/// A payload made of in-range bytes alone passes the noise trim unchanged.
pub proof fn lemma_trim_all_in_range(s: Seq<u8>)
    requires
        forall|k: int| 0 <= k < s.len() ==> b64_range(s[k]),
    ensures
        trimmed(s) == s,
{
    lemma_trim_len_at(s, s.len() as int);
    assert(s.take(s.len() as int) =~= s);
}

/// Trailing bytes that begin outside the `+` .. `z` range are trimmed away
/// entirely, leaving the in-range payload before them.
pub proof fn lemma_trim_drops_noise(payload: Seq<u8>, noise: Seq<u8>)
    requires
        forall|k: int| 0 <= k < payload.len() ==> b64_range(payload[k]),
        noise.len() > 0,
        !b64_range(noise[0]),
    ensures
        trimmed(payload + noise) == payload,
{
    let s = payload + noise;
    assert forall|k: int| 0 <= k < payload.len() implies b64_range(s[k]) by {
        assert(s[k] == payload[k]);
    }
    assert(s[payload.len() as int] == noise[0]);
    lemma_trim_len_at(s, payload.len() as int);
    assert(s.take(payload.len() as int) =~= payload);
}

/// Keep the run of bytes in the `+` .. `z` range at the front of the
/// payload, dropping everything from the first out-of-range byte on.
pub(crate) fn trim_noise(payload: &[u8]) -> (r: Vec<u8>)
    ensures
        r@ == trimmed(payload@),
{
    let n = payload.len();
    let mut out: Vec<u8> = Vec::new();
    let mut i: usize = 0;
    let mut stopped: bool = false;
    while i < n && !stopped
        invariant
            n == payload@.len(),
            0 <= i <= n,
            out@ == payload@.take(i as int),
            forall|k: int| 0 <= k < i ==> b64_range(payload@[k]),
            stopped ==> i < n && !b64_range(payload@[i as int]),
        decreases n - i + (if stopped { 0int } else { 1int }),
    {
        let b = *vstd::slice::slice_index_get(payload, i);
        if b < 43 || b > 122 {
            stopped = true;
        } else {
            out.push(b);
            proof {
                assert(out@ =~= payload@.take(i + 1));
            }
            i = i + 1;
        }
    }
    proof {
        lemma_trim_len_at(payload@, i as int);
    }
    out
}

} // verus!
