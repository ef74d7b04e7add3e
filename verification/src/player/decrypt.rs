//! Decrypting the `tobeparsed` payload of episode-source responses: base64,
//! then AES-256 in counter mode under a key derived from the shared secret,
//! then finding the JSON document in the plaintext.

use aes::cipher::{KeyIvInit, StreamCipher};
use base64::Engine;
use sha2::Digest;
use vstd::prelude::*;
use vstd::string::StringSliceAdditionalSpecFns;
use vstd::utf8::{valid_utf8, decode_utf8};
use crate::text;

verus! {

/// The secret the payload key is derived from.
pub const PAYLOAD_SECRET: &'static str = "SimtVuagFbGR2K7P";

// ── Outside functions ────────────────────────────────────────────────────────

/// What the standard base64 engine (padding required, canonical trailing
/// bits) decodes from a text; `None` when it refuses the text.
pub uninterp spec fn base64_standard_decode(s: Seq<u8>) -> Option<Seq<u8>>;

/// The SHA-256 digest of a byte string.
pub uninterp spec fn sha256(data: Seq<u8>) -> Seq<u8>;

/// AES-256 in counter mode with a 32-bit big-endian block counter, applied
/// to `data` with the given key and initial counter block.
pub uninterp spec fn aes256_ctr32be(key: Seq<u8>, nonce: Seq<u8>, data: Seq<u8>) -> Seq<u8>;

/// How `serde_json` reads a text: not a JSON document, an array, or another
/// JSON value.
#[derive(PartialEq, Eq, Structural, Clone, Copy, Debug)]
pub enum JsonShape {
    Invalid,
    Array,
    Other,
}

/// What `serde_json::from_str` makes of a text.
pub uninterp spec fn json_shape(s: Seq<char>) -> JsonShape;

/// Calls `base64::engine::general_purpose::STANDARD.decode`. Claims that the
/// result is a function of the text's bytes, and (as the crate's decoder
/// sizes its buffer) that it is at most three bytes per started group of
/// four input bytes.
#[verifier::external_body]
fn base64_decode(s: &str) -> (r: Option<Vec<u8>>)
    ensures
        r matches Some(v) ==> base64_standard_decode(s.spec_bytes()) == Some(v@) && v@.len() <= (
        s.spec_bytes().len() / 4 + 1) * 3,
        r is None ==> base64_standard_decode(s.spec_bytes()) is None,
{
    base64::engine::general_purpose::STANDARD.decode(s).ok()
}

/// Calls `sha2::Sha256::digest`. Claims that the 32-byte digest is a
/// function of the input.
#[verifier::external_body]
fn sha256_digest(data: &[u8]) -> (r: Vec<u8>)
    ensures
        r@ == sha256(data@),
        r@.len() == 32,
{
    sha2::Sha256::digest(data).to_vec()
}

/// Calls `ctr::Ctr32BE::<aes::Aes256>::new` and `apply_keystream` on a copy
/// of `data`. Claims that the output is a function of key, initial counter
/// block and input, as long as the input. The cipher panics when the input
/// needs more than `u32::MAX` keystream blocks, so such input is excluded.
#[verifier::external_body]
fn aes256_ctr32be_apply(key: &[u8], nonce: &[u8], data: &[u8]) -> (r: Vec<u8>)
    requires
        key@.len() == 32,
        nonce@.len() == 16,
        data@.len() <= 0xffff_ffff * 16,
    ensures
        r@ == aes256_ctr32be(key@, nonce@, data@),
        r@.len() == data@.len(),
{
    let mut cipher = ctr::Ctr32BE::<aes::Aes256>::new(key.into(), nonce.into());
    let mut out = data.to_vec();
    cipher.apply_keystream(&mut out);
    out
}

/// Calls `std::str::from_utf8`: the bytes as text when they are valid UTF-8.
#[verifier::external_body]
fn utf8_text(b: &[u8]) -> (r: Option<&str>)
    ensures
        r is Some == valid_utf8(b@),
        r matches Some(s) ==> s.spec_bytes() == b@ && s@ == decode_utf8(b@),
{
    std::str::from_utf8(b).ok()
}

/// Calls `serde_json::from_str::<serde_json::Value>` and reports the shape
/// of the outcome.
#[verifier::external_body]
fn parse_shape(s: &str) -> (r: JsonShape)
    ensures
        r == json_shape(s@),
{
    match serde_json::from_str::<serde_json::Value>(s) {
        Err(_) => JsonShape::Invalid,
        Ok(serde_json::Value::Array(_)) => JsonShape::Array,
        Ok(serde_json::Value::Null) => JsonShape::Other,
        Ok(serde_json::Value::Bool(_)) => JsonShape::Other,
        Ok(serde_json::Value::Number(_)) => JsonShape::Other,
        Ok(serde_json::Value::String(_)) => JsonShape::Other,
        Ok(serde_json::Value::Object(_)) => JsonShape::Other,
    }
}

// ── Finding the JSON document ────────────────────────────────────────────────

/// A byte a JSON document can end with: `}`, `]`, `"` or a digit.
pub open spec fn closing_byte(b: u8) -> bool {
    b == 0x7d || b == 0x5d || b == 0x22 || (0x30 <= b && b <= 0x39)
}

/// The bytes as text with surrounding whitespace removed, when they are
/// valid UTF-8.
pub open spec fn trimmed_text(b: Seq<u8>) -> Option<Seq<char>> {
    if valid_utf8(b) {
        Some(text::trim(decode_utf8(b)))
    } else {
        None
    }
}

/// The whole plaintext, trimmed, when it is a JSON document.
pub open spec fn whole_document(p: Seq<u8>) -> Option<Seq<char>> {
    match trimmed_text(p) {
        Some(t) => if json_shape(t) != JsonShape::Invalid {
            Some(t)
        } else {
            None
        },
        None => None,
    }
}

/// The first `i` bytes, trimmed, when they end in a closing byte and form a
/// non-empty JSON document.
pub open spec fn prefix_document(p: Seq<u8>, i: int) -> Option<Seq<char>> {
    if 1 <= i <= p.len() && closing_byte(p[i - 1]) {
        match trimmed_text(p.take(i)) {
            Some(t) => if t.len() > 0 && json_shape(t) != JsonShape::Invalid {
                Some(t)
            } else {
                None
            },
            None => None,
        }
    } else {
        None
    }
}

/// The longest prefix of at most `i` bytes that is a document.
pub open spec fn longest_prefix_document(p: Seq<u8>, i: int) -> Option<Seq<char>>
    decreases i,
{
    if i <= 0 {
        None
    } else if prefix_document(p, i) is Some {
        prefix_document(p, i)
    } else {
        longest_prefix_document(p, i - 1)
    }
}

/// The index of the first `[` at or after `i`.
pub open spec fn first_bracket_from(p: Seq<u8>, i: int) -> Option<int>
    decreases p.len() - i,
{
    if i < 0 || i >= p.len() {
        None
    } else if p[i] == 0x5b {
        Some(i)
    } else {
        first_bracket_from(p, i + 1)
    }
}

/// The bytes from `start` up to `end`, trimmed, when they form a JSON array.
pub open spec fn array_document(p: Seq<u8>, start: int, end: int) -> Option<Seq<char>> {
    match trimmed_text(p.subrange(start, end)) {
        Some(t) => if json_shape(t) == JsonShape::Array {
            Some(t)
        } else {
            None
        },
        None => None,
    }
}

/// The longest array starting at `start` and ending at most at `end`, at
/// least ten bytes long.
pub open spec fn longest_array_document(p: Seq<u8>, start: int, end: int) -> Option<Seq<char>>
    decreases end - start,
{
    if end - start < 10 {
        None
    } else if array_document(p, start, end) is Some {
        array_document(p, start, end)
    } else {
        longest_array_document(p, start, end - 1)
    }
}

/// The JSON document in a decrypted payload, which may carry trailing
/// bytes: the whole plaintext if it is one; else the longest prefix ending
/// in a closing byte that is one; else the longest array (of at least ten
/// bytes) from the first `[`.
pub open spec fn decrypted_document(p: Seq<u8>) -> Option<Seq<char>> {
    match whole_document(p) {
        Some(t) => Some(t),
        None => match longest_prefix_document(p, p.len() as int) {
            Some(t) => Some(t),
            None => match first_bracket_from(p, 0) {
                Some(s) => longest_array_document(p, s, p.len() as int),
                None => None,
            },
        },
    }
}

fn trimmed_text_exec(b: &[u8]) -> (r: Option<String>)
    ensures
        r matches Some(s) ==> trimmed_text(b@) == Some(s@),
        r is None ==> trimmed_text(b@) is None,
{
    match utf8_text(b) {
        Some(s) => Some(text::from_chars(&text::trim_chars(&text::to_chars(s)))),
        None => None,
    }
}

fn prefix_bytes(p: &[u8], start: usize, end: usize) -> (r: Vec<u8>)
    requires
        start <= end <= p@.len(),
    ensures
        r@ == p@.subrange(start as int, end as int),
{
    let mut out: Vec<u8> = Vec::new();
    let mut i = start;
    while i < end
        invariant
            start <= i <= end <= p@.len(),
            out@ == p@.subrange(start as int, i as int),
        decreases end - i,
    {
        out.push(p[i]);
        i += 1;
        assert(out@ =~= p@.subrange(start as int, i as int));
    }
    out
}

/// The JSON document in a decrypted payload, as text.
pub fn extract_json_from_decrypted(plaintext: &[u8]) -> (r: Option<String>)
    ensures
        r matches Some(s) ==> decrypted_document(plaintext@) == Some(s@),
        r is None ==> decrypted_document(plaintext@) is None,
{
    let ghost p = plaintext@;
    // The whole plaintext.
    match trimmed_text_exec(plaintext) {
        Some(t) => {
            if parse_shape(t.as_str()) != JsonShape::Invalid {
                return Some(t);
            }
        },
        None => {},
    }
    // Prefixes ending in a closing byte, longest first.
    let n = plaintext.len();
    let mut i = n;
    while i > 0
        invariant
            i <= n == p.len(),
            p == plaintext@,
            whole_document(p) is None,
            longest_prefix_document(p, n as int) == longest_prefix_document(p, i as int),
        decreases i,
    {
        let last = plaintext[i - 1];
        if last == 0x7d || last == 0x5d || last == 0x22 || (0x30 <= last && last <= 0x39) {
            let slice = prefix_bytes(plaintext, 0, i);
            assert(slice@ =~= p.take(i as int));
            match trimmed_text_exec(&slice) {
                Some(t) => {
                    if !t.as_str().is_empty() && parse_shape(t.as_str()) != JsonShape::Invalid {
                        assert(prefix_document(p, i as int) == Some(t@));
                        return Some(t);
                    }
                },
                None => {},
            }
        }
        assert(prefix_document(p, i as int) is None);
        i -= 1;
    }
    // An array from the first `[`, longest first.
    let mut s: usize = 0;
    while s < n && plaintext[s] != 0x5b
        invariant
            s <= n == p.len(),
            p == plaintext@,
            whole_document(p) is None,
            longest_prefix_document(p, p.len() as int) is None,
            first_bracket_from(p, 0) == first_bracket_from(p, s as int),
        decreases n - s,
    {
        s += 1;
    }
    if s >= n {
        return None;
    }
    let mut end = n;
    while end - s >= 10
        invariant
            s < n == p.len(),
            s <= end <= n,
            p == plaintext@,
            whole_document(p) is None,
            longest_prefix_document(p, p.len() as int) is None,
            first_bracket_from(p, 0) == Some(s as int),
            longest_array_document(p, s as int, n as int) == longest_array_document(
                p,
                s as int,
                end as int,
            ),
        decreases end,
    {
        let slice = prefix_bytes(plaintext, s, end);
        match trimmed_text_exec(&slice) {
            Some(t) => {
                if parse_shape(t.as_str()) == JsonShape::Array {
                    return Some(t);
                }
            },
            None => {},
        }
        end -= 1;
    }
    None
}

// ── The payload ──────────────────────────────────────────────────────────────

/// The initial counter block: the twelve bytes that lead the payload, then
/// a counter of 2.
pub open spec fn payload_nonce(d: Seq<u8>) -> Seq<u8> {
    d.take(12) + seq![0u8, 0u8, 0u8, 2u8]
}

/// The decrypted bytes of an encoded payload: its base64 decoding, less the
/// twelve leading bytes, run through AES-256-CTR under the SHA-256 digest
/// of the secret. `None` when it does not decode or is shorter than twelve
/// bytes.
pub open spec fn payload_plaintext(encoded: Seq<u8>) -> Option<Seq<u8>> {
    match base64_standard_decode(encoded) {
        Some(d) => if d.len() < 12 {
            None
        } else {
            Some(aes256_ctr32be(sha256(PAYLOAD_SECRET.spec_bytes()), payload_nonce(d), d.skip(12)))
        },
        None => None,
    }
}

/// The JSON document, as text, that an encoded payload decrypts to.
pub fn decipher_tobeparsed(encoded: &str) -> (r: Option<String>)
    requires
        encoded.spec_bytes().len() <= 0xffff_ffff * 16,
    ensures
        r matches Some(s) ==> payload_plaintext(encoded.spec_bytes()) matches Some(p)
            && decrypted_document(p) == Some(s@),
        r is None ==> match payload_plaintext(encoded.spec_bytes()) {
            Some(p) => decrypted_document(p) is None,
            None => true,
        },
{
    let decoded = match base64_decode(encoded) {
        Some(d) => d,
        None => {
            return None;
        },
    };
    if decoded.len() < 12 {
        return None;
    }
    let key = sha256_digest(PAYLOAD_SECRET.as_bytes());
    let mut nonce = prefix_bytes(&decoded, 0, 12);
    nonce.push(0);
    nonce.push(0);
    nonce.push(0);
    nonce.push(2);
    assert(nonce@ =~= payload_nonce(decoded@));
    let ciphertext = prefix_bytes(&decoded, 12, decoded.len());
    assert(ciphertext@ =~= decoded@.skip(12));
    let plaintext = aes256_ctr32be_apply(&key, &nonce, &ciphertext);
    extract_json_from_decrypted(&plaintext)
}

} // verus!
