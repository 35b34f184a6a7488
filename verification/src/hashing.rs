//! SHA-256 digests rendered as lowercase hexadecimal, the basis of every
//! deterministic record identifier.
use sha2::Digest;
use vstd::prelude::*;

use crate::text::{concat, concat3, decimal, decimal_string};

verus! {

/// The SHA-256 digest of `data`.
pub uninterp spec fn sha256(data: Seq<u8>) -> Seq<u8>;

pub open spec fn hex_digit(d: u8) -> char {
    if d < 10 {
        ((d + 48) as u8) as char
    } else {
        ((d + 87) as u8) as char
    }
}

/// Lowercase hexadecimal rendering: two digits per byte, high nibble first.
pub open spec fn hex_spec(b: Seq<u8>) -> Seq<char>
    decreases b.len(),
{
    if b.len() == 0 {
        Seq::empty()
    } else {
        hex_spec(b.drop_last()).push(hex_digit(b.last() / 16)).push(hex_digit(b.last() % 16))
    }
}

/// The UTF-8 bytes of a text.
pub open spec fn utf8(s: Seq<char>) -> Seq<u8> {
    vstd::utf8::encode_utf8(s)
}

/// sha2 `Sha256::digest`: the digest of `data`; it is 32 bytes long.
#[verifier::external_body]
fn sha256_digest(data: &[u8]) -> (out: Vec<u8>)
    ensures
        out@ == sha256(data@),
        out@.len() == 32,
{
    sha2::Sha256::digest(data).to_vec()
}

/// hex `encode`: lowercase hexadecimal, two digits per byte.
#[verifier::external_body]
fn hex_encode(bytes: &[u8]) -> (out: String)
    ensures
        out@ == hex_spec(bytes@),
{
    hex::encode(bytes)
}

/// Hex rendering of the first `n` bytes of the SHA-256 digest of the UTF-8
/// bytes of `text`.
pub fn digest_hex_prefix(text: &str, n: usize) -> (out: String)
    requires
        n <= 32,
    ensures
        out@ == hex_spec(sha256(utf8(text@)).take(n as int)),
{
    let digest = sha256_digest(text.as_bytes());
    let mut head: Vec<u8> = Vec::new();
    let mut i: usize = 0;
    while i < n
        invariant
            i <= n <= 32,
            digest@.len() == 32,
            head@ == digest@.take(i as int),
        decreases n - i,
    {
        head.push(digest[i]);
        assert(digest@.take(i + 1) =~= digest@.take(i as int).push(digest@[i as int]));
        i = i + 1;
    }
    hex_encode(head.as_slice())
}

/// Identifier `"<prefix>-<first 2n hex digits of SHA-256(key)>"`.
pub fn prefixed_digest_id(prefix: &str, key: &str, n: usize) -> (out: String)
    requires
        n <= 32,
    ensures
        out@ == prefix@ + "-"@ + hex_spec(sha256(utf8(key@)).take(n as int)),
{
    let hash = digest_hex_prefix(key, n);
    concat3(prefix, "-", hash.as_str())
}

} // verus!
