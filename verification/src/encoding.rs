//! Decoding bytes to text: UTF-8, GB18030 (common in Chinese bank exports),
//! and UTF-8 with replacement characters.
use vstd::prelude::*;

verus! {

/// std `str::from_utf8`: the text when `raw` is valid UTF-8.
#[verifier::external_body]
pub(crate) fn utf8_text(raw: &[u8]) -> (r: Option<String>)
    ensures
        match r {
            Some(t) => vstd::utf8::valid_utf8(raw@) && t@ == vstd::utf8::decode_utf8(raw@),
            None => !vstd::utf8::valid_utf8(raw@),
        },
{
    match std::str::from_utf8(raw) {
        Ok(t) => Some(t.to_string()),
        Err(_) => None,
    }
}

/// The text encoding_rs's `GB18030.decode` yields for `bytes` (it first
/// sniffs a byte-order mark), and whether it met malformed input.
pub uninterp spec fn gb18030_decode(bytes: Seq<u8>) -> (Seq<char>, bool);

/// encoding_rs `Encoding::decode` with `GB18030`: names its result.
#[verifier::external_body]
pub(crate) fn decode_gb18030(raw: &[u8]) -> (r: (String, bool))
    ensures
        (r.0@, r.1) == gb18030_decode(raw@),
{
    let (text, _, had_errors) = encoding_rs::GB18030.decode(raw);
    (text.into_owned(), had_errors)
}

/// The text std's `String::from_utf8_lossy` yields for `bytes`.
pub uninterp spec fn utf8_lossy(bytes: Seq<u8>) -> Seq<char>;

/// std `String::from_utf8_lossy`: names its result.
#[verifier::external_body]
pub(crate) fn lossy_text(raw: &[u8]) -> (r: String)
    ensures
        r@ == utf8_lossy(raw@),
{
    String::from_utf8_lossy(raw).into_owned()
}

} // verus!
