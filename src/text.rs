//! Decoding of UTF-16LE text.
use vstd::prelude::*;

verus! {

/// The text that `encoding_rs` decodes from the UTF-16LE bytes `b`
/// (malformed sequences become U+FFFD).
pub uninterp spec fn utf16le_text(b: Seq<u8>) -> Seq<char>;

/// Relies on `encoding_rs::Encoding::decode` called on `UTF_16LE`: the text
/// depends on the bytes alone (a leading byte-order mark picks the encoding
/// it names), and empty input decodes to the empty string.
#[verifier::external_body]
pub(crate) fn parse_utf16_string(data: &[u8]) -> (r: String)
    ensures
        r@ == utf16le_text(data@),
        data@.len() == 0 ==> r@.len() == 0,
{
    let (s, _, _) = encoding_rs::UTF_16LE.decode(data);
    s.into_owned()
}

} // verus!
