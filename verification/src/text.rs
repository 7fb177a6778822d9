//! Text as bytes and bytes as text.

use vstd::prelude::*;
use vstd::utf8::decode_utf8;
use vstd::utf8::encode_utf8;
use vstd::utf8::is_ascii_chars;
use vstd::utf8::is_ascii_chars_encode_utf8;
use vstd::utf8::valid_utf8;
use crate::bytes::copy_bytes;

verus! {

/// `String::from_utf8`: the text that the bytes encode, which there is
/// exactly when the bytes are valid UTF-8.
#[verifier::external_body]
pub(crate) fn text_from_utf8(bytes: Vec<u8>) -> (text: Option<String>)
    ensures
        text.is_some() == valid_utf8(bytes@),
        text matches Some(s) ==> s@ == decode_utf8(bytes@),
{
    String::from_utf8(bytes).ok()
}

/// The UTF-8 bytes of a text.
pub fn text_bytes(text: &str) -> (bytes: Vec<u8>)
    ensures
        bytes@ == encode_utf8(text@),
{
    copy_bytes(text.as_bytes())
}

/// The bytes of a text that holds ASCII characters only, one byte for each
/// character; nothing for any other text.
pub fn ascii_bytes(text: &str) -> (bytes: Option<&[u8]>)
    ensures
        match bytes {
            Some(b) => is_ascii_chars(text@) && b@.len() == text@.len() && forall|i: int|
                0 <= i < b@.len() ==> #[trigger] b@[i] == text@[i] as u8,
            None => !is_ascii_chars(text@),
        },
{
    if text.is_ascii() {
        let b = text.as_bytes();
        proof {
            is_ascii_chars_encode_utf8(text@);
            assert forall|i: int| 0 <= i < b@.len() implies #[trigger] b@[i] == text@[i] as u8 by {
                assert(text@[i] as u8 == encode_utf8(text@)[i]);
            }
        }
        Some(b)
    } else {
        None
    }
}

/// A letter or a digit of ASCII.
pub open spec fn is_alphanumeric(c: char) -> bool {
    ('0' <= c <= '9') || ('A' <= c <= 'Z') || ('a' <= c <= 'z')
}

} // verus!
