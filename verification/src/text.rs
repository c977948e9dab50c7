//! Decoding of the names and comments that headers hold.

use vstd::prelude::*;
use vstd::utf8::{decode_utf8, valid_utf8};

verus! {

/// The text that the bytes stand for in code page 437, one character for
/// each byte. The table is that of the `codepage-437` crate's `CP437_CONTROL`
/// dialect and is not written out here.
pub uninterp spec fn cp437_text(bytes: Seq<u8>) -> Seq<char>;

/// The text that std's lossy UTF-8 decoder gives for bytes that are not
/// valid UTF-8: each invalid sequence becomes U+FFFD.
pub uninterp spec fn utf8_lossy_text(bytes: Seq<u8>) -> Seq<char>;

/// The text of a header field: UTF-8 where the header's flag says so, with
/// invalid sequences replaced, and code page 437 otherwise.
pub open spec fn spec_decode_text(bytes: Seq<u8>, is_utf8: bool) -> Seq<char> {
    if !is_utf8 {
        cp437_text(bytes)
    } else if valid_utf8(bytes) {
        decode_utf8(bytes)
    } else {
        utf8_lossy_text(bytes)
    }
}

/// Decodes code page 437.
///
/// Calls `borrow_from_cp437` of the `codepage-437` crate with its
/// `CP437_CONTROL` dialect. The contract only names the result.
#[verifier::external_body]
pub(crate) fn cp437_to_string(bytes: &[u8]) -> (text: String)
    ensures
        text@ == cp437_text(bytes@),
{
    codepage_437::BorrowFromCp437::borrow_from_cp437(bytes, &codepage_437::CP437_CONTROL)
}

/// Decodes UTF-8, replacing what is invalid.
///
/// Calls `String::from_utf8_lossy`. The contract claims that valid UTF-8 is
/// decoded as it stands, and names the result for all other input.
#[verifier::external_body]
pub(crate) fn utf8_lossy_to_string(bytes: &[u8]) -> (text: String)
    ensures
        text@ == (if valid_utf8(bytes@) {
            decode_utf8(bytes@)
        } else {
            utf8_lossy_text(bytes@)
        }),
{
    String::from_utf8_lossy(bytes).into_owned()
}

/// Decodes a name or a comment as the header's UTF-8 flag directs.
pub fn decode_text(bytes: &[u8], is_utf8: bool) -> (text: String)
    ensures
        text@ == spec_decode_text(bytes@, is_utf8),
{
    if is_utf8 {
        utf8_lossy_to_string(bytes)
    } else {
        cp437_to_string(bytes)
    }
}

} // verus!
