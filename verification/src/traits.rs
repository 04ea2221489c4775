//! Operations shared by the protocol probes.

use std::borrow::Cow;
use vstd::prelude::*;
use vstd::slice::slice_subrange;
use vstd::string::StringSliceAdditionalSpecFns;
use vstd::utf8::{decode_utf8, valid_utf8};

verus! {

/// The text that `String::from_utf8_lossy` makes of `bytes`: valid UTF-8
/// sequences decoded, every invalid one replaced by U+FFFD.
pub uninterp spec fn utf8_lossy(bytes: Seq<u8>) -> Seq<char>;

/// Calls `String::from_utf8_lossy`. Claimed: the text is `utf8_lossy` of
/// the bytes, a function of the bytes alone; std documents that valid
/// UTF-8 comes back unchanged and borrowed, without a new allocation, and
/// that invalid input, whose sequences are replaced by U+FFFD, comes back
/// owned; every byte ends up in some character, so non-empty input gives
/// non-empty text. Which characters invalid input turns into is left
/// unsaid.
#[verifier::external_body]
fn lossy_text<'a>(bytes: &'a [u8]) -> (text: Cow<'a, str>)
    ensures
        text@ == utf8_lossy(bytes@),
        valid_utf8(bytes@) ==> text@ == decode_utf8(bytes@),
        (text matches Cow::Borrowed(s)) <==> valid_utf8(bytes@),
        text matches Cow::Borrowed(s) ==> s.spec_bytes() == bytes@,
        bytes@.len() > 0 ==> text@.len() > 0,
{
    String::from_utf8_lossy(bytes)
}

/// The text a `Cow<str>` holds, borrowed from it.
pub fn cow_as_str<'b, 'a>(text: &'b Cow<'a, str>) -> (s: &'b str)
    ensures
        s@ == text@,
{
    match text {
        Cow::Borrowed(b) => b,
        Cow::Owned(o) => o.as_str(),
    }
}

/// The text a `Cow<str>` holds, as an owned `String`.
pub fn cow_into_string(text: Cow<'_, str>) -> (s: String)
    ensures
        s@ == text@,
{
    match text {
        Cow::Borrowed(b) => b.to_owned(),
        Cow::Owned(o) => o,
    }
}

/// The value that carries the shared protocol operations.
pub struct ProtocolOperation;

/// Operations every protocol probe uses on what a server sent.
pub trait ProtocolOperations {
    /// The first `read` bytes of `buffer` as text, invalid UTF-8 replaced;
    /// borrowed from the buffer exactly when those bytes are valid UTF-8.
    fn get_converted_response_to_utf8(buffer: &[u8], read: usize) -> (text: Cow<str>)
        requires
            read <= buffer@.len(),
        ensures
            text@ == utf8_lossy(buffer@.take(read as int)),
            valid_utf8(buffer@.take(read as int)) ==> text@ == decode_utf8(
                buffer@.take(read as int),
            ),
            (text matches Cow::Borrowed(s)) <==> valid_utf8(buffer@.take(read as int)),
            text matches Cow::Borrowed(s) ==> s.spec_bytes() == buffer@.take(read as int),
            read > 0 ==> text@.len() > 0,
    {
        let received = slice_subrange(buffer, 0, read);
        assert(received@ == buffer@.take(read as int));
        lossy_text(received)
    }
}

impl ProtocolOperations for ProtocolOperation {

}

} // verus!
