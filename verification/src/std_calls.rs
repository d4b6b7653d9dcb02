//! Calls into std for which vstd gives no specification.

use vstd::prelude::*;
use vstd::utf8::*;

verus! {

/// What `String::from_utf8_lossy` makes of a byte sequence: invalid UTF-8 sequences are
/// replaced by U+FFFD.
pub uninterp spec fn utf8_lossy(bytes: Seq<u8>) -> Seq<char>;

/// Builds a boxed byte slice holding a copy of `bytes`
/// (`<Box<[u8]> as From<&[u8]>>::from`): the box holds the same bytes, in the same order.
#[verifier::external_body]
pub(crate) fn boxed_bytes(bytes: &[u8]) -> (res: Box<[u8]>)
    ensures
        res@ == bytes@,
{
    Box::from(bytes)
}

/// Decodes `bytes` with `String::from_utf8_lossy` and takes the result as an owned `String`.
/// The result is the name `utf8_lossy` applied to the bytes; std documents that valid UTF-8
/// comes back unchanged, which is stated here as the decoding of the bytes. What the
/// replacement of invalid sequences yields is left to the name.
#[verifier::external_body]
pub(crate) fn lossy_string(bytes: &[u8]) -> (res: String)
    ensures
        res@ == utf8_lossy(bytes@),
        valid_utf8(bytes@) ==> res@ == decode_utf8(bytes@),
{
    String::from_utf8_lossy(bytes).into_owned()
}

} // verus!
