//! The pieces of the standard library's text handling that this crate relies
//! on without proof.

use vstd::prelude::*;
use vstd::utf8::{decode_utf8, valid_utf8};

verus! {

/// The uppercase mapping of `c`: the characters that `char::to_uppercase`
/// yields for it.
pub uninterp spec fn uppercase_of(c: char) -> Seq<char>;

/// The text that `String::from_utf8_lossy` makes of `bytes`, with each invalid
/// sequence replaced by U+FFFD.
pub uninterp spec fn utf8_lossy(bytes: Seq<u8>) -> Seq<char>;

/// `String::push` appends one character. Not proved: taken from the standard
/// library's documentation.
pub assume_specification[ String::push ](s: &mut String, c: char)
    ensures
        final(s)@ == old(s)@.push(c),
;

/// Calls `char::to_uppercase` and collects what it yields. Not proved: the
/// contract only names the result, which depends on `c` alone.
#[verifier::external_body]
pub(crate) fn uppercase(c: char) -> (upper: String)
    ensures
        upper@ == uppercase_of(c),
{
    c.to_uppercase().collect()
}

/// Calls `String::from_utf8_lossy`. Not proved: the contract names the result,
/// and says that bytes which already are UTF-8 decode to the text they encode.
#[verifier::external_body]
pub(crate) fn decode_lossy(bytes: &[u8]) -> (text: String)
    ensures
        text@ == utf8_lossy(bytes@),
        valid_utf8(bytes@) ==> text@ == decode_utf8(bytes@),
{
    String::from_utf8_lossy(bytes).into_owned()
}

} // verus!
