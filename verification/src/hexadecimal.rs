//! Hexadecimal dumps of bytes, for logs. The text is made by the `hex`
//! crate.

use vstd::prelude::*;

verus! {

/// The character for a number below sixteen: a digit, or a lower-case
/// letter from `a` to `f`.
pub open spec fn hex_digit(n: int) -> char {
    seq!['0', '1', '2', '3', '4', '5', '6', '7', '8', '9', 'a', 'b', 'c', 'd', 'e', 'f'][n]
}

/// Two characters for each byte, the one for its upper half first.
pub open spec fn hex_of(bytes: Seq<u8>) -> Seq<char> {
    Seq::new(
        2 * bytes.len(),
        |i: int|
            if i % 2 == 0 {
                hex_digit(bytes[i / 2] as int / 16)
            } else {
                hex_digit(bytes[i / 2] as int % 16)
            },
    )
}

/// Calls `hex::encode`, which writes each byte as two lower-case
/// hexadecimal characters, the upper half of the byte first.
#[verifier::external_body]
pub(crate) fn hex_encode(bytes: &[u8]) -> (text: String)
    ensures
        text@ == hex_of(bytes@),
{
    hex::encode(bytes)
}

} // verus!
