//! Hashes in messages.

use vstd::prelude::*;

use crate::primitives::H256;

verus! {

/// The hexadecimal digit, in lower case, for a number below sixteen.
pub open spec fn hex_digit(number: int) -> char {
    if number < 10 {
        ('0' as int + number) as char
    } else {
        ('a' as int + (number - 10)) as char
    }
}

/// Two hexadecimal digits for each byte.
pub open spec fn lower_hex(bytes: Seq<u8>) -> Seq<char> {
    Seq::new(
        2 * bytes.len(),
        |i: int|
            if i % 2 == 0 {
                hex_digit(bytes[i / 2] as int / 16)
            } else {
                hex_digit(bytes[i / 2] as int % 16)
            },
    )
}

/// A hash written out in full.
pub open spec fn full_text(hash: H256) -> Seq<char> {
    seq!['0', 'x'] + lower_hex(hash@)
}

/// The `Debug` form of `ethereum_types::H256` is `0x` and the hash in full, in lower case.
#[verifier::external_body]
pub(crate) fn debug_hash(hash: &H256) -> (text: String)
    ensures
        text@ == full_text(*hash),
{
    format!("{:?}", ethereum_types::H256(hash.0))
}

} // verus!
