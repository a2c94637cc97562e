//! Identifiers of pets: 128-bit numbers, drawn at random and written as
//! hyphenated lower-case hexadecimal.

use vstd::prelude::*;

verus! {

/// Sixteen to the power of `n`.
pub open spec fn sixteen_to(n: nat) -> nat
    decreases n,
{
    if n == 0 {
        1
    } else {
        16 * sixteen_to((n - 1) as nat)
    }
}

/// The lower-case hexadecimal digit for a value below sixteen.
pub open spec fn hex_char(v: int) -> char {
    seq!['0', '1', '2', '3', '4', '5', '6', '7', '8', '9', 'a', 'b', 'c', 'd', 'e', 'f'][v]
}

/// The lowest `n` hexadecimal digits of `v`, the highest of them first.
pub open spec fn hex_text(v: nat, n: nat) -> Seq<char>
    decreases n,
{
    if n == 0 {
        Seq::empty()
    } else {
        hex_text(v / 16, (n - 1) as nat).push(hex_char((v % 16) as int))
    }
}

/// An identifier as text: its thirty-two hexadecimal digits in groups of
/// eight, four, four, four and twelve, with a hyphen between two groups.
pub open spec fn id_text(id: u128) -> Seq<char> {
    hex_text(id as nat / sixteen_to(24), 8) + seq!['-'] + hex_text(id as nat / sixteen_to(20), 4)
        + seq!['-'] + hex_text(id as nat / sixteen_to(16), 4) + seq!['-'] + hex_text(
        id as nat / sixteen_to(12),
        4,
    ) + seq!['-'] + hex_text(id as nat, 12)
}

/// Whether an identifier has the form of one drawn at random: the first
/// digit of its third group is 4, and the first of its fourth group is 8,
/// 9, a or b.
pub open spec fn is_random_id(id: u128) -> bool {
    id & 0x0000_0000_0000_f000_c000_0000_0000_0000 == 0x0000_0000_0000_4000_8000_0000_0000_0000
}

/// `Uuid::new_v4` of the uuid crate, as a number: an identifier drawn at
/// random. Of its value only the form is claimed, which the crate fixes
/// whatever was drawn.
#[verifier::external_body]
pub(crate) fn fresh_id() -> (r: u128)
    ensures
        is_random_id(r),
{
    uuid::Uuid::new_v4().as_u128()
}

/// `Uuid::to_string` of the uuid crate, on the identifier with this number:
/// the hyphenated lower-case text, thirty-six characters long.
#[verifier::external_body]
pub(crate) fn id_string(id: u128) -> (r: String)
    ensures
        r@ == id_text(id),
{
    uuid::Uuid::from_u128(id).to_string()
}

} // verus!
