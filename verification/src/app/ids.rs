//! Session and interrupt ids.

use vstd::prelude::*;

verus! {

/// 16 to the power of `n`.
pub open spec fn pow16(n: nat) -> int
    decreases n,
{
    if n == 0 {
        1
    } else {
        16 * pow16((n - 1) as nat)
    }
}

/// A lower-case hexadecimal digit.
pub open spec fn hex_digit(d: int) -> char {
    if d < 10 {
        ('0' as int + d) as u32 as char
    } else {
        ('a' as int + (d - 10)) as u32 as char
    }
}

/// Hexadecimal digits `from` up to `to` of the 32 of an id, the most
/// significant first.
pub open spec fn hex_digits(id: u128, from: int, to: int) -> Seq<char> {
    Seq::new(
        (to - from) as nat,
        |i: int| hex_digit(id as int / pow16((31 - (from + i)) as nat) % 16),
    )
}

/// An id in its usual form, `8-4-4-4-12`.
pub open spec fn id_form(id: u128) -> Seq<char> {
    hex_digits(id, 0, 8) + "-"@ + hex_digits(id, 8, 12) + "-"@ + hex_digits(id, 12, 16) + "-"@
        + hex_digits(id, 16, 20) + "-"@ + hex_digits(id, 20, 32)
}

/// The text of an id by `uuid::Uuid::from_u128` and the `Display` of the result:
/// its 32 hexadecimal digits in lower case, the most significant first, with
/// hyphens behind the eighth, twelfth, sixteenth and twentieth.
#[verifier::external_body]
pub(crate) fn id_text(id: u128) -> (r: String)
    ensures
        r@ == id_form(id),
{
    uuid::Uuid::from_u128(id).to_string()
}

/// A random id by `uuid::Uuid::new_v4`: version 4 in the digit behind the second
/// hyphen, and the two variant bits behind the third. The other bits can be any.
#[verifier::external_body]
pub(crate) fn fresh_id() -> (r: u128)
    ensures
        r as int / pow16(19) % 16 == 4,
        8 <= r as int / pow16(15) % 16 < 12,
{
    uuid::Uuid::new_v4().as_u128()
}

} // verus!
