//! Identifiers: random version 4 UUIDs, held as their 128-bit value.

use vstd::arithmetic::power2::pow2;
use vstd::prelude::*;

verus! {

/// The lower-case hexadecimal digit of `n`, for `n` from 0 to 15.
pub open spec fn hex_digit(n: int) -> char {
    seq!['0', '1', '2', '3', '4', '5', '6', '7', '8', '9', 'a', 'b', 'c', 'd', 'e', 'f'][n]
}

/// The `k`-th of the 32 hexadecimal digits of `value`, the most significant first.
pub open spec fn nibble(value: u128, k: int) -> int {
    (value as int / pow2((4 * (31 - k)) as nat) as int) % 16
}

/// Which of the 32 digits stands at place `i` of the hyphenated text.
pub open spec fn digit_place(i: int) -> int {
    i - (if i > 8 { 1int } else { 0int }) - (if i > 13 { 1int } else { 0int }) - (if i > 18 {
        1int
    } else {
        0int
    }) - (if i > 23 { 1int } else { 0int })
}

/// The hyphenated text of the UUID with the given 128-bit value: its 32
/// lower-case hexadecimal digits, most significant first, in groups of 8, 4, 4,
/// 4 and 12 joined by hyphens.
pub open spec fn uuid_text(value: u128) -> Seq<char> {
    Seq::new(
        36,
        |i: int|
            if i == 8 || i == 13 || i == 18 || i == 23 {
                '-'
            } else {
                hex_digit(nibble(value, digit_place(i)))
            },
    )
}

/// An opaque, globally unique identifier, used as the join key of all indexes.
#[derive(Clone, Copy, Debug, PartialEq, Eq, Hash, Structural)]
pub struct Identifier {
    pub value: u128,
}

impl Identifier {
    /// A freshly drawn random identifier.
    pub fn fresh() -> (r: Identifier) {
        Identifier::from_value(random_uuid_value())
    }

    /// The identifier whose UUID has the given 128-bit value.
    pub fn from_value(value: u128) -> (r: Identifier)
        ensures
            r.value == value,
    {
        Identifier { value }
    }

    /// The hyphenated text of the identifier's UUID.
    pub fn to_string(&self) -> (r: String)
        ensures
            r@ == uuid_text(self.value),
            r@.len() == 36,
    {
        uuid_hyphenated(self.value)
    }
}

/// Relies on uuid's `Uuid::new_v4` and `Uuid::as_u128`: a random value, of which
/// nothing is promised.
#[verifier::external_body]
fn random_uuid_value() -> (r: u128) {
    uuid::Uuid::new_v4().as_u128()
}

/// Relies on uuid's `Uuid::from_u128` and its `Display`: the hyphenated form,
/// 32 hexadecimal digits in five groups joined by four hyphens.
#[verifier::external_body]
fn uuid_hyphenated(value: u128) -> (r: String)
    ensures
        r@ == uuid_text(value),
        r@.len() == 36,
{
    uuid::Uuid::from_u128(value).to_string()
}

} // verus!
