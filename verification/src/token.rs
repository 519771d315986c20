//! Sensor ids as text: the 128-bit token in the forms that `uuid` reads and
//! writes.

use crate::text::no_c0_controls;
use vstd::arithmetic::power::pow;
use vstd::prelude::*;

verus! {

/// `uuid::Error`, why a text writes no id.
#[verifier::external_type_specification]
#[verifier::external_body]
pub struct ExUuidError(uuid::Error);

/// The id that `text` writes in one of the forms `uuid` reads (hyphenated,
/// simple, braced, URN), or `None` where it writes none.
pub uninterp spec fn uuid_of_text(text: Seq<char>) -> Option<u128>;

/// The sixteen hexadecimal digits, lower case.
pub open spec fn hex_digits() -> Seq<char> {
    seq!['0', '1', '2', '3', '4', '5', '6', '7', '8', '9', 'a', 'b', 'c', 'd', 'e', 'f']
}

/// The `k`-th hexadecimal digit of `id`, counted from the most significant
/// (`k` from 0 to 31).
pub open spec fn nibble(id: u128, k: int) -> int {
    (id as int / pow(16, (31 - k) as nat)) % 16
}

/// Which hexadecimal digit stands at place `i` of the hyphenated form, for a
/// place that holds no hyphen.
pub open spec fn digit_index(i: int) -> int {
    if i < 8 {
        i
    } else if i < 13 {
        i - 1
    } else if i < 18 {
        i - 2
    } else if i < 23 {
        i - 3
    } else {
        i - 4
    }
}

/// The hyphenated form of an id: 32 lower-case hexadecimal digits, most
/// significant first, in groups of 8, 4, 4, 4 and 12.
pub open spec fn hyphenated(id: u128) -> Seq<char> {
    Seq::new(
        36,
        |i: int|
            if i == 8 || i == 13 || i == 18 || i == 23 {
                '-'
            } else {
                hex_digits()[nibble(id, digit_index(i))]
            },
    )
}

/// `Uuid::new_v4`, the id handed out as the integer of `Uuid::as_u128`: an id
/// drawn at random. Nothing is claimed of which.
#[verifier::external_body]
pub(crate) fn random_id() -> (id: u128) {
    uuid::Uuid::new_v4().as_u128()
}

/// `Uuid::parse_str`, the id handed out as the integer of `Uuid::as_u128`.
/// The result depends on the text alone.
#[verifier::external_body]
pub(crate) fn parse_uuid(text: &str) -> (r: Result<u128, uuid::Error>)
    ensures
        match r {
            Ok(id) => uuid_of_text(text@) == Some(id),
            Err(_) => uuid_of_text(text@) is None,
        },
{
    match uuid::Uuid::parse_str(text) {
        Ok(id) => Ok(id.as_u128()),
        Err(e) => Err(e),
    }
}

/// `Uuid::from_u128` and the `Display` of `Uuid::hyphenated`: the id's bytes,
/// most significant first, as lower-case hexadecimal digits with a hyphen after
/// the 8th, 12th, 16th and 20th digit.
#[verifier::external_body]
pub(crate) fn hyphenated_text(id: u128) -> (r: String)
    ensures
        r@ == hyphenated(id),
{
    uuid::Uuid::from_u128(id).hyphenated().to_string()
}

/// The hyphenated form holds hexadecimal digits and hyphens, so no control
/// character.
pub proof fn lemma_hyphenated_no_c0_controls(id: u128)
    ensures
        hyphenated(id).len() == 36,
        no_c0_controls(hyphenated(id)),
{
    let text = hyphenated(id);
    assert forall|i: int| 0 <= i < text.len() implies (#[trigger] text[i]) as u32 >= 0x20 by {
        if !(i == 8 || i == 13 || i == 18 || i == 23) {
            let d = nibble(id, digit_index(i));
            assert(0 <= d < 16);
            assert(text[i] == hex_digits()[d]);
        }
    }
}

} // verus!
