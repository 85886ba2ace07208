use crate::number::same_letters;
use vstd::prelude::*;
use vstd::utf8::is_ascii_chars;

verus! {

/// Whether two texts are the same once case is set aside, as Unicode case folding has it.
pub uninterp spec fn caseless_match(left: Seq<char>, right: Seq<char>) -> bool;

/// `unicase::eq`: compares two texts with case set aside. Its result is a function of the
/// two texts alone, named `caseless_match`; where both texts are ASCII the crate compares
/// them with the letters A to Z taken as a to z, and that is stated here.
#[verifier::external_body]
fn caseless_eq(left: &str, right: &str) -> (r: bool)
    ensures
        r == caseless_match(left@, right@),
        is_ascii_chars(left@) && is_ascii_chars(right@) ==> r == same_letters(left@, right@),
{
    unicase::eq(left, right)
}

/// Whether a key is the same as another once case is set aside: for ASCII keys the letters
/// A to Z are taken as a to z, for others Unicode case folding decides.
pub open spec fn key_matches(left: Seq<char>, right: Seq<char>) -> bool {
    if is_ascii_chars(left) && is_ascii_chars(right) {
        same_letters(left, right)
    } else {
        caseless_match(left, right)
    }
}

/// Compares two keys with case set aside.
pub fn keys_match(left: &str, right: &str) -> (r: bool)
    ensures
        r == key_matches(left@, right@),
{
    caseless_eq(left, right)
}

} // verus!
