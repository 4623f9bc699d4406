//! Names for test objects that no earlier run has used.

use crate::text::{chars_of, string_from, string_of};
use vstd::prelude::*;
use vstd::string::*;

verus! {

/// A hexadecimal digit in lower case.
pub open spec fn is_hex_digit(c: char) -> bool {
    ('0' <= c && c <= '9') || ('a' <= c && c <= 'f')
}

/// The text of a universally unique identifier: thirty-two hexadecimal digits
/// in lower case, in groups set apart by hyphens.
pub open spec fn is_uuid_text(text: Seq<char>) -> bool {
    &&& text.len() == 36
    &&& forall|i: int|
        0 <= i < 36 ==> if i == 8 || i == 13 || i == 18 || i == 23 {
            #[trigger] text[i] == '-'
        } else {
            is_hex_digit(text[i])
        }
}

/// `uuid::Uuid::new_v4`, written with its `Display`: a random identifier in its
/// hyphenated form with lower-case digits. Which one it is, is left to chance.
#[verifier::external_body]
pub(crate) fn random_uuid() -> (r: String)
    ensures
        is_uuid_text(r@),
{
    uuid::Uuid::new_v4().to_string()
}

/// The name that an identifier gives to a test object: the prefix and the
/// first group of its digits.
pub fn test_name(prefix: &str, id: &str) -> (r: String)
    requires
        is_uuid_text(id@),
    ensures
        r@ == prefix@ + id@.take(8),
{
    let digits = chars_of(id);
    let mut name = string_from(prefix);
    let first = string_of(&digits, 0, 8);
    assert(first@ =~= id@.take(8));
    name.append(&first);
    name
}

/// `name` is `prefix` followed by eight hexadecimal digits.
pub open spec fn is_name_with(name: Seq<char>, prefix: Seq<char>) -> bool {
    &&& name.len() == prefix.len() + 8
    &&& name.take(prefix.len() as int) == prefix
    &&& forall|i: int| prefix.len() <= i < name.len() ==> is_hex_digit(#[trigger] name[i])
}

/// `marker` is `prefix` followed by a universally unique identifier.
pub open spec fn is_marker_with(marker: Seq<char>, prefix: Seq<char>) -> bool {
    &&& marker.len() == prefix.len() + 36
    &&& marker.take(prefix.len() as int) == prefix
    &&& is_uuid_text(marker.skip(prefix.len() as int))
}

/// A name for a test object with eight random digits behind the prefix.
pub fn fresh_name(prefix: &str) -> (r: String)
    ensures
        is_name_with(r@, prefix@),
{
    let id = random_uuid();
    let name = test_name(prefix, &id);
    assert(name@.take(prefix@.len() as int) =~= prefix@);
    assert forall|i: int| prefix@.len() <= i < name@.len() implies is_hex_digit(
        #[trigger] name@[i],
    ) by {
        assert(name@[i] == id@[i - prefix@.len()]);
        assert(id@[i - prefix@.len()] == id@.take(8)[i - prefix@.len()]);
    }
    name
}

/// A marker that another tenant cannot guess: the prefix and a random
/// identifier.
pub fn fresh_marker(prefix: &str) -> (r: String)
    ensures
        is_marker_with(r@, prefix@),
{
    let mut marker = string_from(prefix);
    let id = random_uuid();
    marker.append(&id);
    assert(marker@.take(prefix@.len() as int) =~= prefix@);
    assert(marker@.skip(prefix@.len() as int) =~= id@);
    marker
}

}
