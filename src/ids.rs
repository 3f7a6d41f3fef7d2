//! Fresh identifiers for objects and temporary files.

use vstd::prelude::*;

use crate::placement::{has_separator, is_dot_name, is_segment, is_separator};

verus! {

pub open spec fn is_lower_hex(c: char) -> bool {
    ('0' <= c && c <= '9') || ('a' <= c && c <= 'f')
}

/// `s` is a UUID in hyphenated lower-case form: 8-4-4-4-12 hex digits.
pub open spec fn is_uuid_text(s: Seq<char>) -> bool {
    &&& s.len() == 36
    &&& forall|i: int|
        0 <= i < 36 ==> if i == 8 || i == 13 || i == 18 || i == 23 {
            #[trigger] s[i] == '-'
        } else {
            is_lower_hex(s[i])
        }
}

/// Relies on `uuid::Uuid::new_v4` for a random version-4 UUID, and on the
/// `Display` impl of `uuid::Uuid`, which writes it hyphenated in lower case.
#[verifier::external_body]
fn random_uuid_text() -> (r: String)
    ensures
        is_uuid_text(r@),
{
    uuid::Uuid::new_v4().to_string()
}

/// A UUID in text form is a valid path segment.
pub proof fn lemma_uuid_text_is_segment(s: Seq<char>)
    requires
        is_uuid_text(s),
    ensures
        is_segment(s),
{
    assert(!has_separator(s)) by {
        if has_separator(s) {
            let i = choose|i: int| 0 <= i < s.len() && is_separator(#[trigger] s[i]);
            assert(s[i] == '-' || is_lower_hex(s[i]));
        }
    }
    assert(!is_dot_name(s)) by {
        if is_dot_name(s) {
            assert(s.len() <= 2);
        }
    }
}

/// A fresh random name, usable as an object key or a temporary-file tag.
pub fn new_object_key() -> (r: String)
    ensures
        is_uuid_text(r@),
        is_segment(r@),
{
    let k = random_uuid_text();
    proof {
        lemma_uuid_text_is_segment(k@);
    }
    k
}

} // verus!
