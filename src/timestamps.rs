//! Optional timestamps in API records.
//!
//! The server marks a missing timestamp either by leaving the field out, by a
//! JSON `null`, or by the string `"null"`. Whatever else the field holds is an
//! RFC 3339 timestamp for the date library to parse.
use vstd::prelude::*;

verus! {

/// `null`, the text that stands for a missing timestamp.
pub open spec fn null_text() -> Seq<char> {
    seq!['n', 'u', 'l', 'l']
}

/// The text of an optional timestamp field that is left to parse: None where
/// the field is missing or holds the string `null`, the field's text otherwise.
pub fn timestamp_text(val: Option<String>) -> (r: Option<String>)
    ensures
        match val {
            None => r is None,
            Some(s) => if s@ == null_text() {
                r is None
            } else {
                r matches Some(t) && t@ == s@
            },
        },
{
    match val {
        None => None,
        Some(s) => {
            let null = String::from_str("null");
            proof {
                reveal_strlit("null");
            }
            assert("null"@ =~= null_text());
            if s == null {
                None
            } else {
                Some(s)
            }
        },
    }
}

} // verus!
