//! The trusted boundary to the JSON parser that reads the two reference
//! datasets.  Everything else in the crate works on the entries these
//! functions hand back.

use vstd::prelude::*;

verus! {

/// The flat string-to-string object that a JSON text denotes, when it
/// denotes one.  The parser's contract names its result through this
/// function; nothing in the crate states its value on any given text.
pub uninterp spec fn json_string_map(text: Seq<char>) -> Option<Map<Seq<char>, Seq<char>>>;

#[verifier::external_type_specification]
#[verifier::external_body]
pub struct ExJsonError(serde_json::Error);

/// Relies on `serde_json::from_str::<HashMap<String, String>>`: it succeeds
/// exactly on texts that form a flat JSON object whose values are strings,
/// and then yields that object's entries, in no particular order.
#[verifier::external_body]
pub(crate) fn parse_string_map(text: &str) -> (r: Result<
    Vec<(String, String)>,
    serde_json::Error,
>)
    ensures
        match r {
            Ok(entries) => {
                &&& json_string_map(text@) is Some
                &&& forall|i: int|
                    0 <= i < entries@.len() ==> (json_string_map(text@)->Some_0).contains_key(
                        (#[trigger] entries@[i]).0@,
                    ) && (json_string_map(text@)->Some_0)[entries@[i].0@] == entries@[i].1@
                &&& forall|k: Seq<char>| #[trigger]
                    (json_string_map(text@)->Some_0).contains_key(k) ==> exists|i: int|
                        0 <= i < entries@.len() && (#[trigger] entries@[i]).0@ == k
            },
            Err(_) => json_string_map(text@) is None,
        },
{
    match serde_json::from_str::<std::collections::HashMap<String, String>>(text) {
        Ok(m) => Ok(m.into_iter().collect()),
        Err(e) => Err(e),
    }
}

/// Relies on the `Display` form of `serde_json::Error` for a human-readable
/// description of what failed to parse.
#[verifier::external_body]
pub(crate) fn json_error_message(e: &serde_json::Error) -> String {
    format!("{}", e)
}

} // verus!
