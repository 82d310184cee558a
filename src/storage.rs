//! The stored form of an allow-list: a JSON array of user-id strings.
//! Reading is lenient: text that is not such an array counts as an empty
//! list, so a damaged record never blocks access checks by its owner.

use vstd::prelude::*;
use crate::access::ids_of;

verus! {

/// The JSON text that `serde_json::to_string` makes of a list of ids, or
/// `None` when it reports an error.
pub uninterp spec fn json_of_ids(ids: Seq<Seq<char>>) -> Option<Seq<char>>;

/// The list of ids that `serde_json::from_str` reads from `text`, or `None`
/// when `text` is not a JSON array of strings.
pub uninterp spec fn ids_of_json(text: Seq<char>) -> Option<Seq<Seq<char>>>;

/// Relies on `serde_json::to_string` on a `Vec<String>`.
#[verifier::external_body]
fn ids_to_json(ids: &Vec<String>) -> (r: Option<String>)
    ensures
        match r {
            Some(t) => json_of_ids(ids_of(ids@)) == Some(t@),
            None => json_of_ids(ids_of(ids@)) is None,
        },
{
    serde_json::to_string(ids).ok()
}

/// Relies on `serde_json::from_str` into a `Vec<String>`.
#[verifier::external_body]
fn ids_from_json(text: &str) -> (r: Option<Vec<String>>)
    ensures
        match r {
            Some(v) => ids_of_json(text@) == Some(ids_of(v@)),
            None => ids_of_json(text@) is None,
        },
{
    serde_json::from_str::<Vec<String>>(text).ok()
}

/// The stored text of an allow-list; `[]` should encoding fail.
pub fn encode_allow_list(ids: &Vec<String>) -> (r: String)
    ensures
        r@ == match json_of_ids(ids_of(ids@)) {
            Some(t) => t,
            None => "[]"@,
        },
{
    match ids_to_json(ids) {
        Some(t) => t,
        None => String::from_str("[]"),
    }
}

/// The allow-list stored as `text`; empty when `text` is not a JSON array
/// of strings.
pub fn decode_allow_list(text: &str) -> (r: Vec<String>)
    ensures
        ids_of(r@) == match ids_of_json(text@) {
            Some(v) => v,
            None => Seq::empty(),
        },
{
    match ids_from_json(text) {
        Some(v) => v,
        None => {
            let empty: Vec<String> = Vec::new();
            assert(ids_of(empty@) =~= Seq::<Seq<char>>::empty());
            empty
        },
    }
}

} // verus!
