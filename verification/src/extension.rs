//! Extension re-typing: reading one opaque extension payload against a
//! caller-chosen shape, on demand.
//!
//! An extension payload is a mapping from string keys to opaque structured
//! values; the core carries it losslessly and knows nothing of its shape.
//! A consumer that knows a shape reads its fields with these functions,
//! which follow the same decode contract as the record fields: a required
//! field must be present with the right shape, an absent optional field is
//! no value rather than an error.

use vstd::prelude::*;
use crate::json::{Json, json_view_fields};
use crate::error::{DecodeError, SpecDecodeError};
use crate::v1::{spec_req_string, spec_opt_string, opt_view, req_string, opt_string};

verus! {

broadcast use vstd::group_vstd_default;

/// Retypes one field of an opaque extension payload as a required string:
/// the field must be present and hold a string, and is returned exactly;
/// an absent field is a missing-field failure, any other shape a mismatch.
pub fn retype_string_field(payload: &Vec<(String, Json)>, key: &str) -> (r: Result<
    String,
    DecodeError,
>)
    ensures
        match r {
            Ok(s) => spec_req_string(json_view_fields(payload@), key@) == Ok::<
                Seq<char>,
                SpecDecodeError,
            >(s@),
            Err(e) => spec_req_string(json_view_fields(payload@), key@) == Err::<
                Seq<char>,
                SpecDecodeError,
            >(e.deep_view()),
        },
{
    req_string(payload, key)
}

/// Retypes one field of an opaque extension payload as an optional string:
/// an absent or null field is no value, a string is returned exactly, and
/// any other shape is a mismatch.
pub fn retype_optional_string_field(payload: &Vec<(String, Json)>, key: &str) -> (r: Result<
    Option<String>,
    DecodeError,
>)
    ensures
        match r {
            Ok(o) => spec_opt_string(json_view_fields(payload@), key@) == Ok::<
                Option<Seq<char>>,
                SpecDecodeError,
            >(opt_view(o)),
            Err(e) => spec_opt_string(json_view_fields(payload@), key@) == Err::<
                Option<Seq<char>>,
                SpecDecodeError,
            >(e.deep_view()),
        },
{
    opt_string(payload, key)
}

/// Whether an extension under the given key is present in a record's
/// extension mapping, and its payload when it is.
pub fn find_extension<'a>(
    extensions: &'a Vec<(String, Vec<(String, Json)>)>,
    key: &str,
) -> (r: Option<&'a Vec<(String, Json)>>)
    ensures
        match r {
            Some(p) => exists|i: int|
                0 <= i < extensions@.len() && #[trigger] extensions@[i].0@ == key@
                    && extensions@[i].1@ == p@ && (forall|j: int|
                    0 <= j < i ==> extensions@[j].0@ != key@),
            None => forall|i: int| 0 <= i < extensions@.len() ==> extensions@[i].0@ != key@,
        },
{
    let k: String = key.to_owned();
    let mut i: usize = 0;
    while i < extensions.len()
        invariant
            i <= extensions@.len(),
            k@ == key@,
            forall|j: int| 0 <= j < i ==> extensions@[j].0@ != key@,
        decreases extensions@.len() - i,
    {
        if extensions[i].0 == k {
            return Some(&extensions[i].1);
        }
        i += 1;
    }
    None
}

} // verus!
