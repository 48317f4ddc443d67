//! Lists of server URLs as JSON text.

use vstd::prelude::*;

use crate::types::{texts_of, Text};

verus! {

/// The JSON text that `serde_json` writes for a list of strings.
pub uninterp spec fn json_of_strings(strings: Seq<Seq<char>>) -> Seq<char>;

/// What `serde_json` reads from JSON text as a list of strings: the strings,
/// or the description of what is wrong with the text.
pub uninterp spec fn strings_of_json(json: Seq<char>) -> Result<Seq<Seq<char>>, Seq<char>>;

/// Writes a list of strings as JSON with `serde_json::to_string`. Writing
/// strings to memory does not fail, the text depends on the strings alone, and
/// reading it gives the strings back.
#[verifier::external_body]
pub(crate) fn strings_to_json(strings: &[String]) -> (json: Result<String, String>)
    ensures
        json is Ok,
        json->Ok_0@ == json_of_strings(texts_of(strings@)),
        strings_of_json(json->Ok_0@) is Ok,
        strings_of_json(json->Ok_0@)->Ok_0 == texts_of(strings@),
{
    serde_json::to_string(strings).map_err(|error| error.to_string())
}

/// Reads a list of strings from JSON with `serde_json::from_str`. The strings,
/// or the description of the error, depend on the text alone.
#[verifier::external_body]
pub(crate) fn json_to_strings(json: &str) -> (strings: Result<Vec<String>, String>)
    ensures
        match strings {
            Ok(list) => strings_of_json(json@) == Ok::<Seq<Text>, Text>(texts_of(list@)),
            Err(reason) => strings_of_json(json@) == Err::<Seq<Text>, Text>(reason@),
        },
{
    serde_json::from_str(json).map_err(|error: serde_json::Error| error.to_string())
}

} // verus!
