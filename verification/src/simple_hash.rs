//! Flattening a JSON object whose values are all strings into string
//! key/value pairs.

use vstd::prelude::*;

verus! {

#[verifier::external_type_specification]
#[verifier::external_body]
pub struct ExFmtError(std::fmt::Error);

/// A JSON value. Numbers are kept as their text; an object's keys are
/// distinct, as in a `serde_json::Map`.
#[derive(Debug)]
pub enum JsonValue {
    Null,
    Bool(bool),
    Number(String),
    String(String),
    Array(Vec<JsonValue>),
    Object(Vec<(String, JsonValue)>),
}

/// No key occurs twice among the entries.
pub open spec fn keys_distinct(entries: Seq<(String, JsonValue)>) -> bool {
    forall|i: int, j: int|
        0 <= i < j < entries.len() ==> (#[trigger] entries[i]).0@ != (#[trigger] entries[j]).0@
}

/// Every value among the entries is a string.
pub open spec fn all_values_strings(entries: Seq<(String, JsonValue)>) -> bool {
    forall|i: int| 0 <= i < entries.len() ==> (#[trigger] entries[i]).1 is String
}

/// What a flattening accepts: anything but an object, or an object with
/// distinct keys whose values are all strings.
pub open spec fn is_simple(json: JsonValue) -> bool {
    match json {
        JsonValue::Object(entries) => keys_distinct(entries@) && all_values_strings(entries@),
        _ => true,
    }
}

/// The pairs a flattening yields: for an object, each key with its string
/// value, in order; for anything else, nothing.
pub open spec fn flattened(json: JsonValue) -> Seq<(Seq<char>, Seq<char>)> {
    match json {
        JsonValue::Object(entries) => Seq::new(
            entries@.len(),
            |i: int| (entries@[i].0@, entries@[i].1->String_0@),
        ),
        _ => Seq::empty(),
    }
}

/// The views of key/value string pairs.
pub open spec fn pair_views(pairs: Seq<(String, String)>) -> Seq<(Seq<char>, Seq<char>)> {
    pairs.map_values(|p: (String, String)| (p.0@, p.1@))
}

/// Flattens a JSON object whose values are strings into key/value pairs;
/// anything that is not an object gives no pairs. A value that is not a
/// string is outside what this accepts.
pub fn initialise_simple_hash(json: JsonValue) -> (r: Result<Vec<(String, String)>, std::fmt::Error>)
    requires
        is_simple(json),
    ensures
        r is Ok,
        r matches Ok(pairs) ==> pair_views(pairs@) == flattened(json),
{
    let mut out: Vec<(String, String)> = Vec::new();
    match &json {
        JsonValue::Object(entries) => {
            let n = entries.len();
            let mut i: usize = 0;
            while i < n
                invariant
                    n == entries@.len(),
                    i <= n,
                    all_values_strings(entries@),
                    out@.len() == i,
                    pair_views(out@) =~= Seq::new(
                        i as nat,
                        |k: int| (entries@[k].0@, entries@[k].1->String_0@),
                    ),
                decreases n - i,
            {
                let key = entries[i].0.clone();
                assert(entries@[i as int].1 is String);
                let value = match &entries[i].1 {
                    JsonValue::String(s) => s.clone(),
                    _ => String::new(),
                };
                let ghost before = out@;
                out.push((key, value));
                assert(out@[i as int] == (key, value));
                assert(value@ == entries@[i as int].1->String_0@);
                assert(forall|k: int| 0 <= k < i ==> out@[k] == before[k]);
                assert forall|k: int| 0 <= k <= i implies #[trigger] pair_views(out@)[k] == (
                entries@[k].0@, entries@[k].1->String_0@) by {
                    if k < i {
                        assert(pair_views(before)[k] == (entries@[k].0@, entries@[k].1->String_0@));
                    }
                }
                i += 1;
            }
        },
        _ => {},
    }
    Ok(out)
}

/// A flattened object never repeats a key, so its pairs form a map.
pub proof fn lemma_flattened_keys_distinct(json: JsonValue)
    requires
        is_simple(json),
    ensures
        forall|i: int, j: int|
            0 <= i < j < flattened(json).len() ==> (#[trigger] flattened(json)[i]).0 != (
            #[trigger] flattened(json)[j]).0,
{
    if let JsonValue::Object(entries) = json {
        assert forall|i: int, j: int| 0 <= i < j < flattened(json).len() implies (
        #[trigger] flattened(json)[i]).0 != (#[trigger] flattened(json)[j]).0 by {
            assert(entries@[i].0@ != entries@[j].0@);
        }
    }
}

} // verus!
