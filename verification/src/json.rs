//! A JSON document as the decoders read it, and the parser that produces one.

use vstd::prelude::*;

verus! {

/// A JSON value. A number keeps no content: no decoder reads one.
#[derive(Debug)]
pub enum Json {
    Null,
    Bool(bool),
    Number,
    Text(String),
    Array(Vec<Json>),
    Object(Vec<(String, Json)>),
}

#[verifier::external_type_specification]
#[verifier::external_body]
pub struct ExValue(serde_json::Value);

#[verifier::external_type_specification]
#[verifier::external_body]
pub struct ExError(serde_json::Error);

/// The document that `serde_json::from_str` reads from a text, as a [`Json`];
/// `None` where it reports an error.
pub uninterp spec fn parsed_document(text: Seq<char>) -> Option<Json>;

/// What a value of `serde_json` holds, as a [`Json`]: the same variant, the
/// elements of an array in their order, the entries of an object in the order
/// in which its map hands them out, a number without its content.
pub uninterp spec fn value_document(value: serde_json::Value) -> Json;

/// The value of the first entry of `entries` whose key is `key`.
pub open spec fn find_entry(entries: Seq<(String, Json)>, key: Seq<char>) -> Option<Json>
    decreases entries.len(),
{
    if entries.len() == 0 {
        None
    } else if entries[0].0@ == key {
        Some(entries[0].1)
    } else {
        find_entry(entries.drop_first(), key)
    }
}

impl Json {
    /// The member `key` of an object; `None` for a key that it lacks, and for
    /// a value that is no object.
    pub open spec fn member(self, key: Seq<char>) -> Option<Json> {
        match self {
            Json::Object(entries) => find_entry(entries@, key),
            _ => None,
        }
    }

    /// The elements of an array; `None` for a value that is no array.
    pub open spec fn items(self) -> Option<Seq<Json>> {
        match self {
            Json::Array(items) => Some(items@),
            _ => None,
        }
    }

    /// The content of a string; `None` for a value that is no string.
    pub open spec fn text(self) -> Option<Seq<char>> {
        match self {
            Json::Text(text) => Some(text@),
            _ => None,
        }
    }

    /// Looks up the member `key` of an object.
    pub fn get(&self, key: &str) -> (r: Option<&Json>)
        ensures
            match r {
                Some(found) => self.member(key@) == Some(*found),
                None => self.member(key@) is None,
            },
    {
        match self {
            Json::Object(entries) => {
                let wanted = key.to_owned();
                let mut i: usize = 0;
                assert(entries@.skip(0) =~= entries@);
                while i < entries.len()
                    invariant
                        0 <= i <= entries.len(),
                        wanted@ == key@,
                        self.member(key@) == find_entry(entries@, key@),
                        find_entry(entries@, key@) == find_entry(entries@.skip(i as int), key@),
                    decreases entries.len() - i,
                {
                    assert(entries@.skip(i as int).drop_first() =~= entries@.skip(i as int + 1));
                    assert(entries@.skip(i as int)[0] == entries@[i as int]);
                    if entries[i].0 == wanted {
                        return Some(&entries[i].1);
                    }
                    i = i + 1;
                }
                None
            },
            _ => None,
        }
    }

    /// The elements, if the value is an array.
    pub fn as_array(&self) -> (r: Option<&Vec<Json>>)
        ensures
            match r {
                Some(items) => self.items() == Some(items@),
                None => self.items() is None,
            },
    {
        match self {
            Json::Array(items) => Some(items),
            _ => None,
        }
    }

    /// The content, if the value is a string.
    pub fn as_str(&self) -> (r: Option<&str>)
        ensures
            match r {
                Some(text) => self.text() == Some(text@),
                None => self.text() is None,
            },
    {
        match self {
            Json::Text(text) => Some(text.as_str()),
            _ => None,
        }
    }

    /// Reads a JSON document from `text`; `None` where it is not well-formed.
    pub fn parse(text: &str) -> (r: Option<Json>)
        ensures
            r == parsed_document(text@),
    {
        match read_value(text) {
            Ok(value) => Some(json_from_value(&value)),
            Err(_) => None,
        }
    }
}

/// Copies a value of `serde_json` into a [`Json`], variant by variant. The
/// contract gives the copy its name and claims nothing else of it.
#[verifier::external_body]
fn json_from_value(value: &serde_json::Value) -> (r: Json)
    ensures
        r == value_document(*value),
{
    match value {
        serde_json::Value::Null => Json::Null,
        serde_json::Value::Bool(b) => Json::Bool(*b),
        serde_json::Value::Number(_) => Json::Number,
        serde_json::Value::String(s) => Json::Text(s.clone()),
        serde_json::Value::Array(a) => Json::Array(a.iter().map(json_from_value).collect()),
        serde_json::Value::Object(m) => Json::Object(
            m.iter().map(|(k, v)| (k.clone(), json_from_value(v))).collect(),
        ),
    }
}

/// Calls `serde_json::from_str` for a `serde_json::Value`. Nothing is claimed
/// of the parser but that its result depends on the text alone: the contract
/// names what the value holds, and says that there is none where the parser
/// reports an error.
#[verifier::external_body]
fn read_value(text: &str) -> (r: Result<serde_json::Value, serde_json::Error>)
    ensures
        match r {
            Ok(value) => parsed_document(text@) == Some(value_document(value)),
            Err(_) => parsed_document(text@) is None,
        },
{
    serde_json::from_str::<serde_json::Value>(text)
}

} // verus!
