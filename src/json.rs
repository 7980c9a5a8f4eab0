use vstd::prelude::*;

verus! {

/// A JSON document as plain values: what the classifier reads of a reply.
/// Numbers keep their text, since no rule here computes with them.
pub enum Json {
    Null,
    Bool(bool),
    Number(String),
    Str(String),
    Array(Vec<Json>),
    Object(Vec<(String, Json)>),
}

/// The value stored under `key` among `fields` (the first entry with that key).
pub open spec fn field_value(fields: Seq<(String, Json)>, key: Seq<char>) -> Option<Json>
    decreases fields.len(),
{
    if fields.len() == 0 {
        None
    } else if fields[0].0@ == key {
        Some(fields[0].1)
    } else {
        field_value(fields.drop_first(), key)
    }
}

/// The member `key` of an object; nothing for any other kind of value.
pub open spec fn member(j: Json, key: Seq<char>) -> Option<Json> {
    match j {
        Json::Object(fields) => field_value(fields@, key),
        _ => None,
    }
}

/// The element at `index` of an array; nothing for any other kind of value.
pub open spec fn element(j: Json, index: int) -> Option<Json> {
    match j {
        Json::Array(items) => if 0 <= index < items@.len() {
            Some(items@[index])
        } else {
            None
        },
        _ => None,
    }
}

/// The text of a string value; nothing for any other kind of value.
pub open spec fn text_of(j: Json) -> Option<Seq<char>> {
    match j {
        Json::Str(s) => Some(s@),
        _ => None,
    }
}

/// The document that serde_json reads from the text `s`, as a `Json` tree;
/// nothing when serde_json rejects the text.
pub uninterp spec fn parsed_json(s: Seq<char>) -> Option<Json>;

#[verifier::external_type_specification]
#[verifier::external_body]
pub struct ExValue(serde_json::Value);

/// Relies on serde_json::from_str, read into a `serde_json::Value`: the
/// document of the text, or an error when serde_json rejects it. The value is
/// moved into a `Json` tree one variant for one.
#[verifier::external_body]
fn parse_value(raw: &str) -> (r: Option<Json>)
    ensures
        r == parsed_json(raw@),
{
    serde_json::from_str::<serde_json::Value>(raw).ok().map(from_value)
}

/// Moves each variant of serde_json::Value into the matching variant of
/// `Json`, keeping the number's text; used by `parse_value` alone.
#[verifier::external_body]
fn from_value(v: serde_json::Value) -> Json {
    match v {
        serde_json::Value::Null => Json::Null,
        serde_json::Value::Bool(b) => Json::Bool(b),
        serde_json::Value::Number(n) => Json::Number(n.to_string()),
        serde_json::Value::String(s) => Json::Str(s),
        serde_json::Value::Array(a) => Json::Array(a.into_iter().map(from_value).collect()),
        serde_json::Value::Object(m) => Json::Object(
            m.into_iter().map(|(k, x)| (k, from_value(x))).collect(),
        ),
    }
}

/// Reads `raw` as a JSON document; `None` when serde_json rejects the text.
pub fn parse_json(raw: &str) -> (r: Option<Json>)
    ensures
        r == parsed_json(raw@),
{
    parse_value(raw)
}

impl Json {
    /// The member `key` of this value, if it is an object holding one.
    pub fn get_member(&self, key: &String) -> (r: Option<&Json>)
        ensures
            match r {
                Some(x) => member(*self, key@) == Some(*x),
                None => member(*self, key@) is None,
            },
    {
        match self {
            Json::Object(fields) => {
                let mut i: usize = 0;
                assert(fields@.skip(0) =~= fields@);
                while i < fields.len()
                    invariant
                        0 <= i <= fields@.len(),
                        member(*self, key@) == field_value(fields@, key@),
                        field_value(fields@, key@) == field_value(fields@.skip(i as int), key@),
                    decreases fields@.len() - i,
                {
                    assert(fields@.skip(i as int).drop_first() =~= fields@.skip(i + 1));
                    if fields[i].0 == *key {
                        assert(fields@.skip(i as int)[0] == fields@[i as int]);
                        return Some(&fields[i].1);
                    }
                    assert(fields@.skip(i as int)[0] == fields@[i as int]);
                    i = i + 1;
                }
                None
            },
            _ => None,
        }
    }

    /// The element at `index` of this value, if it is an array that long.
    pub fn get_element(&self, index: usize) -> (r: Option<&Json>)
        ensures
            match r {
                Some(x) => element(*self, index as int) == Some(*x),
                None => element(*self, index as int) is None,
            },
    {
        match self {
            Json::Array(items) => if index < items.len() {
                Some(&items[index])
            } else {
                None
            },
            _ => None,
        }
    }

    /// The text of this value, if it is a string.
    pub fn as_text(&self) -> (r: Option<&String>)
        ensures
            match r {
                Some(s) => text_of(*self) == Some(s@),
                None => text_of(*self) is None,
            },
    {
        match self {
            Json::Str(s) => Some(s),
            _ => None,
        }
    }
}

} // verus!
