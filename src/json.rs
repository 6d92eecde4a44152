use vstd::prelude::*;

verus! {

/// serde_json's number, carried unread inside `JsonNumber`.
#[verifier::external_type_specification]
#[verifier::external_body]
pub struct ExJsonNumber(serde_json::Number);

/// serde_json's document type, which the conversions below take apart and
/// build.
#[verifier::external_type_specification]
#[verifier::external_body]
pub struct ExJsonValue(serde_json::Value);

/// A JSON number: its value where it is a non-negative integer that fits in
/// 64 bits, and the number as it was read.
pub struct JsonNumber {
    pub unsigned: Option<u64>,
    pub raw: serde_json::Number,
}

/// A JSON document. An object holds each member name once, in the order of
/// serde_json's map.
pub enum Json {
    Null,
    Bool(bool),
    Number(JsonNumber),
    Str(String),
    Array(Vec<Json>),
    Object(Vec<(String, Json)>),
}

/// The document that a text holds, if it is valid JSON.
pub uninterp spec fn json_parse(text: Seq<char>) -> Option<Json>;

/// The compact JSON text of an array of documents.
pub uninterp spec fn json_array_text(items: Seq<Json>) -> Seq<char>;

impl Json {
    /// Moves a serde_json::Value into a document, variant for variant; used
    /// only by `parse_json`.
    #[verifier::external_body]
    fn from_value(v: serde_json::Value) -> Json {
        match v {
            serde_json::Value::Null => Json::Null,
            serde_json::Value::Bool(b) => Json::Bool(b),
            serde_json::Value::Number(n) => Json::Number(JsonNumber { unsigned: n.as_u64(), raw: n }),
            serde_json::Value::String(s) => Json::Str(s),
            serde_json::Value::Array(a) => Json::Array(a.into_iter().map(Json::from_value).collect()),
            serde_json::Value::Object(m) => Json::Object(
                m.into_iter().map(|(k, v)| (k, Json::from_value(v))).collect(),
            ),
        }
    }

    /// Moves a document back into a serde_json::Value, variant for variant;
    /// used only by `array_to_text`.
    #[verifier::external_body]
    fn into_value(self) -> serde_json::Value {
        match self {
            Json::Null => serde_json::Value::Null,
            Json::Bool(b) => serde_json::Value::Bool(b),
            Json::Number(n) => serde_json::Value::Number(n.raw),
            Json::Str(s) => serde_json::Value::String(s),
            Json::Array(a) => serde_json::Value::Array(a.into_iter().map(Json::into_value).collect()),
            Json::Object(m) => serde_json::Value::Object(
                m.into_iter().map(|(k, v)| (k, v.into_value())).collect(),
            ),
        }
    }
}

/// Relies on serde_json::from_str into serde_json::Value: reads a JSON
/// document from text, or fails; the outcome depends on the text alone.
#[verifier::external_body]
pub(crate) fn parse_json(text: &str) -> (r: Option<Json>)
    ensures
        r == json_parse(text@),
{
    match serde_json::from_str::<serde_json::Value>(text) {
        Ok(v) => Some(Json::from_value(v)),
        Err(_) => None,
    }
}

/// Relies on serde_json::to_string of a Vec of serde_json::Value: writes the
/// items as one compact JSON array. Serialising a Value cannot fail.
#[verifier::external_body]
pub(crate) fn array_to_text(items: Vec<Json>) -> (r: String)
    ensures
        r@ == json_array_text(items@),
{
    let values: Vec<serde_json::Value> = items.into_iter().map(Json::into_value).collect();
    serde_json::to_string(&values).unwrap_or_default()
}

/// Whether member `i` is the first member of `fields` named `key`.
pub open spec fn first_key_at(fields: Seq<(String, Json)>, key: Seq<char>, i: int) -> bool {
    &&& 0 <= i < fields.len()
    &&& fields[i].0@ == key
    &&& forall|j: int| 0 <= j < i ==> fields[j].0@ != key
}

/// The value of the first member of `fields` named `key`.
pub open spec fn field_of(fields: Seq<(String, Json)>, key: Seq<char>) -> Option<Json> {
    if exists|i: int| first_key_at(fields, key, i) {
        Some(fields[choose|i: int| first_key_at(fields, key, i)].1)
    } else {
        None
    }
}

pub proof fn lemma_first_key_unique(fields: Seq<(String, Json)>, key: Seq<char>, i: int, j: int)
    requires
        first_key_at(fields, key, i),
        first_key_at(fields, key, j),
    ensures
        i == j,
{
}

/// The position of the first member of `fields` named `key`.
pub fn field_position(fields: &Vec<(String, Json)>, key: &str) -> (r: Option<usize>)
    ensures
        match r {
            Some(i) => first_key_at(fields@, key@, i as int),
            None => forall|i: int| 0 <= i < fields@.len() ==> fields@[i].0@ != key@,
        },
{
    let k = String::from_str(key);
    let mut i: usize = 0;
    while i < fields.len()
        invariant
            i <= fields@.len(),
            k@ == key@,
            forall|j: int| 0 <= j < i ==> fields@[j].0@ != key@,
        decreases fields@.len() - i,
    {
        if fields[i].0 == k {
            return Some(i);
        }
        i = i + 1;
    }
    None
}

/// The value of the first member of `fields` named `key`.
pub fn get_field<'a>(fields: &'a Vec<(String, Json)>, key: &str) -> (r: Option<&'a Json>)
    ensures
        match r {
            Some(j) => field_of(fields@, key@) == Some(*j),
            None => field_of(fields@, key@) is None,
        },
{
    match field_position(fields, key) {
        Some(i) => {
            proof {
                assert forall|j: int| first_key_at(fields@, key@, j) implies j == i by {
                    lemma_first_key_unique(fields@, key@, i as int, j);
                }
            }
            Some(&fields[i].1)
        },
        None => None,
    }
}

} // verus!
