//! A JSON document model that the extraction logic reads, and its parser.

use vstd::prelude::*;

verus! {

#[verifier::external_type_specification]
#[verifier::external_body]
pub struct ExJsonDocument(serde_json::Value);

/// A parsed JSON value.  Numbers keep their textual form; object members keep
/// the order in which the parser yields them (keys are unique).
#[derive(Debug)]
pub enum JsonValue {
    Null,
    Bool(bool),
    Number(String),
    Str(String),
    Array(Vec<JsonValue>),
    Object(Vec<(String, JsonValue)>),
}

/// The value that `serde_json` parses from `text`, if `text` is a JSON document.
pub uninterp spec fn spec_parse_json(text: Seq<char>) -> Option<JsonValue>;

/// Parses `text` with `serde_json::from_str::<serde_json::Value>` and carries
/// the result over into a `JsonValue`, one node for one node.  The contract
/// claims only that the outcome depends on `text` alone; which texts are
/// accepted and what they parse to is `serde_json`'s and is not stated.
#[verifier::external_body]
pub(crate) fn parse_json(text: &str) -> (r: Option<JsonValue>)
    ensures
        r == spec_parse_json(text@),
{
    serde_json::from_str::<serde_json::Value>(text).ok().map(json_from_document)
}

/// Carries one `serde_json::Value` over into a `JsonValue`: each variant to
/// its counterpart, a number to its `Display` text.  Used only by `parse_json`.
#[verifier::external_body]
fn json_from_document(v: serde_json::Value) -> JsonValue {
    match v {
        serde_json::Value::Null => JsonValue::Null,
        serde_json::Value::Bool(b) => JsonValue::Bool(b),
        serde_json::Value::Number(n) => JsonValue::Number(n.to_string()),
        serde_json::Value::String(s) => JsonValue::Str(s),
        serde_json::Value::Array(a) => JsonValue::Array(a.into_iter().map(json_from_document).collect()),
        serde_json::Value::Object(m) => JsonValue::Object(
            m.into_iter().map(|(k, v)| (k, json_from_document(v))).collect(),
        ),
    }
}

/// The value stored under `key` among `entries`, if any.
pub open spec fn lookup(entries: Seq<(String, JsonValue)>, key: Seq<char>) -> Option<JsonValue>
    decreases entries.len(),
{
    if entries.len() == 0 {
        None
    } else if entries[0].0@ == key {
        Some(entries[0].1)
    } else {
        lookup(entries.drop_first(), key)
    }
}

impl JsonValue {
    /// The member `key` of an object (as `serde_json::Value::get`).
    pub open spec fn field(self, key: Seq<char>) -> Option<JsonValue> {
        match self {
            JsonValue::Object(entries) => lookup(entries@, key),
            _ => None,
        }
    }

    /// The member `key` of an object, `Null` when absent (as `value[key]`).
    pub open spec fn at(self, key: Seq<char>) -> JsonValue {
        match self.field(key) {
            Some(v) => v,
            None => JsonValue::Null,
        }
    }

    /// The text of a string value (as `serde_json::Value::as_str`).
    pub open spec fn str_value(self) -> Option<Seq<char>> {
        match self {
            JsonValue::Str(s) => Some(s@),
            _ => None,
        }
    }

    /// The text of a number value (what `as_f64` reads).
    pub open spec fn number_text(self) -> Option<Seq<char>> {
        match self {
            JsonValue::Number(n) => Some(n@),
            _ => None,
        }
    }

    /// The items of an array value (as `serde_json::Value::as_array`).
    pub open spec fn items(self) -> Option<Seq<JsonValue>> {
        match self {
            JsonValue::Array(items) => Some(items@),
            _ => None,
        }
    }

    /// Whether this is an object (as `serde_json::Value::as_object` is `Some`).
    pub open spec fn is_object(self) -> bool {
        self is Object
    }

    /// The member `key` of an object (as `serde_json::Value::get`).
    pub fn get(&self, key: &str) -> (r: Option<&JsonValue>)
        ensures
            match r {
                Some(v) => self.field(key@) == Some(*v),
                None => self.field(key@) is None,
            },
    {
        match self {
            JsonValue::Object(entries) => {
                let k = String::from_str(key);
                let n = entries.len();
                let mut i: usize = 0;
                assert(entries@.subrange(0, n as int) =~= entries@);
                while i < n
                    invariant
                        n == entries@.len(),
                        i <= n,
                        k@ == key@,
                        self.field(key@) == lookup(entries@, key@),
                        lookup(entries@, key@) == lookup(entries@.subrange(i as int, n as int), key@),
                    decreases n - i,
                {
                    assert(entries@.subrange(i as int, n as int).drop_first() =~= entries@.subrange(
                        i + 1,
                        n as int,
                    ));
                    assert(entries@.subrange(i as int, n as int)[0] == entries@[i as int]);
                    if entries[i].0 == k {
                        return Some(&entries[i].1);
                    }
                    i = i + 1;
                }
                None
            },
            _ => None,
        }
    }

    /// The text of a string value (as `serde_json::Value::as_str`).
    pub fn as_str(&self) -> (r: Option<&String>)
        ensures
            match r {
                Some(s) => self.str_value() == Some(s@),
                None => self.str_value() is None,
            },
    {
        match self {
            JsonValue::Str(s) => Some(s),
            _ => None,
        }
    }

    /// The text of a number value.
    pub fn as_number_text(&self) -> (r: Option<&String>)
        ensures
            match r {
                Some(s) => self.number_text() == Some(s@),
                None => self.number_text() is None,
            },
    {
        match self {
            JsonValue::Number(s) => Some(s),
            _ => None,
        }
    }

    /// The items of an array value (as `serde_json::Value::as_array`).
    pub fn as_array(&self) -> (r: Option<&Vec<JsonValue>>)
        ensures
            match r {
                Some(a) => self.items() == Some(a@),
                None => self.items() is None,
            },
    {
        match self {
            JsonValue::Array(a) => Some(a),
            _ => None,
        }
    }

    /// Whether this is an object.
    pub fn object_check(&self) -> (r: bool)
        ensures
            r == self.is_object(),
    {
        match self {
            JsonValue::Object(_) => true,
            _ => false,
        }
    }
}

} // verus!
