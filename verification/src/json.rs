//! A plain JSON value and its decoder.
//!
//! Artifact files are JSON; the decoder turns their text into the [`Json`]
//! tree below, on which the artifact parsers' logic is verified. Numbers
//! that do not fit a signed 64-bit integer (fractions, huge values) are
//! kept only as a marker, since none of the extracted fields allows them.

use vstd::prelude::*;

verus! {

/// A decoded JSON value.
pub enum Json {
    /// `null`.
    Null,
    /// `true` or `false`.
    Bool(bool),
    /// A number with an exact signed 64-bit integer value.
    Int(i64),
    /// A number with no such value: fractional or out of range.
    OtherNum,
    /// A string.
    Str(String),
    /// An array.
    Arr(Vec<Json>),
    /// An object, as its ordered key-value entries.
    Obj(Vec<(String, Json)>),
}

/// The value under the first matching key of an object's entries.
pub open spec fn obj_get(entries: Seq<(String, Json)>, key: Seq<char>) -> Option<Json>
    decreases entries.len(),
{
    if entries.len() == 0 {
        None
    } else if entries.first().0@ == key {
        Some(entries.first().1)
    } else {
        obj_get(entries.drop_first(), key)
    }
}

impl Json {
    /// The field of an object under `key`; nothing for other values or a
    /// missing key.
    pub open spec fn get_spec(self, key: Seq<char>) -> Option<Json> {
        match self {
            Json::Obj(entries) => obj_get(entries@, key),
            _ => None,
        }
    }

    /// Look up a field of a JSON object.
    pub fn get<'a>(&'a self, key: &str) -> (r: Option<&'a Json>)
        ensures
            match r {
                Some(j) => self.get_spec(key@) == Some(*j),
                None => self.get_spec(key@) is None,
            },
    {
        match self {
            Json::Obj(entries) => {
                proof {
                    assert(entries@.skip(0) =~= entries@);
                }
                let mut i: usize = 0;
                while i < entries.len()
                    invariant
                        i <= entries@.len(),
                        self.get_spec(key@) == obj_get(entries@, key@),
                        obj_get(entries@, key@) == obj_get(entries@.skip(i as int), key@),
                    decreases entries@.len() - i,
                {
                    proof {
                        assert(entries@.skip(i as int).first() == entries@[i as int]);
                        assert(entries@.skip(i as int).drop_first() =~= entries@.skip(
                            i as int + 1,
                        ));
                    }
                    let found = crate::text::str_eq(entries[i].0.as_str(), key);
                    if found {
                        proof {
                            assert(entries@.skip(i as int).first().0@ == key@);
                            assert(obj_get(entries@.skip(i as int), key@) == Some(
                                entries@[i as int].1,
                            ));
                        }
                        return Some(&entries[i].1);
                    }
                    i += 1;
                }
                proof {
                    assert(entries@.skip(entries@.len() as int) =~= Seq::<(String, Json)>::empty());
                }
                None
            },
            _ => None,
        }
    }
}

/// What `serde_json` decodes the given text to, mapped variant for variant
/// onto [`Json`]; nothing when the text is not valid JSON.
pub uninterp spec fn json_of(s: Seq<char>) -> Option<Json>;

/// The `serde_json::Value` type, held only inside the decoder below.
#[verifier::external_type_specification]
#[verifier::external_body]
pub struct ExValue(serde_json::Value);

/// Relies on `serde_json::from_str::<serde_json::Value>`: decodes the text
/// exactly when it is valid JSON, to a tree that `value_to_json` carries
/// over variant for variant.
#[verifier::external_body]
pub fn json_decode(s: &str) -> (r: Result<Json, String>)
    ensures
        r matches Ok(j) ==> json_of(s@) == Some(j),
        r is Ok <==> json_of(s@) is Some,
{
    match serde_json::from_str::<serde_json::Value>(s) {
        Ok(v) => Ok(value_to_json(v)),
        Err(e) => Err(e.to_string()),
    }
}

/// Relies on `serde_json::Value`'s shape: each variant moves to the
/// matching [`Json`] variant, numbers through `Number::as_i64`.
#[verifier::external_body]
fn value_to_json(v: serde_json::Value) -> Json {
    match v {
        serde_json::Value::Null => Json::Null,
        serde_json::Value::Bool(b) => Json::Bool(b),
        serde_json::Value::Number(n) => n.as_i64().map(Json::Int).unwrap_or(Json::OtherNum),
        serde_json::Value::String(s) => Json::Str(s),
        serde_json::Value::Array(a) => Json::Arr(a.into_iter().map(value_to_json).collect()),
        serde_json::Value::Object(m) => Json::Obj(
            m.into_iter().map(|kv| (kv.0, value_to_json(kv.1))).collect(),
        ),
    }
}

} // verus!
