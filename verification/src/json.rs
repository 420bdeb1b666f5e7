//! A JSON document held as plain values, with the accessors that the
//! decoding of a user's data reads: member lookup by key, and the views of a
//! value as a string, integer, boolean, array or object.
//!
//! A lookup by a key that an object lacks, or on a value that is not an
//! object, gives `null`; an object's members keep the order they were given
//! in, and a key that occurs twice is found at its first occurrence.
use vstd::prelude::*;

use crate::text::{str_eq};
use serde_json::Value;

verus! {

/// A JSON number: a non-negative or a negative integer, or a number with a
/// fraction or exponent, kept as its text.
#[derive(Debug)]
pub enum JsonNumber {
    PosInt(u64),
    NegInt(i64),
    Float(String),
}

/// One member of a JSON object.
#[derive(Debug)]
pub struct JsonMember {
    pub key: String,
    pub value: JsonValue,
}

/// A JSON value.
#[derive(Debug)]
pub enum JsonValue {
    Null,
    Bool(bool),
    Number(JsonNumber),
    String(String),
    Array(Vec<JsonValue>),
    Object(Vec<JsonMember>),
}

/// The mathematical content of a JSON value.
pub enum JsonModel {
    Null,
    Bool(bool),
    PosInt(u64),
    NegInt(i64),
    Float(Seq<char>),
    String(Seq<char>),
    Array(Seq<JsonModel>),
    Object(Seq<(Seq<char>, JsonModel)>),
}

/// The position of the first member named `key`, searching from `i` on.
pub open spec fn find_key(ms: Seq<(Seq<char>, JsonModel)>, key: Seq<char>, i: int) -> Option<int>
    decreases ms.len() - i,
{
    if i < 0 || i >= ms.len() {
        None
    } else if ms[i].0 == key {
        Some(i)
    } else {
        find_key(ms, key, i + 1)
    }
}

impl JsonModel {
    /// The value of the first member named `key`, if this is an object with one.
    pub open spec fn member(self, key: Seq<char>) -> Option<JsonModel> {
        match self {
            JsonModel::Object(ms) => match find_key(ms, key, 0) {
                Some(i) => Some(ms[i].1),
                None => None,
            },
            _ => None,
        }
    }

    /// `value[key]`: the member named `key`, or `null` when there is none.
    pub open spec fn index(self, key: Seq<char>) -> JsonModel {
        match self.member(key) {
            Some(v) => v,
            None => JsonModel::Null,
        }
    }

    pub open spec fn as_str(self) -> Option<Seq<char>> {
        match self {
            JsonModel::String(s) => Some(s),
            _ => None,
        }
    }

    pub open spec fn as_bool(self) -> Option<bool> {
        match self {
            JsonModel::Bool(b) => Some(b),
            _ => None,
        }
    }

    /// The integer, when it fits an `i64`.
    pub open spec fn as_i64(self) -> Option<i64> {
        match self {
            JsonModel::PosInt(n) => if n <= i64::MAX as u64 {
                Some(n as i64)
            } else {
                None
            },
            JsonModel::NegInt(n) => Some(n),
            _ => None,
        }
    }

    pub open spec fn as_array(self) -> Option<Seq<JsonModel>> {
        match self {
            JsonModel::Array(v) => Some(v),
            _ => None,
        }
    }

    pub open spec fn as_object(self) -> Option<Seq<(Seq<char>, JsonModel)>> {
        match self {
            JsonModel::Object(ms) => Some(ms),
            _ => None,
        }
    }

    pub open spec fn is_null(self) -> bool {
        self is Null
    }

    /// No object in this value, at any depth, has two members with one key.
    pub open spec fn distinct_keys(self) -> bool
        decreases self,
    {
        match self {
            JsonModel::Array(xs) => forall|i: int| 0 <= i < xs.len() ==> (#[trigger] xs[i]).distinct_keys(),
            JsonModel::Object(ms) => {
                &&& forall|i: int, j: int| 0 <= i < j < ms.len() ==> (#[trigger] ms[i]).0 != (#[trigger] ms[j]).0
                &&& forall|i: int| 0 <= i < ms.len() ==> (#[trigger] ms[i]).1.distinct_keys()
            },
            _ => true,
        }
    }
}

impl JsonValue {
    /// The mathematical content of this value.
    pub open spec fn model(self) -> JsonModel
        decreases self,
    {
        proof {
            broadcast use vstd::std_specs::vec::group_vec_axioms;
        }
        match self {
            JsonValue::Null => JsonModel::Null,
            JsonValue::Bool(b) => JsonModel::Bool(b),
            JsonValue::Number(JsonNumber::PosInt(n)) => JsonModel::PosInt(n),
            JsonValue::Number(JsonNumber::NegInt(n)) => JsonModel::NegInt(n),
            JsonValue::Number(JsonNumber::Float(s)) => JsonModel::Float(s@),
            JsonValue::String(s) => JsonModel::String(s@),
            JsonValue::Array(v) => JsonModel::Array(
                Seq::new(
                    v@.len(),
                    |i: int|
                        if 0 <= i < v@.len() {
                            v@[i].model()
                        } else {
                            JsonModel::Null
                        },
                ),
            ),
            JsonValue::Object(ms) => JsonModel::Object(
                Seq::new(
                    ms@.len(),
                    |i: int|
                        if 0 <= i < ms@.len() {
                            (ms@[i].key@, ms@[i].value.model())
                        } else {
                            (Seq::empty(), JsonModel::Null)
                        },
                ),
            ),
        }
    }
}

/// The contents of a list of values.
pub open spec fn models(s: Seq<JsonValue>) -> Seq<JsonModel> {
    Seq::new(s.len(), |i: int| s[i].model())
}

/// The contents of a list of members, as key and value pairs.
pub open spec fn member_models(s: Seq<JsonMember>) -> Seq<(Seq<char>, JsonModel)> {
    Seq::new(s.len(), |i: int| (s[i].key@, s[i].value.model()))
}

impl JsonValue {
    /// `value[key]`: the first member named `key` of an object, or `null`.
    pub fn index(&self, key: &str) -> (r: &JsonValue)
        ensures
            r.model() == self.model().index(key@),
    {
        match self {
            JsonValue::Object(ms) => {
                let ghost mm = member_models(ms@);
                assert(self.model().as_object().unwrap() =~= mm);
                let mut i: usize = 0;
                while i < ms.len()
                    invariant
                        i <= ms@.len(),
                        mm == member_models(ms@),
                        self.model() == JsonModel::Object(mm),
                        find_key(mm, key@, 0) == find_key(mm, key@, i as int),
                    decreases ms@.len() - i,
                {
                    if str_eq(ms[i].key.as_str(), key) {
                        return &ms[i].value;
                    }
                    i = i + 1;
                }
                &JsonValue::Null
            },
            _ => &JsonValue::Null,
        }
    }

    pub fn as_str(&self) -> (r: Option<&str>)
        ensures
            match r {
                Some(s) => self.model().as_str() == Some(s@),
                None => self.model().as_str() is None,
            },
    {
        match self {
            JsonValue::String(s) => Some(s.as_str()),
            _ => None,
        }
    }

    pub fn as_bool(&self) -> (r: Option<bool>)
        ensures
            r == self.model().as_bool(),
    {
        match self {
            JsonValue::Bool(b) => Some(*b),
            _ => None,
        }
    }

    pub fn as_i64(&self) -> (r: Option<i64>)
        ensures
            r == self.model().as_i64(),
    {
        match self {
            JsonValue::Number(JsonNumber::PosInt(n)) => if *n <= 9223372036854775807u64 {
                Some(*n as i64)
            } else {
                None
            },
            JsonValue::Number(JsonNumber::NegInt(n)) => Some(*n),
            _ => None,
        }
    }

    pub fn is_null(&self) -> (r: bool)
        ensures
            r == self.model().is_null(),
    {
        match self {
            JsonValue::Null => true,
            _ => false,
        }
    }

    pub fn is_string(&self) -> (r: bool)
        ensures
            r == self.model().as_str() is Some,
    {
        match self {
            JsonValue::String(_) => true,
            _ => false,
        }
    }

    pub fn is_i64(&self) -> (r: bool)
        ensures
            r == self.model().as_i64() is Some,
    {
        self.as_i64().is_some()
    }

    pub fn is_object(&self) -> (r: bool)
        ensures
            r == self.model().as_object() is Some,
    {
        match self {
            JsonValue::Object(_) => true,
            _ => false,
        }
    }

    pub fn as_array(&self) -> (r: Option<&Vec<JsonValue>>)
        ensures
            match r {
                Some(v) => self.model().as_array() == Some(models(v@)),
                None => self.model().as_array() is None,
            },
    {
        match self {
            JsonValue::Array(v) => {
                assert(self.model().as_array().unwrap() =~= models(v@));
                Some(v)
            },
            _ => None,
        }
    }

    pub fn as_object(&self) -> (r: Option<&Vec<JsonMember>>)
        ensures
            match r {
                Some(ms) => self.model().as_object() == Some(member_models(ms@)),
                None => self.model().as_object() is None,
            },
    {
        match self {
            JsonValue::Object(ms) => {
                assert(self.model().as_object().unwrap() =~= member_models(ms@));
                Some(ms)
            },
            _ => None,
        }
    }

    /// A copy with the same content.
    pub fn deep_copy(&self) -> (r: JsonValue)
        ensures
            r.model() == self.model(),
        decreases self,
    {
        proof {
            broadcast use vstd::std_specs::vec::group_vec_axioms;
        }
        match self {
            JsonValue::Null => JsonValue::Null,
            JsonValue::Bool(b) => JsonValue::Bool(*b),
            JsonValue::Number(JsonNumber::PosInt(n)) => JsonValue::Number(JsonNumber::PosInt(*n)),
            JsonValue::Number(JsonNumber::NegInt(n)) => JsonValue::Number(JsonNumber::NegInt(*n)),
            JsonValue::Number(JsonNumber::Float(s)) => JsonValue::Number(JsonNumber::Float(s.clone())),
            JsonValue::String(s) => JsonValue::String(s.clone()),
            JsonValue::Array(v) => {
                let mut out: Vec<JsonValue> = Vec::new();
                let mut i: usize = 0;
                while i < v.len()
                    invariant
                        *self == JsonValue::Array(*v),
                        i <= v@.len(),
                        out@.len() == i,
                        forall|j: int| 0 <= j < i ==> #[trigger] out@[j].model() == v@[j].model(),
                    decreases v@.len() - i,
                {
                    proof {
                        assert(decreases_to!(*self => (*self)->Array_0));
                        assert(decreases_to!(*v => v@));
                        assert(decreases_to!(v@ => v@[i as int]));
                        assert(decreases_to!(*self => v@[i as int]));
                    }
                    let item = v[i].deep_copy();
                    out.push(item);
                    i = i + 1;
                }
                let r = JsonValue::Array(out);
                assert forall|j: int| 0 <= j < out@.len() implies #[trigger] r.model().as_array().unwrap()[j] == self.model().as_array().unwrap()[j] by {
                    assert(out@[j].model() == v@[j].model());
                }
                assert(r.model().as_array().unwrap() =~= self.model().as_array().unwrap());
                r
            },
            JsonValue::Object(ms) => {
                let mut out: Vec<JsonMember> = Vec::new();
                let mut i: usize = 0;
                while i < ms.len()
                    invariant
                        *self == JsonValue::Object(*ms),
                        i <= ms@.len(),
                        out@.len() == i,
                        forall|j: int|
                            0 <= j < i ==> #[trigger] out@[j].key@ == ms@[j].key@ && out@[j].value.model()
                                == ms@[j].value.model(),
                    decreases ms@.len() - i,
                {
                    proof {
                        assert(decreases_to!(*self => (*self)->Object_0));
                        assert(decreases_to!(*ms => ms@));
                        assert(decreases_to!(ms@ => ms@[i as int]));
                        assert(decreases_to!(ms@[i as int] => ms@[i as int].value));
                        assert(decreases_to!(*self => ms@[i as int].value));
                    }
                    let value = ms[i].value.deep_copy();
                    out.push(JsonMember { key: ms[i].key.clone(), value });
                    i = i + 1;
                }
                let r = JsonValue::Object(out);
                assert forall|j: int| 0 <= j < out@.len() implies #[trigger] r.model().as_object().unwrap()[j] == self.model().as_object().unwrap()[j] by {
                    assert(out@[j].key@ == ms@[j].key@);
                }
                assert(r.model().as_object().unwrap() =~= self.model().as_object().unwrap());
                r
            },
        }
    }
}

impl Clone for JsonValue {
    fn clone(&self) -> (r: Self)
        ensures
            r.model() == self.model(),
    {
        self.deep_copy()
    }
}

/// serde_json's JSON value, carried through unopened.
#[verifier::external_type_specification]
#[verifier::external_body]
pub struct ExSerdeValue(serde_json::Value);

/// What `serde_json::from_str::<serde_json::Value>` reads from a text: the
/// value, or `None` where serde_json refuses the text.
pub uninterp spec fn json_of_text(text: Seq<char>) -> Option<JsonModel>;

/// Turns serde_json's `Value` into the library's `JsonValue`, variant for
/// variant: integers that fit a `u64` become `PosInt`, other integers
/// `NegInt`, other numbers `Float` with serde_json's text for them; members
/// come in the order of serde_json's map. Nothing is stated of it here: what
/// a caller learns is stated by `parse_json`.
#[verifier::external_body]
fn json_from_serde(v: &Value) -> JsonValue {
    match v {
        Value::Null => JsonValue::Null,
        Value::Bool(b) => JsonValue::Bool(*b),
        Value::Number(n) => JsonValue::Number(match (n.as_u64(), n.as_i64()) {
            (Some(u), _) => JsonNumber::PosInt(u),
            (None, Some(i)) => JsonNumber::NegInt(i),
            _ => JsonNumber::Float(n.to_string()),
        }),
        Value::String(s) => JsonValue::String(s.clone()),
        Value::Array(xs) => JsonValue::Array(xs.iter().map(json_from_serde).collect()),
        Value::Object(ms) => JsonValue::Object(
            ms.iter().map(|(k, x)| JsonMember { key: k.clone(), value: json_from_serde(x) }).collect(),
        ),
    }
}

/// Reads a JSON text with `serde_json::from_str::<serde_json::Value>`: the
/// claim is that the value read is what `json_of_text` names, and that
/// `None` comes exactly where serde_json returns an error. It takes the text
/// alone, so the same text gives the same value. serde_json keeps an
/// object's members in a map (a `BTreeMap`, as no `preserve_order` feature
/// is asked for), so no object read has a key twice.
#[verifier::external_body]
pub(crate) fn parse_json(text: &str) -> (r: Option<JsonValue>)
    ensures
        match r {
            Some(v) => json_of_text(text@) == Some(v.model()),
            None => json_of_text(text@) is None,
        },
        r matches Some(v) ==> v.model().distinct_keys(),
{
    match serde_json::from_str::<Value>(text) {
        Ok(v) => Some(json_from_serde(&v)),
        Err(_) => None,
    }
}

} // verus!
