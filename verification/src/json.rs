//! JSON documents as plain values.

use vstd::prelude::*;
use std::sync::Arc;
use serde_json::Value;
use crate::number::{integer_text, signed_to_text, unsigned_to_text};
use crate::text::same;

verus! {

/// A JSON number.
#[derive(Debug, PartialEq)]
pub enum JsonNumber {
    /// An integer that is not negative.
    Unsigned(u64),
    /// A negative integer.
    Negative(i64),
    /// Any other number: its double-precision bits, and how it is written.
    Float { bits: u64, text: String },
}

/// A JSON document. Lists and objects are shared, so that a copy is cheap.
#[derive(Debug, PartialEq)]
pub enum Json {
    Null,
    Bool(bool),
    Number(JsonNumber),
    Text(String),
    Array(Arc<Vec<Json>>),
    /// The members of an object, each key once.
    Object(Arc<Vec<(String, Json)>>),
}

/// A second handle on a shared value.
///
/// Stands for `std::sync::Arc::clone`: the handle leads to the same value.
#[verifier::external_body]
pub(crate) fn share<T>(a: &Arc<T>) -> (res: Arc<T>)
    ensures
        res == *a,
{
    Arc::clone(a)
}

impl Clone for JsonNumber {
    fn clone(&self) -> (res: Self)
        ensures
            res == *self,
    {
        match self {
            JsonNumber::Unsigned(n) => JsonNumber::Unsigned(*n),
            JsonNumber::Negative(n) => JsonNumber::Negative(*n),
            JsonNumber::Float { bits, text } => JsonNumber::Float { bits: *bits, text: text.clone() },
        }
    }
}

impl Clone for Json {
    fn clone(&self) -> (res: Self)
        ensures
            res == *self,
    {
        match self {
            Json::Null => Json::Null,
            Json::Bool(b) => Json::Bool(*b),
            Json::Number(n) => Json::Number(n.clone()),
            Json::Text(s) => Json::Text(s.clone()),
            Json::Array(a) => Json::Array(share(a)),
            Json::Object(o) => Json::Object(share(o)),
        }
    }
}

impl JsonNumber {
    /// How the number is written.
    pub open spec fn shown(self) -> Seq<char> {
        match self {
            JsonNumber::Unsigned(n) => integer_text(n as int),
            JsonNumber::Negative(n) => integer_text(n as int),
            JsonNumber::Float { bits, text } => text@,
        }
    }

    /// How the number is written.
    pub fn to_text(&self) -> (res: String)
        ensures
            res@ == self.shown(),
    {
        match self {
            JsonNumber::Unsigned(n) => unsigned_to_text(*n as u128),
            JsonNumber::Negative(n) => signed_to_text(*n),
            JsonNumber::Float { bits, text } => text.clone(),
        }
    }
}

/// The value of the first of `members`, from position `from` on, under `key`.
pub open spec fn member(members: Seq<(String, Json)>, key: Seq<char>, from: int) -> Option<Json>
    decreases members.len() - from,
{
    if from < 0 || from >= members.len() {
        None
    } else if members[from].0@ == key {
        Some(members[from].1)
    } else {
        member(members, key, from + 1)
    }
}

impl Json {
    /// The value under `key`, of an object that has the key.
    pub open spec fn at(self, key: Seq<char>) -> Option<Json> {
        match self {
            Json::Object(members) => member(members@, key, 0),
            _ => None,
        }
    }

    /// The text, of a text.
    pub open spec fn text(self) -> Option<Seq<char>> {
        match self {
            Json::Text(s) => Some(s@),
            _ => None,
        }
    }

    /// The elements, of an array.
    pub open spec fn elements(self) -> Option<Seq<Json>> {
        match self {
            Json::Array(a) => Some(a@),
            _ => None,
        }
    }

    /// The integer, of a number that is one and fits 64 signed bits.
    pub open spec fn integer(self) -> Option<int> {
        match self {
            Json::Number(JsonNumber::Unsigned(n)) if n <= i64::MAX => Some(n as int),
            Json::Number(JsonNumber::Negative(n)) => Some(n as int),
            _ => None,
        }
    }

    /// Reads a document; gives the message of the error where that fails.
    pub fn parse(text: &str) -> (res: Result<Self, String>)
        ensures
            match res {
                Ok(j) => json_read(text@) == Ok::<Json, Seq<char>>(j),
                Err(e) => json_read(text@) == Err::<Json, Seq<char>>(e@),
            },
    {
        parse_json(text)
    }

    /// How the document is written, without spaces.
    pub fn to_text(&self) -> (res: String)
        ensures
            res@ == json_shown(*self),
            reads_back(res@, *self),
    {
        json_text(self)
    }

    /// The value under `key`.
    pub fn get(&self, key: &str) -> (res: Option<&Json>)
        ensures
            match res {
                Some(j) => self.at(key@) == Some(*j),
                None => self.at(key@) is None,
            },
    {
        match self {
            Json::Object(members) => {
                let m: &Vec<(String, Json)> = members;
                let mut i: usize = 0;
                while i < m.len()
                    invariant
                        0 <= i <= m@.len(),
                        self.at(key@) == member(m@, key@, 0),
                        member(m@, key@, 0) == member(m@, key@, i as int),
                    decreases m@.len() - i,
                {
                    if same(m[i].0.as_str(), key) {
                        return Some(&m[i].1);
                    }
                    i = i + 1;
                }
                None
            },
            _ => None,
        }
    }

    /// The text, of a text.
    pub fn as_str(&self) -> (res: Option<&str>)
        ensures
            match res {
                Some(s) => self.text() == Some(s@),
                None => self.text() is None,
            },
    {
        match self {
            Json::Text(s) => Some(s.as_str()),
            _ => None,
        }
    }

    /// The elements, of an array.
    pub fn as_array(&self) -> (res: Option<&Vec<Json>>)
        ensures
            match res {
                Some(v) => self.elements() == Some(v@),
                None => self.elements() is None,
            },
    {
        match self {
            Json::Array(a) => Some(a),
            _ => None,
        }
    }

    /// The integer, of a number that is one and fits 64 signed bits.
    pub fn as_i64(&self) -> (res: Option<i64>)
        ensures
            match res {
                Some(n) => self.integer() == Some(n as int),
                None => self.integer() is None,
            },
    {
        match self {
            Json::Number(JsonNumber::Unsigned(n)) => if *n <= 0x7fff_ffff_ffff_ffff {
                Some(*n as i64)
            } else {
                None
            },
            Json::Number(JsonNumber::Negative(n)) => Some(*n),
            _ => None,
        }
    }
}

/// What reading `text` as a JSON document gives: the document, or the message
/// of the error.
pub uninterp spec fn json_read(text: Seq<char>) -> Result<Json, Seq<char>>;

/// How the document `j` is written, without spaces.
pub uninterp spec fn json_shown(j: Json) -> Seq<char>;

/// A document of `serde_json`, opaque.
#[verifier::external_type_specification]
#[verifier::external_body]
pub struct ExValue(Value);

/// A number of `serde_json`, opaque.
#[verifier::external_type_specification]
#[verifier::external_body]
pub struct ExNumber(serde_json::Number);

/// A number of `serde_json` as a [`JsonNumber`].
#[verifier::external_body]
fn number_to_json(n: serde_json::Number) -> (res: JsonNumber) {
    match (n.as_u64(), n.as_i64()) {
        (Some(u), _) => JsonNumber::Unsigned(u),
        (None, Some(i)) => JsonNumber::Negative(i),
        (None, None) => JsonNumber::Float {
            bits: n.as_f64().map_or(0, |d| d.to_bits()),
            text: n.to_string(),
        },
    }
}

/// A document of `serde_json` as a [`Json`], one value for one value.
#[verifier::external_body]
fn value_to_json(v: Value) -> (res: Json) {
    match v {
        Value::Null => Json::Null,
        Value::Bool(b) => Json::Bool(b),
        Value::Number(n) => Json::Number(number_to_json(n)),
        Value::String(s) => Json::Text(s),
        Value::Array(a) => Json::Array(Arc::new(a.into_iter().map(value_to_json).collect())),
        Value::Object(m) => Json::Object(Arc::new(m.into_iter().map(|(k, v)| (k, value_to_json(v))).collect())),
    }
}

/// A [`Json`] as a document of `serde_json`, one value for one value.
#[verifier::external_body]
fn json_to_value(j: &Json) -> (res: Value) {
    match j {
        Json::Null => Value::Null,
        Json::Bool(b) => Value::Bool(*b),
        Json::Number(n) => Value::Number(match n {
            JsonNumber::Unsigned(u) => (*u).into(),
            JsonNumber::Negative(i) => (*i).into(),
            JsonNumber::Float { text, .. } => text.parse().unwrap_or_else(|_| 0.into()),
        }),
        Json::Text(s) => Value::String(s.clone()),
        Json::Array(a) => Value::Array(a.iter().map(json_to_value).collect()),
        Json::Object(o) => Value::Object(o.iter().map(|(k, v)| (k.clone(), json_to_value(v))).collect()),
    }
}

/// Reads a JSON document.
///
/// Stands for `serde_json::from_str` into a document: which texts are read, as
/// what document, and the message otherwise are named, not described.
#[verifier::external_body]
fn parse_json(text: &str) -> (res: Result<Json, String>)
    ensures
        match res {
            Ok(j) => json_read(text@) == Ok::<Json, Seq<char>>(j),
            Err(e) => json_read(text@) == Err::<Json, Seq<char>>(e@),
        },
{
    match serde_json::from_str(text) {
        Ok(v) => Ok(value_to_json(v)),
        Err(e) => Err(e.to_string()),
    }
}

/// The document holds no number but integers.
pub open spec fn float_free(j: Json) -> bool
    decreases j,
{
    match j {
        Json::Number(JsonNumber::Float { .. }) => false,
        Json::Array(list) => forall|i: int|
            0 <= i < list@.len() ==> float_free(#[trigger] list@[i]),
        Json::Object(members) => forall|i: int|
            0 <= i < members@.len() ==> float_free((#[trigger] members@[i]).1),
        _ => true,
    }
}

/// The document was read from some text.
pub open spec fn was_read(j: Json) -> bool {
    exists|text: Seq<char>| #[trigger] json_read(text) == Ok::<Json, Seq<char>>(j)
}

/// Reading `text` gives `j` back, wherever `j` was read itself and holds no
/// number but integers.
pub open spec fn reads_back(text: Seq<char>, j: Json) -> bool {
    was_read(j) && float_free(j) ==> json_read(text) == Ok::<Json, Seq<char>>(j)
}

/// Writes a JSON document, without spaces.
///
/// Stands for `serde_json::Value::to_string`; the text is named, not described.
/// What was read and is written reads back as it was, unless it holds a number
/// that is no integer: such a number may come back slightly off.
#[verifier::external_body]
fn json_text(j: &Json) -> (res: String)
    ensures
        res@ == json_shown(*j),
        reads_back(res@, *j),
{
    json_to_value(j).to_string()
}

/// What stands under a key is the value of the first member that has it; there is
/// nothing under a key that no member has.
pub proof fn law_member_is_the_first(members: Seq<(String, Json)>, key: Seq<char>, at: int)
    requires
        0 <= at <= members.len(),
        forall|k: int| 0 <= k < at ==> (#[trigger] members[k]).0@ != key,
    ensures
        at < members.len() && members[at].0@ == key ==> member(members, key, 0) == Some(
            members[at].1,
        ),
        at == members.len() ==> member(members, key, 0) is None,
{
    lemma_member_from(members, key, 0, at);
}

proof fn lemma_member_from(members: Seq<(String, Json)>, key: Seq<char>, from: int, at: int)
    requires
        0 <= from <= at <= members.len(),
        forall|k: int| 0 <= k < at ==> (#[trigger] members[k]).0@ != key,
    ensures
        member(members, key, from) == member(members, key, at),
    decreases at - from,
{
    if from < at {
        lemma_member_from(members, key, from + 1, at);
    }
}

/// An integer is read from a number without a fraction that fits, and from nothing
/// else; a text from a text alone; elements from a list alone.
pub proof fn law_values_are_what_they_are(j: Json, n: u64, m: i64)
    ensures
        j == Json::Number(JsonNumber::Unsigned(n)) && n <= 0x7fff_ffff_ffff_ffff ==> j.integer()
            == Some(n as int),
        j == Json::Number(JsonNumber::Unsigned(n)) && n > 0x7fff_ffff_ffff_ffff ==> j.integer()
            is None,
        j == Json::Number(JsonNumber::Negative(m)) ==> j.integer() == Some(m as int),
        !(j is Number) ==> j.integer() is None,
        j matches Json::Number(JsonNumber::Float { .. }) ==> j.integer() is None,
        j.text() is Some <==> j is Text,
        j matches Json::Text(s) ==> j.text() == Some(s@),
        j.elements() is Some <==> j is Array,
        j matches Json::Array(a) ==> j.elements() == Some(a@),
{
}

} // verus!
