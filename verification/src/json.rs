//! A provider's document as a tree of plain values, and the lookups that
//! fetch a field of a given kind from it or say which field is wrong.

use vstd::prelude::*;
use crate::error::{Error, ErrorView};
use crate::number::{parse_unsigned, unsigned_text};
use crate::json_source::{document_value, json_of_value, read_value, value_json};
use crate::text::{append_text, same_text};

verus! {

/// A JSON value. Of a number the library reads only whether it is an
/// unsigned integer that fits 64 bits, and then which.
#[derive(Debug, PartialEq, Eq)]
pub enum Json {
    Null,
    Bool(bool),
    Number(Option<u64>),
    Str(String),
    Array(Vec<Json>),
    Object(JsonMap),
}

/// The members of a JSON object, each a name and a value. A name that
/// stands twice is found at its first place.
#[derive(Debug, PartialEq, Eq)]
pub struct JsonMap {
    pub entries: Vec<(String, Json)>,
}

/// The tree that a text holds as a JSON document.
pub open spec fn document_json(text: Seq<char>) -> Option<Json> {
    match document_value(text) {
        Some(value) => Some(value_json(value)),
        None => None,
    }
}

/// Reads a JSON document. A text that is none is refused with
/// `DeserializationError`, which carries the parser's message.
pub fn parse_json(text: &str) -> (r: Result<Json, Error>)
    ensures
        match document_json(text@) {
            Some(json) => r matches Ok(got) && got == json,
            None => r matches Err(e) && e@ is DeserializationError,
        },
{
    match read_value(text) {
        Ok(value) => Ok(json_of_value(&value)),
        Err(message) => Err(Error::DeserializationError(message)),
    }
}

/// The value of the first member named `name`.
pub open spec fn find_entry(entries: Seq<(String, Json)>, name: Seq<char>) -> Option<Json>
    decreases entries.len(),
{
    if entries.len() == 0 {
        None
    } else if entries[0].0@ == name {
        Some(entries[0].1)
    } else {
        find_entry(entries.drop_first(), name)
    }
}

impl JsonMap {
    /// The value of the member named `name`.
    pub open spec fn field(&self, name: Seq<char>) -> Option<Json> {
        find_entry(self.entries@, name)
    }

    /// The value of the member named `name`.
    pub fn get(&self, name: &str) -> (r: Option<&Json>)
        ensures
            match self.field(name@) {
                Some(value) => r matches Some(got) && *got == value,
                None => r is None,
            },
    {
        let mut i: usize = 0;
        assert(self.entries@.skip(0) =~= self.entries@);
        while i < self.entries.len()
            invariant
                i <= self.entries.len(),
                self.field(name@) == find_entry(self.entries@.skip(i as int), name@),
            decreases self.entries.len() - i,
        {
            assert(self.entries@.skip(i as int).drop_first() =~= self.entries@.skip(i + 1));
            if same_text(self.entries[i].0.as_str(), name) {
                return Some(&self.entries[i].1);
            }
            i += 1;
        }
        None
    }
}

impl Json {
    /// The value of the member named `name`, where this is an object.
    pub open spec fn member(&self, name: Seq<char>) -> Option<Json> {
        match self {
            Json::Object(map) => map.field(name),
            _ => None,
        }
    }

    /// The value of the member named `name`, where this is an object.
    pub fn get(&self, name: &str) -> (r: Option<&Json>)
        ensures
            match self.member(name@) {
                Some(value) => r matches Some(got) && *got == value,
                None => r is None,
            },
    {
        match self {
            Json::Object(map) => map.get(name),
            _ => None,
        }
    }

    /// Whether this is the string `text`.
    pub open spec fn is_text(&self, text: Seq<char>) -> bool {
        self matches Json::Str(s) && s@ == text
    }

    /// Whether this is the string `text`.
    pub fn equals_text(&self, text: &str) -> (r: bool)
        ensures
            r == self.is_text(text@),
    {
        match self {
            Json::Str(s) => same_text(s.as_str(), text),
            _ => false,
        }
    }
}

/// The failure for a field that is not there.
pub open spec fn not_present(name: Seq<char>) -> ErrorView {
    ErrorView::ParseError(name + " not present"@)
}

/// The failure for a field that is there and is not `kind`.
pub open spec fn not_a(name: Seq<char>, kind: Seq<char>) -> ErrorView {
    ErrorView::ParseError(name + kind)
}

/// The field as an object.
pub open spec fn as_object(found: Option<Json>, name: Seq<char>) -> Result<JsonMap, ErrorView> {
    match found {
        None => Err(not_present(name)),
        Some(Json::Object(map)) => Ok(map),
        Some(_) => Err(not_a(name, " is not an object"@)),
    }
}

/// The field as an array.
pub open spec fn as_array(found: Option<Json>, name: Seq<char>) -> Result<Vec<Json>, ErrorView> {
    match found {
        None => Err(not_present(name)),
        Some(Json::Array(items)) => Ok(items),
        Some(_) => Err(not_a(name, " is not an array"@)),
    }
}

/// The field as a string.
pub open spec fn as_str(found: Option<Json>, name: Seq<char>) -> Result<Seq<char>, ErrorView> {
    match found {
        None => Err(not_present(name)),
        Some(Json::Str(s)) => Ok(s@),
        Some(_) => Err(not_a(name, " is not a string"@)),
    }
}

/// The field as an unsigned integer.
pub open spec fn as_u64(found: Option<Json>, name: Seq<char>) -> Result<u64, ErrorView> {
    match found {
        None => Err(not_present(name)),
        Some(Json::Number(Some(n))) => Ok(n),
        Some(_) => Err(not_a(name, " is not an integer"@)),
    }
}

/// The field as a string that writes an unsigned integer.
pub open spec fn as_u64_str(found: Option<Json>, name: Seq<char>) -> Result<u64, ErrorView> {
    match found {
        None => Err(not_present(name)),
        Some(Json::Str(s)) => match unsigned_text(s@) {
            Some(n) => Ok(n),
            None => Err(not_a(name, " is not an integer from string"@)),
        },
        Some(_) => Err(not_a(name, " is not a string"@)),
    }
}

/// The field as a truth value.
pub open spec fn as_bool(found: Option<Json>, name: Seq<char>) -> Result<bool, ErrorView> {
    match found {
        None => Err(not_present(name)),
        Some(Json::Bool(b)) => Ok(b),
        Some(_) => Err(not_a(name, " is not a bool"@)),
    }
}

/// `r` is the value or the failure that `expected` gives.
pub open spec fn yields<T>(r: Result<T, Error>, expected: Result<T, ErrorView>) -> bool {
    match expected {
        Ok(value) => r matches Ok(got) && got == value,
        Err(e) => r matches Err(got) && got@ == e,
    }
}

/// `r` refers to the value, or is the failure, that `expected` gives.
pub open spec fn yields_ref<T>(r: Result<&T, Error>, expected: Result<T, ErrorView>) -> bool {
    match expected {
        Ok(value) => r matches Ok(got) && *got == value,
        Err(e) => r matches Err(got) && got@ == e,
    }
}

/// `r` is the text, or the failure, that `expected` gives.
pub open spec fn yields_text(r: Result<&str, Error>, expected: Result<Seq<char>, ErrorView>) -> bool {
    match expected {
        Ok(value) => r matches Ok(got) && got@ == value,
        Err(e) => r matches Err(got) && got@ == e,
    }
}

fn missing(name: &str) -> (e: Error)
    ensures
        e@ == not_present(name@),
{
    Error::ParseError(append_text(name, " not present"))
}

fn mismatch(name: &str, kind: &str) -> (e: Error)
    ensures
        e@ == not_a(name@, kind@),
{
    Error::ParseError(append_text(name, kind))
}

fn object_of<'a>(found: Option<&'a Json>, name: &str) -> (r: Result<&'a JsonMap, Error>)
    ensures
        yields_ref(
            r,
            as_object(
                match found {
                    Some(v) => Some(*v),
                    None => None,
                },
                name@,
            ),
        ),
{
    match found {
        None => Err(missing(name)),
        Some(Json::Object(map)) => Ok(map),
        Some(_) => Err(mismatch(name, " is not an object")),
    }
}

fn array_of<'a>(found: Option<&'a Json>, name: &str) -> (r: Result<&'a Vec<Json>, Error>)
    ensures
        yields_ref(
            r,
            as_array(
                match found {
                    Some(v) => Some(*v),
                    None => None,
                },
                name@,
            ),
        ),
{
    match found {
        None => Err(missing(name)),
        Some(Json::Array(items)) => Ok(items),
        Some(_) => Err(mismatch(name, " is not an array")),
    }
}

fn str_of<'a>(found: Option<&'a Json>, name: &str) -> (r: Result<&'a str, Error>)
    ensures
        yields_text(
            r,
            as_str(
                match found {
                    Some(v) => Some(*v),
                    None => None,
                },
                name@,
            ),
        ),
{
    match found {
        None => Err(missing(name)),
        Some(Json::Str(s)) => Ok(s.as_str()),
        Some(_) => Err(mismatch(name, " is not a string")),
    }
}

fn u64_of(found: Option<&Json>, name: &str) -> (r: Result<u64, Error>)
    ensures
        yields(
            r,
            as_u64(
                match found {
                    Some(v) => Some(*v),
                    None => None,
                },
                name@,
            ),
        ),
{
    match found {
        None => Err(missing(name)),
        Some(Json::Number(Some(n))) => Ok(*n),
        Some(_) => Err(mismatch(name, " is not an integer")),
    }
}

fn u64_str_of(found: Option<&Json>, name: &str) -> (r: Result<u64, Error>)
    ensures
        yields(
            r,
            as_u64_str(
                match found {
                    Some(v) => Some(*v),
                    None => None,
                },
                name@,
            ),
        ),
{
    match found {
        None => Err(missing(name)),
        Some(Json::Str(s)) => match parse_unsigned(s.as_str()) {
            Some(n) => Ok(n),
            None => Err(mismatch(name, " is not an integer from string")),
        },
        Some(_) => Err(mismatch(name, " is not a string")),
    }
}

fn bool_of(found: Option<&Json>, name: &str) -> (r: Result<bool, Error>)
    ensures
        yields(
            r,
            as_bool(
                match found {
                    Some(v) => Some(*v),
                    None => None,
                },
                name@,
            ),
        ),
{
    match found {
        None => Err(missing(name)),
        Some(Json::Bool(b)) => Ok(*b),
        Some(_) => Err(mismatch(name, " is not a bool")),
    }
}

/// The object in the member `name` of the value `object`.
pub fn get_object_from_value<'a>(object: &'a Json, name: &str) -> (r: Result<&'a JsonMap, Error>)
    ensures
        yields_ref(r, as_object(object.member(name@), name@)),
{
    object_of(object.get(name), name)
}

/// The array in the member `name` of the value `object`.
pub fn get_array_from_value<'a>(object: &'a Json, name: &str) -> (r: Result<&'a Vec<Json>, Error>)
    ensures
        yields_ref(r, as_array(object.member(name@), name@)),
{
    array_of(object.get(name), name)
}

/// The string in the member `name` of the value `object`.
pub fn get_str_from_value<'a>(object: &'a Json, name: &str) -> (r: Result<&'a str, Error>)
    ensures
        yields_text(r, as_str(object.member(name@), name@)),
{
    str_of(object.get(name), name)
}

/// The unsigned integer in the member `name` of the value `object`.
pub fn get_u64_from_value(object: &Json, name: &str) -> (r: Result<u64, Error>)
    ensures
        yields(r, as_u64(object.member(name@), name@)),
{
    u64_of(object.get(name), name)
}

/// The unsigned integer that the string in the member `name` of the value
/// `object` writes.
pub fn get_u64_str_from_value(object: &Json, name: &str) -> (r: Result<u64, Error>)
    ensures
        yields(r, as_u64_str(object.member(name@), name@)),
{
    u64_str_of(object.get(name), name)
}

/// The object in the member `name`.
pub fn get_object<'a>(object: &'a JsonMap, name: &str) -> (r: Result<&'a JsonMap, Error>)
    ensures
        yields_ref(r, as_object(object.field(name@), name@)),
{
    object_of(object.get(name), name)
}

/// The array in the member `name`.
pub fn get_array<'a>(object: &'a JsonMap, name: &str) -> (r: Result<&'a Vec<Json>, Error>)
    ensures
        yields_ref(r, as_array(object.field(name@), name@)),
{
    array_of(object.get(name), name)
}

/// The string in the member `name`.
pub fn get_str<'a>(object: &'a JsonMap, name: &str) -> (r: Result<&'a str, Error>)
    ensures
        yields_text(r, as_str(object.field(name@), name@)),
{
    str_of(object.get(name), name)
}

/// The unsigned integer in the member `name`.
pub fn get_u64(object: &JsonMap, name: &str) -> (r: Result<u64, Error>)
    ensures
        yields(r, as_u64(object.field(name@), name@)),
{
    u64_of(object.get(name), name)
}

/// The unsigned integer that the string in the member `name` writes.
pub fn get_u64_str(object: &JsonMap, name: &str) -> (r: Result<u64, Error>)
    ensures
        yields(r, as_u64_str(object.field(name@), name@)),
{
    u64_str_of(object.get(name), name)
}

/// The truth value in the member `name`.
pub fn get_bool(object: &JsonMap, name: &str) -> (r: Result<bool, Error>)
    ensures
        yields(r, as_bool(object.field(name@), name@)),
{
    bool_of(object.get(name), name)
}

} // verus!
