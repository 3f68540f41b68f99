//! JSON documents as plain data, and their textual form.
//!
//! Reading and writing the text is the work of `serde_json`; what it reads
//! is handed over as a [`Json`] value, which the rest of the crate works on.

use serde_json::{Number, Value};
use vstd::prelude::*;

verus! {

/// A JSON document held as plain data.
///
/// A number is kept in one of three forms: a non-negative integer, a
/// negative integer, or, for any other number, its decimal text.
#[derive(Debug, PartialEq, Eq)]
pub enum Json {
    Null,
    Bool(bool),
    UInt(u64),
    NInt(i64),
    Real(String),
    Text(String),
    List(Vec<Json>),
    Record(Vec<(String, Json)>),
}

/// The mathematical value of a [`Json`] document.
pub enum JsonView {
    Null,
    Bool(bool),
    UInt(u64),
    NInt(i64),
    Real(Seq<char>),
    Text(Seq<char>),
    List(Seq<JsonView>),
    Record(Seq<(Seq<char>, JsonView)>),
}

/// The values of the items of a list.
pub open spec fn list_view(items: Seq<Json>) -> Seq<JsonView>
    decreases items,
{
    Seq::new(
        items.len(),
        |i: int|
            if 0 <= i < items.len() {
                items[i].view()
            } else {
                JsonView::Null
            },
    )
}

/// The values of the entries of a record.
pub open spec fn record_view(fields: Seq<(String, Json)>) -> Seq<(Seq<char>, JsonView)>
    decreases fields,
{
    Seq::new(
        fields.len(),
        |i: int|
            if 0 <= i < fields.len() {
                (fields[i].0@, fields[i].1.view())
            } else {
                (Seq::empty(), JsonView::Null)
            },
    )
}

impl View for Json {
    type V = JsonView;

    open spec fn view(&self) -> JsonView
        decreases self,
    {
        match self {
            Json::Null => JsonView::Null,
            Json::Bool(b) => JsonView::Bool(*b),
            Json::UInt(n) => JsonView::UInt(*n),
            Json::NInt(n) => JsonView::NInt(*n),
            Json::Real(t) => JsonView::Real(t@),
            Json::Text(t) => JsonView::Text(t@),
            Json::List(items) => JsonView::List(list_view(items@)),
            Json::Record(fields) => JsonView::Record(record_view(fields@)),
        }
    }
}

impl JsonView {
    /// Whether every number in the document is an integer.
    pub open spec fn is_plain(self) -> bool
        decreases self,
    {
        match self {
            JsonView::Real(_) => false,
            JsonView::List(items) => forall|i: int|
                0 <= i < items.len() ==> (#[trigger] items[i]).is_plain(),
            JsonView::Record(fields) => forall|i: int|
                0 <= i < fields.len() ==> (#[trigger] fields[i]).1.is_plain(),
            _ => true,
        }
    }
}

/// A copy of the items of a list.
fn copy_list(items: &Vec<Json>) -> (r: Vec<Json>)
    ensures
        list_view(r@) == list_view(items@),
    decreases items,
{
    let mut r: Vec<Json> = Vec::new();
    let mut i: usize = 0;
    while i < items.len()
        invariant
            i <= items.len(),
            r.len() == i,
            forall|j: int| 0 <= j < i ==> r@[j]@ == items@[j]@,
        decreases items.len() - i,
    {
        r.push(items[i].copy());
        i = i + 1;
    }
    assert(list_view(r@) =~= list_view(items@));
    r
}

/// A copy of the entries of a record.
fn copy_record(fields: &Vec<(String, Json)>) -> (r: Vec<(String, Json)>)
    ensures
        record_view(r@) == record_view(fields@),
    decreases fields,
{
    let mut r: Vec<(String, Json)> = Vec::new();
    let mut i: usize = 0;
    while i < fields.len()
        invariant
            i <= fields.len(),
            r.len() == i,
            forall|j: int|
                0 <= j < i ==> r@[j].0@ == fields@[j].0@ && r@[j].1@ == fields@[j].1@,
        decreases fields.len() - i,
    {
        r.push((fields[i].0.clone(), fields[i].1.copy()));
        i = i + 1;
    }
    assert(record_view(r@) =~= record_view(fields@));
    r
}

impl Json {
    /// A copy of the document.
    pub fn copy(&self) -> (r: Json)
        ensures
            r@ == self@,
        decreases self,
    {
        match self {
            Json::Null => Json::Null,
            Json::Bool(b) => Json::Bool(*b),
            Json::UInt(n) => Json::UInt(*n),
            Json::NInt(n) => Json::NInt(*n),
            Json::Real(t) => Json::Real(t.clone()),
            Json::Text(t) => Json::Text(t.clone()),
            Json::List(items) => Json::List(copy_list(items)),
            Json::Record(fields) => Json::Record(copy_record(fields)),
        }
    }
}

impl Clone for Json {
    fn clone(&self) -> (r: Json)
        ensures
            r@ == self@,
    {
        self.copy()
    }
}

/// Where in a text its reading as JSON failed.
#[derive(Clone, Copy, Debug, PartialEq, Eq)]
pub struct JsonTextError {
    /// The line, counted from one.
    pub line: usize,
    /// The column, counted from one.
    pub column: usize,
}

/// `serde_json::Value`: a document as `serde_json` holds it. Nothing is
/// known of what is inside; it is only handed on.
#[verifier::external_type_specification]
#[verifier::external_body]
pub struct ExValue(Value);

/// `serde_json::Error`: why a text could not be read or a document not be
/// written. Nothing is known of what is inside.
#[verifier::external_type_specification]
#[verifier::external_body]
pub struct ExError(serde_json::Error);

/// The document that `serde_json::from_str` reads from a text, if it reads
/// one.
pub uninterp spec fn json_document(text: Seq<char>) -> Option<JsonView>;

/// The text that `serde_json::to_string_pretty` writes for a document, if
/// the document can be written.
pub uninterp spec fn json_rendering(doc: JsonView) -> Option<Seq<char>>;

/// Hands a `serde_json::Value` over as plain data, variant by variant. Of a
/// `serde_json::Number`, `as_u64` gives the non-negative integer, `as_i64`
/// the negative one, and its `Display` the text of any other.
#[verifier::external_body]
fn json_of_value(v: &Value) -> Json {
    match v {
        Value::Null => Json::Null,
        Value::Bool(b) => Json::Bool(*b),
        Value::Number(n) => match (n.as_u64(), n.as_i64()) {
            (Some(u), _) => Json::UInt(u),
            (_, Some(i)) => Json::NInt(i),
            _ => Json::Real(n.to_string()),
        },
        Value::String(s) => Json::Text(s.clone()),
        Value::Array(a) => Json::List(a.iter().map(json_of_value).collect()),
        Value::Object(o) => Json::Record(
            o.iter().map(|(k, x)| (k.clone(), json_of_value(x))).collect(),
        ),
    }
}

/// Makes a `serde_json::Value` of plain data, variant by variant. The text
/// of a number that is no integer is read by `serde_json::Number::from_str`,
/// whose error is handed on.
#[verifier::external_body]
fn value_of_json(j: &Json) -> Result<Value, serde_json::Error> {
    Ok(match j {
        Json::Null => Value::Null,
        Json::Bool(b) => Value::Bool(*b),
        Json::UInt(n) => Value::from(*n),
        Json::NInt(n) => Value::from(*n),
        Json::Real(t) => Value::Number(t.parse::<Number>()?),
        Json::Text(s) => Value::String(s.clone()),
        Json::List(a) => Value::Array(a.iter().map(value_of_json).collect::<Result<_, _>>()?),
        Json::Record(o) => Value::Object(
            o.iter().map(|(k, x)| Ok((k.clone(), value_of_json(x)?))).collect::<Result<_, _>>()?,
        ),
    })
}

/// `serde_json::from_str`, reading a `serde_json::Value`, which is handed
/// over as plain data. What is read depends on the text alone.
#[verifier::external_body]
fn read_document(text: &str) -> (r: Result<Json, serde_json::Error>)
    ensures
        r is Ok <==> json_document(text@) is Some,
        r matches Ok(j) ==> json_document(text@) == Some(j@),
{
    match serde_json::from_str::<Value>(text) {
        Ok(v) => Ok(json_of_value(&v)),
        Err(e) => Err(e),
    }
}

/// `serde_json::to_string_pretty`, writing the `serde_json::Value` made of
/// the document. What is written depends on the document alone, and writing
/// a `serde_json::Value` into a string does not fail: the one error comes
/// from a number's text that is no number.
#[verifier::external_body]
fn write_document(doc: &Json) -> (r: Result<String, serde_json::Error>)
    ensures
        r is Ok <==> json_rendering(doc@) is Some,
        r matches Ok(text) ==> json_rendering(doc@) == Some(text@),
        doc@.is_plain() ==> r is Ok,
{
    match value_of_json(doc) {
        Ok(v) => serde_json::to_string_pretty(&v),
        Err(e) => Err(e),
    }
}

/// `serde_json::Error::line`: the line at which an error was found.
#[verifier::external_body]
fn error_line(e: &serde_json::Error) -> usize {
    e.line()
}

/// `serde_json::Error::column`: the column at which an error was found.
#[verifier::external_body]
fn error_column(e: &serde_json::Error) -> usize {
    e.column()
}

/// Reads a text as a JSON document.
pub fn parse_json(text: &str) -> (r: Result<Json, JsonTextError>)
    ensures
        r is Ok <==> json_document(text@) is Some,
        r matches Ok(j) ==> json_document(text@) == Some(j@),
{
    match read_document(text) {
        Ok(j) => Ok(j),
        Err(e) => Err(JsonTextError { line: error_line(&e), column: error_column(&e) }),
    }
}

/// Writes a JSON document as indented text. A document whose numbers are
/// all integers can always be written.
pub fn render_json(doc: &Json) -> (r: Option<String>)
    ensures
        r is Some <==> json_rendering(doc@) is Some,
        r matches Some(text) ==> json_rendering(doc@) == Some(text@),
        doc@.is_plain() ==> r is Some,
{
    match write_document(doc) {
        Ok(text) => Some(text),
        Err(_) => None,
    }
}

} // verus!
