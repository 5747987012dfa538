//! Captures: values taken out of a response's body.

use vstd::prelude::*;
use vstd::utf8::{decode_utf8, valid_utf8};
use crate::adapters::json::{
    documents, is_safe_selector, is_selector, parse, parsed, read, select, selected, selector_safe,
    selector_valid,
};
use crate::adapters::pattern::{is_pattern, pattern_valid};
use crate::adapters::text::utf8_text;
use crate::app::error::Error;
use crate::app::json::{collapse, collapsed, json_models, Json};
use crate::app::value::{
    each_name_once, lemma_object_view, put, CaptureValue, Object, ObjectModel, ValueModel,
};

verus! {

/// How a value is taken out of a body: by a JSONPath selector, given as its
/// expression, or by a regular expression, given as its source.
#[derive(Debug, Clone, PartialEq, Eq)]
pub enum Capture {
    Json(String),
    Regex(String),
}

/// A capture and the name of the variable that takes what it finds.
#[derive(Debug, Clone, PartialEq, Eq)]
pub struct CaptureEntry {
    pub cap: Capture,
    pub variable: String,
}

/// Whether `expression` can stand in a capture: a selector can be made of
/// it, and used without the crate giving up.
pub open spec fn usable_selector(expression: Seq<char>) -> bool {
    selector_safe(expression) && selector_valid(expression)
}

/// What a selector captures in a text: nothing where the expression is not
/// usable or the text is no JSON, and else what the found documents
/// collapse to.
pub open spec fn captured_text(expression: Seq<char>, text: Seq<char>) -> ValueModel {
    if !usable_selector(expression) {
        ValueModel::Nil
    } else {
        match parsed(text) {
            Some(document) => collapsed(selected(expression, document)),
            None => ValueModel::Nil,
        }
    }
}

/// What a selector captures in a body: nothing where the body is no UTF-8,
/// and else what it captures in the body's text.
pub open spec fn captured(expression: Seq<char>, body: Seq<u8>) -> ValueModel {
    if valid_utf8(body) {
        captured_text(expression, decode_utf8(body))
    } else {
        ValueModel::Nil
    }
}

/// The message of the error for a capture by a regular expression.
pub open spec fn regex_unsupported() -> Seq<char> {
    "Capture by regular expression is not supported"@
}

/// The message of the error for an expression that is no usable selector.
pub open spec fn not_a_selector() -> Seq<char> {
    "Expression is not a usable JSONPath selector"@
}

/// The message of the error for a source that is no regular expression.
pub open spec fn not_a_pattern() -> Seq<char> {
    "Source is not a regular expression"@
}

/// The entries that a list of captures gives for a body: for each capture by
/// a selector, what it captures under the name of its variable.
pub open spec fn captured_entries(entries: Seq<CaptureEntry>, body: Seq<u8>) -> ObjectModel
    decreases entries.len(),
{
    if entries.len() == 0 {
        Seq::empty()
    } else {
        let front = captured_entries(entries.drop_last(), body);
        match entries.last().cap {
            Capture::Json(expression) => put(front, entries.last().variable@, captured(expression@, body)),
            Capture::Regex(_) => front,
        }
    }
}

impl Capture {
    /// A capture by the selector that `expression` states; `Syntax` where
    /// the expression is no usable selector.
    pub fn json(expression: &str) -> (r: Result<Capture, Error>)
        ensures
            usable_selector(expression@) ==> (r matches Ok(Capture::Json(e)) && e@ == expression@),
            !usable_selector(expression@) ==> (r matches Err(Error::Syntax(m)) && m@ == not_a_selector()),
    {
        if is_safe_selector(expression) && is_selector(expression) {
            Ok(Capture::Json(expression.to_owned()))
        } else {
            Err(Error::Syntax("Expression is not a usable JSONPath selector".to_owned()))
        }
    }

    /// A capture by the regular expression that `source` states; `Syntax`
    /// where the source is no regular expression.
    pub fn regex(source: &str) -> (r: Result<Capture, Error>)
        ensures
            pattern_valid(source@) ==> (r matches Ok(Capture::Regex(s)) && s@ == source@),
            !pattern_valid(source@) ==> (r matches Err(Error::Syntax(m)) && m@ == not_a_pattern()),
    {
        if is_pattern(source) {
            Ok(Capture::Regex(source.to_owned()))
        } else {
            Err(Error::Syntax("Source is not a regular expression".to_owned()))
        }
    }

    /// Takes a value out of a body.
    ///
    /// A selector gives what it captures: nothing where the body is no
    /// UTF-8 or no JSON. A regular expression gives `Internal`.
    pub fn capture(&self, data: &[u8]) -> (r: Result<CaptureValue, Error>)
        ensures
            match *self {
                Capture::Json(expression) => r matches Ok(value) && value@ == captured(
                    expression@,
                    data@,
                ),
                Capture::Regex(_) => r matches Err(Error::Internal(m)) && m@ == regex_unsupported(),
            },
            r matches Ok(value) ==> each_name_once(value@),
    {
        match self {
            Capture::Json(expression) => match utf8_text(data) {
                Some(text) => Ok(capture_json(expression.as_str(), text.as_str())),
                None => Ok(CaptureValue::Nil),
            },
            Capture::Regex(_) => Err(
                Error::Internal("Capture by regular expression is not supported".to_owned()),
            ),
        }
    }

    /// Takes a value out of a text.
    ///
    /// A selector gives what it captures: nothing where the text is no JSON.
    /// A regular expression gives `Internal`.
    pub fn capture_text(&self, data: &str) -> (r: Result<CaptureValue, Error>)
        ensures
            match *self {
                Capture::Json(expression) => r matches Ok(value) && value@ == captured_text(
                    expression@,
                    data@,
                ),
                Capture::Regex(_) => r matches Err(Error::Internal(m)) && m@ == regex_unsupported(),
            },
    {
        match self {
            Capture::Json(expression) => Ok(capture_json(expression.as_str(), data)),
            Capture::Regex(_) => Err(
                Error::Internal("Capture by regular expression is not supported".to_owned()),
            ),
        }
    }
}

/// Reads a JSON text: its document, or `None` where the text is no JSON.
pub fn parse_json(text: &str) -> (r: Option<Json>)
    ensures
        match parsed(text@) {
            Some(document) => r matches Some(json) && json@ == document,
            None => r is None,
        },
{
    match parse(text) {
        Some(value) => Some(read(&value)),
        None => None,
    }
}

/// What the selector that `expression` states captures in `text`.
pub fn capture_json(expression: &str, text: &str) -> (r: CaptureValue)
    ensures
        r@ == captured_text(expression@, text@),
        each_name_once(r@),
{
    if !is_safe_selector(expression) {
        return CaptureValue::Nil;
    }
    let document = match parse(text) {
        Some(document) => document,
        None => {
            return CaptureValue::Nil;
        },
    };
    let found = match select(expression, &document) {
        Some(found) => found,
        None => {
            return CaptureValue::Nil;
        },
    };
    let mut copies: Vec<Json> = Vec::new();
    let mut i: usize = 0;
    while i < found.len()
        invariant
            i <= found.len(),
            copies@.len() == i,
            forall|j: int| 0 <= j < i ==> copies@[j]@ == documents(found@)[j],
        decreases found.len() - i,
    {
        copies.push(read(&found[i]));
        i += 1;
    }
    assert(json_models(copies@) =~= documents(found@));
    collapse(&copies)
}

/// Takes every capture's value out of a body: for each capture by a
/// selector, in order, what it captures is set under the name of its
/// variable. Where the body is no UTF-8 or no JSON, that is nothing. A
/// capture by a regular expression gives no entry.
pub fn capture_each(entries: &Vec<CaptureEntry>, data: &[u8]) -> (r: Object)
    ensures
        r@ == captured_entries(entries@, data@),
        r.well_formed(),
{
    let text = utf8_text(data);
    let mut result = Object::new();
    let mut i: usize = 0;
    assert(entries@.take(0) =~= Seq::<CaptureEntry>::empty());
    while i < entries.len()
        invariant
            i <= entries.len(),
            match text {
                Some(decoded) => valid_utf8(data@) && decoded@ == decode_utf8(data@),
                None => !valid_utf8(data@),
            },
            result@ == captured_entries(entries@.take(i as int), data@),
            result.well_formed(),
        decreases entries.len() - i,
    {
        assert(entries@.take(i + 1).drop_last() =~= entries@.take(i as int));
        assert(entries@.take(i + 1).last() == entries@[i as int]);
        match &entries[i].cap {
            Capture::Json(expression) => {
                let value = match &text {
                    Some(decoded) => capture_json(expression.as_str(), decoded.as_str()),
                    None => CaptureValue::Nil,
                };
                result.insert(entries[i].variable.clone(), value);
            },
            Capture::Regex(_) => {},
        }
        i += 1;
    }
    assert(entries@.take(entries@.len() as int) =~= entries@);
    result
}

/// Takes every capture's value out of a body and gathers them in one
/// object, each under the name of its variable, as [`capture_each`] does.
/// Where the body is no UTF-8 the result is nothing.
pub fn capture_all(entries: &Vec<CaptureEntry>, data: &[u8]) -> (r: CaptureValue)
    ensures
        valid_utf8(data@) ==> r@ == ValueModel::Object(captured_entries(entries@, data@)),
        !valid_utf8(data@) ==> r@ == ValueModel::Nil,
        each_name_once(r@),
{
    match utf8_text(data) {
        Some(_) => {
            let result = capture_each(entries, data);
            proof {
                lemma_object_view(result);
            }
            CaptureValue::Object(result)
        },
        None => CaptureValue::Nil,
    }
}

/// Two captures by one selector in one body give equal values.
pub proof fn lemma_capture_repeats(capture: Capture, body: Seq<u8>, first: CaptureValue, second: CaptureValue)
    requires
        capture matches Capture::Json(expression) && first@ == captured(expression@, body) && second@
            == captured(expression@, body),
    ensures
        first@ == second@,
{
}

/// What can be read as a value of another kind.
pub trait Convert<T> {
    fn convert(&self) -> T;
}

impl Convert<CaptureValue> for Json {
    fn convert(&self) -> (r: CaptureValue)
        ensures
            r@ == crate::app::json::value_of_json(self@),
    {
        Json::convert(self)
    }
}

impl Convert<CaptureValue> for Vec<Json> {
    fn convert(&self) -> (r: CaptureValue)
        ensures
            r@ == collapsed(json_models(self@)),
    {
        collapse(self)
    }
}

} // verus!
