//! JSON texts and JSONPath selectors, as `serde_json` and `jsonpath` read
//! them.

use vstd::prelude::*;
use bytes::Buf;
use crate::app::json::{
    json_models, lemma_json_array_view, lemma_json_object_view, member_models, Json, JsonModel,
};
use crate::text::{contains_part, has_short_numbers, holds_part, short_numbers, to_chars};

verus! {

#[verifier::external_type_specification]
#[verifier::external_body]
pub struct ExJsonValue(serde_json::Value);

/// What a `serde_json::Value` holds. A number that `as_i64` yields is a
/// whole number; any other number is the fractional number that `as_f64`
/// yields. The members of an object stand in the order in which its map
/// hands them out.
pub uninterp spec fn document(value: serde_json::Value) -> JsonModel;

/// What `serde_json::from_str` reads from a text: a document, or nothing
/// where the text is no JSON.
pub uninterp spec fn parsed(text: Seq<char>) -> Option<JsonModel>;

/// What `jsonpath::Selector::find` hands out for the selector made of an
/// expression and a document, in the order in which it hands it out.
pub uninterp spec fn selected(expression: Seq<char>, document: JsonModel) -> Seq<JsonModel>;

/// What each of a sequence of `serde_json::Value`s holds.
pub open spec fn documents(values: Seq<serde_json::Value>) -> Seq<JsonModel> {
    Seq::new(values.len(), |i: int| document(values[i]))
}

/// What each of a sequence of an object's members holds.
pub open spec fn member_documents(members: Seq<(&String, &serde_json::Value)>) -> Seq<
    (Seq<char>, JsonModel),
> {
    Seq::new(members.len(), |i: int| (members[i].0@, document(*members[i].1)))
}

/// Calls `serde_json::from_str` for a `serde_json::Value`: the document that
/// the text holds, or `None` where the call reports an error.
#[verifier::external_body]
pub(crate) fn parse(text: &str) -> (r: Option<serde_json::Value>)
    ensures
        r matches Some(value) ==> parsed(text@) == Some(document(value)),
        r is None ==> parsed(text@) is None,
{
    serde_json::from_str::<serde_json::Value>(text).ok()
}

/// Calls `serde_json::Value::is_null`: whether the value is `null`.
#[verifier::external_body]
pub(crate) fn is_null(value: &serde_json::Value) -> (r: bool)
    ensures
        r == (document(*value) is Null),
{
    value.is_null()
}

/// Calls `serde_json::Value::as_bool`: the boolean, where the value is one.
#[verifier::external_body]
pub(crate) fn as_bool(value: &serde_json::Value) -> (r: Option<bool>)
    ensures
        r matches Some(b) ==> document(*value) == JsonModel::Bool(b),
        r is None ==> !(document(*value) is Bool),
{
    value.as_bool()
}

/// Calls `serde_json::Value::as_i64`: the number, where the value is a
/// whole number that fits in 64 bits with a sign.
#[verifier::external_body]
pub(crate) fn as_i64(value: &serde_json::Value) -> (r: Option<i64>)
    ensures
        r matches Some(i) ==> document(*value) == JsonModel::Integer(i as int),
        r is None ==> !(document(*value) is Integer),
{
    value.as_i64()
}

/// Calls `serde_json::Value::as_f64` and takes the bit pattern of what it
/// yields. It yields a number for every JSON number; of a whole number that
/// `as_i64` yields too, nothing is claimed here.
#[verifier::external_body]
pub(crate) fn as_float_bits(value: &serde_json::Value) -> (r: Option<u64>)
    ensures
        document(*value) matches JsonModel::Float(bits) ==> r == Some(bits),
        r is None ==> !(document(*value) is Float),
{
    value.as_f64().map(|x| x.to_bits())
}

/// Calls `serde_json::Value::as_str`: the string, where the value is one.
#[verifier::external_body]
pub(crate) fn as_str(value: &serde_json::Value) -> (r: Option<&str>)
    ensures
        r matches Some(s) ==> document(*value) == JsonModel::Text(s@),
        r is None ==> !(document(*value) is Text),
{
    value.as_str()
}

/// Calls `serde_json::Value::as_array`: the items, where the value is an
/// array.
#[verifier::external_body]
pub(crate) fn as_array(value: &serde_json::Value) -> (r: Option<&Vec<serde_json::Value>>)
    ensures
        r matches Some(items) ==> document(*value) == JsonModel::Array(documents(items@)),
        r is None ==> !(document(*value) is Array),
{
    value.as_array()
}

/// Calls `serde_json::Value::as_object` and `serde_json::Map::iter`: the
/// members in the map's order, where the value is an object.
#[verifier::external_body]
pub(crate) fn members(value: &serde_json::Value) -> (r: Option<Vec<(&String, &serde_json::Value)>>)
    ensures
        r matches Some(entries) ==> document(*value) == JsonModel::Object(
            member_documents(entries@),
        ),
        r is None ==> !(document(*value) is Object),
{
    value.as_object().map(|map| map.iter().collect())
}

/// What `jsonpath::Selector::new` makes of an expression: whether it is a
/// selector.
pub uninterp spec fn selector_valid(expression: Seq<char>) -> bool;

/// Whether `expression` holds, at `i`, the three characters that open a
/// filter on the document's root.
pub open spec fn root_filter_at(expression: Seq<char>, i: int) -> bool {
    &&& 0 <= i
    &&& i + 3 <= expression.len()
    &&& expression[i] == '?'
    &&& expression[i + 1] == '('
    &&& expression[i + 2] == '$'
}

/// Whether `expression` holds, at `i`, a comparison by `<` or `>`.
pub open spec fn order_at(expression: Seq<char>, i: int) -> bool {
    0 <= i < expression.len() && (expression[i] == '<' || expression[i] == '>')
}

/// Whether the numbers of `expression` can be read: it holds no filter,
/// which alone compares with a number, or no number in it has more than 18
/// digits.
pub open spec fn numbers_safe(expression: Seq<char>) -> bool {
    !holds_part(expression, "[?("@) || short_numbers(expression)
}

/// Whether a selector can be made of `expression` and used without the
/// crate giving up: its numbers can be read, and it does not both filter
/// on the document's root and compare by `<` or `>`.
pub open spec fn selector_safe(expression: Seq<char>) -> bool {
    &&& numbers_safe(expression)
    &&& !((exists|i: int| root_filter_at(expression, i)) && (exists|i: int|
        order_at(expression, i)))
}

/// Whether a selector can be made of `expression` and used without the
/// crate giving up.
pub fn is_safe_selector(expression: &str) -> (r: bool)
    ensures
        r == selector_safe(expression@),
{
    if contains_part(expression, "[?(") && !has_short_numbers(expression) {
        return false;
    }
    let chars = to_chars(expression);
    let mut root_filter = false;
    let mut order = false;
    let mut i: usize = 0;
    while i < chars.len()
        invariant
            i <= chars.len(),
            chars@ == expression@,
            root_filter == (exists|k: int| k < i && root_filter_at(chars@, k)),
            order == (exists|k: int| k < i && order_at(chars@, k)),
        decreases chars.len() - i,
    {
        let ghost seen_filter = root_filter;
        let ghost seen_order = order;
        if chars[i] == '<' || chars[i] == '>' {
            order = true;
        }
        if chars[i] == '?' && chars.len() - i > 2 && chars[i + 1] == '(' && chars[i + 2] == '$' {
            root_filter = true;
        }
        proof {
            if order {
                if !seen_order {
                    assert(order_at(chars@, i as int));
                } else {
                    let k = choose|k: int| k < i && order_at(chars@, k);
                    assert(k < i + 1 && order_at(chars@, k));
                }
            } else {
                assert forall|k: int| k < i + 1 implies !order_at(chars@, k) by {}
            }
            if root_filter {
                if !seen_filter {
                    assert(root_filter_at(chars@, i as int));
                } else {
                    let k = choose|k: int| k < i && root_filter_at(chars@, k);
                    assert(k < i + 1 && root_filter_at(chars@, k));
                }
            } else {
                assert forall|k: int| k < i + 1 implies !root_filter_at(chars@, k) by {}
            }
        }
        i += 1;
    }
    proof {
        if root_filter {
            let k = choose|k: int| k < i && root_filter_at(chars@, k);
            assert(root_filter_at(chars@, k));
        }
        if order {
            let k = choose|k: int| k < i && order_at(chars@, k);
            assert(order_at(chars@, k));
        }
    }
    !(root_filter && order)
}

/// Calls `jsonpath::Selector::new`: whether the expression is a selector.
///
/// `new` stops the program on a number too large for 64 bits that a filter
/// compares with: the precondition leaves that out. The place of an item
/// and the bounds of a slice are read with an error in place of a stop.
#[verifier::external_body]
pub(crate) fn is_selector(expression: &str) -> (r: bool)
    requires
        numbers_safe(expression@),
    ensures
        r == selector_valid(expression@),
{
    jsonpath::Selector::new(expression).is_ok()
}

/// Calls `jsonpath::Selector::new` on the expression and `find` on the
/// selector and the document, and copies what is found, in order; `None`
/// where `new` reports an error.
///
/// `new` stops the program on a number too large for 64 bits, and `find` on
/// a comparison by `<` or `>` in a filter on the root: the precondition
/// leaves both out.
#[verifier::external_body]
pub(crate) fn select(expression: &str, root: &serde_json::Value) -> (r: Option<
    Vec<serde_json::Value>,
>)
    requires
        selector_safe(expression@),
    ensures
        r is Some == selector_valid(expression@),
        r matches Some(found) ==> documents(found@) == selected(expression@, document(*root)),
{
    match jsonpath::Selector::new(expression) {
        Ok(selector) => Some(selector.find(root).cloned().collect()),
        Err(_) => None,
    }
}

/// Reads a `serde_json::Value` into a document of the library.
pub(crate) fn read(value: &serde_json::Value) -> (r: Json)
    ensures
        r@ == document(*value),
    decreases document(*value),
{
    if is_null(value) {
        return Json::Null;
    }
    if let Some(b) = as_bool(value) {
        return Json::Bool(b);
    }
    if let Some(i) = as_i64(value) {
        return Json::Integer(i);
    }
    if let Some(s) = as_str(value) {
        return Json::Text(s.to_owned());
    }
    if let Some(items) = as_array(value) {
        let mut out: Vec<Json> = Vec::new();
        let mut i: usize = 0;
        while i < items.len()
            invariant
                i <= items.len(),
                document(*value) == JsonModel::Array(documents(items@)),
                out@.len() == i,
                forall|j: int| 0 <= j < i ==> out@[j]@ == document(items@[j]),
            decreases items.len() - i,
        {
            assert(documents(items@)[i as int] == document(items@[i as int]));
            assert(decreases_to!(document(*value) => document(*value)->Array_0));
            assert(decreases_to!(documents(items@) => documents(items@)[i as int]));
            out.push(read(&items[i]));
            i += 1;
        }
        proof {
            lemma_json_array_view(out);
            assert(json_models(out@) =~= documents(items@));
        }
        return Json::Array(out);
    }
    if let Some(entries) = members(value) {
        let mut out: Vec<(String, Json)> = Vec::new();
        let mut i: usize = 0;
        while i < entries.len()
            invariant
                i <= entries.len(),
                document(*value) == JsonModel::Object(member_documents(entries@)),
                out@.len() == i,
                forall|j: int|
                    0 <= j < i ==> out@[j].0@ == entries@[j].0@ && out@[j].1@ == document(
                        *entries@[j].1,
                    ),
            decreases entries.len() - i,
        {
            assert(member_documents(entries@)[i as int].1 == document(*entries@[i as int].1));
            assert(decreases_to!(document(*value) => document(*value)->Object_0));
            assert(decreases_to!(member_documents(entries@) => member_documents(entries@)[i as int]));
            assert(decreases_to!(member_documents(entries@)[i as int] => member_documents(entries@)[i as int].1));
            let entry = &entries[i];
            out.push((entry.0.clone(), read(entry.1)));
            i += 1;
        }
        proof {
            lemma_json_object_view(out);
            assert(member_models(out@) =~= member_documents(entries@));
        }
        return Json::Object(out);
    }
    match as_float_bits(value) {
        Some(bits) => Json::Float(bits),
        None => Json::Null,
    }
}

/// The JSON text of a string, between its quotes and with what must be
/// escaped escaped, as serde_json writes it.
pub uninterp spec fn string_text(text: Seq<char>) -> Seq<char>;

/// Calls `serde_json::Value::from` on a string and `to_string` on the
/// value: the JSON text of the string.
#[verifier::external_body]
pub(crate) fn write_string(text: &str) -> (r: String)
    ensures
        r@ == string_text(text@),
{
    serde_json::Value::from(text).to_string()
}

/// The JSON text of the fractional number of a bit pattern, as serde_json
/// writes it: `null` where the number is not finite.
pub uninterp spec fn fraction_json(bits: u64) -> Seq<char>;

/// Calls `bytes::Buf::get_f64` on the eight bytes of a bit pattern, most
/// significant first, `serde_json::Value::from` on the fractional number
/// that it yields, and `to_string` on the value.
#[verifier::external_body]
pub(crate) fn write_fraction(bits: u64) -> (r: String)
    ensures
        r@ == fraction_json(bits),
{
    serde_json::Value::from((&bits.to_be_bytes()[..]).get_f64()).to_string()
}

} // verus!
