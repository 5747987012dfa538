//! Templates, as `liquid` renders them.

use vstd::prelude::*;
use bytes::Buf;
use crate::markup::refusal;

verus! {

#[verifier::external_type_specification]
#[verifier::external_body]
pub struct ExTemplateValue(liquid::model::Value);

#[verifier::external_type_specification]
#[verifier::external_body]
pub struct ExParser(liquid::Parser);

/// Whether a parser knows the standard tags, blocks and filters, and no
/// others.
pub uninterp spec fn standard(parser: liquid::Parser) -> bool;

/// Whether `liquid::Parser::parse` of a standard parser accepts a text.
pub uninterp spec fn parses(text: Seq<char>) -> bool;

/// Calls `liquid::ParserBuilder::with_stdlib` and `build`: a parser that
/// knows the standard tags, blocks and filters. `build` reports an error
/// only for partial templates, of which this builder has none, so the
/// default is never taken.
#[verifier::external_body]
pub(crate) fn standard_parser() -> (r: liquid::Parser)
    ensures
        standard(r),
{
    liquid::ParserBuilder::with_stdlib().build().unwrap_or_default()
}

/// The mathematical content of a value of the template engine.
pub enum ScopeModel {
    Nil,
    Integer(int),
    Float(u64),
    Bool(bool),
    Str(Seq<char>),
    Array(Seq<ScopeModel>),
    Object(Map<Seq<char>, ScopeModel>),
}

/// What a `liquid::model::Value` holds: nothing, a whole number, a
/// fractional number as its bit pattern, a boolean, a string, its items in
/// order, or what each name of an object stands for.
pub uninterp spec fn scope_content(value: liquid::model::Value) -> ScopeModel;

/// What each of a sequence of values of the template engine holds.
pub open spec fn scope_contents(items: Seq<liquid::model::Value>) -> Seq<ScopeModel> {
    Seq::new(items.len(), |i: int| scope_content(items[i]))
}

/// Whether no two entries share a name.
pub open spec fn distinct_names(entries: Seq<(String, liquid::model::Value)>) -> bool {
    forall|a: int, b: int|
        0 <= a < b < entries.len() ==> (#[trigger] entries[a]).0@ != (#[trigger] entries[b]).0@
}

/// The map that gives the name of each entry what the entry holds. It is
/// made for entries of distinct names.
pub open spec fn collected(entries: Seq<(String, liquid::model::Value)>) -> Map<Seq<char>, ScopeModel>
    decreases entries.len(),
{
    if entries.len() == 0 {
        Map::empty()
    } else {
        collected(entries.drop_last()).insert(entries.last().0@, scope_content(entries.last().1))
    }
}

/// `liquid::model::Value::Nil`: the value that holds nothing.
#[verifier::external_body]
pub(crate) fn nil() -> (r: liquid::model::Value)
    ensures
        scope_content(r) == ScopeModel::Nil,
{
    liquid::model::Value::Nil
}

/// Calls `liquid::model::Value::scalar` on a whole number: the value that
/// holds it.
#[verifier::external_body]
pub(crate) fn integer(value: i64) -> (r: liquid::model::Value)
    ensures
        scope_content(r) == ScopeModel::Integer(value as int),
{
    liquid::model::Value::scalar(value)
}

/// Calls `bytes::Buf::get_f64` on the eight bytes of a bit pattern, most
/// significant first, and `liquid::model::Value::scalar` on the fractional
/// number that it yields: the value that holds the number of that bit
/// pattern.
#[verifier::external_body]
pub(crate) fn fraction(bits: u64) -> (r: liquid::model::Value)
    ensures
        scope_content(r) == ScopeModel::Float(bits),
{
    liquid::model::Value::scalar((&bits.to_be_bytes()[..]).get_f64())
}

/// Calls `liquid::model::Value::scalar` on a boolean: the value that holds
/// it.
#[verifier::external_body]
pub(crate) fn boolean(value: bool) -> (r: liquid::model::Value)
    ensures
        scope_content(r) == ScopeModel::Bool(value),
{
    liquid::model::Value::scalar(value)
}

/// Calls `liquid::model::Value::scalar` on a copy of a string: the value
/// that holds it.
#[verifier::external_body]
pub(crate) fn string(value: &str) -> (r: liquid::model::Value)
    ensures
        scope_content(r) == ScopeModel::Str(value@),
{
    liquid::model::Value::scalar(value.to_owned())
}

/// `liquid::model::Value::Array` of the items: the value that holds them in
/// order.
#[verifier::external_body]
pub(crate) fn array(items: Vec<liquid::model::Value>) -> (r: liquid::model::Value)
    ensures
        scope_content(r) == ScopeModel::Array(scope_contents(items@)),
{
    liquid::model::Value::Array(items)
}

/// `liquid::model::Value::Object` of the object that `collect` makes of the
/// entries: where their names are distinct, each name stands for what its
/// entry holds. Of entries that share a name nothing is claimed here.
#[verifier::external_body]
pub(crate) fn object(entries: Vec<(String, liquid::model::Value)>) -> (r: liquid::model::Value)
    ensures
        distinct_names(entries@) ==> scope_content(r) == ScopeModel::Object(collected(entries@)),
{
    liquid::model::Value::Object(entries.into_iter().map(|(key, value)| (key.into(), value)).collect())
}

/// Whether a template can be handed to the engine without the engine
/// giving up: there is no reason to refuse it.
pub open spec fn template_safe(text: Seq<char>) -> bool {
    refusal(text) is None
}

/// Calls `liquid::Parser::parse` on the text and `liquid::Template::render`
/// on the template and the scope: the rendered text, or the message of the
/// error that either reports, or an empty message where the scope is no
/// object. A text that a standard parser does not accept gives an error.
///
/// What is rendered may depend on the order in which the engine walks an
/// object, so nothing is claimed of it. The engine stops the program in
/// places that the precondition leaves out:
/// - `parse` reads a whole number too large for 64 bits.
/// - `parse`, where it meets markup that is no markup, reads the text again
///   from the start of that line and stops where this reading succeeds. It
///   cannot where that line's start is plain text: so no markup runs over
///   the end of a line, none opens inside a string, and none stands behind
///   a character outside ASCII on its line, which for an opening with a
///   hyphen is the line on which the spaces before it begin. The same
///   holds where a block takes its content unread, as `raw` and `comment`
///   do.
/// - Filters that compute on numbers without a check, that sort with an
///   order that is none, or that format a date; `tablerow`, `cycle` and a
///   range; the tags that include other templates.
/// The tags and filters that are handed on are those whose source was read
/// and has no such place.
#[verifier::external_body]
pub(crate) fn render(parser: &liquid::Parser, text: &str, scope: &liquid::model::Value) -> (r: Result<
    String,
    String,
>)
    requires
        template_safe(text@),
    ensures
        standard(*parser) && !parses(text@) ==> r is Err,
{
    match (parser.parse(text), liquid::ValueView::as_object(scope)) {
        (Ok(template), Some(globals)) => template.render(globals).map_err(|e| e.to_string()),
        (Err(e), _) => Err(e.to_string()),
        (_, None) => Err(String::new()),
    }
}

} // verus!
