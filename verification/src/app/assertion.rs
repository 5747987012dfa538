//! Assertions: predicates over variables that give the steps of a report.

use vstd::prelude::*;
use crate::adapters::pattern::{is_match, is_pattern, pattern_matches, pattern_valid};
use crate::app::context::{has_markup, unrenderable, Context};
use crate::app::error::{Error, ErrorModel};
use crate::app::value::{
    kind_name_of, lemma_array_view, lemma_object_view, lemma_same_reflexive, resolve, same, texts,
    CaptureValue, Scalar, ValueModel,
};

verus! {

/// What an assertion speaks of: a value as it is, a template to render over
/// the variables, or a path into the variables.
#[derive(Debug, Clone, PartialEq, Eq)]
pub enum Variable {
    Value(CaptureValue),
    Template(String),
    Path(Vec<String>),
}

/// A predicate: two variables resolve to equal values, or to unequal ones,
/// or a variable resolves to a string that a regular expression, given as
/// its source, matches.
#[derive(Debug, Clone, PartialEq, Eq)]
pub enum AssertFunction {
    Equal(Variable, Variable),
    NotEqual(Variable, Variable),
    Matches(Variable, String),
}

/// A predicate and the message that names it in the report; the message is
/// a template.
#[derive(Debug, Clone, PartialEq, Eq)]
pub struct Assertion {
    pub message: String,
    pub function: AssertFunction,
}

/// What can be resolved to a value against a context.
pub trait Resolvable {
    fn resolve(&self, ctx: &Context) -> Result<CaptureValue, Error>;
}

/// What can be evaluated as a predicate against a context.
pub trait Assertable {
    fn check(&self, ctx: &Context) -> Result<bool, Error>;
}

/// What resolving gave: a value, or the text of an error.
pub enum Outcome {
    Found(ValueModel),
    Failed(Seq<char>),
}

/// The message of the error for a path that leads nowhere.
pub open spec fn value_not_found() -> Seq<char> {
    "Value not found"@
}

/// The message of the error for two operands that both failed to resolve.
pub open spec fn both_failed(first: Seq<char>, second: Seq<char>) -> Seq<char> {
    "Errors: '"@ + first + "' and '"@ + second + "'"@
}

/// The message of the error for a value that a regular expression cannot be
/// applied to.
pub open spec fn unsupported(kind: Seq<char>) -> Seq<char> {
    "Unsupported value type '"@ + kind + "'"@
}

/// The message of the error for a source that is no regular expression.
pub open spec fn not_a_pattern() -> Seq<char> {
    "Source is not a regular expression"@
}

/// What a variable resolves to where the variables alone decide it: a value
/// as it is, a path to what it selects or to the error of a path that leads
/// nowhere, and a template without markup to itself as a string. What a
/// template with markup resolves to is for the template engine to say.
pub open spec fn resolution(variable: Variable, vars: Seq<(Seq<char>, ValueModel)>) -> Option<Outcome> {
    match variable {
        Variable::Value(value) => Some(Outcome::Found(value@)),
        Variable::Path(path) => Some(
            match resolve(ValueModel::Object(vars), texts(path@)) {
                Some(value) => Outcome::Found(value),
                None => Outcome::Failed(value_not_found()),
            },
        ),
        Variable::Template(template) => if has_markup(template@) {
            None
        } else {
            Some(Outcome::Found(ValueModel::Str(template@)))
        },
    }
}

/// What a result of resolving holds.
pub open spec fn outcome_of(result: Result<CaptureValue, Error>) -> Outcome {
    match result {
        Ok(value) => Outcome::Found(value@),
        Err(e) => Outcome::Failed(e.text()),
    }
}

/// Whether two outcomes are equal values; where one failed, its text, and
/// where both failed, both texts in one message.
pub open spec fn equality(first: Outcome, second: Outcome) -> Result<bool, Seq<char>> {
    match (first, second) {
        (Outcome::Found(a), Outcome::Found(b)) => Ok(same(b, a)),
        (Outcome::Found(_), Outcome::Failed(e)) => Err(e),
        (Outcome::Failed(e), Outcome::Found(_)) => Err(e),
        (Outcome::Failed(e1), Outcome::Failed(e2)) => Err(both_failed(e1, e2)),
    }
}

/// The negation of a verdict; a failure stays as it is.
pub open spec fn negated(verdict: Result<bool, Seq<char>>) -> Result<bool, Seq<char>> {
    match verdict {
        Ok(b) => Ok(!b),
        Err(e) => Err(e),
    }
}

/// Whether the regular expression of a source matches an outcome: a string
/// is matched, any other value is not supported, and a failure stays as it
/// is.
pub open spec fn matching(subject: Outcome, source: Seq<char>) -> Result<bool, Seq<char>> {
    match subject {
        Outcome::Found(ValueModel::Str(text)) => if pattern_valid(source) {
            Ok(pattern_matches(source, text))
        } else {
            Err(not_a_pattern())
        },
        Outcome::Found(other) => Err(unsupported(kind_name_of(other))),
        Outcome::Failed(e) => Err(e),
    }
}

/// What a result of a predicate holds: a verdict, or the text of an
/// `AssertionFailed`.
pub open spec fn holds(result: Result<bool, Error>, verdict: Result<bool, Seq<char>>) -> bool {
    match verdict {
        Ok(b) => result == Ok::<bool, Error>(b),
        Err(text) => result matches Err(e) && e@ == ErrorModel::AssertionFailed(text),
    }
}

/// The verdict of a predicate where the variables alone decide it, that is
/// where none of its operands is a template with markup.
pub open spec fn verdict(function: AssertFunction, vars: Seq<(Seq<char>, ValueModel)>) -> Option<
    Result<bool, Seq<char>>,
> {
    match function {
        AssertFunction::Equal(first, second) => match (resolution(first, vars), resolution(second, vars)) {
            (Some(a), Some(b)) => Some(equality(a, b)),
            _ => None,
        },
        AssertFunction::NotEqual(first, second) => match (
            resolution(first, vars),
            resolution(second, vars),
        ) {
            (Some(a), Some(b)) => Some(negated(equality(a, b))),
            _ => None,
        },
        AssertFunction::Matches(subject, source) => match resolution(subject, vars) {
            Some(a) => Some(matching(a, source@)),
            None => None,
        },
    }
}

/// Builds the message for two operands that both failed to resolve.
fn both_failed_text(first: &str, second: &str) -> (r: String)
    ensures
        r@ == both_failed(first@, second@),
{
    let mut message = String::from_str("Errors: '");
    message.append(first);
    message.append("' and '");
    message.append(second);
    message.append("'");
    message
}

/// Whether two results of resolving hold equal values, or unequal ones
/// where `negate` is set.
pub fn compare(first: &Result<CaptureValue, Error>, second: &Result<CaptureValue, Error>, negate: bool) -> (r:
    Result<bool, Error>)
    ensures
        holds(
            r,
            if negate {
                negated(equality(outcome_of(*first), outcome_of(*second)))
            } else {
                equality(outcome_of(*first), outcome_of(*second))
            },
        ),
{
    match (first, second) {
        (Ok(expected), Ok(to)) => {
            let equal = to.equals(expected);
            Ok(
                if negate {
                    !equal
                } else {
                    equal
                },
            )
        },
        (Ok(_), Err(e)) => Err(Error::AssertionFailed(e.to_string())),
        (Err(e), Ok(_)) => Err(Error::AssertionFailed(e.to_string())),
        (Err(e1), Err(e2)) => Err(
            Error::AssertionFailed(both_failed_text(e1.description(), e2.description())),
        ),
    }
}

/// Whether the regular expression of a source matches a result of
/// resolving.
pub fn matches_pattern(subject: &Result<CaptureValue, Error>, source: &str) -> (r: Result<bool, Error>)
    ensures
        holds(r, matching(outcome_of(*subject), source@)),
{
    match subject {
        Ok(CaptureValue::Scalar(Scalar::Str(text))) => match is_match(source, text.as_str()) {
            Some(found) => Ok(found),
            None => Err(Error::AssertionFailed("Source is not a regular expression".to_owned())),
        },
        Ok(other) => {
            proof {
                match other {
                    CaptureValue::Array(items) => lemma_array_view(*items),
                    CaptureValue::Object(object) => lemma_object_view(*object),
                    _ => {},
                }
            }
            let mut message = String::from_str("Unsupported value type '");
            message.append(other.kind_name());
            message.append("'");
            Err(Error::AssertionFailed(message))
        },
        Err(e) => Err(Error::AssertionFailed(e.to_string())),
    }
}

impl AssertFunction {
    /// The predicate that the regular expression of `source` matches what
    /// `subject` resolves to; `Syntax` where the source is no regular
    /// expression.
    pub fn matches(subject: Variable, source: &str) -> (r: Result<AssertFunction, Error>)
        ensures
            pattern_valid(source@) ==> (r matches Ok(AssertFunction::Matches(variable, pattern))
                && variable == subject && pattern@ == source@),
            !pattern_valid(source@) ==> (r matches Err(Error::Syntax(m)) && m@ == not_a_pattern()),
    {
        if is_pattern(source) {
            Ok(AssertFunction::Matches(subject, source.to_owned()))
        } else {
            Err(Error::Syntax("Source is not a regular expression".to_owned()))
        }
    }
}

impl Variable {
    /// Whether resolving the variable is sure to fail with `Syntax`: it is
    /// a template whose rendering is sure to fail.
    pub open spec fn unrenderable(self, standard: bool) -> bool {
        self matches Variable::Template(template) && unrenderable(template@, standard)
    }
}

impl AssertFunction {
    /// Whether evaluating the predicate is sure to fail with `Syntax`: an
    /// operand is a template whose rendering is sure to fail.
    pub open spec fn unrenderable(self, standard: bool) -> bool {
        match self {
            AssertFunction::Equal(first, second) => first.unrenderable(standard) || second.unrenderable(standard),
            AssertFunction::NotEqual(first, second) => first.unrenderable(standard) || second.unrenderable(
                standard,
            ),
            AssertFunction::Matches(subject, _) => subject.unrenderable(standard),
        }
    }
}

/// The value that a rendered template stands for: the string that it
/// rendered to, or the error of the rendering.
pub fn rendered_value(rendered: Result<String, Error>) -> (r: Result<CaptureValue, Error>)
    ensures
        match rendered {
            Ok(text) => r matches Ok(value) && value@ == ValueModel::Str(text@),
            Err(e) => r == Err::<CaptureValue, Error>(e),
        },
{
    match rendered {
        Ok(text) => Ok(CaptureValue::Scalar(Scalar::Str(text))),
        Err(e) => Err(e),
    }
}

impl Resolvable for Variable {
    /// The value that the variable stands for in a context.
    ///
    /// A value stands for itself. A path stands for what it selects in the
    /// variables, and gives `ValueNotFound` where it leads nowhere. A
    /// template stands for the string that it renders to, and gives `Syntax`
    /// where the template engine reports an error.
    fn resolve(&self, ctx: &Context) -> (r: Result<CaptureValue, Error>)
        ensures
            resolution(*self, ctx.vars()) matches Some(outcome) ==> outcome_of(r) == outcome,
            *self is Path ==> (r matches Err(e) ==> e is ValueNotFound),
            *self is Template ==> (r matches Ok(value) ==> value@ is Str) && (r matches Err(e)
                ==> e is Syntax),
            self.unrenderable(ctx.standard()) ==> r matches Err(Error::Syntax(_)),
    {
        match self {
            Variable::Value(value) => Ok(value.clone()),
            Variable::Path(path) => match ctx.find_path(path) {
                Some(value) => Ok(value),
                None => Err(Error::ValueNotFound("Value not found".to_owned())),
            },
            Variable::Template(template) => rendered_value(ctx.apply(template.as_str())),
        }
    }
}

/// Whether a result of resolving is the error of a template.
pub fn is_template_error(result: &Result<CaptureValue, Error>) -> (r: bool)
    ensures
        r == (*result matches Err(Error::Syntax(_))),
{
    match result {
        Err(Error::Syntax(_)) => true,
        _ => false,
    }
}

/// The error of a template that failed to render, as it goes out of a
/// predicate.
fn template_error(result: Result<CaptureValue, Error>) -> (r: Result<bool, Error>)
    requires
        result matches Err(Error::Syntax(_)),
    ensures
        r matches Err(e) && e is Syntax,
{
    match result {
        Err(e) => Err(e),
        Ok(_) => Ok(false),
    }
}

impl Assertable for AssertFunction {
    /// Evaluates the predicate in a context.
    ///
    /// Where no operand is a template with markup, the result is the
    /// predicate's verdict over the variables, and a failure is an
    /// `AssertionFailed`. Where the template engine reports an error for an
    /// operand, the result is that `Syntax`, of the first such operand.
    fn check(&self, ctx: &Context) -> (r: Result<bool, Error>)
        ensures
            verdict(*self, ctx.vars()) matches Some(v) ==> holds(r, v),
            r matches Err(e) ==> e is AssertionFailed || e is Syntax,
            self.unrenderable(ctx.standard()) ==> r matches Err(Error::Syntax(_)),
    {
        match self {
            AssertFunction::Equal(first, second) => {
                let a = first.resolve(ctx);
                if is_template_error(&a) {
                    return template_error(a);
                }
                let b = second.resolve(ctx);
                if is_template_error(&b) {
                    return template_error(b);
                }
                compare(&a, &b, false)
            },
            AssertFunction::NotEqual(first, second) => {
                let a = first.resolve(ctx);
                if is_template_error(&a) {
                    return template_error(a);
                }
                let b = second.resolve(ctx);
                if is_template_error(&b) {
                    return template_error(b);
                }
                compare(&a, &b, true)
            },
            AssertFunction::Matches(subject, source) => {
                let a = subject.resolve(ctx);
                if is_template_error(&a) {
                    return template_error(a);
                }
                matches_pattern(&a, source.as_str())
            },
        }
    }
}

/// Equal values are equal: the predicate that two values of equal content
/// are equal holds for all variables, and the predicate that they are
/// unequal does not.
pub proof fn lemma_equal_values(first: CaptureValue, second: CaptureValue, vars: Seq<(Seq<char>, ValueModel)>)
    requires
        first@ == second@,
    ensures
        verdict(AssertFunction::Equal(Variable::Value(first), Variable::Value(second)), vars) == Some(
            Ok::<bool, Seq<char>>(true),
        ),
        verdict(AssertFunction::NotEqual(Variable::Value(first), Variable::Value(second)), vars)
            == Some(Ok::<bool, Seq<char>>(false)),
{
    lemma_same_reflexive(first@);
}

/// Where the variables hold a value under a name alone, a path that starts
/// with that name resolves to what the rest of the path selects in the
/// value, and fails where the rest selects nothing.
pub proof fn lemma_path_from_root(root: Seq<char>, value: ValueModel, path: Vec<String>)
    requires
        path@.len() > 0,
        path@[0]@ == root,
    ensures
        resolution(Variable::Path(path), seq![(root, value)]) == Some(
            match resolve(value, texts(path@).skip(1)) {
                Some(found) => Outcome::Found(found),
                None => Outcome::Failed(value_not_found()),
            },
        ),
{
    let vars = seq![(root, value)];
    assert(crate::app::value::is_first(vars, root, 0));
    crate::app::value::lemma_first_index(vars, root, 0);
    assert(texts(path@)[0] == root);
}

/// A path that starts with the name of an entry of an object selects in the
/// object what the rest of the path selects in that entry's value, where no
/// earlier entry has the name.
pub proof fn lemma_path_through_entry(entries: Seq<(Seq<char>, ValueModel)>, i: int, rest: Seq<Seq<char>>)
    requires
        crate::app::value::is_first(entries, entries[i].0, i),
    ensures
        resolve(ValueModel::Object(entries), seq![entries[i].0] + rest) == resolve(entries[i].1, rest),
{
    let path = seq![entries[i].0] + rest;
    crate::app::value::lemma_first_index(entries, entries[i].0, i);
    assert(path[0] == entries[i].0);
    assert(path.skip(1) =~= rest);
}

/// A path that starts with the place of an item of an array, written in
/// base ten, selects in the array what the rest of the path selects in that
/// item.
pub proof fn lemma_path_through_item(items: Seq<ValueModel>, i: nat, rest: Seq<Seq<char>>)
    requires
        i < items.len(),
    ensures
        resolve(ValueModel::Array(items), seq![crate::text::nat_text(i)] + rest) == resolve(
            items[i as int],
            rest,
        ),
{
    let path = seq![crate::text::nat_text(i)] + rest;
    crate::text::lemma_text_reads_back(i);
    assert(path[0] == crate::text::nat_text(i));
    assert(path.skip(1) =~= rest);
}

} // verus!
