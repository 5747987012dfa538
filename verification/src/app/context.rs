//! The variables that a worker sees, and the pool that workers take them
//! from and give them back to.

use std::sync::Arc;
use vstd::prelude::*;
use crate::adapters::template;
use crate::adapters::template::{
    collected, distinct_names, parses, scope_content, scope_contents, standard, ScopeModel,
};
use crate::app::error::Error;
use crate::app::reversed;
use crate::app::value::{
    each_name_once, lemma_object_view, lookup, merged, put, resolve, texts, CaptureValue, Object,
    ObjectModel, Scalar, ValueModel,
};
use crate::markup::{refusal, refused};
use crate::text::{contains_part, holds_part, same_text};

verus! {

/// A table of a resource: its header, its rows, and how many of them have
/// been handed out. A row that could not be read is `None`.
pub struct RecordSource {
    pub headers: Vec<String>,
    pub rows: Vec<Option<Vec<String>>>,
    pub position: usize,
}

/// The mathematical content of a [`RecordSource`].
pub struct RecordModel {
    pub headers: Seq<Seq<char>>,
    pub rows: Seq<Option<Seq<Seq<char>>>>,
    pub position: nat,
}

/// The rows of a table as character sequences.
pub open spec fn row_models(rows: Seq<Option<Vec<String>>>) -> Seq<Option<Seq<Seq<char>>>> {
    Seq::new(
        rows.len(),
        |i: int|
            match rows[i] {
                Some(cells) => Some(texts(cells@)),
                None => None,
            },
    )
}

impl View for RecordSource {
    type V = RecordModel;

    open spec fn view(&self) -> RecordModel {
        RecordModel {
            headers: texts(self.headers@),
            rows: row_models(self.rows@),
            position: self.position as nat,
        }
    }
}

/// The tables of a context, each under its resource's name.
pub open spec fn record_models(records: Seq<(String, RecordSource)>) -> Seq<(Seq<char>, RecordModel)> {
    Seq::new(records.len(), |i: int| (records[i].0@, records[i].1@))
}

/// The entries that a row gives: each cell under the header of its column,
/// for the columns that both the header and the row have.
pub open spec fn row_entries(headers: Seq<Seq<char>>, cells: Seq<Seq<char>>) -> ObjectModel {
    Seq::new(
        if headers.len() <= cells.len() {
            headers.len()
        } else {
            cells.len()
        },
        |i: int| (headers[i], ValueModel::Str(cells[i])),
    )
}

/// The object that a row is projected to: its entries set one after another.
pub open spec fn row_object(headers: Seq<Seq<char>>, cells: Seq<Seq<char>>) -> ValueModel {
    ValueModel::Object(merged(Seq::empty(), row_entries(headers, cells)))
}

/// Whether a table has a next row and that row could be read.
pub open spec fn has_row(table: RecordModel) -> bool {
    table.position < table.rows.len() && table.rows[table.position as int] is Some
}

/// The variables after one table was advanced: its next row stands under
/// the resource's name; where the table is exhausted or the row could not be
/// read, nothing changes.
pub open spec fn with_row(variables: ObjectModel, name: Seq<char>, table: RecordModel) -> ObjectModel {
    if has_row(table) {
        put(variables, name, row_object(table.headers, table.rows[table.position as int]->0))
    } else {
        variables
    }
}

/// The variables after every table was advanced, in order.
pub open spec fn with_rows(variables: ObjectModel, tables: Seq<(Seq<char>, RecordModel)>) -> ObjectModel
    decreases tables.len(),
{
    if tables.len() == 0 {
        variables
    } else {
        with_row(with_rows(variables, tables.drop_last()), tables.last().0, tables.last().1)
    }
}

/// The names of the tables that give no row, in order: those that are
/// exhausted and those whose next row could not be read.
pub open spec fn without_row(tables: Seq<(Seq<char>, RecordModel)>) -> Seq<Seq<char>>
    decreases tables.len(),
{
    if tables.len() == 0 {
        Seq::empty()
    } else if has_row(tables.last().1) {
        without_row(tables.drop_last())
    } else {
        without_row(tables.drop_last()).push(tables.last().0)
    }
}

/// A table after its next row was handed out: one row further, unless it
/// was exhausted.
pub open spec fn advanced(table: RecordModel) -> RecordModel {
    RecordModel {
        position: if table.position < table.rows.len() {
            table.position + 1
        } else {
            table.position
        },
        ..table
    }
}

/// The variables and tables of a worker. The variables start as the pool's
/// globals with the run's own variables set over them. No two tables share
/// a name.
pub struct Context {
    parser: Arc<liquid::Parser>,
    variables: Object,
    records: Vec<(String, RecordSource)>,
}

/// The variables that every worker starts from, the variables of each run,
/// and the files of the resources. Workers share it under a lock. No two
/// resources share a name, and each run has its variables once.
pub struct ContextPool {
    globals: Object,
    contextual: Vec<(u128, Object)>,
    parser: Arc<liquid::Parser>,
    resources: Vec<(String, String)>,
}

/// Whether no two of the named things bear one name.
pub open spec fn named_once<V>(items: Seq<(Seq<char>, V)>) -> bool {
    forall|i: int, j: int| 0 <= i < j < items.len() ==> (#[trigger] items[i]).0 != (#[trigger] items[j]).0
}

/// The first place at or behind `from` where a thing is named `name`, or
/// the number of things where none is.
pub open spec fn place_of<V>(items: Seq<(Seq<char>, V)>, name: Seq<char>, from: int) -> int
    decreases items.len() - from,
{
    if from >= items.len() {
        items.len() as int
    } else if items[from].0 == name {
        from
    } else {
        place_of(items, name, from + 1)
    }
}

/// The named things after `name` is given `thing`: it takes the place of
/// the thing of that name; where there is none, it stands last.
pub open spec fn with_item<V>(items: Seq<(Seq<char>, V)>, name: Seq<char>, thing: V) -> Seq<(Seq<char>, V)> {
    let at = place_of(items, name, 0);
    if at < items.len() {
        items.update(at, (name, thing))
    } else {
        items.push((name, thing))
    }
}

/// The named things after each of `more` was given its name, in order.
pub open spec fn with_items<V>(items: Seq<(Seq<char>, V)>, more: Seq<(Seq<char>, V)>) -> Seq<(Seq<char>, V)>
    decreases more.len(),
{
    if more.len() == 0 {
        items
    } else {
        with_item(with_items(items, more.drop_last()), more.last().0, more.last().1)
    }
}

/// Where nothing from `from` on is named `name`, the name has no place.
pub proof fn lemma_no_place<V>(items: Seq<(Seq<char>, V)>, name: Seq<char>, from: int)
    requires
        0 <= from,
        forall|k: int| from <= k < items.len() ==> (#[trigger] items[k]).0 != name,
    ensures
        place_of(items, name, from) == items.len(),
    decreases items.len() - from,
{
    if from < items.len() {
        lemma_no_place(items, name, from + 1);
    }
}

/// The place of a name is where the first thing of that name stands.
pub proof fn lemma_place<V>(items: Seq<(Seq<char>, V)>, name: Seq<char>, from: int, at: int)
    requires
        0 <= from <= at < items.len(),
        items[at].0 == name,
        forall|k: int| from <= k < at ==> (#[trigger] items[k]).0 != name,
    ensures
        place_of(items, name, from) == at,
    decreases at - from,
{
    if from < at {
        assert(items[from].0 != name);
        lemma_place(items, name, from + 1, at);
    }
}

/// Giving a name to a thing leaves no name twice where none stood twice.
pub proof fn lemma_with_item_distinct<V>(items: Seq<(Seq<char>, V)>, name: Seq<char>, thing: V)
    requires
        named_once(items),
    ensures
        named_once(with_item(items, name, thing)),
{
    let at = place_of(items, name, 0);
    let after = with_item(items, name, thing);
    lemma_place_is_first(items, name, 0);
    assert forall|i: int, j: int| 0 <= i < j < after.len() implies (#[trigger] after[i]).0 != (
    #[trigger] after[j]).0 by {
        if at < items.len() {
            assert(after[i].0 == items[i].0 && after[j].0 == items[j].0);
        } else if j < items.len() {
            assert(after[i] == items[i] && after[j] == items[j]);
        } else {
            assert(after[i] == items[i]);
        }
    }
}

/// What stands at the place of a name bears it, and nothing between `from`
/// and that place does.
pub proof fn lemma_place_is_first<V>(items: Seq<(Seq<char>, V)>, name: Seq<char>, from: int)
    requires
        0 <= from,
    ensures
        from <= place_of(items, name, from) || place_of(items, name, from) == items.len(),
        place_of(items, name, from) <= items.len() || from > items.len(),
        place_of(items, name, from) < items.len() ==> items[place_of(items, name, from)].0 == name,
        forall|k: int| from <= k < place_of(items, name, from) && k < items.len() ==> (#[trigger] items[k]).0 != name,
    decreases items.len() - from,
{
    if from < items.len() && items[from].0 != name {
        lemma_place_is_first(items, name, from + 1);
    }
}

/// Named things of which no two bear one name stay as they are when each
/// is given its name in order.
pub proof fn lemma_distinct_stay<V>(items: Seq<(Seq<char>, V)>)
    requires
        named_once(items),
    ensures
        with_items(Seq::empty(), items) == items,
    decreases items.len(),
{
    if items.len() > 0 {
        let front = items.drop_last();
        assert(named_once(front)) by {
            assert forall|i: int, j: int| 0 <= i < j < front.len() implies (#[trigger] front[i]).0 != (
            #[trigger] front[j]).0 by {
                assert(front[i] == items[i] && front[j] == items[j]);
            }
        }
        lemma_distinct_stay(front);
        assert forall|k: int| 0 <= k < front.len() implies (#[trigger] front[k]).0 != items.last().0 by {
            assert(front[k] == items[k]);
            assert(items[k].0 != items[items.len() - 1].0);
        }
        lemma_no_place(front, items.last().0, 0);
        assert(front.push(items.last()) =~= items);
    } else {
        assert(items =~= Seq::empty());
    }
}

/// Whatever named things are given their names in order, no two of the
/// result bear one name.
pub proof fn lemma_with_items_distinct<V>(more: Seq<(Seq<char>, V)>)
    ensures
        named_once(with_items(Seq::empty(), more)),
    decreases more.len(),
{
    if more.len() > 0 {
        lemma_with_items_distinct(more.drop_last());
        lemma_with_item_distinct(with_items(Seq::empty(), more.drop_last()), more.last().0, more.last().1);
    }
}

/// The names and paths of files as character sequences.
pub open spec fn file_models(files: Seq<(String, String)>) -> Seq<(Seq<char>, Seq<char>)> {
    Seq::new(files.len(), |i: int| (files[i].0@, files[i].1@))
}

/// Whether no two runs bear one id.
pub open spec fn distinct_runs(contextual: Seq<(u128, Object)>) -> bool {
    forall|i: int, j: int|
        0 <= i < j < contextual.len() ==> (#[trigger] contextual[i]).0 != (#[trigger] contextual[j]).0
}

/// Where no two runs bear one id, the variables kept for a run are those
/// of the one entry that bears its id.
pub proof fn lemma_scoped_entry(contextual: Seq<(u128, Object)>, i: int)
    requires
        distinct_runs(contextual),
        0 <= i < contextual.len(),
    ensures
        scoped(contextual, contextual[i].0) == contextual[i].1@,
    decreases contextual.len(),
{
    if i < contextual.len() - 1 {
        let front = contextual.drop_last();
        assert(contextual[i].0 != contextual[contextual.len() - 1].0);
        assert(distinct_runs(front)) by {
            assert forall|a: int, b: int| 0 <= a < b < front.len() implies (#[trigger] front[a]).0 != (
            #[trigger] front[b]).0 by {
                assert(front[a] == contextual[a] && front[b] == contextual[b]);
            }
        }
        assert(front[i] == contextual[i]);
        lemma_scoped_entry(front, i);
    }
}

/// Entries that bear the same ids, and hold the same but under one id,
/// keep the same variables for every other id.
pub proof fn lemma_scoped_elsewhere(first: Seq<(u128, Object)>, second: Seq<(u128, Object)>, id: u128, other: u128)
    requires
        first.len() == second.len(),
        forall|k: int| 0 <= k < first.len() ==> (#[trigger] first[k]).0 == second[k].0,
        forall|k: int| 0 <= k < first.len() && first[k].0 != id ==> (#[trigger] first[k]).1@ == second[k].1@,
        other != id,
    ensures
        scoped(first, other) == scoped(second, other),
    decreases first.len(),
{
    if first.len() > 0 {
        let n = first.len() - 1;
        assert(first[n].0 == second[n].0);
        if first.last().0 == other {
            assert(first[n].1@ == second[n].1@);
        } else {
            let a = first.drop_last();
            let b = second.drop_last();
            assert forall|k: int| 0 <= k < a.len() implies (#[trigger] a[k]).0 == b[k].0 by {
                assert(a[k] == first[k] && b[k] == second[k]);
            }
            assert forall|k: int| 0 <= k < a.len() && a[k].0 != id implies (#[trigger] a[k]).1@ == b[k].1@ by {
                assert(a[k] == first[k] && b[k] == second[k]);
            }
            lemma_scoped_elsewhere(a, b, id, other);
        }
    }
}

/// The variables that a pool keeps for a run: those that were pushed last
/// for its id, or none.
pub open spec fn scoped(contextual: Seq<(u128, Object)>, id: u128) -> ObjectModel
    decreases contextual.len(),
{
    if contextual.len() == 0 {
        Seq::empty()
    } else if contextual.last().0 == id {
        contextual.last().1@
    } else {
        scoped(contextual.drop_last(), id)
    }
}

/// What a rendering is taken for: the text where the engine rendered one,
/// and a syntax error with the engine's message where it reported one.
pub fn rendering(outcome: Result<String, String>) -> (r: Result<String, Error>)
    ensures
        match outcome {
            Ok(text) => r == Ok::<String, Error>(text),
            Err(message) => r == Err::<String, Error>(Error::Syntax(message)),
        },
{
    match outcome {
        Ok(text) => Ok(text),
        Err(message) => Err(Error::Syntax(message)),
    }
}

/// Whether a text holds markup of a template: two opening braces in a row,
/// or an opening brace and a percent sign.
pub open spec fn has_markup(text: Seq<char>) -> bool {
    holds_part(text, "{{"@) || holds_part(text, "{%"@)
}

/// Whether rendering a text is sure to fail: it holds markup, and in it
/// what the engine is not handed, or, where the parser is a standard one,
/// what that parser does not accept.
pub open spec fn unrenderable(text: Seq<char>, standard: bool) -> bool {
    has_markup(text) && (refusal(text) is Some || (standard && !parses(text)))
}

/// What the template engine is to hold for a value: the same, but that an
/// object is what each of its names stands for.
pub open spec fn scope_of(value: ValueModel) -> ScopeModel
    decreases value, 0nat,
{
    match value {
        ValueModel::Nil => ScopeModel::Nil,
        ValueModel::Integer(i) => ScopeModel::Integer(i),
        ValueModel::Float(bits) => ScopeModel::Float(bits),
        ValueModel::Bool(b) => ScopeModel::Bool(b),
        ValueModel::Str(s) => ScopeModel::Str(s),
        ValueModel::Array(items) => ScopeModel::Array(scopes_of(items)),
        ValueModel::Object(entries) => ScopeModel::Object(scope_entries(entries, entries.len())),
    }
}

/// What the template engine is to hold for each of a sequence of values.
pub open spec fn scopes_of(items: Seq<ValueModel>) -> Seq<ScopeModel>
    decreases items, 0nat,
{
    Seq::new(
        items.len(),
        |i: int|
            if 0 <= i < items.len() {
                scope_of(items[i])
            } else {
                ScopeModel::Nil
            },
    )
}

/// What each name among the first `n` entries of an object stands for: what
/// the template engine is to hold for the value of the first entry of that
/// name.
pub open spec fn scope_entries(entries: ObjectModel, n: nat) -> Map<Seq<char>, ScopeModel>
    decreases entries, n,
{
    if n == 0 || n > entries.len() {
        Map::empty()
    } else {
        let front = scope_entries(entries, (n - 1) as nat);
        if front.dom().contains(entries[n - 1].0) {
            front
        } else {
            front.insert(entries[n - 1].0, scope_of(entries[n - 1].1))
        }
    }
}

/// The names that stand for something among the first `n` entries of an
/// object are the names of those entries.
pub proof fn lemma_scope_names(entries: ObjectModel, n: nat, key: Seq<char>)
    requires
        n <= entries.len(),
    ensures
        scope_entries(entries, n).dom().contains(key) <==> exists|j: int|
            0 <= j < n && (#[trigger] entries[j]).0 == key,
    decreases n,
{
    if n > 0 {
        lemma_scope_names(entries, (n - 1) as nat, key);
        lemma_scope_names(entries, (n - 1) as nat, entries[n - 1].0);
        if exists|j: int| 0 <= j < n && (#[trigger] entries[j]).0 == key {
            let j = choose|j: int| 0 <= j < n && (#[trigger] entries[j]).0 == key;
            if j < n - 1 {
                assert(entries[j].0 == key);
            }
        }
        if scope_entries(entries, n).dom().contains(key) {
            if key == entries[n - 1].0 {
                assert(entries[n - 1].0 == key);
            } else {
                let j = choose|j: int| 0 <= j < n - 1 && (#[trigger] entries[j]).0 == key;
                assert(entries[j].0 == key);
            }
        }
    }
}

/// Builds the template engine's form of a value.
fn scope_value(value: &CaptureValue) -> (r: liquid::model::Value)
    ensures
        scope_content(r) == scope_of(value@),
    decreases value,
{
    match value {
        CaptureValue::Nil => template::nil(),
        CaptureValue::Scalar(Scalar::Integer(i)) => template::integer(*i),
        CaptureValue::Scalar(Scalar::Float(bits)) => template::fraction(*bits),
        CaptureValue::Scalar(Scalar::Bool(b)) => template::boolean(*b),
        CaptureValue::Scalar(Scalar::Str(s)) => template::string(s.as_str()),
        CaptureValue::Array(items) => {
            let mut out: Vec<liquid::model::Value> = Vec::new();
            let mut i: usize = 0;
            while i < items.len()
                invariant
                    i <= items.len(),
                    *value == CaptureValue::Array(*items),
                    out@.len() == i,
                    forall|j: int| 0 <= j < i ==> scope_content(#[trigger] out@[j]) == scope_of(items@[j]@),
                decreases items.len() - i,
            {
                assert(decreases_to!(*value => value->Array_0));
                assert(decreases_to!(*items => items[i as int]));
                out.push(scope_value(&items[i]));
                i += 1;
            }
            proof {
                crate::app::value::lemma_array_view(*items);
                assert(scope_contents(out@) =~= scopes_of(crate::app::value::models(items@)));
            }
            template::array(out)
        },
        CaptureValue::Object(object) => {
            proof {
                lemma_object_view(*object);
            }
            scope_object(object)
        },
    }
}

/// Builds the template engine's form of an object: of the entries of one
/// name, the first goes in, as it is the one that a lookup finds.
fn scope_object(object: &Object) -> (r: liquid::model::Value)
    ensures
        scope_content(r) == ScopeModel::Object(scope_entries(object@, object@.len())),
    decreases object,
{
    let mut out: Vec<(String, liquid::model::Value)> = Vec::new();
    let entries = object.entries();
    let mut i: usize = 0;
    while i < entries.len()
        invariant
            i <= entries.len(),
            entries@ == object.pairs(),
            collected(out@) == scope_entries(object@, i as nat),
            distinct_names(out@),
            forall|a: int| 0 <= a < out@.len() ==> collected(out@).dom().contains((#[trigger] out@[a]).0@),
        decreases entries.len() - i,
    {
        proof {
            object.lemma_entry_is_part(i as int);
        }
        let entry = &entries[i];
        let ghost key = object@[i as int].0;
        let ghost before = out@;
        proof {
            assert(key == entry.0@);
            lemma_scope_names(object@, i as nat, key);
            crate::app::value::lemma_has_some_key(object@, key, i as int);
        }
        match object.position(entry.0.as_str()) {
            Some(first) => {
                if first == i {
                    let held = scope_value(&entry.1);
                    out.push((entry.0.clone(), held));
                    proof {
                        assert(out@.drop_last() =~= before);
                        assert(!scope_entries(object@, i as nat).dom().contains(key)) by {
                            if exists|j: int| 0 <= j < i && (#[trigger] object@[j]).0 == key {
                                let j = choose|j: int| 0 <= j < i && (#[trigger] object@[j]).0 == key;
                                assert(object@[j].0 != key);
                            }
                        }
                        assert forall|a: int, b: int| 0 <= a < b < out@.len() implies (#[trigger] out@[a]).0@
                            != (#[trigger] out@[b]).0@ by {
                            assert(out@[a] == before[a]);
                            if b < before.len() {
                                assert(out@[b] == before[b]);
                            } else {
                                assert(collected(before).dom().contains(before[a].0@));
                            }
                        }
                        assert forall|a: int| 0 <= a < out@.len() implies collected(out@).dom().contains(
                            (#[trigger] out@[a]).0@,
                        ) by {
                            if a < before.len() {
                                assert(out@[a] == before[a]);
                                assert(collected(before).dom().contains(before[a].0@));
                            }
                        }
                    }
                } else {
                    proof {
                        if first > i {
                            assert(object@[i as int].0 != key);
                        }
                        assert(object@[first as int].0 == key);
                    }
                }
            },
            None => {},
        }
        i += 1;
    }
    template::object(out)
}

impl Context {
    /// No two tables share a name.
    #[verifier::type_invariant]
    spec fn distinct(self) -> bool {
        named_once(record_models(self.records@))
    }

    /// Whether the parser of the context knows the standard tags, blocks
    /// and filters, and no others: every context that a pool makes has such
    /// a parser.
    pub closed spec fn standard(&self) -> bool {
        standard(*self.parser)
    }

    /// The variables of the context.
    pub closed spec fn vars(&self) -> ObjectModel {
        self.variables@
    }

    /// The tables of the context, each under its resource's name.
    pub closed spec fn tables(&self) -> Seq<(Seq<char>, RecordModel)> {
        record_models(self.records@)
    }

    /// The variables of the context.
    pub fn variables(&self) -> (r: &Object)
        ensures
            r@ == self.vars(),
    {
        &self.variables
    }

    /// Renders `body` as a template over the variables.
    ///
    /// A text without markup, that is without `{{` and `{%`, renders to
    /// itself. A text whose markup holds what the engine is not handed, as
    /// [`refusal`] says, gives `Syntax` with the reason. Of any other text the template
    /// engine says whether it is well formed and what it renders to; its
    /// error comes back as `Syntax` with its message, and it is owed where
    /// the text does not parse.
    pub fn apply(&self, body: &str) -> (r: Result<String, Error>)
        ensures
            !has_markup(body@) ==> (r matches Ok(text) && text@ == body@),
            has_markup(body@) ==> match refusal(body@) {
                Some(reason) => r matches Err(Error::Syntax(message)) && message@ == reason,
                None => self.standard() && !parses(body@) ==> r is Err,
            },
            r matches Err(e) ==> e is Syntax,
    {
        if !contains_part(body, "{{") && !contains_part(body, "{%") {
            return Ok(body.to_owned());
        }
        match refused(body) {
            Some(reason) => {
                return Err(Error::Syntax(reason));
            },
            None => {},
        }
        let scope = scope_object(&self.variables);
        rendering(template::render(&self.parser, body, &scope))
    }

    /// Sets every entry of `vars` in the variables, in order.
    pub fn push_vars(&mut self, vars: &Object)
        ensures
            final(self).vars() == merged(old(self).vars(), vars@),
            final(self).tables() == old(self).tables(),
            final(self).standard() == old(self).standard(),
    {
        proof {
            use_type_invariant(&*self);
        }
        let mut variables = Object::new();
        std::mem::swap(&mut self.variables, &mut variables);
        variables.extend(vars);
        self.variables = variables;
    }

    /// Sets one variable.
    pub fn set(&mut self, name: String, value: CaptureValue)
        ensures
            final(self).vars() == put(old(self).vars(), name@, value@),
            final(self).tables() == old(self).tables(),
            final(self).standard() == old(self).standard(),
    {
        proof {
            use_type_invariant(&*self);
        }
        let mut variables = Object::new();
        std::mem::swap(&mut self.variables, &mut variables);
        variables.insert(name, value);
        self.variables = variables;
    }

    /// What a path selects in the variables, as a copy: the first segment
    /// names a variable, each further one an entry of an object or an index
    /// of an array. `None` where the path leads nowhere.
    pub fn find_path(&self, path: &Vec<String>) -> (r: Option<CaptureValue>)
        ensures
            r matches Some(v) ==> resolve(ValueModel::Object(self.vars()), texts(path@)) == Some(v@),
            r is None ==> resolve(ValueModel::Object(self.vars()), texts(path@)) is None,
    {
        let ghost segments = texts(path@);
        let ghost root = ValueModel::Object(self.vars());
        if path.len() == 0 {
            let copy = self.variables.clone();
            proof {
                lemma_object_view(copy);
            }
            return Some(CaptureValue::Object(copy));
        }
        assert(segments[0] == path@[0]@);
        match self.variables.get(path[0].as_str()) {
            None => None,
            Some(first) => first.find_from(path, 1),
        }
    }

    /// Advances every table by one row and sets, under each resource's name,
    /// the object that its row is projected to. A table that is exhausted,
    /// and a row that could not be read, leave that variable as it is; the
    /// names of those tables are handed back.
    pub fn next(&mut self) -> (r: Vec<String>)
        ensures
            texts(r@) == without_row(old(self).tables()),
            final(self).vars() == with_rows(old(self).vars(), old(self).tables()),
            final(self).standard() == old(self).standard(),
            final(self).tables().len() == old(self).tables().len(),
            forall|i: int|
                0 <= i < old(self).tables().len() ==> (#[trigger] final(self).tables()[i]) == (
                    old(self).tables()[i].0,
                    advanced(old(self).tables()[i].1),
                ),
    {
        proof {
            use_type_invariant(&*self);
        }
        let ghost before = self.tables();
        let mut records: Vec<(String, RecordSource)> = Vec::new();
        std::mem::swap(&mut self.records, &mut records);
        let mut variables = Object::new();
        std::mem::swap(&mut self.variables, &mut variables);
        let idle = advance(&mut records, &mut variables);
        self.variables = variables;
        proof {
            let after = record_models(records@);
            assert forall|i: int, j: int| 0 <= i < j < after.len() implies (#[trigger] after[i]).0 != (
            #[trigger] after[j]).0 by {
                assert(after[i].0 == before[i].0 && after[j].0 == before[j].0);
            }
        }
        self.records = records;
        idle
    }
}

/// Advances every table by one row and sets, under each table's name, the
/// object that its row is projected to; hands back the names of the tables
/// that gave no row.
fn advance(records: &mut Vec<(String, RecordSource)>, variables: &mut Object) -> (r: Vec<String>)
    ensures
        texts(r@) == without_row(record_models(old(records)@)),
        final(variables)@ == with_rows(old(variables)@, record_models(old(records)@)),
        final(records)@.len() == old(records)@.len(),
        forall|i: int|
            0 <= i < old(records)@.len() ==> (#[trigger] record_models(final(records)@)[i]) == (
                record_models(old(records)@)[i].0,
                advanced(record_models(old(records)@)[i].1),
            ),
{
    let ghost before = record_models(records@);
    let ghost start = variables@;
    let mut idle: Vec<String> = Vec::new();
    let mut i: usize = 0;
    assert(before.take(0) =~= Seq::empty());
    assert(texts(idle@) =~= Seq::<Seq<char>>::empty());
    while i < records.len()
        invariant
            i <= records.len(),
            texts(idle@) == without_row(before.take(i as int)),
            records@.len() == before.len(),
            variables@ == with_rows(start, before.take(i as int)),
            forall|k: int|
                0 <= k < i ==> (#[trigger] record_models(records@)[k]) == (before[k].0, advanced(before[k].1)),
            forall|k: int| i <= k < before.len() ==> (#[trigger] record_models(records@)[k]) == before[k],
        decreases records.len() - i,
    {
        let ghost tables_now = record_models(records@);
        assert(before.take(i + 1).drop_last() =~= before.take(i as int));
        assert(before.take(i + 1).last() == before[i as int]);
        assert(tables_now[i as int] == before[i as int]);
        let ghost table = records@[i as int].1@;
        let ghost idle_before = idle@;
        let position = records[i].1.position;
        if position < records[i].1.rows.len() {
            let row: Option<CaptureValue> = match &records[i].1.rows[position] {
                Some(cells) => Some(project(&records[i].1.headers, cells)),
                None => None,
            };
            let name = records[i].0.clone();
            let mut entry = take_record(records, i);
            entry.1.position = position + 1;
            put_record(records, i, entry);
            match row {
                Some(value) => {
                    variables.insert(name, value);
                },
                None => {
                    idle.push(name);
                    assert(texts(idle@) =~= texts(idle_before).push(before[i as int].0));
                },
            }
        } else {
            idle.push(records[i].0.clone());
            assert(texts(idle@) =~= texts(idle_before).push(before[i as int].0));
        }
        proof {
            let after = record_models(records@);
            assert(after[i as int] == (before[i as int].0, advanced(before[i as int].1))) by {
                assert(after[i as int].1.headers =~= table.headers);
                assert(after[i as int].1.rows =~= table.rows);
            }
            assert forall|k: int| 0 <= k < i implies (#[trigger] after[k]) == (before[k].0, advanced(before[k].1)) by {
                assert(after[k] == tables_now[k]);
            }
            assert forall|k: int| i < k < before.len() implies (#[trigger] after[k]) == before[k] by {
                assert(after[k] == tables_now[k]);
            }
        }
        i += 1;
    }
    assert(before.take(before.len() as int) =~= before);
    idle
}

/// The tables of which each bears its name alone: a later table of a name
/// stands in the place of an earlier one.
fn named_tables(tables: Vec<(String, RecordSource)>) -> (r: Vec<(String, RecordSource)>)
    ensures
        record_models(r@) == with_items(Seq::empty(), record_models(tables@)),
{
    let ghost all = record_models(tables@);
    let mut pending = reversed(tables);
    let mut out: Vec<(String, RecordSource)> = Vec::new();
    let ghost mut seen: int = 0;
    assert(all.take(0) =~= Seq::empty());
    assert(record_models(out@) =~= Seq::empty());
    while pending.len() > 0
        invariant
            0 <= seen <= all.len(),
            pending@.len() == all.len() - seen,
            forall|k: int|
                0 <= k < pending@.len() ==> (#[trigger] pending@[k].0@, pending@[k].1@) == all[all.len() - 1 - k],
            record_models(out@) == with_items(Seq::empty(), all.take(seen)),
        decreases pending@.len(),
    {
        proof {
            assert(all.take(seen + 1).drop_last() =~= all.take(seen));
            assert(all.take(seen + 1).last() == all[seen]);
        }
        match pending.pop() {
            Some((name, table)) => {
                assert((name@, table@) == all[seen]);
                let ghost before = record_models(out@);
                let mut i: usize = 0;
                while i < out.len() && !same_text(out[i].0.as_str(), name.as_str())
                    invariant
                        i <= out.len(),
                        record_models(out@) == before,
                        forall|k: int| 0 <= k < i ==> (#[trigger] before[k]).0 != name@,
                    decreases out.len() - i,
                {
                    i += 1;
                }
                if i < out.len() {
                    proof {
                        lemma_place(before, name@, 0, i as int);
                    }
                    out.set(i, (name, table));
                    assert(record_models(out@) =~= before.update(i as int, (name@, table@)));
                } else {
                    proof {
                        lemma_no_place(before, name@, 0);
                    }
                    out.push((name, table));
                    assert(record_models(out@) =~= before.push((name@, table@)));
                }
                proof {
                    seen = seen + 1;
                }
            },
            None => {},
        }
    }
    assert(all.take(all.len() as int) =~= all);
    out
}

/// Takes the record at `i` out of `records`, leaving an empty one there.
fn take_record(records: &mut Vec<(String, RecordSource)>, i: usize) -> (r: (String, RecordSource))
    requires
        i < old(records)@.len(),
    ensures
        r == old(records)@[i as int],
        final(records)@.len() == old(records)@.len(),
        forall|k: int| 0 <= k < old(records)@.len() && k != i ==> final(records)@[k] == old(records)@[k],
{
    records.push((String::new(), RecordSource { headers: Vec::new(), rows: Vec::new(), position: 0 }));
    records.swap_remove(i)
}

/// Puts `entry` at `i` in `records`.
fn put_record(records: &mut Vec<(String, RecordSource)>, i: usize, entry: (String, RecordSource))
    requires
        i < old(records)@.len(),
    ensures
        final(records)@ == old(records)@.update(i as int, entry),
{
    records.set(i, entry);
}

/// The object that a row is projected to.
pub fn project(headers: &Vec<String>, cells: &Vec<String>) -> (r: CaptureValue)
    ensures
        r@ == row_object(texts(headers@), texts(cells@)),
        each_name_once(r@),
{
    let mut object = Object::new();
    let ghost all = row_entries(texts(headers@), texts(cells@));
    let mut i: usize = 0;
    assert(all.take(0) =~= Seq::empty());
    while i < headers.len() && i < cells.len()
        invariant
            i <= headers.len(),
            i <= cells.len(),
            all == row_entries(texts(headers@), texts(cells@)),
            object@ == merged(Seq::empty(), all.take(i as int)),
            object.well_formed(),
        decreases headers.len() - i,
    {
        let value = CaptureValue::Scalar(Scalar::Str(cells[i].clone()));
        proof {
            assert(all.take(i + 1).drop_last() =~= all.take(i as int));
            assert(all.take(i + 1).last() == (headers@[i as int]@, value@));
        }
        object.insert(headers[i].clone(), value);
        i += 1;
    }
    proof {
        assert(all.take(i as int) =~= all);
        lemma_object_view(object);
    }
    CaptureValue::Object(object)
}

impl ContextPool {
    /// No two resources share a name, and no two runs an id.
    #[verifier::type_invariant]
    spec fn distinct(self) -> bool {
        &&& named_once(file_models(self.resources@))
        &&& distinct_runs(self.contextual@)
    }

    /// Whether the parser of the pool knows the standard tags, blocks and
    /// filters, and no others.
    pub closed spec fn standard(&self) -> bool {
        standard(*self.parser)
    }

    /// The variables that every context starts from.
    pub closed spec fn globals(&self) -> ObjectModel {
        self.globals@
    }

    /// The variables that the pool keeps for the run `id`; none where
    /// nothing was pushed for it.
    pub closed spec fn scoped(&self, id: u128) -> ObjectModel {
        scoped(self.contextual@, id)
    }

    /// The resources of the pool: the name of each and the path of its file.
    pub closed spec fn resources(&self) -> Seq<(Seq<char>, Seq<char>)> {
        file_models(self.resources@)
    }

    /// A pool without variables and resources.
    pub fn new() -> (r: ContextPool)
        ensures
            r.standard(),
            r.globals() == Seq::<(Seq<char>, ValueModel)>::empty(),
            r.resources() == Seq::<(Seq<char>, Seq<char>)>::empty(),
            forall|id: u128| r.scoped(id) == Seq::<(Seq<char>, ValueModel)>::empty(),
    {
        ContextPool::with_vars(Object::new())
    }

    /// A pool whose globals are `vars`.
    pub fn with_vars(vars: Object) -> (r: ContextPool)
        ensures
            r.standard(),
            r.globals() == vars@,
            r.resources() == Seq::<(Seq<char>, Seq<char>)>::empty(),
            forall|id: u128| r.scoped(id) == Seq::<(Seq<char>, ValueModel)>::empty(),
    {
        let r = ContextPool {
            globals: vars,
            contextual: Vec::new(),
            parser: Arc::new(template::standard_parser()),
            resources: Vec::new(),
        };
        assert(r.resources() =~= Seq::<(Seq<char>, Seq<char>)>::empty());
        r
    }

    /// Names a resource and the file that holds its table: a resource of
    /// that name takes the file and keeps its place; where there is none,
    /// a new resource stands last.
    pub fn push_resource_file(&mut self, name: String, path: String)
        ensures
            final(self).resources() == with_item(old(self).resources(), name@, path@),
            final(self).standard() == old(self).standard(),
            final(self).globals() == old(self).globals(),
            forall|id: u128| final(self).scoped(id) == old(self).scoped(id),
    {
        proof {
            use_type_invariant(&*self);
        }
        let ghost before = self.resources();
        let mut files: Vec<(String, String)> = Vec::new();
        std::mem::swap(&mut self.resources, &mut files);
        let mut i: usize = 0;
        while i < files.len() && !same_text(files[i].0.as_str(), name.as_str())
            invariant
                i <= files.len(),
                file_models(files@) == before,
                place_of(before, name@, 0) == place_of(before, name@, i as int),
                forall|k: int| 0 <= k < i ==> (#[trigger] before[k]).0 != name@,
            decreases files.len() - i,
        {
            i += 1;
        }
        if i < files.len() {
            files.set(i, (name, path));
            assert(file_models(files@) =~= before.update(i as int, (name@, path@)));
        } else {
            files.push((name, path));
            assert(file_models(files@) =~= before.push((name@, path@)));
        }
        self.resources = files;
    }

    /// The name and path of each resource, in the order in which their
    /// names were first pushed. No two share a name.
    pub fn resource_files(&self) -> (r: &Vec<(String, String)>)
        ensures
            file_models(r@) == self.resources(),
            named_once(self.resources()),
    {
        proof {
            use_type_invariant(self);
        }
        &self.resources
    }

    /// Keeps `vars` as the variables of the run `local_id`, in place of any
    /// that were kept for it.
    pub fn push_contextual_vars(&mut self, vars: Object, local_id: u128)
        ensures
            final(self).standard() == old(self).standard(),
            final(self).globals() == old(self).globals(),
            final(self).resources() == old(self).resources(),
            final(self).scoped(local_id) == vars@,
            forall|id: u128| id != local_id ==> final(self).scoped(id) == old(self).scoped(id),
    {
        proof {
            use_type_invariant(&*self);
        }
        let ghost before = self.contextual@;
        let mut runs: Vec<(u128, Object)> = Vec::new();
        std::mem::swap(&mut self.contextual, &mut runs);
        let mut i: usize = 0;
        while i < runs.len() && runs[i].0 != local_id
            invariant
                i <= runs.len(),
                runs@ == before,
                forall|k: int| 0 <= k < i ==> (#[trigger] before[k]).0 != local_id,
            decreases runs.len() - i,
        {
            i += 1;
        }
        if i < runs.len() {
            runs.set(i, (local_id, vars));
            proof {
                let after = runs@;
                assert(distinct_runs(after)) by {
                    assert forall|a: int, b: int| 0 <= a < b < after.len() implies (#[trigger] after[a]).0 != (
                    #[trigger] after[b]).0 by {
                        assert(after[a].0 == before[a].0 && after[b].0 == before[b].0);
                    }
                }
                lemma_scoped_entry(after, i as int);
                assert forall|id: u128| id != local_id implies scoped(after, id) == scoped(before, id) by {
                    assert forall|k: int| 0 <= k < after.len() implies (#[trigger] after[k]).0 == before[k].0 by {}
                    assert forall|k: int| 0 <= k < after.len() && after[k].0 != local_id implies (
                    #[trigger] after[k]).1@ == before[k].1@ by {}
                    lemma_scoped_elsewhere(after, before, local_id, id);
                }
            }
        } else {
            runs.push((local_id, vars));
            assert(runs@.drop_last() =~= before);
        }
        self.contextual = runs;
    }

    /// A context for the run `local_id`: its variables are the globals with
    /// the run's own variables set over them, and its tables are `tables`,
    /// a later one of a name in place of an earlier one.
    pub fn new_context(&self, local_id: u128, tables: Vec<(String, RecordSource)>) -> (r: Context)
        ensures
            r.vars() == merged(self.globals(), self.scoped(local_id)),
            r.standard() == self.standard(),
            r.tables() == with_items(Seq::empty(), record_models(tables@)),
            named_once(record_models(tables@)) ==> r.tables() == record_models(tables@),
    {
        proof {
            lemma_with_items_distinct(record_models(tables@));
            if named_once(record_models(tables@)) {
                lemma_distinct_stay(record_models(tables@));
            }
        }
        let records = named_tables(tables);
        let mut variables = self.globals.clone();
        let mut i: usize = self.contextual.len();
        assert(self.contextual@.take(i as int) =~= self.contextual@);
        while i > 0
            invariant
                i <= self.contextual.len(),
                scoped(self.contextual@, local_id) == scoped(self.contextual@.take(i as int), local_id),
                variables@ == self.globals@,
                record_models(records@) == with_items(Seq::empty(), record_models(tables@)),
                named_once(record_models(records@)),
                named_once(record_models(tables@)) ==> record_models(records@) == record_models(tables@),
            decreases i,
        {
            i -= 1;
            assert(self.contextual@.take(i + 1).drop_last() =~= self.contextual@.take(i as int));
            if self.contextual[i].0 == local_id {
                variables.extend(&self.contextual[i].1);
                return Context { parser: self.parser.clone(), variables, records };
            }
        }
        Context { parser: self.parser.clone(), variables, records }
    }

    /// A context for the run whose id is zero, without tables.
    pub fn default_context(&self) -> (r: Context)
        ensures
            r.vars() == merged(self.globals(), self.scoped(0)),
            r.standard() == self.standard(),
            r.tables() == Seq::<(Seq<char>, RecordModel)>::empty(),
    {
        let tables: Vec<(String, RecordSource)> = Vec::new();
        assert(record_models(tables@) =~= Seq::<(Seq<char>, RecordModel)>::empty());
        assert(named_once(record_models(tables@)));
        self.new_context(0, tables)
    }

    /// Takes the variables of a context that has ended and sets them, as one
    /// object, under `group` in the globals: they replace what stood there.
    pub fn merge(&mut self, context: Context, group: &str)
        ensures
            final(self).globals() == put(old(self).globals(), group@, ValueModel::Object(context.vars())),
            final(self).standard() == old(self).standard(),
            final(self).resources() == old(self).resources(),
            forall|id: u128| final(self).scoped(id) == old(self).scoped(id),
    {
        let vars = context.variables;
        proof {
            lemma_object_view(vars);
            use_type_invariant(&*self);
        }
        let mut globals = Object::new();
        std::mem::swap(&mut self.globals, &mut globals);
        globals.insert(group.to_owned(), CaptureValue::Object(vars));
        self.globals = globals;
    }
}

/// After contexts were merged one after another, each under the name of its
/// group, a group's name gives the variables of the last context that was
/// merged for it.
pub proof fn lemma_merge_visibility(globals: ObjectModel, merges: ObjectModel, group: Seq<char>)
    requires
        crate::app::value::names(merges, group),
    ensures
        lookup(merged(globals, merges), group) == Some(
            merges[crate::app::value::last_index(merges, group)].1,
        ),
{
    crate::app::value::lemma_merged_lookup(globals, merges, group);
}

} // verus!
