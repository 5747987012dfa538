//! The tagged value that variables, captures and assertions work on.

use vstd::prelude::*;
use crate::app::reversed;
use crate::text::{all_digits, decimal, parse_decimal, same_text, to_chars};

verus! {

/// A scalar: a whole number, a fractional number kept as its IEEE-754 bit
/// pattern, a boolean or a string.
#[derive(Debug, PartialEq, Eq)]
pub enum Scalar {
    Integer(i64),
    Float(u64),
    Bool(bool),
    Str(String),
}

/// An ordered list of named values, in which no name stands twice.
#[derive(Debug, PartialEq, Eq)]
pub struct Object {
    entries: Vec<(String, CaptureValue)>,
}

/// A value: nothing, a scalar, a sequence of values, or an object.
#[derive(Debug, PartialEq, Eq)]
pub enum CaptureValue {
    Nil,
    Scalar(Scalar),
    Array(Vec<CaptureValue>),
    Object(Object),
}

/// The mathematical content of a [`CaptureValue`].
pub enum ValueModel {
    Nil,
    Integer(int),
    Float(u64),
    Bool(bool),
    Str(Seq<char>),
    Array(Seq<ValueModel>),
    Object(Seq<(Seq<char>, ValueModel)>),
}

/// The mathematical content of an [`Object`]: its entries in order.
pub type ObjectModel = Seq<(Seq<char>, ValueModel)>;

impl View for Scalar {
    type V = ValueModel;

    open spec fn view(&self) -> ValueModel {
        match self {
            Scalar::Integer(i) => ValueModel::Integer(*i as int),
            Scalar::Float(bits) => ValueModel::Float(*bits),
            Scalar::Bool(b) => ValueModel::Bool(*b),
            Scalar::Str(s) => ValueModel::Str(s@),
        }
    }
}

impl CaptureValue {
    /// The content of the value, item by item and entry by entry.
    pub open spec fn model(self) -> ValueModel
        decreases self,
    {
        match self {
            CaptureValue::Nil => ValueModel::Nil,
            CaptureValue::Scalar(s) => s@,
            CaptureValue::Array(items) => ValueModel::Array(
                Seq::new(
                    items@.len(),
                    |i: int|
                        if 0 <= i < items@.len() {
                            items@[i].model()
                        } else {
                            ValueModel::Nil
                        },
                ),
            ),
            CaptureValue::Object(object) => ValueModel::Object(
                Seq::new(
                    object.pairs().len(),
                    |i: int|
                        if 0 <= i < object.pairs().len() {
                            (object.pairs()[i].0@, object.pairs()[i].1.model())
                        } else {
                            (Seq::empty(), ValueModel::Nil)
                        },
                ),
            ),
        }
    }
}

impl View for CaptureValue {
    type V = ValueModel;

    open spec fn view(&self) -> ValueModel {
        self.model()
    }
}

/// The models of a sequence of values, item by item.
pub open spec fn models(items: Seq<CaptureValue>) -> Seq<ValueModel> {
    Seq::new(items.len(), |i: int| items[i]@)
}

/// The models of a sequence of named values, entry by entry.
pub open spec fn entry_models(entries: Seq<(String, CaptureValue)>) -> ObjectModel {
    Seq::new(entries.len(), |i: int| (entries[i].0@, entries[i].1@))
}

impl View for Object {
    type V = ObjectModel;

    open spec fn view(&self) -> ObjectModel {
        entry_models(self.pairs())
    }
}

/// An array's model is the sequence of its items' models.
pub proof fn lemma_array_view(items: Vec<CaptureValue>)
    ensures
        CaptureValue::Array(items)@ == ValueModel::Array(models(items@)),
{
    assert(CaptureValue::Array(items)@->Array_0 =~= models(items@));
}

/// The model of an object held in a value is the object's own model.
pub proof fn lemma_object_view(object: Object)
    ensures
        CaptureValue::Object(object)@ == ValueModel::Object(object@),
{
    assert(CaptureValue::Object(object)@->Object_0 =~= object@);
}

/// Whether `i` is the first entry of `entries` that is named `key`.
pub open spec fn is_first(entries: ObjectModel, key: Seq<char>, i: int) -> bool {
    &&& 0 <= i < entries.len()
    &&& entries[i].0 == key
    &&& forall|j: int| 0 <= j < i ==> (#[trigger] entries[j]).0 != key
}

/// Whether some entry of `entries` is named `key`.
pub open spec fn has_key(entries: ObjectModel, key: Seq<char>) -> bool {
    exists|i: int| is_first(entries, key, i)
}

/// The place of the first entry of `entries` that is named `key`.
pub open spec fn first_index(entries: ObjectModel, key: Seq<char>) -> int {
    choose|i: int| is_first(entries, key, i)
}

/// The value that `entries` gives to `key`: that of the first entry of that
/// name, or none.
pub open spec fn lookup(entries: ObjectModel, key: Seq<char>) -> Option<ValueModel> {
    if has_key(entries, key) {
        Some(entries[first_index(entries, key)].1)
    } else {
        None
    }
}

/// `entries` after `key` is set to `value`: the first entry of that name
/// takes the value and keeps its place; where there is none, a new entry
/// stands last.
pub open spec fn put(entries: ObjectModel, key: Seq<char>, value: ValueModel) -> ObjectModel {
    if has_key(entries, key) {
        entries.update(first_index(entries, key), (key, value))
    } else {
        entries.push((key, value))
    }
}

/// `entries` after every entry of `more` is set in it, in order.
pub open spec fn merged(entries: ObjectModel, more: ObjectModel) -> ObjectModel
    decreases more.len(),
{
    if more.len() == 0 {
        entries
    } else {
        put(merged(entries, more.drop_last()), more.last().0, more.last().1)
    }
}

/// Whether no two entries of `entries` share a name.
pub open spec fn unique_keys(entries: ObjectModel) -> bool {
    forall|i: int, j: int|
        0 <= i < j < entries.len() ==> (#[trigger] entries[i]).0 != (#[trigger] entries[j]).0
}

/// Whether no object in a value, at any depth, holds a name twice.
pub open spec fn each_name_once(value: ValueModel) -> bool
    decreases value,
{
    match value {
        ValueModel::Array(items) => forall|i: int| 0 <= i < items.len() ==> each_name_once(#[trigger] items[i]),
        ValueModel::Object(entries) => unique_keys(entries) && forall|i: int|
            0 <= i < entries.len() ==> each_name_once((#[trigger] entries[i]).1),
        _ => true,
    }
}

/// Whether two values are equal: they are of one kind and hold equal
/// scalars, or equal items in the same order, or as many entries as each
/// other, each name of the first giving equal values in both. What a name
/// gives is the value of its first entry.
pub open spec fn same(first: ValueModel, second: ValueModel) -> bool
    decreases first,
{
    match (first, second) {
        (ValueModel::Array(x), ValueModel::Array(y)) => x.len() == y.len() && forall|i: int|
            0 <= i < x.len() ==> same(#[trigger] x[i], y[i]),
        (ValueModel::Object(x), ValueModel::Object(y)) => x.len() == y.len() && forall|i: int|
            0 <= i < x.len() && is_first(x, (#[trigger] x[i]).0, i) ==> (lookup(y, x[i].0) matches Some(found)
                && same(x[i].1, found)),
        _ => first == second,
    }
}

/// Setting a name to a value in which no object holds a name twice keeps
/// entries such.
pub proof fn lemma_put_keeps_names(entries: ObjectModel, key: Seq<char>, value: ValueModel)
    requires
        each_name_once(ValueModel::Object(entries)),
        each_name_once(value),
    ensures
        each_name_once(ValueModel::Object(put(entries, key, value))),
{
    lemma_put_unique(entries, key, value);
    let after = put(entries, key, value);
    assert forall|i: int| 0 <= i < after.len() implies each_name_once((#[trigger] after[i]).1) by {
        if has_key(entries, key) {
            if i != first_index(entries, key) {
                assert(after[i] == entries[i]);
            }
        } else if i < entries.len() {
            assert(after[i] == entries[i]);
        }
    }
}

/// Every value is equal to itself.
pub proof fn lemma_same_reflexive(value: ValueModel)
    ensures
        same(value, value),
    decreases value,
{
    match value {
        ValueModel::Array(items) => {
            assert forall|i: int| 0 <= i < items.len() implies same(#[trigger] items[i], items[i]) by {
                lemma_same_reflexive(items[i]);
            }
        },
        ValueModel::Object(entries) => {
            assert forall|i: int| 0 <= i < entries.len() && is_first(entries, (#[trigger] entries[i]).0, i) implies (
            lookup(entries, entries[i].0) matches Some(found) && same(entries[i].1, found)) by {
                lemma_first_index(entries, entries[i].0, i);
                lemma_same_reflexive(entries[i].1);
            }
        },
        _ => {},
    }
}

/// What one segment of a path selects in a value: the entry of that name in
/// an object, the item at that decimal index in an array, nothing in any
/// other value.
pub open spec fn child(value: ValueModel, segment: Seq<char>) -> Option<ValueModel> {
    match value {
        ValueModel::Object(entries) => lookup(entries, segment),
        ValueModel::Array(items) => if segment.len() > 0 && all_digits(segment) && decimal(segment)
            < items.len() {
            Some(items[decimal(segment) as int])
        } else {
            None
        },
        _ => None,
    }
}

/// What a path selects in a value, segment by segment; the empty path
/// selects the value itself.
pub open spec fn resolve(value: ValueModel, path: Seq<Seq<char>>) -> Option<ValueModel>
    decreases path.len(),
{
    if path.len() == 0 {
        Some(value)
    } else {
        match child(value, path[0]) {
            Some(next) => resolve(next, path.skip(1)),
            None => None,
        }
    }
}

/// The first entry of a name is the only place that is first for it.
pub proof fn lemma_first_index(entries: ObjectModel, key: Seq<char>, i: int)
    requires
        is_first(entries, key, i),
    ensures
        has_key(entries, key),
        first_index(entries, key) == i,
{
    let k = first_index(entries, key);
    assert(is_first(entries, key, k));
    if k < i {
        assert(entries[k].0 != key);
    } else if i < k {
        assert(entries[i].0 != key);
    }
}

/// Where no entry is named `key`, the name is not found.
pub proof fn lemma_no_key(entries: ObjectModel, key: Seq<char>)
    requires
        forall|j: int| 0 <= j < entries.len() ==> (#[trigger] entries[j]).0 != key,
    ensures
        !has_key(entries, key),
{
    if has_key(entries, key) {
        let k = first_index(entries, key);
        assert(is_first(entries, key, k));
        assert(entries[k].0 != key);
    }
}

/// Setting a name keeps the names distinct.
pub proof fn lemma_put_unique(entries: ObjectModel, key: Seq<char>, value: ValueModel)
    requires
        unique_keys(entries),
    ensures
        unique_keys(put(entries, key, value)),
{
    let after = put(entries, key, value);
    if has_key(entries, key) {
        let k = first_index(entries, key);
        assert(is_first(entries, key, k));
        assert forall|i: int, j: int| 0 <= i < j < after.len() implies (#[trigger] after[i]).0 != (
        #[trigger] after[j]).0 by {
            assert(entries[i].0 != entries[j].0);
        }
    } else {
        assert forall|i: int, j: int| 0 <= i < j < after.len() implies (#[trigger] after[i]).0 != (
        #[trigger] after[j]).0 by {
            if j < entries.len() {
                assert(entries[i].0 != entries[j].0);
            } else {
                if entries[i].0 == key {
                    lemma_has_some_key(entries, key, i);
                }
            }
        }
    }
}

/// An entry named `key` at any place means that the name is found.
pub proof fn lemma_has_some_key(entries: ObjectModel, key: Seq<char>, i: int)
    requires
        0 <= i < entries.len(),
        entries[i].0 == key,
    ensures
        has_key(entries, key),
    decreases i,
{
    if exists|j: int| 0 <= j < i && (#[trigger] entries[j]).0 == key {
        let j = choose|j: int| 0 <= j < i && (#[trigger] entries[j]).0 == key;
        lemma_has_some_key(entries, key, j);
    } else {
        assert(is_first(entries, key, i));
    }
}

/// After a name is set, it gives the value that was set, and every other
/// name gives what it gave before.
pub proof fn lemma_put_lookup(entries: ObjectModel, key: Seq<char>, value: ValueModel, other: Seq<char>)
    ensures
        lookup(put(entries, key, value), key) == Some(value),
        other != key ==> lookup(put(entries, key, value), other) == lookup(entries, other),
{
    let after = put(entries, key, value);
    if has_key(entries, key) {
        let k = first_index(entries, key);
        assert(is_first(entries, key, k));
        assert(is_first(after, key, k)) by {
            assert forall|j: int| 0 <= j < k implies (#[trigger] after[j]).0 != key by {
                assert(entries[j].0 != key);
            }
        }
        lemma_first_index(after, key, k);
    } else {
        let k = entries.len() as int;
        assert(is_first(after, key, k)) by {
            assert forall|j: int| 0 <= j < k implies (#[trigger] after[j]).0 != key by {
                if entries[j].0 == key {
                    lemma_has_some_key(entries, key, j);
                }
            }
        }
        lemma_first_index(after, key, k);
    }
    if other != key {
        if has_key(entries, other) {
            let o = first_index(entries, other);
            assert(is_first(entries, other, o));
            assert(is_first(after, other, o)) by {
                assert forall|j: int| 0 <= j < o implies (#[trigger] after[j]).0 != other by {
                    assert(entries[j].0 != other);
                }
            }
            lemma_first_index(after, other, o);
        } else {
            if has_key(after, other) {
                let o = first_index(after, other);
                assert(is_first(after, other, o));
                assert(o < entries.len() && entries[o].0 == other);
                lemma_has_some_key(entries, other, o);
            }
        }
    }
}

/// Whether some entry of `more` is named `key`, at any place.
pub open spec fn names(more: ObjectModel, key: Seq<char>) -> bool {
    exists|i: int| 0 <= i < more.len() && (#[trigger] more[i]).0 == key
}

/// The place of the last entry of `more` that is named `key`.
pub open spec fn last_index(more: ObjectModel, key: Seq<char>) -> int {
    choose|i: int|
        0 <= i < more.len() && (#[trigger] more[i]).0 == key && forall|j: int|
            i < j < more.len() ==> (#[trigger] more[j]).0 != key
}

/// After entries are set one after another, a name gives the value of the
/// last of them that is named so, and what it gave before where none is.
pub proof fn lemma_merged_lookup(entries: ObjectModel, more: ObjectModel, key: Seq<char>)
    ensures
        names(more, key) ==> {
            let i = last_index(more, key);
            &&& 0 <= i < more.len()
            &&& more[i].0 == key
            &&& forall|j: int| i < j < more.len() ==> (#[trigger] more[j]).0 != key
            &&& lookup(merged(entries, more), key) == Some(more[i].1)
        },
        !names(more, key) ==> lookup(merged(entries, more), key) == lookup(entries, key),
    decreases more.len(),
{
    if more.len() > 0 {
        let front = more.drop_last();
        let last = more.last();
        lemma_merged_lookup(entries, front, key);
        lemma_put_lookup(merged(entries, front), last.0, last.1, key);
        if last.0 == key {
            let n = more.len() - 1;
            assert(more[n].0 == key);
            assert(names(more, key));
            let i = last_index(more, key);
            if i < n {
                assert(more[n].0 != key);
            }
        } else {
            if names(more, key) {
                let w = choose|i: int| 0 <= i < more.len() && (#[trigger] more[i]).0 == key;
                assert(front[w].0 == key);
                assert(names(front, key));
                let f = last_index(front, key);
                assert(more[f].0 == key);
                assert forall|j: int| f < j < more.len() implies (#[trigger] more[j]).0 != key by {
                    if j < front.len() {
                        assert(front[j].0 != key);
                    }
                }
                let i = last_index(more, key);
                if i < f {
                    assert(more[f].0 != key);
                } else if f < i {
                    assert(front[i].0 != key);
                }
            } else {
                if names(front, key) {
                    let w = choose|i: int| 0 <= i < front.len() && (#[trigger] front[i]).0 == key;
                    assert(more[w].0 == key);
                }
            }
        }
    }
}

impl Clone for Scalar {
    fn clone(&self) -> (r: Scalar)
        ensures
            r@ == self@,
    {
        match self {
            Scalar::Integer(i) => Scalar::Integer(*i),
            Scalar::Float(bits) => Scalar::Float(*bits),
            Scalar::Bool(b) => Scalar::Bool(*b),
            Scalar::Str(s) => Scalar::Str(s.clone()),
        }
    }
}

impl Clone for CaptureValue {
    fn clone(&self) -> (r: CaptureValue)
        ensures
            r@ == self@,
    {
        self.duplicate()
    }
}

impl CaptureValue {
    /// A copy of the value.
    pub fn duplicate(&self) -> (r: CaptureValue)
        ensures
            r@ == self@,
        decreases self,
    {
        match self {
            CaptureValue::Nil => CaptureValue::Nil,
            CaptureValue::Scalar(s) => CaptureValue::Scalar(s.clone()),
            CaptureValue::Array(items) => {
                let mut copy: Vec<CaptureValue> = Vec::new();
                let mut i: usize = 0;
                while i < items.len()
                    invariant
                        i <= items.len(),
                        *self == CaptureValue::Array(*items),
                        copy@.len() == i,
                        forall|j: int| 0 <= j < i ==> copy@[j]@ == items@[j]@,
                    decreases items.len() - i,
                {
                    assert(decreases_to!(*self => self->Array_0));
                    assert(decreases_to!(*items => items[i as int]));
                    copy.push(items[i].duplicate());
                    i += 1;
                }
                proof {
                    lemma_array_view(*items);
                    lemma_array_view(copy);
                    assert(models(copy@) =~= models(items@));
                }
                CaptureValue::Array(copy)
            },
            CaptureValue::Object(object) => {
                let mut copy: Vec<(String, CaptureValue)> = Vec::new();
                let mut i: usize = 0;
                while i < object.entries.len()
                    invariant
                        i <= object.entries.len(),
                        *self == CaptureValue::Object(*object),
                        copy@.len() == i,
                        forall|j: int|
                            0 <= j < i ==> copy@[j].0@ == object.entries@[j].0@ && copy@[j].1@
                                == object.entries@[j].1@,
                    decreases object.entries.len() - i,
                {
                    assert(decreases_to!(*self => self->Object_0.entries));
                    assert(decreases_to!(object.entries => object.entries[i as int]));
                    assert(decreases_to!(object.entries[i as int] => object.entries[i as int].1));
                    let entry = &object.entries[i];
                    copy.push((entry.0.clone(), entry.1.duplicate()));
                    i += 1;
                }
                proof {
                    use_type_invariant(object);
                    assert(entry_models(copy@) =~= object@);
                }
                let r = Object { entries: copy };
                proof {
                    lemma_object_view(*object);
                    lemma_object_view(r);
                    assert(r@ =~= object@);
                }
                CaptureValue::Object(r)
            },
        }
    }
}

impl Clone for Object {
    fn clone(&self) -> (r: Object)
        ensures
            r@ == self@,
    {
        let mut copy: Vec<(String, CaptureValue)> = Vec::new();
        let mut i: usize = 0;
        while i < self.entries.len()
            invariant
                i <= self.entries.len(),
                copy@.len() == i,
                forall|j: int|
                    0 <= j < i ==> copy@[j].0@ == self.entries@[j].0@ && copy@[j].1@
                        == self.entries@[j].1@,
            decreases self.entries.len() - i,
        {
            let entry = &self.entries[i];
            copy.push((entry.0.clone(), entry.1.clone()));
            i += 1;
        }
        proof {
            use_type_invariant(self);
            assert(entry_models(copy@) =~= self@);
        }
        let r = Object { entries: copy };
        assert(r@ =~= self@);
        r
    }
}

impl Scalar {
    /// Whether two scalars are of one kind and hold the same.
    pub fn equals(&self, other: &Scalar) -> (r: bool)
        ensures
            r == (self@ == other@),
    {
        match (self, other) {
            (Scalar::Integer(x), Scalar::Integer(y)) => *x == *y,
            (Scalar::Float(x), Scalar::Float(y)) => *x == *y,
            (Scalar::Bool(x), Scalar::Bool(y)) => *x == *y,
            (Scalar::Str(x), Scalar::Str(y)) => *x == *y,
            _ => false,
        }
    }

    /// The name of the scalar's kind.
    pub fn kind_name(&self) -> (r: &'static str)
        ensures
            r@ == kind_name_of(self@),
    {
        match self {
            Scalar::Integer(_) => "whole number",
            Scalar::Float(_) => "fractional number",
            Scalar::Bool(_) => "boolean",
            Scalar::Str(_) => "string",
        }
    }
}

/// The name of a value's kind, as error messages give it.
pub open spec fn kind_name_of(value: ValueModel) -> Seq<char> {
    match value {
        ValueModel::Nil => "nil"@,
        ValueModel::Integer(_) => "whole number"@,
        ValueModel::Float(_) => "fractional number"@,
        ValueModel::Bool(_) => "boolean"@,
        ValueModel::Str(_) => "string"@,
        ValueModel::Array(_) => "array"@,
        ValueModel::Object(_) => "object"@,
    }
}

impl CaptureValue {
    /// A whole number as a value.
    pub fn integer(i: i64) -> (r: CaptureValue)
        ensures
            r@ == ValueModel::Integer(i as int),
    {
        CaptureValue::Scalar(Scalar::Integer(i))
    }

    /// A boolean as a value.
    pub fn boolean(b: bool) -> (r: CaptureValue)
        ensures
            r@ == ValueModel::Bool(b),
    {
        CaptureValue::Scalar(Scalar::Bool(b))
    }

    /// A string as a value.
    pub fn string(s: &str) -> (r: CaptureValue)
        ensures
            r@ == ValueModel::Str(s@),
    {
        CaptureValue::Scalar(Scalar::Str(s.to_owned()))
    }

    /// A fractional number, given by its IEEE-754 bit pattern, as a value.
    pub fn float_bits(bits: u64) -> (r: CaptureValue)
        ensures
            r@ == ValueModel::Float(bits),
    {
        CaptureValue::Scalar(Scalar::Float(bits))
    }

    /// Equality: two values are equal when they are of one kind and hold
    /// equal scalars, equal items in the same order, or as many entries as
    /// each other with equal values under each name.
    pub fn equals(&self, other: &CaptureValue) -> (r: bool)
        ensures
            r == same(self@, other@),
        decreases self,
    {
        match (self, other) {
            (CaptureValue::Nil, CaptureValue::Nil) => true,
            (CaptureValue::Scalar(a), CaptureValue::Scalar(b)) => a.equals(b),
            (CaptureValue::Array(a), CaptureValue::Array(b)) => {
                proof {
                    lemma_array_view(*a);
                    lemma_array_view(*b);
                }
                if a.len() != b.len() {
                    return false;
                }
                let mut i: usize = 0;
                while i < a.len()
                    invariant
                        i <= a.len(),
                        a.len() == b.len(),
                        *self == CaptureValue::Array(*a),
                        self@ == ValueModel::Array(models(a@)),
                        other@ == ValueModel::Array(models(b@)),
                        forall|j: int| 0 <= j < i ==> same(#[trigger] models(a@)[j], models(b@)[j]),
                    decreases a.len() - i,
                {
                    assert(decreases_to!(*self => self->Array_0));
                    assert(decreases_to!(*a => a[i as int]));
                    if !a[i].equals(&b[i]) {
                        assert(!same(models(a@)[i as int], models(b@)[i as int]));
                        return false;
                    }
                    i += 1;
                }
                true
            },
            (CaptureValue::Object(a), CaptureValue::Object(b)) => {
                proof {
                    lemma_object_view(*a);
                    lemma_object_view(*b);
                }
                if a.entries.len() != b.entries.len() {
                    return false;
                }
                let mut i: usize = 0;
                while i < a.entries.len()
                    invariant
                        i <= a.entries.len(),
                        a.entries.len() == b.entries.len(),
                        *self == CaptureValue::Object(*a),
                        self@ == ValueModel::Object(a@),
                        other@ == ValueModel::Object(b@),
                        forall|j: int|
                            0 <= j < i && is_first(a@, (#[trigger] a@[j]).0, j) ==> (lookup(b@, a@[j].0) matches Some(
                                found,
                            ) && same(a@[j].1, found)),
                    decreases a.entries.len() - i,
                {
                    assert(decreases_to!(*self => self->Object_0.entries));
                    assert(decreases_to!(a.entries => a.entries[i as int]));
                    assert(decreases_to!(a.entries[i as int] => a.entries[i as int].1));
                    let place = a.position(a.entries[i].0.as_str());
                    let first = match place {
                        Some(k) => k == i,
                        None => false,
                    };
                    proof {
                        if is_first(a@, a@[i as int].0, i as int) {
                            lemma_first_index(a@, a@[i as int].0, i as int);
                            match place {
                                Some(k) => {
                                    lemma_first_index(a@, a@[i as int].0, k as int);
                                },
                                None => {},
                            }
                            assert(first);
                        }
                    }
                    if first {
                        let found = match b.get(a.entries[i].0.as_str()) {
                            Some(found) => found,
                            None => {
                                assert(lookup(b@, a@[i as int].0) is None);
                                return false;
                            },
                        };
                        if !a.entries[i].1.equals(found) {
                            assert(!same(a@[i as int].1, found@));
                            return false;
                        }
                    }
                    i += 1;
                }
                true
            },
            _ => false,
        }
    }

    /// The name of the value's kind, as error messages give it.
    pub fn kind_name(&self) -> (r: &'static str)
        ensures
            r@ == kind_name_of(self@),
    {
        match self {
            CaptureValue::Nil => "nil",
            CaptureValue::Scalar(s) => s.kind_name(),
            CaptureValue::Array(_) => "array",
            CaptureValue::Object(_) => "object",
        }
    }

    /// What one segment of a path selects in this value.
    pub fn child(&self, segment: &str) -> (r: Option<&CaptureValue>)
        ensures
            r matches Some(v) ==> child(self@, segment@) == Some(v@),
            r is None ==> child(self@, segment@) is None,
    {
        match self {
            CaptureValue::Object(object) => {
                proof {
                    lemma_object_view(*object);
                }
                object.get(segment)
            },
            CaptureValue::Array(items) => {
                proof {
                    lemma_array_view(*items);
                }
                let chars = to_chars(segment);
                let len = chars.len();
                assert(segment@.subrange(0, len as int) =~= segment@);
                match parse_decimal(&chars, 0, len) {
                    Some(index) => {
                        if index < items.len() as u64 {
                            Some(&items[index as usize])
                        } else {
                            None
                        }
                    },
                    None => {
                        assert(items.len() <= u64::MAX);
                        None
                    },
                }
            },
            _ => None,
        }
    }

    /// What a path selects in this value, as a copy; `None` where a segment
    /// names no entry, is no index of an array, or meets a scalar or nothing.
    pub fn find(&self, path: &Vec<String>) -> (r: Option<CaptureValue>)
        ensures
            r matches Some(v) ==> resolve(self@, texts(path@)) == Some(v@),
            r is None ==> resolve(self@, texts(path@)) is None,
    {
        assert(texts(path@).skip(0) =~= texts(path@));
        self.find_from(path, 0)
    }

    /// What the segments of a path from the place `from` on select in this
    /// value, as a copy.
    pub(crate) fn find_from(&self, path: &Vec<String>, from: usize) -> (r: Option<CaptureValue>)
        requires
            from <= path@.len(),
        ensures
            r matches Some(v) ==> resolve(self@, texts(path@).skip(from as int)) == Some(v@),
            r is None ==> resolve(self@, texts(path@).skip(from as int)) is None,
    {
        let ghost segments = texts(path@);
        let mut current: &CaptureValue = self;
        let mut i: usize = from;
        while i < path.len()
            invariant
                from <= i <= path.len(),
                segments == texts(path@),
                resolve(self@, segments.skip(from as int)) == resolve(current@, segments.skip(i as int)),
            decreases path.len() - i,
        {
            assert(segments.skip(i as int)[0] == path@[i as int]@);
            assert(segments.skip(i as int).skip(1) =~= segments.skip(i + 1));
            match current.child(path[i].as_str()) {
                Some(next) => {
                    current = next;
                },
                None => {
                    return None;
                },
            }
            i += 1;
        }
        Some(current.clone())
    }
}

/// The strings of a sequence as character sequences.
pub open spec fn texts(strings: Seq<String>) -> Seq<Seq<char>> {
    Seq::new(strings.len(), |i: int| strings[i]@)
}

impl Object {
    /// No two entries share a name.
    #[verifier::type_invariant]
    spec fn distinct(self) -> bool {
        unique_keys(entry_models(self.entries@))
    }

    /// The entries, in order.
    pub closed spec fn pairs(self) -> Seq<(String, CaptureValue)> {
        self.entries@
    }

    /// Whether no name stands twice in the object, nor in an object that
    /// it holds at any depth.
    pub open spec fn well_formed(&self) -> bool {
        each_name_once(ValueModel::Object(self@))
    }

    /// An object without entries.
    pub fn new() -> (r: Object)
        ensures
            r@ == Seq::<(Seq<char>, ValueModel)>::empty(),
            r.well_formed(),
    {
        let r = Object { entries: Vec::new() };
        assert(r@ =~= Seq::<(Seq<char>, ValueModel)>::empty());
        r
    }

    /// An object of the entries, set one after another: of entries that
    /// share a name, a later one stands in the place of an earlier one.
    pub fn of(entries: Vec<(String, CaptureValue)>) -> (r: Object)
        ensures
            r@ == merged(Seq::empty(), entry_models(entries@)),
    {
        let ghost all = entry_models(entries@);
        let mut pending = reversed(entries);
        let mut object = Object::new();
        let ghost mut seen: int = 0;
        assert(all.take(0) =~= Seq::empty());
        while pending.len() > 0
            invariant
                0 <= seen <= all.len(),
                pending@.len() == all.len() - seen,
                forall|k: int|
                    0 <= k < pending@.len() ==> (#[trigger] pending@[k].0@, pending@[k].1@) == all[all.len() - 1
                        - k],
                object@ == merged(Seq::empty(), all.take(seen)),
            decreases pending@.len(),
        {
            proof {
                assert(all.take(seen + 1).drop_last() =~= all.take(seen));
                assert(all.take(seen + 1).last() == all[seen]);
            }
            match pending.pop() {
                Some((name, value)) => {
                    object.insert(name, value);
                    proof {
                        seen = seen + 1;
                    }
                },
                None => {},
            }
        }
        assert(all.take(all.len() as int) =~= all);
        object
    }

    /// The value of an entry is a part of the object.
    pub proof fn lemma_entry_is_part(self, i: int)
        requires
            0 <= i < self.pairs().len(),
        ensures
            decreases_to!(self => self.pairs()[i].1),
    {
        assert(decreases_to!(self => self.entries));
        assert(decreases_to!(self.entries => self.entries[i]));
        assert(decreases_to!(self.entries[i] => self.entries[i].1));
    }

    /// The entries, in order. No two share a name.
    pub fn entries(&self) -> (r: &Vec<(String, CaptureValue)>)
        ensures
            r@ == self.pairs(),
            unique_keys(self@),
    {
        proof {
            use_type_invariant(self);
        }
        &self.entries
    }

    /// The number of entries.
    pub fn len(&self) -> (r: usize)
        ensures
            r == self@.len(),
    {
        self.entries.len()
    }

    /// The place of the first entry that is named `key`.
    pub fn position(&self, key: &str) -> (r: Option<usize>)
        ensures
            r matches Some(i) ==> is_first(self@, key@, i as int),
            r is None ==> !has_key(self@, key@),
    {
        let mut i: usize = 0;
        while i < self.entries.len()
            invariant
                i <= self.entries.len(),
                forall|j: int| 0 <= j < i ==> (#[trigger] self@[j]).0 != key@,
            decreases self.entries.len() - i,
        {
            if same_text(self.entries[i].0.as_str(), key) {
                return Some(i);
            }
            i += 1;
        }
        proof {
            lemma_no_key(self@, key@);
        }
        None
    }

    /// The value of the first entry that is named `key`.
    pub fn get(&self, key: &str) -> (r: Option<&CaptureValue>)
        ensures
            r matches Some(v) ==> lookup(self@, key@) == Some(v@),
            r is None ==> lookup(self@, key@) is None,
    {
        match self.position(key) {
            Some(i) => {
                proof {
                    lemma_first_index(self@, key@, i as int);
                }
                Some(&self.entries[i].1)
            },
            None => None,
        }
    }

    /// Whether an entry is named `key`.
    pub fn contains_key(&self, key: &str) -> (r: bool)
        ensures
            r == has_key(self@, key@),
    {
        match self.position(key) {
            Some(i) => {
                proof {
                    lemma_first_index(self@, key@, i as int);
                }
                true
            },
            None => false,
        }
    }

    /// Sets `key` to `value`: the first entry of that name takes the value
    /// and keeps its place; where there is none, a new entry stands last.
    pub fn insert(&mut self, key: String, value: CaptureValue)
        ensures
            final(self)@ == put(old(self)@, key@, value@),
            old(self).well_formed() && each_name_once(value@) ==> final(self).well_formed(),
    {
        proof {
            use_type_invariant(&*self);
            lemma_put_unique(self@, key@, value@);
            if self.well_formed() && each_name_once(value@) {
                lemma_put_keeps_names(self@, key@, value@);
            }
        }
        let found = self.position(key.as_str());
        let ghost before = self@;
        let mut entries: Vec<(String, CaptureValue)> = Vec::new();
        std::mem::swap(&mut self.entries, &mut entries);
        match found {
            Some(i) => {
                proof {
                    lemma_first_index(before, key@, i as int);
                }
                entries.set(i, (key, value));
                assert(entry_models(entries@) =~= before.update(i as int, (key@, value@)));
            },
            None => {
                entries.push((key, value));
                assert(entry_models(entries@) =~= before.push((key@, value@)));
            },
        }
        self.entries = entries;
    }

    /// Sets every entry of `more`, in order.
    pub fn extend(&mut self, more: &Object)
        ensures
            final(self)@ == merged(old(self)@, more@),
            old(self).well_formed() && more.well_formed() ==> final(self).well_formed(),
    {
        let mut i: usize = 0;
        assert(more@.take(0) =~= Seq::<(Seq<char>, ValueModel)>::empty());
        while i < more.entries.len()
            invariant
                i <= more.entries.len(),
                self@ == merged(old(self)@, more@.take(i as int)),
                old(self).well_formed() && more.well_formed() ==> self.well_formed(),
            decreases more.entries.len() - i,
        {
            let entry = &more.entries[i];
            proof {
                assert(more@.take(i + 1).drop_last() =~= more@.take(i as int));
                assert(more@.take(i + 1).last() == (entry.0@, entry.1@));
            }
            self.insert(entry.0.clone(), entry.1.clone());
            i += 1;
        }
        assert(more@.take(more@.len() as int) =~= more@);
    }
}

} // verus!
