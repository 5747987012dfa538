//! JSON documents and their conversion to and from values.

use vstd::prelude::*;
use crate::adapters::json::{fraction_json, string_text, write_fraction, write_string};
use crate::app::value::{
    lemma_array_view, lemma_object_view, merged, models, put, unique_keys, each_name_once, CaptureValue,
    Object, ObjectModel, Scalar, ValueModel,
};
use crate::text::{int_text, integer_text};

verus! {

/// A JSON document. A number is a whole number that fits in 64 bits with a
/// sign, or else a fractional number kept as its IEEE-754 bit pattern.
#[derive(Debug, PartialEq, Eq)]
pub enum Json {
    Null,
    Bool(bool),
    Integer(i64),
    Float(u64),
    Text(String),
    Array(Vec<Json>),
    Object(Vec<(String, Json)>),
}

/// The mathematical content of a [`Json`] document.
pub enum JsonModel {
    Null,
    Bool(bool),
    Integer(int),
    Float(u64),
    Text(Seq<char>),
    Array(Seq<JsonModel>),
    Object(Seq<(Seq<char>, JsonModel)>),
}

impl Json {
    /// The content of the document, item by item and member by member.
    pub open spec fn model(self) -> JsonModel
        decreases self,
    {
        match self {
            Json::Null => JsonModel::Null,
            Json::Bool(b) => JsonModel::Bool(b),
            Json::Integer(i) => JsonModel::Integer(i as int),
            Json::Float(bits) => JsonModel::Float(bits),
            Json::Text(s) => JsonModel::Text(s@),
            Json::Array(items) => JsonModel::Array(
                Seq::new(
                    items@.len(),
                    |i: int|
                        if 0 <= i < items@.len() {
                            items@[i].model()
                        } else {
                            JsonModel::Null
                        },
                ),
            ),
            Json::Object(members) => JsonModel::Object(
                Seq::new(
                    members@.len(),
                    |i: int|
                        if 0 <= i < members@.len() {
                            (members@[i].0@, members@[i].1.model())
                        } else {
                            (Seq::empty(), JsonModel::Null)
                        },
                ),
            ),
        }
    }
}

impl View for Json {
    type V = JsonModel;

    open spec fn view(&self) -> JsonModel {
        self.model()
    }
}

/// The models of a sequence of documents, item by item.
pub open spec fn json_models(items: Seq<Json>) -> Seq<JsonModel> {
    Seq::new(items.len(), |i: int| items[i]@)
}

/// The models of a sequence of members, one by one.
pub open spec fn member_models(members: Seq<(String, Json)>) -> Seq<(Seq<char>, JsonModel)> {
    Seq::new(members.len(), |i: int| (members[i].0@, members[i].1@))
}

/// An array's model is the sequence of its items' models.
pub proof fn lemma_json_array_view(items: Vec<Json>)
    ensures
        Json::Array(items)@ == JsonModel::Array(json_models(items@)),
{
    assert(Json::Array(items)@->Array_0 =~= json_models(items@));
}

/// An object's model is the sequence of its members' models.
pub proof fn lemma_json_object_view(members: Vec<(String, Json)>)
    ensures
        Json::Object(members)@ == JsonModel::Object(member_models(members@)),
{
    assert(Json::Object(members)@->Object_0 =~= member_models(members@));
}

/// Whether a bit pattern is that of a finite fractional number: its
/// exponent bits are not all set.
pub open spec fn finite_bits(bits: u64) -> bool {
    (bits >> 52) & 0x7ff != 0x7ff
}

/// The value that a document stands for: null is nothing, numbers, booleans
/// and strings are scalars, an array is the array of its items' values, and
/// an object is the object in which each member has been set in order.
pub open spec fn value_of_json(json: JsonModel) -> ValueModel
    decreases json,
{
    match json {
        JsonModel::Null => ValueModel::Nil,
        JsonModel::Bool(b) => ValueModel::Bool(b),
        JsonModel::Integer(i) => ValueModel::Integer(i),
        JsonModel::Float(bits) => ValueModel::Float(bits),
        JsonModel::Text(s) => ValueModel::Str(s),
        JsonModel::Array(items) => ValueModel::Array(
            Seq::new(
                items.len(),
                |i: int|
                    if 0 <= i < items.len() {
                        value_of_json(items[i])
                    } else {
                        ValueModel::Nil
                    },
            ),
        ),
        JsonModel::Object(members) => ValueModel::Object(
            merged(Seq::empty(), values_of_members(members)),
        ),
    }
}

/// The members of an object with each document replaced by its value.
pub open spec fn values_of_members(members: Seq<(Seq<char>, JsonModel)>) -> ObjectModel
    decreases members,
{
    Seq::new(
        members.len(),
        |i: int|
            if 0 <= i < members.len() {
                (members[i].0, value_of_json(members[i].1))
            } else {
                (Seq::empty(), ValueModel::Nil)
            },
    )
}

/// The document that a value is written as: nothing is null, a fractional
/// number that is not finite is null too, and everything else keeps its
/// kind, items and entries.
pub open spec fn json_of_value(value: ValueModel) -> JsonModel
    decreases value,
{
    match value {
        ValueModel::Nil => JsonModel::Null,
        ValueModel::Bool(b) => JsonModel::Bool(b),
        ValueModel::Integer(i) => JsonModel::Integer(i),
        ValueModel::Float(bits) => if finite_bits(bits) {
            JsonModel::Float(bits)
        } else {
            JsonModel::Null
        },
        ValueModel::Str(s) => JsonModel::Text(s),
        ValueModel::Array(items) => JsonModel::Array(
            Seq::new(
                items.len(),
                |i: int|
                    if 0 <= i < items.len() {
                        json_of_value(items[i])
                    } else {
                        JsonModel::Null
                    },
            ),
        ),
        ValueModel::Object(entries) => JsonModel::Object(
            Seq::new(
                entries.len(),
                |i: int|
                    if 0 <= i < entries.len() {
                        (entries[i].0, json_of_value(entries[i].1))
                    } else {
                        (Seq::empty(), JsonModel::Null)
                    },
            ),
        ),
    }
}

/// The value that a list of documents collapses to: nothing for the empty
/// list, the value of the only document of a list of one, and else the array
/// of the documents' values.
pub open spec fn collapsed(found: Seq<JsonModel>) -> ValueModel {
    if found.len() == 1 {
        value_of_json(found[0])
    } else if found.len() == 0 {
        ValueModel::Nil
    } else {
        ValueModel::Array(Seq::new(found.len(), |i: int| value_of_json(found[i])))
    }
}

/// Whether a document is one that a JSON text can hold: in every object no
/// two members share a name, every whole number fits in 64 bits with a sign,
/// and every fractional number is finite.
pub open spec fn well_formed(json: JsonModel) -> bool
    decreases json,
{
    match json {
        JsonModel::Integer(i) => i64::MIN <= i <= i64::MAX,
        JsonModel::Float(bits) => finite_bits(bits),
        JsonModel::Array(items) => forall|i: int|
            0 <= i < items.len() ==> well_formed(#[trigger] items[i]),
        JsonModel::Object(members) => {
            &&& forall|i: int| 0 <= i < members.len() ==> well_formed((#[trigger] members[i]).1)
            &&& forall|i: int, j: int|
                0 <= i < j < members.len() ==> (#[trigger] members[i]).0 != (
                #[trigger] members[j]).0
        },
        _ => true,
    }
}

/// The values of a sequence of documents, item by item.
pub open spec fn values_of(items: Seq<JsonModel>) -> Seq<ValueModel> {
    Seq::new(items.len(), |i: int| value_of_json(items[i]))
}

/// The documents of a sequence of values, item by item.
pub open spec fn jsons_of(items: Seq<ValueModel>) -> Seq<JsonModel> {
    Seq::new(items.len(), |i: int| json_of_value(items[i]))
}

/// The entries of an object with each value replaced by its document.
pub open spec fn entry_jsons(entries: ObjectModel) -> Seq<(Seq<char>, JsonModel)> {
    Seq::new(entries.len(), |i: int| (entries[i].0, json_of_value(entries[i].1)))
}

/// The value of an array is the array of its items' values.
pub proof fn lemma_value_of_array(items: Seq<JsonModel>)
    ensures
        value_of_json(JsonModel::Array(items)) == ValueModel::Array(values_of(items)),
{
    assert(value_of_json(JsonModel::Array(items))->Array_0 =~= values_of(items));
}

/// The value of an object is the object in which each member's value has
/// been set in order.
pub proof fn lemma_value_of_object(members: Seq<(Seq<char>, JsonModel)>)
    ensures
        value_of_json(JsonModel::Object(members)) == ValueModel::Object(
            merged(Seq::empty(), values_of_members(members)),
        ),
{
}

/// The document of an array is the array of its items' documents.
pub proof fn lemma_json_of_array(items: Seq<ValueModel>)
    ensures
        json_of_value(ValueModel::Array(items)) == JsonModel::Array(jsons_of(items)),
{
    assert(json_of_value(ValueModel::Array(items))->Array_0 =~= jsons_of(items));
}

/// The document of an object holds its entries' documents in order.
pub proof fn lemma_json_of_object(entries: ObjectModel)
    ensures
        json_of_value(ValueModel::Object(entries)) == JsonModel::Object(entry_jsons(entries)),
{
    assert(json_of_value(ValueModel::Object(entries))->Object_0 =~= entry_jsons(entries));
}

/// Setting entries with distinct names one after another into an empty
/// object gives those entries.
pub proof fn lemma_merged_unique(entries: ObjectModel)
    requires
        unique_keys(entries),
    ensures
        merged(Seq::empty(), entries) == entries,
    decreases entries.len(),
{
    if entries.len() > 0 {
        let front = entries.drop_last();
        assert forall|i: int, j: int| 0 <= i < j < front.len() implies (#[trigger] front[i]).0 != (
        #[trigger] front[j]).0 by {
            assert(entries[i].0 != entries[j].0);
        }
        lemma_merged_unique(front);
        let key = entries.last().0;
        assert forall|j: int| 0 <= j < front.len() implies (#[trigger] front[j]).0 != key by {
            assert(entries[j].0 != entries[entries.len() - 1].0);
        }
        crate::app::value::lemma_no_key(front, key);
        assert(put(front, key, entries.last().1) =~= entries);
    } else {
        assert(entries =~= Seq::empty());
    }
}

/// Reading a document as a value and writing the value as a document gives
/// the document back, for every document that a JSON text can hold.
pub proof fn lemma_json_round_trip(json: JsonModel)
    requires
        well_formed(json),
    ensures
        json_of_value(value_of_json(json)) == json,
    decreases json,
{
    match json {
        JsonModel::Array(items) => {
            lemma_value_of_array(items);
            lemma_json_of_array(values_of(items));
            assert forall|i: int| 0 <= i < items.len() implies jsons_of(values_of(items))[i]
                == items[i] by {
                lemma_json_round_trip(items[i]);
            }
            assert(jsons_of(values_of(items)) =~= items);
        },
        JsonModel::Object(members) => {
            lemma_value_of_object(members);
            let entries = values_of_members(members);
            assert forall|i: int, j: int| 0 <= i < j < entries.len() implies (
            #[trigger] entries[i]).0 != (#[trigger] entries[j]).0 by {
                assert(members[i].0 != members[j].0);
            }
            lemma_merged_unique(entries);
            lemma_json_of_object(entries);
            assert forall|i: int| 0 <= i < members.len() implies entry_jsons(entries)[i]
                == members[i] by {
                lemma_json_round_trip(members[i].1);
            }
            assert(entry_jsons(entries) =~= members);
        },
        _ => {},
    }
}

impl Json {
    /// The value that this document stands for. No object in it holds a
    /// name twice.
    pub fn convert(&self) -> (r: CaptureValue)
        ensures
            r@ == value_of_json(self@),
            each_name_once(r@),
        decreases self,
    {
        match self {
            Json::Null => CaptureValue::Nil,
            Json::Bool(b) => CaptureValue::Scalar(Scalar::Bool(*b)),
            Json::Integer(i) => CaptureValue::Scalar(Scalar::Integer(*i)),
            Json::Float(bits) => CaptureValue::Scalar(Scalar::Float(*bits)),
            Json::Text(s) => CaptureValue::Scalar(Scalar::Str(s.clone())),
            Json::Array(items) => {
                let mut values: Vec<CaptureValue> = Vec::new();
                let mut i: usize = 0;
                while i < items.len()
                    invariant
                        i <= items.len(),
                        *self == Json::Array(*items),
                        values@.len() == i,
                        forall|j: int| 0 <= j < i ==> values@[j]@ == value_of_json(items@[j]@),
                        forall|j: int| 0 <= j < i ==> each_name_once(#[trigger] values@[j]@),
                    decreases items.len() - i,
                {
                    assert(decreases_to!(*self => self->Array_0));
                    assert(decreases_to!(*items => items[i as int]));
                    values.push(items[i].convert());
                    i += 1;
                }
                proof {
                    lemma_json_array_view(*items);
                    lemma_value_of_array(json_models(items@));
                    lemma_array_view(values);
                    assert(models(values@) =~= values_of(json_models(items@)));
                    assert forall|j: int| 0 <= j < models(values@).len() implies each_name_once(
                        #[trigger] models(values@)[j],
                    ) by {
                        assert(each_name_once(values@[j]@));
                    }
                }
                CaptureValue::Array(values)
            },
            Json::Object(members) => {
                let mut object = Object::new();
                let mut i: usize = 0;
                let ghost all = values_of_members(member_models(members@));
                assert(all.take(0) =~= Seq::empty());
                while i < members.len()
                    invariant
                        i <= members.len(),
                        *self == Json::Object(*members),
                        all == values_of_members(member_models(members@)),
                        object@ == merged(Seq::empty(), all.take(i as int)),
                        each_name_once(ValueModel::Object(object@)),
                    decreases members.len() - i,
                {
                    assert(decreases_to!(*self => self->Object_0));
                    assert(decreases_to!(*members => members[i as int]));
                    assert(decreases_to!(members[i as int] => members[i as int].1));
                    let member = &members[i];
                    let value = member.1.convert();
                    proof {
                        assert(all.take(i + 1).drop_last() =~= all.take(i as int));
                        assert(all.take(i + 1).last() == (member.0@, value@));
                    }
                    object.insert(member.0.clone(), value);
                    i += 1;
                }
                proof {
                    assert(all.take(members.len() as int) =~= all);
                    lemma_json_object_view(*members);
                    lemma_value_of_object(member_models(members@));
                    lemma_object_view(object);
                }
                CaptureValue::Object(object)
            },
        }
    }
}

impl CaptureValue {
    /// The document that this value is written as.
    pub fn to_json(&self) -> (r: Json)
        ensures
            r@ == json_of_value(self@),
        decreases self,
    {
        match self {
            CaptureValue::Nil => Json::Null,
            CaptureValue::Scalar(Scalar::Bool(b)) => Json::Bool(*b),
            CaptureValue::Scalar(Scalar::Integer(i)) => Json::Integer(*i),
            CaptureValue::Scalar(Scalar::Float(bits)) => {
                if (*bits >> 52) & 0x7ff != 0x7ff {
                    Json::Float(*bits)
                } else {
                    Json::Null
                }
            },
            CaptureValue::Scalar(Scalar::Str(s)) => Json::Text(s.clone()),
            CaptureValue::Array(items) => {
                let mut documents: Vec<Json> = Vec::new();
                let mut i: usize = 0;
                while i < items.len()
                    invariant
                        i <= items.len(),
                        *self == CaptureValue::Array(*items),
                        documents@.len() == i,
                        forall|j: int| 0 <= j < i ==> documents@[j]@ == json_of_value(items@[j]@),
                    decreases items.len() - i,
                {
                    assert(decreases_to!(*self => self->Array_0));
                    assert(decreases_to!(*items => items[i as int]));
                    documents.push(items[i].to_json());
                    i += 1;
                }
                proof {
                    lemma_array_view(*items);
                    lemma_json_of_array(models(items@));
                    lemma_json_array_view(documents);
                    assert(json_models(documents@) =~= jsons_of(models(items@)));
                }
                Json::Array(documents)
            },
            CaptureValue::Object(object) => {
                let mut members: Vec<(String, Json)> = Vec::new();
                let entries = object.entries();
                let mut i: usize = 0;
                while i < entries.len()
                    invariant
                        i <= entries.len(),
                        entries@ == object.pairs(),
                        *self == CaptureValue::Object(*object),
                        members@.len() == i,
                        forall|j: int|
                            0 <= j < i ==> members@[j].0@ == entries@[j].0@ && members@[j].1@ == json_of_value(
                                entries@[j].1@,
                            ),
                    decreases entries.len() - i,
                {
                    proof {
                        assert(decreases_to!(*self => self->Object_0));
                        object.lemma_entry_is_part(i as int);
                    }
                    let entry = &entries[i];
                    members.push((entry.0.clone(), entry.1.to_json()));
                    i += 1;
                }
                proof {
                    lemma_object_view(*object);
                    lemma_json_of_object(object@);
                    lemma_json_object_view(members);
                    assert(member_models(members@) =~= entry_jsons(object@));
                }
                Json::Object(members)
            },
        }
    }
}

/// The text of a document, without any space: a whole number in base ten,
/// a fractional number and a string as serde_json writes them, the items
/// of an array between brackets and the members of an object between
/// braces, in their order and with commas between them, each member as
/// its name, a colon and its document.
pub open spec fn json_text(json: JsonModel) -> Seq<char>
    decreases json, 0nat,
{
    match json {
        JsonModel::Null => "null"@,
        JsonModel::Bool(b) => if b {
            "true"@
        } else {
            "false"@
        },
        JsonModel::Integer(i) => int_text(i),
        JsonModel::Float(bits) => fraction_json(bits),
        JsonModel::Text(s) => string_text(s),
        JsonModel::Array(items) => seq!['['] + items_text(items, items.len()) + seq![']'],
        JsonModel::Object(members) => seq!['{'] + members_text(members, members.len()) + seq!['}'],
    }
}

/// The texts of the first `n` items, with commas between them.
pub open spec fn items_text(items: Seq<JsonModel>, n: nat) -> Seq<char>
    decreases items, n,
{
    if n == 0 || n > items.len() {
        Seq::empty()
    } else if n == 1 {
        json_text(items[0])
    } else {
        items_text(items, (n - 1) as nat) + seq![','] + json_text(items[n - 1])
    }
}

/// The texts of the first `n` members, with commas between them.
pub open spec fn members_text(members: Seq<(Seq<char>, JsonModel)>, n: nat) -> Seq<char>
    decreases members, n,
{
    if n == 0 || n > members.len() {
        Seq::empty()
    } else if n == 1 {
        string_text(members[0].0) + seq![':'] + json_text(members[0].1)
    } else {
        members_text(members, (n - 1) as nat) + seq![','] + string_text(members[n - 1].0) + seq![':']
            + json_text(members[n - 1].1)
    }
}

impl Json {
    /// The text of the document.
    pub fn written(&self) -> (r: String)
        ensures
            r@ == json_text(self@),
        decreases self,
    {
        match self {
            Json::Null => {
                proof {
                    reveal_strlit("null");
                }
                "null".to_owned()
            },
            Json::Bool(b) => {
                proof {
                    reveal_strlit("true");
                    reveal_strlit("false");
                }
                if *b {
                    "true".to_owned()
                } else {
                    "false".to_owned()
                }
            },
            Json::Integer(i) => integer_text(*i),
            Json::Float(bits) => write_fraction(*bits),
            Json::Text(s) => write_string(s.as_str()),
            Json::Array(items) => {
                proof {
                    lemma_json_array_view(*items);
                    reveal_strlit("[");
                    reveal_strlit("]");
                    reveal_strlit(",");
                }
                let ghost all = json_models(items@);
                let mut out = String::from_str("[");
                assert(out@ =~= seq!['['] + items_text(all, 0));
                let mut i: usize = 0;
                while i < items.len()
                    invariant
                        i <= items.len(),
                        *self == Json::Array(*items),
                        all == json_models(items@),
                        out@ == seq!['['] + items_text(all, i as nat),
                    decreases items.len() - i,
                {
                    assert(decreases_to!(*self => self->Array_0));
                    assert(decreases_to!(*items => items[i as int]));
                    let ghost before = out@;
                    if i > 0 {
                        proof {
                            reveal_strlit(",");
                        }
                        out.append(",");
                    }
                    let item = items[i].written();
                    out.append(item.as_str());
                    assert(item@ == json_text(all[i as int]));
                    assert(out@ =~= seq!['['] + items_text(all, (i + 1) as nat));
                    i += 1;
                }
                out.append("]");
                assert(out@ =~= seq!['['] + items_text(all, all.len()) + seq![']']);
                out
            },
            Json::Object(members) => {
                proof {
                    lemma_json_object_view(*members);
                    reveal_strlit("{");
                    reveal_strlit("}");
                }
                let ghost all = member_models(members@);
                let mut out = String::from_str("{");
                assert(out@ =~= seq!['{'] + members_text(all, 0));
                let mut i: usize = 0;
                while i < members.len()
                    invariant
                        i <= members.len(),
                        *self == Json::Object(*members),
                        all == member_models(members@),
                        out@ == seq!['{'] + members_text(all, i as nat),
                    decreases members.len() - i,
                {
                    assert(decreases_to!(*self => self->Object_0));
                    assert(decreases_to!(*members => members[i as int]));
                    assert(decreases_to!(members[i as int] => members[i as int].1));
                    if i > 0 {
                        proof {
                            reveal_strlit(",");
                        }
                        out.append(",");
                    }
                    let name = write_string(members[i].0.as_str());
                    out.append(name.as_str());
                    proof {
                        reveal_strlit(":");
                    }
                    out.append(":");
                    let document = members[i].1.written();
                    out.append(document.as_str());
                    assert(document@ == json_text(all[i as int].1));
                    assert(out@ =~= seq!['{'] + members_text(all, (i + 1) as nat));
                    i += 1;
                }
                out.append("}");
                assert(out@ =~= seq!['{'] + members_text(all, all.len()) + seq!['}']);
                out
            },
        }
    }
}

/// The value that the documents found by a selector collapse to: nothing
/// for none, the value of the only one, and else the array of their values.
pub fn collapse(found: &Vec<Json>) -> (r: CaptureValue)
    ensures
        r@ == collapsed(json_models(found@)),
        each_name_once(r@),
{
    if found.len() == 1 {
        found[0].convert()
    } else if found.len() == 0 {
        CaptureValue::Nil
    } else {
        let mut values: Vec<CaptureValue> = Vec::new();
        let mut i: usize = 0;
        while i < found.len()
            invariant
                i <= found.len(),
                values@.len() == i,
                forall|j: int| 0 <= j < i ==> values@[j]@ == value_of_json(found@[j]@),
                forall|j: int| 0 <= j < i ==> each_name_once(#[trigger] values@[j]@),
            decreases found.len() - i,
        {
            values.push(found[i].convert());
            i += 1;
        }
        proof {
            lemma_array_view(values);
            assert(models(values@) =~= Seq::new(
                json_models(found@).len(),
                |i: int| value_of_json(json_models(found@)[i]),
            ));
            assert forall|j: int| 0 <= j < models(values@).len() implies each_name_once(
                #[trigger] models(values@)[j],
            ) by {
                assert(each_name_once(values@[j]@));
            }
        }
        CaptureValue::Array(values)
    }
}

} // verus!
