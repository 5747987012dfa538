//! The documents that records are written as, and the names of their files.

use vstd::prelude::*;
use crate::adapters::ident::{hyphenated, uuid_text};
use crate::app::json::{
    json_models, lemma_json_array_view, lemma_json_object_view, member_models, Json, JsonModel,
};
use crate::reporter::allure::model::attachment::Attachment;
use crate::reporter::allure::model::label::Label;
use crate::reporter::allure::model::link::Link;
use crate::reporter::allure::model::parameter::Parameter;
use crate::reporter::allure::model::status::StatusDetails;
use crate::reporter::allure::model::test_result::{ExecutableItem, TestResult};

verus! {

/// An object of members.
pub open spec fn object(members: Seq<(Seq<char>, JsonModel)>) -> JsonModel {
    JsonModel::Object(members)
}

/// A member that is there only where a text is.
pub open spec fn optional_text(name: Seq<char>, text: Option<String>) -> Seq<(Seq<char>, JsonModel)> {
    match text {
        Some(text) => seq![(name, JsonModel::Text(text@))],
        None => Seq::empty(),
    }
}

/// A member that is there only where an identifier is.
pub open spec fn optional_id(name: Seq<char>, id: Option<u128>) -> Seq<(Seq<char>, JsonModel)> {
    match id {
        Some(id) => seq![(name, JsonModel::Text(uuid_text(id)))],
        None => Seq::empty(),
    }
}

/// The document of the details of a status: the message, and the trace
/// where there is one.
pub open spec fn details_document(details: StatusDetails) -> JsonModel {
    object(seq![("message"@, JsonModel::Text(details.message@))] + optional_text("trace"@, details.trace))
}

/// The document of an attachment.
pub open spec fn attachment_document(attachment: Attachment) -> JsonModel {
    object(
        seq![
            ("name"@, JsonModel::Text(attachment.name@)),
            ("type"@, JsonModel::Text(attachment.media_type@)),
            ("source"@, JsonModel::Text(attachment.source@)),
        ],
    )
}

/// The document of a parameter.
pub open spec fn parameter_document(parameter: Parameter) -> JsonModel {
    object(
        seq![
            ("name"@, JsonModel::Text(parameter.name@)),
            ("value"@, JsonModel::Text(parameter.value@)),
            ("hidden"@, JsonModel::Bool(parameter.hidden)),
            ("excluded"@, JsonModel::Bool(parameter.excluded)),
        ],
    )
}

/// The document of a label: its name, and its value where it carries one.
pub open spec fn label_document(label: Label) -> JsonModel {
    object(
        seq![("name"@, JsonModel::Text(label.tag()))] + (match label.content() {
            Some(value) => seq![("value"@, JsonModel::Text(value))],
            None => Seq::empty(),
        }),
    )
}

/// The document of a link.
pub open spec fn link_document(link: Link) -> JsonModel {
    object(
        seq![
            ("name"@, JsonModel::Text(link.name@)),
            ("url"@, JsonModel::Text(link.url@)),
            ("type"@, JsonModel::Text(link.kind.tag())),
        ],
    )
}

/// The members that an item is written as, in order: its name, status,
/// details and stage, its description, the description as HTML where there
/// is one, its steps, attachments and parameters, and its start and stop.
pub open spec fn item_members(item: ExecutableItem) -> Seq<(Seq<char>, JsonModel)>
    decreases item,
{
    seq![
        ("name"@, JsonModel::Text(item.name@)),
        ("status"@, JsonModel::Text(item.status.tag())),
        ("statusDetails"@, details_document(item.status_details)),
        ("stage"@, JsonModel::Text(item.stage.tag())),
        ("description"@, JsonModel::Text(item.description@)),
    ] + optional_text("descriptionHtml"@, item.description_html) + seq![
        ("steps"@, JsonModel::Array(step_documents(item.steps@))),
        ("attachments"@, JsonModel::Array(attachment_documents(item.attachments@))),
        ("parameters"@, JsonModel::Array(parameter_documents(item.parameters@))),
        ("start"@, JsonModel::Integer(item.start as int)),
        ("stop"@, JsonModel::Integer(item.stop as int)),
    ]
}

/// The documents of the steps of an item, in order.
pub open spec fn step_documents(steps: Seq<ExecutableItem>) -> Seq<JsonModel>
    decreases steps,
{
    Seq::new(
        steps.len(),
        |i: int|
            if 0 <= i < steps.len() {
                JsonModel::Object(item_members(steps[i]))
            } else {
                JsonModel::Null
            },
    )
}

/// The documents of attachments, in order.
pub open spec fn attachment_documents(attachments: Seq<Attachment>) -> Seq<JsonModel> {
    Seq::new(attachments.len(), |i: int| attachment_document(attachments[i]))
}

/// The documents of parameters, in order.
pub open spec fn parameter_documents(parameters: Seq<Parameter>) -> Seq<JsonModel> {
    Seq::new(parameters.len(), |i: int| parameter_document(parameters[i]))
}

/// The documents of labels, in order.
pub open spec fn label_documents(labels: Seq<Label>) -> Seq<JsonModel> {
    Seq::new(labels.len(), |i: int| label_document(labels[i]))
}

/// The documents of links, in order.
pub open spec fn link_documents(links: Seq<Link>) -> Seq<JsonModel> {
    Seq::new(links.len(), |i: int| link_document(links[i]))
}

/// The document of an item.
pub open spec fn item_document(item: ExecutableItem) -> JsonModel {
    JsonModel::Object(item_members(item))
}

/// The document of the record of a test: the members of its item, and then
/// its identifier, the identifier of its history where there is one, its
/// full name, the identifier of its test case, the identifier of the record
/// that it reruns where there is one, its labels and its links.
pub open spec fn result_document(result: TestResult) -> JsonModel {
    JsonModel::Object(
        item_members(result.item) + seq![("uuid"@, JsonModel::Text(uuid_text(result.uuid)))]
            + optional_id("historyId"@, result.history_id) + seq![
            ("fullName"@, JsonModel::Text(result.full_name@)),
            ("testCaseId"@, JsonModel::Text(uuid_text(result.test_case_id))),
        ] + optional_id("rerunOf"@, result.rerun_of) + seq![
            ("labels"@, JsonModel::Array(label_documents(result.labels@))),
            ("links"@, JsonModel::Array(link_documents(result.links@))),
        ],
    )
}

/// Whether the times of an item and of all its steps can be written as
/// whole numbers of 64 bits with a sign.
pub open spec fn timely(item: ExecutableItem) -> bool
    decreases item,
{
    &&& item.start <= i64::MAX
    &&& item.stop <= i64::MAX
    &&& forall|i: int| 0 <= i < item.steps@.len() ==> timely(#[trigger] item.steps@[i])
}

/// The name of the file that the record of a test is written to.
pub open spec fn file_name_of(uuid: u128) -> Seq<char> {
    uuid_text(uuid) + "-result.json"@
}

/// The name of the file that the record of a test is written to.
pub fn file_name(uuid: u128) -> (r: String)
    ensures
        r@ == file_name_of(uuid),
{
    let mut name = hyphenated(uuid);
    name.append("-result.json");
    name
}

/// Adds a member to the members of an object.
fn push_member(members: &mut Vec<(String, Json)>, name: &str, value: Json)
    ensures
        member_models(final(members)@) == member_models(old(members)@).push((name@, value@)),
{
    members.push((name.to_owned(), value));
    assert(member_models(members@) =~= member_models(old(members)@).push((name@, value@)));
}

/// Adds a member that holds a text where there is one.
fn push_optional_text(members: &mut Vec<(String, Json)>, name: &str, text: &Option<String>)
    ensures
        member_models(final(members)@) == member_models(old(members)@) + optional_text(name@, *text),
{
    match text {
        Some(text) => {
            push_member(members, name, Json::Text(text.clone()));
            assert(member_models(members@) =~= member_models(old(members)@) + optional_text(
                name@,
                Some(*text),
            ));
        },
        None => {
            assert(member_models(members@) =~= member_models(old(members)@) + Seq::empty());
        },
    }
}

/// Adds a member that holds an identifier where there is one.
fn push_optional_id(members: &mut Vec<(String, Json)>, name: &str, id: Option<u128>)
    ensures
        member_models(final(members)@) == member_models(old(members)@) + optional_id(name@, id),
{
    match id {
        Some(id) => {
            push_member(members, name, Json::Text(hyphenated(id)));
            assert(member_models(members@) =~= member_models(old(members)@) + optional_id(
                name@,
                Some(id),
            ));
        },
        None => {
            assert(member_models(members@) =~= member_models(old(members)@) + Seq::empty());
        },
    }
}

/// An object of members.
fn object_of(members: Vec<(String, Json)>) -> (r: Json)
    ensures
        r@ == JsonModel::Object(member_models(members@)),
{
    proof {
        lemma_json_object_view(members);
    }
    Json::Object(members)
}

/// An array of documents.
fn array_of(items: Vec<Json>) -> (r: Json)
    ensures
        r@ == JsonModel::Array(json_models(items@)),
{
    proof {
        lemma_json_array_view(items);
    }
    Json::Array(items)
}

/// A text as a document.
fn text_of(text: &str) -> (r: Json)
    ensures
        r@ == JsonModel::Text(text@),
{
    Json::Text(text.to_owned())
}

impl StatusDetails {
    /// The document that the details are written as.
    pub fn to_json(&self) -> (r: Json)
        ensures
            r@ == details_document(*self),
    {
        let mut members: Vec<(String, Json)> = Vec::new();
        assert(member_models(members@) =~= Seq::empty());
        push_member(&mut members, "message", text_of(self.message.as_str()));
        push_optional_text(&mut members, "trace", &self.trace);
        assert(member_models(members@) =~= seq![("message"@, JsonModel::Text(self.message@))]
            + optional_text("trace"@, self.trace));
        object_of(members)
    }
}

impl Attachment {
    /// The document that the attachment is written as.
    pub fn to_json(&self) -> (r: Json)
        ensures
            r@ == attachment_document(*self),
    {
        let mut members: Vec<(String, Json)> = Vec::new();
        assert(member_models(members@) =~= Seq::empty());
        push_member(&mut members, "name", text_of(self.name.as_str()));
        push_member(&mut members, "type", text_of(self.media_type.as_str()));
        push_member(&mut members, "source", text_of(self.source.as_str()));
        assert(member_models(members@) =~= attachment_document(*self)->Object_0);
        object_of(members)
    }
}

impl Parameter {
    /// The document that the parameter is written as.
    pub fn to_json(&self) -> (r: Json)
        ensures
            r@ == parameter_document(*self),
    {
        let mut members: Vec<(String, Json)> = Vec::new();
        assert(member_models(members@) =~= Seq::empty());
        push_member(&mut members, "name", text_of(self.name.as_str()));
        push_member(&mut members, "value", text_of(self.value.as_str()));
        push_member(&mut members, "hidden", Json::Bool(self.hidden));
        push_member(&mut members, "excluded", Json::Bool(self.excluded));
        assert(member_models(members@) =~= parameter_document(*self)->Object_0);
        object_of(members)
    }
}

impl Label {
    /// The document that the label is written as.
    pub fn to_json(&self) -> (r: Json)
        ensures
            r@ == label_document(*self),
    {
        let mut members: Vec<(String, Json)> = Vec::new();
        assert(member_models(members@) =~= Seq::empty());
        push_member(&mut members, "name", text_of(self.name()));
        match self.value() {
            Some(value) => {
                push_member(&mut members, "value", text_of(value));
            },
            None => {},
        }
        assert(member_models(members@) =~= label_document(*self)->Object_0);
        object_of(members)
    }
}

impl Link {
    /// The document that the link is written as.
    pub fn to_json(&self) -> (r: Json)
        ensures
            r@ == link_document(*self),
    {
        let mut members: Vec<(String, Json)> = Vec::new();
        assert(member_models(members@) =~= Seq::empty());
        push_member(&mut members, "name", text_of(self.name.as_str()));
        push_member(&mut members, "url", text_of(self.url.as_str()));
        push_member(&mut members, "type", text_of(self.kind.name()));
        assert(member_models(members@) =~= link_document(*self)->Object_0);
        object_of(members)
    }
}

/// The members that an item is written as, where its times can be written.
fn members_of(item: &ExecutableItem) -> (r: Option<Vec<(String, Json)>>)
    ensures
        timely(*item) ==> (r matches Some(members) && member_models(members@) == item_members(*item)),
        !timely(*item) ==> r is None,
    decreases item,
{
    if item.start > 0x7fff_ffff_ffff_ffff || item.stop > 0x7fff_ffff_ffff_ffff {
        return None;
    }
    let mut steps: Vec<Json> = Vec::new();
    let mut i: usize = 0;
    while i < item.steps.len()
        invariant
            i <= item.steps.len(),
            steps@.len() == i,
            forall|j: int| 0 <= j < i ==> timely(#[trigger] item.steps@[j]),
            forall|j: int| 0 <= j < i ==> (#[trigger] steps@[j])@ == item_document(item.steps@[j]),
        decreases item.steps.len() - i,
    {
        assert(decreases_to!(*item => item.steps));
        assert(decreases_to!(item.steps => item.steps[i as int]));
        match members_of(&item.steps[i]) {
            Some(members) => {
                steps.push(object_of(members));
            },
            None => {
                return None;
            },
        }
        i += 1;
    }
    let mut attachments: Vec<Json> = Vec::new();
    let mut i: usize = 0;
    while i < item.attachments.len()
        invariant
            i <= item.attachments.len(),
            attachments@.len() == i,
            forall|j: int| 0 <= j < i ==> (#[trigger] attachments@[j])@ == attachment_document(item.attachments@[j]),
        decreases item.attachments.len() - i,
    {
        attachments.push(item.attachments[i].to_json());
        i += 1;
    }
    let mut parameters: Vec<Json> = Vec::new();
    let mut i: usize = 0;
    while i < item.parameters.len()
        invariant
            i <= item.parameters.len(),
            parameters@.len() == i,
            forall|j: int| 0 <= j < i ==> (#[trigger] parameters@[j])@ == parameter_document(item.parameters@[j]),
        decreases item.parameters.len() - i,
    {
        parameters.push(item.parameters[i].to_json());
        i += 1;
    }
    let mut members: Vec<(String, Json)> = Vec::new();
    assert(member_models(members@) =~= Seq::empty());
    push_member(&mut members, "name", text_of(item.name.as_str()));
    push_member(&mut members, "status", text_of(item.status.name()));
    push_member(&mut members, "statusDetails", item.status_details.to_json());
    push_member(&mut members, "stage", text_of(item.stage.name()));
    push_member(&mut members, "description", text_of(item.description.as_str()));
    push_optional_text(&mut members, "descriptionHtml", &item.description_html);
    proof {
        assert(json_models(steps@) =~= step_documents(item.steps@));
        assert(json_models(attachments@) =~= attachment_documents(item.attachments@));
        assert(json_models(parameters@) =~= parameter_documents(item.parameters@));
    }
    push_member(&mut members, "steps", array_of(steps));
    push_member(&mut members, "attachments", array_of(attachments));
    push_member(&mut members, "parameters", array_of(parameters));
    push_member(&mut members, "start", Json::Integer(item.start as i64));
    push_member(&mut members, "stop", Json::Integer(item.stop as i64));
    assert(member_models(members@) =~= item_members(*item));
    Some(members)
}

impl ExecutableItem {
    /// The document that the item is written as; `None` where a time of
    /// the item or of one of its steps is beyond what a whole number of 64
    /// bits with a sign holds.
    pub fn to_json(&self) -> (r: Option<Json>)
        ensures
            timely(*self) ==> (r matches Some(json) && json@ == item_document(*self)),
            !timely(*self) ==> r is None,
    {
        match members_of(self) {
            Some(members) => Some(object_of(members)),
            None => None,
        }
    }
}

impl TestResult {
    /// The document that the record is written as; `None` where a time of
    /// the item or of one of its steps is beyond what a whole number of 64
    /// bits with a sign holds.
    pub fn to_json(&self) -> (r: Option<Json>)
        ensures
            timely(self.item) ==> (r matches Some(json) && json@ == result_document(*self)),
            !timely(self.item) ==> r is None,
    {
        let mut members = match members_of(&self.item) {
            Some(members) => members,
            None => {
                return None;
            },
        };
        let mut labels: Vec<Json> = Vec::new();
        let mut i: usize = 0;
        while i < self.labels.len()
            invariant
                i <= self.labels.len(),
                labels@.len() == i,
                forall|j: int| 0 <= j < i ==> (#[trigger] labels@[j])@ == label_document(self.labels@[j]),
            decreases self.labels.len() - i,
        {
            labels.push(self.labels[i].to_json());
            i += 1;
        }
        let mut links: Vec<Json> = Vec::new();
        let mut i: usize = 0;
        while i < self.links.len()
            invariant
                i <= self.links.len(),
                links@.len() == i,
                forall|j: int| 0 <= j < i ==> (#[trigger] links@[j])@ == link_document(self.links@[j]),
            decreases self.links.len() - i,
        {
            links.push(self.links[i].to_json());
            i += 1;
        }
        proof {
            assert(json_models(labels@) =~= label_documents(self.labels@));
            assert(json_models(links@) =~= link_documents(self.links@));
        }
        push_member(&mut members, "uuid", Json::Text(hyphenated(self.uuid)));
        push_optional_id(&mut members, "historyId", self.history_id);
        push_member(&mut members, "fullName", text_of(self.full_name.as_str()));
        push_member(&mut members, "testCaseId", Json::Text(hyphenated(self.test_case_id)));
        push_optional_id(&mut members, "rerunOf", self.rerun_of);
        push_member(&mut members, "labels", array_of(labels));
        push_member(&mut members, "links", array_of(links));
        assert(member_models(members@) =~= result_document(*self)->Object_0);
        Some(object_of(members))
    }
}

} // verus!
