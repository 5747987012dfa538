//! Jobs: requests that are rendered over a context and handed to a sender.

use std::sync::Arc;
use vstd::prelude::*;
use vstd::utf8::{decode_utf8, encode_utf8, valid_utf8};
use crate::adapters::clock;
use crate::adapters::text::utf8_text;
use crate::app::capture::Convert;
use crate::app::context::{
    file_models, has_markup, lemma_distinct_stay, lemma_no_place, lemma_place, lemma_with_items_distinct,
    named_once, unrenderable, with_items, Context,
};
use crate::app::reversed;
use crate::app::error::{Error, ErrorModel};
use crate::app::executor::{ExecutionResponse, JobExecutionHooks};
use crate::app::value::{
    each_name_once, lemma_object_view, put, CaptureValue, Object, ObjectModel, Scalar, ValueModel,
};
use crate::text::same_text;
use crate::time::timeunit::Duration;

verus! {

/// A request as it goes to the sender: every template has been rendered.
#[derive(Debug, PartialEq, Eq)]
pub struct PreparedRequest {
    pub uri: String,
    pub method: String,
    pub headers: Vec<(String, String)>,
    pub body: Vec<u8>,
}

/// What the sender got back: the status, the headers with their values as
/// bytes, and the body.
#[derive(Debug, PartialEq, Eq)]
pub struct Response {
    pub status: u16,
    pub headers: Vec<(String, Vec<u8>)>,
    pub body: Vec<u8>,
}

/// What sends a request and hands back the response, or the message of
/// what went wrong on the way.
pub trait SendMessage {
    fn send(&self, request: PreparedRequest) -> Result<Response, String>;
}

/// A request whose address, header values and body are templates, and the
/// sender that it goes to. No two of its headers share a name.
pub struct HttpJob<T: SendMessage> {
    request: String,
    method: String,
    headers: Vec<(String, String)>,
    body: Option<Vec<u8>>,
    client: Arc<T>,
}

/// The name under which the headers of a response stand among the extras.
pub open spec fn headers_key() -> Seq<char> {
    "headers"@
}

/// The headers of a response as byte sequences under their names.
pub open spec fn header_models(headers: Seq<(String, Vec<u8>)>) -> Seq<(Seq<char>, Seq<u8>)> {
    Seq::new(headers.len(), |i: int| (headers[i].0@, headers[i].1@))
}

/// The entries that headers give: each value that is UTF-8 is set as a
/// string under its header's name, in order; a value that is no UTF-8 is
/// left out.
pub open spec fn header_entries(headers: Seq<(Seq<char>, Seq<u8>)>) -> ObjectModel
    decreases headers.len(),
{
    if headers.len() == 0 {
        Seq::empty()
    } else {
        let front = header_entries(headers.drop_last());
        if valid_utf8(headers.last().1) {
            put(front, headers.last().0, ValueModel::Str(decode_utf8(headers.last().1)))
        } else {
            front
        }
    }
}

/// The headers that go to the sender: each name of the job with the value
/// of its place among the rendered values, and one beyond them with its
/// own.
pub open spec fn sent_headers(headers: Seq<(String, String)>, values: Seq<String>) -> Seq<
    (Seq<char>, Seq<char>),
> {
    Seq::new(
        headers.len(),
        |i: int|
            (
                headers[i].0@,
                if i < values.len() {
                    values[i]@
                } else {
                    headers[i].1@
                },
            ),
    )
}

/// The body that goes to the sender: none where the job has none; the
/// bytes of the rendered text where the job's body is UTF-8 and was
/// rendered; and else the job's body as it is.
pub open spec fn sent_body(body: Option<Seq<u8>>, text: Option<Seq<char>>) -> Seq<u8> {
    match body {
        None => Seq::empty(),
        Some(raw) => match text {
            Some(rendered) if valid_utf8(raw) => encode_utf8(rendered),
            _ => raw,
        },
    }
}

/// The headers of a response as an object of strings.
pub fn headers_value(headers: &Vec<(String, Vec<u8>)>) -> (r: CaptureValue)
    ensures
        r@ == ValueModel::Object(header_entries(header_models(headers@))),
        each_name_once(r@),
{
    let ghost all = header_models(headers@);
    let mut object = Object::new();
    let mut i: usize = 0;
    assert(all.take(0) =~= Seq::empty());
    while i < headers.len()
        invariant
            i <= headers.len(),
            all == header_models(headers@),
            object@ == header_entries(all.take(i as int)),
            object.well_formed(),
        decreases headers.len() - i,
    {
        assert(all.take(i + 1).drop_last() =~= all.take(i as int));
        assert(all.take(i + 1).last() == (headers@[i as int].0@, headers@[i as int].1@));
        match utf8_text(headers[i].1.as_slice()) {
            Some(text) => {
                object.insert(headers[i].0.clone(), CaptureValue::Scalar(Scalar::Str(text)));
            },
            None => {},
        }
        i += 1;
    }
    proof {
        assert(all.take(all.len() as int) =~= all);
        lemma_object_view(object);
    }
    CaptureValue::Object(object)
}

impl Convert<CaptureValue> for Vec<(String, Vec<u8>)> {
    fn convert(&self) -> (r: CaptureValue)
        ensures
            r@ == ValueModel::Object(header_entries(header_models(self@))),
    {
        headers_value(self)
    }
}

/// What a sending is taken for: a response with its headers among the
/// extras and the time it took, or `Connection` with the sender's message.
pub fn package(outcome: Result<Response, String>, elapsed: Duration) -> (r: Result<
    ExecutionResponse,
    Error,
>)
    ensures
        match outcome {
            Ok(response) => r matches Ok(packed) && packed.body_bytes() == response.body@
                && packed.extras() == seq![
                (headers_key(), ValueModel::Object(header_entries(header_models(response.headers@)))),
            ] && packed.time() == elapsed,
            Err(message) => r matches Err(e) && e@ == ErrorModel::Connection(message@),
        },
{
    match outcome {
        Ok(response) => {
            let mut additional = Object::new();
            additional.insert("headers".to_owned(), headers_value(&response.headers));
            proof {
                crate::app::value::lemma_no_key(Seq::empty(), headers_key());
            }
            Ok(ExecutionResponse::new(response.body, additional, elapsed))
        },
        Err(message) => Err(Error::Connection(message)),
    }
}

/// The headers of which each bears its name alone: a later header of a
/// name stands in the place of an earlier one.
fn named_headers(headers: Vec<(String, String)>) -> (r: Vec<(String, String)>)
    ensures
        file_models(r@) == with_items(Seq::empty(), file_models(headers@)),
{
    let ghost all = file_models(headers@);
    let mut pending = reversed(headers);
    let mut out: Vec<(String, String)> = Vec::new();
    let ghost mut seen: int = 0;
    assert(all.take(0) =~= Seq::empty());
    assert(file_models(out@) =~= Seq::empty());
    while pending.len() > 0
        invariant
            0 <= seen <= all.len(),
            pending@.len() == all.len() - seen,
            forall|k: int|
                0 <= k < pending@.len() ==> (#[trigger] pending@[k].0@, pending@[k].1@) == all[all.len() - 1 - k],
            file_models(out@) == with_items(Seq::empty(), all.take(seen)),
        decreases pending@.len(),
    {
        proof {
            assert(all.take(seen + 1).drop_last() =~= all.take(seen));
            assert(all.take(seen + 1).last() == all[seen]);
        }
        let ghost waiting = pending@;
        match pending.pop() {
            Some((name, value)) => {
                assert((name@, value@) == all[seen]) by {
                    assert((waiting[waiting.len() - 1].0@, waiting[waiting.len() - 1].1@) == all[seen]);
                }
                assert forall|k: int| 0 <= k < pending@.len() implies (#[trigger] pending@[k].0@, pending@[k].1@)
                    == all[all.len() - 1 - k] by {
                    assert(pending@[k] == waiting[k]);
                    assert((waiting[k].0@, waiting[k].1@) == all[all.len() - 1 - k]);
                }
                let ghost before = file_models(out@);
                let mut i: usize = 0;
                while i < out.len() && !same_text(out[i].0.as_str(), name.as_str())
                    invariant
                        i <= out.len(),
                        file_models(out@) == before,
                        forall|k: int| 0 <= k < i ==> (#[trigger] before[k]).0 != name@,
                    decreases out.len() - i,
                {
                    i += 1;
                }
                if i < out.len() {
                    proof {
                        lemma_place(before, name@, 0, i as int);
                    }
                    out.set(i, (name, value));
                    assert(file_models(out@) =~= before.update(i as int, (name@, value@)));
                } else {
                    proof {
                        lemma_no_place(before, name@, 0);
                    }
                    out.push((name, value));
                    assert(file_models(out@) =~= before.push((name@, value@)));
                }
                proof {
                    seen = seen + 1;
                }
            },
            None => {},
        }
    }
    assert(all.take(all.len() as int) =~= all);
    out
}

impl<T: SendMessage> HttpJob<T> {
    /// No two headers share a name.
    #[verifier::type_invariant]
    spec fn distinct(self) -> bool {
        named_once(file_models(self.headers@))
    }

    /// The address, as a template.
    pub closed spec fn request(&self) -> Seq<char> {
        self.request@
    }

    /// The method.
    pub closed spec fn method(&self) -> Seq<char> {
        self.method@
    }

    /// The headers: names, and values as templates.
    pub closed spec fn headers(&self) -> Seq<(String, String)> {
        self.headers@
    }

    /// The body, where there is one.
    pub closed spec fn body(&self) -> Option<Seq<u8>> {
        match self.body {
            Some(body) => Some(body@),
            None => None,
        }
    }

    /// The sender that the job hands its requests to.
    pub closed spec fn client(&self) -> Arc<T> {
        self.client
    }

    /// A job of these parts; of headers that share a name, a later one
    /// stands in the place of an earlier one.
    pub fn new(
        request: String,
        method: String,
        headers: Vec<(String, String)>,
        body: Option<Vec<u8>>,
        client: Arc<T>,
    ) -> (r: HttpJob<T>)
        ensures
            r.request() == request@,
            r.method() == method@,
            file_models(r.headers()) == with_items(Seq::empty(), file_models(headers@)),
            named_once(file_models(headers@)) ==> file_models(r.headers()) == file_models(headers@),
            r.body() == (match body {
                Some(bytes) => Some(bytes@),
                None => None,
            }),
            r.client() == client,
    {
        proof {
            lemma_with_items_distinct(file_models(headers@));
            if named_once(file_models(headers@)) {
                lemma_distinct_stay(file_models(headers@));
            }
        }
        let headers = named_headers(headers);
        HttpJob { request, method, headers, body, client }
    }

    /// Whether a part of the job holds markup, so that the template engine
    /// says what it renders to: the address, the value of a header, or a
    /// body that is UTF-8.
    pub open spec fn needs_engine(&self) -> bool {
        ||| has_markup(self.request())
        ||| exists|i: int| 0 <= i < self.headers().len() && has_markup((#[trigger] self.headers()[i]).1@)
        ||| self.body() matches Some(raw) && valid_utf8(raw) && has_markup(decode_utf8(raw))
    }

    /// Whether rendering a part of the job is sure to fail: the address,
    /// the value of a header, or a body that is UTF-8.
    pub open spec fn unrenderable(&self, standard: bool) -> bool {
        ||| unrenderable(self.request(), standard)
        ||| exists|i: int|
            0 <= i < self.headers().len() && unrenderable((#[trigger] self.headers()[i]).1@, standard)
        ||| self.body() matches Some(raw) && valid_utf8(raw) && unrenderable(decode_utf8(raw), standard)
    }

    /// The request that goes to the sender once the parts are rendered.
    ///
    /// The address is `uri`. The method and the headers' names are the
    /// job's; each header bears the value of its place among `values`, and
    /// one beyond them its own. Where the job has no body, none goes out.
    /// Where its body is UTF-8 and `text` holds what it rendered to, the
    /// bytes of that text go out, and else the body as it is.
    pub fn assemble(&self, uri: String, values: Vec<String>, text: Option<String>) -> (r: PreparedRequest)
        ensures
            r.uri@ == uri@,
            r.method@ == self.method(),
            file_models(r.headers@) == sent_headers(self.headers(), values@),
            r.body@ == sent_body(
                self.body(),
                match text {
                    Some(rendered) => Some(rendered@),
                    None => None,
                },
            ),
    {
        let mut headers: Vec<(String, String)> = Vec::new();
        let mut i: usize = 0;
        while i < self.headers.len()
            invariant
                i <= self.headers.len(),
                headers@.len() == i,
                forall|j: int|
                    0 <= j < i ==> (#[trigger] headers@[j]).0@ == self.headers@[j].0@ && headers@[j].1@ == (if j
                        < values@.len() {
                        values@[j]@
                    } else {
                        self.headers@[j].1@
                    }),
            decreases self.headers.len() - i,
        {
            let value = if i < values.len() {
                values[i].clone()
            } else {
                self.headers[i].1.clone()
            };
            headers.push((self.headers[i].0.clone(), value));
            i += 1;
        }
        assert(file_models(headers@) =~= sent_headers(self.headers(), values@));
        let body = match &self.body {
            Some(bytes) => match (utf8_text(bytes.as_slice()), text) {
                (Some(_), Some(rendered)) => rendered.as_str().as_bytes_vec(),
                _ => bytes.clone(),
            },
            None => Vec::new(),
        };
        PreparedRequest { uri, method: self.method.clone(), headers, body }
    }

    /// Renders the address, the header values and the body over a context,
    /// and hands them to [`HttpJob::assemble`].
    ///
    /// The method and the headers' names stay as they are, and so does
    /// every part that holds no markup. A body that is UTF-8 is rendered as
    /// a template; any other body goes out as it is, and no body goes out
    /// as no bytes. `Syntax` where the template engine reports an error or
    /// a part is not handed to it; a job of which no part holds markup
    /// gives none.
    pub fn prepare(&self, ctx: &Context) -> (r: Result<PreparedRequest, Error>)
        ensures
            r matches Ok(prepared) ==> {
                &&& prepared.method@ == self.method()
                &&& !has_markup(self.request()) ==> prepared.uri@ == self.request()
                &&& prepared.headers@.len() == self.headers().len()
                &&& forall|i: int|
                    0 <= i < self.headers().len() ==> (#[trigger] prepared.headers@[i]).0@
                        == self.headers()[i].0@ && (!has_markup(self.headers()[i].1@)
                        ==> prepared.headers@[i].1@ == self.headers()[i].1@)
                &&& self.body() is None ==> prepared.body@ == Seq::<u8>::empty()
                &&& (self.body() matches Some(raw) && !(valid_utf8(raw) && has_markup(decode_utf8(raw))))
                    ==> prepared.body@ == self.body()->0
            },
            r matches Err(e) ==> e is Syntax,
            !self.needs_engine() ==> r is Ok,
            self.unrenderable(ctx.standard()) ==> r is Err,
    {
        let uri = match ctx.apply(self.request.as_str()) {
            Ok(uri) => uri,
            Err(e) => {
                return Err(e);
            },
        };
        let mut values: Vec<String> = Vec::new();
        let mut i: usize = 0;
        while i < self.headers.len()
            invariant
                i <= self.headers.len(),
                values@.len() == i,
                forall|j: int| 0 <= j < i ==> !unrenderable((#[trigger] self.headers@[j]).1@, ctx.standard()),
                forall|j: int|
                    0 <= j < i ==> (!has_markup((#[trigger] self.headers@[j]).1@) ==> values@[j]@
                        == self.headers@[j].1@),
            decreases self.headers.len() - i,
        {
            let value = match ctx.apply(self.headers[i].1.as_str()) {
                Ok(value) => value,
                Err(e) => {
                    assert(has_markup(self.headers()[i as int].1@));
                    return Err(e);
                },
            };
            values.push(value);
            i += 1;
        }
        let text = match &self.body {
            Some(bytes) => match utf8_text(bytes.as_slice()) {
                Some(text) => match ctx.apply(text.as_str()) {
                    Ok(rendered) => {
                        proof {
                            vstd::utf8::decode_utf8_encode_utf8(bytes@);
                        }
                        Some(rendered)
                    },
                    Err(e) => {
                        return Err(e);
                    },
                },
                None => None,
            },
            None => None,
        };
        let prepared = self.assemble(uri, values, text);
        proof {
            assert(file_models(prepared.headers@).len() == self.headers().len());
            assert forall|i: int| 0 <= i < self.headers().len() implies (#[trigger] prepared.headers@[i]).0@
                == self.headers()[i].0@ && (!has_markup(self.headers()[i].1@) ==> prepared.headers@[i].1@
                == self.headers()[i].1@) by {
                let sent = sent_headers(self.headers(), values@);
                assert(file_models(prepared.headers@)[i] == sent[i]);
                assert(file_models(prepared.headers@)[i] == (prepared.headers@[i].0@, prepared.headers@[i].1@));
                assert(sent[i] == (self.headers()[i].0@, values@[i]@));
                assert(self.headers@[i] == self.headers()[i]);
            }
        }
        Ok(prepared)
    }
}

impl<T: SendMessage> JobExecutionHooks for HttpJob<T> {
    /// Renders the request over a context, hands it to the sender, and
    /// packs what comes back with the time that the sender took.
    ///
    /// `Syntax` where the template engine reports an error or a part is
    /// not handed to it, and then nothing is sent; `Connection` where the
    /// sender reports one. A response comes back with its headers, as an
    /// object, for its only extra.
    fn execute(&self, context: &Context) -> (r: Result<ExecutionResponse, Error>)
        ensures
            r matches Err(e) ==> e is Syntax || e is Connection,
            !self.needs_engine() ==> !(r matches Err(Error::Syntax(_))),
            self.unrenderable(context.standard()) ==> r matches Err(Error::Syntax(_)),
            r matches Ok(packed) ==> packed.extras().len() == 1 && packed.extras()[0].0 == headers_key()
                && packed.extras()[0].1 is Object,
    {
        let prepared = match self.prepare(context) {
            Ok(prepared) => prepared,
            Err(e) => {
                return Err(e);
            },
        };
        let watch = clock::start();
        let outcome = self.client.send(prepared);
        let elapsed = Duration { nanos: clock::elapsed_nanos(&watch) };
        package(outcome, elapsed)
    }
}

} // verus!
