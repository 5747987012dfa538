//! The manifest: what a pipeline is made of.

use vstd::prelude::*;
use crate::adapters::base64::{base64_decoded, decode};
use crate::app::error::{Error, ErrorModel};
use crate::app::value::{texts, CaptureValue, Object, Scalar};
use crate::time::timeunit::Duration;

pub use crate::app::assertion::{AssertFunction, Assertion, Variable};
pub use crate::app::capture::{Capture, CaptureEntry};
pub use crate::app::operation::Operation;

verus! {

/// Where code comes from: an address, or the code itself.
#[derive(Debug, Clone, PartialEq, Eq)]
pub enum SourceCode {
    Uri(String),
    Code(String),
}

/// Code of a hook, by its language.
#[derive(Debug, Clone, PartialEq, Eq)]
pub enum Code {
    Js(SourceCode),
    Lua(SourceCode),
}

/// One string or several.
#[derive(Debug, Clone, PartialEq, Eq)]
pub enum VarEntry {
    Single(String),
    Array(Vec<String>),
}

/// The body of a request as the manifest states it: a text, a JSON
/// document as its text, the address of a file, or a base64 text.
#[derive(Debug, Clone, PartialEq, Eq)]
pub enum BodyEntry {
    Raw(String),
    Json(String),
    Uri(String),
    Base64(String),
}

/// Where a resource lies.
#[derive(Debug, Clone, PartialEq, Eq)]
pub enum ResourceType {
    File(String),
}

/// A table that jobs iterate over: where it lies, and the name of the
/// variable that takes its rows.
#[derive(Debug, Clone, PartialEq, Eq)]
pub struct Resource {
    pub kind: ResourceType,
    pub name: String,
}

/// What a job does: an HTTP request with its address, method, headers and
/// body. The address, the header values and the body are templates.
#[derive(Debug, Clone, PartialEq, Eq)]
pub enum JobType {
    Http { request: String, method: String, body: Option<Vec<u8>>, headers: Vec<(String, String)> },
}

/// A job of a group.
#[derive(Debug, Clone, PartialEq, Eq)]
pub struct PipelineEntry {
    pub before: Option<Code>,
    pub after: Option<Code>,
    pub name: String,
    pub job_type: JobType,
    pub vars: Object,
    pub capture: Vec<CaptureEntry>,
    pub on: Vec<Operation>,
    pub assertions: Vec<Assertion>,
    pub delay: Duration,
    pub repeats: u64,
}

/// The groups of a pipeline, in order, each a name and its jobs. A pipeline
/// is meant to name no group twice.
#[derive(Debug, Clone, PartialEq, Eq)]
pub struct Pipeline {
    pub before_all: Option<Code>,
    pub after_all: Option<Code>,
    pub groups: Vec<(String, Vec<PipelineEntry>)>,
}

/// A manifest: the name of the pipeline, where results are collected, the
/// groups, the variables that every job starts from, and the resources.
#[derive(Debug, Clone, PartialEq, Eq)]
pub struct Manifest {
    pub name: String,
    pub collect: String,
    pub pipeline: Pipeline,
    pub vars: Object,
    pub resources: Vec<Resource>,
}

/// Whether no two groups share a name.
pub open spec fn distinct_groups(groups: Seq<(String, Vec<PipelineEntry>)>) -> bool {
    forall|i: int, j: int| 0 <= i < j < groups.len() ==> (#[trigger] groups[i]).0@ != (#[trigger] groups[j]).0@
}

/// Whether no two resources share a name.
pub open spec fn distinct_resources(resources: Seq<Resource>) -> bool {
    forall|i: int, j: int|
        0 <= i < j < resources.len() ==> (#[trigger] resources[i]).name@ != (#[trigger] resources[j]).name@
}

/// How often a job runs where the manifest does not say.
pub fn default_repeats() -> (r: u64)
    ensures
        r == 1,
{
    1
}

/// The message of the error for a body that is no base64.
pub open spec fn not_base64() -> Seq<char> {
    "Body is not base64"@
}

/// The message of the error for a body in a file that was not read.
pub open spec fn file_not_read() -> Seq<char> {
    "Body of a file was not read"@
}

/// The characters that open the address of a file.
pub open spec fn file_scheme() -> Seq<char> {
    seq!['f', 'i', 'l', 'e', ':', '/', '/']
}

/// The path that an address names where it is the address of a file: what
/// follows `file://`, which must not be empty.
pub open spec fn file_path_of(uri: Seq<char>) -> Option<Seq<char>> {
    if uri.len() > 7 && uri.take(7) == file_scheme() {
        Some(uri.skip(7))
    } else {
        None
    }
}

/// The path that an address names where it is the address of a file.
pub fn file_path(uri: &str) -> (r: Option<String>)
    ensures
        match file_path_of(uri@) {
            Some(path) => r matches Some(out) && out@ == path,
            None => r is None,
        },
{
    let chars = crate::text::to_chars(uri);
    if chars.len() > 7 && chars[0] == 'f' && chars[1] == 'i' && chars[2] == 'l' && chars[3] == 'e'
        && chars[4] == ':' && chars[5] == '/' && chars[6] == '/' {
        assert(uri@.take(7) =~= file_scheme());
        let rest = uri.substring_char(7, chars.len());
        assert(uri@.subrange(7, uri@.len() as int) =~= uri@.skip(7));
        Some(rest.to_owned())
    } else {
        proof {
            if uri@.len() > 7 && uri@.take(7) == file_scheme() {
                assert(uri@.take(7)[0] == 'f');
                assert(uri@.take(7)[1] == 'i');
                assert(uri@.take(7)[2] == 'l');
                assert(uri@.take(7)[3] == 'e');
                assert(uri@.take(7)[4] == ':');
                assert(uri@.take(7)[5] == '/');
                assert(uri@.take(7)[6] == '/');
            }
        }
        None
    }
}

impl BodyEntry {
    /// The bytes that the body stands for: what the file holds, for a body
    /// that is one, and nothing for any other.
    pub open spec fn bytes(self, file: Option<Seq<u8>>) -> Result<Seq<u8>, ErrorModel> {
        match self {
            BodyEntry::Raw(text) => Ok(vstd::utf8::encode_utf8(text@)),
            BodyEntry::Json(text) => Ok(vstd::utf8::encode_utf8(text@)),
            BodyEntry::Uri(_) => match file {
                Some(content) => Ok(content),
                None => Err(ErrorModel::Internal(file_not_read())),
            },
            BodyEntry::Base64(text) => match base64_decoded(text@) {
                Some(bytes) => Ok(bytes),
                None => Err(ErrorModel::Syntax(not_base64())),
            },
        }
    }

    /// The path of the file that the body lies in, where it lies in one.
    pub fn source_file(&self) -> (r: Option<String>)
        ensures
            match *self {
                BodyEntry::Uri(uri) => match file_path_of(uri@) {
                    Some(path) => r matches Some(out) && out@ == path,
                    None => r is None,
                },
                _ => r is None,
            },
    {
        match self {
            BodyEntry::Uri(uri) => file_path(uri.as_str()),
            _ => None,
        }
    }

    /// The bytes of the body: a text and a JSON document as UTF-8, a file
    /// as what was read from it, and a base64 text decoded. `Syntax` where
    /// a base64 text is none, `Internal` where a file was not read.
    pub fn into_bytes(self, file: Option<Vec<u8>>) -> (r: Result<Vec<u8>, Error>)
        ensures
            match self.bytes(
                match file {
                    Some(content) => Some(content@),
                    None => None,
                },
            ) {
                Ok(bytes) => r matches Ok(out) && out@ == bytes,
                Err(error) => r matches Err(e) && e@ == error,
            },
    {
        match self {
            BodyEntry::Raw(text) => Ok(text.as_str().as_bytes_vec()),
            BodyEntry::Json(text) => Ok(text.as_str().as_bytes_vec()),
            BodyEntry::Uri(_) => match file {
                Some(content) => Ok(content),
                None => Err(Error::Internal("Body of a file was not read".to_owned())),
            },
            BodyEntry::Base64(text) => match decode(text.as_str()) {
                Some(bytes) => Ok(bytes),
                None => Err(Error::Syntax("Body is not base64".to_owned())),
            },
        }
    }
}

/// Whether two opening braces stand at `i` in `s`.
pub open spec fn braces_at(s: Seq<char>, i: int) -> bool {
    0 <= i && i + 1 < s.len() && s[i] == '{' && s[i + 1] == '{'
}

/// Whether `s` holds two opening braces in a row, as a template does.
pub open spec fn has_braces(s: Seq<char>) -> bool {
    exists|i: int| braces_at(s, i)
}

/// Whether `s` holds a dot.
pub open spec fn has_dot(s: Seq<char>) -> bool {
    exists|i: int| 0 <= i < s.len() && #[trigger] s[i] == '.'
}

/// The place of the first dot in `s`, or the length of `s` where it holds
/// none.
pub open spec fn first_dot(s: Seq<char>) -> int
    decreases s.len(),
{
    if s.len() == 0 || s[0] == '.' {
        0
    } else {
        1 + first_dot(s.skip(1))
    }
}

/// The parts of `s` that dots part, in order; a text without a dot is one
/// part.
pub open spec fn split_dots(s: Seq<char>) -> Seq<Seq<char>>
    decreases s.len(),
{
    let i = first_dot(s);
    if 0 <= i < s.len() {
        seq![s.take(i)] + split_dots(s.skip(i + 1))
    } else {
        seq![s]
    }
}

/// The first dot lies within the text or at its end, and no dot stands
/// before it.
pub proof fn lemma_first_dot(s: Seq<char>)
    ensures
        0 <= first_dot(s) <= s.len(),
        first_dot(s) < s.len() ==> s[first_dot(s)] == '.',
        forall|j: int| 0 <= j < first_dot(s) ==> s[j] != '.',
    decreases s.len(),
{
    if s.len() > 0 && s[0] != '.' {
        lemma_first_dot(s.skip(1));
        assert forall|j: int| 0 <= j < first_dot(s) implies s[j] != '.' by {
            if j > 0 {
                assert(s.skip(1)[j - 1] == s[j]);
            }
        }
    }
}

/// The characters of `chars` from `from` up to `to` as a string.
fn slice_text(text: &str, from: usize, to: usize) -> (r: String)
    requires
        from <= to <= text@.len(),
    ensures
        r@ == text@.subrange(from as int, to as int),
{
    text.substring_char(from, to).to_owned()
}

/// The parts of `text` that dots part, in order.
pub fn split(text: &str) -> (r: Vec<String>)
    ensures
        texts(r@) == split_dots(text@),
{
    let chars = crate::text::to_chars(text);
    let mut parts: Vec<String> = Vec::new();
    let mut start: usize = 0;
    let mut i: usize = 0;
    assert(text@.skip(0) =~= text@);
    while i < chars.len()
        invariant
            start <= i <= chars.len(),
            chars@ == text@,
            split_dots(text@) == texts(parts@) + split_dots(text@.skip(start as int)),
            forall|j: int| start <= j < i ==> text@[j] != '.',
        decreases chars.len() - i,
    {
        if chars[i] == '.' {
            let ghost rest = text@.skip(start as int);
            proof {
                lemma_first_dot(rest);
                let d = first_dot(rest);
                if d < i - start {
                    assert(rest[d] == text@[start + d]);
                } else if d > i - start {
                    assert(rest[i - start] == '.');
                }
                assert(rest.take(i - start) =~= text@.subrange(start as int, i as int));
                assert(rest.skip(i - start + 1) =~= text@.skip(i + 1));
            }
            let ghost before = texts(parts@);
            let part = slice_text(text, start, i);
            parts.push(part);
            assert(texts(parts@) =~= before.push(text@.subrange(start as int, i as int)));
            assert(texts(parts@) + split_dots(text@.skip(i + 1)) =~= before + (seq![
                text@.subrange(start as int, i as int),
            ] + split_dots(text@.skip(i + 1))));
            start = i + 1;
        }
        i += 1;
    }
    let ghost rest = text@.skip(start as int);
    proof {
        lemma_first_dot(rest);
        let d = first_dot(rest);
        if d < rest.len() {
            assert(rest[d] == text@[start + d]);
        }
        assert(rest =~= text@.subrange(start as int, chars.len() as int));
    }
    let ghost before = texts(parts@);
    let part = slice_text(text, start, chars.len());
    parts.push(part);
    assert(texts(parts@) =~= before.push(rest));
    assert(texts(parts@) =~= before + seq![rest]);
    parts
}

/// Whether `text` holds two opening braces in a row.
pub fn contains_braces(text: &str) -> (r: bool)
    ensures
        r == has_braces(text@),
{
    let chars = crate::text::to_chars(text);
    let mut i: usize = 0;
    while i < chars.len() && chars.len() - i > 1
        invariant
            i <= chars.len(),
            chars@ == text@,
            forall|j: int| j < i ==> !braces_at(text@, j),
        decreases chars.len() - i,
    {
        if chars[i] == '{' && chars[i + 1] == '{' {
            assert(braces_at(text@, i as int));
            return true;
        }
        i += 1;
    }
    false
}

/// Whether `text` holds a dot.
pub fn contains_dot(text: &str) -> (r: bool)
    ensures
        r == has_dot(text@),
{
    let chars = crate::text::to_chars(text);
    let mut i: usize = 0;
    while i < chars.len()
        invariant
            i <= chars.len(),
            chars@ == text@,
            forall|j: int| 0 <= j < i ==> text@[j] != '.',
        decreases chars.len() - i,
    {
        if chars[i] == '.' {
            return true;
        }
        i += 1;
    }
    false
}

impl Variable {
    /// What a value of a manifest means in an assertion: a string with two
    /// opening braces in a row is a template, any other string with a dot
    /// is a path of the parts between its dots, and every other value is
    /// itself.
    pub fn from_value(value: CaptureValue) -> (r: Variable)
        ensures
            match value {
                CaptureValue::Scalar(Scalar::Str(s)) => if has_braces(s@) {
                    r matches Variable::Template(t) && t@ == s@
                } else if has_dot(s@) {
                    r matches Variable::Path(path) && texts(path@) == split_dots(s@)
                } else {
                    r matches Variable::Value(v) && v@ == value@
                },
                _ => r matches Variable::Value(v) && v@ == value@,
            },
    {
        match value {
            CaptureValue::Scalar(Scalar::Str(s)) => {
                if contains_braces(s.as_str()) {
                    Variable::Template(s)
                } else if contains_dot(s.as_str()) {
                    Variable::Path(split(s.as_str()))
                } else {
                    Variable::Value(CaptureValue::Scalar(Scalar::Str(s)))
                }
            },
            other => Variable::Value(other),
        }
    }
}

} // verus!
