//! Records of comma-separated values, as `csv` writes them.

use vstd::prelude::*;
use crate::app::value::texts;

verus! {

/// What a fresh `csv::Writer` with the default settings writes for one
/// record: its fields, quoted where needed and parted by commas, and a line
/// end; nothing where the writer reports an error.
pub uninterp spec fn csv_record(fields: Seq<Seq<char>>) -> Option<Seq<u8>>;

/// Calls `csv::WriterBuilder::new`, `from_writer` on an empty vector,
/// `write_record` on the fields and `into_inner`: the bytes that were
/// written, or `None` where a call reports an error.
#[verifier::external_body]
pub(crate) fn encode_record(fields: &Vec<String>) -> (r: Option<Vec<u8>>)
    ensures
        match csv_record(texts(fields@)) {
            Some(bytes) => r matches Some(out) && out@ == bytes,
            None => r is None,
        },
{
    let mut writer = csv::WriterBuilder::new().from_writer(Vec::new());
    writer.write_record(fields).ok()?;
    writer.into_inner().ok()
}

} // verus!
