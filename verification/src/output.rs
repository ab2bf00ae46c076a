//! The bytes of a result file. A run is written as plain text, as a JSON
//! array of strings or as CSV, one record per result line.

use vstd::prelude::*;
use vstd::string::{StrSliceExecFns, StringExecFns};
use vstd::utf8::encode_utf8;
use crate::text::{same_text, texts};

verus! {

/// The formats of a result file.
#[derive(Clone, Copy, Debug, PartialEq, Eq, Structural)]
pub enum OutputFormat {
    PlainText,
    Json,
    Csv,
}

/// The error of a serialiser that refuses its input. Lists of lines are never
/// refused; the type stands for what the serialisers can answer in general.
#[derive(Clone, Copy, Debug, PartialEq, Eq, Structural)]
pub enum OutputError {
    /// The JSON serialiser refused its input.
    Json,
    /// The CSV writer refused a record, or could not hand out its bytes.
    Csv,
}

/// The format that a name stands for: `Json`, `Csv`, and plain text for any
/// other name.
pub open spec fn spec_format(name: Seq<char>) -> OutputFormat {
    if name == "Json"@ {
        OutputFormat::Json
    } else if name == "Csv"@ {
        OutputFormat::Csv
    } else {
        OutputFormat::PlainText
    }
}

impl OutputFormat {
    /// The format that a name stands for.
    pub fn from_name(name: &str) -> (format: OutputFormat)
        ensures
            format == spec_format(name@),
    {
        if same_text(name, "Json") {
            OutputFormat::Json
        } else if same_text(name, "Csv") {
            OutputFormat::Csv
        } else {
            OutputFormat::PlainText
        }
    }
}

/// The text of a plain result file: each line, and a line feed behind it.
pub open spec fn spec_plain_text(lines: Seq<Seq<char>>) -> Seq<char>
    decreases lines.len(),
{
    if lines.len() == 0 {
        Seq::empty()
    } else {
        spec_plain_text(lines.drop_last()) + lines.last() + "\n"@
    }
}

/// The text of a plain result file.
pub fn plain_text(lines: &Vec<String>) -> (text: String)
    ensures
        text@ == spec_plain_text(texts(lines@)),
{
    let ghost all = texts(lines@);
    let mut text = String::new();
    let mut i: usize = 0;
    assert(all.take(0) =~= Seq::empty());
    while i < lines.len()
        invariant
            i <= lines.len(),
            all == texts(lines@),
            text@ == spec_plain_text(all.take(i as int)),
        decreases lines.len() - i,
    {
        assert(all.take(i + 1).drop_last() =~= all.take(i as int));
        assert(all.take(i + 1).last() == lines@[i as int]@);
        text.append(lines[i].as_str());
        text.append("\n");
        i = i + 1;
    }
    assert(all.take(lines.len() as int) =~= all);
    text
}

/// An error of `serde_json`.
#[verifier::external_type_specification]
#[verifier::external_body]
pub struct ExJsonError(serde_json::Error);

/// The compact JSON text of an array of strings, as `serde_json` writes it.
pub uninterp spec fn json_text(items: Seq<Seq<char>>) -> Seq<char>;

/// `serde_json::to_value` on a list of strings, and the text that the value
/// displays as: the compact JSON text of the array of those strings. On a
/// list of strings the call does not fail: it only builds a string value for
/// each and an array of them.
#[verifier::external_body]
fn json_array(items: &Vec<String>) -> (r: Result<String, serde_json::Error>)
    ensures
        r is Ok,
        r matches Ok(text) ==> text@ == json_text(texts(items@)),
{
    serde_json::to_value(items).map(|value| value.to_string())
}

/// What a JSON result file comes to for each answer of the serialiser: its
/// text, or the error of this format.
pub fn json_outcome(made: Result<String, serde_json::Error>) -> (r: Result<String, OutputError>)
    ensures
        match made {
            Ok(text) => r == Ok::<String, OutputError>(text),
            Err(_) => r == Err::<String, OutputError>(OutputError::Json),
        },
{
    match made {
        Ok(text) => Ok(text),
        Err(_) => Err(OutputError::Json),
    }
}

/// The text of a JSON result file: an array of the lines as strings. It is
/// made for every list of lines.
pub fn json_document(lines: &Vec<String>) -> (r: Result<String, OutputError>)
    ensures
        r is Ok,
        r matches Ok(text) ==> text@ == json_text(texts(lines@)),
{
    json_outcome(json_array(lines))
}

/// A CSV writer of `csv` that writes into memory.
#[verifier::external_body]
pub struct CsvBuffer {
    writer: csv::Writer<Vec<u8>>,
}

/// An error of `csv`.
#[verifier::external_type_specification]
#[verifier::external_body]
pub struct ExCsvError(csv::Error);

/// What a CSV writer was given so far, as the bytes that stand for it.
pub uninterp spec fn csv_written(buffer: CsvBuffer) -> Seq<u8>;

/// The bytes of a CSV record of one field, terminator included.
pub uninterp spec fn csv_record(field: Seq<char>) -> Seq<u8>;

/// `csv::Writer::from_writer` on an empty vector: a writer that was given
/// nothing yet.
#[verifier::external_body]
fn csv_writer() -> (buffer: CsvBuffer)
    ensures
        csv_written(buffer) == Seq::<u8>::empty(),
{
    CsvBuffer { writer: csv::Writer::from_writer(Vec::new()) }
}

/// `csv::Writer::write_record` with one field: the record of that field
/// stands behind what was written before. The call does not fail here: every
/// record of such a writer has one field, and it writes into memory.
#[verifier::external_body]
fn csv_write(buffer: &mut CsvBuffer, field: &str) -> (r: Result<(), csv::Error>)
    ensures
        r is Ok && csv_written(*final(buffer)) == csv_written(*old(buffer)) + csv_record(field@),
{
    buffer.writer.write_record(&[field])
}

/// `csv::Writer::into_inner`: the bytes of all that the writer was given. The
/// call only moves what is pending into the vector in memory, so it hands the
/// vector out.
#[verifier::external_body]
fn csv_finish(buffer: CsvBuffer) -> (bytes: Option<Vec<u8>>)
    ensures
        bytes is Some,
        bytes matches Some(b) ==> b@ == csv_written(buffer),
{
    buffer.writer.into_inner().ok()
}

/// The bytes of a CSV result file: the records of the lines, one field each.
pub open spec fn spec_csv_document(lines: Seq<Seq<char>>) -> Seq<u8>
    decreases lines.len(),
{
    if lines.len() == 0 {
        Seq::empty()
    } else {
        spec_csv_document(lines.drop_last()) + csv_record(lines.last())
    }
}

/// What writing one CSV record comes to for each answer of the writer: the
/// next record is due, or the error of this format.
pub fn csv_record_outcome(written: Result<(), csv::Error>) -> (r: Result<(), OutputError>)
    ensures
        r == (match written {
            Ok(_) => Ok::<(), OutputError>(()),
            Err(_) => Err::<(), OutputError>(OutputError::Csv),
        }),
{
    match written {
        Ok(_) => Ok(()),
        Err(_) => Err(OutputError::Csv),
    }
}

/// What a CSV result file comes to once all records are written: the bytes
/// that the writer hands out, or the error of this format where it has none.
pub fn csv_bytes_outcome(bytes: Option<Vec<u8>>) -> (r: Result<Vec<u8>, OutputError>)
    ensures
        r == (match bytes {
            Some(b) => Ok::<Vec<u8>, OutputError>(b),
            None => Err::<Vec<u8>, OutputError>(OutputError::Csv),
        }),
{
    match bytes {
        Some(b) => Ok(b),
        None => Err(OutputError::Csv),
    }
}

/// The bytes of a CSV result file. It is made for every list of lines.
pub fn csv_document(lines: &Vec<String>) -> (r: Result<Vec<u8>, OutputError>)
    ensures
        r is Ok,
        r matches Ok(bytes) ==> bytes@ == spec_csv_document(texts(lines@)),
{
    let ghost all = texts(lines@);
    let mut writer = csv_writer();
    let mut i: usize = 0;
    assert(all.take(0) =~= Seq::empty());
    while i < lines.len()
        invariant
            i <= lines.len(),
            all == texts(lines@),
            csv_written(writer) == spec_csv_document(all.take(i as int)),
        decreases lines.len() - i,
    {
        assert(all.take(i + 1).drop_last() =~= all.take(i as int));
        assert(all.take(i + 1).last() == lines@[i as int]@);
        match csv_record_outcome(csv_write(&mut writer, lines[i].as_str())) {
            Ok(_) => {},
            Err(e) => {
                return Err(e);
            },
        }
        i = i + 1;
    }
    assert(all.take(lines.len() as int) =~= all);
    csv_bytes_outcome(csv_finish(writer))
}

/// The bytes of a result file in a format.
pub open spec fn spec_render(lines: Seq<Seq<char>>, format: OutputFormat) -> Seq<u8> {
    match format {
        OutputFormat::PlainText => encode_utf8(spec_plain_text(lines)),
        OutputFormat::Json => encode_utf8(json_text(lines)),
        OutputFormat::Csv => spec_csv_document(lines),
    }
}

/// The bytes of the result file of a run in the format that `format` names.
/// Every list of lines has its file in each of the formats.
pub fn render_results(lines: &Vec<String>, format: &str) -> (r: Result<Vec<u8>, OutputError>)
    ensures
        r is Ok,
        r matches Ok(bytes) ==> bytes@ == spec_render(texts(lines@), spec_format(format@)),
{
    match OutputFormat::from_name(format) {
        OutputFormat::PlainText => Ok(plain_text(lines).as_str().as_bytes_vec()),
        OutputFormat::Json => match json_document(lines) {
            Ok(text) => Ok(text.as_str().as_bytes_vec()),
            Err(e) => Err(e),
        },
        OutputFormat::Csv => csv_document(lines),
    }
}

} // verus!
