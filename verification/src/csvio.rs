//! The crate's one boundary with the CSV format itself: encoding a row of
//! fields as one CSV line and splitting CSV text into rows of fields, both
//! done by the csv crate. Everything around these two calls is verified
//! against the names `csv_row_of` and `csv_rows_of`.

use vstd::prelude::*;

verus! {

/// The CSV line (comma-separated, quoted where needed, `\n`-terminated) that
/// encodes one row of fields; it depends on the fields alone.
pub uninterp spec fn csv_row_of(fields: Seq<Seq<char>>) -> Seq<char>;

/// The rows of fields a CSV text holds, in file order; they depend on the
/// text alone.
pub uninterp spec fn csv_rows_of(text: Seq<char>) -> Seq<Seq<Seq<char>>>;

/// Relies on csv::Writer::write_record: one CSV-encoded line for the given
/// fields, written to an in-memory buffer; with delimiter, quote and
/// terminator at their defaults the line is a function of the fields alone.
/// The call succeeds: the in-memory buffer accepts every write and flush, a
/// single record on a fresh writer raises no length mismatch, and encoding
/// UTF-8 fields with ASCII punctuation yields UTF-8.
#[verifier::external_body]
pub(crate) fn csv_encode_row(fields: &Vec<String>) -> (r: Result<String, String>)
    ensures
        r is Ok,
        r matches Ok(line) ==> line@ == csv_row_of(fields.deep_view()),
{
    let mut w = csv::WriterBuilder::new().has_headers(false).from_writer(Vec::new());
    if let Err(e) = w.write_record(fields.iter()) {
        return Err(e.to_string());
    }
    match w.into_inner() {
        Ok(buf) => String::from_utf8(buf).map_err(|e| e.to_string()),
        Err(e) => Err(e.to_string()),
    }
}

/// Relies on csv::Reader::records (no header treatment, ragged rows allowed):
/// the rows of the CSV text in order, quoting respected; the rows are a
/// function of the text alone. The call succeeds: the reader works over an
/// in-memory UTF-8 text, ragged rows raise no length error, and fields are
/// cut only at ASCII bytes, so no I/O, length or UTF-8 error can arise.
#[verifier::external_body]
pub(crate) fn csv_parse_rows(text: &str) -> (r: Result<Vec<Vec<String>>, String>)
    ensures
        r is Ok,
        r matches Ok(rows) ==> rows.deep_view() == csv_rows_of(text@),
{
    csv::ReaderBuilder::new()
        .has_headers(false)
        .flexible(true)
        .from_reader(text.as_bytes())
        .records()
        .map(|rec| rec.map(|row| row.iter().map(|f| f.to_string()).collect()))
        .collect::<Result<Vec<Vec<String>>, csv::Error>>()
        .map_err(|e| e.to_string())
}

} // verus!
