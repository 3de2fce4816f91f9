//! Reading CSV text into its records, done by the `csv` crate.

use vstd::prelude::*;

verus! {

/// `csv::Error`, the error of the reader. Nothing is read from it.
#[verifier::external_type_specification]
#[verifier::external_body]
pub struct ExCsvError(csv::Error);

/// What a reader of the `csv` crate reads from `text`: the fields of the
/// first record, and the fields of each record after it, in the order of the
/// text. `None` where the reader reports an error instead. With `flexible` the
/// reader takes records of any length; without it a record of another length
/// than the first is an error. The other settings are those of
/// `csv::ReaderBuilder::new`.
pub uninterp spec fn csv_table(text: Seq<char>, flexible: bool) -> Option<
    (Seq<Seq<char>>, Seq<Seq<Seq<char>>>),
>;

/// `csv::ReaderBuilder::new`, `flexible` and `from_reader` on the bytes of
/// `text`, then `headers` and `records` of that reader, each record handed out
/// as its fields. The first error that the reader reports is returned in place
/// of the records.
#[verifier::external_body]
pub(crate) fn read_table(text: &str, flexible: bool) -> (table: Result<
    (Vec<String>, Vec<Vec<String>>),
    csv::Error,
>)
    ensures
        match table {
            Ok((headers, rows)) => csv_table(text@, flexible) == Some(
                (headers.deep_view(), rows.deep_view()),
            ),
            Err(_) => csv_table(text@, flexible) is None,
        },
{
    let mut reader = csv::ReaderBuilder::new().flexible(flexible).from_reader(text.as_bytes());
    let headers: Vec<String> = reader.headers()?.iter().map(String::from).collect();
    let mut rows: Vec<Vec<String>> = Vec::new();
    for record in reader.records() {
        rows.push(record?.iter().map(String::from).collect());
    }
    Ok((headers, rows))
}

} // verus!
