//! The conversion of a whole table, and of CSV text.

use crate::args::Args;
use crate::document::{empty_array, empty_object, json_view, Json};
use crate::row::{update_json_with_record_row, with_row};
use crate::table::{csv_table, read_table};
use json::JsonValue;
use vstd::prelude::*;

verus! {

/// Why a conversion gave no document.
#[derive(Debug, Clone, Copy, PartialEq, Eq, Structural)]
pub enum ConvertError {
    /// The text is no CSV table that can be converted: it has no header, a
    /// record of it cannot be read, or, in keyed mode, a row has no cell to
    /// take the key from.
    MalformedInput,
}

/// The document before any row: an empty object in keyed mode, else an empty
/// array.
pub open spec fn empty_document(keyed: bool) -> Json {
    if keyed {
        Json::Object(Seq::empty())
    } else {
        Json::Array(Seq::empty())
    }
}

/// The document after the first `count` of `rows` are folded into `doc`, in
/// their order.
pub open spec fn with_rows(
    doc: Json,
    headers: Seq<Seq<char>>,
    rows: Seq<Seq<Seq<char>>>,
    null_empty: bool,
    keyed: bool,
    count: int,
) -> Json
    decreases count,
{
    if count <= 0 {
        doc
    } else {
        with_row(
            with_rows(doc, headers, rows, null_empty, keyed, count - 1),
            headers,
            rows[count - 1],
            null_empty,
            keyed,
        )
    }
}

/// Whether a table can be converted: it has a header, and in keyed mode every
/// row has a first cell.
pub open spec fn convertible(
    headers: Seq<Seq<char>>,
    rows: Seq<Seq<Seq<char>>>,
    keyed: bool,
) -> bool {
    &&& headers.len() > 0
    &&& keyed ==> forall|i: int| 0 <= i < rows.len() ==> (#[trigger] rows[i]).len() > 0
}

/// The document that a table gives, where it gives one.
pub open spec fn converted(
    headers: Seq<Seq<char>>,
    rows: Seq<Seq<Seq<char>>>,
    null_empty: bool,
    keyed: bool,
) -> Option<Json> {
    if convertible(headers, rows, keyed) {
        Some(with_rows(empty_document(keyed), headers, rows, null_empty, keyed, rows.len() as int))
    } else {
        None
    }
}

/// The document that CSV text gives, where it gives one: that of the table
/// which the reader finds in it when it takes records of any length.
pub open spec fn converted_text(text: Seq<char>, null_empty: bool, keyed: bool) -> Option<Json> {
    match csv_table(text, true) {
        Some((headers, rows)) => converted(headers, rows, null_empty, keyed),
        None => None,
    }
}

/// Converts a table: folds every row into an empty document, first row
/// first.
///
/// Fails with `MalformedInput`, and only then, where the header is empty or,
/// in keyed mode, some row is.
pub fn convert_table(
    headers: &[String],
    rows: Vec<Vec<String>>,
    args: &Args,
) -> (result: Result<JsonValue, ConvertError>)
    ensures
        match result {
            Ok(doc) => converted(
                headers.deep_view(),
                rows.deep_view(),
                args.is_nulled,
                args.is_keyed,
            ) == Some(json_view(doc)),
            Err(error) => error == ConvertError::MalformedInput && converted(
                headers.deep_view(),
                rows.deep_view(),
                args.is_nulled,
                args.is_keyed,
            ) is None,
        },
{
    if headers.len() == 0 {
        return Err(ConvertError::MalformedInput);
    }
    let ghost table = rows.deep_view();
    let mut json = if args.is_keyed {
        empty_object()
    } else {
        empty_array()
    };
    for row in it: rows
        invariant
            table == rows.deep_view(),
            it.seq().len() == table.len(),
            forall|i: int|
                0 <= i < table.len() ==> (#[trigger] it.seq()[i]).deep_view() == table[i],
            headers.len() > 0,
            !args.is_keyed ==> json_view(json) is Array,
            args.is_keyed ==> forall|i: int|
                0 <= i < it.index() ==> (#[trigger] table[i]).len() > 0,
            json_view(json) == with_rows(
                empty_document(args.is_keyed),
                headers.deep_view(),
                table,
                args.is_nulled,
                args.is_keyed,
                it.index() as int,
            ),
    {
        if args.is_keyed && row.len() == 0 {
            assert(table[it.index() as int].len() == 0);
            return Err(ConvertError::MalformedInput);
        }
        json = update_json_with_record_row(json, row, headers, args);
    }
    Ok(json)
}

/// Converts CSV text into a JSON document.
///
/// The first record of the text is the header. A record may be shorter or
/// longer than the header: the reader takes records of any length. Fails with
/// `MalformedInput`, and only then, where the reader of the `csv` crate
/// reports an error or the table that it finds cannot be converted.
pub fn parse_csv(contents: &mut String, args: &Args) -> (result: Result<JsonValue, ConvertError>)
    ensures
        *final(contents) == *old(contents),
        match result {
            Ok(doc) => converted_text(old(contents)@, args.is_nulled, args.is_keyed) == Some(
                json_view(doc),
            ),
            Err(error) => error == ConvertError::MalformedInput && converted_text(
                old(contents)@,
                args.is_nulled,
                args.is_keyed,
            ) is None,
        },
{
    match read_table(contents.as_str(), true) {
        Ok((headers, rows)) => convert_table(headers.as_slice(), rows, args),
        Err(_) => Err(ConvertError::MalformedInput),
    }
}

} // verus!
