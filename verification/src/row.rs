//! Folding one data row into the document.

use crate::args::Args;
use crate::document::{
    elements, empty_object, json_view, members, null_value, push_element, set_member, text_value,
    with_member, Json,
};
use json::JsonValue;
use vstd::prelude::*;

verus! {

/// The JSON value that stands for one cell: `null` for an empty cell where
/// `null_empty` asks for it, else the string of the cell's characters.
pub open spec fn cell_json(cell: Seq<char>, null_empty: bool) -> Json {
    if null_empty && cell.len() == 0 {
        Json::Null
    } else {
        Json::Text(cell)
    }
}

/// The number of columns that have both a header and a cell in `row`.
pub open spec fn shared_len(headers: Seq<Seq<char>>, row: Seq<Seq<char>>) -> int {
    if headers.len() <= row.len() {
        headers.len() as int
    } else {
        row.len() as int
    }
}

/// The members that the columns `from..to` of `row` give, each set under its
/// header in the order of the columns.
pub open spec fn row_members(
    headers: Seq<Seq<char>>,
    row: Seq<Seq<char>>,
    null_empty: bool,
    from: int,
    to: int,
) -> Seq<(Seq<char>, Json)>
    decreases to - from,
{
    if to <= from {
        Seq::empty()
    } else {
        with_member(
            row_members(headers, row, null_empty, from, to - 1),
            headers[to - 1],
            cell_json(row[to - 1], null_empty),
        )
    }
}

/// The object that `row` gives from column `from` on. Columns without a
/// header and headers without a cell give nothing.
pub open spec fn row_object(
    headers: Seq<Seq<char>>,
    row: Seq<Seq<char>>,
    null_empty: bool,
    from: int,
) -> Json {
    Json::Object(row_members(headers, row, null_empty, from, shared_len(headers, row)))
}

/// The document after `row` is folded into `doc`.
///
/// Not keyed: the row's object is added behind the elements of `doc`. Keyed:
/// the first cell names a member of `doc`, which is set to the object of the
/// other columns, whether or not the first column has a header; a row without
/// cells names no member and leaves `doc` as it is.
pub open spec fn with_row(
    doc: Json,
    headers: Seq<Seq<char>>,
    row: Seq<Seq<char>>,
    null_empty: bool,
    keyed: bool,
) -> Json {
    if !keyed {
        Json::Array(elements(doc).push(row_object(headers, row, null_empty, 0)))
    } else if row.len() == 0 {
        doc
    } else {
        Json::Object(with_member(members(doc), row[0], row_object(headers, row, null_empty, 1)))
    }
}

/// The JSON value for one cell.
fn cell_value(cell: &str, null_empty: bool) -> (value: JsonValue)
    ensures
        json_view(value) == cell_json(cell@, null_empty),
{
    if null_empty && cell.is_empty() {
        null_value()
    } else {
        text_value(cell)
    }
}

/// The object for the columns of `record` from `from` on.
fn object_of_row(
    record: &Vec<String>,
    headers: &[String],
    null_empty: bool,
    from: usize,
) -> (object: JsonValue)
    ensures
        json_view(object) == row_object(
            headers.deep_view(),
            record.deep_view(),
            null_empty,
            from as int,
        ),
{
    let shared: usize = if headers.len() <= record.len() {
        headers.len()
    } else {
        record.len()
    };
    let mut object = empty_object();
    let mut index: usize = from;
    while index < shared
        invariant
            shared == shared_len(headers.deep_view(), record.deep_view()),
            shared <= headers.len(),
            shared <= record.len(),
            index == from || from <= index <= shared,
            json_view(object) == Json::Object(
                row_members(
                    headers.deep_view(),
                    record.deep_view(),
                    null_empty,
                    from as int,
                    index as int,
                ),
            ),
        decreases shared - index,
    {
        let value = cell_value(record[index].as_str(), null_empty);
        set_member(&mut object, headers[index].as_str(), value);
        index += 1;
    }
    object
}

/// Folds one data row into the document and returns the document.
///
/// Without `is_keyed` the document is an array, and the row adds one object to
/// it: under each header the cell of that column. With `is_keyed` the first
/// cell names the member of the document that is set to the object of the
/// other columns; a member of that name is replaced where it stands, and a
/// record without cells changes nothing.
pub fn update_json_with_record_row(
    json: JsonValue,
    record: Vec<String>,
    headers: &[String],
    args: &Args,
) -> (updated: JsonValue)
    requires
        !args.is_keyed ==> json_view(json) is Array,
    ensures
        json_view(updated) == with_row(
            json_view(json),
            headers.deep_view(),
            record.deep_view(),
            args.is_nulled,
            args.is_keyed,
        ),
{
    let mut json = json;
    if !args.is_keyed {
        let element = object_of_row(&record, headers, args.is_nulled, 0);
        push_element(&mut json, element);
    } else if record.len() > 0 {
        let element = object_of_row(&record, headers, args.is_nulled, 1);
        set_member(&mut json, record[0].as_str(), element);
    }
    json
}

} // verus!
