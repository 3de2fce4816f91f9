//! What holds of every row and of every table, proved from the definitions
//! that the contracts of the library use.

use crate::convert::{converted, empty_document, with_rows};
use crate::document::{elements, has_key, members, with_member, Json};
use crate::row::{cell_json, row_members, row_object, shared_len, with_row};
use vstd::prelude::*;

verus! {

/// Whether no two of the headers `from..to` are the same.
pub open spec fn distinct_headers(headers: Seq<Seq<char>>, from: int, to: int) -> bool {
    forall|i: int, j: int| from <= i < j < to ==> headers[i] != headers[j]
}

/// Columns with different headers give one member each, in the order of the
/// columns: under the header of the column the value of its cell.
pub proof fn distinct_headers_give_one_member_each(
    headers: Seq<Seq<char>>,
    row: Seq<Seq<char>>,
    null_empty: bool,
    from: int,
    to: int,
)
    requires
        0 <= from <= to,
        to <= headers.len(),
        to <= row.len(),
        distinct_headers(headers, from, to),
    ensures
        row_members(headers, row, null_empty, from, to) == Seq::new(
            (to - from) as nat,
            |k: int| (headers[from + k], cell_json(row[from + k], null_empty)),
        ),
    decreases to - from,
{
    if from < to {
        distinct_headers_give_one_member_each(headers, row, null_empty, from, to - 1);
        let before = row_members(headers, row, null_empty, from, to - 1);
        assert(!has_key(before, headers[to - 1]));
    }
    assert(row_members(headers, row, null_empty, from, to) =~= Seq::new(
        (to - from) as nat,
        |k: int| (headers[from + k], cell_json(row[from + k], null_empty)),
    ));
}

/// Every member that a row gives stands for one of its columns: it has the
/// header of that column as its key and the value of its cell as its value.
pub proof fn members_come_from_columns(
    headers: Seq<Seq<char>>,
    row: Seq<Seq<char>>,
    null_empty: bool,
    from: int,
    to: int,
)
    ensures
        forall|k: int|
            0 <= k < row_members(headers, row, null_empty, from, to).len() ==> exists|j: int|
                from <= j < to && #[trigger] row_members(headers, row, null_empty, from, to)[k] == (
                    headers[j],
                    cell_json(row[j], null_empty),
                ),
    decreases to - from,
{
    if from < to {
        members_come_from_columns(headers, row, null_empty, from, to - 1);
        let before = row_members(headers, row, null_empty, from, to - 1);
        let after = row_members(headers, row, null_empty, from, to);
        assert forall|k: int| 0 <= k < after.len() implies exists|j: int|
            from <= j < to && #[trigger] after[k] == (headers[j], cell_json(row[j], null_empty)) by {
            if after[k] == (headers[to - 1], cell_json(row[to - 1], null_empty)) {
            } else {
                assert(after[k] == before[k]);
                let j = choose|j: int|
                    from <= j < to - 1 && before[k] == (headers[j], cell_json(row[j], null_empty));
                assert(from <= j < to && after[k] == (headers[j], cell_json(row[j], null_empty)));
            }
        }
    }
}

/// A row decides the members only through the columns that are read: two
/// rows and two headers that agree on the columns `from..to` give the same
/// members.
pub proof fn members_depend_on_columns_read(
    headers: Seq<Seq<char>>,
    row: Seq<Seq<char>>,
    other_headers: Seq<Seq<char>>,
    other_row: Seq<Seq<char>>,
    null_empty: bool,
    from: int,
    to: int,
)
    requires
        forall|i: int| from <= i < to ==> headers[i] == other_headers[i],
        forall|i: int| from <= i < to ==> row[i] == other_row[i],
    ensures
        row_members(headers, row, null_empty, from, to) == row_members(
            other_headers,
            other_row,
            null_empty,
            from,
            to,
        ),
    decreases to - from,
{
    if from < to {
        members_depend_on_columns_read(
            headers,
            row,
            other_headers,
            other_row,
            null_empty,
            from,
            to - 1,
        );
    }
}

/// A row that is not longer than the header, folded into an array, adds one
/// object that has one member for each cell of the row: in the place of
/// the cell, under the header of its column, the value of the cell. The
/// headers of these columns are taken to differ from each other.
pub proof fn short_row_gives_a_member_for_each_cell(
    doc: Json,
    headers: Seq<Seq<char>>,
    row: Seq<Seq<char>>,
    null_empty: bool,
)
    requires
        row.len() <= headers.len(),
        distinct_headers(headers, 0, row.len() as int),
    ensures
        with_row(doc, headers, row, null_empty, false) == Json::Array(
            elements(doc).push(row_object(headers, row, null_empty, 0)),
        ),
        members(row_object(headers, row, null_empty, 0)).len() == row.len(),
        forall|i: int|
            0 <= i < row.len() ==> #[trigger] members(row_object(headers, row, null_empty, 0))[i]
                == (headers[i], cell_json(row[i], null_empty)),
{
    distinct_headers_give_one_member_each(headers, row, null_empty, 0, row.len() as int);
}

/// A row that is longer than the header loses the cells that have no header:
/// folded into an array, it gives what the row of its first cells gives, an
/// object with one member for each header where the headers differ from each
/// other. In keyed mode the same holds as soon as there is a header; without
/// one the first cell still names the member.
pub proof fn long_row_loses_cells_without_header(
    doc: Json,
    headers: Seq<Seq<char>>,
    row: Seq<Seq<char>>,
    null_empty: bool,
)
    requires
        row.len() > headers.len(),
    ensures
        with_row(doc, headers, row, null_empty, false) == with_row(
            doc,
            headers,
            row.take(headers.len() as int),
            null_empty,
            false,
        ),
        headers.len() > 0 ==> with_row(doc, headers, row, null_empty, true) == with_row(
            doc,
            headers,
            row.take(headers.len() as int),
            null_empty,
            true,
        ),
        distinct_headers(headers, 0, headers.len() as int) ==> {
            &&& members(row_object(headers, row, null_empty, 0)).len() == headers.len()
            &&& forall|i: int|
                0 <= i < headers.len() ==> #[trigger] members(
                    row_object(headers, row, null_empty, 0),
                )[i] == (headers[i], cell_json(row[i], null_empty))
        },
{
    let cut = row.take(headers.len() as int);
    let shared = headers.len() as int;
    assert(shared_len(headers, row) == shared);
    assert(shared_len(headers, cut) == shared);
    members_depend_on_columns_read(headers, row, headers, cut, null_empty, 0, shared);
    members_depend_on_columns_read(headers, row, headers, cut, null_empty, 1, shared);
    if distinct_headers(headers, 0, shared) {
        distinct_headers_give_one_member_each(headers, row, null_empty, 0, shared);
    }
}

/// With `null_empty`, an empty cell is `null` and every other cell is the
/// string of its characters, so no member of a row is an empty string.
/// Without it every cell is the string of its characters, empty or not, so no
/// member of a row is `null`.
pub proof fn empty_cells_follow_the_setting(
    headers: Seq<Seq<char>>,
    row: Seq<Seq<char>>,
    null_empty: bool,
    from: int,
)
    ensures
        forall|cell: Seq<char>|
            #[trigger] cell_json(cell, true) == if cell.len() == 0 {
                Json::Null
            } else {
                Json::Text(cell)
            },
        forall|cell: Seq<char>| #[trigger] cell_json(cell, false) == Json::Text(cell),
        forall|k: int|
            0 <= k < members(row_object(headers, row, null_empty, from)).len() ==> {
                let value = (#[trigger] members(row_object(headers, row, null_empty, from))[k]).1;
                if null_empty {
                    value is Null || (value matches Json::Text(text) && text.len() > 0)
                } else {
                    value is Text
                }
            },
{
    let to = shared_len(headers, row);
    members_come_from_columns(headers, row, null_empty, from, to);
    let all = members(row_object(headers, row, null_empty, from));
    assert forall|k: int| 0 <= k < all.len() implies {
        let value = (#[trigger] all[k]).1;
        if null_empty {
            value is Null || (value matches Json::Text(text) && text.len() > 0)
        } else {
            value is Text
        }
    } by {
        let j = choose|j: int|
            from <= j < to && all[k] == (headers[j], cell_json(row[j], null_empty));
        assert(all[k].1 == cell_json(row[j], null_empty));
    }
}

/// Setting a member twice is setting it to the later value.
pub proof fn later_value_replaces_earlier(
    all: Seq<(Seq<char>, Json)>,
    key: Seq<char>,
    earlier: Json,
    later: Json,
)
    ensures
        with_member(with_member(all, key, earlier), key, later) == with_member(all, key, later),
{
    let once = with_member(all, key, earlier);
    if has_key(all, key) {
        let i = choose|i: int| 0 <= i < all.len() && (#[trigger] all[i]).0 == key;
        assert(once[i].0 == key);
    } else {
        assert(once[all.len() as int].0 == key);
    }
    assert(has_key(once, key));
    assert(with_member(once, key, later) =~= with_member(all, key, later));
}

/// In keyed mode, of two rows with the same first cell that are folded one
/// after the other, the earlier leaves nothing behind: the document is the
/// one that the later row alone gives, and what stands under the key is the
/// object of the later row.
pub proof fn later_row_replaces_earlier(
    doc: Json,
    headers: Seq<Seq<char>>,
    earlier: Seq<Seq<char>>,
    later: Seq<Seq<char>>,
    null_empty: bool,
)
    requires
        earlier.len() > 0,
        later.len() > 0,
        earlier[0] == later[0],
    ensures
        with_row(with_row(doc, headers, earlier, null_empty, true), headers, later, null_empty, true)
            == with_row(doc, headers, later, null_empty, true),
        has_key(members(with_row(doc, headers, later, null_empty, true)), later[0]),
        forall|i: int|
            0 <= i < members(with_row(doc, headers, later, null_empty, true)).len() && (
            #[trigger] members(with_row(doc, headers, later, null_empty, true))[i]).0 == later[0]
                ==> members(with_row(doc, headers, later, null_empty, true))[i].1 == row_object(
                headers,
                later,
                null_empty,
                1,
            ),
{
    let key = later[0];
    later_value_replaces_earlier(
        members(doc),
        key,
        row_object(headers, earlier, null_empty, 1),
        row_object(headers, later, null_empty, 1),
    );
    member_is_set(members(doc), key, row_object(headers, later, null_empty, 1));
}

/// After a member is set, the object has it, and with the value given.
pub proof fn member_is_set(all: Seq<(Seq<char>, Json)>, key: Seq<char>, value: Json)
    ensures
        has_key(with_member(all, key, value), key),
        forall|i: int|
            0 <= i < with_member(all, key, value).len() && (#[trigger] with_member(
                all,
                key,
                value,
            )[i]).0 == key ==> with_member(all, key, value)[i].1 == value,
{
    let set = with_member(all, key, value);
    if has_key(all, key) {
        let i = choose|i: int| 0 <= i < all.len() && (#[trigger] all[i]).0 == key;
        assert(set[i].0 == key);
    } else {
        assert(set[all.len() as int].0 == key);
    }
}

/// Setting a member moves no other: where the object has a member of that
/// name, it keeps its length and every key its place, and only the members of
/// that name change; where it has none, the new member comes behind the
/// others.
pub proof fn members_keep_their_places(all: Seq<(Seq<char>, Json)>, key: Seq<char>, value: Json)
    ensures
        has_key(all, key) ==> with_member(all, key, value).len() == all.len(),
        !has_key(all, key) ==> with_member(all, key, value) == all.push((key, value)),
        forall|i: int|
            0 <= i < all.len() ==> (#[trigger] with_member(all, key, value)[i]).0 == all[i].0,
        forall|i: int|
            0 <= i < all.len() && all[i].0 != key ==> #[trigger] with_member(all, key, value)[i]
                == all[i],
{
}

/// Without keys, the rows stand in the document in the order of the table:
/// behind what the array held before, the object of the first row, then that
/// of the second, and so on.
pub proof fn rows_keep_their_order(
    doc: Json,
    headers: Seq<Seq<char>>,
    rows: Seq<Seq<Seq<char>>>,
    null_empty: bool,
    count: int,
)
    requires
        doc is Array,
        0 <= count <= rows.len(),
    ensures
        with_rows(doc, headers, rows, null_empty, false, count) == Json::Array(
            elements(doc) + Seq::new(
                count as nat,
                |j: int| row_object(headers, rows[j], null_empty, 0),
            ),
        ),
    decreases count,
{
    if count > 0 {
        rows_keep_their_order(doc, headers, rows, null_empty, count - 1);
        assert(elements(doc) + Seq::new(
            count as nat,
            |j: int| row_object(headers, rows[j], null_empty, 0),
        ) =~= (elements(doc) + Seq::new(
            (count - 1) as nat,
            |j: int| row_object(headers, rows[j], null_empty, 0),
        )).push(row_object(headers, rows[count - 1], null_empty, 0)));
    } else {
        assert(elements(doc) + Seq::new(
            count as nat,
            |j: int| row_object(headers, rows[j], null_empty, 0),
        ) =~= elements(doc));
    }
}

/// Without keys, a table gives the array of the objects of its rows, one for
/// each row and in the order of the rows.
pub proof fn table_gives_one_object_for_each_row(
    headers: Seq<Seq<char>>,
    rows: Seq<Seq<Seq<char>>>,
    null_empty: bool,
)
    requires
        headers.len() > 0,
    ensures
        converted(headers, rows, null_empty, false) == Some(
            Json::Array(
                Seq::new(rows.len(), |j: int| row_object(headers, rows[j], null_empty, 0)),
            ),
        ),
{
    rows_keep_their_order(empty_document(false), headers, rows, null_empty, rows.len() as int);
    assert(Seq::<Json>::empty() + Seq::new(
        rows.len(),
        |j: int| row_object(headers, rows[j], null_empty, 0),
    ) =~= Seq::new(rows.len(), |j: int| row_object(headers, rows[j], null_empty, 0)));
}

/// The mode alone decides what kind of document a table gives: an object in
/// keyed mode, an array without it.
pub proof fn mode_decides_the_kind_of_document(
    headers: Seq<Seq<char>>,
    rows: Seq<Seq<Seq<char>>>,
    null_empty: bool,
    keyed: bool,
)
    ensures
        converted(headers, rows, null_empty, keyed) matches Some(doc) ==> (if keyed {
            doc is Object
        } else {
            doc is Array
        }),
{
    if converted(headers, rows, null_empty, keyed) is Some {
        kind_is_kept(headers, rows, null_empty, keyed, rows.len() as int);
    }
}

/// Folding rows of a table that can be converted keeps the kind of the
/// document that the mode starts with.
proof fn kind_is_kept(
    headers: Seq<Seq<char>>,
    rows: Seq<Seq<Seq<char>>>,
    null_empty: bool,
    keyed: bool,
    count: int,
)
    requires
        0 <= count <= rows.len(),
    ensures
        if keyed {
            with_rows(empty_document(keyed), headers, rows, null_empty, keyed, count) is Object
        } else {
            with_rows(empty_document(keyed), headers, rows, null_empty, keyed, count) is Array
        },
    decreases count,
{
    if count > 0 {
        kind_is_kept(headers, rows, null_empty, keyed, count - 1);
    }
}

} // verus!
