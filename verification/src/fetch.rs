//! What is made of the result of a query.

use crate::codes::{SQLITE_CONSTRAINT, SQLITE_ERROR, SQLITE_MISMATCH};
use crate::error::{Class, ConnectionError};
use crate::failure::Failure;
use crate::routing::Route;
use crate::text;
use vstd::prelude::*;
use vstd::string::*;

verus! {

/// Refuses to fetch all rows of something that is not a SELECT.
pub fn check_fetch_all(is_select: bool) -> (out: Result<(), ConnectionError>)
    ensures
        is_select ==> out is Ok,
        !is_select ==> out == Err::<(), ConnectionError>(ConnectionError::NotSelect),
{
    if is_select {
        Ok(())
    } else {
        Err(ConnectionError::NotSelect)
    }
}

/// The row of a query for one row, or why there is none.
pub open spec fn only_row<R>(rows: Seq<R>) -> Result<R, ConnectionError> {
    if rows.len() == 1 {
        Ok(rows[0])
    } else if rows.len() == 0 {
        Err(ConnectionError::NoRow)
    } else {
        Err(ConnectionError::SeveralRows)
    }
}

/// The row of a query for an optional row, where it gives no more than one.
pub open spec fn row_or_none<R>(rows: Seq<R>) -> Result<Option<R>, ConnectionError> {
    match only_row(rows) {
        Ok(row) => Ok(Some(row)),
        Err(ConnectionError::NoRow) => Ok(None),
        Err(error) => Err(error),
    }
}

/// A query for one row gives a row exactly where there is one and no other, and
/// that row; without a row it fails where one is owed and gives none where it is
/// optional; and with several it fails in either case.
pub proof fn law_rows_are_counted<R>(rows: Seq<R>)
    ensures
        rows.len() == 0 ==> only_row(rows) == Err::<R, ConnectionError>(ConnectionError::NoRow)
            && row_or_none(rows) == Ok::<Option<R>, ConnectionError>(None),
        rows.len() == 1 ==> only_row(rows) == Ok::<R, ConnectionError>(rows[0]) && row_or_none(rows)
            == Ok::<Option<R>, ConnectionError>(Some(rows[0])),
        rows.len() > 1 ==> only_row(rows) == Err::<R, ConnectionError>(
            ConnectionError::SeveralRows,
        ) && row_or_none(rows) == Err::<Option<R>, ConnectionError>(ConnectionError::SeveralRows),
{
}

/// The row of a query for one row, which must give exactly one.
pub fn one_row<R>(rows: Vec<R>) -> (out: Result<R, ConnectionError>)
    ensures
        out == only_row(rows@),
        out == (if rows@.len() == 0 {
            Err(ConnectionError::NoRow)
        } else if rows@.len() > 1 {
            Err(ConnectionError::SeveralRows)
        } else {
            Ok(rows@[0])
        }),
{
    let mut rows = rows;
    if rows.len() > 1 {
        return Err(ConnectionError::SeveralRows);
    }
    match rows.pop() {
        Some(row) => Ok(row),
        None => Err(ConnectionError::NoRow),
    }
}

/// The row of a query for an optional row, which gives one or none.
pub fn optional_row<R>(rows: Vec<R>) -> (out: Result<Option<R>, ConnectionError>)
    ensures
        out == row_or_none(rows@),
        out == (if rows@.len() > 1 {
            Err(ConnectionError::SeveralRows)
        } else if rows@.len() == 1 {
            Ok(Some(rows@[0]))
        } else {
            Ok(None)
        }),
{
    let mut rows = rows;
    if rows.len() > 1 {
        return Err(ConnectionError::SeveralRows);
    }
    Ok(rows.pop())
}

/// The row that a query for one value takes it from: the first one.
pub fn first_row<R>(rows: Vec<R>) -> (out: Option<R>)
    ensures
        out == (if rows@.len() > 0 {
            Some(rows@[0])
        } else {
            None
        }),
{
    let mut rows = rows;
    if rows.len() == 0 {
        None
    } else {
        Some(rows.swap_remove(0))
    }
}

/// Whether the statement of a raw query is kept for the next one: only on the
/// connection of the session, and only while that is held on to.
pub fn keeps_statements(route: Route, retained: bool) -> (out: bool)
    ensures
        out == (route == Route::Session && retained),
{
    route == Route::Session && retained
}

/// Where a BLOB is asked for, the value must be one, or NULL.
pub fn check_blob(required: bool, is_null: bool, declared: &str) -> (out: Result<
    (),
    ConnectionError,
>)
    ensures
        out == (if required && !is_null && declared@ != "BLOB"@ {
            Err(ConnectionError::BlobRequired)
        } else {
            Ok(())
        }),
{
    if required && !is_null && !text::equal(declared, "BLOB") {
        Err(ConnectionError::BlobRequired)
    } else {
        Ok(())
    }
}

/// Refuses a SELECT where rows are to be changed.
pub fn check_insert(is_select: bool) -> (out: Result<(), ConnectionError>)
    ensures
        is_select ==> out == Err::<(), ConnectionError>(ConnectionError::InsertOfSelect),
        !is_select ==> out is Ok,
{
    if is_select {
        Err(ConnectionError::InsertOfSelect)
    } else {
        Ok(())
    }
}

/// The total of changes as an unsigned number in 64 bits.
pub fn total_changes_value(total: i32) -> (out: u64)
    ensures
        out == (total as int) % 0x1_0000_0000_0000_0000,
        total >= 0 ==> out == total,
{
    let zero: u64 = 0;
    zero.wrapping_add_signed(total as i64)
}

// ---------------------------------------------------------------- raw scalars

/// How the failure of a raw scalar query is reported.
pub enum RawError {
    /// As an error of the library.
    Refused(ConnectionError),
    /// As an error of SQLite, with this code and message.
    Sqlite { code: i32, message: String },
}

/// The class that an error of SQLite of this kind is raised as.
pub open spec fn class_of(kind: i32, message: Seq<char>) -> Class {
    if kind == SQLITE_CONSTRAINT {
        Class::Integrity
    } else if kind == SQLITE_ERROR && text::occurs(message, "syntax error"@) {
        Class::Programming
    } else {
        Class::Operational
    }
}

/// A violated constraint, and nothing else, is an integrity error; an error that
/// complains of syntax, and nothing else, is a programming error; and any other
/// is an operational one.
pub proof fn law_error_kinds_have_their_class(kind: i32, front: Seq<char>, back: Seq<char>, message: Seq<char>)
    ensures
        class_of(kind, message) == Class::Integrity <==> kind == 19,
        class_of(1, front + "syntax error"@ + back) == Class::Programming,
        kind != 1 ==> class_of(kind, message) != Class::Programming,
        kind != 19 && class_of(kind, message) != Class::Programming ==> class_of(kind, message)
            == Class::Operational,
        class_of(1, message) == Class::Programming ==> text::occurs(message, "syntax error"@),
{
    let word = "syntax error"@;
    let whole = front + word + back;
    assert(whole.subrange(front.len() as int, front.len() + word.len() as int) =~= word);
    assert(text::stands_at(whole, word, front.len() as int));
}

/// The class that an error of SQLite is raised as: that of a violated
/// constraint, that of SQL that cannot be read, or that of everything else. The
/// low byte of a code is its kind.
pub fn sqlite_class(code: i32, message: &str) -> (out: Class)
    ensures
        out == class_of(code & 0xff, message@),
        out == (if (code & 0xff) == SQLITE_CONSTRAINT {
            Class::Integrity
        } else if (code & 0xff) == SQLITE_ERROR && text::occurs(message@, "syntax error"@) {
            Class::Programming
        } else {
            Class::Operational
        }),
{
    let kind: i32 = code & 0xff;
    if kind == SQLITE_CONSTRAINT {
        Class::Integrity
    } else if kind == SQLITE_ERROR && text::contains(message, "syntax error") {
        Class::Programming
    } else {
        Class::Operational
    }
}

/// The beginning of the message on a wrong number of columns.
pub open spec fn column_complaint() -> Seq<char> {
    "raw scalar queries must return exactly one column; got "@
}

/// Decides how the failure of a raw scalar query is reported. The low byte of
/// a code is its kind. A message on a wrong number of columns is worded anew,
/// with the number that it ends with.
pub fn raw_error(blob: bool, code: i32, message: String) -> (out: RawError)
    ensures
        if blob && (code & 0xff) == SQLITE_MISMATCH {
            out == RawError::Refused(ConnectionError::RawMismatch { message })
        } else if (code & 0xff) == SQLITE_ERROR && column_complaint().is_prefix_of(message@) {
            let count = message@.skip(column_complaint().len() as int);
            if count == "0"@ {
                out == RawError::Refused(ConnectionError::RawNoRows)
            } else {
                out matches RawError::Refused(ConnectionError::RawColumns { count: given })
                    && given@ == count
            }
        } else {
            out == (RawError::Sqlite { code, message })
        },
{
    let kind: i32 = code & 0xff;
    if blob && kind == SQLITE_MISMATCH {
        return RawError::Refused(ConnectionError::RawMismatch { message });
    }
    if kind == SQLITE_ERROR {
        let complaint = "raw scalar queries must return exactly one column; got ";
        if text::starts_with(message.as_str(), complaint) {
            let all = text::characters(message.as_str());
            let from: usize = text::characters(complaint).len();
            let count = text::string_of(&all, from, all.len());
            proof {
                assert(all@.subrange(from as int, all@.len() as int) =~= all@.skip(from as int));
            }
            if text::equal(count.as_str(), "0") {
                return RawError::Refused(ConnectionError::RawNoRows);
            }
            return RawError::Refused(ConnectionError::RawColumns { count });
        }
    }
    RawError::Sqlite { code, message }
}

/// A raw scalar query with another number of columns than one is reported as
/// such, with its number, or as one that gives no rows where it has none.
pub proof fn law_column_count_is_reported(columns: i32)
    requires
        columns != 1,
    ensures
        ({
            let failure = Failure::ColumnCount { columns };
            let rest = failure.spec_message().skip(column_complaint().len() as int);
            &&& failure.spec_code() & 0xff == SQLITE_ERROR
            &&& column_complaint().is_prefix_of(failure.spec_message())
            &&& rest == text::decimal(columns as int)
            &&& rest == "0"@ <==> columns == 0
        }),
{
    let failure = Failure::ColumnCount { columns };
    let complaint = column_complaint();
    assert(1i32 & 0xff == 1) by (bit_vector);
    assert(failure.spec_message().skip(complaint.len() as int) =~= text::decimal(columns as int));
    assert(complaint =~= failure.spec_message().take(complaint.len() as int));
    reveal_strlit("0");
    if columns == 0 {
        assert(text::decimal(0) =~= "0"@);
    } else if columns > 0 {
        text::law_digits_read_back(columns as nat);
        text::law_digits_read_back(0);
        assert(text::digits(0) =~= "0"@);
    } else {
        assert(text::decimal(columns as int)[0] == '-');
    }
}

// ---------------------------------------------------------------- parameter sets

/// The query of a batch: each parameter set turns the query into one with
/// plain placeholders, and all of these must be the same. Without a set it is
/// the query itself.
pub fn batch_query(query: String, row_queries: &Vec<String>) -> (out: Result<
    String,
    ConnectionError,
>)
    ensures
        match out {
            Ok(chosen) => {
                &&& chosen@ == (if row_queries@.len() == 0 {
                    query@
                } else {
                    row_queries@[0]@
                })
                &&& forall|i: int|
                    0 <= i < row_queries@.len() ==> (#[trigger] row_queries@[i])@
                        == row_queries@[0]@
            },
            Err(error) => error == ConnectionError::MixedBinding && exists|i: int|
                0 < i < row_queries@.len() && (#[trigger] row_queries@[i])@ != row_queries@[0]@,
        },
{
    if row_queries.len() == 0 {
        return Ok(query);
    }
    let mut i: usize = 1;
    while i < row_queries.len()
        invariant
            1 <= i <= row_queries@.len(),
            forall|j: int|
                0 <= j < i ==> (#[trigger] row_queries@[j])@ == row_queries@[0]@,
        decreases row_queries@.len() - i,
    {
        if row_queries[i] != row_queries[0] {
            return Err(ConnectionError::MixedBinding);
        }
        i += 1;
    }
    Ok(row_queries[0].clone())
}

} // verus!
