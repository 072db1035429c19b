//! The numeric codes of the SQLite C interface that the library decides on.

use vstd::prelude::*;

verus! {

/// The call succeeded.
pub const SQLITE_OK: i32 = 0;

/// A generic error.
pub const SQLITE_ERROR: i32 = 1;

/// The database file is locked by another connection.
pub const SQLITE_BUSY: i32 = 5;

/// A table in the database is locked by the same connection.
pub const SQLITE_LOCKED: i32 = 6;

/// A string or BLOB exceeds the supported size.
pub const SQLITE_TOOBIG: i32 = 18;

/// A constraint is violated.
pub const SQLITE_CONSTRAINT: i32 = 19;

/// A value has the wrong type.
pub const SQLITE_MISMATCH: i32 = 20;

/// The interface was used incorrectly.
pub const SQLITE_MISUSE: i32 = 21;

/// A parameter index or count is out of range.
pub const SQLITE_RANGE: i32 = 25;

/// A step produced a row.
pub const SQLITE_ROW: i32 = 100;

/// A step, or a backup, ran to completion.
pub const SQLITE_DONE: i32 = 101;

/// The storage class of a 64-bit integer.
pub const SQLITE_INTEGER: i32 = 1;

/// The storage class of a 64-bit float.
pub const SQLITE_FLOAT: i32 = 2;

/// The storage class of a string.
pub const SQLITE_TEXT: i32 = 3;

/// The storage class of a byte string.
pub const SQLITE_BLOB: i32 = 4;

/// The storage class of NULL.
pub const SQLITE_NULL: i32 = 5;

/// An authorizer forbids the action.
pub const SQLITE_DENY: i32 = 1;

/// Text is handed to a callback in UTF-8.
pub const SQLITE_UTF8: i32 = 1;

/// A function gives the same result for the same arguments.
pub const SQLITE_DETERMINISTIC: i32 = 2048;

/// The codes are those of the SQLite C interface.
pub proof fn law_codes_are_those_of_sqlite()
    ensures
        SQLITE_OK == 0,
        SQLITE_ERROR == 1,
        SQLITE_BUSY == 5,
        SQLITE_LOCKED == 6,
        SQLITE_TOOBIG == 18,
        SQLITE_CONSTRAINT == 19,
        SQLITE_MISMATCH == 20,
        SQLITE_MISUSE == 21,
        SQLITE_RANGE == 25,
        SQLITE_ROW == 100,
        SQLITE_DONE == 101,
        SQLITE_INTEGER == 1,
        SQLITE_FLOAT == 2,
        SQLITE_TEXT == 3,
        SQLITE_BLOB == 4,
        SQLITE_NULL == 5,
        SQLITE_DENY == 1,
        SQLITE_UTF8 == 1,
        SQLITE_DETERMINISTIC == 0x800,
{
}

} // verus!
