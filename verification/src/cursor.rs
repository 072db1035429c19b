//! Cursors: the statement that one runs, and where it stands in its rows.

use crate::batch::SqliteParam;
use crate::error::ConnectionError;
use vstd::prelude::*;
use vstd::string::*;

verus! {

/// A statement with its parameters bound in order.
pub struct Statement {
    pub query: String,
    pub params: Vec<SqliteParam>,
}

/// A cursor over rows of type `R`, which are described by a `D`. Objects of
/// the caller are known by numbers.
pub struct Cursor<R, D> {
    /// The query as it was given.
    pub query: String,
    /// The parameters as they were given.
    pub parameters: Option<u64>,
    /// The statement that is run.
    pub statement: Option<Statement>,
    /// The rows, once they were fetched.
    pub rows: Option<R>,
    pub description: Option<D>,
    /// A description that holds once the rows are fetched.
    pub pending_description: Option<D>,
    /// The next row to hand out.
    pub index: usize,
    pub lastrowid: i64,
    pub rowcount: i64,
    /// How many rows are handed out at a time.
    pub arraysize: usize,
    /// A row factory for this cursor alone.
    pub row_factory: Option<u64>,
    pub closed: bool,
}

impl<R, D> Cursor<R, D> {
    /// Whether a cursor has run nothing since its statement was set.
    pub open spec fn fresh(self) -> bool {
        &&& self.rows is None
        &&& self.description is None
        &&& self.pending_description is None
        &&& self.index == 0
        &&& self.lastrowid == -1
        &&& self.rowcount == -1
    }

    /// A cursor without a query.
    pub fn new() -> (out: Self)
        ensures
            out.fresh(),
            out.query@ == ""@,
            out.parameters is None,
            out.statement is None,
            out.arraysize == 1,
            out.row_factory is None,
            !out.closed,
    {
        Cursor::with_query(String::from_str(""), None)
    }

    /// A cursor with a query that has no statement yet.
    pub fn with_query(query: String, parameters: Option<u64>) -> (out: Self)
        ensures
            out.fresh(),
            out.query == query,
            out.parameters == parameters,
            out.statement is None,
            out.arraysize == 1,
            out.row_factory is None,
            !out.closed,
    {
        Cursor {
            query,
            parameters,
            statement: None,
            rows: None,
            description: None,
            pending_description: None,
            index: 0,
            lastrowid: -1,
            rowcount: -1,
            arraysize: 1,
            row_factory: None,
            closed: false,
        }
    }

    /// Sets the statement of a cursor and starts it over, unless the connection
    /// or the cursor was closed. Where no cursor is given there is a new one.
    pub fn execute(
        closed: bool,
        given: Option<Self>,
        query: String,
        parameters: Option<u64>,
        statement: Statement,
    ) -> (out: Result<Self, ConnectionError>)
        ensures
            closed ==> out == Err::<Self, ConnectionError>(ConnectionError::Closed),
            !closed && (given matches Some(cursor) && cursor.closed) ==> out == Err::<
                Self,
                ConnectionError,
            >(ConnectionError::CursorClosed),
            !closed && !(given matches Some(cursor) && cursor.closed) ==> {
                &&& out matches Ok(cursor)
                &&& cursor.fresh()
                &&& cursor.query == query
                &&& cursor.parameters == parameters
                &&& cursor.statement == Some(statement)
                &&& cursor.arraysize == (match given {
                    Some(earlier) => earlier.arraysize,
                    None => 1,
                })
                &&& cursor.row_factory == (match given {
                    Some(earlier) => earlier.row_factory,
                    None => None,
                })
                &&& !cursor.closed
            },
    {
        if closed {
            return Err(ConnectionError::Closed);
        }
        let (arraysize, row_factory): (usize, Option<u64>) = match given {
            Some(cursor) => {
                if cursor.closed {
                    return Err(ConnectionError::CursorClosed);
                }
                (cursor.arraysize, cursor.row_factory)
            },
            None => (1, None),
        };
        let mut cursor = Cursor::with_query(query, parameters);
        cursor.statement = Some(statement);
        cursor.arraysize = arraysize;
        cursor.row_factory = row_factory;
        Ok(cursor)
    }
}

/// A cursor that has run nothing has no rows and no description, stands before
/// the first row, and knows neither a rowid nor a number of rows.
pub proof fn law_fresh_cursor_knows_nothing<R, D>(cursor: Cursor<R, D>)
    requires
        cursor.fresh(),
    ensures
        cursor.rows is None,
        cursor.description is None,
        cursor.pending_description is None,
        cursor.index == 0,
        cursor.lastrowid == -1,
        cursor.rowcount == -1,
{
}

} // verus!
