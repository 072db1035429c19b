//! The requests that a connection answers, and how each finds its way to a
//! database connection and runs there.

use crate::operation::AfterHook;
use crate::operation::Approach;
use crate::operation::LockFrame;
use crate::operation::Operation;
use crate::routing::Route;
use std::marker::PhantomData;
use vstd::prelude::*;

verus! {

/// What a user asks of a connection.
#[derive(Clone, Copy, Debug, PartialEq, Eq, Structural)]
pub enum Request {
    FetchAll,
    FetchOne,
    FetchOptional,
    FetchScalar,
    RawFetchScalar,
    ExecuteInsert,
    ExecuteMany,
    TotalChanges,
    Introspection,
    Cache,
    Dump,
}

impl Request {
    /// Whether the trace callback gets to see the statement.
    pub open spec fn traces(self) -> bool {
        match self {
            Request::FetchAll
            | Request::FetchOne
            | Request::FetchScalar
            | Request::RawFetchScalar
            | Request::Cache => true,
            _ => false,
        }
    }

    /// Whether the hook that prepares a new database runs first.
    pub open spec fn hooks(self) -> bool {
        match self {
            Request::ExecuteInsert | Request::TotalChanges | Request::Dump => false,
            _ => true,
        }
    }

    /// What is asked once the hook has run.
    pub open spec fn after_hook(self) -> AfterHook {
        match self {
            Request::Introspection => AfterHook::Nothing,
            Request::Cache => AfterHook::Open,
            _ => AfterHook::Transaction,
        }
    }

    /// How an error is worded that comes of locking the raw handle, where it
    /// is locked.
    pub open spec fn locks(self) -> Option<LockFrame> {
        match self {
            Request::RawFetchScalar => Some(LockFrame::SqliteHandle),
            Request::TotalChanges => Some(LockFrame::Handle),
            _ => None,
        }
    }

    /// The way from a request to the connection that it runs on.
    pub fn approach<E>(self, closed: bool) -> (out: Approach<E>)
        ensures
            out.closed == closed,
            out.traces == self.traces(),
            out.hooks == self.hooks(),
            out.after_hook == self.after_hook(),
            out.refuses_callbacks == (self == Request::RawFetchScalar),
    {
        let traces: bool = match self {
            Request::FetchAll
            | Request::FetchOne
            | Request::FetchScalar
            | Request::RawFetchScalar
            | Request::Cache => true,
            _ => false,
        };
        let hooks: bool = match self {
            Request::ExecuteInsert | Request::TotalChanges | Request::Dump => false,
            _ => true,
        };
        let after_hook = match self {
            Request::Introspection => AfterHook::Nothing,
            Request::Cache => AfterHook::Open,
            _ => AfterHook::Transaction,
        };
        let refuses_callbacks: bool = match self {
            Request::RawFetchScalar => true,
            _ => false,
        };
        Approach { closed, traces, hooks, after_hook, refuses_callbacks, errors: PhantomData }
    }

    /// The run of a request on the connection that was found.
    pub fn operation<T, E>(self, route: Route) -> (out: Operation<T, E>)
        ensures
            out.route == route,
            out.opens_pool == (self == Request::ExecuteInsert),
            out.locks == self.locks(),
            out.discards == (self != Request::Introspection),
    {
        let opens_pool: bool = match self {
            Request::ExecuteInsert => true,
            _ => false,
        };
        let locks = match self {
            Request::RawFetchScalar => Some(LockFrame::SqliteHandle),
            Request::TotalChanges => Some(LockFrame::Handle),
            _ => None,
        };
        let discards: bool = match self {
            Request::Introspection => false,
            _ => true,
        };
        Operation { route, opens_pool, locks, discards, results: PhantomData }
    }
}

/// The hook runs before every request but an insert, a count of changes and a
/// dump; the trace callback sees the statements of the fetches, but for an
/// optional row, and of the cache; and the raw handle is locked by what reads
/// it. Behind the hook it is asked again whether a transaction is open, but
/// for introspection, which asks nothing, and the cache, which asks whether the
/// connection is open.
pub proof fn law_requests_are_told_apart(request: Request)
    ensures
        !request.hooks() <==> request == Request::ExecuteInsert || request == Request::TotalChanges
            || request == Request::Dump,
        request.traces() <==> request == Request::FetchAll || request == Request::FetchOne
            || request == Request::FetchScalar || request == Request::RawFetchScalar || request
            == Request::Cache,
        request.locks() == Some(LockFrame::SqliteHandle) <==> request == Request::RawFetchScalar,
        request.locks() == Some(LockFrame::Handle) <==> request == Request::TotalChanges,
        request.after_hook() == AfterHook::Nothing <==> request == Request::Introspection,
        request.after_hook() == AfterHook::Open <==> request == Request::Cache,
{
}

} // verus!
