//! Which database connection an operation runs on.

use vstd::prelude::*;

verus! {

/// Where an operation finds its database connection.
#[derive(Clone, Copy, Debug, PartialEq, Eq, Structural)]
pub enum Route {
    /// In the slot of the transaction.
    Transaction,
    /// In the slot for callbacks.
    Callbacks,
    /// In the slot of the session, or the pool behind it.
    Session,
}

/// Inside a transaction everything runs on the transaction's connection;
/// outside, on the one that carries the callbacks, if there are any.
pub open spec fn routed(in_transaction: bool, has_callbacks: bool) -> Route {
    if in_transaction {
        Route::Transaction
    } else if has_callbacks {
        Route::Callbacks
    } else {
        Route::Session
    }
}

/// Chooses the connection of an operation.
pub fn route(in_transaction: bool, has_callbacks: bool) -> (out: Route)
    ensures
        out == routed(in_transaction, has_callbacks),
{
    if in_transaction {
        Route::Transaction
    } else if has_callbacks {
        Route::Callbacks
    } else {
        Route::Session
    }
}

/// Inside a transaction everything runs on the transaction's connection, and
/// only there; outside, on the one that carries the callbacks exactly where
/// there are some.
pub proof fn law_transaction_comes_first(in_transaction: bool, has_callbacks: bool)
    ensures
        in_transaction <==> routed(in_transaction, has_callbacks) == Route::Transaction,
        !in_transaction && has_callbacks <==> routed(in_transaction, has_callbacks)
            == Route::Callbacks,
{
}

} // verus!
