//! Running one operation: finding its database connection, and using it.

use crate::error::ConnectionError;
use crate::process;
use crate::process::Process;
use crate::routing;
use crate::routing::Route;
use std::marker::PhantomData;
use vstd::prelude::*;
use vstd::string::*;

verus! {

/// What the error of a call is put into.
#[derive(Clone, Copy, PartialEq, Eq, Structural)]
pub enum LockFrame {
    Handle,
    SqliteHandle,
}

/// The message of a handle that cannot be locked.
pub open spec fn lock_sentence(frame: LockFrame, detail: Seq<char>) -> Seq<char> {
    (match frame {
        LockFrame::Handle => "Failed to lock handle: "@,
        LockFrame::SqliteHandle => "Failed to lock SQLite handle: "@,
    }) + detail
}

/// Words the error of a handle that cannot be locked.
pub fn lock_text(frame: LockFrame, detail: &str) -> (out: String)
    ensures
        out@ == lock_sentence(frame, detail@),
{
    match frame {
        LockFrame::Handle => String::from_str("Failed to lock handle: ").concat(detail),
        LockFrame::SqliteHandle => String::from_str("Failed to lock SQLite handle: ").concat(
            detail,
        ),
    }
}

/// Why an operation fails.
pub enum OperationError<E> {
    /// The library refuses it.
    Refused(ConnectionError),
    /// A call failed.
    Call(E),
    /// The handle could not be locked.
    Lock(LockFrame, E),
}

// ---------------------------------------------------------------- the way in

/// What is asked once the hook has run, which may have changed anything.
#[derive(Clone, Copy, PartialEq, Eq, Structural)]
pub enum AfterHook {
    /// Nothing: what was read before is gone by.
    Nothing,
    /// Whether the connection is still open.
    Open,
    /// Whether a transaction is open now.
    Transaction,
}

/// The way from a request to the connection that it runs on.
pub struct Approach<E> {
    pub closed: bool,
    /// Whether the trace callback gets to see the statement.
    pub traces: bool,
    /// Whether the hook that prepares a new database runs first.
    pub hooks: bool,
    pub after_hook: AfterHook,
    /// Whether callbacks stand in the way.
    pub refuses_callbacks: bool,
    pub errors: PhantomData<E>,
}

/// The call that the way in waits for.
pub enum ApproachStep<E> {
    /// Show the statement to the trace callback.
    Trace,
    /// Read whether callbacks are registered; they stand in the way.
    CheckCallbacks,
    /// Read whether a transaction is open.
    ReadTransaction,
    /// Make sure that there is a pool.
    OpenPool,
    /// Run the hook. It is known whether there is a pool.
    RunHook { pool: bool },
    /// Read whether the connection has been closed meanwhile.
    CheckOpen { pool: bool },
    /// Read once more whether a transaction is open.
    ReadTransactionAgain { pool: bool },
    /// Make sure that there is a pool: the hook has ended the transaction.
    OpenPoolLate,
    /// Read whether callbacks are registered.
    ReadCallbacks { in_transaction: bool },
    /// No call is left: this is where the operation runs.
    Finished(Result<Route, OperationError<E>>),
}

/// What a call of the way in brings back.
pub enum ApproachReply<E> {
    /// That the call is done.
    Done,
    /// Whether it is so.
    Flag(bool),
    /// How the call went.
    Ran(Result<(), E>),
}

impl<E> Approach<E> {
    /// What comes behind the trace callback.
    pub open spec fn traced(self) -> ApproachStep<E> {
        if self.refuses_callbacks {
            ApproachStep::CheckCallbacks
        } else {
            ApproachStep::ReadTransaction
        }
    }
}

impl<E> Process for Approach<E> {
    type State = ApproachStep<E>;

    type Reply = ApproachReply<E>;

    open spec fn outset(self) -> ApproachStep<E> {
        if self.closed {
            ApproachStep::Finished(Err(OperationError::Refused(ConnectionError::Closed)))
        } else if self.traces {
            ApproachStep::Trace
        } else {
            self.traced()
        }
    }

    open spec fn ended(self, state: ApproachStep<E>) -> bool {
        state is Finished
    }

    open spec fn answers(self, state: ApproachStep<E>, reply: ApproachReply<E>) -> bool {
        match state {
            ApproachStep::Trace => reply is Done,
            ApproachStep::CheckCallbacks
            | ApproachStep::ReadTransaction
            | ApproachStep::CheckOpen { .. }
            | ApproachStep::ReadTransactionAgain { .. }
            | ApproachStep::ReadCallbacks { .. } => reply is Flag,
            ApproachStep::OpenPool
            | ApproachStep::RunHook { .. }
            | ApproachStep::OpenPoolLate => reply is Ran,
            ApproachStep::Finished(_) => false,
        }
    }

    open spec fn next(self, state: ApproachStep<E>, reply: ApproachReply<E>) -> ApproachStep<E> {
        match (state, reply) {
            (ApproachStep::Trace, ApproachReply::Done) => self.traced(),
            (ApproachStep::CheckCallbacks, ApproachReply::Flag(registered)) => if registered {
                ApproachStep::Finished(
                    Err(OperationError::Refused(ConnectionError::RawWithCallbacks)),
                )
            } else {
                ApproachStep::ReadTransaction
            },
            (ApproachStep::ReadTransaction, ApproachReply::Flag(in_transaction)) =>
                if !self.hooks {
                ApproachStep::ReadCallbacks { in_transaction }
            } else if in_transaction {
                ApproachStep::RunHook { pool: false }
            } else {
                ApproachStep::OpenPool
            },
            (ApproachStep::OpenPool, ApproachReply::Ran(outcome)) => match outcome {
                Ok(_) => ApproachStep::RunHook { pool: true },
                Err(error) => ApproachStep::Finished(Err(OperationError::Call(error))),
            },
            (ApproachStep::RunHook { pool }, ApproachReply::Ran(outcome)) => match outcome {
                Ok(_) => match self.after_hook {
                    AfterHook::Nothing => ApproachStep::ReadCallbacks { in_transaction: !pool },
                    AfterHook::Open => ApproachStep::CheckOpen { pool },
                    AfterHook::Transaction => ApproachStep::ReadTransactionAgain { pool },
                },
                Err(error) => ApproachStep::Finished(Err(OperationError::Call(error))),
            },
            (ApproachStep::CheckOpen { pool }, ApproachReply::Flag(closed)) => if closed {
                ApproachStep::Finished(Err(OperationError::Refused(ConnectionError::Closed)))
            } else {
                ApproachStep::ReadCallbacks { in_transaction: !pool }
            },
            (
                ApproachStep::ReadTransactionAgain { pool },
                ApproachReply::Flag(in_transaction),
            ) => if !in_transaction && !pool {
                ApproachStep::OpenPoolLate
            } else {
                ApproachStep::ReadCallbacks { in_transaction }
            },
            (ApproachStep::OpenPoolLate, ApproachReply::Ran(outcome)) => match outcome {
                Ok(_) => ApproachStep::ReadCallbacks { in_transaction: false },
                Err(error) => ApproachStep::Finished(Err(OperationError::Call(error))),
            },
            (ApproachStep::ReadCallbacks { in_transaction }, ApproachReply::Flag(registered)) =>
                if self.refuses_callbacks && registered {
                ApproachStep::Finished(
                    Err(OperationError::Refused(ConnectionError::RawWithCallbacks)),
                )
            } else {
                ApproachStep::Finished(Ok(routing::routed(in_transaction, registered)))
            },
            (state, _) => state,
        }
    }
}

impl<E> Approach<E> {
    fn behind_trace(&self) -> (out: ApproachStep<E>)
        ensures
            out == self.traced(),
    {
        if self.refuses_callbacks {
            ApproachStep::CheckCallbacks
        } else {
            ApproachStep::ReadTransaction
        }
    }

    /// The first call to make.
    pub fn start(&self) -> (out: ApproachStep<E>)
        ensures
            out == self.outset(),
    {
        if self.closed {
            ApproachStep::Finished(Err(OperationError::Refused(ConnectionError::Closed)))
        } else if self.traces {
            ApproachStep::Trace
        } else {
            self.behind_trace()
        }
    }

    /// The call to make behind a reply.
    pub fn resume(&self, state: ApproachStep<E>, reply: ApproachReply<E>) -> (out: ApproachStep<E>)
        ensures
            out == self.next(state, reply),
    {
        match (state, reply) {
            (ApproachStep::Trace, ApproachReply::Done) => self.behind_trace(),
            (ApproachStep::CheckCallbacks, ApproachReply::Flag(registered)) => if registered {
                ApproachStep::Finished(
                    Err(OperationError::Refused(ConnectionError::RawWithCallbacks)),
                )
            } else {
                ApproachStep::ReadTransaction
            },
            (ApproachStep::ReadTransaction, ApproachReply::Flag(in_transaction)) =>
                if !self.hooks {
                ApproachStep::ReadCallbacks { in_transaction }
            } else if in_transaction {
                ApproachStep::RunHook { pool: false }
            } else {
                ApproachStep::OpenPool
            },
            (ApproachStep::OpenPool, ApproachReply::Ran(outcome)) => match outcome {
                Ok(_) => ApproachStep::RunHook { pool: true },
                Err(error) => ApproachStep::Finished(Err(OperationError::Call(error))),
            },
            (ApproachStep::RunHook { pool }, ApproachReply::Ran(outcome)) => match outcome {
                Ok(_) => match self.after_hook {
                    AfterHook::Nothing => ApproachStep::ReadCallbacks { in_transaction: !pool },
                    AfterHook::Open => ApproachStep::CheckOpen { pool },
                    AfterHook::Transaction => ApproachStep::ReadTransactionAgain { pool },
                },
                Err(error) => ApproachStep::Finished(Err(OperationError::Call(error))),
            },
            (ApproachStep::CheckOpen { pool }, ApproachReply::Flag(closed)) => if closed {
                ApproachStep::Finished(Err(OperationError::Refused(ConnectionError::Closed)))
            } else {
                ApproachStep::ReadCallbacks { in_transaction: !pool }
            },
            (
                ApproachStep::ReadTransactionAgain { pool },
                ApproachReply::Flag(in_transaction),
            ) => if !in_transaction && !pool {
                ApproachStep::OpenPoolLate
            } else {
                ApproachStep::ReadCallbacks { in_transaction }
            },
            (ApproachStep::OpenPoolLate, ApproachReply::Ran(outcome)) => match outcome {
                Ok(_) => ApproachStep::ReadCallbacks { in_transaction: false },
                Err(error) => ApproachStep::Finished(Err(OperationError::Call(error))),
            },
            (ApproachStep::ReadCallbacks { in_transaction }, ApproachReply::Flag(registered)) =>
                if self.refuses_callbacks && registered {
                ApproachStep::Finished(
                    Err(OperationError::Refused(ConnectionError::RawWithCallbacks)),
                )
            } else {
                ApproachStep::Finished(Ok(routing::route(in_transaction, registered)))
            },
            (state, _) => state,
        }
    }
}

/// Whether a pool has been made sure of.
pub open spec fn pool_opened<E>(approach: Approach<E>, replies: Seq<ApproachReply<E>>) -> bool
    decreases replies.len(),
{
    replies.len() > 0 && {
        ||| pool_opened(approach, replies.drop_last())
        ||| match process::reached(approach, replies.drop_last()) {
            ApproachStep::OpenPool | ApproachStep::OpenPoolLate => replies.last()->Ran_0 is Ok,
            _ => false,
        }
    }
}

/// How many times the hook has been run.
pub open spec fn hook_runs<E>(approach: Approach<E>, replies: Seq<ApproachReply<E>>) -> int
    decreases replies.len(),
{
    if replies.len() == 0 {
        0
    } else {
        hook_runs(approach, replies.drop_last()) + (match process::reached(
            approach,
            replies.drop_last(),
        ) {
            ApproachStep::RunHook { .. } => 1int,
            _ => 0int,
        })
    }
}

proof fn lemma_approach_course<E>(approach: Approach<E>, replies: Seq<ApproachReply<E>>)
    requires
        process::possible(approach, replies),
    ensures
        replies.len() > 0 ==> !approach.closed,
        match process::reached(approach, replies) {
            ApproachStep::Trace
            | ApproachStep::CheckCallbacks
            | ApproachStep::ReadTransaction => hook_runs(approach, replies) == 0,
            ApproachStep::OpenPool => approach.hooks && hook_runs(approach, replies) == 0,
            ApproachStep::RunHook { pool } => {
                &&& approach.hooks
                &&& hook_runs(approach, replies) == 0
                &&& pool ==> pool_opened(approach, replies)
            },
            ApproachStep::CheckOpen { pool } | ApproachStep::ReadTransactionAgain { pool } => {
                &&& approach.hooks
                &&& hook_runs(approach, replies) == 1
                &&& pool ==> pool_opened(approach, replies)
            },
            ApproachStep::OpenPoolLate => approach.hooks && hook_runs(approach, replies) == 1,
            ApproachStep::ReadCallbacks { in_transaction } => {
                &&& hook_runs(approach, replies) == (if approach.hooks {
                    1int
                } else {
                    0int
                })
                &&& approach.hooks && !in_transaction ==> pool_opened(approach, replies)
            },
            ApproachStep::Finished(Ok(route)) => {
                &&& replies.len() > 0
                &&& hook_runs(approach, replies) == (if approach.hooks {
                    1int
                } else {
                    0int
                })
                &&& approach.hooks && route != Route::Transaction ==> pool_opened(
                    approach,
                    replies,
                )
                &&& approach.refuses_callbacks ==> route != Route::Callbacks
            },
            ApproachStep::Finished(Err(_)) => true,
        },
    decreases replies.len(),
{
    if replies.len() > 0 {
        lemma_approach_course(approach, replies.drop_last());
    }
}

/// An operation that finds its connection does so on an open connection, with
/// the hook run exactly once before, where it is to run at all, and with a
/// pool at hand, unless it runs inside a transaction. What callbacks stand in
/// the way of never runs on the connection that carries them.
pub proof fn law_approach_prepares<E>(approach: Approach<E>, replies: Seq<ApproachReply<E>>)
    requires
        process::possible(approach, replies),
        process::reached(approach, replies) matches ApproachStep::Finished(Ok(_)),
    ensures
        !approach.closed,
        approach.hooks ==> hook_runs(approach, replies) == 1,
        !approach.hooks ==> hook_runs(approach, replies) == 0,
        approach.hooks && process::reached(approach, replies)->Finished_0->Ok_0
            != Route::Transaction ==> pool_opened(approach, replies),
        approach.refuses_callbacks ==> process::reached(approach, replies)->Finished_0->Ok_0
            != Route::Callbacks,
{
    lemma_approach_course(approach, replies);
}

// ---------------------------------------------------------------- the run

/// An operation on the connection that was found.
pub struct Operation<T, E> {
    pub route: Route,
    /// Whether a pool is made sure of first, outside a transaction.
    pub opens_pool: bool,
    /// Whether the raw handle is locked, and how an error of that is worded.
    pub locks: Option<LockFrame>,
    /// Whether the connection that carries the callbacks is given up behind
    /// the run.
    pub discards: bool,
    pub results: PhantomData<(T, E)>,
}

/// The call that an operation waits for.
pub enum OperationStep<T, E> {
    /// Bind the callbacks to a connection of their own.
    BindCallbacks,
    /// Make sure that there is a pool.
    OpenPool,
    /// Lock the connection of the session.
    LockSession,
    /// Take hold of the connection.
    UseConnection,
    /// Lock its raw handle.
    LockHandle,
    /// Run the operation.
    Run,
    /// Give the connection that carries the callbacks up.
    Discard(Result<T, OperationError<E>>),
    /// No call is left.
    Finished(Result<T, OperationError<E>>),
}

/// What a call of an operation brings back.
pub enum OperationReply<T, E> {
    /// How the call went.
    Ran(Result<(), E>),
    /// Whether there is a connection.
    Found(bool),
    /// What the operation gives.
    Result(Result<T, E>),
    /// That the call is done.
    Done,
}

/// The error of a slot that holds no connection.
pub open spec fn missing(route: Route) -> ConnectionError {
    match route {
        Route::Transaction => ConnectionError::NoTransactionConnection,
        Route::Callbacks => ConnectionError::NoCallbackConnection,
        Route::Session => ConnectionError::NoSessionConnection,
    }
}

/// Names the error of a slot that holds no connection.
pub fn missing_connection(route: Route) -> (out: ConnectionError)
    ensures
        out == missing(route),
{
    match route {
        Route::Transaction => ConnectionError::NoTransactionConnection,
        Route::Callbacks => ConnectionError::NoCallbackConnection,
        Route::Session => ConnectionError::NoSessionConnection,
    }
}

impl<T, E> Operation<T, E> {
    /// What comes once there is a pool.
    pub open spec fn pooled(self) -> OperationStep<T, E> {
        if self.route == Route::Session {
            OperationStep::LockSession
        } else {
            OperationStep::UseConnection
        }
    }

    /// What comes once the callbacks are bound, where there are any.
    pub open spec fn bound(self) -> OperationStep<T, E> {
        if self.opens_pool {
            OperationStep::OpenPool
        } else {
            self.pooled()
        }
    }
}

impl<T, E> Process for Operation<T, E> {
    type State = OperationStep<T, E>;

    type Reply = OperationReply<T, E>;

    open spec fn outset(self) -> OperationStep<T, E> {
        match self.route {
            Route::Transaction => OperationStep::UseConnection,
            Route::Callbacks => OperationStep::BindCallbacks,
            Route::Session => self.bound(),
        }
    }

    open spec fn ended(self, state: OperationStep<T, E>) -> bool {
        state is Finished
    }

    open spec fn answers(self, state: OperationStep<T, E>, reply: OperationReply<T, E>) -> bool {
        match state {
            OperationStep::BindCallbacks
            | OperationStep::OpenPool
            | OperationStep::LockSession
            | OperationStep::LockHandle => reply is Ran,
            OperationStep::UseConnection => reply is Found,
            OperationStep::Run => reply is Result,
            OperationStep::Discard(_) => reply is Done,
            OperationStep::Finished(_) => false,
        }
    }

    open spec fn next(
        self,
        state: OperationStep<T, E>,
        reply: OperationReply<T, E>,
    ) -> OperationStep<T, E> {
        match (state, reply) {
            (OperationStep::BindCallbacks, OperationReply::Ran(outcome)) => match outcome {
                Ok(_) => self.bound(),
                Err(error) => OperationStep::Finished(Err(OperationError::Call(error))),
            },
            (OperationStep::OpenPool, OperationReply::Ran(outcome)) => match outcome {
                Ok(_) => self.pooled(),
                Err(error) => OperationStep::Finished(Err(OperationError::Call(error))),
            },
            (OperationStep::LockSession, OperationReply::Ran(outcome)) => match outcome {
                Ok(_) => OperationStep::UseConnection,
                Err(error) => OperationStep::Finished(Err(OperationError::Call(error))),
            },
            (OperationStep::UseConnection, OperationReply::Found(found)) => if !found {
                OperationStep::Finished(Err(OperationError::Refused(missing(self.route))))
            } else if self.locks is Some {
                OperationStep::LockHandle
            } else {
                OperationStep::Run
            },
            (OperationStep::LockHandle, OperationReply::Ran(outcome)) => match (
                outcome,
                self.locks,
            ) {
                (Err(error), Some(frame)) => OperationStep::Finished(
                    Err(OperationError::Lock(frame, error)),
                ),
                _ => OperationStep::Run,
            },
            (OperationStep::Run, OperationReply::Result(outcome)) => {
                let result: Result<T, OperationError<E>> = match outcome {
                    Ok(value) => Ok(value),
                    Err(error) => Err(OperationError::Call(error)),
                };
                if self.discards && self.route == Route::Callbacks {
                    OperationStep::Discard(result)
                } else {
                    OperationStep::Finished(result)
                }
            },
            (OperationStep::Discard(result), OperationReply::Done) => OperationStep::Finished(
                result,
            ),
            (state, _) => state,
        }
    }
}

impl<T, E> Operation<T, E> {
    fn behind_pool(&self) -> (out: OperationStep<T, E>)
        ensures
            out == self.pooled(),
    {
        match self.route {
            Route::Session => OperationStep::LockSession,
            _ => OperationStep::UseConnection,
        }
    }

    fn behind_binding(&self) -> (out: OperationStep<T, E>)
        ensures
            out == self.bound(),
    {
        if self.opens_pool {
            OperationStep::OpenPool
        } else {
            self.behind_pool()
        }
    }

    /// The first call to make.
    pub fn start(&self) -> (out: OperationStep<T, E>)
        ensures
            out == self.outset(),
    {
        match self.route {
            Route::Transaction => OperationStep::UseConnection,
            Route::Callbacks => OperationStep::BindCallbacks,
            Route::Session => self.behind_binding(),
        }
    }

    /// The call to make behind a reply.
    pub fn resume(&self, state: OperationStep<T, E>, reply: OperationReply<T, E>) -> (out:
        OperationStep<T, E>)
        ensures
            out == self.next(state, reply),
    {
        match (state, reply) {
            (OperationStep::BindCallbacks, OperationReply::Ran(outcome)) => match outcome {
                Ok(_) => self.behind_binding(),
                Err(error) => OperationStep::Finished(Err(OperationError::Call(error))),
            },
            (OperationStep::OpenPool, OperationReply::Ran(outcome)) => match outcome {
                Ok(_) => self.behind_pool(),
                Err(error) => OperationStep::Finished(Err(OperationError::Call(error))),
            },
            (OperationStep::LockSession, OperationReply::Ran(outcome)) => match outcome {
                Ok(_) => OperationStep::UseConnection,
                Err(error) => OperationStep::Finished(Err(OperationError::Call(error))),
            },
            (OperationStep::UseConnection, OperationReply::Found(found)) => if !found {
                OperationStep::Finished(
                    Err(OperationError::Refused(missing_connection(self.route))),
                )
            } else {
                match self.locks {
                    Some(_) => OperationStep::LockHandle,
                    None => OperationStep::Run,
                }
            },
            (OperationStep::LockHandle, OperationReply::Ran(outcome)) => match (
                outcome,
                self.locks,
            ) {
                (Err(error), Some(frame)) => OperationStep::Finished(
                    Err(OperationError::Lock(frame, error)),
                ),
                _ => OperationStep::Run,
            },
            (OperationStep::Run, OperationReply::Result(outcome)) => {
                let result: Result<T, OperationError<E>> = match outcome {
                    Ok(value) => Ok(value),
                    Err(error) => Err(OperationError::Call(error)),
                };
                match self.route {
                    Route::Callbacks if self.discards => OperationStep::Discard(result),
                    _ => OperationStep::Finished(result),
                }
            },
            (OperationStep::Discard(result), OperationReply::Done) => OperationStep::Finished(
                result,
            ),
            (state, _) => state,
        }
    }
}

/// Whether the operation was run on a connection that carries callbacks, and
/// that connection has not been given up since.
pub open spec fn keeps_callbacks<T, E>(
    operation: Operation<T, E>,
    replies: Seq<OperationReply<T, E>>,
) -> bool
    decreases replies.len(),
{
    if replies.len() == 0 {
        false
    } else {
        match process::reached(operation, replies.drop_last()) {
            OperationStep::Run => operation.route == Route::Callbacks,
            OperationStep::Discard(_) => false,
            _ => keeps_callbacks(operation, replies.drop_last()),
        }
    }
}

/// Behind every run on a connection that carries callbacks that connection is
/// given up, however the run went, where it is to be given up at all.
pub proof fn law_operation_gives_up_callbacks<T, E>(
    operation: Operation<T, E>,
    replies: Seq<OperationReply<T, E>>,
)
    requires
        process::possible(operation, replies),
        operation.discards,
    ensures
        keeps_callbacks(operation, replies) == process::reached(operation, replies) is Discard,
        operation.ended(process::reached(operation, replies)) ==> !keeps_callbacks(
            operation,
            replies,
        ),
    decreases replies.len(),
{
    if replies.len() > 0 {
        law_operation_gives_up_callbacks(operation, replies.drop_last());
    }
}

/// What an operation gives is what its run gave; without a run it fails.
pub open spec fn run_gave<T, E>(
    operation: Operation<T, E>,
    replies: Seq<OperationReply<T, E>>,
) -> Option<Result<T, E>>
    decreases replies.len(),
{
    if replies.len() == 0 {
        None
    } else if process::reached(operation, replies.drop_last()) is Run {
        Some(replies.last()->Result_0)
    } else {
        run_gave(operation, replies.drop_last())
    }
}

/// An operation succeeds exactly where its run does, and gives what it gave.
pub proof fn law_operation_gives_its_run<T, E>(
    operation: Operation<T, E>,
    replies: Seq<OperationReply<T, E>>,
)
    requires
        process::possible(operation, replies),
        operation.ended(process::reached(operation, replies)),
    ensures
        match process::reached(operation, replies)->Finished_0 {
            Ok(value) => run_gave(operation, replies) == Some(Result::<T, E>::Ok(value)),
            Err(OperationError::Call(error)) => run_gave(operation, replies) is None || run_gave(
                operation,
                replies,
            ) == Some(Result::<T, E>::Err(error)),
            Err(_) => run_gave(operation, replies) is None,
        },
{
    lemma_operation_run(operation, replies);
}

proof fn lemma_operation_run<T, E>(
    operation: Operation<T, E>,
    replies: Seq<OperationReply<T, E>>,
)
    requires
        process::possible(operation, replies),
    ensures
        match process::reached(operation, replies) {
            OperationStep::Discard(result) => match result {
                Ok(value) => run_gave(operation, replies) == Some(Result::<T, E>::Ok(value)),
                Err(OperationError::Call(error)) => run_gave(operation, replies) == Some(
                    Result::<T, E>::Err(error),
                ),
                Err(_) => false,
            },
            OperationStep::Finished(result) => match result {
                Ok(value) => run_gave(operation, replies) == Some(Result::<T, E>::Ok(value)),
                Err(OperationError::Call(error)) => run_gave(operation, replies) is None
                    || run_gave(operation, replies) == Some(Result::<T, E>::Err(error)),
                Err(_) => run_gave(operation, replies) is None,
            },
            _ => run_gave(operation, replies) is None,
        },
    decreases replies.len(),
{
    if replies.len() > 0 {
        lemma_operation_run(operation, replies.drop_last());
    }
}

/// A bound on the calls that the way in has left to make.
pub open spec fn approach_calls_left<E>(step: ApproachStep<E>) -> int {
    match step {
        ApproachStep::Trace => 9,
        ApproachStep::CheckCallbacks => 8,
        ApproachStep::ReadTransaction => 7,
        ApproachStep::OpenPool => 6,
        ApproachStep::RunHook { .. } => 5,
        ApproachStep::CheckOpen { .. } | ApproachStep::ReadTransactionAgain { .. } => 4,
        ApproachStep::OpenPoolLate => 3,
        ApproachStep::ReadCallbacks { .. } => 2,
        ApproachStep::Finished(_) => 0,
    }
}

/// With every reply the bound on the calls that are left goes down, so that
/// the way in comes to its end.
pub proof fn law_approach_ends<E>(
    approach: Approach<E>,
    state: ApproachStep<E>,
    reply: ApproachReply<E>,
)
    requires
        approach.answers(state, reply),
    ensures
        0 <= approach_calls_left(approach.next(state, reply)) < approach_calls_left(state),
{
}

/// A bound on the calls that an operation has left to make.
pub open spec fn operation_calls_left<T, E>(step: OperationStep<T, E>) -> int {
    match step {
        OperationStep::BindCallbacks => 7,
        OperationStep::OpenPool => 6,
        OperationStep::LockSession => 5,
        OperationStep::UseConnection => 4,
        OperationStep::LockHandle => 3,
        OperationStep::Run => 2,
        OperationStep::Discard(_) => 1,
        OperationStep::Finished(_) => 0,
    }
}

/// With every reply the bound on the calls that are left goes down, so that an
/// operation comes to its end.
pub proof fn law_operation_ends<T, E>(
    operation: Operation<T, E>,
    state: OperationStep<T, E>,
    reply: OperationReply<T, E>,
)
    requires
        operation.answers(state, reply),
    ensures
        0 <= operation_calls_left(operation.next(state, reply)) < operation_calls_left(state),
{
}

// ---------------------------------------------------------------- what was asked

/// What the way in has asked and been answered.
pub ghost struct ApproachLedger<E> {
    /// The statement was shown to the trace callback.
    pub shown: bool,
    /// Whether a transaction is open, as it was read last.
    pub in_transaction: Option<bool>,
    /// How often that was read.
    pub readings: int,
    /// Whether the connection was found closed behind the hook.
    pub found_closed: Option<bool>,
    /// Whether callbacks are registered, as it was read last.
    pub callbacks: Option<bool>,
    /// What went wrong.
    pub trouble: Option<OperationError<E>>,
}

/// What the way in has asked once these replies have come back.
pub open spec fn approach_ledger<E>(
    approach: Approach<E>,
    replies: Seq<ApproachReply<E>>,
) -> ApproachLedger<E>
    decreases replies.len(),
{
    if replies.len() == 0 {
        ApproachLedger {
            shown: false,
            in_transaction: None,
            readings: 0,
            found_closed: None,
            callbacks: None,
            trouble: None,
        }
    } else {
        let ledger = approach_ledger(approach, replies.drop_last());
        match (process::reached(approach, replies.drop_last()), replies.last()) {
            (ApproachStep::Trace, _) => ApproachLedger { shown: true, ..ledger },
            (
                ApproachStep::CheckCallbacks | ApproachStep::ReadCallbacks { .. },
                ApproachReply::Flag(registered),
            ) => ApproachLedger {
                callbacks: Some(registered),
                trouble: if registered && approach.refuses_callbacks {
                    Some(OperationError::Refused(ConnectionError::RawWithCallbacks))
                } else {
                    None
                },
                ..ledger
            },
            (
                ApproachStep::ReadTransaction | ApproachStep::ReadTransactionAgain { .. },
                ApproachReply::Flag(open),
            ) => ApproachLedger {
                in_transaction: Some(open),
                readings: ledger.readings + 1,
                ..ledger
            },
            (ApproachStep::CheckOpen { .. }, ApproachReply::Flag(closed)) => ApproachLedger {
                found_closed: Some(closed),
                trouble: if closed {
                    Some(OperationError::Refused(ConnectionError::Closed))
                } else {
                    None
                },
                ..ledger
            },
            (
                ApproachStep::OpenPool
                | ApproachStep::RunHook { .. }
                | ApproachStep::OpenPoolLate,
                ApproachReply::Ran(Err(error)),
            ) => ApproachLedger { trouble: Some(OperationError::Call(error)), ..ledger },
            _ => ledger,
        }
    }
}

/// An operation runs where the latest answers say: on the transaction's
/// connection where a transaction is open, as it was read last, which is behind
/// the hook where that is asked; on the one that carries the callbacks where
/// some are registered; and on the session's otherwise. The statement is shown
/// to the trace callback before, where it is to be. An operation that does not
/// come to run fails with what it met and with nothing else.
pub proof fn law_approach_goes_by_the_answers<E>(
    approach: Approach<E>,
    replies: Seq<ApproachReply<E>>,
)
    requires
        process::possible(approach, replies),
    ensures
        approach.closed ==> process::reached(approach, replies) == ApproachStep::<E>::Finished(
            Err(OperationError::Refused(ConnectionError::Closed)),
        ),
        !approach.closed ==> {
            let ledger = approach_ledger(approach, replies);
            match process::reached(approach, replies) {
                ApproachStep::Trace => {
                    &&& approach.traces
                    &&& replies.len() == 0
                },
                ApproachStep::CheckCallbacks => {
                    &&& approach.refuses_callbacks
                    &&& ledger.shown == approach.traces
                    &&& ledger.readings == 0
                    &&& ledger.trouble is None
                },
                ApproachStep::ReadTransaction => {
                    &&& ledger.shown == approach.traces
                    &&& approach.refuses_callbacks ==> ledger.callbacks == Some(false)
                    &&& ledger.readings == 0
                    &&& ledger.trouble is None
                },
                ApproachStep::OpenPool => {
                    &&& ledger.shown == approach.traces
                    &&& approach.hooks
                    &&& ledger.in_transaction == Some(false)
                    &&& ledger.readings == 1
                    &&& ledger.trouble is None
                },
                ApproachStep::RunHook { pool } | ApproachStep::ReadTransactionAgain { pool } => {
                    &&& ledger.shown == approach.traces
                    &&& approach.hooks
                    &&& ledger.in_transaction == Some(!pool)
                    &&& ledger.readings == 1
                    &&& ledger.trouble is None
                    &&& ledger.found_closed is None
                },
                ApproachStep::CheckOpen { pool } => {
                    &&& ledger.shown == approach.traces
                    &&& approach.hooks
                    &&& approach.after_hook == AfterHook::Open
                    &&& ledger.in_transaction == Some(!pool)
                    &&& ledger.readings == 1
                    &&& ledger.trouble is None
                },
                ApproachStep::OpenPoolLate => {
                    &&& ledger.shown == approach.traces
                    &&& approach.hooks
                    &&& approach.after_hook == AfterHook::Transaction
                    &&& ledger.in_transaction == Some(false)
                    &&& ledger.readings == 2
                    &&& ledger.trouble is None
                },
                ApproachStep::ReadCallbacks { in_transaction } => {
                    &&& ledger.shown == approach.traces
                    &&& ledger.in_transaction == Some(in_transaction)
                    &&& ledger.readings == if approach.hooks && approach.after_hook
                        == AfterHook::Transaction {
                        2int
                    } else {
                        1int
                    }
                    &&& approach.hooks && approach.after_hook == AfterHook::Open
                        ==> ledger.found_closed == Some(false)
                    &&& ledger.trouble is None
                },
                ApproachStep::Finished(Ok(route)) => {
                    &&& ledger.shown == approach.traces
                    &&& ledger.readings == if approach.hooks && approach.after_hook
                        == AfterHook::Transaction {
                        2int
                    } else {
                        1int
                    }
                    &&& approach.hooks && approach.after_hook == AfterHook::Open
                        ==> ledger.found_closed == Some(false)
                    &&& route == Route::Transaction <==> ledger.in_transaction == Some(true)
                    &&& route == Route::Callbacks <==> ledger.in_transaction == Some(false)
                        && ledger.callbacks == Some(true)
                    &&& route == Route::Session <==> ledger.in_transaction == Some(false)
                        && ledger.callbacks == Some(false)
                    &&& ledger.trouble is None
                },
                ApproachStep::Finished(Err(error)) => ledger.trouble == Some(error),
            }
        },
        process::reached(approach, replies) matches ApproachStep::ReadTransactionAgain { .. }
            ==> approach.after_hook == AfterHook::Transaction,
        !approach.closed && (process::reached(approach, replies) is Trace || process::reached(
            approach,
            replies,
        ) is CheckCallbacks || process::reached(approach, replies) is ReadTransaction
            || process::reached(approach, replies) is OpenPool) ==> approach_ledger(
            approach,
            replies,
        ).found_closed is None && approach_ledger(approach, replies).trouble is None,
    decreases replies.len(),
{
    if replies.len() > 0 {
        law_approach_goes_by_the_answers(approach, replies.drop_last());
    }
}

/// What an operation has done so far.
pub ghost struct OperationLedger<E> {
    pub bound: bool,
    pub pooled: bool,
    pub session_locked: bool,
    pub found: bool,
    pub handle_locked: bool,
    pub discarded: bool,
    /// What went wrong.
    pub trouble: Option<OperationError<E>>,
}

/// What an operation has done once these replies have come back.
pub open spec fn operation_ledger<T, E>(
    operation: Operation<T, E>,
    replies: Seq<OperationReply<T, E>>,
) -> OperationLedger<E>
    decreases replies.len(),
{
    if replies.len() == 0 {
        OperationLedger {
            bound: false,
            pooled: false,
            session_locked: false,
            found: false,
            handle_locked: false,
            discarded: false,
            trouble: None,
        }
    } else {
        let ledger = operation_ledger(operation, replies.drop_last());
        match (process::reached(operation, replies.drop_last()), replies.last()) {
            (OperationStep::BindCallbacks, OperationReply::Ran(Ok(_))) => OperationLedger {
                bound: true,
                ..ledger
            },
            (OperationStep::OpenPool, OperationReply::Ran(Ok(_))) => OperationLedger {
                pooled: true,
                ..ledger
            },
            (OperationStep::LockSession, OperationReply::Ran(Ok(_))) => OperationLedger {
                session_locked: true,
                ..ledger
            },
            (OperationStep::LockHandle, OperationReply::Ran(Ok(_))) => OperationLedger {
                handle_locked: true,
                ..ledger
            },
            (
                OperationStep::BindCallbacks | OperationStep::OpenPool | OperationStep::LockSession,
                OperationReply::Ran(Err(error)),
            ) => OperationLedger { trouble: Some(OperationError::Call(error)), ..ledger },
            (OperationStep::LockHandle, OperationReply::Ran(Err(error))) => match operation.locks {
                Some(frame) => OperationLedger {
                    trouble: Some(OperationError::Lock(frame, error)),
                    ..ledger
                },
                None => ledger,
            },
            (OperationStep::UseConnection, OperationReply::Found(found)) => OperationLedger {
                found,
                trouble: if found {
                    None
                } else {
                    Some(
                        OperationError::Refused(
                            if operation.route == Route::Transaction {
                                ConnectionError::NoTransactionConnection
                            } else if operation.route == Route::Callbacks {
                                ConnectionError::NoCallbackConnection
                            } else {
                                ConnectionError::NoSessionConnection
                            },
                        ),
                    )
                },
                ..ledger
            },
            (OperationStep::Run, OperationReply::Result(Err(error))) => OperationLedger {
                trouble: Some(OperationError::Call(error)),
                ..ledger
            },
            (OperationStep::Discard(_), _) => OperationLedger { discarded: true, ..ledger },
            _ => ledger,
        }
    }
}

/// Whether everything is at hand that an operation needs before it takes hold
/// of its connection: the callbacks bound to it where it carries them, the
/// session locked where it is the session's, and a pool where one is to be made
/// sure of.
pub open spec fn operation_ready<T, E>(
    operation: Operation<T, E>,
    ledger: OperationLedger<E>,
) -> bool {
    &&& ledger.bound == (operation.route == Route::Callbacks)
    &&& ledger.session_locked == (operation.route == Route::Session)
    &&& ledger.pooled == (operation.opens_pool && operation.route != Route::Transaction)
}

/// An operation runs only with everything at hand that it needs, on a
/// connection that is there, and with its raw handle locked where it is to be.
/// Where it does not succeed it reports what went wrong and nothing else, and
/// the connection that carries callbacks is given up behind the run exactly
/// where it is to be.
pub proof fn law_operation_runs_with_what_it_needs<T, E>(
    operation: Operation<T, E>,
    replies: Seq<OperationReply<T, E>>,
)
    requires
        process::possible(operation, replies),
    ensures
        ({
            let ledger = operation_ledger(operation, replies);
            match process::reached(operation, replies) {
                OperationStep::BindCallbacks => replies.len() == 0 && operation.route
                    == Route::Callbacks,
                OperationStep::OpenPool => {
                    &&& operation.opens_pool
                    &&& operation.route != Route::Transaction
                    &&& ledger.bound == (operation.route == Route::Callbacks)
                    &&& !ledger.session_locked
                    &&& !ledger.pooled
                    &&& !ledger.handle_locked
                    &&& ledger.trouble is None
                },
                OperationStep::LockSession => {
                    &&& operation.route == Route::Session
                    &&& ledger.pooled == operation.opens_pool
                    &&& !ledger.bound
                    &&& !ledger.handle_locked
                    &&& ledger.trouble is None
                },
                OperationStep::UseConnection => {
                    &&& operation_ready(operation, ledger)
                    &&& ledger.trouble is None
                    &&& !ledger.handle_locked
                },
                OperationStep::LockHandle => {
                    &&& operation_ready(operation, ledger)
                    &&& ledger.found
                    &&& operation.locks is Some
                    &&& ledger.trouble is None
                    &&& !ledger.handle_locked
                },
                OperationStep::Run => {
                    &&& operation_ready(operation, ledger)
                    &&& ledger.found
                    &&& ledger.handle_locked == (operation.locks is Some)
                    &&& ledger.trouble is None
                },
                OperationStep::Discard(result) => {
                    &&& operation.discards
                    &&& operation.route == Route::Callbacks
                    &&& match result {
                        Ok(_) => ledger.trouble is None,
                        Err(error) => ledger.trouble == Some(error),
                    }
                },
                OperationStep::Finished(result) => {
                    &&& match result {
                        Ok(_) => ledger.trouble is None,
                        Err(error) => ledger.trouble == Some(error),
                    }
                    &&& run_gave(operation, replies) is Some ==> ledger.discarded == (
                    operation.discards && operation.route == Route::Callbacks)
                },
            }
        }),
        !(process::reached(operation, replies) is Finished) ==> !operation_ledger(
            operation,
            replies,
        ).discarded,
        !(process::reached(operation, replies) is Finished) && !(process::reached(
            operation,
            replies,
        ) is Discard) ==> run_gave(operation, replies) is None,
    decreases replies.len(),
{
    if replies.len() > 0 {
        law_operation_runs_with_what_it_needs(operation, replies.drop_last());
    }
}

} // verus!
