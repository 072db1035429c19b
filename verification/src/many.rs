//! Running one statement over many parameter sets, on the connection that was
//! found for it.

use crate::error::ConnectionError;
use crate::failure::Failure;
use crate::operation;
use crate::operation::LockFrame;
use crate::process;
use crate::process::Process;
use crate::routing::Route;
use std::marker::PhantomData;
use vstd::prelude::*;

verus! {

/// One statement over many parameter sets. Inside a transaction each set is
/// run on its own, and on a connection that carries callbacks in a transaction
/// of its own; otherwise the sets are handed to SQLite as one raw batch.
pub struct Many<E> {
    pub route: Route,
    /// How many parameter sets there are.
    pub sets: usize,
    pub errors: PhantomData<E>,
}

/// Why a batch fails.
pub enum ManyError<E> {
    /// The library refuses it.
    Refused(ConnectionError),
    /// A call failed.
    Call(E),
    /// The handle could not be locked.
    Lock(LockFrame, E),
    /// The raw batch failed.
    Raw(Failure),
}

/// How many rows have changed, and the last rowid.
#[derive(Clone, Copy, PartialEq, Eq, Structural)]
pub struct Tally {
    pub changes: u64,
    pub rowid: i64,
}

/// The call that a batch waits for.
pub enum ManyStep<E> {
    /// Bind the callbacks to a connection of their own.
    BindCallbacks,
    /// Lock the connection of the session.
    LockSession,
    /// Take hold of the connection, for this set.
    UseConnection { set: usize, tally: Tally },
    /// Lock its raw handle.
    LockHandle,
    /// Run `BEGIN`.
    Begin,
    /// Run the statement with this set.
    RunSet { set: usize, tally: Tally },
    /// Run `COMMIT`.
    Commit { tally: Tally },
    /// Run `ROLLBACK`.
    Rollback(ManyError<E>),
    /// Close the connection, which may still be in the transaction.
    CloseConnection(ManyError<E>),
    /// Run all sets as one raw batch.
    RunRaw,
    /// Give the connection that carries the callbacks up.
    Discard(Result<Tally, ManyError<E>>),
    /// No call is left. Where it went well the tally is to be noted.
    Finished(Result<Tally, ManyError<E>>),
}

impl<E> ManyStep<E> {
    /// The statement of its own that a step runs, where it does.
    pub fn sql(&self) -> (out: Option<&'static str>)
        ensures
            match *self {
                ManyStep::Begin => out matches Some(sql) && sql@ == "BEGIN"@,
                ManyStep::Commit { .. } => out matches Some(sql) && sql@ == "COMMIT"@,
                ManyStep::Rollback(_) => out matches Some(sql) && sql@ == "ROLLBACK"@,
                _ => out is None,
            },
    {
        match self {
            ManyStep::Begin => Some("BEGIN"),
            ManyStep::Commit { .. } => Some("COMMIT"),
            ManyStep::Rollback(_) => Some("ROLLBACK"),
            _ => None,
        }
    }
}

/// What a call of a batch brings back.
pub enum ManyReply<E> {
    /// How the call went.
    Ran(Result<(), E>),
    /// Whether there is a connection.
    Found(bool),
    /// What the statement changed, and the last rowid.
    RanSet(Result<Tally, E>),
    /// What the raw batch changed, and the last rowid.
    RanRaw(Result<(u64, i64), Failure>),
    /// That the call is done.
    Done,
}

/// A tally of nothing.
pub open spec fn nothing() -> Tally {
    Tally { changes: 0, rowid: 0 }
}

/// A tally with one more run: the changes add up, in 64 bits, and the last
/// rowid counts.
pub open spec fn added(tally: Tally, run: Tally) -> Tally {
    Tally {
        changes: ((tally.changes + run.changes) % 0x1_0000_0000_0000_0000) as u64,
        rowid: run.rowid,
    }
}

impl<E> Many<E> {
    /// Goes on with the next set, or to the end.
    pub open spec fn set_from(self, set: int, tally: Tally) -> ManyStep<E> {
        if set < self.sets {
            if self.route == Route::Transaction {
                ManyStep::UseConnection { set: set as usize, tally }
            } else {
                ManyStep::RunSet { set: set as usize, tally }
            }
        } else if self.route == Route::Transaction {
            ManyStep::Finished(Ok(tally))
        } else {
            ManyStep::Commit { tally }
        }
    }

    /// Ends with an error before a transaction of its own is open.
    pub open spec fn failed(self, error: ManyError<E>) -> ManyStep<E> {
        if self.route == Route::Callbacks {
            ManyStep::Discard(Err(error))
        } else {
            ManyStep::Finished(Err(error))
        }
    }

    /// Whether a state speaks of a set that there is.
    pub open spec fn sound(self, state: ManyStep<E>) -> bool {
        match state {
            ManyStep::RunSet { set, .. } => set < self.sets,
            _ => true,
        }
    }
}

impl<E> Process for Many<E> {
    type State = ManyStep<E>;

    type Reply = ManyReply<E>;

    open spec fn outset(self) -> ManyStep<E> {
        match self.route {
            Route::Transaction => self.set_from(0, nothing()),
            Route::Callbacks => ManyStep::BindCallbacks,
            Route::Session => ManyStep::LockSession,
        }
    }

    open spec fn ended(self, state: ManyStep<E>) -> bool {
        state is Finished
    }

    open spec fn answers(self, state: ManyStep<E>, reply: ManyReply<E>) -> bool {
        match state {
            ManyStep::BindCallbacks
            | ManyStep::LockSession
            | ManyStep::LockHandle
            | ManyStep::Begin
            | ManyStep::Commit { .. }
            | ManyStep::Rollback(_) => reply is Ran,
            ManyStep::UseConnection { .. } => reply is Found,
            ManyStep::RunSet { .. } => reply is RanSet,
            ManyStep::RunRaw => reply is RanRaw,
            ManyStep::CloseConnection(_) | ManyStep::Discard(_) => reply is Done,
            ManyStep::Finished(_) => false,
        }
    }

    open spec fn next(self, state: ManyStep<E>, reply: ManyReply<E>) -> ManyStep<E> {
        match (state, reply) {
            (ManyStep::BindCallbacks, ManyReply::Ran(outcome)) => match outcome {
                Ok(_) => if self.sets == 0 {
                    ManyStep::Discard(Ok(nothing()))
                } else {
                    ManyStep::UseConnection { set: 0, tally: nothing() }
                },
                Err(error) => self.failed(ManyError::Call(error)),
            },
            (ManyStep::LockSession, ManyReply::Ran(outcome)) => match outcome {
                Ok(_) => ManyStep::UseConnection { set: 0, tally: nothing() },
                Err(error) => self.failed(ManyError::Call(error)),
            },
            (ManyStep::UseConnection { set, tally }, ManyReply::Found(found)) => if !found {
                self.failed(ManyError::Refused(operation::missing(self.route)))
            } else {
                match self.route {
                    Route::Transaction => if set < self.sets {
                        ManyStep::RunSet { set, tally }
                    } else {
                        ManyStep::Finished(Ok(tally))
                    },
                    Route::Callbacks => ManyStep::Begin,
                    Route::Session => ManyStep::LockHandle,
                }
            },
            (ManyStep::LockHandle, ManyReply::Ran(outcome)) => match outcome {
                Ok(_) => ManyStep::RunRaw,
                Err(error) => self.failed(ManyError::Lock(LockFrame::Handle, error)),
            },
            (ManyStep::Begin, ManyReply::Ran(outcome)) => match outcome {
                Ok(_) => self.set_from(0, nothing()),
                Err(error) => self.failed(ManyError::Call(error)),
            },
            (ManyStep::RunSet { set, tally }, ManyReply::RanSet(outcome)) => match outcome {
                Ok(run) => self.set_from(set + 1, added(tally, run)),
                Err(error) => if self.route == Route::Callbacks {
                    ManyStep::Rollback(ManyError::Call(error))
                } else {
                    ManyStep::Finished(Err(ManyError::Call(error)))
                },
            },
            (ManyStep::Commit { tally }, ManyReply::Ran(outcome)) => match outcome {
                Ok(_) => ManyStep::Discard(Ok(tally)),
                Err(error) => ManyStep::Rollback(ManyError::Call(error)),
            },
            (ManyStep::Rollback(error), ManyReply::Ran(outcome)) => match outcome {
                Ok(_) => ManyStep::Discard(Err(error)),
                Err(_) => ManyStep::CloseConnection(error),
            },
            (ManyStep::CloseConnection(error), ManyReply::Done) => ManyStep::Discard(Err(error)),
            (ManyStep::RunRaw, ManyReply::RanRaw(outcome)) => match outcome {
                Ok((changes, rowid)) => ManyStep::Finished(Ok(Tally { changes, rowid })),
                Err(failure) => ManyStep::Finished(Err(ManyError::Raw(failure))),
            },
            (ManyStep::Discard(result), ManyReply::Done) => ManyStep::Finished(result),
            (state, _) => state,
        }
    }
}

impl<E> Many<E> {
    fn go_on_to_set(&self, set: usize, tally: Tally) -> (out: ManyStep<E>)
        ensures
            out == self.set_from(set as int, tally),
            self.sound(out),
    {
        match self.route {
            Route::Transaction => if set < self.sets {
                ManyStep::UseConnection { set, tally }
            } else {
                ManyStep::Finished(Ok(tally))
            },
            _ => if set < self.sets {
                ManyStep::RunSet { set, tally }
            } else {
                ManyStep::Commit { tally }
            },
        }
    }

    fn fail(&self, error: ManyError<E>) -> (out: ManyStep<E>)
        ensures
            out == self.failed(error),
    {
        match self.route {
            Route::Callbacks => ManyStep::Discard(Err(error)),
            _ => ManyStep::Finished(Err(error)),
        }
    }

    /// The first call to make.
    pub fn start(&self) -> (out: ManyStep<E>)
        ensures
            out == self.outset(),
            self.sound(out),
    {
        match self.route {
            Route::Transaction => self.go_on_to_set(0, Tally { changes: 0, rowid: 0 }),
            Route::Callbacks => ManyStep::BindCallbacks,
            Route::Session => ManyStep::LockSession,
        }
    }

    /// The call to make behind a reply.
    pub fn resume(&self, state: ManyStep<E>, reply: ManyReply<E>) -> (out: ManyStep<E>)
        requires
            self.sound(state),
        ensures
            out == self.next(state, reply),
            self.sound(out),
    {
        let empty = Tally { changes: 0, rowid: 0 };
        match (state, reply) {
            (ManyStep::BindCallbacks, ManyReply::Ran(outcome)) => match outcome {
                Ok(_) => if self.sets == 0 {
                    ManyStep::Discard(Ok(empty))
                } else {
                    ManyStep::UseConnection { set: 0, tally: empty }
                },
                Err(error) => self.fail(ManyError::Call(error)),
            },
            (ManyStep::LockSession, ManyReply::Ran(outcome)) => match outcome {
                Ok(_) => ManyStep::UseConnection { set: 0, tally: empty },
                Err(error) => self.fail(ManyError::Call(error)),
            },
            (ManyStep::UseConnection { set, tally }, ManyReply::Found(found)) => if !found {
                self.fail(ManyError::Refused(operation::missing_connection(self.route)))
            } else {
                match self.route {
                    Route::Transaction => if set < self.sets {
                        ManyStep::RunSet { set, tally }
                    } else {
                        ManyStep::Finished(Ok(tally))
                    },
                    Route::Callbacks => ManyStep::Begin,
                    Route::Session => ManyStep::LockHandle,
                }
            },
            (ManyStep::LockHandle, ManyReply::Ran(outcome)) => match outcome {
                Ok(_) => ManyStep::RunRaw,
                Err(error) => self.fail(ManyError::Lock(LockFrame::Handle, error)),
            },
            (ManyStep::Begin, ManyReply::Ran(outcome)) => match outcome {
                Ok(_) => self.go_on_to_set(0, empty),
                Err(error) => self.fail(ManyError::Call(error)),
            },
            (ManyStep::RunSet { set, tally }, ManyReply::RanSet(outcome)) => match outcome {
                Ok(run) => {
                    let changes: u64 = tally.changes.wrapping_add(run.changes);
                    proof {
                        assert(changes == added(tally, run).changes);
                    }
                    self.go_on_to_set(set + 1, Tally { changes, rowid: run.rowid })
                },
                Err(error) => match self.route {
                    Route::Callbacks => ManyStep::Rollback(ManyError::Call(error)),
                    _ => ManyStep::Finished(Err(ManyError::Call(error))),
                },
            },
            (ManyStep::Commit { tally }, ManyReply::Ran(outcome)) => match outcome {
                Ok(_) => ManyStep::Discard(Ok(tally)),
                Err(error) => ManyStep::Rollback(ManyError::Call(error)),
            },
            (ManyStep::Rollback(error), ManyReply::Ran(outcome)) => match outcome {
                Ok(_) => ManyStep::Discard(Err(error)),
                Err(_) => ManyStep::CloseConnection(error),
            },
            (ManyStep::CloseConnection(error), ManyReply::Done) => ManyStep::Discard(Err(error)),
            (ManyStep::RunRaw, ManyReply::RanRaw(outcome)) => match outcome {
                Ok((changes, rowid)) => ManyStep::Finished(Ok(Tally { changes, rowid })),
                Err(failure) => ManyStep::Finished(Err(ManyError::Raw(failure))),
            },
            (ManyStep::Discard(result), ManyReply::Done) => ManyStep::Finished(result),
            (state, _) => state,
        }
    }
}

// ---------------------------------------------------------------- laws

/// Whether a transaction of its own has been begun that was neither committed
/// nor rolled back, nor closed along with its connection.
pub open spec fn many_open<E>(many: Many<E>, replies: Seq<ManyReply<E>>) -> bool
    decreases replies.len(),
{
    if replies.len() == 0 {
        false
    } else {
        match process::reached(many, replies.drop_last()) {
            ManyStep::Begin => replies.last()->Ran_0 is Ok,
            ManyStep::Commit { .. } | ManyStep::Rollback(_) => !(replies.last()->Ran_0 is Ok),
            ManyStep::CloseConnection(_) => false,
            _ => many_open(many, replies.drop_last()),
        }
    }
}

proof fn lemma_many_open<E>(many: Many<E>, replies: Seq<ManyReply<E>>)
    requires
        process::possible(many, replies),
    ensures
        many_open(many, replies) == (match process::reached(many, replies) {
            ManyStep::RunSet { .. } => many.route == Route::Callbacks,
            ManyStep::Commit { .. }
            | ManyStep::Rollback(_)
            | ManyStep::CloseConnection(_) => true,
            _ => false,
        }),
        match process::reached(many, replies) {
            ManyStep::BindCallbacks
            | ManyStep::Begin
            | ManyStep::Commit { .. }
            | ManyStep::Rollback(_)
            | ManyStep::CloseConnection(_)
            | ManyStep::Discard(_) => many.route == Route::Callbacks,
            ManyStep::LockSession | ManyStep::LockHandle | ManyStep::RunRaw => many.route
                == Route::Session,
            ManyStep::RunSet { .. } => many.route != Route::Session,
            _ => true,
        },
    decreases replies.len(),
{
    if replies.len() > 0 {
        lemma_many_open(many, replies.drop_last());
    }
}

/// A batch leaves no transaction of its own behind: whatever happens, it is
/// committed, rolled back, or closed along with its connection.
pub proof fn law_many_leaves_no_transaction<E>(many: Many<E>, replies: Seq<ManyReply<E>>)
    requires
        process::possible(many, replies),
        many.ended(process::reached(many, replies)),
    ensures
        !many_open(many, replies),
{
    lemma_many_open(many, replies);
}

/// The tally of the sets that have been run.
pub open spec fn tallied<E>(many: Many<E>, replies: Seq<ManyReply<E>>) -> Tally
    decreases replies.len(),
{
    if replies.len() == 0 {
        nothing()
    } else {
        match (process::reached(many, replies.drop_last()), replies.last()) {
            (ManyStep::RunSet { .. }, ManyReply::RanSet(Ok(run))) => added(
                tallied(many, replies.drop_last()),
                run,
            ),
            _ => tallied(many, replies.drop_last()),
        }
    }
}

/// How many sets have been run.
pub open spec fn sets_run<E>(many: Many<E>, replies: Seq<ManyReply<E>>) -> int
    decreases replies.len(),
{
    if replies.len() == 0 {
        0
    } else {
        sets_run(many, replies.drop_last()) + (match (
            process::reached(many, replies.drop_last()),
            replies.last(),
        ) {
            (ManyStep::RunSet { .. }, ManyReply::RanSet(Ok(_))) => 1int,
            _ => 0int,
        })
    }
}

proof fn lemma_many_tally<E>(many: Many<E>, replies: Seq<ManyReply<E>>)
    requires
        process::possible(many, replies),
        many.route != Route::Session,
    ensures
        match process::reached(many, replies) {
            ManyStep::BindCallbacks | ManyStep::Begin => tallied(many, replies) == nothing()
                && sets_run(many, replies) == 0,
            ManyStep::UseConnection { set, tally } => {
                &&& tallied(many, replies) == tally
                &&& sets_run(many, replies) == set
                &&& set < many.sets
                &&& many.route == Route::Callbacks ==> set == 0 && tally == nothing()
            },
            ManyStep::RunSet { set, tally } => {
                &&& tallied(many, replies) == tally
                &&& sets_run(many, replies) == set
                &&& set < many.sets
            },
            ManyStep::Commit { tally } => tallied(many, replies) == tally && sets_run(many, replies)
                == many.sets,
            ManyStep::Discard(Ok(tally)) | ManyStep::Finished(Ok(tally)) => tallied(many, replies)
                == tally && sets_run(many, replies) == many.sets,
            ManyStep::LockSession | ManyStep::LockHandle | ManyStep::RunRaw => false,
            _ => true,
        },
    decreases replies.len(),
{
    if replies.len() > 0 {
        lemma_many_tally(many, replies.drop_last());
    }
}

/// Where the sets are run one by one, a batch that succeeds has run each of
/// them once, and reports what they changed together and the rowid of the
/// last.
pub proof fn law_many_tallies<E>(many: Many<E>, replies: Seq<ManyReply<E>>)
    requires
        process::possible(many, replies),
        many.route != Route::Session,
        process::reached(many, replies) matches ManyStep::Finished(Ok(_)),
    ensures
        sets_run(many, replies) == many.sets,
        process::reached(many, replies)->Finished_0->Ok_0 == tallied(many, replies),
{
    lemma_many_tally(many, replies);
}

/// On a connection that carries callbacks a batch of sets succeeds only once
/// it is committed.
pub proof fn law_many_commits<E>(many: Many<E>, replies: Seq<ManyReply<E>>)
    requires
        process::possible(many, replies),
        many.route == Route::Callbacks,
        many.sets > 0,
        process::reached(many, replies) matches ManyStep::Finished(Ok(_)),
    ensures
        replies.len() >= 2,
        process::reached(many, replies.take(replies.len() - 2)) is Commit,
        replies[replies.len() - 2]->Ran_0 is Ok,
{
    lemma_many_open(many, replies);
    let before = replies.drop_last();
    lemma_many_open(many, before);
    assert(process::reached(many, before) is Discard);
    assert(before.len() > 0);
    let prior = before.drop_last();
    assert(process::possible(many, before));
    lemma_many_tally(many, prior);
    assert(process::reached(many, before) == many.next(
        process::reached(many, prior),
        before.last(),
    ));
    assert(prior == replies.take(replies.len() - 2));
    assert(before.last() == replies[replies.len() - 2]);
}

/// Outside a transaction and without callbacks a batch is one raw batch, and
/// reports what that reports.
pub proof fn law_many_runs_raw<E>(many: Many<E>, replies: Seq<ManyReply<E>>)
    requires
        process::possible(many, replies),
        many.route == Route::Session,
        process::reached(many, replies) matches ManyStep::Finished(Ok(_)),
    ensures
        replies.len() > 0,
        replies.last() == ManyReply::<E>::RanRaw(
            Ok(
                (
                    process::reached(many, replies)->Finished_0->Ok_0.changes,
                    process::reached(many, replies)->Finished_0->Ok_0.rowid,
                ),
            ),
        ),
{
    lemma_many_open(many, replies.drop_last());
}

/// How many sets are left from this one on.
pub open spec fn sets_left<E>(many: Many<E>, set: usize) -> int {
    if set < many.sets {
        many.sets - set
    } else {
        0
    }
}

/// A bound on the calls that a batch has left to make.
pub open spec fn calls_left<E>(many: Many<E>, step: ManyStep<E>) -> int {
    match step {
        ManyStep::BindCallbacks => 2 * many.sets + 10,
        ManyStep::LockSession => 10,
        ManyStep::UseConnection { set, .. } => match many.route {
            Route::Transaction => 2 * sets_left(many, set) + 6,
            Route::Callbacks => 2 * many.sets + 9,
            Route::Session => 9,
        },
        ManyStep::Begin => 2 * many.sets + 8,
        ManyStep::LockHandle => 8,
        ManyStep::RunRaw => 7,
        ManyStep::RunSet { set, .. } => 2 * sets_left(many, set) + 5,
        ManyStep::Commit { .. } => 4,
        ManyStep::Rollback(_) => 3,
        ManyStep::CloseConnection(_) => 2,
        ManyStep::Discard(_) => 1,
        ManyStep::Finished(_) => 0,
    }
}

/// With every reply the bound on the calls that are left goes down, so that a
/// batch comes to its end.
pub proof fn law_many_ends<E>(
    many: Many<E>,
    replies: Seq<ManyReply<E>>,
    reply: ManyReply<E>,
)
    requires
        process::possible(many, replies.push(reply)),
    ensures
        0 <= calls_left(many, process::reached(many, replies.push(reply))) < calls_left(
            many,
            process::reached(many, replies),
        ),
{
    assert(replies.push(reply).drop_last() == replies);
    lemma_many_steps_fit(many, replies);
}

proof fn lemma_many_steps_fit<E>(many: Many<E>, replies: Seq<ManyReply<E>>)
    requires
        process::possible(many, replies),
    ensures
        match process::reached(many, replies) {
            ManyStep::Begin => many.route == Route::Callbacks,
            ManyStep::BindCallbacks => many.route == Route::Callbacks,
            ManyStep::LockSession => many.route == Route::Session,
            ManyStep::UseConnection { set, .. } => many.route == Route::Transaction ==> set
                < many.sets,
            ManyStep::RunSet { set, .. } => set < many.sets && many.route != Route::Session,
            _ => true,
        },
    decreases replies.len(),
{
    if replies.len() > 0 {
        lemma_many_steps_fit(many, replies.drop_last());
    }
}

// ---------------------------------------------------------------- what was run

/// What a batch has done so far.
pub ghost struct ManyLedger<E> {
    /// The callbacks were bound to a connection.
    pub bound: bool,
    /// The session's connection was locked.
    pub session_locked: bool,
    /// The raw handle was locked.
    pub handle_locked: bool,
    /// A connection was found, and no set has been run since.
    pub found: bool,
    /// `BEGIN` succeeded.
    pub begun: bool,
    /// `COMMIT` succeeded.
    pub committed: bool,
    /// The sets that were run, in the order of the runs.
    pub order: Seq<usize>,
    /// What they changed, all together.
    pub changes: int,
    /// The rowid that the last of them gave.
    pub rowid: i64,
    /// The connection that carries the callbacks was given up.
    pub discarded: bool,
    /// What went wrong.
    pub trouble: Option<ManyError<E>>,
}

/// What a batch has done once these replies have come back.
pub open spec fn many_ledger<E>(many: Many<E>, replies: Seq<ManyReply<E>>) -> ManyLedger<E>
    decreases replies.len(),
{
    if replies.len() == 0 {
        ManyLedger {
            bound: false,
            session_locked: false,
            handle_locked: false,
            found: false,
            begun: false,
            committed: false,
            order: Seq::empty(),
            changes: 0,
            rowid: 0,
            discarded: false,
            trouble: None,
        }
    } else {
        let ledger = many_ledger(many, replies.drop_last());
        match (process::reached(many, replies.drop_last()), replies.last()) {
            (ManyStep::BindCallbacks, ManyReply::Ran(Ok(_))) => ManyLedger {
                bound: true,
                ..ledger
            },
            (ManyStep::LockSession, ManyReply::Ran(Ok(_))) => ManyLedger {
                session_locked: true,
                ..ledger
            },
            (ManyStep::LockHandle, ManyReply::Ran(Ok(_))) => ManyLedger {
                handle_locked: true,
                ..ledger
            },
            (ManyStep::Begin, ManyReply::Ran(Ok(_))) => ManyLedger { begun: true, ..ledger },
            (ManyStep::Commit { .. }, ManyReply::Ran(Ok(_))) => ManyLedger {
                committed: true,
                ..ledger
            },
            (
                ManyStep::BindCallbacks
                | ManyStep::LockSession
                | ManyStep::Begin
                | ManyStep::Commit { .. },
                ManyReply::Ran(Err(error)),
            ) => ManyLedger { trouble: Some(ManyError::Call(error)), ..ledger },
            (ManyStep::LockHandle, ManyReply::Ran(Err(error))) => ManyLedger {
                trouble: Some(ManyError::Lock(LockFrame::Handle, error)),
                ..ledger
            },
            (ManyStep::UseConnection { .. }, ManyReply::Found(found)) => ManyLedger {
                found,
                trouble: if found {
                    None
                } else {
                    Some(
                        ManyError::Refused(
                            if many.route == Route::Transaction {
                                ConnectionError::NoTransactionConnection
                            } else if many.route == Route::Callbacks {
                                ConnectionError::NoCallbackConnection
                            } else {
                                ConnectionError::NoSessionConnection
                            },
                        ),
                    )
                },
                ..ledger
            },
            (ManyStep::RunSet { set, .. }, ManyReply::RanSet(Ok(run))) => ManyLedger {
                order: ledger.order.push(set),
                changes: ledger.changes + run.changes,
                rowid: run.rowid,
                found: false,
                ..ledger
            },
            (ManyStep::RunSet { .. }, ManyReply::RanSet(Err(error))) => ManyLedger {
                trouble: Some(ManyError::Call(error)),
                ..ledger
            },
            (ManyStep::RunRaw, ManyReply::RanRaw(Err(failure))) => ManyLedger {
                trouble: Some(ManyError::Raw(failure)),
                ..ledger
            },
            (ManyStep::Discard(_), _) => ManyLedger { discarded: true, ..ledger },
            _ => ledger,
        }
    }
}

/// Whether the first sets, so many of them, have been run in order, and a tally
/// says what they changed together, in 64 bits, and the rowid of the last.
pub open spec fn adds_up<E>(ledger: ManyLedger<E>, count: int, tally: Tally) -> bool {
    &&& ledger.order.len() == count
    &&& forall|i: int| 0 <= i < count ==> #[trigger] ledger.order[i] == i
    &&& tally.changes == ledger.changes % 0x1_0000_0000_0000_0000
    &&& tally.rowid == ledger.rowid
    &&& 0 <= ledger.changes
}

/// Sets that are run one by one are run in order, each once: inside a
/// transaction with the connection found anew for each, and on a connection
/// that carries callbacks between `BEGIN` and `COMMIT`. What a batch reports is
/// the sum of the changes and the rowid of the last set, and behind the last
/// call nothing is left that was taken. A batch that fails reports what went
/// wrong first and nothing else.
pub proof fn law_many_runs_the_sets_in_order<E>(many: Many<E>, replies: Seq<ManyReply<E>>)
    requires
        process::possible(many, replies),
    ensures
        ({
            let ledger = many_ledger(many, replies);
            match process::reached(many, replies) {
                ManyStep::BindCallbacks => many.route == Route::Callbacks && replies.len() == 0,
                ManyStep::LockSession => many.route == Route::Session && replies.len() == 0,
                ManyStep::UseConnection { set, tally } => {
                    &&& adds_up(ledger, set as int, tally)
                    &&& ledger.trouble is None
                    &&& ledger.bound == (many.route == Route::Callbacks)
                    &&& ledger.session_locked == (many.route == Route::Session)
                    &&& many.route != Route::Transaction ==> set == 0 && ledger.changes == 0
                        && ledger.rowid == 0
                    &&& many.route != Route::Session ==> set < many.sets
                    &&& !ledger.begun && !ledger.committed
                },
                ManyStep::LockHandle => {
                    &&& many.route == Route::Session
                    &&& ledger.session_locked && ledger.found
                    &&& ledger.trouble is None
                },
                ManyStep::RunRaw => {
                    &&& many.route == Route::Session
                    &&& ledger.session_locked && ledger.found && ledger.handle_locked
                    &&& ledger.trouble is None
                },
                ManyStep::Begin => {
                    &&& many.route == Route::Callbacks
                    &&& ledger.bound && ledger.found
                    &&& !ledger.session_locked
                    &&& !ledger.committed
                    &&& ledger.order.len() == 0 && ledger.changes == 0 && ledger.rowid == 0
                    &&& many.sets > 0
                    &&& ledger.trouble is None
                },
                ManyStep::RunSet { set, tally } => {
                    &&& adds_up(ledger, set as int, tally)
                    &&& set < many.sets
                    &&& many.route == Route::Transaction ==> ledger.found
                    &&& ledger.begun == (many.route == Route::Callbacks)
                    &&& ledger.bound == (many.route == Route::Callbacks)
                    &&& !ledger.session_locked
                    &&& many.route != Route::Session
                    &&& !ledger.committed
                    &&& ledger.trouble is None
                },
                ManyStep::Commit { tally } => {
                    &&& many.route == Route::Callbacks
                    &&& many.sets > 0
                    &&& ledger.begun
                    &&& !ledger.committed
                    &&& adds_up(ledger, many.sets as int, tally)
                    &&& ledger.trouble is None
                },
                ManyStep::Rollback(error) | ManyStep::CloseConnection(error) => {
                    &&& many.route == Route::Callbacks
                    &&& ledger.begun
                    &&& ledger.trouble == Some(error)
                },
                ManyStep::Discard(Ok(tally)) => {
                    &&& many.route == Route::Callbacks
                    &&& adds_up(ledger, many.sets as int, tally)
                    &&& ledger.committed == (many.sets > 0)
                    &&& ledger.trouble is None
                },
                ManyStep::Discard(Err(error)) => {
                    &&& many.route == Route::Callbacks
                    &&& ledger.trouble == Some(error)
                },
                ManyStep::Finished(Ok(tally)) => {
                    &&& many.route != Route::Session ==> adds_up(ledger, many.sets as int, tally)
                    &&& many.route == Route::Callbacks && many.sets > 0 ==> ledger.committed
                    &&& many.route == Route::Session ==> replies.last() == ManyReply::<E>::RanRaw(
                        Ok((tally.changes, tally.rowid)),
                    )
                    &&& ledger.trouble is None
                    &&& ledger.discarded == (many.route == Route::Callbacks)
                },
                ManyStep::Finished(Err(error)) => {
                    &&& ledger.trouble == Some(error)
                    &&& ledger.discarded == (many.route == Route::Callbacks)
                },
            }
        }),
        !(process::reached(many, replies) is Finished) ==> !many_ledger(many, replies).discarded,
    decreases replies.len(),
{
    if replies.len() > 0 {
        law_many_runs_the_sets_in_order(many, replies.drop_last());
    }
}

/// A connection is closed only where `ROLLBACK` was just run on it and failed:
/// a set or a `COMMIT` that fails is rolled back first. Where the rollback
/// succeeds the connection is given up as it is.
pub proof fn law_many_rolls_back_before_it_closes<E>(many: Many<E>, replies: Seq<ManyReply<E>>)
    requires
        process::possible(many, replies),
    ensures
        process::reached(many, replies) is CloseConnection ==> {
            &&& replies.len() > 0
            &&& process::reached(many, replies.drop_last()) is Rollback
            &&& replies.last()->Ran_0 is Err
        },
        process::reached(many, replies) is Rollback ==> {
            &&& replies.len() > 0
            &&& match process::reached(many, replies.drop_last()) {
                ManyStep::RunSet { .. } => replies.last()->RanSet_0 is Err,
                ManyStep::Commit { .. } => replies.last()->Ran_0 is Err,
                _ => false,
            }
        },
{
    lemma_many_open(many, replies);
    if replies.len() > 0 {
        lemma_many_open(many, replies.drop_last());
    }
}

} // verus!
