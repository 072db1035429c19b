//! Beginning, ending and tearing down the transaction of a connection.
//!
//! A connection keeps books on its transaction: how far it has come, whether
//! it was asked for, and whether the slot for the transaction's own database
//! connection is filled. An operation starts from the books as it finds them
//! and, when it has ended, leaves books to be written back. Errors of the
//! calls in between are values of the caller's own type `E`.

use crate::error::ConnectionError;
use crate::process;
use crate::process::Process;
use crate::text;
use std::marker::PhantomData;
use vstd::prelude::*;
use vstd::string::*;

verus! {

/// How far a transaction has come.
#[derive(Clone, Copy, PartialEq, Eq, Structural)]
pub enum Phase {
    /// There is none.
    Idle,
    /// One is being started.
    Starting,
    /// One is open.
    Active,
}

/// The books that a connection keeps on its transaction.
#[derive(Clone, Copy, PartialEq, Eq, Structural)]
pub struct Books {
    pub phase: Phase,
    /// Whether the user asked for the transaction, rather than a statement
    /// having opened it on the way.
    pub explicit: bool,
    /// Whether the slot of the transaction holds a database connection.
    pub held: bool,
}

/// The books of a connection without a transaction.
pub open spec fn blank() -> Books {
    Books { phase: Phase::Idle, explicit: false, held: false }
}

/// Whether a connection counts as in a transaction: one that the user asked
/// for is open.
pub open spec fn counts_as_in_transaction(books: Books) -> bool {
    books.phase == Phase::Active && books.explicit
}

/// Whether a connection counts as in a transaction.
pub fn in_transaction(books: &Books) -> (out: bool)
    ensures
        out == counts_as_in_transaction(*books),
{
    books.phase == Phase::Active && books.explicit
}

fn blank_books() -> (out: Books)
    ensures
        out == blank(),
{
    Books { phase: Phase::Idle, explicit: false, held: false }
}

// ---------------------------------------------------------------- commit, rollback

/// How a transaction ends.
#[derive(Clone, Copy, PartialEq, Eq, Structural)]
pub enum Ending {
    Commit,
    Rollback,
}

impl Ending {
    /// The statement that ends the transaction.
    pub open spec fn statement(self) -> Seq<char> {
        match self {
            Ending::Commit => "COMMIT"@,
            Ending::Rollback => "ROLLBACK"@,
        }
    }

    /// The statement that ends the transaction.
    pub fn sql(&self) -> (out: &'static str)
        ensures
            out@ == self.statement(),
    {
        match self {
            Ending::Commit => "COMMIT",
            Ending::Rollback => "ROLLBACK",
        }
    }
}

impl Ending {
    /// How the block of a transaction ends.
    pub open spec fn block_ending(clean: bool) -> Ending {
        if clean {
            Ending::Commit
        } else {
            Ending::Rollback
        }
    }

    /// How the block of a transaction ends: it is committed, unless an exception
    /// leaves the block.
    pub fn of_block(clean: bool) -> (out: Ending)
        ensures
            out == Ending::block_ending(clean),
            out == (if clean {
                Ending::Commit
            } else {
                Ending::Rollback
            }),
    {
        if clean {
            Ending::Commit
        } else {
            Ending::Rollback
        }
    }
}

/// What is done with a savepoint.
#[derive(Clone, Copy, PartialEq, Eq, Structural)]
pub enum Savepoint {
    /// It is set at the beginning of its block.
    Enter,
    /// It is released, or rolled back to where an exception leaves the block.
    Leave { clean: bool },
}

impl Savepoint {
    /// The statement for the savepoint of this name.
    pub open spec fn statement(self, name: Seq<char>) -> Seq<char> {
        match self {
            Savepoint::Enter => "SAVEPOINT "@ + text::identifier(name),
            Savepoint::Leave { clean: true } => "RELEASE SAVEPOINT "@ + text::identifier(name),
            Savepoint::Leave { clean: false } => "ROLLBACK TO SAVEPOINT "@ + text::identifier(name),
        }
    }

    /// The statement for the savepoint of this name.
    pub fn sql(&self, name: &str) -> (out: String)
        ensures
            out@ == self.statement(name@),
    {
        let quoted = text::quoted_identifier(name);
        match self {
            Savepoint::Enter => String::from_str("SAVEPOINT ").concat(quoted.as_str()),
            Savepoint::Leave { clean } => if *clean {
                String::from_str("RELEASE SAVEPOINT ").concat(quoted.as_str())
            } else {
                String::from_str("ROLLBACK TO SAVEPOINT ").concat(quoted.as_str())
            },
        }
    }
}

/// A commit or a rollback.
pub struct End<E> {
    pub ending: Ending,
    /// Whether callbacks are registered, so that the connection carries them.
    pub has_callbacks: bool,
    pub books: Books,
    pub errors: PhantomData<E>,
}

/// The call that a commit or rollback waits for.
pub enum EndStep<E> {
    /// Take the connection out of the slot and run the statement on it.
    Run,
    /// Ask whether the connection is still in a transaction.
    Ask(E),
    /// Strip the connection of its callbacks and hand it back.
    FinishCallbacks,
    /// Hand the connection back.
    Drop,
    /// Clean up a connection whose transaction is gone.
    CleanUp(E),
    /// No call is left. Where the books say that the slot holds a connection,
    /// the one that was taken goes back into it.
    Finished(Books, Result<(), E>),
}

/// What a call of a commit or rollback brings back.
pub enum EndReply<E> {
    /// How the statement went.
    Ran(Result<(), E>),
    /// Whether a transaction is open, where that can be told.
    Open(Option<bool>),
    /// That the call is done.
    Done,
}

impl<E> Process for End<E> {
    type State = EndStep<E>;

    type Reply = EndReply<E>;

    open spec fn outset(self) -> EndStep<E> {
        if self.books.phase != Phase::Active {
            EndStep::Finished(self.books, Ok(()))
        } else if !self.books.held {
            EndStep::Finished(blank(), Ok(()))
        } else {
            EndStep::Run
        }
    }

    open spec fn ended(self, state: EndStep<E>) -> bool {
        state is Finished
    }

    open spec fn answers(self, state: EndStep<E>, reply: EndReply<E>) -> bool {
        match state {
            EndStep::Run => reply is Ran,
            EndStep::Ask(_) => reply is Open,
            EndStep::FinishCallbacks | EndStep::Drop | EndStep::CleanUp(_) => reply is Done,
            EndStep::Finished(..) => false,
        }
    }

    open spec fn next(self, state: EndStep<E>, reply: EndReply<E>) -> EndStep<E> {
        match (state, reply) {
            (EndStep::Run, EndReply::Ran(Ok(_))) => if self.has_callbacks {
                EndStep::FinishCallbacks
            } else {
                EndStep::Drop
            },
            (EndStep::Run, EndReply::Ran(Err(error))) => EndStep::Ask(error),
            (EndStep::Ask(error), EndReply::Open(open)) => if open == Some(false) {
                EndStep::CleanUp(error)
            } else {
                EndStep::Finished(self.books, Err(error))
            },
            (EndStep::FinishCallbacks, EndReply::Done) => EndStep::Finished(blank(), Ok(())),
            (EndStep::Drop, EndReply::Done) => EndStep::Finished(blank(), Ok(())),
            (EndStep::CleanUp(error), EndReply::Done) => EndStep::Finished(blank(), Err(error)),
            (state, _) => state,
        }
    }
}

impl<E> End<E> {
    /// The statement that the trace callback gets to see before the call of a
    /// step is made.
    pub fn traced(&self, step: &EndStep<E>) -> (out: Option<&'static str>)
        ensures
            match out {
                Some(sql) => *step is Run && sql@ == self.ending.statement(),
                None => !(*step is Run),
            },
    {
        match step {
            EndStep::Run => Some(self.ending.sql()),
            _ => None,
        }
    }

    /// The first call to make. Outside a transaction there is none.
    pub fn start(&self) -> (out: EndStep<E>)
        ensures
            out == self.outset(),
    {
        if self.books.phase != Phase::Active {
            EndStep::Finished(self.books, Ok(()))
        } else if !self.books.held {
            EndStep::Finished(blank_books(), Ok(()))
        } else {
            EndStep::Run
        }
    }

    /// The call to make behind a reply.
    pub fn resume(&self, state: EndStep<E>, reply: EndReply<E>) -> (out: EndStep<E>)
        ensures
            out == self.next(state, reply),
    {
        match (state, reply) {
            (EndStep::Run, EndReply::Ran(Ok(_))) => if self.has_callbacks {
                EndStep::FinishCallbacks
            } else {
                EndStep::Drop
            },
            (EndStep::Run, EndReply::Ran(Err(error))) => EndStep::Ask(error),
            (EndStep::Ask(error), EndReply::Open(open)) => match open {
                Some(false) => EndStep::CleanUp(error),
                _ => EndStep::Finished(self.books, Err(error)),
            },
            (EndStep::FinishCallbacks, EndReply::Done) => EndStep::Finished(blank_books(), Ok(())),
            (EndStep::Drop, EndReply::Done) => EndStep::Finished(blank_books(), Ok(())),
            (EndStep::CleanUp(error), EndReply::Done) => EndStep::Finished(
                blank_books(),
                Err(error),
            ),
            (state, _) => state,
        }
    }
}

/// Outside a transaction a commit or rollback makes no call, succeeds, and
/// leaves the books as they are.
pub proof fn law_end_outside_is_no_op<E>(end: End<E>)
    requires
        end.books.phase != Phase::Active,
    ensures
        end.outset() == EndStep::<E>::Finished(end.books, Ok(())),
{
}

/// A commit or rollback that has ended leaves one of two things: blank books,
/// or, where it failed and the transaction may still be open, the books and
/// the connection that it found, so that a rollback can be tried again.
pub proof fn law_end_settles<E>(end: End<E>, replies: Seq<EndReply<E>>)
    requires
        process::possible(end, replies),
        end.books.phase == Phase::Active,
    ensures
        match process::reached(end, replies) {
            EndStep::Finished(books, result) => {
                ||| books == blank()
                ||| books == end.books && end.books.held && result is Err && replies.last()
                    !== EndReply::Open(Some(false))
            },
            _ => end.books.held,
        },
        process::reached(end, replies) matches EndStep::Finished(books, Ok(_)) ==> books
            == blank(),
    decreases replies.len(),
{
    if replies.len() > 0 {
        law_end_settles(end, replies.drop_last());
    }
}

/// A commit or rollback inside a transaction succeeds exactly where its
/// statement does, and otherwise reports the statement's own error.
pub proof fn law_end_reports_statement<E>(end: End<E>, replies: Seq<EndReply<E>>)
    requires
        process::possible(end, replies),
        end.outset() is Run,
        end.ended(process::reached(end, replies)),
    ensures
        replies.len() > 0,
        replies[0] is Ran,
        process::reached(end, replies)->Finished_1 == replies[0]->Ran_0,
    decreases replies.len(),
{
    lemma_end_course(end, replies);
}

proof fn lemma_end_course<E>(end: End<E>, replies: Seq<EndReply<E>>)
    requires
        process::possible(end, replies),
        end.outset() is Run,
    ensures
        replies.len() > 0 ==> replies[0] is Ran,
        match process::reached(end, replies) {
            EndStep::Run => replies.len() == 0,
            EndStep::Ask(error) | EndStep::CleanUp(error) => replies.len() > 0
                && replies[0]->Ran_0 == Result::<(), E>::Err(error),
            EndStep::FinishCallbacks | EndStep::Drop => replies.len() > 0
                && replies[0]->Ran_0 is Ok,
            EndStep::Finished(_, result) => replies.len() > 0 && replies[0]->Ran_0 == result,
        },
    decreases replies.len(),
{
    if replies.len() > 0 {
        let before = replies.drop_last();
        lemma_end_course(end, before);
        if before.len() > 0 {
            assert(replies[0] == before[0]);
        }
        if replies[0]->Ran_0 is Ok {
            assert(replies[0]->Ran_0->Ok_0 == ());
        }
    }
}

// ---------------------------------------------------------------- begin

/// The lock that a transaction takes when it begins.
#[derive(Clone, Copy, Debug, PartialEq, Eq, Structural)]
pub enum IsolationLevel {
    Deferred,
    Immediate,
    Exclusive,
}

impl IsolationLevel {
    /// The keyword of the level.
    pub open spec fn spec_keyword(self) -> Seq<char> {
        match self {
            IsolationLevel::Deferred => "DEFERRED"@,
            IsolationLevel::Immediate => "IMMEDIATE"@,
            IsolationLevel::Exclusive => "EXCLUSIVE"@,
        }
    }

    /// The keyword of the level.
    pub fn keyword(&self) -> (out: &'static str)
        ensures
            out@ == self.spec_keyword(),
    {
        match self {
            IsolationLevel::Deferred => "DEFERRED",
            IsolationLevel::Immediate => "IMMEDIATE",
            IsolationLevel::Exclusive => "EXCLUSIVE",
        }
    }
}

/// The statement that begins a transaction. Without a level of its own it
/// takes no lock before it needs one.
pub open spec fn begin_statement(level: Option<IsolationLevel>) -> Seq<char> {
    "BEGIN "@ + (match level {
        Some(level) => level.spec_keyword(),
        None => "DEFERRED"@,
    })
}

/// The statement that begins a transaction.
pub fn begin_sql(level: Option<IsolationLevel>) -> (out: String)
    ensures
        out@ == begin_statement(level),
{
    let keyword = match level {
        Some(level) => level.keyword(),
        None => "DEFERRED",
    };
    String::from_str("BEGIN ").concat(keyword)
}

/// The statement that sets how long a connection waits for a lock.
pub fn busy_timeout_sql(milliseconds: i64) -> (out: String)
    ensures
        out@ == "PRAGMA busy_timeout = "@ + text::decimal(milliseconds as int),
{
    let number = text::format_signed(milliseconds);
    String::from_str("PRAGMA busy_timeout = ").concat(number.as_str())
}

/// Why a transaction does not begin.
pub enum BeginError<E> {
    /// The library refuses it.
    Refused(ConnectionError),
    /// A call failed.
    Call(E),
}

/// The beginning of a transaction that the user asks for.
pub struct Begin<E> {
    pub closed: bool,
    /// Whether callbacks are registered, so that the transaction runs on the
    /// connection that carries them.
    pub has_callbacks: bool,
    pub books: Books,
    pub errors: PhantomData<E>,
}

/// The call that the beginning waits for.
pub enum BeginStep<E> {
    /// Take the connection of the implicit transaction and run `COMMIT` on it.
    CommitImplicit,
    /// Ask whether the connection is still in a transaction; this went wrong.
    Ask(E),
    /// Set the busy timeout on the connection; how that goes does not matter.
    Retime,
    /// Run the begin statement on the connection.
    Rebegin,
    /// Strip the connection of its callbacks and hand it back; this went wrong.
    FinishCallbacks(E),
    /// Hand the connection back; this went wrong.
    Drop(E),
    /// Hand the connection of the session back.
    ReleaseSession,
    /// Make sure that there is a pool.
    OpenPool,
    /// Lock the books, read them again, and keep the lock.
    Reserve,
    /// Bind the callbacks to a connection of their own.
    BindCallbacks,
    /// Take that connection.
    TakeCallbacks,
    /// Take a connection from the pool.
    Acquire,
    /// Set the busy timeout on the connection that was taken.
    SetTimeout,
    /// Run the begin statement on the connection that was taken.
    BeginFresh,
    /// Put the connection into the slot, give up the lock, and run the hook
    /// that prepares a new database. The hook may itself end the transaction,
    /// so nothing is written back behind it.
    RunHook,
    /// Clean up the connection that was taken, unless it is gone; this went
    /// wrong.
    CleanUp(BeginError<E>),
    /// No call is left. Where the books are given they are written back, and
    /// where they say that the slot holds a connection it is the one taken.
    Finished(Option<Books>, Result<(), BeginError<E>>),
}

/// What a call of the beginning brings back.
pub enum BeginReply<E> {
    /// How the call went.
    Ran(Result<(), E>),
    /// Whether a transaction is open, where that can be told.
    Open(Option<bool>),
    /// The books as they are now.
    Books(Books),
    /// Whether there was a connection to take.
    Taken(bool),
    /// That the call is done.
    Done,
}

/// The books of a connection with a transaction that the user asked for.
pub open spec fn begun() -> Books {
    Books { phase: Phase::Active, explicit: true, held: true }
}

impl<E> Process for Begin<E> {
    type State = BeginStep<E>;

    type Reply = BeginReply<E>;

    open spec fn outset(self) -> BeginStep<E> {
        if self.closed {
            BeginStep::Finished(None, Err(BeginError::Refused(ConnectionError::Closed)))
        } else if self.books.phase == Phase::Active && !self.books.explicit {
            if self.books.held {
                BeginStep::CommitImplicit
            } else {
                BeginStep::ReleaseSession
            }
        } else if self.books.phase != Phase::Idle {
            BeginStep::Finished(
                None,
                Err(BeginError::Refused(ConnectionError::TransactionInProgress)),
            )
        } else {
            BeginStep::ReleaseSession
        }
    }

    open spec fn ended(self, state: BeginStep<E>) -> bool {
        state is Finished
    }

    open spec fn answers(self, state: BeginStep<E>, reply: BeginReply<E>) -> bool {
        match state {
            BeginStep::CommitImplicit
            | BeginStep::Rebegin
            | BeginStep::OpenPool
            | BeginStep::BindCallbacks
            | BeginStep::Acquire
            | BeginStep::SetTimeout
            | BeginStep::BeginFresh
            | BeginStep::RunHook => reply is Ran,
            BeginStep::Ask(_) => reply is Open,
            BeginStep::Reserve => reply is Books,
            BeginStep::TakeCallbacks => reply is Taken,
            BeginStep::Retime
            | BeginStep::FinishCallbacks(_)
            | BeginStep::Drop(_)
            | BeginStep::ReleaseSession
            | BeginStep::CleanUp(_) => reply is Done,
            BeginStep::Finished(..) => false,
        }
    }

    open spec fn next(self, state: BeginStep<E>, reply: BeginReply<E>) -> BeginStep<E> {
        match (state, reply) {
            (BeginStep::CommitImplicit, BeginReply::Ran(outcome)) => match outcome {
                Ok(_) => BeginStep::Retime,
                Err(error) => BeginStep::Ask(error),
            },
            (BeginStep::Ask(error), BeginReply::Open(open)) => if open != Some(false) {
                BeginStep::Finished(
                    Some(Books { phase: Phase::Active, explicit: false, held: true }),
                    Err(BeginError::Call(error)),
                )
            } else if self.has_callbacks {
                BeginStep::FinishCallbacks(error)
            } else {
                BeginStep::Drop(error)
            },
            (BeginStep::Retime, BeginReply::Done) => BeginStep::Rebegin,
            (BeginStep::Rebegin, BeginReply::Ran(outcome)) => match outcome {
                Ok(_) => BeginStep::Finished(Some(begun()), Ok(())),
                Err(error) => BeginStep::Ask(error),
            },
            (BeginStep::FinishCallbacks(error), BeginReply::Done) => BeginStep::Finished(
                Some(blank()),
                Err(BeginError::Call(error)),
            ),
            (BeginStep::Drop(error), BeginReply::Done) => BeginStep::Finished(
                Some(blank()),
                Err(BeginError::Call(error)),
            ),
            (BeginStep::ReleaseSession, BeginReply::Done) => BeginStep::OpenPool,
            (BeginStep::OpenPool, BeginReply::Ran(outcome)) => match outcome {
                Ok(_) => BeginStep::Reserve,
                Err(error) => BeginStep::Finished(None, Err(BeginError::Call(error))),
            },
            (BeginStep::Reserve, BeginReply::Books(books)) => if books.phase != Phase::Idle {
                BeginStep::Finished(
                    None,
                    Err(BeginError::Refused(ConnectionError::TransactionInProgress)),
                )
            } else if self.has_callbacks {
                BeginStep::BindCallbacks
            } else {
                BeginStep::Acquire
            },
            (BeginStep::BindCallbacks, BeginReply::Ran(outcome)) => match outcome {
                Ok(_) => BeginStep::TakeCallbacks,
                Err(error) => BeginStep::Finished(Some(blank()), Err(BeginError::Call(error))),
            },
            (BeginStep::TakeCallbacks, BeginReply::Taken(taken)) => if taken {
                BeginStep::SetTimeout
            } else {
                BeginStep::Finished(
                    Some(blank()),
                    Err(BeginError::Refused(ConnectionError::NoCallbackConnection)),
                )
            },
            (BeginStep::Acquire, BeginReply::Ran(outcome)) => match outcome {
                Ok(_) => BeginStep::SetTimeout,
                Err(error) => BeginStep::Finished(Some(blank()), Err(BeginError::Call(error))),
            },
            (BeginStep::SetTimeout, BeginReply::Ran(outcome)) => match outcome {
                Ok(_) => BeginStep::BeginFresh,
                Err(error) => BeginStep::CleanUp(BeginError::Call(error)),
            },
            (BeginStep::BeginFresh, BeginReply::Ran(outcome)) => match outcome {
                Ok(_) => BeginStep::RunHook,
                Err(error) => BeginStep::CleanUp(BeginError::Call(error)),
            },
            (BeginStep::RunHook, BeginReply::Ran(outcome)) => match outcome {
                Ok(_) => BeginStep::Finished(None, Ok(())),
                Err(error) => BeginStep::CleanUp(BeginError::Call(error)),
            },
            (BeginStep::CleanUp(error), BeginReply::Done) => BeginStep::Finished(
                Some(blank()),
                Err(error),
            ),
            (state, _) => state,
        }
    }
}

fn begun_books() -> (out: Books)
    ensures
        out == begun(),
{
    Books { phase: Phase::Active, explicit: true, held: true }
}

impl<E> Begin<E> {
    /// The statement that the trace callback gets to see before the call of a
    /// step is made: the one that commits an implicit transaction, and the one
    /// that begins.
    pub open spec fn spec_traced(
        self,
        step: BeginStep<E>,
        level: Option<IsolationLevel>,
    ) -> Option<Seq<char>> {
        match step {
            BeginStep::CommitImplicit => Some(Ending::Commit.statement()),
            BeginStep::Rebegin | BeginStep::BeginFresh => Some(begin_statement(level)),
            _ => None,
        }
    }

    /// The statement that the trace callback gets to see before the call of a
    /// step is made.
    pub fn traced(&self, step: &BeginStep<E>, level: Option<IsolationLevel>) -> (out: Option<
        String,
    >)
        ensures
            match out {
                Some(sql) => self.spec_traced(*step, level) == Some(sql@),
                None => self.spec_traced(*step, level) is None,
            },
    {
        match step {
            BeginStep::CommitImplicit => Some(String::from_str(Ending::Commit.sql())),
            BeginStep::Rebegin | BeginStep::BeginFresh => Some(begin_sql(level)),
            _ => None,
        }
    }

    /// The books that are to be written before the call of a step is made:
    /// a transaction that is being started keeps others away, and the hook
    /// runs inside the transaction.
    pub open spec fn spec_books(self, step: BeginStep<E>) -> Option<Books> {
        match step {
            BeginStep::BindCallbacks
            | BeginStep::TakeCallbacks
            | BeginStep::Acquire
            | BeginStep::SetTimeout
            | BeginStep::BeginFresh => Some(
                Books { phase: Phase::Starting, explicit: false, held: false },
            ),
            BeginStep::RunHook => Some(begun()),
            BeginStep::Finished(books, _) => books,
            _ => None,
        }
    }

    /// The books that are to be written before the call of a step is made.
    pub fn books_before(&self, step: &BeginStep<E>) -> (out: Option<Books>)
        ensures
            out == self.spec_books(*step),
    {
        match step {
            BeginStep::BindCallbacks
            | BeginStep::TakeCallbacks
            | BeginStep::Acquire
            | BeginStep::SetTimeout
            | BeginStep::BeginFresh => Some(
                Books { phase: Phase::Starting, explicit: false, held: false },
            ),
            BeginStep::RunHook => Some(begun_books()),
            BeginStep::Finished(books, _) => *books,
            _ => None,
        }
    }

    /// The first call to make.
    pub fn start(&self) -> (out: BeginStep<E>)
        ensures
            out == self.outset(),
    {
        if self.closed {
            BeginStep::Finished(None, Err(BeginError::Refused(ConnectionError::Closed)))
        } else if self.books.phase == Phase::Active && !self.books.explicit {
            if self.books.held {
                BeginStep::CommitImplicit
            } else {
                BeginStep::ReleaseSession
            }
        } else if self.books.phase != Phase::Idle {
            BeginStep::Finished(
                None,
                Err(BeginError::Refused(ConnectionError::TransactionInProgress)),
            )
        } else {
            BeginStep::ReleaseSession
        }
    }

    /// The call to make behind a reply.
    pub fn resume(&self, state: BeginStep<E>, reply: BeginReply<E>) -> (out: BeginStep<E>)
        ensures
            out == self.next(state, reply),
    {
        match (state, reply) {
            (BeginStep::CommitImplicit, BeginReply::Ran(outcome)) => match outcome {
                Ok(_) => BeginStep::Retime,
                Err(error) => BeginStep::Ask(error),
            },
            (BeginStep::Ask(error), BeginReply::Open(open)) => match open {
                Some(false) => if self.has_callbacks {
                    BeginStep::FinishCallbacks(error)
                } else {
                    BeginStep::Drop(error)
                },
                _ => BeginStep::Finished(
                    Some(Books { phase: Phase::Active, explicit: false, held: true }),
                    Err(BeginError::Call(error)),
                ),
            },
            (BeginStep::Retime, BeginReply::Done) => BeginStep::Rebegin,
            (BeginStep::Rebegin, BeginReply::Ran(outcome)) => match outcome {
                Ok(_) => BeginStep::Finished(Some(begun_books()), Ok(())),
                Err(error) => BeginStep::Ask(error),
            },
            (BeginStep::FinishCallbacks(error), BeginReply::Done) => BeginStep::Finished(
                Some(blank_books()),
                Err(BeginError::Call(error)),
            ),
            (BeginStep::Drop(error), BeginReply::Done) => BeginStep::Finished(
                Some(blank_books()),
                Err(BeginError::Call(error)),
            ),
            (BeginStep::ReleaseSession, BeginReply::Done) => BeginStep::OpenPool,
            (BeginStep::OpenPool, BeginReply::Ran(outcome)) => match outcome {
                Ok(_) => BeginStep::Reserve,
                Err(error) => BeginStep::Finished(None, Err(BeginError::Call(error))),
            },
            (BeginStep::Reserve, BeginReply::Books(books)) => if books.phase != Phase::Idle {
                BeginStep::Finished(
                    None,
                    Err(BeginError::Refused(ConnectionError::TransactionInProgress)),
                )
            } else if self.has_callbacks {
                BeginStep::BindCallbacks
            } else {
                BeginStep::Acquire
            },
            (BeginStep::BindCallbacks, BeginReply::Ran(outcome)) => match outcome {
                Ok(_) => BeginStep::TakeCallbacks,
                Err(error) => BeginStep::Finished(Some(blank_books()), Err(BeginError::Call(error))),
            },
            (BeginStep::TakeCallbacks, BeginReply::Taken(taken)) => if taken {
                BeginStep::SetTimeout
            } else {
                BeginStep::Finished(
                    Some(blank_books()),
                    Err(BeginError::Refused(ConnectionError::NoCallbackConnection)),
                )
            },
            (BeginStep::Acquire, BeginReply::Ran(outcome)) => match outcome {
                Ok(_) => BeginStep::SetTimeout,
                Err(error) => BeginStep::Finished(Some(blank_books()), Err(BeginError::Call(error))),
            },
            (BeginStep::SetTimeout, BeginReply::Ran(outcome)) => match outcome {
                Ok(_) => BeginStep::BeginFresh,
                Err(error) => BeginStep::CleanUp(BeginError::Call(error)),
            },
            (BeginStep::BeginFresh, BeginReply::Ran(outcome)) => match outcome {
                Ok(_) => BeginStep::RunHook,
                Err(error) => BeginStep::CleanUp(BeginError::Call(error)),
            },
            (BeginStep::RunHook, BeginReply::Ran(outcome)) => match outcome {
                Ok(_) => BeginStep::Finished(None, Ok(())),
                Err(error) => BeginStep::CleanUp(BeginError::Call(error)),
            },
            (BeginStep::CleanUp(error), BeginReply::Done) => BeginStep::Finished(
                Some(blank_books()),
                Err(error),
            ),
            (state, _) => state,
        }
    }
}

/// The books that the beginning has written last.
pub open spec fn written_books<E>(begin: Begin<E>, replies: Seq<BeginReply<E>>) -> Option<Books>
    decreases replies.len(),
{
    match begin.spec_books(process::reached(begin, replies)) {
        Some(books) => Some(books),
        None => if replies.len() == 0 {
            None
        } else {
            written_books(begin, replies.drop_last())
        },
    }
}

/// A beginning that has ended leaves books that say what is the case: where it
/// succeeded, those that it wrote last tell of a transaction that the user
/// asked for, and behind the hook it writes none; where it failed, they tell
/// neither of such a transaction nor of one that is still being started.
pub proof fn law_begin_settles<E>(begin: Begin<E>, replies: Seq<BeginReply<E>>)
    requires
        process::possible(begin, replies),
    ensures
        match process::reached(begin, replies) {
            BeginStep::Finished(books, Ok(_)) => {
                &&& written_books(begin, replies) == Some(begun())
                &&& counts_as_in_transaction(begun())
                &&& replies.len() > 0
                &&& books is None <==> process::reached(begin, replies.drop_last()) is RunHook
            },
            BeginStep::Finished(Some(books), Err(_)) => {
                &&& books.phase != Phase::Starting
                &&& !books.explicit
                &&& books.held == (books.phase == Phase::Active)
            },
            _ => true,
        },
    decreases replies.len(),
{
    if replies.len() > 0 {
        law_begin_settles(begin, replies.drop_last());
    }
}

/// While a transaction that the user asked for is open, or one is being
/// started, another beginning makes no call and writes no books.
pub proof fn law_begin_refuses_nesting<E>(begin: Begin<E>)
    requires
        !begin.closed,
        begin.books.phase == Phase::Starting || counts_as_in_transaction(begin.books),
    ensures
        begin.outset() == BeginStep::<E>::Finished(
            None,
            Err(BeginError::Refused(ConnectionError::TransactionInProgress)),
        ),
{
}

/// Whether the beginning has taken a database connection and not given it
/// away since.
pub open spec fn begin_carries<E>(begin: Begin<E>, replies: Seq<BeginReply<E>>) -> bool
    decreases replies.len(),
{
    if replies.len() == 0 {
        false
    } else {
        match process::reached(begin, replies.drop_last()) {
            BeginStep::CommitImplicit => true,
            BeginStep::TakeCallbacks => replies.last()->Taken_0,
            BeginStep::Acquire => replies.last()->Ran_0 is Ok,
            BeginStep::FinishCallbacks(_) | BeginStep::Drop(_) | BeginStep::CleanUp(_) => false,
            _ => begin_carries(begin, replies.drop_last()),
        }
    }
}

/// A beginning loses no connection. One that it took was given away, or it is
/// in the slot once the beginning has ended, exactly as the books say; where it
/// ends behind the hook, without books, it was put there before the hook ran.
pub proof fn law_begin_loses_no_connection<E>(begin: Begin<E>, replies: Seq<BeginReply<E>>)
    requires
        process::possible(begin, replies),
        begin.ended(process::reached(begin, replies)),
    ensures
        begin_carries(begin, replies) <==> (match process::reached(begin, replies) {
            BeginStep::Finished(Some(books), _) => books.held,
            BeginStep::Finished(None, result) => result is Ok,
            _ => false,
        }),
{
    lemma_begin_carries(begin, replies);
}

proof fn lemma_begin_carries<E>(begin: Begin<E>, replies: Seq<BeginReply<E>>)
    requires
        process::possible(begin, replies),
    ensures
        begin_carries(begin, replies) <==> (match process::reached(begin, replies) {
            BeginStep::Ask(_)
            | BeginStep::Retime
            | BeginStep::Rebegin
            | BeginStep::FinishCallbacks(_)
            | BeginStep::Drop(_)
            | BeginStep::SetTimeout
            | BeginStep::BeginFresh
            | BeginStep::RunHook
            | BeginStep::CleanUp(_) => true,
            BeginStep::Finished(Some(books), _) => books.held,
            BeginStep::Finished(None, result) => result is Ok,
            _ => false,
        }),
    decreases replies.len(),
{
    if replies.len() > 0 {
        lemma_begin_carries(begin, replies.drop_last());
    }
}

// ---------------------------------------------------------------- leaving

/// Why the transaction of a connection is torn down.
#[derive(Clone, Copy, PartialEq, Eq, Structural)]
pub enum Leaving {
    /// The connection's block is left, with or without an exception.
    Exit { clean: bool },
    /// The connection is closed.
    Close,
}

/// The end of a connection's block, or of the connection.
pub struct Leave<E> {
    pub leaving: Leaving,
    pub books: Books,
    pub errors: PhantomData<E>,
}

/// The call that leaving waits for. Each step carries the error that is to be
/// reported, where there is one by then.
pub enum LeaveStep<E> {
    /// Hand the session's connection back.
    ReleaseSession,
    /// Take the connection out of the slot and run the statement on it.
    Run(Ending),
    /// Ask whether the connection is still in a transaction.
    Ask(Ending, Option<E>),
    /// Run `ROLLBACK`; how that goes does not matter.
    Undo(Option<E>),
    /// Ask once more whether the connection is still in a transaction.
    AskAgain(Option<E>),
    /// Close the connection, which is still in a transaction.
    Discard(Option<E>),
    /// Strip the connection of its callbacks and hand it back.
    Release(Option<E>),
    /// Take the connection for callbacks out of its slot, if it is there.
    TakeCallbacks(Option<E>),
    /// Strip that connection of its callbacks and hand it back.
    ReleaseCallbacks(Option<E>),
    /// Forget the registered callbacks.
    Forget(Option<E>),
    /// Give up the connection's share in the pool.
    LeavePool(Option<E>),
    /// No call is left. The books are those of `books_after`.
    Finished(Result<(), E>),
}

/// What a call of leaving brings back.
pub enum LeaveReply<E> {
    /// How the call went.
    Ran(Result<(), E>),
    /// Whether a transaction is open, where that can be told.
    Open(Option<bool>),
    /// Whether there was a connection to take.
    Taken(bool),
    /// That the call is done.
    Done,
}

/// The error to report: the first one counts.
pub open spec fn first_error<E>(earlier: Option<E>, outcome: Result<(), E>) -> Option<E> {
    match (earlier, outcome) {
        (Some(error), _) => Some(error),
        (None, Err(error)) => Some(error),
        (None, Ok(_)) => None,
    }
}

impl<E> Leave<E> {
    /// The statement that settles an open transaction. One that the user asked
    /// for is rolled back; an implicit one is committed where the block is
    /// left without an exception.
    pub open spec fn spec_ending(self) -> Ending {
        if !self.books.explicit && self.leaving == (Leaving::Exit { clean: true }) {
            Ending::Commit
        } else {
            Ending::Rollback
        }
    }

    /// Goes on with the transaction, where there is one with a connection.
    pub open spec fn settle(self) -> LeaveStep<E> {
        if self.books.phase == Phase::Active && self.books.held {
            LeaveStep::Run(self.spec_ending())
        } else {
            LeaveStep::TakeCallbacks(None)
        }
    }
}

impl<E> Process for Leave<E> {
    type State = LeaveStep<E>;

    type Reply = LeaveReply<E>;

    open spec fn outset(self) -> LeaveStep<E> {
        match self.leaving {
            Leaving::Close => LeaveStep::ReleaseSession,
            Leaving::Exit { .. } => self.settle(),
        }
    }

    open spec fn ended(self, state: LeaveStep<E>) -> bool {
        state is Finished
    }

    open spec fn answers(self, state: LeaveStep<E>, reply: LeaveReply<E>) -> bool {
        match state {
            LeaveStep::Run(_) | LeaveStep::Release(_) | LeaveStep::ReleaseCallbacks(_) =>
                reply is Ran,
            LeaveStep::Ask(..) | LeaveStep::AskAgain(_) => reply is Open,
            LeaveStep::TakeCallbacks(_) => reply is Taken,
            LeaveStep::ReleaseSession
            | LeaveStep::Undo(_)
            | LeaveStep::Discard(_)
            | LeaveStep::Forget(_)
            | LeaveStep::LeavePool(_) => reply is Done,
            LeaveStep::Finished(_) => false,
        }
    }

    open spec fn next(self, state: LeaveStep<E>, reply: LeaveReply<E>) -> LeaveStep<E> {
        match (state, reply) {
            (LeaveStep::ReleaseSession, LeaveReply::Done) => self.settle(),
            (LeaveStep::Run(ending), LeaveReply::Ran(outcome)) => LeaveStep::Ask(
                ending,
                if ending == Ending::Commit {
                    first_error(None, outcome)
                } else {
                    None
                },
            ),
            (LeaveStep::Ask(ending, error), LeaveReply::Open(open)) => if open == Some(false) {
                LeaveStep::Release(error)
            } else if ending == Ending::Commit {
                LeaveStep::Undo(error)
            } else {
                LeaveStep::Discard(error)
            },
            (LeaveStep::Undo(error), LeaveReply::Done) => LeaveStep::AskAgain(error),
            (LeaveStep::AskAgain(error), LeaveReply::Open(open)) => if open == Some(false) {
                LeaveStep::Release(error)
            } else {
                LeaveStep::Discard(error)
            },
            (LeaveStep::Discard(error), LeaveReply::Done) => LeaveStep::TakeCallbacks(error),
            (LeaveStep::Release(error), LeaveReply::Ran(outcome)) => LeaveStep::TakeCallbacks(
                first_error(error, outcome),
            ),
            (LeaveStep::TakeCallbacks(error), LeaveReply::Taken(taken)) => if taken {
                LeaveStep::ReleaseCallbacks(error)
            } else {
                LeaveStep::Forget(error)
            },
            (LeaveStep::ReleaseCallbacks(error), LeaveReply::Ran(outcome)) => LeaveStep::Forget(
                first_error(error, outcome),
            ),
            (LeaveStep::Forget(error), LeaveReply::Done) => match self.leaving {
                Leaving::Close => LeaveStep::LeavePool(error),
                Leaving::Exit { .. } => LeaveStep::Finished(
                    match error {
                        Some(error) => Err(error),
                        None => Ok(()),
                    },
                ),
            },
            (LeaveStep::LeavePool(error), LeaveReply::Done) => LeaveStep::Finished(
                match error {
                    Some(error) => Err(error),
                    None => Ok(()),
                },
            ),
            (state, _) => state,
        }
    }
}

fn keep_first<E>(earlier: Option<E>, outcome: Result<(), E>) -> (out: Option<E>)
    ensures
        out == first_error(earlier, outcome),
{
    match earlier {
        Some(error) => Some(error),
        None => match outcome {
            Ok(_) => None,
            Err(error) => Some(error),
        },
    }
}

fn report<E>(error: Option<E>) -> (out: LeaveStep<E>)
    ensures
        out == LeaveStep::<E>::Finished(
            match error {
                Some(error) => Err(error),
                None => Ok(()),
            },
        ),
{
    match error {
        Some(error) => LeaveStep::Finished(Err(error)),
        None => LeaveStep::Finished(Ok(())),
    }
}

impl<E> Leave<E> {
    /// The statement that settles an open transaction.
    pub fn ending(&self) -> (out: Ending)
        ensures
            out == self.spec_ending(),
    {
        match self.leaving {
            Leaving::Exit { clean } => if clean && !self.books.explicit {
                Ending::Commit
            } else {
                Ending::Rollback
            },
            Leaving::Close => Ending::Rollback,
        }
    }

    /// The books to write back: those of an open transaction are blank.
    pub open spec fn spec_books_after(self) -> Books {
        if self.books.phase == Phase::Active {
            blank()
        } else {
            self.books
        }
    }

    /// The books to write back: those of an open transaction are blank.
    pub fn books_after(&self) -> (out: Books)
        ensures
            out == self.spec_books_after(),
    {
        if self.books.phase == Phase::Active {
            blank_books()
        } else {
            self.books
        }
    }

    /// Whether the connection is closed from now on. Only closing it closes it,
    /// and it does so before the first call is made.
    pub open spec fn spec_closed_after(self, before: bool) -> bool {
        before || self.leaving == Leaving::Close
    }

    /// Whether the connection is closed from now on.
    pub fn closed_after(&self, before: bool) -> (out: bool)
        ensures
            out == self.spec_closed_after(before),
    {
        match self.leaving {
            Leaving::Close => true,
            Leaving::Exit { .. } => before,
        }
    }

    fn go_on_to_settle(&self) -> (out: LeaveStep<E>)
        ensures
            out == self.settle(),
    {
        if self.books.phase == Phase::Active && self.books.held {
            LeaveStep::Run(self.ending())
        } else {
            LeaveStep::TakeCallbacks(None)
        }
    }

    /// The first call to make.
    pub fn start(&self) -> (out: LeaveStep<E>)
        ensures
            out == self.outset(),
    {
        match self.leaving {
            Leaving::Close => LeaveStep::ReleaseSession,
            Leaving::Exit { .. } => self.go_on_to_settle(),
        }
    }

    /// The call to make behind a reply.
    pub fn resume(&self, state: LeaveStep<E>, reply: LeaveReply<E>) -> (out: LeaveStep<E>)
        ensures
            out == self.next(state, reply),
    {
        match (state, reply) {
            (LeaveStep::ReleaseSession, LeaveReply::Done) => self.go_on_to_settle(),
            (LeaveStep::Run(ending), LeaveReply::Ran(outcome)) => match ending {
                Ending::Commit => LeaveStep::Ask(Ending::Commit, keep_first(None, outcome)),
                Ending::Rollback => LeaveStep::Ask(Ending::Rollback, None),
            },
            (LeaveStep::Ask(ending, error), LeaveReply::Open(open)) => match (open, ending) {
                (Some(false), _) => LeaveStep::Release(error),
                (_, Ending::Commit) => LeaveStep::Undo(error),
                (_, Ending::Rollback) => LeaveStep::Discard(error),
            },
            (LeaveStep::Undo(error), LeaveReply::Done) => LeaveStep::AskAgain(error),
            (LeaveStep::AskAgain(error), LeaveReply::Open(open)) => match open {
                Some(false) => LeaveStep::Release(error),
                _ => LeaveStep::Discard(error),
            },
            (LeaveStep::Discard(error), LeaveReply::Done) => LeaveStep::TakeCallbacks(error),
            (LeaveStep::Release(error), LeaveReply::Ran(outcome)) => LeaveStep::TakeCallbacks(
                keep_first(error, outcome),
            ),
            (LeaveStep::TakeCallbacks(error), LeaveReply::Taken(taken)) => if taken {
                LeaveStep::ReleaseCallbacks(error)
            } else {
                LeaveStep::Forget(error)
            },
            (LeaveStep::ReleaseCallbacks(error), LeaveReply::Ran(outcome)) => LeaveStep::Forget(
                keep_first(error, outcome),
            ),
            (LeaveStep::Forget(error), LeaveReply::Done) => match self.leaving {
                Leaving::Close => LeaveStep::LeavePool(error),
                Leaving::Exit { .. } => report(error),
            },
            (LeaveStep::LeavePool(error), LeaveReply::Done) => report(error),
            (state, _) => state,
        }
    }
}

/// Leaving commits only an implicit transaction, and only where the block is
/// left without an exception.
pub proof fn law_leave_commits_only_implicit<E>(leave: Leave<E>, replies: Seq<LeaveReply<E>>)
    requires
        process::possible(leave, replies),
    ensures
        process::reached(leave, replies) == LeaveStep::<E>::Run(Ending::Commit) ==> {
            &&& leave.books.phase == Phase::Active
            &&& !leave.books.explicit
            &&& leave.leaving == (Leaving::Exit { clean: true })
        },
    decreases replies.len(),
{
    if replies.len() > 0 {
        law_leave_commits_only_implicit(leave, replies.drop_last());
    }
}

/// A connection that may still be in a transaction is never handed back: what
/// comes right before handing it back is the answer that none is open.
pub proof fn law_leave_hands_back_clean<E>(leave: Leave<E>, replies: Seq<LeaveReply<E>>)
    requires
        process::possible(leave, replies),
        process::reached(leave, replies) is Release,
    ensures
        replies.len() > 0,
        replies.last() == LeaveReply::<E>::Open(Some(false)),
{
}

/// How many times leaving has handed back or closed the transaction's
/// connection.
pub open spec fn leave_disposed<E>(leave: Leave<E>, replies: Seq<LeaveReply<E>>) -> int
    decreases replies.len(),
{
    if replies.len() == 0 {
        0
    } else {
        leave_disposed(leave, replies.drop_last()) + (match process::reached(
            leave,
            replies.drop_last(),
        ) {
            LeaveStep::Discard(_) | LeaveStep::Release(_) => 1int,
            _ => 0int,
        })
    }
}

/// Leaving disposes of the transaction's connection exactly once where there
/// is one.
pub proof fn law_leave_disposes_once<E>(leave: Leave<E>, replies: Seq<LeaveReply<E>>)
    requires
        process::possible(leave, replies),
        leave.ended(process::reached(leave, replies)),
    ensures
        leave_disposed(leave, replies) == (if leave.books.phase == Phase::Active
            && leave.books.held {
            1int
        } else {
            0int
        }),
{
    lemma_leave_disposed(leave, replies);
}

proof fn lemma_leave_disposed<E>(leave: Leave<E>, replies: Seq<LeaveReply<E>>)
    requires
        process::possible(leave, replies),
    ensures
        leave_disposed(leave, replies) == match process::reached(leave, replies) {
            LeaveStep::ReleaseSession
            | LeaveStep::Run(_)
            | LeaveStep::Ask(..)
            | LeaveStep::Undo(_)
            | LeaveStep::AskAgain(_)
            | LeaveStep::Discard(_)
            | LeaveStep::Release(_) => 0int,
            _ => if leave.books.phase == Phase::Active && leave.books.held {
                1int
            } else {
                0int
            },
        },
        match process::reached(leave, replies) {
            LeaveStep::Run(_)
            | LeaveStep::Ask(..)
            | LeaveStep::Undo(_)
            | LeaveStep::AskAgain(_)
            | LeaveStep::Discard(_)
            | LeaveStep::Release(_) => leave.books.phase == Phase::Active && leave.books.held,
            _ => true,
        },
    decreases replies.len(),
{
    if replies.len() > 0 {
        lemma_leave_disposed(leave, replies.drop_last());
    }
}

/// The error that a step of leaving carries.
spec fn carried<E>(step: LeaveStep<E>) -> Option<E> {
    match step {
        LeaveStep::Ask(_, error)
        | LeaveStep::Undo(error)
        | LeaveStep::AskAgain(error)
        | LeaveStep::Discard(error)
        | LeaveStep::Release(error)
        | LeaveStep::TakeCallbacks(error)
        | LeaveStep::ReleaseCallbacks(error)
        | LeaveStep::Forget(error)
        | LeaveStep::LeavePool(error) => error,
        LeaveStep::Finished(Err(error)) => Some(error),
        _ => None,
    }
}

/// The error of a `COMMIT` on the way out is the one that is reported, even
/// where the rollback behind it cleans up.
pub proof fn law_leave_reports_commit_error<E>(
    leave: Leave<E>,
    replies: Seq<LeaveReply<E>>,
    at: int,
    error: E,
)
    requires
        process::possible(leave, replies),
        0 <= at < replies.len(),
        process::reached(leave, replies.take(at)) == LeaveStep::<E>::Run(Ending::Commit),
        replies[at] == LeaveReply::<E>::Ran(Err(error)),
        leave.ended(process::reached(leave, replies)),
    ensures
        process::reached(leave, replies) == LeaveStep::<E>::Finished(Err(error)),
{
    lemma_leave_keeps_error(leave, replies, at, error);
}

proof fn lemma_leave_keeps_error<E>(
    leave: Leave<E>,
    replies: Seq<LeaveReply<E>>,
    at: int,
    error: E,
)
    requires
        process::possible(leave, replies),
        0 <= at < replies.len(),
        process::reached(leave, replies.take(at)) == LeaveStep::<E>::Run(Ending::Commit),
        replies[at] == LeaveReply::<E>::Ran(Err(error)),
    ensures
        carried(process::reached(leave, replies)) == Some(error),
        !(process::reached(leave, replies) is ReleaseSession),
        !(process::reached(leave, replies) is Run),
    decreases replies.len(),
{
    let before = replies.drop_last();
    if at == replies.len() - 1 {
        assert(replies.take(at) == before);
    } else {
        assert(before.take(at) == replies.take(at));
        assert(before[at] == replies[at]);
        lemma_leave_keeps_error(leave, before, at, error);
    }
}

// ---------------------------------------------------------------- the end of it

/// A bound on the calls that a beginning has left to make.
pub open spec fn begin_calls_left<E>(step: BeginStep<E>) -> int {
    match step {
        BeginStep::ReleaseSession => 9,
        BeginStep::OpenPool => 8,
        BeginStep::Reserve => 7,
        BeginStep::BindCallbacks => 6,
        BeginStep::TakeCallbacks | BeginStep::Acquire | BeginStep::CommitImplicit => 5,
        BeginStep::SetTimeout | BeginStep::Retime => 4,
        BeginStep::BeginFresh | BeginStep::Rebegin => 3,
        BeginStep::RunHook | BeginStep::Ask(_) => 2,
        BeginStep::CleanUp(_) | BeginStep::FinishCallbacks(_) | BeginStep::Drop(_) => 1,
        BeginStep::Finished(..) => 0,
    }
}

/// With every reply the bound on the calls that are left goes down, so that
/// beginning a transaction comes to its end.
pub proof fn law_begin_ends<E>(begin: Begin<E>, state: BeginStep<E>, reply: BeginReply<E>)
    requires
        begin.answers(state, reply),
    ensures
        0 <= begin_calls_left(begin.next(state, reply)) < begin_calls_left(state),
{
}

/// A bound on the calls that the end of a transaction has left to make.
pub open spec fn end_calls_left<E>(step: EndStep<E>) -> int {
    match step {
        EndStep::Run => 3,
        EndStep::Ask(_) => 2,
        EndStep::FinishCallbacks | EndStep::Drop | EndStep::CleanUp(_) => 1,
        EndStep::Finished(..) => 0,
    }
}

/// With every reply the bound on the calls that are left goes down, so that
/// ending a transaction comes to its end.
pub proof fn law_end_ends<E>(end: End<E>, state: EndStep<E>, reply: EndReply<E>)
    requires
        end.answers(state, reply),
    ensures
        0 <= end_calls_left(end.next(state, reply)) < end_calls_left(state),
{
}

/// A bound on the calls that leaving has left to make.
pub open spec fn leave_calls_left<E>(step: LeaveStep<E>) -> int {
    match step {
        LeaveStep::ReleaseSession => 11,
        LeaveStep::Run(_) => 10,
        LeaveStep::Ask(..) => 9,
        LeaveStep::Undo(_) => 8,
        LeaveStep::AskAgain(_) => 7,
        LeaveStep::Discard(_) | LeaveStep::Release(_) => 6,
        LeaveStep::TakeCallbacks(_) => 5,
        LeaveStep::ReleaseCallbacks(_) => 4,
        LeaveStep::Forget(_) => 3,
        LeaveStep::LeavePool(_) => 2,
        LeaveStep::Finished(_) => 0,
    }
}

/// With every reply the bound on the calls that are left goes down, so that
/// leaving a connection comes to its end.
pub proof fn law_leave_ends<E>(leave: Leave<E>, state: LeaveStep<E>, reply: LeaveReply<E>)
    requires
        leave.answers(state, reply),
    ensures
        0 <= leave_calls_left(leave.next(state, reply)) < leave_calls_left(state),
{
}

/// A transaction that was begun and then ended, by either statement and on the
/// books that the beginning wrote last, leaves the books as if it had never
/// been, ready to begin another.
pub proof fn law_end_undoes_begin<E>(
    begin: Begin<E>,
    begin_replies: Seq<BeginReply<E>>,
    end: End<E>,
    end_replies: Seq<EndReply<E>>,
    again: Begin<E>,
)
    requires
        process::possible(begin, begin_replies),
        process::reached(begin, begin_replies) matches BeginStep::Finished(_, Ok(_)),
        written_books(begin, begin_replies) == Some(end.books),
        process::possible(end, end_replies),
        process::reached(end, end_replies) matches EndStep::Finished(_, Ok(_)),
        again.books == process::reached(end, end_replies)->Finished_0,
        !again.closed,
    ensures
        counts_as_in_transaction(end.books),
        again.books == blank(),
        again.outset() is ReleaseSession,
{
    law_begin_settles(begin, begin_replies);
    law_end_settles(end, end_replies);
}

// ---------------------------------------------------------------- what was run

/// What was answered when the statement of a commit or rollback was run last.
pub open spec fn end_ran<E>(end: End<E>, replies: Seq<EndReply<E>>) -> Option<Result<(), E>>
    decreases replies.len(),
{
    if replies.len() == 0 {
        None
    } else {
        match (process::reached(end, replies.drop_last()), replies.last()) {
            (EndStep::Run, EndReply::Ran(outcome)) => Some(outcome),
            _ => end_ran(end, replies.drop_last()),
        }
    }
}

/// What became of the transaction's connection.
#[derive(Clone, Copy, PartialEq, Eq, Structural)]
pub enum Fate {
    /// Nothing yet.
    Kept,
    /// It was handed back.
    HandedBack,
    /// It was stripped of its callbacks and handed back.
    Stripped,
    /// It was cleaned up.
    CleanedUp,
}

/// What a commit or rollback has done with the transaction's connection.
pub open spec fn end_fate<E>(end: End<E>, replies: Seq<EndReply<E>>) -> Fate
    decreases replies.len(),
{
    if replies.len() == 0 {
        Fate::Kept
    } else {
        match process::reached(end, replies.drop_last()) {
            EndStep::Drop => Fate::HandedBack,
            EndStep::FinishCallbacks => Fate::Stripped,
            EndStep::CleanUp(_) => Fate::CleanedUp,
            _ => end_fate(end, replies.drop_last()),
        }
    }
}

/// In a transaction whose slot holds a connection, a commit or rollback ends
/// only behind its own statement, with what that statement answered. Behind a
/// success the connection is given back, stripped of its callbacks where it
/// carries some; behind a failure it is cleaned up where SQLite says that the
/// transaction is gone, and otherwise kept with the books as they were.
pub proof fn law_end_runs_its_statement<E>(end: End<E>, replies: Seq<EndReply<E>>)
    requires
        process::possible(end, replies),
        end.books.phase == Phase::Active,
        end.books.held,
    ensures
        match process::reached(end, replies) {
            EndStep::Run => end_ran(end, replies) is None,
            EndStep::Ask(error) | EndStep::CleanUp(error) => end_ran(end, replies) == Some(
                Result::<(), E>::Err(error),
            ),
            EndStep::FinishCallbacks | EndStep::Drop => end_ran(end, replies) matches Some(Ok(_)),
            EndStep::Finished(books, result) => {
                &&& end_ran(end, replies) == Some(result)
                &&& result is Ok ==> exists|i: int|
                    {
                        &&& 0 <= i < replies.len()
                        &&& process::reached(end, replies.take(i)) is Run
                        &&& (#[trigger] replies[i]) == EndReply::<E>::Ran(Ok(()))
                    }
                &&& books.phase == Phase::Active <==> end_fate(end, replies) == Fate::Kept
                &&& books.phase == Phase::Active ==> books == end.books && result is Err
                    && replies.last() != EndReply::<E>::Open(Some(false))
                &&& books.phase != Phase::Active ==> books.phase == Phase::Idle && !books.explicit
                    && !books.held
                &&& result is Ok ==> end_fate(end, replies) == if end.has_callbacks {
                    Fate::Stripped
                } else {
                    Fate::HandedBack
                }
                &&& result is Err && books.phase != Phase::Active ==> end_fate(end, replies)
                    == Fate::CleanedUp
            },
        },
        !(process::reached(end, replies) is Finished) ==> end_fate(end, replies) == Fate::Kept,
        process::reached(end, replies) is CleanUp ==> replies.last() == EndReply::<E>::Open(
            Some(false),
        ),
        process::reached(end, replies) is FinishCallbacks ==> end.has_callbacks,
        process::reached(end, replies) is Drop ==> !end.has_callbacks,
    decreases replies.len(),
{
    if replies.len() > 0 {
        let before = replies.drop_last();
        law_end_runs_its_statement(end, before);
        lemma_end_ran(end, replies);
        if let Some(Ok(unit)) = end_ran(end, replies) {
            assert(unit == ());
        }
    }
}

proof fn lemma_end_ran<E>(end: End<E>, replies: Seq<EndReply<E>>)
    requires
        process::possible(end, replies),
    ensures
        end_ran(end, replies) matches Some(outcome) ==> exists|i: int|
            {
                &&& 0 <= i < replies.len()
                &&& process::reached(end, replies.take(i)) is Run
                &&& (#[trigger] replies[i]) == EndReply::<E>::Ran(outcome)
            },
    decreases replies.len(),
{
    if replies.len() > 0 {
        let before = replies.drop_last();
        let last = replies.len() - 1;
        if process::reached(end, before) is Run {
            assert(replies.take(last) == before);
            assert(replies[last] == EndReply::<E>::Ran(replies[last]->Ran_0));
        } else {
            lemma_end_ran(end, before);
            if let Some(outcome) = end_ran(end, before) {
                let i = choose|i: int|
                    {
                        &&& 0 <= i < before.len()
                        &&& process::reached(end, before.take(i)) is Run
                        &&& (#[trigger] before[i]) == EndReply::<E>::Ran(outcome)
                    };
                assert(replies.take(i) == before.take(i));
                assert(replies[i] == before[i]);
            }
        }
    }
}

/// Books of an open transaction without a connection tell of nothing that a
/// statement could be run on: they are cleared, with no call.
pub proof fn law_end_clears_books_without_connection<E>(end: End<E>)
    requires
        end.books.phase == Phase::Active,
        !end.books.held,
    ensures
        end.outset() == EndStep::<E>::Finished(
            Books { phase: Phase::Idle, explicit: false, held: false },
            Ok(()),
        ),
{
}

/// A connection counts as in a transaction exactly where one is open that the
/// user asked for.
pub proof fn law_only_open_explicit_transactions_count(books: Books)
    ensures
        counts_as_in_transaction(books) ==> books.phase == Phase::Active && books.explicit,
        books.phase == Phase::Active && books.explicit ==> counts_as_in_transaction(books),
{
}

/// The statement that begins a transaction names the level that was asked for,
/// and the one that waits with its lock where none was.
pub proof fn law_begin_statement_names_the_level()
    ensures
        begin_statement(Some(IsolationLevel::Deferred)) == "BEGIN DEFERRED"@,
        begin_statement(Some(IsolationLevel::Immediate)) == "BEGIN IMMEDIATE"@,
        begin_statement(Some(IsolationLevel::Exclusive)) == "BEGIN EXCLUSIVE"@,
        begin_statement(None) == begin_statement(Some(IsolationLevel::Deferred)),
{
    reveal_strlit("BEGIN ");
    reveal_strlit("DEFERRED");
    reveal_strlit("IMMEDIATE");
    reveal_strlit("EXCLUSIVE");
    reveal_strlit("BEGIN DEFERRED");
    reveal_strlit("BEGIN IMMEDIATE");
    reveal_strlit("BEGIN EXCLUSIVE");
    assert("BEGIN "@ + "DEFERRED"@ =~= "BEGIN DEFERRED"@);
    assert("BEGIN "@ + "IMMEDIATE"@ =~= "BEGIN IMMEDIATE"@);
    assert("BEGIN "@ + "EXCLUSIVE"@ =~= "BEGIN EXCLUSIVE"@);
}

/// What a beginning has done so far, each thing as SQLite or the connection
/// answered it.
pub ghost struct BeginLedger<E> {
    /// The implicit transaction was committed.
    pub committed: bool,
    /// The busy timeout was set.
    pub timed: bool,
    /// A begin statement succeeded.
    pub opened: bool,
    /// The session's connection was handed back.
    pub released: bool,
    /// There is a pool.
    pub pooled: bool,
    /// The books were found to tell of no transaction, under the lock.
    pub reserved: bool,
    /// The callbacks were bound to a connection.
    pub bound: bool,
    /// That connection was taken.
    pub bound_taken: bool,
    /// A connection was taken from the pool.
    pub acquired: bool,
    /// The hook ran without an error.
    pub hooked: bool,
    /// What was answered when it was asked whether a transaction is open.
    pub asked: Option<Option<bool>>,
    /// What went wrong.
    pub trouble: Option<BeginError<E>>,
}

/// The trouble that the outcome of a call makes.
pub open spec fn trouble_of<E>(outcome: Result<(), E>) -> Option<BeginError<E>> {
    match outcome {
        Ok(_) => None,
        Err(error) => Some(BeginError::Call(error)),
    }
}

/// What a beginning has done once these replies have come back.
pub open spec fn begin_ledger<E>(begin: Begin<E>, replies: Seq<BeginReply<E>>) -> BeginLedger<E>
    decreases replies.len(),
{
    if replies.len() == 0 {
        BeginLedger {
            committed: false,
            timed: false,
            opened: false,
            released: false,
            pooled: false,
            reserved: false,
            bound: false,
            bound_taken: false,
            acquired: false,
            hooked: false,
            asked: None,
            trouble: None,
        }
    } else {
        let ledger = begin_ledger(begin, replies.drop_last());
        match (process::reached(begin, replies.drop_last()), replies.last()) {
            (BeginStep::CommitImplicit, BeginReply::Ran(outcome)) => BeginLedger {
                committed: outcome is Ok,
                trouble: trouble_of(outcome),
                ..ledger
            },
            (BeginStep::Retime, _) => BeginLedger { timed: true, ..ledger },
            (BeginStep::Rebegin | BeginStep::BeginFresh, BeginReply::Ran(outcome)) => BeginLedger {
                opened: outcome is Ok,
                trouble: trouble_of(outcome),
                ..ledger
            },
            (BeginStep::ReleaseSession, _) => BeginLedger { released: true, ..ledger },
            (BeginStep::OpenPool, BeginReply::Ran(outcome)) => BeginLedger {
                pooled: outcome is Ok,
                trouble: trouble_of(outcome),
                ..ledger
            },
            (BeginStep::Reserve, BeginReply::Books(books)) => BeginLedger {
                reserved: books.phase == Phase::Idle,
                trouble: if books.phase == Phase::Idle {
                    None
                } else {
                    Some(BeginError::Refused(ConnectionError::TransactionInProgress))
                },
                ..ledger
            },
            (BeginStep::BindCallbacks, BeginReply::Ran(outcome)) => BeginLedger {
                bound: outcome is Ok,
                trouble: trouble_of(outcome),
                ..ledger
            },
            (BeginStep::TakeCallbacks, BeginReply::Taken(taken)) => BeginLedger {
                bound_taken: taken,
                trouble: if taken {
                    None
                } else {
                    Some(BeginError::Refused(ConnectionError::NoCallbackConnection))
                },
                ..ledger
            },
            (BeginStep::Acquire, BeginReply::Ran(outcome)) => BeginLedger {
                acquired: outcome is Ok,
                trouble: trouble_of(outcome),
                ..ledger
            },
            (BeginStep::SetTimeout, BeginReply::Ran(outcome)) => BeginLedger {
                timed: outcome is Ok,
                trouble: trouble_of(outcome),
                ..ledger
            },
            (BeginStep::RunHook, BeginReply::Ran(outcome)) => BeginLedger {
                hooked: outcome is Ok,
                trouble: trouble_of(outcome),
                ..ledger
            },
            (BeginStep::Ask(_), BeginReply::Open(open)) => BeginLedger {
                asked: Some(open),
                ..ledger
            },
            _ => ledger,
        }
    }
}

/// Whether the connection that a fresh transaction runs on has been taken from
/// where it belongs: the one that carries the callbacks where there are some,
/// and one of the pool otherwise, under books that told of no transaction.
pub open spec fn took_connection<E>(begin: Begin<E>, ledger: BeginLedger<E>) -> bool {
    &&& ledger.released
    &&& ledger.pooled
    &&& ledger.reserved
    &&& if begin.has_callbacks {
        ledger.bound && ledger.bound_taken && !ledger.acquired
    } else {
        ledger.acquired && !ledger.bound
    }
}

/// Whether an implicit transaction with a connection is open at the outset.
pub open spec fn finds_implicit<E>(begin: Begin<E>) -> bool {
    begin.books.phase == Phase::Active && !begin.books.explicit && begin.books.held
}

/// A beginning makes a call unless it is refused at once: on a closed
/// connection, and while a transaction is being started or one that the user
/// asked for is open.
pub proof fn law_begin_starts_unless_refused<E>(begin: Begin<E>)
    ensures
        begin.closed ==> begin.outset() == BeginStep::<E>::Finished(
            None,
            Err(BeginError::Refused(ConnectionError::Closed)),
        ),
        begin.ended(begin.outset()) <==> begin.closed || begin.books.phase == Phase::Starting || (
        begin.books.phase == Phase::Active && begin.books.explicit),
{
}

/// A transaction has begun only where a begin statement succeeded, on a
/// connection whose busy timeout was set before. Where an implicit transaction
/// was open, it was committed first and its connection is used; where none was,
/// the connection is taken from where it belongs and the hook runs inside the
/// transaction. While the transaction is being started the books say so.
pub proof fn law_begin_runs_its_statement<E>(begin: Begin<E>, replies: Seq<BeginReply<E>>)
    requires
        process::possible(begin, replies),
        !begin.ended(begin.outset()),
    ensures
        match process::reached(begin, replies) {
            BeginStep::CommitImplicit => replies.len() == 0 && finds_implicit(begin),
            BeginStep::Retime => begin_ledger(begin, replies).committed && finds_implicit(begin),
            BeginStep::Rebegin => {
                &&& finds_implicit(begin)
                &&& begin_ledger(begin, replies).committed
                &&& begin_ledger(begin, replies).timed
            },
            BeginStep::Ask(_) => finds_implicit(begin),
            BeginStep::FinishCallbacks(_) => finds_implicit(begin) && begin.has_callbacks
                && begin_ledger(begin, replies).asked == Some(Some(false)),
            BeginStep::Drop(_) => finds_implicit(begin) && !begin.has_callbacks && begin_ledger(
                begin,
                replies,
            ).asked == Some(Some(false)),
            BeginStep::ReleaseSession => replies.len() == 0 && !finds_implicit(begin),
            BeginStep::OpenPool => begin_ledger(begin, replies).released && !finds_implicit(begin),
            BeginStep::Reserve => begin_ledger(begin, replies).released && begin_ledger(
                begin,
                replies,
            ).pooled && !finds_implicit(begin),
            BeginStep::BindCallbacks => begin.has_callbacks && begin_ledger(
                begin,
                replies,
            ).reserved,
            BeginStep::TakeCallbacks => begin.has_callbacks && begin_ledger(begin, replies).bound,
            BeginStep::Acquire => !begin.has_callbacks && begin_ledger(begin, replies).reserved,
            BeginStep::SetTimeout => took_connection(begin, begin_ledger(begin, replies)),
            BeginStep::BeginFresh => took_connection(begin, begin_ledger(begin, replies))
                && begin_ledger(begin, replies).timed,
            BeginStep::RunHook => took_connection(begin, begin_ledger(begin, replies))
                && begin_ledger(begin, replies).timed && begin_ledger(begin, replies).opened,
            BeginStep::Finished(_, Ok(_)) => {
                &&& begin_ledger(begin, replies).opened
                &&& begin_ledger(begin, replies).timed
                &&& if finds_implicit(begin) {
                    begin_ledger(begin, replies).committed
                } else {
                    took_connection(begin, begin_ledger(begin, replies)) && begin_ledger(
                        begin,
                        replies,
                    ).hooked
                }
            },
            _ => true,
        },
    decreases replies.len(),
{
    if replies.len() > 0 {
        law_begin_runs_its_statement(begin, replies.drop_last());
        lemma_begin_path(begin, replies.drop_last());
        lemma_begin_path(begin, replies);
    }
}

/// On the way to a fresh transaction each thing stands behind the ones before.
proof fn lemma_begin_path<E>(begin: Begin<E>, replies: Seq<BeginReply<E>>)
    requires
        process::possible(begin, replies),
        !begin.ended(begin.outset()),
    ensures
        match process::reached(begin, replies) {
            BeginStep::ReleaseSession | BeginStep::OpenPool | BeginStep::Reserve => !begin_ledger(begin, replies).acquired
                && !begin_ledger(begin, replies).bound && !finds_implicit(begin),
            BeginStep::BindCallbacks | BeginStep::Acquire => begin_ledger(begin, replies).released
                && begin_ledger(begin, replies).pooled && begin_ledger(begin, replies).reserved
                && !begin_ledger(begin, replies).acquired && !begin_ledger(begin, replies).bound
                && !finds_implicit(begin),
            BeginStep::TakeCallbacks => begin_ledger(begin, replies).released && begin_ledger(
                begin,
                replies,
            ).pooled && begin_ledger(begin, replies).reserved && !begin_ledger(
                begin,
                replies,
            ).acquired && !finds_implicit(begin),
            BeginStep::SetTimeout | BeginStep::BeginFresh | BeginStep::RunHook => !finds_implicit(
                begin,
            ),
            _ => true,
        },
        process::reached(begin, replies) is Reserve ==> begin_ledger(begin, replies).released
            && begin_ledger(begin, replies).pooled,
        process::reached(begin, replies) is OpenPool ==> begin_ledger(begin, replies).released,
    decreases replies.len(),
{
    if replies.len() > 0 {
        lemma_begin_path(begin, replies.drop_last());
    }
}

/// A beginning fails with what went wrong and with nothing else. The books
/// behind a failure tell of no transaction, unless the implicit one may still
/// be open: then they tell of that one, with its connection. Books that were
/// not touched are not written.
pub proof fn law_begin_reports_what_failed<E>(begin: Begin<E>, replies: Seq<BeginReply<E>>)
    requires
        process::possible(begin, replies),
        !begin.ended(begin.outset()),
    ensures
        match process::reached(begin, replies) {
            BeginStep::Ask(error) | BeginStep::FinishCallbacks(error) | BeginStep::Drop(error) =>
                begin_ledger(begin, replies).trouble == Some(BeginError::Call(error)),
            BeginStep::CleanUp(error) => begin_ledger(begin, replies).trouble == Some(error),
            BeginStep::Finished(books, Err(error)) => {
                &&& begin_ledger(begin, replies).trouble == Some(error)
                &&& books is None <==> !begin_ledger(begin, replies).reserved && !finds_implicit(
                    begin,
                )
                &&& books matches Some(left) ==> left == if begin_ledger(
                    begin,
                    replies,
                ).asked matches Some(open) && open != Some(false) {
                    Books { phase: Phase::Active, explicit: false, held: true }
                } else {
                    Books { phase: Phase::Idle, explicit: false, held: false }
                }
            },
            _ => begin_ledger(begin, replies).trouble is None,
        },
        match process::reached(begin, replies) {
            BeginStep::CommitImplicit
            | BeginStep::Retime
            | BeginStep::Rebegin
            | BeginStep::Ask(_) => begin_ledger(begin, replies).asked is None && finds_implicit(
                begin,
            ),
            BeginStep::FinishCallbacks(_) | BeginStep::Drop(_) => begin_ledger(begin, replies).asked
                == Some(Some(false)) && finds_implicit(begin),
            BeginStep::ReleaseSession | BeginStep::OpenPool | BeginStep::Reserve => begin_ledger(
                begin,
                replies,
            ).asked is None && !finds_implicit(begin) && !begin_ledger(begin, replies).reserved,
            BeginStep::BindCallbacks
            | BeginStep::TakeCallbacks
            | BeginStep::Acquire
            | BeginStep::SetTimeout
            | BeginStep::BeginFresh
            | BeginStep::RunHook
            | BeginStep::CleanUp(_) => begin_ledger(begin, replies).asked is None && begin_ledger(
                begin,
                replies,
            ).reserved && !finds_implicit(begin),
            _ => true,
        },
    decreases replies.len(),
{
    if replies.len() > 0 {
        law_begin_reports_what_failed(begin, replies.drop_last());
    }
}

/// The books that stand while a transaction is being started keep others away,
/// and those that stand once it has begun count as a transaction with its
/// connection.
pub proof fn law_begin_announces_itself<E>(begin: Begin<E>, replies: Seq<BeginReply<E>>)
    requires
        process::possible(begin, replies),
    ensures
        match process::reached(begin, replies) {
            BeginStep::BindCallbacks
            | BeginStep::TakeCallbacks
            | BeginStep::Acquire
            | BeginStep::SetTimeout
            | BeginStep::BeginFresh => written_books(begin, replies) == Some(
                Books { phase: Phase::Starting, explicit: false, held: false },
            ),
            BeginStep::RunHook => written_books(begin, replies) == Some(
                Books { phase: Phase::Active, explicit: true, held: true },
            ),
            BeginStep::Finished(_, Ok(_)) => written_books(begin, replies) == Some(
                Books { phase: Phase::Active, explicit: true, held: true },
            ),
            BeginStep::Finished(books, Err(_)) => books is Some ==> written_books(begin, replies)
                == books,
            BeginStep::CleanUp(_) => true,
            _ => written_books(begin, replies) is None,
        },
    decreases replies.len(),
{
    if replies.len() > 0 {
        law_begin_announces_itself(begin, replies.drop_last());
    }
}

/// The trace callback sees the statements that a beginning runs, each where it
/// runs it: the commit of an implicit transaction, and the begin statement.
pub proof fn law_begin_traces_what_it_runs<E>(
    begin: Begin<E>,
    step: BeginStep<E>,
    level: Option<IsolationLevel>,
)
    ensures
        step is CommitImplicit ==> begin.spec_traced(step, level) == Some("COMMIT"@),
        step is Rebegin || step is BeginFresh ==> begin.spec_traced(step, level) == Some(
            begin_statement(level),
        ),
        !(step is CommitImplicit) && !(step is Rebegin) && !(step is BeginFresh)
            ==> begin.spec_traced(step, level) is None,
{
}

/// What leaving has done so far.
pub ghost struct LeaveLedger<E> {
    /// The session's connection was handed back.
    pub released_session: bool,
    /// The statement that settled the transaction.
    pub ran: Option<Ending>,
    /// The transaction was rolled back behind a commit.
    pub undone: bool,
    /// What was answered last when it was asked whether a transaction is open.
    pub open: Option<Option<bool>>,
    /// Whether there was a connection for callbacks.
    pub taken: Option<bool>,
    /// That connection was stripped and handed back.
    pub stripped: bool,
    /// The callbacks were forgotten.
    pub forgotten: bool,
    /// The share in the pool was given up.
    pub left_pool: bool,
    /// The first thing that went wrong, but for a rollback.
    pub trouble: Option<E>,
}

/// What leaving has done once these replies have come back.
pub open spec fn leave_ledger<E>(leave: Leave<E>, replies: Seq<LeaveReply<E>>) -> LeaveLedger<E>
    decreases replies.len(),
{
    if replies.len() == 0 {
        LeaveLedger {
            released_session: false,
            ran: None,
            undone: false,
            open: None,
            taken: None,
            stripped: false,
            forgotten: false,
            left_pool: false,
            trouble: None,
        }
    } else {
        let ledger = leave_ledger(leave, replies.drop_last());
        match (process::reached(leave, replies.drop_last()), replies.last()) {
            (LeaveStep::ReleaseSession, _) => LeaveLedger { released_session: true, ..ledger },
            (LeaveStep::Run(ending), LeaveReply::Ran(outcome)) => LeaveLedger {
                ran: Some(ending),
                trouble: match (ending, outcome) {
                    (Ending::Commit, Err(error)) => Some(error),
                    _ => None,
                },
                ..ledger
            },
            (LeaveStep::Ask(..) | LeaveStep::AskAgain(_), LeaveReply::Open(open)) => LeaveLedger {
                open: Some(open),
                ..ledger
            },
            (LeaveStep::Undo(_), _) => LeaveLedger { undone: true, ..ledger },
            (LeaveStep::Release(_), LeaveReply::Ran(Err(error))) => if ledger.trouble is None {
                LeaveLedger { trouble: Some(error), ..ledger }
            } else {
                ledger
            },
            (LeaveStep::TakeCallbacks(_), LeaveReply::Taken(taken)) => LeaveLedger {
                taken: Some(taken),
                ..ledger
            },
            (LeaveStep::ReleaseCallbacks(_), LeaveReply::Ran(outcome)) => LeaveLedger {
                stripped: true,
                trouble: match (ledger.trouble, outcome) {
                    (None, Err(error)) => Some(error),
                    (earlier, _) => earlier,
                },
                ..ledger
            },
            (LeaveStep::Forget(_), _) => LeaveLedger { forgotten: true, ..ledger },
            (LeaveStep::LeavePool(_), _) => LeaveLedger { left_pool: true, ..ledger },
            _ => ledger,
        }
    }
}

/// Leaving does everything that is due, whatever goes wrong on the way, and
/// reports the first thing that did. An open transaction with a connection is
/// settled: an implicit one is committed where the block is left without an
/// exception, any other is rolled back; a commit that leaves it open is rolled
/// back as well, and a connection that may still be in it is closed. A
/// connection that was kept for callbacks is stripped and handed back, the
/// callbacks are forgotten, and closing gives up the session and the pool.
pub proof fn law_leave_does_what_is_due<E>(leave: Leave<E>, replies: Seq<LeaveReply<E>>)
    requires
        process::possible(leave, replies),
    ensures
        ({
            let ledger = leave_ledger(leave, replies);
            let has_transaction = leave.books.phase == Phase::Active && leave.books.held;
            let commits = !leave.books.explicit && leave.leaving == (Leaving::Exit { clean: true });
            let settled = if has_transaction {
                &&& ledger.ran == Some(
                    if commits {
                        Ending::Commit
                    } else {
                        Ending::Rollback
                    },
                )
                &&& ledger.open is Some
                &&& ledger.undone ==> commits
            } else {
                ledger.ran is None && ledger.open is None && !ledger.undone
            };
            let session_done = ledger.released_session == (leave.leaving == Leaving::Close);
            match process::reached(leave, replies) {
                LeaveStep::ReleaseSession => replies.len() == 0 && leave.leaving == Leaving::Close,
                LeaveStep::Run(ending) => {
                    &&& session_done
                    &&& has_transaction
                    &&& ending == if commits {
                        Ending::Commit
                    } else {
                        Ending::Rollback
                    }
                    &&& ledger.trouble is None
                    &&& ledger.open is None
                    &&& !ledger.undone
                },
                LeaveStep::Ask(ending, error) => {
                    &&& session_done
                    &&& has_transaction
                    &&& ledger.ran == Some(ending)
                    &&& ending == if commits {
                        Ending::Commit
                    } else {
                        Ending::Rollback
                    }
                    &&& ledger.trouble == error
                    &&& !ledger.undone
                },
                LeaveStep::Undo(error) => {
                    &&& session_done
                    &&& settled
                    &&& commits
                    &&& has_transaction
                    &&& ledger.open != Some(Some(false))
                    &&& ledger.trouble == error
                },
                LeaveStep::AskAgain(error) => {
                    &&& session_done
                    &&& settled
                    &&& has_transaction
                    &&& ledger.undone
                    &&& ledger.trouble == error
                },
                LeaveStep::Discard(error) => {
                    &&& session_done
                    &&& settled
                    &&& has_transaction
                    &&& ledger.open != Some(Some(false))
                    &&& ledger.undone == commits
                    &&& ledger.trouble == error
                },
                LeaveStep::Release(error) => {
                    &&& session_done
                    &&& settled
                    &&& has_transaction
                    &&& ledger.open == Some(Some(false))
                    &&& ledger.trouble == error
                },
                LeaveStep::TakeCallbacks(error) => {
                    &&& session_done
                    &&& settled
                    &&& ledger.trouble == error
                    &&& !ledger.stripped
                },
                LeaveStep::ReleaseCallbacks(error) => {
                    &&& session_done
                    &&& settled
                    &&& ledger.taken == Some(true)
                    &&& ledger.trouble == error
                },
                LeaveStep::Forget(error) => {
                    &&& session_done
                    &&& settled
                    &&& ledger.taken == Some(ledger.stripped)
                    &&& ledger.trouble == error
                    &&& !ledger.left_pool
                },
                LeaveStep::LeavePool(error) => {
                    &&& session_done
                    &&& settled
                    &&& ledger.taken == Some(ledger.stripped)
                    &&& ledger.forgotten
                    &&& leave.leaving == Leaving::Close
                    &&& ledger.trouble == error
                },
                LeaveStep::Finished(result) => {
                    &&& session_done
                    &&& settled
                    &&& ledger.taken == Some(ledger.stripped)
                    &&& ledger.forgotten
                    &&& ledger.left_pool == (leave.leaving == Leaving::Close)
                    &&& match result {
                        Ok(_) => ledger.trouble is None,
                        Err(error) => ledger.trouble == Some(error),
                    }
                },
            }
        }),
        !(process::reached(leave, replies) is Finished) && !(process::reached(
            leave,
            replies,
        ) is LeavePool) && !(process::reached(leave, replies) is Forget) && !(process::reached(
            leave,
            replies,
        ) is ReleaseCallbacks) ==> !leave_ledger(leave, replies).stripped,
        !(process::reached(leave, replies) is Finished) ==> !leave_ledger(leave, replies).left_pool,
        process::reached(leave, replies) is ReleaseCallbacks ==> !leave_ledger(
            leave,
            replies,
        ).stripped,
    decreases replies.len(),
{
    if replies.len() > 0 {
        law_leave_does_what_is_due(leave, replies.drop_last());
    }
}

/// Leaving clears the books of an open transaction and no others, and only
/// closing closes the connection; one that is closed stays closed.
pub proof fn law_leave_clears_the_books<E>(leave: Leave<E>, before: bool)
    ensures
        leave.books.phase == Phase::Active ==> leave.spec_books_after() == (Books {
            phase: Phase::Idle,
            explicit: false,
            held: false,
        }),
        leave.books.phase != Phase::Active ==> leave.spec_books_after() == leave.books,
        leave.leaving == Leaving::Close ==> leave.spec_closed_after(before),
        leave.leaving != Leaving::Close ==> leave.spec_closed_after(before) == before,
{
}

/// The block of a transaction is committed exactly where no exception leaves it,
/// and its statement is the one of that name. A savepoint is set at the
/// beginning of its block, released where no exception leaves it, and rolled
/// back to where one does, each under its quoted name.
pub proof fn law_blocks_end_as_they_are_left(clean: bool, name: Seq<char>)
    ensures
        Ending::block_ending(clean) == Ending::Commit <==> clean,
        Ending::Commit.statement() == "COMMIT"@,
        Ending::Rollback.statement() == "ROLLBACK"@,
        Savepoint::Enter.statement(name) == "SAVEPOINT "@ + text::identifier(name),
        (Savepoint::Leave { clean }).statement(name) == (if clean {
            "RELEASE SAVEPOINT "@
        } else {
            "ROLLBACK TO SAVEPOINT "@
        }) + text::identifier(name),
{
}

} // verus!
