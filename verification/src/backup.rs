//! Copying a database into another one, page by page.

use crate::codes::{SQLITE_BUSY, SQLITE_DONE, SQLITE_LOCKED, SQLITE_OK};
use crate::error::ConnectionError;
use crate::process;
use crate::process::Process;
use crate::routing;
use crate::routing::Route;
use crate::text;
use std::marker::PhantomData;
use vstd::prelude::*;
use vstd::string::*;

verus! {

/// How many seconds a backup waits for a lock: what is configured, but no less
/// than 5 and no more than 120.
pub open spec fn patience(configured: Option<u64>) -> u64 {
    match configured {
        Some(seconds) => if seconds < 5 {
            5
        } else if seconds > 120 {
            120
        } else {
            seconds
        },
        None => 5,
    }
}

/// Decides how many seconds a backup waits for a lock.
pub fn backup_patience(configured: Option<u64>) -> (out: u64)
    ensures
        out == patience(configured),
        5 <= out <= 120,
{
    match configured {
        Some(seconds) => if seconds < 5 {
            5
        } else if seconds > 120 {
            120
        } else {
            seconds
        },
        None => 5,
    }
}

// ---------------------------------------------------------------- the copy

/// Which of the two connections is meant.
#[derive(Clone, Copy, PartialEq, Eq, Structural)]
pub enum Side {
    Source,
    Target,
}

/// The copy of a database, once both handles are at hand.
pub struct PageCopy {
    /// The name of the database on both sides.
    pub name: String,
    /// How many pages are copied at a time; zero is all of them.
    pub pages: i32,
    /// How many seconds the copy waits for a lock.
    pub seconds: u64,
    /// Whether progress is reported.
    pub reports: bool,
    /// The version of SQLite, for error messages.
    pub version: String,
}

/// The call that a copy waits for.
pub enum CopyStep {
    /// Set the busy timeout of both handles.
    SetTimeouts { milliseconds: i32 },
    /// Begin the backup, which reads the database of the one side and writes
    /// that of the other.
    Init { from: Side, into: Side },
    /// Read the code and message of this side: the backup did not begin.
    ExplainInit { of: Side },
    /// Copy this many pages; all of them where it is negative.
    Step { pages: i32 },
    /// Read how long the backup has taken.
    Clock,
    /// Read how many pages there are, and how many remain.
    Count { busy: bool },
    /// Read how many pages there are.
    CountAll,
    /// Report the progress, and go on to wait, to copy, or to the end.
    Report { remaining: i64, total: i64, copied: i64, busy: bool, done: bool },
    /// Wait before the next try.
    Sleep,
    /// Finish the backup because of this error.
    Abort(ConnectionError),
    /// Finish the backup.
    Finish,
    /// No call is left.
    Finished(Result<(), ConnectionError>),
}

/// What a call of a copy brings back.
pub enum CopyReply {
    /// That the call is done.
    Done,
    /// Whether the backup has begun.
    Begun(bool),
    /// The code and message of the target.
    Trouble { code: i32, message: Option<String> },
    /// The code that SQLite answers.
    Code(i32),
    /// The time since the backup has begun.
    Elapsed { seconds: u64, nanoseconds: u32 },
    /// The number of pages that remain, and that there are.
    Pages { remaining: i32, total: i32 },
}

impl PageCopy {
    /// How many pages SQLite is asked to copy at a time.
    pub open spec fn portion(self) -> i32 {
        if self.pages == 0 {
            (-1int) as i32
        } else {
            self.pages
        }
    }

    /// Whether the waiting time fits SQLite's milliseconds.
    pub open spec fn wf(self) -> bool {
        5 <= self.seconds <= 120
    }

    /// What follows a step that did not come to an end.
    pub open spec fn unfinished(self, busy: bool) -> CopyStep {
        if self.reports {
            CopyStep::Count { busy }
        } else if busy {
            CopyStep::Sleep
        } else {
            CopyStep::Step { pages: self.portion() }
        }
    }
}

impl Process for PageCopy {
    type State = CopyStep;

    type Reply = CopyReply;

    open spec fn outset(self) -> CopyStep {
        CopyStep::SetTimeouts { milliseconds: (self.seconds * 1000) as i32 }
    }

    open spec fn ended(self, state: CopyStep) -> bool {
        state is Finished
    }

    open spec fn answers(self, state: CopyStep, reply: CopyReply) -> bool {
        match state {
            CopyStep::SetTimeouts { .. }
            | CopyStep::Report { .. }
            | CopyStep::Sleep => reply is Done,
            CopyStep::Init { .. } => reply is Begun,
            CopyStep::ExplainInit { .. } => reply is Trouble,
            CopyStep::Step { .. } | CopyStep::Abort(_) | CopyStep::Finish => reply is Code,
            CopyStep::Clock => reply is Elapsed,
            CopyStep::Count { .. } | CopyStep::CountAll => reply is Pages,
            CopyStep::Finished(_) => false,
        }
    }

    open spec fn next(self, state: CopyStep, reply: CopyReply) -> CopyStep {
        match (state, reply) {
            (CopyStep::SetTimeouts { .. }, CopyReply::Done) => match text::nul_in(self.name@) {
                Some(position) => CopyStep::Finished(
                    Err(ConnectionError::NulInDatabaseName { position: position as usize }),
                ),
                None => CopyStep::Init { from: Side::Source, into: Side::Target },
            },
            (CopyStep::Init { into, .. }, CopyReply::Begun(begun)) => if begun {
                CopyStep::Step { pages: self.portion() }
            } else {
                CopyStep::ExplainInit { of: into }
            },
            (CopyStep::ExplainInit { .. }, CopyReply::Trouble { code, message }) => CopyStep::Finished(
                Err(
                    match message {
                        Some(reason) => ConnectionError::BackupInit {
                            code,
                            reason,
                            version: self.version,
                        },
                        None => ConnectionError::BackupInitUnexplained {
                            code,
                            version: self.version,
                        },
                    },
                ),
            ),
            (CopyStep::Step { .. }, CopyReply::Code(code)) => if code == SQLITE_OK {
                self.unfinished(false)
            } else if code == SQLITE_BUSY || code == SQLITE_LOCKED {
                CopyStep::Clock
            } else if code == SQLITE_DONE {
                if self.reports {
                    CopyStep::CountAll
                } else {
                    CopyStep::Finish
                }
            } else {
                CopyStep::Abort(ConnectionError::BackupFailed { code })
            },
            (CopyStep::Clock, CopyReply::Elapsed { seconds, nanoseconds }) => if seconds
                > self.seconds || (seconds == self.seconds && nanoseconds > 0) {
                CopyStep::Abort(ConnectionError::BackupTimedOut { seconds: self.seconds })
            } else {
                self.unfinished(true)
            },
            (CopyStep::Count { busy }, CopyReply::Pages { remaining, total }) => CopyStep::Report {
                remaining: remaining as i64,
                total: total as i64,
                copied: (total - remaining) as i64,
                busy,
                done: false,
            },
            (CopyStep::CountAll, CopyReply::Pages { total, .. }) => CopyStep::Report {
                remaining: 0,
                total: total as i64,
                copied: total as i64,
                busy: false,
                done: true,
            },
            (CopyStep::Report { busy, done, .. }, CopyReply::Done) => if done {
                CopyStep::Finish
            } else if busy {
                CopyStep::Sleep
            } else {
                CopyStep::Step { pages: self.portion() }
            },
            (CopyStep::Sleep, CopyReply::Done) => CopyStep::Step { pages: self.portion() },
            (CopyStep::Abort(error), CopyReply::Code(_)) => CopyStep::Finished(Err(error)),
            (CopyStep::Finish, CopyReply::Code(code)) => CopyStep::Finished(
                if code == SQLITE_OK {
                    Ok(())
                } else {
                    Err(ConnectionError::BackupFinishFailed { code })
                },
            ),
            (state, _) => state,
        }
    }
}

impl PageCopy {
    fn step(&self) -> (out: CopyStep)
        ensures
            out == (CopyStep::Step { pages: self.portion() }),
    {
        if self.pages == 0 {
            CopyStep::Step { pages: -1 }
        } else {
            CopyStep::Step { pages: self.pages }
        }
    }

    fn go_on(&self, busy: bool) -> (out: CopyStep)
        ensures
            out == self.unfinished(busy),
    {
        if self.reports {
            CopyStep::Count { busy }
        } else if busy {
            CopyStep::Sleep
        } else {
            self.step()
        }
    }

    /// The first call to make.
    pub fn start(&self) -> (out: CopyStep)
        requires
            self.wf(),
        ensures
            out == self.outset(),
            out == (CopyStep::SetTimeouts { milliseconds: (self.seconds * 1000) as i32 }),
    {
        CopyStep::SetTimeouts { milliseconds: (self.seconds * 1000) as i32 }
    }

    /// The call to make behind a reply.
    pub fn resume(&self, state: CopyStep, reply: CopyReply) -> (out: CopyStep)
        ensures
            out == self.next(state, reply),
    {
        match (state, reply) {
            (CopyStep::SetTimeouts { .. }, CopyReply::Done) => match text::nul_position(
                self.name.as_str(),
            ) {
                Some(position) => CopyStep::Finished(
                    Err(ConnectionError::NulInDatabaseName { position }),
                ),
                None => CopyStep::Init { from: Side::Source, into: Side::Target },
            },
            (CopyStep::Init { into, .. }, CopyReply::Begun(begun)) => if begun {
                self.step()
            } else {
                CopyStep::ExplainInit { of: into }
            },
            (CopyStep::ExplainInit { .. }, CopyReply::Trouble { code, message }) => {
                let version = self.version.clone();
                match message {
                    Some(reason) => CopyStep::Finished(
                        Err(ConnectionError::BackupInit { code, reason, version }),
                    ),
                    None => CopyStep::Finished(
                        Err(ConnectionError::BackupInitUnexplained { code, version }),
                    ),
                }
            },
            (CopyStep::Step { .. }, CopyReply::Code(code)) => if code == SQLITE_OK {
                self.go_on(false)
            } else if code == SQLITE_BUSY || code == SQLITE_LOCKED {
                CopyStep::Clock
            } else if code == SQLITE_DONE {
                if self.reports {
                    CopyStep::CountAll
                } else {
                    CopyStep::Finish
                }
            } else {
                CopyStep::Abort(ConnectionError::BackupFailed { code })
            },
            (CopyStep::Clock, CopyReply::Elapsed { seconds, nanoseconds }) => if seconds
                > self.seconds || (seconds == self.seconds && nanoseconds > 0) {
                CopyStep::Abort(ConnectionError::BackupTimedOut { seconds: self.seconds })
            } else {
                self.go_on(true)
            },
            (CopyStep::Count { busy }, CopyReply::Pages { remaining, total }) => CopyStep::Report {
                remaining: remaining as i64,
                total: total as i64,
                copied: total as i64 - remaining as i64,
                busy,
                done: false,
            },
            (CopyStep::CountAll, CopyReply::Pages { total, .. }) => CopyStep::Report {
                remaining: 0,
                total: total as i64,
                copied: total as i64,
                busy: false,
                done: true,
            },
            (CopyStep::Report { busy, done, .. }, CopyReply::Done) => if done {
                CopyStep::Finish
            } else if busy {
                CopyStep::Sleep
            } else {
                self.step()
            },
            (CopyStep::Sleep, CopyReply::Done) => self.step(),
            (CopyStep::Abort(error), CopyReply::Code(_)) => CopyStep::Finished(Err(error)),
            (CopyStep::Finish, CopyReply::Code(code)) => if code == SQLITE_OK {
                CopyStep::Finished(Ok(()))
            } else {
                CopyStep::Finished(Err(ConnectionError::BackupFinishFailed { code }))
            },
            (state, _) => state,
        }
    }
}

/// Whether a backup has begun and not been finished.
pub open spec fn backup_open(copy: PageCopy, replies: Seq<CopyReply>) -> bool
    decreases replies.len(),
{
    if replies.len() == 0 {
        false
    } else {
        match process::reached(copy, replies.drop_last()) {
            CopyStep::Init { .. } => replies.last()->Begun_0,
            CopyStep::Abort(_) | CopyStep::Finish => false,
            _ => backup_open(copy, replies.drop_last()),
        }
    }
}

/// A copy finishes what it has begun: SQLite's backup is open exactly while
/// pages are copied, and never once the copy has ended.
pub proof fn law_copy_finishes(copy: PageCopy, replies: Seq<CopyReply>)
    requires
        process::possible(copy, replies),
    ensures
        backup_open(copy, replies) == !(match process::reached(copy, replies) {
            CopyStep::SetTimeouts { .. }
            | CopyStep::Init { .. }
            | CopyStep::ExplainInit { .. }
            | CopyStep::Finished(_) => true,
            _ => false,
        }),
    decreases replies.len(),
{
    if replies.len() > 0 {
        law_copy_finishes(copy, replies.drop_last());
    }
}

/// A copy goes from the source into the target, and what went wrong at its
/// beginning is asked of the target.
pub proof fn law_copy_goes_from_source_to_target(copy: PageCopy, replies: Seq<CopyReply>)
    requires
        process::possible(copy, replies),
    ensures
        match process::reached(copy, replies) {
            CopyStep::Init { from, into } => from == Side::Source && into == Side::Target,
            CopyStep::ExplainInit { of } => of == Side::Target,
            _ => true,
        },
    decreases replies.len(),
{
    if replies.len() > 0 {
        law_copy_goes_from_source_to_target(copy, replies.drop_last());
    }
}

/// Whether SQLite has said that every page was copied.
pub open spec fn copied_all(copy: PageCopy, replies: Seq<CopyReply>) -> bool
    decreases replies.len(),
{
    replies.len() > 0 && {
        ||| process::reached(copy, replies.drop_last()) is Step && replies.last()
            == CopyReply::Code(SQLITE_DONE)
        ||| copied_all(copy, replies.drop_last())
    }
}

/// A copy succeeds exactly where SQLite has said that every page was copied
/// and the backup could be finished.
pub proof fn law_copy_success(copy: PageCopy, replies: Seq<CopyReply>)
    requires
        process::possible(copy, replies),
        copy.ended(process::reached(copy, replies)),
    ensures
        process::reached(copy, replies) == CopyStep::Finished(Ok(())) <==> copied_all(copy, replies)
            && replies.last() == CopyReply::Code(SQLITE_OK),
{
    lemma_copied_all(copy, replies.drop_last());
}

proof fn lemma_copied_all(copy: PageCopy, replies: Seq<CopyReply>)
    requires
        process::possible(copy, replies),
    ensures
        copied_all(copy, replies) <==> (match process::reached(copy, replies) {
            CopyStep::CountAll | CopyStep::Finish => true,
            CopyStep::Report { done, .. } => done,
            CopyStep::Finished(Ok(_)) => true,
            CopyStep::Finished(Err(error)) => error is BackupFinishFailed,
            _ => false,
        }),
        process::reached(copy, replies) matches CopyStep::Abort(error) ==> !(
        error is BackupFinishFailed),
    decreases replies.len(),
{
    if replies.len() > 0 {
        lemma_copied_all(copy, replies.drop_last());
    }
}

/// The code of the last step.
pub open spec fn last_code(copy: PageCopy, replies: Seq<CopyReply>) -> Option<i32>
    decreases replies.len(),
{
    if replies.len() == 0 {
        None
    } else if process::reached(copy, replies.drop_last()) is Step {
        Some(replies.last()->Code_0)
    } else {
        last_code(copy, replies.drop_last())
    }
}

/// Whether the last step met a lock.
pub open spec fn met_lock(copy: PageCopy, replies: Seq<CopyReply>) -> bool {
    last_code(copy, replies) == Some(SQLITE_BUSY) || last_code(copy, replies) == Some(
        SQLITE_LOCKED,
    )
}

/// A copy waits, or gives up on a lock, only where its last step met one.
pub proof fn law_copy_waits_only_on_locks(copy: PageCopy, replies: Seq<CopyReply>)
    requires
        process::possible(copy, replies),
    ensures
        match process::reached(copy, replies) {
            CopyStep::Sleep | CopyStep::Clock => met_lock(copy, replies),
            CopyStep::Abort(ConnectionError::BackupTimedOut { .. }) => met_lock(copy, replies),
            CopyStep::Count { busy } => busy == met_lock(copy, replies),
            CopyStep::Report { busy, .. } => busy == met_lock(copy, replies),
            CopyStep::CountAll => !met_lock(copy, replies),
            _ => true,
        },
    decreases replies.len(),
{
    if replies.len() > 0 {
        law_copy_waits_only_on_locks(copy, replies.drop_last());
    }
}

/// What a copy reports adds up: the pages that were copied and those that
/// remain are all the pages there are.
pub proof fn law_copy_reports_add_up(copy: PageCopy, replies: Seq<CopyReply>)
    requires
        process::possible(copy, replies),
    ensures
        process::reached(copy, replies) matches CopyStep::Report {
            remaining,
            total,
            copied,
            done,
            ..
        } ==> remaining + copied == total && (done ==> remaining == 0),
    decreases replies.len(),
{
    if replies.len() > 0 {
        law_copy_reports_add_up(copy, replies.drop_last());
    }
}

// ---------------------------------------------------------------- the whole backup

/// A slot of a connection that a backup can borrow a database connection from.
#[derive(Clone, Copy, PartialEq, Eq, Structural)]
pub enum Slot {
    Transaction,
    Callbacks,
}

/// What the error of a call is put into.
#[derive(Clone, Copy, PartialEq, Eq, Structural)]
pub enum Frame {
    /// The handle of the source could not be locked.
    LockSource,
    /// The handle of the target could not be locked.
    LockTarget,
    /// The helper for foreign connections is missing.
    Import,
    /// The helper has no function for handles.
    Lookup,
    /// The function for handles failed.
    Extract,
    /// The handle is not a number.
    Number,
}

/// The message of a framed error.
pub open spec fn framed(frame: Frame, detail: Seq<char>) -> Seq<char> {
    match frame {
        Frame::LockSource => "Failed to lock source handle: "@ + detail,
        Frame::LockTarget => "Failed to lock target handle: "@ + detail,
        Frame::Import => "Failed to import backup helper: "@ + detail
            + ". Make sure rapsqlite package is properly installed."@,
        Frame::Lookup => "Failed to get get_sqlite3_handle function: "@ + detail,
        Frame::Extract => "Failed to extract sqlite3* handle: "@ + detail,
        Frame::Number => "Failed to extract pointer value: "@ + detail,
    }
}

/// Words a framed error.
pub fn frame_text(frame: Frame, detail: &str) -> (out: String)
    ensures
        out@ == framed(frame, detail@),
{
    match frame {
        Frame::LockSource => String::from_str("Failed to lock source handle: ").concat(detail),
        Frame::LockTarget => String::from_str("Failed to lock target handle: ").concat(detail),
        Frame::Import => {
            let mut out = String::from_str("Failed to import backup helper: ");
            out.append(detail);
            out.append(". Make sure rapsqlite package is properly installed.");
            out
        },
        Frame::Lookup => String::from_str("Failed to get get_sqlite3_handle function: ").concat(
            detail,
        ),
        Frame::Extract => String::from_str("Failed to extract sqlite3* handle: ").concat(detail),
        Frame::Number => String::from_str("Failed to extract pointer value: ").concat(detail),
    }
}

/// Why a backup fails.
pub enum BackupError<E> {
    /// The library refuses it, or SQLite does.
    Refused(ConnectionError),
    /// A call failed.
    Call(E),
    /// A call failed, and its error is put into a frame.
    Framed(Frame, E),
}

/// A backup of one connection's database into another connection's.
pub struct Backup<E> {
    /// Whether the source is closed.
    pub closed: bool,
    /// Whether the target is a connection of another library.
    pub foreign: bool,
    pub errors: PhantomData<E>,
}

/// The slots that a backup has borrowed from.
#[derive(Clone, Copy, PartialEq, Eq, Structural)]
pub struct Borrowed {
    pub source: Option<Slot>,
    pub target: Option<Slot>,
}

/// The call that a backup waits for.
pub enum BackupStep<E> {
    /// Read whether this side is in a transaction and has callbacks.
    Read(Side, Borrowed),
    /// Make sure that the slot for callbacks of this side is filled.
    EnsureCallbacks(Side, Borrowed),
    /// Borrow the connection from a slot of this side.
    Borrow(Side, Slot, Borrowed),
    /// Take a connection from the pool of this side.
    Acquire(Side, Borrowed),
    /// Get the handle of a foreign connection.
    ExtractTarget(Borrowed),
    /// Lock the handle of the target and look at it.
    LockTarget(Borrowed),
    /// Lock the handle of the source and look at it. It is known whether the
    /// target's is null.
    LockSource { null_target: bool, borrowed: Borrowed },
    /// Read whether the target is outside a transaction.
    CheckTarget(Borrowed),
    /// Copy the pages.
    Copy(Borrowed),
    /// Put the connection back into the slot it was borrowed from.
    GiveBack(Side, Slot, Borrowed, Result<(), BackupError<E>>),
    /// No call is left.
    Finished(Result<(), BackupError<E>>),
}

/// What a foreign connection gives for its handle.
pub enum Extracted<E> {
    ImportFailed(E),
    LookupFailed(E),
    CallFailed(E),
    /// It gives nothing.
    Nothing,
    NotANumber(E),
    /// It gives this address.
    Address(u64),
}

/// What a call of a backup brings back.
pub enum BackupReply<E> {
    /// Whether the side is in a transaction and has callbacks.
    Condition { in_transaction: bool, has_callbacks: bool },
    /// How the call went.
    Ran(Result<(), E>),
    /// Whether there was a connection in the slot.
    Found(bool),
    /// What a foreign connection gives.
    Handle(Extracted<E>),
    /// Whether the locked handle is null.
    Locked(Result<bool, E>),
    /// Whether the target is outside a transaction.
    Autocommit(bool),
    /// How the copy went.
    Copied(Result<(), ConnectionError>),
    /// That the call is done.
    Done,
}

/// Gives back what was borrowed, the source's connection first.
pub open spec fn giving_back<E>(
    borrowed: Borrowed,
    result: Result<(), BackupError<E>>,
) -> BackupStep<E> {
    match (borrowed.source, borrowed.target) {
        (Some(slot), _) => BackupStep::GiveBack(
            Side::Source,
            slot,
            Borrowed { source: None, ..borrowed },
            result,
        ),
        (None, Some(slot)) => BackupStep::GiveBack(
            Side::Target,
            slot,
            Borrowed { target: None, ..borrowed },
            result,
        ),
        (None, None) => BackupStep::Finished(result),
    }
}

/// The error of a slot that holds no connection.
pub open spec fn empty_slot(side: Side, slot: Slot) -> ConnectionError {
    match (side, slot) {
        (Side::Source, Slot::Transaction) => ConnectionError::NoTransactionConnection,
        (Side::Source, Slot::Callbacks) => ConnectionError::NoCallbackConnection,
        (Side::Target, Slot::Transaction) => ConnectionError::NoTargetTransactionConnection,
        (Side::Target, Slot::Callbacks) => ConnectionError::NoTargetCallbackConnection,
    }
}

/// The slots with one more that was borrowed from.
pub open spec fn with_slot(borrowed: Borrowed, side: Side, slot: Slot) -> Borrowed {
    match side {
        Side::Source => Borrowed { source: Some(slot), ..borrowed },
        Side::Target => Borrowed { target: Some(slot), ..borrowed },
    }
}

impl<E> Backup<E> {
    /// Goes on once a side has its connection.
    pub open spec fn provided(self, side: Side, borrowed: Borrowed) -> BackupStep<E> {
        match side {
            Side::Source => if self.foreign {
                BackupStep::ExtractTarget(borrowed)
            } else {
                BackupStep::Read(Side::Target, borrowed)
            },
            Side::Target => BackupStep::LockTarget(borrowed),
        }
    }
}

impl<E> Process for Backup<E> {
    type State = BackupStep<E>;

    type Reply = BackupReply<E>;

    open spec fn outset(self) -> BackupStep<E> {
        if self.closed {
            BackupStep::Finished(Err(BackupError::Refused(ConnectionError::Closed)))
        } else {
            BackupStep::Read(Side::Source, Borrowed { source: None, target: None })
        }
    }

    open spec fn ended(self, state: BackupStep<E>) -> bool {
        state is Finished
    }

    open spec fn answers(self, state: BackupStep<E>, reply: BackupReply<E>) -> bool {
        match state {
            BackupStep::Read(..) => reply is Condition,
            BackupStep::EnsureCallbacks(..) | BackupStep::Acquire(..) => reply is Ran,
            BackupStep::Borrow(..) => reply is Found,
            BackupStep::ExtractTarget(_) => reply is Handle,
            BackupStep::LockTarget(_) | BackupStep::LockSource { .. } => reply is Locked,
            BackupStep::CheckTarget(_) => reply is Autocommit,
            BackupStep::Copy(_) => reply is Copied,
            BackupStep::GiveBack(..) => reply is Done,
            BackupStep::Finished(_) => false,
        }
    }

    open spec fn next(self, state: BackupStep<E>, reply: BackupReply<E>) -> BackupStep<E> {
        match (state, reply) {
            (
                BackupStep::Read(side, borrowed),
                BackupReply::Condition { in_transaction, has_callbacks },
            ) => match routing::routed(in_transaction, has_callbacks) {
                Route::Transaction => BackupStep::Borrow(side, Slot::Transaction, borrowed),
                Route::Callbacks => BackupStep::EnsureCallbacks(side, borrowed),
                Route::Session => BackupStep::Acquire(side, borrowed),
            },
            (BackupStep::EnsureCallbacks(side, borrowed), BackupReply::Ran(outcome)) =>
                match outcome {
                Ok(_) => BackupStep::Borrow(side, Slot::Callbacks, borrowed),
                Err(error) => giving_back(borrowed, Err(BackupError::Call(error))),
            },
            (BackupStep::Borrow(side, slot, borrowed), BackupReply::Found(found)) => if found {
                self.provided(side, with_slot(borrowed, side, slot))
            } else {
                giving_back(borrowed, Err(BackupError::Refused(empty_slot(side, slot))))
            },
            (BackupStep::Acquire(side, borrowed), BackupReply::Ran(outcome)) => match outcome {
                Ok(_) => self.provided(side, borrowed),
                Err(error) => giving_back(borrowed, Err(BackupError::Call(error))),
            },
            (BackupStep::ExtractTarget(borrowed), BackupReply::Handle(extracted)) =>
                match extracted {
                Extracted::ImportFailed(error) => giving_back(
                    borrowed,
                    Err(BackupError::Framed(Frame::Import, error)),
                ),
                Extracted::LookupFailed(error) => giving_back(
                    borrowed,
                    Err(BackupError::Framed(Frame::Lookup, error)),
                ),
                Extracted::CallFailed(error) => giving_back(
                    borrowed,
                    Err(BackupError::Framed(Frame::Extract, error)),
                ),
                Extracted::Nothing => giving_back(
                    borrowed,
                    Err(BackupError::Refused(ConnectionError::NoForeignHandle)),
                ),
                Extracted::NotANumber(error) => giving_back(
                    borrowed,
                    Err(BackupError::Framed(Frame::Number, error)),
                ),
                Extracted::Address(address) => if address == 0 {
                    giving_back(
                        borrowed,
                        Err(BackupError::Refused(ConnectionError::NullForeignHandle)),
                    )
                } else {
                    BackupStep::LockSource { null_target: false, borrowed }
                },
            },
            (BackupStep::LockTarget(borrowed), BackupReply::Locked(outcome)) => match outcome {
                Ok(null_target) => BackupStep::LockSource { null_target, borrowed },
                Err(error) => giving_back(
                    borrowed,
                    Err(BackupError::Framed(Frame::LockTarget, error)),
                ),
            },
            (
                BackupStep::LockSource { null_target, borrowed },
                BackupReply::Locked(outcome),
            ) => match outcome {
                Ok(null_source) => if null_source {
                    giving_back(
                        borrowed,
                        Err(BackupError::Refused(ConnectionError::NullSourceHandle)),
                    )
                } else if null_target {
                    giving_back(
                        borrowed,
                        Err(BackupError::Refused(ConnectionError::NullTargetHandle)),
                    )
                } else {
                    BackupStep::CheckTarget(borrowed)
                },
                Err(error) => giving_back(
                    borrowed,
                    Err(BackupError::Framed(Frame::LockSource, error)),
                ),
            },
            (BackupStep::CheckTarget(borrowed), BackupReply::Autocommit(autocommit)) =>
                if autocommit {
                BackupStep::Copy(borrowed)
            } else {
                giving_back(
                    borrowed,
                    Err(BackupError::Refused(ConnectionError::TargetInTransaction)),
                )
            },
            (BackupStep::Copy(borrowed), BackupReply::Copied(outcome)) => giving_back(
                borrowed,
                match outcome {
                    Ok(_) => Ok(()),
                    Err(error) => Err(BackupError::Refused(error)),
                },
            ),
            (BackupStep::GiveBack(_, _, borrowed, result), BackupReply::Done) => giving_back(
                borrowed,
                result,
            ),
            (state, _) => state,
        }
    }
}

fn give_back<E>(borrowed: Borrowed, result: Result<(), BackupError<E>>) -> (out: BackupStep<E>)
    ensures
        out == giving_back(borrowed, result),
{
    match (borrowed.source, borrowed.target) {
        (Some(slot), _) => BackupStep::GiveBack(
            Side::Source,
            slot,
            Borrowed { source: None, target: borrowed.target },
            result,
        ),
        (None, Some(slot)) => BackupStep::GiveBack(
            Side::Target,
            slot,
            Borrowed { source: None, target: None },
            result,
        ),
        (None, None) => BackupStep::Finished(result),
    }
}

fn refuse<E>(borrowed: Borrowed, error: ConnectionError) -> (out: BackupStep<E>)
    ensures
        out == giving_back::<E>(borrowed, Err(BackupError::Refused(error))),
{
    give_back(borrowed, Err(BackupError::Refused(error)))
}

fn fail_framed<E>(borrowed: Borrowed, frame: Frame, error: E) -> (out: BackupStep<E>)
    ensures
        out == giving_back::<E>(borrowed, Err(BackupError::Framed(frame, error))),
{
    give_back(borrowed, Err(BackupError::Framed(frame, error)))
}

impl<E> Backup<E> {
    fn go_on(&self, side: Side, borrowed: Borrowed) -> (out: BackupStep<E>)
        ensures
            out == self.provided(side, borrowed),
    {
        match side {
            Side::Source => if self.foreign {
                BackupStep::ExtractTarget(borrowed)
            } else {
                BackupStep::Read(Side::Target, borrowed)
            },
            Side::Target => BackupStep::LockTarget(borrowed),
        }
    }

    fn borrowed_from(&self, side: Side, slot: Slot, borrowed: Borrowed) -> (out: BackupStep<E>)
        ensures
            out == self.provided(side, with_slot(borrowed, side, slot)),
    {
        match side {
            Side::Source => self.go_on(
                Side::Source,
                Borrowed { source: Some(slot), target: borrowed.target },
            ),
            Side::Target => self.go_on(
                Side::Target,
                Borrowed { source: borrowed.source, target: Some(slot) },
            ),
        }
    }

    /// The first call to make.
    pub fn start(&self) -> (out: BackupStep<E>)
        ensures
            out == self.outset(),
    {
        if self.closed {
            BackupStep::Finished(Err(BackupError::Refused(ConnectionError::Closed)))
        } else {
            BackupStep::Read(Side::Source, Borrowed { source: None, target: None })
        }
    }

    /// The call to make behind a reply.
    pub fn resume(&self, state: BackupStep<E>, reply: BackupReply<E>) -> (out: BackupStep<E>)
        ensures
            out == self.next(state, reply),
    {
        match (state, reply) {
            (
                BackupStep::Read(side, borrowed),
                BackupReply::Condition { in_transaction, has_callbacks },
            ) => match routing::route(in_transaction, has_callbacks) {
                Route::Transaction => BackupStep::Borrow(side, Slot::Transaction, borrowed),
                Route::Callbacks => BackupStep::EnsureCallbacks(side, borrowed),
                Route::Session => BackupStep::Acquire(side, borrowed),
            },
            (BackupStep::EnsureCallbacks(side, borrowed), BackupReply::Ran(outcome)) =>
                match outcome {
                Ok(_) => BackupStep::Borrow(side, Slot::Callbacks, borrowed),
                Err(error) => give_back(borrowed, Err(BackupError::Call(error))),
            },
            (BackupStep::Borrow(side, slot, borrowed), BackupReply::Found(found)) => if found {
                self.borrowed_from(side, slot, borrowed)
            } else {
                let error = match (side, slot) {
                    (Side::Source, Slot::Transaction) => ConnectionError::NoTransactionConnection,
                    (Side::Source, Slot::Callbacks) => ConnectionError::NoCallbackConnection,
                    (Side::Target, Slot::Transaction) =>
                        ConnectionError::NoTargetTransactionConnection,
                    (Side::Target, Slot::Callbacks) =>
                        ConnectionError::NoTargetCallbackConnection,
                };
                refuse(borrowed, error)
            },
            (BackupStep::Acquire(side, borrowed), BackupReply::Ran(outcome)) => match outcome {
                Ok(_) => self.go_on(side, borrowed),
                Err(error) => give_back(borrowed, Err(BackupError::Call(error))),
            },
            (BackupStep::ExtractTarget(borrowed), BackupReply::Handle(extracted)) =>
                match extracted {
                Extracted::ImportFailed(error) => fail_framed(borrowed, Frame::Import, error),
                Extracted::LookupFailed(error) => fail_framed(borrowed, Frame::Lookup, error),
                Extracted::CallFailed(error) => fail_framed(borrowed, Frame::Extract, error),
                Extracted::Nothing => refuse(borrowed, ConnectionError::NoForeignHandle),
                Extracted::NotANumber(error) => fail_framed(borrowed, Frame::Number, error),
                Extracted::Address(address) => if address == 0 {
                    refuse(borrowed, ConnectionError::NullForeignHandle)
                } else {
                    BackupStep::LockSource { null_target: false, borrowed }
                },
            },
            (BackupStep::LockTarget(borrowed), BackupReply::Locked(outcome)) => match outcome {
                Ok(null_target) => BackupStep::LockSource { null_target, borrowed },
                Err(error) => fail_framed(borrowed, Frame::LockTarget, error),
            },
            (
                BackupStep::LockSource { null_target, borrowed },
                BackupReply::Locked(outcome),
            ) => match outcome {
                Ok(null_source) => if null_source {
                    refuse(borrowed, ConnectionError::NullSourceHandle)
                } else if null_target {
                    refuse(borrowed, ConnectionError::NullTargetHandle)
                } else {
                    BackupStep::CheckTarget(borrowed)
                },
                Err(error) => fail_framed(borrowed, Frame::LockSource, error),
            },
            (BackupStep::CheckTarget(borrowed), BackupReply::Autocommit(autocommit)) =>
                if autocommit {
                BackupStep::Copy(borrowed)
            } else {
                refuse(borrowed, ConnectionError::TargetInTransaction)
            },
            (BackupStep::Copy(borrowed), BackupReply::Copied(outcome)) => match outcome {
                Ok(_) => give_back(borrowed, Ok(())),
                Err(error) => refuse(borrowed, error),
            },
            (BackupStep::GiveBack(_, _, borrowed, result), BackupReply::Done) => give_back(
                borrowed,
                result,
            ),
            (state, _) => state,
        }
    }
}

/// The slots that are empty because the backup has borrowed from them.
pub open spec fn outstanding<E>(backup: Backup<E>, replies: Seq<BackupReply<E>>) -> Borrowed
    decreases replies.len(),
{
    if replies.len() == 0 {
        Borrowed { source: None, target: None }
    } else {
        let before = outstanding(backup, replies.drop_last());
        match process::reached(backup, replies.drop_last()) {
            BackupStep::Borrow(side, slot, _) => if replies.last()->Found_0 {
                with_slot(before, side, slot)
            } else {
                before
            },
            BackupStep::GiveBack(Side::Source, ..) => Borrowed { source: None, ..before },
            BackupStep::GiveBack(Side::Target, ..) => Borrowed { target: None, ..before },
            _ => before,
        }
    }
}

/// What a step knows to be borrowed.
spec fn known_borrowed<E>(step: BackupStep<E>) -> Borrowed {
    match step {
        BackupStep::Read(_, borrowed)
        | BackupStep::EnsureCallbacks(_, borrowed)
        | BackupStep::Borrow(_, _, borrowed)
        | BackupStep::Acquire(_, borrowed)
        | BackupStep::ExtractTarget(borrowed)
        | BackupStep::LockTarget(borrowed)
        | BackupStep::LockSource { borrowed, .. }
        | BackupStep::CheckTarget(borrowed)
        | BackupStep::Copy(borrowed) => borrowed,
        BackupStep::GiveBack(side, slot, borrowed, _) => with_slot(borrowed, side, slot),
        BackupStep::Finished(_) => Borrowed { source: None, target: None },
    }
}

/// Whether a step has borrowed no more than its place in the backup allows.
spec fn orderly<E>(step: BackupStep<E>) -> bool {
    match step {
        BackupStep::Read(side, borrowed)
        | BackupStep::EnsureCallbacks(side, borrowed)
        | BackupStep::Borrow(side, _, borrowed)
        | BackupStep::Acquire(side, borrowed) => match side {
            Side::Source => borrowed.source is None && borrowed.target is None,
            Side::Target => borrowed.target is None,
        },
        BackupStep::GiveBack(side, _, borrowed, _) => match side {
            Side::Source => borrowed.source is None,
            Side::Target => borrowed.source is None && borrowed.target is None,
        },
        _ => true,
    }
}

/// The slots that are empty behind one more call.
spec fn outstanding_after<E>(
    before: Borrowed,
    step: BackupStep<E>,
    reply: BackupReply<E>,
) -> Borrowed {
    match step {
        BackupStep::Borrow(side, slot, _) => if reply->Found_0 {
            with_slot(before, side, slot)
        } else {
            before
        },
        BackupStep::GiveBack(Side::Source, ..) => Borrowed { source: None, ..before },
        BackupStep::GiveBack(Side::Target, ..) => Borrowed { target: None, ..before },
        _ => before,
    }
}

proof fn lemma_orderly_step<E>(backup: Backup<E>, step: BackupStep<E>, reply: BackupReply<E>)
    requires
        orderly(step),
        backup.answers(step, reply),
    ensures
        orderly(backup.next(step, reply)),
        known_borrowed(backup.next(step, reply)) == outstanding_after(
            known_borrowed(step),
            step,
            reply,
        ),
{
}

proof fn lemma_outstanding<E>(backup: Backup<E>, replies: Seq<BackupReply<E>>)
    requires
        process::possible(backup, replies),
    ensures
        outstanding(backup, replies) == known_borrowed(process::reached(backup, replies)),
        orderly(process::reached(backup, replies)),
    decreases replies.len(),
{
    if replies.len() > 0 {
        let before = replies.drop_last();
        lemma_outstanding(backup, before);
        let step = process::reached(backup, before);
        lemma_orderly_step(backup, step, replies.last());
        assert(outstanding(backup, replies) == outstanding_after(
            outstanding(backup, before),
            step,
            replies.last(),
        ));
    }
}

/// A backup gives back what it borrows: once it has ended, each connection is
/// in the slot that it was taken from, however the backup went.
pub proof fn law_backup_gives_back<E>(backup: Backup<E>, replies: Seq<BackupReply<E>>)
    requires
        process::possible(backup, replies),
        backup.ended(process::reached(backup, replies)),
    ensures
        outstanding(backup, replies) == (Borrowed { source: None, target: None }),
{
    lemma_outstanding(backup, replies);
}

/// Pages are copied only between two handles, and only where the target has
/// said that it is outside a transaction.
pub proof fn law_backup_copies_between_handles<E>(backup: Backup<E>, replies: Seq<BackupReply<E>>)
    requires
        process::possible(backup, replies),
        process::reached(backup, replies) is Copy,
    ensures
        !backup.closed,
        replies.len() >= 2,
        replies.last() == BackupReply::<E>::Autocommit(true),
        replies[replies.len() - 2] == BackupReply::<E>::Locked(Ok(false)),
        process::reached(backup, replies.take(replies.len() - 2)) matches BackupStep::LockSource {
            null_target: false,
            ..
        },
{
    lemma_open_source(backup, replies);
    let before = replies.drop_last();
    assert(process::reached(backup, before) is CheckTarget);
    assert(before.len() > 0);
    let prior = before.drop_last();
    assert(process::possible(backup, before));
    assert(process::reached(backup, before) == backup.next(
        process::reached(backup, prior),
        before.last(),
    ));
    assert(process::reached(backup, prior) is LockSource);
    assert(before.last() == replies[replies.len() - 2]);
    assert(before.last()->Locked_0 is Ok);
    assert(!before.last()->Locked_0->Ok_0);
    assert(prior == replies.take(replies.len() - 2));
}

proof fn lemma_open_source<E>(backup: Backup<E>, replies: Seq<BackupReply<E>>)
    requires
        process::possible(backup, replies),
    ensures
        replies.len() > 0 ==> !backup.closed,
    decreases replies.len(),
{
    if replies.len() > 0 {
        lemma_open_source(backup, replies.drop_last());
    }
}

/// A backup succeeds exactly where its pages were copied.
pub proof fn law_backup_success<E>(backup: Backup<E>, replies: Seq<BackupReply<E>>)
    requires
        process::possible(backup, replies),
        backup.ended(process::reached(backup, replies)),
    ensures
        process::reached(backup, replies)->Finished_0 is Ok <==> exists|i: int|
            0 <= i < replies.len() && #[trigger] replies[i] == BackupReply::<E>::Copied(Ok(())),
{
    lemma_backup_copied(backup, replies);
}

proof fn lemma_backup_copied<E>(backup: Backup<E>, replies: Seq<BackupReply<E>>)
    requires
        process::possible(backup, replies),
    ensures
        (match process::reached(backup, replies) {
            BackupStep::GiveBack(_, _, _, result) | BackupStep::Finished(result) => result is Ok,
            _ => false,
        }) <==> exists|i: int|
            0 <= i < replies.len() && #[trigger] replies[i] == BackupReply::<E>::Copied(Ok(())),
    decreases replies.len(),
{
    if replies.len() > 0 {
        let before = replies.drop_last();
        lemma_backup_copied(backup, before);
        let last = replies.len() - 1;
        if exists|i: int|
            0 <= i < before.len() && #[trigger] before[i] == BackupReply::<E>::Copied(Ok(())) {
            let i = choose|i: int|
                0 <= i < before.len() && #[trigger] before[i] == BackupReply::<E>::Copied(Ok(()));
            assert(replies[i] == BackupReply::<E>::Copied(Ok(())));
        }
        if replies.last() is Copied && replies.last()->Copied_0 is Ok {
            assert(replies.last()->Copied_0->Ok_0 == ());
            assert(replies[last] == BackupReply::<E>::Copied(Ok(())));
        }
        if exists|i: int|
            0 <= i < replies.len() && #[trigger] replies[i] == BackupReply::<E>::Copied(Ok(())) {
            let i = choose|i: int|
                0 <= i < replies.len() && #[trigger] replies[i] == BackupReply::<E>::Copied(
                    Ok(()),
                );
            if i < last {
                assert(before[i] == BackupReply::<E>::Copied(Ok(())));
            }
        }
    }
}

/// How many slots are borrowed from.
pub open spec fn slots(borrowed: Borrowed) -> int {
    (if borrowed.source is Some {
        1int
    } else {
        0
    }) + if borrowed.target is Some {
        1int
    } else {
        0
    }
}

/// A bound on the calls that a backup has left to make.
pub open spec fn calls_left<E>(step: BackupStep<E>) -> int {
    match step {
        BackupStep::Read(Side::Source, _) => 16,
        BackupStep::EnsureCallbacks(Side::Source, _) => 15,
        BackupStep::Borrow(Side::Source, ..) | BackupStep::Acquire(Side::Source, _) => 14,
        BackupStep::Read(Side::Target, _) => 13,
        BackupStep::EnsureCallbacks(Side::Target, _) => 12,
        BackupStep::Borrow(Side::Target, ..) | BackupStep::Acquire(Side::Target, _) => 11,
        BackupStep::ExtractTarget(_) | BackupStep::LockTarget(_) => 10,
        BackupStep::LockSource { .. } => 9,
        BackupStep::CheckTarget(_) => 8,
        BackupStep::Copy(_) => 7,
        BackupStep::GiveBack(_, _, borrowed, _) => 1 + slots(borrowed),
        BackupStep::Finished(_) => 0,
    }
}

/// With every reply the bound on the calls that are left goes down, so that a
/// backup comes to its end.
pub proof fn law_backup_ends<E>(backup: Backup<E>, state: BackupStep<E>, reply: BackupReply<E>)
    requires
        backup.answers(state, reply),
    ensures
        0 <= calls_left(backup.next(state, reply)) < calls_left(state),
{
}

// ---------------------------------------------------------------- what a copy asks for

/// A backup waits for a lock as long as is configured, where that is between 5
/// and 120 seconds; where it is not, for the nearer of the two, and without a
/// configured time for the shorter.
pub proof fn law_patience_is_kept_in_bounds(configured: Option<u64>)
    ensures
        5 <= patience(configured) <= 120,
        configured is None ==> patience(configured) == 5,
        configured matches Some(seconds) ==> {
            &&& 5 <= seconds <= 120 ==> patience(configured) == seconds
            &&& seconds <= patience(configured) ==> seconds == patience(configured)
                || patience(configured) == 5
            &&& seconds >= patience(configured) ==> seconds == patience(configured)
                || patience(configured) == 120
        },
{
}

/// A copy first gives both handles the time that it waits, a thousand
/// milliseconds for each second, and every step asks SQLite for some pages:
/// for as many as are copied at a time, or for all of them, which is a negative
/// number, where that is zero.
pub proof fn law_copy_asks_for_pages(copy: PageCopy, replies: Seq<CopyReply>)
    requires
        process::possible(copy, replies),
        copy.wf(),
    ensures
        replies.len() == 0 <==> process::reached(copy, replies) is SetTimeouts,
        match process::reached(copy, replies) {
            CopyStep::SetTimeouts { milliseconds } => milliseconds == 1000 * copy.seconds,
            CopyStep::Step { pages } => {
                &&& pages != 0
                &&& copy.pages == 0 ==> pages < 0
                &&& copy.pages != 0 ==> pages == copy.pages
            },
            _ => true,
        },
    decreases replies.len(),
{
    if replies.len() > 0 {
        law_copy_asks_for_pages(copy, replies.drop_last());
    }
}

/// What SQLite or the clock has answered that fails a copy.
pub open spec fn copy_trouble(copy: PageCopy, replies: Seq<CopyReply>) -> Option<ConnectionError>
    decreases replies.len(),
{
    if replies.len() == 0 {
        None
    } else {
        let before = copy_trouble(copy, replies.drop_last());
        match (process::reached(copy, replies.drop_last()), replies.last()) {
            (
                CopyStep::ExplainInit { .. },
                CopyReply::Trouble { code, message: Some(reason) },
            ) => Some(ConnectionError::BackupInit { code, reason, version: copy.version }),
            (CopyStep::ExplainInit { .. }, CopyReply::Trouble { code, message: None }) => Some(
                ConnectionError::BackupInitUnexplained { code, version: copy.version },
            ),
            (CopyStep::Step { .. }, CopyReply::Code(code)) => if code != SQLITE_OK && code
                != SQLITE_DONE && code != SQLITE_BUSY && code != SQLITE_LOCKED {
                Some(ConnectionError::BackupFailed { code })
            } else {
                before
            },
            (CopyStep::Clock, CopyReply::Elapsed { seconds, nanoseconds }) => if 1_000_000_000
                * seconds + nanoseconds > 1_000_000_000 * copy.seconds {
                Some(ConnectionError::BackupTimedOut { seconds: copy.seconds })
            } else {
                before
            },
            (CopyStep::Finish, CopyReply::Code(code)) => if code != SQLITE_OK {
                Some(ConnectionError::BackupFinishFailed { code })
            } else {
                before
            },
            _ => before,
        }
    }
}

/// Whether the time that a clock gives is well formed.
pub open spec fn timely(reply: CopyReply) -> bool {
    reply matches CopyReply::Elapsed { nanoseconds, .. } ==> nanoseconds < 1_000_000_000
}

/// A copy fails with what it met and with nothing else: a backup that did not
/// begin, a code that is neither progress nor a lock, a lock that lasted longer
/// than the copy waits, a backup that did not finish, or a name with a NUL
/// byte, which is never handed to SQLite.
pub proof fn law_copy_reports_what_failed(copy: PageCopy, replies: Seq<CopyReply>)
    requires
        process::possible(copy, replies),
        forall|i: int| 0 <= i < replies.len() ==> timely(#[trigger] replies[i]),
    ensures
        match process::reached(copy, replies) {
            CopyStep::Abort(error) => copy_trouble(copy, replies) == Some(error),
            CopyStep::Finished(Ok(_)) => copy_trouble(copy, replies) is None,
            CopyStep::Finished(Err(error)) => match copy_trouble(copy, replies) {
                Some(known) => error == known,
                None => {
                    let bytes = vstd::utf8::encode_utf8(copy.name@);
                    &&& error matches ConnectionError::NulInDatabaseName { position }
                    &&& exists|i: int| 0 <= i < bytes.len() && bytes[i] == 0
                    &&& bytes.len() <= usize::MAX ==> {
                        &&& position < bytes.len()
                        &&& bytes[position as int] == 0
                        &&& forall|i: int| 0 <= i < position ==> bytes[i] != 0
                    }
                },
            },
            CopyStep::SetTimeouts { .. } => copy_trouble(copy, replies) is None,
            _ => {
                let bytes = vstd::utf8::encode_utf8(copy.name@);
                &&& copy_trouble(copy, replies) is None
                &&& forall|i: int| 0 <= i < bytes.len() ==> bytes[i] != 0
            },
        },
    decreases replies.len(),
{
    if replies.len() > 0 {
        let before = replies.drop_last();
        assert forall|i: int| 0 <= i < before.len() implies timely(#[trigger] before[i]) by {
            assert(before[i] == replies[i]);
        }
        law_copy_reports_what_failed(copy, before);
        assert(timely(replies[replies.len() - 1]));
        text::law_first_nul_is_the_first(vstd::utf8::encode_utf8(copy.name@));
    }
}

/// Whether progress has been reported since the last step, once there was one.
pub open spec fn reported_since_step(copy: PageCopy, replies: Seq<CopyReply>) -> Option<bool>
    decreases replies.len(),
{
    if replies.len() == 0 {
        None
    } else {
        match process::reached(copy, replies.drop_last()) {
            CopyStep::Step { .. } => Some(false),
            CopyStep::Report { .. } => Some(true),
            _ => reported_since_step(copy, replies.drop_last()),
        }
    }
}

/// Where progress is to be reported, it is reported behind every step that
/// does not fail, before the copy waits, steps again or finishes, and with the
/// pages that SQLite counted; where it is not, it never is. Behind a lock the
/// copy waits before it steps again.
pub proof fn law_copy_reports_every_step(copy: PageCopy, replies: Seq<CopyReply>)
    requires
        process::possible(copy, replies),
    ensures
        match process::reached(copy, replies) {
            CopyStep::Count { .. } | CopyStep::CountAll => copy.reports && reported_since_step(
                copy,
                replies,
            ) == Some(false),
            CopyStep::Report { remaining, total, copied, done, .. } => {
                &&& copy.reports
                &&& reported_since_step(copy, replies) == Some(false)
                &&& replies.last() matches CopyReply::Pages { remaining: left, total: all }
                &&& total == all
                &&& remaining == if done {
                    0
                } else {
                    left as int
                }
                &&& copied == total - remaining
                &&& done == (last_code(copy, replies) == Some(SQLITE_DONE))
            },
            CopyStep::Sleep | CopyStep::Finish => reported_since_step(copy, replies) == Some(
                copy.reports,
            ),
            CopyStep::Clock => reported_since_step(copy, replies) == Some(false),
            CopyStep::Step { .. } => {
                &&& reported_since_step(copy, replies) matches Some(reported) ==> reported
                    == copy.reports
                &&& met_lock(copy, replies) ==> process::reached(copy, replies.drop_last()) is Sleep
            },
            _ => true,
        },
        match process::reached(copy, replies) {
            CopyStep::Count { .. } => last_code(copy, replies) == Some(SQLITE_OK) || met_lock(
                copy,
                replies,
            ),
            CopyStep::CountAll => last_code(copy, replies) == Some(SQLITE_DONE),
            CopyStep::Init { .. } | CopyStep::SetTimeouts { .. } | CopyStep::ExplainInit { .. } => {
                &&& last_code(copy, replies) is None
                &&& reported_since_step(copy, replies) is None
            },
            _ => true,
        },
    decreases replies.len(),
{
    if replies.len() > 0 {
        law_copy_reports_every_step(copy, replies.drop_last());
        law_copy_waits_only_on_locks(copy, replies.drop_last());
    }
}

// ---------------------------------------------------------------- what a backup goes through

/// What a side has last said: whether it is in a transaction, and whether it
/// has callbacks.
pub open spec fn condition_of<E>(
    backup: Backup<E>,
    replies: Seq<BackupReply<E>>,
    of: Side,
) -> Option<(bool, bool)>
    decreases replies.len(),
{
    if replies.len() == 0 {
        None
    } else {
        match (process::reached(backup, replies.drop_last()), replies.last()) {
            (
                BackupStep::Read(side, _),
                BackupReply::Condition { in_transaction, has_callbacks },
            ) => if side == of {
                Some((in_transaction, has_callbacks))
            } else {
                condition_of(backup, replies.drop_last(), of)
            },
            _ => condition_of(backup, replies.drop_last(), of),
        }
    }
}

/// Whether a connection of this side is at hand: one that was found in its
/// slot, or one that was taken from its pool.
pub open spec fn connected<E>(
    backup: Backup<E>,
    replies: Seq<BackupReply<E>>,
    of: Side,
) -> bool
    decreases replies.len(),
{
    if replies.len() == 0 {
        false
    } else {
        ||| connected(backup, replies.drop_last(), of)
        ||| match (process::reached(backup, replies.drop_last()), replies.last()) {
            (BackupStep::Borrow(side, ..), BackupReply::Found(found)) => side == of && found,
            (BackupStep::Acquire(side, _), BackupReply::Ran(outcome)) => side == of
                && outcome is Ok,
            _ => false,
        }
    }
}

/// Whether the slot for callbacks of this side has been made sure of.
pub open spec fn callbacks_ensured<E>(
    backup: Backup<E>,
    replies: Seq<BackupReply<E>>,
    of: Side,
) -> bool
    decreases replies.len(),
{
    if replies.len() == 0 {
        false
    } else {
        ||| callbacks_ensured(backup, replies.drop_last(), of)
        ||| match (process::reached(backup, replies.drop_last()), replies.last()) {
            (BackupStep::EnsureCallbacks(side, _), BackupReply::Ran(outcome)) => side == of
                && outcome is Ok,
            _ => false,
        }
    }
}

/// Whether the target has a handle, as far as is known: the address that a
/// foreign connection gave is not zero, or the locked handle is not null.
pub open spec fn target_handle<E>(
    backup: Backup<E>,
    replies: Seq<BackupReply<E>>,
) -> Option<bool>
    decreases replies.len(),
{
    if replies.len() == 0 {
        None
    } else {
        match (process::reached(backup, replies.drop_last()), replies.last()) {
            (
                BackupStep::ExtractTarget(_),
                BackupReply::Handle(Extracted::Address(address)),
            ) => Some(address != 0),
            (BackupStep::LockTarget(_), BackupReply::Locked(Ok(null))) => Some(!null),
            _ => target_handle(backup, replies.drop_last()),
        }
    }
}

/// Whether this side asks the connection of its transaction, of its callbacks
/// or of its pool, as its condition has it: the transaction comes first.
pub open spec fn asks_rightly<E>(
    backup: Backup<E>,
    replies: Seq<BackupReply<E>>,
    step: BackupStep<E>,
) -> bool {
    match step {
        BackupStep::EnsureCallbacks(side, _) => condition_of(backup, replies, side) == Some(
            (false, true),
        ),
        BackupStep::Borrow(side, Slot::Transaction, _) => {
            &&& condition_of(backup, replies, side) matches Some(condition)
            &&& condition.0
        },
        BackupStep::Borrow(side, Slot::Callbacks, _) => {
            &&& condition_of(backup, replies, side) == Some((false, true))
            &&& callbacks_ensured(backup, replies, side)
        },
        BackupStep::Acquire(side, _) => condition_of(backup, replies, side) == Some(
            (false, false),
        ),
        _ => true,
    }
}

/// Whether what a step needs is at hand: the source's connection before the
/// target is turned to, the target's connection or address before handles are
/// locked, and a handle of the target that is not null before it is looked
/// into.
pub open spec fn well_supplied<E>(
    backup: Backup<E>,
    replies: Seq<BackupReply<E>>,
    step: BackupStep<E>,
) -> bool {
    match step {
        BackupStep::Read(Side::Target, _)
        | BackupStep::EnsureCallbacks(Side::Target, _)
        | BackupStep::Borrow(Side::Target, ..)
        | BackupStep::Acquire(Side::Target, _) => !backup.foreign && connected(
            backup,
            replies,
            Side::Source,
        ),
        BackupStep::ExtractTarget(_) => backup.foreign && connected(
            backup,
            replies,
            Side::Source,
        ),
        BackupStep::LockTarget(_) => {
            &&& !backup.foreign
            &&& connected(backup, replies, Side::Source)
            &&& connected(backup, replies, Side::Target)
        },
        BackupStep::LockSource { null_target, .. } => {
            &&& connected(backup, replies, Side::Source)
            &&& backup.foreign || connected(backup, replies, Side::Target)
            &&& target_handle(backup, replies) == Some(!null_target)
        },
        BackupStep::CheckTarget(_) | BackupStep::Copy(_) => {
            &&& connected(backup, replies, Side::Source)
            &&& backup.foreign || connected(backup, replies, Side::Target)
            &&& target_handle(backup, replies) == Some(true)
        },
        _ => true,
    }
}

/// A backup takes from each side the connection that the side works with, the
/// one of its transaction where it is in one, the one of its callbacks where it
/// has some, and one of its pool otherwise, and it goes on only with what it
/// needs at hand.
pub proof fn law_backup_takes_the_right_connections<E>(
    backup: Backup<E>,
    replies: Seq<BackupReply<E>>,
)
    requires
        process::possible(backup, replies),
    ensures
        asks_rightly(backup, replies, process::reached(backup, replies)),
        well_supplied(backup, replies, process::reached(backup, replies)),
    decreases replies.len(),
{
    if replies.len() > 0 {
        law_backup_takes_the_right_connections(backup, replies.drop_last());
    }
}

/// What was answered that fails a backup.
pub open spec fn backup_trouble<E>(
    backup: Backup<E>,
    replies: Seq<BackupReply<E>>,
) -> Option<BackupError<E>>
    decreases replies.len(),
{
    if replies.len() == 0 {
        None
    } else {
        let before = backup_trouble(backup, replies.drop_last());
        match (process::reached(backup, replies.drop_last()), replies.last()) {
            (
                BackupStep::EnsureCallbacks(..) | BackupStep::Acquire(..),
                BackupReply::Ran(Err(error)),
            ) => Some(BackupError::Call(error)),
            (BackupStep::Borrow(side, slot, _), BackupReply::Found(false)) => Some(
                BackupError::Refused(
                    if side == Side::Source {
                        if slot == Slot::Transaction {
                            ConnectionError::NoTransactionConnection
                        } else {
                            ConnectionError::NoCallbackConnection
                        }
                    } else {
                        if slot == Slot::Transaction {
                            ConnectionError::NoTargetTransactionConnection
                        } else {
                            ConnectionError::NoTargetCallbackConnection
                        }
                    },
                ),
            ),
            (BackupStep::ExtractTarget(_), BackupReply::Handle(extracted)) => match extracted {
                Extracted::ImportFailed(error) => Some(BackupError::Framed(Frame::Import, error)),
                Extracted::LookupFailed(error) => Some(BackupError::Framed(Frame::Lookup, error)),
                Extracted::CallFailed(error) => Some(BackupError::Framed(Frame::Extract, error)),
                Extracted::NotANumber(error) => Some(BackupError::Framed(Frame::Number, error)),
                Extracted::Nothing => Some(BackupError::Refused(ConnectionError::NoForeignHandle)),
                Extracted::Address(address) => if address == 0 {
                    Some(BackupError::Refused(ConnectionError::NullForeignHandle))
                } else {
                    before
                },
            },
            (BackupStep::LockTarget(_), BackupReply::Locked(Err(error))) => Some(
                BackupError::Framed(Frame::LockTarget, error),
            ),
            (BackupStep::LockSource { .. }, BackupReply::Locked(Err(error))) => Some(
                BackupError::Framed(Frame::LockSource, error),
            ),
            (BackupStep::LockSource { .. }, BackupReply::Locked(Ok(null_source))) =>
                if null_source {
                Some(BackupError::Refused(ConnectionError::NullSourceHandle))
            } else if target_handle(backup, replies.drop_last()) == Some(false) {
                Some(BackupError::Refused(ConnectionError::NullTargetHandle))
            } else {
                before
            },
            (BackupStep::CheckTarget(_), BackupReply::Autocommit(false)) => Some(
                BackupError::Refused(ConnectionError::TargetInTransaction),
            ),
            (BackupStep::Copy(_), BackupReply::Copied(Err(error))) => Some(
                BackupError::Refused(error),
            ),
            _ => before,
        }
    }
}

/// A backup fails with what it met and with nothing else, and goes on to the
/// end unless it met something: a source that is closed fails before any call.
pub proof fn law_backup_reports_what_failed<E>(backup: Backup<E>, replies: Seq<BackupReply<E>>)
    requires
        process::possible(backup, replies),
    ensures
        backup.closed ==> process::reached(backup, replies) == BackupStep::<E>::Finished(
            Err(BackupError::Refused(ConnectionError::Closed)),
        ),
        !backup.closed ==> match process::reached(backup, replies) {
            BackupStep::GiveBack(_, _, _, result) | BackupStep::Finished(result) => match result {
                Ok(_) => backup_trouble(backup, replies) is None,
                Err(error) => backup_trouble(backup, replies) == Some(error),
            },
            _ => backup_trouble(backup, replies) is None,
        },
    decreases replies.len(),
{
    if replies.len() > 0 {
        law_backup_reports_what_failed(backup, replies.drop_last());
        law_backup_takes_the_right_connections(backup, replies.drop_last());
    }
}

} // verus!
