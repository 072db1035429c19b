//! Beginning and ending transactions, and leaving a connection.

use rapsqlite::error::{Class, ConnectionError};
use rapsqlite::settings::{check_isolation_level, find_level};
use rapsqlite::transaction::{
    begin_sql, busy_timeout_sql, in_transaction, Begin, BeginError, BeginReply, BeginStep, Books,
    End, EndReply, EndStep, Ending, IsolationLevel, Leave, LeaveReply, LeaveStep, Leaving, Phase,
    Savepoint,
};
use std::marker::PhantomData;

const IDLE: Books = Books { phase: Phase::Idle, explicit: false, held: false };
const BEGUN: Books = Books { phase: Phase::Active, explicit: true, held: true };
const IMPLICIT: Books = Books { phase: Phase::Active, explicit: false, held: true };

fn begin(closed: bool, has_callbacks: bool, books: Books) -> Begin<&'static str> {
    Begin { closed, has_callbacks, books, errors: PhantomData }
}

fn begin_all(
    begin: &Begin<&'static str>,
    replies: Vec<BeginReply<&'static str>>,
) -> BeginStep<&'static str> {
    let mut step = begin.start();
    for reply in replies {
        step = begin.resume(step, reply);
    }
    step
}

#[test]
fn statements_of_a_transaction() {
    assert_eq!(begin_sql(None), "BEGIN DEFERRED");
    assert_eq!(begin_sql(Some(IsolationLevel::Immediate)), "BEGIN IMMEDIATE");
    assert_eq!(begin_sql(Some(IsolationLevel::Exclusive)), "BEGIN EXCLUSIVE");
    assert_eq!(begin_sql(Some(IsolationLevel::Deferred)), "BEGIN DEFERRED");
    assert_eq!(busy_timeout_sql(5000), "PRAGMA busy_timeout = 5000");
    assert_eq!(Ending::Commit.sql(), "COMMIT");
    assert_eq!(Ending::Rollback.sql(), "ROLLBACK");
}

#[test]
fn isolation_levels_go_by_name() {
    assert_eq!(find_level("IMMEDIATE"), Some(IsolationLevel::Immediate));
    assert_eq!(find_level("immediate"), None);
    assert!(matches!(
        check_isolation_level(Some("deferred")),
        Ok(Some(IsolationLevel::Deferred))
    ));
    assert!(matches!(
        check_isolation_level(Some("Exclusive")),
        Ok(Some(IsolationLevel::Exclusive))
    ));
    assert!(matches!(check_isolation_level(None), Ok(None)));
    match check_isolation_level(Some("SERIALIZABLE")) {
        Err(error) => {
            assert!(error.class() == Class::Value);
            assert_eq!(
                error.message(),
                "isolation_level must be None, 'DEFERRED', 'IMMEDIATE', or 'EXCLUSIVE'"
            );
        }
        _ => panic!(),
    }
}

#[test]
fn begin_opens_a_transaction() {
    let begin = begin(false, false, IDLE);
    let step = begin_all(
        &begin,
        vec![
            BeginReply::Done,
            BeginReply::Ran(Ok(())),
            BeginReply::Books(IDLE),
            BeginReply::Ran(Ok(())),
        ],
    );
    assert!(matches!(step, BeginStep::SetTimeout));
    assert!(begin.books_before(&step).unwrap().phase == Phase::Starting);
    let step = begin.resume(step, BeginReply::Ran(Ok(())));
    assert!(matches!(step, BeginStep::BeginFresh));
    let step = begin.resume(step, BeginReply::Ran(Ok(())));
    assert!(matches!(step, BeginStep::RunHook));
    let books = begin.books_before(&step).unwrap();
    assert!(books == BEGUN);
    assert!(in_transaction(&books));
    // The hook may have ended the transaction: nothing is written behind it.
    let step = begin.resume(step, BeginReply::Ran(Ok(())));
    assert!(matches!(step, BeginStep::Finished(None, Ok(()))));
    assert!(begin.books_before(&step).is_none());
}

#[test]
fn begin_does_not_nest() {
    for books in [BEGUN, Books { phase: Phase::Starting, explicit: false, held: false }] {
        match begin(false, false, books).start() {
            BeginStep::Finished(None, Err(BeginError::Refused(error))) => {
                assert_eq!(error.message(), "Transaction already in progress");
            }
            _ => panic!(),
        }
    }
    match begin(true, false, IDLE).start() {
        BeginStep::Finished(None, Err(BeginError::Refused(error))) => {
            assert!(matches!(error, ConnectionError::Closed));
            assert!(error.class() == Class::Interface);
        }
        _ => panic!(),
    }
}

#[test]
fn begin_commits_an_implicit_transaction_first() {
    let begin = begin(false, false, IMPLICIT);
    let step = begin.start();
    assert!(matches!(step, BeginStep::CommitImplicit));
    let step = begin.resume(step, BeginReply::Ran(Ok(())));
    let step = begin.resume(step, BeginReply::Done);
    assert!(matches!(step, BeginStep::Rebegin));
    let step = begin.resume(step, BeginReply::Ran(Ok(())));
    assert!(matches!(step, BeginStep::Finished(Some(books), Ok(())) if books == BEGUN));
}

#[test]
fn begin_cleans_up_where_the_statement_fails() {
    let begin = begin(false, true, IDLE);
    let step = begin_all(
        &begin,
        vec![
            BeginReply::Done,
            BeginReply::Ran(Ok(())),
            BeginReply::Books(IDLE),
            BeginReply::Ran(Ok(())),
            BeginReply::Taken(true),
            BeginReply::Ran(Ok(())),
            BeginReply::Ran(Err("locked")),
        ],
    );
    assert!(matches!(step, BeginStep::CleanUp(_)));
    let step = begin.resume(step, BeginReply::Done);
    assert!(matches!(
        step,
        BeginStep::Finished(Some(books), Err(BeginError::Call("locked"))) if books == IDLE
    ));
}

fn end(ending: Ending, has_callbacks: bool, books: Books) -> End<&'static str> {
    End { ending, has_callbacks, books, errors: PhantomData }
}

#[test]
fn ending_outside_a_transaction_does_nothing() {
    for ending in [Ending::Commit, Ending::Rollback] {
        assert!(matches!(
            end(ending, false, IDLE).start(),
            EndStep::Finished(books, Ok(())) if books == IDLE
        ));
    }
}

#[test]
fn commit_ends_a_transaction() {
    let end = end(Ending::Commit, false, BEGUN);
    let step = end.resume(end.start(), EndReply::Ran(Ok(())));
    assert!(matches!(step, EndStep::Drop));
    let step = end.resume(step, EndReply::Done);
    assert!(matches!(step, EndStep::Finished(books, Ok(())) if books == IDLE));
}

#[test]
fn a_failed_commit_leaves_the_transaction_open() {
    let end = end(Ending::Commit, false, BEGUN);
    let step = end.resume(end.start(), EndReply::Ran(Err("busy")));
    let step = end.resume(step, EndReply::Open(Some(true)));
    assert!(matches!(step, EndStep::Finished(books, Err("busy")) if books == BEGUN));
}

#[test]
fn a_failed_commit_that_ended_the_transaction_clears_the_books() {
    let end = end(Ending::Commit, false, BEGUN);
    let step = end.resume(end.start(), EndReply::Ran(Err("full")));
    let step = end.resume(step, EndReply::Open(Some(false)));
    assert!(matches!(step, EndStep::CleanUp("full")));
    let step = end.resume(step, EndReply::Done);
    assert!(matches!(step, EndStep::Finished(books, Err("full")) if books == IDLE));
}

fn leave(leaving: Leaving, books: Books) -> Leave<&'static str> {
    Leave { leaving, books, errors: PhantomData }
}

#[test]
fn a_clean_exit_commits_what_was_never_begun() {
    let leave = leave(Leaving::Exit { clean: true }, IMPLICIT);
    assert!(leave.ending() == Ending::Commit);
    let step = leave.start();
    assert!(matches!(step, LeaveStep::Run(Ending::Commit)));
    let step = leave.resume(step, LeaveReply::Ran(Ok(())));
    let step = leave.resume(step, LeaveReply::Open(Some(false)));
    assert!(matches!(step, LeaveStep::Release(None)));
    assert!(leave.books_after() == IDLE);
}

#[test]
fn an_explicit_transaction_is_rolled_back_on_exit() {
    for leaving in [Leaving::Exit { clean: true }, Leaving::Exit { clean: false }] {
        let leave = leave(leaving, BEGUN);
        assert!(matches!(leave.start(), LeaveStep::Run(Ending::Rollback)));
    }
}

#[test]
fn a_connection_that_stays_in_a_transaction_is_discarded() {
    let leave = leave(Leaving::Exit { clean: true }, IMPLICIT);
    let step = leave.resume(leave.start(), LeaveReply::Ran(Err("foreign key")));
    let step = leave.resume(step, LeaveReply::Open(Some(true)));
    assert!(matches!(step, LeaveStep::Undo(Some("foreign key"))));
    let step = leave.resume(step, LeaveReply::Done);
    let step = leave.resume(step, LeaveReply::Open(None));
    assert!(matches!(step, LeaveStep::Discard(Some("foreign key"))));
    let step = leave.resume(step, LeaveReply::Done);
    let step = leave.resume(step, LeaveReply::Taken(false));
    let step = leave.resume(step, LeaveReply::Done);
    assert!(matches!(step, LeaveStep::Finished(Err("foreign key"))));
}

#[test]
fn closing_gives_the_session_up_first() {
    let leave = leave(Leaving::Close, IDLE);
    let step = leave.start();
    assert!(matches!(step, LeaveStep::ReleaseSession));
    let step = leave.resume(step, LeaveReply::Done);
    assert!(matches!(step, LeaveStep::TakeCallbacks(None)));
    let step = leave.resume(step, LeaveReply::Taken(true));
    let step = leave.resume(step, LeaveReply::Ran(Ok(())));
    let step = leave.resume(step, LeaveReply::Done);
    assert!(matches!(step, LeaveStep::LeavePool(None)));
    let step = leave.resume(step, LeaveReply::Done);
    assert!(matches!(step, LeaveStep::Finished(Ok(()))));
}

#[test]
fn blocks_end_by_how_they_are_left() {
    assert!(Ending::of_block(true) == Ending::Commit);
    assert!(Ending::of_block(false) == Ending::Rollback);
    assert_eq!(Savepoint::Enter.sql("sp"), "SAVEPOINT \"sp\"");
    assert_eq!(Savepoint::Leave { clean: true }.sql("a\"b"), "RELEASE SAVEPOINT \"a\"\"b\"");
    assert_eq!(Savepoint::Leave { clean: false }.sql("sp"), "ROLLBACK TO SAVEPOINT \"sp\"");
}

#[test]
fn the_trace_callback_sees_what_begins_and_ends() {
    let begin = begin(false, false, IMPLICIT);
    let level = Some(IsolationLevel::Immediate);
    assert_eq!(begin.traced(&BeginStep::CommitImplicit, level), Some("COMMIT".to_string()));
    assert_eq!(begin.traced(&BeginStep::Rebegin, level), Some("BEGIN IMMEDIATE".to_string()));
    assert_eq!(begin.traced(&BeginStep::BeginFresh, None), Some("BEGIN DEFERRED".to_string()));
    assert_eq!(begin.traced(&BeginStep::Retime, level), None);
    assert_eq!(begin.traced(&BeginStep::SetTimeout, level), None);
    let end = End::<&str> {
        ending: Ending::Rollback,
        has_callbacks: false,
        books: BEGUN,
        errors: PhantomData,
    };
    assert_eq!(end.traced(&EndStep::Run), Some("ROLLBACK"));
    assert_eq!(end.traced(&EndStep::Drop), None);
}
