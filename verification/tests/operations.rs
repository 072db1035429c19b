//! Finding a connection, running on it, and what is made of the result.

use rapsqlite::batch::SqliteParam;
use rapsqlite::codes;
use rapsqlite::cursor::{Cursor, Statement};
use rapsqlite::error::{ensure_not_closed, Class, ConnectionError};
use rapsqlite::fetch::{
    batch_query, check_blob, check_fetch_all, check_insert, first_row, keeps_statements, one_row,
    optional_row, raw_error, sqlite_class, total_changes_value, RawError,
};
use rapsqlite::interrupt::{Interrupt, InterruptReply, InterruptStep};
use rapsqlite::many::{Many, ManyError, ManyReply, ManyStep, Tally};
use rapsqlite::operation::{
    lock_text, missing_connection, ApproachReply, ApproachStep, LockFrame, Operation,
    OperationError, OperationReply, OperationStep,
};
use rapsqlite::requests::Request;
use rapsqlite::routing::{route, Route};
use std::marker::PhantomData;

type Step = ApproachStep<&'static str>;
type Reply = ApproachReply<&'static str>;

fn approach_all(request: Request, replies: Vec<Reply>) -> Step {
    let approach = request.approach::<&'static str>(false);
    let mut step = approach.start();
    for reply in replies {
        step = approach.resume(step, reply);
    }
    step
}

#[test]
fn transactions_come_before_callbacks() {
    assert_eq!(route(true, true), Route::Transaction);
    assert_eq!(route(true, false), Route::Transaction);
    assert_eq!(route(false, true), Route::Callbacks);
    assert_eq!(route(false, false), Route::Session);
}

#[test]
fn a_closed_connection_answers_nothing() {
    assert!(ensure_not_closed(false).is_ok());
    assert!(ensure_not_closed(true).is_err());
    for request in [
        Request::FetchAll,
        Request::FetchOne,
        Request::FetchOptional,
        Request::FetchScalar,
        Request::RawFetchScalar,
        Request::ExecuteInsert,
        Request::ExecuteMany,
        Request::TotalChanges,
        Request::Introspection,
        Request::Cache,
        Request::Dump,
    ] {
        assert!(matches!(
            request.approach::<&'static str>(true).start(),
            ApproachStep::Finished(Err(OperationError::Refused(ConnectionError::Closed)))
        ));
    }
}

#[test]
fn a_fetch_traces_then_prepares() {
    let step = approach_all(
        Request::FetchAll,
        vec![
            Reply::Done,
            Reply::Flag(false),
            Reply::Ran(Ok(())),
            Reply::Ran(Ok(())),
            Reply::Flag(false),
        ],
    );
    assert!(matches!(step, Step::ReadCallbacks { in_transaction: false }));
    let approach = Request::FetchAll.approach::<&'static str>(false);
    assert!(matches!(
        approach.resume(step, Reply::Flag(true)),
        Step::Finished(Ok(Route::Callbacks))
    ));
    assert!(matches!(
        approach_all(Request::FetchOptional, vec![]),
        Step::ReadTransaction
    ));
}

#[test]
fn a_hook_that_ends_the_transaction_makes_a_pool_needed() {
    let step = approach_all(
        Request::FetchOne,
        vec![Reply::Done, Reply::Flag(true), Reply::Ran(Ok(())), Reply::Flag(false)],
    );
    assert!(matches!(step, Step::OpenPoolLate));
}

#[test]
fn raw_scalars_refuse_callbacks_at_both_ends() {
    let step = approach_all(Request::RawFetchScalar, vec![Reply::Done, Reply::Flag(true)]);
    match step {
        Step::Finished(Err(OperationError::Refused(error))) => {
            assert!(error.class() == Class::NotSupported);
            assert_eq!(
                error.message(),
                "raw_fetch_scalar() is unavailable when SQLite callbacks are configured"
            );
        }
        _ => panic!(),
    }
    let step = approach_all(
        Request::RawFetchScalar,
        vec![
            Reply::Done,
            Reply::Flag(false),
            Reply::Flag(true),
            Reply::Ran(Ok(())),
            Reply::Flag(true),
            Reply::Flag(true),
        ],
    );
    assert!(matches!(
        step,
        Step::Finished(Err(OperationError::Refused(ConnectionError::RawWithCallbacks)))
    ));
}

#[test]
fn a_cache_request_sees_that_the_hook_closed_the_connection() {
    let head = || {
        vec![Reply::Done, Reply::Flag(false), Reply::Ran(Ok(())), Reply::Ran(Ok(()))]
    };
    let mut replies = head();
    replies.push(Reply::Flag(true));
    assert!(matches!(
        approach_all(Request::Cache, replies),
        Step::Finished(Err(OperationError::Refused(ConnectionError::Closed)))
    ));
    let mut replies = head();
    replies.push(Reply::Flag(false));
    replies.push(Reply::Flag(false));
    assert!(matches!(
        approach_all(Request::Cache, replies),
        Step::Finished(Ok(Route::Session))
    ));
}

#[test]
fn introspection_trusts_what_it_read_first() {
    let step = approach_all(
        Request::Introspection,
        vec![Reply::Flag(true), Reply::Ran(Ok(()))],
    );
    assert!(matches!(step, Step::ReadCallbacks { in_transaction: true }));
}

fn operation_all(
    operation: &Operation<u32, &'static str>,
    replies: Vec<OperationReply<u32, &'static str>>,
) -> OperationStep<u32, &'static str> {
    let mut step = operation.start();
    for reply in replies {
        step = operation.resume(step, reply);
    }
    step
}

#[test]
fn a_run_with_callbacks_gives_the_connection_up_even_where_it_fails() {
    let operation = Request::FetchAll.operation(Route::Callbacks);
    let step = operation_all(
        &operation,
        vec![
            OperationReply::Ran(Ok(())),
            OperationReply::Found(true),
            OperationReply::Result(Err("syntax")),
        ],
    );
    assert!(matches!(step, OperationStep::Discard(_)));
    let step = operation.resume(step, OperationReply::Done);
    assert!(matches!(step, OperationStep::Finished(Err(OperationError::Call("syntax")))));
    let kept = Request::Introspection.operation(Route::Callbacks);
    let step = operation_all(
        &kept,
        vec![
            OperationReply::Ran(Ok(())),
            OperationReply::Found(true),
            OperationReply::Result(Ok(3)),
        ],
    );
    assert!(matches!(step, OperationStep::Finished(Ok(3))));
}

#[test]
fn an_empty_slot_is_reported_by_its_name() {
    for (route, message) in [
        (Route::Transaction, "Transaction connection not available"),
        (Route::Callbacks, "Callback connection not available"),
        (Route::Session, "Session connection not available"),
    ] {
        let error = missing_connection(route);
        assert!(error.class() == Class::Operational);
        assert_eq!(error.message(), message);
    }
    let operation = Request::FetchAll.operation(Route::Transaction);
    let step = operation_all(&operation, vec![OperationReply::Found(false)]);
    assert!(matches!(
        step,
        OperationStep::Finished(Err(OperationError::Refused(
            ConnectionError::NoTransactionConnection
        )))
    ));
}

#[test]
fn handles_are_locked_where_they_are_used_raw() {
    let operation = Request::TotalChanges.operation(Route::Session);
    let step = operation_all(
        &operation,
        vec![
            OperationReply::Ran(Ok(())),
            OperationReply::Found(true),
            OperationReply::Ran(Err("gone")),
        ],
    );
    assert!(matches!(
        step,
        OperationStep::Finished(Err(OperationError::Lock(LockFrame::Handle, "gone")))
    ));
    assert_eq!(lock_text(LockFrame::Handle, "gone"), "Failed to lock handle: gone");
    assert_eq!(
        lock_text(LockFrame::SqliteHandle, "gone"),
        "Failed to lock SQLite handle: gone"
    );
    let insert: Operation<u32, &'static str> = Request::ExecuteInsert.operation(Route::Session);
    assert!(matches!(insert.start(), OperationStep::OpenPool));
}

// ---- results

#[test]
fn row_counts_are_checked() {
    assert!(matches!(one_row(vec![7]), Ok(7)));
    assert!(matches!(one_row(Vec::<i32>::new()), Err(ConnectionError::NoRow)));
    assert!(matches!(one_row(vec![7, 8]), Err(ConnectionError::SeveralRows)));
    assert!(matches!(optional_row(Vec::<i32>::new()), Ok(None)));
    assert!(matches!(optional_row(vec![7]), Ok(Some(7))));
    assert!(matches!(optional_row(vec![7, 8]), Err(ConnectionError::SeveralRows)));
    assert_eq!(first_row(vec![7, 8]), Some(7));
    assert_eq!(first_row(Vec::<i32>::new()), None);
    for error in [ConnectionError::NoRow, ConnectionError::SeveralRows, ConnectionError::NotSelect] {
        assert!(error.class() == Class::Programming);
    }
    assert!(check_fetch_all(true).is_ok());
    assert!(check_fetch_all(false).is_err());
    assert!(check_insert(false).is_ok());
    assert_eq!(
        check_insert(true).err().unwrap().message(),
        "execute_insert expects INSERT/UPDATE/DELETE, not SELECT"
    );
}

#[test]
fn blobs_are_required_where_asked_for() {
    assert!(check_blob(false, false, "TEXT").is_ok());
    assert!(check_blob(true, true, "TEXT").is_ok());
    assert!(check_blob(true, false, "BLOB").is_ok());
    let error = check_blob(true, false, "TEXT").err().unwrap();
    assert!(error.class() == Class::Type);
    assert_eq!(error.message(), "fetch_blob() requires a BLOB or NULL result");
}

#[test]
fn totals_of_changes_are_unsigned() {
    assert_eq!(total_changes_value(5), 5);
    assert_eq!(total_changes_value(-1), (-1i32) as u64);
}

#[test]
fn raw_failures_are_reported_by_kind() {
    match raw_error(true, codes::SQLITE_MISMATCH, "m".to_string()) {
        RawError::Refused(error) => {
            assert!(error.class() == Class::Type);
            assert_eq!(error.message(), "m");
        }
        _ => panic!(),
    }
    assert!(matches!(
        raw_error(false, codes::SQLITE_MISMATCH, "m".to_string()),
        RawError::Sqlite { code: 20, .. }
    ));
    let complaint = "raw scalar queries must return exactly one column; got ";
    match raw_error(false, codes::SQLITE_ERROR, format!("{complaint}0")) {
        RawError::Refused(error) => assert_eq!(
            error.message(),
            "raw_fetch_scalar() requires a statement that returns rows"
        ),
        _ => panic!(),
    }
    match raw_error(false, codes::SQLITE_ERROR, format!("{complaint}12")) {
        RawError::Refused(error) => assert_eq!(
            error.message(),
            "raw_fetch_scalar() requires exactly one result column; got 12"
        ),
        _ => panic!(),
    }
    // The low byte of an extended code is its kind.
    assert!(matches!(
        raw_error(false, 0x0105, "locked".to_string()),
        RawError::Sqlite { code: 0x0105, .. }
    ));
}

type Rows = Cursor<Vec<i64>, &'static str>;

fn run_again(closed: bool, given: Option<Rows>) -> Result<Rows, ConnectionError> {
    let statement = Statement { query: "SELECT ?".to_string(), params: vec![SqliteParam::Int(3)] };
    Cursor::execute(closed, given, "SELECT :a".to_string(), Some(8), statement)
}

#[test]
fn cursors_start_over() {
    let mut cursor = Rows::new();
    assert_eq!(cursor.query, "");
    assert!((cursor.index, cursor.lastrowid, cursor.rowcount, cursor.arraysize) == (0, -1, -1, 1));
    cursor.index = 4;
    cursor.rowcount = 9;
    cursor.arraysize = 10;
    cursor.rows = Some(vec![1]);
    cursor.description = Some("a");
    let mut cursor = run_again(false, Some(cursor)).ok().unwrap();
    assert!((cursor.index, cursor.lastrowid, cursor.rowcount, cursor.arraysize) == (0, -1, -1, 10));
    assert!(cursor.rows.is_none() && cursor.description.is_none());
    assert_eq!(cursor.query, "SELECT :a");
    assert_eq!(cursor.statement.as_ref().unwrap().query, "SELECT ?");
    cursor.closed = true;
    assert_eq!(
        run_again(false, Some(cursor)).err().unwrap().message(),
        "Cannot operate on a closed cursor."
    );
    assert_eq!(run_again(true, None).err().unwrap().message(), "connection is closed");
    let cursor = run_again(false, None).ok().unwrap();
    assert_eq!((cursor.arraysize, cursor.parameters), (1, Some(8)));
    let waiting = Rows::with_query("SELECT 1".to_string(), None);
    assert!(waiting.statement.is_none());
}

#[test]
fn parameter_sets_bind_in_one_style() {
    let q = |s: &str| s.to_string();
    assert_eq!(batch_query(q("SELECT :a"), &vec![]).ok().unwrap(), "SELECT :a");
    assert_eq!(
        batch_query(q("SELECT :a"), &vec![q("SELECT ?"), q("SELECT ?")]).ok().unwrap(),
        "SELECT ?"
    );
    assert_eq!(
        batch_query(q("SELECT :a"), &vec![q("SELECT ?"), q("SELECT :a")])
            .err()
            .unwrap()
            .message(),
        "executemany parameter sets must use the same binding style"
    );
}

// ---- many

fn many(route: Route, sets: usize) -> Many<&'static str> {
    Many { route, sets, errors: PhantomData }
}

fn many_all(
    many: &Many<&'static str>,
    replies: Vec<ManyReply<&'static str>>,
) -> ManyStep<&'static str> {
    let mut step = many.start();
    for reply in replies {
        step = many.resume(step, reply);
    }
    step
}

#[test]
fn sets_add_up_inside_a_transaction() {
    let many = many(Route::Transaction, 2);
    let step = many_all(
        &many,
        vec![
            ManyReply::Found(true),
            ManyReply::RanSet(Ok(Tally { changes: 1, rowid: 5 })),
            ManyReply::Found(true),
            ManyReply::RanSet(Ok(Tally { changes: 2, rowid: 6 })),
        ],
    );
    assert!(matches!(
        step,
        ManyStep::Finished(Ok(tally)) if tally == Tally { changes: 3, rowid: 6 }
    ));
}

#[test]
fn a_failed_set_rolls_the_own_transaction_back() {
    let many = many(Route::Callbacks, 2);
    let step = many_all(
        &many,
        vec![
            ManyReply::Ran(Ok(())),
            ManyReply::Found(true),
            ManyReply::Ran(Ok(())),
            ManyReply::RanSet(Err("unique")),
        ],
    );
    assert!(matches!(step, ManyStep::Rollback(_)));
    let step = many.resume(step, ManyReply::Ran(Err("io")));
    assert!(matches!(step, ManyStep::CloseConnection(_)));
    let step = many.resume(step, ManyReply::Done);
    let step = many.resume(step, ManyReply::Done);
    assert!(matches!(step, ManyStep::Finished(Err(ManyError::Call("unique")))));
}

#[test]
fn a_session_runs_one_raw_batch() {
    let many = many(Route::Session, 2);
    let step = many_all(
        &many,
        vec![
            ManyReply::Ran(Ok(())),
            ManyReply::Found(true),
            ManyReply::Ran(Ok(())),
            ManyReply::RanRaw(Ok((2, 8))),
        ],
    );
    assert!(matches!(
        step,
        ManyStep::Finished(Ok(tally)) if tally == Tally { changes: 2, rowid: 8 }
    ));
}

// ---- interrupting

fn interrupt(closed: bool, has_callbacks: bool) -> Interrupt<&'static str> {
    Interrupt { closed, has_callbacks, errors: PhantomData }
}

#[test]
fn without_callbacks_nothing_is_interrupted() {
    assert!(matches!(
        interrupt(false, false).start(),
        InterruptStep::Finished(Ok(()))
    ));
    assert!(matches!(
        interrupt(true, true).start(),
        InterruptStep::Finished(Err(OperationError::Refused(ConnectionError::Closed)))
    ));
}

#[test]
fn the_first_active_handle_is_interrupted() {
    let interrupt = interrupt(false, true);
    let step = interrupt.start();
    let step = interrupt.resume(step, InterruptReply::Found(false));
    assert!(matches!(
        step,
        InterruptStep::InterruptActive { slot: Route::Transaction, again: false }
    ));
    let step = interrupt.resume(step, InterruptReply::Found(true));
    assert!(matches!(step, InterruptStep::Finished(Ok(()))));
}

#[test]
fn an_idle_callback_connection_is_interrupted_last() {
    let interrupt = interrupt(false, true);
    let mut step = interrupt.start();
    for _ in 0..5 {
        step = interrupt.resume(step, InterruptReply::Found(false));
    }
    assert!(matches!(step, InterruptStep::TakeCallbacks));
    step = interrupt.resume(step, InterruptReply::Found(true));
    step = interrupt.resume(step, InterruptReply::Locked(Ok(())));
    assert!(matches!(step, InterruptStep::Interrupt));
    step = interrupt.resume(step, InterruptReply::Done);
    assert!(matches!(step, InterruptStep::Finished(Ok(()))));
}

#[test]
fn a_batch_of_its_own_is_one_transaction() {
    let tally = Tally { changes: 0, rowid: 0 };
    assert_eq!(ManyStep::<()>::Begin.sql(), Some("BEGIN"));
    assert_eq!(ManyStep::<()>::Commit { tally }.sql(), Some("COMMIT"));
    assert_eq!(ManyStep::Rollback(ManyError::Call("unique")).sql(), Some("ROLLBACK"));
    assert_eq!(ManyStep::<()>::RunRaw.sql(), None);
}

#[test]
fn statements_are_kept_with_the_session() {
    assert!(keeps_statements(Route::Session, true));
    assert!(!keeps_statements(Route::Session, false));
    assert!(!keeps_statements(Route::Transaction, true));
}

#[test]
fn errors_of_sqlite_have_classes() {
    assert!(sqlite_class(codes::SQLITE_CONSTRAINT, "UNIQUE constraint failed: t.x") == Class::Integrity);
    assert!(sqlite_class(2067, "UNIQUE constraint failed: t.x") == Class::Integrity);
    assert!(sqlite_class(codes::SQLITE_ERROR, "near \"SELEC\": syntax error") == Class::Programming);
    assert!(sqlite_class(codes::SQLITE_ERROR, "no such table: t") == Class::Operational);
    assert!(sqlite_class(codes::SQLITE_BUSY, "database is locked") == Class::Operational);
}
