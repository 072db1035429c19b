//! Statements, batches and scalar queries on the raw interface.

use rapsqlite::batch::{
    checked_bind_length, Batch, BatchReply, BatchState, BindCall, SqliteParam,
};
use rapsqlite::codes;
use rapsqlite::failure::Failure;
use rapsqlite::scalar::{
    blob_bytes, decode_text, RawScalar, ScalarFetch, ScalarReply, ScalarState,
};
use rapsqlite::statement::{
    Exec, ExecReply, ExecState, Prepare, PrepareReply, PrepareState,
};

#[test]
fn raw_bind_lengths_must_fit_sqlite_c_int() {
    assert_eq!(checked_bind_length(i32::MAX as usize), Ok(i32::MAX));
    let error = checked_bind_length(usize::MAX).unwrap_err();
    assert_eq!(error.0, libsqlite3_sys::SQLITE_TOOBIG);
}

#[test]
fn bind_length_bounds() {
    assert_eq!(checked_bind_length(0).unwrap(), 0);
    let (code, message) = checked_bind_length(i32::MAX as usize + 1).unwrap_err();
    assert_eq!(code, codes::SQLITE_TOOBIG);
    assert_eq!(
        message,
        "text or BLOB parameter exceeds SQLite's supported bind length"
    );
}

#[test]
fn codes_are_those_of_sqlite() {
    assert_eq!(codes::SQLITE_OK, libsqlite3_sys::SQLITE_OK);
    assert_eq!(codes::SQLITE_ERROR, libsqlite3_sys::SQLITE_ERROR);
    assert_eq!(codes::SQLITE_BUSY, libsqlite3_sys::SQLITE_BUSY);
    assert_eq!(codes::SQLITE_LOCKED, libsqlite3_sys::SQLITE_LOCKED);
    assert_eq!(codes::SQLITE_TOOBIG, libsqlite3_sys::SQLITE_TOOBIG);
    assert_eq!(codes::SQLITE_MISMATCH, libsqlite3_sys::SQLITE_MISMATCH);
    assert_eq!(codes::SQLITE_MISUSE, libsqlite3_sys::SQLITE_MISUSE);
    assert_eq!(codes::SQLITE_RANGE, libsqlite3_sys::SQLITE_RANGE);
    assert_eq!(codes::SQLITE_ROW, libsqlite3_sys::SQLITE_ROW);
    assert_eq!(codes::SQLITE_DONE, libsqlite3_sys::SQLITE_DONE);
    assert_eq!(codes::SQLITE_INTEGER, libsqlite3_sys::SQLITE_INTEGER);
    assert_eq!(codes::SQLITE_FLOAT, libsqlite3_sys::SQLITE_FLOAT);
    assert_eq!(codes::SQLITE_TEXT, libsqlite3_sys::SQLITE_TEXT);
    assert_eq!(codes::SQLITE_BLOB, libsqlite3_sys::SQLITE_BLOB);
    assert_eq!(codes::SQLITE_NULL, libsqlite3_sys::SQLITE_NULL);
    assert_eq!(codes::SQLITE_DENY, libsqlite3_sys::SQLITE_DENY);
    assert_eq!(codes::SQLITE_UTF8, libsqlite3_sys::SQLITE_UTF8);
    assert_eq!(codes::SQLITE_DETERMINISTIC, libsqlite3_sys::SQLITE_DETERMINISTIC);
}

// ---- statements

fn exec_all(exec: &Exec, replies: Vec<ExecReply>) -> ExecState {
    let mut state = exec.start();
    for reply in replies {
        state = exec.resume(state, reply);
    }
    state
}

#[test]
fn exec_runs_to_the_end() {
    let exec = Exec { sql: "BEGIN".to_string() };
    let state = exec_all(
        &exec,
        vec![
            ExecReply::Prepared { code: 0, statement: true },
            ExecReply::Code(codes::SQLITE_ROW),
            ExecReply::Code(codes::SQLITE_DONE),
            ExecReply::Code(0),
        ],
    );
    assert!(matches!(state, ExecState::Finished(Ok(()))));
}

#[test]
fn exec_reports_a_failed_step_behind_its_finalize() {
    let exec = Exec { sql: "COMMIT".to_string() };
    let state = exec_all(
        &exec,
        vec![
            ExecReply::Prepared { code: 0, statement: true },
            ExecReply::Code(codes::SQLITE_BUSY),
        ],
    );
    assert!(matches!(state, ExecState::Abandon { code: 5 }));
    let state = exec.resume(state, ExecReply::Code(5));
    let state = exec.resume(state, ExecReply::Message("database is locked".to_string()));
    match state {
        ExecState::Finished(Err(failure)) => {
            assert_eq!(failure.code(), 5);
            assert_eq!(failure.message(), "database is locked");
        }
        _ => panic!(),
    }
}

#[test]
fn exec_refuses_nul_and_nothing() {
    let exec = Exec { sql: "a\0b".to_string() };
    match exec.start() {
        ExecState::Finished(Err(failure)) => {
            assert!(matches!(failure, Failure::NulInStatement { position: 1 }));
            assert!(failure.message().contains("nul byte found in provided data at position: 1"));
        }
        _ => panic!(),
    }
    let exec = Exec { sql: " ".to_string() };
    let state = exec_all(&exec, vec![ExecReply::Prepared { code: 0, statement: false }]);
    assert!(matches!(state, ExecState::Finished(Err(Failure::NoStatement { .. }))));
}

fn prepare_all(prepare: &Prepare, replies: Vec<PrepareReply>) -> PrepareState {
    let mut state = prepare.start();
    for reply in replies {
        state = prepare.resume(state, reply);
    }
    state
}

#[test]
fn prepare_takes_a_statement_with_blanks_behind_it() {
    // "SELECT 1; -- done"
    let prepare = Prepare { length: 17 };
    let state = prepare_all(
        &prepare,
        vec![
            PrepareReply::Prepared { code: 0, statement: true, tail: Some(9) },
            PrepareReply::Prepared { code: 0, statement: false, tail: Some(17) },
        ],
    );
    assert!(matches!(state, PrepareState::Finished(Ok(()))));
}

#[test]
fn prepare_refuses_a_second_statement() {
    // "SELECT 1; SELECT 2"
    let prepare = Prepare { length: 18 };
    let state = prepare_all(
        &prepare,
        vec![
            PrepareReply::Prepared { code: 0, statement: true, tail: Some(9) },
            PrepareReply::Prepared { code: 0, statement: true, tail: Some(18) },
        ],
    );
    assert!(matches!(state, PrepareState::DropExtra));
    let state = prepare.resume(state, PrepareReply::Code(0));
    assert!(matches!(state, PrepareState::Drop(_)));
    let state = prepare.resume(state, PrepareReply::Code(0));
    assert!(matches!(state, PrepareState::Finished(Err(Failure::SeveralStatements))));
}

#[test]
fn prepare_refuses_a_tail_that_does_not_move() {
    let prepare = Prepare { length: 12 };
    let state = prepare_all(
        &prepare,
        vec![
            PrepareReply::Prepared { code: 0, statement: true, tail: Some(9) },
            PrepareReply::Prepared { code: 0, statement: false, tail: Some(9) },
            PrepareReply::Code(0),
        ],
    );
    assert!(matches!(state, PrepareState::Finished(Err(Failure::UnreadTail))));
}

// ---- batches

fn batch_all(batch: &Batch, replies: Vec<BatchReply>) -> BatchState {
    let mut state = batch.start();
    for reply in replies {
        state = batch.resume(state, reply);
    }
    state
}

fn insert_batch() -> Batch {
    Batch {
        query: "INSERT INTO t VALUES (?)".to_string(),
        params: vec![
            vec![SqliteParam::Int(7)],
            vec![SqliteParam::Text("abc".to_string())],
        ],
        null_handle: false,
    }
}

#[test]
fn empty_batch_makes_no_call() {
    let batch = Batch { query: "a\0".to_string(), params: vec![], null_handle: true };
    assert!(matches!(batch.start(), BatchState::Finished(Ok((0, 0)))));
}

#[test]
fn batch_refuses_null_handle_and_nul() {
    let mut batch = insert_batch();
    batch.null_handle = true;
    assert!(matches!(batch.start(), BatchState::Finished(Err(Failure::NullHandle))));
    batch.null_handle = false;
    batch.query = "INSERT\0".to_string();
    assert!(matches!(
        batch.start(),
        BatchState::Finished(Err(Failure::NulInQuery { position: 6 }))
    ));
}

#[test]
fn batch_runs_every_row_and_counts() {
    let batch = insert_batch();
    let state = batch_all(
        &batch,
        vec![
            BatchReply::Outcome(Ok(())),
            BatchReply::Outcome(Ok(())),
            BatchReply::Code(1),
            BatchReply::Code(0),
        ],
    );
    match state {
        BatchState::Bind { row: 0, column: 0, index: 1, call: BindCall::Int(7), total: 0 } => {}
        _ => panic!(),
    }
    let state = batch.resume(state, BatchReply::Bound { code: 0, message: String::new() });
    assert!(matches!(state, BatchState::ChangesBefore { row: 0, total: 0 }));
    let state = batch.resume(state, BatchReply::Code(10));
    let state = batch.resume(state, BatchReply::Code(codes::SQLITE_DONE));
    let state = batch.resume(state, BatchReply::Code(11));
    assert!(matches!(state, BatchState::CountChanges { row: 0, total: 0 }));
    let state = batch.resume(state, BatchReply::Code(3));
    assert!(matches!(state, BatchState::Reset { row: 1, total: 3 }));
    let state = batch.resume(state, BatchReply::Code(0));
    assert!(matches!(
        state,
        BatchState::Bind { row: 1, column: 0, index: 1, call: BindCall::Text { length: 3 }, total: 3 }
    ));
    let state = batch.resume(state, BatchReply::Bound { code: 0, message: String::new() });
    let state = batch.resume(state, BatchReply::Code(11));
    let state = batch.resume(state, BatchReply::Code(codes::SQLITE_DONE));
    // Without a change in the total nothing is counted.
    let state = batch.resume(state, BatchReply::Code(11));
    assert!(matches!(state, BatchState::LastRowid { total: 3 }));
    let state = batch.resume(state, BatchReply::Rowid(42));
    let state = batch.resume(state, BatchReply::Code(0));
    assert!(matches!(state, BatchState::Commit { total: 3, rowid: 42 }));
    let state = batch.resume(state, BatchReply::Outcome(Ok(())));
    assert!(matches!(state, BatchState::Finished(Ok((3, 42)))));
}

#[test]
fn batch_checks_all_rows_before_the_first_runs() {
    let mut batch = insert_batch();
    batch.params[1].push(SqliteParam::Null);
    let state = batch_all(
        &batch,
        vec![BatchReply::Outcome(Ok(())), BatchReply::Outcome(Ok(())), BatchReply::Code(1)],
    );
    assert!(matches!(
        state,
        BatchState::Abandon(Failure::BindingCount { expected: 1, provided: 2 })
    ));
    let state = batch.resume(state, BatchReply::Code(0));
    assert!(matches!(state, BatchState::Rollback(_)));
    let state = batch.resume(state, BatchReply::Outcome(Ok(())));
    match state {
        BatchState::Finished(Err(failure)) => assert_eq!(failure.code(), codes::SQLITE_RANGE),
        _ => panic!(),
    }
}

#[test]
fn batch_explains_a_failed_step_before_it_rolls_back() {
    let batch = insert_batch();
    let state = batch_all(
        &batch,
        vec![
            BatchReply::Outcome(Ok(())),
            BatchReply::Outcome(Ok(())),
            BatchReply::Code(1),
            BatchReply::Code(0),
            BatchReply::Bound { code: 0, message: String::new() },
            BatchReply::Code(0),
            BatchReply::Code(19),
        ],
    );
    assert!(matches!(state, BatchState::Explain { code: 19, held: true }));
    let text = "UNIQUE constraint failed: t.x";
    let state = batch.resume(state, BatchReply::Message(text.to_string()));
    assert!(matches!(state, BatchState::Abandon(Failure::Reported { code: 19, .. })));
    let state = batch.resume(state, BatchReply::Code(19));
    assert!(matches!(state, BatchState::Rollback(Failure::Reported { code: 19, .. })));
    match batch.resume(state, BatchReply::Outcome(Ok(()))) {
        BatchState::Finished(Err(failure)) => {
            assert_eq!(failure.code(), 19);
            assert_eq!(failure.message(), text);
        }
        _ => panic!(),
    }
}

#[test]
fn batch_explains_a_failed_finalize_before_it_rolls_back() {
    let batch = Batch {
        query: "DELETE FROM t".to_string(),
        params: vec![vec![]],
        null_handle: false,
    };
    let state = batch_all(
        &batch,
        vec![
            BatchReply::Outcome(Ok(())),
            BatchReply::Outcome(Ok(())),
            BatchReply::Code(0),
            BatchReply::Code(0),
            BatchReply::Code(0),
            BatchReply::Code(codes::SQLITE_DONE),
            BatchReply::Code(0),
            BatchReply::Rowid(0),
            BatchReply::Code(10),
        ],
    );
    assert!(matches!(state, BatchState::Explain { code: 10, held: false }));
    let state = batch.resume(state, BatchReply::Message("disk I/O error".to_string()));
    assert!(matches!(state, BatchState::Rollback(Failure::Reported { code: 10, .. })));
}

#[test]
fn batch_rolls_back_a_failed_commit() {
    let batch = Batch {
        query: "DELETE FROM t".to_string(),
        params: vec![vec![]],
        null_handle: false,
    };
    let state = batch_all(
        &batch,
        vec![
            BatchReply::Outcome(Ok(())),
            BatchReply::Outcome(Ok(())),
            BatchReply::Code(0),
            BatchReply::Code(0),
            BatchReply::Code(0),
            BatchReply::Code(codes::SQLITE_DONE),
            BatchReply::Code(0),
            BatchReply::Rowid(0),
            BatchReply::Code(0),
            BatchReply::Outcome(Err(Failure::Reported { code: 5, message: "busy".to_string() })),
        ],
    );
    assert!(matches!(state, BatchState::Rollback(Failure::Reported { code: 5, .. })));
}

#[test]
fn parameters_name_their_bind_calls() {
    assert!(matches!(SqliteParam::Null.bind_call(), Ok(BindCall::Null)));
    assert!(matches!(
        SqliteParam::Real { bits: 1.5f64.to_bits() }.bind_call(),
        Ok(BindCall::Real { bits }) if bits == 1.5f64.to_bits()
    ));
    assert!(matches!(
        SqliteParam::Blob(vec![1, 2]).bind_call(),
        Ok(BindCall::Blob { length: 2 })
    ));
    // The length counts bytes, not characters.
    assert!(matches!(
        SqliteParam::Text("\u{e9}".to_string()).bind_call(),
        Ok(BindCall::Text { length: 2 })
    ));
}

// ---- scalar queries

fn scalar_all(fetch: &ScalarFetch, replies: Vec<ScalarReply>) -> ScalarState {
    let mut state = fetch.start();
    for reply in replies {
        state = fetch.resume(state, reply);
    }
    state
}

fn scalar(blob_only: bool, caching: bool) -> ScalarFetch {
    ScalarFetch {
        query: "SELECT ?".to_string(),
        params: vec![SqliteParam::Int(1)],
        blob_only,
        caching,
        null_handle: false,
    }
}

fn bound() -> ScalarReply {
    ScalarReply::Bound { code: 0, message: String::new() }
}

#[test]
fn scalar_reads_an_integer_and_finalizes() {
    let fetch = scalar(false, false);
    let state = scalar_all(
        &fetch,
        vec![
            ScalarReply::Outcome(Ok(())),
            ScalarReply::Code(1),
            ScalarReply::Code(1),
            bound(),
            ScalarReply::Code(codes::SQLITE_ROW),
            ScalarReply::Code(codes::SQLITE_INTEGER),
            ScalarReply::Integer(9),
        ],
    );
    assert!(matches!(state, ScalarState::Finalize(Ok(Some(RawScalar::Integer(9))))));
    let state = fetch.resume(state, ScalarReply::Code(0));
    assert!(matches!(state, ScalarState::Finished(Ok(Some(RawScalar::Integer(9))))));
}

#[test]
fn kept_statements_are_released_and_not_finalized() {
    let fetch = scalar(false, true);
    let state = scalar_all(
        &fetch,
        vec![
            ScalarReply::Kept(true),
            ScalarReply::Recycled,
            ScalarReply::Code(1),
            ScalarReply::Code(1),
            bound(),
            ScalarReply::Code(codes::SQLITE_DONE),
        ],
    );
    assert!(matches!(state, ScalarState::Release(Ok(None))));
    let state = fetch.resume(state, ScalarReply::Recycled);
    assert!(matches!(state, ScalarState::Finished(Ok(None))));
}

#[test]
fn scalar_wants_a_blob_where_it_is_asked_for() {
    let fetch = scalar(true, false);
    let mut head = vec![
        ScalarReply::Outcome(Ok(())),
        ScalarReply::Code(1),
        ScalarReply::Code(1),
        bound(),
        ScalarReply::Code(codes::SQLITE_ROW),
    ];
    head.push(ScalarReply::Code(codes::SQLITE_INTEGER));
    head.push(ScalarReply::Integer(9));
    let state = scalar_all(&fetch, head);
    match state {
        ScalarState::Finalize(Err(failure)) => {
            assert!(matches!(failure, Failure::NotBlob));
            assert_eq!(failure.code(), codes::SQLITE_MISMATCH);
        }
        _ => panic!(),
    }
}

fn told(class: i32, value: ScalarReply) -> Vec<ScalarReply> {
    vec![
        ScalarReply::Code(1),
        ScalarReply::Code(1),
        bound(),
        ScalarReply::Code(codes::SQLITE_ROW),
        ScalarReply::Code(class),
        value,
    ]
}

fn fresh(fetch: &ScalarFetch, told: Vec<ScalarReply>) -> ScalarState {
    let mut replies = vec![ScalarReply::Outcome(Ok(()))];
    replies.extend(told);
    replies.push(ScalarReply::Code(codes::SQLITE_OK));
    scalar_all(fetch, replies)
}

#[test]
fn the_limit_to_blobs_leaves_blobs_alone() {
    let blob = || told(codes::SQLITE_BLOB, ScalarReply::Blob(vec![7]));
    let text = || told(codes::SQLITE_TEXT, ScalarReply::Text(Some(Ok("t".to_string()))));
    let nowhere = || told(codes::SQLITE_TEXT, ScalarReply::Text(None));
    for only in [false, true] {
        assert!(matches!(
            fresh(&scalar(only, false), blob()),
            ScalarState::Finished(Ok(Some(RawScalar::Blob(bytes)))) if bytes == vec![7]
        ));
        assert!(matches!(
            fresh(&scalar(only, false), nowhere()),
            ScalarState::Finished(Ok(Some(RawScalar::Null)))
        ));
    }
    assert!(matches!(
        fresh(&scalar(false, false), text()),
        ScalarState::Finished(Ok(Some(RawScalar::Text(value)))) if value == "t"
    ));
    match fresh(&scalar(true, false), text()) {
        ScalarState::Finished(Err(failure)) => {
            assert_eq!(failure.code(), codes::SQLITE_MISMATCH);
            assert_eq!(failure.message(), "raw blob queries must return a BLOB or NULL");
        }
        _ => panic!(),
    }
}

#[test]
fn a_kept_statement_gives_what_a_fresh_one_gives() {
    let integer = || told(codes::SQLITE_INTEGER, ScalarReply::Integer(9));
    assert!(matches!(
        fresh(&scalar(false, false), integer()),
        ScalarState::Finished(Ok(Some(RawScalar::Integer(9))))
    ));
    let mut replies = vec![ScalarReply::Kept(true), ScalarReply::Recycled];
    replies.extend(integer());
    replies.push(ScalarReply::Recycled);
    assert!(matches!(
        scalar_all(&scalar(false, true), replies),
        ScalarState::Finished(Ok(Some(RawScalar::Integer(9))))
    ));
    for taken in [false, true] {
        let mut replies = vec![ScalarReply::Kept(false), ScalarReply::Outcome(Ok(()))];
        replies.extend(integer());
        replies.insert(4, ScalarReply::Kept(taken));
        replies.push(if taken {
            ScalarReply::Recycled
        } else {
            ScalarReply::Code(codes::SQLITE_OK)
        });
        assert!(matches!(
            scalar_all(&scalar(false, true), replies),
            ScalarState::Finished(Ok(Some(RawScalar::Integer(9))))
        ));
    }
}

#[test]
fn scalar_wants_one_column_and_all_parameters() {
    let fetch = scalar(false, false);
    let state = scalar_all(&fetch, vec![ScalarReply::Outcome(Ok(())), ScalarReply::Code(2)]);
    assert!(matches!(
        state,
        ScalarState::Finalize(Err(Failure::BindingCount { expected: 2, provided: 1 }))
    ));
    let state = scalar_all(
        &fetch,
        vec![ScalarReply::Outcome(Ok(())), ScalarReply::Code(1), ScalarReply::Code(3)],
    );
    match state {
        ScalarState::Finalize(Err(failure)) => assert_eq!(
            failure.message(),
            "raw scalar queries must return exactly one column; got 3"
        ),
        _ => panic!(),
    }
}

#[test]
fn a_failed_finalize_fails_a_scalar_query() {
    let fetch = scalar(false, false);
    let state = fetch.resume(ScalarState::Finalize(Ok(None)), ScalarReply::Code(5));
    assert!(matches!(state, ScalarState::ExplainFinalize { code: 5 }));
    let state = fetch.resume(
        ScalarState::Finalize(Err(Failure::NotBlob)),
        ScalarReply::Code(5),
    );
    assert!(matches!(state, ScalarState::Finished(Err(Failure::NotBlob))));
}

#[test]
fn texts_must_be_utf8() {
    assert_eq!(decode_text(vec![0xc3, 0xa9]).ok().unwrap(), "\u{e9}");
    match decode_text(vec![b'a', 0xff]) {
        Err(Failure::NotUtf8 { reason }) => {
            assert!(reason.contains("invalid utf-8 sequence"));
        }
        _ => panic!(),
    }
    assert_eq!(blob_bytes(None), Vec::<u8>::new());
    assert_eq!(blob_bytes(Some(vec![1])), vec![1]);
}

#[test]
fn failures_carry_codes_and_messages() {
    assert_eq!(Failure::NullHandle.code(), codes::SQLITE_MISUSE);
    assert_eq!(Failure::BindLength.code(), codes::SQLITE_TOOBIG);
    assert_eq!(
        Failure::BindLength.message(),
        "text or BLOB parameter exceeds SQLite's supported bind length"
    );
    assert_eq!(
        Failure::Reported { code: 19, message: "m".to_string() }.message(),
        "m"
    );
}

#[test]
fn a_raw_batch_is_one_transaction() {
    assert_eq!(BatchState::Begin.sql(), Some("BEGIN"));
    assert_eq!(BatchState::Commit { total: 1, rowid: 1 }.sql(), Some("COMMIT"));
    assert_eq!(BatchState::Prepare.sql(), None);
}
