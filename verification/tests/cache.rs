//! Cache tables.

use rapsqlite::batch::SqliteParam;
use rapsqlite::cache::{
    cached_value, check_ttl, cleanup_expired_operation, delete_operation, get_operation,
    initialize_operation, quoted_identifier, quoted_table_name, raw_slot, set_operation, CacheKind,
    CacheOperation, CacheReply, CacheResult, CacheRun, CacheStep,
};
use rapsqlite::error::{Class, ConnectionError};
use rapsqlite::operation::{LockFrame, OperationError};
use rapsqlite::routing::Route;
use rapsqlite::scalar::RawScalar;
use std::marker::PhantomData;

#[test]
fn table_names_are_identifiers() {
    assert_eq!(quoted_table_name("cache_1").ok().unwrap(), "\"cache_1\"");
    assert_eq!(quoted_table_name(&"a".repeat(100)).ok().unwrap().len(), 102);
    for name in ["", "1a", "a-b", "a\"b", "caf\u{e9}", "a:b", &"a".repeat(101)] {
        let error = quoted_table_name(name).err().unwrap();
        assert!(error.class() == Class::Value);
        assert_eq!(
            error.message(),
            "table_name must be a SQLite identifier of 1 to 100 letters, digits, and underscores, starting with a letter or underscore"
        );
    }
    assert_eq!(quoted_identifier("_x9").ok().unwrap(), "\"_x9\"");
    assert_eq!(quoted_identifier("9x").err().unwrap().message(), "invalid SQLite identifier");
}

#[test]
fn statements_of_a_cache_table() {
    match initialize_operation("c").ok().unwrap() {
        CacheOperation::Initialize { create_table, create_index } => {
            assert_eq!(
                create_table,
                "CREATE TABLE IF NOT EXISTS \"c\" (key TEXT PRIMARY KEY NOT NULL, value BLOB NOT NULL, expires_at REAL) WITHOUT ROWID"
            );
            assert_eq!(
                create_index,
                "CREATE INDEX IF NOT EXISTS \"rapsqlite_cache_expiration:c\" ON \"c\" (expires_at) WHERE expires_at IS NOT NULL"
            );
        }
        _ => panic!(),
    }
    let get = get_operation("c", "k".to_string()).ok().unwrap();
    assert_eq!(
        get.queries(),
        vec!["SELECT value FROM \"c\" WHERE key = ? AND (expires_at IS NULL OR expires_at > ?)"
            .to_string()]
    );
    let set = set_operation("c", "k".to_string(), vec![1], None).ok().unwrap();
    assert_eq!(
        set.queries(),
        vec!["INSERT INTO \"c\" (key, value, expires_at) VALUES (?, ?, ?) ON CONFLICT(key) DO UPDATE SET value = excluded.value, expires_at = excluded.expires_at".to_string()]
    );
    let delete = delete_operation("c", "k".to_string()).ok().unwrap();
    assert_eq!(delete.queries(), vec!["DELETE FROM \"c\" WHERE key = ?".to_string()]);
    let cleanup = cleanup_expired_operation("c", 5).ok().unwrap();
    assert_eq!(
        cleanup.queries(),
        vec!["DELETE FROM \"c\" WHERE key IN (SELECT key FROM \"c\" WHERE expires_at IS NOT NULL AND expires_at <= ? ORDER BY expires_at LIMIT ?)".to_string()]
    );
    assert_eq!(initialize_operation("c").ok().unwrap().queries().len(), 2);
}

#[test]
fn a_cleanup_must_be_allowed_something() {
    let error = cleanup_expired_operation("not ok", 0).err().unwrap();
    assert_eq!(error.message(), "limit must be at least 1");
    assert!(matches!(
        cleanup_expired_operation("not ok", 1),
        Err(ConnectionError::InvalidTableName)
    ));
}

#[test]
fn times_to_live_are_checked() {
    for good in [0.0f64, -0.0, 1.5, f64::MAX] {
        assert!(check_ttl(good.to_bits()).is_ok());
    }
    for bad in [-1.0f64, -5e-324, f64::NAN, f64::INFINITY, f64::NEG_INFINITY] {
        assert_eq!(
            check_ttl(bad.to_bits()).err().unwrap().message(),
            "ttl must be finite and non-negative"
        );
    }
}

fn run(kind: CacheKind, raw: bool) -> CacheRun<&'static str> {
    CacheRun { kind, in_transaction: true, raw, errors: PhantomData }
}

fn run_all(
    run: &CacheRun<&'static str>,
    replies: Vec<CacheReply<&'static str>>,
) -> CacheStep<&'static str> {
    let mut step = run.start();
    for reply in replies {
        step = run.resume(step, reply);
    }
    step
}

#[test]
fn a_table_is_created_before_its_index() {
    let run = run(CacheKind::Initialize, false);
    let step = run.start();
    assert!(matches!(step, CacheStep::Execute { statement: 0, time: None }));
    let step = run.resume(step, CacheReply::Changed(Ok(0)));
    assert!(matches!(step, CacheStep::Execute { statement: 1, time: None }));
    let step = run.resume(step, CacheReply::Changed(Ok(0)));
    assert!(matches!(
        step,
        CacheStep::Finished(Ok(CacheResult::InitializedInTransaction(true)))
    ));
}

#[test]
fn a_value_expires_by_the_clock() {
    let ttl = 10.0f64.to_bits();
    let run = run(CacheKind::Store { ttl: Some(ttl) }, false);
    let now = 100.0f64.to_bits();
    let step = run_all(&run, vec![CacheReply::Clock(Ok(now))]);
    assert!(matches!(step, CacheStep::AddTtl { now: n, ttl: t } if n == now && t == ttl));
    let sum = 110.0f64.to_bits();
    let step = run.resume(step, CacheReply::Sum(sum));
    assert!(matches!(step, CacheStep::Execute { statement: 0, time: Some(t) } if t == sum));
    let step = run.resume(step, CacheReply::Changed(Ok(1)));
    assert!(matches!(step, CacheStep::Finished(Ok(CacheResult::Nothing))));
    let step = run_all(
        &run,
        vec![CacheReply::Clock(Ok(now)), CacheReply::Sum(f64::INFINITY.to_bits())],
    );
    match step {
        CacheStep::Finished(Err(OperationError::Refused(error))) => {
            assert_eq!(error.message(), "ttl is too large")
        }
        _ => panic!(),
    }
    let bad = run_all(
        &self::run(CacheKind::Store { ttl: Some((-1.0f64).to_bits()) }, false),
        vec![],
    );
    assert!(matches!(
        bad,
        CacheStep::Finished(Err(OperationError::Refused(ConnectionError::InvalidTtl)))
    ));
}

#[test]
fn a_value_is_read_raw_or_not() {
    let raw = run(CacheKind::Get, true);
    let step = run_all(
        &raw,
        vec![CacheReply::Clock(Ok(0)), CacheReply::Locked(Ok(()))],
    );
    assert!(matches!(step, CacheStep::FetchRaw { now: 0 }));
    let step = raw.resume(step, CacheReply::Scalar(Ok(Some(RawScalar::Blob(vec![1])))));
    assert!(matches!(
        step,
        CacheStep::Finished(Ok(CacheResult::Value(Some(v)))) if v == vec![1]
    ));
    let step = run_all(
        &raw,
        vec![CacheReply::Clock(Ok(0)), CacheReply::Locked(Err("gone"))],
    );
    assert!(matches!(
        step,
        CacheStep::Finished(Err(OperationError::Lock(LockFrame::SqliteHandle, "gone")))
    ));
    let plain = run(CacheKind::Get, false);
    let step = run_all(
        &plain,
        vec![CacheReply::Clock(Ok(7)), CacheReply::Fetched(Ok(None))],
    );
    assert!(matches!(step, CacheStep::Finished(Ok(CacheResult::Value(None)))));
}

#[test]
fn deletions_are_counted() {
    let delete = run(CacheKind::Delete, false);
    for (rows, gone) in [(0, false), (1, true)] {
        let step = run_all(&delete, vec![CacheReply::Changed(Ok(rows))]);
        assert!(
            matches!(step, CacheStep::Finished(Ok(CacheResult::Deleted(d))) if d == gone)
        );
    }
    let cleanup = run(CacheKind::CleanupExpired, false);
    let step = run_all(&cleanup, vec![CacheReply::Clock(Ok(3)), CacheReply::Changed(Ok(4))]);
    assert!(matches!(step, CacheStep::Finished(Ok(CacheResult::DeletedCount(4)))));
}

#[test]
fn only_blobs_are_cached() {
    assert!(matches!(cached_value(None), Ok(None)));
    assert!(matches!(cached_value(Some(RawScalar::Null)), Ok(None)));
    let error = cached_value(Some(RawScalar::Integer(1))).err().unwrap();
    assert!(error.class() == Class::Programming);
    assert_eq!(error.message(), "cache reads require a BLOB or NULL result");
}

#[test]
fn raw_reads_keep_away_from_callbacks() {
    assert_eq!(raw_slot(true, true), None);
    assert_eq!(raw_slot(false, true), None);
    assert_eq!(raw_slot(true, false), Some(Route::Transaction));
    assert_eq!(raw_slot(false, false), Some(Route::Session));
}

#[test]
fn operations_name_their_kind() {
    assert_eq!(initialize_operation("c").ok().unwrap().kind(), CacheKind::Initialize);
    assert_eq!(
        set_operation("c", "k".to_string(), vec![], Some(5)).ok().unwrap().kind(),
        CacheKind::Store { ttl: Some(5) }
    );
    assert_eq!(
        cleanup_expired_operation("c", 5).ok().unwrap().kind(),
        CacheKind::CleanupExpired
    );
}

#[test]
fn a_clock_before_the_epoch_is_reported() {
    let run = run(CacheKind::Get, false);
    match run_all(&run, vec![CacheReply::Clock(Err("early".to_string()))]) {
        CacheStep::Finished(Err(OperationError::Refused(error))) => {
            assert!(error.class() == Class::Value);
            assert_eq!(error.message(), "system clock is before Unix epoch: early");
        }
        _ => panic!(),
    }
}

#[test]
fn parameters_follow_the_statement() {
    let now = 5.0f64.to_bits();
    let get = get_operation("c", "k".to_string()).ok().unwrap();
    match get.parameters(Some(now)).as_slice() {
        [SqliteParam::Text(key), SqliteParam::Real { bits }] => {
            assert_eq!(key, "k");
            assert_eq!(*bits, now);
        }
        _ => panic!(),
    }
    let store = set_operation("c", "k".to_string(), vec![1, 2], None).ok().unwrap();
    match store.parameters(None).as_slice() {
        [SqliteParam::Text(key), SqliteParam::Blob(bytes), SqliteParam::Null] => {
            assert_eq!(key, "k");
            assert_eq!(bytes, &vec![1, 2]);
        }
        _ => panic!(),
    }
    let cleanup = cleanup_expired_operation("c", 7).ok().unwrap();
    assert!(matches!(
        cleanup.parameters(Some(now)).as_slice(),
        [SqliteParam::Real { .. }, SqliteParam::Int(7)]
    ));
    assert!(initialize_operation("c").ok().unwrap().parameters(None).is_empty());
    let delete = delete_operation("c", "k".to_string()).ok().unwrap();
    assert!(matches!(delete.parameters(None).as_slice(), [SqliteParam::Text(_)]));
}
