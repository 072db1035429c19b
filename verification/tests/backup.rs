//! Backing a database up.

use rapsqlite::backup::{
    backup_patience, frame_text, Backup, BackupError, BackupReply, BackupStep, CopyReply, CopyStep,
    Extracted, Frame, PageCopy, Side, Slot,
};
use rapsqlite::codes;
use rapsqlite::error::ConnectionError;
use std::marker::PhantomData;

fn copy(pages: i32, reports: bool) -> PageCopy {
    PageCopy {
        name: "main".to_string(),
        pages,
        seconds: 5,
        reports,
        version: "3.46.0".to_string(),
    }
}

fn copy_all(copy: &PageCopy, replies: Vec<CopyReply>) -> CopyStep {
    let mut step = copy.start();
    for reply in replies {
        step = copy.resume(step, reply);
    }
    step
}

#[test]
fn patience_has_bounds() {
    assert_eq!(backup_patience(None), 5);
    assert_eq!(backup_patience(Some(1)), 5);
    assert_eq!(backup_patience(Some(60)), 60);
    assert_eq!(backup_patience(Some(1000)), 120);
}

#[test]
fn a_copy_runs_to_its_end() {
    let copy = copy(10, false);
    let step = copy.start();
    assert!(matches!(step, CopyStep::SetTimeouts { milliseconds: 5000 }));
    let step = copy.resume(step, CopyReply::Done);
    assert!(matches!(step, CopyStep::Init { from: Side::Source, into: Side::Target }));
    let step = copy.resume(step, CopyReply::Begun(true));
    assert!(matches!(step, CopyStep::Step { pages: 10 }));
    let step = copy.resume(step, CopyReply::Code(codes::SQLITE_OK));
    assert!(matches!(step, CopyStep::Step { .. }));
    let step = copy.resume(step, CopyReply::Code(codes::SQLITE_DONE));
    assert!(matches!(step, CopyStep::Finish));
    let step = copy.resume(step, CopyReply::Code(codes::SQLITE_OK));
    assert!(matches!(step, CopyStep::Finished(Ok(()))));
}

#[test]
fn a_copy_reports_its_pages() {
    let copy = copy(10, true);
    let step = copy_all(
        &copy,
        vec![
            CopyReply::Done,
            CopyReply::Begun(true),
            CopyReply::Code(codes::SQLITE_OK),
            CopyReply::Pages { remaining: 3, total: 10 },
        ],
    );
    assert!(matches!(
        step,
        CopyStep::Report { remaining: 3, total: 10, copied: 7, busy: false, done: false }
    ));
    let step = copy.resume(step, CopyReply::Done);
    let step = copy.resume(step, CopyReply::Code(codes::SQLITE_DONE));
    let step = copy.resume(step, CopyReply::Pages { remaining: 1, total: 10 });
    assert!(matches!(
        step,
        CopyStep::Report { remaining: 0, total: 10, copied: 10, done: true, .. }
    ));
}

#[test]
fn a_copy_waits_for_locks_so_long() {
    let copy = copy(10, false);
    let head = || vec![CopyReply::Done, CopyReply::Begun(true), CopyReply::Code(codes::SQLITE_BUSY)];
    let mut patient = head();
    patient.push(CopyReply::Elapsed { seconds: 5, nanoseconds: 0 });
    assert!(matches!(copy_all(&copy, patient), CopyStep::Sleep));
    let mut late = head();
    late.push(CopyReply::Elapsed { seconds: 5, nanoseconds: 1 });
    late.push(CopyReply::Code(0));
    match copy_all(&copy, late) {
        CopyStep::Finished(Err(error)) => assert_eq!(
            error.message(),
            "Backup timed out: database busy or locked after 5 seconds"
        ),
        _ => panic!(),
    }
}

#[test]
fn failures_of_a_copy_are_worded() {
    let copy = copy(10, false);
    let step = copy_all(
        &copy,
        vec![
            CopyReply::Done,
            CopyReply::Begun(false),
            CopyReply::Trouble { code: 1, message: Some("no such database".to_string()) },
        ],
    );
    match step {
        CopyStep::Finished(Err(error)) => assert_eq!(
            error.message(),
            "Failed to initialize backup: SQLite error code 1, message: 'no such database'. Source libversion: 3.46.0. Ensure both connections are open and target has no active transactions."
        ),
        _ => panic!(),
    }
    let step = copy_all(
        &copy,
        vec![CopyReply::Done, CopyReply::Begun(true), CopyReply::Code(11), CopyReply::Code(0)],
    );
    assert!(matches!(
        step,
        CopyStep::Finished(Err(ConnectionError::BackupFailed { code: 11 }))
    ));
    let step = copy_all(
        &copy,
        vec![
            CopyReply::Done,
            CopyReply::Begun(true),
            CopyReply::Code(codes::SQLITE_DONE),
            CopyReply::Code(10),
        ],
    );
    match step {
        CopyStep::Finished(Err(error)) => assert_eq!(
            error.message(),
            "Backup finish failed with SQLite error code: 10"
        ),
        _ => panic!(),
    }
}

fn backup(closed: bool, foreign: bool) -> Backup<&'static str> {
    Backup { closed, foreign, errors: PhantomData }
}

fn backup_all(
    backup: &Backup<&'static str>,
    replies: Vec<BackupReply<&'static str>>,
) -> BackupStep<&'static str> {
    let mut step = backup.start();
    for reply in replies {
        step = backup.resume(step, reply);
    }
    step
}

#[test]
fn a_backup_gives_back_what_it_borrowed() {
    let backup = backup(false, false);
    let step = backup_all(
        &backup,
        vec![
            BackupReply::Condition { in_transaction: true, has_callbacks: false },
            BackupReply::Found(true),
            BackupReply::Condition { in_transaction: false, has_callbacks: true },
            BackupReply::Ran(Ok(())),
            BackupReply::Found(true),
            BackupReply::Locked(Ok(false)),
            BackupReply::Locked(Ok(false)),
            BackupReply::Autocommit(true),
        ],
    );
    assert!(matches!(step, BackupStep::Copy(_)));
    let mut step = backup.resume(step, BackupReply::Copied(Ok(())));
    let mut returned = 0;
    while let BackupStep::GiveBack(..) = step {
        returned += 1;
        step = backup.resume(step, BackupReply::Done);
    }
    assert_eq!(returned, 2);
    assert!(matches!(step, BackupStep::Finished(Ok(()))));
}

#[test]
fn a_target_in_a_transaction_is_refused() {
    let backup = backup(false, true);
    let step = backup_all(
        &backup,
        vec![
            BackupReply::Condition { in_transaction: false, has_callbacks: false },
            BackupReply::Ran(Ok(())),
            BackupReply::Handle(Extracted::Address(4096)),
            BackupReply::Locked(Ok(false)),
            BackupReply::Autocommit(false),
        ],
    );
    match step {
        BackupStep::Finished(Err(BackupError::Refused(error))) => assert_eq!(
            error.message(),
            "Cannot backup: target connection has an active transaction. Commit or rollback the transaction before backup."
        ),
        _ => panic!(),
    }
}

#[test]
fn foreign_targets_must_give_a_handle() {
    let backup = backup(false, true);
    let head = || {
        vec![
            BackupReply::Condition { in_transaction: false, has_callbacks: false },
            BackupReply::Ran(Ok(())),
        ]
    };
    let mut replies = head();
    replies.push(BackupReply::Handle(Extracted::Nothing));
    assert!(matches!(
        backup_all(&backup, replies),
        BackupStep::Finished(Err(BackupError::Refused(ConnectionError::NoForeignHandle)))
    ));
    let mut replies = head();
    replies.push(BackupReply::Handle(Extracted::Address(0)));
    assert!(matches!(
        backup_all(&backup, replies),
        BackupStep::Finished(Err(BackupError::Refused(ConnectionError::NullForeignHandle)))
    ));
    let mut replies = head();
    replies.push(BackupReply::Handle(Extracted::ImportFailed("no module")));
    match backup_all(&backup, replies) {
        BackupStep::Finished(Err(BackupError::Framed(frame, detail))) => {
            assert!(frame == Frame::Import);
            assert_eq!(
                frame_text(frame, detail),
                "Failed to import backup helper: no module. Make sure rapsqlite package is properly installed."
            );
        }
        _ => panic!(),
    }
}

#[test]
fn errors_of_a_backup_are_framed() {
    for (frame, text) in [
        (Frame::LockSource, "Failed to lock source handle: x"),
        (Frame::LockTarget, "Failed to lock target handle: x"),
        (Frame::Lookup, "Failed to get get_sqlite3_handle function: x"),
        (Frame::Extract, "Failed to extract sqlite3* handle: x"),
        (Frame::Number, "Failed to extract pointer value: x"),
    ] {
        assert_eq!(frame_text(frame, "x"), text);
    }
}

#[test]
fn a_closed_source_and_empty_slots_are_refused() {
    assert!(matches!(
        backup(true, false).start(),
        BackupStep::Finished(Err(BackupError::Refused(ConnectionError::Closed)))
    ));
    let backup = backup(false, false);
    let step = backup_all(
        &backup,
        vec![BackupReply::Condition { in_transaction: true, has_callbacks: true }],
    );
    assert!(matches!(step, BackupStep::Borrow(Side::Source, Slot::Transaction, _)));
    let step = backup.resume(step, BackupReply::Found(false));
    assert!(matches!(
        step,
        BackupStep::Finished(Err(BackupError::Refused(
            ConnectionError::NoTransactionConnection
        )))
    ));
}

#[test]
fn a_name_with_a_nul_byte_copies_nothing() {
    let mut named = copy(10, false);
    named.name = "ma\0in".to_string();
    match copy_all(&named, vec![CopyReply::Done]) {
        CopyStep::Finished(Err(error)) => assert_eq!(
            error.message(),
            "Invalid database name: nul byte found in provided data at position: 2"
        ),
        _ => panic!(),
    }
}

#[test]
fn handles_and_slots_of_the_target_are_checked() {
    let backup = backup(false, false);
    let source = || {
        vec![
            BackupReply::Condition { in_transaction: false, has_callbacks: false },
            BackupReply::Ran(Ok(())),
        ]
    };
    let refused = |replies: Vec<BackupReply<&'static str>>| {
        let mut all = source();
        all.extend(replies);
        match backup_all(&backup, all) {
            BackupStep::Finished(Err(BackupError::Refused(error))) => error.message(),
            _ => panic!(),
        }
    };
    assert_eq!(
        refused(vec![
            BackupReply::Condition { in_transaction: true, has_callbacks: false },
            BackupReply::Found(false),
        ]),
        "Target transaction connection not available"
    );
    assert_eq!(
        refused(vec![
            BackupReply::Condition { in_transaction: false, has_callbacks: true },
            BackupReply::Ran(Ok(())),
            BackupReply::Found(false),
        ]),
        "Target callback connection not available"
    );
    let locked = |target: bool, source: bool| {
        vec![
            BackupReply::Condition { in_transaction: false, has_callbacks: false },
            BackupReply::Ran(Ok(())),
            BackupReply::Locked(Ok(target)),
            BackupReply::Locked(Ok(source)),
        ]
    };
    assert_eq!(
        refused(locked(false, true)),
        "Source sqlite3* handle is null. Connection may be closed or invalid."
    );
    assert_eq!(
        refused(locked(true, false)),
        "Target sqlite3* handle is null. Connection may be closed or invalid."
    );
}
