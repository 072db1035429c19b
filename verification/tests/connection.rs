//! A connection object from its making to its closing.

use rapsqlite::connection::{Connection, Counters};
use rapsqlite::error::{Class, ConnectionError};
use rapsqlite::many::Tally;
use rapsqlite::transaction::{
    Begin, BeginError, BeginStep, Books, Leave, LeaveReply, LeaveStep, Leaving, Phase,
};
use std::marker::PhantomData;

const BEGUN: Books = Books { phase: Phase::Active, explicit: true, held: true };

fn connect(path: &str, timeout: f64, chunk: i64) -> Result<Connection, ConnectionError> {
    Connection::new(path, &Vec::new(), None, timeout.to_bits(), (timeout * 1000.0) as i64, chunk)
}

fn closing(books: Books) -> Leave<&'static str> {
    Leave { leaving: Leaving::Close, books, errors: PhantomData }
}

#[test]
fn a_new_connection_has_done_nothing() {
    let connection = connect("app.db", 5.0, 1).ok().unwrap();
    assert_eq!(connection.path, "app.db");
    assert!(!connection.closed);
    assert!(!connection.pool);
    assert!(connection.books == Books { phase: Phase::Idle, explicit: false, held: false });
    assert_eq!(connection.counters, Counters { last_rowid: 0, last_changes: 0 });
    assert!(!connection.callbacks.has_callbacks());
    assert!(!connection.extensions.allowed);
    assert!(!connection.extensions.required);
    assert!(!connection.adapters.enabled());
    assert!(connection.converters.is_empty());
    assert_eq!(connection.row_factory, None);
    assert_eq!(connection.text_factory, None);
    assert_eq!(connection.pool_size, None);
    assert_eq!(connection.connection_timeout, None);
    assert_eq!(connection.idle_timeout, None);
    assert!(connection.isolation_level.is_none());
    assert_eq!(connection.timeout, 5.0f64.to_bits());
    assert_eq!(connection.iter_chunk_size, 1);
    assert!(connection.include_query_in_errors);
    assert!(!connection.session_affinity);
    assert_eq!(connection.init_hook, None);
}

#[test]
fn a_new_connection_waits_as_long_as_it_is_told() {
    let given = vec![("foreign_keys".to_string(), "ON".to_string())];
    let connection =
        Connection::new("app.db", &given, Some(3), 2.5f64.to_bits(), 2500, 100).ok().unwrap();
    assert_eq!(connection.init_hook, Some(3));
    assert_eq!(
        connection.pragmas.entries,
        vec![
            ("foreign_keys".to_string(), "ON".to_string()),
            ("busy_timeout".to_string(), "2500".to_string()),
        ]
    );
}

#[test]
fn a_connection_is_refused_for_the_first_reason_that_holds() {
    let error = connect("", -1.0, 0).err().unwrap();
    assert!(matches!(error, ConnectionError::NegativeTimeout));
    assert!(error.class() == Class::Value);
    assert!(matches!(connect("", 1.0, 0), Err(ConnectionError::InvalidChunkSize)));
    assert!(matches!(connect("", 1.0, 1), Err(ConnectionError::EmptyPath)));
    assert!(matches!(connect("a\0b", 1.0, 1), Err(ConnectionError::NulInPath { position: 1 })));
    assert!(connect("a", 0.0, 1).is_ok());
}

#[test]
fn only_what_succeeds_is_counted() {
    let mut counters = Counters { last_rowid: 4, last_changes: 1 };
    assert_eq!(counters.note_insert(Err::<Tally, &str>("locked")), Err("locked"));
    assert_eq!(counters, Counters { last_rowid: 4, last_changes: 1 });
    assert_eq!(counters.note_insert(Ok::<Tally, &str>(Tally { changes: 2, rowid: 9 })), Ok(9));
    assert_eq!(counters, Counters { last_rowid: 9, last_changes: 2 });
    assert_eq!(counters.note_many(Ok::<Tally, &str>(Tally { changes: 0, rowid: 3 })), Ok(()));
    assert_eq!(counters, Counters { last_rowid: 3, last_changes: 0 });
    assert_eq!(counters.note_many(Err::<Tally, &str>("busy")), Err("busy"));
    assert_eq!(counters, Counters { last_rowid: 3, last_changes: 0 });
}

#[test]
fn closing_closes_and_leaving_a_block_does_not() {
    assert!(closing(BEGUN).closed_after(false));
    assert!(closing(BEGUN).closed_after(true));
    let exit =
        Leave::<&str> { leaving: Leaving::Exit { clean: false }, books: BEGUN, errors: PhantomData };
    assert!(!exit.closed_after(false));
    assert!(exit.closed_after(true));
}

#[test]
fn a_closed_connection_begins_nothing() {
    let leave = closing(BEGUN);
    let begin = Begin::<&str> {
        closed: leave.closed_after(false),
        has_callbacks: false,
        books: leave.books_after(),
        errors: PhantomData,
    };
    assert!(matches!(
        begin.start(),
        BeginStep::Finished(None, Err(BeginError::Refused(ConnectionError::Closed)))
    ));
}

#[test]
fn a_connection_can_be_closed_twice() {
    let second = closing(closing(BEGUN).books_after());
    let mut step = second.start();
    assert!(matches!(step, LeaveStep::ReleaseSession));
    step = second.resume(step, LeaveReply::Done);
    assert!(matches!(step, LeaveStep::TakeCallbacks(None)));
    step = second.resume(step, LeaveReply::Taken(false));
    assert!(matches!(step, LeaveStep::Forget(None)));
    step = second.resume(step, LeaveReply::Done);
    assert!(matches!(step, LeaveStep::LeavePool(None)));
    step = second.resume(step, LeaveReply::Done);
    assert!(matches!(step, LeaveStep::Finished(Ok(()))));
}

#[test]
fn a_timeout_is_stored_with_its_pragma() {
    let given = vec![("Busy_Timeout".to_string(), "1".to_string())];
    let mut connection =
        Connection::new("app.db", &given, None, 5.0f64.to_bits(), 5000, 1).ok().unwrap();
    assert!(connection.set_timeout(0.25f64.to_bits(), 250).is_ok());
    assert_eq!(connection.timeout, 0.25f64.to_bits());
    let wait = vec![("busy_timeout".to_string(), "250".to_string())];
    assert_eq!(connection.pragmas.entries, wait);
    assert!(matches!(
        connection.set_timeout((-1.0f64).to_bits(), -1000),
        Err(ConnectionError::NegativeTimeout)
    ));
    assert_eq!(connection.timeout, 0.25f64.to_bits());
    assert_eq!(connection.pragmas.entries, wait);
}
