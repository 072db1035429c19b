//! What a connection is made with and what can be set later.

use rapsqlite::conversion::{show_column, ColumnReads, Read, Shown};
use rapsqlite::error::{Class, ConnectionError};
use rapsqlite::floats::{is_below_zero, is_finite};
use rapsqlite::pragmas::{
    names_wait, pragma_query, pragma_value, Place, PragmaValue, Pragmas, SetPragma, SetPragmaError,
    SetPragmaReply, SetPragmaStep,
};
use rapsqlite::registry::Registry;
use rapsqlite::settings::{
    check_connection_timeout, check_idle_timeout, check_new, check_pool_size, configure,
    parse_connection_string, pool_metrics, register_converter, register_under, set_timeout,
    validate_path, Adapters, GivenSeconds, PoolCounts,
};
use std::marker::PhantomData;

fn pair(a: &str, b: &str) -> (String, String) {
    (a.to_string(), b.to_string())
}

#[test]
fn floats_by_their_bits() {
    for f in [
        0.0f64,
        -0.0,
        1.0,
        -1.0,
        5e-324,
        -5e-324,
        f64::MAX,
        f64::MIN,
        f64::INFINITY,
        f64::NEG_INFINITY,
        f64::NAN,
        -f64::NAN,
    ] {
        assert_eq!(is_finite(f.to_bits()), f.is_finite());
        assert_eq!(is_below_zero(f.to_bits()), f < 0.0);
    }
}

#[test]
fn numbers_of_a_new_connection_are_checked() {
    assert!(check_new(5.0f64.to_bits(), 64).is_ok());
    assert!(check_new((-0.0f64).to_bits(), 1).is_ok());
    let error = check_new((-0.5f64).to_bits(), 0).err().unwrap();
    assert!(error.class() == Class::Value);
    assert_eq!(error.message(), "timeout must be >= 0.0");
    let error = check_new(0.0f64.to_bits(), 0).err().unwrap();
    assert_eq!(error.message(), "iter_chunk_size must be >= 1");
}

#[test]
fn paths_are_validated() {
    assert!(validate_path(":memory:").is_ok());
    assert!(matches!(validate_path(""), Err(ConnectionError::EmptyPath)));
    assert!(matches!(
        validate_path("a\0b"),
        Err(ConnectionError::NulInPath { position: 1 })
    ));
    assert!(ConnectionError::EmptyPath.class() == Class::Value);
}

#[test]
fn paths_are_parted_from_their_parameters() {
    assert_eq!(parse_connection_string("a?b=c"), ("a?b=c".to_string(), vec![]));
    assert_eq!(parse_connection_string("file:a.db"), ("a.db".to_string(), vec![]));
    assert_eq!(
        parse_connection_string("file:a.db?mode=ro&cache=shared&x&y=1=2"),
        (
            "a.db".to_string(),
            vec![pair("mode", "ro"), pair("cache", "shared"), pair("x", ""), pair("y", "1=2")]
        )
    );
    assert_eq!(parse_connection_string("file:a.db?"), ("a.db".to_string(), vec![]));
}

#[test]
fn options_stay_in_the_uri_and_the_rest_becomes_pragmas() {
    let made = configure(
        "a.db",
        &vec![pair("Mode", "ro"), pair("journal_mode", "WAL"), pair("CACHE", "shared")],
        &vec![pair("foreign_keys", "True"), pair("Busy_Timeout", "1")],
        5000,
    );
    assert_eq!(made.path, "file:a.db?Mode=ro&CACHE=shared");
    assert_eq!(
        made.pragmas.entries,
        vec![pair("journal_mode", "WAL"), pair("foreign_keys", "True"), pair("busy_timeout", "5000")]
    );
    let plain = configure("a.db", &vec![], &vec![], 0);
    assert_eq!(plain.path, "a.db");
    assert_eq!(plain.pragmas.entries, vec![pair("busy_timeout", "0")]);
}

#[test]
fn a_timeout_replaces_the_earlier_one() {
    let mut pragmas =
        Pragmas { entries: vec![pair("BUSY_TIMEOUT", "1"), pair("synchronous", "NORMAL")] };
    assert!(set_timeout(&mut pragmas, 2.5f64.to_bits(), 2500).is_ok());
    assert_eq!(
        pragmas.entries,
        vec![pair("synchronous", "NORMAL"), pair("busy_timeout", "2500")]
    );
    assert!(matches!(
        set_timeout(&mut pragmas, (-1.0f64).to_bits(), -1000),
        Err(ConnectionError::NegativeTimeout)
    ));
    assert_eq!(pragmas.entries.len(), 2);
    assert!(names_wait("busy_timeout"));
    assert!(!names_wait("BUSY_TIMEOUT"));
}

#[test]
fn a_pragma_is_set_in_its_place() {
    let mut pragmas = Pragmas { entries: vec![pair("a", "1"), pair("b", "2"), pair("a", "3")] };
    pragmas.assign(&"a".to_string(), &"9".to_string());
    assert_eq!(pragmas.entries, vec![pair("a", "9"), pair("b", "2"), pair("a", "3")]);
    pragmas.assign(&"c".to_string(), &"4".to_string());
    assert_eq!(pragmas.entries.last().unwrap(), &pair("c", "4"));
}

#[test]
fn pragma_values_are_written_as_sql() {
    assert_eq!(pragma_value(&PragmaValue::Nothing), "NULL");
    assert_eq!(pragma_value(&PragmaValue::Int(-3)), "-3");
    assert_eq!(pragma_value(&PragmaValue::Text("it's".to_string())), "'it''s'");
    assert_eq!(pragma_query("journal_mode", "'WAL'"), "PRAGMA journal_mode = 'WAL'");
}

#[test]
fn a_pragma_goes_to_the_connection_in_use() {
    let set: SetPragma<&'static str> = SetPragma { closed: false, errors: PhantomData };
    let step = set.resume(set.start(), SetPragmaReply::Found(true));
    assert!(matches!(step, SetPragmaStep::Execute(Place::Transaction)));
    let step = set.resume(set.start(), SetPragmaReply::Found(false));
    let step = set.resume(step, SetPragmaReply::Found(false));
    let step = set.resume(step, SetPragmaReply::Found(true));
    assert!(matches!(step, SetPragmaStep::ApplyAll(Place::Session)));
    let step = set.resume(step, SetPragmaReply::Ran(Ok(())));
    let step = set.resume(step, SetPragmaReply::Ran(Err("bad")));
    assert!(matches!(step, SetPragmaStep::Finished(Err(SetPragmaError::Call("bad")))));
}

#[test]
fn a_pragma_goes_to_the_pool_where_nothing_is_in_use() {
    let set: SetPragma<&'static str> = SetPragma { closed: false, errors: PhantomData };
    let mut step = set.start();
    for _ in 0..3 {
        step = set.resume(step, SetPragmaReply::Found(false));
    }
    assert!(matches!(step, SetPragmaStep::OpenPool));
    for _ in 0..3 {
        step = set.resume(step, SetPragmaReply::Ran(Ok(())));
    }
    assert!(matches!(step, SetPragmaStep::Execute(Place::Pool)));
    step = set.resume(step, SetPragmaReply::Ran(Ok(())));
    assert!(matches!(step, SetPragmaStep::Finished(Ok(()))));
    let closed: SetPragma<&'static str> = SetPragma { closed: true, errors: PhantomData };
    assert!(matches!(
        closed.start(),
        SetPragmaStep::Finished(Err(SetPragmaError::Refused(ConnectionError::Closed)))
    ));
}

#[test]
fn sizes_and_times_are_checked() {
    assert!(matches!(check_pool_size(None), Ok(None)));
    assert!(matches!(check_pool_size(Some(0)), Ok(Some(0))));
    assert_eq!(check_pool_size(Some(-1)).err().unwrap().message(), "pool_size must be >= 0");
    assert!(matches!(check_idle_timeout(Some(9)), Ok(Some(9))));
    assert_eq!(
        check_idle_timeout(Some(-1)).err().unwrap().message(),
        "idle_timeout must be >= 0"
    );
    let given = GivenSeconds::Number { bits: 2.9f64.to_bits(), seconds: 2 };
    assert!(matches!(check_connection_timeout(&given), Ok(Some(2))));
    assert!(matches!(check_connection_timeout(&GivenSeconds::Nothing), Ok(None)));
    let given = GivenSeconds::Number { bits: (-2.9f64).to_bits(), seconds: 0 };
    let error = check_connection_timeout(&given).err().unwrap();
    assert!(error.class() == Class::Value);
    assert_eq!(error.message(), "connection_timeout must be >= 0");
    let error = check_connection_timeout(&GivenSeconds::Other).err().unwrap();
    assert!(error.class() == Class::Type);
    assert_eq!(error.message(), "connection_timeout must be an int or float");
}

#[test]
fn a_pool_counts_what_is_in_use() {
    let counts = PoolCounts { size: 5, num_idle: 2, max_connections: 10 };
    let metrics = pool_metrics(Some(counts)).ok().unwrap();
    assert_eq!(metrics.in_use, 3);
    assert_eq!(metrics.size, 5);
    assert_eq!(metrics.num_idle, 2);
    assert_eq!(metrics.max_connections, 10);
    let error = pool_metrics(None).err().unwrap();
    assert!(error.class() == Class::Operational);
    assert_eq!(error.message(), "Pool not available");
}

#[test]
fn adapters_are_removed_by_their_type() {
    let mut adapters: Adapters<u64> = Adapters::new();
    assert!(!adapters.enabled());
    adapters.register(1, Some(10));
    adapters.register(2, Some(20));
    adapters.register(1, Some(11));
    adapters.register(1, None);
    assert!(adapters.enabled());
    assert_eq!(adapters.find(2), Some(20));
    assert_eq!(adapters.find(1), None);
    adapters.register(2, Some(21));
    assert_eq!(adapters.find(2), Some(20));
    adapters.register(2, None);
    assert!(!adapters.enabled());
}

fn text_reads(s: &str) -> ColumnReads {
    ColumnReads {
        integer: Read::Refused,
        real: Read::Refused,
        real_text: String::new(),
        text: Read::Value(s.to_string()),
        blob: Read::Refused,
    }
}

#[test]
fn converters_are_found_in_any_case() {
    let mut converters: Registry<u64> = Registry::new();
    assert!(register_converter(&mut converters, "Date", Some(5)));
    match show_column("dAtE", &converters, true, text_reads("2024")) {
        Shown::Converted(5, Some(bytes)) => assert_eq!(bytes, b"2024".to_vec()),
        _ => panic!(),
    }
    assert!(matches!(
        show_column("TEXT", &converters, false, text_reads("x")),
        Shown::Plain(_)
    ));
    assert!(!register_converter(&mut converters, "DATE", None));
    assert!(register_under(&mut converters, "X".to_string(), Some(1)));
    assert_eq!(converters.get(&"X".to_string()), Some(1));
}
