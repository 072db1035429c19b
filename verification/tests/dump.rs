//! Dumping a database.

use rapsqlite::dump::{
    cell_value, dumped_tables, format_value, insert_statements, iterdump, rows_query, schema_query,
    CellReads, DumpValue, SchemaRow, TableRows,
};

fn row(kind: &str, name: &str, sql: &str) -> SchemaRow {
    SchemaRow { kind: kind.to_string(), name: name.to_string(), sql: Some(sql.to_string()) }
}

#[test]
fn values_are_written_as_sql() {
    assert_eq!(format_value(&DumpValue::Null), "NULL");
    assert_eq!(format_value(&DumpValue::Integer(-5)), "-5");
    assert_eq!(format_value(&DumpValue::Real { digits: "1.5".to_string() }), "1.5");
    for (digits, written) in [
        ("1", "1.0"),
        ("-0", "-0.0"),
        ("1e300", "1e300"),
        ("inf", "9e999"),
        ("-inf", "-9e999"),
    ] {
        assert_eq!(format_value(&DumpValue::Real { digits: digits.to_string() }), written);
    }
    assert_eq!(format_value(&DumpValue::Text("it's".to_string())), "'it''s'");
    assert_eq!(
        format_value(&DumpValue::Text("a\0b".to_string())),
        "CAST(X'610062' AS TEXT)"
    );
    assert_eq!(format_value(&DumpValue::Blob(vec![0, 255])), "X'00ff'");
}

#[test]
fn cells_are_read_in_order() {
    let reads = CellReads {
        integer: None,
        real: None,
        text: Some("t".to_string()),
        blob: Some(vec![1]),
    };
    assert!(matches!(cell_value(reads), DumpValue::Text(_)));
    let reads = CellReads { integer: None, real: None, text: None, blob: None };
    assert!(matches!(cell_value(reads), DumpValue::Null));
}

#[test]
fn rows_become_inserts() {
    let data = TableRows {
        columns: vec!["id".to_string(), "a\"b".to_string()],
        rows: vec![
            vec![DumpValue::Integer(1), DumpValue::Null],
            vec![DumpValue::Integer(2), DumpValue::Text("x".to_string())],
        ],
    };
    assert_eq!(
        insert_statements("t", &data),
        vec![
            "INSERT INTO \"t\" (\"id\", \"a\"\"b\") VALUES (1, NULL);".to_string(),
            "INSERT INTO \"t\" (\"id\", \"a\"\"b\") VALUES (2, 'x');".to_string(),
        ]
    );
    assert_eq!(rows_query("a\"b"), "SELECT * FROM \"a\"\"b\"");
    assert!(schema_query().starts_with("SELECT type, name, sql FROM sqlite_master"));
}

#[test]
fn a_dump_loads_rows_before_indexes_views_and_triggers() {
    let rows = vec![
        row("table", "sqlite_sequence", "CREATE TABLE sqlite_sequence(name,seq)"),
        row("table", "t", "CREATE TABLE t(a)"),
        row("index", "i", "CREATE INDEX i ON t(a)"),
        row("index", "sqlite_autoindex_t_1", "x"),
        row("trigger", "g", "CREATE TRIGGER g"),
        row("view", "v", "CREATE VIEW v"),
        SchemaRow { kind: "table".to_string(), name: "n".to_string(), sql: None },
    ];
    assert_eq!(dumped_tables(&rows), vec!["t".to_string()]);
    let data = vec![TableRows {
        columns: vec!["a".to_string()],
        rows: vec![vec![DumpValue::Integer(7)]],
    }];
    assert_eq!(
        iterdump(&rows, &data),
        vec![
            "BEGIN TRANSACTION;".to_string(),
            "CREATE TABLE t(a);".to_string(),
            "INSERT INTO \"t\" (\"a\") VALUES (7);".to_string(),
            "CREATE INDEX i ON t(a);".to_string(),
            "CREATE VIEW v;".to_string(),
            "CREATE TRIGGER g;".to_string(),
            "COMMIT;".to_string(),
        ]
    );
}
