//! Queries on the schema and what is made of their rows.

use rapsqlite::schema::{
    describe_query, get_foreign_keys, get_index_info, get_index_list, get_indexes, get_names,
    get_schema, get_table_info, get_table_xinfo, indexes_query, is_unique, tables_query,
    views_query, walk_query, Cell, Description, Field, Schema, SchemaValue,
};

fn blank() -> Cell {
    Cell { integer: None, text: None, real: None }
}

fn number(n: i64) -> Cell {
    Cell { integer: Some(n), text: None, real: None }
}

fn text(s: &str) -> Cell {
    Cell { integer: None, text: Some(s.to_string()), real: None }
}

fn shown(fields: &[Field]) -> String {
    let mut out = String::new();
    for field in fields {
        let value = match &field.value {
            SchemaValue::Nothing => "-".to_string(),
            SchemaValue::Int(n) => n.to_string(),
            SchemaValue::Real { bits } => f64::from_bits(*bits).to_string(),
            SchemaValue::Text(s) => format!("'{s}'"),
        };
        out.push_str(&format!("{}={} ", field.key, value));
    }
    out
}

#[test]
fn queries_quote_their_names() {
    assert_eq!(
        tables_query(&Some("it's".to_string())),
        "SELECT name FROM sqlite_master WHERE type='table' AND name = 'it''s' AND name NOT LIKE 'sqlite\\_%' ESCAPE '\\'"
    );
    assert_eq!(
        tables_query(&None),
        "SELECT name FROM sqlite_master WHERE type='table' AND name NOT LIKE 'sqlite\\_%' ESCAPE '\\' ORDER BY name"
    );
    assert_eq!(
        indexes_query(&Some("t".to_string())),
        "SELECT name, tbl_name, sql FROM sqlite_master WHERE type='index' AND tbl_name = 't' AND name NOT LIKE 'sqlite\\_%' ESCAPE '\\' ORDER BY name"
    );
    assert_eq!(
        indexes_query(&None),
        "SELECT name, tbl_name, sql FROM sqlite_master WHERE type='index' AND name NOT LIKE 'sqlite\\_%' ESCAPE '\\' ORDER BY name"
    );
    assert_eq!(
        views_query(&Some("v".to_string())),
        "SELECT name FROM sqlite_master WHERE type='view' AND name = 'v'"
    );
    assert_eq!(
        views_query(&None),
        "SELECT name FROM sqlite_master WHERE type='view' ORDER BY name"
    );
    let name = "a'b".to_string();
    assert_eq!(describe_query(Description::TableInfo, &name), "PRAGMA table_info('a''b')");
    assert_eq!(
        describe_query(Description::ForeignKeys, &name),
        "PRAGMA foreign_key_list('a''b')"
    );
    assert_eq!(describe_query(Description::IndexList, &name), "PRAGMA index_list('a''b')");
    assert_eq!(describe_query(Description::IndexInfo, &name), "PRAGMA index_info('a''b')");
    assert_eq!(describe_query(Description::TableXinfo, &name), "PRAGMA table_xinfo('a''b')");
}

#[test]
fn columns_of_a_table_are_described() {
    let row = || vec![number(0), text("id"), text("INTEGER"), number(1), blank(), number(1)];
    assert_eq!(
        shown(&get_table_info(&vec![row()])[0]),
        "cid=0 name='id' type='INTEGER' notnull=1 dflt_value=- pk=1 "
    );
    let mut wide = row();
    wide[4] = text("'x'");
    wide.push(number(0));
    assert_eq!(
        shown(&get_table_xinfo(&vec![wide])[0]),
        "cid=0 name='id' type='INTEGER' notnull=1 dflt_value=''x'' pk=1 hidden=0 "
    );
    // What cannot be read is left out, but for the default value.
    assert_eq!(shown(&get_table_info(&vec![vec![blank(), text("id")]])[0]), "name='id' dflt_value=- ");
    let mut real = row();
    real[4] = Cell { integer: None, text: None, real: Some(2.5f64.to_bits()) };
    assert!(shown(&get_table_info(&vec![real])[0]).contains("dflt_value=2.5"));
}

#[test]
fn indexes_are_described() {
    let rows = vec![
        vec![text("i"), text("t"), text("create unique index i on t(a)")],
        vec![text("j"), text("t"), text("CREATE INDEX j ON t(b)")],
        vec![text("k"), text("t"), blank()],
    ];
    let out = get_indexes(&rows);
    assert_eq!(
        shown(&out[0]),
        "name='i' table='t' unique=1 sql='create unique index i on t(a)' "
    );
    assert!(shown(&out[1]).contains("unique=0"));
    assert_eq!(shown(&out[2]), "name='k' table='t' unique=0 sql=- ");
    for sql in ["CREATE UNIQUE INDEX i ON t(a)", "create\n unique index i on t(a)"] {
        assert!(is_unique(sql));
    }
    for sql in [
        "CREATE INDEX idx_unique_a ON t(a)",
        "CREATE INDEX i ON \"unique\"(a)",
        "CREATE UNIQUELY",
        "CREATEUNIQUE INDEX",
        "UNIQUE",
    ] {
        assert!(!is_unique(sql));
    }
}

#[test]
fn keys_and_index_columns_are_described() {
    let row = vec![
        number(0),
        number(0),
        text("p"),
        text("a"),
        text("b"),
        text("NO ACTION"),
        text("CASCADE"),
        text("NONE"),
    ];
    assert_eq!(
        shown(&get_foreign_keys(&vec![row])[0]),
        "id=0 seq=0 table='p' from='a' to='b' on_update='NO ACTION' on_delete='CASCADE' match='NONE' "
    );
    let row = vec![number(0), text("i"), number(1), blank(), number(0)];
    assert_eq!(
        shown(&get_index_list(&vec![row])[0]),
        "seq=0 name='i' unique=1 origin=- partial=0 "
    );
    let row = vec![number(0), number(2), text("a")];
    assert_eq!(shown(&get_index_info(&vec![row])[0]), "seqno=0 cid=2 name='a' ");
}

#[test]
fn names_are_read_off_the_first_column() {
    assert_eq!(
        get_names(&vec![vec![text("b")], vec![blank()], vec![], vec![text("a")]]),
        vec!["b".to_string(), "a".to_string()]
    );
}

#[test]
fn a_schema_is_walked_through() {
    let tables = vec!["a".to_string(), "b".to_string()];
    assert_eq!(walk_query(&tables, 0).unwrap(), "PRAGMA table_info('a')");
    assert_eq!(walk_query(&tables, 4).unwrap(), indexes_query(&Some("b".to_string())));
    assert_eq!(walk_query(&tables, 5).unwrap(), "PRAGMA foreign_key_list('b')");
    assert_eq!(walk_query(&tables, 6), None);
    assert_eq!(walk_query(&vec![], 0), None);
}

#[test]
fn a_schema_is_given_as_it_was_asked_for() {
    let tables = vec!["a".to_string()];
    let walk = || vec![vec![vec![number(0), text("id")]], vec![vec![text("i")]], vec![]];
    match get_schema(&Some("a".to_string()), &tables, &walk()) {
        Schema::Table(schema) => {
            assert_eq!(schema.table_name, "a");
            assert!(shown(&schema.columns[0]).starts_with("cid=0 name='id'"));
            assert!(shown(&schema.indexes[0]).starts_with("name='i'"));
            assert_eq!(schema.foreign_keys.len(), 0);
        }
        _ => panic!(),
    }
    assert!(matches!(
        get_schema(&Some("x".to_string()), &vec![], &vec![]),
        Schema::Missing
    ));
    match get_schema(&None, &tables, &walk()) {
        Schema::Tables(names) => assert_eq!(names, tables),
        _ => panic!(),
    }
}
