//! The statements of the library, run by SQLite.

use rapsqlite::cache::{
    cleanup_expired_operation, delete_operation, get_operation, initialize_operation,
    set_operation, CacheOperation,
};
use rapsqlite::dump::{
    cell_value, dumped_tables, iterdump, rows_query, schema_query, CellReads, SchemaRow, TableRows,
};
use rapsqlite::pragmas::{pragma_query, pragma_value, PragmaValue};
use rapsqlite::schema::{
    describe_query, get_indexes, get_names, get_table_info, indexes_query, tables_query, Cell,
    Description, SchemaValue,
};
use rapsqlite::transaction::{begin_sql, busy_timeout_sql, Ending, IsolationLevel};
use sqlx::{Column, Connection, Row, SqliteConnection};

fn with_database<F>(work: F)
where
    F: AsyncFnOnce(&mut SqliteConnection),
{
    let runtime = tokio::runtime::Builder::new_current_thread().enable_time().build().unwrap();
    runtime.block_on(async {
        let mut connection = SqliteConnection::connect("sqlite::memory:").await.unwrap();
        work(&mut connection).await;
    });
}

async fn run(connection: &mut SqliteConnection, sql: &str) -> u64 {
    sqlx::query(sql).execute(connection).await.unwrap().rows_affected()
}

async fn read_cells(connection: &mut SqliteConnection, sql: &str) -> Vec<Vec<Cell>> {
    let rows = sqlx::query(sql).fetch_all(connection).await.unwrap();
    rows.iter().map(cells).collect()
}

async fn store(connection: &mut SqliteConnection, key: &str, value: &[u8], expires: Option<f64>) {
    let set = set_operation("c", key.to_string(), value.to_vec(), None).ok().unwrap();
    sqlx::query(&set.queries()[0])
        .bind(key)
        .bind(value)
        .bind(expires)
        .execute(connection)
        .await
        .unwrap();
}

async fn read(connection: &mut SqliteConnection, key: &str, now: f64) -> Option<Vec<u8>> {
    let get = get_operation("c", key.to_string()).ok().unwrap();
    sqlx::query_scalar::<_, Vec<u8>>(&get.queries()[0])
        .bind(key)
        .bind(now)
        .fetch_optional(connection)
        .await
        .unwrap()
}

#[test]
fn a_cache_gives_back_what_was_stored() {
    with_database(async |connection: &mut SqliteConnection| {
        for sql in initialize_operation("c").ok().unwrap().queries() {
            run(connection, &sql).await;
        }
        store(connection, "a", b"one", None).await;
        store(connection, "b", b"two", Some(10.0)).await;
        assert_eq!(read(connection, "a", 1e9).await, Some(b"one".to_vec()));
        assert_eq!(read(connection, "b", 9.5).await, Some(b"two".to_vec()));
        assert_eq!(read(connection, "b", 10.0).await, None);
        assert_eq!(read(connection, "x", 0.0).await, None);
        store(connection, "a", b"three", None).await;
        assert_eq!(read(connection, "a", 0.0).await, Some(b"three".to_vec()));
        let cleanup = cleanup_expired_operation("c", 10).ok().unwrap();
        let limit = match &cleanup {
            CacheOperation::CleanupExpired { limit, .. } => *limit,
            _ => panic!(),
        };
        let gone = sqlx::query(&cleanup.queries()[0])
            .bind(10.0)
            .bind(limit)
            .execute(&mut *connection)
            .await
            .unwrap()
            .rows_affected();
        assert_eq!(gone, 1);
        let delete = delete_operation("c", "a".to_string()).ok().unwrap();
        let gone = sqlx::query(&delete.queries()[0])
            .bind("a")
            .execute(&mut *connection)
            .await
            .unwrap()
            .rows_affected();
        assert_eq!(gone, 1);
        assert_eq!(read(connection, "a", 0.0).await, None);
    });
}

#[test]
fn cleaning_up_takes_what_expired_first() {
    with_database(async |connection: &mut SqliteConnection| {
        for sql in initialize_operation("c").ok().unwrap().queries() {
            run(connection, &sql).await;
        }
        store(connection, "late", b"1", Some(3.0)).await;
        store(connection, "early", b"2", Some(1.0)).await;
        store(connection, "middle", b"3", Some(2.0)).await;
        store(connection, "live", b"4", Some(9.0)).await;
        store(connection, "always", b"5", None).await;
        let cleanup = cleanup_expired_operation("c", 2).ok().unwrap();
        let mut left = Vec::new();
        for expected in [2, 1, 0] {
            let done = sqlx::query(&cleanup.queries()[0])
                .bind(5.0)
                .bind(2)
                .execute(&mut *connection)
                .await
                .unwrap();
            assert_eq!(done.rows_affected(), expected);
            left.push(read(connection, "late", 0.0).await.is_some());
        }
        assert_eq!(left, vec![true, false, false]);
        assert_eq!(read(connection, "early", 0.0).await, None);
        assert_eq!(read(connection, "live", 5.0).await, Some(b"4".to_vec()));
        assert_eq!(read(connection, "always", 5.0).await, Some(b"5".to_vec()));
    });
}

async fn dump(connection: &mut SqliteConnection) -> Vec<String> {
    let rows = sqlx::query(schema_query()).fetch_all(&mut *connection).await.unwrap();
    let schema: Vec<SchemaRow> = rows
        .iter()
        .map(|row| SchemaRow { kind: row.get(0), name: row.get(1), sql: row.get(2) })
        .collect();
    let mut data = Vec::new();
    for table in dumped_tables(&schema) {
        let rows = sqlx::query(&rows_query(&table)).fetch_all(&mut *connection).await.unwrap();
        let columns = match rows.first() {
            Some(row) => row.columns().iter().map(|c| c.name().to_string()).collect(),
            None => Vec::new(),
        };
        let rows = rows
            .iter()
            .map(|row| {
                (0..row.len())
                    .map(|i| {
                        cell_value(CellReads {
                            integer: row.try_get::<Option<i64>, _>(i).unwrap_or(None),
                            real: row
                                .try_get::<Option<f64>, _>(i)
                                .unwrap_or(None)
                                .map(|f| f.to_string()),
                            text: row.try_get::<Option<String>, _>(i).unwrap_or(None),
                            blob: row.try_get::<Option<Vec<u8>>, _>(i).unwrap_or(None),
                        })
                    })
                    .collect()
            })
            .collect();
        data.push(TableRows { columns, rows });
    }
    iterdump(&schema, &data)
}

#[test]
fn a_dump_makes_the_same_database() {
    with_database(async |connection: &mut SqliteConnection| {
        for sql in [
            "CREATE TABLE t(id INTEGER PRIMARY KEY, \"odd \"\"name\" TEXT, b BLOB, r REAL)",
            "CREATE INDEX i ON t(r)",
            "CREATE TABLE log(n INTEGER)",
            "CREATE TABLE counted(id INTEGER PRIMARY KEY AUTOINCREMENT, any)",
            "INSERT INTO counted(any) VALUES (1.0), (1), ('1'), (-9e999), (1e300)",
            "INSERT INTO counted(any) VALUES (CAST(X'610062' AS TEXT))",
            "CREATE TRIGGER g AFTER INSERT ON t BEGIN INSERT INTO log VALUES (new.id); END",
            "INSERT INTO t VALUES (1, 'it''s', X'00FF', 1.5)",
            "INSERT INTO t VALUES (2, NULL, NULL, NULL)",
        ] {
            run(connection, sql).await;
        }
        let first = dump(connection).await;
        let mut other = SqliteConnection::connect("sqlite::memory:").await.unwrap();
        for sql in &first {
            run(&mut other, sql).await;
        }
        let second = dump(&mut other).await;
        assert_eq!(first, second);
        assert_eq!(first.first().unwrap(), "BEGIN TRANSACTION;");
        let classes = "SELECT group_concat(typeof(any) || quote(any)) FROM counted";
        let before: String =
            sqlx::query_scalar(classes).fetch_one(&mut *connection).await.unwrap();
        let after: String = sqlx::query_scalar(classes).fetch_one(&mut other).await.unwrap();
        assert_eq!(before, after);
        assert!(before.starts_with("real1.0,integer1,text'1',"));
    });
}

#[test]
fn pragmas_and_transactions_are_understood() {
    with_database(async |connection: &mut SqliteConnection| {
        run(connection, &busy_timeout_sql(1234)).await;
        let timeout: i64 = sqlx::query_scalar("PRAGMA busy_timeout")
            .fetch_one(&mut *connection)
            .await
            .unwrap();
        assert_eq!(timeout, 1234);
        let value = pragma_value(&PragmaValue::Int(7));
        run(connection, &pragma_query("user_version", &value)).await;
        let version: i64 = sqlx::query_scalar("PRAGMA user_version")
            .fetch_one(&mut *connection)
            .await
            .unwrap();
        assert_eq!(version, 7);
        for level in [
            None,
            Some(IsolationLevel::Deferred),
            Some(IsolationLevel::Immediate),
            Some(IsolationLevel::Exclusive),
        ] {
            run(connection, &begin_sql(level)).await;
            run(connection, Ending::Commit.sql()).await;
            run(connection, &begin_sql(level)).await;
            run(connection, Ending::Rollback.sql()).await;
        }
    });
}

fn cells(row: &sqlx::sqlite::SqliteRow) -> Vec<Cell> {
    (0..row.len())
        .map(|i| Cell {
            integer: row.try_get::<i64, _>(i).ok(),
            text: row.try_get::<String, _>(i).ok(),
            real: row.try_get::<f64, _>(i).ok().map(f64::to_bits),
        })
        .collect()
}

#[test]
fn only_what_sqlite_keeps_for_itself_is_left_out() {
    with_database(async |connection: &mut SqliteConnection| {
        for sql in [
            "CREATE TABLE sqlite3_data(a UNIQUE)",
            "CREATE TABLE \"it's\"(id INTEGER PRIMARY KEY AUTOINCREMENT)",
            "CREATE INDEX idx_unique_a ON sqlite3_data(a)",
            "CREATE UNIQUE INDEX sqlite3_index ON sqlite3_data(a)",
        ] {
            run(connection, sql).await;
        }
        let names = read_cells(connection, &tables_query(&None)).await;
        assert_eq!(get_names(&names), vec!["it's".to_string(), "sqlite3_data".to_string()]);
        let one = read_cells(connection, &tables_query(&Some("it's".to_string()))).await;
        assert_eq!(get_names(&one), vec!["it's".to_string()]);
        let kept = read_cells(connection, &tables_query(&Some("sqlite_sequence".to_string()))).await;
        assert!(get_names(&kept).is_empty());
        let indexes = get_indexes(&read_cells(connection, &indexes_query(&None)).await);
        let unique: Vec<bool> = indexes
            .iter()
            .map(|fields| matches!(fields[2].value, SchemaValue::Int(1)))
            .collect();
        assert_eq!(unique, vec![false, true]);
    });
}

#[test]
fn the_schema_of_a_table_with_an_odd_name_is_read() {
    with_database(async |connection: &mut SqliteConnection| {
        run(connection, "CREATE TABLE \"it's\"(id INTEGER PRIMARY KEY, n TEXT DEFAULT 'x')").await;
        let name = "it's".to_string();
        let rows = sqlx::query(&tables_query(&Some(name.clone())))
            .fetch_all(&mut *connection)
            .await
            .unwrap();
        let rows: Vec<Vec<Cell>> = rows.iter().map(cells).collect();
        assert_eq!(get_names(&rows), vec![name.clone()]);
        let rows = sqlx::query(&describe_query(Description::TableInfo, &name))
            .fetch_all(&mut *connection)
            .await
            .unwrap();
        let rows: Vec<Vec<Cell>> = rows.iter().map(cells).collect();
        let info = get_table_info(&rows);
        assert_eq!(info.len(), 2);
        let default = info[1].iter().find(|f| f.key == "dflt_value").unwrap();
        assert!(matches!(&default.value, SchemaValue::Text(s) if s == "'x'"));
        let key = info[0].iter().find(|f| f.key == "pk").unwrap();
        assert!(matches!(&key.value, SchemaValue::Int(1)));
    });
}
