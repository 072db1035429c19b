//! Writing a database out as SQL statements that recreate it.

use crate::text;
use vstd::prelude::*;
use vstd::string::*;

verus! {

/// A row of the schema table.
pub struct SchemaRow {
    /// What the row describes: a table, an index, a view or a trigger.
    pub kind: String,
    pub name: String,
    /// The statement that creates it.
    pub sql: Option<String>,
}

/// A value that is written out.
pub enum DumpValue {
    Null,
    Integer(i64),
    /// A float, by its decimal digits, or as `inf` or `-inf`.
    Real { digits: String },
    Text(String),
    Blob(Vec<u8>),
}

/// What reading a cell as each type gives, where it gives anything.
pub struct CellReads {
    pub integer: Option<i64>,
    pub real: Option<String>,
    pub text: Option<String>,
    pub blob: Option<Vec<u8>>,
}

/// The rows of a table.
pub struct TableRows {
    /// The names of the columns, as far as they are known.
    pub columns: Vec<String>,
    pub rows: Vec<Vec<DumpValue>>,
}

/// The query that reads the schema: tables first, then indexes, triggers and
/// views, each in the order of their names.
pub fn schema_query() -> (out: &'static str)
    ensures
        out@
            == "SELECT type, name, sql FROM sqlite_master WHERE sql IS NOT NULL ORDER BY CASE type WHEN 'table' THEN 0 WHEN 'index' THEN 1 WHEN 'trigger' THEN 2 WHEN 'view' THEN 3 ELSE 4 END, name"@,
{
    "SELECT type, name, sql FROM sqlite_master WHERE sql IS NOT NULL ORDER BY CASE type WHEN 'table' THEN 0 WHEN 'index' THEN 1 WHEN 'trigger' THEN 2 WHEN 'view' THEN 3 ELSE 4 END, name"
}

/// The query that reads the rows of a table.
pub fn rows_query(table: &str) -> (out: String)
    ensures
        out@ == "SELECT * FROM "@ + text::identifier(table@),
{
    let name = text::quoted_identifier(table);
    String::from_str("SELECT * FROM ").concat(name.as_str())
}

// ---------------------------------------------------------------- values

/// The value of a cell: the first type that it can be read as counts.
pub open spec fn cell_of(reads: CellReads) -> DumpValue {
    match (reads.integer, reads.real, reads.text, reads.blob) {
        (Some(value), _, _, _) => DumpValue::Integer(value),
        (None, Some(digits), _, _) => DumpValue::Real { digits },
        (None, None, Some(value), _) => DumpValue::Text(value),
        (None, None, None, Some(value)) => DumpValue::Blob(value),
        (None, None, None, None) => DumpValue::Null,
    }
}

/// The value of a cell: the first type that it can be read as counts.
pub fn cell_value(reads: CellReads) -> (out: DumpValue)
    ensures
        out == cell_of(reads),
        out == (if reads.integer is Some {
            DumpValue::Integer(reads.integer->0)
        } else if reads.real is Some {
            DumpValue::Real { digits: reads.real->0 }
        } else if reads.text is Some {
            DumpValue::Text(reads.text->0)
        } else if reads.blob is Some {
            DumpValue::Blob(reads.blob->0)
        } else {
            DumpValue::Null
        }),
{
    match reads.integer {
        Some(value) => DumpValue::Integer(value),
        None => match reads.real {
            Some(digits) => DumpValue::Real { digits },
            None => match reads.text {
                Some(value) => DumpValue::Text(value),
                None => match reads.blob {
                    Some(value) => DumpValue::Blob(value),
                    None => DumpValue::Null,
                },
            },
        },
    }
}

/// A float as an SQL expression that is one, and no integer: its digits have a
/// decimal point or an exponent, and what is infinite is written as a number
/// beyond all floats.
pub open spec fn real_literal(digits: Seq<char>) -> Seq<char> {
    if digits == "inf"@ {
        "9e999"@
    } else if digits == "-inf"@ {
        "-9e999"@
    } else if digits.contains('.') || digits.contains('e') {
        digits
    } else {
        digits + ".0"@
    }
}

/// A text as an SQL expression. One with a NUL character cannot stand in a
/// statement as it is, so that its bytes are written.
pub open spec fn text_literal(value: Seq<char>) -> Seq<char> {
    if value.contains('\0') {
        "CAST(X'"@ + text::hex(vstd::utf8::encode_utf8(value)) + "' AS TEXT)"@
    } else {
        text::literal(value)
    }
}

/// A value as an SQL expression.
pub open spec fn written(value: DumpValue) -> Seq<char> {
    match value {
        DumpValue::Null => "NULL"@,
        DumpValue::Integer(value) => text::decimal(value as int),
        DumpValue::Real { digits } => real_literal(digits@),
        DumpValue::Text(value) => text_literal(value@),
        DumpValue::Blob(value) => "X'"@ + text::hex(value@) + "'"@,
    }
}

fn holds(s: &str, mark: char) -> (out: bool)
    ensures
        out == s@.contains(mark),
{
    let chars = text::characters(s);
    let mut i: usize = 0;
    while i < chars.len()
        invariant
            i <= chars@.len(),
            chars@ == s@,
            forall|j: int| 0 <= j < i ==> s@[j] != mark,
        decreases chars@.len() - i,
    {
        if chars[i] == mark {
            proof {
                assert(s@[i as int] == mark);
            }
            return true;
        }
        i += 1;
    }
    false
}

fn format_real(digits: &String) -> (out: String)
    ensures
        out@ == real_literal(digits@),
{
    if text::equal(digits.as_str(), "inf") {
        String::from_str("9e999")
    } else if text::equal(digits.as_str(), "-inf") {
        String::from_str("-9e999")
    } else if holds(digits.as_str(), '.') || holds(digits.as_str(), 'e') {
        digits.clone()
    } else {
        digits.clone().concat(".0")
    }
}

fn format_text(value: &str) -> (out: String)
    ensures
        out@ == text_literal(value@),
{
    if holds(value, '\0') {
        let digits = text::bytes_to_hex(value.as_bytes());
        let mut out = String::from_str("CAST(X'");
        out.append(digits.as_str());
        out.append("' AS TEXT)");
        out
    } else {
        text::quote_literal(value)
    }
}

/// Writes a value as an SQL expression.
pub fn format_value(value: &DumpValue) -> (out: String)
    ensures
        out@ == written(*value),
{
    match value {
        DumpValue::Null => String::from_str("NULL"),
        DumpValue::Integer(value) => text::format_signed(*value),
        DumpValue::Real { digits } => format_real(digits),
        DumpValue::Text(value) => format_text(value.as_str()),
        DumpValue::Blob(value) => {
            let digits = text::bytes_to_hex(value.as_slice());
            let mut out = String::from_str("X'");
            out.append(digits.as_str());
            out.append("'");
            out
        },
    }
}

/// The name of a column, or a made-up one where it has none.
pub open spec fn column_name(columns: Seq<String>, i: int) -> Seq<char> {
    if i < columns.len() {
        columns[i]@
    } else {
        "column_"@ + text::decimal(i)
    }
}

/// The quoted names of the first columns.
pub open spec fn column_list(columns: Seq<String>, count: nat) -> Seq<Seq<char>> {
    Seq::new(count, |i: int| text::identifier(column_name(columns, i)))
}

/// The first values of a row; a row that is too short is filled up with NULL.
pub open spec fn value_list(row: Seq<DumpValue>, count: nat) -> Seq<Seq<char>> {
    Seq::new(
        count,
        |i: int|
            if i < row.len() {
                written(row[i])
            } else {
                "NULL"@
            },
    )
}

/// The statement that inserts a row.
pub open spec fn insert_statement(
    table: Seq<char>,
    columns: Seq<String>,
    row: Seq<DumpValue>,
    count: nat,
) -> Seq<char> {
    "INSERT INTO "@ + text::identifier(table) + " ("@ + text::joined(
        column_list(columns, count),
        ", "@,
    ) + ") VALUES ("@ + text::joined(value_list(row, count), ", "@) + ");"@
}

/// The statements that insert the rows of a table. The first row says how many
/// columns there are.
pub open spec fn inserts(table: Seq<char>, data: TableRows) -> Seq<Seq<char>> {
    Seq::new(
        data.rows@.len(),
        |r: int|
            insert_statement(table, data.columns@, data.rows@[r]@, data.rows@[0]@.len()),
    )
}

fn column_names(columns: &Vec<String>, count: usize) -> (out: Vec<String>)
    ensures
        text::texts(out@) == column_list(columns@, count as nat),
{
    let mut out: Vec<String> = Vec::new();
    let mut i: usize = 0;
    while i < count
        invariant
            i <= count,
            out@.len() == i,
            forall|j: int|
                0 <= j < i ==> (#[trigger] out@[j])@ == text::identifier(column_name(columns@, j)),
        decreases count - i,
    {
        let quoted = if i < columns.len() {
            text::quoted_identifier(columns[i].as_str())
        } else {
            let number = text::format_unsigned(i as u64);
            let name = String::from_str("column_").concat(number.as_str());
            text::quoted_identifier(name.as_str())
        };
        out.push(quoted);
        i += 1;
    }
    proof {
        assert(text::texts(out@) =~= column_list(columns@, count as nat));
    }
    out
}

fn row_values(row: &Vec<DumpValue>, count: usize) -> (out: Vec<String>)
    ensures
        text::texts(out@) == value_list(row@, count as nat),
{
    let mut out: Vec<String> = Vec::new();
    let mut i: usize = 0;
    while i < count
        invariant
            i <= count,
            out@.len() == i,
            forall|j: int|
                0 <= j < i ==> (#[trigger] out@[j])@ == value_list(row@, count as nat)[j],
        decreases count - i,
    {
        let value = if i < row.len() {
            format_value(&row[i])
        } else {
            String::from_str("NULL")
        };
        out.push(value);
        i += 1;
    }
    proof {
        assert(text::texts(out@) =~= value_list(row@, count as nat));
    }
    out
}

/// Writes the statements that insert the rows of a table.
pub fn insert_statements(table: &str, data: &TableRows) -> (out: Vec<String>)
    ensures
        text::texts(out@) == inserts(table@, *data),
{
    let mut out: Vec<String> = Vec::new();
    if data.rows.len() == 0 {
        proof {
            assert(text::texts(out@) =~= inserts(table@, *data));
        }
        return out;
    }
    let count: usize = data.rows[0].len();
    let name = text::quoted_identifier(table);
    let names = column_names(&data.columns, count);
    let columns = text::join(&names, ", ");
    let mut r: usize = 0;
    while r < data.rows.len()
        invariant
            0 < data.rows@.len(),
            count == data.rows@[0]@.len(),
            name@ == text::identifier(table@),
            columns@ == text::joined(column_list(data.columns@, count as nat), ", "@),
            r <= data.rows@.len(),
            out@.len() == r,
            forall|j: int|
                0 <= j < r ==> (#[trigger] out@[j])@ == insert_statement(
                    table@,
                    data.columns@,
                    data.rows@[j]@,
                    count as nat,
                ),
        decreases data.rows@.len() - r,
    {
        let values = row_values(&data.rows[r], count);
        let list = text::join(&values, ", ");
        let mut statement = String::from_str("INSERT INTO ");
        statement.append(name.as_str());
        statement.append(" (");
        statement.append(columns.as_str());
        statement.append(") VALUES (");
        statement.append(list.as_str());
        statement.append(");");
        out.push(statement);
        r += 1;
    }
    proof {
        assert(text::texts(out@) =~= inserts(table@, *data));
    }
    out
}

// ---------------------------------------------------------------- the dump

/// Whether a name is one that SQLite keeps for itself.
pub open spec fn internal(name: Seq<char>) -> bool {
    "sqlite_"@.is_prefix_of(name)
}

/// Whether a row is of this kind and has a statement.
pub open spec fn creates(row: SchemaRow, kind: Seq<char>) -> bool {
    row.kind@ == kind && row.sql is Some
}

/// The statements of the rows of a kind, in order; where it is asked for,
/// without what SQLite keeps for itself.
pub open spec fn created(rows: Seq<SchemaRow>, kind: Seq<char>, skip_internal: bool) -> Seq<
    Seq<char>,
>
    decreases rows.len(),
{
    if rows.len() == 0 {
        Seq::empty()
    } else {
        let before = created(rows.drop_last(), kind, skip_internal);
        let row = rows.last();
        if creates(row, kind) && !(skip_internal && internal(row.name@)) {
            before.push(row.sql->0@ + ";"@)
        } else {
            before
        }
    }
}

/// The tables whose rows are written out, in order.
pub open spec fn user_tables(rows: Seq<SchemaRow>) -> Seq<Seq<char>>
    decreases rows.len(),
{
    if rows.len() == 0 {
        Seq::empty()
    } else {
        let before = user_tables(rows.drop_last());
        let row = rows.last();
        if creates(row, "table"@) && !internal(row.name@) {
            before.push(row.name@)
        } else {
            before
        }
    }
}

/// The statements that insert the rows of these tables, in order.
pub open spec fn all_inserts(tables: Seq<Seq<char>>, data: Seq<TableRows>) -> Seq<Seq<char>>
    decreases tables.len(),
{
    if tables.len() == 0 {
        Seq::empty()
    } else {
        all_inserts(tables.drop_last(), data) + inserts(tables.last(), data[tables.len() - 1])
    }
}

/// The whole dump: the user's tables, their rows, and then the indexes, views and
/// triggers, inside one transaction.
pub open spec fn dump(rows: Seq<SchemaRow>, data: Seq<TableRows>) -> Seq<Seq<char>> {
    seq!["BEGIN TRANSACTION;"@] + created(rows, "table"@, true) + all_inserts(
        user_tables(rows),
        data,
    ) + created(rows, "index"@, true) + created(rows, "view"@, false) + created(
        rows,
        "trigger"@,
        false,
    ) + seq!["COMMIT;"@]
}

/// Finds the tables whose rows are written out.
pub fn dumped_tables(rows: &Vec<SchemaRow>) -> (out: Vec<String>)
    ensures
        text::texts(out@) == user_tables(rows@),
{
    let mut out: Vec<String> = Vec::new();
    let mut i: usize = 0;
    proof {
        assert(text::texts(out@) =~= user_tables(rows@.take(0)));
    }
    while i < rows.len()
        invariant
            i <= rows@.len(),
            text::texts(out@) == user_tables(rows@.take(i as int)),
        decreases rows@.len() - i,
    {
        let row = &rows[i];
        proof {
            assert(rows@.take(i + 1).drop_last() == rows@.take(i as int));
        }
        if row.sql.is_some() && text::equal(row.kind.as_str(), "table") && !text::starts_with(
            row.name.as_str(),
            "sqlite_",
        ) {
            let ghost before = out@;
            out.push(row.name.clone());
            proof {
                assert(text::texts(out@) =~= text::texts(before).push(row.name@));
            }
        }
        i += 1;
    }
    proof {
        assert(rows@.take(rows@.len() as int) == rows@);
    }
    out
}

fn push_all(out: &mut Vec<String>, more: Vec<String>)
    ensures
        text::texts(final(out)@) == text::texts(old(out)@) + text::texts(more@),
{
    let mut i: usize = 0;
    proof {
        assert(text::texts(out@) =~= text::texts(old(out)@) + text::texts(more@).take(0));
    }
    while i < more.len()
        invariant
            i <= more@.len(),
            text::texts(out@) == text::texts(old(out)@) + text::texts(more@).take(i as int),
        decreases more@.len() - i,
    {
        let ghost before = out@;
        out.push(more[i].clone());
        proof {
            assert(text::texts(out@) =~= text::texts(before).push(more@[i as int]@));
            assert(text::texts(out@) =~= text::texts(old(out)@) + text::texts(more@).take(i + 1));
        }
        i += 1;
    }
    proof {
        assert(text::texts(more@).take(more@.len() as int) =~= text::texts(more@));
    }
}

fn creating_statements(rows: &Vec<SchemaRow>, kind: &str, skip_internal: bool) -> (out: Vec<String>)
    ensures
        text::texts(out@) == created(rows@, kind@, skip_internal),
{
    let mut out: Vec<String> = Vec::new();
    let mut i: usize = 0;
    proof {
        assert(text::texts(out@) =~= created(rows@.take(0), kind@, skip_internal));
    }
    while i < rows.len()
        invariant
            i <= rows@.len(),
            text::texts(out@) == created(rows@.take(i as int), kind@, skip_internal),
        decreases rows@.len() - i,
    {
        let row = &rows[i];
        proof {
            assert(rows@.take(i + 1).drop_last() == rows@.take(i as int));
        }
        match &row.sql {
            Some(sql) => {
                if text::equal(row.kind.as_str(), kind) && !(skip_internal && text::starts_with(
                    row.name.as_str(),
                    "sqlite_",
                )) {
                    let ghost before = out@;
                    let mut statement = sql.clone();
                    statement.append(";");
                    out.push(statement);
                    proof {
                        assert(text::texts(out@) =~= text::texts(before).push(sql@ + ";"@));
                    }
                }
            },
            None => {},
        }
        i += 1;
    }
    proof {
        assert(rows@.take(rows@.len() as int) == rows@);
    }
    out
}

/// Writes the whole dump from the schema and from the rows of the tables that
/// `dumped_tables` names, in that order.
pub fn iterdump(rows: &Vec<SchemaRow>, data: &Vec<TableRows>) -> (out: Vec<String>)
    requires
        data@.len() == user_tables(rows@).len(),
    ensures
        text::texts(out@) == dump(rows@, data@),
{
    let mut out: Vec<String> = Vec::new();
    out.push(String::from_str("BEGIN TRANSACTION;"));
    proof {
        assert(text::texts(out@) =~= seq!["BEGIN TRANSACTION;"@]);
    }
    push_all(&mut out, creating_statements(rows, "table", true));
    let tables = dumped_tables(rows);
    let ghost head = text::texts(out@);
    let ghost names = text::texts(tables@);
    let mut i: usize = 0;
    proof {
        assert(head =~= head + all_inserts(names.take(0), data@));
    }
    while i < tables.len()
        invariant
            i <= tables@.len(),
            tables@.len() == data@.len(),
            names == text::texts(tables@),
            text::texts(out@) == head + all_inserts(names.take(i as int), data@),
        decreases tables@.len() - i,
    {
        push_all(&mut out, insert_statements(tables[i].as_str(), &data[i]));
        proof {
            assert(names.take(i + 1).drop_last() == names.take(i as int));
            assert(names.take(i + 1).last() == tables@[i as int]@);
            assert(text::texts(out@) =~= head + all_inserts(names.take(i + 1), data@));
        }
        i += 1;
    }
    proof {
        assert(names.take(tables@.len() as int) == names);
    }
    push_all(&mut out, creating_statements(rows, "index", true));
    push_all(&mut out, creating_statements(rows, "view", false));
    push_all(&mut out, creating_statements(rows, "trigger", false));
    let ghost before = out@;
    out.push(String::from_str("COMMIT;"));
    proof {
        assert(text::texts(out@) =~= text::texts(before) + seq!["COMMIT;"@]);
    }
    out
}

// ---------------------------------------------------------------- laws

/// A dump is one transaction: it begins with `BEGIN TRANSACTION;`, ends with
/// `COMMIT;`, and holds everything else in between.
pub proof fn law_dump_is_one_transaction(rows: Seq<SchemaRow>, data: Seq<TableRows>)
    requires
        data.len() == user_tables(rows).len(),
    ensures
        dump(rows, data).len() >= 2,
        dump(rows, data).first() == "BEGIN TRANSACTION;"@,
        dump(rows, data).last() == "COMMIT;"@,
{
}

/// Where the rows of the tables end in a dump.
pub open spec fn rows_end(rows: Seq<SchemaRow>, data: Seq<TableRows>) -> int {
    1int + created(rows, "table"@, true).len() + all_inserts(user_tables(rows), data).len()
}

/// Tables and their rows come first. Every index, view and trigger is created
/// behind the last row, views before triggers, so that no trigger fires while
/// rows are inserted and each finds its view.
pub proof fn law_triggers_come_last(rows: Seq<SchemaRow>, data: Seq<TableRows>)
    requires
        data.len() == user_tables(rows).len(),
    ensures
        ({
            let all = dump(rows, data);
            let k = rows_end(rows, data);
            let indexes = created(rows, "index"@, true);
            let views = created(rows, "view"@, false);
            let triggers = created(rows, "trigger"@, false);
            &&& all.subrange(1, k) == created(rows, "table"@, true) + all_inserts(
                user_tables(rows),
                data,
            )
            &&& all.subrange(k, all.len() - 1) == indexes + views + triggers
        }),
{
    let all = dump(rows, data);
    let k = rows_end(rows, data);
    assert(all.subrange(1, k) =~= created(rows, "table"@, true) + all_inserts(
        user_tables(rows),
        data,
    ));
    assert(all.subrange(k, all.len() - 1) =~= created(rows, "index"@, true) + created(
        rows,
        "view"@,
        false,
    ) + created(rows, "trigger"@, false));
}

/// Whether a table is the user's own.
pub open spec fn user_table(row: SchemaRow) -> bool {
    creates(row, "table"@) && !internal(row.name@)
}

/// The rows of a table are written out exactly where the table is the user's
/// own.
pub proof fn law_user_tables_are_dumped(rows: Seq<SchemaRow>, name: Seq<char>)
    ensures
        user_tables(rows).contains(name) <==> exists|i: int|
            0 <= i < rows.len() && user_table(#[trigger] rows[i]) && rows[i].name@ == name,
    decreases rows.len(),
{
    if rows.len() > 0 {
        let before = rows.drop_last();
        law_user_tables_are_dumped(before, name);
        let last = rows.len() - 1;
        if user_tables(rows).contains(name) {
            if user_table(rows[last]) && rows[last].name@ == name {
            } else {
                let n = choose|n: int|
                    0 <= n < user_tables(rows).len() && user_tables(rows)[n] == name;
                if user_table(rows[last]) && n == user_tables(rows).len() - 1 {
                    assert(rows[last].name@ == name);
                }
                assert(user_tables(before)[n] == name);
                assert(user_tables(before).contains(name));
                let i = choose|i: int|
                    0 <= i < before.len() && user_table(#[trigger] before[i]) && before[i].name@
                        == name;
                assert(rows[i] == before[i]);
            }
        }
        if exists|i: int|
            0 <= i < rows.len() && user_table(#[trigger] rows[i]) && rows[i].name@ == name {
            let i = choose|i: int|
                0 <= i < rows.len() && user_table(#[trigger] rows[i]) && rows[i].name@ == name;
            if i == last {
                assert(user_tables(rows).last() == name);
                assert(user_tables(rows)[user_tables(rows).len() - 1] == name);
            } else {
                assert(before[i] == rows[i]);
                assert(user_tables(before).contains(name));
                let n = choose|n: int|
                    0 <= n < user_tables(before).len() && user_tables(before)[n] == name;
                assert(user_tables(rows)[n] == name);
            }
        }
    }
}

/// As many tables are created as have their rows written out: nothing that
/// SQLite keeps for itself is created.
pub proof fn law_created_tables_are_the_users(rows: Seq<SchemaRow>)
    ensures
        created(rows, "table"@, true).len() == user_tables(rows).len(),
    decreases rows.len(),
{
    if rows.len() > 0 {
        law_created_tables_are_the_users(rows.drop_last());
    }
}

/// A float is never written as an integer: it has a decimal point or an
/// exponent.
pub proof fn law_real_stays_real(digits: Seq<char>)
    ensures
        real_literal(digits).contains('.') || real_literal(digits).contains('e'),
{
    reveal_strlit("9e999");
    reveal_strlit("-9e999");
    reveal_strlit(".0");
    assert("9e999"@[1] == 'e');
    assert("-9e999"@[2] == 'e');
    assert((digits + ".0"@)[digits.len() as int] == '.');
}

/// Each row of a table becomes one statement, with as many values as the
/// statement has columns.
pub proof fn law_each_row_is_inserted(table: Seq<char>, data: TableRows)
    ensures
        inserts(table, data).len() == data.rows@.len(),
        forall|r: int|
            #![trigger data.rows@[r]]
            0 <= r < data.rows@.len() ==> column_list(data.columns@, data.rows@[0]@.len()).len()
                == value_list(data.rows@[r]@, data.rows@[0]@.len()).len(),
{
}

/// A float that already reads as one is written by its own digits; what is
/// infinite is written as a number beyond all floats, with its sign; and other
/// digits get a decimal point and a zero behind them.
pub proof fn law_real_literals(digits: Seq<char>)
    ensures
        digits == "inf"@ ==> real_literal(digits) == "9e999"@,
        digits == "-inf"@ ==> real_literal(digits) == "-9e999"@,
        digits.contains('.') || digits.contains('e') ==> real_literal(digits) == digits,
        digits != "inf"@ && digits != "-inf"@ && !digits.contains('.') && !digits.contains('e')
            ==> real_literal(digits) == digits + ".0"@,
{
    reveal_strlit("inf");
    reveal_strlit("-inf");
    assert forall|i: int| 0 <= i < "inf"@.len() implies "inf"@[i] != '.' && "inf"@[i] != 'e' by {}
    assert forall|i: int| 0 <= i < "-inf"@.len() implies "-inf"@[i] != '.' && "-inf"@[i]
        != 'e' by {}
    assert("inf"@.len() != "-inf"@.len());
}

/// What SQLite keeps for itself is told by how its name begins.
pub proof fn law_internal_names(rest: Seq<char>, name: Seq<char>)
    ensures
        internal("sqlite_"@ + rest),
        internal(name) ==> name.len() >= 7 && name.take(7) == "sqlite_"@,
{
    reveal_strlit("sqlite_");
    assert(("sqlite_"@ + rest).take(7) =~= "sqlite_"@);
    assert("sqlite_"@.is_prefix_of("sqlite_"@ + rest));
    if internal(name) {
        assert(name.take(7) =~= "sqlite_"@);
    }
}

/// The schema is written row by row, in order: a row of the kind that is asked
/// for gives its statement with a semicolon behind it, unless it has none or
/// SQLite keeps it for itself and such rows are left out; and the rows of a
/// table are written out for each table of the user's own, in the same order.
pub proof fn law_schema_is_written_row_by_row(
    rows: Seq<SchemaRow>,
    row: SchemaRow,
    kind: Seq<char>,
    skip_internal: bool,
)
    ensures
        created(Seq::empty(), kind, skip_internal).len() == 0,
        created(rows.push(row), kind, skip_internal) == if row.kind@ == kind && row.sql is Some
            && !(skip_internal && "sqlite_"@.is_prefix_of(row.name@)) {
            created(rows, kind, skip_internal).push(row.sql->0@ + ";"@)
        } else {
            created(rows, kind, skip_internal)
        },
        user_tables(Seq::empty()).len() == 0,
        user_tables(rows.push(row)) == if row.kind@ == "table"@ && row.sql is Some
            && !"sqlite_"@.is_prefix_of(row.name@) {
            user_tables(rows).push(row.name@)
        } else {
            user_tables(rows)
        },
{
    assert(rows.push(row).drop_last() =~= rows);
}

/// A dump is, in this order: the beginning of a transaction, the tables, their
/// rows, the indexes, the views, the triggers, and the end of the transaction.
pub proof fn law_dump_has_its_order(rows: Seq<SchemaRow>, data: Seq<TableRows>)
    ensures
        ({
            let all = dump(rows, data);
            let tables = created(rows, "table"@, true);
            let filling = all_inserts(user_tables(rows), data);
            let indexes = created(rows, "index"@, true);
            let views = created(rows, "view"@, false);
            let triggers = created(rows, "trigger"@, false);
            let a = 1 + tables.len() as int;
            let b = a + filling.len();
            let c = b + indexes.len();
            let d = c + views.len();
            let e = d + triggers.len();
            &&& all.len() == e + 1
            &&& all[0] == "BEGIN TRANSACTION;"@
            &&& all.subrange(1, a) == tables
            &&& all.subrange(a, b) == filling
            &&& all.subrange(b, c) == indexes
            &&& all.subrange(c, d) == views
            &&& all.subrange(d, e) == triggers
            &&& all[e] == "COMMIT;"@
        }),
{
    let all = dump(rows, data);
    let tables = created(rows, "table"@, true);
    let filling = all_inserts(user_tables(rows), data);
    let indexes = created(rows, "index"@, true);
    let views = created(rows, "view"@, false);
    let triggers = created(rows, "trigger"@, false);
    let a = 1 + tables.len() as int;
    let b = a + filling.len();
    let c = b + indexes.len();
    let d = c + views.len();
    let e = d + triggers.len();
    assert(all.subrange(1, a) =~= tables);
    assert(all.subrange(a, b) =~= filling);
    assert(all.subrange(b, c) =~= indexes);
    assert(all.subrange(c, d) =~= views);
    assert(all.subrange(d, e) =~= triggers);
}

/// The columns of a statement that inserts a row are those that are known, and
/// made-up ones behind them; the values are those of the row, and NULL where the
/// row is too short.
pub proof fn law_insert_fills_up(columns: Seq<String>, row: Seq<DumpValue>, count: nat, i: int)
    requires
        0 <= i < count,
    ensures
        column_list(columns, count).len() == count,
        value_list(row, count).len() == count,
        column_list(columns, count)[i] == text::identifier(
            if i < columns.len() {
                columns[i]@
            } else {
                "column_"@ + text::decimal(i)
            },
        ),
        value_list(row, count)[i] == if i < row.len() {
            written(row[i])
        } else {
            "NULL"@
        },
{
}

/// A cell that can be read as one type alone is written out as exactly what that
/// read gives, and one that can be read as none as NULL; of several the first
/// counts, integers before floats before texts before BLOBs.
pub proof fn law_cell_is_written_as_it_reads(reads: CellReads)
    ensures
        reads.integer matches Some(n) ==> cell_of(reads) == DumpValue::Integer(n),
        reads.integer is None ==> (reads.real matches Some(digits) ==> cell_of(reads)
            == (DumpValue::Real { digits })),
        reads.integer is None && reads.real is None ==> (reads.text matches Some(s) ==> cell_of(
            reads,
        ) == DumpValue::Text(s)),
        reads.integer is None && reads.real is None && reads.text is None ==> match reads.blob {
            Some(bytes) => cell_of(reads) == DumpValue::Blob(bytes),
            None => cell_of(reads) is Null,
        },
{
}

} // verus!
