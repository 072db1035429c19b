//! Describing the schema of a database: the queries that read it, and what is
//! made of their rows.

use crate::text;
use vstd::prelude::*;
use vstd::string::*;

verus! {

/// What reading a cell of a row as each type gives, where it gives anything.
pub struct Cell {
    pub integer: Option<i64>,
    pub text: Option<String>,
    /// A float, by the bits of its IEEE form.
    pub real: Option<u64>,
}

/// A value in a description.
pub enum SchemaValue {
    Nothing,
    Int(i64),
    Real { bits: u64 },
    Text(String),
}

/// An entry of a description.
pub struct Field {
    pub key: &'static str,
    pub value: SchemaValue,
}

/// How an entry is made from a cell.
#[derive(Clone, Copy, PartialEq, Eq, Structural)]
pub enum ColumnKind {
    /// A number; left out where the cell holds none.
    Int,
    /// A text; left out where the cell holds none.
    Text,
    /// A text, or nothing.
    TextOrNothing,
    /// A default value: a text, a number or a float, or nothing.
    Default,
    /// Whether the cell holds a statement that creates a unique index, as 1 or
    /// 0.
    Unique,
}

/// Which cell an entry is made from, and how.
pub struct PlanColumn {
    pub key: &'static str,
    pub column: usize,
    pub kind: ColumnKind,
}

// ---------------------------------------------------------------- queries

/// The query for the names of all tables, or of one.
pub open spec fn tables_statement(name: Option<Seq<char>>) -> Seq<char> {
    match name {
        Some(name) => "SELECT name FROM sqlite_master WHERE type='table' AND name = "@
            + text::literal(name) + " AND name NOT LIKE 'sqlite\\_%' ESCAPE '\\'"@,
        None =>
            "SELECT name FROM sqlite_master WHERE type='table' AND name NOT LIKE 'sqlite\\_%' ESCAPE '\\' ORDER BY name"@,
    }
}

/// The query for all indexes, or for those of a table.
pub open spec fn indexes_statement(table: Option<Seq<char>>) -> Seq<char> {
    match table {
        Some(table) =>
            "SELECT name, tbl_name, sql FROM sqlite_master WHERE type='index' AND tbl_name = "@
            + text::literal(table) + " AND name NOT LIKE 'sqlite\\_%' ESCAPE '\\' ORDER BY name"@,
        None =>
            "SELECT name, tbl_name, sql FROM sqlite_master WHERE type='index' AND name NOT LIKE 'sqlite\\_%' ESCAPE '\\' ORDER BY name"@,
    }
}

/// The query for the names of all views, or of one.
pub open spec fn views_statement(name: Option<Seq<char>>) -> Seq<char> {
    match name {
        Some(name) => "SELECT name FROM sqlite_master WHERE type='view' AND name = "@
            + text::literal(name),
        None => "SELECT name FROM sqlite_master WHERE type='view' ORDER BY name"@,
    }
}

/// What a pragma describes.
#[derive(Clone, Copy, PartialEq, Eq, Structural)]
pub enum Description {
    TableInfo,
    ForeignKeys,
    IndexList,
    IndexInfo,
    TableXinfo,
}

/// The pragma that describes a table or an index.
pub open spec fn describe_statement(description: Description, name: Seq<char>) -> Seq<char> {
    "PRAGMA "@ + (match description {
        Description::TableInfo => "table_info("@,
        Description::ForeignKeys => "foreign_key_list("@,
        Description::IndexList => "index_list("@,
        Description::IndexInfo => "index_info("@,
        Description::TableXinfo => "table_xinfo("@,
    }) + text::literal(name) + ")"@
}

/// Writes the query for the names of all tables, or of one.
pub fn tables_query(name: &Option<String>) -> (out: String)
    ensures
        out@ == tables_statement(text::text_of(*name)),
{
    match name {
        Some(name) => {
            let literal = text::quote_literal(name.as_str());
            let mut out = String::from_str(
                "SELECT name FROM sqlite_master WHERE type='table' AND name = ",
            );
            out.append(literal.as_str());
            out.append(" AND name NOT LIKE 'sqlite\\_%' ESCAPE '\\'");
            out
        },
        None => String::from_str(
            "SELECT name FROM sqlite_master WHERE type='table' AND name NOT LIKE 'sqlite\\_%' ESCAPE '\\' ORDER BY name",
        ),
    }
}

fn table_indexes_query(table: &String) -> (out: String)
    ensures
        out@ == indexes_statement(Some(table@)),
{
    let literal = text::quote_literal(table.as_str());
    let mut out = String::from_str(
        "SELECT name, tbl_name, sql FROM sqlite_master WHERE type='index' AND tbl_name = ",
    );
    out.append(literal.as_str());
    out.append(" AND name NOT LIKE 'sqlite\\_%' ESCAPE '\\' ORDER BY name");
    out
}

/// Writes the query for all indexes, or for those of a table.
pub fn indexes_query(table: &Option<String>) -> (out: String)
    ensures
        out@ == indexes_statement(text::text_of(*table)),
{
    match table {
        Some(table) => table_indexes_query(table),
        None => String::from_str(
            "SELECT name, tbl_name, sql FROM sqlite_master WHERE type='index' AND name NOT LIKE 'sqlite\\_%' ESCAPE '\\' ORDER BY name",
        ),
    }
}

/// Writes the query for the names of all views, or of one.
pub fn views_query(name: &Option<String>) -> (out: String)
    ensures
        out@ == views_statement(text::text_of(*name)),
{
    match name {
        Some(name) => {
            let literal = text::quote_literal(name.as_str());
            String::from_str("SELECT name FROM sqlite_master WHERE type='view' AND name = ").concat(
                literal.as_str(),
            )
        },
        None => String::from_str("SELECT name FROM sqlite_master WHERE type='view' ORDER BY name"),
    }
}

/// Writes the pragma that describes a table or an index.
pub fn describe_query(description: Description, name: &String) -> (out: String)
    ensures
        out@ == describe_statement(description, name@),
{
    let literal = text::quote_literal(name.as_str());
    let mut out = String::from_str("PRAGMA ");
    match description {
        Description::TableInfo => out.append("table_info("),
        Description::ForeignKeys => out.append("foreign_key_list("),
        Description::IndexList => out.append("index_list("),
        Description::IndexInfo => out.append("index_info("),
        Description::TableXinfo => out.append("table_xinfo("),
    }
    out.append(literal.as_str());
    out.append(")");
    out
}

/// A pragma names exactly the table or index that was asked for: what stands
/// between its parentheses reads back as the name, and nothing but the closing
/// parenthesis follows it.
pub proof fn law_pragma_names_its_subject(description: Description, name: Seq<char>)
    ensures
        exists|at: int|
            0 < at < describe_statement(description, name).len() && text::read_quoted(
                #[trigger] describe_statement(description, name).skip(at),
                '\'',
            ) == Some((name, describe_statement(description, name).len() - 1 - at)),
{
    let all = describe_statement(description, name);
    let word = match description {
        Description::TableInfo => "table_info("@,
        Description::ForeignKeys => "foreign_key_list("@,
        Description::IndexList => "index_list("@,
        Description::IndexInfo => "index_info("@,
        Description::TableXinfo => "table_xinfo("@,
    };
    let at = "PRAGMA "@.len() + word.len() + 1;
    reveal_strlit(")");
    text::law_quoted_reads_back(name, '\'', ")"@);
    assert(all.skip(at as int) =~= (text::quoted(name, '\'') + ")"@).skip(1));
    assert(all.len() == at - 1 + text::quoted(name, '\'').len() + 1);
}

// ---------------------------------------------------------------- descriptions

/// A cell that gives nothing.
pub open spec fn blank_cell() -> Cell {
    Cell { integer: None, text: None, real: None }
}

/// A cell of a row; one that the row does not have gives nothing.
pub open spec fn cell_at(row: Seq<Cell>, column: int) -> Cell {
    if 0 <= column < row.len() {
        row[column]
    } else {
        blank_cell()
    }
}

/// Whether the word UNIQUE stands at this place of a statement in upper case,
/// with CREATE before it and nothing but white space between the two.
pub open spec fn unique_at(upper: Seq<char>, at: int) -> bool {
    &&& "CREATE"@.is_prefix_of(upper)
    &&& 6 < at
    &&& text::stands_at(upper, "UNIQUE"@, at)
    &&& forall|i: int| 6 <= i < at ==> text::white(#[trigger] upper[i])
    &&& at + 6 < upper.len() && text::white(upper[at + 6])
}

/// Whether a statement creates a unique index: UNIQUE is the word behind
/// CREATE.
pub open spec fn creates_unique(sql: Seq<char>) -> bool {
    exists|at: int| unique_at(text::ascii_uppercase(sql), at)
}

/// What an entry holds, where it is not left out.
pub open spec fn entry(cell: Cell, kind: ColumnKind) -> Option<SchemaValue> {
    match kind {
        ColumnKind::Int => match cell.integer {
            Some(value) => Some(SchemaValue::Int(value)),
            None => None,
        },
        ColumnKind::Text => match cell.text {
            Some(value) => Some(SchemaValue::Text(value)),
            None => None,
        },
        ColumnKind::TextOrNothing => match cell.text {
            Some(value) => Some(SchemaValue::Text(value)),
            None => Some(SchemaValue::Nothing),
        },
        ColumnKind::Default => if cell.text is Some {
            Some(SchemaValue::Text(cell.text->0))
        } else if cell.integer is Some {
            Some(SchemaValue::Int(cell.integer->0))
        } else if cell.real is Some {
            Some(SchemaValue::Real { bits: cell.real->0 })
        } else {
            Some(SchemaValue::Nothing)
        },
        ColumnKind::Unique => match cell.text {
            Some(sql) => Some(
                SchemaValue::Int(
                    if creates_unique(sql@) {
                        1
                    } else {
                        0
                    },
                ),
            ),
            None => Some(SchemaValue::Int(0)),
        },
    }
}

/// A plan as keys, columns and kinds.
pub open spec fn plan_shape(plan: Seq<PlanColumn>) -> Seq<(Seq<char>, int, ColumnKind)> {
    plan.map_values(|c: PlanColumn| (c.key@, c.column as int, c.kind))
}

/// A description as keys and values.
pub open spec fn field_shape(fields: Seq<Field>) -> Seq<(Seq<char>, SchemaValue)> {
    fields.map_values(|f: Field| (f.key@, f.value))
}

/// The description that a plan makes of a row: its entries in order, without
/// those that are left out.
pub open spec fn described(plan: Seq<(Seq<char>, int, ColumnKind)>, row: Seq<Cell>) -> Seq<
    (Seq<char>, SchemaValue),
>
    decreases plan.len(),
{
    if plan.len() == 0 {
        Seq::empty()
    } else {
        let before = described(plan.drop_last(), row);
        let (key, column, kind) = plan.last();
        match entry(cell_at(row, column), kind) {
            Some(value) => before.push((key, value)),
            None => before,
        }
    }
}

/// Decides whether a statement creates a unique index.
pub fn is_unique(sql: &str) -> (out: bool)
    ensures
        out == creates_unique(sql@),
{
    let upper = text::to_ascii_uppercase(sql);
    if !text::starts_with(upper.as_str(), "CREATE") {
        return false;
    }
    let chars = text::characters(upper.as_str());
    proof {
        reveal_strlit("CREATE");
        reveal_strlit("UNIQUE");
    }
    let mut at: usize = 6;
    while at < chars.len() && text::is_white(chars[at])
        invariant
            6 <= at <= chars@.len(),
            forall|i: int| 6 <= i < at ==> text::white(#[trigger] chars@[i]),
        decreases chars@.len() - at,
    {
        at += 1;
    }
    let rest = text::string_of(&chars, at, chars.len());
    let found = at > 6 && text::starts_with(rest.as_str(), "UNIQUE") && chars.len() - at > 6
        && text::is_white(chars[at + 6]);
    proof {
        if found {
            assert(upper@.subrange(at as int, at + 6) =~= rest@.subrange(0, 6));
            assert(unique_at(upper@, at as int));
        }
        if creates_unique(sql@) {
            let other = choose|other: int| unique_at(upper@, other);
            assert(upper@.subrange(other, other + 6)[0] == 'U');
            if other < at {
                assert(text::white(upper@[other]));
            }
            if at < other {
                assert(text::white(upper@[at as int]));
            }
            assert(other == at);
            assert(rest@.subrange(0, 6) =~= upper@.subrange(at as int, at + 6));
        }
    }
    found
}

fn make_entry(row: &Vec<Cell>, column: usize, kind: ColumnKind) -> (out: Option<SchemaValue>)
    ensures
        out == entry(cell_at(row@, column as int), kind),
{
    if column >= row.len() {
        return match kind {
            ColumnKind::Int | ColumnKind::Text => None,
            ColumnKind::TextOrNothing | ColumnKind::Default => Some(SchemaValue::Nothing),
            ColumnKind::Unique => Some(SchemaValue::Int(0)),
        };
    }
    let cell = &row[column];
    match kind {
        ColumnKind::Int => match cell.integer {
            Some(value) => Some(SchemaValue::Int(value)),
            None => None,
        },
        ColumnKind::Text => match &cell.text {
            Some(value) => Some(SchemaValue::Text(value.clone())),
            None => None,
        },
        ColumnKind::TextOrNothing => match &cell.text {
            Some(value) => Some(SchemaValue::Text(value.clone())),
            None => Some(SchemaValue::Nothing),
        },
        ColumnKind::Default => match &cell.text {
            Some(value) => Some(SchemaValue::Text(value.clone())),
            None => match cell.integer {
                Some(value) => Some(SchemaValue::Int(value)),
                None => match cell.real {
                    Some(bits) => Some(SchemaValue::Real { bits }),
                    None => Some(SchemaValue::Nothing),
                },
            },
        },
        ColumnKind::Unique => match &cell.text {
            Some(sql) => {
                Some(
                    SchemaValue::Int(
                        if is_unique(sql.as_str()) {
                            1
                        } else {
                            0
                        },
                    ),
                )
            },
            None => Some(SchemaValue::Int(0)),
        },
    }
}

/// Makes the description of a row.
pub fn describe(plan: &Vec<PlanColumn>, row: &Vec<Cell>) -> (out: Vec<Field>)
    ensures
        field_shape(out@) == described(plan_shape(plan@), row@),
{
    let mut out: Vec<Field> = Vec::new();
    let mut i: usize = 0;
    proof {
        assert(field_shape(out@) =~= described(plan_shape(plan@).take(0), row@));
    }
    while i < plan.len()
        invariant
            i <= plan@.len(),
            field_shape(out@) == described(plan_shape(plan@).take(i as int), row@),
        decreases plan@.len() - i,
    {
        let ghost before = out@;
        proof {
            let shape = plan_shape(plan@);
            assert(shape.take(i + 1).drop_last() == shape.take(i as int));
            assert(shape.take(i + 1).last() == (
                plan@[i as int].key@,
                plan@[i as int].column as int,
                plan@[i as int].kind,
            ));
        }
        match make_entry(row, plan[i].column, plan[i].kind) {
            Some(value) => {
                let ghost held = value;
                out.push(Field { key: plan[i].key, value });
                proof {
                    assert(field_shape(out@) =~= field_shape(before).push(
                        (plan@[i as int].key@, held),
                    ));
                }
            },
            None => {},
        }
        i += 1;
    }
    proof {
        assert(plan_shape(plan@).take(plan@.len() as int) == plan_shape(plan@));
    }
    out
}

/// The descriptions that a plan makes of rows.
pub open spec fn described_all(
    plan: Seq<(Seq<char>, int, ColumnKind)>,
    rows: Seq<Vec<Cell>>,
) -> Seq<Seq<(Seq<char>, SchemaValue)>> {
    rows.map_values(|row: Vec<Cell>| described(plan, row@))
}

/// Descriptions as keys and values.
pub open spec fn field_shapes(all: Seq<Vec<Field>>) -> Seq<Seq<(Seq<char>, SchemaValue)>> {
    all.map_values(|fields: Vec<Field>| field_shape(fields@))
}

fn describe_all(plan: &Vec<PlanColumn>, rows: &Vec<Vec<Cell>>) -> (out: Vec<Vec<Field>>)
    ensures
        field_shapes(out@) == described_all(plan_shape(plan@), rows@),
{
    let mut out: Vec<Vec<Field>> = Vec::new();
    let mut i: usize = 0;
    while i < rows.len()
        invariant
            i <= rows@.len(),
            out@.len() == i,
            forall|j: int|
                0 <= j < i ==> field_shape((#[trigger] out@[j])@) == described(
                    plan_shape(plan@),
                    rows@[j]@,
                ),
        decreases rows@.len() - i,
    {
        out.push(describe(plan, &rows[i]));
        i += 1;
    }
    proof {
        assert(field_shapes(out@) =~= described_all(plan_shape(plan@), rows@));
    }
    out
}

// ---------------------------------------------------------------- plans

/// The columns of a table.
pub open spec fn table_info_plan() -> Seq<(Seq<char>, int, ColumnKind)> {
    seq![
        ("cid"@, 0, ColumnKind::Int),
        ("name"@, 1, ColumnKind::Text),
        ("type"@, 2, ColumnKind::Text),
        ("notnull"@, 3, ColumnKind::Int),
        ("dflt_value"@, 4, ColumnKind::Default),
        ("pk"@, 5, ColumnKind::Int),
    ]
}

/// The columns of a table, hidden ones among them.
pub open spec fn table_xinfo_plan() -> Seq<(Seq<char>, int, ColumnKind)> {
    table_info_plan().push(("hidden"@, 6, ColumnKind::Int))
}

/// Indexes, from the schema table.
pub open spec fn indexes_plan() -> Seq<(Seq<char>, int, ColumnKind)> {
    seq![
        ("name"@, 0, ColumnKind::Text),
        ("table"@, 1, ColumnKind::Text),
        ("unique"@, 2, ColumnKind::Unique),
        ("sql"@, 2, ColumnKind::TextOrNothing),
    ]
}

/// The foreign keys of a table.
pub open spec fn foreign_keys_plan() -> Seq<(Seq<char>, int, ColumnKind)> {
    seq![
        ("id"@, 0, ColumnKind::Int),
        ("seq"@, 1, ColumnKind::Int),
        ("table"@, 2, ColumnKind::Text),
        ("from"@, 3, ColumnKind::Text),
        ("to"@, 4, ColumnKind::Text),
        ("on_update"@, 5, ColumnKind::Text),
        ("on_delete"@, 6, ColumnKind::Text),
        ("match"@, 7, ColumnKind::Text),
    ]
}

/// The indexes of a table.
pub open spec fn index_list_plan() -> Seq<(Seq<char>, int, ColumnKind)> {
    seq![
        ("seq"@, 0, ColumnKind::Int),
        ("name"@, 1, ColumnKind::Text),
        ("unique"@, 2, ColumnKind::Int),
        ("origin"@, 3, ColumnKind::TextOrNothing),
        ("partial"@, 4, ColumnKind::Int),
    ]
}

/// The columns of an index.
pub open spec fn index_info_plan() -> Seq<(Seq<char>, int, ColumnKind)> {
    seq![
        ("seqno"@, 0, ColumnKind::Int),
        ("cid"@, 1, ColumnKind::Int),
        ("name"@, 2, ColumnKind::Text),
    ]
}

fn plan_column(key: &'static str, column: usize, kind: ColumnKind) -> (out: PlanColumn)
    ensures
        out.key@ == key@,
        out.column == column,
        out.kind == kind,
{
    PlanColumn { key, column, kind }
}

fn table_columns() -> (out: Vec<PlanColumn>)
    ensures
        plan_shape(out@) == table_info_plan(),
{
    let mut out: Vec<PlanColumn> = Vec::new();
    out.push(plan_column("cid", 0, ColumnKind::Int));
    out.push(plan_column("name", 1, ColumnKind::Text));
    out.push(plan_column("type", 2, ColumnKind::Text));
    out.push(plan_column("notnull", 3, ColumnKind::Int));
    out.push(plan_column("dflt_value", 4, ColumnKind::Default));
    out.push(plan_column("pk", 5, ColumnKind::Int));
    proof {
        assert(plan_shape(out@) =~= table_info_plan());
    }
    out
}

fn index_columns() -> (out: Vec<PlanColumn>)
    ensures
        plan_shape(out@) == indexes_plan(),
{
    let mut out: Vec<PlanColumn> = Vec::new();
    out.push(plan_column("name", 0, ColumnKind::Text));
    out.push(plan_column("table", 1, ColumnKind::Text));
    out.push(plan_column("unique", 2, ColumnKind::Unique));
    out.push(plan_column("sql", 2, ColumnKind::TextOrNothing));
    proof {
        assert(plan_shape(out@) =~= indexes_plan());
    }
    out
}

fn foreign_key_columns() -> (out: Vec<PlanColumn>)
    ensures
        plan_shape(out@) == foreign_keys_plan(),
{
    let mut out: Vec<PlanColumn> = Vec::new();
    out.push(plan_column("id", 0, ColumnKind::Int));
    out.push(plan_column("seq", 1, ColumnKind::Int));
    out.push(plan_column("table", 2, ColumnKind::Text));
    out.push(plan_column("from", 3, ColumnKind::Text));
    out.push(plan_column("to", 4, ColumnKind::Text));
    out.push(plan_column("on_update", 5, ColumnKind::Text));
    out.push(plan_column("on_delete", 6, ColumnKind::Text));
    out.push(plan_column("match", 7, ColumnKind::Text));
    proof {
        assert(plan_shape(out@) =~= foreign_keys_plan());
    }
    out
}

// ---------------------------------------------------------------- results

/// The names in the first column, in order; rows without one are left out.
pub open spec fn first_texts(rows: Seq<Vec<Cell>>) -> Seq<Seq<char>>
    decreases rows.len(),
{
    if rows.len() == 0 {
        Seq::empty()
    } else {
        let before = first_texts(rows.drop_last());
        match cell_at(rows.last()@, 0).text {
            Some(name) => before.push(name@),
            None => before,
        }
    }
}

/// Reads the names of tables or views.
pub fn get_names(rows: &Vec<Vec<Cell>>) -> (out: Vec<String>)
    ensures
        text::texts(out@) == first_texts(rows@),
{
    let mut out: Vec<String> = Vec::new();
    let mut i: usize = 0;
    proof {
        assert(text::texts(out@) =~= first_texts(rows@.take(0)));
    }
    while i < rows.len()
        invariant
            i <= rows@.len(),
            text::texts(out@) == first_texts(rows@.take(i as int)),
        decreases rows@.len() - i,
    {
        proof {
            assert(rows@.take(i + 1).drop_last() == rows@.take(i as int));
        }
        if rows[i].len() > 0 {
            match &rows[i][0].text {
                Some(name) => {
                    let ghost before = out@;
                    out.push(name.clone());
                    proof {
                        assert(text::texts(out@) =~= text::texts(before).push(name@));
                    }
                },
                None => {},
            }
        }
        i += 1;
    }
    proof {
        assert(rows@.take(rows@.len() as int) == rows@);
    }
    out
}

/// Describes the columns of a table.
pub fn get_table_info(rows: &Vec<Vec<Cell>>) -> (out: Vec<Vec<Field>>)
    ensures
        field_shapes(out@) == described_all(table_info_plan(), rows@),
{
    describe_all(&table_columns(), rows)
}

/// Describes the columns of a table, hidden ones among them.
pub fn get_table_xinfo(rows: &Vec<Vec<Cell>>) -> (out: Vec<Vec<Field>>)
    ensures
        field_shapes(out@) == described_all(table_xinfo_plan(), rows@),
{
    let mut plan = table_columns();
    let ghost before = plan@;
    plan.push(plan_column("hidden", 6, ColumnKind::Int));
    proof {
        assert(plan_shape(plan@) =~= plan_shape(before).push(("hidden"@, 6, ColumnKind::Int)));
    }
    describe_all(&plan, rows)
}

/// Describes indexes.
pub fn get_indexes(rows: &Vec<Vec<Cell>>) -> (out: Vec<Vec<Field>>)
    ensures
        field_shapes(out@) == described_all(indexes_plan(), rows@),
{
    describe_all(&index_columns(), rows)
}

/// Describes the foreign keys of a table.
pub fn get_foreign_keys(rows: &Vec<Vec<Cell>>) -> (out: Vec<Vec<Field>>)
    ensures
        field_shapes(out@) == described_all(foreign_keys_plan(), rows@),
{
    describe_all(&foreign_key_columns(), rows)
}

/// Describes the indexes of a table.
pub fn get_index_list(rows: &Vec<Vec<Cell>>) -> (out: Vec<Vec<Field>>)
    ensures
        field_shapes(out@) == described_all(index_list_plan(), rows@),
{
    let mut plan: Vec<PlanColumn> = Vec::new();
    plan.push(plan_column("seq", 0, ColumnKind::Int));
    plan.push(plan_column("name", 1, ColumnKind::Text));
    plan.push(plan_column("unique", 2, ColumnKind::Int));
    plan.push(plan_column("origin", 3, ColumnKind::TextOrNothing));
    plan.push(plan_column("partial", 4, ColumnKind::Int));
    proof {
        assert(plan_shape(plan@) =~= index_list_plan());
    }
    describe_all(&plan, rows)
}

/// Describes the columns of an index.
pub fn get_index_info(rows: &Vec<Vec<Cell>>) -> (out: Vec<Vec<Field>>)
    ensures
        field_shapes(out@) == described_all(index_info_plan(), rows@),
{
    let mut plan: Vec<PlanColumn> = Vec::new();
    plan.push(plan_column("seqno", 0, ColumnKind::Int));
    plan.push(plan_column("cid", 1, ColumnKind::Int));
    plan.push(plan_column("name", 2, ColumnKind::Text));
    proof {
        assert(plan_shape(plan@) =~= index_info_plan());
    }
    describe_all(&plan, rows)
}

// ---------------------------------------------------------------- the whole schema

/// The query that comes at this place when the tables are walked through:
/// three for each, on its columns, its indexes and its foreign keys.
pub open spec fn walk_statement(tables: Seq<Seq<char>>, at: int) -> Option<Seq<char>> {
    if 0 <= at < 3 * tables.len() {
        let table = tables[at / 3];
        Some(
            if at % 3 == 0 {
                describe_statement(Description::TableInfo, table)
            } else if at % 3 == 1 {
                indexes_statement(Some(table))
            } else {
                describe_statement(Description::ForeignKeys, table)
            },
        )
    } else {
        None
    }
}

/// Writes the query that comes at this place when the tables are walked
/// through, until there is none.
pub fn walk_query(tables: &Vec<String>, at: usize) -> (out: Option<String>)
    ensures
        text::text_of(out) == walk_statement(text::texts(tables@), at as int),
{
    let table: usize = at / 3;
    if table >= tables.len() {
        return None;
    }
    proof {
        assert(text::texts(tables@)[table as int] == tables@[table as int]@);
    }
    let part: usize = at % 3;
    if part == 0 {
        Some(describe_query(Description::TableInfo, &tables[table]))
    } else if part == 1 {
        Some(table_indexes_query(&tables[table]))
    } else {
        Some(describe_query(Description::ForeignKeys, &tables[table]))
    }
}

/// The schema of one table.
pub struct TableSchema {
    pub columns: Vec<Vec<Field>>,
    pub indexes: Vec<Vec<Field>>,
    pub foreign_keys: Vec<Vec<Field>>,
    pub table_name: String,
}

/// A schema as it was asked for.
pub enum Schema {
    /// Of the one table.
    Table(TableSchema),
    /// Of a table that there is not.
    Missing,
    /// Of all tables: their names.
    Tables(Vec<String>),
}

/// Describes one table, or names all of them. The rows are what the walk
/// through the tables has given, query by query.
pub fn get_schema(
    requested: &Option<String>,
    tables: &Vec<String>,
    walk: &Vec<Vec<Vec<Cell>>>,
) -> (out: Schema)
    requires
        walk@.len() == 3 * tables@.len(),
    ensures
        match (*requested, out) {
            (Some(name), Schema::Table(schema)) => {
                &&& tables@.len() > 0
                &&& field_shapes(schema.columns@) == described_all(table_info_plan(), walk@[0]@)
                &&& field_shapes(schema.indexes@) == described_all(indexes_plan(), walk@[1]@)
                &&& field_shapes(schema.foreign_keys@) == described_all(
                    foreign_keys_plan(),
                    walk@[2]@,
                )
                &&& schema.table_name@ == name@
            },
            (Some(_), Schema::Missing) => tables@.len() == 0,
            (None, Schema::Tables(names)) => text::texts(names@) == text::texts(tables@),
            _ => false,
        },
{
    match requested {
        Some(name) => {
            if tables.len() == 0 {
                return Schema::Missing;
            }
            Schema::Table(
                TableSchema {
                    columns: get_table_info(&walk[0]),
                    indexes: get_indexes(&walk[1]),
                    foreign_keys: get_foreign_keys(&walk[2]),
                    table_name: name.clone(),
                },
            )
        },
        None => {
            let mut names: Vec<String> = Vec::new();
            let mut i: usize = 0;
            while i < tables.len()
                invariant
                    i <= tables@.len(),
                    names@.len() == i,
                    forall|j: int| 0 <= j < i ==> (#[trigger] names@[j])@ == tables@[j]@,
                decreases tables@.len() - i,
            {
                names.push(tables[i].clone());
                i += 1;
            }
            proof {
                assert(text::texts(names@) =~= text::texts(tables@));
            }
            Schema::Tables(names)
        },
    }
}

/// The walk through the tables asks three questions of each and then stops.
pub proof fn law_walk_covers_each_table(tables: Seq<Seq<char>>, table: int)
    requires
        0 <= table < tables.len(),
    ensures
        walk_statement(tables, 3 * table) == Some(
            describe_statement(Description::TableInfo, tables[table]),
        ),
        walk_statement(tables, 3 * table + 1) == Some(indexes_statement(Some(tables[table]))),
        walk_statement(tables, 3 * table + 2) == Some(
            describe_statement(Description::ForeignKeys, tables[table]),
        ),
        walk_statement(tables, 3 * tables.len() as int) is None,
{
}

// ---------------------------------------------------------------- what is read from a row

/// An entry holds what the cell gives: a number and a text as they are, and
/// left out, or empty, where there is none; a default value as a text where it
/// is one, else as a number, else as a float by its bits.
pub proof fn law_entries_hold_their_cells(cell: Cell)
    ensures
        match cell.integer {
            Some(n) => entry(cell, ColumnKind::Int) == Some(SchemaValue::Int(n)),
            None => entry(cell, ColumnKind::Int) is None,
        },
        match cell.text {
            Some(s) => {
                &&& entry(cell, ColumnKind::Text) == Some(SchemaValue::Text(s))
                &&& entry(cell, ColumnKind::TextOrNothing) == Some(SchemaValue::Text(s))
                &&& entry(cell, ColumnKind::Default) == Some(SchemaValue::Text(s))
                &&& entry(cell, ColumnKind::Unique) == Some(
                    SchemaValue::Int(
                        if creates_unique(s@) {
                            1
                        } else {
                            0
                        },
                    ),
                )
            },
            None => {
                &&& entry(cell, ColumnKind::Text) is None
                &&& entry(cell, ColumnKind::TextOrNothing) == Some(SchemaValue::Nothing)
                &&& entry(cell, ColumnKind::Unique) == Some(SchemaValue::Int(0))
                &&& entry(cell, ColumnKind::Default) == Some(
                    match (cell.integer, cell.real) {
                        (Some(n), _) => SchemaValue::Int(n),
                        (None, Some(bits)) => SchemaValue::Real { bits },
                        (None, None) => SchemaValue::Nothing,
                    },
                )
            },
        },
{
}

/// Whether a cell holds this number.
pub open spec fn holds_int(row: Seq<Cell>, column: int, n: i64) -> bool {
    0 <= column < row.len() && row[column].integer == Some(n)
}

/// Whether a cell holds this text.
pub open spec fn holds_text(row: Seq<Cell>, column: int, s: String) -> bool {
    0 <= column < row.len() && row[column].text == Some(s)
}

/// The columns of a table are described by the cells of their row, each under
/// its own key: its place, its name, its type, whether it may be NULL, its
/// default and its place in the primary key; and, where hidden columns are
/// asked for, whether it is hidden.
pub proof fn law_table_info_reads_its_cells(
    row: Seq<Cell>,
    cid: i64,
    name: String,
    declared: String,
    notnull: i64,
    default: String,
    pk: i64,
    hidden: i64,
)
    requires
        holds_int(row, 0, cid),
        holds_text(row, 1, name),
        holds_text(row, 2, declared),
        holds_int(row, 3, notnull),
        holds_text(row, 4, default),
        holds_int(row, 5, pk),
    ensures
        described(table_info_plan(), row) == seq![
            ("cid"@, SchemaValue::Int(cid)),
            ("name"@, SchemaValue::Text(name)),
            ("type"@, SchemaValue::Text(declared)),
            ("notnull"@, SchemaValue::Int(notnull)),
            ("dflt_value"@, SchemaValue::Text(default)),
            ("pk"@, SchemaValue::Int(pk)),
        ],
        holds_int(row, 6, hidden) ==> described(table_xinfo_plan(), row) == described(
            table_info_plan(),
            row,
        ).push(("hidden"@, SchemaValue::Int(hidden))),
{
    let plan = table_info_plan();
    reveal_with_fuel(described, 7);
    assert(plan.drop_last() =~= plan.take(5));
    assert(plan.take(5).drop_last() =~= plan.take(4));
    assert(plan.take(4).drop_last() =~= plan.take(3));
    assert(plan.take(3).drop_last() =~= plan.take(2));
    assert(plan.take(2).drop_last() =~= plan.take(1));
    assert(plan.take(1).drop_last() =~= plan.take(0));
    assert(table_xinfo_plan().drop_last() =~= plan);
    assert(described(plan, row) =~= seq![
        ("cid"@, SchemaValue::Int(cid)),
        ("name"@, SchemaValue::Text(name)),
        ("type"@, SchemaValue::Text(declared)),
        ("notnull"@, SchemaValue::Int(notnull)),
        ("dflt_value"@, SchemaValue::Text(default)),
        ("pk"@, SchemaValue::Int(pk)),
    ]);
}

/// An index is described by its name, its table, whether it is unique, which
/// its statement tells, and that statement.
pub proof fn law_indexes_read_their_cells(row: Seq<Cell>, name: String, table: String, sql: String)
    requires
        holds_text(row, 0, name),
        holds_text(row, 1, table),
        holds_text(row, 2, sql),
    ensures
        described(indexes_plan(), row) == seq![
            ("name"@, SchemaValue::Text(name)),
            ("table"@, SchemaValue::Text(table)),
            (
                "unique"@,
                SchemaValue::Int(
                    if creates_unique(sql@) {
                        1
                    } else {
                        0
                    },
                ),
            ),
            ("sql"@, SchemaValue::Text(sql)),
        ],
{
    let plan = indexes_plan();
    reveal_with_fuel(described, 5);
    assert(plan.drop_last() =~= plan.take(3));
    assert(plan.take(3).drop_last() =~= plan.take(2));
    assert(plan.take(2).drop_last() =~= plan.take(1));
    assert(plan.take(1).drop_last() =~= plan.take(0));
    assert(described(plan, row) =~= seq![
        ("name"@, SchemaValue::Text(name)),
        ("table"@, SchemaValue::Text(table)),
        (
            "unique"@,
            SchemaValue::Int(
                if creates_unique(sql@) {
                    1
                } else {
                    0
                },
            ),
        ),
        ("sql"@, SchemaValue::Text(sql)),
    ]);
}

/// A foreign key is described by the cells of its row, each under its own key.
pub proof fn law_foreign_keys_read_their_cells(
    row: Seq<Cell>,
    id: i64,
    seq: i64,
    table: String,
    from: String,
    to: String,
    on_update: String,
    on_delete: String,
    matched: String,
)
    requires
        holds_int(row, 0, id),
        holds_int(row, 1, seq),
        holds_text(row, 2, table),
        holds_text(row, 3, from),
        holds_text(row, 4, to),
        holds_text(row, 5, on_update),
        holds_text(row, 6, on_delete),
        holds_text(row, 7, matched),
    ensures
        described(foreign_keys_plan(), row) == seq![
            ("id"@, SchemaValue::Int(id)),
            ("seq"@, SchemaValue::Int(seq)),
            ("table"@, SchemaValue::Text(table)),
            ("from"@, SchemaValue::Text(from)),
            ("to"@, SchemaValue::Text(to)),
            ("on_update"@, SchemaValue::Text(on_update)),
            ("on_delete"@, SchemaValue::Text(on_delete)),
            ("match"@, SchemaValue::Text(matched)),
        ],
{
    let plan = foreign_keys_plan();
    reveal_with_fuel(described, 9);
    assert(plan.drop_last() =~= plan.take(7));
    assert(plan.take(7).drop_last() =~= plan.take(6));
    assert(plan.take(6).drop_last() =~= plan.take(5));
    assert(plan.take(5).drop_last() =~= plan.take(4));
    assert(plan.take(4).drop_last() =~= plan.take(3));
    assert(plan.take(3).drop_last() =~= plan.take(2));
    assert(plan.take(2).drop_last() =~= plan.take(1));
    assert(plan.take(1).drop_last() =~= plan.take(0));
    assert(described(plan, row) =~= seq![
        ("id"@, SchemaValue::Int(id)),
        ("seq"@, SchemaValue::Int(seq)),
        ("table"@, SchemaValue::Text(table)),
        ("from"@, SchemaValue::Text(from)),
        ("to"@, SchemaValue::Text(to)),
        ("on_update"@, SchemaValue::Text(on_update)),
        ("on_delete"@, SchemaValue::Text(on_delete)),
        ("match"@, SchemaValue::Text(matched)),
    ]);
}

/// The indexes of a table, and the columns of an index, are described by the
/// cells of their rows, each under its own key.
pub proof fn law_index_lists_read_their_cells(
    row: Seq<Cell>,
    seq: i64,
    name: String,
    unique: i64,
    origin: String,
    partial: i64,
    column: Seq<Cell>,
    seqno: i64,
    cid: i64,
    column_name: String,
)
    requires
        holds_int(row, 0, seq),
        holds_text(row, 1, name),
        holds_int(row, 2, unique),
        holds_text(row, 3, origin),
        holds_int(row, 4, partial),
        holds_int(column, 0, seqno),
        holds_int(column, 1, cid),
        holds_text(column, 2, column_name),
    ensures
        described(index_list_plan(), row) == seq![
            ("seq"@, SchemaValue::Int(seq)),
            ("name"@, SchemaValue::Text(name)),
            ("unique"@, SchemaValue::Int(unique)),
            ("origin"@, SchemaValue::Text(origin)),
            ("partial"@, SchemaValue::Int(partial)),
        ],
        described(index_info_plan(), column) == seq![
            ("seqno"@, SchemaValue::Int(seqno)),
            ("cid"@, SchemaValue::Int(cid)),
            ("name"@, SchemaValue::Text(column_name)),
        ],
{
    let plan = index_list_plan();
    let inner = index_info_plan();
    reveal_with_fuel(described, 6);
    assert(plan.drop_last() =~= plan.take(4));
    assert(plan.take(4).drop_last() =~= plan.take(3));
    assert(plan.take(3).drop_last() =~= plan.take(2));
    assert(plan.take(2).drop_last() =~= plan.take(1));
    assert(plan.take(1).drop_last() =~= plan.take(0));
    assert(inner.drop_last() =~= inner.take(2));
    assert(inner.take(2).drop_last() =~= inner.take(1));
    assert(inner.take(1).drop_last() =~= inner.take(0));
    assert(described(plan, row) =~= seq![
        ("seq"@, SchemaValue::Int(seq)),
        ("name"@, SchemaValue::Text(name)),
        ("unique"@, SchemaValue::Int(unique)),
        ("origin"@, SchemaValue::Text(origin)),
        ("partial"@, SchemaValue::Int(partial)),
    ]);
    assert(described(inner, column) =~= seq![
        ("seqno"@, SchemaValue::Int(seqno)),
        ("cid"@, SchemaValue::Int(cid)),
        ("name"@, SchemaValue::Text(column_name)),
    ]);
}

/// Names are read row by row, from the first cell, and a row without a text
/// there gives none; and as many rows are described as there are, each from its
/// own cells.
pub proof fn law_rows_are_read_one_by_one(
    rows: Seq<Vec<Cell>>,
    row: Vec<Cell>,
    plan: Seq<(Seq<char>, int, ColumnKind)>,
    i: int,
)
    ensures
        first_texts(Seq::empty()).len() == 0,
        row@.len() > 0 && row@[0].text is Some ==> first_texts(rows.push(row)) == first_texts(
            rows,
        ).push(row@[0].text->0@),
        row@.len() == 0 || row@[0].text is None ==> first_texts(rows.push(row)) == first_texts(
            rows,
        ),
        described_all(plan, rows).len() == rows.len(),
        0 <= i < rows.len() ==> described_all(plan, rows)[i] == described(plan, rows[i]@),
{
    assert(rows.push(row).drop_last() =~= rows);
}

/// A statement creates a unique index where UNIQUE is the word behind CREATE,
/// whatever the case of the two and however much white space stands between
/// them; where the next word begins with another letter it does not.
pub proof fn law_unique_is_the_second_word(
    create: Seq<char>,
    gap: Seq<char>,
    unique: Seq<char>,
    rest: Seq<char>,
    other: char,
)
    requires
        text::ascii_uppercase(create) == "CREATE"@,
        text::ascii_uppercase(unique) == "UNIQUE"@,
        gap.len() > 0,
        forall|i: int| 0 <= i < gap.len() ==> text::white(#[trigger] gap[i]),
        rest.len() > 0,
        text::white(rest[0]),
    ensures
        creates_unique(create + gap + unique + rest),
        !text::white(other) && other != 'u' && other != 'U' ==> !creates_unique(
            create + gap + seq![other] + rest,
        ),
{
    reveal_strlit("CREATE");
    reveal_strlit("UNIQUE");
    assert(create.len() == 6) by {
        assert(text::ascii_uppercase(create).len() == create.len());
    }
    assert(unique.len() == 6) by {
        assert(text::ascii_uppercase(unique).len() == unique.len());
    }
    let all = create + gap + unique + rest;
    let upper = text::ascii_uppercase(all);
    let at = 6 + gap.len() as int;
    assert(upper.take(6) =~= text::ascii_uppercase(create));
    assert(upper.take(6) =~= "CREATE"@);
    assert("CREATE"@.is_prefix_of(upper));
    assert(upper.subrange(at, at + 6) =~= text::ascii_uppercase(unique));
    assert(text::stands_at(upper, "UNIQUE"@, at));
    assert forall|i: int| 6 <= i < at implies text::white(#[trigger] upper[i]) by {
        assert(all[i] == gap[i - 6]);
        assert(text::white(gap[i - 6]));
        text::law_ascii_case(all[i]);
    }
    assert(all[at + 6] == rest[0]);
    text::law_ascii_case(rest[0]);
    assert(unique_at(upper, at));
    if !text::white(other) && other != 'u' && other != 'U' {
        let sql = create + gap + seq![other] + rest;
        let raised = text::ascii_uppercase(sql);
        assert forall|k: int| !unique_at(raised, k) by {
            if unique_at(raised, k) {
                text::law_ascii_case(other);
                assert(sql[at] == other);
                assert(raised[at] == text::ascii_upper(other));
                if k > at {
                    assert(text::white(raised[at]));
                    assert(false);
                } else if k == at {
                    assert(raised.subrange(k, k + 6)[0] == "UNIQUE"@[0]);
                    assert(raised[at] == 'U');
                } else {
                    assert(raised.subrange(k, k + 6)[0] == "UNIQUE"@[0]);
                    assert(sql[k] == gap[k - 6]);
                    assert(text::white(gap[k - 6]));
                    text::law_ascii_case(sql[k]);
                }
            }
        }
    }
}

/// Plans and descriptions are read place by place: a plan gives for each entry
/// its key, its column and its kind, and a description its keys and values.
pub proof fn law_descriptions_are_read_place_by_place(
    plan: Seq<PlanColumn>,
    all: Seq<Vec<Field>>,
    i: int,
    j: int,
)
    ensures
        plan_shape(plan).len() == plan.len(),
        0 <= i < plan.len() ==> plan_shape(plan)[i] == (
            plan[i].key@,
            plan[i].column as int,
            plan[i].kind,
        ),
        field_shapes(all).len() == all.len(),
        0 <= i < all.len() ==> field_shapes(all)[i].len() == all[i]@.len(),
        0 <= i < all.len() && 0 <= j < all[i]@.len() ==> field_shapes(all)[i][j] == (
            all[i]@[j].key@,
            all[i]@[j].value,
        ),
{
}

} // verus!
