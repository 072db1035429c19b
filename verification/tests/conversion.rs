//! Values between SQLite and the user, and descriptions of results.

use rapsqlite::codes;
use rapsqlite::conversion::{
    argument, build_description_empty_result, build_description_tuple, build_row, column_value,
    declared_kind, parse_select_column_names, result_call, row_column_count, row_shape,
    show_column, text_argument, value_read, Argument, BuiltRow, ColumnHead, ColumnReads,
    ColumnValue, DeclaredKind, FunctionValue, Read, ResultCall, ResultError, ResultReads,
    RowFactory, RowShape, Shown, ValueRead,
};
use rapsqlite::error::Class;
use rapsqlite::registry::Registry;

fn nothing() -> ResultReads<&'static str> {
    ResultReads {
        none: false,
        integer: None,
        real: None,
        string: None,
        bytes: None,
        byte_object: None,
        text_object: None,
    }
}

#[test]
fn arguments_are_read_by_their_type() {
    assert_eq!(value_read(codes::SQLITE_INTEGER), ValueRead::Integer);
    assert_eq!(value_read(codes::SQLITE_FLOAT), ValueRead::Float);
    assert_eq!(value_read(codes::SQLITE_TEXT), ValueRead::Text);
    assert_eq!(value_read(codes::SQLITE_BLOB), ValueRead::Blob);
    assert_eq!(value_read(codes::SQLITE_NULL), ValueRead::Nothing);
    assert_eq!(value_read(77), ValueRead::Nothing);
    assert!(matches!(text_argument(None), Ok(None)));
    assert_eq!(text_argument(Some(vec![0x61])).ok().unwrap(), Some("a".to_string()));
    let error = text_argument(Some(vec![0xff])).err().unwrap();
    assert!(error.class() == Class::Value);
    assert!(error
        .message()
        .starts_with("Invalid UTF-8 in SQLite text value: invalid utf-8 sequence"));
}

#[test]
fn arguments_reach_the_function() {
    assert!(matches!(argument(FunctionValue::Nothing), Ok(Argument::Nothing)));
    assert!(matches!(argument(FunctionValue::Integer(-3)), Ok(Argument::Integer(-3))));
    let bits = 1.5f64.to_bits();
    assert!(matches!(
        argument(FunctionValue::Real { bits }),
        Ok(Argument::Real { bits: read }) if read == bits
    ));
    match argument(FunctionValue::Text(Some("\u{e9}".as_bytes().to_vec()))) {
        Ok(Argument::Text(text)) => assert_eq!(text, "\u{e9}"),
        _ => panic!(),
    }
    match argument(FunctionValue::Blob(Some(vec![0, 255]))) {
        Ok(Argument::Bytes(bytes)) => assert_eq!(bytes, vec![0, 255]),
        _ => panic!(),
    }
    assert!(matches!(argument(FunctionValue::Text(None)), Ok(Argument::Nothing)));
    assert!(matches!(argument(FunctionValue::Blob(None)), Ok(Argument::Nothing)));
    let error = argument(FunctionValue::Text(Some(vec![0xff]))).err().unwrap();
    assert!(error.class() == Class::Value);
}

/// What SQLite makes of a result where it is the argument of another function.
fn hand_on(call: ResultCall) -> (i32, FunctionValue) {
    match call {
        ResultCall::Null => (codes::SQLITE_NULL, FunctionValue::Nothing),
        ResultCall::Integer(n) => (codes::SQLITE_INTEGER, FunctionValue::Integer(n)),
        ResultCall::Real { bits } => (codes::SQLITE_FLOAT, FunctionValue::Real { bits }),
        ResultCall::Text { text, length } => (
            codes::SQLITE_TEXT,
            FunctionValue::Text(Some(text.as_bytes()[..length as usize].to_vec())),
        ),
        ResultCall::Blob { bytes, length } => (
            codes::SQLITE_BLOB,
            FunctionValue::Blob(if length > 0 {
                Some(bytes[..length as usize].to_vec())
            } else {
                None
            }),
        ),
    }
}

#[test]
fn a_result_reads_back_as_an_argument() {
    let back = |reads: ResultReads<&'static str>| {
        let (code, value) = hand_on(result_call(reads).ok().unwrap());
        (value_read(code), argument(value).ok().unwrap())
    };
    let mut reads = nothing();
    reads.none = true;
    assert!(matches!(back(reads), (ValueRead::Nothing, Argument::Nothing)));
    let mut reads = nothing();
    reads.integer = Some(i64::MIN);
    assert!(matches!(back(reads), (ValueRead::Integer, Argument::Integer(i64::MIN))));
    let mut reads = nothing();
    reads.real = Some(0.1f64.to_bits());
    match back(reads) {
        (ValueRead::Float, Argument::Real { bits }) => assert_eq!(f64::from_bits(bits), 0.1),
        _ => panic!(),
    }
    let mut reads = nothing();
    reads.string = Some("\u{1f600}!".to_string());
    match back(reads) {
        (ValueRead::Text, Argument::Text(text)) => assert_eq!(text, "\u{1f600}!"),
        _ => panic!(),
    }
    let mut reads = nothing();
    reads.bytes = Some(vec![1, 0, 2]);
    match back(reads) {
        (ValueRead::Blob, Argument::Bytes(bytes)) => assert_eq!(bytes, vec![1, 0, 2]),
        _ => panic!(),
    }
    let mut reads = nothing();
    reads.bytes = Some(Vec::new());
    assert!(matches!(back(reads), (ValueRead::Blob, Argument::Nothing)));
    assert!(matches!(back(nothing()), (ValueRead::Nothing, Argument::Nothing)));
}

#[test]
fn results_are_handed_over_by_the_first_type_that_fits() {
    let mut reads = nothing();
    reads.none = true;
    reads.integer = Some(1);
    assert!(matches!(result_call(reads), Ok(ResultCall::Null)));
    let mut reads = nothing();
    reads.integer = Some(1);
    reads.real = Some(1.0f64.to_bits());
    assert!(matches!(result_call(reads), Ok(ResultCall::Integer(1))));
    let mut reads = nothing();
    reads.real = Some(1.5f64.to_bits());
    assert!(matches!(result_call(reads), Ok(ResultCall::Real { .. })));
    let mut reads = nothing();
    reads.string = Some("\u{e9}".to_string());
    match result_call(reads) {
        Ok(ResultCall::Text { text, length }) => {
            assert_eq!(text, "\u{e9}");
            assert_eq!(length, 2);
        }
        _ => panic!(),
    }
    let mut reads = nothing();
    reads.bytes = Some(vec![1, 2, 3]);
    assert!(matches!(result_call(reads), Ok(ResultCall::Blob { length: 3, .. })));
    let mut reads = nothing();
    reads.byte_object = Some(vec![]);
    assert!(matches!(result_call(reads), Ok(ResultCall::Blob { length: 0, .. })));
    let mut reads = nothing();
    reads.text_object = Some(Err("surrogate"));
    assert!(matches!(result_call(reads), Err(ResultError::Call("surrogate"))));
    let mut reads = nothing();
    reads.text_object = Some(Ok("s".to_string()));
    assert!(matches!(result_call(reads), Ok(ResultCall::Text { length: 1, .. })));
    assert!(matches!(result_call(nothing()), Ok(ResultCall::Null)));
    let mut reads = nothing();
    reads.string = Some("a\0".to_string());
    match result_call(reads) {
        Err(ResultError::Refused(error)) => {
            assert!(error.class() == Class::Value);
            assert_eq!(
                error.message(),
                "String contains null byte: nul byte found in provided data at position: 1"
            );
        }
        _ => panic!(),
    }
}

fn refused() -> ColumnReads {
    ColumnReads {
        integer: Read::Refused,
        real: Read::Refused,
        real_text: String::new(),
        text: Read::Refused,
        blob: Read::Refused,
    }
}

fn null() -> ColumnReads {
    ColumnReads {
        integer: Read::Null,
        real: Read::Null,
        real_text: String::new(),
        text: Read::Null,
        blob: Read::Null,
    }
}

#[test]
fn columns_are_declared_with_types() {
    assert_eq!(declared_kind("INT"), DeclaredKind::Integer);
    assert_eq!(declared_kind("DOUBLE"), DeclaredKind::Real);
    assert_eq!(declared_kind("VARCHAR"), DeclaredKind::Text);
    assert_eq!(declared_kind("BLOB"), DeclaredKind::Blob);
    assert_eq!(declared_kind("int"), DeclaredKind::Other);
    assert_eq!(declared_kind("NUMERIC"), DeclaredKind::Other);
}

#[test]
fn a_value_shows_as_it_is_under_any_declaration() {
    for kind in [
        DeclaredKind::Integer,
        DeclaredKind::Real,
        DeclaredKind::Text,
        DeclaredKind::Blob,
        DeclaredKind::Other,
    ] {
        let mut reads = refused();
        reads.text = Read::Value("x".to_string());
        assert!(matches!(column_value(kind, reads), ColumnValue::Text(s) if s == "x"));
        let mut reads = refused();
        reads.blob = Read::Value(vec![7]);
        assert!(matches!(column_value(kind, reads), ColumnValue::Blob(b) if b == vec![7]));
        assert!(matches!(column_value(kind, null()), ColumnValue::Nothing));
        assert!(matches!(column_value(kind, refused()), ColumnValue::Nothing));
    }
}

#[test]
fn the_declared_type_is_read_first() {
    let both = || {
        let mut reads = refused();
        reads.integer = Read::Value(1);
        reads.real = Read::Value(1.0f64.to_bits());
        reads
    };
    assert!(matches!(
        column_value(DeclaredKind::Real, both()),
        ColumnValue::Real { .. }
    ));
    assert!(matches!(column_value(DeclaredKind::Other, both()), ColumnValue::Int(1)));
}

#[test]
fn the_text_factory_sees_text_columns_alone() {
    let converters: Registry<u64> = Registry::new();
    let text = || {
        let mut reads = refused();
        reads.text = Read::Value("\u{e9}".to_string());
        reads
    };
    match show_column("text", &converters, true, text()) {
        Shown::Factored(Some(bytes)) => assert_eq!(bytes, vec![0xc3, 0xa9]),
        _ => panic!(),
    }
    assert!(matches!(show_column("TEXT", &converters, true, null()), Shown::Factored(None)));
    assert!(matches!(show_column("VARCHAR", &converters, true, text()), Shown::Plain(_)));
    assert!(matches!(show_column("TEXT", &converters, false, text()), Shown::Plain(_)));
}

#[test]
fn converters_get_bytes() {
    let mut converters: Registry<u64> = Registry::new();
    converters.insert("N".to_string(), 1);
    let bytes = |reads| match show_column("n", &converters, false, reads) {
        Shown::Converted(1, bytes) => bytes,
        _ => panic!(),
    };
    let mut reads = refused();
    reads.integer = Read::Value(-12);
    assert_eq!(bytes(reads), Some(b"-12".to_vec()));
    let mut reads = refused();
    reads.real = Read::Value(1.5f64.to_bits());
    reads.real_text = "1.5".to_string();
    assert_eq!(bytes(reads), Some(b"1.5".to_vec()));
    let mut reads = refused();
    reads.blob = Read::Value(vec![9]);
    reads.text = Read::Value("t".to_string());
    assert_eq!(bytes(reads), Some(vec![9]));
    assert_eq!(bytes(null()), None);
}

#[test]
fn rows_take_the_form_of_their_factory() {
    assert_eq!(row_shape(&RowFactory::Unset), RowShape::List);
    assert_eq!(row_shape(&RowFactory::Named("dict".to_string())), RowShape::Dict);
    assert_eq!(row_shape(&RowFactory::Named("tuple".to_string())), RowShape::Tuple);
    assert_eq!(row_shape(&RowFactory::Named("Dict".to_string())), RowShape::List);
    assert_eq!(row_shape(&RowFactory::RowClass), RowShape::Row);
    assert_eq!(row_shape(&RowFactory::Callable), RowShape::Made);
    assert_eq!(row_column_count(3, 2), 2);
    assert_eq!(row_column_count(2, 3), 2);
}

#[test]
fn rows_are_built_by_their_factory() {
    let heads = || vec!["a".to_string(), "b".to_string(), "a".to_string()];
    let build = |factory: &RowFactory| build_row(factory, heads(), vec![1, 2, 3]);
    assert!(matches!(build(&RowFactory::Unset), BuiltRow::List(all) if all == vec![1, 2, 3]));
    assert!(matches!(
        build(&RowFactory::Named("tuple".to_string())),
        BuiltRow::Tuple(all) if all == vec![1, 2, 3]
    ));
    match build(&RowFactory::Named("dict".to_string())) {
        BuiltRow::Dict(entries) => {
            assert_eq!(entries, vec![("a".to_string(), 3), ("b".to_string(), 2)]);
        }
        _ => panic!(),
    }
    assert!(matches!(
        build(&RowFactory::Named("other".to_string())),
        BuiltRow::List(all) if all == vec![1, 2, 3]
    ));
    match build(&RowFactory::RowClass) {
        BuiltRow::Row { names, values } => {
            assert_eq!(names, heads());
            assert_eq!(values, vec![1, 2, 3]);
        }
        _ => panic!(),
    }
    assert!(matches!(build(&RowFactory::Callable), BuiltRow::Made(all) if all == vec![1, 2, 3]));
}

fn names(query: &str) -> Option<Vec<String>> {
    parse_select_column_names(query)
}

#[test]
fn columns_are_read_off_a_query() {
    assert_eq!(
        names("SELECT id, t.name FROM t").unwrap(),
        vec!["id".to_string(), "t.name".to_string()]
    );
    assert_eq!(
        names("  select\n\tid ,\n name\nfrom t ").unwrap(),
        vec!["id".to_string(), "name".to_string()]
    );
    assert_eq!(names("SELECT * FROM t"), None);
    assert_eq!(names("SELECT a,,b FROM t"), None);
    assert_eq!(names("SELECT  FROM t"), None);
    assert_eq!(names("SELECT 1"), None);
    assert_eq!(names("INSERT INTO t SELECT a FROM b"), None);
    assert_eq!(names(""), None);
    assert_eq!(names("SELECT \u{e9} FROM t").unwrap(), vec!["\u{e9}".to_string()]);
}

#[test]
fn columns_are_cut_out_whatever_their_case_does() {
    // In upper case the one has fewer bytes, and the other more.
    assert_eq!(names("SELECT \u{131} FROM t").unwrap(), vec!["\u{131}".to_string()]);
    assert_eq!(names("SELECT \u{390} FROM t").unwrap(), vec!["\u{390}".to_string()]);
    assert_eq!(
        names("Select \u{df}, b From t").unwrap(),
        vec!["\u{df}".to_string(), "b".to_string()]
    );
}

#[test]
fn a_result_without_rows_is_described() {
    let description = build_description_empty_result(Some("SELECT a, b FROM t"));
    assert_eq!(description.len(), 2);
    assert_eq!(
        description[1],
        vec![Some("b".to_string()), None, None, None, None, None, None]
    );
    for query in [None, Some("SELECT * FROM t")] {
        let description = build_description_empty_result(query);
        assert_eq!(
            description,
            vec![vec![Some("column_0".to_string()), None, None, None, None, None, None]]
        );
    }
}

#[test]
fn a_result_with_rows_is_described() {
    let description = build_description_tuple(&vec![ColumnHead {
        name: "Id".to_string(),
        declared: "Integer".to_string(),
    }]);
    assert_eq!(
        description,
        vec![vec![
            Some("Id".to_string()),
            Some("INTEGER".to_string()),
            None,
            None,
            None,
            None,
            None
        ]]
    );
}
