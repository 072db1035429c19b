//! Values between SQLite and the user, and the description of a result.

use crate::codes;
use crate::error::ConnectionError;
use crate::floats;
use crate::registry::Registry;
use crate::text;
use vstd::prelude::*;
use vstd::string::*;

verus! {

// ---------------------------------------------------------------- arguments of functions

/// How the value that is handed to a function is read.
#[derive(Clone, Copy, Debug, PartialEq, Eq, Structural)]
pub enum ValueRead {
    /// Not at all: there is no value.
    Nothing,
    Integer,
    Float,
    Text,
    Blob,
}

/// The read that goes with the type code of a value.
pub open spec fn read_of(code: i32) -> ValueRead {
    if code == codes::SQLITE_INTEGER {
        ValueRead::Integer
    } else if code == codes::SQLITE_FLOAT {
        ValueRead::Float
    } else if code == codes::SQLITE_TEXT {
        ValueRead::Text
    } else if code == codes::SQLITE_BLOB {
        ValueRead::Blob
    } else {
        ValueRead::Nothing
    }
}

/// Picks the read by the type code of a value.
pub fn value_read(code: i32) -> (out: ValueRead)
    ensures
        out == read_of(code),
{
    if code == codes::SQLITE_INTEGER {
        ValueRead::Integer
    } else if code == codes::SQLITE_FLOAT {
        ValueRead::Float
    } else if code == codes::SQLITE_TEXT {
        ValueRead::Text
    } else if code == codes::SQLITE_BLOB {
        ValueRead::Blob
    } else {
        ValueRead::Nothing
    }
}

/// What a read of a value gives. A text or a BLOB has no bytes where SQLite
/// points nowhere.
pub enum FunctionValue {
    Nothing,
    Integer(i64),
    /// A float, by the bits of its IEEE form.
    Real { bits: u64 },
    Text(Option<Vec<u8>>),
    Blob(Option<Vec<u8>>),
}

impl FunctionValue {
    /// The read that gives such a value.
    pub open spec fn read(self) -> ValueRead {
        match self {
            FunctionValue::Nothing => ValueRead::Nothing,
            FunctionValue::Integer(_) => ValueRead::Integer,
            FunctionValue::Real { .. } => ValueRead::Float,
            FunctionValue::Text(_) => ValueRead::Text,
            FunctionValue::Blob(_) => ValueRead::Blob,
        }
    }
}

/// A value as a function of the user gets it.
pub enum Argument {
    Nothing,
    Integer(i64),
    /// A float, by the bits of its IEEE form.
    Real { bits: u64 },
    Text(String),
    Bytes(Vec<u8>),
}

/// The bytes of a text are read like this.
pub open spec fn is_text_argument(
    bytes: Option<Vec<u8>>,
    out: Result<Option<String>, ConnectionError>,
) -> bool {
    match bytes {
        None => out == Ok::<Option<String>, ConnectionError>(None),
        Some(bytes) => match out {
            Ok(Some(s)) => vstd::utf8::valid_utf8(bytes@) && s@ == vstd::utf8::decode_utf8(bytes@),
            Ok(None) => false,
            Err(error) => {
                &&& !vstd::utf8::valid_utf8(bytes@)
                &&& error is InvalidTextValue
                &&& error->InvalidTextValue_reason@ == text::utf8_complaint(bytes@)
            },
        },
    }
}

/// Reads the bytes of a text that is handed to a function; there are none
/// where SQLite points nowhere.
pub fn text_argument(bytes: Option<Vec<u8>>) -> (out: Result<Option<String>, ConnectionError>)
    ensures
        is_text_argument(bytes, out),
{
    match bytes {
        None => Ok(None),
        Some(bytes) => match text::utf8_string(bytes) {
            Ok(s) => Ok(Some(s)),
            Err(reason) => Err(ConnectionError::InvalidTextValue { reason }),
        },
    }
}

/// The value reaches the function of the user like this.
pub open spec fn is_argument(
    value: FunctionValue,
    out: Result<Argument, ConnectionError>,
) -> bool {
    match value {
        FunctionValue::Nothing => out == Ok::<Argument, ConnectionError>(Argument::Nothing),
        FunctionValue::Integer(n) => out == Ok::<Argument, ConnectionError>(Argument::Integer(n)),
        FunctionValue::Real { bits } => out == Ok::<Argument, ConnectionError>(
            (Argument::Real { bits }),
        ),
        FunctionValue::Text(bytes) => match out {
            Ok(Argument::Nothing) => is_text_argument(bytes, Ok(None)),
            Ok(Argument::Text(s)) => is_text_argument(bytes, Ok(Some(s))),
            Ok(_) => false,
            Err(error) => is_text_argument(bytes, Err(error)),
        },
        FunctionValue::Blob(None) => out == Ok::<Argument, ConnectionError>(Argument::Nothing),
        FunctionValue::Blob(Some(bytes)) => out == Ok::<Argument, ConnectionError>(
            Argument::Bytes(bytes),
        ),
    }
}

/// Makes the argument of a function from a value. A text or a BLOB for which
/// SQLite points nowhere is passed as nothing.
pub fn argument(value: FunctionValue) -> (out: Result<Argument, ConnectionError>)
    ensures
        is_argument(value, out),
{
    match value {
        FunctionValue::Nothing => Ok(Argument::Nothing),
        FunctionValue::Integer(n) => Ok(Argument::Integer(n)),
        FunctionValue::Real { bits } => Ok(Argument::Real { bits }),
        FunctionValue::Text(bytes) => match text_argument(bytes) {
            Ok(Some(s)) => Ok(Argument::Text(s)),
            Ok(None) => Ok(Argument::Nothing),
            Err(error) => Err(error),
        },
        FunctionValue::Blob(None) => Ok(Argument::Nothing),
        FunctionValue::Blob(Some(bytes)) => Ok(Argument::Bytes(bytes)),
    }
}

// ---------------------------------------------------------------- results of functions

/// What reading the result of a function as each type gives, where it gives
/// anything.
pub struct ResultReads<E> {
    pub none: bool,
    pub integer: Option<i64>,
    /// A float, by the bits of its IEEE form.
    pub real: Option<u64>,
    pub string: Option<String>,
    pub bytes: Option<Vec<u8>>,
    /// The contents of a bytes object.
    pub byte_object: Option<Vec<u8>>,
    /// The contents of a text object, which may not be readable.
    pub text_object: Option<Result<String, E>>,
}

/// The call that hands a result to SQLite.
pub enum ResultCall {
    Null,
    Integer(i64),
    Real { bits: u64 },
    Text { text: String, length: i32 },
    Blob { bytes: Vec<u8>, length: i32 },
}

/// Why a result cannot be handed to SQLite.
pub enum ResultError<E> {
    Refused(ConnectionError),
    Call(E),
}

/// A length as the C interface takes it.
pub open spec fn c_length(length: nat) -> i32 {
    (length as usize) as i32
}

/// The result is this text.
pub open spec fn is_text_result<E>(
    out: Result<ResultCall, ResultError<E>>,
    s: Seq<char>,
) -> bool {
    match text::nul_in(s) {
        Some(position) => {
            &&& out matches Err(ResultError::Refused(error))
            &&& error == (ConnectionError::NulInResult { position: position as usize })
        },
        None => {
            &&& out matches Ok(ResultCall::Text { text, length })
            &&& text@ == s
            &&& length == c_length(text::byte_length(s))
        },
    }
}

/// The result is these bytes.
pub open spec fn is_blob_result<E>(
    out: Result<ResultCall, ResultError<E>>,
    expected: Seq<u8>,
) -> bool {
    &&& out matches Ok(ResultCall::Blob { bytes, length })
    &&& bytes@ == expected
    &&& length == c_length(expected.len())
}

fn text_result<E>(s: String) -> (out: Result<ResultCall, ResultError<E>>)
    ensures
        is_text_result(out, s@),
{
    match text::nul_position(s.as_str()) {
        Some(position) => Err(
            ResultError::Refused(ConnectionError::NulInResult { position }),
        ),
        None => {
            let n: usize = text::length_in_bytes(s.as_str());
            let length: i32 = #[verifier::truncate]
            (n as i32);
            Ok(ResultCall::Text { text: s, length })
        },
    }
}

fn blob_result<E>(bytes: Vec<u8>) -> (out: Result<ResultCall, ResultError<E>>)
    ensures
        is_blob_result(out, bytes@),
{
    let n: usize = bytes.len();
    let length: i32 = #[verifier::truncate]
    (n as i32);
    Ok(ResultCall::Blob { bytes, length })
}

/// The result of a function is handed to SQLite like this: the first type that
/// the value can be read as decides, and a value of no known type is NULL.
pub open spec fn is_result_call<E>(
    reads: ResultReads<E>,
    out: Result<ResultCall, ResultError<E>>,
) -> bool {
    if reads.none {
        out == Ok::<ResultCall, ResultError<E>>(ResultCall::Null)
    } else if reads.integer is Some {
        out == Ok::<ResultCall, ResultError<E>>(ResultCall::Integer(reads.integer->0))
    } else if reads.real is Some {
        out == Ok::<ResultCall, ResultError<E>>((ResultCall::Real { bits: reads.real->0 }))
    } else if reads.string is Some {
        is_text_result(out, reads.string->0@)
    } else if reads.bytes is Some {
        is_blob_result(out, reads.bytes->0@)
    } else if reads.byte_object is Some {
        is_blob_result(out, reads.byte_object->0@)
    } else {
        match reads.text_object {
            Some(Ok(s)) => is_text_result(out, s@),
            Some(Err(error)) => out == Err::<ResultCall, ResultError<E>>(ResultError::Call(error)),
            None => out == Ok::<ResultCall, ResultError<E>>(ResultCall::Null),
        }
    }
}

/// Finds the call that hands the result of a function to SQLite: the first
/// type that the value can be read as decides, and a value of no known type
/// is handed over as NULL.
pub fn result_call<E>(reads: ResultReads<E>) -> (out: Result<ResultCall, ResultError<E>>)
    ensures
        is_result_call(reads, out),
{
    if reads.none {
        return Ok(ResultCall::Null);
    }
    match reads.integer {
        Some(value) => return Ok(ResultCall::Integer(value)),
        None => {},
    }
    match reads.real {
        Some(bits) => return Ok(ResultCall::Real { bits }),
        None => {},
    }
    match reads.string {
        Some(s) => return text_result(s),
        None => {},
    }
    match reads.bytes {
        Some(bytes) => return blob_result(bytes),
        None => {},
    }
    match reads.byte_object {
        Some(bytes) => return blob_result(bytes),
        None => {},
    }
    match reads.text_object {
        Some(Ok(s)) => text_result(s),
        Some(Err(error)) => Err(ResultError::Call(error)),
        None => Ok(ResultCall::Null),
    }
}

/// Whether SQLite hands on such a value, with this type code, where this call
/// has given it: a float that is no number becomes NULL, as many bytes of a
/// text or a BLOB are taken as the length says, and of a BLOB without bytes
/// SQLite points nowhere. Of a negative length nothing is said.
pub open spec fn handed_on(call: ResultCall, code: i32, value: FunctionValue) -> bool {
    match call {
        ResultCall::Null => code == codes::SQLITE_NULL && value is Nothing,
        ResultCall::Integer(n) => code == codes::SQLITE_INTEGER && value
            == FunctionValue::Integer(n),
        ResultCall::Real { bits } => if floats::not_a_number(bits) {
            code == codes::SQLITE_NULL && value is Nothing
        } else {
            code == codes::SQLITE_FLOAT && value == (FunctionValue::Real { bits })
        },
        ResultCall::Text { text, length } => length >= 0 ==> {
            &&& code == codes::SQLITE_TEXT
            &&& value matches FunctionValue::Text(Some(taken))
            &&& taken@ == vstd::utf8::encode_utf8(text@).take(length as int)
        },
        ResultCall::Blob { bytes, length } => length >= 0 ==> {
            &&& code == codes::SQLITE_BLOB
            &&& match value {
                FunctionValue::Blob(Some(taken)) => length > 0 && taken@ == bytes@.take(
                    length as int,
                ),
                FunctionValue::Blob(None) => length == 0,
                _ => false,
            }
        },
    }
}

/// The text that a value can be read as, where a text is what it is handed
/// over as.
pub open spec fn result_text<E>(reads: ResultReads<E>) -> Option<Seq<char>> {
    if reads.none || reads.integer is Some || reads.real is Some {
        None
    } else {
        match (reads.string, reads.bytes, reads.byte_object, reads.text_object) {
            (Some(s), _, _, _) => Some(s@),
            (None, None, None, Some(Ok(s))) => Some(s@),
            _ => None,
        }
    }
}

/// The bytes that a value can be read as, where a BLOB is what it is handed
/// over as.
pub open spec fn result_bytes<E>(reads: ResultReads<E>) -> Option<Seq<u8>> {
    if reads.none || reads.integer is Some || reads.real is Some || reads.string is Some {
        None
    } else {
        match (reads.bytes, reads.byte_object) {
            (Some(bytes), _) => Some(bytes@),
            (None, Some(bytes)) => Some(bytes@),
            _ => None,
        }
    }
}

/// A result that is handed over reads back as the same value where a function
/// gets it as an argument: nothing as nothing, an integer as that integer, a
/// float that is a number as that float, a text as that text and bytes as those
/// bytes. A float that is no number and an empty run of bytes come back as
/// nothing, and so does a value of no known type. A text with a NUL in it is
/// not handed over. The lengths must be such as the C interface can take.
pub proof fn law_result_reads_back<E>(
    reads: ResultReads<E>,
    call: ResultCall,
    code: i32,
    value: FunctionValue,
    out: Result<Argument, ConnectionError>,
)
    requires
        is_result_call(reads, Ok(call)),
        handed_on(call, code, value),
        is_argument(value, out),
        result_text(reads) is Some ==> text::byte_length(result_text(reads)->0) <= i32::MAX,
        result_bytes(reads) is Some ==> result_bytes(reads)->0.len() <= i32::MAX,
    ensures
        read_of(code) == value.read(),
        result_text(reads) is Some ==> text::nul_in(result_text(reads)->0) is None,
        if reads.none {
            out == Ok::<Argument, ConnectionError>(Argument::Nothing)
        } else if reads.integer is Some {
            out == Ok::<Argument, ConnectionError>(Argument::Integer(reads.integer->0))
        } else if reads.real is Some {
            out == Ok::<Argument, ConnectionError>(
                if floats::not_a_number(reads.real->0) {
                    Argument::Nothing
                } else {
                    Argument::Real { bits: reads.real->0 }
                },
            )
        } else if result_text(reads) is Some {
            out matches Ok(Argument::Text(s)) && s@ == result_text(reads)->0
        } else if result_bytes(reads) is Some {
            if result_bytes(reads)->0.len() == 0 {
                out == Ok::<Argument, ConnectionError>(Argument::Nothing)
            } else {
                out matches Ok(Argument::Bytes(bytes)) && bytes@ == result_bytes(reads)->0
            }
        } else {
            out == Ok::<Argument, ConnectionError>(Argument::Nothing)
        },
{
    match call {
        ResultCall::Text { text, length } => {
            let encoded = vstd::utf8::encode_utf8(text@);
            assert(encoded.take(encoded.len() as int) =~= encoded);
            vstd::utf8::encode_utf8_valid_utf8(text@);
            vstd::utf8::encode_utf8_decode_utf8(text@);
        },
        ResultCall::Blob { bytes, length } => {
            assert(bytes@.take(bytes@.len() as int) =~= bytes@);
        },
        _ => {},
    }
}

// ---------------------------------------------------------------- columns of rows

/// What reading a cell of a row as one type gives.
pub enum Read<T> {
    /// The cell holds another type.
    Refused,
    /// The cell holds NULL.
    Null,
    Value(T),
}

/// What reading a cell of a row as each type gives.
pub struct ColumnReads {
    pub integer: Read<i64>,
    /// A float, by the bits of its IEEE form.
    pub real: Read<u64>,
    /// That float in decimal, where there is one.
    pub real_text: String,
    pub text: Read<String>,
    pub blob: Read<Vec<u8>>,
}

/// A value of a column.
pub enum ColumnValue {
    Nothing,
    Int(i64),
    Real { bits: u64 },
    Text(String),
    Blob(Vec<u8>),
}

/// What the user gets of a column.
pub enum Shown<V> {
    /// What this converter makes of the bytes; nothing, where there are none.
    Converted(V, Option<Vec<u8>>),
    /// What the text factory makes of the bytes; nothing, where there are none.
    Factored(Option<Vec<u8>>),
    /// The value itself.
    Plain(ColumnValue),
}

/// The bytes that a converter gets of a column.
pub open spec fn column_bytes(reads: ColumnReads) -> Option<Seq<u8>> {
    if reads.blob is Value {
        Some(reads.blob->Value_0@)
    } else if reads.text is Value {
        Some(vstd::utf8::encode_utf8(reads.text->Value_0@))
    } else if reads.integer is Value {
        Some(vstd::utf8::encode_utf8(text::decimal(reads.integer->Value_0 as int)))
    } else if reads.real is Value {
        Some(vstd::utf8::encode_utf8(reads.real_text@))
    } else {
        None
    }
}

/// The bytes that a text factory gets of a column.
pub open spec fn factory_bytes(read: Read<String>) -> Option<Seq<u8>> {
    match read {
        Read::Value(s) => Some(vstd::utf8::encode_utf8(s@)),
        _ => None,
    }
}

/// The bytes that a vector holds, where there is one.
pub open spec fn bytes_of(bytes: Option<Vec<u8>>) -> Option<Seq<u8>> {
    match bytes {
        Some(bytes) => Some(bytes@),
        None => None,
    }
}

/// The types that a column may be declared with.
#[derive(Clone, Copy, Debug, PartialEq, Eq, Structural)]
pub enum DeclaredKind {
    Integer,
    Real,
    Text,
    Blob,
    Other,
}

/// The type that a column is declared with, by its name in upper case.
pub open spec fn declared_as(name: Seq<char>) -> DeclaredKind {
    if name == "INTEGER"@ || name == "INT"@ {
        DeclaredKind::Integer
    } else if name == "REAL"@ || name == "FLOAT"@ || name == "DOUBLE"@ {
        DeclaredKind::Real
    } else if name == "TEXT"@ || name == "VARCHAR"@ || name == "CHAR"@ {
        DeclaredKind::Text
    } else if name == "BLOB"@ {
        DeclaredKind::Blob
    } else {
        DeclaredKind::Other
    }
}

/// Tells the types that a column may be declared with apart.
pub fn declared_kind(name: &str) -> (out: DeclaredKind)
    ensures
        out == declared_as(name@),
{
    if text::equal(name, "INTEGER") || text::equal(name, "INT") {
        DeclaredKind::Integer
    } else if text::equal(name, "REAL") || text::equal(name, "FLOAT") || text::equal(
        name,
        "DOUBLE",
    ) {
        DeclaredKind::Real
    } else if text::equal(name, "TEXT") || text::equal(name, "VARCHAR") || text::equal(
        name,
        "CHAR",
    ) {
        DeclaredKind::Text
    } else if text::equal(name, "BLOB") {
        DeclaredKind::Blob
    } else {
        DeclaredKind::Other
    }
}

/// The value that is read as this type, where the cell can be.
pub open spec fn read_as(kind: DeclaredKind, reads: ColumnReads) -> Option<ColumnValue> {
    match kind {
        DeclaredKind::Integer => match reads.integer {
            Read::Refused => None,
            Read::Null => Some(ColumnValue::Nothing),
            Read::Value(value) => Some(ColumnValue::Int(value)),
        },
        DeclaredKind::Real => match reads.real {
            Read::Refused => None,
            Read::Null => Some(ColumnValue::Nothing),
            Read::Value(bits) => Some(ColumnValue::Real { bits }),
        },
        DeclaredKind::Text => match reads.text {
            Read::Refused => None,
            Read::Null => Some(ColumnValue::Nothing),
            Read::Value(value) => Some(ColumnValue::Text(value)),
        },
        DeclaredKind::Blob => match reads.blob {
            Read::Refused => None,
            Read::Null => Some(ColumnValue::Nothing),
            Read::Value(value) => Some(ColumnValue::Blob(value)),
        },
        DeclaredKind::Other => None,
    }
}

/// The value of a cell: read as the declared type where it can be, else as the
/// first type that it can be read as.
pub open spec fn plain_value(kind: DeclaredKind, reads: ColumnReads) -> ColumnValue {
    if read_as(kind, reads) is Some {
        read_as(kind, reads)->0
    } else if read_as(DeclaredKind::Integer, reads) is Some {
        read_as(DeclaredKind::Integer, reads)->0
    } else if read_as(DeclaredKind::Real, reads) is Some {
        read_as(DeclaredKind::Real, reads)->0
    } else if read_as(DeclaredKind::Text, reads) is Some {
        read_as(DeclaredKind::Text, reads)->0
    } else if read_as(DeclaredKind::Blob, reads) is Some {
        read_as(DeclaredKind::Blob, reads)->0
    } else {
        ColumnValue::Nothing
    }
}

/// Whether the text factory makes the value of a column.
pub open spec fn uses_factory(name: Seq<char>, has_factory: bool, read: Read<String>) -> bool {
    has_factory && name == "TEXT"@ && !(read is Refused)
}

fn bytes_for_converter(reads: ColumnReads) -> (out: Option<Vec<u8>>)
    ensures
        bytes_of(out) == column_bytes(reads),
{
    match reads.blob {
        Read::Value(bytes) => return Some(bytes),
        _ => {},
    }
    match reads.text {
        Read::Value(s) => return Some(s.as_str().as_bytes_vec()),
        _ => {},
    }
    match reads.integer {
        Read::Value(n) => {
            let digits = text::format_signed(n);
            return Some(digits.as_str().as_bytes_vec());
        },
        _ => {},
    }
    match reads.real {
        Read::Value(_) => Some(reads.real_text.as_str().as_bytes_vec()),
        _ => None,
    }
}

fn probe(reads: ColumnReads) -> (out: ColumnValue)
    ensures
        out == plain_value(DeclaredKind::Other, reads),
{
    match reads.integer {
        Read::Null => return ColumnValue::Nothing,
        Read::Value(value) => return ColumnValue::Int(value),
        Read::Refused => {},
    }
    match reads.real {
        Read::Null => return ColumnValue::Nothing,
        Read::Value(bits) => return ColumnValue::Real { bits },
        Read::Refused => {},
    }
    match reads.text {
        Read::Null => return ColumnValue::Nothing,
        Read::Value(value) => return ColumnValue::Text(value),
        Read::Refused => {},
    }
    match reads.blob {
        Read::Null => ColumnValue::Nothing,
        Read::Value(value) => ColumnValue::Blob(value),
        Read::Refused => ColumnValue::Nothing,
    }
}

/// Reads a cell as the declared type where it can be, else as the first type
/// that it can be read as.
pub fn column_value(kind: DeclaredKind, reads: ColumnReads) -> (out: ColumnValue)
    ensures
        out == plain_value(kind, reads),
{
    match kind {
        DeclaredKind::Text => match reads.text {
            Read::Null => ColumnValue::Nothing,
            Read::Value(value) => ColumnValue::Text(value),
            Read::Refused => probe(reads),
        },
        DeclaredKind::Blob => match reads.blob {
            Read::Null => ColumnValue::Nothing,
            Read::Value(value) => ColumnValue::Blob(value),
            Read::Refused => probe(reads),
        },
        DeclaredKind::Real => match reads.real {
            Read::Null => ColumnValue::Nothing,
            Read::Value(bits) => ColumnValue::Real { bits },
            Read::Refused => probe(reads),
        },
        DeclaredKind::Integer | DeclaredKind::Other => probe(reads),
    }
}

/// Finds out what the user gets of a column: a converter that is registered
/// for the declared type comes first, then the text factory, which sees TEXT
/// columns alone, then the value itself.
pub fn show_column<V: Copy>(
    declared: &str,
    converters: &Registry<V>,
    has_factory: bool,
    reads: ColumnReads,
) -> (out: Shown<V>)
    requires
        converters.wf(),
    ensures
        ({
            let name = text::ascii_uppercase(declared@);
            match out {
                Shown::Converted(converter, bytes) => {
                    &&& converters@.dom().contains(name)
                    &&& converter == converters@[name]
                    &&& bytes_of(bytes) == column_bytes(reads)
                },
                Shown::Factored(bytes) => {
                    &&& !converters@.dom().contains(name)
                    &&& uses_factory(name, has_factory, reads.text)
                    &&& bytes_of(bytes) == factory_bytes(reads.text)
                },
                Shown::Plain(value) => {
                    &&& !converters@.dom().contains(name)
                    &&& !uses_factory(name, has_factory, reads.text)
                    &&& value == plain_value(declared_as(name), reads)
                },
            }
        }),
{
    let name = text::to_ascii_uppercase(declared);
    match converters.get(&name) {
        Some(converter) => return Shown::Converted(converter, bytes_for_converter(reads)),
        None => {},
    }
    if has_factory && text::equal(name.as_str(), "TEXT") {
        match &reads.text {
            Read::Null => return Shown::Factored(None),
            Read::Value(s) => return Shown::Factored(Some(s.as_str().as_bytes_vec())),
            Read::Refused => {},
        }
    }
    Shown::Plain(column_value(declared_kind(name.as_str()), reads))
}

/// A cell that holds NULL shows as nothing, whatever its column is declared
/// as.
pub proof fn law_null_shows_as_nothing(kind: DeclaredKind, reads: ColumnReads)
    requires
        reads.integer is Null,
        reads.real is Null,
        reads.text is Null,
        reads.blob is Null,
    ensures
        plain_value(kind, reads) is Nothing,
        column_bytes(reads) is None,
        factory_bytes(reads.text) is None,
{
}

/// A cell that can be read as one type alone shows as that value, whatever its
/// column is declared as.
pub proof fn law_value_shows_as_it_is(
    kind: DeclaredKind,
    held: DeclaredKind,
    reads: ColumnReads,
)
    requires
        read_as(held, reads) is Some,
        forall|other: DeclaredKind| other != held ==> #[trigger] read_as(other, reads) is None,
    ensures
        plain_value(kind, reads) == read_as(held, reads)->0,
{
    if kind != held {
        assert(read_as(kind, reads) is None);
    }
    if held != DeclaredKind::Integer {
        assert(read_as(DeclaredKind::Integer, reads) is None);
    }
    if held != DeclaredKind::Real {
        assert(read_as(DeclaredKind::Real, reads) is None);
    }
    if held != DeclaredKind::Text {
        assert(read_as(DeclaredKind::Text, reads) is None);
    }
}

// ---------------------------------------------------------------- rows

/// Counts the columns of a row: as many as it has both values and names for.
pub fn row_column_count(values: usize, names: usize) -> (out: usize)
    ensures
        out == (if values <= names {
            values
        } else {
            names
        }),
{
    if values <= names {
        values
    } else {
        names
    }
}

/// What makes the rows that the user gets.
pub enum RowFactory {
    Unset,
    /// A name.
    Named(String),
    /// The row class of the library.
    RowClass,
    /// Anything else is called.
    Callable,
}

/// The form in which the user gets a row.
#[derive(Clone, Copy, Debug, PartialEq, Eq, Structural)]
pub enum RowShape {
    List,
    Dict,
    Tuple,
    Row,
    /// What the factory makes of the list.
    Made,
}

/// The form in which the user gets a row.
pub open spec fn shape_of(factory: RowFactory) -> RowShape {
    match factory {
        RowFactory::Unset => RowShape::List,
        RowFactory::Named(name) => if name@ == "dict"@ {
            RowShape::Dict
        } else if name@ == "tuple"@ {
            RowShape::Tuple
        } else {
            RowShape::List
        },
        RowFactory::RowClass => RowShape::Row,
        RowFactory::Callable => RowShape::Made,
    }
}

/// Finds the form in which the user gets a row.
pub fn row_shape(factory: &RowFactory) -> (out: RowShape)
    ensures
        out == shape_of(*factory),
{
    match factory {
        RowFactory::Unset => RowShape::List,
        RowFactory::Named(name) => if text::equal(name.as_str(), "dict") {
            RowShape::Dict
        } else if text::equal(name.as_str(), "tuple") {
            RowShape::Tuple
        } else {
            RowShape::List
        },
        RowFactory::RowClass => RowShape::Row,
        RowFactory::Callable => RowShape::Made,
    }
}

/// A row as the user gets it.
pub enum BuiltRow<V> {
    List(Vec<V>),
    Tuple(Vec<V>),
    /// A dictionary, by its entries in order.
    Dict(Vec<(String, V)>),
    /// What the row class of the library makes of the names and values.
    Row { names: Vec<String>, values: Vec<V> },
    /// What the factory makes of the list.
    Made(Vec<V>),
}

/// The place of a key among entries, where it has one.
pub open spec fn key_place<V>(entries: Seq<(Seq<char>, V)>, key: Seq<char>) -> Option<int>
    decreases entries.len(),
{
    if entries.len() == 0 {
        None
    } else {
        match key_place(entries.drop_last(), key) {
            Some(at) => Some(at),
            None => if entries.last().0 == key {
                Some(entries.len() - 1)
            } else {
                None
            },
        }
    }
}

/// A dictionary with a value set under a key: in the place of the key, or
/// behind all others.
pub open spec fn with_entry<V>(
    entries: Seq<(Seq<char>, V)>,
    key: Seq<char>,
    value: V,
) -> Seq<(Seq<char>, V)> {
    match key_place(entries, key) {
        Some(at) => entries.update(at, (key, value)),
        None => entries.push((key, value)),
    }
}

/// The dictionary of names and values, which are set one after the other.
pub open spec fn dict_entries<V>(names: Seq<Seq<char>>, values: Seq<V>) -> Seq<(Seq<char>, V)>
    decreases names.len(),
{
    if names.len() == 0 || values.len() == 0 {
        Seq::empty()
    } else {
        with_entry(
            dict_entries(names.drop_last(), values.drop_last()),
            names.last(),
            values.last(),
        )
    }
}

/// The entries of a dictionary as texts and values.
pub open spec fn entry_pairs<V>(entries: Seq<(String, V)>) -> Seq<(Seq<char>, V)> {
    entries.map_values(|e: (String, V)| (e.0@, e.1))
}

fn find_key<V>(entries: &Vec<(String, V)>, key: &String) -> (out: Option<usize>)
    ensures
        match out {
            Some(at) => key_place(entry_pairs(entries@), key@) == Some(at as int),
            None => key_place(entry_pairs(entries@), key@) is None,
        },
{
    let ghost all = entry_pairs(entries@);
    let mut i: usize = 0;
    proof {
        assert(all.take(0) =~= Seq::<(Seq<char>, V)>::empty());
    }
    while i < entries.len()
        invariant
            i <= entries@.len(),
            all == entry_pairs(entries@),
            key_place(all.take(i as int), key@) is None,
        decreases entries@.len() - i,
    {
        proof {
            assert(all.take(i + 1).drop_last() =~= all.take(i as int));
            assert(all.take(i + 1).last() == (entries@[i as int].0@, entries@[i as int].1));
        }
        if text::equal(entries[i].0.as_str(), key.as_str()) {
            proof {
                lemma_key_place_stays(all, key@, i + 1);
            }
            return Some(i);
        }
        i += 1;
    }
    proof {
        assert(all.take(entries@.len() as int) =~= all);
    }
    None
}

proof fn lemma_key_place_stays<V>(entries: Seq<(Seq<char>, V)>, key: Seq<char>, n: int)
    requires
        0 <= n <= entries.len(),
        key_place(entries.take(n), key) is Some,
    ensures
        key_place(entries, key) == key_place(entries.take(n), key),
    decreases entries.len(),
{
    if n < entries.len() {
        assert(entries.drop_last().take(n) =~= entries.take(n));
        lemma_key_place_stays(entries.drop_last(), key, n);
    } else {
        assert(entries.take(n) =~= entries);
    }
}

proof fn lemma_key_place<V>(entries: Seq<(Seq<char>, V)>, key: Seq<char>)
    ensures
        match key_place(entries, key) {
            Some(at) => 0 <= at < entries.len() && entries[at].0 == key,
            None => forall|i: int| 0 <= i < entries.len() ==> (#[trigger] entries[i]).0 != key,
        },
    decreases entries.len(),
{
    if entries.len() > 0 {
        lemma_key_place(entries.drop_last(), key);
        assert forall|i: int|
            0 <= i < entries.len() && key_place(entries, key) is None implies (
        #[trigger] entries[i]).0 != key by {
            if i < entries.len() - 1 {
                assert(entries.drop_last()[i] == entries[i]);
            }
        }
    }
}

fn build_dict<V>(names: Vec<String>, values: Vec<V>) -> (out: Vec<(String, V)>)
    requires
        names@.len() == values@.len(),
    ensures
        entry_pairs(out@) == dict_entries(text::texts(names@), values@),
{
    let ghost all_names = text::texts(names@);
    let ghost all_values = values@;
    let mut names = names;
    let mut values = values;
    let mut left: Vec<(String, V)> = Vec::new();
    // The columns are taken off the end and put in order again.
    while names.len() > 0
        invariant
            names@.len() == values@.len(),
            names@.len() + left@.len() == all_names.len(),
            all_names.len() == all_values.len(),
            text::texts(names@) =~= all_names.take(names@.len() as int),
            values@ =~= all_values.take(values@.len() as int),
            forall|i: int|
                0 <= i < left@.len() ==> (#[trigger] left@[i]).0@ == all_names[all_names.len() - 1
                    - i] && left@[i].1 == all_values[all_values.len() - 1 - i],
        decreases names@.len(),
    {
        let ghost n = names@.len() as int;
        proof {
            assert(text::texts(names@)[n - 1] == names@[n - 1]@);
            assert(all_names.take(n)[n - 1] == all_names[n - 1]);
            assert(all_values.take(n)[n - 1] == all_values[n - 1]);
        }
        let ghost before = names@;
        let ghost values_before = values@;
        if let (Some(name), Some(value)) = (names.pop(), values.pop()) {
            left.push((name, value));
        }
        proof {
            assert(text::texts(names@) =~= text::texts(before).drop_last());
            assert(all_names.take(n).drop_last() =~= all_names.take(n - 1));
            assert(all_values.take(n).drop_last() =~= all_values.take(n - 1));
        }
    }
    let mut out: Vec<(String, V)> = Vec::new();
    proof {
        assert(entry_pairs(out@) =~= dict_entries(all_names.take(0), all_values.take(0)));
    }
    while left.len() > 0
        invariant
            left@.len() <= all_names.len(),
            all_names.len() == all_values.len(),
            forall|i: int|
                0 <= i < left@.len() ==> (#[trigger] left@[i]).0@ == all_names[all_names.len() - 1
                    - i] && left@[i].1 == all_values[all_values.len() - 1 - i],
            entry_pairs(out@) == dict_entries(
                all_names.take(all_names.len() - left@.len()),
                all_values.take(all_names.len() - left@.len()),
            ),
        decreases left@.len(),
    {
        let ghost n = all_names.len() - left@.len();
        let ghost before = out@;
        proof {
            assert(left@[left@.len() - 1].0@ == all_names[n]);
            assert(all_names.take(n + 1).drop_last() =~= all_names.take(n));
            assert(all_values.take(n + 1).drop_last() =~= all_values.take(n));
        }
        if let Some((name, value)) = left.pop() {
            let place: Option<usize> = find_key(&out, &name);
            proof {
                lemma_key_place(entry_pairs(out@), name@);
            }
            match place {
                Some(at) => {
                    out.set(at, (name, value));
                    proof {
                        assert(entry_pairs(out@) =~= entry_pairs(before).update(
                            at as int,
                            (all_names[n], all_values[n]),
                        ));
                    }
                },
                None => {
                    out.push((name, value));
                    proof {
                        assert(entry_pairs(out@) =~= entry_pairs(before).push(
                            (all_names[n], all_values[n]),
                        ));
                    }
                },
            }
        }
    }
    proof {
        assert(all_names.take(all_names.len() as int) =~= all_names);
        assert(all_values.take(all_values.len() as int) =~= all_values);
    }
    out
}

/// Puts a row together, in the form that its factory asks for, from the names
/// and values of its columns.
pub fn build_row<V>(factory: &RowFactory, names: Vec<String>, values: Vec<V>) -> (out: BuiltRow<V>)
    requires
        names@.len() == values@.len(),
    ensures
        match out {
            BuiltRow::List(all) => shape_of(*factory) == RowShape::List && all@ == values@,
            BuiltRow::Tuple(all) => shape_of(*factory) == RowShape::Tuple && all@ == values@,
            BuiltRow::Dict(entries) => shape_of(*factory) == RowShape::Dict && entry_pairs(entries@)
                == dict_entries(text::texts(names@), values@),
            BuiltRow::Row { names: heads, values: all } => {
                &&& shape_of(*factory) == RowShape::Row
                &&& heads@ == names@
                &&& all@ == values@
            },
            BuiltRow::Made(all) => shape_of(*factory) == RowShape::Made && all@ == values@,
        },
{
    match row_shape(factory) {
        RowShape::List => BuiltRow::List(values),
        RowShape::Tuple => BuiltRow::Tuple(values),
        RowShape::Dict => BuiltRow::Dict(build_dict(names, values)),
        RowShape::Row => BuiltRow::Row { names, values },
        RowShape::Made => BuiltRow::Made(values),
    }
}

/// A row as a dictionary has each name once, with the value of the last column
/// of that name.
pub proof fn law_dict_keeps_last_value<V>(names: Seq<Seq<char>>, values: Seq<V>, i: int)
    requires
        names.len() == values.len(),
        0 <= i < names.len(),
        forall|j: int| i < j < names.len() ==> #[trigger] names[j] != names[i],
    ensures
        ({
            let entries = dict_entries(names, values);
            &&& key_place(entries, names[i]) matches Some(at) && entries[at] == (
                names[i],
                values[i],
            )
            &&& forall|a: int, b: int|
                0 <= a < entries.len() && 0 <= b < entries.len() && (#[trigger] entries[a]).0 == (
                #[trigger] entries[b]).0 ==> a == b
        }),
    decreases names.len(),
{
    let before = dict_entries(names.drop_last(), values.drop_last());
    let entries = dict_entries(names, values);
    lemma_dict_names(names.drop_last(), values.drop_last());
    lemma_dict_names(names, values);
    lemma_key_place(before, names.last());
    lemma_key_place(entries, names[i]);
    if i < names.len() - 1 {
        let short = names.drop_last();
        assert forall|j: int| i < j < short.len() implies #[trigger] short[j] != short[i] by {
            assert(names[j] != names[i]);
        }
        law_dict_keeps_last_value(short, values.drop_last(), i);
        lemma_key_place(before, names[i]);
        assert(names[names.len() - 1] != names[i]);
        let at = key_place(before, names[i])->0;
        assert(entries[at] == (names[i], values[i]));
        assert(entries[key_place(entries, names[i])->0].0 == entries[at].0);
    } else {
        let at = match key_place(before, names.last()) {
            Some(at) => at,
            None => before.len() as int,
        };
        assert(entries[at] == (names[i], values[i]));
        assert(entries[key_place(entries, names[i])->0].0 == entries[at].0);
    }
}

proof fn lemma_dict_names<V>(names: Seq<Seq<char>>, values: Seq<V>)
    requires
        names.len() == values.len(),
    ensures
        forall|a: int, b: int|
            #![trigger dict_entries(names, values)[a], dict_entries(names, values)[b]]
            0 <= a < dict_entries(names, values).len() && 0 <= b < dict_entries(names, values).len()
                && dict_entries(names, values)[a].0 == dict_entries(names, values)[b].0 ==> a == b,
    decreases names.len(),
{
    if names.len() > 0 {
        let before = dict_entries(names.drop_last(), values.drop_last());
        lemma_dict_names(names.drop_last(), values.drop_last());
        lemma_key_place(before, names.last());
        let entries = dict_entries(names, values);
        assert forall|a: int, b: int|
            #![trigger entries[a], entries[b]]
            0 <= a < entries.len() && 0 <= b < entries.len() && entries[a].0
                == entries[b].0 implies a == b by {
            if a < before.len() && b < before.len() {
                assert(before[a].0 == entries[a].0);
                assert(before[b].0 == entries[b].0);
            }
        }
    }
}

// ---------------------------------------------------------------- columns of queries

/// A query without blanks at its ends, and every white space in it a blank.
pub open spec fn blanked(query: Seq<char>) -> Seq<char> {
    text::trimmed(query).map_values(
        |c: char|
            if text::white(c) {
                ' '
            } else {
                c
            },
    )
}

/// The first position at which `needle` stands in `hay`.
pub open spec fn first_at(hay: Seq<char>, needle: Seq<char>, at: int) -> bool {
    text::stands_at(hay, needle, at) && forall|j: int|
        0 <= j < at ==> !text::stands_at(hay, needle, j)
}

/// What stands between SELECT and FROM in a query that was blanked, whatever
/// the case of these two words; nothing where the query is no such SELECT.
pub open spec fn select_list(query: Seq<char>) -> Option<Seq<char>> {
    let upper = text::ascii_uppercase(query);
    if "SELECT"@.is_prefix_of(upper) && text::occurs(upper, " FROM "@) {
        let at = choose|at: int| first_at(upper, " FROM "@, at);
        Some(text::trimmed(query.subrange(6, at)))
    } else {
        None
    }
}

/// The columns of a select list: its parts without blanks around them.
pub open spec fn list_parts(list: Seq<char>) -> Seq<Seq<char>> {
    text::parts(list, ',').map_values(|part: Seq<char>| text::trimmed(part))
}

/// Whether a select list names its columns.
pub open spec fn names_columns(list: Seq<char>) -> bool {
    &&& list.len() > 0
    &&& list != "*"@
    &&& forall|i: int| 0 <= i < list_parts(list).len() ==> (#[trigger] list_parts(list)[i]).len() > 0
}

/// The names of the columns that a query selects, where they can be told.
pub open spec fn column_names(query: Seq<char>) -> Option<Seq<Seq<char>>> {
    match select_list(blanked(query)) {
        Some(list) => if names_columns(list) {
            Some(list_parts(list))
        } else {
            None
        },
        None => None,
    }
}

/// Whether a list of names is the one that is meant.
pub open spec fn are_names(out: Option<Vec<String>>, names: Option<Seq<Seq<char>>>) -> bool {
    match out {
        Some(v) => names == Some(text::texts(v@)),
        None => names is None,
    }
}

fn blank_out(query: &str) -> (out: String)
    ensures
        out@ == blanked(query@),
{
    let chars = text::trim(&text::characters(query));
    let mut out = String::new();
    let mut i: usize = 0;
    while i < chars.len()
        invariant
            i <= chars@.len(),
            chars@ == text::trimmed(query@),
            out@ == blanked(query@).take(i as int),
        decreases chars@.len() - i,
    {
        if text::is_white(chars[i]) {
            out.push(' ');
        } else {
            out.push(chars[i]);
        }
        i += 1;
        proof {
            assert(out@ =~= blanked(query@).take(i as int));
        }
    }
    proof {
        assert(blanked(query@).take(chars@.len() as int) == blanked(query@));
    }
    out
}

proof fn lemma_first_is_unique(hay: Seq<char>, needle: Seq<char>, at: int)
    requires
        first_at(hay, needle, at),
    ensures
        at == choose|i: int| first_at(hay, needle, i),
{
    let other = choose|i: int| first_at(hay, needle, i);
    if other < at {
        assert(!text::stands_at(hay, needle, other));
    }
    if at < other {
        assert(!text::stands_at(hay, needle, at));
    }
}

fn cut_list(query: &str) -> (out: Option<Vec<char>>)
    ensures
        match out {
            Some(list) => select_list(query@) == Some(list@),
            None => select_list(query@) is None,
        },
{
    let upper = text::to_ascii_uppercase(query);
    if !text::starts_with(upper.as_str(), "SELECT") {
        return None;
    }
    let hay = text::characters(upper.as_str());
    match text::find(&hay, &text::characters(" FROM ")) {
        None => None,
        Some(at) => {
            proof {
                reveal_strlit("SELECT");
                reveal_strlit(" FROM ");
                assert(text::occurs(upper@, " FROM "@));
                assert(first_at(upper@, " FROM "@, at as int));
                lemma_first_is_unique(upper@, " FROM "@, at as int);
                assert(upper@.subrange(at as int, at + 6)[0] == ' ');
                assert(at < 6 ==> upper@[at as int] == "SELECT"@[at as int]);
            }
            let chars = text::characters(query);
            let list = text::string_of(&chars, 6, at);
            Some(text::trim(&text::characters(list.as_str())))
        },
    }
}

/// Tells the names of the columns that a query selects, where they can be
/// told.
pub fn parse_select_column_names(query: &str) -> (out: Option<Vec<String>>)
    ensures
        are_names(out, column_names(query@)),
{
    let blank = blank_out(query);
    let list = match cut_list(blank.as_str()) {
        Some(list) => list,
        None => {
            return None;
        },
    };
    if list.len() == 0 {
        return None;
    }
    let whole = text::string_of(&list, 0, list.len());
    proof {
        assert(whole@ == list@);
    }
    if text::equal(whole.as_str(), "*") {
        return None;
    }
    let parts = text::split(&list, ',');
    let mut names: Vec<String> = Vec::new();
    let mut i: usize = 0;
    while i < parts.len()
        invariant
            i <= parts@.len(),
            names@.len() == i,
            parts@.len() == list_parts(list@).len(),
            forall|j: int|
                0 <= j < parts@.len() ==> (#[trigger] parts@[j])@ == text::parts(list@, ',')[j],
            forall|j: int|
                0 <= j < i ==> (#[trigger] names@[j])@ == list_parts(list@)[j] && list_parts(
                    list@,
                )[j].len() > 0,
            select_list(blanked(query@)) == Some(list@),
        decreases parts@.len() - i,
    {
        let part = text::trim(&parts[i]);
        proof {
            assert(list_parts(list@)[i as int] == part@);
        }
        if part.len() == 0 {
            return None;
        }
        let name = text::string_of(&part, 0, part.len());
        proof {
            assert(name@ == part@);
        }
        names.push(name);
        i += 1;
    }
    proof {
        assert(text::texts(names@) =~= list_parts(list@));
    }
    Some(names)
}

// ---------------------------------------------------------------- descriptions

/// The entry of a column in the description of a result: its name, its type,
/// and five more places that stay empty.
pub open spec fn description_entry(name: Seq<char>, declared: Option<Seq<char>>) -> Seq<
    Option<Seq<char>>,
> {
    seq![Some(name), declared, None, None, None, None, None]
}

/// An entry as texts.
pub open spec fn entry_texts(entry: Seq<Option<String>>) -> Seq<Option<Seq<char>>> {
    entry.map_values(|s: Option<String>| text::text_of(s))
}

fn entry(name: String, declared: Option<String>) -> (out: Vec<Option<String>>)
    ensures
        entry_texts(out@) == description_entry(name@, text::text_of(declared)),
{
    let mut out: Vec<Option<String>> = Vec::new();
    out.push(Some(name));
    out.push(declared);
    out.push(None);
    out.push(None);
    out.push(None);
    out.push(None);
    out.push(None);
    proof {
        assert(entry_texts(out@) =~= description_entry(name@, text::text_of(declared)));
    }
    out
}

/// The names of the columns of a result without rows: those that the query
/// selects, or one in their place.
pub open spec fn described_names(names: Option<Seq<Seq<char>>>) -> Seq<Seq<char>> {
    match names {
        Some(names) => names,
        None => seq!["column_0"@],
    }
}

/// The description of a result without rows.
pub open spec fn description_of(names: Seq<Seq<char>>) -> Seq<Seq<Option<Seq<char>>>> {
    names.map_values(|name: Seq<char>| description_entry(name, None))
}

/// A description as texts.
pub open spec fn description_texts(description: Seq<Vec<Option<String>>>) -> Seq<
    Seq<Option<Seq<char>>>,
> {
    description.map_values(|column: Vec<Option<String>>| entry_texts(column@))
}

/// Describes a result without rows, from the names that its query gives.
pub fn describe_names(names: Option<Vec<String>>) -> (out: Vec<Vec<Option<String>>>)
    ensures
        description_texts(out@) == description_of(
            described_names(
                match names {
                    Some(v) => Some(text::texts(v@)),
                    None => None,
                },
            ),
        ),
{
    let mut out: Vec<Vec<Option<String>>> = Vec::new();
    match names {
        Some(names) => {
            let mut i: usize = 0;
            while i < names.len()
                invariant
                    i <= names@.len(),
                    out@.len() == i,
                    forall|j: int|
                        0 <= j < i ==> entry_texts((#[trigger] out@[j])@) == description_entry(
                            names@[j]@,
                            None,
                        ),
                decreases names@.len() - i,
            {
                out.push(entry(names[i].clone(), None));
                i += 1;
            }
            proof {
                assert(description_texts(out@) =~= description_of(text::texts(names@)));
            }
        },
        None => {
            out.push(entry(String::from_str("column_0"), None));
            proof {
                assert(description_texts(out@) =~= description_of(seq!["column_0"@]));
            }
        },
    }
    out
}

/// Describes a result without rows.
pub fn build_description_empty_result(query: Option<&str>) -> (out: Vec<Vec<Option<String>>>)
    ensures
        description_texts(out@) == description_of(
            described_names(
                match query {
                    Some(q) => column_names(q@),
                    None => None,
                },
            ),
        ),
{
    match query {
        Some(q) => describe_names(parse_select_column_names(q)),
        None => describe_names(None),
    }
}

/// A column of a row.
pub struct ColumnHead {
    pub name: String,
    /// The name of its type.
    pub declared: String,
}

/// The description of a result with rows.
pub open spec fn head_description(columns: Seq<ColumnHead>) -> Seq<Seq<Option<Seq<char>>>> {
    columns.map_values(
        |c: ColumnHead|
            description_entry(c.name@, Some(text::ascii_uppercase(c.declared@))),
    )
}

/// Describes a result from a row of it.
pub fn build_description_tuple(columns: &Vec<ColumnHead>) -> (out: Vec<Vec<Option<String>>>)
    ensures
        description_texts(out@) == head_description(columns@),
{
    let mut out: Vec<Vec<Option<String>>> = Vec::new();
    let mut i: usize = 0;
    while i < columns.len()
        invariant
            i <= columns@.len(),
            out@.len() == i,
            forall|j: int|
                0 <= j < i ==> entry_texts((#[trigger] out@[j])@) == description_entry(
                    columns@[j].name@,
                    Some(text::ascii_uppercase(columns@[j].declared@)),
                ),
        decreases columns@.len() - i,
    {
        let declared = text::to_ascii_uppercase(columns[i].declared.as_str());
        out.push(entry(columns[i].name.clone(), Some(declared)));
        i += 1;
    }
    proof {
        assert(description_texts(out@) =~= head_description(columns@));
    }
    out
}

/// The description of a result without rows always holds a column, and each
/// entry has seven places, of which all but the name are empty.
pub proof fn law_description_is_never_empty(query: Seq<char>)
    ensures
        ({
            let description = description_of(described_names(column_names(query)));
            &&& description.len() > 0
            &&& forall|i: int, j: int|
                0 <= i < description.len() && 0 <= j < 7 ==> {
                    &&& description[i].len() == 7
                    &&& (#[trigger] description[i][j]) is Some <==> j == 0
                }
        }),
{
    match select_list(blanked(query)) {
        Some(list) => text::law_split_gives_a_part(list, ','),
        None => {},
    }
}

// ---------------------------------------------------------------- what shows of a cell

/// A cell that can be read as one type alone shows as exactly what that read
/// gives, whatever its column is declared as: an integer, a float by its bits,
/// a text or a BLOB.
pub proof fn law_lone_value_shows(kind: DeclaredKind, reads: ColumnReads)
    ensures
        (reads.integer is Value && reads.real is Refused && reads.text is Refused
            && reads.blob is Refused) ==> plain_value(kind, reads) == ColumnValue::Int(
            reads.integer->Value_0,
        ),
        (reads.integer is Refused && reads.real is Value && reads.text is Refused
            && reads.blob is Refused) ==> plain_value(kind, reads) == (ColumnValue::Real {
            bits: reads.real->Value_0,
        }),
        (reads.integer is Refused && reads.real is Refused && reads.text is Value
            && reads.blob is Refused) ==> plain_value(kind, reads) == ColumnValue::Text(
            reads.text->Value_0,
        ),
        (reads.integer is Refused && reads.real is Refused && reads.text is Refused
            && reads.blob is Value) ==> plain_value(kind, reads) == ColumnValue::Blob(
            reads.blob->Value_0,
        ),
        (reads.integer is Refused && reads.real is Refused && reads.text is Refused
            && reads.blob is Refused) ==> plain_value(kind, reads) is Nothing,
{
}

/// Whether a column of this kind shows what the read of that kind gives: it is
/// declared as that kind, or that read comes first among those that succeed,
/// integers before floats before texts before BLOBs, and the declared one does
/// not succeed.
pub open spec fn decides(kind: DeclaredKind, reading: DeclaredKind, reads: ColumnReads) -> bool {
    let declared_fails = match kind {
        DeclaredKind::Integer => reads.integer is Refused,
        DeclaredKind::Real => reads.real is Refused,
        DeclaredKind::Text => reads.text is Refused,
        DeclaredKind::Blob => reads.blob is Refused,
        DeclaredKind::Other => true,
    };
    ||| kind == reading
    ||| declared_fails && (match reading {
        DeclaredKind::Integer => true,
        DeclaredKind::Real => reads.integer is Refused,
        DeclaredKind::Text => reads.integer is Refused && reads.real is Refused,
        DeclaredKind::Blob => reads.integer is Refused && reads.real is Refused
            && reads.text is Refused,
        DeclaredKind::Other => false,
    })
}

/// A cell that can be read as several types shows as its declared type where
/// it can, and otherwise as the first of integer, float, text and BLOB; a read
/// that finds NULL shows as nothing, and a value shows as it was read.
pub proof fn law_declared_type_decides(kind: DeclaredKind, reads: ColumnReads)
    ensures
        decides(kind, DeclaredKind::Integer, reads) ==> match reads.integer {
            Read::Value(value) => plain_value(kind, reads) == ColumnValue::Int(value),
            Read::Null => plain_value(kind, reads) is Nothing,
            Read::Refused => true,
        },
        decides(kind, DeclaredKind::Real, reads) ==> match reads.real {
            Read::Value(bits) => plain_value(kind, reads) == (ColumnValue::Real { bits }),
            Read::Null => plain_value(kind, reads) is Nothing,
            Read::Refused => true,
        },
        decides(kind, DeclaredKind::Text, reads) ==> match reads.text {
            Read::Value(value) => plain_value(kind, reads) == ColumnValue::Text(value),
            Read::Null => plain_value(kind, reads) is Nothing,
            Read::Refused => true,
        },
        decides(kind, DeclaredKind::Blob, reads) ==> match reads.blob {
            Read::Value(value) => plain_value(kind, reads) == ColumnValue::Blob(value),
            Read::Null => plain_value(kind, reads) is Nothing,
            Read::Refused => true,
        },
{
}

/// The names that a type may be declared by, in upper case, are these and no
/// others.
pub proof fn law_declared_names(name: Seq<char>)
    ensures
        declared_as(name) == DeclaredKind::Integer <==> name == "INTEGER"@ || name == "INT"@,
        declared_as(name) == DeclaredKind::Real <==> name == "REAL"@ || name == "FLOAT"@ || name
            == "DOUBLE"@,
        declared_as(name) == DeclaredKind::Text <==> name == "TEXT"@ || name == "VARCHAR"@ || name
            == "CHAR"@,
        declared_as(name) == DeclaredKind::Blob <==> name == "BLOB"@,
{
    reveal_strlit("INTEGER");
    reveal_strlit("INT");
    reveal_strlit("REAL");
    reveal_strlit("FLOAT");
    reveal_strlit("DOUBLE");
    reveal_strlit("TEXT");
    reveal_strlit("VARCHAR");
    reveal_strlit("CHAR");
    reveal_strlit("BLOB");
    assert("INTEGER"@[0] == 'I' && "INT"@[0] == 'I' && "REAL"@[0] == 'R' && "FLOAT"@[0] == 'F');
    assert("DOUBLE"@[0] == 'D' && "TEXT"@[0] == 'T' && "VARCHAR"@[0] == 'V');
    assert("CHAR"@[0] == 'C' && "BLOB"@[0] == 'B');
}

/// A converter gets the bytes of the cell: those of a BLOB as they are, those
/// of a text in UTF-8, and those of a number in decimal. A text factory gets
/// the bytes of the text, and neither gets any of a cell without a value.
pub proof fn law_bytes_are_those_of_the_cell(reads: ColumnReads)
    ensures
        reads.blob matches Read::Value(bytes) ==> column_bytes(reads) == Some(bytes@),
        !(reads.blob is Value) ==> (reads.text matches Read::Value(s) ==> column_bytes(reads)
            == Some(vstd::utf8::encode_utf8(s@))),
        !(reads.blob is Value) && !(reads.text is Value) ==> (reads.integer matches Read::Value(n)
            ==> column_bytes(reads) == Some(vstd::utf8::encode_utf8(text::decimal(n as int)))),
        !(reads.blob is Value) && !(reads.text is Value) && !(reads.integer is Value)
            && reads.real is Value ==> column_bytes(reads) == Some(
            vstd::utf8::encode_utf8(reads.real_text@),
        ),
        !(reads.blob is Value) && !(reads.text is Value) && !(reads.integer is Value) && !(
        reads.real is Value) ==> column_bytes(reads) is None,
        reads.text matches Read::Value(s) ==> factory_bytes(reads.text) == Some(
            vstd::utf8::encode_utf8(s@),
        ),
        !(reads.text is Value) ==> factory_bytes(reads.text) is None,
{
}

/// The text factory sees TEXT columns alone, and only where there is one and
/// the cell can be read as a text or holds NULL.
pub proof fn law_factory_sees_text_alone(name: Seq<char>, has_factory: bool, read: Read<String>)
    ensures
        uses_factory(name, has_factory, read) ==> has_factory && name == "TEXT"@ && !(
        read is Refused),
        has_factory && name == "TEXT"@ && !(read is Refused) ==> uses_factory(
            name,
            has_factory,
            read,
        ),
{
}

/// The result of a function that is a text with a NUL byte is refused, with the
/// place of the first; one whose text cannot be read fails with that error; any
/// other is handed over.
pub proof fn law_result_is_refused_on_nul<E>(
    reads: ResultReads<E>,
    out: Result<ResultCall, ResultError<E>>,
)
    requires
        is_result_call(reads, out),
    ensures
        match out {
            Ok(_) => result_text(reads) matches Some(s) ==> {
                let bytes = vstd::utf8::encode_utf8(s);
                forall|i: int| 0 <= i < bytes.len() ==> bytes[i] != 0
            },
            Err(ResultError::Refused(error)) => {
                &&& result_text(reads) matches Some(s)
                &&& error matches ConnectionError::NulInResult { position }
                &&& vstd::utf8::encode_utf8(s).len() <= usize::MAX ==> {
                    &&& position < vstd::utf8::encode_utf8(s).len()
                    &&& vstd::utf8::encode_utf8(s)[position as int] == 0
                    &&& forall|i: int|
                        0 <= i < position ==> #[trigger] vstd::utf8::encode_utf8(s)[i] != 0
                }
            },
            Err(ResultError::Call(error)) => reads.text_object == Some(
                Result::<String, E>::Err(error),
            ) && !reads.none && reads.integer is None && reads.real is None && reads.string is None
                && reads.bytes is None && reads.byte_object is None,
        },
{
    match result_text(reads) {
        Some(s) => text::law_first_nul_is_the_first(vstd::utf8::encode_utf8(s)),
        None => {},
    }
}

/// The read of a value goes by its storage class: integer, float, text and BLOB
/// are the classes 1 to 4, and any other has no value to read.
pub proof fn law_argument_is_read_by_class(code: i32)
    ensures
        code == 1 ==> read_of(code) == ValueRead::Integer,
        code == 2 ==> read_of(code) == ValueRead::Float,
        code == 3 ==> read_of(code) == ValueRead::Text,
        code == 4 ==> read_of(code) == ValueRead::Blob,
        !(1 <= code <= 4) ==> read_of(code) == ValueRead::Nothing,
{
}

/// A function of the user gets the value that SQLite hands it: a number as it
/// is, a text that is UTF-8 as that text, bytes as they are, and nothing where
/// there is nothing to point at. Only a text that is not UTF-8 is refused.
pub proof fn law_argument_is_the_value(value: FunctionValue, out: Result<Argument, ConnectionError>)
    requires
        is_argument(value, out),
    ensures
        match value {
            FunctionValue::Nothing => out matches Ok(Argument::Nothing),
            FunctionValue::Integer(n) => out matches Ok(Argument::Integer(got)) && got == n,
            FunctionValue::Real { bits } => out matches Ok(Argument::Real { bits: got }) && got
                == bits,
            FunctionValue::Text(None) | FunctionValue::Blob(None) => out matches Ok(
                Argument::Nothing,
            ),
            FunctionValue::Text(Some(bytes)) => if vstd::utf8::valid_utf8(bytes@) {
                out matches Ok(Argument::Text(s)) && s@ == vstd::utf8::decode_utf8(bytes@)
            } else {
                out matches Err(ConnectionError::InvalidTextValue { .. })
            },
            FunctionValue::Blob(Some(bytes)) => out matches Ok(Argument::Bytes(got)) && got@
                == bytes@,
        },
{
}

/// A row comes in the form that its factory asks for: a dictionary or a tuple
/// by name, the row class or a call where that is the factory, and a list
/// otherwise.
pub proof fn law_factory_decides_the_form(factory: RowFactory)
    ensures
        match factory {
            RowFactory::Unset => shape_of(factory) == RowShape::List,
            RowFactory::Named(name) => {
                &&& name@ == "dict"@ <==> shape_of(factory) == RowShape::Dict
                &&& name@ == "tuple"@ <==> shape_of(factory) == RowShape::Tuple
                &&& name@ != "dict"@ && name@ != "tuple"@ ==> shape_of(factory) == RowShape::List
            },
            RowFactory::RowClass => shape_of(factory) == RowShape::Row,
            RowFactory::Callable => shape_of(factory) == RowShape::Made,
        },
{
    reveal_strlit("dict");
    reveal_strlit("tuple");
    assert("dict"@.len() != "tuple"@.len());
}

/// A row as a dictionary has no keys but the names of its columns, in the order
/// in which they come first.
pub proof fn law_dict_has_the_names_in_order<V>(names: Seq<Seq<char>>, values: Seq<V>)
    requires
        names.len() == values.len(),
    ensures
        forall|a: int|
            0 <= a < dict_entries(names, values).len() ==> names.contains(
                (#[trigger] dict_entries(names, values)[a]).0,
            ),
        forall|i: int, j: int|
            0 <= i < j < names.len() && !names.take(i).contains(names[i]) && !names.take(
                j,
            ).contains(names[j]) ==> {
                &&& key_place(dict_entries(names, values), #[trigger] names[i]) is Some
                &&& key_place(dict_entries(names, values), #[trigger] names[j]) is Some
                &&& key_place(dict_entries(names, values), names[i])->0 < key_place(
                    dict_entries(names, values),
                    names[j],
                )->0
            },
    decreases names.len(),
{
    if names.len() > 0 {
        let short = names.drop_last();
        let before = dict_entries(short, values.drop_last());
        let entries = dict_entries(names, values);
        law_dict_has_the_names_in_order(short, values.drop_last());
        lemma_dict_holds_names(short, values.drop_last());
        lemma_dict_names(names, values);
        lemma_key_place(before, names.last());
        assert forall|a: int| 0 <= a < entries.len() implies names.contains(
            (#[trigger] entries[a]).0,
        ) by {
            if entries[a].0 == names.last() {
                assert(names[names.len() - 1] == names.last());
            } else {
                assert(before[a].0 == entries[a].0);
                assert(short.contains(before[a].0));
                let k = short.index_of(before[a].0);
                assert(names[k] == short[k]);
            }
        }
        assert forall|i: int, j: int|
            0 <= i < j < names.len() && !names.take(i).contains(names[i]) && !names.take(
                j,
            ).contains(names[j]) implies {
            &&& key_place(entries, #[trigger] names[i]) is Some
            &&& key_place(entries, #[trigger] names[j]) is Some
            &&& key_place(entries, names[i])->0 < key_place(entries, names[j])->0
        } by {
            assert(short[i] == names[i]);
            assert(short.take(i) =~= names.take(i));
            lemma_key_place(entries, names[i]);
            lemma_key_place(entries, names[j]);
            lemma_key_place(before, names[i]);
            let at = key_place(before, names[i])->0;
            assert(short.contains(names[i]));
            assert(entries[at].0 == names[i]);
            if j < names.len() - 1 {
                assert(short[j] == names[j]);
                assert(short.take(j) =~= names.take(j));
                lemma_key_place(before, names[j]);
                let other = key_place(before, names[j])->0;
                assert(entries[other].0 == names[j]);
                assert(entries[key_place(entries, names[j])->0].0 == entries[other].0);
            } else {
                assert(names.take(j) =~= short);
                if key_place(before, names.last()) is Some {
                    assert(short.contains(before[key_place(before, names.last())->0].0));
                }
                assert(entries[before.len() as int].0 == names[j]);
                assert(entries[key_place(entries, names[j])->0].0
                    == entries[before.len() as int].0);
            }
            assert(entries[key_place(entries, names[i])->0].0 == entries[at].0);
        }
    }
}

proof fn lemma_dict_holds_names<V>(names: Seq<Seq<char>>, values: Seq<V>)
    requires
        names.len() == values.len(),
    ensures
        forall|i: int|
            0 <= i < names.len() ==> key_place(
                dict_entries(names, values),
                #[trigger] names[i],
            ) is Some,
    decreases names.len(),
{
    if names.len() > 0 {
        let short = names.drop_last();
        let before = dict_entries(short, values.drop_last());
        let entries = dict_entries(names, values);
        lemma_dict_holds_names(short, values.drop_last());
        lemma_key_place(before, names.last());
        assert forall|i: int| 0 <= i < names.len() implies key_place(
            entries,
            #[trigger] names[i],
        ) is Some by {
            lemma_key_place(entries, names[i]);
            lemma_key_place(before, names[i]);
            if i < names.len() - 1 {
                assert(short[i] == names[i]);
                assert(entries[key_place(before, names[i])->0].0 == names[i]);
            } else {
                let at = match key_place(before, names.last()) {
                    Some(at) => at,
                    None => before.len() as int,
                };
                assert(entries[at].0 == names[i]);
            }
        }
    }
}

/// The description of a result without rows names each column in its place,
/// and that of a row gives each name with its type in upper case; the other
/// places of an entry are empty.
pub proof fn law_description_names_the_columns(
    names: Seq<Seq<char>>,
    columns: Seq<ColumnHead>,
    i: int,
)
    ensures
        description_of(names).len() == names.len(),
        0 <= i < names.len() ==> description_of(names)[i][0] == Some(names[i]),
        head_description(columns).len() == columns.len(),
        0 <= i < columns.len() ==> {
            let entry = head_description(columns)[i];
            &&& entry.len() == 7
            &&& entry[0] == Some(columns[i].name@)
            &&& entry[1] matches Some(declared) && declared.len() == columns[i].declared@.len()
                && forall|k: int|
                0 <= k < declared.len() ==> #[trigger] declared[k] == text::ascii_upper(
                    columns[i].declared@[k],
                )
            &&& forall|j: int| 2 <= j < 7 ==> #[trigger] entry[j] is None
        },
{
}

/// A result without rows whose columns cannot be told is described as one
/// column of a name of its own.
pub proof fn law_untold_columns_are_one(names: Option<Seq<Seq<char>>>)
    ensures
        names is None ==> described_names(names).len() == 1 && described_names(names)[0]
            == "column_0"@,
        names matches Some(told) ==> described_names(names) == told,
{
}

// ---------------------------------------------------------------- how columns are told

/// Blanking cuts white space off the ends of a query and makes every other white
/// space a blank, one for one.
pub proof fn law_blanked_is_one_for_one(query: Seq<char>)
    ensures
        blanked(query).len() == text::trimmed(query).len(),
        forall|i: int|
            0 <= i < blanked(query).len() ==> #[trigger] blanked(query)[i] == if text::white(
                text::trimmed(query)[i],
            ) {
                ' '
            } else {
                text::trimmed(query)[i]
            },
{
}

/// What stands between SELECT and the first FROM is the select list, without
/// white space around it, whatever the case of the two words. A query that
/// begins otherwise, or has no FROM, has none.
pub proof fn law_select_list_stands_before_from(
    select: Seq<char>,
    list: Seq<char>,
    from: Seq<char>,
    rest: Seq<char>,
    query: Seq<char>,
)
    requires
        text::ascii_uppercase(select) == "SELECT"@,
        text::ascii_uppercase(from) == " FROM "@,
        forall|j: int|
            0 <= j < 6 + list.len() ==> !#[trigger] text::stands_at(
                text::ascii_uppercase(select + list + from + rest),
                " FROM "@,
                j,
            ),
    ensures
        select_list(select + list + from + rest) == Some(text::trimmed(list)),
        !"SELECT"@.is_prefix_of(text::ascii_uppercase(query)) ==> select_list(query) is None,
        !text::occurs(text::ascii_uppercase(query), " FROM "@) ==> select_list(query) is None,
{
    reveal_strlit("SELECT");
    reveal_strlit(" FROM ");
    assert(select.len() == 6) by {
        assert(text::ascii_uppercase(select).len() == select.len());
    }
    assert(from.len() == 6) by {
        assert(text::ascii_uppercase(from).len() == from.len());
    }
    let whole = select + list + from + rest;
    let upper = text::ascii_uppercase(whole);
    let at = 6 + list.len() as int;
    assert(upper.take(6) =~= text::ascii_uppercase(select));
    assert(upper.take(6) =~= "SELECT"@);
    assert("SELECT"@.is_prefix_of(upper));
    assert(upper.subrange(at, at + 6) =~= text::ascii_uppercase(from));
    assert(text::stands_at(upper, " FROM "@, at));
    assert(first_at(upper, " FROM "@, at));
    lemma_first_is_unique(upper, " FROM "@, at);
    assert(whole.subrange(6, at) =~= list);
}

/// The columns of a select list are named by its parts between the commas,
/// without white space around them, in order; a star names none, and neither
/// does a list with an empty part.
pub proof fn law_list_names_its_columns(names: Seq<Seq<char>>, list: Seq<char>)
    requires
        names.len() > 0,
        forall|i: int| 0 <= i < names.len() ==> !(#[trigger] names[i]).contains(','),
    ensures
        ({
            let joined = text::joined(names, seq![',']);
            &&& list_parts(joined).len() == names.len()
            &&& forall|i: int|
                0 <= i < names.len() ==> #[trigger] list_parts(joined)[i] == text::trimmed(names[i])
            &&& joined.len() > 0 && joined != "*"@ && (forall|i: int|
                0 <= i < names.len() ==> text::trimmed(#[trigger] names[i]).len() > 0)
                ==> names_columns(joined)
            &&& (exists|i: int|
                0 <= i < names.len() && text::trimmed(#[trigger] names[i]).len() == 0)
                ==> !names_columns(joined)
        }),
        !names_columns("*"@),
        !names_columns(Seq::empty()),
        column_names(list) == match select_list(blanked(list)) {
            Some(told) => if names_columns(told) {
                Some(list_parts(told))
            } else {
                None
            },
            None => None,
        },
{
    let joined = text::joined(names, seq![',']);
    text::law_joined_splits_back(names, ',');
    assert forall|i: int| 0 <= i < names.len() implies #[trigger] list_parts(joined)[i]
        == text::trimmed(names[i]) by {}
    if joined.len() > 0 && joined != "*"@ && (forall|i: int|
        0 <= i < names.len() ==> text::trimmed(#[trigger] names[i]).len() > 0) {
        assert forall|i: int| 0 <= i < list_parts(joined).len() implies (#[trigger] list_parts(
            joined,
        )[i]).len() > 0 by {
            assert(text::trimmed(names[i]).len() > 0);
        }
    }
    if exists|i: int| 0 <= i < names.len() && text::trimmed(#[trigger] names[i]).len() == 0 {
        let i = choose|i: int|
            0 <= i < names.len() && text::trimmed(#[trigger] names[i]).len() == 0;
        assert(list_parts(joined)[i].len() == 0);
    }
}

/// What a result holds is read from it place by place: the entries of a
/// dictionary, the bytes of a vector, the names of a list, and the texts of a
/// description.
pub proof fn law_results_are_read_place_by_place<V>(
    entries: Seq<(String, V)>,
    bytes: Option<Vec<u8>>,
    names: Option<Vec<String>>,
    told: Option<Seq<Seq<char>>>,
    description: Seq<Vec<Option<String>>>,
    i: int,
    j: int,
)
    ensures
        entry_pairs(entries).len() == entries.len(),
        0 <= i < entries.len() ==> entry_pairs(entries)[i] == (entries[i].0@, entries[i].1),
        match bytes {
            Some(held) => bytes_of(bytes) == Some(held@),
            None => bytes_of(bytes) is None,
        },
        are_names(names, told) ==> match (names, told) {
            (Some(v), Some(all)) => v@.len() == all.len() && (0 <= i < v@.len() ==> v@[i]@
                == all[i]),
            (None, None) => true,
            _ => false,
        },
        description_texts(description).len() == description.len(),
        0 <= i < description.len() ==> description_texts(description)[i].len()
            == description[i]@.len(),
        0 <= i < description.len() && 0 <= j < description[i]@.len() ==> description_texts(
            description,
        )[i][j] == match description[i]@[j] {
            Some(s) => Some(s@),
            None => None,
        },
{
    if let Some(v) = names {
        text::law_texts_are_those_of_the_strings(v@, i, None);
    }
}

} // verus!
