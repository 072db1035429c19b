//! What goes wrong on the raw SQLite path: a result code and a message.

use crate::codes::{
    SQLITE_ERROR, SQLITE_MISMATCH, SQLITE_MISUSE, SQLITE_RANGE, SQLITE_TOOBIG,
};
use crate::text;
use vstd::prelude::*;
use vstd::string::*;

verus! {

/// One way in which a raw SQLite operation fails.
pub enum Failure {
    /// SQLite answered with a code and a message of its own.
    Reported { code: i32, message: String },
    /// There is no database handle.
    NullHandle,
    /// A control statement holds a NUL byte at this position.
    NulInStatement { position: usize },
    /// The query of a batch holds a NUL byte at this position.
    NulInQuery { position: usize },
    /// The query of a scalar fetch holds a NUL byte at this position.
    NulInScalarQuery { position: usize },
    /// Preparing gave this code but no statement.
    NoStatement { code: i32 },
    /// Another statement follows the first one.
    SeveralStatements,
    /// What follows the first statement cannot be read.
    UnreadTail,
    /// The statement takes another number of parameters than were given.
    BindingCount { expected: usize, provided: usize },
    /// A string or BLOB is too long to be bound.
    BindLength,
    /// A scalar query has another number of columns than one.
    ColumnCount { columns: i32 },
    /// A text value is not UTF-8, for the reason given.
    NotUtf8 { reason: String },
    /// A BLOB was asked for and the value is neither that nor NULL.
    NotBlob,
}

/// The sentence that names the first NUL byte of a string.
pub open spec fn nul_sentence(position: int) -> Seq<char> {
    "nul byte found in provided data at position: "@ + text::decimal(position)
}

/// The sentence on a wrong number of parameters.
pub open spec fn binding_sentence(expected: int, provided: int) -> Seq<char> {
    "Incorrect number of bindings supplied: statement uses "@ + text::decimal(expected) + ", but "@
        + text::decimal(provided) + " were supplied"@
}

impl Failure {
    /// The result code that stands for the failure.
    pub open spec fn spec_code(self) -> i32 {
        match self {
            Failure::Reported { code, .. } => code,
            Failure::NullHandle => SQLITE_MISUSE,
            Failure::NulInStatement { .. } => SQLITE_ERROR,
            Failure::NulInQuery { .. } => SQLITE_ERROR,
            Failure::NulInScalarQuery { .. } => SQLITE_ERROR,
            Failure::NoStatement { code } => code,
            Failure::SeveralStatements => SQLITE_ERROR,
            Failure::UnreadTail => SQLITE_ERROR,
            Failure::BindingCount { .. } => SQLITE_RANGE,
            Failure::BindLength => SQLITE_TOOBIG,
            Failure::ColumnCount { .. } => SQLITE_ERROR,
            Failure::NotUtf8 { .. } => SQLITE_ERROR,
            Failure::NotBlob => SQLITE_MISMATCH,
        }
    }

    /// The message that goes with the code.
    pub open spec fn spec_message(self) -> Seq<char> {
        match self {
            Failure::Reported { message, .. } => message@,
            Failure::NullHandle => "db pointer is null"@,
            Failure::NulInStatement { position } => "Invalid SQL: "@ + nul_sentence(
                position as int,
            ),
            Failure::NulInQuery { position } => "Invalid query string: "@ + nul_sentence(
                position as int,
            ),
            Failure::NulInScalarQuery { position } => nul_sentence(position as int),
            Failure::NoStatement { .. } => "sqlite3_prepare_v2 returned null statement"@,
            Failure::SeveralStatements => "only one SQL statement is allowed"@,
            Failure::UnreadTail => "unable to parse trailing SQL"@,
            Failure::BindingCount { expected, provided } => binding_sentence(
                expected as int,
                provided as int,
            ),
            Failure::BindLength => "text or BLOB parameter exceeds SQLite's supported bind length"@,
            Failure::ColumnCount { columns } =>
                "raw scalar queries must return exactly one column; got "@ + text::decimal(
                columns as int,
            ),
            Failure::NotUtf8 { reason } => "invalid UTF-8 in SQLite text value: "@ + reason@,
            Failure::NotBlob => "raw blob queries must return a BLOB or NULL"@,
        }
    }

    /// The result code that stands for the failure.
    pub fn code(&self) -> (out: i32)
        ensures
            out == self.spec_code(),
    {
        match self {
            Failure::Reported { code, .. } => *code,
            Failure::NullHandle => SQLITE_MISUSE,
            Failure::NulInStatement { .. } => SQLITE_ERROR,
            Failure::NulInQuery { .. } => SQLITE_ERROR,
            Failure::NulInScalarQuery { .. } => SQLITE_ERROR,
            Failure::NoStatement { code } => *code,
            Failure::SeveralStatements => SQLITE_ERROR,
            Failure::UnreadTail => SQLITE_ERROR,
            Failure::BindingCount { .. } => SQLITE_RANGE,
            Failure::BindLength => SQLITE_TOOBIG,
            Failure::ColumnCount { .. } => SQLITE_ERROR,
            Failure::NotUtf8 { .. } => SQLITE_ERROR,
            Failure::NotBlob => SQLITE_MISMATCH,
        }
    }

    /// The message that goes with the code.
    pub fn message(&self) -> (out: String)
        ensures
            out@ == self.spec_message(),
    {
        match self {
            Failure::Reported { message, .. } => message.clone(),
            Failure::NullHandle => String::from_str("db pointer is null"),
            Failure::NulInStatement { position } => {
                let sentence = nul_text(*position);
                String::from_str("Invalid SQL: ").concat(sentence.as_str())
            },
            Failure::NulInQuery { position } => {
                let sentence = nul_text(*position);
                String::from_str("Invalid query string: ").concat(sentence.as_str())
            },
            Failure::NulInScalarQuery { position } => nul_text(*position),
            Failure::NoStatement { .. } => String::from_str(
                "sqlite3_prepare_v2 returned null statement",
            ),
            Failure::SeveralStatements => String::from_str("only one SQL statement is allowed"),
            Failure::UnreadTail => String::from_str("unable to parse trailing SQL"),
            Failure::BindingCount { expected, provided } => binding_text(*expected, *provided),
            Failure::BindLength => String::from_str(
                "text or BLOB parameter exceeds SQLite's supported bind length",
            ),
            Failure::ColumnCount { columns } => {
                let count = text::format_signed(*columns as i64);
                String::from_str("raw scalar queries must return exactly one column; got ").concat(
                    count.as_str(),
                )
            },
            Failure::NotUtf8 { reason } => String::from_str(
                "invalid UTF-8 in SQLite text value: ",
            ).concat(reason.as_str()),
            Failure::NotBlob => String::from_str("raw blob queries must return a BLOB or NULL"),
        }
    }
}

pub(crate) fn nul_text(position: usize) -> (out: String)
    ensures
        out@ == nul_sentence(position as int),
{
    let number = text::format_unsigned(position as u64);
    String::from_str("nul byte found in provided data at position: ").concat(number.as_str())
}

fn binding_text(expected: usize, provided: usize) -> (out: String)
    ensures
        out@ == binding_sentence(expected as int, provided as int),
{
    let wanted = text::format_unsigned(expected as u64);
    let given = text::format_unsigned(provided as u64);
    let mut out = String::from_str("Incorrect number of bindings supplied: statement uses ");
    out.append(wanted.as_str());
    out.append(", but ");
    out.append(given.as_str());
    out.append(" were supplied");
    out
}

/// A failure goes with the code of SQLite for its kind: misuse without a
/// handle, range for a wrong number of parameters, too big for a value that
/// cannot be bound, mismatch for a value that is no BLOB, and the code that
/// SQLite gave where it gave one. Any other is an error.
pub proof fn law_failure_codes(failure: Failure)
    ensures
        match failure {
            Failure::Reported { code, .. } => failure.spec_code() == code,
            Failure::NoStatement { code } => failure.spec_code() == code,
            Failure::NullHandle => failure.spec_code() == 21,
            Failure::BindingCount { .. } => failure.spec_code() == 25,
            Failure::BindLength => failure.spec_code() == 18,
            Failure::NotBlob => failure.spec_code() == 20,
            _ => failure.spec_code() == 1,
        },
{
}

/// Whether a sentence is made of two ends with something in between.
pub open spec fn spans(sentence: Seq<char>, front: Seq<char>, inside: Seq<char>, back: Seq<char>) -> bool {
    sentence == front + inside + back
}

/// A message names the numbers and reasons that the failure carries, each in
/// its place: first how many parameters the statement takes, then how many
/// there were; the place of a NUL byte last; and what SQLite said as it is.
pub proof fn law_failure_messages(failure: Failure)
    ensures
        match failure {
            Failure::Reported { message, .. } => failure.spec_message() == message@,
            Failure::NullHandle => failure.spec_message() == "db pointer is null"@,
            Failure::NoStatement { .. } => failure.spec_message()
                == "sqlite3_prepare_v2 returned null statement"@,
            Failure::SeveralStatements => failure.spec_message()
                == "only one SQL statement is allowed"@,
            Failure::UnreadTail => failure.spec_message() == "unable to parse trailing SQL"@,
            Failure::BindLength => failure.spec_message()
                == "text or BLOB parameter exceeds SQLite's supported bind length"@,
            Failure::NotBlob => failure.spec_message()
                == "raw blob queries must return a BLOB or NULL"@,
            Failure::BindingCount { expected, provided } => exists|front: Seq<char>|
                {
                    &&& front == "Incorrect number of bindings supplied: statement uses "@
                        + text::decimal(expected as int) + ", but "@
                    &&& #[trigger] spans(
                        failure.spec_message(),
                        front,
                        text::decimal(provided as int),
                        " were supplied"@,
                    )
                },
            Failure::ColumnCount { columns } => spans(
                failure.spec_message(),
                "raw scalar queries must return exactly one column; got "@,
                text::decimal(columns as int),
                Seq::empty(),
            ),
            Failure::NotUtf8 { reason } => spans(
                failure.spec_message(),
                "invalid UTF-8 in SQLite text value: "@,
                reason@,
                Seq::empty(),
            ),
            Failure::NulInStatement { position } => spans(
                failure.spec_message(),
                "Invalid SQL: "@,
                "nul byte found in provided data at position: "@,
                text::decimal(position as int),
            ),
            Failure::NulInQuery { position } => spans(
                failure.spec_message(),
                "Invalid query string: "@,
                "nul byte found in provided data at position: "@,
                text::decimal(position as int),
            ),
            Failure::NulInScalarQuery { position } => spans(
                failure.spec_message(),
                Seq::empty(),
                "nul byte found in provided data at position: "@,
                text::decimal(position as int),
            ),
        },
{
    let message = failure.spec_message();
    let notice = "nul byte found in provided data at position: "@;
    match failure {
        Failure::BindingCount { expected, provided } => {
            let front = "Incorrect number of bindings supplied: statement uses "@ + text::decimal(
                expected as int,
            ) + ", but "@;
            assert(message =~= front + text::decimal(provided as int) + " were supplied"@);
            assert(spans(message, front, text::decimal(provided as int), " were supplied"@));
        },
        Failure::ColumnCount { columns } => {
            assert(message =~= message + Seq::<char>::empty());
        },
        Failure::NotUtf8 { .. } => {
            assert(message =~= message + Seq::<char>::empty());
        },
        Failure::NulInStatement { position } => {
            assert(message =~= "Invalid SQL: "@ + notice + text::decimal(position as int));
        },
        Failure::NulInQuery { position } => {
            assert(message =~= "Invalid query string: "@ + notice + text::decimal(
                position as int,
            ));
        },
        Failure::NulInScalarQuery { position } => {
            assert(message =~= Seq::<char>::empty() + notice + text::decimal(position as int));
        },
        _ => {},
    }
}

} // verus!
