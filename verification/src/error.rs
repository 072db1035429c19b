//! The errors that the library itself raises, with their exception class and
//! their message.

use crate::callbacks::CallbackKind;
use crate::failure;
use crate::text;
use vstd::prelude::*;
use vstd::string::*;

verus! {

/// The class of exception that an error is raised as.
#[derive(Clone, Copy, Debug, PartialEq, Eq, Structural)]
pub enum Class {
    Interface,
    Operational,
    Programming,
    Integrity,
    NotSupported,
    Value,
    Type,
}

impl CallbackKind {
    /// The kind as it stands in a sentence.
    pub open spec fn spec_word(self) -> Seq<char> {
        match self {
            CallbackKind::Function => "function"@,
            CallbackKind::Aggregate => "aggregate"@,
            CallbackKind::Collation => "collation"@,
        }
    }

    /// The kind as it stands at the beginning of a sentence.
    pub open spec fn spec_title(self) -> Seq<char> {
        match self {
            CallbackKind::Function => "Function"@,
            CallbackKind::Aggregate => "Aggregate"@,
            CallbackKind::Collation => "Collation"@,
        }
    }

    /// The kind as it stands in a sentence.
    pub fn word(&self) -> (out: &'static str)
        ensures
            out@ == self.spec_word(),
    {
        match self {
            CallbackKind::Function => "function",
            CallbackKind::Aggregate => "aggregate",
            CallbackKind::Collation => "collation",
        }
    }

    /// The kind as it stands at the beginning of a sentence.
    pub fn title(&self) -> (out: &'static str)
        ensures
            out@ == self.spec_title(),
    {
        match self {
            CallbackKind::Function => "Function",
            CallbackKind::Aggregate => "Aggregate",
            CallbackKind::Collation => "Collation",
        }
    }
}

/// An error that the library raises.
pub enum ConnectionError {
    /// The connection was closed.
    Closed,
    /// A transaction is open, or being opened.
    TransactionInProgress,
    /// The slot of the transaction holds no connection.
    NoTransactionConnection,
    /// The slot for callbacks holds no connection.
    NoCallbackConnection,
    /// The slot of the session holds no connection.
    NoSessionConnection,
    /// The name of a callback holds a NUL byte at this position.
    NulInName { kind: CallbackKind, position: usize },
    /// SQLite refused to register a callback.
    CreateFailed { kind: CallbackKind, name: String, code: i32 },
    /// SQLite refused to remove a callback.
    RemoveFailed { kind: CallbackKind, name: String, code: i32 },
    /// A function cannot take this number of arguments.
    FunctionArguments { nargs: i32 },
    /// An aggregate cannot take this number of arguments.
    AggregateArguments { nargs: i32 },
    /// This version of SQLite has no deterministic functions.
    DeterministicVersion { number: u32 },
    /// Extensions may not be loaded.
    ExtensionsDisabled,
    /// The name of an extension holds a NUL byte at this position.
    NulInExtension { position: usize },
    /// SQLite could not load an extension, for the reason given.
    LoadFailed { name: String, reason: String },
    /// SQLite could not load an extension and gave no reason.
    LoadFailedCode { name: String, code: i32 },
    /// The slot of the target's transaction holds no connection.
    NoTargetTransactionConnection,
    /// The target's slot for callbacks holds no connection.
    NoTargetCallbackConnection,
    /// The target of a backup gives no database handle.
    NoForeignHandle,
    /// The database handle that the target of a backup gives is null.
    NullForeignHandle,
    /// The database handle of the source of a backup is null.
    NullSourceHandle,
    /// The database handle of the target of a backup is null.
    NullTargetHandle,
    /// The target of a backup is in a transaction.
    TargetInTransaction,
    /// The name of a database holds a NUL byte at this position.
    NulInDatabaseName { position: usize },
    /// SQLite did not begin a backup, and says why.
    BackupInit { code: i32, reason: String, version: String },
    /// SQLite did not begin a backup, and does not say why.
    BackupInitUnexplained { code: i32, version: String },
    /// A backup waited too long for a lock.
    BackupTimedOut { seconds: u64 },
    /// A step of a backup failed.
    BackupFailed { code: i32 },
    /// A backup could not be brought to its end.
    BackupFinishFailed { code: i32 },
    /// A raw scalar query cannot run while callbacks are registered.
    RawWithCallbacks,
    /// A raw query for a BLOB met a value of another type.
    RawMismatch { message: String },
    /// A raw scalar query gives no rows.
    RawNoRows,
    /// A raw scalar query gives another number of columns than one.
    RawColumns { count: String },
    /// A BLOB was asked for and the value is neither that nor NULL.
    BlobRequired,
    /// A query that must give one row gives none.
    NoRow,
    /// A query that may give one row gives more.
    SeveralRows,
    /// A query that must be a SELECT is something else.
    NotSelect,
    /// A statement that must change rows is a SELECT.
    InsertOfSelect,
    /// The parameter sets of a batch are not all of one style.
    MixedBinding,
    /// The cursor was closed.
    CursorClosed,
    /// A text that SQLite hands over is not UTF-8.
    InvalidTextValue { reason: String },
    /// A text that is to be handed to SQLite holds a NUL byte at this position.
    NulInResult { position: usize },
    /// The name of a cache table is not an identifier.
    InvalidTableName,
    /// A name is not an identifier.
    InvalidIdentifier,
    /// A cleanup must be allowed to delete something.
    CleanupLimit,
    /// A cache table holds something else than a BLOB.
    CacheValueKind,
    /// A time to live is negative or no number.
    InvalidTtl,
    /// A time to live reaches beyond all time.
    TtlTooLarge,
    /// A timeout is negative.
    NegativeTimeout,
    /// Iteration must fetch something at a time.
    InvalidChunkSize,
    /// The size of a pool is negative.
    NegativePoolSize,
    /// The time to wait for a connection is negative.
    NegativeConnectionTimeout,
    /// The time to wait for a connection is no number.
    ConnectionTimeoutKind,
    /// The time that a connection may be idle is negative.
    NegativeIdleTimeout,
    /// There is no such isolation level.
    InvalidIsolationLevel,
    /// The path of a database is empty.
    EmptyPath,
    /// The path of a database holds a NUL byte at this position.
    NulInPath { position: usize },
    /// There is no pool.
    NoPool,
    /// The system clock stands before the epoch.
    ClockBeforeEpoch { reason: String },
}

impl ConnectionError {
    /// The class of exception that the error is raised as.
    pub open spec fn spec_class(self) -> Class {
        match self {
            ConnectionError::Closed => Class::Interface,
            ConnectionError::TransactionInProgress => Class::Operational,
            ConnectionError::NoTransactionConnection => Class::Operational,
            ConnectionError::NoCallbackConnection => Class::Operational,
            ConnectionError::NoSessionConnection => Class::Operational,
            ConnectionError::NulInName { .. } => Class::Operational,
            ConnectionError::CreateFailed { .. } => Class::Operational,
            ConnectionError::RemoveFailed { .. } => Class::Operational,
            ConnectionError::FunctionArguments { .. } => Class::Programming,
            ConnectionError::AggregateArguments { .. } => Class::Programming,
            ConnectionError::DeterministicVersion { .. } => Class::NotSupported,
            ConnectionError::ExtensionsDisabled => Class::Operational,
            ConnectionError::NulInExtension { .. } => Class::Operational,
            ConnectionError::LoadFailed { .. } => Class::Operational,
            ConnectionError::LoadFailedCode { .. } => Class::Operational,
            ConnectionError::NoTargetTransactionConnection => Class::Operational,
            ConnectionError::NoTargetCallbackConnection => Class::Operational,
            ConnectionError::NoForeignHandle => Class::Operational,
            ConnectionError::NullForeignHandle => Class::Operational,
            ConnectionError::NullSourceHandle => Class::Operational,
            ConnectionError::NullTargetHandle => Class::Operational,
            ConnectionError::TargetInTransaction => Class::Operational,
            ConnectionError::NulInDatabaseName { .. } => Class::Operational,
            ConnectionError::BackupInit { .. } => Class::Operational,
            ConnectionError::BackupInitUnexplained { .. } => Class::Operational,
            ConnectionError::BackupTimedOut { .. } => Class::Operational,
            ConnectionError::BackupFailed { .. } => Class::Operational,
            ConnectionError::BackupFinishFailed { .. } => Class::Operational,
            ConnectionError::RawWithCallbacks => Class::NotSupported,
            ConnectionError::RawMismatch { .. } => Class::Type,
            ConnectionError::RawNoRows => Class::Programming,
            ConnectionError::RawColumns { .. } => Class::Programming,
            ConnectionError::BlobRequired => Class::Type,
            ConnectionError::NoRow => Class::Programming,
            ConnectionError::SeveralRows => Class::Programming,
            ConnectionError::NotSelect => Class::Programming,
            ConnectionError::InsertOfSelect => Class::Programming,
            ConnectionError::MixedBinding => Class::Programming,
            ConnectionError::CursorClosed => Class::Programming,
            ConnectionError::InvalidTextValue { .. } => Class::Value,
            ConnectionError::NulInResult { .. } => Class::Value,
            ConnectionError::InvalidTableName => Class::Value,
            ConnectionError::InvalidIdentifier => Class::Value,
            ConnectionError::CleanupLimit => Class::Value,
            ConnectionError::CacheValueKind => Class::Programming,
            ConnectionError::InvalidTtl => Class::Value,
            ConnectionError::TtlTooLarge => Class::Value,
            ConnectionError::NegativeTimeout => Class::Value,
            ConnectionError::InvalidChunkSize => Class::Value,
            ConnectionError::NegativePoolSize => Class::Value,
            ConnectionError::NegativeConnectionTimeout => Class::Value,
            ConnectionError::ConnectionTimeoutKind => Class::Type,
            ConnectionError::NegativeIdleTimeout => Class::Value,
            ConnectionError::InvalidIsolationLevel => Class::Value,
            ConnectionError::EmptyPath => Class::Value,
            ConnectionError::NulInPath { .. } => Class::Value,
            ConnectionError::NoPool => Class::Operational,
            ConnectionError::ClockBeforeEpoch { .. } => Class::Value,
        }
    }

    /// The message of the error.
    pub open spec fn spec_message(self) -> Seq<char> {
        match self {
            ConnectionError::Closed => "connection is closed"@,
            ConnectionError::TransactionInProgress => "Transaction already in progress"@,
            ConnectionError::NoTransactionConnection => "Transaction connection not available"@,
            ConnectionError::NoCallbackConnection => "Callback connection not available"@,
            ConnectionError::NoSessionConnection => "Session connection not available"@,
            ConnectionError::NulInName { kind, position } => kind.spec_title() + " name contains null byte: "@ + failure::nul_sentence(position as int),
            ConnectionError::CreateFailed { kind, name, code } => "Failed to create "@ + kind.spec_word() + " '"@ + name@ + "': SQLite error code "@ + text::decimal(code as int),
            ConnectionError::RemoveFailed { kind, name, code } => "Failed to remove "@ + kind.spec_word() + " '"@ + name@ + "': SQLite error code "@ + text::decimal(code as int),
            ConnectionError::FunctionArguments { nargs } => "Invalid nargs for create_function: "@ + text::decimal(nargs as int) + ". Expected -1..=127."@,
            ConnectionError::AggregateArguments { nargs } => "Invalid num_params for create_aggregate: "@ + text::decimal(nargs as int) + ". Expected -1..=127."@,
            ConnectionError::DeterministicVersion { number } => "create_function(deterministic=True) requires SQLite 3.8.3 or newer; got "@ + text::decimal(number as int / 1000000) + "."@ + text::decimal((number as int / 1000) % 1000) + "."@ + text::decimal(number as int % 1000),
            ConnectionError::ExtensionsDisabled => "Extension loading is not enabled. Call enable_load_extension(true) first."@,
            ConnectionError::NulInExtension { position } => "Invalid extension name: "@ + failure::nul_sentence(position as int),
            ConnectionError::LoadFailed { name, reason } => "Failed to load extension '"@ + name@ + "': "@ + reason@,
            ConnectionError::LoadFailedCode { name, code } => "Failed to load extension '"@ + name@ + "': SQLite error code "@ + text::decimal(code as int),
            ConnectionError::NoTargetTransactionConnection => "Target transaction connection not available"@,
            ConnectionError::NoTargetCallbackConnection => "Target callback connection not available"@,
            ConnectionError::NoForeignHandle => "Could not extract sqlite3* handle from target connection. Target must be a rapsqlite.Connection or sqlite3.Connection. The connection may be closed or invalid."@,
            ConnectionError::NullForeignHandle => "Extracted sqlite3* handle is null. Connection may be closed."@,
            ConnectionError::NullSourceHandle => "Source sqlite3* handle is null. Connection may be closed or invalid."@,
            ConnectionError::NullTargetHandle => "Target sqlite3* handle is null. Connection may be closed or invalid."@,
            ConnectionError::TargetInTransaction => "Cannot backup: target connection has an active transaction. Commit or rollback the transaction before backup."@,
            ConnectionError::NulInDatabaseName { position } => "Invalid database name: "@ + failure::nul_sentence(position as int),
            ConnectionError::BackupInit { code, reason, version } => "Failed to initialize backup: SQLite error code "@ + text::decimal(code as int) + ", message: '"@ + reason@ + "'. Source libversion: "@ + version@ + ". Ensure both connections are open and target has no active transactions."@,
            ConnectionError::BackupInitUnexplained { code, version } => "Failed to initialize backup: SQLite error code "@ + text::decimal(code as int) + ", message: 'Unknown error (null error message)'. Source libversion: "@ + version@ + ". Ensure both connections are open and target has no active transactions."@,
            ConnectionError::BackupTimedOut { seconds } => "Backup timed out: database busy or locked after "@ + text::decimal(seconds as int) + " seconds"@,
            ConnectionError::BackupFailed { code } => "Backup failed with SQLite error code: "@ + text::decimal(code as int),
            ConnectionError::BackupFinishFailed { code } => "Backup finish failed with SQLite error code: "@ + text::decimal(code as int),
            ConnectionError::RawWithCallbacks => "raw_fetch_scalar() is unavailable when SQLite callbacks are configured"@,
            ConnectionError::RawMismatch { message } => message@,
            ConnectionError::RawNoRows => "raw_fetch_scalar() requires a statement that returns rows"@,
            ConnectionError::RawColumns { count } => "raw_fetch_scalar() requires exactly one result column; got "@ + count@,
            ConnectionError::BlobRequired => "fetch_blob() requires a BLOB or NULL result"@,
            ConnectionError::NoRow => "query returned no rows"@,
            ConnectionError::SeveralRows => "query returned more than one row"@,
            ConnectionError::NotSelect => "fetch_all() requires a SELECT query"@,
            ConnectionError::InsertOfSelect => "execute_insert expects INSERT/UPDATE/DELETE, not SELECT"@,
            ConnectionError::MixedBinding => "executemany parameter sets must use the same binding style"@,
            ConnectionError::CursorClosed => "Cannot operate on a closed cursor."@,
            ConnectionError::InvalidTextValue { reason } => "Invalid UTF-8 in SQLite text value: "@ + reason@,
            ConnectionError::NulInResult { position } => "String contains null byte: "@ + failure::nul_sentence(position as int),
            ConnectionError::InvalidTableName => "table_name must be a SQLite identifier of 1 to 100 letters, digits, and underscores, starting with a letter or underscore"@,
            ConnectionError::InvalidIdentifier => "invalid SQLite identifier"@,
            ConnectionError::CleanupLimit => "limit must be at least 1"@,
            ConnectionError::CacheValueKind => "cache reads require a BLOB or NULL result"@,
            ConnectionError::InvalidTtl => "ttl must be finite and non-negative"@,
            ConnectionError::TtlTooLarge => "ttl is too large"@,
            ConnectionError::NegativeTimeout => "timeout must be >= 0.0"@,
            ConnectionError::InvalidChunkSize => "iter_chunk_size must be >= 1"@,
            ConnectionError::NegativePoolSize => "pool_size must be >= 0"@,
            ConnectionError::NegativeConnectionTimeout => "connection_timeout must be >= 0"@,
            ConnectionError::ConnectionTimeoutKind => "connection_timeout must be an int or float"@,
            ConnectionError::NegativeIdleTimeout => "idle_timeout must be >= 0"@,
            ConnectionError::InvalidIsolationLevel => "isolation_level must be None, 'DEFERRED', 'IMMEDIATE', or 'EXCLUSIVE'"@,
            ConnectionError::EmptyPath => "database path cannot be empty"@,
            ConnectionError::NulInPath { position } => "database path contains null byte: "@ + failure::nul_sentence(position as int),
            ConnectionError::NoPool => "Pool not available"@,
            ConnectionError::ClockBeforeEpoch { reason } => "system clock is before Unix epoch: "@ + reason@,
        }
    }

    /// The class of exception that the error is raised as.
    pub fn class(&self) -> (out: Class)
        ensures
            out == self.spec_class(),
    {
        match self {
            ConnectionError::Closed => Class::Interface,
            ConnectionError::TransactionInProgress => Class::Operational,
            ConnectionError::NoTransactionConnection => Class::Operational,
            ConnectionError::NoCallbackConnection => Class::Operational,
            ConnectionError::NoSessionConnection => Class::Operational,
            ConnectionError::NulInName { .. } => Class::Operational,
            ConnectionError::CreateFailed { .. } => Class::Operational,
            ConnectionError::RemoveFailed { .. } => Class::Operational,
            ConnectionError::FunctionArguments { .. } => Class::Programming,
            ConnectionError::AggregateArguments { .. } => Class::Programming,
            ConnectionError::DeterministicVersion { .. } => Class::NotSupported,
            ConnectionError::ExtensionsDisabled => Class::Operational,
            ConnectionError::NulInExtension { .. } => Class::Operational,
            ConnectionError::LoadFailed { .. } => Class::Operational,
            ConnectionError::LoadFailedCode { .. } => Class::Operational,
            ConnectionError::NoTargetTransactionConnection => Class::Operational,
            ConnectionError::NoTargetCallbackConnection => Class::Operational,
            ConnectionError::NoForeignHandle => Class::Operational,
            ConnectionError::NullForeignHandle => Class::Operational,
            ConnectionError::NullSourceHandle => Class::Operational,
            ConnectionError::NullTargetHandle => Class::Operational,
            ConnectionError::TargetInTransaction => Class::Operational,
            ConnectionError::NulInDatabaseName { .. } => Class::Operational,
            ConnectionError::BackupInit { .. } => Class::Operational,
            ConnectionError::BackupInitUnexplained { .. } => Class::Operational,
            ConnectionError::BackupTimedOut { .. } => Class::Operational,
            ConnectionError::BackupFailed { .. } => Class::Operational,
            ConnectionError::BackupFinishFailed { .. } => Class::Operational,
            ConnectionError::RawWithCallbacks => Class::NotSupported,
            ConnectionError::RawMismatch { .. } => Class::Type,
            ConnectionError::RawNoRows => Class::Programming,
            ConnectionError::RawColumns { .. } => Class::Programming,
            ConnectionError::BlobRequired => Class::Type,
            ConnectionError::NoRow => Class::Programming,
            ConnectionError::SeveralRows => Class::Programming,
            ConnectionError::NotSelect => Class::Programming,
            ConnectionError::InsertOfSelect => Class::Programming,
            ConnectionError::MixedBinding => Class::Programming,
            ConnectionError::CursorClosed => Class::Programming,
            ConnectionError::InvalidTextValue { .. } => Class::Value,
            ConnectionError::NulInResult { .. } => Class::Value,
            ConnectionError::InvalidTableName => Class::Value,
            ConnectionError::InvalidIdentifier => Class::Value,
            ConnectionError::CleanupLimit => Class::Value,
            ConnectionError::CacheValueKind => Class::Programming,
            ConnectionError::InvalidTtl => Class::Value,
            ConnectionError::TtlTooLarge => Class::Value,
            ConnectionError::NegativeTimeout => Class::Value,
            ConnectionError::InvalidChunkSize => Class::Value,
            ConnectionError::NegativePoolSize => Class::Value,
            ConnectionError::NegativeConnectionTimeout => Class::Value,
            ConnectionError::ConnectionTimeoutKind => Class::Type,
            ConnectionError::NegativeIdleTimeout => Class::Value,
            ConnectionError::InvalidIsolationLevel => Class::Value,
            ConnectionError::EmptyPath => Class::Value,
            ConnectionError::NulInPath { .. } => Class::Value,
            ConnectionError::NoPool => Class::Operational,
            ConnectionError::ClockBeforeEpoch { .. } => Class::Value,
        }
    }

    /// The message of the error.
    pub fn message(&self) -> (out: String)
        ensures
            out@ == self.spec_message(),
    {
        match self {
            ConnectionError::Closed => String::from_str("connection is closed"),
            ConnectionError::TransactionInProgress => String::from_str("Transaction already in progress"),
            ConnectionError::NoTransactionConnection => String::from_str("Transaction connection not available"),
            ConnectionError::NoCallbackConnection => String::from_str("Callback connection not available"),
            ConnectionError::NoSessionConnection => String::from_str("Session connection not available"),
            ConnectionError::NulInName { kind, position } => {
                let number1 = failure::nul_text(*position);
                let mut out = String::new();
                out.append(kind.title());
                out.append(" name contains null byte: ");
                out.append(number1.as_str());
                out
            },
            ConnectionError::CreateFailed { kind, name, code } => {
                let number1 = text::format_signed(*code as i64);
                let mut out = String::new();
                out.append("Failed to create ");
                out.append(kind.word());
                out.append(" '");
                out.append(name.as_str());
                out.append("': SQLite error code ");
                out.append(number1.as_str());
                out
            },
            ConnectionError::RemoveFailed { kind, name, code } => {
                let number1 = text::format_signed(*code as i64);
                let mut out = String::new();
                out.append("Failed to remove ");
                out.append(kind.word());
                out.append(" '");
                out.append(name.as_str());
                out.append("': SQLite error code ");
                out.append(number1.as_str());
                out
            },
            ConnectionError::FunctionArguments { nargs } => {
                let number1 = text::format_signed(*nargs as i64);
                let mut out = String::new();
                out.append("Invalid nargs for create_function: ");
                out.append(number1.as_str());
                out.append(". Expected -1..=127.");
                out
            },
            ConnectionError::AggregateArguments { nargs } => {
                let number1 = text::format_signed(*nargs as i64);
                let mut out = String::new();
                out.append("Invalid num_params for create_aggregate: ");
                out.append(number1.as_str());
                out.append(". Expected -1..=127.");
                out
            },
            ConnectionError::DeterministicVersion { number } => {
                let number1 = text::format_unsigned((*number / 1000000) as u64);
                let number2 = text::format_unsigned(((*number / 1000) % 1000) as u64);
                let number3 = text::format_unsigned((*number % 1000) as u64);
                let mut out = String::new();
                out.append("create_function(deterministic=True) requires SQLite 3.8.3 or newer; got ");
                out.append(number1.as_str());
                out.append(".");
                out.append(number2.as_str());
                out.append(".");
                out.append(number3.as_str());
                out
            },
            ConnectionError::ExtensionsDisabled => String::from_str("Extension loading is not enabled. Call enable_load_extension(true) first."),
            ConnectionError::NulInExtension { position } => {
                let number1 = failure::nul_text(*position);
                let mut out = String::new();
                out.append("Invalid extension name: ");
                out.append(number1.as_str());
                out
            },
            ConnectionError::LoadFailed { name, reason } => {
                let mut out = String::new();
                out.append("Failed to load extension '");
                out.append(name.as_str());
                out.append("': ");
                out.append(reason.as_str());
                out
            },
            ConnectionError::LoadFailedCode { name, code } => {
                let number1 = text::format_signed(*code as i64);
                let mut out = String::new();
                out.append("Failed to load extension '");
                out.append(name.as_str());
                out.append("': SQLite error code ");
                out.append(number1.as_str());
                out
            },
            ConnectionError::NoTargetTransactionConnection => String::from_str("Target transaction connection not available"),
            ConnectionError::NoTargetCallbackConnection => String::from_str("Target callback connection not available"),
            ConnectionError::NoForeignHandle => String::from_str("Could not extract sqlite3* handle from target connection. Target must be a rapsqlite.Connection or sqlite3.Connection. The connection may be closed or invalid."),
            ConnectionError::NullForeignHandle => String::from_str("Extracted sqlite3* handle is null. Connection may be closed."),
            ConnectionError::NullSourceHandle => String::from_str("Source sqlite3* handle is null. Connection may be closed or invalid."),
            ConnectionError::NullTargetHandle => String::from_str("Target sqlite3* handle is null. Connection may be closed or invalid."),
            ConnectionError::TargetInTransaction => String::from_str("Cannot backup: target connection has an active transaction. Commit or rollback the transaction before backup."),
            ConnectionError::NulInDatabaseName { position } => {
                let number1 = failure::nul_text(*position);
                let mut out = String::new();
                out.append("Invalid database name: ");
                out.append(number1.as_str());
                out
            },
            ConnectionError::BackupInit { code, reason, version } => {
                let number1 = text::format_signed(*code as i64);
                let mut out = String::new();
                out.append("Failed to initialize backup: SQLite error code ");
                out.append(number1.as_str());
                out.append(", message: '");
                out.append(reason.as_str());
                out.append("'. Source libversion: ");
                out.append(version.as_str());
                out.append(". Ensure both connections are open and target has no active transactions.");
                out
            },
            ConnectionError::BackupInitUnexplained { code, version } => {
                let number1 = text::format_signed(*code as i64);
                let mut out = String::new();
                out.append("Failed to initialize backup: SQLite error code ");
                out.append(number1.as_str());
                out.append(", message: 'Unknown error (null error message)'. Source libversion: ");
                out.append(version.as_str());
                out.append(". Ensure both connections are open and target has no active transactions.");
                out
            },
            ConnectionError::BackupTimedOut { seconds } => {
                let number1 = text::format_unsigned(*seconds as u64);
                let mut out = String::new();
                out.append("Backup timed out: database busy or locked after ");
                out.append(number1.as_str());
                out.append(" seconds");
                out
            },
            ConnectionError::BackupFailed { code } => {
                let number1 = text::format_signed(*code as i64);
                let mut out = String::new();
                out.append("Backup failed with SQLite error code: ");
                out.append(number1.as_str());
                out
            },
            ConnectionError::BackupFinishFailed { code } => {
                let number1 = text::format_signed(*code as i64);
                let mut out = String::new();
                out.append("Backup finish failed with SQLite error code: ");
                out.append(number1.as_str());
                out
            },
            ConnectionError::RawWithCallbacks => String::from_str("raw_fetch_scalar() is unavailable when SQLite callbacks are configured"),
            ConnectionError::RawMismatch { message } => {
                let mut out = String::new();
                out.append(message.as_str());
                out
            },
            ConnectionError::RawNoRows => String::from_str("raw_fetch_scalar() requires a statement that returns rows"),
            ConnectionError::RawColumns { count } => {
                let mut out = String::new();
                out.append("raw_fetch_scalar() requires exactly one result column; got ");
                out.append(count.as_str());
                out
            },
            ConnectionError::BlobRequired => String::from_str("fetch_blob() requires a BLOB or NULL result"),
            ConnectionError::NoRow => String::from_str("query returned no rows"),
            ConnectionError::SeveralRows => String::from_str("query returned more than one row"),
            ConnectionError::NotSelect => String::from_str("fetch_all() requires a SELECT query"),
            ConnectionError::InsertOfSelect => String::from_str("execute_insert expects INSERT/UPDATE/DELETE, not SELECT"),
            ConnectionError::MixedBinding => String::from_str("executemany parameter sets must use the same binding style"),
            ConnectionError::CursorClosed => String::from_str("Cannot operate on a closed cursor."),
            ConnectionError::InvalidTextValue { reason } => {
                let mut out = String::new();
                out.append("Invalid UTF-8 in SQLite text value: ");
                out.append(reason.as_str());
                out
            },
            ConnectionError::NulInResult { position } => {
                let number1 = failure::nul_text(*position);
                let mut out = String::new();
                out.append("String contains null byte: ");
                out.append(number1.as_str());
                out
            },
            ConnectionError::InvalidTableName => String::from_str("table_name must be a SQLite identifier of 1 to 100 letters, digits, and underscores, starting with a letter or underscore"),
            ConnectionError::InvalidIdentifier => String::from_str("invalid SQLite identifier"),
            ConnectionError::CleanupLimit => String::from_str("limit must be at least 1"),
            ConnectionError::CacheValueKind => String::from_str("cache reads require a BLOB or NULL result"),
            ConnectionError::InvalidTtl => String::from_str("ttl must be finite and non-negative"),
            ConnectionError::TtlTooLarge => String::from_str("ttl is too large"),
            ConnectionError::NegativeTimeout => String::from_str("timeout must be >= 0.0"),
            ConnectionError::InvalidChunkSize => String::from_str("iter_chunk_size must be >= 1"),
            ConnectionError::NegativePoolSize => String::from_str("pool_size must be >= 0"),
            ConnectionError::NegativeConnectionTimeout => String::from_str("connection_timeout must be >= 0"),
            ConnectionError::ConnectionTimeoutKind => String::from_str("connection_timeout must be an int or float"),
            ConnectionError::NegativeIdleTimeout => String::from_str("idle_timeout must be >= 0"),
            ConnectionError::InvalidIsolationLevel => String::from_str("isolation_level must be None, 'DEFERRED', 'IMMEDIATE', or 'EXCLUSIVE'"),
            ConnectionError::EmptyPath => String::from_str("database path cannot be empty"),
            ConnectionError::NulInPath { position } => {
                let number1 = failure::nul_text(*position);
                let mut out = String::new();
                out.append("database path contains null byte: ");
                out.append(number1.as_str());
                out
            },
            ConnectionError::NoPool => String::from_str("Pool not available"),
            ConnectionError::ClockBeforeEpoch { reason } => {
                let mut out = String::new();
                out.append("system clock is before Unix epoch: ");
                out.append(reason.as_str());
                out
            },
        }
    }
}

/// Refuses every operation on a connection that was closed.
pub fn ensure_not_closed(closed: bool) -> (out: Result<(), ConnectionError>)
    ensures
        closed ==> out == Err::<(), ConnectionError>(ConnectionError::Closed),
        !closed ==> out is Ok,
{
    if closed {
        Err(ConnectionError::Closed)
    } else {
        Ok(())
    }
}

/// An error is raised as the class that its kind of mistake has: an interface
/// error on a closed connection, a type error on a value of the wrong type, a
/// value error on a value out of range, a programming error on a call that
/// makes no sense, one of its own on what is not supported, and otherwise an
/// operational error.
pub proof fn law_error_classes(error: ConnectionError)
    ensures
        error.spec_class() == Class::Interface <==> error is Closed,
        error.spec_class() == Class::NotSupported <==> error is DeterministicVersion
            || error is RawWithCallbacks,
        error.spec_class() == Class::Type <==> error is RawMismatch || error is BlobRequired
            || error is ConnectionTimeoutKind,
        error.spec_class() == Class::Programming <==> error is FunctionArguments
            || error is AggregateArguments || error is RawNoRows || error is RawColumns
            || error is NoRow || error is SeveralRows || error is NotSelect
            || error is InsertOfSelect || error is MixedBinding || error is CursorClosed
            || error is CacheValueKind,
        error.spec_class() == Class::Value <==> error is InvalidTextValue || error is NulInResult
            || error is InvalidTableName || error is InvalidIdentifier || error is CleanupLimit
            || error is InvalidTtl || error is TtlTooLarge || error is NegativeTimeout
            || error is InvalidChunkSize || error is NegativePoolSize
            || error is NegativeConnectionTimeout || error is NegativeIdleTimeout
            || error is InvalidIsolationLevel || error is EmptyPath || error is NulInPath
            || error is ClockBeforeEpoch,
        error.spec_class() != Class::Integrity,
{
}

/// The messages of errors that carry something say it: the name and the code of
/// a callback that was refused, the code of a backup that failed, and the place
/// of a NUL byte, each behind what happened.
pub proof fn law_error_messages_carry(error: ConnectionError)
    ensures
        match error {
            ConnectionError::RemoveFailed { kind, name, code } => failure::spans(
                error.spec_message(),
                "Failed to remove "@ + kind.spec_word() + " '"@,
                name@,
                "': SQLite error code "@ + text::decimal(code as int),
            ),
            ConnectionError::CreateFailed { kind, name, code } => failure::spans(
                error.spec_message(),
                "Failed to create "@ + kind.spec_word() + " '"@,
                name@,
                "': SQLite error code "@ + text::decimal(code as int),
            ),
            ConnectionError::BackupFailed { code } => failure::spans(
                error.spec_message(),
                Seq::empty(),
                "Backup failed with SQLite error code: "@,
                text::decimal(code as int),
            ),
            ConnectionError::BackupInitUnexplained { code, version } => failure::spans(
                error.spec_message(),
                "Failed to initialize backup: SQLite error code "@ + text::decimal(code as int),
                ", message: 'Unknown error (null error message)'. Source libversion: "@ + version@,
                ". Ensure both connections are open and target has no active transactions."@,
            ),
            ConnectionError::NulInPath { position } => failure::spans(
                error.spec_message(),
                "database path contains null byte: "@,
                "nul byte found in provided data at position: "@,
                text::decimal(position as int),
            ),
            ConnectionError::NoRow => error.spec_message() == "query returned no rows"@,
            ConnectionError::SeveralRows => error.spec_message()
                == "query returned more than one row"@,
            ConnectionError::NotSelect => error.spec_message()
                == "fetch_all() requires a SELECT query"@,
            ConnectionError::EmptyPath => error.spec_message() == "database path cannot be empty"@,
            ConnectionError::NullForeignHandle => error.spec_message()
                == "Extracted sqlite3* handle is null. Connection may be closed."@,
            ConnectionError::NoForeignHandle => error.spec_message()
                == "Could not extract sqlite3* handle from target connection. Target must be a rapsqlite.Connection or sqlite3.Connection. The connection may be closed or invalid."@,
            _ => true,
        },
{
    let message = error.spec_message();
    match error {
        ConnectionError::RemoveFailed { kind, name, code } => {
            assert(message =~= ("Failed to remove "@ + kind.spec_word() + " '"@) + name@ + (
            "': SQLite error code "@ + text::decimal(code as int)));
        },
        ConnectionError::CreateFailed { kind, name, code } => {
            assert(message =~= ("Failed to create "@ + kind.spec_word() + " '"@) + name@ + (
            "': SQLite error code "@ + text::decimal(code as int)));
        },
        ConnectionError::BackupFailed { code } => {
            assert(message =~= Seq::<char>::empty() + "Backup failed with SQLite error code: "@
                + text::decimal(code as int));
        },
        ConnectionError::BackupInitUnexplained { code, version } => {
            assert(message =~= ("Failed to initialize backup: SQLite error code "@ + text::decimal(
                code as int,
            )) + (", message: 'Unknown error (null error message)'. Source libversion: "@
                + version@)
                + ". Ensure both connections are open and target has no active transactions."@);
        },
        ConnectionError::NulInPath { position } => {
            assert(message =~= "database path contains null byte: "@
                + "nul byte found in provided data at position: "@ + text::decimal(
                position as int,
            ));
        },
        _ => {},
    }
}

/// The word for a kind of callback is its title in lower case.
pub proof fn law_kinds_are_worded(kind: CallbackKind)
    ensures
        text::ascii_lowercase(kind.spec_title()) == kind.spec_word(),
        kind.spec_word() == match kind {
            CallbackKind::Function => "function"@,
            CallbackKind::Aggregate => "aggregate"@,
            CallbackKind::Collation => "collation"@,
        },
{
    reveal_strlit("function");
    reveal_strlit("Function");
    reveal_strlit("aggregate");
    reveal_strlit("Aggregate");
    reveal_strlit("collation");
    reveal_strlit("Collation");
    assert(text::ascii_lowercase(kind.spec_title()) =~= kind.spec_word());
}

} // verus!
