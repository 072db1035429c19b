//! Cache tables: values by key that may expire.

use crate::batch::SqliteParam;
use crate::error::ConnectionError;
use crate::floats;
use crate::operation::LockFrame;
use crate::operation::OperationError;
use crate::process;
use crate::process::Process;
use crate::routing::Route;
use crate::scalar::RawScalar;
use crate::text;
use std::marker::PhantomData;
use vstd::prelude::*;
use vstd::string::*;

verus! {

// ---------------------------------------------------------------- names

/// Whether a character may begin an identifier.
pub open spec fn begins_identifier(c: char) -> bool {
    'a' <= c <= 'z' || 'A' <= c <= 'Z' || c == '_'
}

/// Whether a character may stand in an identifier behind the first.
pub open spec fn continues_identifier(c: char) -> bool {
    begins_identifier(c) || '0' <= c <= '9'
}

/// Whether a text is an identifier.
pub open spec fn is_identifier(s: Seq<char>) -> bool {
    &&& s.len() > 0
    &&& begins_identifier(s[0])
    &&& forall|i: int| 0 < i < s.len() ==> continues_identifier(#[trigger] s[i])
}

/// Whether a text can be the name of a cache table.
pub open spec fn is_table_name(s: Seq<char>) -> bool {
    is_identifier(s) && s.len() <= 100
}

fn check_identifier(s: &str) -> (out: bool)
    ensures
        out == is_identifier(s@),
{
    let chars = text::characters(s);
    if chars.len() == 0 {
        return false;
    }
    let mut i: usize = 0;
    while i < chars.len()
        invariant
            i <= chars@.len(),
            chars@ == s@,
            i > 0 ==> begins_identifier(s@[0]),
            forall|j: int| 0 < j < i ==> continues_identifier(#[trigger] s@[j]),
        decreases chars@.len() - i,
    {
        let c: char = chars[i];
        let letter: bool = ('a' <= c && c <= 'z') || ('A' <= c && c <= 'Z') || c == '_';
        let digit: bool = '0' <= c && c <= '9';
        if !(letter || (digit && i > 0)) {
            return false;
        }
        i += 1;
    }
    true
}

/// Quotes an identifier.
pub fn quoted_identifier(identifier: &str) -> (out: Result<String, ConnectionError>)
    ensures
        match out {
            Ok(quoted) => is_identifier(identifier@) && quoted@ == text::identifier(identifier@),
            Err(error) => !is_identifier(identifier@) && error
                == ConnectionError::InvalidIdentifier,
        },
{
    if check_identifier(identifier) {
        Ok(text::quoted_identifier(identifier))
    } else {
        Err(ConnectionError::InvalidIdentifier)
    }
}

/// Quotes the name of a cache table.
pub fn quoted_table_name(table: &str) -> (out: Result<String, ConnectionError>)
    ensures
        match out {
            Ok(quoted) => is_table_name(table@) && quoted@ == text::identifier(table@),
            Err(error) => !is_table_name(table@) && error == ConnectionError::InvalidTableName,
        },
{
    if !check_identifier(table) || text::characters(table).len() > 100 {
        return Err(ConnectionError::InvalidTableName);
    }
    quoted_identifier(table)
}

proof fn lemma_nothing_doubles(s: Seq<char>)
    requires
        forall|i: int| 0 <= i < s.len() ==> #[trigger] s[i] != '"',
    ensures
        text::doubled(s, '"') == s,
    decreases s.len(),
{
    if s.len() > 0 {
        lemma_nothing_doubles(s.drop_last());
        assert(s.drop_last().push(s.last()) =~= s);
    }
}

/// An identifier stands between the quotes as it is.
pub proof fn law_identifier_stands_as_it_is(s: Seq<char>)
    requires
        is_identifier(s),
    ensures
        text::identifier(s) == seq!['"'] + s + seq!['"'],
{
    assert forall|i: int| 0 <= i < s.len() implies #[trigger] s[i] != '"' by {
        if i > 0 {
            assert(continues_identifier(s[i]));
        }
    }
    lemma_nothing_doubles(s);
    assert(text::identifier(s) =~= seq!['"'] + s + seq!['"']);
}

/// The name of the index on the expiration of a cache table.
pub open spec fn index_name(table: Seq<char>) -> Seq<char> {
    "rapsqlite_cache_expiration:"@ + table
}

/// No cache table can have the name of an index, and two cache tables never
/// share one.
pub proof fn law_index_names_stand_apart(table: Seq<char>, other: Seq<char>)
    ensures
        !is_table_name(index_name(table)),
        index_name(table) == index_name(other) ==> table == other,
{
    let word = "rapsqlite_cache_expiration:"@;
    reveal_strlit("rapsqlite_cache_expiration:");
    assert(!continues_identifier(index_name(table)[26])) by {
        assert(index_name(table)[26] == word[26]);
        assert(word[26] == ':');
    }
    if index_name(table) == index_name(other) {
        assert(index_name(table).skip(word.len() as int) =~= table);
        assert(index_name(other).skip(word.len() as int) =~= other);
    }
}

// ---------------------------------------------------------------- operations

/// An operation on a cache table.
pub enum CacheOperation {
    Initialize { create_table: String, create_index: String },
    Get { query: String, key: String },
    /// The time to live is in seconds, by the bits of its IEEE form.
    Store { query: String, key: String, value: Vec<u8>, ttl: Option<u64> },
    Delete { query: String, key: String },
    CleanupExpired { query: String, limit: i64 },
}

/// The statement that creates a cache table.
pub open spec fn create_table_statement(table: Seq<char>) -> Seq<char> {
    "CREATE TABLE IF NOT EXISTS "@ + text::identifier(table)
        + " (key TEXT PRIMARY KEY NOT NULL, value BLOB NOT NULL, expires_at REAL) WITHOUT ROWID"@
}

/// The statement that creates the index on its expiration.
pub open spec fn create_index_statement(table: Seq<char>) -> Seq<char> {
    "CREATE INDEX IF NOT EXISTS \""@ + index_name(table) + "\" ON "@ + text::identifier(table)
        + " (expires_at) WHERE expires_at IS NOT NULL"@
}

/// The query for a value that has not expired.
pub open spec fn get_statement(table: Seq<char>) -> Seq<char> {
    "SELECT value FROM "@ + text::identifier(table)
        + " WHERE key = ? AND (expires_at IS NULL OR expires_at > ?)"@
}

/// The statement that stores a value.
pub open spec fn set_statement(table: Seq<char>) -> Seq<char> {
    "INSERT INTO "@ + text::identifier(table)
        + " (key, value, expires_at) VALUES (?, ?, ?) ON CONFLICT(key) DO UPDATE SET value = excluded.value, expires_at = excluded.expires_at"@
}

/// The statement that deletes a value.
pub open spec fn delete_statement(table: Seq<char>) -> Seq<char> {
    "DELETE FROM "@ + text::identifier(table) + " WHERE key = ?"@
}

/// The statement that deletes values that have expired, those first that
/// expired first.
pub open spec fn cleanup_statement(table: Seq<char>) -> Seq<char> {
    "DELETE FROM "@ + text::identifier(table) + " WHERE key IN (SELECT key FROM "@
        + text::identifier(table)
        + " WHERE expires_at IS NOT NULL AND expires_at <= ? ORDER BY expires_at LIMIT ?)"@
}

/// Whether an operation is refused for the name of its table.
pub open spec fn refused_name(
    out: Result<CacheOperation, ConnectionError>,
    table: Seq<char>,
) -> bool {
    !is_table_name(table) && out == Err::<CacheOperation, ConnectionError>(
        ConnectionError::InvalidTableName,
    )
}

/// Makes the operation that creates a cache table.
pub fn initialize_operation(table: &str) -> (out: Result<CacheOperation, ConnectionError>)
    ensures
        match out {
            Ok(CacheOperation::Initialize { create_table, create_index }) => {
                &&& is_table_name(table@)
                &&& create_table@ == create_table_statement(table@)
                &&& create_index@ == create_index_statement(table@)
            },
            _ => refused_name(out, table@),
        },
{
    let quoted = match quoted_table_name(table) {
        Ok(quoted) => quoted,
        Err(error) => {
            return Err(error);
        },
    };
    let mut create_table = String::from_str("CREATE TABLE IF NOT EXISTS ");
    create_table.append(quoted.as_str());
    create_table.append(
        " (key TEXT PRIMARY KEY NOT NULL, value BLOB NOT NULL, expires_at REAL) WITHOUT ROWID",
    );
    let index = String::from_str("rapsqlite_cache_expiration:").concat(table);
    let mut create_index = String::from_str("CREATE INDEX IF NOT EXISTS \"");
    create_index.append(index.as_str());
    create_index.append("\" ON ");
    create_index.append(quoted.as_str());
    create_index.append(" (expires_at) WHERE expires_at IS NOT NULL");
    Ok(CacheOperation::Initialize { create_table, create_index })
}

/// Makes the operation that reads a value.
pub fn get_operation(table: &str, key: String) -> (out: Result<CacheOperation, ConnectionError>)
    ensures
        match out {
            Ok(CacheOperation::Get { query, key: bound }) => {
                &&& is_table_name(table@)
                &&& query@ == get_statement(table@)
                &&& bound == key
            },
            _ => refused_name(out, table@),
        },
{
    match quoted_table_name(table) {
        Ok(quoted) => {
            let mut query = String::from_str("SELECT value FROM ");
            query.append(quoted.as_str());
            query.append(" WHERE key = ? AND (expires_at IS NULL OR expires_at > ?)");
            Ok(CacheOperation::Get { query, key })
        },
        Err(error) => Err(error),
    }
}

/// Makes the operation that stores a value.
pub fn set_operation(table: &str, key: String, value: Vec<u8>, ttl: Option<u64>) -> (out: Result<
    CacheOperation,
    ConnectionError,
>)
    ensures
        match out {
            Ok(CacheOperation::Store { query, key: bound, value: stored, ttl: kept }) => {
                &&& is_table_name(table@)
                &&& query@ == set_statement(table@)
                &&& bound == key
                &&& stored == value
                &&& kept == ttl
            },
            _ => refused_name(out, table@),
        },
{
    match quoted_table_name(table) {
        Ok(quoted) => {
            let mut query = String::from_str("INSERT INTO ");
            query.append(quoted.as_str());
            query.append(
                " (key, value, expires_at) VALUES (?, ?, ?) ON CONFLICT(key) DO UPDATE SET value = excluded.value, expires_at = excluded.expires_at",
            );
            Ok(CacheOperation::Store { query, key, value, ttl })
        },
        Err(error) => Err(error),
    }
}

/// Makes the operation that deletes a value.
pub fn delete_operation(table: &str, key: String) -> (out: Result<CacheOperation, ConnectionError>)
    ensures
        match out {
            Ok(CacheOperation::Delete { query, key: bound }) => {
                &&& is_table_name(table@)
                &&& query@ == delete_statement(table@)
                &&& bound == key
            },
            _ => refused_name(out, table@),
        },
{
    match quoted_table_name(table) {
        Ok(quoted) => {
            let mut query = String::from_str("DELETE FROM ");
            query.append(quoted.as_str());
            query.append(" WHERE key = ?");
            Ok(CacheOperation::Delete { query, key })
        },
        Err(error) => Err(error),
    }
}

/// Makes the operation that deletes values that have expired, so many at most.
pub fn cleanup_expired_operation(table: &str, limit: i64) -> (out: Result<
    CacheOperation,
    ConnectionError,
>)
    ensures
        if limit < 1 {
            out == Err::<CacheOperation, ConnectionError>(ConnectionError::CleanupLimit)
        } else {
            match out {
                Ok(CacheOperation::CleanupExpired { query, limit: bound }) => {
                    &&& is_table_name(table@)
                    &&& query@ == cleanup_statement(table@)
                    &&& bound == limit
                },
                _ => refused_name(out, table@),
            }
        },
{
    if limit < 1 {
        return Err(ConnectionError::CleanupLimit);
    }
    match quoted_table_name(table) {
        Ok(quoted) => {
            let mut query = String::from_str("DELETE FROM ");
            query.append(quoted.as_str());
            query.append(" WHERE key IN (SELECT key FROM ");
            query.append(quoted.as_str());
            query.append(
                " WHERE expires_at IS NOT NULL AND expires_at <= ? ORDER BY expires_at LIMIT ?)",
            );
            Ok(CacheOperation::CleanupExpired { query, limit })
        },
        Err(error) => Err(error),
    }
}

impl CacheOperation {
    /// The statements of an operation, in the order in which they run.
    pub open spec fn statements(self) -> Seq<Seq<char>> {
        match self {
            CacheOperation::Initialize { create_table, create_index } => seq![
                create_table@,
                create_index@,
            ],
            CacheOperation::Get { query, .. } => seq![query@],
            CacheOperation::Store { query, .. } => seq![query@],
            CacheOperation::Delete { query, .. } => seq![query@],
            CacheOperation::CleanupExpired { query, .. } => seq![query@],
        }
    }

    /// Lists the statements of an operation.
    pub fn queries(&self) -> (out: Vec<String>)
        ensures
            text::texts(out@) == self.statements(),
    {
        let mut out: Vec<String> = Vec::new();
        match self {
            CacheOperation::Initialize { create_table, create_index } => {
                out.push(create_table.clone());
                out.push(create_index.clone());
            },
            CacheOperation::Get { query, .. } => out.push(query.clone()),
            CacheOperation::Store { query, .. } => out.push(query.clone()),
            CacheOperation::Delete { query, .. } => out.push(query.clone()),
            CacheOperation::CleanupExpired { query, .. } => out.push(query.clone()),
        }
        proof {
            assert(text::texts(out@) =~= self.statements());
        }
        out
    }
}

// ---------------------------------------------------------------- times to live

/// Checks a time to live.
pub fn check_ttl(bits: u64) -> (out: Result<(), ConnectionError>)
    ensures
        match out {
            Ok(_) => floats::finite(bits) && !floats::below_zero(bits),
            Err(error) => !(floats::finite(bits) && !floats::below_zero(bits)) && error
                == ConnectionError::InvalidTtl,
        },
{
    if !floats::is_finite(bits) || floats::is_below_zero(bits) {
        return Err(ConnectionError::InvalidTtl);
    }
    Ok(())
}

// ---------------------------------------------------------------- the run

/// What an operation on a cache table gives.
pub enum CacheResult {
    Nothing,
    /// Whether the table was created inside a transaction.
    InitializedInTransaction(bool),
    Value(Option<Vec<u8>>),
    Deleted(bool),
    DeletedCount(u64),
}

/// The value that a raw read of a cache table gives.
pub open spec fn cached(scalar: Option<RawScalar>) -> Result<Option<Vec<u8>>, ConnectionError> {
    match scalar {
        None => Ok(None),
        Some(RawScalar::Null) => Ok(None),
        Some(RawScalar::Blob(value)) => Ok(Some(value)),
        Some(_) => Err(ConnectionError::CacheValueKind),
    }
}

/// Reads the value that a raw read of a cache table gives.
pub fn cached_value(scalar: Option<RawScalar>) -> (out: Result<Option<Vec<u8>>, ConnectionError>)
    ensures
        out == cached(scalar),
{
    match scalar {
        None => Ok(None),
        Some(RawScalar::Null) => Ok(None),
        Some(RawScalar::Blob(value)) => Ok(Some(value)),
        Some(_) => Err(ConnectionError::CacheValueKind),
    }
}

/// The slot whose raw handle a read may use.
pub open spec fn slot_for_raw(in_transaction: bool, has_callbacks: bool) -> Option<Route> {
    if has_callbacks {
        None
    } else if in_transaction {
        Some(Route::Transaction)
    } else {
        Some(Route::Session)
    }
}

/// While callbacks are registered no read goes through a raw handle; otherwise
/// it is that of the transaction exactly where there is one.
pub proof fn law_raw_reads_bypass_no_callback(in_transaction: bool, has_callbacks: bool)
    ensures
        slot_for_raw(in_transaction, has_callbacks) is None <==> has_callbacks,
        slot_for_raw(in_transaction, has_callbacks) == Some(Route::Transaction)
            <==> !has_callbacks && in_transaction,
        slot_for_raw(in_transaction, has_callbacks) != Some(Route::Callbacks),
{
}

/// Finds the slot whose raw handle a read may use: none, while callbacks are
/// registered.
pub fn raw_slot(in_transaction: bool, has_callbacks: bool) -> (out: Option<Route>)
    ensures
        out == slot_for_raw(in_transaction, has_callbacks),
        out == (if has_callbacks {
            None
        } else if in_transaction {
            Some(Route::Transaction)
        } else {
            Some(Route::Session)
        }),
{
    if has_callbacks {
        None
    } else if in_transaction {
        Some(Route::Transaction)
    } else {
        Some(Route::Session)
    }
}

/// What an operation does.
#[derive(Clone, Copy, Debug, PartialEq, Eq, Structural)]
pub enum CacheKind {
    Initialize,
    Get,
    Store { ttl: Option<u64> },
    Delete,
    CleanupExpired,
}

impl CacheOperation {
    /// What an operation does.
    pub open spec fn spec_kind(self) -> CacheKind {
        match self {
            CacheOperation::Initialize { .. } => CacheKind::Initialize,
            CacheOperation::Get { .. } => CacheKind::Get,
            CacheOperation::Store { ttl, .. } => CacheKind::Store { ttl },
            CacheOperation::Delete { .. } => CacheKind::Delete,
            CacheOperation::CleanupExpired { .. } => CacheKind::CleanupExpired,
        }
    }

    /// What an operation does.
    pub fn kind(&self) -> (out: CacheKind)
        ensures
            out == self.spec_kind(),
    {
        match self {
            CacheOperation::Initialize { .. } => CacheKind::Initialize,
            CacheOperation::Get { .. } => CacheKind::Get,
            CacheOperation::Store { ttl, .. } => CacheKind::Store { ttl: *ttl },
            CacheOperation::Delete { .. } => CacheKind::Delete,
            CacheOperation::CleanupExpired { .. } => CacheKind::CleanupExpired,
        }
    }
}

/// A time as a parameter.
pub open spec fn time_parameter(time: Option<u64>) -> SqliteParam {
    match time {
        Some(bits) => SqliteParam::Real { bits },
        None => SqliteParam::Null,
    }
}

/// A value that is bound to a statement.
pub enum BoundValue {
    Null,
    Int(i64),
    Real { bits: u64 },
    Text(Seq<char>),
    Blob(Seq<u8>),
}

/// The value that a parameter binds.
pub open spec fn bound_value(param: SqliteParam) -> BoundValue {
    match param {
        SqliteParam::Null => BoundValue::Null,
        SqliteParam::Int(n) => BoundValue::Int(n),
        SqliteParam::Real { bits } => BoundValue::Real { bits },
        SqliteParam::Text(s) => BoundValue::Text(s@),
        SqliteParam::Blob(bytes) => BoundValue::Blob(bytes@),
    }
}

/// The values that parameters bind, in order.
pub open spec fn bound_values(params: Seq<SqliteParam>) -> Seq<BoundValue> {
    params.map_values(|param: SqliteParam| bound_value(param))
}

impl CacheOperation {
    /// The values that are bound to the statements of an operation, with the
    /// time that they are about.
    pub open spec fn bound(self, time: Option<u64>) -> Seq<BoundValue> {
        let moment = bound_value(time_parameter(time));
        match self {
            CacheOperation::Initialize { .. } => Seq::empty(),
            CacheOperation::Get { key, .. } => seq![BoundValue::Text(key@), moment],
            CacheOperation::Store { key, value, .. } => seq![
                BoundValue::Text(key@),
                BoundValue::Blob(value@),
                moment,
            ],
            CacheOperation::Delete { key, .. } => seq![BoundValue::Text(key@)],
            CacheOperation::CleanupExpired { limit, .. } => seq![moment, BoundValue::Int(limit)],
        }
    }

    /// The parameters of the statements of an operation, with the time that
    /// they are about: when a value expires, or what has expired.
    pub fn parameters(&self, time: Option<u64>) -> (out: Vec<SqliteParam>)
        ensures
            bound_values(out@) == self.bound(time),
    {
        let moment = match time {
            Some(bits) => SqliteParam::Real { bits },
            None => SqliteParam::Null,
        };
        let mut out: Vec<SqliteParam> = Vec::new();
        match self {
            CacheOperation::Initialize { .. } => {},
            CacheOperation::Get { key, .. } => {
                out.push(SqliteParam::Text(key.clone()));
                out.push(moment);
            },
            CacheOperation::Store { key, value, .. } => {
                out.push(SqliteParam::Text(key.clone()));
                out.push(SqliteParam::Blob(value.clone()));
                out.push(moment);
            },
            CacheOperation::Delete { key, .. } => {
                out.push(SqliteParam::Text(key.clone()));
            },
            CacheOperation::CleanupExpired { limit, .. } => {
                out.push(moment);
                out.push(SqliteParam::Int(*limit));
            },
        }
        proof {
            assert(bound_values(out@) =~= self.bound(time));
        }
        out
    }
}

/// The run of an operation on the connection that was found for it.
pub struct CacheRun<E> {
    pub kind: CacheKind,
    pub in_transaction: bool,
    /// Whether a value is read through the raw handle.
    pub raw: bool,
    pub errors: PhantomData<E>,
}

/// The call that a run waits for. Times are floats, by their bits.
pub enum CacheStep<E> {
    /// Read the clock.
    ReadClock,
    /// Add the time to live to the time.
    AddTtl { now: u64, ttl: u64 },
    /// Run the statement at this place, with this time bound to it.
    Execute { statement: usize, time: Option<u64> },
    /// Fetch the value.
    Fetch { now: u64 },
    /// Lock the raw handle.
    LockHandle { now: u64 },
    /// Fetch the value through the raw handle.
    FetchRaw { now: u64 },
    /// No call is left.
    Finished(Result<CacheResult, OperationError<E>>),
}

/// What a call of a run brings back.
pub enum CacheReply<E> {
    /// The time, or why it cannot be told.
    Clock(Result<u64, String>),
    Sum(u64),
    /// How many rows a statement changed.
    Changed(Result<u64, E>),
    Fetched(Result<Option<Vec<u8>>, E>),
    Locked(Result<(), E>),
    Scalar(Result<Option<RawScalar>, E>),
}

/// The end of a run that changed so many rows.
pub open spec fn changed_result<E>(run: CacheRun<E>, rows: u64) -> CacheResult {
    match run.kind {
        CacheKind::Initialize => CacheResult::InitializedInTransaction(run.in_transaction),
        CacheKind::Delete => CacheResult::Deleted(rows > 0),
        CacheKind::CleanupExpired => CacheResult::DeletedCount(rows),
        CacheKind::Get | CacheKind::Store { .. } => CacheResult::Nothing,
    }
}

impl<E> Process for CacheRun<E> {
    type State = CacheStep<E>;

    type Reply = CacheReply<E>;

    open spec fn outset(self) -> CacheStep<E> {
        match self.kind {
            CacheKind::Initialize | CacheKind::Delete | CacheKind::Store { ttl: None } =>
                CacheStep::Execute { statement: 0, time: None },
            CacheKind::Get | CacheKind::CleanupExpired => CacheStep::ReadClock,
            CacheKind::Store { ttl: Some(ttl) } => if floats::finite(ttl) && !floats::below_zero(ttl) {
                CacheStep::ReadClock
            } else {
                CacheStep::Finished(Err(OperationError::Refused(ConnectionError::InvalidTtl)))
            },
        }
    }

    open spec fn ended(self, state: CacheStep<E>) -> bool {
        state is Finished
    }

    open spec fn answers(self, state: CacheStep<E>, reply: CacheReply<E>) -> bool {
        match state {
            CacheStep::ReadClock => reply is Clock,
            CacheStep::AddTtl { .. } => reply is Sum,
            CacheStep::Execute { .. } => reply is Changed,
            CacheStep::Fetch { .. } => reply is Fetched,
            CacheStep::LockHandle { .. } => reply is Locked,
            CacheStep::FetchRaw { .. } => reply is Scalar,
            CacheStep::Finished(_) => false,
        }
    }

    open spec fn next(self, state: CacheStep<E>, reply: CacheReply<E>) -> CacheStep<E> {
        match (state, reply) {
            (CacheStep::ReadClock, CacheReply::Clock(outcome)) => match outcome {
                Ok(now) => match self.kind {
                    CacheKind::Store { ttl: Some(ttl) } => CacheStep::AddTtl { now, ttl },
                    CacheKind::Get => if self.raw {
                        CacheStep::LockHandle { now }
                    } else {
                        CacheStep::Fetch { now }
                    },
                    _ => CacheStep::Execute { statement: 0, time: Some(now) },
                },
                Err(reason) => CacheStep::Finished(
                    Err(OperationError::Refused(ConnectionError::ClockBeforeEpoch { reason })),
                ),
            },
            (CacheStep::AddTtl { .. }, CacheReply::Sum(sum)) => if floats::finite(sum) {
                CacheStep::Execute { statement: 0, time: Some(sum) }
            } else {
                CacheStep::Finished(Err(OperationError::Refused(ConnectionError::TtlTooLarge)))
            },
            (CacheStep::Execute { statement, .. }, CacheReply::Changed(outcome)) =>
                match outcome {
                Ok(rows) => if self.kind == CacheKind::Initialize && statement == 0 {
                    CacheStep::Execute { statement: 1, time: None }
                } else {
                    CacheStep::Finished(Ok(changed_result(self, rows)))
                },
                Err(error) => CacheStep::Finished(Err(OperationError::Call(error))),
            },
            (CacheStep::Fetch { .. }, CacheReply::Fetched(outcome)) => match outcome {
                Ok(value) => CacheStep::Finished(Ok(CacheResult::Value(value))),
                Err(error) => CacheStep::Finished(Err(OperationError::Call(error))),
            },
            (CacheStep::LockHandle { now }, CacheReply::Locked(outcome)) => match outcome {
                Ok(_) => CacheStep::FetchRaw { now },
                Err(error) => CacheStep::Finished(
                    Err(OperationError::Lock(LockFrame::SqliteHandle, error)),
                ),
            },
            (CacheStep::FetchRaw { .. }, CacheReply::Scalar(outcome)) => match outcome {
                Ok(scalar) => match cached(scalar) {
                    Ok(value) => CacheStep::Finished(Ok(CacheResult::Value(value))),
                    Err(error) => CacheStep::Finished(Err(OperationError::Refused(error))),
                },
                Err(error) => CacheStep::Finished(Err(OperationError::Call(error))),
            },
            (state, _) => state,
        }
    }
}

impl<E> CacheRun<E> {
    fn changed(&self, rows: u64) -> (out: CacheResult)
        ensures
            out == changed_result(*self, rows),
    {
        match self.kind {
            CacheKind::Initialize => CacheResult::InitializedInTransaction(self.in_transaction),
            CacheKind::Delete => CacheResult::Deleted(rows > 0),
            CacheKind::CleanupExpired => CacheResult::DeletedCount(rows),
            CacheKind::Get | CacheKind::Store { .. } => CacheResult::Nothing,
        }
    }

    /// The first call to make.
    pub fn start(&self) -> (out: CacheStep<E>)
        ensures
            out == self.outset(),
    {
        match self.kind {
            CacheKind::Initialize | CacheKind::Delete | CacheKind::Store { ttl: None } =>
                CacheStep::Execute { statement: 0, time: None },
            CacheKind::Get | CacheKind::CleanupExpired => CacheStep::ReadClock,
            CacheKind::Store { ttl: Some(ttl) } => match check_ttl(ttl) {
                Ok(_) => CacheStep::ReadClock,
                Err(error) => CacheStep::Finished(Err(OperationError::Refused(error))),
            },
        }
    }

    /// The call to make behind a reply.
    pub fn resume(&self, state: CacheStep<E>, reply: CacheReply<E>) -> (out: CacheStep<E>)
        ensures
            out == self.next(state, reply),
    {
        match (state, reply) {
            (CacheStep::ReadClock, CacheReply::Clock(outcome)) => match outcome {
                Ok(now) => match self.kind {
                    CacheKind::Store { ttl: Some(ttl) } => CacheStep::AddTtl { now, ttl },
                    CacheKind::Get => if self.raw {
                        CacheStep::LockHandle { now }
                    } else {
                        CacheStep::Fetch { now }
                    },
                    _ => CacheStep::Execute { statement: 0, time: Some(now) },
                },
                Err(reason) => CacheStep::Finished(
                    Err(OperationError::Refused(ConnectionError::ClockBeforeEpoch { reason })),
                ),
            },
            (CacheStep::AddTtl { .. }, CacheReply::Sum(sum)) => if floats::is_finite(sum) {
                CacheStep::Execute { statement: 0, time: Some(sum) }
            } else {
                CacheStep::Finished(Err(OperationError::Refused(ConnectionError::TtlTooLarge)))
            },
            (CacheStep::Execute { statement, .. }, CacheReply::Changed(outcome)) =>
                match outcome {
                Ok(rows) => match self.kind {
                    CacheKind::Initialize if statement == 0 => CacheStep::Execute {
                        statement: 1,
                        time: None,
                    },
                    _ => CacheStep::Finished(Ok(self.changed(rows))),
                },
                Err(error) => CacheStep::Finished(Err(OperationError::Call(error))),
            },
            (CacheStep::Fetch { .. }, CacheReply::Fetched(outcome)) => match outcome {
                Ok(value) => CacheStep::Finished(Ok(CacheResult::Value(value))),
                Err(error) => CacheStep::Finished(Err(OperationError::Call(error))),
            },
            (CacheStep::LockHandle { now }, CacheReply::Locked(outcome)) => match outcome {
                Ok(_) => CacheStep::FetchRaw { now },
                Err(error) => CacheStep::Finished(
                    Err(OperationError::Lock(LockFrame::SqliteHandle, error)),
                ),
            },
            (CacheStep::FetchRaw { .. }, CacheReply::Scalar(outcome)) => match outcome {
                Ok(scalar) => match cached_value(scalar) {
                    Ok(value) => CacheStep::Finished(Ok(CacheResult::Value(value))),
                    Err(error) => CacheStep::Finished(Err(OperationError::Refused(error))),
                },
                Err(error) => CacheStep::Finished(Err(OperationError::Call(error))),
            },
            (state, _) => state,
        }
    }
}

/// How many statements a run has brought to their end.
pub open spec fn statements_run<E>(run: CacheRun<E>, replies: Seq<CacheReply<E>>) -> int
    decreases replies.len(),
{
    if replies.len() == 0 {
        0
    } else {
        statements_run(run, replies.drop_last()) + (match process::reached(
            run,
            replies.drop_last(),
        ) {
            CacheStep::Execute { .. } => if replies.last()->Changed_0 is Ok {
                1int
            } else {
                0
            },
            _ => 0,
        })
    }
}

/// The time that the clock gave, where it was read.
pub open spec fn clock_read<E>(run: CacheRun<E>, replies: Seq<CacheReply<E>>) -> Option<u64>
    decreases replies.len(),
{
    if replies.len() == 0 {
        None
    } else {
        match (process::reached(run, replies.drop_last()), replies.last()) {
            (CacheStep::ReadClock, CacheReply::Clock(Ok(now))) => Some(now),
            _ => clock_read(run, replies.drop_last()),
        }
    }
}

proof fn lemma_cache_course<E>(run: CacheRun<E>, replies: Seq<CacheReply<E>>)
    requires
        process::possible(run, replies),
    ensures
        match process::reached(run, replies) {
            CacheStep::ReadClock => statements_run(run, replies) == 0 && match run.kind {
                CacheKind::Get | CacheKind::CleanupExpired => true,
                CacheKind::Store { ttl } => ttl is Some && floats::finite(ttl->0) && !floats::below_zero(ttl->0),
                _ => false,
            },
            CacheStep::AddTtl { now, ttl } => {
                &&& run.kind == (CacheKind::Store { ttl: Some(ttl) })
                &&& clock_read(run, replies) == Some(now)
                &&& statements_run(run, replies) == 0
                &&& floats::finite(ttl) && !floats::below_zero(ttl)
            },
            CacheStep::Execute { statement, time } => {
                &&& statements_run(run, replies) == statement
                &&& match run.kind {
                    CacheKind::Initialize => statement <= 1 && time is None,
                    CacheKind::Delete => statement == 0 && time is None,
                    CacheKind::Store { ttl: None } => statement == 0 && time is None,
                    CacheKind::Store { ttl: Some(ttl) } => statement == 0 && time is Some
                        && floats::finite(time->0) && floats::finite(ttl) && !floats::below_zero(ttl),
                    CacheKind::CleanupExpired => statement == 0 && time is Some && time
                        == clock_read(run, replies),
                    CacheKind::Get => false,
                }
            },
            CacheStep::Fetch { now }
            | CacheStep::LockHandle { now }
            | CacheStep::FetchRaw { now } => {
                &&& run.kind == CacheKind::Get
                &&& clock_read(run, replies) == Some(now)
                &&& statements_run(run, replies) == 0
            },
            CacheStep::Finished(Ok(result)) => {
                &&& statements_run(run, replies) == (match run.kind {
                    CacheKind::Initialize => 2int,
                    CacheKind::Get => 0,
                    _ => 1,
                })
                &&& match run.kind {
                    CacheKind::Store { ttl: Some(ttl) } => floats::finite(ttl)
                        && !floats::below_zero(ttl),
                    _ => true,
                }
                &&& if run.kind == CacheKind::Get {
                    result is Value
                } else {
                    result == changed_result(run, replies.last()->Changed_0->Ok_0)
                }
            },
            CacheStep::Finished(Err(_)) => true,
        },
    decreases replies.len(),
{
    if replies.len() > 0 {
        lemma_cache_course(run, replies.drop_last());
    }
}

/// A run that succeeds has brought each of its statements to its end, and no
/// other; it gives what its last statement did; and a value was stored with a
/// time to live only if that is finite and not negative.
pub proof fn law_cache_success<E>(run: CacheRun<E>, replies: Seq<CacheReply<E>>)
    requires
        process::possible(run, replies),
        process::reached(run, replies) matches CacheStep::Finished(Ok(_)),
    ensures
        statements_run(run, replies) == (match run.kind {
            CacheKind::Initialize => 2int,
            CacheKind::Get => 0,
            _ => 1,
        }),
        match run.kind {
            CacheKind::Store { ttl: Some(ttl) } => floats::finite(ttl) && !floats::below_zero(ttl),
            _ => true,
        },
        run.kind == CacheKind::Get ==> process::reached(run, replies)->Finished_0->Ok_0 is Value,
        run.kind != CacheKind::Get ==> process::reached(run, replies)->Finished_0->Ok_0
            == changed_result(run, replies.last()->Changed_0->Ok_0),
{
    lemma_cache_course(run, replies);
}

/// A value is looked for, and expired values are deleted, by the time that the
/// clock gave; no value is stored with an expiration that is not finite.
pub proof fn law_cache_keeps_time<E>(run: CacheRun<E>, replies: Seq<CacheReply<E>>)
    requires
        process::possible(run, replies),
    ensures
        match process::reached(run, replies) {
            CacheStep::Fetch { now } => clock_read(run, replies) == Some(now),
            CacheStep::FetchRaw { now } => clock_read(run, replies) == Some(now),
            CacheStep::Execute { time, .. } => {
                &&& run.kind == CacheKind::CleanupExpired ==> time == clock_read(run, replies)
                    && time is Some
                &&& run.kind is Store ==> (time is Some <==> run.kind->ttl is Some) && (time is Some
                    ==> floats::finite(time->0))
            },
            _ => true,
        },
{
    lemma_cache_course(run, replies);
}

// ---------------------------------------------------------------- a cache table

/// A row of a cache table. The time at which it expires is a float, by its
/// bits; a row without one does not expire.
pub struct CacheRow {
    pub value: Seq<u8>,
    pub expires: Option<u64>,
}

/// A cache table, by its keys.
pub type CacheTable = Map<Seq<char>, CacheRow>;

/// Whether a row has not expired at this time.
pub open spec fn live(row: CacheRow, now: u64) -> bool {
    match row.expires {
        Some(time) => floats::above(time, now),
        None => true,
    }
}

/// Whether a row has expired at this time.
pub open spec fn expired(row: CacheRow, now: u64) -> bool {
    match row.expires {
        Some(time) => floats::at_most(time, now),
        None => false,
    }
}

/// The keys whose rows have expired at this time.
pub open spec fn expired_keys(table: CacheTable, now: u64) -> Set<Seq<char>> {
    table.dom().filter(|key: Seq<char>| expired(table[key], now))
}

/// The value under a key, where there is one that has not expired.
pub open spec fn live_value(table: CacheTable, key: Seq<char>, now: u64) -> Option<Seq<u8>> {
    if table.dom().contains(key) && live(table[key], now) {
        Some(table[key].value)
    } else {
        None
    }
}

/// Whether these keys are those that go where so many expired rows at most are
/// deleted: as many as there are up to the limit, and none that expires behind
/// one that stays.
pub open spec fn deletes_expired(
    table: CacheTable,
    now: u64,
    limit: int,
    gone: Set<Seq<char>>,
) -> bool {
    let due = expired_keys(table, now);
    &&& gone.subset_of(due)
    &&& gone.finite()
    &&& gone.len() == (if due.len() <= limit {
        due.len() as int
    } else {
        limit
    })
    &&& forall|key: Seq<char>, other: Seq<char>|
        #![trigger gone.contains(key), due.contains(other)]
        gone.contains(key) && due.contains(other) && !gone.contains(other) ==> floats::at_most(
            table[key].expires->0,
            table[other].expires->0,
        )
}

/// A parameter as it stands in a row: a float that is no number is NULL.
pub open spec fn stored_time(value: BoundValue) -> Option<u64> {
    match value {
        BoundValue::Real { bits } => if floats::not_a_number(bits) {
            None
        } else {
            Some(bits)
        },
        _ => None,
    }
}

/// What SQLite makes of a cache table by a statement with these values bound to
/// it, and how many rows it says that it changed. A key is unique: a row that
/// is stored takes the place of an earlier one.
pub open spec fn executes(
    name: Seq<char>,
    statement: Seq<char>,
    values: Seq<BoundValue>,
    before: CacheTable,
    rows: u64,
    after: CacheTable,
) -> bool {
    &&& statement == create_table_statement(name) || statement == create_index_statement(name)
        ==> after == before
    &&& statement == set_statement(name) ==> (values.len() == 3 && values[0] is Text
        && values[1] is Blob ==> after == before.insert(
        values[0]->Text_0,
        CacheRow { value: values[1]->Blob_0, expires: stored_time(values[2]) },
    ) && rows == 1)
    &&& statement == delete_statement(name) ==> (values.len() == 1 && values[0] is Text ==> after
        == before.remove(values[0]->Text_0) && rows == (if before.dom().contains(
        values[0]->Text_0,
    ) {
        1int
    } else {
        0int
    }))
    &&& statement == cleanup_statement(name) ==> (values.len() == 2 && values[0] is Real
        && values[1] is Int ==> exists|gone: Set<Seq<char>>|
        #![trigger before.remove_keys(gone)]
        {
            &&& deletes_expired(before, values[0]->bits, values[1]->Int_0 as int, gone)
            &&& after == before.remove_keys(gone)
            &&& rows == gone.len()
        })
}

/// What SQLite reads from a cache table by a query with these values bound to
/// it.
pub open spec fn selects(
    name: Seq<char>,
    query: Seq<char>,
    values: Seq<BoundValue>,
    table: CacheTable,
    value: Option<Seq<u8>>,
) -> bool {
    query == get_statement(name) ==> (values.len() == 2 && values[0] is Text && values[1] is Real
        ==> value == live_value(table, values[0]->Text_0, values[1]->bits))
}

/// Whether SQLite can give this reply to the call of a step where the table is
/// the one before the call, and leave the one behind it. A statement that fails
/// changes nothing.
pub open spec fn table_answers<E>(
    name: Seq<char>,
    operation: CacheOperation,
    step: CacheStep<E>,
    reply: CacheReply<E>,
    before: CacheTable,
    after: CacheTable,
) -> bool {
    match (step, reply) {
        (CacheStep::Execute { statement, time }, CacheReply::Changed(Ok(rows))) => executes(
            name,
            operation.statements()[statement as int],
            operation.bound(time),
            before,
            rows,
            after,
        ),
        (CacheStep::Fetch { now }, CacheReply::Fetched(Ok(value))) => after == before && selects(
            name,
            operation.statements()[0],
            operation.bound(Some(now)),
            before,
            value_bytes(value),
        ),
        (CacheStep::FetchRaw { now }, CacheReply::Scalar(Ok(scalar))) => {
            &&& after == before
            &&& scalar is None || scalar->0 is Blob
            &&& selects(
                name,
                operation.statements()[0],
                operation.bound(Some(now)),
                before,
                match scalar {
                    Some(RawScalar::Blob(value)) => Some(value@),
                    _ => None,
                },
            )
        },
        _ => after == before,
    }
}

/// The bytes of a value.
pub open spec fn value_bytes(value: Option<Vec<u8>>) -> Option<Seq<u8>> {
    match value {
        Some(value) => Some(value@),
        None => None,
    }
}

/// Whether the operation is one on the cache table of this name.
pub open spec fn concerns(operation: CacheOperation, name: Seq<char>) -> bool {
    match operation {
        CacheOperation::Initialize { create_table, create_index } => create_table@
            == create_table_statement(name) && create_index@ == create_index_statement(name),
        CacheOperation::Get { query, .. } => query@ == get_statement(name),
        CacheOperation::Store { query, .. } => query@ == set_statement(name),
        CacheOperation::Delete { query, .. } => query@ == delete_statement(name),
        CacheOperation::CleanupExpired { query, .. } => query@ == cleanup_statement(name),
    }
}

/// An operation on a cache table that has run to its end: its replies, and the
/// table at the outset and behind each of them.
pub struct CacheEvent<E> {
    pub operation: CacheOperation,
    pub run: CacheRun<E>,
    pub replies: Seq<CacheReply<E>>,
    pub tables: Seq<CacheTable>,
}

/// Whether the table takes this course.
pub open spec fn table_course<E>(
    name: Seq<char>,
    operation: CacheOperation,
    run: CacheRun<E>,
    replies: Seq<CacheReply<E>>,
    tables: Seq<CacheTable>,
) -> bool
    decreases replies.len(),
{
    if replies.len() == 0 {
        tables.len() == 1
    } else {
        &&& tables.len() == replies.len() + 1
        &&& table_course(name, operation, run, replies.drop_last(), tables.drop_last())
        &&& table_answers(
            name,
            operation,
            process::reached(run, replies.drop_last()),
            replies.last(),
            tables[tables.len() - 2],
            tables.last(),
        )
    }
}

impl<E> CacheEvent<E> {
    /// Whether this can happen to the cache table of this name.
    pub open spec fn can_happen(self, name: Seq<char>) -> bool {
        &&& concerns(self.operation, name)
        &&& self.run.kind == self.operation.spec_kind()
        &&& process::possible(self.run, self.replies)
        &&& process::reached(self.run, self.replies) is Finished
        &&& table_course(name, self.operation, self.run, self.replies, self.tables)
    }

    /// What the operation gave.
    pub open spec fn result(self) -> Result<CacheResult, OperationError<E>> {
        process::reached(self.run, self.replies)->Finished_0
    }

    /// The table before the operation.
    pub open spec fn before(self) -> CacheTable {
        self.tables[0]
    }

    /// The table behind the operation.
    pub open spec fn after(self) -> CacheTable {
        self.tables.last()
    }

    /// The time that the clock gave, where it was read.
    pub open spec fn now(self) -> Option<u64> {
        clock_read(self.run, self.replies)
    }

    /// The time at which a value that is stored expires: the sum of the time
    /// and the time to live.
    pub open spec fn expiry(self) -> Option<u64> {
        sum_given(self.run, self.replies)
    }
}

/// The sum of the time and the time to live, where it was asked for.
pub open spec fn sum_given<E>(run: CacheRun<E>, replies: Seq<CacheReply<E>>) -> Option<u64>
    decreases replies.len(),
{
    if replies.len() == 0 {
        None
    } else {
        match (process::reached(run, replies.drop_last()), replies.last()) {
            (CacheStep::AddTtl { .. }, CacheReply::Sum(sum)) => Some(sum),
            _ => sum_given(run, replies.drop_last()),
        }
    }
}

/// What an operation that succeeds does to the table, and what it gives.
pub open spec fn takes_effect(
    operation: CacheOperation,
    now: Option<u64>,
    expiry: Option<u64>,
    before: CacheTable,
    after: CacheTable,
    result: CacheResult,
) -> bool {
    match operation {
        CacheOperation::Initialize { .. } => after == before,
        CacheOperation::Get { key, .. } => {
            &&& after == before
            &&& now is Some
            &&& result matches CacheResult::Value(value)
            &&& value_bytes(value) == live_value(before, key@, now->0)
        },
        CacheOperation::Store { key, value, ttl, .. } => {
            &&& after == before.insert(key@, CacheRow { value: value@, expires: expiry })
            &&& expiry is Some <==> ttl is Some
            &&& expiry is Some ==> floats::finite(expiry->0)
            &&& result == CacheResult::Nothing
        },
        CacheOperation::Delete { key, .. } => {
            &&& after == before.remove(key@)
            &&& result == CacheResult::Deleted(before.dom().contains(key@))
        },
        CacheOperation::CleanupExpired { limit, .. } => {
            &&& now is Some
            &&& result matches CacheResult::DeletedCount(count)
            &&& exists|gone: Set<Seq<char>>|
                #![trigger before.remove_keys(gone)]
                {
                    &&& deletes_expired(before, now->0, limit as int, gone)
                    &&& after == before.remove_keys(gone)
                    &&& count == gone.len()
                }
        },
    }
}

proof fn lemma_table_course<E>(
    name: Seq<char>,
    operation: CacheOperation,
    run: CacheRun<E>,
    replies: Seq<CacheReply<E>>,
    tables: Seq<CacheTable>,
)
    requires
        concerns(operation, name),
        run.kind == operation.spec_kind(),
        process::possible(run, replies),
        table_course(name, operation, run, replies, tables),
    ensures
        tables.len() == replies.len() + 1,
        match process::reached(run, replies) {
            CacheStep::Finished(Ok(result)) => takes_effect(
                operation,
                clock_read(run, replies),
                sum_given(run, replies),
                tables[0],
                tables.last(),
                result,
            ),
            CacheStep::Execute { time, .. } => {
                &&& tables.last() == tables[0]
                &&& run.kind is Store ==> time == sum_given(run, replies)
            },
            CacheStep::ReadClock | CacheStep::AddTtl { .. } => tables.last() == tables[0]
                && sum_given(run, replies) is None,
            _ => tables.last() == tables[0],
        },
    decreases replies.len(),
{
    if replies.len() > 0 {
        let before = replies.drop_last();
        lemma_table_course(name, operation, run, before, tables.drop_last());
        lemma_cache_course(run, before);
        assert(tables.drop_last().last() == tables[tables.len() - 2]);
        assert(tables.drop_last()[0] == tables[0]);
    }
}

/// An operation on a cache table does to it what it is for: reading changes
/// nothing and gives the value that is there and has not expired; storing puts
/// the value and its expiration in the place of what was there; deleting takes
/// the key away and says whether it was there. One that fails changes nothing.
pub proof fn law_cache_operation_takes_effect<E>(name: Seq<char>, event: CacheEvent<E>)
    requires
        event.can_happen(name),
    ensures
        match event.result() {
            Ok(result) => takes_effect(
                event.operation,
                event.now(),
                event.expiry(),
                event.before(),
                event.after(),
                result,
            ),
            Err(_) => event.after() == event.before(),
        },
{
    lemma_table_course(name, event.operation, event.run, event.replies, event.tables);
}

/// Whether the operation may change what is under the key: it stores it or
/// deletes it, or deletes what has expired.
pub open spec fn touches(operation: CacheOperation, touched: Seq<char>) -> bool {
    match operation {
        CacheOperation::Store { key, .. } => key@ == touched,
        CacheOperation::Delete { key, .. } => key@ == touched,
        CacheOperation::CleanupExpired { .. } => true,
        _ => false,
    }
}

/// An operation leaves every key alone that it does not name; only what has
/// expired can go without being named.
pub proof fn law_other_keys_are_left_alone<E>(
    name: Seq<char>,
    event: CacheEvent<E>,
    key: Seq<char>,
)
    requires
        event.can_happen(name),
        event.result() is Err || !touches(event.operation, key),
    ensures
        event.after().dom().contains(key) == event.before().dom().contains(key),
        event.before().dom().contains(key) ==> event.after()[key] == event.before()[key],
{
    law_cache_operation_takes_effect(name, event);
}

/// Whether these operations happen one behind the other.
pub open spec fn in_order<E>(name: Seq<char>, events: Seq<CacheEvent<E>>) -> bool {
    &&& forall|i: int| 0 <= i < events.len() ==> (#[trigger] events[i]).can_happen(name)
    &&& forall|i: int, j: int|
        #![trigger events[i], events[j]]
        0 <= i && j == i + 1 && j < events.len() ==> events[j].before() == events[i].after()
}

proof fn lemma_key_stays<E>(name: Seq<char>, events: Seq<CacheEvent<E>>, key: Seq<char>, n: int)
    requires
        in_order(name, events),
        0 <= n < events.len(),
        forall|i: int|
            0 < i <= n ==> (#[trigger] events[i]).result() is Err || !touches(
                events[i].operation,
                key,
            ),
    ensures
        events[n].after().dom().contains(key) == events[0].after().dom().contains(key),
        events[0].after().dom().contains(key) ==> events[n].after()[key]
            == events[0].after()[key],
    decreases n,
{
    if n > 0 {
        lemma_key_stays(name, events, key, n - 1);
        law_other_keys_are_left_alone(name, events[n], key);
        assert(events[n].before() == events[n - 1].after());
    }
}

/// A read gives back what was stored last under its key, until it expires:
/// whatever was under the key before leaves no trace, and no operation in
/// between on another key, and no read, changes it.
pub proof fn law_get_gives_what_was_set<E>(name: Seq<char>, events: Seq<CacheEvent<E>>)
    requires
        in_order(name, events),
        events.len() >= 2,
        events[0].operation is Store,
        events[0].result() is Ok,
        events.last().operation is Get,
        events.last().operation->Get_key@ == events[0].operation->Store_key@,
        events.last().result() is Ok,
        forall|i: int|
            0 < i < events.len() ==> (#[trigger] events[i]).result() is Err || !touches(
                events[i].operation,
                events[0].operation->Store_key@,
            ),
    ensures
        events.last().now() is Some,
        events[0].expiry() is Some <==> events[0].operation->ttl is Some,
        events.last().result()->Ok_0 matches CacheResult::Value(value) && value_bytes(value) == (
        if events[0].expiry() is None || floats::above(
            events[0].expiry()->0,
            events.last().now()->0,
        ) {
            Some(events[0].operation->Store_value@)
        } else {
            None
        }),
        events.last().after() == events.last().before(),
{
    let key = events[0].operation->Store_key@;
    let n = events.len() - 1;
    law_cache_operation_takes_effect(name, events[0]);
    law_cache_operation_takes_effect(name, events[n]);
    lemma_key_stays(name, events, key, n - 1);
    assert(events[n].before() == events[n - 1].after());
}

/// Cleaning up deletes as many rows as have expired, up to the limit, and says
/// how many: each of them has expired, none that has expired and stays does so
/// before one that goes, and every row that a read would give stays as it is.
pub proof fn law_cleanup_deletes_what_expired<E>(name: Seq<char>, event: CacheEvent<E>)
    requires
        event.can_happen(name),
        event.operation is CleanupExpired,
        event.result() is Ok,
        event.before().dom().finite(),
    ensures
        event.now() is Some,
        ({
            let now = event.now()->0;
            let limit = event.operation->limit as int;
            let due = expired_keys(event.before(), now);
            let gone = event.before().dom().difference(event.after().dom());
            &&& event.result()->Ok_0 matches CacheResult::DeletedCount(count) && count == (
            if due.len() <= limit {
                due.len() as int
            } else {
                limit
            })
            &&& deletes_expired(event.before(), now, limit, gone)
            &&& event.after() == event.before().remove_keys(gone)
            &&& forall|key: Seq<char>|
                #![trigger event.after()[key]]
                event.before().dom().contains(key) && live(event.before()[key], now) ==> {
                    &&& event.after().dom().contains(key)
                    &&& event.after()[key] == event.before()[key]
                }
        }),
{
    law_cache_operation_takes_effect(name, event);
    let before = event.before();
    let now = event.now()->0;
    let limit = event.operation->limit as int;
    let gone = choose|gone: Set<Seq<char>>|
        #![trigger before.remove_keys(gone)]
        {
            &&& deletes_expired(before, now, limit, gone)
            &&& event.after() == before.remove_keys(gone)
            &&& event.result()->Ok_0->DeletedCount_0 == gone.len()
        };
    assert(before.dom().difference(event.after().dom()) =~= gone);
}

// ---------------------------------------------------------------- the end of a run

/// A bound on the calls that a run has left to make.
pub open spec fn calls_left<E>(step: CacheStep<E>) -> int {
    match step {
        CacheStep::ReadClock => 6,
        CacheStep::AddTtl { .. } | CacheStep::LockHandle { .. } => 5,
        CacheStep::FetchRaw { .. } | CacheStep::Fetch { .. } => 4,
        CacheStep::Execute { statement, .. } => if statement == 0 {
            3
        } else {
            2
        },
        CacheStep::Finished(_) => 0,
    }
}

/// With every reply the bound on the calls that are left goes down, so that an
/// operation on a cache table comes to its end.
pub proof fn law_cache_run_ends<E>(run: CacheRun<E>, state: CacheStep<E>, reply: CacheReply<E>)
    requires
        run.answers(state, reply),
    ensures
        0 <= calls_left(run.next(state, reply)) < calls_left(state),
{
}

// ---------------------------------------------------------------- names and replies

/// A cache table may be named by 1 to 100 letters, digits and underscores of
/// ASCII, of which the first is no digit.
pub proof fn law_table_names(s: Seq<char>)
    ensures
        is_table_name(s) <==> {
            &&& 1 <= s.len() <= 100
            &&& !('0' <= s[0] <= '9')
            &&& forall|i: int|
                #![trigger s[i]]
                0 <= i < s.len() ==> 'a' <= s[i] <= 'z' || 'A' <= s[i] <= 'Z' || '0' <= s[i] <= '9'
                    || s[i] == '_'
        },
{
    if 1 <= s.len() <= 100 && !('0' <= s[0] <= '9') && (forall|i: int|
        #![trigger s[i]]
        0 <= i < s.len() ==> 'a' <= s[i] <= 'z' || 'A' <= s[i] <= 'Z' || '0' <= s[i] <= '9' || s[i]
            == '_') {
        assert(begins_identifier(s[0]));
        assert forall|i: int| 0 < i < s.len() implies continues_identifier(#[trigger] s[i]) by {}
    }
    if is_table_name(s) {
        assert forall|i: int|
            #![trigger s[i]]
            0 <= i < s.len() implies 'a' <= s[i] <= 'z' || 'A' <= s[i] <= 'Z' || '0' <= s[i] <= '9'
            || s[i] == '_' by {
            if i > 0 {
                assert(continues_identifier(s[i]));
            }
        }
    }
}

/// The table is created before the index on it.
pub proof fn law_table_comes_before_index(operation: CacheOperation)
    ensures
        operation.statements().len() == if operation is Initialize {
            2int
        } else {
            1int
        },
        operation matches CacheOperation::Initialize { create_table, create_index } ==> {
            &&& operation.statements()[0] == create_table@
            &&& operation.statements()[1] == create_index@
        },
{
}

/// A raw read gives the bytes of a BLOB as they are, and nothing where there is
/// no row or no value; anything else is refused.
pub proof fn law_raw_read_gives_the_bytes(scalar: Option<RawScalar>)
    ensures
        match scalar {
            None => cached(scalar) matches Ok(None),
            Some(RawScalar::Null) => cached(scalar) matches Ok(None),
            Some(RawScalar::Blob(value)) => cached(scalar) matches Ok(Some(given)) && given == value,
            Some(_) => cached(scalar) == Err::<Option<Vec<u8>>, ConnectionError>(
                ConnectionError::CacheValueKind,
            ),
        },
{
}

/// What fails a run.
pub open spec fn cache_trouble<E>(
    run: CacheRun<E>,
    replies: Seq<CacheReply<E>>,
) -> Option<OperationError<E>>
    decreases replies.len(),
{
    if replies.len() == 0 {
        None
    } else {
        let before = cache_trouble(run, replies.drop_last());
        match (process::reached(run, replies.drop_last()), replies.last()) {
            (CacheStep::ReadClock, CacheReply::Clock(Err(reason))) => Some(
                OperationError::Refused(ConnectionError::ClockBeforeEpoch { reason }),
            ),
            (CacheStep::AddTtl { .. }, CacheReply::Sum(sum)) => if floats::finite(sum) {
                before
            } else {
                Some(OperationError::Refused(ConnectionError::TtlTooLarge))
            },
            (CacheStep::Execute { .. }, CacheReply::Changed(Err(error))) => Some(
                OperationError::Call(error),
            ),
            (CacheStep::Fetch { .. }, CacheReply::Fetched(Err(error))) => Some(
                OperationError::Call(error),
            ),
            (CacheStep::LockHandle { .. }, CacheReply::Locked(Err(error))) => Some(
                OperationError::Lock(LockFrame::SqliteHandle, error),
            ),
            (CacheStep::FetchRaw { .. }, CacheReply::Scalar(Err(error))) => Some(
                OperationError::Call(error),
            ),
            (CacheStep::FetchRaw { .. }, CacheReply::Scalar(Ok(scalar))) => match scalar {
                None | Some(RawScalar::Null) | Some(RawScalar::Blob(_)) => before,
                Some(_) => Some(OperationError::Refused(ConnectionError::CacheValueKind)),
            },
            _ => before,
        }
    }
}

/// A run reads the clock where the time counts, adds to it the time to live of
/// the value that is stored, and binds that time; it reads a value through the
/// raw handle, with that locked, or else as a row, and gives what it read; it
/// says of a table whether it was created in a transaction, of a deletion
/// whether there was something, and of cleaning up how much there was. It fails
/// with what it met and with nothing else.
pub proof fn law_cache_run_goes_by_the_replies<E>(run: CacheRun<E>, replies: Seq<CacheReply<E>>)
    requires
        process::possible(run, replies),
    ensures
        match process::reached(run, replies) {
            CacheStep::ReadClock => replies.len() == 0 && cache_trouble(run, replies) is None,
            CacheStep::AddTtl { now, ttl } => {
                &&& clock_read(run, replies) == Some(now)
                &&& run.kind == (CacheKind::Store { ttl: Some(ttl) })
                &&& cache_trouble(run, replies) is None
                &&& sum_given(run, replies) is None
            },
            CacheStep::Execute { statement, time } => {
                &&& cache_trouble(run, replies) is None
                &&& statement == statements_run(run, replies)
                &&& time == match run.kind {
                    CacheKind::Store { ttl: Some(_) } => sum_given(run, replies),
                    CacheKind::CleanupExpired => clock_read(run, replies),
                    _ => None,
                }
                &&& run.kind != CacheKind::Get
            },
            CacheStep::Fetch { now } => {
                &&& run.kind == CacheKind::Get && !run.raw
                &&& clock_read(run, replies) == Some(now)
                &&& cache_trouble(run, replies) is None
            },
            CacheStep::LockHandle { now } => {
                &&& run.kind == CacheKind::Get && run.raw
                &&& clock_read(run, replies) == Some(now)
                &&& cache_trouble(run, replies) is None
            },
            CacheStep::FetchRaw { now } => {
                &&& run.kind == CacheKind::Get && run.raw
                &&& replies.last() matches CacheReply::Locked(Ok(_))
                &&& clock_read(run, replies) == Some(now)
                &&& cache_trouble(run, replies) is None
            },
            CacheStep::Finished(Ok(result)) => {
                &&& cache_trouble(run, replies) is None
                &&& match run.kind {
                    CacheKind::Get => match replies.last() {
                        CacheReply::Fetched(Ok(value)) => !run.raw && result == CacheResult::Value(
                            value,
                        ),
                        CacheReply::Scalar(Ok(Some(RawScalar::Blob(value)))) => run.raw && result
                            == CacheResult::Value(Some(value)),
                        CacheReply::Scalar(Ok(_)) => run.raw && result == CacheResult::Value(None),
                        _ => false,
                    },
                    CacheKind::Initialize => result == CacheResult::InitializedInTransaction(
                        run.in_transaction,
                    ),
                    CacheKind::Store { .. } => result == CacheResult::Nothing,
                    CacheKind::Delete => replies.last() matches CacheReply::Changed(Ok(rows))
                        && result == CacheResult::Deleted(rows != 0),
                    CacheKind::CleanupExpired => replies.last() matches CacheReply::Changed(
                        Ok(rows),
                    ) && result == CacheResult::DeletedCount(rows),
                }
            },
            CacheStep::Finished(Err(error)) => match cache_trouble(run, replies) {
                Some(known) => error == known,
                None => {
                    &&& replies.len() == 0
                    &&& error == OperationError::<E>::Refused(ConnectionError::InvalidTtl)
                    &&& run.kind matches CacheKind::Store { ttl: Some(ttl) } && (!floats::finite(
                        ttl,
                    ) || floats::below_zero(ttl))
                },
            },
        },
        match process::reached(run, replies) {
            CacheStep::ReadClock => match run.kind {
                CacheKind::Get | CacheKind::CleanupExpired => true,
                CacheKind::Store { ttl: Some(ttl) } => floats::finite(ttl) && !floats::below_zero(
                    ttl,
                ),
                _ => false,
            },
            _ => true,
        },
    decreases replies.len(),
{
    if replies.len() > 0 {
        law_cache_run_goes_by_the_replies(run, replies.drop_last());
        lemma_cache_course(run, replies.drop_last());
    }
}

/// The values of parameters are those of each of them, in order.
pub proof fn law_bound_values_are_those_of_the_parameters(params: Seq<SqliteParam>, i: int)
    ensures
        bound_values(params).len() == params.len(),
        0 <= i < params.len() ==> match params[i] {
            SqliteParam::Null => bound_values(params)[i] is Null,
            SqliteParam::Int(n) => bound_values(params)[i] == BoundValue::Int(n),
            SqliteParam::Real { bits } => bound_values(params)[i] == (BoundValue::Real { bits }),
            SqliteParam::Text(s) => bound_values(params)[i] == BoundValue::Text(s@),
            SqliteParam::Blob(bytes) => bound_values(params)[i] == BoundValue::Blob(bytes@),
        },
{
}

/// A read binds its key and the time; a value is stored with its key, its bytes
/// and its expiration; a deletion binds its key; and cleaning up binds the time
/// and how much is deleted at most. A time that there is not is NULL.
pub proof fn law_operations_bind_their_values(operation: CacheOperation, time: Option<u64>)
    ensures
        ({
            let moment = match time {
                Some(bits) => BoundValue::Real { bits },
                None => BoundValue::Null,
            };
            match operation {
                CacheOperation::Initialize { .. } => operation.bound(time).len() == 0,
                CacheOperation::Get { key, .. } => operation.bound(time) == seq![
                    BoundValue::Text(key@),
                    moment,
                ],
                CacheOperation::Store { key, value, .. } => operation.bound(time) == seq![
                    BoundValue::Text(key@),
                    BoundValue::Blob(value@),
                    moment,
                ],
                CacheOperation::Delete { key, .. } => operation.bound(time) == seq![
                    BoundValue::Text(key@),
                ],
                CacheOperation::CleanupExpired { limit, .. } => operation.bound(time) == seq![
                    moment,
                    BoundValue::Int(limit),
                ],
            }
        }),
{
}

} // verus!
