//! Fetching one value: the only column of the first row of a query.

use crate::batch;
use crate::batch::{BindCall, SqliteParam};
use crate::codes::{
    SQLITE_BLOB, SQLITE_DONE, SQLITE_FLOAT, SQLITE_INTEGER, SQLITE_MISMATCH, SQLITE_OK, SQLITE_ROW,
    SQLITE_TEXT,
};
use crate::failure::Failure;
use crate::process;
use crate::process::Process;
use crate::text;
use vstd::prelude::*;
use vstd::string::*;

verus! {

/// A value that a scalar query gives.
pub enum RawScalar {
    Null,
    Integer(i64),
    /// A float, by the bits of its IEEE form.
    Real { bits: u64 },
    Text(String),
    Blob(Vec<u8>),
}

/// Reads the bytes of a text value.
pub fn decode_text(bytes: Vec<u8>) -> (out: Result<String, Failure>)
    ensures
        match out {
            Ok(s) => vstd::utf8::valid_utf8(bytes@) && s@ == vstd::utf8::decode_utf8(bytes@),
            Err(failure) => {
                &&& !vstd::utf8::valid_utf8(bytes@)
                &&& failure is NotUtf8
                &&& failure->reason@ == text::utf8_complaint(bytes@)
            },
        },
{
    match text::utf8_string(bytes) {
        Ok(s) => Ok(s),
        Err(reason) => Err(Failure::NotUtf8 { reason }),
    }
}

/// Reads the bytes of a BLOB value: where SQLite points nowhere it is empty.
pub fn blob_bytes(bytes: Option<Vec<u8>>) -> (out: Vec<u8>)
    ensures
        out@ == match bytes {
            Some(b) => b@,
            None => Seq::empty(),
        },
{
    match bytes {
        Some(b) => b,
        None => Vec::new(),
    }
}

/// A scalar query.
pub struct ScalarFetch {
    pub query: String,
    pub params: Vec<SqliteParam>,
    /// Whether only a BLOB or NULL will do.
    pub blob_only: bool,
    /// Whether prepared statements are kept for later use.
    pub caching: bool,
    /// Whether there is no database handle.
    pub null_handle: bool,
}

/// The call that a scalar query waits for.
pub enum ScalarState {
    /// Look the query up among the kept statements.
    LookUp,
    /// Reset a kept statement and clear its bindings before it is used.
    Recycle,
    /// Prepare the query as one statement.
    Prepare,
    /// Read how many parameters the statement takes.
    CountParameters { kept: bool },
    /// Read how many columns the statement has.
    CountColumns { kept: bool },
    /// Offer the statement to the kept ones.
    Keep,
    /// Bind this parameter, counted from 1 by SQLite.
    Bind { kept: bool, column: usize, index: i32, call: BindCall },
    /// Step the statement.
    Step { kept: bool },
    /// Read the storage class of the value.
    ReadClass { kept: bool },
    /// Read the value as an integer.
    ReadInteger { kept: bool },
    /// Read the value as a float.
    ReadReal { kept: bool },
    /// Read the value as text.
    ReadText { kept: bool },
    /// Read the value as bytes.
    ReadBlob { kept: bool },
    /// Read the message that goes with this code of a step.
    Explain { kept: bool, code: i32 },
    /// Reset the statement and clear its bindings; it stays kept.
    Release(Result<Option<RawScalar>, Failure>),
    /// Finalize the statement.
    Finalize(Result<Option<RawScalar>, Failure>),
    /// Read the message that goes with this code of finalizing.
    ExplainFinalize { code: i32 },
    /// No call is left: the value, where there is a row, or what went wrong.
    Finished(Result<Option<RawScalar>, Failure>),
}

/// What a call of a scalar query brings back.
pub enum ScalarReply {
    /// Whether the query was found, or the statement was taken.
    Kept(bool),
    /// That a statement was reset and its bindings were cleared.
    Recycled,
    /// How preparing the statement went.
    Outcome(Result<(), Failure>),
    /// A code, or a count.
    Code(i32),
    /// The code of binding, and the message that goes with it.
    Bound { code: i32, message: String },
    /// An integer value.
    Integer(i64),
    /// A float value.
    Real { bits: u64 },
    /// A text value as `decode_text` reads it, unless SQLite points nowhere.
    Text(Option<Result<String, Failure>>),
    /// A byte value as `blob_bytes` reads it.
    Blob(Vec<u8>),
    /// An error message.
    Message(String),
}

/// Gives a statement back once the result is known.
pub open spec fn closing(
    kept: bool,
    result: Result<Option<RawScalar>, Failure>,
) -> ScalarState {
    if kept {
        ScalarState::Release(result)
    } else {
        ScalarState::Finalize(result)
    }
}

impl ScalarFetch {
    /// What becomes of a value that was read.
    pub open spec fn judged(self, value: RawScalar) -> Result<Option<RawScalar>, Failure> {
        if self.blob_only && !(value is Null || value is Blob) {
            Err(Failure::NotBlob)
        } else {
            Ok(Some(value))
        }
    }

    /// Goes on with the next parameter to bind, or to the step.
    pub open spec fn bind_from(self, kept: bool, column: usize) -> ScalarState {
        if column >= self.params@.len() {
            ScalarState::Step { kept }
        } else {
            match self.params@[column as int].binding() {
                Ok(call) => ScalarState::Bind { kept, column, index: (column + 1) as i32, call },
                Err(failure) => closing(kept, Err(failure)),
            }
        }
    }

    /// Whether the number of every parameter fits the index that SQLite takes.
    pub open spec fn indexable(self) -> bool {
        self.params@.len() <= i32::MAX
    }

    /// Whether a state speaks of parameters that the query has.
    pub open spec fn sound(self, state: ScalarState) -> bool {
        match state {
            ScalarState::CountColumns { .. } | ScalarState::Keep => self.indexable(),
            ScalarState::Bind { column, index, .. } => {
                &&& self.indexable()
                &&& column < self.params@.len()
                &&& index == column + 1
            },
            _ => true,
        }
    }
}

impl Process for ScalarFetch {
    type State = ScalarState;

    type Reply = ScalarReply;

    open spec fn outset(self) -> ScalarState {
        if self.null_handle {
            ScalarState::Finished(Err(Failure::NullHandle))
        } else if self.caching {
            ScalarState::LookUp
        } else {
            match text::nul_in(self.query@) {
                Some(position) => ScalarState::Finished(
                    Err(Failure::NulInScalarQuery { position: position as usize }),
                ),
                None => ScalarState::Prepare,
            }
        }
    }

    open spec fn ended(self, state: ScalarState) -> bool {
        state is Finished
    }

    open spec fn answers(self, state: ScalarState, reply: ScalarReply) -> bool {
        match state {
            ScalarState::LookUp | ScalarState::Keep => reply is Kept,
            ScalarState::Recycle | ScalarState::Release(_) => reply is Recycled,
            ScalarState::Prepare => reply is Outcome,
            ScalarState::CountParameters { .. } => reply is Code && reply->Code_0 >= 0,
            ScalarState::CountColumns { .. }
            | ScalarState::Step { .. }
            | ScalarState::ReadClass { .. }
            | ScalarState::Finalize(_) => reply is Code,
            ScalarState::Bind { .. } => reply is Bound,
            ScalarState::ReadInteger { .. } => reply is Integer,
            ScalarState::ReadReal { .. } => reply is Real,
            ScalarState::ReadText { .. } => reply is Text,
            ScalarState::ReadBlob { .. } => reply is Blob,
            ScalarState::Explain { .. } | ScalarState::ExplainFinalize { .. } => reply is Message,
            ScalarState::Finished(_) => false,
        }
    }

    open spec fn next(self, state: ScalarState, reply: ScalarReply) -> ScalarState {
        match (state, reply) {
            (ScalarState::LookUp, ScalarReply::Kept(found)) => if found {
                ScalarState::Recycle
            } else {
                match text::nul_in(self.query@) {
                    Some(position) => ScalarState::Finished(
                        Err(Failure::NulInScalarQuery { position: position as usize }),
                    ),
                    None => ScalarState::Prepare,
                }
            },
            (ScalarState::Recycle, ScalarReply::Recycled) => ScalarState::CountParameters {
                kept: true,
            },
            (ScalarState::Prepare, ScalarReply::Outcome(outcome)) => match outcome {
                Ok(_) => ScalarState::CountParameters { kept: false },
                Err(failure) => ScalarState::Finished(Err(failure)),
            },
            (ScalarState::CountParameters { kept }, ScalarReply::Code(count)) => if count < 0 {
                state
            } else if self.params@.len() != count {
                closing(
                    kept,
                    Err(
                        Failure::BindingCount {
                            expected: count as usize,
                            provided: self.params@.len() as usize,
                        },
                    ),
                )
            } else {
                ScalarState::CountColumns { kept }
            },
            (ScalarState::CountColumns { kept }, ScalarReply::Code(columns)) => if columns != 1 {
                closing(kept, Err(Failure::ColumnCount { columns }))
            } else if !kept && self.caching {
                ScalarState::Keep
            } else {
                self.bind_from(kept, 0)
            },
            (ScalarState::Keep, ScalarReply::Kept(taken)) => self.bind_from(taken, 0),
            (ScalarState::Bind { kept, column, .. }, ScalarReply::Bound { code, message }) =>
                if code != SQLITE_OK {
                closing(kept, Err(Failure::Reported { code, message }))
            } else {
                self.bind_from(kept, (column + 1) as usize)
            },
            (ScalarState::Step { kept }, ScalarReply::Code(code)) => if code == SQLITE_DONE {
                closing(kept, Ok(None))
            } else if code == SQLITE_ROW {
                ScalarState::ReadClass { kept }
            } else {
                ScalarState::Explain { kept, code }
            },
            (ScalarState::ReadClass { kept }, ScalarReply::Code(class)) => if class
                == SQLITE_INTEGER {
                ScalarState::ReadInteger { kept }
            } else if class == SQLITE_FLOAT {
                ScalarState::ReadReal { kept }
            } else if class == SQLITE_TEXT {
                ScalarState::ReadText { kept }
            } else if class == SQLITE_BLOB {
                ScalarState::ReadBlob { kept }
            } else {
                closing(kept, Ok(Some(RawScalar::Null)))
            },
            (ScalarState::ReadInteger { kept }, ScalarReply::Integer(value)) => closing(
                kept,
                self.judged(RawScalar::Integer(value)),
            ),
            (ScalarState::ReadReal { kept }, ScalarReply::Real { bits }) => closing(
                kept,
                self.judged(RawScalar::Real { bits }),
            ),
            (ScalarState::ReadText { kept }, ScalarReply::Text(value)) => match value {
                None => closing(kept, Ok(Some(RawScalar::Null))),
                Some(Ok(s)) => closing(kept, self.judged(RawScalar::Text(s))),
                Some(Err(failure)) => closing(kept, Err(failure)),
            },
            (ScalarState::ReadBlob { kept }, ScalarReply::Blob(bytes)) => closing(
                kept,
                self.judged(RawScalar::Blob(bytes)),
            ),
            (ScalarState::Explain { kept, code }, ScalarReply::Message(message)) => closing(
                kept,
                Err(Failure::Reported { code, message }),
            ),
            (ScalarState::Release(result), _) => ScalarState::Finished(result),
            (ScalarState::Finalize(result), ScalarReply::Code(code)) => if code != SQLITE_OK
                && result is Ok {
                ScalarState::ExplainFinalize { code }
            } else {
                ScalarState::Finished(result)
            },
            (ScalarState::ExplainFinalize { code }, ScalarReply::Message(message)) =>
                ScalarState::Finished(Err(Failure::Reported { code, message })),
            (state, _) => state,
        }
    }
}

fn give_back(kept: bool, result: Result<Option<RawScalar>, Failure>) -> (out: ScalarState)
    ensures
        out == closing(kept, result),
{
    if kept {
        ScalarState::Release(result)
    } else {
        ScalarState::Finalize(result)
    }
}

impl ScalarFetch {
    fn judge(&self, value: RawScalar) -> (out: Result<Option<RawScalar>, Failure>)
        ensures
            out == self.judged(value),
    {
        let fits = match &value {
            RawScalar::Null | RawScalar::Blob(_) => true,
            _ => !self.blob_only,
        };
        if fits {
            Ok(Some(value))
        } else {
            Err(Failure::NotBlob)
        }
    }

    fn go_on_binding(&self, kept: bool, column: usize) -> (out: ScalarState)
        requires
            self.indexable(),
        ensures
            out == self.bind_from(kept, column),
            self.sound(out),
    {
        if column >= self.params.len() {
            ScalarState::Step { kept }
        } else {
            match self.params[column].bind_call() {
                Ok(call) => ScalarState::Bind { kept, column, index: (column + 1) as i32, call },
                Err(failure) => give_back(kept, Err(failure)),
            }
        }
    }

    fn begin_preparing(&self) -> (out: ScalarState)
        ensures
            out == (match text::nul_in(self.query@) {
                Some(position) => ScalarState::Finished(
                    Err(Failure::NulInScalarQuery { position: position as usize }),
                ),
                None => ScalarState::Prepare,
            }),
    {
        match text::nul_position(self.query.as_str()) {
            Some(position) => ScalarState::Finished(Err(Failure::NulInScalarQuery { position })),
            None => ScalarState::Prepare,
        }
    }

    /// The first call to make.
    pub fn start(&self) -> (out: ScalarState)
        ensures
            out == self.outset(),
            self.sound(out),
    {
        if self.null_handle {
            ScalarState::Finished(Err(Failure::NullHandle))
        } else if self.caching {
            ScalarState::LookUp
        } else {
            self.begin_preparing()
        }
    }

    /// The call to make behind a reply.
    pub fn resume(&self, state: ScalarState, reply: ScalarReply) -> (out: ScalarState)
        requires
            self.sound(state),
        ensures
            out == self.next(state, reply),
            self.sound(out),
    {
        let provided: usize = self.params.len();
        match (state, reply) {
            (ScalarState::LookUp, ScalarReply::Kept(found)) => if found {
                ScalarState::Recycle
            } else {
                self.begin_preparing()
            },
            (ScalarState::Recycle, ScalarReply::Recycled) => ScalarState::CountParameters {
                kept: true,
            },
            (ScalarState::Prepare, ScalarReply::Outcome(outcome)) => match outcome {
                Ok(_) => ScalarState::CountParameters { kept: false },
                Err(failure) => ScalarState::Finished(Err(failure)),
            },
            (ScalarState::CountParameters { kept }, ScalarReply::Code(count)) => if count < 0 {
                ScalarState::CountParameters { kept }
            } else if provided != count as usize {
                give_back(kept, Err(Failure::BindingCount { expected: count as usize, provided }))
            } else {
                ScalarState::CountColumns { kept }
            },
            (ScalarState::CountColumns { kept }, ScalarReply::Code(columns)) => if columns != 1 {
                give_back(kept, Err(Failure::ColumnCount { columns }))
            } else if !kept && self.caching {
                ScalarState::Keep
            } else {
                self.go_on_binding(kept, 0)
            },
            (ScalarState::Keep, ScalarReply::Kept(taken)) => self.go_on_binding(taken, 0),
            (ScalarState::Bind { kept, column, .. }, ScalarReply::Bound { code, message }) =>
                if code != SQLITE_OK {
                give_back(kept, Err(Failure::Reported { code, message }))
            } else {
                self.go_on_binding(kept, column + 1)
            },
            (ScalarState::Step { kept }, ScalarReply::Code(code)) => if code == SQLITE_DONE {
                give_back(kept, Ok(None))
            } else if code == SQLITE_ROW {
                ScalarState::ReadClass { kept }
            } else {
                ScalarState::Explain { kept, code }
            },
            (ScalarState::ReadClass { kept }, ScalarReply::Code(class)) => if class
                == SQLITE_INTEGER {
                ScalarState::ReadInteger { kept }
            } else if class == SQLITE_FLOAT {
                ScalarState::ReadReal { kept }
            } else if class == SQLITE_TEXT {
                ScalarState::ReadText { kept }
            } else if class == SQLITE_BLOB {
                ScalarState::ReadBlob { kept }
            } else {
                give_back(kept, Ok(Some(RawScalar::Null)))
            },
            (ScalarState::ReadInteger { kept }, ScalarReply::Integer(value)) => give_back(
                kept,
                self.judge(RawScalar::Integer(value)),
            ),
            (ScalarState::ReadReal { kept }, ScalarReply::Real { bits }) => give_back(
                kept,
                self.judge(RawScalar::Real { bits }),
            ),
            (ScalarState::ReadText { kept }, ScalarReply::Text(value)) => match value {
                None => give_back(kept, Ok(Some(RawScalar::Null))),
                Some(Ok(s)) => give_back(kept, self.judge(RawScalar::Text(s))),
                Some(Err(failure)) => give_back(kept, Err(failure)),
            },
            (ScalarState::ReadBlob { kept }, ScalarReply::Blob(bytes)) => give_back(
                kept,
                self.judge(RawScalar::Blob(bytes)),
            ),
            (ScalarState::Explain { kept, code }, ScalarReply::Message(message)) => give_back(
                kept,
                Err(Failure::Reported { code, message }),
            ),
            (ScalarState::Release(result), _) => ScalarState::Finished(result),
            (ScalarState::Finalize(result), ScalarReply::Code(code)) => if code != SQLITE_OK
                && result.is_ok() {
                ScalarState::ExplainFinalize { code }
            } else {
                ScalarState::Finished(result)
            },
            (ScalarState::ExplainFinalize { code }, ScalarReply::Message(message)) =>
                ScalarState::Finished(Err(Failure::Reported { code, message })),
            (state, _) => state,
        }
    }
}

// ---------------------------------------------------------------- laws

/// Whether a statement has been prepared that is neither kept nor finalized.
pub open spec fn owes_finalize(fetch: ScalarFetch, replies: Seq<ScalarReply>) -> bool
    decreases replies.len(),
{
    if replies.len() == 0 {
        false
    } else {
        match process::reached(fetch, replies.drop_last()) {
            ScalarState::Prepare => replies.last()->Outcome_0 is Ok,
            ScalarState::Keep => !replies.last()->Kept_0,
            ScalarState::Finalize(_) => false,
            _ => owes_finalize(fetch, replies.drop_last()),
        }
    }
}

/// Whether a kept statement is in use and has not been reset since.
pub open spec fn owes_reset(fetch: ScalarFetch, replies: Seq<ScalarReply>) -> bool
    decreases replies.len(),
{
    if replies.len() == 0 {
        false
    } else {
        match process::reached(fetch, replies.drop_last()) {
            ScalarState::LookUp | ScalarState::Keep => replies.last()->Kept_0,
            ScalarState::Release(_) => false,
            _ => owes_reset(fetch, replies.drop_last()),
        }
    }
}

/// Whether a state uses a statement that is to be finalized.
spec fn uses_own(state: ScalarState) -> bool {
    match state {
        ScalarState::CountParameters { kept }
        | ScalarState::CountColumns { kept }
        | ScalarState::Bind { kept, .. }
        | ScalarState::Step { kept }
        | ScalarState::ReadClass { kept }
        | ScalarState::ReadInteger { kept }
        | ScalarState::ReadReal { kept }
        | ScalarState::ReadText { kept }
        | ScalarState::ReadBlob { kept }
        | ScalarState::Explain { kept, .. } => !kept,
        ScalarState::Keep | ScalarState::Finalize(_) => true,
        _ => false,
    }
}

/// Whether a state uses a kept statement.
spec fn uses_kept(state: ScalarState) -> bool {
    match state {
        ScalarState::CountParameters { kept }
        | ScalarState::CountColumns { kept }
        | ScalarState::Bind { kept, .. }
        | ScalarState::Step { kept }
        | ScalarState::ReadClass { kept }
        | ScalarState::ReadInteger { kept }
        | ScalarState::ReadReal { kept }
        | ScalarState::ReadText { kept }
        | ScalarState::ReadBlob { kept }
        | ScalarState::Explain { kept, .. } => kept,
        ScalarState::Recycle | ScalarState::Release(_) => true,
        _ => false,
    }
}

proof fn lemma_scalar_uses(fetch: ScalarFetch, replies: Seq<ScalarReply>)
    requires
        process::possible(fetch, replies),
    ensures
        owes_finalize(fetch, replies) == uses_own(process::reached(fetch, replies)),
        owes_reset(fetch, replies) == uses_kept(process::reached(fetch, replies)),
    decreases replies.len(),
{
    if replies.len() > 0 {
        lemma_scalar_uses(fetch, replies.drop_last());
    }
}

/// A scalar query gives back what it takes: once it has ended, a statement
/// that it prepared is finalized or kept, and a kept statement is reset, with
/// its bindings cleared.
pub proof fn law_scalar_gives_back(fetch: ScalarFetch, replies: Seq<ScalarReply>)
    requires
        process::possible(fetch, replies),
        fetch.ended(process::reached(fetch, replies)),
    ensures
        !owes_finalize(fetch, replies),
        !owes_reset(fetch, replies),
{
    lemma_scalar_uses(fetch, replies);
}

/// Only a statement of its own is finalized, and only a kept one is released.
pub proof fn law_scalar_gives_back_rightly(fetch: ScalarFetch, replies: Seq<ScalarReply>)
    requires
        process::possible(fetch, replies),
    ensures
        process::reached(fetch, replies) is Finalize ==> owes_finalize(fetch, replies)
            && !owes_reset(fetch, replies),
        process::reached(fetch, replies) is Release ==> owes_reset(fetch, replies)
            && !owes_finalize(fetch, replies),
{
    lemma_scalar_uses(fetch, replies);
}

/// Whether a reply lets the query go on to a value.
pub open spec fn scalar_favourable(
    fetch: ScalarFetch,
    state: ScalarState,
    reply: ScalarReply,
) -> bool {
    match state {
        ScalarState::LookUp => !reply->Kept_0 ==> text::nul_in(fetch.query@) is None,
        ScalarState::Prepare => reply->Outcome_0 is Ok,
        ScalarState::CountParameters { .. } => reply->Code_0 == fetch.params@.len(),
        ScalarState::CountColumns { .. } => reply->Code_0 == 1,
        ScalarState::Bind { .. } => reply->Bound_code == SQLITE_OK,
        ScalarState::Step { .. } => reply->Code_0 == SQLITE_ROW || reply->Code_0 == SQLITE_DONE,
        ScalarState::ReadInteger { .. } | ScalarState::ReadReal { .. } => !fetch.blob_only,
        ScalarState::ReadText { .. } => match reply->Text_0 {
            None => true,
            Some(decoded) => decoded is Ok && !fetch.blob_only,
        },
        ScalarState::Finalize(_) => reply->Code_0 == SQLITE_OK,
        ScalarState::Recycle
        | ScalarState::Keep
        | ScalarState::ReadClass { .. }
        | ScalarState::ReadBlob { .. }
        | ScalarState::Release(_) => true,
        ScalarState::Explain { .. }
        | ScalarState::ExplainFinalize { .. }
        | ScalarState::Finished(_) => false,
    }
}

/// Whether each reply lets the query go on to a value.
pub open spec fn scalar_all_favourable(fetch: ScalarFetch, replies: Seq<ScalarReply>) -> bool
    decreases replies.len(),
{
    replies.len() > 0 ==> {
        &&& scalar_all_favourable(fetch, replies.drop_last())
        &&& scalar_favourable(
            fetch,
            process::reached(fetch, replies.drop_last()),
            replies.last(),
        )
    }
}

/// Whether every parameter is short enough to be bound.
pub open spec fn scalar_bindable(fetch: ScalarFetch) -> bool {
    forall|column: int|
        0 <= column < fetch.params@.len() ==> (#[trigger] fetch.params@[column]).binding() is Ok
}

/// Whether the query can still succeed from this state.
spec fn scalar_healthy(state: ScalarState) -> bool {
    match state {
        ScalarState::Explain { .. } | ScalarState::ExplainFinalize { .. } => false,
        ScalarState::Release(result)
        | ScalarState::Finalize(result)
        | ScalarState::Finished(result) => result is Ok,
        _ => true,
    }
}

/// Whether every parameter that the state has behind it can be bound.
spec fn scalar_bound_up_to(fetch: ScalarFetch, state: ScalarState) -> bool {
    match state {
        ScalarState::Bind { column, .. } => forall|c: int|
            0 <= c <= column ==> (#[trigger] fetch.params@[c]).binding() is Ok,
        ScalarState::Step { .. }
        | ScalarState::ReadClass { .. }
        | ScalarState::ReadInteger { .. }
        | ScalarState::ReadReal { .. }
        | ScalarState::ReadText { .. }
        | ScalarState::ReadBlob { .. }
        | ScalarState::Release(_)
        | ScalarState::Finalize(_)
        | ScalarState::Finished(_) => scalar_bindable(fetch),
        _ => true,
    }
}

proof fn lemma_scalar_course(fetch: ScalarFetch, replies: Seq<ScalarReply>)
    requires
        process::possible(fetch, replies),
        !(fetch.outset() is Finished),
    ensures
        fetch.sound(process::reached(fetch, replies)),
        scalar_healthy(process::reached(fetch, replies)) ==> scalar_all_favourable(fetch, replies)
            && scalar_bound_up_to(fetch, process::reached(fetch, replies)),
        scalar_bindable(fetch) && scalar_all_favourable(fetch, replies) ==> scalar_healthy(
            process::reached(fetch, replies),
        ),
    decreases replies.len(),
{
    if replies.len() > 0 {
        lemma_scalar_course(fetch, replies.drop_last());
        assert(fetch.params.len() == fetch.params@.len());
    }
}

/// A scalar query that begins its work succeeds exactly where every reply is
/// favourable and every parameter can be bound.
pub proof fn law_scalar_success(fetch: ScalarFetch, replies: Seq<ScalarReply>)
    requires
        process::possible(fetch, replies),
        !(fetch.outset() is Finished),
        fetch.ended(process::reached(fetch, replies)),
    ensures
        process::reached(fetch, replies)->Finished_0 is Ok <==> scalar_all_favourable(
            fetch,
            replies,
        ) && scalar_bindable(fetch),
{
    lemma_scalar_course(fetch, replies);
}

/// Where only a BLOB will do, a scalar query gives a BLOB, NULL, no row, or an
/// error, and never another value.
pub proof fn law_blob_only(fetch: ScalarFetch, replies: Seq<ScalarReply>)
    requires
        process::possible(fetch, replies),
        fetch.blob_only,
    ensures
        match process::reached(fetch, replies) {
            ScalarState::Release(Ok(Some(value)))
            | ScalarState::Finalize(Ok(Some(value)))
            | ScalarState::Finished(Ok(Some(value))) => value is Null || value is Blob,
            _ => true,
        },
    decreases replies.len(),
{
    if replies.len() > 0 {
        law_blob_only(fetch, replies.drop_last());
    }
}

/// The same query where only a BLOB or NULL will do.
pub open spec fn blob_only(fetch: ScalarFetch) -> ScalarFetch {
    ScalarFetch { blob_only: true, ..fetch }
}

/// Whether the value is one that the limit to BLOBs refuses.
pub open spec fn refused(found: Option<RawScalar>) -> bool {
    match found {
        Some(value) => !(value is Null || value is Blob),
        None => false,
    }
}

/// What the limit to BLOBs makes of a result.
pub open spec fn limited(
    result: Result<Option<RawScalar>, Failure>,
) -> Result<Option<RawScalar>, Failure> {
    match result {
        Ok(found) => if refused(found) {
            Err(Failure::NotBlob)
        } else {
            result
        },
        Err(_) => result,
    }
}

/// What the limit to BLOBs makes of a state.
spec fn limited_state(state: ScalarState) -> ScalarState {
    match state {
        ScalarState::Release(result) => ScalarState::Release(limited(result)),
        ScalarState::Finalize(result) => ScalarState::Finalize(limited(result)),
        ScalarState::Finished(result) => ScalarState::Finished(limited(result)),
        _ => state,
    }
}

/// Whether the last reply says that finalizing failed behind a value that the
/// limit to BLOBs refuses.
pub open spec fn lost_refused_value(fetch: ScalarFetch, replies: Seq<ScalarReply>) -> bool {
    &&& replies.len() > 0
    &&& process::reached(fetch, replies) is ExplainFinalize
    &&& match process::reached(fetch, replies.drop_last()) {
        ScalarState::Finalize(Ok(found)) => refused(found),
        _ => false,
    }
}

proof fn lemma_blob_only_step(fetch: ScalarFetch, state: ScalarState, reply: ScalarReply)
    requires
        !fetch.blob_only,
        fetch.answers(state, reply),
    ensures
        blob_only(fetch).answers(limited_state(state), reply),
        blob_only(fetch).next(limited_state(state), reply) == match (
            state,
            fetch.next(state, reply),
        ) {
            (ScalarState::Finalize(Ok(found)), ScalarState::ExplainFinalize { code }) => if refused(
                found,
            ) {
                ScalarState::Finished(Err(Failure::NotBlob))
            } else {
                ScalarState::ExplainFinalize { code }
            },
            (_, next) => limited_state(next),
        },
{
}

proof fn lemma_explained_is_finished(fetch: ScalarFetch, replies: Seq<ScalarReply>)
    requires
        process::possible(fetch, replies),
        replies.len() > 0,
        process::reached(fetch, replies.drop_last()) is ExplainFinalize,
    ensures
        process::reached(fetch, replies) is Finished,
{
}

proof fn lemma_blob_only_course(fetch: ScalarFetch, replies: Seq<ScalarReply>)
    requires
        process::possible(fetch, replies),
        !fetch.blob_only,
    ensures
        !(replies.len() > 0 && lost_refused_value(fetch, replies.drop_last())) ==> {
            &&& process::possible(blob_only(fetch), replies)
            &&& process::reached(blob_only(fetch), replies) == if lost_refused_value(
                fetch,
                replies,
            ) {
                ScalarState::Finished(Err(Failure::NotBlob))
            } else {
                limited_state(process::reached(fetch, replies))
            }
        },
    decreases replies.len(),
{
    if replies.len() > 0 {
        let before = replies.drop_last();
        lemma_blob_only_course(fetch, before);
        if before.len() > 0 && lost_refused_value(fetch, before.drop_last()) {
            lemma_explained_is_finished(fetch, before);
        }
        lemma_blob_only_step(fetch, process::reached(fetch, before), replies.last());
    }
}

/// The limit to BLOBs changes one thing: where the same calls answer in the
/// same way, an integer, a float or a text becomes an error with the code of a
/// mismatch, and no row, NULL, a BLOB or an error stays what it is. Where
/// finalizing fails behind a value that is refused, the refusal is the error,
/// and the message of finalizing is not asked for.
pub proof fn law_blob_only_refuses_other_values(fetch: ScalarFetch, replies: Seq<ScalarReply>)
    requires
        process::possible(fetch, replies),
        !fetch.blob_only,
        fetch.ended(process::reached(fetch, replies)),
    ensures
        Failure::NotBlob.spec_code() == SQLITE_MISMATCH,
        Failure::NotBlob.spec_message() == "raw blob queries must return a BLOB or NULL"@,
        if replies.len() > 0 && lost_refused_value(fetch, replies.drop_last()) {
            &&& process::possible(blob_only(fetch), replies.drop_last())
            &&& process::reached(blob_only(fetch), replies.drop_last()) == ScalarState::Finished(
                Err(Failure::NotBlob),
            )
        } else {
            &&& process::possible(blob_only(fetch), replies)
            &&& process::reached(blob_only(fetch), replies) == ScalarState::Finished(
                limited(process::reached(fetch, replies)->Finished_0),
            )
        },
{
    lemma_blob_only_course(fetch, replies);
    if replies.len() > 0 && lost_refused_value(fetch, replies.drop_last()) {
        let before = replies.drop_last();
        lemma_blob_only_course(fetch, before);
        if before.len() > 0 && lost_refused_value(fetch, before.drop_last()) {
            lemma_explained_is_finished(fetch, before);
        }
    }
}

/// Whether a state waits for what the statement itself says.
pub open spec fn asks_statement(state: ScalarState) -> bool {
    match state {
        ScalarState::CountParameters { .. }
        | ScalarState::CountColumns { .. }
        | ScalarState::Bind { .. }
        | ScalarState::Step { .. }
        | ScalarState::ReadClass { .. }
        | ScalarState::ReadInteger { .. }
        | ScalarState::ReadReal { .. }
        | ScalarState::ReadText { .. }
        | ScalarState::ReadBlob { .. }
        | ScalarState::Explain { .. } => true,
        _ => false,
    }
}

/// What the statement itself has said, without the replies on how it was come
/// by and how it was given back.
pub open spec fn said(fetch: ScalarFetch, replies: Seq<ScalarReply>) -> Seq<ScalarReply>
    decreases replies.len(),
{
    if replies.len() == 0 {
        Seq::empty()
    } else {
        let before = said(fetch, replies.drop_last());
        if asks_statement(process::reached(fetch, replies.drop_last())) {
            before.push(replies.last())
        } else {
            before
        }
    }
}

/// Where the query stands on a kept statement that has said this.
spec fn heard(fetch: ScalarFetch, answers: Seq<ScalarReply>) -> ScalarState
    decreases answers.len(),
{
    if answers.len() == 0 {
        ScalarState::CountParameters { kept: true }
    } else {
        fetch.next(heard(fetch, answers.drop_last()), answers.last())
    }
}

/// The same state on a kept statement.
spec fn on_kept(fetch: ScalarFetch, state: ScalarState) -> ScalarState {
    match state {
        ScalarState::CountParameters { .. } => ScalarState::CountParameters { kept: true },
        ScalarState::CountColumns { .. } => ScalarState::CountColumns { kept: true },
        ScalarState::Keep => fetch.bind_from(true, 0),
        ScalarState::Bind { kept, column, index, call } => ScalarState::Bind {
            kept: true,
            column,
            index,
            call,
        },
        ScalarState::Step { .. } => ScalarState::Step { kept: true },
        ScalarState::ReadClass { .. } => ScalarState::ReadClass { kept: true },
        ScalarState::ReadInteger { .. } => ScalarState::ReadInteger { kept: true },
        ScalarState::ReadReal { .. } => ScalarState::ReadReal { kept: true },
        ScalarState::ReadText { .. } => ScalarState::ReadText { kept: true },
        ScalarState::ReadBlob { .. } => ScalarState::ReadBlob { kept: true },
        ScalarState::Explain { kept, code } => ScalarState::Explain { kept: true, code },
        ScalarState::Release(result)
        | ScalarState::Finalize(result)
        | ScalarState::Finished(result) => ScalarState::Release(result),
        _ => state,
    }
}

/// Whether finalizing has failed and its message is the error.
pub open spec fn finalizing_failed(fetch: ScalarFetch, replies: Seq<ScalarReply>) -> bool {
    replies.len() > 0 && process::reached(fetch, replies.drop_last()) is ExplainFinalize
}

proof fn lemma_heard(fetch: ScalarFetch, replies: Seq<ScalarReply>)
    requires
        process::possible(fetch, replies),
    ensures
        match process::reached(fetch, replies) {
            ScalarState::LookUp | ScalarState::Recycle | ScalarState::Prepare => said(
                fetch,
                replies,
            ).len() == 0,
            ScalarState::ExplainFinalize { .. } => true,
            ScalarState::Finished(_) => said(fetch, replies).len() == 0 || finalizing_failed(
                fetch,
                replies,
            ) || on_kept(fetch, process::reached(fetch, replies)) == heard(
                fetch,
                said(fetch, replies),
            ),
            state => on_kept(fetch, state) == heard(fetch, said(fetch, replies)),
        },
    decreases replies.len(),
{
    if replies.len() > 0 {
        let before = replies.drop_last();
        lemma_heard(fetch, before);
        let answers = said(fetch, replies);
        if asks_statement(process::reached(fetch, before)) {
            assert(answers.drop_last() =~= said(fetch, before));
        }
    }
}

proof fn lemma_same_heard(fetch: ScalarFetch, other: ScalarFetch, answers: Seq<ScalarReply>)
    requires
        fetch.params == other.params,
        fetch.blob_only == other.blob_only,
    ensures
        heard(fetch, answers) == heard(other, answers),
        !uses_own(heard(fetch, answers)),
        match heard(fetch, answers) {
            ScalarState::Release(_) | ScalarState::Finished(_) => true,
            state => asks_statement(state),
        },
    decreases answers.len(),
{
    if answers.len() > 0 {
        lemma_same_heard(fetch, other, answers.drop_last());
    }
}

/// A kept statement gives what a fresh one gives: however two runs of one query
/// come by their statement and give it back, with statements kept or not, they
/// end with the same result where the statement says the same to both and
/// finalizing does not fail.
pub proof fn law_kept_statement_gives_the_same(
    fetch: ScalarFetch,
    caching: bool,
    replies: Seq<ScalarReply>,
    others: Seq<ScalarReply>,
)
    requires
        process::possible(fetch, replies),
        process::possible(ScalarFetch { caching, ..fetch }, others),
        fetch.ended(process::reached(fetch, replies)),
        fetch.ended(process::reached(ScalarFetch { caching, ..fetch }, others)),
        said(fetch, replies).len() > 0,
        said(fetch, replies) == said(ScalarFetch { caching, ..fetch }, others),
        !finalizing_failed(fetch, replies),
        !finalizing_failed(ScalarFetch { caching, ..fetch }, others),
    ensures
        process::reached(fetch, replies) == process::reached(
            ScalarFetch { caching, ..fetch },
            others,
        ),
{
    let other = ScalarFetch { caching, ..fetch };
    lemma_heard(fetch, replies);
    lemma_heard(other, others);
    lemma_same_heard(fetch, other, said(fetch, replies));
}

/// Whether a kept statement has been reset, with its bindings cleared, since it
/// was found.
pub open spec fn recycled(fetch: ScalarFetch, replies: Seq<ScalarReply>) -> bool
    decreases replies.len(),
{
    replies.len() > 0 && {
        ||| process::reached(fetch, replies.drop_last()) is Recycle
        ||| recycled(fetch, replies.drop_last())
    }
}

/// A kept statement is used clean: whatever an earlier query has left in it, it
/// is reset, and its bindings are cleared, before it is asked anything.
pub proof fn law_kept_statement_is_used_clean(fetch: ScalarFetch, replies: Seq<ScalarReply>)
    requires
        process::possible(fetch, replies),
        replies.len() > 0,
        replies[0] == ScalarReply::Kept(true),
    ensures
        asks_statement(process::reached(fetch, replies)) ==> recycled(fetch, replies),
    decreases replies.len(),
{
    let before = replies.drop_last();
    if before.len() > 0 {
        assert(before[0] == replies[0]);
        law_kept_statement_is_used_clean(fetch, before);
        lemma_found_course(fetch, before);
    } else {
        assert(process::reached(fetch, before) == fetch.outset());
    }
}

proof fn lemma_found_course(fetch: ScalarFetch, replies: Seq<ScalarReply>)
    requires
        process::possible(fetch, replies),
        replies.len() > 0,
        replies[0] == ScalarReply::Kept(true),
    ensures
        match process::reached(fetch, replies) {
            ScalarState::LookUp | ScalarState::Prepare | ScalarState::Keep => false,
            state => !uses_own(state),
        },
    decreases replies.len(),
{
    let before = replies.drop_last();
    if before.len() > 0 {
        assert(before[0] == replies[0]);
        lemma_found_course(fetch, before);
    } else {
        assert(process::reached(fetch, before) == fetch.outset());
    }
}

/// A query that is not among the kept statements goes on as if none were kept.
pub proof fn law_missed_query_is_prepared(fetch: ScalarFetch)
    requires
        fetch.caching,
        !fetch.null_handle,
    ensures
        process::reached(fetch, seq![ScalarReply::Kept(false)]) == (ScalarFetch {
            caching: false,
            ..fetch
        }).outset(),
{
    let replies = seq![ScalarReply::Kept(false)];
    assert(replies.drop_last().len() == 0);
    assert(process::reached(fetch, replies.drop_last()) == ScalarState::LookUp);
}

/// A bound on the calls that a scalar query has left to make.
pub open spec fn calls_left(fetch: ScalarFetch, state: ScalarState) -> int {
    let params = fetch.params@.len() as int;
    match state {
        ScalarState::LookUp => params + 15,
        ScalarState::Recycle | ScalarState::Prepare => params + 14,
        ScalarState::CountParameters { .. } => params + 13,
        ScalarState::CountColumns { .. } => params + 12,
        ScalarState::Keep => params + 11,
        ScalarState::Bind { column, .. } => if column < params {
            params - column + 9
        } else {
            9
        },
        ScalarState::Step { .. } => 8,
        ScalarState::ReadClass { .. } => 7,
        ScalarState::ReadInteger { .. }
        | ScalarState::ReadReal { .. }
        | ScalarState::ReadText { .. }
        | ScalarState::ReadBlob { .. }
        | ScalarState::Explain { .. } => 6,
        ScalarState::Release(_) | ScalarState::Finalize(_) => 3,
        ScalarState::ExplainFinalize { .. } => 2,
        ScalarState::Finished(_) => 0,
    }
}

/// With every reply the bound on the calls that are left goes down, so that a
/// scalar query comes to its end.
pub proof fn law_scalar_ends(fetch: ScalarFetch, state: ScalarState, reply: ScalarReply)
    requires
        fetch.sound(state),
        fetch.answers(state, reply),
    ensures
        0 <= calls_left(fetch, fetch.next(state, reply)) < calls_left(fetch, state),
{
}

// ---------------------------------------------------------------- what was read

/// What SQLite has answered a scalar query.
pub ghost struct ScalarLedger {
    /// Whether the query was found among the kept statements.
    pub found: Option<bool>,
    /// Whether the statement was offered to the kept ones.
    pub offered: bool,
    /// The bindings that were taken: column, index and call.
    pub bound: Seq<(usize, i32, BindCall)>,
    /// The code of the last step.
    pub stepped: Option<i32>,
    /// The storage class of the value.
    pub class: Option<i32>,
    /// The value as it was read.
    pub value: Option<RawScalar>,
    /// What fails the query.
    pub trouble: Option<Failure>,
}

/// What SQLite has answered once these replies have come back.
pub open spec fn scalar_ledger(fetch: ScalarFetch, replies: Seq<ScalarReply>) -> ScalarLedger
    decreases replies.len(),
{
    if replies.len() == 0 {
        ScalarLedger {
            found: None,
            offered: false,
            bound: Seq::empty(),
            stepped: None,
            class: None,
            value: None,
            trouble: None,
        }
    } else {
        let ledger = scalar_ledger(fetch, replies.drop_last());
        match (process::reached(fetch, replies.drop_last()), replies.last()) {
            (ScalarState::LookUp, ScalarReply::Kept(found)) => ScalarLedger {
                found: Some(found),
                ..ledger
            },
            (ScalarState::Keep, _) => ScalarLedger { offered: true, ..ledger },
            (ScalarState::Prepare, ScalarReply::Outcome(Err(failure))) => ScalarLedger {
                trouble: Some(failure),
                ..ledger
            },
            (ScalarState::CountParameters { .. }, ScalarReply::Code(count)) => if count
                != fetch.params@.len() {
                ScalarLedger {
                    trouble: Some(
                        Failure::BindingCount {
                            expected: count as usize,
                            provided: fetch.params.len(),
                        },
                    ),
                    ..ledger
                }
            } else {
                ledger
            },
            (ScalarState::CountColumns { .. }, ScalarReply::Code(columns)) => if columns != 1 {
                ScalarLedger { trouble: Some(Failure::ColumnCount { columns }), ..ledger }
            } else {
                ledger
            },
            (
                ScalarState::Bind { column, index, call, .. },
                ScalarReply::Bound { code, message },
            ) => if code == SQLITE_OK {
                ScalarLedger { bound: ledger.bound.push((column, index, call)), ..ledger }
            } else {
                ScalarLedger { trouble: Some(Failure::Reported { code, message }), ..ledger }
            },
            (ScalarState::Step { .. }, ScalarReply::Code(code)) => ScalarLedger {
                stepped: Some(code),
                ..ledger
            },
            (ScalarState::ReadClass { .. }, ScalarReply::Code(class)) => ScalarLedger {
                class: Some(class),
                ..ledger
            },
            (ScalarState::ReadInteger { .. }, ScalarReply::Integer(value)) => ScalarLedger {
                value: Some(RawScalar::Integer(value)),
                ..ledger
            },
            (ScalarState::ReadReal { .. }, ScalarReply::Real { bits }) => ScalarLedger {
                value: Some(RawScalar::Real { bits }),
                ..ledger
            },
            (ScalarState::ReadText { .. }, ScalarReply::Text(Some(Ok(value)))) => ScalarLedger {
                value: Some(RawScalar::Text(value)),
                ..ledger
            },
            (ScalarState::ReadText { .. }, ScalarReply::Text(Some(Err(failure)))) => ScalarLedger {
                trouble: Some(failure),
                ..ledger
            },
            (ScalarState::ReadBlob { .. }, ScalarReply::Blob(value)) => ScalarLedger {
                value: Some(RawScalar::Blob(value)),
                ..ledger
            },
            (
                ScalarState::Explain { code, .. } | ScalarState::ExplainFinalize { code },
                ScalarReply::Message(message),
            ) => ScalarLedger { trouble: Some(Failure::Reported { code, message }), ..ledger },
            _ => ledger,
        }
    }
}

/// Whether the first parameters, so many of them, have been bound: one binding
/// each, in order, with the index that SQLite counts from 1 and with exactly
/// the value.
pub open spec fn parameters_bound(
    fetch: ScalarFetch,
    count: int,
    bound: Seq<(usize, i32, BindCall)>,
) -> bool {
    &&& bound.len() == count
    &&& forall|c: int|
        0 <= c < count ==> {
            &&& (#[trigger] bound[c]).0 == c
            &&& bound[c].1 == c + 1
            &&& batch::hands_over(fetch.params@[c], bound[c].2)
        }
}

/// A scalar query steps its statement only once every parameter has been
/// bound, each with exactly its value under the index behind its column, and
/// binds none besides.
pub proof fn law_scalar_binds_each_parameter(fetch: ScalarFetch, replies: Seq<ScalarReply>)
    requires
        process::possible(fetch, replies),
    ensures
        match process::reached(fetch, replies) {
            ScalarState::LookUp
            | ScalarState::Recycle
            | ScalarState::Prepare
            | ScalarState::CountParameters { .. }
            | ScalarState::CountColumns { .. }
            | ScalarState::Keep => scalar_ledger(fetch, replies).bound.len() == 0,
            ScalarState::Bind { column, index, call, .. } => {
                &&& column < fetch.params@.len()
                &&& index == column + 1
                &&& batch::hands_over(fetch.params@[column as int], call)
                &&& parameters_bound(fetch, column as int, scalar_ledger(fetch, replies).bound)
            },
            ScalarState::Step { .. }
            | ScalarState::ReadClass { .. }
            | ScalarState::ReadInteger { .. }
            | ScalarState::ReadReal { .. }
            | ScalarState::ReadText { .. }
            | ScalarState::ReadBlob { .. }
            | ScalarState::Explain { .. } => parameters_bound(
                fetch,
                fetch.params@.len() as int,
                scalar_ledger(fetch, replies).bound,
            ),
            _ => true,
        },
    decreases replies.len(),
{
    if replies.len() > 0 {
        assert(!(fetch.outset() is Finished)) by {
            lemma_not_ended_at_outset(fetch, replies);
        }
        lemma_scalar_course(fetch, replies.drop_last());
        lemma_scalar_course(fetch, replies);
        law_scalar_binds_each_parameter(fetch, replies.drop_last());
        assert(fetch.params.len() == fetch.params@.len());
    }
}

proof fn lemma_not_ended_at_outset(fetch: ScalarFetch, replies: Seq<ScalarReply>)
    requires
        process::possible(fetch, replies),
        replies.len() > 0,
    ensures
        !(fetch.outset() is Finished),
    decreases replies.len(),
{
    if replies.len() > 1 {
        lemma_not_ended_at_outset(fetch, replies.drop_last());
    }
}

/// The read behind the storage class is the one for that class: integer, float,
/// text and BLOB are the classes 1 to 4. It follows a step that gave a row.
pub proof fn law_scalar_reads_by_class(fetch: ScalarFetch, replies: Seq<ScalarReply>)
    requires
        process::possible(fetch, replies),
    ensures
        match process::reached(fetch, replies) {
            ScalarState::ReadClass { .. } => replies.last() == ScalarReply::Code(SQLITE_ROW),
            ScalarState::ReadInteger { .. } => replies.last() == ScalarReply::Code(1),
            ScalarState::ReadReal { .. } => replies.last() == ScalarReply::Code(2),
            ScalarState::ReadText { .. } => replies.last() == ScalarReply::Code(3),
            ScalarState::ReadBlob { .. } => replies.last() == ScalarReply::Code(4),
            _ => true,
        },
        replies.len() > 0 && process::reached(fetch, replies.drop_last()) is ReadClass
            && 1 <= replies.last()->Code_0 <= 4 ==> match process::reached(fetch, replies) {
            ScalarState::ReadInteger { .. } => replies.last()->Code_0 == 1,
            ScalarState::ReadReal { .. } => replies.last()->Code_0 == 2,
            ScalarState::ReadText { .. } => replies.last()->Code_0 == 3,
            ScalarState::ReadBlob { .. } => replies.last()->Code_0 == 4,
            _ => false,
        },
{
}

/// What a query that met nothing wrong has to give: nothing where its step gave
/// no row, and otherwise the value that was read, or NULL where the class is
/// none of a value or the text points nowhere.
pub open spec fn value_due(ledger: ScalarLedger) -> Option<RawScalar> {
    if ledger.stepped == Some(SQLITE_ROW) {
        match ledger.value {
            Some(value) => Some(value),
            None => Some(RawScalar::Null),
        }
    } else {
        None
    }
}

/// Whether a value is one that a query for BLOBs refuses.
pub open spec fn unwanted(fetch: ScalarFetch, ledger: ScalarLedger) -> bool {
    fetch.blob_only && (ledger.value matches Some(value) && !(value is Blob))
}

/// Whether the first NUL byte of a query stands here.
pub open spec fn first_nul_at(query: Seq<char>, position: usize) -> bool {
    let bytes = vstd::utf8::encode_utf8(query);
    &&& exists|i: int| 0 <= i < bytes.len() && bytes[i] == 0
    &&& bytes.len() <= usize::MAX ==> {
        &&& position < bytes.len()
        &&& bytes[position as int] == 0
        &&& forall|i: int| 0 <= i < position ==> bytes[i] != 0
    }
}

/// A scalar query that succeeds ends with exactly the value that was read, of
/// the kind that was read, or with nothing where there was no row. One that
/// fails ends with what it met: what SQLite answered, a number of parameters or
/// columns that does not fit, a value that is too long or not wanted, or a NUL
/// byte in the query, which is then never prepared.
pub proof fn law_scalar_gives_what_was_read(fetch: ScalarFetch, replies: Seq<ScalarReply>)
    requires
        process::possible(fetch, replies),
        !fetch.null_handle,
    ensures
        ({
            let ledger = scalar_ledger(fetch, replies);
            match process::reached(fetch, replies) {
                ScalarState::LookUp => replies.len() == 0 && fetch.caching && ledger.trouble is None
                    && ledger.value is None,
                ScalarState::Prepare => {
                    let bytes = vstd::utf8::encode_utf8(fetch.query@);
                    &&& forall|i: int| 0 <= i < bytes.len() ==> bytes[i] != 0
                    &&& fetch.caching ==> ledger.found == Some(false)
                    &&& ledger.trouble is None && ledger.value is None
                },
                ScalarState::Recycle => ledger.found == Some(true) && ledger.trouble is None
                    && ledger.value is None && fetch.caching,
                ScalarState::CountParameters { kept } | ScalarState::CountColumns { kept } => {
                    &&& ledger.trouble is None && ledger.value is None
                    &&& kept == (ledger.found == Some(true))
                    &&& ledger.found is Some <==> fetch.caching
                    &&& !ledger.offered
                },
                ScalarState::Keep => {
                    &&& ledger.trouble is None && ledger.value is None
                    &&& fetch.caching
                    &&& ledger.found == Some(false)
                },
                ScalarState::Bind { .. } => {
                    &&& ledger.trouble is None && ledger.value is None
                    &&& ledger.stepped is None
                    &&& ledger.offered == (fetch.caching && ledger.found == Some(false))
                },
                ScalarState::Step { .. } => {
                    &&& ledger.trouble is None && ledger.value is None
                    &&& ledger.offered == (fetch.caching && ledger.found == Some(false))
                },
                ScalarState::ReadClass { .. }
                | ScalarState::ReadInteger { .. }
                | ScalarState::ReadReal { .. }
                | ScalarState::ReadText { .. }
                | ScalarState::ReadBlob { .. } => {
                    &&& ledger.trouble is None && ledger.value is None
                    &&& ledger.stepped == Some(SQLITE_ROW)
                },
                ScalarState::Explain { code, .. } => {
                    &&& ledger.trouble is None && ledger.value is None
                    &&& ledger.stepped == Some(code)
                    &&& code != SQLITE_ROW && code != SQLITE_DONE
                },
                ScalarState::ExplainFinalize { code } => {
                    &&& ledger.trouble is None
                    &&& replies.last() == ScalarReply::Code(code)
                    &&& code != SQLITE_OK
                },
                ScalarState::Release(result)
                | ScalarState::Finalize(result)
                | ScalarState::Finished(result) => match result {
                    Ok(value) => {
                        &&& ledger.trouble is None
                        &&& !unwanted(fetch, ledger)
                        &&& value == value_due(ledger)
                        &&& ledger.stepped == Some(SQLITE_ROW) || ledger.stepped == Some(
                            SQLITE_DONE,
                        )
                    },
                    Err(failure) => match ledger.trouble {
                        Some(known) => failure == known,
                        None => match failure {
                            Failure::NotBlob => unwanted(fetch, ledger),
                            Failure::BindLength => exists|column: int|
                                0 <= column < fetch.params@.len() && batch::overlong(
                                    #[trigger] fetch.params@[column],
                                ),
                            Failure::NulInScalarQuery { position } => first_nul_at(
                                fetch.query@,
                                position,
                            ),
                            _ => false,
                        },
                    },
                },
            }
        }),
        match process::reached(fetch, replies) {
            ScalarState::CountParameters { .. }
            | ScalarState::CountColumns { .. }
            | ScalarState::Keep
            | ScalarState::LookUp
            | ScalarState::Recycle
            | ScalarState::Prepare => !scalar_ledger(fetch, replies).offered && scalar_ledger(
                fetch,
                replies,
            ).stepped is None,
            _ => true,
        },
        process::reached(fetch, replies) is Prepare && !fetch.caching ==> scalar_ledger(
            fetch,
            replies,
        ).found is None,
    decreases replies.len(),
{
    text::law_first_nul_is_the_first(vstd::utf8::encode_utf8(fetch.query@));
    if replies.len() > 0 {
        lemma_not_ended_at_outset(fetch, replies);
        lemma_scalar_course(fetch, replies.drop_last());
        law_scalar_gives_what_was_read(fetch, replies.drop_last());
        assert(fetch.params.len() == fetch.params@.len());
    }
}

/// Without a handle a scalar query fails before any call; with one, and with no
/// statement kept for it, it fails before any call only on a NUL byte.
pub proof fn law_scalar_starts_unless_refused(fetch: ScalarFetch)
    ensures
        fetch.null_handle ==> fetch.outset() == ScalarState::Finished(Err(Failure::NullHandle)),
        !fetch.null_handle && fetch.caching ==> fetch.outset() is LookUp,
        !fetch.null_handle && !fetch.caching ==> {
            let bytes = vstd::utf8::encode_utf8(fetch.query@);
            fetch.outset() is Prepare <==> forall|i: int| 0 <= i < bytes.len() ==> bytes[i] != 0
        },
{
    text::law_first_nul_is_the_first(vstd::utf8::encode_utf8(fetch.query@));
}

} // verus!
