//! Running one statement over many parameter sets, in one transaction.

use crate::codes::{SQLITE_DONE, SQLITE_OK, SQLITE_ROW, SQLITE_TOOBIG};
use crate::failure::Failure;
use crate::process;
use crate::process::Process;
use crate::text;
use vstd::prelude::*;
use vstd::string::*;

verus! {

/// A value that is bound to a parameter of a statement.
pub enum SqliteParam {
    Null,
    Int(i64),
    /// A float, by the bits of its IEEE form.
    Real { bits: u64 },
    Text(String),
    Blob(Vec<u8>),
}

/// How a value is handed to SQLite.
pub enum BindCall {
    Null,
    Int(i64),
    Real { bits: u64 },
    /// The text of the parameter, this many bytes.
    Text { length: i32 },
    /// The bytes of the parameter, this many.
    Blob { length: i32 },
}

/// The length of a string or BLOB as SQLite takes it: a signed 32-bit number.
/// A longer one is refused rather than cut down.
pub fn checked_bind_length(length: usize) -> (out: Result<i32, (i32, String)>)
    ensures
        match out {
            Ok(n) => n == length,
            Err((code, message)) => {
                &&& length > i32::MAX
                &&& code == SQLITE_TOOBIG
                &&& message@ == "text or BLOB parameter exceeds SQLite's supported bind length"@
            },
        },
{
    if length <= 2147483647 {
        Ok(length as i32)
    } else {
        Err((Failure::BindLength.code(), Failure::BindLength.message()))
    }
}

impl SqliteParam {
    /// How the value is handed to SQLite, unless it is too long.
    pub open spec fn binding(self) -> Result<BindCall, Failure> {
        match self {
            SqliteParam::Null => Ok(BindCall::Null),
            SqliteParam::Int(value) => Ok(BindCall::Int(value)),
            SqliteParam::Real { bits } => Ok(BindCall::Real { bits }),
            SqliteParam::Text(value) => if text::byte_length(value@) <= i32::MAX {
                Ok(BindCall::Text { length: text::byte_length(value@) as i32 })
            } else {
                Err(Failure::BindLength)
            },
            SqliteParam::Blob(value) => if value@.len() <= i32::MAX {
                Ok(BindCall::Blob { length: value@.len() as i32 })
            } else {
                Err(Failure::BindLength)
            },
        }
    }

    /// Decides how the value is handed to SQLite.
    pub fn bind_call(&self) -> (out: Result<BindCall, Failure>)
        ensures
            out == self.binding(),
    {
        match self {
            SqliteParam::Null => Ok(BindCall::Null),
            SqliteParam::Int(value) => Ok(BindCall::Int(*value)),
            SqliteParam::Real { bits } => Ok(BindCall::Real { bits: *bits }),
            SqliteParam::Text(value) => match checked_bind_length(text::length_in_bytes(value)) {
                Ok(length) => Ok(BindCall::Text { length }),
                Err(_) => Err(Failure::BindLength),
            },
            SqliteParam::Blob(value) => match checked_bind_length(value.len()) {
                Ok(length) => Ok(BindCall::Blob { length }),
                Err(_) => Err(Failure::BindLength),
            },
        }
    }
}

/// One statement and the parameter sets that it is run with.
pub struct Batch {
    pub query: String,
    pub params: Vec<Vec<SqliteParam>>,
    /// Whether there is no database handle.
    pub null_handle: bool,
}

/// The call that a batch waits for.
pub enum BatchState {
    /// Run `BEGIN`.
    Begin,
    /// Prepare the query as one statement.
    Prepare,
    /// Read how many parameters the statement takes.
    CountParameters,
    /// Reset the statement for this set; so many rows have changed.
    Reset { row: usize, total: u64 },
    /// Bind this parameter of the set, counted from 1 by SQLite.
    Bind { row: usize, column: usize, index: i32, call: BindCall, total: u64 },
    /// Read the total of changes before the set is run.
    ChangesBefore { row: usize, total: u64 },
    /// Step the statement.
    Step { row: usize, total: u64, before: i32 },
    /// Read the total of changes behind the run.
    ChangesAfter { row: usize, total: u64, before: i32 },
    /// Read how many rows the run has changed.
    CountChanges { row: usize, total: u64 },
    /// Read the last inserted rowid.
    LastRowid { total: u64 },
    /// Finalize the statement; every set was run.
    Finalize { total: u64, rowid: i64 },
    /// Run `COMMIT`.
    Commit { total: u64, rowid: i64 },
    /// Read the message that goes with this code, before another call replaces
    /// it; whether the statement is still to be finalized.
    Explain { code: i32, held: bool },
    /// Finalize the statement because of this failure, and go on to roll back.
    Abandon(Failure),
    /// Run `ROLLBACK` because of this failure.
    Rollback(Failure),
    /// No call is left: the number of changed rows and the last rowid, or what
    /// went wrong.
    Finished(Result<(u64, i64), Failure>),
}

impl BatchState {
    /// The statement of its own that a step runs, where it does.
    pub fn sql(&self) -> (out: Option<&'static str>)
        ensures
            match *self {
                BatchState::Begin => out matches Some(sql) && sql@ == "BEGIN"@,
                BatchState::Commit { .. } => out matches Some(sql) && sql@ == "COMMIT"@,
                BatchState::Rollback(_) => out matches Some(sql) && sql@ == "ROLLBACK"@,
                _ => out is None,
            },
    {
        match self {
            BatchState::Begin => Some("BEGIN"),
            BatchState::Commit { .. } => Some("COMMIT"),
            BatchState::Rollback(_) => Some("ROLLBACK"),
            _ => None,
        }
    }
}

/// What a call of a batch brings back.
pub enum BatchReply {
    /// How running or preparing a statement went.
    Outcome(Result<(), Failure>),
    /// A code, or a count.
    Code(i32),
    /// The code of binding, and the message that goes with it.
    Bound { code: i32, message: String },
    /// A rowid.
    Rowid(i64),
    /// An error message.
    Message(String),
}

/// The running total with the changes of one more run, in 64 bits.
pub open spec fn accumulated(total: u64, changes: i32) -> u64 {
    ((total + changes) % 0x1_0000_0000_0000_0000) as u64
}

impl Batch {
    /// The length of the first parameter set, from `row` on, that does not
    /// have the number of values that the statement takes.
    pub open spec fn misfit(self, row: int, expected: usize) -> Option<usize>
        decreases self.params@.len() - row,
    {
        if row < 0 || row >= self.params@.len() {
            None
        } else if self.params@[row]@.len() != expected {
            Some(self.params@[row]@.len() as usize)
        } else {
            self.misfit(row + 1, expected)
        }
    }

    /// Goes on with the next parameter to bind, or to running the set.
    pub open spec fn bind_from(self, row: usize, column: usize, total: u64) -> BatchState {
        if column >= self.params@[row as int]@.len() {
            BatchState::ChangesBefore { row, total }
        } else {
            match self.params@[row as int]@[column as int].binding() {
                Ok(call) => BatchState::Bind { row, column, index: (column + 1) as i32, call, total },
                Err(failure) => BatchState::Abandon(failure),
            }
        }
    }

    /// Goes on with the next set, or to the end of the batch.
    pub open spec fn row_from(self, row: int, total: u64) -> BatchState {
        if row < self.params@.len() {
            BatchState::Reset { row: row as usize, total }
        } else {
            BatchState::LastRowid { total }
        }
    }

    /// Whether the number of every value fits the index that SQLite takes.
    pub open spec fn indexable(self) -> bool {
        forall|row: int|
            0 <= row < self.params@.len() ==> (#[trigger] self.params@[row])@.len() <= i32::MAX
    }

    /// Whether a state speaks of sets and values that the batch has.
    pub open spec fn sound(self, state: BatchState) -> bool {
        match state {
            BatchState::Bind { row, column, index, .. } => {
                &&& self.indexable()
                &&& row < self.params@.len()
                &&& column < self.params@[row as int]@.len()
                &&& index == column + 1
            },
            BatchState::Reset { row, .. }
            | BatchState::ChangesBefore { row, .. }
            | BatchState::Step { row, .. }
            | BatchState::ChangesAfter { row, .. }
            | BatchState::CountChanges { row, .. } => {
                &&& self.indexable()
                &&& row < self.params@.len()
            },
            _ => true,
        }
    }
}

impl Process for Batch {
    type State = BatchState;

    type Reply = BatchReply;

    open spec fn outset(self) -> BatchState {
        if self.params@.len() == 0 {
            BatchState::Finished(Ok((0, 0)))
        } else if self.null_handle {
            BatchState::Finished(Err(Failure::NullHandle))
        } else {
            match text::nul_in(self.query@) {
                Some(position) => BatchState::Finished(
                    Err(Failure::NulInQuery { position: position as usize }),
                ),
                None => BatchState::Begin,
            }
        }
    }

    open spec fn ended(self, state: BatchState) -> bool {
        state is Finished
    }

    open spec fn answers(self, state: BatchState, reply: BatchReply) -> bool {
        match state {
            BatchState::Begin
            | BatchState::Prepare
            | BatchState::Commit { .. }
            | BatchState::Rollback(_) => reply is Outcome,
            BatchState::CountParameters => reply is Code && reply->Code_0 >= 0,
            BatchState::Reset { .. }
            | BatchState::ChangesBefore { .. }
            | BatchState::Step { .. }
            | BatchState::ChangesAfter { .. }
            | BatchState::CountChanges { .. }
            | BatchState::Finalize { .. }
            | BatchState::Abandon(_) => reply is Code,
            BatchState::Bind { .. } => reply is Bound,
            BatchState::LastRowid { .. } => reply is Rowid,
            BatchState::Explain { .. } => reply is Message,
            BatchState::Finished(_) => false,
        }
    }

    open spec fn next(self, state: BatchState, reply: BatchReply) -> BatchState {
        match (state, reply) {
            (BatchState::Begin, BatchReply::Outcome(outcome)) => match outcome {
                Ok(_) => BatchState::Prepare,
                Err(failure) => BatchState::Finished(Err(failure)),
            },
            (BatchState::Prepare, BatchReply::Outcome(outcome)) => match outcome {
                Ok(_) => BatchState::CountParameters,
                Err(failure) => BatchState::Rollback(failure),
            },
            (BatchState::CountParameters, BatchReply::Code(count)) => if count < 0 {
                state
            } else {
                match self.misfit(0, count as usize) {
                    Some(provided) => BatchState::Abandon(
                        Failure::BindingCount { expected: count as usize, provided },
                    ),
                    None => self.row_from(0, 0),
                }
            },
            (BatchState::Reset { row, total }, BatchReply::Code(code)) => if code != SQLITE_OK {
                BatchState::Explain { code, held: true }
            } else {
                self.bind_from(row, 0, total)
            },
            (BatchState::Bind { row, column, total, .. }, BatchReply::Bound { code, message }) =>
                if code != SQLITE_OK {
                BatchState::Abandon(Failure::Reported { code, message })
            } else {
                self.bind_from(row, (column + 1) as usize, total)
            },
            (BatchState::ChangesBefore { row, total }, BatchReply::Code(before)) =>
                BatchState::Step { row, total, before },
            (BatchState::Step { row, total, before }, BatchReply::Code(code)) => if code
                == SQLITE_ROW {
                BatchState::Step { row, total, before }
            } else if code == SQLITE_DONE {
                BatchState::ChangesAfter { row, total, before }
            } else {
                BatchState::Explain { code, held: true }
            },
            (BatchState::ChangesAfter { row, total, before }, BatchReply::Code(after)) => if after
                != before {
                BatchState::CountChanges { row, total }
            } else {
                self.row_from(row + 1, total)
            },
            (BatchState::CountChanges { row, total }, BatchReply::Code(changes)) => self.row_from(
                row + 1,
                accumulated(total, changes),
            ),
            (BatchState::LastRowid { total }, BatchReply::Rowid(rowid)) => BatchState::Finalize {
                total,
                rowid,
            },
            (BatchState::Finalize { total, rowid }, BatchReply::Code(code)) => if code
                != SQLITE_OK {
                BatchState::Explain { code, held: false }
            } else {
                BatchState::Commit { total, rowid }
            },
            (BatchState::Commit { total, rowid }, BatchReply::Outcome(outcome)) => match outcome {
                Ok(_) => BatchState::Finished(Ok((total, rowid))),
                Err(failure) => BatchState::Rollback(failure),
            },
            (BatchState::Explain { code, held }, BatchReply::Message(message)) => if held {
                BatchState::Abandon(Failure::Reported { code, message })
            } else {
                BatchState::Rollback(Failure::Reported { code, message })
            },
            (BatchState::Abandon(failure), _) => BatchState::Rollback(failure),
            (BatchState::Rollback(failure), _) => BatchState::Finished(Err(failure)),
            (state, _) => state,
        }
    }
}

impl Batch {
    fn find_misfit(&self, expected: usize) -> (out: Option<usize>)
        ensures
            out == self.misfit(0, expected),
            out is None ==> forall|row: int|
                0 <= row < self.params@.len() ==> (#[trigger] self.params@[row])@.len() == expected,
    {
        let mut row: usize = 0;
        while row < self.params.len()
            invariant
                row <= self.params@.len(),
                self.misfit(0, expected) == self.misfit(row as int, expected),
                forall|r: int| 0 <= r < row ==> (#[trigger] self.params@[r])@.len() == expected,
            decreases self.params@.len() - row,
        {
            let provided: usize = self.params[row].len();
            if provided != expected {
                return Some(provided);
            }
            row += 1;
        }
        None
    }

    fn go_on_binding(&self, row: usize, column: usize, total: u64) -> (out: BatchState)
        requires
            row < self.params@.len(),
            self.indexable(),
        ensures
            out == self.bind_from(row, column, total),
            self.sound(out),
    {
        if column >= self.params[row].len() {
            BatchState::ChangesBefore { row, total }
        } else {
            match self.params[row][column].bind_call() {
                Ok(call) => BatchState::Bind { row, column, index: (column + 1) as i32, call, total },
                Err(failure) => BatchState::Abandon(failure),
            }
        }
    }

    fn go_on_to_row(&self, row: usize, total: u64) -> (out: BatchState)
        requires
            self.indexable(),
        ensures
            out == self.row_from(row as int, total),
            self.sound(out),
    {
        if row < self.params.len() {
            BatchState::Reset { row, total }
        } else {
            BatchState::LastRowid { total }
        }
    }

    /// The first call to make. A batch without parameter sets makes none.
    pub fn start(&self) -> (out: BatchState)
        ensures
            out == self.outset(),
            self.sound(out),
    {
        if self.params.len() == 0 {
            return BatchState::Finished(Ok((0, 0)));
        }
        if self.null_handle {
            return BatchState::Finished(Err(Failure::NullHandle));
        }
        match text::nul_position(self.query.as_str()) {
            Some(position) => BatchState::Finished(Err(Failure::NulInQuery { position })),
            None => BatchState::Begin,
        }
    }

    /// The call to make behind a reply.
    pub fn resume(&self, state: BatchState, reply: BatchReply) -> (out: BatchState)
        requires
            self.sound(state),
        ensures
            out == self.next(state, reply),
            self.sound(out),
    {
        let sets: usize = self.params.len();
        proof {
            assert(sets == self.params@.len());
        }
        match (state, reply) {
            (BatchState::Begin, BatchReply::Outcome(outcome)) => match outcome {
                Ok(_) => BatchState::Prepare,
                Err(failure) => BatchState::Finished(Err(failure)),
            },
            (BatchState::Prepare, BatchReply::Outcome(outcome)) => match outcome {
                Ok(_) => BatchState::CountParameters,
                Err(failure) => BatchState::Rollback(failure),
            },
            (BatchState::CountParameters, BatchReply::Code(count)) => if count < 0 {
                BatchState::CountParameters
            } else {
                match self.find_misfit(count as usize) {
                    Some(provided) => BatchState::Abandon(
                        Failure::BindingCount { expected: count as usize, provided },
                    ),
                    None => self.go_on_to_row(0, 0),
                }
            },
            (BatchState::Reset { row, total }, BatchReply::Code(code)) => if code != SQLITE_OK {
                BatchState::Explain { code, held: true }
            } else {
                self.go_on_binding(row, 0, total)
            },
            (BatchState::Bind { row, column, total, .. }, BatchReply::Bound { code, message }) =>
                if code != SQLITE_OK {
                BatchState::Abandon(Failure::Reported { code, message })
            } else {
                self.go_on_binding(row, column + 1, total)
            },
            (BatchState::ChangesBefore { row, total }, BatchReply::Code(before)) =>
                BatchState::Step { row, total, before },
            (BatchState::Step { row, total, before }, BatchReply::Code(code)) => if code
                == SQLITE_ROW {
                BatchState::Step { row, total, before }
            } else if code == SQLITE_DONE {
                BatchState::ChangesAfter { row, total, before }
            } else {
                BatchState::Explain { code, held: true }
            },
            (BatchState::ChangesAfter { row, total, before }, BatchReply::Code(after)) => if after
                != before {
                BatchState::CountChanges { row, total }
            } else {
                self.go_on_to_row(row + 1, total)
            },
            (BatchState::CountChanges { row, total }, BatchReply::Code(changes)) => {
                self.go_on_to_row(row + 1, total.wrapping_add_signed(changes as i64))
            },
            (BatchState::LastRowid { total }, BatchReply::Rowid(rowid)) => BatchState::Finalize {
                total,
                rowid,
            },
            (BatchState::Finalize { total, rowid }, BatchReply::Code(code)) => if code
                != SQLITE_OK {
                BatchState::Explain { code, held: false }
            } else {
                BatchState::Commit { total, rowid }
            },
            (BatchState::Commit { total, rowid }, BatchReply::Outcome(outcome)) => match outcome {
                Ok(_) => BatchState::Finished(Ok((total, rowid))),
                Err(failure) => BatchState::Rollback(failure),
            },
            (BatchState::Explain { code, held }, BatchReply::Message(message)) => if held {
                BatchState::Abandon(Failure::Reported { code, message })
            } else {
                BatchState::Rollback(Failure::Reported { code, message })
            },
            (BatchState::Abandon(failure), _) => BatchState::Rollback(failure),
            (BatchState::Rollback(failure), _) => BatchState::Finished(Err(failure)),
            (state, _) => state,
        }
    }
}

// ---------------------------------------------------------------- laws

/// Whether a batch in this state holds a prepared statement.
pub open spec fn holds_statement(state: BatchState) -> bool {
    match state {
        BatchState::Begin
        | BatchState::Prepare
        | BatchState::Commit { .. }
        | BatchState::Rollback(_)
        | BatchState::Finished(_) => false,
        BatchState::Explain { held, .. } => held,
        _ => true,
    }
}

/// Whether a batch in this state is inside its transaction.
pub open spec fn holds_transaction(state: BatchState) -> bool {
    match state {
        BatchState::Begin | BatchState::Finished(_) => false,
        _ => true,
    }
}

/// Whether `BEGIN` has succeeded and neither `COMMIT` has succeeded nor
/// `ROLLBACK` has been run since.
pub open spec fn transaction_open(batch: Batch, replies: Seq<BatchReply>) -> bool
    decreases replies.len(),
{
    if replies.len() == 0 {
        false
    } else {
        match process::reached(batch, replies.drop_last()) {
            BatchState::Begin => replies.last()->Outcome_0 is Ok,
            BatchState::Commit { .. } => !(replies.last()->Outcome_0 is Ok),
            BatchState::Rollback(_) => false,
            _ => transaction_open(batch, replies.drop_last()),
        }
    }
}

/// Whether the statement has been prepared and not been finalized since.
pub open spec fn statement_open(batch: Batch, replies: Seq<BatchReply>) -> bool
    decreases replies.len(),
{
    if replies.len() == 0 {
        false
    } else {
        match process::reached(batch, replies.drop_last()) {
            BatchState::Prepare => replies.last()->Outcome_0 is Ok,
            BatchState::Finalize { .. } | BatchState::Abandon(_) => false,
            _ => statement_open(batch, replies.drop_last()),
        }
    }
}

/// A batch cleans up after itself. Whatever SQLite answers, the statement is
/// open exactly in the states that use it and the transaction exactly in the
/// states inside it; once the batch has ended neither is open.
pub proof fn law_batch_cleans_up(batch: Batch, replies: Seq<BatchReply>)
    requires
        process::possible(batch, replies),
    ensures
        statement_open(batch, replies) == holds_statement(process::reached(batch, replies)),
        transaction_open(batch, replies) == holds_transaction(process::reached(batch, replies)),
        batch.ended(process::reached(batch, replies)) ==> !statement_open(batch, replies)
            && !transaction_open(batch, replies),
    decreases replies.len(),
{
    if replies.len() > 0 {
        law_batch_cleans_up(batch, replies.drop_last());
    }
}

/// The message of a failed call is read at once: the call that gave the code
/// is the last one made, and the transaction is still open. What a batch that
/// has read a message ends with is that code and that message.
pub proof fn law_batch_explains_at_once(batch: Batch, replies: Seq<BatchReply>)
    requires
        process::possible(batch, replies),
    ensures
        match process::reached(batch, replies) {
            BatchState::Explain { code, .. } => {
                &&& replies.len() > 0
                &&& replies.last() == BatchReply::Code(code)
                &&& transaction_open(batch, replies)
            },
            BatchState::Abandon(failure) => explained(batch, replies) matches Some(known)
                ==> failure == known,
            BatchState::Rollback(failure) => explained(batch, replies) matches Some(known)
                ==> failure == known,
            BatchState::Finished(result) => explained(batch, replies) matches Some(known)
                ==> result == Err::<(u64, i64), Failure>(known),
            _ => explained(batch, replies) is None,
        },
        process::reached(batch, replies) is Explain ==> explained(batch, replies) is None,
    decreases replies.len(),
{
    law_batch_cleans_up(batch, replies);
    if replies.len() > 0 {
        law_batch_explains_at_once(batch, replies.drop_last());
    }
}

/// The code of the call that failed with the message that was read for it.
pub open spec fn explained(batch: Batch, replies: Seq<BatchReply>) -> Option<Failure>
    decreases replies.len(),
{
    if replies.len() == 0 {
        None
    } else {
        match (process::reached(batch, replies.drop_last()), replies.last()) {
            (BatchState::Explain { code, .. }, BatchReply::Message(message)) => Some(
                Failure::Reported { code, message },
            ),
            _ => explained(batch, replies.drop_last()),
        }
    }
}

/// Whether a reply lets the batch go on.
pub open spec fn favourable(batch: Batch, state: BatchState, reply: BatchReply) -> bool {
    match state {
        BatchState::Begin | BatchState::Prepare | BatchState::Commit { .. } =>
            reply->Outcome_0 is Ok,
        BatchState::CountParameters => batch.misfit(0, reply->Code_0 as usize) is None,
        BatchState::Reset { .. } | BatchState::Finalize { .. } => reply->Code_0 == SQLITE_OK,
        BatchState::Bind { .. } => reply->Bound_code == SQLITE_OK,
        BatchState::Step { .. } => reply->Code_0 == SQLITE_ROW || reply->Code_0 == SQLITE_DONE,
        BatchState::ChangesBefore { .. }
        | BatchState::ChangesAfter { .. }
        | BatchState::CountChanges { .. }
        | BatchState::LastRowid { .. } => true,
        BatchState::Abandon(_)
        | BatchState::Rollback(_)
        | BatchState::Explain { .. }
        | BatchState::Finished(_) => false,
    }
}

/// Whether each reply lets the batch go on.
pub open spec fn all_favourable(batch: Batch, replies: Seq<BatchReply>) -> bool
    decreases replies.len(),
{
    replies.len() > 0 ==> {
        &&& all_favourable(batch, replies.drop_last())
        &&& favourable(batch, process::reached(batch, replies.drop_last()), replies.last())
    }
}

/// Whether every value of a batch is short enough to be bound.
pub open spec fn bindable(batch: Batch) -> bool {
    forall|row: int, column: int|
        0 <= row < batch.params@.len() && 0 <= column < batch.params@[row]@.len() ==> (
        #[trigger] batch.params@[row]@[column]).binding() is Ok
}

/// The changes that SQLite has counted, over all runs.
pub open spec fn changes_counted(batch: Batch, replies: Seq<BatchReply>) -> int
    decreases replies.len(),
{
    if replies.len() == 0 {
        0
    } else {
        changes_counted(batch, replies.drop_last()) + (match process::reached(
            batch,
            replies.drop_last(),
        ) {
            BatchState::CountChanges { .. } => replies.last()->Code_0 as int,
            _ => 0int,
        })
    }
}

/// How many runs of the statement have been done.
pub open spec fn runs_done(batch: Batch, replies: Seq<BatchReply>) -> int
    decreases replies.len(),
{
    if replies.len() == 0 {
        0
    } else {
        runs_done(batch, replies.drop_last()) + (match process::reached(
            batch,
            replies.drop_last(),
        ) {
            BatchState::Step { .. } => if replies.last()->Code_0 == SQLITE_DONE {
                1int
            } else {
                0int
            },
            _ => 0int,
        })
    }
}

/// Whether the batch can still succeed from this state.
spec fn healthy(state: BatchState) -> bool {
    match state {
        BatchState::Abandon(_) | BatchState::Rollback(_) | BatchState::Explain { .. } => false,
        BatchState::Finished(result) => result is Ok,
        _ => true,
    }
}

/// The total that a state carries.
spec fn total_of(state: BatchState) -> int {
    match state {
        BatchState::Reset { total, .. }
        | BatchState::Bind { total, .. }
        | BatchState::ChangesBefore { total, .. }
        | BatchState::Step { total, .. }
        | BatchState::ChangesAfter { total, .. }
        | BatchState::CountChanges { total, .. }
        | BatchState::LastRowid { total }
        | BatchState::Finalize { total, .. }
        | BatchState::Commit { total, .. } => total as int,
        BatchState::Finished(Ok((total, _))) => total as int,
        _ => 0,
    }
}

/// How many sets have been run in this state.
spec fn runs_of(batch: Batch, state: BatchState) -> int {
    match state {
        BatchState::Reset { row, .. }
        | BatchState::Bind { row, .. }
        | BatchState::ChangesBefore { row, .. }
        | BatchState::Step { row, .. } => row as int,
        BatchState::ChangesAfter { row, .. } | BatchState::CountChanges { row, .. } => row + 1,
        BatchState::LastRowid { .. }
        | BatchState::Finalize { .. }
        | BatchState::Commit { .. }
        | BatchState::Finished(_) => batch.params@.len() as int,
        _ => 0,
    }
}

/// Whether every value before this one can be bound.
spec fn bound_before(batch: Batch, row: int, column: int) -> bool {
    forall|r: int, c: int|
        0 <= r < batch.params@.len() && 0 <= c < batch.params@[r]@.len() && (r < row || r == row
            && c < column) ==> (#[trigger] batch.params@[r]@[c]).binding() is Ok
}

/// Whether every value that the state has behind it can be bound.
spec fn bound_up_to(batch: Batch, state: BatchState) -> bool {
    match state {
        BatchState::Reset { row, .. } => bound_before(batch, row as int, 0),
        BatchState::Bind { row, column, .. } => bound_before(batch, row as int, column + 1),
        BatchState::ChangesBefore { row, .. }
        | BatchState::Step { row, .. }
        | BatchState::ChangesAfter { row, .. }
        | BatchState::CountChanges { row, .. } => bound_before(batch, row + 1, 0),
        BatchState::LastRowid { .. } | BatchState::Finalize { .. } | BatchState::Commit { .. } =>
            bindable(batch),
        BatchState::Finished(result) => result is Ok ==> bindable(batch),
        _ => true,
    }
}

proof fn lemma_batch_sound(batch: Batch, replies: Seq<BatchReply>)
    requires
        process::possible(batch, replies),
    ensures
        batch.sound(process::reached(batch, replies)),
    decreases replies.len(),
{
    if replies.len() > 0 {
        lemma_batch_sound(batch, replies.drop_last());
        let state = process::reached(batch, replies.drop_last());
        let reply = replies.last();
        assert(batch.params.len() == batch.params@.len());
        if state is CountParameters && batch.misfit(0, reply->Code_0 as usize) is None {
            lemma_no_misfit(batch, 0, reply->Code_0 as usize);
        }
    }
}

proof fn lemma_batch_health(batch: Batch, replies: Seq<BatchReply>)
    requires
        process::possible(batch, replies),
        batch.outset() is Begin,
    ensures
        healthy(process::reached(batch, replies)) ==> all_favourable(batch, replies),
        bindable(batch) && all_favourable(batch, replies) ==> healthy(
            process::reached(batch, replies),
        ),
    decreases replies.len(),
{
    if replies.len() > 0 {
        lemma_batch_sound(batch, replies.drop_last());
        lemma_batch_health(batch, replies.drop_last());
    }
}

proof fn lemma_batch_counts(batch: Batch, replies: Seq<BatchReply>)
    requires
        process::possible(batch, replies),
        batch.outset() is Begin,
        healthy(process::reached(batch, replies)),
    ensures
        total_of(process::reached(batch, replies)) == changes_counted(batch, replies)
            % 0x1_0000_0000_0000_0000,
        runs_of(batch, process::reached(batch, replies)) == runs_done(batch, replies),
    decreases replies.len(),
{
    if replies.len() > 0 {
        lemma_batch_sound(batch, replies.drop_last());
        lemma_batch_counts(batch, replies.drop_last());
        assert(batch.params.len() == batch.params@.len());
    }
}

proof fn lemma_batch_bound(batch: Batch, replies: Seq<BatchReply>)
    requires
        process::possible(batch, replies),
        batch.outset() is Begin,
        healthy(process::reached(batch, replies)),
    ensures
        bound_up_to(batch, process::reached(batch, replies)),
    decreases replies.len(),
{
    if replies.len() > 0 {
        lemma_batch_sound(batch, replies.drop_last());
        lemma_batch_bound(batch, replies.drop_last());
        assert(batch.params.len() == batch.params@.len());
    }
}

proof fn lemma_no_misfit(batch: Batch, row: int, expected: usize)
    requires
        0 <= row,
        batch.misfit(row, expected) is None,
    ensures
        forall|r: int|
            row <= r < batch.params@.len() ==> (#[trigger] batch.params@[r])@.len() == expected,
    decreases batch.params@.len() - row,
{
    if row < batch.params@.len() {
        lemma_no_misfit(batch, row + 1, expected);
    }
}

/// A batch that begins its work succeeds exactly where every reply is
/// favourable and every value can be bound. It then has run the statement once
/// for each set, and reports the changes that SQLite counted, in 64 bits.
pub proof fn law_batch_success(batch: Batch, replies: Seq<BatchReply>)
    requires
        process::possible(batch, replies),
        batch.outset() is Begin,
        batch.ended(process::reached(batch, replies)),
    ensures
        process::reached(batch, replies)->Finished_0 is Ok <==> all_favourable(batch, replies)
            && bindable(batch),
        match process::reached(batch, replies)->Finished_0 {
            Ok((total, _)) => {
                &&& total == changes_counted(batch, replies) % 0x1_0000_0000_0000_0000
                &&& runs_done(batch, replies) == batch.params@.len()
            },
            Err(_) => true,
        },
{
    lemma_batch_health(batch, replies);
    if healthy(process::reached(batch, replies)) {
        lemma_batch_counts(batch, replies);
        lemma_batch_bound(batch, replies);
    }
}

/// A batch succeeds only on the reply to its `COMMIT`, so what it reports as
/// changed is committed.
pub proof fn law_batch_commits(batch: Batch, replies: Seq<BatchReply>)
    requires
        process::possible(batch, replies),
        batch.outset() is Begin,
        process::reached(batch, replies)->Finished_0 is Ok,
        process::reached(batch, replies) is Finished,
    ensures
        replies.len() > 0,
        process::reached(batch, replies.drop_last()) is Commit,
        replies.last()->Outcome_0 is Ok,
{
}

/// A batch without parameter sets makes no call, not even on a missing handle.
pub proof fn law_empty_batch_makes_no_call(batch: Batch)
    requires
        batch.params@.len() == 0,
    ensures
        batch.outset() == BatchState::Finished(Ok((0, 0))),
{
}

/// A bound on the calls for the sets from this one on, without the rows that
/// they give.
pub open spec fn set_calls(batch: Batch, row: int) -> int
    decreases batch.params@.len() - row,
{
    if row < 0 || row >= batch.params@.len() {
        0
    } else {
        batch.params@[row]@.len() + 6 + set_calls(batch, row + 1)
    }
}

/// A bound on the calls that a batch has left to make, without the rows that
/// its runs give.
pub open spec fn calls_left(batch: Batch, state: BatchState) -> int {
    match state {
        BatchState::Begin => set_calls(batch, 0) + 10,
        BatchState::Prepare => set_calls(batch, 0) + 9,
        BatchState::CountParameters => set_calls(batch, 0) + 8,
        BatchState::Reset { row, .. } => set_calls(batch, row as int) + 7,
        BatchState::Bind { row, column, .. } => batch.params@[row as int]@.len() - column
            + set_calls(batch, row + 1) + 12,
        BatchState::ChangesBefore { row, .. } => set_calls(batch, row + 1) + 11,
        BatchState::Step { row, .. } => set_calls(batch, row + 1) + 10,
        BatchState::ChangesAfter { row, .. } => set_calls(batch, row + 1) + 9,
        BatchState::CountChanges { row, .. } => set_calls(batch, row + 1) + 8,
        BatchState::LastRowid { .. } => 5,
        BatchState::Finalize { .. } => 4,
        BatchState::Commit { .. } | BatchState::Explain { .. } => 3,
        BatchState::Abandon(_) => 2,
        BatchState::Rollback(_) => 1,
        BatchState::Finished(_) => 0,
    }
}

proof fn lemma_set_calls(batch: Batch, row: int)
    ensures
        0 <= set_calls(batch, row),
    decreases batch.params@.len() - row,
{
    if 0 <= row < batch.params@.len() {
        lemma_set_calls(batch, row + 1);
    }
}

/// With every reply, but for a row that a run gives, the bound on the calls
/// that are left goes down: a batch whose runs give finitely many rows comes to
/// its end.
pub proof fn law_batch_ends(batch: Batch, state: BatchState, reply: BatchReply)
    requires
        batch.sound(state),
        batch.answers(state, reply),
        !(state is Step && reply == BatchReply::Code(SQLITE_ROW)),
    ensures
        0 <= calls_left(batch, batch.next(state, reply)) < calls_left(batch, state),
{
    lemma_set_calls(batch, 0);
    match state {
        BatchState::Reset { row, .. }
        | BatchState::Bind { row, .. }
        | BatchState::ChangesBefore { row, .. }
        | BatchState::Step { row, .. }
        | BatchState::ChangesAfter { row, .. }
        | BatchState::CountChanges { row, .. } => {
            assert(batch.params.len() == batch.params@.len());
            lemma_set_calls(batch, row as int);
            lemma_set_calls(batch, row + 1);
        },
        _ => {},
    }
}

/// Whether a call hands SQLite exactly this value: a number as it is, a string
/// or BLOB with the number of its bytes.
pub open spec fn hands_over(param: SqliteParam, call: BindCall) -> bool {
    match (param, call) {
        (SqliteParam::Null, BindCall::Null) => true,
        (SqliteParam::Int(value), BindCall::Int(handed)) => handed == value,
        (SqliteParam::Real { bits }, BindCall::Real { bits: handed }) => handed == bits,
        (SqliteParam::Text(value), BindCall::Text { length }) => length
            == vstd::utf8::encode_utf8(value@).len(),
        (SqliteParam::Blob(value), BindCall::Blob { length }) => length == value@.len(),
        _ => false,
    }
}

/// Whether a value has more bytes than SQLite can be handed.
pub open spec fn overlong(param: SqliteParam) -> bool {
    match param {
        SqliteParam::Text(value) => vstd::utf8::encode_utf8(value@).len() > 0x7fff_ffff,
        SqliteParam::Blob(value) => value@.len() > 0x7fff_ffff,
        _ => false,
    }
}

/// A value is handed over as it is, and refused only where it is too long.
pub proof fn law_value_is_handed_over(param: SqliteParam)
    ensures
        match param.binding() {
            Ok(call) => !overlong(param) && hands_over(param, call),
            Err(failure) => overlong(param) && failure == Failure::BindLength,
        },
{
}

/// The bindings that SQLite has taken since the statement was last reset: set,
/// column, index and call, in the order in which they were made.
pub open spec fn bindings_taken(batch: Batch, replies: Seq<BatchReply>) -> Seq<
    (usize, usize, i32, BindCall),
>
    decreases replies.len(),
{
    if replies.len() == 0 {
        Seq::empty()
    } else {
        match process::reached(batch, replies.drop_last()) {
            BatchState::Reset { .. } => Seq::empty(),
            BatchState::Bind { row, column, index, call, .. } => if replies.last()->Bound_code
                == SQLITE_OK {
                bindings_taken(batch, replies.drop_last()).push((row, column, index, call))
            } else {
                bindings_taken(batch, replies.drop_last())
            },
            _ => bindings_taken(batch, replies.drop_last()),
        }
    }
}

/// Whether the first values of a set, so many of them, have been bound: one
/// binding each, in order, with the index that SQLite counts from 1 and with
/// exactly the value.
pub open spec fn values_bound(
    batch: Batch,
    row: usize,
    count: int,
    taken: Seq<(usize, usize, i32, BindCall)>,
) -> bool {
    &&& taken.len() == count
    &&& forall|c: int|
        0 <= c < count ==> {
            &&& (#[trigger] taken[c]).0 == row
            &&& taken[c].1 == c
            &&& taken[c].2 == c + 1
            &&& hands_over(batch.params@[row as int]@[c], taken[c].3)
        }
}

/// Whenever the statement is stepped for a set, every value of that set has
/// been bound since the statement was reset for it: value by value, under the
/// index behind its column, and none besides.
pub proof fn law_batch_binds_each_value(batch: Batch, replies: Seq<BatchReply>)
    requires
        process::possible(batch, replies),
    ensures
        match process::reached(batch, replies) {
            BatchState::Bind { row, column, index, call, .. } => {
                &&& row < batch.params@.len()
                &&& column < batch.params@[row as int]@.len()
                &&& index == column + 1
                &&& hands_over(batch.params@[row as int]@[column as int], call)
                &&& values_bound(batch, row, column as int, bindings_taken(batch, replies))
            },
            BatchState::ChangesBefore { row, .. }
            | BatchState::Step { row, .. }
            | BatchState::ChangesAfter { row, .. }
            | BatchState::CountChanges { row, .. } => {
                &&& row < batch.params@.len()
                &&& values_bound(
                    batch,
                    row,
                    batch.params@[row as int]@.len() as int,
                    bindings_taken(batch, replies),
                )
            },
            _ => true,
        },
    decreases replies.len(),
{
    if replies.len() > 0 {
        lemma_batch_sound(batch, replies);
        lemma_batch_sound(batch, replies.drop_last());
        law_batch_binds_each_value(batch, replies.drop_last());
        assert(batch.params.len() == batch.params@.len());
    }
}

/// How often the statement has been reset without an error.
pub open spec fn resets_done(batch: Batch, replies: Seq<BatchReply>) -> int
    decreases replies.len(),
{
    if replies.len() == 0 {
        0
    } else {
        resets_done(batch, replies.drop_last()) + (if process::reached(
            batch,
            replies.drop_last(),
        ) is Reset && replies.last()->Code_0 == SQLITE_OK {
            1int
        } else {
            0int
        })
    }
}

/// The sets whose runs have been done, in the order of the runs.
pub open spec fn sets_run(batch: Batch, replies: Seq<BatchReply>) -> Seq<usize>
    decreases replies.len(),
{
    if replies.len() == 0 {
        Seq::empty()
    } else {
        match process::reached(batch, replies.drop_last()) {
            BatchState::Step { row, .. } => if replies.last()->Code_0 == SQLITE_DONE {
                sets_run(batch, replies.drop_last()).push(row)
            } else {
                sets_run(batch, replies.drop_last())
            },
            _ => sets_run(batch, replies.drop_last()),
        }
    }
}

/// Whether these are the first sets, so many of them, in order.
pub open spec fn first_sets(sets: Seq<usize>, count: int) -> bool {
    &&& sets.len() == count
    &&& forall|i: int| 0 <= i < count ==> #[trigger] sets[i] == i
}

/// The sets are run in order, each once and each behind a reset of its own,
/// and a batch that succeeds has run them all.
pub proof fn law_batch_runs_the_sets_in_order(batch: Batch, replies: Seq<BatchReply>)
    requires
        process::possible(batch, replies),
    ensures
        match process::reached(batch, replies) {
            BatchState::Begin | BatchState::Prepare | BatchState::CountParameters => {
                &&& first_sets(sets_run(batch, replies), 0)
                &&& resets_done(batch, replies) == 0
            },
            BatchState::Reset { row, .. } => {
                &&& first_sets(sets_run(batch, replies), row as int)
                &&& resets_done(batch, replies) == row
            },
            BatchState::Bind { row, .. }
            | BatchState::ChangesBefore { row, .. }
            | BatchState::Step { row, .. } => {
                &&& first_sets(sets_run(batch, replies), row as int)
                &&& resets_done(batch, replies) == row + 1
            },
            BatchState::ChangesAfter { row, .. } | BatchState::CountChanges { row, .. } => {
                &&& first_sets(sets_run(batch, replies), row + 1)
                &&& resets_done(batch, replies) == row + 1
            },
            BatchState::LastRowid { .. }
            | BatchState::Finalize { .. }
            | BatchState::Commit { .. } => {
                &&& first_sets(sets_run(batch, replies), batch.params@.len() as int)
                &&& resets_done(batch, replies) == batch.params@.len()
            },
            BatchState::Finished(result) => result is Ok ==> {
                &&& first_sets(sets_run(batch, replies), batch.params@.len() as int)
                &&& resets_done(batch, replies) == batch.params@.len()
            },
            _ => true,
        },
    decreases replies.len(),
{
    if replies.len() > 0 {
        lemma_batch_sound(batch, replies.drop_last());
        law_batch_runs_the_sets_in_order(batch, replies.drop_last());
        assert(batch.params.len() == batch.params@.len());
    }
}

/// The total of changes that was read before the latest run.
pub open spec fn total_before_run(batch: Batch, replies: Seq<BatchReply>) -> Option<i32>
    decreases replies.len(),
{
    if replies.len() == 0 {
        None
    } else {
        match process::reached(batch, replies.drop_last()) {
            BatchState::ChangesBefore { .. } => Some(replies.last()->Code_0),
            _ => total_before_run(batch, replies.drop_last()),
        }
    }
}

/// The changes of a run are counted exactly where the total that SQLite keeps
/// is another behind the run than before it: a statement that changes nothing
/// adds nothing, whatever an earlier one left to be read.
pub proof fn law_batch_counts_what_a_run_changed(batch: Batch, replies: Seq<BatchReply>)
    requires
        process::possible(batch, replies),
    ensures
        match process::reached(batch, replies) {
            BatchState::Step { before, .. } | BatchState::ChangesAfter { before, .. } =>
                total_before_run(batch, replies) == Some(before),
            _ => true,
        },
        replies.len() > 0 ==> (process::reached(batch, replies) is CountChanges <==> {
            &&& process::reached(batch, replies.drop_last()) is ChangesAfter
            &&& total_before_run(batch, replies) != Some(replies.last()->Code_0)
        }),
    decreases replies.len(),
{
    if replies.len() > 0 {
        law_batch_counts_what_a_run_changed(batch, replies.drop_last());
    }
}

/// The rowid that SQLite gave last.
pub open spec fn rowid_read(batch: Batch, replies: Seq<BatchReply>) -> Option<i64>
    decreases replies.len(),
{
    if replies.len() == 0 {
        None
    } else {
        match process::reached(batch, replies.drop_last()) {
            BatchState::LastRowid { .. } => Some(replies.last()->Rowid_0),
            _ => rowid_read(batch, replies.drop_last()),
        }
    }
}

/// The rowid that a batch reports is the one that SQLite gave once every set
/// had been run, before the statement was finalized.
pub proof fn law_batch_reports_the_last_rowid(batch: Batch, replies: Seq<BatchReply>)
    requires
        process::possible(batch, replies),
        batch.params@.len() > 0,
    ensures
        match process::reached(batch, replies) {
            BatchState::Finalize { rowid, .. } | BatchState::Commit { rowid, .. } => rowid_read(
                batch,
                replies,
            ) == Some(rowid),
            BatchState::Finished(Ok((_, rowid))) => rowid_read(batch, replies) == Some(rowid),
            _ => true,
        },
    decreases replies.len(),
{
    if replies.len() > 0 {
        law_batch_reports_the_last_rowid(batch, replies.drop_last());
    }
}

/// The number of parameters that the statement takes, once SQLite has told it.
pub open spec fn parameters_taken(batch: Batch, replies: Seq<BatchReply>) -> Option<i32>
    decreases replies.len(),
{
    if replies.len() == 0 {
        None
    } else {
        match process::reached(batch, replies.drop_last()) {
            BatchState::CountParameters => Some(replies.last()->Code_0),
            _ => parameters_taken(batch, replies.drop_last()),
        }
    }
}

/// What SQLite has answered that fails the batch: the failure of a statement of
/// its own, of preparing or of binding, or a code with the message behind it.
pub open spec fn failure_met(batch: Batch, replies: Seq<BatchReply>) -> Option<Failure>
    decreases replies.len(),
{
    if replies.len() == 0 {
        None
    } else {
        match (process::reached(batch, replies.drop_last()), replies.last()) {
            (
                BatchState::Begin | BatchState::Prepare | BatchState::Commit { .. },
                BatchReply::Outcome(Err(failure)),
            ) => Some(failure),
            (BatchState::Bind { .. }, BatchReply::Bound { code, message }) => if code
                != SQLITE_OK {
                Some(Failure::Reported { code, message })
            } else {
                failure_met(batch, replies.drop_last())
            },
            (BatchState::Explain { code, .. }, BatchReply::Message(message)) => Some(
                Failure::Reported { code, message },
            ),
            _ => failure_met(batch, replies.drop_last()),
        }
    }
}

/// Whether a failure is the batch's own finding: a set of another size than the
/// statement takes, the first such set, or a value that is too long.
pub open spec fn found_unfit(batch: Batch, count: Option<i32>, failure: Failure) -> bool {
    match failure {
        Failure::BindingCount { expected, provided } => {
            &&& count == Some(expected as i32)
            &&& expected <= i32::MAX
            &&& exists|row: int|
                {
                    &&& 0 <= row < batch.params@.len()
                    &&& (#[trigger] batch.params@[row])@.len() == provided
                    &&& provided != expected
                    &&& forall|r: int|
                        0 <= r < row ==> (#[trigger] batch.params@[r])@.len() == expected
                }
        },
        Failure::BindLength => exists|row: int, column: int|
            0 <= row < batch.params@.len() && 0 <= column < batch.params@[row]@.len() && overlong(
                #[trigger] batch.params@[row]@[column],
            ),
        _ => false,
    }
}

proof fn lemma_misfit(batch: Batch, row: int, expected: usize)
    requires
        0 <= row,
        forall|r: int| 0 <= r < row && r < batch.params@.len() ==> (#[trigger] batch.params@[r])@.len() == expected,
    ensures
        match batch.misfit(row, expected) {
            Some(provided) => exists|at: int|
                {
                    &&& 0 <= at < batch.params@.len()
                    &&& (#[trigger] batch.params@[at])@.len() == provided
                    &&& provided != expected
                    &&& forall|r: int|
                        0 <= r < at ==> (#[trigger] batch.params@[r])@.len() == expected
                },
            None => forall|r: int|
                0 <= r < batch.params@.len() ==> (#[trigger] batch.params@[r])@.len() == expected,
        },
    decreases batch.params@.len() - row,
{
    if row < batch.params@.len() {
        assert(batch.params@[row].len() == batch.params@[row]@.len());
        if batch.params@[row]@.len() == expected {
            lemma_misfit(batch, row + 1, expected);
        }
    }
}

/// No set is run unless every set has as many values as the statement takes,
/// and a batch reports what made it fail: the first failure that SQLite
/// answered or, where it answered none, the first set of another size or a
/// value that is too long. What cleaning up answers changes nothing of that.
pub proof fn law_batch_reports_what_failed(batch: Batch, replies: Seq<BatchReply>)
    requires
        process::possible(batch, replies),
        batch.outset() is Begin,
    ensures
        match process::reached(batch, replies) {
            BatchState::Begin | BatchState::Prepare | BatchState::CountParameters => failure_met(
                batch,
                replies,
            ) is None,
            BatchState::Explain { .. } => failure_met(batch, replies) is None,
            BatchState::Abandon(failure) | BatchState::Rollback(failure) | BatchState::Finished(
                Err(failure),
            ) => match failure_met(batch, replies) {
                Some(known) => failure == known,
                None => found_unfit(batch, parameters_taken(batch, replies), failure),
            },
            _ => {
                &&& failure_met(batch, replies) is None
                &&& parameters_taken(batch, replies) matches Some(count) && forall|row: int|
                    0 <= row < batch.params@.len() ==> (#[trigger] batch.params@[row])@.len()
                        == count
            },
        },
    decreases replies.len(),
{
    if replies.len() > 0 {
        lemma_batch_sound(batch, replies.drop_last());
        law_batch_reports_what_failed(batch, replies.drop_last());
        assert(batch.params.len() == batch.params@.len());
        let state = process::reached(batch, replies.drop_last());
        if state is CountParameters {
            lemma_misfit(batch, 0, replies.last()->Code_0 as usize);
        }
    }
}

/// A batch with something to run begins its transaction, unless there is no
/// handle or its query holds a NUL byte, whose first place it then tells.
pub proof fn law_batch_begins_unless_refused(batch: Batch)
    requires
        batch.params@.len() > 0,
    ensures
        batch.null_handle ==> batch.outset() == BatchState::Finished(Err(Failure::NullHandle)),
        !batch.null_handle ==> {
            let bytes = vstd::utf8::encode_utf8(batch.query@);
            if forall|i: int| 0 <= i < bytes.len() ==> bytes[i] != 0 {
                batch.outset() is Begin
            } else {
                &&& batch.outset() matches BatchState::Finished(Err(Failure::NulInQuery { position }))
                &&& bytes.len() <= usize::MAX ==> {
                    &&& position < bytes.len()
                    &&& bytes[position as int] == 0
                    &&& forall|i: int| 0 <= i < position ==> bytes[i] != 0
                }
            }
        },
{
    text::law_first_nul_is_the_first(vstd::utf8::encode_utf8(batch.query@));
}

} // verus!
