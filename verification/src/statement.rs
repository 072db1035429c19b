//! Running a control statement, and preparing a query that is one statement.

use crate::codes::{SQLITE_DONE, SQLITE_ERROR, SQLITE_OK, SQLITE_ROW};
use crate::failure::Failure;
use crate::process;
use crate::process::Process;
use crate::text;
use vstd::prelude::*;
use vstd::string::*;

verus! {

// ---------------------------------------------------------------- exec_simple

/// Running one control statement, such as `BEGIN`, to its end.
pub struct Exec {
    /// The statement.
    pub sql: String,
}

/// The call that a control statement waits for.
pub enum ExecState {
    /// Prepare the statement.
    Prepare,
    /// Step it.
    Step,
    /// Finalize it; it ran to its end.
    Close,
    /// Finalize it; a step gave this code.
    Abandon { code: i32 },
    /// Read the error message that goes with this code.
    Explain { code: i32 },
    /// No call is left.
    Finished(Result<(), Failure>),
}

/// What a call of a control statement brings back.
pub enum ExecReply {
    /// The code of preparing, and whether there is a statement.
    Prepared { code: i32, statement: bool },
    /// The code of a step, or of finalizing.
    Code(i32),
    /// An error message.
    Message(String),
}

impl Process for Exec {
    type State = ExecState;

    type Reply = ExecReply;

    open spec fn outset(self) -> ExecState {
        match text::nul_in(self.sql@) {
            Some(position) => ExecState::Finished(
                Err(Failure::NulInStatement { position: position as usize }),
            ),
            None => ExecState::Prepare,
        }
    }

    open spec fn ended(self, state: ExecState) -> bool {
        state is Finished
    }

    open spec fn answers(self, state: ExecState, reply: ExecReply) -> bool {
        match state {
            ExecState::Prepare => reply is Prepared,
            ExecState::Step | ExecState::Close | ExecState::Abandon { .. } => reply is Code,
            ExecState::Explain { .. } => reply is Message,
            ExecState::Finished(_) => false,
        }
    }

    open spec fn next(self, state: ExecState, reply: ExecReply) -> ExecState {
        match (state, reply) {
            (ExecState::Prepare, ExecReply::Prepared { code, statement }) => if code != SQLITE_OK {
                ExecState::Explain { code }
            } else if !statement {
                ExecState::Finished(Err(Failure::NoStatement { code }))
            } else {
                ExecState::Step
            },
            (ExecState::Step, ExecReply::Code(code)) => if code == SQLITE_ROW {
                ExecState::Step
            } else if code == SQLITE_DONE {
                ExecState::Close
            } else {
                ExecState::Abandon { code }
            },
            (ExecState::Close, _) => ExecState::Finished(Ok(())),
            (ExecState::Abandon { code }, _) => ExecState::Explain { code },
            (ExecState::Explain { code }, ExecReply::Message(message)) => ExecState::Finished(
                Err(Failure::Reported { code, message }),
            ),
            (state, _) => state,
        }
    }
}

impl Exec {
    /// The first call to make.
    pub fn start(&self) -> (out: ExecState)
        ensures
            out == self.outset(),
    {
        match text::nul_position(self.sql.as_str()) {
            Some(position) => ExecState::Finished(Err(Failure::NulInStatement { position })),
            None => ExecState::Prepare,
        }
    }

    /// The call to make behind a reply.
    pub fn resume(&self, state: ExecState, reply: ExecReply) -> (out: ExecState)
        ensures
            out == self.next(state, reply),
    {
        match (state, reply) {
            (ExecState::Prepare, ExecReply::Prepared { code, statement }) => if code != SQLITE_OK {
                ExecState::Explain { code }
            } else if !statement {
                ExecState::Finished(Err(Failure::NoStatement { code }))
            } else {
                ExecState::Step
            },
            (ExecState::Step, ExecReply::Code(code)) => if code == SQLITE_ROW {
                ExecState::Step
            } else if code == SQLITE_DONE {
                ExecState::Close
            } else {
                ExecState::Abandon { code }
            },
            (ExecState::Close, _) => ExecState::Finished(Ok(())),
            (ExecState::Abandon { code }, _) => ExecState::Explain { code },
            (ExecState::Explain { code }, ExecReply::Message(message)) => ExecState::Finished(
                Err(Failure::Reported { code, message }),
            ),
            (state, _) => state,
        }
    }
}

/// Whether a state holds a prepared statement.
pub open spec fn exec_holds(state: ExecState) -> bool {
    state is Step || state is Close || state is Abandon
}

/// A control statement is finalized exactly once where it was prepared, and
/// nothing else is: the reply to preparing that brings a statement opens it,
/// finalizing closes it, and between the two every call needs it.
pub proof fn law_exec_finalizes_once(exec: Exec, state: ExecState, reply: ExecReply)
    requires
        exec.answers(state, reply),
    ensures
        !exec_holds(exec.outset()),
        exec_holds(exec.next(state, reply)) <==> {
            ||| state is Prepare && reply->statement && reply->Prepared_code == SQLITE_OK
            ||| exec_holds(state) && !(state is Close || state is Abandon)
        },
        exec.ended(exec.next(state, reply)) ==> !exec_holds(exec.next(state, reply)),
{
}

/// Whether the replies are those of a statement that ran to its end.
pub open spec fn exec_succeeds(replies: Seq<ExecReply>) -> bool {
    &&& replies.len() >= 3
    &&& replies[0] == (ExecReply::Prepared { code: SQLITE_OK, statement: true })
    &&& forall|i: int|
        1 <= i < replies.len() - 2 ==> (#[trigger] replies[i]) == ExecReply::Code(SQLITE_ROW)
    &&& replies[replies.len() - 2] == ExecReply::Code(SQLITE_DONE)
}

/// Whether the replies so far are those of a statement that still runs.
spec fn exec_runs(replies: Seq<ExecReply>) -> bool {
    &&& replies.len() >= 1
    &&& replies[0] == (ExecReply::Prepared { code: SQLITE_OK, statement: true })
    &&& forall|i: int|
        1 <= i < replies.len() ==> (#[trigger] replies[i]) == ExecReply::Code(SQLITE_ROW)
}

/// A control statement succeeds exactly where preparing brings a statement,
/// each step but the last gives a row, and the last one is done. What
/// finalizing answers does not matter.
pub proof fn law_exec_success(exec: Exec, replies: Seq<ExecReply>)
    requires
        process::possible(exec, replies),
    ensures
        process::reached(exec, replies) == ExecState::Finished(Ok(())) <==> text::nul_in(
            exec.sql@,
        ) is None && exec_succeeds(replies),
    decreases replies.len(),
{
    lemma_exec_course(exec, replies);
    if replies.len() > 0 {
        let before = replies.drop_last();
        lemma_exec_course(exec, before);
        if exec_succeeds(replies) && text::nul_in(exec.sql@) is None {
            lemma_exec_runs(exec, replies.take(replies.len() - 2));
            assert(before.drop_last() == replies.take(replies.len() - 2));
            assert(before.last() == ExecReply::Code(SQLITE_DONE));
            assert(process::reached(exec, before) is Close);
        }
    }
}

proof fn lemma_exec_runs(exec: Exec, replies: Seq<ExecReply>)
    requires
        exec_runs(replies),
        text::nul_in(exec.sql@) is None,
    ensures
        process::reached(exec, replies) is Step,
    decreases replies.len(),
{
    let before = replies.drop_last();
    if replies.len() == 1 {
        assert(process::reached(exec, before) == exec.outset());
    } else {
        lemma_exec_runs(exec, before);
    }
}

proof fn lemma_exec_course(exec: Exec, replies: Seq<ExecReply>)
    requires
        process::possible(exec, replies),
    ensures
        process::reached(exec, replies) is Prepare ==> replies.len() == 0 && text::nul_in(
            exec.sql@,
        ) is None,
        process::reached(exec, replies) is Step ==> text::nul_in(exec.sql@) is None && exec_runs(
            replies,
        ),
        process::reached(exec, replies) is Close ==> {
            &&& text::nul_in(exec.sql@) is None
            &&& replies.len() >= 2
            &&& exec_runs(replies.drop_last())
            &&& replies.last() == ExecReply::Code(SQLITE_DONE)
        },
        process::reached(exec, replies) == ExecState::Finished(Ok(())) ==> text::nul_in(
            exec.sql@,
        ) is None && exec_succeeds(replies),
    decreases replies.len(),
{
    if replies.len() > 0 {
        let before = replies.drop_last();
        lemma_exec_course(exec, before);
        if process::reached(exec, before) is Step && process::reached(exec, replies) is Step {
            assert(replies[0] == before[0]);
            assert forall|i: int| 1 <= i < replies.len() implies (#[trigger] replies[i])
                == ExecReply::Code(SQLITE_ROW) by {
                if i < replies.len() - 1 {
                    assert(replies[i] == before[i]);
                }
            }
        }
        if process::reached(exec, replies) == ExecState::Finished(Ok(())) {
            assert(process::reached(exec, before) is Close);
            assert(exec_runs(before.drop_last()));
            assert forall|i: int| 1 <= i < replies.len() - 2 implies (#[trigger] replies[i])
                == ExecReply::Code(SQLITE_ROW) by {
                assert(replies[i] == before.drop_last()[i]);
            }
            assert(replies[0] == before.drop_last()[0]);
        }
    }
}

// ---------------------------------------------------------------- prepare_single_statement

/// Preparing a query that must be exactly one statement: nothing that can be
/// executed may follow the first one.
pub struct Prepare {
    /// The number of bytes of the query, which holds no NUL byte.
    pub length: usize,
}

/// The call that preparing waits for.
pub enum PrepareState {
    /// Prepare the first statement of the query.
    First,
    /// Prepare what stands in the query from this byte on.
    Tail { at: usize },
    /// Read the message that goes with this code; there is no statement.
    Explain { code: i32 },
    /// Read the message that goes with this code; the first statement is held.
    ExplainTail { code: i32 },
    /// Finalize the second statement; the first one is held too.
    DropExtra,
    /// Finalize the first statement because of this failure.
    Drop(Failure),
    /// No call is left. Where it went well the first statement is held.
    Finished(Result<(), Failure>),
}

/// What a call of preparing brings back.
pub enum PrepareReply {
    /// The code, whether there is a statement, and the byte of the query at
    /// which the rest begins, where SQLite points to one.
    Prepared { code: i32, statement: bool, tail: Option<usize> },
    /// The code of finalizing.
    Code(i32),
    /// An error message.
    Message(String),
}

impl Prepare {
    /// Goes on with the rest of the query, or ends where there is none.
    pub open spec fn rest(self, tail: Option<usize>) -> PrepareState {
        match tail {
            Some(at) => if at < self.length {
                PrepareState::Tail { at }
            } else {
                PrepareState::Finished(Ok(()))
            },
            None => PrepareState::Finished(Ok(())),
        }
    }
}

impl Process for Prepare {
    type State = PrepareState;

    type Reply = PrepareReply;

    open spec fn outset(self) -> PrepareState {
        PrepareState::First
    }

    open spec fn ended(self, state: PrepareState) -> bool {
        state is Finished
    }

    open spec fn answers(self, state: PrepareState, reply: PrepareReply) -> bool {
        match state {
            PrepareState::First | PrepareState::Tail { .. } => reply is Prepared,
            PrepareState::Explain { .. } | PrepareState::ExplainTail { .. } => reply is Message,
            PrepareState::DropExtra | PrepareState::Drop(_) => reply is Code,
            PrepareState::Finished(_) => false,
        }
    }

    open spec fn next(self, state: PrepareState, reply: PrepareReply) -> PrepareState {
        match (state, reply) {
            (PrepareState::First, PrepareReply::Prepared { code, statement, tail }) => if code
                != SQLITE_OK {
                PrepareState::Explain { code }
            } else if !statement {
                PrepareState::Finished(Err(Failure::NoStatement { code: SQLITE_ERROR }))
            } else {
                self.rest(tail)
            },
            (PrepareState::Tail { at }, PrepareReply::Prepared { code, statement, tail }) =>
                if code != SQLITE_OK {
                PrepareState::ExplainTail { code }
            } else if statement {
                PrepareState::DropExtra
            } else if tail is None || tail == Some(at) {
                PrepareState::Drop(Failure::UnreadTail)
            } else {
                self.rest(tail)
            },
            (PrepareState::Explain { code }, PrepareReply::Message(message)) =>
                PrepareState::Finished(Err(Failure::Reported { code, message })),
            (PrepareState::ExplainTail { code }, PrepareReply::Message(message)) =>
                PrepareState::Drop(Failure::Reported { code, message }),
            (PrepareState::DropExtra, _) => PrepareState::Drop(Failure::SeveralStatements),
            (PrepareState::Drop(failure), _) => PrepareState::Finished(Err(failure)),
            (state, _) => state,
        }
    }
}

impl Prepare {
    fn go_on(&self, tail: Option<usize>) -> (out: PrepareState)
        ensures
            out == self.rest(tail),
    {
        match tail {
            Some(at) => if at < self.length {
                PrepareState::Tail { at }
            } else {
                PrepareState::Finished(Ok(()))
            },
            None => PrepareState::Finished(Ok(())),
        }
    }

    /// The first call to make.
    pub fn start(&self) -> (out: PrepareState)
        ensures
            out == self.outset(),
    {
        PrepareState::First
    }

    /// The call to make behind a reply.
    pub fn resume(&self, state: PrepareState, reply: PrepareReply) -> (out: PrepareState)
        ensures
            out == self.next(state, reply),
    {
        match (state, reply) {
            (PrepareState::First, PrepareReply::Prepared { code, statement, tail }) => if code
                != SQLITE_OK {
                PrepareState::Explain { code }
            } else if !statement {
                PrepareState::Finished(Err(Failure::NoStatement { code: SQLITE_ERROR }))
            } else {
                self.go_on(tail)
            },
            (PrepareState::Tail { at }, PrepareReply::Prepared { code, statement, tail }) =>
                if code != SQLITE_OK {
                PrepareState::ExplainTail { code }
            } else if statement {
                PrepareState::DropExtra
            } else {
                match tail {
                    Some(next_tail) if next_tail != at => self.go_on(tail),
                    _ => PrepareState::Drop(Failure::UnreadTail),
                }
            },
            (PrepareState::Explain { code }, PrepareReply::Message(message)) =>
                PrepareState::Finished(Err(Failure::Reported { code, message })),
            (PrepareState::ExplainTail { code }, PrepareReply::Message(message)) =>
                PrepareState::Drop(Failure::Reported { code, message }),
            (PrepareState::DropExtra, _) => PrepareState::Drop(Failure::SeveralStatements),
            (PrepareState::Drop(failure), _) => PrepareState::Finished(Err(failure)),
            (state, _) => state,
        }
    }
}

/// How many statements these replies have opened and not finalized.
pub open spec fn prepare_open(prepare: Prepare, replies: Seq<PrepareReply>) -> int
    decreases replies.len(),
{
    if replies.len() == 0 {
        0
    } else {
        let state = process::reached(prepare, replies.drop_last());
        let reply = replies.last();
        prepare_open(prepare, replies.drop_last()) + (if reply is Prepared
            && reply->Prepared_code == SQLITE_OK && reply->statement {
            1int
        } else if state is DropExtra || state is Drop {
            -1int
        } else {
            0int
        })
    }
}

/// Preparing hands over exactly one open statement where it succeeds, and none
/// where it fails, whatever SQLite answers on the way.
pub proof fn law_prepare_leaves_one_statement(prepare: Prepare, replies: Seq<PrepareReply>)
    requires
        process::possible(prepare, replies),
    ensures
        prepare_open(prepare, replies) == match process::reached(prepare, replies) {
            PrepareState::First | PrepareState::Explain { .. } => 0int,
            PrepareState::Tail { .. } | PrepareState::ExplainTail { .. } | PrepareState::Drop(_) =>
                1,
            PrepareState::DropExtra => 2,
            PrepareState::Finished(Ok(_)) => 1,
            PrepareState::Finished(Err(_)) => 0,
        },
    decreases replies.len(),
{
    if replies.len() > 0 {
        law_prepare_leaves_one_statement(prepare, replies.drop_last());
    }
}

/// Whether a reply to preparing the rest of a query shows that nothing that
/// can be executed stands there.
pub open spec fn blank_tail(reply: PrepareReply) -> bool {
    &&& reply is Prepared
    &&& reply->Prepared_code == SQLITE_OK
    &&& !reply->statement
}

/// Where preparing succeeds the query was one statement: the first call
/// brought a statement, and every later one read on and found none.
pub proof fn law_prepare_takes_one_statement(prepare: Prepare, replies: Seq<PrepareReply>)
    requires
        process::possible(prepare, replies),
        process::reached(prepare, replies) == PrepareState::Finished(Ok(())),
    ensures
        replies.len() > 0,
        replies[0] is Prepared && replies[0]->Prepared_code == SQLITE_OK && replies[0]->statement,
        forall|i: int| 1 <= i < replies.len() ==> blank_tail(#[trigger] replies[i]),
        replies.last()->tail is None || replies.last()->tail->0 >= prepare.length,
{
    let before = replies.drop_last();
    lemma_prepare_course(prepare, before);
    assert forall|i: int| 1 <= i < replies.len() implies blank_tail(#[trigger] replies[i]) by {
        if i < replies.len() - 1 {
            assert(replies[i] == before[i]);
        }
    }
    if before.len() > 0 {
        assert(replies[0] == before[0]);
    }
}

proof fn lemma_prepare_course(prepare: Prepare, replies: Seq<PrepareReply>)
    requires
        process::possible(prepare, replies),
    ensures
        process::reached(prepare, replies) is First ==> replies.len() == 0,
        process::reached(prepare, replies) is Tail ==> {
            &&& replies.len() > 0
            &&& replies[0] is Prepared
            &&& replies[0]->Prepared_code == SQLITE_OK
            &&& replies[0]->statement
            &&& forall|i: int| 1 <= i < replies.len() ==> blank_tail(#[trigger] replies[i])
        },
    decreases replies.len(),
{
    if replies.len() > 0 {
        let before = replies.drop_last();
        lemma_prepare_course(prepare, before);
        if process::reached(prepare, replies) is Tail && before.len() > 0 {
            assert(replies[0] == before[0]);
            assert forall|i: int| 1 <= i < replies.len() implies blank_tail(
                #[trigger] replies[i],
            ) by {
                if i < replies.len() - 1 {
                    assert(replies[i] == before[i]);
                }
            }
        }
    }
}

/// A bound on the calls that a control statement has left to make, without the
/// rows that it gives.
pub open spec fn exec_calls_left(state: ExecState) -> int {
    match state {
        ExecState::Prepare => 4,
        ExecState::Step => 3,
        ExecState::Close | ExecState::Abandon { .. } => 2,
        ExecState::Explain { .. } => 1,
        ExecState::Finished(_) => 0,
    }
}

/// With every reply, but for a row that it gives, the bound on the calls that
/// are left goes down: a control statement that gives finitely many rows comes
/// to its end.
pub proof fn law_exec_ends(exec: Exec, state: ExecState, reply: ExecReply)
    requires
        exec.answers(state, reply),
        !(state is Step && reply == ExecReply::Code(SQLITE_ROW)),
    ensures
        0 <= exec_calls_left(exec.next(state, reply)) < exec_calls_left(state),
{
}

/// A bound on the calls that preparing has left to make.
pub open spec fn prepare_calls_left(prepare: Prepare, state: PrepareState) -> int {
    match state {
        PrepareState::First => prepare.length + 4,
        PrepareState::Tail { at } => if at < prepare.length {
            prepare.length - at + 3
        } else {
            3
        },
        PrepareState::ExplainTail { .. } | PrepareState::DropExtra => 2,
        PrepareState::Explain { .. } | PrepareState::Drop(_) => 1,
        PrepareState::Finished(_) => 0,
    }
}

/// Where SQLite never points back behind the place from which it was to read,
/// the bound on the calls that are left goes down with every reply, so that
/// preparing comes to its end.
pub proof fn law_prepare_ends(prepare: Prepare, state: PrepareState, reply: PrepareReply)
    requires
        prepare.answers(state, reply),
        state matches PrepareState::Tail { at } ==> reply->tail matches Some(next) ==> at <= next,
    ensures
        0 <= prepare_calls_left(prepare, prepare.next(state, reply)) < prepare_calls_left(
            prepare,
            state,
        ),
{
}

// ---------------------------------------------------------------- what failed

/// What fails a control statement: no statement where there is no error, or the
/// code of preparing or of a step with the message behind it.
pub open spec fn exec_trouble(exec: Exec, replies: Seq<ExecReply>) -> (Option<i32>, Option<Failure>)
    decreases replies.len(),
{
    if replies.len() == 0 {
        (None, None)
    } else {
        let (failed, trouble) = exec_trouble(exec, replies.drop_last());
        match (process::reached(exec, replies.drop_last()), replies.last()) {
            (ExecState::Prepare, ExecReply::Prepared { code, statement }) => if code != SQLITE_OK {
                (Some(code), trouble)
            } else if !statement {
                (failed, Some(Failure::NoStatement { code }))
            } else {
                (failed, trouble)
            },
            (ExecState::Step, ExecReply::Code(code)) => if code != SQLITE_ROW && code
                != SQLITE_DONE {
                (Some(code), trouble)
            } else {
                (failed, trouble)
            },
            (ExecState::Explain { .. }, ExecReply::Message(message)) => match failed {
                Some(code) => (failed, Some(Failure::Reported { code, message })),
                None => (failed, trouble),
            },
            _ => (failed, trouble),
        }
    }
}

/// A control statement fails with the code that SQLite gave and the message
/// that it gave for it, or for want of a statement, or before any call on the
/// first NUL byte, and with nothing else.
pub proof fn law_exec_reports_what_failed(exec: Exec, replies: Seq<ExecReply>)
    requires
        process::possible(exec, replies),
    ensures
        ({
            let bytes = vstd::utf8::encode_utf8(exec.sql@);
            let clear = forall|i: int| 0 <= i < bytes.len() ==> bytes[i] != 0;
            let (failed, trouble) = exec_trouble(exec, replies);
            match process::reached(exec, replies) {
                ExecState::Prepare | ExecState::Step | ExecState::Close => clear && failed is None
                    && trouble is None,
                ExecState::Abandon { code } | ExecState::Explain { code } => clear && failed
                    == Some(code) && trouble is None,
                ExecState::Finished(Ok(_)) => clear && failed is None && trouble is None,
                ExecState::Finished(Err(failure)) => if clear {
                    trouble == Some(failure)
                } else {
                    &&& replies.len() == 0
                    &&& failure matches Failure::NulInStatement { position }
                    &&& bytes.len() <= usize::MAX ==> {
                        &&& position < bytes.len()
                        &&& bytes[position as int] == 0
                        &&& forall|i: int| 0 <= i < position ==> bytes[i] != 0
                    }
                },
            }
        }),
    decreases replies.len(),
{
    text::law_first_nul_is_the_first(vstd::utf8::encode_utf8(exec.sql@));
    if replies.len() > 0 {
        law_exec_reports_what_failed(exec, replies.drop_last());
    }
}

/// Where SQLite said last that the rest of the query begins.
pub open spec fn tail_told(prepare: Prepare, replies: Seq<PrepareReply>) -> Option<usize>
    decreases replies.len(),
{
    if replies.len() == 0 {
        None
    } else {
        match replies.last() {
            PrepareReply::Prepared { tail, .. } => tail,
            _ => tail_told(prepare, replies.drop_last()),
        }
    }
}

/// What fails the preparing of a query, with the code that is to be explained.
pub open spec fn prepare_trouble(
    prepare: Prepare,
    replies: Seq<PrepareReply>,
) -> (Option<i32>, Option<Failure>)
    decreases replies.len(),
{
    if replies.len() == 0 {
        (None, None)
    } else {
        let (failed, trouble) = prepare_trouble(prepare, replies.drop_last());
        match (process::reached(prepare, replies.drop_last()), replies.last()) {
            (PrepareState::First, PrepareReply::Prepared { code, statement, .. }) => if code
                != SQLITE_OK {
                (Some(code), trouble)
            } else if !statement {
                (failed, Some(Failure::NoStatement { code: SQLITE_ERROR }))
            } else {
                (failed, trouble)
            },
            (PrepareState::Tail { at }, PrepareReply::Prepared { code, statement, tail }) =>
                if code != SQLITE_OK {
                (Some(code), trouble)
            } else if statement {
                (failed, Some(Failure::SeveralStatements))
            } else if tail is None || tail == Some(at) {
                (failed, Some(Failure::UnreadTail))
            } else {
                (failed, trouble)
            },
            (
                PrepareState::Explain { .. } | PrepareState::ExplainTail { .. },
                PrepareReply::Message(message),
            ) => match failed {
                Some(code) => (failed, Some(Failure::Reported { code, message })),
                None => (failed, trouble),
            },
            _ => (failed, trouble),
        }
    }
}

/// Preparing reads on from where SQLite says that the rest begins, as long as
/// that is inside the query. It fails with the code and message that SQLite
/// gave, for want of a statement, on a second one, or on a rest that is not
/// read any further, and with nothing else.
pub proof fn law_prepare_reads_on(prepare: Prepare, replies: Seq<PrepareReply>)
    requires
        process::possible(prepare, replies),
    ensures
        ({
            let (failed, trouble) = prepare_trouble(prepare, replies);
            match process::reached(prepare, replies) {
                PrepareState::First => failed is None && trouble is None && replies.len() == 0,
                PrepareState::Tail { at } => {
                    &&& failed is None && trouble is None
                    &&& tail_told(prepare, replies) == Some(at)
                    &&& at < prepare.length
                },
                PrepareState::Explain { code } | PrepareState::ExplainTail { code } => failed
                    == Some(code) && trouble is None,
                PrepareState::DropExtra => trouble == Some(Failure::SeveralStatements),
                PrepareState::Drop(failure) => trouble == Some(failure),
                PrepareState::Finished(Ok(_)) => {
                    &&& failed is None && trouble is None
                    &&& tail_told(prepare, replies) matches Some(at) ==> at >= prepare.length
                },
                PrepareState::Finished(Err(failure)) => trouble == Some(failure),
            }
        }),
    decreases replies.len(),
{
    if replies.len() > 0 {
        law_prepare_reads_on(prepare, replies.drop_last());
    }
}

} // verus!
