//! What SQLite is told when it calls a registered callback.
//!
//! The caller runs the user's code and hands over what came of it; the
//! functions here say what SQLite gets.

use crate::codes::SQLITE_DENY;
use crate::text;
use vstd::prelude::*;
use vstd::string::*;

verus! {

/// What came of running a progress handler.
#[derive(Clone, Copy, PartialEq, Eq, Structural)]
pub enum Progressed {
    /// It returned a truth value: whether to go on.
    Flag(bool),
    /// It returned a number.
    Number(i32),
    /// It returned something else.
    Other,
    /// It raised an exception.
    Raised,
}

/// What SQLite is told by a progress handler: zero to go on, anything else to
/// stop.
pub open spec fn progress_told(progressed: Progressed) -> i32 {
    match progressed {
        Progressed::Flag(goes_on) => if goes_on {
            0
        } else {
            1
        },
        Progressed::Number(number) => number,
        Progressed::Other | Progressed::Raised => 0,
    }
}

/// A progress handler stops the statement only where it says so: by the truth
/// value for no, or by a number that is not zero, which is handed on as it is.
/// One that fails, or says something else, does not.
pub proof fn law_progress_stops_only_when_told(progressed: Progressed)
    ensures
        progress_told(progressed) != 0 <==> progressed == Progressed::Flag(false) || (
        progressed matches Progressed::Number(number) && number != 0),
        progressed matches Progressed::Number(number) ==> progress_told(progressed) == number,
        progressed == Progressed::Flag(false) ==> progress_told(progressed) == 1,
{
}

/// What SQLite is told by an authorizer that gave this number, or none.
pub open spec fn authorizer_told(returned: Option<i32>) -> i32 {
    match returned {
        Some(number) => number,
        None => SQLITE_DENY,
    }
}

/// An authorizer that gives a number decides by it; one that gives none forbids
/// the action.
pub proof fn law_silent_authorizer_forbids(returned: Option<i32>)
    ensures
        returned matches Some(number) ==> authorizer_told(returned) == number,
        returned is None ==> authorizer_told(returned) == 1,
{
}

/// What SQLite is told by a progress handler: zero to go on, anything else to
/// stop. A handler that fails does not stop the statement.
pub fn progress_verdict(progressed: Progressed) -> (out: i32)
    ensures
        out == progress_told(progressed),
        out == match progressed {
            Progressed::Flag(true) => 0i32,
            Progressed::Flag(false) => 1,
            Progressed::Number(number) => number,
            Progressed::Other | Progressed::Raised => 0,
        },
{
    match progressed {
        Progressed::Flag(true) => 0,
        Progressed::Flag(false) => 1,
        Progressed::Number(number) => number,
        Progressed::Other | Progressed::Raised => 0,
    }
}

/// What SQLite is told by an authorizer. One that fails, or that returns
/// something else than a number, forbids the action.
pub fn authorizer_verdict(returned: Option<i32>) -> (out: i32)
    ensures
        out == authorizer_told(returned),
        out == match returned {
            Some(number) => number,
            None => SQLITE_DENY,
        },
{
    match returned {
        Some(number) => number,
        None => SQLITE_DENY,
    }
}

/// The sign of a number.
pub open spec fn sign(number: int) -> int {
    if number < 0 {
        -1
    } else if number > 0 {
        1
    } else {
        0
    }
}

/// How two strings stand to each other in a collation: before, equal, behind.
/// One that fails, or that returns something else than a number, holds them
/// for equal.
pub open spec fn collated(returned: Option<i32>) -> int {
    match returned {
        Some(number) => sign(number as int),
        None => 0,
    }
}

/// What SQLite is told by a collation.
pub fn collation_verdict(returned: Option<i32>) -> (out: i32)
    ensures
        out == collated(returned),
{
    match returned {
        Some(number) => if number < 0 {
            -1
        } else if number > 0 {
            1
        } else {
            0
        },
        None => 0,
    }
}

/// A collation that turns its number around turns its verdict around.
pub proof fn law_collation_turns_around(number: i32)
    requires
        number > i32::MIN,
    ensures
        collated(Some((-number) as i32)) == -collated(Some(number)),
        -1 <= collated(Some(number)) <= 1,
{
}

/// The string that a collation sees: bytes that are not UTF-8 count as empty.
pub fn collation_text(bytes: Vec<u8>) -> (out: String)
    ensures
        out@ == (if vstd::utf8::valid_utf8(bytes@) {
            vstd::utf8::decode_utf8(bytes@)
        } else {
            Seq::empty()
        }),
{
    match text::utf8_string(bytes) {
        Ok(s) => s,
        Err(_) => String::new(),
    }
}

/// What goes wrong when a function or an aggregate is run.
#[derive(Clone, Copy, PartialEq, Eq, Structural)]
pub enum Mishap {
    /// An argument cannot be converted.
    Argument { index: i32 },
    /// A function raised an exception.
    Function,
    /// An aggregate could not be created.
    Aggregate,
    /// A step of an aggregate raised an exception.
    Step,
    /// An aggregate could not be brought to its end.
    Finalize,
}

/// The error that SQLite reports.
pub open spec fn mishap_sentence(mishap: Mishap, detail: Seq<char>) -> Seq<char> {
    (match mishap {
        Mishap::Argument { index } => "Error converting argument "@ + text::decimal(index as int)
            + ": "@,
        Mishap::Function => "Python function error: "@,
        Mishap::Aggregate => "Python aggregate error: "@,
        Mishap::Step => "Python aggregate step error: "@,
        Mishap::Finalize => "Python aggregate finalize error: "@,
    }) + detail
}

/// Words the error that SQLite reports.
pub fn mishap_text(mishap: Mishap, detail: &str) -> (out: String)
    ensures
        out@ == mishap_sentence(mishap, detail@),
{
    let mut out = match mishap {
        Mishap::Argument { index } => {
            let number = text::format_signed(index as i64);
            let mut out = String::from_str("Error converting argument ");
            out.append(number.as_str());
            out.append(": ");
            out
        },
        Mishap::Function => String::from_str("Python function error: "),
        Mishap::Aggregate => String::from_str("Python aggregate error: "),
        Mishap::Step => String::from_str("Python aggregate step error: "),
        Mishap::Finalize => String::from_str("Python aggregate finalize error: "),
    };
    out.append(detail);
    out
}

/// What marks memory of SQLite that holds the state of an aggregate.
pub const AGGREGATE_MAGIC: u64 = 0x_72_61_70_73_71_6C_78_01;

/// The state of one run of an aggregate, in memory that SQLite keeps and hands
/// out zeroed.
#[derive(Clone, Copy, PartialEq, Eq, Structural)]
pub struct AggregateState {
    pub magic: u64,
    /// The number of the aggregate's instance, or zero.
    pub instance: u64,
}

/// Whether there is an instance.
pub open spec fn has_instance(state: AggregateState) -> bool {
    state.magic == AGGREGATE_MAGIC && state.instance != 0
}

/// The memory as a step leaves it marked: what was not marked before holds no
/// instance.
pub open spec fn marked(found: AggregateState) -> AggregateState {
    AggregateState {
        magic: AGGREGATE_MAGIC,
        instance: if found.magic == AGGREGATE_MAGIC {
            found.instance
        } else {
            0
        },
    }
}

/// Marks the memory of an aggregate before a step.
pub fn mark_memory(found: AggregateState) -> (out: AggregateState)
    ensures
        out == marked(found),
        has_instance(out) == has_instance(found),
{
    let instance: u64 = if found.magic == AGGREGATE_MAGIC {
        found.instance
    } else {
        0
    };
    AggregateState { magic: AGGREGATE_MAGIC, instance }
}

/// The memory with an instance entered.
pub open spec fn entered(found: AggregateState, instance: u64) -> AggregateState {
    AggregateState { magic: found.magic, instance }
}

/// Enters the instance of an aggregate in its memory.
pub fn enter_instance(found: AggregateState, instance: u64) -> (out: AggregateState)
    ensures
        out == entered(found, instance),
{
    AggregateState { magic: found.magic, instance }
}

/// The memory with its instance taken out.
pub open spec fn emptied(found: AggregateState) -> AggregateState {
    if has_instance(found) {
        AggregateState { magic: found.magic, instance: 0 }
    } else {
        found
    }
}

/// Decides which instance gives the result of an aggregate, if any, and takes
/// it out of the memory. Without one the result is NULL.
pub fn take_instance(state: Option<AggregateState>) -> (out: (
    Option<u64>,
    Option<AggregateState>,
))
    ensures
        match state {
            Some(found) => {
                &&& out.0 == (if has_instance(found) {
                    Some(found.instance)
                } else {
                    None
                })
                &&& out.1 == Some(emptied(found))
            },
            None => out == (None::<u64>, state),
        },
{
    match state {
        Some(found) => if found.magic == AGGREGATE_MAGIC && found.instance != 0 {
            (Some(found.instance), Some(AggregateState { magic: found.magic, instance: 0 }))
        } else {
            (None, state)
        },
        None => (None, state),
    }
}

/// A collation orders its strings by the sign of the number that it gives: one
/// below zero comes before, one above behind, and zero, or none at all, holds
/// them for equal.
pub proof fn law_collation_goes_by_the_sign(returned: Option<i32>)
    ensures
        collated(returned) == -1 || collated(returned) == 0 || collated(returned) == 1,
        collated(returned) == -1 <==> (returned matches Some(number) && number < 0),
        collated(returned) == 1 <==> (returned matches Some(number) && number > 0),
{
}

/// Memory that SQLite hands out fresh holds no instance; once it is marked and
/// an instance is entered it holds that one, and marking it again keeps it; and
/// once the instance is taken out it holds none.
pub proof fn law_memory_keeps_its_instance(found: AggregateState, instance: u64)
    requires
        instance != 0,
    ensures
        !has_instance(AggregateState { magic: 0, instance: 0 }),
        has_instance(marked(found)) == has_instance(found),
        has_instance(found) ==> marked(found) == found,
        has_instance(entered(marked(found), instance)),
        entered(marked(found), instance).instance == instance,
        marked(entered(marked(found), instance)) == entered(marked(found), instance),
        !has_instance(emptied(found)),
        has_instance(found) ==> emptied(found).magic == found.magic && emptied(found).instance == 0,
        !has_instance(found) ==> emptied(found) == found,
{
}

/// The error that SQLite reports tells what went wrong in which part, with the
/// place of an argument, and ends with the detail.
pub proof fn law_mishaps_are_worded(mishap: Mishap, detail: Seq<char>)
    ensures
        ({
            let sentence = mishap_sentence(mishap, detail);
            let front = sentence.take(sentence.len() - detail.len());
            &&& sentence.len() >= detail.len()
            &&& sentence.skip(sentence.len() - detail.len()) == detail
            &&& match mishap {
                Mishap::Argument { index } => front == "Error converting argument "@
                    + text::decimal(index as int) + ": "@,
                Mishap::Function => front == "Python function error: "@,
                Mishap::Aggregate => front == "Python aggregate error: "@,
                Mishap::Step => front == "Python aggregate step error: "@,
                Mishap::Finalize => front == "Python aggregate finalize error: "@,
            }
        }),
{
    let sentence = mishap_sentence(mishap, detail);
    let front = sentence.take(sentence.len() - detail.len());
    assert(sentence.skip(sentence.len() - detail.len()) =~= detail);
    match mishap {
        Mishap::Argument { index } => {
            assert(front =~= "Error converting argument "@ + text::decimal(index as int) + ": "@);
        },
        Mishap::Function => {
            assert(front =~= "Python function error: "@);
        },
        Mishap::Aggregate => {
            assert(front =~= "Python aggregate error: "@);
        },
        Mishap::Step => {
            assert(front =~= "Python aggregate step error: "@);
        },
        Mishap::Finalize => {
            assert(front =~= "Python aggregate finalize error: "@);
        },
    }
}

} // verus!
