//! The run of a function or of an aggregate that SQLite calls.

use crate::process;
use crate::process::Process;
use crate::trampolines;
use crate::trampolines::AggregateState;
use crate::trampolines::Mishap;
use std::marker::PhantomData;
use vstd::prelude::*;

verus! {

/// What SQLite calls.
#[derive(Clone, Copy, Debug, PartialEq, Eq, Structural)]
pub enum Invoked {
    /// A function.
    Function,
    /// A step of an aggregate.
    Step,
    /// The end of an aggregate, which has no arguments.
    Final,
}

/// One call from SQLite. An `A` is an object of the callbacks: an argument, or
/// what a callback returns.
pub struct Invocation<A> {
    pub invoked: Invoked,
    /// Whether SQLite knows a callback to run.
    pub registered: bool,
    /// How many arguments there are.
    pub arguments: i32,
    /// The memory of the aggregate, as it was found.
    pub memory: Option<AggregateState>,
    pub objects: PhantomData<A>,
}

/// What is run.
#[derive(Clone, Copy, Debug, PartialEq, Eq, Structural)]
pub enum Receiver {
    /// The function itself.
    Function,
    /// The step of this instance of the aggregate.
    Step { instance: u64 },
    /// The end of this instance of the aggregate.
    Finalize { instance: u64 },
}

/// What a run does next.
pub enum InvocationStep<A> {
    /// Create the instance of the aggregate and enter it in the memory.
    Create,
    /// Convert this argument; those before it are converted.
    Convert { receiver: Receiver, index: i32, converted: Vec<A> },
    /// Run the callback with these arguments, each of them an argument of its
    /// own.
    Call { receiver: Receiver, arguments: Vec<A> },
    /// Hand this value, which the callback returned, over to SQLite.
    HandOver { value: A },
    /// Hand over NULL.
    HandOverNull,
    /// Report an error.
    Report { mishap: Mishap, detail: String },
    /// Nothing is left to do.
    Finished,
}

/// What a run does next, with its arguments as a sequence.
pub enum InvocationState<A> {
    Create,
    Convert { receiver: Receiver, index: i32, converted: Seq<A> },
    Call { receiver: Receiver, arguments: Seq<A> },
    HandOver { value: A },
    HandOverNull,
    Report { mishap: Mishap, detail: String },
    Finished,
}

impl<A> View for InvocationStep<A> {
    type V = InvocationState<A>;

    open spec fn view(&self) -> InvocationState<A> {
        match *self {
            InvocationStep::Create => InvocationState::Create,
            InvocationStep::Convert { receiver, index, converted } => InvocationState::Convert {
                receiver,
                index,
                converted: converted@,
            },
            InvocationStep::Call { receiver, arguments } => InvocationState::Call {
                receiver,
                arguments: arguments@,
            },
            InvocationStep::HandOver { value } => InvocationState::HandOver { value },
            InvocationStep::HandOverNull => InvocationState::HandOverNull,
            InvocationStep::Report { mishap, detail } => InvocationState::Report { mishap, detail },
            InvocationStep::Finished => InvocationState::Finished,
        }
    }
}

/// How that went.
pub enum InvocationReply<A> {
    /// The instance that was created, or why there is none.
    Created(Result<u64, String>),
    /// The argument, or why it cannot be converted.
    Converted(Result<A, String>),
    /// What the callback returned, or what it raised.
    Returned(Result<A, String>),
    /// That it is done.
    Done,
}

impl<A> Invocation<A> {
    /// Whether there is an instance of the aggregate.
    pub open spec fn instantiated(self) -> bool {
        self.memory is Some && trampolines::has_instance(self.memory->0)
    }

    /// Goes on with the argument at this place, or to the callback.
    pub open spec fn argument_from(
        self,
        receiver: Receiver,
        index: int,
        converted: Seq<A>,
    ) -> InvocationState<A> {
        if 0 <= index < self.arguments {
            InvocationState::Convert { receiver, index: index as i32, converted }
        } else {
            InvocationState::Call { receiver, arguments: converted }
        }
    }

    /// What it means that the callback raised an exception.
    pub open spec fn raised(self) -> Mishap {
        match self.invoked {
            Invoked::Function => Mishap::Function,
            Invoked::Step => Mishap::Step,
            Invoked::Final => Mishap::Finalize,
        }
    }
}

impl<A> Process for Invocation<A> {
    type State = InvocationState<A>;

    type Reply = InvocationReply<A>;

    open spec fn outset(self) -> InvocationState<A> {
        match self.invoked {
            Invoked::Function => if self.registered {
                self.argument_from(Receiver::Function, 0, Seq::empty())
            } else {
                InvocationState::HandOverNull
            },
            Invoked::Step => if !self.registered || self.memory is None {
                InvocationState::Finished
            } else if self.instantiated() {
                self.argument_from(
                    Receiver::Step { instance: self.memory->0.instance },
                    0,
                    Seq::empty(),
                )
            } else {
                InvocationState::Create
            },
            Invoked::Final => if self.instantiated() {
                InvocationState::Call {
                    receiver: Receiver::Finalize { instance: self.memory->0.instance },
                    arguments: Seq::empty(),
                }
            } else {
                InvocationState::HandOverNull
            },
        }
    }

    open spec fn ended(self, state: InvocationState<A>) -> bool {
        state is Finished
    }

    open spec fn answers(self, state: InvocationState<A>, reply: InvocationReply<A>) -> bool {
        match state {
            InvocationState::Create => match reply {
                InvocationReply::Created(Ok(instance)) => instance != 0,
                InvocationReply::Created(Err(_)) => true,
                _ => false,
            },
            InvocationState::Convert { .. } => reply is Converted,
            InvocationState::Call { .. } => reply is Returned,
            InvocationState::HandOver { .. }
            | InvocationState::HandOverNull
            | InvocationState::Report { .. } => reply is Done,
            InvocationState::Finished => false,
        }
    }

    open spec fn next(
        self,
        state: InvocationState<A>,
        reply: InvocationReply<A>,
    ) -> InvocationState<A> {
        match (state, reply) {
            (InvocationState::Create, InvocationReply::Created(outcome)) => match outcome {
                Ok(instance) => self.argument_from(Receiver::Step { instance }, 0, Seq::empty()),
                Err(detail) => InvocationState::Report { mishap: Mishap::Aggregate, detail },
            },
            (
                InvocationState::Convert { receiver, index, converted },
                InvocationReply::Converted(outcome),
            ) => match outcome {
                Ok(argument) => self.argument_from(receiver, index + 1, converted.push(argument)),
                Err(detail) => InvocationState::Report {
                    mishap: Mishap::Argument { index },
                    detail,
                },
            },
            (InvocationState::Call { .. }, InvocationReply::Returned(outcome)) => match outcome {
                Ok(value) => if self.invoked == Invoked::Step {
                    InvocationState::Finished
                } else {
                    InvocationState::HandOver { value }
                },
                Err(detail) => InvocationState::Report { mishap: self.raised(), detail },
            },
            (InvocationState::HandOver { .. }, InvocationReply::Done) => InvocationState::Finished,
            (InvocationState::HandOverNull, InvocationReply::Done) => InvocationState::Finished,
            (InvocationState::Report { .. }, InvocationReply::Done) => InvocationState::Finished,
            (state, _) => state,
        }
    }
}

impl<A> Invocation<A> {
    fn behind(&self, receiver: Receiver, index: i32, converted: Vec<A>) -> (out: InvocationStep<A>)
        ensures
            out@ == self.argument_from(receiver, index + 1, converted@),
    {
        if index >= -1 && self.arguments > 0 && index < self.arguments - 1 {
            InvocationStep::Convert { receiver, index: index + 1, converted }
        } else {
            InvocationStep::Call { receiver, arguments: converted }
        }
    }

    /// What a run does first.
    pub fn start(&self) -> (out: InvocationStep<A>)
        ensures
            out@ == self.outset(),
    {
        let instance: Option<u64> = match self.memory {
            Some(state) => if state.magic == trampolines::AGGREGATE_MAGIC && state.instance != 0 {
                Some(state.instance)
            } else {
                None
            },
            None => None,
        };
        match self.invoked {
            Invoked::Function => if self.registered {
                self.behind(Receiver::Function, -1, Vec::new())
            } else {
                InvocationStep::HandOverNull
            },
            Invoked::Step => if !self.registered || self.memory.is_none() {
                InvocationStep::Finished
            } else {
                match instance {
                    Some(instance) => self.behind(Receiver::Step { instance }, -1, Vec::new()),
                    None => InvocationStep::Create,
                }
            },
            Invoked::Final => match instance {
                Some(instance) => InvocationStep::Call {
                    receiver: Receiver::Finalize { instance },
                    arguments: Vec::new(),
                },
                None => InvocationStep::HandOverNull,
            },
        }
    }

    /// What a run does next.
    pub fn resume(&self, state: InvocationStep<A>, reply: InvocationReply<A>) -> (out:
        InvocationStep<A>)
        ensures
            out@ == self.next(state@, reply),
    {
        match (state, reply) {
            (InvocationStep::Create, InvocationReply::Created(outcome)) => match outcome {
                Ok(instance) => self.behind(Receiver::Step { instance }, -1, Vec::new()),
                Err(detail) => InvocationStep::Report { mishap: Mishap::Aggregate, detail },
            },
            (
                InvocationStep::Convert { receiver, index, converted },
                InvocationReply::Converted(outcome),
            ) => match outcome {
                Ok(argument) => {
                    let mut more = converted;
                    more.push(argument);
                    self.behind(receiver, index, more)
                },
                Err(detail) => InvocationStep::Report {
                    mishap: Mishap::Argument { index },
                    detail,
                },
            },
            (InvocationStep::Call { .. }, InvocationReply::Returned(outcome)) => match outcome {
                Ok(value) => match self.invoked {
                    Invoked::Step => InvocationStep::Finished,
                    _ => InvocationStep::HandOver { value },
                },
                Err(detail) => {
                    let mishap = match self.invoked {
                        Invoked::Function => Mishap::Function,
                        Invoked::Step => Mishap::Step,
                        Invoked::Final => Mishap::Finalize,
                    };
                    InvocationStep::Report { mishap, detail }
                },
            },
            (InvocationStep::HandOver { .. }, InvocationReply::Done) => InvocationStep::Finished,
            (InvocationStep::HandOverNull, InvocationReply::Done) => InvocationStep::Finished,
            (InvocationStep::Report { .. }, InvocationReply::Done) => InvocationStep::Finished,
            (state, _) => state,
        }
    }
}

/// The arguments that have been converted, in order.
pub open spec fn converted<A>(invocation: Invocation<A>, replies: Seq<InvocationReply<A>>) -> Seq<A>
    decreases replies.len(),
{
    if replies.len() == 0 {
        Seq::empty()
    } else {
        let before = converted(invocation, replies.drop_last());
        match (process::reached(invocation, replies.drop_last()), replies.last()) {
            (InvocationState::Convert { .. }, InvocationReply::Converted(Ok(argument))) =>
                before.push(argument),
            _ => before,
        }
    }
}

/// The runs of the callback so far: what was run, and with which arguments.
pub open spec fn calls<A>(invocation: Invocation<A>, replies: Seq<InvocationReply<A>>) -> Seq<
    (Receiver, Seq<A>),
>
    decreases replies.len(),
{
    if replies.len() == 0 {
        Seq::empty()
    } else {
        let before = calls(invocation, replies.drop_last());
        match process::reached(invocation, replies.drop_last()) {
            InvocationState::Call { receiver, arguments } => before.push((receiver, arguments)),
            _ => before,
        }
    }
}

/// How many times SQLite has been handed a result or an error.
pub open spec fn answers_given<A>(
    invocation: Invocation<A>,
    replies: Seq<InvocationReply<A>>,
) -> int
    decreases replies.len(),
{
    if replies.len() == 0 {
        0
    } else {
        answers_given(invocation, replies.drop_last()) + (match process::reached(
            invocation,
            replies.drop_last(),
        ) {
            InvocationState::HandOver { .. }
            | InvocationState::HandOverNull
            | InvocationState::Report { .. } => 1int,
            _ => 0int,
        })
    }
}

/// The instance that was created, where one was.
pub open spec fn created<A>(
    invocation: Invocation<A>,
    replies: Seq<InvocationReply<A>>,
) -> Option<u64>
    decreases replies.len(),
{
    if replies.len() == 0 {
        None
    } else {
        match (process::reached(invocation, replies.drop_last()), replies.last()) {
            (InvocationState::Create, InvocationReply::Created(Ok(instance))) => Some(instance),
            _ => created(invocation, replies.drop_last()),
        }
    }
}

/// How many arguments there are to convert.
pub open spec fn expected<A>(invocation: Invocation<A>) -> int {
    if invocation.invoked == Invoked::Final || invocation.arguments < 0 {
        0
    } else {
        invocation.arguments as int
    }
}

/// Whether this is what a run is to run: the function, or the step or the end
/// of the instance that was found or created.
pub open spec fn is_receiver<A>(
    invocation: Invocation<A>,
    receiver: Receiver,
    created: Option<u64>,
) -> bool {
    match invocation.invoked {
        Invoked::Function => receiver == Receiver::Function && created is None,
        Invoked::Step => if invocation.instantiated() {
            receiver == (Receiver::Step { instance: invocation.memory->0.instance }) && created
                is None
        } else {
            created is Some && created->0 != 0 && receiver == (Receiver::Step {
                instance: created->0,
            })
        },
        Invoked::Final => invocation.instantiated() && created is None && receiver == (
        Receiver::Finalize { instance: invocation.memory->0.instance }),
    }
}

proof fn lemma_invocation_course<A>(invocation: Invocation<A>, replies: Seq<InvocationReply<A>>)
    requires
        process::possible(invocation, replies),
    ensures
        match process::reached(invocation, replies) {
            InvocationState::Create => {
                &&& converted(invocation, replies).len() == 0
                &&& calls(invocation, replies).len() == 0
                &&& answers_given(invocation, replies) == 0
                &&& created(invocation, replies) is None
                &&& invocation.invoked == Invoked::Step
                &&& !invocation.instantiated()
            },
            InvocationState::Convert { receiver, index, converted: done } => {
                &&& converted(invocation, replies) == done
                &&& done.len() == index
                &&& 0 <= index < invocation.arguments
                &&& invocation.invoked != Invoked::Final
                &&& is_receiver(invocation, receiver, created(invocation, replies))
                &&& calls(invocation, replies).len() == 0
                &&& answers_given(invocation, replies) == 0
            },
            InvocationState::Call { receiver, arguments } => {
                &&& converted(invocation, replies) == arguments
                &&& arguments.len() == expected(invocation)
                &&& is_receiver(invocation, receiver, created(invocation, replies))
                &&& calls(invocation, replies).len() == 0
                &&& answers_given(invocation, replies) == 0
            },
            InvocationState::HandOver { value } => {
                &&& calls(invocation, replies).len() == 1
                &&& replies.last() == InvocationReply::<A>::Returned(Ok(value))
                &&& answers_given(invocation, replies) == 0
                &&& invocation.invoked != Invoked::Step
            },
            InvocationState::HandOverNull => {
                &&& calls(invocation, replies).len() == 0
                &&& answers_given(invocation, replies) == 0
                &&& invocation.invoked != Invoked::Step
            },
            InvocationState::Report { .. } => {
                &&& calls(invocation, replies).len() <= 1
                &&& answers_given(invocation, replies) == 0
            },
            InvocationState::Finished => {
                &&& calls(invocation, replies).len() <= 1
                &&& answers_given(invocation, replies) <= 1
                &&& invocation.invoked != Invoked::Step ==> answers_given(invocation, replies)
                    == 1
            },
        },
        calls(invocation, replies).len() == 1 ==> {
            &&& calls(invocation, replies)[0].1 == converted(invocation, replies)
            &&& converted(invocation, replies).len() == expected(invocation)
            &&& is_receiver(
                invocation,
                calls(invocation, replies)[0].0,
                created(invocation, replies),
            )
        },
        created(invocation, replies) is Some ==> {
            &&& created(invocation, replies)->0 != 0
            &&& invocation.invoked == Invoked::Step
            &&& !invocation.instantiated()
        },
    decreases replies.len(),
{
    if replies.len() > 0 {
        lemma_invocation_course(invocation, replies.drop_last());
    }
}

/// A callback runs at most once. It then gets every argument that SQLite gave,
/// converted, in order, and each as an argument of its own; and what is run is
/// the function, or the step or the end of the aggregate's own instance.
pub proof fn law_callback_gets_its_arguments<A>(
    invocation: Invocation<A>,
    replies: Seq<InvocationReply<A>>,
)
    requires
        process::possible(invocation, replies),
    ensures
        calls(invocation, replies).len() <= 1,
        calls(invocation, replies).len() == 1 ==> {
            &&& calls(invocation, replies)[0].1 == converted(invocation, replies)
            &&& converted(invocation, replies).len() == expected(invocation)
            &&& is_receiver(
                invocation,
                calls(invocation, replies)[0].0,
                created(invocation, replies),
            )
        },
{
    lemma_invocation_course(invocation, replies);
}

/// Whether there is a callback to run: a function that is registered, a step of
/// an aggregate that is registered and has memory, or the end of an instance.
pub open spec fn has_callback<A>(invocation: Invocation<A>) -> bool {
    match invocation.invoked {
        Invoked::Function => invocation.registered,
        Invoked::Step => invocation.registered && invocation.memory is Some,
        Invoked::Final => invocation.instantiated(),
    }
}

/// Whether something has kept the callback from being run: an instance that
/// could not be created, or an argument that could not be converted.
pub open spec fn hindered<A>(invocation: Invocation<A>, replies: Seq<InvocationReply<A>>) -> bool
    decreases replies.len(),
{
    replies.len() > 0 && {
        ||| hindered(invocation, replies.drop_last())
        ||| match (process::reached(invocation, replies.drop_last()), replies.last()) {
            (InvocationState::Create, InvocationReply::Created(Err(_))) => true,
            (InvocationState::Convert { .. }, InvocationReply::Converted(Err(_))) => true,
            _ => false,
        }
    }
}

proof fn lemma_unhindered<A>(invocation: Invocation<A>, replies: Seq<InvocationReply<A>>)
    requires
        process::possible(invocation, replies),
        has_callback(invocation),
        !hindered(invocation, replies),
    ensures
        calls(invocation, replies).len() == match process::reached(invocation, replies) {
            InvocationState::Create
            | InvocationState::Convert { .. }
            | InvocationState::Call { .. } => 0int,
            _ => 1int,
        },
        !(process::reached(invocation, replies) is HandOverNull),
    decreases replies.len(),
{
    if replies.len() > 0 {
        lemma_unhindered(invocation, replies.drop_last());
    }
}

/// A callback is run exactly once wherever there is one and its arguments can
/// be converted, and the instance of the aggregate can be created where there
/// was none. Without a callback, or where it is hindered, none is run.
pub proof fn law_callback_is_run_once<A>(
    invocation: Invocation<A>,
    replies: Seq<InvocationReply<A>>,
)
    requires
        process::possible(invocation, replies),
        invocation.ended(process::reached(invocation, replies)),
    ensures
        calls(invocation, replies).len() == (if has_callback(invocation) && !hindered(
            invocation,
            replies,
        ) {
            1int
        } else {
            0int
        }),
        has_callback(invocation) && !hindered(invocation, replies) ==> {
            &&& calls(invocation, replies)[0].1 == converted(invocation, replies)
            &&& converted(invocation, replies).len() == expected(invocation)
            &&& is_receiver(
                invocation,
                calls(invocation, replies)[0].0,
                created(invocation, replies),
            )
        },
{
    lemma_invocation_course(invocation, replies);
    if has_callback(invocation) && !hindered(invocation, replies) {
        lemma_unhindered(invocation, replies);
    } else {
        lemma_hindered(invocation, replies);
    }
}

proof fn lemma_hindered<A>(invocation: Invocation<A>, replies: Seq<InvocationReply<A>>)
    requires
        process::possible(invocation, replies),
        !has_callback(invocation) || hindered(invocation, replies),
    ensures
        calls(invocation, replies).len() == 0,
        match process::reached(invocation, replies) {
            InvocationState::HandOverNull
            | InvocationState::Report { .. }
            | InvocationState::Finished => true,
            _ => false,
        },
    decreases replies.len(),
{
    if replies.len() > 0 {
        let before = replies.drop_last();
        lemma_invocation_course(invocation, before);
        if !has_callback(invocation) || hindered(invocation, before) {
            lemma_hindered(invocation, before);
        }
    }
}

/// SQLite gets exactly one answer from a function and from the end of an
/// aggregate, and at most an error from a step; and a value that it gets is
/// the one that the callback has just returned.
pub proof fn law_one_answer<A>(invocation: Invocation<A>, replies: Seq<InvocationReply<A>>)
    requires
        process::possible(invocation, replies),
    ensures
        invocation.ended(process::reached(invocation, replies)) && invocation.invoked
            != Invoked::Step ==> answers_given(invocation, replies) == 1,
        answers_given(invocation, replies) <= 1,
        process::reached(invocation, replies) matches InvocationState::HandOver { value }
            ==> replies.last() == InvocationReply::<A>::Returned(Ok(value)),
{
    lemma_invocation_course(invocation, replies);
}

/// A bound on what a run has left to do.
pub open spec fn steps_left<A>(invocation: Invocation<A>, step: InvocationState<A>) -> int {
    let arguments = if invocation.arguments > 0 {
        invocation.arguments as int
    } else {
        0
    };
    match step {
        InvocationState::Create => arguments + 4,
        InvocationState::Convert { index, .. } => if -1 <= index < arguments {
            arguments - index + 2
        } else {
            3
        },
        InvocationState::Call { .. } => 2,
        InvocationState::HandOver { .. }
        | InvocationState::HandOverNull
        | InvocationState::Report { .. } => 1,
        InvocationState::Finished => 0,
    }
}

/// With every reply the bound on what is left to do goes down, so that a call
/// from SQLite comes to its end.
pub proof fn law_invocation_ends<A>(
    invocation: Invocation<A>,
    state: InvocationState<A>,
    reply: InvocationReply<A>,
)
    requires
        invocation.answers(state, reply),
    ensures
        0 <= steps_left(invocation, invocation.next(state, reply)) < steps_left(
            invocation,
            state,
        ),
{
}

// ---------------------------------------------------------------- groups

/// A step of an aggregate for one row of a group: how many arguments there
/// are, and how its run went.
pub struct GroupStep<A> {
    pub arguments: i32,
    pub replies: Seq<InvocationReply<A>>,
}

/// The call for a row, on the memory that SQLite keeps for the group.
pub open spec fn step_invocation<A>(memory: AggregateState, step: GroupStep<A>) -> Invocation<A> {
    Invocation {
        invoked: Invoked::Step,
        registered: true,
        arguments: step.arguments,
        memory: Some(trampolines::marked(memory)),
        objects: PhantomData,
    }
}

/// The memory behind the step for a row: it is marked, and an instance that
/// was created is entered.
pub open spec fn memory_after<A>(memory: AggregateState, step: GroupStep<A>) -> AggregateState {
    match created(step_invocation(memory, step), step.replies) {
        Some(instance) => trampolines::entered(trampolines::marked(memory), instance),
        None => trampolines::marked(memory),
    }
}

/// The memory behind the steps for these rows. SQLite hands it out zeroed.
pub open spec fn group_memory<A>(steps: Seq<GroupStep<A>>) -> AggregateState
    decreases steps.len(),
{
    if steps.len() == 0 {
        AggregateState { magic: 0, instance: 0 }
    } else {
        memory_after(group_memory(steps.drop_last()), steps.last())
    }
}

/// The call for the row at this place of a group.
pub open spec fn group_invocation<A>(steps: Seq<GroupStep<A>>, i: int) -> Invocation<A> {
    step_invocation(group_memory(steps.take(i)), steps[i])
}

/// The call for the end of a group.
pub open spec fn group_end<A>(steps: Seq<GroupStep<A>>) -> Invocation<A> {
    Invocation {
        invoked: Invoked::Final,
        registered: true,
        arguments: 0,
        memory: Some(group_memory(steps)),
        objects: PhantomData,
    }
}

/// Whether each step of a group has run to its end.
pub open spec fn group_ran<A>(steps: Seq<GroupStep<A>>) -> bool {
    forall|i: int|
        #![trigger steps[i]]
        0 <= i < steps.len() ==> {
            &&& process::possible(group_invocation(steps, i), steps[i].replies)
            &&& process::reached(group_invocation(steps, i), steps[i].replies) is Finished
        }
}

/// Whether the step for the row at this place created an instance.
pub open spec fn creates_at<A>(steps: Seq<GroupStep<A>>, i: int) -> bool {
    created(group_invocation(steps, i), steps[i].replies) is Some
}

/// Whether each run of the step for the row at this place is that of an
/// instance.
pub open spec fn steps_instance<A>(steps: Seq<GroupStep<A>>, i: int, instance: u64) -> bool {
    let runs = calls(group_invocation(steps, i), steps[i].replies);
    forall|k: int|
        0 <= k < runs.len() ==> (#[trigger] runs[k]).0 == (Receiver::Step { instance })
}

proof fn lemma_group_step<A>(steps: Seq<GroupStep<A>>, i: int)
    requires
        group_ran(steps),
        0 <= i < steps.len(),
    ensures
        ({
            let found = group_memory(steps.take(i));
            let left = group_memory(steps.take(i + 1));
            &&& trampolines::has_instance(found) ==> left.instance == found.instance
                && trampolines::has_instance(left)
            &&& creates_at(steps, i) ==> !trampolines::has_instance(found)
                && trampolines::has_instance(left)
            &&& trampolines::has_instance(left) ==> trampolines::has_instance(found) || creates_at(
                steps,
                i,
            )
            &&& steps_instance(steps, i, left.instance)
            &&& calls(group_invocation(steps, i), steps[i].replies).len() > 0
                ==> trampolines::has_instance(left)
        }),
{
    let invocation = group_invocation(steps, i);
    assert(steps.take(i + 1).drop_last() =~= steps.take(i));
    assert(steps.take(i + 1).last() == steps[i]);
    lemma_invocation_course(invocation, steps[i].replies);
}

proof fn lemma_group_keeps_instance<A>(steps: Seq<GroupStep<A>>, i: int, j: int)
    requires
        group_ran(steps),
        0 <= i <= j <= steps.len(),
        trampolines::has_instance(group_memory(steps.take(i))),
    ensures
        trampolines::has_instance(group_memory(steps.take(j))),
        group_memory(steps.take(j)).instance == group_memory(steps.take(i)).instance,
    decreases j - i,
{
    if i < j {
        lemma_group_step(steps, i);
        lemma_group_keeps_instance(steps, i + 1, j);
    }
}

proof fn lemma_group_creates<A>(steps: Seq<GroupStep<A>>, n: int)
    requires
        group_ran(steps),
        0 <= n <= steps.len(),
        trampolines::has_instance(group_memory(steps.take(n))),
    ensures
        exists|i: int| 0 <= i < n && creates_at(steps, i),
    decreases n,
{
    if n > 0 {
        lemma_group_step(steps, n - 1);
        if !creates_at(steps, n - 1) {
            lemma_group_creates(steps, n - 1);
        }
    }
}

/// An aggregate works on each group with one instance of its own: at most one
/// is created; each step that is run, row by row, is that of this instance; at
/// the end this instance, and no other, is finalized, and behind that the
/// memory holds none any more; and a group for which none was created, such as
/// one without rows, gives NULL.
pub proof fn law_group_has_one_instance<A>(steps: Seq<GroupStep<A>>)
    requires
        group_ran(steps),
    ensures
        forall|i: int, j: int|
            0 <= i < steps.len() && 0 <= j < steps.len() && #[trigger] creates_at(steps, i)
                && #[trigger] creates_at(steps, j) ==> i == j,
        forall|i: int|
            0 <= i < steps.len() ==> #[trigger] steps_instance(
                steps,
                i,
                group_memory(steps).instance,
            ),
        (exists|i: int| 0 <= i < steps.len() && creates_at(steps, i)) ==> group_end(steps).outset()
            == (InvocationState::<A>::Call {
            receiver: Receiver::Finalize { instance: group_memory(steps).instance },
            arguments: Seq::empty(),
        }),
        !(exists|i: int| 0 <= i < steps.len() && creates_at(steps, i)) ==> group_end(steps).outset()
            == InvocationState::<A>::HandOverNull,
        steps.len() == 0 ==> group_end(steps).outset() == InvocationState::<A>::HandOverNull,
        !trampolines::has_instance(trampolines::emptied(group_memory(steps))),
{
    assert(steps.take(steps.len() as int) =~= steps);
    let end = steps.len() as int;
    assert forall|i: int, j: int|
        0 <= i < steps.len() && 0 <= j < steps.len() && #[trigger] creates_at(steps, i)
            && #[trigger] creates_at(steps, j) implies i == j by {
        lemma_group_step(steps, i);
        lemma_group_step(steps, j);
        if i < j {
            lemma_group_keeps_instance(steps, i + 1, j);
        }
        if j < i {
            lemma_group_keeps_instance(steps, j + 1, i);
        }
    }
    assert forall|i: int| 0 <= i < steps.len() implies #[trigger] steps_instance(
        steps,
        i,
        group_memory(steps).instance,
    ) by {
        lemma_group_step(steps, i);
        if calls(group_invocation(steps, i), steps[i].replies).len() > 0 {
            lemma_group_keeps_instance(steps, i + 1, end);
        }
    }
    if exists|i: int| 0 <= i < steps.len() && creates_at(steps, i) {
        let i = choose|i: int| 0 <= i < steps.len() && creates_at(steps, i);
        lemma_group_step(steps, i);
        lemma_group_keeps_instance(steps, i + 1, end);
    }
    if trampolines::has_instance(group_memory(steps)) {
        lemma_group_creates(steps, end);
    }
}

/// Whether nothing has kept the step for any row of a group from being run.
pub open spec fn group_unhindered<A>(steps: Seq<GroupStep<A>>) -> bool {
    forall|i: int|
        #![trigger steps[i]]
        0 <= i < steps.len() ==> !hindered(group_invocation(steps, i), steps[i].replies)
}

/// Whether the step for the row at this place is run exactly once, with the
/// arguments of the row, and is that of this instance.
pub open spec fn steps_once<A>(steps: Seq<GroupStep<A>>, i: int, instance: u64) -> bool {
    calls(group_invocation(steps, i), steps[i].replies) == seq![
        (
            Receiver::Step { instance },
            converted(group_invocation(steps, i), steps[i].replies),
        ),
    ]
}

/// Where nothing hinders the steps of a group, the first row alone creates the
/// instance, each row steps it exactly once with its own arguments, and at the
/// end it is finalized.
pub proof fn law_group_steps_each_row<A>(steps: Seq<GroupStep<A>>)
    requires
        group_ran(steps),
        group_unhindered(steps),
    ensures
        forall|i: int|
            0 <= i < steps.len() ==> (#[trigger] creates_at(steps, i) <==> i == 0),
        forall|i: int|
            0 <= i < steps.len() ==> #[trigger] steps_once(
                steps,
                i,
                group_memory(steps).instance,
            ),
        steps.len() > 0 ==> group_end(steps).outset() == (InvocationState::<A>::Call {
            receiver: Receiver::Finalize { instance: group_memory(steps).instance },
            arguments: Seq::empty(),
        }),
{
    law_group_has_one_instance(steps);
    if steps.len() > 0 {
        let first = group_invocation(steps, 0);
        assert(steps.take(0).len() == 0);
        assert(!first.instantiated());
        law_callback_is_run_once(first, steps[0].replies);
        assert(creates_at(steps, 0));
    }
    assert forall|i: int| 0 <= i < steps.len() implies #[trigger] steps_once(
        steps,
        i,
        group_memory(steps).instance,
    ) by {
        let invocation = group_invocation(steps, i);
        let runs = calls(invocation, steps[i].replies);
        law_callback_is_run_once(invocation, steps[i].replies);
        assert(steps_instance(steps, i, group_memory(steps).instance));
        assert(runs[0].0 == (Receiver::Step { instance: group_memory(steps).instance }));
        assert(runs =~= seq![runs[0]]);
    }
}

// ---------------------------------------------------------------- what SQLite is told

/// What SQLite is told by a run.
pub enum Told<A> {
    /// This value.
    Value(A),
    /// NULL.
    Null,
    /// An error.
    Error(Mishap, String),
}

/// What SQLite has been told so far, if anything.
pub open spec fn told<A>(
    invocation: Invocation<A>,
    replies: Seq<InvocationReply<A>>,
) -> Option<Told<A>>
    decreases replies.len(),
{
    if replies.len() == 0 {
        None
    } else {
        match process::reached(invocation, replies.drop_last()) {
            InvocationState::HandOver { value } => Some(Told::Value(value)),
            InvocationState::HandOverNull => Some(Told::Null),
            InvocationState::Report { mishap, detail } => Some(Told::Error(mishap, detail)),
            _ => told(invocation, replies.drop_last()),
        }
    }
}

/// What went wrong in a run: an instance that could not be created, an argument
/// that could not be converted, by its place, or what the callback raised.
pub open spec fn went_wrong<A>(
    invocation: Invocation<A>,
    replies: Seq<InvocationReply<A>>,
) -> Option<(Mishap, String)>
    decreases replies.len(),
{
    if replies.len() == 0 {
        None
    } else {
        match (process::reached(invocation, replies.drop_last()), replies.last()) {
            (InvocationState::Create, InvocationReply::Created(Err(detail))) => Some(
                (Mishap::Aggregate, detail),
            ),
            (InvocationState::Convert { .. }, InvocationReply::Converted(Err(detail))) => Some(
                (
                    Mishap::Argument {
                        index: converted(invocation, replies.drop_last()).len() as i32,
                    },
                    detail,
                ),
            ),
            (InvocationState::Call { .. }, InvocationReply::Returned(Err(detail))) => Some(
                (
                    if invocation.invoked == Invoked::Function {
                        Mishap::Function
                    } else if invocation.invoked == Invoked::Step {
                        Mishap::Step
                    } else {
                        Mishap::Finalize
                    },
                    detail,
                ),
            ),
            _ => went_wrong(invocation, replies.drop_last()),
        }
    }
}

/// What the callback has returned, once it has.
pub open spec fn returned<A>(
    invocation: Invocation<A>,
    replies: Seq<InvocationReply<A>>,
) -> Option<A>
    decreases replies.len(),
{
    if replies.len() == 0 {
        None
    } else {
        match (process::reached(invocation, replies.drop_last()), replies.last()) {
            (InvocationState::Call { .. }, InvocationReply::Returned(Ok(value))) => Some(value),
            _ => returned(invocation, replies.drop_last()),
        }
    }
}

/// SQLite is told what the callback returned, by a function and by the end of
/// an aggregate; it is told what went wrong, in which part, where something
/// did; NULL where there is no callback; and nothing by a step that went well.
/// The arguments are converted in the order of their places.
pub proof fn law_sqlite_is_told_what_came_of_it<A>(
    invocation: Invocation<A>,
    replies: Seq<InvocationReply<A>>,
)
    requires
        process::possible(invocation, replies),
    ensures
        match process::reached(invocation, replies) {
            InvocationState::Create => {
                &&& has_callback(invocation) && told(invocation, replies) is None
                &&& went_wrong(invocation, replies) is None
                &&& returned(invocation, replies) is None
            },
            InvocationState::Convert { index, .. } => {
                &&& index == converted(invocation, replies).len()
                &&& has_callback(invocation) && told(invocation, replies) is None
                &&& went_wrong(invocation, replies) is None
                &&& returned(invocation, replies) is None
            },
            InvocationState::Call { .. } => {
                &&& has_callback(invocation) && told(invocation, replies) is None
                &&& went_wrong(invocation, replies) is None
                &&& returned(invocation, replies) is None
            },
            InvocationState::HandOver { value } => {
                &&& has_callback(invocation) && told(invocation, replies) is None
                &&& invocation.invoked != Invoked::Step
                &&& returned(invocation, replies) == Some(value)
                &&& went_wrong(invocation, replies) is None
            },
            InvocationState::HandOverNull => {
                &&& !has_callback(invocation) && told(invocation, replies) is None
                &&& invocation.invoked != Invoked::Step
                &&& went_wrong(invocation, replies) is None
            },
            InvocationState::Report { mishap, detail } => {
                &&& has_callback(invocation) && told(invocation, replies) is None
                &&& went_wrong(invocation, replies) == Some((mishap, detail))
            },
            InvocationState::Finished => told(invocation, replies) == if !has_callback(
                invocation,
            ) {
                if invocation.invoked == Invoked::Step {
                    None
                } else {
                    Some(Told::Null)
                }
            } else {
                match went_wrong(invocation, replies) {
                    Some((mishap, detail)) => Some(Told::Error(mishap, detail)),
                    None => if invocation.invoked == Invoked::Step {
                        None
                    } else {
                        Some(Told::Value(returned(invocation, replies)->0))
                    },
                }
            },
        },
        process::reached(invocation, replies) is Finished && has_callback(invocation)
            && went_wrong(invocation, replies) is None ==> returned(invocation, replies) is Some,
    decreases replies.len(),
{
    if replies.len() > 0 {
        law_sqlite_is_told_what_came_of_it(invocation, replies.drop_last());
        lemma_invocation_course(invocation, replies.drop_last());
    }
}

} // verus!
