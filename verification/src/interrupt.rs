//! Interrupting what runs on a connection.

use crate::error::ConnectionError;
use crate::operation::LockFrame;
use crate::operation::OperationError;
use crate::process;
use crate::process::Process;
use crate::routing::Route;
use std::marker::PhantomData;
use vstd::prelude::*;

verus! {

/// An interruption. Without callbacks there is nothing to interrupt.
pub struct Interrupt<E> {
    pub closed: bool,
    pub has_callbacks: bool,
    pub errors: PhantomData<E>,
}

/// The call that an interruption waits for.
pub enum InterruptStep<E> {
    /// Interrupt what runs on the handle of this slot. The slots of the
    /// transaction and of the callbacks are tried twice.
    InterruptActive { slot: Route, again: bool },
    /// Take the connection that carries the callbacks, unless it is in use.
    TakeCallbacks,
    /// Lock its raw handle.
    LockHandle,
    /// Interrupt what runs on it.
    Interrupt,
    /// No call is left.
    Finished(Result<(), OperationError<E>>),
}

/// What a call of an interruption brings back.
pub enum InterruptReply<E> {
    /// Whether something ran there.
    Found(bool),
    Locked(Result<(), E>),
    Done,
}

impl<E> Process for Interrupt<E> {
    type State = InterruptStep<E>;

    type Reply = InterruptReply<E>;

    open spec fn outset(self) -> InterruptStep<E> {
        if self.closed {
            InterruptStep::Finished(Err(OperationError::Refused(ConnectionError::Closed)))
        } else if !self.has_callbacks {
            InterruptStep::Finished(Ok(()))
        } else {
            InterruptStep::InterruptActive { slot: Route::Session, again: false }
        }
    }

    open spec fn ended(self, state: InterruptStep<E>) -> bool {
        state is Finished
    }

    open spec fn answers(self, state: InterruptStep<E>, reply: InterruptReply<E>) -> bool {
        match state {
            InterruptStep::InterruptActive { .. } | InterruptStep::TakeCallbacks => reply is Found,
            InterruptStep::LockHandle => reply is Locked,
            InterruptStep::Interrupt => reply is Done,
            InterruptStep::Finished(_) => false,
        }
    }

    open spec fn next(self, state: InterruptStep<E>, reply: InterruptReply<E>) -> InterruptStep<
        E,
    > {
        match (state, reply) {
            (InterruptStep::InterruptActive { slot, again }, InterruptReply::Found(found)) =>
                if found {
                InterruptStep::Finished(Ok(()))
            } else {
                match slot {
                    Route::Session => InterruptStep::InterruptActive {
                        slot: Route::Transaction,
                        again,
                    },
                    Route::Transaction => InterruptStep::InterruptActive {
                        slot: Route::Callbacks,
                        again,
                    },
                    Route::Callbacks => if again {
                        InterruptStep::TakeCallbacks
                    } else {
                        InterruptStep::InterruptActive { slot: Route::Transaction, again: true }
                    },
                }
            },
            (InterruptStep::TakeCallbacks, InterruptReply::Found(found)) => if found {
                InterruptStep::LockHandle
            } else {
                InterruptStep::Finished(Ok(()))
            },
            (InterruptStep::LockHandle, InterruptReply::Locked(outcome)) => match outcome {
                Ok(_) => InterruptStep::Interrupt,
                Err(error) => InterruptStep::Finished(
                    Err(OperationError::Lock(LockFrame::Handle, error)),
                ),
            },
            (InterruptStep::Interrupt, InterruptReply::Done) => InterruptStep::Finished(Ok(())),
            (state, _) => state,
        }
    }
}

impl<E> Interrupt<E> {
    /// The first call to make.
    pub fn start(&self) -> (out: InterruptStep<E>)
        ensures
            out == self.outset(),
    {
        if self.closed {
            InterruptStep::Finished(Err(OperationError::Refused(ConnectionError::Closed)))
        } else if !self.has_callbacks {
            InterruptStep::Finished(Ok(()))
        } else {
            InterruptStep::InterruptActive { slot: Route::Session, again: false }
        }
    }

    /// The call to make behind a reply.
    pub fn resume(&self, state: InterruptStep<E>, reply: InterruptReply<E>) -> (out: InterruptStep<
        E,
    >)
        ensures
            out == self.next(state, reply),
    {
        match (state, reply) {
            (InterruptStep::InterruptActive { slot, again }, InterruptReply::Found(found)) =>
                if found {
                InterruptStep::Finished(Ok(()))
            } else {
                match slot {
                    Route::Session => InterruptStep::InterruptActive {
                        slot: Route::Transaction,
                        again,
                    },
                    Route::Transaction => InterruptStep::InterruptActive {
                        slot: Route::Callbacks,
                        again,
                    },
                    Route::Callbacks => if again {
                        InterruptStep::TakeCallbacks
                    } else {
                        InterruptStep::InterruptActive { slot: Route::Transaction, again: true }
                    },
                }
            },
            (InterruptStep::TakeCallbacks, InterruptReply::Found(found)) => if found {
                InterruptStep::LockHandle
            } else {
                InterruptStep::Finished(Ok(()))
            },
            (InterruptStep::LockHandle, InterruptReply::Locked(outcome)) => match outcome {
                Ok(_) => InterruptStep::Interrupt,
                Err(error) => InterruptStep::Finished(
                    Err(OperationError::Lock(LockFrame::Handle, error)),
                ),
            },
            (InterruptStep::Interrupt, InterruptReply::Done) => InterruptStep::Finished(Ok(())),
            (state, _) => state,
        }
    }
}

/// How many times something was interrupted.
pub open spec fn interruptions<E>(
    interrupt: Interrupt<E>,
    replies: Seq<InterruptReply<E>>,
) -> int
    decreases replies.len(),
{
    if replies.len() == 0 {
        0
    } else {
        interruptions(interrupt, replies.drop_last()) + (match process::reached(
            interrupt,
            replies.drop_last(),
        ) {
            InterruptStep::InterruptActive { .. } => if replies.last()->Found_0 {
                1int
            } else {
                0
            },
            InterruptStep::Interrupt => 1,
            _ => 0,
        })
    }
}

/// Without callbacks nothing is interrupted; with them at most one thing is.
pub proof fn law_at_most_one_interruption<E>(
    interrupt: Interrupt<E>,
    replies: Seq<InterruptReply<E>>,
)
    requires
        process::possible(interrupt, replies),
    ensures
        0 <= interruptions(interrupt, replies) <= 1,
        !interrupt.has_callbacks || interrupt.closed ==> interruptions(interrupt, replies) == 0,
        !interrupt.ended(process::reached(interrupt, replies)) ==> interruptions(
            interrupt,
            replies,
        ) == 0,
    decreases replies.len(),
{
    if replies.len() > 0 {
        law_at_most_one_interruption(interrupt, replies.drop_last());
        if !interrupt.has_callbacks || interrupt.closed {
            lemma_ended_at_once(interrupt, replies.drop_last());
        }
    }
}

proof fn lemma_ended_at_once<E>(interrupt: Interrupt<E>, replies: Seq<InterruptReply<E>>)
    requires
        process::possible(interrupt, replies),
        !interrupt.has_callbacks || interrupt.closed,
    ensures
        process::reached(interrupt, replies) is Finished,
    decreases replies.len(),
{
    if replies.len() > 0 {
        lemma_ended_at_once(interrupt, replies.drop_last());
    }
}

/// A bound on the calls that an interruption has left to make.
pub open spec fn calls_left<E>(step: InterruptStep<E>) -> int {
    match step {
        InterruptStep::InterruptActive { slot, again } => (match slot {
            Route::Session => 7int,
            Route::Transaction => 6,
            Route::Callbacks => 5,
        }) + if again {
            0int
        } else {
            2
        },
        InterruptStep::TakeCallbacks => 4,
        InterruptStep::LockHandle => 3,
        InterruptStep::Interrupt => 2,
        InterruptStep::Finished(_) => 0,
    }
}

/// With every reply the bound on the calls that are left goes down, so that an
/// interruption comes to its end.
pub proof fn law_interrupt_ends<E>(
    interrupt: Interrupt<E>,
    state: InterruptStep<E>,
    reply: InterruptReply<E>,
)
    requires
        interrupt.answers(state, reply),
    ensures
        0 <= calls_left(interrupt.next(state, reply)) < calls_left(state),
{
}

/// The slots whose handles have been tried and where nothing ran, in order.
pub open spec fn slots_tried<E>(
    interrupt: Interrupt<E>,
    replies: Seq<InterruptReply<E>>,
) -> Seq<Route>
    decreases replies.len(),
{
    if replies.len() == 0 {
        Seq::empty()
    } else {
        match (process::reached(interrupt, replies.drop_last()), replies.last()) {
            (InterruptStep::InterruptActive { slot, .. }, InterruptReply::Found(false)) =>
                slots_tried(interrupt, replies.drop_last()).push(slot),
            _ => slots_tried(interrupt, replies.drop_last()),
        }
    }
}

/// The order in which the slots are tried.
pub open spec fn slots_due() -> Seq<Route> {
    seq![
        Route::Session,
        Route::Transaction,
        Route::Callbacks,
        Route::Transaction,
        Route::Callbacks,
    ]
}

/// An interruption looks at the session first and then, twice, at the
/// transaction and at the callbacks, and at last at the connection that carries
/// the callbacks where nobody uses it. It succeeds without interrupting
/// anything only where nothing ran in all these places, and fails only where
/// the connection is closed or that handle cannot be locked.
pub proof fn law_interrupt_looks_everywhere<E>(
    interrupt: Interrupt<E>,
    replies: Seq<InterruptReply<E>>,
)
    requires
        process::possible(interrupt, replies),
    ensures
        interrupt.closed ==> process::reached(interrupt, replies) == InterruptStep::<E>::Finished(
            Err(OperationError::Refused(ConnectionError::Closed)),
        ),
        !interrupt.closed && !interrupt.has_callbacks ==> process::reached(interrupt, replies)
            == InterruptStep::<E>::Finished(Ok(())),
        !interrupt.closed && interrupt.has_callbacks ==> match process::reached(
            interrupt,
            replies,
        ) {
            InterruptStep::InterruptActive { slot, again } => {
                let tried = slots_tried(interrupt, replies);
                &&& tried.len() < 5
                &&& tried == slots_due().take(tried.len() as int)
                &&& slot == slots_due()[tried.len() as int]
                &&& again == (tried.len() >= 3)
            },
            InterruptStep::TakeCallbacks => slots_tried(interrupt, replies) == slots_due(),
            InterruptStep::LockHandle => replies.last() == InterruptReply::<E>::Found(true)
                && slots_tried(interrupt, replies) == slots_due(),
            InterruptStep::Interrupt => replies.last() == InterruptReply::<E>::Locked(Ok(()))
                && slots_tried(interrupt, replies) == slots_due(),
            InterruptStep::Finished(Ok(_)) => {
                ||| interruptions(interrupt, replies) == 1
                ||| slots_tried(interrupt, replies) == slots_due() && replies.last()
                    == InterruptReply::<E>::Found(false)
            },
            InterruptStep::Finished(Err(error)) => {
                &&& replies.last() matches InterruptReply::Locked(Err(cause))
                &&& error == OperationError::Lock(LockFrame::Handle, cause)
            },
        },
    decreases replies.len(),
{
    if replies.len() > 0 {
        let before = replies.drop_last();
        law_interrupt_looks_everywhere(interrupt, before);
        law_at_most_one_interruption(interrupt, before);
        let tried = slots_tried(interrupt, before);
        if tried.len() < 5 {
            assert(slots_due().take(tried.len() as int).push(slots_due()[tried.len() as int])
                =~= slots_due().take((tried.len() + 1) as int));
        }
        assert(slots_due().take(5) =~= slots_due());
        if let InterruptReply::Locked(Ok(unit)) = replies.last() {
            assert(unit == ());
        }
    } else {
        assert(slots_due().take(0) =~= Seq::<Route>::empty());
    }
}

} // verus!
