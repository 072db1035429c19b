//! Work that is interrupted by calls into SQLite.
//!
//! A process is in one state at a time. A state that is not an end names one
//! call to make; the reply to that call leads to the next state. The laws of
//! the processes speak of every course that the replies can take.

use vstd::prelude::*;

verus! {

/// A process, seen from the replies that it gets.
pub trait Process: Sized {
    /// What the process waits for.
    type State;

    /// What comes back from a call.
    type Reply;

    /// The state at the outset.
    spec fn outset(self) -> Self::State;

    /// Whether no call is left to make.
    spec fn ended(self, state: Self::State) -> bool;

    /// Whether the reply can come back from the call that the state names.
    spec fn answers(self, state: Self::State, reply: Self::Reply) -> bool;

    /// The state behind the reply.
    spec fn next(self, state: Self::State, reply: Self::Reply) -> Self::State;
}

/// The state that a process is in once these replies have come back.
pub open spec fn reached<P: Process>(process: P, replies: Seq<P::Reply>) -> P::State
    decreases replies.len(),
{
    if replies.len() == 0 {
        process.outset()
    } else {
        process.next(reached(process, replies.drop_last()), replies.last())
    }
}

/// Whether the replies can come back in this order: each answers the call
/// that its turn names, and none comes behind the end.
pub open spec fn possible<P: Process>(process: P, replies: Seq<P::Reply>) -> bool
    decreases replies.len(),
{
    replies.len() > 0 ==> {
        &&& possible(process, replies.drop_last())
        &&& !process.ended(reached(process, replies.drop_last()))
        &&& process.answers(reached(process, replies.drop_last()), replies.last())
    }
}

} // verus!
