//! Installing the authorizer and the progress handler.

use crate::callbacks::{Callbacks, CallbacksView, RegistrationError};
use crate::error::ConnectionError;
use crate::process;
use crate::process::Process;
use std::marker::PhantomData;
use vstd::prelude::*;

verus! {

/// Which handler is installed.
#[derive(Clone, Copy, PartialEq, Eq, Structural)]
pub enum Handler {
    Authorizer,
    /// The progress handler, called every so many steps.
    Progress { steps: i32 },
}

/// The installation, replacement or removal of a handler.
pub struct Install<E> {
    pub handler: Handler,
    /// The new handler, or none where it is to be removed.
    pub callback: Option<u64>,
    pub closed: bool,
    /// What is registered at the outset.
    pub before: Ghost<CallbacksView>,
    pub errors: PhantomData<E>,
}

/// The call that an installation waits for.
pub enum InstallStep<E> {
    /// Make sure that the slot for callbacks holds a connection.
    EnsureConnection,
    /// Take hold of that connection.
    UseConnection,
    /// Lock its handle.
    Lock,
    /// Hand the handler to SQLite, in a new context, or take it away. The
    /// number of steps counts for a progress handler only.
    Call { callback: Option<u64>, steps: i32 },
    /// Free a context that SQLite does not hold any more.
    Free { context: u64 },
    /// Take the connection out of the slot for callbacks: nothing needs it.
    Release,
    /// No call is left.
    Finished(Result<(), RegistrationError<E>>),
}

/// What a call of an installation brings back.
pub enum InstallReply<E> {
    /// Whether there is a connection.
    Found(bool),
    /// How the call went.
    Ran(Result<(), E>),
    /// The context that SQLite holds now, or zero.
    Installed { context: u64 },
    /// That the call is done.
    Done,
}

impl<E> Install<E> {
    /// The callbacks with the new handler entered.
    pub open spec fn entered(self, view: CallbacksView) -> CallbacksView {
        match self.handler {
            Handler::Authorizer => CallbacksView { authorizer: self.callback, ..view },
            Handler::Progress { steps } => CallbacksView {
                progress: match self.callback {
                    Some(callback) => Some((steps, callback)),
                    None => None,
                },
                ..view
            },
        }
    }

    /// The handler that is entered.
    pub open spec fn current(self, view: CallbacksView) -> Option<u64> {
        match self.handler {
            Handler::Authorizer => view.authorizer,
            Handler::Progress { .. } => match view.progress {
                Some((_, callback)) => Some(callback),
                None => None,
            },
        }
    }

    /// The context that SQLite holds for the handler.
    pub open spec fn context(self, view: CallbacksView) -> u64 {
        match self.handler {
            Handler::Authorizer => view.authorizer_context,
            Handler::Progress { .. } => view.progress_context,
        }
    }

    /// The callbacks with another context for the handler.
    pub open spec fn with_context(self, view: CallbacksView, context: u64) -> CallbacksView {
        match self.handler {
            Handler::Authorizer => CallbacksView { authorizer_context: context, ..view },
            Handler::Progress { .. } => CallbacksView { progress_context: context, ..view },
        }
    }

    /// Whether the connection for callbacks can be given up.
    pub open spec fn releases(self, view: CallbacksView) -> bool {
        self.callback is None && !view.any()
    }

    /// What follows once the handler is installed.
    pub open spec fn wound_up(self, view: CallbacksView) -> InstallStep<E> {
        if self.releases(view) {
            InstallStep::Release
        } else {
            InstallStep::Finished(Ok(()))
        }
    }
}

impl<E> Process for Install<E> {
    type State = (CallbacksView, InstallStep<E>);

    type Reply = InstallReply<E>;

    open spec fn outset(self) -> (CallbacksView, InstallStep<E>) {
        let view = self.entered(self.before@);
        (
            view,
            if self.closed {
                InstallStep::Finished(Err(RegistrationError::Refused(ConnectionError::Closed)))
            } else if self.releases(view) {
                InstallStep::Release
            } else {
                InstallStep::EnsureConnection
            },
        )
    }

    open spec fn ended(self, state: (CallbacksView, InstallStep<E>)) -> bool {
        state.1 is Finished
    }

    open spec fn answers(
        self,
        state: (CallbacksView, InstallStep<E>),
        reply: InstallReply<E>,
    ) -> bool {
        match state.1 {
            InstallStep::EnsureConnection | InstallStep::Lock => reply is Ran,
            InstallStep::UseConnection => reply is Found,
            InstallStep::Call { callback, .. } => reply is Installed && (reply->context == 0
                <==> callback is None),
            InstallStep::Free { .. } | InstallStep::Release => reply is Done,
            InstallStep::Finished(_) => false,
        }
    }

    open spec fn next(
        self,
        state: (CallbacksView, InstallStep<E>),
        reply: InstallReply<E>,
    ) -> (CallbacksView, InstallStep<E>) {
        let view = state.0;
        match (state.1, reply) {
            (InstallStep::EnsureConnection, InstallReply::Ran(outcome)) => (
                view,
                match outcome {
                    Ok(_) => InstallStep::UseConnection,
                    Err(error) => InstallStep::Finished(Err(RegistrationError::Call(error))),
                },
            ),
            (InstallStep::UseConnection, InstallReply::Found(found)) => (
                view,
                if found {
                    InstallStep::Lock
                } else {
                    InstallStep::Finished(
                        Err(RegistrationError::Refused(ConnectionError::NoCallbackConnection)),
                    )
                },
            ),
            (InstallStep::Lock, InstallReply::Ran(outcome)) => (
                view,
                match outcome {
                    Ok(_) => InstallStep::Call {
                        callback: self.current(view),
                        steps: match self.handler {
                            Handler::Authorizer => 0,
                            Handler::Progress { steps } => if self.current(view) is Some {
                                steps
                            } else {
                                0
                            },
                        },
                    },
                    Err(error) => InstallStep::Finished(Err(RegistrationError::Lock(error))),
                },
            ),
            (InstallStep::Call { .. }, InstallReply::Installed { context }) => {
                let after = self.with_context(view, context);
                (
                    after,
                    if self.context(view) != context && self.context(view) != 0 {
                        InstallStep::Free { context: self.context(view) }
                    } else {
                        self.wound_up(after)
                    },
                )
            },
            (InstallStep::Free { .. }, InstallReply::Done) => (view, self.wound_up(view)),
            (InstallStep::Release, InstallReply::Done) => (view, InstallStep::Finished(Ok(()))),
            (step, _) => (view, step),
        }
    }
}

impl<E> Install<E> {
    /// The installation of a handler. It is entered among the callbacks at
    /// once, so that statements are led to the connection that carries it.
    pub fn new(
        handler: Handler,
        callback: Option<u64>,
        closed: bool,
        callbacks: &mut Callbacks,
    ) -> (out: Self)
        requires
            old(callbacks).wf(),
        ensures
            final(callbacks).wf(),
            out.handler == handler,
            out.callback == callback,
            out.closed == closed,
            out.before@ == old(callbacks)@,
            final(callbacks)@ == out.entered(old(callbacks)@),
    {
        let ghost before = callbacks@;
        match handler {
            Handler::Authorizer => {
                callbacks.authorizer = callback;
            },
            Handler::Progress { steps } => {
                callbacks.progress = match callback {
                    Some(callback) => Some((steps, callback)),
                    None => None,
                };
            },
        }
        Install { handler, callback, closed, before: Ghost(before), errors: PhantomData }
    }

    /// The first call to make.
    pub fn start(&self, callbacks: &Callbacks) -> (out: InstallStep<E>)
        requires
            callbacks.wf(),
            callbacks@ == self.entered(self.before@),
        ensures
            (callbacks@, out) == self.outset(),
    {
        if self.closed {
            InstallStep::Finished(Err(RegistrationError::Refused(ConnectionError::Closed)))
        } else if self.callback.is_none() && !callbacks.has_callbacks() {
            InstallStep::Release
        } else {
            InstallStep::EnsureConnection
        }
    }

    fn wind_up(&self, callbacks: &Callbacks) -> (out: InstallStep<E>)
        requires
            callbacks.wf(),
        ensures
            out == self.wound_up(callbacks@),
    {
        if self.callback.is_none() && !callbacks.has_callbacks() {
            InstallStep::Release
        } else {
            InstallStep::Finished(Ok(()))
        }
    }

    /// The call to make behind a reply. What is registered changes on the way.
    pub fn resume(
        &self,
        callbacks: &mut Callbacks,
        step: InstallStep<E>,
        reply: InstallReply<E>,
    ) -> (out: InstallStep<E>)
        requires
            old(callbacks).wf(),
        ensures
            final(callbacks).wf(),
            (final(callbacks)@, out) == self.next((old(callbacks)@, step), reply),
    {
        match (step, reply) {
            (InstallStep::EnsureConnection, InstallReply::Ran(outcome)) => match outcome {
                Ok(_) => InstallStep::UseConnection,
                Err(error) => InstallStep::Finished(Err(RegistrationError::Call(error))),
            },
            (InstallStep::UseConnection, InstallReply::Found(found)) => if found {
                InstallStep::Lock
            } else {
                InstallStep::Finished(
                    Err(RegistrationError::Refused(ConnectionError::NoCallbackConnection)),
                )
            },
            (InstallStep::Lock, InstallReply::Ran(outcome)) => match outcome {
                Ok(_) => match self.handler {
                    Handler::Authorizer => InstallStep::Call {
                        callback: callbacks.authorizer,
                        steps: 0,
                    },
                    Handler::Progress { steps } => match callbacks.progress {
                        Some((_, callback)) => InstallStep::Call {
                            callback: Some(callback),
                            steps,
                        },
                        None => InstallStep::Call { callback: None, steps: 0 },
                    },
                },
                Err(error) => InstallStep::Finished(Err(RegistrationError::Lock(error))),
            },
            (InstallStep::Call { .. }, InstallReply::Installed { context }) => {
                let earlier: u64 = match self.handler {
                    Handler::Authorizer => callbacks.authorizer_context,
                    Handler::Progress { .. } => callbacks.progress_context,
                };
                match self.handler {
                    Handler::Authorizer => {
                        callbacks.authorizer_context = context;
                    },
                    Handler::Progress { .. } => {
                        callbacks.progress_context = context;
                    },
                }
                if earlier != context && earlier != 0 {
                    InstallStep::Free { context: earlier }
                } else {
                    self.wind_up(callbacks)
                }
            },
            (InstallStep::Free { .. }, InstallReply::Done) => self.wind_up(callbacks),
            (InstallStep::Release, InstallReply::Done) => InstallStep::Finished(Ok(())),
            (step, _) => step,
        }
    }
}

/// Where the callbacks stand along an installation.
spec fn install_course<E>(
    install: Install<E>,
    replies: Seq<InstallReply<E>>,
    state: (CallbacksView, InstallStep<E>),
) -> bool {
    let entered = install.entered(install.before@);
    let view = state.0;
    match state.1 {
        InstallStep::EnsureConnection | InstallStep::UseConnection | InstallStep::Lock => {
            &&& view == entered
            &&& freed_contexts(install, replies) == Seq::<u64>::empty()
            &&& !install.releases(entered)
        },
        InstallStep::Call { callback, .. } => {
            &&& view == entered
            &&& callback == install.callback
            &&& freed_contexts(install, replies) == Seq::<u64>::empty()
            &&& !install.releases(entered)
        },
        InstallStep::Free { context } => {
            &&& view == install.with_context(entered, install.context(view))
            &&& context == install.context(entered)
            &&& context != install.context(view)
            &&& context != 0
            &&& (install.context(view) == 0 <==> install.callback is None)
            &&& freed_contexts(install, replies) == Seq::<u64>::empty()
            &&& !install.releases(entered)
        },
        InstallStep::Release => {
            &&& view == entered
            &&& install.releases(entered)
            &&& freed_contexts(install, replies) == Seq::<u64>::empty()
        },
        InstallStep::Finished(Ok(_)) => if install.releases(entered) {
            &&& view == entered
            &&& freed_contexts(install, replies) == Seq::<u64>::empty()
        } else {
            &&& view == install.with_context(entered, install.context(view))
            &&& (install.context(view) == 0 <==> install.callback is None)
            &&& freed_contexts(install, replies) == (if install.context(entered)
                != install.context(view) && install.context(entered) != 0 {
                seq![install.context(entered)]
            } else {
                Seq::<u64>::empty()
            })
        },
        InstallStep::Finished(Err(_)) => {
            &&& view == entered
            &&& freed_contexts(install, replies) == Seq::<u64>::empty()
        },
    }
}

/// The contexts that an installation has freed.
pub open spec fn freed_contexts<E>(install: Install<E>, replies: Seq<InstallReply<E>>) -> Seq<u64>
    decreases replies.len(),
{
    if replies.len() == 0 {
        Seq::empty()
    } else {
        let earlier = freed_contexts(install, replies.drop_last());
        match process::reached(install, replies.drop_last()).1 {
            InstallStep::Free { context } => earlier.push(context),
            _ => earlier,
        }
    }
}

proof fn lemma_install_course<E>(install: Install<E>, replies: Seq<InstallReply<E>>)
    requires
        process::possible(install, replies),
    ensures
        install_course(install, replies, process::reached(install, replies)),
    decreases replies.len(),
{
    if replies.len() > 0 {
        lemma_install_course(install, replies.drop_last());
        let empty = Seq::<u64>::empty();
        assert forall|x: u64| #[trigger] empty.push(x) == seq![x] by {}
    }
}

/// An installation enters its handler and changes no other callback; where it
/// goes through, the context that SQLite held for the handler before is freed
/// once it is replaced, and SQLite holds one exactly where there is a handler.
pub proof fn law_install_settles<E>(install: Install<E>, replies: Seq<InstallReply<E>>)
    requires
        process::possible(install, replies),
        !install.releases(install.entered(install.before@)),
        process::reached(install, replies).1 matches InstallStep::Finished(Ok(_)),
    ensures
        ({
            let view = process::reached(install, replies).0;
            let context = install.context(view);
            let earlier = install.context(install.before@);
            &&& view == install.with_context(install.entered(install.before@), context)
            &&& (context == 0 <==> install.callback is None)
            &&& freed_contexts(install, replies) == (if earlier != context && earlier != 0 {
                seq![earlier]
            } else {
                Seq::<u64>::empty()
            })
        }),
{
    lemma_install_course(install, replies);
}

/// Taking the last callback away makes no call on SQLite: the connection that
/// carries it is given up instead.
pub proof fn law_last_handler_gives_up_connection<E>(install: Install<E>)
    requires
        !install.closed,
        install.callback is None,
        !install.entered(install.before@).any(),
    ensures
        install.outset().1 is Release,
{
}

/// The connection for callbacks is given up only where nothing is registered
/// any more.
pub proof fn law_install_releases_unused<E>(install: Install<E>, replies: Seq<InstallReply<E>>)
    requires
        process::possible(install, replies),
        process::reached(install, replies).1 is Release,
    ensures
        !process::reached(install, replies).0.any(),
{
    lemma_install_course(install, replies);
}

/// A bound on the calls that an installation has left to make.
pub open spec fn calls_left<E>(step: InstallStep<E>) -> int {
    match step {
        InstallStep::EnsureConnection => 6,
        InstallStep::UseConnection => 5,
        InstallStep::Lock => 4,
        InstallStep::Call { .. } => 3,
        InstallStep::Free { .. } => 2,
        InstallStep::Release => 1,
        InstallStep::Finished(_) => 0,
    }
}

/// With every reply the bound on the calls that are left goes down, so that an
/// installation comes to its end.
pub proof fn law_install_ends<E>(
    install: Install<E>,
    state: (CallbacksView, InstallStep<E>),
    reply: InstallReply<E>,
)
    requires
        install.answers(state, reply),
    ensures
        0 <= calls_left(install.next(state, reply).1) < calls_left(state.1),
{
}

// ---------------------------------------------------------------- what SQLite is given

/// What an installation has met so far.
pub ghost struct InstallLedger<E> {
    pub ensured: bool,
    pub used: bool,
    pub locked: bool,
    /// The handler and the number of steps that SQLite was given, and the
    /// context that it holds for them.
    pub called: Option<(Option<u64>, i32, u64)>,
    /// The connection was taken out of the slot for callbacks.
    pub released: bool,
    /// What went wrong.
    pub trouble: Option<RegistrationError<E>>,
}

/// What an installation has met once these replies have come back.
pub open spec fn install_ledger<E>(
    install: Install<E>,
    replies: Seq<InstallReply<E>>,
) -> InstallLedger<E>
    decreases replies.len(),
{
    if replies.len() == 0 {
        InstallLedger {
            ensured: false,
            used: false,
            locked: false,
            called: None,
            released: false,
            trouble: None,
        }
    } else {
        let ledger = install_ledger(install, replies.drop_last());
        match (process::reached(install, replies.drop_last()).1, replies.last()) {
            (InstallStep::EnsureConnection, InstallReply::Ran(Ok(_))) => InstallLedger {
                ensured: true,
                ..ledger
            },
            (InstallStep::EnsureConnection, InstallReply::Ran(Err(error))) => InstallLedger {
                trouble: Some(RegistrationError::Call(error)),
                ..ledger
            },
            (InstallStep::UseConnection, InstallReply::Found(found)) => InstallLedger {
                used: found,
                trouble: if found {
                    None
                } else {
                    Some(RegistrationError::Refused(ConnectionError::NoCallbackConnection))
                },
                ..ledger
            },
            (InstallStep::Lock, InstallReply::Ran(Ok(_))) => InstallLedger {
                locked: true,
                ..ledger
            },
            (InstallStep::Lock, InstallReply::Ran(Err(error))) => InstallLedger {
                trouble: Some(RegistrationError::Lock(error)),
                ..ledger
            },
            (InstallStep::Call { callback, steps }, InstallReply::Installed { context }) =>
                InstallLedger { called: Some((callback, steps, context)), ..ledger },
            (InstallStep::Release, _) => InstallLedger { released: true, ..ledger },
            _ => ledger,
        }
    }
}

/// Whether the callbacks tell of the handler that is installed, and are the
/// earlier ones otherwise, but for the context that SQLite holds for it.
pub open spec fn tells_of_handler<E>(install: Install<E>, view: CallbacksView) -> bool {
    let before = install.before@;
    &&& view.required == before.required
    &&& view.functions == before.functions
    &&& view.aggregates == before.aggregates
    &&& view.collations == before.collations
    &&& view.trace == before.trace
    &&& match install.handler {
        Handler::Authorizer => {
            &&& view.authorizer == install.callback
            &&& view.progress == before.progress
            &&& view.progress_context == before.progress_context
        },
        Handler::Progress { steps } => {
            &&& view.authorizer == before.authorizer
            &&& view.authorizer_context == before.authorizer_context
            &&& match install.callback {
                Some(callback) => view.progress == Some((steps, callback)),
                None => view.progress is None,
            }
        },
    }
}

/// The context that is noted for the handler.
pub open spec fn noted_context<E>(install: Install<E>, view: CallbacksView) -> u64 {
    match install.handler {
        Handler::Authorizer => view.authorizer_context,
        Handler::Progress { .. } => view.progress_context,
    }
}

/// An installation enters its handler at once. Where anything is left to
/// register it gives SQLite that handler, a progress handler with its number of
/// steps, on the connection that carries the callbacks and with its handle
/// locked, and notes the context that SQLite then holds. Where nothing is left
/// the connection is given up instead. It fails with what it met and with
/// nothing else.
pub proof fn law_install_gives_sqlite_the_handler<E>(
    install: Install<E>,
    replies: Seq<InstallReply<E>>,
)
    requires
        process::possible(install, replies),
    ensures
        tells_of_handler(install, process::reached(install, replies).0),
        install.closed ==> process::reached(install, replies).1 == InstallStep::<E>::Finished(
            Err(RegistrationError::Refused(ConnectionError::Closed)),
        ),
        !install.closed ==> {
            let ledger = install_ledger(install, replies);
            let view = process::reached(install, replies).0;
            let empty = install.callback is None && !view.any();
            let context = noted_context(install, view);
            match process::reached(install, replies).1 {
                InstallStep::EnsureConnection => replies.len() == 0 && !empty,
                InstallStep::UseConnection => {
                    &&& ledger.ensured
                    &&& ledger.called is None && ledger.trouble is None && !ledger.released
                    &&& !empty && context == noted_context(install, install.before@)
                },
                InstallStep::Lock => {
                    &&& ledger.ensured && ledger.used
                    &&& ledger.called is None && ledger.trouble is None && !ledger.released
                    &&& !empty && context == noted_context(install, install.before@)
                },
                InstallStep::Call { callback, steps } => {
                    &&& ledger.ensured && ledger.used && ledger.locked
                    &&& ledger.called is None && ledger.trouble is None && !ledger.released
                    &&& callback == install.callback
                    &&& steps == match (install.handler, install.callback) {
                        (Handler::Progress { steps: due }, Some(_)) => due,
                        _ => 0,
                    }
                    &&& !empty && context == noted_context(install, install.before@)
                },
                InstallStep::Free { .. } => {
                    &&& ledger.called matches Some(call)
                    &&& call.0 == install.callback
                    &&& call.1 == match (install.handler, install.callback) {
                        (Handler::Progress { steps: due }, Some(_)) => due,
                        _ => 0,
                    }
                    &&& context == call.2
                    &&& ledger.trouble is None && !ledger.released
                    &&& !empty
                },
                InstallStep::Release => {
                    &&& empty
                    &&& replies.len() == 0
                },
                InstallStep::Finished(Ok(_)) => {
                    &&& ledger.trouble is None
                    &&& ledger.released == empty
                    &&& ledger.called is None <==> empty
                    &&& ledger.called matches Some(call) ==> {
                        &&& call.0 == install.callback
                        &&& call.1 == match (install.handler, install.callback) {
                            (Handler::Progress { steps: due }, Some(_)) => due,
                            _ => 0,
                        }
                        &&& context == call.2
                    }
                },
                InstallStep::Finished(Err(error)) => ledger.trouble == Some(error)
                    && ledger.called is None && !ledger.released,
            }
        },
    decreases replies.len(),
{
    if replies.len() > 0 {
        law_install_gives_sqlite_the_handler(install, replies.drop_last());
    }
}

} // verus!
