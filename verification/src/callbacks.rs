//! The callbacks that are registered on a connection, and how they get there.
//!
//! A callback is known by a number that the caller gave it; zero stands for
//! none.

use crate::codes::{SQLITE_DETERMINISTIC, SQLITE_OK, SQLITE_UTF8};
use crate::error::ConnectionError;
use crate::process;
use crate::process::Process;
use crate::registry::Registry;
use crate::text;
use std::marker::PhantomData;
use vstd::prelude::*;
use vstd::string::*;

verus! {

/// What a named callback is.
#[derive(Clone, Copy, PartialEq, Eq, Structural)]
pub enum CallbackKind {
    Function,
    Aggregate,
    Collation,
}

/// A named callback: how many arguments it takes, its number, and whether it
/// gives the same result for the same arguments. A collation takes two.
#[derive(Clone, Copy, PartialEq, Eq, Structural)]
pub struct Entry {
    pub nargs: i32,
    pub callback: u64,
    pub deterministic: bool,
}

/// Everything that is registered on a connection.
pub struct Callbacks {
    /// Whether extensions ask for a connection of their own.
    pub required: bool,
    pub functions: Registry<Entry>,
    pub aggregates: Registry<Entry>,
    pub collations: Registry<Entry>,
    pub trace: Option<u64>,
    pub authorizer: Option<u64>,
    /// The progress handler, with the number of steps between two calls.
    pub progress: Option<(i32, u64)>,
    /// The context that SQLite holds for the authorizer.
    pub authorizer_context: u64,
    /// The context that SQLite holds for the progress handler.
    pub progress_context: u64,
}

/// The callbacks of a connection as maps.
#[verifier::ext_equal]
pub struct CallbacksView {
    pub required: bool,
    pub functions: Map<Seq<char>, Entry>,
    pub aggregates: Map<Seq<char>, Entry>,
    pub collations: Map<Seq<char>, Entry>,
    pub trace: Option<u64>,
    pub authorizer: Option<u64>,
    pub progress: Option<(i32, u64)>,
    pub authorizer_context: u64,
    pub progress_context: u64,
}

impl CallbacksView {
    /// Whether anything is registered.
    pub open spec fn any(self) -> bool {
        ||| self.required
        ||| self.functions != Map::<Seq<char>, Entry>::empty()
        ||| self.aggregates != Map::<Seq<char>, Entry>::empty()
        ||| self.collations != Map::<Seq<char>, Entry>::empty()
        ||| self.trace is Some
        ||| self.authorizer is Some
        ||| self.progress is Some
    }

    /// The named callbacks of a kind.
    pub open spec fn of(self, kind: CallbackKind) -> Map<Seq<char>, Entry> {
        match kind {
            CallbackKind::Function => self.functions,
            CallbackKind::Aggregate => self.aggregates,
            CallbackKind::Collation => self.collations,
        }
    }

    /// The same callbacks with other ones of a kind.
    pub open spec fn with(self, kind: CallbackKind, named: Map<Seq<char>, Entry>) -> CallbacksView {
        match kind {
            CallbackKind::Function => CallbacksView { functions: named, ..self },
            CallbackKind::Aggregate => CallbacksView { aggregates: named, ..self },
            CallbackKind::Collation => CallbacksView { collations: named, ..self },
        }
    }
}

impl View for Callbacks {
    type V = CallbacksView;

    open spec fn view(&self) -> CallbacksView {
        CallbacksView {
            required: self.required,
            functions: self.functions@,
            aggregates: self.aggregates@,
            collations: self.collations@,
            trace: self.trace,
            authorizer: self.authorizer,
            progress: self.progress,
            authorizer_context: self.authorizer_context,
            progress_context: self.progress_context,
        }
    }
}

impl Callbacks {
    /// Whether no name occurs twice among the callbacks of a kind.
    pub open spec fn wf(self) -> bool {
        self.functions.wf() && self.aggregates.wf() && self.collations.wf()
    }

    /// The callbacks of a connection on which nothing is registered.
    pub fn new() -> (out: Self)
        ensures
            out.wf(),
            !out@.any(),
            out@.authorizer_context == 0,
            out@.progress_context == 0,
    {
        Callbacks {
            required: false,
            functions: Registry::new(),
            aggregates: Registry::new(),
            collations: Registry::new(),
            trace: None,
            authorizer: None,
            progress: None,
            authorizer_context: 0,
            progress_context: 0,
        }
    }

    /// Whether anything is registered, so that statements run on the
    /// connection that carries the callbacks.
    pub fn has_callbacks(&self) -> (out: bool)
        requires
            self.wf(),
        ensures
            out == self@.any(),
    {
        self.required || !self.functions.is_empty() || !self.aggregates.is_empty()
            || !self.collations.is_empty() || self.trace.is_some() || self.authorizer.is_some()
            || self.progress.is_some()
    }

    /// Puts a trace callback in place of an earlier one, or takes it away.
    pub fn set_trace_callback(&mut self, callback: Option<u64>, closed: bool) -> (out: Result<
        (),
        ConnectionError,
    >)
        requires
            old(self).wf(),
        ensures
            final(self).wf(),
            final(self)@ == (CallbacksView { trace: callback, ..old(self)@ }),
            closed ==> out == Err::<(), ConnectionError>(ConnectionError::Closed),
            !closed ==> out is Ok,
    {
        self.trace = callback;
        if closed {
            Err(ConnectionError::Closed)
        } else {
            Ok(())
        }
    }

    /// Forgets the callbacks, once no connection carries them any more.
    pub fn clear(&mut self)
        requires
            old(self).wf(),
        ensures
            final(self).wf(),
            !final(self)@.any(),
            final(self)@.authorizer_context == 0,
            final(self)@.progress_context == 0,
    {
        *self = Callbacks::new();
    }

    fn insert(&mut self, kind: CallbackKind, name: String, entry: Entry) -> (out: Option<Entry>)
        requires
            old(self).wf(),
        ensures
            final(self).wf(),
            final(self)@ == old(self)@.with(kind, old(self)@.of(kind).insert(name@, entry)),
            out == (if old(self)@.of(kind).dom().contains(name@) {
                Some(old(self)@.of(kind)[name@])
            } else {
                None
            }),
    {
        match kind {
            CallbackKind::Function => self.functions.insert(name, entry),
            CallbackKind::Aggregate => self.aggregates.insert(name, entry),
            CallbackKind::Collation => self.collations.insert(name, entry),
        }
    }

    fn remove(&mut self, kind: CallbackKind, name: &String) -> (out: Option<Entry>)
        requires
            old(self).wf(),
        ensures
            final(self).wf(),
            final(self)@ == old(self)@.with(kind, old(self)@.of(kind).remove(name@)),
            out == (if old(self)@.of(kind).dom().contains(name@) {
                Some(old(self)@.of(kind)[name@])
            } else {
                None
            }),
    {
        match kind {
            CallbackKind::Function => self.functions.remove(name),
            CallbackKind::Aggregate => self.aggregates.remove(name),
            CallbackKind::Collation => self.collations.remove(name),
        }
    }
}

// ---------------------------------------------------------------- arguments

/// Whether a callback can take this number of arguments; any number is -1.
pub open spec fn arity(nargs: i32) -> bool {
    -1 <= nargs <= 127
}

/// Checks the arguments of a function before it is registered: how many it
/// takes, and whether this version of SQLite has deterministic functions.
pub fn check_function(nargs: i32, deterministic: bool, version: u32) -> (out: Result<
    (),
    ConnectionError,
>)
    ensures
        out == (if !arity(nargs) {
            Err(ConnectionError::FunctionArguments { nargs })
        } else if deterministic && version < 3008003 {
            Err(ConnectionError::DeterministicVersion { number: version })
        } else {
            Ok(())
        }),
{
    if nargs < -1 || nargs > 127 {
        Err(ConnectionError::FunctionArguments { nargs })
    } else if deterministic && version < 3008003 {
        Err(ConnectionError::DeterministicVersion { number: version })
    } else {
        Ok(())
    }
}

/// Checks how many arguments an aggregate takes before it is registered.
pub fn check_aggregate(nargs: i32) -> (out: Result<(), ConnectionError>)
    ensures
        out == (if !arity(nargs) {
            Err(ConnectionError::AggregateArguments { nargs })
        } else {
            Ok(())
        }),
{
    if nargs < -1 || nargs > 127 {
        Err(ConnectionError::AggregateArguments { nargs })
    } else {
        Ok(())
    }
}

// ---------------------------------------------------------------- named callbacks

/// What is to become of a named callback.
#[derive(Clone, Copy, PartialEq, Eq, Structural)]
pub enum Change {
    /// Register this callback.
    Create { nargs: i32, callback: u64, deterministic: bool },
    /// Take it away.
    Remove { nargs: i32 },
}

/// The registration or removal of a function, an aggregate or a collation.
pub struct Registration<E> {
    pub kind: CallbackKind,
    pub name: String,
    pub change: Change,
    pub closed: bool,
    /// What is registered at the outset.
    pub before: Ghost<CallbacksView>,
    pub errors: PhantomData<E>,
}

/// How SQLite is called for a named callback.
#[derive(Clone, Copy, PartialEq, Eq, Structural)]
pub struct RegistrationCall {
    pub nargs: i32,
    /// The text encoding, with the flag of a deterministic function.
    pub encoding: i32,
    /// The callback, or none where it is to be removed.
    pub callback: Option<u64>,
}

/// The text encoding that SQLite is told, with the flag of a deterministic
/// function.
pub open spec fn spec_encoding(kind: CallbackKind, deterministic: bool) -> i32 {
    if deterministic && kind == CallbackKind::Function {
        (SQLITE_UTF8 + SQLITE_DETERMINISTIC) as i32
    } else {
        SQLITE_UTF8
    }
}

fn encoding(kind: CallbackKind, deterministic: bool) -> (out: i32)
    ensures
        out == spec_encoding(kind, deterministic),
{
    if deterministic && kind == CallbackKind::Function {
        SQLITE_UTF8 + SQLITE_DETERMINISTIC
    } else {
        SQLITE_UTF8
    }
}

impl Entry {
    /// How SQLite is called where a named callback is bound to another
    /// connection.
    pub open spec fn spec_rebinding(self, kind: CallbackKind) -> RegistrationCall {
        RegistrationCall {
            nargs: self.nargs,
            encoding: spec_encoding(kind, self.deterministic),
            callback: Some(self.callback),
        }
    }

    /// How SQLite is called where a named callback is bound to another
    /// connection.
    pub fn rebinding(&self, kind: CallbackKind) -> (out: RegistrationCall)
        ensures
            out == self.spec_rebinding(kind),
    {
        RegistrationCall {
            nargs: self.nargs,
            encoding: encoding(kind, self.deterministic),
            callback: Some(self.callback),
        }
    }
}

/// Why a named callback is not registered or removed.
pub enum RegistrationError<E> {
    /// The library refuses it, or SQLite does.
    Refused(ConnectionError),
    /// A call failed.
    Call(E),
    /// The handle could not be locked.
    Lock(E),
}

/// The call that a registration waits for.
pub enum RegistrationStep<E> {
    /// Look whether the slot of the transaction holds a connection.
    FindTransaction,
    /// Make sure that the slot for callbacks holds a connection.
    EnsureConnection,
    /// Take hold of the connection in the slot of the transaction, or in the
    /// one for callbacks.
    UseConnection { transaction: bool },
    /// Lock its handle.
    Lock { transaction: bool },
    /// Call SQLite. The entry that was registered under the name stands by.
    Call { transaction: bool, call: RegistrationCall, earlier: Option<Entry> },
    /// Free a callback that SQLite does not hold any more, and go on.
    Free { callback: u64, release: bool, result: Result<(), RegistrationError<E>> },
    /// Take the connection out of the slot for callbacks: nothing needs it.
    Release,
    /// No call is left.
    Finished(Result<(), RegistrationError<E>>),
}

/// What a call of a registration brings back.
pub enum RegistrationReply<E> {
    /// Whether there is a connection.
    Found(bool),
    /// How the call went.
    Ran(Result<(), E>),
    /// The code that SQLite answers.
    Code(i32),
    /// That the call is done.
    Done,
}

impl<E> Registration<E> {
    /// How SQLite is called.
    pub open spec fn spec_call(self) -> RegistrationCall {
        match self.change {
            Change::Create { nargs, callback, deterministic } => RegistrationCall {
                nargs,
                encoding: spec_encoding(self.kind, deterministic),
                callback: Some(callback),
            },
            Change::Remove { nargs } => RegistrationCall {
                nargs,
                encoding: SQLITE_UTF8,
                callback: None,
            },
        }
    }

    /// The entry under the name.
    pub open spec fn earlier(self, view: CallbacksView) -> Option<Entry> {
        if view.of(self.kind).dom().contains(self.name@) {
            Some(view.of(self.kind)[self.name@])
        } else {
            None
        }
    }

    /// The callbacks with the name taken away.
    pub open spec fn removed(self, view: CallbacksView) -> CallbacksView {
        view.with(self.kind, view.of(self.kind).remove(self.name@))
    }

    /// The callbacks with an entry under the name.
    pub open spec fn inserted(self, view: CallbacksView, entry: Entry) -> CallbacksView {
        view.with(self.kind, view.of(self.kind).insert(self.name@, entry))
    }

    /// The error of a refused change.
    pub open spec fn refusal(self, code: i32) -> ConnectionError {
        match self.change {
            Change::Create { .. } => ConnectionError::CreateFailed {
                kind: self.kind,
                name: self.name,
                code,
            },
            Change::Remove { .. } => ConnectionError::RemoveFailed {
                kind: self.kind,
                name: self.name,
                code,
            },
        }
    }

    /// What is registered when SQLite is called. A removal takes the name away
    /// first; so does a function enter its name first. An aggregate or a
    /// collation enters its name only when SQLite has taken it.
    pub open spec fn registered_for_call(self, view: CallbacksView) -> CallbacksView {
        match self.change {
            Change::Remove { .. } => self.removed(view),
            Change::Create { nargs, callback, deterministic } => if self.kind == CallbackKind::Function {
                self.inserted(view, Entry { nargs, callback, deterministic })
            } else {
                view
            },
        }
    }

    /// What follows SQLite's answer.
    pub open spec fn answered(
        self,
        view: CallbacksView,
        transaction: bool,
        earlier: Option<Entry>,
        code: i32,
    ) -> (CallbacksView, RegistrationStep<E>) {
        let refused: Result<(), RegistrationError<E>> = Err(
            RegistrationError::Refused(self.refusal(code)),
        );
        match (self.change, self.kind) {
            (Change::Remove { .. }, CallbackKind::Function) => if code != SQLITE_OK {
                (view, RegistrationStep::Finished(refused))
            } else if !view.any() && !transaction {
                (view, RegistrationStep::Release)
            } else {
                (view, RegistrationStep::Finished(Ok(())))
            },
            (Change::Create { .. }, CallbackKind::Function) => if code != SQLITE_OK {
                (self.removed(view), RegistrationStep::Finished(refused))
            } else {
                (view, RegistrationStep::Finished(Ok(())))
            },
            (Change::Remove { .. }, _) => if code != SQLITE_OK {
                match earlier {
                    Some(entry) => (
                        self.inserted(view, entry),
                        RegistrationStep::Finished(refused),
                    ),
                    None => (view, RegistrationStep::Finished(refused)),
                }
            } else {
                match earlier {
                    Some(entry) => (
                        view,
                        RegistrationStep::Free {
                            callback: entry.callback,
                            release: !view.any(),
                            result: Ok(()),
                        },
                    ),
                    None => if !view.any() {
                        (view, RegistrationStep::Release)
                    } else {
                        (view, RegistrationStep::Finished(Ok(())))
                    },
                }
            },
            (Change::Create { nargs, callback, deterministic }, _) => if code != SQLITE_OK {
                (view, RegistrationStep::Free { callback, release: false, result: refused })
            } else {
                (
                    self.inserted(view, Entry { nargs, callback, deterministic }),
                    match self.earlier(view) {
                        Some(entry) => RegistrationStep::Free {
                            callback: entry.callback,
                            release: false,
                            result: Ok(()),
                        },
                        None => RegistrationStep::Finished(Ok(())),
                    },
                )
            },
        }
    }
}

impl<E> Process for Registration<E> {
    type State = (CallbacksView, RegistrationStep<E>);

    type Reply = RegistrationReply<E>;

    open spec fn outset(self) -> (CallbacksView, RegistrationStep<E>) {
        (
            self.before@,
            if self.closed {
                RegistrationStep::Finished(
                    Err(RegistrationError::Refused(ConnectionError::Closed)),
                )
            } else if self.kind == CallbackKind::Function {
                RegistrationStep::FindTransaction
            } else {
                RegistrationStep::EnsureConnection
            },
        )
    }

    open spec fn ended(self, state: (CallbacksView, RegistrationStep<E>)) -> bool {
        state.1 is Finished
    }

    open spec fn answers(
        self,
        state: (CallbacksView, RegistrationStep<E>),
        reply: RegistrationReply<E>,
    ) -> bool {
        match state.1 {
            RegistrationStep::FindTransaction | RegistrationStep::UseConnection { .. } =>
                reply is Found,
            RegistrationStep::EnsureConnection | RegistrationStep::Lock { .. } => reply is Ran,
            RegistrationStep::Call { .. } => reply is Code,
            RegistrationStep::Free { .. } | RegistrationStep::Release => reply is Done,
            RegistrationStep::Finished(_) => false,
        }
    }

    open spec fn next(
        self,
        state: (CallbacksView, RegistrationStep<E>),
        reply: RegistrationReply<E>,
    ) -> (CallbacksView, RegistrationStep<E>) {
        let view = state.0;
        match (state.1, reply) {
            (RegistrationStep::FindTransaction, RegistrationReply::Found(found)) => (
                view,
                if found {
                    RegistrationStep::UseConnection { transaction: true }
                } else {
                    RegistrationStep::EnsureConnection
                },
            ),
            (RegistrationStep::EnsureConnection, RegistrationReply::Ran(outcome)) => (
                view,
                match outcome {
                    Ok(_) => RegistrationStep::UseConnection { transaction: false },
                    Err(error) => RegistrationStep::Finished(Err(RegistrationError::Call(error))),
                },
            ),
            (
                RegistrationStep::UseConnection { transaction },
                RegistrationReply::Found(found),
            ) => (
                view,
                if found {
                    RegistrationStep::Lock { transaction }
                } else if transaction {
                    RegistrationStep::Finished(
                        Err(
                            RegistrationError::Refused(ConnectionError::NoTransactionConnection),
                        ),
                    )
                } else {
                    RegistrationStep::Finished(
                        Err(RegistrationError::Refused(ConnectionError::NoCallbackConnection)),
                    )
                },
            ),
            (RegistrationStep::Lock { transaction }, RegistrationReply::Ran(outcome)) =>
                match outcome {
                Ok(_) => (
                    self.registered_for_call(view),
                    match text::nul_in(self.name@) {
                        Some(position) => RegistrationStep::Finished(
                            Err(
                                RegistrationError::Refused(
                                    ConnectionError::NulInName {
                                        kind: self.kind,
                                        position: position as usize,
                                    },
                                ),
                            ),
                        ),
                        None => RegistrationStep::Call {
                            transaction,
                            call: self.spec_call(),
                            earlier: self.earlier(view),
                        },
                    },
                ),
                Err(error) => (
                    view,
                    RegistrationStep::Finished(Err(RegistrationError::Lock(error))),
                ),
            },
            (
                RegistrationStep::Call { transaction, earlier, .. },
                RegistrationReply::Code(code),
            ) => self.answered(view, transaction, earlier, code),
            (RegistrationStep::Free { release, result, .. }, RegistrationReply::Done) => (
                view,
                if release {
                    RegistrationStep::Release
                } else {
                    RegistrationStep::Finished(result)
                },
            ),
            (RegistrationStep::Release, RegistrationReply::Done) => (
                view,
                RegistrationStep::Finished(Ok(())),
            ),
            (step, _) => (view, step),
        }
    }
}

impl<E> Registration<E> {
    /// A change of a named callback, on what is registered now.
    pub fn new(
        kind: CallbackKind,
        name: String,
        change: Change,
        closed: bool,
        callbacks: &Callbacks,
    ) -> (out: Self)
        ensures
            out.kind == kind,
            out.name == name,
            out.change == change,
            out.closed == closed,
            out.before@ == callbacks@,
    {
        Registration {
            kind,
            name,
            change,
            closed,
            before: Ghost(callbacks@),
            errors: PhantomData,
        }
    }

    fn call(&self) -> (out: RegistrationCall)
        ensures
            out == self.spec_call(),
    {
        match self.change {
            Change::Create { nargs, callback, deterministic } => RegistrationCall {
                nargs,
                encoding: encoding(self.kind, deterministic),
                callback: Some(callback),
            },
            Change::Remove { nargs } => RegistrationCall {
                nargs,
                encoding: SQLITE_UTF8,
                callback: None,
            },
        }
    }

    fn refuse(&self, code: i32) -> (out: Result<(), RegistrationError<E>>)
        ensures
            out == Err::<(), RegistrationError<E>>(
                RegistrationError::Refused(self.refusal(code)),
            ),
    {
        let name = self.name.clone();
        match self.change {
            Change::Create { .. } => Err(
                RegistrationError::Refused(
                    ConnectionError::CreateFailed { kind: self.kind, name, code },
                ),
            ),
            Change::Remove { .. } => Err(
                RegistrationError::Refused(
                    ConnectionError::RemoveFailed { kind: self.kind, name, code },
                ),
            ),
        }
    }

    fn register_for_call(&self, callbacks: &mut Callbacks) -> (earlier: Option<Entry>)
        requires
            old(callbacks).wf(),
        ensures
            final(callbacks).wf(),
            final(callbacks)@ == self.registered_for_call(old(callbacks)@),
            earlier == self.earlier(old(callbacks)@),
    {
        match self.change {
            Change::Remove { .. } => callbacks.remove(self.kind, &self.name),
            Change::Create { nargs, callback, deterministic } => {
                match self.kind {
                    CallbackKind::Function => callbacks.insert(
                        CallbackKind::Function,
                        self.name.clone(),
                        Entry { nargs, callback, deterministic },
                    ),
                    CallbackKind::Aggregate => callbacks.aggregates.get(&self.name),
                    CallbackKind::Collation => callbacks.collations.get(&self.name),
                }
            },
        }
    }

    fn answer(
        &self,
        callbacks: &mut Callbacks,
        transaction: bool,
        earlier: Option<Entry>,
        code: i32,
    ) -> (out: RegistrationStep<E>)
        requires
            old(callbacks).wf(),
        ensures
            final(callbacks).wf(),
            (final(callbacks)@, out) == self.answered(old(callbacks)@, transaction, earlier, code),
    {
        match (self.change, self.kind) {
            (Change::Remove { .. }, CallbackKind::Function) => if code != SQLITE_OK {
                RegistrationStep::Finished(self.refuse(code))
            } else if !callbacks.has_callbacks() && !transaction {
                RegistrationStep::Release
            } else {
                RegistrationStep::Finished(Ok(()))
            },
            (Change::Create { .. }, CallbackKind::Function) => if code != SQLITE_OK {
                let _ = callbacks.remove(self.kind, &self.name);
                RegistrationStep::Finished(self.refuse(code))
            } else {
                RegistrationStep::Finished(Ok(()))
            },
            (Change::Remove { .. }, _) => if code != SQLITE_OK {
                match earlier {
                    Some(entry) => {
                        let _ = callbacks.insert(self.kind, self.name.clone(), entry);
                    },
                    None => {},
                }
                RegistrationStep::Finished(self.refuse(code))
            } else {
                let release = !callbacks.has_callbacks();
                match earlier {
                    Some(entry) => RegistrationStep::Free {
                        callback: entry.callback,
                        release,
                        result: Ok(()),
                    },
                    None => if release {
                        RegistrationStep::Release
                    } else {
                        RegistrationStep::Finished(Ok(()))
                    },
                }
            },
            (Change::Create { nargs, callback, deterministic }, _) => if code != SQLITE_OK {
                RegistrationStep::Free { callback, release: false, result: self.refuse(code) }
            } else {
                let replaced = callbacks.insert(
                    self.kind,
                    self.name.clone(),
                    Entry { nargs, callback, deterministic },
                );
                match replaced {
                    Some(entry) => RegistrationStep::Free {
                        callback: entry.callback,
                        release: false,
                        result: Ok(()),
                    },
                    None => RegistrationStep::Finished(Ok(())),
                }
            },
        }
    }

    /// The first call to make.
    pub fn start(&self) -> (out: RegistrationStep<E>)
        ensures
            (self.before@, out) == self.outset(),
    {
        if self.closed {
            RegistrationStep::Finished(Err(RegistrationError::Refused(ConnectionError::Closed)))
        } else {
            match self.kind {
                CallbackKind::Function => RegistrationStep::FindTransaction,
                _ => RegistrationStep::EnsureConnection,
            }
        }
    }

    /// The call to make behind a reply. What is registered changes on the way.
    pub fn resume(
        &self,
        callbacks: &mut Callbacks,
        step: RegistrationStep<E>,
        reply: RegistrationReply<E>,
    ) -> (out: RegistrationStep<E>)
        requires
            old(callbacks).wf(),
        ensures
            final(callbacks).wf(),
            (final(callbacks)@, out) == self.next((old(callbacks)@, step), reply),
    {
        match (step, reply) {
            (RegistrationStep::FindTransaction, RegistrationReply::Found(found)) => if found {
                RegistrationStep::UseConnection { transaction: true }
            } else {
                RegistrationStep::EnsureConnection
            },
            (RegistrationStep::EnsureConnection, RegistrationReply::Ran(outcome)) => match outcome {
                Ok(_) => RegistrationStep::UseConnection { transaction: false },
                Err(error) => RegistrationStep::Finished(Err(RegistrationError::Call(error))),
            },
            (
                RegistrationStep::UseConnection { transaction },
                RegistrationReply::Found(found),
            ) => if found {
                RegistrationStep::Lock { transaction }
            } else if transaction {
                RegistrationStep::Finished(
                    Err(RegistrationError::Refused(ConnectionError::NoTransactionConnection)),
                )
            } else {
                RegistrationStep::Finished(
                    Err(RegistrationError::Refused(ConnectionError::NoCallbackConnection)),
                )
            },
            (RegistrationStep::Lock { transaction }, RegistrationReply::Ran(outcome)) =>
                match outcome {
                Ok(_) => {
                    let earlier = self.register_for_call(callbacks);
                    match text::nul_position(self.name.as_str()) {
                        Some(position) => RegistrationStep::Finished(
                            Err(
                                RegistrationError::Refused(
                                    ConnectionError::NulInName { kind: self.kind, position },
                                ),
                            ),
                        ),
                        None => RegistrationStep::Call {
                            transaction,
                            call: self.call(),
                            earlier,
                        },
                    }
                },
                Err(error) => RegistrationStep::Finished(Err(RegistrationError::Lock(error))),
            },
            (
                RegistrationStep::Call { transaction, earlier, .. },
                RegistrationReply::Code(code),
            ) => self.answer(callbacks, transaction, earlier, code),
            (RegistrationStep::Free { release, result, .. }, RegistrationReply::Done) =>
                if release {
                RegistrationStep::Release
            } else {
                RegistrationStep::Finished(result)
            },
            (RegistrationStep::Release, RegistrationReply::Done) => RegistrationStep::Finished(
                Ok(()),
            ),
            (step, _) => step,
        }
    }
}

/// What a change is meant to make of the callbacks of its kind.
pub open spec fn intended<E>(
    registration: Registration<E>,
    named: Map<Seq<char>, Entry>,
) -> Map<Seq<char>, Entry> {
    match registration.change {
        Change::Create { nargs, callback, deterministic } => named.insert(
            registration.name@,
            Entry { nargs, callback, deterministic },
        ),
        Change::Remove { .. } => named.remove(registration.name@),
    }
}

/// Where the callbacks stand along a registration.
spec fn registration_course<E>(
    registration: Registration<E>,
    state: (CallbacksView, RegistrationStep<E>),
) -> bool {
    let view = state.0;
    let before = registration.before@;
    let named = before.of(registration.kind);
    match state.1 {
        RegistrationStep::FindTransaction
        | RegistrationStep::EnsureConnection
        | RegistrationStep::UseConnection { .. }
        | RegistrationStep::Lock { .. } => view == before,
        RegistrationStep::Call { earlier, .. } => {
            &&& view == registration.registered_for_call(before)
            &&& earlier == registration.earlier(before)
            &&& text::nul_in(registration.name@) is None
        },
        RegistrationStep::Free { result, release, .. } => {
            &&& registration.kind != CallbackKind::Function
            &&& text::nul_in(registration.name@) is None
            &&& result is Ok ==> view == before.with(
                registration.kind,
                intended(registration, named),
            )
            &&& result is Err ==> view == before && !release
            &&& release ==> !view.any()
        },
        RegistrationStep::Release => {
            &&& view == before.with(registration.kind, intended(registration, named))
            &&& !view.any()
            &&& text::nul_in(registration.name@) is None
        },
        RegistrationStep::Finished(Ok(_)) => {
            &&& view == before.with(registration.kind, intended(registration, named))
            &&& text::nul_in(registration.name@) is None
        },
        RegistrationStep::Finished(Err(error)) => {
            ||| view == before
            ||| registration.kind == CallbackKind::Function
            ||| view == registration.registered_for_call(before) && text::nul_in(
                registration.name@,
            ) is Some
        },
    }
}

proof fn lemma_registration_course<E>(
    registration: Registration<E>,
    replies: Seq<RegistrationReply<E>>,
)
    requires
        process::possible(registration, replies),
    ensures
        registration_course(registration, process::reached(registration, replies)),
    decreases replies.len(),
{
    if replies.len() > 0 {
        lemma_registration_course(registration, replies.drop_last());
        let before = registration.before@;
        let named = before.of(registration.kind);
        let name = registration.name@;
        if named.dom().contains(name) {
            assert(named.remove(name).insert(name, named[name]) =~= named);
        } else {
            assert(named.remove(name) =~= named);
        }
        assert(before.with(registration.kind, named) =~= before);
    }
}

/// A registration that succeeds has made exactly the change that was asked
/// for, and left the callbacks of the other kinds alone.
pub proof fn law_registration_succeeds<E>(
    registration: Registration<E>,
    replies: Seq<RegistrationReply<E>>,
)
    requires
        process::possible(registration, replies),
        process::reached(registration, replies).1 matches RegistrationStep::Finished(Ok(_)),
    ensures
        process::reached(registration, replies).0 == registration.before@.with(
            registration.kind,
            intended(registration, registration.before@.of(registration.kind)),
        ),
{
    lemma_registration_course(registration, replies);
}

/// Whether every name is one that SQLite can take.
pub open spec fn names_pass(named: Map<Seq<char>, Entry>) -> bool {
    forall|name: Seq<char>| named.dom().contains(name) ==> text::nul_in(name) is None
}

/// An aggregate or collation that is refused leaves everything as it was, and
/// one that is taken has a name that SQLite can take.
pub proof fn law_refused_registration_changes_nothing<E>(
    registration: Registration<E>,
    replies: Seq<RegistrationReply<E>>,
)
    requires
        process::possible(registration, replies),
        registration.kind != CallbackKind::Function,
        names_pass(registration.before@.of(registration.kind)),
        registration.ended(process::reached(registration, replies)),
    ensures
        process::reached(registration, replies).1 matches RegistrationStep::Finished(Err(_))
            ==> process::reached(registration, replies).0 == registration.before@,
        names_pass(process::reached(registration, replies).0.of(registration.kind)),
{
    lemma_registration_course(registration, replies);
    let before = registration.before@;
    let named = before.of(registration.kind);
    if text::nul_in(registration.name@) is Some {
        assert(!named.dom().contains(registration.name@));
        assert(named.remove(registration.name@) =~= named);
    }
    assert(before.with(registration.kind, named) =~= before);
}

/// A refused function is not registered afterwards, whatever was before.
pub proof fn law_refused_function_is_gone<E>(
    registration: Registration<E>,
    replies: Seq<RegistrationReply<E>>,
)
    requires
        process::possible(registration, replies),
        registration.kind == CallbackKind::Function,
        process::reached(registration, replies).1 matches RegistrationStep::Finished(
            Err(RegistrationError::Refused(ConnectionError::CreateFailed { .. })),
        ),
    ensures
        !process::reached(registration, replies).0.functions.dom().contains(registration.name@),
{
    if replies.len() > 0 {
        lemma_registration_course(registration, replies.drop_last());
    }
}

/// The connection for callbacks is given up only where nothing is registered
/// any more.
pub proof fn law_registration_releases_unused<E>(
    registration: Registration<E>,
    replies: Seq<RegistrationReply<E>>,
)
    requires
        process::possible(registration, replies),
        process::reached(registration, replies).1 is Release,
    ensures
        !process::reached(registration, replies).0.any(),
{
    lemma_registration_course(registration, replies);
}

/// The callbacks of aggregates and collations that have been freed.
pub open spec fn freed<E>(
    registration: Registration<E>,
    replies: Seq<RegistrationReply<E>>,
) -> Seq<u64>
    decreases replies.len(),
{
    if replies.len() == 0 {
        Seq::empty()
    } else {
        let earlier = freed(registration, replies.drop_last());
        match process::reached(registration, replies.drop_last()).1 {
            RegistrationStep::Free { callback, .. } => earlier.push(callback),
            _ => earlier,
        }
    }
}

/// Each callback of an aggregate or a collation is freed once and at the right
/// time: a new one where SQLite refused it, an earlier one where it was
/// replaced or removed, and nothing else.
pub proof fn law_registration_frees<E>(
    registration: Registration<E>,
    replies: Seq<RegistrationReply<E>>,
)
    requires
        process::possible(registration, replies),
        registration.kind != CallbackKind::Function,
        registration.ended(process::reached(registration, replies)),
    ensures
        freed(registration, replies) == match process::reached(registration, replies).1 {
            RegistrationStep::Finished(Ok(_)) => match registration.earlier(registration.before@) {
                Some(entry) => seq![entry.callback],
                None => Seq::empty(),
            },
            RegistrationStep::Finished(
                Err(RegistrationError::Refused(ConnectionError::CreateFailed { .. })),
            ) => seq![registration.change->callback],
            _ => Seq::empty(),
        },
{
    lemma_registration_frees(registration, replies);
}

proof fn lemma_registration_frees<E>(
    registration: Registration<E>,
    replies: Seq<RegistrationReply<E>>,
)
    requires
        process::possible(registration, replies),
        registration.kind != CallbackKind::Function,
    ensures
        match process::reached(registration, replies).1 {
            RegistrationStep::Free { callback, result, release } => {
                &&& freed(registration, replies) == Seq::<u64>::empty()
                &&& match result {
                    Ok(_) => registration.earlier(registration.before@) is Some && callback
                        == registration.earlier(registration.before@)->0.callback,
                    Err(error) => {
                        &&& !release
                        &&& error matches RegistrationError::Refused(
                            ConnectionError::CreateFailed { .. },
                        )
                        &&& registration.change is Create
                        &&& callback == registration.change->callback
                    },
                }
            },
            RegistrationStep::Release | RegistrationStep::Finished(Ok(_)) => freed(
                registration,
                replies,
            ) == (match registration.earlier(registration.before@) {
                Some(entry) => seq![entry.callback],
                None => Seq::<u64>::empty(),
            }),
            RegistrationStep::Finished(
                Err(RegistrationError::Refused(ConnectionError::CreateFailed { .. })),
            ) => freed(registration, replies) == seq![registration.change->callback],
            _ => freed(registration, replies) == Seq::<u64>::empty(),
        },
    decreases replies.len(),
{
    if replies.len() > 0 {
        lemma_registration_frees(registration, replies.drop_last());
        lemma_registration_course(registration, replies.drop_last());
        let empty = Seq::<u64>::empty();
        assert forall|x: u64| #[trigger] empty.push(x) == seq![x] by {}
    }
}

/// A bound on the calls that a registration has left to make.
pub open spec fn calls_left<E>(step: RegistrationStep<E>) -> int {
    match step {
        RegistrationStep::FindTransaction => 7,
        RegistrationStep::EnsureConnection => 6,
        RegistrationStep::UseConnection { .. } => 5,
        RegistrationStep::Lock { .. } => 4,
        RegistrationStep::Call { .. } => 3,
        RegistrationStep::Free { .. } => 2,
        RegistrationStep::Release => 1,
        RegistrationStep::Finished(_) => 0,
    }
}

/// With every reply the bound on the calls that are left goes down, so that a
/// registration comes to its end.
pub proof fn law_registration_ends<E>(
    registration: Registration<E>,
    state: (CallbacksView, RegistrationStep<E>),
    reply: RegistrationReply<E>,
)
    requires
        registration.answers(state, reply),
    ensures
        0 <= calls_left(registration.next(state, reply).1) < calls_left(state.1),
{
}

/// Removing what was registered under a new name leaves everything as it was.
pub proof fn law_removal_undoes_creation<E>(
    creation: Registration<E>,
    creation_replies: Seq<RegistrationReply<E>>,
    removal: Registration<E>,
    removal_replies: Seq<RegistrationReply<E>>,
)
    requires
        creation.change is Create,
        !creation.before@.of(creation.kind).dom().contains(creation.name@),
        process::possible(creation, creation_replies),
        process::reached(creation, creation_replies).1 matches RegistrationStep::Finished(Ok(_)),
        removal.change is Remove,
        removal.kind == creation.kind,
        removal.name@ == creation.name@,
        removal.before@ == process::reached(creation, creation_replies).0,
        process::possible(removal, removal_replies),
        process::reached(removal, removal_replies).1 matches RegistrationStep::Finished(Ok(_)),
    ensures
        process::reached(removal, removal_replies).0 == creation.before@,
{
    law_registration_succeeds(creation, creation_replies);
    law_registration_succeeds(removal, removal_replies);
    let before = creation.before@.of(creation.kind);
    let between = intended(creation, before);
    assert(intended(removal, between) =~= before);
}

/// A callback that was registered is bound to another connection by the same
/// call that registered it.
pub proof fn law_rebinding_repeats_the_call<E>(
    registration: Registration<E>,
    replies: Seq<RegistrationReply<E>>,
)
    requires
        process::possible(registration, replies),
        registration.change is Create,
        process::reached(registration, replies).1 == RegistrationStep::<E>::Finished(Ok(())),
    ensures
        ({
            let named = process::reached(registration, replies).0.of(registration.kind);
            &&& named.dom().contains(registration.name@)
            &&& named[registration.name@].spec_rebinding(registration.kind)
                == registration.spec_call()
        }),
{
    law_registration_succeeds(registration, replies);
}

// ---------------------------------------------------------------- what SQLite is called with

/// Anything that is registered counts, and without anything nothing does.
pub proof fn law_anything_registered_counts(view: CallbacksView)
    ensures
        view.any() <==> !(!view.required && view.functions.dom() =~= Set::<Seq<char>>::empty()
            && view.aggregates.dom() =~= Set::<Seq<char>>::empty() && view.collations.dom()
            =~= Set::<Seq<char>>::empty() && view.trace is None && view.authorizer is None
            && view.progress is None),
{
    let none = Map::<Seq<char>, Entry>::empty();
    if view.functions.dom() =~= Set::<Seq<char>>::empty() {
        assert(view.functions =~= none);
    }
    if view.aggregates.dom() =~= Set::<Seq<char>>::empty() {
        assert(view.aggregates =~= none);
    }
    if view.collations.dom() =~= Set::<Seq<char>>::empty() {
        assert(view.collations =~= none);
    }
}

/// The callbacks of each kind stand on their own: changing those of one kind
/// changes those, and nothing else.
pub proof fn law_kinds_are_kept_apart(
    view: CallbacksView,
    kind: CallbackKind,
    other: CallbackKind,
    named: Map<Seq<char>, Entry>,
)
    ensures
        view.of(CallbackKind::Function) == view.functions,
        view.of(CallbackKind::Aggregate) == view.aggregates,
        view.of(CallbackKind::Collation) == view.collations,
        view.with(kind, named).of(kind) == named,
        other != kind ==> view.with(kind, named).of(other) == view.of(other),
        view.with(kind, named).required == view.required,
        view.with(kind, named).trace == view.trace,
        view.with(kind, named).authorizer == view.authorizer,
        view.with(kind, named).progress == view.progress,
        view.with(kind, named).authorizer_context == view.authorizer_context,
        view.with(kind, named).progress_context == view.progress_context,
{
}

/// A callback takes up to 127 arguments, or any number of them.
pub proof fn law_number_of_arguments(nargs: i32)
    ensures
        arity(nargs) <==> nargs == -1 || 0 <= nargs < 128,
{
}

/// What a registration has met so far.
pub ghost struct RegistrationLedger<E> {
    /// Whether the slot of the transaction was found to hold a connection.
    pub in_transaction: Option<bool>,
    /// The slot for callbacks was made sure of.
    pub ensured: bool,
    /// The connection was taken hold of.
    pub used: bool,
    /// Its handle was locked.
    pub locked: bool,
    /// How SQLite was called, and what it answered.
    pub called: Option<(RegistrationCall, i32)>,
    /// The connection was taken out of the slot for callbacks.
    pub released: bool,
    /// What went wrong.
    pub trouble: Option<RegistrationError<E>>,
}

/// What a registration has met once these replies have come back.
pub open spec fn registration_ledger<E>(
    registration: Registration<E>,
    replies: Seq<RegistrationReply<E>>,
) -> RegistrationLedger<E>
    decreases replies.len(),
{
    if replies.len() == 0 {
        RegistrationLedger {
            in_transaction: None,
            ensured: false,
            used: false,
            locked: false,
            called: None,
            released: false,
            trouble: None,
        }
    } else {
        let ledger = registration_ledger(registration, replies.drop_last());
        match (process::reached(registration, replies.drop_last()).1, replies.last()) {
            (RegistrationStep::FindTransaction, RegistrationReply::Found(found)) =>
                RegistrationLedger { in_transaction: Some(found), ..ledger },
            (RegistrationStep::EnsureConnection, RegistrationReply::Ran(Ok(_))) =>
                RegistrationLedger { ensured: true, ..ledger },
            (RegistrationStep::EnsureConnection, RegistrationReply::Ran(Err(error))) =>
                RegistrationLedger { trouble: Some(RegistrationError::Call(error)), ..ledger },
            (RegistrationStep::UseConnection { .. }, RegistrationReply::Found(found)) =>
                RegistrationLedger {
                used: found,
                trouble: if found {
                    None
                } else if ledger.in_transaction == Some(true) {
                    Some(RegistrationError::Refused(ConnectionError::NoTransactionConnection))
                } else {
                    Some(RegistrationError::Refused(ConnectionError::NoCallbackConnection))
                },
                ..ledger
            },
            (RegistrationStep::Lock { .. }, RegistrationReply::Ran(Ok(_))) => RegistrationLedger {
                locked: true,
                ..ledger
            },
            (RegistrationStep::Lock { .. }, RegistrationReply::Ran(Err(error))) =>
                RegistrationLedger { trouble: Some(RegistrationError::Lock(error)), ..ledger },
            (RegistrationStep::Call { call, .. }, RegistrationReply::Code(code)) =>
                RegistrationLedger {
                called: Some((call, code)),
                trouble: if code == SQLITE_OK {
                    None
                } else {
                    Some(
                        RegistrationError::Refused(
                            match registration.change {
                                Change::Create { .. } => ConnectionError::CreateFailed {
                                    kind: registration.kind,
                                    name: registration.name,
                                    code,
                                },
                                Change::Remove { .. } => ConnectionError::RemoveFailed {
                                    kind: registration.kind,
                                    name: registration.name,
                                    code,
                                },
                            },
                        ),
                    )
                },
                ..ledger
            },
            (RegistrationStep::Release, _) => RegistrationLedger { released: true, ..ledger },
            _ => ledger,
        }
    }
}

/// Whether SQLite is called as the change asks for: with its number of
/// arguments, with its callback or with none, in UTF-8, and with the flag of a
/// deterministic function only for a function that is one.
pub open spec fn calls_for<E>(registration: Registration<E>, call: RegistrationCall) -> bool {
    match registration.change {
        Change::Create { nargs, callback, deterministic } => {
            &&& call.nargs == nargs
            &&& call.callback == Some(callback)
            &&& call.encoding == if deterministic && registration.kind == CallbackKind::Function {
                0x801int
            } else {
                1int
            }
        },
        Change::Remove { nargs } => {
            &&& call.nargs == nargs
            &&& call.callback is None
            &&& call.encoding == 1
        },
    }
}

/// Whether a registration works on the connection that it belongs to: a
/// function on that of the transaction where there is one, and anything else on
/// the one that carries the callbacks, which was made sure of.
pub open spec fn on_its_connection<E>(
    registration: Registration<E>,
    ledger: RegistrationLedger<E>,
    transaction: bool,
) -> bool {
    &&& transaction == (ledger.in_transaction == Some(true))
    &&& !transaction ==> ledger.ensured
    &&& ledger.in_transaction is Some <==> registration.kind == CallbackKind::Function
}

/// A registration calls SQLite once, as the change asks for, on the connection
/// that it belongs to and with its handle locked. It succeeds exactly where
/// SQLite takes the change, and fails with what it met and with nothing else: a
/// name with a NUL byte never reaches SQLite.
pub proof fn law_registration_calls_sqlite<E>(
    registration: Registration<E>,
    replies: Seq<RegistrationReply<E>>,
)
    requires
        process::possible(registration, replies),
        !registration.closed,
    ensures
        ({
            let ledger = registration_ledger(registration, replies);
            let bytes = vstd::utf8::encode_utf8(registration.name@);
            let clear = forall|i: int| 0 <= i < bytes.len() ==> bytes[i] != 0;
            match process::reached(registration, replies).1 {
                RegistrationStep::FindTransaction => replies.len() == 0 && registration.kind
                    == CallbackKind::Function,
                RegistrationStep::EnsureConnection => {
                    &&& ledger.in_transaction == if registration.kind == CallbackKind::Function {
                        Some(false)
                    } else {
                        None
                    }
                    &&& ledger.called is None && ledger.trouble is None && !ledger.released
                },
                RegistrationStep::UseConnection { transaction } => {
                    &&& on_its_connection(registration, ledger, transaction)
                    &&& ledger.called is None && ledger.trouble is None && !ledger.released
                },
                RegistrationStep::Lock { transaction } => {
                    &&& on_its_connection(registration, ledger, transaction)
                    &&& ledger.used
                    &&& ledger.called is None && ledger.trouble is None && !ledger.released
                },
                RegistrationStep::Call { transaction, call, .. } => {
                    &&& on_its_connection(registration, ledger, transaction)
                    &&& ledger.used && ledger.locked
                    &&& calls_for(registration, call)
                    &&& clear
                    &&& ledger.called is None && ledger.trouble is None && !ledger.released
                },
                RegistrationStep::Free { release, result, .. } => {
                    &&& ledger.called matches Some(answer)
                    &&& calls_for(registration, answer.0)
                    &&& result is Ok <==> answer.1 == SQLITE_OK
                    &&& result matches Err(error) ==> ledger.trouble == Some(error)
                    &&& result is Ok ==> ledger.trouble is None
                    &&& release == (result is Ok && registration.change is Remove
                        && !process::reached(registration, replies).0.any())
                    &&& registration.kind != CallbackKind::Function
                    &&& ledger.in_transaction is None
                    &&& !ledger.released
                },
                RegistrationStep::Release => {
                    &&& ledger.called matches Some(answer)
                    &&& calls_for(registration, answer.0)
                    &&& answer.1 == SQLITE_OK
                    &&& ledger.trouble is None
                    &&& registration.change is Remove
                    &&& ledger.in_transaction != Some(true)
                },
                RegistrationStep::Finished(Ok(_)) => {
                    &&& ledger.called matches Some(answer)
                    &&& calls_for(registration, answer.0)
                    &&& answer.1 == SQLITE_OK
                    &&& ledger.trouble is None
                    &&& ledger.released == (registration.change is Remove && !process::reached(
                        registration,
                        replies,
                    ).0.any() && ledger.in_transaction != Some(true))
                },
                RegistrationStep::Finished(Err(error)) => {
                    &&& match ledger.trouble {
                        Some(known) => error == known,
                        None => {
                            &&& !clear
                            &&& ledger.called is None
                            &&& error matches RegistrationError::Refused(
                                ConnectionError::NulInName { kind, position },
                            )
                            &&& kind == registration.kind
                            &&& bytes.len() <= usize::MAX ==> {
                                &&& position < bytes.len()
                                &&& bytes[position as int] == 0
                                &&& forall|i: int| 0 <= i < position ==> bytes[i] != 0
                            }
                        },
                    }
                    &&& !ledger.released
                },
            }
        }),
    decreases replies.len(),
{
    text::law_first_nul_is_the_first(vstd::utf8::encode_utf8(registration.name@));
    if replies.len() > 0 {
        law_registration_calls_sqlite(registration, replies.drop_last());
        lemma_registration_course(registration, replies.drop_last());
    }
}

/// Whatever becomes of a registration, callbacks under other names and of other
/// kinds stay as they were, and so does everything else that is registered.
pub proof fn law_registration_touches_its_name_alone<E>(
    registration: Registration<E>,
    replies: Seq<RegistrationReply<E>>,
    kind: CallbackKind,
    name: Seq<char>,
)
    requires
        process::possible(registration, replies),
    ensures
        ({
            let view = process::reached(registration, replies).0;
            let before = registration.before@;
            &&& kind != registration.kind || name != registration.name@ ==> {
                &&& view.of(kind).dom().contains(name) <==> before.of(kind).dom().contains(name)
                &&& before.of(kind).dom().contains(name) ==> view.of(kind)[name] == before.of(
                    kind,
                )[name]
            }
            &&& view.required == before.required
            &&& view.trace == before.trace
            &&& view.authorizer == before.authorizer
            &&& view.progress == before.progress
            &&& view.authorizer_context == before.authorizer_context
            &&& view.progress_context == before.progress_context
        }),
    decreases replies.len(),
{
    if replies.len() > 0 {
        law_registration_touches_its_name_alone(registration, replies.drop_last(), kind, name);
    }
}

} // verus!
