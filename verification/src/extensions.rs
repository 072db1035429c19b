//! Loadable extensions.

use crate::codes::SQLITE_OK;
use crate::error::ConnectionError;
use crate::process;
use crate::process::Process;
use crate::text;
use std::marker::PhantomData;
use vstd::prelude::*;
use vstd::string::*;

verus! {

/// What a connection knows of extensions.
pub struct Extensions {
    /// Whether extensions may be loaded.
    pub allowed: bool,
    /// The extensions that were loaded, in order, each once.
    pub loaded: Vec<String>,
    /// Whether they ask for a connection of their own.
    pub required: bool,
}

impl Extensions {
    /// Whether no extension is listed twice.
    pub open spec fn wf(self) -> bool {
        forall|i: int, j: int|
            0 <= i < j < self.loaded@.len() ==> (#[trigger] self.loaded@[i])@ != (
            #[trigger] self.loaded@[j])@
    }

    /// The names of the extensions that were loaded.
    pub open spec fn names(self) -> Seq<Seq<char>> {
        text::texts(self.loaded@)
    }

    /// A connection without extensions.
    pub fn new() -> (out: Self)
        ensures
            out.wf(),
            !out.allowed,
            !out.required,
            out.names() == Seq::<Seq<char>>::empty(),
    {
        let out = Extensions { allowed: false, loaded: Vec::new(), required: false };
        proof {
            assert(out.names() =~= Seq::<Seq<char>>::empty());
        }
        out
    }

    /// Allows or forbids loading. A connection of their own is asked for while
    /// loading is allowed, and as soon as one extension was loaded.
    pub fn enable(&mut self, enabled: bool)
        requires
            old(self).wf(),
        ensures
            final(self).wf(),
            final(self).allowed == enabled,
            final(self).names() == old(self).names(),
            final(self).required == (enabled || old(self).names().len() > 0),
    {
        self.allowed = enabled;
        self.required = enabled || self.loaded.len() > 0;
    }

    fn lists(&self, name: &String) -> (out: bool)
        ensures
            out == self.names().contains(name@),
    {
        let mut i: usize = 0;
        while i < self.loaded.len()
            invariant
                i <= self.loaded@.len(),
                forall|j: int| 0 <= j < i ==> (#[trigger] self.loaded@[j])@ != name@,
            decreases self.loaded@.len() - i,
        {
            if self.loaded[i] == *name {
                proof {
                    assert(self.names()[i as int] == name@);
                }
                return true;
            }
            i += 1;
        }
        proof {
            if self.names().contains(name@) {
                let j = choose|j: int| 0 <= j < self.names().len() && self.names()[j] == name@;
                assert(self.loaded@[j]@ == name@);
            }
        }
        false
    }

    /// Notes an extension that was loaded.
    pub fn note(&mut self, name: String)
        requires
            old(self).wf(),
        ensures
            final(self).wf(),
            final(self).allowed == old(self).allowed,
            final(self).required,
            final(self).names() == (if old(self).names().contains(name@) {
                old(self).names()
            } else {
                old(self).names().push(name@)
            }),
    {
        if !self.lists(&name) {
            let ghost key = name@;
            let ghost before = *self;
            self.loaded.push(name);
            proof {
                assert(self.names() =~= before.names().push(key));
                assert forall|i: int, j: int| 0 <= i < j < self.loaded@.len() implies (
                #[trigger] self.loaded@[i])@ != (#[trigger] self.loaded@[j])@ by {
                    if j == before.loaded@.len() {
                        assert(before.names()[i] == self.loaded@[i]@);
                    }
                }
            }
        }
        self.required = true;
    }
}

/// Why an extension is not loaded.
pub enum LoadError<E> {
    /// The library refuses it, or SQLite does.
    Refused(ConnectionError),
    /// A call failed.
    Call(E),
    /// The handle could not be locked.
    Lock(E),
}

/// The loading of an extension.
pub struct Load<E> {
    pub name: String,
    pub closed: bool,
    /// Whether extensions may be loaded.
    pub allowed: bool,
    pub errors: PhantomData<E>,
}

/// The call that loading waits for.
pub enum LoadStep<E> {
    /// Bind the callbacks to a connection of their own.
    BindCallbacks,
    /// Take hold of that connection.
    UseConnection,
    /// Lock its handle.
    Lock,
    /// Load the extension.
    Load,
    /// Give the connection up, and go on.
    Discard(Result<(), LoadError<E>>),
    /// No call is left. Where it went well the extension is to be noted.
    Finished(Result<(), LoadError<E>>),
}

/// What a call of loading brings back.
pub enum LoadReply<E> {
    /// How the call went.
    Ran(Result<(), E>),
    /// Whether there is a connection.
    Found(bool),
    /// The code that SQLite answers, and its message, where there is one.
    Loaded { code: i32, message: Option<String> },
    /// That the call is done.
    Done,
}

impl<E> Process for Load<E> {
    type State = LoadStep<E>;

    type Reply = LoadReply<E>;

    open spec fn outset(self) -> LoadStep<E> {
        if self.closed {
            LoadStep::Finished(Err(LoadError::Refused(ConnectionError::Closed)))
        } else if !self.allowed {
            LoadStep::Finished(Err(LoadError::Refused(ConnectionError::ExtensionsDisabled)))
        } else {
            LoadStep::BindCallbacks
        }
    }

    open spec fn ended(self, state: LoadStep<E>) -> bool {
        state is Finished
    }

    open spec fn answers(self, state: LoadStep<E>, reply: LoadReply<E>) -> bool {
        match state {
            LoadStep::BindCallbacks | LoadStep::Lock => reply is Ran,
            LoadStep::UseConnection => reply is Found,
            LoadStep::Load => reply is Loaded,
            LoadStep::Discard(_) => reply is Done,
            LoadStep::Finished(_) => false,
        }
    }

    open spec fn next(self, state: LoadStep<E>, reply: LoadReply<E>) -> LoadStep<E> {
        match (state, reply) {
            (LoadStep::BindCallbacks, LoadReply::Ran(outcome)) => match outcome {
                Ok(_) => LoadStep::UseConnection,
                Err(error) => LoadStep::Finished(Err(LoadError::Call(error))),
            },
            (LoadStep::UseConnection, LoadReply::Found(found)) => if found {
                LoadStep::Lock
            } else {
                LoadStep::Discard(Err(LoadError::Refused(ConnectionError::NoCallbackConnection)))
            },
            (LoadStep::Lock, LoadReply::Ran(outcome)) => match outcome {
                Ok(_) => match text::nul_in(self.name@) {
                    Some(position) => LoadStep::Discard(
                        Err(
                            LoadError::Refused(
                                ConnectionError::NulInExtension { position: position as usize },
                            ),
                        ),
                    ),
                    None => LoadStep::Load,
                },
                Err(error) => LoadStep::Discard(Err(LoadError::Lock(error))),
            },
            (LoadStep::Load, LoadReply::Loaded { code, message }) => LoadStep::Discard(
                if code == SQLITE_OK {
                    Ok(())
                } else {
                    Err(
                        LoadError::Refused(
                            match message {
                                Some(reason) => ConnectionError::LoadFailed {
                                    name: self.name,
                                    reason,
                                },
                                None => ConnectionError::LoadFailedCode { name: self.name, code },
                            },
                        ),
                    )
                },
            ),
            (LoadStep::Discard(result), LoadReply::Done) => LoadStep::Finished(result),
            (state, _) => state,
        }
    }
}

impl<E> Load<E> {
    /// The first call to make.
    pub fn start(&self) -> (out: LoadStep<E>)
        ensures
            out == self.outset(),
    {
        if self.closed {
            LoadStep::Finished(Err(LoadError::Refused(ConnectionError::Closed)))
        } else if !self.allowed {
            LoadStep::Finished(Err(LoadError::Refused(ConnectionError::ExtensionsDisabled)))
        } else {
            LoadStep::BindCallbacks
        }
    }

    /// The call to make behind a reply.
    pub fn resume(&self, state: LoadStep<E>, reply: LoadReply<E>) -> (out: LoadStep<E>)
        ensures
            out == self.next(state, reply),
    {
        match (state, reply) {
            (LoadStep::BindCallbacks, LoadReply::Ran(outcome)) => match outcome {
                Ok(_) => LoadStep::UseConnection,
                Err(error) => LoadStep::Finished(Err(LoadError::Call(error))),
            },
            (LoadStep::UseConnection, LoadReply::Found(found)) => if found {
                LoadStep::Lock
            } else {
                LoadStep::Discard(Err(LoadError::Refused(ConnectionError::NoCallbackConnection)))
            },
            (LoadStep::Lock, LoadReply::Ran(outcome)) => match outcome {
                Ok(_) => match text::nul_position(self.name.as_str()) {
                    Some(position) => LoadStep::Discard(
                        Err(LoadError::Refused(ConnectionError::NulInExtension { position })),
                    ),
                    None => LoadStep::Load,
                },
                Err(error) => LoadStep::Discard(Err(LoadError::Lock(error))),
            },
            (LoadStep::Load, LoadReply::Loaded { code, message }) => if code == SQLITE_OK {
                LoadStep::Discard(Ok(()))
            } else {
                let name = self.name.clone();
                match message {
                    Some(reason) => LoadStep::Discard(
                        Err(LoadError::Refused(ConnectionError::LoadFailed { name, reason })),
                    ),
                    None => LoadStep::Discard(
                        Err(LoadError::Refused(ConnectionError::LoadFailedCode { name, code })),
                    ),
                }
            },
            (LoadStep::Discard(result), LoadReply::Done) => LoadStep::Finished(result),
            (state, _) => state,
        }
    }
}

/// An extension is loaded only on an open connection that allows it, under a
/// name without a NUL byte, and where SQLite says that it is.
pub proof fn law_load_success<E>(load: Load<E>, replies: Seq<LoadReply<E>>)
    requires
        process::possible(load, replies),
        process::reached(load, replies) matches LoadStep::Finished(Ok(_)),
    ensures
        !load.closed,
        load.allowed,
        text::nul_in(load.name@) is None,
        replies.len() == 5,
        replies[3] is Loaded,
        replies[3]->code == SQLITE_OK,
{
    lemma_load_course(load, replies);
}

/// Once the callbacks are bound to a connection, loading ends with that
/// connection given up, however it goes.
pub proof fn law_load_gives_up_connection<E>(load: Load<E>, replies: Seq<LoadReply<E>>)
    requires
        process::possible(load, replies),
        load.ended(process::reached(load, replies)),
        replies.len() >= 2,
    ensures
        process::reached(load, replies.drop_last()) is Discard,
{
    lemma_load_course(load, replies.drop_last());
}

proof fn lemma_load_course<E>(load: Load<E>, replies: Seq<LoadReply<E>>)
    requires
        process::possible(load, replies),
    ensures
        match process::reached(load, replies) {
            LoadStep::BindCallbacks => replies.len() == 0 && !load.closed && load.allowed,
            LoadStep::UseConnection => replies.len() == 1 && !load.closed && load.allowed,
            LoadStep::Lock => replies.len() == 2 && !load.closed && load.allowed,
            LoadStep::Load => replies.len() == 3 && !load.closed && load.allowed && text::nul_in(
                load.name@,
            ) is None,
            LoadStep::Discard(Ok(_)) => {
                &&& replies.len() == 4
                &&& !load.closed
                &&& load.allowed
                &&& text::nul_in(load.name@) is None
                &&& replies[3] is Loaded
                &&& replies[3]->code == SQLITE_OK
            },
            LoadStep::Finished(Ok(_)) => {
                &&& replies.len() == 5
                &&& !load.closed
                &&& load.allowed
                &&& text::nul_in(load.name@) is None
                &&& replies[3] is Loaded
                &&& replies[3]->code == SQLITE_OK
            },
            LoadStep::Discard(Err(_)) | LoadStep::Finished(Err(_)) => true,
        },
    decreases replies.len(),
{
    if replies.len() > 0 {
        lemma_load_course(load, replies.drop_last());
    }
}

/// A bound on the calls that loading an extension has left to make.
pub open spec fn calls_left<E>(step: LoadStep<E>) -> int {
    match step {
        LoadStep::BindCallbacks => 5,
        LoadStep::UseConnection => 4,
        LoadStep::Lock => 3,
        LoadStep::Load => 2,
        LoadStep::Discard(_) => 1,
        LoadStep::Finished(_) => 0,
    }
}

/// With every reply the bound on the calls that are left goes down, so that
/// loading an extension comes to its end.
pub proof fn law_load_ends<E>(load: Load<E>, state: LoadStep<E>, reply: LoadReply<E>)
    requires
        load.answers(state, reply),
    ensures
        0 <= calls_left(load.next(state, reply)) < calls_left(state),
{
}

/// What fails the loading of an extension.
pub open spec fn load_trouble<E>(load: Load<E>, replies: Seq<LoadReply<E>>) -> Option<LoadError<E>>
    decreases replies.len(),
{
    if replies.len() == 0 {
        None
    } else {
        match (process::reached(load, replies.drop_last()), replies.last()) {
            (LoadStep::BindCallbacks, LoadReply::Ran(Err(error))) => Some(LoadError::Call(error)),
            (LoadStep::UseConnection, LoadReply::Found(false)) => Some(
                LoadError::Refused(ConnectionError::NoCallbackConnection),
            ),
            (LoadStep::Lock, LoadReply::Ran(Err(error))) => Some(LoadError::Lock(error)),
            (LoadStep::Load, LoadReply::Loaded { code, message }) => if code == SQLITE_OK {
                load_trouble(load, replies.drop_last())
            } else {
                match message {
                    Some(reason) => Some(
                        LoadError::Refused(
                            ConnectionError::LoadFailed { name: load.name, reason },
                        ),
                    ),
                    None => Some(
                        LoadError::Refused(
                            ConnectionError::LoadFailedCode { name: load.name, code },
                        ),
                    ),
                }
            },
            _ => load_trouble(load, replies.drop_last()),
        }
    }
}

/// Loading goes on to SQLite unless something stands in its way, and fails with
/// that and with nothing else: a closed connection, a connection that does not
/// allow it, a call that failed, a name with a NUL byte, or what SQLite says.
pub proof fn law_load_reports_what_failed<E>(load: Load<E>, replies: Seq<LoadReply<E>>)
    requires
        process::possible(load, replies),
    ensures
        load.closed ==> process::reached(load, replies) == LoadStep::<E>::Finished(
            Err(LoadError::Refused(ConnectionError::Closed)),
        ),
        !load.closed && !load.allowed ==> process::reached(load, replies)
            == LoadStep::<E>::Finished(
            Err(LoadError::Refused(ConnectionError::ExtensionsDisabled)),
        ),
        !load.closed && load.allowed ==> {
            let bytes = vstd::utf8::encode_utf8(load.name@);
            match process::reached(load, replies) {
                LoadStep::BindCallbacks => replies.len() == 0,
                LoadStep::UseConnection => replies.last() matches LoadReply::Ran(Ok(_))
                    && load_trouble(load, replies) is None,
                LoadStep::Lock => replies.last() == LoadReply::<E>::Found(true) && load_trouble(
                    load,
                    replies,
                ) is None,
                LoadStep::Load => {
                    &&& replies.last() matches LoadReply::Ran(Ok(_))
                    &&& load_trouble(load, replies) is None
                    &&& forall|i: int| 0 <= i < bytes.len() ==> bytes[i] != 0
                },
                LoadStep::Discard(result) | LoadStep::Finished(result) => match result {
                    Ok(_) => load_trouble(load, replies) is None,
                    Err(error) => match load_trouble(load, replies) {
                        Some(known) => error == known,
                        None => {
                            &&& exists|i: int| 0 <= i < bytes.len() && bytes[i] == 0
                            &&& error matches LoadError::Refused(
                                ConnectionError::NulInExtension { position },
                            )
                            &&& bytes.len() <= usize::MAX ==> {
                                &&& position < bytes.len()
                                &&& bytes[position as int] == 0
                                &&& forall|i: int| 0 <= i < position ==> bytes[i] != 0
                            }
                        },
                    },
                },
            }
        },
    decreases replies.len(),
{
    text::law_first_nul_is_the_first(vstd::utf8::encode_utf8(load.name@));
    if replies.len() > 0 {
        law_load_reports_what_failed(load, replies.drop_last());
        lemma_load_course(load, replies.drop_last());
    }
}

/// Whether the callbacks were bound to a connection.
pub open spec fn load_bound<E>(load: Load<E>, replies: Seq<LoadReply<E>>) -> bool {
    &&& !load.closed
    &&& load.allowed
    &&& replies.len() > 0
    &&& replies[0] matches LoadReply::Ran(Ok(_))
}

/// A connection is given up exactly where the callbacks were bound to one:
/// where binding fails loading is at its end, and no other call is made.
pub proof fn law_load_gives_up_only_what_it_bound<E>(load: Load<E>, replies: Seq<LoadReply<E>>)
    requires
        process::possible(load, replies),
    ensures
        process::reached(load, replies) is Discard ==> load_bound(load, replies),
        load.ended(process::reached(load, replies)) ==> {
            if load_bound(load, replies) {
                process::reached(load, replies.drop_last()) is Discard
            } else {
                replies.len() <= 1
            }
        },
        replies.len() > 0 && !load_bound(load, replies) ==> load.ended(
            process::reached(load, replies),
        ),
    decreases replies.len(),
{
    lemma_load_course(load, replies);
    if replies.len() > 0 {
        law_load_gives_up_only_what_it_bound(load, replies.drop_last());
        lemma_load_course(load, replies.drop_last());
    }
}

} // verus!
