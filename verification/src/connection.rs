//! A connection object: what it is when it is made, what it counts, and what
//! becomes of it when it is closed.

use crate::backup::Backup;
use crate::backup::BackupError;
use crate::backup::BackupStep;
use crate::callbacks::Callbacks;
use crate::callbacks::Registration;
use crate::callbacks::RegistrationError;
use crate::callbacks::RegistrationStep;
use crate::error::ConnectionError;
use crate::extensions::Extensions;
use crate::extensions::Load;
use crate::extensions::LoadError;
use crate::extensions::LoadStep;
use crate::floats;
use crate::handlers::Install;
use crate::handlers::InstallStep;
use crate::interrupt::Interrupt;
use crate::interrupt::InterruptStep;
use crate::many::Tally;
use crate::operation::Approach;
use crate::operation::ApproachStep;
use crate::operation::OperationError;
use crate::pragmas;
use crate::pragmas::Pragmas;
use crate::pragmas::SetPragma;
use crate::pragmas::SetPragmaError;
use crate::pragmas::SetPragmaStep;
use crate::process;
use crate::process::Process;
use crate::registry::Registry;
use crate::settings;
use crate::settings::Adapters;
use crate::text;
use crate::transaction;
use crate::transaction::Begin;
use crate::transaction::BeginError;
use crate::transaction::BeginStep;
use crate::transaction::Books;
use crate::transaction::Ending;
use crate::transaction::IsolationLevel;
use crate::transaction::Leave;
use crate::transaction::LeaveReply;
use crate::transaction::LeaveStep;
use crate::transaction::Leaving;
use crate::transaction::Phase;
use vstd::prelude::*;
use vstd::string::*;

verus! {

// ---------------------------------------------------------------- counters

/// What the last statement that changed something has left behind.
#[derive(Clone, Copy, Debug, PartialEq, Eq, Structural)]
pub struct Counters {
    pub last_rowid: i64,
    /// How many rows it changed.
    pub last_changes: u64,
}

impl Counters {
    /// Notes how a statement went that gives its rowid. Only a statement that
    /// succeeds is noted.
    pub fn note_insert<E>(&mut self, outcome: Result<Tally, E>) -> (out: Result<i64, E>)
        ensures
            match outcome {
                Ok(tally) => {
                    &&& out == Ok::<i64, E>(tally.rowid)
                    &&& *final(self) == (Counters {
                        last_rowid: tally.rowid,
                        last_changes: tally.changes,
                    })
                },
                Err(error) => out == Err::<i64, E>(error) && *final(self) == *old(self),
            },
    {
        match outcome {
            Ok(tally) => {
                self.last_rowid = tally.rowid;
                self.last_changes = tally.changes;
                Ok(tally.rowid)
            },
            Err(error) => Err(error),
        }
    }

    /// Notes how a batch went. Only a batch that succeeds is noted.
    pub fn note_many<E>(&mut self, outcome: Result<Tally, E>) -> (out: Result<(), E>)
        ensures
            match outcome {
                Ok(tally) => {
                    &&& out == Ok::<(), E>(())
                    &&& *final(self) == (Counters {
                        last_rowid: tally.rowid,
                        last_changes: tally.changes,
                    })
                },
                Err(error) => out == Err::<(), E>(error) && *final(self) == *old(self),
            },
    {
        match self.note_insert(outcome) {
            Ok(_) => Ok(()),
            Err(error) => Err(error),
        }
    }
}

// ---------------------------------------------------------------- a new connection

/// A connection object. Objects of the user are known by numbers.
pub struct Connection {
    /// The name under which the database is opened.
    pub path: String,
    pub pragmas: Pragmas,
    /// The hook that prepares a new database.
    pub init_hook: Option<u64>,
    /// Whether there is a pool.
    pub pool: bool,
    pub closed: bool,
    pub books: Books,
    pub counters: Counters,
    pub callbacks: Callbacks,
    pub extensions: Extensions,
    pub adapters: Adapters<u64>,
    pub converters: Registry<u64>,
    pub row_factory: Option<u64>,
    pub text_factory: Option<u64>,
    pub pool_size: Option<usize>,
    pub connection_timeout: Option<u64>,
    pub idle_timeout: Option<u64>,
    pub isolation_level: Option<IsolationLevel>,
    /// The time to wait for a lock in seconds, by the bits of its IEEE form.
    pub timeout: u64,
    /// How many rows an iteration fetches at a time, at least one.
    pub iter_chunk_size: i64,
    pub include_query_in_errors: bool,
    pub session_affinity: bool,
}

/// Why a connection cannot be made, where it cannot.
pub open spec fn refusal(path: Seq<char>, timeout: u64, iter_chunk_size: i64) -> Option<
    ConnectionError,
> {
    let name = settings::connection_parts(path).0;
    if floats::below_zero(timeout) {
        Some(ConnectionError::NegativeTimeout)
    } else if iter_chunk_size < 1 {
        Some(ConnectionError::InvalidChunkSize)
    } else if name.len() == 0 {
        Some(ConnectionError::EmptyPath)
    } else {
        match text::nul_in(name) {
            Some(position) => Some(ConnectionError::NulInPath { position: position as usize }),
            None => None,
        }
    }
}

impl Connection {
    /// Whether a connection has done nothing yet: it is open and has no pool
    /// and no transaction, has counted nothing, and has nothing registered.
    pub open spec fn untouched(self) -> bool {
        &&& !self.closed
        &&& !self.pool
        &&& self.books == transaction::blank()
        &&& self.counters == (Counters { last_rowid: 0, last_changes: 0 })
        &&& self.callbacks.wf()
        &&& !self.callbacks@.any()
        &&& self.callbacks@.authorizer_context == 0
        &&& self.callbacks@.progress_context == 0
        &&& self.extensions.wf()
        &&& !self.extensions.allowed
        &&& !self.extensions.required
        &&& self.extensions.names() == Seq::<Seq<char>>::empty()
        &&& self.adapters@ == Seq::<(u64, u64)>::empty()
        &&& self.converters.wf()
        &&& self.converters@ == Map::<Seq<char>, u64>::empty()
    }

    /// Whether everything that can be set later is still unset.
    pub open spec fn unset(self) -> bool {
        &&& self.row_factory is None
        &&& self.text_factory is None
        &&& self.pool_size is None
        &&& self.connection_timeout is None
        &&& self.idle_timeout is None
        &&& self.isolation_level is None
        &&& self.include_query_in_errors
        &&& !self.session_affinity
    }

    /// Makes a connection. The path may be a URI with parameters; pragmas are
    /// given as names and values; the time to wait for a lock is given in
    /// seconds, by the bits of its IEEE form, and in milliseconds.
    pub fn new(
        path: &str,
        given: &Vec<(String, String)>,
        init_hook: Option<u64>,
        timeout: u64,
        milliseconds: i64,
        iter_chunk_size: i64,
    ) -> (out: Result<Connection, ConnectionError>)
        ensures
            match out {
                Ok(connection) => {
                    let (name, parameters) = settings::connection_parts(path@);
                    &&& refusal(path@, timeout, iter_chunk_size) is None
                    &&& connection.path@ == settings::database_name(
                        name,
                        settings::parameters_of(parameters, true),
                    )
                    &&& connection.pragmas@ == pragmas::with_wait(
                        settings::parameters_of(parameters, false) + pragmas::pairs(given@),
                        milliseconds as int,
                    )
                    &&& pragmas::waits_in_ascii(
                        connection.pragmas@,
                        settings::parameters_of(parameters, false) + pragmas::pairs(given@),
                        milliseconds as int,
                    )
                    &&& connection.init_hook == init_hook
                    &&& connection.timeout == timeout
                    &&& connection.iter_chunk_size == iter_chunk_size
                    &&& connection.untouched()
                    &&& connection.unset()
                },
                Err(error) => refusal(path@, timeout, iter_chunk_size) == Some(error),
            },
    {
        match settings::check_new(timeout, iter_chunk_size) {
            Ok(_) => {},
            Err(error) => {
                return Err(error);
            },
        }
        let (name, parameters) = settings::parse_connection_string(path);
        match settings::validate_path(name.as_str()) {
            Ok(_) => {},
            Err(error) => {
                return Err(error);
            },
        }
        let configuration = settings::configure(name.as_str(), &parameters, given, milliseconds);
        Ok(
            Connection {
                path: configuration.path,
                pragmas: configuration.pragmas,
                init_hook,
                pool: false,
                closed: false,
                books: Books { phase: Phase::Idle, explicit: false, held: false },
                counters: Counters { last_rowid: 0, last_changes: 0 },
                callbacks: Callbacks::new(),
                extensions: Extensions::new(),
                adapters: Adapters::new(),
                converters: Registry::new(),
                row_factory: None,
                text_factory: None,
                pool_size: None,
                connection_timeout: None,
                idle_timeout: None,
                isolation_level: None,
                timeout,
                iter_chunk_size,
                include_query_in_errors: true,
                session_affinity: false,
            },
        )
    }

    /// Sets the time to wait for a lock, given in seconds by the bits of its
    /// IEEE form and in milliseconds: it is stored, and its milliseconds take
    /// the place of earlier ones among the pragmas. One below zero changes
    /// nothing.
    pub fn set_timeout(&mut self, seconds: u64, milliseconds: i64) -> (out: Result<
        (),
        ConnectionError,
    >)
        ensures
            if floats::below_zero(seconds) {
                &&& out == Err::<(), ConnectionError>(ConnectionError::NegativeTimeout)
                &&& *final(self) == *old(self)
            } else {
                &&& out == Ok::<(), ConnectionError>(())
                &&& *final(self) == (Connection {
                    timeout: seconds,
                    pragmas: final(self).pragmas,
                    ..*old(self)
                })
                &&& final(self).pragmas@ == pragmas::with_wait(
                    old(self).pragmas@,
                    milliseconds as int,
                )
                &&& pragmas::waits_in_ascii(
                    final(self).pragmas@,
                    old(self).pragmas@,
                    milliseconds as int,
                )
            },
    {
        match settings::set_timeout(&mut self.pragmas, seconds, milliseconds) {
            Ok(_) => {
                self.timeout = seconds;
                Ok(())
            },
            Err(error) => Err(error),
        }
    }
}

// ---------------------------------------------------------------- closing

/// Once a connection was closed it answers nothing any more: every request, and
/// beginning a transaction, setting a pragma, interrupting, backing up and
/// registering a callback, a handler or an extension, is refused at once, without a call.
pub proof fn law_closed_connection_refuses<E>(
    leave: Leave<E>,
    before: bool,
    approach: Approach<E>,
    begin: Begin<E>,
    setting: SetPragma<E>,
    interrupt: Interrupt<E>,
    backup: Backup<E>,
    registration: Registration<E>,
    install: Install<E>,
    load: Load<E>,
)
    requires
        leave.leaving == Leaving::Close,
        approach.closed == leave.spec_closed_after(before),
        begin.closed == leave.spec_closed_after(before),
        setting.closed == leave.spec_closed_after(before),
        interrupt.closed == leave.spec_closed_after(before),
        backup.closed == leave.spec_closed_after(before),
        registration.closed == leave.spec_closed_after(before),
        install.closed == leave.spec_closed_after(before),
        load.closed == leave.spec_closed_after(before),
    ensures
        approach.outset() == ApproachStep::<E>::Finished(
            Err(OperationError::Refused(ConnectionError::Closed)),
        ),
        begin.outset() == BeginStep::<E>::Finished(
            None,
            Err(BeginError::Refused(ConnectionError::Closed)),
        ),
        setting.outset() == SetPragmaStep::<E>::Finished(
            Err(SetPragmaError::Refused(ConnectionError::Closed)),
        ),
        interrupt.outset() == InterruptStep::<E>::Finished(
            Err(OperationError::Refused(ConnectionError::Closed)),
        ),
        backup.outset() == BackupStep::<E>::Finished(
            Err(BackupError::Refused(ConnectionError::Closed)),
        ),
        registration.outset().1 == RegistrationStep::<E>::Finished(
            Err(RegistrationError::Refused(ConnectionError::Closed)),
        ),
        install.outset().1 == InstallStep::<E>::Finished(
            Err(RegistrationError::Refused(ConnectionError::Closed)),
        ),
        load.outset() == LoadStep::<E>::Finished(
            Err(LoadError::Refused(ConnectionError::Closed)),
        ),
{
}

/// Closing marks a connection closed, and nothing else does; it rolls an open
/// transaction back, whoever began it; and it leaves none open in the books.
pub proof fn law_close_closes<E>(leave: Leave<E>, before: bool)
    ensures
        leave.spec_closed_after(before) == (before || leave.leaving == Leaving::Close),
        leave.leaving == Leaving::Close ==> leave.spec_ending() == Ending::Rollback,
        leave.spec_books_after().phase != Phase::Active,
{
}

/// A connection can be closed again: on the books that the first closing left,
/// and with the slot for callbacks that it emptied, the second one runs no
/// statement and succeeds.
pub proof fn law_second_close_succeeds<E>(
    first: Leave<E>,
    second: Leave<E>,
    replies: Seq<LeaveReply<E>>,
)
    requires
        first.leaving == Leaving::Close,
        second.leaving == Leaving::Close,
        second.books == first.spec_books_after(),
        process::possible(second, replies),
        forall|i: int| 0 <= i < replies.len() ==> #[trigger] replies[i] != LeaveReply::<E>::Taken(
            true,
        ),
    ensures
        match process::reached(second, replies) {
            LeaveStep::ReleaseSession => true,
            LeaveStep::TakeCallbacks(error) => error is None,
            LeaveStep::Forget(error) => error is None,
            LeaveStep::LeavePool(error) => error is None,
            LeaveStep::Finished(result) => result is Ok,
            _ => false,
        },
    decreases replies.len(),
{
    if replies.len() > 0 {
        let before = replies.drop_last();
        assert forall|i: int| 0 <= i < before.len() implies #[trigger] before[i] != LeaveReply::<
            E,
        >::Taken(true) by {
            assert(replies[i] == before[i]);
        }
        law_second_close_succeeds(first, second, before);
        assert(replies[replies.len() - 1] == replies.last());
    }
}

/// A connection is refused for a time below zero, for fewer than one row at a
/// time, and for a path that is empty or holds a NUL byte, in this order, and
/// for nothing else.
pub proof fn law_connection_is_refused_for(path: Seq<char>, timeout: u64, iter_chunk_size: i64)
    ensures
        ({
            let bytes = vstd::utf8::encode_utf8(settings::connection_parts(path).0);
            let late = floats::below_zero(timeout);
            let few = iter_chunk_size < 1;
            let empty = settings::connection_parts(path).0.len() == 0;
            let clear = forall|i: int| 0 <= i < bytes.len() ==> bytes[i] != 0;
            match refusal(path, timeout, iter_chunk_size) {
                Some(ConnectionError::NegativeTimeout) => late,
                Some(ConnectionError::InvalidChunkSize) => !late && few,
                Some(ConnectionError::EmptyPath) => !late && !few && empty,
                Some(ConnectionError::NulInPath { position }) => {
                    &&& !late && !few && !empty && !clear
                    &&& bytes.len() <= usize::MAX ==> {
                        &&& position < bytes.len()
                        &&& bytes[position as int] == 0
                        &&& forall|i: int| 0 <= i < position ==> bytes[i] != 0
                    }
                },
                Some(_) => false,
                None => !late && !few && !empty && clear,
            }
        }),
{
    text::law_first_nul_is_the_first(
        vstd::utf8::encode_utf8(settings::connection_parts(path).0),
    );
}

/// A connection that has just been made is open, has nothing but what it was
/// made with, and shows its queries in errors.
pub proof fn law_new_connection_has_nothing(connection: Connection)
    requires
        connection.untouched(),
        connection.unset(),
    ensures
        !connection.closed,
        !connection.pool,
        connection.books.phase == Phase::Idle,
        !connection.books.explicit,
        !connection.books.held,
        connection.counters.last_rowid == 0,
        connection.counters.last_changes == 0,
        !connection.callbacks@.any(),
        !connection.extensions.allowed,
        !connection.extensions.required,
        connection.extensions.names().len() == 0,
        connection.adapters@.len() == 0,
        connection.converters@.dom() == Set::<Seq<char>>::empty(),
        connection.row_factory is None,
        connection.text_factory is None,
        connection.pool_size is None,
        connection.connection_timeout is None,
        connection.idle_timeout is None,
        connection.isolation_level is None,
        connection.include_query_in_errors,
        !connection.session_affinity,
{
}

} // verus!
