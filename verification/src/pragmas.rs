//! The settings that every database connection gets, and setting one.

use crate::error::ConnectionError;
use crate::process;
use crate::process::Process;
use crate::text;
use std::marker::PhantomData;
use vstd::prelude::*;
use vstd::string::*;

verus! {

// ---------------------------------------------------------------- the list

/// Settings, in the order in which they are applied.
pub struct Pragmas {
    pub entries: Vec<(String, String)>,
}

/// Settings as names and values.
pub open spec fn pairs(entries: Seq<(String, String)>) -> Seq<(Seq<char>, Seq<char>)> {
    entries.map_values(|e: (String, String)| (e.0@, e.1@))
}

impl View for Pragmas {
    type V = Seq<(Seq<char>, Seq<char>)>;

    open spec fn view(&self) -> Seq<(Seq<char>, Seq<char>)> {
        pairs(self.entries@)
    }
}

/// Whether a name, in lower case, is that of the time to wait for a lock.
pub open spec fn is_wait(lower: Seq<char>) -> bool {
    lower == "busy_timeout"@
}

/// Decides whether a name, in lower case, is that of the time to wait for a
/// lock.
pub fn names_wait(lower: &str) -> (out: bool)
    ensures
        out == is_wait(lower@),
{
    text::equal(lower, "busy_timeout")
}

/// Settings without those of the time to wait for a lock.
pub open spec fn without_wait(settings: Seq<(Seq<char>, Seq<char>)>) -> Seq<
    (Seq<char>, Seq<char>),
>
    decreases settings.len(),
{
    if settings.len() == 0 {
        Seq::empty()
    } else {
        let before = without_wait(settings.drop_last());
        if is_wait(text::lowercase(settings.last().0)) {
            before
        } else {
            before.push(settings.last())
        }
    }
}

/// Settings with this time to wait for a lock, in milliseconds, and no other.
pub open spec fn with_wait(settings: Seq<(Seq<char>, Seq<char>)>, milliseconds: int) -> Seq<
    (Seq<char>, Seq<char>),
> {
    without_wait(settings).push(("busy_timeout"@, text::decimal(milliseconds)))
}

/// Whether every name is written in ASCII.
pub open spec fn ascii_names(settings: Seq<(Seq<char>, Seq<char>)>) -> bool {
    forall|i: int| 0 <= i < settings.len() ==> text::all_ascii((#[trigger] settings[i]).0)
}

/// Settings without those whose name, letter by letter in lower case, is that
/// of the time to wait for a lock.
pub open spec fn without_ascii_wait(settings: Seq<(Seq<char>, Seq<char>)>) -> Seq<
    (Seq<char>, Seq<char>),
>
    decreases settings.len(),
{
    if settings.len() == 0 {
        Seq::empty()
    } else {
        let before = without_ascii_wait(settings.drop_last());
        if is_wait(text::ascii_lowercase(settings.last().0)) {
            before
        } else {
            before.push(settings.last())
        }
    }
}

/// Where every name is written in ASCII, these are the settings with this time
/// to wait for a lock, in milliseconds, and no other.
pub open spec fn waits_in_ascii(
    after: Seq<(Seq<char>, Seq<char>)>,
    settings: Seq<(Seq<char>, Seq<char>)>,
    milliseconds: int,
) -> bool {
    ascii_names(settings) ==> after == without_ascii_wait(settings).push(
        ("busy_timeout"@, text::decimal(milliseconds)),
    )
}

/// Settings in which the first of this name has this value; without one it
/// comes last.
pub open spec fn assigned(
    settings: Seq<(Seq<char>, Seq<char>)>,
    name: Seq<char>,
    value: Seq<char>,
) -> Seq<(Seq<char>, Seq<char>)>
    decreases settings.len(),
{
    if settings.len() == 0 {
        seq![(name, value)]
    } else if settings[0].0 == name {
        settings.update(0, (name, value))
    } else {
        seq![settings[0]] + assigned(settings.skip(1), name, value)
    }
}

/// The value of a setting: that of the first of its name.
pub open spec fn value_of(settings: Seq<(Seq<char>, Seq<char>)>, name: Seq<char>) -> Option<
    Seq<char>,
>
    decreases settings.len(),
{
    if settings.len() == 0 {
        None
    } else if settings[0].0 == name {
        Some(settings[0].1)
    } else {
        value_of(settings.skip(1), name)
    }
}

impl Pragmas {
    /// Sets the time to wait for a lock, in milliseconds: whatever was set
    /// for it before, under whatever case of its name, is gone.
    pub fn set_busy_timeout(&mut self, milliseconds: i64)
        ensures
            final(self)@ == with_wait(old(self)@, milliseconds as int),
            waits_in_ascii(final(self)@, old(self)@, milliseconds as int),
    {
        let ghost before = self@;
        let mut kept: Vec<(String, String)> = Vec::new();
        let mut i: usize = 0;
        proof {
            assert(pairs(kept@) =~= without_wait(before.take(0)));
            assert(pairs(kept@) =~= without_ascii_wait(before.take(0)));
        }
        while i < self.entries.len()
            invariant
                i <= self.entries@.len(),
                before == self@,
                pairs(kept@) == without_wait(before.take(i as int)),
                ascii_names(before) ==> pairs(kept@) == without_ascii_wait(before.take(i as int)),
            decreases self.entries@.len() - i,
        {
            proof {
                assert(before.take(i + 1).drop_last() == before.take(i as int));
                assert(before.take(i + 1).last() == (
                    self.entries@[i as int].0@,
                    self.entries@[i as int].1@,
                ));
                assert(before[i as int] == before.take(i + 1).last());
            }
            let lower = text::to_lowercase(self.entries[i].0.as_str());
            if !names_wait(lower.as_str()) {
                let ghost so_far = kept@;
                kept.push((self.entries[i].0.clone(), self.entries[i].1.clone()));
                proof {
                    assert(pairs(kept@) =~= pairs(so_far).push(before[i as int]));
                }
            }
            i += 1;
        }
        proof {
            assert(before.take(before.len() as int) == before);
        }
        let ghost so_far = kept@;
        kept.push((String::from_str("busy_timeout"), text::format_signed(milliseconds)));
        proof {
            assert(pairs(kept@) =~= pairs(so_far).push(
                ("busy_timeout"@, text::decimal(milliseconds as int)),
            ));
        }
        self.entries = kept;
    }

    /// Sets a value: that of the first setting of this name, or a new one
    /// behind the others.
    pub fn assign(&mut self, name: &String, value: &String)
        ensures
            final(self)@ == assigned(old(self)@, name@, value@),
    {
        let ghost before = self@;
        let mut i: usize = 0;
        proof {
            assert(before.skip(0) == before);
            assert(before.take(0) + assigned(before, name@, value@) =~= assigned(
                before,
                name@,
                value@,
            ));
        }
        while i < self.entries.len()
            invariant
                i <= self.entries@.len(),
                before == self@,
                before == old(self)@,
                assigned(before, name@, value@) == before.take(i as int) + assigned(
                    before.skip(i as int),
                    name@,
                    value@,
                ),
            decreases self.entries@.len() - i,
        {
            if text::equal(self.entries[i].0.as_str(), name.as_str()) {
                self.entries.set(i, (name.clone(), value.clone()));
                proof {
                    assert(self@ =~= before.take(i as int) + before.skip(i as int).update(
                        0,
                        (name@, value@),
                    ));
                }
                return ;
            }
            proof {
                assert(before.skip(i as int).skip(1) == before.skip(i + 1));
                assert(before.take(i + 1) =~= before.take(i as int) + seq![
                    before.skip(i as int)[0],
                ]);
                assert(before.take(i as int) + (seq![before.skip(i as int)[0]] + assigned(
                    before.skip(i + 1),
                    name@,
                    value@,
                )) =~= before.take(i + 1) + assigned(before.skip(i + 1), name@, value@));
            }
            i += 1;
        }
        self.entries.push((name.clone(), value.clone()));
        proof {
            assert(self@ =~= before + seq![(name@, value@)]);
            assert(before.take(i as int) == before);
        }
    }
}

/// Behind all other settings stands exactly one time to wait for a lock.
pub proof fn law_one_time_to_wait(settings: Seq<(Seq<char>, Seq<char>)>, milliseconds: int)
    ensures
        with_wait(settings, milliseconds).len() > 0,
        with_wait(settings, milliseconds).last() == ("busy_timeout"@, text::decimal(milliseconds)),
        forall|i: int|
            0 <= i < with_wait(settings, milliseconds).len() - 1 ==> !is_wait(
                text::lowercase((#[trigger] with_wait(settings, milliseconds)[i]).0),
            ),
{
    lemma_no_wait_left(settings);
    assert forall|i: int| 0 <= i < with_wait(settings, milliseconds).len() - 1 implies !is_wait(
        text::lowercase((#[trigger] with_wait(settings, milliseconds)[i]).0),
    ) by {
        assert(with_wait(settings, milliseconds)[i] == without_wait(settings)[i]);
    }
}

proof fn lemma_no_wait_left(settings: Seq<(Seq<char>, Seq<char>)>)
    ensures
        forall|i: int|
            0 <= i < without_wait(settings).len() ==> !is_wait(
                text::lowercase((#[trigger] without_wait(settings)[i]).0),
            ),
    decreases settings.len(),
{
    if settings.len() > 0 {
        lemma_no_wait_left(settings.drop_last());
        let before = without_wait(settings.drop_last());
        assert forall|i: int| 0 <= i < without_wait(settings).len() implies !is_wait(
            text::lowercase((#[trigger] without_wait(settings)[i]).0),
        ) by {
            if i < before.len() {
                assert(without_wait(settings)[i] == before[i]);
            }
        }
    }
}

/// Every other setting is kept when a time to wait for a lock is set.
pub proof fn law_other_settings_are_kept(
    settings: Seq<(Seq<char>, Seq<char>)>,
    milliseconds: int,
    setting: (Seq<char>, Seq<char>),
)
    requires
        settings.contains(setting),
        !is_wait(text::lowercase(setting.0)),
    ensures
        with_wait(settings, milliseconds).contains(setting),
{
    lemma_kept(settings, setting);
    let i = choose|i: int|
        0 <= i < without_wait(settings).len() && without_wait(settings)[i] == setting;
    assert(with_wait(settings, milliseconds)[i] == setting);
}

proof fn lemma_kept(settings: Seq<(Seq<char>, Seq<char>)>, setting: (Seq<char>, Seq<char>))
    requires
        settings.contains(setting),
        !is_wait(text::lowercase(setting.0)),
    ensures
        without_wait(settings).contains(setting),
    decreases settings.len(),
{
    let at = choose|i: int| 0 <= i < settings.len() && settings[i] == setting;
    let before = without_wait(settings.drop_last());
    if at == settings.len() - 1 {
        assert(without_wait(settings)[before.len() as int] == setting);
    } else {
        assert(settings.drop_last()[at] == setting);
        lemma_kept(settings.drop_last(), setting);
        let i = choose|i: int| 0 <= i < before.len() && before[i] == setting;
        assert(without_wait(settings)[i] == setting);
    }
}

/// A setting has the value that was set last, and no other setting changes.
pub proof fn law_assigned_value_holds(
    settings: Seq<(Seq<char>, Seq<char>)>,
    name: Seq<char>,
    value: Seq<char>,
    other: Seq<char>,
)
    ensures
        value_of(assigned(settings, name, value), name) == Some(value),
        other != name ==> value_of(assigned(settings, name, value), other) == value_of(
            settings,
            other,
        ),
    decreases settings.len(),
{
    let after = assigned(settings, name, value);
    if settings.len() == 0 {
        assert(after.skip(1) =~= settings);
        reveal_with_fuel(value_of, 2);
    } else if settings[0].0 == name {
        assert(after.skip(1) =~= settings.skip(1));
    } else {
        law_assigned_value_holds(settings.skip(1), name, value, other);
        assert(after.skip(1) =~= assigned(settings.skip(1), name, value));
    }
}

// ---------------------------------------------------------------- statements

/// A value that a setting gets.
pub enum PragmaValue {
    Nothing,
    Int(i64),
    Text(String),
}

/// A value as SQL.
pub open spec fn value_text(value: PragmaValue) -> Seq<char> {
    match value {
        PragmaValue::Nothing => "NULL"@,
        PragmaValue::Int(n) => text::decimal(n as int),
        PragmaValue::Text(s) => text::literal(s@),
    }
}

/// Writes a value as SQL.
pub fn pragma_value(value: &PragmaValue) -> (out: String)
    ensures
        out@ == value_text(*value),
{
    match value {
        PragmaValue::Nothing => String::from_str("NULL"),
        PragmaValue::Int(n) => text::format_signed(*n),
        PragmaValue::Text(s) => text::quote_literal(s.as_str()),
    }
}

/// The statement that sets a value.
pub open spec fn pragma_statement(name: Seq<char>, value: Seq<char>) -> Seq<char> {
    "PRAGMA "@ + name + " = "@ + value
}

/// Writes the statement that sets a value.
pub fn pragma_query(name: &str, value: &str) -> (out: String)
    ensures
        out@ == pragma_statement(name@, value@),
{
    let mut out = String::from_str("PRAGMA ");
    out.append(name);
    out.append(" = ");
    out.append(value);
    out
}

// ---------------------------------------------------------------- setting one

/// Setting a value on the connection that is in use, or else on one from the
/// pool.
pub struct SetPragma<E> {
    pub closed: bool,
    pub errors: PhantomData<E>,
}

/// A place where a connection may be in use.
#[derive(Clone, Copy, Debug, PartialEq, Eq, Structural)]
pub enum Place {
    Transaction,
    Callbacks,
    Session,
    Pool,
}

/// Why a value was not set.
pub enum SetPragmaError<E> {
    Refused(ConnectionError),
    Call(E),
}

/// The call that setting a value waits for.
pub enum SetPragmaStep<E> {
    /// Look for a connection in this place.
    Look(Place),
    /// Bring the settings of the connection up to date.
    ApplyAll(Place),
    /// Make sure that there is a pool.
    OpenPool,
    /// Run the hook that prepares a new database.
    RunHook,
    /// Get a connection from the pool.
    Acquire,
    /// Run the statement on the connection of this place.
    Execute(Place),
    /// No call is left.
    Finished(Result<(), SetPragmaError<E>>),
}

/// What a call of setting a value brings back.
pub enum SetPragmaReply<E> {
    /// Whether there is a connection.
    Found(bool),
    /// How the call went.
    Ran(Result<(), E>),
}

impl<E> Process for SetPragma<E> {
    type State = SetPragmaStep<E>;

    type Reply = SetPragmaReply<E>;

    open spec fn outset(self) -> SetPragmaStep<E> {
        if self.closed {
            SetPragmaStep::Finished(Err(SetPragmaError::Refused(ConnectionError::Closed)))
        } else {
            SetPragmaStep::Look(Place::Transaction)
        }
    }

    open spec fn ended(self, state: SetPragmaStep<E>) -> bool {
        state is Finished
    }

    open spec fn answers(self, state: SetPragmaStep<E>, reply: SetPragmaReply<E>) -> bool {
        match state {
            SetPragmaStep::Look(_) => reply is Found,
            SetPragmaStep::Finished(_) => false,
            _ => reply is Ran,
        }
    }

    open spec fn next(self, state: SetPragmaStep<E>, reply: SetPragmaReply<E>) -> SetPragmaStep<
        E,
    > {
        match (state, reply) {
            (SetPragmaStep::Look(place), SetPragmaReply::Found(found)) => match place {
                Place::Transaction => if found {
                    SetPragmaStep::Execute(Place::Transaction)
                } else {
                    SetPragmaStep::Look(Place::Callbacks)
                },
                Place::Callbacks => if found {
                    SetPragmaStep::ApplyAll(Place::Callbacks)
                } else {
                    SetPragmaStep::Look(Place::Session)
                },
                Place::Session => if found {
                    SetPragmaStep::ApplyAll(Place::Session)
                } else {
                    SetPragmaStep::OpenPool
                },
                Place::Pool => SetPragmaStep::OpenPool,
            },
            (SetPragmaStep::Finished(outcome), _) => SetPragmaStep::Finished(outcome),
            (state, SetPragmaReply::Ran(Err(error))) => if state is Look {
                state
            } else {
                SetPragmaStep::Finished(Err(SetPragmaError::Call(error)))
            },
            (SetPragmaStep::ApplyAll(place), SetPragmaReply::Ran(Ok(_))) =>
                SetPragmaStep::Execute(place),
            (SetPragmaStep::OpenPool, SetPragmaReply::Ran(Ok(_))) => SetPragmaStep::RunHook,
            (SetPragmaStep::RunHook, SetPragmaReply::Ran(Ok(_))) => SetPragmaStep::Acquire,
            (SetPragmaStep::Acquire, SetPragmaReply::Ran(Ok(_))) => SetPragmaStep::Execute(
                Place::Pool,
            ),
            (SetPragmaStep::Execute(_), SetPragmaReply::Ran(Ok(_))) => SetPragmaStep::Finished(
                Ok(()),
            ),
            (state, _) => state,
        }
    }
}

impl<E> SetPragma<E> {
    /// The first call to make.
    pub fn start(&self) -> (out: SetPragmaStep<E>)
        ensures
            out == self.outset(),
    {
        if self.closed {
            SetPragmaStep::Finished(Err(SetPragmaError::Refused(ConnectionError::Closed)))
        } else {
            SetPragmaStep::Look(Place::Transaction)
        }
    }

    /// The call to make behind a reply.
    pub fn resume(&self, state: SetPragmaStep<E>, reply: SetPragmaReply<E>) -> (out: SetPragmaStep<
        E,
    >)
        ensures
            out == self.next(state, reply),
    {
        match (state, reply) {
            (SetPragmaStep::Look(place), SetPragmaReply::Found(found)) => match place {
                Place::Transaction => if found {
                    SetPragmaStep::Execute(Place::Transaction)
                } else {
                    SetPragmaStep::Look(Place::Callbacks)
                },
                Place::Callbacks => if found {
                    SetPragmaStep::ApplyAll(Place::Callbacks)
                } else {
                    SetPragmaStep::Look(Place::Session)
                },
                Place::Session => if found {
                    SetPragmaStep::ApplyAll(Place::Session)
                } else {
                    SetPragmaStep::OpenPool
                },
                Place::Pool => SetPragmaStep::OpenPool,
            },
            (SetPragmaStep::Look(place), SetPragmaReply::Ran(_)) => SetPragmaStep::Look(place),
            (SetPragmaStep::Finished(outcome), _) => SetPragmaStep::Finished(outcome),
            (_, SetPragmaReply::Ran(Err(error))) => SetPragmaStep::Finished(
                Err(SetPragmaError::Call(error)),
            ),
            (SetPragmaStep::ApplyAll(place), SetPragmaReply::Ran(Ok(_))) =>
                SetPragmaStep::Execute(place),
            (SetPragmaStep::OpenPool, SetPragmaReply::Ran(Ok(_))) => SetPragmaStep::RunHook,
            (SetPragmaStep::RunHook, SetPragmaReply::Ran(Ok(_))) => SetPragmaStep::Acquire,
            (SetPragmaStep::Acquire, SetPragmaReply::Ran(Ok(_))) => SetPragmaStep::Execute(
                Place::Pool,
            ),
            (SetPragmaStep::Execute(_), SetPragmaReply::Ran(Ok(_))) => SetPragmaStep::Finished(
                Ok(()),
            ),
            (state, _) => state,
        }
    }
}

/// The places where no connection was found.
pub open spec fn found_none<E>(
    setting: SetPragma<E>,
    replies: Seq<SetPragmaReply<E>>,
    place: Place,
) -> bool
    decreases replies.len(),
{
    replies.len() > 0 && {
        ||| found_none(setting, replies.drop_last(), place)
        ||| process::reached(setting, replies.drop_last()) == SetPragmaStep::<E>::Look(place)
            && replies.last() == SetPragmaReply::<E>::Found(false)
    }
}

/// On how many connections the statement has run.
pub open spec fn statement_runs<E>(
    setting: SetPragma<E>,
    replies: Seq<SetPragmaReply<E>>,
) -> int
    decreases replies.len(),
{
    if replies.len() == 0 {
        0
    } else {
        statement_runs(setting, replies.drop_last()) + (match (
            process::reached(setting, replies.drop_last()),
            replies.last(),
        ) {
            (SetPragmaStep::Execute(_), SetPragmaReply::Ran(Ok(_))) => 1int,
            _ => 0int,
        })
    }
}

proof fn lemma_setting_course<E>(setting: SetPragma<E>, replies: Seq<SetPragmaReply<E>>)
    requires
        process::possible(setting, replies),
    ensures
        replies.len() > 0 ==> !setting.closed,
        match process::reached(setting, replies) {
            SetPragmaStep::Finished(Ok(_)) => !setting.closed && statement_runs(setting, replies)
                == 1,
            SetPragmaStep::Finished(Err(_)) => statement_runs(setting, replies) == 0,
            SetPragmaStep::Look(place) => {
                &&& statement_runs(setting, replies) == 0
                &&& place != Place::Pool
                &&& place != Place::Transaction ==> found_none(
                    setting,
                    replies,
                    Place::Transaction,
                )
                &&& place == Place::Session ==> found_none(setting, replies, Place::Callbacks)
            },
            SetPragmaStep::ApplyAll(place) | SetPragmaStep::Execute(place) => {
                &&& statement_runs(setting, replies) == 0
                &&& place != Place::Transaction ==> found_none(
                    setting,
                    replies,
                    Place::Transaction,
                )
                &&& place == Place::Session || place == Place::Pool ==> found_none(
                    setting,
                    replies,
                    Place::Callbacks,
                )
                &&& place == Place::Pool ==> found_none(setting, replies, Place::Session)
            },
            SetPragmaStep::OpenPool | SetPragmaStep::RunHook | SetPragmaStep::Acquire => {
                &&& statement_runs(setting, replies) == 0
                &&& found_none(setting, replies, Place::Transaction)
                &&& found_none(setting, replies, Place::Callbacks)
                &&& found_none(setting, replies, Place::Session)
            },
        },
    decreases replies.len(),
{
    if replies.len() > 0 {
        lemma_setting_course(setting, replies.drop_last());
    }
}

/// Setting a value succeeds exactly where the statement has run, on one
/// connection of an open connection object.
pub proof fn law_setting_runs_once<E>(setting: SetPragma<E>, replies: Seq<SetPragmaReply<E>>)
    requires
        process::possible(setting, replies),
        setting.ended(process::reached(setting, replies)),
    ensures
        match process::reached(setting, replies)->Finished_0 {
            Ok(_) => !setting.closed && statement_runs(setting, replies) == 1,
            Err(_) => statement_runs(setting, replies) == 0,
        },
{
    lemma_setting_course(setting, replies);
}

/// The statement runs on the connection of the transaction if there is one,
/// else on that of the callbacks, else on that of the session, else on one
/// from the pool.
pub proof fn law_setting_prefers_what_is_in_use<E>(
    setting: SetPragma<E>,
    replies: Seq<SetPragmaReply<E>>,
    place: Place,
)
    requires
        process::possible(setting, replies),
        process::reached(setting, replies) == SetPragmaStep::<E>::Execute(place),
    ensures
        place != Place::Transaction ==> found_none(setting, replies, Place::Transaction),
        place == Place::Session || place == Place::Pool ==> found_none(
            setting,
            replies,
            Place::Callbacks,
        ),
        place == Place::Pool ==> found_none(setting, replies, Place::Session),
{
    lemma_setting_course(setting, replies);
}

/// A bound on the calls that setting a value has left to make.
pub open spec fn calls_left<E>(step: SetPragmaStep<E>) -> int {
    match step {
        SetPragmaStep::Look(Place::Transaction) => 8,
        SetPragmaStep::Look(Place::Callbacks) => 7,
        SetPragmaStep::Look(_) => 6,
        SetPragmaStep::OpenPool => 5,
        SetPragmaStep::RunHook => 4,
        SetPragmaStep::Acquire | SetPragmaStep::ApplyAll(_) => 3,
        SetPragmaStep::Execute(_) => 2,
        SetPragmaStep::Finished(_) => 0,
    }
}

/// With every reply the bound on the calls that are left goes down, so that
/// setting a value comes to its end.
pub proof fn law_setting_ends<E>(
    setting: SetPragma<E>,
    state: SetPragmaStep<E>,
    reply: SetPragmaReply<E>,
)
    requires
        setting.answers(state, reply),
    ensures
        0 <= calls_left(setting.next(state, reply)) < calls_left(state),
{
}

// ---------------------------------------------------------------- order and statements

/// Settings keep their order and their number when a time to wait for a lock is
/// set: leaving out what is set for it goes setting by setting.
pub proof fn law_settings_keep_their_order(
    settings: Seq<(Seq<char>, Seq<char>)>,
    more: Seq<(Seq<char>, Seq<char>)>,
    setting: (Seq<char>, Seq<char>),
)
    ensures
        without_wait(settings + more) == without_wait(settings) + without_wait(more),
        text::lowercase(setting.0) == "busy_timeout"@ ==> without_wait(seq![setting]).len() == 0,
        text::lowercase(setting.0) != "busy_timeout"@ ==> without_wait(seq![setting]) == seq![
            setting,
        ],
    decreases more.len(),
{
    reveal_with_fuel(without_wait, 2);
    assert(seq![setting].drop_last() =~= Seq::<(Seq<char>, Seq<char>)>::empty());
    if more.len() == 0 {
        assert(settings + more =~= settings);
        assert(without_wait(settings) + without_wait(more) =~= without_wait(settings));
    } else {
        law_settings_keep_their_order(settings, more.drop_last(), setting);
        assert((settings + more).drop_last() =~= settings + more.drop_last());
        assert((settings + more).last() == more.last());
        assert(without_wait(settings + more) =~= without_wait(settings) + without_wait(more));
    }
}

/// Setting a value changes the first setting of its name where there is one,
/// in its place, and no other; without one it comes behind all others.
pub proof fn law_assigned_in_place(
    settings: Seq<(Seq<char>, Seq<char>)>,
    name: Seq<char>,
    value: Seq<char>,
)
    ensures
        value_of(settings, name) is None ==> assigned(settings, name, value) == settings.push(
            (name, value),
        ),
        value_of(settings, name) is Some ==> exists|at: int|
            {
                &&& 0 <= at < settings.len()
                &&& settings[at].0 == name
                &&& forall|i: int| 0 <= i < at ==> (#[trigger] settings[i]).0 != name
                &&& assigned(settings, name, value) == #[trigger] settings.update(
                    at,
                    (name, value),
                )
            },
    decreases settings.len(),
{
    if settings.len() == 0 {
        assert(settings.push((name, value)) =~= seq![(name, value)]);
    } else if settings[0].0 == name {
        assert(assigned(settings, name, value) == settings.update(0, (name, value)));
    } else {
        let rest = settings.skip(1);
        law_assigned_in_place(rest, name, value);
        if value_of(settings, name) is Some {
            let at = choose|at: int|
                {
                    &&& 0 <= at < rest.len()
                    &&& rest[at].0 == name
                    &&& forall|i: int| 0 <= i < at ==> (#[trigger] rest[i]).0 != name
                    &&& assigned(rest, name, value) == #[trigger] rest.update(at, (name, value))
                };
            assert(seq![settings[0]] + rest.update(at, (name, value)) =~= settings.update(
                at + 1,
                (name, value),
            ));
            assert forall|i: int| 0 <= i < at + 1 implies (#[trigger] settings[i]).0 != name by {
                if i > 0 {
                    assert(rest[i - 1] == settings[i]);
                }
            }
            assert(settings[at + 1] == rest[at]);
        } else {
            assert(seq![settings[0]] + rest.push((name, value)) =~= settings.push((name, value)));
        }
    }
}

/// A value is written as SQL reads it: nothing as NULL, a number in decimal and
/// a text between single quotation marks.
pub proof fn law_pragma_values(value: PragmaValue)
    ensures
        match value {
            PragmaValue::Nothing => value_text(value) == "NULL"@,
            PragmaValue::Int(n) => value_text(value) == text::decimal(n as int),
            PragmaValue::Text(s) => {
                &&& value_text(value).len() >= 2
                &&& value_text(value)[0] == '\''
                &&& text::read_quoted(value_text(value).skip(1), '\'') == Some(
                    (s@, value_text(value).len() - 1),
                )
            },
        },
{
    match value {
        PragmaValue::Text(s) => text::law_literals_and_identifiers_read_back(s@),
        _ => {},
    }
}

/// The statement that sets a value begins with the word, names the setting and
/// ends with the value, behind the sign.
pub proof fn law_pragma_statement_names_and_sets(name: Seq<char>, value: Seq<char>)
    ensures
        ({
            let statement = pragma_statement(name, value);
            let length = name.len() as int;
            &&& statement.len() == 10 + length + value.len()
            &&& statement.take(7) == "PRAGMA "@
            &&& statement.subrange(7, 7 + length) == name
            &&& statement.subrange(7 + length, 10 + length) == " = "@
            &&& statement.skip(10 + length) == value
        }),
{
    reveal_strlit("PRAGMA ");
    reveal_strlit(" = ");
    let statement = pragma_statement(name, value);
    let length = name.len() as int;
    assert(statement.take(7) =~= "PRAGMA "@);
    assert(statement.subrange(7, 7 + length) =~= name);
    assert(statement.subrange(7 + length, 10 + length) =~= " = "@);
    assert(statement.skip(10 + length) =~= value);
}

/// What setting a value has done so far.
pub ghost struct SettingLedger<E> {
    /// The place where a connection was found.
    pub found: Option<Place>,
    /// The settings of that connection were brought up to date.
    pub applied: bool,
    pub pooled: bool,
    pub hooked: bool,
    pub acquired: bool,
    /// What went wrong.
    pub trouble: Option<E>,
}

/// What setting a value has done once these replies have come back.
pub open spec fn setting_ledger<E>(
    setting: SetPragma<E>,
    replies: Seq<SetPragmaReply<E>>,
) -> SettingLedger<E>
    decreases replies.len(),
{
    if replies.len() == 0 {
        SettingLedger {
            found: None,
            applied: false,
            pooled: false,
            hooked: false,
            acquired: false,
            trouble: None,
        }
    } else {
        let ledger = setting_ledger(setting, replies.drop_last());
        match (process::reached(setting, replies.drop_last()), replies.last()) {
            (SetPragmaStep::Look(place), SetPragmaReply::Found(true)) => SettingLedger {
                found: Some(place),
                ..ledger
            },
            (SetPragmaStep::Look(_), _) => ledger,
            (_, SetPragmaReply::Ran(Err(error))) => SettingLedger {
                trouble: Some(error),
                ..ledger
            },
            (SetPragmaStep::ApplyAll(_), SetPragmaReply::Ran(Ok(_))) => SettingLedger {
                applied: true,
                ..ledger
            },
            (SetPragmaStep::OpenPool, SetPragmaReply::Ran(Ok(_))) => SettingLedger {
                pooled: true,
                ..ledger
            },
            (SetPragmaStep::RunHook, SetPragmaReply::Ran(Ok(_))) => SettingLedger {
                hooked: true,
                ..ledger
            },
            (SetPragmaStep::Acquire, SetPragmaReply::Ran(Ok(_))) => SettingLedger {
                acquired: true,
                ..ledger
            },
            _ => ledger,
        }
    }
}

/// The statement runs on a connection that was found in its place, whose other
/// settings are up to date unless it is in a transaction, or on one from a pool
/// behind the hook. A value that was not set is reported with what went wrong.
pub proof fn law_setting_runs_where_it_was_found<E>(
    setting: SetPragma<E>,
    replies: Seq<SetPragmaReply<E>>,
)
    requires
        process::possible(setting, replies),
    ensures
        setting.closed ==> process::reached(setting, replies) == SetPragmaStep::<E>::Finished(
            Err(SetPragmaError::Refused(ConnectionError::Closed)),
        ),
        !setting.closed ==> {
            let ledger = setting_ledger(setting, replies);
            match process::reached(setting, replies) {
                SetPragmaStep::Look(_) => ledger.found is None && ledger.trouble is None
                    && !ledger.applied && !ledger.acquired,
                SetPragmaStep::ApplyAll(place) => {
                    &&& ledger.found == Some(place)
                    &&& place == Place::Callbacks || place == Place::Session
                    &&& ledger.trouble is None
                },
                SetPragmaStep::OpenPool => ledger.found is None && ledger.trouble is None
                    && !ledger.applied,
                SetPragmaStep::RunHook => ledger.found is None && ledger.trouble is None
                    && ledger.pooled && !ledger.applied,
                SetPragmaStep::Acquire => ledger.found is None && ledger.trouble is None
                    && ledger.pooled && ledger.hooked && !ledger.applied,
                SetPragmaStep::Execute(place) => {
                    &&& ledger.trouble is None
                    &&& place == Place::Pool ==> ledger.pooled && ledger.hooked && ledger.acquired
                        && ledger.found is None
                    &&& place != Place::Pool ==> ledger.found == Some(place)
                    &&& ledger.applied == (place == Place::Callbacks || place == Place::Session)
                },
                SetPragmaStep::Finished(Ok(_)) => ledger.trouble is None,
                SetPragmaStep::Finished(Err(error)) => {
                    &&& ledger.trouble matches Some(cause)
                    &&& error == SetPragmaError::Call(cause)
                },
            }
        },
    decreases replies.len(),
{
    if replies.len() > 0 {
        law_setting_runs_where_it_was_found(setting, replies.drop_last());
        lemma_setting_course(setting, replies.drop_last());
    }
}

/// Settings are read as the names and values of each entry, in order.
pub proof fn law_pairs_are_those_of_the_entries(entries: Seq<(String, String)>, i: int)
    ensures
        pairs(entries).len() == entries.len(),
        0 <= i < entries.len() ==> pairs(entries)[i] == (entries[i].0@, entries[i].1@),
{
}

} // verus!
