//! Settings of a connection object: what it is made with, and what can be set
//! later.

use crate::error::ConnectionError;
use crate::floats;
use crate::pragmas;
use crate::pragmas::Pragmas;
use crate::registry::Registry;
use crate::text;
use crate::transaction::IsolationLevel;
use vstd::prelude::*;
use vstd::string::*;

verus! {

// ---------------------------------------------------------------- a new connection

/// Checks the numbers that a connection is made with: a timeout in seconds,
/// by the bits of its IEEE form, and how many rows an iteration fetches at a
/// time.
pub fn check_new(timeout: u64, iter_chunk_size: i64) -> (out: Result<(), ConnectionError>)
    ensures
        out == (if floats::below_zero(timeout) {
            Err::<(), ConnectionError>(ConnectionError::NegativeTimeout)
        } else if iter_chunk_size < 1 {
            Err::<(), ConnectionError>(ConnectionError::InvalidChunkSize)
        } else {
            Ok::<(), ConnectionError>(())
        }),
{
    if floats::is_below_zero(timeout) {
        return Err(ConnectionError::NegativeTimeout);
    }
    if iter_chunk_size < 1 {
        return Err(ConnectionError::InvalidChunkSize);
    }
    Ok(())
}

/// Checks the path of a database.
pub fn validate_path(path: &str) -> (out: Result<(), ConnectionError>)
    ensures
        match out {
            Ok(_) => path@.len() > 0 && text::nul_in(path@) is None,
            Err(error) => if path@.len() == 0 {
                error == ConnectionError::EmptyPath
            } else {
                &&& error is NulInPath
                &&& text::nul_in(path@) == Some(error->NulInPath_position as int)
            },
        },
{
    if path.is_empty() {
        return Err(ConnectionError::EmptyPath);
    }
    match text::nul_position(path) {
        Some(position) => Err(ConnectionError::NulInPath { position }),
        None => Ok(()),
    }
}

/// The position of the first mark in a text, or its end.
pub open spec fn first_mark(s: Seq<char>, mark: char) -> int
    decreases s.len(),
{
    if s.len() == 0 || s[0] == mark {
        0
    } else {
        1 + first_mark(s.skip(1), mark)
    }
}

/// What stands before the first mark, and what behind it.
pub open spec fn cut_at(s: Seq<char>, mark: char) -> (Seq<char>, Seq<char>) {
    let at = first_mark(s, mark);
    if at < s.len() {
        (s.take(at), s.skip(at + 1))
    } else {
        (s, Seq::empty())
    }
}

/// The parameters that stand behind the question mark of a URI.
pub open spec fn uri_parameters(query: Seq<char>) -> Seq<(Seq<char>, Seq<char>)> {
    if query.len() == 0 {
        Seq::empty()
    } else {
        text::parts(query, '&').map_values(|part: Seq<char>| cut_at(part, '='))
    }
}

/// The path of a database and its parameters: a path that begins with `file:`
/// is a URI, and any other is taken as it is.
pub open spec fn connection_parts(path: Seq<char>) -> (Seq<char>, Seq<(Seq<char>, Seq<char>)>) {
    if "file:"@.is_prefix_of(path) {
        let (name, query) = cut_at(path.skip(5), '?');
        (name, uri_parameters(query))
    } else {
        (path, Seq::empty())
    }
}

fn cut(s: &Vec<char>, from: usize, mark: char) -> (out: (String, String))
    requires
        from <= s@.len(),
    ensures
        (out.0@, out.1@) == cut_at(s@.skip(from as int), mark),
{
    let ghost all = s@.skip(from as int);
    let mut at: usize = from;
    proof {
        assert(all.skip(0) == all);
        lemma_first_mark(all, mark);
    }
    while at < s.len() && s[at] != mark
        invariant
            from <= at <= s@.len(),
            all == s@.skip(from as int),
            first_mark(all, mark) == (at - from) + first_mark(all.skip(at - from), mark),
        decreases s@.len() - at,
    {
        proof {
            assert(all.skip(at - from).skip(1) == all.skip(at + 1 - from));
            assert(all.skip(at - from)[0] == s@[at as int]);
        }
        at += 1;
    }
    let before = text::string_of(s, from, at);
    proof {
        if at < s@.len() {
            assert(all.skip(at - from)[0] == s@[at as int]);
        }
        assert(before@ =~= all.take(at - from));
    }
    if at < s.len() {
        let behind = text::string_of(s, at + 1, s.len());
        proof {
            assert(behind@ =~= all.skip(at - from + 1));
        }
        (before, behind)
    } else {
        proof {
            assert(all.take(all.len() as int) == all);
        }
        (before, String::new())
    }
}

proof fn lemma_first_mark(s: Seq<char>, mark: char)
    ensures
        0 <= first_mark(s, mark) <= s.len(),
    decreases s.len(),
{
    if s.len() > 0 {
        lemma_first_mark(s.skip(1), mark);
    }
}

/// Parts the path of a database from its parameters.
pub fn parse_connection_string(path: &str) -> (out: (String, Vec<(String, String)>))
    ensures
        (out.0@, pragmas::pairs(out.1@)) == connection_parts(path@),
{
    let mut parameters: Vec<(String, String)> = Vec::new();
    if !text::starts_with(path, "file:") {
        proof {
            assert(pragmas::pairs(parameters@) =~= Seq::empty());
        }
        return (String::from_str(path), parameters);
    }
    proof {
        reveal_strlit("file:");
    }
    let (name, query) = cut(&text::characters(path), 5, '?');
    if query.as_str().is_empty() {
        proof {
            assert(pragmas::pairs(parameters@) =~= Seq::empty());
        }
        return (name, parameters);
    }
    let parts = text::split(&text::characters(query.as_str()), '&');
    let mut i: usize = 0;
    while i < parts.len()
        invariant
            i <= parts@.len(),
            parameters@.len() == i,
            parts@.len() == text::parts(query@, '&').len(),
            forall|j: int|
                0 <= j < parts@.len() ==> (#[trigger] parts@[j])@ == text::parts(query@, '&')[j],
            forall|j: int|
                0 <= j < i ==> ((#[trigger] parameters@[j]).0@, parameters@[j].1@) == cut_at(
                    text::parts(query@, '&')[j],
                    '=',
                ),
        decreases parts@.len() - i,
    {
        proof {
            assert(parts@[i as int]@.skip(0) =~= parts@[i as int]@);
        }
        let parameter = cut(&parts[i], 0, '=');
        parameters.push(parameter);
        i += 1;
    }
    proof {
        assert(pragmas::pairs(parameters@) =~= uri_parameters(query@));
    }
    (name, parameters)
}

/// Whether a parameter of a URI, by its name in lower case, is an option of
/// SQLite's own and no pragma.
pub open spec fn is_uri_option(name: Seq<char>) -> bool {
    ||| name == "mode"@
    ||| name == "cache"@
    ||| name == "immutable"@
    ||| name == "vfs"@
    ||| name == "nolock"@
    ||| name == "psow"@
}

/// The parameters that are options, or those that are none, in order.
pub open spec fn parameters_of(
    parameters: Seq<(Seq<char>, Seq<char>)>,
    options: bool,
) -> Seq<(Seq<char>, Seq<char>)>
    decreases parameters.len(),
{
    if parameters.len() == 0 {
        Seq::empty()
    } else {
        let before = parameters_of(parameters.drop_last(), options);
        if is_uri_option(text::ascii_lowercase(parameters.last().0)) == options {
            before.push(parameters.last())
        } else {
            before
        }
    }
}

/// Options as they stand in a URI.
pub open spec fn option_texts(options: Seq<(Seq<char>, Seq<char>)>) -> Seq<Seq<char>> {
    options.map_values(|option: (Seq<char>, Seq<char>)| option.0 + "="@ + option.1)
}

/// The name under which a database is opened: its path, or a URI where options
/// are given.
pub open spec fn database_name(path: Seq<char>, options: Seq<(Seq<char>, Seq<char>)>) -> Seq<
    char,
> {
    if options.len() == 0 {
        path
    } else {
        "file:"@ + path + "?"@ + text::joined(option_texts(options), "&"@)
    }
}

/// What a connection is made with.
pub struct Configuration {
    /// The name under which the database is opened.
    pub path: String,
    pub pragmas: Pragmas,
}

fn names_option(name: &str) -> (out: bool)
    ensures
        out == is_uri_option(name@),
{
    text::equal(name, "mode") || text::equal(name, "cache") || text::equal(name, "immutable")
        || text::equal(name, "vfs") || text::equal(name, "nolock") || text::equal(name, "psow")
}

/// Makes the settings of a connection. The parameters of the path that are
/// options go into the name of the database and the others become pragmas;
/// those that are given come behind them; and the time to wait for a lock, in
/// milliseconds, comes last.
pub fn configure(
    path: &str,
    parameters: &Vec<(String, String)>,
    given: &Vec<(String, String)>,
    milliseconds: i64,
) -> (out: Configuration)
    ensures
        out.path@ == database_name(path@, parameters_of(pragmas::pairs(parameters@), true)),
        out.pragmas@ == pragmas::with_wait(
            parameters_of(pragmas::pairs(parameters@), false) + pragmas::pairs(given@),
            milliseconds as int,
        ),
        pragmas::waits_in_ascii(
            out.pragmas@,
            parameters_of(pragmas::pairs(parameters@), false) + pragmas::pairs(given@),
            milliseconds as int,
        ),
{
    let ghost all = pragmas::pairs(parameters@);
    let mut options: Vec<String> = Vec::new();
    let mut entries: Vec<(String, String)> = Vec::new();
    let mut i: usize = 0;
    proof {
        assert(text::texts(options@) =~= option_texts(parameters_of(all.take(0), true)));
        assert(pragmas::pairs(entries@) =~= parameters_of(all.take(0), false));
    }
    while i < parameters.len()
        invariant
            i <= parameters@.len(),
            all == pragmas::pairs(parameters@),
            text::texts(options@) == option_texts(parameters_of(all.take(i as int), true)),
            pragmas::pairs(entries@) == parameters_of(all.take(i as int), false),
        decreases parameters@.len() - i,
    {
        let key = &parameters[i].0;
        let value = &parameters[i].1;
        proof {
            assert(all.take(i + 1).drop_last() == all.take(i as int));
            assert(all.take(i + 1).last() == (key@, value@));
        }
        let lower = text::to_ascii_lowercase(key.as_str());
        if names_option(lower.as_str()) {
            let mut option = key.clone();
            option.append("=");
            option.append(value.as_str());
            let ghost before = options@;
            options.push(option);
            proof {
                let so_far = parameters_of(all.take(i as int), true);
                assert(option_texts(so_far.push((key@, value@))) =~= option_texts(so_far).push(
                    key@ + "="@ + value@,
                ));
                assert(text::texts(options@) =~= text::texts(before).push(
                    key@ + "="@ + value@,
                ));
            }
        } else {
            let ghost before = entries@;
            entries.push((key.clone(), value.clone()));
            proof {
                assert(pragmas::pairs(entries@) =~= pragmas::pairs(before).push((key@, value@)));
            }
        }
        i += 1;
    }
    proof {
        assert(all.take(all.len() as int) == all);
    }
    let ghost chosen = parameters_of(all, true);
    proof {
        assert(options@.len() == text::texts(options@).len());
        assert(chosen.len() == option_texts(chosen).len());
    }
    let name = if options.len() == 0 {
        String::from_str(path)
    } else {
        let list = text::join(&options, "&");
        let mut name = String::from_str("file:");
        name.append(path);
        name.append("?");
        name.append(list.as_str());
        name
    };
    let mut j: usize = 0;
    proof {
        assert(pragmas::pairs(given@).take(0) =~= Seq::<(Seq<char>, Seq<char>)>::empty());
        assert(pragmas::pairs(entries@) =~= parameters_of(all, false) + pragmas::pairs(
            given@,
        ).take(0));
    }
    while j < given.len()
        invariant
            j <= given@.len(),
            pragmas::pairs(entries@) == parameters_of(all, false) + pragmas::pairs(given@).take(
                j as int,
            ),
        decreases given@.len() - j,
    {
        let ghost before = entries@;
        entries.push((given[j].0.clone(), given[j].1.clone()));
        proof {
            assert(pragmas::pairs(entries@) =~= pragmas::pairs(before).push(
                pragmas::pairs(given@)[j as int],
            ));
            assert(pragmas::pairs(given@).take(j + 1) =~= pragmas::pairs(given@).take(
                j as int,
            ).push(pragmas::pairs(given@)[j as int]));
        }
        j += 1;
    }
    proof {
        assert(pragmas::pairs(given@).take(given@.len() as int) =~= pragmas::pairs(given@));
    }
    let mut settings = Pragmas { entries };
    settings.set_busy_timeout(milliseconds);
    Configuration { path: name, pragmas: settings }
}

/// Each parameter of a path is either an option of the database or a pragma.
pub proof fn law_parameters_are_parted(parameters: Seq<(Seq<char>, Seq<char>)>)
    ensures
        parameters_of(parameters, true).len() + parameters_of(parameters, false).len()
            == parameters.len(),
        parameters_of(parameters, true).to_multiset().add(
            parameters_of(parameters, false).to_multiset(),
        ) =~= parameters.to_multiset(),
    decreases parameters.len(),
{
    broadcast use vstd::seq_lib::group_to_multiset_ensures;

    if parameters.len() > 0 {
        law_parameters_are_parted(parameters.drop_last());
        assert(parameters.drop_last().push(parameters.last()) =~= parameters);
    }
}

// ---------------------------------------------------------------- setters

/// Checks the number of connections that a pool may hold.
pub fn check_pool_size(given: Option<i64>) -> (out: Result<Option<usize>, ConnectionError>)
    ensures
        out == (match given {
            None => Ok::<Option<usize>, ConnectionError>(None),
            Some(n) => if n < 0 {
                Err::<Option<usize>, ConnectionError>(ConnectionError::NegativePoolSize)
            } else {
                Ok::<Option<usize>, ConnectionError>(Some(n as usize))
            },
        }),
{
    match given {
        None => Ok(None),
        Some(n) => {
            if n < 0 {
                return Err(ConnectionError::NegativePoolSize);
            }
            let size: usize = #[verifier::truncate]
            (n as usize);
            Ok(Some(size))
        },
    }
}

/// A time in seconds, as it is given.
pub enum GivenSeconds {
    Nothing,
    /// A float, by the bits of its IEEE form, and its whole seconds.
    Number { bits: u64, seconds: u64 },
    /// Something that is no number.
    Other,
}

/// Checks the time to wait for a connection.
pub fn check_connection_timeout(given: &GivenSeconds) -> (out: Result<
    Option<u64>,
    ConnectionError,
>)
    ensures
        out == (match *given {
            GivenSeconds::Nothing => Ok::<Option<u64>, ConnectionError>(None),
            GivenSeconds::Number { bits, seconds } => if floats::below_zero(bits) {
                Err::<Option<u64>, ConnectionError>(ConnectionError::NegativeConnectionTimeout)
            } else {
                Ok::<Option<u64>, ConnectionError>(Some(seconds))
            },
            GivenSeconds::Other => Err::<Option<u64>, ConnectionError>(
                ConnectionError::ConnectionTimeoutKind,
            ),
        }),
{
    match given {
        GivenSeconds::Nothing => Ok(None),
        GivenSeconds::Number { bits, seconds } => {
            if floats::is_below_zero(*bits) {
                return Err(ConnectionError::NegativeConnectionTimeout);
            }
            Ok(Some(*seconds))
        },
        GivenSeconds::Other => Err(ConnectionError::ConnectionTimeoutKind),
    }
}

/// Checks the time, in seconds, that a connection may be idle.
pub fn check_idle_timeout(given: Option<i64>) -> (out: Result<Option<u64>, ConnectionError>)
    ensures
        out == (match given {
            None => Ok::<Option<u64>, ConnectionError>(None),
            Some(n) => if n < 0 {
                Err::<Option<u64>, ConnectionError>(ConnectionError::NegativeIdleTimeout)
            } else {
                Ok::<Option<u64>, ConnectionError>(Some(n as u64))
            },
        }),
{
    match given {
        None => Ok(None),
        Some(n) => {
            if n < 0 {
                return Err(ConnectionError::NegativeIdleTimeout);
            }
            Ok(Some(n as u64))
        },
    }
}

/// Checks the time to wait for a lock, in seconds by the bits of its IEEE
/// form, and puts its milliseconds among the pragmas.
pub fn set_timeout(pragmas: &mut Pragmas, seconds: u64, milliseconds: i64) -> (out: Result<
    (),
    ConnectionError,
>)
    ensures
        if floats::below_zero(seconds) {
            &&& out == Err::<(), ConnectionError>(ConnectionError::NegativeTimeout)
            &&& *final(pragmas) == *old(pragmas)
        } else {
            &&& out == Ok::<(), ConnectionError>(())
            &&& final(pragmas)@ == pragmas::with_wait(old(pragmas)@, milliseconds as int)
            &&& pragmas::waits_in_ascii(final(pragmas)@, old(pragmas)@, milliseconds as int)
        },
{
    if floats::is_below_zero(seconds) {
        return Err(ConnectionError::NegativeTimeout);
    }
    pragmas.set_busy_timeout(milliseconds);
    Ok(())
}

/// The level of this name in upper case, where there is one.
pub open spec fn level_named(upper: Seq<char>) -> Option<IsolationLevel> {
    if upper == IsolationLevel::Deferred.spec_keyword() {
        Some(IsolationLevel::Deferred)
    } else if upper == IsolationLevel::Immediate.spec_keyword() {
        Some(IsolationLevel::Immediate)
    } else if upper == IsolationLevel::Exclusive.spec_keyword() {
        Some(IsolationLevel::Exclusive)
    } else {
        None
    }
}

/// The level of this name in upper case, or the refusal of a name that is none.
pub open spec fn level_or_refusal(upper: Seq<char>) -> Result<
    Option<IsolationLevel>,
    ConnectionError,
> {
    match level_named(upper) {
        Some(level) => Ok(Some(level)),
        None => Err(ConnectionError::InvalidIsolationLevel),
    }
}

/// Finds the level of this name in upper case.
pub fn find_level(upper: &str) -> (out: Option<IsolationLevel>)
    ensures
        out == level_named(upper@),
{
    if text::equal(upper, IsolationLevel::Deferred.keyword()) {
        Some(IsolationLevel::Deferred)
    } else if text::equal(upper, IsolationLevel::Immediate.keyword()) {
        Some(IsolationLevel::Immediate)
    } else if text::equal(upper, IsolationLevel::Exclusive.keyword()) {
        Some(IsolationLevel::Exclusive)
    } else {
        None
    }
}

/// Checks an isolation level, by its name in any case.
pub fn check_isolation_level(given: Option<&str>) -> (out: Result<
    Option<IsolationLevel>,
    ConnectionError,
>)
    ensures
        out == (match given {
            None => Ok::<Option<IsolationLevel>, ConnectionError>(None),
            Some(name) => level_or_refusal(text::uppercase(name@)),
        }),
        given matches Some(name) ==> text::all_ascii(name@) ==> out == level_or_refusal(
            text::ascii_uppercase(name@),
        ),
{
    match given {
        None => Ok(None),
        Some(name) => {
            let upper = text::to_uppercase(name);
            match find_level(upper.as_str()) {
                Some(level) => Ok(Some(level)),
                None => Err(ConnectionError::InvalidIsolationLevel),
            }
        },
    }
}

/// Every level is found by its keyword.
pub proof fn law_levels_are_found_by_keyword(level: IsolationLevel)
    ensures
        level_named(level.spec_keyword()) == Some(level),
{
    reveal_strlit("DEFERRED");
    reveal_strlit("IMMEDIATE");
    reveal_strlit("EXCLUSIVE");
    assert("DEFERRED"@[0] == 'D');
    assert("IMMEDIATE"@[0] == 'I');
    assert("EXCLUSIVE"@[0] == 'E');
}

// ---------------------------------------------------------------- the pool

/// What a pool says of itself.
pub struct PoolCounts {
    pub size: u32,
    pub num_idle: usize,
    pub max_connections: u32,
}

/// How a pool is used.
pub struct PoolMetrics {
    pub size: u32,
    pub num_idle: usize,
    pub in_use: usize,
    pub max_connections: u32,
}

/// Tells how a pool is used, where there is one.
pub fn pool_metrics(pool: Option<PoolCounts>) -> (out: Result<PoolMetrics, ConnectionError>)
    requires
        pool matches Some(counts) ==> counts.num_idle <= counts.size,
    ensures
        match pool {
            Some(counts) => {
                &&& out matches Ok(metrics)
                &&& metrics.size == counts.size
                &&& metrics.num_idle == counts.num_idle
                &&& metrics.in_use == counts.size - counts.num_idle
                &&& metrics.max_connections == counts.max_connections
            },
            None => out == Err::<PoolMetrics, ConnectionError>(ConnectionError::NoPool),
        },
{
    match pool {
        Some(counts) => Ok(
            PoolMetrics {
                size: counts.size,
                num_idle: counts.num_idle,
                in_use: counts.size as usize - counts.num_idle,
                max_connections: counts.max_connections,
            },
        ),
        None => Err(ConnectionError::NoPool),
    }
}

// ---------------------------------------------------------------- adapters

/// Adapters of values that are bound, with the types that they are for.
pub struct Adapters<V> {
    entries: Vec<(u64, V)>,
}

impl<V> View for Adapters<V> {
    type V = Seq<(u64, V)>;

    closed spec fn view(&self) -> Seq<(u64, V)> {
        self.entries@
    }
}

/// Adapters without those for a type.
pub open spec fn without_kind<V>(entries: Seq<(u64, V)>, kind: u64) -> Seq<(u64, V)>
    decreases entries.len(),
{
    if entries.len() == 0 {
        Seq::empty()
    } else if entries.last().0 == kind {
        without_kind(entries.drop_last(), kind)
    } else {
        without_kind(entries.drop_last(), kind).push(entries.last())
    }
}

impl<V: Copy> Adapters<V> {
    /// No adapters.
    pub fn new() -> (out: Self)
        ensures
            out@ == Seq::<(u64, V)>::empty(),
    {
        Adapters { entries: Vec::new() }
    }

    /// Whether there are adapters.
    pub fn enabled(&self) -> (out: bool)
        ensures
            out == (self@.len() > 0),
    {
        self.entries.len() > 0
    }

    /// The adapter for a type: the one that was registered first.
    pub fn find(&self, kind: u64) -> (out: Option<V>)
        ensures
            match out {
                Some(adapter) => exists|i: int|
                    {
                        &&& 0 <= i < self@.len()
                        &&& #[trigger] self@[i] == (kind, adapter)
                        &&& forall|j: int| 0 <= j < i ==> (#[trigger] self@[j]).0 != kind
                    },
                None => forall|i: int| 0 <= i < self@.len() ==> (#[trigger] self@[i]).0 != kind,
            },
    {
        let mut i: usize = 0;
        while i < self.entries.len()
            invariant
                i <= self.entries@.len(),
                self@ == self.entries@,
                forall|j: int| 0 <= j < i ==> (#[trigger] self@[j]).0 != kind,
            decreases self.entries@.len() - i,
        {
            if self.entries[i].0 == kind {
                proof {
                    assert(self@[i as int] == (kind, self.entries@[i as int].1));
                }
                return Some(self.entries[i].1);
            }
            i += 1;
        }
        None
    }

    /// Registers an adapter for a type, or removes those for that type.
    pub fn register(&mut self, kind: u64, adapter: Option<V>)
        ensures
            final(self)@ == (match adapter {
                Some(adapter) => old(self)@.push((kind, adapter)),
                None => without_kind(old(self)@, kind),
            }),
    {
        match adapter {
            Some(adapter) => self.entries.push((kind, adapter)),
            None => {
                let ghost before = self.entries@;
                let mut kept: Vec<(u64, V)> = Vec::new();
                let mut i: usize = 0;
                proof {
                    assert(kept@ =~= without_kind(before.take(0), kind));
                }
                while i < self.entries.len()
                    invariant
                        i <= self.entries@.len(),
                        before == self.entries@,
                        kept@ == without_kind(before.take(i as int), kind),
                    decreases self.entries@.len() - i,
                {
                    proof {
                        assert(before.take(i + 1).drop_last() == before.take(i as int));
                    }
                    if self.entries[i].0 != kind {
                        kept.push(self.entries[i]);
                    }
                    i += 1;
                }
                proof {
                    assert(before.take(before.len() as int) == before);
                }
                self.entries = kept;
            },
        }
    }
}

/// Removing the adapters for a type leaves none for it, and keeps every other
/// one.
pub proof fn law_removal_is_by_kind<V>(entries: Seq<(u64, V)>, kind: u64, entry: (u64, V))
    ensures
        without_kind(entries, kind).contains(entry) <==> entries.contains(entry) && entry.0
            != kind,
    decreases entries.len(),
{
    if entries.len() > 0 {
        let rest = entries.drop_last();
        law_removal_is_by_kind(rest, kind, entry);
        assert(entries.contains(entry) <==> rest.contains(entry) || entries.last() == entry) by {
            if entries.contains(entry) {
                let i = choose|i: int| 0 <= i < entries.len() && entries[i] == entry;
                if i < rest.len() {
                    assert(rest[i] == entry);
                }
            }
            if rest.contains(entry) {
                let i = choose|i: int| 0 <= i < rest.len() && rest[i] == entry;
                assert(entries[i] == entry);
            }
        }
        if entries.last().0 != kind {
            let kept = without_kind(rest, kind);
            assert(kept.push(entries.last()).contains(entry) <==> kept.contains(entry)
                || entries.last() == entry) by {
                let after = kept.push(entries.last());
                if after.contains(entry) {
                    let i = choose|i: int| 0 <= i < after.len() && after[i] == entry;
                    if i < kept.len() {
                        assert(kept[i] == entry);
                    }
                }
                if kept.contains(entry) {
                    let i = choose|i: int| 0 <= i < kept.len() && kept[i] == entry;
                    assert(after[i] == entry);
                }
                assert(after[kept.len() as int] == entries.last());
            }
        }
    }
}

// ---------------------------------------------------------------- converters

/// Registers a converter under a name in upper case, or removes it, and says
/// whether any is left.
pub fn register_under<V: Copy>(
    converters: &mut Registry<V>,
    upper: String,
    converter: Option<V>,
) -> (enabled: bool)
    requires
        old(converters).wf(),
    ensures
        final(converters).wf(),
        final(converters)@ == (match converter {
            Some(converter) => old(converters)@.insert(upper@, converter),
            None => old(converters)@.remove(upper@),
        }),
        enabled == (final(converters)@ != Map::<Seq<char>, V>::empty()),
{
    match converter {
        Some(converter) => {
            converters.insert(upper, converter);
        },
        None => {
            converters.remove(&upper);
        },
    }
    !converters.is_empty()
}

/// Registers a converter for the columns that are declared with a type, or
/// removes it, and says whether any is left. The name counts in upper case.
pub fn register_converter<V: Copy>(
    converters: &mut Registry<V>,
    declared: &str,
    converter: Option<V>,
) -> (enabled: bool)
    requires
        old(converters).wf(),
    ensures
        final(converters).wf(),
        final(converters)@ == (match converter {
            Some(converter) => old(converters)@.insert(text::uppercase(declared@), converter),
            None => old(converters)@.remove(text::uppercase(declared@)),
        }),
        text::all_ascii(declared@) ==> final(converters)@ == (match converter {
            Some(converter) => old(converters)@.insert(
                text::ascii_uppercase(declared@),
                converter,
            ),
            None => old(converters)@.remove(text::ascii_uppercase(declared@)),
        }),
        enabled == (final(converters)@ != Map::<Seq<char>, V>::empty()),
{
    let upper = text::to_uppercase(declared);
    register_under(converters, upper, converter)
}

// ---------------------------------------------------------------- paths and parameters

/// A text is cut at its first mark, and one without a mark is not cut.
pub proof fn law_cut_at_the_first_mark(before: Seq<char>, mark: char, behind: Seq<char>)
    requires
        !before.contains(mark),
    ensures
        cut_at(before + seq![mark] + behind, mark) == (before, behind),
        cut_at(before, mark) == (before, Seq::<char>::empty()),
{
    let whole = before + seq![mark] + behind;
    lemma_first_mark_behind(before, seq![mark] + behind, mark);
    lemma_first_mark_behind(before, Seq::empty(), mark);
    assert(before + (seq![mark] + behind) =~= whole);
    assert(before + Seq::<char>::empty() =~= before);
    assert(whole.take(before.len() as int) =~= before);
    assert(whole.skip((before.len() + 1) as int) =~= behind);
}

proof fn lemma_first_mark_behind(before: Seq<char>, rest: Seq<char>, mark: char)
    requires
        !before.contains(mark),
        rest.len() > 0 ==> rest[0] == mark,
    ensures
        first_mark(before + rest, mark) == before.len(),
    decreases before.len(),
{
    let whole = before + rest;
    if before.len() > 0 {
        assert(before.contains(before[0]));
        let short = before.skip(1);
        assert(!short.contains(mark)) by {
            if short.contains(mark) {
                let k = short.index_of(mark);
                assert(before[k + 1] == mark);
            }
        }
        lemma_first_mark_behind(short, rest, mark);
        assert(whole.skip(1) =~= short + rest);
    } else {
        assert(whole =~= rest);
    }
}

/// Whether a parameter can stand in a URI: no part of it holds the sign that
/// would end it.
pub open spec fn fits_uri(parameter: (Seq<char>, Seq<char>)) -> bool {
    &&& !parameter.0.contains('=')
    &&& !parameter.0.contains('&')
    &&& !parameter.1.contains('&')
}

/// A URI that is put together from a path and options is taken apart into that
/// path and those options, in their order. A path without parameters is the
/// path behind the word, and what does not begin with the word is a path as it
/// is.
pub proof fn law_uri_is_taken_apart(path: Seq<char>, options: Seq<(Seq<char>, Seq<char>)>)
    requires
        !path.contains('?'),
        forall|i: int| 0 <= i < options.len() ==> fits_uri(#[trigger] options[i]),
    ensures
        options.len() > 0 ==> connection_parts(database_name(path, options)) == (path, options),
        options.len() == 0 ==> database_name(path, options) == path,
        connection_parts("file:"@ + path) == (path, Seq::<(Seq<char>, Seq<char>)>::empty()),
        !"file:"@.is_prefix_of(path) ==> connection_parts(path) == (
            path,
            Seq::<(Seq<char>, Seq<char>)>::empty(),
        ),
{
    reveal_strlit("file:");
    reveal_strlit("?");
    reveal_strlit("&");
    reveal_strlit("=");
    assert("?"@ =~= seq!['?']);
    assert("&"@ =~= seq!['&']);
    assert("="@ =~= seq!['=']);
    let bare = "file:"@ + path;
    assert(bare.take(5) =~= "file:"@);
    assert("file:"@.is_prefix_of(bare));
    assert(bare.skip(5) =~= path);
    law_cut_at_the_first_mark(path, '?', Seq::empty());
    if options.len() > 0 {
        let texts = option_texts(options);
        let query = text::joined(texts, "&"@);
        let name = database_name(path, options);
        assert(name =~= "file:"@ + (path + seq!['?'] + query));
        assert("file:"@.is_prefix_of(name));
        assert(name.skip(5) =~= path + seq!['?'] + query);
        law_cut_at_the_first_mark(path, '?', query);
        assert forall|i: int| 0 <= i < texts.len() implies !(#[trigger] texts[i]).contains(
            '&',
        ) by {
            assert(fits_uri(options[i]));
            assert(texts[i] == options[i].0 + "="@ + options[i].1);
            if texts[i].contains('&') {
                let k = texts[i].index_of('&');
                let n = options[i].0.len() as int;
                if k < n {
                    assert(options[i].0[k] == '&');
                } else if k > n {
                    assert(options[i].1[k - n - 1] == '&');
                }
            }
        }
        text::law_joined_splits_back(texts, '&');
        assert(query.len() > 0) by {
            if query.len() == 0 {
                assert(query =~= Seq::<char>::empty());
                assert(text::parts(query, '&') == seq![Seq::<char>::empty()]);
                assert(texts[0] == options[0].0 + "="@ + options[0].1);
                assert(texts[0].len() > 0);
            }
        }
        assert forall|i: int| 0 <= i < options.len() implies cut_at(
            #[trigger] texts[i],
            '=',
        ) == options[i] by {
            assert(fits_uri(options[i]));
            assert(texts[i] =~= options[i].0 + seq!['='] + options[i].1);
            law_cut_at_the_first_mark(options[i].0, '=', options[i].1);
        }
        assert(uri_parameters(query) =~= options);
    }
}

/// The parameters that go into the name of a database are these, by name in
/// any case, and each parameter goes on its own, in order.
pub proof fn law_uri_options_are_chosen_by_name(
    parameters: Seq<(Seq<char>, Seq<char>)>,
    more: Seq<(Seq<char>, Seq<char>)>,
    parameter: (Seq<char>, Seq<char>),
    options: bool,
)
    ensures
        parameters_of(parameters + more, options) == parameters_of(parameters, options)
            + parameters_of(more, options),
        ({
            let name = text::ascii_lowercase(parameter.0);
            let chosen = name == "mode"@ || name == "cache"@ || name == "immutable"@ || name
                == "vfs"@ || name == "nolock"@ || name == "psow"@;
            parameters_of(seq![parameter], options) == if chosen == options {
                seq![parameter]
            } else {
                Seq::empty()
            }
        }),
    decreases more.len(),
{
    reveal_with_fuel(parameters_of, 2);
    assert(seq![parameter].drop_last() =~= Seq::<(Seq<char>, Seq<char>)>::empty());
    assert(parameters_of(seq![parameter].drop_last(), options).push(parameter) =~= seq![parameter]);
    if more.len() == 0 {
        assert(parameters + more =~= parameters);
        assert(parameters_of(parameters, options) + parameters_of(more, options)
            =~= parameters_of(parameters, options));
    } else {
        law_uri_options_are_chosen_by_name(parameters, more.drop_last(), parameter, options);
        assert((parameters + more).drop_last() =~= parameters + more.drop_last());
        assert((parameters + more).last() == more.last());
        assert(parameters_of(parameters + more, options) =~= parameters_of(parameters, options)
            + parameters_of(more, options));
    }
}

/// A level is found by its keyword alone.
pub proof fn law_level_has_its_keyword(upper: Seq<char>)
    ensures
        level_named(upper) == Some(IsolationLevel::Deferred) <==> upper == "DEFERRED"@,
        level_named(upper) == Some(IsolationLevel::Immediate) <==> upper == "IMMEDIATE"@,
        level_named(upper) == Some(IsolationLevel::Exclusive) <==> upper == "EXCLUSIVE"@,
{
    reveal_strlit("DEFERRED");
    reveal_strlit("IMMEDIATE");
    reveal_strlit("EXCLUSIVE");
    assert("DEFERRED"@[0] == 'D');
    assert("IMMEDIATE"@[0] == 'I');
    assert("EXCLUSIVE"@[0] == 'E');
}

/// Adapters that stay keep their order: removing goes adapter by adapter.
pub proof fn law_removal_keeps_the_order<V>(
    entries: Seq<(u64, V)>,
    more: Seq<(u64, V)>,
    kind: u64,
)
    ensures
        without_kind(entries + more, kind) == without_kind(entries, kind) + without_kind(
            more,
            kind,
        ),
        more.len() == 1 && more[0].0 != kind ==> without_kind(more, kind) == more,
        more.len() == 1 && more[0].0 == kind ==> without_kind(more, kind).len() == 0,
    decreases more.len(),
{
    reveal_with_fuel(without_kind, 2);
    if more.len() == 0 {
        assert(entries + more =~= entries);
        assert(without_kind(entries, kind) + without_kind(more, kind) =~= without_kind(
            entries,
            kind,
        ));
    } else {
        law_removal_keeps_the_order(entries, more.drop_last(), kind);
        assert((entries + more).drop_last() =~= entries + more.drop_last());
        assert((entries + more).last() == more.last());
        assert(without_kind(entries + more, kind) =~= without_kind(entries, kind) + without_kind(
            more,
            kind,
        ));
        if more.len() == 1 {
            assert(without_kind(more.drop_last(), kind).push(more.last()) =~= more);
        }
    }
}

/// A name that is no level is refused, and one that is gives the level.
pub proof fn law_unknown_level_is_refused(upper: Seq<char>)
    ensures
        match level_or_refusal(upper) {
            Ok(Some(level)) => upper == level.spec_keyword(),
            Ok(None) => false,
            Err(error) => {
                &&& error == ConnectionError::InvalidIsolationLevel
                &&& forall|level: IsolationLevel| upper != #[trigger] level.spec_keyword()
            },
        },
{
}

} // verus!
