//! Building and reading SQL text: quoting, decimal numbers, hexadecimal
//! bytes, lists, searching, trimming.

use vstd::prelude::*;
use vstd::string::*;

verus! {

/// `String::push` appends one character to the end of the string.
pub assume_specification[ String::push ](s: &mut String, ch: char)
    ensures
        final(s)@ == old(s)@.push(ch),
;

/// What `str::to_uppercase` makes of a string.
pub uninterp spec fn uppercase(s: Seq<char>) -> Seq<char>;

/// What `str::to_lowercase` makes of a string.
pub uninterp spec fn lowercase(s: Seq<char>) -> Seq<char>;

/// The upper-case form of an ASCII character.
pub open spec fn ascii_upper(c: char) -> char {
    if 'a' <= c <= 'z' {
        (c as int - 32) as char
    } else {
        c
    }
}

/// The lower-case form of an ASCII character.
pub open spec fn ascii_lower(c: char) -> char {
    if 'A' <= c <= 'Z' {
        (c as int + 32) as char
    } else {
        c
    }
}

/// Whether every character of `s` is ASCII.
pub open spec fn all_ascii(s: Seq<char>) -> bool {
    forall|i: int| 0 <= i < s.len() ==> (#[trigger] s[i]) as int <= 127
}

/// Calls `str::to_uppercase`, whose result is a function of the string alone.
/// On a string of ASCII characters it raises each letter on its own.
#[verifier::external_body]
pub(crate) fn to_uppercase(s: &str) -> (out: String)
    ensures
        out@ == uppercase(s@),
        all_ascii(s@) ==> out@ == ascii_uppercase(s@),
{
    s.to_uppercase()
}

/// Calls `str::to_lowercase`, whose result is a function of the string alone.
/// On a string of ASCII characters it lowers each letter on its own.
#[verifier::external_body]
pub(crate) fn to_lowercase(s: &str) -> (out: String)
    ensures
        out@ == lowercase(s@),
        all_ascii(s@) ==> out@ == ascii_lowercase(s@),
{
    s.to_lowercase()
}

/// The sentence in which `String::from_utf8` says why bytes are not UTF-8.
pub uninterp spec fn utf8_complaint(bytes: Seq<u8>) -> Seq<char>;

/// Calls `String::from_utf8`, which takes exactly the bytes that are UTF-8 and
/// gives the text that they encode; of other bytes it says why they are not,
/// as a function of the bytes alone.
#[verifier::external_body]
pub(crate) fn utf8_string(bytes: Vec<u8>) -> (out: Result<String, String>)
    ensures
        match out {
            Ok(s) => vstd::utf8::valid_utf8(bytes@) && s@ == vstd::utf8::decode_utf8(bytes@),
            Err(reason) => !vstd::utf8::valid_utf8(bytes@) && reason@ == utf8_complaint(bytes@),
        },
{
    String::from_utf8(bytes).map_err(|error| error.to_string())
}

// ---------------------------------------------------------------- quoting

/// `s` with every occurrence of `mark` written twice.
pub open spec fn doubled(s: Seq<char>, mark: char) -> Seq<char>
    decreases s.len(),
{
    if s.len() == 0 {
        Seq::empty()
    } else if s.last() == mark {
        doubled(s.drop_last(), mark).push(mark).push(mark)
    } else {
        doubled(s.drop_last(), mark).push(s.last())
    }
}

/// `s` between two marks, with every mark inside it doubled.
pub open spec fn quoted(s: Seq<char>, mark: char) -> Seq<char> {
    seq![mark] + doubled(s, mark) + seq![mark]
}

/// `s` as an SQL string literal.
pub open spec fn literal(s: Seq<char>) -> Seq<char> {
    quoted(s, '\'')
}

/// `s` as a quoted SQL identifier.
pub open spec fn identifier(s: Seq<char>) -> Seq<char> {
    quoted(s, '"')
}

/// What a reader that stands behind an opening mark takes in: the text up to
/// the first mark that is not doubled, with doubled marks halved, and the
/// number of characters read, the closing mark among them. `None` where the
/// text ends before a closing mark.
pub open spec fn read_quoted(s: Seq<char>, mark: char) -> Option<(Seq<char>, int)>
    decreases s.len(),
{
    if s.len() == 0 {
        None
    } else if s[0] != mark {
        match read_quoted(s.skip(1), mark) {
            Some((rest, n)) => Some((seq![s[0]] + rest, n + 1)),
            None => None,
        }
    } else if s.len() >= 2 && s[1] == mark {
        match read_quoted(s.skip(2), mark) {
            Some((rest, n)) => Some((seq![mark] + rest, n + 2)),
            None => None,
        }
    } else {
        Some((Seq::empty(), 1))
    }
}

/// Writes every occurrence of `mark` in `s` twice.
pub fn double(s: &str, mark: char) -> (out: String)
    ensures
        out@ == doubled(s@, mark),
{
    let mut out = String::new();
    for c in it: s.chars()
        invariant
            it.seq() == s@,
            out@ == doubled(s@.take(it.index() as int), mark),
    {
        proof {
            let i = it.index() as int;
            assert(s@.take(i + 1).drop_last() == s@.take(i));
            assert(s@.take(i + 1).last() == c);
        }
        out.push(c);
        if c == mark {
            out.push(c);
        }
    }
    proof {
        assert(s@.take(s@.len() as int) == s@);
    }
    out
}

/// Puts `s` between two marks and doubles the marks inside it.
pub fn quote(s: &str, mark: char) -> (out: String)
    ensures
        out@ == quoted(s@, mark),
{
    let mut out = String::new();
    out.push(mark);
    let body = double(s, mark);
    out.append(body.as_str());
    out.push(mark);
    proof {
        assert(out@ == quoted(s@, mark));
    }
    out
}

/// Writes `s` as an SQL string literal.
pub fn quote_literal(s: &str) -> (out: String)
    ensures
        out@ == literal(s@),
{
    quote(s, '\'')
}

/// Writes `s` as a quoted SQL identifier, so that spaces, keywords and quote
/// marks in it stay part of the name.
pub fn quoted_identifier(s: &str) -> (out: String)
    ensures
        out@ == identifier(s@),
{
    quote(s, '"')
}

proof fn lemma_doubled_first(s: Seq<char>, mark: char)
    requires
        s.len() > 0,
    ensures
        doubled(s, mark) == (if s[0] == mark {
            seq![mark, mark]
        } else {
            seq![s[0]]
        }) + doubled(s.skip(1), mark),
    decreases s.len(),
{
    let head = if s[0] == mark {
        seq![mark, mark]
    } else {
        seq![s[0]]
    };
    if s.len() == 1 {
        assert(s.drop_last() == Seq::<char>::empty());
        assert(s.skip(1) == Seq::<char>::empty());
        assert(doubled(s.drop_last(), mark) == Seq::<char>::empty());
        assert(doubled(s, mark) == head);
        assert(head + doubled(s.skip(1), mark) == head);
    } else {
        lemma_doubled_first(s.drop_last(), mark);
        assert(s.drop_last().skip(1) == s.skip(1).drop_last());
        assert(s.skip(1).last() == s.last());
        assert(doubled(s, mark) == head + doubled(s.skip(1), mark));
    }
}

/// Quoted text reads back: whatever follows it, as long as that does not begin
/// with the same mark, a reader behind the opening mark takes in exactly the
/// text that was quoted and stops right behind the closing mark.
pub proof fn law_quoted_reads_back(s: Seq<char>, mark: char, after: Seq<char>)
    requires
        after.len() > 0 ==> after[0] != mark,
    ensures
        read_quoted((quoted(s, mark) + after).skip(1), mark) == Some(
            (s, quoted(s, mark).len() - 1),
        ),
    decreases s.len(),
{
    let body = doubled(s, mark) + seq![mark] + after;
    assert((quoted(s, mark) + after).skip(1) == body);
    if s.len() == 0 {
        assert(doubled(s, mark) == Seq::<char>::empty());
        assert(body == seq![mark] + after);
        assert(s == Seq::<char>::empty());
    } else {
        let rest = s.skip(1);
        lemma_doubled_first(s, mark);
        law_quoted_reads_back(rest, mark, after);
        let tail = doubled(rest, mark) + seq![mark] + after;
        assert((quoted(rest, mark) + after).skip(1) == tail);
        if s[0] == mark {
            assert(body.skip(2) == tail);
            assert(body[0] == mark && body[1] == mark);
            assert(seq![mark] + rest == s);
        } else {
            assert(body.skip(1) == tail);
            assert(body[0] == s[0]);
            assert(seq![s[0]] + rest == s);
        }
    }
}

/// Two texts with the same quoted form are the same text.
pub proof fn law_quoting_is_injective(a: Seq<char>, b: Seq<char>, mark: char)
    requires
        quoted(a, mark) == quoted(b, mark),
    ensures
        a == b,
{
    law_quoted_reads_back(a, mark, Seq::empty());
    law_quoted_reads_back(b, mark, Seq::empty());
}

// ---------------------------------------------------------------- numbers

/// The character of one digit, `0` to `9` and then `a` to `f`.
pub open spec fn digit_char(d: int) -> char {
    if d < 10 {
        ('0' as int + d) as char
    } else {
        ('a' as int + (d - 10)) as char
    }
}

/// The decimal digits of `n`, with no leading zero.
pub open spec fn digits(n: nat) -> Seq<char>
    decreases n,
{
    if n < 10 {
        seq![digit_char(n as int)]
    } else {
        digits(n / 10).push(digit_char((n % 10) as int))
    }
}

/// `n` in decimal, with a minus sign where it is negative.
pub open spec fn decimal(n: int) -> Seq<char> {
    if n < 0 {
        seq!['-'] + digits((-n) as nat)
    } else {
        digits(n as nat)
    }
}

/// The two hexadecimal digits of each byte, in order.
pub open spec fn hex(bytes: Seq<u8>) -> Seq<char>
    decreases bytes.len(),
{
    if bytes.len() == 0 {
        Seq::empty()
    } else {
        hex(bytes.drop_last()).push(digit_char(bytes.last() as int / 16)).push(
            digit_char(bytes.last() as int % 16),
        )
    }
}

fn digit(d: u8) -> (c: char)
    requires
        d < 16,
    ensures
        c == digit_char(d as int),
{
    if d < 10 {
        (48 + d) as char
    } else {
        (87 + d) as char
    }
}

fn push_digits(out: &mut String, n: u64)
    ensures
        final(out)@ == old(out)@ + digits(n as nat),
    decreases n,
{
    if n < 10 {
        out.push(digit(n as u8));
        proof {
            assert(out@ == old(out)@ + digits(n as nat));
        }
    } else {
        push_digits(out, n / 10);
        out.push(digit((n % 10) as u8));
        proof {
            assert(out@ == old(out)@ + digits(n as nat));
        }
    }
}

/// Writes an unsigned number in decimal.
pub fn format_unsigned(n: u64) -> (out: String)
    ensures
        out@ == decimal(n as int),
{
    let mut out = String::new();
    push_digits(&mut out, n);
    out
}

/// Writes a signed number in decimal.
pub fn format_signed(n: i64) -> (out: String)
    ensures
        out@ == decimal(n as int),
{
    let mut out = String::new();
    if n < 0 {
        out.push('-');
        let magnitude: u64 = if n == i64::MIN {
            9223372036854775808
        } else {
            (-n) as u64
        };
        push_digits(&mut out, magnitude);
    } else {
        push_digits(&mut out, n as u64);
    }
    out
}

/// Writes bytes as pairs of lower-case hexadecimal digits.
pub fn bytes_to_hex(bytes: &[u8]) -> (out: String)
    ensures
        out@ == hex(bytes@),
{
    let mut out = String::new();
    let mut i: usize = 0;
    while i < bytes.len()
        invariant
            i <= bytes@.len(),
            out@ == hex(bytes@.take(i as int)),
        decreases bytes@.len() - i,
    {
        let b: u8 = bytes[i];
        proof {
            assert(bytes@.take(i + 1).drop_last() == bytes@.take(i as int));
        }
        out.push(digit(b / 16));
        out.push(digit(b % 16));
        i += 1;
    }
    proof {
        assert(bytes@.take(bytes@.len() as int) == bytes@);
    }
    out
}

/// The value of a decimal digit string.
pub open spec fn digits_value(s: Seq<char>) -> int
    decreases s.len(),
{
    if s.len() == 0 {
        0
    } else {
        digits_value(s.drop_last()) * 10 + (s.last() as int - '0' as int)
    }
}

/// The decimal digits of a number give the number back.
pub proof fn law_digits_read_back(n: nat)
    ensures
        digits_value(digits(n)) == n,
    decreases n,
{
    if n < 10 {
        let s = seq![digit_char(n as int)];
        assert(s.drop_last() == Seq::<char>::empty());
        assert(digits_value(s.drop_last()) == 0);
        assert(s.last() as int - '0' as int == n);
    } else {
        law_digits_read_back(n / 10);
        let s = digits(n / 10).push(digit_char((n % 10) as int));
        assert(s.drop_last() == digits(n / 10));
        assert(s.last() as int - '0' as int == n % 10);
    }
}

/// Each byte takes two characters in hexadecimal, its high half first.
pub proof fn law_hex_positions(bytes: Seq<u8>, i: int)
    requires
        0 <= i < bytes.len(),
    ensures
        hex(bytes).len() == 2 * bytes.len(),
        hex(bytes)[2 * i] == digit_char(bytes[i] as int / 16),
        hex(bytes)[2 * i + 1] == digit_char(bytes[i] as int % 16),
    decreases bytes.len(),
{
    lemma_hex_len(bytes.drop_last());
    if i < bytes.len() - 1 {
        law_hex_positions(bytes.drop_last(), i);
    }
}

proof fn lemma_hex_len(bytes: Seq<u8>)
    ensures
        hex(bytes).len() == 2 * bytes.len(),
    decreases bytes.len(),
{
    if bytes.len() > 0 {
        lemma_hex_len(bytes.drop_last());
    }
}

// ---------------------------------------------------------------- lists

/// The text that a string holds, where there is one.
pub open spec fn text_of(s: Option<String>) -> Option<Seq<char>> {
    match s {
        Some(s) => Some(s@),
        None => None,
    }
}

/// The texts that a sequence of strings holds.
pub open spec fn texts(v: Seq<String>) -> Seq<Seq<char>> {
    v.map_values(|s: String| s@)
}

/// The parts in order, with the separator between each two.
pub open spec fn joined(parts: Seq<Seq<char>>, separator: Seq<char>) -> Seq<char>
    decreases parts.len(),
{
    if parts.len() == 0 {
        Seq::empty()
    } else if parts.len() == 1 {
        parts[0]
    } else {
        joined(parts.drop_last(), separator) + separator + parts.last()
    }
}

/// Writes the parts one after the other, with the separator between each two.
pub fn join(parts: &Vec<String>, separator: &str) -> (out: String)
    ensures
        out@ == joined(texts(parts@), separator@),
{
    let mut out = String::new();
    let mut i: usize = 0;
    while i < parts.len()
        invariant
            i <= parts@.len(),
            out@ == joined(texts(parts@).take(i as int), separator@),
        decreases parts@.len() - i,
    {
        proof {
            let all = texts(parts@);
            assert(all.take(i + 1).drop_last() == all.take(i as int));
            assert(all.take(i + 1).last() == parts@[i as int]@);
        }
        if i > 0 {
            out.append(separator);
        }
        out.append(parts[i].as_str());
        proof {
            if i == 0 {
                assert(out@ == parts@[0]@);
            }
            assert(out@ == joined(texts(parts@).take(i + 1), separator@));
        }
        i += 1;
    }
    proof {
        assert(texts(parts@).take(parts@.len() as int) == texts(parts@));
    }
    out
}

// ---------------------------------------------------------------- searching

/// The characters of a string.
pub fn characters(s: &str) -> (out: Vec<char>)
    ensures
        out@ == s@,
{
    let mut out: Vec<char> = Vec::new();
    for c in it: s.chars()
        invariant
            it.seq() == s@,
            out@ == s@.take(it.index() as int),
    {
        out.push(c);
        proof {
            assert(out@ == s@.take(it.index() + 1));
        }
    }
    proof {
        assert(s@.take(s@.len() as int) == s@);
    }
    out
}

/// The string of the characters from `from` up to `to`.
pub fn string_of(chars: &Vec<char>, from: usize, to: usize) -> (out: String)
    requires
        from <= to <= chars@.len(),
    ensures
        out@ == chars@.subrange(from as int, to as int),
{
    let mut out = String::new();
    let mut i: usize = from;
    while i < to
        invariant
            from <= i <= to <= chars@.len(),
            out@ == chars@.subrange(from as int, i as int),
        decreases to - i,
    {
        out.push(chars[i]);
        i += 1;
        proof {
            assert(out@ == chars@.subrange(from as int, i as int));
        }
    }
    out
}

/// Whether two strings hold the same text.
pub fn equal(a: &str, b: &str) -> (same: bool)
    ensures
        same == (a@ == b@),
{
    let left = characters(a);
    let right = characters(b);
    if left.len() != right.len() {
        return false;
    }
    let mut i: usize = 0;
    while i < left.len()
        invariant
            i <= left@.len(),
            left@ == a@,
            right@ == b@,
            left@.len() == right@.len(),
            forall|j: int| 0 <= j < i ==> left@[j] == right@[j],
        decreases left@.len() - i,
    {
        if left[i] != right[i] {
            return false;
        }
        i += 1;
    }
    proof {
        assert(left@ =~= right@);
    }
    true
}

/// Whether `needle` stands in `hay` at position `at`.
pub open spec fn stands_at(hay: Seq<char>, needle: Seq<char>, at: int) -> bool {
    &&& 0 <= at
    &&& at + needle.len() <= hay.len()
    &&& hay.subrange(at, at + needle.len()) == needle
}

/// Whether `needle` stands anywhere in `hay`.
pub open spec fn occurs(hay: Seq<char>, needle: Seq<char>) -> bool {
    exists|at: int| stands_at(hay, needle, at)
}

fn matches_at(hay: &Vec<char>, needle: &Vec<char>, at: usize) -> (found: bool)
    requires
        at + needle@.len() <= hay@.len(),
    ensures
        found == stands_at(hay@, needle@, at as int),
{
    let end: usize = hay.len();
    let mut i: usize = 0;
    while i < needle.len()
        invariant
            i <= needle@.len(),
            at + needle@.len() <= hay@.len(),
            end == hay@.len(),
            forall|j: int| 0 <= j < i ==> hay@[at + j] == #[trigger] needle@[j],
        decreases needle@.len() - i,
    {
        if hay[at + i] != needle[i] {
            proof {
                assert(hay@.subrange(at as int, at + needle@.len())[i as int] != needle@[i as int]);
            }
            return false;
        }
        i += 1;
    }
    proof {
        assert(hay@.subrange(at as int, at + needle@.len()) == needle@);
    }
    true
}

/// Finds the first position at which `needle` stands in `hay`.
pub fn find(hay: &Vec<char>, needle: &Vec<char>) -> (at: Option<usize>)
    ensures
        match at {
            Some(i) => stands_at(hay@, needle@, i as int) && forall|j: int|
                0 <= j < i ==> !stands_at(hay@, needle@, j),
            None => !occurs(hay@, needle@),
        },
{
    if needle.len() > hay.len() {
        return None;
    }
    let last: usize = hay.len() - needle.len();
    let mut i: usize = 0;
    while i <= last
        invariant
            i <= last + 1,
            last + needle@.len() == hay@.len(),
            forall|j: int| 0 <= j < i ==> !stands_at(hay@, needle@, j),
        decreases last + 1 - i,
    {
        if matches_at(hay, needle, i) {
            return Some(i);
        }
        if i == last {
            return None;
        }
        i += 1;
    }
    None
}

/// Whether `needle` stands anywhere in `hay`.
pub fn contains(hay: &str, needle: &str) -> (found: bool)
    ensures
        found == occurs(hay@, needle@),
{
    match find(&characters(hay), &characters(needle)) {
        Some(_) => true,
        None => false,
    }
}

/// Whether `s` begins with `prefix`.
pub fn starts_with(s: &str, prefix: &str) -> (found: bool)
    ensures
        found == prefix@.is_prefix_of(s@),
{
    let hay = characters(s);
    let needle = characters(prefix);
    if needle.len() > hay.len() {
        return false;
    }
    matches_at(&hay, &needle, 0)
}

/// The number of bytes of a text in UTF-8.
pub open spec fn byte_length(s: Seq<char>) -> nat {
    vstd::utf8::encode_utf8(s).len()
}

/// Counts the bytes of a text in UTF-8.
pub fn length_in_bytes(s: &str) -> (n: usize)
    ensures
        n == byte_length(s@),
{
    s.as_bytes().len()
}

/// The position of the first NUL byte.
pub open spec fn first_nul(bytes: Seq<u8>) -> Option<int>
    decreases bytes.len(),
{
    if bytes.len() == 0 {
        None
    } else if bytes[0] == 0 {
        Some(0)
    } else {
        match first_nul(bytes.skip(1)) {
            Some(i) => Some(i + 1),
            None => None,
        }
    }
}

/// The position of the first NUL byte of a text.
pub open spec fn nul_in(s: Seq<char>) -> Option<int> {
    first_nul(vstd::utf8::encode_utf8(s))
}

/// Finds the first NUL byte of `s`: a text that has one cannot be handed to
/// the C interface.
pub fn nul_position(s: &str) -> (at: Option<usize>)
    ensures
        match at {
            Some(i) => nul_in(s@) == Some(i as int),
            None => nul_in(s@) is None,
        },
{
    let bytes = s.as_bytes();
    let mut i: usize = 0;
    proof {
        assert(bytes@.skip(0) == bytes@);
    }
    while i < bytes.len()
        invariant
            i <= bytes@.len(),
            bytes@ == s.spec_bytes(),
            match first_nul(bytes@.skip(i as int)) {
                Some(k) => first_nul(bytes@) == Some(k + i),
                None => first_nul(bytes@) is None,
            },
        decreases bytes@.len() - i,
    {
        if bytes[i] == 0 {
            return Some(i);
        }
        proof {
            assert(bytes@.skip(i as int).skip(1) == bytes@.skip(i + 1));
        }
        i += 1;
    }
    None
}

/// A text with its ASCII letters in upper case.
pub open spec fn ascii_uppercase(s: Seq<char>) -> Seq<char> {
    s.map_values(|c: char| ascii_upper(c))
}

/// A text with its ASCII letters in lower case.
pub open spec fn ascii_lowercase(s: Seq<char>) -> Seq<char> {
    s.map_values(|c: char| ascii_lower(c))
}

/// Raises the ASCII letters of a text.
pub fn to_ascii_uppercase(s: &str) -> (out: String)
    ensures
        out@ == ascii_uppercase(s@),
{
    let chars = characters(s);
    let mut out = String::new();
    let mut i: usize = 0;
    while i < chars.len()
        invariant
            i <= chars@.len(),
            chars@ == s@,
            out@ == ascii_uppercase(s@).take(i as int),
        decreases chars@.len() - i,
    {
        let c: char = chars[i];
        if 'a' <= c && c <= 'z' {
            out.push((c as u8 - 32) as char);
        } else {
            out.push(c);
        }
        i += 1;
        proof {
            assert(out@ =~= ascii_uppercase(s@).take(i as int));
        }
    }
    proof {
        assert(ascii_uppercase(s@).take(s@.len() as int) == ascii_uppercase(s@));
    }
    out
}

/// Lowers the ASCII letters of a text.
pub fn to_ascii_lowercase(s: &str) -> (out: String)
    ensures
        out@ == ascii_lowercase(s@),
{
    let chars = characters(s);
    let mut out = String::new();
    let mut i: usize = 0;
    while i < chars.len()
        invariant
            i <= chars@.len(),
            chars@ == s@,
            out@ == ascii_lowercase(s@).take(i as int),
        decreases chars@.len() - i,
    {
        let c: char = chars[i];
        if 'A' <= c && c <= 'Z' {
            out.push((c as u8 + 32) as char);
        } else {
            out.push(c);
        }
        i += 1;
        proof {
            assert(out@ =~= ascii_lowercase(s@).take(i as int));
        }
    }
    proof {
        assert(ascii_lowercase(s@).take(s@.len() as int) == ascii_lowercase(s@));
    }
    out
}

// ---------------------------------------------------------------- splitting

/// The parts of `s` between the marks.
pub open spec fn parts(s: Seq<char>, mark: char) -> Seq<Seq<char>>
    decreases s.len(),
{
    if s.len() == 0 {
        seq![Seq::empty()]
    } else {
        let before = parts(s.drop_last(), mark);
        if s.last() == mark {
            before.push(Seq::empty())
        } else {
            before.drop_last().push(before.last().push(s.last()))
        }
    }
}

/// Splits a text at the marks.
pub fn split(s: &Vec<char>, mark: char) -> (out: Vec<Vec<char>>)
    ensures
        out@.len() == parts(s@, mark).len(),
        forall|i: int| 0 <= i < out@.len() ==> (#[trigger] out@[i])@ == parts(s@, mark)[i],
{
    let mut done: Vec<Vec<char>> = Vec::new();
    let mut part: Vec<char> = Vec::new();
    let mut i: usize = 0;
    proof {
        assert(s@.take(0) =~= Seq::<char>::empty());
    }
    while i < s.len()
        invariant
            i <= s@.len(),
            parts(s@.take(i as int), mark).len() == done@.len() + 1,
            forall|j: int|
                0 <= j < done@.len() ==> (#[trigger] done@[j])@ == parts(
                    s@.take(i as int),
                    mark,
                )[j],
            part@ == parts(s@.take(i as int), mark).last(),
        decreases s@.len() - i,
    {
        proof {
            assert(s@.take(i + 1).drop_last() == s@.take(i as int));
            assert(s@.take(i + 1).last() == s@[i as int]);
        }
        if s[i] == mark {
            done.push(part);
            part = Vec::new();
        } else {
            part.push(s[i]);
        }
        i += 1;
    }
    done.push(part);
    proof {
        assert(s@.take(s@.len() as int) == s@);
    }
    done
}

/// There is always a part, be it empty.
pub proof fn law_split_gives_a_part(s: Seq<char>, mark: char)
    ensures
        parts(s, mark).len() > 0,
    decreases s.len(),
{
    if s.len() > 0 {
        law_split_gives_a_part(s.drop_last(), mark);
    }
}

/// The parts of a text, with the mark between them, are the text.
pub proof fn law_split_loses_nothing(s: Seq<char>, mark: char)
    ensures
        joined(parts(s, mark), seq![mark]) == s,
    decreases s.len(),
{
    reveal_with_fuel(joined, 2);
    let separator = seq![mark];
    if s.len() > 0 {
        let before = parts(s.drop_last(), mark);
        law_split_loses_nothing(s.drop_last(), mark);
        law_split_gives_a_part(s.drop_last(), mark);
        let now = parts(s, mark);
        if s.last() == mark {
            assert(now.drop_last() =~= before);
        } else {
            assert(now.drop_last() =~= before.drop_last());
            assert(now.last() == before.last().push(s.last()));
            if before.len() == 1 {
                assert(now[0] == now.last() && before[0] == before.last());
            }
            assert(joined(now, separator) =~= joined(before, separator).push(s.last()));
        }
    }
    assert(joined(parts(s, mark), separator) =~= s);
}

// ---------------------------------------------------------------- blanks

/// Whether a character has the Unicode property White_Space.
pub open spec fn white(c: char) -> bool {
    ||| '\u{9}' <= c <= '\u{d}'
    ||| c == ' '
    ||| c == '\u{85}'
    ||| c == '\u{a0}'
    ||| c == '\u{1680}'
    ||| '\u{2000}' <= c <= '\u{200a}'
    ||| c == '\u{2028}'
    ||| c == '\u{2029}'
    ||| c == '\u{202f}'
    ||| c == '\u{205f}'
    ||| c == '\u{3000}'
}

/// Tells white space from other characters.
pub fn is_white(c: char) -> (b: bool)
    ensures
        b == white(c),
{
    ('\u{9}' <= c && c <= '\u{d}') || c == ' ' || c == '\u{85}' || c == '\u{a0}' || c == '\u{1680}'
        || ('\u{2000}' <= c && c <= '\u{200a}') || c == '\u{2028}' || c == '\u{2029}' || c
        == '\u{202f}' || c == '\u{205f}' || c == '\u{3000}'
}

/// `s` from its first character that is not white space.
pub open spec fn without_leading_white(s: Seq<char>) -> Seq<char>
    decreases s.len(),
{
    if s.len() > 0 && white(s[0]) {
        without_leading_white(s.skip(1))
    } else {
        s
    }
}

/// `s` up to its last character that is not white space.
pub open spec fn without_trailing_white(s: Seq<char>) -> Seq<char>
    decreases s.len(),
{
    if s.len() > 0 && white(s.last()) {
        without_trailing_white(s.drop_last())
    } else {
        s
    }
}

/// `s` without white space at either end.
pub open spec fn trimmed(s: Seq<char>) -> Seq<char> {
    without_trailing_white(without_leading_white(s))
}

/// Cuts white space off both ends.
pub fn trim(chars: &Vec<char>) -> (out: Vec<char>)
    ensures
        out@ == trimmed(chars@),
{
    let mut from: usize = 0;
    proof {
        assert(chars@.skip(0) == chars@);
    }
    while from < chars.len() && is_white(chars[from])
        invariant
            from <= chars@.len(),
            without_leading_white(chars@) == without_leading_white(chars@.skip(from as int)),
        decreases chars@.len() - from,
    {
        proof {
            assert(chars@.skip(from as int).skip(1) == chars@.skip(from + 1));
        }
        from += 1;
    }
    let mut to: usize = chars.len();
    proof {
        assert(chars@.skip(from as int) == chars@.subrange(from as int, to as int));
    }
    while from < to && is_white(chars[to - 1])
        invariant
            from <= to <= chars@.len(),
            trimmed(chars@) == without_trailing_white(chars@.subrange(from as int, to as int)),
        decreases to,
    {
        proof {
            assert(chars@.subrange(from as int, to as int).drop_last() == chars@.subrange(
                from as int,
                to - 1,
            ));
        }
        to -= 1;
    }
    let mut out: Vec<char> = Vec::new();
    let mut i: usize = from;
    while i < to
        invariant
            from <= i <= to <= chars@.len(),
            out@ == chars@.subrange(from as int, i as int),
        decreases to - i,
    {
        out.push(chars[i]);
        i += 1;
        proof {
            assert(out@ == chars@.subrange(from as int, i as int));
        }
    }
    out
}

/// The first NUL byte is one, no NUL byte stands before it, and bytes without
/// one hold none at all.
pub proof fn law_first_nul_is_the_first(bytes: Seq<u8>)
    ensures
        match first_nul(bytes) {
            Some(at) => {
                &&& 0 <= at < bytes.len()
                &&& bytes[at] == 0
                &&& forall|i: int| 0 <= i < at ==> bytes[i] != 0
            },
            None => forall|i: int| 0 <= i < bytes.len() ==> bytes[i] != 0,
        },
    decreases bytes.len(),
{
    if bytes.len() > 0 && bytes[0] != 0 {
        law_first_nul_is_the_first(bytes.skip(1));
        assert forall|i: int| 1 <= i < bytes.len() implies bytes[i] == bytes.skip(1)[i - 1] by {}
    }
}

// ---------------------------------------------------------------- what these are

/// The letters `a` to `z` and `A` to `Z` are 32 apart, every other character
/// has no other case, and changing case twice comes to changing it once.
pub proof fn law_ascii_case(c: char)
    ensures
        'a' <= c <= 'z' ==> ascii_upper(c) as int == c as int - 32 && 'A' <= ascii_upper(c) <= 'Z',
        !('a' <= c <= 'z') ==> ascii_upper(c) == c,
        'A' <= c <= 'Z' ==> ascii_lower(c) as int == c as int + 32 && 'a' <= ascii_lower(c) <= 'z',
        !('A' <= c <= 'Z') ==> ascii_lower(c) == c,
        ascii_upper(ascii_lower(c)) == ascii_upper(c),
        ascii_lower(ascii_upper(c)) == ascii_lower(c),
{
}

/// A text changes case letter by letter.
pub proof fn law_text_changes_case_by_letters(s: Seq<char>, i: int)
    ensures
        ascii_uppercase(s).len() == s.len(),
        ascii_lowercase(s).len() == s.len(),
        0 <= i < s.len() ==> ascii_uppercase(s)[i] == ascii_upper(s[i]) && ascii_lowercase(s)[i]
            == ascii_lower(s[i]),
{
}

proof fn lemma_digits(n: nat)
    ensures
        digits(n).len() > 0,
        forall|i: int| 0 <= i < digits(n).len() ==> '0' <= #[trigger] digits(n)[i] <= '9',
        digits(n)[0] == '0' ==> n == 0,
        n < 10 ==> digits(n).len() == 1,
    decreases n,
{
    if n >= 10 {
        lemma_digits(n / 10);
        let before = digits(n / 10);
        assert(digits(n) == before.push(digit_char((n % 10) as int)));
        assert forall|i: int| 0 <= i < digits(n).len() implies '0' <= #[trigger] digits(n)[i]
            <= '9' by {
            if i < before.len() {
                assert(digits(n)[i] == before[i]);
            }
        }
        assert(digits(n)[0] == before[0]);
    }
}

/// A number in decimal gives the number back: digits and nothing else behind a
/// minus sign that only a negative number has, and no zero in front.
pub proof fn law_decimal_reads_back(n: int)
    ensures
        ({
            let shown = decimal(n);
            let figures = if n < 0 {
                shown.skip(1)
            } else {
                shown
            };
            &&& n < 0 <==> shown.len() > 0 && shown[0] == '-'
            &&& figures.len() > 0
            &&& digits_value(figures) == if n < 0 {
                -n
            } else {
                n
            }
            &&& forall|i: int| 0 <= i < figures.len() ==> '0' <= #[trigger] figures[i] <= '9'
            &&& figures[0] == '0' ==> n == 0 && figures.len() == 1
        }),
{
    let size = if n < 0 {
        (-n) as nat
    } else {
        n as nat
    };
    lemma_digits(size);
    law_digits_read_back(size);
    if n < 0 {
        assert(decimal(n).skip(1) =~= digits(size));
    }
}

/// A text between quotation marks is read back as it was, and the marks are
/// those of SQL: single ones around a string, double ones around a name.
pub proof fn law_literals_and_identifiers_read_back(s: Seq<char>)
    ensures
        literal(s).len() >= 2,
        literal(s)[0] == '\'',
        read_quoted(literal(s).skip(1), '\'') == Some((s, literal(s).len() - 1)),
        identifier(s).len() >= 2,
        identifier(s)[0] == '"',
        read_quoted(identifier(s).skip(1), '"') == Some((s, identifier(s).len() - 1)),
{
    law_quoted_reads_back(s, '\'', Seq::empty());
    law_quoted_reads_back(s, '"', Seq::empty());
    assert(literal(s).skip(1) =~= doubled(s, '\'') + seq!['\''] + Seq::<char>::empty());
    assert(identifier(s).skip(1) =~= doubled(s, '"') + seq!['"'] + Seq::<char>::empty());
}

/// Parts are joined with the separator between each two, and nowhere else.
pub proof fn law_joined_puts_separators_between(
    all: Seq<Seq<char>>,
    part: Seq<char>,
    separator: Seq<char>,
)
    ensures
        joined(Seq::empty(), separator).len() == 0,
        joined(seq![part], separator) == part,
        all.len() > 0 ==> joined(all.push(part), separator) == joined(all, separator) + separator
            + part,
{
    assert(all.push(part).drop_last() =~= all);
}

/// No part of a text that was split holds the mark.
pub proof fn law_split_parts_hold_no_mark(s: Seq<char>, mark: char)
    ensures
        forall|i: int|
            0 <= i < parts(s, mark).len() ==> !(#[trigger] parts(s, mark)[i]).contains(mark),
    decreases s.len(),
{
    if s.len() > 0 {
        let before = parts(s.drop_last(), mark);
        law_split_parts_hold_no_mark(s.drop_last(), mark);
        law_split_gives_a_part(s.drop_last(), mark);
        let now = parts(s, mark);
        assert forall|i: int| 0 <= i < now.len() implies !(#[trigger] now[i]).contains(mark) by {
            if i < now.len() - 1 {
                assert(now[i] == before[i]);
            } else if s.last() != mark {
                assert(!before[before.len() - 1].contains(mark));
                assert forall|k: int| 0 <= k < now[i].len() implies now[i][k] != mark by {
                    if k < now[i].len() - 1 {
                        assert(before.last()[k] == now[i][k]);
                        assert(before.last().contains(before.last()[k]));
                    }
                }
            }
        }
    }
}

/// White space is what Unicode calls so, by number.
pub proof fn law_white_space(c: char)
    ensures
        white(c) <==> {
            let n = c as int;
            ||| 9 <= n <= 13
            ||| n == 32
            ||| n == 133
            ||| n == 160
            ||| n == 5760
            ||| 8192 <= n <= 8202
            ||| n == 8232
            ||| n == 8233
            ||| n == 8239
            ||| n == 8287
            ||| n == 12288
        },
{
}

proof fn lemma_leading(s: Seq<char>) -> (cut: int)
    ensures
        0 <= cut <= s.len(),
        without_leading_white(s) == s.skip(cut),
        forall|i: int| 0 <= i < cut ==> white(#[trigger] s[i]),
        cut < s.len() ==> !white(s[cut]),
    decreases s.len(),
{
    if s.len() > 0 && white(s[0]) {
        let rest = lemma_leading(s.skip(1));
        assert(s.skip(1).skip(rest) =~= s.skip(rest + 1));
        assert forall|i: int| 0 <= i < rest + 1 implies white(#[trigger] s[i]) by {
            if i > 0 {
                assert(s.skip(1)[i - 1] == s[i]);
            }
        }
        rest + 1
    } else {
        assert(s.skip(0) =~= s);
        0
    }
}

proof fn lemma_trailing(s: Seq<char>) -> (end: int)
    ensures
        0 <= end <= s.len(),
        without_trailing_white(s) == s.take(end),
        forall|i: int| end <= i < s.len() ==> white(#[trigger] s[i]),
        end > 0 ==> !white(s[end - 1]),
    decreases s.len(),
{
    if s.len() > 0 && white(s.last()) {
        let end = lemma_trailing(s.drop_last());
        assert(s.drop_last().take(end) =~= s.take(end));
        assert forall|i: int| end <= i < s.len() implies white(#[trigger] s[i]) by {
            if i < s.len() - 1 {
                assert(s.drop_last()[i] == s[i]);
            }
        }
        if end > 0 {
            assert(s.drop_last()[end - 1] == s[end - 1]);
        }
        end
    } else {
        assert(s.take(s.len() as int) =~= s);
        s.len() as int
    }
}

/// Trimming cuts white space off both ends, and nothing else: what is left is
/// one stretch of the text that neither begins nor ends with white space.
pub proof fn law_trimmed_cuts_white_space_alone(s: Seq<char>)
    ensures
        exists|from: int, to: int|
            {
                &&& 0 <= from <= to <= s.len()
                &&& trimmed(s) == #[trigger] s.subrange(from, to)
                &&& forall|i: int| 0 <= i < from ==> white(#[trigger] s[i])
                &&& forall|i: int| to <= i < s.len() ==> white(#[trigger] s[i])
            },
        trimmed(s).len() > 0 ==> !white(trimmed(s)[0]) && !white(trimmed(s).last()),
{
    let from = lemma_leading(s);
    let rest = s.skip(from);
    let end = lemma_trailing(rest);
    let to = from + end;
    assert(rest.take(end) =~= s.subrange(from, to));
    assert forall|i: int| to <= i < s.len() implies white(#[trigger] s[i]) by {
        assert(rest[i - from] == s[i]);
    }
    if end > 0 {
        assert(rest[0] == s[from]);
        assert(trimmed(s)[0] == s[from]);
        assert(trimmed(s).last() == rest[end - 1]);
    }
}

/// A text that begins with no white space and ends with none is left as it is.
pub proof fn law_trimmed_is_left_alone(s: Seq<char>)
    requires
        s.len() > 0 ==> !white(s[0]) && !white(s.last()),
    ensures
        trimmed(s) == s,
{
}

proof fn lemma_parts_of_one(part: Seq<char>, mark: char)
    requires
        !part.contains(mark),
    ensures
        parts(part, mark) == seq![part],
    decreases part.len(),
{
    if part.len() > 0 {
        assert(part.contains(part.last()));
        let short = part.drop_last();
        assert(!short.contains(mark)) by {
            if short.contains(mark) {
                let k = short.index_of(mark);
                assert(part[k] == mark);
            }
        }
        lemma_parts_of_one(short, mark);
        assert(short.push(part.last()) =~= part);
        assert(parts(part, mark) =~= seq![part]);
    } else {
        assert(part =~= Seq::<char>::empty());
    }
}

proof fn lemma_parts_with_one_more(before: Seq<char>, part: Seq<char>, mark: char)
    requires
        !part.contains(mark),
    ensures
        parts(before + seq![mark] + part, mark) == parts(before, mark).push(part),
    decreases part.len(),
{
    let whole = before + seq![mark] + part;
    if part.len() > 0 {
        assert(part.contains(part.last()));
        let short = part.drop_last();
        assert(!short.contains(mark)) by {
            if short.contains(mark) {
                let k = short.index_of(mark);
                assert(part[k] == mark);
            }
        }
        lemma_parts_with_one_more(before, short, mark);
        assert(whole.drop_last() =~= before + seq![mark] + short);
        assert(whole.last() == part.last());
        assert(short.push(part.last()) =~= part);
        let so_far = parts(before, mark).push(short);
        assert(so_far.drop_last() =~= parts(before, mark));
        assert(parts(whole, mark) =~= parts(before, mark).push(part));
    } else {
        assert(part =~= Seq::<char>::empty());
        assert(whole.drop_last() =~= before);
        assert(whole.last() == mark);
    }
}

/// Parts that hold no mark are split again as they were joined.
pub proof fn law_joined_splits_back(all: Seq<Seq<char>>, mark: char)
    requires
        all.len() > 0,
        forall|i: int| 0 <= i < all.len() ==> !(#[trigger] all[i]).contains(mark),
    ensures
        parts(joined(all, seq![mark]), mark) == all,
    decreases all.len(),
{
    if all.len() == 1 {
        lemma_parts_of_one(all[0], mark);
        assert(seq![all[0]] =~= all);
    } else {
        let short = all.drop_last();
        assert forall|i: int| 0 <= i < short.len() implies !(#[trigger] short[i]).contains(
            mark,
        ) by {
            assert(short[i] == all[i]);
        }
        law_joined_splits_back(short, mark);
        assert(!all[all.len() - 1].contains(mark));
        lemma_parts_with_one_more(joined(short, seq![mark]), all.last(), mark);
        assert(short.push(all.last()) =~= all);
    }
}

/// The texts of strings are the texts of each of them, in order.
pub proof fn law_texts_are_those_of_the_strings(v: Seq<String>, i: int, s: Option<String>)
    ensures
        texts(v).len() == v.len(),
        0 <= i < v.len() ==> texts(v)[i] == v[i]@,
        match s {
            Some(held) => text_of(s) == Some(held@),
            None => text_of(s) is None,
        },
{
}

} // verus!
