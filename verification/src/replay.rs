//! Reading a dump back: what SQLite takes its statements to say, and what they
//! make of an empty database.

use crate::dump;
use crate::dump::DumpValue;
use crate::dump::SchemaRow;
use crate::dump::TableRows;
use crate::text;
use vstd::prelude::*;

verus! {

// ---------------------------------------------------------------- literals

/// A value as it is stored, by its storage class.
pub enum StoredValue {
    Null,
    Integer(int),
    /// A float, by the numeral that it is read from.
    Real { numeral: Seq<char> },
    Text(Seq<char>),
    Blob(Seq<u8>),
}

/// A value that is written out, as it is stored.
pub open spec fn stored(value: DumpValue) -> StoredValue {
    match value {
        DumpValue::Null => StoredValue::Null,
        DumpValue::Integer(n) => StoredValue::Integer(n as int),
        DumpValue::Real { digits } => StoredValue::Real { numeral: dump::real_literal(digits@) },
        DumpValue::Text(s) => StoredValue::Text(s@),
        DumpValue::Blob(bytes) => StoredValue::Blob(bytes@),
    }
}

/// Whether a character may stand in a numeral.
pub open spec fn numeral_char(c: char) -> bool {
    '0' <= c <= '9' || c == '-' || c == '+' || c == '.' || c == 'e'
}

/// Whether a text is the decimal form of a float, or names one that is
/// infinite.
pub open spec fn float_text(digits: Seq<char>) -> bool {
    ||| digits == "inf"@
    ||| digits == "-inf"@
    ||| digits.len() > 0 && forall|i: int|
        0 <= i < digits.len() ==> numeral_char(#[trigger] digits[i])
}

/// Whether a value can be written out: a float is given by its digits.
pub open spec fn writable(value: DumpValue) -> bool {
    value matches DumpValue::Real { digits } ==> float_text(digits@)
}

/// What stands behind a text, where the text stands first.
pub open spec fn behind(s: Seq<char>, first: Seq<char>) -> Option<Seq<char>> {
    if first.len() <= s.len() && s.take(first.len() as int) == first {
        Some(s.skip(first.len() as int))
    } else {
        None
    }
}

/// How many characters of a numeral stand first.
pub open spec fn numeral_length(s: Seq<char>) -> int
    decreases s.len(),
{
    if s.len() == 0 || !numeral_char(s[0]) {
        0
    } else {
        1 + numeral_length(s.skip(1))
    }
}

/// The value of the decimal digits of a number that may be negative.
pub open spec fn integer_value(s: Seq<char>) -> int {
    if s.len() > 0 && s[0] == '-' {
        -text::digits_value(s.skip(1))
    } else {
        text::digits_value(s)
    }
}

/// The value of a numeral: a float where it has a decimal point or an exponent,
/// and otherwise an integer.
pub open spec fn number(numeral: Seq<char>) -> StoredValue {
    if numeral.contains('.') || numeral.contains('e') {
        StoredValue::Real { numeral }
    } else {
        StoredValue::Integer(integer_value(numeral))
    }
}

/// The value of a hexadecimal digit.
pub open spec fn hex_digit(c: char) -> int {
    if '0' <= c <= '9' {
        c as int - '0' as int
    } else {
        c as int - 'a' as int + 10
    }
}

/// The bytes whose hexadecimal digits these are.
pub open spec fn unhex(s: Seq<char>) -> Seq<u8> {
    Seq::new(
        (s.len() / 2) as nat,
        |i: int| (hex_digit(s[2 * i]) * 16 + hex_digit(s[2 * i + 1])) as u8,
    )
}

/// The value whose literal stands first, and how long the literal is.
#[verifier::opaque]
pub open spec fn read_value(s: Seq<char>) -> Option<(StoredValue, int)> {
    if s.len() == 0 {
        None
    } else if s[0] == 'N' {
        match behind(s, "NULL"@) {
            Some(_) => Some((StoredValue::Null, 4)),
            None => None,
        }
    } else if s[0] == '\'' {
        match text::read_quoted(s.skip(1), '\'') {
            Some((value, n)) => Some((StoredValue::Text(value), n + 1)),
            None => None,
        }
    } else if s[0] == 'X' {
        match behind(s, "X'"@) {
            Some(rest) => match text::read_quoted(rest, '\'') {
                Some((digits, n)) => Some((StoredValue::Blob(unhex(digits)), n + 2)),
                None => None,
            },
            None => None,
        }
    } else if s[0] == 'C' {
        match behind(s, "CAST(X'"@) {
            Some(rest) => match text::read_quoted(rest, '\'') {
                Some((digits, n)) => match behind(rest.skip(n), " AS TEXT)"@) {
                    Some(_) => Some(
                        (StoredValue::Text(vstd::utf8::decode_utf8(unhex(digits))), n + 16),
                    ),
                    None => None,
                },
                None => None,
            },
            None => None,
        }
    } else {
        let n = numeral_length(s);
        if n > 0 {
            Some((number(s.take(n)), n))
        } else {
            None
        }
    }
}

proof fn lemma_behind(first: Seq<char>, rest: Seq<char>)
    ensures
        behind(first + rest, first) == Some(rest),
{
    assert((first + rest).take(first.len() as int) =~= first);
    assert((first + rest).skip(first.len() as int) =~= rest);
}

proof fn lemma_numeral_length(numeral: Seq<char>, after: Seq<char>)
    requires
        forall|i: int| 0 <= i < numeral.len() ==> numeral_char(#[trigger] numeral[i]),
        after.len() > 0 ==> !numeral_char(after[0]),
    ensures
        numeral_length(numeral + after) == numeral.len(),
    decreases numeral.len(),
{
    let s = numeral + after;
    if numeral.len() == 0 {
        assert(s =~= after);
    } else {
        let rest = numeral.skip(1);
        assert forall|i: int| 0 <= i < rest.len() implies numeral_char(#[trigger] rest[i]) by {
            assert(rest[i] == numeral[i + 1]);
        }
        lemma_numeral_length(rest, after);
        assert(s[0] == numeral[0]);
        assert(s.skip(1) =~= rest + after);
    }
}

proof fn lemma_digits_are_digits(n: nat)
    ensures
        text::digits(n).len() > 0,
        forall|i: int|
            0 <= i < text::digits(n).len() ==> '0' <= #[trigger] text::digits(n)[i] <= '9',
    decreases n,
{
    if n >= 10 {
        lemma_digits_are_digits(n / 10);
    }
}

/// The decimal form of an integer has the value of the integer.
pub proof fn law_decimal_reads_back(n: int)
    ensures
        integer_value(text::decimal(n)) == n,
        number(text::decimal(n)) == StoredValue::Integer(n),
        text::decimal(n).len() > 0,
        forall|i: int|
            0 <= i < text::decimal(n).len() ==> numeral_char(#[trigger] text::decimal(n)[i]),
{
    let s = text::decimal(n);
    if n < 0 {
        let magnitude = (-n) as nat;
        lemma_digits_are_digits(magnitude);
        text::law_digits_read_back(magnitude);
        assert(s.skip(1) =~= text::digits(magnitude));
        assert forall|i: int| 0 <= i < s.len() implies numeral_char(#[trigger] s[i]) && s[i] != '.'
            && s[i] != 'e' by {
            if i > 0 {
                assert(s[i] == text::digits(magnitude)[i - 1]);
            }
        }
    } else {
        lemma_digits_are_digits(n as nat);
        text::law_digits_read_back(n as nat);
        assert(s[0] != '-');
        assert forall|i: int| 0 <= i < s.len() implies numeral_char(#[trigger] s[i]) && s[i] != '.'
            && s[i] != 'e' by {
            assert(s[i] == text::digits(n as nat)[i]);
        }
    }
}

proof fn lemma_unhex_byte(b: int)
    requires
        0 <= b < 256,
    ensures
        hex_digit(text::digit_char(b / 16)) * 16 + hex_digit(text::digit_char(b % 16)) == b,
        text::digit_char(b / 16) != '\'',
        text::digit_char(b % 16) != '\'',
{
    lemma_hex_digit(b / 16);
    lemma_hex_digit(b % 16);
}

proof fn lemma_hex_digit(d: int)
    requires
        0 <= d < 16,
    ensures
        hex_digit(text::digit_char(d)) == d,
        text::digit_char(d) != '\'',
{
}

/// The hexadecimal digits of bytes read back as the bytes.
pub proof fn law_hex_reads_back(bytes: Seq<u8>)
    ensures
        unhex(text::hex(bytes)) == bytes,
        forall|i: int| 0 <= i < text::hex(bytes).len() ==> #[trigger] text::hex(bytes)[i] != '\'',
{
    let digits = text::hex(bytes);
    if bytes.len() > 0 {
        text::law_hex_positions(bytes, 0);
    }
    assert forall|i: int| 0 <= i < bytes.len() implies #[trigger] unhex(digits)[i] == bytes[i] by {
        text::law_hex_positions(bytes, i);
        lemma_unhex_byte(bytes[i] as int);
    }
    assert(unhex(digits) =~= bytes);
    assert forall|i: int| 0 <= i < digits.len() implies #[trigger] digits[i] != '\'' by {
        text::law_hex_positions(bytes, i / 2);
        lemma_unhex_byte(bytes[i / 2] as int);
        assert(i == 2 * (i / 2) || i == 2 * (i / 2) + 1);
    }
}

proof fn lemma_nothing_doubled(s: Seq<char>, mark: char)
    requires
        forall|i: int| 0 <= i < s.len() ==> #[trigger] s[i] != mark,
    ensures
        text::doubled(s, mark) == s,
    decreases s.len(),
{
    if s.len() > 0 {
        let before = s.drop_last();
        assert forall|i: int| 0 <= i < before.len() implies #[trigger] before[i] != mark by {
            assert(before[i] == s[i]);
        }
        lemma_nothing_doubled(before, mark);
        assert(s.last() == s[s.len() - 1]);
        assert(before.push(s.last()) =~= s);
    } else {
        assert(text::doubled(s, mark) =~= s);
    }
}

proof fn lemma_hex_quoted(bytes: Seq<u8>, after: Seq<char>)
    requires
        after.len() > 0 ==> after[0] != '\'',
    ensures
        text::read_quoted(text::hex(bytes) + seq!['\''] + after, '\'') == Some(
            (text::hex(bytes), (text::hex(bytes).len() + 1) as int),
        ),
{
    let digits = text::hex(bytes);
    law_hex_reads_back(bytes);
    lemma_nothing_doubled(digits, '\'');
    text::law_quoted_reads_back(digits, '\'', after);
    assert((text::quoted(digits, '\'') + after).skip(1) =~= digits + seq!['\''] + after);
}

proof fn lemma_real_is_numeral(digits: Seq<char>)
    requires
        float_text(digits),
    ensures
        dump::real_literal(digits).len() > 0,
        forall|i: int|
            0 <= i < dump::real_literal(digits).len() ==> numeral_char(
                #[trigger] dump::real_literal(digits)[i],
            ),
{
    reveal_strlit("9e999");
    reveal_strlit("-9e999");
    reveal_strlit(".0");
}

/// A literal reads back as the value that it was written from, of the same
/// storage class, and up to its own end: a NULL as NULL, an integer as that
/// integer, a float as a float, a text as that text, with whatever characters,
/// and bytes as those bytes.
pub proof fn law_literal_reads_back(value: DumpValue, after: Seq<char>)
    requires
        writable(value),
        after.len() > 0 ==> after[0] != '\'' && !numeral_char(after[0]),
    ensures
        read_value(dump::written(value) + after) == Some(
            (stored(value), dump::written(value).len() as int),
        ),
{
    reveal(read_value);
    let literal = dump::written(value);
    let s = literal + after;
    match value {
        DumpValue::Null => {
            reveal_strlit("NULL");
            lemma_behind("NULL"@, after);
        },
        DumpValue::Integer(n) => {
            law_decimal_reads_back(n as int);
            lemma_numeral_length(literal, after);
            assert(s.take(literal.len() as int) =~= literal);
            assert(numeral_char(literal[0]));
            assert(s[0] == literal[0]);
        },
        DumpValue::Real { digits } => {
            lemma_real_is_numeral(digits@);
            dump::law_real_stays_real(digits@);
            lemma_numeral_length(literal, after);
            assert(s.take(literal.len() as int) =~= literal);
            assert(numeral_char(literal[0]));
            assert(s[0] == literal[0]);
        },
        DumpValue::Text(content) => {
            if content@.contains('\0') {
                let bytes = vstd::utf8::encode_utf8(content@);
                reveal_strlit("CAST(X'");
                reveal_strlit("' AS TEXT)");
                reveal_strlit(" AS TEXT)");
                let end = " AS TEXT)"@ + after;
                let rest = text::hex(bytes) + seq!['\''] + end;
                assert("' AS TEXT)"@ =~= seq!['\''] + " AS TEXT)"@);
                assert(s =~= "CAST(X'"@ + rest);
                assert(s[0] == 'C');
                lemma_behind("CAST(X'"@, rest);
                lemma_hex_quoted(bytes, end);
                assert(rest.skip((text::hex(bytes).len() + 1) as int) =~= end);
                lemma_behind(" AS TEXT)"@, after);
                law_hex_reads_back(bytes);
                vstd::utf8::encode_utf8_decode_utf8(content@);
            } else {
                text::law_quoted_reads_back(content@, '\'', after);
            }
        },
        DumpValue::Blob(bytes) => {
            reveal_strlit("X'");
            reveal_strlit("'");
            let rest = text::hex(bytes@) + seq!['\''] + after;
            assert("'"@ =~= seq!['\'']);
            assert(s =~= "X'"@ + rest);
            assert(s[0] == 'X');
            lemma_behind("X'"@, rest);
            lemma_hex_quoted(bytes@, after);
            law_hex_reads_back(bytes@);
        },
    }
}

/// Where the decimal point of a numeral stands, or its end where there is none.
pub open spec fn point_at(s: Seq<char>) -> int
    decreases s.len(),
{
    if s.len() == 0 || s[0] == '.' {
        0
    } else {
        1 + point_at(s.skip(1))
    }
}

/// The number that a numeral without an exponent stands for: an integer, and
/// how many of its digits stand behind the decimal point.
pub open spec fn numeral_value(s: Seq<char>) -> (int, nat) {
    let at = point_at(s);
    if at < s.len() {
        (integer_value(s.take(at) + s.skip(at + 1)), (s.len() - at - 1) as nat)
    } else {
        (integer_value(s), 0)
    }
}

/// Whether two decimal fractions are the same number.
pub open spec fn same_number(a: (int, nat), b: (int, nat)) -> bool {
    a.0 * vstd::arithmetic::power::pow(10, b.1) == b.0 * vstd::arithmetic::power::pow(10, a.1)
}

proof fn lemma_point_at(s: Seq<char>, after: Seq<char>)
    requires
        !s.contains('.'),
    ensures
        point_at(s + after) == s.len() + point_at(after),
    decreases s.len(),
{
    if s.len() == 0 {
        assert(s + after =~= after);
    } else {
        let rest = s.skip(1);
        assert(s.contains(s[0]));
        assert forall|i: int| 0 <= i < rest.len() implies #[trigger] rest[i] != '.' by {
            assert(s.contains(s[i + 1]));
        }
        lemma_point_at(rest, after);
        assert((s + after).skip(1) =~= rest + after);
    }
}

/// The literal of a finite float stands for the number that its digits stand
/// for, where these have no exponent.
pub proof fn law_real_literal_keeps_number(digits: Seq<char>)
    requires
        digits.len() > 0,
        !digits.contains('e'),
        digits != "inf"@,
        digits != "-inf"@,
    ensures
        same_number(numeral_value(dump::real_literal(digits)), numeral_value(digits)),
{
    if !digits.contains('.') {
        reveal_strlit(".0");
        let literal = dump::real_literal(digits);
        lemma_point_at(digits, ".0"@);
        lemma_point_at(digits, Seq::empty());
        assert(digits + Seq::<char>::empty() =~= digits);
        assert(point_at(".0"@) == 0);
        let tens = digits.push('0');
        assert(literal.take(digits.len() as int) + literal.skip((digits.len() + 1) as int) =~= tens);
        assert(tens.drop_last() =~= digits);
        if digits[0] == '-' {
            assert(tens.skip(1).drop_last() =~= digits.skip(1));
            assert(tens.skip(1).last() == '0');
        }
        assert(integer_value(tens) == integer_value(digits) * 10);
        vstd::arithmetic::power::lemma_pow0(10);
        vstd::arithmetic::power::lemma_pow1(10);
    }
}

// ---------------------------------------------------------------- statements

/// The quoted name that stands first, and how long it is with its marks.
pub open spec fn read_name(s: Seq<char>) -> Option<(Seq<char>, int)> {
    if s.len() > 0 && s[0] == '"' {
        match text::read_quoted(s.skip(1), '"') {
            Some((name, n)) => Some((name, n + 1)),
            None => None,
        }
    } else {
        None
    }
}

/// The names of a list that ends with a closing bracket, and how long it is
/// with the bracket.
pub open spec fn read_names(s: Seq<char>) -> Option<(Seq<Seq<char>>, int)>
    decreases s.len(),
{
    match read_name(s) {
        Some((name, n)) => if 0 < n < s.len() && s[n] == ')' {
            Some((seq![name], n + 1))
        } else if 0 < n && n + 1 < s.len() && s[n] == ',' && s[n + 1] == ' ' {
            match read_names(s.skip(n + 2)) {
                Some((names, m)) => Some((seq![name] + names, n + 2 + m)),
                None => None,
            }
        } else {
            None
        },
        None => None,
    }
}

/// The values of a list that ends with a closing bracket, and how long it is
/// with the bracket.
pub open spec fn read_values(s: Seq<char>) -> Option<(Seq<StoredValue>, int)>
    decreases s.len(),
{
    match read_value(s) {
        Some((value, n)) => if 0 < n < s.len() && s[n] == ')' {
            Some((seq![value], n + 1))
        } else if 0 < n && n + 1 < s.len() && s[n] == ',' && s[n + 1] == ' ' {
            match read_values(s.skip(n + 2)) {
                Some((values, m)) => Some((seq![value] + values, n + 2 + m)),
                None => None,
            }
        } else {
            None
        },
        None => None,
    }
}

/// A row that a statement inserts: the table, the columns, and their values.
pub struct InsertedRow {
    pub table: Seq<char>,
    pub columns: Seq<Seq<char>>,
    pub values: Seq<StoredValue>,
}

/// The row that a statement inserts, where it is one that inserts.
pub open spec fn read_insert(statement: Seq<char>) -> Option<InsertedRow> {
    match behind(statement, "INSERT INTO "@) {
        Some(a) => match read_name(a) {
            Some((table, n)) => match behind(a.skip(n), " ("@) {
                Some(b) => match read_names(b) {
                    Some((columns, m)) => match behind(b.skip(m), " VALUES ("@) {
                        Some(c) => match read_values(c) {
                            Some((values, k)) => if c.skip(k) == ";"@ {
                                Some(InsertedRow { table, columns, values })
                            } else {
                                None
                            },
                            None => None,
                        },
                        None => None,
                    },
                    None => None,
                },
                None => None,
            },
            None => None,
        },
        None => None,
    }
}

proof fn lemma_name_reads_back(name: Seq<char>, after: Seq<char>)
    requires
        after.len() > 0 ==> after[0] != '"',
    ensures
        read_name(text::identifier(name) + after) == Some(
            (name, text::identifier(name).len() as int),
        ),
        text::identifier(name).len() > 0,
{
    text::law_quoted_reads_back(name, '"', after);
    assert((text::identifier(name) + after)[0] == '"');
}

proof fn lemma_joined_first(parts: Seq<Seq<char>>, separator: Seq<char>)
    requires
        parts.len() >= 2,
    ensures
        text::joined(parts, separator) == parts[0] + separator + text::joined(
            parts.skip(1),
            separator,
        ),
    decreases parts.len(),
{
    let rest = parts.skip(1);
    if parts.len() == 2 {
        assert(parts.drop_last().len() == 1);
        assert(text::joined(parts.drop_last(), separator) == parts[0]);
        assert(text::joined(rest, separator) == parts[1]);
    } else {
        lemma_joined_first(parts.drop_last(), separator);
        assert(parts.drop_last().skip(1) =~= rest.drop_last());
        assert(text::joined(parts, separator) =~= parts[0] + separator + (text::joined(
            rest.drop_last(),
            separator,
        ) + separator + parts.last()));
    }
}

/// Names as they are quoted.
pub open spec fn identifiers(names: Seq<Seq<char>>) -> Seq<Seq<char>> {
    names.map_values(|name: Seq<char>| text::identifier(name))
}

proof fn lemma_names_read_back(names: Seq<Seq<char>>, after: Seq<char>)
    requires
        names.len() > 0,
    ensures
        read_names(text::joined(identifiers(names), ", "@) + seq![')'] + after) == Some(
            (names, (text::joined(identifiers(names), ", "@).len() + 1) as int),
        ),
    decreases names.len(),
{
    reveal_strlit(", ");
    let parts = identifiers(names);
    let list = text::joined(parts, ", "@);
    let s = list + seq![')'] + after;
    let first = parts[0];
    if names.len() == 1 {
        let rest = seq![')'] + after;
        lemma_name_reads_back(names[0], rest);
        assert(s =~= first + rest);
        assert(s[first.len() as int] == ')');
        assert(names =~= seq![names[0]]);
    } else {
        let others = names.skip(1);
        let tail = text::joined(identifiers(others), ", "@) + seq![')'] + after;
        let rest = ", "@ + tail;
        lemma_names_read_back(others, after);
        lemma_joined_first(parts, ", "@);
        assert(parts.skip(1) =~= identifiers(others));
        lemma_name_reads_back(names[0], rest);
        assert(s =~= first + rest);
        let n = first.len() as int;
        assert(s[n] == ',' && s[n + 1] == ' ');
        assert(s.skip(n + 2) =~= tail);
        assert(names =~= seq![names[0]] + others);
    }
}

/// Values as they are written.
pub open spec fn literals(values: Seq<DumpValue>) -> Seq<Seq<char>> {
    values.map_values(|value: DumpValue| dump::written(value))
}

/// Values as they are stored.
pub open spec fn stored_values(values: Seq<DumpValue>) -> Seq<StoredValue> {
    values.map_values(|value: DumpValue| stored(value))
}

/// Whether every value can be written out.
pub open spec fn all_writable(values: Seq<DumpValue>) -> bool {
    forall|i: int| 0 <= i < values.len() ==> writable(#[trigger] values[i])
}

proof fn lemma_literal_is_there(value: DumpValue)
    requires
        writable(value),
    ensures
        dump::written(value).len() > 0,
{
    reveal_strlit("NULL");
    reveal_strlit("CAST(X'");
    reveal_strlit("X'");
    match value {
        DumpValue::Integer(n) => {
            law_decimal_reads_back(n as int);
        },
        DumpValue::Real { digits } => {
            lemma_real_is_numeral(digits@);
        },
        _ => {},
    }
}

#[verifier::rlimit(30)]
proof fn lemma_values_read_back(values: Seq<DumpValue>, after: Seq<char>)
    requires
        values.len() > 0,
        all_writable(values),
    ensures
        read_values(text::joined(literals(values), ", "@) + seq![')'] + after) == Some(
            (stored_values(values), (text::joined(literals(values), ", "@).len() + 1) as int),
        ),
    decreases values.len(),
{
    reveal_strlit(", ");
    let parts = literals(values);
    let list = text::joined(parts, ", "@);
    let s = list + seq![')'] + after;
    let first = parts[0];
    lemma_literal_is_there(values[0]);
    if values.len() == 1 {
        let rest = seq![')'] + after;
        law_literal_reads_back(values[0], rest);
        assert(s =~= first + rest);
        assert(s[first.len() as int] == ')');
        assert(stored_values(values) =~= seq![stored(values[0])]);
    } else {
        let others = values.skip(1);
        let tail = text::joined(literals(others), ", "@) + seq![')'] + after;
        let rest = ", "@ + tail;
        assert forall|i: int| 0 <= i < others.len() implies writable(#[trigger] others[i]) by {
            assert(others[i] == values[i + 1]);
        }
        lemma_values_read_back(others, after);
        lemma_joined_first(parts, ", "@);
        assert(parts.skip(1) =~= literals(others));
        law_literal_reads_back(values[0], rest);
        assert(s =~= first + rest);
        let n = first.len() as int;
        assert(s[n] == ',' && s[n + 1] == ' ');
        assert(s.skip(n + 2) =~= tail);
        assert(stored_values(values) =~= seq![stored(values[0])] + stored_values(others));
    }
}

/// The statement that inserts a row reads back as that row: into that table, in
/// those columns, with those values.
pub proof fn law_insert_reads_back(table: Seq<char>, columns: Seq<String>, row: Seq<DumpValue>)
    requires
        columns.len() == row.len(),
        row.len() > 0,
        all_writable(row),
    ensures
        read_insert(dump::insert_statement(table, columns, row, row.len())) == Some(
            InsertedRow { table, columns: text::texts(columns), values: stored_values(row) },
        ),
{
    reveal_strlit("INSERT INTO ");
    reveal_strlit(" (");
    reveal_strlit(") VALUES (");
    reveal_strlit(" VALUES (");
    reveal_strlit(");");
    reveal_strlit(";");
    let names = text::texts(columns);
    assert(dump::column_list(columns, row.len()) =~= identifiers(names));
    assert(dump::value_list(row, row.len()) =~= literals(row));
    let name_list = text::joined(identifiers(names), ", "@);
    let value_list = text::joined(literals(row), ", "@);
    let end = ";"@;
    let c = value_list + seq![')'] + end;
    let tail = " VALUES ("@ + c;
    let b = name_list + seq![')'] + tail;
    let middle = " ("@ + b;
    let a = text::identifier(table) + middle;
    assert(") VALUES ("@ =~= seq![')'] + " VALUES ("@);
    assert(");"@ =~= seq![')'] + ";"@);
    let statement = dump::insert_statement(table, columns, row, row.len());
    assert(statement =~= "INSERT INTO "@ + a);
    lemma_behind("INSERT INTO "@, a);
    lemma_name_reads_back(table, middle);
    assert(a.skip(text::identifier(table).len() as int) =~= middle);
    lemma_behind(" ("@, b);
    lemma_names_read_back(names, tail);
    assert(b.skip((name_list.len() + 1) as int) =~= tail);
    lemma_behind(" VALUES ("@, c);
    lemma_values_read_back(row, end);
    assert(c.skip((value_list.len() + 1) as int) =~= end);
}

// ---------------------------------------------------------------- a database

/// The rows that statements, run in order, insert into a table.
pub open spec fn inserted(statements: Seq<Seq<char>>, table: Seq<char>) -> Seq<InsertedRow>
    decreases statements.len(),
{
    if statements.len() == 0 {
        Seq::empty()
    } else {
        let before = inserted(statements.drop_last(), table);
        match read_insert(statements.last()) {
            Some(row) => if row.table == table {
                before.push(row)
            } else {
                before
            },
            None => before,
        }
    }
}

/// Whether a statement creates something.
pub open spec fn creating(statement: Seq<char>) -> bool {
    behind(statement, "CREATE "@) is Some
}

/// The statements that create something, in order.
pub open spec fn made(statements: Seq<Seq<char>>) -> Seq<Seq<char>>
    decreases statements.len(),
{
    if statements.len() == 0 {
        Seq::empty()
    } else if creating(statements.last()) {
        made(statements.drop_last()).push(statements.last())
    } else {
        made(statements.drop_last())
    }
}

/// Whether every statement that the schema holds is one that creates, which is
/// how SQLite keeps them.
pub open spec fn schema_creates(rows: Seq<SchemaRow>) -> bool {
    forall|i: int|
        #![trigger rows[i]]
        0 <= i < rows.len() && rows[i].sql is Some ==> creating(rows[i].sql->0@)
}

/// Whether these are whole rows of a table: each has a value for each column,
/// and there is at least one.
pub open spec fn whole_rows(data: TableRows) -> bool {
    forall|r: int|
        #![trigger data.rows@[r]]
        0 <= r < data.rows@.len() ==> {
            &&& data.rows@[r]@.len() == data.columns@.len()
            &&& data.rows@[r]@.len() > 0
            &&& all_writable(data.rows@[r]@)
        }
}

/// The rows of a table as they are to be inserted.
pub open spec fn rows_of(table: Seq<char>, data: TableRows) -> Seq<InsertedRow> {
    Seq::new(
        data.rows@.len(),
        |r: int|
            InsertedRow {
                table,
                columns: text::texts(data.columns@),
                values: stored_values(data.rows@[r]@),
            },
    )
}

proof fn lemma_inserted_concat(a: Seq<Seq<char>>, b: Seq<Seq<char>>, table: Seq<char>)
    ensures
        inserted(a + b, table) == inserted(a, table) + inserted(b, table),
    decreases b.len(),
{
    if b.len() == 0 {
        assert(a + b =~= a);
        assert(inserted(a, table) + inserted(b, table) =~= inserted(a, table));
    } else {
        lemma_inserted_concat(a, b.drop_last(), table);
        assert((a + b).drop_last() =~= a + b.drop_last());
        assert((a + b).last() == b.last());
        assert(inserted(a + b, table) =~= inserted(a, table) + inserted(b, table));
    }
}

proof fn lemma_made_concat(a: Seq<Seq<char>>, b: Seq<Seq<char>>)
    ensures
        made(a + b) == made(a) + made(b),
    decreases b.len(),
{
    if b.len() == 0 {
        assert(a + b =~= a);
        assert(made(a) + made(b) =~= made(a));
    } else {
        lemma_made_concat(a, b.drop_last());
        assert((a + b).drop_last() =~= a + b.drop_last());
        assert((a + b).last() == b.last());
        assert(made(a + b) =~= made(a) + made(b));
    }
}

proof fn lemma_creating_inserts_nothing(sql: Seq<char>)
    requires
        creating(sql),
    ensures
        creating(sql + ";"@),
        read_insert(sql + ";"@) is None,
{
    reveal_strlit("CREATE ");
    reveal_strlit("INSERT INTO ");
    let statement = sql + ";"@;
    let word = "CREATE "@;
    assert(statement.take(word.len() as int) =~= sql.take(word.len() as int));
    assert(statement[0] == sql.take(word.len() as int)[0]);
    assert(statement[0] == 'C');
    let other = "INSERT INTO "@;
    if statement.take(other.len() as int) == other && other.len() <= statement.len() {
        assert(statement.take(other.len() as int)[0] == 'I');
    }
}

proof fn lemma_created(
    rows: Seq<SchemaRow>,
    kind: Seq<char>,
    skip_internal: bool,
    table: Seq<char>,
)
    requires
        schema_creates(rows),
    ensures
        inserted(dump::created(rows, kind, skip_internal), table) == Seq::<InsertedRow>::empty(),
        made(dump::created(rows, kind, skip_internal)) == dump::created(rows, kind, skip_internal),
    decreases rows.len(),
{
    if rows.len() > 0 {
        let before = rows.drop_last();
        assert forall|i: int|
            #![trigger before[i]]
            0 <= i < before.len() && before[i].sql is Some implies creating(before[i].sql->0@) by {
            assert(rows[i] == before[i]);
        }
        lemma_created(before, kind, skip_internal, table);
        let row = rows[rows.len() - 1];
        let all = dump::created(rows, kind, skip_internal);
        if dump::creates(row, kind) && !(skip_internal && dump::internal(row.name@)) {
            lemma_creating_inserts_nothing(row.sql->0@);
            assert(all.drop_last() =~= dump::created(before, kind, skip_internal));
        }
    }
}

proof fn lemma_inserts(table: Seq<char>, data: TableRows, other: Seq<char>, n: int)
    requires
        whole_rows(data),
        0 <= n <= data.rows@.len(),
    ensures
        inserted(dump::inserts(table, data).take(n), other) == (if other == table {
            rows_of(table, data).take(n)
        } else {
            Seq::empty()
        }),
        made(dump::inserts(table, data).take(n)) == Seq::<Seq<char>>::empty(),
    decreases n,
{
    let statements = dump::inserts(table, data);
    if n > 0 {
        lemma_inserts(table, data, other, n - 1);
        assert(statements.take(n).drop_last() =~= statements.take(n - 1));
        assert(statements.take(n).last() == statements[n - 1]);
        assert(data.rows@[0]@.len() == data.rows@[n - 1]@.len());
        law_insert_reads_back(table, data.columns@, data.rows@[n - 1]@);
        lemma_insert_creates_nothing(
            table,
            data.columns@,
            data.rows@[n - 1]@,
            data.rows@[n - 1]@.len(),
        );
        assert(rows_of(table, data).take(n) =~= rows_of(table, data).take(n - 1).push(
            rows_of(table, data)[n - 1],
        ));
    } else {
        assert(statements.take(0).len() == 0);
        assert(rows_of(table, data).take(0) =~= Seq::empty());
    }
}

proof fn lemma_insert_creates_nothing(
    table: Seq<char>,
    columns: Seq<String>,
    row: Seq<DumpValue>,
    count: nat,
)
    ensures
        !creating(dump::insert_statement(table, columns, row, count)),
{
    reveal_strlit("CREATE ");
    reveal_strlit("INSERT INTO ");
    let statement = dump::insert_statement(table, columns, row, count);
    assert(statement[0] == 'I');
    if statement.take(7) == "CREATE "@ && 7 <= statement.len() {
        assert(statement.take(7)[0] == 'C');
    }
}

proof fn lemma_all_inserts(
    tables: Seq<Seq<char>>,
    data: Seq<TableRows>,
    table: Seq<char>,
    at: Option<int>,
)
    requires
        tables.len() <= data.len(),
        forall|i: int| 0 <= i < tables.len() ==> whole_rows(#[trigger] data[i]),
        match at {
            Some(at) => 0 <= at < tables.len() && forall|i: int|
                0 <= i < tables.len() ==> (#[trigger] tables[i] == table <==> i == at),
            None => !tables.contains(table),
        },
    ensures
        inserted(dump::all_inserts(tables, data), table) == (match at {
            Some(at) => rows_of(table, data[at]),
            None => Seq::empty(),
        }),
    decreases tables.len(),
{
    if tables.len() > 0 {
        let before = tables.drop_last();
        let last = tables.len() - 1;
        let here = at == Some(last as int);
        let earlier = if here {
            None
        } else {
            at
        };
        assert forall|i: int| 0 <= i < before.len() implies before[i] == #[trigger] tables[i] by {}
        if earlier is None {
            assert forall|i: int| 0 <= i < before.len() implies #[trigger] before[i] != table by {
                assert(before[i] == tables[i]);
                assert(at is None ==> tables.contains(tables[i]));
            }
        } else {
            assert forall|i: int| 0 <= i < before.len() implies (#[trigger] before[i] == table
                <==> i == earlier->0) by {
                assert(before[i] == tables[i]);
            }
        }
        lemma_all_inserts(before, data, table, earlier);
        let more = dump::inserts(tables.last(), data[last]);
        lemma_inserts(tables.last(), data[last], table, data[last].rows@.len() as int);
        assert(more.take(data[last].rows@.len() as int) =~= more);
        assert(tables.last() == tables[last]);
        assert(at is None ==> tables.contains(tables[last]));
        assert(rows_of(table, data[last]).take(data[last].rows@.len() as int) =~= rows_of(
            table,
            data[last],
        ));
        lemma_inserted_concat(dump::all_inserts(before, data), more, table);
    }
}

proof fn lemma_inserts_make_nothing(tables: Seq<Seq<char>>, data: Seq<TableRows>)
    requires
        tables.len() <= data.len(),
        forall|i: int| 0 <= i < tables.len() ==> whole_rows(#[trigger] data[i]),
    ensures
        made(dump::all_inserts(tables, data)) == Seq::<Seq<char>>::empty(),
    decreases tables.len(),
{
    if tables.len() > 0 {
        let before = tables.drop_last();
        let last = tables.len() - 1;
        let more = dump::inserts(tables.last(), data[last]);
        lemma_inserts_make_nothing(before, data);
        lemma_inserts(tables.last(), data[last], tables.last(), data[last].rows@.len() as int);
        assert(more.take(data[last].rows@.len() as int) =~= more);
        lemma_made_concat(dump::all_inserts(before, data), more);
    }
}

proof fn lemma_frame_says_nothing(statement: Seq<char>, table: Seq<char>)
    requires
        statement == "BEGIN TRANSACTION;"@ || statement == "COMMIT;"@,
    ensures
        inserted(seq![statement], table) == Seq::<InsertedRow>::empty(),
        made(seq![statement]) == Seq::<Seq<char>>::empty(),
{
    reveal_strlit("BEGIN TRANSACTION;");
    reveal_strlit("COMMIT;");
    reveal_strlit("CREATE ");
    reveal_strlit("INSERT INTO ");
    let all = seq![statement];
    assert(all.drop_last().len() == 0);
    assert(all.last() == statement);
    let word = "INSERT INTO "@;
    if word.len() <= statement.len() && statement.take(word.len() as int) == word {
        assert(statement.take(word.len() as int)[0] == 'I');
    }
    let other = "CREATE "@;
    if other.len() <= statement.len() && statement.take(other.len() as int) == other {
        assert(statement.take(other.len() as int)[0] == 'C');
        assert(statement.take(other.len() as int)[1] == 'R');
    }
    assert(inserted(all.drop_last(), table) =~= Seq::empty());
    assert(made(all.drop_last()) =~= Seq::empty());
}

/// A dump recreates the schema: it creates every table of the user, and then
/// every index, view and trigger, by the statements that the schema holds, and
/// nothing else.
pub proof fn law_dump_recreates_the_schema(rows: Seq<SchemaRow>, data: Seq<TableRows>)
    requires
        data.len() == dump::user_tables(rows).len(),
        schema_creates(rows),
        forall|i: int| 0 <= i < data.len() ==> whole_rows(#[trigger] data[i]),
    ensures
        made(dump::dump(rows, data)) == dump::created(rows, "table"@, true) + dump::created(
            rows,
            "index"@,
            true,
        ) + dump::created(rows, "view"@, false) + dump::created(rows, "trigger"@, false),
{
    let begin = seq!["BEGIN TRANSACTION;"@];
    let tables = dump::created(rows, "table"@, true);
    let filling = dump::all_inserts(dump::user_tables(rows), data);
    let indexes = dump::created(rows, "index"@, true);
    let views = dump::created(rows, "view"@, false);
    let triggers = dump::created(rows, "trigger"@, false);
    let end = seq!["COMMIT;"@];
    lemma_frame_says_nothing("BEGIN TRANSACTION;"@, Seq::empty());
    lemma_frame_says_nothing("COMMIT;"@, Seq::empty());
    lemma_created(rows, "table"@, true, Seq::empty());
    lemma_created(rows, "index"@, true, Seq::empty());
    lemma_created(rows, "view"@, false, Seq::empty());
    lemma_created(rows, "trigger"@, false, Seq::empty());
    lemma_inserts_make_nothing(dump::user_tables(rows), data);
    lemma_made_concat(begin, tables);
    lemma_made_concat(begin + tables, filling);
    lemma_made_concat(begin + tables + filling, indexes);
    lemma_made_concat(begin + tables + filling + indexes, views);
    lemma_made_concat(begin + tables + filling + indexes + views, triggers);
    lemma_made_concat(begin + tables + filling + indexes + views + triggers, end);
    assert(made(dump::dump(rows, data)) =~= tables + indexes + views + triggers);
}

/// A dump restores the rows: run on an empty database, it inserts into each
/// table the rows that the table has, in their order, with the same values of
/// the same storage classes. Tables have names of their own.
pub proof fn law_dump_restores_rows(rows: Seq<SchemaRow>, data: Seq<TableRows>, at: int)
    requires
        data.len() == dump::user_tables(rows).len(),
        schema_creates(rows),
        forall|i: int| 0 <= i < data.len() ==> whole_rows(#[trigger] data[i]),
        0 <= at < data.len(),
        forall|i: int|
            0 <= i < data.len() && i != at ==> #[trigger] dump::user_tables(rows)[i]
                != dump::user_tables(rows)[at],
    ensures
        inserted(dump::dump(rows, data), dump::user_tables(rows)[at]) == rows_of(
            dump::user_tables(rows)[at],
            data[at],
        ),
{
    lemma_dump_parts(rows, data, dump::user_tables(rows)[at], Some(at));
}

/// No row is inserted once an index, a view or a trigger is there, so that no
/// trigger fires while a dump is run.
pub proof fn law_no_row_behind_a_trigger(
    rows: Seq<SchemaRow>,
    data: Seq<TableRows>,
    table: Seq<char>,
)
    requires
        data.len() == dump::user_tables(rows).len(),
        schema_creates(rows),
    ensures
        inserted(dump::dump(rows, data).skip(dump::rows_end(rows, data)), table) == Seq::<
            InsertedRow,
        >::empty(),
{
    let all = dump::dump(rows, data);
    let k = dump::rows_end(rows, data);
    let indexes = dump::created(rows, "index"@, true);
    let views = dump::created(rows, "view"@, false);
    let triggers = dump::created(rows, "trigger"@, false);
    let end = seq!["COMMIT;"@];
    assert(all.skip(k) =~= indexes + views + triggers + end);
    lemma_frame_says_nothing("COMMIT;"@, table);
    lemma_created(rows, "index"@, true, table);
    lemma_created(rows, "view"@, false, table);
    lemma_created(rows, "trigger"@, false, table);
    lemma_inserted_concat(indexes, views, table);
    lemma_inserted_concat(indexes + views, triggers, table);
    lemma_inserted_concat(indexes + views + triggers, end, table);
}

/// A dump inserts nothing into any other table, such as one that SQLite keeps
/// for itself.
pub proof fn law_dump_fills_no_other_table(
    rows: Seq<SchemaRow>,
    data: Seq<TableRows>,
    table: Seq<char>,
)
    requires
        data.len() == dump::user_tables(rows).len(),
        schema_creates(rows),
        forall|i: int| 0 <= i < data.len() ==> whole_rows(#[trigger] data[i]),
        !dump::user_tables(rows).contains(table),
    ensures
        inserted(dump::dump(rows, data), table) == Seq::<InsertedRow>::empty(),
{
    lemma_dump_parts(rows, data, table, None);
}

proof fn lemma_dump_parts(
    rows: Seq<SchemaRow>,
    data: Seq<TableRows>,
    table: Seq<char>,
    at: Option<int>,
)
    requires
        data.len() == dump::user_tables(rows).len(),
        schema_creates(rows),
        forall|i: int| 0 <= i < data.len() ==> whole_rows(#[trigger] data[i]),
        match at {
            Some(at) => 0 <= at < data.len() && forall|i: int|
                0 <= i < data.len() ==> (#[trigger] dump::user_tables(rows)[i] == table <==> i
                    == at),
            None => !dump::user_tables(rows).contains(table),
        },
    ensures
        inserted(dump::dump(rows, data), table) == (match at {
            Some(at) => rows_of(table, data[at]),
            None => Seq::empty(),
        }),
{
    let begin = seq!["BEGIN TRANSACTION;"@];
    let tables = dump::created(rows, "table"@, true);
    let filling = dump::all_inserts(dump::user_tables(rows), data);
    let indexes = dump::created(rows, "index"@, true);
    let views = dump::created(rows, "view"@, false);
    let triggers = dump::created(rows, "trigger"@, false);
    let end = seq!["COMMIT;"@];
    lemma_frame_says_nothing("BEGIN TRANSACTION;"@, table);
    lemma_frame_says_nothing("COMMIT;"@, table);
    lemma_created(rows, "table"@, true, table);
    lemma_created(rows, "index"@, true, table);
    lemma_created(rows, "view"@, false, table);
    lemma_created(rows, "trigger"@, false, table);
    lemma_all_inserts(dump::user_tables(rows), data, table, at);
    lemma_inserted_concat(begin, tables, table);
    lemma_inserted_concat(begin + tables, filling, table);
    lemma_inserted_concat(begin + tables + filling, indexes, table);
    lemma_inserted_concat(begin + tables + filling + indexes, views, table);
    lemma_inserted_concat(begin + tables + filling + indexes + views, triggers, table);
    lemma_inserted_concat(begin + tables + filling + indexes + views + triggers, end, table);
}

} // verus!
