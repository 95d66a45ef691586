//! Character-level building blocks of the export formats: string escaping
//! and decimal rendering, with their reading counterparts and round-trip
//! proofs.
//!
//! Both export formats delimit text with double quotes and accept the same
//! escapes, so one escape scheme serves them both: `\"` for a quote, `\\`
//! for a backslash, and `\u00XX` for a control character.

use vstd::prelude::*;
use vstd::string::StrSliceExecFns;

verus! {

/// The digit character for a value below sixteen.
pub open spec fn digit_of(n: int) -> char {
    if n == 0 {
        '0'
    } else if n == 1 {
        '1'
    } else if n == 2 {
        '2'
    } else if n == 3 {
        '3'
    } else if n == 4 {
        '4'
    } else if n == 5 {
        '5'
    } else if n == 6 {
        '6'
    } else if n == 7 {
        '7'
    } else if n == 8 {
        '8'
    } else if n == 9 {
        '9'
    } else if n == 10 {
        'a'
    } else if n == 11 {
        'b'
    } else if n == 12 {
        'c'
    } else if n == 13 {
        'd'
    } else if n == 14 {
        'e'
    } else {
        'f'
    }
}

/// Whether `c` is a decimal digit.
pub open spec fn is_dec(c: char) -> bool {
    c == '0' || c == '1' || c == '2' || c == '3' || c == '4' || c == '5' || c == '6' || c == '7'
        || c == '8' || c == '9'
}

/// Whether `c` is a lower-case hexadecimal digit.
pub open spec fn is_hex(c: char) -> bool {
    is_dec(c) || c == 'a' || c == 'b' || c == 'c' || c == 'd' || c == 'e' || c == 'f'
}

/// The value of a hexadecimal digit character.
pub open spec fn val_of(c: char) -> int {
    if c == '0' {
        0
    } else if c == '1' {
        1
    } else if c == '2' {
        2
    } else if c == '3' {
        3
    } else if c == '4' {
        4
    } else if c == '5' {
        5
    } else if c == '6' {
        6
    } else if c == '7' {
        7
    } else if c == '8' {
        8
    } else if c == '9' {
        9
    } else if c == 'a' {
        10
    } else if c == 'b' {
        11
    } else if c == 'c' {
        12
    } else if c == 'd' {
        13
    } else if c == 'e' {
        14
    } else {
        15
    }
}

/// The character with code point `n`, for small code points.
pub open spec fn char_of_code(n: int) -> char {
    (n as u32) as char
}

/// How one character appears inside a quoted string of the export formats.
pub open spec fn escape_char(c: char) -> Seq<char> {
    if c == '"' {
        seq!['\\', '"']
    } else if c == '\\' {
        seq!['\\', '\\']
    } else if (c as u32) < 32 {
        seq!['\\', 'u', '0', '0', digit_of((c as u32) as int / 16), digit_of((c as u32) as int % 16)]
    } else {
        seq![c]
    }
}

/// How a whole text appears inside a quoted string of the export formats.
pub open spec fn escape(s: Seq<char>) -> Seq<char>
    decreases s.len(),
{
    if s.len() == 0 {
        Seq::empty()
    } else {
        escape_char(s.first()) + escape(s.drop_first())
    }
}

proof fn lemma_escape_snoc(s: Seq<char>, c: char)
    ensures
        escape(s.push(c)) == escape(s) + escape_char(c),
    decreases s.len(),
{
    if s.len() == 0 {
        assert(s.push(c).first() == c);
        assert(s.push(c).drop_first() =~= Seq::<char>::empty());
        assert(escape(Seq::<char>::empty()) == Seq::<char>::empty());
        assert(escape(s.push(c)) =~= escape(s) + escape_char(c));
    } else {
        lemma_escape_snoc(s.drop_first(), c);
        assert(s.push(c).drop_first() =~= s.drop_first().push(c));
        assert(s.push(c).first() == s.first());
        assert(escape(s.push(c)) =~= escape(s) + escape_char(c));
    }
}

/// The decimal rendering of a number, most significant digit first.
pub open spec fn dec_digits(n: nat) -> Seq<char>
    decreases n,
{
    if n < 10 {
        seq![digit_of(n as int)]
    } else {
        dec_digits(n / 10) + seq![digit_of((n % 10) as int)]
    }
}

/// Relies on String::push: appends exactly one character.
#[verifier::external_body]
fn push_char(out: &mut String, c: char)
    ensures
        final (out)@ == old(out)@ + seq![c],
{
    out.push(c);
}

/// The digit character for a value below sixteen.
fn digit_char(n: u64) -> (r: char)
    requires
        n < 16,
    ensures
        r == digit_of(n as int),
{
    if n == 0 {
        '0'
    } else if n == 1 {
        '1'
    } else if n == 2 {
        '2'
    } else if n == 3 {
        '3'
    } else if n == 4 {
        '4'
    } else if n == 5 {
        '5'
    } else if n == 6 {
        '6'
    } else if n == 7 {
        '7'
    } else if n == 8 {
        '8'
    } else if n == 9 {
        '9'
    } else if n == 10 {
        'a'
    } else if n == 11 {
        'b'
    } else if n == 12 {
        'c'
    } else if n == 13 {
        'd'
    } else if n == 14 {
        'e'
    } else {
        'f'
    }
}

/// Append the escaped form of `s` to `out`.
pub fn push_escaped(out: &mut String, s: &str)
    ensures
        final (out)@ == old(out)@ + escape(s@),
{
    let n = s.unicode_len();
    let mut i: usize = 0;
    proof {
        assert(s@.take(0) =~= Seq::<char>::empty());
        assert(escape(s@.take(0)) =~= Seq::<char>::empty());
        assert(out@ =~= old(out)@ + escape(s@.take(0)));
    }
    while i < n
        invariant
            i <= n,
            n == s@.len(),
            out@ == old(out)@ + escape(s@.take(i as int)),
        decreases n - i,
    {
        let c = s.get_char(i);
        if c == '"' {
            push_char(out, '\\');
            push_char(out, '"');
        } else if c == '\\' {
            push_char(out, '\\');
            push_char(out, '\\');
        } else if (c as u32) < 32 {
            let code = c as u32;
            push_char(out, '\\');
            push_char(out, 'u');
            push_char(out, '0');
            push_char(out, '0');
            push_char(out, digit_char((code / 16) as u64));
            push_char(out, digit_char((code % 16) as u64));
        } else {
            push_char(out, c);
        }
        proof {
            lemma_escape_snoc(s@.take(i as int), c);
            assert(s@.take(i + 1) =~= s@.take(i as int).push(c));
            assert(out@ =~= old(out)@ + escape(s@.take(i + 1)));
        }
        i = i + 1;
    }
    proof {
        assert(s@.take(n as int) =~= s@);
    }
}

/// Append the decimal rendering of `n` to `out`.
pub fn push_decimal(out: &mut String, n: u64)
    ensures
        final (out)@ == old(out)@ + dec_digits(n as nat),
    decreases n,
{
    if n < 10 {
        push_char(out, digit_char(n));
    } else {
        push_decimal(out, n / 10);
        push_char(out, digit_char(n % 10));
        proof {
            assert(final (out)@ =~= old(out)@ + dec_digits(n as nat));
        }
    }
}

/// Read a quoted string's remainder: the text up to and including the
/// closing quote, under the escape scheme above. Yields the text and the
/// count of characters consumed.
pub open spec fn read_quoted(s: Seq<char>) -> Option<(Seq<char>, int)>
    decreases s.len(),
{
    if s.len() == 0 {
        None
    } else if s.first() == '"' {
        Some((Seq::empty(), 1))
    } else if s.first() == '\\' {
        if s.len() >= 2 && (s[1] == '"' || s[1] == '\\') {
            match read_quoted(s.skip(2)) {
                Some((t, k)) => Some((seq![s[1]] + t, k + 2)),
                None => None,
            }
        } else if s.len() >= 6 && s[1] == 'u' && s[2] == '0' && s[3] == '0' && is_hex(s[4])
            && is_hex(s[5]) && val_of(s[4]) * 16 + val_of(s[5]) < 32 {
            match read_quoted(s.skip(6)) {
                Some((t, k)) => Some((seq![char_of_code(val_of(s[4]) * 16 + val_of(s[5]))] + t, k + 6)),
                None => None,
            }
        } else {
            None
        }
    } else if (s.first() as u32) < 32 {
        None
    } else {
        match read_quoted(s.drop_first()) {
            Some((t, k)) => Some((seq![s.first()] + t, k + 1)),
            None => None,
        }
    }
}

/// Reading back an escaped text followed by its closing quote yields the
/// text itself, whatever follows the quote.
pub proof fn lemma_read_quoted_round_trip(s: Seq<char>, rest: Seq<char>)
    ensures
        read_quoted(escape(s) + seq!['"'] + rest) matches Some((t, k)) && t == s && k == escape(
            s,
        ).len() + 1,
    decreases s.len(),
{
    broadcast use vstd::utf8::char_u32_cast;

    let input = escape(s) + seq!['"'] + rest;
    if s.len() == 0 {
        assert(input.first() == '"');
        assert(read_quoted(input) matches Some((t, k)) && t =~= s && k == 1);
    } else {
        let c = s.first();
        let tail = s.drop_first();
        lemma_read_quoted_round_trip(tail, rest);
        let sub = escape(tail) + seq!['"'] + rest;
        assert(escape(s) == escape_char(c) + escape(tail));
        if c == '"' || c == '\\' {
            assert(input[0] == '\\');
            assert(input[1] == c);
            assert(input.skip(2) =~= sub);
            assert(read_quoted(input) matches Some((t, k)) && t =~= s && k == escape(s).len() + 1);
        } else if (c as u32) < 32 {
            let code = (c as u32) as int;
            assert(input[0] == '\\');
            assert(input[1] == 'u');
            assert(input[2] == '0');
            assert(input[3] == '0');
            assert(input[4] == digit_of(code / 16));
            assert(input[5] == digit_of(code % 16));
            assert(is_hex(input[4]) && val_of(input[4]) == code / 16);
            assert(is_hex(input[5]) && val_of(input[5]) == code % 16);
            assert(val_of(input[4]) * 16 + val_of(input[5]) == code);
            vstd::utf8::char_u32_cast(c, c as u32);
            assert(char_of_code(code) == c);
            assert(input.skip(6) =~= sub);
            assert(read_quoted(input) matches Some((t, k)) && t =~= s && k == escape(s).len() + 1);
        } else {
            assert(input.first() == c);
            assert(input.drop_first() =~= sub);
            assert(read_quoted(input) matches Some((t, k)) && t =~= s && k == escape(s).len() + 1);
        }
    }
}

/// The length of the leading run of decimal digits.
pub open spec fn digit_run(s: Seq<char>) -> int
    decreases s.len(),
{
    if s.len() == 0 || !is_dec(s.first()) {
        0
    } else {
        1 + digit_run(s.drop_first())
    }
}

/// The number a digit string denotes.
pub open spec fn dec_value(ds: Seq<char>) -> int
    decreases ds.len(),
{
    if ds.len() == 0 {
        0
    } else {
        dec_value(ds.drop_last()) * 10 + val_of(ds.last())
    }
}

/// Read a leading decimal number: its value and the count of characters
/// consumed, or `None` when no digit leads.
pub open spec fn read_decimal(s: Seq<char>) -> Option<(int, int)> {
    if digit_run(s) == 0 {
        None
    } else {
        Some((dec_value(s.take(digit_run(s))), digit_run(s)))
    }
}

proof fn lemma_dec_digits_are_digits(n: nat)
    ensures
        forall|i: int| 0 <= i < dec_digits(n).len() ==> is_dec(#[trigger] dec_digits(n)[i]),
        dec_digits(n).len() >= 1,
    decreases n,
{
    if n >= 10 {
        lemma_dec_digits_are_digits(n / 10);
        assert forall|i: int| 0 <= i < dec_digits(n).len() implies is_dec(
            #[trigger] dec_digits(n)[i],
        ) by {
            if i < dec_digits(n / 10).len() {
                assert(dec_digits(n)[i] == dec_digits(n / 10)[i]);
            } else {
                assert(dec_digits(n)[i] == digit_of((n % 10) as int));
            }
        }
    }
}

proof fn lemma_digit_run_of_digits(a: Seq<char>, rest: Seq<char>)
    requires
        forall|i: int| 0 <= i < a.len() ==> is_dec(#[trigger] a[i]),
        rest.len() == 0 || !is_dec(rest.first()),
    ensures
        digit_run(a + rest) == a.len(),
    decreases a.len(),
{
    if a.len() == 0 {
        assert(a + rest =~= rest);
        if rest.len() > 0 {
            assert(!is_dec((a + rest).first()));
        }
    } else {
        lemma_digit_run_of_digits(a.drop_first(), rest);
        assert((a + rest).first() == a[0]);
        assert((a + rest).drop_first() =~= a.drop_first() + rest);
    }
}

proof fn lemma_dec_value_of_digits(n: nat)
    ensures
        dec_value(dec_digits(n)) == n,
    decreases n,
{
    if n < 10 {
        assert(dec_digits(n).drop_last() =~= Seq::<char>::empty());
        assert(dec_value(Seq::<char>::empty()) == 0);
        assert(dec_digits(n).last() == digit_of(n as int));
        assert(val_of(digit_of(n as int)) == n);
    } else {
        lemma_dec_value_of_digits(n / 10);
        assert(dec_digits(n).drop_last() =~= dec_digits(n / 10));
        assert(dec_digits(n).last() == digit_of((n % 10) as int));
        assert(val_of(digit_of((n % 10) as int)) == n % 10);
        assert(n / 10 * 10 + n % 10 == n) by (nonlinear_arith);
    }
}

/// Reading back a rendered decimal yields the number itself, provided what
/// follows does not begin with a digit.
pub proof fn lemma_read_decimal_round_trip(n: nat, rest: Seq<char>)
    requires
        rest.len() == 0 || !is_dec(rest.first()),
    ensures
        read_decimal(dec_digits(n) + rest) matches Some((v, k)) && v == n && k == dec_digits(
            n,
        ).len(),
{
    lemma_dec_digits_are_digits(n);
    lemma_digit_run_of_digits(dec_digits(n), rest);
    lemma_dec_value_of_digits(n);
    assert((dec_digits(n) + rest).take(dec_digits(n).len() as int) =~= dec_digits(n));
}

} // verus!
