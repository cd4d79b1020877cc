use vstd::prelude::*;

verus! {

// ---------------------------------------------------------------------------
// Strings: escaping on the way out, unescaping on the way back.
// ---------------------------------------------------------------------------

/// How one character is written inside a quoted string: quotes and
/// backslashes take a backslash in front, everything else stands as it is.
pub open spec fn escape_char(c: char) -> Seq<char> {
    if c == '"' || c == '\\' {
        seq!['\\', c]
    } else {
        seq![c]
    }
}

/// A whole text, escaped character by character.
pub open spec fn escape_seq(s: Seq<char>) -> Seq<char>
    decreases s.len(),
{
    if s.len() == 0 {
        Seq::<char>::empty()
    } else {
        escape_char(s[0]) + escape_seq(s.drop_first())
    }
}

/// A quoted string: the escaped text between two quotes.
pub open spec fn encode_string(s: Seq<char>) -> Seq<char> {
    seq!['"'] + escape_seq(s) + seq!['"']
}

/// Escaping distributes over concatenation.
pub proof fn lemma_escape_append(a: Seq<char>, b: Seq<char>)
    ensures
        escape_seq(a + b) == escape_seq(a) + escape_seq(b),
    decreases a.len(),
{
    if a.len() == 0 {
        assert(a + b =~= b);
        assert(escape_seq(a) + escape_seq(b) =~= escape_seq(b));
    } else {
        assert((a + b).drop_first() =~= a.drop_first() + b);
        lemma_escape_append(a.drop_first(), b);
        assert(escape_char((a + b)[0]) + (escape_seq(a.drop_first()) + escape_seq(b))
            =~= (escape_char(a[0]) + escape_seq(a.drop_first())) + escape_seq(b));
    }
}

/// Reading a quoted string's body: the input begins right after the opening
/// quote; the result is the unescaped content and what follows the closing
/// quote. `None` where no well-formed closing quote is found.
pub open spec fn parse_string_body(s: Seq<char>) -> Option<(Seq<char>, Seq<char>)>
    decreases s.len(),
{
    if s.len() == 0 {
        None
    } else if s[0] == '"' {
        Some((Seq::<char>::empty(), s.drop_first()))
    } else if s[0] == '\\' {
        if s.len() >= 2 && (s[1] == '"' || s[1] == '\\') {
            match parse_string_body(s.skip(2)) {
                Some(p) => Some((seq![s[1]] + p.0, p.1)),
                None => None,
            }
        } else {
            None
        }
    } else {
        match parse_string_body(s.drop_first()) {
            Some(p) => Some((seq![s[0]] + p.0, p.1)),
            None => None,
        }
    }
}

/// Unescaping undoes escaping: the body parser, fed an escaped text, its
/// closing quote and anything after, gives the text back and leaves the
/// trailer untouched.
pub proof fn lemma_parse_escaped(t: Seq<char>, rest: Seq<char>)
    ensures
        parse_string_body(escape_seq(t) + seq!['"'] + rest) == Some((t, rest)),
    decreases t.len(),
{
    let s = escape_seq(t) + seq!['"'] + rest;
    if t.len() == 0 {
        assert(s =~= seq!['"'] + rest);
        assert(s[0] == '"');
        assert(s.drop_first() =~= rest);
    } else {
        let c = t[0];
        lemma_parse_escaped(t.drop_first(), rest);
        if c == '"' || c == '\\' {
            assert(escape_seq(t) =~= seq!['\\', c] + escape_seq(t.drop_first()));
            assert(s[0] == '\\');
            assert(s[1] == c);
            assert(s.skip(2) =~= escape_seq(t.drop_first()) + seq!['"'] + rest);
            assert(seq![c] + t.drop_first() =~= t);
        } else {
            assert(escape_seq(t) =~= seq![c] + escape_seq(t.drop_first()));
            assert(s[0] == c);
            assert(s.drop_first() =~= escape_seq(t.drop_first()) + seq!['"'] + rest);
            assert(seq![c] + t.drop_first() =~= t);
        }
    }
}

// ---------------------------------------------------------------------------
// Numbers: unsigned decimals.
// ---------------------------------------------------------------------------

pub open spec fn is_digit(c: char) -> bool {
    '0' <= c && c <= '9'
}

/// The character for one decimal digit.
pub open spec fn digit_char(d: int) -> char {
    if d == 0 {
        '0'
    } else if d == 1 {
        '1'
    } else if d == 2 {
        '2'
    } else if d == 3 {
        '3'
    } else if d == 4 {
        '4'
    } else if d == 5 {
        '5'
    } else if d == 6 {
        '6'
    } else if d == 7 {
        '7'
    } else if d == 8 {
        '8'
    } else {
        '9'
    }
}

/// The value of one decimal digit character.
pub open spec fn digit_val(c: char) -> int {
    if c == '0' {
        0
    } else if c == '1' {
        1
    } else if c == '2' {
        2
    } else if c == '3' {
        3
    } else if c == '4' {
        4
    } else if c == '5' {
        5
    } else if c == '6' {
        6
    } else if c == '7' {
        7
    } else if c == '8' {
        8
    } else {
        9
    }
}

/// A non-negative number written out in decimal, most significant digit
/// first, no leading zeroes but for zero itself.
pub open spec fn decimal_digits(n: int) -> Seq<char>
    decreases n,
{
    if n < 10 {
        seq![digit_char(n)]
    } else {
        decimal_digits(n / 10).push(digit_char(n % 10))
    }
}

/// The value of a run of digit characters, read most significant first.
pub open spec fn digits_value(d: Seq<char>) -> int
    decreases d.len(),
{
    if d.len() == 0 {
        0
    } else {
        digits_value(d.drop_last()) * 10 + digit_val(d.last())
    }
}

/// How many leading characters of the input are digits.
pub open spec fn digit_prefix_len(s: Seq<char>) -> int
    decreases s.len(),
{
    if s.len() == 0 || !is_digit(s[0]) {
        0
    } else {
        1 + digit_prefix_len(s.drop_first())
    }
}

/// Reading an unsigned decimal off the front of the input: its value and
/// what follows the digits. `None` where no digit leads, or the run of
/// digits exceeds the machine's range.
pub open spec fn parse_u64(s: Seq<char>) -> Option<(u64, Seq<char>)> {
    let k = digit_prefix_len(s);
    if k == 0 {
        None
    } else if digits_value(s.take(k)) > u64::MAX {
        None
    } else {
        Some((digits_value(s.take(k)) as u64, s.skip(k)))
    }
}

/// Every character a number is written with is a digit.
pub proof fn lemma_decimal_digits_are_digits(n: int)
    requires
        n >= 0,
    ensures
        forall|i: int| 0 <= i < decimal_digits(n).len() ==> is_digit(#[trigger] decimal_digits(n)[i]),
    decreases n,
{
    if n < 10 {
        assert(decimal_digits(n) == seq![digit_char(n)]);
        assert(is_digit(digit_char(n)));
    } else {
        lemma_decimal_digits_are_digits(n / 10);
        let d0 = decimal_digits(n / 10);
        let d = decimal_digits(n);
        assert(d == d0.push(digit_char(n % 10)));
        assert forall|i: int| 0 <= i < d.len() implies is_digit(#[trigger] d[i]) by {
            if i < d0.len() {
                assert(d[i] == d0[i]);
            } else {
                assert(d[i] == digit_char(n % 10));
            }
        }
    }
}

/// The digit run of digits followed by a non-digit is exactly those digits.
pub proof fn lemma_digit_prefix_of_digits(d: Seq<char>, rest: Seq<char>)
    requires
        forall|i: int| 0 <= i < d.len() ==> is_digit(#[trigger] d[i]),
        rest.len() == 0 || !is_digit(rest[0]),
    ensures
        digit_prefix_len(d + rest) == d.len(),
    decreases d.len(),
{
    if d.len() == 0 {
        assert(d + rest =~= rest);
    } else {
        assert((d + rest)[0] == d[0]);
        assert((d + rest).drop_first() =~= d.drop_first() + rest);
        lemma_digit_prefix_of_digits(d.drop_first(), rest);
    }
}

/// Reading back the digits of a number gives the number.
pub proof fn lemma_digits_value_of_decimal(n: int)
    requires
        n >= 0,
    ensures
        digits_value(decimal_digits(n)) == n,
    decreases n,
{
    if n < 10 {
        let d = decimal_digits(n);
        assert(d.drop_last() =~= Seq::<char>::empty());
        assert(d.last() == digit_char(n));
        assert(digit_val(digit_char(n)) == n);
        assert(digits_value(d) == digits_value(d.drop_last()) * 10 + digit_val(d.last()));
    } else {
        lemma_digits_value_of_decimal(n / 10);
        let d = decimal_digits(n);
        assert(d == decimal_digits(n / 10).push(digit_char(n % 10)));
        assert(d.drop_last() =~= decimal_digits(n / 10));
        assert(d.last() == digit_char(n % 10));
        assert(digit_val(digit_char(n % 10)) == n % 10);
        assert(digits_value(d) == digits_value(d.drop_last()) * 10 + digit_val(d.last()));
        assert(digits_value(d) == (n / 10) * 10 + n % 10);
        assert((n / 10) * 10 + n % 10 == n) by (nonlinear_arith)
            requires n >= 10;
    }
}

/// Appending digits never shrinks the value read.
pub proof fn lemma_digits_value_monotone(d: Seq<char>, m: int)
    requires
        0 <= m <= d.len(),
        forall|i: int| 0 <= i < d.len() ==> is_digit(#[trigger] d[i]),
    ensures
        digits_value(d.take(m)) <= digits_value(d),
        digits_value(d) >= 0,
    decreases d.len(),
{
    if d.len() == 0 {
    } else {
        lemma_digits_value_monotone(d.drop_last(), if m <= d.len() - 1 { m } else { m - 1 });
        assert(digit_val(d.last()) >= 0);
        if m <= d.len() - 1 {
            assert(d.take(m) =~= d.drop_last().take(m));
        } else {
            assert(d.take(m) =~= d);
        }
    }
}

/// Reading undoes writing: the number parser, fed a written number and a
/// trailer that does not begin with a digit, gives the number back.
pub proof fn lemma_parse_decimal(n: u64, rest: Seq<char>)
    requires
        rest.len() == 0 || !is_digit(rest[0]),
    ensures
        parse_u64(decimal_digits(n as int) + rest) == Some((n, rest)),
{
    let d = decimal_digits(n as int);
    let s = d + rest;
    lemma_decimal_digits_are_digits(n as int);
    lemma_digit_prefix_of_digits(d, rest);
    assert(d.len() >= 1) by {
        if n >= 10 {
            assert(decimal_digits(n as int) == decimal_digits(n as int / 10).push(
                digit_char(n as int % 10),
            ));
        }
    }
    assert(s.take(d.len() as int) =~= d);
    assert(s.skip(d.len() as int) =~= rest);
    lemma_digits_value_of_decimal(n as int);
}

// ---------------------------------------------------------------------------
// Fixed literals: punctuation, field names, variant tags.
// ---------------------------------------------------------------------------

/// Match a fixed literal at the front of the input: what follows it on a
/// match, `None` otherwise.
pub open spec fn spec_expect(s: Seq<char>, lit: Seq<char>) -> Option<Seq<char>> {
    if lit.len() <= s.len() && s.take(lit.len() as int) == lit {
        Some(s.skip(lit.len() as int))
    } else {
        None
    }
}

/// A literal put in front of anything matches there, leaving the rest.
pub proof fn lemma_expect_prefix(lit: Seq<char>, rest: Seq<char>)
    ensures
        spec_expect(lit + rest, lit) == Some(rest),
{
    assert((lit + rest).take(lit.len() as int) =~= lit);
    assert((lit + rest).skip(lit.len() as int) =~= rest);
}

/// An input that differs from the literal inside the literal's length does
/// not match it.
pub proof fn lemma_expect_mismatch(s: Seq<char>, lit: Seq<char>, k: int)
    requires
        0 <= k < lit.len(),
        k < s.len() ==> s[k] != lit[k],
    ensures
        spec_expect(s, lit) is None,
{
    if lit.len() <= s.len() && s.take(lit.len() as int) == lit {
        assert(s.take(lit.len() as int)[k] == s[k]);
    }
}

// ---------------------------------------------------------------------------
// Executable reading and writing.
// ---------------------------------------------------------------------------

/// Append one character to a text.
///
/// Relies on String::push: appends the given character to the end of the
/// string.
#[verifier::external_body]
pub fn push_char(out: &mut String, c: char)
    ensures
        final(out)@ == old(out)@.push(c),
{
    out.push(c);
}

/// The characters of a text, as a vector the parser can index.
pub fn str_chars(s: &str) -> (r: Vec<char>)
    ensures
        r@ == s@,
{
    let n = s.unicode_len();
    let mut r: Vec<char> = Vec::new();
    let mut i: usize = 0;
    while i < n
        invariant
            n == s@.len(),
            i <= n,
            r@ =~= s@.subrange(0, i as int),
        decreases n - i,
    {
        r.push(s.get_char(i));
        i = i + 1;
    }
    proof {
        assert(r@ =~= s@);
    }
    r
}

/// Write a text as a quoted, escaped string onto the end of `out`.
pub fn encode_string_onto(out: &mut String, s: &str)
    ensures
        final(out)@ == old(out)@ + encode_string(s@),
{
    let n = s.unicode_len();
    push_char(out, '"');
    let mut i: usize = 0;
    while i < n
        invariant
            n == s@.len(),
            i <= n,
            out@ =~= old(out)@ + seq!['"'] + escape_seq(s@.subrange(0, i as int)),
        decreases n - i,
    {
        let c = s.get_char(i);
        proof {
            let one = seq![s@[i as int]];
            assert(s@.subrange(0, i as int + 1) =~= s@.subrange(0, i as int) + one);
            lemma_escape_append(s@.subrange(0, i as int), one);
            assert(one.drop_first() =~= Seq::<char>::empty());
            assert(escape_seq(one) == escape_char(one[0]) + escape_seq(one.drop_first()));
            assert(one[0] == s@[i as int]);
            assert(escape_char(s@[i as int]) + Seq::<char>::empty() =~= escape_char(
                s@[i as int],
            ));
        }
        let ghost mid = out@;
        if c == '"' || c == '\\' {
            push_char(out, '\\');
            push_char(out, c);
            proof {
                assert(out@ =~= mid + escape_char(s@[i as int]));
            }
        } else {
            push_char(out, c);
            proof {
                assert(out@ =~= mid + escape_char(s@[i as int]));
            }
        }
        proof {
            assert(out@ =~= old(out)@ + seq!['"'] + escape_seq(s@.subrange(0, i as int + 1)));
        }
        i = i + 1;
    }
    push_char(out, '"');
    proof {
        assert(s@.subrange(0, s@.len() as int) =~= s@);
        assert(old(out)@ + seq!['"'] + escape_seq(s@) + seq!['"'] =~= old(out)@ + encode_string(
            s@,
        ));
    }
}

/// The character for one digit, executable.
fn digit_char_exec(d: u64) -> (c: char)
    requires
        d < 10,
    ensures
        c == digit_char(d as int),
{
    match d {
        0 => '0',
        1 => '1',
        2 => '2',
        3 => '3',
        4 => '4',
        5 => '5',
        6 => '6',
        7 => '7',
        8 => '8',
        _ => '9',
    }
}

/// Write a number in decimal onto the end of `out`.
pub fn encode_u64_onto(out: &mut String, n: u64)
    ensures
        final(out)@ == old(out)@ + decimal_digits(n as int),
    decreases n,
{
    if n >= 10 {
        encode_u64_onto(out, n / 10);
    }
    push_char(out, digit_char_exec(n % 10));
    proof {
        if n < 10 {
            assert(old(out)@.push(digit_char(n as int)) =~= old(out)@ + decimal_digits(n as int));
        } else {
            assert(old(out)@ + decimal_digits(n as int / 10).push(digit_char(n as int % 10))
                =~= (old(out)@ + decimal_digits(n as int / 10)).push(digit_char(n as int % 10)));
            assert(decimal_digits(n as int) == decimal_digits(n as int / 10).push(
                digit_char(n as int % 10),
            ));
        }
    }
}

/// Match a fixed literal at position `i`; the position after it on a match.
pub fn expect_lit(v: &Vec<char>, i: usize, lit: &str) -> (r: Option<usize>)
    requires
        i <= v@.len(),
    ensures
        match r {
            Some(j) => {
                &&& i <= j <= v@.len()
                &&& spec_expect(v@.skip(i as int), lit@) == Some(v@.skip(j as int))
            },
            None => spec_expect(v@.skip(i as int), lit@) is None,
        },
{
    let n = lit.unicode_len();
    let vn = v.len();
    if n > vn - i {
        proof {
            assert(v@.skip(i as int).len() < lit@.len());
        }
        return None;
    }
    let mut k: usize = 0;
    while k < n
        invariant
            n == lit@.len(),
            vn == v@.len(),
            i + n <= vn,
            k <= n,
            forall|m: int| 0 <= m < k ==> v@[i + m] == lit@[m],
        decreases n - k,
    {
        if v[i + k] != lit.get_char(k) {
            proof {
                assert(v@.skip(i as int)[k as int] == v@[i + k]);
                lemma_expect_mismatch(v@.skip(i as int), lit@, k as int);
            }
            return None;
        }
        k = k + 1;
    }
    proof {
        assert(v@.skip(i as int).take(lit@.len() as int) =~= lit@);
        assert(v@.skip(i as int).skip(lit@.len() as int) =~= v@.skip(i as int + n as int));
    }
    Some(i + n)
}

/// Read a quoted, escaped string at position `i`: its unescaped content and
/// the position after the closing quote.
pub fn parse_string_at(v: &Vec<char>, i: usize) -> (r: Option<(String, usize)>)
    requires
        i <= v@.len(),
    ensures
        match r {
            Some(p) => {
                &&& i <= p.1 <= v@.len()
                &&& v@.skip(i as int).len() > 0
                &&& v@.skip(i as int)[0] == '"'
                &&& parse_string_body(v@.skip(i as int + 1)) == Some(
                    (p.0@, v@.skip(p.1 as int)),
                )
            },
            None => v@.skip(i as int).len() == 0 || v@.skip(i as int)[0] != '"'
                || parse_string_body(v@.skip(i as int + 1)) is None,
        },
{
    if i >= v.len() || v[i] != '"' {
        return None;
    }
    let mut out = String::new();
    let mut j: usize = i + 1;
    proof {
        assert(v@.skip(i as int)[0] == v@[i as int]);
        if parse_string_body(v@.skip(i as int + 1)) is Some {
            let p = parse_string_body(v@.skip(i as int + 1)).unwrap();
            assert(out@ + p.0 =~= p.0);
        }
    }
    loop
        invariant
            i < v@.len(),
            v@[i as int] == '"',
            i + 1 <= j <= v@.len(),
            match parse_string_body(v@.skip(j as int)) {
                Some(p) => parse_string_body(v@.skip(i as int + 1)) == Some((out@ + p.0, p.1)),
                None => parse_string_body(v@.skip(i as int + 1)) is None,
            },
        decreases v@.len() - j,
    {
        if j >= v.len() {
            proof {
                assert(v@.skip(j as int).len() == 0);
            }
            return None;
        }
        let c = v[j];
        proof {
            assert(v@.skip(j as int)[0] == c);
        }
        if c == '"' {
            proof {
                assert(v@.skip(i as int)[0] == v@[i as int]);
                assert(v@.skip(j as int).drop_first() =~= v@.skip(j as int + 1));
                assert(out@ + Seq::<char>::empty() =~= out@);
                assert(parse_string_body(v@.skip(j as int)) == Some(
                    (Seq::<char>::empty(), v@.skip(j as int + 1)),
                ));
                assert(parse_string_body(v@.skip(i as int + 1)) == Some(
                    (out@, v@.skip(j as int + 1)),
                ));
            }
            return Some((out, j + 1));
        } else if c == '\\' {
            if j + 1 < v.len() {
                let e = v[j + 1];
                proof {
                    assert(v@.skip(j as int)[1] == e);
                    assert(v@.skip(j as int).len() >= 2);
                }
                if e == '"' || e == '\\' {
                    proof {
                        assert(v@.skip(j as int).skip(2) =~= v@.skip(j as int + 2));
                        if parse_string_body(v@.skip(j as int + 2)) is Some {
                            let p = parse_string_body(v@.skip(j as int + 2)).unwrap();
                            assert(out@ + (seq![e] + p.0) =~= out@.push(e) + p.0);
                        }
                    }
                    push_char(&mut out, e);
                    j = j + 2;
                } else {
                    return None;
                }
            } else {
                proof {
                    assert(v@.skip(j as int).len() < 2);
                }
                return None;
            }
        } else {
            proof {
                assert(v@.skip(j as int).drop_first() =~= v@.skip(j as int + 1));
                if parse_string_body(v@.skip(j as int + 1)) is Some {
                    let p = parse_string_body(v@.skip(j as int + 1)).unwrap();
                    assert(out@ + (seq![c] + p.0) =~= out@.push(c) + p.0);
                }
            }
            push_char(&mut out, c);
            j = j + 1;
        }
    }
}

/// The value of one digit character, executable.
fn digit_val_exec(c: char) -> (d: u64)
    requires
        is_digit(c),
    ensures
        d == digit_val(c),
        d < 10,
{
    match c {
        '0' => 0,
        '1' => 1,
        '2' => 2,
        '3' => 3,
        '4' => 4,
        '5' => 5,
        '6' => 6,
        '7' => 7,
        '8' => 8,
        _ => 9,
    }
}

/// Read an unsigned decimal at position `i`: its value and the position
/// after the digits. `None` where no digit leads or the number overflows.
pub fn parse_u64_at(v: &Vec<char>, i: usize) -> (r: Option<(u64, usize)>)
    requires
        i <= v@.len(),
    ensures
        match r {
            Some(p) => {
                &&& i <= p.1 <= v@.len()
                &&& parse_u64(v@.skip(i as int)) == Some((p.0, v@.skip(p.1 as int)))
            },
            None => parse_u64(v@.skip(i as int)) is None,
        },
{
    if i >= v.len() || !(v[i] >= '0' && v[i] <= '9') {
        proof {
            let s = v@.skip(i as int);
            if s.len() > 0 {
                assert(s[0] == v@[i as int]);
            }
            assert(digit_prefix_len(s) == 0);
        }
        return None;
    }
    let ghost s = v@.skip(i as int);
    let mut acc: u64 = 0;
    let mut j: usize = i;
    proof {
        assert(s[0] == v@[i as int]);
        lemma_digit_prefix_le_len(s.drop_first());
        assert(digit_prefix_len(s) == 1 + digit_prefix_len(s.drop_first()));
        assert(v@.subrange(i as int, i as int) =~= Seq::<char>::empty());
    }
    loop
        invariant
            i <= j <= v@.len(),
            s == v@.skip(i as int),
            forall|m: int| i <= m < j ==> is_digit(#[trigger] v@[m]),
            acc as int == digits_value(v@.subrange(i as int, j as int)),
            digit_prefix_len(s) == (j - i) + digit_prefix_len(v@.skip(j as int)),
            j == i ==> digit_prefix_len(s) > 0,
        decreases v@.len() - j,
    {
        if j < v.len() && v[j] >= '0' && v[j] <= '9' {
            let d = digit_val_exec(v[j]);
            proof {
                assert(v@.skip(j as int)[0] == v@[j as int]);
                assert(v@.skip(j as int).drop_first() =~= v@.skip(j as int + 1));
                lemma_digit_prefix_le_len(v@.skip(j as int + 1));
                assert(digit_prefix_len(v@.skip(j as int)) == 1 + digit_prefix_len(
                    v@.skip(j as int + 1),
                ));
                assert(v@.subrange(i as int, j as int + 1).drop_last() =~= v@.subrange(
                    i as int,
                    j as int,
                ));
                assert(v@.subrange(i as int, j as int + 1).last() == v@[j as int]);
            }
            if acc > (u64::MAX - d) / 10 {
                // The run of digits no longer fits: the whole number is out
                // of range, however many digits follow.
                proof {
                    let full = s.take(digit_prefix_len(s));
                    let part = v@.subrange(i as int, j as int + 1);
                    assert(acc as int * 10 + d as int > u64::MAX) by (nonlinear_arith)
                        requires
                            acc as int > ((u64::MAX - d) as int) / 10,
                            0 <= d < 10,
                            acc as int <= u64::MAX,
                    ;
                    assert(digits_value(part) == acc as int * 10 + d as int);
                    assert(digit_prefix_len(v@.skip(j as int)) > 0);
                    assert(digit_prefix_len(s) >= j - i + 1);
                    assert(forall|m: int| 0 <= m < s.len() ==> s[m] == v@[i + m]);
                    assert(digit_prefix_len(s) <= s.len()) by {
                        lemma_digit_prefix_le_len(s);
                    }
                    assert forall|m: int| 0 <= m < full.len() implies is_digit(#[trigger] full[m]) by {
                        lemma_digit_prefix_digits(s);
                        assert(full[m] == s[m]);
                    }
                    assert(part =~= full.take(j - i + 1));
                    lemma_digits_value_monotone(full, j - i + 1);
                    assert(digits_value(full) > u64::MAX);
                }
                return None;
            }
            acc = acc * 10 + d;
            j = j + 1;
        } else {
            proof {
                let rest = v@.skip(j as int);
                if rest.len() > 0 {
                    assert(rest[0] == v@[j as int]);
                }
                assert(digit_prefix_len(rest) == 0);
                assert(digit_prefix_len(s) == j - i);
                assert(s.take(j - i) =~= v@.subrange(i as int, j as int));
                assert(s.skip(j - i) =~= v@.skip(j as int));
            }
            return Some((acc, j));
        }
    }
}

/// No digit run is longer than its input.
pub proof fn lemma_digit_prefix_le_len(s: Seq<char>)
    ensures
        0 <= digit_prefix_len(s) <= s.len(),
    decreases s.len(),
{
    if s.len() > 0 && is_digit(s[0]) {
        lemma_digit_prefix_le_len(s.drop_first());
    }
}

/// Every character inside the digit run is a digit.
pub proof fn lemma_digit_prefix_digits(s: Seq<char>)
    ensures
        forall|m: int| 0 <= m < digit_prefix_len(s) ==> is_digit(#[trigger] s[m]),
    decreases s.len(),
{
    if s.len() > 0 && is_digit(s[0]) {
        lemma_digit_prefix_digits(s.drop_first());
        lemma_digit_prefix_le_len(s.drop_first());
        assert forall|m: int| 0 <= m < digit_prefix_len(s) implies is_digit(#[trigger] s[m]) by {
            if m > 0 {
                assert(is_digit(s.drop_first()[m - 1]));
                assert(s[m] == s.drop_first()[m - 1]);
            }
        }
    }
}

} // verus!
