//! Text as sequences of characters: conversion between strings and character
//! vectors, decimal numerals, and the lexicographic order of strings.

use vstd::prelude::*;
use vstd::string::*;

verus! {

/// Appends one character to a string: `String::push`, which adds the
/// character at the end and leaves the rest as it was.
#[verifier::external_body]
fn push_char(s: &mut String, c: char)
    ensures
        final(s)@ == old(s)@.push(c),
{
    s.push(c)
}

/// The characters of a string, in order.
pub fn to_chars(s: &str) -> (v: Vec<char>)
    ensures
        v@ == s@,
{
    let mut v: Vec<char> = Vec::new();
    for c in it: s.chars()
        invariant
            v@ == it.seq().take(it.index() as int),
            it.seq() == s@,
    {
        v.push(c);
    }
    v
}

/// The string made of the given characters, in order.
pub fn from_chars(v: &Vec<char>) -> (s: String)
    ensures
        s@ == v@,
{
    let mut s = String::new();
    let mut i: usize = 0;
    while i < v.len()
        invariant
            i <= v.len(),
            s@ == v@.take(i as int),
        decreases v.len() - i,
    {
        push_char(&mut s, v[i]);
        i += 1;
    }
    s
}

/// Appends the characters of `s` to `out`.
pub fn push_str(out: &mut Vec<char>, s: &str)
    ensures
        final(out)@ == old(out)@ + s@,
{
    let ghost before = out@;
    for c in it: s.chars()
        invariant
            out@ == before + it.seq().take(it.index() as int),
            it.seq() == s@,
    {
        out.push(c);
    }
}

/// Appends the characters `v[from..]` to `out`.
pub fn push_chars(out: &mut Vec<char>, v: &Vec<char>, from: usize, to: usize)
    requires
        from <= to <= v.len(),
    ensures
        final(out)@ == old(out)@ + v@.subrange(from as int, to as int),
{
    let ghost before = out@;
    let mut i: usize = from;
    while i < to
        invariant
            from <= i <= to <= v.len(),
            out@ == before + v@.subrange(from as int, i as int),
        decreases to - i,
    {
        out.push(v[i]);
        i += 1;
    }
}

/// The characters `v[from..to]` as a vector of their own.
pub fn slice_chars(v: &Vec<char>, from: usize, to: usize) -> (out: Vec<char>)
    requires
        from <= to <= v.len(),
    ensures
        out@ == v@.subrange(from as int, to as int),
{
    let mut out: Vec<char> = Vec::new();
    push_chars(&mut out, v, from, to);
    out
}

/// Whether two character vectors hold the same text.
pub fn chars_eq(a: &Vec<char>, b: &Vec<char>) -> (r: bool)
    ensures
        r == (a@ == b@),
{
    if a.len() != b.len() {
        return false;
    }
    let mut i: usize = 0;
    while i < a.len()
        invariant
            i <= a.len(),
            a.len() == b.len(),
            a@.take(i as int) == b@.take(i as int),
        decreases a.len() - i,
    {
        if a[i] != b[i] {
            return false;
        }
        assert(a@.take(i + 1) == a@.take(i as int).push(a@[i as int]));
        assert(b@.take(i + 1) == b@.take(i as int).push(b@[i as int]));
        i += 1;
    }
    assert(a@.take(a.len() as int) == a@);
    assert(b@.take(b.len() as int) == b@);
    true
}

/// Whether two strings hold the same text.
pub fn str_eq(a: &str, b: &str) -> (r: bool)
    ensures
        r == (a@ == b@),
{
    let x = to_chars(a);
    let y = to_chars(b);
    chars_eq(&x, &y)
}

/// Whether `s` begins with `prefix`.
pub fn starts_with(s: &Vec<char>, prefix: &Vec<char>) -> (r: bool)
    ensures
        r == prefix@.is_prefix_of(s@),
{
    if prefix.len() > s.len() {
        return false;
    }
    let mut i: usize = 0;
    while i < prefix.len()
        invariant
            i <= prefix.len() <= s.len(),
            forall|j: int| 0 <= j < i ==> s@[j] == prefix@[j],
        decreases prefix.len() - i,
    {
        if s[i] != prefix[i] {
            return false;
        }
        i += 1;
    }
    assert(prefix@ =~= s@.subrange(0, prefix@.len() as int));
    true
}

// ---------------------------------------------------------------------------
// Decimal numerals
// ---------------------------------------------------------------------------

/// The character that stands for the digit `d`.
pub open spec fn digit_char(d: int) -> char {
    if d == 0 {
        '0'
    } else if d == 1 {
        '1'
    } else if d == 2 {
        '2'
    } else if d == 3 {
        '3'
    } else if d == 4 {
        '4'
    } else if d == 5 {
        '5'
    } else if d == 6 {
        '6'
    } else if d == 7 {
        '7'
    } else if d == 8 {
        '8'
    } else {
        '9'
    }
}

/// Whether `c` is one of the ten decimal digits.
pub open spec fn is_digit(c: char) -> bool {
    '0' <= c <= '9'
}

/// The number a digit stands for.
pub open spec fn digit_value(c: char) -> int {
    c as u32 - '0' as u32
}

/// Whether every character of `s` is a decimal digit.
pub open spec fn all_digits(s: Seq<char>) -> bool {
    forall|i: int| 0 <= i < s.len() ==> is_digit(#[trigger] s[i])
}

/// The number that a string of digits denotes (zero for the empty string).
pub open spec fn digits_value(s: Seq<char>) -> nat
    decreases s.len(),
{
    if s.len() == 0 {
        0
    } else {
        (digits_value(s.drop_last()) * 10 + digit_value(s.last())) as nat
    }
}

/// The decimal numeral of `n`, without sign or leading zeros.
pub open spec fn decimal(n: nat) -> Seq<char>
    decreases n,
{
    if n < 10 {
        seq![digit_char(n as int)]
    } else {
        decimal(n / 10).push(digit_char((n % 10) as int))
    }
}

/// The last `width` decimal digits of `n`, padded with zeros on the left.
pub open spec fn fixed_decimal(n: nat, width: nat) -> Seq<char>
    decreases width,
{
    if width == 0 {
        Seq::empty()
    } else {
        fixed_decimal(n / 10, (width - 1) as nat).push(digit_char((n % 10) as int))
    }
}

/// Ten to the power `e`.
pub open spec fn pow10(e: nat) -> nat
    decreases e,
{
    if e == 0 {
        1
    } else {
        10 * pow10((e - 1) as nat)
    }
}

/// Whether `s` is a numeral as `decimal` writes it: digits only, at least
/// one, and no leading zero unless it is the single digit zero.
pub open spec fn is_canonical_decimal(s: Seq<char>) -> bool {
    &&& s.len() > 0
    &&& all_digits(s)
    &&& (s.len() > 1 ==> s[0] != '0')
}

pub proof fn lemma_digit_char(d: int)
    requires
        0 <= d < 10,
    ensures
        is_digit(digit_char(d)),
        digit_value(digit_char(d)) == d,
{
}

pub proof fn lemma_digit_value(c: char)
    requires
        is_digit(c),
    ensures
        0 <= digit_value(c) < 10,
        digit_char(digit_value(c)) == c,
{
}

/// The numeral of `n` is canonical and denotes `n`.
pub proof fn lemma_decimal_value(n: nat)
    ensures
        is_canonical_decimal(decimal(n)),
        digits_value(decimal(n)) == n,
    decreases n,
{
    if n < 10 {
        lemma_digit_char(n as int);
        let s = decimal(n);
        assert(s.drop_last().len() == 0);
        assert(digits_value(s.drop_last()) == 0);
    } else {
        lemma_decimal_value(n / 10);
        lemma_digit_char((n % 10) as int);
        let p = decimal(n / 10);
        let s = decimal(n);
        assert(s.drop_last() =~= p);
        assert(s[0] == p[0]);
        if p.len() == 1 {
            // p denotes n / 10 >= 1, so its only digit is not zero
            assert(p.drop_last().len() == 0);
            assert(digits_value(p.drop_last()) == 0);
            assert(digits_value(p) == digit_value(p[0]));
        }
    }
}

/// A canonical numeral is the numeral of the number it denotes.
pub proof fn lemma_canonical_is_decimal(s: Seq<char>)
    requires
        is_canonical_decimal(s),
    ensures
        decimal(digits_value(s)) == s,
    decreases s.len(),
{
    lemma_digit_value(s.last());
    if s.len() == 1 {
        assert(s.drop_last().len() == 0);
        assert(digits_value(s.drop_last()) == 0);
        assert(digits_value(s) == digit_value(s[0]));
        assert(decimal(digits_value(s)) =~= s);
    } else {
        let p = s.drop_last();
        assert(all_digits(p)) by {
            assert forall|i: int| 0 <= i < p.len() implies is_digit(#[trigger] p[i]) by {
                assert(p[i] == s[i]);
            }
        }
        assert(p[0] == s[0]);
        // p denotes at least 1: either it is longer than one digit
        // or its single digit is not zero
        lemma_canonical_nonzero(p);
        if p.len() > 1 {
            lemma_canonical_is_decimal(p);
        } else {
            assert(p.drop_last().len() == 0);
            assert(digits_value(p.drop_last()) == 0);
            lemma_digit_value(p[0]);
            assert(decimal(digits_value(p)) =~= p);
        }
        let v = digits_value(s);
        assert(v == digits_value(p) * 10 + digit_value(s.last()));
        assert(v / 10 == digits_value(p));
        assert(v % 10 == digit_value(s.last()));
        assert(v >= 10);
        assert(decimal(v) =~= s);
    }
}

/// A string of digits whose first digit is not zero denotes a positive number.
pub proof fn lemma_canonical_nonzero(s: Seq<char>)
    requires
        s.len() > 0,
        all_digits(s),
        s[0] != '0',
    ensures
        digits_value(s) >= 1,
    decreases s.len(),
{
    lemma_digit_value(s.last());
    if s.len() == 1 {
        assert(s.drop_last().len() == 0);
        assert(digits_value(s.drop_last()) == 0);
    } else {
        let p = s.drop_last();
        assert(p[0] == s[0]);
        assert(all_digits(p)) by {
            assert forall|i: int| 0 <= i < p.len() implies is_digit(#[trigger] p[i]) by {
                assert(p[i] == s[i]);
            }
        }
        lemma_canonical_nonzero(p);
    }
}

/// A numeral of fixed width holds digits only, has that width, and denotes
/// the number below `10^width` that it was written from.
pub proof fn lemma_fixed_decimal_value(n: nat, width: nat)
    ensures
        fixed_decimal(n, width).len() == width,
        all_digits(fixed_decimal(n, width)),
        digits_value(fixed_decimal(n, width)) == n % pow10(width),
    decreases width,
{
    if width == 0 {
    } else {
        let w1 = (width - 1) as nat;
        lemma_fixed_decimal_value(n / 10, w1);
        lemma_digit_char((n % 10) as int);
        let p = fixed_decimal(n / 10, w1);
        let s = fixed_decimal(n, width);
        assert(s.drop_last() =~= p);
        assert(all_digits(s)) by {
            assert forall|i: int| 0 <= i < s.len() implies is_digit(#[trigger] s[i]) by {
                if i < p.len() {
                    assert(s[i] == p[i]);
                }
            }
        }
        lemma_mod_pow10_step(n, w1);
    }
}

proof fn lemma_mod_pow10_step(n: nat, w: nat)
    ensures
        ((n / 10) % pow10(w)) * 10 + n % 10 == n % pow10(w + 1),
{
    let p = pow10(w);
    lemma_pow10_positive(w);
    assert(pow10(w + 1) == 10 * p);
    let q = n / 10;
    let r = n % 10;
    let a = q / p;
    let b = q % p;
    assert(q == a * p + b) by (nonlinear_arith)
        requires
            p > 0,
            a == q / p,
            b == q % p,
    ;
    assert(n == a * (10 * p) + (b * 10 + r)) by (nonlinear_arith)
        requires
            n == q * 10 + r,
            q == a * p + b,
    ;
    assert(0 <= b * 10 + r < 10 * p) by (nonlinear_arith)
        requires
            0 <= b < p,
            0 <= r < 10,
    ;
    vstd::arithmetic::div_mod::lemma_fundamental_div_mod_converse(
        n as int,
        (10 * p) as int,
        a as int,
        (b * 10 + r) as int,
    );
}

pub proof fn lemma_pow10_positive(e: nat)
    ensures
        pow10(e) > 0,
    decreases e,
{
    if e > 0 {
        lemma_pow10_positive((e - 1) as nat);
    }
}

/// A string of digits is the fixed-width numeral of the number it denotes.
pub proof fn lemma_digits_are_fixed_decimal(s: Seq<char>)
    requires
        all_digits(s),
    ensures
        fixed_decimal(digits_value(s), s.len()) == s,
        digits_value(s) < pow10(s.len()),
    decreases s.len(),
{
    if s.len() == 0 {
        assert(fixed_decimal(digits_value(s), 0) =~= s);
    } else {
        let p = s.drop_last();
        assert(all_digits(p)) by {
            assert forall|i: int| 0 <= i < p.len() implies is_digit(#[trigger] p[i]) by {
                assert(p[i] == s[i]);
            }
        }
        lemma_digits_are_fixed_decimal(p);
        lemma_digit_value(s.last());
        let v = digits_value(s);
        assert(v / 10 == digits_value(p));
        assert(v % 10 == digit_value(s.last()));
        assert(fixed_decimal(v, s.len()) =~= s);
    }
}

/// The character of a digit below ten.
pub fn digit_to_char(d: u8) -> (c: char)
    requires
        d < 10,
    ensures
        c == digit_char(d as int),
{
    (48u8 + d) as char
}

/// The value of a digit character, or `None` for any other character.
pub fn char_to_digit(c: char) -> (r: Option<u8>)
    ensures
        r is Some == is_digit(c),
        r matches Some(d) ==> d == digit_value(c),
{
    if '0' <= c && c <= '9' {
        Some((c as u32 - '0' as u32) as u8)
    } else {
        None
    }
}

/// Appends the decimal numeral of `n` to `out`.
pub fn push_decimal(out: &mut Vec<char>, n: u32)
    ensures
        final(out)@ == old(out)@ + decimal(n as nat),
    decreases n,
{
    if n >= 10 {
        push_decimal(out, n / 10);
    }
    out.push(digit_to_char((n % 10) as u8));
    assert(out@ =~= old(out)@ + decimal(n as nat));
}

/// Appends the last `width` digits of `n` to `out`, padded with zeros.
pub fn push_fixed_decimal(out: &mut Vec<char>, n: u32, width: u8)
    ensures
        final(out)@ == old(out)@ + fixed_decimal(n as nat, width as nat),
    decreases width,
{
    if width > 0 {
        push_fixed_decimal(out, n / 10, width - 1);
        out.push(digit_to_char((n % 10) as u8));
    }
    assert(out@ =~= old(out)@ + fixed_decimal(n as nat, width as nat));
}

/// Reads `s[from..to]` as a string of digits. Gives the number it denotes,
/// or `None` where a character is no digit or the number does not fit.
pub fn parse_digits(s: &Vec<char>, from: usize, to: usize) -> (r: Option<u32>)
    requires
        from <= to <= s.len(),
    ensures
        r is Some <==> all_digits(s@.subrange(from as int, to as int)) && digits_value(
            s@.subrange(from as int, to as int),
        ) <= u32::MAX,
        r matches Some(n) ==> n == digits_value(s@.subrange(from as int, to as int)),
{
    let mut value: u32 = 0;
    let mut i: usize = from;
    while i < to
        invariant
            from <= i <= to <= s.len(),
            all_digits(s@.subrange(from as int, i as int)),
            value == digits_value(s@.subrange(from as int, i as int)),
        decreases to - i,
    {
        let ghost prev = s@.subrange(from as int, i as int);
        let ghost next = s@.subrange(from as int, i + 1);
        let ghost whole = s@.subrange(from as int, to as int);
        proof {
            assert(next.drop_last() =~= prev);
            assert(next.last() == s@[i as int]);
            assert(whole[i - from] == s@[i as int]);
        }
        match char_to_digit(s[i]) {
            None => {
                return None;
            },
            Some(d) => {
                if value > (u32::MAX - d as u32) / 10 {
                    proof {
                        if all_digits(whole) {
                            lemma_digits_value_prefix(whole, (i + 1 - from) as int);
                            assert(whole.take((i + 1 - from) as int) =~= next);
                        }
                    }
                    return None;
                }
                value = value * 10 + d as u32;
                proof {
                    assert(all_digits(next)) by {
                        assert forall|j: int| 0 <= j < next.len() implies is_digit(
                            #[trigger] next[j],
                        ) by {
                            if j < prev.len() {
                                assert(next[j] == prev[j]);
                            }
                        }
                    }
                }
            },
        }
        i += 1;
    }
    Some(value)
}

/// A prefix of a string of digits denotes no more than the whole string.
pub proof fn lemma_digits_value_prefix(s: Seq<char>, k: int)
    requires
        0 <= k <= s.len(),
        all_digits(s),
    ensures
        digits_value(s.take(k)) <= digits_value(s),
    decreases s.len() - k,
{
    if k == s.len() {
        assert(s.take(k) =~= s);
    } else {
        let p = s.drop_last();
        assert(all_digits(p)) by {
            assert forall|i: int| 0 <= i < p.len() implies is_digit(#[trigger] p[i]) by {
                assert(p[i] == s[i]);
            }
        }
        assert(p.take(k) =~= s.take(k));
        lemma_digits_value_prefix(p, k);
        lemma_digit_value(s.last());
    }
}

// ---------------------------------------------------------------------------
// The order of strings
// ---------------------------------------------------------------------------

/// Whether `a` comes before `b` in the lexicographic order of their
/// characters: at the first place where they differ `a` has the smaller
/// character, or `a` ends there and `b` goes on.
pub open spec fn lex_lt(a: Seq<char>, b: Seq<char>) -> bool {
    exists|i: int| #[trigger] lex_lt_at(a, b, i)
}

/// Whether `a` and `b` agree before place `i` and `a` is smaller at `i`.
pub open spec fn lex_lt_at(a: Seq<char>, b: Seq<char>, i: int) -> bool {
    &&& 0 <= i <= a.len()
    &&& i <= b.len()
    &&& a.take(i) == b.take(i)
    &&& i < b.len()
    &&& (i < a.len() ==> a[i] < b[i])
}

/// Whether `a` comes before `b` in lexicographic order.
pub fn chars_lt(a: &Vec<char>, b: &Vec<char>) -> (r: bool)
    ensures
        r == lex_lt(a@, b@),
{
    let mut i: usize = 0;
    while i < a.len() && i < b.len()
        invariant
            i <= a.len(),
            i <= b.len(),
            a@.take(i as int) == b@.take(i as int),
        decreases a.len() - i,
    {
        if a[i] != b[i] {
            let r = a[i] < b[i];
            proof {
                if r {
                    assert(lex_lt_at(a@, b@, i as int));
                } else {
                    lemma_lex_first_difference(a@, b@, i as int);
                }
            }
            return r;
        }
        assert(a@.take(i + 1) == a@.take(i as int).push(a@[i as int]));
        assert(b@.take(i + 1) == b@.take(i as int).push(b@[i as int]));
        i += 1;
    }
    let r = i < b.len();
    proof {
        if r {
            assert(lex_lt_at(a@, b@, i as int));
        } else {
            assert(b@.take(i as int) == b@);
            assert forall|j: int| !lex_lt_at(a@, b@, j) by {
                if lex_lt_at(a@, b@, j) {
                    assert(j < b@.len());
                    assert(a@.take(i as int)[j] == b@.take(i as int)[j]);
                }
            }
        }
    }
    r
}

/// Where two strings first differ at place `i`, only that place decides
/// their order.
pub proof fn lemma_lex_first_difference(a: Seq<char>, b: Seq<char>, i: int)
    requires
        0 <= i < a.len(),
        i < b.len(),
        a.take(i) == b.take(i),
        a[i] != b[i],
    ensures
        lex_lt(a, b) == (a[i] < b[i]),
{
    if a[i] < b[i] {
        assert(lex_lt_at(a, b, i));
    } else {
        assert forall|j: int| !lex_lt_at(a, b, j) by {
            if lex_lt_at(a, b, j) {
                if j < i {
                    assert(a.take(i)[j] == a[j]);
                    assert(b.take(i)[j] == b[j]);
                } else if j > i {
                    assert(a.take(j)[i] == a[i]);
                    assert(b.take(j)[i] == b[i]);
                }
            }
        }
    }
}

/// Where `a` comes before `b` by their characters at place `i`, the same
/// holds with a common text in front and any texts behind.
pub proof fn lemma_lex_lt_embedded(
    p: Seq<char>,
    a: Seq<char>,
    b: Seq<char>,
    ra: Seq<char>,
    rb: Seq<char>,
    i: int,
)
    requires
        0 <= i < a.len(),
        i < b.len(),
        a.take(i) == b.take(i),
        a[i] < b[i],
    ensures
        lex_lt(p + a + ra, p + b + rb),
{
    let x = p + a + ra;
    let y = p + b + rb;
    let k = p.len() + i;
    assert(x.take(k) =~= y.take(k)) by {
        assert forall|j: int| 0 <= j < k implies x.take(k)[j] == y.take(k)[j] by {
            if j >= p.len() {
                assert(a.take(i)[j - p.len()] == a[j - p.len()]);
                assert(b.take(i)[j - p.len()] == b[j - p.len()]);
            }
        }
    }
    assert(x[k] == a[i]);
    assert(y[k] == b[i]);
    assert(lex_lt_at(x, y, k));
}

/// Of two numbers below `10^width`, the smaller has the numeral of that
/// width that comes first: they agree up to some place, where the smaller
/// number has the smaller digit.
pub proof fn lemma_fixed_decimal_order(x: nat, y: nat, width: nat) -> (i: int)
    requires
        x < y < pow10(width),
    ensures
        0 <= i < width,
        fixed_decimal(x, width).len() == width,
        fixed_decimal(y, width).len() == width,
        fixed_decimal(x, width).take(i) == fixed_decimal(y, width).take(i),
        fixed_decimal(x, width)[i] < fixed_decimal(y, width)[i],
    decreases width,
{
    lemma_fixed_decimal_value(x, width);
    lemma_fixed_decimal_value(y, width);
    let w1 = (width - 1) as nat;
    let fx = fixed_decimal(x, width);
    let fy = fixed_decimal(y, width);
    let px = fixed_decimal(x / 10, w1);
    let py = fixed_decimal(y / 10, w1);
    lemma_fixed_decimal_value(x / 10, w1);
    lemma_fixed_decimal_value(y / 10, w1);
    if x / 10 < y / 10 {
        let i = lemma_fixed_decimal_order(x / 10, y / 10, w1);
        assert(fx.take(i) =~= px.take(i));
        assert(fy.take(i) =~= py.take(i));
        assert(fx[i] == px[i]);
        assert(fy[i] == py[i]);
        i
    } else {
        assert(x / 10 == y / 10);
        assert(x % 10 < y % 10);
        assert(fx.take(w1 as int) =~= px);
        assert(fy.take(w1 as int) =~= py);
        w1 as int
    }
}

/// A numeral of fixed width has that width.
pub proof fn lemma_fixed_decimal_len(n: nat, width: nat)
    ensures
        fixed_decimal(n, width).len() == width,
    decreases width,
{
    if width > 0 {
        lemma_fixed_decimal_len(n / 10, (width - 1) as nat);
    }
}

/// A numeral of fixed width denotes the number it was written from, where
/// that number is below `10^width`.
pub proof fn lemma_fixed_decimal_exact(n: nat, width: nat)
    requires
        n < pow10(width),
    ensures
        fixed_decimal(n, width).len() == width,
        all_digits(fixed_decimal(n, width)),
        digits_value(fixed_decimal(n, width)) == n,
{
    lemma_fixed_decimal_value(n, width);
    vstd::arithmetic::div_mod::lemma_small_mod(n, pow10(width));
}

/// No text comes before itself.
pub proof fn lemma_lex_lt_irreflexive(a: Seq<char>)
    ensures
        !lex_lt(a, a),
{
    assert forall|i: int| !lex_lt_at(a, a, i) by {}
}

/// A text that comes before a second that comes before a third comes before
/// the third.
pub proof fn lemma_lex_lt_transitive(a: Seq<char>, b: Seq<char>, c: Seq<char>)
    requires
        lex_lt(a, b),
        lex_lt(b, c),
    ensures
        lex_lt(a, c),
{
    let i = choose|i: int| #[trigger] lex_lt_at(a, b, i);
    let j = choose|j: int| #[trigger] lex_lt_at(b, c, j);
    if i <= j {
        assert(a.take(i) =~= c.take(i)) by {
            assert forall|k: int| 0 <= k < i implies a.take(i)[k] == c.take(i)[k] by {
                assert(a.take(i)[k] == b.take(i)[k]);
                assert(b.take(j)[k] == c.take(j)[k]);
            }
        }
        if i < j {
            assert(b.take(j)[i] == c.take(j)[i]);
        }
        assert(lex_lt_at(a, c, i));
    } else {
        assert(a.take(j) =~= c.take(j)) by {
            assert forall|k: int| 0 <= k < j implies a.take(j)[k] == c.take(j)[k] by {
                assert(a.take(i)[k] == b.take(i)[k]);
                assert(b.take(j)[k] == c.take(j)[k]);
            }
        }
        assert(a.take(i)[j] == b.take(i)[j]);
        assert(lex_lt_at(a, c, j));
    }
}

/// Of two different texts that agree up to place `k`, one comes before the
/// other.
pub proof fn lemma_lex_total_from(a: Seq<char>, b: Seq<char>, k: int)
    requires
        0 <= k <= a.len(),
        k <= b.len(),
        a.take(k) == b.take(k),
        a != b,
    ensures
        lex_lt(a, b) || lex_lt(b, a),
    decreases a.len() - k,
{
    if k == a.len() {
        if k == b.len() {
            assert(a.take(k) =~= a);
            assert(b.take(k) =~= b);
        } else {
            assert(lex_lt_at(a, b, k));
        }
    } else if k == b.len() {
        assert(lex_lt_at(b, a, k));
    } else if a[k] != b[k] {
        lemma_lex_first_difference(a, b, k);
        lemma_lex_first_difference(b, a, k);
    } else {
        assert(a.take(k + 1) =~= a.take(k).push(a[k]));
        assert(b.take(k + 1) =~= b.take(k).push(b[k]));
        lemma_lex_total_from(a, b, k + 1);
    }
}

/// Of two different texts one comes before the other.
pub proof fn lemma_lex_total(a: Seq<char>, b: Seq<char>)
    requires
        a != b,
    ensures
        lex_lt(a, b) || lex_lt(b, a),
{
    assert(a.take(0) =~= b.take(0));
    lemma_lex_total_from(a, b, 0);
}

} // verus!
