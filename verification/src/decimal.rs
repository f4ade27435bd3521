//! Decimal rendering and reading of integers.

use vstd::prelude::*;

verus! {

/// Base-10 rendering of a signed integer, with a leading `-` when negative.
pub open spec fn signed_decimal(i: int) -> Seq<char> {
    if i < 0 {
        seq!['-'] + decimal((0 - i) as nat)
    } else {
        decimal(i as nat)
    }
}

/// The ASCII digit for `d` (`0 <= d < 10`).
pub open spec fn digit_char(d: nat) -> char {
    if d == 0 { '0' }
    else if d == 1 { '1' }
    else if d == 2 { '2' }
    else if d == 3 { '3' }
    else if d == 4 { '4' }
    else if d == 5 { '5' }
    else if d == 6 { '6' }
    else if d == 7 { '7' }
    else if d == 8 { '8' }
    else { '9' }
}

/// Base-10 digits of `n`, most significant first, without leading zeros.
pub open spec fn decimal(n: nat) -> Seq<char>
    decreases n,
{
    if n < 10 {
        seq![digit_char(n)]
    } else {
        decimal(n / 10) + seq![digit_char(n % 10)]
    }
}

/// `s` left-padded with `'0'` up to `width` characters.
pub open spec fn zero_pad(s: Seq<char>, width: nat) -> Seq<char> {
    if s.len() >= width {
        s
    } else {
        Seq::new((width - s.len()) as nat, |i: int| '0') + s
    }
}

fn digit(d: u64) -> (c: char)
    requires
        d < 10,
    ensures
        c == digit_char(d as nat),
{
    match d {
        0 => '0',
        1 => '1',
        2 => '2',
        3 => '3',
        4 => '4',
        5 => '5',
        6 => '6',
        7 => '7',
        8 => '8',
        _ => '9',
    }
}

/// Decimal digits of `n`.
pub fn u64_to_chars(n: u64) -> (out: Vec<char>)
    ensures
        out@ == decimal(n as nat),
    decreases n,
{
    if n < 10 {
        let mut v: Vec<char> = Vec::new();
        v.push(digit(n));
        assert(v@ =~= seq![digit_char(n as nat)]);
        v
    } else {
        let mut v = u64_to_chars(n / 10);
        v.push(digit(n % 10));
        v
    }
}

/// Decimal digits of `n`, left-padded with zeros to `width`.
pub fn u64_to_padded_chars(n: u64, width: usize) -> (out: Vec<char>)
    ensures
        out@ == zero_pad(decimal(n as nat), width as nat),
{
    let digits = u64_to_chars(n);
    if digits.len() >= width {
        return digits;
    }
    let mut out: Vec<char> = Vec::new();
    let pad = width - digits.len();
    let mut i: usize = 0;
    while i < pad
        invariant
            i <= pad,
            out@ == Seq::new(i as nat, |k: int| '0'),
        decreases pad - i,
    {
        out.push('0');
        i += 1;
        assert(out@ =~= Seq::new(i as nat, |k: int| '0'));
    }
    crate::text::push_all(&mut out, &digits);
    out
}

/// The characters of `i` in base 10, as `signed_decimal` says.
pub fn i32_to_chars(i: i32) -> (out: Vec<char>)
    ensures
        out@ == signed_decimal(i as int),
{
    if i < 0 {
        let magnitude: u64 = (0 - (i as i64)) as u64;
        let digits = u64_to_chars(magnitude);
        let mut out: Vec<char> = vec!['-'];
        let mut k: usize = 0;
        while k < digits.len()
            invariant
                k <= digits@.len(),
                out@ == seq!['-'] + digits@.subrange(0, k as int),
            decreases digits.len() - k,
        {
            out.push(digits[k]);
            k += 1;
            assert(out@ =~= seq!['-'] + digits@.subrange(0, k as int));
        }
        assert(digits@.subrange(0, digits@.len() as int) =~= digits@);
        out
    } else {
        u64_to_chars(i as u64)
    }
}

/// An ASCII decimal digit.
pub open spec fn is_digit(c: char) -> bool {
    '0' <= c && c <= '9'
}

/// The value of a digit character.
pub open spec fn digit_value(c: char) -> nat {
    (c as int - '0' as int) as nat
}

/// All characters are digits.
pub open spec fn all_digits(s: Seq<char>) -> bool {
    forall|i: int| 0 <= i < s.len() ==> is_digit(#[trigger] s[i])
}

/// The number written by a string of digits (0 for the empty string).
pub open spec fn digits_value(s: Seq<char>) -> nat
    decreases s.len(),
{
    if s.len() == 0 {
        0
    } else {
        digits_value(s.drop_last()) * 10 + digit_value(s.last())
    }
}

/// The value of an unsigned decimal the way Rust's `str::parse` reads one
/// for an unsigned type whose largest value is `max`: an optional `+`, then
/// at least one digit, and nothing else.
pub open spec fn parse_unsigned(s: Seq<char>, max: nat) -> Option<nat> {
    let body = if s.len() > 0 && s[0] == '+' {
        s.subrange(1, s.len() as int)
    } else {
        s
    };
    if body.len() > 0 && all_digits(body) && digits_value(body) <= max {
        Some(digits_value(body))
    } else {
        None
    }
}

/// The value of a signed decimal the way Rust's `str::parse` reads an
/// `i32`: an optional sign, then at least one digit, and nothing else.
pub open spec fn parse_i32_spec(s: Seq<char>) -> Option<i32> {
    if s.len() > 0 && s[0] == '-' {
        let body = s.subrange(1, s.len() as int);
        if body.len() > 0 && all_digits(body) && digits_value(body) <= 2147483648 {
            Some((0 - digits_value(body)) as i32)
        } else {
            None
        }
    } else {
        match parse_unsigned(s, 2147483647) {
            Some(v) => Some(v as i32),
            None => None,
        }
    }
}

proof fn lemma_digits_value_grows(s: Seq<char>, i: int)
    requires
        0 <= i <= s.len(),
    ensures
        digits_value(s.subrange(0, i)) <= digits_value(s),
    decreases s.len() - i,
{
    if i < s.len() {
        lemma_digits_value_grows(s, i + 1);
        assert(s.subrange(0, i + 1).drop_last() =~= s.subrange(0, i));
    } else {
        assert(s.subrange(0, i) =~= s);
    }
}

/// The number written by the digits `s[from..to]`, where it is at most
/// `cap`.
pub fn digits_value_upto(s: &Vec<char>, from: usize, to: usize, cap: u64) -> (r: Option<u64>)
    requires
        from <= to <= s@.len(),
        all_digits(s@.subrange(from as int, to as int)),
    ensures
        match r {
            Some(v) => v == digits_value(s@.subrange(from as int, to as int)) && v <= cap,
            None => digits_value(s@.subrange(from as int, to as int)) > cap,
        },
{
    let ghost t = s@.subrange(from as int, to as int);
    let mut v: u64 = 0;
    let mut i: usize = from;
    while i < to
        invariant
            from <= i <= to <= s@.len(),
            t == s@.subrange(from as int, to as int),
            all_digits(t),
            v == digits_value(t.subrange(0, i - from)),
            v <= cap,
        decreases to - i,
    {
        let c = s[i];
        assert(is_digit(t[i - from]));
        let d: u64 = (c as u32 - '0' as u32) as u64;
        assert(t.subrange(0, i + 1 - from).drop_last() =~= t.subrange(0, i - from));
        assert(d == digit_value(t[i - from]));
        if d > cap || v > (cap - d) / 10 {
            proof {
                if d <= cap {
                    assert(v * 10 + d > cap) by (nonlinear_arith)
                        requires
                            v > (cap - d) / 10,
                            d <= cap,
                    ;
                }
                lemma_digits_value_grows(t, i + 1 - from);
            }
            return None;
        }
        proof {
            assert(v * 10 + d <= cap) by (nonlinear_arith)
                requires
                    v <= (cap - d) / 10,
                    d <= cap,
            ;
        }
        v = v * 10 + d;
        i += 1;
    }
    assert(t.subrange(0, to - from) =~= t);
    Some(v)
}

/// Reads an unsigned decimal no larger than `max`, as `parse_unsigned`
/// says.
pub fn parse_unsigned_chars(s: &Vec<char>, max: u64) -> (r: Option<u64>)
    ensures
        match parse_unsigned(s@, max as nat) {
            Some(v) => r == Some(v as u64),
            None => r is None,
        },
{
    let from: usize = if s.len() > 0 && s[0] == '+' {
        1
    } else {
        0
    };
    let ghost body = s@.subrange(from as int, s@.len() as int);
    assert(from == 0 ==> body =~= s@);
    if from >= s.len() {
        return None;
    }
    let mut i: usize = from;
    while i < s.len()
        invariant
            from <= i <= s@.len(),
            from == (if s@.len() > 0 && s@[0] == '+' { 1usize } else { 0usize }),
            body == s@.subrange(from as int, s@.len() as int),
            forall|k: int| from <= k < i ==> is_digit(#[trigger] s@[k]),
        decreases s.len() - i,
    {
        if !(s[i] >= '0' && s[i] <= '9') {
            assert(!is_digit(body[i - from]));
            assert(!all_digits(body));
            return None;
        }
        i += 1;
    }
    assert(all_digits(body)) by {
        assert forall|k: int| 0 <= k < body.len() implies is_digit(#[trigger] body[k]) by {
            assert(body[k] == s@[k + from]);
        }
    }
    digits_value_upto(s, from, s.len(), max)
}

/// Reads an `i32` as `parse_i32_spec` says.
pub fn parse_i32_chars(s: &Vec<char>) -> (r: Option<i32>)
    ensures
        r == parse_i32_spec(s@),
{
    if s.len() > 0 && s[0] == '-' {
        let ghost body = s@.subrange(1, s@.len() as int);
        if s.len() == 1 {
            return None;
        }
        let mut i: usize = 1;
        while i < s.len()
            invariant
                1 <= i <= s@.len(),
                s@[0] == '-',
                body == s@.subrange(1, s@.len() as int),
                forall|k: int| 1 <= k < i ==> is_digit(#[trigger] s@[k]),
            decreases s.len() - i,
        {
            if !(s[i] >= '0' && s[i] <= '9') {
                assert(!is_digit(body[i - 1]));
                assert(!all_digits(body));
                return None;
            }
            i += 1;
        }
        assert(all_digits(body)) by {
            assert forall|k: int| 0 <= k < body.len() implies is_digit(#[trigger] body[k]) by {
                assert(body[k] == s@[k + 1]);
            }
        }
        match digits_value_upto(s, 1, s.len(), 2147483648) {
            Some(v) => {
                if v == 2147483648 {
                    Some(-2147483648i32)
                } else {
                    let w: i32 = v as i32;
                    Some(0 - w)
                }
            },
            None => None,
        }
    } else {
        match parse_unsigned_chars(s, 2147483647) {
            Some(v) => Some(v as i32),
            None => None,
        }
    }
}

} // verus!
