//! Byte sizes written the way workflow files write them: `6GiB`, `2.1GiB`,
//! `512MiB`, `1024`.

use vstd::prelude::*;
use crate::decimal::{all_digits, digits_value, digits_value_upto, is_digit};
use crate::text::str_to_chars;

verus! {

/// `10` to the power `n`.
pub open spec fn pow10(n: nat) -> nat
    decreases n,
{
    if n == 0 {
        1
    } else {
        10 * pow10((n - 1) as nat)
    }
}

/// End of the run of digits that starts at `from`.
pub open spec fn digits_end(s: Seq<char>, from: int) -> int
    decreases s.len() - from,
{
    if from < 0 || from >= s.len() || !is_digit(s[from]) {
        from
    } else {
        digits_end(s, from + 1)
    }
}

/// Bytes per unit: none or `B` is one byte, `KiB`, `MiB`, `GiB` and `TiB`
/// are powers of 1024; 0 for anything else.
pub open spec fn unit_bytes(u: Seq<char>) -> nat {
    if u == Seq::<char>::empty() || u == seq!['B'] {
        1
    } else if u == seq!['K', 'i', 'B'] {
        1024
    } else if u == seq!['M', 'i', 'B'] {
        1048576
    } else if u == seq!['G', 'i', 'B'] {
        1073741824
    } else if u == seq!['T', 'i', 'B'] {
        1099511627776
    } else {
        0
    }
}

/// The most fraction digits a size may carry.
pub const MAX_FRACTION_DIGITS: usize = 18;

/// The number of bytes a size denotes, rounded down: digits, optionally a
/// `.` and one to eighteen fraction digits, then a unit; `None` for any
/// other text and for sizes beyond `u64::MAX`.
pub open spec fn resource_bytes(s: Seq<char>) -> Option<u64> {
    let a = digits_end(s, 0);
    let whole = digits_value(s.subrange(0, a));
    if a == 0 {
        None
    } else if a < s.len() && s[a] == '.' {
        let b = digits_end(s, a + 1);
        let m = unit_bytes(s.subrange(b, s.len() as int));
        let f = (b - a - 1) as nat;
        if f == 0 || f > MAX_FRACTION_DIGITS || m == 0 {
            None
        } else {
            let v = whole * m + digits_value(s.subrange(a + 1, b)) * m / pow10(f);
            if v <= u64::MAX {
                Some(v as u64)
            } else {
                None
            }
        }
    } else {
        let m = unit_bytes(s.subrange(a, s.len() as int));
        if m == 0 {
            None
        } else {
            let v = whole * m;
            if v <= u64::MAX {
                Some(v as u64)
            } else {
                None
            }
        }
    }
}

proof fn lemma_digits_end(s: Seq<char>, from: int)
    requires
        0 <= from <= s.len(),
    ensures
        from <= digits_end(s, from) <= s.len(),
        forall|k: int| from <= k < digits_end(s, from) ==> is_digit(#[trigger] s[k]),
        digits_end(s, from) < s.len() ==> !is_digit(s[digits_end(s, from)]),
    decreases s.len() - from,
{
    if from < s.len() && is_digit(s[from]) {
        lemma_digits_end(s, from + 1);
    }
}

proof fn lemma_digits_below_pow10(t: Seq<char>)
    requires
        all_digits(t),
    ensures
        digits_value(t) < pow10(t.len()),
    decreases t.len(),
{
    if t.len() > 0 {
        let u = t.drop_last();
        assert(all_digits(u)) by {
            assert forall|i: int| 0 <= i < u.len() implies is_digit(#[trigger] u[i]) by {
                assert(u[i] == t[i]);
            }
        }
        lemma_digits_below_pow10(u);
        assert(is_digit(t[t.len() - 1]));
        let d = (t.last() as int - '0' as int) as nat;
        let dv = digits_value(u);
        let p = pow10(u.len());
        assert(dv * 10 + d < 10 * p) by (nonlinear_arith)
            requires
                dv < p,
                d <= 9,
        ;
    }
}

fn digits_end_exec(s: &Vec<char>, from: usize) -> (e: usize)
    requires
        from <= s@.len(),
    ensures
        e == digits_end(s@, from as int),
{
    proof {
        lemma_digits_end(s@, from as int);
    }
    let mut e = from;
    while e < s.len() && s[e] >= '0' && s[e] <= '9'
        invariant
            from <= e <= s@.len(),
            digits_end(s@, e as int) == digits_end(s@, from as int),
        decreases s.len() - e,
    {
        e += 1;
    }
    e
}

fn chars_equal_from(s: &Vec<char>, from: usize, lit: &Vec<char>) -> (b: bool)
    requires
        from <= s@.len(),
    ensures
        b == (s@.subrange(from as int, s@.len() as int) == lit@),
{
    if s.len() - from != lit.len() {
        return false;
    }
    let mut i: usize = from;
    while i < s.len()
        invariant
            from <= i <= s@.len(),
            s@.len() - from == lit@.len(),
            forall|q: int| 0 <= q < i - from ==> s@[from + q] == #[trigger] lit@[q],
        decreases s.len() - i,
    {
        if s[i] != lit[i - from] {
            assert(s@.subrange(from as int, s@.len() as int)[i - from] != lit@[i - from]);
            return false;
        }
        i += 1;
    }
    assert(s@.subrange(from as int, s@.len() as int) =~= lit@);
    true
}

fn unit_multiplier(s: &Vec<char>, from: usize) -> (m: u64)
    requires
        from <= s@.len(),
    ensures
        m == unit_bytes(s@.subrange(from as int, s@.len() as int)),
{
    let ghost u = s@.subrange(from as int, s@.len() as int);
    let b = vec!['B'];
    let kib = vec!['K', 'i', 'B'];
    let mib = vec!['M', 'i', 'B'];
    let gib = vec!['G', 'i', 'B'];
    let tib = vec!['T', 'i', 'B'];
    assert(b@ =~= seq!['B']);
    assert(kib@ =~= seq!['K', 'i', 'B']);
    assert(mib@ =~= seq!['M', 'i', 'B']);
    assert(gib@ =~= seq!['G', 'i', 'B']);
    assert(tib@ =~= seq!['T', 'i', 'B']);
    if from == s.len() {
        assert(u =~= Seq::<char>::empty());
        1
    } else if chars_equal_from(s, from, &b) {
        1
    } else if chars_equal_from(s, from, &kib) {
        1024
    } else if chars_equal_from(s, from, &mib) {
        1048576
    } else if chars_equal_from(s, from, &gib) {
        1073741824
    } else if chars_equal_from(s, from, &tib) {
        1099511627776
    } else {
        assert(u != Seq::<char>::empty());
        0
    }
}

/// The number of bytes a size string denotes, as `resource_bytes` says.
pub fn parse_resource_bytes(text: &str) -> (r: Option<u64>)
    ensures
        r == resource_bytes(text@),
{
    let s = str_to_chars(text);
    proof {
        lemma_digits_end(s@, 0);
    }
    let a = digits_end_exec(&s, 0);
    if a == 0 {
        return None;
    }
    assert(all_digits(s@.subrange(0, a as int))) by {
        assert forall|k: int| 0 <= k < a implies is_digit(#[trigger] s@.subrange(0, a as int)[k]) by {
            assert(s@.subrange(0, a as int)[k] == s@[k]);
        }
    }
    let whole = match digits_value_upto(&s, 0, a, u64::MAX) {
        Some(w) => w,
        None => {
            proof {
                lemma_whole_too_large(s@, a as int);
            }
            return None;
        },
    };
    if a < s.len() && s[a] == '.' {
        proof {
            lemma_digits_end(s@, a + 1);
        }
        let b = digits_end_exec(&s, a + 1);
        let f = b - a - 1;
        let m = unit_multiplier(&s, b);
        if f == 0 || f > MAX_FRACTION_DIGITS || m == 0 {
            return None;
        }
        let ghost ft = s@.subrange(a + 1, b as int);
        assert(all_digits(ft)) by {
            assert forall|k: int| 0 <= k < ft.len() implies is_digit(#[trigger] ft[k]) by {
                assert(ft[k] == s@[a + 1 + k]);
            }
        }
        proof {
            lemma_digits_below_pow10(ft);
            lemma_pow10_18();
            lemma_pow10_mono(f as nat, 18);
        }
        let frac = match digits_value_upto(&s, a + 1, b, 1_000_000_000_000_000_000) {
            Some(v) => v,
            None => {
                return None;
            },
        };
        let p = pow10_exec(f);
        assert(m <= 1099511627776);
        assert((frac as u128) * (m as u128) <= 1_000_000_000_000_000_000u128 * 1099511627776u128)
            by (nonlinear_arith)
            requires
                frac <= 1_000_000_000_000_000_000u64,
                m <= 1099511627776u64,
        ;
        assert((whole as u128) * (m as u128) <= 18446744073709551615u128 * 1099511627776u128)
            by (nonlinear_arith)
            requires
                m <= 1099511627776u64,
        ;
        let wm: u128 = (whole as u128) * (m as u128);
        let fm: u128 = (frac as u128) * (m as u128);
        let v: u128 = wm + fm / (p as u128);
        if v <= u64::MAX as u128 {
            Some(v as u64)
        } else {
            None
        }
    } else {
        let m = unit_multiplier(&s, a);
        if m == 0 {
            return None;
        }
        assert((whole as u128) * (m as u128) <= 18446744073709551615u128 * 1099511627776u128)
            by (nonlinear_arith)
            requires
                m <= 1099511627776u64,
        ;
        let v: u128 = (whole as u128) * (m as u128);
        if v <= u64::MAX as u128 {
            Some(v as u64)
        } else {
            None
        }
    }
}

proof fn lemma_whole_too_large(s: Seq<char>, a: int)
    requires
        a == digits_end(s, 0),
        0 < a <= s.len(),
        digits_value(s.subrange(0, a)) > u64::MAX,
    ensures
        resource_bytes(s) is None,
{
    let w = digits_value(s.subrange(0, a));
    if a < s.len() && s[a] == '.' {
        lemma_digits_end(s, a + 1);
        let b = digits_end(s, a + 1);
        let m = unit_bytes(s.subrange(b, s.len() as int));
        let f = (b - a - 1) as nat;
        if !(f == 0 || f > MAX_FRACTION_DIGITS || m == 0) {
            lemma_pow10_mono(f, f);
            let p = pow10(f);
            let fv = digits_value(s.subrange(a + 1, b));
            assert(w * m + fv * m / p >= w) by (nonlinear_arith)
                requires
                    m >= 1,
                    p >= 1,
                    fv >= 0,
            ;
        }
    } else {
        let m = unit_bytes(s.subrange(a, s.len() as int));
        if m != 0 {
            assert(w * m >= w) by (nonlinear_arith)
                requires
                    m >= 1,
            ;
        }
    }
}

proof fn lemma_pow10_18()
    ensures
        pow10(18) == 1_000_000_000_000_000_000,
{
    reveal_with_fuel(pow10, 19);
}

proof fn lemma_pow10_mono(a: nat, b: nat)
    requires
        a <= b,
    ensures
        pow10(a) <= pow10(b),
        pow10(a) >= 1,
    decreases b,
{
    if b > 0 {
        if a < b {
            lemma_pow10_mono(a, (b - 1) as nat);
        }
    }
    if a > 0 {
        lemma_pow10_mono((a - 1) as nat, (a - 1) as nat);
    }
}

fn pow10_exec(f: usize) -> (p: u64)
    requires
        f <= 18,
    ensures
        p == pow10(f as nat),
        p >= 1,
{
    let mut p: u64 = 1;
    let mut i: usize = 0;
    while i < f
        invariant
            i <= f <= 18,
            p == pow10(i as nat),
        decreases f - i,
    {
        proof {
            lemma_pow10_mono((i + 1) as nat, 18);
            lemma_pow10_18();
        }
        p = p * 10;
        i += 1;
    }
    proof {
        lemma_pow10_mono(f as nat, f as nat);
    }
    p
}

} // verus!
