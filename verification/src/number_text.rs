//! Where the number readers of `num_bigfloat` and `json` overflow the
//! fixed-width exponents they count in. The functions here measure the parts of
//! a number text that those counts are made of, and decide, before the reader
//! runs, whether it can read the text.

use vstd::prelude::*;

verus! {

/// `'0'` to `'9'`.
pub open spec fn is_digit_char(c: char) -> bool {
    '0' <= c && c <= '9'
}

/// `e` or `E`: `BigFloat::parse` reads both as the start of an exponent.
pub open spec fn is_exponent_marker(c: char) -> bool {
    c == 'e' || c == 'E'
}

/// The value of a decimal digit.
pub open spec fn digit_value(c: char) -> int {
    c as int - '0' as int
}

/// The number of `0` characters from position `k` on.
pub open spec fn zeros_from(s: Seq<char>, k: int) -> int
    decreases s.len() - k,
{
    if 0 <= k < s.len() && s[k] == '0' {
        1 + zeros_from(s, k + 1)
    } else {
        0
    }
}

/// The number of decimal digits from position `k` on, at most `cap`.
pub open spec fn digits_from(s: Seq<char>, k: int, cap: int) -> int
    decreases s.len() - k,
{
    if 0 <= k < s.len() && cap > 0 && is_digit_char(s[k]) {
        1 + digits_from(s, k + 1, cap - 1)
    } else {
        0
    }
}

/// The exponent that `BigFloat::parse` reads from the digits at position `t`
/// on, having read `acc` so far: it takes one more digit while what it has read
/// is below `i32::MAX / 10`.
pub open spec fn exp_value(s: Seq<char>, t: int, acc: int) -> int
    decreases s.len() - t,
{
    if 0 <= t < s.len() && is_digit_char(s[t]) && acc < 214748364 {
        exp_value(s, t + 1, acc * 10 + digit_value(s[t]))
    } else {
        acc
    }
}

/// Whether `BigFloat::parse` overflows its `i32` exponent on `s`.
///
/// After an optional sign, the parser reads the integer digits (leading zeros
/// skipped, at most 40 kept), an optional point and the fraction digits (where
/// there are no integer digits, leading zeros counted and skipped; at most 40
/// digits kept in all), then, right behind them, an optional exponent `e` or
/// `E` with an optional sign. It then subtracts from the exponent, unchecked,
/// 40 less the number of integer digits kept, or, where none was kept, 40 plus
/// the zeros it skipped after the point. That overflows where the exponent is
/// negative and its size plus what is subtracted exceeds 2^31. The parser's
/// count of fraction digits is itself an `i32`; a fraction of 2147483607 digits
/// or more is left out as beyond it.
pub open spec fn bigfloat_overflows(s: Seq<char>) -> bool {
    let p0: int = if s.len() > 0 && (s[0] == '+' || s[0] == '-') {
        1
    } else {
        0
    };
    let z1 = zeros_from(s, p0);
    let d1 = digits_from(s, p0 + z1, 40);
    let q = p0 + z1 + d1;
    let q2 = if q < s.len() && s[q] == '.' {
        q + 1
    } else {
        q
    };
    let z2 = if d1 == 0 {
        zeros_from(s, q2)
    } else {
        0
    };
    let d2 = digits_from(s, q2 + z2, 40 - d1);
    let r = q2 + z2 + d2;
    let sub = if d1 > 0 {
        40 - d1
    } else {
        40 + z2
    };
    &&& p0 < s.len()
    &&& (s[p0] == '.' || is_digit_char(s[p0]))
    &&& {
        ||| (d1 == 0 && d2 > 0 && z2 + d2 >= 2147483607)
        ||| ((d1 > 0 || d2 > 0) && r + 1 < s.len() && is_exponent_marker(s[r]) && s[r + 1] == '-'
            && exp_value(s, r + 2, 0) + sub > 2147483648)
    }
}

/// How many times the JSON reader lowers its `i16` exponent while it reads the
/// fraction digits from position `k` on, with mantissa `num` so far: once for
/// each digit that still fits the `u64` mantissa (`num * 10 + digit`); a digit
/// that does not fit is read and dropped.
pub open spec fn frac_steps(s: Seq<char>, k: int, num: int) -> int
    decreases s.len() - k,
{
    if 0 <= k < s.len() && is_digit_char(s[k]) {
        let next = num * 10 + digit_value(s[k]);
        if next <= 18446744073709551615 {
            1 + frac_steps(s, k + 1, next)
        } else {
            frac_steps(s, k + 1, num)
        }
    } else {
        0
    }
}

/// The `0` at position `i` is the whole integer part of a JSON number: no
/// digit, point or exponent comes right before it.
pub open spec fn zero_begins_number(s: Seq<char>, i: int) -> bool {
    &&& 0 <= i < s.len()
    &&& s[i] == '0'
    &&& i == 0 || !{
        ||| is_digit_char(s[i - 1])
        ||| s[i - 1] == '.'
        ||| is_exponent_marker(s[i - 1])
        ||| s[i - 1] == '+'
        ||| (s[i - 1] == '-' && i >= 2 && is_exponent_marker(s[i - 2]))
    }
}

/// A text that `json::parse` reads without overflowing the `i16` exponent of a
/// number. The reader lowers that exponent, unchecked, once for each fraction
/// digit that still fits its `u64` mantissa. Where the integer part is not
/// `0`, the mantissa outgrows `u64` within twenty digits; where it is `0`,
/// every leading zero of the fraction counts, and 32769 steps overflow. This
/// does not follow where JSON strings begin and end, nor a syntax error
/// before the number, so such a run inside a string is left out too.
pub open spec fn json_readable(s: Seq<char>) -> bool {
    forall|p: int|
        1 <= p < s.len() && s[p] == '.' && zero_begins_number(s, p - 1) ==> frac_steps(s, p + 1, 0)
            < 32769
}

/// Counts of characters never exceed what is left of the text.
pub proof fn lemma_counts_bounded(s: Seq<char>, k: int, cap: int)
    requires
        0 <= k,
    ensures
        0 <= zeros_from(s, k) <= s.len(),
        k <= s.len() ==> zeros_from(s, k) <= s.len() - k,
        0 <= digits_from(s, k, cap) <= s.len(),
        k <= s.len() ==> digits_from(s, k, cap) <= s.len() - k,
        cap >= 0 ==> digits_from(s, k, cap) <= cap,
    decreases s.len() - k,
{
    if k < s.len() {
        lemma_counts_bounded(s, k + 1, cap - 1);
    }
}

/// `10^k`.
pub open spec fn pow10(k: nat) -> nat
    decreases k,
{
    if k == 0 {
        1
    } else {
        10 * pow10((k - 1) as nat)
    }
}

/// `10^k` is at least 1.
proof fn lemma_pow10_positive(k: nat)
    ensures
        pow10(k) >= 1,
    decreases k,
{
    if k > 0 {
        lemma_pow10_positive((k - 1) as nat);
    }
}

/// The exponent read from the last `n` characters of a text, having read
/// `acc`, is below `(acc + 1) * 10^n`.
proof fn lemma_exp_value_bound(s: Seq<char>, t: int, acc: int)
    requires
        0 <= acc,
        0 <= t <= s.len(),
    ensures
        exp_value(s, t, acc) < (acc + 1) * pow10((s.len() - t) as nat),
    decreases s.len() - t,
{
    let n = (s.len() - t) as nat;
    lemma_pow10_positive(n);
    if t < s.len() && is_digit_char(s[t]) && acc < 214748364 {
        let next = acc * 10 + digit_value(s[t]);
        lemma_exp_value_bound(s, t + 1, next);
        let p = pow10((n - 1) as nat);
        lemma_pow10_positive((n - 1) as nat);
        assert(pow10(n) == 10 * p);
        assert((next + 1) * p <= (acc + 1) * (10 * p)) by (nonlinear_arith)
            requires
                next + 1 <= (acc + 1) * 10,
                p >= 1,
        ;
    } else {
        assert(acc < (acc + 1) * pow10(n)) by (nonlinear_arith)
            requires
                acc >= 0,
                pow10(n) >= 1,
        ;
    }
}

/// A text of fewer than thirty characters whose only `e` or `E` stands
/// before at most six characters never makes `BigFloat::parse` overflow: the
/// exponent it can read has at most five digits.
pub proof fn lemma_short_exponent_no_overflow(a: Seq<char>, b: Seq<char>)
    requires
        forall|i: int| 0 <= i < a.len() ==> !is_exponent_marker(#[trigger] a[i]),
        forall|i: int| 0 <= i < b.len() ==> !is_exponent_marker(#[trigger] b[i]),
        1 <= b.len() <= 6,
        a.len() <= 22,
    ensures
        !bigfloat_overflows(a + seq!['e'] + b),
{
    let t = a + seq!['e'] + b;
    let p0: int = if t.len() > 0 && (t[0] == '+' || t[0] == '-') {
        1
    } else {
        0
    };
    let z1 = zeros_from(t, p0);
    lemma_counts_bounded(t, p0, 0);
    let d1 = digits_from(t, p0 + z1, 40);
    lemma_counts_bounded(t, p0 + z1, 40);
    let q = p0 + z1 + d1;
    let q2 = if q < t.len() && t[q] == '.' {
        q + 1
    } else {
        q
    };
    lemma_counts_bounded(t, q2, 0);
    let z2 = if d1 == 0 {
        zeros_from(t, q2)
    } else {
        0
    };
    let d2 = digits_from(t, q2 + z2, 40 - d1);
    lemma_counts_bounded(t, q2 + z2, 40 - d1);
    let r = q2 + z2 + d2;
    if r + 1 < t.len() && is_exponent_marker(t[r]) {
        if r < a.len() {
            assert(t[r] == a[r]);
        } else if r > a.len() {
            assert(t[r] == b[r - a.len() - 1]);
        }
        assert(r == a.len());
        lemma_exp_value_bound(t, r + 2, 0);
        let k = (t.len() - (r + 2)) as nat;
        assert(k <= 5);
        assert(pow10(k) <= 100000) by {
            reveal_with_fuel(pow10, 6);
            assert(k == 0 || k == 1 || k == 2 || k == 3 || k == 4 || k == 5);
        }
    }
}

/// The number of `0` characters of `cs` from position `k` on.
fn zeros_count(cs: &Vec<char>, k: usize) -> (r: usize)
    requires
        k <= cs.len(),
    ensures
        r == zeros_from(cs@, k as int),
        k + r <= cs.len(),
{
    let mut i: usize = k;
    while i < cs.len() && cs[i] == '0'
        invariant
            k <= i <= cs.len(),
            zeros_from(cs@, k as int) == (i - k) + zeros_from(cs@, i as int),
        decreases cs.len() - i,
    {
        i = i + 1;
    }
    i - k
}

/// The number of digits of `cs` from position `k` on, at most `cap`.
fn digits_count(cs: &Vec<char>, k: usize, cap: usize) -> (r: usize)
    requires
        k <= cs.len(),
    ensures
        r == digits_from(cs@, k as int, cap as int),
        k + r <= cs.len(),
        r <= cap,
{
    let mut i: usize = k;
    while i < cs.len() && i - k < cap && '0' <= cs[i] && cs[i] <= '9'
        invariant
            k <= i <= cs.len(),
            i - k <= cap,
            digits_from(cs@, k as int, cap as int) == (i - k) + digits_from(
                cs@,
                i as int,
                cap - (i - k),
            ),
        decreases cs.len() - i,
    {
        i = i + 1;
    }
    i - k
}

/// The exponent that `BigFloat::parse` reads from the digits of `cs` at
/// position `t` on.
fn exp_read(cs: &Vec<char>, t: usize) -> (r: u64)
    requires
        t <= cs.len(),
    ensures
        r == exp_value(cs@, t as int, 0),
        r <= 2147483649,
{
    let mut acc: u64 = 0;
    let mut i: usize = t;
    while i < cs.len() && '0' <= cs[i] && cs[i] <= '9' && acc < 214748364
        invariant
            t <= i <= cs.len(),
            acc <= 2147483649,
            exp_value(cs@, t as int, 0) == exp_value(cs@, i as int, acc as int),
        decreases cs.len() - i,
    {
        let d: u64 = ((cs[i] as u32) - 48) as u64;
        acc = acc * 10 + d;
        i = i + 1;
    }
    acc
}

/// Whether `BigFloat::parse` reads `cs` without overflowing; see
/// `bigfloat_overflows`.
pub fn bigfloat_readable_chars(cs: &Vec<char>) -> (r: bool)
    ensures
        r == !bigfloat_overflows(cs@),
{
    let n = cs.len();
    let p0: usize = if n > 0 && (cs[0] == '+' || cs[0] == '-') {
        1
    } else {
        0
    };
    if !(p0 < n && (cs[p0] == '.' || ('0' <= cs[p0] && cs[p0] <= '9'))) {
        return true;
    }
    let z1 = zeros_count(cs, p0);
    let d1 = digits_count(cs, p0 + z1, 40);
    let q = p0 + z1 + d1;
    let q2 = if q < n && cs[q] == '.' {
        q + 1
    } else {
        q
    };
    let z2 = if d1 == 0 {
        zeros_count(cs, q2)
    } else {
        0
    };
    let d2 = digits_count(cs, q2 + z2, 40 - d1);
    let r = q2 + z2 + d2;
    if d1 == 0 && d2 > 0 && z2 + d2 >= 2147483607 {
        return false;
    }
    if !(d1 > 0 || d2 > 0) {
        return true;
    }
    if !(r < n && r + 1 < n && (cs[r] == 'e' || cs[r] == 'E') && cs[r + 1] == '-') {
        return true;
    }
    let e = exp_read(cs, r + 2);
    let sub: u64 = if d1 > 0 {
        (40 - d1) as u64
    } else {
        40 + z2 as u64
    };
    !(e + sub > 2147483648)
}

/// How many times the JSON reader lowers its exponent for the fraction digits
/// of `cs` from position `k` on, starting from a mantissa of `0`; see
/// `frac_steps`.
fn frac_steps_count(cs: &Vec<char>, k: usize) -> (r: usize)
    requires
        k <= cs.len(),
    ensures
        r == frac_steps(cs@, k as int, 0),
{
    let mut num: u64 = 0;
    let mut steps: usize = 0;
    let mut i: usize = k;
    while i < cs.len() && '0' <= cs[i] && cs[i] <= '9'
        invariant
            k <= i <= cs.len(),
            steps <= i - k,
            frac_steps(cs@, k as int, 0) == steps + frac_steps(cs@, i as int, num as int),
        decreases cs.len() - i,
    {
        let d: u64 = ((cs[i] as u32) - 48) as u64;
        match num.checked_mul(10) {
            Some(m) => match m.checked_add(d) {
                Some(next) => {
                    num = next;
                    steps = steps + 1;
                },
                None => {},
            },
            None => {},
        }
        i = i + 1;
    }
    steps
}

/// Whether the `0` at position `i` of `cs` is the whole integer part of a JSON
/// number; see `zero_begins_number`.
fn zero_begins_number_at(cs: &Vec<char>, i: usize) -> (r: bool)
    requires
        i < cs.len(),
    ensures
        r == zero_begins_number(cs@, i as int),
{
    if cs[i] != '0' {
        return false;
    }
    if i == 0 {
        return true;
    }
    let c = cs[i - 1];
    let before_sign = i >= 2 && (cs[i - 2] == 'e' || cs[i - 2] == 'E');
    !(('0' <= c && c <= '9') || c == '.' || c == 'e' || c == 'E' || c == '+' || (c == '-'
        && before_sign))
}

/// Whether `json::parse` reads `cs` without overflowing; see `json_readable`.
pub fn json_readable_chars(cs: &Vec<char>) -> (r: bool)
    ensures
        r == json_readable(cs@),
{
    let mut p: usize = 1;
    if cs.len() == 0 {
        return true;
    }
    while p < cs.len()
        invariant
            1 <= p <= cs.len(),
            forall|m: int|
                1 <= m < p && cs@[m] == '.' && zero_begins_number(cs@, m - 1) ==> frac_steps(
                    cs@,
                    m + 1,
                    0,
                ) < 32769,
        decreases cs.len() - p,
    {
        if cs[p] == '.' && zero_begins_number_at(cs, p - 1) {
            if frac_steps_count(cs, p + 1) >= 32769 {
                return false;
            }
        }
        p = p + 1;
    }
    true
}

} // verus!
