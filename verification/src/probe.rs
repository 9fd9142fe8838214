//! Reading the prober's answer: a number of seconds in decimal notation,
//! taken in whole microseconds.

use vstd::prelude::*;
use vstd::string::*;
use crate::error::ProbeError;
use crate::paths::{find_last, last_index_of};
use crate::process::Exit;
use crate::text::{chars_of, decimal, digit_char, trim_bounds, trimmed};

verus! {

/// Whether `c` is one of the digits `0` to `9`.
pub open spec fn is_digit(c: char) -> bool {
    48 <= c as u32 <= 57
}

/// The number that the digit `c` writes; 0 for any other character.
pub open spec fn digit_of(c: char) -> nat {
    if is_digit(c) {
        (c as u32 - 48) as nat
    } else {
        0
    }
}

/// Whether `s` holds digits only.
pub open spec fn all_digits(s: Seq<char>) -> bool {
    forall|i: int| 0 <= i < s.len() ==> is_digit(#[trigger] s[i])
}

/// The number that the digits `s` write, most significant first.
pub open spec fn digits_value(s: Seq<char>) -> nat
    decreases s.len(),
{
    if s.len() == 0 {
        0
    } else {
        digits_value(s.drop_last()) * 10 + digit_of(s.last())
    }
}

/// The digit at place `i` of `s`, or 0 where `s` has no such place.
pub open spec fn digit_at(s: Seq<char>, i: int) -> nat {
    if 0 <= i < s.len() {
        digit_of(s[i])
    } else {
        0
    }
}

/// The digits of `s` before its point: all of `s` where it has no point.
pub open spec fn whole_part(s: Seq<char>) -> Seq<char> {
    if last_index_of(s, '.') < 0 {
        s
    } else {
        s.take(last_index_of(s, '.'))
    }
}

/// The digits of `s` behind its point: none where it has no point.
pub open spec fn fraction_part(s: Seq<char>) -> Seq<char> {
    if last_index_of(s, '.') < 0 {
        Seq::empty()
    } else {
        s.skip(last_index_of(s, '.') + 1)
    }
}

/// Whether `s` is a decimal mantissa: digits, with at most one point among
/// them, before them or behind them, and at least one digit.
pub open spec fn is_decimal(s: Seq<char>) -> bool {
    &&& all_digits(whole_part(s))
    &&& all_digits(fraction_part(s))
    &&& whole_part(s).len() + fraction_part(s).len() > 0
}

/// All digits of the mantissa `s`, those before the point and those behind
/// it.
pub open spec fn digits_of(s: Seq<char>) -> Seq<char> {
    whole_part(s) + fraction_part(s)
}

/// Whether `s` begins with a sign.
pub open spec fn has_sign(s: Seq<char>) -> bool {
    s.len() > 0 && (s.first() == '+' || s.first() == '-')
}

/// Whether `s` begins with a minus sign.
pub open spec fn is_negative(s: Seq<char>) -> bool {
    s.len() > 0 && s.first() == '-'
}

/// `s` without its sign, if it has one.
pub open spec fn unsigned_part(s: Seq<char>) -> Seq<char> {
    if has_sign(s) {
        s.drop_first()
    } else {
        s
    }
}

/// Whether `c` marks the begin of an exponent.
pub open spec fn is_exponent_mark(c: char) -> bool {
    c == 'e' || c == 'E'
}

/// The index of the last exponent mark in `s`, or `-1` when `s` holds none.
pub open spec fn last_mark(s: Seq<char>) -> int
    decreases s.len(),
{
    if s.len() == 0 {
        -1
    } else if is_exponent_mark(s.last()) {
        s.len() - 1
    } else {
        last_mark(s.drop_last())
    }
}

/// What stands before the exponent mark of `s`: all of `s` where it has no
/// mark.
pub open spec fn mantissa_part(s: Seq<char>) -> Seq<char> {
    if last_mark(s) < 0 {
        s
    } else {
        s.take(last_mark(s))
    }
}

/// What stands behind the exponent mark of `s`.
pub open spec fn exponent_part(s: Seq<char>) -> Seq<char> {
    s.skip(last_mark(s) + 1)
}

/// Whether `s` writes an exponent: digits, at least one, behind an optional
/// sign.
pub open spec fn is_exponent(s: Seq<char>) -> bool {
    unsigned_part(s).len() > 0 && all_digits(unsigned_part(s))
}

/// The exponent that `s` writes.
pub open spec fn exponent_value(s: Seq<char>) -> int {
    if is_negative(s) {
        -(digits_value(unsigned_part(s)) as int)
    } else {
        digits_value(unsigned_part(s)) as int
    }
}

/// The exponent of the number `s`: 0 where it has none.
pub open spec fn exponent_of(s: Seq<char>) -> int {
    if last_mark(s) < 0 {
        0
    } else {
        exponent_value(exponent_part(s))
    }
}

/// Whether `s` is a number without sign: a decimal mantissa, and behind it
/// nothing or an exponent mark with an exponent.
pub open spec fn is_number(s: Seq<char>) -> bool {
    is_decimal(mantissa_part(s)) && (last_mark(s) >= 0 ==> is_exponent(exponent_part(s)))
}

/// Ten to the power of `n`.
pub open spec fn pow10(n: nat) -> nat
    decreases n,
{
    if n == 0 {
        1
    } else {
        10 * pow10((n - 1) as nat)
    }
}

/// The number that the digits `d` write when the point stands behind the
/// first `k` of them, without what stands behind the point. Where `d` has
/// fewer than `k` digits it is continued by zeros; where `k` is not positive
/// there is nothing before the point.
pub open spec fn leading_value(d: Seq<char>, k: int) -> nat {
    if k <= 0 {
        0
    } else if k <= d.len() {
        digits_value(d.take(k))
    } else {
        digits_value(d) * pow10((k - d.len()) as nat)
    }
}

/// The number that the digits `d` write when the point stands behind the
/// first `k` of them, rounded to the nearest whole number, halves upwards:
/// one is added where the first digit behind the point is 5 or above.
pub open spec fn scaled(d: Seq<char>, k: int) -> nat {
    leading_value(d, k) + if digit_at(d, k) >= 5 {
        1nat
    } else {
        0nat
    }
}

/// The number of seconds `s`, a number without sign, in microseconds,
/// rounded to the nearest whole one, halves upwards: the point is moved to
/// the right by the exponent and by six places more.
pub open spec fn number_micros(s: Seq<char>) -> nat {
    scaled(
        digits_of(mantissa_part(s)),
        whole_part(mantissa_part(s)).len() + exponent_of(s) + 6,
    )
}

/// Whether `s` writes a duration: a number, with or without exponent, behind
/// an optional sign. A minus sign is taken only before zero.
pub open spec fn is_duration(s: Seq<char>) -> bool {
    &&& is_number(unsigned_part(s))
    &&& is_negative(s) ==> digits_value(digits_of(mantissa_part(unsigned_part(s)))) == 0
}

/// The duration that the prober's output states, in microseconds: the output
/// without the blanks around it must write a duration that, in microseconds,
/// fits in 64 bits.
pub open spec fn parsed_duration(output: Seq<char>) -> Result<u64, ProbeError> {
    let s = trimmed(output);
    if is_duration(s) && number_micros(unsigned_part(s)) <= u64::MAX {
        Ok(number_micros(unsigned_part(s)) as u64)
    } else {
        Err(ProbeError::ParseFailed)
    }
}

/// The result of one probe: a prober that could not be started, or that did
/// not report exit status 0, has failed; else its output is read.
pub open spec fn probe_result(exit: Exit, output: Seq<char>) -> Result<u64, ProbeError> {
    if exit == Exit::Code(0) {
        parsed_duration(output)
    } else {
        Err(ProbeError::ExecutionFailed)
    }
}

/// A numeral reads back as the number it was written for: `decimal(n)` holds
/// digits only, and their value is `n`.
pub proof fn law_decimal_reads_back(n: nat)
    ensures
        decimal(n).len() >= 1,
        all_digits(decimal(n)),
        digits_value(decimal(n)) == n,
    decreases n,
{
    let last = digit_char(n % 10);
    assert(is_digit(last) && digit_of(last) == n % 10);
    let front = decimal(n).drop_last();
    if n < 10 {
        assert(decimal(n) =~= seq![last]);
        assert(front =~= Seq::<char>::empty());
        assert(digits_value(front) == 0);
    } else {
        law_decimal_reads_back(n / 10);
        assert(decimal(n) =~= decimal(n / 10).push(last));
        assert(front =~= decimal(n / 10));
        assert(digits_value(front) == n / 10);
    }
    assert(decimal(n).last() == last);
    assert(digits_value(decimal(n)) == digits_value(front) * 10 + digit_of(last));
}

/// Digits set one behind the other write the first number moved to the left
/// by the length of the second, plus the second.
proof fn lemma_value_of_both(a: Seq<char>, b: Seq<char>)
    ensures
        digits_value(a + b) == digits_value(a) * pow10(b.len()) + digits_value(b),
    decreases b.len(),
{
    if b.len() == 0 {
        assert(a + b =~= a);
        assert(digits_value(a) * pow10(0) == digits_value(a)) by (nonlinear_arith)
            requires
                pow10(0) == 1,
        ;
    } else {
        let front = b.drop_last();
        lemma_value_of_both(a, front);
        assert((a + b).drop_last() =~= a + front);
        assert((a + b).last() == b.last());
        let p = pow10(front.len());
        assert(pow10(b.len()) == 10 * p);
        assert((digits_value(a) * p + digits_value(front)) * 10 == digits_value(a) * (10 * p)
            + digits_value(front) * 10) by (nonlinear_arith);
    }
}

/// Powers of ten multiply by adding their exponents.
proof fn lemma_pow10_adds(a: nat, b: nat)
    ensures
        pow10(a) * pow10(b) == pow10(a + b),
    decreases b,
{
    if b == 0 {
        assert(pow10(a) * pow10(0) == pow10(a)) by (nonlinear_arith)
            requires
                pow10(0) == 1,
        ;
    } else {
        lemma_pow10_adds(a, (b - 1) as nat);
        let p = pow10((b - 1) as nat);
        assert(pow10(b) == 10 * p);
        assert(pow10(a + b) == 10 * pow10((a + b - 1) as nat));
        assert(pow10(a) * (10 * p) == 10 * (pow10(a) * p)) by (nonlinear_arith);
    }
}

/// A number without exponent is its whole seconds, in microseconds, and the
/// millionths that the digits behind its point come to: with the output
/// "183.457959" that is 183 times a million, and 457959.
pub proof fn law_plain_decimal_micros(s: Seq<char>)
    requires
        last_mark(s) < 0,
    ensures
        number_micros(s) == digits_value(whole_part(s)) * 1000000 + scaled(fraction_part(s), 6),
{
    let w = whole_part(s);
    let f = fraction_part(s);
    let d = w + f;
    let k: int = (w.len() + 6) as int;
    reveal_with_fuel(pow10, 7);
    assert(pow10(6) == 1000000);
    assert(digit_at(d, k) == digit_at(f, 6)) by {
        if 6 < f.len() {
            assert(d[k] == f[6]);
        }
    }
    if f.len() >= 6 {
        assert(d.take(k) =~= w + f.take(6));
        lemma_value_of_both(w, f.take(6));
    } else {
        let rest = (6 - f.len()) as nat;
        lemma_value_of_both(w, f);
        lemma_pow10_adds(f.len(), rest);
        assert((digits_value(w) * pow10(f.len()) + digits_value(f)) * pow10(rest) == digits_value(w)
            * (pow10(f.len()) * pow10(rest)) + digits_value(f) * pow10(rest)) by (nonlinear_arith);
    }
}

/// The largest exponent that is told apart from those above it. It is far
/// above the number of digits that a text can hold.
const EXPONENT_LIMIT: u128 = 1267650600228229401496703205376;

/// `e`, or the limit with the sign of `e` where `e` is beyond it.
spec fn clamped(e: int) -> int {
    if e > EXPONENT_LIMIT {
        EXPONENT_LIMIT as int
    } else if e < -EXPONENT_LIMIT {
        -(EXPONENT_LIMIT as int)
    } else {
        e
    }
}

/// Powers of ten are positive and grow with the exponent.
proof fn lemma_pow10_grows(a: nat, b: nat)
    requires
        a <= b,
    ensures
        1 <= pow10(a) <= pow10(b),
    decreases b,
{
    if b > 0 {
        if a < b {
            lemma_pow10_grows(a, (b - 1) as nat);
        } else {
            lemma_pow10_grows((a - 1) as nat, (b - 1) as nat);
        }
    }
}

/// Ten to the power of twenty does not fit in 64 bits.
proof fn lemma_pow10_twenty()
    ensures
        pow10(20) == 100000000000000000000,
{
    reveal_with_fuel(pow10, 21);
}

/// With the point more than twenty places behind the last digit, a number
/// that is not zero does not fit in 64 bits.
proof fn lemma_scaled_far(d: Seq<char>, k: int)
    requires
        k > d.len() + 20,
    ensures
        digits_value(d) == 0 ==> scaled(d, k) == 0,
        digits_value(d) != 0 ==> scaled(d, k) > u64::MAX,
{
    let p = pow10((k - d.len()) as nat);
    lemma_pow10_grows(20, (k - d.len()) as nat);
    lemma_pow10_twenty();
    if digits_value(d) != 0 {
        assert(digits_value(d) * p >= p) by (nonlinear_arith)
            requires
                digits_value(d) >= 1,
                p >= 0,
        ;
    } else {
        assert(digits_value(d) * p == 0) by (nonlinear_arith)
            requires
                digits_value(d) == 0,
        ;
    }
}

/// An exponent beyond the limit gives what the limit gives, where that fits
/// in 64 bits, and fits exactly where the limit fits.
proof fn lemma_clamped_exponent(d: Seq<char>, whole: nat, e: int)
    requires
        whole <= d.len() <= usize::MAX,
    ensures
        scaled(d, whole + e + 6) <= u64::MAX <==> scaled(d, whole + clamped(e) + 6) <= u64::MAX,
        scaled(d, whole + e + 6) <= u64::MAX ==> scaled(d, whole + e + 6) == scaled(
            d,
            whole + clamped(e) + 6,
        ),
{
    if e > EXPONENT_LIMIT {
        lemma_scaled_far(d, whole + e + 6);
        lemma_scaled_far(d, whole + clamped(e) + 6);
    }
}

/// Digits write zero exactly when each of them is `0`.
proof fn lemma_zero_value(s: Seq<char>)
    ensures
        digits_value(s) == 0 <==> forall|i: int| 0 <= i < s.len() ==> digit_of(#[trigger] s[i]) == 0,
    decreases s.len(),
{
    if s.len() > 0 {
        let front = s.drop_last();
        lemma_zero_value(front);
        if digits_value(s) == 0 {
            assert forall|i: int| 0 <= i < s.len() implies digit_of(#[trigger] s[i]) == 0 by {
                if i < front.len() {
                    assert(front[i] == s[i]);
                }
            }
        } else if digit_of(s.last()) == 0 {
            let i = choose|i: int| 0 <= i < front.len() && digit_of(#[trigger] front[i]) != 0;
            assert(s[i] == front[i]);
        }
    }
}

/// The digits of a prefix write no more than the digits of the whole.
proof fn lemma_prefix_value(s: Seq<char>, k: int)
    requires
        0 <= k <= s.len(),
    ensures
        digits_value(s.take(k)) <= digits_value(s),
    decreases s.len() - k,
{
    if k < s.len() {
        lemma_prefix_value(s, k + 1);
        assert(s.take(k + 1).drop_last() =~= s.take(k));
    } else {
        assert(s.take(k) =~= s);
    }
}

/// The number that `c` writes, if `c` is a digit.
fn digit(c: char) -> (d: Option<u8>)
    ensures
        match d {
            Some(n) => is_digit(c) && n == digit_of(c) && n <= 9,
            None => !is_digit(c),
        },
{
    let code = c as u32;
    if 48 <= code && code <= 57 {
        Some((code - 48) as u8)
    } else {
        None
    }
}

/// The value of the digits `v[from..to]`, if they are digits and their value
/// fits in 64 bits.
fn whole_value(v: &Vec<char>, from: usize, to: usize) -> (value: Option<u64>)
    requires
        from <= to <= v.len(),
    ensures
        match value {
            Some(n) => all_digits(v@.subrange(from as int, to as int)) && n == digits_value(
                v@.subrange(from as int, to as int),
            ),
            None => !all_digits(v@.subrange(from as int, to as int)) || digits_value(
                v@.subrange(from as int, to as int),
            ) > u64::MAX,
        },
{
    let ghost part = v@.subrange(from as int, to as int);
    let mut acc: u64 = 0;
    let mut i: usize = from;
    assert(part.take(0) =~= Seq::<char>::empty());
    while i < to
        invariant
            from <= i <= to <= v.len(),
            part == v@.subrange(from as int, to as int),
            all_digits(part.take(i - from)),
            acc == digits_value(part.take(i - from)),
        decreases to - i,
    {
        let ghost next = part.take(i - from + 1);
        proof {
            assert(next.drop_last() =~= part.take(i - from));
            assert(next.last() == v@[i as int]);
            lemma_prefix_value(part, i - from + 1);
        }
        match digit(v[i]) {
            None => {
                assert(!is_digit(part[i - from]));
                return None;
            },
            Some(d) => {
                if acc > (u64::MAX - d as u64) / 10 {
                    return None;
                }
                acc = acc * 10 + d as u64;
                i = i + 1;
            },
        }
    }
    assert(part.take(i - from) =~= part);
    Some(acc)
}

/// Whether `v[from..to]` holds digits only.
fn only_digits(v: &Vec<char>, from: usize, to: usize) -> (holds: bool)
    requires
        from <= to <= v.len(),
    ensures
        holds == all_digits(v@.subrange(from as int, to as int)),
{
    let ghost part = v@.subrange(from as int, to as int);
    let mut i: usize = from;
    while i < to
        invariant
            from <= i <= to <= v.len(),
            part == v@.subrange(from as int, to as int),
            forall|k: int| 0 <= k < i - from ==> is_digit(#[trigger] part[k]),
        decreases to - i,
    {
        if digit(v[i]).is_none() {
            assert(!is_digit(part[i - from]));
            return false;
        }
        i = i + 1;
    }
    true
}

/// Whether `v[from..to]` holds the digit `0` only, given that it holds
/// digits only.
fn only_zeros(v: &Vec<char>, from: usize, to: usize) -> (holds: bool)
    requires
        from <= to <= v.len(),
    ensures
        holds == (digits_value(v@.subrange(from as int, to as int)) == 0),
{
    let ghost part = v@.subrange(from as int, to as int);
    let mut i: usize = from;
    while i < to
        invariant
            from <= i <= to <= v.len(),
            part == v@.subrange(from as int, to as int),
            forall|k: int| 0 <= k < i - from ==> digit_of(#[trigger] part[k]) == 0,
        decreases to - i,
    {
        match digit(v[i]) {
            Some(d) => {
                if d != 0 {
                    proof {
                        lemma_zero_value(part);
                        assert(digit_of(part[i - from]) != 0);
                    }
                    return false;
                }
            },
            None => {
                assert(digit_of(part[i - from]) == 0);
            },
        }
        i = i + 1;
    }
    proof {
        lemma_zero_value(part);
    }
    true
}

/// Where the last exponent mark in `v[from..to]` stands, as an index into
/// `v`.
fn find_last_mark(v: &Vec<char>, from: usize, to: usize) -> (found: Option<usize>)
    requires
        from <= to <= v.len(),
    ensures
        match found {
            Some(i) => from <= i < to && i - from == last_mark(
                v@.subrange(from as int, to as int),
            ),
            None => last_mark(v@.subrange(from as int, to as int)) == -1,
        },
{
    let mut k: usize = to;
    while k > from
        invariant
            from <= k <= to <= v.len(),
            last_mark(v@.subrange(from as int, to as int)) == last_mark(
                v@.subrange(from as int, k as int),
            ),
        decreases k,
    {
        let ghost part = v@.subrange(from as int, k as int);
        if v[k - 1] == 'e' || v[k - 1] == 'E' {
            assert(is_exponent_mark(part.last()));
            return Some(k - 1);
        }
        assert(part.drop_last() =~= v@.subrange(from as int, k - 1));
        k = k - 1;
    }
    None
}

/// The exponent that `v[from..to]` writes, if it writes one; an exponent
/// beyond the limit is given as the limit.
fn read_exponent(v: &Vec<char>, from: usize, to: usize) -> (exponent: Option<i128>)
    requires
        from <= to <= v.len(),
    ensures
        match exponent {
            Some(e) => is_exponent(v@.subrange(from as int, to as int)) && e == clamped(
                exponent_value(v@.subrange(from as int, to as int)),
            ),
            None => !is_exponent(v@.subrange(from as int, to as int)),
        },
{
    let ghost text = v@.subrange(from as int, to as int);
    let negative = from < to && v[from] == '-';
    let start = if from < to && (v[from] == '+' || v[from] == '-') {
        from + 1
    } else {
        from
    };
    let ghost part = v@.subrange(start as int, to as int);
    assert(part =~= unsigned_part(text));
    assert(negative == is_negative(text));
    if start == to {
        return None;
    }
    let limit: u128 = EXPONENT_LIMIT;
    let mut acc: u128 = 0;
    let mut i: usize = start;
    assert(part.take(0) =~= Seq::<char>::empty());
    while i < to
        invariant
            start <= i <= to <= v.len(),
            part == v@.subrange(start as int, to as int),
            text == v@.subrange(from as int, to as int),
            part == unsigned_part(text),
            limit == EXPONENT_LIMIT,
            all_digits(part.take(i - start)),
            acc <= limit,
            acc == if digits_value(part.take(i - start)) > limit {
                limit as nat
            } else {
                digits_value(part.take(i - start))
            },
        decreases to - i,
    {
        proof {
            let next = part.take(i - start + 1);
            assert(next.drop_last() =~= part.take(i - start));
            assert(next.last() == v@[i as int]);
        }
        match digit(v[i]) {
            None => {
                assert(!is_digit(part[i - start]));
                return None;
            },
            Some(d) => {
                let next = acc * 10 + d as u128;
                acc = if next > limit {
                    limit
                } else {
                    next
                };
                i = i + 1;
            },
        }
    }
    assert(part.take(i - start) =~= part);
    if negative {
        Some(-(acc as i128))
    } else {
        Some(acc as i128)
    }
}

/// The digits `d` with the point behind the first `k` of them, rounded, if
/// that fits in 64 bits.
fn scale(d: &Vec<char>, k: i128) -> (value: Option<u64>)
    requires
        all_digits(d@),
    ensures
        match value {
            Some(n) => n == scaled(d@, k as int),
            None => scaled(d@, k as int) > u64::MAX,
        },
{
    let len = d.len();
    if k <= 0 {
        let up = k == 0 && len > 0 && rounds_up(d[0]);
        return Some(if up { 1 } else { 0 });
    }
    let count: usize = if k >= len as i128 {
        len
    } else {
        k as usize
    };
    proof {
        assert(d@.subrange(0, count as int) =~= d@.take(count as int));
        assert(d@.take(len as int) =~= d@);
        assert forall|i: int| 0 <= i < count implies is_digit(#[trigger] d@.take(count as int)[i]) by {
            assert(d@.take(count as int)[i] == d@[i]);
        }
        if k > len {
            lemma_pow10_grows(0, (k - len) as nat);
            assert(digits_value(d@) * pow10((k - len) as nat) >= digits_value(d@))
                by (nonlinear_arith)
                requires
                    pow10((k - len) as nat) >= 1,
            ;
        }
    }
    let lead = match whole_value(d, 0, count) {
        Some(n) => n,
        None => {
            return None;
        },
    };
    if k > len as i128 {
        if lead == 0 {
            assert(digits_value(d@) * pow10((k - len) as nat) == 0) by (nonlinear_arith)
                requires
                    digits_value(d@) == 0,
            ;
            return Some(0);
        }
        let mut acc: u64 = lead;
        let mut j: i128 = len as i128;
        assert(digits_value(d@) * pow10(0) == digits_value(d@)) by (nonlinear_arith)
            requires
                pow10(0) == 1,
        ;
        while j < k
            invariant
                len <= j <= k,
                len == d.len(),
                acc >= 1,
                acc == digits_value(d@) * pow10((j - len) as nat),
            decreases k - j,
        {
            proof {
                let p = pow10((j - len) as nat);
                assert(pow10((j + 1 - len) as nat) == 10 * p);
                assert(digits_value(d@) * (10 * p) == (digits_value(d@) * p) * 10)
                    by (nonlinear_arith);
                lemma_pow10_grows((j + 1 - len) as nat, (k - len) as nat);
                assert(digits_value(d@) * pow10((j + 1 - len) as nat) <= digits_value(d@) * pow10(
                    (k - len) as nat,
                )) by (nonlinear_arith)
                    requires
                        pow10((j + 1 - len) as nat) <= pow10((k - len) as nat),
                ;
            }
            if acc > u64::MAX / 10 {
                return None;
            }
            acc = acc * 10;
            j = j + 1;
        }
        Some(acc)
    } else {
        let up = count < len && rounds_up(d[count]);
        if !up {
            Some(lead)
        } else if lead == u64::MAX {
            None
        } else {
            Some(lead + 1)
        }
    }
}

/// Whether the digit `c` behind the point rounds the number up.
fn rounds_up(c: char) -> (up: bool)
    ensures
        up == (digit_of(c) >= 5),
{
    match digit(c) {
        Some(d) => d >= 5,
        None => false,
    }
}

/// Appends the characters `v[from..to]` to `out`.
fn copy_digits(out: &mut Vec<char>, v: &Vec<char>, from: usize, to: usize)
    requires
        from <= to <= v.len(),
    ensures
        final(out)@ == old(out)@ + v@.subrange(from as int, to as int),
{
    let mut i: usize = from;
    while i < to
        invariant
            from <= i <= to <= v.len(),
            out@ == old(out)@ + v@.subrange(from as int, i as int),
        decreases to - i,
    {
        out.push(v[i]);
        i = i + 1;
        assert(out@ =~= old(out)@ + v@.subrange(from as int, i as int));
    }
}

/// Where the parts of the number `v[from..to]` stand in `v`: the digits
/// before the point, the digits behind it, and the exponent.
struct NumberBounds {
    whole_to: usize,
    fraction_from: usize,
    mantissa_to: usize,
    exponent_from: Option<usize>,
}

/// Finds the parts of the number `v[from..to]`.
fn number_bounds(v: &Vec<char>, from: usize, to: usize) -> (at: NumberBounds)
    requires
        from <= to <= v.len(),
    ensures
        from <= at.whole_to <= at.fraction_from <= at.mantissa_to <= to,
        mantissa_part(v@.subrange(from as int, to as int)) == v@.subrange(
            from as int,
            at.mantissa_to as int,
        ),
        whole_part(mantissa_part(v@.subrange(from as int, to as int))) == v@.subrange(
            from as int,
            at.whole_to as int,
        ),
        fraction_part(mantissa_part(v@.subrange(from as int, to as int))) == v@.subrange(
            at.fraction_from as int,
            at.mantissa_to as int,
        ),
        match at.exponent_from {
            Some(e) => e <= to && last_mark(v@.subrange(from as int, to as int)) >= 0
                && exponent_part(v@.subrange(from as int, to as int)) == v@.subrange(
                e as int,
                to as int,
            ),
            None => last_mark(v@.subrange(from as int, to as int)) < 0,
        },
{
    let ghost s = v@.subrange(from as int, to as int);
    let mark = find_last_mark(v, from, to);
    let mantissa_to = match mark {
        Some(m) => m,
        None => to,
    };
    let ghost mantissa = v@.subrange(from as int, mantissa_to as int);
    assert(mantissa =~= mantissa_part(s));
    let (whole_to, fraction_from) = match find_last(v, from, mantissa_to, '.') {
        Some(dot) => (dot, dot + 1),
        None => (mantissa_to, mantissa_to),
    };
    assert(whole_part(mantissa) =~= v@.subrange(from as int, whole_to as int));
    assert(fraction_part(mantissa) =~= v@.subrange(fraction_from as int, mantissa_to as int));
    let exponent_from = match mark {
        Some(m) => {
            assert(exponent_part(s) =~= v@.subrange(m + 1, to as int));
            Some(m + 1)
        },
        None => None,
    };
    NumberBounds { whole_to, fraction_from, mantissa_to, exponent_from }
}

/// The number without sign `v[from..to]` in microseconds, together with
/// whether it is zero; nothing where it is no number or does not fit in 64
/// bits.
fn read_number(v: &Vec<char>, from: usize, to: usize) -> (value: Option<(u64, bool)>)
    requires
        from <= to <= v.len(),
    ensures
        match value {
            Some((micros, zero)) => {
                &&& is_number(v@.subrange(from as int, to as int))
                &&& micros == number_micros(v@.subrange(from as int, to as int))
                &&& zero == (digits_value(
                    digits_of(mantissa_part(v@.subrange(from as int, to as int))),
                ) == 0)
            },
            None => !is_number(v@.subrange(from as int, to as int)) || number_micros(
                v@.subrange(from as int, to as int),
            ) > u64::MAX,
        },
{
    let ghost s = v@.subrange(from as int, to as int);
    let at = number_bounds(v, from, to);
    if at.whole_to - from + (at.mantissa_to - at.fraction_from) == 0 {
        return None;
    }
    if !only_digits(v, from, at.whole_to) || !only_digits(v, at.fraction_from, at.mantissa_to) {
        return None;
    }
    let exponent: i128 = match at.exponent_from {
        None => 0,
        Some(e) => match read_exponent(v, e, to) {
            Some(e) => e,
            None => {
                return None;
            },
        },
    };
    assert(is_number(s));
    assert(exponent == clamped(exponent_of(s)));
    let mut digits: Vec<char> = Vec::new();
    copy_digits(&mut digits, v, from, at.whole_to);
    copy_digits(&mut digits, v, at.fraction_from, at.mantissa_to);
    assert(digits@ =~= digits_of(mantissa_part(s)));
    let zero = only_zeros(&digits, 0, digits.len());
    proof {
        assert(digits@.subrange(0, digits.len() as int) =~= digits@);
        lemma_clamped_exponent(digits@, (at.whole_to - from) as nat, exponent_of(s));
    }
    match scale(&digits, (at.whole_to - from) as i128 + exponent + 6) {
        Some(micros) => Some((micros, zero)),
        None => None,
    }
}

/// Reads the prober's output as a duration in microseconds.
pub fn parse_duration(output: &str) -> (result: Result<u64, ProbeError>)
    ensures
        result == parsed_duration(output@),
{
    let v = chars_of(output);
    let (start, to) = trim_bounds(&v);
    let ghost signed = v@.subrange(start as int, to as int);
    let negative = start < to && v[start] == '-';
    let from = if start < to && (v[start] == '+' || v[start] == '-') {
        start + 1
    } else {
        start
    };
    assert(v@.subrange(from as int, to as int) =~= unsigned_part(signed));
    assert(negative == is_negative(signed));
    match read_number(&v, from, to) {
        Some((micros, zero)) => if negative && !zero {
            Err(ProbeError::ParseFailed)
        } else {
            Ok(micros)
        },
        None => Err(ProbeError::ParseFailed),
    }
}

/// The duration, in microseconds, that one run of the prober gave: `exit` is
/// how the run ended, `output` what it printed to standard output.
pub fn probe_duration(exit: Exit, output: &str) -> (result: Result<u64, ProbeError>)
    ensures
        result == probe_result(exit, output@),
{
    match exit {
        Exit::Code(0) => parse_duration(output),
        _ => Err(ProbeError::ExecutionFailed),
    }
}

} // verus!
