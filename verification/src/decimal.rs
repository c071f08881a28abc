//! Reading decimal numbers such as `"0.52"`, `"-1250.5"` or `"1.5e3"` into micro-units.
//!
//! Accepted text follows the grammar of `f64`'s `FromStr` for finite numbers: an optional
//! sign, digits with an optional `.` (at least one digit in all), and an optional exponent
//! (`e` or `E`, an optional sign and at least one digit). The value is cut to whole
//! micro-units, rounding toward zero, and must stay below $4·10^12 in magnitude (so that a
//! reading fits `i64` and ten products of two readings fit `i128`). `inf`, `NaN`, spaces
//! and everything else are refused.

use vstd::prelude::*;
use crate::fixed::UNIT;

verus! {

pub open spec fn is_digit(c: char) -> bool {
    '0' <= c && c <= '9'
}

pub open spec fn digit_value(c: char) -> int {
    c as int - '0' as int
}

pub open spec fn all_digits(s: Seq<char>) -> bool {
    forall|k: int| 0 <= k < s.len() ==> is_digit(#[trigger] s[k])
}

/// Value of a run of decimal digits.
pub open spec fn digits_value(s: Seq<char>) -> int
    decreases s.len(),
{
    if s.len() == 0 {
        0
    } else {
        digits_value(s.drop_last()) * 10 + digit_value(s.last())
    }
}

pub open spec fn pow10(n: nat) -> int
    decreases n,
{
    if n == 0 {
        1
    } else {
        10 * pow10((n - 1) as nat)
    }
}

/// Position of the first `.` in `s`, or `s.len()` when there is none.
pub open spec fn dot_index(s: Seq<char>) -> int
    decreases s.len(),
{
    if s.len() == 0 {
        0
    } else if s[0] == '.' {
        0
    } else {
        1 + dot_index(s.skip(1))
    }
}

/// Integer part of `s` (before the first `.`).
pub open spec fn int_part(s: Seq<char>) -> Seq<char> {
    s.take(dot_index(s))
}

/// Fraction part of `s` (after the first `.`, empty when there is none).
pub open spec fn frac_part(s: Seq<char>) -> Seq<char> {
    if dot_index(s) < s.len() {
        s.skip(dot_index(s) + 1)
    } else {
        Seq::empty()
    }
}

/// Whether `c` marks the exponent.
pub open spec fn is_exp_mark(c: char) -> bool {
    c == 'e' || c == 'E'
}

/// Position of the first exponent mark in `s`, or `s.len()` when there is none.
pub open spec fn exp_index(s: Seq<char>) -> int
    decreases s.len(),
{
    if s.len() == 0 {
        0
    } else if is_exp_mark(s[0]) {
        0
    } else {
        1 + exp_index(s.skip(1))
    }
}

/// Length of the leading sign of `s` (0 or 1).
pub open spec fn sign_len(s: Seq<char>) -> int {
    if s.len() > 0 && (s[0] == '+' || s[0] == '-') {
        1
    } else {
        0
    }
}

/// The value of an exponent text: an optional sign followed by at least one digit.
pub open spec fn exponent_value(t: Seq<char>) -> Option<int> {
    let u = t.skip(sign_len(t));
    if u.len() > 0 && all_digits(u) {
        Some(if t[0] == '-' { -digits_value(u) } else { digits_value(u) })
    } else {
        None
    }
}

/// The exponent of the unsigned text `b`: 0 without an exponent mark.
pub open spec fn exponent_of(b: Seq<char>) -> Option<int> {
    if exp_index(b) < b.len() {
        exponent_value(b.skip(exp_index(b) + 1))
    } else {
        Some(0)
    }
}

/// The first `shift` digits of `ds` read as a whole number, padded with zeros past the
/// end: the value of the digits `ds` with the point `shift` places in, rounded toward zero.
pub open spec fn scaled(ds: Seq<char>, shift: int) -> int {
    if shift <= 0 {
        0
    } else if shift <= ds.len() {
        digits_value(ds.take(shift))
    } else {
        digits_value(ds) * pow10((shift - ds.len()) as nat)
    }
}

/// Bound (exclusive) on the magnitude of a readable value, in micro-units.
pub open spec fn decimal_limit() -> int {
    4_000_000_000_000_000_000
}

/// The value of the decimal text `s` in micro-units, if `s` is accepted.
pub open spec fn decimal_micros(s: Seq<char>) -> Option<int> {
    let b = s.skip(sign_len(s));
    let m = b.take(exp_index(b));
    let ip = int_part(m);
    let fp = frac_part(m);
    match exponent_of(b) {
        Some(e) => if all_digits(ip) && all_digits(fp) && ip.len() + fp.len() > 0 && scaled(ip + fp,
            ip.len() + e + 6) < decimal_limit() {
            let mag = scaled(ip + fp, ip.len() + e + 6);
            Some(if s[0] == '-' { -mag } else { mag })
        } else {
            None
        },
        None => None,
    }
}

proof fn lemma_dot_index(s: Seq<char>, i: int)
    requires
        0 <= i <= s.len(),
        forall|k: int| 0 <= k < i ==> s[k] != '.',
        i == s.len() || s[i] == '.',
    ensures
        dot_index(s) == i,
    decreases i,
{
    if i > 0 {
        lemma_dot_index(s.skip(1), i - 1);
    }
}

pub proof fn lemma_digits_push(s: Seq<char>, k: int)
    requires
        0 <= k < s.len(),
    ensures
        digits_value(s.take(k + 1)) == digits_value(s.take(k)) * 10 + digit_value(s[k]),
{
    assert(s.take(k + 1).drop_last() =~= s.take(k));
}

proof fn lemma_digits_nonneg(s: Seq<char>)
    requires
        all_digits(s),
    ensures
        digits_value(s) >= 0,
    decreases s.len(),
{
    if s.len() > 0 {
        lemma_digits_nonneg(s.drop_last());
    }
}

pub proof fn lemma_digits_grow(s: Seq<char>, k: int)
    requires
        all_digits(s),
        0 <= k <= s.len(),
    ensures
        digits_value(s.take(k)) <= digits_value(s),
    decreases s.len() - k,
{
    if k < s.len() {
        lemma_digits_push(s, k);
        lemma_digits_nonneg(s.take(k));
        lemma_digits_grow(s, k + 1);
    } else {
        assert(s.take(k) =~= s);
    }
}

proof fn lemma_pow10_positive(n: nat)
    ensures
        pow10(n) > 0,
    decreases n,
{
    if n > 0 {
        lemma_pow10_positive((n - 1) as nat);
    }
}

proof fn lemma_pow10_split(a: nat, b: nat)
    ensures
        pow10(a) * pow10(b) == pow10(a + b),
        pow10(b) > 0,
    decreases a,
{
    lemma_pow10_positive(b);
    if a > 0 {
        lemma_pow10_split((a - 1) as nat, b);
        assert(pow10(a) * pow10(b) == 10 * (pow10((a - 1) as nat) * pow10(b))) by (nonlinear_arith)
            requires
                pow10(a) == 10 * pow10((a - 1) as nat),
        ;
        assert((a + b - 1) as nat == ((a - 1) as nat + b) as nat);
    }
}

proof fn lemma_exp_index(s: Seq<char>, i: int)
    requires
        0 <= i <= s.len(),
        forall|k: int| 0 <= k < i ==> !is_exp_mark(s[k]),
        i == s.len() || is_exp_mark(s[i]),
    ensures
        exp_index(s) == i,
    decreases i,
{
    if i > 0 {
        lemma_exp_index(s.skip(1), i - 1);
    }
}

/// The digits of `c` in `[ilo, ihi)` followed by those in `[flo, fhi)`.
pub open spec fn joined(c: Seq<char>, ilo: int, ihi: int, flo: int, fhi: int) -> Seq<char> {
    c.subrange(ilo, ihi) + c.subrange(flo, fhi)
}

/// Bound (exclusive) beyond which an exponent no longer changes what a text reads to.
pub open spec fn exp_cap() -> int {
    100_000_000_000_000_000_000
}

/// `x` is the exponent `ev` with its magnitude capped at `exp_cap()`.
pub open spec fn exp_capped(ev: int, x: int) -> bool {
    if ev >= exp_cap() {
        x == exp_cap()
    } else if ev <= -exp_cap() {
        x == -exp_cap()
    } else {
        x == ev
    }
}

proof fn lemma_scaled_nonneg(ds: Seq<char>, shift: int)
    requires
        all_digits(ds),
    ensures
        scaled(ds, shift) >= 0,
{
    if 0 < shift <= ds.len() {
        lemma_digits_nonneg(ds.take(shift));
    } else if shift > ds.len() {
        lemma_digits_nonneg(ds);
        lemma_pow10_positive((shift - ds.len()) as nat);
        assert(digits_value(ds) * pow10((shift - ds.len()) as nat) >= 0) by (nonlinear_arith)
            requires
                digits_value(ds) >= 0,
                pow10((shift - ds.len()) as nat) > 0,
        ;
    }
}

/// Reading more digits never gives less.
proof fn lemma_scaled_at_least(ds: Seq<char>, shift: int, k: int)
    requires
        all_digits(ds),
        0 < k <= ds.len(),
        k <= shift,
    ensures
        scaled(ds, shift) >= digits_value(ds.take(k)),
{
    if shift <= ds.len() {
        let t = ds.take(shift);
        assert(t.take(k) =~= ds.take(k));
        lemma_digits_grow(t, k);
    } else {
        lemma_digits_grow(ds, k);
        lemma_digits_nonneg(ds);
        lemma_pow10_positive((shift - ds.len()) as nat);
        assert(digits_value(ds) * pow10((shift - ds.len()) as nat) >= digits_value(ds)) by (nonlinear_arith)
            requires
                digits_value(ds) >= 0,
                pow10((shift - ds.len()) as nat) >= 1,
        ;
    }
}

/// With the point far to the right, a text reads to 0 (all zero digits) or out of range.
proof fn lemma_scaled_far(ds: Seq<char>, shift: int)
    requires
        all_digits(ds),
        shift >= ds.len() + 19,
    ensures
        digits_value(ds) == 0 ==> scaled(ds, shift) == 0,
        digits_value(ds) != 0 ==> scaled(ds, shift) >= decimal_limit(),
{
    lemma_digits_nonneg(ds);
    lemma_pow10_mono(19, (shift - ds.len()) as nat);
    assert(pow10(19) == 10_000_000_000_000_000_000) by {
        reveal_with_fuel(pow10, 20);
    }
    let p = pow10((shift - ds.len()) as nat);
    if digits_value(ds) != 0 {
        assert(digits_value(ds) * p >= decimal_limit()) by (nonlinear_arith)
            requires
                digits_value(ds) >= 1,
                p >= 10_000_000_000_000_000_000,
        ;
    }
}

/// Position of the first exponent mark at or after `lo`, or the length.
fn find_exp_mark(s: &str, lo: usize) -> (r: usize)
    requires
        lo <= s@.len(),
    ensures
        lo <= r <= s@.len(),
        r - lo == exp_index(s@.skip(lo as int)),
{
    let n = s.unicode_len();
    let mut i = lo;
    while i < n && !(s.get_char(i) == 'e' || s.get_char(i) == 'E')
        invariant
            n == s@.len(),
            lo <= i <= n,
            forall|k: int| lo <= k < i ==> !is_exp_mark(s@[k]),
        decreases n - i,
    {
        i = i + 1;
    }
    proof {
        let t = s@.skip(lo as int);
        assert forall|k: int| 0 <= k < i - lo implies !is_exp_mark(t[k]) by {
            assert(t[k] == s@[lo + k]);
        }
        if i < n {
            assert(t[i - lo] == s@[i as int]);
        }
        lemma_exp_index(t, i - lo);
    }
    i
}

/// Position of the first `.` in `[lo, hi)`, or `hi`.
fn find_dot(s: &str, lo: usize, hi: usize) -> (r: usize)
    requires
        lo <= hi <= s@.len(),
    ensures
        lo <= r <= hi,
        r - lo == dot_index(s@.subrange(lo as int, hi as int)),
{
    let mut i = lo;
    while i < hi && s.get_char(i) != '.'
        invariant
            hi <= s@.len(),
            lo <= i <= hi,
            forall|k: int| lo <= k < i ==> s@[k] != '.',
        decreases hi - i,
    {
        i = i + 1;
    }
    proof {
        let t = s@.subrange(lo as int, hi as int);
        assert forall|k: int| 0 <= k < i - lo implies t[k] != '.' by {
            assert(t[k] == s@[lo + k]);
        }
        if i < hi {
            assert(t[i - lo] == s@[i as int]);
        }
        lemma_dot_index(t, i - lo);
    }
    i
}

/// Whether `[lo, hi)` holds digits only.
fn digits_in(s: &str, lo: usize, hi: usize) -> (r: bool)
    requires
        lo <= hi <= s@.len(),
    ensures
        r == all_digits(s@.subrange(lo as int, hi as int)),
{
    let mut i = lo;
    while i < hi
        invariant
            hi <= s@.len(),
            lo <= i <= hi,
            forall|k: int| lo <= k < i ==> is_digit(s@[k]),
        decreases hi - i,
    {
        let c = s.get_char(i);
        if !('0' <= c && c <= '9') {
            proof {
                assert(s@.subrange(lo as int, hi as int)[i - lo] == c);
            }
            return false;
        }
        i = i + 1;
    }
    proof {
        assert forall|k: int| 0 <= k < hi - lo implies is_digit(
            #[trigger] s@.subrange(lo as int, hi as int)[k]) by {
            assert(s@.subrange(lo as int, hi as int)[k] == s@[lo + k]);
        }
    }
    true
}

/// Reads the exponent text from `lo` to the end, its magnitude capped at `exp_cap()`.
fn read_exponent(s: &str, lo: usize) -> (r: Option<i128>)
    requires
        lo <= s@.len(),
    ensures
        r is Some <==> exponent_value(s@.skip(lo as int)) is Some,
        r matches Some(x) ==> exp_capped(exponent_value(s@.skip(lo as int))->0, x as int),
{
    let n = s.unicode_len();
    let ghost t = s@.skip(lo as int);
    let mut start = lo;
    let mut neg = false;
    if lo < n {
        let c = s.get_char(lo);
        assert(t[0] == c);
        if c == '+' || c == '-' {
            start = lo + 1;
        }
        neg = c == '-';
    }
    let ghost u = s@.skip(start as int);
    assert(u =~= t.skip(sign_len(t)));
    if start == n {
        return None;
    }
    let mut acc: i128 = 0;
    let mut i = start;
    while i < n
        invariant
            n == s@.len(),
            start < n,
            start <= i <= n,
            t == s@.skip(lo as int),
            u == s@.skip(start as int),
            u == t.skip(sign_len(t)),
            all_digits(u.take(i - start)),
            acc == (if digits_value(u.take(i - start)) < exp_cap() {
                digits_value(u.take(i - start))
            } else {
                exp_cap()
            }),
        decreases n - i,
    {
        let c = s.get_char(i);
        assert(u[i - start] == c);
        if !('0' <= c && c <= '9') {
            proof {
                assert(!is_digit(u[i - start]));
            }
            return None;
        }
        proof {
            lemma_digits_push(u, i - start);
            lemma_digits_nonneg(u.take(i - start));
        }
        let next = acc * 10 + (c as u32 - '0' as u32) as i128;
        acc = if next > 100_000_000_000_000_000_000 { 100_000_000_000_000_000_000 } else { next };
        i = i + 1;
        proof {
            assert forall|k: int| 0 <= k < i - start implies is_digit(#[trigger] u.take(i - start)[k]) by {
                if k < i - start - 1 {
                    assert(u.take(i - start)[k] == u.take(i - start - 1)[k]);
                }
            }
        }
    }
    proof {
        assert(u.take(n - start) =~= u);
        lemma_digits_nonneg(u);
    }
    Some(if neg { -acc } else { acc })
}

/// The first `shift` digits of the digits in `[ilo, ihi)` and `[flo, fhi)`, padded with
/// zeros, as a whole number below `decimal_limit()`; `None` when it is not below.
fn scale(s: &str, ilo: usize, ihi: usize, flo: usize, fhi: usize, shift: i128) -> (r: Option<i64>)
    requires
        ilo <= ihi <= flo <= fhi <= s@.len(),
        all_digits(joined(s@, ilo as int, ihi as int, flo as int, fhi as int)),
    ensures
        r matches Some(v) ==> v == scaled(joined(s@, ilo as int, ihi as int, flo as int, fhi as int),
            shift as int) && v < decimal_limit(),
        r is None ==> scaled(joined(s@, ilo as int, ihi as int, flo as int, fhi as int), shift as int)
            >= decimal_limit(),
{
    let ghost ds = joined(s@, ilo as int, ihi as int, flo as int, fhi as int);
    if shift <= 0 {
        return Some(0);
    }
    let ilen = ihi - ilo;
    let len = ilen + (fhi - flo);
    assert(ds.len() == len);
    let take: usize = if shift < len as i128 { shift as usize } else { len };
    let mut acc: i128 = 0;
    let mut k: usize = 0;
    assert(ds.take(0) =~= Seq::<char>::empty());
    while k < take
        invariant
            ilo <= ihi <= flo <= fhi <= s@.len(),
            ilen == ihi - ilo,
            ds == joined(s@, ilo as int, ihi as int, flo as int, fhi as int),
            all_digits(ds),
            ds.len() == len,
            take <= len,
            take <= shift,
            0 <= k <= take,
            acc == digits_value(ds.take(k as int)),
            0 <= acc < decimal_limit(),
        decreases take - k,
    {
        let c = if k < ilen { s.get_char(ilo + k) } else { s.get_char(flo + (k - ilen)) };
        assert(c == ds[k as int]);
        assert(is_digit(ds[k as int]));
        proof {
            lemma_digits_push(ds, k as int);
        }
        let next = acc * 10 + (c as u32 - '0' as u32) as i128;
        if next >= 4_000_000_000_000_000_000 {
            proof {
                lemma_scaled_at_least(ds, shift as int, k + 1);
            }
            return None;
        }
        acc = next;
        k = k + 1;
    }
    if shift <= len as i128 {
        return Some(acc as i64);
    }
    assert(ds.take(len as int) =~= ds);
    if acc == 0 {
        assert(scaled(ds, shift as int) == 0);
        return Some(0);
    }
    let rem: i128 = shift - len as i128;
    let mut j: i128 = 0;
    assert(pow10(0) == 1);
    while j < rem
        invariant
            0 <= j <= rem,
            ds == joined(s@, ilo as int, ihi as int, flo as int, fhi as int),
            rem == shift - ds.len(),
            rem > 0,
            digits_value(ds) >= 1,
            acc == digits_value(ds) * pow10(j as nat),
            0 < acc < decimal_limit(),
        decreases rem - j,
    {
        if acc >= 400_000_000_000_000_000 {
            proof {
                lemma_pow10_split(j as nat, (rem - j) as nat);
                assert((j as nat + (rem - j) as nat) as nat == rem as nat);
                assert(scaled(ds, shift as int) == digits_value(ds) * pow10(rem as nat));
                lemma_pow10_mono(1, (rem - j) as nat);
                assert(pow10(1) == 10) by {
                    reveal_with_fuel(pow10, 2);
                }
                let q = pow10((rem - j) as nat);
                assert(acc * q >= decimal_limit()) by (nonlinear_arith)
                    requires
                        acc >= 400_000_000_000_000_000,
                        q >= 10,
                ;
                assert(digits_value(ds) * pow10(rem as nat) == acc * q) by (nonlinear_arith)
                    requires
                        acc == digits_value(ds) * pow10(j as nat),
                        pow10(j as nat) * q == pow10(rem as nat),
                ;
            }
            return None;
        }
        proof {
            assert(pow10((j + 1) as nat) == 10 * pow10(j as nat));
            assert(digits_value(ds) * (10 * pow10(j as nat)) == 10 * (digits_value(ds) * pow10(j as nat)))
                by (nonlinear_arith);
        }
        acc = acc * 10;
        j = j + 1;
    }
    Some(acc as i64)
}

/// Reads the decimal text `s` into micro-units; `None` when `s` is not accepted.
#[verifier::rlimit(50)]
pub fn parse_decimal(s: &str) -> (r: Option<i64>)
    ensures
        r matches Some(v) ==> decimal_micros(s@) == Some(v as int),
        r is None ==> decimal_micros(s@) is None,
{
    let n = s.unicode_len();
    let ghost c = s@;
    let mut start: usize = 0;
    let mut neg = false;
    if n > 0 {
        let c0 = s.get_char(0);
        if c0 == '+' || c0 == '-' {
            start = 1;
        }
        neg = c0 == '-';
    }
    assert(start == sign_len(c));
    let ghost b = c.skip(start as int);
    let e = find_exp_mark(s, start);
    assert(exp_index(b) == e - start);
    let ghost m = b.take(exp_index(b));
    assert(m =~= c.subrange(start as int, e as int));
    let d = find_dot(s, start, e);
    let fp_lo = if d < e { d + 1 } else { e };
    let ghost ip = int_part(m);
    let ghost fp = frac_part(m);
    assert(ip =~= c.subrange(start as int, d as int));
    assert(fp =~= c.subrange(fp_lo as int, e as int));
    let int_ok = digits_in(s, start, d);
    let frac_ok = digits_in(s, fp_lo, e);
    if !int_ok || !frac_ok || (d == start && fp_lo == e) {
        return None;
    }
    let ghost ds = ip + fp;
    assert(ds =~= joined(c, start as int, d as int, fp_lo as int, e as int));
    assert(all_digits(ds)) by {
        assert forall|k: int| 0 <= k < ds.len() implies is_digit(#[trigger] ds[k]) by {
            if k < ip.len() {
                assert(ds[k] == ip[k]);
            } else {
                assert(ds[k] == fp[k - ip.len()]);
            }
        }
    }
    let exp: i128 = if e < n {
        assert(b.skip(exp_index(b) + 1) =~= c.skip(e + 1));
        match read_exponent(s, e + 1) {
            Some(x) => x,
            None => {
                return None;
            },
        }
    } else {
        0
    };
    let ghost ev = exponent_of(b)->0;
    assert(exponent_of(b) is Some);
    assert(exp_capped(ev, exp as int));
    let shift: i128 = (d - start) as i128 + exp + 6;
    let ghost true_shift = ip.len() + ev + 6;
    proof {
        lemma_scaled_nonneg(ds, true_shift);
        if ev >= exp_cap() {
            lemma_scaled_far(ds, true_shift);
            lemma_scaled_far(ds, shift as int);
        } else if ev <= -exp_cap() {
            assert(true_shift <= 0);
            assert(shift <= 0);
        } else {
            assert(true_shift == shift);
        }
    }
    let mag = match scale(s, start, d, fp_lo, e, shift) {
        Some(v) => v,
        None => {
            return None;
        },
    };
    assert(c[0] == '-' <==> neg);
    Some(if neg { -mag } else { mag })
}

/// Every accepted text reads to a value of magnitude below `decimal_limit()`.
pub proof fn lemma_decimal_range(s: Seq<char>)
    ensures
        decimal_micros(s) matches Some(v) ==> -decimal_limit() < v < decimal_limit(),
{
    let b = s.skip(sign_len(s));
    let m = b.take(exp_index(b));
    if decimal_micros(s) is Some {
        lemma_scaled_nonneg(int_part(m) + frac_part(m), int_part(m).len() + exponent_of(b)->0 + 6);
    }
}

proof fn lemma_pow10_mono(a: nat, b: nat)
    requires
        a <= b,
    ensures
        pow10(a) <= pow10(b),
    decreases b,
{
    lemma_pow10_positive(b);
    if a < b {
        lemma_pow10_mono(a, (b - 1) as nat);
    }
}

} // verus!
