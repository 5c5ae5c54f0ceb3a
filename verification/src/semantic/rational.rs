//! Rational privacy budgets written as text: `a/b`, an integer, or a decimal
//! fraction such as `0.5`.
//!
//! Integers are read exactly as `i128::from_str` and `u128::from_str` read
//! them: an optional sign (`-` only for the signed type), then at least one
//! ASCII digit, and a value in range.
use vstd::prelude::*;
use crate::semantic::check_program::TypeChecker;
use crate::text::{chars_of, trim, trim_bounds, first_pos, find_char, lemma_first_pos};

verus! {

pub open spec fn is_digit(c: char) -> bool {
    48 <= (c as u32) <= 57
}

pub open spec fn digit_value(c: char) -> int {
    (c as u32) - 48
}

pub open spec fn all_digits(s: Seq<char>) -> bool {
    forall|i: int| 0 <= i < s.len() ==> is_digit(#[trigger] s[i])
}

/// The value of a string of decimal digits.
pub open spec fn digits_value(s: Seq<char>) -> int
    decreases s.len(),
{
    if s.len() == 0 {
        0
    } else {
        digits_value(s.drop_last()) * 10 + digit_value(s.last())
    }
}

/// The integer that `s` spells: an optional sign (`-` only when `signed`),
/// then one or more decimal digits. No range check.
pub open spec fn decimal_value(s: Seq<char>, signed: bool) -> Option<int> {
    if s.len() == 0 {
        None
    } else if (s[0] == '+' || s[0] == '-') && s.len() == 1 {
        None
    } else if s[0] == '+' {
        if all_digits(s.drop_first()) {
            Some(digits_value(s.drop_first()))
        } else {
            None
        }
    } else if s[0] == '-' && signed {
        if all_digits(s.drop_first()) {
            Some(-digits_value(s.drop_first()))
        } else {
            None
        }
    } else if all_digits(s) {
        Some(digits_value(s))
    } else {
        None
    }
}

pub open spec fn in_i128(x: int) -> bool {
    i128::MIN <= x <= i128::MAX
}

/// What `i128::from_str` gives for `s`.
pub open spec fn i128_text_value(s: Seq<char>) -> Option<int> {
    match decimal_value(s, true) {
        Some(v) => if in_i128(v) {
            Some(v)
        } else {
            None
        },
        None => None,
    }
}

/// What `u128::from_str` gives for `s`.
pub open spec fn u128_text_value(s: Seq<char>) -> Option<int> {
    match decimal_value(s, false) {
        Some(v) => if 0 <= v <= u128::MAX {
            Some(v)
        } else {
            None
        },
        None => None,
    }
}

/// `s` without its trailing `'0'` characters.
pub open spec fn trim_end_zeros(s: Seq<char>) -> Seq<char>
    decreases s.len(),
{
    if s.len() > 0 && s.last() == '0' {
        trim_end_zeros(s.drop_last())
    } else {
        s
    }
}

/// Number of bytes in the UTF-8 encoding of `c`.
pub open spec fn char_utf8_len(c: char) -> int {
    let u = c as u32;
    if u < 0x80 {
        1
    } else if u < 0x800 {
        2
    } else if u < 0x10000 {
        3
    } else {
        4
    }
}

/// Number of bytes in the UTF-8 encoding of `s`.
pub open spec fn utf8_len(s: Seq<char>) -> int
    decreases s.len(),
{
    if s.len() == 0 {
        0
    } else {
        utf8_len(s.drop_last()) + char_utf8_len(s.last())
    }
}

pub open spec fn pow10(n: nat) -> int
    decreases n,
{
    if n == 0 {
        1
    } else {
        10 * pow10((n - 1) as nat)
    }
}

/// The pieces of a decimal fraction `t` whose first `'.'` is at `k`:
/// the integer part's value, the exponent of the denominator, the value of
/// the fraction digits, and the sign.
pub open spec fn decimal_int_part(t: Seq<char>, k: int) -> Option<int> {
    let int_part = t.take(k);
    if int_part.len() == 0 || int_part == seq!['-'] {
        Some(0)
    } else {
        i128_text_value(int_part)
    }
}

pub open spec fn decimal_frac_text(t: Seq<char>, k: int) -> Seq<char> {
    trim_end_zeros(t.skip(k + 1))
}

/// The exponent handed to `u128::pow`: the fraction's byte length, as a
/// `u32`.
pub open spec fn decimal_exponent(t: Seq<char>, k: int) -> int {
    utf8_len(decimal_frac_text(t, k)) % 0x1_0000_0000
}

pub open spec fn decimal_frac_value(t: Seq<char>, k: int) -> Option<int> {
    let fs = decimal_frac_text(t, k);
    if fs.len() == 0 {
        Some(0)
    } else {
        i128_text_value(fs)
    }
}

pub open spec fn decimal_sign(t: Seq<char>) -> int {
    if t.len() > 0 && t[0] == '-' {
        -1
    } else {
        1
    }
}

/// The rational that `text` denotes, as `(numerator, denominator)`.
pub open spec fn rational_value(text: Seq<char>) -> Option<(int, int)> {
    let t = trim(text);
    if t.contains('/') {
        let k = first_pos(t, '/').unwrap();
        let rest = t.subrange(k + 1, t.len() as int);
        if rest.contains('/') {
            None
        } else {
            match (i128_text_value(trim(t.take(k))), u128_text_value(trim(rest))) {
                (Some(n), Some(d)) => if d == 0 {
                    None
                } else {
                    Some((n, d))
                },
                _ => None,
            }
        }
    } else if i128_text_value(t) is Some {
        Some((i128_text_value(t).unwrap(), 1))
    } else if t.contains('.') {
        let k = first_pos(t, '.').unwrap();
        match decimal_int_part(t, k) {
            None => None,
            Some(iv) => match decimal_frac_value(t, k) {
                None => None,
                Some(fv) => {
                    let den = pow10(decimal_exponent(t, k) as nat);
                    Some((iv * den + decimal_sign(t) * fv, den))
                },
            },
        }
    } else {
        None
    }
}

/// Inputs on which reading `text` overflows: a denominator past `10^38`,
/// or a numerator outside `i128`.
pub open spec fn rational_overflows(text: Seq<char>) -> bool {
    let t = trim(text);
    if t.contains('/') || i128_text_value(t) is Some || !t.contains('.') {
        false
    } else {
        let k = first_pos(t, '.').unwrap();
        match decimal_int_part(t, k) {
            None => false,
            Some(iv) => if decimal_exponent(t, k) > 38 {
                true
            } else {
                match decimal_frac_value(t, k) {
                    None => false,
                    Some(fv) => {
                        let den = pow10(decimal_exponent(t, k) as nat);
                        !in_i128(iv * den) || !in_i128(decimal_sign(t) * fv) || !in_i128(
                            iv * den + decimal_sign(t) * fv,
                        )
                    },
                }
            },
        }
    }
}

pub proof fn lemma_digits_value_nonneg(s: Seq<char>)
    requires
        all_digits(s),
    ensures
        digits_value(s) >= 0,
    decreases s.len(),
{
    if s.len() > 0 {
        assert(is_digit(s[s.len() - 1]));
        lemma_digits_value_nonneg(s.drop_last());
    }
}

pub proof fn lemma_digits_value_prefix(s: Seq<char>, k: int)
    requires
        all_digits(s),
        0 <= k <= s.len(),
    ensures
        digits_value(s.take(k)) <= digits_value(s),
    decreases s.len() - k,
{
    if k < s.len() {
        let t = s.drop_last();
        assert(all_digits(t)) by {
            assert forall|i: int| 0 <= i < t.len() implies is_digit(#[trigger] t[i]) by {
                assert(t[i] == s[i]);
            }
        }
        lemma_digits_value_nonneg(t);
        assert(is_digit(s[s.len() - 1]));
        if k < t.len() {
            lemma_digits_value_prefix(t, k);
            assert(t.take(k) =~= s.take(k));
        } else {
            assert(t =~= s.take(k));
        }
    } else {
        assert(s.take(k) =~= s);
    }
}

pub proof fn lemma_pow10_pos(n: nat)
    ensures
        1 <= pow10(n),
    decreases n,
{
    if n > 0 {
        lemma_pow10_pos((n - 1) as nat);
    }
}

pub proof fn lemma_pow10_mono(a: nat, b: nat)
    requires
        a <= b,
    ensures
        1 <= pow10(a) <= pow10(b),
    decreases b,
{
    lemma_pow10_pos(a);
    if a < b {
        lemma_pow10_mono(a, (b - 1) as nat);
        lemma_pow10_pos((b - 1) as nat);
    }
}

pub proof fn lemma_pow10_38()
    ensures
        pow10(38) == 100000000000000000000000000000000000000,
{
    reveal_with_fuel(pow10, 40);
}

/// The value of the digits `v[lo..hi]`, when they are all digits and the
/// value fits in `u128`.
fn digits_u128(v: &Vec<char>, lo: usize, hi: usize) -> (r: Option<u128>)
    requires
        lo <= hi <= v@.len(),
    ensures
        ({
            let s = v@.subrange(lo as int, hi as int);
            match r {
                Some(x) => all_digits(s) && x == digits_value(s),
                None => !all_digits(s) || digits_value(s) > u128::MAX,
            }
        }),
{
    let ghost s = v@.subrange(lo as int, hi as int);
    let mut acc: u128 = 0;
    let mut i = lo;
    while i < hi
        invariant
            lo <= i <= hi <= v@.len(),
            s == v@.subrange(lo as int, hi as int),
            all_digits(v@.subrange(lo as int, i as int)),
            acc == digits_value(v@.subrange(lo as int, i as int)),
        decreases hi - i,
    {
        let c = v[i];
        let u = c as u32;
        let ghost pre = v@.subrange(lo as int, i as int);
        let ghost next = v@.subrange(lo as int, i + 1);
        assert(next.drop_last() =~= pre);
        assert(next.last() == c);
        assert(s.take(i - lo) =~= pre);
        assert(s.take(i + 1 - lo) =~= next);
        if u < 48 || u > 57 {
            assert(s[i - lo] == c);
            return None;
        }
        let d = (u - 48) as u128;
        let m = acc.checked_mul(10);
        match m {
            None => {
                proof {
                    if all_digits(s) {
                        lemma_digits_value_prefix(s, i + 1 - lo);
                        assert(all_digits(pre));
                    }
                }
                return None;
            },
            Some(m) => {
                let n = m.checked_add(d);
                match n {
                    None => {
                        proof {
                            if all_digits(s) {
                                lemma_digits_value_prefix(s, i + 1 - lo);
                            }
                        }
                        return None;
                    },
                    Some(n) => {
                        acc = n;
                    },
                }
            },
        }
        i += 1;
        assert(all_digits(v@.subrange(lo as int, i as int))) by {
            let t = v@.subrange(lo as int, i as int);
            assert forall|j: int| 0 <= j < t.len() implies is_digit(#[trigger] t[j]) by {
                if j < t.len() - 1 {
                    assert(t[j] == pre[j]);
                }
            }
        }
    }
    Some(acc)
}

/// Reads `v[lo..hi]` as `i128::from_str` does.
pub fn parse_i128_at(v: &Vec<char>, lo: usize, hi: usize) -> (r: Option<i128>)
    requires
        lo <= hi <= v@.len(),
    ensures
        match r {
            Some(x) => i128_text_value(v@.subrange(lo as int, hi as int)) == Some(x as int),
            None => i128_text_value(v@.subrange(lo as int, hi as int)) is None,
        },
{
    let ghost s = v@.subrange(lo as int, hi as int);
    if lo == hi {
        return None;
    }
    let c0 = v[lo];
    assert(s[0] == c0);
    if (c0 == '+' || c0 == '-') && hi - lo == 1 {
        return None;
    }
    let start = if c0 == '+' || c0 == '-' {
        lo + 1
    } else {
        lo
    };
    assert(v@.subrange(start as int, hi as int) =~= if c0 == '+' || c0 == '-' {
        s.drop_first()
    } else {
        s
    });
    let mag = digits_u128(v, start, hi);
    match mag {
        None => {
            proof {
                let t = v@.subrange(start as int, hi as int);
                if all_digits(t) {
                    assert(digits_value(t) > u128::MAX);
                }
            }
            None
        },
        Some(m) => {
            if c0 == '-' {
                if m <= 0x8000_0000_0000_0000_0000_0000_0000_0000u128 {
                    if m == 0x8000_0000_0000_0000_0000_0000_0000_0000u128 {
                        Some(i128::MIN)
                    } else {
                        let x = m as i128;
                        Some(-x)
                    }
                } else {
                    None
                }
            } else {
                if m <= 0x7fff_ffff_ffff_ffff_ffff_ffff_ffff_ffffu128 {
                    Some(m as i128)
                } else {
                    None
                }
            }
        },
    }
}

/// Reads `v[lo..hi]` as `u128::from_str` does.
pub fn parse_u128_at(v: &Vec<char>, lo: usize, hi: usize) -> (r: Option<u128>)
    requires
        lo <= hi <= v@.len(),
    ensures
        match r {
            Some(x) => u128_text_value(v@.subrange(lo as int, hi as int)) == Some(x as int),
            None => u128_text_value(v@.subrange(lo as int, hi as int)) is None,
        },
{
    let ghost s = v@.subrange(lo as int, hi as int);
    if lo == hi {
        return None;
    }
    let c0 = v[lo];
    assert(s[0] == c0);
    if (c0 == '+' || c0 == '-') && hi - lo == 1 {
        return None;
    }
    if c0 == '-' {
        assert(!is_digit(s[0]));
        return None;
    }
    let start = if c0 == '+' {
        lo + 1
    } else {
        lo
    };
    assert(v@.subrange(start as int, hi as int) =~= if c0 == '+' {
        s.drop_first()
    } else {
        s
    });
    digits_u128(v, start, hi)
}

/// Bounds of `v[lo..hi]` without its trailing zeros.
fn trim_end_zeros_at(v: &Vec<char>, lo: usize, hi: usize) -> (r: usize)
    requires
        lo <= hi <= v@.len(),
    ensures
        lo <= r <= hi,
        v@.subrange(lo as int, r as int) == trim_end_zeros(v@.subrange(lo as int, hi as int)),
{
    let mut b = hi;
    while b > lo && v[b - 1] == '0'
        invariant
            lo <= b <= hi <= v@.len(),
            trim_end_zeros(v@.subrange(lo as int, b as int)) == trim_end_zeros(
                v@.subrange(lo as int, hi as int),
            ),
        decreases b - lo,
    {
        assert(v@.subrange(lo as int, b as int).drop_last() =~= v@.subrange(lo as int, b - 1));
        b -= 1;
    }
    b
}

/// Byte length of the UTF-8 encoding of `v[lo..hi]`.
fn utf8_len_at(v: &Vec<char>, lo: usize, hi: usize) -> (r: u128)
    requires
        lo <= hi <= v@.len(),
    ensures
        r == utf8_len(v@.subrange(lo as int, hi as int)),
{
    let mut total: u128 = 0;
    let mut i = lo;
    while i < hi
        invariant
            lo <= i <= hi <= v@.len(),
            total == utf8_len(v@.subrange(lo as int, i as int)),
            total <= 4 * (i - lo),
        decreases hi - i,
    {
        let u = v[i] as u32;
        let w: u128 = if u < 0x80 {
            1
        } else if u < 0x800 {
            2
        } else if u < 0x10000 {
            3
        } else {
            4
        };
        assert(v@.subrange(lo as int, i + 1).drop_last() =~= v@.subrange(lo as int, i as int));
        total = total + w;
        i += 1;
    }
    total
}

fn pow10_u128(e: u32) -> (r: u128)
    requires
        e <= 38,
    ensures
        r == pow10(e as nat),
{
    let mut den: u128 = 1;
    let mut j: u32 = 0;
    while j < e
        invariant
            j <= e <= 38,
            den == pow10(j as nat),
        decreases e - j,
    {
        proof {
            lemma_pow10_mono((j + 1) as nat, 38);
            lemma_pow10_38();
        }
        den = den * 10;
        j += 1;
    }
    den
}

impl TypeChecker {
    /// Reads a rational written as `a/b`, as an integer, or as a decimal
    /// fraction. `None` when the text is none of these, or the denominator of
    /// `a/b` is zero.
    pub fn parse_rational(s: &str) -> (r: Option<(i128, u128)>)
        requires
            !rational_overflows(s@),
        ensures
            match r {
                Some((n, d)) => rational_value(s@) == Some((n as int, d as int)),
                None => rational_value(s@) is None,
            },
    {
        let v = chars_of(s);
        let (lo, hi) = trim_bounds(&v, 0, v.len());
        assert(v@.subrange(0, v@.len() as int) =~= s@);
        let ghost t = trim(s@);
        assert(t == v@.subrange(lo as int, hi as int));
        match find_char(&v, lo, hi, '/') {
            Some(k) => {
                proof {
                    let kk = k - lo;
                    lemma_first_pos(t, '/');
                    assert(t[kk] == '/');
                    assert(t.contains('/'));
                    assert(v@.subrange(k + 1, hi as int) =~= t.subrange(kk + 1, t.len() as int));
                    assert(v@.subrange(lo as int, k as int) =~= t.take(kk));
                }
                if find_char(&v, k + 1, hi, '/').is_some() {
                    proof {
                        let rest = v@.subrange(k + 1, hi as int);
                        lemma_first_pos(rest, '/');
                    }
                    return None;
                }
                proof {
                    let rest = v@.subrange(k + 1, hi as int);
                    if rest.contains('/') {
                        let j = choose|j: int| 0 <= j < rest.len() && rest[j] == '/';
                        assert(first_pos(rest, '/') is Some);
                    }
                }
                let (a, b) = trim_bounds(&v, lo, k);
                let (c, d) = trim_bounds(&v, k + 1, hi);
                let num = parse_i128_at(&v, a, b);
                let den = parse_u128_at(&v, c, d);
                match (num, den) {
                    (Some(n), Some(dn)) => {
                        if dn == 0 {
                            None
                        } else {
                            Some((n, dn))
                        }
                    },
                    _ => None,
                }
            },
            None => {
                proof {
                    if t.contains('/') {
                        let j = choose|j: int| 0 <= j < t.len() && t[j] == '/';
                        assert(first_pos(t, '/') is Some);
                    }
                }
                match parse_i128_at(&v, lo, hi) {
                    Some(n) => Some((n, 1)),
                    None => {
                        match find_char(&v, lo, hi, '.') {
                            None => {
                                proof {
                                    if t.contains('.') {
                                        let j = choose|j: int| 0 <= j < t.len() && t[j] == '.';
                                        assert(first_pos(t, '.') is Some);
                                    }
                                }
                                None
                            },
                            Some(k) => {
                                let ghost kk = k - lo;
                                proof {
                                    lemma_first_pos(t, '.');
                                    assert(t[kk] == '.');
                                    assert(t.contains('.'));
                                    assert(v@.subrange(lo as int, k as int) =~= t.take(kk));
                                    assert(v@.subrange(k + 1, hi as int) =~= t.skip(kk + 1));
                                }
                                let sign: i128 = if lo < hi && v[lo] == '-' {
                                    -1
                                } else {
                                    1
                                };
                                assert(sign == decimal_sign(t));
                                let int_val: i128 = if k == lo || (k == lo + 1 && v[lo] == '-') {
                                    proof {
                                        if k == lo + 1 {
                                            assert(t.take(kk) =~= seq!['-']);
                                        }
                                    }
                                    0
                                } else {
                                    proof {
                                        if t.take(kk) == seq!['-'] {
                                            assert(t.take(kk).len() == 1);
                                            assert(t[0] == t.take(kk)[0]);
                                        }
                                    }
                                    match parse_i128_at(&v, lo, k) {
                                        Some(x) => x,
                                        None => {
                                            return None;
                                        },
                                    }
                                };
                                let fe = trim_end_zeros_at(&v, k + 1, hi);
                                let blen = utf8_len_at(&v, k + 1, fe);
                                let e = (blen % 0x1_0000_0000) as u32;
                                assert(e == decimal_exponent(t, kk));
                                let den = pow10_u128(e);
                                let frac_val: i128 = if fe == k + 1 {
                                    0
                                } else {
                                    match parse_i128_at(&v, k + 1, fe) {
                                        Some(x) => x,
                                        None => {
                                            return None;
                                        },
                                    }
                                };
                                proof {
                                    lemma_pow10_mono(e as nat, 38);
                                    lemma_pow10_38();
                                }
                                let dd = den as i128;
                                let num = int_val * dd + sign * frac_val;
                                Some((num, den))
                            },
                        }
                    },
                }
            },
        }
    }
}


/// The rational `text` denotes, or `0/1` when it denotes none.
pub open spec fn rational_or_zero(text: Seq<char>) -> (int, int) {
    match rational_value(text) {
        Some(p) => p,
        None => (0, 1),
    }
}

/// The `i128` that a `u128` denominator becomes under `as`.
pub open spec fn as_i128(d: int) -> int {
    if d > i128::MAX {
        d - 0x1_0000_0000_0000_0000_0000_0000_0000_0000
    } else {
        d
    }
}

/// The two cross products that compare `a` with `b`.
pub open spec fn cross_products(a: Seq<char>, b: Seq<char>) -> (int, int) {
    let (na, da) = rational_or_zero(a);
    let (nb, db) = rational_or_zero(b);
    (na * as_i128(db), nb * as_i128(da))
}

/// Inputs on which `a` and `b` can be compared: both read without
/// overflow, and both cross products fit in `i128`.
pub open spec fn comparable(a: Seq<char>, b: Seq<char>) -> bool {
    &&& !rational_overflows(a)
    &&& !rational_overflows(b)
    &&& in_i128(cross_products(a, b).0)
    &&& in_i128(cross_products(a, b).1)
}

pub open spec fn rational_leq(a: Seq<char>, b: Seq<char>) -> bool {
    cross_products(a, b).0 <= cross_products(a, b).1
}

pub open spec fn rational_same(a: Seq<char>, b: Seq<char>) -> bool {
    cross_products(a, b).0 == cross_products(a, b).1
}

/// The lesser of `a` and `b`: `a` where it is `<=` `b`, else `b`.
pub open spec fn rational_minimum(a: Seq<char>, b: Seq<char>) -> Seq<char> {
    if rational_leq(a, b) {
        a
    } else {
        b
    }
}

fn parse_or_zero(s: &str) -> (r: (i128, u128))
    requires
        !rational_overflows(s@),
    ensures
        (r.0 as int, r.1 as int) == rational_or_zero(s@),
{
    match TypeChecker::parse_rational(s) {
        Some(p) => p,
        None => (0, 1),
    }
}

fn denominator_as_i128(d: u128) -> (r: i128)
    ensures
        r as int == as_i128(d as int),
{
    if d <= 0x7fff_ffff_ffff_ffff_ffff_ffff_ffff_ffffu128 {
        d as i128
    } else {
        let low = (d - 0x8000_0000_0000_0000_0000_0000_0000_0000u128) as i128;
        low + i128::MIN
    }
}

impl TypeChecker {
    /// `a <= b` as rationals, compared by cross-multiplying; text that is no
    /// rational counts as `0`.
    pub fn rational_le(a: &str, b: &str) -> (r: bool)
        requires
            comparable(a@, b@),
        ensures
            r == rational_leq(a@, b@),
    {
        let (na, da) = parse_or_zero(a);
        let (nb, db) = parse_or_zero(b);
        let l = na * denominator_as_i128(db);
        let rr = nb * denominator_as_i128(da);
        l <= rr
    }

    /// The lesser of `a` and `b` (by `rational_le`), as written.
    pub fn rational_min(a: &str, b: &str) -> (r: String)
        requires
            comparable(a@, b@),
        ensures
            r@ == rational_minimum(a@, b@),
    {
        broadcast use vstd::string::to_string_from_display_ensures_for_str;

        if Self::rational_le(a, b) {
            a.to_string()
        } else {
            b.to_string()
        }
    }

    /// `a == b` as rationals, compared by cross-multiplying; text that is no
    /// rational counts as `0`.
    pub fn rational_eq(a: &str, b: &str) -> (r: bool)
        requires
            comparable(a@, b@),
        ensures
            r == rational_same(a@, b@),
    {
        let (na, da) = parse_or_zero(a);
        let (nb, db) = parse_or_zero(b);
        let l = na * denominator_as_i128(db);
        let rr = nb * denominator_as_i128(da);
        l == rr
    }
}

/// The denominator that a budget is read with is positive.
pub proof fn lemma_denominator_positive(text: Seq<char>)
    ensures
        rational_or_zero(text).1 >= 1,
{
    let t = trim(text);
    if rational_value(text) is Some && !t.contains('/') && !(i128_text_value(t) is Some) {
        let k = first_pos(t, '.').unwrap();
        lemma_pow10_pos(decimal_exponent(t, k) as nat);
    }
}

/// The denominator of `text` is no larger than `i128::MAX`, so comparing by
/// cross-multiplication keeps its sign.
pub open spec fn small_denominator(text: Seq<char>) -> bool {
    rational_or_zero(text).1 <= i128::MAX
}

/// Every budget compares `<=` with itself.
pub proof fn law_rational_leq_reflexive(a: Seq<char>)
    ensures
        rational_leq(a, a),
        rational_same(a, a),
{
}

/// Of two budgets one is `<=` the other.
pub proof fn law_rational_leq_total(a: Seq<char>, b: Seq<char>)
    ensures
        rational_leq(a, b) || rational_leq(b, a),
{
}

/// Budgets that are `<=` each other both ways are equal.
pub proof fn law_rational_leq_antisymmetric(a: Seq<char>, b: Seq<char>)
    requires
        rational_leq(a, b),
        rational_leq(b, a),
    ensures
        rational_same(a, b),
{
}

/// Equality of budgets does not depend on the order of the two.
pub proof fn law_rational_same_symmetric(a: Seq<char>, b: Seq<char>)
    ensures
        rational_same(a, b) == rational_same(b, a),
{
}

proof fn lemma_cross_trans(na: int, da: int, nb: int, db: int, nc: int, dc: int)
    requires
        da > 0,
        db > 0,
        dc > 0,
        na * db <= nb * da,
        nb * dc <= nc * db,
    ensures
        na * dc <= nc * da,
{
    assert(na * db * dc <= nb * da * dc) by (nonlinear_arith)
        requires
            na * db <= nb * da,
            dc > 0,
    ;
    assert(nb * dc * da <= nc * db * da) by (nonlinear_arith)
        requires
            nb * dc <= nc * db,
            da > 0,
    ;
    assert(nb * da * dc == nb * dc * da) by (nonlinear_arith);
    assert(db * (na * dc) <= db * (nc * da)) by (nonlinear_arith)
        requires
            na * db * dc <= nc * db * da,
    ;
    assert(na * dc <= nc * da) by (nonlinear_arith)
        requires
            db * (na * dc) <= db * (nc * da),
            db > 0,
    ;
}

/// `<=` on budgets is transitive, where every denominator is at most
/// `i128::MAX`.
pub proof fn law_rational_leq_transitive(a: Seq<char>, b: Seq<char>, c: Seq<char>)
    requires
        small_denominator(a),
        small_denominator(b),
        small_denominator(c),
        rational_leq(a, b),
        rational_leq(b, c),
    ensures
        rational_leq(a, c),
{
    lemma_denominator_positive(a);
    lemma_denominator_positive(b);
    lemma_denominator_positive(c);
    let (na, da) = rational_or_zero(a);
    let (nb, db) = rational_or_zero(b);
    let (nc, dc) = rational_or_zero(c);
    lemma_cross_trans(na, da, nb, db, nc, dc);
}

/// Equality of budgets is transitive, where every denominator is at most
/// `i128::MAX`.
pub proof fn law_rational_same_transitive(a: Seq<char>, b: Seq<char>, c: Seq<char>)
    requires
        small_denominator(a),
        small_denominator(b),
        small_denominator(c),
        rational_same(a, b),
        rational_same(b, c),
    ensures
        rational_same(a, c),
{
    law_rational_leq_transitive(a, b, c);
    law_rational_leq_transitive(c, b, a);
}

/// Two budgets are equal exactly when each is `<=` the other.
pub proof fn law_rational_same_is_leq_both_ways(a: Seq<char>, b: Seq<char>)
    ensures
        rational_same(a, b) == (rational_leq(a, b) && rational_leq(b, a)),
{
}

/// The minimum of two budgets is one of them, is `<=` both, and is the
/// first where the two are equal.
pub proof fn law_rational_minimum(a: Seq<char>, b: Seq<char>)
    ensures
        rational_minimum(a, b) == a || rational_minimum(a, b) == b,
        rational_leq(rational_minimum(a, b), a),
        rational_leq(rational_minimum(a, b), b),
        rational_same(a, b) ==> rational_minimum(a, b) == a,
{
}

} // verus!
