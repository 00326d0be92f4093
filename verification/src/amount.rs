//! Money amounts. The providers quote balances and prices as decimal numbers (`12.5085`,
//! `"0.2500"`, `2.592`); the library keeps them exactly, as a whole number of 10⁻¹⁸ units,
//! instead of rounding them to binary floating point.
//!
//! The accepted text is the finite part of what `f64::from_str` accepts: an optional sign,
//! digits with an optional decimal point (`5.`, `.5`), and an optional exponent (`2.5e-3`).
//! A text is refused when its value is not a whole number of 10⁻¹⁸ units, when it lies
//! beyond ±(2¹²⁷ − 1) units, or when its digits (with the point removed) exceed 2¹²⁸ − 1.

use vstd::prelude::*;
use crate::num::{all_digits, digits_value, is_digit, lemma_digits_value_monotone};
use crate::text::{slice_vec, split_once, split_once_chars};

verus! {

pub open spec fn pow10(n: nat) -> nat
    decreases n,
{
    if n == 0 { 1 } else { 10 * pow10((n - 1) as nat) }
}

/// Number of 10⁻¹⁸ units in one.
pub open spec fn unit() -> int {
    1_000_000_000_000_000_000
}

pub open spec fn i128_max() -> int {
    170141183460469231731687303715884105727
}

pub open spec fn is_exp_mark(c: char) -> bool {
    c == 'e' || c == 'E'
}

/// Index of the first `e` / `E`.
pub open spec fn find_exp(s: Seq<char>) -> Option<int>
    decreases s.len(),
{
    if s.len() == 0 {
        None
    } else if is_exp_mark(s[0]) {
        Some(0)
    } else {
        match find_exp(s.drop_first()) {
            Some(i) => Some(i + 1),
            None => None,
        }
    }
}

/// `[+-]?digits` → its value.
pub open spec fn signed_int(s: Seq<char>) -> Option<int> {
    let neg = s.len() > 0 && s[0] == '-';
    let d = if s.len() > 0 && (s[0] == '+' || s[0] == '-') { s.drop_first() } else { s };
    if d.len() > 0 && all_digits(d) {
        Some(if neg { -(digits_value(d) as int) } else { digits_value(d) as int })
    } else {
        None
    }
}

/// The text after an optional leading sign.
pub open spec fn unsigned_part(s: Seq<char>) -> Seq<char> {
    if s.len() > 0 && (s[0] == '+' || s[0] == '-') { s.drop_first() } else { s }
}

/// The part of `r` before the exponent mark.
pub open spec fn mantissa_part(r: Seq<char>) -> Seq<char> {
    match find_exp(r) { Some(i) => r.subrange(0, i), None => r }
}

/// The exponent of `r` (0 when there is none), `None` when it is malformed.
pub open spec fn exponent_part(r: Seq<char>) -> Option<int> {
    match find_exp(r) { Some(i) => signed_int(r.subrange(i + 1, r.len() as int)), None => Some(0) }
}

/// Digits before the decimal point.
pub open spec fn int_part(m: Seq<char>) -> Seq<char> {
    match split_once(m, '.') { Some((a, b)) => a, None => m }
}

/// Digits after the decimal point.
pub open spec fn frac_part(m: Seq<char>) -> Seq<char> {
    match split_once(m, '.') { Some((a, b)) => b, None => Seq::empty() }
}

/// The parts of a decimal text: sign, integer digits, fraction digits, exponent.
pub open spec fn decimal_parts(s: Seq<char>) -> Option<(bool, Seq<char>, Seq<char>, int)> {
    let neg = s.len() > 0 && s[0] == '-';
    let m = mantissa_part(unsigned_part(s));
    let x = exponent_part(unsigned_part(s));
    let a = int_part(m);
    let b = frac_part(m);
    if all_digits(a) && all_digits(b) && a.len() + b.len() > 0 && x is Some {
        Some((neg, a, b, x.unwrap()))
    } else {
        None
    }
}

/// Value of an accepted decimal text in 10⁻¹⁸ units, before the range checks.
pub open spec fn scaled_magnitude(n: nat, k: int) -> Option<nat> {
    if k >= 0 {
        Some(n * pow10(k as nat))
    } else if n % pow10((-k) as nat) == 0 {
        Some(n / pow10((-k) as nat))
    } else {
        None
    }
}

/// A magnitude in units, when it is exact and within range.
pub open spec fn magnitude_units(n: nat, k: int) -> Option<nat> {
    match scaled_magnitude(n, k) {
        Some(v) => if v <= i128_max() { Some(v) } else { None },
        None => None,
    }
}

/// The amount a decimal text denotes, in 10⁻¹⁸ units.
pub open spec fn decimal_units(s: Seq<char>) -> Option<int> {
    match decimal_parts(s) {
        Some((neg, a, b, e)) => {
            let n = digits_value(a + b);
            if n > u128::MAX {
                None
            } else {
                match magnitude_units(n, 18 + e - b.len()) {
                    Some(v) => Some(if neg { -v } else { v as int }),
                    None => None,
                }
            }
        },
        None => None,
    }
}

/// An exact amount of money: a whole number of 10⁻¹⁸ units.
#[derive(Clone, Copy, Debug, PartialEq, Eq, PartialOrd, Ord, Hash, Default, Structural)]
pub struct Amount {
    pub units: i128,
}

impl Amount {
    pub open spec fn value(self) -> int {
        self.units as int
    }

    /// The amount a decimal text denotes (`0.25`, `12`, `1e-3`), exactly; `None` for any other
    /// text.
    pub fn parse(text: &str) -> (r: Option<Amount>)
        ensures
            match r {
                Some(a) => decimal_units(text@) == Some(a.units as int),
                None => decimal_units(text@) is None,
            },
    {
        parse_decimal(&crate::text::chars_of(text))
    }

    /// Zero.
    pub fn zero() -> (r: Amount)
        ensures
            r.units == 0,
    {
        Amount { units: 0 }
    }

    /// The amount `units` × 10⁻¹⁸.
    pub fn from_units(units: i128) -> (r: Amount)
        ensures
            r.units == units,
    {
        Amount { units }
    }

    /// The smaller of two amounts.
    pub fn min(self, other: Amount) -> (r: Amount)
        ensures
            r.units == if other.units < self.units { other.units } else { self.units },
    {
        if other.units < self.units { other } else { self }
    }

    /// The larger of two amounts.
    pub fn max(self, other: Amount) -> (r: Amount)
        ensures
            r.units == if other.units > self.units { other.units } else { self.units },
    {
        if other.units > self.units { other } else { self }
    }
}

pub fn pow10_u128(n: u32) -> (r: u128)
    requires
        n <= 38,
    ensures
        r as nat == pow10(n as nat),
        r > 0,
    decreases n,
{
    if n == 0 {
        1
    } else {
        let p = pow10_u128(n - 1);
        proof {
            lemma_pow10_bound((n - 1) as nat);
            assert(pow10((n - 1) as nat) <= pow10(37)) by {
                lemma_pow10_monotone((n - 1) as nat, 37);
            }
            lemma_pow10_values();
        }
        10 * p
    }
}

pub proof fn lemma_pow10_bound(n: nat)
    ensures
        pow10(n) >= 1,
    decreases n,
{
    if n > 0 {
        lemma_pow10_bound((n - 1) as nat);
    }
}

pub proof fn lemma_pow10_monotone(a: nat, b: nat)
    requires
        a <= b,
    ensures
        pow10(a) <= pow10(b),
    decreases b,
{
    if a < b {
        lemma_pow10_monotone(a, (b - 1) as nat);
        lemma_pow10_bound((b - 1) as nat);
    }
}

/// Value of a digit string in a `u128`, when it is all digits and fits.
pub fn digits_u128(d: &[char]) -> (r: Option<u128>)
    ensures
        match r {
            Some(v) => all_digits(d@) && v as nat == digits_value(d@),
            None => !all_digits(d@) || digits_value(d@) > u128::MAX,
        },
{
    let mut acc: u128 = 0;
    let mut i: usize = 0;
    while i < d.len()
        invariant
            i <= d@.len(),
            d@.len() == d.len(),
            all_digits(d@.subrange(0, i as int)),
            acc as nat == digits_value(d@.subrange(0, i as int)),
        decreases d.len() - i,
    {
        let c = d[i];
        if !('0' <= c && c <= '9') {
            assert(!is_digit(d@[i as int]));
            return None;
        }
        let dv = (c as u32 - '0' as u32) as u128;
        let ghost pre = d@.subrange(0, i as int);
        let ghost post = d@.subrange(0, i + 1);
        proof {
            assert(post.drop_last() =~= pre);
            assert(post.last() == c);
            assert forall|j: int| 0 <= j < post.len() implies is_digit(#[trigger] post[j]) by {
                if j < pre.len() {
                    assert(post[j] == pre[j]);
                }
            }
        }
        if acc > (u128::MAX - dv) / 10 {
            proof {
                assert(digits_value(post) > u128::MAX) by (nonlinear_arith)
                    requires
                        digits_value(post) == acc * 10 + dv,
                        acc > (u128::MAX - dv) / 10,
                        dv < 10,
                ;
                lemma_digits_value_monotone(d@, i + 1);
            }
            return None;
        }
        proof {
            assert(acc * 10 + dv <= u128::MAX) by (nonlinear_arith)
                requires
                    acc <= (u128::MAX - dv) / 10,
                    dv < 10,
            ;
        }
        acc = acc * 10 + dv;
        i = i + 1;
    }
    assert(d@.subrange(0, i as int) =~= d@);
    Some(acc)
}


pub proof fn lemma_find_exp(s: Seq<char>)
    ensures
        match find_exp(s) {
            Some(i) => 0 <= i < s.len() && is_exp_mark(s[i]) && forall|j: int| 0 <= j < i ==> !is_exp_mark(s[j]),
            None => forall|j: int| 0 <= j < s.len() ==> !is_exp_mark(s[j]),
        },
    decreases s.len(),
{
    if s.len() > 0 && !is_exp_mark(s[0]) {
        lemma_find_exp(s.drop_first());
        assert forall|j: int| 0 < j < s.len() implies s[j] == s.drop_first()[j - 1] by {}
    }
}

fn find_exp_mark(s: &[char]) -> (r: Option<usize>)
    ensures
        match r {
            Some(i) => find_exp(s@) == Some(i as int),
            None => find_exp(s@) is None,
        },
{
    let mut i: usize = 0;
    while i < s.len()
        invariant
            i <= s@.len(),
            forall|j: int| 0 <= j < i ==> !is_exp_mark(s@[j]),
        decreases s.len() - i,
    {
        if s[i] == 'e' || s[i] == 'E' {
            proof {
                lemma_find_exp(s@);
            }
            return Some(i);
        }
        i = i + 1;
    }
    proof {
        lemma_find_exp(s@);
    }
    None
}

fn all_digits_exec(d: &[char]) -> (r: bool)
    ensures
        r == all_digits(d@),
{
    let mut i: usize = 0;
    while i < d.len()
        invariant
            i <= d@.len(),
            forall|j: int| 0 <= j < i ==> is_digit(#[trigger] d@[j]),
        decreases d.len() - i,
    {
        if !('0' <= d[i] && d[i] <= '9') {
            return false;
        }
        i = i + 1;
    }
    true
}

/// Exponent bound beyond which every non-zero amount is out of range or inexact.
pub open spec fn exp_cap() -> nat {
    1267650600228229401496703205376
}

/// An exponent text `[+-]?digits`: `None` when malformed, else its sign and its magnitude,
/// capped just above `exp_cap()`.
fn parse_exponent(x: &[char]) -> (r: Option<(bool, u128)>)
    ensures
        match r {
            Some((neg, m)) => signed_int(x@) is Some && {
                let e = signed_int(x@).unwrap();
                &&& (m <= exp_cap() ==> e == if neg { -(m as int) } else { m as int })
                &&& (m > exp_cap() ==> (neg ==> e < -(exp_cap() as int)) && (!neg ==> e > exp_cap()))
            },
            None => signed_int(x@) is None,
        },
{
    let neg = x.len() > 0 && x[0] == '-';
    let start: usize = if x.len() > 0 && (x[0] == '+' || x[0] == '-') { 1 } else { 0 };
    let ghost d = if x@.len() > 0 && (x@[0] == '+' || x@[0] == '-') { x@.drop_first() } else { x@ };
    proof {
        if start == 1 {
            assert(d =~= x@.subrange(1, x@.len() as int));
        } else {
            assert(d =~= x@.subrange(0, x@.len() as int));
        }
    }
    if start >= x.len() {
        return None;
    }
    let mut acc: u128 = 0;
    let mut i = start;
    while i < x.len()
        invariant
            start <= i <= x@.len(),
            start < x@.len(),
            x@.len() == x.len(),
            d == x@.subrange(start as int, x@.len() as int),
            d == (if x@.len() > 0 && (x@[0] == '+' || x@[0] == '-') { x@.drop_first() } else { x@ }),
            all_digits(x@.subrange(start as int, i as int)),
            acc <= exp_cap() + 1,
            acc <= exp_cap() ==> acc as nat == digits_value(x@.subrange(start as int, i as int)),
            acc > exp_cap() ==> digits_value(x@.subrange(start as int, i as int)) > exp_cap(),
        decreases x.len() - i,
    {
        let c = x[i];
        if !('0' <= c && c <= '9') {
            assert(d[i - start] == c);
            assert(!is_digit(d[i - start]));
            return None;
        }
        let dv = (c as u32 - '0' as u32) as u128;
        let ghost pre = x@.subrange(start as int, i as int);
        let ghost post = x@.subrange(start as int, i + 1);
        proof {
            assert(post.drop_last() =~= pre);
            assert(post.last() == c);
            assert forall|j: int| 0 <= j < post.len() implies is_digit(#[trigger] post[j]) by {
                if j < pre.len() {
                    assert(post[j] == pre[j]);
                }
            }
            assert(digits_value(post) == digits_value(pre) * 10 + dv);
        }
        if acc <= 1267650600228229401496703205376u128 {
            let next = acc * 10 + dv;
            if next > 1267650600228229401496703205376u128 {
                acc = 1267650600228229401496703205377u128;
            } else {
                acc = next;
            }
        } else {
            proof {
                assert(digits_value(post) >= digits_value(pre));
            }
        }
        i = i + 1;
    }
    assert(x@.subrange(start as int, i as int) =~= d);
    Some((neg, acc))
}

proof fn lemma_pow10_values()
    ensures
        pow10(37) == 10000000000000000000000000000000000000,
        pow10(38) == 100000000000000000000000000000000000000,
        pow10(39) == 1000000000000000000000000000000000000000,
{
    reveal_with_fuel(pow10, 40);
}

proof fn lemma_pow10_39()
    ensures
        pow10(39) > u128::MAX,
        pow10(38) > i128_max() / 2,
{
    lemma_pow10_values();
}

proof fn lemma_mul_pow_big(n: nat, k: nat)
    requires
        n >= 1,
        k >= 39,
    ensures
        n * pow10(k) > i128_max(),
{
    lemma_pow10_39();
    lemma_pow10_monotone(39, k);
    assert(n * pow10(k) >= pow10(k)) by (nonlinear_arith)
        requires n >= 1;
}

proof fn lemma_small_not_divisible(n: nat, k: nat)
    requires
        1 <= n <= u128::MAX,
        k >= 39,
    ensures
        n % pow10(k) != 0,
{
    lemma_pow10_39();
    lemma_pow10_monotone(39, k);
    assert(n % pow10(k) == n) by (nonlinear_arith)
        requires n < pow10(k);
}

/// Splits a decimal text into sign, integer digits, fraction digits and exponent text.
fn split_decimal(s: &[char]) -> (r: (bool, Vec<char>, Vec<char>, Option<Vec<char>>))
    ensures
        r.0 == (s@.len() > 0 && s@[0] == '-'),
        r.1@ == int_part(mantissa_part(unsigned_part(s@))),
        r.2@ == frac_part(mantissa_part(unsigned_part(s@))),
        match r.3 {
            Some(x) => {
                let u = unsigned_part(s@);
                &&& find_exp(u) is Some
                &&& x@ == u.subrange(find_exp(u).unwrap() + 1, u.len() as int)
            },
            None => find_exp(unsigned_part(s@)) is None,
        },
{
    let n = s.len();
    let neg = n > 0 && s[0] == '-';
    let start: usize = if n > 0 && (s[0] == '+' || s[0] == '-') { 1 } else { 0 };
    let r = slice_vec(s, start, n);
    proof {
        if start == 1 {
            assert(r@ =~= s@.drop_first());
        } else {
            assert(r@ =~= s@);
        }
    }
    let e_idx = find_exp_mark(&r);
    let m: Vec<char>;
    let x: Option<Vec<char>>;
    match e_idx {
        Some(j) => {
            proof { lemma_find_exp(r@); }
            m = slice_vec(&r, 0, j);
            x = Some(slice_vec(&r, j + 1, r.len()));
        },
        None => {
            m = slice_vec(&r, 0, r.len());
            assert(m@ =~= r@);
            x = None;
        },
    }
    match split_once_chars(&m, '.') {
        Some((a1, b1)) => (neg, a1, b1, x),
        None => {
            let a = slice_vec(&m, 0, m.len());
            assert(a@ =~= m@);
            let b: Vec<char> = Vec::new();
            assert(b@ =~= Seq::<char>::empty());
            (neg, a, b, x)
        },
    }
}

/// `n` × 10^`k` in units, when exact and within range.
fn scale_units(nv: u128, k: i128) -> (r: Option<u128>)
    requires
        nv >= 1,
    ensures
        match r {
            Some(v) => magnitude_units(nv as nat, k as int) == Some(v as nat),
            None => magnitude_units(nv as nat, k as int) is None,
        },
{
    if k >= 0 {
        if k > 38 {
            proof { lemma_mul_pow_big(nv as nat, k as nat); }
            return None;
        }
        let p = pow10_u128(k as u32);
        if nv > 170141183460469231731687303715884105727u128 / p {
            proof {
                assert(nv * p > i128_max()) by (nonlinear_arith)
                    requires nv > 170141183460469231731687303715884105727u128 / p, p > 0;
            }
            return None;
        }
        proof {
            assert(nv * p <= i128_max()) by (nonlinear_arith)
                requires nv <= 170141183460469231731687303715884105727u128 / p, p > 0;
        }
        Some(nv * p)
    } else {
        if k < -38 {
            proof { lemma_small_not_divisible(nv as nat, (-k) as nat); }
            return None;
        }
        let mk = (0 - k) as u32;
        let p = pow10_u128(mk);
        if nv % p != 0 {
            return None;
        }
        let v = nv / p;
        if v > 170141183460469231731687303715884105727u128 {
            return None;
        }
        Some(v)
    }
}

/// Concatenation of two character vectors.
fn concat_chars(a: &Vec<char>, b: &Vec<char>) -> (r: Vec<char>)
    ensures
        r@ == a@ + b@,
{
    let mut ab = a.clone();
    let mut bi: usize = 0;
    while bi < b.len()
        invariant
            bi <= b@.len(),
            ab@ == a@ + b@.subrange(0, bi as int),
        decreases b.len() - bi,
    {
        ab.push(b[bi]);
        bi = bi + 1;
        assert(ab@ =~= a@ + b@.subrange(0, bi as int));
    }
    assert(b@.subrange(0, b@.len() as int) =~= b@);
    ab
}

/// `f64::from_str` for finite decimal texts, exactly, in 10⁻¹⁸ units (see the module docs).
pub fn parse_decimal(s: &[char]) -> (r: Option<Amount>)
    ensures
        match r {
            Some(a) => decimal_units(s@) == Some(a.units as int),
            None => decimal_units(s@) is None,
        },
{
    let (neg, a, b, x) = split_decimal(s);
    if !all_digits_exec(&a) || !all_digits_exec(&b) || (a.len() == 0 && b.len() == 0) {
        return None;
    }
    let (e_neg, e_mag) = match &x {
        Some(xv) => match parse_exponent(xv) {
            Some(p) => p,
            None => {
                return None;
            },
        },
        None => (false, 0u128),
    };
    let ghost e = exponent_part(unsigned_part(s@)).unwrap();
    assert(decimal_parts(s@) == Some((neg, a@, b@, e)));
    let ab = concat_chars(&a, &b);
    let nv = match digits_u128(&ab) {
        Some(v) => v,
        None => {
            return None;
        },
    };
    if nv == 0 {
        proof {
            lemma_pow10_bound((18 + e - b@.len()) as nat);
            lemma_pow10_bound((-(18 + e - b@.len())) as nat);
        }
        return Some(Amount { units: 0 });
    }
    if e_mag > 1267650600228229401496703205376u128 {
        proof {
            let k = 18 + e - b@.len();
            assert(b@.len() == b.len());
            assert(b.len() <= usize::MAX);
            if e_neg {
                assert(k <= -39);
                lemma_small_not_divisible(nv as nat, (-k) as nat);
            } else {
                assert(k >= 39);
                lemma_mul_pow_big(nv as nat, k as nat);
            }
        }
        return None;
    }
    let blen = b.len() as i128;
    let k: i128 = if e_neg { 18 - (e_mag as i128) - blen } else { 18 + (e_mag as i128) - blen };
    assert(k == 18 + e - b@.len());
    match scale_units(nv, k) {
        Some(v) => {
            let units: i128 = if neg { 0 - (v as i128) } else { v as i128 };
            Some(Amount { units })
        },
        None => None,
    }
}

} // verus!
