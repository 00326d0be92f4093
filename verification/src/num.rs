//! Decimal integers: the text `u64::to_string` writes and the text `u64::from_str` /
//! `u32::from_str` accept (an optional `+`, then one or more ASCII digits, within range).

use vstd::prelude::*;

verus! {

pub open spec fn is_digit(c: char) -> bool {
    '0' <= c && c <= '9'
}

pub open spec fn digit_value(c: char) -> nat {
    (c as int - '0' as int) as nat
}

pub open spec fn digit_char(d: nat) -> char {
    (d + '0' as int) as char
}

pub open spec fn all_digits(s: Seq<char>) -> bool {
    forall|i: int| 0 <= i < s.len() ==> is_digit(#[trigger] s[i])
}

/// Value of a string of decimal digits, most significant first.
pub open spec fn digits_value(s: Seq<char>) -> nat
    decreases s.len(),
{
    if s.len() == 0 {
        0
    } else {
        digits_value(s.drop_last()) * 10 + digit_value(s.last())
    }
}

/// What `u64::from_str` (and the other unsigned parsers) read, before the range check.
pub open spec fn unsigned_value(s: Seq<char>) -> Option<nat> {
    let d = if s.len() > 0 && s[0] == '+' { s.drop_first() } else { s };
    if d.len() > 0 && all_digits(d) {
        Some(digits_value(d))
    } else {
        None
    }
}

/// `s.parse::<u64>().ok()`.
pub open spec fn parse_u64_spec(s: Seq<char>) -> Option<u64> {
    match unsigned_value(s) {
        Some(v) => if v <= u64::MAX { Some(v as u64) } else { None },
        None => None,
    }
}

/// `s.parse::<u32>().ok()`.
pub open spec fn parse_u32_spec(s: Seq<char>) -> Option<u32> {
    match unsigned_value(s) {
        Some(v) => if v <= u32::MAX { Some(v as u32) } else { None },
        None => None,
    }
}

/// Decimal text of `n` as `to_string` writes it.
pub open spec fn dec(n: nat) -> Seq<char>
    decreases n,
{
    if n < 10 {
        seq![digit_char(n)]
    } else {
        dec(n / 10).push(digit_char(n % 10))
    }
}

pub proof fn lemma_digits_value_monotone(s: Seq<char>, k: int)
    requires
        0 <= k <= s.len(),
    ensures
        digits_value(s.subrange(0, k)) <= digits_value(s),
    decreases s.len() - k,
{
    if k < s.len() {
        lemma_digits_value_monotone(s.drop_last(), k);
        assert(s.drop_last().subrange(0, k) =~= s.subrange(0, k));
    } else {
        assert(s.subrange(0, k) =~= s);
    }
}

pub proof fn lemma_dec_digits(n: nat)
    ensures
        dec(n).len() > 0,
        all_digits(dec(n)),
        digits_value(dec(n)) == n,
        dec(n)[0] != '0' || n == 0,
    decreases n,
{
    if n >= 10 {
        lemma_dec_digits(n / 10);
        let d = dec(n / 10);
        assert(dec(n).drop_last() =~= d);
        assert(dec(n)[0] == d[0]);
        assert(digit_value(digit_char(n % 10)) == n % 10);
        assert(n == (n / 10) * 10 + n % 10);
        assert(dec(n).last() == digit_char(n % 10));
        assert(digits_value(dec(n)) == digits_value(d) * 10 + digit_value(digit_char(n % 10)));
    } else {
        assert(digit_value(digit_char(n)) == n);
        assert(dec(n).drop_last() =~= Seq::<char>::empty());
        assert(digits_value(Seq::<char>::empty()) == 0);
        assert(dec(n).last() == digit_char(n));
        assert(digits_value(dec(n)) == digits_value(dec(n).drop_last()) * 10 + digit_value(dec(n).last()));
    }
}

pub fn digit_to_char(d: u64) -> (c: char)
    requires
        d < 10,
    ensures
        c == digit_char(d as nat),
        is_digit(c),
        digit_value(c) == d,
{
    let c = ((d as u8) + 48u8) as char;
    c
}

/// Decimal digits of `n`.
pub fn u64_chars(n: u64) -> (r: Vec<char>)
    ensures
        r@ == dec(n as nat),
    decreases n,
{
    if n < 10 {
        let mut v: Vec<char> = Vec::new();
        v.push(digit_to_char(n));
        assert(v@ =~= dec(n as nat));
        v
    } else {
        let mut v = u64_chars(n / 10);
        v.push(digit_to_char(n % 10));
        v
    }
}

/// Decimal digits of a 128-bit `n`.
pub fn u128_chars(n: u128) -> (r: Vec<char>)
    ensures
        r@ == dec(n as nat),
    decreases n,
{
    if n < 10 {
        let mut v: Vec<char> = Vec::new();
        v.push(digit_to_char(n as u64));
        assert(v@ =~= dec(n as nat));
        v
    } else {
        let mut v = u128_chars(n / 10);
        v.push(digit_to_char((n % 10) as u64));
        v
    }
}

/// `n.to_string()`.
pub fn u64_to_string(n: u64) -> (r: String)
    ensures
        r@ == dec(n as nat),
{
    let v = u64_chars(n);
    crate::text::string_of(&v)
}

/// `s.parse::<u64>().ok()` on characters.
pub fn parse_u64(s: &[char]) -> (r: Option<u64>)
    ensures
        r == parse_u64_spec(s@),
{
    let mut i: usize = 0;
    if s.len() > 0 && s[0] == '+' {
        i = 1;
    }
    let ghost d = s@.subrange(i as int, s@.len() as int);
    proof {
        if s@.len() > 0 && s@[0] == '+' {
            assert(d =~= s@.drop_first());
        } else {
            assert(d =~= s@);
        }
    }
    if i >= s.len() {
        return None;
    }
    let start = i;
    let mut acc: u64 = 0;
    while i < s.len()
        invariant
            start <= i <= s@.len(),
            start < s@.len(),
            s@.len() == s.len(),
            d == s@.subrange(start as int, s@.len() as int),
            d == (if s@.len() > 0 && s@[0] == '+' { s@.drop_first() } else { s@ }),
            all_digits(s@.subrange(start as int, i as int)),
            acc as nat == digits_value(s@.subrange(start as int, i as int)),
        decreases s.len() - i,
    {
        let c = s[i];
        if !('0' <= c && c <= '9') {
            proof {
                assert(d[i - start] == c);
                assert(!is_digit(d[i - start]));
            }
            return None;
        }
        let dv = (c as u32 - '0' as u32) as u64;
        let ghost pre = s@.subrange(start as int, i as int);
        let ghost post = s@.subrange(start as int, i + 1);
        proof {
            assert(post.drop_last() =~= pre);
            assert(post.last() == c);
            assert forall|j: int| 0 <= j < post.len() implies is_digit(#[trigger] post[j]) by {
                if j < pre.len() {
                    assert(post[j] == pre[j]);
                }
            }
        }
        if acc > (u64::MAX - dv) / 10 {
            proof {
                assert(digits_value(post) > u64::MAX) by (nonlinear_arith)
                    requires
                        digits_value(post) == acc * 10 + dv,
                        acc > (u64::MAX - dv) / 10,
                        dv < 10,
                ;
                assert(d.subrange(0, i + 1 - start) =~= post);
                lemma_digits_value_monotone(d, i + 1 - start);
                assert forall|j: int| 0 <= j < d.len() implies is_digit(#[trigger] d[j]) || !all_digits(d) by {}
            }
            return None;
        }
        proof {
            assert(acc * 10 + dv <= u64::MAX) by (nonlinear_arith)
                requires
                    acc <= (u64::MAX - dv) / 10,
                    dv < 10,
            ;
        }
        acc = acc * 10 + dv;
        i = i + 1;
    }
    assert(s@.subrange(start as int, i as int) =~= d);
    Some(acc)
}

/// `s.parse::<u32>().ok()` on characters.
pub fn parse_u32(s: &[char]) -> (r: Option<u32>)
    ensures
        r == parse_u32_spec(s@),
{
    match parse_u64(s) {
        Some(v) => if v <= u32::MAX as u64 { Some(v as u32) } else { None },
        None => {
            proof {
                if let Some(v) = unsigned_value(s@) {
                    assert(v > u64::MAX);
                }
            }
            None
        },
    }
}

} // verus!
