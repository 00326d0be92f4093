//! Properties of the library as a whole: what holds of every input, proved over the same spec
//! functions the operations' contracts use.

use vstd::prelude::*;
use crate::api::{encode_char, four_digits, hex_upper, percent_bytes, price_text, strip_zeros, unreserved, url_encoded, utf8_bytes};
use crate::error::{code_error, code_head, error_token};
use crate::num::{all_digits, dec, is_digit, lemma_dec_digits, parse_u32_spec, unsigned_value};
use crate::protocol::{body_error, standard_error};
use crate::providers::hero_sms::retryable_action;
use crate::sorting::{insert_keyed, keys_sorted, payloads, sort_keyed};
use crate::text::{find_char, is_ws, lemma_find_char, split_once, starts_with, starts_with_char, trim, trim_end, trim_start};
use crate::types::{CountryKey, country_key_of, country_text};

verus! {

proof fn lemma_percent_safe(bs: Seq<u8>)
    ensures
        forall|i: int| 0 <= i < percent_bytes(bs).len() ==> unreserved(#[trigger] percent_bytes(bs)[i])
            || percent_bytes(bs)[i] == '%',
    decreases bs.len(),
{
    if bs.len() > 0 {
        lemma_percent_safe(bs.drop_last());
        let p = percent_bytes(bs.drop_last());
        let t = seq!['%', hex_upper((bs.last() / 16) as nat), hex_upper((bs.last() % 16) as nat)];
        assert(percent_bytes(bs) == p + t);
        assert forall|i: int| 0 <= i < (p + t).len() implies unreserved(#[trigger] (p + t)[i]) || (p + t)[i] == '%' by {
            if i >= p.len() {
                assert((p + t)[i] == t[i - p.len()]);
            } else {
                assert((p + t)[i] == p[i]);
            }
        }
    }
}

/// An upper-case hexadecimal digit: `0`–`9` or `A`–`F`.
pub open spec fn upper_hex_digit(c: char) -> bool {
    (48 <= c as nat && c as nat <= 57) || (65 <= c as nat && c as nat <= 70)
}

/// Every `%` of the text is followed by two upper-case hexadecimal digits.
pub open spec fn escapes_well_formed(t: Seq<char>) -> bool {
    forall|i: int|
        0 <= i < t.len() && #[trigger] t[i] == '%' ==> i + 2 < t.len() && upper_hex_digit(t[i + 1])
            && upper_hex_digit(t[i + 2])
}

proof fn lemma_escapes_concat(p: Seq<char>, t: Seq<char>)
    requires
        escapes_well_formed(p),
        escapes_well_formed(t),
    ensures
        escapes_well_formed(p + t),
{
    assert forall|i: int| 0 <= i < (p + t).len() && #[trigger] (p + t)[i] == '%' implies i + 2 < (p + t).len()
        && upper_hex_digit((p + t)[i + 1]) && upper_hex_digit((p + t)[i + 2]) by {
        if i >= p.len() {
            assert((p + t)[i] == t[i - p.len()]);
            assert((p + t)[i + 1] == t[i + 1 - p.len()]);
            assert((p + t)[i + 2] == t[i + 2 - p.len()]);
        } else {
            assert((p + t)[i] == p[i]);
            assert((p + t)[i + 1] == p[i + 1]);
            assert((p + t)[i + 2] == p[i + 2]);
        }
    }
}

proof fn lemma_percent_escapes(bs: Seq<u8>)
    ensures
        escapes_well_formed(percent_bytes(bs)),
    decreases bs.len(),
{
    if bs.len() > 0 {
        lemma_percent_escapes(bs.drop_last());
        let p = percent_bytes(bs.drop_last());
        let hi = (bs.last() / 16) as nat;
        let lo = (bs.last() % 16) as nat;
        let t = seq!['%', hex_upper(hi), hex_upper(lo)];
        lemma_hex_round_trip(hi);
        lemma_hex_round_trip(lo);
        assert(upper_hex_digit(hex_upper(hi))) by {
            if hi < 10 {
                assert(hex_upper(hi) as nat == hi + 48);
            } else {
                assert(hex_upper(hi) as nat == hi + 55);
            }
        }
        assert(upper_hex_digit(hex_upper(lo))) by {
            if lo < 10 {
                assert(hex_upper(lo) as nat == lo + 48);
            } else {
                assert(hex_upper(lo) as nat == lo + 55);
            }
        }
        assert(escapes_well_formed(t));
        lemma_escapes_concat(p, t);
        assert(percent_bytes(bs) == p + t);
    }
}

/// Percent-encoding leaves nothing but unreserved characters and `%XX` escapes, each `%`
/// followed by two upper-case hexadecimal digits: an encoded parameter can never end its value
/// early or start another one in a query string.
pub proof fn law_encoded_is_url_safe(s: Seq<char>)
    ensures
        forall|i: int| 0 <= i < url_encoded(s).len() ==> unreserved(#[trigger] url_encoded(s)[i])
            || url_encoded(s)[i] == '%',
        escapes_well_formed(url_encoded(s)),
    decreases s.len(),
{
    if s.len() > 0 {
        law_encoded_is_url_safe(s.drop_last());
        let p = url_encoded(s.drop_last());
        let c = s.last();
        let t = encode_char(c);
        if !unreserved(c) {
            lemma_percent_safe(crate::api::utf8_bytes(c));
            lemma_percent_escapes(crate::api::utf8_bytes(c));
        } else {
            assert(escapes_well_formed(t)) by {
                assert(t =~= seq![c]);
            }
        }
        lemma_escapes_concat(p, t);
        assert forall|i: int| 0 <= i < (p + t).len() implies unreserved(#[trigger] (p + t)[i]) || (p + t)[i] == '%' by {
            if i >= p.len() {
                assert((p + t)[i] == t[i - p.len()]);
            } else {
                assert((p + t)[i] == p[i]);
            }
        }
    }
}

/// The value of an upper-case hexadecimal digit.
pub open spec fn hex_value(c: char) -> nat {
    if '0' <= c && c <= '9' {
        (c as nat - 48) as nat
    } else if 'A' <= c && c <= 'F' {
        (c as nat - 55) as nat
    } else {
        0
    }
}

/// Percent-decoding: a `%XX` triple is the byte it names, any other character its UTF-8 bytes.
pub open spec fn percent_decoded(t: Seq<char>) -> Seq<u8>
    decreases t.len(),
{
    if t.len() == 0 {
        Seq::empty()
    } else if t.len() >= 3 && t[t.len() - 3] == '%' {
        percent_decoded(t.subrange(0, t.len() - 3)).push(
            (hex_value(t[t.len() - 2]) * 16 + hex_value(t[t.len() - 1])) as u8,
        )
    } else {
        percent_decoded(t.drop_last()) + utf8_bytes(t.last())
    }
}

/// The UTF-8 bytes of a text.
pub open spec fn utf8_text(s: Seq<char>) -> Seq<u8>
    decreases s.len(),
{
    if s.len() == 0 {
        Seq::empty()
    } else {
        utf8_text(s.drop_last()) + utf8_bytes(s.last())
    }
}

/// Every `%` of the text starts a whole triple.
spec fn percents_complete(t: Seq<char>) -> bool {
    forall|i: int| 0 <= i < t.len() && #[trigger] t[i] == '%' ==> i + 3 <= t.len()
}

proof fn lemma_hex_round_trip(d: nat)
    requires
        d < 16,
    ensures
        hex_value(hex_upper(d)) == d,
        hex_upper(d) != '%',
{
    if d < 10 {
        assert(hex_upper(d) as nat == d + 48);
    } else {
        assert(hex_upper(d) as nat == d + 55);
    }
}

proof fn lemma_percent_bytes_shape(bs: Seq<u8>)
    ensures
        percent_bytes(bs).len() == 3 * bs.len(),
        percents_complete(percent_bytes(bs)),
    decreases bs.len(),
{
    if bs.len() > 0 {
        lemma_percent_bytes_shape(bs.drop_last());
        let p = percent_bytes(bs.drop_last());
        let b = bs.last();
        lemma_hex_round_trip((b / 16) as nat);
        lemma_hex_round_trip((b % 16) as nat);
        let t = seq!['%', hex_upper((b / 16) as nat), hex_upper((b % 16) as nat)];
        assert(percent_bytes(bs) == p + t);
        assert forall|i: int| 0 <= i < (p + t).len() && #[trigger] (p + t)[i] == '%' implies i + 3 <= (p + t).len() by {
            if i >= p.len() {
                assert((p + t)[i] == t[i - p.len()]);
            } else {
                assert((p + t)[i] == p[i]);
            }
        }
    }
}

/// Decoding a text followed by `%XX` triples gives the bytes they name after its own.
proof fn lemma_decode_percent_tail(p: Seq<char>, bs: Seq<u8>)
    ensures
        percent_decoded(p + percent_bytes(bs)) == percent_decoded(p) + bs,
    decreases bs.len(),
{
    if bs.len() == 0 {
        assert(p + percent_bytes(bs) =~= p);
        assert(percent_decoded(p) + bs =~= percent_decoded(p));
    } else {
        let rest = bs.drop_last();
        let b = bs.last();
        lemma_decode_percent_tail(p, rest);
        lemma_hex_round_trip((b / 16) as nat);
        lemma_hex_round_trip((b % 16) as nat);
        let q = p + percent_bytes(rest);
        let t = seq!['%', hex_upper((b / 16) as nat), hex_upper((b % 16) as nat)];
        assert(p + percent_bytes(bs) =~= q + t);
        let u = q + t;
        assert(u[u.len() - 3] == '%');
        assert(u.subrange(0, u.len() - 3) =~= q);
        assert(u[u.len() - 2] == hex_upper((b / 16) as nat));
        assert(u[u.len() - 1] == hex_upper((b % 16) as nat));
        assert((((b / 16) as nat) * 16 + ((b % 16) as nat)) as u8 == b);
        assert(percent_decoded(p) + bs =~= (percent_decoded(p) + rest).push(b));
    }
}

proof fn lemma_encoded_complete(s: Seq<char>)
    ensures
        percents_complete(url_encoded(s)),
    decreases s.len(),
{
    if s.len() > 0 {
        lemma_encoded_complete(s.drop_last());
        let p = url_encoded(s.drop_last());
        let c = s.last();
        let t = encode_char(c);
        if !unreserved(c) {
            lemma_percent_bytes_shape(utf8_bytes(c));
        }
        assert forall|i: int| 0 <= i < (p + t).len() && #[trigger] (p + t)[i] == '%' implies i + 3 <= (p + t).len() by {
            if i >= p.len() {
                assert((p + t)[i] == t[i - p.len()]);
            } else {
                assert((p + t)[i] == p[i]);
            }
        }
    }
}

/// Percent-decoding undoes [`url_encoded`]: the encoded text decodes to exactly the UTF-8
/// bytes of the original, in order.
pub proof fn law_encoding_round_trips(s: Seq<char>)
    ensures
        percent_decoded(url_encoded(s)) == utf8_text(s),
    decreases s.len(),
{
    if s.len() > 0 {
        let s0 = s.drop_last();
        let c = s.last();
        law_encoding_round_trips(s0);
        let p = url_encoded(s0);
        if unreserved(c) {
            lemma_encoded_complete(s0);
            let u = p + seq![c];
            assert(u.drop_last() =~= p);
            assert(u.last() == c);
            if u.len() >= 3 && u[u.len() - 3] == '%' {
                assert(u[u.len() - 3] == p[p.len() - 2]);
                assert(false);
            }
        } else {
            lemma_decode_percent_tail(p, utf8_bytes(c));
        }
    }
}

/// Encoding leaves a text unchanged exactly when every character of it is unreserved.
pub proof fn law_encoding_fixes_exactly_unreserved(s: Seq<char>)
    ensures
        (url_encoded(s) == s) <==> (forall|i: int| 0 <= i < s.len() ==> unreserved(#[trigger] s[i])),
    decreases s.len(),
{
    lemma_encoded_len(s);
    if url_encoded(s) == s && !(forall|i: int| 0 <= i < s.len() ==> unreserved(#[trigger] s[i])) {
        let i = choose|i: int| !(0 <= i < s.len() ==> unreserved(#[trigger] s[i]));
        assert(0 <= i < s.len() && !unreserved(s[i]));
        assert(url_encoded(s).len() > s.len());
    }
    if s.len() > 0 {
        let s0 = s.drop_last();
        law_encoding_fixes_exactly_unreserved(s0);
        let c = s.last();
        if forall|i: int| 0 <= i < s.len() ==> unreserved(#[trigger] s[i]) {
            assert forall|i: int| 0 <= i < s0.len() implies unreserved(#[trigger] s0[i]) by {
                assert(s0[i] == s[i]);
            }
            assert(unreserved(s[s.len() - 1]));
            assert(url_encoded(s) =~= s0 + seq![c]);
            assert(s0 + seq![c] =~= s);
        }
    } else {
        assert(url_encoded(s) =~= s);
    }
}

/// The encoded text is never shorter, and is longer as soon as one character is not
/// unreserved.
proof fn lemma_encoded_len(s: Seq<char>)
    ensures
        url_encoded(s).len() >= s.len(),
        (exists|i: int| 0 <= i < s.len() && !unreserved(#[trigger] s[i])) ==> url_encoded(s).len() > s.len(),
    decreases s.len(),
{
    if s.len() > 0 {
        let s0 = s.drop_last();
        let c = s.last();
        lemma_encoded_len(s0);
        if !unreserved(c) {
            lemma_percent_bytes_shape(utf8_bytes(c));
            assert(utf8_bytes(c).len() >= 1);
        }
        if exists|i: int| 0 <= i < s.len() && !unreserved(#[trigger] s[i]) {
            let i = choose|i: int| 0 <= i < s.len() && !unreserved(#[trigger] s[i]);
            if i < s.len() - 1 {
                assert(s0[i] == s[i]);
            }
        }
    }
}

proof fn lemma_digits_trimmed(s: Seq<char>)
    requires
        s.len() > 0,
        all_digits(s),
    ensures
        trim(s) == s,
{
    assert(is_digit(s[0]));
    assert(!is_ws(s[0]));
    assert(trim_start(s) == s);
    assert(is_digit(s.last()));
    assert(!is_ws(s.last()));
    assert(trim_end(s) == s);
}

/// A numeric country key written out (`to_string`) and read back (`CountryRef::parse`) is the
/// same key.
pub proof fn law_country_id_round_trip(id: u32)
    ensures
        country_key_of(country_text(CountryKey::Id(id))) == CountryKey::Id(id),
{
    let d = dec(id as nat);
    lemma_dec_digits(id as nat);
    lemma_digits_trimmed(d);
    assert(is_digit(d[0]));
    assert(d[0] != '+');
    assert(unsigned_value(d) == Some(id as nat));
    assert(parse_u32_spec(d) == Some(id));
}

/// The actions that buy a number or change an activation's state are never among the
/// read-only actions, so the retry policy never re-sends them after a transport error or a
/// truncated body.
pub proof fn law_purchases_are_never_resent()
    ensures
        !retryable_action("getNumber"@),
        !retryable_action("getNumberV2"@),
        !retryable_action("getRentNumber"@),
        !retryable_action("setStatus"@),
        !retryable_action("finishActivation"@),
        !retryable_action("cancelActivation"@),
{
    reveal_strlit("getNumber");
    reveal_strlit("getNumberV2");
    reveal_strlit("getRentNumber");
    reveal_strlit("setStatus");
    reveal_strlit("finishActivation");
    reveal_strlit("cancelActivation");
    reveal_strlit("getBalance");
    reveal_strlit("getPrices");
    reveal_strlit("getServicesList");
    reveal_strlit("getCountries");
    reveal_strlit("getTopCountriesByService");
    reveal_strlit("getTopCountriesByServiceRank");
    reveal_strlit("getNumbersStatus");
    reveal_strlit("getOperators");
    reveal_strlit("getActiveActivations");
    reveal_strlit("getHistory");
    reveal_strlit("getStatus");
    reveal_strlit("getStatusV2");
    reveal_strlit("getAllSms");
    reveal_strlit("getRentServicesAndCountries");
    reveal_strlit("serviceCountRent");
    assert("getNumber"@ != "getBalance"@) by {
        assert("getNumber"@.len() != "getBalance"@.len());
    }
    assert("getNumber"@ != "getPrices"@) by {
        assert("getNumber"@[3] != "getPrices"@[3]);
    }
    assert("getNumber"@ != "getServicesList"@) by {
        assert("getNumber"@.len() != "getServicesList"@.len());
    }
    assert("getNumber"@ != "getCountries"@) by {
        assert("getNumber"@.len() != "getCountries"@.len());
    }
    assert("getNumber"@ != "getTopCountriesByService"@) by {
        assert("getNumber"@.len() != "getTopCountriesByService"@.len());
    }
    assert("getNumber"@ != "getTopCountriesByServiceRank"@) by {
        assert("getNumber"@.len() != "getTopCountriesByServiceRank"@.len());
    }
    assert("getNumber"@ != "getNumbersStatus"@) by {
        assert("getNumber"@.len() != "getNumbersStatus"@.len());
    }
    assert("getNumber"@ != "getOperators"@) by {
        assert("getNumber"@.len() != "getOperators"@.len());
    }
    assert("getNumber"@ != "getActiveActivations"@) by {
        assert("getNumber"@.len() != "getActiveActivations"@.len());
    }
    assert("getNumber"@ != "getHistory"@) by {
        assert("getNumber"@.len() != "getHistory"@.len());
    }
    assert("getNumber"@ != "getStatus"@) by {
        assert("getNumber"@[3] != "getStatus"@[3]);
    }
    assert("getNumber"@ != "getStatusV2"@) by {
        assert("getNumber"@.len() != "getStatusV2"@.len());
    }
    assert("getNumber"@ != "getAllSms"@) by {
        assert("getNumber"@[3] != "getAllSms"@[3]);
    }
    assert("getNumber"@ != "getRentServicesAndCountries"@) by {
        assert("getNumber"@.len() != "getRentServicesAndCountries"@.len());
    }
    assert("getNumber"@ != "serviceCountRent"@) by {
        assert("getNumber"@.len() != "serviceCountRent"@.len());
    }
    assert("getNumberV2"@ != "getBalance"@) by {
        assert("getNumberV2"@.len() != "getBalance"@.len());
    }
    assert("getNumberV2"@ != "getPrices"@) by {
        assert("getNumberV2"@.len() != "getPrices"@.len());
    }
    assert("getNumberV2"@ != "getServicesList"@) by {
        assert("getNumberV2"@.len() != "getServicesList"@.len());
    }
    assert("getNumberV2"@ != "getCountries"@) by {
        assert("getNumberV2"@.len() != "getCountries"@.len());
    }
    assert("getNumberV2"@ != "getTopCountriesByService"@) by {
        assert("getNumberV2"@.len() != "getTopCountriesByService"@.len());
    }
    assert("getNumberV2"@ != "getTopCountriesByServiceRank"@) by {
        assert("getNumberV2"@.len() != "getTopCountriesByServiceRank"@.len());
    }
    assert("getNumberV2"@ != "getNumbersStatus"@) by {
        assert("getNumberV2"@.len() != "getNumbersStatus"@.len());
    }
    assert("getNumberV2"@ != "getOperators"@) by {
        assert("getNumberV2"@.len() != "getOperators"@.len());
    }
    assert("getNumberV2"@ != "getActiveActivations"@) by {
        assert("getNumberV2"@.len() != "getActiveActivations"@.len());
    }
    assert("getNumberV2"@ != "getHistory"@) by {
        assert("getNumberV2"@.len() != "getHistory"@.len());
    }
    assert("getNumberV2"@ != "getStatus"@) by {
        assert("getNumberV2"@.len() != "getStatus"@.len());
    }
    assert("getNumberV2"@ != "getStatusV2"@) by {
        assert("getNumberV2"@[3] != "getStatusV2"@[3]);
    }
    assert("getNumberV2"@ != "getAllSms"@) by {
        assert("getNumberV2"@.len() != "getAllSms"@.len());
    }
    assert("getNumberV2"@ != "getRentServicesAndCountries"@) by {
        assert("getNumberV2"@.len() != "getRentServicesAndCountries"@.len());
    }
    assert("getNumberV2"@ != "serviceCountRent"@) by {
        assert("getNumberV2"@.len() != "serviceCountRent"@.len());
    }
    assert("getRentNumber"@ != "getBalance"@) by {
        assert("getRentNumber"@.len() != "getBalance"@.len());
    }
    assert("getRentNumber"@ != "getPrices"@) by {
        assert("getRentNumber"@.len() != "getPrices"@.len());
    }
    assert("getRentNumber"@ != "getServicesList"@) by {
        assert("getRentNumber"@.len() != "getServicesList"@.len());
    }
    assert("getRentNumber"@ != "getCountries"@) by {
        assert("getRentNumber"@.len() != "getCountries"@.len());
    }
    assert("getRentNumber"@ != "getTopCountriesByService"@) by {
        assert("getRentNumber"@.len() != "getTopCountriesByService"@.len());
    }
    assert("getRentNumber"@ != "getTopCountriesByServiceRank"@) by {
        assert("getRentNumber"@.len() != "getTopCountriesByServiceRank"@.len());
    }
    assert("getRentNumber"@ != "getNumbersStatus"@) by {
        assert("getRentNumber"@.len() != "getNumbersStatus"@.len());
    }
    assert("getRentNumber"@ != "getOperators"@) by {
        assert("getRentNumber"@.len() != "getOperators"@.len());
    }
    assert("getRentNumber"@ != "getActiveActivations"@) by {
        assert("getRentNumber"@.len() != "getActiveActivations"@.len());
    }
    assert("getRentNumber"@ != "getHistory"@) by {
        assert("getRentNumber"@.len() != "getHistory"@.len());
    }
    assert("getRentNumber"@ != "getStatus"@) by {
        assert("getRentNumber"@.len() != "getStatus"@.len());
    }
    assert("getRentNumber"@ != "getStatusV2"@) by {
        assert("getRentNumber"@.len() != "getStatusV2"@.len());
    }
    assert("getRentNumber"@ != "getAllSms"@) by {
        assert("getRentNumber"@.len() != "getAllSms"@.len());
    }
    assert("getRentNumber"@ != "getRentServicesAndCountries"@) by {
        assert("getRentNumber"@.len() != "getRentServicesAndCountries"@.len());
    }
    assert("getRentNumber"@ != "serviceCountRent"@) by {
        assert("getRentNumber"@.len() != "serviceCountRent"@.len());
    }
    assert("setStatus"@ != "getBalance"@) by {
        assert("setStatus"@.len() != "getBalance"@.len());
    }
    assert("setStatus"@ != "getPrices"@) by {
        assert("setStatus"@[0] != "getPrices"@[0]);
    }
    assert("setStatus"@ != "getServicesList"@) by {
        assert("setStatus"@.len() != "getServicesList"@.len());
    }
    assert("setStatus"@ != "getCountries"@) by {
        assert("setStatus"@.len() != "getCountries"@.len());
    }
    assert("setStatus"@ != "getTopCountriesByService"@) by {
        assert("setStatus"@.len() != "getTopCountriesByService"@.len());
    }
    assert("setStatus"@ != "getTopCountriesByServiceRank"@) by {
        assert("setStatus"@.len() != "getTopCountriesByServiceRank"@.len());
    }
    assert("setStatus"@ != "getNumbersStatus"@) by {
        assert("setStatus"@.len() != "getNumbersStatus"@.len());
    }
    assert("setStatus"@ != "getOperators"@) by {
        assert("setStatus"@.len() != "getOperators"@.len());
    }
    assert("setStatus"@ != "getActiveActivations"@) by {
        assert("setStatus"@.len() != "getActiveActivations"@.len());
    }
    assert("setStatus"@ != "getHistory"@) by {
        assert("setStatus"@.len() != "getHistory"@.len());
    }
    assert("setStatus"@ != "getStatus"@) by {
        assert("setStatus"@[0] != "getStatus"@[0]);
    }
    assert("setStatus"@ != "getStatusV2"@) by {
        assert("setStatus"@.len() != "getStatusV2"@.len());
    }
    assert("setStatus"@ != "getAllSms"@) by {
        assert("setStatus"@[0] != "getAllSms"@[0]);
    }
    assert("setStatus"@ != "getRentServicesAndCountries"@) by {
        assert("setStatus"@.len() != "getRentServicesAndCountries"@.len());
    }
    assert("setStatus"@ != "serviceCountRent"@) by {
        assert("setStatus"@.len() != "serviceCountRent"@.len());
    }
    assert("finishActivation"@ != "getBalance"@) by {
        assert("finishActivation"@.len() != "getBalance"@.len());
    }
    assert("finishActivation"@ != "getPrices"@) by {
        assert("finishActivation"@.len() != "getPrices"@.len());
    }
    assert("finishActivation"@ != "getServicesList"@) by {
        assert("finishActivation"@.len() != "getServicesList"@.len());
    }
    assert("finishActivation"@ != "getCountries"@) by {
        assert("finishActivation"@.len() != "getCountries"@.len());
    }
    assert("finishActivation"@ != "getTopCountriesByService"@) by {
        assert("finishActivation"@.len() != "getTopCountriesByService"@.len());
    }
    assert("finishActivation"@ != "getTopCountriesByServiceRank"@) by {
        assert("finishActivation"@.len() != "getTopCountriesByServiceRank"@.len());
    }
    assert("finishActivation"@ != "getNumbersStatus"@) by {
        assert("finishActivation"@[0] != "getNumbersStatus"@[0]);
    }
    assert("finishActivation"@ != "getOperators"@) by {
        assert("finishActivation"@.len() != "getOperators"@.len());
    }
    assert("finishActivation"@ != "getActiveActivations"@) by {
        assert("finishActivation"@.len() != "getActiveActivations"@.len());
    }
    assert("finishActivation"@ != "getHistory"@) by {
        assert("finishActivation"@.len() != "getHistory"@.len());
    }
    assert("finishActivation"@ != "getStatus"@) by {
        assert("finishActivation"@.len() != "getStatus"@.len());
    }
    assert("finishActivation"@ != "getStatusV2"@) by {
        assert("finishActivation"@.len() != "getStatusV2"@.len());
    }
    assert("finishActivation"@ != "getAllSms"@) by {
        assert("finishActivation"@.len() != "getAllSms"@.len());
    }
    assert("finishActivation"@ != "getRentServicesAndCountries"@) by {
        assert("finishActivation"@.len() != "getRentServicesAndCountries"@.len());
    }
    assert("finishActivation"@ != "serviceCountRent"@) by {
        assert("finishActivation"@[0] != "serviceCountRent"@[0]);
    }
    assert("cancelActivation"@ != "getBalance"@) by {
        assert("cancelActivation"@.len() != "getBalance"@.len());
    }
    assert("cancelActivation"@ != "getPrices"@) by {
        assert("cancelActivation"@.len() != "getPrices"@.len());
    }
    assert("cancelActivation"@ != "getServicesList"@) by {
        assert("cancelActivation"@.len() != "getServicesList"@.len());
    }
    assert("cancelActivation"@ != "getCountries"@) by {
        assert("cancelActivation"@.len() != "getCountries"@.len());
    }
    assert("cancelActivation"@ != "getTopCountriesByService"@) by {
        assert("cancelActivation"@.len() != "getTopCountriesByService"@.len());
    }
    assert("cancelActivation"@ != "getTopCountriesByServiceRank"@) by {
        assert("cancelActivation"@.len() != "getTopCountriesByServiceRank"@.len());
    }
    assert("cancelActivation"@ != "getNumbersStatus"@) by {
        assert("cancelActivation"@[0] != "getNumbersStatus"@[0]);
    }
    assert("cancelActivation"@ != "getOperators"@) by {
        assert("cancelActivation"@.len() != "getOperators"@.len());
    }
    assert("cancelActivation"@ != "getActiveActivations"@) by {
        assert("cancelActivation"@.len() != "getActiveActivations"@.len());
    }
    assert("cancelActivation"@ != "getHistory"@) by {
        assert("cancelActivation"@.len() != "getHistory"@.len());
    }
    assert("cancelActivation"@ != "getStatus"@) by {
        assert("cancelActivation"@.len() != "getStatus"@.len());
    }
    assert("cancelActivation"@ != "getStatusV2"@) by {
        assert("cancelActivation"@.len() != "getStatusV2"@.len());
    }
    assert("cancelActivation"@ != "getAllSms"@) by {
        assert("cancelActivation"@.len() != "getAllSms"@.len());
    }
    assert("cancelActivation"@ != "getRentServicesAndCountries"@) by {
        assert("cancelActivation"@.len() != "getRentServicesAndCountries"@.len());
    }
    assert("cancelActivation"@ != "serviceCountRent"@) by {
        assert("cancelActivation"@[0] != "serviceCountRent"@[0]);
    }
}

/// A 2xx answer that is JSON data is never taken for an error by the standard classification,
/// and HTTP 429 is always a rate limit.
pub proof fn law_json_data_is_not_an_error(status: u16, body: Seq<char>)
    ensures
        200 <= status < 300 && (starts_with_char(trim(body), '{') || starts_with_char(trim(body), '['))
            ==> standard_error(status, body) is None,
        status == 429 ==> standard_error(status, body) == Some(crate::error::ErrorView::RateLimited(None)),
{
}

proof fn lemma_head_keeps_prefix(t: Seq<char>, p: Seq<char>)
    requires
        starts_with(t, p),
        forall|i: int| 0 <= i < p.len() ==> p[i] != ':',
    ensures
        starts_with(code_head(t), p),
{
    lemma_find_char(t, ':');
    match find_char(t, ':') {
        Some(k) => {
            if k < p.len() {
                assert(t.subrange(0, p.len() as int)[k] == t[k]);
                assert(p[k] == ':');
            }
            assert(code_head(t) == t.subrange(0, k));
            assert(code_head(t).subrange(0, p.len() as int) =~= t.subrange(0, p.len() as int));
        },
        None => {},
    }
}

/// Success answers (`ACCESS_…`, `STATUS_…`) are never taken for protocol errors.
pub proof fn law_success_answers_are_not_errors(body: Seq<char>)
    requires
        starts_with(trim(body), "ACCESS_"@) || starts_with(trim(body), "STATUS_"@),
    ensures
        body_error(body) is None,
{
    let t = trim(body);
    reveal_strlit("ACCESS_");
    reveal_strlit("STATUS_");
    crate::text::lemma_trim_idempotent(body);
    assert(t[0] == 'A' || t[0] == 'S') by {
        assert(t.subrange(0, 7)[0] == t[0]);
    }
    let head = code_head(t);
    if starts_with(t, "ACCESS_"@) {
        lemma_head_keeps_prefix(t, "ACCESS_"@);
    } else {
        lemma_head_keeps_prefix(t, "STATUS_"@);
    }
    assert(head[0] == t[0]) by {
        assert(head.subrange(0, 7)[0] == head[0]);
        assert(t.subrange(0, 7)[0] == t[0]);
    }
    reveal_strlit("BAD_KEY");
    reveal_strlit("BAD_ACTION");
    reveal_strlit("BAD_SERVICE");
    reveal_strlit("WRONG_SERVICE");
    reveal_strlit("BAD_COUNTRY");
    reveal_strlit("BAD_STATUS");
    reveal_strlit("NO_NUMBERS");
    reveal_strlit("NO_BALANCE");
    reveal_strlit("NO_ACTIVATION");
    reveal_strlit("WRONG_ACTIVATION_ID");
    reveal_strlit("NOT_FOUND");
    reveal_strlit("EARLY_CANCEL_DENIED");
    reveal_strlit("WRONG_MAX_PRICE");
    reveal_strlit("BANNED");
    assert(!error_token(head));
    assert(code_error(t) is None);
}

proof fn lemma_strip_zeros(s: Seq<char>)
    ensures
        strip_zeros(s).len() == 0 || strip_zeros(s).last() != '0',
        strip_zeros(s).len() <= s.len(),
        strip_zeros(s) == s.take(strip_zeros(s).len() as int),
    decreases s.len(),
{
    if s.len() > 0 && s.last() == '0' {
        lemma_strip_zeros(s.drop_last());
        assert(s.drop_last().take(strip_zeros(s).len() as int) =~= s.take(strip_zeros(s).len() as int));
    } else {
        assert(s.take(s.len() as int) =~= s);
    }
}

/// Prices go out with at most four decimals and no trailing zeros: when the text has a decimal
/// point, what follows it is one to four digits, the last of them not `0`.
pub proof fn law_price_text_is_minimal(units: int)
    ensures
        ({
            let t = price_text(units);
            match find_char(t, '.') {
                Some(i) => 1 <= t.len() - i - 1 <= 4 && t.last() != '0' && t.last() != '.',
                None => true,
            }
        }),
{
    let q = crate::api::ten_thousandths(units);
    let frac = strip_zeros(four_digits(q % 10000));
    let sign = if units < 0 { seq!['-'] } else { Seq::<char>::empty() };
    let d = dec(q / 10000);
    lemma_dec_digits(q / 10000);
    lemma_strip_zeros(four_digits(q % 10000));
    let head = sign + d;
    assert forall|j: int| 0 <= j < head.len() implies head[j] != '.' by {
        if j >= sign.len() {
            assert(head[j] == d[j - sign.len()]);
            assert(is_digit(d[j - sign.len()]));
        }
    }
    let t = price_text(units);
    lemma_find_char(t, '.');
    if frac.len() == 0 {
        assert(t =~= head);
        assert(find_char(t, '.') is None);
    } else {
        let tail = seq!['.'] + frac;
        assert(t =~= head + tail);
        assert(t[head.len() as int] == '.');
        match find_char(t, '.') {
            Some(i) => {
                if i < head.len() {
                    assert(t[i] == head[i]);
                }
                assert(i == head.len());
                assert(t.len() - i - 1 == frac.len());
                assert(t.last() == frac.last());
            },
            None => {
                assert(t[head.len() as int] != '.');
            },
        }
    }
}

proof fn lemma_insert_sorted<T>(s: Seq<(u128, T)>, x: (u128, T))
    requires
        keys_sorted(s),
    ensures
        keys_sorted(insert_keyed(s, x)),
        insert_keyed(s, x).len() == s.len() + 1,
        forall|i: int| 0 <= i < insert_keyed(s, x).len() ==> (#[trigger] insert_keyed(s, x)[i]) == x
            || s.contains(insert_keyed(s, x)[i]),
    decreases s.len(),
{
    if s.len() == 0 {
    } else if s.last().0 <= x.0 {
        let r = s.push(x);
        assert forall|i: int| 0 <= i < r.len() implies (#[trigger] r[i]) == x || s.contains(r[i]) by {
            if i < s.len() {
                assert(r[i] == s[i]);
            }
        }
    } else {
        let d = s.drop_last();
        assert(keys_sorted(d));
        lemma_insert_sorted(d, x);
        let m = insert_keyed(d, x);
        let r = m.push(s.last());
        assert forall|i: int, j: int| 0 <= i < j < r.len() implies r[i].0 <= r[j].0 by {
            if j == r.len() - 1 {
                if m[i] == x {
                } else {
                    let k = choose|k: int| 0 <= k < d.len() && d[k] == m[i];
                    assert(s[k] == d[k]);
                }
            }
        }
        assert forall|i: int| 0 <= i < r.len() implies (#[trigger] r[i]) == x || s.contains(r[i]) by {
            if i < m.len() {
                if m[i] != x {
                    let k = choose|k: int| 0 <= k < d.len() && d[k] == m[i];
                    assert(s[k] == d[k]);
                }
            } else {
                assert(s[s.len() - 1] == s.last());
            }
        }
    }
}

/// Sorting by key gives rows in ascending key order, as many as there were, each of them one
/// of the input rows.
pub proof fn law_sorted_rows<T>(s: Seq<(u128, T)>)
    ensures
        keys_sorted(sort_keyed(s)),
        sort_keyed(s).len() == s.len(),
        forall|i: int| 0 <= i < s.len() ==> s.contains(#[trigger] sort_keyed(s)[i]),
    decreases s.len(),
{
    if s.len() > 0 {
        let d = s.drop_last();
        law_sorted_rows(d);
        lemma_insert_sorted(sort_keyed(d), s.last());
        let r = sort_keyed(s);
        assert forall|i: int| 0 <= i < s.len() implies s.contains(#[trigger] r[i]) by {
            if r[i] == s.last() {
                assert(s[s.len() - 1] == s.last());
            } else {
                let k = choose|k: int| 0 <= k < sort_keyed(d).len() && sort_keyed(d)[k] == r[i];
                let m = choose|m: int| 0 <= m < d.len() && d[m] == sort_keyed(d)[k];
                assert(s[m] == d[m]);
            }
        }
    }
}

/// The numeric id of a country key (-1 for a slug).
pub open spec fn key_id(k: CountryKey) -> int {
    match k {
        CountryKey::Id(a) => a as int,
        CountryKey::Slug(_) => -1,
    }
}

/// `getCountries` answers come out keyed by numeric id, in ascending order.
pub proof fn law_countries_are_ordered_by_id(v: crate::json::JsonView, t: Seq<char>)
    ensures
        crate::protocol::countries_of(v, t) matches Ok(list) ==> (forall|i: int| 0 <= i < list.len() ==> (#[trigger] list[i]).key is Id)
            && (forall|i: int, j: int| 0 <= i < j < list.len() ==> key_id(#[trigger] list[i].key) <= key_id(#[trigger] list[j].key)),
{
    if let Some(es) = crate::protocol::country_entries(v) {
        let rows = crate::protocol::country_rows(es);
        lemma_country_rows_keyed(es);
        law_sorted_rows(rows);
        let sorted = sort_keyed(rows);
        let list = payloads(sorted);
        assert forall|i: int| 0 <= i < list.len() implies (#[trigger] list[i]).key is Id && key_id(list[i].key)
            == sorted[i].0 by {
            assert(rows.contains(sorted[i]));
            let ki = choose|k: int| 0 <= k < rows.len() && rows[k] == sorted[i];
            assert(list[i] == sorted[i].1);
        }
        assert forall|i: int, j: int| 0 <= i < j < list.len() implies key_id(#[trigger] list[i].key) <= key_id(
            #[trigger] list[j].key,
        ) by {
            assert(key_id(list[i].key) == sorted[i].0);
            assert(key_id(list[j].key) == sorted[j].0);
        }
    }
}

proof fn lemma_country_rows_keyed(es: Seq<(Seq<char>, crate::json::JsonView)>)
    ensures
        forall|k: int| 0 <= k < crate::protocol::country_rows(es).len() ==> (#[trigger] crate::protocol::country_rows(es)[k]).1.key
            == CountryKey::Id(crate::protocol::country_rows(es)[k].0 as u32)
            && crate::protocol::country_rows(es)[k].0 <= u32::MAX,
    decreases es.len(),
{
    if es.len() > 0 {
        lemma_country_rows_keyed(es.drop_last());
        let p = crate::protocol::country_rows(es.drop_last());
        let t = match crate::protocol::country_row(es.last().0, es.last().1) {
            Some(r) => seq![r],
            None => Seq::empty(),
        };
        assert forall|k: int| 0 <= k < (p + t).len() implies (#[trigger] (p + t)[k]).1.key == CountryKey::Id(
            (p + t)[k].0 as u32,
        ) && (p + t)[k].0 <= u32::MAX by {
            if k < p.len() {
                assert((p + t)[k] == p[k]);
            } else {
                assert((p + t)[k] == t[k - p.len()]);
            }
        }
    }
}

} // verus!
