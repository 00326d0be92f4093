//! The provider-facing trait, the per-provider [`Dialect`] hooks, and the generic [`Client`]
//! that implements the protocol once for every dialect; URL building and percent-encoding.

use vstd::prelude::*;
use crate::amount::{Amount, unit};
use crate::error::{ApiError, ApiResult, ErrorView};
use crate::keymap::KeyMap;
use crate::num::{dec, digit_char, digit_to_char, u128_chars, u64_to_string};
use crate::protocol;
use crate::text::{chars_of, find, find_char, string_of};
use crate::transport::{HttpResponse, Outcome, Transport, pairs_view};
use crate::types::{
    Activation, ActivationId, ActivationStatus, ActiveActivation, Capabilities, Country,
    CountryRef, NumberRequest, PriceTable, Service, ServiceCode, StatusAck, StatusAction,
    TopCountry, copy_string,
};

verus! {

/// RFC 3986 unreserved characters.
pub open spec fn unreserved(c: char) -> bool {
    ('A' <= c && c <= 'Z') || ('a' <= c && c <= 'z') || ('0' <= c && c <= '9') || c == '-' || c
        == '_' || c == '.' || c == '~'
}

/// The UTF-8 bytes of a character.
pub open spec fn utf8_bytes(c: char) -> Seq<u8> {
    let n = c as u32 as nat;
    if n < 0x80 {
        seq![n as u8]
    } else if n < 0x800 {
        seq![(0xC0 + n / 64) as u8, (0x80 + n % 64) as u8]
    } else if n < 0x10000 {
        seq![(0xE0 + n / 4096) as u8, (0x80 + (n / 64) % 64) as u8, (0x80 + n % 64) as u8]
    } else {
        seq![
            (0xF0 + n / 262144) as u8,
            (0x80 + (n / 4096) % 64) as u8,
            (0x80 + (n / 64) % 64) as u8,
            (0x80 + n % 64) as u8,
        ]
    }
}

/// An uppercase hexadecimal digit.
pub open spec fn hex_upper(d: nat) -> char {
    if d < 10 { ((d + 48) as u8) as char } else { ((d + 55) as u8) as char }
}

/// `%XX` for each byte.
pub open spec fn percent_bytes(bs: Seq<u8>) -> Seq<char>
    decreases bs.len(),
{
    if bs.len() == 0 {
        Seq::empty()
    } else {
        percent_bytes(bs.drop_last()) + seq!['%', hex_upper((bs.last() / 16) as nat), hex_upper((bs.last() % 16) as nat)]
    }
}

/// One character, percent-encoded.
pub open spec fn encode_char(c: char) -> Seq<char> {
    if unreserved(c) {
        seq![c]
    } else {
        percent_bytes(utf8_bytes(c))
    }
}

/// Unreserved characters as they are, every other byte of the UTF-8 text as `%XX`.
pub open spec fn url_encoded(s: Seq<char>) -> Seq<char>
    decreases s.len(),
{
    if s.len() == 0 {
        Seq::empty()
    } else {
        url_encoded(s.drop_last()) + encode_char(s.last())
    }
}

/// `&k=v` for each parameter, encoded.
pub open spec fn query_tail(ps: Seq<(Seq<char>, Seq<char>)>) -> Seq<char>
    decreases ps.len(),
{
    if ps.len() == 0 {
        Seq::empty()
    } else {
        query_tail(ps.drop_last()) + seq!['&'] + url_encoded(ps.last().0) + seq!['='] + url_encoded(
            ps.last().1,
        )
    }
}

/// `<endpoint>?api_key=…&action=…&k=v…` (`&` in place of `?` when the endpoint has a query).
pub open spec fn url_of(
    endpoint: Seq<char>,
    api_key: Seq<char>,
    action: Seq<char>,
    ps: Seq<(Seq<char>, Seq<char>)>,
) -> Seq<char> {
    endpoint + seq![if find_char(endpoint, '?') is Some { '&' } else { '?' }] + "api_key="@
        + url_encoded(api_key) + "&action="@ + url_encoded(action) + query_tail(ps)
}

fn hex_upper_char(d: u32) -> (c: char)
    requires
        d < 16,
    ensures
        c == hex_upper(d as nat),
{
    if d < 10 { ((d + 48) as u8) as char } else { ((d + 55) as u8) as char }
}

fn push_percent(out: &mut Vec<char>, b: u32)
    requires
        b < 256,
    ensures
        final(out)@ == old(out)@ + seq!['%', hex_upper((b / 16) as nat), hex_upper((b % 16) as nat)],
{
    let ghost o = out@;
    out.push('%');
    out.push(hex_upper_char(b / 16));
    out.push(hex_upper_char(b % 16));
    assert(out@ =~= o + seq!['%', hex_upper((b / 16) as nat), hex_upper((b % 16) as nat)]);
}

proof fn lemma_percent_one(bs: Seq<u8>, b: u8)
    ensures
        percent_bytes(bs.push(b)) == percent_bytes(bs) + seq!['%', hex_upper((b / 16) as nat), hex_upper((b % 16) as nat)],
{
    assert(bs.push(b).drop_last() =~= bs);
}

fn push_encoded(out: &mut Vec<char>, c: char)
    ensures
        final(out)@ == old(out)@ + encode_char(c),
{
    let ghost o = out@;
    if ('A' <= c && c <= 'Z') || ('a' <= c && c <= 'z') || ('0' <= c && c <= '9') || c == '-'
        || c == '_' || c == '.' || c == '~' {
        out.push(c);
        assert(out@ =~= o + encode_char(c));
        return;
    }
    let n = c as u32;
    let ghost bs = utf8_bytes(c);
    if n < 0x80 {
        push_percent(out, n);
        proof {
            lemma_percent_one(Seq::empty(), n as u8);
            assert(seq![n as u8] =~= Seq::<u8>::empty().push(n as u8));
            assert(percent_bytes(Seq::<u8>::empty()) =~= Seq::<char>::empty());
        }
    } else if n < 0x800 {
        push_percent(out, 0xC0 + n / 64);
        push_percent(out, 0x80 + n % 64);
        proof {
            let b0 = (0xC0 + n / 64) as u8;
            let b1 = (0x80 + n % 64) as u8;
            lemma_percent_one(Seq::empty(), b0);
            lemma_percent_one(seq![b0], b1);
            assert(seq![b0] =~= Seq::<u8>::empty().push(b0));
            assert(bs =~= seq![b0].push(b1));
            assert(percent_bytes(Seq::<u8>::empty()) =~= Seq::<char>::empty());
        }
    } else if n < 0x10000 {
        push_percent(out, 0xE0 + n / 4096);
        push_percent(out, 0x80 + (n / 64) % 64);
        push_percent(out, 0x80 + n % 64);
        proof {
            let b0 = (0xE0 + n / 4096) as u8;
            let b1 = (0x80 + (n / 64) % 64) as u8;
            let b2 = (0x80 + n % 64) as u8;
            lemma_percent_one(Seq::empty(), b0);
            lemma_percent_one(seq![b0], b1);
            lemma_percent_one(seq![b0, b1], b2);
            assert(seq![b0] =~= Seq::<u8>::empty().push(b0));
            assert(seq![b0, b1] =~= seq![b0].push(b1));
            assert(bs =~= seq![b0, b1].push(b2));
            assert(percent_bytes(Seq::<u8>::empty()) =~= Seq::<char>::empty());
        }
    } else {
        push_percent(out, 0xF0 + n / 262144);
        push_percent(out, 0x80 + (n / 4096) % 64);
        push_percent(out, 0x80 + (n / 64) % 64);
        push_percent(out, 0x80 + n % 64);
        proof {
            let b0 = (0xF0 + n / 262144) as u8;
            let b1 = (0x80 + (n / 4096) % 64) as u8;
            let b2 = (0x80 + (n / 64) % 64) as u8;
            let b3 = (0x80 + n % 64) as u8;
            lemma_percent_one(Seq::empty(), b0);
            lemma_percent_one(seq![b0], b1);
            lemma_percent_one(seq![b0, b1], b2);
            lemma_percent_one(seq![b0, b1, b2], b3);
            assert(seq![b0] =~= Seq::<u8>::empty().push(b0));
            assert(seq![b0, b1] =~= seq![b0].push(b1));
            assert(seq![b0, b1, b2] =~= seq![b0, b1].push(b2));
            assert(bs =~= seq![b0, b1, b2].push(b3));
            assert(percent_bytes(Seq::<u8>::empty()) =~= Seq::<char>::empty());
        }
    }
    assert(out@ =~= o + encode_char(c));
}

/// Appends the encoding of `s`.
fn push_url_encoded(out: &mut Vec<char>, s: &str)
    ensures
        final(out)@ == old(out)@ + url_encoded(s@),
{
    let cs = chars_of(s);
    let ghost o = out@;
    let mut i: usize = 0;
    assert(cs@.take(0) =~= Seq::<char>::empty());
    assert(o + url_encoded(Seq::<char>::empty()) =~= o);
    while i < cs.len()
        invariant
            i <= cs@.len(),
            cs@ == s@,
            out@ == o + url_encoded(cs@.take(i as int)),
        decreases cs.len() - i,
    {
        proof {
            assert(cs@.take(i + 1).drop_last() =~= cs@.take(i as int));
            assert(cs@.take(i + 1).last() == cs@[i as int]);
        }
        push_encoded(out, cs[i]);
        assert(out@ =~= o + url_encoded(cs@.take(i + 1)));
        i = i + 1;
    }
    assert(cs@.take(i as int) =~= cs@);
}

/// RFC 3986 unreserved characters pass through; everything else is `%XX`-encoded (UTF-8).
pub fn encode(s: &str) -> (r: String)
    ensures
        r@ == url_encoded(s@),
{
    let mut out: Vec<char> = Vec::new();
    push_url_encoded(&mut out, s);
    assert(out@ =~= url_encoded(s@));
    string_of(&out)
}

fn push_literal(out: &mut Vec<char>, s: &str)
    ensures
        final(out)@ == old(out)@ + s@,
{
    let cs = chars_of(s);
    let ghost o = out@;
    let mut i: usize = 0;
    while i < cs.len()
        invariant
            i <= cs@.len(),
            out@ == o + cs@.take(i as int),
        decreases cs.len() - i,
    {
        out.push(cs[i]);
        i = i + 1;
        assert(out@ =~= o + cs@.take(i as int));
    }
    assert(cs@.take(i as int) =~= s@);
}

/// `<endpoint>?api_key=…&action=…&k=v…` with percent-encoded values.
pub fn build_url(endpoint: &str, api_key: &str, action: &str, params: &[(String, String)]) -> (r: String)
    ensures
        r@ == url_of(endpoint@, api_key@, action@, pairs_view(params@)),
{
    let mut out: Vec<char> = Vec::new();
    push_literal(&mut out, endpoint);
    let ev = chars_of(endpoint);
    let sep = match find(&ev, '?') {
        Some(_) => '&',
        None => '?',
    };
    out.push(sep);
    push_literal(&mut out, "api_key=");
    push_url_encoded(&mut out, api_key);
    push_literal(&mut out, "&action=");
    push_url_encoded(&mut out, action);
    let ghost head = out@;
    let ghost ps = pairs_view(params@);
    let mut i: usize = 0;
    assert(ps.take(0) =~= Seq::<(Seq<char>, Seq<char>)>::empty());
    assert(head + query_tail(ps.take(0)) =~= head);
    while i < params.len()
        invariant
            i <= params@.len(),
            ps == pairs_view(params@),
            out@ == head + query_tail(ps.take(i as int)),
        decreases params.len() - i,
    {
        proof {
            assert(ps.take(i + 1).drop_last() =~= ps.take(i as int));
            assert(ps.take(i + 1).last() == (params@[i as int].0@, params@[i as int].1@));
        }
        out.push('&');
        push_url_encoded(&mut out, params[i].0.as_str());
        out.push('=');
        push_url_encoded(&mut out, params[i].1.as_str());
        assert(out@ =~= head + query_tail(ps.take(i + 1)));
        i = i + 1;
    }
    assert(ps.take(i as int) =~= ps);
    assert(out@ =~= url_of(endpoint@, api_key@, action@, ps));
    string_of(&out)
}

/// A price in ten-thousandths, rounded half away from zero, without its sign.
pub open spec fn ten_thousandths(units: int) -> nat {
    let m = if units < 0 { -units } else { units };
    ((m + 50_000_000_000_000) / 100_000_000_000_000) as nat
}

/// `s` without its trailing `0`s.
pub open spec fn strip_zeros(s: Seq<char>) -> Seq<char>
    decreases s.len(),
{
    if s.len() > 0 && s.last() == '0' {
        strip_zeros(s.drop_last())
    } else {
        s
    }
}

/// Four decimal digits of `f` (< 10000), zero-padded.
pub open spec fn four_digits(f: nat) -> Seq<char> {
    seq![digit_char(f / 1000), digit_char((f / 100) % 10), digit_char((f / 10) % 10), digit_char(f % 10)]
}

/// Prices are sent with up to 4 decimals and no trailing zeros (`0.25`, `1`, `0.1569`); a
/// negative amount keeps its sign even when it rounds to zero.
pub open spec fn price_text(units: int) -> Seq<char> {
    let q = ten_thousandths(units);
    let frac = strip_zeros(four_digits(q % 10000));
    (if units < 0 { seq!['-'] } else { Seq::<char>::empty() }) + dec(q / 10000) + (if frac.len() == 0 {
        Seq::<char>::empty()
    } else {
        seq!['.'] + frac
    })
}

/// Prices are sent with up to 4 decimals and no trailing zeros (`0.25`, `1`, `0.1569`): the
/// amount rounded to ten-thousandths, halves away from zero.
pub fn fmt_price(p: Amount) -> (r: String)
    ensures
        r@ == price_text(p.units as int),
{
    let neg = p.units < 0;
    let m: u128 = if neg { ((0 - (p.units + 1)) as u128) + 1 } else { p.units as u128 };
    assert(m == if p.units < 0 { -(p.units as int) } else { p.units as int });
    let q: u128 = (m + 50_000_000_000_000u128) / 100_000_000_000_000u128;
    assert(q == ten_thousandths(p.units as int));
    let f = (q % 10000) as u64;
    let mut digits: Vec<char> = Vec::new();
    digits.push(digit_to_char(f / 1000));
    digits.push(digit_to_char((f / 100) % 10));
    digits.push(digit_to_char((f / 10) % 10));
    digits.push(digit_to_char(f % 10));
    assert(digits@ =~= four_digits(f as nat));
    let mut k: usize = 4;
    assert(digits@.take(4) =~= digits@);
    while k > 0 && digits[k - 1] == '0'
        invariant
            k <= 4,
            digits@.len() == 4,
            strip_zeros(digits@.take(k as int)) == strip_zeros(digits@),
        decreases k,
    {
        proof {
            assert(digits@.take(k as int).drop_last() =~= digits@.take(k - 1));
        }
        k = k - 1;
    }
    proof {
        assert(digits@.take(4) =~= digits@);
        assert(strip_zeros(digits@.take(k as int)) == digits@.take(k as int));
    }
    let mut out: Vec<char> = Vec::new();
    if neg {
        out.push('-');
    }
    let ip = u128_chars(q / 10000);
    let mut i: usize = 0;
    let ghost pre = out@;
    while i < ip.len()
        invariant
            i <= ip@.len(),
            out@ == pre + ip@.take(i as int),
        decreases ip.len() - i,
    {
        out.push(ip[i]);
        i = i + 1;
        assert(out@ =~= pre + ip@.take(i as int));
    }
    assert(ip@.take(i as int) =~= ip@);
    let ghost mid = out@;
    if k > 0 {
        out.push('.');
        let mut j: usize = 0;
        while j < k
            invariant
                j <= k <= 4,
                digits@.len() == 4,
                out@ == mid + seq!['.'] + digits@.take(j as int),
            decreases k - j,
        {
            out.push(digits[j]);
            j = j + 1;
            assert(out@ =~= mid + seq!['.'] + digits@.take(j as int));
        }
    }
    assert(out@ =~= price_text(p.units as int));
    string_of(&out)
}

/// Everything that differs between providers. Each answer is read by a method of the dialect
/// whose meaning is a spec function of the trait; those default to the sms-activate reference
/// readings, and a dialect that keeps them implements each method with the matching
/// [`protocol`] parser.
pub trait Dialect: Send + Sync {
    /// The capabilities this dialect declares.
    spec fn caps(&self) -> Capabilities;

    /// The provider's name (each dialect states its own).
    open spec fn name_text(&self) -> Seq<char> {
        Seq::empty()
    }

    fn name(&self) -> (r: &'static str)
        ensures
            r@ == self.name_text(),
    ;

    /// The handler URL this dialect talks to (each dialect states its own).
    open spec fn handler_url(&self) -> Seq<char> {
        Seq::empty()
    }

    /// Full handler URL, e.g. `https://hero-sms.com/stubs/handler_api.php`.
    fn endpoint(&self) -> (r: &str)
        ensures
            r@ == self.handler_url(),
    ;

    fn capabilities(&self) -> (r: Capabilities)
        ensures
            r == self.caps(),
    ;

    /// The error a response with `status` and `body` denotes for this dialect (`None`: the body
    /// is data). The sms-activate reference rules unless the dialect says otherwise.
    open spec fn error_of(&self, status: u16, body: Seq<char>) -> Option<ErrorView> {
        protocol::standard_error(status, body)
    }

    /// Turn a raw HTTP response into `Ok(())` (body is data) or the provider's error
    /// ([`protocol::classify_standard`] for the reference rules).
    fn classify(&self, resp: &HttpResponse) -> (r: ApiResult<()>)
        ensures
            crate::error::err_of(r) == self.error_of(resp.status, resp.body@),
    ;

    /// The query parameters of `action` as this dialect sends them: unchanged unless the dialect
    /// says otherwise.
    open spec fn adjusted_params(&self, action: Seq<char>, params: Seq<(Seq<char>, Seq<char>)>) -> Seq<
        (Seq<char>, Seq<char>),
    > {
        params
    }

    /// Last chance to add/rename query parameters before a request goes out. `params` excludes
    /// `api_key` and `action`.
    fn adjust_params(&self, action: &str, params: &mut Vec<(String, String)>)
        ensures
            pairs_view(final(params)@) == self.adjusted_params(action@, pairs_view(old(params)@)),
    ;

    /// What this dialect makes of a `getBalance` answer text: the reference reading
    /// ([`protocol::balance_answer`]) unless the dialect says otherwise.
    open spec fn balance_answer(&self, body: Seq<char>, r: ApiResult<Amount>) -> bool {
        protocol::balance_answer(body, r)
    }

    fn parse_balance(&self, body: &str) -> (r: ApiResult<Amount>)
        ensures
            self.balance_answer(body@, r),
    ;

    /// What this dialect makes of a `getNumberV2` answer text: the reference reading
    /// ([`protocol::activation_answer`]) unless the dialect says otherwise.
    open spec fn activation_answer(&self, body: Seq<char>, r: ApiResult<Activation>) -> bool {
        protocol::activation_answer(body, r)
    }

    fn parse_activation(&self, body: &str) -> (r: ApiResult<Activation>)
        ensures
            self.activation_answer(body@, r),
    ;

    /// What this dialect makes of a `getStatus` answer text: the reference reading
    /// ([`protocol::status_answer`]) unless the dialect says otherwise.
    open spec fn status_answer(&self, body: Seq<char>, r: ApiResult<ActivationStatus>) -> bool {
        protocol::status_answer(body, r)
    }

    fn parse_status(&self, body: &str) -> (r: ApiResult<ActivationStatus>)
        ensures
            self.status_answer(body@, r),
    ;

    /// What this dialect makes of a `setStatus` answer text: the reference reading
    /// ([`protocol::set_status_answer`]) unless the dialect says otherwise.
    open spec fn set_status_answer(&self, body: Seq<char>, r: ApiResult<StatusAck>) -> bool {
        protocol::set_status_answer(body, r)
    }

    fn parse_set_status(&self, body: &str) -> (r: ApiResult<StatusAck>)
        ensures
            self.set_status_answer(body@, r),
    ;

    /// What this dialect makes of a `getPrices` answer text: the reference reading
    /// ([`protocol::prices_answer`]) unless the dialect says otherwise.
    open spec fn prices_answer(&self, body: Seq<char>, r: ApiResult<PriceTable>) -> bool {
        protocol::prices_answer(body, r)
    }

    fn parse_prices(&self, body: &str) -> (r: ApiResult<PriceTable>)
        ensures
            self.prices_answer(body@, r),
    ;

    /// What this dialect makes of a `getServicesList` answer text: the reference reading
    /// ([`protocol::services_answer`]) unless the dialect says otherwise.
    open spec fn services_answer(&self, body: Seq<char>, r: ApiResult<Vec<Service>>) -> bool {
        protocol::services_answer(body, r)
    }

    fn parse_services(&self, body: &str) -> (r: ApiResult<Vec<Service>>)
        ensures
            self.services_answer(body@, r),
    ;

    /// What this dialect makes of a `getCountries` answer text: the reference reading
    /// ([`protocol::countries_answer`]) unless the dialect says otherwise.
    open spec fn countries_answer(&self, body: Seq<char>, r: ApiResult<Vec<Country>>) -> bool {
        protocol::countries_answer(body, r)
    }

    fn parse_countries(&self, body: &str) -> (r: ApiResult<Vec<Country>>)
        ensures
            self.countries_answer(body@, r),
    ;

    /// What this dialect makes of a `getTopCountriesByService` answer text: the reference reading
    /// ([`protocol::top_countries_answer`]) unless the dialect says otherwise.
    open spec fn top_countries_answer(&self, body: Seq<char>, r: ApiResult<Vec<TopCountry>>) -> bool {
        protocol::top_countries_answer(body, r)
    }

    fn parse_top_countries(&self, body: &str) -> (r: ApiResult<Vec<TopCountry>>)
        ensures
            self.top_countries_answer(body@, r),
    ;

    /// What this dialect makes of a `getNumbersStatus` answer text: the reference reading
    /// ([`protocol::numbers_status_answer`]) unless the dialect says otherwise.
    open spec fn numbers_status_answer(&self, body: Seq<char>, r: ApiResult<KeyMap<ServiceCode, u64>>) -> bool {
        protocol::numbers_status_answer(body, r)
    }

    fn parse_numbers_status(&self, body: &str) -> (r: ApiResult<KeyMap<ServiceCode, u64>>)
        ensures
            self.numbers_status_answer(body@, r),
    ;

    /// What this dialect makes of a `getActiveActivations` answer text: the reference reading
    /// ([`protocol::active_activations_answer`]) unless the dialect says otherwise.
    open spec fn active_activations_answer(&self, body: Seq<char>, r: ApiResult<Vec<ActiveActivation>>) -> bool {
        protocol::active_activations_answer(body, r)
    }

    fn parse_active_activations(&self, body: &str) -> (r: ApiResult<Vec<ActiveActivation>>)
        ensures
            self.active_activations_answer(body@, r),
    ;

    /// What this dialect makes of a `getOperators` answer text: the reference reading
    /// ([`protocol::operators_answer`]) unless the dialect says otherwise.
    open spec fn operators_answer(&self, body: Seq<char>, r: ApiResult<KeyMap<CountryRef, Vec<String>>>) -> bool {
        protocol::operators_answer(body, r)
    }

    fn parse_operators(&self, body: &str) -> (r: ApiResult<KeyMap<CountryRef, Vec<String>>>)
        ensures
            self.operators_answer(body@, r),
    ;
}

/// What the application talks to. Object-safe: `Box<dyn SmsActivateApi>` works.
///
/// Methods the provider does not support return [`ApiError::Unsupported`]; check
/// [`SmsActivateApi::capabilities`] first to avoid the round trip.
pub trait SmsActivateApi: Send + Sync {
    /// Human-readable provider name (`"Hero SMS"`).
    fn provider(&self) -> &'static str;

    fn capabilities(&self) -> Capabilities;

    /// `getBalance` → account balance in the provider's currency.
    fn get_balance(&self) -> ApiResult<Amount>;

    /// Buy a number. Uses `getNumberV2` when the provider supports it, `getNumber` otherwise.
    fn get_number(&self, request: &NumberRequest) -> ApiResult<Activation>;

    /// `getStatus` — poll for the SMS code.
    fn get_status(&self, id: &ActivationId) -> ApiResult<ActivationStatus>;

    /// `setStatus` — drive the activation state machine (ready / retry / complete / cancel).
    fn set_status(&self, id: &ActivationId, action: StatusAction) -> ApiResult<StatusAck>;

    /// `getPrices` — optionally narrowed to a service and/or country.
    fn get_prices(&self, service: Option<&ServiceCode>, country: Option<&CountryRef>) -> ApiResult<PriceTable>;

    /// `getServicesList`
    fn get_services(&self) -> ApiResult<Vec<Service>>;

    /// `getCountries`
    fn get_countries(&self) -> ApiResult<Vec<Country>>;

    /// `getTopCountriesByService`
    fn get_top_countries(&self, service: &ServiceCode) -> ApiResult<Vec<TopCountry>>;

    /// `getNumbersStatus` — available numbers per service in a country. Optional capability.
    fn get_numbers_status(&self, country: &CountryRef, operator: Option<&str>) -> (r: ApiResult<KeyMap<ServiceCode, u64>>)
        default_ensures
            r matches Err(e) && e@ == ErrorView::Unsupported("getNumbersStatus"@),
    {
        Err(ApiError::Unsupported("getNumbersStatus"))
    }

    /// `getActiveActivations`. Optional capability.
    fn get_active_activations(&self) -> (r: ApiResult<Vec<ActiveActivation>>)
        default_ensures
            r matches Err(e) && e@ == ErrorView::Unsupported("getActiveActivations"@),
    {
        Err(ApiError::Unsupported("getActiveActivations"))
    }

    /// `getOperators`. Optional capability.
    fn get_operators(&self, country: Option<&CountryRef>) -> (r: ApiResult<KeyMap<CountryRef, Vec<String>>>)
        default_ensures
            r matches Err(e) && e@ == ErrorView::Unsupported("getOperators"@),
    {
        Err(ApiError::Unsupported("getOperators"))
    }

    /// `setStatus` 8 — cancel and refund.
    fn cancel(&self, id: &ActivationId) -> ApiResult<StatusAck> {
        self.set_status(id, StatusAction::Cancel)
    }

    /// `setStatus` 6 — confirm the code and finish.
    fn complete(&self, id: &ActivationId) -> ApiResult<StatusAck> {
        self.set_status(id, StatusAction::Complete)
    }

    /// `setStatus` 3 — ask for another SMS on the same number.
    fn request_another_code(&self, id: &ActivationId) -> ApiResult<StatusAck> {
        self.set_status(id, StatusAction::RequestAnotherCode)
    }
}

/// What a request ends in, given what the transport answered: a transport failure, the
/// dialect's error for the response, or the body when the dialect takes it for data.
pub open spec fn call_outcome<D: Dialect>(d: D, o: Outcome) -> Result<Seq<char>, ErrorView> {
    match o {
        Err(m) => Err(ErrorView::Transport(m)),
        Ok((status, body)) => match d.error_of(status, body) {
            Some(e) => Err(e),
            None => Ok(body),
        },
    }
}

/// Whether `r` is what a method makes of the outcome `out` of its request: the error itself,
/// or what `read` allows for a data body.
pub open spec fn reads_outcome<R>(
    out: Result<Seq<char>, ErrorView>,
    r: ApiResult<R>,
    read: spec_fn(Seq<char>) -> bool,
) -> bool {
    match out {
        Err(e) => r matches Err(x) && x@ == e,
        Ok(b) => read(b),
    }
}

/// Generic protocol client: `Transport` does HTTP, `Dialect` supplies provider specifics.
pub struct Client<T, D> {
    transport: T,
    dialect: D,
    api_key: String,
}

/// A query parameter.
fn param(k: &str, v: &str) -> (r: (String, String))
    ensures
        r.0@ == k@,
        r.1@ == v@,
{
    (string_of(&chars_of(k)), string_of(&chars_of(v)))
}

/// A query parameter whose value is already a string.
fn param_owned(k: &str, v: String) -> (r: (String, String))
    ensures
        r.0@ == k@,
        r.1@ == v@,
{
    (string_of(&chars_of(k)), v)
}

/// The query parameters of `getPrices`: the service, then the country, each when given.
pub open spec fn prices_query(service: Option<&ServiceCode>, country: Option<&CountryRef>) -> Seq<(Seq<char>, Seq<char>)> {
    (match service {
        Some(s) => seq![("service"@, s@)],
        None => Seq::empty(),
    }) + (match country {
        Some(c) => seq![("country"@, crate::types::country_text(c@))],
        None => Seq::empty(),
    })
}

/// The query parameters of `getNumbersStatus`: the country, then the operator when given.
pub open spec fn numbers_status_query(country: crate::types::CountryKey, operator: Option<&str>) -> Seq<(Seq<char>, Seq<char>)> {
    seq![("country"@, crate::types::country_text(country))] + match operator {
        Some(op) => seq![("operator"@, op@)],
        None => Seq::empty(),
    }
}

/// The query parameters of `getOperators`: the country when given.
pub open spec fn operators_query(country: Option<&CountryRef>) -> Seq<(Seq<char>, Seq<char>)> {
    match country {
        Some(c) => seq![("country"@, crate::types::country_text(c@))],
        None => Seq::empty(),
    }
}

/// The query parameters of `getNumber` / `getNumberV2`, in the order they are sent.
pub open spec fn number_query(r: crate::types::RequestParams) -> Seq<(Seq<char>, Seq<char>)> {
    seq![("service"@, r.service), ("country"@, crate::types::country_text(r.country))]
        + (match r.operator {
        Some(op) => seq![("operator"@, op)],
        None => Seq::empty(),
    }) + (match r.max_price {
        Some(p) => seq![("maxPrice"@, price_text(p.units as int))],
        None => Seq::empty(),
    }) + (match r.min_price {
        Some(p) => seq![("minPrice"@, price_text(p.units as int))],
        None => Seq::empty(),
    }) + r.extra
}

/// The query parameters of a number request (see [`number_query`]).
pub fn number_params(request: &NumberRequest) -> (r: Vec<(String, String)>)
    ensures
        pairs_view(r@) == number_query(request@),
{
    let mut params: Vec<(String, String)> = Vec::new();
    params.push(param_owned("service", copy_string(&request.service.0)));
    params.push(param_owned("country", request.country.to_string()));
    let ghost base = pairs_view(params@);
    assert(base =~= seq![("service"@, request@.service), ("country"@, crate::types::country_text(request@.country))]);
    if let Some(op) = &request.operator {
        params.push(param_owned("operator", copy_string(op)));
    }
    let ghost with_op = pairs_view(params@);
    assert(with_op =~= base + match request@.operator {
        Some(op) => seq![("operator"@, op)],
        None => Seq::<(Seq<char>, Seq<char>)>::empty(),
    });
    if let Some(p) = request.max_price {
        params.push(param_owned("maxPrice", fmt_price(p)));
    }
    let ghost with_max = pairs_view(params@);
    assert(with_max =~= with_op + match request@.max_price {
        Some(p) => seq![("maxPrice"@, price_text(p.units as int))],
        None => Seq::<(Seq<char>, Seq<char>)>::empty(),
    });
    if let Some(p) = request.min_price {
        params.push(param_owned("minPrice", fmt_price(p)));
    }
    let ghost with_min = pairs_view(params@);
    assert(with_min =~= with_max + match request@.min_price {
        Some(p) => seq![("minPrice"@, price_text(p.units as int))],
        None => Seq::<(Seq<char>, Seq<char>)>::empty(),
    });
    let mut i: usize = 0;
    while i < request.extra.len()
        invariant
            i <= request.extra@.len(),
            pairs_view(params@) == with_min + pairs_view(request.extra@).take(i as int),
        decreases request.extra.len() - i,
    {
        let ghost before = pairs_view(params@);
        params.push((copy_string(&request.extra[i].0), copy_string(&request.extra[i].1)));
        assert(pairs_view(params@) =~= before.push(pairs_view(request.extra@)[i as int]));
        i = i + 1;
        assert(pairs_view(params@) =~= with_min + pairs_view(request.extra@).take(i as int));
    }
    assert(pairs_view(request.extra@).take(i as int) =~= pairs_view(request.extra@));
    params
}

impl<T: Transport, D: Dialect> Client<T, D> {
    /// The API key the client sends.
    pub closed spec fn key(&self) -> Seq<char> {
        self.api_key@
    }

    pub closed spec fn dialect_value(&self) -> D {
        self.dialect
    }

    pub closed spec fn transport_value(&self) -> T {
        self.transport
    }

    pub fn new(transport: T, dialect: D, api_key: &str) -> (r: Self)
        ensures
            r.key() == api_key@,
            r.dialect_value() == dialect,
            r.transport_value() == transport,
    {
        Client { transport, dialect, api_key: string_of(&chars_of(api_key)) }
    }

    pub fn dialect(&self) -> (r: &D)
        ensures
            *r == self.dialect_value(),
    {
        &self.dialect
    }

    pub fn transport(&self) -> (r: &T)
        ensures
            *r == self.transport_value(),
    {
        &self.transport
    }

    /// The URL of `action` with `params`: the dialect's handler, the key, the action and the
    /// parameters as the dialect adjusts them, encoded.
    pub fn request_url(&self, action: &str, params: Vec<(String, String)>) -> (r: String)
        ensures
            r@ == url_of(
                self.dialect_value().handler_url(),
                self.key(),
                action@,
                self.dialect_value().adjusted_params(action@, pairs_view(params@)),
            ),
    {
        let mut params = params;
        self.dialect.adjust_params(action, &mut params);
        build_url(self.dialect.endpoint(), self.api_key.as_str(), action, params.as_slice())
    }

    /// The URL sent for `action` with `params` (see [`Client::request_url`]).
    pub open spec fn sent_url(&self, action: Seq<char>, params: Seq<(Seq<char>, Seq<char>)>) -> Seq<char> {
        url_of(
            self.dialect_value().handler_url(),
            self.key(),
            action,
            self.dialect_value().adjusted_params(action, params),
        )
    }

    /// Whether `r` is what the client makes of some answer its transport may give to the URL
    /// of `action` with `params`; `read` says what may become of a body taken for data.
    pub open spec fn answered<R>(
        &self,
        action: Seq<char>,
        params: Seq<(Seq<char>, Seq<char>)>,
        r: ApiResult<R>,
        read: spec_fn(Seq<char>) -> bool,
    ) -> bool {
        exists|o: Outcome|
            #[trigger] self.transport_value().answers(self.sent_url(action, params), o) && reads_outcome(
                call_outcome(self.dialect_value(), o),
                r,
                read,
            )
    }

    /// Sends the URL of `action` with `params` and returns the body once the dialect has
    /// taken it for data; a transport failure or the dialect's error otherwise. Providers use
    /// this for their own extra actions.
    pub fn call(&self, action: &str, params: Vec<(String, String)>) -> (r: ApiResult<String>)
        ensures
            self.answered(action@, pairs_view(params@), r, |b: Seq<char>| r matches Ok(x) && x@ == b),
    {
        let ghost sent = self.sent_url(action@, pairs_view(params@));
        let url = self.request_url(action, params);
        let got = self.transport.get(url.as_str());
        let ghost o = crate::transport::outcome_view(got);
        assert(self.transport_value().answers(sent, o));
        let resp = match got {
            Ok(resp) => resp,
            Err(e) => {
                let r: ApiResult<String> = Err(ApiError::Transport(e));
                assert(reads_outcome(call_outcome(self.dialect_value(), o), r, |b: Seq<char>| r matches Ok(x) && x@ == b));
                return r;
            },
        };
        let c = self.dialect.classify(&resp);
        proof {
            let st = resp.status;
            let bd = resp.body@;
            assert(self.dialect.error_of(st, bd) == crate::error::err_of(c));
        }
        let r: ApiResult<String> = match c {
            Ok(()) => Ok(resp.body),
            Err(e) => Err(e),
        };
        assert(reads_outcome(call_outcome(self.dialect_value(), o), r, |b: Seq<char>| r matches Ok(x) && x@ == b));
        r
    }

    /// A method that hands on the error of its request keeps to what the transport answered.
    pub(crate) proof fn lemma_error_handed_on<R>(
        &self,
        action: Seq<char>,
        params: Seq<(Seq<char>, Seq<char>)>,
        sent: ApiResult<String>,
        r: ApiResult<R>,
        read: spec_fn(Seq<char>) -> bool,
    )
        requires
            self.answered(action, params, sent, |b: Seq<char>| sent matches Ok(x) && x@ == b),
            sent matches Err(e) && r matches Err(e2) && e2@ == e@,
        ensures
            self.answered(action, params, r, read),
    {
        let o = choose|o: Outcome|
            #[trigger] self.transport_value().answers(self.sent_url(action, params), o) && reads_outcome(
                call_outcome(self.dialect_value(), o),
                sent,
                |b: Seq<char>| sent matches Ok(x) && x@ == b,
            );
        assert(self.transport_value().answers(self.sent_url(action, params), o));
    }

    /// A method whose result is what `read` allows of the body its request brought back keeps
    /// to what the transport answered.
    pub(crate) proof fn lemma_body_read<R>(
        &self,
        action: Seq<char>,
        params: Seq<(Seq<char>, Seq<char>)>,
        sent: ApiResult<String>,
        r: ApiResult<R>,
        read: spec_fn(Seq<char>) -> bool,
    )
        requires
            self.answered(action, params, sent, |b: Seq<char>| sent matches Ok(x) && x@ == b),
            sent matches Ok(b) && read(b@),
        ensures
            self.answered(action, params, r, read),
    {
        let o = choose|o: Outcome|
            #[trigger] self.transport_value().answers(self.sent_url(action, params), o) && reads_outcome(
                call_outcome(self.dialect_value(), o),
                sent,
                |b: Seq<char>| sent matches Ok(x) && x@ == b,
            );
        assert(self.transport_value().answers(self.sent_url(action, params), o));
    }

    /// `Ok` when the capability is there, [`ApiError::Unsupported`] naming the action otherwise.
    fn require(&self, enabled: bool, action: &'static str) -> (r: ApiResult<()>)
        ensures
            enabled ==> r is Ok,
            !enabled ==> (r matches Err(e) && e@ == ErrorView::Unsupported(action@)),
    {
        if enabled {
            Ok(())
        } else {
            Err(ApiError::Unsupported(action))
        }
    }
}

impl<T: Transport, D: Dialect> SmsActivateApi for Client<T, D> {
    fn provider(&self) -> (r: &'static str)
        ensures
            r@ == self.dialect_value().name_text(),
    {
        self.dialect.name()
    }

    fn capabilities(&self) -> (r: Capabilities)
        ensures
            r == self.dialect_value().caps(),
    {
        self.dialect.capabilities()
    }

    fn get_balance(&self) -> (r: ApiResult<Amount>)
        ensures
            self.answered(
                "getBalance"@,
                Seq::empty(),
                r,
                |b: Seq<char>| self.dialect_value().balance_answer(b, r),
            ),
    {
        let params: Vec<(String, String)> = Vec::new();
        let ghost q = pairs_view(params@);
        assert(q =~= Seq::empty());
        let sent = self.call("getBalance", params);
        let ghost sent_v = sent;
        let body = match sent {
            Ok(b) => b,
            Err(e) => {
                let r = Err(e);
                proof {
                    self.lemma_error_handed_on(
                        "getBalance"@,
                        q,
                        sent_v,
                        r,
                        |b: Seq<char>| self.dialect_value().balance_answer(b, r),
                    );
                }
                return r;
            },
        };
        let r = self.dialect.parse_balance(body.as_str());
        proof {
            self.lemma_body_read(
                "getBalance"@,
                q,
                sent_v,
                r,
                |b: Seq<char>| self.dialect_value().balance_answer(b, r),
            );
        }
        r
    }

    fn get_number(&self, request: &NumberRequest) -> (r: ApiResult<Activation>)
        ensures
            self.dialect_value().caps().get_number_v2 ==> self.answered(
                "getNumberV2"@,
                number_query(request@),
                r,
                |b: Seq<char>| self.dialect_value().activation_answer(b, r),
            ),
            !self.dialect_value().caps().get_number_v2 ==> self.answered(
                "getNumber"@,
                number_query(request@),
                r,
                |b: Seq<char>| protocol::access_number_answer(b, r),
            ),
    {
        let caps = self.dialect.capabilities();
        let params = number_params(request);
        let ghost q = pairs_view(params@);
        if caps.get_number_v2 {
            let sent = self.call("getNumberV2", params);
            let ghost sent_v = sent;
            let body = match sent {
                Ok(b) => b,
                Err(e) => {
                    let r = Err(e);
                    proof {
                        self.lemma_error_handed_on(
                            "getNumberV2"@,
                            q,
                            sent_v,
                            r,
                            |b: Seq<char>| self.dialect_value().activation_answer(b, r),
                        );
                    }
                    return r;
                },
            };
            let r = self.dialect.parse_activation(body.as_str());
            proof {
                self.lemma_body_read(
                    "getNumberV2"@,
                    q,
                    sent_v,
                    r,
                    |b: Seq<char>| self.dialect_value().activation_answer(b, r),
                );
            }
            r
        } else {
            let sent = self.call("getNumber", params);
            let ghost sent_v = sent;
            let body = match sent {
                Ok(b) => b,
                Err(e) => {
                    let r = Err(e);
                    proof {
                        self.lemma_error_handed_on(
                            "getNumber"@,
                            q,
                            sent_v,
                            r,
                            |b: Seq<char>| protocol::access_number_answer(b, r),
                        );
                    }
                    return r;
                },
            };
            let r = protocol::parse_access_number(body.as_str());
            proof {
                self.lemma_body_read(
                    "getNumber"@,
                    q,
                    sent_v,
                    r,
                    |b: Seq<char>| protocol::access_number_answer(b, r),
                );
            }
            r
        }
    }

    fn get_status(&self, id: &ActivationId) -> (r: ApiResult<ActivationStatus>)
        ensures
            self.answered(
                "getStatus"@,
                seq![("id"@, id@)],
                r,
                |b: Seq<char>| self.dialect_value().status_answer(b, r),
            ),
    {
        let mut params: Vec<(String, String)> = Vec::new();
        params.push(param_owned("id", copy_string(&id.0)));
        let ghost q = pairs_view(params@);
        assert(q =~= seq![("id"@, id@)]);
        let sent = self.call("getStatus", params);
        let ghost sent_v = sent;
        let body = match sent {
            Ok(b) => b,
            Err(e) => {
                let r = Err(e);
                proof {
                    self.lemma_error_handed_on(
                        "getStatus"@,
                        q,
                        sent_v,
                        r,
                        |b: Seq<char>| self.dialect_value().status_answer(b, r),
                    );
                }
                return r;
            },
        };
        let r = self.dialect.parse_status(body.as_str());
        proof {
            self.lemma_body_read(
                "getStatus"@,
                q,
                sent_v,
                r,
                |b: Seq<char>| self.dialect_value().status_answer(b, r),
            );
        }
        r
    }

    fn set_status(&self, id: &ActivationId, action: StatusAction) -> (r: ApiResult<StatusAck>)
        ensures
            self.answered(
                "setStatus"@,
                seq![("id"@, id@), ("status"@, crate::num::dec(crate::types::action_code(action) as nat))],
                r,
                |b: Seq<char>| self.dialect_value().set_status_answer(b, r),
            ),
    {
        let mut params: Vec<(String, String)> = Vec::new();
        params.push(param_owned("id", copy_string(&id.0)));
        params.push(param_owned("status", u64_to_string(action.code() as u64)));
        let ghost q = pairs_view(params@);
        assert(q =~= seq![("id"@, id@), ("status"@, crate::num::dec(crate::types::action_code(action) as nat))]);
        let sent = self.call("setStatus", params);
        let ghost sent_v = sent;
        let body = match sent {
            Ok(b) => b,
            Err(e) => {
                let r = Err(e);
                proof {
                    self.lemma_error_handed_on(
                        "setStatus"@,
                        q,
                        sent_v,
                        r,
                        |b: Seq<char>| self.dialect_value().set_status_answer(b, r),
                    );
                }
                return r;
            },
        };
        let r = self.dialect.parse_set_status(body.as_str());
        proof {
            self.lemma_body_read(
                "setStatus"@,
                q,
                sent_v,
                r,
                |b: Seq<char>| self.dialect_value().set_status_answer(b, r),
            );
        }
        r
    }

    fn get_prices(&self, service: Option<&ServiceCode>, country: Option<&CountryRef>) -> (r: ApiResult<PriceTable>)
        ensures
            self.answered(
                "getPrices"@,
                prices_query(service, country),
                r,
                |b: Seq<char>| self.dialect_value().prices_answer(b, r),
            ),
    {
        let mut params: Vec<(String, String)> = Vec::new();
        if let Some(s) = service {
            params.push(param_owned("service", copy_string(&s.0)));
        }
        if let Some(c) = country {
            params.push(param_owned("country", c.to_string()));
        }
        let ghost q = pairs_view(params@);
        assert(q =~= prices_query(service, country));
        let sent = self.call("getPrices", params);
        let ghost sent_v = sent;
        let body = match sent {
            Ok(b) => b,
            Err(e) => {
                let r = Err(e);
                proof {
                    self.lemma_error_handed_on(
                        "getPrices"@,
                        q,
                        sent_v,
                        r,
                        |b: Seq<char>| self.dialect_value().prices_answer(b, r),
                    );
                }
                return r;
            },
        };
        let r = self.dialect.parse_prices(body.as_str());
        proof {
            self.lemma_body_read(
                "getPrices"@,
                q,
                sent_v,
                r,
                |b: Seq<char>| self.dialect_value().prices_answer(b, r),
            );
        }
        r
    }

    fn get_services(&self) -> (r: ApiResult<Vec<Service>>)
        ensures
            self.answered(
                "getServicesList"@,
                Seq::empty(),
                r,
                |b: Seq<char>| self.dialect_value().services_answer(b, r),
            ),
    {
        let params: Vec<(String, String)> = Vec::new();
        let ghost q = pairs_view(params@);
        assert(q =~= Seq::empty());
        let sent = self.call("getServicesList", params);
        let ghost sent_v = sent;
        let body = match sent {
            Ok(b) => b,
            Err(e) => {
                let r = Err(e);
                proof {
                    self.lemma_error_handed_on(
                        "getServicesList"@,
                        q,
                        sent_v,
                        r,
                        |b: Seq<char>| self.dialect_value().services_answer(b, r),
                    );
                }
                return r;
            },
        };
        let r = self.dialect.parse_services(body.as_str());
        proof {
            self.lemma_body_read(
                "getServicesList"@,
                q,
                sent_v,
                r,
                |b: Seq<char>| self.dialect_value().services_answer(b, r),
            );
        }
        r
    }

    fn get_countries(&self) -> (r: ApiResult<Vec<Country>>)
        ensures
            self.answered(
                "getCountries"@,
                Seq::empty(),
                r,
                |b: Seq<char>| self.dialect_value().countries_answer(b, r),
            ),
    {
        let params: Vec<(String, String)> = Vec::new();
        let ghost q = pairs_view(params@);
        assert(q =~= Seq::empty());
        let sent = self.call("getCountries", params);
        let ghost sent_v = sent;
        let body = match sent {
            Ok(b) => b,
            Err(e) => {
                let r = Err(e);
                proof {
                    self.lemma_error_handed_on(
                        "getCountries"@,
                        q,
                        sent_v,
                        r,
                        |b: Seq<char>| self.dialect_value().countries_answer(b, r),
                    );
                }
                return r;
            },
        };
        let r = self.dialect.parse_countries(body.as_str());
        proof {
            self.lemma_body_read(
                "getCountries"@,
                q,
                sent_v,
                r,
                |b: Seq<char>| self.dialect_value().countries_answer(b, r),
            );
        }
        r
    }

    fn get_top_countries(&self, service: &ServiceCode) -> (r: ApiResult<Vec<TopCountry>>)
        ensures
            self.answered(
                "getTopCountriesByService"@,
                seq![("service"@, service@)],
                r,
                |b: Seq<char>| self.dialect_value().top_countries_answer(b, r),
            ),
    {
        let mut params: Vec<(String, String)> = Vec::new();
        params.push(param_owned("service", copy_string(&service.0)));
        let ghost q = pairs_view(params@);
        assert(q =~= seq![("service"@, service@)]);
        let sent = self.call("getTopCountriesByService", params);
        let ghost sent_v = sent;
        let body = match sent {
            Ok(b) => b,
            Err(e) => {
                let r = Err(e);
                proof {
                    self.lemma_error_handed_on(
                        "getTopCountriesByService"@,
                        q,
                        sent_v,
                        r,
                        |b: Seq<char>| self.dialect_value().top_countries_answer(b, r),
                    );
                }
                return r;
            },
        };
        let r = self.dialect.parse_top_countries(body.as_str());
        proof {
            self.lemma_body_read(
                "getTopCountriesByService"@,
                q,
                sent_v,
                r,
                |b: Seq<char>| self.dialect_value().top_countries_answer(b, r),
            );
        }
        r
    }

    fn get_numbers_status(&self, country: &CountryRef, operator: Option<&str>) -> (r: ApiResult<KeyMap<ServiceCode, u64>>)
        ensures
            !self.dialect_value().caps().numbers_status ==> (r matches Err(e) && e@
                == ErrorView::Unsupported("getNumbersStatus"@)),
            self.dialect_value().caps().numbers_status ==> self.answered(
                "getNumbersStatus"@,
                numbers_status_query(country@, operator),
                r,
                |b: Seq<char>| self.dialect_value().numbers_status_answer(b, r),
            ),
    {
        match self.require(self.dialect.capabilities().numbers_status, "getNumbersStatus") {
            Ok(()) => {},
            Err(e) => {
                return Err(e);
            },
        }
        let mut params: Vec<(String, String)> = Vec::new();
        params.push(param_owned("country", country.to_string()));
        if let Some(op) = operator {
            params.push(param("operator", op));
        }
        let ghost q = pairs_view(params@);
        assert(q =~= numbers_status_query(country@, operator));
        let sent = self.call("getNumbersStatus", params);
        let ghost sent_v = sent;
        let body = match sent {
            Ok(b) => b,
            Err(e) => {
                let r = Err(e);
                proof {
                    self.lemma_error_handed_on(
                        "getNumbersStatus"@,
                        q,
                        sent_v,
                        r,
                        |b: Seq<char>| self.dialect_value().numbers_status_answer(b, r),
                    );
                }
                return r;
            },
        };
        let r = self.dialect.parse_numbers_status(body.as_str());
        proof {
            self.lemma_body_read(
                "getNumbersStatus"@,
                q,
                sent_v,
                r,
                |b: Seq<char>| self.dialect_value().numbers_status_answer(b, r),
            );
        }
        r
    }

    fn get_active_activations(&self) -> (r: ApiResult<Vec<ActiveActivation>>)
        ensures
            !self.dialect_value().caps().active_activations ==> (r matches Err(e) && e@
                == ErrorView::Unsupported("getActiveActivations"@)),
            self.dialect_value().caps().active_activations ==> self.answered(
                "getActiveActivations"@,
                Seq::empty(),
                r,
                |b: Seq<char>| self.dialect_value().active_activations_answer(b, r),
            ),
    {
        match self.require(self.dialect.capabilities().active_activations, "getActiveActivations") {
            Ok(()) => {},
            Err(e) => {
                return Err(e);
            },
        }
        let params: Vec<(String, String)> = Vec::new();
        let ghost q = pairs_view(params@);
        assert(q =~= Seq::empty());
        let sent = self.call("getActiveActivations", params);
        let ghost sent_v = sent;
        let body = match sent {
            Ok(b) => b,
            Err(e) => {
                let r = Err(e);
                proof {
                    self.lemma_error_handed_on(
                        "getActiveActivations"@,
                        q,
                        sent_v,
                        r,
                        |b: Seq<char>| self.dialect_value().active_activations_answer(b, r),
                    );
                }
                return r;
            },
        };
        let r = self.dialect.parse_active_activations(body.as_str());
        proof {
            self.lemma_body_read(
                "getActiveActivations"@,
                q,
                sent_v,
                r,
                |b: Seq<char>| self.dialect_value().active_activations_answer(b, r),
            );
        }
        r
    }

    fn get_operators(&self, country: Option<&CountryRef>) -> (r: ApiResult<KeyMap<CountryRef, Vec<String>>>)
        ensures
            !self.dialect_value().caps().operators ==> (r matches Err(e) && e@
                == ErrorView::Unsupported("getOperators"@)),
            self.dialect_value().caps().operators ==> self.answered(
                "getOperators"@,
                operators_query(country),
                r,
                |b: Seq<char>| self.dialect_value().operators_answer(b, r),
            ),
    {
        match self.require(self.dialect.capabilities().operators, "getOperators") {
            Ok(()) => {},
            Err(e) => {
                return Err(e);
            },
        }
        let mut params: Vec<(String, String)> = Vec::new();
        if let Some(c) = country {
            params.push(param_owned("country", c.to_string()));
        }
        let ghost q = pairs_view(params@);
        assert(q =~= operators_query(country));
        let sent = self.call("getOperators", params);
        let ghost sent_v = sent;
        let body = match sent {
            Ok(b) => b,
            Err(e) => {
                let r = Err(e);
                proof {
                    self.lemma_error_handed_on(
                        "getOperators"@,
                        q,
                        sent_v,
                        r,
                        |b: Seq<char>| self.dialect_value().operators_answer(b, r),
                    );
                }
                return r;
            },
        };
        let r = self.dialect.parse_operators(body.as_str());
        proof {
            self.lemma_body_read(
                "getOperators"@,
                q,
                sent_v,
                r,
                |b: Seq<char>| self.dialect_value().operators_answer(b, r),
            );
        }
        r
    }
}

} // verus!
