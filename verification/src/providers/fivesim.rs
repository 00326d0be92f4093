//! 5SIM — <https://5sim.net/docs>
//!
//! 5SIM is not an sms-activate clone: it has its own JSON REST API, so [`FiveSim`] implements
//! [`SmsActivateApi`] directly, without a dialect.
//!
//! * Base URL `https://5sim.net/v1` ([`BASE_URL`]); every call is a `GET` except the price-limit
//!   endpoints (`POST` / `DELETE /user/max-prices` with a JSON body).
//! * `/user/*` sends `Authorization: Bearer <token>` and `Accept: application/json`; `/guest/*`
//!   sends only the `Accept` header, so a client with an empty token can read the catalogue.
//! * Countries, operators and products are **names** (`england`, `vodafone`, `telegram`): every
//!   country-taking method accepts only [`CountryRef::Slug`] and answers
//!   [`ApiError::BadCountry`] for anything else without sending a request.
//! * Error bodies are plain text (`order not found`), mapped by [`error_from_text`]; see
//!   [`classify`] for the status rules (401 bad key, 429 / 503 rate limiting, bodies kept in
//!   [`ApiError::Http`] cut to [`HTTP_BODY_LIMIT`] bytes).
//! * Prices: `GET /guest/prices` nests `{country:{product:{operator:offer}}}` for the country
//!   filters but `{product:{country:{operator:offer}}}` for the product filter; both fold into
//!   a [`PriceTable`] where `cost` is the cheapest operator with stock (the cheapest overall
//!   when none has stock) and `count` the summed stock ([`aggregate`]).
//! * Order statuses map onto [`ActivationStatus`] as [`order_status`] states; the reported code
//!   is that of the newest SMS with a code ([`Order::latest_coded_sms`]).

pub mod fields;
pub mod orders;
pub mod records;
pub mod catalog;

pub use crate::providers::fivesim::catalog::{
    CountryInfo, Entries, NestedOffers, OperatorOffer, OperatorOffers, OperatorSupport, ProductCategory, ProductInfo,
    aggregate,
};
pub use crate::providers::fivesim::orders::{Order, OrderStatus, Sms};
use crate::providers::fivesim::orders::OrderView;
pub use crate::providers::fivesim::records::{
    DefaultCountry, DefaultOperator, InboxSms, MaxPrice, Named, OrderCategory, OrdersPage, Page, Payment,
    PaymentsPage, Profile, SmsInbox,
};

use vstd::prelude::*;
use crate::amount::Amount;
use crate::api::{SmsActivateApi, encode, reads_outcome, url_encoded};
use crate::error::{ApiError, ApiResult, ErrorView, err_of, owned, text};
use crate::json::JsonView;
use crate::keymap::KeyMap;
use crate::protocol::chars_within;
use crate::providers::fivesim::catalog::{aggregate_of, entries_map};
use crate::json::json_of_text;
use crate::providers::fivesim::records::{
    Record, page_query, read_as, record_list_read, record_read,
};
use crate::providers::tiger_sms::lex_le;
use crate::text::{chars_of, starts_with_char, trim, trim_chars, trim_str};
use crate::transport::{
    HttpRequest, HttpResponse, Method, Outcome, RequestView, Transport, TransportError, ascii_lower, outcome_view,
    request_answers, to_ascii_lower,
};
use crate::types::{
    ActivationId, ActivationStatus, Capabilities, CountryKey, CountryRef, NumberRequest, Price, PriceTable,
    ServiceCode, StatusAck, StatusAction, TopCountry, TopCountryView, copy_string,
};

verus! {

/// `https://5sim.net/v1`
pub const BASE_URL: &'static str = "https://5sim.net/v1";

/// Longest body kept inside [`ApiError::Http`] (the HTML 404 page is ≈ 42 KB).
pub const HTTP_BODY_LIMIT: usize = 256;

/// Page size used by [`SmsActivateApi::get_active_activations`].
pub const ACTIVE_ORDERS_LIMIT: u64 = 100;

/// What 5SIM implements.
pub open spec fn fivesim_caps() -> Capabilities {
    Capabilities {
        get_number_v2: false,
        numbers_status: true,
        active_activations: true,
        operators: true,
        prices_v2: false,
        prices_v3: false,
        price_bounds: true,
        provider_filters: false,
    }
}

/// What 5SIM implements (see [`fivesim_caps`]).
pub fn capabilities() -> (r: Capabilities)
    ensures
        r == fivesim_caps(),
{
    Capabilities {
        get_number_v2: false,
        numbers_status: true,
        active_activations: true,
        operators: true,
        prices_v2: false,
        prices_v3: false,
        price_bounds: true,
        provider_filters: false,
    }
}

// ---------------------------------------------------------------------------
// Response classification

/// The first [`HTTP_BODY_LIMIT`] bytes of a body, cut at a character boundary.
pub open spec fn truncated_body(b: Seq<char>) -> Seq<char> {
    b.take(chars_within(b, 256) as int)
}

fn truncate_body(b: &[char]) -> (r: String)
    ensures
        r@ == truncated_body(b@),
{
    let k = crate::protocol::count_within(b, HTTP_BODY_LIMIT);
    let head = crate::text::slice_vec(b, 0, k);
    assert(head@ =~= b@.take(k as int));
    text(&head)
}

/// ASCII lower-casing of a text.
pub open spec fn lower(s: Seq<char>) -> Seq<char> {
    s.map_values(|c: char| ascii_lower(c))
}

fn lower_exec(s: &[char]) -> (r: Vec<char>)
    ensures
        r@ == lower(s@),
{
    let mut out: Vec<char> = Vec::new();
    let mut i: usize = 0;
    while i < s.len()
        invariant
            i <= s@.len(),
            out@ == s@.take(i as int).map_values(|c: char| ascii_lower(c)),
        decreases s.len() - i,
    {
        out.push(to_ascii_lower(s[i]));
        i = i + 1;
        assert(out@ =~= s@.take(i as int).map_values(|c: char| ascii_lower(c)));
    }
    assert(s@.take(i as int) =~= s@);
    out
}

/// 5SIM's plain-text error messages (trimmed, ASCII case-insensitive); `None` for other text.
pub open spec fn text_error(t: Seq<char>) -> Option<ErrorView> {
    let l = lower(trim(t));
    if l == "no free phones"@ {
        Some(ErrorView::NoNumbers)
    } else if l == "not enough user balance"@ {
        Some(ErrorView::NoBalance)
    } else if l == "bad country"@ || l == "select country"@ || l == "country is incorrect"@ {
        Some(ErrorView::BadCountry)
    } else if l == "no product"@ || l == "bad product"@ || l == "product is incorrect"@ {
        Some(ErrorView::BadService)
    } else if l == "bad operator"@ || l == "select operator"@ {
        Some(ErrorView::Validation("operator"@, l))
    } else if l == "order not found"@ {
        Some(ErrorView::NoActivation)
    } else if l == "order expired"@ || l == "order has sms"@ || l == "hosting order"@ || l == "not enough rating"@
        || l == "server offline"@ || l == "internal error"@ || l == "record not found"@ || l
        == "product_name is empty"@ || l == "any error"@ || crate::text::starts_with(l, "reuse "@) {
        Some(ErrorView::Other(l))
    } else {
        None
    }
}

/// Maps 5SIM's plain-text error strings (see [`text_error`]).
pub fn error_from_text(text: &str) -> (r: Option<ApiError>)
    ensures
        crate::error::opt_err(r) == text_error(text@),
{
    let l = lower_exec(&trim_str(text));
    let eq = |s: &str| -> (b: bool)
        ensures
            b == (l@ == s@),
        { crate::text::eq_str(&l, s) };
    if eq("no free phones") {
        Some(ApiError::NoNumbers)
    } else if eq("not enough user balance") {
        Some(ApiError::NoBalance)
    } else if eq("bad country") || eq("select country") || eq("country is incorrect") {
        Some(ApiError::BadCountry)
    } else if eq("no product") || eq("bad product") || eq("product is incorrect") {
        Some(ApiError::BadService)
    } else if eq("bad operator") || eq("select operator") {
        Some(ApiError::Validation { field: owned("operator"), message: crate::error::text(&l) })
    } else if eq("order not found") {
        Some(ApiError::NoActivation)
    } else if eq("order expired") || eq("order has sms") || eq("hosting order") || eq("not enough rating") || eq(
        "server offline",
    ) || eq("internal error") || eq("record not found") || eq("product_name is empty") || eq("any error")
        || crate::text::has_prefix(&l, "reuse ") {
        Some(ApiError::Other(crate::error::text(&l)))
    } else {
        None
    }
}

/// 5SIM classification: 401 is a bad key, 429 and 503 are rate limiting; a 2xx is data when
/// empty or JSON and otherwise a known error text or [`ErrorView::Unexpected`]; another 4xx a
/// known error text or [`ErrorView::Http`]; anything else [`ErrorView::Http`]. Bodies kept in
/// errors are trimmed and cut to [`HTTP_BODY_LIMIT`] bytes.
pub open spec fn fivesim_error(status: u16, body: Seq<char>) -> Option<ErrorView> {
    let b = trim(body);
    if status == 401 {
        Some(ErrorView::BadKey)
    } else if status == 429 || status == 503 {
        Some(ErrorView::RateLimited(None))
    } else if 200 <= status && status <= 299 {
        if b.len() == 0 || starts_with_char(b, '{') || starts_with_char(b, '[') {
            None
        } else {
            Some(
                match text_error(b) {
                    Some(e) => e,
                    None => ErrorView::Unexpected(truncated_body(b)),
                },
            )
        }
    } else if 400 <= status && status <= 499 {
        Some(
            match text_error(b) {
                Some(e) => e,
                None => ErrorView::Http(status, truncated_body(b)),
            },
        )
    } else {
        Some(ErrorView::Http(status, truncated_body(b)))
    }
}

/// Turns a raw 5SIM response into `Ok(())` (JSON data follows) or the mapped error (see
/// [`fivesim_error`]).
pub fn classify(resp: &HttpResponse) -> (r: ApiResult<()>)
    ensures
        err_of(r) == fivesim_error(resp.status, resp.body@),
{
    let b = trim_str(resp.body.as_str());
    let status = resp.status;
    if status == 401 {
        return Err(ApiError::BadKey);
    }
    if status == 429 || status == 503 {
        return Err(ApiError::RateLimited { retry_after: None });
    }
    proof {
        crate::text::lemma_trim_idempotent(resp.body@);
    }
    let bs = text(&b);
    if 200 <= status && status <= 299 {
        if b.len() == 0 || b[0] == '{' || b[0] == '[' {
            return Ok(());
        }
        return Err(
            match error_from_text(bs.as_str()) {
                Some(e) => e,
                None => ApiError::Unexpected(truncate_body(&b)),
            },
        );
    }
    if 400 <= status && status <= 499 {
        return Err(
            match error_from_text(bs.as_str()) {
                Some(e) => e,
                None => ApiError::Http { status, body: truncate_body(&b) },
            },
        );
    }
    Err(ApiError::Http { status, body: truncate_body(&b) })
}

// ---------------------------------------------------------------------------
// Request helpers

/// The slug of a country reference: a non-blank slug; anything else is not a 5SIM country.
pub open spec fn slug_of(c: CountryKey) -> Option<Seq<char>> {
    match c {
        CountryKey::Slug(s) => if trim(s).len() > 0 {
            Some(s)
        } else {
            None
        },
        _ => None,
    }
}

fn slug(country: &CountryRef) -> (r: ApiResult<&str>)
    ensures
        match slug_of(country@) {
            Some(s) => r matches Ok(x) && x@ == s,
            None => r matches Err(e) && e@ == ErrorView::BadCountry,
        },
{
    match country {
        CountryRef::Slug(s) => {
            let t = trim_str(s.as_str());
            if t.len() > 0 {
                Ok(s.as_str())
            } else {
                Err(ApiError::BadCountry)
            }
        },
        _ => Err(ApiError::BadCountry),
    }
}

/// `path` with the query pairs appended, percent-encoded: the first after `?` (or `&` when the
/// path already has a query), the others after `&`.
pub open spec fn with_query(path: Seq<char>, ps: Seq<(Seq<char>, Seq<char>)>) -> Seq<char>
    decreases ps.len(),
{
    if ps.len() == 0 {
        path
    } else {
        let p = with_query(path, ps.drop_last());
        p + seq![
            if ps.len() == 1 && crate::text::find_char(path, '?') is None {
                '?'
            } else {
                '&'
            },
        ] + url_encoded(ps.last().0) + seq!['='] + url_encoded(ps.last().1)
    }
}

fn append_query(path: &mut String, params: &[(String, String)])
    ensures
        final(path)@ == with_query(old(path)@, crate::transport::pairs_view(params@)),
{
    let ghost p0 = path@;
    let ghost ps = crate::transport::pairs_view(params@);
    let has_q = crate::text::find(&chars_of(path.as_str()), '?').is_some();
    proof {
        crate::text::lemma_find_char(p0, '?');
    }
    let mut i: usize = 0;
    assert(ps.take(0) =~= Seq::<(Seq<char>, Seq<char>)>::empty());
    while i < params.len()
        invariant
            i <= params@.len(),
            ps == crate::transport::pairs_view(params@),
            has_q == (crate::text::find_char(p0, '?') is Some),
            path@ == with_query(p0, ps.take(i as int)),
        decreases params.len() - i,
    {
        proof {
            assert(ps.take(i + 1).drop_last() =~= ps.take(i as int));
            assert(ps.take(i + 1).last() == (params@[i as int].0@, params@[i as int].1@));
        }
        crate::text::push_char(path, if i == 0 && !has_q { '?' } else { '&' });
        crate::text::push_str(path, encode(params[i].0.as_str()).as_str());
        crate::text::push_char(path, '=');
        crate::text::push_str(path, encode(params[i].1.as_str()).as_str());
        i = i + 1;
    }
    assert(ps.take(i as int) =~= ps);
}

/// `n` as exactly `width` decimal digits (the low ones, zero-padded).
pub open spec fn padded_digits(n: nat, width: nat) -> Seq<char>
    decreases width,
{
    if width == 0 {
        Seq::empty()
    } else {
        padded_digits(n / 10, (width - 1) as nat).push(crate::num::digit_char(n % 10))
    }
}

/// An amount as serde_json writes the `f64` it stands for, when that is a plain decimal: the
/// sign, the integer part, `.` and the fraction without trailing zeros (at least one digit).
pub open spec fn amount_json(units: int) -> Seq<char> {
    let m = if units < 0 { -units } else { units };
    let frac = crate::api::strip_zeros(padded_digits((m % 1_000_000_000_000_000_000) as nat, 18));
    (if units < 0 { seq!['-'] } else { Seq::<char>::empty() }) + crate::num::dec((m / 1_000_000_000_000_000_000) as nat)
        + seq!['.'] + if frac.len() == 0 { seq!['0'] } else { frac }
}

fn padded_exec(n: u128, width: usize) -> (r: Vec<char>)
    ensures
        r@ == padded_digits(n as nat, width as nat),
        r@.len() == width,
    decreases width,
{
    if width == 0 {
        Vec::new()
    } else {
        let mut v = padded_exec(n / 10, width - 1);
        v.push(crate::num::digit_to_char((n % 10) as u64));
        v
    }
}

fn amount_json_text(a: Amount) -> (r: String)
    ensures
        r@ == amount_json(a.units as int),
{
    let neg = a.units < 0;
    let m: u128 = if neg { ((0 - (a.units + 1)) as u128) + 1 } else { a.units as u128 };
    assert(m == if a.units < 0 { -(a.units as int) } else { a.units as int });
    let ip = m / 1_000_000_000_000_000_000u128;
    let fr = m % 1_000_000_000_000_000_000u128;
    let digits = padded_exec(fr, 18);
    let mut n: usize = 18;
    assert(digits@.take(18) =~= digits@);
    while n > 0 && digits[n - 1] == '0'
        invariant
            n <= 18,
            digits@.len() == 18,
            crate::api::strip_zeros(digits@.take(n as int)) == crate::api::strip_zeros(digits@),
        decreases n,
    {
        proof {
            assert(digits@.take(n as int).drop_last() =~= digits@.take(n - 1));
        }
        n = n - 1;
    }
    proof {
        assert(crate::api::strip_zeros(digits@.take(n as int)) == digits@.take(n as int));
    }
    let mut out: Vec<char> = Vec::new();
    if neg {
        out.push('-');
    }
    let ipc = crate::num::u128_chars(ip);
    let ghost pre = out@;
    let mut i: usize = 0;
    while i < ipc.len()
        invariant
            i <= ipc@.len(),
            out@ == pre + ipc@.take(i as int),
        decreases ipc.len() - i,
    {
        out.push(ipc[i]);
        i = i + 1;
        assert(out@ =~= pre + ipc@.take(i as int));
    }
    assert(ipc@.take(i as int) =~= ipc@);
    out.push('.');
    let ghost mid = out@;
    if n == 0 {
        out.push('0');
    } else {
        let mut j: usize = 0;
        while j < n
            invariant
                j <= n <= 18,
                digits@.len() == 18,
                out@ == mid + digits@.take(j as int),
            decreases n - j,
        {
            out.push(digits[j]);
            j = j + 1;
            assert(out@ =~= mid + digits@.take(j as int));
        }
    }
    assert(out@ =~= amount_json(a.units as int));
    text(&out)
}

// ---------------------------------------------------------------------------
// Price tables and top countries

/// One operator → offer list.
pub type OfferList = Seq<(Seq<char>, OperatorOffer)>;

/// Folds the rows of one outer key into a price table: the country and product are the outer
/// and inner keys (swapped for the product-filtered nesting), the price their aggregate.
pub open spec fn inner_fold(m: Map<CountryKey, Map<Seq<char>, Price>>, outer: Seq<char>, inner: Seq<(Seq<char>, OfferList)>, swapped: bool) -> Map<CountryKey, Map<Seq<char>, Price>>
    decreases inner.len(),
{
    if inner.len() == 0 {
        m
    } else {
        let m2 = inner_fold(m, outer, inner.drop_last(), swapped);
        let (k, offers) = inner.last();
        let c = CountryKey::Slug(if swapped { k } else { outer });
        let p = if swapped { outer } else { k };
        let row = if m2.contains_key(c) { m2[c] } else { Map::empty() };
        m2.insert(c, row.insert(p, aggregate_of(offers)))
    }
}

/// A `GET /guest/prices` answer folded into a price table (see [`inner_fold`]).
pub open spec fn price_fold(raw: Seq<(Seq<char>, Seq<(Seq<char>, OfferList)>)>, swapped: bool) -> Map<CountryKey, Map<Seq<char>, Price>>
    decreases raw.len(),
{
    if raw.len() == 0 {
        Map::empty()
    } else {
        inner_fold(price_fold(raw.drop_last(), swapped), raw.last().0, raw.last().1, swapped)
    }
}

/// What a price table denotes.
pub open spec fn price_view(t: PriceTable) -> Map<CountryKey, Map<Seq<char>, Price>> {
    t@.map_values(|row: KeyMap<ServiceCode, Price>| row@)
}

/// Folds a `GET /guest/prices` answer into a price table (see [`price_fold`]).
pub fn price_table(raw: &NestedOffers, swapped: bool) -> (r: PriceTable)
    ensures
        price_view(r) == price_fold(raw@, swapped),
{
    let ghost rs = raw@;
    let mut table: PriceTable = KeyMap::new();
    let mut i: usize = 0;
    assert(rs.take(0) =~= Seq::<(Seq<char>, Seq<(Seq<char>, OfferList)>)>::empty());
    assert(price_view(table) =~= Map::empty());
    while i < raw.0.len()
        invariant
            i <= raw.0@.len(),
            rs == raw@,
            rs.len() == raw.0@.len(),
            price_view(table) == price_fold(rs.take(i as int), swapped),
        decreases raw.0.len() - i,
    {
        proof {
            assert(rs.take(i + 1).drop_last() =~= rs.take(i as int));
            assert(rs.take(i + 1).last() == rs[i as int]);
        }
        let (outer, inner) = &raw.0[i];
        let ghost inner_v = rs[i as int].1;
        let ghost start = price_view(table);
        let mut j: usize = 0;
        assert(inner_v.take(0) =~= Seq::<(Seq<char>, OfferList)>::empty());
        while j < inner.0.len()
            invariant
                j <= inner.0@.len(),
                inner_v == inner@,
                inner_v.len() == inner.0@.len(),
                outer@ == rs[i as int].0,
                price_view(table) == inner_fold(start, outer@, inner_v.take(j as int), swapped),
            decreases inner.0.len() - j,
        {
            proof {
                assert(inner_v.take(j + 1).drop_last() =~= inner_v.take(j as int));
                assert(inner_v.take(j + 1).last() == inner_v[j as int]);
            }
            let (key, offers) = &inner.0[j];
            let (c, p) = if swapped { (copy_string(key), copy_string(outer)) } else { (copy_string(outer), copy_string(key)) };
            let price = aggregate(offers);
            let ckey = CountryRef::Slug(c);
            let ghost before = price_view(table);
            let mut row = match table.replace_value(&ckey, KeyMap::new()) {
                Some(r) => r,
                None => KeyMap::new(),
            };
            let ghost row_before = row@;
            row.insert(ServiceCode(p), price);
            let ghost row_after = row@;
            table.insert(ckey, row);
            assert(price_view(table) =~= before.insert(ckey@, row_after));
            j = j + 1;
        }
        assert(inner_v.take(j as int) =~= inner_v);
        i = i + 1;
    }
    assert(rs.take(i as int) =~= rs);
    table
}

/// The text of a country key.
pub open spec fn key_text(c: CountryKey) -> Seq<char> {
    match c {
        CountryKey::Slug(s) => s,
        CountryKey::Id(_) => Seq::empty(),
    }
}

/// Whether top-country row `a` may come before `b`: more stock first, then by country name.
pub open spec fn top_le(a: TopCountryView, b: TopCountryView) -> bool {
    a.count > b.count || (a.count == b.count && lex_le(key_text(a.country), key_text(b.country)))
}

/// `s` with `x` inserted after the last row that may come before it.
pub open spec fn insert_top(s: Seq<TopCountryView>, x: TopCountryView) -> Seq<TopCountryView>
    decreases s.len(),
{
    if s.len() == 0 {
        seq![x]
    } else if top_le(s.last(), x) {
        s.push(x)
    } else {
        insert_top(s.drop_last(), x).push(s.last())
    }
}

/// Stable insertion sort by [`top_le`].
pub open spec fn sort_top(s: Seq<TopCountryView>) -> Seq<TopCountryView>
    decreases s.len(),
{
    if s.len() == 0 {
        s
    } else {
        insert_top(sort_top(s.drop_last()), s.last())
    }
}

/// The top-country row of one country's operator offers.
pub open spec fn top_row(country: Seq<char>, offers: OfferList) -> TopCountryView {
    TopCountryView {
        country: CountryKey::Slug(country),
        price: aggregate_of(offers).cost.units as int,
        retail_price: None,
        count: aggregate_of(offers).count,
        provider_id: None,
    }
}

/// The rows of a country → offers list, in list order.
pub open spec fn top_rows_of(s: Seq<(Seq<char>, OfferList)>) -> Seq<TopCountryView> {
    s.map_values(|e: (Seq<char>, OfferList)| top_row(e.0, e.1))
}

proof fn lemma_insert_top_at(s: Seq<TopCountryView>, x: TopCountryView, k: int)
    requires
        0 <= k <= s.len(),
        forall|j: int| k <= j < s.len() ==> !top_le(#[trigger] s[j], x),
        k == 0 || top_le(s[k - 1], x),
    ensures
        insert_top(s, x) == s.insert(k, x),
    decreases s.len(),
{
    if s.len() == 0 {
        assert(s.insert(k, x) =~= seq![x]);
    } else if top_le(s.last(), x) {
        assert(k == s.len());
        assert(s.insert(k, x) =~= s.push(x));
    } else {
        assert forall|j: int| k <= j < s.drop_last().len() implies !top_le(#[trigger] s.drop_last()[j], x) by {
            assert(s.drop_last()[j] == s[j]);
        }
        if k > 0 {
            assert(s.drop_last()[k - 1] == s[k - 1]);
        }
        lemma_insert_top_at(s.drop_last(), x, k);
        assert(s.drop_last().insert(k, x).push(s.last()) =~= s.insert(k, x));
    }
}

fn top_le_exec(a: &TopCountry, b: &TopCountry) -> (r: bool)
    ensures
        r == top_le(a@, b@),
{
    if a.count > b.count {
        return true;
    }
    if a.count < b.count {
        return false;
    }
    let ta = match &a.country {
        CountryRef::Slug(s) => chars_of(s.as_str()),
        CountryRef::Id(_) => Vec::new(),
    };
    let tb = match &b.country {
        CountryRef::Slug(s) => chars_of(s.as_str()),
        CountryRef::Id(_) => Vec::new(),
    };
    proof {
        assert(ta@ == key_text(a@.country));
        assert(tb@ == key_text(b@.country));
    }
    crate::providers::tiger_sms::lex_le_exec(&ta, &tb)
}

/// One row per country, most stock first, then by country name (see [`top_row`], [`top_le`]).
pub fn top_countries_of(offers: &Entries<OperatorOffers>) -> (r: Vec<TopCountry>)
    ensures
        crate::error::seq_views(r@) == sort_top(top_rows_of(offers@)),
{
    let ghost s = offers@;
    let ghost all = top_rows_of(s);
    let mut out: Vec<TopCountry> = Vec::new();
    let mut i: usize = 0;
    assert(all.take(0) =~= Seq::<TopCountryView>::empty());
    assert(crate::error::seq_views(out@) =~= Seq::<TopCountryView>::empty());
    while i < offers.0.len()
        invariant
            i <= offers.0@.len(),
            s == offers@,
            s.len() == offers.0@.len(),
            all == top_rows_of(s),
            crate::error::seq_views(out@) == sort_top(all.take(i as int)),
        decreases offers.0.len() - i,
    {
        let (country, o) = &offers.0[i];
        let price = aggregate(o);
        let row = TopCountry {
            country: CountryRef::Slug(copy_string(country)),
            price: price.cost,
            retail_price: None,
            count: price.count,
            provider_id: None,
        };
        let ghost x = row@;
        proof {
            assert(x == all[i as int]);
            assert(all.take(i + 1).drop_last() =~= all.take(i as int));
            assert(all.take(i + 1).last() == all[i as int]);
        }
        let mut k = out.len();
        while k > 0 && !top_le_exec(&out[k - 1], &row)
            invariant
                k <= out@.len(),
                forall|j: int| k <= j < out@.len() ==> !top_le(#[trigger] crate::error::seq_views(out@)[j], x),
                x == row@,
            decreases k,
        {
            k = k - 1;
        }
        let ghost before = crate::error::seq_views(out@);
        proof {
            if k > 0 {
                assert(before[k - 1] == out@[k - 1]@);
            }
            lemma_insert_top_at(before, x, k as int);
        }
        out.insert(k, row);
        assert(crate::error::seq_views(out@) =~= before.insert(k as int, x));
        i = i + 1;
    }
    assert(all.take(i as int) =~= all);
    out
}

/// The value under `key` in a list of entries (the last such entry), as a table lookup gives it.
pub fn take_entry<T: View>(e: Entries<T>, key: &str) -> (r: Option<T>)
    ensures
        match r {
            Some(x) => entries_map(e@).contains_key(key@) && x@ == entries_map(e@)[key@],
            None => !entries_map(e@).contains_key(key@),
        },
{
    let ghost s = e@;
    let ghost orig = e.0@;
    let kc = chars_of(key);
    let mut v = e.0;
    let mut found: Option<T> = None;
    while v.len() > 0
        invariant
            v@ == orig.take(v@.len() as int),
            v@.len() <= orig.len(),
            s == orig.map_values(|e: (String, T)| (e.0@, e.1@)),
            kc@ == key@,
            found is None ==> forall|j: int| v@.len() <= j < orig.len() ==> #[trigger] orig[j].0@ != key@,
            match found {
                Some(x) => entries_map(s).contains_key(key@) && x@ == entries_map(s)[key@],
                None => true,
            },
        decreases v.len(),
    {
        let (k, x) = v.pop().unwrap();
        let ghost j = v@.len() as int;
        if found.is_none() {
            let kk = chars_of(k.as_str());
            if crate::text::eq_chars(&kk, &kc) {
                proof {
                    assert(orig[j] == (k, x));
                    lemma_entries_map_last_match(s, j, key@);
                }
                found = Some(x);
            }
        }
    }
    proof {
        if found is None {
            lemma_entries_map_absent(s, key@);
        }
    }
    found
}

/// The last entry with key `k` decides the map's value under `k`.
proof fn lemma_entries_map_last_match<V>(s: Seq<(Seq<char>, V)>, j: int, k: Seq<char>)
    requires
        0 <= j < s.len(),
        s[j].0 == k,
        forall|i: int| j < i < s.len() ==> #[trigger] s[i].0 != k,
    ensures
        entries_map(s).contains_key(k),
        entries_map(s)[k] == s[j].1,
    decreases s.len(),
{
    if j < s.len() - 1 {
        assert forall|i: int| j < i < s.drop_last().len() implies #[trigger] s.drop_last()[i].0 != k by {
            assert(s.drop_last()[i] == s[i]);
        }
        assert(s.drop_last()[j] == s[j]);
        lemma_entries_map_last_match(s.drop_last(), j, k);
        assert(s.last().0 != k);
    }
}

/// No entry with key `k`: the map has no value under `k`.
proof fn lemma_entries_map_absent<V>(s: Seq<(Seq<char>, V)>, k: Seq<char>)
    requires
        forall|i: int| 0 <= i < s.len() ==> #[trigger] s[i].0 != k,
    ensures
        !entries_map(s).contains_key(k),
    decreases s.len(),
{
    if s.len() > 0 {
        assert forall|i: int| 0 <= i < s.drop_last().len() implies #[trigger] s.drop_last()[i].0 != k by {
            assert(s.drop_last()[i] == s[i]);
        }
        lemma_entries_map_absent(s.drop_last(), k);
        assert(s.last().0 != k);
    }
}

/// What a table of operator-offer tables denotes.
pub open spec fn nested_view(t: KeyMap<String, KeyMap<String, OperatorOffer>>) -> Map<Seq<char>, Map<Seq<char>, OperatorOffer>> {
    t@.map_values(|m: KeyMap<String, OperatorOffer>| m@)
}

/// The entries of a country/product → operator → offer list as nested tables.
pub open spec fn nested_entries_map(s: Seq<(Seq<char>, OfferList)>) -> Map<Seq<char>, Map<Seq<char>, OperatorOffer>> {
    entries_map(s).map_values(|o: OfferList| entries_map(o))
}

/// Turns a list of operator-offer lists into nested tables (later entries win).
pub fn nested_into_map(e: Entries<OperatorOffers>) -> (r: KeyMap<String, KeyMap<String, OperatorOffer>>)
    ensures
        nested_view(r) == nested_entries_map(e@),
{
    let ghost s = e@;
    let ghost orig = e.0@;
    let mut v = e.0;
    let mut rest: Vec<(String, OperatorOffers)> = Vec::new();
    while v.len() > 0
        invariant
            v@ == orig.take(v@.len() as int),
            v@.len() <= orig.len(),
            rest@.len() + v@.len() == orig.len(),
            forall|j: int| 0 <= j < rest@.len() ==> #[trigger] rest@[j] == orig[orig.len() - 1 - j],
        decreases v.len(),
    {
        let x = v.pop().unwrap();
        rest.push(x);
    }
    let n = rest.len();
    let mut m: KeyMap<String, KeyMap<String, OperatorOffer>> = KeyMap::new();
    let mut i: usize = 0;
    assert(s.take(0) =~= Seq::<(Seq<char>, OfferList)>::empty());
    assert(nested_view(m) =~= nested_entries_map(s.take(0)));
    while rest.len() > 0
        invariant
            n == orig.len(),
            s == orig.map_values(|e: (String, OperatorOffers)| (e.0@, e.1@)),
            i + rest@.len() == n,
            forall|j: int| 0 <= j < rest@.len() ==> #[trigger] rest@[j] == orig[n - 1 - j],
            nested_view(m) == nested_entries_map(s.take(i as int)),
        decreases rest.len(),
    {
        let (k, x) = rest.pop().unwrap();
        proof {
            assert((k, x) == orig[i as int]);
            assert(s.take(i + 1).drop_last() =~= s.take(i as int));
            assert(s.take(i + 1).last() == s[i as int]);
        }
        let ghost xv = x@;
        let inner = x.into_map();
        let ghost before = nested_view(m);
        proof {
            assert(inner@.map_values(|o: OperatorOffer| o@) =~= inner@);
        }
        m.insert(k, inner);
        assert(nested_view(m) =~= before.insert(s[i as int].0, entries_map(xv)));
        assert(nested_entries_map(s.take(i + 1)) =~= nested_entries_map(s.take(i as int)).insert(s[i as int].0, entries_map(xv)));
        i = i + 1;
    }
    assert(s.take(i as int) =~= s);
    m
}

/// The operator offers a `GET /guest/prices` answer lists under `outer`, then `inner`; none
/// when either key is missing.
pub open spec fn offers_under(raw: Seq<(Seq<char>, Seq<(Seq<char>, OfferList)>)>, outer: Seq<char>, inner: Seq<char>) -> Map<Seq<char>, OperatorOffer> {
    if entries_map(raw).contains_key(outer) && entries_map(entries_map(raw)[outer]).contains_key(inner) {
        entries_map(entries_map(entries_map(raw)[outer])[inner])
    } else {
        Map::empty()
    }
}

/// The nested tables a `GET /guest/prices` answer lists under `key`; none when it is missing.
pub open spec fn tables_under(raw: Seq<(Seq<char>, Seq<(Seq<char>, OfferList)>)>, key: Seq<char>) -> Map<Seq<char>, Map<Seq<char>, OperatorOffer>> {
    if entries_map(raw).contains_key(key) {
        nested_entries_map(entries_map(raw)[key])
    } else {
        Map::empty()
    }
}

/// Operator → offer under `outer`, then `inner`, of a `GET /guest/prices` answer (see
/// [`offers_under`]).
pub fn offers_of(raw: NestedOffers, outer: &str, inner: &str) -> (r: KeyMap<String, OperatorOffer>)
    ensures
        r@.map_values(|x: OperatorOffer| x@) == offers_under(raw@, outer@, inner@),
{
    match take_entry(raw, outer) {
        Some(products) => match take_entry(products, inner) {
            Some(offers) => offers.into_map(),
            None => {
                let m: KeyMap<String, OperatorOffer> = KeyMap::new();
                assert(m@.map_values(|x: OperatorOffer| x@) =~= offers_under(raw@, outer@, inner@));
                m
            },
        },
        None => {
            let m: KeyMap<String, OperatorOffer> = KeyMap::new();
            assert(m@.map_values(|x: OperatorOffer| x@) =~= offers_under(raw@, outer@, inner@));
            m
        },
    }
}

/// Key → operator → offer under `key` of a `GET /guest/prices` answer (see [`tables_under`]).
pub fn offer_tables_of(raw: NestedOffers, key: &str) -> (r: KeyMap<String, KeyMap<String, OperatorOffer>>)
    ensures
        nested_view(r) == tables_under(raw@, key@),
{
    match take_entry(raw, key) {
        Some(inner) => nested_into_map(inner),
        None => {
            let m: KeyMap<String, KeyMap<String, OperatorOffer>> = KeyMap::new();
            assert(nested_view(m) =~= tables_under(raw@, key@));
            m
        },
    }
}

/// The country rows of a 5SIM country table, in table order.
pub open spec fn country_rows(t: KeyMap<String, CountryInfo>) -> Seq<crate::types::CountryView> {
    t.seq().map_values(|e: (String, CountryInfo)| crate::providers::fivesim::catalog::country_row(e.0@, e.1@))
}

/// The top-countries rows of `product` in a `GET /guest/prices?product=…` answer, most stock
/// first (none when the answer does not list it).
pub open spec fn top_under(raw: Seq<(Seq<char>, Seq<(Seq<char>, OfferList)>)>, product: Seq<char>) -> Seq<TopCountryView> {
    if entries_map(raw).contains_key(product) {
        sort_top(top_rows_of(entries_map(raw)[product]))
    } else {
        Seq::<TopCountryView>::empty()
    }
}

/// The top-countries rows of `product` in a `GET /guest/prices?product=…` answer (see
/// [`top_under`]).
pub fn top_countries_in(raw: NestedOffers, product: &str) -> (r: Vec<TopCountry>)
    ensures
        crate::error::seq_views(r@) == top_under(raw@, product@),
{
    match take_entry(raw, product) {
        Some(countries) => top_countries_of(&countries),
        None => {
            let v: Vec<TopCountry> = Vec::new();
            assert(crate::error::seq_views(v@) =~= Seq::<TopCountryView>::empty());
            v
        },
    }
}

/// The active-activation rows of an order list: the orders that are still active.
pub open spec fn active_rows(s: Seq<crate::providers::fivesim::orders::OrderView>) -> Seq<crate::types::ActiveView>
    decreases s.len(),
{
    if s.len() == 0 {
        Seq::empty()
    } else {
        active_rows(s.drop_last()) + if s.last().status is Pending || s.last().status is Received {
            seq![crate::providers::fivesim::orders::active_of(s.last())]
        } else {
            Seq::empty()
        }
    }
}

/// The rows of the still-active orders (see [`active_rows`]).
pub fn active_activations_of(orders: Vec<Order>) -> (r: Vec<crate::types::ActiveActivation>)
    ensures
        crate::error::seq_views(r@) == active_rows(crate::error::seq_views(orders@)),
{
    let ghost s = crate::error::seq_views(orders@);
    let mut v = orders;
    let mut rev: Vec<Order> = Vec::new();
    let ghost orig = v@;
    while v.len() > 0
        invariant
            v@ == orig.take(v@.len() as int),
            v@.len() <= orig.len(),
            rev@.len() + v@.len() == orig.len(),
            forall|j: int| 0 <= j < rev@.len() ==> #[trigger] rev@[j] == orig[orig.len() - 1 - j],
        decreases v.len(),
    {
        let x = v.pop().unwrap();
        rev.push(x);
    }
    let n = rev.len();
    let mut out: Vec<crate::types::ActiveActivation> = Vec::new();
    let mut i: usize = 0;
    assert(s.take(0) =~= Seq::<crate::providers::fivesim::orders::OrderView>::empty());
    assert(crate::error::seq_views(out@) =~= Seq::<crate::types::ActiveView>::empty());
    while rev.len() > 0
        invariant
            n == orig.len(),
            s == crate::error::seq_views(orig),
            i + rev@.len() == n,
            forall|j: int| 0 <= j < rev@.len() ==> #[trigger] rev@[j] == orig[n - 1 - j],
            crate::error::seq_views(out@) == active_rows(s.take(i as int)),
        decreases rev.len(),
    {
        let o = rev.pop().unwrap();
        proof {
            assert(o == orig[i as int]);
            assert(s.take(i + 1).drop_last() =~= s.take(i as int));
            assert(s.take(i + 1).last() == o@);
        }
        let ghost before = crate::error::seq_views(out@);
        if o.status.is_active() {
            let row = o.into_active_activation();
            out.push(row);
            assert(crate::error::seq_views(out@) =~= before.push(row@));
        } else {
            assert(active_rows(s.take(i + 1)) =~= active_rows(s.take(i as int)));
        }
        i = i + 1;
    }
    assert(s.take(i as int) =~= s);
    out
}

// ---------------------------------------------------------------------------
// Request plans

/// `s` without its trailing `/`s.
pub open spec fn strip_slashes(s: Seq<char>) -> Seq<char>
    decreases s.len(),
{
    if s.len() > 0 && s.last() == '/' {
        strip_slashes(s.drop_last())
    } else {
        s
    }
}

/// `/user/buy/activation/{country}/{operator}/{product}`.
pub open spec fn buy_path(country: Seq<char>, operator: Seq<char>, product: Seq<char>) -> Seq<char> {
    "/user/buy/activation/"@ + url_encoded(country) + "/"@ + url_encoded(operator) + "/"@ + url_encoded(product)
}

/// The query of a purchase: `maxPrice` when set, then the extra pairs verbatim.
pub open spec fn buy_query(r: crate::types::RequestParams) -> Seq<(Seq<char>, Seq<char>)> {
    (match r.max_price {
        Some(p) => seq![("maxPrice"@, crate::api::price_text(p.units as int))],
        None => Seq::empty(),
    }) + r.extra
}

/// The refusal of a `maxPrice` combined with another operator than `any`.
pub open spec fn max_price_refusal(op: Seq<char>) -> ErrorView {
    ErrorView::Validation("maxPrice"@, "5SIM honours maxPrice only with operator `any`, not `"@ + op + "`"@)
}

/// What a purchase sends: the country slug and the request path, or why it is refused before
/// any request — a country that is not a slug, or `maxPrice` with another operator than `any`
/// (5SIM honours the cap only with `any`). `minPrice` has no 5SIM counterpart and is ignored.
pub open spec fn buy_plan(r: crate::types::RequestParams) -> Result<(Seq<char>, Seq<char>), ErrorView> {
    match slug_of(r.country) {
        None => Err(ErrorView::BadCountry),
        Some(c) => {
            let op = match r.operator {
                Some(o) => o,
                None => "any"@,
            };
            if r.max_price is Some && op != "any"@ {
                Err(max_price_refusal(op))
            } else {
                Ok((c, with_query(buy_path(c, op, r.service), buy_query(r))))
            }
        },
    }
}

/// The purchase plan of a request (see [`buy_plan`]).
pub fn plan_purchase(request: &NumberRequest) -> (r: ApiResult<(String, String)>)
    ensures
        match buy_plan(request@) {
            Ok((c, p)) => r matches Ok(x) && x.0@ == c && x.1@ == p,
            Err(e) => r matches Err(x) && x@ == e,
        },
{
    let country = slug(&request.country)?;
    let operator: &str = match &request.operator {
        Some(o) => o.as_str(),
        None => "any",
    };
    let oc = chars_of(operator);
    if request.max_price.is_some() && !crate::text::eq_str(&oc, "any") {
        let mut m = String::new();
        crate::text::push_str(&mut m, "5SIM honours maxPrice only with operator `any`, not `");
        crate::text::push_str(&mut m, operator);
        crate::text::push_str(&mut m, "`");
        return Err(ApiError::Validation { field: owned("maxPrice"), message: m });
    }
    let mut path = String::new();
    crate::text::push_str(&mut path, "/user/buy/activation/");
    crate::text::push_str(&mut path, encode(country).as_str());
    crate::text::push_str(&mut path, "/");
    crate::text::push_str(&mut path, encode(operator).as_str());
    crate::text::push_str(&mut path, "/");
    crate::text::push_str(&mut path, encode(request.service.as_str()).as_str());
    let mut query: Vec<(String, String)> = Vec::new();
    if let Some(p) = request.max_price {
        query.push((owned("maxPrice"), crate::api::fmt_price(p)));
    }
    let ghost head = crate::transport::pairs_view(query@);
    let mut i: usize = 0;
    while i < request.extra.len()
        invariant
            i <= request.extra@.len(),
            crate::transport::pairs_view(query@) == head + crate::transport::pairs_view(request.extra@).take(i as int),
        decreases request.extra.len() - i,
    {
        let ghost before = crate::transport::pairs_view(query@);
        query.push((copy_string(&request.extra[i].0), copy_string(&request.extra[i].1)));
        assert(crate::transport::pairs_view(query@) =~= before.push((request.extra@[i as int].0@, request.extra@[i as int].1@)));
        i = i + 1;
        assert(crate::transport::pairs_view(request.extra@).take(i as int) =~= crate::transport::pairs_view(request.extra@).take(i - 1).push(
            (request.extra@[i - 1].0@, request.extra@[i - 1].1@),
        ));
    }
    assert(crate::transport::pairs_view(request.extra@).take(i as int) =~= crate::transport::pairs_view(request.extra@));
    assert(crate::transport::pairs_view(query@) =~= buy_query(request@));
    append_query(&mut path, query.as_slice());
    Ok((owned(country), path))
}

/// The `GET /guest/prices` query for the filters, and whether its nesting is product-first;
/// a country that is not a slug is [`ErrorView::BadCountry`], no filter at all is refused (the
/// unfiltered answer is ≈ 9 MB).
pub open spec fn prices_plan(service: Option<Seq<char>>, country: Option<CountryKey>) -> Result<(Seq<char>, bool), ErrorView> {
    let c = match country {
        Some(k) => match slug_of(k) {
            Some(s) => Ok(Some(s)),
            None => Err(ErrorView::BadCountry),
        },
        None => Ok(None),
    };
    match c {
        Err(e) => Err(e),
        Ok(c) => match (c, service) {
            (None, None) => Err(ErrorView::Unsupported("getPrices without filters"@)),
            (Some(c), Some(p)) => Ok(("?country="@ + url_encoded(c) + "&product="@ + url_encoded(p), false)),
            (Some(c), None) => Ok(("?country="@ + url_encoded(c), false)),
            (None, Some(p)) => Ok(("?product="@ + url_encoded(p), true)),
        },
    }
}

/// The price query of the filters (see [`prices_plan`]).
pub fn plan_prices(service: Option<&ServiceCode>, country: Option<&CountryRef>) -> (r: ApiResult<(String, bool)>)
    ensures
        match prices_plan(
            match service {
                Some(s) => Some(s@),
                None => None,
            },
            match country {
                Some(c) => Some(c@),
                None => None,
            },
        ) {
            Ok((q, sw)) => r matches Ok(x) && x.0@ == q && x.1 == sw,
            Err(e) => r matches Err(x) && x@ == e,
        },
{
    let c: Option<&str> = match country {
        Some(k) => Some(slug(k)?),
        None => None,
    };
    let mut q = String::new();
    match (c, service) {
        (None, None) => Err(ApiError::Unsupported("getPrices without filters")),
        (Some(c), Some(p)) => {
            crate::text::push_str(&mut q, "?country=");
            crate::text::push_str(&mut q, encode(c).as_str());
            crate::text::push_str(&mut q, "&product=");
            crate::text::push_str(&mut q, encode(p.as_str()).as_str());
            Ok((q, false))
        },
        (Some(c), None) => {
            crate::text::push_str(&mut q, "?country=");
            crate::text::push_str(&mut q, encode(c).as_str());
            Ok((q, false))
        },
        (None, Some(p)) => {
            crate::text::push_str(&mut q, "?product=");
            crate::text::push_str(&mut q, encode(p.as_str()).as_str());
            Ok((q, true))
        },
    }
}

/// A JSON string literal as serde_json writes it.
fn json_string(s: &str) -> (r: String)
    ensures
        r@ == crate::json::scalar_text(JsonView::Str(s@)),
{
    crate::json::scalar_to_string(&crate::json::Json::Str(owned(s)))
}

/// `{"price":<price>,"product_name":"<product>"}` — the body that sets a price limit.
pub open spec fn max_price_body(product: Seq<char>, units: int) -> Seq<char> {
    "{\"price\":"@ + amount_json(units) + ",\"product_name\":"@ + crate::json::scalar_text(JsonView::Str(product)) + "}"@
}

/// `{"product_name":"<product>"}` — the body that removes a price limit.
pub open spec fn delete_price_body(product: Seq<char>) -> Seq<char> {
    "{\"product_name\":"@ + crate::json::scalar_text(JsonView::Str(product)) + "}"@
}

pub fn max_price_body_text(product: &str, price: Amount) -> (r: String)
    ensures
        r@ == max_price_body(product@, price.units as int),
{
    let mut b = String::new();
    crate::text::push_str(&mut b, "{\"price\":");
    crate::text::push_str(&mut b, amount_json_text(price).as_str());
    crate::text::push_str(&mut b, ",\"product_name\":");
    crate::text::push_str(&mut b, json_string(product).as_str());
    crate::text::push_str(&mut b, "}");
    b
}

pub fn delete_price_body_text(product: &str) -> (r: String)
    ensures
        r@ == delete_price_body(product@),
{
    let mut b = String::new();
    crate::text::push_str(&mut b, "{\"product_name\":");
    crate::text::push_str(&mut b, json_string(product).as_str());
    crate::text::push_str(&mut b, "}");
    b
}

/// `s` without its leading `+`s.
pub open spec fn strip_plus(s: Seq<char>) -> Seq<char>
    decreases s.len(),
{
    if s.len() > 0 && s[0] == '+' {
        strip_plus(s.drop_first())
    } else {
        s
    }
}

/// `/user/reuse/{product}/{number}` with the number trimmed and without its leading `+`.
pub open spec fn reuse_path(product: Seq<char>, number: Seq<char>) -> Seq<char> {
    "/user/reuse/"@ + url_encoded(product) + "/"@ + url_encoded(strip_plus(trim(number)))
}

pub fn reuse_path_text(product: &str, number: &str) -> (r: String)
    ensures
        r@ == reuse_path(product@, number@),
{
    let t = trim_str(number);
    let mut i: usize = 0;
    assert(t@.skip(0) =~= t@);
    while i < t.len() && t[i] == '+'
        invariant
            i <= t@.len(),
            strip_plus(t@.skip(i as int)) == strip_plus(t@),
        decreases t.len() - i,
    {
        assert(t@.skip(i as int).drop_first() =~= t@.skip(i + 1));
        i = i + 1;
    }
    let digits = crate::text::slice_vec(&t, i, t.len());
    assert(digits@ =~= t@.skip(i as int));
    let mut p = String::new();
    crate::text::push_str(&mut p, "/user/reuse/");
    crate::text::push_str(&mut p, encode(product).as_str());
    crate::text::push_str(&mut p, "/");
    crate::text::push_str(&mut p, encode(text(&digits).as_str()).as_str());
    p
}

// ---------------------------------------------------------------------------
// The client

/// What a `GET /guest/…` request carries: no token, `Accept: application/json`, no body.
pub open spec fn guest_request_view(base: Seq<char>, path: Seq<char>) -> RequestView {
    RequestView { method: Method::Get, url: base + path, headers: seq![("Accept"@, "application/json"@)], body: None }
}

/// What a `/user/…` request carries: the bearer token, `Accept: application/json`, and for a
/// JSON body `Content-Type: application/json`.
pub open spec fn user_request_view(base: Seq<char>, token: Seq<char>, method: Method, path: Seq<char>, body: Option<Seq<char>>) -> RequestView {
    RequestView {
        method,
        url: base + path,
        headers: seq![("Authorization"@, "Bearer "@ + token), ("Accept"@, "application/json"@)] + match body {
            Some(_) => seq![("Content-Type"@, "application/json"@)],
            None => Seq::empty(),
        },
        body,
    }
}

/// `/user/{action}/{id}` — `check`, `finish`, `cancel`, `ban`.
pub open spec fn order_path_of(action: Seq<char>, id: Seq<char>) -> Seq<char> {
    "/user/"@ + action + "/"@ + url_encoded(id)
}

/// `/user/{action}/{id}` (see [`order_path_of`]).
pub fn order_path(action: &str, id: &ActivationId) -> (r: String)
    ensures
        r@ == order_path_of(action@, id@),
{
    let mut path = String::new();
    crate::text::push_str(&mut path, "/user/");
    crate::text::push_str(&mut path, action);
    crate::text::push_str(&mut path, "/");
    crate::text::push_str(&mut path, encode(id.as_str()).as_str());
    path
}

/// `/user/orders?category=…&limit=…&offset=…&order=…&reverse=…`.
pub open spec fn orders_path_of(category: OrderCategory, page: Page) -> Seq<char> {
    "/user/orders?category="@ + (match category {
        OrderCategory::Activation => "activation"@,
        OrderCategory::Hosting => "hosting"@,
    }) + "&"@ + page_query(page.limit, page.offset, page.order@, page.reverse)
}

/// `/user/orders?category=…&limit=…&offset=…&order=…&reverse=…` (see [`orders_path_of`]).
pub fn orders_path(category: OrderCategory, page: &Page) -> (r: String)
    ensures
        r@ == orders_path_of(category, *page),
{
    let mut path = String::new();
    crate::text::push_str(&mut path, "/user/orders?category=");
    crate::text::push_str(&mut path, category.as_str());
    crate::text::push_str(&mut path, "&");
    crate::text::push_str(&mut path, page.query().as_str());
    path
}

/// `/user/payments?limit=…&offset=…&order=…&reverse=…`.
pub open spec fn payments_path_of(page: Page) -> Seq<char> {
    "/user/payments?"@ + page_query(page.limit, page.offset, page.order@, page.reverse)
}

/// `/user/payments?limit=…&offset=…&order=…&reverse=…` (see [`payments_path_of`]).
pub fn payments_path(page: &Page) -> (r: String)
    ensures
        r@ == payments_path_of(*page),
{
    let mut path = String::new();
    crate::text::push_str(&mut path, "/user/payments?");
    crate::text::push_str(&mut path, page.query().as_str());
    path
}

/// `/user/sms/inbox/{id}`.
pub open spec fn inbox_path_of(id: Seq<char>) -> Seq<char> {
    "/user/sms/inbox/"@ + url_encoded(id)
}

/// `/user/sms/inbox/{id}` (see [`inbox_path_of`]).
pub fn inbox_path(id: &ActivationId) -> (r: String)
    ensures
        r@ == inbox_path_of(id@),
{
    let mut path = String::new();
    crate::text::push_str(&mut path, "/user/sms/inbox/");
    crate::text::push_str(&mut path, encode(id.as_str()).as_str());
    path
}

/// `/guest/products/{country}/{operator}`.
pub open spec fn products_path_of(country: Seq<char>, operator: Seq<char>) -> Seq<char> {
    "/guest/products/"@ + url_encoded(country) + "/"@ + url_encoded(operator)
}

/// `/guest/products/{country}/{operator}` (see [`products_path_of`]).
pub fn products_path(country: &str, operator: &str) -> (r: String)
    ensures
        r@ == products_path_of(country@, operator@),
{
    let mut path = String::new();
    crate::text::push_str(&mut path, "/guest/products/");
    crate::text::push_str(&mut path, encode(country).as_str());
    crate::text::push_str(&mut path, "/");
    crate::text::push_str(&mut path, encode(operator).as_str());
    path
}

/// The query of `GET /guest/prices` narrowed to a country and/or a product.
pub open spec fn prices_query_text(country: Option<Seq<char>>, product: Option<Seq<char>>) -> Seq<char> {
    match (country, product) {
        (Some(c), Some(p)) => "?country="@ + url_encoded(c) + "&product="@ + url_encoded(p),
        (Some(c), None) => "?country="@ + url_encoded(c),
        (None, Some(p)) => "?product="@ + url_encoded(p),
        (None, None) => Seq::empty(),
    }
}

/// The query of `GET /guest/prices` (see [`prices_query_text`]).
pub fn prices_query(country: Option<&str>, product: Option<&str>) -> (r: String)
    ensures
        r@ == prices_query_text(
            match country {
                Some(c) => Some(c@),
                None => None,
            },
            match product {
                Some(p) => Some(p@),
                None => None,
            },
        ),
{
    let mut q = String::new();
    match country {
        Some(c) => {
            crate::text::push_str(&mut q, "?country=");
            crate::text::push_str(&mut q, encode(c).as_str());
            if let Some(p) = product {
                crate::text::push_str(&mut q, "&product=");
                crate::text::push_str(&mut q, encode(p).as_str());
            }
        },
        None => {
            if let Some(p) = product {
                crate::text::push_str(&mut q, "?product=");
                crate::text::push_str(&mut q, encode(p).as_str());
            }
        },
    }
    assert(q@ =~= prices_query_text(
        match country {
            Some(c) => Some(c@),
            None => None,
        },
        match product {
            Some(p) => Some(p@),
            None => None,
        },
    ));
    q
}

/// The body of a 5SIM answer once the transport has answered: a transport failure is
/// [`ApiError::Transport`], an answer [`classify`] maps to an error is that error, and anything
/// else is the body.
pub fn finish_response(outcome: Result<HttpResponse, TransportError>) -> (r: ApiResult<String>)
    ensures
        match outcome {
            Err(e) => r matches Err(x) && x@ == ErrorView::Transport(e.0@),
            Ok(resp) => match fivesim_error(resp.status, resp.body@) {
                Some(e) => r matches Err(x) && x@ == e,
                None => r matches Ok(b) && b@ == resp.body@,
            },
        },
{
    let resp = match outcome {
        Ok(r) => r,
        Err(e) => {
            return Err(ApiError::Transport(e));
        },
    };
    classify(&resp)?;
    Ok(resp.body)
}

/// What a 5SIM request ends in, given what the transport answered (see [`finish_response`]).
pub open spec fn fivesim_outcome(o: Outcome) -> Result<Seq<char>, ErrorView> {
    match o {
        Err(m) => Err(ErrorView::Transport(m)),
        Ok((status, body)) => match fivesim_error(status, body) {
            Some(e) => Err(e),
            None => Ok(body),
        },
    }
}

/// Whether `r` is what buying reads from the answer `body`: the order as an activation in
/// `country`, or a parse error when the body does not read as an order.
pub open spec fn bought(body: Seq<char>, country: Seq<char>, r: ApiResult<crate::types::Activation>) -> bool {
    match json_of_text(trim(body)) {
        None => r matches Err(e) && e@ is Parse,
        Some(v) => match <Order as crate::providers::fivesim::records::Record>::read(v) {
            Some(o) => r matches Ok(a) && a@ == crate::providers::fivesim::orders::activation_of(o, country),
            None => r matches Err(e) && e@ is Parse,
        },
    }
}

/// 5SIM client. `T` is the HTTP transport.
pub struct FiveSim<T> {
    transport: T,
    token: String,
    base_url: String,
}

impl<T: Transport> FiveSim<T> {
    pub closed spec fn base_url_text(&self) -> Seq<char> {
        self.base_url@
    }

    pub closed spec fn token_text(&self) -> Seq<char> {
        self.token@
    }

    pub closed spec fn transport_value(&self) -> T {
        self.transport
    }

    /// Client over a custom transport. `token` may be empty when only `/guest/*` calls are
    /// needed.
    pub fn new(transport: T, token: &str) -> (r: Self)
        ensures
            r.base_url_text() == BASE_URL@,
            r.token_text() == token@,
            r.transport_value() == transport,
    {
        FiveSim { transport, token: owned(token), base_url: owned(BASE_URL) }
    }

    /// Replaces the base URL (`https://5sim.net/v1`); trailing `/`s are stripped.
    pub fn with_base_url(self, base_url: &str) -> (r: Self)
        ensures
            r.base_url_text() == strip_slashes(base_url@),
            r.token_text() == self.token_text(),
            r.transport_value() == self.transport_value(),
    {
        let u = chars_of(base_url);
        let mut k = u.len();
        assert(u@.take(k as int) =~= u@);
        while k > 0 && u[k - 1] == '/'
            invariant
                k <= u@.len(),
                strip_slashes(u@.take(k as int)) == strip_slashes(u@),
            decreases k,
        {
            assert(u@.take(k as int).drop_last() =~= u@.take(k - 1));
            k = k - 1;
        }
        let head = crate::text::slice_vec(&u, 0, k);
        assert(head@ =~= u@.take(k as int));
        FiveSim { base_url: text(&head), ..self }
    }

    pub fn transport(&self) -> (r: &T)
        ensures
            *r == self.transport_value(),
    {
        &self.transport
    }

    pub fn base_url(&self) -> (r: &str)
        ensures
            r@ == self.base_url_text(),
    {
        self.base_url.as_str()
    }

    fn url(&self, path: &str) -> (r: String)
        ensures
            r@ == self.base_url_text() + path@,
    {
        let mut u = copy_string(&self.base_url);
        crate::text::push_str(&mut u, path);
        u
    }

    /// Whether `r` is what the client makes of some answer its transport may give to `req`;
    /// `read` says what may become of a body taken for data.
    pub open spec fn answered<R>(&self, req: RequestView, r: ApiResult<R>, read: spec_fn(Seq<char>) -> bool) -> bool {
        exists|o: Outcome|
            #[trigger] request_answers(self.transport_value(), req, o) && reads_outcome(fivesim_outcome(o), r, read)
    }

    /// A method that hands on the error of its request keeps to what the transport answered.
    proof fn lemma_error_handed_on<R>(
        &self,
        req: RequestView,
        sent: ApiResult<String>,
        r: ApiResult<R>,
        read: spec_fn(Seq<char>) -> bool,
    )
        requires
            self.answered(req, sent, |b: Seq<char>| sent matches Ok(x) && x@ == b),
            sent matches Err(e) && r matches Err(e2) && e2@ == e@,
        ensures
            self.answered(req, r, read),
    {
        let o = choose|o: Outcome|
            #[trigger] request_answers(self.transport_value(), req, o) && reads_outcome(
                fivesim_outcome(o),
                sent,
                |b: Seq<char>| sent matches Ok(x) && x@ == b,
            );
        assert(request_answers(self.transport_value(), req, o));
    }

    /// A method whose result is what `read` allows of the body its request brought back keeps
    /// to what the transport answered.
    proof fn lemma_body_read<R>(
        &self,
        req: RequestView,
        sent: ApiResult<String>,
        r: ApiResult<R>,
        read: spec_fn(Seq<char>) -> bool,
    )
        requires
            self.answered(req, sent, |b: Seq<char>| sent matches Ok(x) && x@ == b),
            sent matches Ok(b) && read(b@),
        ensures
            self.answered(req, r, read),
    {
        let o = choose|o: Outcome|
            #[trigger] request_answers(self.transport_value(), req, o) && reads_outcome(
                fivesim_outcome(o),
                sent,
                |b: Seq<char>| sent matches Ok(x) && x@ == b,
            );
        assert(request_answers(self.transport_value(), req, o));
    }

    /// Sends `req`; the body once 5SIM's answer is taken for data, the error otherwise.
    fn send(&self, req: HttpRequest) -> (r: ApiResult<String>)
        ensures
            self.answered(req@, r, |b: Seq<char>| r matches Ok(x) && x@ == b),
    {
        let got = self.transport.request(&req);
        let ghost o = outcome_view(got);
        assert(request_answers(self.transport_value(), req@, o));
        let r = finish_response(got);
        assert(reads_outcome(fivesim_outcome(o), r, |b: Seq<char>| r matches Ok(x) && x@ == b));
        r
    }

    /// The request of `GET /guest/{path}`.
    pub fn guest_request(&self, path: &str) -> (r: HttpRequest)
        ensures
            r@ == guest_request_view(self.base_url_text(), path@),
    {
        let url = self.url(path);
        let r = HttpRequest::get(url.as_str()).accept_json();
        assert(r@.headers =~= seq![("Accept"@, "application/json"@)]);
        r
    }

    /// The request of `/user/{path}` with `method`, carrying `body` as JSON when there is one.
    pub fn user_request(&self, method: Method, path: &str, body: Option<&str>) -> (r: HttpRequest)
        ensures
            r@ == user_request_view(
                self.base_url_text(),
                self.token_text(),
                method,
                path@,
                match body {
                    Some(b) => Some(b@),
                    None => None,
                },
            ),
    {
        let url = self.url(path);
        let req = HttpRequest::new(method, url.as_str()).bearer(self.token.as_str()).accept_json();
        match body {
            Some(b) => {
                let r = req.json_body(b);
                let ghost h = seq![("Authorization"@, "Bearer "@ + self.token_text()), ("Accept"@, "application/json"@)];
                assert(r@.headers =~= h + seq![("Content-Type"@, "application/json"@)]);
                r
            },
            None => {
                let ghost h = seq![("Authorization"@, "Bearer "@ + self.token_text()), ("Accept"@, "application/json"@)];
                assert(req@.headers =~= h + Seq::<(Seq<char>, Seq<char>)>::empty());
                req
            },
        }
    }

    /// A method that makes of its request's result `r1` the result `r2` keeps to what the
    /// transport answered: errors are handed on, and `read2` allows whatever `read1` allows.
    proof fn lemma_answered_then<R, S>(
        &self,
        req: RequestView,
        r1: ApiResult<R>,
        read1: spec_fn(Seq<char>) -> bool,
        r2: ApiResult<S>,
        read2: spec_fn(Seq<char>) -> bool,
    )
        requires
            self.answered(req, r1, read1),
            forall|b: Seq<char>| #[trigger] read1(b) ==> read2(b),
            r1 matches Err(e) ==> (r2 matches Err(e2) && e2@ == e@),
        ensures
            self.answered(req, r2, read2),
    {
        let o = choose|o: Outcome|
            #[trigger] request_answers(self.transport_value(), req, o) && reads_outcome(fivesim_outcome(o), r1, read1);
        assert(request_answers(self.transport_value(), req, o));
    }

    /// The request of `GET /user/{path}`.
    pub open spec fn user_get_view(&self, path: Seq<char>) -> RequestView {
        user_request_view(self.base_url_text(), self.token_text(), Method::Get, path, None)
    }

    /// `GET /user/…` read as one `R` record.
    fn user_record<R: Record>(&self, path: &str) -> (r: ApiResult<R>)
        ensures
            self.answered(self.user_get_view(path@), r, |b: Seq<char>| record_read::<R>(b, r)),
    {
        let ghost req = self.user_get_view(path@);
        let sent = self.user_get(path);
        let ghost sent_v = sent;
        let body = match sent {
            Ok(b) => b,
            Err(e) => {
                let r = Err(e);
                proof {
                    self.lemma_error_handed_on(req, sent_v, r, |b: Seq<char>| record_read::<R>(b, r));
                }
                return r;
            },
        };
        let r = crate::providers::fivesim::records::parse_record::<R>(body.as_str());
        proof {
            self.lemma_body_read(req, sent_v, r, |b: Seq<char>| record_read::<R>(b, r));
        }
        r
    }

    /// The request of `GET /guest/{path}`.
    pub open spec fn guest_get_view(&self, path: Seq<char>) -> RequestView {
        guest_request_view(self.base_url_text(), path)
    }

    /// `GET /guest/…` read as one `R` record.
    fn guest_record<R: Record>(&self, path: &str) -> (r: ApiResult<R>)
        ensures
            self.answered(self.guest_get_view(path@), r, |b: Seq<char>| record_read::<R>(b, r)),
    {
        let ghost req = self.guest_get_view(path@);
        let sent = self.guest_get(path);
        let ghost sent_v = sent;
        let body = match sent {
            Ok(b) => b,
            Err(e) => {
                let r = Err(e);
                proof {
                    self.lemma_error_handed_on(req, sent_v, r, |b: Seq<char>| record_read::<R>(b, r));
                }
                return r;
            },
        };
        let r = crate::providers::fivesim::records::parse_record::<R>(body.as_str());
        proof {
            self.lemma_body_read(req, sent_v, r, |b: Seq<char>| record_read::<R>(b, r));
        }
        r
    }

    /// `GET /guest/…` — no bearer.
    fn guest_get(&self, path: &str) -> (r: ApiResult<String>)
        ensures
            self.answered(
                guest_request_view(self.base_url_text(), path@),
                r,
                |b: Seq<char>| r matches Ok(x) && x@ == b,
            ),
    {
        self.send(self.guest_request(path))
    }

    /// `GET /user/…` with the bearer token.
    fn user_get(&self, path: &str) -> (r: ApiResult<String>)
        ensures
            self.answered(
                user_request_view(self.base_url_text(), self.token_text(), Method::Get, path@, None),
                r,
                |b: Seq<char>| r matches Ok(x) && x@ == b,
            ),
    {
        self.send(self.user_request(Method::Get, path, None))
    }

    /// `POST` / `DELETE /user/…` with a JSON body.
    fn user_json(&self, method: Method, path: &str, body: &str) -> (r: ApiResult<String>)
        ensures
            self.answered(
                user_request_view(self.base_url_text(), self.token_text(), method, path@, Some(body@)),
                r,
                |b: Seq<char>| r matches Ok(x) && x@ == b,
            ),
    {
        self.send(self.user_request(method, path, Some(body)))
    }

    /// `GET /user/{action}/{id}` — `check`, `finish`, `cancel`, `ban`.
    fn order_action(&self, action: &str, id: &ActivationId) -> (r: ApiResult<Order>)
        ensures
            self.answered(
                self.user_get_view(order_path_of(action@, id@)),
                r,
                |b: Seq<char>| record_read::<Order>(b, r),
            ),
    {
        let path = order_path(action, id);
        self.user_record::<Order>(path.as_str())
    }

    /// Raw `GET /guest/prices?…` answer: outer key → inner key → operator → offer.
    fn raw_prices(&self, query: &str) -> (r: ApiResult<NestedOffers>)
        ensures
            self.answered(
                self.guest_get_view("/guest/prices"@ + query@),
                r,
                |b: Seq<char>| record_read::<NestedOffers>(b, r),
            ),
    {
        let mut path = String::new();
        crate::text::push_str(&mut path, "/guest/prices");
        crate::text::push_str(&mut path, query);
        self.guest_record::<NestedOffers>(path.as_str())
    }

    /// `GET /guest/products/{country}/{operator}` in answer order.
    fn product_entries(&self, country: &str, operator: &str) -> (r: ApiResult<Entries<ProductInfo>>)
        ensures
            self.answered(
                self.guest_get_view(products_path_of(country@, operator@)),
                r,
                |b: Seq<char>| record_read::<Entries<ProductInfo>>(b, r),
            ),
    {
        let path = products_path(country, operator);
        self.guest_record::<Entries<ProductInfo>>(path.as_str())
    }

    /// `GET /user/profile` — balance, rating, defaults and the undocumented order counters.
    pub fn profile(&self) -> (r: ApiResult<Profile>)
        ensures
            self.answered(
                self.user_get_view("/user/profile"@),
                r,
                |b: Seq<char>| record_read::<Profile>(b, r),
            ),
    {
        self.user_record::<Profile>("/user/profile")
    }

    /// `GET /user/check/{id}` — the full order including every SMS received so far.
    pub fn check(&self, id: &ActivationId) -> (r: ApiResult<Order>)
        ensures
            self.answered(
                self.user_get_view(order_path_of("check"@, id@)),
                r,
                |b: Seq<char>| record_read::<Order>(b, r),
            ),
    {
        self.order_action("check", id)
    }

    /// `GET /user/finish/{id}` — mark the order used (status `FINISHED`).
    pub fn finish(&self, id: &ActivationId) -> (r: ApiResult<Order>)
        ensures
            self.answered(
                self.user_get_view(order_path_of("finish"@, id@)),
                r,
                |b: Seq<char>| record_read::<Order>(b, r),
            ),
    {
        self.order_action("finish", id)
    }

    /// `GET /user/cancel/{id}` — cancel and refund (status `CANCELED`); refused with
    /// `order has sms` once a code has arrived.
    pub fn cancel_order(&self, id: &ActivationId) -> (r: ApiResult<Order>)
        ensures
            self.answered(
                self.user_get_view(order_path_of("cancel"@, id@)),
                r,
                |b: Seq<char>| record_read::<Order>(b, r),
            ),
    {
        self.order_action("cancel", id)
    }

    /// `GET /user/ban/{id}` — report the number as already used (status `BANNED`, refunded,
    /// blacklisted). Refused with `order has sms` once a code has arrived.
    pub fn ban(&self, id: &ActivationId) -> (r: ApiResult<Order>)
        ensures
            self.answered(
                self.user_get_view(order_path_of("ban"@, id@)),
                r,
                |b: Seq<char>| record_read::<Order>(b, r),
            ),
    {
        self.order_action("ban", id)
    }

    /// `GET /user/reuse/{product}/{number}` — buy the same number again (see [`reuse_path`]).
    pub fn reuse(&self, product: &str, number: &str) -> (r: ApiResult<Order>)
        ensures
            self.answered(
                self.user_get_view(reuse_path(product@, number@)),
                r,
                |b: Seq<char>| record_read::<Order>(b, r),
            ),
    {
        let path = reuse_path_text(product, number);
        self.user_record::<Order>(path.as_str())
    }

    /// `GET /user/orders?category=…&limit=…&offset=…&order=…&reverse=…` — order history.
    pub fn orders(&self, category: OrderCategory, page: &Page) -> (r: ApiResult<OrdersPage>)
        ensures
            self.answered(
                self.user_get_view(orders_path_of(category, *page)),
                r,
                |b: Seq<char>| record_read::<OrdersPage>(b, r),
            ),
    {
        let path = orders_path(category, page);
        self.user_record::<OrdersPage>(path.as_str())
    }

    /// `GET /user/payments?limit=…&offset=…&order=…&reverse=…` — balance history.
    pub fn payments(&self, page: &Page) -> (r: ApiResult<PaymentsPage>)
        ensures
            self.answered(
                self.user_get_view(payments_path_of(*page)),
                r,
                |b: Seq<char>| record_read::<PaymentsPage>(b, r),
            ),
    {
        let path = payments_path(page);
        self.user_record::<PaymentsPage>(path.as_str())
    }

    /// `GET /user/sms/inbox/{id}` — SMS list of a rented number.
    pub fn sms_inbox(&self, id: &ActivationId) -> (r: ApiResult<SmsInbox>)
        ensures
            self.answered(
                self.user_get_view(inbox_path_of(id@)),
                r,
                |b: Seq<char>| record_read::<SmsInbox>(b, r),
            ),
    {
        let path = inbox_path(id);
        self.user_record::<SmsInbox>(path.as_str())
    }

    /// `GET /user/max-prices` — per-product purchase price limits.
    pub fn max_prices(&self) -> (r: ApiResult<Vec<MaxPrice>>)
        ensures
            self.answered(
                self.user_get_view("/user/max-prices"@),
                r,
                |b: Seq<char>| record_list_read::<MaxPrice>(b, r),
            ),
    {
        let ghost req = self.user_get_view("/user/max-prices"@);
        let sent = self.user_get("/user/max-prices");
        let ghost sent_v = sent;
        let body = match sent {
            Ok(b) => b,
            Err(e) => {
                let r = Err(e);
                proof {
                    self.lemma_error_handed_on(
                        req,
                        sent_v,
                        r,
                        |b: Seq<char>| record_list_read::<MaxPrice>(b, r),
                    );
                }
                return r;
            },
        };
        let r = crate::providers::fivesim::records::parse_record_list::<MaxPrice>(body.as_str());
        proof {
            self.lemma_body_read(req, sent_v, r, |b: Seq<char>| record_list_read::<MaxPrice>(b, r));
        }
        r
    }

    /// `POST /user/max-prices` with [`max_price_body`] — create or update a price limit.
    pub fn set_max_price(&self, product: &str, price: Amount) -> (r: ApiResult<()>)
        ensures
            self.answered(
                user_request_view(self.base_url_text(), self.token_text(), Method::Post, "/user/max-prices"@, Some(max_price_body(product@, price.units as int))),
                r,
                |b: Seq<char>| r is Ok,
            ),
    {
        let body = max_price_body_text(product, price);
        let ghost req = user_request_view(self.base_url_text(), self.token_text(), Method::Post, "/user/max-prices"@, Some(body@));
        let sent = self.user_json(Method::Post, "/user/max-prices", body.as_str());
        let ghost sent_v = sent;
        let r = match sent {
            Ok(_) => Ok(()),
            Err(e) => Err(e),
        };
        proof {
            if r is Ok {
                self.lemma_body_read(req, sent_v, r, |b: Seq<char>| r is Ok);
            } else {
                self.lemma_error_handed_on(req, sent_v, r, |b: Seq<char>| r is Ok);
            }
        }
        r
    }

    /// `DELETE /user/max-prices` with [`delete_price_body`] — remove a price limit.
    pub fn delete_max_price(&self, product: &str) -> (r: ApiResult<()>)
        ensures
            self.answered(
                user_request_view(self.base_url_text(), self.token_text(), Method::Delete, "/user/max-prices"@, Some(delete_price_body(product@))),
                r,
                |b: Seq<char>| r is Ok,
            ),
    {
        let body = delete_price_body_text(product);
        let ghost req = user_request_view(self.base_url_text(), self.token_text(), Method::Delete, "/user/max-prices"@, Some(body@));
        let sent = self.user_json(Method::Delete, "/user/max-prices", body.as_str());
        let ghost sent_v = sent;
        let r = match sent {
            Ok(_) => Ok(()),
            Err(e) => Err(e),
        };
        proof {
            if r is Ok {
                self.lemma_body_read(req, sent_v, r, |b: Seq<char>| r is Ok);
            } else {
                self.lemma_error_handed_on(req, sent_v, r, |b: Seq<char>| r is Ok);
            }
        }
        r
    }

    /// `GET /guest/products/{country}/{operator}` — every product with its category, stock and
    /// price. `any` is accepted for both.
    pub fn products(&self, country: &str, operator: &str) -> (r: ApiResult<KeyMap<String, ProductInfo>>)
        ensures
            self.answered(
                self.guest_get_view(products_path_of(country@, operator@)),
                r,
                |b: Seq<char>| read_as::<Entries<ProductInfo>,
                KeyMap<String,
                ProductInfo>>(b, r, |e: <Entries<ProductInfo> as View>::V| r matches Ok(m) && m@.map_values(|x: ProductInfo| x@) == entries_map(e)),
            ),
    {
        let ghost req = self.guest_get_view(products_path_of(country@, operator@));
        let x = self.product_entries(country, operator);
        let ghost x_v = x;
        let r = match x {
            Ok(v) => Ok(v.into_map()),
            Err(e) => Err(e),
        };
        proof {
            self.lemma_answered_then(
                req,
                x_v,
                |b: Seq<char>| record_read::<Entries<ProductInfo>>(b, x_v),
                r,
                |b: Seq<char>| read_as::<Entries<ProductInfo>,
                KeyMap<String,
                ProductInfo>>(b, r, |e: <Entries<ProductInfo> as View>::V| r matches Ok(m) && m@.map_values(|x: ProductInfo| x@) == entries_map(e)),
            );
        }
        r
    }

    /// `GET /guest/countries` — countries with their ISO codes, prefixes and operators.
    pub fn countries(&self) -> (r: ApiResult<KeyMap<String, CountryInfo>>)
        ensures
            self.answered(self.guest_get_view("/guest/countries"@), r, |b: Seq<char>| countries_read(b, r)),
    {
        let ghost req = self.guest_get_view("/guest/countries"@);
        let sent = self.guest_get("/guest/countries");
        let ghost sent_v = sent;
        let body = match sent {
            Ok(b) => b,
            Err(e) => {
                let r = Err(e);
                proof {
                    self.lemma_error_handed_on(req, sent_v, r, |b: Seq<char>| countries_read(b, r));
                }
                return r;
            },
        };
        let t = text(&trim_str(body.as_str()));
        let r = match crate::json::parse_json(t.as_str()) {
            Ok(v) => crate::providers::fivesim::catalog::countries_from_json(&v),
            Err(e) => Err(e),
        };
        proof {
            self.lemma_body_read(req, sent_v, r, |b: Seq<char>| countries_read(b, r));
        }
        r
    }

    /// `GET /guest/prices?country=…&product=…` — operator → offer for one product in one
    /// country; empty when the product is not sold there.
    pub fn prices_by_operator(&self, country: &str, product: &str) -> (r: ApiResult<KeyMap<String, OperatorOffer>>)
        ensures
            self.answered(
                self.guest_get_view("/guest/prices"@ + prices_query_text(Some(country@), Some(product@))),
                r,
                |b: Seq<char>| read_as::<NestedOffers,
                KeyMap<String,
                OperatorOffer>>(b, r, |raw: <NestedOffers as View>::V| r matches Ok(m) && m@.map_values(|x: OperatorOffer| x@) == offers_under(raw, country@, product@)),
            ),
    {
        let ghost req = self.guest_get_view("/guest/prices"@ + prices_query_text(Some(country@), Some(product@)));
        let q = prices_query(Some(country), Some(product));
        let x = self.raw_prices(q.as_str());
        let ghost x_v = x;
        let r = match x {
            Ok(v) => Ok(offers_of(v, country, product)),
            Err(e) => Err(e),
        };
        proof {
            self.lemma_answered_then(
                req,
                x_v,
                |b: Seq<char>| record_read::<NestedOffers>(b, x_v),
                r,
                |b: Seq<char>| read_as::<NestedOffers,
                KeyMap<String,
                OperatorOffer>>(b, r, |raw: <NestedOffers as View>::V| r matches Ok(m) && m@.map_values(|x: OperatorOffer| x@) == offers_under(raw, country@, product@)),
            );
        }
        r
    }

    /// `GET /guest/prices?product=…` — country → operator → offer for one product everywhere.
    pub fn offers_by_operator(&self, product: &str) -> (r: ApiResult<KeyMap<String, KeyMap<String, OperatorOffer>>>)
        ensures
            self.answered(
                self.guest_get_view("/guest/prices"@ + prices_query_text(None, Some(product@))),
                r,
                |b: Seq<char>| read_as::<NestedOffers,
                KeyMap<String,
                KeyMap<String,
                OperatorOffer>>>(b, r, |raw: <NestedOffers as View>::V| r matches Ok(m) && nested_view(m) == tables_under(raw, product@)),
            ),
    {
        let ghost req = self.guest_get_view("/guest/prices"@ + prices_query_text(None, Some(product@)));
        let q = prices_query(None, Some(product));
        let x = self.raw_prices(q.as_str());
        let ghost x_v = x;
        let r = match x {
            Ok(v) => Ok(offer_tables_of(v, product)),
            Err(e) => Err(e),
        };
        proof {
            self.lemma_answered_then(
                req,
                x_v,
                |b: Seq<char>| record_read::<NestedOffers>(b, x_v),
                r,
                |b: Seq<char>| read_as::<NestedOffers,
                KeyMap<String,
                KeyMap<String,
                OperatorOffer>>>(b, r, |raw: <NestedOffers as View>::V| r matches Ok(m) && nested_view(m) == tables_under(raw, product@)),
            );
        }
        r
    }

    /// `GET /guest/prices?country=…` — product → operator → offer for everything sold in one
    /// country.
    pub fn offers_in_country(&self, country: &str) -> (r: ApiResult<KeyMap<String, KeyMap<String, OperatorOffer>>>)
        ensures
            self.answered(
                self.guest_get_view("/guest/prices"@ + prices_query_text(Some(country@), None)),
                r,
                |b: Seq<char>| read_as::<NestedOffers,
                KeyMap<String,
                KeyMap<String,
                OperatorOffer>>>(b, r, |raw: <NestedOffers as View>::V| r matches Ok(m) && nested_view(m) == tables_under(raw, country@)),
            ),
    {
        let ghost req = self.guest_get_view("/guest/prices"@ + prices_query_text(Some(country@), None));
        let q = prices_query(Some(country), None);
        let x = self.raw_prices(q.as_str());
        let ghost x_v = x;
        let r = match x {
            Ok(v) => Ok(offer_tables_of(v, country)),
            Err(e) => Err(e),
        };
        proof {
            self.lemma_answered_then(
                req,
                x_v,
                |b: Seq<char>| record_read::<NestedOffers>(b, x_v),
                r,
                |b: Seq<char>| read_as::<NestedOffers,
                KeyMap<String,
                KeyMap<String,
                OperatorOffer>>>(b, r, |raw: <NestedOffers as View>::V| r matches Ok(m) && nested_view(m) == tables_under(raw, country@)),
            );
        }
        r
    }
}

/// What [`FiveSim::get_balance`] makes of the answer `body`: the balance of the profile it
/// reads as, or a parse error.
pub open spec fn profile_balance_read(body: Seq<char>, r: ApiResult<Amount>) -> bool {
    match json_of_text(trim(body)) {
        None => r matches Err(e) && e@ is Parse,
        Some(v) => match <Profile as Record>::read(v) {
            Some(p) => r matches Ok(a) && a.units == p.balance,
            None => r matches Err(e) && e@ is Parse,
        },
    }
}

/// What [`FiveSim::get_status`] makes of the answer `body`: the status of the order it reads
/// as, or a parse error.
pub open spec fn order_status_read(body: Seq<char>, r: ApiResult<ActivationStatus>) -> bool {
    match json_of_text(trim(body)) {
        None => r matches Err(e) && e@ is Parse,
        Some(v) => match <Order as Record>::read(v) {
            Some(o) => crate::error::res_view(r) == crate::providers::fivesim::orders::order_status(o),
            None => r matches Err(e) && e@ is Parse,
        },
    }
}

/// What a cancel or finish makes of the answer `body`: `ack` once it reads as an order, a parse
/// error otherwise.
pub open spec fn order_ack_read(body: Seq<char>, r: ApiResult<StatusAck>, ack: StatusAck) -> bool {
    match json_of_text(trim(body)) {
        None => r matches Err(e) && e@ is Parse,
        Some(v) => match <Order as Record>::read(v) {
            Some(_) => r == Ok::<StatusAck, ApiError>(ack),
            None => r matches Err(e) && e@ is Parse,
        },
    }
}

/// What [`FiveSim::get_active_activations`] makes of the answer `body`: the open orders of the
/// page it reads as, or a parse error.
pub open spec fn active_orders_read(body: Seq<char>, r: ApiResult<Vec<crate::types::ActiveActivation>>) -> bool {
    match json_of_text(trim(body)) {
        None => r matches Err(e) && e@ is Parse,
        Some(v) => match <OrdersPage as Record>::read(v) {
            Some(p) => r matches Ok(l) && crate::error::seq_views(l@) == active_rows(p.0),
            None => r matches Err(e) && e@ is Parse,
        },
    }
}

/// What [`FiveSim::countries`] makes of the answer `body`: the table it reads as, or the error
/// reading it.
pub open spec fn countries_read(body: Seq<char>, r: ApiResult<KeyMap<String, CountryInfo>>) -> bool {
    match json_of_text(trim(body)) {
        None => r matches Err(e) && e@ is Parse,
        Some(v) => match r {
            Ok(t) => crate::providers::fivesim::catalog::countries_of(v) == Ok::<
                Map<Seq<char>, crate::providers::fivesim::catalog::CountryInfoView>,
                ErrorView,
            >(t@.map_values(|c: CountryInfo| c@)),
            Err(e) => crate::providers::fivesim::catalog::countries_of(v) == Err::<
                Map<Seq<char>, crate::providers::fivesim::catalog::CountryInfoView>,
                ErrorView,
            >(e@),
        },
    }
}

/// What [`FiveSim::get_countries`] makes of the answer `body`: one row per country of the table
/// it reads as, or the error reading it.
pub open spec fn country_list_read(body: Seq<char>, r: ApiResult<Vec<crate::types::Country>>) -> bool {
    match json_of_text(trim(body)) {
        None => r matches Err(e) && e@ is Parse,
        Some(v) => match r {
            Ok(l) => exists|t: KeyMap<String, CountryInfo>|
                #![trigger country_rows(t)]
                crate::providers::fivesim::catalog::countries_of(v) == Ok::<
                    Map<Seq<char>, crate::providers::fivesim::catalog::CountryInfoView>,
                    ErrorView,
                >(t@.map_values(|c: CountryInfo| c@)) && crate::error::seq_views(l@) == country_rows(t),
            Err(e) => crate::providers::fivesim::catalog::countries_of(v) == Err::<
                Map<Seq<char>, crate::providers::fivesim::catalog::CountryInfoView>,
                ErrorView,
            >(e@),
        },
    }
}

/// What [`FiveSim::get_operators`] makes of the answer `body` for the slug `wanted`: the
/// operators selected from the table it reads as, or the error reading or selecting.
pub open spec fn operators_read(
    body: Seq<char>,
    wanted: Option<Seq<char>>,
    r: ApiResult<KeyMap<CountryRef, Vec<String>>>,
) -> bool {
    match json_of_text(trim(body)) {
        None => r matches Err(e) && e@ is Parse,
        Some(v) => match crate::providers::fivesim::catalog::countries_of(v) {
            Err(e) => r matches Err(x) && x@ == e,
            Ok(m) => exists|t: KeyMap<String, CountryInfo>|
                #![trigger crate::providers::fivesim::catalog::operators_selection(t, wanted)]
                t@.map_values(|c: CountryInfo| c@) == m && match r {
                    Ok(x) => crate::providers::fivesim::catalog::operators_selection(t, wanted) == Ok::<
                        Map<CountryKey, Seq<Seq<char>>>,
                        ErrorView,
                    >(crate::protocol::operators_view(x)),
                    Err(e) => crate::providers::fivesim::catalog::operators_selection(t, wanted) == Err::<
                        Map<CountryKey, Seq<Seq<char>>>,
                        ErrorView,
                    >(e@),
                },
        },
    }
}

impl<T: Transport> SmsActivateApi for FiveSim<T> {
    fn provider(&self) -> (r: &'static str)
        ensures
            r@ == "5SIM"@,
    {
        "5SIM"
    }

    fn capabilities(&self) -> (r: Capabilities)
        ensures
            r == fivesim_caps(),
    {
        capabilities()
    }

    /// `GET /user/profile` → `balance` (USD).
    fn get_balance(&self) -> (r: ApiResult<Amount>)
        ensures
            self.answered(self.user_get_view("/user/profile"@), r, |b: Seq<char>| profile_balance_read(b, r)),
    {
        let p = self.profile();
        let ghost p_v = p;
        let r = match p {
            Ok(p) => Ok(p.balance),
            Err(e) => Err(e),
        };
        proof {
            self.lemma_answered_then(
                self.user_get_view("/user/profile"@),
                p_v,
                |b: Seq<char>| record_read::<Profile>(b, p_v),
                r,
                |b: Seq<char>| profile_balance_read(b, r),
            );
        }
        r
    }

    /// `GET /user/buy/activation/{country}/{operator}/{product}` (see [`buy_plan`] for what is
    /// refused without a request).
    fn get_number(&self, request: &NumberRequest) -> (r: ApiResult<crate::types::Activation>)
        ensures
            buy_plan(request@) matches Err(e) ==> (r matches Err(x) && x@ == e),
            buy_plan(request@) matches Ok((c, path)) ==> self.answered(
                user_request_view(self.base_url_text(), self.token_text(), Method::Get, path, None),
                r,
                |b: Seq<char>| bought(b, c, r),
            ),
    {
        let (country, path) = plan_purchase(request)?;
        let ghost req = user_request_view(self.base_url_text(), self.token_text(), Method::Get, path@, None);
        let ghost c = country@;
        let sent = self.user_get(path.as_str());
        let ghost sent_v = sent;
        let body = match sent {
            Ok(b) => b,
            Err(e) => {
                let r = Err(e);
                proof {
                    self.lemma_error_handed_on(req, sent_v, r, |b: Seq<char>| bought(b, c, r));
                }
                return r;
            },
        };
        let r = match crate::providers::fivesim::records::parse_record::<Order>(body.as_str()) {
            Ok(order) => Ok(order.into_activation(country.as_str())),
            Err(e) => Err(e),
        };
        proof {
            self.lemma_body_read(req, sent_v, r, |b: Seq<char>| bought(b, c, r));
        }
        r
    }

    fn get_status(&self, id: &ActivationId) -> (r: ApiResult<ActivationStatus>)
        ensures
            self.answered(
                self.user_get_view(order_path_of("check"@, id@)),
                r,
                |b: Seq<char>| order_status_read(b, r),
            ),
    {
        let c = self.check(id);
        let ghost c_v = c;
        let r = match c {
            Ok(order) => order.activation_status(),
            Err(e) => Err(e),
        };
        proof {
            self.lemma_answered_then(
                self.user_get_view(order_path_of("check"@, id@)),
                c_v,
                |b: Seq<char>| record_read::<Order>(b, c_v),
                r,
                |b: Seq<char>| order_status_read(b, r),
            );
        }
        r
    }

    /// Cancel → `GET /user/cancel/{id}`, Complete → `GET /user/finish/{id}`; "SMS sent" and
    /// "another code" have no 5SIM counterpart (a `RECEIVED` order keeps collecting SMS).
    fn set_status(&self, id: &ActivationId, action: StatusAction) -> (r: ApiResult<StatusAck>)
        ensures
            action is Ready ==> (r matches Err(e) && e@ == ErrorView::Unsupported("setStatus 1"@)),
            action is RequestAnotherCode ==> (r matches Err(e) && e@ == ErrorView::Unsupported("setStatus 3"@)),
            action is Cancel ==> self.answered(
                self.user_get_view(order_path_of("cancel"@, id@)),
                r,
                |b: Seq<char>| order_ack_read(b, r, StatusAck::Cancel),
            ),
            action is Complete ==> self.answered(
                self.user_get_view(order_path_of("finish"@, id@)),
                r,
                |b: Seq<char>| order_ack_read(b, r, StatusAck::Activation),
            ),
    {
        match action {
            StatusAction::Cancel => {
                let c = self.cancel_order(id);
                let ghost c_v = c;
                let r = match c {
                    Ok(_) => Ok(StatusAck::Cancel),
                    Err(e) => Err(e),
                };
                proof {
                    self.lemma_answered_then(
                        self.user_get_view(order_path_of("cancel"@, id@)),
                        c_v,
                        |b: Seq<char>| record_read::<Order>(b, c_v),
                        r,
                        |b: Seq<char>| order_ack_read(b, r, StatusAck::Cancel),
                    );
                }
                r
            },
            StatusAction::Complete => {
                let c = self.finish(id);
                let ghost c_v = c;
                let r = match c {
                    Ok(_) => Ok(StatusAck::Activation),
                    Err(e) => Err(e),
                };
                proof {
                    self.lemma_answered_then(
                        self.user_get_view(order_path_of("finish"@, id@)),
                        c_v,
                        |b: Seq<char>| record_read::<Order>(b, c_v),
                        r,
                        |b: Seq<char>| order_ack_read(b, r, StatusAck::Activation),
                    );
                }
                r
            },
            StatusAction::Ready => Err(ApiError::Unsupported("setStatus 1")),
            StatusAction::RequestAnotherCode => Err(ApiError::Unsupported("setStatus 3")),
        }
    }

    /// `GET /guest/prices` folded into a price table (see [`prices_plan`], [`price_fold`]).
    fn get_prices(&self, service: Option<&ServiceCode>, country: Option<&CountryRef>) -> (r: ApiResult<PriceTable>)
        ensures
            prices_plan(
                match service {
                    Some(s) => Some(s@),
                    None => None,
                },
                match country {
                    Some(c) => Some(c@),
                    None => None,
                },
            ) matches Err(e) ==> (r matches Err(x) && x@ == e),
            prices_plan(
                match service {
                    Some(s) => Some(s@),
                    None => None,
                },
                match country {
                    Some(c) => Some(c@),
                    None => None,
                },
            ) matches Ok((q, swapped)) ==> self.answered(
                self.guest_get_view("/guest/prices"@ + q),
                r,
                |b: Seq<char>| read_as::<NestedOffers, PriceTable>(b, r, |raw: <NestedOffers as View>::V| r matches Ok(t) && price_view(t) == price_fold(raw, swapped)),
            ),
    {
        let (query, swapped) = plan_prices(service, country)?;
        let ghost req = self.guest_get_view("/guest/prices"@ + query@);
        let x = self.raw_prices(query.as_str());
        let ghost x_v = x;
        let r = match x {
            Ok(raw) => Ok(price_table(&raw, swapped)),
            Err(e) => Err(e),
        };
        proof {
            self.lemma_answered_then(
                req,
                x_v,
                |b: Seq<char>| record_read::<NestedOffers>(b, x_v),
                r,
                |b: Seq<char>| read_as::<NestedOffers, PriceTable>(b, r, |raw: <NestedOffers as View>::V| r matches Ok(t) && price_view(t) == price_fold(raw, swapped)),
            );
        }
        r
    }

    /// `GET /guest/products/any/any` → the activation products.
    fn get_services(&self) -> (r: ApiResult<Vec<crate::types::Service>>)
        ensures
            self.answered(
                self.guest_get_view(products_path_of("any"@, "any"@)),
                r,
                |b: Seq<char>| read_as::<Entries<ProductInfo>,
                Vec<crate::types::Service>>(b, r, |e: <Entries<ProductInfo> as View>::V| r matches Ok(l) && crate::error::seq_views(l@) == crate::providers::fivesim::catalog::activation_services(e)),
            ),
    {
        let ghost req = self.guest_get_view(products_path_of("any"@, "any"@));
        let x = self.product_entries("any", "any");
        let ghost x_v = x;
        let r = match x {
            Ok(v) => Ok(crate::providers::fivesim::catalog::services_of_products(&v)),
            Err(e) => Err(e),
        };
        proof {
            self.lemma_answered_then(
                req,
                x_v,
                |b: Seq<char>| record_read::<Entries<ProductInfo>>(b, x_v),
                r,
                |b: Seq<char>| read_as::<Entries<ProductInfo>,
                Vec<crate::types::Service>>(b, r, |e: <Entries<ProductInfo> as View>::V| r matches Ok(l) && crate::error::seq_views(l@) == crate::providers::fivesim::catalog::activation_services(e)),
            );
        }
        r
    }

    /// `GET /guest/countries` → one country per slug.
    fn get_countries(&self) -> (r: ApiResult<Vec<crate::types::Country>>)
        ensures
            self.answered(
                self.guest_get_view("/guest/countries"@),
                r,
                |b: Seq<char>| country_list_read(b, r),
            ),
    {
        let x = self.countries();
        let ghost x_v = x;
        let r = match x {
            Ok(table) => {
                let l = crate::providers::fivesim::catalog::countries_list(&table);
                assert(crate::error::seq_views(l@) == country_rows(table));
                Ok(l)
            },
            Err(e) => Err(e),
        };
        proof {
            self.lemma_answered_then(
                self.guest_get_view("/guest/countries"@),
                x_v,
                |b: Seq<char>| countries_read(b, x_v),
                r,
                |b: Seq<char>| country_list_read(b, r),
            );
        }
        r
    }

    /// `GET /guest/prices?product=…` → one row per country, most stock first.
    fn get_top_countries(&self, service: &ServiceCode) -> (r: ApiResult<Vec<TopCountry>>)
        ensures
            self.answered(
                self.guest_get_view("/guest/prices"@ + prices_query_text(None, Some(service@))),
                r,
                |b: Seq<char>| read_as::<NestedOffers,
                Vec<TopCountry>>(b, r, |raw: <NestedOffers as View>::V| r matches Ok(l) && crate::error::seq_views(l@) == top_under(raw, service@)),
            ),
    {
        let q = prices_query(None, Some(service.as_str()));
        let ghost req = self.guest_get_view("/guest/prices"@ + prices_query_text(None, Some(service@)));
        let x = self.raw_prices(q.as_str());
        let ghost x_v = x;
        let r = match x {
            Ok(v) => Ok(top_countries_in(v, service.as_str())),
            Err(e) => Err(e),
        };
        proof {
            self.lemma_answered_then(
                req,
                x_v,
                |b: Seq<char>| record_read::<NestedOffers>(b, x_v),
                r,
                |b: Seq<char>| read_as::<NestedOffers,
                Vec<TopCountry>>(b, r, |raw: <NestedOffers as View>::V| r matches Ok(l) && crate::error::seq_views(l@) == top_under(raw, service@)),
            );
        }
        r
    }

    /// `GET /guest/products/{country}/{operator|any}` → the stock of every activation product.
    fn get_numbers_status(&self, country: &CountryRef, operator: Option<&str>) -> (r: ApiResult<KeyMap<ServiceCode, u64>>)
        ensures
            slug_of(country@) is None ==> (r matches Err(e) && e@ == ErrorView::BadCountry),
            slug_of(country@) matches Some(c) ==> self.answered(
                self.guest_get_view(products_path_of(c, match operator {
                    Some(o) => o@,
                    None => "any"@,
                })),
                r,
                |b: Seq<char>| read_as::<Entries<ProductInfo>, KeyMap<ServiceCode, u64>>(b, r, |e: <Entries<ProductInfo> as View>::V| r matches Ok(m) && m@ == crate::providers::fivesim::catalog::activation_stock(e)),
            ),
    {
        let c = slug(country)?;
        let op: &str = match operator {
            Some(o) => o,
            None => "any",
        };
        let ghost req = self.guest_get_view(products_path_of(c@, op@));
        let x = self.product_entries(c, op);
        let ghost x_v = x;
        let r = match x {
            Ok(e) => Ok(crate::providers::fivesim::catalog::stock_of_products(&e)),
            Err(e) => Err(e),
        };
        proof {
            self.lemma_answered_then(
                req,
                x_v,
                |b: Seq<char>| record_read::<Entries<ProductInfo>>(b, x_v),
                r,
                |b: Seq<char>| read_as::<Entries<ProductInfo>, KeyMap<ServiceCode, u64>>(b, r, |e: <Entries<ProductInfo> as View>::V| r matches Ok(m) && m@ == crate::providers::fivesim::catalog::activation_stock(e)),
            );
        }
        r
    }

    /// `GET /user/orders?category=activation&limit=100…` → the orders still `PENDING` /
    /// `RECEIVED`.
    fn get_active_activations(&self) -> (r: ApiResult<Vec<crate::types::ActiveActivation>>)
        ensures
            self.answered(
                self.user_get_view(
                    "/user/orders?category="@ + "activation"@ + "&"@ + page_query(ACTIVE_ORDERS_LIMIT, 0, "id"@, true),
                ),
                r,
                |b: Seq<char>| active_orders_read(b, r),
            ),
    {
        let page = Page::new(ACTIVE_ORDERS_LIMIT, 0);
        let ghost req = self.user_get_view(orders_path_of(OrderCategory::Activation, page));
        assert(orders_path_of(OrderCategory::Activation, page) == "/user/orders?category="@ + "activation"@ + "&"@ + page_query(
            ACTIVE_ORDERS_LIMIT,
            0,
            "id"@,
            true,
        ));
        let o = self.orders(OrderCategory::Activation, &page);
        let ghost o_v = o;
        let r = match o {
            Ok(orders) => Ok(active_activations_of(orders.data)),
            Err(e) => Err(e),
        };
        proof {
            self.lemma_answered_then(
                req,
                o_v,
                |b: Seq<char>| record_read::<OrdersPage>(b, o_v),
                r,
                |b: Seq<char>| active_orders_read(b, r),
            );
        }
        r
    }

    /// `GET /guest/countries` → the operators of each country, or of the one asked for (an
    /// unknown slug is [`ApiError::BadCountry`]).
    fn get_operators(&self, country: Option<&CountryRef>) -> (r: ApiResult<KeyMap<CountryRef, Vec<String>>>)
        ensures
            (country matches Some(c) && slug_of(c@) is None) ==> (r matches Err(e) && e@ == ErrorView::BadCountry),
            !(country matches Some(c) && slug_of(c@) is None) ==> self.answered(
                self.guest_get_view("/guest/countries"@),
                r,
                |b: Seq<char>| operators_read(b, match country {
                    Some(c) => slug_of(c@),
                    None => None,
                }, r),
            ),
    {
        let wanted: Option<&str> = match country {
            Some(c) => Some(slug(c)?),
            None => None,
        };
        let ghost w = match wanted {
            Some(x) => Some(x@),
            None => None,
        };
        let x = self.countries();
        let ghost x_v = x;
        let r = match x {
            Ok(table) => crate::providers::fivesim::catalog::select_operators(&table, wanted),
            Err(e) => Err(e),
        };
        proof {
            self.lemma_answered_then(
                self.guest_get_view("/guest/countries"@),
                x_v,
                |b: Seq<char>| countries_read(b, x_v),
                r,
                |b: Seq<char>| operators_read(b, w, r),
            );
        }
        r
    }
}

} // verus!
