//! SMSBower — <https://smsbower.app/api/?page=client>
//!
//! The API lives on `smsbower.page` ([`ENDPOINT`]), the documentation on `smsbower.app`. Every
//! request is `GET <endpoint>?api_key=…&action=…`. Balance and prices are in USD.
//!
//! Besides the classic plain tokens SMSBower answers with two JSON error envelopes, both told
//! apart by their **first key** so that large data bodies are never decoded twice:
//!
//! * `{"status":0,"message":"…","data":[]}` — framework failures: HTTP 401 `No access` (a wrong
//!   key, [`ApiError::BadKey`]), HTTP 405 for a POST ([`ApiError::Http`] with the message);
//! * `{"error":"…"}` with HTTP 200 — `getPrices`, `getPricesV2` and `getTopCountriesByService`
//!   with an unknown service or country (`Bad service` → [`ApiError::BadService`], …).
//!
//! Country-indexed tables carry one row keyed `""` (the Faroe Islands, which have no country id
//! and cannot be bought); the `getPricesV2` / `getPricesV3` parsers skip it, and any other
//! non-numeric country key is a parse error. `getTopCountriesByService` is keyed by country
//! slug and partner id and keeps the provider's order (best offer first). `getOperators` with an
//! unknown country answers PHP's empty array, read as an empty map.
//!
//! Cancelling (`setStatus` 8) is refused with `EARLY_CANCEL_DENIED` until
//! [`CANCEL_GRACE_SECS`] seconds after the purchase.

pub mod params;

use vstd::prelude::*;
use crate::amount::{Amount, decimal_units};
use crate::api::{Client, Dialect};
use crate::error::{ApiError, ApiResult, ErrorView, code_error, err_of, owned, text};
use crate::json::{
    Json, JsonView, as_object, jget, json_of_text, member_views, object_expected, oview, parse_json,
    value_to_amount, value_to_string, value_to_u64, vamount, vstring, vu64,
};
use crate::keymap::KeyMap;
use crate::protocol::{classify_standard, standard_error};
use crate::text::{chars_of, slice_vec, split_once, split_once_chars, starts_with_char, trim, trim_start, trim_str};
use crate::transport::{HttpResponse, Transport, pairs_view, ascii_upper, eq_ignore_ascii_case, eq_ignore_case, to_ascii_upper};
use crate::types::{
    Capabilities, CountryId, CountryKey, CountryRef, NumberRequest, RequestParams, ServiceCode, TopCountry, TopCountryView,
    copy_string,
};

verus! {

/// The API host is `smsbower.page`, not the `smsbower.app` documentation host.
pub const ENDPOINT: &'static str = "https://smsbower.page/stubs/handler_api.php";

/// `setStatus` 8 (cancel) is refused with `EARLY_CANCEL_DENIED` until this many seconds after
/// the purchase.
pub const CANCEL_GRACE_SECS: u64 = 120;

/// [`CANCEL_GRACE_SECS`] as a `Duration`.
pub fn cancel_grace_period() -> (r: std::time::Duration)
    ensures
        crate::providers::hero_sms::duration_nanos(r) == CANCEL_GRACE_SECS * 1_000_000_000,
{
    crate::providers::hero_sms::seconds(CANCEL_GRACE_SECS)
}

/// What SMSBower implements.
pub open spec fn bower_caps() -> Capabilities {
    Capabilities {
        get_number_v2: true,
        numbers_status: false,
        active_activations: false,
        operators: true,
        prices_v2: true,
        prices_v3: true,
        price_bounds: true,
        provider_filters: true,
    }
}

/// What SMSBower implements (see [`bower_caps`]).
pub fn capabilities() -> (r: Capabilities)
    ensures
        r == bower_caps(),
{
    Capabilities {
        get_number_v2: true,
        numbers_status: false,
        active_activations: false,
        operators: true,
        prices_v2: true,
        prices_v3: true,
        price_bounds: true,
        provider_filters: true,
    }
}

// ---------------------------------------------------------------------------
// Error envelopes

/// Key of the first member of a JSON object (`{"status":…` → `status`), read without decoding
/// the rest.
pub open spec fn first_json_key(b: Seq<char>) -> Option<Seq<char>> {
    if starts_with_char(b, '{') {
        let r = trim_start(b.drop_first());
        if starts_with_char(r, '"') {
            match split_once(r.drop_first(), '"') {
                Some((k, _)) => Some(k),
                None => None,
            }
        } else {
            None
        }
    } else {
        None
    }
}

/// Key of the first member of a JSON object (see [`first_json_key`]).
fn first_key(b: &[char]) -> (r: Option<Vec<char>>)
    ensures
        match r {
            Some(k) => first_json_key(b@) == Some(k@),
            None => first_json_key(b@) is None,
        },
{
    if b.len() == 0 || b[0] != '{' {
        return None;
    }
    let rest = slice_vec(b, 1, b.len());
    assert(rest@ =~= b@.drop_first());
    let r = crate::text::trim_start_chars(&rest);
    if r.len() == 0 || r[0] != '"' {
        return None;
    }
    let after = slice_vec(&r, 1, r.len());
    assert(after@ =~= r@.drop_first());
    match split_once_chars(&after, '"') {
        Some((k, _)) => Some(k),
        None => None,
    }
}

/// A zero `status`: the number 0 or the string `"0"`.
pub open spec fn zero_status(s: JsonView) -> bool {
    (s matches JsonView::Number(_, _, i) && i == Some(0i64)) || s == JsonView::Str("0"@)
}

/// The message of an SMSBower error envelope; `None` when `b` is not one. A `status` envelope
/// counts only with a zero status; its message may be absent (empty). An `error` envelope needs
/// a string.
pub open spec fn envelope_message(b: Seq<char>) -> Option<Seq<char>> {
    match first_json_key(b) {
        Some(k) => if k == "status"@ {
            match json_of_text(b) {
                Some(v) => match jget(v, "status"@) {
                    Some(s) => if zero_status(s) {
                        Some(
                            match vstring(jget(v, "message"@)) {
                                Some(m) => m,
                                None => Seq::empty(),
                            },
                        )
                    } else {
                        None
                    },
                    None => None,
                },
                None => None,
            }
        } else if k == "error"@ {
            match json_of_text(b) {
                Some(v) => match jget(v, "error"@) {
                    Some(JsonView::Str(m)) => Some(m),
                    _ => None,
                },
                None => None,
            }
        } else {
            None
        },
        None => None,
    }
}

/// A message as a token candidate: trimmed, ASCII upper-cased, spaces turned into `_`
/// (`Bad country` → `BAD_COUNTRY`).
pub open spec fn normalized(m: Seq<char>) -> Seq<char> {
    trim(m).map_values(|c: char| if c == ' ' { '_' } else { ascii_upper(c) })
}

/// The error an envelope message stands for: the token it is, else the token its normalised
/// form is (unless that is only an unmapped token), else [`ErrorView::Other`] with the message.
pub open spec fn message_error(m: Seq<char>) -> ErrorView {
    match code_error(m) {
        Some(e) => e,
        None => match code_error(normalized(m)) {
            Some(e) => if e is Other {
                ErrorView::Other(m)
            } else {
                e
            },
            None => ErrorView::Other(m),
        },
    }
}

/// The error of an SMSBower envelope answered with `status` (see [`envelope_message`]): 401 / 403
/// and the message `No access` are a bad key, 429 is rate limiting, another non-2xx status is
/// [`ErrorView::Http`] with the message, a 2xx goes by [`message_error`].
pub open spec fn bower_envelope_error(status: u16, body: Seq<char>) -> Option<ErrorView> {
    match envelope_message(trim(body)) {
        None => None,
        Some(m) => Some(
            if status == 401 || status == 403 {
                ErrorView::BadKey
            } else if status == 429 {
                ErrorView::RateLimited(None)
            } else if eq_ignore_ascii_case(m, "no access"@) {
                ErrorView::BadKey
            } else if !(200 <= status && status < 300) {
                ErrorView::Http(status, m)
            } else {
                message_error(m)
            },
        ),
    }
}

/// SMSBower classification: an error envelope first, the standard rules otherwise.
pub open spec fn bower_error(status: u16, body: Seq<char>) -> Option<ErrorView> {
    match bower_envelope_error(status, body) {
        Some(e) => Some(e),
        None => standard_error(status, body),
    }
}

/// The message of an error envelope (see [`envelope_message`]).
fn envelope_message_of(b: &[char]) -> (r: Option<String>)
    ensures
        match r {
            Some(m) => envelope_message(b@) == Some(m@),
            None => envelope_message(b@) is None,
        },
{
    let key = match first_key(b) {
        Some(k) => k,
        None => {
            return None;
        },
    };
    let is_status = crate::text::eq_str(&key, "status");
    if !is_status && !crate::text::eq_str(&key, "error") {
        return None;
    }
    let body = crate::text::string_of(b);
    let v = match parse_json(body.as_str()) {
        Ok(v) => v,
        Err(_) => {
            return None;
        },
    };
    if is_status {
        let status = match v.get("status") {
            Some(s) => s,
            None => {
                return None;
            },
        };
        let zero = match status {
            Json::Number(n) => n.i64_value == Some(0i64),
            Json::Str(s) => {
                let sc = chars_of(s.as_str());
                crate::text::eq_str(&sc, "0")
            },
            _ => false,
        };
        proof {
            reveal_strlit("0");
        }
        if !zero {
            return None;
        }
        match value_to_string(v.get("message")) {
            Some(m) => Some(m),
            None => Some(String::new()),
        }
    } else {
        match v.get("error") {
            Some(Json::Str(m)) => Some(copy_string(m)),
            _ => None,
        }
    }
}

/// [`normalized`] on characters.
fn normalize(m: &[char]) -> (r: Vec<char>)
    ensures
        r@ == normalized(m@),
{
    let t = crate::text::trim_chars(m);
    let mut out: Vec<char> = Vec::new();
    let mut i: usize = 0;
    while i < t.len()
        invariant
            i <= t@.len(),
            t@ == trim(m@),
            out@ == t@.take(i as int).map_values(|c: char| if c == ' ' { '_' } else { ascii_upper(c) }),
        decreases t.len() - i,
    {
        let c = t[i];
        out.push(if c == ' ' { '_' } else { to_ascii_upper(c) });
        i = i + 1;
        assert(out@ =~= t@.take(i as int).map_values(|c: char| if c == ' ' { '_' } else { ascii_upper(c) }));
    }
    assert(t@.take(i as int) =~= t@);
    out
}

/// Maps an envelope message (see [`message_error`]).
pub fn error_from_message(message: &str) -> (r: ApiError)
    ensures
        r@ == message_error(message@),
{
    if let Some(e) = ApiError::from_code(message) {
        return e;
    }
    let m = chars_of(message);
    let token = normalize(&m);
    let t = crate::text::string_of(&token);
    match ApiError::from_code(t.as_str()) {
        Some(e) => {
            if matches!(e, ApiError::Other(_)) {
                ApiError::Other(owned(message))
            } else {
                e
            }
        },
        None => ApiError::Other(owned(message)),
    }
}

/// The error of an SMSBower envelope (see [`bower_envelope_error`]); `None` for anything else.
pub fn envelope_error(resp: &HttpResponse) -> (r: Option<ApiError>)
    ensures
        match r {
            Some(e) => bower_envelope_error(resp.status, resp.body@) == Some(e@),
            None => bower_envelope_error(resp.status, resp.body@) is None,
        },
{
    let b = trim_str(resp.body.as_str());
    let message = match envelope_message_of(&b) {
        Some(m) => m,
        None => {
            return None;
        },
    };
    let status = resp.status;
    if status == 401 || status == 403 {
        return Some(ApiError::BadKey);
    }
    if status == 429 {
        return Some(ApiError::RateLimited { retry_after: None });
    }
    let mc = chars_of(message.as_str());
    let no_access = chars_of("no access");
    if eq_ignore_case(&mc, &no_access) {
        return Some(ApiError::BadKey);
    }
    if !(200 <= status && status < 300) {
        return Some(ApiError::Http { status, body: message });
    }
    Some(error_from_message(message.as_str()))
}

/// SMSBower response classification (see [`bower_error`]).
pub fn classify(resp: &HttpResponse) -> (r: ApiResult<()>)
    ensures
        err_of(r) == bower_error(resp.status, resp.body@),
{
    match envelope_error(resp) {
        Some(e) => Err(e),
        None => classify_standard(resp),
    }
}

// ---------------------------------------------------------------------------
// getOperators

/// `getOperators` for SMSBower: `countryOperators` as PHP's empty array (an unknown country)
/// is an empty table; anything else goes by the standard reading.
pub open spec fn bower_operators_of(v: JsonView) -> Result<Map<CountryKey, Seq<Seq<char>>>, ErrorView> {
    if jget(v, "countryOperators"@) == Some(JsonView::Array(Seq::empty())) {
        Ok(Map::empty())
    } else {
        crate::protocol::operators_of(v)
    }
}

/// What SMSBower's [`parse_operators`] makes of an answer text.
pub open spec fn bower_operators_answer(body: Seq<char>, r: ApiResult<KeyMap<CountryRef, Vec<String>>>) -> bool {
    (match json_of_text(trim(body)) {
        None => r matches Err(e) && e@ is Parse,
        Some(v) => match r {
            Ok(t) => bower_operators_of(v) == Ok::<Map<CountryKey, Seq<Seq<char>>>, ErrorView>(
                crate::protocol::operators_view(t),
            ),
            Err(e) => bower_operators_of(v) == Err::<Map<CountryKey, Seq<Seq<char>>>, ErrorView>(e@),
        },
    })
}

/// `{"status":"success","countryOperators":{"187":["any","verizon"]}}` (see
/// [`bower_operators_of`]).
pub fn parse_operators(body: &str) -> (r: ApiResult<KeyMap<CountryRef, Vec<String>>>)
    ensures
        match json_of_text(trim(body@)) {
            None => r matches Err(e) && e@ is Parse,
            Some(v) => match r {
                Ok(t) => bower_operators_of(v) == Ok::<Map<CountryKey, Seq<Seq<char>>>, ErrorView>(
                    crate::protocol::operators_view(t),
                ),
                Err(e) => bower_operators_of(v) == Err::<Map<CountryKey, Seq<Seq<char>>>, ErrorView>(e@),
            },
        },
{
    let t = text(&trim_str(body));
    let v = match parse_json(t.as_str()) {
        Ok(v) => v,
        Err(e) => {
            return Err(e);
        },
    };
    if let Some(ops) = v.get("countryOperators") {
        if crate::json::is_empty_array(ops) {
            let empty: KeyMap<CountryRef, Vec<String>> = KeyMap::new();
            assert(crate::protocol::operators_view(empty) =~= Map::empty());
            return Ok(empty);
        }
    }
    crate::protocol::operators_from_json(&v)
}

// ---------------------------------------------------------------------------
// Country × service tables

/// `` bad country key `<key>` in <what> ``.
pub open spec fn bad_country(key: Seq<char>, what: Seq<char>) -> Seq<char> {
    "bad country key `"@ + key + "` in "@ + what
}

fn bad_country_message(key: &str, what: &str) -> (r: String)
    ensures
        r@ == bad_country(key@, what@),
{
    let mut m = String::new();
    crate::text::push_str(&mut m, "bad country key `");
    crate::text::push_str(&mut m, key);
    crate::text::push_str(&mut m, "` in ");
    crate::text::push_str(&mut m, what);
    m
}

/// `{"<country>":{"<service>":<cell>}}`: the id-less `""` row is skipped, every other country
/// key must be a country id, every row an object of cells read by `cell`; the first error stops
/// the walk.
pub open spec fn bower_table<C>(what: Seq<char>, es: Seq<(Seq<char>, JsonView)>, cell: spec_fn(JsonView) -> Result<C, ErrorView>) -> Result<Map<u32, Map<Seq<char>, C>>, ErrorView>
    decreases es.len(),
{
    if es.len() == 0 {
        Ok(Map::empty())
    } else {
        match bower_table(what, es.drop_last(), cell) {
            Err(e) => Err(e),
            Ok(m) => {
                let (country, services) = es.last();
                if country.len() == 0 {
                    Ok(m)
                } else {
                    match crate::num::parse_u32_spec(country) {
                        None => Err(ErrorView::Parse(bad_country(country, what))),
                        Some(id) => match services {
                            JsonView::Object(ses) => match crate::providers::tiger_sms::walk_rows(ses, cell) {
                                Err(e) => Err(e),
                                Ok(row) => Ok(m.insert(id, row)),
                            },
                            _ => Err(ErrorView::Parse(object_expected(what))),
                        },
                    }
                }
            },
        }
    }
}

/// A decoded country × service table (see [`bower_table`]); an empty array is an empty table.
pub open spec fn bower_walk<C>(v: JsonView, what: Seq<char>, cell: spec_fn(JsonView) -> Result<C, ErrorView>) -> Result<Map<u32, Map<Seq<char>, C>>, ErrorView> {
    if v == JsonView::Array(Seq::empty()) {
        Ok(Map::empty())
    } else {
        match v {
            JsonView::Object(es) => bower_table(what, es, cell),
            _ => Err(ErrorView::Parse(object_expected(what))),
        }
    }
}

proof fn lemma_bower_table_err<C>(what: Seq<char>, es: Seq<(Seq<char>, JsonView)>, cell: spec_fn(JsonView) -> Result<C, ErrorView>, k: int, e: ErrorView)
    requires
        0 <= k <= es.len(),
        bower_table(what, es.take(k), cell) == Err::<Map<u32, Map<Seq<char>, C>>, ErrorView>(e),
    ensures
        bower_table(what, es, cell) == Err::<Map<u32, Map<Seq<char>, C>>, ErrorView>(e),
    decreases es.len() - k,
{
    if k < es.len() {
        assert(es.take(k + 1).drop_last() =~= es.take(k));
        lemma_bower_table_err(what, es, cell, k + 1, e);
    } else {
        assert(es.take(k) =~= es);
    }
}

// ---------------------------------------------------------------------------
// getPricesV2

/// One bucket of the `getPricesV2` histogram: `count` numbers are on offer at exactly `price`.
#[derive(Clone, Copy, Debug, PartialEq, Eq, Structural)]
pub struct PriceBucket {
    pub price: Amount,
    pub count: u64,
}

/// `getPricesV2` result: country → service → buckets by ascending price.
pub type PriceHistogramTable = KeyMap<u32, KeyMap<ServiceCode, Vec<PriceBucket>>>;

/// `` bad price key `<key>` ``.
pub open spec fn bad_price(key: Seq<char>) -> Seq<char> {
    "bad price key `"@ + key + "`"@
}

/// The keyed buckets of a histogram, in document order: each key a price, each value a count
/// (0 when it is not one).
pub open spec fn histogram_rows(es: Seq<(Seq<char>, JsonView)>) -> Result<Seq<(u128, PriceBucket)>, ErrorView>
    decreases es.len(),
{
    if es.len() == 0 {
        Ok(Seq::empty())
    } else {
        match histogram_rows(es.drop_last()) {
            Err(e) => Err(e),
            Ok(r) => {
                let (key, count) = es.last();
                match decimal_units(trim(key)) {
                    None => Err(ErrorView::Parse(bad_price(key))),
                    Some(p) => {
                        let b = PriceBucket {
                            price: Amount { units: p as i128 },
                            count: match vu64(Some(count)) {
                                Some(c) => c,
                                None => 0,
                            },
                        };
                        Ok(r.push((crate::providers::hero_sms::amount_key(b.price), b)))
                    },
                }
            },
        }
    }
}

/// A `{"<price>":count,…}` cell → its buckets by ascending price (stable).
pub open spec fn histogram_cell(c: JsonView) -> Result<Seq<PriceBucket>, ErrorView> {
    match c {
        JsonView::Object(es) => match histogram_rows(es) {
            Err(e) => Err(e),
            Ok(rows) => Ok(crate::sorting::payloads(crate::sorting::sort_keyed(rows))),
        },
        _ => Err(ErrorView::Parse(object_expected("getPricesV2 histogram"@))),
    }
}

proof fn lemma_histogram_err(es: Seq<(Seq<char>, JsonView)>, k: int, e: ErrorView)
    requires
        0 <= k <= es.len(),
        histogram_rows(es.take(k)) == Err::<Seq<(u128, PriceBucket)>, ErrorView>(e),
    ensures
        histogram_rows(es) == Err::<Seq<(u128, PriceBucket)>, ErrorView>(e),
    decreases es.len() - k,
{
    if k < es.len() {
        assert(es.take(k + 1).drop_last() =~= es.take(k));
        lemma_histogram_err(es, k + 1, e);
    } else {
        assert(es.take(k) =~= es);
    }
}

fn histogram_from_json(c: &Json) -> (r: ApiResult<Vec<PriceBucket>>)
    ensures
        match r {
            Ok(b) => histogram_cell(c@) == Ok::<Seq<PriceBucket>, ErrorView>(b@),
            Err(e) => histogram_cell(c@) == Err::<Seq<PriceBucket>, ErrorView>(e@),
        },
{
    let es = match as_object(c, "getPricesV2 histogram") {
        Ok(es) => es,
        Err(e) => {
            return Err(e);
        },
    };
    let ghost vs = member_views(es@);
    let mut rows: Vec<(u128, PriceBucket)> = Vec::new();
    let mut i: usize = 0;
    assert(vs.take(0) =~= Seq::<(Seq<char>, JsonView)>::empty());
    while i < es.len()
        invariant
            i <= es@.len(),
            vs == member_views(es@),
            c@ == JsonView::Object(vs),
            histogram_rows(vs.take(i as int)) == Ok::<Seq<(u128, PriceBucket)>, ErrorView>(rows@),
        decreases es.len() - i,
    {
        proof {
            assert(vs.take(i + 1).drop_last() =~= vs.take(i as int));
            assert(vs.take(i + 1).last() == vs[i as int]);
        }
        let key = &es[i].0;
        let price = match crate::amount::parse_decimal(&trim_str(key.as_str())) {
            Some(p) => p,
            None => {
                let mut m = String::new();
                crate::text::push_str(&mut m, "bad price key `");
                crate::text::push_str(&mut m, key.as_str());
                crate::text::push_str(&mut m, "`");
                let e = ApiError::Parse(m);
                proof {
                    lemma_histogram_err(vs, i + 1, e@);
                }
                return Err(e);
            },
        };
        let count = match value_to_u64(Some(&es[i].1)) {
            Some(n) => n,
            None => 0,
        };
        let b = PriceBucket { price, count };
        rows.push((crate::providers::hero_sms::amount_key_exec(price), b));
        i = i + 1;
    }
    assert(vs.take(i as int) =~= vs);
    let sorted = crate::sorting::sort_by_key(rows);
    Ok(crate::sorting::strip_keys(sorted))
}

/// What a histogram table denotes.
pub open spec fn histogram_view(t: PriceHistogramTable) -> Map<u32, Map<Seq<char>, Seq<PriceBucket>>> {
    t@.map_values(|row: KeyMap<ServiceCode, Vec<PriceBucket>>| row@.map_values(|b: Vec<PriceBucket>| b@))
}

fn histogram_row(ses: &Vec<(String, Json)>) -> (r: ApiResult<KeyMap<ServiceCode, Vec<PriceBucket>>>)
    ensures
        match r {
            Ok(row) => crate::providers::tiger_sms::walk_rows(member_views(ses@), |c: JsonView| histogram_cell(c)) == Ok::<Map<Seq<char>, Seq<PriceBucket>>, ErrorView>(
                row@.map_values(|b: Vec<PriceBucket>| b@),
            ),
            Err(e) => crate::providers::tiger_sms::walk_rows(member_views(ses@), |c: JsonView| histogram_cell(c)) == Err::<Map<Seq<char>, Seq<PriceBucket>>, ErrorView>(e@),
        },
{
    let ghost cell = |c: JsonView| histogram_cell(c);
    let ghost rvs = member_views(ses@);
    let mut row: KeyMap<ServiceCode, Vec<PriceBucket>> = KeyMap::new();
    let mut j: usize = 0;
    assert(rvs.take(0) =~= Seq::<(Seq<char>, JsonView)>::empty());
    assert(row@.map_values(|b: Vec<PriceBucket>| b@) =~= Map::empty());
    while j < ses.len()
        invariant
            j <= ses@.len(),
            rvs == member_views(ses@),
            cell == (|c: JsonView| histogram_cell(c)),
            crate::providers::tiger_sms::walk_rows(rvs.take(j as int), cell) == Ok::<Map<Seq<char>, Seq<PriceBucket>>, ErrorView>(
                row@.map_values(|b: Vec<PriceBucket>| b@),
            ),
        decreases ses.len() - j,
    {
        proof {
            assert(rvs.take(j + 1).drop_last() =~= rvs.take(j as int));
            assert(rvs.take(j + 1).last() == rvs[j as int]);
        }
        let b = match histogram_from_json(&ses[j].1) {
            Ok(b) => b,
            Err(e) => {
                proof {
                    crate::providers::tiger_sms::lemma_walk_rows_err(rvs, cell, j + 1, e@);
                }
                return Err(e);
            },
        };
        let ghost before = row@;
        let ghost bv = b@;
        row.insert(ServiceCode(copy_string(&ses[j].0)), b);
        assert(row@.map_values(|b: Vec<PriceBucket>| b@) =~= before.map_values(|b: Vec<PriceBucket>| b@).insert(rvs[j as int].0, bv));
        j = j + 1;
    }
    assert(rvs.take(j as int) =~= rvs);
    Ok(row)
}

/// The histogram table of a decoded `getPricesV2` answer (see [`bower_walk`], [`histogram_cell`]).
pub fn prices_v2_from_json(v: &Json) -> (r: ApiResult<PriceHistogramTable>)
    ensures
        match r {
            Ok(t) => bower_walk(v@, "getPricesV2"@, |c: JsonView| histogram_cell(c)) == Ok::<Map<u32, Map<Seq<char>, Seq<PriceBucket>>>, ErrorView>(histogram_view(t)),
            Err(e) => bower_walk(v@, "getPricesV2"@, |c: JsonView| histogram_cell(c)) == Err::<Map<u32, Map<Seq<char>, Seq<PriceBucket>>>, ErrorView>(e@),
        },
{
    let ghost cell = |c: JsonView| histogram_cell(c);
    let mut table: PriceHistogramTable = KeyMap::new();
    assert(histogram_view(table) =~= Map::empty());
    if crate::json::is_empty_array(v) {
        return Ok(table);
    }
    let es = match as_object(v, "getPricesV2") {
        Ok(es) => es,
        Err(e) => {
            return Err(e);
        },
    };
    let ghost vs = member_views(es@);
    let mut i: usize = 0;
    assert(vs.take(0) =~= Seq::<(Seq<char>, JsonView)>::empty());
    while i < es.len()
        invariant
            i <= es@.len(),
            vs == member_views(es@),
            v@ == JsonView::Object(vs),
            cell == (|c: JsonView| histogram_cell(c)),
            bower_table("getPricesV2"@, vs.take(i as int), cell) == Ok::<Map<u32, Map<Seq<char>, Seq<PriceBucket>>>, ErrorView>(histogram_view(table)),
        decreases es.len() - i,
    {
        proof {
            assert(vs.take(i + 1).drop_last() =~= vs.take(i as int));
            assert(vs.take(i + 1).last() == vs[i as int]);
        }
        let country = &es[i].0;
        let cc = chars_of(country.as_str());
        if cc.len() == 0 {
            i = i + 1;
            continue;
        }
        let id = match crate::num::parse_u32(&cc) {
            Some(id) => id,
            None => {
                let e = ApiError::Parse(bad_country_message(country.as_str(), "getPricesV2"));
                proof {
                    lemma_bower_table_err("getPricesV2"@, vs, cell, i + 1, e@);
                }
                return Err(e);
            },
        };
        let ses = match as_object(&es[i].1, "getPricesV2") {
            Ok(x) => x,
            Err(e) => {
                proof {
                    lemma_bower_table_err("getPricesV2"@, vs, cell, i + 1, e@);
                }
                return Err(e);
            },
        };
        let row = match histogram_row(ses) {
            Ok(row) => row,
            Err(e) => {
                proof {
                    lemma_bower_table_err("getPricesV2"@, vs, cell, i + 1, e@);
                }
                return Err(e);
            },
        };
        let ghost before_t = table;
        let ghost row_v = row@.map_values(|b: Vec<PriceBucket>| b@);
        table.insert(id, row);
        assert(histogram_view(table) =~= histogram_view(before_t).insert(id, row_v));
        i = i + 1;
    }
    assert(vs.take(i as int) =~= vs);
    Ok(table)
}

/// `{"187":{"tg":{"0.683":22,"0.697":157,…}}}` → country → service → buckets by ascending
/// price (see [`prices_v2_from_json`]).
pub fn parse_prices_v2(body: &str) -> (r: ApiResult<PriceHistogramTable>)
    ensures
        match json_of_text(trim(body@)) {
            None => r matches Err(e) && e@ is Parse,
            Some(v) => match r {
                Ok(t) => bower_walk(v, "getPricesV2"@, |c: JsonView| histogram_cell(c)) == Ok::<Map<u32, Map<Seq<char>, Seq<PriceBucket>>>, ErrorView>(histogram_view(t)),
                Err(e) => bower_walk(v, "getPricesV2"@, |c: JsonView| histogram_cell(c)) == Err::<Map<u32, Map<Seq<char>, Seq<PriceBucket>>>, ErrorView>(e@),
            },
        },
{
    let t = text(&trim_str(body));
    match parse_json(t.as_str()) {
        Ok(v) => prices_v2_from_json(&v),
        Err(e) => Err(e),
    }
}

// ---------------------------------------------------------------------------
// getPricesV3

/// One upstream partner's offer from `getPricesV3`. `provider_id` is the value to pass to
/// [`SmsBowerRequestExt::provider_ids`] / [`SmsBowerRequestExt::except_provider_ids`].
#[derive(Clone, Debug, PartialEq)]
pub struct ProviderOffer {
    pub provider_id: String,
    pub price: Amount,
    pub count: u64,
}

impl View for ProviderOffer {
    type V = (Seq<char>, int, u64);

    open spec fn view(&self) -> (Seq<char>, int, u64) {
        (self.provider_id@, self.price.units as int, self.count)
    }
}

/// `getPricesV3` result: country → service → offers by ascending price, then provider id.
pub type ProviderOfferTable = KeyMap<u32, KeyMap<ServiceCode, Vec<ProviderOffer>>>;

/// Provider ids compare as numbers when both are `u64` texts, as text otherwise.
pub open spec fn id_le(a: Seq<char>, b: Seq<char>) -> bool {
    match (crate::num::parse_u64_spec(a), crate::num::parse_u64_spec(b)) {
        (Some(x), Some(y)) => x <= y,
        _ => crate::providers::tiger_sms::lex_le(a, b),
    }
}

/// Whether offer `a` may come before `b`: the cheaper first, then by provider id.
pub open spec fn offer_le(a: (Seq<char>, int, u64), b: (Seq<char>, int, u64)) -> bool {
    a.1 < b.1 || (a.1 == b.1 && id_le(a.0, b.0))
}

/// `s` with `x` inserted after the last offer that may come before it.
pub open spec fn insert_offer(s: Seq<(Seq<char>, int, u64)>, x: (Seq<char>, int, u64)) -> Seq<(Seq<char>, int, u64)>
    decreases s.len(),
{
    if s.len() == 0 {
        seq![x]
    } else if offer_le(s.last(), x) {
        s.push(x)
    } else {
        insert_offer(s.drop_last(), x).push(s.last())
    }
}

/// Stable insertion sort by [`offer_le`].
pub open spec fn sort_offers(s: Seq<(Seq<char>, int, u64)>) -> Seq<(Seq<char>, int, u64)>
    decreases s.len(),
{
    if s.len() == 0 {
        s
    } else {
        insert_offer(sort_offers(s.drop_last()), s.last())
    }
}

/// `missing price for provider <key>`.
pub open spec fn missing_price(key: Seq<char>) -> Seq<char> {
    "missing price for provider "@ + key
}

/// The offers of a cell in document order: `provider_id` (the member key when absent), the
/// price (required) and the count (0 when absent).
pub open spec fn offer_rows(es: Seq<(Seq<char>, JsonView)>) -> Result<Seq<(Seq<char>, int, u64)>, ErrorView>
    decreases es.len(),
{
    if es.len() == 0 {
        Ok(Seq::empty())
    } else {
        match offer_rows(es.drop_last()) {
            Err(e) => Err(e),
            Ok(r) => {
                let (key, offer) = es.last();
                match vamount(jget(offer, "price"@)) {
                    None => Err(ErrorView::Parse(missing_price(key))),
                    Some(p) => Ok(
                        r.push(
                            (
                                match vstring(jget(offer, "provider_id"@)) {
                                    Some(id) => id,
                                    None => key,
                                },
                                p,
                                match vu64(jget(offer, "count"@)) {
                                    Some(c) => c,
                                    None => 0,
                                },
                            ),
                        ),
                    ),
                }
            },
        }
    }
}

/// A `{"<partner>":{"price","count","provider_id"},…}` cell → its offers, sorted (stable) by
/// [`offer_le`].
pub open spec fn offers_cell(c: JsonView) -> Result<Seq<(Seq<char>, int, u64)>, ErrorView> {
    match c {
        JsonView::Object(es) => match offer_rows(es) {
            Err(e) => Err(e),
            Ok(rows) => Ok(sort_offers(rows)),
        },
        _ => Err(ErrorView::Parse(object_expected("getPricesV3 offers"@))),
    }
}

proof fn lemma_offer_rows_err(es: Seq<(Seq<char>, JsonView)>, k: int, e: ErrorView)
    requires
        0 <= k <= es.len(),
        offer_rows(es.take(k)) == Err::<Seq<(Seq<char>, int, u64)>, ErrorView>(e),
    ensures
        offer_rows(es) == Err::<Seq<(Seq<char>, int, u64)>, ErrorView>(e),
    decreases es.len() - k,
{
    if k < es.len() {
        assert(es.take(k + 1).drop_last() =~= es.take(k));
        lemma_offer_rows_err(es, k + 1, e);
    } else {
        assert(es.take(k) =~= es);
    }
}

proof fn lemma_insert_offer_at(s: Seq<(Seq<char>, int, u64)>, x: (Seq<char>, int, u64), k: int)
    requires
        0 <= k <= s.len(),
        forall|j: int| k <= j < s.len() ==> !offer_le(#[trigger] s[j], x),
        k == 0 || offer_le(s[k - 1], x),
    ensures
        insert_offer(s, x) == s.insert(k, x),
    decreases s.len(),
{
    if s.len() == 0 {
        assert(s.insert(k, x) =~= seq![x]);
    } else if offer_le(s.last(), x) {
        assert(k == s.len());
        assert(s.insert(k, x) =~= s.push(x));
    } else {
        assert forall|j: int| k <= j < s.drop_last().len() implies !offer_le(#[trigger] s.drop_last()[j], x) by {
            assert(s.drop_last()[j] == s[j]);
        }
        if k > 0 {
            assert(s.drop_last()[k - 1] == s[k - 1]);
        }
        lemma_insert_offer_at(s.drop_last(), x, k);
        assert(s.drop_last().insert(k, x).push(s.last()) =~= s.insert(k, x));
    }
}

fn id_le_exec(a: &String, b: &String) -> (r: bool)
    ensures
        r == id_le(a@, b@),
{
    let ac = chars_of(a.as_str());
    let bc = chars_of(b.as_str());
    match (crate::num::parse_u64(&ac), crate::num::parse_u64(&bc)) {
        (Some(x), Some(y)) => x <= y,
        _ => crate::providers::tiger_sms::lex_le_exec(&ac, &bc),
    }
}

fn offer_le_exec(a: &ProviderOffer, b: &ProviderOffer) -> (r: bool)
    ensures
        r == offer_le(a@, b@),
{
    if a.price.units < b.price.units {
        return true;
    }
    if a.price.units > b.price.units {
        return false;
    }
    id_le_exec(&a.provider_id, &b.provider_id)
}

fn offers_from_json(c: &Json) -> (r: ApiResult<Vec<ProviderOffer>>)
    ensures
        match r {
            Ok(o) => offers_cell(c@) == Ok::<Seq<(Seq<char>, int, u64)>, ErrorView>(crate::error::seq_views(o@)),
            Err(e) => offers_cell(c@) == Err::<Seq<(Seq<char>, int, u64)>, ErrorView>(e@),
        },
{
    let es = match as_object(c, "getPricesV3 offers") {
        Ok(es) => es,
        Err(e) => {
            return Err(e);
        },
    };
    let ghost vs = member_views(es@);
    let mut out: Vec<ProviderOffer> = Vec::new();
    let ghost mut rows: Seq<(Seq<char>, int, u64)> = Seq::empty();
    let mut i: usize = 0;
    assert(vs.take(0) =~= Seq::<(Seq<char>, JsonView)>::empty());
    assert(crate::error::seq_views(out@) =~= Seq::<(Seq<char>, int, u64)>::empty());
    while i < es.len()
        invariant
            i <= es@.len(),
            vs == member_views(es@),
            c@ == JsonView::Object(vs),
            offer_rows(vs.take(i as int)) == Ok::<Seq<(Seq<char>, int, u64)>, ErrorView>(rows),
            crate::error::seq_views(out@) == sort_offers(rows),
        decreases es.len() - i,
    {
        proof {
            assert(vs.take(i + 1).drop_last() =~= vs.take(i as int));
            assert(vs.take(i + 1).last() == vs[i as int]);
        }
        let key = &es[i].0;
        let offer = &es[i].1;
        let price = match value_to_amount(offer.get("price")) {
            Some(p) => p,
            None => {
                let mut m = String::new();
                crate::text::push_str(&mut m, "missing price for provider ");
                crate::text::push_str(&mut m, key.as_str());
                let e = ApiError::Parse(m);
                proof {
                    lemma_offer_rows_err(vs, i + 1, e@);
                }
                return Err(e);
            },
        };
        let provider_id = match value_to_string(offer.get("provider_id")) {
            Some(id) => id,
            None => copy_string(key),
        };
        let count = match value_to_u64(offer.get("count")) {
            Some(n) => n,
            None => 0,
        };
        let o = ProviderOffer { provider_id, price, count };
        let ghost x = o@;
        let ghost old_rows = rows;
        proof {
            rows = rows.push(x);
            assert(rows.drop_last() =~= old_rows);
            assert(sort_offers(rows) == insert_offer(sort_offers(old_rows), x));
        }
        let mut k = out.len();
        while k > 0 && !offer_le_exec(&out[k - 1], &o)
            invariant
                k <= out@.len(),
                forall|j: int| k <= j < out@.len() ==> !offer_le(#[trigger] crate::error::seq_views(out@)[j], x),
                x == o@,
            decreases k,
        {
            k = k - 1;
        }
        let ghost before = crate::error::seq_views(out@);
        proof {
            if k > 0 {
                assert(before[k - 1] == out@[k - 1]@);
            }
            lemma_insert_offer_at(before, x, k as int);
        }
        out.insert(k, o);
        assert(crate::error::seq_views(out@) =~= before.insert(k as int, x));
        i = i + 1;
    }
    assert(vs.take(i as int) =~= vs);
    Ok(out)
}

/// What an offer table denotes.
pub open spec fn offer_table_view(t: ProviderOfferTable) -> Map<u32, Map<Seq<char>, Seq<(Seq<char>, int, u64)>>> {
    t@.map_values(|row: KeyMap<ServiceCode, Vec<ProviderOffer>>| row@.map_values(|b: Vec<ProviderOffer>| crate::error::seq_views(b@)))
}

fn offer_row(ses: &Vec<(String, Json)>) -> (r: ApiResult<KeyMap<ServiceCode, Vec<ProviderOffer>>>)
    ensures
        match r {
            Ok(row) => crate::providers::tiger_sms::walk_rows(member_views(ses@), |c: JsonView| offers_cell(c)) == Ok::<Map<Seq<char>, Seq<(Seq<char>, int, u64)>>, ErrorView>(
                row@.map_values(|b: Vec<ProviderOffer>| crate::error::seq_views(b@)),
            ),
            Err(e) => crate::providers::tiger_sms::walk_rows(member_views(ses@), |c: JsonView| offers_cell(c)) == Err::<Map<Seq<char>, Seq<(Seq<char>, int, u64)>>, ErrorView>(e@),
        },
{
    let ghost cell = |c: JsonView| offers_cell(c);
    let ghost rvs = member_views(ses@);
    let mut row: KeyMap<ServiceCode, Vec<ProviderOffer>> = KeyMap::new();
    let mut j: usize = 0;
    assert(rvs.take(0) =~= Seq::<(Seq<char>, JsonView)>::empty());
    assert(row@.map_values(|b: Vec<ProviderOffer>| crate::error::seq_views(b@)) =~= Map::empty());
    while j < ses.len()
        invariant
            j <= ses@.len(),
            rvs == member_views(ses@),
            cell == (|c: JsonView| offers_cell(c)),
            crate::providers::tiger_sms::walk_rows(rvs.take(j as int), cell) == Ok::<Map<Seq<char>, Seq<(Seq<char>, int, u64)>>, ErrorView>(
                row@.map_values(|b: Vec<ProviderOffer>| crate::error::seq_views(b@)),
            ),
        decreases ses.len() - j,
    {
        proof {
            assert(rvs.take(j + 1).drop_last() =~= rvs.take(j as int));
            assert(rvs.take(j + 1).last() == rvs[j as int]);
        }
        let b = match offers_from_json(&ses[j].1) {
            Ok(b) => b,
            Err(e) => {
                proof {
                    crate::providers::tiger_sms::lemma_walk_rows_err(rvs, cell, j + 1, e@);
                }
                return Err(e);
            },
        };
        let ghost before = row@;
        let ghost bv = crate::error::seq_views(b@);
        row.insert(ServiceCode(copy_string(&ses[j].0)), b);
        assert(row@.map_values(|b: Vec<ProviderOffer>| crate::error::seq_views(b@)) =~= before.map_values(|b: Vec<ProviderOffer>| crate::error::seq_views(b@)).insert(rvs[j as int].0, bv));
        j = j + 1;
    }
    assert(rvs.take(j as int) =~= rvs);
    Ok(row)
}

/// The offer table of a decoded `getPricesV3` answer (see [`bower_walk`], [`offers_cell`]).
pub fn prices_v3_from_json(v: &Json) -> (r: ApiResult<ProviderOfferTable>)
    ensures
        match r {
            Ok(t) => bower_walk(v@, "getPricesV3"@, |c: JsonView| offers_cell(c)) == Ok::<Map<u32, Map<Seq<char>, Seq<(Seq<char>, int, u64)>>>, ErrorView>(offer_table_view(t)),
            Err(e) => bower_walk(v@, "getPricesV3"@, |c: JsonView| offers_cell(c)) == Err::<Map<u32, Map<Seq<char>, Seq<(Seq<char>, int, u64)>>>, ErrorView>(e@),
        },
{
    let ghost cell = |c: JsonView| offers_cell(c);
    let mut table: ProviderOfferTable = KeyMap::new();
    assert(offer_table_view(table) =~= Map::empty());
    if crate::json::is_empty_array(v) {
        return Ok(table);
    }
    let es = match as_object(v, "getPricesV3") {
        Ok(es) => es,
        Err(e) => {
            return Err(e);
        },
    };
    let ghost vs = member_views(es@);
    let mut i: usize = 0;
    assert(vs.take(0) =~= Seq::<(Seq<char>, JsonView)>::empty());
    while i < es.len()
        invariant
            i <= es@.len(),
            vs == member_views(es@),
            v@ == JsonView::Object(vs),
            cell == (|c: JsonView| offers_cell(c)),
            bower_table("getPricesV3"@, vs.take(i as int), cell) == Ok::<Map<u32, Map<Seq<char>, Seq<(Seq<char>, int, u64)>>>, ErrorView>(offer_table_view(table)),
        decreases es.len() - i,
    {
        proof {
            assert(vs.take(i + 1).drop_last() =~= vs.take(i as int));
            assert(vs.take(i + 1).last() == vs[i as int]);
        }
        let country = &es[i].0;
        let cc = chars_of(country.as_str());
        if cc.len() == 0 {
            i = i + 1;
            continue;
        }
        let id = match crate::num::parse_u32(&cc) {
            Some(id) => id,
            None => {
                let e = ApiError::Parse(bad_country_message(country.as_str(), "getPricesV3"));
                proof {
                    lemma_bower_table_err("getPricesV3"@, vs, cell, i + 1, e@);
                }
                return Err(e);
            },
        };
        let ses = match as_object(&es[i].1, "getPricesV3") {
            Ok(x) => x,
            Err(e) => {
                proof {
                    lemma_bower_table_err("getPricesV3"@, vs, cell, i + 1, e@);
                }
                return Err(e);
            },
        };
        let row = match offer_row(ses) {
            Ok(row) => row,
            Err(e) => {
                proof {
                    lemma_bower_table_err("getPricesV3"@, vs, cell, i + 1, e@);
                }
                return Err(e);
            },
        };
        let ghost before_t = table;
        let ghost row_v = row@.map_values(|b: Vec<ProviderOffer>| crate::error::seq_views(b@));
        table.insert(id, row);
        assert(offer_table_view(table) =~= offer_table_view(before_t).insert(id, row_v));
        i = i + 1;
    }
    assert(vs.take(i as int) =~= vs);
    Ok(table)
}

/// `{"187":{"tg":{"2263":{"count":98,"price":2.592,"provider_id":2263},…}}}` → country →
/// service → offers by ascending price, then provider id (see [`prices_v3_from_json`]).
pub fn parse_prices_v3(body: &str) -> (r: ApiResult<ProviderOfferTable>)
    ensures
        match json_of_text(trim(body@)) {
            None => r matches Err(e) && e@ is Parse,
            Some(v) => match r {
                Ok(t) => bower_walk(v, "getPricesV3"@, |c: JsonView| offers_cell(c)) == Ok::<Map<u32, Map<Seq<char>, Seq<(Seq<char>, int, u64)>>>, ErrorView>(offer_table_view(t)),
                Err(e) => bower_walk(v, "getPricesV3"@, |c: JsonView| offers_cell(c)) == Err::<Map<u32, Map<Seq<char>, Seq<(Seq<char>, int, u64)>>>, ErrorView>(e@),
            },
        },
{
    let t = text(&trim_str(body));
    match parse_json(t.as_str()) {
        Ok(v) => prices_v3_from_json(&v),
        Err(e) => Err(e),
    }
}

// ---------------------------------------------------------------------------
// Request helpers

/// `extra` with `key` set to `value`; an empty value only removes `key` (an empty filter is
/// never sent).
pub open spec fn bower_extra(extra: Seq<(Seq<char>, Seq<char>)>, key: Seq<char>, value: Seq<char>) -> Seq<(Seq<char>, Seq<char>)> {
    if value.len() == 0 {
        crate::providers::hero_sms::without_key(extra, key)
    } else {
        crate::providers::hero_sms::without_key(extra, key).push((key, value))
    }
}

/// The request with `key` replaced (see [`bower_extra`]).
fn set_extra(req: NumberRequest, key: &str, value: String) -> (r: NumberRequest)
    ensures
        r@ == (RequestParams { extra: bower_extra(req@.extra, key@, value@), ..req@ }),
{
    let mut req = req;
    crate::providers::hero_sms::remove_param(&mut req.extra, key);
    let ghost mid = pairs_view(req.extra@);
    let vc = chars_of(value.as_str());
    if vc.len() > 0 {
        req.extra.push((owned(key), value));
        assert(pairs_view(req.extra@) =~= mid.push((key@, vc@)));
    }
    req
}

/// The texts of a list of string slices.
pub open spec fn texts_of(items: Seq<&str>) -> Seq<Seq<char>> {
    items.map_values(|t: &str| t@)
}

/// Items joined with commas (`2263,3170`).
fn join_csv(items: &[&str]) -> (r: String)
    ensures
        r@ == crate::providers::hero_sms::joined(texts_of(items@), ','),
{
    let mut texts: Vec<String> = Vec::new();
    let mut i: usize = 0;
    while i < items.len()
        invariant
            i <= items@.len(),
            crate::error::seq_views(texts@) == texts_of(items@.take(i as int)),
        decreases items.len() - i,
    {
        let ghost before = texts@;
        texts.push(owned(items[i]));
        assert(crate::error::seq_views(texts@) =~= crate::error::seq_views(before).push(items@[i as int]@));
        i = i + 1;
        assert(texts_of(items@.take(i as int)) =~= texts_of(items@.take(i - 1)).push(items@[i - 1]@));
    }
    assert(items@.take(i as int) =~= items@);
    crate::providers::hero_sms::join_with(&texts, ',')
}

/// Builder helpers for the SMSBower-specific `getNumber` / `getNumberV2` parameters. Each call
/// replaces a previously set value of the same parameter; an empty list (or empty text) removes
/// the parameter instead of sending `providerIds=` — this is a paid request, so "empty" means
/// "no filter".
pub trait SmsBowerRequestExt: Sized {
    /// `providerIds` — only buy from these upstream partners (see [`ProviderOffer::provider_id`]).
    fn provider_ids(self, ids: &[&str]) -> Self;

    /// `exceptProviderIds` — never buy from these upstream partners.
    fn except_provider_ids(self, ids: &[&str]) -> Self;

    /// `phoneException` — number prefixes to avoid: country code followed by 3–6 digits of the
    /// mask (`7918`, `7900111`).
    fn phone_exception(self, prefixes: &[&str]) -> Self;

    /// `ref` — referral id.
    fn referral(self, referral_id: &str) -> Self;

    /// `userID` — reseller sub-user id.
    fn user_id(self, user_id: &str) -> Self;
}

impl SmsBowerRequestExt for NumberRequest {
    fn provider_ids(self, ids: &[&str]) -> (r: Self)
        ensures
            r@ == (RequestParams {
                extra: bower_extra(self@.extra, params::PROVIDER_IDS@, crate::providers::hero_sms::joined(texts_of(ids@), ',')),
                ..self@
            }),
    {
        let v = join_csv(ids);
        set_extra(self, params::PROVIDER_IDS, v)
    }

    fn except_provider_ids(self, ids: &[&str]) -> (r: Self)
        ensures
            r@ == (RequestParams {
                extra: bower_extra(self@.extra, params::EXCEPT_PROVIDER_IDS@, crate::providers::hero_sms::joined(texts_of(ids@), ',')),
                ..self@
            }),
    {
        let v = join_csv(ids);
        set_extra(self, params::EXCEPT_PROVIDER_IDS, v)
    }

    fn phone_exception(self, prefixes: &[&str]) -> (r: Self)
        ensures
            r@ == (RequestParams {
                extra: bower_extra(self@.extra, params::PHONE_EXCEPTION@, crate::providers::hero_sms::joined(texts_of(prefixes@), ',')),
                ..self@
            }),
    {
        let v = join_csv(prefixes);
        set_extra(self, params::PHONE_EXCEPTION, v)
    }

    fn referral(self, referral_id: &str) -> (r: Self)
        ensures
            r@ == (RequestParams { extra: bower_extra(self@.extra, params::REF@, referral_id@), ..self@ }),
    {
        set_extra(self, params::REF, owned(referral_id))
    }

    fn user_id(self, user_id: &str) -> (r: Self)
        ensures
            r@ == (RequestParams { extra: bower_extra(self@.extra, params::USER_ID@, user_id@), ..self@ }),
    {
        set_extra(self, params::USER_ID, owned(user_id))
    }
}

// ---------------------------------------------------------------------------
// Dialect and client

/// The SMSBower dialect.
#[derive(Clone, Debug)]
pub struct SmsBowerDialect;

impl Default for SmsBowerDialect {
    fn default() -> (r: Self)
        ensures
            r == SmsBowerDialect,
    {
        SmsBowerDialect
    }
}

impl Dialect for SmsBowerDialect {
    open spec fn caps(&self) -> Capabilities {
        bower_caps()
    }

    fn name(&self) -> (r: &'static str)
        ensures
            r@ == "SMSBower"@,
    {
        "SMSBower"
    }

    fn endpoint(&self) -> (r: &str)
        ensures
            r@ == ENDPOINT@,
    {
        ENDPOINT
    }

    fn capabilities(&self) -> (r: Capabilities) {
        capabilities()
    }

    fn classify(&self, resp: &HttpResponse) -> (r: ApiResult<()>)
        ensures
            err_of(r) == bower_error(resp.status, resp.body@),
    {
        classify(resp)
    }

    fn parse_top_countries(&self, body: &str) -> ApiResult<Vec<TopCountry>> {
        parse_top_countries_by_slug(body)
    }

    fn parse_operators(&self, body: &str) -> ApiResult<KeyMap<CountryRef, Vec<String>>> {
        parse_operators(body)
    }

    open spec fn error_of(&self, status: u16, body: Seq<char>) -> Option<ErrorView> {
        bower_error(status, body)
    }

    open spec fn top_countries_answer(&self, body: Seq<char>, r: ApiResult<Vec<TopCountry>>) -> bool {
        top_by_slug_answer(body, r)
    }

    open spec fn operators_answer(&self, body: Seq<char>, r: ApiResult<KeyMap<CountryRef, Vec<String>>>) -> bool {
        bower_operators_answer(body, r)
    }

    fn parse_balance(&self, body: &str) -> ApiResult<crate::amount::Amount> {
        crate::protocol::parse_balance(body)
    }

    fn parse_activation(&self, body: &str) -> ApiResult<crate::types::Activation> {
        crate::protocol::parse_activation_v2(body)
    }

    fn parse_status(&self, body: &str) -> ApiResult<crate::types::ActivationStatus> {
        crate::protocol::parse_status(body)
    }

    fn parse_set_status(&self, body: &str) -> ApiResult<crate::types::StatusAck> {
        crate::protocol::parse_set_status(body)
    }

    fn parse_prices(&self, body: &str) -> ApiResult<crate::types::PriceTable> {
        crate::protocol::parse_prices(body)
    }

    fn parse_services(&self, body: &str) -> ApiResult<Vec<crate::types::Service>> {
        crate::protocol::parse_services(body)
    }

    fn parse_countries(&self, body: &str) -> ApiResult<Vec<crate::types::Country>> {
        crate::protocol::parse_countries(body)
    }

    fn parse_numbers_status(&self, body: &str) -> ApiResult<crate::keymap::KeyMap<crate::types::ServiceCode, u64>> {
        crate::protocol::parse_numbers_status(body)
    }

    fn parse_active_activations(&self, body: &str) -> ApiResult<Vec<crate::types::ActiveActivation>> {
        crate::protocol::parse_active_activations(body)
    }


    open spec fn handler_url(&self) -> Seq<char> {
        ENDPOINT@
    }


    fn adjust_params(&self, action: &str, params: &mut Vec<(String, String)>) {
    }


    open spec fn name_text(&self) -> Seq<char> {
        "SMSBower"@
    }

}

/// `Client` over the SMSBower dialect.
pub type SmsBower<T> = Client<T, SmsBowerDialect>;

/// What [`Client::get_prices_v2`] makes of the answer `ans`.
pub open spec fn prices_v2_read(ans: Seq<char>, r: ApiResult<PriceHistogramTable>) -> bool {
    match json_of_text(trim(ans)) {
        None => r matches Err(e) && e@ is Parse,
        Some(v) => match r {
            Ok(t) => bower_walk(v, "getPricesV2"@, |c: JsonView| histogram_cell(c)) == Ok::<Map<u32, Map<Seq<char>, Seq<PriceBucket>>>, ErrorView>(histogram_view(t)),
            Err(e) => bower_walk(v, "getPricesV2"@, |c: JsonView| histogram_cell(c)) == Err::<Map<u32, Map<Seq<char>, Seq<PriceBucket>>>, ErrorView>(e@),
        },
    }
}

/// What [`Client::get_prices_v3`] makes of the answer `ans`.
pub open spec fn prices_v3_read(ans: Seq<char>, r: ApiResult<ProviderOfferTable>) -> bool {
    match json_of_text(trim(ans)) {
        None => r matches Err(e) && e@ is Parse,
        Some(v) => match r {
            Ok(t) => bower_walk(v, "getPricesV3"@, |c: JsonView| offers_cell(c)) == Ok::<Map<u32, Map<Seq<char>, Seq<(Seq<char>, int, u64)>>>, ErrorView>(offer_table_view(t)),
            Err(e) => bower_walk(v, "getPricesV3"@, |c: JsonView| offers_cell(c)) == Err::<Map<u32, Map<Seq<char>, Seq<(Seq<char>, int, u64)>>>, ErrorView>(e@),
        },
    }
}

impl<T: Transport> Client<T, SmsBowerDialect> {
    /// `getPricesV2` — how many numbers are available at each distinct price. Omit both filters
    /// to get every country and service (a large answer). An unknown service or country is
    /// [`ApiError::BadService`] / [`ApiError::BadCountry`], never an empty table.
    pub fn get_prices_v2(&self, service: Option<&ServiceCode>, country: Option<CountryId>) -> (r: ApiResult<PriceHistogramTable>)
        ensures
            self.answered(
                "getPricesV2"@,
                crate::providers::tiger_sms::price_query(match service { Some(s) => Some(s@), None => None }, country),
                r,
                |ans: Seq<char>| prices_v2_read(ans, r),
            ),
    {
                let params = crate::providers::tiger_sms::price_params(service, country);
        let ghost q = pairs_view(params@);
        assert(q =~= crate::providers::tiger_sms::price_query(match service { Some(s) => Some(s@), None => None }, country));
        let sent = self.call("getPricesV2", params);
        let ghost sent_v = sent;
        let body = match sent {
            Ok(b) => b,
            Err(e) => {
                let r = Err(e);
                proof {
                    self.lemma_error_handed_on(
                        "getPricesV2"@,
                        q,
                        sent_v,
                        r,
                        |ans: Seq<char>| prices_v2_read(ans, r),
                    );
                }
                return r;
            },
        };
        let r = parse_prices_v2(body.as_str());
        proof {
            self.lemma_body_read("getPricesV2"@, q, sent_v, r, |ans: Seq<char>| prices_v2_read(ans, r));
        }
        r
    }

    /// `getPricesV3` — price and stock per upstream partner (the ids usable with `providerIds` /
    /// `exceptProviderIds`). An unknown service or country is the plain token `BAD_SERVICE` /
    /// `BAD_COUNTRY`.
    pub fn get_prices_v3(&self, service: Option<&ServiceCode>, country: Option<CountryId>) -> (r: ApiResult<ProviderOfferTable>)
        ensures
            self.answered(
                "getPricesV3"@,
                crate::providers::tiger_sms::price_query(match service { Some(s) => Some(s@), None => None }, country),
                r,
                |ans: Seq<char>| prices_v3_read(ans, r),
            ),
    {
                let params = crate::providers::tiger_sms::price_params(service, country);
        let ghost q = pairs_view(params@);
        assert(q =~= crate::providers::tiger_sms::price_query(match service { Some(s) => Some(s@), None => None }, country));
        let sent = self.call("getPricesV3", params);
        let ghost sent_v = sent;
        let body = match sent {
            Ok(b) => b,
            Err(e) => {
                let r = Err(e);
                proof {
                    self.lemma_error_handed_on(
                        "getPricesV3"@,
                        q,
                        sent_v,
                        r,
                        |ans: Seq<char>| prices_v3_read(ans, r),
                    );
                }
                return r;
            },
        };
        let r = parse_prices_v3(body.as_str());
        proof {
            self.lemma_body_read("getPricesV3"@, q, sent_v, r, |ans: Seq<char>| prices_v3_read(ans, r));
        }
        r
    }
}

// ---------------------------------------------------------------------------
// getTopCountriesByService: rows in document order

/// One character of the lexical scan behind [`crate::providers::hero_sms::scan`]: bracket depth,
/// inside a string literal, after a backslash in one.
pub open spec fn scan_step(st: (int, bool, bool), c: char) -> (int, bool, bool) {
    let (d, in_string, escaped) = st;
    if in_string {
        if escaped {
            (d, true, false)
        } else if c == '\\' {
            (d, true, true)
        } else if c == '"' {
            (d, false, false)
        } else {
            (d, true, false)
        }
    } else if c == '"' {
        (d, true, false)
    } else if c == '{' || c == '[' {
        (d + 1, false, false)
    } else if c == '}' || c == ']' {
        (d - 1, false, false)
    } else {
        (d, false, false)
    }
}

proof fn lemma_scan_push(b: Seq<char>, i: int)
    requires
        0 <= i < b.len(),
    ensures
        crate::providers::hero_sms::scan(b.take(i + 1)) == scan_step(crate::providers::hero_sms::scan(b.take(i)), b[i]),
{
    assert(b.take(i + 1).drop_last() =~= b.take(i));
    assert(b.take(i + 1).last() == b[i]);
}

proof fn lemma_scan_depth(b: Seq<char>, i: int)
    requires
        0 <= i <= b.len(),
    ensures
        -i <= crate::providers::hero_sms::scan(b.take(i)).0 <= i,
    decreases i,
{
    if i > 0 {
        lemma_scan_depth(b, i - 1);
        lemma_scan_push(b, i - 1);
    } else {
        assert(b.take(0) =~= Seq::<char>::empty());
    }
}

/// The index of the quote that closes a string literal, searching from `q` (the text's length
/// when it is never closed).
pub open spec fn close_from(b: Seq<char>, q: int) -> int
    decreases b.len() - q,
{
    if q < 0 || q >= b.len() {
        b.len() as int
    } else if !crate::providers::hero_sms::scan(b.take(q + 1)).1 {
        q
    } else {
        close_from(b, q + 1)
    }
}

/// The first index from `q` on that is not whitespace (the text's length when there is none).
pub open spec fn skip_ws_from(b: Seq<char>, q: int) -> int
    decreases b.len() - q,
{
    if q < 0 || q >= b.len() {
        b.len() as int
    } else if crate::text::is_ws(b[q]) {
        skip_ws_from(b, q + 1)
    } else {
        q
    }
}

/// Position `p` opens an object key at bracket depth `d`: a string literal starts there, outside
/// any other literal, and the first thing after it is `:`.
pub open spec fn is_key_at(b: Seq<char>, p: int, d: int) -> bool {
    &&& 0 <= p < b.len()
    &&& b[p] == '"'
    &&& crate::providers::hero_sms::scan(b.take(p)) == (d, false, false)
    &&& close_from(b, p + 1) < b.len()
    &&& skip_ws_from(b, close_from(b, p + 1) + 1) < b.len()
    &&& b[skip_ws_from(b, close_from(b, p + 1) + 1)] == ':'
}

/// The text of the key whose literal starts at `p`, as serde_json decodes the literal.
pub open spec fn key_text(b: Seq<char>, p: int) -> Option<Seq<char>> {
    match json_of_text(b.subrange(p, close_from(b, p + 1) + 1)) {
        Some(JsonView::Str(k)) => Some(k),
        _ => None,
    }
}

/// One row of `getTopCountriesByService`: the country slug, the partner id and that partner's
/// offer (price and count, 0 when absent).
pub open spec fn slug_row(slug: Seq<char>, partner: Seq<char>, offer: Option<JsonView>) -> TopCountryView {
    TopCountryView {
        country: CountryKey::Slug(slug),
        price: match vamount(crate::json::oget(offer, "price"@)) {
            Some(p) => p,
            None => 0,
        },
        retail_price: None,
        count: match vu64(crate::json::oget(offer, "count"@)) {
            Some(c) => c,
            None => 0,
        },
        provider_id: Some(partner),
    }
}

/// The rows found reading the text `b` (decoded as `v`) up to position `i`, with the country
/// being read: each top-level key starts a country, each key one level below it adds a row for
/// that country and partner, in the order they are written.
pub open spec fn rows_upto(b: Seq<char>, v: JsonView, i: int) -> (Option<Seq<char>>, Seq<TopCountryView>)
    decreases i,
{
    if i <= 0 {
        (None, Seq::empty())
    } else {
        let (cur, rows) = rows_upto(b, v, i - 1);
        let p = i - 1;
        if is_key_at(b, p, 1) {
            (key_text(b, p), rows)
        } else if is_key_at(b, p, 2) {
            match (cur, key_text(b, p)) {
                (Some(slug), Some(partner)) => (cur, rows.push(slug_row(slug, partner, crate::json::oget(jget(v, slug), partner)))),
                _ => (cur, rows),
            }
        } else {
            (cur, rows)
        }
    }
}

/// The accepted shape: an object whose members are objects or empty arrays, or an empty array.
pub open spec fn slug_shape(v: JsonView) -> bool {
    ||| v == JsonView::Array(Seq::empty())
    ||| (v matches JsonView::Object(es) && forall|i: int|
        0 <= i < es.len() ==> ((#[trigger] es[i]).1 is Object || es[i].1 == JsonView::Array(Seq::empty())))
}

fn check_slug_shape(v: &Json) -> (r: bool)
    ensures
        r == slug_shape(v@),
{
    if crate::json::is_empty_array(v) {
        return true;
    }
    let es = match v {
        Json::Object(es) => es,
        _ => {
            return false;
        },
    };
    proof {
        crate::json::lemma_object_view(*es);
    }
    let ghost vs = member_views(es@);
    let mut i: usize = 0;
    while i < es.len()
        invariant
            i <= es@.len(),
            vs == member_views(es@),
            v@ == JsonView::Object(vs),
            forall|j: int| 0 <= j < i ==> ((#[trigger] vs[j]).1 is Object || vs[j].1 == JsonView::Array(Seq::empty())),
        decreases es.len() - i,
    {
        let ok = match &es[i].1 {
            Json::Object(_) => true,
            other => crate::json::is_empty_array(other),
        };
        if !ok {
            assert(!(vs[i as int].1 is Object || vs[i as int].1 == JsonView::Array(Seq::empty())));
            return false;
        }
        i = i + 1;
    }
    true
}

fn scan_step_exec(d: i128, in_string: bool, escaped: bool, c: char) -> (r: (i128, bool, bool))
    requires
        -0x1_0000_0000_0000_0000_0000 < d < 0x1_0000_0000_0000_0000_0000,
    ensures
        (r.0 as int, r.1, r.2) == scan_step((d as int, in_string, escaped), c),
{
    if in_string {
        if escaped {
            (d, true, false)
        } else if c == '\\' {
            (d, true, true)
        } else if c == '"' {
            (d, false, false)
        } else {
            (d, true, false)
        }
    } else if c == '"' {
        (d, true, false)
    } else if c == '{' || c == '[' {
        (d + 1, false, false)
    } else if c == '}' || c == ']' {
        (d - 1, false, false)
    } else {
        (d, false, false)
    }
}

/// The closing quote of the string literal being read at `from` (see [`close_from`]).
fn string_close(b: &[char], from: usize, d: i128, in_string: bool, escaped: bool) -> (q: usize)
    requires
        from <= b@.len(),
        crate::providers::hero_sms::scan(b@.take(from as int)) == (d as int, in_string, escaped),
        in_string,
    ensures
        q as int == close_from(b@, from as int),
        from <= q <= b@.len(),
{
    let mut j = from;
    let mut d = d;
    let mut ins = in_string;
    let mut esc = escaped;
    proof {
        lemma_scan_depth(b@, from as int);
    }
    while j < b.len()
        invariant
            from <= j <= b@.len(),
            crate::providers::hero_sms::scan(b@.take(j as int)) == (d as int, ins, esc),
            -(j as int) <= d <= j as int,
            ins,
            close_from(b@, from as int) == close_from(b@, j as int),
        decreases b.len() - j,
    {
        proof {
            lemma_scan_push(b@, j as int);
        }
        let (d2, ins2, esc2) = scan_step_exec(d, ins, esc, b[j]);
        if !ins2 {
            return j;
        }
        d = d2;
        ins = ins2;
        esc = esc2;
        j = j + 1;
    }
    j
}

/// The first non-whitespace index from `q` on (see [`skip_ws_from`]).
fn skip_ws(b: &[char], q: usize) -> (n: usize)
    requires
        q <= b@.len(),
    ensures
        n as int == skip_ws_from(b@, q as int),
        n <= b@.len(),
{
    let mut n = q;
    while n < b.len() && crate::text::is_whitespace(b[n])
        invariant
            q <= n <= b@.len(),
            skip_ws_from(b@, q as int) == skip_ws_from(b@, n as int),
        decreases b.len() - n,
    {
        n = n + 1;
    }
    n
}

/// The decoded text of the key literal `b[p..=q]` (see [`key_text`]).
fn key_text_exec(b: &[char], p: usize, q: usize) -> (r: Option<String>)
    requires
        p <= q < b@.len(),
        q as int == close_from(b@, p + 1),
    ensures
        opt_text_of(r) == key_text(b@, p as int),
{
    assert(q < b.len());
    let tok = slice_vec(b, p, q + 1);
    let t = text(&tok);
    match parse_json(t.as_str()) {
        Ok(Json::Str(k)) => Some(k),
        _ => None,
    }
}

/// The text of an optional string.
pub open spec fn opt_text_of(o: Option<String>) -> Option<Seq<char>> {
    match o {
        Some(s) => Some(s@),
        None => None,
    }
}

/// What [`parse_top_countries_by_slug`] makes of an answer text.
pub open spec fn top_by_slug_answer(body: Seq<char>, r: ApiResult<Vec<TopCountry>>) -> bool {
    (({
        let b = trim(body);
        if !(starts_with_char(b, '{') || starts_with_char(b, '[')) {
            r matches Err(e) && e@ == ErrorView::Unexpected(b)
        } else {
            match json_of_text(b) {
                None => r matches Err(e) && e@ is Parse,
                Some(v) => if slug_shape(v) {
                    r matches Ok(rows) && crate::error::seq_views(rows@) == rows_upto(b, v, b.len() as int).1
                } else {
                    r matches Err(e) && e@ is Parse
                },
            }
        }
    }))
}

/// `{"united-states":{"3170":{"price":0.765,"count":1000},…},"canada":{…}}` → one row per
/// country and partner, in the provider's order (countries by priority, partners by sales,
/// best first), with [`CountryRef::Slug`] keys and the partner id as `provider_id`. A body that
/// does not open as JSON is [`ApiError::Unexpected`]; `[]` is no rows; anything but an object
/// of objects (or empty arrays) is [`ApiError::Parse`].
pub fn parse_top_countries_by_slug(body: &str) -> (r: ApiResult<Vec<TopCountry>>)
    ensures
        ({
            let b = trim(body@);
            if !(starts_with_char(b, '{') || starts_with_char(b, '[')) {
                r matches Err(e) && e@ == ErrorView::Unexpected(b)
            } else {
                match json_of_text(b) {
                    None => r matches Err(e) && e@ is Parse,
                    Some(v) => if slug_shape(v) {
                        r matches Ok(rows) && crate::error::seq_views(rows@) == rows_upto(b, v, b.len() as int).1
                    } else {
                        r matches Err(e) && e@ is Parse
                    },
                }
            }
        }),
{
    let b = trim_str(body);
    if !(b.len() > 0 && (b[0] == '{' || b[0] == '[')) {
        return Err(ApiError::Unexpected(text(&b)));
    }
    let bs = text(&b);
    let v = match parse_json(bs.as_str()) {
        Ok(v) => v,
        Err(e) => {
            return Err(e);
        },
    };
    if !check_slug_shape(&v) {
        return Err(ApiError::Parse(owned("expected an object of country slugs, each an object of partner offers")));
    }
    let mut rows: Vec<TopCountry> = Vec::new();
    let mut cur: Option<String> = None;
    let mut depth: i128 = 0;
    let mut ins = false;
    let mut esc = false;
    let mut i: usize = 0;
    assert(b@.take(0) =~= Seq::<char>::empty());
    assert(crate::error::seq_views(rows@) =~= Seq::<TopCountryView>::empty());
    while i < b.len()
        invariant
            i <= b@.len(),
            crate::providers::hero_sms::scan(b@.take(i as int)) == (depth as int, ins, esc),
            -(i as int) <= depth <= i as int,
            rows_upto(b@, v@, i as int) == (opt_text_of(cur), crate::error::seq_views(rows@)),
        decreases b.len() - i,
    {
        proof {
            lemma_scan_push(b@, i as int);
        }
        if !ins && !esc && b[i] == '"' && (depth == 1 || depth == 2) {
            let (d2, ins2, esc2) = scan_step_exec(depth, ins, esc, b[i]);
            let q = string_close(&b, i + 1, d2, ins2, esc2);
            let mut is_key = false;
            if q < b.len() {
                let n = skip_ws(&b, q + 1);
                is_key = n < b.len() && b[n] == ':';
            }
            assert(is_key == is_key_at(b@, i as int, depth as int));
            if is_key {
                let k = key_text_exec(&b, i, q);
                if depth == 1 {
                    cur = k;
                } else {
                    match (&cur, k) {
                        (Some(slug), Some(pid)) => {
                            let offer = crate::json::get_in(v.get(slug.as_str()), pid.as_str());
                            let price = match value_to_amount(crate::json::get_in(offer, "price")) {
                                Some(p) => p,
                                None => Amount::zero(),
                            };
                            let count = match value_to_u64(crate::json::get_in(offer, "count")) {
                                Some(c) => c,
                                None => 0,
                            };
                            let row = TopCountry {
                                country: CountryRef::Slug(copy_string(slug)),
                                price,
                                retail_price: None,
                                count,
                                provider_id: Some(pid),
                            };
                            let ghost before = crate::error::seq_views(rows@);
                            rows.push(row);
                            assert(crate::error::seq_views(rows@) =~= before.push(row@));
                        },
                        _ => {},
                    }
                }
            }
        }
        let (d2, ins2, esc2) = scan_step_exec(depth, ins, esc, b[i]);
        depth = d2;
        ins = ins2;
        esc = esc2;
        i = i + 1;
    }
    Ok(rows)
}

} // verus!
