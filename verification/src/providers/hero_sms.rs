//! Hero-SMS — <https://hero-sms.com/api#tag/sms-activate/>
//!
//! The sms-activate-compatible dialect of Hero-SMS: `GET
//! https://hero-sms.com/stubs/handler_api.php?api_key=<key>&action=<action>&…`.
//!
//! Hero-SMS answers errors with real HTTP status codes and a JSON envelope
//! `{"title":"<CODE>","details":"<text>","info":{…}}`; a few legacy answers still come as plain
//! text with HTTP 200 (`NO_NUMBERS`, `NO_KEY`, `UNPROCESSABLE_ENTITY:<field>:<code>` on
//! `getNumber`), and `getPrices` may answer `{"status":"false","msg":"service is incorrect"}`.
//! All of these are handled by [`classify`]. `minPrice` is not part of the API: it is never sent
//! and [`Client::get_number_with`] refuses it.
//!
//! Large bodies sometimes arrive truncated on a flaky network; [`RetryTransport`] detects
//! unbalanced JSON ([`looks_truncated`]), transport failures and HTTP 429 and retries — but only
//! read-only actions are re-sent after a transport error or a truncated body, so a purchase is
//! never issued twice.

use vstd::prelude::*;
use crate::amount::Amount;
use crate::api::{Client, Dialect, call_outcome, reads_outcome};
use crate::error::{ApiError, ApiResult, ErrorView, err_of, opt_err, owned, text};
use crate::json::{
    Json, JsonView, as_object, jget, json_of_text, member_views, oget, oview, parse_json,
    value_to_amount, value_to_string, value_to_u64, vamount, views, vstring, vu64,
};
use crate::amount::decimal_units;
use crate::sorting::{kmap, lemma_kmap_sort, payloads, sort_by_key, sort_keyed, strip_keys};
use crate::keymap::{KeyMap, lemma_map_of_index, lemma_map_of_keys, map_of, unique_keys};
use crate::protocol::{
    body_error, envelope_error, envelope_of_text, error_from_body, may_contain,
    may_contain_top_level_key, TitleEnvelope,
};
use crate::text::{
    chars_of, contains_chars, contains_seq, eq_str, split_once, split_once_chars, starts_with_char,
    trim, trim_chars, trim_str,
};
use crate::transport::{HttpResponse, Outcome, Transport, TransportError, ascii_lower, to_ascii_lower};
use crate::types::{
    ActivationId, ActivationStatus, ActiveActivation, Capabilities, CountryId, CountryKey, CountryRef, NumberRequest,
    RequestParams, ServiceCode, StatusView, TopCountry, copy_string, opt_code, opt_text, opt_units,
};
use crate::transport::{copy_pairs, pairs_view};

verus! {

pub const ENDPOINT: &'static str = "https://hero-sms.com/stubs/handler_api.php";

/// Machine-readable API description behind the docs page.
pub const OPENAPI_URL: &'static str = "https://hero-sms.com/docs/v1/openapi.json";

/// What Hero-SMS implements. `price_bounds` means `maxPrice` only: Hero-SMS has no `minPrice`.
pub open spec fn hero_caps() -> Capabilities {
    Capabilities {
        get_number_v2: true,
        numbers_status: true,
        active_activations: true,
        operators: true,
        prices_v2: false,
        prices_v3: false,
        price_bounds: true,
        provider_filters: false,
    }
}

/// What Hero-SMS implements (see [`hero_caps`]).
pub fn capabilities() -> (r: Capabilities)
    ensures
        r == hero_caps(),
{
    Capabilities {
        get_number_v2: true,
        numbers_status: true,
        active_activations: true,
        operators: true,
        prices_v2: false,
        prices_v3: false,
        price_bounds: true,
        provider_filters: false,
    }
}

/// The error a Hero-SMS `title` envelope carries (the body is taken as it is).
pub open spec fn hero_envelope_error(body: Seq<char>) -> Option<ErrorView> {
    match envelope_of_text(body) {
        Some(e) => envelope_error(e),
        None => None,
    }
}

/// `{"title":"BAD_KEY","details":"Unauthorized","info":{…}}` → the matching [`ApiError`].
/// Returns `None` when the body is not an error envelope (data objects never carry `title`).
/// `BAD_ACTION` maps to [`ApiError::BadAction`] with an empty payload.
pub fn error_from_envelope(body: &str) -> (r: Option<ApiError>)
    ensures
        opt_err(r) == hero_envelope_error(body@),
{
    match TitleEnvelope::from_text(body) {
        Some(e) => e.to_error(),
        None => None,
    }
}

/// The parts of `s` split at `:` at most twice (`str::splitn(3, ':')`), each trimmed; missing
/// parts are empty.
pub open spec fn second_part(s: Seq<char>) -> Seq<char> {
    match split_once(s, ':') {
        Some((_, rest)) => match split_once(rest, ':') {
            Some((second, _)) => second,
            None => rest,
        },
        None => Seq::empty(),
    }
}

pub open spec fn third_part(s: Seq<char>) -> Seq<char> {
    match split_once(s, ':') {
        Some((_, rest)) => match split_once(rest, ':') {
            Some((_, third)) => third,
            None => Seq::empty(),
        },
        None => Seq::empty(),
    }
}

pub open spec fn first_part(s: Seq<char>) -> Seq<char> {
    match split_once(s, ':') {
        Some((first, _)) => first,
        None => s,
    }
}

/// Plain-text error tokens that Hero-SMS still returns with HTTP 200, including the v1
/// `UNPROCESSABLE_ENTITY:<field>:<code>` form.
pub open spec fn hero_token_error(body: Seq<char>) -> Option<ErrorView> {
    if starts_with_char(body, '{') || starts_with_char(body, '[') {
        None
    } else {
        let head = trim(first_part(body));
        if head == "UNPROCESSABLE_ENTITY"@ {
            Some(ErrorView::Validation(trim(second_part(body)), trim(third_part(body))))
        } else if head == "NO_KEY"@ {
            Some(ErrorView::BadKey)
        } else {
            body_error(body)
        }
    }
}

/// Plain-text error tokens that Hero-SMS still returns with HTTP 200 (see [`hero_token_error`]).
pub fn error_from_token(body: &str) -> (r: Option<ApiError>)
    ensures
        opt_err(r) == hero_token_error(body@),
{
    let b = chars_of(body);
    if b.len() > 0 && (b[0] == '{' || b[0] == '[') {
        return None;
    }
    let (first, second, third): (Vec<char>, Vec<char>, Vec<char>) = match split_once_chars(&b, ':') {
        Some((f, rest)) => match split_once_chars(&rest, ':') {
            Some((s, t)) => (f, s, t),
            None => (f, rest, Vec::new()),
        },
        None => (crate::text::slice_vec(&b, 0, b.len()), Vec::new(), Vec::new()),
    };
    proof {
        if split_once(b@, ':') is None {
            assert(b@.subrange(0, b@.len() as int) =~= b@);
        }
        assert(first@ == first_part(body@));
        assert(second@ =~= second_part(body@));
        assert(third@ =~= third_part(body@));
    }
    let head = trim_chars(&first);
    if eq_str(&head, "UNPROCESSABLE_ENTITY") {
        Some(ApiError::Validation { field: text(&trim_chars(&second)), message: text(&trim_chars(&third)) })
    } else if eq_str(&head, "NO_KEY") {
        Some(ApiError::BadKey)
    } else {
        error_from_body(body)
    }
}

/// ASCII lower-casing of a text.
pub open spec fn lowercase(s: Seq<char>) -> Seq<char> {
    s.map_values(|c: char| ascii_lower(c))
}

/// `{"status":"false"|"error"|false,"msg"|"message":…}` → bad service, bad country or the
/// message itself; `None` for anything else (see [`may_contain`] for which bodies are decoded).
pub open spec fn hero_status_msg_error(body: Seq<char>) -> Option<ErrorView> {
    if !may_contain(body, "\"status\""@) {
        None
    } else {
        match json_of_text(body) {
            None => None,
            Some(v) => match jget(v, "status"@) {
                None => None,
                Some(status) => {
                    let failed = status == JsonView::Bool(false) || status == JsonView::Str("false"@)
                        || status == JsonView::Str("error"@);
                    if !failed {
                        None
                    } else {
                        let msg = match vstring(
                            crate::protocol::either(jget(v, "msg"@), jget(v, "message"@)),
                        ) {
                            Some(m) => m,
                            None => Seq::empty(),
                        };
                        if contains_seq(lowercase(msg), "service"@) {
                            Some(ErrorView::BadService)
                        } else if contains_seq(lowercase(msg), "country"@) {
                            Some(ErrorView::BadCountry)
                        } else {
                            Some(ErrorView::Other(msg))
                        }
                    }
                },
            },
        }
    }
}

fn lowercase_chars(s: &[char]) -> (r: Vec<char>)
    ensures
        r@ == lowercase(s@),
{
    let mut out: Vec<char> = Vec::new();
    let mut i: usize = 0;
    while i < s.len()
        invariant
            i <= s@.len(),
            out@ == lowercase(s@.take(i as int)),
        decreases s.len() - i,
    {
        out.push(to_ascii_lower(s[i]));
        i = i + 1;
        assert(out@ =~= lowercase(s@.take(i as int)));
    }
    assert(s@.take(i as int) =~= s@);
    out
}

/// `getPrices` documents `{"status":"false","msg":"service is incorrect"}` for bad filters
/// (see [`hero_status_msg_error`]).
pub fn error_from_status_msg(body: &str) -> (r: Option<ApiError>)
    ensures
        opt_err(r) == hero_status_msg_error(body@),
{
    if !may_contain_top_level_key(body, "\"status\"") {
        return None;
    }
    let v = match parse_json(body) {
        Ok(v) => v,
        Err(_) => {
            return None;
        },
    };
    let status = match v.get("status") {
        Some(s) => s,
        None => {
            return None;
        },
    };
    let failed = match status {
        Json::Bool(b) => !*b,
        Json::Str(s) => {
            let c = chars_of(s.as_str());
            eq_str(&c, "false") || eq_str(&c, "error")
        },
        _ => false,
    };
    proof {
        reveal_strlit("false");
        reveal_strlit("error");
        if let JsonView::Str(t) = status@ {
            if t != "false"@ {
                assert(JsonView::Str(t) != JsonView::Str("false"@));
            }
        }
    }
    if !failed {
        return None;
    }
    let msg = match v.get("msg") {
        Some(x) => value_to_string(Some(x)),
        None => value_to_string(v.get("message")),
    };
    let msg = match msg {
        Some(m) => m,
        None => String::new(),
    };
    let lower = lowercase_chars(&chars_of(msg.as_str()));
    if contains_chars(&lower, &chars_of("service")) {
        Some(ApiError::BadService)
    } else if contains_chars(&lower, &chars_of("country")) {
        Some(ApiError::BadCountry)
    } else {
        Some(ApiError::Other(msg))
    }
}

/// Hero-SMS classification: JSON error envelopes on any status, then HTTP 429, then any other
/// non-2xx status, then the legacy plain-text tokens and `{"status":"false","msg":…}`.
pub open spec fn hero_error(status: u16, body: Seq<char>) -> Option<ErrorView> {
    let b = trim(body);
    match hero_envelope_error(b) {
        Some(e) => Some(e),
        None => if status == 429 {
            Some(ErrorView::RateLimited(None))
        } else if !(200 <= status && status < 300) {
            Some(ErrorView::Http(status, b))
        } else {
            match hero_token_error(b) {
                Some(e) => Some(e),
                None => hero_status_msg_error(b),
            }
        },
    }
}

/// Hero-SMS response classification (see [`hero_error`]).
pub fn classify(resp: &HttpResponse) -> (r: ApiResult<()>)
    ensures
        err_of(r) == hero_error(resp.status, resp.body@),
{
    let b = text(&trim_str(resp.body.as_str()));
    if let Some(e) = error_from_envelope(b.as_str()) {
        return Err(e);
    }
    if resp.status == 429 {
        return Err(ApiError::RateLimited { retry_after: None });
    }
    if !(200 <= resp.status && resp.status < 300) {
        return Err(ApiError::Http { status: resp.status, body: b });
    }
    if let Some(e) = error_from_token(b.as_str()) {
        return Err(e);
    }
    if let Some(e) = error_from_status_msg(b.as_str()) {
        return Err(e);
    }
    Ok(())
}

/// `params` without the entries named `key`, in order.
pub open spec fn without_key(ps: Seq<(Seq<char>, Seq<char>)>, key: Seq<char>) -> Seq<(Seq<char>, Seq<char>)>
    decreases ps.len(),
{
    if ps.len() == 0 {
        Seq::empty()
    } else {
        without_key(ps.drop_last(), key) + if ps.last().0 == key {
            Seq::empty()
        } else {
            seq![ps.last()]
        }
    }
}

/// Removes every parameter named `key`.
pub fn remove_param(params: &mut Vec<(String, String)>, key: &str)
    ensures
        pairs_view(final(params)@) == without_key(pairs_view(old(params)@), key@),
{
    let mut rest: Vec<(String, String)> = Vec::new();
    std::mem::swap(&mut rest, params);
    let ghost orig = pairs_view(rest@);
    let ghost mut i: int = 0;
    assert(orig.take(0) =~= Seq::<(Seq<char>, Seq<char>)>::empty());
    assert(pairs_view(params@) =~= Seq::<(Seq<char>, Seq<char>)>::empty());
    while rest.len() > 0
        invariant
            0 <= i <= orig.len(),
            pairs_view(rest@) == orig.skip(i),
            pairs_view(params@) == without_key(orig.take(i), key@),
        decreases rest.len(),
    {
        let ghost old_rest = rest@;
        assert(pairs_view(old_rest).len() == old_rest.len());
        assert(pairs_view(old_rest)[0] == orig[i]);
        let p = rest.remove(0);
        proof {
            assert(pairs_view(rest@) =~= pairs_view(old_rest).drop_first());
            assert(pairs_view(rest@) =~= orig.skip(i + 1));
            assert((p.0@, p.1@) == orig[i]);
            assert(orig.take(i + 1).drop_last() =~= orig.take(i));
        }
        let k = chars_of(p.0.as_str());
        let ghost before = pairs_view(params@);
        if !eq_str(&k, key) {
            params.push(p);
            assert(pairs_view(params@) =~= before + seq![orig[i]]);
        } else {
            assert(before =~= before + Seq::<(Seq<char>, Seq<char>)>::empty());
        }
        proof {
            i = i + 1;
        }
    }
    assert(orig.take(i) =~= orig);
}

/// Hero-SMS's dialect: envelope-aware classification, no `minPrice`, and `data` rows first for
/// active activations.
#[derive(Clone, Copy, Debug, Default)]
pub struct HeroSmsDialect;

/// What Hero-SMS's `getActiveActivations` reading makes of an answer text: the rows of `data`
/// when it has any, else the reference reading of the whole answer.
pub open spec fn hero_active_answer(body: Seq<char>, r: ApiResult<Vec<ActiveActivation>>) -> bool {
    match json_of_text(trim(body)) {
        None => r matches Err(e) && e@ is Parse,
        Some(v) => crate::error::list_res(r) == match jget(v, "data"@) {
            Some(JsonView::Array(rows)) => if rows.len() > 0 {
                crate::protocol::active_activations_of(JsonView::Array(rows))
            } else {
                crate::protocol::active_activations_of(v)
            },
            _ => crate::protocol::active_activations_of(v),
        },
    }
}

impl Dialect for HeroSmsDialect {
    open spec fn caps(&self) -> Capabilities {
        hero_caps()
    }

    fn name(&self) -> (r: &'static str)
        ensures
            r@ == "Hero SMS"@,
    {
        "Hero SMS"
    }

    fn endpoint(&self) -> (r: &str)
        ensures
            r@ == ENDPOINT@,
    {
        ENDPOINT
    }

    fn capabilities(&self) -> (r: Capabilities) {
        capabilities()
    }

    fn classify(&self, resp: &HttpResponse) -> (r: ApiResult<()>)
        ensures
            err_of(r) == hero_error(resp.status, resp.body@),
    {
        classify(resp)
    }

    /// Drops `minPrice` from `getNumber` / `getNumberV2`: it is not part of the Hero-SMS API.
    fn adjust_params(&self, action: &str, params: &mut Vec<(String, String)>)
        ensures
            (action@ == "getNumber"@ || action@ == "getNumberV2"@) ==> pairs_view(final(params)@)
                == without_key(pairs_view(old(params)@), "minPrice"@),
            !(action@ == "getNumber"@ || action@ == "getNumberV2"@) ==> final(params)@ == old(params)@,
    {
        let a = chars_of(action);
        if eq_str(&a, "getNumber") || eq_str(&a, "getNumberV2") {
            remove_param(params, "minPrice");
        }
    }

    /// `{"status":"success","data":[…],"activeActivations":{…,"rows":[…]}}` — the documented
    /// rows live in `data`; prefer it whenever it has rows.
    fn parse_active_activations(&self, body: &str) -> (r: ApiResult<Vec<ActiveActivation>>)
        ensures
            match json_of_text(trim(body@)) {
                None => r matches Err(e) && e@ is Parse,
                Some(v) => crate::error::list_res(r) == match jget(v, "data"@) {
                    Some(JsonView::Array(rows)) => if rows.len() > 0 {
                        crate::protocol::active_activations_of(JsonView::Array(rows))
                    } else {
                        crate::protocol::active_activations_of(v)
                    },
                    _ => crate::protocol::active_activations_of(v),
                },
            },
    {
        let t = text(&trim_str(body));
        let v = match parse_json(t.as_str()) {
            Ok(v) => v,
            Err(e) => {
                return Err(e);
            },
        };
        match v.get("data") {
            Some(data) => match data.as_array() {
                Some(rows) => if rows.len() > 0 {
                    crate::protocol::active_activations_from_value(data)
                } else {
                    crate::protocol::active_activations_from_value(&v)
                },
                None => crate::protocol::active_activations_from_value(&v),
            },
            None => crate::protocol::active_activations_from_value(&v),
        }
    }

    open spec fn error_of(&self, status: u16, body: Seq<char>) -> Option<ErrorView> {
        hero_error(status, body)
    }

    open spec fn active_activations_answer(&self, body: Seq<char>, r: ApiResult<Vec<ActiveActivation>>) -> bool {
        hero_active_answer(body, r)
    }

    fn parse_balance(&self, body: &str) -> ApiResult<crate::amount::Amount> {
        crate::protocol::parse_balance(body)
    }

    fn parse_activation(&self, body: &str) -> ApiResult<crate::types::Activation> {
        crate::protocol::parse_activation_v2(body)
    }

    fn parse_status(&self, body: &str) -> ApiResult<crate::types::ActivationStatus> {
        crate::protocol::parse_status(body)
    }

    fn parse_set_status(&self, body: &str) -> ApiResult<crate::types::StatusAck> {
        crate::protocol::parse_set_status(body)
    }

    fn parse_prices(&self, body: &str) -> ApiResult<crate::types::PriceTable> {
        crate::protocol::parse_prices(body)
    }

    fn parse_services(&self, body: &str) -> ApiResult<Vec<crate::types::Service>> {
        crate::protocol::parse_services(body)
    }

    fn parse_countries(&self, body: &str) -> ApiResult<Vec<crate::types::Country>> {
        crate::protocol::parse_countries(body)
    }

    fn parse_top_countries(&self, body: &str) -> ApiResult<Vec<crate::types::TopCountry>> {
        crate::protocol::parse_top_countries_indexed(body)
    }

    fn parse_numbers_status(&self, body: &str) -> ApiResult<crate::keymap::KeyMap<crate::types::ServiceCode, u64>> {
        crate::protocol::parse_numbers_status(body)
    }

    fn parse_operators(&self, body: &str) -> ApiResult<crate::keymap::KeyMap<crate::types::CountryRef, Vec<String>>> {
        crate::protocol::parse_operators(body)
    }


    open spec fn handler_url(&self) -> Seq<char> {
        ENDPOINT@
    }


    open spec fn adjusted_params(&self, action: Seq<char>, params: Seq<(Seq<char>, Seq<char>)>) -> Seq<
        (Seq<char>, Seq<char>),
    > {
        if action == "getNumber"@ || action == "getNumberV2"@ {
            without_key(params, "minPrice"@)
        } else {
            params
        }
    }


    open spec fn name_text(&self) -> Seq<char> {
        "Hero SMS"@
    }

}

/// One `price → count` tier of a `freePriceMap` / `physicalPriceMap`.
#[derive(Clone, Copy, Debug, PartialEq, Eq, Structural)]
pub struct PriceTier {
    pub price: Amount,
    /// Numbers obtainable when bidding `price` (cumulative: higher price, more numbers).
    pub count: u64,
}

/// Row of `getTopCountriesByService&freePrice=true`.
#[derive(Debug, PartialEq)]
pub struct HeroTopCountry {
    pub country: CountryId,
    /// Cheapest tier when `freePrice=true`, the default price otherwise.
    pub price: Amount,
    pub retail_price: Option<Amount>,
    /// Total numbers across all tiers.
    pub count: u64,
    /// Tiers sorted by ascending price, one per member of `freePriceMap` whose key is an exact
    /// decimal amount (a whole number of 10⁻¹⁸ units within the `Amount` range) and whose value
    /// is a count; other members (`"inf"`, `"1e-30"`, …) are dropped. Empty when the provider
    /// sent no map.
    pub free_price_map: Vec<PriceTier>,
    pub physical_total_count: Option<u64>,
    pub physical_count_for_default_price: Option<u64>,
    /// Documented but not seen live; empty unless present. Its members are read as those of
    /// `free_price_map`.
    pub physical_price_map: Vec<PriceTier>,
}

/// What a [`HeroTopCountry`] denotes.
pub struct HeroTopView {
    pub country: CountryId,
    pub price: int,
    pub retail_price: Option<int>,
    pub count: u64,
    pub free_price_map: Seq<PriceTier>,
    pub physical_total_count: Option<u64>,
    pub physical_count_for_default_price: Option<u64>,
    pub physical_price_map: Seq<PriceTier>,
}

impl View for HeroTopCountry {
    type V = HeroTopView;

    open spec fn view(&self) -> HeroTopView {
        HeroTopView {
            country: self.country,
            price: self.price.units as int,
            retail_price: opt_units(self.retail_price),
            count: self.count,
            free_price_map: self.free_price_map@,
            physical_total_count: self.physical_total_count,
            physical_count_for_default_price: self.physical_count_for_default_price,
            physical_price_map: self.physical_price_map@,
        }
    }
}

/// The first tier (in price order) with at least `min_count` numbers.
pub open spec fn first_tier_with(tiers: Seq<PriceTier>, min_count: u64) -> Option<int>
    decreases tiers.len(),
{
    if tiers.len() == 0 {
        None
    } else if tiers[0].count >= min_count {
        Some(0)
    } else {
        match first_tier_with(tiers.drop_first(), min_count) {
            Some(i) => Some(i + 1),
            None => None,
        }
    }
}

proof fn lemma_first_tier(tiers: Seq<PriceTier>, min_count: u64, i: int)
    requires
        0 <= i <= tiers.len(),
        forall|j: int| 0 <= j < i ==> (#[trigger] tiers[j]).count < min_count,
    ensures
        i < tiers.len() && tiers[i].count >= min_count ==> first_tier_with(tiers, min_count) == Some(i),
        i == tiers.len() ==> first_tier_with(tiers, min_count) is None,
    decreases i,
{
    if i > 0 {
        assert forall|j: int| 0 <= j < i - 1 implies (#[trigger] tiers.drop_first()[j]).count < min_count by {
            assert(tiers.drop_first()[j] == tiers[j + 1]);
        }
        lemma_first_tier(tiers.drop_first(), min_count, i - 1);
        assert(tiers[0].count < min_count);
    }
}

impl HeroTopCountry {
    /// Cheapest tier that still offers at least `min_count` numbers.
    pub fn cheapest_tier_with(&self, min_count: u64) -> (r: Option<&PriceTier>)
        ensures
            match first_tier_with(self.free_price_map@, min_count) {
                Some(i) => r == Some(&self.free_price_map@[i]),
                None => r is None,
            },
    {
        let mut i: usize = 0;
        while i < self.free_price_map.len()
            invariant
                i <= self.free_price_map@.len(),
                forall|j: int| 0 <= j < i ==> (#[trigger] self.free_price_map@[j]).count < min_count,
            decreases self.free_price_map.len() - i,
        {
            if self.free_price_map[i].count >= min_count {
                proof {
                    lemma_first_tier(self.free_price_map@, min_count, i as int);
                }
                return Some(&self.free_price_map[i]);
            }
            i = i + 1;
        }
        proof {
            lemma_first_tier(self.free_price_map@, min_count, i as int);
        }
        None
    }
}

/// One OTP as reported by `getStatusV2` / `getAllSms`.
#[derive(Debug, Default, PartialEq, Eq)]
pub struct Otp {
    pub id: String,
    /// Sender (`"Telegram"` or a phone number).
    pub phone_from: Option<String>,
    pub code: Option<String>,
    pub text: Option<String>,
    pub service: Option<ServiceCode>,
    /// RFC 3339 timestamp (`2026-02-16T12:36:59+03:00`).
    pub date: Option<String>,
    /// `"sms"` or `"call"`.
    pub kind: Option<String>,
}

/// What an [`Otp`] denotes.
pub struct OtpView {
    pub id: Seq<char>,
    pub phone_from: Option<Seq<char>>,
    pub code: Option<Seq<char>>,
    pub text: Option<Seq<char>>,
    pub service: Option<Seq<char>>,
    pub date: Option<Seq<char>>,
    pub kind: Option<Seq<char>>,
}

impl View for Otp {
    type V = OtpView;

    open spec fn view(&self) -> OtpView {
        OtpView {
            id: self.id@,
            phone_from: opt_text(self.phone_from),
            code: opt_text(self.code),
            text: opt_text(self.text),
            service: opt_code(self.service),
            date: opt_text(self.date),
            kind: opt_text(self.kind),
        }
    }
}

/// Result of `getStatusV2`.
#[derive(Debug, PartialEq)]
pub enum StatusV2 {
    /// The provider answered with a classic token (`STATUS_CANCEL` is documented).
    Plain(ActivationStatus),
    /// JSON answer. `otp` is `None` when `data` is absent or not an object.
    Otp { verification_type: Option<String>, otp: Option<Otp> },
}

/// What a [`StatusV2`] denotes.
pub enum StatusV2View {
    Plain(StatusView),
    Otp(Option<Seq<char>>, Option<OtpView>),
}

impl View for StatusV2 {
    type V = StatusV2View;

    open spec fn view(&self) -> StatusV2View {
        match self {
            StatusV2::Plain(s) => StatusV2View::Plain(s@),
            StatusV2::Otp { verification_type, otp } => StatusV2View::Otp(
                opt_text(*verification_type),
                match otp {
                    Some(o) => Some(o@),
                    None => None,
                },
            ),
        }
    }
}

/// The code a `getStatusV2` answer carries, if any.
pub open spec fn status_v2_code(s: StatusV2View) -> Option<Seq<char>> {
    match s {
        StatusV2View::Plain(p) => crate::types::status_code(p),
        StatusV2View::Otp(_, otp) => match otp {
            Some(o) => o.code,
            None => None,
        },
    }
}

impl StatusV2 {
    /// The received code, if any.
    pub fn code(&self) -> (r: Option<&str>)
        ensures
            match r {
                Some(c) => status_v2_code(self@) == Some(c@),
                None => status_v2_code(self@) is None,
            },
    {
        match self {
            StatusV2::Plain(s) => s.code(),
            StatusV2::Otp { otp, .. } => match otp {
                Some(o) => match &o.code {
                    Some(c) => Some(c.as_str()),
                    None => None,
                },
                None => None,
            },
        }
    }
}

/// Metadata (`meta`) of `getAllSms`: `{"total":42,"service":"full"}`.
#[derive(Debug, Default, PartialEq, Eq)]
pub struct PageMeta {
    /// Total number of OTPs on the activation (across pages).
    pub total: Option<u64>,
    /// Service code of the activation.
    pub service: Option<ServiceCode>,
}

/// Result of `getAllSms`.
#[derive(Debug, Default, PartialEq, Eq)]
pub struct OtpPage {
    pub data: Vec<Otp>,
    pub meta: PageMeta,
}

/// Row of `getHistory`.
#[derive(Debug, Default, PartialEq)]
pub struct HistoryEntry {
    pub id: ActivationId,
    /// `YYYY-MM-DD HH:MM:SS`
    pub date: Option<String>,
    pub phone: Option<String>,
    /// Last SMS text, `None` when nothing arrived.
    pub sms: Option<String>,
    pub cost: Option<Amount>,
    /// Raw provider status (`"6"` finished, `"8"` cancelled …).
    pub status: Option<String>,
    /// ISO 4217 numeric code (840 = USD).
    pub currency: Option<u32>,
}

/// What a [`HistoryEntry`] denotes.
pub struct HistoryView {
    pub id: Seq<char>,
    pub date: Option<Seq<char>>,
    pub phone: Option<Seq<char>>,
    pub sms: Option<Seq<char>>,
    pub cost: Option<int>,
    pub status: Option<Seq<char>>,
    pub currency: Option<u32>,
}

impl View for HistoryEntry {
    type V = HistoryView;

    open spec fn view(&self) -> HistoryView {
        HistoryView {
            id: self.id@,
            date: opt_text(self.date),
            phone: opt_text(self.phone),
            sms: opt_text(self.sms),
            cost: opt_units(self.cost),
            status: opt_text(self.status),
            currency: self.currency,
        }
    }
}

/// Filters for `getHistory`. Timestamps are Unix seconds; `size` is capped at 100 by the provider.
#[derive(Clone, Copy, Debug, Default, PartialEq, Eq, Structural)]
pub struct HistoryQuery {
    pub start: Option<u64>,
    pub end: Option<u64>,
    pub offset: Option<u64>,
    pub size: Option<u64>,
}

impl HistoryQuery {
    pub fn new() -> (r: Self)
        ensures
            r == (HistoryQuery { start: None, end: None, offset: None, size: None }),
    {
        HistoryQuery { start: None, end: None, offset: None, size: None }
    }

    pub fn start(self, unix: u64) -> (r: Self)
        ensures
            r == (HistoryQuery { start: Some(unix), ..self }),
    {
        HistoryQuery { start: Some(unix), ..self }
    }

    pub fn end(self, unix: u64) -> (r: Self)
        ensures
            r == (HistoryQuery { end: Some(unix), ..self }),
    {
        HistoryQuery { end: Some(unix), ..self }
    }

    pub fn offset(self, offset: u64) -> (r: Self)
        ensures
            r == (HistoryQuery { offset: Some(offset), ..self }),
    {
        HistoryQuery { offset: Some(offset), ..self }
    }

    pub fn size(self, size: u64) -> (r: Self)
        ensures
            r == (HistoryQuery { size: Some(size), ..self }),
    {
        HistoryQuery { size: Some(size), ..self }
    }
}

// ---------------------------------------------------------------------------
// Parsers for the provider-only shapes

/// The order key of an amount (monotone: a smaller amount has a smaller key).
pub open spec fn amount_key(a: Amount) -> u128 {
    (a.units as int + 0x8000_0000_0000_0000_0000_0000_0000_0000) as u128
}

/// The order key of an amount (see [`amount_key`]).
pub fn amount_key_exec(a: Amount) -> (r: u128)
    ensures
        r == amount_key(a),
{
    if a.units < 0 {
        (a.units + 0x7fff_ffff_ffff_ffff_ffff_ffff_ffff_ffffi128 + 1) as u128
    } else {
        (a.units as u128) + 0x8000_0000_0000_0000_0000_0000_0000_0000u128
    }
}

/// One `"<price>": <count>` member of a price map; members whose key is not an exact decimal
/// amount within the `Amount` range (such as `"inf"` or `"1e-30"`) or whose value is not a count
/// are dropped.
pub open spec fn tier_of(m: (Seq<char>, JsonView)) -> Option<PriceTier> {
    match (decimal_units(trim(m.0)), vu64(Some(m.1))) {
        (Some(p), Some(c)) => Some(PriceTier { price: Amount { units: p as i128 }, count: c }),
        _ => None,
    }
}

pub open spec fn tier_rows(es: Seq<(Seq<char>, JsonView)>) -> Seq<(u128, PriceTier)>
    decreases es.len(),
{
    if es.len() == 0 {
        Seq::empty()
    } else {
        tier_rows(es.drop_last()) + match tier_of(es.last()) {
            Some(t) => seq![(amount_key(t.price), t)],
            None => Seq::empty(),
        }
    }
}

/// The tiers of a price map, by ascending price (stable); empty when the map is absent or not
/// an object.
pub open spec fn price_map_of(o: Option<JsonView>) -> Seq<PriceTier> {
    match o {
        Some(JsonView::Object(es)) => payloads(sort_keyed(tier_rows(es))),
        _ => Seq::empty(),
    }
}

/// The tiers of a price map (see [`price_map_of`]).
pub fn parse_price_map(v: Option<&Json>) -> (r: Vec<PriceTier>)
    ensures
        r@ == price_map_of(oview(v)),
{
    let es = match v {
        Some(Json::Object(es)) => es,
        _ => {
            return Vec::new();
        },
    };
    proof {
        crate::json::lemma_object_view(*es);
    }
    let ghost vs = member_views(es@);
    let mut rows: Vec<(u128, PriceTier)> = Vec::new();
    let mut i: usize = 0;
    assert(vs.take(0) =~= Seq::<(Seq<char>, JsonView)>::empty());
    while i < es.len()
        invariant
            i <= es@.len(),
            vs == member_views(es@),
            rows@ == tier_rows(vs.take(i as int)),
        decreases es.len() - i,
    {
        proof {
            assert(vs.take(i + 1).drop_last() =~= vs.take(i as int));
            assert(vs.take(i + 1).last() == vs[i as int]);
        }
        let key = trim_str(es[i].0.as_str());
        let ghost before = rows@;
        match (crate::amount::parse_decimal(&key), value_to_u64(Some(&es[i].1))) {
            (Some(p), Some(c)) => {
                let t = PriceTier { price: p, count: c };
                rows.push((amount_key_exec(p), t));
                assert(rows@ =~= before + seq![(amount_key(t.price), t)]);
            },
            _ => {
                assert(rows@ =~= before + Seq::<(u128, PriceTier)>::empty());
            },
        }
        i = i + 1;
    }
    assert(vs.take(i as int) =~= vs);
    let sorted = sort_by_key(rows);
    strip_keys(sorted)
}

/// One free-price row; `None` without a country.
pub open spec fn free_price_row(x: JsonView) -> Option<HeroTopView> {
    match vu64(jget(x, "country"@)) {
        None => None,
        Some(n) => Some(
            HeroTopView {
                country: (n % 0x1_0000_0000) as u32,
                price: match vamount(jget(x, "price"@)) {
                    Some(p) => p,
                    None => 0,
                },
                retail_price: vamount(jget(x, "retail_price"@)),
                count: match vu64(jget(x, "count"@)) {
                    Some(c) => c,
                    None => 0,
                },
                free_price_map: price_map_of(jget(x, "freePriceMap"@)),
                physical_total_count: vu64(jget(x, "physicalTotalCount"@)),
                physical_count_for_default_price: vu64(jget(x, "physicalCountForDefaultPrice"@)),
                physical_price_map: price_map_of(jget(x, "physicalPriceMap"@)),
            },
        ),
    }
}

pub open spec fn free_price_rows(ents: Seq<(u128, JsonView)>) -> Result<Seq<(u128, HeroTopView)>, ErrorView>
    decreases ents.len(),
{
    if ents.len() == 0 {
        Ok(Seq::empty())
    } else {
        match free_price_rows(ents.drop_last()) {
            Err(e) => Err(e),
            Ok(r) => match free_price_row(ents.last().1) {
                Some(x) => Ok(r.push((ents.last().0, x))),
                None => Err(ErrorView::Parse("missing country"@)),
            },
        }
    }
}

/// `{"0":{"country":73,"price":0.2353,"retail_price":0.48,"count":1213663,"freePriceMap":{…}},…}`
/// in index order; `t` is the trimmed body.
pub open spec fn top_free_price_of(v: JsonView, t: Seq<char>) -> Result<Seq<HeroTopView>, ErrorView> {
    match crate::protocol::indexed_entries(v) {
        None => Err(ErrorView::Unexpected(t)),
        Some(ents) => match free_price_rows(ents) {
            Err(e) => Err(e),
            Ok(rows) => Ok(payloads(sort_keyed(rows))),
        },
    }
}

proof fn lemma_free_err_sticks(ents: Seq<(u128, JsonView)>, k: int, e: ErrorView)
    requires
        0 <= k <= ents.len(),
        free_price_rows(ents.take(k)) == Err::<Seq<(u128, HeroTopView)>, ErrorView>(e),
    ensures
        free_price_rows(ents) == Err::<Seq<(u128, HeroTopView)>, ErrorView>(e),
    decreases ents.len() - k,
{
    if k < ents.len() {
        assert(ents.take(k + 1).drop_last() =~= ents.take(k));
        lemma_free_err_sticks(ents, k + 1, e);
    } else {
        assert(ents.take(k) =~= ents);
    }
}

fn free_price_row_from_json(x: &Json) -> (r: ApiResult<HeroTopCountry>)
    ensures
        match r {
            Ok(t) => free_price_row(x@) == Some(t@),
            Err(e) => free_price_row(x@) is None && e@ == ErrorView::Parse("missing country"@),
        },
{
    let n = match value_to_u64(x.get("country")) {
        Some(n) => n,
        None => {
            return Err(ApiError::Parse(owned("missing country")));
        },
    };
    let price = match value_to_amount(x.get("price")) {
        Some(p) => p,
        None => Amount::zero(),
    };
    let count = match value_to_u64(x.get("count")) {
        Some(c) => c,
        None => 0,
    };
    Ok(HeroTopCountry {
        country: (n % 0x1_0000_0000u64) as u32,
        price,
        retail_price: value_to_amount(x.get("retail_price")),
        count,
        free_price_map: parse_price_map(x.get("freePriceMap")),
        physical_total_count: value_to_u64(x.get("physicalTotalCount")),
        physical_count_for_default_price: value_to_u64(x.get("physicalCountForDefaultPrice")),
        physical_price_map: parse_price_map(x.get("physicalPriceMap")),
    })
}

proof fn lemma_payload_views<T: View>(s: Seq<(u128, T)>, f: spec_fn(T) -> T::V)
    requires
        forall|c: T| #[trigger] f(c) == c@,
    ensures
        crate::error::seq_views(payloads(s)) == payloads(kmap(s, f)),
{
    assert(crate::error::seq_views(payloads(s)) =~= payloads(kmap(s, f)));
}

/// The rows of a decoded `getTopCountriesByService&freePrice=true` answer (see
/// [`top_free_price_of`]; `body` is the trimmed text it was decoded from).
pub fn top_countries_free_price_from_json(v: &Json, body: &str) -> (r: ApiResult<Vec<HeroTopCountry>>)
    ensures
        crate::error::list_res(r) == top_free_price_of(v@, body@),
{
    let ghost f = |t: HeroTopCountry| t@;
    let ghost ents: Seq<(u128, JsonView)> = match crate::protocol::indexed_entries(v@) {
        Some(e) => e,
        None => Seq::empty(),
    };
    let mut rows: Vec<(u128, HeroTopCountry)> = Vec::new();
    assert(ents.take(0) =~= Seq::<(u128, JsonView)>::empty());
    assert(kmap(rows@, f) =~= Seq::<(u128, HeroTopView)>::empty());
    match v {
        Json::Array(a) => {
            proof {
                crate::json::lemma_array_view(*a);
            }
            let mut i: usize = 0;
            while i < a.len()
                invariant
                    i <= a@.len(),
                    ents == Seq::new(views(a@).len(), |j: int| (j as u64 as u128, views(a@)[j])),
                    forall|t: HeroTopCountry| #[trigger] f(t) == t@,
                    crate::protocol::indexed_entries(v@) == Some(ents),
                    free_price_rows(ents.take(i as int)) == Ok::<Seq<(u128, HeroTopView)>, ErrorView>(kmap(rows@, f)),
                decreases a.len() - i,
            {
                proof {
                    assert(ents.take(i + 1).drop_last() =~= ents.take(i as int));
                    assert(ents.take(i + 1).last() == (i as u64 as u128, a@[i as int]@));
                }
                let row = match free_price_row_from_json(&a[i]) {
                    Ok(t) => t,
                    Err(e) => {
                        proof {
                            lemma_free_err_sticks(ents, i + 1, e@);
                        }
                        return Err(e);
                    },
                };
                let ghost before = rows@;
                let ghost rv = row@;
                rows.push((i as u64 as u128, row));
                assert(kmap(rows@, f) =~= kmap(before, f).push((i as u64 as u128, rv)));
                i = i + 1;
            }
            assert(ents.take(i as int) =~= ents);
        },
        Json::Object(o) => {
            proof {
                crate::json::lemma_object_view(*o);
            }
            let mut i: usize = 0;
            while i < o.len()
                invariant
                    i <= o@.len(),
                    ents == member_views(o@).map_values(
                        |e: (Seq<char>, JsonView)|
                            (
                                match crate::num::parse_u64_spec(e.0) {
                                    Some(n) => n as u128,
                                    None => u64::MAX as u128,
                                },
                                e.1,
                            ),
                    ),
                    forall|t: HeroTopCountry| #[trigger] f(t) == t@,
                    crate::protocol::indexed_entries(v@) == Some(ents),
                    free_price_rows(ents.take(i as int)) == Ok::<Seq<(u128, HeroTopView)>, ErrorView>(kmap(rows@, f)),
                decreases o.len() - i,
            {
                proof {
                    assert(ents.take(i + 1).drop_last() =~= ents.take(i as int));
                    assert(ents.take(i + 1).last() == ents[i as int]);
                }
                let idx: u128 = match crate::num::parse_u64(&chars_of(o[i].0.as_str())) {
                    Some(n) => n as u128,
                    None => u64::MAX as u128,
                };
                let row = match free_price_row_from_json(&o[i].1) {
                    Ok(t) => t,
                    Err(e) => {
                        proof {
                            lemma_free_err_sticks(ents, i + 1, e@);
                        }
                        return Err(e);
                    },
                };
                let ghost before = rows@;
                let ghost rv = row@;
                rows.push((idx, row));
                assert(kmap(rows@, f) =~= kmap(before, f).push((idx, rv)));
                i = i + 1;
            }
            assert(ents.take(i as int) =~= ents);
        },
        _ => {
            return Err(ApiError::Unexpected(owned(body)));
        },
    }
    let ghost unsorted = rows@;
    let sorted = sort_by_key(rows);
    proof {
        lemma_kmap_sort(unsorted, f);
        lemma_payload_views(sorted@, f);
    }
    Ok(strip_keys(sorted))
}

/// `{"0":{"country":73,"price":0.2353,"retail_price":0.48,"count":1213663,"freePriceMap":{"2.9471":1213663,…}},…}`
///
/// A price-map member keeps its tier only when its key is an exact decimal amount (see
/// [`tier_of`]); a key such as `"inf"` or `"1e-30"` gives no tier.
pub fn parse_top_countries_free_price(body: &str) -> (r: ApiResult<Vec<HeroTopCountry>>)
    ensures
        match json_of_text(trim(body@)) {
            None => r matches Err(e) && e@ is Parse,
            Some(v) => crate::error::list_res(r) == top_free_price_of(v, trim(body@)),
        },
{
    let t = text(&trim_str(body));
    match parse_json(t.as_str()) {
        Ok(v) => top_countries_free_price_from_json(&v, t.as_str()),
        Err(e) => Err(e),
    }
}

/// `{"tg":{"0":{country,price,retail_price,count},…},"wa":{…}}`, or the same map wrapped in a
/// one-element array: every service's indexed top countries.
pub open spec fn top_all_of(v: JsonView) -> Result<Map<Seq<char>, Seq<crate::types::TopCountryView>>, ErrorView> {
    let map = match v {
        JsonView::Array(items) => if items.len() == 1 { items[0] } else { v },
        _ => v,
    };
    match map {
        JsonView::Object(es) => top_all_fold(es),
        _ => Err(ErrorView::Parse(crate::json::object_expected("top countries"@))),
    }
}

pub open spec fn top_all_fold(es: Seq<(Seq<char>, JsonView)>) -> Result<Map<Seq<char>, Seq<crate::types::TopCountryView>>, ErrorView>
    decreases es.len(),
{
    if es.len() == 0 {
        Ok(Map::empty())
    } else {
        match top_all_fold(es.drop_last()) {
            Err(e) => Err(e),
            Ok(m) => match crate::protocol::top_countries_of(es.last().1) {
                Err(e) => Err(e),
                Ok(rows) => Ok(m.insert(es.last().0, rows)),
            },
        }
    }
}

/// What a per-service top-countries table denotes.
pub open spec fn top_all_view(t: KeyMap<ServiceCode, Vec<TopCountry>>) -> Map<Seq<char>, Seq<crate::types::TopCountryView>> {
    t@.map_values(|l: Vec<TopCountry>| crate::error::seq_views(l@))
}

proof fn lemma_top_all_err_sticks(es: Seq<(Seq<char>, JsonView)>, k: int, e: ErrorView)
    requires
        0 <= k <= es.len(),
        top_all_fold(es.take(k)) == Err::<Map<Seq<char>, Seq<crate::types::TopCountryView>>, ErrorView>(e),
    ensures
        top_all_fold(es) == Err::<Map<Seq<char>, Seq<crate::types::TopCountryView>>, ErrorView>(e),
    decreases es.len() - k,
{
    if k < es.len() {
        assert(es.take(k + 1).drop_last() =~= es.take(k));
        lemma_top_all_err_sticks(es, k + 1, e);
    } else {
        assert(es.take(k) =~= es);
    }
}

/// Every service's top countries of a decoded answer (see [`top_all_of`]).
pub fn top_countries_all_from_json(v: &Json) -> (r: ApiResult<KeyMap<ServiceCode, Vec<TopCountry>>>)
    ensures
        match r {
            Ok(t) => top_all_of(v@) == Ok::<Map<Seq<char>, Seq<crate::types::TopCountryView>>, ErrorView>(top_all_view(t)),
            Err(e) => top_all_of(v@) == Err::<Map<Seq<char>, Seq<crate::types::TopCountryView>>, ErrorView>(e@),
        },
{
    let map: &Json = match v {
        Json::Array(items) => {
            proof {
                crate::json::lemma_array_view(*items);
            }
            if items.len() == 1 {
                &items[0]
            } else {
                v
            }
        },
        _ => v,
    };
    let es = match as_object(map, "top countries") {
        Ok(es) => es,
        Err(e) => {
            return Err(e);
        },
    };
    let ghost vs = member_views(es@);
    let mut out: KeyMap<ServiceCode, Vec<TopCountry>> = KeyMap::new();
    let mut i: usize = 0;
    assert(vs.take(0) =~= Seq::<(Seq<char>, JsonView)>::empty());
    assert(top_all_view(out) =~= Map::empty());
    while i < es.len()
        invariant
            i <= es@.len(),
            vs == member_views(es@),
            top_all_of(v@) == top_all_fold(vs),
            top_all_fold(vs.take(i as int)) == Ok::<Map<Seq<char>, Seq<crate::types::TopCountryView>>, ErrorView>(top_all_view(out)),
        decreases es.len() - i,
    {
        proof {
            assert(vs.take(i + 1).drop_last() =~= vs.take(i as int));
            assert(vs.take(i + 1).last() == vs[i as int]);
        }
        let rows = match crate::protocol::top_countries_indexed_from_value(&es[i].1) {
            Ok(rows) => rows,
            Err(e) => {
                proof {
                    lemma_top_all_err_sticks(vs, i + 1, e@);
                }
                return Err(e);
            },
        };
        let ghost before = out;
        let ghost lv = crate::error::seq_views(rows@);
        out.insert(ServiceCode(copy_string(&es[i].0)), rows);
        assert(top_all_view(out) =~= top_all_view(before).insert(vs[i as int].0, lv));
        i = i + 1;
    }
    assert(vs.take(i as int) =~= vs);
    Ok(out)
}

/// `getTopCountriesByService` without a service (see [`top_all_of`]).
pub fn parse_top_countries_all(body: &str) -> (r: ApiResult<KeyMap<ServiceCode, Vec<TopCountry>>>)
    ensures
        match json_of_text(trim(body@)) {
            None => r matches Err(e) && e@ is Parse,
            Some(v) => match r {
                Ok(t) => top_all_of(v) == Ok::<Map<Seq<char>, Seq<crate::types::TopCountryView>>, ErrorView>(top_all_view(t)),
                Err(e) => top_all_of(v) == Err::<Map<Seq<char>, Seq<crate::types::TopCountryView>>, ErrorView>(e@),
            },
        },
{
    let t = text(&trim_str(body));
    match parse_json(t.as_str()) {
        Ok(v) => top_countries_all_from_json(&v),
        Err(e) => Err(e),
    }
}

/// One OTP object; an `id` is required.
pub open spec fn otp_of(v: JsonView) -> Option<OtpView> {
    match vstring(jget(v, "id"@)) {
        None => None,
        Some(id) => Some(
            OtpView {
                id,
                phone_from: vstring(jget(v, "phoneFrom"@)),
                code: vstring(jget(v, "code"@)),
                text: vstring(jget(v, "text"@)),
                service: vstring(jget(v, "service"@)),
                date: vstring(jget(v, "date"@)),
                kind: vstring(jget(v, "type"@)),
            },
        ),
    }
}

/// One OTP (see [`otp_of`]); [`ApiError::Parse`] without an id.
pub fn parse_otp(v: &Json) -> (r: ApiResult<Otp>)
    ensures
        match r {
            Ok(o) => otp_of(v@) == Some(o@),
            Err(e) => otp_of(v@) is None && e@ == ErrorView::Parse("otp without id"@),
        },
{
    let id = match value_to_string(v.get("id")) {
        Some(id) => id,
        None => {
            return Err(ApiError::Parse(owned("otp without id")));
        },
    };
    let service = match value_to_string(v.get("service")) {
        Some(c) => Some(ServiceCode(c)),
        None => None,
    };
    Ok(Otp {
        id,
        phone_from: value_to_string(v.get("phoneFrom")),
        code: value_to_string(v.get("code")),
        text: value_to_string(v.get("text")),
        service,
        date: value_to_string(v.get("date")),
        kind: value_to_string(v.get("type")),
    })
}

/// `{"verificationType":"sms","data":{otp}}` → the structured status; `data` that is not an
/// object means no OTP yet.
pub open spec fn status_v2_json(v: JsonView) -> Result<StatusV2View, ErrorView> {
    let vt = vstring(jget(v, "verificationType"@));
    match jget(v, "data"@) {
        Some(JsonView::Object(es)) => match otp_of(JsonView::Object(es)) {
            Some(o) => Ok(StatusV2View::Otp(vt, Some(o))),
            None => Err(ErrorView::Parse("otp without id"@)),
        },
        _ => Ok(StatusV2View::Otp(vt, None)),
    }
}

/// The structured status of a decoded `getStatusV2` answer (see [`status_v2_json`]).
pub fn status_v2_from_json(v: &Json) -> (r: ApiResult<StatusV2>)
    ensures
        crate::error::res_view(r) == status_v2_json(v@),
{
    let otp = match v.get("data") {
        Some(d) => match d {
            Json::Object(_) => match parse_otp(d) {
                Ok(o) => Some(o),
                Err(e) => {
                    return Err(e);
                },
            },
            _ => None,
        },
        None => None,
    };
    Ok(StatusV2::Otp { verification_type: value_to_string(v.get("verificationType")), otp })
}

/// `{"verificationType":"sms","data":{"id":…,"phoneFrom":…,"code":…,"text":…,"service":…,"date":…,"type":…}}`
/// or a classic `STATUS_*` token.
pub fn parse_status_v2(body: &str) -> (r: ApiResult<StatusV2>)
    ensures
        !starts_with_char(trim(body@), '{') ==> match r {
            Ok(s) => crate::protocol::status_of(body@) matches Ok(p) && s@ == StatusV2View::Plain(p),
            Err(e) => crate::protocol::status_of(body@) == Err::<StatusView, ErrorView>(e@),
        },
        starts_with_char(trim(body@), '{') ==> match json_of_text(trim(body@)) {
            None => r matches Err(e) && e@ is Parse,
            Some(v) => crate::error::res_view(r) == status_v2_json(v),
        },
{
    let tc = trim_str(body);
    let t = text(&tc);
    if !(tc.len() > 0 && tc[0] == '{') {
        return match crate::protocol::parse_status(body) {
            Ok(s) => Ok(StatusV2::Plain(s)),
            Err(e) => Err(e),
        };
    }
    match parse_json(t.as_str()) {
        Ok(v) => status_v2_from_json(&v),
        Err(e) => Err(e),
    }
}

pub open spec fn otp_rows(items: Seq<JsonView>) -> Result<Seq<OtpView>, ErrorView>
    decreases items.len(),
{
    if items.len() == 0 {
        Ok(Seq::empty())
    } else {
        match otp_rows(items.drop_last()) {
            Err(e) => Err(e),
            Ok(r) => match otp_of(items.last()) {
                Some(o) => Ok(r.push(o)),
                None => Err(ErrorView::Parse("otp without id"@)),
            },
        }
    }
}

proof fn lemma_otp_err_sticks(items: Seq<JsonView>, k: int, e: ErrorView)
    requires
        0 <= k <= items.len(),
        otp_rows(items.take(k)) == Err::<Seq<OtpView>, ErrorView>(e),
    ensures
        otp_rows(items) == Err::<Seq<OtpView>, ErrorView>(e),
    decreases items.len() - k,
{
    if k < items.len() {
        assert(items.take(k + 1).drop_last() =~= items.take(k));
        lemma_otp_err_sticks(items, k + 1, e);
    } else {
        assert(items.take(k) =~= items);
    }
}

/// What an [`OtpPage`] denotes: the OTPs, the total and the service.
pub open spec fn otp_page_view(p: OtpPage) -> (Seq<OtpView>, Option<u64>, Option<Seq<char>>) {
    (crate::error::seq_views(p.data@), p.meta.total, opt_code(p.meta.service))
}

/// `{"data":[otp…],"meta":{"total":42,"service":"full"}}`: the OTPs come from `data` (or the
/// whole answer when it has no `data`) when that is an array; `meta` may be absent.
pub open spec fn otp_page_of(v: JsonView) -> Result<(Seq<OtpView>, Option<u64>, Option<Seq<char>>), ErrorView> {
    let items = match jget(v, "data"@) {
        Some(JsonView::Array(a)) => Some(a),
        Some(_) => None,
        None => match v {
            JsonView::Array(a) => Some(a),
            _ => None,
        },
    };
    let data = match items {
        Some(a) => otp_rows(a),
        None => Ok(Seq::empty()),
    };
    match data {
        Err(e) => Err(e),
        Ok(d) => Ok((d, vu64(oget(jget(v, "meta"@), "total"@)), vstring(oget(jget(v, "meta"@), "service"@)))),
    }
}

/// The OTPs of a list of documents (see [`otp_rows`]).
fn otps_from_json(a: &Vec<Json>) -> (r: ApiResult<Vec<Otp>>)
    ensures
        crate::error::list_res(r) == otp_rows(views(a@)),
{
    let ghost av = views(a@);
    let mut out: Vec<Otp> = Vec::new();
    let mut i: usize = 0;
    assert(av.take(0) =~= Seq::<JsonView>::empty());
    assert(crate::error::seq_views(out@) =~= Seq::<OtpView>::empty());
    while i < a.len()
        invariant
            i <= a@.len(),
            av == views(a@),
            otp_rows(av.take(i as int)) == Ok::<Seq<OtpView>, ErrorView>(crate::error::seq_views(out@)),
        decreases a.len() - i,
    {
        proof {
            assert(av.take(i + 1).drop_last() =~= av.take(i as int));
            assert(av.take(i + 1).last() == a@[i as int]@);
        }
        let o = match parse_otp(&a[i]) {
            Ok(o) => o,
            Err(e) => {
                proof {
                    lemma_otp_err_sticks(av, i + 1, e@);
                }
                return Err(e);
            },
        };
        let ghost before = out@;
        let ghost ov = o@;
        out.push(o);
        assert(crate::error::seq_views(out@) =~= crate::error::seq_views(before).push(ov));
        i = i + 1;
    }
    assert(av.take(i as int) =~= av);
    Ok(out)
}

/// The OTP page of a decoded `getAllSms` answer (see [`otp_page_of`]).
pub fn otp_page_from_json(v: &Json) -> (r: ApiResult<OtpPage>)
    ensures
        match r {
            Ok(p) => otp_page_of(v@) == Ok::<(Seq<OtpView>, Option<u64>, Option<Seq<char>>), ErrorView>(otp_page_view(p)),
            Err(e) => otp_page_of(v@) == Err::<(Seq<OtpView>, Option<u64>, Option<Seq<char>>), ErrorView>(e@),
        },
{
    let items: Option<&Vec<Json>> = match v.get("data") {
        Some(d) => d.as_array(),
        None => v.as_array(),
    };
    let data = match items {
        Some(a) => match otps_from_json(a) {
            Ok(d) => d,
            Err(e) => {
                return Err(e);
            },
        },
        None => Vec::new(),
    };
    assert(crate::error::seq_views(data@) =~= crate::error::seq_views(data@));
    let meta = v.get("meta");
    let service = match value_to_string(crate::json::get_in(meta, "service")) {
        Some(c) => Some(ServiceCode(c)),
        None => None,
    };
    let page = OtpPage { data, meta: PageMeta { total: value_to_u64(crate::json::get_in(meta, "total")), service } };
    proof {
        if items is None {
            assert(crate::error::seq_views(page.data@) =~= Seq::<OtpView>::empty());
        }
    }
    Ok(page)
}

/// `{"data":[otp…],"meta":{"total":42,"service":"full"}}` (documented shape; `meta` may be absent).
pub fn parse_otp_page(body: &str) -> (r: ApiResult<OtpPage>)
    ensures
        match json_of_text(trim(body@)) {
            None => r matches Err(e) && e@ is Parse,
            Some(v) => match r {
                Ok(p) => otp_page_of(v) == Ok::<(Seq<OtpView>, Option<u64>, Option<Seq<char>>), ErrorView>(otp_page_view(p)),
                Err(e) => otp_page_of(v) == Err::<(Seq<OtpView>, Option<u64>, Option<Seq<char>>), ErrorView>(e@),
            },
        },
{
    let t = text(&trim_str(body));
    match parse_json(t.as_str()) {
        Ok(v) => otp_page_from_json(&v),
        Err(e) => Err(e),
    }
}

/// One `getHistory` row; an `id` is required, an empty SMS text means none.
pub open spec fn history_row(r: JsonView) -> Option<HistoryView> {
    match vstring(jget(r, "id"@)) {
        None => None,
        Some(id) => Some(
            HistoryView {
                id,
                date: vstring(jget(r, "date"@)),
                phone: vstring(jget(r, "phone"@)),
                sms: match vstring(jget(r, "sms"@)) {
                    Some(s) => if s.len() > 0 { Some(s) } else { None },
                    None => None,
                },
                cost: vamount(jget(r, "cost"@)),
                status: vstring(jget(r, "status"@)),
                currency: match vu64(jget(r, "currency"@)) {
                    Some(c) => Some((c % 0x1_0000_0000) as u32),
                    None => None,
                },
            },
        ),
    }
}

pub open spec fn history_rows(items: Seq<JsonView>) -> Result<Seq<HistoryView>, ErrorView>
    decreases items.len(),
{
    if items.len() == 0 {
        Ok(Seq::empty())
    } else {
        match history_rows(items.drop_last()) {
            Err(e) => Err(e),
            Ok(r) => match history_row(items.last()) {
                Some(x) => Ok(r.push(x)),
                None => Err(ErrorView::Parse("history row without id"@)),
            },
        }
    }
}

/// `[{"id":"…","date":"…","phone":"…","sms":"…"|null,"cost":0.1275,"status":"6","currency":840}]`
/// (or those rows under `data`); `t` is the trimmed body.
pub open spec fn history_of(v: JsonView, t: Seq<char>) -> Result<Seq<HistoryView>, ErrorView> {
    match v {
        JsonView::Array(a) => history_rows(a),
        JsonView::Object(_) => match jget(v, "data"@) {
            Some(JsonView::Array(a)) => history_rows(a),
            _ => Ok(Seq::empty()),
        },
        _ => Err(ErrorView::Unexpected(t)),
    }
}

proof fn lemma_history_err_sticks(items: Seq<JsonView>, k: int, e: ErrorView)
    requires
        0 <= k <= items.len(),
        history_rows(items.take(k)) == Err::<Seq<HistoryView>, ErrorView>(e),
    ensures
        history_rows(items) == Err::<Seq<HistoryView>, ErrorView>(e),
    decreases items.len() - k,
{
    if k < items.len() {
        assert(items.take(k + 1).drop_last() =~= items.take(k));
        lemma_history_err_sticks(items, k + 1, e);
    } else {
        assert(items.take(k) =~= items);
    }
}

fn history_row_from_json(r: &Json) -> (res: ApiResult<HistoryEntry>)
    ensures
        match res {
            Ok(x) => history_row(r@) == Some(x@),
            Err(e) => history_row(r@) is None && e@ == ErrorView::Parse("history row without id"@),
        },
{
    let id = match value_to_string(r.get("id")) {
        Some(id) => id,
        None => {
            return Err(ApiError::Parse(owned("history row without id")));
        },
    };
    let sms = match value_to_string(r.get("sms")) {
        Some(s) => if chars_of(s.as_str()).len() > 0 {
            Some(s)
        } else {
            None
        },
        None => None,
    };
    let currency = match value_to_u64(r.get("currency")) {
        Some(c) => Some((c % 0x1_0000_0000u64) as u32),
        None => None,
    };
    Ok(HistoryEntry {
        id: ActivationId(id),
        date: value_to_string(r.get("date")),
        phone: value_to_string(r.get("phone")),
        sms,
        cost: value_to_amount(r.get("cost")),
        status: value_to_string(r.get("status")),
        currency,
    })
}

/// The history rows of a decoded `getHistory` answer (see [`history_of`]; `body` is the
/// trimmed text it was decoded from).
pub fn history_from_json(v: &Json, body: &str) -> (r: ApiResult<Vec<HistoryEntry>>)
    ensures
        crate::error::list_res(r) == history_of(v@, body@),
{
    let empty: Vec<Json> = Vec::new();
    let items: &Vec<Json> = match v {
        Json::Array(a) => {
            proof {
                crate::json::lemma_array_view(*a);
            }
            a
        },
        Json::Object(_) => match v.get("data") {
            Some(d) => match d.as_array() {
                Some(a) => a,
                None => &empty,
            },
            None => &empty,
        },
        _ => {
            return Err(ApiError::Unexpected(owned(body)));
        },
    };
    assert(views(empty@) =~= Seq::<JsonView>::empty());
    let ghost iv = views(items@);
    assert(history_of(v@, body@) == history_rows(iv));
    let mut out: Vec<HistoryEntry> = Vec::new();
    let mut i: usize = 0;
    assert(iv.take(0) =~= Seq::<JsonView>::empty());
    assert(crate::error::seq_views(out@) =~= Seq::<HistoryView>::empty());
    while i < items.len()
        invariant
            i <= items@.len(),
            iv == views(items@),
            history_of(v@, body@) == history_rows(iv),
            history_rows(iv.take(i as int)) == Ok::<Seq<HistoryView>, ErrorView>(crate::error::seq_views(out@)),
        decreases items.len() - i,
    {
        proof {
            assert(iv.take(i + 1).drop_last() =~= iv.take(i as int));
            assert(iv.take(i + 1).last() == items@[i as int]@);
        }
        let row = match history_row_from_json(&items[i]) {
            Ok(x) => x,
            Err(e) => {
                proof {
                    lemma_history_err_sticks(iv, i + 1, e@);
                }
                return Err(e);
            },
        };
        let ghost before = out@;
        let ghost rv = row@;
        out.push(row);
        assert(crate::error::seq_views(out@) =~= crate::error::seq_views(before).push(rv));
        i = i + 1;
    }
    assert(iv.take(i as int) =~= iv);
    Ok(out)
}

/// `[{"id":"…","date":"2026-08-29 12:00:36","phone":"…","sms":"…"|null,"cost":0.1275,"status":"6","currency":840}]`
pub fn parse_history(body: &str) -> (r: ApiResult<Vec<HistoryEntry>>)
    ensures
        match json_of_text(trim(body@)) {
            None => r matches Err(e) && e@ is Parse,
            Some(v) => crate::error::list_res(r) == history_of(v, trim(body@)),
        },
{
    let t = text(&trim_str(body));
    match parse_json(t.as_str()) {
        Ok(v) => history_from_json(&v, t.as_str()),
        Err(e) => Err(e),
    }
}

/// `items` joined with `sep`.
pub open spec fn joined(items: Seq<Seq<char>>, sep: char) -> Seq<char>
    decreases items.len(),
{
    if items.len() == 0 {
        Seq::empty()
    } else if items.len() == 1 {
        items[0]
    } else {
        joined(items.drop_last(), sep) + seq![sep] + items.last()
    }
}

/// `items` joined with `sep` (`[a, b].join(",")`).
pub fn join_with(items: &Vec<String>, sep: char) -> (r: String)
    ensures
        r@ == joined(crate::error::seq_views(items@), sep),
{
    let ghost iv = crate::error::seq_views(items@);
    let mut out: Vec<char> = Vec::new();
    let mut i: usize = 0;
    assert(iv.take(0) =~= Seq::<Seq<char>>::empty());
    while i < items.len()
        invariant
            i <= items@.len(),
            iv == crate::error::seq_views(items@),
            out@ == joined(iv.take(i as int), sep),
        decreases items.len() - i,
    {
        let ghost before = out@;
        if i > 0 {
            out.push(sep);
        }
        let cs = chars_of(items[i].as_str());
        let mut j: usize = 0;
        let ghost mid = out@;
        while j < cs.len()
            invariant
                j <= cs@.len(),
                out@ == mid + cs@.take(j as int),
            decreases cs.len() - j,
        {
            out.push(cs[j]);
            j = j + 1;
            assert(out@ =~= mid + cs@.take(j as int));
        }
        proof {
            assert(cs@.take(j as int) =~= cs@);
            assert(iv.take(i + 1).drop_last() =~= iv.take(i as int));
            assert(iv.take(i + 1).last() == items@[i as int]@);
            if i == 0 {
                assert(out@ =~= iv.take(1)[0]);
            } else {
                assert(out@ =~= before + seq![sep] + items@[i as int]@);
            }
        }
        i = i + 1;
    }
    assert(iv.take(i as int) =~= iv);
    crate::text::string_of(&out)
}

/// Hero-SMS-only `getNumber` / `getNumberV2` parameters. Price bounds: only `maxPrice` exists
/// on Hero-SMS; `min_price` is rejected by [`Client::get_number_with`].
#[derive(Debug, Default, PartialEq, Eq)]
pub struct HeroNumberOptions {
    /// `fixedPrice=true`: buy strictly at `maxPrice`; only sent together with a `max_price`.
    pub fixed_price: bool,
    /// `ref`: referral identifier.
    pub referral: Option<String>,
    /// `phoneException`: number prefixes you do not want (max 20), sent comma-separated.
    pub phone_exception: Vec<String>,
}

impl View for HeroNumberOptions {
    type V = (bool, Option<Seq<char>>, Seq<Seq<char>>);

    open spec fn view(&self) -> (bool, Option<Seq<char>>, Seq<Seq<char>>) {
        (self.fixed_price, opt_text(self.referral), crate::error::seq_views(self.phone_exception@))
    }
}

/// The extra parameters the options add to a request.
pub open spec fn hero_extra(o: (bool, Option<Seq<char>>, Seq<Seq<char>>), r: RequestParams) -> Seq<(Seq<char>, Seq<char>)> {
    (if o.0 && r.max_price is Some { seq![("fixedPrice"@, "true"@)] } else { Seq::empty() })
        + (match o.1 {
        Some(x) => seq![("ref"@, x)],
        None => Seq::empty(),
    }) + (if o.2.len() > 0 { seq![("phoneException"@, joined(o.2, ','))] } else { Seq::empty() })
}

impl HeroNumberOptions {
    pub fn new() -> (r: Self)
        ensures
            r@ == (false, None::<Seq<char>>, Seq::<Seq<char>>::empty()),
    {
        let r = HeroNumberOptions { fixed_price: false, referral: None, phone_exception: Vec::new() };
        assert(r@.2 =~= Seq::<Seq<char>>::empty());
        r
    }

    pub fn fixed_price(self, fixed: bool) -> (r: Self)
        ensures
            r@ == (fixed, self@.1, self@.2),
    {
        let mut s = self;
        s.fixed_price = fixed;
        s
    }

    pub fn referral(self, referral: &str) -> (r: Self)
        ensures
            r@ == (self@.0, Some(referral@), self@.2),
    {
        let mut s = self;
        s.referral = Some(crate::error::owned(referral));
        s
    }

    pub fn exclude_prefix(self, prefix: &str) -> (r: Self)
        ensures
            r@ == (self@.0, self@.1, self@.2.push(prefix@)),
    {
        let mut s = self;
        let ghost before = s.phone_exception@;
        s.phone_exception.push(crate::error::owned(prefix));
        assert(crate::error::seq_views(s.phone_exception@) =~= crate::error::seq_views(before).push(prefix@));
        s
    }

    /// Applies the options to a [`NumberRequest`] as extra query parameters (the caller's
    /// request is left as it is). `fixedPrice` is only emitted alongside a `max_price`.
    pub fn apply(&self, request: &NumberRequest) -> (r: NumberRequest)
        ensures
            r@ == (RequestParams { extra: request@.extra + hero_extra(self@, request@), ..request@ }),
    {
        let mut req = request.clone();
        let ghost base = req@.extra;
        if self.fixed_price && request.max_price.is_some() {
            req = req.extra("fixedPrice", "true");
        }
        let ghost e1 = req@.extra;
        assert(e1 =~= base + (if self@.0 && request@.max_price is Some {
            seq![("fixedPrice"@, "true"@)]
        } else {
            Seq::<(Seq<char>, Seq<char>)>::empty()
        }));
        if let Some(r) = &self.referral {
            req = req.extra("ref", r.as_str());
        }
        let ghost e2 = req@.extra;
        assert(e2 =~= e1 + (match self@.1 {
            Some(x) => seq![("ref"@, x)],
            None => Seq::<(Seq<char>, Seq<char>)>::empty(),
        }));
        if self.phone_exception.len() > 0 {
            let joined_list = join_with(&self.phone_exception, ',');
            req = req.extra("phoneException", joined_list.as_str());
        }
        assert(req@.extra =~= e2 + (if self@.2.len() > 0 {
            seq![("phoneException"@, joined(self@.2, ','))]
        } else {
            Seq::<(Seq<char>, Seq<char>)>::empty()
        }));
        assert(req@.extra =~= request@.extra + hero_extra(self@, request@));
        req
    }
}

/// A `BAD_ACTION` error without a name gets the name of the action that was sent.
pub open spec fn named_error(e: ErrorView, action: Seq<char>) -> ErrorView {
    match e {
        ErrorView::BadAction(name) => if name.len() == 0 { ErrorView::BadAction(action) } else { e },
        _ => e,
    }
}

/// A request's outcome with a nameless `BAD_ACTION` naming `action` (see [`named_error`]).
pub open spec fn named_outcome(out: Result<Seq<char>, ErrorView>, action: Seq<char>) -> Result<Seq<char>, ErrorView> {
    match out {
        Err(e) => Err(named_error(e, action)),
        Ok(b) => Ok(b),
    }
}

/// Names the action in a nameless `BAD_ACTION` error (see [`named_error`]).
pub fn name_bad_action(e: ApiError, action: &str) -> (r: ApiError)
    ensures
        r@ == named_error(e@, action@),
{
    match e {
        ApiError::BadAction(name) => {
            if chars_of(name.as_str()).len() == 0 {
                ApiError::BadAction(crate::error::owned(action))
            } else {
                ApiError::BadAction(name)
            }
        },
        other => other,
    }
}

/// The query parameters of `getHistory`: `start`, `end`, `offset`, `size`, those that are set.
pub open spec fn history_query(q: HistoryQuery) -> Seq<(Seq<char>, Seq<char>)> {
    (match q.start {
        Some(v) => seq![("start"@, crate::num::dec(v as nat))],
        None => Seq::empty(),
    }) + (match q.end {
        Some(v) => seq![("end"@, crate::num::dec(v as nat))],
        None => Seq::empty(),
    }) + (match q.offset {
        Some(v) => seq![("offset"@, crate::num::dec(v as nat))],
        None => Seq::empty(),
    }) + (match q.size {
        Some(v) => seq![("size"@, crate::num::dec(v as nat))],
        None => Seq::empty(),
    })
}

/// A numeric query parameter, sent when there is a value.
pub open spec fn opt_number_param(key: Seq<char>, v: Option<u64>) -> Seq<(Seq<char>, Seq<char>)> {
    match v {
        Some(n) => seq![(key, crate::num::dec(n as nat))],
        None => Seq::empty(),
    }
}

fn push_number_param(params: &mut Vec<(String, String)>, key: &str, v: Option<u64>)
    ensures
        pairs_view(final(params)@) == pairs_view(old(params)@) + opt_number_param(key@, v),
{
    let ghost before = pairs_view(params@);
    if let Some(n) = v {
        params.push((crate::error::owned(key), crate::num::u64_to_string(n)));
        assert(pairs_view(params@) =~= before + seq![(key@, crate::num::dec(n as nat))]);
    } else {
        assert(pairs_view(params@) =~= before + Seq::<(Seq<char>, Seq<char>)>::empty());
    }
}

/// The query parameters of a history request (see [`history_query`]).
pub fn history_params(q: &HistoryQuery) -> (r: Vec<(String, String)>)
    ensures
        pairs_view(r@) == history_query(*q),
{
    let mut params: Vec<(String, String)> = Vec::new();
    assert(pairs_view(params@) =~= Seq::<(Seq<char>, Seq<char>)>::empty());
    push_number_param(&mut params, "start", q.start);
    push_number_param(&mut params, "end", q.end);
    push_number_param(&mut params, "offset", q.offset);
    push_number_param(&mut params, "size", q.size);
    assert(pairs_view(params@) =~= history_query(*q));
    params
}

/// The error `get_number_with` answers before any request, if any.
pub open spec fn number_with_error(r: RequestParams, o: (bool, Option<Seq<char>>, Seq<Seq<char>>)) -> Option<ErrorView> {
    if r.min_price is Some {
        Some(ErrorView::Unsupported("minPrice"@))
    } else if o.0 && r.max_price is None {
        Some(ErrorView::Validation("maxPrice"@, "fixedPrice requires max_price"@))
    } else {
        None
    }
}

/// `Client` over the Hero-SMS dialect.
pub type HeroSms<T> = Client<T, HeroSmsDialect>;

/// The operators a `getOperators` table lists for `country`; none when it has no row for it.
pub fn operators_in(table: KeyMap<CountryRef, Vec<String>>, country: CountryId) -> (r: Vec<String>)
    ensures
        table@.contains_key(CountryKey::Id(country)) ==> r == table@[CountryKey::Id(country)],
        !table@.contains_key(CountryKey::Id(country)) ==> r@.len() == 0,
{
    let key = CountryRef::Id(country);
    match table.position(&key) {
        Some(i) => {
            let mut entries = table.into_entries();
            proof {
                lemma_map_of_index(entries@, i as int);
            }
            let (_, ops) = entries.remove(i);
            ops
        },
        None => Vec::new(),
    }
}

/// Whether `m` holds exactly the rows of `t` under a numeric country id, keyed by that id.
pub open spec fn keyed_by_id(m: Map<u32, Vec<String>>, t: Map<CountryKey, Vec<String>>) -> bool {
    &&& forall|id: u32| #[trigger] m.contains_key(id) == t.contains_key(CountryKey::Id(id))
    &&& forall|id: u32| m.contains_key(id) ==> #[trigger] m[id] == t[CountryKey::Id(id)]
}

/// A `getOperators` table keyed by numeric country id, in table order; rows under a slug are
/// dropped.
pub fn operators_by_id(table: KeyMap<CountryRef, Vec<String>>) -> (r: KeyMap<CountryId, Vec<String>>)
    ensures
        keyed_by_id(r@, table@),
{
    let ghost orig = table.seq();
    let mut entries = table.into_entries();
    let mut out: KeyMap<CountryId, Vec<String>> = KeyMap::new();
    let ghost mut k: int = 0;
    while entries.len() > 0
        invariant
            0 <= k <= orig.len(),
            entries@ == orig.skip(k),
            unique_keys(orig),
            forall|id: u32| #[trigger] out@.contains_key(id) == (exists|j: int| 0 <= j < k && orig[j].0@ == CountryKey::Id(id)),
            forall|id: u32, j: int| 0 <= j < k && orig[j].0@ == CountryKey::Id(id) ==> #[trigger] out@[id] == #[trigger] orig[j].1,
        decreases entries.len(),
    {
        assert(orig[k] == entries@[0]);
        let (c, ops) = entries.remove(0);
        let ghost before = out@;
        if let CountryRef::Id(id) = c {
            out.insert(id, ops);
            assert forall|id2: u32, j: int| 0 <= j < k + 1 && orig[j].0@ == CountryKey::Id(id2) implies #[trigger] out@[id2] == #[trigger] orig[j].1 by {
                if j < k && id2 == id {
                    assert(orig[j].0@ == orig[k].0@);
                }
            }
        }
        assert forall|id2: u32| #[trigger] out@.contains_key(id2) == (exists|j: int| 0 <= j < k + 1 && orig[j].0@ == CountryKey::Id(id2)) by {
            if exists|j: int| 0 <= j < k + 1 && orig[j].0@ == CountryKey::Id(id2) {
                let j = choose|j: int| 0 <= j < k + 1 && orig[j].0@ == CountryKey::Id(id2);
                if j < k {
                    assert(before.contains_key(id2));
                }
            }
        }
        proof {
            assert(entries@ =~= orig.skip(k + 1));
            k = k + 1;
        }
    }
    assert forall|id: u32| #[trigger] out@.contains_key(id) == table@.contains_key(CountryKey::Id(id)) by {
        lemma_map_of_keys(orig, CountryKey::Id(id));
    }
    assert forall|id: u32| out@.contains_key(id) implies #[trigger] out@[id] == table@[CountryKey::Id(id)] by {
        let j = choose|j: int| 0 <= j < k && orig[j].0@ == CountryKey::Id(id);
        lemma_map_of_index(orig, j);
    }
    out
}

/// What [`Client::get_top_countries_free_price`] makes of the answer `ans`.
pub open spec fn top_countries_free_price_read(ans: Seq<char>, r: ApiResult<Vec<HeroTopCountry>>) -> bool {
    match json_of_text(trim(ans)) {
        None => r matches Err(e) && e@ is Parse,
        Some(v) => crate::error::list_res(r) == top_free_price_of(v, trim(ans)),
    }
}

/// What [`Client::get_top_countries_all`] makes of the answer `ans`.
pub open spec fn top_countries_all_read(ans: Seq<char>, r: ApiResult<KeyMap<ServiceCode, Vec<TopCountry>>>) -> bool {
    match json_of_text(trim(ans)) {
        None => r matches Err(e) && e@ is Parse,
        Some(v) => match r {
            Ok(t) => top_all_of(v) == Ok::<Map<Seq<char>, Seq<crate::types::TopCountryView>>, ErrorView>(top_all_view(t)),
            Err(e) => top_all_of(v) == Err::<Map<Seq<char>, Seq<crate::types::TopCountryView>>, ErrorView>(e@),
        },
    }
}

/// What [`Client::get_services_for`] makes of the answer `ans`.
pub open spec fn services_for_read(ans: Seq<char>, r: ApiResult<Vec<crate::types::Service>>) -> bool {
    match json_of_text(trim(ans)) {
        None => r matches Err(e) && e@ is Parse,
        Some(v) => match r {
            Ok(l) => crate::protocol::services_of(v) == Some(crate::error::seq_views(l@)),
            Err(e) => crate::protocol::services_of(v) is None && e@ is Parse,
        },
    }
}

/// What [`Client::get_active_activations_page`] makes of the answer `ans`.
pub open spec fn active_activations_page_read(ans: Seq<char>, r: ApiResult<Vec<ActiveActivation>>) -> bool {
    match json_of_text(trim(ans)) {
        None => r matches Err(e) && e@ is Parse,
        Some(v) => crate::error::list_res(r) == match jget(v, "data"@) {
            Some(JsonView::Array(rows)) => if rows.len() > 0 {
                crate::protocol::active_activations_of(JsonView::Array(rows))
            } else {
                crate::protocol::active_activations_of(v)
            },
            _ => crate::protocol::active_activations_of(v),
        },
    }
}

/// What [`Client::get_status_v2`] makes of the answer `ans`.
pub open spec fn status_v2_read(ans: Seq<char>, r: ApiResult<StatusV2>) -> bool {
    (!starts_with_char(trim(ans), '{') ==> match r {
        Ok(s) => crate::protocol::status_of(ans) matches Ok(p) && s@ == StatusV2View::Plain(p),
        Err(e) => crate::protocol::status_of(ans) == Err::<StatusView, ErrorView>(e@),
    }) && (starts_with_char(trim(ans), '{') ==> match json_of_text(trim(ans)) {
        None => r matches Err(e) && e@ is Parse,
        Some(v) => crate::error::res_view(r) == status_v2_json(v),
    })
}

/// What [`Client::get_all_sms`] makes of the answer `ans`.
pub open spec fn all_sms_read(ans: Seq<char>, r: ApiResult<OtpPage>) -> bool {
    match json_of_text(trim(ans)) {
        None => r matches Err(e) && e@ is Parse,
        Some(v) => match r {
            Ok(p) => otp_page_of(v) == Ok::<(Seq<OtpView>, Option<u64>, Option<Seq<char>>), ErrorView>(otp_page_view(p)),
            Err(e) => otp_page_of(v) == Err::<(Seq<OtpView>, Option<u64>, Option<Seq<char>>), ErrorView>(e@),
        },
    }
}

/// What [`Client::get_history`] makes of the answer `ans`.
pub open spec fn history_read(ans: Seq<char>, r: ApiResult<Vec<HistoryEntry>>) -> bool {
    match json_of_text(trim(ans)) {
        None => r matches Err(e) && e@ is Parse,
        Some(v) => crate::error::list_res(r) == history_of(v, trim(ans)),
    }
}

/// What [`Client::get_operators_in`] makes of the answer `ans`: the operators the table it
/// reads as lists for `country` (none without a row), or the error reading it.
pub open spec fn operators_in_read(ans: Seq<char>, country: CountryId, r: ApiResult<Vec<String>>) -> bool {
    match json_of_text(trim(ans)) {
        None => r matches Err(e) && e@ is Parse,
        Some(v) => match r {
            Ok(ops) => exists|t: KeyMap<CountryRef, Vec<String>>|
                #![trigger crate::protocol::operators_view(t)]
                crate::protocol::operators_of(v) == Ok::<Map<CountryKey, Seq<Seq<char>>>, ErrorView>(
                    crate::protocol::operators_view(t),
                ) && (t@.contains_key(CountryKey::Id(country)) ==> ops == t@[CountryKey::Id(country)]) && (
                !t@.contains_key(CountryKey::Id(country)) ==> ops@.len() == 0),
            Err(e) => crate::protocol::operators_of(v) == Err::<Map<CountryKey, Seq<Seq<char>>>, ErrorView>(e@),
        },
    }
}

/// What [`Client::get_all_operators`] makes of the answer `ans`: the rows of the table it reads
/// as keyed by numeric country id, or the error reading it.
pub open spec fn all_operators_read(ans: Seq<char>, r: ApiResult<KeyMap<CountryId, Vec<String>>>) -> bool {
    match json_of_text(trim(ans)) {
        None => r matches Err(e) && e@ is Parse,
        Some(v) => match r {
            Ok(m) => exists|t: KeyMap<CountryRef, Vec<String>>|
                #![trigger crate::protocol::operators_view(t)]
                crate::protocol::operators_of(v) == Ok::<Map<CountryKey, Seq<Seq<char>>>, ErrorView>(
                    crate::protocol::operators_view(t),
                ) && keyed_by_id(m@, t@),
            Err(e) => crate::protocol::operators_of(v) == Err::<Map<CountryKey, Seq<Seq<char>>>, ErrorView>(e@),
        },
    }
}

impl<T: Transport> Client<T, HeroSmsDialect> {
    /// Whether `r` is what a provider-only action makes of some answer the transport may give
    /// to the URL of `action` with `params`: the dialect's error, a nameless `BAD_ACTION` naming
    /// `action`, or what `read` allows of a body taken for data.
    pub open spec fn named_answered<R>(
        &self,
        action: Seq<char>,
        params: Seq<(Seq<char>, Seq<char>)>,
        r: ApiResult<R>,
        read: spec_fn(Seq<char>) -> bool,
    ) -> bool {
        exists|o: Outcome|
            #[trigger] self.transport_value().answers(self.sent_url(action, params), o) && reads_outcome(
                named_outcome(call_outcome(self.dialect_value(), o), action),
                r,
                read,
            )
    }

    /// [`Client::call`] for a provider-only action: a `BAD_ACTION` answer (whose envelope
    /// carries no action name) is reported as `BadAction("<action>")`.
    fn call_named(&self, action: &'static str, params: Vec<(String, String)>) -> (r: ApiResult<String>)
        ensures
            self.named_answered(action@, pairs_view(params@), r, |b: Seq<char>| r matches Ok(x) && x@ == b),
    {
        let ghost q = pairs_view(params@);
        let sent = self.call(action, params);
        let ghost sent_v = sent;
        let ghost o = choose|o: Outcome|
            #[trigger] self.transport_value().answers(self.sent_url(action@, q), o) && reads_outcome(
                call_outcome(self.dialect_value(), o),
                sent_v,
                |b: Seq<char>| sent_v matches Ok(x) && x@ == b,
            );
        assert(self.transport_value().answers(self.sent_url(action@, q), o));
        let r = match sent {
            Ok(b) => Ok(b),
            Err(e) => Err(name_bad_action(e, action)),
        };
        assert(reads_outcome(
            named_outcome(call_outcome(self.dialect_value(), o), action@),
            r,
            |b: Seq<char>| r matches Ok(x) && x@ == b,
        ));
        r
    }

    /// A method that hands on the error of its provider-only request keeps to what the
    /// transport answered.
    proof fn lemma_named_error_handed_on<R>(
        &self,
        action: Seq<char>,
        params: Seq<(Seq<char>, Seq<char>)>,
        sent: ApiResult<String>,
        r: ApiResult<R>,
        read: spec_fn(Seq<char>) -> bool,
    )
        requires
            self.named_answered(action, params, sent, |b: Seq<char>| sent matches Ok(x) && x@ == b),
            sent matches Err(e) && r matches Err(e2) && e2@ == e@,
        ensures
            self.named_answered(action, params, r, read),
    {
        let o = choose|o: Outcome|
            #[trigger] self.transport_value().answers(self.sent_url(action, params), o) && reads_outcome(
                named_outcome(call_outcome(self.dialect_value(), o), action),
                sent,
                |b: Seq<char>| sent matches Ok(x) && x@ == b,
            );
        assert(self.transport_value().answers(self.sent_url(action, params), o));
    }

    /// A method whose result is what `read` allows of the body its provider-only request
    /// brought back keeps to what the transport answered.
    proof fn lemma_named_body_read<R>(
        &self,
        action: Seq<char>,
        params: Seq<(Seq<char>, Seq<char>)>,
        sent: ApiResult<String>,
        r: ApiResult<R>,
        read: spec_fn(Seq<char>) -> bool,
    )
        requires
            self.named_answered(action, params, sent, |b: Seq<char>| sent matches Ok(x) && x@ == b),
            sent matches Ok(b) && read(b@),
        ensures
            self.named_answered(action, params, r, read),
    {
        let o = choose|o: Outcome|
            #[trigger] self.transport_value().answers(self.sent_url(action, params), o) && reads_outcome(
                named_outcome(call_outcome(self.dialect_value(), o), action),
                sent,
                |b: Seq<char>| sent matches Ok(x) && x@ == b,
            );
        assert(self.transport_value().answers(self.sent_url(action, params), o));
    }

    /// `getNumber` / `getNumberV2` with the Hero-SMS-only parameters of [`HeroNumberOptions`].
    /// Fails before any request with `Unsupported("minPrice")` when `request.min_price` is set
    /// and with a `maxPrice` validation error when `fixed_price` is set without a `max_price`.
    pub fn get_number_with(&self, request: &NumberRequest, options: &HeroNumberOptions) -> (r: ApiResult<crate::types::Activation>)
        ensures
            number_with_error(request@, options@) matches Some(e) ==> (r matches Err(x) && x@ == e),
            number_with_error(request@, options@) is None ==> self.answered(
                "getNumberV2"@,
                crate::api::number_query(RequestParams { extra: request@.extra + hero_extra(options@, request@), ..request@ }),
                r,
                |b: Seq<char>| self.dialect_value().activation_answer(b, r),
            ),
    {
        if request.min_price.is_some() {
            return Err(ApiError::Unsupported("minPrice"));
        }
        if options.fixed_price && request.max_price.is_none() {
            return Err(ApiError::Validation {
                field: crate::error::owned("maxPrice"),
                message: crate::error::owned("fixedPrice requires max_price"),
            });
        }
        crate::api::SmsActivateApi::get_number(self, &options.apply(request))
    }

    /// `getTopCountriesByService&service=…&freePrice=true` — per-country price tiers.
    pub fn get_top_countries_free_price(&self, service: &ServiceCode) -> (r: ApiResult<Vec<HeroTopCountry>>)
        ensures
            self.named_answered(
                "getTopCountriesByService"@,
                seq![("service"@, service@), ("freePrice"@, "true"@)],
                r,
                |ans: Seq<char>| top_countries_free_price_read(ans, r),
            ),
    {
        let mut params: Vec<(String, String)> = Vec::new();
        params.push((crate::error::owned("service"), copy_string(&service.0)));
        params.push((crate::error::owned("freePrice"), crate::error::owned("true")));
        let ghost q = pairs_view(params@);
        assert(q =~= seq![("service"@, service@), ("freePrice"@, "true"@)]);
        let sent = self.call_named("getTopCountriesByService", params);
        let ghost sent_v = sent;
        let body = match sent {
            Ok(b) => b,
            Err(e) => {
                let r = Err(e);
                proof {
                    self.lemma_named_error_handed_on(
                        "getTopCountriesByService"@,
                        q,
                        sent_v,
                        r,
                        |ans: Seq<char>| top_countries_free_price_read(ans, r),
                    );
                }
                return r;
            },
        };
        let r = parse_top_countries_free_price(body.as_str());
        proof {
            self.lemma_named_body_read(
                "getTopCountriesByService"@,
                q,
                sent_v,
                r,
                |ans: Seq<char>| top_countries_free_price_read(ans, r),
            );
        }
        r
    }

    /// `getTopCountriesByService` without a service: every service's top countries (heavy).
    pub fn get_top_countries_all(&self) -> (r: ApiResult<KeyMap<ServiceCode, Vec<TopCountry>>>)
        ensures
            self.named_answered(
                "getTopCountriesByService"@,
                Seq::empty(),
                r,
                |ans: Seq<char>| top_countries_all_read(ans, r),
            ),
    {
                let params = Vec::new();
        let ghost q = pairs_view(params@);
        assert(q =~= Seq::empty());
        let sent = self.call_named("getTopCountriesByService", params);
        let ghost sent_v = sent;
        let body = match sent {
            Ok(b) => b,
            Err(e) => {
                let r = Err(e);
                proof {
                    self.lemma_named_error_handed_on(
                        "getTopCountriesByService"@,
                        q,
                        sent_v,
                        r,
                        |ans: Seq<char>| top_countries_all_read(ans, r),
                    );
                }
                return r;
            },
        };
        let r = parse_top_countries_all(body.as_str());
        proof {
            self.lemma_named_body_read(
                "getTopCountriesByService"@,
                q,
                sent_v,
                r,
                |ans: Seq<char>| top_countries_all_read(ans, r),
            );
        }
        r
    }

    /// `getOperators&country=…` — operator names for one country (empty when none listed).
    pub fn get_operators_in(&self, country: CountryId) -> (r: ApiResult<Vec<String>>)
        ensures
            self.answered(
                "getOperators"@,
                seq![("country"@, crate::num::dec(country as nat))],
                r,
                |ans: Seq<char>| operators_in_read(ans, country, r),
            ),
    {
        let key = CountryRef::Id(country);
        let mut params: Vec<(String, String)> = Vec::new();
        params.push((crate::error::owned("country"), key.to_string()));
        let ghost q = pairs_view(params@);
        assert(q =~= seq![("country"@, crate::num::dec(country as nat))]);
        let sent = self.call("getOperators", params);
        let ghost sent_v = sent;
        let body = match sent {
            Ok(b) => b,
            Err(e) => {
                let r = Err(e);
                proof {
                    self.lemma_error_handed_on(
                        "getOperators"@,
                        q,
                        sent_v,
                        r,
                        |ans: Seq<char>| operators_in_read(ans, country, r),
                    );
                }
                return r;
            },
        };
        let r = match crate::protocol::parse_operators(body.as_str()) {
            Ok(map) => {
                let ghost t = map;
                let out = operators_in(map, country);
                assert(crate::protocol::operators_view(t) == crate::protocol::operators_view(map));
                Ok(out)
            },
            Err(e) => Err(e),
        };
        proof {
            self.lemma_body_read(
                "getOperators"@,
                q,
                sent_v,
                r,
                |ans: Seq<char>| operators_in_read(ans, country, r),
            );
        }
        r
    }

    /// `getOperators` — operators for every country that has any, keyed by numeric id
    /// (non-numeric keys are dropped).
    pub fn get_all_operators(&self) -> (r: ApiResult<KeyMap<CountryId, Vec<String>>>)
        ensures
            self.answered("getOperators"@, Seq::empty(), r, |ans: Seq<char>| all_operators_read(ans, r)),
    {
        let params: Vec<(String, String)> = Vec::new();
        let ghost q = pairs_view(params@);
        assert(q =~= Seq::empty());
        let sent = self.call("getOperators", params);
        let ghost sent_v = sent;
        let body = match sent {
            Ok(b) => b,
            Err(e) => {
                let r = Err(e);
                proof {
                    self.lemma_error_handed_on(
                        "getOperators"@,
                        q,
                        sent_v,
                        r,
                        |ans: Seq<char>| all_operators_read(ans, r),
                    );
                }
                return r;
            },
        };
        let r = match crate::protocol::parse_operators(body.as_str()) {
            Ok(map) => {
                let ghost t = map;
                let out = operators_by_id(map);
                assert(crate::protocol::operators_view(t) == crate::protocol::operators_view(map));
                Ok(out)
            },
            Err(e) => Err(e),
        };
        proof {
            self.lemma_body_read("getOperators"@, q, sent_v, r, |ans: Seq<char>| all_operators_read(ans, r));
        }
        r
    }

    /// `getServicesList[&country][&lang]` — services sold in `country` (all when `None`),
    /// names in `lang`.
    pub fn get_services_for(&self, country: Option<CountryId>, lang: Option<&str>) -> (r: ApiResult<Vec<crate::types::Service>>)
        ensures
            self.named_answered(
                "getServicesList"@,
                (match country { Some(c) => seq![("country"@, crate::num::dec(c as nat))], None => Seq::empty() }) + (match lang { Some(l) => seq![("lang"@, l@)], None => Seq::empty() }),
                r,
                |ans: Seq<char>| services_for_read(ans, r),
            ),
    {
        let mut params: Vec<(String, String)> = Vec::new();
        if let Some(c) = country {
            params.push((crate::error::owned("country"), crate::num::u64_to_string(c as u64)));
        }
        if let Some(l) = lang {
            params.push((crate::error::owned("lang"), crate::error::owned(l)));
        }
        let ghost q = pairs_view(params@);
        assert(q =~= (match country { Some(c) => seq![("country"@, crate::num::dec(c as nat))], None => Seq::empty() }) + (match lang { Some(l) => seq![("lang"@, l@)], None => Seq::empty() }));
        let sent = self.call_named("getServicesList", params);
        let ghost sent_v = sent;
        let body = match sent {
            Ok(b) => b,
            Err(e) => {
                let r = Err(e);
                proof {
                    self.lemma_named_error_handed_on(
                        "getServicesList"@,
                        q,
                        sent_v,
                        r,
                        |ans: Seq<char>| services_for_read(ans, r),
                    );
                }
                return r;
            },
        };
        let r = crate::protocol::parse_services(body.as_str());
        proof {
            self.lemma_named_body_read(
                "getServicesList"@,
                q,
                sent_v,
                r,
                |ans: Seq<char>| services_for_read(ans, r),
            );
        }
        r
    }

    /// `getActiveActivations&start=…&limit=…` (limit ≤ 100).
    pub fn get_active_activations_page(&self, start: u64, limit: u64) -> (r: ApiResult<Vec<ActiveActivation>>)
        ensures
            self.named_answered(
                "getActiveActivations"@,
                seq![("start"@, crate::num::dec(start as nat)), ("limit"@, crate::num::dec(limit as nat))],
                r,
                |ans: Seq<char>| active_activations_page_read(ans, r),
            ),
    {
        let mut params: Vec<(String, String)> = Vec::new();
        params.push((crate::error::owned("start"), crate::num::u64_to_string(start)));
        params.push((crate::error::owned("limit"), crate::num::u64_to_string(limit)));
        let ghost q = pairs_view(params@);
        assert(q =~= seq![("start"@, crate::num::dec(start as nat)), ("limit"@, crate::num::dec(limit as nat))]);
        let sent = self.call_named("getActiveActivations", params);
        let ghost sent_v = sent;
        let body = match sent {
            Ok(b) => b,
            Err(e) => {
                let r = Err(e);
                proof {
                    self.lemma_named_error_handed_on(
                        "getActiveActivations"@,
                        q,
                        sent_v,
                        r,
                        |ans: Seq<char>| active_activations_page_read(ans, r),
                    );
                }
                return r;
            },
        };
        let r = self.dialect().parse_active_activations(body.as_str());
        proof {
            self.lemma_named_body_read(
                "getActiveActivations"@,
                q,
                sent_v,
                r,
                |ans: Seq<char>| active_activations_page_read(ans, r),
            );
        }
        r
    }

    /// `getStatusV2` — structured status with the full OTP (code, text, sender, timestamp).
    pub fn get_status_v2(&self, id: &ActivationId) -> (r: ApiResult<StatusV2>)
        ensures
            self.named_answered(
                "getStatusV2"@,
                seq![("id"@, id@)],
                r,
                |ans: Seq<char>| status_v2_read(ans, r),
            ),
    {
        let mut params: Vec<(String, String)> = Vec::new();
        params.push((crate::error::owned("id"), copy_string(&id.0)));
        let ghost q = pairs_view(params@);
        assert(q =~= seq![("id"@, id@)]);
        let sent = self.call_named("getStatusV2", params);
        let ghost sent_v = sent;
        let body = match sent {
            Ok(b) => b,
            Err(e) => {
                let r = Err(e);
                proof {
                    self.lemma_named_error_handed_on(
                        "getStatusV2"@,
                        q,
                        sent_v,
                        r,
                        |ans: Seq<char>| status_v2_read(ans, r),
                    );
                }
                return r;
            },
        };
        let r = parse_status_v2(body.as_str());
        proof {
            self.lemma_named_body_read("getStatusV2"@, q, sent_v, r, |ans: Seq<char>| status_v2_read(ans, r));
        }
        r
    }

    /// `getAllSms&id=…[&size][&page]` — every OTP received on the activation.
    pub fn get_all_sms(&self, id: &ActivationId, size: Option<u64>, page: Option<u64>) -> (r: ApiResult<OtpPage>)
        ensures
            self.named_answered(
                "getAllSms"@,
                seq![("id"@, id@)] + opt_number_param("size"@, size) + opt_number_param("page"@, page),
                r,
                |ans: Seq<char>| all_sms_read(ans, r),
            ),
    {
        let mut params: Vec<(String, String)> = Vec::new();
        params.push((crate::error::owned("id"), copy_string(&id.0)));
        push_number_param(&mut params, "size", size);
        push_number_param(&mut params, "page", page);
        let ghost q = pairs_view(params@);
        assert(q =~= seq![("id"@, id@)] + opt_number_param("size"@, size) + opt_number_param("page"@, page));
        let sent = self.call_named("getAllSms", params);
        let ghost sent_v = sent;
        let body = match sent {
            Ok(b) => b,
            Err(e) => {
                let r = Err(e);
                proof {
                    self.lemma_named_error_handed_on(
                        "getAllSms"@,
                        q,
                        sent_v,
                        r,
                        |ans: Seq<char>| all_sms_read(ans, r),
                    );
                }
                return r;
            },
        };
        let r = parse_otp_page(body.as_str());
        proof {
            self.lemma_named_body_read("getAllSms"@, q, sent_v, r, |ans: Seq<char>| all_sms_read(ans, r));
        }
        r
    }

    /// `getHistory` — past activations (newest first as delivered by the provider).
    pub fn get_history(&self, query: &HistoryQuery) -> (r: ApiResult<Vec<HistoryEntry>>)
        ensures
            self.named_answered(
                "getHistory"@,
                history_query(*query),
                r,
                |ans: Seq<char>| history_read(ans, r),
            ),
    {
                let params = history_params(query);
        let ghost q = pairs_view(params@);
        assert(q =~= history_query(*query));
        let sent = self.call_named("getHistory", params);
        let ghost sent_v = sent;
        let body = match sent {
            Ok(b) => b,
            Err(e) => {
                let r = Err(e);
                proof {
                    self.lemma_named_error_handed_on(
                        "getHistory"@,
                        q,
                        sent_v,
                        r,
                        |ans: Seq<char>| history_read(ans, r),
                    );
                }
                return r;
            },
        };
        let r = parse_history(body.as_str());
        proof {
            self.lemma_named_body_read("getHistory"@, q, sent_v, r, |ans: Seq<char>| history_read(ans, r));
        }
        r
    }

    /// `finishActivation` — HTTP 204 on success (equivalent to `setStatus` 6).
    pub fn finish_activation(&self, id: &ActivationId) -> (r: ApiResult<()>)
        ensures
            self.named_answered("finishActivation"@, seq![("id"@, id@)], r, |b: Seq<char>| r is Ok),
    {
        let mut params: Vec<(String, String)> = Vec::new();
        params.push((crate::error::owned("id"), copy_string(&id.0)));
        let ghost q = pairs_view(params@);
        assert(q =~= seq![("id"@, id@)]);
        let sent = self.call_named("finishActivation", params);
        let ghost sent_v = sent;
        let r = match sent {
            Ok(_) => Ok(()),
            Err(e) => Err(e),
        };
        proof {
            if r is Ok {
                self.lemma_named_body_read("finishActivation"@, q, sent_v, r, |b: Seq<char>| r is Ok);
            } else {
                self.lemma_named_error_handed_on("finishActivation"@, q, sent_v, r, |b: Seq<char>| r is Ok);
            }
        }
        r
    }

    /// `cancelActivation` — HTTP 204 on success (equivalent to `setStatus` 8).
    pub fn cancel_activation(&self, id: &ActivationId) -> (r: ApiResult<()>)
        ensures
            self.named_answered("cancelActivation"@, seq![("id"@, id@)], r, |b: Seq<char>| r is Ok),
    {
        let mut params: Vec<(String, String)> = Vec::new();
        params.push((crate::error::owned("id"), copy_string(&id.0)));
        let ghost q = pairs_view(params@);
        assert(q =~= seq![("id"@, id@)]);
        let sent = self.call_named("cancelActivation", params);
        let ghost sent_v = sent;
        let r = match sent {
            Ok(_) => Ok(()),
            Err(e) => Err(e),
        };
        proof {
            if r is Ok {
                self.lemma_named_body_read("cancelActivation"@, q, sent_v, r, |b: Seq<char>| r is Ok);
            } else {
                self.lemma_named_error_handed_on("cancelActivation"@, q, sent_v, r, |b: Seq<char>| r is Ok);
            }
        }
        r
    }
}

// ---------------------------------------------------------------------------
// Truncated bodies and the retry policy

/// The scan of a JSON text: bracket depth outside string literals, whether it ends inside a
/// string literal, and whether the last character there was an unconsumed backslash.
pub open spec fn scan(s: Seq<char>) -> (int, bool, bool)
    decreases s.len(),
{
    if s.len() == 0 {
        (0, false, false)
    } else {
        let (d, in_string, escaped) = scan(s.drop_last());
        let c = s.last();
        if in_string {
            if escaped {
                (d, true, false)
            } else if c == '\\' {
                (d, true, true)
            } else if c == '"' {
                (d, false, false)
            } else {
                (d, true, false)
            }
        } else if c == '"' {
            (d, true, false)
        } else if c == '{' || c == '[' {
            (d + 1, false, false)
        } else if c == '}' || c == ']' {
            (d - 1, false, false)
        } else {
            (d, false, false)
        }
    }
}

/// A JSON body cut short in transit: it opens with `{` / `[` but the brackets do not balance
/// (counted outside string literals) or it ends inside a string literal.
pub open spec fn truncated(body: Seq<char>) -> bool {
    let b = trim(body);
    (starts_with_char(b, '{') || starts_with_char(b, '[')) && (scan(b).1 || scan(b).0 != 0)
}

/// A JSON body that was cut short in transit (see [`truncated`]). Anything that does not start
/// as JSON (plain-text tokens, empty 204 bodies) is never "truncated".
pub fn looks_truncated(body: &str) -> (r: bool)
    ensures
        r == truncated(body@),
{
    let b = trim_str(body);
    if !(b.len() > 0 && (b[0] == '{' || b[0] == '[')) {
        return false;
    }
    let mut depth: i128 = 0;
    let mut in_string = false;
    let mut escaped = false;
    let mut i: usize = 0;
    assert(b@.take(0) =~= Seq::<char>::empty());
    while i < b.len()
        invariant
            i <= b@.len(),
            -(i as int) <= depth <= i as int,
            b@.len() < 0x1_0000_0000_0000_0000_0000,
            scan(b@.take(i as int)) == (depth as int, in_string, escaped),
        decreases b.len() - i,
    {
        proof {
            assert(b@.take(i + 1).drop_last() =~= b@.take(i as int));
            assert(b@.take(i + 1).last() == b@[i as int]);
        }
        let c = b[i];
        if in_string {
            if escaped {
                escaped = false;
            } else if c == '\\' {
                escaped = true;
            } else if c == '"' {
                in_string = false;
            }
        } else if c == '"' {
            in_string = true;
        } else if c == '{' || c == '[' {
            depth = depth + 1;
        } else if c == '}' || c == ']' {
            depth = depth - 1;
        }
        i = i + 1;
    }
    assert(b@.take(i as int) =~= b@);
    in_string || depth != 0
}

/// The text before the first `#`.
pub open spec fn before_hash(v: Seq<char>) -> Seq<char> {
    match split_once(v, '#') {
        Some((a, _)) => a,
        None => v,
    }
}

/// The value of the first `action=` segment of a query string, up to a `#`.
pub open spec fn action_in(q: Seq<char>) -> Option<Seq<char>>
    decreases q.len(),
{
    let seg = match split_once(q, '&') {
        Some((a, _)) => a,
        None => q,
    };
    if crate::text::starts_with(seg, "action="@) {
        Some(before_hash(seg.skip("action="@.len() as int)))
    } else {
        match split_once(q, '&') {
            Some((_, rest)) => {
                proof {
                    crate::text::lemma_find_char(q, '&');
                }
                action_in(rest)
            },
            None => None,
        }
    }
}

/// The `action` query value of a handler URL (`…?api_key=…&action=getBalance&…`).
pub open spec fn action_of_url(url: Seq<char>) -> Option<Seq<char>> {
    match split_once(url, '?') {
        Some((_, q)) => action_in(q),
        None => None,
    }
}

/// The `action` query value of a handler URL (see [`action_of_url`]).
pub fn action_of(url: &str) -> (r: Option<String>)
    ensures
        opt_text(r) == action_of_url(url@),
{
    let u = chars_of(url);
    let mut cur = match split_once_chars(&u, '?') {
        Some((_, q)) => q,
        None => {
            return None;
        },
    };
    loop
        invariant
            action_in(cur@) == action_of_url(url@),
        decreases cur@.len(),
    {
        let split = split_once_chars(&cur, '&');
        let seg = match &split {
            Some((a, _)) => crate::text::slice_vec(a, 0, a.len()),
            None => crate::text::slice_vec(&cur, 0, cur.len()),
        };
        proof {
            assert(seg@ =~= match split_once(cur@, '&') {
                Some((a, _)) => a,
                None => cur@,
            });
        }
        if let Some(v) = crate::text::strip_prefix_chars(&seg, "action=") {
            let value = match split_once_chars(&v, '#') {
                Some((a, _)) => a,
                None => v,
            };
            return Some(text(&value));
        }
        match split {
            Some((_, rest)) => {
                proof {
                    crate::text::lemma_find_char(cur@, '&');
                }
                cur = rest;
            },
            None => {
                return None;
            },
        }
    }
}

/// The read-only actions that may be re-sent when the outcome of a request is unknown.
pub open spec fn retryable_action(a: Seq<char>) -> bool {
    a == "getBalance"@ || a == "getPrices"@ || a == "getServicesList"@ || a == "getCountries"@
        || a == "getTopCountriesByService"@ || a == "getTopCountriesByServiceRank"@ || a
        == "getNumbersStatus"@ || a == "getOperators"@ || a == "getActiveActivations"@ || a
        == "getHistory"@ || a == "getStatus"@ || a == "getStatusV2"@ || a == "getAllSms"@ || a
        == "getRentServicesAndCountries"@ || a == "serviceCountRent"@
}

/// Whether the `action=` of `url` is one of the read-only actions.
pub open spec fn retryable_url(url: Seq<char>) -> bool {
    match action_of_url(url) {
        Some(a) => retryable_action(a),
        None => false,
    }
}

fn is_retryable_action(a: &[char]) -> (r: bool)
    ensures
        r == retryable_action(a@),
{
    eq_str(a, "getBalance") || eq_str(a, "getPrices") || eq_str(a, "getServicesList")
        || eq_str(a, "getCountries") || eq_str(a, "getTopCountriesByService") || eq_str(
        a,
        "getTopCountriesByServiceRank",
    ) || eq_str(a, "getNumbersStatus") || eq_str(a, "getOperators") || eq_str(
        a,
        "getActiveActivations",
    ) || eq_str(a, "getHistory") || eq_str(a, "getStatus") || eq_str(a, "getStatusV2")
        || eq_str(a, "getAllSms") || eq_str(a, "getRentServicesAndCountries") || eq_str(
        a,
        "serviceCountRent",
    )
}

/// `Duration::from_secs`: a delay of `n` whole seconds, so `n * 10⁹` nanoseconds as
/// `Duration::as_nanos` counts them.
#[verifier::external_body]
pub(crate) fn seconds(n: u64) -> (r: std::time::Duration)
    ensures
        duration_nanos(r) == n * 1_000_000_000,
{
    std::time::Duration::from_secs(n)
}

/// The length of a delay in whole nanoseconds, as `Duration::as_nanos` gives it.
pub uninterp spec fn duration_nanos(d: std::time::Duration) -> u128;

/// `Duration::as_nanos`: the delay's length in nanoseconds, named [`duration_nanos`] (a function
/// of the delay alone).
#[verifier::external_body]
fn nanos_of(d: std::time::Duration) -> (r: u128)
    ensures
        r == duration_nanos(d),
{
    d.as_nanos()
}

/// The longest delay, in nanoseconds: `Duration::MAX`.
pub const MAX_DELAY_NANOS: u128 = 18_446_744_073_709_551_615_999_999_999;

/// Whether the delay that `outcome` doubles (the 429 delay, or the retry delay when the outcome
/// is unknown and the action may be re-sent) still fits a `Duration` once doubled.
pub open spec fn backoff_fits(st: RetryState, outcome: Result<HttpResponse, TransportError>) -> bool {
    if outcome_kind(outcome) == 0 {
        2 * st.rate_delay <= MAX_DELAY_NANOS
    } else if (outcome_kind(outcome) == 1 || outcome_kind(outcome) == 3) && st.unknown_outcome_ok {
        2 * st.retry_delay <= MAX_DELAY_NANOS
    } else {
        true
    }
}

/// Whether [`RetryTransport::after_fetch`] can double its delay for `outcome` (see
/// [`backoff_fits`]); a delay that would pass `Duration::MAX` is an overflow.
pub fn backoff_fits_exec(st: &RetryState, outcome: &Result<HttpResponse, TransportError>) -> (r: bool)
    ensures
        r == backoff_fits(*st, *outcome),
{
    match outcome {
        Ok(resp) => {
            if resp.status == 429 {
                st.rate_delay <= MAX_DELAY_NANOS / 2
            } else if resp.status < 300 && looks_truncated(resp.body.as_str()) {
                !st.unknown_outcome_ok || st.retry_delay <= MAX_DELAY_NANOS / 2
            } else {
                true
            }
        },
        Err(_) => !st.unknown_outcome_ok || st.retry_delay <= MAX_DELAY_NANOS / 2,
    }
}

/// Retries on transport errors, on JSON bodies that arrived truncated (see [`looks_truncated`])
/// and on HTTP 429, with delays that double on each retry.
///
/// **Idempotency rule.** A transport error or a truncated body does not tell whether the server
/// processed the request, so those are retried only for the read-only actions
/// ([`retryable_action`]); any other action gets exactly one attempt and its first error is
/// returned unchanged, so a purchase can never be issued twice. HTTP 429 means the request was
/// rejected before processing and is retried for every action.
///
/// The policy is the state machine [`RetryTransport::begin`] / [`RetryTransport::next_step`] /
/// [`RetryTransport::after_fetch`]; the application's transport runs it, fetching and sleeping
/// as it says.
#[derive(Debug)]
pub struct RetryTransport<T> {
    inner: T,
    attempts: u32,
    /// Delay before the first retry after a transport error or a truncated body, in nanoseconds.
    retry_delay: u128,
    /// Delay before the first retry after HTTP 429, in nanoseconds.
    rate_limit_delay: u128,
}

/// One second, in nanoseconds.
pub const NANOS_PER_SEC: u128 = 1_000_000_000;

/// Where a retrying `GET` stands.
pub struct RetryState {
    /// Attempts made so far.
    pub attempt: u32,
    /// Whether the action may be re-sent when the outcome of a request is unknown.
    pub unknown_outcome_ok: bool,
    /// Delay before the next retry after a transport error or a truncated body, in nanoseconds.
    pub retry_delay: u128,
    /// Delay before the next retry after HTTP 429, in nanoseconds.
    pub rate_delay: u128,
    /// The outcome to report when the attempts run out.
    pub last: Option<Result<HttpResponse, TransportError>>,
}

/// What to do next.
pub enum RetryStep {
    /// Send the request.
    Fetch,
    /// Stop with this outcome.
    Finish(Result<HttpResponse, TransportError>),
}

/// What to do with the outcome of a request.
pub enum AfterFetch {
    /// Return it.
    Return(Result<HttpResponse, TransportError>),
    /// Try again, after sleeping for the delay (in nanoseconds) when there is one.
    Retry(Option<u128>),
}

/// The pause before a retry of attempt `attempt` of `limit` whose delay is `delay`
/// nanoseconds: none after the last attempt or for a zero delay.
pub open spec fn retry_pause(attempt: u32, limit: u32, delay: u128) -> Option<u128> {
    if attempt < limit && delay != 0 {
        Some(delay)
    } else {
        None
    }
}

/// What happened to a request, as the policy sees it.
pub open spec fn outcome_kind(o: Result<HttpResponse, TransportError>) -> int {
    match o {
        Ok(resp) => if resp.status == 429 {
            0
        } else if resp.status < 300 && truncated(resp.body@) {
            1
        } else {
            2
        },
        Err(_) => 3,
    }
}

/// The transport error that replaces a truncated body.
pub open spec fn truncation_message(bytes: nat, attempt: nat) -> Seq<char> {
    "response body truncated ("@ + crate::num::dec(bytes) + " bytes) after "@ + crate::num::dec(
        attempt,
    ) + " attempt(s)"@
}

/// `str::len` of a text.
fn byte_len(s: &str) -> (r: u128)
    ensures
        r == crate::protocol::utf8_len(s@),
{
    let cs = chars_of(s);
    let mut total: u128 = 0;
    let mut i: usize = cs.len();
    assert(cs@.skip(i as int) =~= Seq::<char>::empty());
    while i > 0
        invariant
            i <= cs@.len(),
            total == crate::protocol::utf8_len(cs@.skip(i as int)),
            total <= 4 * (cs@.len() - i),
            cs@.len() < 0x1_0000_0000_0000_0000_0000,
        decreases i,
    {
        i = i - 1;
        proof {
            assert(cs@.skip(i as int).drop_first() =~= cs@.skip(i + 1));
        }
        let c = cs[i];
        let w: u128 = if (c as u32) < 0x80 {
            1
        } else if (c as u32) < 0x800 {
            2
        } else if (c as u32) < 0x10000 {
            3
        } else {
            4
        };
        total = total + w;
    }
    assert(cs@.skip(0) =~= cs@);
    total
}

fn truncation_error(body: &str, attempt: u32) -> (r: TransportError)
    ensures
        r.0@ == truncation_message(crate::protocol::utf8_len(body@), attempt as nat),
{
    let n = byte_len(body);
    let mut m = String::new();
    crate::text::push_str(&mut m, "response body truncated (");
    let digits = crate::num::u128_chars(n);
    crate::text::push_str(&mut m, crate::text::string_of(&digits).as_str());
    crate::text::push_str(&mut m, " bytes) after ");
    crate::text::push_str(&mut m, crate::num::u64_to_string(attempt as u64).as_str());
    crate::text::push_str(&mut m, " attempt(s)");
    TransportError(m)
}

impl<T> RetryTransport<T> {
    pub const DEFAULT_ATTEMPTS: u32 = 3;

    /// Read-only actions that are safe to re-send after a transport error or a truncated body.
    pub const RETRYABLE_ACTIONS: [&'static str; 15] = [
        "getBalance",
        "getPrices",
        "getServicesList",
        "getCountries",
        "getTopCountriesByService",
        "getTopCountriesByServiceRank",
        "getNumbersStatus",
        "getOperators",
        "getActiveActivations",
        "getHistory",
        "getStatus",
        "getStatusV2",
        "getAllSms",
        "getRentServicesAndCountries",
        "serviceCountRent",
    ];

    /// Default delay before retrying a transport error or truncated body (1 s).
    pub fn default_retry_delay() -> (r: std::time::Duration)
        ensures
            duration_nanos(r) == NANOS_PER_SEC,
    {
        seconds(1)
    }

    /// Default delay before retrying after HTTP 429 (5 s).
    pub fn default_rate_limit_delay() -> (r: std::time::Duration)
        ensures
            duration_nanos(r) == 5 * NANOS_PER_SEC,
    {
        seconds(5)
    }

    pub closed spec fn attempt_limit(&self) -> u32 {
        self.attempts
    }

    pub closed spec fn inner_value(&self) -> T {
        self.inner
    }

    /// The first delay after a transport error or a truncated body, in nanoseconds.
    pub closed spec fn retry_delay_nanos(&self) -> u128 {
        self.retry_delay
    }

    /// The first delay after HTTP 429, in nanoseconds.
    pub closed spec fn rate_delay_nanos(&self) -> u128 {
        self.rate_limit_delay
    }

    /// Whether the `action=` of `url` may be re-sent when the outcome of a request is unknown.
    pub fn is_retryable_url(url: &str) -> (r: bool)
        ensures
            r == retryable_url(url@),
    {
        match action_of(url) {
            Some(a) => is_retryable_action(&chars_of(a.as_str())),
            None => false,
        }
    }

    /// Three attempts, 1 s backoff for transport errors / truncated bodies, 5 s for HTTP 429.
    pub fn new(inner: T) -> (r: Self)
        ensures
            r.attempt_limit() == 3,
            r.inner_value() == inner,
            r.retry_delay_nanos() == NANOS_PER_SEC,
            r.rate_delay_nanos() == 5 * NANOS_PER_SEC,
    {
        RetryTransport { inner, attempts: 3, retry_delay: NANOS_PER_SEC, rate_limit_delay: 5 * NANOS_PER_SEC }
    }

    /// Total attempts (≥ 1).
    pub fn attempts(self, attempts: u32) -> (r: Self)
        ensures
            r.attempt_limit() == if attempts < 1 { 1 } else { attempts },
            r.inner_value() == self.inner_value(),
            r.retry_delay_nanos() == self.retry_delay_nanos(),
            r.rate_delay_nanos() == self.rate_delay_nanos(),
    {
        let mut s = self;
        s.attempts = if attempts < 1 { 1 } else { attempts };
        s
    }

    /// Delay before retrying a transport error or truncated body (doubles each attempt). The
    /// new delay's length is `delay`'s length ([`duration_nanos`]).
    pub fn retry_delay(self, delay: std::time::Duration) -> (r: Self)
        ensures
            r.attempt_limit() == self.attempt_limit(),
            r.inner_value() == self.inner_value(),
            r.rate_delay_nanos() == self.rate_delay_nanos(),
            r.retry_delay_nanos() == duration_nanos(delay),
    {
        let mut s = self;
        s.retry_delay = nanos_of(delay);
        s
    }

    /// Delay before retrying after HTTP 429 (doubles each attempt). The new delay's length is
    /// `delay`'s length ([`duration_nanos`]).
    pub fn rate_limit_delay(self, delay: std::time::Duration) -> (r: Self)
        ensures
            r.attempt_limit() == self.attempt_limit(),
            r.inner_value() == self.inner_value(),
            r.retry_delay_nanos() == self.retry_delay_nanos(),
            r.rate_delay_nanos() == duration_nanos(delay),
    {
        let mut s = self;
        s.rate_limit_delay = nanos_of(delay);
        s
    }

    pub fn inner(&self) -> (r: &T)
        ensures
            *r == self.inner_value(),
    {
        &self.inner
    }

    /// The state before the first attempt of a `GET` of `url`.
    pub fn begin(&self, url: &str) -> (r: RetryState)
        ensures
            r.attempt == 0,
            r.unknown_outcome_ok == retryable_url(url@),
            r.last is None,
            r.retry_delay == self.retry_delay_nanos(),
            r.rate_delay == self.rate_delay_nanos(),
    {
        RetryState {
            attempt: 0,
            unknown_outcome_ok: Self::is_retryable_url(url),
            retry_delay: self.retry_delay,
            rate_delay: self.rate_limit_delay,
            last: None,
        }
    }

    /// Another attempt while there are attempts left; then the last outcome seen (or a
    /// transport error when no attempt was made).
    pub fn next_step(&self, st: &mut RetryState) -> (r: RetryStep)
        ensures
            old(st).attempt < self.attempt_limit() ==> r is Fetch && final(st).attempt == old(st).attempt + 1
                && final(st).unknown_outcome_ok == old(st).unknown_outcome_ok,
            old(st).attempt >= self.attempt_limit() ==> r is Finish && match old(st).last {
                Some(o) => r == RetryStep::Finish(o),
                None => r matches RetryStep::Finish(Err(e)) && e.0@ == "no attempts made"@,
            },
    {
        if st.attempt < self.attempts {
            st.attempt = st.attempt + 1;
            RetryStep::Fetch
        } else {
            let last = st.last.take();
            match last {
                Some(o) => RetryStep::Finish(o),
                None => RetryStep::Finish(Err(TransportError(crate::error::owned("no attempts made")))),
            }
        }
    }

    /// The policy's answer to the outcome of attempt `st.attempt`: HTTP 429 is retried for every
    /// action; a truncated 2xx body and a transport error only for read-only actions (for the
    /// others they are returned as they are); anything else is returned. A retry sleeps first
    /// unless it was the last attempt or the delay is zero, and doubles the delay it used, which
    /// must still fit a `Duration` (see [`backoff_fits`]).
    pub fn after_fetch(&self, st: &mut RetryState, outcome: Result<HttpResponse, TransportError>) -> (r: AfterFetch)
        requires
            backoff_fits(*old(st), outcome),
        ensures
            final(st).attempt == old(st).attempt,
            final(st).unknown_outcome_ok == old(st).unknown_outcome_ok,
            outcome_kind(outcome) == 0 ==> final(st).rate_delay == 2 * old(st).rate_delay
                && final(st).retry_delay == old(st).retry_delay && r == AfterFetch::Retry(
                retry_pause(old(st).attempt, self.attempt_limit(), old(st).rate_delay),
            ),
            (outcome_kind(outcome) == 1 || outcome_kind(outcome) == 3) && old(st).unknown_outcome_ok ==> final(st).retry_delay
                == 2 * old(st).retry_delay && final(st).rate_delay == old(st).rate_delay && r == AfterFetch::Retry(
                retry_pause(old(st).attempt, self.attempt_limit(), old(st).retry_delay),
            ),
            outcome_kind(outcome) == 0 ==> r is Retry && final(st).last == Some(outcome),
            outcome_kind(outcome) == 1 && !old(st).unknown_outcome_ok ==> r == AfterFetch::Return(outcome),
            outcome_kind(outcome) == 1 && old(st).unknown_outcome_ok ==> r is Retry && match outcome {
                Ok(resp) => final(st).last matches Some(Err(e)) && e.0@ == truncation_message(
                    crate::protocol::utf8_len(resp.body@),
                    old(st).attempt as nat,
                ),
                Err(_) => false,
            },
            outcome_kind(outcome) == 2 ==> r == AfterFetch::Return(outcome),
            outcome_kind(outcome) == 3 && !old(st).unknown_outcome_ok ==> r == AfterFetch::Return(outcome),
            outcome_kind(outcome) == 3 && old(st).unknown_outcome_ok ==> r is Retry && final(st).last == Some(outcome),
            r matches AfterFetch::Retry(Some(_)) ==> old(st).attempt < self.attempt_limit(),
    {
        let delay = match outcome {
            Ok(resp) => {
                if resp.status == 429 {
                    st.last = Some(Ok(resp));
                    let d = st.rate_delay;
                    st.rate_delay = st.rate_delay * 2;
                    d
                } else if resp.status < 300 && looks_truncated(resp.body.as_str()) {
                    if !st.unknown_outcome_ok {
                        return AfterFetch::Return(Ok(resp));
                    }
                    st.last = Some(Err(truncation_error(resp.body.as_str(), st.attempt)));
                    let d = st.retry_delay;
                    st.retry_delay = st.retry_delay * 2;
                    d
                } else {
                    return AfterFetch::Return(Ok(resp));
                }
            },
            Err(e) => {
                if !st.unknown_outcome_ok {
                    return AfterFetch::Return(Err(e));
                }
                st.last = Some(Err(e));
                let d = st.retry_delay;
                st.retry_delay = st.retry_delay * 2;
                d
            },
        };
        if st.attempt < self.attempts && delay != 0 {
            AfterFetch::Retry(Some(delay))
        } else {
            AfterFetch::Retry(None)
        }
    }
}

} // verus!
