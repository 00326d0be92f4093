//! Tiger SMS — <https://tiger-sms.com/api>
//!
//! The sms-activate-compatible dialect of Tiger SMS (`GET
//! https://api.tiger-sms.com/stubs/handler_api.php?api_key=…&action=…`). Errors come as plain
//! tokens with real HTTP statuses (401 `BAD_KEY`, 400 `WRONG_MAX_PRICE:<min>`, 402
//! `NO_BALANCE`), as the `title` JSON envelope shared with Hero-SMS, or as Tiger-only
//! validation tokens (`BAD_MAX_PRICE`, `BAD_PROVIDER_IDS`, …) that name the offending
//! parameter. `minPrice` and `operator` are documented as accepted but ignored: they are never
//! sent, and [`Client::get_number_with`] refuses them.

pub mod params;

use vstd::prelude::*;
use crate::amount::{Amount, decimal_units};
use crate::api::{Client, Dialect};
use crate::error::{ApiError, ApiResult, ErrorView, err_of, opt_err, owned, text};
use crate::json::{
    Json, JsonView, as_object, jget, json_of_text, member_views, oget, oview, parse_json,
    value_to_amount, value_to_bool, value_to_string, value_to_u64, vamount, vbool, views, vstring, vu64,
};
use crate::keymap::KeyMap;
use crate::num::{parse_u32, parse_u32_spec, parse_u64, parse_u64_spec};
use crate::sorting::{kmap, lemma_kmap_sort, payloads, sort_by_key, sort_keyed, strip_keys};
use crate::providers::hero_sms::{amount_key, amount_key_exec};
use crate::protocol::{TitleEnvelope, body_error, envelope_error, envelope_of_text, error_from_body};
use crate::providers::hero_sms::{first_part, joined, remove_param, without_key};
use crate::text::{chars_of, eq_str, split_once_chars, starts_with_char, trim, trim_chars, trim_str};
use crate::transport::{HttpResponse, Transport, pairs_view};
use crate::types::{
    ActivationId, ActivationStatus, Capabilities, CountryId, CountryKey, CountryRef, NumberRequest,
    Price, PriceTable, RequestParams, ServiceCode, StatusView, TopCountry, TopCountryView,
    copy_string, country_text, opt_text, opt_units,
};

verus! {

pub const ENDPOINT: &'static str = "https://api.tiger-sms.com/stubs/handler_api.php";

/// Same handler on the main domain.
pub const ALT_ENDPOINT: &'static str = "https://tiger-sms.com/stubs/handler_api.php";

/// Machine-readable API description.
pub const OPENAPI_URL: &'static str = "https://tiger-sms.com/api/openapi.json";

/// Postman collection of the API.
pub const POSTMAN_URL: &'static str = "https://tiger-sms.com/api/postman.json";

/// ISO 4217 numeric code of the account currency.
pub const CURRENCY_USD: u32 = 840;

/// What Tiger SMS implements. `price_bounds` means `maxPrice` only.
pub open spec fn tiger_caps() -> Capabilities {
    Capabilities {
        get_number_v2: true,
        numbers_status: false,
        active_activations: true,
        operators: false,
        prices_v2: true,
        prices_v3: true,
        price_bounds: true,
        provider_filters: true,
    }
}

/// What Tiger SMS implements (see [`tiger_caps`]).
pub fn capabilities() -> (r: Capabilities)
    ensures
        r == tiger_caps(),
{
    Capabilities {
        get_number_v2: true,
        numbers_status: false,
        active_activations: true,
        operators: false,
        prices_v2: true,
        prices_v3: true,
        price_bounds: true,
        provider_filters: true,
    }
}

/// Tiger-only validation tokens → the query parameter they complain about.
pub open spec fn validation_field_of(t: Seq<char>) -> Option<Seq<char>> {
    if t == "BAD_VALUES"@ {
        Some(Seq::empty())
    } else if t == "BAD_MULTIPLE"@ {
        Some("multiple"@)
    } else if t == "BAD_MAX_PRICE"@ {
        Some("maxPrice"@)
    } else if t == "BAD_PROVIDER_IDS"@ {
        Some("providerIds"@)
    } else if t == "BAD_EXCEPT_PROVIDER_IDS"@ {
        Some("exceptProviderIds"@)
    } else if t == "BAD_ACTIVATION_TYPE"@ {
        Some("activationType"@)
    } else if t == "BAD_FIXED_PRICE"@ {
        Some("fixedPrice"@)
    } else {
        None
    }
}

/// Tiger-only validation tokens → the query parameter they complain about.
pub fn validation_field(token: &[char]) -> (r: Option<&'static str>)
    ensures
        match r {
            Some(f) => validation_field_of(token@) == Some(f@),
            None => validation_field_of(token@) is None,
        },
{
    if eq_str(token, "BAD_VALUES") {
        let f = "";
        proof {
            reveal_strlit("");
        }
        assert(f@ =~= Seq::<char>::empty());
        Some(f)
    } else if eq_str(token, "BAD_MULTIPLE") {
        Some(params::MULTIPLE)
    } else if eq_str(token, "BAD_MAX_PRICE") {
        Some("maxPrice")
    } else if eq_str(token, "BAD_PROVIDER_IDS") {
        Some(params::PROVIDER_IDS)
    } else if eq_str(token, "BAD_EXCEPT_PROVIDER_IDS") {
        Some(params::EXCEPT_PROVIDER_IDS)
    } else if eq_str(token, "BAD_ACTIVATION_TYPE") {
        Some(params::ACTIVATION_TYPE)
    } else if eq_str(token, "BAD_FIXED_PRICE") {
        Some(params::FIXED_PRICE)
    } else {
        None
    }
}

/// Plain-text error tokens, including the Tiger-only validation tokens (which carry the whole
/// body as their message); `None` for JSON, HTML and data.
pub open spec fn tiger_token_error(body: Seq<char>) -> Option<ErrorView> {
    if starts_with_char(body, '{') || starts_with_char(body, '[') || starts_with_char(body, '<') {
        None
    } else {
        match validation_field_of(trim(first_part(body))) {
            Some(f) => Some(ErrorView::Validation(f, body)),
            None => body_error(body),
        }
    }
}

/// Plain-text error tokens (see [`tiger_token_error`]).
pub fn error_from_token(body: &str) -> (r: Option<ApiError>)
    ensures
        opt_err(r) == tiger_token_error(body@),
{
    let b = chars_of(body);
    if b.len() > 0 && (b[0] == '{' || b[0] == '[' || b[0] == '<') {
        return None;
    }
    let first = match split_once_chars(&b, ':') {
        Some((h, _)) => h,
        None => crate::text::slice_vec(&b, 0, b.len()),
    };
    proof {
        if crate::text::split_once(b@, ':') is None {
            assert(b@.subrange(0, b@.len() as int) =~= b@);
        }
    }
    let head = trim_chars(&first);
    match validation_field(&head) {
        Some(f) => Some(ApiError::Validation { field: owned(f), message: owned(body) }),
        None => error_from_body(body),
    }
}

/// Whether an error is one of the specifically mapped ones (anything but `Other`).
pub open spec fn mapped(e: Option<ErrorView>) -> bool {
    e matches Some(x) && !(x is Other)
}

/// The error of a `title` envelope, with the two Tiger readings: a Tiger-only validation token
/// as the title, and `UNPROCESSABLE_ENTITY` without `info.field` whose `details` is a mapped token.
pub open spec fn tiger_envelope_error(body: Seq<char>) -> Option<ErrorView> {
    match envelope_of_text(trim(body)) {
        None => None,
        Some(e) => match validation_field_of(e.title) {
            Some(f) => Some(
                ErrorView::Validation(
                    f,
                    if e.details.len() == 0 { e.title } else { e.title + ": "@ + e.details },
                ),
            ),
            None => if e.title == "UNPROCESSABLE_ENTITY"@ && oget(e.info, "field"@) is None && mapped(
                tiger_token_error(e.details),
            ) {
                tiger_token_error(e.details)
            } else {
                envelope_error(e)
            },
        },
    }
}

/// `{"title":"BAD_SERVICE","details":"…","info":{…}}` → the matching [`ApiError`] (see
/// [`tiger_envelope_error`]); `None` when the body is not an error envelope.
pub fn error_from_envelope(body: &str) -> (r: Option<ApiError>)
    ensures
        opt_err(r) == tiger_envelope_error(body@),
{
    let env = match TitleEnvelope::parse(body) {
        Some(e) => e,
        None => {
            return None;
        },
    };
    let title = chars_of(env.title.as_str());
    let details = chars_of(env.details.as_str());
    if let Some(field) = validation_field(&title) {
        let message = if details.len() == 0 {
            copy_string(&env.title)
        } else {
            let mut m = copy_string(&env.title);
            crate::text::push_str(&mut m, ": ");
            crate::text::push_str(&mut m, env.details.as_str());
            m
        };
        return Some(ApiError::Validation { field: owned(field), message });
    }
    if eq_str(&title, "UNPROCESSABLE_ENTITY") && env.info("field").is_none() {
        match error_from_token(env.details.as_str()) {
            Some(e) => {
                if !matches!(e, ApiError::Other(_)) {
                    return Some(e);
                }
            },
            None => {},
        }
    }
    env.to_error()
}

/// Tiger SMS classification: a JSON error envelope on any status; HTTP 429; other 4xx whose
/// body is a specifically mapped token; any other non-2xx as [`ApiError::Http`]; for 2xx a
/// plain token is the error and anything else is data.
pub open spec fn tiger_error(status: u16, body: Seq<char>) -> Option<ErrorView> {
    let b = trim(body);
    match tiger_envelope_error(b) {
        Some(e) => Some(e),
        None => if status == 429 {
            Some(ErrorView::RateLimited(None))
        } else if !(200 <= status && status < 300) {
            if 400 <= status && status < 500 && mapped(tiger_token_error(b)) {
                tiger_token_error(b)
            } else {
                Some(ErrorView::Http(status, b))
            }
        } else {
            tiger_token_error(b)
        },
    }
}

/// Tiger SMS response classification (see [`tiger_error`]).
pub fn classify(resp: &HttpResponse) -> (r: ApiResult<()>)
    ensures
        err_of(r) == tiger_error(resp.status, resp.body@),
{
    let b = text(&trim_str(resp.body.as_str()));
    proof {
        crate::text::lemma_trim_idempotent(resp.body@);
    }
    if let Some(e) = error_from_envelope(b.as_str()) {
        return Err(e);
    }
    if resp.status == 429 {
        return Err(ApiError::RateLimited { retry_after: None });
    }
    if !(200 <= resp.status && resp.status < 300) {
        if 400 <= resp.status && resp.status < 500 {
            if let Some(e) = error_from_token(b.as_str()) {
                if !matches!(e, ApiError::Other(_)) {
                    return Err(e);
                }
            }
        }
        return Err(ApiError::Http { status: resp.status, body: b });
    }
    match error_from_token(b.as_str()) {
        Some(e) => Err(e),
        None => Ok(()),
    }
}

/// The Tiger SMS dialect, bound to a handler URL ([`ENDPOINT`] by default).
#[derive(Clone, Debug)]
pub struct TigerSmsDialect {
    endpoint: &'static str,
}

impl TigerSmsDialect {
    pub closed spec fn endpoint_text(&self) -> Seq<char> {
        self.endpoint@
    }

    /// Dialect bound to a specific handler URL (e.g. [`ALT_ENDPOINT`]).
    pub fn at(endpoint: &'static str) -> (r: Self)
        ensures
            r.endpoint_text() == endpoint@,
    {
        TigerSmsDialect { endpoint }
    }
}

impl Default for TigerSmsDialect {
    fn default() -> (r: Self)
        ensures
            r.endpoint_text() == ENDPOINT@,
    {
        Self::at(ENDPOINT)
    }
}

/// `getStatus` for Tiger SMS: `ACCESS_CANCEL` (the documented answer for a cancelled
/// activation) is `Cancelled`, anything else goes through the standard parser.
pub open spec fn tiger_status_of(body: Seq<char>) -> Result<StatusView, ErrorView> {
    if trim(body) == "ACCESS_CANCEL"@ {
        Ok(StatusView::Cancelled)
    } else {
        crate::protocol::status_of(body)
    }
}

/// `getStatus` for Tiger SMS (see [`tiger_status_of`]).
pub fn parse_status(body: &str) -> (r: ApiResult<ActivationStatus>)
    ensures
        crate::error::res_view(r) == tiger_status_of(body@),
{
    let t = trim_str(body);
    if eq_str(&t, "ACCESS_CANCEL") {
        return Ok(ActivationStatus::Cancelled);
    }
    crate::protocol::parse_status(body)
}

impl Dialect for TigerSmsDialect {
    open spec fn caps(&self) -> Capabilities {
        tiger_caps()
    }

    fn name(&self) -> (r: &'static str)
        ensures
            r@ == "Tiger SMS"@,
    {
        "Tiger SMS"
    }

    fn endpoint(&self) -> (r: &str)
        ensures
            r@ == self.endpoint_text(),
    {
        self.endpoint
    }

    fn capabilities(&self) -> (r: Capabilities) {
        capabilities()
    }

    fn classify(&self, resp: &HttpResponse) -> (r: ApiResult<()>)
        ensures
            err_of(r) == tiger_error(resp.status, resp.body@),
    {
        classify(resp)
    }

    /// Drops `minPrice` and `operator` from `getNumber` / `getNumberV2`: documented as accepted
    /// but ignored, so they are never sent.
    fn adjust_params(&self, action: &str, params: &mut Vec<(String, String)>)
        ensures
            (action@ == "getNumber"@ || action@ == "getNumberV2"@) ==> pairs_view(final(params)@)
                == without_key(without_key(pairs_view(old(params)@), "minPrice"@), "operator"@),
            !(action@ == "getNumber"@ || action@ == "getNumberV2"@) ==> final(params)@ == old(params)@,
    {
        let a = chars_of(action);
        if eq_str(&a, "getNumber") || eq_str(&a, "getNumberV2") {
            remove_param(params, "minPrice");
            remove_param(params, "operator");
        }
    }

    fn parse_status(&self, body: &str) -> (r: ApiResult<ActivationStatus>)
        ensures
            crate::error::res_view(r) == tiger_status_of(body@),
    {
        parse_status(body)
    }

    open spec fn error_of(&self, status: u16, body: Seq<char>) -> Option<ErrorView> {
        tiger_error(status, body)
    }

    open spec fn status_answer(&self, body: Seq<char>, r: ApiResult<ActivationStatus>) -> bool {
        crate::error::res_view(r) == tiger_status_of(body)
    }

    fn parse_balance(&self, body: &str) -> ApiResult<crate::amount::Amount> {
        crate::protocol::parse_balance(body)
    }

    fn parse_activation(&self, body: &str) -> ApiResult<crate::types::Activation> {
        crate::protocol::parse_activation_v2(body)
    }

    fn parse_set_status(&self, body: &str) -> ApiResult<crate::types::StatusAck> {
        crate::protocol::parse_set_status(body)
    }

    fn parse_prices(&self, body: &str) -> ApiResult<crate::types::PriceTable> {
        crate::protocol::parse_prices(body)
    }

    fn parse_services(&self, body: &str) -> ApiResult<Vec<crate::types::Service>> {
        crate::protocol::parse_services(body)
    }

    fn parse_countries(&self, body: &str) -> ApiResult<Vec<crate::types::Country>> {
        crate::protocol::parse_countries(body)
    }

    fn parse_top_countries(&self, body: &str) -> ApiResult<Vec<crate::types::TopCountry>> {
        crate::protocol::parse_top_countries_indexed(body)
    }

    fn parse_numbers_status(&self, body: &str) -> ApiResult<crate::keymap::KeyMap<crate::types::ServiceCode, u64>> {
        crate::protocol::parse_numbers_status(body)
    }

    fn parse_active_activations(&self, body: &str) -> ApiResult<Vec<crate::types::ActiveActivation>> {
        crate::protocol::parse_active_activations(body)
    }

    fn parse_operators(&self, body: &str) -> ApiResult<crate::keymap::KeyMap<crate::types::CountryRef, Vec<String>>> {
        crate::protocol::parse_operators(body)
    }


    open spec fn handler_url(&self) -> Seq<char> {
        self.endpoint_text()
    }


    open spec fn adjusted_params(&self, action: Seq<char>, params: Seq<(Seq<char>, Seq<char>)>) -> Seq<
        (Seq<char>, Seq<char>),
    > {
        if action == "getNumber"@ || action == "getNumberV2"@ {
            without_key(without_key(params, "minPrice"@), "operator"@)
        } else {
            params
        }
    }


    open spec fn name_text(&self) -> Seq<char> {
        "Tiger SMS"@
    }

}

/// `Client` over the Tiger SMS dialect.
pub type TigerSms<T> = Client<T, TigerSmsDialect>;

// ---------------------------------------------------------------------------
// Provider-only types

/// `getBalance&format=json`.
#[derive(Clone, Copy, Debug, PartialEq, Eq, Structural)]
pub struct BalanceInfo {
    pub balance: Amount,
    /// ISO 4217 numeric code; always [`CURRENCY_USD`].
    pub currency: u32,
}

/// One step of a price ladder: `count` numbers are obtainable at `price` (cumulative).
#[derive(Clone, Copy, Debug, PartialEq, Eq, Structural)]
pub struct PriceBucket {
    pub price: Amount,
    pub count: u64,
    /// Whether numbers at this price can receive several SMS (`getFreePrices` only).
    pub has_multi: Option<bool>,
}

/// `getFreePrices` / `getPricesV2` cell: buckets sorted by ascending price plus the dynamic
/// sale-average price.
#[derive(Debug, Default, PartialEq)]
pub struct PriceLadder {
    pub buckets: Vec<PriceBucket>,
    /// Dynamic average of recent sales; can dip below the cheapest bucket.
    pub sale_average_price: Option<Amount>,
}

/// The first bucket satisfying a condition on its count / multi flag.
pub open spec fn first_bucket(b: Seq<PriceBucket>, min_count: Option<u64>) -> Option<int>
    decreases b.len(),
{
    if b.len() == 0 {
        None
    } else if (match min_count {
        Some(m) => b[0].count >= m,
        None => b[0].has_multi == Some(true),
    }) {
        Some(0)
    } else {
        match first_bucket(b.drop_first(), min_count) {
            Some(i) => Some(i + 1),
            None => None,
        }
    }
}

proof fn lemma_first_bucket(b: Seq<PriceBucket>, min_count: Option<u64>, i: int)
    requires
        0 <= i <= b.len(),
        forall|j: int| 0 <= j < i ==> !(match min_count {
            Some(m) => (#[trigger] b[j]).count >= m,
            None => b[j].has_multi == Some(true),
        }),
    ensures
        i < b.len() && (match min_count {
            Some(m) => b[i].count >= m,
            None => b[i].has_multi == Some(true),
        }) ==> first_bucket(b, min_count) == Some(i),
        i == b.len() ==> first_bucket(b, min_count) is None,
    decreases i,
{
    if i > 0 {
        assert forall|j: int| 0 <= j < i - 1 implies !(match min_count {
            Some(m) => (#[trigger] b.drop_first()[j]).count >= m,
            None => b.drop_first()[j].has_multi == Some(true),
        }) by {
            assert(b.drop_first()[j] == b[j + 1]);
        }
        lemma_first_bucket(b.drop_first(), min_count, i - 1);
        assert(!(match min_count {
            Some(m) => b[0].count >= m,
            None => b[0].has_multi == Some(true),
        }));
    }
}

impl PriceLadder {
    /// Cheapest bucket.
    pub fn cheapest(&self) -> (r: Option<&PriceBucket>)
        ensures
            self.buckets@.len() == 0 ==> r is None,
            self.buckets@.len() > 0 ==> r == Some(&self.buckets@[0]),
    {
        if self.buckets.len() > 0 {
            Some(&self.buckets[0])
        } else {
            None
        }
    }

    fn find_bucket(&self, min_count: Option<u64>) -> (r: Option<&PriceBucket>)
        ensures
            match first_bucket(self.buckets@, min_count) {
                Some(i) => r == Some(&self.buckets@[i]),
                None => r is None,
            },
    {
        let mut i: usize = 0;
        while i < self.buckets.len()
            invariant
                i <= self.buckets@.len(),
                forall|j: int| 0 <= j < i ==> !(match min_count {
                    Some(m) => (#[trigger] self.buckets@[j]).count >= m,
                    None => self.buckets@[j].has_multi == Some(true),
                }),
            decreases self.buckets.len() - i,
        {
            let b = &self.buckets[i];
            let hit = match min_count {
                Some(m) => b.count >= m,
                None => b.has_multi == Some(true),
            };
            if hit {
                proof {
                    lemma_first_bucket(self.buckets@, min_count, i as int);
                }
                return Some(b);
            }
            i = i + 1;
        }
        proof {
            lemma_first_bucket(self.buckets@, min_count, i as int);
        }
        None
    }

    /// Cheapest bucket that offers at least `min_count` numbers.
    pub fn cheapest_with(&self, min_count: u64) -> (r: Option<&PriceBucket>)
        ensures
            match first_bucket(self.buckets@, Some(min_count)) {
                Some(i) => r == Some(&self.buckets@[i]),
                None => r is None,
            },
    {
        self.find_bucket(Some(min_count))
    }

    /// Cheapest bucket that allows several SMS on the same number.
    pub fn cheapest_multi(&self) -> (r: Option<&PriceBucket>)
        ensures
            match first_bucket(self.buckets@, None) {
                Some(i) => r == Some(&self.buckets@[i]),
                None => r is None,
            },
    {
        self.find_bucket(None)
    }

    /// Total stock: the last (cumulative) bucket.
    pub fn total_count(&self) -> (r: u64)
        ensures
            r == if self.buckets@.len() == 0 { 0 } else { self.buckets@.last().count },
    {
        if self.buckets.len() == 0 {
            0
        } else {
            self.buckets[self.buckets.len() - 1].count
        }
    }

    /// The docs' recommended `maxPrice`: `max(saleAveragePrice, cheapest bucket)`.
    pub fn recommended_max_price(&self) -> (r: Option<Amount>)
        ensures
            self.buckets@.len() == 0 ==> r is None,
            self.buckets@.len() > 0 ==> r == Some(match self.sale_average_price {
                Some(avg) => if avg.units > self.buckets@[0].price.units { avg } else { self.buckets@[0].price },
                None => self.buckets@[0].price,
            }),
    {
        let floor = match self.cheapest() {
            Some(b) => b.price,
            None => {
                return None;
            },
        };
        Some(match self.sale_average_price {
            Some(avg) => if avg.units > floor.units { avg } else { floor },
            None => floor,
        })
    }
}

/// What a [`PriceLadder`] denotes.
pub open spec fn ladder_view(l: PriceLadder) -> (Seq<PriceBucket>, Option<int>) {
    (l.buckets@, opt_units(l.sale_average_price))
}

/// One provider's offer in `getPricesV3`.
#[derive(Debug, PartialEq)]
pub struct ProviderOffer {
    pub provider_id: u64,
    /// This provider's own stock, or the cumulative stock of its buckets.
    pub count: u64,
    /// Bucket prices, ascending.
    pub prices: Vec<Amount>,
}

impl ProviderOffer {
    pub fn cheapest(&self) -> (r: Option<Amount>)
        ensures
            self.prices@.len() == 0 ==> r is None,
            self.prices@.len() > 0 ==> r == Some(self.prices@[0]),
    {
        if self.prices.len() > 0 {
            Some(self.prices[0])
        } else {
            None
        }
    }
}

/// `getPricesV3` cell.
#[derive(Debug, PartialEq)]
pub struct ProviderPrices {
    /// Dynamic sale-average price, never below the default offer; the recommended `maxPrice`.
    pub price: Amount,
    /// Same value as `getPrices`' `count`.
    pub count: u64,
    pub currency: Option<u32>,
    pub sale_average_price: Option<Amount>,
    /// Providers serving this pair, sorted by cheapest price then id, those without a price last.
    pub providers: Vec<ProviderOffer>,
}

/// `prices` block of a `getOffers` cell.
#[derive(Clone, Copy, Debug, PartialEq, Eq, Structural)]
pub struct OfferPrices {
    /// Recommended `maxPrice` (dynamic sale average, never below the default bucket).
    pub default: Amount,
    /// Omitted by the provider when there is no sales data.
    pub avg: Option<Amount>,
    /// Catalog retail price, markup included.
    pub retail: Option<Amount>,
    /// Sellable minimum — the `WRONG_MAX_PRICE` threshold.
    pub min: Option<Amount>,
}

/// `counts` block of a `getOffers` cell.
#[derive(Clone, Copy, Debug, Default, PartialEq, Eq, Structural)]
pub struct OfferCounts {
    /// Same value as `getPrices`' `count`.
    pub total: u64,
    /// Numbers in the default bucket.
    pub default_price: Option<u64>,
}

/// One `getOffers` cell.
#[derive(Debug, PartialEq)]
pub struct Offer {
    pub prices: OfferPrices,
    pub counts: OfferCounts,
    /// Price ladder (same data as `getFreePrices`, without `has_multi`).
    pub map: Vec<PriceBucket>,
}

/// Row of `getProviders`.
#[derive(Debug, PartialEq)]
pub struct Provider {
    /// Public numeric id, usable with `providerIds` / `exceptProviderIds`.
    pub id: u64,
    /// Always the literal `Provider<id>`.
    pub name: String,
    pub numbers_count: u64,
    /// SMS delivery rate in percent; `None` when unknown.
    pub delivery_percent: Option<Amount>,
    /// Number lifetime as reported by the provider (unit not documented).
    pub number_lifetime: Option<u64>,
}

/// The SMS block of `getStatusV2`.
#[derive(Debug, Default, PartialEq, Eq)]
pub struct Sms {
    /// RFC 3339 timestamp (`2026-07-02T18:12:31+00:00`).
    pub date_time: Option<String>,
    pub code: Option<String>,
    pub text: Option<String>,
}

/// Result of `getStatusV2`.
#[derive(Debug, PartialEq, Eq)]
pub enum StatusV2 {
    /// The provider answered with a classic token (accepted defensively).
    Plain(ActivationStatus),
    /// JSON answer: `verificationType` is `0` while waiting and `1` once a code arrived; `sms`
    /// is `None` until then.
    Json { verification_type: Option<u64>, sms: Option<Sms> },
}

/// What a [`StatusV2`] denotes: a plain status, or the verification type and the SMS
/// (date, code, text).
pub enum StatusV2View {
    Plain(StatusView),
    Json(Option<u64>, Option<(Option<Seq<char>>, Option<Seq<char>>, Option<Seq<char>>)>),
}

impl View for StatusV2 {
    type V = StatusV2View;

    open spec fn view(&self) -> StatusV2View {
        match self {
            StatusV2::Plain(s) => StatusV2View::Plain(s@),
            StatusV2::Json { verification_type, sms } => StatusV2View::Json(
                *verification_type,
                match sms {
                    Some(m) => Some((opt_text(m.date_time), opt_text(m.code), opt_text(m.text))),
                    None => None,
                },
            ),
        }
    }
}

impl StatusV2 {
    /// The received code, if any.
    pub fn code(&self) -> (r: Option<&str>)
        ensures
            match self@ {
                StatusV2View::Plain(s) => match r {
                    Some(c) => crate::types::status_code(s) == Some(c@),
                    None => crate::types::status_code(s) is None,
                },
                StatusV2View::Json(_, sms) => match sms {
                    Some(m) => match r {
                        Some(c) => m.1 == Some(c@),
                        None => m.1 is None,
                    },
                    None => r is None,
                },
            },
    {
        match self {
            StatusV2::Plain(s) => s.code(),
            StatusV2::Json { sms, .. } => match sms {
                Some(m) => match &m.code {
                    Some(c) => Some(c.as_str()),
                    None => None,
                },
                None => None,
            },
        }
    }
}

/// `activationType` values of `getNumber` / `getNumberV2`.
#[derive(Clone, Copy, Debug, PartialEq, Eq, Structural)]
pub enum ActivationType {
    Sms,
    CallFlash,
    CallVoice,
    CallInteractive,
    /// Accepted by the API but rental is not a supported product yet.
    RentSms,
}

impl Default for ActivationType {
    /// `SMS`.
    fn default() -> (r: Self)
        ensures
            r == ActivationType::Sms,
    {
        ActivationType::Sms
    }
}

pub open spec fn activation_type_text(t: ActivationType) -> Seq<char> {
    match t {
        ActivationType::Sms => "SMS"@,
        ActivationType::CallFlash => "CALL_FLASH"@,
        ActivationType::CallVoice => "CALL_VOICE"@,
        ActivationType::CallInteractive => "CALL_INTERACTIVE"@,
        ActivationType::RentSms => "RENT_SMS"@,
    }
}

impl ActivationType {
    pub fn as_str(self) -> (r: &'static str)
        ensures
            r@ == activation_type_text(self),
    {
        match self {
            ActivationType::Sms => "SMS",
            ActivationType::CallFlash => "CALL_FLASH",
            ActivationType::CallVoice => "CALL_VOICE",
            ActivationType::CallInteractive => "CALL_INTERACTIVE",
            ActivationType::RentSms => "RENT_SMS",
        }
    }
}

// ---------------------------------------------------------------------------
// Request helpers

/// `extra` with `key` set to `value`: earlier values of `key` removed, the new one last.
pub open spec fn with_extra(extra: Seq<(Seq<char>, Seq<char>)>, key: Seq<char>, value: Seq<char>) -> Seq<(Seq<char>, Seq<char>)> {
    without_key(extra, key).push((key, value))
}

/// Replaces `key` in `extra` (removing an earlier value first).
pub fn set_extra(req: &mut NumberRequest, key: &str, value: &str)
    ensures
        final(req)@ == (RequestParams { extra: with_extra(old(req)@.extra, key@, value@), ..old(req)@ }),
{
    let ghost before = req@.extra;
    remove_param(&mut req.extra, key);
    let ghost mid = pairs_view(req.extra@);
    req.extra.push((owned(key), owned(value)));
    assert(pairs_view(req.extra@) =~= mid.push((key@, value@)));
}

/// The decimal texts of a list of ids.
pub open spec fn id_texts(ids: Seq<u64>) -> Seq<Seq<char>> {
    ids.map_values(|x: u64| crate::num::dec(x as nat))
}

/// Ids joined with commas (`14,163`).
pub fn join_csv(ids: &[u64]) -> (r: String)
    ensures
        r@ == joined(id_texts(ids@), ','),
{
    let mut texts: Vec<String> = Vec::new();
    let mut i: usize = 0;
    while i < ids.len()
        invariant
            i <= ids@.len(),
            crate::error::seq_views(texts@) == id_texts(ids@.take(i as int)),
        decreases ids.len() - i,
    {
        let ghost before = texts@;
        texts.push(crate::num::u64_to_string(ids[i]));
        assert(crate::error::seq_views(texts@) =~= crate::error::seq_views(before).push(crate::num::dec(ids@[i as int] as nat)));
        i = i + 1;
        assert(id_texts(ids@.take(i as int)) =~= id_texts(ids@.take(i - 1)).push(crate::num::dec(ids@[i - 1] as nat)));
    }
    assert(ids@.take(i as int) =~= ids@);
    crate::providers::hero_sms::join_with(&texts, ',')
}

/// Tiger-SMS-only `getNumber` / `getNumberV2` parameters, applied to a [`NumberRequest`] by
/// [`TigerNumberOptions::apply`] or, with validation, by [`Client::get_number_with`].
#[derive(Debug, Default, PartialEq, Eq)]
pub struct TigerNumberOptions {
    /// `multiple=1` — only numbers that can receive several SMS. Sent only when `true`.
    pub multiple: bool,
    /// `providerIds` — only buy from these providers. Empty means no filter.
    pub provider_ids: Vec<u64>,
    /// `exceptProviderIds` — never buy from these providers. Empty means no filter.
    pub except_provider_ids: Vec<u64>,
    /// `ref` — referral id.
    pub referral: Option<String>,
    /// `activationType` — SMS (the provider's default when absent) or one of the call types.
    pub activation_type: Option<ActivationType>,
    /// `fixedPrice=true` — charge exactly `maxPrice`; only sent together with a `max_price`.
    pub fixed_price: bool,
}

/// What [`TigerNumberOptions`] denote.
pub struct TigerOptionsView {
    pub multiple: bool,
    pub provider_ids: Seq<u64>,
    pub except_provider_ids: Seq<u64>,
    pub referral: Option<Seq<char>>,
    pub activation_type: Option<ActivationType>,
    pub fixed_price: bool,
}

impl View for TigerNumberOptions {
    type V = TigerOptionsView;

    open spec fn view(&self) -> TigerOptionsView {
        TigerOptionsView {
            multiple: self.multiple,
            provider_ids: self.provider_ids@,
            except_provider_ids: self.except_provider_ids@,
            referral: opt_text(self.referral),
            activation_type: self.activation_type,
            fixed_price: self.fixed_price,
        }
    }
}

/// The extra parameters of a request once the options are applied, each replacing an earlier
/// value of the same parameter.
pub open spec fn tiger_extra(o: TigerOptionsView, r: RequestParams) -> Seq<(Seq<char>, Seq<char>)> {
    let e1 = if o.multiple { with_extra(r.extra, "multiple"@, "1"@) } else { r.extra };
    let e2 = if o.provider_ids.len() > 0 {
        with_extra(e1, "providerIds"@, joined(id_texts(o.provider_ids), ','))
    } else {
        e1
    };
    let e3 = if o.except_provider_ids.len() > 0 {
        with_extra(e2, "exceptProviderIds"@, joined(id_texts(o.except_provider_ids), ','))
    } else {
        e2
    };
    let e4 = match o.referral {
        Some(x) => with_extra(e3, "ref"@, x),
        None => e3,
    };
    let e5 = match o.activation_type {
        Some(t) => with_extra(e4, "activationType"@, activation_type_text(t)),
        None => e4,
    };
    if o.fixed_price && r.max_price is Some {
        with_extra(e5, "fixedPrice"@, "true"@)
    } else {
        e5
    }
}

fn copy_ids(ids: &[u64]) -> (r: Vec<u64>)
    ensures
        r@ == ids@,
{
    let mut out: Vec<u64> = Vec::new();
    let mut i: usize = 0;
    while i < ids.len()
        invariant
            i <= ids@.len(),
            out@ == ids@.take(i as int),
        decreases ids.len() - i,
    {
        out.push(ids[i]);
        i = i + 1;
        assert(out@ =~= ids@.take(i as int));
    }
    assert(ids@.take(i as int) =~= ids@);
    out
}

impl TigerNumberOptions {
    pub fn new() -> (r: Self)
        ensures
            r@ == (TigerOptionsView {
                multiple: false,
                provider_ids: Seq::empty(),
                except_provider_ids: Seq::empty(),
                referral: None,
                activation_type: None,
                fixed_price: false,
            }),
    {
        let r = TigerNumberOptions {
            multiple: false,
            provider_ids: Vec::new(),
            except_provider_ids: Vec::new(),
            referral: None,
            activation_type: None,
            fixed_price: false,
        };
        assert(r@.provider_ids =~= Seq::<u64>::empty());
        assert(r@.except_provider_ids =~= Seq::<u64>::empty());
        r
    }

    pub fn multiple(self, multiple: bool) -> (r: Self)
        ensures
            r@ == (TigerOptionsView { multiple, ..self@ }),
    {
        let mut s = self;
        s.multiple = multiple;
        s
    }

    /// Replaces the provider filter.
    pub fn provider_ids(self, ids: &[u64]) -> (r: Self)
        ensures
            r@ == (TigerOptionsView { provider_ids: ids@, ..self@ }),
    {
        let mut s = self;
        s.provider_ids = copy_ids(ids);
        s
    }

    /// Replaces the provider exclusion list.
    pub fn except_provider_ids(self, ids: &[u64]) -> (r: Self)
        ensures
            r@ == (TigerOptionsView { except_provider_ids: ids@, ..self@ }),
    {
        let mut s = self;
        s.except_provider_ids = copy_ids(ids);
        s
    }

    pub fn referral(self, referral_id: &str) -> (r: Self)
        ensures
            r@ == (TigerOptionsView { referral: Some(referral_id@), ..self@ }),
    {
        let mut s = self;
        s.referral = Some(owned(referral_id));
        s
    }

    pub fn activation_type(self, activation_type: ActivationType) -> (r: Self)
        ensures
            r@ == (TigerOptionsView { activation_type: Some(activation_type), ..self@ }),
    {
        let mut s = self;
        s.activation_type = Some(activation_type);
        s
    }

    pub fn fixed_price(self, fixed: bool) -> (r: Self)
        ensures
            r@ == (TigerOptionsView { fixed_price: fixed, ..self@ }),
    {
        let mut s = self;
        s.fixed_price = fixed;
        s
    }

    /// Applies the options to a [`NumberRequest`] as extra query parameters, replacing any
    /// earlier value of the same parameter (see [`tiger_extra`]). `fixedPrice` is only emitted
    /// alongside a `max_price`.
    pub fn apply(&self, request: &NumberRequest) -> (r: NumberRequest)
        ensures
            r@ == (RequestParams { extra: tiger_extra(self@, request@), ..request@ }),
    {
        let mut req = request.clone();
        if self.multiple {
            set_extra(&mut req, params::MULTIPLE, "1");
        }
        if self.provider_ids.len() > 0 {
            let csv = join_csv(self.provider_ids.as_slice());
            set_extra(&mut req, params::PROVIDER_IDS, csv.as_str());
        }
        if self.except_provider_ids.len() > 0 {
            let csv = join_csv(self.except_provider_ids.as_slice());
            set_extra(&mut req, params::EXCEPT_PROVIDER_IDS, csv.as_str());
        }
        if let Some(r) = &self.referral {
            set_extra(&mut req, params::REF, r.as_str());
        }
        if let Some(t) = self.activation_type {
            set_extra(&mut req, params::ACTIVATION_TYPE, t.as_str());
        }
        if self.fixed_price && request.max_price.is_some() {
            set_extra(&mut req, params::FIXED_PRICE, "true");
        }
        req
    }
}

/// The error `get_number_with` answers before any request, if any.
pub open spec fn number_with_error(r: RequestParams, o: TigerOptionsView) -> Option<ErrorView> {
    if r.min_price is Some {
        Some(ErrorView::Unsupported("minPrice"@))
    } else if r.operator is Some {
        Some(ErrorView::Unsupported("operator"@))
    } else if o.fixed_price && r.max_price is None {
        Some(ErrorView::Validation("maxPrice"@, "fixedPrice requires max_price"@))
    } else {
        None
    }
}

// ---------------------------------------------------------------------------
// Parsers for the provider-only shapes

/// `{"balance":"4.6820","currency":840}`; the currency defaults to USD and is taken `as u32`.
pub open spec fn balance_info_of(v: JsonView, t: Seq<char>) -> Result<BalanceInfo, ErrorView> {
    match vamount(jget(v, "balance"@)) {
        None => Err(ErrorView::Unexpected(t)),
        Some(b) => Ok(
            BalanceInfo {
                balance: Amount { units: b as i128 },
                currency: match vu64(jget(v, "currency"@)) {
                    Some(c) => (c % 0x1_0000_0000) as u32,
                    None => 840,
                },
            },
        ),
    }
}

/// `{"balance":"4.6820","currency":840}`
pub fn parse_balance_json(body: &str) -> (r: ApiResult<BalanceInfo>)
    ensures
        match json_of_text(trim(body@)) {
            None => r matches Err(e) && e@ is Parse,
            Some(v) => match r {
                Ok(b) => balance_info_of(v, trim(body@)) == Ok::<BalanceInfo, ErrorView>(b),
                Err(e) => balance_info_of(v, trim(body@)) == Err::<BalanceInfo, ErrorView>(e@),
            },
        },
{
    let t = text(&trim_str(body));
    let v = match parse_json(t.as_str()) {
        Ok(v) => v,
        Err(e) => {
            return Err(e);
        },
    };
    let balance = match value_to_amount(v.get("balance")) {
        Some(b) => b,
        None => {
            return Err(ApiError::Unexpected(t));
        },
    };
    let currency = match value_to_u64(v.get("currency")) {
        Some(c) => (c % 0x1_0000_0000u64) as u32,
        None => CURRENCY_USD,
    };
    Ok(BalanceInfo { balance, currency })
}

/// `{"verificationType":1,"sms":{"dateTime":"…","code":"852508","text":"…"}}` or
/// `{"verificationType":0,"sms":null}`.
pub open spec fn status_v2_json(v: JsonView) -> StatusV2View {
    StatusV2View::Json(
        vu64(jget(v, "verificationType"@)),
        match jget(v, "sms"@) {
            Some(JsonView::Object(es)) => {
                let s = JsonView::Object(es);
                Some((vstring(jget(s, "dateTime"@)), vstring(jget(s, "code"@)), vstring(jget(s, "text"@))))
            },
            _ => None,
        },
    )
}

/// The structured status of a decoded `getStatusV2` answer (see [`status_v2_json`]).
pub fn status_v2_from_json(v: &Json) -> (r: StatusV2)
    ensures
        r@ == status_v2_json(v@),
{
    let sms = match v.get("sms") {
        Some(s) => match s {
            Json::Object(_) => Some(Sms {
                date_time: value_to_string(s.get("dateTime")),
                code: value_to_string(s.get("code")),
                text: value_to_string(s.get("text")),
            }),
            _ => None,
        },
        None => None,
    };
    StatusV2::Json { verification_type: value_to_u64(v.get("verificationType")), sms }
}

/// `getStatusV2`: the JSON shape, or a classic token read as Tiger's `getStatus` does.
pub fn parse_status_v2(body: &str) -> (r: ApiResult<StatusV2>)
    ensures
        !starts_with_char(trim(body@), '{') ==> match r {
            Ok(s) => tiger_status_of(body@) matches Ok(p) && s@ == StatusV2View::Plain(p),
            Err(e) => tiger_status_of(body@) == Err::<StatusView, ErrorView>(e@),
        },
        starts_with_char(trim(body@), '{') ==> match json_of_text(trim(body@)) {
            None => r matches Err(e) && e@ is Parse,
            Some(v) => r matches Ok(s) && s@ == status_v2_json(v),
        },
{
    let tc = trim_str(body);
    if !(tc.len() > 0 && tc[0] == '{') {
        return match parse_status(body) {
            Ok(s) => Ok(StatusV2::Plain(s)),
            Err(e) => Err(e),
        };
    }
    let t = text(&tc);
    match parse_json(t.as_str()) {
        Ok(v) => Ok(status_v2_from_json(&v)),
        Err(e) => Err(e),
    }
}

/// `{"status":"success"}` → `Ok`; anything else is unexpected.
pub open spec fn set_status_v2_of(v: JsonView, t: Seq<char>) -> Option<ErrorView> {
    if vstring(jget(v, "status"@)) == Some("success"@) {
        None
    } else {
        Some(ErrorView::Unexpected(t))
    }
}

/// `{"status":"success"}`
pub fn parse_set_status_v2(body: &str) -> (r: ApiResult<()>)
    ensures
        match json_of_text(trim(body@)) {
            None => r matches Err(e) && e@ is Parse,
            Some(v) => err_of(r) == set_status_v2_of(v, trim(body@)),
        },
{
    let t = text(&trim_str(body));
    let v = match parse_json(t.as_str()) {
        Ok(v) => v,
        Err(e) => {
            return Err(e);
        },
    };
    match value_to_string(v.get("status")) {
        Some(st) => {
            if eq_str(&chars_of(st.as_str()), "success") {
                Ok(())
            } else {
                Err(ApiError::Unexpected(t))
            }
        },
        None => Err(ApiError::Unexpected(t)),
    }
}

/// `` bad <what> `<key>` `` — the message for a key that does not parse.
pub open spec fn bad_key(what: Seq<char>, key: Seq<char>) -> Seq<char> {
    "bad "@ + what + " `"@ + key + "`"@
}

fn bad_key_message(what: &str, key: &str) -> (r: String)
    ensures
        r@ == bad_key(what@, key@),
{
    let mut m = String::new();
    crate::text::push_str(&mut m, "bad ");
    crate::text::push_str(&mut m, what);
    crate::text::push_str(&mut m, " `");
    crate::text::push_str(&mut m, key);
    crate::text::push_str(&mut m, "`");
    m
}

/// One `"<price>": count` bucket; `has_multi` comes from the parallel map.
pub open spec fn bucket_rows(es: Seq<(Seq<char>, JsonView)>, has_multi: Option<JsonView>) -> Result<Seq<(u128, PriceBucket)>, ErrorView>
    decreases es.len(),
{
    if es.len() == 0 {
        Ok(Seq::empty())
    } else {
        match bucket_rows(es.drop_last(), has_multi) {
            Err(e) => Err(e),
            Ok(r) => {
                let (key, count) = es.last();
                match decimal_units(trim(key)) {
                    None => Err(ErrorView::Parse(bad_key("price"@, key))),
                    Some(p) => {
                        let b = PriceBucket {
                            price: Amount { units: p as i128 },
                            count: match vu64(Some(count)) {
                                Some(c) => c,
                                None => 0,
                            },
                            has_multi: vbool(oget(has_multi, key)),
                        };
                        Ok(r.push((amount_key(b.price), b)))
                    },
                }
            },
        }
    }
}

/// `{"<price>":count,…}` → buckets by ascending price (stable); a key that is not a price is an
/// error; an absent map is no buckets.
pub open spec fn tiger_price_map(prices: Option<JsonView>, has_multi: Option<JsonView>) -> Result<Seq<PriceBucket>, ErrorView> {
    match prices {
        Some(JsonView::Object(es)) => match bucket_rows(es, has_multi) {
            Err(e) => Err(e),
            Ok(rows) => Ok(payloads(sort_keyed(rows))),
        },
        _ => Ok(Seq::empty()),
    }
}

proof fn lemma_bucket_err_sticks(es: Seq<(Seq<char>, JsonView)>, hm: Option<JsonView>, k: int, e: ErrorView)
    requires
        0 <= k <= es.len(),
        bucket_rows(es.take(k), hm) == Err::<Seq<(u128, PriceBucket)>, ErrorView>(e),
    ensures
        bucket_rows(es, hm) == Err::<Seq<(u128, PriceBucket)>, ErrorView>(e),
    decreases es.len() - k,
{
    if k < es.len() {
        assert(es.take(k + 1).drop_last() =~= es.take(k));
        lemma_bucket_err_sticks(es, hm, k + 1, e);
    } else {
        assert(es.take(k) =~= es);
    }
}

/// The buckets of a price map (see [`tiger_price_map`]).
pub fn parse_price_map(prices: Option<&Json>, has_multi: Option<&Json>) -> (r: ApiResult<Vec<PriceBucket>>)
    ensures
        match r {
            Ok(b) => tiger_price_map(oview(prices), oview(has_multi)) == Ok::<Seq<PriceBucket>, ErrorView>(b@),
            Err(e) => tiger_price_map(oview(prices), oview(has_multi)) == Err::<Seq<PriceBucket>, ErrorView>(e@),
        },
{
    let es = match prices {
        Some(Json::Object(es)) => es,
        _ => {
            return Ok(Vec::new());
        },
    };
    proof {
        crate::json::lemma_object_view(*es);
    }
    let ghost vs = member_views(es@);
    let ghost hm = oview(has_multi);
    let mut rows: Vec<(u128, PriceBucket)> = Vec::new();
    let mut i: usize = 0;
    assert(vs.take(0) =~= Seq::<(Seq<char>, JsonView)>::empty());
    while i < es.len()
        invariant
            i <= es@.len(),
            vs == member_views(es@),
            hm == oview(has_multi),
            oview(prices) == Some(JsonView::Object(vs)),
            bucket_rows(vs.take(i as int), hm) == Ok::<Seq<(u128, PriceBucket)>, ErrorView>(rows@),
        decreases es.len() - i,
    {
        proof {
            assert(vs.take(i + 1).drop_last() =~= vs.take(i as int));
            assert(vs.take(i + 1).last() == vs[i as int]);
        }
        let key = &es[i].0;
        let price = match crate::amount::parse_decimal(&trim_str(key.as_str())) {
            Some(p) => p,
            None => {
                let e = ApiError::Parse(bad_key_message("price", key.as_str()));
                proof {
                    lemma_bucket_err_sticks(vs, hm, i + 1, e@);
                }
                return Err(e);
            },
        };
        let count = match value_to_u64(Some(&es[i].1)) {
            Some(c) => c,
            None => 0,
        };
        let multi = value_to_bool(crate::json::get_in(has_multi, key.as_str()));
        let b = PriceBucket { price, count, has_multi: multi };
        rows.push((amount_key_exec(price), b));
        i = i + 1;
    }
    assert(vs.take(i as int) =~= vs);
    let sorted = sort_by_key(rows);
    Ok(strip_keys(sorted))
}

/// The rows of one country, every cell read by `cell` (the first error stops the walk).
pub open spec fn walk_rows<C>(ses: Seq<(Seq<char>, JsonView)>, cell: spec_fn(JsonView) -> Result<C, ErrorView>) -> Result<Map<Seq<char>, C>, ErrorView>
    decreases ses.len(),
{
    if ses.len() == 0 {
        Ok(Map::empty())
    } else {
        match walk_rows(ses.drop_last(), cell) {
            Err(e) => Err(e),
            Ok(m) => match cell(ses.last().1) {
                Err(e) => Err(e),
                Ok(c) => Ok(m.insert(ses.last().0, c)),
            },
        }
    }
}

/// `{"<country>":{"<service>":<cell>}}`: numeric country keys (trimmed), service rows of cells.
pub open spec fn walk_table<C>(what: Seq<char>, es: Seq<(Seq<char>, JsonView)>, cell: spec_fn(JsonView) -> Result<C, ErrorView>) -> Result<Map<u32, Map<Seq<char>, C>>, ErrorView>
    decreases es.len(),
{
    if es.len() == 0 {
        Ok(Map::empty())
    } else {
        match walk_table(what, es.drop_last(), cell) {
            Err(e) => Err(e),
            Ok(m) => {
                let (country, services) = es.last();
                match parse_u32_spec(trim(country)) {
                    None => Err(ErrorView::Parse(bad_key("country key"@, country))),
                    Some(id) => match services {
                        JsonView::Object(ses) => match walk_rows(ses, cell) {
                            Err(e) => Err(e),
                            Ok(row) => Ok(m.insert(id, row)),
                        },
                        _ => Err(ErrorView::Parse(crate::json::object_expected(what))),
                    },
                }
            },
        }
    }
}

pub open spec fn walk<C>(v: JsonView, what: Seq<char>, cell: spec_fn(JsonView) -> Result<C, ErrorView>) -> Result<Map<u32, Map<Seq<char>, C>>, ErrorView> {
    match v {
        JsonView::Object(es) => walk_table(what, es, cell),
        _ => Err(ErrorView::Parse(crate::json::object_expected(what))),
    }
}

pub(crate) proof fn lemma_walk_rows_err<C>(ses: Seq<(Seq<char>, JsonView)>, cell: spec_fn(JsonView) -> Result<C, ErrorView>, k: int, e: ErrorView)
    requires
        0 <= k <= ses.len(),
        walk_rows(ses.take(k), cell) == Err::<Map<Seq<char>, C>, ErrorView>(e),
    ensures
        walk_rows(ses, cell) == Err::<Map<Seq<char>, C>, ErrorView>(e),
    decreases ses.len() - k,
{
    if k < ses.len() {
        assert(ses.take(k + 1).drop_last() =~= ses.take(k));
        lemma_walk_rows_err(ses, cell, k + 1, e);
    } else {
        assert(ses.take(k) =~= ses);
    }
}

proof fn lemma_walk_table_err<C>(what: Seq<char>, es: Seq<(Seq<char>, JsonView)>, cell: spec_fn(JsonView) -> Result<C, ErrorView>, k: int, e: ErrorView)
    requires
        0 <= k <= es.len(),
        walk_table(what, es.take(k), cell) == Err::<Map<u32, Map<Seq<char>, C>>, ErrorView>(e),
    ensures
        walk_table(what, es, cell) == Err::<Map<u32, Map<Seq<char>, C>>, ErrorView>(e),
    decreases es.len() - k,
{
    if k < es.len() {
        assert(es.take(k + 1).drop_last() =~= es.take(k));
        lemma_walk_table_err(what, es, cell, k + 1, e);
    } else {
        assert(es.take(k) =~= es);
    }
}

/// The ladder of one `getFreePrices` cell.
pub open spec fn ladder_cell(c: JsonView) -> Result<(Seq<PriceBucket>, Option<int>), ErrorView> {
    match tiger_price_map(jget(c, "prices"@), jget(c, "has_multi"@)) {
        Err(e) => Err(e),
        Ok(b) => Ok((b, vamount(jget(c, "saleAveragePrice"@)))),
    }
}

/// What a free-price table denotes.
pub open spec fn free_table_view(t: KeyMap<u32, KeyMap<ServiceCode, PriceLadder>>) -> Map<u32, Map<Seq<char>, (Seq<PriceBucket>, Option<int>)>> {
    t@.map_values(|row: KeyMap<ServiceCode, PriceLadder>| row@.map_values(|l: PriceLadder| ladder_view(l)))
}

fn ladder_from_json(c: &Json) -> (r: ApiResult<PriceLadder>)
    ensures
        match r {
            Ok(l) => ladder_cell(c@) == Ok::<(Seq<PriceBucket>, Option<int>), ErrorView>(ladder_view(l)),
            Err(e) => ladder_cell(c@) == Err::<(Seq<PriceBucket>, Option<int>), ErrorView>(e@),
        },
{
    let buckets = match parse_price_map(c.get("prices"), c.get("has_multi")) {
        Ok(b) => b,
        Err(e) => {
            return Err(e);
        },
    };
    Ok(PriceLadder { buckets, sale_average_price: value_to_amount(c.get("saleAveragePrice")) })
}

/// The ladders of one country row.
fn free_row_from_json(ses: &Vec<(String, Json)>) -> (r: ApiResult<KeyMap<ServiceCode, PriceLadder>>)
    ensures
        match r {
            Ok(row) => walk_rows(member_views(ses@), |c: JsonView| ladder_cell(c)) == Ok::<Map<Seq<char>, (Seq<PriceBucket>, Option<int>)>, ErrorView>(
                row@.map_values(|l: PriceLadder| ladder_view(l)),
            ),
            Err(e) => walk_rows(member_views(ses@), |c: JsonView| ladder_cell(c)) == Err::<Map<Seq<char>, (Seq<PriceBucket>, Option<int>)>, ErrorView>(e@),
        },
{
    let ghost cell = |c: JsonView| ladder_cell(c);
    let ghost rvs = member_views(ses@);
    let mut row: KeyMap<ServiceCode, PriceLadder> = KeyMap::new();
    let mut j: usize = 0;
    assert(rvs.take(0) =~= Seq::<(Seq<char>, JsonView)>::empty());
    assert(row@.map_values(|l: PriceLadder| ladder_view(l)) =~= Map::empty());
    while j < ses.len()
        invariant
            j <= ses@.len(),
            rvs == member_views(ses@),
            cell == (|c: JsonView| ladder_cell(c)),
            walk_rows(rvs.take(j as int), cell) == Ok::<Map<Seq<char>, (Seq<PriceBucket>, Option<int>)>, ErrorView>(
                row@.map_values(|l: PriceLadder| ladder_view(l)),
            ),
        decreases ses.len() - j,
    {
        proof {
            assert(rvs.take(j + 1).drop_last() =~= rvs.take(j as int));
            assert(rvs.take(j + 1).last() == rvs[j as int]);
        }
        let l = match ladder_from_json(&ses[j].1) {
            Ok(l) => l,
            Err(e) => {
                proof {
                    lemma_walk_rows_err(rvs, cell, j + 1, e@);
                }
                return Err(e);
            },
        };
        let ghost before = row@;
        let ghost lv = ladder_view(l);
        row.insert(ServiceCode(copy_string(&ses[j].0)), l);
        assert(row@.map_values(|l: PriceLadder| ladder_view(l)) =~= before.map_values(|l: PriceLadder| ladder_view(l)).insert(rvs[j as int].0, lv));
        j = j + 1;
    }
    assert(rvs.take(j as int) =~= rvs);
    Ok(row)
}

/// The free-price table of a decoded `getFreePrices` / `getPricesV2` answer.
pub fn free_prices_from_json(v: &Json) -> (r: ApiResult<KeyMap<u32, KeyMap<ServiceCode, PriceLadder>>>)
    ensures
        match r {
            Ok(t) => walk(v@, "getFreePrices"@, |c: JsonView| ladder_cell(c)) == Ok::<Map<u32, Map<Seq<char>, (Seq<PriceBucket>, Option<int>)>>, ErrorView>(free_table_view(t)),
            Err(e) => walk(v@, "getFreePrices"@, |c: JsonView| ladder_cell(c)) == Err::<Map<u32, Map<Seq<char>, (Seq<PriceBucket>, Option<int>)>>, ErrorView>(e@),
        },
{
    let ghost cell = |c: JsonView| ladder_cell(c);
    let es = match as_object(v, "getFreePrices") {
        Ok(es) => es,
        Err(e) => {
            return Err(e);
        },
    };
    let ghost vs = member_views(es@);
    let mut table: KeyMap<u32, KeyMap<ServiceCode, PriceLadder>> = KeyMap::new();
    let mut i: usize = 0;
    assert(vs.take(0) =~= Seq::<(Seq<char>, JsonView)>::empty());
    assert(free_table_view(table) =~= Map::empty());
    while i < es.len()
        invariant
            i <= es@.len(),
            vs == member_views(es@),
            v@ == JsonView::Object(vs),
            cell == (|c: JsonView| ladder_cell(c)),
            walk_table("getFreePrices"@, vs.take(i as int), cell) == Ok::<Map<u32, Map<Seq<char>, (Seq<PriceBucket>, Option<int>)>>, ErrorView>(free_table_view(table)),
        decreases es.len() - i,
    {
        proof {
            assert(vs.take(i + 1).drop_last() =~= vs.take(i as int));
            assert(vs.take(i + 1).last() == vs[i as int]);
        }
        let country = &es[i].0;
        let id = match parse_u32(&trim_str(country.as_str())) {
            Some(id) => id,
            None => {
                let e = ApiError::Parse(bad_key_message("country key", country.as_str()));
                proof {
                    lemma_walk_table_err("getFreePrices"@, vs, cell, i + 1, e@);
                }
                return Err(e);
            },
        };
        let ses = match as_object(&es[i].1, "getFreePrices") {
            Ok(x) => x,
            Err(e) => {
                proof {
                    lemma_walk_table_err("getFreePrices"@, vs, cell, i + 1, e@);
                }
                return Err(e);
            },
        };
        let row = match free_row_from_json(ses) {
            Ok(row) => row,
            Err(e) => {
                proof {
                    lemma_walk_table_err("getFreePrices"@, vs, cell, i + 1, e@);
                }
                return Err(e);
            },
        };
        let ghost before_t = table;
        let ghost row_v = row@.map_values(|l: PriceLadder| ladder_view(l));
        table.insert(id, row);
        assert(free_table_view(table) =~= free_table_view(before_t).insert(id, row_v));
        i = i + 1;
    }
    assert(vs.take(i as int) =~= vs);
    Ok(table)
}

/// `{"187":{"tg":{"prices":{"0.2500":22518,…},"has_multi":{"0.2500":true,…},"saleAveragePrice":0.199}}}`
pub fn parse_free_prices(body: &str) -> (r: ApiResult<KeyMap<u32, KeyMap<ServiceCode, PriceLadder>>>)
    ensures
        match json_of_text(trim(body@)) {
            None => r matches Err(e) && e@ is Parse,
            Some(v) => match r {
                Ok(t) => walk(v, "getFreePrices"@, |c: JsonView| ladder_cell(c)) == Ok::<Map<u32, Map<Seq<char>, (Seq<PriceBucket>, Option<int>)>>, ErrorView>(free_table_view(t)),
                Err(e) => walk(v, "getFreePrices"@, |c: JsonView| ladder_cell(c)) == Err::<Map<u32, Map<Seq<char>, (Seq<PriceBucket>, Option<int>)>>, ErrorView>(e@),
            },
        },
{
    let t = text(&trim_str(body));
    match parse_json(t.as_str()) {
        Ok(v) => free_prices_from_json(&v),
        Err(e) => Err(e),
    }
}

impl View for ProviderOffer {
    type V = (u64, u64, Seq<Amount>);

    open spec fn view(&self) -> (u64, u64, Seq<Amount>) {
        (self.provider_id, self.count, self.prices@)
    }
}

/// The amounts among a list of values.
pub open spec fn amounts_in(items: Seq<JsonView>) -> Seq<(u128, Amount)>
    decreases items.len(),
{
    if items.len() == 0 {
        Seq::empty()
    } else {
        amounts_in(items.drop_last()) + match vamount(Some(items.last())) {
            Some(a) => seq![(amount_key(Amount { units: a as i128 }), Amount { units: a as i128 })],
            None => Seq::empty(),
        }
    }
}

/// A provider's bucket prices, ascending: the amounts of a `price` array, or the single amount.
pub open spec fn offer_prices(p: JsonView) -> Seq<Amount> {
    payloads(sort_keyed(match jget(p, "price"@) {
        Some(JsonView::Array(items)) => amounts_in(items),
        other => match vamount(other) {
            Some(a) => seq![(amount_key(Amount { units: a as i128 }), Amount { units: a as i128 })],
            None => Seq::empty(),
        },
    }))
}

/// The offers of a `providers` map keyed by provider id; an entry without an id is an error.
pub open spec fn provider_rows(pes: Seq<(Seq<char>, JsonView)>) -> Result<Seq<(u128, (u64, u64, Seq<Amount>))>, ErrorView>
    decreases pes.len(),
{
    if pes.len() == 0 {
        Ok(Seq::empty())
    } else {
        match provider_rows(pes.drop_last()) {
            Err(e) => Err(e),
            Ok(r) => {
                let (key, p) = pes.last();
                let id = match vu64(jget(p, "provider_id"@)) {
                    Some(n) => Some(n),
                    None => parse_u64_spec(trim(key)),
                };
                match id {
                    None => Err(ErrorView::Parse(bad_key("provider id"@, key))),
                    Some(n) => Ok(
                        r.push(
                            (
                                n as u128,
                                (
                                    n,
                                    match vu64(jget(p, "count"@)) {
                                        Some(c) => c,
                                        None => 0,
                                    },
                                    offer_prices(p),
                                ),
                            ),
                        ),
                    ),
                }
            },
        }
    }
}

/// The offers that carry a price, each keyed by its cheapest one, in order.
pub open spec fn priced_keys(s: Seq<(u64, u64, Seq<Amount>)>) -> Seq<(u128, (u64, u64, Seq<Amount>))>
    decreases s.len(),
{
    if s.len() == 0 {
        Seq::empty()
    } else if s.last().2.len() > 0 {
        priced_keys(s.drop_last()).push((amount_key(s.last().2[0]), s.last()))
    } else {
        priced_keys(s.drop_last())
    }
}

/// The offers without a price, in order.
pub open spec fn unpriced(s: Seq<(u64, u64, Seq<Amount>)>) -> Seq<(u64, u64, Seq<Amount>)>
    decreases s.len(),
{
    if s.len() == 0 {
        Seq::empty()
    } else if s.last().2.len() > 0 {
        unpriced(s.drop_last())
    } else {
        unpriced(s.drop_last()).push(s.last())
    }
}

/// Offers ordered by cheapest price, then by provider id (stable); offers without a price
/// come last, by provider id.
pub open spec fn ordered_offers(rows: Seq<(u128, (u64, u64, Seq<Amount>))>) -> Seq<(u64, u64, Seq<Amount>)> {
    let by_id = payloads(sort_keyed(rows));
    payloads(sort_keyed(priced_keys(by_id))) + unpriced(by_id)
}

/// One `getPricesV3` cell: `(price, count, currency, saleAveragePrice, providers)`.
pub open spec fn v3_cell(c: JsonView) -> Result<(int, u64, Option<u32>, Option<int>, Seq<(u64, u64, Seq<Amount>)>), ErrorView> {
    let providers = match jget(c, "providers"@) {
        Some(JsonView::Object(pes)) => match provider_rows(pes) {
            Err(e) => Err(e),
            Ok(rows) => Ok(ordered_offers(rows)),
        },
        _ => Ok(Seq::empty()),
    };
    match providers {
        Err(e) => Err(e),
        Ok(ps) => match vamount(jget(c, "price"@)) {
            None => Err(ErrorView::Parse("getPricesV3 cell without price"@)),
            Some(price) => Ok(
                (
                    price,
                    match vu64(jget(c, "count"@)) {
                        Some(n) => n,
                        None => 0,
                    },
                    match vu64(jget(c, "currency"@)) {
                        Some(x) => Some((x % 0x1_0000_0000) as u32),
                        None => None,
                    },
                    vamount(jget(c, "saleAveragePrice"@)),
                    ps,
                ),
            ),
        },
    }
}

/// What a [`ProviderPrices`] denotes.
pub open spec fn v3_view(p: ProviderPrices) -> (int, u64, Option<u32>, Option<int>, Seq<(u64, u64, Seq<Amount>)>) {
    (p.price.units as int, p.count, p.currency, opt_units(p.sale_average_price), crate::error::seq_views(p.providers@))
}

/// A provider's prices (see [`offer_prices`]).
fn offer_prices_from_json(p: &Json) -> (r: Vec<Amount>)
    ensures
        r@ == offer_prices(p@),
{
    let mut keyed: Vec<(u128, Amount)> = Vec::new();
    match p.get("price") {
        Some(Json::Array(items)) => {
            proof {
                crate::json::lemma_array_view(*items);
            }
            let ghost iv = views(items@);
            let mut i: usize = 0;
            assert(iv.take(0) =~= Seq::<JsonView>::empty());
            while i < items.len()
                invariant
                    i <= items@.len(),
                    iv == views(items@),
                    keyed@ == amounts_in(iv.take(i as int)),
                decreases items.len() - i,
            {
                proof {
                    assert(iv.take(i + 1).drop_last() =~= iv.take(i as int));
                    assert(iv.take(i + 1).last() == items@[i as int]@);
                }
                let ghost before = keyed@;
                match value_to_amount(Some(&items[i])) {
                    Some(a) => {
                        keyed.push((amount_key_exec(a), a));
                        assert(keyed@ =~= before + seq![(amount_key(a), a)]);
                    },
                    None => {
                        assert(keyed@ =~= before + Seq::<(u128, Amount)>::empty());
                    },
                }
                i = i + 1;
            }
            assert(iv.take(i as int) =~= iv);
        },
        other => {
            match value_to_amount(other) {
                Some(a) => {
                    keyed.push((amount_key_exec(a), a));
                    assert(keyed@ =~= seq![(amount_key(a), a)]);
                },
                None => {
                    assert(keyed@ =~= Seq::<(u128, Amount)>::empty());
                },
            }
        },
    }
    strip_keys(sort_by_key(keyed))
}

proof fn lemma_provider_err_sticks(pes: Seq<(Seq<char>, JsonView)>, k: int, e: ErrorView)
    requires
        0 <= k <= pes.len(),
        provider_rows(pes.take(k)) == Err::<Seq<(u128, (u64, u64, Seq<Amount>))>, ErrorView>(e),
    ensures
        provider_rows(pes) == Err::<Seq<(u128, (u64, u64, Seq<Amount>))>, ErrorView>(e),
    decreases pes.len() - k,
{
    if k < pes.len() {
        assert(pes.take(k + 1).drop_last() =~= pes.take(k));
        lemma_provider_err_sticks(pes, k + 1, e);
    } else {
        assert(pes.take(k) =~= pes);
    }
}

proof fn lemma_offer_views(s: Seq<(u128, ProviderOffer)>)
    ensures
        crate::error::seq_views(payloads(s)) == payloads(kmap(s, |o: ProviderOffer| o@)),
{
    assert(crate::error::seq_views(payloads(s)) =~= payloads(kmap(s, |o: ProviderOffer| o@)));
}

/// The offers of a `providers` map, ordered (see [`ordered_offers`]).
fn provider_offers_from_json(pes: &Vec<(String, Json)>) -> (r: ApiResult<Vec<ProviderOffer>>)
    ensures
        match r {
            Ok(o) => provider_rows(member_views(pes@)) matches Ok(rows) && crate::error::seq_views(o@) == ordered_offers(rows),
            Err(e) => provider_rows(member_views(pes@)) == Err::<Seq<(u128, (u64, u64, Seq<Amount>))>, ErrorView>(e@),
        },
{
    let ghost f = |o: ProviderOffer| o@;
    let ghost vs = member_views(pes@);
    let mut rows: Vec<(u128, ProviderOffer)> = Vec::new();
    let mut i: usize = 0;
    assert(vs.take(0) =~= Seq::<(Seq<char>, JsonView)>::empty());
    assert(kmap(rows@, f) =~= Seq::<(u128, (u64, u64, Seq<Amount>))>::empty());
    while i < pes.len()
        invariant
            i <= pes@.len(),
            vs == member_views(pes@),
            forall|o: ProviderOffer| #[trigger] f(o) == o@,
            provider_rows(vs.take(i as int)) == Ok::<Seq<(u128, (u64, u64, Seq<Amount>))>, ErrorView>(kmap(rows@, f)),
        decreases pes.len() - i,
    {
        proof {
            assert(vs.take(i + 1).drop_last() =~= vs.take(i as int));
            assert(vs.take(i + 1).last() == vs[i as int]);
        }
        let key = &pes[i].0;
        let p = &pes[i].1;
        let id = match value_to_u64(p.get("provider_id")) {
            Some(n) => n,
            None => match parse_u64(&trim_str(key.as_str())) {
                Some(n) => n,
                None => {
                    let e = ApiError::Parse(bad_key_message("provider id", key.as_str()));
                    proof {
                        lemma_provider_err_sticks(vs, i + 1, e@);
                    }
                    return Err(e);
                },
            },
        };
        let count = match value_to_u64(p.get("count")) {
            Some(c) => c,
            None => 0,
        };
        let o = ProviderOffer { provider_id: id, count, prices: offer_prices_from_json(p) };
        let ghost before = rows@;
        let ghost ov = o@;
        rows.push((id as u128, o));
        assert(kmap(rows@, f) =~= kmap(before, f).push((id as u128, ov)));
        i = i + 1;
    }
    assert(vs.take(i as int) =~= vs);
    let ghost unsorted = rows@;
    let by_id = sort_by_key(rows);
    proof {
        lemma_kmap_sort(unsorted, f);
        lemma_offer_views(by_id@);
    }
    let offers = strip_keys(by_id);
    let ghost ids = crate::error::seq_views(offers@);
    let mut keyed: Vec<(u128, ProviderOffer)> = Vec::new();
    let mut bare: Vec<ProviderOffer> = Vec::new();
    let mut rest = offers;
    let ghost mut k: int = 0;
    assert(kmap(keyed@, f) =~= priced_keys(ids.take(0)));
    assert(crate::error::seq_views(bare@) =~= unpriced(ids.take(0)));
    while rest.len() > 0
        invariant
            0 <= k <= ids.len(),
            crate::error::seq_views(rest@) == ids.skip(k),
            forall|o: ProviderOffer| #[trigger] f(o) == o@,
            kmap(keyed@, f) == priced_keys(ids.take(k)),
            crate::error::seq_views(bare@) == unpriced(ids.take(k)),
        decreases rest.len(),
    {
        let ghost old_rest = rest@;
        assert(crate::error::seq_views(old_rest).len() == old_rest.len());
        assert(k < ids.len());
        assert(ids.skip(k)[0] == ids[k]);
        assert(crate::error::seq_views(old_rest)[0] == ids[k]);
        let o = rest.remove(0);
        proof {
            assert(crate::error::seq_views(rest@) =~= crate::error::seq_views(old_rest).drop_first());
            assert(crate::error::seq_views(rest@) =~= ids.skip(k + 1));
            assert(ids.take(k + 1).drop_last() =~= ids.take(k));
            assert(ids.take(k + 1).last() == ids[k]);
        }
        let ghost kb = keyed@;
        let ghost bb = bare@;
        let ghost ov = o@;
        if o.prices.len() > 0 {
            let key: u128 = amount_key_exec(o.prices[0]);
            keyed.push((key, o));
            assert(kmap(keyed@, f) =~= kmap(kb, f).push((amount_key(ov.2[0]), ov)));
        } else {
            bare.push(o);
            assert(crate::error::seq_views(bare@) =~= crate::error::seq_views(bb).push(ov));
        }
        proof {
            k = k + 1;
        }
    }
    assert(ids.take(k) =~= ids);
    let ghost unsorted2 = keyed@;
    let sorted = sort_by_key(keyed);
    proof {
        lemma_kmap_sort(unsorted2, f);
        lemma_offer_views(sorted@);
    }
    let mut out = strip_keys(sorted);
    let ghost head = out@;
    let ghost tail = bare@;
    out.append(&mut bare);
    assert(crate::error::seq_views(out@) =~= crate::error::seq_views(head) + crate::error::seq_views(tail));
    Ok(out)
}

fn v3_cell_from_json(c: &Json) -> (r: ApiResult<ProviderPrices>)
    ensures
        match r {
            Ok(p) => v3_cell(c@) == Ok::<(int, u64, Option<u32>, Option<int>, Seq<(u64, u64, Seq<Amount>)>), ErrorView>(v3_view(p)),
            Err(e) => v3_cell(c@) == Err::<(int, u64, Option<u32>, Option<int>, Seq<(u64, u64, Seq<Amount>)>), ErrorView>(e@),
        },
{
    let providers = match c.get("providers") {
        Some(Json::Object(pes)) => {
            proof {
                crate::json::lemma_object_view(*pes);
            }
            match provider_offers_from_json(pes) {
                Ok(o) => o,
                Err(e) => {
                    return Err(e);
                },
            }
        },
        _ => Vec::new(),
    };
    let price = match value_to_amount(c.get("price")) {
        Some(p) => p,
        None => {
            return Err(ApiError::Parse(owned("getPricesV3 cell without price")));
        },
    };
    let count = match value_to_u64(c.get("count")) {
        Some(n) => n,
        None => 0,
    };
    let currency = match value_to_u64(c.get("currency")) {
        Some(x) => Some((x % 0x1_0000_0000u64) as u32),
        None => None,
    };
    let r = ProviderPrices {
        price,
        count,
        currency,
        sale_average_price: value_to_amount(c.get("saleAveragePrice")),
        providers,
    };
    proof {
        if !(jget(c@, "providers"@) matches Some(JsonView::Object(_))) {
            assert(crate::error::seq_views(r.providers@) =~= Seq::<(u64, u64, Seq<Amount>)>::empty());
        }
    }
    Ok(r)
}

/// The v3 cells of one country row.
fn v3_row_from_json(ses: &Vec<(String, Json)>) -> (r: ApiResult<KeyMap<ServiceCode, ProviderPrices>>)
    ensures
        match r {
            Ok(row) => walk_rows(member_views(ses@), |c: JsonView| v3_cell(c)) == Ok::<Map<Seq<char>, (int, u64, Option<u32>, Option<int>, Seq<(u64, u64, Seq<Amount>)>)>, ErrorView>(
                row@.map_values(|p: ProviderPrices| v3_view(p)),
            ),
            Err(e) => walk_rows(member_views(ses@), |c: JsonView| v3_cell(c)) == Err::<Map<Seq<char>, (int, u64, Option<u32>, Option<int>, Seq<(u64, u64, Seq<Amount>)>)>, ErrorView>(e@),
        },
{
    let ghost cell = |c: JsonView| v3_cell(c);
    let ghost rvs = member_views(ses@);
    let mut row: KeyMap<ServiceCode, ProviderPrices> = KeyMap::new();
    let mut j: usize = 0;
    assert(rvs.take(0) =~= Seq::<(Seq<char>, JsonView)>::empty());
    assert(row@.map_values(|p: ProviderPrices| v3_view(p)) =~= Map::empty());
    while j < ses.len()
        invariant
            j <= ses@.len(),
            rvs == member_views(ses@),
            cell == (|c: JsonView| v3_cell(c)),
            walk_rows(rvs.take(j as int), cell) == Ok::<Map<Seq<char>, (int, u64, Option<u32>, Option<int>, Seq<(u64, u64, Seq<Amount>)>)>, ErrorView>(
                row@.map_values(|p: ProviderPrices| v3_view(p)),
            ),
        decreases ses.len() - j,
    {
        proof {
            assert(rvs.take(j + 1).drop_last() =~= rvs.take(j as int));
            assert(rvs.take(j + 1).last() == rvs[j as int]);
        }
        let p = match v3_cell_from_json(&ses[j].1) {
            Ok(p) => p,
            Err(e) => {
                proof {
                    lemma_walk_rows_err(rvs, cell, j + 1, e@);
                }
                return Err(e);
            },
        };
        let ghost before = row@;
        let ghost pv = v3_view(p);
        row.insert(ServiceCode(copy_string(&ses[j].0)), p);
        assert(row@.map_values(|p: ProviderPrices| v3_view(p)) =~= before.map_values(|p: ProviderPrices| v3_view(p)).insert(rvs[j as int].0, pv));
        j = j + 1;
    }
    assert(rvs.take(j as int) =~= rvs);
    Ok(row)
}

/// What a provider-price table denotes.
pub open spec fn v3_table_view(t: KeyMap<u32, KeyMap<ServiceCode, ProviderPrices>>) -> Map<u32, Map<Seq<char>, (int, u64, Option<u32>, Option<int>, Seq<(u64, u64, Seq<Amount>)>)>> {
    t@.map_values(|row: KeyMap<ServiceCode, ProviderPrices>| row@.map_values(|p: ProviderPrices| v3_view(p)))
}

/// The provider-price table of a decoded `getPricesV3` answer.
pub fn prices_v3_from_json(v: &Json) -> (r: ApiResult<KeyMap<u32, KeyMap<ServiceCode, ProviderPrices>>>)
    ensures
        match r {
            Ok(t) => walk(v@, "getPricesV3"@, |c: JsonView| v3_cell(c)) == Ok::<Map<u32, Map<Seq<char>, (int, u64, Option<u32>, Option<int>, Seq<(u64, u64, Seq<Amount>)>)>>, ErrorView>(v3_table_view(t)),
            Err(e) => walk(v@, "getPricesV3"@, |c: JsonView| v3_cell(c)) == Err::<Map<u32, Map<Seq<char>, (int, u64, Option<u32>, Option<int>, Seq<(u64, u64, Seq<Amount>)>)>>, ErrorView>(e@),
        },
{
    let ghost cell = |c: JsonView| v3_cell(c);
    let es = match as_object(v, "getPricesV3") {
        Ok(es) => es,
        Err(e) => {
            return Err(e);
        },
    };
    let ghost vs = member_views(es@);
    let mut table: KeyMap<u32, KeyMap<ServiceCode, ProviderPrices>> = KeyMap::new();
    let mut i: usize = 0;
    assert(vs.take(0) =~= Seq::<(Seq<char>, JsonView)>::empty());
    assert(v3_table_view(table) =~= Map::empty());
    while i < es.len()
        invariant
            i <= es@.len(),
            vs == member_views(es@),
            v@ == JsonView::Object(vs),
            cell == (|c: JsonView| v3_cell(c)),
            walk_table("getPricesV3"@, vs.take(i as int), cell) == Ok::<Map<u32, Map<Seq<char>, (int, u64, Option<u32>, Option<int>, Seq<(u64, u64, Seq<Amount>)>)>>, ErrorView>(v3_table_view(table)),
        decreases es.len() - i,
    {
        proof {
            assert(vs.take(i + 1).drop_last() =~= vs.take(i as int));
            assert(vs.take(i + 1).last() == vs[i as int]);
        }
        let country = &es[i].0;
        let id = match parse_u32(&trim_str(country.as_str())) {
            Some(id) => id,
            None => {
                let e = ApiError::Parse(bad_key_message("country key", country.as_str()));
                proof {
                    lemma_walk_table_err("getPricesV3"@, vs, cell, i + 1, e@);
                }
                return Err(e);
            },
        };
        let ses = match as_object(&es[i].1, "getPricesV3") {
            Ok(x) => x,
            Err(e) => {
                proof {
                    lemma_walk_table_err("getPricesV3"@, vs, cell, i + 1, e@);
                }
                return Err(e);
            },
        };
        let row = match v3_row_from_json(ses) {
            Ok(row) => row,
            Err(e) => {
                proof {
                    lemma_walk_table_err("getPricesV3"@, vs, cell, i + 1, e@);
                }
                return Err(e);
            },
        };
        let ghost before_t = table;
        let ghost row_v = row@.map_values(|p: ProviderPrices| v3_view(p));
        table.insert(id, row);
        assert(v3_table_view(table) =~= v3_table_view(before_t).insert(id, row_v));
        i = i + 1;
    }
    assert(vs.take(i as int) =~= vs);
    Ok(table)
}

/// `{"187":{"tg":{"price":0.25,"count":44432,"currency":840,"saleAveragePrice":0.199,"providers":{"14":{"count":22518,"price":[0.25],"provider_id":14},…}}}}`
pub fn parse_prices_v3(body: &str) -> (r: ApiResult<KeyMap<u32, KeyMap<ServiceCode, ProviderPrices>>>)
    ensures
        match json_of_text(trim(body@)) {
            None => r matches Err(e) && e@ is Parse,
            Some(v) => match r {
                Ok(t) => walk(v, "getPricesV3"@, |c: JsonView| v3_cell(c)) == Ok::<Map<u32, Map<Seq<char>, (int, u64, Option<u32>, Option<int>, Seq<(u64, u64, Seq<Amount>)>)>>, ErrorView>(v3_table_view(t)),
                Err(e) => walk(v, "getPricesV3"@, |c: JsonView| v3_cell(c)) == Err::<Map<u32, Map<Seq<char>, (int, u64, Option<u32>, Option<int>, Seq<(u64, u64, Seq<Amount>)>)>>, ErrorView>(e@),
            },
        },
{
    let t = text(&trim_str(body));
    match parse_json(t.as_str()) {
        Ok(v) => prices_v3_from_json(&v),
        Err(e) => Err(e),
    }
}

impl View for Offer {
    type V = (OfferPrices, OfferCounts, Seq<PriceBucket>);

    open spec fn view(&self) -> (OfferPrices, OfferCounts, Seq<PriceBucket>) {
        (self.prices, self.counts, self.map@)
    }
}

pub open spec fn no_default_price(service: Seq<char>, country: Seq<char>) -> Seq<char> {
    "getOffers "@ + service + "/"@ + country + " without default price"@
}

/// One `getOffers` cell keyed by its country id.
pub open spec fn offer_cell(service: Seq<char>, country: Seq<char>, c: JsonView) -> Result<(u32, (OfferPrices, OfferCounts, Seq<PriceBucket>)), ErrorView> {
    match parse_u32_spec(trim(country)) {
        None => Err(ErrorView::Parse(bad_key("country key"@, country))),
        Some(id) => {
            let prices = jget(c, "prices"@);
            let counts = jget(c, "counts"@);
            match vamount(oget(prices, "default"@)) {
                None => Err(ErrorView::Parse(no_default_price(service, country))),
                Some(d) => match tiger_price_map(jget(c, "map"@), None) {
                    Err(e) => Err(e),
                    Ok(map) => Ok(
                        (
                            id,
                            (
                                OfferPrices {
                                    default: Amount { units: d as i128 },
                                    avg: match vamount(oget(prices, "avg"@)) {
                                        Some(a) => Some(Amount { units: a as i128 }),
                                        None => None,
                                    },
                                    retail: match vamount(oget(prices, "retail"@)) {
                                        Some(a) => Some(Amount { units: a as i128 }),
                                        None => None,
                                    },
                                    min: match vamount(oget(prices, "min"@)) {
                                        Some(a) => Some(Amount { units: a as i128 }),
                                        None => None,
                                    },
                                },
                                OfferCounts {
                                    total: match vu64(oget(counts, "total"@)) {
                                        Some(n) => n,
                                        None => 0,
                                    },
                                    default_price: vu64(oget(counts, "defaultPrice"@)),
                                },
                                map,
                            ),
                        ),
                    ),
                },
            }
        },
    }
}

pub open spec fn offer_rows(service: Seq<char>, ces: Seq<(Seq<char>, JsonView)>) -> Result<Map<u32, (OfferPrices, OfferCounts, Seq<PriceBucket>)>, ErrorView>
    decreases ces.len(),
{
    if ces.len() == 0 {
        Ok(Map::empty())
    } else {
        match offer_rows(service, ces.drop_last()) {
            Err(e) => Err(e),
            Ok(m) => match offer_cell(service, ces.last().0, ces.last().1) {
                Err(e) => Err(e),
                Ok((id, o)) => Ok(m.insert(id, o)),
            },
        }
    }
}

pub open spec fn offers_table(es: Seq<(Seq<char>, JsonView)>) -> Result<Map<Seq<char>, Map<u32, (OfferPrices, OfferCounts, Seq<PriceBucket>)>>, ErrorView>
    decreases es.len(),
{
    if es.len() == 0 {
        Ok(Map::empty())
    } else {
        match offers_table(es.drop_last()) {
            Err(e) => Err(e),
            Ok(m) => match es.last().1 {
                JsonView::Object(ces) => match offer_rows(es.last().0, ces) {
                    Err(e) => Err(e),
                    Ok(row) => Ok(m.insert(es.last().0, row)),
                },
                _ => Err(ErrorView::Parse(crate::json::object_expected("getOffers service"@))),
            },
        }
    }
}

/// `{"data":{"tg":{"187":{"prices":{…},"counts":{…},"map":{…}}}}}` (or the inner map alone):
/// **service** → country → offer.
pub open spec fn offers_of(v: JsonView) -> Result<Map<Seq<char>, Map<u32, (OfferPrices, OfferCounts, Seq<PriceBucket>)>>, ErrorView> {
    let data = match jget(v, "data"@) {
        Some(d) => d,
        None => v,
    };
    match data {
        JsonView::Object(es) => offers_table(es),
        _ => Err(ErrorView::Parse(crate::json::object_expected("getOffers"@))),
    }
}

/// What an offer table denotes.
pub open spec fn offers_view(t: KeyMap<ServiceCode, KeyMap<u32, Offer>>) -> Map<Seq<char>, Map<u32, (OfferPrices, OfferCounts, Seq<PriceBucket>)>> {
    t@.map_values(|row: KeyMap<u32, Offer>| row@.map_values(|o: Offer| o@))
}

proof fn lemma_offer_rows_err(service: Seq<char>, ces: Seq<(Seq<char>, JsonView)>, k: int, e: ErrorView)
    requires
        0 <= k <= ces.len(),
        offer_rows(service, ces.take(k)) == Err::<Map<u32, (OfferPrices, OfferCounts, Seq<PriceBucket>)>, ErrorView>(e),
    ensures
        offer_rows(service, ces) == Err::<Map<u32, (OfferPrices, OfferCounts, Seq<PriceBucket>)>, ErrorView>(e),
    decreases ces.len() - k,
{
    if k < ces.len() {
        assert(ces.take(k + 1).drop_last() =~= ces.take(k));
        lemma_offer_rows_err(service, ces, k + 1, e);
    } else {
        assert(ces.take(k) =~= ces);
    }
}

proof fn lemma_offers_table_err(es: Seq<(Seq<char>, JsonView)>, k: int, e: ErrorView)
    requires
        0 <= k <= es.len(),
        offers_table(es.take(k)) == Err::<Map<Seq<char>, Map<u32, (OfferPrices, OfferCounts, Seq<PriceBucket>)>>, ErrorView>(e),
    ensures
        offers_table(es) == Err::<Map<Seq<char>, Map<u32, (OfferPrices, OfferCounts, Seq<PriceBucket>)>>, ErrorView>(e),
    decreases es.len() - k,
{
    if k < es.len() {
        assert(es.take(k + 1).drop_last() =~= es.take(k));
        lemma_offers_table_err(es, k + 1, e);
    } else {
        assert(es.take(k) =~= es);
    }
}

fn offer_cell_from_json(service: &String, country: &String, c: &Json) -> (r: ApiResult<(u32, Offer)>)
    ensures
        match r {
            Ok(p) => offer_cell(service@, country@, c@) == Ok::<(u32, (OfferPrices, OfferCounts, Seq<PriceBucket>)), ErrorView>((p.0, p.1@)),
            Err(e) => offer_cell(service@, country@, c@) == Err::<(u32, (OfferPrices, OfferCounts, Seq<PriceBucket>)), ErrorView>(e@),
        },
{
    let id = match parse_u32(&trim_str(country.as_str())) {
        Some(id) => id,
        None => {
            return Err(ApiError::Parse(bad_key_message("country key", country.as_str())));
        },
    };
    let prices = c.get("prices");
    let counts = c.get("counts");
    let default = match value_to_amount(crate::json::get_in(prices, "default")) {
        Some(d) => d,
        None => {
            let mut m = String::new();
            crate::text::push_str(&mut m, "getOffers ");
            crate::text::push_str(&mut m, service.as_str());
            crate::text::push_str(&mut m, "/");
            crate::text::push_str(&mut m, country.as_str());
            crate::text::push_str(&mut m, " without default price");
            return Err(ApiError::Parse(m));
        },
    };
    let map = match parse_price_map(c.get("map"), None) {
        Ok(m) => m,
        Err(e) => {
            return Err(e);
        },
    };
    let total = match value_to_u64(crate::json::get_in(counts, "total")) {
        Some(n) => n,
        None => 0,
    };
    Ok((
        id,
        Offer {
            prices: OfferPrices {
                default,
                avg: value_to_amount(crate::json::get_in(prices, "avg")),
                retail: value_to_amount(crate::json::get_in(prices, "retail")),
                min: value_to_amount(crate::json::get_in(prices, "min")),
            },
            counts: OfferCounts { total, default_price: value_to_u64(crate::json::get_in(counts, "defaultPrice")) },
            map,
        },
    ))
}

fn offer_row_from_json(service: &String, ces: &Vec<(String, Json)>) -> (r: ApiResult<KeyMap<u32, Offer>>)
    ensures
        match r {
            Ok(row) => offer_rows(service@, member_views(ces@)) == Ok::<Map<u32, (OfferPrices, OfferCounts, Seq<PriceBucket>)>, ErrorView>(row@.map_values(|o: Offer| o@)),
            Err(e) => offer_rows(service@, member_views(ces@)) == Err::<Map<u32, (OfferPrices, OfferCounts, Seq<PriceBucket>)>, ErrorView>(e@),
        },
{
    let ghost rvs = member_views(ces@);
    let mut row: KeyMap<u32, Offer> = KeyMap::new();
    let mut j: usize = 0;
    assert(rvs.take(0) =~= Seq::<(Seq<char>, JsonView)>::empty());
    assert(row@.map_values(|o: Offer| o@) =~= Map::empty());
    while j < ces.len()
        invariant
            j <= ces@.len(),
            rvs == member_views(ces@),
            offer_rows(service@, rvs.take(j as int)) == Ok::<Map<u32, (OfferPrices, OfferCounts, Seq<PriceBucket>)>, ErrorView>(row@.map_values(|o: Offer| o@)),
        decreases ces.len() - j,
    {
        proof {
            assert(rvs.take(j + 1).drop_last() =~= rvs.take(j as int));
            assert(rvs.take(j + 1).last() == rvs[j as int]);
        }
        let (id, o) = match offer_cell_from_json(service, &ces[j].0, &ces[j].1) {
            Ok(p) => p,
            Err(e) => {
                proof {
                    lemma_offer_rows_err(service@, rvs, j + 1, e@);
                }
                return Err(e);
            },
        };
        let ghost before = row@;
        let ghost ov = o@;
        row.insert(id, o);
        assert(row@.map_values(|o: Offer| o@) =~= before.map_values(|o: Offer| o@).insert(id, ov));
        j = j + 1;
    }
    assert(rvs.take(j as int) =~= rvs);
    Ok(row)
}

/// The offer table of a decoded `getOffers` answer (see [`offers_of`]).
pub fn offers_from_json(v: &Json) -> (r: ApiResult<KeyMap<ServiceCode, KeyMap<u32, Offer>>>)
    ensures
        match r {
            Ok(t) => offers_of(v@) == Ok::<Map<Seq<char>, Map<u32, (OfferPrices, OfferCounts, Seq<PriceBucket>)>>, ErrorView>(offers_view(t)),
            Err(e) => offers_of(v@) == Err::<Map<Seq<char>, Map<u32, (OfferPrices, OfferCounts, Seq<PriceBucket>)>>, ErrorView>(e@),
        },
{
    let data = match v.get("data") {
        Some(d) => d,
        None => v,
    };
    let es = match as_object(data, "getOffers") {
        Ok(es) => es,
        Err(e) => {
            return Err(e);
        },
    };
    let ghost vs = member_views(es@);
    let mut table: KeyMap<ServiceCode, KeyMap<u32, Offer>> = KeyMap::new();
    let mut i: usize = 0;
    assert(vs.take(0) =~= Seq::<(Seq<char>, JsonView)>::empty());
    assert(offers_view(table) =~= Map::empty());
    while i < es.len()
        invariant
            i <= es@.len(),
            vs == member_views(es@),
            offers_of(v@) == offers_table(vs),
            offers_table(vs.take(i as int)) == Ok::<Map<Seq<char>, Map<u32, (OfferPrices, OfferCounts, Seq<PriceBucket>)>>, ErrorView>(offers_view(table)),
        decreases es.len() - i,
    {
        proof {
            assert(vs.take(i + 1).drop_last() =~= vs.take(i as int));
            assert(vs.take(i + 1).last() == vs[i as int]);
        }
        let ces = match as_object(&es[i].1, "getOffers service") {
            Ok(x) => x,
            Err(e) => {
                proof {
                    lemma_offers_table_err(vs, i + 1, e@);
                }
                return Err(e);
            },
        };
        let row = match offer_row_from_json(&es[i].0, ces) {
            Ok(row) => row,
            Err(e) => {
                proof {
                    lemma_offers_table_err(vs, i + 1, e@);
                }
                return Err(e);
            },
        };
        let ghost before_t = table;
        let ghost row_v = row@.map_values(|o: Offer| o@);
        table.insert(ServiceCode(copy_string(&es[i].0)), row);
        assert(offers_view(table) =~= offers_view(before_t).insert(vs[i as int].0, row_v));
        i = i + 1;
    }
    assert(vs.take(i as int) =~= vs);
    Ok(table)
}

/// `{"data":{"tg":{"187":{"prices":{"default":0.25,"avg":0.199,"retail":0.25,"min":0.25},"counts":{"total":44432,"defaultPrice":22518},"map":{"0.2500":22518,…}}}}}`
pub fn parse_offers(body: &str) -> (r: ApiResult<KeyMap<ServiceCode, KeyMap<u32, Offer>>>)
    ensures
        match json_of_text(trim(body@)) {
            None => r matches Err(e) && e@ is Parse,
            Some(v) => match r {
                Ok(t) => offers_of(v) == Ok::<Map<Seq<char>, Map<u32, (OfferPrices, OfferCounts, Seq<PriceBucket>)>>, ErrorView>(offers_view(t)),
                Err(e) => offers_of(v) == Err::<Map<Seq<char>, Map<u32, (OfferPrices, OfferCounts, Seq<PriceBucket>)>>, ErrorView>(e@),
            },
        },
{
    let t = text(&trim_str(body));
    match parse_json(t.as_str()) {
        Ok(v) => offers_from_json(&v),
        Err(e) => Err(e),
    }
}

/// Index of the last `c` in `s`.
pub open spec fn rfind_char(s: Seq<char>, c: char) -> Option<int>
    decreases s.len(),
{
    if s.len() == 0 {
        None
    } else if s.last() == c {
        Some(s.len() - 1)
    } else {
        rfind_char(s.drop_last(), c)
    }
}

proof fn lemma_rfind(s: Seq<char>, c: char, i: int)
    requires
        -1 <= i < s.len(),
        forall|j: int| i < j < s.len() ==> s[j] != c,
        i >= 0 ==> s[i] == c,
    ensures
        rfind_char(s, c) == if i >= 0 { Some(i) } else { None::<int> },
    decreases s.len(),
{
    if s.len() > 0 && i < s.len() - 1 {
        assert forall|j: int| i < j < s.drop_last().len() implies s.drop_last()[j] != c by {
            assert(s.drop_last()[j] == s[j]);
        }
        if i >= 0 {
            assert(s.drop_last()[i] == s[i]);
        }
        lemma_rfind(s.drop_last(), c, i);
    }
}

/// The JSON array inside a `getProviders` answer: from the first `[` to the last `]`.
pub open spec fn providers_json(t: Seq<char>) -> Option<Seq<char>> {
    match (crate::text::find_char(t, '['), rfind_char(t, ']')) {
        (Some(a), Some(b)) => if a < b { Some(t.subrange(a, b + 1)) } else { None },
        _ => None,
    }
}

/// What a [`Provider`] denotes.
pub open spec fn provider_view(p: Provider) -> (u64, Seq<char>, u64, Option<int>, Option<u64>) {
    (p.id, p.name@, p.numbers_count, opt_units(p.delivery_percent), p.number_lifetime)
}

impl View for Provider {
    type V = (u64, Seq<char>, u64, Option<int>, Option<u64>);

    open spec fn view(&self) -> (u64, Seq<char>, u64, Option<int>, Option<u64>) {
        provider_view(*self)
    }
}

/// One `getProviders` row; an id is required, the name defaults to `Provider<id>`.
pub open spec fn provider_row(r: JsonView) -> Option<(u64, Seq<char>, u64, Option<int>, Option<u64>)> {
    match vu64(jget(r, "id"@)) {
        None => None,
        Some(id) => Some(
            (
                id,
                match vstring(jget(r, "name"@)) {
                    Some(n) => n,
                    None => "Provider"@ + crate::num::dec(id as nat),
                },
                match vu64(jget(r, "numbers_count"@)) {
                    Some(n) => n,
                    None => 0,
                },
                vamount(jget(r, "delivery_percent"@)),
                vu64(jget(r, "number_lifetime"@)),
            ),
        ),
    }
}

pub open spec fn provider_list(items: Seq<JsonView>) -> Result<Seq<(u64, Seq<char>, u64, Option<int>, Option<u64>)>, ErrorView>
    decreases items.len(),
{
    if items.len() == 0 {
        Ok(Seq::empty())
    } else {
        match provider_list(items.drop_last()) {
            Err(e) => Err(e),
            Ok(r) => match provider_row(items.last()) {
                Some(x) => Ok(r.push(x)),
                None => Err(ErrorView::Parse("provider without id"@)),
            },
        }
    }
}

proof fn lemma_provider_list_err(items: Seq<JsonView>, k: int, e: ErrorView)
    requires
        0 <= k <= items.len(),
        provider_list(items.take(k)) == Err::<Seq<(u64, Seq<char>, u64, Option<int>, Option<u64>)>, ErrorView>(e),
    ensures
        provider_list(items) == Err::<Seq<(u64, Seq<char>, u64, Option<int>, Option<u64>)>, ErrorView>(e),
    decreases items.len() - k,
{
    if k < items.len() {
        assert(items.take(k + 1).drop_last() =~= items.take(k));
        lemma_provider_list_err(items, k + 1, e);
    } else {
        assert(items.take(k) =~= items);
    }
}

/// `<html><head>…</head><body>[{"id":14,"name":"Provider14","numbers_count":22518,"delivery_percent":8.95,"number_lifetime":20},…]</body></html>`
/// (a bare JSON array is accepted too).
pub fn parse_providers(body: &str) -> (r: ApiResult<Vec<Provider>>)
    ensures
        match providers_json(trim(body@)) {
            None => r matches Err(e) && e@ == ErrorView::Unexpected(trim(body@)),
            Some(j) => match json_of_text(j) {
                Some(JsonView::Array(items)) => crate::error::list_res(r) == provider_list(items),
                _ => r matches Err(e) && e@ is Parse,
            },
        },
{
    let t = trim_str(body);
    let start = crate::text::find(&t, '[');
    let mut k: usize = t.len();
    while k > 0 && t[k - 1] != ']'
        invariant
            k <= t@.len(),
            forall|j: int| k <= j < t@.len() ==> t@[j] != ']',
        decreases k,
    {
        k = k - 1;
    }
    proof {
        lemma_rfind(t@, ']', k - 1);
    }
    let json = match start {
        Some(a) => if k > 0 && a < k - 1 {
            crate::text::slice_vec(&t, a, k)
        } else {
            return Err(ApiError::Unexpected(text(&t)));
        },
        None => {
            return Err(ApiError::Unexpected(text(&t)));
        },
    };
    let js = text(&json);
    let v = match parse_json(js.as_str()) {
        Ok(v) => v,
        Err(e) => {
            return Err(e);
        },
    };
    let items = match v.as_array() {
        Some(a) => a,
        None => {
            return Err(ApiError::Parse(owned("expected a JSON array of providers")));
        },
    };
    let ghost iv = views(items@);
    let mut out: Vec<Provider> = Vec::new();
    let mut i: usize = 0;
    assert(iv.take(0) =~= Seq::<JsonView>::empty());
    assert(crate::error::seq_views(out@) =~= Seq::<(u64, Seq<char>, u64, Option<int>, Option<u64>)>::empty());
    while i < items.len()
        invariant
            i <= items@.len(),
            iv == views(items@),
            providers_json(trim(body@)) == Some(js@),
            json_of_text(js@) == Some(JsonView::Array(iv)),
            provider_list(iv.take(i as int)) == Ok::<Seq<(u64, Seq<char>, u64, Option<int>, Option<u64>)>, ErrorView>(crate::error::seq_views(out@)),
        decreases items.len() - i,
    {
        proof {
            assert(iv.take(i + 1).drop_last() =~= iv.take(i as int));
            assert(iv.take(i + 1).last() == items@[i as int]@);
        }
        let r = &items[i];
        let id = match value_to_u64(r.get("id")) {
            Some(id) => id,
            None => {
                let e = ApiError::Parse(owned("provider without id"));
                proof {
                    lemma_provider_list_err(iv, i + 1, e@);
                }
                return Err(e);
            },
        };
        let name = match value_to_string(r.get("name")) {
            Some(n) => n,
            None => {
                let mut m = String::new();
                crate::text::push_str(&mut m, "Provider");
                crate::text::push_str(&mut m, crate::num::u64_to_string(id).as_str());
                m
            },
        };
        let count = match value_to_u64(r.get("numbers_count")) {
            Some(n) => n,
            None => 0,
        };
        let p = Provider {
            id,
            name,
            numbers_count: count,
            delivery_percent: value_to_amount(r.get("delivery_percent")),
            number_lifetime: value_to_u64(r.get("number_lifetime")),
        };
        let ghost before = out@;
        let ghost pv = p@;
        out.push(p);
        assert(crate::error::seq_views(out@) =~= crate::error::seq_views(before).push(pv));
        i = i + 1;
    }
    assert(iv.take(i as int) =~= iv);
    Ok(out)
}

/// `[{"countryCode":187,"numbersCount":44432},…]` — `countryCode` may be a string; a later row
/// for the same country replaces an earlier one.
pub open spec fn numbers_count_rows(items: Seq<JsonView>) -> Result<Map<u32, u64>, ErrorView>
    decreases items.len(),
{
    if items.len() == 0 {
        Ok(Map::empty())
    } else {
        match numbers_count_rows(items.drop_last()) {
            Err(e) => Err(e),
            Ok(m) => match vu64(jget(items.last(), "countryCode"@)) {
                None => Err(ErrorView::Parse("row without countryCode"@)),
                Some(c) => Ok(
                    m.insert(
                        (c % 0x1_0000_0000) as u32,
                        match vu64(jget(items.last(), "numbersCount"@)) {
                            Some(n) => n,
                            None => 0,
                        },
                    ),
                ),
            },
        }
    }
}

proof fn lemma_numbers_count_err(items: Seq<JsonView>, k: int, e: ErrorView)
    requires
        0 <= k <= items.len(),
        numbers_count_rows(items.take(k)) == Err::<Map<u32, u64>, ErrorView>(e),
    ensures
        numbers_count_rows(items) == Err::<Map<u32, u64>, ErrorView>(e),
    decreases items.len() - k,
{
    if k < items.len() {
        assert(items.take(k + 1).drop_last() =~= items.take(k));
        lemma_numbers_count_err(items, k + 1, e);
    } else {
        assert(items.take(k) =~= items);
    }
}

/// `[{"countryCode":187,"numbersCount":44432},…]`
pub fn parse_service_numbers_count(body: &str) -> (r: ApiResult<KeyMap<u32, u64>>)
    ensures
        match json_of_text(trim(body@)) {
            None => r matches Err(e) && e@ is Parse,
            Some(JsonView::Array(items)) => match r {
                Ok(m) => numbers_count_rows(items) == Ok::<Map<u32, u64>, ErrorView>(m@),
                Err(e) => numbers_count_rows(items) == Err::<Map<u32, u64>, ErrorView>(e@),
            },
            Some(_) => r matches Err(e) && e@ == ErrorView::Unexpected(trim(body@)),
        },
{
    let t = text(&trim_str(body));
    let v = match parse_json(t.as_str()) {
        Ok(v) => v,
        Err(e) => {
            return Err(e);
        },
    };
    let items = match v.as_array() {
        Some(a) => a,
        None => {
            return Err(ApiError::Unexpected(t));
        },
    };
    let ghost iv = views(items@);
    let mut out: KeyMap<u32, u64> = KeyMap::new();
    let mut i: usize = 0;
    assert(iv.take(0) =~= Seq::<JsonView>::empty());
    while i < items.len()
        invariant
            i <= items@.len(),
            iv == views(items@),
            json_of_text(trim(body@)) == Some(JsonView::Array(iv)),
            numbers_count_rows(iv.take(i as int)) == Ok::<Map<u32, u64>, ErrorView>(out@),
        decreases items.len() - i,
    {
        proof {
            assert(iv.take(i + 1).drop_last() =~= iv.take(i as int));
            assert(iv.take(i + 1).last() == items@[i as int]@);
        }
        let r = &items[i];
        let c = match value_to_u64(r.get("countryCode")) {
            Some(c) => c,
            None => {
                let e = ApiError::Parse(owned("row without countryCode"));
                proof {
                    lemma_numbers_count_err(iv, i + 1, e@);
                }
                return Err(e);
            },
        };
        let n = match value_to_u64(r.get("numbersCount")) {
            Some(n) => n,
            None => 0,
        };
        out.insert((c % 0x1_0000_0000u64) as u32, n);
        i = i + 1;
    }
    assert(iv.take(i as int) =~= iv);
    Ok(out)
}

/// `a <= b` in code-point order (which for UTF-8 is `str`'s byte order).
pub open spec fn lex_le(a: Seq<char>, b: Seq<char>) -> bool
    decreases a.len(),
{
    if a.len() == 0 {
        true
    } else if b.len() == 0 {
        false
    } else if a[0] != b[0] {
        a[0] < b[0]
    } else {
        lex_le(a.drop_first(), b.drop_first())
    }
}

/// Whether `a` may come before `b`: more stock first, then the cheaper, then by country text.
pub open spec fn row_le(a: TopCountryView, b: TopCountryView) -> bool {
    a.count > b.count || (a.count == b.count && (a.price < b.price || (a.price == b.price && lex_le(
        country_text(a.country),
        country_text(b.country),
    ))))
}

/// `s` with `x` inserted after the last row that may come before it.
pub open spec fn insert_row(s: Seq<TopCountryView>, x: TopCountryView) -> Seq<TopCountryView>
    decreases s.len(),
{
    if s.len() == 0 {
        seq![x]
    } else if row_le(s.last(), x) {
        s.push(x)
    } else {
        insert_row(s.drop_last(), x).push(s.last())
    }
}

/// Stable insertion sort by [`row_le`].
pub open spec fn sort_rows(s: Seq<TopCountryView>) -> Seq<TopCountryView>
    decreases s.len(),
{
    if s.len() == 0 {
        s
    } else {
        insert_row(sort_rows(s.drop_last()), s.last())
    }
}

/// The rows of a price table for one service: every country that prices it.
pub open spec fn table_rows(entries: Seq<(CountryRef, KeyMap<ServiceCode, Price>)>, service: Seq<char>) -> Seq<TopCountryView>
    decreases entries.len(),
{
    if entries.len() == 0 {
        Seq::empty()
    } else {
        let (c, row) = entries.last();
        table_rows(entries.drop_last(), service) + if row@.contains_key(service) {
            seq![
                TopCountryView {
                    country: c@,
                    price: row@[service].cost.units as int,
                    retail_price: None,
                    count: row@[service].count,
                    provider_id: None,
                },
            ]
        } else {
            Seq::empty()
        }
    }
}

pub(crate) fn lex_le_exec(a: &[char], b: &[char]) -> (r: bool)
    ensures
        r == lex_le(a@, b@),
{
    let mut i: usize = 0;
    assert(a@.skip(0) =~= a@);
    assert(b@.skip(0) =~= b@);
    while i < a.len() && i < b.len() && a[i] == b[i]
        invariant
            i <= a@.len(),
            i <= b@.len(),
            lex_le(a@.skip(i as int), b@.skip(i as int)) == lex_le(a@, b@),
        decreases a.len() - i,
    {
        proof {
            assert(a@.skip(i as int).drop_first() =~= a@.skip(i + 1));
            assert(b@.skip(i as int).drop_first() =~= b@.skip(i + 1));
        }
        i = i + 1;
    }
    if i == a.len() {
        true
    } else if i == b.len() {
        false
    } else {
        a[i] < b[i]
    }
}

fn row_le_exec(a: &TopCountry, b: &TopCountry) -> (r: bool)
    ensures
        r == row_le(a@, b@),
{
    if a.count > b.count {
        return true;
    }
    if a.count < b.count {
        return false;
    }
    if a.price.units < b.price.units {
        return true;
    }
    if a.price.units > b.price.units {
        return false;
    }
    let ta = chars_of(a.country.to_string().as_str());
    let tb = chars_of(b.country.to_string().as_str());
    lex_le_exec(&ta, &tb)
}

proof fn lemma_insert_row_at(s: Seq<TopCountryView>, x: TopCountryView, k: int)
    requires
        0 <= k <= s.len(),
        forall|j: int| k <= j < s.len() ==> !row_le(#[trigger] s[j], x),
        k == 0 || row_le(s[k - 1], x),
    ensures
        insert_row(s, x) == s.insert(k, x),
    decreases s.len(),
{
    if s.len() == 0 {
        assert(s.insert(k, x) =~= seq![x]);
    } else if row_le(s.last(), x) {
        assert(k == s.len());
        assert(s.insert(k, x) =~= s.push(x));
    } else {
        assert forall|j: int| k <= j < s.drop_last().len() implies !row_le(#[trigger] s.drop_last()[j], x) by {
            assert(s.drop_last()[j] == s[j]);
        }
        if k > 0 {
            assert(s.drop_last()[k - 1] == s[k - 1]);
        }
        lemma_insert_row_at(s.drop_last(), x, k);
        assert(s.drop_last().insert(k, x).push(s.last()) =~= s.insert(k, x));
    }
}

/// Reshapes a `getPrices&service=…` table into top-countries rows, most stock first (then
/// the cheaper, then by country text); `retail_price` and `provider_id` are always `None`.
pub fn top_countries_from_price_table(table: &PriceTable, service: &ServiceCode) -> (r: Vec<TopCountry>)
    ensures
        crate::error::seq_views(r@) == sort_rows(table_rows(table.seq(), service@)),
{
    let entries = table.entries();
    let ghost all = table_rows(entries@, service@);
    let mut out: Vec<TopCountry> = Vec::new();
    let mut i: usize = 0;
    assert(entries@.take(0) =~= Seq::<(CountryRef, KeyMap<ServiceCode, Price>)>::empty());
    assert(crate::error::seq_views(out@) =~= Seq::<TopCountryView>::empty());
    while i < entries.len()
        invariant
            i <= entries@.len(),
            crate::error::seq_views(out@) == sort_rows(table_rows(entries@.take(i as int), service@)),
        decreases entries.len() - i,
    {
        proof {
            assert(entries@.take(i + 1).drop_last() =~= entries@.take(i as int));
            assert(entries@.take(i + 1).last() == entries@[i as int]);
        }
        let ghost prefix = table_rows(entries@.take(i as int), service@);
        match entries[i].1.get(service) {
            Some(p) => {
                let row = TopCountry {
                    country: entries[i].0.clone(),
                    price: p.cost,
                    retail_price: None,
                    count: p.count,
                    provider_id: None,
                };
                let ghost x = row@;
                proof {
                    assert(table_rows(entries@.take(i + 1), service@) =~= prefix.push(x));
                    assert(prefix.push(x).drop_last() =~= prefix);
                }
                let mut k = out.len();
                while k > 0 && !row_le_exec(&out[k - 1], &row)
                    invariant
                        k <= out@.len(),
                        forall|j: int| k <= j < out@.len() ==> !row_le(#[trigger] crate::error::seq_views(out@)[j], x),
                        x == row@,
                    decreases k,
                {
                    k = k - 1;
                }
                let ghost before = crate::error::seq_views(out@);
                proof {
                    if k > 0 {
                        assert(before[k - 1] == out@[k - 1]@);
                    }
                    lemma_insert_row_at(before, x, k as int);
                }
                out.insert(k, row);
                assert(crate::error::seq_views(out@) =~= before.insert(k as int, x));
            },
            None => {
                proof {
                    assert(table_rows(entries@.take(i + 1), service@) =~= prefix);
                }
            },
        }
        i = i + 1;
    }
    assert(entries@.take(i as int) =~= entries@);
    out
}

/// The `service` / `country` query parameters of the price actions, those that are set.
pub open spec fn price_query(service: Option<Seq<char>>, country: Option<u32>) -> Seq<(Seq<char>, Seq<char>)> {
    (match service {
        Some(s) => seq![("service"@, s)],
        None => Seq::empty(),
    }) + (match country {
        Some(c) => seq![("country"@, crate::num::dec(c as nat))],
        None => Seq::empty(),
    })
}

/// The query parameters of the price actions (see [`price_query`]).
pub fn price_params(service: Option<&ServiceCode>, country: Option<CountryId>) -> (r: Vec<(String, String)>)
    ensures
        pairs_view(r@) == price_query(
            match service {
                Some(s) => Some(s@),
                None => None,
            },
            country,
        ),
{
    let mut params: Vec<(String, String)> = Vec::new();
    if let Some(s) = service {
        params.push((owned("service"), copy_string(&s.0)));
    }
    let ghost mid = pairs_view(params@);
    if let Some(c) = country {
        params.push((owned("country"), crate::num::u64_to_string(c as u64)));
    }
    assert(pairs_view(params@) =~= price_query(
        match service {
            Some(s) => Some(s@),
            None => None,
        },
        country,
    ));
    params
}

/// The filters of `getOffers`: the services and the country ids, each comma-separated and left
/// out when its list is empty.
pub open spec fn offers_query(services: Seq<Seq<char>>, countries: Seq<u32>) -> Seq<(Seq<char>, Seq<char>)> {
    (if services.len() > 0 {
        seq![("services"@, joined(services, ','))]
    } else {
        Seq::empty()
    }) + (if countries.len() > 0 {
        seq![("countries"@, joined(countries.map_values(|c: u32| crate::num::dec(c as nat)), ','))]
    } else {
        Seq::empty()
    })
}

/// The query parameters of `getOffers` (see [`offers_query`]).
pub fn offers_params(services: &[ServiceCode], countries: &[CountryId]) -> (r: Vec<(String, String)>)
    ensures
        pairs_view(r@) == offers_query(crate::error::seq_views(services@), countries@),
{
    let mut params: Vec<(String, String)> = Vec::new();
    let ghost sv = crate::error::seq_views(services@);
    let ghost first: Seq<(Seq<char>, Seq<char>)> = if services@.len() > 0 {
        seq![("services"@, joined(sv, ','))]
    } else {
        Seq::empty()
    };
    if services.len() > 0 {
        let mut names: Vec<String> = Vec::new();
        let mut i: usize = 0;
        while i < services.len()
            invariant
                i <= services@.len(),
                crate::error::seq_views(names@) == sv.take(i as int),
                sv == crate::error::seq_views(services@),
            decreases services.len() - i,
        {
            let n = copy_string(&services[i].0);
            assert(n@ == sv[i as int]);
            let ghost before = names@;
            names.push(n);
            assert(names@ == before.push(n));
            assert(crate::error::seq_views(names@) =~= crate::error::seq_views(before).push(n@));
            assert(sv.take(i + 1) =~= sv.take(i as int).push(sv[i as int]));
            i = i + 1;
        }
        assert(sv.take(i as int) =~= sv);
        params.push((owned("services"), crate::providers::hero_sms::join_with(&names, ',')));
    }
    assert(pairs_view(params@) =~= first);
    if countries.len() > 0 {
        let mut ids: Vec<u64> = Vec::new();
        let mut i: usize = 0;
        while i < countries.len()
            invariant
                i <= countries@.len(),
                ids@ == countries@.take(i as int).map_values(|c: u32| c as u64),
            decreases countries.len() - i,
        {
            ids.push(countries[i] as u64);
            i = i + 1;
            assert(ids@ =~= countries@.take(i as int).map_values(|c: u32| c as u64));
        }
        assert(countries@.take(i as int) =~= countries@);
        assert(id_texts(ids@) =~= countries@.map_values(|c: u32| crate::num::dec(c as nat)));
        params.push((owned("countries"), join_csv(ids.as_slice())));
    }
    assert(pairs_view(params@) =~= offers_query(sv, countries@));
    params
}

/// What [`Client::get_balance_json`] makes of the answer `ans`.
pub open spec fn balance_json_read(ans: Seq<char>, r: ApiResult<BalanceInfo>) -> bool {
    match json_of_text(trim(ans)) {
        None => r matches Err(e) && e@ is Parse,
        Some(v) => match r {
            Ok(b) => balance_info_of(v, trim(ans)) == Ok::<BalanceInfo, ErrorView>(b),
            Err(e) => balance_info_of(v, trim(ans)) == Err::<BalanceInfo, ErrorView>(e@),
        },
    }
}

/// What [`Client::get_free_prices`] makes of the answer `ans`.
pub open spec fn free_prices_read(ans: Seq<char>, r: ApiResult<KeyMap<u32, KeyMap<ServiceCode, PriceLadder>>>) -> bool {
    match json_of_text(trim(ans)) {
        None => r matches Err(e) && e@ is Parse,
        Some(v) => match r {
            Ok(t) => walk(v, "getFreePrices"@, |c: JsonView| ladder_cell(c)) == Ok::<Map<u32, Map<Seq<char>, (Seq<PriceBucket>, Option<int>)>>, ErrorView>(free_table_view(t)),
            Err(e) => walk(v, "getFreePrices"@, |c: JsonView| ladder_cell(c)) == Err::<Map<u32, Map<Seq<char>, (Seq<PriceBucket>, Option<int>)>>, ErrorView>(e@),
        },
    }
}

/// What [`Client::get_prices_v2`] makes of the answer `ans`.
pub open spec fn prices_v2_read(ans: Seq<char>, r: ApiResult<KeyMap<u32, KeyMap<ServiceCode, PriceLadder>>>) -> bool {
    match json_of_text(trim(ans)) {
        None => r matches Err(e) && e@ is Parse,
        Some(v) => match r {
            Ok(t) => walk(v, "getFreePrices"@, |c: JsonView| ladder_cell(c)) == Ok::<Map<u32, Map<Seq<char>, (Seq<PriceBucket>, Option<int>)>>, ErrorView>(free_table_view(t)),
            Err(e) => walk(v, "getFreePrices"@, |c: JsonView| ladder_cell(c)) == Err::<Map<u32, Map<Seq<char>, (Seq<PriceBucket>, Option<int>)>>, ErrorView>(e@),
        },
    }
}

/// What [`Client::get_prices_v3`] makes of the answer `ans`.
pub open spec fn prices_v3_read(ans: Seq<char>, r: ApiResult<KeyMap<u32, KeyMap<ServiceCode, ProviderPrices>>>) -> bool {
    match json_of_text(trim(ans)) {
        None => r matches Err(e) && e@ is Parse,
        Some(v) => match r {
            Ok(t) => walk(v, "getPricesV3"@, |c: JsonView| v3_cell(c)) == Ok::<Map<u32, Map<Seq<char>, (int, u64, Option<u32>, Option<int>, Seq<(u64, u64, Seq<Amount>)>)>>, ErrorView>(v3_table_view(t)),
            Err(e) => walk(v, "getPricesV3"@, |c: JsonView| v3_cell(c)) == Err::<Map<u32, Map<Seq<char>, (int, u64, Option<u32>, Option<int>, Seq<(u64, u64, Seq<Amount>)>)>>, ErrorView>(e@),
        },
    }
}

/// What [`Client::get_offers`] makes of the answer `ans`.
pub open spec fn offers_read(ans: Seq<char>, r: ApiResult<KeyMap<ServiceCode, KeyMap<u32, Offer>>>) -> bool {
    match json_of_text(trim(ans)) {
        None => r matches Err(e) && e@ is Parse,
        Some(v) => match r {
            Ok(t) => offers_of(v) == Ok::<Map<Seq<char>, Map<u32, (OfferPrices, OfferCounts, Seq<PriceBucket>)>>, ErrorView>(offers_view(t)),
            Err(e) => offers_of(v) == Err::<Map<Seq<char>, Map<u32, (OfferPrices, OfferCounts, Seq<PriceBucket>)>>, ErrorView>(e@),
        },
    }
}

/// What [`Client::get_providers`] makes of the answer `ans`.
pub open spec fn providers_read(ans: Seq<char>, r: ApiResult<Vec<Provider>>) -> bool {
    match providers_json(trim(ans)) {
        None => r matches Err(e) && e@ == ErrorView::Unexpected(trim(ans)),
        Some(j) => match json_of_text(j) {
            Some(JsonView::Array(items)) => crate::error::list_res(r) == provider_list(items),
            _ => r matches Err(e) && e@ is Parse,
        },
    }
}

/// What [`Client::get_service_numbers_count`] makes of the answer `ans`.
pub open spec fn service_numbers_count_read(ans: Seq<char>, r: ApiResult<KeyMap<u32, u64>>) -> bool {
    match json_of_text(trim(ans)) {
        None => r matches Err(e) && e@ is Parse,
        Some(JsonView::Array(items)) => match r {
            Ok(m) => numbers_count_rows(items) == Ok::<Map<u32, u64>, ErrorView>(m@),
            Err(e) => numbers_count_rows(items) == Err::<Map<u32, u64>, ErrorView>(e@),
        },
        Some(_) => r matches Err(e) && e@ == ErrorView::Unexpected(trim(ans)),
    }
}

/// What [`Client::get_services_for`] makes of the answer `ans`.
pub open spec fn services_for_read(ans: Seq<char>, r: ApiResult<Vec<crate::types::Service>>) -> bool {
    match json_of_text(trim(ans)) {
        None => r matches Err(e) && e@ is Parse,
        Some(v) => match r {
            Ok(l) => crate::protocol::services_of(v) == Some(crate::error::seq_views(l@)),
            Err(e) => crate::protocol::services_of(v) is None && e@ is Parse,
        },
    }
}

/// What [`Client::get_active_activations_page`] makes of the answer `ans`.
pub open spec fn active_activations_page_read(ans: Seq<char>, r: ApiResult<Vec<crate::types::ActiveActivation>>) -> bool {
    match json_of_text(trim(ans)) {
        None => r matches Err(e) && e@ is Parse,
        Some(v) => crate::error::list_res(r) == crate::protocol::active_activations_of(v),
    }
}

/// What [`Client::get_status_full_text`] makes of the answer `ans`.
pub open spec fn status_full_text_read(ans: Seq<char>, r: ApiResult<ActivationStatus>) -> bool {
    crate::error::res_view(r) == tiger_status_of(ans)
}

/// What [`Client::get_status_v2`] makes of the answer `ans`.
pub open spec fn status_v2_read(ans: Seq<char>, r: ApiResult<StatusV2>) -> bool {
    (!starts_with_char(trim(ans), '{') ==> match r {
        Ok(s) => tiger_status_of(ans) matches Ok(p) && s@ == StatusV2View::Plain(p),
        Err(e) => tiger_status_of(ans) == Err::<StatusView, ErrorView>(e@),
    }) && (starts_with_char(trim(ans), '{') ==> match json_of_text(trim(ans)) {
        None => r matches Err(e) && e@ is Parse,
        Some(v) => r matches Ok(s) && s@ == status_v2_json(v),
    })
}

/// What [`Client::set_status_v2`] makes of the answer `ans`.
pub open spec fn set_status_v2_read(ans: Seq<char>, r: ApiResult<()>) -> bool {
    match json_of_text(trim(ans)) {
        None => r matches Err(e) && e@ is Parse,
        Some(v) => err_of(r) == set_status_v2_of(v, trim(ans)),
    }
}

/// What [`Client::top_countries_from_prices`] makes of the answer `ans` for `service`: the
/// rows of the price table the answer reads as, or the error reading it.
pub open spec fn top_from_prices_read(ans: Seq<char>, service: Seq<char>, r: ApiResult<Vec<TopCountry>>) -> bool {
    match json_of_text(trim(ans)) {
        None => r matches Err(e) && e@ is Parse,
        Some(v) => match r {
            Ok(l) => exists|t: PriceTable|
                #![trigger crate::protocol::table_view(t)]
                crate::protocol::prices_of(v) == Ok::<Map<CountryKey, Map<Seq<char>, Price>>, ErrorView>(
                    crate::protocol::table_view(t),
                )
                    && crate::error::seq_views(l@) == sort_rows(table_rows(t.seq(), service)),
            Err(e) => crate::protocol::prices_of(v) == Err::<Map<CountryKey, Map<Seq<char>, Price>>, ErrorView>(e@),
        },
    }
}

impl<T: Transport> Client<T, TigerSmsDialect> {
    /// `getNumberV2` with the Tiger-SMS-only parameters of [`TigerNumberOptions`]. Fails before
    /// any request with `Unsupported("minPrice")` / `Unsupported("operator")` when those are set
    /// (the provider ignores them) and with a `maxPrice` validation error when `fixed_price` is
    /// set without a `max_price`.
    pub fn get_number_with(&self, request: &NumberRequest, options: &TigerNumberOptions) -> (r: ApiResult<crate::types::Activation>)
        ensures
            number_with_error(request@, options@) matches Some(e) ==> (r matches Err(x) && x@ == e),
            number_with_error(request@, options@) is None ==> self.answered(
                "getNumberV2"@,
                crate::api::number_query(RequestParams { extra: tiger_extra(options@, request@), ..request@ }),
                r,
                |b: Seq<char>| self.dialect_value().activation_answer(b, r),
            ),
    {
        if request.min_price.is_some() {
            return Err(ApiError::Unsupported("minPrice"));
        }
        if request.operator.is_some() {
            return Err(ApiError::Unsupported("operator"));
        }
        if options.fixed_price && request.max_price.is_none() {
            return Err(ApiError::Validation {
                field: owned("maxPrice"),
                message: owned("fixedPrice requires max_price"),
            });
        }
        crate::api::SmsActivateApi::get_number(self, &options.apply(request))
    }

    /// `getBalance&format=json` — balance with its currency code.
    pub fn get_balance_json(&self) -> (r: ApiResult<BalanceInfo>)
        ensures
            self.answered(
                "getBalance"@,
                seq![(params::FORMAT@, "json"@)],
                r,
                |ans: Seq<char>| balance_json_read(ans, r),
            ),
    {
        let mut params: Vec<(String, String)> = Vec::new();
        params.push((owned(params::FORMAT), owned("json")));
        let ghost q = pairs_view(params@);
        assert(q =~= seq![(params::FORMAT@, "json"@)]);
        let sent = self.call("getBalance", params);
        let ghost sent_v = sent;
        let body = match sent {
            Ok(b) => b,
            Err(e) => {
                let r = Err(e);
                proof {
                    self.lemma_error_handed_on(
                        "getBalance"@,
                        q,
                        sent_v,
                        r,
                        |ans: Seq<char>| balance_json_read(ans, r),
                    );
                }
                return r;
            },
        };
        let r = parse_balance_json(body.as_str());
        proof {
            self.lemma_body_read("getBalance"@, q, sent_v, r, |ans: Seq<char>| balance_json_read(ans, r));
        }
        r
    }

    /// `getFreePrices[&service][&country]` — price ladder per country/service.
    pub fn get_free_prices(&self, service: Option<&ServiceCode>, country: Option<CountryId>) -> (r: ApiResult<KeyMap<u32, KeyMap<ServiceCode, PriceLadder>>>)
        ensures
            self.answered(
                "getFreePrices"@,
                price_query(match service { Some(s) => Some(s@), None => None }, country),
                r,
                |ans: Seq<char>| free_prices_read(ans, r),
            ),
    {
                let params = price_params(service, country);
        let ghost q = pairs_view(params@);
        assert(q =~= price_query(match service { Some(s) => Some(s@), None => None }, country));
        let sent = self.call("getFreePrices", params);
        let ghost sent_v = sent;
        let body = match sent {
            Ok(b) => b,
            Err(e) => {
                let r = Err(e);
                proof {
                    self.lemma_error_handed_on(
                        "getFreePrices"@,
                        q,
                        sent_v,
                        r,
                        |ans: Seq<char>| free_prices_read(ans, r),
                    );
                }
                return r;
            },
        };
        let r = parse_free_prices(body.as_str());
        proof {
            self.lemma_body_read("getFreePrices"@, q, sent_v, r, |ans: Seq<char>| free_prices_read(ans, r));
        }
        r
    }

    /// `getPricesV2` — documented alias of `getFreePrices` (same shape).
    pub fn get_prices_v2(&self, service: Option<&ServiceCode>, country: Option<CountryId>) -> (r: ApiResult<KeyMap<u32, KeyMap<ServiceCode, PriceLadder>>>)
        ensures
            self.answered(
                "getPricesV2"@,
                price_query(match service { Some(s) => Some(s@), None => None }, country),
                r,
                |ans: Seq<char>| prices_v2_read(ans, r),
            ),
    {
                let params = price_params(service, country);
        let ghost q = pairs_view(params@);
        assert(q =~= price_query(match service { Some(s) => Some(s@), None => None }, country));
        let sent = self.call("getPricesV2", params);
        let ghost sent_v = sent;
        let body = match sent {
            Ok(b) => b,
            Err(e) => {
                let r = Err(e);
                proof {
                    self.lemma_error_handed_on(
                        "getPricesV2"@,
                        q,
                        sent_v,
                        r,
                        |ans: Seq<char>| prices_v2_read(ans, r),
                    );
                }
                return r;
            },
        };
        let r = parse_free_prices(body.as_str());
        proof {
            self.lemma_body_read("getPricesV2"@, q, sent_v, r, |ans: Seq<char>| prices_v2_read(ans, r));
        }
        r
    }

    /// `getPricesV3&service&country` — price and stock per provider.
    pub fn get_prices_v3(&self, service: &ServiceCode, country: CountryId) -> (r: ApiResult<KeyMap<u32, KeyMap<ServiceCode, ProviderPrices>>>)
        ensures
            self.answered(
                "getPricesV3"@,
                price_query(Some(service@), Some(country)),
                r,
                |ans: Seq<char>| prices_v3_read(ans, r),
            ),
    {
                let params = price_params(Some(service), Some(country));
        let ghost q = pairs_view(params@);
        assert(q =~= price_query(Some(service@), Some(country)));
        let sent = self.call("getPricesV3", params);
        let ghost sent_v = sent;
        let body = match sent {
            Ok(b) => b,
            Err(e) => {
                let r = Err(e);
                proof {
                    self.lemma_error_handed_on(
                        "getPricesV3"@,
                        q,
                        sent_v,
                        r,
                        |ans: Seq<char>| prices_v3_read(ans, r),
                    );
                }
                return r;
            },
        };
        let r = parse_prices_v3(body.as_str());
        proof {
            self.lemma_body_read("getPricesV3"@, q, sent_v, r, |ans: Seq<char>| prices_v3_read(ans, r));
        }
        r
    }

    /// `getOffers[&services][&countries]` — price summary + ladder per service and country.
    /// Empty lists mean "every service" / "every country".
    pub fn get_offers(&self, services: &[ServiceCode], countries: &[CountryId]) -> (r: ApiResult<KeyMap<ServiceCode, KeyMap<u32, Offer>>>)
        ensures
            self.answered(
                "getOffers"@,
                offers_query(crate::error::seq_views(services@), countries@),
                r,
                |ans: Seq<char>| offers_read(ans, r),
            ),
    {
        let params = offers_params(services, countries);
        let ghost q = pairs_view(params@);
        assert(q =~= offers_query(crate::error::seq_views(services@), countries@));
        let sent = self.call("getOffers", params);
        let ghost sent_v = sent;
        let body = match sent {
            Ok(b) => b,
            Err(e) => {
                let r = Err(e);
                proof {
                    self.lemma_error_handed_on(
                        "getOffers"@,
                        q,
                        sent_v,
                        r,
                        |ans: Seq<char>| offers_read(ans, r),
                    );
                }
                return r;
            },
        };
        let r = parse_offers(body.as_str());
        proof {
            self.lemma_body_read("getOffers"@, q, sent_v, r, |ans: Seq<char>| offers_read(ans, r));
        }
        r
    }

    /// `getProviders[&service][&country]` — public provider list, in the provider's order.
    pub fn get_providers(&self, service: Option<&ServiceCode>, country: Option<CountryId>) -> (r: ApiResult<Vec<Provider>>)
        ensures
            self.answered(
                "getProviders"@,
                price_query(match service { Some(s) => Some(s@), None => None }, country),
                r,
                |ans: Seq<char>| providers_read(ans, r),
            ),
    {
                let params = price_params(service, country);
        let ghost q = pairs_view(params@);
        assert(q =~= price_query(match service { Some(s) => Some(s@), None => None }, country));
        let sent = self.call("getProviders", params);
        let ghost sent_v = sent;
        let body = match sent {
            Ok(b) => b,
            Err(e) => {
                let r = Err(e);
                proof {
                    self.lemma_error_handed_on(
                        "getProviders"@,
                        q,
                        sent_v,
                        r,
                        |ans: Seq<char>| providers_read(ans, r),
                    );
                }
                return r;
            },
        };
        let r = parse_providers(body.as_str());
        proof {
            self.lemma_body_read("getProviders"@, q, sent_v, r, |ans: Seq<char>| providers_read(ans, r));
        }
        r
    }

    /// `getServiceNumbersCount&service` — available numbers per country for one service.
    pub fn get_service_numbers_count(&self, service: &ServiceCode) -> (r: ApiResult<KeyMap<u32, u64>>)
        ensures
            self.answered(
                "getServiceNumbersCount"@,
                seq![("service"@, service@)],
                r,
                |ans: Seq<char>| service_numbers_count_read(ans, r),
            ),
    {
        let mut params: Vec<(String, String)> = Vec::new();
        params.push((owned("service"), copy_string(&service.0)));
        let ghost q = pairs_view(params@);
        assert(q =~= seq![("service"@, service@)]);
        let sent = self.call("getServiceNumbersCount", params);
        let ghost sent_v = sent;
        let body = match sent {
            Ok(b) => b,
            Err(e) => {
                let r = Err(e);
                proof {
                    self.lemma_error_handed_on(
                        "getServiceNumbersCount"@,
                        q,
                        sent_v,
                        r,
                        |ans: Seq<char>| service_numbers_count_read(ans, r),
                    );
                }
                return r;
            },
        };
        let r = parse_service_numbers_count(body.as_str());
        proof {
            self.lemma_body_read(
                "getServiceNumbersCount"@,
                q,
                sent_v,
                r,
                |ans: Seq<char>| service_numbers_count_read(ans, r),
            );
        }
        r
    }

    /// `getServicesList[&country][&lang]` — services with live stock in `country`.
    pub fn get_services_for(&self, country: Option<CountryId>, lang: Option<&str>) -> (r: ApiResult<Vec<crate::types::Service>>)
        ensures
            self.answered(
                "getServicesList"@,
                (match country { Some(c) => seq![("country"@, crate::num::dec(c as nat))], None => Seq::empty() }) + (match lang { Some(l) => seq![("lang"@, l@)], None => Seq::empty() }),
                r,
                |ans: Seq<char>| services_for_read(ans, r),
            ),
    {
        let mut params: Vec<(String, String)> = Vec::new();
        if let Some(c) = country {
            params.push((owned("country"), crate::num::u64_to_string(c as u64)));
        }
        if let Some(l) = lang {
            params.push((owned("lang"), owned(l)));
        }
        let ghost q = pairs_view(params@);
        assert(q =~= (match country { Some(c) => seq![("country"@, crate::num::dec(c as nat))], None => Seq::empty() }) + (match lang { Some(l) => seq![("lang"@, l@)], None => Seq::empty() }));
        let sent = self.call("getServicesList", params);
        let ghost sent_v = sent;
        let body = match sent {
            Ok(b) => b,
            Err(e) => {
                let r = Err(e);
                proof {
                    self.lemma_error_handed_on(
                        "getServicesList"@,
                        q,
                        sent_v,
                        r,
                        |ans: Seq<char>| services_for_read(ans, r),
                    );
                }
                return r;
            },
        };
        let r = crate::protocol::parse_services(body.as_str());
        proof {
            self.lemma_body_read(
                "getServicesList"@,
                q,
                sent_v,
                r,
                |ans: Seq<char>| services_for_read(ans, r),
            );
        }
        r
    }

    /// `getActiveActivations&start=…&limit=…` (`limit` ≤ 100, default 50).
    pub fn get_active_activations_page(&self, start: u64, limit: u64) -> (r: ApiResult<Vec<crate::types::ActiveActivation>>)
        ensures
            self.answered(
                "getActiveActivations"@,
                seq![("start"@, crate::num::dec(start as nat)), ("limit"@, crate::num::dec(limit as nat))],
                r,
                |ans: Seq<char>| active_activations_page_read(ans, r),
            ),
    {
        let mut params: Vec<(String, String)> = Vec::new();
        params.push((owned("start"), crate::num::u64_to_string(start)));
        params.push((owned("limit"), crate::num::u64_to_string(limit)));
        let ghost q = pairs_view(params@);
        assert(q =~= seq![("start"@, crate::num::dec(start as nat)), ("limit"@, crate::num::dec(limit as nat))]);
        let sent = self.call("getActiveActivations", params);
        let ghost sent_v = sent;
        let body = match sent {
            Ok(b) => b,
            Err(e) => {
                let r = Err(e);
                proof {
                    self.lemma_error_handed_on(
                        "getActiveActivations"@,
                        q,
                        sent_v,
                        r,
                        |ans: Seq<char>| active_activations_page_read(ans, r),
                    );
                }
                return r;
            },
        };
        let r = crate::protocol::parse_active_activations(body.as_str());
        proof {
            self.lemma_body_read(
                "getActiveActivations"@,
                q,
                sent_v,
                r,
                |ans: Seq<char>| active_activations_page_read(ans, r),
            );
        }
        r
    }

    /// `getStatus&full_text=true` — `STATUS_OK:` carries the whole SMS text.
    pub fn get_status_full_text(&self, id: &ActivationId) -> (r: ApiResult<ActivationStatus>)
        ensures
            self.answered(
                "getStatus"@,
                seq![("id"@, id@), (params::FULL_TEXT@, "true"@)],
                r,
                |ans: Seq<char>| status_full_text_read(ans, r),
            ),
    {
        let mut params: Vec<(String, String)> = Vec::new();
        params.push((owned("id"), copy_string(&id.0)));
        params.push((owned(params::FULL_TEXT), owned("true")));
        let ghost q = pairs_view(params@);
        assert(q =~= seq![("id"@, id@), (params::FULL_TEXT@, "true"@)]);
        let sent = self.call("getStatus", params);
        let ghost sent_v = sent;
        let body = match sent {
            Ok(b) => b,
            Err(e) => {
                let r = Err(e);
                proof {
                    self.lemma_error_handed_on(
                        "getStatus"@,
                        q,
                        sent_v,
                        r,
                        |ans: Seq<char>| status_full_text_read(ans, r),
                    );
                }
                return r;
            },
        };
        let r = parse_status(body.as_str());
        proof {
            self.lemma_body_read("getStatus"@, q, sent_v, r, |ans: Seq<char>| status_full_text_read(ans, r));
        }
        r
    }

    /// `getStatusV2` — structured status with the SMS text and timestamp.
    pub fn get_status_v2(&self, id: &ActivationId) -> (r: ApiResult<StatusV2>)
        ensures
            self.answered("getStatusV2"@, seq![("id"@, id@)], r, |ans: Seq<char>| status_v2_read(ans, r)),
    {
        let mut params: Vec<(String, String)> = Vec::new();
        params.push((owned("id"), copy_string(&id.0)));
        let ghost q = pairs_view(params@);
        assert(q =~= seq![("id"@, id@)]);
        let sent = self.call("getStatusV2", params);
        let ghost sent_v = sent;
        let body = match sent {
            Ok(b) => b,
            Err(e) => {
                let r = Err(e);
                proof {
                    self.lemma_error_handed_on(
                        "getStatusV2"@,
                        q,
                        sent_v,
                        r,
                        |ans: Seq<char>| status_v2_read(ans, r),
                    );
                }
                return r;
            },
        };
        let r = parse_status_v2(body.as_str());
        proof {
            self.lemma_body_read("getStatusV2"@, q, sent_v, r, |ans: Seq<char>| status_v2_read(ans, r));
        }
        r
    }

    /// `setStatusV2` — like `set_status`, with JSON error envelopes. Succeeds on
    /// `{"status":"success"}`.
    pub fn set_status_v2(&self, id: &ActivationId, action: crate::types::StatusAction) -> (r: ApiResult<()>)
        ensures
            self.answered(
                "setStatusV2"@,
                seq![("id"@, id@), ("status"@, crate::num::dec(crate::types::action_code(action) as nat))],
                r,
                |ans: Seq<char>| set_status_v2_read(ans, r),
            ),
    {
        let mut params: Vec<(String, String)> = Vec::new();
        params.push((owned("id"), copy_string(&id.0)));
        params.push((owned("status"), crate::num::u64_to_string(action.code() as u64)));
        let ghost q = pairs_view(params@);
        assert(q =~= seq![("id"@, id@), ("status"@, crate::num::dec(crate::types::action_code(action) as nat))]);
        let sent = self.call("setStatusV2", params);
        let ghost sent_v = sent;
        let body = match sent {
            Ok(b) => b,
            Err(e) => {
                let r = Err(e);
                proof {
                    self.lemma_error_handed_on(
                        "setStatusV2"@,
                        q,
                        sent_v,
                        r,
                        |ans: Seq<char>| set_status_v2_read(ans, r),
                    );
                }
                return r;
            },
        };
        let r = parse_set_status_v2(body.as_str());
        proof {
            self.lemma_body_read("setStatusV2"@, q, sent_v, r, |ans: Seq<char>| set_status_v2_read(ans, r));
        }
        r
    }

    /// Substitute for the missing `getTopCountriesByService`: `getPrices&service=…` reshaped
    /// into top-countries rows (see [`top_countries_from_price_table`]).
    pub fn top_countries_from_prices(&self, service: &ServiceCode) -> (r: ApiResult<Vec<TopCountry>>)
        ensures
            self.answered(
                "getPrices"@,
                seq![("service"@, service@)],
                r,
                |ans: Seq<char>| top_from_prices_read(ans, service@, r),
            ),
    {
        let mut params: Vec<(String, String)> = Vec::new();
        params.push((owned("service"), copy_string(&service.0)));
        let ghost q = pairs_view(params@);
        assert(q =~= seq![("service"@, service@)]);
        let sent = self.call("getPrices", params);
        let ghost sent_v = sent;
        let body = match sent {
            Ok(b) => b,
            Err(e) => {
                let r = Err(e);
                proof {
                    self.lemma_error_handed_on(
                        "getPrices"@,
                        q,
                        sent_v,
                        r,
                        |ans: Seq<char>| top_from_prices_read(ans, service@, r),
                    );
                }
                return r;
            },
        };
        let r = match crate::protocol::parse_prices(body.as_str()) {
            Ok(table) => Ok(top_countries_from_price_table(&table, service)),
            Err(e) => Err(e),
        };
        proof {
            self.lemma_body_read(
                "getPrices"@,
                q,
                sent_v,
                r,
                |ans: Seq<char>| top_from_prices_read(ans, service@, r),
            );
        }
        r
    }
}

} // verus!
