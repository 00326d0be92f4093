//! Provider-neutral data types of the sms-activate protocol family.

use vstd::prelude::*;
use crate::amount::Amount;
use crate::keymap::{KeyMap, SameKey};
use crate::num::{dec, parse_u32_spec};
use crate::text::{chars_of, eq_chars, string_of, trim};

verus! {

/// A string copied character for character.
pub fn copy_string(s: &String) -> (r: String)
    ensures
        r@ == s@,
{
    s.clone()
}

/// Opaque activation (order) identifier, kept as a string: some providers use 64-bit ids.
#[derive(Debug, Default, PartialEq, Eq, Hash, PartialOrd, Ord)]
pub struct ActivationId(pub String);

impl View for ActivationId {
    type V = Seq<char>;

    open spec fn view(&self) -> Seq<char> {
        self.0@
    }
}

impl Clone for ActivationId {
    fn clone(&self) -> (r: Self)
        ensures
            r@ == self@,
    {
        ActivationId(copy_string(&self.0))
    }
}

impl ActivationId {
    pub fn new(id: &str) -> (r: Self)
        ensures
            r@ == id@,
    {
        ActivationId(string_of(&chars_of(id)))
    }

    pub fn as_str(&self) -> (r: &str)
        ensures
            r@ == self@,
    {
        self.0.as_str()
    }

    /// The id as text (what `Display` writes).
    pub fn to_string(&self) -> (r: String)
        ensures
            r@ == self@,
    {
        copy_string(&self.0)
    }

    /// The decimal text of a numeric id.
    pub fn from_u64(n: u64) -> (r: Self)
        ensures
            r@ == dec(n as nat),
    {
        ActivationId(crate::num::u64_to_string(n))
    }
}

impl From<&str> for ActivationId {
    fn from(s: &str) -> (r: Self)
        ensures
            r@ == s@,
    {
        ActivationId::new(s)
    }
}

impl From<String> for ActivationId {
    fn from(s: String) -> (r: Self)
        ensures
            r@ == s@,
    {
        ActivationId(s)
    }
}

impl From<u64> for ActivationId {
    fn from(n: u64) -> (r: Self)
        ensures
            r@ == dec(n as nat),
    {
        ActivationId::from_u64(n)
    }
}

/// Short service code as used by the protocol (`tg` = Telegram, `wa` = WhatsApp, …).
#[derive(Debug, Default, PartialEq, Eq, Hash, PartialOrd, Ord)]
pub struct ServiceCode(pub String);

impl View for ServiceCode {
    type V = Seq<char>;

    open spec fn view(&self) -> Seq<char> {
        self.0@
    }
}

impl Clone for ServiceCode {
    fn clone(&self) -> (r: Self)
        ensures
            r@ == self@,
    {
        ServiceCode(copy_string(&self.0))
    }
}

impl SameKey for ServiceCode {
    open spec fn key_lt(a: Seq<char>, b: Seq<char>) -> bool {
        crate::text::chars_lt(a, b)
    }

    proof fn lemma_key_order(a: Seq<char>, b: Seq<char>, c: Seq<char>) {
        crate::text::lemma_chars_lt_order(a, b, c);
    }

    fn same_key(&self, other: &Self) -> (r: bool) {
        self.0.same_key(&other.0)
    }

    fn less_key(&self, other: &Self) -> (r: bool) {
        self.0.less_key(&other.0)
    }
}

impl ServiceCode {
    pub fn new(code: &str) -> (r: Self)
        ensures
            r@ == code@,
    {
        ServiceCode(string_of(&chars_of(code)))
    }

    pub fn as_str(&self) -> (r: &str)
        ensures
            r@ == self@,
    {
        self.0.as_str()
    }

    /// The code as text (what `Display` writes).
    pub fn to_string(&self) -> (r: String)
        ensures
            r@ == self@,
    {
        copy_string(&self.0)
    }
}

impl From<&str> for ServiceCode {
    fn from(s: &str) -> (r: Self)
        ensures
            r@ == s@,
    {
        ServiceCode::new(s)
    }
}

/// Numeric country id of the sms-activate family (0 = Russia, 1 = Ukraine, 187 = USA …).
pub type CountryId = u32;

/// What a [`CountryRef`] denotes.
pub enum CountryKey {
    Id(u32),
    Slug(Seq<char>),
}

/// Provider-native country identifier: numeric ids for the sms-activate family (`187` = USA),
/// names for REST providers such as 5SIM (`"england"`).
#[derive(Debug, PartialEq, Eq, Hash, PartialOrd, Ord)]
pub enum CountryRef {
    Id(CountryId),
    /// Human slug such as `united-states` (SMSBower) or `england` (5SIM).
    Slug(String),
}

impl View for CountryRef {
    type V = CountryKey;

    open spec fn view(&self) -> CountryKey {
        match self {
            CountryRef::Id(id) => CountryKey::Id(*id),
            CountryRef::Slug(s) => CountryKey::Slug(s@),
        }
    }
}

impl Clone for CountryRef {
    fn clone(&self) -> (r: Self)
        ensures
            r@ == self@,
    {
        match self {
            CountryRef::Id(id) => CountryRef::Id(*id),
            CountryRef::Slug(s) => CountryRef::Slug(copy_string(s)),
        }
    }
}

/// `CountryRef`'s derived order: every id before every slug, ids by number, slugs by text.
pub open spec fn country_key_lt(a: CountryKey, b: CountryKey) -> bool {
    match (a, b) {
        (CountryKey::Id(x), CountryKey::Id(y)) => x < y,
        (CountryKey::Id(_), CountryKey::Slug(_)) => true,
        (CountryKey::Slug(_), CountryKey::Id(_)) => false,
        (CountryKey::Slug(x), CountryKey::Slug(y)) => crate::text::chars_lt(x, y),
    }
}

impl SameKey for CountryRef {
    open spec fn key_lt(a: CountryKey, b: CountryKey) -> bool {
        country_key_lt(a, b)
    }

    proof fn lemma_key_order(a: CountryKey, b: CountryKey, c: CountryKey) {
        match (a, b, c) {
            (CountryKey::Slug(x), CountryKey::Slug(y), CountryKey::Slug(z)) => {
                crate::text::lemma_chars_lt_order(x, y, z);
            },
            (CountryKey::Slug(x), CountryKey::Slug(y), _) => {
                crate::text::lemma_chars_lt_order(x, y, y);
            },
            (CountryKey::Slug(x), _, _) => {
                crate::text::lemma_chars_lt_order(x, x, x);
            },
            _ => {},
        }
    }

    fn same_key(&self, other: &Self) -> (r: bool) {
        match (self, other) {
            (CountryRef::Id(a), CountryRef::Id(b)) => *a == *b,
            (CountryRef::Slug(a), CountryRef::Slug(b)) => a.same_key(b),
            _ => false,
        }
    }

    fn less_key(&self, other: &Self) -> (r: bool) {
        match (self, other) {
            (CountryRef::Id(a), CountryRef::Id(b)) => *a < *b,
            (CountryRef::Id(_), CountryRef::Slug(_)) => true,
            (CountryRef::Slug(_), CountryRef::Id(_)) => false,
            (CountryRef::Slug(a), CountryRef::Slug(b)) => a.less_key(b),
        }
    }
}

/// What `CountryRef::parse` makes of a text.
pub open spec fn country_key_of(s: Seq<char>) -> CountryKey {
    match parse_u32_spec(trim(s)) {
        Some(id) => CountryKey::Id(id),
        None => CountryKey::Slug(trim(s)),
    }
}

/// The text `Display` writes for a country key.
pub open spec fn country_text(k: CountryKey) -> Seq<char> {
    match k {
        CountryKey::Id(id) => dec(id as nat),
        CountryKey::Slug(s) => s,
    }
}

impl CountryRef {
    /// `"187"` → `Id(187)`, anything else → `Slug` (both trimmed).
    pub fn parse(s: &str) -> (r: Self)
        ensures
            r@ == country_key_of(s@),
    {
        let t = crate::text::trim_str(s);
        match crate::num::parse_u32(&t) {
            Some(id) => CountryRef::Id(id),
            None => CountryRef::Slug(string_of(&t)),
        }
    }

    /// [`CountryRef::parse`] on characters.
    pub fn parse_chars(s: &[char]) -> (r: Self)
        ensures
            r@ == country_key_of(s@),
    {
        let t = crate::text::trim_chars(s);
        match crate::num::parse_u32(&t) {
            Some(id) => CountryRef::Id(id),
            None => CountryRef::Slug(string_of(&t)),
        }
    }

    pub fn id(&self) -> (r: Option<CountryId>)
        ensures
            r == match self@ {
                CountryKey::Id(id) => Some(id),
                CountryKey::Slug(_) => None::<u32>,
            },
    {
        match self {
            CountryRef::Id(id) => Some(*id),
            CountryRef::Slug(_) => None,
        }
    }

    pub fn slug(&self) -> (r: Option<&str>)
        ensures
            match self@ {
                CountryKey::Id(_) => r is None,
                CountryKey::Slug(s) => r is Some && r.unwrap()@ == s,
            },
    {
        match self {
            CountryRef::Id(_) => None,
            CountryRef::Slug(s) => Some(s.as_str()),
        }
    }

    /// The key as text (what `Display` writes): the id in decimal, or the slug.
    pub fn to_string(&self) -> (r: String)
        ensures
            r@ == country_text(self@),
    {
        match self {
            CountryRef::Id(id) => crate::num::u64_to_string(*id as u64),
            CountryRef::Slug(s) => copy_string(s),
        }
    }
}

impl Default for CountryRef {
    fn default() -> (r: Self)
        ensures
            r@ == CountryKey::Id(0),
    {
        CountryRef::Id(0)
    }
}

impl From<CountryId> for CountryRef {
    fn from(id: CountryId) -> (r: Self)
        ensures
            r@ == CountryKey::Id(id),
    {
        CountryRef::Id(id)
    }
}

impl From<&str> for CountryRef {
    fn from(s: &str) -> (r: Self)
        ensures
            r@ == country_key_of(s@),
    {
        CountryRef::parse(s)
    }
}

impl From<String> for CountryRef {
    fn from(s: String) -> (r: Self)
        ensures
            r@ == country_key_of(s@),
    {
        CountryRef::parse(s.as_str())
    }
}


/// Parameters for `getNumber` / `getNumberV2`.
#[derive(Debug, Default, PartialEq)]
pub struct NumberRequest {
    pub service: ServiceCode,
    /// Provider-native country key (see [`CountryRef`]).
    pub country: CountryRef,
    /// Mobile operator filter (provider-specific names, see `get_operators`).
    pub operator: Option<String>,
    /// Refuse numbers more expensive than this (`maxPrice`).
    pub max_price: Option<Amount>,
    /// Refuse numbers cheaper than this (`minPrice`, SMSBower).
    pub min_price: Option<Amount>,
    /// Extra provider-specific query parameters, appended verbatim (e.g. `providerIds`).
    pub extra: Vec<(String, String)>,
}

/// What a [`NumberRequest`] denotes.
pub struct RequestParams {
    pub service: Seq<char>,
    pub country: CountryKey,
    pub operator: Option<Seq<char>>,
    pub max_price: Option<Amount>,
    pub min_price: Option<Amount>,
    pub extra: Seq<(Seq<char>, Seq<char>)>,
}

pub open spec fn opt_text(o: Option<String>) -> Option<Seq<char>> {
    match o {
        Some(s) => Some(s@),
        None => None,
    }
}

impl View for NumberRequest {
    type V = RequestParams;

    open spec fn view(&self) -> RequestParams {
        RequestParams {
            service: self.service@,
            country: self.country@,
            operator: opt_text(self.operator),
            max_price: self.max_price,
            min_price: self.min_price,
            extra: crate::transport::pairs_view(self.extra@),
        }
    }
}

pub fn copy_opt(o: &Option<String>) -> (r: Option<String>)
    ensures
        opt_text(r) == opt_text(*o),
{
    match o {
        Some(s) => Some(copy_string(s)),
        None => None,
    }
}

impl Clone for NumberRequest {
    fn clone(&self) -> (r: Self)
        ensures
            r@ == self@,
    {
        let extra = crate::transport::copy_pairs(&self.extra);
        assert(crate::transport::pairs_view(extra@) =~= crate::transport::pairs_view(self.extra@));
        NumberRequest {
            service: self.service.clone(),
            country: self.country.clone(),
            operator: copy_opt(&self.operator),
            max_price: self.max_price,
            min_price: self.min_price,
            extra,
        }
    }
}

impl NumberRequest {
    pub fn new(service: ServiceCode, country: CountryRef) -> (r: Self)
        ensures
            r@ == (RequestParams {
                service: service@,
                country: country@,
                operator: None,
                max_price: None,
                min_price: None,
                extra: Seq::empty(),
            }),
    {
        let r = NumberRequest { service, country, operator: None, max_price: None, min_price: None, extra: Vec::new() };
        assert(crate::transport::pairs_view(r.extra@) =~= Seq::empty());
        r
    }

    pub fn operator(self, operator: &str) -> (r: Self)
        ensures
            r@ == (RequestParams { operator: Some(operator@), ..self@ }),
    {
        let mut s = self;
        s.operator = Some(string_of(&chars_of(operator)));
        s
    }

    pub fn max_price(self, price: Amount) -> (r: Self)
        ensures
            r@ == (RequestParams { max_price: Some(price), ..self@ }),
    {
        let mut s = self;
        s.max_price = Some(price);
        s
    }

    pub fn min_price(self, price: Amount) -> (r: Self)
        ensures
            r@ == (RequestParams { min_price: Some(price), ..self@ }),
    {
        let mut s = self;
        s.min_price = Some(price);
        s
    }

    pub fn extra(self, key: &str, value: &str) -> (r: Self)
        ensures
            r@ == (RequestParams { extra: self@.extra.push((key@, value@)), ..self@ }),
    {
        let mut s = self;
        let ghost old_e = s.extra@;
        s.extra.push((string_of(&chars_of(key)), string_of(&chars_of(value))));
        assert(crate::transport::pairs_view(s.extra@) =~= crate::transport::pairs_view(old_e).push((key@, value@)));
        s
    }
}

/// A purchased number. Only `id` and `phone` are guaranteed (`getNumber`); the rest comes from `getNumberV2`.
#[derive(Debug, PartialEq)]
pub struct Activation {
    pub id: ActivationId,
    /// Phone number in international format without `+`, exactly as returned by the provider.
    pub phone: String,
    pub cost: Option<Amount>,
    pub country: Option<CountryRef>,
    pub can_get_another_sms: Option<bool>,
    /// Provider-formatted timestamp (usually `YYYY-MM-DD HH:MM:SS`).
    pub activation_time: Option<String>,
    pub operator: Option<String>,
}

/// What an [`Activation`] denotes.
pub struct ActivationView {
    pub id: Seq<char>,
    pub phone: Seq<char>,
    /// In 10⁻¹⁸ units.
    pub cost: Option<int>,
    pub country: Option<CountryKey>,
    pub can_get_another_sms: Option<bool>,
    pub activation_time: Option<Seq<char>>,
    pub operator: Option<Seq<char>>,
}

pub open spec fn opt_units(o: Option<Amount>) -> Option<int> {
    match o {
        Some(a) => Some(a.units as int),
        None => None,
    }
}

pub open spec fn opt_key(o: Option<CountryRef>) -> Option<CountryKey> {
    match o {
        Some(c) => Some(c@),
        None => None,
    }
}

impl View for Activation {
    type V = ActivationView;

    open spec fn view(&self) -> ActivationView {
        ActivationView {
            id: self.id@,
            phone: self.phone@,
            cost: opt_units(self.cost),
            country: opt_key(self.country),
            can_get_another_sms: self.can_get_another_sms,
            activation_time: opt_text(self.activation_time),
            operator: opt_text(self.operator),
        }
    }
}

impl Activation {
    pub fn new(id: ActivationId, phone: String) -> (r: Self)
        ensures
            r@ == (ActivationView {
                id: id@,
                phone: phone@,
                cost: None,
                country: None,
                can_get_another_sms: None,
                activation_time: None,
                operator: None,
            }),
    {
        Activation {
            id,
            phone,
            cost: None,
            country: None,
            can_get_another_sms: None,
            activation_time: None,
            operator: None,
        }
    }
}

/// Result of `getStatus`.
#[derive(Debug, PartialEq, Eq)]
pub enum ActivationStatus {
    /// `STATUS_WAIT_CODE` — no SMS yet.
    WaitCode,
    /// `STATUS_WAIT_RETRY:<last_code>` — another SMS was requested; `last_code` is the previous one.
    WaitRetry { last_code: String },
    /// `STATUS_WAIT_RESEND` — waiting for the client to resend (rare).
    WaitResend,
    /// `STATUS_CANCEL` — activation cancelled.
    Cancelled,
    /// `STATUS_OK:<code>` — code received.
    Code { code: String },
    /// The activation timed out without a code (5SIM `TIMEOUT`).
    Expired,
    /// The activation was completed by the client (5SIM `FINISHED`); the last code, if any.
    Finished { code: Option<String> },
}

/// What an [`ActivationStatus`] denotes.
pub enum StatusView {
    WaitCode,
    WaitRetry(Seq<char>),
    WaitResend,
    Cancelled,
    Code(Seq<char>),
    Expired,
    Finished(Option<Seq<char>>),
}

impl View for ActivationStatus {
    type V = StatusView;

    open spec fn view(&self) -> StatusView {
        match self {
            ActivationStatus::WaitCode => StatusView::WaitCode,
            ActivationStatus::WaitRetry { last_code } => StatusView::WaitRetry(last_code@),
            ActivationStatus::WaitResend => StatusView::WaitResend,
            ActivationStatus::Cancelled => StatusView::Cancelled,
            ActivationStatus::Code { code } => StatusView::Code(code@),
            ActivationStatus::Expired => StatusView::Expired,
            ActivationStatus::Finished { code } => StatusView::Finished(opt_text(*code)),
        }
    }
}

/// The received code of a status, if any.
pub open spec fn status_code(s: StatusView) -> Option<Seq<char>> {
    match s {
        StatusView::Code(code) => Some(code),
        StatusView::Finished(code) => code,
        _ => None,
    }
}

/// Whether polling can stop.
pub open spec fn status_final(s: StatusView) -> bool {
    s is Code || s is Cancelled || s is Expired || s is Finished
}

impl ActivationStatus {
    /// The received code, if any.
    pub fn code(&self) -> (r: Option<&str>)
        ensures
            match r {
                Some(c) => status_code(self@) == Some(c@),
                None => status_code(self@) is None,
            },
    {
        match self {
            ActivationStatus::Code { code } => Some(code.as_str()),
            ActivationStatus::Finished { code } => match code {
                Some(c) => Some(c.as_str()),
                None => None,
            },
            _ => None,
        }
    }

    /// Whether polling can stop: `Code`, `Cancelled`, `Expired` and `Finished` are terminal.
    pub fn is_final(&self) -> (r: bool)
        ensures
            r == status_final(self@),
    {
        match self {
            ActivationStatus::Code { .. } | ActivationStatus::Cancelled | ActivationStatus::Expired
            | ActivationStatus::Finished { .. } => true,
            _ => false,
        }
    }
}

/// `setStatus` transitions.
#[derive(Clone, Copy, Debug, PartialEq, Eq, Structural)]
pub enum StatusAction {
    /// 1 — SMS has been sent to the number (optional).
    Ready,
    /// 3 — request another SMS (free).
    RequestAnotherCode,
    /// 6 — confirm the code and complete the activation.
    Complete,
    /// 8 — cancel the activation (refund).
    Cancel,
}

pub open spec fn action_code(a: StatusAction) -> u8 {
    match a {
        StatusAction::Ready => 1,
        StatusAction::RequestAnotherCode => 3,
        StatusAction::Complete => 6,
        StatusAction::Cancel => 8,
    }
}

impl StatusAction {
    pub fn code(self) -> (r: u8)
        ensures
            r == action_code(self),
    {
        match self {
            StatusAction::Ready => 1,
            StatusAction::RequestAnotherCode => 3,
            StatusAction::Complete => 6,
            StatusAction::Cancel => 8,
        }
    }
}

/// Acknowledgement returned by `setStatus`.
#[derive(Clone, Copy, Debug, PartialEq, Eq, Structural)]
pub enum StatusAck {
    /// `ACCESS_READY`
    Ready,
    /// `ACCESS_RETRY_GET`
    RetryGet,
    /// `ACCESS_ACTIVATION`
    Activation,
    /// `ACCESS_CANCEL`
    Cancel,
}

/// One cell of the price table.
#[derive(Clone, Copy, Debug, PartialEq, Eq, Structural)]
pub struct Price {
    pub cost: Amount,
    pub count: u64,
    /// Hero-SMS only: numbers on physical SIMs.
    pub physical_count: Option<u64>,
}

/// `getPrices` result: country → service → price.
pub type PriceTable = KeyMap<CountryRef, KeyMap<ServiceCode, Price>>;

#[derive(Debug, PartialEq, Eq)]
pub struct Service {
    pub code: ServiceCode,
    pub name: String,
}

impl View for Service {
    type V = (Seq<char>, Seq<char>);

    open spec fn view(&self) -> (Seq<char>, Seq<char>) {
        (self.code@, self.name@)
    }
}

#[derive(Debug, PartialEq, Eq)]
pub struct Country {
    /// The key to pass back to this provider (`Id` for the sms-activate family, `Slug` for 5SIM).
    pub key: CountryRef,
    pub name_en: String,
    pub name_ru: Option<String>,
    pub name_cn: Option<String>,
    /// ISO 3166-1 alpha-2 code, lowercase, when the provider exposes it (5SIM).
    pub iso: Option<String>,
    /// Dialling prefix such as `+44`, when the provider exposes it (5SIM).
    pub prefix: Option<String>,
    pub visible: Option<bool>,
    pub retry: Option<bool>,
    pub rent: Option<bool>,
}

/// What a [`Country`] denotes.
pub struct CountryView {
    pub key: CountryKey,
    pub name_en: Seq<char>,
    pub name_ru: Option<Seq<char>>,
    pub name_cn: Option<Seq<char>>,
    pub iso: Option<Seq<char>>,
    pub prefix: Option<Seq<char>>,
    pub visible: Option<bool>,
    pub retry: Option<bool>,
    pub rent: Option<bool>,
}

impl View for Country {
    type V = CountryView;

    open spec fn view(&self) -> CountryView {
        CountryView {
            key: self.key@,
            name_en: self.name_en@,
            name_ru: opt_text(self.name_ru),
            name_cn: opt_text(self.name_cn),
            iso: opt_text(self.iso),
            prefix: opt_text(self.prefix),
            visible: self.visible,
            retry: self.retry,
            rent: self.rent,
        }
    }
}

impl Country {
    /// Numeric id for sms-activate-family providers; `None` for slug-keyed providers.
    pub fn id(&self) -> (r: Option<CountryId>)
        ensures
            r == match self.key@ {
                CountryKey::Id(id) => Some(id),
                CountryKey::Slug(_) => None::<u32>,
            },
    {
        self.key.id()
    }
}

/// One row of `getTopCountriesByService`.
#[derive(Debug, PartialEq)]
pub struct TopCountry {
    pub country: CountryRef,
    pub price: Amount,
    pub retail_price: Option<Amount>,
    pub count: u64,
    /// Upstream partner/provider id when the provider exposes per-partner offers (SMSBower).
    pub provider_id: Option<String>,
}

/// What a [`TopCountry`] denotes.
pub struct TopCountryView {
    pub country: CountryKey,
    pub price: int,
    pub retail_price: Option<int>,
    pub count: u64,
    pub provider_id: Option<Seq<char>>,
}

impl View for TopCountry {
    type V = TopCountryView;

    open spec fn view(&self) -> TopCountryView {
        TopCountryView {
            country: self.country@,
            price: self.price.units as int,
            retail_price: opt_units(self.retail_price),
            count: self.count,
            provider_id: opt_text(self.provider_id),
        }
    }
}

/// One row of `getActiveActivations`.
#[derive(Debug, Default, PartialEq)]
pub struct ActiveActivation {
    pub id: ActivationId,
    pub service: Option<ServiceCode>,
    pub phone: Option<String>,
    pub cost: Option<Amount>,
    /// Raw provider status string (e.g. `4` / `STATUS_WAIT_CODE`).
    pub status: Option<String>,
    pub sms_code: Option<String>,
    pub sms_text: Option<String>,
    pub activation_time: Option<String>,
    pub country: Option<CountryRef>,
    pub can_get_another_sms: Option<bool>,
}

/// What an [`ActiveActivation`] denotes.
pub struct ActiveView {
    pub id: Seq<char>,
    pub service: Option<Seq<char>>,
    pub phone: Option<Seq<char>>,
    pub cost: Option<int>,
    pub status: Option<Seq<char>>,
    pub sms_code: Option<Seq<char>>,
    pub sms_text: Option<Seq<char>>,
    pub activation_time: Option<Seq<char>>,
    pub country: Option<CountryKey>,
    pub can_get_another_sms: Option<bool>,
}

pub open spec fn opt_code(o: Option<ServiceCode>) -> Option<Seq<char>> {
    match o {
        Some(c) => Some(c@),
        None => None,
    }
}

impl View for ActiveActivation {
    type V = ActiveView;

    open spec fn view(&self) -> ActiveView {
        ActiveView {
            id: self.id@,
            service: opt_code(self.service),
            phone: opt_text(self.phone),
            cost: opt_units(self.cost),
            status: opt_text(self.status),
            sms_code: opt_text(self.sms_code),
            sms_text: opt_text(self.sms_text),
            activation_time: opt_text(self.activation_time),
            country: opt_key(self.country),
            can_get_another_sms: self.can_get_another_sms,
        }
    }
}

/// Which optional parts of the protocol a provider implements.
#[derive(Clone, Copy, Debug, Default, PartialEq, Eq, Structural)]
pub struct Capabilities {
    /// `getNumberV2` (JSON activation with cost/operator/time).
    pub get_number_v2: bool,
    /// `getNumbersStatus` (available counts per service for a country).
    pub numbers_status: bool,
    /// `getActiveActivations`.
    pub active_activations: bool,
    /// `getOperators`.
    pub operators: bool,
    /// `getPricesV2` (price → count histogram).
    pub prices_v2: bool,
    /// `getPricesV3` (per upstream provider).
    pub prices_v3: bool,
    /// Honours `maxPrice` / `minPrice` on `getNumber`.
    pub price_bounds: bool,
    /// `providerIds` / `exceptProviderIds` filters on `getNumber`.
    pub provider_filters: bool,
}

impl vstd::std_specs::convert::FromSpecImpl<&str> for ActivationId {
    /// Two `String`s with the same text are not known to be one value here, so `from` is
    /// described by its own `ensures` rather than through `from_spec`.
    open spec fn obeys_from_spec() -> bool {
        false
    }

    /// A value whose view is what `from` gives.
    open spec fn from_spec(v: &str) -> Self {
        choose|o: ActivationId| o@ == v@
    }
}

impl vstd::std_specs::convert::FromSpecImpl<String> for ActivationId {
    /// Two `String`s with the same text are not known to be one value here, so `from` is
    /// described by its own `ensures` rather than through `from_spec`.
    open spec fn obeys_from_spec() -> bool {
        false
    }

    /// A value whose view is what `from` gives.
    open spec fn from_spec(v: String) -> Self {
        choose|o: ActivationId| o@ == v@
    }
}

impl vstd::std_specs::convert::FromSpecImpl<u64> for ActivationId {
    /// Two `String`s with the same text are not known to be one value here, so `from` is
    /// described by its own `ensures` rather than through `from_spec`.
    open spec fn obeys_from_spec() -> bool {
        false
    }

    /// A value whose view is what `from` gives.
    open spec fn from_spec(v: u64) -> Self {
        choose|o: ActivationId| o@ == dec(v as nat)
    }
}

impl vstd::std_specs::convert::FromSpecImpl<&str> for ServiceCode {
    /// Two `String`s with the same text are not known to be one value here, so `from` is
    /// described by its own `ensures` rather than through `from_spec`.
    open spec fn obeys_from_spec() -> bool {
        false
    }

    /// A value whose view is what `from` gives.
    open spec fn from_spec(v: &str) -> Self {
        choose|o: ServiceCode| o@ == v@
    }
}

impl vstd::std_specs::convert::FromSpecImpl<CountryId> for CountryRef {
    open spec fn obeys_from_spec() -> bool {
        true
    }

    open spec fn from_spec(v: CountryId) -> Self {
        CountryRef::Id(v)
    }
}

impl vstd::std_specs::convert::FromSpecImpl<&str> for CountryRef {
    open spec fn obeys_from_spec() -> bool {
        false
    }

    open spec fn from_spec(v: &str) -> Self {
        arbitrary()
    }
}

impl vstd::std_specs::convert::FromSpecImpl<String> for CountryRef {
    open spec fn obeys_from_spec() -> bool {
        false
    }

    open spec fn from_spec(v: String) -> Self {
        arbitrary()
    }
}

} // verus!
