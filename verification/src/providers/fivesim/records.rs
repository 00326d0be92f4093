//! The 5SIM record types besides orders: profile, history pages, price limits, inbox, products,
//! countries and per-operator offers, each with the reading of its JSON record.

use vstd::prelude::*;
use crate::amount::Amount;
use crate::error::{ApiError, ApiResult, ErrorView, owned};
use crate::json::{Json, JsonView, jget, json_of_text, member_views, views};
use crate::keymap::KeyMap;
use crate::providers::fivesim::fields::{
    amount_or_zero, bad_member_error, bool_or_false, get_amount, get_bool, get_items, get_opt_amount, get_opt_bool,
    get_opt_text, get_opt_u64, get_req_amount, get_req_text, get_req_u64, get_text, get_u64, items_or_empty,
    opt_amount_member, opt_bool_member, opt_text_member, opt_u64_member, req_amount, req_text, req_u64,
    text_or_empty, u64_or_zero,
};
use crate::providers::fivesim::orders::{Order, OrderView, Sms, SmsView, lemma_records_fail, order_from_json, order_of, records, sms_from_json, sms_of};
use crate::text::chars_of;
use crate::types::{copy_string, opt_text, opt_units};

verus! {

/// A record type read from a JSON object.
pub trait Record: Sized + View {
    /// What the record read from `v` denotes; `None` when `v` does not read as one.
    spec fn read(v: JsonView) -> Option<Self::V>;

    fn from_json(v: &Json) -> (r: ApiResult<Self>)
        ensures
            match Self::read(v@) {
                Some(x) => r matches Ok(y) && y@ == x,
                None => r matches Err(e) && e@ is Parse,
            },
    ;
}

/// Whether `r` is what reading `body` as a `T` gives: the record, or a parse error when the
/// body is no JSON or does not read as one.
pub open spec fn record_read<T: Record>(body: Seq<char>, r: ApiResult<T>) -> bool {
    match json_of_text(crate::text::trim(body)) {
        None => r matches Err(e) && e@ is Parse,
        Some(v) => match T::read(v) {
            Some(x) => r matches Ok(y) && y@ == x,
            None => r matches Err(e) && e@ is Parse,
        },
    }
}

/// Whether reading `body` as a `T` record gives what `f` allows, or a parse error when the
/// body is no JSON or does not read as one.
pub open spec fn read_as<T: Record, S>(body: Seq<char>, r: ApiResult<S>, f: spec_fn(T::V) -> bool) -> bool {
    match json_of_text(crate::text::trim(body)) {
        None => r matches Err(e) && e@ is Parse,
        Some(v) => match T::read(v) {
            Some(x) => f(x),
            None => r matches Err(e) && e@ is Parse,
        },
    }
}

/// Whether `r` is what reading `body` as a JSON array of `T` gives: the records, or a parse
/// error when the body is no such array.
pub open spec fn record_list_read<T: Record>(body: Seq<char>, r: ApiResult<Vec<T>>) -> bool {
    match json_of_text(crate::text::trim(body)) {
        None => r matches Err(e) && e@ is Parse,
        Some(v) => match v {
            JsonView::Array(items) => match records(items, |x: JsonView| T::read(x)) {
                Some(l) => r matches Ok(y) && crate::error::seq_views(y@) == l,
                None => r matches Err(e) && e@ is Parse,
            },
            _ => r matches Err(e) && e@ is Parse,
        },
    }
}

/// Reads every item of a list as a `T` (see [`records`]); `None` is the empty list.
pub fn record_list<T: Record>(items: Option<&Vec<Json>>) -> (r: ApiResult<Vec<T>>)
    ensures
        ({
            let s = match items {
                Some(a) => views(a@),
                None => Seq::empty(),
            };
            match records(s, |x: JsonView| T::read(x)) {
                Some(l) => r matches Ok(x) && crate::error::seq_views(x@) == l,
                None => r matches Err(e) && e@ is Parse,
            }
        }),
{
    let ghost item = |x: JsonView| T::read(x);
    let mut out: Vec<T> = Vec::new();
    let a = match items {
        Some(a) => a,
        None => {
            assert(crate::error::seq_views(out@) =~= Seq::<T::V>::empty());
            return Ok(out);
        },
    };
    let ghost s = views(a@);
    let mut i: usize = 0;
    assert(s.take(0) =~= Seq::<JsonView>::empty());
    assert(crate::error::seq_views(out@) =~= Seq::<T::V>::empty());
    while i < a.len()
        invariant
            i <= a@.len(),
            s == views(a@),
            item == (|x: JsonView| T::read(x)),
            items == Some(a),
            records(s.take(i as int), item) == Some(crate::error::seq_views(out@)),
        decreases a.len() - i,
    {
        proof {
            assert(s.take(i + 1).drop_last() =~= s.take(i as int));
            assert(s.take(i + 1).last() == a@[i as int]@);
        }
        let x = match T::from_json(&a[i]) {
            Ok(x) => x,
            Err(e) => {
                proof {
                    assert(item(s.take(i + 1).last()) is None);
                    assert(records(s.take(i + 1), item) is None);
                    lemma_records_fail(s, item, i + 1);
                }
                return Err(e);
            },
        };
        let ghost before = crate::error::seq_views(out@);
        out.push(x);
        assert(crate::error::seq_views(out@) =~= before.push(x@));
        i = i + 1;
    }
    assert(s.take(i as int) =~= s);
    Ok(out)
}

/// Reads a list member (absent and `null` are empty) as `T` records.
pub open spec fn list_member<T: Record>(v: JsonView, k: Seq<char>) -> Option<Seq<T::V>> {
    match items_or_empty(v, k) {
        Some(items) => records(items, |x: JsonView| T::read(x)),
        None => None,
    }
}

pub fn get_list<T: Record>(v: &Json, k: &str) -> (r: ApiResult<Vec<T>>)
    ensures
        match list_member::<T>(v@, k@) {
            Some(l) => r matches Ok(x) && crate::error::seq_views(x@) == l,
            None => r matches Err(e) && e@ is Parse,
        },
{
    let items = get_items(v, k)?;
    proof {
        if items_or_empty(v@, k@) is Some {
            match items {
                Some(a) => {},
                None => {
                    assert(items_or_empty(v@, k@).unwrap() =~= Seq::<JsonView>::empty());
                },
            }
        }
    }
    record_list::<T>(items)
}

impl Record for Sms {
    open spec fn read(v: JsonView) -> Option<SmsView> {
        sms_of(v)
    }

    fn from_json(v: &Json) -> (r: ApiResult<Sms>) {
        sms_from_json(v)
    }
}

impl Record for Order {
    open spec fn read(v: JsonView) -> Option<OrderView> {
        order_of(v)
    }

    fn from_json(v: &Json) -> (r: ApiResult<Order>) {
        order_from_json(v)
    }
}

/// `category` of the order history.
#[derive(Clone, Copy, Debug, PartialEq, Eq)]
pub enum OrderCategory {
    Activation,
    Hosting,
}

impl OrderCategory {
    pub fn as_str(self) -> (r: &'static str)
        ensures
            r@ == (match self {
                OrderCategory::Activation => "activation"@,
                OrderCategory::Hosting => "hosting"@,
            }),
    {
        match self {
            OrderCategory::Activation => "activation",
            OrderCategory::Hosting => "hosting",
        }
    }
}

/// Pagination of the history endpoints: `limit`, `offset`, sort field (`order`, default `id`)
/// and `reverse` (default `true` = newest first).
#[derive(Clone, Debug, PartialEq, Eq)]
pub struct Page {
    pub limit: u64,
    pub offset: u64,
    pub order: String,
    pub reverse: bool,
}

impl Page {
    pub fn new(limit: u64, offset: u64) -> (r: Self)
        ensures
            r.limit == limit,
            r.offset == offset,
            r.order@ == "id"@,
            r.reverse,
    {
        Page { limit, offset, order: owned("id"), reverse: true }
    }

    pub fn order(self, field: &str) -> (r: Self)
        ensures
            r.order@ == field@,
            r.limit == self.limit,
            r.offset == self.offset,
            r.reverse == self.reverse,
    {
        Page { order: owned(field), ..self }
    }

    pub fn reverse(self, reverse: bool) -> (r: Self)
        ensures
            r.reverse == reverse,
            r.limit == self.limit,
            r.offset == self.offset,
            r.order@ == self.order@,
    {
        Page { reverse, ..self }
    }

    /// `limit=…&offset=…&order=…&reverse=…`.
    pub fn query(&self) -> (r: String)
        ensures
            r@ == page_query(self.limit, self.offset, self.order@, self.reverse),
    {
        let mut q = String::new();
        crate::text::push_str(&mut q, "limit=");
        crate::text::push_str(&mut q, crate::num::u64_to_string(self.limit).as_str());
        crate::text::push_str(&mut q, "&offset=");
        crate::text::push_str(&mut q, crate::num::u64_to_string(self.offset).as_str());
        crate::text::push_str(&mut q, "&order=");
        crate::text::push_str(&mut q, crate::api::encode(self.order.as_str()).as_str());
        crate::text::push_str(&mut q, "&reverse=");
        crate::text::push_str(&mut q, if self.reverse { "true" } else { "false" });
        q
    }
}

impl Default for Page {
    fn default() -> (r: Self)
        ensures
            r.limit == 15,
            r.offset == 0,
            r.order@ == "id"@,
            r.reverse,
    {
        Page::new(15, 0)
    }
}

/// The query of a page.
pub open spec fn page_query(limit: u64, offset: u64, order: Seq<char>, reverse: bool) -> Seq<char> {
    "limit="@ + crate::num::dec(limit as nat) + "&offset="@ + crate::num::dec(offset as nat) + "&order="@
        + crate::api::url_encoded(order) + "&reverse="@ + if reverse { "true"@ } else { "false"@ }
}

/// One page of the order history. `Total` was `999999` live — "unknown" rather than a count.
#[derive(Clone, Debug, PartialEq)]
pub struct OrdersPage {
    pub data: Vec<Order>,
    pub total: u64,
}

impl View for OrdersPage {
    type V = (Seq<OrderView>, u64);

    open spec fn view(&self) -> (Seq<OrderView>, u64) {
        (crate::error::seq_views(self.data@), self.total)
    }
}

impl Record for OrdersPage {
    open spec fn read(v: JsonView) -> Option<(Seq<OrderView>, u64)> {
        if !(v is Object) {
            None
        } else {
            match (list_member::<Order>(v, "Data"@), u64_or_zero(v, "Total"@)) {
                (Some(data), Some(total)) => Some((data, total)),
                _ => None,
            }
        }
    }

    fn from_json(v: &Json) -> (r: ApiResult<OrdersPage>) {
        if !matches!(v, Json::Object(_)) {
            return Err(bad_member_error("orders"));
        }
        let data = get_list::<Order>(v, "Data")?;
        let total = get_u64(v, "Total")?;
        Ok(OrdersPage { data, total })
    }
}

/// One row of the balance history.
#[derive(Clone, Debug, PartialEq)]
pub struct Payment {
    pub id: u64,
    /// `charge` (top-up) or `buy`.
    pub payment_type: String,
    /// Payment system for charges, product name for purchases.
    pub provider_name: String,
    /// Negative for purchases.
    pub amount: Amount,
    /// Balance after this entry.
    pub balance: Amount,
    pub created_at: String,
}

impl View for Payment {
    type V = (u64, Seq<char>, Seq<char>, int, int, Seq<char>);

    open spec fn view(&self) -> (u64, Seq<char>, Seq<char>, int, int, Seq<char>) {
        (self.id, self.payment_type@, self.provider_name@, self.amount.units as int, self.balance.units as int, self.created_at@)
    }
}

impl Record for Payment {
    open spec fn read(v: JsonView) -> Option<(u64, Seq<char>, Seq<char>, int, int, Seq<char>)> {
        if !(v is Object) {
            None
        } else {
            match (
                req_u64(v, "ID"@),
                text_or_empty(v, "TypeName"@),
                text_or_empty(v, "ProviderName"@),
                amount_or_zero(v, "Amount"@),
                amount_or_zero(v, "Balance"@),
                text_or_empty(v, "CreatedAt"@),
            ) {
                (Some(a), Some(b), Some(c), Some(d), Some(e), Some(f)) => Some((a, b, c, d, e, f)),
                _ => None,
            }
        }
    }

    fn from_json(v: &Json) -> (r: ApiResult<Payment>) {
        if !matches!(v, Json::Object(_)) {
            return Err(bad_member_error("payment"));
        }
        let id = get_req_u64(v, "ID")?;
        let payment_type = get_text(v, "TypeName")?;
        let provider_name = get_text(v, "ProviderName")?;
        let amount = get_amount(v, "Amount")?;
        let balance = get_amount(v, "Balance")?;
        let created_at = get_text(v, "CreatedAt")?;
        Ok(Payment { id, payment_type, provider_name, amount, balance, created_at })
    }
}

/// `{"Name":"…"}` rows of `PaymentTypes` / `PaymentProviders`.
#[derive(Clone, Debug, PartialEq, Eq)]
pub struct Named {
    pub name: String,
}

impl View for Named {
    type V = Seq<char>;

    open spec fn view(&self) -> Seq<char> {
        self.name@
    }
}

impl Record for Named {
    open spec fn read(v: JsonView) -> Option<Seq<char>> {
        if !(v is Object) {
            None
        } else {
            req_text(v, "Name"@)
        }
    }

    fn from_json(v: &Json) -> (r: ApiResult<Named>) {
        if !matches!(v, Json::Object(_)) {
            return Err(bad_member_error("Name"));
        }
        let name = get_req_text(v, "Name")?;
        Ok(Named { name })
    }
}

/// One page of the balance history.
#[derive(Clone, Debug, PartialEq)]
pub struct PaymentsPage {
    pub data: Vec<Payment>,
    pub payment_types: Vec<Named>,
    pub payment_providers: Vec<Named>,
    pub total: u64,
}

impl View for PaymentsPage {
    type V = (Seq<(u64, Seq<char>, Seq<char>, int, int, Seq<char>)>, Seq<Seq<char>>, Seq<Seq<char>>, u64);

    open spec fn view(&self) -> (Seq<(u64, Seq<char>, Seq<char>, int, int, Seq<char>)>, Seq<Seq<char>>, Seq<Seq<char>>, u64) {
        (
            crate::error::seq_views(self.data@),
            crate::error::seq_views(self.payment_types@),
            crate::error::seq_views(self.payment_providers@),
            self.total,
        )
    }
}

impl Record for PaymentsPage {
    open spec fn read(v: JsonView) -> Option<(Seq<(u64, Seq<char>, Seq<char>, int, int, Seq<char>)>, Seq<Seq<char>>, Seq<Seq<char>>, u64)> {
        if !(v is Object) {
            None
        } else {
            match (
                list_member::<Payment>(v, "Data"@),
                list_member::<Named>(v, "PaymentTypes"@),
                list_member::<Named>(v, "PaymentProviders"@),
                u64_or_zero(v, "Total"@),
            ) {
                (Some(a), Some(b), Some(c), Some(d)) => Some((a, b, c, d)),
                _ => None,
            }
        }
    }

    fn from_json(v: &Json) -> (r: ApiResult<PaymentsPage>) {
        if !matches!(v, Json::Object(_)) {
            return Err(bad_member_error("payments"));
        }
        let data = get_list::<Payment>(v, "Data")?;
        let payment_types = get_list::<Named>(v, "PaymentTypes")?;
        let payment_providers = get_list::<Named>(v, "PaymentProviders")?;
        let total = get_u64(v, "Total")?;
        Ok(PaymentsPage { data, payment_types, payment_providers, total })
    }
}

/// One per-product purchase price limit.
#[derive(Clone, Debug, PartialEq)]
pub struct MaxPrice {
    pub id: u64,
    pub product: String,
    pub price: Amount,
    /// Read from `CreatedAt`, or from `created_at` (the documented spelling) when that is absent.
    pub created_at: String,
}

impl View for MaxPrice {
    type V = (u64, Seq<char>, int, Seq<char>);

    open spec fn view(&self) -> (u64, Seq<char>, int, Seq<char>) {
        (self.id, self.product@, self.price.units as int, self.created_at@)
    }
}

impl Record for MaxPrice {
    open spec fn read(v: JsonView) -> Option<(u64, Seq<char>, int, Seq<char>)> {
        if !(v is Object) {
            None
        } else {
            match (
                req_u64(v, "id"@),
                req_text(v, "product"@),
                req_amount(v, "price"@),
                if jget(v, "CreatedAt"@) is Some {
                    text_or_empty(v, "CreatedAt"@)
                } else {
                    text_or_empty(v, "created_at"@)
                },
            ) {
                (Some(a), Some(b), Some(c), Some(d)) => Some((a, b, c, d)),
                _ => None,
            }
        }
    }

    fn from_json(v: &Json) -> (r: ApiResult<MaxPrice>) {
        if !matches!(v, Json::Object(_)) {
            return Err(bad_member_error("max-price"));
        }
        let id = get_req_u64(v, "id")?;
        let product = get_req_text(v, "product")?;
        let price = get_req_amount(v, "price")?;
        let created_at = if v.get("CreatedAt").is_some() {
            get_text(v, "CreatedAt")?
        } else {
            get_text(v, "created_at")?
        };
        Ok(MaxPrice { id, product, price, created_at })
    }
}

/// One SMS of a rented number's inbox.
#[derive(Clone, Debug, PartialEq)]
pub struct InboxSms {
    pub id: u64,
    pub created_at: String,
    pub date: String,
    pub sender: String,
    pub text: String,
    pub code: String,
    pub is_wave: bool,
    pub wave_uuid: String,
}

/// What an [`InboxSms`] denotes.
pub struct InboxSmsView {
    pub id: u64,
    pub created_at: Seq<char>,
    pub date: Seq<char>,
    pub sender: Seq<char>,
    pub text: Seq<char>,
    pub code: Seq<char>,
    pub is_wave: bool,
    pub wave_uuid: Seq<char>,
}

impl View for InboxSms {
    type V = InboxSmsView;

    open spec fn view(&self) -> InboxSmsView {
        InboxSmsView {
            id: self.id,
            created_at: self.created_at@,
            date: self.date@,
            sender: self.sender@,
            text: self.text@,
            code: self.code@,
            is_wave: self.is_wave,
            wave_uuid: self.wave_uuid@,
        }
    }
}

impl Record for InboxSms {
    open spec fn read(v: JsonView) -> Option<InboxSmsView> {
        if !(v is Object) {
            None
        } else {
            match (
                req_u64(v, "ID"@),
                text_or_empty(v, "created_at"@),
                text_or_empty(v, "date"@),
                text_or_empty(v, "sender"@),
                text_or_empty(v, "text"@),
                text_or_empty(v, "code"@),
                bool_or_false(v, "is_wave"@),
                text_or_empty(v, "wave_uuid"@),
            ) {
                (Some(id), Some(created_at), Some(date), Some(sender), Some(text), Some(code), Some(is_wave), Some(wave_uuid)) => Some(
                    InboxSmsView { id, created_at, date, sender, text, code, is_wave, wave_uuid },
                ),
                _ => None,
            }
        }
    }

    fn from_json(v: &Json) -> (r: ApiResult<InboxSms>) {
        if !matches!(v, Json::Object(_)) {
            return Err(bad_member_error("inbox sms"));
        }
        let id = get_req_u64(v, "ID")?;
        let created_at = get_text(v, "created_at")?;
        let date = get_text(v, "date")?;
        let sender = get_text(v, "sender")?;
        let text = get_text(v, "text")?;
        let code = get_text(v, "code")?;
        let is_wave = get_bool(v, "is_wave")?;
        let wave_uuid = get_text(v, "wave_uuid")?;
        Ok(InboxSms { id, created_at, date, sender, text, code, is_wave, wave_uuid })
    }
}

/// The SMS list of a rented number.
#[derive(Clone, Debug, PartialEq)]
pub struct SmsInbox {
    pub data: Vec<InboxSms>,
    pub total: u64,
}

impl View for SmsInbox {
    type V = (Seq<InboxSmsView>, u64);

    open spec fn view(&self) -> (Seq<InboxSmsView>, u64) {
        (crate::error::seq_views(self.data@), self.total)
    }
}

impl Record for SmsInbox {
    open spec fn read(v: JsonView) -> Option<(Seq<InboxSmsView>, u64)> {
        if !(v is Object) {
            None
        } else {
            match (list_member::<InboxSms>(v, "Data"@), u64_or_zero(v, "Total"@)) {
                (Some(a), Some(b)) => Some((a, b)),
                _ => None,
            }
        }
    }

    fn from_json(v: &Json) -> (r: ApiResult<SmsInbox>) {
        if !matches!(v, Json::Object(_)) {
            return Err(bad_member_error("inbox"));
        }
        let data = get_list::<InboxSms>(v, "Data")?;
        let total = get_u64(v, "Total")?;
        Ok(SmsInbox { data, total })
    }
}

/// The default country of a profile.
#[derive(Clone, Debug, Default, PartialEq, Eq)]
pub struct DefaultCountry {
    pub name: String,
    pub iso: String,
    pub prefix: String,
}

impl View for DefaultCountry {
    type V = (Seq<char>, Seq<char>, Seq<char>);

    open spec fn view(&self) -> (Seq<char>, Seq<char>, Seq<char>) {
        (self.name@, self.iso@, self.prefix@)
    }
}

impl Record for DefaultCountry {
    open spec fn read(v: JsonView) -> Option<(Seq<char>, Seq<char>, Seq<char>)> {
        if !(v is Object) {
            None
        } else {
            match (text_or_empty(v, "name"@), text_or_empty(v, "iso"@), text_or_empty(v, "prefix"@)) {
                (Some(a), Some(b), Some(c)) => Some((a, b, c)),
                _ => None,
            }
        }
    }

    fn from_json(v: &Json) -> (r: ApiResult<DefaultCountry>) {
        if !matches!(v, Json::Object(_)) {
            return Err(bad_member_error("default_country"));
        }
        let name = get_text(v, "name")?;
        let iso = get_text(v, "iso")?;
        let prefix = get_text(v, "prefix")?;
        Ok(DefaultCountry { name, iso, prefix })
    }
}

/// The default operator of a profile.
#[derive(Clone, Debug, Default, PartialEq, Eq)]
pub struct DefaultOperator {
    pub name: String,
}

impl View for DefaultOperator {
    type V = Seq<char>;

    open spec fn view(&self) -> Seq<char> {
        self.name@
    }
}

impl Record for DefaultOperator {
    open spec fn read(v: JsonView) -> Option<Seq<char>> {
        if !(v is Object) {
            None
        } else {
            text_or_empty(v, "name"@)
        }
    }

    fn from_json(v: &Json) -> (r: ApiResult<DefaultOperator>) {
        if !matches!(v, Json::Object(_)) {
            return Err(bad_member_error("default_operator"));
        }
        let name = get_text(v, "name")?;
        Ok(DefaultOperator { name })
    }
}

/// The account profile: balance, rating, defaults and the undocumented order counters (which
/// are therefore optional).
#[derive(Clone, Debug, PartialEq)]
pub struct Profile {
    pub id: u64,
    pub email: String,
    pub vendor: Option<String>,
    pub default_forwarding_number: Option<String>,
    /// USD.
    pub balance: Amount,
    pub rating: Amount,
    pub default_country: DefaultCountry,
    pub default_operator: DefaultOperator,
    pub frozen_balance: Amount,
    pub total_active_orders: Option<u64>,
    /// `country:product:operator:qty:price` of the most recent order.
    pub last_order: Option<String>,
    pub last_top_idx: Option<u64>,
    pub last_top_orders: Option<String>,
    pub did_order: Option<bool>,
    pub is_totp: Option<bool>,
}

/// What a [`Profile`] denotes.
pub struct ProfileView {
    pub id: u64,
    pub email: Seq<char>,
    pub vendor: Option<Seq<char>>,
    pub default_forwarding_number: Option<Seq<char>>,
    pub balance: int,
    pub rating: int,
    pub default_country: (Seq<char>, Seq<char>, Seq<char>),
    pub default_operator: Seq<char>,
    pub frozen_balance: int,
    pub total_active_orders: Option<u64>,
    pub last_order: Option<Seq<char>>,
    pub last_top_idx: Option<u64>,
    pub last_top_orders: Option<Seq<char>>,
    pub did_order: Option<bool>,
    pub is_totp: Option<bool>,
}

impl View for Profile {
    type V = ProfileView;

    open spec fn view(&self) -> ProfileView {
        ProfileView {
            id: self.id,
            email: self.email@,
            vendor: opt_text(self.vendor),
            default_forwarding_number: opt_text(self.default_forwarding_number),
            balance: self.balance.units as int,
            rating: self.rating.units as int,
            default_country: self.default_country@,
            default_operator: self.default_operator@,
            frozen_balance: self.frozen_balance.units as int,
            total_active_orders: self.total_active_orders,
            last_order: opt_text(self.last_order),
            last_top_idx: self.last_top_idx,
            last_top_orders: opt_text(self.last_top_orders),
            did_order: self.did_order,
            is_totp: self.is_totp,
        }
    }
}

/// A member that defaults to `dflt` when absent and is read by `T` otherwise.
pub open spec fn record_or<T: Record>(v: JsonView, k: Seq<char>, dflt: T::V) -> Option<T::V> {
    match jget(v, k) {
        None => Some(dflt),
        Some(x) => T::read(x),
    }
}

fn get_record_or<T: Record>(v: &Json, k: &str, dflt: T) -> (r: ApiResult<T>)
    ensures
        match record_or::<T>(v@, k@, dflt@) {
            Some(x) => r matches Ok(y) && y@ == x,
            None => r matches Err(e) && e@ is Parse,
        },
{
    match v.get(k) {
        None => Ok(dflt),
        Some(x) => T::from_json(x),
    }
}

impl Record for Profile {
    open spec fn read(v: JsonView) -> Option<ProfileView> {
        if !(v is Object) {
            None
        } else {
            match (
                req_u64(v, "id"@),
                text_or_empty(v, "email"@),
                opt_text_member(v, "vendor"@),
                opt_text_member(v, "default_forwarding_number"@),
                req_amount(v, "balance"@),
                amount_or_zero(v, "rating"@),
                record_or::<DefaultCountry>(v, "default_country"@, (Seq::empty(), Seq::empty(), Seq::empty())),
                record_or::<DefaultOperator>(v, "default_operator"@, Seq::empty()),
            ) {
                (Some(id), Some(email), Some(vendor), Some(default_forwarding_number), Some(balance), Some(rating), Some(default_country), Some(default_operator)) => match (
                    amount_or_zero(v, "frozen_balance"@),
                    opt_u64_member(v, "total_active_orders"@),
                    opt_text_member(v, "last_order"@),
                    opt_u64_member(v, "last_top_idx"@),
                    opt_text_member(v, "last_top_orders"@),
                    opt_bool_member(v, "did_order"@),
                    opt_bool_member(v, "is_totp"@),
                ) {
                    (Some(frozen_balance), Some(total_active_orders), Some(last_order), Some(last_top_idx), Some(last_top_orders), Some(did_order), Some(is_totp)) => Some(
                        ProfileView {
                            id,
                            email,
                            vendor,
                            default_forwarding_number,
                            balance,
                            rating,
                            default_country,
                            default_operator,
                            frozen_balance,
                            total_active_orders,
                            last_order,
                            last_top_idx,
                            last_top_orders,
                            did_order,
                            is_totp,
                        },
                    ),
                    _ => None,
                },
                _ => None,
            }
        }
    }

    fn from_json(v: &Json) -> (r: ApiResult<Profile>) {
        if !matches!(v, Json::Object(_)) {
            return Err(bad_member_error("profile"));
        }
        let id = get_req_u64(v, "id")?;
        let email = get_text(v, "email")?;
        let vendor = get_opt_text(v, "vendor")?;
        let default_forwarding_number = get_opt_text(v, "default_forwarding_number")?;
        let balance = get_req_amount(v, "balance")?;
        let rating = get_amount(v, "rating")?;
        let dc = DefaultCountry { name: String::new(), iso: String::new(), prefix: String::new() };
        assert(dc@ == (Seq::<char>::empty(), Seq::<char>::empty(), Seq::<char>::empty()));
        let default_country = get_record_or(v, "default_country", dc)?;
        let dop = DefaultOperator { name: String::new() };
        assert(dop@ == Seq::<char>::empty());
        let default_operator = get_record_or(v, "default_operator", dop)?;
        let frozen_balance = get_amount(v, "frozen_balance")?;
        let total_active_orders = get_opt_u64(v, "total_active_orders")?;
        let last_order = get_opt_text(v, "last_order")?;
        let last_top_idx = get_opt_u64(v, "last_top_idx")?;
        let last_top_orders = get_opt_text(v, "last_top_orders")?;
        let did_order = get_opt_bool(v, "did_order")?;
        let is_totp = get_opt_bool(v, "is_totp")?;
        Ok(Profile {
            id,
            email,
            vendor,
            default_forwarding_number,
            balance,
            rating,
            default_country,
            default_operator,
            frozen_balance,
            total_active_orders,
            last_order,
            last_top_idx,
            last_top_orders,
            did_order,
            is_totp,
        })
    }
}

/// Reads a record of type `T` from a response body.
pub fn parse_record<T: Record>(body: &str) -> (r: ApiResult<T>)
    ensures
        record_read::<T>(body@, r),
{
    let t = crate::error::text(&crate::text::trim_str(body));
    let v = crate::json::parse_json(t.as_str())?;
    T::from_json(&v)
}

/// Reads a list of `T` records from a response body.
pub fn parse_record_list<T: Record>(body: &str) -> (r: ApiResult<Vec<T>>)
    ensures
        record_list_read::<T>(body@, r),
{
    let t = crate::error::text(&crate::text::trim_str(body));
    let v = crate::json::parse_json(t.as_str())?;
    match &v {
        Json::Array(a) => {
            proof {
                crate::json::lemma_array_view(*a);
            }
            record_list::<T>(Some(a))
        },
        _ => Err(bad_member_error("list")),
    }
}

} // verus!
