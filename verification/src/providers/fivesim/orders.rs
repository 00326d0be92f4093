//! 5SIM orders: their statuses, their SMS, and how an order maps onto the trait-level
//! activation, status and active-activation row.

use vstd::prelude::*;
use crate::amount::Amount;
use crate::error::{ApiError, ApiResult, ErrorView, owned};
use crate::json::{Json, JsonView, jget, views};
use crate::providers::fivesim::fields::{
    amount_or_zero, bad_member_error, get_amount, get_items, get_opt_bool, get_opt_text, get_opt_u64, get_req_text,
    get_req_u64, get_text, items_or_empty, opt_bool_member, opt_text_member, opt_u64_member, req_text, req_u64,
    text_or_empty,
};
use crate::providers::tiger_sms::lex_le;
use crate::text::{chars_of, trim, trim_chars};
use crate::types::{
    ActivationId, ActivationStatus, ActivationView, ActiveView, CountryKey, CountryRef, ServiceCode,
    StatusView, copy_string, opt_text,
};

verus! {

/// 5SIM order status. Unknown texts land in `Other` so a new status cannot break parsing.
#[derive(Clone, Debug, PartialEq, Eq)]
pub enum OrderStatus {
    /// `PENDING` — "Preparation". No SMS yet.
    Pending,
    /// `RECEIVED` — the number is allocated and collecting SMS; `sms` may still be empty.
    Received,
    Canceled,
    /// No SMS within the allowed time (terminal).
    Timeout,
    /// Completed by the client or automatically after the code window (terminal).
    Finished,
    /// Reported as already used; refunded and blacklisted.
    Banned,
    Other(String),
}

/// What an [`OrderStatus`] denotes.
pub enum OrderStatusView {
    Pending,
    Received,
    Canceled,
    Timeout,
    Finished,
    Banned,
    Other(Seq<char>),
}

impl View for OrderStatus {
    type V = OrderStatusView;

    open spec fn view(&self) -> OrderStatusView {
        match self {
            OrderStatus::Pending => OrderStatusView::Pending,
            OrderStatus::Received => OrderStatusView::Received,
            OrderStatus::Canceled => OrderStatusView::Canceled,
            OrderStatus::Timeout => OrderStatusView::Timeout,
            OrderStatus::Finished => OrderStatusView::Finished,
            OrderStatus::Banned => OrderStatusView::Banned,
            OrderStatus::Other(s) => OrderStatusView::Other(s@),
        }
    }
}

/// The status a 5SIM spelling denotes.
pub open spec fn status_of_text(s: Seq<char>) -> OrderStatusView {
    if s == "PENDING"@ {
        OrderStatusView::Pending
    } else if s == "RECEIVED"@ {
        OrderStatusView::Received
    } else if s == "CANCELED"@ {
        OrderStatusView::Canceled
    } else if s == "TIMEOUT"@ {
        OrderStatusView::Timeout
    } else if s == "FINISHED"@ {
        OrderStatusView::Finished
    } else if s == "BANNED"@ {
        OrderStatusView::Banned
    } else {
        OrderStatusView::Other(s)
    }
}

/// The 5SIM spelling of a status.
pub open spec fn status_text(s: OrderStatusView) -> Seq<char> {
    match s {
        OrderStatusView::Pending => "PENDING"@,
        OrderStatusView::Received => "RECEIVED"@,
        OrderStatusView::Canceled => "CANCELED"@,
        OrderStatusView::Timeout => "TIMEOUT"@,
        OrderStatusView::Finished => "FINISHED"@,
        OrderStatusView::Banned => "BANNED"@,
        OrderStatusView::Other(t) => t,
    }
}

impl OrderStatus {
    /// The status a 5SIM spelling denotes (`PENDING` …; anything else is `Other`).
    pub fn from_text(s: &str) -> (r: Self)
        ensures
            r@ == status_of_text(s@),
    {
        let c = chars_of(s);
        if crate::text::eq_str(&c, "PENDING") {
            OrderStatus::Pending
        } else if crate::text::eq_str(&c, "RECEIVED") {
            OrderStatus::Received
        } else if crate::text::eq_str(&c, "CANCELED") {
            OrderStatus::Canceled
        } else if crate::text::eq_str(&c, "TIMEOUT") {
            OrderStatus::Timeout
        } else if crate::text::eq_str(&c, "FINISHED") {
            OrderStatus::Finished
        } else if crate::text::eq_str(&c, "BANNED") {
            OrderStatus::Banned
        } else {
            OrderStatus::Other(owned(s))
        }
    }

    /// The 5SIM spelling (`PENDING` …).
    pub fn as_str(&self) -> (r: &str)
        ensures
            r@ == status_text(self@),
    {
        match self {
            OrderStatus::Pending => "PENDING",
            OrderStatus::Received => "RECEIVED",
            OrderStatus::Canceled => "CANCELED",
            OrderStatus::Timeout => "TIMEOUT",
            OrderStatus::Finished => "FINISHED",
            OrderStatus::Banned => "BANNED",
            OrderStatus::Other(s) => s.as_str(),
        }
    }

    /// `PENDING` or `RECEIVED` — the order can still receive SMS.
    pub fn is_active(&self) -> (r: bool)
        ensures
            r == (self@ is Pending || self@ is Received),
    {
        match self {
            OrderStatus::Pending | OrderStatus::Received => true,
            _ => false,
        }
    }
}

impl From<String> for OrderStatus {
    fn from(s: String) -> (r: Self)
        ensures
            r@ == status_of_text(s@),
    {
        OrderStatus::from_text(s.as_str())
    }
}

impl vstd::std_specs::convert::FromSpecImpl<String> for OrderStatus {
    /// Two `String`s with the same text are not known to be one value here, so `from` is
    /// described by its own `ensures` (`status_of_text`) rather than through `from_spec`.
    open spec fn obeys_from_spec() -> bool {
        false
    }

    /// A status whose view is what the spelling denotes.
    open spec fn from_spec(v: String) -> OrderStatus {
        choose|o: OrderStatus| o@ == status_of_text(v@)
    }
}

/// One SMS on an order. Hosting orders also carry an `id`.
#[derive(Clone, Debug, Default, PartialEq)]
pub struct Sms {
    pub id: Option<u64>,
    /// When 5SIM stored it (RFC 3339).
    pub created_at: String,
    /// When the SMS was received.
    pub date: String,
    pub sender: String,
    pub text: String,
    /// The extracted code; may be empty when 5SIM found none in `text`.
    pub code: String,
}

/// What an [`Sms`] denotes.
pub struct SmsView {
    pub id: Option<u64>,
    pub created_at: Seq<char>,
    pub date: Seq<char>,
    pub sender: Seq<char>,
    pub text: Seq<char>,
    pub code: Seq<char>,
}

impl View for Sms {
    type V = SmsView;

    open spec fn view(&self) -> SmsView {
        SmsView {
            id: self.id,
            created_at: self.created_at@,
            date: self.date@,
            sender: self.sender@,
            text: self.text@,
            code: self.code@,
        }
    }
}

/// `code`, or `text` when no code was extracted (both trimmed); `None` when both are blank.
pub open spec fn code_or_text_of(s: SmsView) -> Option<Seq<char>> {
    if trim(s.code).len() > 0 {
        Some(trim(s.code))
    } else if trim(s.text).len() > 0 {
        Some(trim(s.text))
    } else {
        None
    }
}

impl Sms {
    /// `code`, or `text` when no code was extracted; `None` when both are empty.
    pub fn code_or_text(&self) -> (r: Option<String>)
        ensures
            opt_text(r) == code_or_text_of(self@),
    {
        let c = trim_chars(&chars_of(self.code.as_str()));
        if c.len() > 0 {
            return Some(crate::error::text(&c));
        }
        let t = trim_chars(&chars_of(self.text.as_str()));
        if t.len() > 0 {
            return Some(crate::error::text(&t));
        }
        None
    }
}

/// An SMS record.
pub open spec fn sms_of(v: JsonView) -> Option<SmsView> {
    if !(v is Object) {
        None
    } else {
        match (
            opt_u64_member(v, "id"@),
            text_or_empty(v, "created_at"@),
            text_or_empty(v, "date"@),
            text_or_empty(v, "sender"@),
            text_or_empty(v, "text"@),
            text_or_empty(v, "code"@),
        ) {
            (Some(id), Some(created_at), Some(date), Some(sender), Some(text), Some(code)) => Some(
                SmsView { id, created_at, date, sender, text, code },
            ),
            _ => None,
        }
    }
}

pub fn sms_from_json(v: &Json) -> (r: ApiResult<Sms>)
    ensures
        match sms_of(v@) {
            Some(s) => r matches Ok(x) && x@ == s,
            None => r matches Err(e) && e@ is Parse,
        },
{
    if !matches!(v, Json::Object(_)) {
        return Err(bad_member_error("sms"));
    }
    let id = get_opt_u64(v, "id")?;
    let created_at = get_text(v, "created_at")?;
    let date = get_text(v, "date")?;
    let sender = get_text(v, "sender")?;
    let text = get_text(v, "text")?;
    let code = get_text(v, "code")?;
    Ok(Sms { id, created_at, date, sender, text, code })
}

/// A list of records read by `item`; the first failure fails the list.
pub open spec fn records<T>(items: Seq<JsonView>, item: spec_fn(JsonView) -> Option<T>) -> Option<Seq<T>>
    decreases items.len(),
{
    if items.len() == 0 {
        Some(Seq::empty())
    } else {
        match (records(items.drop_last(), item), item(items.last())) {
            (Some(r), Some(x)) => Some(r.push(x)),
            _ => None,
        }
    }
}

pub proof fn lemma_records_fail<T>(items: Seq<JsonView>, item: spec_fn(JsonView) -> Option<T>, k: int)
    requires
        0 <= k <= items.len(),
        records(items.take(k), item) is None,
    ensures
        records(items, item) is None,
    decreases items.len() - k,
{
    if k < items.len() {
        assert(items.take(k + 1).drop_last() =~= items.take(k));
        lemma_records_fail(items, item, k + 1);
    } else {
        assert(items.take(k) =~= items);
    }
}

/// An order as returned by buy / check / finish / cancel / ban / reuse and listed by the order
/// history. `operator`, `forwarding*` and `country` are absent on some endpoints.
#[derive(Clone, Debug, PartialEq)]
pub struct Order {
    pub id: u64,
    pub phone: String,
    pub operator: Option<String>,
    pub product: String,
    pub price: Amount,
    pub status: OrderStatus,
    pub expires: String,
    /// Every SMS received so far (`null` on a fresh order reads as none).
    pub sms: Vec<Sms>,
    pub created_at: String,
    pub forwarding: Option<bool>,
    pub forwarding_number: Option<String>,
    pub country: Option<String>,
}

/// What an [`Order`] denotes.
pub struct OrderView {
    pub id: u64,
    pub phone: Seq<char>,
    pub operator: Option<Seq<char>>,
    pub product: Seq<char>,
    pub price: int,
    pub status: OrderStatusView,
    pub expires: Seq<char>,
    pub sms: Seq<SmsView>,
    pub created_at: Seq<char>,
    pub forwarding: Option<bool>,
    pub forwarding_number: Option<Seq<char>>,
    pub country: Option<Seq<char>>,
}

impl View for Order {
    type V = OrderView;

    open spec fn view(&self) -> OrderView {
        OrderView {
            id: self.id,
            phone: self.phone@,
            operator: opt_text(self.operator),
            product: self.product@,
            price: self.price.units as int,
            status: self.status@,
            expires: self.expires@,
            sms: crate::error::seq_views(self.sms@),
            created_at: self.created_at@,
            forwarding: self.forwarding,
            forwarding_number: opt_text(self.forwarding_number),
            country: opt_text(self.country),
        }
    }
}

/// An order record: `id` and `status` are required, the rest default.
pub open spec fn order_of(v: JsonView) -> Option<OrderView> {
    if !(v is Object) {
        None
    } else {
        match (
            req_u64(v, "id"@),
            text_or_empty(v, "phone"@),
            opt_text_member(v, "operator"@),
            text_or_empty(v, "product"@),
            amount_or_zero(v, "price"@),
            req_text(v, "status"@),
            text_or_empty(v, "expires"@),
        ) {
            (Some(id), Some(phone), Some(operator), Some(product), Some(price), Some(status), Some(expires)) => match (
                items_or_empty(v, "sms"@),
                text_or_empty(v, "created_at"@),
                opt_bool_member(v, "forwarding"@),
                opt_text_member(v, "forwarding_number"@),
                opt_text_member(v, "country"@),
            ) {
                (Some(items), Some(created_at), Some(forwarding), Some(forwarding_number), Some(country)) => match records(
                    items,
                    |x: JsonView| sms_of(x),
                ) {
                    Some(sms) => Some(
                        OrderView {
                            id,
                            phone,
                            operator,
                            product,
                            price,
                            status: status_of_text(status),
                            expires,
                            sms,
                            created_at,
                            forwarding,
                            forwarding_number,
                            country,
                        },
                    ),
                    None => None,
                },
                _ => None,
            },
            _ => None,
        }
    }
}

fn sms_list(items: Option<&Vec<Json>>) -> (r: ApiResult<Vec<Sms>>)
    ensures
        ({
            let s = match items {
                Some(a) => views(a@),
                None => Seq::empty(),
            };
            match records(s, |x: JsonView| sms_of(x)) {
                Some(l) => r matches Ok(x) && crate::error::seq_views(x@) == l,
                None => r matches Err(e) && e@ is Parse,
            }
        }),
{
    let ghost item = |x: JsonView| sms_of(x);
    let mut out: Vec<Sms> = Vec::new();
    let a = match items {
        Some(a) => a,
        None => {
            assert(crate::error::seq_views(out@) =~= Seq::<SmsView>::empty());
            return Ok(out);
        },
    };
    let ghost s = views(a@);
    let mut i: usize = 0;
    assert(s.take(0) =~= Seq::<JsonView>::empty());
    assert(crate::error::seq_views(out@) =~= Seq::<SmsView>::empty());
    while i < a.len()
        invariant
            i <= a@.len(),
            s == views(a@),
            item == (|x: JsonView| sms_of(x)),
            items == Some(a),
            records(s.take(i as int), item) == Some(crate::error::seq_views(out@)),
        decreases a.len() - i,
    {
        proof {
            assert(s.take(i + 1).drop_last() =~= s.take(i as int));
            assert(s.take(i + 1).last() == a@[i as int]@);
        }
        let x = match sms_from_json(&a[i]) {
            Ok(x) => x,
            Err(e) => {
                proof {
                    assert(item(s.take(i + 1).last()) is None);
                    assert(records(s.take(i + 1), item) is None);
                    lemma_records_fail(s, item, i + 1);
                }
                return Err(e);
            },
        };
        let ghost before = crate::error::seq_views(out@);
        out.push(x);
        assert(crate::error::seq_views(out@) =~= before.push(x@));
        i = i + 1;
    }
    assert(s.take(i as int) =~= s);
    Ok(out)
}

/// Reads an order record (see [`order_of`]).
pub fn order_from_json(v: &Json) -> (r: ApiResult<Order>)
    ensures
        match order_of(v@) {
            Some(o) => r matches Ok(x) && x@ == o,
            None => r matches Err(e) && e@ is Parse,
        },
{
    if !matches!(v, Json::Object(_)) {
        return Err(bad_member_error("order"));
    }
    let id = get_req_u64(v, "id")?;
    let phone = get_text(v, "phone")?;
    let operator = get_opt_text(v, "operator")?;
    let product = get_text(v, "product")?;
    let price = get_amount(v, "price")?;
    let status = get_req_text(v, "status")?;
    let expires = get_text(v, "expires")?;
    let items = get_items(v, "sms")?;
    let created_at = get_text(v, "created_at")?;
    let forwarding = get_opt_bool(v, "forwarding")?;
    let forwarding_number = get_opt_text(v, "forwarding_number")?;
    let country = get_opt_text(v, "country")?;
    let sms = sms_list(items)?;
    Ok(Order {
        id,
        phone,
        operator,
        product,
        price,
        status: OrderStatus::from_text(status.as_str()),
        expires,
        sms,
        created_at,
        forwarding,
        forwarding_number,
        country,
    })
}

/// The index of the most recently created SMS that `keep` accepts: the greatest `created_at`
/// (compared as text), the later position on equal timestamps.
pub open spec fn newest(s: Seq<SmsView>, keep: spec_fn(SmsView) -> bool) -> Option<int>
    decreases s.len(),
{
    if s.len() == 0 {
        None
    } else {
        let i = s.len() - 1;
        match newest(s.drop_last(), keep) {
            None => if keep(s[i]) {
                Some(i)
            } else {
                None
            },
            Some(j) => if keep(s[i]) && lex_le(s[j].created_at, s[i].created_at) {
                Some(i)
            } else {
                Some(j)
            },
        }
    }
}

/// Any SMS.
pub open spec fn any_sms(s: SmsView) -> bool {
    true
}

/// An SMS with a non-blank code.
pub open spec fn has_code(s: SmsView) -> bool {
    trim(s.code).len() > 0
}

/// An SMS with a non-blank text.
pub open spec fn has_text(s: SmsView) -> bool {
    trim(s.text).len() > 0
}

/// The SMS whose code is reported: the newest with a code, else the newest with a text.
pub open spec fn coded_index(s: Seq<SmsView>) -> Option<int> {
    match newest(s, |x: SmsView| has_code(x)) {
        Some(i) => Some(i),
        None => newest(s, |x: SmsView| has_text(x)),
    }
}

/// The code an order reports (see [`coded_index`] and [`code_or_text_of`]).
pub open spec fn latest_code_of(s: Seq<SmsView>) -> Option<Seq<char>> {
    match coded_index(s) {
        Some(i) => code_or_text_of(s[i]),
        None => None,
    }
}

/// The trait-level status of an order: `PENDING` waits, `RECEIVED` reports its code once there
/// is one, `CANCELED` / `BANNED` are cancelled, `TIMEOUT` expired, `FINISHED` finished with its
/// code; an unknown status is an error.
pub open spec fn order_status(o: OrderView) -> Result<StatusView, ErrorView> {
    match o.status {
        OrderStatusView::Pending => Ok(StatusView::WaitCode),
        OrderStatusView::Received => match latest_code_of(o.sms) {
            Some(code) => Ok(StatusView::Code(code)),
            None => Ok(StatusView::WaitCode),
        },
        OrderStatusView::Canceled => Ok(StatusView::Cancelled),
        OrderStatusView::Banned => Ok(StatusView::Cancelled),
        OrderStatusView::Timeout => Ok(StatusView::Expired),
        OrderStatusView::Finished => Ok(StatusView::Finished(latest_code_of(o.sms))),
        OrderStatusView::Other(s) => Err(ErrorView::Unexpected("unknown 5SIM order status `"@ + s + "`"@)),
    }
}

/// The country of an order: its own when non-empty, the requested one otherwise.
pub open spec fn order_country(o: OrderView, requested: Seq<char>) -> Seq<char> {
    match o.country {
        Some(c) => if c.len() > 0 {
            c
        } else {
            requested
        },
        None => requested,
    }
}

/// The activation an order stands for.
pub open spec fn activation_of(o: OrderView, requested: Seq<char>) -> ActivationView {
    ActivationView {
        id: crate::num::dec(o.id as nat),
        phone: o.phone,
        cost: Some(o.price),
        country: Some(CountryKey::Slug(order_country(o, requested))),
        can_get_another_sms: Some(true),
        activation_time: Some(o.created_at),
        operator: o.operator,
    }
}

/// A text kept when non-empty.
pub open spec fn non_empty(t: Seq<char>) -> Option<Seq<char>> {
    if t.len() > 0 {
        Some(t)
    } else {
        None
    }
}

/// The active-activation row an order stands for.
pub open spec fn active_of(o: OrderView) -> ActiveView {
    ActiveView {
        id: crate::num::dec(o.id as nat),
        service: Some(o.product),
        phone: Some(o.phone),
        cost: Some(o.price),
        status: Some(status_text(o.status)),
        sms_code: match coded_index(o.sms) {
            Some(i) => non_empty(trim(o.sms[i].code)),
            None => None,
        },
        sms_text: match coded_index(o.sms) {
            Some(i) => non_empty(trim(o.sms[i].text)),
            None => None,
        },
        activation_time: Some(o.created_at),
        country: match o.country {
            Some(c) => if c.len() > 0 {
                Some(CountryKey::Slug(c))
            } else {
                None
            },
            None => None,
        },
        can_get_another_sms: Some(true),
    }
}

fn text_le(a: &String, b: &String) -> (r: bool)
    ensures
        r == lex_le(a@, b@),
{
    let ac = chars_of(a.as_str());
    let bc = chars_of(b.as_str());
    crate::providers::tiger_sms::lex_le_exec(&ac, &bc)
}

fn is_blank(s: &String) -> (r: bool)
    ensures
        r == (trim(s@).len() == 0),
{
    let t = trim_chars(&chars_of(s.as_str()));
    t.len() == 0
}

impl Order {
    pub fn activation_id(&self) -> (r: ActivationId)
        ensures
            r@ == crate::num::dec(self.id as nat),
    {
        ActivationId::from_u64(self.id)
    }

    /// Index of the newest SMS that `mode` selects (0 any, 1 with a code, 2 with a text).
    fn newest_index(&self, mode: u8) -> (r: Option<usize>)
        requires
            mode <= 2,
        ensures
            ({
                let s = self@.sms;
                let found = if mode == 0 {
                    newest(s, |x: SmsView| any_sms(x))
                } else if mode == 1 {
                    newest(s, |x: SmsView| has_code(x))
                } else {
                    newest(s, |x: SmsView| has_text(x))
                };
                match r {
                    Some(i) => found == Some(i as int) && i < self.sms@.len(),
                    None => found is None,
                }
            }),
    {
        let ghost s = self@.sms;
        let ghost keep = if mode == 0 {
            |x: SmsView| any_sms(x)
        } else if mode == 1 {
            |x: SmsView| has_code(x)
        } else {
            |x: SmsView| has_text(x)
        };
        let mut best: Option<usize> = None;
        let mut i: usize = 0;
        assert(s.take(0) =~= Seq::<SmsView>::empty());
        while i < self.sms.len()
            invariant
                i <= self.sms@.len(),
                s == self@.sms,
                s.len() == self.sms@.len(),
                mode <= 2,
                keep == (if mode == 0 {
                    |x: SmsView| any_sms(x)
                } else if mode == 1 {
                    |x: SmsView| has_code(x)
                } else {
                    |x: SmsView| has_text(x)
                }),
                match best {
                    Some(b) => newest(s.take(i as int), keep) == Some(b as int) && b < i,
                    None => newest(s.take(i as int), keep) is None,
                },
            decreases self.sms.len() - i,
        {
            proof {
                assert(s.take(i + 1).drop_last() =~= s.take(i as int));
                assert(s.take(i + 1)[i as int] == s[i as int]);
                assert(s[i as int] == self.sms@[i as int]@);
            }
            let x = &self.sms[i];
            let kept = if mode == 0 {
                true
            } else if mode == 1 {
                !is_blank(&x.code)
            } else {
                !is_blank(&x.text)
            };
            assert(kept == keep(s[i as int]));
            match best {
                None => {
                    if kept {
                        best = Some(i);
                    }
                },
                Some(b) => {
                    proof {
                        assert(s.take(i + 1)[b as int] == s[b as int]);
                        assert(s[b as int] == self.sms@[b as int]@);
                    }
                    if kept && text_le(&self.sms[b].created_at, &x.created_at) {
                        best = Some(i);
                    }
                },
            }
            i = i + 1;
        }
        assert(s.take(i as int) =~= s);
        best
    }

    /// The most recently created SMS (the later position on equal timestamps).
    pub fn latest_sms(&self) -> (r: Option<&Sms>)
        ensures
            match newest(self@.sms, |x: SmsView| any_sms(x)) {
                Some(i) => r matches Some(m) && m@ == self@.sms[i],
                None => r is None,
            },
    {
        match self.newest_index(0) {
            Some(i) => Some(&self.sms[i]),
            None => None,
        }
    }

    /// The SMS whose code should be reported: the newest SMS with a non-blank `code`; when no
    /// SMS carries a code, the newest one with a non-blank `text` (a later code-less "welcome"
    /// message must not hide an earlier real code).
    pub fn latest_coded_sms(&self) -> (r: Option<&Sms>)
        ensures
            match coded_index(self@.sms) {
                Some(i) => r matches Some(m) && m@ == self@.sms[i],
                None => r is None,
            },
    {
        match self.newest_index(1) {
            Some(i) => Some(&self.sms[i]),
            None => match self.newest_index(2) {
                Some(i) => Some(&self.sms[i]),
                None => None,
            },
        }
    }

    /// Code of [`Order::latest_coded_sms`] (its text when no SMS has a code).
    pub fn latest_code(&self) -> (r: Option<String>)
        ensures
            opt_text(r) == latest_code_of(self@.sms),
    {
        match self.latest_coded_sms() {
            Some(s) => s.code_or_text(),
            None => None,
        }
    }

    /// The trait-level status (see [`order_status`]).
    pub fn activation_status(&self) -> (r: ApiResult<ActivationStatus>)
        ensures
            crate::error::res_view(r) == order_status(self@),
    {
        match &self.status {
            OrderStatus::Pending => Ok(ActivationStatus::WaitCode),
            OrderStatus::Received => match self.latest_code() {
                Some(code) => Ok(ActivationStatus::Code { code }),
                None => Ok(ActivationStatus::WaitCode),
            },
            OrderStatus::Canceled | OrderStatus::Banned => Ok(ActivationStatus::Cancelled),
            OrderStatus::Timeout => Ok(ActivationStatus::Expired),
            OrderStatus::Finished => Ok(ActivationStatus::Finished { code: self.latest_code() }),
            OrderStatus::Other(s) => {
                let mut m = String::new();
                crate::text::push_str(&mut m, "unknown 5SIM order status `");
                crate::text::push_str(&mut m, s.as_str());
                crate::text::push_str(&mut m, "`");
                Err(ApiError::Unexpected(m))
            },
        }
    }

    /// The activation this order stands for (see [`activation_of`]).
    pub fn into_activation(self, requested_country: &str) -> (r: crate::types::Activation)
        ensures
            r@ == activation_of(self@, requested_country@),
    {
        let country = match self.country {
            Some(c) => {
                let cc = chars_of(c.as_str());
                if cc.len() > 0 {
                    c
                } else {
                    owned(requested_country)
                }
            },
            None => owned(requested_country),
        };
        crate::types::Activation {
            id: ActivationId::from_u64(self.id),
            phone: self.phone,
            cost: Some(self.price),
            country: Some(CountryRef::Slug(country)),
            can_get_another_sms: Some(true),
            activation_time: Some(self.created_at),
            operator: self.operator,
        }
    }

    /// The active-activation row this order stands for (see [`active_of`]).
    pub fn into_active_activation(self) -> (r: crate::types::ActiveActivation)
        ensures
            r@ == active_of(self@),
    {
        let (sms_code, sms_text) = match self.latest_coded_sms() {
            Some(s) => {
                let c = trim_chars(&chars_of(s.code.as_str()));
                let t = trim_chars(&chars_of(s.text.as_str()));
                (
                    if c.len() > 0 { Some(crate::error::text(&c)) } else { None },
                    if t.len() > 0 { Some(crate::error::text(&t)) } else { None },
                )
            },
            None => (None, None),
        };
        let status = owned(self.status.as_str());
        let country = match self.country {
            Some(c) => {
                let cc = chars_of(c.as_str());
                if cc.len() > 0 {
                    Some(CountryRef::Slug(c))
                } else {
                    None
                }
            },
            None => None,
        };
        crate::types::ActiveActivation {
            id: ActivationId::from_u64(self.id),
            service: Some(ServiceCode(self.product)),
            phone: Some(self.phone),
            cost: Some(self.price),
            status: Some(status),
            sms_code,
            sms_text,
            activation_time: Some(self.created_at),
            country,
            can_get_another_sms: Some(true),
        }
    }
}

} // verus!
