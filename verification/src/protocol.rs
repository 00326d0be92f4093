//! Parsers for the standard sms-activate response shapes: the common denominator of
//! sms-activate itself, Hero-SMS and SMSBower. Providers that deviate override the relevant
//! [`crate::api::Dialect`] hook.

use vstd::prelude::*;
use crate::amount::{Amount, decimal_units, parse_decimal};
use crate::error::{
    ApiError, ApiResult, ErrorView, code_error, err_of, list_res, opt_err, owned, res_view,
    seq_views, text,
};
use crate::text::{
    chars_of, contains_chars, contains_seq, eq_str, lemma_trim_idempotent, slice_vec, split_once,
    split_once_chars, starts_with, starts_with_char, string_of, strip_prefix_chars, trim,
    trim_chars, trim_str,
};
use crate::json::{
    Json, JsonView, as_object, get_in, jget, json_of_text, member_views, oget, oview, parse_json,
    scalar_text, scalar_to_string, value_to_amount, value_to_bool, value_to_country,
    value_to_string, value_to_u64, vamount, vbool, vcountry, views, vstring, vu64,
};
use crate::transport::HttpResponse;
use crate::keymap::KeyMap;
use crate::num::{parse_u64, parse_u64_spec};
use crate::sorting::{kmap, lemma_kmap_sort, payloads, sort_by_key, sort_keyed, strip_keys};
use crate::types::{
    Activation, ActivationId, ActivationStatus, ActivationView, CountryKey, CountryRef, Price,
    PriceTable, Service, ServiceCode, StatusAck, StatusView, copy_string, country_key_of, opt_text,
    Country, CountryView, TopCountry, TopCountryView, ActiveActivation, ActiveView,
};
use crate::text::{ends_with, has_suffix};

verus! {

/// The protocol error carried by a body that is not JSON data: a bare error token.
pub open spec fn body_error(body: Seq<char>) -> Option<ErrorView> {
    let t = trim(body);
    if starts_with_char(t, '{') || starts_with_char(t, '[') {
        None
    } else {
        code_error(t)
    }
}

/// Standard classification of a response: HTTP 429, then any other non-2xx status, then an
/// error token in the body.
pub open spec fn standard_error(status: u16, body: Seq<char>) -> Option<ErrorView> {
    if status == 429 {
        Some(ErrorView::RateLimited(None))
    } else if !(200 <= status && status < 300) {
        Some(ErrorView::Http(status, trim(body)))
    } else {
        body_error(body)
    }
}

/// Detects a plain-text error token in a response body (`NO_ACTIVATION`, `BAD_KEY`, …).
pub fn error_from_body(body: &str) -> (r: Option<ApiError>)
    ensures
        opt_err(r) == body_error(body@),
{
    let t = trim_str(body);
    if t.len() > 0 && (t[0] == '{' || t[0] == '[') {
        return None;
    }
    proof {
        lemma_trim_idempotent(body@);
    }
    ApiError::from_code_chars(&t)
}

/// Standard classification: non-2xx is an HTTP error, a 2xx whose body is a bare error token is
/// a protocol error, anything else is data for the action-specific parser.
pub fn classify_standard(resp: &HttpResponse) -> (r: ApiResult<()>)
    ensures
        err_of(r) == standard_error(resp.status, resp.body@),
{
    if resp.status == 429 {
        return Err(ApiError::RateLimited { retry_after: None });
    }
    if !(200 <= resp.status && resp.status < 300) {
        let t = trim_str(resp.body.as_str());
        return Err(ApiError::Http { status: resp.status, body: text(&t) });
    }
    match error_from_body(resp.body.as_str()) {
        Some(e) => Err(e),
        None => Ok(()),
    }
}

/// `ACCESS_BALANCE:12.5085` → the balance in 10⁻¹⁸ units.
pub open spec fn balance_of(body: Seq<char>) -> Result<int, ErrorView> {
    let t = trim(body);
    if starts_with(t, "ACCESS_BALANCE:"@) {
        match decimal_units(trim(t.skip("ACCESS_BALANCE:"@.len() as int))) {
            Some(u) => Ok(u),
            None => Err(ErrorView::Unexpected(t)),
        }
    } else {
        Err(ErrorView::Unexpected(t))
    }
}

/// What [`parse_balance`] makes of an answer text.
pub open spec fn balance_answer(body: Seq<char>, r: ApiResult<Amount>) -> bool {
    (match r {
        Ok(a) => balance_of(body) == Ok::<int, ErrorView>(a.units as int),
        Err(e) => balance_of(body) == Err::<int, ErrorView>(e@),
    })
}

/// `ACCESS_BALANCE:12.5085`
pub fn parse_balance(body: &str) -> (r: ApiResult<Amount>)
    ensures
        match r {
            Ok(a) => balance_of(body@) == Ok::<int, ErrorView>(a.units as int),
            Err(e) => balance_of(body@) == Err::<int, ErrorView>(e@),
        },
{
    let t = trim_str(body);
    match strip_prefix_chars(&t, "ACCESS_BALANCE:") {
        Some(rest) => {
            let v = trim_chars(&rest);
            match parse_decimal(&v) {
                Some(a) => Ok(a),
                None => Err(ApiError::Unexpected(text(&t))),
            }
        },
        None => Err(ApiError::Unexpected(text(&t))),
    }
}

/// `ACCESS_NUMBER:<id>:<phone>` → the id and the phone number.
pub open spec fn access_number_of(body: Seq<char>) -> Result<(Seq<char>, Seq<char>), ErrorView> {
    let t = trim(body);
    if !starts_with(t, "ACCESS_NUMBER:"@) {
        Err(ErrorView::Unexpected(t))
    } else {
        match split_once(t.skip("ACCESS_NUMBER:"@.len() as int), ':') {
            None => Err(ErrorView::Unexpected(t)),
            Some((id, phone)) => if id.len() == 0 || phone.len() == 0 {
                Err(ErrorView::Unexpected(t))
            } else {
                Ok((trim(id), trim(phone)))
            },
        }
    }
}

/// An activation that carries only an id and a phone number.
pub open spec fn bare_activation(id: Seq<char>, phone: Seq<char>) -> ActivationView {
    ActivationView {
        id,
        phone,
        cost: None,
        country: None,
        can_get_another_sms: None,
        activation_time: None,
        operator: None,
    }
}

/// What [`parse_access_number`] makes of an answer text.
pub open spec fn access_number_answer(body: Seq<char>, r: ApiResult<Activation>) -> bool {
    (match r {
        Ok(a) => access_number_of(body) matches Ok((id, phone)) && a@ == bare_activation(id, phone),
        Err(e) => access_number_of(body) == Err::<(Seq<char>, Seq<char>), ErrorView>(e@),
    })
}

/// `ACCESS_NUMBER:<id>:<phone>`
pub fn parse_access_number(body: &str) -> (r: ApiResult<Activation>)
    ensures
        match r {
            Ok(a) => access_number_of(body@) matches Ok((id, phone)) && a@ == bare_activation(id, phone),
            Err(e) => access_number_of(body@) == Err::<(Seq<char>, Seq<char>), ErrorView>(e@),
        },
{
    let t = trim_str(body);
    let rest = match strip_prefix_chars(&t, "ACCESS_NUMBER:") {
        Some(rest) => rest,
        None => {
            return Err(ApiError::Unexpected(text(&t)));
        },
    };
    let (id, phone) = match split_once_chars(&rest, ':') {
        Some(p) => p,
        None => {
            return Err(ApiError::Unexpected(text(&t)));
        },
    };
    if id.len() == 0 || phone.len() == 0 {
        return Err(ApiError::Unexpected(text(&t)));
    }
    let id_t = trim_chars(&id);
    let phone_t = trim_chars(&phone);
    Ok(Activation::new(ActivationId(text(&id_t)), text(&phone_t)))
}

/// The head of a `HEAD:tail` answer and its trimmed tail (empty without a `:`).
pub open spec fn head_tail(t: Seq<char>) -> (Seq<char>, Seq<char>) {
    match split_once(t, ':') {
        Some((h, x)) => (h, trim(x)),
        None => (t, Seq::empty()),
    }
}

/// `STATUS_WAIT_CODE` | `STATUS_WAIT_RETRY:<last>` | `STATUS_WAIT_RESEND` | `STATUS_CANCEL` |
/// `STATUS_OK:<code>`.
pub open spec fn status_of(body: Seq<char>) -> Result<StatusView, ErrorView> {
    let t = trim(body);
    let (head, tail) = head_tail(t);
    if head == "STATUS_WAIT_CODE"@ {
        Ok(StatusView::WaitCode)
    } else if head == "STATUS_WAIT_RETRY"@ {
        Ok(StatusView::WaitRetry(tail))
    } else if head == "STATUS_WAIT_RESEND"@ {
        Ok(StatusView::WaitResend)
    } else if head == "STATUS_CANCEL"@ {
        Ok(StatusView::Cancelled)
    } else if head == "STATUS_OK"@ {
        Ok(StatusView::Code(tail))
    } else {
        Err(ErrorView::Unexpected(t))
    }
}

/// What [`parse_status`] makes of an answer text.
pub open spec fn status_answer(body: Seq<char>, r: ApiResult<ActivationStatus>) -> bool {
    (match r {
        Ok(s) => status_of(body) == Ok::<StatusView, ErrorView>(s@),
        Err(e) => status_of(body) == Err::<StatusView, ErrorView>(e@),
    })
}

/// `STATUS_WAIT_CODE` | `STATUS_WAIT_RETRY:<last>` | `STATUS_WAIT_RESEND` | `STATUS_CANCEL` | `STATUS_OK:<code>`
pub fn parse_status(body: &str) -> (r: ApiResult<ActivationStatus>)
    ensures
        match r {
            Ok(s) => status_of(body@) == Ok::<StatusView, ErrorView>(s@),
            Err(e) => status_of(body@) == Err::<StatusView, ErrorView>(e@),
        },
{
    let t = trim_str(body);
    let (head, tail): (Vec<char>, Vec<char>) = match split_once_chars(&t, ':') {
        Some((h, x)) => (h, trim_chars(&x)),
        None => (slice_vec(&t, 0, t.len()), Vec::new()),
    };
    proof {
        if split_once(t@, ':') is None {
            assert(t@.subrange(0, t@.len() as int) =~= t@);
            assert(tail@ =~= Seq::<char>::empty());
        }
        assert(head_tail(t@) == (head@, tail@));
    }
    let s = if eq_str(&head, "STATUS_WAIT_CODE") {
        ActivationStatus::WaitCode
    } else if eq_str(&head, "STATUS_WAIT_RETRY") {
        ActivationStatus::WaitRetry { last_code: text(&tail) }
    } else if eq_str(&head, "STATUS_WAIT_RESEND") {
        ActivationStatus::WaitResend
    } else if eq_str(&head, "STATUS_CANCEL") {
        ActivationStatus::Cancelled
    } else if eq_str(&head, "STATUS_OK") {
        ActivationStatus::Code { code: text(&tail) }
    } else {
        return Err(ApiError::Unexpected(text(&t)));
    };
    Ok(s)
}

/// `ACCESS_READY` | `ACCESS_RETRY_GET` | `ACCESS_ACTIVATION` | `ACCESS_CANCEL`.
pub open spec fn set_status_of(body: Seq<char>) -> Result<StatusAck, ErrorView> {
    let t = trim(body);
    if t == "ACCESS_READY"@ {
        Ok(StatusAck::Ready)
    } else if t == "ACCESS_RETRY_GET"@ {
        Ok(StatusAck::RetryGet)
    } else if t == "ACCESS_ACTIVATION"@ {
        Ok(StatusAck::Activation)
    } else if t == "ACCESS_CANCEL"@ {
        Ok(StatusAck::Cancel)
    } else {
        Err(ErrorView::Unexpected(t))
    }
}

/// What [`parse_set_status`] makes of an answer text.
pub open spec fn set_status_answer(body: Seq<char>, r: ApiResult<StatusAck>) -> bool {
    (match r {
        Ok(a) => set_status_of(body) == Ok::<StatusAck, ErrorView>(a),
        Err(e) => set_status_of(body) == Err::<StatusAck, ErrorView>(e@),
    })
}

/// `ACCESS_READY` | `ACCESS_RETRY_GET` | `ACCESS_ACTIVATION` | `ACCESS_CANCEL`
pub fn parse_set_status(body: &str) -> (r: ApiResult<StatusAck>)
    ensures
        match r {
            Ok(a) => set_status_of(body@) == Ok::<StatusAck, ErrorView>(a),
            Err(e) => set_status_of(body@) == Err::<StatusAck, ErrorView>(e@),
        },
{
    let t = trim_str(body);
    if eq_str(&t, "ACCESS_READY") {
        Ok(StatusAck::Ready)
    } else if eq_str(&t, "ACCESS_RETRY_GET") {
        Ok(StatusAck::RetryGet)
    } else if eq_str(&t, "ACCESS_ACTIVATION") {
        Ok(StatusAck::Activation)
    } else if eq_str(&t, "ACCESS_CANCEL") {
        Ok(StatusAck::Cancel)
    } else {
        Err(ApiError::Unexpected(text(&t)))
    }
}

/// Bodies larger than this many bytes are only deserialised to look for an error envelope when
/// their first bytes name the key in question (JSON objects list it first).
pub const ERROR_SHAPE_SCAN_LIMIT: usize = 4096;

/// Bytes taken by `c` in UTF-8.
pub open spec fn utf8_width(c: char) -> nat {
    if (c as u32) < 0x80 {
        1
    } else if (c as u32) < 0x800 {
        2
    } else if (c as u32) < 0x10000 {
        3
    } else {
        4
    }
}

/// `str::len`: the UTF-8 length of a text in bytes.
pub open spec fn utf8_len(s: Seq<char>) -> nat
    decreases s.len(),
{
    if s.len() == 0 {
        0
    } else {
        utf8_width(s[0]) + utf8_len(s.drop_first())
    }
}

/// How many leading characters of `s` fit in `n` bytes: the text before the last character
/// boundary at or below byte `n`.
pub open spec fn chars_within(s: Seq<char>, n: int) -> nat
    decreases s.len(),
{
    if s.len() == 0 || utf8_width(s[0]) > n {
        0
    } else {
        1 + chars_within(s.drop_first(), n - utf8_width(s[0]))
    }
}

/// Whether `body` is worth deserialising to look for `key` at the top level: objects of at most
/// [`ERROR_SHAPE_SCAN_LIMIT`] bytes always, larger ones only when `key` lies in the first 64 bytes.
pub open spec fn may_contain(body: Seq<char>, key: Seq<char>) -> bool {
    starts_with_char(body, '{') && (utf8_len(body) <= 4096 || contains_seq(body.take(
        chars_within(body, 64) as int,
    ), key))
}

fn char_width(c: char) -> (r: usize)
    ensures
        r == utf8_width(c),
{
    if (c as u32) < 0x80 {
        1
    } else if (c as u32) < 0x800 {
        2
    } else if (c as u32) < 0x10000 {
        3
    } else {
        4
    }
}

proof fn lemma_utf8_len_split(s: Seq<char>, i: int)
    requires
        0 <= i <= s.len(),
    ensures
        utf8_len(s) == utf8_len(s.take(i)) + utf8_len(s.skip(i)),
    decreases i,
{
    if i > 0 {
        lemma_utf8_len_split(s.drop_first(), i - 1);
        assert(s.take(i).drop_first() =~= s.drop_first().take(i - 1));
        assert(s.skip(i) =~= s.drop_first().skip(i - 1));
    } else {
        assert(s.skip(0) =~= s);
        assert(s.take(0) =~= Seq::<char>::empty());
    }
}

proof fn lemma_chars_within(s: Seq<char>, n: int, i: int)
    requires
        0 <= i <= s.len(),
        utf8_len(s.take(i)) <= n,
        i == s.len() || utf8_len(s.take(i)) + utf8_width(s[i]) > n,
    ensures
        chars_within(s, n) == i,
    decreases i,
{
    if i > 0 {
        assert(s.take(i).drop_first() =~= s.drop_first().take(i - 1));
        assert(utf8_width(s[0]) <= n);
        if i < s.len() {
            assert(s.drop_first()[i - 1] == s[i]);
        }
        lemma_chars_within(s.drop_first(), n - utf8_width(s[0]), i - 1);
    } else if s.len() > 0 {
        assert(s.take(0) =~= Seq::<char>::empty());
    }
}

/// How many leading characters of `s` fit in `n` bytes (see [`chars_within`]).
pub fn count_within(s: &[char], n: usize) -> (k: usize)
    requires
        n <= 0x1000_0000,
    ensures
        k as int == chars_within(s@, n as int),
        k <= s@.len(),
{
    let mut k: usize = 0;
    let mut used: usize = 0;
    while k < s.len() && used + char_width(s[k]) <= n
        invariant
            k <= s@.len(),
            used == utf8_len(s@.take(k as int)),
            used <= n <= 0x1000_0000,
        decreases s.len() - k,
    {
        proof {
            lemma_utf8_len_split(s@.take(k + 1), k as int);
            assert(s@.take(k + 1).take(k as int) =~= s@.take(k as int));
            assert(s@.take(k + 1).skip(k as int) =~= seq![s@[k as int]]);
            assert(seq![s@[k as int]].drop_first() =~= Seq::<char>::empty());
            assert(utf8_len(Seq::<char>::empty()) == 0);
            assert(utf8_len(seq![s@[k as int]]) == utf8_width(s@[k as int]));
        }
        used = used + char_width(s[k]);
        k = k + 1;
    }
    proof {
        lemma_chars_within(s@, n as int, k as int);
    }
    k
}

/// Whether `body` is worth deserialising to look for `key` at the top level: small objects
/// always, large ones only when `key` appears within the first 64 bytes.
pub fn may_contain_top_level_key(body: &str, key: &str) -> (r: bool)
    ensures
        r == may_contain(body@, key@),
{
    let b = chars_of(body);
    if b.len() == 0 || b[0] != '{' {
        return false;
    }
    // Byte length, counted up to just past the limit.
    let mut total: usize = 0;
    let mut i: usize = 0;
    while i < b.len() && total <= ERROR_SHAPE_SCAN_LIMIT
        invariant
            i <= b@.len(),
            total == utf8_len(b@.take(i as int)),
            total <= ERROR_SHAPE_SCAN_LIMIT + 4,
        decreases b.len() - i,
    {
        proof {
            lemma_utf8_len_split(b@.take(i + 1), i as int);
            assert(b@.take(i + 1).take(i as int) =~= b@.take(i as int));
            assert(b@.take(i + 1).skip(i as int) =~= seq![b@[i as int]]);
            assert(seq![b@[i as int]].drop_first() =~= Seq::<char>::empty());
            assert(utf8_len(Seq::<char>::empty()) == 0);
            assert(utf8_len(seq![b@[i as int]]) == utf8_width(b@[i as int]));
        }
        total = total + char_width(b[i]);
        i = i + 1;
    }
    proof {
        lemma_utf8_len_split(b@, i as int);
    }
    if total <= ERROR_SHAPE_SCAN_LIMIT {
        assert(b@.take(i as int) =~= b@);
        return true;
    }
    // The longest prefix that fits in 64 bytes.
    let mut k: usize = 0;
    let mut used: usize = 0;
    while k < b.len() && used + char_width(b[k]) <= 64
        invariant
            k <= b@.len(),
            used == utf8_len(b@.take(k as int)),
            used <= 64,
        decreases b.len() - k,
    {
        proof {
            lemma_utf8_len_split(b@.take(k + 1), k as int);
            assert(b@.take(k + 1).take(k as int) =~= b@.take(k as int));
            assert(b@.take(k + 1).skip(k as int) =~= seq![b@[k as int]]);
            assert(seq![b@[k as int]].drop_first() =~= Seq::<char>::empty());
            assert(utf8_len(Seq::<char>::empty()) == 0);
            assert(utf8_len(seq![b@[k as int]]) == utf8_width(b@[k as int]));
        }
        used = used + char_width(b[k]);
        k = k + 1;
    }
    proof {
        lemma_chars_within(b@, 64, k as int);
    }
    let head = slice_vec(&b, 0, k);
    assert(head@ =~= b@.take(k as int));
    let kv = chars_of(key);
    contains_chars(&head, &kv)
}

/// `getNumberV2` JSON → activation; `t` is the (trimmed) body, carried by the error.
pub open spec fn activation_v2_of(v: JsonView, t: Seq<char>) -> Result<ActivationView, ErrorView> {
    match (vstring(jget(v, "activationId"@)), vstring(jget(v, "phoneNumber"@))) {
        (Some(id), Some(phone)) => Ok(
            ActivationView {
                id,
                phone,
                cost: vamount(jget(v, "activationCost"@)),
                country: vcountry(jget(v, "countryCode"@)),
                can_get_another_sms: vbool(jget(v, "canGetAnotherSms"@)),
                activation_time: vstring(jget(v, "activationTime"@)),
                operator: vstring(jget(v, "activationOperator"@)),
            },
        ),
        _ => Err(ErrorView::Unexpected(t)),
    }
}

/// The activation described by a decoded `getNumberV2` answer (`body` is the trimmed text it
/// was decoded from).
pub fn activation_v2_from_json(v: &Json, body: &str) -> (r: ApiResult<Activation>)
    ensures
        res_view(r) == activation_v2_of(v@, body@),
{
    let id = match value_to_string(v.get("activationId")) {
        Some(id) => id,
        None => {
            return Err(ApiError::Unexpected(owned(body)));
        },
    };
    let phone = match value_to_string(v.get("phoneNumber")) {
        Some(p) => p,
        None => {
            return Err(ApiError::Unexpected(owned(body)));
        },
    };
    Ok(Activation {
        id: ActivationId(id),
        phone,
        cost: value_to_amount(v.get("activationCost")),
        country: value_to_country(v.get("countryCode")),
        can_get_another_sms: value_to_bool(v.get("canGetAnotherSms")),
        activation_time: value_to_string(v.get("activationTime")),
        operator: value_to_string(v.get("activationOperator")),
    })
}

/// What [`parse_activation_v2`] makes of an answer text.
pub open spec fn activation_answer(body: Seq<char>, r: ApiResult<Activation>) -> bool {
    (starts_with(trim(body), "ACCESS_NUMBER:"@) ==> match r {
        Ok(a) => access_number_of(body) matches Ok((id, phone)) && a@ == bare_activation(id, phone),
        Err(e) => access_number_of(body) == Err::<(Seq<char>, Seq<char>), ErrorView>(e@),
    }) && (!starts_with(trim(body), "ACCESS_NUMBER:"@) ==> match json_of_text(trim(body)) {
        None => r matches Err(e) && e@ is Parse,
        Some(v) => res_view(r) == activation_v2_of(v, trim(body)),
    })
}

/// `getNumberV2` JSON: `{"activationId","phoneNumber","activationCost","countryCode",
/// "canGetAnotherSms","activationTime","activationOperator"}`. Falls back to the plain
/// `ACCESS_NUMBER:` form when a provider answers that way.
pub fn parse_activation_v2(body: &str) -> (r: ApiResult<Activation>)
    ensures
        starts_with(trim(body@), "ACCESS_NUMBER:"@) ==> match r {
            Ok(a) => access_number_of(body@) matches Ok((id, phone)) && a@ == bare_activation(id, phone),
            Err(e) => access_number_of(body@) == Err::<(Seq<char>, Seq<char>), ErrorView>(e@),
        },
        !starts_with(trim(body@), "ACCESS_NUMBER:"@) ==> match json_of_text(trim(body@)) {
            None => r matches Err(e) && e@ is Parse,
            Some(v) => res_view(r) == activation_v2_of(v, trim(body@)),
        },
{
    let t = trim_str(body);
    let ts = text(&t);
    proof {
        lemma_trim_idempotent(body@);
    }
    if crate::text::has_prefix(&t, "ACCESS_NUMBER:") {
        return parse_access_number(ts.as_str());
    }
    let v = match parse_json(ts.as_str()) {
        Ok(v) => v,
        Err(e) => {
            return Err(e);
        },
    };
    activation_v2_from_json(&v, ts.as_str())
}

pub open spec fn missing_cost(country: Seq<char>, service: Seq<char>) -> Seq<char> {
    "missing cost for "@ + country + "/"@ + service
}

/// One `{"cost","count"[,"physicalCount"]}` cell; `None` without a cost.
pub open spec fn price_cell(p: JsonView) -> Option<Price> {
    match vamount(jget(p, "cost"@)) {
        Some(c) => Some(
            Price {
                cost: Amount { units: c as i128 },
                count: match vu64(jget(p, "count"@)) {
                    Some(n) => n,
                    None => 0,
                },
                physical_count: vu64(jget(p, "physicalCount"@)),
            },
        ),
        None => None,
    }
}

/// The service → price row of one country; the first cell without a cost is an error.
pub open spec fn price_row_of(country: Seq<char>, ses: Seq<(Seq<char>, JsonView)>) -> Result<
    Map<Seq<char>, Price>,
    ErrorView,
>
    decreases ses.len(),
{
    if ses.len() == 0 {
        Ok(Map::empty())
    } else {
        match price_row_of(country, ses.drop_last()) {
            Err(e) => Err(e),
            Ok(m) => match price_cell(ses.last().1) {
                Some(p) => Ok(m.insert(ses.last().0, p)),
                None => Err(ErrorView::Parse(missing_cost(country, ses.last().0))),
            },
        }
    }
}

/// The country → service → price table of a member list. The empty country key (a row
/// SMSBower ships for a country without id) is skipped; a later key that denotes the same
/// country replaces an earlier one.
pub open spec fn price_table_of(es: Seq<(Seq<char>, JsonView)>) -> Result<
    Map<CountryKey, Map<Seq<char>, Price>>,
    ErrorView,
>
    decreases es.len(),
{
    if es.len() == 0 {
        Ok(Map::empty())
    } else {
        match price_table_of(es.drop_last()) {
            Err(e) => Err(e),
            Ok(m) => {
                let (country, services) = es.last();
                if country.len() == 0 {
                    Ok(m)
                } else {
                    match services {
                        JsonView::Object(ses) => match price_row_of(country, ses) {
                            Err(e) => Err(e),
                            Ok(row) => Ok(m.insert(country_key_of(country), row)),
                        },
                        _ => Err(ErrorView::Parse(crate::json::object_expected("prices.country"@))),
                    }
                }
            },
        }
    }
}

/// `{"<country>":{"<service>":{"cost":0.45,"count":2369[,"physicalCount":0]}}}`.
pub open spec fn prices_of(v: JsonView) -> Result<Map<CountryKey, Map<Seq<char>, Price>>, ErrorView> {
    match v {
        JsonView::Object(es) => price_table_of(es),
        _ => Err(ErrorView::Parse(crate::json::object_expected("prices"@))),
    }
}

/// What a price table denotes.
pub open spec fn table_view(t: PriceTable) -> Map<CountryKey, Map<Seq<char>, Price>> {
    t@.map_values(|row: KeyMap<ServiceCode, Price>| row@)
}

proof fn lemma_row_err_sticks(country: Seq<char>, ses: Seq<(Seq<char>, JsonView)>, k: int, e: ErrorView)
    requires
        0 <= k <= ses.len(),
        price_row_of(country, ses.take(k)) == Err::<Map<Seq<char>, Price>, ErrorView>(e),
    ensures
        price_row_of(country, ses) == Err::<Map<Seq<char>, Price>, ErrorView>(e),
    decreases ses.len() - k,
{
    if k < ses.len() {
        assert(ses.take(k + 1).drop_last() =~= ses.take(k));
        lemma_row_err_sticks(country, ses, k + 1, e);
    } else {
        assert(ses.take(k) =~= ses);
    }
}

proof fn lemma_table_err_sticks(es: Seq<(Seq<char>, JsonView)>, k: int, e: ErrorView)
    requires
        0 <= k <= es.len(),
        price_table_of(es.take(k)) == Err::<Map<CountryKey, Map<Seq<char>, Price>>, ErrorView>(e),
    ensures
        price_table_of(es) == Err::<Map<CountryKey, Map<Seq<char>, Price>>, ErrorView>(e),
    decreases es.len() - k,
{
    if k < es.len() {
        assert(es.take(k + 1).drop_last() =~= es.take(k));
        lemma_table_err_sticks(es, k + 1, e);
    } else {
        assert(es.take(k) =~= es);
    }
}

/// `"missing cost for <country>/<service>"`.
fn missing_cost_message(country: &String, service: &String) -> (r: String)
    ensures
        r@ == missing_cost(country@, service@),
{
    let mut m = String::new();
    crate::text::push_str(&mut m, "missing cost for ");
    crate::text::push_str(&mut m, country.as_str());
    crate::text::push_str(&mut m, "/");
    crate::text::push_str(&mut m, service.as_str());
    m
}

/// The price row of one country (see [`price_row_of`]).
fn price_row_from_json(country: &String, ses: &Vec<(String, Json)>) -> (r: ApiResult<KeyMap<ServiceCode, Price>>)
    ensures
        match r {
            Ok(row) => price_row_of(country@, member_views(ses@)) == Ok::<Map<Seq<char>, Price>, ErrorView>(row@),
            Err(e) => price_row_of(country@, member_views(ses@)) == Err::<Map<Seq<char>, Price>, ErrorView>(e@),
        },
{
    let ghost vs = member_views(ses@);
    let mut row: KeyMap<ServiceCode, Price> = KeyMap::new();
    let mut j: usize = 0;
    assert(vs.take(0) =~= Seq::<(Seq<char>, JsonView)>::empty());
    while j < ses.len()
        invariant
            j <= ses@.len(),
            vs == member_views(ses@),
            price_row_of(country@, vs.take(j as int)) == Ok::<Map<Seq<char>, Price>, ErrorView>(row@),
        decreases ses.len() - j,
    {
        proof {
            assert(vs.take(j + 1).drop_last() =~= vs.take(j as int));
            assert(vs.take(j + 1).last() == vs[j as int]);
        }
        let service = &ses[j].0;
        let price = &ses[j].1;
        let cost = match value_to_amount(price.get("cost")) {
            Some(c) => c,
            None => {
                let e = ApiError::Parse(missing_cost_message(country, service));
                proof {
                    lemma_row_err_sticks(country@, vs, j + 1, e@);
                }
                return Err(e);
            },
        };
        let count = match value_to_u64(price.get("count")) {
            Some(n) => n,
            None => 0,
        };
        let physical_count = value_to_u64(price.get("physicalCount"));
        row.insert(ServiceCode(copy_string(service)), Price { cost, count, physical_count });
        j = j + 1;
    }
    assert(vs.take(j as int) =~= vs);
    Ok(row)
}

/// The price table of a decoded `getPrices` answer (see [`prices_of`]).
pub fn prices_from_json(v: &Json) -> (r: ApiResult<PriceTable>)
    ensures
        match r {
            Ok(t) => prices_of(v@) == Ok::<Map<CountryKey, Map<Seq<char>, Price>>, ErrorView>(table_view(t)),
            Err(e) => prices_of(v@) == Err::<Map<CountryKey, Map<Seq<char>, Price>>, ErrorView>(e@),
        },
{
    let es = match as_object(v, "prices") {
        Ok(es) => es,
        Err(e) => {
            proof {
                reveal_strlit("prices");
            }
            return Err(e);
        },
    };
    let ghost vs = member_views(es@);
    let mut table: PriceTable = KeyMap::new();
    let mut i: usize = 0;
    assert(vs.take(0) =~= Seq::<(Seq<char>, JsonView)>::empty());
    assert(table_view(table) =~= Map::empty());
    while i < es.len()
        invariant
            i <= es@.len(),
            vs == member_views(es@),
            v@ == JsonView::Object(vs),
            price_table_of(vs.take(i as int)) == Ok::<Map<CountryKey, Map<Seq<char>, Price>>, ErrorView>(
                table_view(table),
            ),
        decreases es.len() - i,
    {
        proof {
            assert(vs.take(i + 1).drop_last() =~= vs.take(i as int));
            assert(vs.take(i + 1).last() == vs[i as int]);
        }
        let country = &es[i].0;
        let cchars = chars_of(country.as_str());
        if cchars.len() == 0 {
            i = i + 1;
            continue;
        }
        let ses = match as_object(&es[i].1, "prices.country") {
            Ok(x) => x,
            Err(e) => {
                proof {
                    lemma_table_err_sticks(vs, i + 1, e@);
                }
                return Err(e);
            },
        };
        let row = match price_row_from_json(country, ses) {
            Ok(row) => row,
            Err(e) => {
                proof {
                    lemma_table_err_sticks(vs, i + 1, e@);
                }
                return Err(e);
            },
        };
        let key = CountryRef::parse(country.as_str());
        let ghost before = table;
        let ghost row_view = row@;
        table.insert(key, row);
        proof {
            assert(table_view(table) =~= table_view(before).insert(country_key_of(country@), row_view));
        }
        i = i + 1;
    }
    assert(vs.take(i as int) =~= vs);
    Ok(table)
}

/// What [`parse_prices`] makes of an answer text.
pub open spec fn prices_answer(body: Seq<char>, r: ApiResult<PriceTable>) -> bool {
    (match json_of_text(trim(body)) {
        None => r matches Err(e) && e@ is Parse,
        Some(v) => match r {
            Ok(t) => prices_of(v) == Ok::<Map<CountryKey, Map<Seq<char>, Price>>, ErrorView>(table_view(t)),
            Err(e) => prices_of(v) == Err::<Map<CountryKey, Map<Seq<char>, Price>>, ErrorView>(e@),
        },
    })
}

/// `{"<country>":{"<service>":{"cost":0.45,"count":2369[,"physicalCount":0]}}}` — `{}` when nothing matches.
pub fn parse_prices(body: &str) -> (r: ApiResult<PriceTable>)
    ensures
        match json_of_text(trim(body@)) {
            None => r matches Err(e) && e@ is Parse,
            Some(v) => match r {
                Ok(t) => prices_of(v) == Ok::<Map<CountryKey, Map<Seq<char>, Price>>, ErrorView>(table_view(t)),
                Err(e) => prices_of(v) == Err::<Map<CountryKey, Map<Seq<char>, Price>>, ErrorView>(e@),
            },
        },
{
    let t = text(&trim_str(body));
    match parse_json(t.as_str()) {
        Ok(v) => prices_from_json(&v),
        Err(e) => Err(e),
    }
}

/// One `{"code","name"}` row of a services list.
pub open spec fn service_row(x: JsonView) -> Option<(Seq<char>, Seq<char>)> {
    match (jget(x, "code"@), jget(x, "name"@)) {
        (Some(JsonView::Str(c)), Some(JsonView::Str(n))) => Some((c, n)),
        _ => None,
    }
}

pub open spec fn service_rows(a: Seq<JsonView>) -> Option<Seq<(Seq<char>, Seq<char>)>>
    decreases a.len(),
{
    if a.len() == 0 {
        Some(Seq::empty())
    } else {
        match (service_rows(a.drop_last()), service_row(a.last())) {
            (Some(r), Some(x)) => Some(r.push(x)),
            _ => None,
        }
    }
}

/// `{"status":"success","services":[{"code":"tg","name":"Telegram"},…]}`: every row needs a
/// string `code` and `name`; other members are ignored.
pub open spec fn services_of(v: JsonView) -> Option<Seq<(Seq<char>, Seq<char>)>> {
    match jget(v, "services"@) {
        Some(JsonView::Array(a)) => service_rows(a),
        _ => None,
    }
}

proof fn lemma_service_rows_none(a: Seq<JsonView>, k: int)
    requires
        0 <= k <= a.len(),
        service_rows(a.take(k)) is None,
    ensures
        service_rows(a) is None,
    decreases a.len() - k,
{
    if k < a.len() {
        assert(a.take(k + 1).drop_last() =~= a.take(k));
        lemma_service_rows_none(a, k + 1);
    } else {
        assert(a.take(k) =~= a);
    }
}

/// The services list of a decoded `getServicesList` answer (see [`services_of`]).
pub fn services_from_json(v: &Json) -> (r: ApiResult<Vec<Service>>)
    ensures
        match r {
            Ok(l) => services_of(v@) == Some(seq_views(l@)),
            Err(e) => services_of(v@) is None && e@ is Parse,
        },
{
    let bad = "invalid services list";
    let a = match v.get("services") {
        Some(x) => match x.as_array() {
            Some(a) => a,
            None => {
                return Err(ApiError::Parse(owned(bad)));
            },
        },
        None => {
            return Err(ApiError::Parse(owned(bad)));
        },
    };
    let ghost av = views(a@);
    let mut out: Vec<Service> = Vec::new();
    let mut i: usize = 0;
    assert(av.take(0) =~= Seq::<JsonView>::empty());
    assert(seq_views(out@) =~= Seq::<(Seq<char>, Seq<char>)>::empty());
    while i < a.len()
        invariant
            i <= a@.len(),
            av == views(a@),
            jget(v@, "services"@) == Some(JsonView::Array(av)),
            service_rows(av.take(i as int)) == Some(seq_views(out@)),
        decreases a.len() - i,
    {
        proof {
            assert(av.take(i + 1).drop_last() =~= av.take(i as int));
            assert(av.take(i + 1).last() == a@[i as int]@);
        }
        let x = &a[i];
        let code = match x.get("code") {
            Some(Json::Str(c)) => copy_string(c),
            _ => {
                proof {
                    lemma_service_rows_none(av, i + 1);
                }
                return Err(ApiError::Parse(owned(bad)));
            },
        };
        let name = match x.get("name") {
            Some(Json::Str(n)) => copy_string(n),
            _ => {
                proof {
                    lemma_service_rows_none(av, i + 1);
                }
                return Err(ApiError::Parse(owned(bad)));
            },
        };
        let ghost before = out@;
        out.push(Service { code: ServiceCode(code), name });
        assert(seq_views(out@) =~= seq_views(before).push((code@, name@)));
        i = i + 1;
    }
    assert(av.take(i as int) =~= av);
    Ok(out)
}

/// What [`parse_services`] makes of an answer text.
pub open spec fn services_answer(body: Seq<char>, r: ApiResult<Vec<Service>>) -> bool {
    (match json_of_text(trim(body)) {
        None => r matches Err(e) && e@ is Parse,
        Some(v) => match r {
            Ok(l) => services_of(v) == Some(seq_views(l@)),
            Err(e) => services_of(v) is None && e@ is Parse,
        },
    })
}

/// `{"status":"success","services":[{"code":"tg","name":"Telegram"},…]}`
pub fn parse_services(body: &str) -> (r: ApiResult<Vec<Service>>)
    ensures
        match json_of_text(trim(body@)) {
            None => r matches Err(e) && e@ is Parse,
            Some(v) => match r {
                Ok(l) => services_of(v) == Some(seq_views(l@)),
                Err(e) => services_of(v) is None && e@ is Parse,
            },
        },
{
    let t = text(&trim_str(body));
    match parse_json(t.as_str()) {
        Ok(v) => services_from_json(&v),
        Err(e) => Err(e),
    }
}

/// The rows of a countries answer: the members of an object, or the items of an array (with
/// an empty key).
pub open spec fn country_entries(v: JsonView) -> Option<Seq<(Seq<char>, JsonView)>> {
    match v {
        JsonView::Object(es) => Some(es),
        JsonView::Array(a) => Some(a.map_values(|x: JsonView| (Seq::<char>::empty(), x))),
        _ => None,
    }
}

/// One country row keyed by its id: `id` (number or numeric string), else the member key; rows
/// with neither are junk and skipped. Ids are taken `as u32`.
pub open spec fn country_row(key: Seq<char>, c: JsonView) -> Option<(u128, CountryView)> {
    let id = match vu64(jget(c, "id"@)) {
        Some(n) => Some(n),
        None => parse_u64_spec(key),
    };
    match id {
        None => None,
        Some(n) => {
            let k = (n % 0x1_0000_0000) as u32;
            Some(
                (
                    k as u128,
                    CountryView {
                        key: CountryKey::Id(k),
                        name_en: match vstring(jget(c, "eng"@)) {
                            Some(t) => t,
                            None => Seq::empty(),
                        },
                        name_ru: vstring(jget(c, "rus"@)),
                        name_cn: vstring(jget(c, "chn"@)),
                        iso: None,
                        prefix: None,
                        visible: vbool(jget(c, "visible"@)),
                        retry: vbool(jget(c, "retry"@)),
                        rent: vbool(jget(c, "rent"@)),
                    },
                ),
            )
        },
    }
}

pub open spec fn country_rows(es: Seq<(Seq<char>, JsonView)>) -> Seq<(u128, CountryView)>
    decreases es.len(),
{
    if es.len() == 0 {
        Seq::empty()
    } else {
        country_rows(es.drop_last()) + match country_row(es.last().0, es.last().1) {
            Some(r) => seq![r],
            None => Seq::empty(),
        }
    }
}

/// `{"<id>":{"id":1,"rus":"…","eng":"Ukraine","chn":"…"[,"visible":1,"retry":1,"rent":1]},…}`
/// or a bare array of such rows, ordered by id (stable); `t` is the trimmed body.
pub open spec fn countries_of(v: JsonView, t: Seq<char>) -> Result<Seq<CountryView>, ErrorView> {
    match country_entries(v) {
        None => Err(ErrorView::Unexpected(t)),
        Some(es) => Ok(payloads(sort_keyed(country_rows(es)))),
    }
}

/// One country row (see [`country_row`]).
fn country_from_json(key: &str, c: &Json) -> (r: Option<(u128, Country)>)
    ensures
        match r {
            Some(p) => country_row(key@, c@) == Some((p.0, p.1@)),
            None => country_row(key@, c@) is None,
        },
{
    let id = match value_to_u64(c.get("id")) {
        Some(n) => n,
        None => match parse_u64(&chars_of(key)) {
            Some(n) => n,
            None => {
                return None;
            },
        },
    };
    let k = (id % 0x1_0000_0000u64) as u32;
    let name_en = match value_to_string(c.get("eng")) {
        Some(t) => t,
        None => String::new(),
    };
    Some(
        (
            k as u128,
            Country {
                key: CountryRef::Id(k),
                name_en,
                name_ru: value_to_string(c.get("rus")),
                name_cn: value_to_string(c.get("chn")),
                iso: None,
                prefix: None,
                visible: value_to_bool(c.get("visible")),
                retry: value_to_bool(c.get("retry")),
                rent: value_to_bool(c.get("rent")),
            },
        ),
    )
}

proof fn lemma_payload_views<T: View>(s: Seq<(u128, T)>, f: spec_fn(T) -> T::V)
    requires
        forall|c: T| #[trigger] f(c) == c@,
    ensures
        seq_views(payloads(s)) == payloads(kmap(s, f)),
{
    assert(seq_views(payloads(s)) =~= payloads(kmap(s, f)));
}

/// The countries of a decoded `getCountries` answer (see [`countries_of`]; `body` is the
/// trimmed text it was decoded from).
pub fn countries_from_json(v: &Json, body: &str) -> (r: ApiResult<Vec<Country>>)
    ensures
        list_res(r) == countries_of(v@, body@),
{
    let ghost f = |c: Country| c@;
    let ghost es: Seq<(Seq<char>, JsonView)> = match country_entries(v@) {
        Some(es) => es,
        None => Seq::empty(),
    };
    let mut rows: Vec<(u128, Country)> = Vec::new();
    assert(es.take(0) =~= Seq::<(Seq<char>, JsonView)>::empty());
    assert(kmap(rows@, f) =~= Seq::<(u128, CountryView)>::empty());
    match v {
        Json::Object(o) => {
            proof {
                crate::json::lemma_object_view(*o);
            }
            let mut i: usize = 0;
            while i < o.len()
                invariant
                    i <= o@.len(),
                    es == member_views(o@),
                    forall|c: Country| #[trigger] f(c) == c@,
                    kmap(rows@, f) == country_rows(es.take(i as int)),
                decreases o.len() - i,
            {
                proof {
                    assert(es.take(i + 1).drop_last() =~= es.take(i as int));
                    assert(es.take(i + 1).last() == es[i as int]);
                }
                let ghost before = rows@;
                match country_from_json(o[i].0.as_str(), &o[i].1) {
                    Some(p) => {
                        rows.push(p);
                        assert(kmap(rows@, f) =~= kmap(before, f) + seq![(p.0, p.1@)]);
                    },
                    None => {
                        assert(kmap(rows@, f) =~= kmap(before, f) + Seq::<(u128, CountryView)>::empty());
                    },
                }
                i = i + 1;
            }
            assert(es.take(i as int) =~= es);
        },
        Json::Array(a) => {
            proof {
                crate::json::lemma_array_view(*a);
            }
            let empty = String::new();
            let mut i: usize = 0;
            while i < a.len()
                invariant
                    i <= a@.len(),
                    empty@ == Seq::<char>::empty(),
                    es == views(a@).map_values(|x: JsonView| (Seq::<char>::empty(), x)),
                    forall|c: Country| #[trigger] f(c) == c@,
                    kmap(rows@, f) == country_rows(es.take(i as int)),
                decreases a.len() - i,
            {
                proof {
                    assert(es.take(i + 1).drop_last() =~= es.take(i as int));
                    assert(es.take(i + 1).last() == es[i as int]);
                    assert(es[i as int] == (Seq::<char>::empty(), a@[i as int]@));
                }
                let ghost before = rows@;
                match country_from_json(empty.as_str(), &a[i]) {
                    Some(p) => {
                        rows.push(p);
                        assert(kmap(rows@, f) =~= kmap(before, f) + seq![(p.0, p.1@)]);
                    },
                    None => {
                        assert(kmap(rows@, f) =~= kmap(before, f) + Seq::<(u128, CountryView)>::empty());
                    },
                }
                i = i + 1;
            }
            assert(es.take(i as int) =~= es);
        },
        _ => {
            return Err(ApiError::Unexpected(owned(body)));
        },
    }
    let ghost unsorted = rows@;
    let sorted = sort_by_key(rows);
    proof {
        lemma_kmap_sort(unsorted, f);
        lemma_payload_views(sorted@, f);
    }
    Ok(strip_keys(sorted))
}

/// What [`parse_countries`] makes of an answer text.
pub open spec fn countries_answer(body: Seq<char>, r: ApiResult<Vec<Country>>) -> bool {
    (match json_of_text(trim(body)) {
        None => r matches Err(e) && e@ is Parse,
        Some(v) => list_res(r) == countries_of(v, trim(body)),
    })
}

/// `{"<id>":{"id":1,"rus":"…","eng":"Ukraine","chn":"…"[,"visible":1,"retry":1,"rent":1]},…}`
/// or a bare array of the same rows (Tiger SMS). `id` may be a number or a string.
pub fn parse_countries(body: &str) -> (r: ApiResult<Vec<Country>>)
    ensures
        match json_of_text(trim(body@)) {
            None => r matches Err(e) && e@ is Parse,
            Some(v) => list_res(r) == countries_of(v, trim(body@)),
        },
{
    let t = text(&trim_str(body));
    match parse_json(t.as_str()) {
        Ok(v) => countries_from_json(&v, t.as_str()),
        Err(e) => Err(e),
    }
}

/// The rows of an indexed answer with their index: array positions, or object keys parsed as
/// integers (`u64::MAX` for a key that is not one).
pub open spec fn indexed_entries(v: JsonView) -> Option<Seq<(u128, JsonView)>> {
    match v {
        JsonView::Array(a) => Some(Seq::new(a.len(), |i: int| (i as u64 as u128, a[i]))),
        JsonView::Object(es) => Some(
            es.map_values(
                |e: (Seq<char>, JsonView)|
                    (
                        match parse_u64_spec(e.0) {
                            Some(n) => n as u128,
                            None => u64::MAX as u128,
                        },
                        e.1,
                    ),
            ),
        ),
        _ => None,
    }
}

/// One `{"country":73,"price":0.4,"retail_price":0.48,"count":1081284}` row; `None` without a
/// country.
pub open spec fn top_row(x: JsonView) -> Option<TopCountryView> {
    match vu64(jget(x, "country"@)) {
        None => None,
        Some(n) => Some(
            TopCountryView {
                country: CountryKey::Id((n % 0x1_0000_0000) as u32),
                price: match vamount(jget(x, "price"@)) {
                    Some(p) => p,
                    None => 0,
                },
                retail_price: vamount(jget(x, "retail_price"@)),
                count: match vu64(jget(x, "count"@)) {
                    Some(c) => c,
                    None => 0,
                },
                provider_id: None,
            },
        ),
    }
}

pub open spec fn top_rows(ents: Seq<(u128, JsonView)>) -> Result<Seq<(u128, TopCountryView)>, ErrorView>
    decreases ents.len(),
{
    if ents.len() == 0 {
        Ok(Seq::empty())
    } else {
        match top_rows(ents.drop_last()) {
            Err(e) => Err(e),
            Ok(r) => match top_row(ents.last().1) {
                Some(x) => Ok(r.push((ents.last().0, x))),
                None => Err(ErrorView::Parse("missing country"@)),
            },
        }
    }
}

/// sms-activate / Hero-SMS shape `{"0":{"country":73,"price":0.4,…},…}` (or an array of rows),
/// in index order.
pub open spec fn top_countries_of(v: JsonView) -> Result<Seq<TopCountryView>, ErrorView> {
    match indexed_entries(v) {
        None => Err(ErrorView::Unexpected(scalar_text(v))),
        Some(ents) => match top_rows(ents) {
            Err(e) => Err(e),
            Ok(rows) => Ok(payloads(sort_keyed(rows))),
        },
    }
}

proof fn lemma_top_err_sticks(ents: Seq<(u128, JsonView)>, k: int, e: ErrorView)
    requires
        0 <= k <= ents.len(),
        top_rows(ents.take(k)) == Err::<Seq<(u128, TopCountryView)>, ErrorView>(e),
    ensures
        top_rows(ents) == Err::<Seq<(u128, TopCountryView)>, ErrorView>(e),
    decreases ents.len() - k,
{
    if k < ents.len() {
        assert(ents.take(k + 1).drop_last() =~= ents.take(k));
        lemma_top_err_sticks(ents, k + 1, e);
    } else {
        assert(ents.take(k) =~= ents);
    }
}

/// One top-countries row (see [`top_row`]).
fn top_row_from_json(x: &Json) -> (r: ApiResult<TopCountry>)
    ensures
        match r {
            Ok(t) => top_row(x@) == Some(t@),
            Err(e) => top_row(x@) is None && e@ == ErrorView::Parse("missing country"@),
        },
{
    let n = match value_to_u64(x.get("country")) {
        Some(n) => n,
        None => {
            return Err(ApiError::Parse(owned("missing country")));
        },
    };
    let price = match value_to_amount(x.get("price")) {
        Some(p) => p,
        None => Amount::zero(),
    };
    let count = match value_to_u64(x.get("count")) {
        Some(c) => c,
        None => 0,
    };
    Ok(TopCountry {
        country: CountryRef::Id((n % 0x1_0000_0000u64) as u32),
        price,
        retail_price: value_to_amount(x.get("retail_price")),
        count,
        provider_id: None,
    })
}

/// The rows of a decoded top-countries answer, in index order (see [`top_countries_of`]).
pub fn top_countries_indexed_from_value(v: &Json) -> (r: ApiResult<Vec<TopCountry>>)
    ensures
        list_res(r) == top_countries_of(v@),
{
    let ghost f = |t: TopCountry| t@;
    let ghost ents: Seq<(u128, JsonView)> = match indexed_entries(v@) {
        Some(e) => e,
        None => Seq::empty(),
    };
    let mut rows: Vec<(u128, TopCountry)> = Vec::new();
    assert(ents.take(0) =~= Seq::<(u128, JsonView)>::empty());
    assert(kmap(rows@, f) =~= Seq::<(u128, TopCountryView)>::empty());
    match v {
        Json::Array(a) => {
            proof {
                crate::json::lemma_array_view(*a);
            }
            let mut i: usize = 0;
            while i < a.len()
                invariant
                    i <= a@.len(),
                    ents == Seq::new(views(a@).len(), |j: int| (j as u64 as u128, views(a@)[j])),
                    forall|t: TopCountry| #[trigger] f(t) == t@,
                    indexed_entries(v@) == Some(ents),
                    top_rows(ents.take(i as int)) == Ok::<Seq<(u128, TopCountryView)>, ErrorView>(kmap(rows@, f)),
                decreases a.len() - i,
            {
                proof {
                    assert(ents.take(i + 1).drop_last() =~= ents.take(i as int));
                    assert(ents.take(i + 1).last() == (i as u64 as u128, a@[i as int]@));
                }
                let row = match top_row_from_json(&a[i]) {
                    Ok(t) => t,
                    Err(e) => {
                        proof {
                            lemma_top_err_sticks(ents, i + 1, e@);
                        }
                        return Err(e);
                    },
                };
                let ghost before = rows@;
                rows.push((i as u64 as u128, row));
                assert(kmap(rows@, f) =~= kmap(before, f).push((i as u64 as u128, row@)));
                i = i + 1;
            }
            assert(ents.take(i as int) =~= ents);
        },
        Json::Object(o) => {
            proof {
                crate::json::lemma_object_view(*o);
            }
            let mut i: usize = 0;
            while i < o.len()
                invariant
                    i <= o@.len(),
                    ents == member_views(o@).map_values(
                        |e: (Seq<char>, JsonView)|
                            (
                                match parse_u64_spec(e.0) {
                                    Some(n) => n as u128,
                                    None => u64::MAX as u128,
                                },
                                e.1,
                            ),
                    ),
                    forall|t: TopCountry| #[trigger] f(t) == t@,
                    indexed_entries(v@) == Some(ents),
                    top_rows(ents.take(i as int)) == Ok::<Seq<(u128, TopCountryView)>, ErrorView>(kmap(rows@, f)),
                decreases o.len() - i,
            {
                proof {
                    assert(ents.take(i + 1).drop_last() =~= ents.take(i as int));
                    assert(ents.take(i + 1).last() == ents[i as int]);
                }
                let idx: u128 = match parse_u64(&chars_of(o[i].0.as_str())) {
                    Some(n) => n as u128,
                    None => u64::MAX as u128,
                };
                let row = match top_row_from_json(&o[i].1) {
                    Ok(t) => t,
                    Err(e) => {
                        proof {
                            lemma_top_err_sticks(ents, i + 1, e@);
                        }
                        return Err(e);
                    },
                };
                let ghost before = rows@;
                rows.push((idx, row));
                assert(kmap(rows@, f) =~= kmap(before, f).push((idx, row@)));
                i = i + 1;
            }
            assert(ents.take(i as int) =~= ents);
        },
        _ => {
            return Err(ApiError::Unexpected(scalar_to_string(v)));
        },
    }
    let ghost unsorted = rows@;
    let sorted = sort_by_key(rows);
    proof {
        lemma_kmap_sort(unsorted, f);
        lemma_payload_views(sorted@, f);
    }
    Ok(strip_keys(sorted))
}

/// What [`parse_top_countries_indexed`] makes of an answer text.
pub open spec fn top_countries_answer(body: Seq<char>, r: ApiResult<Vec<TopCountry>>) -> bool {
    (match json_of_text(trim(body)) {
        None => r matches Err(e) && e@ is Parse,
        Some(v) => list_res(r) == top_countries_of(v),
    })
}

/// sms-activate / Hero-SMS shape: `{"0":{"country":73,"price":0.4,"retail_price":0.48,"count":1081284},…}`
pub fn parse_top_countries_indexed(body: &str) -> (r: ApiResult<Vec<TopCountry>>)
    ensures
        match json_of_text(trim(body@)) {
            None => r matches Err(e) && e@ is Parse,
            Some(v) => list_res(r) == top_countries_of(v),
        },
{
    let t = text(&trim_str(body));
    match parse_json(t.as_str()) {
        Ok(v) => top_countries_indexed_from_value(&v),
        Err(e) => Err(e),
    }
}

/// A service code without sms-activate's forward flag (`_0` / `_1`).
pub open spec fn service_of_key(k: Seq<char>) -> Seq<char> {
    if ends_with(k, "_0"@) || ends_with(k, "_1"@) {
        k.take(k.len() - 2)
    } else {
        k
    }
}

/// Counts per service; the forward-flag variants of one service keep the larger count.
pub open spec fn numbers_fold(es: Seq<(Seq<char>, JsonView)>) -> Map<Seq<char>, u64>
    decreases es.len(),
{
    if es.len() == 0 {
        Map::empty()
    } else {
        let m = numbers_fold(es.drop_last());
        let code = service_of_key(es.last().0);
        let n = match vu64(Some(es.last().1)) {
            Some(n) => n,
            None => 0,
        };
        let prev = if m.contains_key(code) { m[code] } else { 0 };
        m.insert(code, if n > prev { n } else { prev })
    }
}

/// `{"tg":123,"wa_0":45,…}`
pub open spec fn numbers_status_of(v: JsonView) -> Result<Map<Seq<char>, u64>, ErrorView> {
    match v {
        JsonView::Object(es) => Ok(numbers_fold(es)),
        _ => Err(ErrorView::Parse(crate::json::object_expected("numbers status"@))),
    }
}

/// The service code of a `getNumbersStatus` key (see [`service_of_key`]).
fn service_key(k: &str) -> (r: String)
    ensures
        r@ == service_of_key(k@),
{
    let c = chars_of(k);
    proof {
        reveal_strlit("_0");
        reveal_strlit("_1");
    }
    if has_suffix(&c, "_0") || has_suffix(&c, "_1") {
        text(&slice_vec(&c, 0, c.len() - 2))
    } else {
        text(&c)
    }
}

/// The counts of a decoded `getNumbersStatus` answer (see [`numbers_status_of`]).
pub fn numbers_status_from_json(v: &Json) -> (r: ApiResult<KeyMap<ServiceCode, u64>>)
    ensures
        match r {
            Ok(m) => numbers_status_of(v@) == Ok::<Map<Seq<char>, u64>, ErrorView>(m@),
            Err(e) => numbers_status_of(v@) == Err::<Map<Seq<char>, u64>, ErrorView>(e@),
        },
{
    let es = match as_object(v, "numbers status") {
        Ok(es) => es,
        Err(e) => {
            return Err(e);
        },
    };
    let ghost vs = member_views(es@);
    let mut out: KeyMap<ServiceCode, u64> = KeyMap::new();
    let mut i: usize = 0;
    assert(vs.take(0) =~= Seq::<(Seq<char>, JsonView)>::empty());
    while i < es.len()
        invariant
            i <= es@.len(),
            vs == member_views(es@),
            numbers_fold(vs.take(i as int)) == out@,
        decreases es.len() - i,
    {
        proof {
            assert(vs.take(i + 1).drop_last() =~= vs.take(i as int));
            assert(vs.take(i + 1).last() == vs[i as int]);
        }
        let code = ServiceCode(service_key(es[i].0.as_str()));
        let n = match value_to_u64(Some(&es[i].1)) {
            Some(n) => n,
            None => 0,
        };
        let prev = match out.get(&code) {
            Some(p) => *p,
            None => 0,
        };
        out.insert(code, if n > prev { n } else { prev });
        i = i + 1;
    }
    assert(vs.take(i as int) =~= vs);
    Ok(out)
}

/// What [`parse_numbers_status`] makes of an answer text.
pub open spec fn numbers_status_answer(body: Seq<char>, r: ApiResult<KeyMap<ServiceCode, u64>>) -> bool {
    (match json_of_text(trim(body)) {
        None => r matches Err(e) && e@ is Parse,
        Some(v) => match r {
            Ok(m) => numbers_status_of(v) == Ok::<Map<Seq<char>, u64>, ErrorView>(m@),
            Err(e) => numbers_status_of(v) == Err::<Map<Seq<char>, u64>, ErrorView>(e@),
        },
    })
}

/// `{"tg":123,"wa_0":45,…}` — sms-activate appends `_0`/`_1` (forward flag) to service codes; it is stripped.
pub fn parse_numbers_status(body: &str) -> (r: ApiResult<KeyMap<ServiceCode, u64>>)
    ensures
        match json_of_text(trim(body@)) {
            None => r matches Err(e) && e@ is Parse,
            Some(v) => match r {
                Ok(m) => numbers_status_of(v) == Ok::<Map<Seq<char>, u64>, ErrorView>(m@),
                Err(e) => numbers_status_of(v) == Err::<Map<Seq<char>, u64>, ErrorView>(e@),
            },
        },
{
    let t = text(&trim_str(body));
    match parse_json(t.as_str()) {
        Ok(v) => numbers_status_from_json(&v),
        Err(e) => Err(e),
    }
}

/// The texts among a list of values (strings, numbers and booleans).
pub open spec fn strings_in(a: Seq<JsonView>) -> Seq<Seq<char>>
    decreases a.len(),
{
    if a.len() == 0 {
        Seq::empty()
    } else {
        strings_in(a.drop_last()) + match vstring(Some(a.last())) {
            Some(s) => seq![s],
            None => Seq::empty(),
        }
    }
}

/// An operator list: the texts of an array, empty for anything else.
pub open spec fn operator_list(ops: JsonView) -> Seq<Seq<char>> {
    match ops {
        JsonView::Array(a) => strings_in(a),
        _ => Seq::empty(),
    }
}

pub open spec fn operators_fold(es: Seq<(Seq<char>, JsonView)>) -> Map<CountryKey, Seq<Seq<char>>>
    decreases es.len(),
{
    if es.len() == 0 {
        Map::empty()
    } else {
        operators_fold(es.drop_last()).insert(country_key_of(es.last().0), operator_list(es.last().1))
    }
}

/// `{"status":"success","countryOperators":{"73":["claro","tim",…]}}` (or the inner map alone).
pub open spec fn operators_of(v: JsonView) -> Result<Map<CountryKey, Seq<Seq<char>>>, ErrorView> {
    let map = match jget(v, "countryOperators"@) {
        Some(m) => m,
        None => v,
    };
    match map {
        JsonView::Object(es) => Ok(operators_fold(es)),
        _ => Err(ErrorView::Parse(crate::json::object_expected("operators"@))),
    }
}

/// What an operator table denotes.
pub open spec fn operators_view(t: KeyMap<CountryRef, Vec<String>>) -> Map<CountryKey, Seq<Seq<char>>> {
    t@.map_values(|l: Vec<String>| seq_views(l@))
}

/// The texts among an array's items.
fn strings_from_json(a: &Vec<Json>) -> (r: Vec<String>)
    ensures
        seq_views(r@) == strings_in(views(a@)),
{
    let ghost av = views(a@);
    let mut out: Vec<String> = Vec::new();
    let mut i: usize = 0;
    assert(av.take(0) =~= Seq::<JsonView>::empty());
    assert(seq_views(out@) =~= Seq::<Seq<char>>::empty());
    while i < a.len()
        invariant
            i <= a@.len(),
            av == views(a@),
            seq_views(out@) == strings_in(av.take(i as int)),
        decreases a.len() - i,
    {
        proof {
            assert(av.take(i + 1).drop_last() =~= av.take(i as int));
            assert(av.take(i + 1).last() == a@[i as int]@);
        }
        let ghost before = out@;
        match value_to_string(Some(&a[i])) {
            Some(t) => {
                out.push(t);
                assert(seq_views(out@) =~= seq_views(before) + seq![t@]);
            },
            None => {
                assert(seq_views(out@) =~= seq_views(before) + Seq::<Seq<char>>::empty());
            },
        }
        i = i + 1;
    }
    assert(av.take(i as int) =~= av);
    out
}

/// The operator table of a decoded `getOperators` answer (see [`operators_of`]).
pub fn operators_from_json(v: &Json) -> (r: ApiResult<KeyMap<CountryRef, Vec<String>>>)
    ensures
        match r {
            Ok(t) => operators_of(v@) == Ok::<Map<CountryKey, Seq<Seq<char>>>, ErrorView>(operators_view(t)),
            Err(e) => operators_of(v@) == Err::<Map<CountryKey, Seq<Seq<char>>>, ErrorView>(e@),
        },
{
    let map = match v.get("countryOperators") {
        Some(m) => m,
        None => v,
    };
    let es = match as_object(map, "operators") {
        Ok(es) => es,
        Err(e) => {
            return Err(e);
        },
    };
    let ghost vs = member_views(es@);
    let mut out: KeyMap<CountryRef, Vec<String>> = KeyMap::new();
    let mut i: usize = 0;
    assert(vs.take(0) =~= Seq::<(Seq<char>, JsonView)>::empty());
    assert(operators_view(out) =~= Map::empty());
    while i < es.len()
        invariant
            i <= es@.len(),
            vs == member_views(es@),
            operators_fold(vs.take(i as int)) == operators_view(out),
        decreases es.len() - i,
    {
        proof {
            assert(vs.take(i + 1).drop_last() =~= vs.take(i as int));
            assert(vs.take(i + 1).last() == vs[i as int]);
        }
        let key = CountryRef::parse(es[i].0.as_str());
        let list = match es[i].1.as_array() {
            Some(a) => strings_from_json(a),
            None => Vec::new(),
        };
        assert(seq_views(list@) == operator_list(vs[i as int].1)) by {
            if !(es@[i as int].1@ is Array) {
                assert(seq_views(list@) =~= Seq::<Seq<char>>::empty());
            }
        }
        let ghost before = out;
        let ghost lv = seq_views(list@);
        out.insert(key, list);
        assert(operators_view(out) =~= operators_view(before).insert(country_key_of(vs[i as int].0), lv));
        i = i + 1;
    }
    assert(vs.take(i as int) =~= vs);
    Ok(out)
}

/// What [`parse_operators`] makes of an answer text.
pub open spec fn operators_answer(body: Seq<char>, r: ApiResult<KeyMap<CountryRef, Vec<String>>>) -> bool {
    (match json_of_text(trim(body)) {
        None => r matches Err(e) && e@ is Parse,
        Some(v) => match r {
            Ok(t) => operators_of(v) == Ok::<Map<CountryKey, Seq<Seq<char>>>, ErrorView>(operators_view(t)),
            Err(e) => operators_of(v) == Err::<Map<CountryKey, Seq<Seq<char>>>, ErrorView>(e@),
        },
    })
}

/// `{"status":"success","countryOperators":{"73":["claro","tim",…]}}`
pub fn parse_operators(body: &str) -> (r: ApiResult<KeyMap<CountryRef, Vec<String>>>)
    ensures
        match json_of_text(trim(body@)) {
            None => r matches Err(e) && e@ is Parse,
            Some(v) => match r {
                Ok(t) => operators_of(v) == Ok::<Map<CountryKey, Seq<Seq<char>>>, ErrorView>(operators_view(t)),
                Err(e) => operators_of(v) == Err::<Map<CountryKey, Seq<Seq<char>>>, ErrorView>(e@),
            },
        },
{
    let t = text(&trim_str(body));
    match parse_json(t.as_str()) {
        Ok(v) => operators_from_json(&v),
        Err(e) => Err(e),
    }
}

/// The first of two optional values that is there.
pub open spec fn either(a: Option<JsonView>, b: Option<JsonView>) -> Option<JsonView> {
    match a {
        Some(x) => Some(x),
        None => b,
    }
}

/// A text that is neither empty nor the word `null`.
pub open spec fn meaningful(o: Option<Seq<char>>) -> Option<Seq<char>> {
    match o {
        Some(s) => if s.len() == 0 || s == "null"@ { None } else { Some(s) },
        None => None,
    }
}

/// The rows of a member that holds them: an array, or an object with a `rows` array.
pub open spec fn rows_in(x: JsonView) -> Option<Seq<JsonView>> {
    match x {
        JsonView::Array(a) => Some(a),
        JsonView::Object(_) => match jget(x, "rows"@) {
            Some(JsonView::Array(a)) => Some(a),
            _ => None,
        },
        _ => None,
    }
}

/// The activation rows of an answer: a bare array, else the rows under `activeActivations`,
/// else those under `data`, else none.
pub open spec fn active_items(v: JsonView) -> Option<Seq<JsonView>> {
    match v {
        JsonView::Array(a) => Some(a),
        JsonView::Object(_) => {
            let first = match jget(v, "activeActivations"@) {
                Some(x) => rows_in(x),
                None => None,
            };
            match first {
                Some(a) => Some(a),
                None => match jget(v, "data"@) {
                    Some(x) => match rows_in(x) {
                        Some(a) => Some(a),
                        None => Some(Seq::empty()),
                    },
                    None => Some(Seq::empty()),
                },
            }
        },
        _ => None,
    }
}

/// One activation row (sms-activate names first, Hero-SMS names as fallback); `None` without an id.
pub open spec fn active_row(a: JsonView) -> Option<ActiveView> {
    match vstring(either(jget(a, "activationId"@), jget(a, "id"@))) {
        None => None,
        Some(id) => Some(
            ActiveView {
                id,
                service: vstring(either(jget(a, "serviceCode"@), jget(a, "service"@))),
                phone: vstring(either(jget(a, "phoneNumber"@), jget(a, "phone"@))),
                cost: vamount(either(jget(a, "activationCost"@), jget(a, "cost"@))),
                status: vstring(either(jget(a, "activationStatus"@), jget(a, "status"@))),
                sms_code: meaningful(vstring(jget(a, "smsCode"@))),
                sms_text: meaningful(vstring(jget(a, "smsText"@))),
                activation_time: vstring(jget(a, "activationTime"@)),
                country: vcountry(either(jget(a, "countryCode"@), jget(a, "country"@))),
                can_get_another_sms: vbool(jget(a, "canGetAnotherSms"@)),
            },
        ),
    }
}

pub open spec fn active_rows(items: Seq<JsonView>) -> Result<Seq<ActiveView>, ErrorView>
    decreases items.len(),
{
    if items.len() == 0 {
        Ok(Seq::empty())
    } else {
        match active_rows(items.drop_last()) {
            Err(e) => Err(e),
            Ok(r) => match active_row(items.last()) {
                Some(x) => Ok(r.push(x)),
                None => Err(ErrorView::Parse("activation without id"@)),
            },
        }
    }
}

/// `getActiveActivations` in its sms-activate, Hero-SMS and bare-array shapes.
pub open spec fn active_activations_of(v: JsonView) -> Result<Seq<ActiveView>, ErrorView> {
    match active_items(v) {
        None => Err(ErrorView::Unexpected(scalar_text(v))),
        Some(items) => active_rows(items),
    }
}

proof fn lemma_active_err_sticks(items: Seq<JsonView>, k: int, e: ErrorView)
    requires
        0 <= k <= items.len(),
        active_rows(items.take(k)) == Err::<Seq<ActiveView>, ErrorView>(e),
    ensures
        active_rows(items) == Err::<Seq<ActiveView>, ErrorView>(e),
    decreases items.len() - k,
{
    if k < items.len() {
        assert(items.take(k + 1).drop_last() =~= items.take(k));
        lemma_active_err_sticks(items, k + 1, e);
    } else {
        assert(items.take(k) =~= items);
    }
}

/// `a.get(first).or_else(|| a.get(second))`.
fn get_either<'a>(a: &'a Json, first: &str, second: &str) -> (r: Option<&'a Json>)
    ensures
        oview(r) == either(jget(a@, first@), jget(a@, second@)),
{
    match a.get(first) {
        Some(x) => Some(x),
        None => a.get(second),
    }
}

/// [`meaningful`] on an optional text.
fn meaningful_text(o: Option<String>) -> (r: Option<String>)
    ensures
        opt_text(r) == meaningful(opt_text(o)),
{
    match o {
        Some(s) => {
            let c = chars_of(s.as_str());
            if c.len() == 0 || eq_str(&c, "null") {
                None
            } else {
                Some(s)
            }
        },
        None => None,
    }
}

/// One activation row (see [`active_row`]).
fn active_row_from_json(a: &Json) -> (r: ApiResult<ActiveActivation>)
    ensures
        match r {
            Ok(x) => active_row(a@) == Some(x@),
            Err(e) => active_row(a@) is None && e@ == ErrorView::Parse("activation without id"@),
        },
{
    let id = match value_to_string(get_either(a, "activationId", "id")) {
        Some(id) => id,
        None => {
            return Err(ApiError::Parse(owned("activation without id")));
        },
    };
    let service = match value_to_string(get_either(a, "serviceCode", "service")) {
        Some(c) => Some(ServiceCode(c)),
        None => None,
    };
    Ok(ActiveActivation {
        id: ActivationId(id),
        service,
        phone: value_to_string(get_either(a, "phoneNumber", "phone")),
        cost: value_to_amount(get_either(a, "activationCost", "cost")),
        status: value_to_string(get_either(a, "activationStatus", "status")),
        sms_code: meaningful_text(value_to_string(a.get("smsCode"))),
        sms_text: meaningful_text(value_to_string(a.get("smsText"))),
        activation_time: value_to_string(a.get("activationTime")),
        country: value_to_country(get_either(a, "countryCode", "country")),
        can_get_another_sms: value_to_bool(a.get("canGetAnotherSms")),
    })
}

/// The rows held by a member (see [`rows_in`]).
fn rows_of<'a>(x: &'a Json) -> (r: Option<&'a Vec<Json>>)
    ensures
        match r {
            Some(a) => rows_in(x@) == Some(views(a@)),
            None => rows_in(x@) is None,
        },
{
    match x {
        Json::Array(a) => {
            proof {
                crate::json::lemma_array_view(*a);
            }
            Some(a)
        },
        Json::Object(_) => match x.get("rows") {
            Some(r) => r.as_array(),
            None => None,
        },
        _ => None,
    }
}

/// [`parse_active_activations`] over an already decoded answer (a bare array of rows is
/// accepted, so a dialect can hand over the array it prefers).
pub fn active_activations_from_value(v: &Json) -> (r: ApiResult<Vec<ActiveActivation>>)
    ensures
        list_res(r) == active_activations_of(v@),
{
    let empty: Vec<Json> = Vec::new();
    let items: &Vec<Json> = match v {
        Json::Array(a) => {
            proof {
                crate::json::lemma_array_view(*a);
            }
            a
        },
        Json::Object(_) => {
            let first = match v.get("activeActivations") {
                Some(x) => rows_of(x),
                None => None,
            };
            match first {
                Some(a) => a,
                None => match v.get("data") {
                    Some(x) => match rows_of(x) {
                        Some(a) => a,
                        None => &empty,
                    },
                    None => &empty,
                },
            }
        },
        _ => {
            return Err(ApiError::Unexpected(scalar_to_string(v)));
        },
    };
    assert(views(empty@) =~= Seq::<JsonView>::empty());
    let ghost iv = views(items@);
    assert(active_items(v@) == Some(iv));
    let mut out: Vec<ActiveActivation> = Vec::new();
    let mut i: usize = 0;
    assert(iv.take(0) =~= Seq::<JsonView>::empty());
    assert(seq_views(out@) =~= Seq::<ActiveView>::empty());
    while i < items.len()
        invariant
            i <= items@.len(),
            iv == views(items@),
            active_items(v@) == Some(iv),
            active_rows(iv.take(i as int)) == Ok::<Seq<ActiveView>, ErrorView>(seq_views(out@)),
        decreases items.len() - i,
    {
        proof {
            assert(iv.take(i + 1).drop_last() =~= iv.take(i as int));
            assert(iv.take(i + 1).last() == items@[i as int]@);
        }
        let row = match active_row_from_json(&items[i]) {
            Ok(x) => x,
            Err(e) => {
                proof {
                    lemma_active_err_sticks(iv, i + 1, e@);
                }
                return Err(e);
            },
        };
        let ghost before = out@;
        let ghost rv = row@;
        out.push(row);
        assert(seq_views(out@) =~= seq_views(before).push(rv));
        i = i + 1;
    }
    assert(iv.take(i as int) =~= iv);
    Ok(out)
}

/// What [`parse_active_activations`] makes of an answer text.
pub open spec fn active_activations_answer(body: Seq<char>, r: ApiResult<Vec<ActiveActivation>>) -> bool {
    (match json_of_text(trim(body)) {
        None => r matches Err(e) && e@ is Parse,
        Some(v) => list_res(r) == active_activations_of(v),
    })
}

/// `{"status":"success","activeActivations":[{"activationId":…,"serviceCode":…,…}]}`; also a
/// `data` array (Hero-SMS) or a bare array.
pub fn parse_active_activations(body: &str) -> (r: ApiResult<Vec<ActiveActivation>>)
    ensures
        match json_of_text(trim(body@)) {
            None => r matches Err(e) && e@ is Parse,
            Some(v) => list_res(r) == active_activations_of(v),
        },
{
    let t = text(&trim_str(body));
    match parse_json(t.as_str()) {
        Ok(v) => active_activations_from_value(&v),
        Err(e) => Err(e),
    }
}

/// `{"title":"<CODE>","details":"…","info":{…}}` — the JSON error envelope shared by Hero-SMS
/// and Tiger SMS (same backend family). Data objects never carry `title`.
#[derive(Debug)]
pub struct TitleEnvelope {
    /// The error code (`BAD_KEY`, `NOT_FOUND`, `UNPROCESSABLE_ENTITY`, …), trimmed.
    pub title: String,
    /// Human-readable text; empty when absent.
    pub details: String,
    /// Optional structured payload (`{"field","code","message"}`, `{"min"}`, …).
    pub info: Option<Json>,
}

/// What a [`TitleEnvelope`] denotes.
pub struct EnvelopeView {
    pub title: Seq<char>,
    pub details: Seq<char>,
    pub info: Option<JsonView>,
}

impl View for TitleEnvelope {
    type V = EnvelopeView;

    open spec fn view(&self) -> EnvelopeView {
        EnvelopeView {
            title: self.title@,
            details: self.details@,
            info: match self.info {
                Some(i) => Some(i@),
                None => None,
            },
        }
    }
}

/// The envelope of a decoded document: a string `title` is required.
pub open spec fn envelope_in(v: JsonView) -> Option<EnvelopeView> {
    match jget(v, "title"@) {
        Some(JsonView::Str(title)) => Some(
            EnvelopeView {
                title: trim(title),
                details: match jget(v, "details"@) {
                    Some(JsonView::Str(d)) => trim(d),
                    _ => Seq::empty(),
                },
                info: jget(v, "info"@),
            },
        ),
        _ => None,
    }
}

/// The envelope of a body taken as it is (see [`may_contain`] for which bodies are decoded).
pub open spec fn envelope_of_text(t: Seq<char>) -> Option<EnvelopeView> {
    if !may_contain(t, "\"title\""@) {
        None
    } else {
        match json_of_text(t) {
            None => None,
            Some(v) => envelope_in(v),
        }
    }
}

/// The error of a `title` envelope: the titles of the backend family first, then every standard
/// token (an unmapped one carries `"<title>: <details>"` when there are details).
pub open spec fn envelope_error(e: EnvelopeView) -> Option<ErrorView> {
    let title = e.title;
    let details = e.details;
    if title == "BAD_KEY"@ || title == "NO_KEY"@ {
        Some(ErrorView::BadKey)
    } else if title == "BAD_ACTION"@ {
        Some(ErrorView::BadAction(Seq::empty()))
    } else if title == "NOT_FOUND"@ {
        Some(ErrorView::NoActivation)
    } else if title == "RATE_LIMIT"@ {
        Some(ErrorView::RateLimited(vu64(oget(e.info, "retry_after_seconds"@))))
    } else if title == "UNPROCESSABLE_ENTITY"@ {
        let field = match vstring(oget(e.info, "field"@)) {
            Some(f) => f,
            None => Seq::empty(),
        };
        let message = match vstring(oget(e.info, "message"@)) {
            Some(m) => if m.len() > 0 {
                m
            } else {
                match vstring(oget(e.info, "code"@)) {
                    Some(c) => c,
                    None => details,
                }
            },
            None => match vstring(oget(e.info, "code"@)) {
                Some(c) => c,
                None => details,
            },
        };
        Some(ErrorView::Validation(field, message))
    } else if title == "WRONG_MAX_PRICE"@ {
        Some(ErrorView::WrongMaxPrice(vamount(oget(e.info, "min"@))))
    } else if title == "BANNED"@ {
        Some(
            ErrorView::Banned(
                match vstring(oget(e.info, "readable_date"@)) {
                    Some(d) => d,
                    None => match vstring(oget(e.info, "banned_until"@)) {
                        Some(b) => b,
                        None => details,
                    },
                },
            ),
        )
    } else if title == "EARLY_CANCEL_DENIED"@ {
        Some(ErrorView::EarlyCancelDenied)
    } else {
        match code_error(title) {
            Some(ErrorView::Other(code)) => if details.len() > 0 {
                Some(ErrorView::Other(code + ": "@ + details))
            } else {
                Some(ErrorView::Other(code))
            },
            other => other,
        }
    }
}

fn opt_json_view(o: &Option<Json>) -> (r: Option<&Json>)
    ensures
        oview(r) == match *o {
            Some(i) => Some(i@),
            None => None::<JsonView>,
        },
{
    match o {
        Some(i) => Some(i),
        None => None,
    }
}

impl TitleEnvelope {
    /// The envelope of a decoded document (see [`envelope_in`]).
    pub fn from_value(v: &Json) -> (r: Option<TitleEnvelope>)
        ensures
            match r {
                Some(e) => envelope_in(v@) == Some(e@),
                None => envelope_in(v@) is None,
            },
    {
        let title = match v.get("title") {
            Some(Json::Str(t)) => text(&trim_str(t.as_str())),
            _ => {
                return None;
            },
        };
        let details = match v.get("details") {
            Some(Json::Str(d)) => text(&trim_str(d.as_str())),
            _ => String::new(),
        };
        let info = match v.get("info") {
            Some(i) => Some(i.deep_copy()),
            None => None,
        };
        Some(TitleEnvelope { title, details, info })
    }

    /// The envelope of a body taken as it is (see [`envelope_of_text`]).
    pub fn from_text(body: &str) -> (r: Option<TitleEnvelope>)
        ensures
            match r {
                Some(e) => envelope_of_text(body@) == Some(e@),
                None => envelope_of_text(body@) is None,
            },
    {
        if !may_contain_top_level_key(body, "\"title\"") {
            return None;
        }
        match parse_json(body) {
            Ok(v) => Self::from_value(&v),
            Err(_) => None,
        }
    }

    /// Parses `body` (trimmed first); `None` when it is not a `title` envelope.
    pub fn parse(body: &str) -> (r: Option<TitleEnvelope>)
        ensures
            match r {
                Some(e) => envelope_of_text(trim(body@)) == Some(e@),
                None => envelope_of_text(trim(body@)) is None,
            },
    {
        let t = text(&trim_str(body));
        Self::from_text(t.as_str())
    }

    /// `info.<key>`.
    pub fn info(&self, key: &str) -> (r: Option<&Json>)
        ensures
            oview(r) == oget(self@.info, key@),
    {
        get_in(opt_json_view(&self.info), key)
    }

    /// Maps the family's documented titles (see [`envelope_error`]); `None` when the title is
    /// not an error token at all.
    pub fn to_error(&self) -> (r: Option<ApiError>)
        ensures
            opt_err(r) == envelope_error(self@),
    {
        let t = chars_of(self.title.as_str());
        let details = &self.details;
        let e = if eq_str(&t, "BAD_KEY") || eq_str(&t, "NO_KEY") {
            ApiError::BadKey
        } else if eq_str(&t, "BAD_ACTION") {
            ApiError::BadAction(String::new())
        } else if eq_str(&t, "NOT_FOUND") {
            ApiError::NoActivation
        } else if eq_str(&t, "RATE_LIMIT") {
            ApiError::RateLimited { retry_after: value_to_u64(self.info("retry_after_seconds")) }
        } else if eq_str(&t, "UNPROCESSABLE_ENTITY") {
            let field = match value_to_string(self.info("field")) {
                Some(f) => f,
                None => String::new(),
            };
            let from_code = match value_to_string(self.info("code")) {
                Some(c) => c,
                None => copy_string(details),
            };
            let message = match value_to_string(self.info("message")) {
                Some(m) => if chars_of(m.as_str()).len() > 0 {
                    m
                } else {
                    from_code
                },
                None => from_code,
            };
            ApiError::Validation { field, message }
        } else if eq_str(&t, "WRONG_MAX_PRICE") {
            ApiError::WrongMaxPrice { min: value_to_amount(self.info("min")) }
        } else if eq_str(&t, "BANNED") {
            let until = match value_to_string(self.info("readable_date")) {
                Some(d) => d,
                None => match value_to_string(self.info("banned_until")) {
                    Some(b) => b,
                    None => copy_string(details),
                },
            };
            ApiError::Banned { until }
        } else if eq_str(&t, "EARLY_CANCEL_DENIED") {
            ApiError::EarlyCancelDenied
        } else {
            proof {
                lemma_trim_idempotent(self.title@);
            }
            return match ApiError::from_code(self.title.as_str()) {
                Some(ApiError::Other(code)) => {
                    if chars_of(details.as_str()).len() > 0 {
                        let mut m = code;
                        crate::text::push_str(&mut m, ": ");
                        crate::text::push_str(&mut m, details.as_str());
                        Some(ApiError::Other(m))
                    } else {
                        Some(ApiError::Other(code))
                    }
                },
                other => other,
            };
        };
        Some(e)
    }
}

/// [`TitleEnvelope::parse`] followed by [`TitleEnvelope::to_error`].
pub fn error_from_title_envelope(body: &str) -> (r: Option<ApiError>)
    ensures
        opt_err(r) == match envelope_of_text(trim(body@)) {
            Some(e) => envelope_error(e),
            None => None,
        },
{
    match TitleEnvelope::parse(body) {
        Some(e) => e.to_error(),
        None => None,
    }
}

} // verus!
