//! What the readers of the provider answers take from each member, and what a number request
//! sends: properties over every input, stated in terms of the answer's own members.

use vstd::prelude::*;
use crate::api::{number_query, price_text};
use crate::json::{JsonView, jget, vamount, vbool, vcountry, vstring, vu64};
use crate::protocol::{
    active_activations_of, active_items, active_row, active_rows, either, indexed_entries, meaningful, price_cell,
    access_number_of, activation_v2_of, head_tail, price_row_of, price_table_of, prices_of, status_of, top_countries_of,
    top_row, top_rows,
};
use crate::providers::hero_sms::{
    HeroTopView, StatusV2View, free_price_row, free_price_rows, otp_of, status_v2_json, top_free_price_of,
};
use crate::providers::fivesim::{buy_plan, buy_query, slug_of, with_query};
use crate::text::{find_char, lemma_find_char, split_once, starts_with, trim};
use crate::providers::fivesim::fields::{
    amount_or_zero, items_or_empty, opt_text_member, opt_u64_member, req_text, req_u64, text_or_empty,
};
use crate::providers::fivesim::orders::{OrderView, SmsView, order_of, records, sms_of, status_of_text};
use crate::sorting::{payloads, sort_keyed};
use crate::types::{
    ActivationView, ActiveView, CountryKey, Price, RequestParams, StatusView, TopCountryView, country_key_of, country_text,
};

verus! {

/// A number request sends its price bounds. After the service, the country and the operator
/// (when there is one) come `maxPrice` and then `minPrice`, each exactly when the request has
/// that bound and carrying its price text; the extra parameters close the query unchanged.
pub proof fn law_number_request_sends_its_price_bounds(r: RequestParams)
    ensures
        ({
            let q = number_query(r);
            let ops: int = if r.operator is Some { 1 } else { 0 };
            let maxs: int = if r.max_price is Some { 1 } else { 0 };
            let mins: int = if r.min_price is Some { 1 } else { 0 };
            &&& q.len() == 2 + ops + maxs + mins + r.extra.len()
            &&& q[0] == ("service"@, r.service)
            &&& q[1] == ("country"@, country_text(r.country))
            &&& r.operator matches Some(o) ==> q[2] == ("operator"@, o)
            &&& r.max_price matches Some(p) ==> q[2 + ops] == ("maxPrice"@, price_text(p.units as int))
            &&& r.min_price matches Some(p) ==> q[2 + ops + maxs] == ("minPrice"@, price_text(p.units as int))
            &&& q.skip(2 + ops + maxs + mins) == r.extra
        }),
{
    let head = seq![("service"@, r.service), ("country"@, country_text(r.country))];
    let op: Seq<(Seq<char>, Seq<char>)> = match r.operator {
        Some(o) => seq![("operator"@, o)],
        None => Seq::empty(),
    };
    let mx: Seq<(Seq<char>, Seq<char>)> = match r.max_price {
        Some(p) => seq![("maxPrice"@, price_text(p.units as int))],
        None => Seq::empty(),
    };
    let mn: Seq<(Seq<char>, Seq<char>)> = match r.min_price {
        Some(p) => seq![("minPrice"@, price_text(p.units as int))],
        None => Seq::empty(),
    };
    let q = number_query(r);
    assert(q == head + op + mx + mn + r.extra);
    let fixed = head + op + mx + mn;
    assert(q.skip(fixed.len() as int) =~= r.extra);
    assert(q[0] == fixed[0] && q[1] == fixed[1]);
    if r.operator is Some {
        assert(q[2] == fixed[2]);
    }
    if r.max_price is Some {
        assert(q[2 + op.len() as int] == fixed[2 + op.len() as int]);
    }
    if r.min_price is Some {
        assert(q[2 + op.len() + mx.len() as int] == fixed[2 + op.len() + mx.len() as int]);
    }
}

/// An OTP is read member by member from its object: the code is the `code` member, whatever
/// the `text` says, the text is the `text` member, and likewise the sender (`phoneFrom`), the
/// service, the date and the type; the object must carry an `id`. A `getStatusV2` answer's OTP
/// is the one under `data`.
pub proof fn law_otp_code_is_its_code_member(d: JsonView, v: JsonView)
    ensures
        otp_of(d) matches Some(o) ==> ({
            &&& vstring(jget(d, "id"@)) == Some(o.id)
            &&& o.code == vstring(jget(d, "code"@))
            &&& o.text == vstring(jget(d, "text"@))
            &&& o.phone_from == vstring(jget(d, "phoneFrom"@))
            &&& o.service == vstring(jget(d, "service"@))
            &&& o.date == vstring(jget(d, "date"@))
            &&& o.kind == vstring(jget(d, "type"@))
        }),
        vstring(jget(d, "id"@)) is Some ==> otp_of(d) is Some,
        status_v2_json(v) matches Ok(StatusV2View::Otp(_, Some(o))) ==> (jget(v, "data"@) matches Some(x)
            && otp_of(x) == Some(o)),
{
}

/// The cells of a country's row: a service it lists is read from a cell of the answer under
/// that service's name.
proof fn lemma_row_cell(country: Seq<char>, ses: Seq<(Seq<char>, JsonView)>, m: Map<Seq<char>, Price>, s: Seq<char>)
    requires
        price_row_of(country, ses) == Ok::<Map<Seq<char>, Price>, crate::error::ErrorView>(m),
        m.contains_key(s),
    ensures
        exists|j: int| 0 <= j < ses.len() && ses[j].0 == s && price_cell(ses[j].1) == Some(m[s]),
    decreases ses.len(),
{
    let d = ses.drop_last();
    if s == ses.last().0 {
        assert(ses[ses.len() - 1] == ses.last());
    } else {
        let m0 = price_row_of(country, d)->Ok_0;
        assert(m0.contains_key(s));
        lemma_row_cell(country, d, m0, s);
        let j = choose|j: int| 0 <= j < d.len() && d[j].0 == s && price_cell(d[j].1) == Some(m0[s]);
        assert(ses[j] == d[j]);
    }
}

/// The rows of a price table: every country it lists is read from a non-empty member of the
/// answer that denotes it.
proof fn lemma_table_rows(es: Seq<(Seq<char>, JsonView)>)
    ensures
        price_table_of(es) matches Ok(t) ==> forall|key: CountryKey|
            #[trigger] t.contains_key(key) ==> exists|i: int|
                0 <= i < es.len() && es[i].0.len() > 0 && country_key_of(es[i].0) == key && (es[i].1 matches JsonView::Object(
                    ses,
                ) && price_row_of(es[i].0, ses) == Ok::<Map<Seq<char>, Price>, crate::error::ErrorView>(t[key])),
    decreases es.len(),
{
    if es.len() > 0 {
        let d = es.drop_last();
        lemma_table_rows(d);
        if let Ok(t) = price_table_of(es) {
            let t0 = price_table_of(d)->Ok_0;
            assert forall|key: CountryKey| #[trigger] t.contains_key(key) implies exists|i: int|
                0 <= i < es.len() && es[i].0.len() > 0 && country_key_of(es[i].0) == key && (es[i].1 matches JsonView::Object(
                    ses,
                ) && price_row_of(es[i].0, ses) == Ok::<Map<Seq<char>, Price>, crate::error::ErrorView>(t[key])) by {
                let (c, services) = es.last();
                if c.len() > 0 && country_key_of(c) == key {
                    assert(es[es.len() - 1] == es.last());
                } else {
                    assert(t0.contains_key(key));
                    let i = choose|i: int|
                        0 <= i < d.len() && d[i].0.len() > 0 && country_key_of(d[i].0) == key && (d[i].1 matches JsonView::Object(
                            ses,
                        ) && price_row_of(d[i].0, ses) == Ok::<Map<Seq<char>, Price>, crate::error::ErrorView>(t0[key]));
                    assert(es[i] == d[i]);
                }
            }
        }
    }
}

/// Every price in a `getPrices` table is read from a cell of the answer: under a non-empty
/// country member that denotes its country, under its service's name. Its stock is that cell's
/// `count` member (0 when absent), whatever `physicalCount` says, `physicalCount` only gives the
/// physical stock, and its cost is the `cost` member.
pub proof fn law_price_count_is_its_count_member(v: JsonView, key: CountryKey, s: Seq<char>)
    ensures
        match prices_of(v) {
            Ok(t) => t.contains_key(key) && t[key].contains_key(s) ==> (v is Object && exists|i: int, j: int|
                #![trigger v->Object_0[i], v->Object_0[i].1->Object_0[j]]
                0 <= i < v->Object_0.len() && v->Object_0[i].0.len() > 0 && country_key_of(v->Object_0[i].0) == key
                    && v->Object_0[i].1 is Object && 0 <= j < v->Object_0[i].1->Object_0.len()
                    && v->Object_0[i].1->Object_0[j].0 == s && t[key][s].count == (match vu64(
                    jget(v->Object_0[i].1->Object_0[j].1, "count"@),
                ) {
                    Some(n) => n,
                    None => 0,
                }) && t[key][s].physical_count == vu64(jget(v->Object_0[i].1->Object_0[j].1, "physicalCount"@))
                    && vamount(jget(v->Object_0[i].1->Object_0[j].1, "cost"@)) == Some(t[key][s].cost.units as int)),
            Err(_) => true,
        },
{
    if let Ok(t) = prices_of(v) {
        if t.contains_key(key) && t[key].contains_key(s) {
            let es = v->Object_0;
            lemma_table_rows(es);
            let i = choose|i: int|
                0 <= i < es.len() && es[i].0.len() > 0 && country_key_of(es[i].0) == key && (es[i].1 matches JsonView::Object(
                    ses,
                ) && price_row_of(es[i].0, ses) == Ok::<Map<Seq<char>, Price>, crate::error::ErrorView>(t[key]));
            let ses = es[i].1->Object_0;
            assert(price_row_of(es[i].0, ses) == Ok::<Map<Seq<char>, Price>, crate::error::ErrorView>(t[key]));
            lemma_row_cell(es[i].0, ses, t[key], s);
            let j = choose|j: int| 0 <= j < ses.len() && ses[j].0 == s && price_cell(ses[j].1) == Some(t[key][s]);
            let p = ses[j].1;
            assert(price_cell(p) == Some(t[key][s]));
            assert(t[key][s].count == (match vu64(jget(p, "count"@)) {
                Some(n) => n,
                None => 0,
            }));
            assert(t[key][s].physical_count == vu64(jget(p, "physicalCount"@)));
            assert(vamount(jget(p, "cost"@)) == Some(t[key][s].cost.units as int));
            assert(v->Object_0[i].1->Object_0[j] == ses[j]);
        }
    }
}

/// Whether an activation row carries an id (`activationId`, or `id`).
pub open spec fn has_id(a: JsonView) -> bool {
    vstring(either(jget(a, "activationId"@), jget(a, "id"@))) is Some
}

/// Whether a top-country entry names its country.
pub open spec fn names_country(e: JsonView) -> bool {
    vu64(jget(e, "country"@)) is Some
}

/// The rows read from indexed entries are the entries' rows, one for one, in order.
proof fn lemma_top_rows(ents: Seq<(u128, JsonView)>)
    ensures
        (forall|i: int| 0 <= i < ents.len() ==> names_country(#[trigger] ents[i].1)) ==> top_rows(ents) is Ok,
        top_rows(ents) matches Ok(rows) ==> rows.len() == ents.len() && forall|k: int|
            0 <= k < rows.len() ==> #[trigger] rows[k] == (ents[k].0, top_row(ents[k].1)->Some_0) && top_row(ents[k].1) is Some,
    decreases ents.len(),
{
    if ents.len() > 0 {
        let d = ents.drop_last();
        lemma_top_rows(d);
        if forall|i: int| 0 <= i < ents.len() ==> names_country(#[trigger] ents[i].1) {
            assert forall|i: int| 0 <= i < d.len() implies names_country(#[trigger] d[i].1) by {
                assert(d[i] == ents[i]);
            }
            assert(names_country(ents[ents.len() - 1].1));
        }
        if let Ok(rows) = top_rows(ents) {
            let r0 = top_rows(d)->Ok_0;
            assert forall|k: int| 0 <= k < rows.len() implies #[trigger] rows[k] == (ents[k].0, top_row(ents[k].1)->Some_0)
                && top_row(ents[k].1) is Some by {
                if k < d.len() {
                    assert(rows[k] == r0[k]);
                    assert(ents[k] == d[k]);
                }
            }
        }
    }
}

/// What one top-country row says of the entry `e` it was read from: the country is the
/// entry's `country` member, the price its `price` member (0 when absent) whatever
/// `retail_price` says, the retail price its `retail_price` member, the stock its `count`
/// member (0 when absent), and no provider.
pub open spec fn top_row_reads(x: TopCountryView, e: JsonView) -> bool {
    &&& vu64(jget(e, "country"@)) matches Some(n) && x.country == CountryKey::Id((n % 0x1_0000_0000) as u32)
    &&& x.price == match vamount(jget(e, "price"@)) {
        Some(p) => p,
        None => 0,
    }
    &&& x.retail_price == vamount(jget(e, "retail_price"@))
    &&& x.count == match vu64(jget(e, "count"@)) {
        Some(c) => c,
        None => 0,
    }
    &&& x.provider_id is None
}

/// A `getTopCountriesByService` answer gives as many rows as it has entries, each read from one
/// of them as [`top_row_reads`] says; it is read whenever every entry names a country.
pub proof fn law_top_price_is_its_price_member(v: JsonView)
    ensures
        top_countries_of(v) matches Ok(rows) ==> (indexed_entries(v) matches Some(ents) && rows.len() == ents.len()
            && forall|k: int|
            0 <= k < rows.len() ==> exists|i: int|
                #![trigger ents[i]]
                0 <= i < ents.len() && top_row_reads(#[trigger] rows[k], ents[i].1)),
        indexed_entries(v) matches Some(ents) ==> ((forall|i: int| 0 <= i < ents.len() ==> names_country(#[trigger] ents[i].1))
            ==> top_countries_of(v) is Ok),
{
    if let Some(ents) = indexed_entries(v) {
        lemma_top_rows(ents);
    }
    if let Ok(rows) = top_countries_of(v) {
        let ents = indexed_entries(v)->Some_0;
        let keyed = top_rows(ents)->Ok_0;
        lemma_top_rows(ents);
        crate::laws::law_sorted_rows(keyed);
        let sorted = sort_keyed(keyed);
        assert(rows == payloads(sorted));
        assert forall|k: int| 0 <= k < rows.len() implies exists|i: int|
            #![trigger ents[i]]
            0 <= i < ents.len() && top_row_reads(#[trigger] rows[k], ents[i].1) by {
            assert(rows[k] == sorted[k].1);
            assert(keyed.contains(sorted[k]));
            let i = choose|i: int| 0 <= i < keyed.len() && keyed[i] == sorted[k];
            assert(keyed[i] == (ents[i].0, top_row(ents[i].1)->Some_0));
            assert(top_row_reads(rows[k], ents[i].1));
            assert(ents[i] == ents[i]);
        }
    }
}

/// The activations read from rows are the rows' activations, one for one, in order.
proof fn lemma_active_rows(items: Seq<JsonView>)
    ensures
        (forall|i: int| 0 <= i < items.len() ==> has_id(#[trigger] items[i])) ==> active_rows(items) is Ok,
        active_rows(items) matches Ok(rows) ==> rows.len() == items.len() && forall|k: int|
            0 <= k < rows.len() ==> active_row(items[k]) == Some(#[trigger] rows[k]),
    decreases items.len(),
{
    if items.len() > 0 {
        let d = items.drop_last();
        lemma_active_rows(d);
        if forall|i: int| 0 <= i < items.len() ==> has_id(#[trigger] items[i]) {
            assert forall|i: int| 0 <= i < d.len() implies has_id(#[trigger] d[i]) by {
                assert(d[i] == items[i]);
            }
            assert(has_id(items[items.len() - 1]));
        }
        if let Ok(rows) = active_rows(items) {
            let r0 = active_rows(d)->Ok_0;
            assert forall|k: int| 0 <= k < rows.len() implies active_row(items[k]) == Some(#[trigger] rows[k]) by {
                if k < d.len() {
                    assert(rows[k] == r0[k]);
                    assert(items[k] == d[k]);
                }
            }
        }
    }
}

/// What one active activation says of the row `a` it was read from: its SMS code is the
/// row's `smsCode` member (none when absent, empty or `"null"`), whatever `smsText` says, its
/// SMS text the `smsText` member, and its id, service, phone, cost, status and country the
/// sms-activate members, or the Hero-SMS ones when those are absent.
pub open spec fn active_row_reads(x: ActiveView, a: JsonView) -> bool {
    &&& x.sms_code == meaningful(vstring(jget(a, "smsCode"@)))
    &&& x.sms_text == meaningful(vstring(jget(a, "smsText"@)))
    &&& vstring(either(jget(a, "activationId"@), jget(a, "id"@))) == Some(x.id)
    &&& x.service == vstring(either(jget(a, "serviceCode"@), jget(a, "service"@)))
    &&& x.phone == vstring(either(jget(a, "phoneNumber"@), jget(a, "phone"@)))
    &&& x.cost == vamount(either(jget(a, "activationCost"@), jget(a, "cost"@)))
    &&& x.status == vstring(either(jget(a, "activationStatus"@), jget(a, "status"@)))
    &&& x.activation_time == vstring(jget(a, "activationTime"@))
    &&& x.country == vcountry(either(jget(a, "countryCode"@), jget(a, "country"@)))
    &&& x.can_get_another_sms == vbool(jget(a, "canGetAnotherSms"@))
}

/// A `getActiveActivations` answer gives one activation per row, in row order, the `k`-th read
/// from the `k`-th row as [`active_row_reads`] says; it is read whenever every row has an id.
pub proof fn law_active_sms_code_is_its_sms_code_member(v: JsonView)
    ensures
        active_activations_of(v) matches Ok(rows) ==> (active_items(v) matches Some(items) && rows.len() == items.len()
            && forall|k: int| 0 <= k < rows.len() ==> active_row_reads(#[trigger] rows[k], items[k])),
        active_items(v) matches Some(items) ==> ((forall|i: int| 0 <= i < items.len() ==> has_id(#[trigger] items[i]))
            ==> active_activations_of(v) is Ok),
{
    if let Some(items) = active_items(v) {
        lemma_active_rows(items);
    }
    if let Ok(rows) = active_activations_of(v) {
        let items = active_items(v)->Some_0;
        lemma_active_rows(items);
        assert forall|k: int| 0 <= k < rows.len() implies active_row_reads(#[trigger] rows[k], items[k]) by {
            assert(active_row(items[k]) == Some(rows[k]));
        }
    }
}

/// A text split at its first `c`: what comes before holds no `c`.
proof fn lemma_split_once(t: Seq<char>, c: char)
    ensures
        split_once(t, c) matches Some((a, b)) ==> t == a + seq![c] + b && forall|j: int| 0 <= j < a.len() ==> a[j] != c,
{
    lemma_find_char(t, c);
    if let Some((a, b)) = split_once(t, c) {
        let i = find_char(t, c)->Some_0;
        assert(t =~= a + seq![c] + b);
    }
}

/// The first `c` of `a + [c] + b` when `a` holds none.
proof fn lemma_split_at(a: Seq<char>, b: Seq<char>, c: char)
    requires
        forall|j: int| 0 <= j < a.len() ==> a[j] != c,
    ensures
        split_once(a + seq![c] + b, c) == Some((a, b)),
{
    let t = a + seq![c] + b;
    lemma_find_char(t, c);
    assert(t[a.len() as int] == c);
    match find_char(t, c) {
        Some(i) => {
            if i < a.len() {
                assert(t[i] == a[i]);
            }
            assert(i == a.len());
            assert(t.subrange(0, i) =~= a);
            assert(t.subrange(i + 1, t.len() as int) =~= b);
        },
        None => {},
    }
}

/// A bought number is read as `ACCESS_NUMBER:<id>:<phone>`: the id is what comes before the
/// first colon after the prefix, the phone number all that follows it, each trimmed and
/// neither empty.
pub proof fn law_access_number_reads_id_then_phone(body: Seq<char>, a: Seq<char>, b: Seq<char>)
    ensures
        (trim(body) == "ACCESS_NUMBER:"@ + a + seq![':'] + b && a.len() > 0 && b.len() > 0 && forall|j: int|
            0 <= j < a.len() ==> a[j] != ':') ==> access_number_of(body) == Ok::<(Seq<char>, Seq<char>), crate::error::ErrorView>(
            (trim(a), trim(b)),
        ),
        access_number_of(body) matches Ok((id, phone)) ==> exists|a: Seq<char>, b: Seq<char>|
            #![trigger trim(a), trim(b)]
            trim(body) == "ACCESS_NUMBER:"@ + a + seq![':'] + b && a.len() > 0 && b.len() > 0 && (forall|j: int|
                0 <= j < a.len() ==> a[j] != ':') && id == trim(a) && phone == trim(b),
{
    if let Ok((id, phone)) = access_number_of(body) {
        let t = trim(body);
        let p = "ACCESS_NUMBER:"@;
        let rest = t.skip(p.len() as int);
        lemma_split_once(rest, ':');
        let (x, y) = split_once(rest, ':')->Some_0;
        assert(starts_with(t, p));
        assert(t =~= p + rest);
        assert(t == p + x + seq![':'] + y);
        assert(id == trim(x) && phone == trim(y));
    }
    if trim(body) == "ACCESS_NUMBER:"@ + a + seq![':'] + b && a.len() > 0 && b.len() > 0 && forall|j: int|
        0 <= j < a.len() ==> a[j] != ':' {
        let t = trim(body);
        let p = "ACCESS_NUMBER:"@;
        assert(t.subrange(0, p.len() as int) =~= p);
        assert(t.skip(p.len() as int) =~= a + seq![':'] + b);
        lemma_split_at(a, b, ':');
    }
}

/// A status with a code is `STATUS_OK`, the code being what follows its first colon, trimmed
/// (empty when there is none).
pub proof fn law_status_code_follows_status_ok(body: Seq<char>, a: Seq<char>)
    ensures
        trim(body) == "STATUS_OK"@ + seq![':'] + a ==> status_of(body) == Ok::<StatusView, crate::error::ErrorView>(
            StatusView::Code(trim(a)),
        ),
        status_of(body) matches Ok(StatusView::Code(c)) ==> (trim(body) == "STATUS_OK"@ && c.len() == 0) || exists|
            a: Seq<char>,
        |
            #![trigger trim(a)]
            trim(body) == "STATUS_OK"@ + seq![':'] + a && c == trim(a),
{
    if let Ok(StatusView::Code(c)) = status_of(body) {
        let t = trim(body);
        lemma_split_once(t, ':');
        if let Some((h, a)) = split_once(t, ':') {
            assert(head_tail(t) == (h, trim(a)));
            assert(t == "STATUS_OK"@ + seq![':'] + a);
        }
    }
    if trim(body) == "STATUS_OK"@ + seq![':'] + a {
        reveal_strlit("STATUS_OK");
        lemma_split_at("STATUS_OK"@, a, ':');
        reveal_strlit("STATUS_WAIT_CODE");
        reveal_strlit("STATUS_WAIT_RETRY");
        reveal_strlit("STATUS_WAIT_RESEND");
        reveal_strlit("STATUS_CANCEL");
        assert("STATUS_OK"@ != "STATUS_WAIT_CODE"@);
        assert("STATUS_OK"@ != "STATUS_WAIT_RETRY"@);
        assert("STATUS_OK"@ != "STATUS_WAIT_RESEND"@);
        assert("STATUS_OK"@ != "STATUS_CANCEL"@);
    }
}

/// A `getNumberV2` answer is read member by member: the id is `activationId`, the phone number
/// `phoneNumber` (both required), the cost `activationCost`, the country `countryCode`, the
/// operator `activationOperator`, the time `activationTime` and `canGetAnotherSms` as it says.
pub proof fn law_activation_reads_its_members(v: JsonView, t: Seq<char>)
    ensures
        activation_v2_of(v, t) matches Ok(a) ==> ({
            &&& vstring(jget(v, "activationId"@)) == Some(a.id)
            &&& vstring(jget(v, "phoneNumber"@)) == Some(a.phone)
            &&& a.cost == vamount(jget(v, "activationCost"@))
            &&& a.country == vcountry(jget(v, "countryCode"@))
            &&& a.operator == vstring(jget(v, "activationOperator"@))
            &&& a.activation_time == vstring(jget(v, "activationTime"@))
            &&& a.can_get_another_sms == vbool(jget(v, "canGetAnotherSms"@))
        }),
        (vstring(jget(v, "activationId"@)) is Some && vstring(jget(v, "phoneNumber"@)) is Some) == (activation_v2_of(
            v,
            t,
        ) is Ok),
{
}

/// A 5SIM purchase of a request whose country is a slug `c` and whose price cap, if any, comes
/// with the operator `any`: it buys the service from `/user/buy/activation/<c>/<operator or
/// any>/<service>` and sends the cap as `maxPrice` first, then the extra pairs unchanged.
pub proof fn law_fivesim_buy_sends_its_cap(r: RequestParams)
    ensures
        slug_of(r.country) is None ==> buy_plan(r) == Err::<(Seq<char>, Seq<char>), crate::error::ErrorView>(
            crate::error::ErrorView::BadCountry,
        ),
        slug_of(r.country) matches Some(c) ==> ({
            let op = match r.operator {
                Some(o) => o,
                None => "any"@,
            };
            &&& (r.max_price is Some && op != "any"@) ==> buy_plan(r) is Err
            &&& !(r.max_price is Some && op != "any"@) ==> buy_plan(r) == Ok::<
                (Seq<char>, Seq<char>),
                crate::error::ErrorView,
            >(
                (
                    c,
                    with_query(
                        "/user/buy/activation/"@ + crate::api::url_encoded(c) + "/"@ + crate::api::url_encoded(op) + "/"@
                            + crate::api::url_encoded(r.service),
                        buy_query(r),
                    ),
                ),
            )
        }),
        buy_query(r).len() == (if r.max_price is Some { 1int } else { 0int }) + r.extra.len(),
        r.max_price matches Some(p) ==> buy_query(r)[0] == ("maxPrice"@, price_text(p.units as int)),
        buy_query(r).skip(if r.max_price is Some { 1int } else { 0int }) == r.extra,
{
    let m: Seq<(Seq<char>, Seq<char>)> = match r.max_price {
        Some(p) => seq![("maxPrice"@, price_text(p.units as int))],
        None => Seq::empty(),
    };
    assert(buy_query(r) == m + r.extra);
    assert((m + r.extra).skip(m.len() as int) =~= r.extra);
    if r.max_price is Some {
        assert((m + r.extra)[0] == m[0]);
    }
}

/// The top rows read from indexed entries, one for one, in order.
proof fn lemma_free_price_rows(ents: Seq<(u128, JsonView)>)
    ensures
        free_price_rows(ents) matches Ok(rows) ==> rows.len() == ents.len() && forall|k: int|
            0 <= k < rows.len() ==> #[trigger] rows[k] == (ents[k].0, free_price_row(ents[k].1)->Some_0) && free_price_row(
                ents[k].1,
            ) is Some,
    decreases ents.len(),
{
    if ents.len() > 0 {
        let d = ents.drop_last();
        lemma_free_price_rows(d);
        if let Ok(rows) = free_price_rows(ents) {
            let r0 = free_price_rows(d)->Ok_0;
            assert forall|k: int| 0 <= k < rows.len() implies #[trigger] rows[k] == (ents[k].0, free_price_row(ents[k].1)->Some_0)
                && free_price_row(ents[k].1) is Some by {
                if k < d.len() {
                    assert(rows[k] == r0[k]);
                    assert(ents[k] == d[k]);
                }
            }
        }
    }
}

/// What one Hero-SMS free-price row says of the entry `e` it was read from: the country is
/// the `country` member, the price the `price` member (0 when absent) whatever `retail_price`
/// says, the retail price the `retail_price` member, the stock the `count` member (0 when
/// absent), and the physical stocks their own members.
pub open spec fn free_price_row_reads(x: HeroTopView, e: JsonView) -> bool {
    &&& vu64(jget(e, "country"@)) matches Some(n) && x.country == (n % 0x1_0000_0000) as u32
    &&& x.price == match vamount(jget(e, "price"@)) {
        Some(p) => p,
        None => 0,
    }
    &&& x.retail_price == vamount(jget(e, "retail_price"@))
    &&& x.count == match vu64(jget(e, "count"@)) {
        Some(c) => c,
        None => 0,
    }
    &&& x.physical_total_count == vu64(jget(e, "physicalTotalCount"@))
    &&& x.physical_count_for_default_price == vu64(jget(e, "physicalCountForDefaultPrice"@))
}

/// A Hero-SMS free-price answer gives as many rows as it has entries, each read from one of
/// them as [`free_price_row_reads`] says.
pub proof fn law_free_price_rows_read_their_members(v: JsonView, t: Seq<char>)
    ensures
        top_free_price_of(v, t) matches Ok(rows) ==> (indexed_entries(v) matches Some(ents) && rows.len() == ents.len()
            && forall|k: int|
            0 <= k < rows.len() ==> exists|i: int|
                #![trigger ents[i]]
                0 <= i < ents.len() && free_price_row_reads(#[trigger] rows[k], ents[i].1)),
{
    if let Ok(rows) = top_free_price_of(v, t) {
        let ents = indexed_entries(v)->Some_0;
        let keyed = free_price_rows(ents)->Ok_0;
        lemma_free_price_rows(ents);
        crate::laws::law_sorted_rows(keyed);
        let sorted = sort_keyed(keyed);
        assert(rows == payloads(sorted));
        assert forall|k: int| 0 <= k < rows.len() implies exists|i: int|
            #![trigger ents[i]]
            0 <= i < ents.len() && free_price_row_reads(#[trigger] rows[k], ents[i].1) by {
            assert(rows[k] == sorted[k].1);
            assert(keyed.contains(sorted[k]));
            let i = choose|i: int| 0 <= i < keyed.len() && keyed[i] == sorted[k];
            assert(keyed[i] == (ents[i].0, free_price_row(ents[i].1)->Some_0));
            assert(free_price_row_reads(rows[k], ents[i].1));
            assert(ents[i] == ents[i]);
        }
    }
}

/// The records read from a list, one for one, in order.
proof fn lemma_records<T>(items: Seq<JsonView>, item: spec_fn(JsonView) -> Option<T>)
    ensures
        records(items, item) matches Some(l) ==> l.len() == items.len() && forall|k: int|
            0 <= k < l.len() ==> item(items[k]) == Some(#[trigger] l[k]),
    decreases items.len(),
{
    if items.len() > 0 {
        let d = items.drop_last();
        lemma_records(d, item);
        if let Some(l) = records(items, item) {
            let l0 = records(d, item)->Some_0;
            assert forall|k: int| 0 <= k < l.len() implies item(items[k]) == Some(#[trigger] l[k]) by {
                if k < d.len() {
                    assert(l[k] == l0[k]);
                    assert(items[k] == d[k]);
                }
            }
        }
    }
}

/// What one SMS of a 5SIM order says of the object `e` it was read from: its code is the
/// `code` member (empty when absent), whatever the `text` says, and the text, sender, date,
/// creation time and id are their own members.
pub open spec fn sms_reads(x: SmsView, e: JsonView) -> bool {
    &&& text_or_empty(e, "code"@) == Some(x.code)
    &&& text_or_empty(e, "text"@) == Some(x.text)
    &&& text_or_empty(e, "sender"@) == Some(x.sender)
    &&& text_or_empty(e, "date"@) == Some(x.date)
    &&& text_or_empty(e, "created_at"@) == Some(x.created_at)
    &&& opt_u64_member(e, "id"@) == Some(x.id)
}

/// A 5SIM order (what a purchase and a check answer) is read member by member: the id, phone
/// number, operator, product, price and status are their own members, and its SMS list holds
/// one SMS per item of the `sms` member, in order, each read as [`sms_reads`] says.
pub proof fn law_order_reads_its_members(v: JsonView)
    ensures
        order_of(v) matches Some(o) ==> ({
            &&& req_u64(v, "id"@) == Some(o.id)
            &&& text_or_empty(v, "phone"@) == Some(o.phone)
            &&& opt_text_member(v, "operator"@) == Some(o.operator)
            &&& text_or_empty(v, "product"@) == Some(o.product)
            &&& amount_or_zero(v, "price"@) == Some(o.price)
            &&& req_text(v, "status"@) matches Some(st) && o.status == status_of_text(st)
            &&& items_or_empty(v, "sms"@) matches Some(items) && o.sms.len() == items.len() && forall|k: int|
                0 <= k < items.len() ==> sms_reads(#[trigger] o.sms[k], items[k])
        }),
{
    if let Some(o) = order_of(v) {
        let items = items_or_empty(v, "sms"@)->Some_0;
        lemma_records(items, |x: JsonView| sms_of(x));
        assert forall|k: int| 0 <= k < items.len() implies sms_reads(#[trigger] o.sms[k], items[k]) by {
            assert((|x: JsonView| sms_of(x))(items[k]) == Some(o.sms[k]));
        }
    }
}

} // verus!
