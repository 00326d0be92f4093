//! Properties of the SMSBower and 5SIM readings that hold for every input.

use vstd::prelude::*;
use crate::json::JsonView;
use crate::providers::fivesim::catalog::{aggregate_of, min_cost};
use crate::providers::fivesim::orders::{
    OrderStatusView, OrderView, SmsView, code_or_text_of, coded_index, has_code, has_text, latest_code_of, newest,
    order_status,
};
use crate::providers::fivesim::{OfferList, insert_top, lower, sort_top, text_error, top_le, top_rows_of};
use crate::text::{is_ws, lemma_trim_end_keeps_start, lemma_trim_start_idem, trim, trim_end, trim_start};
use crate::transport::ascii_lower;
use crate::providers::hero_sms::without_key;
use crate::providers::smsbower::{bower_extra, bower_table};
use crate::providers::tiger_sms::lex_le;
use crate::types::{StatusView, TopCountryView, status_final};

verus! {

// ---------------------------------------------------------------------------
// 5SIM order statuses

/// `TIMEOUT`, `FINISHED`, `CANCELED` and `BANNED` orders report a final status, so a polling
/// loop that waits for a final status ends on them; a `PENDING` order never does, and a
/// `RECEIVED` one exactly when it carries a code (or text). Unknown statuses are errors.
pub proof fn law_terminal_orders_are_final(o: OrderView)
    ensures
        (o.status is Timeout || o.status is Finished || o.status is Canceled || o.status is Banned) ==> (order_status(o) matches Ok(
            s,
        ) && status_final(s)),
        o.status is Pending ==> (order_status(o) matches Ok(s) && !status_final(s)),
        o.status is Received ==> (order_status(o) matches Ok(s) && (status_final(s) <==> latest_code_of(o.sms) is Some)),
        o.status is Other ==> order_status(o) is Err,
{
}

proof fn lemma_lex_total(a: Seq<char>, b: Seq<char>)
    ensures
        lex_le(a, b) || lex_le(b, a),
    decreases a.len(),
{
    if a.len() > 0 && b.len() > 0 {
        if a[0] == b[0] {
            lemma_lex_total(a.drop_first(), b.drop_first());
        } else {
            assert(a[0] < b[0] || b[0] < a[0]);
        }
    }
}

proof fn lemma_lex_trans(a: Seq<char>, b: Seq<char>, c: Seq<char>)
    requires
        lex_le(a, b),
        lex_le(b, c),
    ensures
        lex_le(a, c),
    decreases a.len(),
{
    if a.len() > 0 && b.len() > 0 && c.len() > 0 && a[0] == b[0] && b[0] == c[0] {
        lemma_lex_trans(a.drop_first(), b.drop_first(), c.drop_first());
    }
}

/// [`newest`] finds an SMS exactly when one is kept, that SMS is kept, and no kept SMS was
/// created later.
pub proof fn lemma_newest(s: Seq<SmsView>, keep: spec_fn(SmsView) -> bool)
    ensures
        newest(s, keep) is Some <==> exists|i: int| 0 <= i < s.len() && keep(#[trigger] s[i]),
        newest(s, keep) matches Some(j) ==> 0 <= j < s.len() && keep(s[j]) && forall|k: int|
            0 <= k < s.len() && keep(#[trigger] s[k]) ==> lex_le(s[k].created_at, s[j].created_at),
    decreases s.len(),
{
    if s.len() > 0 {
        let d = s.drop_last();
        let i = s.len() - 1;
        lemma_newest(d, keep);
        assert forall|k: int| 0 <= k < d.len() implies #[trigger] d[k] == s[k] by {}
        match newest(d, keep) {
            None => {
                if exists|k: int| 0 <= k < s.len() && keep(#[trigger] s[k]) {
                    let k = choose|k: int| 0 <= k < s.len() && keep(#[trigger] s[k]);
                    if k < i {
                        assert(keep(d[k]));
                    }
                }
                if keep(s[i]) {
                    assert forall|k: int| 0 <= k < s.len() && keep(#[trigger] s[k]) implies lex_le(
                        s[k].created_at,
                        s[i].created_at,
                    ) by {
                        if k < i {
                            assert(keep(d[k]));
                        } else {
                            lemma_lex_total(s[i].created_at, s[i].created_at);
                        }
                    }
                }
            },
            Some(j) => {
                assert(keep(s[j]));
                if keep(s[i]) && lex_le(s[j].created_at, s[i].created_at) {
                    assert forall|k: int| 0 <= k < s.len() && keep(#[trigger] s[k]) implies lex_le(
                        s[k].created_at,
                        s[i].created_at,
                    ) by {
                        if k < i {
                            assert(keep(d[k]));
                            lemma_lex_trans(s[k].created_at, s[j].created_at, s[i].created_at);
                        } else {
                            lemma_lex_total(s[i].created_at, s[i].created_at);
                        }
                    }
                } else {
                    assert forall|k: int| 0 <= k < s.len() && keep(#[trigger] s[k]) implies lex_le(
                        s[k].created_at,
                        s[j].created_at,
                    ) by {
                        if k < i {
                            assert(keep(d[k]));
                        } else {
                            lemma_lex_total(s[j].created_at, s[i].created_at);
                        }
                    }
                }
            },
        }
    }
}

/// The code an order reports comes from an SMS that carries one whenever any SMS does — a
/// later code-less message never hides it — and that SMS is the most recently created of those
/// with a code; only when no SMS has a code does the newest text stand in.
pub proof fn law_code_preferred_over_text(s: Seq<SmsView>)
    ensures
        (exists|i: int| 0 <= i < s.len() && has_code(#[trigger] s[i])) ==> (coded_index(s) matches Some(j) && 0 <= j
            < s.len() && has_code(s[j]) && latest_code_of(s) == Some(crate::text::trim(s[j].code)) && forall|k: int|
            0 <= k < s.len() && has_code(#[trigger] s[k]) ==> lex_le(s[k].created_at, s[j].created_at)),
        (forall|i: int| 0 <= i < s.len() ==> !has_code(#[trigger] s[i])) ==> (coded_index(s) matches Some(j) ==> has_text(
            s[j],
        ) && latest_code_of(s) == Some(crate::text::trim(s[j].text))),
        latest_code_of(s) is None <==> (forall|i: int| 0 <= i < s.len() ==> !has_code(#[trigger] s[i]) && !has_text(s[i])),
{
    let kc = |x: SmsView| has_code(x);
    let kt = |x: SmsView| has_text(x);
    lemma_newest(s, kc);
    lemma_newest(s, kt);
    if exists|i: int| 0 <= i < s.len() && has_code(#[trigger] s[i]) {
        let i = choose|i: int| 0 <= i < s.len() && has_code(#[trigger] s[i]);
        assert(kc(s[i]));
    }
    if forall|i: int| 0 <= i < s.len() ==> !has_code(#[trigger] s[i]) && !has_text(s[i]) {
        assert(!(exists|i: int| 0 <= i < s.len() && kc(#[trigger] s[i])));
        assert(!(exists|i: int| 0 <= i < s.len() && kt(#[trigger] s[i])));
    }
    if latest_code_of(s) is None {
        assert forall|i: int| 0 <= i < s.len() implies !has_code(#[trigger] s[i]) && !has_text(s[i]) by {
            if has_code(s[i]) {
                assert(kc(s[i]));
            }
            if has_text(s[i]) {
                assert(kt(s[i]));
            }
        }
    }
}

// ---------------------------------------------------------------------------
// 5SIM prices

/// [`min_cost`] is the least cost among the offers it considers, and one of them.
proof fn lemma_min_cost(s: OfferList, stock_only: bool)
    ensures
        min_cost(s, stock_only) is Some <==> exists|i: int| 0 <= i < s.len() && (!stock_only || (#[trigger] s[i]).1.count > 0),
        min_cost(s, stock_only) matches Some(c) ==> (exists|i: int|
            0 <= i < s.len() && (!stock_only || (#[trigger] s[i]).1.count > 0) && s[i].1.cost.units == c) && forall|i: int|
            0 <= i < s.len() && (!stock_only || (#[trigger] s[i]).1.count > 0) ==> c <= s[i].1.cost.units,
    decreases s.len(),
{
    if s.len() > 0 {
        let d = s.drop_last();
        lemma_min_cost(d, stock_only);
        assert forall|k: int| 0 <= k < d.len() implies #[trigger] d[k] == s[k] by {}
        if exists|i: int| 0 <= i < s.len() && (!stock_only || (#[trigger] s[i]).1.count > 0) {
            let i = choose|i: int| 0 <= i < s.len() && (!stock_only || (#[trigger] s[i]).1.count > 0);
            if i < s.len() - 1 {
                assert(!stock_only || d[i].1.count > 0);
            }
        }
        let o = s.last().1;
        let last = s.len() - 1;
        assert(s[last] == s.last());
        if let Some(c) = min_cost(s, stock_only) {
            let counted = !stock_only || o.count > 0;
            if counted && (min_cost(d, stock_only) is None || o.cost.units < min_cost(d, stock_only).unwrap()) {
                assert(c == o.cost.units);
                assert forall|i: int| 0 <= i < s.len() && (!stock_only || (#[trigger] s[i]).1.count > 0) implies c <= s[i].1.cost.units by {
                    if i < last {
                        assert(d[i] == s[i]);
                    }
                }
            } else {
                let cd = min_cost(d, stock_only).unwrap();
                assert(c == cd);
                let w = choose|i: int| 0 <= i < d.len() && (!stock_only || (#[trigger] d[i]).1.count > 0) && d[i].1.cost.units == cd;
                assert(s[w] == d[w]);
                assert forall|i: int| 0 <= i < s.len() && (!stock_only || (#[trigger] s[i]).1.count > 0) implies c <= s[i].1.cost.units by {
                    if i < last {
                        assert(d[i] == s[i]);
                    }
                }
            }
        }
    }
}

/// The price 5SIM reports for a set of operator offers is the cheapest among the operators
/// that have stock (never below any of them, and one of their prices); only when no operator
/// has stock is it the cheapest overall, and 0 when there is no offer at all.
pub proof fn law_aggregate_is_cheapest_in_stock(s: OfferList)
    ensures
        (exists|i: int| 0 <= i < s.len() && (#[trigger] s[i]).1.count > 0) ==> ((forall|i: int|
            0 <= i < s.len() && (#[trigger] s[i]).1.count > 0 ==> aggregate_of(s).cost.units <= s[i].1.cost.units) && exists|i: int|
            0 <= i < s.len() && (#[trigger] s[i]).1.count > 0 && s[i].1.cost == aggregate_of(s).cost),
        ((forall|i: int| 0 <= i < s.len() ==> (#[trigger] s[i]).1.count == 0) && s.len() > 0) ==> ((forall|i: int|
            0 <= i < s.len() ==> aggregate_of(s).cost.units <= (#[trigger] s[i]).1.cost.units) && exists|i: int|
            0 <= i < s.len() && (#[trigger] s[i]).1.cost == aggregate_of(s).cost),
        s.len() == 0 ==> aggregate_of(s).cost.units == 0,
{
    lemma_min_cost(s, true);
    lemma_min_cost(s, false);
    if exists|i: int| 0 <= i < s.len() && (#[trigger] s[i]).1.count > 0 {
        let c = min_cost(s, true).unwrap();
        let w = choose|i: int| 0 <= i < s.len() && (true ==> (#[trigger] s[i]).1.count > 0) && s[i].1.cost.units == c;
        assert(s[w].1.cost == aggregate_of(s).cost);
    }
    if (forall|i: int| 0 <= i < s.len() ==> (#[trigger] s[i]).1.count == 0) && s.len() > 0 {
        assert(!(exists|i: int| 0 <= i < s.len() && (!true || (#[trigger] s[i]).1.count > 0)));
        assert(!false || s[0].1.count > 0);
        let c = min_cost(s, false).unwrap();
        let w = choose|i: int| 0 <= i < s.len() && (!false || (#[trigger] s[i]).1.count > 0) && s[i].1.cost.units == c;
        assert(s[w].1.cost == aggregate_of(s).cost);
    }
}

/// A list of rows with the most stock first.
pub open spec fn stock_descending(s: Seq<TopCountryView>) -> bool {
    forall|i: int, j: int| 0 <= i < j < s.len() ==> (#[trigger] s[i]).count >= (#[trigger] s[j]).count
}

proof fn lemma_insert_top_sorted(s: Seq<TopCountryView>, x: TopCountryView)
    requires
        stock_descending(s),
    ensures
        stock_descending(insert_top(s, x)),
        insert_top(s, x).len() == s.len() + 1,
        forall|i: int| 0 <= i < insert_top(s, x).len() ==> (#[trigger] insert_top(s, x)[i] == x || s.contains(insert_top(s, x)[i])),
    decreases s.len(),
{
    if s.len() > 0 {
        if top_le(s.last(), x) {
            let r = s.push(x);
            assert forall|i: int, j: int| 0 <= i < j < r.len() implies (#[trigger] r[i]).count >= (#[trigger] r[j]).count by {
                if j == s.len() {
                    assert(r[i] == s[i]);
                    if i < s.len() - 1 {
                        assert(s[i].count >= s[s.len() - 1].count);
                    }
                }
            }
            assert forall|i: int| 0 <= i < r.len() implies (#[trigger] r[i] == x || s.contains(r[i])) by {
                if i < s.len() {
                    assert(r[i] == s[i]);
                }
            }
        } else {
            let d = s.drop_last();
            assert forall|i: int, j: int| 0 <= i < j < d.len() implies (#[trigger] d[i]).count >= (#[trigger] d[j]).count by {
                assert(d[i] == s[i]);
                assert(d[j] == s[j]);
            }
            lemma_insert_top_sorted(d, x);
            let m = insert_top(d, x);
            let r = m.push(s.last());
            assert(s.last().count <= x.count);
            assert forall|i: int| 0 <= i < m.len() implies (#[trigger] m[i]).count >= s.last().count by {
                if m[i] != x {
                    let k = choose|k: int| 0 <= k < d.len() && d[k] == m[i];
                    assert(s[k] == d[k]);
                }
            }
            assert forall|i: int, j: int| 0 <= i < j < r.len() implies (#[trigger] r[i]).count >= (#[trigger] r[j]).count by {
                if j == m.len() {
                    assert(r[i] == m[i]);
                } else {
                    assert(r[i] == m[i]);
                    assert(r[j] == m[j]);
                }
            }
            assert forall|i: int| 0 <= i < r.len() implies (#[trigger] r[i] == x || s.contains(r[i])) by {
                if i < m.len() {
                    assert(r[i] == m[i]);
                    if m[i] != x {
                        let k = choose|k: int| 0 <= k < d.len() && d[k] == m[i];
                        assert(s[k] == d[k]);
                    }
                } else {
                    assert(s[s.len() - 1] == s.last());
                }
            }
        }
    }
}

/// 5SIM top countries come most stock first, one row per country of the answer.
pub proof fn law_top_countries_by_stock(s: Seq<(Seq<char>, OfferList)>)
    ensures
        stock_descending(sort_top(top_rows_of(s))),
        sort_top(top_rows_of(s)).len() == s.len(),
    decreases s.len(),
{
    let rows = top_rows_of(s);
    lemma_sort_top(rows);
}

proof fn lemma_sort_top(rows: Seq<TopCountryView>)
    ensures
        stock_descending(sort_top(rows)),
        sort_top(rows).len() == rows.len(),
    decreases rows.len(),
{
    if rows.len() > 0 {
        lemma_sort_top(rows.drop_last());
        lemma_insert_top_sorted(sort_top(rows.drop_last()), rows.last());
    }
}

// ---------------------------------------------------------------------------
// SMSBower

/// No pair is left under `key` once it is removed.
proof fn lemma_without_key(ps: Seq<(Seq<char>, Seq<char>)>, key: Seq<char>)
    ensures
        forall|i: int| 0 <= i < without_key(ps, key).len() ==> (#[trigger] without_key(ps, key)[i]).0 != key,
    decreases ps.len(),
{
    if ps.len() > 0 {
        lemma_without_key(ps.drop_last(), key);
        let a = without_key(ps.drop_last(), key);
        let t = if ps.last().0 == key { Seq::<(Seq<char>, Seq<char>)>::empty() } else { seq![ps.last()] };
        assert forall|i: int| 0 <= i < (a + t).len() implies (#[trigger] (a + t)[i]).0 != key by {
            if i < a.len() {
                assert((a + t)[i] == a[i]);
            } else {
                assert((a + t)[i] == t[i - a.len()]);
            }
        }
    }
}

/// SMSBower's request filters: setting a parameter replaces any earlier value — afterwards it
/// appears exactly once, last, with the new value — and setting it to an empty value only
/// removes it, so an empty filter is never sent.
pub proof fn law_filters_replace_and_empty_removes(extra: Seq<(Seq<char>, Seq<char>)>, key: Seq<char>, value: Seq<char>)
    ensures
        value.len() == 0 ==> forall|i: int| 0 <= i < bower_extra(extra, key, value).len() ==> (#[trigger] bower_extra(
            extra,
            key,
            value,
        )[i]).0 != key,
        value.len() > 0 ==> (bower_extra(extra, key, value).last() == (key, value) && forall|i: int|
            0 <= i < bower_extra(extra, key, value).len() - 1 ==> (#[trigger] bower_extra(extra, key, value)[i]).0 != key),
{
    lemma_without_key(extra, key);
    if value.len() > 0 {
        let w = without_key(extra, key);
        assert forall|i: int| 0 <= i < w.push((key, value)).len() - 1 implies (#[trigger] w.push((key, value))[i]).0 != key by {
            assert(w.push((key, value))[i] == w[i]);
        }
    }
}

/// An SMSBower country table only reads when every country key is a country id (or the
/// id-less `""` row): an error envelope or any other non-numeric key is never taken for an
/// empty or partial table.
pub proof fn law_bower_tables_need_country_ids<C>(what: Seq<char>, es: Seq<(Seq<char>, JsonView)>, cell: spec_fn(JsonView) -> Result<C, crate::error::ErrorView>)
    ensures
        bower_table(what, es, cell) is Ok ==> forall|i: int|
            0 <= i < es.len() ==> (#[trigger] es[i]).0.len() == 0 || crate::num::parse_u32_spec(es[i].0) is Some,
    decreases es.len(),
{
    if es.len() > 0 {
        law_bower_tables_need_country_ids(what, es.drop_last(), cell);
        if bower_table(what, es, cell) is Ok {
            assert forall|i: int| 0 <= i < es.len() implies (#[trigger] es[i]).0.len() == 0 || crate::num::parse_u32_spec(
                es[i].0,
            ) is Some by {
                if i < es.len() - 1 {
                    assert(es.drop_last()[i] == es[i]);
                }
            }
        }
    }
}


// ---------------------------------------------------------------------------
// 5SIM text errors

proof fn lemma_trim_end_last(s: Seq<char>)
    ensures
        trim_end(s).len() == 0 || !is_ws(trim_end(s).last()),
    decreases s.len(),
{
    if s.len() > 0 && is_ws(s.last()) {
        lemma_trim_end_last(s.drop_last());
    }
}

proof fn lemma_lower_char(c: char)
    ensures
        is_ws(ascii_lower(c)) == is_ws(c),
        ascii_lower(ascii_lower(c)) == ascii_lower(c),
{
    if 'A' <= c && c <= 'Z' {
        let d = ascii_lower(c);
        assert('a' <= d && d <= 'z');
    }
}

/// Lower-casing a trimmed text leaves nothing to trim, and lower-casing it again changes
/// nothing.
proof fn lemma_lower_trim_stable(t: Seq<char>)
    ensures
        lower(trim(lower(trim(t)))) == lower(trim(t)),
{
    let y = trim(t);
    lemma_trim_start_idem(t);
    lemma_trim_end_keeps_start(trim_start(t));
    lemma_trim_end_last(trim_start(t));
    let l = lower(y);
    assert(l.len() == y.len());
    if l.len() > 0 {
        lemma_lower_char(y[0]);
        lemma_lower_char(y.last());
        assert(l[0] == ascii_lower(y[0]));
        assert(l.last() == ascii_lower(y.last()));
        assert(trim_start(l) == l);
        assert(trim_end(l) == l);
    } else {
        assert(trim_start(l) == l);
        assert(trim_end(l) == l);
    }
    assert(trim(l) == l);
    assert forall|i: int| 0 <= i < l.len() implies #[trigger] lower(l)[i] == l[i] by {
        lemma_lower_char(y[i]);
    }
    assert(lower(l) =~= l);
}

/// 5SIM's plain-text errors read the same on the trimmed, lower-cased text, and the message
/// an `Other` or `Validation` error carries is that trimmed, lower-cased text.
pub proof fn law_text_errors_ignore_case_and_padding(t: Seq<char>)
    ensures
        text_error(lower(trim(t))) == text_error(t),
        text_error(t) matches Some(crate::error::ErrorView::Other(m)) ==> m == lower(trim(t)),
        text_error(t) matches Some(crate::error::ErrorView::Validation(_f, m)) ==> m == lower(trim(t)),
{
    lemma_lower_trim_stable(t);
}

} // verus!
