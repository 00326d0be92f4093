//! The 5SIM catalogue: products with their stock, countries with their ISO codes, prefixes and
//! operators, and per-operator offers with the aggregation into the trait-level price.

use vstd::prelude::*;
use crate::amount::Amount;
use crate::error::{ApiError, ApiResult, ErrorView, owned};
use crate::json::{Json, JsonView, as_object, jget, member_views, object_expected, vstring};
use crate::keymap::KeyMap;
use crate::providers::fivesim::fields::{
    amount_or_zero, bad_member_error, get_amount, get_opt_amount, get_req_text, get_u64, opt_amount_member,
    req_text, u64_or_zero,
};
use crate::providers::fivesim::records::Record;
use crate::types::{CountryKey, CountryRef, CountryView, Price, copy_string, opt_text};

verus! {

/// The members of an object read by `read`, in document order; `None` when a member does not
/// read.
pub open spec fn member_entries<T>(es: Seq<(Seq<char>, JsonView)>, read: spec_fn(JsonView) -> Option<T>) -> Option<Seq<(Seq<char>, T)>>
    decreases es.len(),
{
    if es.len() == 0 {
        Some(Seq::empty())
    } else {
        match (member_entries(es.drop_last(), read), read(es.last().1)) {
            (Some(r), Some(x)) => Some(r.push((es.last().0, x))),
            _ => None,
        }
    }
}

proof fn lemma_member_entries_fail<T>(es: Seq<(Seq<char>, JsonView)>, read: spec_fn(JsonView) -> Option<T>, k: int)
    requires
        0 <= k <= es.len(),
        member_entries(es.take(k), read) is None,
    ensures
        member_entries(es, read) is None,
    decreases es.len() - k,
{
    if k < es.len() {
        assert(es.take(k + 1).drop_last() =~= es.take(k));
        lemma_member_entries_fail(es, read, k + 1);
    } else {
        assert(es.take(k) =~= es);
    }
}

/// An object read member by member (see [`member_entries`]); anything else does not read.
pub open spec fn object_entries<T>(v: JsonView, read: spec_fn(JsonView) -> Option<T>) -> Option<Seq<(Seq<char>, T)>> {
    match v {
        JsonView::Object(es) => member_entries(es, read),
        _ => None,
    }
}

/// The map a list of entries denotes (a later entry wins).
pub open spec fn entries_map<T>(s: Seq<(Seq<char>, T)>) -> Map<Seq<char>, T>
    decreases s.len(),
{
    if s.len() == 0 {
        Map::empty()
    } else {
        entries_map(s.drop_last()).insert(s.last().0, s.last().1)
    }
}

/// The members of a JSON object read as `T` records, in document order.
#[derive(Clone, Debug, PartialEq)]
pub struct Entries<T>(pub Vec<(String, T)>);

impl<T: View> View for Entries<T> {
    type V = Seq<(Seq<char>, T::V)>;

    open spec fn view(&self) -> Seq<(Seq<char>, T::V)> {
        self.0@.map_values(|e: (String, T)| (e.0@, e.1@))
    }
}

impl<T: Record> Record for Entries<T> {
    open spec fn read(v: JsonView) -> Option<Seq<(Seq<char>, T::V)>> {
        object_entries(v, |x: JsonView| T::read(x))
    }

    fn from_json(v: &Json) -> (r: ApiResult<Entries<T>>) {
        let ghost read = |x: JsonView| T::read(x);
        let es = match v {
            Json::Object(es) => es,
            _ => {
                return Err(bad_member_error("object"));
            },
        };
        proof {
            crate::json::lemma_object_view(*es);
        }
        let ghost vs = member_views(es@);
        let mut out: Vec<(String, T)> = Vec::new();
        let mut i: usize = 0;
        assert(vs.take(0) =~= Seq::<(Seq<char>, JsonView)>::empty());
        assert(out@.map_values(|e: (String, T)| (e.0@, e.1@)) =~= Seq::<(Seq<char>, T::V)>::empty());
        while i < es.len()
            invariant
                i <= es@.len(),
                vs == member_views(es@),
                v@ == JsonView::Object(vs),
                read == (|x: JsonView| T::read(x)),
                member_entries(vs.take(i as int), read) == Some(out@.map_values(|e: (String, T)| (e.0@, e.1@))),
            decreases es.len() - i,
        {
            proof {
                assert(vs.take(i + 1).drop_last() =~= vs.take(i as int));
                assert(vs.take(i + 1).last() == vs[i as int]);
            }
            let x = match T::from_json(&es[i].1) {
                Ok(x) => x,
                Err(e) => {
                    proof {
                        assert(read(vs.take(i + 1).last().1) is None);
                        assert(member_entries(vs.take(i + 1), read) is None);
                        lemma_member_entries_fail(vs, read, i + 1);
                    }
                    return Err(e);
                },
            };
            let ghost before = out@.map_values(|e: (String, T)| (e.0@, e.1@));
            out.push((copy_string(&es[i].0), x));
            assert(out@.map_values(|e: (String, T)| (e.0@, e.1@)) =~= before.push((vs[i as int].0, x@)));
            i = i + 1;
        }
        assert(vs.take(i as int) =~= vs);
        Ok(Entries(out))
    }
}

impl<T: View> Entries<T> {
    /// The entries as a table (a later entry wins).
    pub fn into_map(self) -> (r: KeyMap<String, T>)
        ensures
            r@.map_values(|x: T| x@) == entries_map(self@),
    {
        let ghost s = self@;
        let ghost orig = self.0@;
        let mut v = self.0;
        let mut rest: Vec<(String, T)> = Vec::new();
        while v.len() > 0
            invariant
                v@ == orig.take(v@.len() as int),
                v@.len() <= orig.len(),
                rest@.len() + v@.len() == orig.len(),
                forall|j: int| 0 <= j < rest@.len() ==> #[trigger] rest@[j] == orig[orig.len() - 1 - j],
            decreases v.len(),
        {
            let e = v.pop().unwrap();
            rest.push(e);
        }
        let mut m: KeyMap<String, T> = KeyMap::new();
        let mut i: usize = 0;
        let n = rest.len();
        assert(s.take(0) =~= Seq::<(Seq<char>, T::V)>::empty());
        assert forall|j: int| 0 <= j < rest@.len() implies ((#[trigger] rest@[j]).0@, rest@[j].1@) == s[n - 1 - j] by {
            assert(rest@[j] == orig[orig.len() - 1 - j]);
        }
        assert(m@.map_values(|x: T| x@) =~= Map::empty());
        while rest.len() > 0
            invariant
                n == s.len(),
                i + rest@.len() == n,
                forall|j: int| 0 <= j < rest@.len() ==> ((#[trigger] rest@[j]).0@, rest@[j].1@) == s[n - 1 - j],
                m@.map_values(|x: T| x@) == entries_map(s.take(i as int)),
            decreases rest.len(),
        {
            let (k, x) = rest.pop().unwrap();
            proof {
                assert((k@, x@) == s[i as int]);
                assert(s.take(i + 1).drop_last() =~= s.take(i as int));
            }
            let ghost before = m@;
            m.insert(k, x);
            assert(m@.map_values(|x: T| x@) =~= before.map_values(|x: T| x@).insert(s[i as int].0, s[i as int].1));
            i = i + 1;
        }
        assert(s.take(i as int) =~= s);
        m
    }
}

// ---------------------------------------------------------------------------
// Products

/// `Category` of a product.
#[derive(Clone, Debug, PartialEq, Eq)]
pub enum ProductCategory {
    Activation,
    Hosting,
    Other(String),
}

/// What a [`ProductCategory`] denotes.
pub enum CategoryView {
    Activation,
    Hosting,
    Other(Seq<char>),
}

impl View for ProductCategory {
    type V = CategoryView;

    open spec fn view(&self) -> CategoryView {
        match self {
            ProductCategory::Activation => CategoryView::Activation,
            ProductCategory::Hosting => CategoryView::Hosting,
            ProductCategory::Other(s) => CategoryView::Other(s@),
        }
    }
}

/// The category a 5SIM spelling denotes.
pub open spec fn category_of_text(s: Seq<char>) -> CategoryView {
    if s == "activation"@ {
        CategoryView::Activation
    } else if s == "hosting"@ {
        CategoryView::Hosting
    } else {
        CategoryView::Other(s)
    }
}

impl ProductCategory {
    /// The category a 5SIM spelling denotes (`activation`, `hosting`, anything else `Other`).
    pub fn from_text(s: &str) -> (r: Self)
        ensures
            r@ == category_of_text(s@),
    {
        let c = crate::text::chars_of(s);
        if crate::text::eq_str(&c, "activation") {
            ProductCategory::Activation
        } else if crate::text::eq_str(&c, "hosting") {
            ProductCategory::Hosting
        } else {
            ProductCategory::Other(owned(s))
        }
    }
}

impl From<String> for ProductCategory {
    fn from(s: String) -> (r: Self)
        ensures
            r@ == category_of_text(s@),
    {
        ProductCategory::from_text(s.as_str())
    }
}

impl vstd::std_specs::convert::FromSpecImpl<String> for ProductCategory {
    /// Two `String`s with the same text are not known to be one value here, so `from` is
    /// described by its own `ensures` rather than through `from_spec`.
    open spec fn obeys_from_spec() -> bool {
        false
    }

    /// A category whose view is what the spelling denotes.
    open spec fn from_spec(v: String) -> ProductCategory {
        choose|o: ProductCategory| o@ == category_of_text(v@)
    }
}

/// One product of a country/operator: its category, stock and price.
#[derive(Clone, Debug, PartialEq)]
pub struct ProductInfo {
    pub category: ProductCategory,
    /// Numbers available.
    pub qty: u64,
    pub price: Amount,
}

impl View for ProductInfo {
    type V = (CategoryView, u64, int);

    open spec fn view(&self) -> (CategoryView, u64, int) {
        (self.category@, self.qty, self.price.units as int)
    }
}

impl Record for ProductInfo {
    open spec fn read(v: JsonView) -> Option<(CategoryView, u64, int)> {
        if !(v is Object) {
            None
        } else {
            match (req_text(v, "Category"@), u64_or_zero(v, "Qty"@), amount_or_zero(v, "Price"@)) {
                (Some(c), Some(q), Some(p)) => Some((category_of_text(c), q, p)),
                _ => None,
            }
        }
    }

    fn from_json(v: &Json) -> (r: ApiResult<ProductInfo>) {
        if !matches!(v, Json::Object(_)) {
            return Err(bad_member_error("product"));
        }
        let c = get_req_text(v, "Category")?;
        let qty = get_u64(v, "Qty")?;
        let price = get_amount(v, "Price")?;
        Ok(ProductInfo { category: ProductCategory::from_text(c.as_str()), qty, price })
    }
}

/// The activation products of a product list, as `(code, name)` service pairs (both the product
/// name), in list order.
pub open spec fn activation_services(s: Seq<(Seq<char>, (CategoryView, u64, int))>) -> Seq<(Seq<char>, Seq<char>)>
    decreases s.len(),
{
    if s.len() == 0 {
        Seq::empty()
    } else {
        activation_services(s.drop_last()) + if s.last().1.0 is Activation {
            seq![(s.last().0, s.last().0)]
        } else {
            Seq::empty()
        }
    }
}

/// The activation products of a product list as services (see [`activation_services`]).
pub fn services_of_products(products: &Entries<ProductInfo>) -> (r: Vec<crate::types::Service>)
    ensures
        crate::error::seq_views(r@) == activation_services(products@),
{
    let ghost s = products@;
    let mut out: Vec<crate::types::Service> = Vec::new();
    let mut i: usize = 0;
    assert(s.take(0) =~= Seq::<(Seq<char>, (CategoryView, u64, int))>::empty());
    assert(crate::error::seq_views(out@) =~= Seq::<(Seq<char>, Seq<char>)>::empty());
    while i < products.0.len()
        invariant
            i <= products.0@.len(),
            s == products@,
            s.len() == products.0@.len(),
            crate::error::seq_views(out@) == activation_services(s.take(i as int)),
        decreases products.0.len() - i,
    {
        proof {
            assert(s.take(i + 1).drop_last() =~= s.take(i as int));
            assert(s.take(i + 1).last() == s[i as int]);
            assert(s[i as int] == (products.0@[i as int].0@, products.0@[i as int].1@));
        }
        let (name, p) = &products.0[i];
        let ghost before = crate::error::seq_views(out@);
        if matches!(p.category, ProductCategory::Activation) {
            out.push(crate::types::Service { code: crate::types::ServiceCode(copy_string(name)), name: copy_string(name) });
            assert(crate::error::seq_views(out@) =~= before.push((name@, name@)));
        } else {
            assert(activation_services(s.take(i + 1)) =~= activation_services(s.take(i as int)));
        }
        i = i + 1;
    }
    assert(s.take(i as int) =~= s);
    out
}

/// The stock of every activation product (a later entry wins).
pub open spec fn activation_stock(s: Seq<(Seq<char>, (CategoryView, u64, int))>) -> Map<Seq<char>, u64>
    decreases s.len(),
{
    if s.len() == 0 {
        Map::empty()
    } else if s.last().1.0 is Activation {
        activation_stock(s.drop_last()).insert(s.last().0, s.last().1.1)
    } else {
        activation_stock(s.drop_last())
    }
}

/// The stock of every activation product of a product list (see [`activation_stock`]).
pub fn stock_of_products(products: &Entries<ProductInfo>) -> (r: KeyMap<crate::types::ServiceCode, u64>)
    ensures
        r@ == activation_stock(products@),
{
    let ghost s = products@;
    let mut out: KeyMap<crate::types::ServiceCode, u64> = KeyMap::new();
    let mut i: usize = 0;
    assert(s.take(0) =~= Seq::<(Seq<char>, (CategoryView, u64, int))>::empty());
    while i < products.0.len()
        invariant
            i <= products.0@.len(),
            s == products@,
            s.len() == products.0@.len(),
            out@ == activation_stock(s.take(i as int)),
        decreases products.0.len() - i,
    {
        proof {
            assert(s.take(i + 1).drop_last() =~= s.take(i as int));
            assert(s.take(i + 1).last() == s[i as int]);
            assert(s[i as int] == (products.0@[i as int].0@, products.0@[i as int].1@));
        }
        let (name, p) = &products.0[i];
        if matches!(p.category, ProductCategory::Activation) {
            out.insert(crate::types::ServiceCode(copy_string(name)), p.qty);
        }
        i = i + 1;
    }
    assert(s.take(i as int) =~= s);
    out
}

// ---------------------------------------------------------------------------
// Per-operator offers

/// One operator's offer: price, stock and delivery percentages over the last hour / 3 h / 24 h
/// / 72 h / week / month (omitted by 5SIM when below 20 % or too few orders).
#[derive(Clone, Copy, Debug, Default, PartialEq)]
pub struct OperatorOffer {
    pub cost: Amount,
    pub count: u64,
    pub rate: Option<Amount>,
    pub rate1: Option<Amount>,
    pub rate3: Option<Amount>,
    pub rate24: Option<Amount>,
    pub rate72: Option<Amount>,
    pub rate168: Option<Amount>,
    pub rate720: Option<Amount>,
}

impl View for OperatorOffer {
    type V = OperatorOffer;

    open spec fn view(&self) -> OperatorOffer {
        *self
    }
}

/// An optional amount from its units.
pub open spec fn amount_opt(u: Option<int>) -> Option<Amount> {
    match u {
        Some(x) => Some(Amount { units: x as i128 }),
        None => None,
    }
}

impl Record for OperatorOffer {
    open spec fn read(v: JsonView) -> Option<OperatorOffer> {
        if !(v is Object) {
            None
        } else {
            match (
                amount_or_zero(v, "cost"@),
                u64_or_zero(v, "count"@),
                opt_amount_member(v, "rate"@),
                opt_amount_member(v, "rate1"@),
                opt_amount_member(v, "rate3"@),
                opt_amount_member(v, "rate24"@),
                opt_amount_member(v, "rate72"@),
                opt_amount_member(v, "rate168"@),
                opt_amount_member(v, "rate720"@),
            ) {
                (Some(cost), Some(count), Some(a), Some(b), Some(c), Some(d), Some(e), Some(f), Some(g)) => Some(
                    OperatorOffer {
                        cost: Amount { units: cost as i128 },
                        count,
                        rate: amount_opt(a),
                        rate1: amount_opt(b),
                        rate3: amount_opt(c),
                        rate24: amount_opt(d),
                        rate72: amount_opt(e),
                        rate168: amount_opt(f),
                        rate720: amount_opt(g),
                    },
                ),
                _ => None,
            }
        }
    }

    fn from_json(v: &Json) -> (r: ApiResult<OperatorOffer>) {
        if !matches!(v, Json::Object(_)) {
            return Err(bad_member_error("offer"));
        }
        let cost = get_amount(v, "cost")?;
        let count = get_u64(v, "count")?;
        let rate = get_opt_amount(v, "rate")?;
        let rate1 = get_opt_amount(v, "rate1")?;
        let rate3 = get_opt_amount(v, "rate3")?;
        let rate24 = get_opt_amount(v, "rate24")?;
        let rate72 = get_opt_amount(v, "rate72")?;
        let rate168 = get_opt_amount(v, "rate168")?;
        let rate720 = get_opt_amount(v, "rate720")?;
        Ok(OperatorOffer { cost, count, rate, rate1, rate3, rate24, rate72, rate168, rate720 })
    }
}

/// Operator → offer.
pub type OperatorOffers = Entries<OperatorOffer>;

/// The `GET /guest/prices` answer: outer key → inner key → operator → offer.
pub type NestedOffers = Entries<Entries<OperatorOffers>>;

/// The lowest cost among the offers (those with stock only, when `stock_only`).
pub open spec fn min_cost(s: Seq<(Seq<char>, OperatorOffer)>, stock_only: bool) -> Option<int>
    decreases s.len(),
{
    if s.len() == 0 {
        None
    } else {
        let o = s.last().1;
        let rest = min_cost(s.drop_last(), stock_only);
        if stock_only && o.count == 0 {
            rest
        } else {
            match rest {
                Some(a) => if a <= o.cost.units {
                    Some(a)
                } else {
                    Some(o.cost.units as int)
                },
                None => Some(o.cost.units as int),
            }
        }
    }
}

/// The summed stock, saturating at `u64::MAX`.
pub open spec fn total_count(s: Seq<(Seq<char>, OperatorOffer)>) -> u64
    decreases s.len(),
{
    if s.len() == 0 {
        0
    } else {
        let t = total_count(s.drop_last()) + s.last().1.count;
        if t > u64::MAX {
            u64::MAX
        } else {
            t as u64
        }
    }
}

/// The trait-level price of a set of operator offers: the cheapest operator that has stock
/// (the cheapest overall when none has), the summed stock, no physical count.
pub open spec fn aggregate_of(s: Seq<(Seq<char>, OperatorOffer)>) -> Price {
    Price {
        cost: Amount {
            units: match min_cost(s, true) {
                Some(c) => c as i128,
                None => match min_cost(s, false) {
                    Some(c) => c as i128,
                    None => 0,
                },
            },
        },
        count: total_count(s),
        physical_count: None,
    }
}

/// Cheapest in-stock operator (cheapest overall when nothing is in stock) and the summed stock
/// (see [`aggregate_of`]).
pub fn aggregate(offers: &OperatorOffers) -> (r: Price)
    ensures
        r == aggregate_of(offers@),
{
    let ghost s = offers@;
    let mut in_stock: Option<i128> = None;
    let mut any: Option<i128> = None;
    let mut count: u64 = 0;
    let mut i: usize = 0;
    assert(s.take(0) =~= Seq::<(Seq<char>, OperatorOffer)>::empty());
    while i < offers.0.len()
        invariant
            i <= offers.0@.len(),
            s == offers@,
            s.len() == offers.0@.len(),
            match in_stock {
                Some(c) => min_cost(s.take(i as int), true) == Some(c as int),
                None => min_cost(s.take(i as int), true) is None,
            },
            match any {
                Some(c) => min_cost(s.take(i as int), false) == Some(c as int),
                None => min_cost(s.take(i as int), false) is None,
            },
            count == total_count(s.take(i as int)),
        decreases offers.0.len() - i,
    {
        proof {
            assert(s.take(i + 1).drop_last() =~= s.take(i as int));
            assert(s.take(i + 1).last() == s[i as int]);
            assert(s[i as int].1 == offers.0@[i as int].1);
        }
        let o = offers.0[i].1;
        let c = o.cost.units;
        if o.count > 0 {
            in_stock = match in_stock {
                Some(a) => if a <= c { Some(a) } else { Some(c) },
                None => Some(c),
            };
        }
        any = match any {
            Some(a) => if a <= c { Some(a) } else { Some(c) },
            None => Some(c),
        };
        count = count.saturating_add(o.count);
        i = i + 1;
    }
    assert(s.take(i as int) =~= s);
    let cost = match in_stock {
        Some(c) => c,
        None => match any {
            Some(c) => c,
            None => 0,
        },
    };
    Price { cost: Amount { units: cost }, count, physical_count: None }
}

// ---------------------------------------------------------------------------
// Countries

/// Operator flags inside the country list (`{"activation":1}`; `hosting` has not been observed).
#[derive(Clone, Copy, Debug, Default, PartialEq, Eq)]
pub struct OperatorSupport {
    pub activation: bool,
    pub hosting: bool,
}

/// One country of the country list.
#[derive(Debug, Default, PartialEq, Eq)]
pub struct CountryInfo {
    /// ISO 3166-1 alpha-2 codes (lowercase); one per country so far.
    pub iso: Vec<String>,
    /// Dialling prefixes such as `+44`; one per country so far.
    pub prefix: Vec<String>,
    pub text_en: String,
    pub text_ru: String,
    /// Operator name → what it sells.
    pub operators: KeyMap<String, OperatorSupport>,
}

/// What a [`CountryInfo`] denotes.
pub struct CountryInfoView {
    pub iso: Seq<Seq<char>>,
    pub prefix: Seq<Seq<char>>,
    pub text_en: Seq<char>,
    pub text_ru: Seq<char>,
    pub operators: Map<Seq<char>, OperatorSupport>,
}

impl View for CountryInfo {
    type V = CountryInfoView;

    open spec fn view(&self) -> CountryInfoView {
        CountryInfoView {
            iso: crate::error::seq_views(self.iso@),
            prefix: crate::error::seq_views(self.prefix@),
            text_en: self.text_en@,
            text_ru: self.text_ru@,
            operators: self.operators@,
        }
    }
}

/// The keys of an object (none for anything else).
pub open spec fn object_keys(v: JsonView) -> Seq<Seq<char>> {
    match v {
        JsonView::Object(es) => es.map_values(|e: (Seq<char>, JsonView)| e.0),
        _ => Seq::empty(),
    }
}

/// A flag given as an integer (non-zero is set); anything else is unset.
pub open spec fn int_flag(o: Option<JsonView>) -> bool {
    match o {
        Some(JsonView::Number(_, _, Some(i))) => i != 0,
        _ => false,
    }
}

/// The text of a member, empty when it has none.
pub open spec fn text_or_blank(v: JsonView) -> Seq<char> {
    match vstring(Some(v)) {
        Some(t) => t,
        None => Seq::empty(),
    }
}

/// A country entry read member by member: `iso` / `prefix` give the keys of their objects,
/// `text_en` / `text_ru` the texts, and every other member that is an object is an operator
/// with its `activation` / `hosting` flags.
pub open spec fn country_info_of(es: Seq<(Seq<char>, JsonView)>) -> CountryInfoView
    decreases es.len(),
{
    if es.len() == 0 {
        CountryInfoView { iso: Seq::empty(), prefix: Seq::empty(), text_en: Seq::empty(), text_ru: Seq::empty(), operators: Map::empty() }
    } else {
        let info = country_info_of(es.drop_last());
        let (key, val) = es.last();
        if key == "iso"@ {
            CountryInfoView { iso: object_keys(val), ..info }
        } else if key == "prefix"@ {
            CountryInfoView { prefix: object_keys(val), ..info }
        } else if key == "text_en"@ {
            CountryInfoView { text_en: text_or_blank(val), ..info }
        } else if key == "text_ru"@ {
            CountryInfoView { text_ru: text_or_blank(val), ..info }
        } else if val is Object {
            CountryInfoView {
                operators: info.operators.insert(
                    key,
                    OperatorSupport { activation: int_flag(jget(val, "activation"@)), hosting: int_flag(jget(val, "hosting"@)) },
                ),
                ..info
            }
        } else {
            info
        }
    }
}

/// The country list: every member an object read by [`country_info_of`] (a later entry wins).
pub open spec fn countries_fold(es: Seq<(Seq<char>, JsonView)>) -> Result<Map<Seq<char>, CountryInfoView>, ErrorView>
    decreases es.len(),
{
    if es.len() == 0 {
        Ok(Map::empty())
    } else {
        match countries_fold(es.drop_last()) {
            Err(e) => Err(e),
            Ok(m) => match es.last().1 {
                JsonView::Object(ies) => Ok(m.insert(es.last().0, country_info_of(ies))),
                _ => Err(ErrorView::Parse(object_expected("country"@))),
            },
        }
    }
}

/// A decoded country list (see [`countries_fold`]).
pub open spec fn countries_of(v: JsonView) -> Result<Map<Seq<char>, CountryInfoView>, ErrorView> {
    match v {
        JsonView::Object(es) => countries_fold(es),
        _ => Err(ErrorView::Parse(object_expected("countries"@))),
    }
}

proof fn lemma_countries_err(es: Seq<(Seq<char>, JsonView)>, k: int, e: ErrorView)
    requires
        0 <= k <= es.len(),
        countries_fold(es.take(k)) == Err::<Map<Seq<char>, CountryInfoView>, ErrorView>(e),
    ensures
        countries_fold(es) == Err::<Map<Seq<char>, CountryInfoView>, ErrorView>(e),
    decreases es.len() - k,
{
    if k < es.len() {
        assert(es.take(k + 1).drop_last() =~= es.take(k));
        lemma_countries_err(es, k + 1, e);
    } else {
        assert(es.take(k) =~= es);
    }
}

fn object_keys_exec(v: &Json) -> (r: Vec<String>)
    ensures
        crate::error::seq_views(r@) == object_keys(v@),
{
    let mut out: Vec<String> = Vec::new();
    match v {
        Json::Object(es) => {
            proof {
                crate::json::lemma_object_view(*es);
            }
            let ghost vs = member_views(es@);
            let mut i: usize = 0;
            while i < es.len()
                invariant
                    i <= es@.len(),
                    vs == member_views(es@),
                    v@ == JsonView::Object(vs),
                    crate::error::seq_views(out@) == vs.take(i as int).map_values(|e: (Seq<char>, JsonView)| e.0),
                decreases es.len() - i,
            {
                let ghost before = crate::error::seq_views(out@);
                out.push(copy_string(&es[i].0));
                assert(crate::error::seq_views(out@) =~= before.push(vs[i as int].0));
                i = i + 1;
                assert(vs.take(i as int).map_values(|e: (Seq<char>, JsonView)| e.0) =~= vs.take(i - 1).map_values(
                    |e: (Seq<char>, JsonView)| e.0,
                ).push(vs[i - 1].0));
            }
            assert(vs.take(i as int) =~= vs);
        },
        _ => {
            assert(crate::error::seq_views(out@) =~= Seq::<Seq<char>>::empty());
        },
    }
    out
}

fn int_flag_exec(v: Option<&Json>) -> (r: bool)
    ensures
        r == int_flag(crate::json::oview(v)),
{
    match v {
        Some(Json::Number(n)) => match n.i64_value {
            Some(i) => i != 0,
            None => false,
        },
        _ => false,
    }
}

fn country_info_from(es: &Vec<(String, Json)>) -> (r: CountryInfo)
    ensures
        r@ == country_info_of(member_views(es@)),
{
    let ghost vs = member_views(es@);
    let mut info = CountryInfo {
        iso: Vec::new(),
        prefix: Vec::new(),
        text_en: String::new(),
        text_ru: String::new(),
        operators: KeyMap::new(),
    };
    let mut i: usize = 0;
    assert(vs.take(0) =~= Seq::<(Seq<char>, JsonView)>::empty());
    assert(info@.iso =~= Seq::<Seq<char>>::empty());
    assert(info@.prefix =~= Seq::<Seq<char>>::empty());
    while i < es.len()
        invariant
            i <= es@.len(),
            vs == member_views(es@),
            info@ == country_info_of(vs.take(i as int)),
        decreases es.len() - i,
    {
        proof {
            assert(vs.take(i + 1).drop_last() =~= vs.take(i as int));
            assert(vs.take(i + 1).last() == vs[i as int]);
        }
        let key = &es[i].0;
        let val = &es[i].1;
        let kc = crate::text::chars_of(key.as_str());
        if crate::text::eq_str(&kc, "iso") {
            info.iso = object_keys_exec(val);
        } else if crate::text::eq_str(&kc, "prefix") {
            info.prefix = object_keys_exec(val);
        } else if crate::text::eq_str(&kc, "text_en") {
            info.text_en = match crate::json::value_to_string(Some(val)) {
                Some(t) => t,
                None => String::new(),
            };
        } else if crate::text::eq_str(&kc, "text_ru") {
            info.text_ru = match crate::json::value_to_string(Some(val)) {
                Some(t) => t,
                None => String::new(),
            };
        } else if let Json::Object(_) = val {
            let support = OperatorSupport {
                activation: int_flag_exec(val.get("activation")),
                hosting: int_flag_exec(val.get("hosting")),
            };
            info.operators.insert(copy_string(key), support);
        }
        i = i + 1;
    }
    assert(vs.take(i as int) =~= vs);
    info
}

/// `{"england":{"iso":{"gb":1},"prefix":{"+44":1},"text_en":"England","text_ru":"…","<operator>":{"activation":1},…},…}`
/// → slug → country (see [`countries_of`]).
pub fn countries_from_json(v: &Json) -> (r: ApiResult<KeyMap<String, CountryInfo>>)
    ensures
        match r {
            Ok(t) => countries_of(v@) == Ok::<Map<Seq<char>, CountryInfoView>, ErrorView>(t@.map_values(|c: CountryInfo| c@)),
            Err(e) => countries_of(v@) == Err::<Map<Seq<char>, CountryInfoView>, ErrorView>(e@),
        },
{
    let es = as_object(v, "countries")?;
    let ghost vs = member_views(es@);
    let mut out: KeyMap<String, CountryInfo> = KeyMap::new();
    let mut i: usize = 0;
    assert(vs.take(0) =~= Seq::<(Seq<char>, JsonView)>::empty());
    assert(out@.map_values(|c: CountryInfo| c@) =~= Map::empty());
    while i < es.len()
        invariant
            i <= es@.len(),
            vs == member_views(es@),
            v@ == JsonView::Object(vs),
            countries_fold(vs.take(i as int)) == Ok::<Map<Seq<char>, CountryInfoView>, ErrorView>(out@.map_values(|c: CountryInfo| c@)),
        decreases es.len() - i,
    {
        proof {
            assert(vs.take(i + 1).drop_last() =~= vs.take(i as int));
            assert(vs.take(i + 1).last() == vs[i as int]);
        }
        let ies = match as_object(&es[i].1, "country") {
            Ok(x) => x,
            Err(e) => {
                proof {
                    lemma_countries_err(vs, i + 1, e@);
                }
                return Err(e);
            },
        };
        let info = country_info_from(ies);
        let ghost before = out@;
        let ghost iv = info@;
        out.insert(copy_string(&es[i].0), info);
        assert(out@.map_values(|c: CountryInfo| c@) =~= before.map_values(|c: CountryInfo| c@).insert(vs[i as int].0, iv));
        i = i + 1;
    }
    assert(vs.take(i as int) =~= vs);
    Ok(out)
}

/// The trait-level country of a country-list entry: the slug as key, `text_en` / `text_ru` as
/// names (an empty Russian name is none), the first ISO code and prefix.
pub open spec fn country_row(slug: Seq<char>, info: CountryInfoView) -> CountryView {
    CountryView {
        key: CountryKey::Slug(slug),
        name_en: info.text_en,
        name_ru: if info.text_ru.len() > 0 {
            Some(info.text_ru)
        } else {
            None
        },
        name_cn: None,
        iso: if info.iso.len() > 0 {
            Some(info.iso[0])
        } else {
            None
        },
        prefix: if info.prefix.len() > 0 {
            Some(info.prefix[0])
        } else {
            None
        },
        visible: None,
        retry: None,
        rent: None,
    }
}

fn first_of(v: &Vec<String>) -> (r: Option<String>)
    ensures
        opt_text(r) == (if v@.len() > 0 {
            Some(v@[0]@)
        } else {
            None::<Seq<char>>
        }),
{
    if v.len() > 0 {
        Some(copy_string(&v[0]))
    } else {
        None
    }
}

/// The trait-level countries of a country list, in its entry order (see [`country_row`]).
pub fn countries_list(table: &KeyMap<String, CountryInfo>) -> (r: Vec<crate::types::Country>)
    ensures
        crate::error::seq_views(r@) == table.seq().map_values(|e: (String, CountryInfo)| country_row(e.0@, e.1@)),
{
    let entries = table.entries();
    let ghost s = entries@.map_values(|e: (String, CountryInfo)| country_row(e.0@, e.1@));
    let mut out: Vec<crate::types::Country> = Vec::new();
    let mut i: usize = 0;
    assert(crate::error::seq_views(out@) =~= s.take(0));
    while i < entries.len()
        invariant
            i <= entries@.len(),
            s == entries@.map_values(|e: (String, CountryInfo)| country_row(e.0@, e.1@)),
            crate::error::seq_views(out@) == s.take(i as int),
        decreases entries.len() - i,
    {
        let (slug, info) = &entries[i];
        let ru = crate::text::chars_of(info.text_ru.as_str());
        let c = crate::types::Country {
            key: CountryRef::Slug(copy_string(slug)),
            name_en: copy_string(&info.text_en),
            name_ru: if ru.len() > 0 { Some(copy_string(&info.text_ru)) } else { None },
            name_cn: None,
            iso: first_of(&info.iso),
            prefix: first_of(&info.prefix),
            visible: None,
            retry: None,
            rent: None,
        };
        let ghost before = crate::error::seq_views(out@);
        out.push(c);
        assert(crate::error::seq_views(out@) =~= before.push(s[i as int]));
        i = i + 1;
        assert(s.take(i as int) =~= s.take(i - 1).push(s[i - 1]));
    }
    assert(s.take(i as int) =~= s);
    out
}

/// The operator names of a country, in its operator order.
pub open spec fn operator_names(info: &CountryInfo) -> Seq<Seq<char>> {
    info.operators.seq().map_values(|e: (String, OperatorSupport)| e.0@)
}

fn operator_names_exec(info: &CountryInfo) -> (r: Vec<String>)
    ensures
        crate::error::seq_views(r@) == operator_names(info),
{
    let entries = info.operators.entries();
    let mut out: Vec<String> = Vec::new();
    let mut i: usize = 0;
    while i < entries.len()
        invariant
            i <= entries@.len(),
            entries@ == info.operators.seq(),
            crate::error::seq_views(out@) == entries@.take(i as int).map_values(|e: (String, OperatorSupport)| e.0@),
        decreases entries.len() - i,
    {
        let ghost before = crate::error::seq_views(out@);
        out.push(copy_string(&entries[i].0));
        assert(crate::error::seq_views(out@) =~= before.push(entries@[i as int].0@));
        i = i + 1;
        assert(entries@.take(i as int).map_values(|e: (String, OperatorSupport)| e.0@) =~= entries@.take(i - 1).map_values(
            |e: (String, OperatorSupport)| e.0@,
        ).push(entries@[i - 1].0@));
    }
    assert(entries@.take(i as int) =~= entries@);
    out
}

/// The operators of every country of the list, or of the one named `wanted` (an unknown name
/// is [`ErrorView::BadCountry`]).
pub open spec fn operators_selection(table: KeyMap<String, CountryInfo>, wanted: Option<Seq<char>>) -> Result<Map<CountryKey, Seq<Seq<char>>>, ErrorView> {
    match wanted {
        Some(name) => if table@.contains_key(name) {
            Ok(Map::empty().insert(CountryKey::Slug(name), operator_names(&table@[name])))
        } else {
            Err(ErrorView::BadCountry)
        },
        None => Ok(
            Map::new(
                |k: CountryKey| k matches CountryKey::Slug(n) && table@.contains_key(n),
                |k: CountryKey| match k {
                    CountryKey::Slug(n) => operator_names(&table@[n]),
                    _ => Seq::empty(),
                },
            ),
        ),
    }
}

/// The operators of the selected countries (see [`operators_selection`]).
pub fn select_operators(table: &KeyMap<String, CountryInfo>, wanted: Option<&str>) -> (r: ApiResult<KeyMap<CountryRef, Vec<String>>>)
    ensures
        match r {
            Ok(t) => operators_selection(*table, match wanted {
                Some(w) => Some(w@),
                None => None,
            }) == Ok::<Map<CountryKey, Seq<Seq<char>>>, ErrorView>(crate::protocol::operators_view(t)),
            Err(e) => operators_selection(*table, match wanted {
                Some(w) => Some(w@),
                None => None,
            }) == Err::<Map<CountryKey, Seq<Seq<char>>>, ErrorView>(e@),
        },
{
    let mut out: KeyMap<CountryRef, Vec<String>> = KeyMap::new();
    match wanted {
        Some(name) => {
            let key = owned(name);
            match table.get(&key) {
                Some(info) => {
                    let names = operator_names_exec(info);
                    let ghost nv = crate::error::seq_views(names@);
                    out.insert(CountryRef::Slug(key), names);
                    assert(crate::protocol::operators_view(out) =~= Map::empty().insert(CountryKey::Slug(name@), nv));
                    Ok(out)
                },
                None => Err(ApiError::BadCountry),
            }
        },
        None => {
            let entries = table.entries();
            let ghost target = Map::new(
                |k: CountryKey| k matches CountryKey::Slug(n) && table@.contains_key(n),
                |k: CountryKey| match k {
                    CountryKey::Slug(n) => operator_names(&table@[n]),
                    _ => Seq::empty(),
                },
            );
            let mut i: usize = 0;
            assert(crate::protocol::operators_view(out) =~= Map::empty());
            while i < entries.len()
                invariant
                    i <= entries@.len(),
                    entries@ == table.seq(),
                    crate::keymap::unique_keys(entries@),
                    target == Map::new(
                        |k: CountryKey| k matches CountryKey::Slug(n) && table@.contains_key(n),
                        |k: CountryKey| match k {
                            CountryKey::Slug(n) => operator_names(&table@[n]),
                            _ => Seq::empty(),
                        },
                    ),
                    forall|k: CountryKey| #[trigger] crate::protocol::operators_view(out).contains_key(k) <==> (k matches CountryKey::Slug(n)
                        && exists|j: int| 0 <= j < i && entries@[j].0@ == n),
                    forall|k: CountryKey| #[trigger] crate::protocol::operators_view(out).contains_key(k) ==> crate::protocol::operators_view(out)[k]
                        == target[k],
                decreases entries.len() - i,
            {
                let (name, info) = &entries[i];
                let ghost nm = name@;
                let ghost before = crate::protocol::operators_view(out);
                proof {
                    crate::keymap::lemma_map_of_index(entries@, i as int);
                    assert(table@[nm] == *info);
                    assert(target.contains_key(CountryKey::Slug(nm)));
                }
                let names = operator_names_exec(info);
                let ghost nv = crate::error::seq_views(names@);
                out.insert(CountryRef::Slug(copy_string(name)), names);
                proof {
                    assert(crate::protocol::operators_view(out) =~= before.insert(CountryKey::Slug(nm), nv));
                    assert(target[CountryKey::Slug(nm)] == nv);
                    assert forall|k: CountryKey| #[trigger] crate::protocol::operators_view(out).contains_key(k) <==> (k matches CountryKey::Slug(n)
                        && exists|j: int| 0 <= j < i + 1 && entries@[j].0@ == n) by {
                        if let CountryKey::Slug(n) = k {
                            if n == nm {
                                assert(entries@[i as int].0@ == n);
                            } else if exists|j: int| 0 <= j < i + 1 && entries@[j].0@ == n {
                                let j = choose|j: int| 0 <= j < i + 1 && entries@[j].0@ == n;
                                assert(j < i);
                            }
                        }
                    }
                }
                i = i + 1;
            }
            proof {
                assert forall|k: CountryKey| #[trigger] target.contains_key(k) implies crate::protocol::operators_view(out).contains_key(k) by {
                    if let CountryKey::Slug(n) = k {
                        crate::keymap::lemma_map_of_keys(entries@, n);
                    }
                }
                assert forall|k: CountryKey| #[trigger] crate::protocol::operators_view(out).contains_key(k) implies target.contains_key(k) by {
                    if let CountryKey::Slug(n) = k {
                        crate::keymap::lemma_map_of_keys(entries@, n);
                    }
                }
                assert(crate::protocol::operators_view(out) =~= target);
            }
            Ok(out)
        },
    }
}

} // verus!
