//! Reading the members of a 5SIM JSON object the way its documented record types are read:
//! required members must be present with the right type, members with a default may be absent
//! (and, for optional ones, `null`), and a member of the wrong type fails the whole record.

use vstd::prelude::*;
use crate::amount::{Amount, decimal_units};
use crate::error::{ApiError, ApiResult, ErrorView};
use crate::json::{Json, JsonView, jget, member_views, oview, views};
use crate::types::opt_text;

verus! {

/// The message of a record that does not read: the member (or record) at fault.
pub open spec fn bad_member(k: Seq<char>) -> Seq<char> {
    "invalid or missing 5SIM field `"@ + k + "`"@
}

pub fn bad_member_error(k: &str) -> (r: ApiError)
    ensures
        r@ == ErrorView::Parse(bad_member(k@)),
{
    let mut m = String::new();
    crate::text::push_str(&mut m, "invalid or missing 5SIM field `");
    crate::text::push_str(&mut m, k);
    crate::text::push_str(&mut m, "`");
    ApiError::Parse(m)
}

/// A required text member.
pub open spec fn req_text(v: JsonView, k: Seq<char>) -> Option<Seq<char>> {
    match jget(v, k) {
        Some(JsonView::Str(s)) => Some(s),
        _ => None,
    }
}

/// A text member that defaults to empty when absent.
pub open spec fn text_or_empty(v: JsonView, k: Seq<char>) -> Option<Seq<char>> {
    match jget(v, k) {
        None => Some(Seq::empty()),
        Some(JsonView::Str(s)) => Some(s),
        _ => None,
    }
}

/// An optional text member: absent or `null` is `None`.
pub open spec fn opt_text_member(v: JsonView, k: Seq<char>) -> Option<Option<Seq<char>>> {
    match jget(v, k) {
        None => Some(None),
        Some(JsonView::Null) => Some(None),
        Some(JsonView::Str(s)) => Some(Some(s)),
        _ => None,
    }
}

/// A required unsigned integer member.
pub open spec fn req_u64(v: JsonView, k: Seq<char>) -> Option<u64> {
    match jget(v, k) {
        Some(JsonView::Number(_, Some(n), _)) => Some(n),
        _ => None,
    }
}

/// An unsigned integer member that defaults to 0 when absent.
pub open spec fn u64_or_zero(v: JsonView, k: Seq<char>) -> Option<u64> {
    match jget(v, k) {
        None => Some(0),
        Some(JsonView::Number(_, Some(n), _)) => Some(n),
        _ => None,
    }
}

/// An optional unsigned integer member: absent or `null` is `None`.
pub open spec fn opt_u64_member(v: JsonView, k: Seq<char>) -> Option<Option<u64>> {
    match jget(v, k) {
        None => Some(None),
        Some(JsonView::Null) => Some(None),
        Some(JsonView::Number(_, Some(n), _)) => Some(Some(n)),
        _ => None,
    }
}

/// A required amount member (any JSON number, exactly).
pub open spec fn req_amount(v: JsonView, k: Seq<char>) -> Option<int> {
    match jget(v, k) {
        Some(JsonView::Number(t, _, _)) => decimal_units(t),
        _ => None,
    }
}

/// An amount member that defaults to 0 when absent.
pub open spec fn amount_or_zero(v: JsonView, k: Seq<char>) -> Option<int> {
    match jget(v, k) {
        None => Some(0),
        Some(JsonView::Number(t, _, _)) => decimal_units(t),
        _ => None,
    }
}

/// An optional amount member: absent or `null` is `None`.
pub open spec fn opt_amount_member(v: JsonView, k: Seq<char>) -> Option<Option<int>> {
    match jget(v, k) {
        None => Some(None),
        Some(JsonView::Null) => Some(None),
        Some(JsonView::Number(t, _, _)) => match decimal_units(t) {
            Some(x) => Some(Some(x)),
            None => None,
        },
        _ => None,
    }
}

/// A flag member that defaults to `false` when absent.
pub open spec fn bool_or_false(v: JsonView, k: Seq<char>) -> Option<bool> {
    match jget(v, k) {
        None => Some(false),
        Some(JsonView::Bool(b)) => Some(b),
        _ => None,
    }
}

/// An optional flag member: absent or `null` is `None`.
pub open spec fn opt_bool_member(v: JsonView, k: Seq<char>) -> Option<Option<bool>> {
    match jget(v, k) {
        None => Some(None),
        Some(JsonView::Null) => Some(None),
        Some(JsonView::Bool(b)) => Some(Some(b)),
        _ => None,
    }
}

/// A list member where absent and `null` are the empty list.
pub open spec fn items_or_empty(v: JsonView, k: Seq<char>) -> Option<Seq<JsonView>> {
    match jget(v, k) {
        None => Some(Seq::empty()),
        Some(JsonView::Null) => Some(Seq::empty()),
        Some(JsonView::Array(a)) => Some(a),
        _ => None,
    }
}

pub fn get_req_text(v: &Json, k: &str) -> (r: ApiResult<String>)
    ensures
        match req_text(v@, k@) {
            Some(s) => r matches Ok(x) && x@ == s,
            None => r matches Err(e) && e@ == ErrorView::Parse(bad_member(k@)),
        },
{
    match v.get(k) {
        Some(Json::Str(s)) => Ok(crate::types::copy_string(s)),
        _ => Err(bad_member_error(k)),
    }
}

pub fn get_text(v: &Json, k: &str) -> (r: ApiResult<String>)
    ensures
        match text_or_empty(v@, k@) {
            Some(s) => r matches Ok(x) && x@ == s,
            None => r matches Err(e) && e@ == ErrorView::Parse(bad_member(k@)),
        },
{
    match v.get(k) {
        None => Ok(String::new()),
        Some(Json::Str(s)) => Ok(crate::types::copy_string(s)),
        _ => Err(bad_member_error(k)),
    }
}

pub fn get_opt_text(v: &Json, k: &str) -> (r: ApiResult<Option<String>>)
    ensures
        match opt_text_member(v@, k@) {
            Some(s) => r matches Ok(x) && opt_text(x) == s,
            None => r matches Err(e) && e@ == ErrorView::Parse(bad_member(k@)),
        },
{
    match v.get(k) {
        None => Ok(None),
        Some(Json::Null) => Ok(None),
        Some(Json::Str(s)) => Ok(Some(crate::types::copy_string(s))),
        _ => Err(bad_member_error(k)),
    }
}

pub fn get_req_u64(v: &Json, k: &str) -> (r: ApiResult<u64>)
    ensures
        match req_u64(v@, k@) {
            Some(n) => r == Ok::<u64, ApiError>(n),
            None => r matches Err(e) && e@ == ErrorView::Parse(bad_member(k@)),
        },
{
    match v.get(k) {
        Some(Json::Number(n)) => match n.u64_value {
            Some(x) => Ok(x),
            None => Err(bad_member_error(k)),
        },
        _ => Err(bad_member_error(k)),
    }
}

pub fn get_u64(v: &Json, k: &str) -> (r: ApiResult<u64>)
    ensures
        match u64_or_zero(v@, k@) {
            Some(n) => r == Ok::<u64, ApiError>(n),
            None => r matches Err(e) && e@ == ErrorView::Parse(bad_member(k@)),
        },
{
    match v.get(k) {
        None => Ok(0),
        Some(Json::Number(n)) => match n.u64_value {
            Some(x) => Ok(x),
            None => Err(bad_member_error(k)),
        },
        _ => Err(bad_member_error(k)),
    }
}

pub fn get_opt_u64(v: &Json, k: &str) -> (r: ApiResult<Option<u64>>)
    ensures
        match opt_u64_member(v@, k@) {
            Some(n) => r == Ok::<Option<u64>, ApiError>(n),
            None => r matches Err(e) && e@ == ErrorView::Parse(bad_member(k@)),
        },
{
    match v.get(k) {
        None => Ok(None),
        Some(Json::Null) => Ok(None),
        Some(Json::Number(n)) => match n.u64_value {
            Some(x) => Ok(Some(x)),
            None => Err(bad_member_error(k)),
        },
        _ => Err(bad_member_error(k)),
    }
}

fn number_amount(n: &crate::json::JsonNumber) -> (r: Option<Amount>)
    ensures
        match r {
            Some(a) => decimal_units(n.text@) == Some(a.units as int),
            None => decimal_units(n.text@) is None,
        },
{
    let t = crate::text::chars_of(n.text.as_str());
    crate::amount::parse_decimal(&t)
}

pub fn get_req_amount(v: &Json, k: &str) -> (r: ApiResult<Amount>)
    ensures
        match req_amount(v@, k@) {
            Some(x) => r matches Ok(a) && a.units == x,
            None => r matches Err(e) && e@ == ErrorView::Parse(bad_member(k@)),
        },
{
    match v.get(k) {
        Some(Json::Number(n)) => match number_amount(n) {
            Some(a) => Ok(a),
            None => Err(bad_member_error(k)),
        },
        _ => Err(bad_member_error(k)),
    }
}

pub fn get_amount(v: &Json, k: &str) -> (r: ApiResult<Amount>)
    ensures
        match amount_or_zero(v@, k@) {
            Some(x) => r matches Ok(a) && a.units == x,
            None => r matches Err(e) && e@ == ErrorView::Parse(bad_member(k@)),
        },
{
    match v.get(k) {
        None => Ok(Amount::zero()),
        Some(Json::Number(n)) => match number_amount(n) {
            Some(a) => Ok(a),
            None => Err(bad_member_error(k)),
        },
        _ => Err(bad_member_error(k)),
    }
}

pub fn get_opt_amount(v: &Json, k: &str) -> (r: ApiResult<Option<Amount>>)
    ensures
        match opt_amount_member(v@, k@) {
            Some(x) => r matches Ok(a) && crate::types::opt_units(a) == x,
            None => r matches Err(e) && e@ == ErrorView::Parse(bad_member(k@)),
        },
{
    match v.get(k) {
        None => Ok(None),
        Some(Json::Null) => Ok(None),
        Some(Json::Number(n)) => match number_amount(n) {
            Some(a) => Ok(Some(a)),
            None => Err(bad_member_error(k)),
        },
        _ => Err(bad_member_error(k)),
    }
}

pub fn get_bool(v: &Json, k: &str) -> (r: ApiResult<bool>)
    ensures
        match bool_or_false(v@, k@) {
            Some(b) => r == Ok::<bool, ApiError>(b),
            None => r matches Err(e) && e@ == ErrorView::Parse(bad_member(k@)),
        },
{
    match v.get(k) {
        None => Ok(false),
        Some(Json::Bool(b)) => Ok(*b),
        _ => Err(bad_member_error(k)),
    }
}

pub fn get_opt_bool(v: &Json, k: &str) -> (r: ApiResult<Option<bool>>)
    ensures
        match opt_bool_member(v@, k@) {
            Some(b) => r == Ok::<Option<bool>, ApiError>(b),
            None => r matches Err(e) && e@ == ErrorView::Parse(bad_member(k@)),
        },
{
    match v.get(k) {
        None => Ok(None),
        Some(Json::Null) => Ok(None),
        Some(Json::Bool(b)) => Ok(Some(*b)),
        _ => Err(bad_member_error(k)),
    }
}

/// The items of a list member (see [`items_or_empty`]); `None` stands for the empty list.
pub fn get_items<'a>(v: &'a Json, k: &str) -> (r: ApiResult<Option<&'a Vec<Json>>>)
    ensures
        match items_or_empty(v@, k@) {
            Some(s) => r matches Ok(x) && match x {
                Some(a) => views(a@) == s,
                None => s.len() == 0,
            },
            None => r matches Err(e) && e@ == ErrorView::Parse(bad_member(k@)),
        },
{
    match v.get(k) {
        None => Ok(None),
        Some(Json::Null) => Ok(None),
        Some(Json::Array(a)) => {
            proof {
                crate::json::lemma_array_view(*a);
            }
            Ok(Some(a))
        },
        _ => Err(bad_member_error(k)),
    }
}

} // verus!
