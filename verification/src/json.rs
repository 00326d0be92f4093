//! JSON documents as the parsers read them. Decoding raw text is serde_json's work; the decoded
//! document is held in [`Json`], whose objects keep serde_json's order (sorted, unique keys), and
//! the lenient accessors the providers need (numbers and numeric strings mixed freely) are
//! verified here.

use vstd::prelude::*;
use crate::amount::{Amount, decimal_units, parse_decimal, unit};
use crate::error::{ApiError, ApiResult};
use crate::num::{parse_u64, parse_u64_spec};
use crate::text::{chars_of, eq_str, string_of, trim, trim_chars, trim_str};
use crate::transport::{ascii_lower, eq_ignore_ascii_case, eq_ignore_case};
use crate::types::{CountryKey, CountryRef, copy_string, country_key_of, opt_key, opt_text, opt_units};

verus! {

#[verifier::external_type_specification]
#[verifier::external_body]
pub struct ExJsonError(serde_json::Error);

#[verifier::external_type_specification]
#[verifier::external_body]
pub struct ExJsonValue(serde_json::Value);

/// A JSON number: serde_json's text for it and its integer readings.
#[derive(Debug)]
pub struct JsonNumber {
    /// The number as serde_json writes it (`12`, `-3`, `0.45`, `1e20`).
    pub text: String,
    /// `Number::as_u64`.
    pub u64_value: Option<u64>,
    /// `Number::as_i64`.
    pub i64_value: Option<i64>,
}

/// A decoded JSON document.
#[derive(Debug)]
pub enum Json {
    Null,
    Bool(bool),
    Number(JsonNumber),
    Str(String),
    Array(Vec<Json>),
    /// Members in serde_json's order: sorted by key, each key once.
    Object(Vec<(String, Json)>),
}

/// What a [`Json`] denotes.
pub enum JsonView {
    Null,
    Bool(bool),
    Number(Seq<char>, Option<u64>, Option<i64>),
    Str(Seq<char>),
    Array(Seq<JsonView>),
    Object(Seq<(Seq<char>, JsonView)>),
}

pub open spec fn json_view(j: Json) -> JsonView
    decreases j,
{
    match j {
        Json::Null => JsonView::Null,
        Json::Bool(b) => JsonView::Bool(b),
        Json::Number(n) => JsonView::Number(n.text@, n.u64_value, n.i64_value),
        Json::Str(s) => JsonView::Str(s@),
        Json::Array(a) => JsonView::Array(
            Seq::new(a@.len(), |i: int| if 0 <= i < a@.len() { json_view(a@[i]) } else { JsonView::Null }),
        ),
        Json::Object(o) => JsonView::Object(
            Seq::new(
                o@.len(),
                |i: int| if 0 <= i < o@.len() { (o@[i].0@, json_view(o@[i].1)) } else { (Seq::empty(), JsonView::Null) },
            ),
        ),
    }
}

impl View for Json {
    type V = JsonView;

    open spec fn view(&self) -> JsonView {
        json_view(*self)
    }
}


/// The document serde_json decodes from a text (`None` when the text is not JSON).
pub uninterp spec fn json_of_text(text: Seq<char>) -> Option<JsonView>;

/// `serde_json::from_str::<serde_json::Value>`: decodes `text`. The result is the document
/// [`json_of_text`] names, or the decoder's error exactly when it names none.
#[verifier::external_body]
fn decode_json(text: &str) -> (r: Result<Json, serde_json::Error>)
    ensures
        match r {
            Ok(j) => json_of_text(text@) == Some(j@),
            Err(_) => json_of_text(text@) is None,
        },
{
    serde_json::from_str::<serde_json::Value>(text).map(json_from_value)
}

/// Moves a decoded `serde_json::Value` into a [`Json`], variant for variant (used by
/// [`decode_json`] only).
#[verifier::external_body]
fn json_from_value(v: serde_json::Value) -> Json {
    match v {
        serde_json::Value::Null => Json::Null,
        serde_json::Value::Bool(b) => Json::Bool(b),
        serde_json::Value::Number(n) => Json::Number(
            JsonNumber { text: n.to_string(), u64_value: n.as_u64(), i64_value: n.as_i64() },
        ),
        serde_json::Value::String(s) => Json::Str(s),
        serde_json::Value::Array(a) => Json::Array(a.into_iter().map(json_from_value).collect()),
        serde_json::Value::Object(o) => Json::Object(o.into_iter().map(|(k, x)| (k, json_from_value(x))).collect()),
    }
}

/// The `Display` text of a `serde_json::Error` (nothing is claimed of its wording).
#[verifier::external_body]
fn json_error_message(e: &serde_json::Error) -> String {
    e.to_string()
}

/// Decodes a JSON text; a text that is not JSON is [`ApiError::Parse`] with the decoder's message.
pub fn parse_json(text: &str) -> (r: ApiResult<Json>)
    ensures
        match r {
            Ok(j) => json_of_text(text@) == Some(j@),
            Err(e) => json_of_text(text@) is None && e@ is Parse,
        },
{
    match decode_json(text) {
        Ok(j) => Ok(j),
        Err(e) => Err(ApiError::Parse(json_error_message(&e))),
    }
}

/// The value under `k` in a member list (the first such member).
pub open spec fn member(es: Seq<(Seq<char>, JsonView)>, k: Seq<char>) -> Option<JsonView>
    decreases es.len(),
{
    if es.len() == 0 {
        None
    } else if es[0].0 == k {
        Some(es[0].1)
    } else {
        member(es.drop_first(), k)
    }
}

/// `Value::get(k)`: the member `k` of an object; `None` for anything else.
pub open spec fn jget(v: JsonView, k: Seq<char>) -> Option<JsonView> {
    match v {
        JsonView::Object(es) => member(es, k),
        _ => None,
    }
}

/// [`jget`] through an optional value.
pub open spec fn oget(o: Option<JsonView>, k: Seq<char>) -> Option<JsonView> {
    match o {
        Some(v) => jget(v, k),
        None => None,
    }
}

/// The view of an optional reference to a document.
pub open spec fn oview(o: Option<&Json>) -> Option<JsonView> {
    match o {
        Some(j) => Some(j@),
        None => None,
    }
}

pub proof fn lemma_member_at(es: Seq<(Seq<char>, JsonView)>, k: Seq<char>, i: int)
    requires
        0 <= i < es.len(),
        es[i].0 == k,
        forall|j: int| 0 <= j < i ==> (#[trigger] es[j]).0 != k,
    ensures
        member(es, k) == Some(es[i].1),
    decreases i,
{
    if i > 0 {
        assert(es[0].0 != k);
        assert forall|j: int| 0 <= j < i - 1 implies (#[trigger] es.drop_first()[j]).0 != k by {
            assert(es.drop_first()[j] == es[j + 1]);
        }
        lemma_member_at(es.drop_first(), k, i - 1);
    }
}

pub proof fn lemma_member_none(es: Seq<(Seq<char>, JsonView)>, k: Seq<char>)
    requires
        forall|j: int| 0 <= j < es.len() ==> (#[trigger] es[j]).0 != k,
    ensures
        member(es, k) is None,
    decreases es.len(),
{
    if es.len() > 0 {
        assert(es[0].0 != k);
        assert forall|j: int| 0 <= j < es.len() - 1 implies (#[trigger] es.drop_first()[j]).0 != k by {
            assert(es.drop_first()[j] == es[j + 1]);
        }
        lemma_member_none(es.drop_first(), k);
    }
}

/// The views of a list of documents.
pub open spec fn views(s: Seq<Json>) -> Seq<JsonView> {
    Seq::new(s.len(), |i: int| s[i]@)
}

/// The views of a member list.
pub open spec fn member_views(s: Seq<(String, Json)>) -> Seq<(Seq<char>, JsonView)> {
    Seq::new(s.len(), |i: int| (s[i].0@, s[i].1@))
}

pub proof fn lemma_array_view(a: Vec<Json>)
    ensures
        json_view(Json::Array(a)) == JsonView::Array(views(a@)),
{
    if let JsonView::Array(s) = json_view(Json::Array(a)) {
        assert(s =~= views(a@));
    }
}

pub proof fn lemma_object_view(o: Vec<(String, Json)>)
    ensures
        json_view(Json::Object(o)) == JsonView::Object(member_views(o@)),
{
    if let JsonView::Object(s) = json_view(Json::Object(o)) {
        assert(s =~= member_views(o@));
    }
}

/// Whether a document is the empty array `[]` (PHP's encoding of an empty associative array).
pub fn is_empty_array(v: &Json) -> (r: bool)
    ensures
        r == (v@ == JsonView::Array(Seq::empty())),
{
    match v {
        Json::Array(a) => {
            proof {
                lemma_array_view(*a);
            }
            if a.len() == 0 {
                assert(views(a@) =~= Seq::<JsonView>::empty());
                true
            } else {
                assert(views(a@).len() > 0);
                false
            }
        },
        _ => false,
    }
}

impl Json {
    /// `Value::get(key)`.
    pub fn get(&self, key: &str) -> (r: Option<&Json>)
        ensures
            oview(r) == jget(self@, key@),
    {
        match self {
            Json::Object(es) => {
                let ghost vs = member_views(es@);
                proof {
                    lemma_object_view(*es);
                }
                let mut i: usize = 0;
                while i < es.len()
                    invariant
                        i <= es@.len(),
                        vs == member_views(es@),
                        self@ == JsonView::Object(vs),
                        forall|j: int| 0 <= j < i ==> (#[trigger] vs[j]).0 != key@,
                    decreases es.len() - i,
                {
                    let k = chars_of(es[i].0.as_str());
                    if eq_str(&k, key) {
                        proof {
                            lemma_member_at(vs, key@, i as int);
                            assert(self@ == JsonView::Object(vs));
                            assert(vs[i as int].1 == es@[i as int].1@);
                        }
                        return Some(&es[i].1);
                    }
                    i = i + 1;
                }
                proof {
                    lemma_member_none(vs, key@);
                }
                None
            },
            _ => None,
        }
    }

    /// `Value::as_str`.
    pub fn as_str(&self) -> (r: Option<&str>)
        ensures
            match self@ {
                JsonView::Str(s) => r is Some && r.unwrap()@ == s,
                _ => r is None,
            },
    {
        match self {
            Json::Str(s) => Some(s.as_str()),
            _ => None,
        }
    }

    /// `Value::as_array`.
    pub fn as_array(&self) -> (r: Option<&Vec<Json>>)
        ensures
            match self@ {
                JsonView::Array(a) => r is Some && a == views(r.unwrap()@),
                _ => r is None,
            },
    {
        match self {
            Json::Array(a) => {
                proof {
                    lemma_array_view(*a);
                }
                Some(a)
            },
            _ => None,
        }
    }
}

/// [`Json::get`] through an optional value.
pub fn get_in<'a>(v: Option<&'a Json>, key: &str) -> (r: Option<&'a Json>)
    ensures
        oview(r) == oget(oview(v), key@),
{
    match v {
        Some(j) => j.get(key),
        None => None,
    }
}

/// The text of a value: strings as they are, numbers and booleans as serde_json writes them.
pub open spec fn vstring(o: Option<JsonView>) -> Option<Seq<char>> {
    match o {
        Some(JsonView::Str(s)) => Some(s),
        Some(JsonView::Number(t, _, _)) => Some(t),
        Some(JsonView::Bool(b)) => Some(if b { "true"@ } else { "false"@ }),
        _ => None,
    }
}

/// An amount of 10⁻¹⁸ units as `f64 as u64` converts it: negative values to 0, fractions cut
/// off, values beyond `u64::MAX` to `u64::MAX`.
pub open spec fn saturate_u64(units: int) -> u64 {
    if units <= 0 {
        0
    } else if units / unit() > u64::MAX {
        u64::MAX
    } else {
        (units / unit()) as u64
    }
}

/// An unsigned count: integers as they are, other numbers through [`saturate_u64`] (when their
/// value is an exact amount, see [`crate::amount`]), numeric strings parsed.
pub open spec fn vu64(o: Option<JsonView>) -> Option<u64> {
    match o {
        Some(JsonView::Number(t, u, _)) => match u {
            Some(n) => Some(n),
            None => match decimal_units(t) {
                Some(x) => Some(saturate_u64(x)),
                None => None,
            },
        },
        Some(JsonView::Str(s)) => parse_u64_spec(trim(s)),
        _ => None,
    }
}

/// An amount: numbers and numeric strings, exactly (see [`crate::amount`]).
pub open spec fn vamount(o: Option<JsonView>) -> Option<int> {
    match o {
        Some(JsonView::Number(t, _, _)) => decimal_units(t),
        Some(JsonView::Str(s)) => decimal_units(trim(s)),
        _ => None,
    }
}

/// A flag: booleans, integers (non-zero is true) and the words `1 true yes` / `0 false no` and
/// the empty string, in any ASCII case.
pub open spec fn vbool(o: Option<JsonView>) -> Option<bool> {
    match o {
        Some(JsonView::Bool(b)) => Some(b),
        Some(JsonView::Number(_, _, i)) => match i {
            Some(n) => Some(n != 0),
            None => None,
        },
        Some(JsonView::Str(s)) => {
            let t = trim(s);
            if t == "1"@ || eq_ignore_ascii_case(t, "true"@) || eq_ignore_ascii_case(t, "yes"@) {
                Some(true)
            } else if t == "0"@ || t.len() == 0 || eq_ignore_ascii_case(t, "false"@)
                || eq_ignore_ascii_case(t, "no"@) {
                Some(false)
            } else {
                None
            }
        },
        _ => None,
    }
}

/// A country key: unsigned integers as ids (`as u32`, i.e. modulo 2³²), non-blank strings
/// through [`country_key_of`].
pub open spec fn vcountry(o: Option<JsonView>) -> Option<CountryKey> {
    match o {
        Some(JsonView::Number(_, u, _)) => match u {
            Some(n) => Some(CountryKey::Id((n % 0x1_0000_0000) as u32)),
            None => None,
        },
        Some(JsonView::Str(s)) => if trim(s).len() > 0 { Some(country_key_of(s)) } else { None },
        _ => None,
    }
}

/// The text of a value (see [`vstring`]).
pub fn value_to_string(v: Option<&Json>) -> (r: Option<String>)
    ensures
        opt_text(r) == vstring(oview(v)),
{
    match v {
        Some(Json::Str(s)) => Some(copy_string(s)),
        Some(Json::Number(n)) => Some(copy_string(&n.text)),
        Some(Json::Bool(b)) => {
            if *b {
                let t = "true";
                proof {
                    reveal_strlit("true");
                }
                Some(string_of(&chars_of(t)))
            } else {
                let t = "false";
                proof {
                    reveal_strlit("false");
                }
                Some(string_of(&chars_of(t)))
            }
        },
        _ => None,
    }
}

/// [`saturate_u64`] on an amount.
pub fn amount_to_u64(a: Amount) -> (r: u64)
    ensures
        r == saturate_u64(a.units as int),
{
    if a.units <= 0 {
        0
    } else {
        let q: i128 = a.units / 1_000_000_000_000_000_000i128;
        assert(unit() == 1_000_000_000_000_000_000);
        if q > u64::MAX as i128 {
            u64::MAX
        } else {
            q as u64
        }
    }
}

/// A count (see [`vu64`]).
pub fn value_to_u64(v: Option<&Json>) -> (r: Option<u64>)
    ensures
        r == vu64(oview(v)),
{
    match v {
        Some(Json::Number(n)) => match n.u64_value {
            Some(u) => Some(u),
            None => {
                let t = chars_of(n.text.as_str());
                match parse_decimal(&t) {
                    Some(a) => Some(amount_to_u64(a)),
                    None => None,
                }
            },
        },
        Some(Json::Str(s)) => {
            let t = trim_str(s.as_str());
            parse_u64(&t)
        },
        _ => None,
    }
}

/// An amount (see [`vamount`]).
pub fn value_to_amount(v: Option<&Json>) -> (r: Option<Amount>)
    ensures
        opt_units(r) == vamount(oview(v)),
{
    match v {
        Some(Json::Number(n)) => {
            let t = chars_of(n.text.as_str());
            parse_decimal(&t)
        },
        Some(Json::Str(s)) => {
            let t = trim_str(s.as_str());
            parse_decimal(&t)
        },
        _ => None,
    }
}

/// Whether `t` is `w` in any ASCII case.
fn is_word(t: &[char], w: &str) -> (r: bool)
    ensures
        r == eq_ignore_ascii_case(t@, w@),
{
    let wv = chars_of(w);
    eq_ignore_case(t, &wv)
}

/// A flag (see [`vbool`]).
pub fn value_to_bool(v: Option<&Json>) -> (r: Option<bool>)
    ensures
        r == vbool(oview(v)),
{
    match v {
        Some(Json::Bool(b)) => Some(*b),
        Some(Json::Number(n)) => match n.i64_value {
            Some(i) => Some(i != 0),
            None => None,
        },
        Some(Json::Str(s)) => {
            let t = trim_str(s.as_str());
            if eq_str(&t, "1") || is_word(&t, "true") || is_word(&t, "yes") {
                Some(true)
            } else if eq_str(&t, "0") || t.len() == 0 || is_word(&t, "false") || is_word(&t, "no") {
                Some(false)
            } else {
                None
            }
        },
        _ => None,
    }
}

/// A country key (see [`vcountry`]).
pub fn value_to_country(v: Option<&Json>) -> (r: Option<CountryRef>)
    ensures
        opt_key(r) == vcountry(oview(v)),
{
    match v {
        Some(Json::Number(n)) => match n.u64_value {
            Some(u) => Some(CountryRef::Id((u % 0x1_0000_0000u64) as u32)),
            None => None,
        },
        Some(Json::Str(s)) => {
            let t = trim_str(s.as_str());
            if t.len() > 0 {
                Some(CountryRef::parse(s.as_str()))
            } else {
                None
            }
        },
        _ => None,
    }
}

/// The message of a value that should have been an object.
pub open spec fn object_expected(what: Seq<char>) -> Seq<char> {
    "expected a JSON object for "@ + what
}

/// The members of an object; [`ApiError::Parse`] naming `what` for anything else.
pub fn as_object<'a>(v: &'a Json, what: &str) -> (r: ApiResult<&'a Vec<(String, Json)>>)
    ensures
        match v@ {
            JsonView::Object(es) => r is Ok && es == member_views(r.unwrap()@),
            _ => r matches Err(e) && e@ == crate::error::ErrorView::Parse(object_expected(what@)),
        },
{
    match v {
        Json::Object(es) => {
            proof {
                lemma_object_view(*es);
            }
            Ok(es)
        },
        _ => {
            let mut m = String::new();
            crate::text::push_str(&mut m, "expected a JSON object for ");
            crate::text::push_str(&mut m, what);
            Err(ApiError::Parse(m))
        },
    }
}

/// A lowercase hexadecimal digit.
pub open spec fn hex_digit(d: nat) -> char {
    if d < 10 { ((d + 48) as u8) as char } else { ((d + 87) as u8) as char }
}

/// How serde_json writes one character inside a string literal.
pub open spec fn escape_char(c: char) -> Seq<char> {
    if c == '"' {
        seq!['\\', '"']
    } else if c == '\\' {
        seq!['\\', '\\']
    } else if c == '\u{8}' {
        seq!['\\', 'b']
    } else if c == '\t' {
        seq!['\\', 't']
    } else if c == '\n' {
        seq!['\\', 'n']
    } else if c == '\u{c}' {
        seq!['\\', 'f']
    } else if c == '\r' {
        seq!['\\', 'r']
    } else if (c as u32) < 0x20 {
        seq!['\\', 'u', '0', '0', hex_digit((c as u32 / 16) as nat), hex_digit((c as u32 % 16) as nat)]
    } else {
        seq![c]
    }
}

/// The body of a JSON string literal for `s`.
pub open spec fn escaped(s: Seq<char>) -> Seq<char>
    decreases s.len(),
{
    if s.len() == 0 {
        Seq::empty()
    } else {
        escaped(s.drop_last()) + escape_char(s.last())
    }
}

/// How serde_json writes a value that is neither an array nor an object.
pub open spec fn scalar_text(v: JsonView) -> Seq<char> {
    match v {
        JsonView::Null => seq!['n', 'u', 'l', 'l'],
        JsonView::Bool(b) => if b { seq!['t', 'r', 'u', 'e'] } else { seq!['f', 'a', 'l', 's', 'e'] },
        JsonView::Number(t, _, _) => t,
        JsonView::Str(s) => seq!['"'] + escaped(s) + seq!['"'],
        _ => Seq::empty(),
    }
}

fn hex_char(d: u32) -> (c: char)
    requires
        d < 16,
    ensures
        c == hex_digit(d as nat),
{
    if d < 10 { ((d + 48) as u8) as char } else { ((d + 87) as u8) as char }
}

pub(crate) fn push_escaped(out: &mut Vec<char>, c: char)
    ensures
        final(out)@ == old(out)@ + escape_char(c),
{
    let ghost o = out@;
    if c == '"' {
        out.push('\\');
        out.push('"');
    } else if c == '\\' {
        out.push('\\');
        out.push('\\');
    } else if c == '\u{8}' {
        out.push('\\');
        out.push('b');
    } else if c == '\t' {
        out.push('\\');
        out.push('t');
    } else if c == '\n' {
        out.push('\\');
        out.push('n');
    } else if c == '\u{c}' {
        out.push('\\');
        out.push('f');
    } else if c == '\r' {
        out.push('\\');
        out.push('r');
    } else if (c as u32) < 0x20 {
        out.push('\\');
        out.push('u');
        out.push('0');
        out.push('0');
        out.push(hex_char(c as u32 / 16));
        out.push(hex_char(c as u32 % 16));
    } else {
        out.push(c);
    }
    assert(out@ =~= o + escape_char(c));
}

/// The text of a value that is neither an array nor an object, as serde_json writes it.
pub fn scalar_to_string(v: &Json) -> (r: String)
    ensures
        r@ == scalar_text(v@),
{
    let mut out: Vec<char> = Vec::new();
    match v {
        Json::Null => {
            out.push('n');
            out.push('u');
            out.push('l');
            out.push('l');
        },
        Json::Bool(b) => {
            if *b {
                out.push('t');
                out.push('r');
                out.push('u');
                out.push('e');
            } else {
                out.push('f');
                out.push('a');
                out.push('l');
                out.push('s');
                out.push('e');
            }
        },
        Json::Number(n) => {
            return copy_string(&n.text);
        },
        Json::Str(s) => {
            let cs = chars_of(s.as_str());
            out.push('"');
            let mut i: usize = 0;
            while i < cs.len()
                invariant
                    i <= cs@.len(),
                    out@ == seq!['"'] + escaped(cs@.take(i as int)),
                decreases cs.len() - i,
            {
                proof {
                    assert(cs@.take(i + 1).drop_last() =~= cs@.take(i as int));
                }
                push_escaped(&mut out, cs[i]);
                i = i + 1;
            }
            assert(cs@.take(i as int) =~= cs@);
            out.push('"');
        },
        _ => {},
    }
    proof {
        match v@ {
            JsonView::Null => assert(out@ =~= seq!['n', 'u', 'l', 'l']),
            JsonView::Bool(b) => {
                if b {
                    assert(out@ =~= seq!['t', 'r', 'u', 'e']);
                } else {
                    assert(out@ =~= seq!['f', 'a', 'l', 's', 'e']);
                }
            },
            JsonView::Array(_) => assert(out@ =~= Seq::<char>::empty()),
            JsonView::Object(_) => assert(out@ =~= Seq::<char>::empty()),
            _ => {},
        }
    }
    string_of(&out)
}

impl Json {
    /// A copy of the document.
    pub fn deep_copy(&self) -> (r: Json)
        ensures
            r@ == self@,
        decreases self,
    {
        match self {
            Json::Null => Json::Null,
            Json::Bool(b) => Json::Bool(*b),
            Json::Number(n) => Json::Number(
                JsonNumber { text: copy_string(&n.text), u64_value: n.u64_value, i64_value: n.i64_value },
            ),
            Json::Str(s) => Json::Str(copy_string(s)),
            Json::Array(a) => {
                let mut out: Vec<Json> = Vec::new();
                let mut i: usize = 0;
                while i < a.len()
                    invariant
                        i <= a@.len(),
                        *self == Json::Array(*a),
                        out@.len() == i,
                        forall|j: int| 0 <= j < i ==> (#[trigger] out@[j])@ == a@[j]@,
                    decreases a.len() - i,
                {
                    proof {
                        assert(decreases_to!(*self => (*self)->Array_0));
                        assert(decreases_to!(*a => a@));
                        assert(decreases_to!(a@ => a@[i as int]));
                    }
                    out.push(a[i].deep_copy());
                    i = i + 1;
                }
                proof {
                    lemma_array_view(*a);
                    lemma_array_view(out);
                    assert(views(out@) =~= views(a@));
                }
                Json::Array(out)
            },
            Json::Object(o) => {
                let mut out: Vec<(String, Json)> = Vec::new();
                let mut i: usize = 0;
                while i < o.len()
                    invariant
                        i <= o@.len(),
                        *self == Json::Object(*o),
                        out@.len() == i,
                        forall|j: int| 0 <= j < i ==> (#[trigger] out@[j]).0@ == o@[j].0@ && out@[j].1@ == o@[j].1@,
                    decreases o.len() - i,
                {
                    proof {
                        assert(decreases_to!(*self => (*self)->Object_0));
                        assert(decreases_to!(*o => o@));
                        assert(decreases_to!(o@ => o@[i as int]));
                        assert(decreases_to!(o@[i as int] => o@[i as int].1));
                    }
                    out.push((copy_string(&o[i].0), o[i].1.deep_copy()));
                    i = i + 1;
                }
                proof {
                    lemma_object_view(*o);
                    lemma_object_view(out);
                    assert(member_views(out@) =~= member_views(o@));
                }
                Json::Object(out)
            },
        }
    }
}

} // verus!
