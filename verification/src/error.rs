//! Error model shared by every provider.

use vstd::prelude::*;
use crate::amount::{Amount, decimal_units, parse_decimal};
use crate::text::{chars_of, eq_str, has_prefix, lemma_trim_idempotent, slice_vec, split_once, split_once_chars, starts_with, string_of, trim, trim_chars, trim_str};
use crate::transport::TransportError;
use crate::types::copy_string;

verus! {

#[derive(Debug)]
pub enum ApiError {
    /// Invalid API key.
    BadKey,
    /// Unknown action (its name, when the provider says).
    BadAction(String),
    /// Unknown service.
    BadService,
    /// Unknown country.
    BadCountry,
    /// Invalid status transition.
    BadStatus,
    /// No numbers available.
    NoNumbers,
    /// Insufficient balance.
    NoBalance,
    /// Activation not found.
    NoActivation,
    /// The activation cannot be cancelled yet.
    EarlyCancelDenied,
    /// `maxPrice` is below the minimum (the minimum, when the provider says).
    WrongMaxPrice { min: Option<Amount> },
    /// Account banned until the given time.
    Banned { until: String },
    /// Validation failed for a request field.
    Validation { field: String, message: String },
    /// HTTP 429 (or an equivalent token). `retry_after` is seconds when the provider says.
    RateLimited { retry_after: Option<u64> },
    /// The action is not part of this provider's dialect.
    Unsupported(&'static str),
    /// A recognised-looking protocol error code without a mapping of its own (e.g. `ERROR_SQL`).
    Other(String),
    /// A non-success HTTP status with the (trimmed) body.
    Http { status: u16, body: String },
    /// The transport failed.
    Transport(TransportError),
    /// A response in an unexpected shape.
    Unexpected(String),
    /// A response that could not be parsed.
    Parse(String),
}

/// What an [`ApiError`] denotes.
pub enum ErrorView {
    BadKey,
    BadAction(Seq<char>),
    BadService,
    BadCountry,
    BadStatus,
    NoNumbers,
    NoBalance,
    NoActivation,
    EarlyCancelDenied,
    WrongMaxPrice(Option<int>),
    Banned(Seq<char>),
    Validation(Seq<char>, Seq<char>),
    RateLimited(Option<u64>),
    Unsupported(Seq<char>),
    Other(Seq<char>),
    Http(u16, Seq<char>),
    Transport(Seq<char>),
    Unexpected(Seq<char>),
    Parse(Seq<char>),
}

impl View for ApiError {
    type V = ErrorView;

    open spec fn view(&self) -> ErrorView {
        match self {
            ApiError::BadKey => ErrorView::BadKey,
            ApiError::BadAction(a) => ErrorView::BadAction(a@),
            ApiError::BadService => ErrorView::BadService,
            ApiError::BadCountry => ErrorView::BadCountry,
            ApiError::BadStatus => ErrorView::BadStatus,
            ApiError::NoNumbers => ErrorView::NoNumbers,
            ApiError::NoBalance => ErrorView::NoBalance,
            ApiError::NoActivation => ErrorView::NoActivation,
            ApiError::EarlyCancelDenied => ErrorView::EarlyCancelDenied,
            ApiError::WrongMaxPrice { min } => ErrorView::WrongMaxPrice(
                match min { Some(m) => Some(m.units as int), None => None },
            ),
            ApiError::Banned { until } => ErrorView::Banned(until@),
            ApiError::Validation { field, message } => ErrorView::Validation(field@, message@),
            ApiError::RateLimited { retry_after } => ErrorView::RateLimited(*retry_after),
            ApiError::Unsupported(a) => ErrorView::Unsupported(a@),
            ApiError::Other(c) => ErrorView::Other(c@),
            ApiError::Http { status, body } => ErrorView::Http(*status, body@),
            ApiError::Transport(e) => ErrorView::Transport(e.0@),
            ApiError::Unexpected(b) => ErrorView::Unexpected(b@),
            ApiError::Parse(m) => ErrorView::Parse(m@),
        }
    }
}

pub type ApiResult<T> = Result<T, ApiError>;

/// The error view of a result, `None` for success.
pub open spec fn err_of<T>(r: ApiResult<T>) -> Option<ErrorView> {
    match r {
        Ok(_) => None,
        Err(e) => Some(e@),
    }
}

/// A result with its success value and its error taken by their views.
pub open spec fn res_view<T: View>(r: ApiResult<T>) -> Result<T::V, ErrorView> {
    match r {
        Ok(x) => Ok(x@),
        Err(e) => Err(e@),
    }
}

/// The views of a sequence of values.
pub open spec fn seq_views<T: View>(s: Seq<T>) -> Seq<T::V> {
    s.map_values(|x: T| x@)
}

/// A result holding a list, taken by the views of its items.
pub open spec fn list_res<T: View>(r: ApiResult<Vec<T>>) -> Result<Seq<T::V>, ErrorView> {
    match r {
        Ok(v) => Ok(seq_views(v@)),
        Err(e) => Err(e@),
    }
}

/// The error view of an optional error.
pub open spec fn opt_err(o: Option<ApiError>) -> Option<ErrorView> {
    match o {
        Some(e) => Some(e@),
        None => None,
    }
}

pub open spec fn is_ascii_upper(c: char) -> bool {
    'A' <= c && c <= 'Z'
}

/// `ERROR_SQL`, `NO_CONNECTION`, `SERVER_ERROR`, … — SCREAMING_SNAKE tokens (at most 40
/// characters, at least one letter) that do not start like a success answer
/// (`ACCESS_`, `STATUS_`, `OK`).
pub open spec fn error_token(head: Seq<char>) -> bool {
    &&& head.len() > 0
    &&& head.len() <= 40
    &&& forall|i: int| 0 <= i < head.len() ==> {
        let c = #[trigger] head[i];
        is_ascii_upper(c) || c == '_' || ('0' <= c && c <= '9')
    }
    &&& exists|i: int| 0 <= i < head.len() && is_ascii_upper(#[trigger] head[i])
    &&& !starts_with(head, "ACCESS_"@)
    &&& !starts_with(head, "STATUS_"@)
    &&& !starts_with(head, "OK"@)
}

/// The head and trimmed tail of a `HEAD:tail` code.
pub open spec fn code_head(c: Seq<char>) -> Seq<char> {
    match split_once(c, ':') { Some((h, t)) => h, None => c }
}

pub open spec fn code_tail(c: Seq<char>) -> Option<Seq<char>> {
    match split_once(c, ':') { Some((h, t)) => Some(trim(t)), None => None }
}

/// [`ApiError::from_code`] as a function of the code's text.
pub open spec fn code_error(code: Seq<char>) -> Option<ErrorView> {
    let c = trim(code);
    let head = code_head(c);
    let tail = code_tail(c);
    let tail_text = match tail { Some(t) => t, None => Seq::<char>::empty() };
    if head == "BAD_KEY"@ {
        Some(ErrorView::BadKey)
    } else if head == "BAD_ACTION"@ {
        Some(ErrorView::BadAction(tail_text))
    } else if head == "BAD_SERVICE"@ || head == "WRONG_SERVICE"@ {
        Some(ErrorView::BadService)
    } else if head == "BAD_COUNTRY"@ {
        Some(ErrorView::BadCountry)
    } else if head == "BAD_STATUS"@ {
        Some(ErrorView::BadStatus)
    } else if head == "NO_NUMBERS"@ {
        Some(ErrorView::NoNumbers)
    } else if head == "NO_BALANCE"@ {
        Some(ErrorView::NoBalance)
    } else if head == "NO_ACTIVATION"@ || head == "WRONG_ACTIVATION_ID"@ || head == "NOT_FOUND"@ {
        Some(ErrorView::NoActivation)
    } else if head == "EARLY_CANCEL_DENIED"@ {
        Some(ErrorView::EarlyCancelDenied)
    } else if head == "WRONG_MAX_PRICE"@ {
        Some(ErrorView::WrongMaxPrice(match tail { Some(t) => decimal_units(t), None => None }))
    } else if head == "BANNED"@ {
        Some(ErrorView::Banned(tail_text))
    } else if error_token(head) {
        Some(ErrorView::Other(c))
    } else {
        None
    }
}

/// [`error_token`] in executable form.
pub fn is_error_token(head: &[char]) -> (r: bool)
    ensures
        r == error_token(head@),
{
    if head.len() == 0 || head.len() > 40 {
        return false;
    }
    let mut upper = false;
    let mut i: usize = 0;
    while i < head.len()
        invariant
            i <= head@.len(),
            forall|j: int| 0 <= j < i ==> {
                let c = #[trigger] head@[j];
                is_ascii_upper(c) || c == '_' || ('0' <= c && c <= '9')
            },
            upper == exists|j: int| 0 <= j < i && is_ascii_upper(#[trigger] head@[j]),
        decreases head.len() - i,
    {
        let c = head[i];
        if !(('A' <= c && c <= 'Z') || c == '_' || ('0' <= c && c <= '9')) {
            return false;
        }
        if 'A' <= c && c <= 'Z' {
            upper = true;
        }
        i = i + 1;
    }
    upper && !has_prefix(head, "ACCESS_") && !has_prefix(head, "STATUS_") && !has_prefix(head, "OK")
}

/// A `String` holding the characters of `v`.
pub fn text(v: &[char]) -> (r: String)
    ensures
        r@ == v@,
{
    string_of(v)
}

/// A `String` holding `s`.
pub fn owned(s: &str) -> (r: String)
    ensures
        r@ == s@,
{
    string_of(&chars_of(s))
}

impl ApiError {
    /// Maps a standard sms-activate error token (`BAD_KEY`, `NO_NUMBERS`, `BANNED:2024-01-01 …`)
    /// to an [`ApiError`]. Returns `None` for anything that is not an error token.
    pub fn from_code(code: &str) -> (r: Option<ApiError>)
        ensures
            match r {
                Some(e) => code_error(code@) == Some(e@),
                None => code_error(code@) is None,
            },
    {
        let c = trim_str(code);
        proof {
            lemma_trim_idempotent(code@);
        }
        Self::from_code_chars(&c)
    }

    /// [`ApiError::from_code`] on the characters of an already trimmed code.
    pub fn from_code_chars(c: &[char]) -> (r: Option<ApiError>)
        requires
            c@ == trim(c@),
        ensures
            match r {
                Some(e) => code_error(c@) == Some(e@),
                None => code_error(c@) is None,
            },
    {
        proof {
            lemma_trim_idempotent(c@);
        }
        let (head, tail): (Vec<char>, Option<Vec<char>>) = match split_once_chars(c, ':') {
            Some((h, t)) => (h, Some(trim_chars(&t))),
            None => (slice_vec(c, 0, c.len()), None),
        };
        assert(head@ == code_head(c@)) by {
            if split_once(c@, ':') is None {
                assert(c@.subrange(0, c@.len() as int) =~= c@);
            }
        }
        let tail_text: Vec<char> = match &tail {
            Some(t) => slice_vec(t, 0, t.len()),
            None => Vec::new(),
        };
        proof {
            if let Some(t) = &tail {
                assert(t@.subrange(0, t@.len() as int) =~= t@);
            } else {
                assert(tail_text@ =~= Seq::<char>::empty());
            }
        }
        let e = if eq_str(&head, "BAD_KEY") {
            ApiError::BadKey
        } else if eq_str(&head, "BAD_ACTION") {
            ApiError::BadAction(text(&tail_text))
        } else if eq_str(&head, "BAD_SERVICE") || eq_str(&head, "WRONG_SERVICE") {
            ApiError::BadService
        } else if eq_str(&head, "BAD_COUNTRY") {
            ApiError::BadCountry
        } else if eq_str(&head, "BAD_STATUS") {
            ApiError::BadStatus
        } else if eq_str(&head, "NO_NUMBERS") {
            ApiError::NoNumbers
        } else if eq_str(&head, "NO_BALANCE") {
            ApiError::NoBalance
        } else if eq_str(&head, "NO_ACTIVATION") || eq_str(&head, "WRONG_ACTIVATION_ID")
            || eq_str(&head, "NOT_FOUND") {
            ApiError::NoActivation
        } else if eq_str(&head, "EARLY_CANCEL_DENIED") {
            ApiError::EarlyCancelDenied
        } else if eq_str(&head, "WRONG_MAX_PRICE") {
            let min = match &tail {
                Some(t) => parse_decimal(t),
                None => None,
            };
            ApiError::WrongMaxPrice { min }
        } else if eq_str(&head, "BANNED") {
            ApiError::Banned { until: text(&tail_text) }
        } else if is_error_token(&head) {
            ApiError::Other(text(c))
        } else {
            return None;
        };
        Some(e)
    }
}

} // verus!
