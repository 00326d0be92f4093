//! HTTP transport abstraction. The sms-activate family only needs `GET url → (status, body)`;
//! REST-style providers (5SIM) also need methods, headers and bodies, hence [`HttpRequest`].

use vstd::prelude::*;
use vstd::rwlock::{RwLock, RwLockPredicate};
use crate::text::{chars_of, string_of};
use crate::types::copy_string;

verus! {

#[derive(Clone, Copy, Debug, PartialEq, Eq, Structural)]
pub enum Method {
    Get,
    Post,
    Put,
    Delete,
}

/// ASCII lower-casing of one character (other characters are unchanged).
pub open spec fn ascii_lower(c: char) -> char {
    if 'A' <= c && c <= 'Z' { ((c as int) + 32) as char } else { c }
}

/// `str::eq_ignore_ascii_case`.
pub open spec fn eq_ignore_ascii_case(a: Seq<char>, b: Seq<char>) -> bool {
    a.len() == b.len() && forall|i: int| 0 <= i < a.len() ==> ascii_lower(#[trigger] a[i]) == ascii_lower(b[i])
}

pub fn to_ascii_lower(c: char) -> (r: char)
    ensures
        r == ascii_lower(c),
{
    if 'A' <= c && c <= 'Z' {
        ((c as u32) + 32) as u8 as char
    } else {
        c
    }
}

/// ASCII upper-casing of one character (other characters are unchanged).
pub open spec fn ascii_upper(c: char) -> char {
    if 'a' <= c && c <= 'z' { ((c as int) - 32) as char } else { c }
}

pub fn to_ascii_upper(c: char) -> (r: char)
    ensures
        r == ascii_upper(c),
{
    if 'a' <= c && c <= 'z' {
        ((c as u32) - 32) as u8 as char
    } else {
        c
    }
}

/// `str::eq_ignore_ascii_case` on characters.
pub fn eq_ignore_case(a: &[char], b: &[char]) -> (r: bool)
    ensures
        r == eq_ignore_ascii_case(a@, b@),
{
    if a.len() != b.len() {
        return false;
    }
    let mut i: usize = 0;
    while i < a.len()
        invariant
            a@.len() == b@.len(),
            i <= a@.len(),
            forall|j: int| 0 <= j < i ==> ascii_lower(#[trigger] a@[j]) == ascii_lower(b@[j]),
        decreases a.len() - i,
    {
        if to_ascii_lower(a[i]) != to_ascii_lower(b[i]) {
            return false;
        }
        i = i + 1;
    }
    true
}

/// A copy of a list of header pairs.
pub fn copy_pairs(v: &Vec<(String, String)>) -> (r: Vec<(String, String)>)
    ensures
        r@.len() == v@.len(),
        forall|i: int| 0 <= i < v@.len() ==> (#[trigger] r@[i]).0@ == v@[i].0@ && r@[i].1@ == v@[i].1@,
{
    let mut r: Vec<(String, String)> = Vec::new();
    let mut i: usize = 0;
    while i < v.len()
        invariant
            i <= v@.len(),
            r@.len() == i,
            forall|j: int| 0 <= j < i ==> (#[trigger] r@[j]).0@ == v@[j].0@ && r@[j].1@ == v@[j].1@,
        decreases v.len() - i,
    {
        r.push((copy_string(&v[i].0), copy_string(&v[i].1)));
        i = i + 1;
    }
    r
}

/// The text of a header pair list: names and values.
pub open spec fn pairs_view(v: Seq<(String, String)>) -> Seq<(Seq<char>, Seq<char>)> {
    v.map_values(|p: (String, String)| (p.0@, p.1@))
}

/// A full HTTP request. Build with [`HttpRequest::get`] / [`HttpRequest::new`] and the chainable helpers.
#[derive(Debug, PartialEq, Eq)]
pub struct HttpRequest {
    pub method: Method,
    pub url: String,
    pub headers: Vec<(String, String)>,
    pub body: Option<String>,
}

/// What an [`HttpRequest`] denotes.
pub struct RequestView {
    pub method: Method,
    pub url: Seq<char>,
    pub headers: Seq<(Seq<char>, Seq<char>)>,
    pub body: Option<Seq<char>>,
}

impl View for HttpRequest {
    type V = RequestView;

    open spec fn view(&self) -> RequestView {
        RequestView {
            method: self.method,
            url: self.url@,
            headers: pairs_view(self.headers@),
            body: match self.body { Some(b) => Some(b@), None => None },
        }
    }
}

impl Clone for HttpRequest {
    fn clone(&self) -> (r: Self)
        ensures
            r@ == self@,
    {
        let headers = copy_pairs(&self.headers);
        assert(pairs_view(headers@) =~= pairs_view(self.headers@));
        HttpRequest {
            method: self.method,
            url: copy_string(&self.url),
            headers,
            body: match &self.body { Some(b) => Some(copy_string(b)), None => None },
        }
    }
}

/// Index of the first header whose name matches `name` case-insensitively.
pub open spec fn header_index(h: Seq<(Seq<char>, Seq<char>)>, name: Seq<char>) -> Option<int>
    decreases h.len(),
{
    if h.len() == 0 {
        None
    } else if eq_ignore_ascii_case(h[0].0, name) {
        Some(0)
    } else {
        match header_index(h.drop_first(), name) {
            Some(i) => Some(i + 1),
            None => None,
        }
    }
}

proof fn lemma_header_index(h: Seq<(Seq<char>, Seq<char>)>, name: Seq<char>)
    ensures
        match header_index(h, name) {
            Some(i) => 0 <= i < h.len() && eq_ignore_ascii_case(h[i].0, name)
                && forall|j: int| 0 <= j < i ==> !eq_ignore_ascii_case(#[trigger] h[j].0, name),
            None => forall|j: int| 0 <= j < h.len() ==> !eq_ignore_ascii_case(#[trigger] h[j].0, name),
        },
    decreases h.len(),
{
    if h.len() > 0 && !eq_ignore_ascii_case(h[0].0, name) {
        lemma_header_index(h.drop_first(), name);
        assert forall|j: int| 0 < j < h.len() implies h[j] == h.drop_first()[j - 1] by {}
    }
}

impl HttpRequest {
    pub fn new(method: Method, url: &str) -> (r: Self)
        ensures
            r@ == (RequestView { method, url: url@, headers: Seq::empty(), body: None }),
    {
        let r = HttpRequest { method, url: string_of(&chars_of(url)), headers: Vec::new(), body: None };
        assert(pairs_view(r.headers@) =~= Seq::empty());
        r
    }

    pub fn get(url: &str) -> (r: Self)
        ensures
            r@ == (RequestView { method: Method::Get, url: url@, headers: Seq::empty(), body: None }),
    {
        Self::new(Method::Get, url)
    }

    pub fn post(url: &str) -> (r: Self)
        ensures
            r@ == (RequestView { method: Method::Post, url: url@, headers: Seq::empty(), body: None }),
    {
        Self::new(Method::Post, url)
    }

    /// Appends a header.
    pub fn header(self, name: &str, value: &str) -> (r: Self)
        ensures
            r@ == (RequestView { headers: self@.headers.push((name@, value@)), ..self@ }),
    {
        let mut s = self;
        let ghost old_h = s.headers@;
        s.headers.push((string_of(&chars_of(name)), string_of(&chars_of(value))));
        assert(pairs_view(s.headers@) =~= pairs_view(old_h).push((name@, value@)));
        s
    }

    /// `Authorization: Bearer <token>`
    pub fn bearer(self, token: &str) -> (r: Self)
        ensures
            r@ == (RequestView {
                headers: self@.headers.push(("Authorization"@, "Bearer "@ + token@)),
                ..self@
            }),
    {
        let mut v = String::new();
        crate::text::push_str(&mut v, "Bearer ");
        crate::text::push_str(&mut v, token);
        self.header("Authorization", v.as_str())
    }

    /// `Accept: application/json`
    pub fn accept_json(self) -> (r: Self)
        ensures
            r@ == (RequestView { headers: self@.headers.push(("Accept"@, "application/json"@)), ..self@ }),
    {
        self.header("Accept", "application/json")
    }

    /// Sets a JSON body (and `Content-Type: application/json`).
    pub fn json_body(self, body: &str) -> (r: Self)
        ensures
            r@ == (RequestView {
                body: Some(body@),
                headers: self@.headers.push(("Content-Type"@, "application/json"@)),
                ..self@
            }),
    {
        let mut s = self;
        s.body = Some(string_of(&chars_of(body)));
        s.header("Content-Type", "application/json")
    }

    /// Value of a header, case-insensitively (the first match).
    pub fn header_value(&self, name: &str) -> (r: Option<&str>)
        ensures
            match header_index(self@.headers, name@) {
                Some(i) => r is Some && r.unwrap()@ == self@.headers[i].1,
                None => r is None,
            },
    {
        let nv = chars_of(name);
        let ghost h = self@.headers;
        proof {
            lemma_header_index(h, name@);
        }
        let mut i: usize = 0;
        while i < self.headers.len()
            invariant
                i <= self.headers@.len(),
                h == pairs_view(self.headers@),
                nv@ == name@,
                forall|j: int| 0 <= j < i ==> !eq_ignore_ascii_case(#[trigger] h[j].0, name@),
            decreases self.headers.len() - i,
        {
            let k = chars_of(self.headers[i].0.as_str());
            assert(h[i as int] == (self.headers@[i as int].0@, self.headers@[i as int].1@));
            if eq_ignore_case(&k, &nv) {
                proof {
                    assert(k@ == h[i as int].0);
                    assert(eq_ignore_ascii_case(h[i as int].0, name@));
                    lemma_header_index(h, name@);
                    if let Some(j) = header_index(h, name@) {
                        if j < i {
                            assert(!eq_ignore_ascii_case(h[j].0, name@));
                        }
                        if j > i {
                            assert(!eq_ignore_ascii_case(h[i as int].0, name@));
                        }
                        assert(j == i);
                    } else {
                        assert(!eq_ignore_ascii_case(h[i as int].0, name@));
                    }
                }
                return Some(self.headers[i].1.as_str());
            }
            i = i + 1;
        }
        proof {
            lemma_header_index(h, name@);
            if let Some(j) = header_index(h, name@) {
                assert(!eq_ignore_ascii_case(h[j].0, name@));
            }
        }
        None
    }

    /// True for a bare `GET` with no headers and no body — what [`Transport::get`] can serve.
    pub fn is_plain_get(&self) -> (r: bool)
        ensures
            r == (self@.method == Method::Get && self@.headers.len() == 0 && self@.body is None),
    {
        self.method == Method::Get && self.headers.len() == 0 && self.body.is_none()
    }
}

#[derive(Debug, PartialEq, Eq)]
pub struct HttpResponse {
    pub status: u16,
    pub body: String,
}

impl Clone for HttpResponse {
    fn clone(&self) -> (r: Self)
        ensures
            r.status == self.status,
            r.body@ == self.body@,
    {
        HttpResponse { status: self.status, body: copy_string(&self.body) }
    }
}

impl HttpResponse {
    pub fn new(status: u16, body: &str) -> (r: Self)
        ensures
            r.status == status,
            r.body@ == body@,
    {
        HttpResponse { status, body: string_of(&chars_of(body)) }
    }
}

/// Network-level failure (DNS, TCP, TLS, timeout). HTTP error statuses are *not* transport
/// errors — they are returned as [`HttpResponse`] so dialects can read the provider's error body.
#[derive(Debug)]
pub struct TransportError(pub String);

impl Clone for TransportError {
    fn clone(&self) -> (r: Self)
        ensures
            r.0@ == self.0@,
    {
        TransportError(copy_string(&self.0))
    }
}

impl TransportError {
    /// The message (what `Display` writes).
    pub fn to_string(&self) -> (r: String)
        ensures
            r@ == self.0@,
    {
        copy_string(&self.0)
    }
}

/// The refusal of a transport that serves plain `GET`s only.
pub open spec fn plain_get_only_message() -> Seq<char> {
    "this transport only supports plain GET requests (no headers/body)"@
}

/// What a transport answered: the status and body of a response, or the message of a failure.
pub type Outcome = Result<(u16, Seq<char>), Seq<char>>;

/// Whether `req` is a plain `GET`: no headers and no body.
pub open spec fn plain_get(req: RequestView) -> bool {
    req.method == Method::Get && req.headers.len() == 0 && req.body is None
}

pub trait Transport: Send + Sync {
    /// The answers this transport may give to a plain `GET` of `url`. A transport that says
    /// nothing of its answers allows every one.
    open spec fn answers(&self, url: Seq<char>, o: Outcome) -> bool {
        true
    }

    /// The answers this transport may give to a request that is not a plain `GET`.
    open spec fn answers_request(&self, req: RequestView, o: Outcome) -> bool {
        true
    }

    /// Plain `GET` — everything the sms-activate protocol family needs.
    fn get(&self, url: &str) -> (r: Result<HttpResponse, TransportError>)
        ensures
            self.answers(url@, outcome_view(r)),
    ;

    /// Full request with method, headers and body. The default serves plain GETs through
    /// [`Transport::get`] and refuses anything else; real transports override it.
    fn request(&self, req: &HttpRequest) -> (r: Result<HttpResponse, TransportError>)
        ensures
            plain_get(req@) ==> self.answers(req@.url, outcome_view(r)),
            !plain_get(req@) ==> (self.answers_request(req@, outcome_view(r)) || (r matches Err(e)
                && e.0@ == plain_get_only_message())),
        default_ensures
            !plain_get(req@) ==> (r matches Err(e) && e.0@ == plain_get_only_message()),
    {
        if req.is_plain_get() {
            self.get(req.url.as_str())
        } else {
            let m = "this transport only supports plain GET requests (no headers/body)";
            proof {
                reveal_strlit("this transport only supports plain GET requests (no headers/body)");
            }
            Err(TransportError(string_of(&chars_of(m))))
        }
    }
}

impl<T: Transport + ?Sized> Transport for Box<T> {
    open spec fn answers(&self, url: Seq<char>, o: Outcome) -> bool {
        (**self).answers(url, o)
    }

    open spec fn answers_request(&self, req: RequestView, o: Outcome) -> bool {
        (**self).answers_request(req, o)
    }

    fn get(&self, url: &str) -> Result<HttpResponse, TransportError> {
        (**self).get(url)
    }

    fn request(&self, req: &HttpRequest) -> Result<HttpResponse, TransportError> {
        (**self).request(req)
    }
}

impl<T: Transport + ?Sized> Transport for std::sync::Arc<T> {
    open spec fn answers(&self, url: Seq<char>, o: Outcome) -> bool {
        (**self).answers(url, o)
    }

    open spec fn answers_request(&self, req: RequestView, o: Outcome) -> bool {
        (**self).answers_request(req, o)
    }

    fn get(&self, url: &str) -> Result<HttpResponse, TransportError> {
        (**self).get(url)
    }

    fn request(&self, req: &HttpRequest) -> Result<HttpResponse, TransportError> {
        (**self).request(req)
    }
}

/// The outcomes `t.request(req)` may end in (see [`Transport::request`]).
pub open spec fn request_answers<T: Transport>(t: T, req: RequestView, o: Outcome) -> bool {
    if plain_get(req) {
        t.answers(req.url, o)
    } else {
        t.answers_request(req, o) || o == Outcome::Err(plain_get_only_message())
    }
}

/// The outcome of a call as plain values.
pub open spec fn outcome_view(o: Result<HttpResponse, TransportError>) -> Outcome {
    match o {
        Ok(resp) => Ok((resp.status, resp.body@)),
        Err(e) => Err(e.0@),
    }
}

/// The mutable state of a [`FakeTransport`]: how many scripted answers were handed out, and
/// every request seen.
pub struct FakeState {
    next: usize,
    requests: Vec<HttpRequest>,
}

/// Any state is allowed.
pub struct AnyState;

impl RwLockPredicate<FakeState> for AnyState {
    open spec fn inv(self, v: FakeState) -> bool {
        true
    }
}

/// Scripted transport for tests: hands out queued responses in order and records every request.
pub struct FakeTransport {
    responses: Vec<Result<HttpResponse, TransportError>>,
    state: RwLock<FakeState, AnyState>,
}

/// The error for a request that finds the queue empty.
pub fn no_response_message(url: &String) -> (r: String)
    ensures
        r@ == "FakeTransport: no response queued for "@ + url@,
{
    let mut m = String::new();
    crate::text::push_str(&mut m, "FakeTransport: no response queued for ");
    crate::text::push_str(&mut m, url.as_str());
    m
}

impl FakeTransport {
    /// The queued answers, in the order they were queued.
    pub closed spec fn script(&self) -> Seq<Result<(u16, Seq<char>), Seq<char>>> {
        self.responses@.map_values(|o: Result<HttpResponse, TransportError>| outcome_view(o))
    }

    /// One of the queued answers, or the refusal naming `url` once the queue has run dry.
    pub open spec fn scripted(&self, url: Seq<char>, o: Outcome) -> bool {
        (exists|i: int| 0 <= i < self.script().len() && o == #[trigger] self.script()[i]) || o == Outcome::Err(
            "FakeTransport: no response queued for "@ + url,
        )
    }

    pub fn new() -> (r: Self)
        ensures
            r.script() == Seq::<Result<(u16, Seq<char>), Seq<char>>>::empty(),
    {
        let st = FakeState { next: 0, requests: Vec::new() };
        let r = FakeTransport { responses: Vec::new(), state: RwLock::new(st, Ghost(AnyState)) };
        assert(r.script() =~= Seq::<Result<(u16, Seq<char>), Seq<char>>>::empty());
        r
    }

    fn queue(self, item: Result<HttpResponse, TransportError>) -> (r: Self)
        ensures
            r.script() == self.script().push(outcome_view(item)),
    {
        let ghost before = self.script();
        let ghost iv = outcome_view(item);
        let FakeTransport { responses, state } = self;
        let mut responses = responses;
        let ghost old_r = responses@;
        responses.push(item);
        let r = FakeTransport { responses, state };
        assert(r.script() =~= before.push(iv)) by {
            assert(r.responses@ == old_r.push(item));
        }
        r
    }

    /// Queue a response (builder style).
    pub fn push(self, status: u16, body: &str) -> (r: Self)
        ensures
            r.script() == self.script().push(Ok((status, body@))),
    {
        self.queue(Ok(HttpResponse::new(status, body)))
    }

    /// Queue a transport failure.
    pub fn push_error(self, msg: &str) -> (r: Self)
        ensures
            r.script() == self.script().push(Err(msg@)),
    {
        self.queue(Err(TransportError(string_of(&chars_of(msg)))))
    }

    /// URLs requested so far, in order.
    pub fn requests(&self) -> Vec<String> {
        let h = self.state.acquire_read();
        let st = h.borrow();
        let mut out: Vec<String> = Vec::new();
        let mut i: usize = 0;
        while i < st.requests.len()
            decreases st.requests.len() - i,
        {
            out.push(copy_string(&st.requests[i].url));
            i = i + 1;
        }
        h.release_read();
        out
    }

    /// Full requests (method, headers, body) so far, in order.
    pub fn recorded(&self) -> Vec<HttpRequest> {
        let h = self.state.acquire_read();
        let st = h.borrow();
        let mut out: Vec<HttpRequest> = Vec::new();
        let mut i: usize = 0;
        while i < st.requests.len()
            decreases st.requests.len() - i,
        {
            out.push(st.requests[i].clone());
            i = i + 1;
        }
        h.release_read();
        out
    }
}

impl Default for FakeTransport {
    fn default() -> Self {
        FakeTransport::new()
    }
}

impl Transport for FakeTransport {
    open spec fn answers(&self, url: Seq<char>, o: Outcome) -> bool {
        self.scripted(url, o)
    }

    open spec fn answers_request(&self, req: RequestView, o: Outcome) -> bool {
        self.scripted(req.url, o)
    }

    fn get(&self, url: &str) -> (r: Result<HttpResponse, TransportError>) {
        self.request(&HttpRequest::get(url))
    }

    /// The next queued answer not yet handed out — so always one of the queued answers — or,
    /// when none is left, a transport error naming the URL.
    fn request(&self, req: &HttpRequest) -> (r: Result<HttpResponse, TransportError>)
        ensures
            self.scripted(req@.url, outcome_view(r)),
    {
        let (mut st, h) = self.state.acquire_write();
        st.requests.push(req.clone());
        let r = if st.next < self.responses.len() {
            let k = st.next;
            let item = match &self.responses[k] {
                Ok(resp) => Ok(resp.clone()),
                Err(e) => Err(e.clone()),
            };
            assert(outcome_view(item) == self.script()[k as int]);
            st.next = st.next + 1;
            item
        } else {
            Err(TransportError(no_response_message(&req.url)))
        };
        h.release_write(st);
        r
    }
}

} // verus!
