use sms_activate::transport::{FakeTransport, HttpRequest, HttpResponse, Transport, TransportError};

#[test]
fn request_builder_and_fake_recording() {
    let req = HttpRequest::get("https://x.test/v1/user/profile")
        .bearer("tok")
        .accept_json();
    assert_eq!(req.header_value("authorization"), Some("Bearer tok"));
    assert!(!req.is_plain_get());
    let t = FakeTransport::new().push(200, "{}");
    t.request(&req).unwrap();
    assert_eq!(t.requests(), vec!["https://x.test/v1/user/profile"]);
    assert_eq!(t.recorded()[0].headers.len(), 2);
    let p = HttpRequest::post("https://x.test").json_body("{\"a\":1}");
    assert_eq!(p.header_value("Content-Type"), Some("application/json"));
}

struct GetOnly;

impl Transport for GetOnly {
    fn get(&self, _url: &str) -> Result<HttpResponse, TransportError> {
        Ok(HttpResponse::new(200, "ok"))
    }
}

#[test]
fn default_request_refuses_headers() {
    assert!(GetOnly.request(&HttpRequest::get("u")).is_ok());
    assert!(GetOnly.request(&HttpRequest::get("u").bearer("t")).is_err());
}

#[test]
fn fake_transport_reports_an_exhausted_script_as_a_transport_error() {
    let t = FakeTransport::new().push(200, "A").push_error("reset");
    assert_eq!(t.get("u1").unwrap().body, "A");
    assert_eq!(t.get("u2").unwrap_err().0, "reset");
    assert!(t.get("u3").is_err());
    assert_eq!(t.requests(), vec!["u1", "u2", "u3"]);
}
