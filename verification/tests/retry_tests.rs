use std::time::Duration;

use sms_activate::api::{Client, SmsActivateApi};
use sms_activate::error::ApiError;
use sms_activate::providers::hero_sms::{AfterFetch, HeroSms, HeroSmsDialect, RetryStep, RetryTransport, backoff_fits_exec};
use sms_activate::transport::{FakeTransport, HttpResponse, Transport, TransportError};
use sms_activate::types::{ActivationId, CountryRef, NumberRequest, ServiceCode};

/// Runs the retry policy without sleeping (the tests use zero delays).
struct Looping(RetryTransport<FakeTransport>);

impl Transport for Looping {
    fn get(&self, url: &str) -> Result<HttpResponse, TransportError> {
        let policy = &self.0;
        let mut st = policy.begin(url);
        loop {
            match policy.next_step(&mut st) {
                RetryStep::Finish(outcome) => return outcome,
                RetryStep::Fetch => {}
            }
            let outcome = policy.inner().get(url);
            match policy.after_fetch(&mut st, outcome) {
                AfterFetch::Return(outcome) => return outcome,
                AfterFetch::Retry(Some(_)) => panic!("zero delays never pause"),
                AfterFetch::Retry(None) => {}
            }
        }
    }
}

fn client(t: RetryTransport<FakeTransport>) -> HeroSms<Looping> {
    Client::new(Looping(t), HeroSmsDialect, "KEY")
}

#[test]
fn retry_transport_never_repeats_a_purchase_or_state_change() {
    let req = NumberRequest::new("tg".into(), 187.into());
    let id = ActivationId::from("5");

    // transport error on getNumberV2: exactly one request, the error comes back unchanged
    let t = RetryTransport::new(FakeTransport::new().push_error("read timeout")).attempts(3).retry_delay(Duration::ZERO);
    let c = client(t);
    assert!(matches!(c.get_number(&req), Err(ApiError::Transport(e)) if e.0 == "read timeout"));
    let reqs = c.transport().0.inner().requests();
    assert_eq!(reqs.len(), 1);
    assert!(reqs[0].contains("action=getNumberV2&"));

    // truncated getNumberV2 body: returned as-is (surfaces as a parse error), not re-sent
    let t = RetryTransport::new(
        FakeTransport::new()
            .push(200, r#"{"activationId":"1","phoneNumber":"7"#)
            .push(200, r#"{"activationId":"2","phoneNumber":"79000000000"}"#),
    )
    .attempts(3)
    .retry_delay(Duration::ZERO);
    let c = client(t);
    assert!(matches!(c.get_number(&req), Err(ApiError::Parse(_))));
    assert_eq!(c.transport().0.inner().requests().len(), 1);

    // the same for setStatus / finishActivation / cancelActivation
    for action in ["setStatus", "finishActivation", "cancelActivation"] {
        let t = RetryTransport::new(FakeTransport::new().push_error("reset")).attempts(3).retry_delay(Duration::ZERO);
        let c = client(t);
        let r = match action {
            "setStatus" => c.cancel(&id).map(|_| ()),
            "finishActivation" => c.finish_activation(&id),
            _ => c.cancel_activation(&id),
        };
        assert!(matches!(r, Err(ApiError::Transport(_))), "{action}");
        let reqs = c.transport().0.inner().requests();
        assert_eq!(reqs.len(), 1, "{action}");
        assert!(reqs[0].contains(&format!("action={action}&")), "{action}");
    }

    // HTTP 429 was rejected before processing: retried even for a purchase
    let t = RetryTransport::new(FakeTransport::new().push(429, "Too Many Requests").push(200, "ACCESS_NUMBER:9:79000000000"))
        .attempts(3)
        .rate_limit_delay(Duration::ZERO);
    let c = client(t);
    assert_eq!(c.get_number(&req).unwrap().id.as_str(), "9");
    assert_eq!(c.transport().0.inner().requests().len(), 2);
}

#[test]
fn retry_transport_recovers_from_truncation_errors_and_429() {
    let inner = FakeTransport::new()
        .push_error("connection reset")
        .push(200, r#"{"0":{"country":73,"pr"#)
        .push(429, "Too Many Requests")
        .push(200, r#"{"0":{"country":73,"count":1081284,"price":0.4,"retail_price":0.48}}"#);
    let t = RetryTransport::new(inner).attempts(4).retry_delay(Duration::ZERO).rate_limit_delay(Duration::ZERO);
    let c = client(t);
    let rows = c.get_top_countries(&ServiceCode::from("tg")).unwrap();
    assert_eq!(rows[0].country, CountryRef::Id(73));
    assert_eq!(c.transport().0.inner().requests().len(), 4);

    // exhausted on 429: the 429 is classified, not swallowed
    let t = RetryTransport::new(FakeTransport::new().push(429, "Too Many Requests").push(429, "Too Many Requests"))
        .attempts(2)
        .rate_limit_delay(Duration::ZERO);
    let c = client(t);
    assert!(matches!(c.get_balance(), Err(ApiError::RateLimited { .. })));
    assert_eq!(c.transport().0.inner().requests().len(), 2);

    // exhausted on truncation: a transport error naming the cause
    let t = RetryTransport::new(FakeTransport::new().push(200, "{").push(200, "{")).attempts(2).retry_delay(Duration::ZERO);
    let c = client(t);
    assert!(matches!(c.get_balance(), Err(ApiError::Transport(e)) if e.0.contains("truncated")));

    // a healthy response passes through untouched
    let t = RetryTransport::new(FakeTransport::new().push(200, "ACCESS_BALANCE:2"));
    let c = client(t);
    assert_eq!(c.get_balance().unwrap().units, 2_000_000_000_000_000_000);
    assert_eq!(c.transport().0.inner().requests().len(), 1);
}

#[test]
fn retry_delays_default_and_double() {
    let t = RetryTransport::new(FakeTransport::new());
    let mut st = t.begin("https://x.test/h?api_key=K&action=getBalance");
    assert_eq!(st.retry_delay, 1_000_000_000);
    assert_eq!(st.rate_delay, 5_000_000_000);
    assert!(matches!(t.next_step(&mut st), RetryStep::Fetch));
    let a = t.after_fetch(&mut st, Ok(HttpResponse::new(429, "")));
    assert!(matches!(a, AfterFetch::Retry(Some(5_000_000_000))));
    assert_eq!(st.rate_delay, 10_000_000_000);
    assert!(matches!(t.next_step(&mut st), RetryStep::Fetch));
    let a = t.after_fetch(&mut st, Err(TransportError("reset".to_owned())));
    assert!(matches!(a, AfterFetch::Retry(Some(1_000_000_000))));
    assert_eq!(st.retry_delay, 2_000_000_000);
    assert!(matches!(t.next_step(&mut st), RetryStep::Fetch));
    // the last attempt never pauses
    let a = t.after_fetch(&mut st, Ok(HttpResponse::new(429, "")));
    assert!(matches!(a, AfterFetch::Retry(None)));
}

#[test]
fn a_delay_past_duration_max_does_not_fit() {
    let t = RetryTransport::new(FakeTransport::new()).retry_delay(Duration::MAX);
    let st = t.begin("https://x.test/h?api_key=K&action=getBalance");
    // a transport error on a read-only action would double the retry delay past Duration::MAX
    assert!(!backoff_fits_exec(&st, &Err(TransportError("reset".to_owned()))));
    // HTTP 429 doubles the rate-limit delay instead, which still fits
    assert!(backoff_fits_exec(&st, &Ok(HttpResponse::new(429, ""))));
    // a plain answer doubles nothing
    assert!(backoff_fits_exec(&st, &Ok(HttpResponse::new(200, "ACCESS_BALANCE:1"))));
    // a purchase is never retried, so nothing is doubled either
    let st = t.begin("https://x.test/h?api_key=K&action=getNumberV2");
    assert!(backoff_fits_exec(&st, &Err(TransportError("reset".to_owned()))));
}

#[test]
fn default_delays_are_one_and_five_seconds() {
    assert_eq!(RetryTransport::<FakeTransport>::default_retry_delay(), Duration::from_secs(1));
    assert_eq!(RetryTransport::<FakeTransport>::default_rate_limit_delay(), Duration::from_secs(5));
}
