use sms_activate::providers::smsbower::envelope_error;
use sms_activate::types::ActivationId;
use sms_activate::amount::Amount;
use sms_activate::api::{Client, Dialect, SmsActivateApi};
use sms_activate::error::ApiError;
use sms_activate::providers::smsbower::{
    CANCEL_GRACE_SECS, ENDPOINT, SmsBower, SmsBowerDialect, SmsBowerRequestExt, cancel_grace_period, classify,
    error_from_message, parse_operators, parse_prices_v2, parse_prices_v3, parse_top_countries_by_slug,
};
use sms_activate::transport::{FakeTransport, HttpResponse};
use sms_activate::types::{CountryRef, NumberRequest, ServiceCode};
use std::time::Duration;

fn amt(s: &str) -> Amount {
    Amount::parse(s).unwrap()
}

fn client(t: FakeTransport) -> SmsBower<FakeTransport> {
    Client::new(t, SmsBowerDialect, "KEY")
}

fn resp(status: u16, body: &str) -> HttpResponse {
    HttpResponse::new(status, body)
}

#[test]
fn smsbower_identity_and_capabilities() {
    let c = client(FakeTransport::new());
    assert_eq!(c.provider(), "SMSBower");
    assert_eq!(c.dialect().endpoint(), ENDPOINT);
    assert!(ENDPOINT.starts_with("https://smsbower.page/"));
    let caps = c.capabilities();
    assert!(caps.get_number_v2);
    assert!(caps.operators);
    assert!(caps.prices_v2 && caps.prices_v3);
    assert!(caps.price_bounds && caps.provider_filters);
    assert!(!caps.numbers_status);
    assert!(!caps.active_activations);
    assert_eq!(cancel_grace_period(), Duration::from_secs(120));
    assert_eq!(CANCEL_GRACE_SECS, 120);
}

#[test]
fn smsbower_unsupported_actions_do_not_hit_the_network() {
    let c = client(FakeTransport::new());
    assert!(matches!(c.get_numbers_status(&CountryRef::Id(187), None), Err(ApiError::Unsupported("getNumbersStatus"))));
    assert!(matches!(c.get_active_activations(), Err(ApiError::Unsupported("getActiveActivations"))));
    assert!(c.transport().requests().is_empty());
}

#[test]
fn request_helpers_replace_previous_values() {
    let req = NumberRequest::new("tg".into(), 187.into())
        .provider_ids(&["1", "2"])
        .provider_ids(&["3"])
        .referral("a")
        .referral("b");
    assert_eq!(req.extra, vec![("providerIds".to_owned(), "3".to_owned()), ("ref".to_owned(), "b".to_owned())]);
    // An empty list means "no filter": the parameter is removed, never sent as `providerIds=`.
    let req = NumberRequest::new("tg".into(), 187.into()).provider_ids(&[]);
    assert!(req.extra.is_empty());
    let req = NumberRequest::new("tg".into(), 187.into())
        .provider_ids(&["1"])
        .except_provider_ids(&["2"])
        .phone_exception(&["7918"])
        .provider_ids(&[])
        .phone_exception(&[]);
    assert_eq!(req.extra, vec![("exceptProviderIds".to_owned(), "2".to_owned())]);
    let c = client(FakeTransport::new().push(200, "NO_NUMBERS"));
    let _ = c.get_number(&req);
    assert!(c.transport().requests()[0].ends_with("action=getNumberV2&service=tg&country=187&exceptProviderIds=2"));
}

#[test]
fn bower_request_helpers_join_lists_with_commas() {
    let req = NumberRequest::new("tg".into(), 187.into())
        .provider_ids(&["2263", "3170"])
        .phone_exception(&["1212", "1917"])
        .user_id("42");
    assert_eq!(
        req.extra,
        vec![
            ("providerIds".to_owned(), "2263,3170".to_owned()),
            ("phoneException".to_owned(), "1212,1917".to_owned()),
            ("userID".to_owned(), "42".to_owned()),
        ]
    );
}

#[test]
fn bower_json_envelopes_map_to_errors() {
    assert!(matches!(classify(&resp(401, r#"{"status":0,"message":"No access","data":[]}"#)), Err(ApiError::BadKey)));
    assert!(matches!(
        classify(&resp(405, r#"{"status":0,"message":"The POST method is not supported","data":[]}"#)),
        Err(ApiError::Http { status: 405, body }) if body == "The POST method is not supported"
    ));
    assert!(matches!(classify(&resp(200, r#"{"error":"Bad service"}"#)), Err(ApiError::BadService)));
    assert!(matches!(classify(&resp(200, r#"{"error":"Bad country"}"#)), Err(ApiError::BadCountry)));
    assert!(matches!(classify(&resp(200, r#"{"error":"BAD_SERVICE"}"#)), Err(ApiError::BadService)));
    assert!(matches!(classify(&resp(200, r#"{"error":"something odd"}"#)), Err(ApiError::Other(t)) if t == "something odd"));
    assert!(matches!(classify(&resp(200, r#"{"status":"0","message":"NO_BALANCE"}"#)), Err(ApiError::NoBalance)));
    assert!(matches!(classify(&resp(429, r#"{"error":"x"}"#)), Err(ApiError::RateLimited { retry_after: None })));
    assert!(matches!(classify(&resp(200, r#"{"status":0,"message":"no access"}"#)), Err(ApiError::BadKey)));
}

#[test]
fn bower_envelope_detection_uses_the_first_key() {
    // data bodies are not envelopes
    assert!(classify(&resp(200, r#"{"status":"success","services":[]}"#)).is_ok());
    assert!(classify(&resp(200, r#"{"187":{"tg":{"cost":1,"count":2}},"error":"x"}"#)).is_ok());
    assert!(classify(&resp(200, r#"{"status":1,"message":"fine"}"#)).is_ok());
    // plain tokens still go through the standard rules
    assert!(matches!(classify(&resp(200, "NO_ACTIVATION")), Err(ApiError::NoActivation)));
    assert!(matches!(classify(&resp(200, "WRONG_SERVICE")), Err(ApiError::BadService)));
    assert!(matches!(classify(&resp(500, "boom")), Err(ApiError::Http { status: 500, .. })));
}

#[test]
fn bower_messages_normalise_to_tokens() {
    assert!(matches!(error_from_message("Bad country"), ApiError::BadCountry));
    assert!(matches!(error_from_message(" bad service "), ApiError::BadService));
    assert!(matches!(error_from_message("EARLY_CANCEL_DENIED"), ApiError::EarlyCancelDenied));
    assert!(matches!(error_from_message("Some other thing"), ApiError::Other(t) if t == "Some other thing"));
    // a normalised form that is only an unmapped token keeps the message as it was
    assert!(matches!(error_from_message("Server busy"), ApiError::Other(t) if t == "Server busy"));
}

#[test]
fn prices_v2_histogram() {
    let t = parse_prices_v2(r#"{"187":{"tg":{"0.697":157,"0.683":22,"1.2":"3"}},"":{"tg":{"0.306":1052}}}"#).unwrap();
    assert_eq!(t.len(), 1);
    let b = t.get(&187).unwrap().get(&ServiceCode::from("tg")).unwrap();
    assert_eq!(b.len(), 3);
    assert_eq!((b[0].price, b[0].count), (amt("0.683"), 22));
    assert_eq!((b[1].price, b[1].count), (amt("0.697"), 157));
    assert_eq!((b[2].price, b[2].count), (amt("1.2"), 3));
    assert!(parse_prices_v2("[]").unwrap().is_empty());
    assert!(matches!(parse_prices_v2(r#"{"error":"Bad service"}"#), Err(ApiError::Parse(_))));
    assert!(matches!(parse_prices_v2(r#"{"187":{"tg":{"cheap":1}}}"#), Err(ApiError::Parse(m)) if m == "bad price key `cheap`"));
}

#[test]
fn smsbower_prices_v3_provider_offers() {
    let t = parse_prices_v3(
        r#"{"187":{"tg":{"2263":{"count":98,"price":2.592,"provider_id":2263},"3170":{"count":5,"price":0.765,"provider_id":3170},"10":{"count":1,"price":2.592}}}}"#,
    )
    .unwrap();
    let o = t.get(&187).unwrap().get(&ServiceCode::from("tg")).unwrap();
    assert_eq!(o.len(), 3);
    assert_eq!(o[0].provider_id, "3170");
    assert_eq!(o[0].price, amt("0.765"));
    assert_eq!(o[0].count, 5);
    // equal prices: numeric provider ids in numeric order ("10" before "2263")
    assert_eq!(o[1].provider_id, "10");
    assert_eq!(o[2].provider_id, "2263");
    assert!(matches!(parse_prices_v3(r#"{"187":{"tg":{"1":{"count":1}}}}"#), Err(ApiError::Parse(m)) if m == "missing price for provider 1"));
    assert!(matches!(parse_prices_v3(r#"{"usa":{}}"#), Err(ApiError::Parse(m)) if m == "bad country key `usa` in getPricesV3"));
}

#[test]
fn top_countries_keep_provider_ranking() {
    let rows = parse_top_countries_by_slug(
        r#"{"united-states":{"3170":{"price":0.765,"count":1000},"2263":{"price":"0.8","count":"5"}},"canada":{"9":{"price":1.5,"count":2}},"empty":[]}"#,
    )
    .unwrap();
    assert_eq!(rows.len(), 3);
    assert_eq!(rows[0].country, CountryRef::Slug("united-states".into()));
    assert_eq!(rows[0].provider_id.as_deref(), Some("3170"));
    assert_eq!(rows[0].price, amt("0.765"));
    assert_eq!(rows[0].count, 1000);
    assert_eq!(rows[1].provider_id.as_deref(), Some("2263"));
    assert_eq!(rows[1].price, amt("0.8"));
    assert_eq!(rows[1].count, 5);
    assert_eq!(rows[2].country, CountryRef::Slug("canada".into()));
    assert_eq!(rows[2].retail_price, None);
    assert!(parse_top_countries_by_slug("[]").unwrap().is_empty());
    assert!(matches!(parse_top_countries_by_slug("BAD_SERVICE"), Err(ApiError::Unexpected(t)) if t == "BAD_SERVICE"));
    assert!(matches!(parse_top_countries_by_slug(r#"{"a":1}"#), Err(ApiError::Parse(_))));
    assert!(matches!(parse_top_countries_by_slug("[1]"), Err(ApiError::Parse(_))));
}

#[test]
fn operators_standard_shape_and_unknown_country() {
    let ops = parse_operators(r#"{"status":"success","countryOperators":{"187":["any","verizon"]}}"#).unwrap();
    assert_eq!(ops.get(&CountryRef::Id(187)), Some(&vec!["any".to_owned(), "verizon".to_owned()]));
    assert!(parse_operators(r#"{"status":"success","countryOperators":[]}"#).unwrap().is_empty());
    assert!(matches!(parse_operators("not json"), Err(ApiError::Parse(_))));
}

#[test]
fn get_number_v2_url_encoding_with_provider_params() {
    let c = client(FakeTransport::new().push(200, r#"{"activationId":"1","phoneNumber":"12025550123","activationCost":"0.7"}"#));
    let req = NumberRequest::new("tg".into(), 187.into())
        .max_price(amt("0.77"))
        .provider_ids(&["2263", "3170"])
        .referral("x y");
    let a = c.get_number(&req).unwrap();
    assert_eq!(a.phone, "12025550123");
    assert_eq!(a.cost, Some(amt("0.7")));
    assert!(c.transport().requests()[0]
        .ends_with("action=getNumberV2&service=tg&country=187&maxPrice=0.77&providerIds=2263%2C3170&ref=x%20y"));
}

#[test]
fn smsbower_dialect_errors_short_circuit_extra_actions() {
    let c = client(
        FakeTransport::new()
            .push(401, r#"{"status":0,"message":"No access","data":[]}"#)
            .push(200, "BAD_SERVICE")
            .push(200, r#"{"error":"Bad country"}"#),
    );
    assert!(matches!(c.get_prices_v2(None, None), Err(ApiError::BadKey)));
    assert!(matches!(c.get_prices_v3(Some(&ServiceCode::from("__probe__")), Some(187)), Err(ApiError::BadService)));
    assert!(matches!(c.get_prices_v2(None, Some(9999)), Err(ApiError::BadCountry)));
    assert!(c.transport().requests()[2].ends_with("action=getPricesV2&country=9999"));
}

#[test]
fn other_envelopes_and_tokens() {
    // A 200 envelope with a non-token message.
    let c =
        client(FakeTransport::new().push(200, r#"{"status":0,"message":"Oops","data":[]}"#));
    assert!(matches!(c.get_balance(), Err(ApiError::Other(m)) if m == "Oops"));
    // A 200 envelope whose message is a known token.
    let c = client(FakeTransport::new().push(200, r#"{"status":"0","message":"NO_BALANCE"}"#));
    assert!(matches!(c.get_balance(), Err(ApiError::NoBalance)));
    // A 500 envelope.
    let c = client(
        FakeTransport::new().push(500, r#"{"status":0,"message":"Server Error","data":[]}"#),
    );
    assert!(matches!(
        c.get_balance(),
        Err(ApiError::Http { status: 500, body }) if body == "Server Error"
    ));
    // Plain-text tokens still go through the standard mapping.
    let c = client(
        FakeTransport::new()
            .push(200, "EARLY_CANCEL_DENIED")
            .push(200, "BAD_STATUS")
            .push(200, "NO_NUMBERS")
            .push(429, "")
            .push(503, "<html>maintenance</html>"),
    );
    let id = ActivationId::from("1");
    assert!(matches!(c.cancel(&id), Err(ApiError::EarlyCancelDenied)));
    assert!(matches!(c.complete(&id), Err(ApiError::BadStatus)));
    assert!(matches!(
        c.get_number(&NumberRequest::new("tg".into(), 187.into())),
        Err(ApiError::NoNumbers)
    ));
    assert!(matches!(c.get_balance(), Err(ApiError::RateLimited { .. })));
    assert!(matches!(
        c.get_balance(),
        Err(ApiError::Http { status: 503, .. })
    ));
}

#[test]
fn envelope_detection_uses_the_first_key() {
    // Data bodies whose first key is neither `status` nor `error` are never inspected.
    let ok = |body: &str| envelope_error(&HttpResponse::new(200, body)).is_none();
    assert!(ok(r#"{"error":{"field":"x"}}"#));
    assert!(ok(r#"{"status":1,"message":"fine"}"#));

    assert!(matches!(error_from_message("BAD_SERVICE"), ApiError::BadService));
    assert!(matches!(error_from_message("Bad service"), ApiError::BadService));
    assert!(matches!(error_from_message("bad country"), ApiError::BadCountry));
    assert!(matches!(error_from_message("No numbers"), ApiError::NoNumbers));
    assert!(matches!(error_from_message("Oops"), ApiError::Other(m) if m == "Oops"));
    assert!(matches!(error_from_message("Something odd"), ApiError::Other(m) if m == "Something odd"));
}
