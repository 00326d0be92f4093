use sms_activate::providers::tiger_sms::{parse_offers, parse_providers};
use sms_activate::providers::tiger_sms::classify as tiger_classify;
use sms_activate::transport::HttpResponse;
use sms_activate::providers::tiger_sms::offers_params;
use sms_activate::amount::Amount;
use sms_activate::api::{Client, Dialect, SmsActivateApi};
use sms_activate::error::ApiError;
use sms_activate::providers::tiger_sms::{
    ALT_ENDPOINT, ActivationType, ENDPOINT, StatusV2, TigerNumberOptions, TigerSms, TigerSmsDialect,
};
use sms_activate::transport::FakeTransport;
use sms_activate::types::{ActivationId, ActivationStatus, CountryRef, NumberRequest, ServiceCode, StatusAck, StatusAction};

fn amt(s: &str) -> Amount {
    Amount::parse(s).unwrap()
}

fn client(t: FakeTransport) -> TigerSms<FakeTransport> {
    Client::new(t, TigerSmsDialect::default(), "KEY")
}

fn only_request(c: &TigerSms<FakeTransport>) -> String {
    let reqs = c.transport().requests();
    assert_eq!(reqs.len(), 1);
    reqs[0].clone()
}

#[test]
fn tiger_sms_identity_and_capabilities() {
    let c = client(FakeTransport::new());
    assert_eq!(c.provider(), "Tiger SMS");
    assert_eq!(c.dialect().endpoint(), ENDPOINT);
    assert_eq!(TigerSmsDialect::at(ALT_ENDPOINT).endpoint(), ALT_ENDPOINT);
    let caps = c.capabilities();
    assert!(caps.get_number_v2);
    assert!(caps.active_activations);
    assert!(caps.prices_v2);
    assert!(caps.prices_v3);
    assert!(caps.price_bounds);
    assert!(caps.provider_filters);
    assert!(!caps.numbers_status);
    assert!(!caps.operators);
}

#[test]
fn tiger_sms_unsupported_actions_do_not_hit_the_network() {
    let c = client(FakeTransport::new());
    assert!(matches!(c.get_numbers_status(&CountryRef::Id(187), None), Err(ApiError::Unsupported("getNumbersStatus"))));
    assert!(matches!(c.get_operators(None), Err(ApiError::Unsupported("getOperators"))));
    assert!(c.transport().requests().is_empty());
}

#[test]
fn get_number_v2_url_encoding_with_tiger_params() {
    let req = NumberRequest::new("tg".into(), 187.into()).max_price(amt("0.25"));
    let options = TigerNumberOptions::new()
        .multiple(true)
        .provider_ids(&[14, 163])
        .except_provider_ids(&[36])
        .referral("partner-1")
        .activation_type(ActivationType::CallFlash)
        .fixed_price(true);
    let c = client(FakeTransport::new().push(
        200,
        r#"{"activationId":"557860099","phoneNumber":"18734721259","activationCost":0.05,"currency":840,"countryCode":6,"countryPhoneCode":1,"canGetAnotherSms":true,"activationTime":"2026-07-02T18:09:54+00:00","activationEndTime":"2026-07-02T18:29:54+00:00","activationOperator":"any"}"#,
    ));
    let a = c.get_number_with(&req, &options).unwrap();
    assert_eq!(a.id.as_str(), "557860099");
    assert_eq!(a.phone, "18734721259");
    assert_eq!(a.cost, Some(amt("0.05")));
    assert_eq!(a.country, Some(CountryRef::Id(6)));
    assert_eq!(a.can_get_another_sms, Some(true));
    assert_eq!(a.operator.as_deref(), Some("any"));
    assert_eq!(
        only_request(&c),
        format!(
            "{ENDPOINT}?api_key=KEY&action=getNumberV2&service=tg&country=187&maxPrice=0.25\
             &multiple=1&providerIds=14%2C163&exceptProviderIds=36&ref=partner-1\
             &activationType=CALL_FLASH&fixedPrice=true"
        )
    );
}

#[test]
fn number_options_apply_and_replace_previous_values() {
    let bare = NumberRequest::new("tg".into(), 187.into()).extra("providerIds", "1,2");
    let applied = TigerNumberOptions::new()
        .provider_ids(&[3])
        .multiple(true)
        .fixed_price(true) // dropped: no max_price
        .apply(&bare);
    // Wire order is multiple → providerIds → …; the replaced `providerIds` moves to the end.
    assert_eq!(
        applied.extra,
        vec![("multiple".to_owned(), "1".to_owned()), ("providerIds".to_owned(), "3".to_owned())]
    );
    // Defaults add nothing; empty filters are not sent.
    assert_eq!(TigerNumberOptions::default().apply(&bare), bare);
    assert_eq!(TigerNumberOptions::new().provider_ids(&[]).multiple(false).apply(&bare), bare);
    let with_max = NumberRequest::new("tg".into(), 187.into()).max_price(amt("0.3"));
    assert_eq!(
        TigerNumberOptions::new().fixed_price(true).apply(&with_max).extra,
        vec![("fixedPrice".to_owned(), "true".to_owned())]
    );
    assert_eq!(ActivationType::default().as_str(), "SMS");
    assert_eq!(ActivationType::RentSms.as_str(), "RENT_SMS");
}

#[test]
fn ignored_number_params_are_never_sent_and_rejected_by_get_number_with() {
    // Trait path: minPrice / operator are stripped by adjust_params (provider ignores them).
    let c = client(FakeTransport::new().push(200, "ACCESS_NUMBER:1:2"));
    let req = NumberRequest::new("tg".into(), 187.into()).operator("any").max_price(amt("0.5")).min_price(amt("0.1"));
    assert_eq!(c.get_number(&req).unwrap().phone, "2");
    assert!(only_request(&c).ends_with("action=getNumberV2&service=tg&country=187&maxPrice=0.5"));
    // Other actions are untouched.
    let mut params = vec![("operator".to_owned(), "any".to_owned())];
    TigerSmsDialect::default().adjust_params("getNumbersStatus", &mut params);
    assert_eq!(params.len(), 1);

    // Typed path: refuse before any request.
    let c = client(FakeTransport::new());
    let options = TigerNumberOptions::new();
    assert!(matches!(
        c.get_number_with(&NumberRequest::new("tg".into(), 187.into()).min_price(amt("0.1")), &options),
        Err(ApiError::Unsupported("minPrice"))
    ));
    assert!(matches!(
        c.get_number_with(&NumberRequest::new("tg".into(), 187.into()).operator("mts"), &options),
        Err(ApiError::Unsupported("operator"))
    ));
    assert!(matches!(
        c.get_number_with(&NumberRequest::new("tg".into(), 187.into()), &TigerNumberOptions::new().fixed_price(true)),
        Err(ApiError::Validation { field, .. }) if field == "maxPrice"
    ));
    assert!(c.transport().requests().is_empty());
}

#[test]
fn status_tokens_including_access_cancel() {
    let c = client(
        FakeTransport::new()
            .push(200, "STATUS_WAIT_CODE")
            .push(200, "STATUS_WAIT_RETRY:8522")
            .push(200, "STATUS_OK:852508")
            .push(200, "ACCESS_CANCEL")
            .push(200, "STATUS_OK:Your Telegram code is 852508")
            .push(200, "ACCESS_READY")
            .push(200, "ACCESS_ACTIVATION")
            .push(200, "BAD_STATUS")
            .push(200, "EARLY_CANCEL_DENIED"),
    );
    let id = ActivationId::from("42");
    assert_eq!(c.get_status(&id).unwrap(), ActivationStatus::WaitCode);
    assert_eq!(c.get_status(&id).unwrap(), ActivationStatus::WaitRetry { last_code: "8522".into() });
    assert_eq!(c.get_status(&id).unwrap().code(), Some("852508"));
    assert_eq!(c.get_status(&id).unwrap(), ActivationStatus::Cancelled);
    assert_eq!(c.get_status_full_text(&id).unwrap().code(), Some("Your Telegram code is 852508"));
    assert_eq!(c.set_status(&id, StatusAction::Ready).unwrap(), StatusAck::Ready);
    assert_eq!(c.complete(&id).unwrap(), StatusAck::Activation);
    assert!(matches!(c.complete(&id), Err(ApiError::BadStatus)));
    assert!(matches!(c.cancel(&id), Err(ApiError::EarlyCancelDenied)));
    let reqs = c.transport().requests();
    assert!(reqs[4].ends_with("action=getStatus&id=42&full_text=true"));
    assert!(reqs[5].ends_with("action=setStatus&id=42&status=1"));
}

#[test]
fn status_v2_documented_shapes() {
    let c = client(
        FakeTransport::new()
            .push(200, r#"{"verificationType":0,"sms":null}"#)
            .push(
                200,
                r#"{"verificationType":1,"sms":{"dateTime":"2026-07-02T18:12:31+00:00","code":"852508","text":"Your Telegram code is 852508"}}"#,
            )
            .push(200, "STATUS_CANCEL"),
    );
    let id = ActivationId::from("7");
    let waiting = c.get_status_v2(&id).unwrap();
    assert_eq!(waiting, StatusV2::Json { verification_type: Some(0), sms: None });
    assert_eq!(waiting.code(), None);
    let done = c.get_status_v2(&id).unwrap();
    assert_eq!(done.code(), Some("852508"));
    match &done {
        StatusV2::Json { verification_type: Some(1), sms: Some(sms) } => {
            assert_eq!(sms.date_time.as_deref(), Some("2026-07-02T18:12:31+00:00"));
            assert_eq!(sms.text.as_deref(), Some("Your Telegram code is 852508"));
        },
        other => panic!("unexpected: {other:?}"),
    }
    assert_eq!(c.get_status_v2(&id).unwrap(), StatusV2::Plain(ActivationStatus::Cancelled));
    assert!(c.transport().requests()[0].ends_with("action=getStatusV2&id=7"));
}

#[test]
fn set_status_v2_success_and_errors() {
    let c = client(
        FakeTransport::new()
            .push(200, r#"{"status":"success"}"#)
            .push(200, r#"{"title":"BAD_STATUS","details":"Wrong status value"}"#)
            .push(409, r#"{"title":"EARLY_CANCEL_DENIED","details":"Early cancel denied","info":{"minActivationTime":120}}"#)
            .push(200, r#"{"status":"nope"}"#),
    );
    let id = ActivationId::from("7");
    c.set_status_v2(&id, StatusAction::Complete).unwrap();
    assert!(matches!(c.set_status_v2(&id, StatusAction::Complete), Err(ApiError::BadStatus)));
    assert!(matches!(c.set_status_v2(&id, StatusAction::Cancel), Err(ApiError::EarlyCancelDenied)));
    assert!(matches!(c.set_status_v2(&id, StatusAction::Cancel), Err(ApiError::Unexpected(_))));
    assert!(c.transport().requests()[0].ends_with("action=setStatusV2&id=7&status=6"));
}

#[test]
fn tiger_sms_dialect_errors_short_circuit_extra_actions() {
    let c = client(
        FakeTransport::new()
            .push(401, "BAD_KEY")
            .push(200, "BAD_ACTION")
            .push(200, "BAD_SERVICE")
            .push(200, r#"{"title":"BAD_SERVICE","details":"Unknown or missing service code."}"#),
    );
    assert!(matches!(c.get_free_prices(None, None), Err(ApiError::BadKey)));
    assert!(matches!(c.get_offers(&[], &[]), Err(ApiError::BadAction(_))));
    assert!(matches!(c.get_free_prices(Some(&ServiceCode::from("__probe__")), None), Err(ApiError::BadService)));
    assert!(matches!(c.get_prices_v3(&ServiceCode::from("__probe__"), 187), Err(ApiError::BadService)));
}

#[test]
fn offers_filters_are_comma_separated_and_optional() {
    let p = offers_params(&[ServiceCode("tg".to_owned()), ServiceCode("wa".to_owned())], &[0, 187]);
    assert_eq!(
        p,
        vec![("services".to_owned(), "tg,wa".to_owned()), ("countries".to_owned(), "0,187".to_owned())]
    );
    assert!(offers_params(&[], &[]).is_empty());
    assert_eq!(offers_params(&[], &[12]), vec![("countries".to_owned(), "12".to_owned())]);
}

#[test]
fn documented_envelopes_and_tokens() {
    let env = |status: u16, body: &str| tiger_classify(&HttpResponse::new(status, body));
    assert!(matches!(
        env(400, r#"{"title":"WRONG_MAX_PRICE","details":"The maximum price is less than the permitted price","info":{"min":0.1453}}"#),
        Err(ApiError::WrongMaxPrice { min: Some(m) }) if m == amt("0.1453")
    ));
    assert!(
        matches!(env(400, "WRONG_MAX_PRICE:0.1453"), Err(ApiError::WrongMaxPrice { min: Some(m) }) if m == amt("0.1453"))
    );
    assert!(matches!(
        env(
            402,
            r#"{"title":"NO_BALANCE","details":"Insufficient balance"}"#
        ),
        Err(ApiError::NoBalance)
    ));
    assert!(matches!(
        env(
            200,
            r#"{"title":"NO_NUMBERS","details":"No numbers available for the requested service and country"}"#
        ),
        Err(ApiError::NoNumbers)
    ));
    assert!(matches!(
        env(
            200,
            r#"{"title":"BAD_COUNTRY","details":"Unknown country code."}"#
        ),
        Err(ApiError::BadCountry)
    ));
    assert!(matches!(
        env(200, r#"{"title":"NO_PROVIDERS","details":"None of the selected providers currently offer this service/country"}"#),
        Err(ApiError::Other(t)) if t == "NO_PROVIDERS: None of the selected providers currently offer this service/country"
    ));
    match env(
        422,
        r#"{"title":"UNPROCESSABLE_ENTITY","details":"The service field is required."}"#,
    ) {
        Err(ApiError::Validation { field, message }) => {
            assert_eq!(field, "");
            assert_eq!(message, "The service field is required.");
        }
        other => panic!("unexpected: {other:?}"),
    }
    match env(
        422,
        r#"{"title":"UNPROCESSABLE_ENTITY","details":"Validation failed","info":{"field":"country","code":"INVALID","message":"Param 'country' must be a number"}}"#,
    ) {
        Err(ApiError::Validation { field, message }) => {
            assert_eq!(field, "country");
            assert_eq!(message, "Param 'country' must be a number");
        }
        other => panic!("unexpected: {other:?}"),
    }
    assert!(matches!(
        env(
            200,
            r#"{"title":"BAD_STATUS","details":"Wrong status value"}"#
        ),
        Err(ApiError::BadStatus)
    ));
    assert!(matches!(
        env(
            409,
            r#"{"title":"EARLY_CANCEL_DENIED","details":"Early cancel denied","info":{"minActivationTime":120}}"#
        ),
        Err(ApiError::EarlyCancelDenied)
    ));
    assert!(matches!(
        env(429, r#"{"title":"RATE_LIMIT","details":""}"#),
        Err(ApiError::RateLimited { retry_after: None })
    ));
    assert!(matches!(
        env(429, "Too Many Requests"),
        Err(ApiError::RateLimited { retry_after: None })
    ));
    assert!(matches!(
        env(404, r#"{"title":"BAD_ACTION","details":"Method Not Found"}"#),
        Err(ApiError::BadAction(d)) if d.is_empty()
    ));
    // 422 whose `details` is the first validation token (documented for getNumberV2).
    match env(
        422,
        r#"{"title":"UNPROCESSABLE_ENTITY","details":"BAD_MAX_PRICE"}"#,
    ) {
        Err(ApiError::Validation { field, message }) => {
            assert_eq!(field, "maxPrice");
            assert_eq!(message, "BAD_MAX_PRICE");
        }
        other => panic!("unexpected: {other:?}"),
    }
    match env(
        422,
        r#"{"title":"UNPROCESSABLE_ENTITY","details":"BAD_FIXED_PRICE"}"#,
    ) {
        Err(ApiError::Validation { field, .. }) => assert_eq!(field, "fixedPrice"),
        other => panic!("unexpected: {other:?}"),
    }
    assert!(matches!(
        env(
            422,
            r#"{"title":"UNPROCESSABLE_ENTITY","details":"BAD_SERVICE"}"#
        ),
        Err(ApiError::BadService)
    ));
    assert!(matches!(
        env(
            422,
            r#"{"title":"UNPROCESSABLE_ENTITY","details":"BAD_COUNTRY"}"#
        ),
        Err(ApiError::BadCountry)
    ));
    // `info.field` wins over a token in `details`; an `Other`-class token stays a Validation.
    match env(
        422,
        r#"{"title":"UNPROCESSABLE_ENTITY","details":"BAD_SERVICE","info":{"field":"service","message":"Unknown service"}}"#,
    ) {
        Err(ApiError::Validation { field, message }) => {
            assert_eq!(field, "service");
            assert_eq!(message, "Unknown service");
        }
        other => panic!("unexpected: {other:?}"),
    }
    match env(422, r#"{"title":"UNPROCESSABLE_ENTITY","details":"ERROR"}"#) {
        Err(ApiError::Validation { field, message }) => {
            assert_eq!(field, "");
            assert_eq!(message, "ERROR");
        }
        other => panic!("unexpected: {other:?}"),
    }
    // HTTP 429 wins over any token body; 5xx and unmapped 4xx keep their status.
    assert!(matches!(
        env(429, "RATE_LIMIT"),
        Err(ApiError::RateLimited { retry_after: None })
    ));
    assert!(matches!(
        env(429, "TOO_MANY_REQUESTS"),
        Err(ApiError::RateLimited { retry_after: None })
    ));
    assert!(matches!(
        env(
            429,
            r#"{"title":"RATE_LIMIT","details":"","info":{"retry_after_seconds":5}}"#
        ),
        Err(ApiError::RateLimited {
            retry_after: Some(5)
        })
    ));
    assert!(matches!(
        env(502, "BAD_GATEWAY"),
        Err(ApiError::Http { status: 502, body }) if body == "BAD_GATEWAY"
    ));
    assert!(matches!(
        env(500, "BAD_ACTION"),
        Err(ApiError::Http { status: 500, .. })
    ));
    assert!(matches!(
        env(403, "FORBIDDEN"),
        Err(ApiError::Http { status: 403, .. })
    ));
    assert!(matches!(env(402, "NO_BALANCE"), Err(ApiError::NoBalance)));
    // Tiger-only validation tokens on HTTP 200.
    match env(200, "BAD_MAX_PRICE") {
        Err(ApiError::Validation { field, message }) => {
            assert_eq!(field, "maxPrice");
            assert_eq!(message, "BAD_MAX_PRICE");
        }
        other => panic!("unexpected: {other:?}"),
    }
    for (token, field) in [
        ("BAD_VALUES", ""),
        ("BAD_MULTIPLE", "multiple"),
        ("BAD_PROVIDER_IDS", "providerIds"),
        ("BAD_EXCEPT_PROVIDER_IDS", "exceptProviderIds"),
        ("BAD_ACTIVATION_TYPE", "activationType"),
        ("BAD_FIXED_PRICE", "fixedPrice"),
    ] {
        assert!(
            matches!(env(200, token), Err(ApiError::Validation { field: f, .. }) if f == field)
        );
    }
    assert!(matches!(env(200, "NO_PROVIDERS"), Err(ApiError::Other(t)) if t == "NO_PROVIDERS"));
    assert!(matches!(env(200, "ERROR"), Err(ApiError::Other(t)) if t == "ERROR"));
    assert!(matches!(
        env(200, "EARLY_CANCEL_DENIED"),
        Err(ApiError::EarlyCancelDenied)
    ));
    assert!(matches!(
        env(503, "Service Unavailable"),
        Err(ApiError::Http { status: 503, .. })
    ));
    // Data passes through, whatever its shape.
    assert!(env(200, "ACCESS_BALANCE:1").is_ok());
    assert!(env(200, r#"{"status":"success"}"#).is_ok());
    assert!(env(200, "[]").is_ok());
}

#[test]
fn offers_service_first() {
    let tg = || ServiceCode::from("tg");
    let c = client(FakeTransport::new().push(200, r#"{"data":{}}"#));
    assert!(c.get_offers(&[], &[]).unwrap().is_empty());
    let reqs = c.transport().requests();
    assert!(reqs[0].ends_with("action=getOffers"));

    let doc = parse_offers(
        r#"{"data":{"tg":{"6":{"prices":{"default":0.16,"avg":0.16,"retail":0.165,"min":0.15},"counts":{"total":22598,"defaultPrice":4787},"map":{"0.1500":4787,"0.1765":12043,"1.7648":5814}}}}}"#,
    )
    .unwrap();
    let cell = doc.get(&tg()).unwrap().get(&6).unwrap();
    assert_eq!(cell.prices.min, Some(amt("0.15")));
    assert_eq!(cell.map[2].price, amt("1.7648"));
    let multi = c.get_offers(&[tg(), ServiceCode::from("go")], &[6, 33]);
    assert!(multi.is_err()); // no response queued — only the URL matters here
    assert!(c.transport().requests()[1].ends_with("action=getOffers&services=tg%2Cgo&countries=6%2C33"));
}

#[test]
fn providers_html_wrapper() {
    let c = client(
        FakeTransport::new()
            .push(
                200,
                r#"<html><head><meta charset="utf-8"></head><body>[{"id":235,"name":"Provider235","numbers_count":5603,"delivery_percent":97.5,"number_lifetime":1200}]</body></html>"#,
            )
            .push(200, "BAD_VALUES")
            .push(200, "ERROR"),
    );
    let doc = c.get_providers(None, None).unwrap();
    assert_eq!(doc[0].id, 235);
    assert_eq!(doc[0].delivery_percent, Some(amt("97.5")));
    assert!(matches!(c.get_providers(None, None), Err(ApiError::Validation { .. })));
    assert!(matches!(c.get_providers(None, None), Err(ApiError::Other(t)) if t == "ERROR"));
    let reqs = c.transport().requests();
    assert!(reqs[0].ends_with("action=getProviders"));
    assert!(parse_providers("[]").unwrap().is_empty());
    assert!(parse_providers("<html></html>").is_err());
}

#[test]
fn service_numbers_count_numeric_and_string_codes() {
    let c = client(
        FakeTransport::new().push(200, r#"[{"countryCode":"6","numbersCount":25370}]"#).push(200, "BAD_SERVICE"),
    );
    assert_eq!(c.get_service_numbers_count(&ServiceCode::from("tg")).unwrap().get(&6), Some(&25370));
    assert!(matches!(c.get_service_numbers_count(&ServiceCode::from("__probe__")), Err(ApiError::BadService)));
    let reqs = c.transport().requests();
    assert!(reqs[0].ends_with("action=getServiceNumbersCount&service=tg"));
}

#[test]
fn prices_v3_providers_without_a_price_come_after_the_dearest() {
    let body = r#"{"187":{"tg":{"price":"1","count":5,"providers":{"7":{"count":1},"3":{"count":2,"price":["170141183460469231731.687303715884105727"]},"5":{"count":1,"price":["0.5"]}}}}}"#;
    let c = client(FakeTransport::new().push(200, body));
    let table = c.get_prices_v3(&ServiceCode("tg".to_string()), 187).unwrap();
    let cell = table.get(&187).unwrap().get(&ServiceCode("tg".to_string())).unwrap();
    let ids: Vec<u64> = cell.providers.iter().map(|p| p.provider_id).collect();
    assert_eq!(ids, vec![5, 3, 7]);
    assert!(only_request(&c).contains("action=getPricesV3&service=tg&country=187"));
}
