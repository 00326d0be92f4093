use sms_activate::protocol::{ERROR_SHAPE_SCAN_LIMIT, may_contain_top_level_key};
use sms_activate::providers::hero_sms::{classify as hero_classify, error_from_envelope};
use sms_activate::transport::HttpResponse;
use sms_activate::keymap::KeyMap;
use sms_activate::providers::hero_sms::{operators_by_id, operators_in};
use sms_activate::amount::Amount;
use sms_activate::api::{Client, Dialect, SmsActivateApi};
use sms_activate::error::ApiError;
use sms_activate::providers::hero_sms::{
    ENDPOINT, HeroNumberOptions, HeroSms, HeroSmsDialect, HistoryQuery, RetryTransport, action_of, looks_truncated,
    parse_top_countries_free_price,
};
use sms_activate::transport::FakeTransport;
use sms_activate::types::{ActivationId, ActivationStatus, CountryRef, NumberRequest, StatusAck};

fn amt(s: &str) -> Amount {
    Amount::parse(s).unwrap()
}

fn client(t: FakeTransport) -> HeroSms<FakeTransport> {
    Client::new(t, HeroSmsDialect, "KEY")
}

fn only_request(c: &HeroSms<FakeTransport>) -> String {
    let reqs = c.transport().requests();
    assert_eq!(reqs.len(), 1);
    reqs[0].clone()
}

#[test]
fn hero_sms_identity_and_capabilities() {
    let c = client(FakeTransport::new());
    assert_eq!(c.provider(), "Hero SMS");
    assert_eq!(c.dialect().endpoint(), ENDPOINT);
    let caps = c.capabilities();
    assert!(caps.get_number_v2);
    assert!(caps.numbers_status);
    assert!(caps.active_activations);
    assert!(caps.operators);
    assert!(caps.price_bounds);
    assert!(!caps.prices_v2);
    assert!(!caps.prices_v3);
    assert!(!caps.provider_filters);
}

#[test]
fn truncation_detection_balances_brackets_outside_strings() {
    assert!(looks_truncated(r#"{"a":{"b":1"#));
    assert!(looks_truncated("[1,2"));
    assert!(!looks_truncated(r#"{"a":1}"#));
    assert!(!looks_truncated("ACCESS_BALANCE:1"));
    assert!(!looks_truncated(""));
    // cut right after an inner `}`: the last byte looks fine, the depth does not
    assert!(looks_truncated(r#"{"a":{"b":1}"#));
    assert!(looks_truncated(r#"{"170":{"tg":{"cost":0.45,"count":2369,"physicalCount":0}}"#));
    // cut inside a string literal
    assert!(looks_truncated(r#"{"a":"abc"#));
    // brackets inside strings (and escaped quotes) do not count
    assert!(!looks_truncated(r#"{"a":"}","b":"[","c":"\"{"}"#));
    assert!(!looks_truncated(r#"["{", "\\"]"#));
}

#[test]
fn retry_transport_action_allow_list() {
    assert_eq!(action_of(&format!("{ENDPOINT}?api_key=K&action=getBalance")).as_deref(), Some("getBalance"));
    assert_eq!(
        action_of(&format!("{ENDPOINT}?api_key=K&action=getNumberV2&service=tg")).as_deref(),
        Some("getNumberV2")
    );
    assert_eq!(action_of(ENDPOINT), None);
    assert_eq!(action_of(&format!("{ENDPOINT}?api_key=K")), None);
    for a in RetryTransport::<FakeTransport>::RETRYABLE_ACTIONS {
        assert!(RetryTransport::<FakeTransport>::is_retryable_url(&format!("{ENDPOINT}?api_key=K&action={a}&x=1")));
    }
    for a in [
        "getNumber",
        "getNumberV2",
        "getRentNumber",
        "setStatus",
        "finishActivation",
        "cancelActivation",
        "reactivate",
        "prolong",
        "somethingNew",
    ] {
        assert!(
            !RetryTransport::<FakeTransport>::is_retryable_url(&format!("{ENDPOINT}?api_key=K&action={a}&id=1")),
            "{a}"
        );
    }
    assert!(!RetryTransport::<FakeTransport>::is_retryable_url(ENDPOINT));
}

#[test]
fn prices_bad_filter_json_is_an_error() {
    let c = client(
        FakeTransport::new()
            .push(200, r#"{"status":"false","msg":"service is incorrect"}"#)
            .push(200, r#"{"status":"false","msg":"country is incorrect"}"#),
    );
    assert!(matches!(c.get_prices(None, None), Err(ApiError::BadService)));
    assert!(matches!(c.get_prices(None, None), Err(ApiError::BadCountry)));
}

#[test]
fn top_countries_free_price_documented_physical_fields() {
    let rows = parse_top_countries_free_price(
        r#"[{"physicalTotalCount":7933,"physicalCountForDefaultPrice":5198,"physicalPriceMap":{"0.04":24,"0.0415":439,"0.0419":3229},"retail_price":0.2,"country":6,"price":0.045,"count":5477}]"#,
    )
    .unwrap();
    assert_eq!(rows.len(), 1);
    assert_eq!(rows[0].physical_total_count, Some(7933));
    assert_eq!(rows[0].physical_count_for_default_price, Some(5198));
    assert_eq!(rows[0].physical_price_map.len(), 3);
    assert_eq!(rows[0].physical_price_map[0].price, amt("0.04"));
    assert!(rows[0].free_price_map.is_empty());
}

#[test]
fn status_and_set_status_tokens() {
    let c = client(
        FakeTransport::new()
            .push(200, "STATUS_WAIT_CODE")
            .push(200, "STATUS_OK:100001")
            .push(200, "ACCESS_CANCEL")
            .push(200, "ACCESS_RETRY_GET"),
    );
    let id = ActivationId::from("42");
    assert_eq!(c.get_status(&id).unwrap(), ActivationStatus::WaitCode);
    assert_eq!(c.get_status(&id).unwrap().code(), Some("100001"));
    assert_eq!(c.cancel(&id).unwrap(), StatusAck::Cancel);
    assert_eq!(c.request_another_code(&id).unwrap(), StatusAck::RetryGet);
    let reqs = c.transport().requests();
    assert!(reqs[0].ends_with("action=getStatus&id=42"));
    assert!(reqs[2].ends_with("action=setStatus&id=42&status=8"));
    assert!(reqs[3].ends_with("action=setStatus&id=42&status=3"));
}

#[test]
fn history_rows() {
    let c = client(FakeTransport::new().push(
        200,
        r#"[{"id":"635468024","date":"2026-08-29 12:00:36","phone":"7*********0","sms":"Your code is ****","cost":0.1275,"status":"6","currency":840},{"id":"635468025","date":"2026-08-29 12:17:19","phone":"7*********1","sms":null,"cost":0,"status":"8","currency":840}]"#,
    ));
    let rows = c.get_history(&HistoryQuery::new().size(2).offset(0).start(1)).unwrap();
    assert_eq!(rows.len(), 2);
    assert_eq!(rows[0].id.as_str(), "635468024");
    assert_eq!(rows[0].cost, Some(amt("0.1275")));
    assert_eq!(rows[0].status.as_deref(), Some("6"));
    assert_eq!(rows[0].currency, Some(840));
    assert_eq!(rows[1].sms, None);
    assert_eq!(rows[1].cost, Some(amt("0.0")));
    assert!(only_request(&c).ends_with("action=getHistory&start=1&offset=0&size=2"));
}

#[test]
fn get_number_uses_v2_and_encodes_params() {
    let c = client(FakeTransport::new().push(
        200,
        r#"{"activationId":"635468024","phoneNumber":"79584000000","activationCost":12.5,"currency":840,"countryCode":6,"countryPhoneCode":62,"canGetAnotherSms":true,"activationTime":"2026-02-18T16:11:33+00:00","activationEndTime":"2026-02-18T18:11:23+00:00","activationOperator":"any","verificationType":"sms","subtype":1,"serviceCode":"vk","status":4}"#,
    ));
    let req = NumberRequest::new("tg".into(), 187.into()).operator("tmobile,verizon").max_price(amt("0.5"));
    let a = c.get_number(&req).unwrap();
    assert_eq!(a.id.as_str(), "635468024");
    assert_eq!(a.phone, "79584000000");
    assert_eq!(a.cost, Some(amt("12.5")));
    assert_eq!(a.country, Some(CountryRef::Id(6)));
    assert_eq!(a.operator.as_deref(), Some("any"));
    assert_eq!(
        only_request(&c),
        format!("{ENDPOINT}?api_key=KEY&action=getNumberV2&service=tg&country=187&operator=tmobile%2Cverizon&maxPrice=0.5")
    );
}

#[test]
fn get_number_with_hero_options() {
    let c = client(FakeTransport::new().push(200, "ACCESS_NUMBER:1:2"));
    let req = NumberRequest::new("wa".into(), 73.into()).max_price(amt("0.25"));
    let opts = HeroNumberOptions::new().fixed_price(true).referral("123456789").exclude_prefix("7934").exclude_prefix("7900");
    let a = c.get_number_with(&req, &opts).unwrap();
    assert_eq!(a.phone, "2");
    assert!(only_request(&c).ends_with(
        "action=getNumberV2&service=wa&country=73&maxPrice=0.25&fixedPrice=true&ref=123456789&phoneException=7934%2C7900"
    ));
    // options never mutate the caller's request
    assert!(req.extra.is_empty());
}

#[test]
fn price_bounds_only_max_price() {
    // the trait path strips `minPrice` (not part of the API) but keeps `maxPrice`
    let c = client(FakeTransport::new().push(200, "ACCESS_NUMBER:1:2"));
    let req = NumberRequest::new("tg".into(), 187.into()).min_price(amt("0.1")).max_price(amt("0.5"));
    c.get_number(&req).unwrap();
    let url = only_request(&c);
    assert!(url.ends_with("action=getNumberV2&service=tg&country=187&maxPrice=0.5"));
    assert!(!url.contains("minPrice"));

    // the typed path refuses a floor it cannot enforce, without a request
    let c = client(FakeTransport::new());
    assert!(matches!(c.get_number_with(&req, &HeroNumberOptions::new()), Err(ApiError::Unsupported("minPrice"))));
    // fixedPrice without maxPrice is rejected before any request …
    let bare = NumberRequest::new("tg".into(), 187.into());
    match c.get_number_with(&bare, &HeroNumberOptions::new().fixed_price(true)) {
        Err(ApiError::Validation { field, message }) => {
            assert_eq!(field, "maxPrice");
            assert!(message.contains("fixedPrice"));
        },
        other => panic!("unexpected: {other:?}"),
    }
    assert!(c.transport().requests().is_empty());
    // … and `apply` never emits the dangling flag either
    let applied = HeroNumberOptions::new().fixed_price(true).apply(&bare);
    assert!(applied.extra.is_empty());
    let applied = HeroNumberOptions::new().fixed_price(true).apply(&bare.clone().max_price(amt("0.3")));
    assert_eq!(applied.extra, vec![("fixedPrice".to_owned(), "true".to_owned())]);
}

#[test]
fn legacy_plain_text_errors_with_http_200() {
    let c = client(
        FakeTransport::new().push(200, "NO_KEY").push(200, "BAD_KEY").push(200, "ERROR_SQL").push(200, "BAD_ACTION"),
    );
    assert!(matches!(c.get_balance(), Err(ApiError::BadKey)));
    assert!(matches!(c.get_balance(), Err(ApiError::BadKey)));
    assert!(matches!(c.get_balance(), Err(ApiError::Other(t)) if t == "ERROR_SQL"));
    assert!(matches!(c.get_balance(), Err(ApiError::BadAction(_))));
}

#[test]
fn operator_tables_by_country() {
    assert_eq!(operators_in(table(), 0), vec!["mts".to_owned(), "beeline".to_owned()]);
    assert!(operators_in(table(), 7).is_empty());
    let by_id = operators_by_id(table());
    assert_eq!(by_id.len(), 2);
    assert_eq!(by_id.get(&6).unwrap(), &vec!["telkomsel".to_owned()]);
}

fn table() -> KeyMap<CountryRef, Vec<String>> {
    let mut m: KeyMap<CountryRef, Vec<String>> = KeyMap::new();
    m.insert(CountryRef::Id(6), vec!["telkomsel".to_owned()]);
    m.insert(CountryRef::Slug("x".to_owned()), vec!["a".to_owned()]);
    m.insert(CountryRef::Id(0), vec!["mts".to_owned(), "beeline".to_owned()]);
    m
}

#[test]
fn classify_edge_cases() {
    // non-JSON bodies with error statuses fall back to the HTTP error
    let html = HttpResponse::new(502, "<html>Bad Gateway</html>");
    assert!(matches!(
        hero_classify(&html),
        Err(ApiError::Http { status: 502, .. })
    ));
    // 429 without an envelope is still a rate limit
    assert!(matches!(
        hero_classify(&HttpResponse::new(429, "")),
        Err(ApiError::RateLimited { .. })
    ));
    // retry_after_seconds is honoured when the envelope carries it
    assert!(matches!(
        hero_classify(&HttpResponse::new(
            429,
            r#"{"title":"RATE_LIMIT","details":"","info":{"retry_after_seconds":7}}"#
        )),
        Err(ApiError::RateLimited {
            retry_after: Some(7)
        })
    ));
    // data shapes are never mistaken for envelopes
    for body in [
        r#"{"status":"success","services":[]}"#,
        "ACCESS_BALANCE:1",
        "",
    ] {
        assert!(hero_classify(&HttpResponse::new(200, body)).is_ok(), "{body}");
    }
    assert!(hero_classify(&HttpResponse::new(204, "")).is_ok());
    // an envelope with a non-error title is not an error
    assert!(error_from_envelope(r#"{"title":"hello","details":"x"}"#).is_none());
    assert!(matches!(
        error_from_envelope(
            r#"{"title":"EARLY_CANCEL_DENIED","details":"…","info":{"minActivationTime":120}}"#
        ),
        Some(ApiError::EarlyCancelDenied)
    ));
    assert!(matches!(
        error_from_envelope(r#"{"title":"BAD_STATUS","details":"Wrong status code"}"#),
        Some(ApiError::BadStatus)
    ));
}

#[test]
fn provider_only_methods_name_the_unknown_action() {
    let c = client(FakeTransport::new().push(200, "BAD_ACTION"));
    let id = ActivationId::from("1");
    assert!(matches!(c.get_all_sms(&id, None, None), Err(ApiError::BadAction(a)) if a == "getAllSms"));
}

#[test]
fn large_data_bodies_skip_the_error_shape_parse() {
    // a big envelope with the key first is still recognised
    let big_envelope = format!(r#"{{"title":"BAD_KEY","details":"{}"}}"#, "x".repeat(ERROR_SHAPE_SCAN_LIMIT));
    assert!(matches!(hero_classify(&HttpResponse::new(401, &big_envelope)), Err(ApiError::BadKey)));
    let big_status = format!(
        r#"{{"status":"false","msg":"service is incorrect","pad":"{}"}}"#,
        "x".repeat(ERROR_SHAPE_SCAN_LIMIT)
    );
    assert!(matches!(hero_classify(&HttpResponse::new(200, &big_status)), Err(ApiError::BadService)));
    // small bodies are always inspected; multi-byte prefixes never split a char
    assert!(may_contain_top_level_key(r#"{"a":1}"#, "\"title\""));
    let cyrillic = format!(r#"{{"{}":1}}"#, "я".repeat(ERROR_SHAPE_SCAN_LIMIT));
    assert!(!may_contain_top_level_key(&cyrillic, "\"title\""));
}

#[test]
fn finish_and_cancel_activation() {
    let c = client(FakeTransport::new().push(204, ""));
    c.finish_activation(&ActivationId::from("5")).unwrap();
    let reqs = c.transport().requests();
    assert!(reqs[0].ends_with("action=finishActivation&id=5"));
}

#[test]
fn request_url_drops_min_price_only_for_purchases() {
    let c = client(FakeTransport::new());
    let params = vec![("service".to_owned(), "tg".to_owned()), ("minPrice".to_owned(), "0.1".to_owned())];
    assert_eq!(
        c.request_url("getNumberV2", params.clone()),
        format!("{ENDPOINT}?api_key=KEY&action=getNumberV2&service=tg")
    );
    assert_eq!(
        c.request_url("getPrices", params),
        format!("{ENDPOINT}?api_key=KEY&action=getPrices&service=tg&minPrice=0.1")
    );
}
