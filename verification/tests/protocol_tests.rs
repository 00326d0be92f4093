use sms_activate::amount::Amount;
use sms_activate::error::ApiError;
use sms_activate::protocol::{
    TitleEnvelope, classify_standard, error_from_title_envelope, may_contain_top_level_key, parse_access_number,
    parse_activation_v2, parse_active_activations, parse_balance, parse_numbers_status, parse_prices, parse_set_status,
    parse_status,
};
use sms_activate::transport::HttpResponse;
use sms_activate::types::{ActivationStatus, CountryRef, ServiceCode, StatusAck};

fn amt(s: &str) -> Amount {
    Amount::parse(s).unwrap()
}

#[test]
fn balance_both_providers() {
    assert_eq!(parse_balance("ACCESS_BALANCE:12.5085").unwrap(), amt("12.5085"));
    assert_eq!(parse_balance("ACCESS_BALANCE:18.739").unwrap(), amt("18.739"));
    assert!(parse_balance("BAD_KEY").is_err());
}

#[test]
fn access_number_and_v2() {
    let a = parse_access_number("ACCESS_NUMBER:123456:79001234567").unwrap();
    assert_eq!(a.id.as_str(), "123456");
    assert_eq!(a.phone, "79001234567");
    let v2 = parse_activation_v2(
        r#"{"activationId":"987","phoneNumber":"31612345678","activationCost":"0.42","countryCode":"48","canGetAnotherSms":"1","activationTime":"2026-08-30 12:00:00","activationOperator":"kpn"}"#,
    )
    .unwrap();
    assert_eq!(v2.id.as_str(), "987");
    assert_eq!(v2.cost, Some(amt("0.42")));
    assert_eq!(v2.country, Some(CountryRef::Id(48)));
    assert_eq!(v2.can_get_another_sms, Some(true));
    assert_eq!(v2.operator.as_deref(), Some("kpn"));
    assert_eq!(parse_activation_v2("ACCESS_NUMBER:1:2").unwrap().phone, "2");
}

#[test]
fn status_variants() {
    assert_eq!(parse_status("STATUS_WAIT_CODE").unwrap(), ActivationStatus::WaitCode);
    assert_eq!(parse_status("STATUS_OK:12345\n").unwrap(), ActivationStatus::Code { code: "12345".into() });
    assert_eq!(parse_status("STATUS_WAIT_RETRY:111").unwrap(), ActivationStatus::WaitRetry { last_code: "111".into() });
    assert_eq!(parse_status("STATUS_CANCEL").unwrap(), ActivationStatus::Cancelled);
    assert!(parse_status("NO_ACTIVATION").is_err());
    assert_eq!(parse_set_status("ACCESS_CANCEL").unwrap(), StatusAck::Cancel);
    assert_eq!(parse_set_status("ACCESS_ACTIVATION").unwrap(), StatusAck::Activation);
}

#[test]
fn prices_hero_and_bower() {
    assert!(parse_prices("{}").unwrap().is_empty());
    let t = parse_prices(r#"{"187":{"tg":{"cost":2.592,"count":213697}}}"#).unwrap();
    assert_eq!(t.len(), 1);
    let row = t.get(&CountryRef::Id(187)).unwrap();
    let p = row.get(&ServiceCode::from("tg")).unwrap();
    assert_eq!(p.cost, amt("2.592"));
    assert_eq!(p.count, 213697);
    assert_eq!(p.physical_count, None);
}

#[test]
fn numbers_status_and_operators_hero() {
    assert!(parse_numbers_status("{}").unwrap().is_empty());
    let sa = parse_numbers_status(r#"{"tg_0":5,"tg_1":7,"wa_0":1}"#).unwrap();
    assert_eq!(sa.get(&ServiceCode::from("tg")), Some(&7));
}

#[test]
fn active_activations_shapes() {
    let sa = parse_active_activations(
        r#"{"status":"success","activeActivations":[{"activationId":"635468","serviceCode":"tg","phoneNumber":"79000000000","activationCost":"0.42","activationStatus":"4","smsCode":null,"smsText":null,"activationTime":"2026-08-30 10:00:00","countryCode":"0","canGetAnotherSms":"1"}]}"#,
    )
    .unwrap();
    assert_eq!(sa.len(), 1);
    assert_eq!(sa[0].id.as_str(), "635468");
    assert_eq!(sa[0].service, Some(ServiceCode::from("tg")));
    assert_eq!(sa[0].sms_code, None);
    assert_eq!(sa[0].country, Some(CountryRef::Id(0)));
}

#[test]
fn classify_standard_handles_tokens_and_http() {
    let ok = HttpResponse { status: 200, body: "ACCESS_BALANCE:1".into() };
    assert!(classify_standard(&ok).is_ok());
    let json = HttpResponse { status: 200, body: r#"{"a":1}"#.into() };
    assert!(classify_standard(&json).is_ok());
    let err = HttpResponse { status: 200, body: "NO_ACTIVATION".into() };
    assert!(matches!(classify_standard(&err), Err(ApiError::NoActivation)));
    let bad = HttpResponse { status: 200, body: "BAD_ACTION".into() };
    assert!(matches!(classify_standard(&bad), Err(ApiError::BadAction(_))));
    let http = HttpResponse { status: 503, body: "nope".into() };
    assert!(matches!(classify_standard(&http), Err(ApiError::Http { status: 503, .. })));
    let limited = HttpResponse { status: 429, body: "slow down".into() };
    assert!(matches!(classify_standard(&limited), Err(ApiError::RateLimited { .. })));
}

#[test]
fn title_envelope_family_shapes() {
    let env = TitleEnvelope::parse(r#"{"title":"NOT_FOUND","details":"Activation Not Found"}"#).unwrap();
    assert_eq!(env.title, "NOT_FOUND");
    assert_eq!(env.details, "Activation Not Found");
    assert!(matches!(env.to_error(), Some(ApiError::NoActivation)));
    assert!(matches!(
        error_from_title_envelope(r#"{"title":"RATE_LIMIT","details":"","info":{"retry_after_seconds":7}}"#),
        Some(ApiError::RateLimited { retry_after: Some(7) })
    ));
    assert!(matches!(
        error_from_title_envelope(r#"{"title":"BAD_ACTION","details":"Method Not Found"}"#),
        Some(ApiError::BadAction(a)) if a.is_empty()
    ));
    assert!(
        matches!(error_from_title_envelope(r#"{"title":"WRONG_MAX_PRICE","info":{"min":0.5}}"#), Some(ApiError::WrongMaxPrice { min: Some(m) }) if m == amt("0.5"))
    );
    assert!(
        matches!(error_from_title_envelope(r#"{"title":"NO_PROVIDERS","details":"none"}"#), Some(ApiError::Other(t)) if t == "NO_PROVIDERS: none")
    );
    assert!(TitleEnvelope::parse(r#"{"status":"success","data":[]}"#).is_none());
    assert!(TitleEnvelope::parse("[]").is_none());
    assert!(TitleEnvelope::parse("ACCESS_BALANCE:1").is_none());
    assert!(error_from_title_envelope(r#"{"title":"hello"}"#).is_none());
    let big = format!(r#"{{"187":{{"tg":{{"cost":"0.25","count":{}}}}}}}"#, "1".repeat(5000));
    assert!(!may_contain_top_level_key(&big, "\"title\""));
    assert!(may_contain_top_level_key(r#"{"title":"x"}"#, "\"title\""));
    assert!(!may_contain_top_level_key("[]", "\"title\""));
}
