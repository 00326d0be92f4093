use sms_activate::amount::Amount;
use sms_activate::error::ApiError;

#[test]
fn maps_standard_codes() {
    assert!(matches!(ApiError::from_code("BAD_KEY"), Some(ApiError::BadKey)));
    assert!(matches!(ApiError::from_code("NO_ACTIVATION\n"), Some(ApiError::NoActivation)));
    assert!(
        matches!(ApiError::from_code("WRONG_MAX_PRICE:0.25"), Some(ApiError::WrongMaxPrice { min: Some(m) }) if m == Amount::parse("0.25").unwrap())
    );
    assert!(
        matches!(ApiError::from_code("BANNED:2026-09-01 10:00:00"), Some(ApiError::Banned { until }) if until == "2026-09-01 10:00:00")
    );
    assert!(matches!(ApiError::from_code("ERROR_SQL"), Some(ApiError::Other(c)) if c == "ERROR_SQL"));
}

#[test]
fn success_and_data_are_not_errors() {
    assert!(ApiError::from_code("ACCESS_BALANCE:12.5").is_none());
    assert!(ApiError::from_code("STATUS_OK:1234").is_none());
    assert!(ApiError::from_code("{\"a\":1}").is_none());
    assert!(ApiError::from_code("").is_none());
}

#[test]
fn every_classic_token_has_its_variant() {
    assert!(matches!(ApiError::from_code("BAD_SERVICE"), Some(ApiError::BadService)));
    assert!(matches!(ApiError::from_code("BAD_COUNTRY"), Some(ApiError::BadCountry)));
    assert!(matches!(ApiError::from_code("BAD_STATUS"), Some(ApiError::BadStatus)));
    assert!(matches!(ApiError::from_code("NO_NUMBERS"), Some(ApiError::NoNumbers)));
    assert!(matches!(ApiError::from_code("NO_BALANCE"), Some(ApiError::NoBalance)));
    assert!(matches!(ApiError::from_code("EARLY_CANCEL_DENIED"), Some(ApiError::EarlyCancelDenied)));
    assert!(matches!(ApiError::from_code("WRONG_MAX_PRICE"), Some(ApiError::WrongMaxPrice { min: None })));
    assert!(matches!(ApiError::from_code("BAD_ACTION"), Some(ApiError::BadAction(a)) if a.is_empty()));
    assert!(ApiError::from_code("hello").is_none());
}
