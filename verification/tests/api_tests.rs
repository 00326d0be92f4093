use sms_activate::amount::Amount;
use sms_activate::api::{Client, Dialect, SmsActivateApi, build_url, encode, fmt_price};
use sms_activate::error::{ApiError, ApiResult};
use sms_activate::keymap::KeyMap;
use sms_activate::protocol;
use sms_activate::transport::HttpResponse;
use sms_activate::transport::FakeTransport;
use sms_activate::types::{
    Activation, ActivationId, ActivationStatus, ActiveActivation, Capabilities, Country, CountryRef, NumberRequest, PriceTable,
    Service, ServiceCode, StatusAck, TopCountry,
};

fn amt(s: &str) -> Amount {
    Amount::parse(s).unwrap()
}

struct Plain;

impl Dialect for Plain {
    fn name(&self) -> &'static str {
        "Plain"
    }
    fn endpoint(&self) -> &str {
        "https://example.test/stubs/handler_api.php"
    }
    fn caps(&self) -> Capabilities {
        self.capabilities()
    }
    fn capabilities(&self) -> Capabilities {
        Capabilities::default()
    }
    fn adjust_params(&self, _action: &str, _params: &mut Vec<(String, String)>) {}
    fn classify(&self, resp: &HttpResponse) -> ApiResult<()> {
        protocol::classify_standard(resp)
    }
    fn parse_balance(&self, body: &str) -> ApiResult<Amount> {
        protocol::parse_balance(body)
    }
    fn parse_activation(&self, body: &str) -> ApiResult<Activation> {
        protocol::parse_activation_v2(body)
    }
    fn parse_status(&self, body: &str) -> ApiResult<ActivationStatus> {
        protocol::parse_status(body)
    }
    fn parse_set_status(&self, body: &str) -> ApiResult<StatusAck> {
        protocol::parse_set_status(body)
    }
    fn parse_prices(&self, body: &str) -> ApiResult<PriceTable> {
        protocol::parse_prices(body)
    }
    fn parse_services(&self, body: &str) -> ApiResult<Vec<Service>> {
        protocol::parse_services(body)
    }
    fn parse_countries(&self, body: &str) -> ApiResult<Vec<Country>> {
        protocol::parse_countries(body)
    }
    fn parse_top_countries(&self, body: &str) -> ApiResult<Vec<TopCountry>> {
        protocol::parse_top_countries_indexed(body)
    }
    fn parse_numbers_status(&self, body: &str) -> ApiResult<KeyMap<ServiceCode, u64>> {
        protocol::parse_numbers_status(body)
    }
    fn parse_active_activations(&self, body: &str) -> ApiResult<Vec<ActiveActivation>> {
        protocol::parse_active_activations(body)
    }
    fn parse_operators(&self, body: &str) -> ApiResult<KeyMap<CountryRef, Vec<String>>> {
        protocol::parse_operators(body)
    }
}

struct V2;

impl Dialect for V2 {
    fn name(&self) -> &'static str {
        "V2"
    }
    fn endpoint(&self) -> &str {
        "https://v2.test/api"
    }
    fn caps(&self) -> Capabilities {
        self.capabilities()
    }
    fn capabilities(&self) -> Capabilities {
        Capabilities { get_number_v2: true, numbers_status: true, ..Default::default() }
    }
    fn adjust_params(&self, _action: &str, _params: &mut Vec<(String, String)>) {}
    fn classify(&self, resp: &HttpResponse) -> ApiResult<()> {
        protocol::classify_standard(resp)
    }
    fn parse_balance(&self, body: &str) -> ApiResult<Amount> {
        protocol::parse_balance(body)
    }
    fn parse_activation(&self, body: &str) -> ApiResult<Activation> {
        protocol::parse_activation_v2(body)
    }
    fn parse_status(&self, body: &str) -> ApiResult<ActivationStatus> {
        protocol::parse_status(body)
    }
    fn parse_set_status(&self, body: &str) -> ApiResult<StatusAck> {
        protocol::parse_set_status(body)
    }
    fn parse_prices(&self, body: &str) -> ApiResult<PriceTable> {
        protocol::parse_prices(body)
    }
    fn parse_services(&self, body: &str) -> ApiResult<Vec<Service>> {
        protocol::parse_services(body)
    }
    fn parse_countries(&self, body: &str) -> ApiResult<Vec<Country>> {
        protocol::parse_countries(body)
    }
    fn parse_top_countries(&self, body: &str) -> ApiResult<Vec<TopCountry>> {
        protocol::parse_top_countries_indexed(body)
    }
    fn parse_numbers_status(&self, body: &str) -> ApiResult<KeyMap<ServiceCode, u64>> {
        protocol::parse_numbers_status(body)
    }
    fn parse_active_activations(&self, body: &str) -> ApiResult<Vec<ActiveActivation>> {
        protocol::parse_active_activations(body)
    }
    fn parse_operators(&self, body: &str) -> ApiResult<KeyMap<CountryRef, Vec<String>>> {
        protocol::parse_operators(body)
    }
}

#[test]
fn url_building_and_encoding() {
    let url = build_url(
        "https://x.test/h.php",
        "k&y",
        "getNumber",
        &[("service".to_owned(), "tg".to_owned()), ("ref".to_owned(), "a b/ü".to_owned())],
    );
    assert_eq!(url, "https://x.test/h.php?api_key=k%26y&action=getNumber&service=tg&ref=a%20b%2F%C3%BC");
    assert_eq!(fmt_price(amt("0.25")), "0.25");
    assert_eq!(fmt_price(amt("1.0")), "1");
    assert_eq!(fmt_price(amt("0.15689")), "0.1569");
}

#[test]
fn balance_round_trip_records_request() {
    let t = FakeTransport::new().push(200, "ACCESS_BALANCE:3.5");
    let c = Client::new(t, Plain, "KEY");
    assert_eq!(c.get_balance().unwrap(), amt("3.5"));
    let reqs = c.transport().requests();
    assert_eq!(reqs, vec!["https://example.test/stubs/handler_api.php?api_key=KEY&action=getBalance"]);
}

#[test]
fn get_number_uses_v1_or_v2_by_capability() {
    let req = NumberRequest::new("tg".into(), 187.into()).max_price(amt("0.5")).extra("providerIds", "1,2");
    let c = Client::new(FakeTransport::new().push(200, "ACCESS_NUMBER:42:12025550123"), Plain, "K");
    let a = c.get_number(&req).unwrap();
    assert_eq!(a.id.as_str(), "42");
    assert!(c.transport().requests()[0].contains("action=getNumber&service=tg&country=187&maxPrice=0.5&providerIds=1%2C2"));

    let c = Client::new(
        FakeTransport::new().push(
            200,
            r#"{"activationId":7,"phoneNumber":"1","activationCost":0.3,"countryCode":187,"canGetAnotherSms":true,"activationTime":"t","activationOperator":"op"}"#,
        ),
        V2,
        "K",
    );
    let a = c.get_number(&req).unwrap();
    assert_eq!(a.cost, Some(amt("0.3")));
    assert!(c.transport().requests()[0].contains("action=getNumberV2&"));
}

#[test]
fn status_set_status_and_errors() {
    let c = Client::new(
        FakeTransport::new()
            .push(200, "STATUS_OK:5555")
            .push(200, "ACCESS_CANCEL")
            .push(200, "NO_ACTIVATION")
            .push(500, "boom"),
        Plain,
        "K",
    );
    let id = ActivationId::from("9");
    assert_eq!(c.get_status(&id).unwrap(), ActivationStatus::Code { code: "5555".into() });
    assert_eq!(c.cancel(&id).unwrap(), StatusAck::Cancel);
    assert!(matches!(c.get_status(&id), Err(ApiError::NoActivation)));
    assert!(matches!(c.get_status(&id), Err(ApiError::Http { status: 500, .. })));
    assert!(c.transport().requests()[1].ends_with("action=setStatus&id=9&status=8"));
}

#[test]
fn api_unsupported_actions_do_not_hit_the_network() {
    let c = Client::new(FakeTransport::new(), Plain, "K");
    assert!(matches!(c.get_numbers_status(&CountryRef::Id(1), None), Err(ApiError::Unsupported("getNumbersStatus"))));
    assert!(matches!(c.get_active_activations(), Err(ApiError::Unsupported(_))));
    assert!(matches!(c.get_operators(None), Err(ApiError::Unsupported(_))));
    assert!(c.transport().requests().is_empty());

    let c = Client::new(FakeTransport::new().push(200, r#"{"tg":3}"#), V2, "K");
    let ns = c.get_numbers_status(&CountryRef::Id(1), Some("mts")).unwrap();
    assert_eq!(ns.get(&ServiceCode::from("tg")), Some(&3));
    assert!(c.transport().requests()[0].ends_with("action=getNumbersStatus&country=1&operator=mts"));
}

#[test]
fn trait_is_object_safe() {
    let boxed: Box<dyn SmsActivateApi> =
        Box::new(Client::new(FakeTransport::new().push(200, "ACCESS_BALANCE:1"), Plain, "K"));
    assert_eq!(boxed.provider(), "Plain");
    assert_eq!(boxed.get_balance().unwrap(), amt("1.0"));
}

#[test]
fn encoding_keeps_unreserved_and_escapes_everything_else() {
    assert_eq!(encode("AZaz09-_.~"), "AZaz09-_.~");
    assert_eq!(encode("a=b&c"), "a%3Db%26c");
    assert_eq!(encode("€"), "%E2%82%AC");
    assert_eq!(encode(""), "");
}

#[test]
fn prices_round_half_away_from_zero_to_four_decimals() {
    assert_eq!(fmt_price(amt("0.00005")), "0.0001");
    assert_eq!(fmt_price(amt("0.00004")), "0");
    assert_eq!(fmt_price(amt("2.10000")), "2.1");
    assert_eq!(fmt_price(amt("-1.25")), "-1.25");
    assert_eq!(fmt_price(amt("12")), "12");
}

#[test]
fn transport_errors_surface_as_transport() {
    let c = Client::new(FakeTransport::new().push_error("down"), Plain, "K");
    assert!(matches!(c.get_balance(), Err(ApiError::Transport(e)) if e.0 == "down"));
}
