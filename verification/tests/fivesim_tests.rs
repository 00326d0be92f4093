use sms_activate::amount::Amount;
use sms_activate::api::{SmsActivateApi, fmt_price};
use sms_activate::error::ApiError;
use sms_activate::providers::fivesim::records::{parse_record, parse_record_list};
use sms_activate::providers::fivesim::{
    BASE_URL, FiveSim, HTTP_BODY_LIMIT, MaxPrice, Order, OrderCategory, OrderStatus, OrdersPage, Page, PaymentsPage,
    Profile, classify, error_from_text,
};
use sms_activate::transport::{FakeTransport, HttpRequest, HttpResponse, Method};
use sms_activate::types::{ActivationId, ActivationStatus, CountryRef, NumberRequest, ServiceCode, StatusAck, StatusAction};
use sms_activate::providers::fivesim::{inbox_path, order_path, orders_path, payments_path, prices_query, products_path};
use sms_activate::providers::fivesim::finish_response;
use sms_activate::transport::TransportError;
use sms_activate::providers::fivesim::{NestedOffers, offer_tables_of, offers_of, top_countries_in};

const ORDER_PENDING: &str = r#"{"id":11631253,"phone":"+447350690992","operator":"vodafone","product":"facebook","price":21,"status":"PENDING","expires":"2018-10-13T08:28:38.809469028Z","sms":null,"created_at":"2018-10-13T08:13:38.809469028Z","forwarding":false,"forwarding_number":"","country":"england"}"#;
const ORDER_RECEIVED: &str = r#"{"id":11631253,"created_at":"2018-10-13T08:13:38.809469028Z","phone":"+447350690992","product":"facebook","price":21,"status":"RECEIVED","expires":"2018-10-13T08:28:38.809469028Z","sms":[{"created_at":"2018-10-13T08:20:38.809469028Z","date":"2018-10-13T08:19:38Z","sender":"Facebook","text":"Facebook: 09363 - use this code to reclaim your suspended profile.","code":"09363"}],"forwarding":false,"forwarding_number":"","country":"england"}"#;
const ORDER_RECEIVED_NO_SMS: &str = r#"{"id":5,"phone":"+1","product":"facebook","price":1,"status":"RECEIVED","sms":[]}"#;
const ORDER_RECEIVED_TWO: &str = r#"{"id":6,"phone":"+1","product":"facebook","price":1,"status":"RECEIVED","sms":[{"created_at":"2026-01-01T00:00:01Z","text":"first 1111","code":"1111"},{"created_at":"2026-01-01T00:00:02Z","text":"no code here","code":""}]}"#;
const ORDER_RECEIVED_NO_CODES: &str = r#"{"id":9,"phone":"+1","product":"facebook","price":1,"status":"RECEIVED","sms":[{"created_at":"2026-01-01T00:00:01Z","text":"first text","code":""},{"created_at":"2026-01-01T00:00:02Z","text":" second text ","code":" "}]}"#;
const ORDER_CANCELED: &str = r#"{"id":7,"phone":"+1","product":"facebook","price":1,"status":"CANCELED","sms":[],"created_at":"2020-06-28T16:17:43.307041Z"}"#;
const ORDER_TIMEOUT: &str = r#"{"id":8,"phone":"+1","product":"facebook","price":1,"status":"TIMEOUT","sms":[]}"#;
const ORDER_FINISHED: &str = r#"{"id":11631253,"created_at":"2018-10-13T08:13:38.809469028Z","phone":"+447350690992","product":"facebook","price":21,"status":"FINISHED","expires":"2018-10-13T08:28:38.809469028Z","sms":[{"created_at":"2018-10-13T08:20:38.809469028Z","date":"2018-10-13T08:19:38Z","sender":"Facebook","text":"Facebook: 09363 - use this code to reclaim your suspended profile.","code":"09363"}],"forwarding":false,"forwarding_number":"","country":"england"}"#;
const ORDER_BANNED: &str = r#"{"id":53533933,"phone":"+447350690992","operator":"vodafone","product":"facebook","price":2,"status":"BANNED","expires":"2020-06-28T16:32:43.307041Z","sms":[],"created_at":"2020-06-28T16:17:43.307041Z","country":"england"}"#;

fn amt(s: &str) -> Amount {
    Amount::parse(s).unwrap()
}

fn client(t: FakeTransport) -> FiveSim<FakeTransport> {
    FiveSim::new(t, "KEY")
}

fn order(body: &str) -> Order {
    parse_record::<Order>(body).unwrap()
}

fn assert_user_get(req: &HttpRequest, url: &str) {
    assert_eq!(req.method, Method::Get);
    assert_eq!(req.url, url);
    assert_eq!(req.header_value("Authorization"), Some("Bearer KEY"));
    assert_eq!(req.header_value("Accept"), Some("application/json"));
    assert_eq!(req.body, None);
}

fn assert_guest_get(req: &HttpRequest, url: &str) {
    assert_eq!(req.method, Method::Get);
    assert_eq!(req.url, url);
    assert_eq!(req.header_value("Authorization"), None, "guest calls carry no bearer");
    assert_eq!(req.header_value("Accept"), Some("application/json"));
    assert_eq!(req.headers.len(), 1);
}

#[test]
fn identity_capabilities_and_base_url() {
    let c = client(FakeTransport::new());
    assert_eq!(c.provider(), "5SIM");
    assert_eq!(c.base_url(), BASE_URL);
    let caps = c.capabilities();
    assert!(!caps.get_number_v2);
    assert!(caps.numbers_status);
    assert!(caps.active_activations);
    assert!(caps.operators);
    assert!(!caps.prices_v2);
    assert!(!caps.prices_v3);
    assert!(caps.price_bounds);
    assert!(!caps.provider_filters);
    let boxed: Box<dyn SmsActivateApi> = Box::new(client(FakeTransport::new()));
    assert_eq!(boxed.provider(), "5SIM");
}

#[test]
fn base_url_override_drops_trailing_slashes() {
    let c = client(FakeTransport::new().push(200, r#"{"id":1,"balance":21.6408,"rating":95.866}"#))
        .with_base_url("http://localhost:8080/v1//");
    assert_eq!(c.base_url(), "http://localhost:8080/v1");
    assert_eq!(c.get_balance().unwrap(), amt("21.6408"));
    let reqs = c.transport().recorded();
    assert_user_get(&reqs[0], "http://localhost:8080/v1/user/profile");
}

#[test]
fn profile_reads_documented_and_optional_fields() {
    let p = parse_record::<Profile>(
        r#"{"id":7,"email":"a@b","balance":21.6408,"rating":95.866,"default_country":{"name":"england","iso":"gb","prefix":"+44"},"default_operator":{"name":"any"},"frozen_balance":0,"last_order":"england:google:virtual53:42:0.20","did_order":true,"total_active_orders":0}"#,
    )
    .unwrap();
    assert_eq!(p.balance, amt("21.6408"));
    assert_eq!(p.rating, amt("95.866"));
    assert_eq!(p.frozen_balance, amt("0"));
    assert_eq!(p.total_active_orders, Some(0));
    assert_eq!(p.did_order, Some(true));
    assert_eq!(p.vendor, None);
    assert_eq!(p.default_country.iso, "gb");
    assert_eq!(p.default_operator.name, "any");
    assert_eq!(p.last_order.as_deref(), Some("england:google:virtual53:42:0.20"));
    // `id` and `balance` are required; a mistyped member fails the record
    assert!(matches!(parse_record::<Profile>(r#"{"id":7}"#), Err(ApiError::Parse(_))));
    assert!(matches!(parse_record::<Profile>(r#"{"id":7,"balance":"1"}"#), Err(ApiError::Parse(_))));
    assert!(matches!(parse_record::<Profile>(r#"{"id":7,"balance":1,"email":null}"#), Err(ApiError::Parse(_))));
    let d = parse_record::<Profile>(r#"{"id":7,"balance":1}"#).unwrap();
    assert_eq!(d.default_country.name, "");
}

#[test]
fn prices_aggregation_rule_and_refusals() {
    // Nothing in stock → cheapest overall; count 0.
    let c = client(FakeTransport::new().push(
        200,
        r#"{"x":{"p":{"a":{"cost":2,"count":0},"b":{"cost":1.5,"count":0,"rate":99.99}}}}"#,
    ));
    let table = c.get_prices(Some(&ServiceCode::from("p")), Some(&CountryRef::Slug("x".into()))).unwrap();
    let price = table.get(&CountryRef::Slug("x".into())).unwrap().get(&ServiceCode::from("p")).unwrap();
    assert_eq!(price.cost, amt("1.5"));
    assert_eq!(price.count, 0);
    // Empty answer → empty table.
    let c = client(FakeTransport::new().push(200, "{}"));
    assert!(c.get_prices(Some(&ServiceCode::from("p")), None).unwrap().is_empty());
    // No filter and numeric countries are refused before any request.
    let c = client(FakeTransport::new());
    assert!(matches!(c.get_prices(None, None), Err(ApiError::Unsupported("getPrices without filters"))));
    assert!(matches!(c.get_prices(None, Some(&CountryRef::Id(187))), Err(ApiError::BadCountry)));
    assert!(c.transport().recorded().is_empty());
}

#[test]
fn prices_cheapest_in_stock_sum_and_swapped_nesting() {
    let body = r#"{"telegram":{"england":{"a":{"cost":0.9,"count":10},"b":{"cost":0.5,"count":0},"c":{"cost":0.8,"count":5}},"laos":{"x":{"cost":0.3,"count":7}}}}"#;
    let c = client(FakeTransport::new().push(200, body));
    let table = c.get_prices(Some(&ServiceCode::from("telegram")), None).unwrap();
    assert_guest_get(&c.transport().recorded()[0], "https://5sim.net/v1/guest/prices?product=telegram");
    let en = table.get(&CountryRef::Slug("england".into())).unwrap().get(&ServiceCode::from("telegram")).unwrap();
    assert_eq!(en.cost, amt("0.8"));
    assert_eq!(en.count, 15);
    assert_eq!(en.physical_count, None);
    assert_eq!(table.len(), 2);
    // the country-first nesting keeps the outer key as the country
    let c = client(FakeTransport::new().push(200, r#"{"england":{"telegram":{"a":{"cost":1,"count":1}}}}"#));
    let table = c.get_prices(None, Some(&CountryRef::Slug("england".into()))).unwrap();
    assert_guest_get(&c.transport().recorded()[0], "https://5sim.net/v1/guest/prices?country=england");
    assert_eq!(table.get(&CountryRef::Slug("england".into())).unwrap().get(&ServiceCode::from("telegram")).unwrap().cost, amt("1"));
}

#[test]
fn top_countries_sorted_by_stock() {
    let body = r#"{"telegram":{"ukraine":{"a":{"cost":1,"count":0}},"laos":{"a":{"cost":0.3256,"count":6969551}},"england":{"a":{"cost":0.8,"count":451603},"b":{"cost":0.5,"count":0}},"albania":{"a":{"cost":2,"count":0}}}}"#;
    let c = client(FakeTransport::new().push(200, body));
    let rows = c.get_top_countries(&ServiceCode::from("telegram")).unwrap();
    assert_guest_get(&c.transport().recorded()[0], "https://5sim.net/v1/guest/prices?product=telegram");
    assert_eq!(rows.len(), 4);
    assert!(rows.windows(2).all(|w| w[0].count >= w[1].count));
    assert_eq!(rows[0].country, CountryRef::Slug("laos".into()));
    assert_eq!(rows[0].count, 6969551);
    assert_eq!(rows[0].price, amt("0.3256"));
    assert_eq!(rows[0].retail_price, None);
    assert_eq!(rows[0].provider_id, None);
    assert_eq!(rows[1].price, amt("0.8"));
    // Countries without stock come last, alphabetically.
    assert_eq!(rows[2].country.slug(), Some("albania"));
    assert_eq!(rows[3].country.slug(), Some("ukraine"));
}

#[test]
fn services_and_numbers_status_from_products() {
    let body = r#"{"telegram":{"Category":"activation","Qty":455354,"Price":0.8},"host":{"Category":"hosting","Qty":3,"Price":1},"vk":{"Category":"activation","Qty":0}}"#;
    let c = client(FakeTransport::new().push(200, body).push(200, body).push(200, body));
    let services = c.get_services().unwrap();
    assert_eq!(services.len(), 2);
    assert_eq!(services[0].code, ServiceCode::from("telegram"));
    assert_eq!(services[0].name, "telegram");
    assert_eq!(services[1].name, "vk");
    let england = CountryRef::Slug("england".into());
    let counts = c.get_numbers_status(&england, Some("vodafone")).unwrap();
    assert_eq!(counts.len(), 2);
    assert_eq!(counts.get(&ServiceCode::from("telegram")), Some(&455354));
    let products = c.products("england", "any").unwrap();
    assert_eq!(products.len(), 3);
    assert_eq!(products.get(&"host".to_owned()).unwrap().qty, 3);
    assert!(matches!(c.get_numbers_status(&CountryRef::Id(187), None), Err(ApiError::BadCountry)));
    let reqs = c.transport().recorded();
    assert_eq!(reqs.len(), 3);
    assert_guest_get(&reqs[0], "https://5sim.net/v1/guest/products/any/any");
    assert_guest_get(&reqs[1], "https://5sim.net/v1/guest/products/england/vodafone");
}

#[test]
fn countries_and_operators() {
    let body = r#"{"england":{"iso":{"gb":1},"prefix":{"+44":1},"text_en":"England","text_ru":"Англия","vodafone":{"activation":1},"virtual53":{"activation":1},"ee":{"activation":0}},"afghanistan":{"iso":{"af":1},"prefix":{"+93":1},"text_en":"Afghanistan","text_ru":"","any":{"activation":1}}}"#;
    let c = client(FakeTransport::new().push(200, body).push(200, body).push(200, body));
    let list = c.get_countries().unwrap();
    assert_eq!(list.len(), 2);
    assert_eq!(list[0].key, CountryRef::Slug("afghanistan".into()));
    assert_eq!(list[0].name_ru, None);
    let en = &list[1];
    assert_eq!(en.name_en, "England");
    assert_eq!(en.name_ru.as_deref(), Some("Англия"));
    assert_eq!(en.iso.as_deref(), Some("gb"));
    assert_eq!(en.prefix.as_deref(), Some("+44"));
    assert_eq!(en.name_cn, None);
    let one = c.get_operators(Some(&CountryRef::Slug("england".into()))).unwrap();
    assert_eq!(one.len(), 1);
    assert_eq!(one.get(&CountryRef::Slug("england".into())), Some(&vec!["ee".to_owned(), "virtual53".to_owned(), "vodafone".to_owned()]));
    let all = c.get_operators(None).unwrap();
    assert_eq!(all.len(), 2);
    assert_eq!(all.get(&CountryRef::Slug("afghanistan".into())), Some(&vec!["any".to_owned()]));
    assert!(matches!(c.get_operators(Some(&CountryRef::Id(1))), Err(ApiError::BadCountry)));
    let c = client(FakeTransport::new().push(200, body));
    assert!(matches!(c.get_operators(Some(&CountryRef::Slug("narnia".into()))), Err(ApiError::BadCountry)));
}

#[test]
fn active_activations_from_orders() {
    let body = format!(
        r#"{{"Data":[{ORDER_PENDING},{ORDER_RECEIVED},{ORDER_CANCELED},{ORDER_FINISHED}],"ProductNames":[],"Statuses":[],"Total":4}}"#
    );
    let c = client(FakeTransport::new().push(200, &body));
    let rows = c.get_active_activations().unwrap();
    assert_user_get(
        &c.transport().recorded()[0],
        "https://5sim.net/v1/user/orders?category=activation&limit=100&offset=0&order=id&reverse=true",
    );
    assert_eq!(rows.len(), 2);
    assert_eq!(rows[0].id.as_str(), "11631253");
    assert_eq!(rows[0].service, Some(ServiceCode::from("facebook")));
    assert_eq!(rows[0].phone.as_deref(), Some("+447350690992"));
    assert_eq!(rows[0].cost, Some(amt("21.0")));
    assert_eq!(rows[0].status.as_deref(), Some("PENDING"));
    assert_eq!(rows[0].sms_code, None);
    assert_eq!(rows[0].sms_text, None);
    assert_eq!(rows[0].activation_time.as_deref(), Some("2018-10-13T08:13:38.809469028Z"));
    assert_eq!(rows[0].country, Some(CountryRef::Slug("england".into())));
    assert_eq!(rows[0].can_get_another_sms, Some(true));
    assert_eq!(rows[1].status.as_deref(), Some("RECEIVED"));
    assert_eq!(rows[1].sms_code.as_deref(), Some("09363"));
    assert!(rows[1].sms_text.as_deref().unwrap().starts_with("Facebook:"));

    let empty_country = ORDER_RECEIVED_TWO.replace(r#""product":"#, r#""country":"","product":"#);
    let body = format!(
        r#"{{"Data":[{empty_country},{ORDER_RECEIVED_NO_CODES}],"ProductNames":[],"Statuses":[],"Total":2}}"#
    );
    let c = client(FakeTransport::new().push(200, &body));
    let rows = c.get_active_activations().unwrap();
    assert_eq!(rows.len(), 2);
    assert_eq!(rows[0].sms_code.as_deref(), Some("1111"));
    assert_eq!(rows[0].sms_text.as_deref(), Some("first 1111"));
    assert_eq!(rows[0].country, None);
    assert_eq!(rows[1].sms_code, None);
    assert_eq!(rows[1].sms_text.as_deref(), Some("second text"));
    assert_eq!(rows[1].country, None);
}

#[test]
fn orders_and_payments_pages() {
    let orders = format!(r#"{{"Data":[{ORDER_FINISHED},{ORDER_CANCELED}],"Total":999999}}"#);
    let payments = r#"{"Data":[{"ID":306145889,"TypeName":"buy","ProviderName":"google","Amount":-0.2,"Balance":21.6408,"CreatedAt":"2026-08-30T10:00:00Z"}],"PaymentTypes":[{"Name":"charge"},{"Name":"buy"}],"PaymentProviders":[{"Name":"crypto5"}],"Total":114}"#;
    let c = client(FakeTransport::new().push(200, &orders).push(200, payments).push(200, "[]"));
    let page: OrdersPage = c.orders(OrderCategory::Activation, &Page::new(5, 0)).unwrap();
    assert_eq!(page.data.len(), 2);
    assert_eq!(page.total, 999999);
    assert_eq!(page.data[0].status, OrderStatus::Finished);
    assert_eq!(page.data[0].latest_code().as_deref(), Some("09363"));
    assert_eq!(page.data[1].status, OrderStatus::Canceled);
    assert!(page.data[1].sms.is_empty());
    let pay: PaymentsPage = c.payments(&Page::new(3, 0)).unwrap();
    assert_eq!(pay.data.len(), 1);
    assert_eq!(pay.total, 114);
    assert_eq!(pay.data[0].id, 306145889);
    assert_eq!(pay.data[0].payment_type, "buy");
    assert_eq!(pay.data[0].provider_name, "google");
    assert_eq!(pay.data[0].amount, amt("-0.2"));
    assert_eq!(pay.data[0].balance, amt("21.6408"));
    assert_eq!(pay.payment_types.len(), 2);
    assert_eq!(pay.payment_providers[0].name, "crypto5");
    assert!(c.max_prices().unwrap().is_empty());
    let reqs = c.transport().recorded();
    assert_user_get(&reqs[0], "https://5sim.net/v1/user/orders?category=activation&limit=5&offset=0&order=id&reverse=true");
    assert_user_get(&reqs[1], "https://5sim.net/v1/user/payments?limit=3&offset=0&order=id&reverse=true");
    assert_user_get(&reqs[2], "https://5sim.net/v1/user/max-prices");
    let q = Page::new(10, 20).order("created_at").reverse(false).query();
    assert_eq!(q, "limit=10&offset=20&order=created_at&reverse=false");
    assert_eq!(Page::default(), Page::new(15, 0));
    let limits = parse_record_list::<MaxPrice>(r#"[{"id":1,"product":"telegram","price":0.5,"created_at":"t"}]"#).unwrap();
    assert_eq!(limits[0].price, amt("0.5"));
    assert_eq!(limits[0].created_at, "t");
}

#[test]
fn status_for_every_order_status() {
    let c = client(
        FakeTransport::new()
            .push(200, ORDER_PENDING)
            .push(200, ORDER_RECEIVED)
            .push(200, ORDER_RECEIVED_NO_SMS)
            .push(200, ORDER_RECEIVED_TWO)
            .push(200, ORDER_RECEIVED_NO_CODES)
            .push(200, ORDER_CANCELED)
            .push(200, ORDER_TIMEOUT)
            .push(200, ORDER_FINISHED)
            .push(200, ORDER_BANNED)
            .push(200, &ORDER_TIMEOUT.replace("TIMEOUT", "SOMETHING_NEW")),
    );
    let id = ActivationId::from("11631253");
    assert_eq!(c.get_status(&id).unwrap(), ActivationStatus::WaitCode);
    assert_eq!(c.get_status(&id).unwrap(), ActivationStatus::Code { code: "09363".into() });
    assert_eq!(c.get_status(&id).unwrap(), ActivationStatus::WaitCode);
    assert_eq!(c.get_status(&id).unwrap(), ActivationStatus::Code { code: "1111".into() });
    assert_eq!(c.get_status(&id).unwrap(), ActivationStatus::Code { code: "second text".into() });
    assert_eq!(c.get_status(&id).unwrap(), ActivationStatus::Cancelled);
    assert_eq!(c.get_status(&id).unwrap(), ActivationStatus::Expired);
    assert_eq!(c.get_status(&id).unwrap(), ActivationStatus::Finished { code: Some("09363".into()) });
    assert_eq!(c.get_status(&id).unwrap(), ActivationStatus::Cancelled);
    assert!(matches!(c.get_status(&id), Err(ApiError::Unexpected(m)) if m.contains("SOMETHING_NEW")));
    let reqs = c.transport().recorded();
    assert_eq!(reqs.len(), 10);
    assert_user_get(&reqs[0], "https://5sim.net/v1/user/check/11631253");
}

#[test]
fn terminal_statuses_are_final() {
    for o in [ORDER_TIMEOUT, ORDER_FINISHED, ORDER_CANCELED, ORDER_BANNED] {
        let status = order(o).activation_status().unwrap();
        assert!(status.is_final(), "{status:?} must be final");
    }
    for o in [ORDER_PENDING, ORDER_RECEIVED_NO_SMS] {
        let status = order(o).activation_status().unwrap();
        assert!(!status.is_final(), "{status:?} must not be final");
    }
    let received = order(ORDER_RECEIVED);
    assert!(received.activation_status().unwrap().is_final());
}

#[test]
fn latest_coded_sms_prefers_a_code_over_a_newer_text() {
    let two = order(ORDER_RECEIVED_TWO);
    assert_eq!(two.latest_sms().unwrap().text, "no code here");
    assert_eq!(two.latest_coded_sms().unwrap().code, "1111");
    assert_eq!(two.latest_code().as_deref(), Some("1111"));
    let none = order(ORDER_RECEIVED_NO_CODES);
    assert_eq!(none.latest_coded_sms().unwrap().text, " second text ");
    assert_eq!(none.latest_code().as_deref(), Some("second text"));
    let empty = order(ORDER_RECEIVED_NO_SMS);
    assert_eq!(empty.latest_coded_sms(), None);
}

#[test]
fn check_returns_the_full_order() {
    let c = client(FakeTransport::new().push(200, ORDER_RECEIVED));
    let o = c.check(&ActivationId::from("11631253")).unwrap();
    assert_eq!(o.activation_id().as_str(), "11631253");
    assert_eq!(o.status, OrderStatus::Received);
    assert_eq!(o.status.as_str(), "RECEIVED");
    assert!(o.status.is_active());
    assert_eq!(o.operator, None);
    assert_eq!(o.forwarding, Some(false));
    assert_eq!(o.sms[0].date, "2018-10-13T08:19:38Z");
    assert_eq!(o.latest_sms().unwrap().code, "09363");
    let fresh = order(ORDER_PENDING);
    assert!(fresh.sms.is_empty());
    assert_eq!(fresh.latest_code(), None);
    assert_eq!(fresh.operator.as_deref(), Some("vodafone"));
}

#[test]
fn set_status_cancel_finish_and_unsupported() {
    let c = client(FakeTransport::new().push(200, ORDER_CANCELED).push(200, ORDER_FINISHED).push(400, "order has sms"));
    let id = ActivationId::from("7");
    assert_eq!(c.cancel(&id).unwrap(), StatusAck::Cancel);
    assert_eq!(c.complete(&id).unwrap(), StatusAck::Activation);
    assert!(matches!(c.cancel(&id), Err(ApiError::Other(t)) if t == "order has sms"));
    assert!(matches!(c.set_status(&id, StatusAction::Ready), Err(ApiError::Unsupported("setStatus 1"))));
    assert!(matches!(c.request_another_code(&id), Err(ApiError::Unsupported("setStatus 3"))));
    let reqs = c.transport().recorded();
    assert_eq!(reqs.len(), 3, "unsupported actions must not hit the network");
    assert_user_get(&reqs[0], "https://5sim.net/v1/user/cancel/7");
    assert_user_get(&reqs[1], "https://5sim.net/v1/user/finish/7");
}

#[test]
fn ban_reuse_and_inbox_extras() {
    let c = client(
        FakeTransport::new().push(200, ORDER_BANNED).push(200, ORDER_PENDING).push(
            200,
            r#"{"Data":[{"ID":844928,"created_at":"2017-09-05T15:48:33.763297Z","date":"2017-09-05T15:48:27Z","sender":"+447350690992","text":"12345","code":"","is_wave":false,"wave_uuid":""}],"Total":1}"#,
        ),
    );
    assert_eq!(c.ban(&ActivationId::from("53533933")).unwrap().status, OrderStatus::Banned);
    assert_eq!(c.reuse("facebook", "+447350690992").unwrap().status, OrderStatus::Pending);
    let inbox = c.sms_inbox(&ActivationId::from("844928")).unwrap();
    assert_eq!(inbox.total, 1);
    assert_eq!(inbox.data[0].id, 844928);
    assert_eq!(inbox.data[0].text, "12345");
    assert!(!inbox.data[0].is_wave);
    let reqs = c.transport().recorded();
    assert_user_get(&reqs[0], "https://5sim.net/v1/user/ban/53533933");
    assert_user_get(&reqs[1], "https://5sim.net/v1/user/reuse/facebook/447350690992");
    assert_user_get(&reqs[2], "https://5sim.net/v1/user/sms/inbox/844928");
}

#[test]
fn max_price_post_and_delete_bodies() {
    let c = client(FakeTransport::new().push(200, "").push(200, "").push(400, "product_name is empty"));
    c.set_max_price("facebook", amt("30.0")).unwrap();
    c.delete_max_price("facebook").unwrap();
    assert!(matches!(c.set_max_price("", amt("1.0")), Err(ApiError::Other(t)) if t == "product_name is empty"));
    let reqs = c.transport().recorded();
    assert_eq!(reqs[0].method, Method::Post);
    assert_eq!(reqs[0].url, "https://5sim.net/v1/user/max-prices");
    assert_eq!(reqs[0].header_value("Authorization"), Some("Bearer KEY"));
    assert_eq!(reqs[0].header_value("Accept"), Some("application/json"));
    assert_eq!(reqs[0].header_value("Content-Type"), Some("application/json"));
    let body: serde_json::Value = serde_json::from_str(reqs[0].body.as_deref().unwrap()).unwrap();
    assert_eq!(body["product_name"], "facebook");
    assert_eq!(body["price"], 30.0);
    assert_eq!(reqs[1].method, Method::Delete);
    assert_eq!(reqs[1].url, "https://5sim.net/v1/user/max-prices");
    assert_eq!(reqs[1].body.as_deref(), Some(r#"{"product_name":"facebook"}"#));
}

#[test]
fn get_number_builds_the_buy_url() {
    let c = client(FakeTransport::new().push(200, ORDER_PENDING).push(200, ORDER_PENDING).push(200, ORDER_PENDING));
    let a = c.get_number(&NumberRequest::new("facebook".into(), "england".into())).unwrap();
    assert_eq!(a.id.as_str(), "11631253");
    assert_eq!(a.phone, "+447350690992");
    assert_eq!(a.cost, Some(amt("21.0")));
    assert_eq!(a.country, Some(CountryRef::Slug("england".into())));
    assert_eq!(a.operator.as_deref(), Some("vodafone"));
    assert_eq!(a.activation_time.as_deref(), Some("2018-10-13T08:13:38.809469028Z"));
    assert_eq!(a.can_get_another_sms, Some(true));
    let req = NumberRequest::new("facebook".into(), "england".into())
        .operator("any")
        .max_price(amt("1.25"))
        .min_price(amt("0.5"))
        .extra("reuse", "1")
        .extra("ref", "a b");
    c.get_number(&req).unwrap();
    // 5SIM ignores `maxPrice` unless the operator is `any`: refused without a request.
    let capped = NumberRequest::new("facebook".into(), "england".into()).operator("vodafone").max_price(amt("1.25"));
    assert!(matches!(
        c.get_number(&capped),
        Err(ApiError::Validation { field, message }) if field == "maxPrice" && message.contains("vodafone")
    ));
    c.get_number(&NumberRequest::new("facebook".into(), "england".into()).operator("vodafone")).unwrap();
    // Numeric country ids are refused without a request.
    assert!(matches!(c.get_number(&NumberRequest::new("facebook".into(), 187.into())), Err(ApiError::BadCountry)));
    let reqs = c.transport().recorded();
    assert_eq!(reqs.len(), 3);
    assert_user_get(&reqs[0], "https://5sim.net/v1/user/buy/activation/england/any/facebook");
    // `minPrice` has no 5SIM counterpart and is dropped; extras are appended verbatim.
    assert_user_get(&reqs[1], "https://5sim.net/v1/user/buy/activation/england/any/facebook?maxPrice=1.25&reuse=1&ref=a%20b");
    assert_user_get(&reqs[2], "https://5sim.net/v1/user/buy/activation/england/vodafone/facebook");
    assert_eq!(fmt_price(amt("0.25")), "0.25");
    assert_eq!(fmt_price(amt("1.0")), "1");
    assert_eq!(fmt_price(amt("0.15689")), "0.1569");
}

#[test]
fn get_number_falls_back_to_the_requested_country() {
    let c = client(FakeTransport::new().push(
        200,
        r#"{"id":1,"phone":"+447350690992","product":"facebook","price":1,"status":"PENDING","expires":"1970-12-01T03:00:00.000000Z","sms":[{"id":3027531,"created_at":"1970-12-01T17:23:25.106597Z","date":"1970-12-01T17:23:15Z","sender":"Facebook","text":"Use 415127 as your login code","code":"415127"}],"created_at":"1970-12-01T00:00:00.000000Z"}"#,
    ));
    let a = c.get_number(&NumberRequest::new("facebook".into(), "england".into())).unwrap();
    assert_eq!(a.country, Some(CountryRef::Slug("england".into())));
    assert_eq!(a.operator, None);
}

#[test]
fn every_error_mapping() {
    let resp = |status: u16, body: &str| HttpResponse::new(status, body);
    assert!(matches!(classify(&resp(401, "")), Err(ApiError::BadKey)));
    assert!(matches!(classify(&resp(429, "")), Err(ApiError::RateLimited { retry_after: None })));
    assert!(classify(&resp(200, "{}")).is_ok());
    assert!(classify(&resp(200, "[]")).is_ok());
    assert!(classify(&resp(200, "")).is_ok());
    assert!(matches!(classify(&resp(200, "no free phones")), Err(ApiError::NoNumbers)));
    assert!(matches!(classify(&resp(200, "something odd")), Err(ApiError::Unexpected(t)) if t == "something odd"));
    assert!(matches!(classify(&resp(400, "no free phones\n")), Err(ApiError::NoNumbers)));
    assert!(matches!(classify(&resp(400, "not enough user balance")), Err(ApiError::NoBalance)));
    for text in ["bad country", "select country", "country is incorrect"] {
        assert!(matches!(classify(&resp(400, text)), Err(ApiError::BadCountry)));
    }
    for text in ["no product", "bad product", "product is incorrect"] {
        assert!(matches!(classify(&resp(400, text)), Err(ApiError::BadService)));
    }
    for text in ["bad operator", "select operator"] {
        assert!(matches!(
            classify(&resp(400, text)),
            Err(ApiError::Validation { field, message }) if field == "operator" && message == text
        ));
    }
    assert!(matches!(classify(&resp(400, "order not found")), Err(ApiError::NoActivation)));
    assert!(matches!(classify(&resp(404, "order not found")), Err(ApiError::NoActivation)));
    for text in [
        "order expired",
        "order has sms",
        "hosting order",
        "not enough rating",
        "server offline",
        "internal error",
        "record not found",
        "product_name is empty",
        "reuse not possible",
        "reuse false",
        "reuse expired",
    ] {
        assert!(matches!(classify(&resp(400, text)), Err(ApiError::Other(t)) if t == text));
    }
    assert!(matches!(classify(&resp(400, "Bad Country")), Err(ApiError::BadCountry)));
    assert!(matches!(classify(&resp(400, "unknown text")), Err(ApiError::Http { status: 400, body }) if body == "unknown text"));
    assert!(matches!(classify(&resp(503, "")), Err(ApiError::RateLimited { retry_after: None })));
    assert!(matches!(classify(&resp(500, "internal error")), Err(ApiError::Http { status: 500, body }) if body == "internal error"));
    let html = format!("<!DOCTYPE html>{}", "x".repeat(50_000));
    assert!(matches!(classify(&resp(404, &html)), Err(ApiError::Http { status: 404, body }) if body.len() == HTTP_BODY_LIMIT));
    assert!(matches!(classify(&resp(200, &html)), Err(ApiError::Unexpected(body)) if body.len() == HTTP_BODY_LIMIT));
    // Truncation never splits a multi-byte character.
    let cyrillic = "я".repeat(HTTP_BODY_LIMIT);
    assert!(matches!(
        classify(&resp(200, &cyrillic)),
        Err(ApiError::Unexpected(body)) if body.chars().count() == HTTP_BODY_LIMIT / 2
    ));
    assert!(error_from_text("").is_none());
    assert!(error_from_text("{}").is_none());
    // Transport failures and unparsable bodies keep their own variants.
    let c = client(FakeTransport::new().push_error("dns").push(200, "<html>").push(200, "{\"balance\":\"x\"}"));
    assert!(matches!(c.get_balance(), Err(ApiError::Transport(_))));
    assert!(matches!(c.get_balance(), Err(ApiError::Unexpected(_))));
    assert!(matches!(c.get_balance(), Err(ApiError::Parse(_))));
}

#[test]
fn order_status_spellings_round_trip() {
    for s in ["PENDING", "RECEIVED", "CANCELED", "TIMEOUT", "FINISHED", "BANNED", "NEW_ONE"] {
        assert_eq!(OrderStatus::from_text(s).as_str(), s);
        assert_eq!(OrderStatus::from(s.to_owned()).as_str(), s);
    }
    assert_eq!(OrderStatus::from_text("NEW_ONE"), OrderStatus::Other("NEW_ONE".into()));
    assert!(!OrderStatus::Canceled.is_active());
    assert_eq!(OrderCategory::Hosting.as_str(), "hosting");
}

#[test]
fn request_paths_and_queries_are_encoded() {
    let id = ActivationId("12/3".to_owned());
    assert_eq!(order_path("check", &id), "/user/check/12%2F3");
    assert_eq!(inbox_path(&id), "/user/sms/inbox/12%2F3");
    assert_eq!(products_path("united kingdom", "any"), "/guest/products/united%20kingdom/any");
    assert_eq!(
        orders_path(OrderCategory::Activation, &Page::new(10, 20)),
        "/user/orders?category=activation&limit=10&offset=20&order=id&reverse=true"
    );
    assert_eq!(payments_path(&Page::new(5, 0).reverse(false)), "/user/payments?limit=5&offset=0&order=id&reverse=false");
    assert_eq!(prices_query(Some("england"), Some("telegram")), "?country=england&product=telegram");
    assert_eq!(prices_query(Some("england"), None), "?country=england");
    assert_eq!(prices_query(None, Some("tele gram")), "?product=tele%20gram");
    assert_eq!(prices_query(None, None), "");
}

#[test]
fn guest_and_user_requests_carry_the_right_headers() {
    let c = FiveSim::new(FakeTransport::new(), "tok");
    let g = c.guest_request("/guest/countries");
    assert_eq!(g.method, Method::Get);
    assert_eq!(g.url, format!("{BASE_URL}/guest/countries"));
    assert_eq!(g.headers, vec![("Accept".to_owned(), "application/json".to_owned())]);
    assert_eq!(g.body, None);
    let u = c.user_request(Method::Post, "/user/max-prices", Some("{}"));
    assert_eq!(u.header_value("authorization"), Some("Bearer tok"));
    assert_eq!(u.header_value("content-type"), Some("application/json"));
    assert_eq!(u.body.as_deref(), Some("{}"));
    let plain = c.user_request(Method::Get, "/user/profile", None);
    assert_eq!(plain.headers.len(), 2);
    assert!(plain.header_value("content-type").is_none());
}

#[test]
fn finishing_a_response_maps_transport_and_http_errors() {
    assert!(matches!(finish_response(Err(TransportError("down".to_owned()))), Err(ApiError::Transport(e)) if e.0 == "down"));
    assert!(matches!(finish_response(Ok(HttpResponse::new(401, ""))), Err(ApiError::BadKey)));
    assert_eq!(finish_response(Ok(HttpResponse::new(200, "{\"a\":1}"))).unwrap(), "{\"a\":1}");
}

#[test]
fn nested_price_answers_are_looked_up_by_key() {
    let body = r#"{"england":{"telegram":{"virtual1":{"cost":12,"count":3},"virtual2":{"cost":10,"count":0}}}}"#;
    let raw: NestedOffers = parse_record(body).unwrap();
    let m = offers_of(raw.clone(), "england", "telegram");
    assert_eq!(m.len(), 2);
    assert_eq!(m.get(&"virtual1".to_owned()).unwrap().count, 3);
    assert!(offers_of(raw.clone(), "england", "whatsapp").is_empty());
    assert!(offers_of(raw.clone(), "usa", "telegram").is_empty());
    let t = offer_tables_of(raw.clone(), "england");
    assert_eq!(t.len(), 1);
    assert!(offer_tables_of(raw.clone(), "usa").is_empty());
    assert!(top_countries_in(raw, "usa").is_empty());
}
