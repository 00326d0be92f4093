use sms_activate::keymap::KeyMap;
use sms_activate::api::encode;
use sms_activate::error::ApiError;
use sms_activate::providers::fivesim::error_from_text;
use sms_activate::protocol::parse_countries;
use sms_activate::providers::smsbower::{parse_prices_v2, parse_prices_v3};
use sms_activate::sorting::sort_by_key;
use sms_activate::types::CountryRef;

#[test]
fn country_id_survives_a_text_round_trip() {
    for id in [0u32, 7, 187, 4_294_967_295] {
        let key = CountryRef::Id(id);
        let back = CountryRef::parse(&key.to_string());
        assert_eq!(back, key);
    }
    assert_eq!(CountryRef::parse(" 12 "), CountryRef::Id(12));
    assert_eq!(CountryRef::parse("england"), CountryRef::Slug("england".to_owned()));
}

#[test]
fn sorted_rows_keep_every_row_in_key_order() {
    let rows = vec![(30u128, "c"), (10, "a"), (20, "b"), (10, "a2")];
    let sorted = sort_by_key(rows);
    let keys: Vec<u128> = sorted.iter().map(|r| r.0).collect();
    assert_eq!(keys, vec![10, 10, 20, 30]);
    let mut names: Vec<&str> = sorted.iter().map(|r| r.1).collect();
    names.sort();
    assert_eq!(names, vec!["a", "a2", "b", "c"]);
}

#[test]
fn countries_come_out_in_ascending_id_order() {
    let body = r#"{"16":{"id":16,"eng":"United Kingdom","rus":"Великобритания"},
                   "0":{"id":0,"eng":"Russia"},
                   "6":{"id":6,"eng":"Indonesia"}}"#;
    let countries = parse_countries(body).unwrap();
    let keys: Vec<CountryRef> = countries.iter().map(|c| c.key.clone()).collect();
    assert_eq!(keys, vec![CountryRef::Id(0), CountryRef::Id(6), CountryRef::Id(16)]);
    assert_eq!(countries[2].name_en, "United Kingdom");
}

#[test]
fn bower_tables_refuse_non_numeric_country_keys() {
    let bad = r#"{"russia":{"tg":{"10.5":3}}}"#;
    assert!(parse_prices_v2(bad).is_err());
    let envelope = r#"{"status":"error","message":"BAD_KEY"}"#;
    assert!(parse_prices_v2(envelope).is_err());
    assert!(parse_prices_v3(envelope).is_err());
    let good = r#"{"6":{"tg":{"10.5":3}}}"#;
    let table = parse_prices_v2(good).unwrap();
    assert_eq!(table.len(), 1);
}

fn percent_decode(t: &str) -> Vec<u8> {
    let b = t.as_bytes();
    let mut out = Vec::new();
    let mut i = 0;
    while i < b.len() {
        if b[i] == b'%' {
            let hex = std::str::from_utf8(&b[i + 1..i + 3]).unwrap();
            out.push(u8::from_str_radix(hex, 16).unwrap());
            i += 3;
        } else {
            out.push(b[i]);
            i += 1;
        }
    }
    out
}

#[test]
fn encoding_round_trips_and_fixes_only_unreserved_text() {
    for s in ["a b/ü", "k&y=1", "tg", "ü€𝄞", "", "-_.~AZaz09"] {
        assert_eq!(percent_decode(&encode(s)), s.as_bytes());
    }
    assert_eq!(encode("-_.~AZaz09"), "-_.~AZaz09");
    assert_ne!(encode("a b"), "a b");
    assert_ne!(encode("ü"), "ü");
}

#[test]
fn fivesim_text_errors_ignore_case_and_padding() {
    for t in [" Bad Country ", "NO FREE PHONES", " order has sms", "Select Operator", "hello"] {
        let normalised = t.trim().to_ascii_lowercase();
        assert_eq!(format!("{:?}", error_from_text(t)), format!("{:?}", error_from_text(&normalised)));
    }
    assert!(matches!(error_from_text(" Bad Country "), Some(ApiError::BadCountry)));
    assert!(matches!(error_from_text(" no free phones "), Some(ApiError::NoNumbers)));
    assert!(matches!(error_from_text(" Order Has SMS "), Some(ApiError::Other(m)) if m == "order has sms"));
}

#[test]
fn keyed_tables_iterate_in_key_order() {
    let mut m: KeyMap<CountryRef, u32> = KeyMap::new();
    m.insert(CountryRef::Slug("england".to_owned()), 3);
    m.insert(CountryRef::Id(10), 1);
    m.insert(CountryRef::Id(2), 2);
    m.insert(CountryRef::Slug("austria".to_owned()), 4);
    m.insert(CountryRef::Id(10), 5);
    let keys: Vec<CountryRef> = m.entries().iter().map(|e| e.0.clone()).collect();
    assert_eq!(
        keys,
        vec![CountryRef::Id(2), CountryRef::Id(10), CountryRef::Slug("austria".to_owned()), CountryRef::Slug("england".to_owned())]
    );
    assert_eq!(m.get(&CountryRef::Id(10)), Some(&5));
    let mut s: KeyMap<String, u32> = KeyMap::new();
    for k in ["b", "a", "ab", "é", "Z"] {
        s.insert(k.to_owned(), 0);
    }
    let keys: Vec<&str> = s.entries().iter().map(|e| e.0.as_str()).collect();
    assert_eq!(keys, vec!["Z", "a", "ab", "b", "é"]);
}
