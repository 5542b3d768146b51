use mcprotocol_rs::error::Error;
use mcprotocol_rs::json::Json;
use mcprotocol_rs::protocol::{Method, Request, RequestId, UsedIds};

#[test]
fn null_fraction_array_and_object_are_no_ids() {
    for text in ["null", "3.14", "[]", "{}", "true", "1e2", "-0", "9223372036854775808"] {
        assert_eq!(
            RequestId::decode(text),
            Err(Error::Protocol("id must be a string or an integer".to_string())),
            "{}",
            text
        );
        assert_eq!(RequestId::from_json(&Json::parse(text).unwrap()), None);
    }
}

#[test]
fn integers_of_64_bits_are_ids() {
    assert_eq!(RequestId::decode("0"), Ok(RequestId::Number(0)));
    assert_eq!(RequestId::decode("-1"), Ok(RequestId::Number(-1)));
    assert_eq!(RequestId::decode("9223372036854775807"), Ok(RequestId::Number(i64::MAX)));
    assert_eq!(RequestId::decode("-9223372036854775808"), Ok(RequestId::Number(i64::MIN)));
    assert_eq!(RequestId::Number(i64::MIN).encode().unwrap(), "-9223372036854775808");
    assert_eq!(RequestId::decode(r#""1""#), Ok(RequestId::String("1".to_string())));
}

#[test]
fn text_that_is_no_json_is_a_serialization_error() {
    assert!(matches!(RequestId::decode("1 2"), Err(Error::Serialization(_))));
    assert!(matches!(RequestId::decode(""), Err(Error::Serialization(_))));
}

#[test]
fn ids_round_trip_through_json() {
    for id in [
        RequestId::Number(0),
        RequestId::Number(-42),
        RequestId::Number(i64::MAX),
        RequestId::String(String::new()),
        RequestId::String("a\n\"b\"".to_string()),
    ] {
        assert_eq!(RequestId::from_json(&id.to_json()), Some(id.clone()));
        assert_eq!(RequestId::decode(&id.encode().unwrap()), Ok(id));
    }
}

#[test]
fn integer_one_and_string_one_collide() {
    let mut used = UsedIds::new();
    assert!(used.insert(&RequestId::Number(1)));
    assert!(!used.insert(&RequestId::String("1".to_string())));
    assert_eq!(used.len(), 1);
    assert!(used.contains("1"));
    assert!(!RequestId::Number(1).same_as(&RequestId::String("1".to_string())));
    assert_eq!(RequestId::Number(-7).canonical(), "-7");
    assert_eq!(RequestId::String("x".to_string()).canonical(), "x");
}

#[test]
fn an_id_is_fresh_once_whatever_comes_between() {
    let mut used = UsedIds::new();
    let first = Request::new(Method::Ping, None, RequestId::Number(1));
    let other = Request::new(Method::Ping, None, RequestId::String("b".to_string()));
    assert!(first.validate_id_uniqueness(&mut used));
    assert!(other.validate_id_uniqueness(&mut used));
    assert!(!first.validate_id_uniqueness(&mut used));
    assert!(!other.validate_id_uniqueness(&mut used));
    assert_eq!(used.len(), 2);
}

#[test]
fn every_method_is_found_under_its_name() {
    let all = Method::all();
    assert_eq!(all.len(), 24);
    for m in all {
        assert_eq!(Method::from_name(m.name()), Some(m));
        assert_eq!(m.to_string(), m.name());
    }
    assert_eq!(Method::from_name("ping"), Some(Method::Ping));
    assert_eq!(Method::from_name("notifications/cancelled"), Some(Method::Cancel));
    assert_eq!(Method::from_name("$/progress"), Some(Method::Progress));
    assert_eq!(Method::from_name("resources/unsubscribe"), Some(Method::UnsubscribeResource));
    assert_eq!(Method::from_name("$/ping"), None);
    assert_eq!(Method::from_name("Ping"), None);
    assert_eq!(Method::from_name(""), None);
}
