use site_monitor::json::{as_array, as_number, as_str, at_item, at_key, f64_bits_are_zero, JsonMember, JsonValue};

fn member(key: &str, value: JsonValue) -> JsonMember {
    JsonMember { key: key.to_string(), value }
}

#[test]
fn indexing_follows_serde_json() {
    let doc = JsonValue::Object(vec![
        member("a", JsonValue::Array(vec![JsonValue::Number(2.5f64.to_bits()), JsonValue::Str("x".to_string())])),
        member("b", JsonValue::Str("first".to_string())),
        member("b", JsonValue::Str("second".to_string())),
    ]);
    assert_eq!(as_str(at_key(Some(&doc), "b")).unwrap(), "first");
    assert!(at_key(Some(&doc), "missing").is_none());
    assert!(at_key(at_key(Some(&doc), "b"), "c").is_none());
    let a = at_key(Some(&doc), "a");
    assert_eq!(as_array(a).unwrap().len(), 2);
    assert_eq!(as_number(at_item(a, 0)), Some(2.5f64.to_bits()));
    assert_eq!(as_str(at_item(a, 1)).unwrap(), "x");
    assert!(at_item(a, 2).is_none());
    assert!(as_str(at_item(a, 0)).is_none());
    assert!(at_item(None, 0).is_none());
}

#[test]
fn zero_test_follows_f64_equality() {
    for x in [0.0f64, -0.0, 1.0, -1.0, f64::MIN_POSITIVE, f64::NAN, f64::INFINITY, 5e-324].iter() {
        assert_eq!(f64_bits_are_zero(x.to_bits()), *x == 0.0, "value {}", x);
    }
}
