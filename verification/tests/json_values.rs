use mini_rpc::json::{Json, Number};
use mini_rpc::text::decimal_text;

fn obj(entries: Vec<(&str, Json)>) -> Json {
    Json::Object(entries.into_iter().map(|(k, v)| (k.to_string(), v)).collect())
}

#[test]
fn get_finds_last_binding() {
    let v = obj(vec![("a", Json::from_i64(1)), ("b", Json::Null), ("a", Json::from_i64(2))]);
    assert_eq!(v.get("a"), Some(&Json::from_i64(2)));
    assert_eq!(v.get("b"), Some(&Json::Null));
    assert_eq!(v.get("c"), None);
    assert_eq!(Json::from_i64(3).get("a"), None);
}

#[test]
fn item_indexes_arrays_only() {
    let v = Json::Array(vec![Json::Bool(true), Json::Bool(false)]);
    assert_eq!(v.item(1), Some(&Json::Bool(false)));
    assert_eq!(v.item(2), None);
    assert_eq!(Json::Null.item(0), None);
}

#[test]
fn integer_views() {
    assert_eq!(Json::from_u64(u64::MAX).as_u64(), Some(u64::MAX));
    assert_eq!(Json::from_u64(u64::MAX).as_i64(), None);
    assert_eq!(Json::from_i64(-5).as_i64(), Some(-5));
    assert_eq!(Json::from_i64(-5).as_u64(), None);
    assert_eq!(Json::from_i64(5), Json::Number(Number::PosInt(5)));
    assert_eq!(Json::Number(Number::Float(1.5f64.to_bits())).as_i64(), None);
    assert_eq!(Json::Str("1".to_string()).as_u64(), None);
}

#[test]
fn as_str_of_strings_only() {
    assert_eq!(Json::text("add").as_str(), Some("add"));
    assert_eq!(Json::Null.as_str(), None);
}

#[test]
fn deep_copy_is_equal() {
    let v = obj(vec![
        ("x", Json::Array(vec![Json::from_i64(-1), Json::text("é"), obj(vec![])])),
        ("y", Json::Number(Number::Float(2.5f64.to_bits()))),
    ]);
    assert_eq!(v.deep_copy(), v);
}

#[test]
fn decimal_text_of_numbers() {
    assert_eq!(decimal_text(0), "0");
    assert_eq!(decimal_text(10), "10");
    assert_eq!(decimal_text(1234567890), "1234567890");
}
