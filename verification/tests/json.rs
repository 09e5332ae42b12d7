//! JSON objects under construction.

use runtime_trail::json::Members;
use serde_json::Value;

#[test]
fn an_object_has_the_members_it_was_given() {
    assert_eq!(Members::new().object(), Value::Object(serde_json::Map::new()));
    let object = Members::new()
        .with("a", Value::from(1))
        .with("b", Value::from("two"))
        .object();
    assert_eq!(object.get("a"), Some(&Value::from(1)));
    assert_eq!(object.get("b"), Some(&Value::from("two")));
    assert_eq!(object.to_string(), "{\"a\":1,\"b\":\"two\"}");
}

#[test]
fn a_member_given_twice_holds_the_later_value() {
    let object = Members::new()
        .with("a", Value::from(1))
        .with("b", Value::from(2))
        .with("a", Value::from(3))
        .object();
    assert_eq!(object.to_string(), "{\"a\":3,\"b\":2}");
}
