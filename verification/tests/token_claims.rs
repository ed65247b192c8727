//! The typed view over a token's claims bag.

use admin_api::json::JsonValue;
use admin_api::json_serde::from_serde;
use admin_api::token::UserTokenPayload;

fn claims(text: &str) -> Vec<(String, JsonValue)> {
    let v: serde_json::Value = serde_json::from_str(text).unwrap();
    match from_serde(&v) {
        JsonValue::Object(entries) => entries,
        _ => panic!("claims must be an object"),
    }
}

fn base_claims() -> Vec<(String, JsonValue)> {
    claims(r#"{"sub": "u", "uid": "7", "tid": "3", "jti": "j1"}"#)
}

fn set(c: &mut Vec<(String, JsonValue)>, key: &str, value: JsonValue) {
    c.retain(|(k, _)| k != key);
    c.push((key.to_string(), value));
}

fn remove(c: &mut Vec<(String, JsonValue)>, key: &str) {
    c.retain(|(k, _)| k != key);
}

#[test]
fn parses_required_claims() {
    let p = UserTokenPayload::from_claims(&base_claims()).unwrap();
    assert_eq!(p.username, "u");
    assert_eq!(p.user_id, 7);
    assert_eq!(p.tenant_id, 3);
}

#[test]
fn numeric_uid_string_uid_both_parse() {
    let mut c = base_claims();
    set(&mut c, "uid", JsonValue::Number(admin_api::json::JsonNumber::PosInt(9)));
    assert_eq!(UserTokenPayload::from_claims(&c).unwrap().user_id, 9);
    set(&mut c, "uid", JsonValue::String("11".to_string()));
    assert_eq!(UserTokenPayload::from_claims(&c).unwrap().user_id, 11);
}

#[test]
fn missing_sub_or_uid_rejects() {
    let mut c = base_claims();
    remove(&mut c, "sub");
    assert!(UserTokenPayload::from_claims(&c).is_none());
    let mut c = base_claims();
    remove(&mut c, "uid");
    assert!(UserTokenPayload::from_claims(&c).is_none());
}

#[test]
fn missing_tid_defaults_to_platform() {
    let mut c = base_claims();
    remove(&mut c, "tid");
    assert_eq!(UserTokenPayload::from_claims(&c).unwrap().tenant_id, 0);
}
