//! Semantic comparator and envelope-judge tests: the normalization rules,
//! the unordered-map / ordered-array walk, and the exact-vs-shape split of
//! the envelope judges.

use admin_api::compare::{judge, Exemptions, Kind, Verdict};
use admin_api::json::JsonValue;
use admin_api::json_serde::from_serde;
use admin_api::semantic::semantic_diffs;
use admin_api::ProbeResult;

fn doc(text: &str) -> JsonValue {
    let v: serde_json::Value = serde_json::from_str(text).unwrap();
    from_serde(&v)
}

fn up(status: u16, body: &str) -> ProbeResult {
    ProbeResult {
        reachable: true,
        status: Some(status),
        body: Some(body.as_bytes().to_vec()),
        cors: None,
    }
}

#[test]
fn map_order_is_irrelevant() {
    let a = doc(r#"{"x": 1, "y": {"b": 2, "a": 3}}"#);
    let b = doc(r#"{"y": {"a": 3, "b": 2}, "x": 1}"#);
    let mut diffs = Vec::new();
    semantic_diffs(&a, &b, "$", &mut diffs);
    assert!(diffs.is_empty());
}

#[test]
fn identity_and_timestamp_keys_are_normalized() {
    let a = doc(r#"{"id": 1, "uid": "abc", "created_by": "x", "created_at": "t1", "name": "n"}"#);
    let b = doc(r#"{"id": 999, "uid": "zzz", "created_by": "q", "created_at": "t2", "name": "n"}"#);
    let mut diffs = Vec::new();
    semantic_diffs(&a, &b, "$", &mut diffs);
    assert!(diffs.is_empty());
}

#[test]
fn uuid_and_timestamp_values_are_normalized() {
    let a = doc(r#"{"token": "123e4567-e89b-12d3-a456-426614174000", "seen": "2024-01-01T00:00:00Z"}"#);
    let b = doc(r#"{"token": "00000000-0000-0000-0000-000000000000", "seen": "2029-12-31T23:59:59Z"}"#);
    let mut diffs = Vec::new();
    semantic_diffs(&a, &b, "$", &mut diffs);
    assert!(diffs.is_empty());
}

#[test]
fn real_value_divergence_is_detected() {
    let a = doc(r#"{"name": "alpha", "items": [1, 2, 3]}"#);
    let b = doc(r#"{"name": "beta", "items": [1, 2, 3]}"#);
    let mut diffs = Vec::new();
    semantic_diffs(&a, &b, "$", &mut diffs);
    assert_eq!(diffs, vec!["$.name: value diverged".to_string()]);
}

#[test]
fn array_order_is_enforced() {
    let a = doc("[1, 2, 3]");
    let b = doc("[3, 2, 1]");
    let mut diffs = Vec::new();
    semantic_diffs(&a, &b, "$", &mut diffs);
    assert_eq!(
        diffs,
        vec![
            "$[0]: value diverged".to_string(),
            "$[2]: value diverged".to_string()
        ]
    );
}

#[test]
fn missing_key_is_detected() {
    let a = doc(r#"{"x": 1, "y": 2}"#);
    let b = doc(r#"{"x": 1}"#);
    let mut diffs = Vec::new();
    semantic_diffs(&a, &b, "$", &mut diffs);
    assert_eq!(diffs, vec!["$.y: missing on rust side".to_string()]);
}

#[test]
fn envelope_exact_pins_bytes() {
    let body =
        r#"{"code":401,"reason":"UNAUTHORIZED","message":"missing bearer token","metadata":{}}"#;
    let (ok, _) = judge(
        Kind::EnvelopeExact,
        "probe",
        &up(401, body),
        &up(401, body),
        &Default::default(),
    );
    assert_eq!(ok, Verdict::Pass);
    let (bad, detail) = judge(
        Kind::EnvelopeExact,
        "probe",
        &up(401, body),
        &up(
            401,
            r#"{"code":401,"reason":"UNAUTHORIZED","message":"drifted","metadata":{}}"#,
        ),
        &Default::default(),
    );
    assert_eq!(bad, Verdict::Fail);
    assert!(detail.unwrap().contains("bytes diverged"));
}

#[test]
fn envelope_shape_ignores_message_text() {
    let (ok, _) = judge(
        Kind::EnvelopeShape,
        "probe",
        &up(
            400,
            r#"{"code":400,"reason":"CODEC","message":"go parser prose","metadata":{}}"#,
        ),
        &up(
            400,
            r#"{"code":400,"reason":"CODEC","message":"rust parser prose","metadata":{}}"#,
        ),
        &Default::default(),
    );
    assert_eq!(ok, Verdict::Pass);
    let (bad, _) = judge(
        Kind::EnvelopeShape,
        "probe",
        &up(
            400,
            r#"{"code":400,"reason":"CODEC","message":"x","metadata":{}}"#,
        ),
        &up(
            400,
            r#"{"code":400,"reason":"ABUSE","message":"x","metadata":{}}"#,
        ),
        &Default::default(),
    );
    assert_eq!(bad, Verdict::Fail);
}

#[test]
fn exemption_class_short_circuits() {
    let mut exemptions = Exemptions::new();
    exemptions.insert("head-on-get".to_string(), "recorded divergence".to_string());
    let (verdict, detail) = judge(
        Kind::Routing,
        "head-on-get",
        &up(405, ""),
        &up(401, ""),
        &exemptions,
    );
    assert_eq!(verdict, Verdict::Exempt);
    assert_eq!(detail.as_deref(), Some("recorded divergence"));
}

#[test]
fn unreachable_short_circuits() {
    let (verdict, detail) = judge(
        Kind::EnvelopeExact,
        "probe",
        &ProbeResult::down(),
        &up(401, "x"),
        &Default::default(),
    );
    assert_eq!(verdict, Verdict::Unreachable);
    assert!(detail.is_none());
}

#[test]
fn envelope_code_must_equal_status() {
    let body = r#"{"code":401,"reason":"U","message":"m","metadata":{}}"#;
    let (verdict, detail) = judge(
        Kind::EnvelopeShape,
        "probe",
        &up(400, body),
        &up(400, body),
        &Default::default(),
    );
    assert_eq!(verdict, Verdict::Fail);
    assert_eq!(
        detail.unwrap(),
        "envelope code differs from the HTTP status: code=401 status=Some(400)"
    );
}

#[test]
fn a_document_matches_itself_and_diffs_count_alike_both_ways() {
    let a = doc(r#"{"x": [1, {"k": "v", "n": null}], "y": {"z": true}, "w": 2.5}"#);
    let mut own = vec!["earlier".to_string()];
    semantic_diffs(&a, &a, "$", &mut own);
    assert_eq!(own, vec!["earlier".to_string()]);
    let b = doc(r#"{"y": {"z": false, "q": 1}, "x": [1, {"k": "u"}, 3], "extra": 0}"#);
    let mut ab = Vec::new();
    let mut ba = Vec::new();
    semantic_diffs(&a, &b, "$", &mut ab);
    semantic_diffs(&b, &a, "$", &mut ba);
    assert!(!ab.is_empty());
    assert_eq!(ab.len(), ba.len());
}
