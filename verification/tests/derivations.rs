//! Codes, texts, risk scoring, scoping, uploads and media URLs, and the
//! replay corpus, judges and report.

use admin_api::compare::{judge, judge_cors, judge_routing, kind_name, unmatched, verdict_name, Exemptions, Kind, Verdict};
use admin_api::corpus::{concretize, curated_case, kind_from_wire, sweep_cases, RouteSpec};
use admin_api::files::{
    bucket_for_mime, download_mime, local_object_dir, media_request_check, mime_allowed,
    mirror_path, new_file_guid, object_key, save_file_name, plan_upload, signed_media_url, signed_media_url_at, sniff_mime, stored_file_path,
    UploadError,
};
use admin_api::menu_codes::{module_to_proto, module_to_str, switch_to_str};
use admin_api::org_codes::{org_type_to_proto, org_type_to_str};
use admin_api::permission::{api_code, button_action, menu_code, singularize};
use admin_api::position_codes::{position_type_to_proto, position_type_to_str};
use admin_api::probe::Side;
use admin_api::report::{
    captures_cors, cors_header_names, entry_of, parse_args, run_exit_code, summary_lines,
    verdict_histogram, Entry,
};
use admin_api::risk::{is_private_ip, risk_factors, risk_level, risk_score};
use admin_api::scope::{Viewer, ViewerKind};
use admin_api::semantic::{is_identity_key, is_timestamp_key, looks_like_timestamp, looks_like_uuid};
use admin_api::tenant_codes::{status_to_proto, status_to_str, type_to_proto, type_to_str};
use admin_api::ProbeResult;
use hmac::Mac;

#[test]
fn code_tables_round_trip() {
    for v in 0..=7 {
        assert_eq!(org_type_to_proto(&org_type_to_str(v)), v);
    }
    assert_eq!(org_type_to_str(99), "DEPARTMENT");
    for v in 0..=3 {
        assert_eq!(status_to_proto(&status_to_str(v)), v);
    }
    for v in 0..=4 {
        assert_eq!(type_to_proto(&type_to_str(v)), v);
    }
    for v in 1..=10 {
        assert_eq!(module_to_proto(&module_to_str(v)), v);
    }
    assert_eq!(module_to_str(0), "SYSTEM");
    for v in 0..=5 {
        assert_eq!(position_type_to_proto(&position_type_to_str(v)), v);
    }
    assert_eq!(position_type_to_str(8), "REGULAR");
    assert_eq!(switch_to_str(0), "OFF");
    assert_eq!(switch_to_str(3), "ON");
}

#[test]
fn permission_codes() {
    assert_eq!(singularize("users"), "user");
    assert_eq!(singularize("categories"), "category");
    assert_eq!(singularize("s"), "s");
    assert_eq!(button_action("新增用户"), "create");
    assert_eq!(button_action("Edit"), "edit");
    assert_eq!(button_action("Remove"), "delete");
    assert_eq!(button_action("Export CSV"), "export");
    assert_eq!(button_action("Frobnicate"), "act");
    assert_eq!(menu_code("/system/users", "Users", "MENU"), "user:view");
    assert_eq!(menu_code("/system/users/:id/roles", "Roles", "MENU"), "user:role:view");
    assert_eq!(menu_code("/system", "System", "CATALOG"), "dir");
    assert_eq!(menu_code("/x/docs", "Docs", "LINK"), "doc:jump");
    assert_eq!(api_code("GET", "/admin/v1/users"), "user:view");
    assert_eq!(api_code("DELETE", "/admin/v1/users/{id}"), "user:delete");
    assert_eq!(api_code("PUT", "/admin/v1/{tenant}/categories"), "category:edit");
    assert_eq!(api_code("POST", "/admin/v1"), "create");
}

#[test]
fn login_risk() {
    assert!(is_private_ip("10.1.2.3"));
    assert!(is_private_ip("172.16.0.1"));
    assert!(!is_private_ip("172.32.0.1"));
    assert!(is_private_ip("::1"));
    assert!(!is_private_ip("8.8.8.8"));
    assert_eq!(risk_score(true, 0, "", "", false), 85);
    assert_eq!(risk_score(false, 7, "bob", "10.0.0.1", true), 0);
    assert_eq!(risk_score(true, 0, "bob", "8.8.8.8", false), 70);
    assert_eq!(risk_level(30), "LOW");
    assert_eq!(risk_level(31), "MEDIUM");
    assert_eq!(risk_level(71), "HIGH");
    assert_eq!(
        risk_factors(true, 0, "bob", "8.8.8.8", false, "failed", "Incorrect password", "", 70),
        vec![
            "EXTERNAL_IP",
            "FAILED_LOGIN",
            "MEDIUM_RISK_SCORE",
            "MFA_FAILED",
            "NO_REQUEST_ID",
            "NO_SESSION",
            "PASSWORD_FAILURE",
            "UNKNOWN_DEVICE",
            "UNKNOWN_USER",
        ]
    );
}

#[test]
fn risk_factors_come_sorted_and_once() {
    let inputs = [
        (true, 0, "", "", false, "FAILED unverify", "mfa pwd", "", 100),
        (false, 5, "ann", "192.168.1.9", true, "", "", "req-1", 0),
        (true, 0, "bob", "fd00::1", false, "unverified", "MFA incorrect", "r", 25),
    ];
    for (failed, uid, name, ip, dev, mfa, reason, req, score) in inputs {
        let factors = risk_factors(failed, uid, name, ip, dev, mfa, reason, req, score);
        for pair in factors.windows(2) {
            assert!(pair[0].as_bytes() < pair[1].as_bytes(), "{:?}", factors);
        }
    }
    assert_eq!(
        risk_factors(false, 5, "ann", "192.168.1.9", true, "", "", "req-1", 0),
        vec!["INTERNAL_IP", "NO_SESSION"]
    );
}

#[test]
fn viewer_scoping() {
    assert_eq!(Viewer::noop().kind, ViewerKind::Noop);
    assert_eq!(Viewer::system().tenant_scope(), None);
    let tenant = Viewer { kind: ViewerKind::User, user_id: 3, tenant_id: 9 };
    assert_eq!(tenant.tenant_scope(), Some(9));
    assert_eq!(tenant.stamp_tenant(Some(4)), Some(9));
    let platform = Viewer { kind: ViewerKind::User, user_id: 3, tenant_id: 0 };
    assert_eq!(platform.tenant_scope(), None);
    assert_eq!(platform.stamp_tenant(Some(4)), Some(4));
}

#[test]
fn comparator_key_and_value_classes() {
    assert!(is_identity_key("id"));
    assert!(is_identity_key("created_by"));
    assert!(!is_identity_key("name"));
    assert!(is_timestamp_key("created_at"));
    assert!(looks_like_uuid("123e4567-e89b-12d3-a456-426614174000"));
    assert!(!looks_like_uuid("123e4567e89b12d3a456426614174000"));
    assert!(looks_like_timestamp("2024-01-01T00:00:00Z"));
    assert!(!looks_like_timestamp("yesterday"));
}

#[test]
fn upload_admission() {
    assert!(mime_allowed("image/png"));
    assert!(!mime_allowed("application/x-msdownload"));
    assert_eq!(bucket_for_mime("image/png"), "images");
    assert_eq!(bucket_for_mime("application/pdf"), "docs");
    assert_eq!(sniff_mime(&[0x89, b'P', b'N', b'G', 0x0d, 0x0a, 0x1a, 0x0a]), Some("image/png"));
    assert_eq!(sniff_mime(b"plain"), None);
    let png = [0x89u8, b'P', b'N', b'G', 0x0d, 0x0a, 0x1a, 0x0a, 0, 0];
    let plan = plan_upload(true, Some("avatars"), Some(&png[..]), Some("image/png"), Some("me.png")).ok().unwrap();
    assert_eq!(plan.mime, "image/png");
    assert_eq!(plan.directory, "avatars");
    assert_eq!(plan.extension, "png");
    assert_eq!(plan.bucket, "images");
    assert!(matches!(plan_upload(false, None, Some(&png[..]), Some("image/png"), Some("a.png")), Err(UploadError::StorageObjectRequired)));
    assert!(matches!(plan_upload(true, None, None, Some("image/png"), Some("a.png")), Err(UploadError::ContentRequired)));
    let refused = plan_upload(true, None, Some(&b"MZ.."[..]), Some("application/x-msdownload"), Some("a.exe"));
    assert_eq!(refused.err().unwrap().message(), "mime type [application/x-msdownload] is not allowed");
    assert_eq!(plan_upload(true, Some("../up"), Some(&png[..]), Some("image/png"), Some("a.png")).ok().unwrap().directory, "uploads");
}

#[test]
fn stored_object_paths() {
    assert_eq!(object_key(Some("avatars"), Some("x.png")), "avatars/x.png");
    assert_eq!(object_key(None, Some("x.png")), "x.png");
    assert_eq!(local_object_dir("images", "avatars"), "./data/files/images/avatars");
    assert_eq!(mirror_path("avatars", "x.png"), "./data/files/avatars/x.png");
    assert_eq!(stored_file_path(None, Some("a"), Some("b.png")), "./data/files/files/a/b.png");
    assert_eq!(stored_file_path(Some("docs"), None, None), "./data/files/docs//");
    assert_eq!(download_mime(Some("jpeg")), "image/jpeg");
    assert_eq!(download_mime(None), "application/octet-stream");
}

fn hmac_hex(key: &[u8], data: &str) -> String {
    let mut mac = <hmac::Hmac<sha2::Sha256> as Mac>::new_from_slice(key).unwrap();
    mac.update(data.as_bytes());
    hex::encode(mac.finalize().into_bytes())
}

#[test]
fn signed_media_urls_are_admitted_within_a_year() {
    let key = [7u8; 32];
    let url = signed_media_url_at(Some(key), "/images/a/b.png", 1_000).unwrap();
    let expires = 1_000 + 31_536_000;
    let sig = hmac_hex(&key, &format!("/images/a/b.png|{expires}"));
    assert_eq!(url, format!("/admin/v1/file/image?path=/images/a/b.png&expires={expires}&sig={sig}"));
    assert_eq!(
        media_request_check("/images/a/b.png", &expires.to_string(), &sig, 2_000, Some(key)),
        Ok(("images".to_string(), "a/b.png".to_string()))
    );
    assert_eq!(
        media_request_check("/images/a/b.png", &expires.to_string(), &sig, expires + 1, Some(key)),
        Err((403, "url expired"))
    );
    assert_eq!(
        media_request_check("/images/a/b.png", &expires.to_string(), "bad", 2_000, Some(key)),
        Err((403, "invalid signature"))
    );
    assert_eq!(media_request_check("", "1", "x", 0, Some(key)), Err((400, "missing parameters")));
    assert_eq!(signed_media_url_at(None, "/images/a.png", 0), Some(String::new()));
    assert_eq!(signed_media_url_at(None, "/images/a.png", i64::MAX), Some(String::new()));
    assert!(signed_media_url_at(Some(key), "/images/a.png", i64::MAX - 31_536_000).is_some());
    assert_eq!(signed_media_url_at(Some(key), "/images/a.png", i64::MAX - 31_535_999), None);
}

#[test]
fn route_templates_concretize() {
    assert_eq!(concretize("/v1/users/{id}/roles/{rid}"), "/v1/users/1/roles/1");
    assert_eq!(concretize("/v1/plain"), "/v1/plain");
    assert_eq!(concretize("/a/{b"), "/a/{b");
    assert_eq!(concretize("{x}{y}"), "11");
}

#[test]
fn sweep_cases_per_route() {
    let routes = vec![
        RouteSpec { service_fq: "svc.Users".into(), method_name: "List".into(), method: "get".into(), path: "/v1/users/{id}".into(), shadowed: false },
        RouteSpec { service_fq: "svc.Auth".into(), method_name: "Login".into(), method: "POST".into(), path: "/v1/login".into(), shadowed: false },
        RouteSpec { service_fq: "svc.Users".into(), method_name: "Me".into(), method: "PUT".into(), path: "/v1/users/me".into(), shadowed: true },
    ];
    let free = vec![("svc.Auth".to_string(), "Login".to_string())];
    let cases = sweep_cases(&routes, &free);
    let summary: Vec<(String, String, Kind, String, String)> = cases
        .iter()
        .map(|c| (c.id.clone(), c.class.clone(), c.kind, c.method.clone(), c.path.clone()))
        .collect();
    assert_eq!(
        summary,
        vec![
            ("sweep-0".into(), "sweep-gated".into(), Kind::EnvelopeExact, "GET".into(), "/v1/users/1".into()),
            ("sweep-head-0".into(), "head-on-get".into(), Kind::Routing, "HEAD".into(), "/v1/users/1".into()),
            ("sweep-1".into(), "sweep-public".into(), Kind::Pending, "POST".into(), "/v1/login".into()),
            ("sweep-2".into(), "router-shadow".into(), Kind::EnvelopeShape, "PUT".into(), "/v1/users/me".into()),
        ]
    );
    assert!(cases.iter().all(|c| c.headers.is_empty() && c.body.is_none()));
}

#[test]
fn curated_cases() {
    assert_eq!(kind_from_wire("EnvelopeShape"), Some(Kind::EnvelopeShape));
    assert_eq!(kind_from_wire("envelopeshape"), None);
    let c = curated_case("c1".into(), "cors".into(), Kind::Cors, "options", "/v1/x".into(), vec![], None);
    assert_eq!(c.method, "OPTIONS");
}

fn up(status: u16, body: &str) -> ProbeResult {
    ProbeResult { reachable: true, status: Some(status), body: Some(body.as_bytes().to_vec()), cors: None }
}

#[test]
fn routing_and_cors_judges() {
    assert_eq!(unmatched(Some(405)), Some(true));
    assert_eq!(unmatched(Some(401)), Some(false));
    assert_eq!(unmatched(None), None);
    assert_eq!(judge_routing(&up(404, ""), &up(405, "")), (Verdict::Pass, None));
    assert_eq!(
        judge_routing(&up(404, ""), &up(200, "")),
        (
            Verdict::Fail,
            Some("route classification diverged: go=unmatched (status Some(404)) vs rust=matched (status Some(200))".to_string())
        )
    );
    let with = |h: Vec<(&str, Option<&str>)>| ProbeResult {
        reachable: true,
        status: Some(204),
        body: None,
        cors: Some(h.into_iter().map(|(k, v)| (k.to_string(), v.map(|s| s.to_string()))).collect()),
    };
    let a = with(vec![("Access-Control-Allow-Origin", Some("*")), ("access-control-allow-credentials", None)]);
    let b = with(vec![("access-control-allow-credentials", None), ("access-control-allow-origin", Some("*"))]);
    assert_eq!(judge_cors(&a, &b).0, Verdict::Pass);
    let c = with(vec![("access-control-allow-origin", Some("https://x"))]);
    assert_eq!(judge_cors(&a, &c).0, Verdict::Fail);
    let detail = judge_cors(&a, &c).1.unwrap();
    assert!(detail.starts_with("cors response headers diverged: go={"));
    assert!(detail.ends_with(r#" rust={"access-control-allow-origin": Some("https://x")}"#));
    assert_eq!(judge_cors(&up(204, ""), &a), (Verdict::Fail, Some("cors probe lost its header capture".to_string())));
    assert_eq!(judge(Kind::Pending, "p", &up(200, ""), &up(500, ""), &Exemptions::new()), (Verdict::Pending, None));
    assert_eq!(kind_name(Kind::EnvelopeExact), "EnvelopeExact");
    assert_eq!(verdict_name(Verdict::Pass), "Ok");
}

fn entry(id: &str, verdict: &str, detail: Option<&str>) -> Entry {
    let side = Side { reachable: true, status: Some(200), len: Some(0) };
    Entry {
        id: id.into(),
        class: "k".into(),
        kind: "Routing".into(),
        verdict: verdict.into(),
        go: Side { ..side },
        rust: side,
        detail: detail.map(|d| d.to_string()),
    }
}

#[test]
fn report_summary() {
    let entries = vec![
        entry("a", "Pending", None),
        entry("b", "Fail", Some("bytes diverged")),
        entry("c", "Ok", None),
        entry("d", "Fail", None),
        entry("e", "Pending", None),
    ];
    assert_eq!(
        verdict_histogram(&entries),
        vec![("Fail".to_string(), 2), ("Ok".to_string(), 1), ("Pending".to_string(), 2)]
    );
    assert_eq!(
        summary_lines(&entries),
        vec![
            "=== differential summary ===",
            "Fail: 2",
            "Ok: 1",
            "Pending: 2",
            "--- FAIL details (2) ---",
            "b [k] bytes diverged",
            "d [k] ",
            "--- pending (recorded, unasserted; Rust side is stubs): 2 ---",
        ]
    );
    assert_eq!(summary_lines(&vec![]), vec!["=== differential summary ==="]);
}

#[test]
fn report_entries_and_exit() {
    let case = curated_case("c9".into(), "cls".into(), Kind::Routing, "GET", "/x".into(), vec![], None);
    let e = entry_of(&case, Verdict::Exempt, Some("note".into()), &up(404, "abc"), &ProbeResult::down());
    assert_eq!((e.id.as_str(), e.kind.as_str(), e.verdict.as_str()), ("c9", "Routing", "Exempt"));
    assert_eq!(e.go.len, Some(3));
    assert!(!e.rust.reachable);
    assert_eq!(run_exit_code(true, true), 0);
    assert_eq!(run_exit_code(true, false), 2);
    assert!(captures_cors(Kind::Cors));
    assert!(!captures_cors(Kind::Routing));
    assert_eq!(cors_header_names().len(), 3);
}

#[test]
fn runner_arguments() {
    let argv: Vec<String> = ["--go", "http://g", "--rust", "http://r", "--wait", "x"].iter().map(|s| s.to_string()).collect();
    let a = parse_args(&argv).unwrap();
    assert_eq!((a.go.as_str(), a.rust.as_str(), a.wait), ("http://g", "http://r", 180));
    assert_eq!(a.corpus_dir, "testbed/corpus");
    assert_eq!(a.out, "testbed/reports/report.jsonl");
    let argv: Vec<String> = ["--go", "g", "--rust", "r", "--wait", "5", "--out", "o.jsonl"].iter().map(|s| s.to_string()).collect();
    let a = parse_args(&argv).unwrap();
    assert_eq!((a.wait, a.out.as_str()), (5, "o.jsonl"));
    let missing: Vec<String> = ["--go", "g"].iter().map(|s| s.to_string()).collect();
    assert!(parse_args(&missing).is_none());
    let dangling: Vec<String> = ["--go", "g", "--rust"].iter().map(|s| s.to_string()).collect();
    assert!(parse_args(&dangling).is_none());
    let unknown: Vec<String> = ["--go", "g", "--rust", "r", "--x", "1"].iter().map(|s| s.to_string()).collect();
    assert!(parse_args(&unknown).is_none());
}

#[test]
fn media_urls_are_signed_with_the_current_time() {
    assert_eq!(signed_media_url(None, "/images/a.png"), Some(String::new()));
    let url = signed_media_url(Some([7u8; 32]), "/images/a.png").unwrap();
    assert!(url.starts_with("/admin/v1/file/image?path=/images/a.png&expires="));
    let expires: i64 = url.split("&expires=").nth(1).unwrap().split('&').next().unwrap().parse().unwrap();
    let now = admin_api::token::now_unix().unwrap();
    assert!(expires > now && expires <= now + 31_536_000);
}

#[test]
fn file_guids_are_ordered_v7_ids() {
    let context = std::sync::Mutex::new(uuid::ContextV7::new());
    let first = new_file_guid(&context).unwrap();
    let second = new_file_guid(&context).unwrap();
    assert_eq!(first.len(), 32);
    assert!(first.chars().all(|c| c.is_ascii_digit() || ('a'..='f').contains(&c)));
    assert_eq!(first.as_bytes()[12], b'7');
    assert!(first < second);
    assert_eq!(save_file_name(&first, "png"), format!("{first}.png"));
}
