//! Login guards, account lookups, password history, the session catalog
//! and the session/token cache keys.

use admin_api::accounts::{
    identifier_lookup, read_history, resolve_by_email, resolve_by_mobile, write_history,
    IdentifierLookup,
};
use admin_api::json::JsonValue;
use admin_api::login_guard::{
    captcha_answerable, captcha_key, captcha_matches, count_locks, fail_keys, increment_locks,
    is_locked_by, png_data_url, CAPTCHA_SOURCE, LOGIN_FAIL_THRESHOLD,
};
use admin_api::session::{
    at_key, bl_key, key_token_id, parse_session_key, refresh_cookies_at, rt_key, scan_pattern,
    stored_token_matches, us_key, TokenStore,
};
use admin_api::sessions::{
    login_at_seconds, logout_target, order_newest_first, own_session_check, page_bounds,
    session_matches, LogoutTarget,
};
use admin_api::token::{jwt_id_at, new_jwt_id, now_unix, unix_seconds};

#[test]
fn failure_counter_keys_per_dimension() {
    assert_eq!(
        fail_keys("1.2.3.4", "bob"),
        vec!["admin:login:fail:ip:1.2.3.4".to_string(), "admin:login:fail:user:bob".to_string()]
    );
    assert_eq!(fail_keys("", "bob"), vec!["admin:login:fail:user:bob".to_string()]);
    assert_eq!(fail_keys("10.0.0.1", ""), vec!["admin:login:fail:ip:10.0.0.1".to_string()]);
    assert!(fail_keys("", "").is_empty());
}

#[test]
fn lockout_at_the_fifth_failure() {
    assert_eq!(LOGIN_FAIL_THRESHOLD, 5);
    assert!(!count_locks(Some(4)));
    assert!(count_locks(Some(5)));
    assert!(!count_locks(None));
    assert!(!is_locked_by(&vec![None, Some(4)]));
    assert!(is_locked_by(&vec![Some(1), Some(7)]));
    assert!(increment_locks(Some((1, 5))));
    assert!(!increment_locks(Some((0, 5))));
    assert!(!increment_locks(None));
}

#[test]
fn captcha_keys_and_answers() {
    assert_eq!(CAPTCHA_SOURCE.len(), 32);
    assert_eq!(captcha_key("abc"), "admin:captcha:abc");
    assert_eq!(png_data_url("QUJD"), "data:image/png;base64,QUJD");
    assert!(!captcha_answerable("", "x"));
    assert!(!captcha_answerable("id", ""));
    assert!(captcha_answerable("id", "x"));
    assert!(captcha_matches(&Some("K7PQ2Z".to_string()), "K7PQ2Z"));
    assert!(!captcha_matches(&Some("K7PQ2Z".to_string()), "k7pq2z"));
    assert!(!captcha_matches(&None, "K7PQ2Z"));
}

#[test]
fn identifiers_pick_their_lookup() {
    assert!(matches!(identifier_lookup(""), IdentifierLookup::Verbatim));
    assert!(matches!(identifier_lookup("a@b.c"), IdentifierLookup::ByEmail));
    assert!(matches!(identifier_lookup("13800138000"), IdentifierLookup::ByMobile));
    assert!(matches!(identifier_lookup("alice"), IdentifierLookup::Verbatim));
    assert!(matches!(identifier_lookup("138-0013"), IdentifierLookup::Verbatim));
    assert_eq!(resolve_by_email("a@b.c", Some("alice".into())), "alice");
    assert_eq!(resolve_by_email("a@b.c", None), "a@b.c");
    assert_eq!(
        resolve_by_mobile("138", &vec!["a".into(), "b".into()]),
        Err("ambiguous account identifier".to_string())
    );
    assert_eq!(resolve_by_mobile("138", &vec!["a".into()]), Ok("a".to_string()));
    assert_eq!(resolve_by_mobile("138", &vec![]), Ok("138".to_string()));
}

#[test]
fn password_history_keeps_the_newest() {
    let doc = write_history("h3", vec!["h1".into(), "h2".into()], 2);
    assert_eq!(read_history(Some(&doc)), vec!["h2".to_string(), "h3".to_string()]);
    let doc = write_history("h1", vec![], 5);
    assert_eq!(read_history(Some(&doc)), vec!["h1".to_string()]);
    let doc = write_history("h1", vec!["h0".into()], 0);
    assert!(read_history(Some(&doc)).is_empty());
    assert!(read_history(None).is_empty());
    // A history that is not all strings reads as none.
    let mixed = JsonValue::Object(vec![(
        "password_history".to_string(),
        JsonValue::Array(vec![JsonValue::String("a".into()), JsonValue::Null]),
    )]);
    assert!(read_history(Some(&mixed)).is_empty());
}

#[test]
fn session_keyword_filter() {
    assert!(session_matches("", "alice", "10.0.0.1"));
    assert!(session_matches("lic", "alice", "10.0.0.1"));
    assert!(session_matches("0.0", "alice", "10.0.0.1"));
    assert!(!session_matches("bob", "alice", "10.0.0.1"));
}

#[test]
fn sessions_list_newest_first_stably() {
    let order = order_newest_first(&vec![Some(10), None, Some(30), Some(10), None]);
    assert_eq!(order, vec![2, 0, 3, 1, 4]);
    assert!(order_newest_first(&vec![]).is_empty());
}

#[test]
fn listing_pages() {
    assert_eq!(page_bounds(25, Some(3), Some(10)), (20, 25));
    assert_eq!(page_bounds(25, None, None), (0, 10));
    assert_eq!(page_bounds(5, Some(0), Some(-3)), (0, 1));
    assert_eq!(page_bounds(5, Some(9), Some(10)), (5, 5));
}

#[test]
fn forced_logout_targets() {
    assert_eq!(logout_target(None, None).err(), Some("user_id required".to_string()));
    assert_eq!(logout_target(Some(0), Some("j")).err(), Some("user_id required".to_string()));
    assert!(matches!(logout_target(Some(7), Some("j1")), Ok(LogoutTarget::Session(7, ref j)) if j == "j1"));
    assert!(matches!(logout_target(Some(7), Some("")), Ok(LogoutTarget::User(7))));
    assert!(matches!(logout_target(Some(7), None), Ok(LogoutTarget::User(7))));
}

#[test]
fn self_service_revoke_checks_ownership() {
    let own = vec!["j1".to_string(), "j2".to_string()];
    assert_eq!(own_session_check(Some("j2"), &own), Ok("j2".to_string()));
    assert_eq!(
        own_session_check(Some("j9"), &own),
        Err(("FORBIDDEN".to_string(), "session does not belong to the operator".to_string()))
    );
    assert_eq!(
        own_session_check(Some(""), &own),
        Err(("BAD_REQUEST".to_string(), "jti required".to_string()))
    );
    assert_eq!(
        own_session_check(None, &own),
        Err(("BAD_REQUEST".to_string(), "jti required".to_string()))
    );
}

#[test]
fn login_instants_read_with_or_without_fraction() {
    assert_eq!(login_at_seconds("2024-01-01 00:00:00"), Some(1704067200));
    assert_eq!(login_at_seconds("2024-01-01 00:00:01.250"), Some(1704067201));
    assert_eq!(login_at_seconds("yesterday"), None);
}

#[test]
fn cache_keys_read_back() {
    assert_eq!(at_key(0, 7, "j1"), "at:0:7:j1");
    assert_eq!(rt_key(0, 7, "j1"), "rt:0:7:j1");
    assert_eq!(us_key(1, 70, "abc"), "us:1:70:abc");
    assert_eq!(bl_key("j1"), "bl:j1");
    assert_eq!(parse_session_key(&us_key(1, 70, "abc")), Some((1, 70, "abc".to_string())));
    assert_eq!(parse_session_key("us:x:70:abc"), None);
    assert_eq!(parse_session_key("us:1:70"), None);
    assert_eq!(scan_pattern("rt", 0, 7), "rt:0:7:*");
    assert_eq!(key_token_id("rt:0:7:abc"), "abc");
    assert_eq!(key_token_id("plain"), "plain");
    assert!(stored_token_matches(&Some("tok".into()), "tok"));
    assert!(!stored_token_matches(&Some("tok".into()), "other"));
    assert!(!stored_token_matches(&None, "tok"));
}

#[test]
fn clearing_cookies() {
    let (a, b) = TokenStore::clear_cookie_values(true);
    assert_eq!(
        a,
        "refresh_token=; Path=/admin/v1/refresh-token; Max-Age=-1; HttpOnly; SameSite=Lax; Secure"
    );
    assert_eq!(b, "refresh_exp=; Path=/; Max-Age=-1; SameSite=Lax; Secure");
    let (a, _) = TokenStore::clear_cookie_values(false);
    assert!(a.ends_with("SameSite=Lax"));
}

#[test]
fn fresh_token_ids_are_v7_hex() {
    let context = std::sync::Mutex::new(uuid::ContextV7::new());
    let a = new_jwt_id(&context).unwrap();
    let b = new_jwt_id(&context).unwrap();
    assert_eq!(a.len(), 32);
    assert!(a.chars().all(|c| c.is_ascii_digit() || ('a'..='f').contains(&c)));
    assert_eq!(a.as_bytes()[12], b'7');
    assert_ne!(a, b);
    assert!(a < b);
}

#[test]
fn refresh_cookies_at_a_time() {
    let (a, b) = refresh_cookies_at("tok", 3600, 1_000, true).unwrap();
    assert_eq!(
        a,
        "refresh_token=tok; Path=/admin/v1/refresh-token; Max-Age=3600; HttpOnly; SameSite=Lax; Secure"
    );
    assert_eq!(b, "refresh_exp=4600; Path=/; Max-Age=3600; SameSite=Lax; Secure");
    assert_eq!(refresh_cookies_at("tok", 10, i64::MAX - 10, false).map(|p| p.1), Some(format!("refresh_exp={}; Path=/; Max-Age=10; SameSite=Lax", i64::MAX)));
    assert_eq!(refresh_cookies_at("tok", 10, i64::MAX - 9, false), None);
    assert_eq!(refresh_cookies_at("tok", -5, i64::MIN + 4, false), None);
}

#[test]
fn clock_readings_become_whole_seconds_and_ids() {
    assert_eq!(unix_seconds(false, 1_700_000_000, 999_999_999), Some(1_700_000_000));
    assert_eq!(unix_seconds(true, 0, 500), Some(-1));
    assert_eq!(unix_seconds(true, 3, 0), Some(-3));
    assert_eq!(unix_seconds(false, u64::MAX, 0), None);
    assert_eq!(unix_seconds(false, i64::MAX as u64, 0), Some(i64::MAX));
    assert_eq!(unix_seconds(true, i64::MAX as u64, 1), Some(i64::MIN));
    assert_eq!(unix_seconds(true, i64::MAX as u64 + 1, 1), None);
    assert!(now_unix().unwrap() > 1_600_000_000);
    let context = std::sync::Mutex::new(uuid::ContextV7::new());
    assert_eq!(jwt_id_at(&context, true, 5, 0), None);
    let id = jwt_id_at(&context, false, 1_700_000_000, 0).unwrap();
    // Within one millisecond, a shared context keeps creation order.
    let next = jwt_id_at(&context, false, 1_700_000_000, 0).unwrap();
    assert!(id < next);
    assert_eq!(id.len(), 32);
    assert_eq!(id.as_bytes()[12], b'7');
    // The id leads with the 48-bit millisecond stamp.
    assert_eq!(&id[..12], &format!("{:012x}", 1_700_000_000_000u64));
}
