//! Tenant provisioning, edits, messaging, the scheduler, the cache
//! monitor, configuration and the service error envelope.

use admin_api::config::{
    mint_key, oss_bucket_names, redis_url, resolve_bool, resolve_int, resolve_non_empty,
    resolve_non_empty_or, resolve_string, Config, EnvSettings, YamlSettings,
};
use admin_api::edits::{
    apply_menu_patch, apply_permission_patch, apply_script_patch, hook_points, link_change,
    new_menu, new_permission, new_script, sync_target, LinkChange, MenuPatch, PermissionPatch,
    ScriptPatch,
};
use admin_api::errors::{internal_error, not_found, operator_missing, require_data};
use admin_api::json::JsonValue;
use admin_api::json_serde::from_serde;
use admin_api::messaging::{
    recipient_rows,
    backfill, backfill_ids, marked_status, recipient_batches, recipients_of, InboxMessage,
    Recipients,
};
use admin_api::monitor_info::{db_size, info_entries};
use admin_api::scheduler::{
    decode_job, expiry_due, periodic_firings, queue_endpoint, task_kind, tick_due, CronCheck,
    TaskKind,
};
use admin_api::tenant_plan::{
    admin_binding, admin_credential, admin_user_row, apply_tenant_patch, copied_grants,
    exists_query, manager_role, new_tenant_row, with_admin_refusal, AdminInput, ExistsQuery,
    RoleTemplate, TenantFields, TenantInput, TenantPatch,
};

fn doc(text: &str) -> JsonValue {
    let v: serde_json::Value = serde_json::from_str(text).unwrap();
    from_serde(&v)
}

#[test]
fn new_tenant_defaults() {
    let input = TenantInput {
        name: Some("Acme".into()),
        code: None,
        domain: Some("acme.example".into()),
        logo_url: None,
        industry: None,
        type_code: None,
        remark: None,
        plan_id: Some(3),
        expired_at: Some((1_900_000_000, 5)),
    };
    let row = new_tenant_row(&input, 9);
    assert_eq!(row.expired_at, Some((1_900_000_000, 5)));
    assert_eq!(row.name, "Acme");
    assert_eq!(row.code, "");
    assert_eq!(row.kind, "PAID");
    assert_eq!(row.status, "ON");
    assert_eq!(row.audit_status, "APPROVED");
    assert_eq!(row.plan_id, Some(3));
    assert_eq!(row.created_by, 9);
    let trial = new_tenant_row(&TenantInput { type_code: Some(0), ..input }, 9);
    assert_eq!(trial.kind, "TRIAL");
}

#[test]
fn tenant_manager_role_and_grants() {
    let template =
        RoleTemplate { name: "Tenant Manager".into(), data_scope: Some("ALL".into()), sort_order: Some(2) };
    let role = manager_role(5, &template, 1);
    assert_eq!(role.code, "tenant:manager");
    assert!(role.is_protected);
    assert_eq!(role.kind, "TENANT");
    assert_eq!(role.name, "Tenant Manager");
    assert_eq!(role.data_scope.as_deref(), Some("ALL"));
    assert_eq!(role.sort_order, Some(2));
    let grants = copied_grants(5, 40, &vec![Some(1), None, Some(3)]);
    assert_eq!(grants.len(), 3);
    assert_eq!(grants[1].permission_id, None);
    assert_eq!(grants[2].permission_id, Some(3));
    assert!(grants.iter().all(|g| g.effect == "ALLOW" && g.status == "ON" && g.role_id == 40));
}

#[test]
fn tenant_admin_rows() {
    let admin = AdminInput {
        username: Some("root".into()),
        realname: None,
        nickname: Some("R".into()),
        email: None,
        mobile: None,
    };
    let user = admin_user_row(5, &admin, 1);
    assert_eq!((user.username.as_str(), user.status.as_str()), ("root", "NORMAL"));
    let cred = admin_credential(5, 77, "root");
    assert_eq!(cred.identity_type, "USERNAME");
    assert_eq!(cred.credential_type, "PASSWORD_HASH");
    assert_eq!(cred.status, "ENABLED");
    assert!(cred.is_primary);
    let bind = admin_binding(5, 77, 40, 1);
    assert_eq!((bind.role_id, bind.status.as_str(), bind.is_primary), (40, "ACTIVE", true));
}

#[test]
fn tenant_with_admin_request_checks() {
    assert_eq!(with_admin_refusal(false, false, ""), Some("tenant required".to_string()));
    assert_eq!(with_admin_refusal(true, false, "pw"), Some("user required".to_string()));
    assert_eq!(with_admin_refusal(true, true, ""), Some("password required".to_string()));
    assert_eq!(with_admin_refusal(true, true, "pw"), None);
}

#[test]
fn tenant_exists_lookups() {
    assert!(matches!(exists_query("c", "n"), ExistsQuery::CodeOrName(ref c, ref n) if c == "c" && n == "n"));
    assert!(matches!(exists_query("c", ""), ExistsQuery::Code(ref c) if c == "c"));
    assert!(matches!(exists_query("", "n"), ExistsQuery::Name(ref n) if n == "n"));
    assert!(matches!(exists_query("", ""), ExistsQuery::Nothing));
}

#[test]
fn tenant_patch_replaces_given_fields() {
    let mut row = TenantFields {
        name: "Old".into(),
        domain: Some("old.example".into()),
        logo_url: None,
        industry: None,
        remark: None,
        kind: Some("PAID".into()),
        status: Some("ON".into()),
        plan_id: Some(1),
    };
    let patch = TenantPatch {
        name: None,
        domain: Some("new.example".into()),
        logo_url: None,
        industry: None,
        remark: None,
        type_code: Some(2),
        status_code: Some(1),
        plan_id: None,
    };
    apply_tenant_patch(&mut row, &patch);
    assert_eq!(row.name, "Old");
    assert_eq!(row.domain.as_deref(), Some("new.example"));
    assert_eq!(row.kind.as_deref(), Some("INTERNAL"));
    assert_eq!(row.status.as_deref(), Some("OFF"));
    assert_eq!(row.plan_id, Some(1));
}

fn perm_patch() -> PermissionPatch {
    PermissionPatch {
        name: Some("Read users".into()),
        code: None,
        description: None,
        group_id: Some(4),
        status: Some(0),
        menu_ids: vec![],
        api_ids: vec![3, 4],
    }
}

#[test]
fn permission_edits() {
    let p = perm_patch();
    let mut row = new_permission(&p, 5);
    assert_eq!((row.created_by, row.updated_by), (Some(5), None));
    assert_eq!(row.name, "Read users");
    assert_eq!(row.code, "");
    assert_eq!(row.status.as_deref(), Some("ON"));
    apply_permission_patch(&mut row, &p, 8);
    assert_eq!((row.created_by, row.updated_by), (Some(5), Some(8)));
    assert_eq!(row.status.as_deref(), Some("OFF"));
    assert_eq!(row.group_id, Some(4));
    assert!(matches!(link_change(&p.menu_ids), LinkChange::Keep));
    assert!(matches!(link_change(&p.api_ids), LinkChange::Replace(ref v) if v == &vec![3, 4]));
}

fn menu_patch() -> MenuPatch {
    MenuPatch {
        id: None,
        path: Some("/users".into()),
        redirect: None,
        alias: None,
        name: Some("Users".into()),
        component: None,
        kind: Some(0),
        status: None,
        module: Some(6),
        parent_id: Some(0),
        meta: None,
    }
}

#[test]
fn menu_edits() {
    let row = new_menu(&menu_patch(), 5);
    assert_eq!((row.created_by, row.updated_by), (Some(5), None));
    assert_eq!(row.name, "Users");
    assert_eq!(row.kind.as_deref(), Some("CATALOG"));
    assert_eq!(row.status.as_deref(), Some("ON"));
    assert_eq!(row.module.as_deref(), Some("PERMISSION"));
    assert_eq!(row.parent_id, None);
    let mut row = row;
    let update = MenuPatch { status: Some(0), parent_id: Some(7), name: None, ..menu_patch() };
    apply_menu_patch(&mut row, &update, 8);
    assert_eq!((row.created_by, row.updated_by), (Some(5), Some(8)));
    assert_eq!(row.status.as_deref(), Some("OFF"));
    assert_eq!(row.parent_id, Some(7));
    assert_eq!(row.name, "Users");
    assert_eq!(sync_target(Some(3)), Some(3));
    assert_eq!(sync_target(Some(0)), None);
    assert_eq!(sync_target(None), None);
}

#[test]
fn script_version_follows_source() {
    let create = ScriptPatch {
        name: Some("hook".into()),
        language: None,
        hook_point: Some("user.after_create".into()),
        source: Some("return 1".into()),
        priority: None,
        description: None,
        critical: None,
        is_enabled: None,
    };
    let mut row = new_script(&create, 5);
    assert_eq!((row.created_by, row.updated_by), (Some(5), None));
    assert_eq!(row.language.as_deref(), Some("LUA"));
    assert_eq!((row.version, row.priority, row.critical, row.is_enabled), (Some(1), Some(0), Some(false), Some(true)));
    let rename = ScriptPatch { name: Some("renamed".into()), source: None, ..create };
    apply_script_patch(&mut row, &rename, 8);
    assert_eq!(row.updated_by, Some(8));
    assert_eq!(row.version, Some(1));
    assert_eq!(row.name, "renamed");
    let edit = ScriptPatch { source: Some("return 2".into()), ..rename };
    apply_script_patch(&mut row, &edit, 8);
    assert_eq!(row.version, Some(2));
    assert_eq!(row.source.as_deref(), Some("return 2"));
    row.version = None;
    apply_script_patch(&mut row, &edit, 8);
    assert_eq!(row.version, Some(2));
    assert_eq!(hook_points().len(), 10);
    assert_eq!(hook_points()[0], "user.before_create");
}

#[test]
fn message_recipients() {
    assert!(matches!(recipients_of(&vec![4, 5], Some(9), Some(true)), Recipients::Listed(ref v) if v == &vec![4, 5]));
    assert!(matches!(recipients_of(&vec![], Some(9), Some(true)), Recipients::Listed(ref v) if v == &vec![9]));
    assert!(matches!(recipients_of(&vec![], None, Some(true)), Recipients::WholeTenant));
    assert!(matches!(recipients_of(&vec![], None, Some(false)), Recipients::Nobody));
    assert!(matches!(recipients_of(&vec![], None, None), Recipients::Nobody));
}

#[test]
fn recipient_rows_in_batches() {
    let ids: Vec<u32> = (0..2500).collect();
    let batches = recipient_batches(&ids);
    assert_eq!(batches.iter().map(|b| b.len()).collect::<Vec<_>>(), vec![1000, 1000, 500]);
    assert_eq!(batches.concat(), ids);
    assert!(recipient_batches(&vec![]).is_empty());
    assert_eq!(recipient_batches(&(0..1000).collect()).len(), 1);
}

#[test]
fn inbox_marks_and_backfill() {
    assert_eq!(marked_status(2), "READ");
    assert_eq!(marked_status(4), "DELETED");
    assert_eq!(marked_status(9), "RECEIVED");
    assert_eq!(backfill_ids(&vec![Some(3), None, Some(5)]), vec![3, 5]);
    let messages = vec![
        InboxMessage { id: 3, title: Some("hello".into()), content: Some("body".into()) },
        InboxMessage { id: 5, title: None, content: Some("x".into()) },
    ];
    assert_eq!(backfill(Some(3), &messages), (Some("hello".to_string()), Some("body".to_string())));
    assert_eq!(backfill(Some(4), &messages), (None, None));
    assert_eq!(backfill(None, &messages), (None, None));
}

#[test]
fn scheduler_handlers_and_jobs() {
    assert!(matches!(task_kind("tenant_expiry_scan"), TaskKind::TenantExpiryScan));
    assert!(matches!(task_kind("audit_log_archive"), TaskKind::AuditLogArchive));
    assert!(matches!(task_kind("backup"), TaskKind::Logged));
    assert!(matches!(task_kind("script_task"), TaskKind::Logged));
    assert!(matches!(task_kind("mystery"), TaskKind::Unknown));
    let (t, p) = decode_job(doc(r#"{"type":"backup","payload":{"n":1}}"#)).unwrap();
    assert_eq!(t, "backup");
    assert!(matches!(p, JsonValue::Object(ref e) if e.len() == 1));
    let (t, p) = decode_job(doc(r#"{"type":"backup"}"#)).unwrap();
    assert_eq!(t, "backup");
    assert!(matches!(p, JsonValue::Null));
    assert!(decode_job(doc(r#"{"type":3}"#)).is_none());
    assert!(decode_job(doc(r#"{"payload":{}}"#)).is_none());
    assert!(decode_job(doc(r#""backup""#)).is_none());
}

#[test]
fn periodic_rows_fire_once_per_type() {
    let rows = vec![
        ("a".to_string(), CronCheck::Checked(true)),
        ("b".to_string(), CronCheck::Invalid),
        ("a".to_string(), CronCheck::Checked(true)),
        ("c".to_string(), CronCheck::Checked(false)),
        ("d".to_string(), CronCheck::NoSpec),
        ("e".to_string(), CronCheck::Checked(true)),
    ];
    assert_eq!(periodic_firings(&rows), vec![0, 5]);
    assert!(tick_due(0));
    assert!(!tick_due(30));
}

#[test]
fn expiry_scan_and_endpoint() {
    assert!(expiry_due(&Some("ON".into()), Some(100), 100));
    assert!(!expiry_due(&Some("ON".into()), Some(101), 100));
    assert!(!expiry_due(&Some("EXPIRED".into()), Some(1), 100));
    assert!(!expiry_due(&Some("ON".into()), None, 100));
    assert_eq!(queue_endpoint("default"), "apalis-postgres://default");
}

#[test]
fn redis_info_fields() {
    let info = "# Memory\r\nused_memory:1024\r\nmaxmemory_policy: noeviction \r\n\r\nnot a field\r\nlast:a:b";
    assert_eq!(
        info_entries(info),
        vec![
            ("used_memory".to_string(), "1024".to_string()),
            ("maxmemory_policy".to_string(), "noeviction".to_string()),
            ("last".to_string(), "a:b".to_string()),
        ]
    );
    assert!(info_entries("").is_empty());
    assert_eq!(db_size(-4), 0);
    assert_eq!(db_size(12), 12);
}

#[test]
fn env_int_takes_parseable_override_else_yaml_else_default() {
    assert_eq!(resolve_int(Some("1234"), None, 42), 1234);
    assert_eq!(resolve_int(Some("not-a-number"), Some(7), 42), 7);
    assert_eq!(resolve_int(None, None, 42), 42);
    assert_eq!(resolve_int(Some("-15"), None, 42), -15);
}

#[test]
fn env_string_takes_set_value_verbatim_else_yaml() {
    assert_eq!(resolve_string(Some(String::new()), "yaml".into()), "");
    assert_eq!(resolve_string(None, "yaml".into()), "yaml");
}

#[test]
fn env_bool_takes_true_or_1_else_yaml() {
    assert!(resolve_bool(Some("true"), false));
    assert!(resolve_bool(Some("1"), false));
    assert!(!resolve_bool(Some("yes"), false));
    assert!(!resolve_bool(None, false));
    assert!(resolve_bool(None, true));
    assert!(!resolve_bool(Some("yes"), true));
}

#[test]
fn env_non_empty_skips_empty_values() {
    assert_eq!(resolve_non_empty(Some(String::new())), None);
    assert_eq!(resolve_non_empty(Some("value".into())), Some("value".to_string()));
    assert_eq!(resolve_non_empty(None), None);
    assert_eq!(resolve_non_empty_or(None, Some("fallback".into())), Some("fallback".to_string()));
}

fn yaml() -> YamlSettings {
    YamlSettings {
        database_source: "postgres://db".into(),
        database_migrate: false,
        redis_addr: "redis:6379".into(),
        redis_password: "pw".into(),
        jwt_private_key: String::new(),
        jwt_public_key: "PUB".into(),
        access_token_expires_secs: None,
        refresh_token_expires_secs: Some(3600),
        oss_endpoint: String::new(),
        oss_upload_host: "up".into(),
        oss_download_host: "down".into(),
        oss_access_key: "ak".into(),
        oss_secret_key: "sk".into(),
        oss_use_ssl: true,
    }
}

fn no_env() -> EnvSettings {
    EnvSettings {
        database_source: None,
        database_migrate: None,
        redis_addr: None,
        redis_password: None,
        jwt_private_key: None,
        jwt_public_key: None,
        access_token_expires_secs: None,
        refresh_token_expires_secs: None,
        oss_endpoint: None,
    }
}

#[test]
fn configuration_from_files_and_environment() {
    let cfg = Config::from_sources(yaml(), no_env());
    assert_eq!(cfg.database_source, "postgres://db");
    assert_eq!(cfg.access_token_expires_secs, 900);
    assert_eq!(cfg.refresh_token_expires_secs, 3600);
    assert_eq!(cfg.jwt_private_key, None);
    assert_eq!(cfg.jwt_public_key.as_deref(), Some("PUB"));
    assert!(cfg.oss.is_none());
    let env = EnvSettings {
        database_migrate: Some("1".into()),
        jwt_private_key: Some("PRIV".into()),
        refresh_token_expires_secs: Some("60".into()),
        oss_endpoint: Some("localhost:9000".into()),
        ..no_env()
    };
    let cfg = Config::from_sources(yaml(), env);
    assert!(cfg.database_migrate);
    assert_eq!(cfg.jwt_private_key.as_deref(), Some("PRIV"));
    assert_eq!(cfg.refresh_token_expires_secs, 60);
    let oss = cfg.oss.unwrap();
    assert_eq!((oss.endpoint.as_str(), oss.upload_host.as_str(), oss.use_ssl), ("localhost:9000", "up", true));
}

#[test]
fn startup_settings() {
    assert_eq!(redis_url("pw", "redis:6379"), "redis://:pw@redis:6379/");
    assert_eq!(mint_key(Some("K".into())), Ok("K".to_string()));
    assert_eq!(
        mint_key(None),
        Err("auth.yaml private_key missing (RS256 minting requires it)".to_string())
    );
    assert_eq!(oss_bucket_names(), vec!["images", "videos", "audios", "docs", "files"]);
}

#[test]
fn service_errors() {
    let e = require_data::<u32>(None).err().unwrap();
    assert_eq!((e.reason.as_str(), e.message.as_str()), ("BAD_REQUEST", "data required"));
    assert_eq!(require_data(Some(5)).ok(), Some(5));
    let e = not_found("tenant");
    assert_eq!((e.reason.as_str(), e.message.as_str()), ("NOT_FOUND", "tenant not found"));
    assert_eq!(operator_missing().message, "missing identity");
    assert_eq!(internal_error("boom").reason, "");
}

#[test]
fn recipient_rows_are_received_in_order() {
    let rows = recipient_rows(3, 41, &vec![9, 7, 9]);
    assert_eq!(rows.len(), 3);
    let ids: Vec<u32> = rows.iter().map(|r| r.recipient_user_id).collect();
    assert_eq!(ids, vec![9, 7, 9]);
    for row in &rows {
        assert_eq!((row.tenant_id, row.message_id), (3, 41));
        assert_eq!(row.status, "RECEIVED");
    }
    assert!(recipient_rows(3, 41, &Vec::new()).is_empty());
}
