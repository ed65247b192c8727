//! Org-tree paths, the permission rebuild plan, the tenant gate, the
//! resolution cache and the evaluation trail.

use admin_api::authz_trail::{authz_subject, evaluation_row};
use admin_api::org_tree::{
    check_reparent, compute_tree_path, moves_under_descendant, patched_parent, relocate_subtree, Relocation,
};
use admin_api::permission::{api_code, menu_code};
use admin_api::permission_sync::{plan_permission_sync, ApiRow, MenuRow};
use admin_api::resolve_cache::{
    cache_key_for, linked_permission, resolution_of, ResolveCache, RESOLVE_CACHE_CAP,
    RESOLVE_TTL_MS,
};
use admin_api::tenant_access::{check_tenant_access, expiry_gate, module_gate, TenantFacts};

#[test]
fn tree_paths_join_parent_and_id() {
    assert_eq!(compute_tree_path("", 5), "/5/");
    assert_eq!(compute_tree_path("/1/", 5), "/1/5/");
    assert_eq!(compute_tree_path("/1", 5), "/1/5/");
    assert_eq!(compute_tree_path("/1/22/", 305), "/1/22/305/");
}

#[test]
fn descendant_moves_are_detected_by_marker() {
    assert!(moves_under_descendant("/1/5/9/", 5));
    assert!(!moves_under_descendant("/1/15/", 5));
    assert!(!moves_under_descendant("", 5));
    // A node's own path carries its marker, and so does every path below.
    let own = compute_tree_path("/1/", 5);
    let child = compute_tree_path(&own, 9);
    assert!(moves_under_descendant(&own, 5));
    assert!(moves_under_descendant(&child, 5));
}

#[test]
fn patch_parent_zero_is_root() {
    assert_eq!(patched_parent(0), None);
    assert_eq!(patched_parent(7), Some(7));
}

#[test]
fn relocation_walks_subtree_breadth_first() {
    let mut walk = Relocation::start(5, "/1/".to_string());
    let (id, path) = walk.next().unwrap();
    assert_eq!((id, path.as_str()), (5, "/1/5/"));
    walk.push_children(&vec![7, 8], &path);
    let (id, path7) = walk.next().unwrap();
    assert_eq!((id, path7.as_str()), (7, "/1/5/7/"));
    walk.push_children(&vec![11], &path7);
    let (id, path8) = walk.next().unwrap();
    assert_eq!((id, path8.as_str()), (8, "/1/5/8/"));
    walk.push_children(&vec![], &path8);
    let (id, path11) = walk.next().unwrap();
    assert_eq!((id, path11.as_str()), (11, "/1/5/7/11/"));
    assert!(walk.next().is_none());
    assert!(walk.next().is_none());
}

fn menu(id: u32, parent: Option<u32>, path: Option<&str>, name: &str, kind: &str) -> MenuRow {
    MenuRow {
        id,
        parent_id: parent,
        path: path.map(|p| p.to_string()),
        name: name.to_string(),
        menu_type: Some(kind.to_string()),
    }
}

#[test]
fn permission_rebuild_plan() {
    let menus = vec![
        menu(1, None, Some("/system"), "System", "CATALOG"),
        menu(2, Some(1), Some("/users"), "Users", "MENU"),
        menu(3, Some(2), Some(""), "Add User", "BUTTON"),
        menu(4, None, None, "Empty", "MENU"),
    ];
    let apis = vec![
        ApiRow { id: 10, method: Some("GET".into()), path: Some("/admin/v1/users".into()) },
        ApiRow { id: 11, method: None, path: Some("/admin/v1/users".into()) },
        ApiRow { id: 12, method: Some("POST".into()), path: Some("/admin/v1/orders".into()) },
    ];
    let (plans, api_plans, uncategorized) = plan_permission_sync(&menus, &apis);
    assert_eq!(plans.len(), 4);
    let p1 = plans[0].as_ref().unwrap();
    assert_eq!((p1.perm_id, p1.menu_id, p1.name.as_str(), p1.code.as_str()), (1, 1, "System", "dir"));
    let g = p1.new_group.as_ref().unwrap();
    assert_eq!((g.name.as_str(), g.module.as_str(), g.path.as_str()), ("System", "sys", "/1/"));
    assert_eq!(p1.group.as_deref(), Some("dir"));
    let p2 = plans[1].as_ref().unwrap();
    assert_eq!((p2.perm_id, p2.code.as_str()), (2, "user:view"));
    assert_eq!(p2.code, menu_code("/system/users", "Users", "MENU"));
    assert!(p2.new_group.is_none());
    assert_eq!(p2.group.as_deref(), Some("dir"));
    let p3 = plans[2].as_ref().unwrap();
    assert_eq!((p3.perm_id, p3.code.as_str()), (3, "user:create"));
    assert!(plans[3].is_none());

    assert_eq!(api_plans.len(), 3);
    let a1 = api_plans[0].as_ref().unwrap();
    assert_eq!((a1.perm_id, a1.api_id, a1.code.as_str(), a1.link_perm_id), (4, 10, "user:view", 2));
    assert_eq!(a1.code, api_code("GET", "/admin/v1/users"));
    assert!(!a1.uncategorized);
    assert!(api_plans[1].is_none());
    let a3 = api_plans[2].as_ref().unwrap();
    assert_eq!((a3.perm_id, a3.code.as_str(), a3.link_perm_id), (5, "order:create", 5));
    assert!(a3.uncategorized);
    let u = uncategorized.unwrap();
    assert_eq!((u.name.as_str(), u.module.as_str(), u.path.as_str()), ("Uncategorized", "sys", "/"));
}

#[test]
fn permission_rebuild_falls_back_to_least_group_code() {
    let menus = vec![
        menu(1, None, Some("/x/zoo"), "Zoo", "CATALOG"),
        menu(2, None, Some("/a"), "A", "CATALOG"),
        menu(3, None, Some("/q/r"), "R", "MENU"),
    ];
    let (plans, api_plans, uncategorized) = plan_permission_sync(&menus, &vec![]);
    let p1 = plans[0].as_ref().unwrap();
    assert_eq!(p1.code, "zoo:dir");
    assert_eq!(p1.new_group.as_ref().unwrap().module, "zoo");
    // Only the groups registered so far count.
    assert_eq!(p1.group.as_deref(), Some("zoo:dir"));
    assert_eq!(plans[1].as_ref().unwrap().group.as_deref(), Some("dir"));
    assert_eq!(plans[2].as_ref().unwrap().code, "r:view");
    assert_eq!(plans[2].as_ref().unwrap().group.as_deref(), Some("dir"));
    assert!(api_plans.is_empty());
    assert!(uncategorized.is_none());
}

fn tenant(status: &str, plan: Option<u32>, expired_at: Option<i64>) -> Option<TenantFacts> {
    Some(TenantFacts { status: Some(status.to_string()), plan_id: plan, expired_at })
}

#[test]
fn tenant_gate_checks_in_order() {
    let ok_api = Some(Some("SYSTEM".to_string()));
    let plan = Some(Some("READONLY".to_string()));
    assert_eq!(
        check_tenant_access(&None, &plan, 100, "GET", &ok_api, Some(true)),
        Err("access denied".to_string())
    );
    assert_eq!(
        check_tenant_access(&tenant("OFF", Some(1), None), &plan, 100, "GET", &ok_api, Some(true)),
        Err("tenant is not active".to_string())
    );
    assert_eq!(
        check_tenant_access(&tenant("ON", Some(1), Some(50)), &plan, 100, "POST", &ok_api, Some(true)),
        Err("tenant is read-only due to expiry".to_string())
    );
    assert_eq!(
        check_tenant_access(&tenant("ON", Some(1), Some(50)), &plan, 100, "GET", &ok_api, Some(true)),
        Ok(())
    );
    assert_eq!(
        check_tenant_access(&tenant("ON", Some(1), Some(150)), &plan, 100, "POST", &ok_api, Some(true)),
        Ok(())
    );
    assert_eq!(
        check_tenant_access(&tenant("ON", Some(1), None), &plan, 100, "GET", &None, Some(true)),
        Err("access denied".to_string())
    );
    assert_eq!(
        check_tenant_access(
            &tenant("ON", Some(1), None),
            &plan,
            100,
            "GET",
            &Some(Some("MODULE_UNSPECIFIED".into())),
            Some(true)
        ),
        Err("module not allowed".to_string())
    );
    assert_eq!(
        check_tenant_access(&tenant("ON", None, None), &None, 100, "GET", &ok_api, Some(true)),
        Err("no subscription plan".to_string())
    );
    assert_eq!(
        check_tenant_access(&tenant("ON", Some(1), None), &plan, 100, "GET", &ok_api, Some(false)),
        Err("module not allowed".to_string())
    );
    assert_eq!(
        check_tenant_access(&tenant("ON", Some(1), None), &plan, 100, "GET", &ok_api, None),
        Err("access denied".to_string())
    );
    // Without a plan the expiry policy is empty: writes stay open until the plan check.
    assert_eq!(
        check_tenant_access(&tenant("ON", Some(0), Some(50)), &plan, 100, "POST", &ok_api, Some(true)),
        Err("no subscription plan".to_string())
    );
}

#[test]
fn tenant_gates_individually() {
    assert_eq!(expiry_gate(true, "READONLY", "HEAD"), Ok(()));
    assert_eq!(expiry_gate(true, "READONLY", "OPTIONS"), Ok(()));
    assert!(expiry_gate(true, "READONLY", "DELETE").is_err());
    assert_eq!(expiry_gate(true, "SUSPEND", "DELETE"), Ok(()));
    assert_eq!(module_gate(&Some(None)), Err("module not allowed".to_string()));
    assert_eq!(module_gate(&Some(Some("FILE".into()))), Ok("FILE".to_string()));
}

#[test]
fn resolution_cache_reads_back_until_ttl() {
    let key = cache_key_for("admin", "/admin/v1/users", "get").unwrap();
    assert_eq!(key, "admin|/admin/v1/users|GET");
    assert!(cache_key_for("", "/x", "GET").is_none());
    assert!(cache_key_for("admin", "", "GET").is_none());
    let mut cache = ResolveCache::new();
    assert_eq!(cache.lookup(&key, 0), None);
    cache.store(key.clone(), 12, 0, 1000);
    assert_eq!(cache.lookup(&key, 1000), Some((12, 0)));
    assert_eq!(cache.lookup(&key, 1000 + RESOLVE_TTL_MS - 1), Some((12, 0)));
    assert_eq!(cache.lookup(&key, 1000 + RESOLVE_TTL_MS), None);
    cache.store(key.clone(), 13, 0, 2000);
    assert_eq!(cache.lookup(&key, 2000), Some((13, 0)));
}

#[test]
fn resolution_cache_recycles_soonest_expiring_at_ceiling() {
    let mut cache = ResolveCache::new();
    for i in 0..RESOLVE_CACHE_CAP {
        cache.store(format!("k{i}"), i as u32, 0, i as u64);
    }
    assert_eq!(cache.lookup("k0", 1500), Some((0, 0)));
    cache.store("new".to_string(), 7, 0, 1500);
    assert_eq!(cache.lookup("new", 1500), Some((7, 0)));
    assert_eq!(cache.lookup("k0", 1500), None);
    assert_eq!(cache.lookup("k1", 1500), Some((1, 0)));
    // Expired entries drain on the next store.
    cache.store("later".to_string(), 9, 0, 10 * RESOLVE_TTL_MS);
    assert_eq!(cache.lookup("k5", 10 * RESOLVE_TTL_MS), None);
    assert_eq!(cache.lookup("later", 10 * RESOLVE_TTL_MS), Some((9, 0)));
}

#[test]
fn resolution_chain_outcomes() {
    assert_eq!(linked_permission(None), None);
    assert_eq!(linked_permission(Some(0)), None);
    assert_eq!(linked_permission(Some(4)), Some(4));
    assert_eq!(resolution_of(4, true), (4, 0));
    assert_eq!(resolution_of(4, false), (0, 0));
}

#[test]
fn evaluation_needs_a_subject() {
    assert_eq!(authz_subject(&vec![]), Err("missing authz subject".to_string()));
    assert_eq!(authz_subject(&vec!["admin".into(), "ops".into()]), Ok("admin".to_string()));
}

#[test]
fn evaluation_trail_row() {
    let row = evaluation_row("admin", "GET", "/admin/v1/users", 7, 3, "", "t-1", 12, 0, 15);
    assert_eq!(row.tenant_id, 3);
    assert_eq!(row.user_id, 7);
    assert_eq!(row.permission_id, Some(12));
    assert_eq!(row.policy_id, None);
    assert_eq!(row.request_path, "/admin/v1/users");
    assert_eq!(row.request_method, "GET");
    assert!(row.result);
    assert_eq!(row.effect_details, "engine=noop subject=admin latency=15ms; allowed");
    assert_eq!(row.ip_address, None);
    assert_eq!(row.trace_id.as_deref(), Some("t-1"));
    assert_eq!(
        row.evaluation_context,
        r#"{"action":"GET","engine":"noop","resource":"/admin/v1/users","subject":"admin","tenantId":3,"userId":7}"#
    );
}

#[test]
fn reparenting_rewrites_the_whole_subtree() {
    // 5 moves under a parent with path /1/; 7 and 8 are its children, 11 is 7's.
    let rows = vec![(7, Some(5)), (11, Some(7)), (8, Some(5)), (20, Some(3)), (5, Some(2))];
    let walk = relocate_subtree(5, "/1/", &rows);
    let got: Vec<(u32, &str)> = walk.iter().map(|(id, p)| (*id, p.as_str())).collect();
    assert_eq!(got, vec![(5, "/1/5/"), (7, "/1/5/7/"), (8, "/1/5/8/"), (11, "/1/5/7/11/")]);
    assert_eq!(relocate_subtree(9, "", &vec![]), vec![(9, "/9/".to_string())]);
}

#[test]
fn moving_under_a_descendant_is_refused() {
    let e = check_reparent("/1/5/9/", 5).err().unwrap();
    assert_eq!((e.reason.as_str(), e.message.as_str()), ("BAD_REQUEST", "cannot move org unit under its own descendant"));
    assert!(check_reparent("/1/15/", 5).is_ok());
    assert!(check_reparent("", 5).is_ok());
}

#[test]
fn permission_rebuild_resolves_parents_read_earlier() {
    let menus = vec![
        menu(5, Some(6), Some("/child"), "Child", "MENU"),
        menu(6, None, Some("/system"), "System", "MENU"),
        menu(7, Some(6), Some("/users"), "Users", "MENU"),
    ];
    let (plans, _, _) = plan_permission_sync(&menus, &vec![]);
    // A parent read later than its child is not found: the child's own
    // path stands alone.
    assert_eq!(plans[0].as_ref().unwrap().code, menu_code("/child", "Child", "MENU"));
    assert_eq!(plans[2].as_ref().unwrap().code, menu_code("/system/users", "Users", "MENU"));
}
