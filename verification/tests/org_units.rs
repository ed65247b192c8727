//! The org-unit update patch and read view.

use admin_api::json::JsonValue;
use admin_api::org_units::{apply_org_unit_patch, org_unit_view, OrgUnitPatch, OrgUnitRow};

fn row() -> OrgUnitRow {
    OrgUnitRow {
        id: 7,
        name: "Sales".into(),
        code: Some("S".into()),
        remark: None,
        description: None,
        kind: None,
        sort_order: Some(1),
        status: Some("ON".into()),
        parent_id: Some(2),
        path: Some("/2/7/".into()),
        leader_id: None,
        external_id: None,
        is_legal_entity: None,
        registration_number: None,
        tax_id: None,
        legal_entity_org_id: None,
        address: None,
        phone: None,
        email: None,
        timezone: None,
        country: None,
        start_at: None,
        end_at: None,
        contact_user_id: None,
        business_scopes: Some(JsonValue::Array(vec![
            JsonValue::String("retail".into()),
            JsonValue::Null,
            JsonValue::String("b2b".into()),
        ])),
        permission_tags: None,
        tenant_id: Some(3),
        created_by: Some(1),
        updated_by: None,
        deleted_by: None,
        created_at: Some((1_700_000_000, 0)),
        updated_at: None,
        deleted_at: None,
    }
}

fn empty_patch() -> OrgUnitPatch {
    OrgUnitPatch {
        name: None,
        code: None,
        remark: None,
        description: None,
        org_type: None,
        sort_order: None,
        status: None,
        parent_id: None,
        path: None,
        leader_id: None,
        external_id: None,
        is_legal_entity: None,
        registration_number: None,
        tax_id: None,
        legal_entity_org_id: None,
        address: None,
        phone: None,
        email: None,
        timezone: None,
        country: None,
        start_at: None,
        end_at: None,
        contact_user_id: None,
        business_scopes: vec!["keep".into()],
        permission_tags: vec!["keep".into()],
    }
}

#[test]
fn org_unit_patch_maps_codes_and_clears_lists() {
    let patch = OrgUnitPatch {
        name: Some("Field Sales".into()),
        status: Some(0),
        parent_id: Some(0),
        org_type: Some(1),
        business_scopes: vec![],
        ..empty_patch()
    };
    let r = apply_org_unit_patch(row(), &Some(patch), 9);
    assert_eq!(r.name, "Field Sales");
    assert_eq!(r.status.as_deref(), Some("OFF"));
    assert_eq!(r.parent_id, None);
    assert_eq!(r.kind.as_deref(), Some("COMPANY"));
    assert!(r.business_scopes.is_none());
    assert_eq!(r.code.as_deref(), Some("S"));
    assert_eq!(r.sort_order, Some(1));
    assert_eq!(r.updated_by, Some(9));
    assert_eq!((r.created_by, r.created_at), (Some(1), Some((1_700_000_000, 0))));
    let kept = apply_org_unit_patch(row(), &None, 4);
    assert_eq!(kept.name, "Sales");
    assert!(kept.business_scopes.is_some());
    assert_eq!(kept.updated_by, Some(4));
    let on = apply_org_unit_patch(row(), &Some(OrgUnitPatch { status: Some(5), parent_id: Some(8), ..empty_patch() }), 1);
    assert_eq!(on.status.as_deref(), Some("ON"));
    assert_eq!(on.parent_id, Some(8));
}

#[test]
fn org_unit_view_derives_codes_and_lists() {
    let v = org_unit_view(row());
    assert_eq!(v.id, 7);
    assert_eq!(v.status, Some(1));
    assert_eq!(v.org_type, admin_api::org_codes::org_type_to_proto("DEPARTMENT"));
    assert_eq!(v.business_scopes, vec!["retail".to_string(), "b2b".to_string()]);
    assert_eq!(v.created_by, Some(1));
    assert_eq!(v.created_at, Some((1_700_000_000, 0)));
    assert_eq!(v.updated_at, None);
    assert!(v.permission_tags.is_empty());
    let off = org_unit_view(OrgUnitRow { status: Some("OFF".into()), kind: Some("COMPANY".into()), ..row() });
    assert_eq!(off.status, Some(0));
    assert_eq!(off.org_type, 1);
}
