//! A stored org unit: the patch an update applies to it and the view a
//! read gives of it. Coordinates (floating point) are carried by
//! the storage layer and appear in neither; instants are UNIX seconds and
//! nanoseconds.

use vstd::prelude::*;
use crate::instants::{naive_to_ts, stored_instant, ts_to_naive};
use crate::json::JsonValue;
use crate::org_codes::{org_type_code, org_type_name, org_type_to_proto, org_type_to_str};
use crate::text::str_eq;
use crate::tenant_plan::opt_view;

verus! {

/// The stored fields of an org unit.
pub struct OrgUnitRow {
    pub id: u32,
    pub name: String,
    pub code: Option<String>,
    pub remark: Option<String>,
    pub description: Option<String>,
    pub kind: Option<String>,
    pub sort_order: Option<i32>,
    pub status: Option<String>,
    pub parent_id: Option<u32>,
    pub path: Option<String>,
    pub leader_id: Option<u32>,
    pub external_id: Option<String>,
    pub is_legal_entity: Option<bool>,
    pub registration_number: Option<String>,
    pub tax_id: Option<String>,
    pub legal_entity_org_id: Option<u32>,
    pub address: Option<String>,
    pub phone: Option<String>,
    pub email: Option<String>,
    pub timezone: Option<String>,
    pub country: Option<String>,
    pub start_at: Option<(i64, u32)>,
    pub end_at: Option<(i64, u32)>,
    pub contact_user_id: Option<u32>,
    pub business_scopes: Option<JsonValue>,
    pub permission_tags: Option<JsonValue>,
    pub tenant_id: Option<u32>,
    pub created_by: Option<u32>,
    pub updated_by: Option<u32>,
    pub deleted_by: Option<u32>,
    pub created_at: Option<(i64, u32)>,
    pub updated_at: Option<(i64, u32)>,
    pub deleted_at: Option<(i64, u32)>,
}

/// The fields an update request carries; absent ones stay as stored.
pub struct OrgUnitPatch {
    pub name: Option<String>,
    pub code: Option<String>,
    pub remark: Option<String>,
    pub description: Option<String>,
    pub org_type: Option<i32>,
    pub sort_order: Option<i32>,
    pub status: Option<i32>,
    pub parent_id: Option<u32>,
    pub path: Option<String>,
    pub leader_id: Option<u32>,
    pub external_id: Option<String>,
    pub is_legal_entity: Option<bool>,
    pub registration_number: Option<String>,
    pub tax_id: Option<String>,
    pub legal_entity_org_id: Option<u32>,
    pub address: Option<String>,
    pub phone: Option<String>,
    pub email: Option<String>,
    pub timezone: Option<String>,
    pub country: Option<String>,
    pub start_at: Option<(i64, i32)>,
    pub end_at: Option<(i64, i32)>,
    pub contact_user_id: Option<u32>,
    pub business_scopes: Vec<String>,
    pub permission_tags: Vec<String>,
}

/// A text after a patch: the new one when given, else the old one.
pub open spec fn patched_text(old: Option<String>, new: Option<String>) -> Option<Seq<char>> {
    match new {
        Some(v) => Some(v@),
        None => opt_view(old),
    }
}

/// A plain value after a patch: the new one when given, else the old one.
pub open spec fn patched<T>(old: Option<T>, new: Option<T>) -> Option<T> {
    match new {
        Some(v) => Some(v),
        None => old,
    }
}

/// The stored status of a patch's status code: 0 is `OFF`, anything
/// else `ON`.
pub open spec fn status_name(v: i32) -> Seq<char> {
    if v == 0 {
        "OFF"@
    } else {
        "ON"@
    }
}

fn patch_text(old: Option<String>, new: &Option<String>) -> (r: Option<String>)
    ensures
        opt_view(r) == patched_text(old, *new),
{
    match new {
        Some(v) => Some(v.clone()),
        None => old,
    }
}

fn patch_value<T: Copy>(old: Option<T>, new: Option<T>) -> (r: Option<T>)
    ensures
        r == patched(old, new),
{
    match new {
        Some(v) => Some(v),
        None => old,
    }
}

/// A stored instant after a patch: the given timestamp's stored instant
/// (none when it cannot be represented), else the old one.
pub open spec fn patched_instant(old: Option<(i64, u32)>, new: Option<(i64, i32)>) -> Option<
    (i64, u32),
> {
    match new {
        Some(t) => stored_instant(t.0, t.1),
        None => old,
    }
}

fn patch_instant(old: Option<(i64, u32)>, new: Option<(i64, i32)>) -> (r: Option<(i64, u32)>)
    ensures
        r == patched_instant(old, new),
{
    match new {
        Some(t) => ts_to_naive(t.0, t.1),
        None => old,
    }
}

fn status_text(v: i32) -> (r: String)
    ensures
        r@ == status_name(v),
{
    if v == 0 {
        "OFF".to_owned()
    } else {
        "ON".to_owned()
    }
}

/// The row after an update: each field the patch gives replaces the
/// stored one (the type by its name, the status `OFF` for 0 and `ON`
/// otherwise, a parent of 0 meaning none); an empty scope or tag list
/// clears the stored list; the operator is recorded as the updater (the
/// update instant is the storage layer's to stamp).
/// Without a patch only the updater changes.
pub fn apply_org_unit_patch(row: OrgUnitRow, patch: &Option<OrgUnitPatch>, operator_id: u32) -> (r:
    OrgUnitRow)
    ensures
        r.id == row.id,
        r.tenant_id == row.tenant_id,
        r.created_by == row.created_by,
        r.updated_by == Some(operator_id),
        r.deleted_by == row.deleted_by,
        r.created_at == row.created_at,
        r.updated_at == row.updated_at,
        r.deleted_at == row.deleted_at,
        match *patch {
            None => {
                &&& r.name@ == row.name@
                &&& opt_view(r.code) == opt_view(row.code)
                &&& opt_view(r.remark) == opt_view(row.remark)
                &&& opt_view(r.description) == opt_view(row.description)
                &&& opt_view(r.kind) == opt_view(row.kind)
                &&& r.sort_order == row.sort_order
                &&& opt_view(r.status) == opt_view(row.status)
                &&& r.parent_id == row.parent_id
                &&& opt_view(r.path) == opt_view(row.path)
                &&& r.leader_id == row.leader_id
                &&& opt_view(r.external_id) == opt_view(row.external_id)
                &&& r.is_legal_entity == row.is_legal_entity
                &&& opt_view(r.registration_number) == opt_view(row.registration_number)
                &&& opt_view(r.tax_id) == opt_view(row.tax_id)
                &&& r.legal_entity_org_id == row.legal_entity_org_id
                &&& opt_view(r.address) == opt_view(row.address)
                &&& opt_view(r.phone) == opt_view(row.phone)
                &&& opt_view(r.email) == opt_view(row.email)
                &&& opt_view(r.timezone) == opt_view(row.timezone)
                &&& opt_view(r.country) == opt_view(row.country)
                &&& r.start_at == row.start_at
                &&& r.end_at == row.end_at
                &&& r.contact_user_id == row.contact_user_id
                &&& r.business_scopes == row.business_scopes
                &&& r.permission_tags == row.permission_tags
            },
            Some(p) => {
                &&& r.name@ == (match p.name {
                    Some(v) => v@,
                    None => row.name@,
                })
                &&& opt_view(r.code) == patched_text(row.code, p.code)
                &&& opt_view(r.remark) == patched_text(row.remark, p.remark)
                &&& opt_view(r.description) == patched_text(row.description, p.description)
                &&& opt_view(r.kind) == match p.org_type {
                    Some(v) => Some(org_type_name(v)),
                    None => opt_view(row.kind),
                }
                &&& r.sort_order == patched(row.sort_order, p.sort_order)
                &&& opt_view(r.status) == match p.status {
                    Some(v) => Some(status_name(v)),
                    None => opt_view(row.status),
                }
                &&& r.parent_id == match p.parent_id {
                    Some(v) => if v == 0 {
                        None
                    } else {
                        Some(v)
                    },
                    None => row.parent_id,
                }
                &&& opt_view(r.path) == patched_text(row.path, p.path)
                &&& r.leader_id == patched(row.leader_id, p.leader_id)
                &&& opt_view(r.external_id) == patched_text(row.external_id, p.external_id)
                &&& r.is_legal_entity == patched(row.is_legal_entity, p.is_legal_entity)
                &&& opt_view(r.registration_number) == patched_text(
                    row.registration_number,
                    p.registration_number,
                )
                &&& opt_view(r.tax_id) == patched_text(row.tax_id, p.tax_id)
                &&& r.legal_entity_org_id == patched(row.legal_entity_org_id, p.legal_entity_org_id)
                &&& opt_view(r.address) == patched_text(row.address, p.address)
                &&& opt_view(r.phone) == patched_text(row.phone, p.phone)
                &&& opt_view(r.email) == patched_text(row.email, p.email)
                &&& opt_view(r.timezone) == patched_text(row.timezone, p.timezone)
                &&& opt_view(r.country) == patched_text(row.country, p.country)
                &&& r.start_at == patched_instant(row.start_at, p.start_at)
                &&& r.end_at == patched_instant(row.end_at, p.end_at)
                &&& r.contact_user_id == patched(row.contact_user_id, p.contact_user_id)
                &&& r.business_scopes == (if p.business_scopes.len() == 0 {
                    None
                } else {
                    row.business_scopes
                })
                &&& r.permission_tags == (if p.permission_tags.len() == 0 {
                    None
                } else {
                    row.permission_tags
                })
            },
        },
{
    match patch {
        None => OrgUnitRow { updated_by: Some(operator_id), ..row },
        Some(p) => OrgUnitRow {
            id: row.id,
            name: match &p.name {
                Some(v) => v.clone(),
                None => row.name,
            },
            code: patch_text(row.code, &p.code),
            remark: patch_text(row.remark, &p.remark),
            description: patch_text(row.description, &p.description),
            kind: match p.org_type {
                Some(v) => Some(org_type_to_str(v)),
                None => row.kind,
            },
            sort_order: patch_value(row.sort_order, p.sort_order),
            status: match p.status {
                Some(v) => Some(status_text(v)),
                None => row.status,
            },
            parent_id: match p.parent_id {
                Some(v) => if v == 0 {
                    None
                } else {
                    Some(v)
                },
                None => row.parent_id,
            },
            path: patch_text(row.path, &p.path),
            leader_id: patch_value(row.leader_id, p.leader_id),
            external_id: patch_text(row.external_id, &p.external_id),
            is_legal_entity: patch_value(row.is_legal_entity, p.is_legal_entity),
            registration_number: patch_text(row.registration_number, &p.registration_number),
            tax_id: patch_text(row.tax_id, &p.tax_id),
            legal_entity_org_id: patch_value(row.legal_entity_org_id, p.legal_entity_org_id),
            address: patch_text(row.address, &p.address),
            phone: patch_text(row.phone, &p.phone),
            email: patch_text(row.email, &p.email),
            timezone: patch_text(row.timezone, &p.timezone),
            country: patch_text(row.country, &p.country),
            start_at: patch_instant(row.start_at, p.start_at),
            end_at: patch_instant(row.end_at, p.end_at),
            contact_user_id: patch_value(row.contact_user_id, p.contact_user_id),
            business_scopes: if p.business_scopes.len() == 0 {
                None
            } else {
                row.business_scopes
            },
            permission_tags: if p.permission_tags.len() == 0 {
                None
            } else {
                row.permission_tags
            },
            tenant_id: row.tenant_id,
            created_by: row.created_by,
            updated_by: Some(operator_id),
            deleted_by: row.deleted_by,
            created_at: row.created_at,
            updated_at: row.updated_at,
            deleted_at: row.deleted_at,
        },
    }
}

/// The strings among the items of a stored JSON list, in order; none
/// when the value is absent or not a list.
pub open spec fn string_items(v: Option<JsonValue>) -> Seq<Seq<char>> {
    match v {
        Some(JsonValue::Array(items)) => strings_of(items@),
        _ => seq![],
    }
}

/// The strings among `items`, in order.
pub open spec fn strings_of(items: Seq<JsonValue>) -> Seq<Seq<char>>
    decreases items.len(),
{
    if items.len() == 0 {
        seq![]
    } else {
        let rest = strings_of(items.drop_last());
        match items.last() {
            JsonValue::String(t) => rest.push(t@),
            _ => rest,
        }
    }
}

fn list_strings(v: &Option<JsonValue>) -> (r: Vec<String>)
    ensures
        crate::semantic::texts(r@) == string_items(*v),
{
    let mut out: Vec<String> = Vec::new();
    match v {
        Some(JsonValue::Array(items)) => {
            let mut i: usize = 0;
            while i < items.len()
                invariant
                    i <= items.len(),
                    crate::semantic::texts(out@) == strings_of(items@.take(i as int)),
                decreases items.len() - i,
            {
                assert(items@.take(i + 1).drop_last() =~= items@.take(i as int));
                match &items[i] {
                    JsonValue::String(t) => {
                        let ghost before = crate::semantic::texts(out@);
                        out.push(t.clone());
                        assert(crate::semantic::texts(out@) =~= before.push(t@));
                    },
                    _ => {},
                }
                i += 1;
            }
            assert(items@.take(items.len() as int) =~= items@);
        },
        _ => {
            assert(crate::semantic::texts(out@) =~= Seq::<Seq<char>>::empty());
        },
    }
    out
}

/// The status code of a stored status: 0 for `OFF`, 1 for anything else.
pub open spec fn status_code(s: Seq<char>) -> i32 {
    if s == "OFF"@ {
        0
    } else {
        1
    }
}

/// An org unit as a read gives it.
pub struct OrgUnitView {
    pub id: u32,
    pub parent_id: Option<u32>,
    pub name: String,
    pub code: Option<String>,
    pub leader_id: Option<u32>,
    pub org_type: i32,
    pub path: Option<String>,
    pub status: Option<i32>,
    pub sort_order: Option<i32>,
    pub business_scopes: Vec<String>,
    pub external_id: Option<String>,
    pub is_legal_entity: Option<bool>,
    pub registration_number: Option<String>,
    pub tax_id: Option<String>,
    pub address: Option<String>,
    pub phone: Option<String>,
    pub email: Option<String>,
    pub timezone: Option<String>,
    pub country: Option<String>,
    pub remark: Option<String>,
    pub description: Option<String>,
    pub tenant_id: Option<u32>,
    pub contact_user_id: Option<u32>,
    pub permission_tags: Vec<String>,
    pub created_by: Option<u32>,
    pub updated_by: Option<u32>,
    pub deleted_by: Option<u32>,
    pub created_at: Option<(i64, i32)>,
    pub updated_at: Option<(i64, i32)>,
    pub deleted_at: Option<(i64, i32)>,
    pub start_at: Option<(i64, i32)>,
    pub end_at: Option<(i64, i32)>,
    pub legal_entity_org_id: Option<u32>,
}

/// The wire timestamp of a stored instant.
pub open spec fn wire_instant(v: Option<(i64, u32)>) -> Option<(i64, i32)> {
    match v {
        Some(t) => Some((t.0, t.1 as i32)),
        None => None,
    }
}

fn instant_to_wire(v: Option<(i64, u32)>) -> (r: Option<(i64, i32)>)
    ensures
        r == wire_instant(v),
{
    match v {
        Some(t) => naive_to_ts(t),
        None => None,
    }
}

/// The view of a stored org unit: the type's code (`DEPARTMENT` when
/// none is stored), the status 0 for `OFF` and 1 otherwise, the string
/// items of the scope and tag lists, every other field as stored.
pub fn org_unit_view(row: OrgUnitRow) -> (r: OrgUnitView)
    ensures
        r.id == row.id,
        r.parent_id == row.parent_id,
        r.name@ == row.name@,
        opt_view(r.code) == opt_view(row.code),
        r.leader_id == row.leader_id,
        r.org_type == org_type_code(match row.kind {
            Some(k) => k@,
            None => "DEPARTMENT"@,
        }),
        opt_view(r.path) == opt_view(row.path),
        r.status == match row.status {
            Some(s) => Some(status_code(s@)),
            None => None::<i32>,
        },
        r.sort_order == row.sort_order,
        crate::semantic::texts(r.business_scopes@) == string_items(row.business_scopes),
        opt_view(r.external_id) == opt_view(row.external_id),
        r.is_legal_entity == row.is_legal_entity,
        opt_view(r.registration_number) == opt_view(row.registration_number),
        opt_view(r.tax_id) == opt_view(row.tax_id),
        opt_view(r.address) == opt_view(row.address),
        opt_view(r.phone) == opt_view(row.phone),
        opt_view(r.email) == opt_view(row.email),
        opt_view(r.timezone) == opt_view(row.timezone),
        opt_view(r.country) == opt_view(row.country),
        opt_view(r.remark) == opt_view(row.remark),
        opt_view(r.description) == opt_view(row.description),
        r.tenant_id == row.tenant_id,
        r.contact_user_id == row.contact_user_id,
        crate::semantic::texts(r.permission_tags@) == string_items(row.permission_tags),
        r.created_by == row.created_by,
        r.updated_by == row.updated_by,
        r.deleted_by == row.deleted_by,
        r.created_at == wire_instant(row.created_at),
        r.updated_at == wire_instant(row.updated_at),
        r.deleted_at == wire_instant(row.deleted_at),
        r.start_at == wire_instant(row.start_at),
        r.end_at == wire_instant(row.end_at),
        r.legal_entity_org_id == row.legal_entity_org_id,
{
    let org_type = match &row.kind {
        Some(k) => org_type_to_proto(k.as_str()),
        None => org_type_to_proto("DEPARTMENT"),
    };
    let status = match &row.status {
        Some(s) => Some(if str_eq(s.as_str(), "OFF") { 0i32 } else { 1i32 }),
        None => None,
    };
    let business_scopes = list_strings(&row.business_scopes);
    let permission_tags = list_strings(&row.permission_tags);
    OrgUnitView {
        id: row.id,
        parent_id: row.parent_id,
        name: row.name,
        code: row.code,
        leader_id: row.leader_id,
        org_type,
        path: row.path,
        status,
        sort_order: row.sort_order,
        business_scopes,
        external_id: row.external_id,
        is_legal_entity: row.is_legal_entity,
        registration_number: row.registration_number,
        tax_id: row.tax_id,
        address: row.address,
        phone: row.phone,
        email: row.email,
        timezone: row.timezone,
        country: row.country,
        remark: row.remark,
        description: row.description,
        tenant_id: row.tenant_id,
        contact_user_id: row.contact_user_id,
        permission_tags,
        created_by: row.created_by,
        updated_by: row.updated_by,
        deleted_by: row.deleted_by,
        created_at: instant_to_wire(row.created_at),
        updated_at: instant_to_wire(row.updated_at),
        deleted_at: instant_to_wire(row.deleted_at),
        start_at: instant_to_wire(row.start_at),
        end_at: instant_to_wire(row.end_at),
        legal_entity_org_id: row.legal_entity_org_id,
    }
}

} // verus!
