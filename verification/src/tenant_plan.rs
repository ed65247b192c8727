//! Tenant provisioning: the rows a new tenant (with or without its admin
//! user) is written as, the tenant-manager role copied from its
//! template, the existence query of a tenant check, and the patch an
//! update applies.

use vstd::prelude::*;
use crate::tenant_codes::{status_to_str, tenant_status_name, tenant_type_name, type_to_str};
use crate::text::chars_of;
use crate::instants::{stored_instant, ts_to_naive};

verus! {

/// The tenant fields a create request carries.
pub struct TenantInput {
    pub name: Option<String>,
    pub code: Option<String>,
    pub domain: Option<String>,
    pub logo_url: Option<String>,
    pub industry: Option<String>,
    pub type_code: Option<i32>,
    pub remark: Option<String>,
    pub plan_id: Option<u32>,
    /// The expiry instant as UNIX seconds and nanoseconds, if any.
    pub expired_at: Option<(i64, i32)>,
}

/// A new tenant row.
pub struct TenantRow {
    pub name: String,
    pub code: String,
    pub domain: Option<String>,
    pub logo_url: Option<String>,
    pub industry: Option<String>,
    pub kind: String,
    pub status: String,
    pub audit_status: String,
    pub remark: Option<String>,
    pub plan_id: Option<u32>,
    /// The stored expiry instant (UNIX seconds, nanoseconds).
    pub expired_at: Option<(i64, u32)>,
    pub created_by: u32,
}

/// The view of an optional text.
pub open spec fn opt_view(s: Option<String>) -> Option<Seq<char>> {
    match s {
        Some(t) => Some(t@),
        None => None,
    }
}

/// The text of an optional text, empty when absent.
pub open spec fn or_empty(s: Option<String>) -> Seq<char> {
    match s {
        Some(t) => t@,
        None => Seq::empty(),
    }
}

fn text_or_empty(s: &Option<String>) -> (r: String)
    ensures
        r@ == or_empty(*s),
{
    match s {
        Some(t) => t.clone(),
        None => String::new(),
    }
}

fn copy_opt(s: &Option<String>) -> (r: Option<String>)
    ensures
        opt_view(r) == opt_view(*s),
{
    match s {
        Some(t) => Some(t.clone()),
        None => None,
    }
}

/// The row a new tenant is written as: name and code empty when absent,
/// the type `PAID` unless given, switched `ON` and `APPROVED`, the expiry
/// as its stored instant (none when it cannot be represented), the rest
/// as given.
pub fn new_tenant_row(input: &TenantInput, operator_id: u32) -> (r: TenantRow)
    ensures
        r.name@ == or_empty(input.name),
        r.code@ == or_empty(input.code),
        opt_view(r.domain) == opt_view(input.domain),
        opt_view(r.logo_url) == opt_view(input.logo_url),
        opt_view(r.industry) == opt_view(input.industry),
        r.kind@ == (match input.type_code {
            Some(v) => tenant_type_name(v),
            None => "PAID"@,
        }),
        r.status@ == "ON"@,
        r.audit_status@ == "APPROVED"@,
        opt_view(r.remark) == opt_view(input.remark),
        r.plan_id == input.plan_id,
        r.expired_at == match input.expired_at {
            Some(t) => stored_instant(t.0, t.1),
            None => None,
        },
        r.created_by == operator_id,
{
    TenantRow {
        name: text_or_empty(&input.name),
        code: text_or_empty(&input.code),
        domain: copy_opt(&input.domain),
        logo_url: copy_opt(&input.logo_url),
        industry: copy_opt(&input.industry),
        kind: match input.type_code {
            Some(v) => type_to_str(v),
            None => "PAID".to_owned(),
        },
        status: "ON".to_owned(),
        audit_status: "APPROVED".to_owned(),
        remark: copy_opt(&input.remark),
        plan_id: input.plan_id,
        expired_at: match input.expired_at {
            Some(t) => ts_to_naive(t.0, t.1),
            None => None,
        },
        created_by: operator_id,
    }
}

/// The code of the role template a tenant manager is copied from.
pub const MANAGER_TEMPLATE_CODE: &'static str = "template:tenant:manager";

/// What the copy reads of the role template.
pub struct RoleTemplate {
    pub name: String,
    pub data_scope: Option<String>,
    pub sort_order: Option<i32>,
}

/// The tenant-manager role of a new tenant.
pub struct RoleRow {
    pub tenant_id: u32,
    pub name: String,
    pub code: String,
    pub is_protected: bool,
    pub kind: String,
    pub data_scope: Option<String>,
    pub status: String,
    pub sort_order: Option<i32>,
    pub created_by: u32,
}

/// The tenant-manager role: the template's name, scope and order, the
/// code `tenant:manager`, protected, of type `TENANT`, switched `ON`.
pub fn manager_role(tenant_id: u32, template: &RoleTemplate, operator_id: u32) -> (r: RoleRow)
    ensures
        r.tenant_id == tenant_id,
        r.name@ == template.name@,
        r.code@ == "tenant:manager"@,
        r.is_protected,
        r.kind@ == "TENANT"@,
        opt_view(r.data_scope) == opt_view(template.data_scope),
        r.status@ == "ON"@,
        r.sort_order == template.sort_order,
        r.created_by == operator_id,
{
    RoleRow {
        tenant_id,
        name: template.name.clone(),
        code: "tenant:manager".to_owned(),
        is_protected: true,
        kind: "TENANT".to_owned(),
        data_scope: copy_opt(&template.data_scope),
        status: "ON".to_owned(),
        sort_order: template.sort_order,
        created_by: operator_id,
    }
}

/// A permission grant of the new role.
pub struct GrantRow {
    pub tenant_id: u32,
    pub role_id: u32,
    pub permission_id: Option<u32>,
    pub effect: String,
    pub status: String,
}

/// The grants of the new role: one `ALLOW`, `ON` grant per template
/// grant, in order, naming the same permission.
pub fn copied_grants(tenant_id: u32, role_id: u32, template_grants: &Vec<Option<u32>>) -> (r: Vec<
    GrantRow,
>)
    ensures
        r@.len() == template_grants@.len(),
        forall|i: int|
            0 <= i < r@.len() ==> {
                let g = #[trigger] r@[i];
                &&& g.tenant_id == tenant_id
                &&& g.role_id == role_id
                &&& g.permission_id == template_grants@[i]
                &&& g.effect@ == "ALLOW"@
                &&& g.status@ == "ON"@
            },
{
    let mut out: Vec<GrantRow> = Vec::new();
    let mut i: usize = 0;
    while i < template_grants.len()
        invariant
            i <= template_grants.len(),
            out@.len() == i,
            forall|j: int|
                0 <= j < i ==> {
                    let g = #[trigger] out@[j];
                    &&& g.tenant_id == tenant_id
                    &&& g.role_id == role_id
                    &&& g.permission_id == template_grants@[j]
                    &&& g.effect@ == "ALLOW"@
                    &&& g.status@ == "ON"@
                },
        decreases template_grants.len() - i,
    {
        out.push(
            GrantRow {
                tenant_id,
                role_id,
                permission_id: template_grants[i],
                effect: "ALLOW".to_owned(),
                status: "ON".to_owned(),
            },
        );
        i += 1;
    }
    out
}

/// The admin user fields a request carries.
pub struct AdminInput {
    pub username: Option<String>,
    pub realname: Option<String>,
    pub nickname: Option<String>,
    pub email: Option<String>,
    pub mobile: Option<String>,
}

/// The admin user row.
pub struct AdminUserRow {
    pub tenant_id: u32,
    pub username: String,
    pub realname: Option<String>,
    pub nickname: Option<String>,
    pub email: Option<String>,
    pub mobile: Option<String>,
    pub status: String,
    pub created_by: u32,
}

/// The admin user: the given fields, the username empty when absent,
/// status `NORMAL`.
pub fn admin_user_row(tenant_id: u32, admin: &AdminInput, operator_id: u32) -> (r: AdminUserRow)
    ensures
        r.tenant_id == tenant_id,
        r.username@ == or_empty(admin.username),
        opt_view(r.realname) == opt_view(admin.realname),
        opt_view(r.nickname) == opt_view(admin.nickname),
        opt_view(r.email) == opt_view(admin.email),
        opt_view(r.mobile) == opt_view(admin.mobile),
        r.status@ == "NORMAL"@,
        r.created_by == operator_id,
{
    AdminUserRow {
        tenant_id,
        username: text_or_empty(&admin.username),
        realname: copy_opt(&admin.realname),
        nickname: copy_opt(&admin.nickname),
        email: copy_opt(&admin.email),
        mobile: copy_opt(&admin.mobile),
        status: "NORMAL".to_owned(),
        created_by: operator_id,
    }
}

/// The admin's password credential (its hash is the caller's).
pub struct CredentialRow {
    pub tenant_id: u32,
    pub user_id: u32,
    pub identity_type: String,
    pub identifier: String,
    pub credential_type: String,
    pub is_primary: bool,
    pub status: String,
}

/// The admin's primary, enabled `USERNAME` / `PASSWORD_HASH` credential.
pub fn admin_credential(tenant_id: u32, user_id: u32, username: &str) -> (r: CredentialRow)
    ensures
        r.tenant_id == tenant_id,
        r.user_id == user_id,
        r.identity_type@ == "USERNAME"@,
        r.identifier@ == username@,
        r.credential_type@ == "PASSWORD_HASH"@,
        r.is_primary,
        r.status@ == "ENABLED"@,
{
    CredentialRow {
        tenant_id,
        user_id,
        identity_type: "USERNAME".to_owned(),
        identifier: username.to_owned(),
        credential_type: "PASSWORD_HASH".to_owned(),
        is_primary: true,
        status: "ENABLED".to_owned(),
    }
}

/// The admin's binding to the manager role.
pub struct BindingRow {
    pub tenant_id: u32,
    pub user_id: u32,
    pub role_id: u32,
    pub is_primary: bool,
    pub status: String,
    pub assigned_by: u32,
}

/// The admin's primary, `ACTIVE` binding to the manager role.
pub fn admin_binding(tenant_id: u32, user_id: u32, role_id: u32, operator_id: u32) -> (r:
    BindingRow)
    ensures
        r.tenant_id == tenant_id,
        r.user_id == user_id,
        r.role_id == role_id,
        r.is_primary,
        r.status@ == "ACTIVE"@,
        r.assigned_by == operator_id,
{
    BindingRow {
        tenant_id,
        user_id,
        role_id,
        is_primary: true,
        status: "ACTIVE".to_owned(),
        assigned_by: operator_id,
    }
}

/// Why a create-with-admin request is refused before any lookup: the
/// tenant, then the user, then the password must be given.
pub fn with_admin_refusal(has_tenant: bool, has_user: bool, password: &str) -> (r: Option<String>)
    ensures
        !has_tenant ==> (r matches Some(m) && m@ == "tenant required"@),
        has_tenant && !has_user ==> (r matches Some(m) && m@ == "user required"@),
        has_tenant && has_user && password@.len() == 0 ==> (r matches Some(m) && m@
            == "password required"@),
        has_tenant && has_user && password@.len() > 0 ==> r is None,
{
    if !has_tenant {
        Some("tenant required".to_owned())
    } else if !has_user {
        Some("user required".to_owned())
    } else if chars_of(password).len() == 0 {
        Some("password required".to_owned())
    } else {
        None
    }
}

/// The lookup behind a tenant existence check.
pub enum ExistsQuery {
    /// A tenant with this code or this name.
    CodeOrName(String, String),
    /// A tenant with this code.
    Code(String),
    /// A tenant with this name.
    Name(String),
    /// Nothing to look for: the tenant does not exist.
    Nothing,
}

/// The existence lookup: by code or name when both are given, else by
/// whichever is given; with neither there is nothing to find.
pub fn exists_query(code: &str, name: &str) -> (r: ExistsQuery)
    ensures
        code@.len() > 0 && name@.len() > 0 ==> (r matches ExistsQuery::CodeOrName(c, n) && c@
            == code@ && n@ == name@),
        code@.len() > 0 && name@.len() == 0 ==> (r matches ExistsQuery::Code(c) && c@ == code@),
        code@.len() == 0 && name@.len() > 0 ==> (r matches ExistsQuery::Name(n) && n@ == name@),
        code@.len() == 0 && name@.len() == 0 ==> r is Nothing,
{
    let has_code = chars_of(code).len() > 0;
    let has_name = chars_of(name).len() > 0;
    if has_code && has_name {
        ExistsQuery::CodeOrName(code.to_owned(), name.to_owned())
    } else if has_code {
        ExistsQuery::Code(code.to_owned())
    } else if has_name {
        ExistsQuery::Name(name.to_owned())
    } else {
        ExistsQuery::Nothing
    }
}

/// The editable fields of a tenant row.
pub struct TenantFields {
    pub name: String,
    pub domain: Option<String>,
    pub logo_url: Option<String>,
    pub industry: Option<String>,
    pub remark: Option<String>,
    pub kind: Option<String>,
    pub status: Option<String>,
    pub plan_id: Option<u32>,
}

/// A tenant update: each given field replaces the stored one.
pub struct TenantPatch {
    pub name: Option<String>,
    pub domain: Option<String>,
    pub logo_url: Option<String>,
    pub industry: Option<String>,
    pub remark: Option<String>,
    pub type_code: Option<i32>,
    pub status_code: Option<i32>,
    pub plan_id: Option<u32>,
}

/// An optional field after a patch: the patch's value when given.
pub open spec fn patched(old: Option<String>, p: Option<String>) -> Option<Seq<char>> {
    match p {
        Some(v) => Some(v@),
        None => opt_view(old),
    }
}

/// Applies a tenant update: each field the patch gives replaces the
/// stored one (type and status by their stored names); the others stay.
pub fn apply_tenant_patch(row: &mut TenantFields, patch: &TenantPatch)
    ensures
        final(row).name@ == (match patch.name {
            Some(v) => v@,
            None => old(row).name@,
        }),
        opt_view(final(row).domain) == patched(old(row).domain, patch.domain),
        opt_view(final(row).logo_url) == patched(old(row).logo_url, patch.logo_url),
        opt_view(final(row).industry) == patched(old(row).industry, patch.industry),
        opt_view(final(row).remark) == patched(old(row).remark, patch.remark),
        opt_view(final(row).kind) == (match patch.type_code {
            Some(v) => Some(tenant_type_name(v)),
            None => opt_view(old(row).kind),
        }),
        opt_view(final(row).status) == (match patch.status_code {
            Some(v) => Some(tenant_status_name(v)),
            None => opt_view(old(row).status),
        }),
        final(row).plan_id == (match patch.plan_id {
            Some(v) => Some(v),
            None => old(row).plan_id,
        }),
{
    match &patch.name {
        Some(v) => row.name = v.clone(),
        None => {},
    }
    match &patch.domain {
        Some(v) => row.domain = Some(v.clone()),
        None => {},
    }
    match &patch.logo_url {
        Some(v) => row.logo_url = Some(v.clone()),
        None => {},
    }
    match &patch.industry {
        Some(v) => row.industry = Some(v.clone()),
        None => {},
    }
    match &patch.remark {
        Some(v) => row.remark = Some(v.clone()),
        None => {},
    }
    match patch.type_code {
        Some(v) => row.kind = Some(type_to_str(v)),
        None => {},
    }
    match patch.status_code {
        Some(v) => row.status = Some(status_to_str(v)),
        None => {},
    }
    match patch.plan_id {
        Some(v) => row.plan_id = Some(v),
        None => {},
    }
}

} // verus!
