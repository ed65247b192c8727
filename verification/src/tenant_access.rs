//! The tenant stage of the request gate, in order: an unknown tenant is
//! denied; a tenant whose status is not `ON` is not active; an expired
//! tenant under a `READONLY` plan may only read; a route missing from the
//! API registry fails closed; an unclassified route, a tenant without a
//! plan, or a module outside the plan's whitelist is not allowed.
//!
//! Each gate decides on what the lookup before it found; the caller runs
//! the lookups between them.

use vstd::prelude::*;
use crate::text::{chars_of, str_eq};

verus! {

/// What is known of a tenant.
pub struct TenantFacts {
    pub status: Option<String>,
    pub plan_id: Option<u32>,
    /// The expiry instant, as a count of microseconds.
    pub expired_at: Option<i64>,
}

/// The characters of an error message.
pub open spec fn err_view<T>(r: Result<T, String>) -> Result<T, Seq<char>> {
    match r {
        Ok(v) => Ok(v),
        Err(e) => Err(e@),
    }
}

/// The characters of a text result.
pub open spec fn texts_view(r: Result<String, String>) -> Result<Seq<char>, Seq<char>> {
    match r {
        Ok(v) => Ok(v@),
        Err(e) => Err(e@),
    }
}

/// The tenant is known and `ON`; its plan id (0 for none).
pub open spec fn tenant_gate_spec(tenant: Option<TenantFacts>) -> Result<u32, Seq<char>> {
    match tenant {
        None => Err("access denied"@),
        Some(t) => if t.status is Some && t.status->0@ == "ON"@ {
            Ok(
                match t.plan_id {
                    Some(p) => p,
                    None => 0,
                },
            )
        } else {
            Err("tenant is not active"@)
        },
    }
}

/// A method that only reads.
pub open spec fn is_read_method(method: Seq<char>) -> bool {
    method == "GET"@ || method == "HEAD"@ || method == "OPTIONS"@
}

/// The tenant's expiry lies before `now`.
pub open spec fn expired_spec(expired_at: Option<i64>, now: i64) -> bool {
    match expired_at {
        Some(at) => at < now,
        None => false,
    }
}

/// Expired tenants under a `READONLY` plan keep reads only.
pub open spec fn expiry_gate_spec(expired: bool, policy: Seq<char>, method: Seq<char>) -> Result<
    (),
    Seq<char>,
> {
    if expired && policy == "READONLY"@ && !is_read_method(method) {
        Err("tenant is read-only due to expiry"@)
    } else {
        Ok(())
    }
}

/// The route is registered and classified; its business module.
pub open spec fn module_gate_spec(api: Option<Option<String>>) -> Result<Seq<char>, Seq<char>> {
    match api {
        None => Err("access denied"@),
        Some(m) => {
            let module = match m {
                Some(s) => s@,
                None => Seq::empty(),
            };
            if module.len() == 0 || module == "MODULE_UNSPECIFIED"@ {
                Err("module not allowed"@)
            } else {
                Ok(module)
            }
        },
    }
}

/// The tenant has a plan.
pub open spec fn plan_gate_spec(plan_id: u32) -> Result<(), Seq<char>> {
    if plan_id == 0 {
        Err("no subscription plan"@)
    } else {
        Ok(())
    }
}

/// The plan's whitelist holds the module (`None`: the lookup failed).
pub open spec fn whitelist_gate_spec(found: Option<bool>) -> Result<(), Seq<char>> {
    match found {
        None => Err("access denied"@),
        Some(true) => Ok(()),
        Some(false) => Err("module not allowed"@),
    }
}

/// The expiry policy in force: the plan's, when the tenant has a plan and
/// it was found; empty otherwise.
pub open spec fn policy_in_force(plan_id: u32, plan_expiry: Option<Option<String>>) -> Seq<char> {
    if plan_id > 0 {
        match plan_expiry {
            Some(Some(p)) => p@,
            _ => Seq::empty(),
        }
    } else {
        Seq::empty()
    }
}

/// The whole tenant stage over what the lookups found: the tenant row,
/// its plan's expiry policy column (`None`: no plan row), the route's
/// registry entry (`None`: unregistered) and whether the plan whitelists
/// the route's module.
pub open spec fn tenant_access_outcome(
    tenant: Option<TenantFacts>,
    plan_expiry: Option<Option<String>>,
    now: i64,
    method: Seq<char>,
    api: Option<Option<String>>,
    whitelisted: Option<bool>,
) -> Result<(), Seq<char>> {
    match tenant_gate_spec(tenant) {
        Err(e) => Err(e),
        Ok(plan_id) => {
            let expired = expired_spec(tenant->0.expired_at, now);
            match expiry_gate_spec(expired, policy_in_force(plan_id, plan_expiry), method) {
                Err(e) => Err(e),
                Ok(_) => match module_gate_spec(api) {
                    Err(e) => Err(e),
                    Ok(_) => match plan_gate_spec(plan_id) {
                        Err(e) => Err(e),
                        Ok(_) => whitelist_gate_spec(whitelisted),
                    },
                },
            }
        },
    }
}

/// The tenant gate: unknown tenants are denied, tenants not `ON` are not
/// active; otherwise the tenant's plan id (0 for none).
pub fn tenant_gate(tenant: &Option<TenantFacts>) -> (r: Result<u32, String>)
    ensures
        err_view(r) == tenant_gate_spec(*tenant),
{
    match tenant {
        None => Err("access denied".to_owned()),
        Some(t) => {
            let on = match &t.status {
                Some(s) => str_eq(s.as_str(), "ON"),
                None => false,
            };
            if on {
                Ok(
                    match t.plan_id {
                        Some(p) => p,
                        None => 0,
                    },
                )
            } else {
                Err("tenant is not active".to_owned())
            }
        },
    }
}

/// Whether the tenant's expiry lies before `now`.
pub fn is_expired(expired_at: Option<i64>, now: i64) -> (r: bool)
    ensures
        r == expired_spec(expired_at, now),
{
    match expired_at {
        Some(at) => at < now,
        None => false,
    }
}

/// The expiry gate: an expired tenant under a `READONLY` plan may only
/// `GET`, `HEAD` or `OPTIONS`.
pub fn expiry_gate(expired: bool, policy: &str, method: &str) -> (r: Result<(), String>)
    ensures
        err_view(r) == expiry_gate_spec(expired, policy@, method@),
{
    let reads = str_eq(method, "GET") || str_eq(method, "HEAD") || str_eq(method, "OPTIONS");
    if expired && str_eq(policy, "READONLY") && !reads {
        Err("tenant is read-only due to expiry".to_owned())
    } else {
        Ok(())
    }
}

/// The module gate: an unregistered route is denied, an unclassified one
/// not allowed; otherwise the route's business module.
pub fn module_gate(api: &Option<Option<String>>) -> (r: Result<String, String>)
    ensures
        texts_view(r) == module_gate_spec(*api),
{
    match api {
        None => Err("access denied".to_owned()),
        Some(m) => {
            let module = match m {
                Some(s) => s.clone(),
                None => String::new(),
            };
            if chars_of(module.as_str()).len() == 0 || str_eq(module.as_str(), "MODULE_UNSPECIFIED") {
                Err("module not allowed".to_owned())
            } else {
                Ok(module)
            }
        },
    }
}

/// The plan gate: a tenant without a plan has no subscription.
pub fn plan_gate(plan_id: u32) -> (r: Result<(), String>)
    ensures
        err_view(r) == plan_gate_spec(plan_id),
{
    if plan_id == 0 {
        Err("no subscription plan".to_owned())
    } else {
        Ok(())
    }
}

/// The whitelist gate (`None`: the whitelist lookup failed).
pub fn whitelist_gate(found: Option<bool>) -> (r: Result<(), String>)
    ensures
        err_view(r) == whitelist_gate_spec(found),
{
    match found {
        None => Err("access denied".to_owned()),
        Some(true) => Ok(()),
        Some(false) => Err("module not allowed".to_owned()),
    }
}

/// The expiry policy in force for a plan id and the plan's expiry column.
pub fn expiry_policy(plan_id: u32, plan_expiry: &Option<Option<String>>) -> (r: String)
    ensures
        r@ == policy_in_force(plan_id, *plan_expiry),
{
    if plan_id > 0 {
        match plan_expiry {
            Some(Some(p)) => p.clone(),
            _ => String::new(),
        }
    } else {
        String::new()
    }
}

/// The tenant stage over the lookups' findings, the gates in order.
pub fn check_tenant_access(
    tenant: &Option<TenantFacts>,
    plan_expiry: &Option<Option<String>>,
    now: i64,
    method: &str,
    api: &Option<Option<String>>,
    whitelisted: Option<bool>,
) -> (r: Result<(), String>)
    ensures
        err_view(r) == tenant_access_outcome(*tenant, *plan_expiry, now, method@, *api, whitelisted),
{
    let plan_id = match tenant_gate(tenant) {
        Err(e) => return Err(e),
        Ok(p) => p,
    };
    let expired = match tenant {
        Some(t) => is_expired(t.expired_at, now),
        None => false,
    };
    let policy = expiry_policy(plan_id, plan_expiry);
    match expiry_gate(expired, policy.as_str(), method) {
        Err(e) => return Err(e),
        Ok(_) => {},
    }
    match module_gate(api) {
        Err(e) => return Err(e),
        Ok(_) => {},
    }
    match plan_gate(plan_id) {
        Err(e) => return Err(e),
        Ok(_) => {},
    }
    whitelist_gate(whitelisted)
}


/// An expired tenant under a `READONLY` plan may read and nothing else:
/// `GET`, `HEAD` and `OPTIONS` pass the expiry gate, every other method
/// (`POST`, `PUT`, `PATCH`, `DELETE` among them) is refused as read-only.
/// A tenant that has not expired, or whose plan is not `READONLY`, may use
/// any method.
pub proof fn lemma_expired_readonly_refuses_writes(expired: bool, policy: Seq<char>, method: Seq<char>)
    ensures
        expired && policy == "READONLY"@ && method != "GET"@ && method != "HEAD"@ && method
            != "OPTIONS"@ ==> expiry_gate_spec(expired, policy, method) == Err::<(), Seq<char>>(
            "tenant is read-only due to expiry"@,
        ),
        method == "GET"@ || method == "HEAD"@ || method == "OPTIONS"@ ==> expiry_gate_spec(
            expired,
            policy,
            method,
        ) is Ok,
        !expired || policy != "READONLY"@ ==> expiry_gate_spec(expired, policy, method) is Ok,
        expired && policy == "READONLY"@ ==> {
            &&& expiry_gate_spec(expired, policy, "PUT"@) is Err
            &&& expiry_gate_spec(expired, policy, "PATCH"@) is Err
            &&& expiry_gate_spec(expired, policy, "POST"@) is Err
            &&& expiry_gate_spec(expired, policy, "DELETE"@) is Err
        },
{
    reveal_strlit("GET");
    reveal_strlit("HEAD");
    reveal_strlit("OPTIONS");
    reveal_strlit("PUT");
    reveal_strlit("PATCH");
    reveal_strlit("POST");
    reveal_strlit("DELETE");
    assert("GET"@[0] == 'G' && "HEAD"@[0] == 'H' && "OPTIONS"@[0] == 'O');
    assert("PUT"@[0] == 'P' && "PATCH"@[0] == 'P' && "POST"@[0] == 'P' && "DELETE"@[0] == 'D');
}

/// At the whole tenant stage: an active tenant whose expiry has passed and
/// whose plan's policy is `READONLY` is refused as read-only for any
/// method but `GET`, `HEAD` and `OPTIONS`, before the route or the
/// whitelist is looked at.
pub proof fn lemma_stage_refuses_expired_writes(
    tenant: Option<TenantFacts>,
    plan_expiry: Option<Option<String>>,
    now: i64,
    method: Seq<char>,
    api: Option<Option<String>>,
    whitelisted: Option<bool>,
)
    requires
        tenant is Some,
        tenant->0.status is Some && tenant->0.status->0@ == "ON"@,
        tenant->0.plan_id is Some && tenant->0.plan_id->0 > 0,
        tenant->0.expired_at is Some && tenant->0.expired_at->0 < now,
        plan_expiry is Some && plan_expiry->0 is Some && plan_expiry->0->0@ == "READONLY"@,
        method != "GET"@ && method != "HEAD"@ && method != "OPTIONS"@,
    ensures
        tenant_access_outcome(tenant, plan_expiry, now, method, api, whitelisted) == Err::<
            (),
            Seq<char>,
        >("tenant is read-only due to expiry"@),
{
    lemma_expired_readonly_refuses_writes(true, "READONLY"@, method);
}


/// The tenant stage admits a request exactly when the tenant is known and
/// `ON`, the expiry rule does not hold it to reads, the route is
/// registered under a real module, the tenant has a plan, and the plan
/// whitelists the module. An unknown tenant or an unregistered route is
/// denied; an inactive tenant is not active.
pub proof fn lemma_stage_admits_exactly(
    tenant: Option<TenantFacts>,
    plan_expiry: Option<Option<String>>,
    now: i64,
    method: Seq<char>,
    api: Option<Option<String>>,
    whitelisted: Option<bool>,
)
    ensures
        tenant_access_outcome(tenant, plan_expiry, now, method, api, whitelisted) is Ok <==> {
            &&& tenant is Some
            &&& tenant->0.status is Some && tenant->0.status->0@ == "ON"@
            &&& expiry_gate_spec(
                expired_spec(tenant->0.expired_at, now),
                policy_in_force(
                    match tenant->0.plan_id {
                        Some(p) => p,
                        None => 0,
                    },
                    plan_expiry,
                ),
                method,
            ) is Ok
            &&& api is Some && api->0 is Some && api->0->0@.len() > 0
                && api->0->0@ != "MODULE_UNSPECIFIED"@
            &&& tenant->0.plan_id is Some && tenant->0.plan_id->0 > 0
            &&& whitelisted == Some(true)
        },
        tenant is None ==> tenant_access_outcome(tenant, plan_expiry, now, method, api, whitelisted)
            == Err::<(), Seq<char>>("access denied"@),
        tenant is Some && !(tenant->0.status is Some && tenant->0.status->0@ == "ON"@)
            ==> tenant_access_outcome(tenant, plan_expiry, now, method, api, whitelisted) == Err::<
            (),
            Seq<char>,
        >("tenant is not active"@),
{
}

} // verus!
