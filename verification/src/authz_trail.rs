//! The authorization evaluation under the no-op engine: every subject
//! permits, so the first role decides, and each request leaves one trail
//! row naming the subject, the route, the verdict and the back-resolved
//! permission. An operator without roles is refused.

use vstd::prelude::*;
use crate::json_serde::{json_object_of, json_object_text};
use crate::text::{chars_of, dec, decimal, push_chars, push_str, string_of};

verus! {

/// One evaluation trail row.
pub struct EvaluationRow {
    pub tenant_id: u32,
    pub user_id: u32,
    pub permission_id: Option<u32>,
    pub policy_id: Option<u32>,
    pub request_path: String,
    pub request_method: String,
    pub result: bool,
    pub effect_details: String,
    pub ip_address: Option<String>,
    pub trace_id: Option<String>,
    pub evaluation_context: String,
}

/// The subject the engine evaluates: the first role.
pub fn authz_subject(roles: &Vec<String>) -> (r: Result<String, String>)
    ensures
        roles@.len() > 0 ==> r is Ok && r->Ok_0@ == roles@[0]@,
        roles@.len() == 0 ==> r is Err && r->Err_0@ == "missing authz subject"@,
{
    if roles.len() == 0 {
        Err("missing authz subject".to_owned())
    } else {
        Ok(roles[0].clone())
    }
}

/// The effect line of a permitted evaluation.
pub open spec fn effect_details_spec(subject: Seq<char>, latency_ms: u64) -> Seq<char> {
    "engine=noop subject="@ + subject + " latency="@ + dec(latency_ms as nat) + "ms; allowed"@
}

/// A reference that is absent when zero.
pub open spec fn nonzero(v: u32) -> Option<u32> {
    if v != 0 {
        Some(v)
    } else {
        None
    }
}

/// A text that is absent when empty.
pub open spec fn nonempty(s: Seq<char>) -> Option<Seq<char>> {
    if s.len() > 0 {
        Some(s)
    } else {
        None
    }
}

/// The view of an optional text.
pub open spec fn opt_view(s: Option<String>) -> Option<Seq<char>> {
    match s {
        Some(t) => Some(t@),
        None => None,
    }
}

/// The evaluation context: engine, subject, action, resource and the
/// acting user and tenant, as a JSON object.
pub open spec fn evaluation_context_spec(
    subject: Seq<char>,
    action: Seq<char>,
    resource: Seq<char>,
    user_id: u32,
    tenant_id: u32,
) -> Seq<char> {
    json_object_of(
        seq![
            ("engine"@, "noop"@),
            ("subject"@, subject),
            ("action"@, action),
            ("resource"@, resource),
        ],
        seq![("userId"@, user_id as u64), ("tenantId"@, tenant_id as u64)],
    )
}

fn optional_text(s: &str) -> (r: Option<String>)
    ensures
        opt_view(r) == nonempty(s@),
{
    let c = chars_of(s);
    if c.len() > 0 {
        Some(string_of(c.as_slice()))
    } else {
        None
    }
}

fn pair(k: &str, v: &str) -> (r: (String, String))
    ensures
        r.0@ == k@,
        r.1@ == v@,
{
    (k.to_owned(), v.to_owned())
}

/// The trail row of a permitted evaluation of `subject` on `action`
/// `resource`, with the back-resolved permission and policy (0: none).
pub fn evaluation_row(
    subject: &str,
    action: &str,
    resource: &str,
    user_id: u32,
    tenant_id: u32,
    ip: &str,
    trace_id: &str,
    permission_id: u32,
    policy_id: u32,
    latency_ms: u64,
) -> (r: EvaluationRow)
    ensures
        r.tenant_id == tenant_id,
        r.user_id == user_id,
        r.permission_id == nonzero(permission_id),
        r.policy_id == nonzero(policy_id),
        r.request_path@ == resource@,
        r.request_method@ == action@,
        r.result,
        r.effect_details@ == effect_details_spec(subject@, latency_ms),
        opt_view(r.ip_address) == nonempty(ip@),
        opt_view(r.trace_id) == nonempty(trace_id@),
        r.evaluation_context@ == evaluation_context_spec(
            subject@,
            action@,
            resource@,
            user_id,
            tenant_id,
        ),
{
    let mut details: Vec<char> = Vec::new();
    push_str(&mut details, "engine=noop subject=");
    push_str(&mut details, subject);
    push_str(&mut details, " latency=");
    push_chars(&mut details, decimal(latency_ms).as_slice());
    push_str(&mut details, "ms; allowed");
    let mut texts: Vec<(String, String)> = Vec::new();
    texts.push(pair("engine", "noop"));
    texts.push(pair("subject", subject));
    texts.push(pair("action", action));
    texts.push(pair("resource", resource));
    let mut numbers: Vec<(String, u64)> = Vec::new();
    numbers.push(("userId".to_owned(), user_id as u64));
    numbers.push(("tenantId".to_owned(), tenant_id as u64));
    let context = json_object_text(&texts, &numbers);
    proof {
        assert(texts@.map_values(|e: (String, String)| (e.0@, e.1@)) =~= seq![
            ("engine"@, "noop"@),
            ("subject"@, subject@),
            ("action"@, action@),
            ("resource"@, resource@),
        ]);
        assert(numbers@.map_values(|e: (String, u64)| (e.0@, e.1)) =~= seq![
            ("userId"@, user_id as u64),
            ("tenantId"@, tenant_id as u64),
        ]);
    }
    EvaluationRow {
        tenant_id,
        user_id,
        permission_id: if permission_id != 0 {
            Some(permission_id)
        } else {
            None
        },
        policy_id: if policy_id != 0 {
            Some(policy_id)
        } else {
            None
        },
        request_path: resource.to_owned(),
        request_method: action.to_owned(),
        result: true,
        effect_details: string_of(details.as_slice()),
        ip_address: optional_text(ip),
        trace_id: optional_text(trace_id),
        evaluation_context: context,
    }
}

} // verus!
