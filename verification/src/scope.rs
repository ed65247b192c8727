//! The viewer context — the one place that decides tenancy filtering.
//!
//! * platform viewer (user with tenant 0): no tenant predicate;
//! * tenant viewer: every query is constrained to its tenant, creates are
//!   stamped with it;
//! * system viewer (seeds, internal jobs): bypasses all tenant predicates.

use vstd::prelude::*;
use crate::json::JsonValue;
use crate::token::{payload_from_claims, UserTokenPayload};

verus! {

#[derive(Clone, Debug, Copy, PartialEq, Eq, Structural)]
pub enum ViewerKind {
    /// No credentials (public routes).
    Noop,
    /// A verified user context: platform when tenant 0.
    User,
    /// Bypasses tenancy (seeds, internal jobs).
    System,
}

/// The viewer context.
#[derive(Clone, Debug, Copy, PartialEq, Eq, Structural)]
pub struct Viewer {
    pub kind: ViewerKind,
    pub user_id: u32,
    pub tenant_id: u32,
}

impl Viewer {
    /// The noop viewer (public routes).
    pub fn noop() -> (r: Self)
        ensures
            r == (Viewer { kind: ViewerKind::Noop, user_id: 0, tenant_id: 0 }),
    {
        Viewer { kind: ViewerKind::Noop, user_id: 0, tenant_id: 0 }
    }

    /// The system viewer.
    pub fn system() -> (r: Self)
        ensures
            r == (Viewer { kind: ViewerKind::System, user_id: 0, tenant_id: 0 }),
    {
        Viewer { kind: ViewerKind::System, user_id: 0, tenant_id: 0 }
    }

    /// From a request's claim bag: a user viewer when the claims carry an
    /// identity, else the noop viewer.
    pub fn from_claims(claims: Option<&Vec<(String, JsonValue)>>) -> (r: Self)
        ensures
            r == match claims {
                Some(c) => match payload_from_claims(c@) {
                    Some(p) => Viewer {
                        kind: ViewerKind::User,
                        user_id: p.user_id,
                        tenant_id: p.tenant_id,
                    },
                    None => Viewer { kind: ViewerKind::Noop, user_id: 0, tenant_id: 0 },
                },
                None => Viewer { kind: ViewerKind::Noop, user_id: 0, tenant_id: 0 },
            },
    {
        match claims {
            Some(c) => match UserTokenPayload::from_claims(c) {
                Some(p) => Viewer { kind: ViewerKind::User, user_id: p.user_id, tenant_id: p.tenant_id },
                None => Self::noop(),
            },
            None => Self::noop(),
        }
    }

    /// The tenant rows must be constrained to, if any.
    pub open spec fn scope(&self) -> Option<u32> {
        if self.kind == ViewerKind::User && self.tenant_id > 0 {
            Some(self.tenant_id)
        } else {
            None
        }
    }

    /// Tenant enforcement — `Some(tenant)` when rows must be constrained,
    /// `None` for platform/system/noop wide reads.
    pub fn tenant_scope(&self) -> (r: Option<u32>)
        ensures
            r == self.scope(),
    {
        match self.kind {
            ViewerKind::User if self.tenant_id > 0 => Some(self.tenant_id),
            _ => None,
        }
    }

    /// Create stamping: tenant viewers force their tenant onto new rows;
    /// others keep the requested tenant, platform (0) when none.
    pub fn stamp_tenant(&self, requested: Option<u32>) -> (r: Option<u32>)
        ensures
            r == match self.scope() {
                Some(t) => Some(t),
                None => match requested {
                    Some(t) => Some(t),
                    None => Some(0u32),
                },
            },
    {
        match self.kind {
            ViewerKind::User if self.tenant_id > 0 => Some(self.tenant_id),
            _ => match requested {
                Some(t) => Some(t),
                None => Some(0),
            },
        }
    }
}

/// A tenant viewer can never stamp a row with another tenant, nor read
/// without its own tenant predicate.
pub proof fn lemma_tenant_viewer_is_confined(v: Viewer, requested: Option<u32>)
    requires
        v.kind == ViewerKind::User,
        v.tenant_id > 0,
    ensures
        v.scope() == Some(v.tenant_id),
        (match v.scope() {
            Some(t) => Some(t),
            None => match requested {
                Some(t) => Some(t),
                None => Some(0u32),
            },
        }) == Some(v.tenant_id),
{
}

} // verus!
