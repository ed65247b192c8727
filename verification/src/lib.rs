//! The admin service's decision logic: tenancy scoping, login-risk
//! scoring, token claim mapping, upload and media checks, permission code
//! derivation, org-tree path maintenance, tenant access checks, and the
//! differential comparators of the replay testbed.

pub mod accounts;
pub mod authz_trail;
pub mod compare;
pub mod config;
pub mod corpus;
pub mod edits;
pub mod errors;
pub mod files;
pub mod instants;
pub mod json;
pub mod login_guard;
pub mod menu_codes;
pub mod message_codes;
pub mod messaging;
pub mod monitor_info;
pub mod org_codes;
pub mod org_tree;
pub mod org_units;
pub mod permission;
pub mod permission_sync;
pub mod json_serde;
pub mod position_codes;
pub mod probe;
pub mod report;
pub mod resolve_cache;
pub mod risk;
pub mod scheduler;
pub mod script_codes;
pub mod scope;
pub mod semantic;
pub mod session;
pub mod sessions;
pub mod tenant_access;
pub mod tenant_codes;
pub mod tenant_plan;
pub mod text;
pub mod token;

pub use probe::ProbeResult;
