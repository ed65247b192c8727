//! The task scheduler's decisions: which handler a queued job runs, how
//! a queued job reads, which periodic task rows fire on a tick, and which
//! tenants the expiry scan marks.

use vstd::prelude::*;
use crate::json::{get, has_key, entry_value, JsonValue};
use crate::text::{chars_of, push_str, str_eq, string_of};

verus! {

/// The handler a job runs.
pub enum TaskKind {
    /// Marks the tenants whose subscription expired.
    TenantExpiryScan,
    /// The audit retention export.
    AuditLogArchive,
    /// A job that is only logged (`backup`, `broadcast_message`,
    /// `script_task`).
    Logged,
    /// An unknown job type.
    Unknown,
}

/// The handler of a job type.
pub fn task_kind(job_type: &str) -> (r: TaskKind)
    ensures
        r == (if job_type@ == "tenant_expiry_scan"@ {
            TaskKind::TenantExpiryScan
        } else if job_type@ == "audit_log_archive"@ {
            TaskKind::AuditLogArchive
        } else if job_type@ == "backup"@ || job_type@ == "broadcast_message"@ || job_type@
            == "script_task"@ {
            TaskKind::Logged
        } else {
            TaskKind::Unknown
        }),
{
    if str_eq(job_type, "tenant_expiry_scan") {
        TaskKind::TenantExpiryScan
    } else if str_eq(job_type, "audit_log_archive") {
        TaskKind::AuditLogArchive
    } else if str_eq(job_type, "backup") || str_eq(job_type, "broadcast_message") || str_eq(
        job_type,
        "script_task",
    ) {
        TaskKind::Logged
    } else {
        TaskKind::Unknown
    }
}

/// A queued job as its envelope reads: an object whose `type` is a
/// string, with its `payload` (null when absent); or the same two members
/// in order as an array.
pub open spec fn job_of(doc: JsonValue) -> Option<(Seq<char>, JsonValue)> {
    match doc {
        JsonValue::Object(e) => if has_key(e@, "type"@) {
            match entry_value(e@, "type"@) {
                JsonValue::String(t) => Some(
                    (
                        t@,
                        if has_key(e@, "payload"@) {
                            entry_value(e@, "payload"@)
                        } else {
                            JsonValue::Null
                        },
                    ),
                ),
                _ => None,
            }
        } else {
            None
        },
        JsonValue::Array(items) => if 1 <= items@.len() <= 2 {
            match items@[0] {
                JsonValue::String(t) => Some(
                    (
                        t@,
                        if items@.len() == 2 {
                            items@[1]
                        } else {
                            JsonValue::Null
                        },
                    ),
                ),
                _ => None,
            }
        } else {
            None
        },
        _ => None,
    }
}

/// Reads a queued job's envelope: its type and payload.
pub fn decode_job(doc: JsonValue) -> (r: Option<(String, JsonValue)>)
    ensures
        match r {
            Some((t, p)) => job_of(doc) == Some((t@, p)),
            None => job_of(doc) is None,
        },
{
    match doc {
        JsonValue::Object(e) => {
            let t = match get(&e, "type") {
                Some(JsonValue::String(t)) => t.clone(),
                _ => return None,
            };
            let p = match crate::json::find_key(&e, "payload") {
                Some(i) => {
                    let mut rest = e;
                    let (_, v) = rest.remove(i);
                    v
                },
                None => JsonValue::Null,
            };
            Some((t, p))
        },
        JsonValue::Array(items) => {
            if items.len() < 1 || items.len() > 2 {
                return None;
            }
            let t = match &items[0] {
                JsonValue::String(t) => t.clone(),
                _ => return None,
            };
            let p = if items.len() == 2 {
                let mut rest = items;
                rest.remove(1)
            } else {
                JsonValue::Null
            };
            Some((t, p))
        },
        _ => None,
    }
}

/// What a periodic task row's schedule says at a tick.
pub enum CronCheck {
    /// The row has no schedule.
    NoSpec,
    /// The schedule does not parse.
    Invalid,
    /// The schedule parses; whether it matches the tick.
    Checked(bool),
}

/// Row `i` fires: its schedule matches and no earlier row of the same
/// task type fired on this tick.
pub open spec fn fires(rows: Seq<(String, CronCheck)>, i: int) -> bool {
    &&& rows[i].1 == CronCheck::Checked(true)
    &&& forall|j: int|
        0 <= j < i ==> !(rows[j].1 == CronCheck::Checked(true) && rows[j].0@ == rows[i].0@)
}

/// The rows that fire on a tick, in row order.
pub fn periodic_firings(rows: &Vec<(String, CronCheck)>) -> (r: Vec<usize>)
    ensures
        forall|k: int| 0 <= k < r@.len() ==> r@[k] < rows@.len() && fires(rows@, r@[k] as int),
        forall|i: int| 0 <= i < rows@.len() && fires(rows@, i) ==> r@.contains(i as usize),
        forall|a: int, b: int| 0 <= a < b < r@.len() ==> r@[a] < r@[b],
{
    let mut out: Vec<usize> = Vec::new();
    let mut i: usize = 0;
    while i < rows.len()
        invariant
            i <= rows@.len(),
            forall|k: int| 0 <= k < out@.len() ==> out@[k] < i && fires(rows@, out@[k] as int),
            forall|t: int| 0 <= t < i && fires(rows@, t) ==> out@.contains(t as usize),
            forall|a: int, b: int| 0 <= a < b < out@.len() ==> out@[a] < out@[b],
        decreases rows@.len() - i,
    {
        let matched = match rows[i].1 {
            CronCheck::Checked(m) => m,
            _ => false,
        };
        if matched {
            let mut dup = false;
            let mut k: usize = 0;
            while k < out.len()
                invariant
                    k <= out@.len(),
                    i < rows@.len(),
                    rows@[i as int].1 == CronCheck::Checked(true),
                    forall|q: int| 0 <= q < out@.len() ==> out@[q] < i && fires(rows@, out@[q] as int),
                    forall|t: int| 0 <= t < i && fires(rows@, t) ==> out@.contains(t as usize),
                    dup == exists|q: int| 0 <= q < k && rows@[out@[q] as int].0@ == rows@[i as int].0@,
                decreases out@.len() - k,
            {
                if str_eq(rows[out[k]].0.as_str(), rows[i].0.as_str()) {
                    dup = true;
                }
                k += 1;
            }
            proof {
                if dup {
                    // An earlier row of the same type fired.
                    let q = choose|q: int| 0 <= q < out@.len() && rows@[out@[q] as int].0@ == rows@[i as int].0@;
                    assert(!fires(rows@, i as int));
                } else {
                    // Any earlier matching row of the same type would have fired.
                    assert forall|j: int| 0 <= j < i implies !(rows@[j].1 == CronCheck::Checked(true)
                        && rows@[j].0@ == rows@[i as int].0@) by {
                        if rows@[j].1 == CronCheck::Checked(true) && rows@[j].0@ == rows@[i as int].0@ {
                            lemma_first_of_type_fires(rows@, j);
                            let f = first_of_type(rows@, j);
                            assert(out@.contains(f as usize));
                            let q = choose|q: int| 0 <= q < out@.len() && out@[q] == f as usize;
                            assert(rows@[out@[q] as int].0@ == rows@[i as int].0@);
                        }
                    }
                }
            }
            if !dup {
                let ghost old_out = out@;
                out.push(i);
                proof {
                    assert forall|t: int| 0 <= t < i && fires(rows@, t) implies out@.contains(
                        t as usize,
                    ) by {
                        let q = choose|q: int| 0 <= q < old_out.len() && old_out[q] == t as usize;
                        assert(out@[q] == old_out[q]);
                    }
                    assert(out@[old_out.len() as int] == i);
                }
            }
        } else {
            assert(!fires(rows@, i as int));
        }
        i += 1;
    }
    out
}

/// The first row up to `j` that matches with the type of row `j`.
pub open spec fn first_of_type(rows: Seq<(String, CronCheck)>, j: int) -> int
    decreases j,
{
    if j <= 0 {
        0
    } else if exists|k: int|
        0 <= k < j && rows[k].1 == CronCheck::Checked(true) && rows[k].0@ == rows[j].0@ {
        let k = choose|k: int|
            0 <= k < j && rows[k].1 == CronCheck::Checked(true) && rows[k].0@ == rows[j].0@;
        first_of_type(rows, k)
    } else {
        j
    }
}

proof fn lemma_first_of_type_fires(rows: Seq<(String, CronCheck)>, j: int)
    requires
        0 <= j < rows.len(),
        rows[j].1 == CronCheck::Checked(true),
    ensures
        0 <= first_of_type(rows, j) <= j,
        fires(rows, first_of_type(rows, j)),
        rows[first_of_type(rows, j)].0@ == rows[j].0@,
    decreases j,
{
    if j > 0 && exists|k: int|
        0 <= k < j && rows[k].1 == CronCheck::Checked(true) && rows[k].0@ == rows[j].0@ {
        let k = choose|k: int|
            0 <= k < j && rows[k].1 == CronCheck::Checked(true) && rows[k].0@ == rows[j].0@;
        lemma_first_of_type_fires(rows, k);
    }
}

/// The wildcard job acts on whole minutes only.
pub fn tick_due(second: u32) -> (r: bool)
    ensures
        r == (second == 0),
{
    second == 0
}

/// The expiry scan marks a tenant: switched `ON` with an expiry at or
/// before `now`.
pub fn expiry_due(status: &Option<String>, expired_at: Option<i64>, now: i64) -> (r: bool)
    ensures
        r == ((status matches Some(s) && s@ == "ON"@) && (expired_at matches Some(at) && at
            <= now)),
{
    let on = match status {
        Some(s) => str_eq(s.as_str(), "ON"),
        None => false,
    };
    on && match expired_at {
        Some(at) => at <= now,
        None => false,
    }
}

/// The cron jobs the service registers, by name and schedule: the hourly
/// tenant expiry scan, the nightly audit-log archive at 03:30, and the
/// per-minute sweep of the periodic task rows.
pub open spec fn cron_table_spec() -> Seq<(Seq<char>, Seq<char>)> {
    seq![
        ("tenant_expiry_scan"@, "0 * * * *"@),
        ("audit_log_archive"@, "30 3 * * *"@),
        ("sys_tasks_periodic"@, "* * * * *"@),
    ]
}

/// The cron jobs the service registers, in registration order: name and
/// schedule.
pub fn cron_table() -> (r: Vec<(&'static str, &'static str)>)
    ensures
        r@.map_values(|e: (&'static str, &'static str)| (e.0@, e.1@)) == cron_table_spec(),
{
    let mut v: Vec<(&'static str, &'static str)> = Vec::new();
    v.push(("tenant_expiry_scan", "0 * * * *"));
    v.push(("audit_log_archive", "30 3 * * *"));
    v.push(("sys_tasks_periodic", "* * * * *"));
    assert(v@.map_values(|e: (&'static str, &'static str)| (e.0@, e.1@)) =~= cron_table_spec());
    v
}

/// The status the expiry scan writes.
pub const EXPIRED_STATUS: &'static str = "EXPIRED";

/// The endpoint a queue worker reports: `apalis-postgres://{queue}`.
pub fn queue_endpoint(queue: &str) -> (r: String)
    ensures
        r@ == "apalis-postgres://"@ + queue@,
{
    let mut v = chars_of("apalis-postgres://");
    push_str(&mut v, queue);
    string_of(v.as_slice())
}

} // verus!
