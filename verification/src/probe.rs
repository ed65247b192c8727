//! What one backend answered to one replayed request.

use vstd::prelude::*;

verus! {

/// A probe outcome for one backend.
pub struct ProbeResult {
    /// Whether the backend answered anything at all (a refused connection
    /// or a timeout counts as unreachable; any HTTP status counts as up).
    pub reachable: bool,
    /// The HTTP status, when reachable.
    pub status: Option<u16>,
    /// The response body, when reachable.
    pub body: Option<Vec<u8>>,
    /// The CORS response headers (name, value when present), captured only
    /// for the CORS case kind.
    pub cors: Option<Vec<(String, Option<String>)>>,
}

impl ProbeResult {
    /// The unreachable probe.
    pub fn down() -> (r: Self)
        ensures
            !r.reachable,
            r.status is None,
            r.body is None,
            r.cors is None,
    {
        ProbeResult { reachable: false, status: None, body: None, cors: None }
    }
}

/// The report-facing projection of a probe result.
pub struct Side {
    pub reachable: bool,
    pub status: Option<u16>,
    pub len: Option<usize>,
}

impl Side {
    /// Reachability, status, and the body length of a probe.
    pub fn of(p: &ProbeResult) -> (r: Self)
        ensures
            r.reachable == p.reachable,
            r.status == p.status,
            r.len == match p.body {
                Some(b) => Some(b.len()),
                None => None::<usize>,
            },
    {
        Side {
            reachable: p.reachable,
            status: p.status,
            len: match &p.body {
                Some(b) => Some(b.len()),
                None => None,
            },
        }
    }
}

} // verus!
