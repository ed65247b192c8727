//! The online-session catalog: the session metadata a login leaves, the
//! keyword filter and the newest-first order of the admin listing, its
//! paging window, and the checks of a forced or self-service logout.

use vstd::prelude::*;
use crate::text::{chars_of, contains, contains_chars, str_eq};

verus! {

/// The metadata row of a session.
pub struct SessionMeta {
    pub username: String,
    pub tenant_id: u32,
    pub ip: String,
    pub user_agent: String,
    pub device: Option<String>,
    pub login_at: String,
}

/// Whether a session passes the listing's keyword filter; the keyword
/// and the session's username and IP come lower-cased.
pub fn session_matches(keyword: &str, username: &str, ip: &str) -> (r: bool)
    ensures
        r == (keyword@.len() == 0 || contains(username@, keyword@) || contains(ip@, keyword@)),
{
    let k = chars_of(keyword);
    if k.len() == 0 {
        return true;
    }
    contains_chars(chars_of(username).as_slice(), k.as_slice()) || contains_chars(
        chars_of(ip).as_slice(),
        k.as_slice(),
    )
}

/// The order of login instants: an unknown instant comes before any known
/// one.
pub open spec fn login_lt(a: Option<i64>, b: Option<i64>) -> bool {
    match (a, b) {
        (None, Some(_)) => true,
        (Some(x), Some(y)) => x < y,
        _ => false,
    }
}

/// `r` lists each of `0..n` exactly once.
pub open spec fn is_permutation(r: Seq<usize>, n: nat) -> bool {
    &&& r.len() == n
    &&& forall|i: int| 0 <= i < r.len() ==> r[i] < n
    &&& forall|i: int, j: int| 0 <= i < j < r.len() ==> r[i] != r[j]
}

/// `r` orders the sessions newest first, sessions with the same instant
/// in their listing order.
pub open spec fn newest_first(keys: Seq<Option<i64>>, r: Seq<usize>) -> bool {
    &&& forall|i: int, j: int|
        0 <= i < j < r.len() ==> !login_lt(keys[r[i] as int], keys[r[j] as int])
    &&& forall|i: int, j: int|
        0 <= i < j < r.len() && keys[r[i] as int] == keys[r[j] as int] ==> r[i] < r[j]
}

/// The listing order of sessions by their login instants: newest first,
/// equal instants (unknown ones included) kept in listing order.
pub fn order_newest_first(keys: &Vec<Option<i64>>) -> (r: Vec<usize>)
    ensures
        is_permutation(r@, keys@.len()),
        newest_first(keys@, r@),
{
    let mut r: Vec<usize> = Vec::new();
    let mut idx: usize = 0;
    while idx < keys.len()
        invariant
            idx <= keys@.len(),
            r@.len() == idx,
            forall|i: int| 0 <= i < r@.len() ==> r@[i] < idx,
            forall|i: int, j: int| 0 <= i < j < r@.len() ==> r@[i] != r@[j],
            newest_first(keys@, r@),
        decreases keys@.len() - idx,
    {
        let k = keys[idx];
        let mut p: usize = 0;
        while p < r.len() && !login_lt_exec(keys[r[p]], k)
            invariant
                p <= r@.len(),
                forall|i: int| 0 <= i < r@.len() ==> r@[i] < idx,
                idx < keys@.len(),
                k == keys@[idx as int],
                forall|t: int| 0 <= t < p ==> !login_lt(keys@[r@[t] as int], k),
            decreases r@.len() - p,
        {
            p += 1;
        }
        let ghost old_r = r@;
        r.insert(p, idx);
        proof {
            assert forall|t: int| 0 <= t < r@.len() implies #[trigger] r@[t] == (if t < p {
                old_r[t]
            } else if t == p {
                idx
            } else {
                old_r[t - 1]
            }) by {}
            // Everything after the insertion point is strictly older.
            if p < old_r.len() {
                assert(login_lt(keys@[old_r[p as int] as int], k));
            }
            assert forall|i: int, j: int| 0 <= i < j < r@.len() implies !login_lt(
                keys@[r@[i] as int],
                keys@[r@[j] as int],
            ) by {
                if i < p && j == p {
                } else if i == p && j > p {
                    let kj = keys@[old_r[j - 1] as int];
                    let kp = keys@[old_r[p as int] as int];
                    if j - 1 > p {
                        assert(!login_lt(kp, kj));
                    }
                } else if i < p && j > p {
                    let ki = keys@[old_r[i] as int];
                    let kj = keys@[old_r[j - 1] as int];
                    assert(!login_lt(ki, kj));
                } else if i > p {
                    assert(r@[i] == old_r[i - 1] && r@[j] == old_r[j - 1]);
                } else {
                    assert(r@[i] == old_r[i] && r@[j] == old_r[j]);
                }
            }
            assert forall|i: int, j: int|
                0 <= i < j < r@.len() && keys@[r@[i] as int] == keys@[r@[j] as int] implies r@[i]
                < r@[j] by {
                if i == p && j > p {
                    let kp = keys@[old_r[p as int] as int];
                    let kj = keys@[old_r[j - 1] as int];
                    if j - 1 > p {
                        assert(!login_lt(kp, kj));
                    }
                    assert(login_lt(kp, k));
                } else if i < p && j == p {
                } else if i > p {
                    assert(r@[i] == old_r[i - 1] && r@[j] == old_r[j - 1]);
                } else if i < p && j > p {
                    assert(r@[i] == old_r[i] && r@[j] == old_r[j - 1]);
                }
            }
            assert forall|i: int, j: int| 0 <= i < j < r@.len() implies r@[i] != r@[j] by {
                if i != p && j != p {
                    let oi = if i < p {
                        i
                    } else {
                        i - 1
                    };
                    let oj = if j < p {
                        j
                    } else {
                        j - 1
                    };
                    assert(oi < oj);
                }
            }
        }
        idx += 1;
    }
    r
}

fn login_lt_exec(a: Option<i64>, b: Option<i64>) -> (r: bool)
    ensures
        r == login_lt(a, b),
{
    match (a, b) {
        (None, Some(_)) => true,
        (Some(x), Some(y)) => x < y,
        _ => false,
    }
}

/// The window of a listing page: pages count from 1 and hold at least one
/// item (10 when unsaid); the window is clipped to the listing.
pub open spec fn page_window(total: nat, page: Option<i32>, page_size: Option<i32>) -> (nat, nat) {
    let p = match page {
        Some(v) => if v < 1 {
            1
        } else {
            v as int
        },
        None => 1,
    };
    let s = match page_size {
        Some(v) => if v < 1 {
            1
        } else {
            v as int
        },
        None => 10,
    };
    let start = (p - 1) * s;
    let end = start + s;
    (
        if start > total {
            total
        } else {
            start as nat
        },
        if end > total {
            total
        } else {
            end as nat
        },
    )
}

/// The window `[start, end)` of the listing a page shows.
pub fn page_bounds(total: usize, page: Option<i32>, page_size: Option<i32>) -> (r: (usize, usize))
    ensures
        (r.0 as nat, r.1 as nat) == page_window(total as nat, page, page_size),
{
    let p: u64 = match page {
        Some(v) => if v < 1 {
            1
        } else {
            v as u64
        },
        None => 1,
    };
    let s: u64 = match page_size {
        Some(v) => if v < 1 {
            1
        } else {
            v as u64
        },
        None => 10,
    };
    assert((p - 1) * s <= 2147483647u64 * 2147483647u64) by (nonlinear_arith)
        requires
            1 <= p <= 2147483647,
            1 <= s <= 2147483647,
    ;
    let start: u64 = (p - 1) * s;
    let end: u64 = start + s;
    let t: u64 = total as u64;
    let a: usize = if start > t {
        total
    } else {
        start as usize
    };
    let b: usize = if end > t {
        total
    } else {
        end as usize
    };
    (a, b)
}

/// Who a forced logout signs out.
pub enum LogoutTarget {
    /// One session of the user.
    Session(u32, String),
    /// Every session of the user.
    User(u32),
}

/// A forced logout: a user is required; a non-empty token id narrows it
/// to that session.
pub fn logout_target(user_id: Option<u32>, jti: Option<&str>) -> (r: Result<LogoutTarget, String>)
    ensures
        (match user_id {
            Some(u) => u,
            None => 0,
        }) == 0 ==> (r matches Err(e) && e@ == "user_id required"@),
        (user_id matches Some(u) && u != 0) ==> match jti {
            Some(j) => if j@.len() > 0 {
                r matches Ok(LogoutTarget::Session(x, s)) && x == user_id->0 && s@ == j@
            } else {
                r matches Ok(LogoutTarget::User(x)) && x == user_id->0
            },
            None => r matches Ok(LogoutTarget::User(x)) && x == user_id->0,
        },
{
    let uid = match user_id {
        Some(u) => u,
        None => 0,
    };
    if uid == 0 {
        return Err("user_id required".to_owned());
    }
    match jti {
        Some(j) => if chars_of(j).len() > 0 {
            Ok(LogoutTarget::Session(uid, j.to_owned()))
        } else {
            Ok(LogoutTarget::User(uid))
        },
        None => Ok(LogoutTarget::User(uid)),
    }
}

/// A self-service revoke: the token id is required and must name one of
/// the operator's own sessions.
pub fn own_session_check(jti: Option<&str>, own: &Vec<String>) -> (r: Result<String, (String, String)>)
    ensures
        (match jti {
            Some(j) => j@.len() == 0,
            None => true,
        }) ==> (r matches Err((reason, text)) && reason@ == "BAD_REQUEST"@ && text@
            == "jti required"@),
        (jti matches Some(j) && j@.len() > 0) ==> if exists|i: int|
            0 <= i < own@.len() && own@[i]@ == jti->0@ {
            r matches Ok(s) && s@ == jti->0@
        } else {
            r matches Err((reason, text)) && reason@ == "FORBIDDEN"@ && text@
                == "session does not belong to the operator"@
        },
{
    let j = match jti {
        Some(j) => j,
        None => return Err(("BAD_REQUEST".to_owned(), "jti required".to_owned())),
    };
    if chars_of(j).len() == 0 {
        return Err(("BAD_REQUEST".to_owned(), "jti required".to_owned()));
    }
    let mut i: usize = 0;
    while i < own.len()
        invariant
            i <= own@.len(),
            jti == Some(j),
            j@.len() > 0,
            forall|t: int| 0 <= t < i ==> own@[t]@ != j@,
        decreases own@.len() - i,
    {
        if str_eq(own[i].as_str(), j) {
            return Ok(j.to_owned());
        }
        i += 1;
    }
    Err(("FORBIDDEN".to_owned(), "session does not belong to the operator".to_owned()))
}

/// The UNIX seconds of a naive UTC date-time `text` read in the chrono
/// `format`, if it reads.
pub uninterp spec fn naive_seconds(text: Seq<char>, format: Seq<char>) -> Option<i64>;

/// `chrono::NaiveDateTime::parse_from_str`, then the UNIX seconds of the
/// date-time taken as UTC: claims the result is a function of the text
/// and the format alone.
#[verifier::external_body]
fn parse_naive_seconds(text: &str, format: &str) -> (r: Option<i64>)
    ensures
        r == naive_seconds(text@, format@),
{
    chrono::NaiveDateTime::parse_from_str(text, format).ok().map(|t| t.and_utc().timestamp())
}

/// The login instant a session row records, in UNIX seconds: read with
/// fractional seconds, else without.
pub fn login_at_seconds(text: &str) -> (r: Option<i64>)
    ensures
        r == (match naive_seconds(text@, "%Y-%m-%d %H:%M:%S%.f"@) {
            Some(v) => Some(v),
            None => naive_seconds(text@, "%Y-%m-%d %H:%M:%S"@),
        }),
{
    match parse_naive_seconds(text, "%Y-%m-%d %H:%M:%S%.f") {
        Some(v) => Some(v),
        None => parse_naive_seconds(text, "%Y-%m-%d %H:%M:%S"),
    }
}

} // verus!
