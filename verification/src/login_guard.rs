//! The login guards: the failure counters (per IP and per username, a
//! lockout at five failures within a fifteen-minute window) and the
//! captcha challenges (six characters from an unambiguous alphabet, kept
//! for ten minutes, consumed by a matching answer).

use vstd::prelude::*;
use crate::text::{chars_of, chars_eq, push_str, string_of};

verus! {

/// Failures at which a dimension locks.
pub const LOGIN_FAIL_THRESHOLD: i64 = 5;

/// The lockout window, in seconds.
pub const LOGIN_LOCKOUT_SECS: i64 = 900;

/// The captcha alphabet: letters and digits without the look-alikes.
pub const CAPTCHA_SOURCE: &'static str = "ABCDEFGHJKLMNPQRSTUVWXYZ23456789";

/// How long a captcha answer is kept, in seconds.
pub const CAPTCHA_TTL_SECS: u64 = 600;

/// The failure counter keys of a login attempt: the IP's, then the
/// username's, each only when given.
pub open spec fn fail_keys_spec(ip: Seq<char>, username: Seq<char>) -> Seq<Seq<char>> {
    let by_ip = if ip.len() > 0 {
        seq!["admin:login:fail:ip:"@ + ip]
    } else {
        seq![]
    };
    if username.len() > 0 {
        by_ip.push("admin:login:fail:user:"@ + username)
    } else {
        by_ip
    }
}

fn prefixed(prefix: &str, s: &str) -> (r: String)
    ensures
        r@ == prefix@ + s@,
{
    let mut out: Vec<char> = Vec::new();
    push_str(&mut out, prefix);
    push_str(&mut out, s);
    string_of(out.as_slice())
}

/// The failure counter keys of a login attempt.
pub fn fail_keys(ip: &str, username: &str) -> (r: Vec<String>)
    ensures
        r@.map_values(|k: String| k@) == fail_keys_spec(ip@, username@),
{
    let mut keys: Vec<String> = Vec::new();
    if chars_of(ip).len() > 0 {
        keys.push(prefixed("admin:login:fail:ip:", ip));
    }
    if chars_of(username).len() > 0 {
        keys.push(prefixed("admin:login:fail:user:", username));
    }
    assert(keys@.map_values(|k: String| k@) =~= fail_keys_spec(ip@, username@));
    keys
}

/// Whether a stored failure count locks its dimension (an unreadable or
/// missing counter counts as none).
pub fn count_locks(count: Option<i64>) -> (r: bool)
    ensures
        r == (match count {
            Some(c) => c >= LOGIN_FAIL_THRESHOLD,
            None => false,
        }),
{
    match count {
        Some(c) => c >= LOGIN_FAIL_THRESHOLD,
        None => false,
    }
}

/// The pre-login gate over the counters of the attempt's keys, in key
/// order: locked when any counter has reached the threshold.
pub fn is_locked_by(counts: &Vec<Option<i64>>) -> (r: bool)
    ensures
        r == exists|i: int|
            0 <= i < counts@.len() && (#[trigger] counts@[i] matches Some(c) && c
                >= LOGIN_FAIL_THRESHOLD),
{
    let mut i: usize = 0;
    while i < counts.len()
        invariant
            i <= counts.len(),
            forall|j: int|
                0 <= j < i ==> !(#[trigger] counts@[j] matches Some(c) && c >= LOGIN_FAIL_THRESHOLD),
        decreases counts.len() - i,
    {
        if count_locks(counts[i]) {
            return true;
        }
        i += 1;
    }
    false
}

/// Whether the counter script's answer for one key reports a lock (the
/// first member 1); an unreadable answer reports none.
pub fn increment_locks(answer: Option<(i32, i32)>) -> (r: bool)
    ensures
        r == (answer matches Some((locked, _)) && locked == 1),
{
    match answer {
        Some((locked, _)) => locked == 1,
        None => false,
    }
}

/// The store key of a captcha.
pub open spec fn captcha_key_spec(id: Seq<char>) -> Seq<char> {
    "admin:captcha:"@ + id
}

/// The store key of a captcha.
pub fn captcha_key(id: &str) -> (r: String)
    ensures
        r@ == captcha_key_spec(id@),
{
    prefixed("admin:captcha:", id)
}

/// The data URL of a base64 PNG.
pub fn png_data_url(b64: &str) -> (r: String)
    ensures
        r@ == "data:image/png;base64,"@ + b64@,
{
    prefixed("data:image/png;base64,", b64)
}

/// Whether a captcha is to be looked up at all: both the id and the
/// answer are given.
pub fn captcha_answerable(id: &str, value: &str) -> (r: bool)
    ensures
        r == (id@.len() > 0 && value@.len() > 0),
{
    chars_of(id).len() > 0 && chars_of(value).len() > 0
}

/// Whether the stored answer matches (a missing one never does); a match
/// consumes the captcha.
pub fn captcha_matches(stored: &Option<String>, value: &str) -> (r: bool)
    ensures
        r == (stored matches Some(s) && s@ == value@),
{
    match stored {
        Some(s) => chars_eq(chars_of(s.as_str()).as_slice(), chars_of(value).as_slice()),
        None => false,
    }
}

} // verus!
