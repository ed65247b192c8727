//! The spellings of the session/token cache: the whitelist and session
//! keys, their parsing back, and the refresh cookies.

use vstd::prelude::*;
use crate::text::{lemma_dec_digits, lemma_split_nonempty, split_chars, split_on};
use crate::text::{
    all_digits, chars_of, dec, dec_int, decimal, decimal_signed, digits_value, parse_unsigned,
    parse_unsigned_chars, push_chars, push_str, string_of,
};

verus! {

/// `prefix:ct:uid:jti`
pub open spec fn cache_key(prefix: Seq<char>, ct: u32, uid: u32, jti: Seq<char>) -> Seq<char> {
    prefix + seq![':'] + dec(ct as nat) + seq![':'] + dec(uid as nat) + seq![':'] + jti
}

fn key_of(prefix: &str, ct: u32, uid: u32, jti: &str) -> (r: String)
    ensures
        r@ == cache_key(prefix@, ct, uid, jti@),
{
    let mut v = chars_of(prefix);
    v.push(':');
    push_chars(&mut v, decimal(ct as u64).as_slice());
    v.push(':');
    push_chars(&mut v, decimal(uid as u64).as_slice());
    v.push(':');
    push_str(&mut v, jti);
    string_of(v.as_slice())
}

/// The access-token whitelist key `at:{ct}:{uid}:{jti}`.
pub fn at_key(ct: u32, uid: u32, jti: &str) -> (r: String)
    ensures
        r@ == cache_key("at"@, ct, uid, jti@),
{
    key_of("at", ct, uid, jti)
}

/// The refresh-token whitelist key `rt:{ct}:{uid}:{jti}`.
pub fn rt_key(ct: u32, uid: u32, jti: &str) -> (r: String)
    ensures
        r@ == cache_key("rt"@, ct, uid, jti@),
{
    key_of("rt", ct, uid, jti)
}

/// The session-meta key `us:{ct}:{uid}:{jti}`.
pub fn us_key(ct: u32, uid: u32, jti: &str) -> (r: String)
    ensures
        r@ == cache_key("us"@, ct, uid, jti@),
{
    key_of("us", ct, uid, jti)
}

/// The blocklist key `bl:{jti}`.
pub fn bl_key(jti: &str) -> (r: String)
    ensures
        r@ == "bl:"@ + jti@,
{
    let mut v = chars_of("bl:");
    push_str(&mut v, jti);
    string_of(v.as_slice())
}

/// The scan pattern of every `prefix` key of a user: `prefix:ct:uid:*`.
pub fn scan_pattern(prefix: &str, ct: u32, uid: u32) -> (r: String)
    ensures
        r@ == cache_key(prefix@, ct, uid, "*"@),
{
    key_of(prefix, ct, uid, "*")
}

/// The token id a cache key ends with: what follows its last `:` (the
/// whole key when it has none).
pub fn key_token_id(key: &str) -> (r: String)
    ensures
        r@ == split_on(key@, ':').last(),
{
    let k = chars_of(key);
    let parts = split_chars(k.as_slice(), ':');
    proof {
        lemma_split_nonempty(k@, ':');
    }
    string_of(parts[parts.len() - 1].as_slice())
}

/// Whether a stored refresh token is the one presented (a missing or
/// unreadable one never is).
pub fn stored_token_matches(stored: &Option<String>, token: &str) -> (r: bool)
    ensures
        r == (stored matches Some(s) && s@ == token@),
{
    match stored {
        Some(s) => crate::text::str_eq(s.as_str(), token),
        None => false,
    }
}

/// A session key read back: exactly four `:`-separated pieces, the
/// second and third decimal `u32`s (client type, user); the fourth the
/// token id.
pub open spec fn session_key_parts(key: Seq<char>) -> Option<(u32, u32, Seq<char>)> {
    let p = split_on(key, ':');
    if p.len() == 4 {
        match (parse_unsigned(p[1], u32::MAX as nat), parse_unsigned(p[2], u32::MAX as nat)) {
            (Some(ct), Some(uid)) => Some((ct as u32, uid as u32, p[3])),
            _ => None,
        }
    } else {
        None
    }
}

/// Reads a session key back into (client type, user, token id).
pub fn parse_session_key(key: &str) -> (r: Option<(u32, u32, String)>)
    ensures
        match r {
            Some((ct, uid, jti)) => session_key_parts(key@) == Some((ct, uid, jti@)),
            None => session_key_parts(key@) is None,
        },
{
    let k = chars_of(key);
    let parts = split_chars(k.as_slice(), ':');
    if parts.len() != 4 {
        return None;
    }
    match (
        parse_unsigned_chars(parts[1].as_slice(), 4294967295),
        parse_unsigned_chars(parts[2].as_slice(), 4294967295),
    ) {
        (Some(ct), Some(uid)) => Some((ct as u32, uid as u32, string_of(parts[3].as_slice()))),
        _ => None,
    }
}

/// Splitting a joined sequence splits each side.
pub proof fn lemma_split_join(x: Seq<char>, y: Seq<char>, sep: char)
    ensures
        split_on(x + seq![sep] + y, sep) == split_on(x, sep) + split_on(y, sep),
    decreases y.len(),
{
    lemma_split_nonempty(x, sep);
    if y.len() == 0 {
        assert((x + seq![sep] + y).drop_last() =~= x);
        assert(split_on(x + seq![sep] + y, sep) =~= split_on(x, sep) + split_on(y, sep));
    } else {
        let z = x + seq![sep] + y;
        assert(z.drop_last() =~= x + seq![sep] + y.drop_last());
        lemma_split_join(x, y.drop_last(), sep);
        lemma_split_nonempty(y.drop_last(), sep);
        if y.last() == sep {
            assert(split_on(z, sep) =~= split_on(x, sep) + split_on(y, sep));
        } else {
            assert(split_on(z, sep) =~= split_on(x, sep) + split_on(y, sep));
        }
    }
}

/// A sequence without the separator splits into itself alone.
pub proof fn lemma_split_plain(x: Seq<char>, sep: char)
    requires
        !x.contains(sep),
    ensures
        split_on(x, sep) == seq![x],
    decreases x.len(),
{
    if x.len() > 0 {
        assert(!x.drop_last().contains(sep)) by {
            if x.drop_last().contains(sep) {
                let i = choose|i: int| 0 <= i < x.drop_last().len() && x.drop_last()[i] == sep;
                assert(x[i] == sep);
            }
        }
        lemma_split_plain(x.drop_last(), sep);
        assert(x.last() != sep) by {
            assert(x[x.len() - 1] == sep ==> x.contains(sep));
        }
        assert(x.drop_last().push(x.last()) =~= x);
    } else {
        assert(x =~= seq![]);
    }
}


/// Reading back a session key yields what it was built from, when the
/// token id holds no `:`.
pub proof fn lemma_session_key_roundtrip(ct: u32, uid: u32, jti: Seq<char>)
    requires
        !jti.contains(':'),
    ensures
        session_key_parts(cache_key("us"@, ct, uid, jti)) == Some((ct, uid, jti)),
{
    reveal_strlit("us");
    let a = dec(ct as nat);
    let b = dec(uid as nat);
    lemma_dec_digits(ct as nat);
    lemma_dec_digits(uid as nat);
    let us = "us"@;
    assert(!us.contains(':')) by {
        if us.contains(':') {
            let i = choose|i: int| 0 <= i < us.len() && us[i] == ':';
        }
    }
    lemma_split_plain(us, ':');
    lemma_split_plain(a, ':');
    lemma_split_plain(b, ':');
    lemma_split_plain(jti, ':');
    let k = cache_key(us, ct, uid, jti);
    assert(k =~= ((us + seq![':'] + a) + seq![':'] + b) + seq![':'] + jti);
    lemma_split_join(us + seq![':'] + a, b, ':');
    lemma_split_join(us, a, ':');
    lemma_split_join((us + seq![':'] + a) + seq![':'] + b, jti, ':');
    let p = split_on(k, ':');
    assert(p =~= seq![us, a, b, jti]);
    assert(unsigned_digits_plain(a));
    assert(unsigned_digits_plain(b));
}

spec fn unsigned_digits_plain(s: Seq<char>) -> bool {
    crate::text::unsigned_digits(s) == s
}

/// The refresh cookie pair for a token whose cookies expire `max_age`
/// seconds after `now`.
pub open spec fn refresh_cookies(token: Seq<char>, max_age: i64, now: i64, secure: bool) -> (
    Seq<char>,
    Seq<char>,
) {
    let flag = if secure {
        "; Secure"@
    } else {
        ""@
    };
    (
        "refresh_token="@ + token + "; Path=/admin/v1/refresh-token; Max-Age="@ + dec_int(
            max_age as int,
        ) + "; HttpOnly; SameSite=Lax"@ + flag,
        "refresh_exp="@ + dec_int(now + max_age) + "; Path=/; Max-Age="@ + dec_int(max_age as int)
            + "; SameSite=Lax"@ + flag,
    )
}

/// The clearing cookie pair (`Max-Age=-1`).
pub open spec fn clear_cookies(secure: bool) -> (Seq<char>, Seq<char>) {
    let flag = if secure {
        "; Secure"@
    } else {
        ""@
    };
    (
        "refresh_token=; Path=/admin/v1/refresh-token; Max-Age=-1; HttpOnly; SameSite=Lax"@ + flag,
        "refresh_exp=; Path=/; Max-Age=-1; SameSite=Lax"@ + flag,
    )
}

fn secure_flag(secure: bool) -> (r: &'static str)
    ensures
        r@ == if secure {
            "; Secure"@
        } else {
            ""@
        },
{
    if secure {
        "; Secure"
    } else {
        ""
    }
}

/// The refresh cookie pair at time `now`; `None` exactly when the expiry
/// instant `now + max_age` does not fit an `i64`.
pub fn refresh_cookies_at(token: &str, max_age: i64, now: i64, secure: bool) -> (r: Option<
    (String, String),
>)
    ensures
        r is None <==> !(i64::MIN <= now + max_age <= i64::MAX),
        r matches Some(p) ==> (p.0@, p.1@) == refresh_cookies(token@, max_age, now, secure),
{
    let exp = match now.checked_add(max_age) {
        Some(e) => e,
        None => {
            return None;
        },
    };
    let flag = secure_flag(secure);
    let age = decimal_signed(max_age);
    let mut a = chars_of("refresh_token=");
    push_str(&mut a, token);
    push_str(&mut a, "; Path=/admin/v1/refresh-token; Max-Age=");
    push_chars(&mut a, age.as_slice());
    push_str(&mut a, "; HttpOnly; SameSite=Lax");
    push_str(&mut a, flag);
    let mut b = chars_of("refresh_exp=");
    push_chars(&mut b, decimal_signed(exp).as_slice());
    push_str(&mut b, "; Path=/; Max-Age=");
    push_chars(&mut b, age.as_slice());
    push_str(&mut b, "; SameSite=Lax");
    push_str(&mut b, flag);
    Some((string_of(a.as_slice()), string_of(b.as_slice())))
}

/// The session/token cache handle: the Redis connection and the token
/// lifetimes.
pub struct TokenStore {
    pub redis: redis::aio::ConnectionManager,
    pub access_expires_secs: i64,
    pub refresh_expires_secs: i64,
}

#[verifier::external_type_specification]
#[verifier::external_body]
pub struct ExConnectionManager(redis::aio::ConnectionManager);

impl TokenStore {
    pub fn new(
        redis: redis::aio::ConnectionManager,
        access_expires_secs: i64,
        refresh_expires_secs: i64,
    ) -> (r: Self)
        ensures
            r.access_expires_secs == access_expires_secs,
            r.refresh_expires_secs == refresh_expires_secs,
    {
        TokenStore { redis, access_expires_secs, refresh_expires_secs }
    }

    /// The Set-Cookie pair for a refresh token, the token cookie and the
    /// expiry cookie, both living as long as a refresh token:
    /// `refresh_cookies_at` of the clock's `now_unix` reading, `None` when
    /// that reading has no whole second in `i64`.
    pub fn refresh_cookie_values(&self, refresh_token: &str, secure: bool) -> (r: Option<
        (String, String),
    >)
        ensures
            r matches Some(p) ==> exists|now: i64|
                (p.0@, p.1@) == refresh_cookies(
                    refresh_token@,
                    self.refresh_expires_secs,
                    now,
                    secure,
                ),
    {
        match crate::token::now_unix() {
            Some(now) => refresh_cookies_at(refresh_token, self.refresh_expires_secs, now, secure),
            None => None,
        }
    }

    /// The clearing Set-Cookie pair.
    pub fn clear_cookie_values(secure: bool) -> (r: (String, String))
        ensures
            (r.0@, r.1@) == clear_cookies(secure),
    {
        let flag = secure_flag(secure);
        let mut a = chars_of("refresh_token=; Path=/admin/v1/refresh-token; Max-Age=-1; HttpOnly; SameSite=Lax");
        push_str(&mut a, flag);
        let mut b = chars_of("refresh_exp=; Path=/; Max-Age=-1; SameSite=Lax");
        push_str(&mut b, flag);
        (string_of(a.as_slice()), string_of(b.as_slice()))
    }
}

} // verus!
