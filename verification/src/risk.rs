//! The login-risk heuristics over the request facts the audit trail
//! records: failure weighting, unknown-user and missing-device penalties,
//! and the network-origin factor.

use vstd::prelude::*;
use crate::text::{
    split_on, chars_of, contains, contains_chars, is_prefix, parse_unsigned, parse_unsigned_chars,
    starts_with, str_eq, string_of, to_lower_case, to_upper_case, trim, trimmed, unicode_lower,
    unicode_upper, increasing, lemma_lex_transitive, lex_lt,
};

verus! {

/// The pieces that read as a `u8`, read, in order.
pub open spec fn parsed_octets(pieces: Seq<Seq<char>>) -> Seq<u8>
    decreases pieces.len(),
{
    if pieces.len() == 0 {
        seq![]
    } else {
        let rest = parsed_octets(pieces.drop_last());
        match parse_unsigned(pieces.last(), 255) {
            Some(v) => rest.push(v as u8),
            None => rest,
        }
    }
}

/// The octets of a dotted address: the trimmed text split on `.`, the
/// pieces that read as a `u8` kept.
pub open spec fn octets_of(ip: Seq<char>) -> Seq<u8> {
    parsed_octets(split_on(trim(ip), '.'))
}

/// Whether an address is loopback, private or link-local: four octets in
/// 10/8, 127/8, 172.16/12, 192.168/16 or 169.254/16; otherwise the IPv6
/// loopback or a unique-local `fc`/`fd` prefix.
pub open spec fn is_private_ip_spec(ip: Seq<char>) -> bool {
    let o = octets_of(ip);
    if o.len() == 4 {
        let a = o[0];
        let b = o[1];
        a == 10 || a == 127 || (a == 172 && 16 <= b && b <= 31) || (a == 192 && b == 168) || (a
            == 169 && b == 254)
    } else {
        is_prefix("[::1]"@, ip) || ip == "::1"@ || is_prefix("fc"@, ip) || is_prefix("fd"@, ip)
    }
}

fn octets(ip: &str) -> (r: Vec<u8>)
    ensures
        r@ == octets_of(ip@),
{
    let raw = chars_of(ip);
    let t = trimmed(raw.as_slice());
    let mut out: Vec<u8> = Vec::new();
    let mut cur: Vec<char> = Vec::new();
    let mut i: usize = 0;
    proof {
        assert(t@.subrange(0, 0) =~= Seq::<char>::empty());
    }
    while i < t.len()
        invariant
            i <= t.len(),
            split_on(t@.subrange(0, i as int), '.').len() >= 1,
            split_on(t@.subrange(0, i as int), '.').last() == cur@,
            out@ == parsed_octets(split_on(t@.subrange(0, i as int), '.').drop_last()),
        decreases t.len() - i,
    {
        let ghost p = split_on(t@.subrange(0, i as int), '.');
        assert(t@.subrange(0, i + 1).drop_last() =~= t@.subrange(0, i as int));
        assert(t@.subrange(0, i + 1).last() == t@[i as int]);
        let c = t[i];
        if c == '.' {
            assert(split_on(t@.subrange(0, i + 1), '.') == p.push(seq![]));
            assert(p.push(seq![]).drop_last() =~= p);
            assert(p.drop_last().push(p.last()) =~= p);
            match parse_unsigned_chars(cur.as_slice(), 255) {
                Some(v) => out.push(v as u8),
                None => {},
            }
            cur = Vec::new();
        } else {
            let ghost q = p.update(p.len() - 1, p.last().push(c));
            assert(split_on(t@.subrange(0, i + 1), '.') == q);
            assert(q.drop_last() =~= p.drop_last());
            cur.push(c);
        }
        i += 1;
    }
    assert(t@.subrange(0, t.len() as int) =~= t@);
    let ghost p = split_on(t@, '.');
    assert(p.drop_last().push(p.last()) =~= p);
    match parse_unsigned_chars(cur.as_slice(), 255) {
        Some(v) => out.push(v as u8),
        None => {},
    }
    out
}

/// Whether an address is loopback, private or link-local.
pub fn is_private_ip(ip: &str) -> (r: bool)
    ensures
        r == is_private_ip_spec(ip@),
{
    let o = octets(ip);
    if o.len() == 4 {
        let a = o[0];
        let b = o[1];
        return a == 10 || a == 127 || (a == 172 && 16 <= b && b <= 31) || (a == 192 && b == 168)
            || (a == 169 && b == 254);
    }
    let c = chars_of(ip);
    starts_with(c.as_slice(), chars_of("[::1]").as_slice()) || str_eq(ip, "::1") || starts_with(
        c.as_slice(),
        chars_of("fc").as_slice(),
    ) || starts_with(c.as_slice(), chars_of("fd").as_slice())
}

/// The risk score before clamping.
pub open spec fn raw_risk_score(
    failed: bool,
    user_id: u32,
    username: Seq<char>,
    ip: Seq<char>,
    has_device: bool,
) -> int {
    (if failed {
        50int
    } else {
        0
    }) + (if user_id == 0 {
        if username.len() == 0 {
            20int
        } else {
            10
        }
    } else {
        0
    }) + (if !has_device {
        10int
    } else {
        0
    }) + (if ip.len() == 0 {
        5int
    } else if is_private_ip_spec(ip) {
        -10int
    } else {
        0
    })
}

/// The risk score: the weighted facts, clamped to 0..=100.
pub open spec fn risk_score_spec(
    failed: bool,
    user_id: u32,
    username: Seq<char>,
    ip: Seq<char>,
    has_device: bool,
) -> int {
    let s = raw_risk_score(failed, user_id, username, ip, has_device);
    if s < 0 {
        0
    } else if s > 100 {
        100
    } else {
        s
    }
}

/// Risk score computation (0-100): a failed login weighs 50, an unknown
/// user 10 (20 when anonymous), a missing device 10, a missing address 5;
/// a private address takes 10 off.
pub fn risk_score(failed: bool, user_id: u32, username: &str, ip: &str, has_device: bool) -> (r:
    i32)
    ensures
        r == risk_score_spec(failed, user_id, username@, ip@, has_device),
        0 <= r <= 100,
{
    let mut score: i32 = 0;
    if failed {
        score += 50;
    }
    if user_id == 0 {
        score += if username.is_empty() {
            20
        } else {
            10
        };
    }
    if !has_device {
        score += 10;
    }
    if ip.is_empty() {
        score += 5;
    } else if is_private_ip(ip) {
        score -= 10;
    }
    if score < 0 {
        0
    } else if score > 100 {
        100
    } else {
        score
    }
}

/// The band of a score: `LOW` up to 30, `MEDIUM` up to 70, `HIGH` above.
pub open spec fn risk_level_spec(score: u32) -> Seq<char> {
    if score <= 30 {
        "LOW"@
    } else if score <= 70 {
        "MEDIUM"@
    } else {
        "HIGH"@
    }
}

/// The band of a risk score.
pub fn risk_level(score: u32) -> (r: &'static str)
    ensures
        r@ == risk_level_spec(score),
{
    if score <= 30 {
        "LOW"
    } else if score <= 70 {
        "MEDIUM"
    } else {
        "HIGH"
    }
}

/// An ascending run whose elements are all at most `bound`.
#[verifier::opaque]
spec fn ascending_upto(s: Seq<Seq<char>>, bound: Seq<char>) -> bool {
    &&& increasing(s)
    &&& forall|i: int| 0 <= i < s.len() ==> #[trigger] s[i] == bound || lex_lt(s[i], bound)
}

/// Appending `next` (when `on`) to an ascending run bounded by `prev`,
/// with `prev` before `next`, keeps it ascending, now bounded by `next`.
proof fn lemma_ascending_extend(s: Seq<Seq<char>>, prev: Seq<char>, next: Seq<char>, on: bool)
    requires
        ascending_upto(s, prev),
        lex_lt(prev, next),
    ensures
        ascending_upto(s + when(on, next), next),
{
    reveal(ascending_upto);
    let t = s + when(on, next);
    assert forall|i: int| 0 <= i < s.len() implies lex_lt(#[trigger] s[i], next) by {
        if s[i] != prev {
            lemma_lex_transitive(s[i], prev, next);
        }
    }
    assert forall|i: int, j: int| 0 <= i < j < t.len() implies lex_lt(
        #[trigger] t[i],
        #[trigger] t[j],
    ) by {
        if j >= s.len() {
            assert(t[i] == s[i]);
        } else {
            assert(t[i] == s[i] && t[j] == s[j]);
        }
    }
    assert forall|i: int| 0 <= i < t.len() implies #[trigger] t[i] == next || lex_lt(
        t[i],
        next,
    ) by {
        if i < s.len() {
            assert(t[i] == s[i]);
        }
    }
}

proof fn lemma_factor_names_ordered()
    ensures
        lex_lt(Seq::empty(), "ANONYMOUS_LOGIN"@),
        lex_lt("ANONYMOUS_LOGIN"@, "EXTERNAL_IP"@),
        lex_lt("EXTERNAL_IP"@, "FAILED_LOGIN"@),
        lex_lt("FAILED_LOGIN"@, "HIGH_RISK_SCORE"@),
        lex_lt("HIGH_RISK_SCORE"@, "INTERNAL_IP"@),
        lex_lt("INTERNAL_IP"@, "IP_MISSING"@),
        lex_lt("IP_MISSING"@, "LOW_RISK_SCORE"@),
        lex_lt("LOW_RISK_SCORE"@, "MEDIUM_RISK_SCORE"@),
        lex_lt("MEDIUM_RISK_SCORE"@, "MFA_FAILED"@),
        lex_lt("MFA_FAILED"@, "MFA_FAILURE_REASON"@),
        lex_lt("MFA_FAILURE_REASON"@, "MFA_UNVERIFIED"@),
        lex_lt("MFA_UNVERIFIED"@, "NO_REQUEST_ID"@),
        lex_lt("NO_REQUEST_ID"@, "NO_SESSION"@),
        lex_lt("NO_SESSION"@, "PASSWORD_FAILURE"@),
        lex_lt("PASSWORD_FAILURE"@, "UNKNOWN_DEVICE"@),
        lex_lt("UNKNOWN_DEVICE"@, "UNKNOWN_USER"@),
{
    reveal_strlit("ANONYMOUS_LOGIN");
    reveal_strlit("EXTERNAL_IP");
    reveal_strlit("FAILED_LOGIN");
    reveal_strlit("HIGH_RISK_SCORE");
    reveal_strlit("INTERNAL_IP");
    reveal_strlit("IP_MISSING");
    reveal_strlit("LOW_RISK_SCORE");
    reveal_strlit("MEDIUM_RISK_SCORE");
    reveal_strlit("MFA_FAILED");
    reveal_strlit("MFA_FAILURE_REASON");
    reveal_strlit("MFA_UNVERIFIED");
    reveal_strlit("NO_REQUEST_ID");
    reveal_strlit("NO_SESSION");
    reveal_strlit("PASSWORD_FAILURE");
    reveal_strlit("UNKNOWN_DEVICE");
    reveal_strlit("UNKNOWN_USER");
    reveal_with_fuel(lex_lt, 11);
}

/// `name` when `on`, nothing otherwise.
pub open spec fn when(on: bool, name: Seq<char>) -> Seq<Seq<char>> {
    if on {
        seq![name]
    } else {
        seq![]
    }
}

/// The risk factors that hold, each once, in ascending (byte) order.
pub open spec fn risk_factors_spec(
    failed: bool,
    user_id: u32,
    username: Seq<char>,
    ip: Seq<char>,
    has_device: bool,
    mfa_status: Seq<char>,
    failure_reason: Seq<char>,
    request_id: Seq<char>,
    score: u32,
) -> Seq<Seq<char>> {
    let mfa = unicode_upper(mfa_status);
    let fr = unicode_lower(failure_reason);
    let private = ip.len() > 0 && is_private_ip_spec(ip);
    when(user_id == 0 && username.len() == 0, "ANONYMOUS_LOGIN"@) + when(
        ip.len() > 0 && !private,
        "EXTERNAL_IP"@,
    ) + when(failed, "FAILED_LOGIN"@) + when(71 <= score && score <= 100, "HIGH_RISK_SCORE"@)
        + when(private, "INTERNAL_IP"@) + when(ip.len() == 0, "IP_MISSING"@) + when(
        1 <= score && score <= 30,
        "LOW_RISK_SCORE"@,
    ) + when(31 <= score && score <= 70, "MEDIUM_RISK_SCORE"@) + when(
        contains(mfa, "FAILED"@),
        "MFA_FAILED"@,
    ) + when(fr.len() > 0 && contains(fr, "mfa"@), "MFA_FAILURE_REASON"@) + when(
        contains(mfa, "UNVERIFY"@),
        "MFA_UNVERIFIED"@,
    ) + when(request_id.len() == 0, "NO_REQUEST_ID"@) + seq!["NO_SESSION"@] + when(
        fr.len() > 0 && (contains(fr, "password"@) || contains(fr, "pwd"@) || contains(
            fr,
            "incorrect"@,
        )),
        "PASSWORD_FAILURE"@,
    ) + when(!has_device, "UNKNOWN_DEVICE"@) + when(
        user_id == 0 && username.len() > 0,
        "UNKNOWN_USER"@,
    )
}

/// Four steps of [`lemma_ascending_extend`].
proof fn lemma_ascending_extend4(
    s: Seq<Seq<char>>,
    prev: Seq<char>,
    n1: Seq<char>,
    n2: Seq<char>,
    n3: Seq<char>,
    n4: Seq<char>,
    b1: bool,
    b2: bool,
    b3: bool,
    b4: bool,
)
    requires
        ascending_upto(s, prev),
        lex_lt(prev, n1),
        lex_lt(n1, n2),
        lex_lt(n2, n3),
        lex_lt(n3, n4),
    ensures
        ascending_upto(s + when(b1, n1) + when(b2, n2) + when(b3, n3) + when(b4, n4), n4),
{
    lemma_ascending_extend(s, prev, n1, b1);
    lemma_ascending_extend(s + when(b1, n1), n1, n2, b2);
    lemma_ascending_extend(s + when(b1, n1) + when(b2, n2), n2, n3, b3);
    lemma_ascending_extend(s + when(b1, n1) + when(b2, n2) + when(b3, n3), n3, n4, b4);
}

proof fn lemma_factor_chain_ascending(
    b0: bool,
    b1: bool,
    b2: bool,
    b3: bool,
    b4: bool,
    b5: bool,
    b6: bool,
    b7: bool,
    b8: bool,
    b9: bool,
    b10: bool,
    b11: bool,
    b12: bool,
    b13: bool,
    b14: bool,
    b15: bool,
)
    ensures
        increasing(
            when(b0, "ANONYMOUS_LOGIN"@)
                + when(b1, "EXTERNAL_IP"@)
                + when(b2, "FAILED_LOGIN"@)
                + when(b3, "HIGH_RISK_SCORE"@)
                + when(b4, "INTERNAL_IP"@)
                + when(b5, "IP_MISSING"@)
                + when(b6, "LOW_RISK_SCORE"@)
                + when(b7, "MEDIUM_RISK_SCORE"@)
                + when(b8, "MFA_FAILED"@)
                + when(b9, "MFA_FAILURE_REASON"@)
                + when(b10, "MFA_UNVERIFIED"@)
                + when(b11, "NO_REQUEST_ID"@)
                + when(b12, "NO_SESSION"@)
                + when(b13, "PASSWORD_FAILURE"@)
                + when(b14, "UNKNOWN_DEVICE"@)
                + when(b15, "UNKNOWN_USER"@)
        ),
{
    lemma_factor_names_ordered();
    let s0 = Seq::<Seq<char>>::empty();
    assert(ascending_upto(s0, Seq::empty())) by {
        reveal(ascending_upto);
    }
    lemma_ascending_extend4(
        s0,
        Seq::<char>::empty(),
        "ANONYMOUS_LOGIN"@,
        "EXTERNAL_IP"@,
        "FAILED_LOGIN"@,
        "HIGH_RISK_SCORE"@,
        b0,
        b1,
        b2,
        b3,
    );
    let t1 = s0
        + when(b0, "ANONYMOUS_LOGIN"@)
        + when(b1, "EXTERNAL_IP"@)
        + when(b2, "FAILED_LOGIN"@)
        + when(b3, "HIGH_RISK_SCORE"@);
    lemma_ascending_extend4(
        t1,
        "HIGH_RISK_SCORE"@,
        "INTERNAL_IP"@,
        "IP_MISSING"@,
        "LOW_RISK_SCORE"@,
        "MEDIUM_RISK_SCORE"@,
        b4,
        b5,
        b6,
        b7,
    );
    let t2 = t1
        + when(b4, "INTERNAL_IP"@)
        + when(b5, "IP_MISSING"@)
        + when(b6, "LOW_RISK_SCORE"@)
        + when(b7, "MEDIUM_RISK_SCORE"@);
    lemma_ascending_extend4(
        t2,
        "MEDIUM_RISK_SCORE"@,
        "MFA_FAILED"@,
        "MFA_FAILURE_REASON"@,
        "MFA_UNVERIFIED"@,
        "NO_REQUEST_ID"@,
        b8,
        b9,
        b10,
        b11,
    );
    let t3 = t2
        + when(b8, "MFA_FAILED"@)
        + when(b9, "MFA_FAILURE_REASON"@)
        + when(b10, "MFA_UNVERIFIED"@)
        + when(b11, "NO_REQUEST_ID"@);
    lemma_ascending_extend4(
        t3,
        "NO_REQUEST_ID"@,
        "NO_SESSION"@,
        "PASSWORD_FAILURE"@,
        "UNKNOWN_DEVICE"@,
        "UNKNOWN_USER"@,
        b12,
        b13,
        b14,
        b15,
    );
    let t4 = t3
        + when(b12, "NO_SESSION"@)
        + when(b13, "PASSWORD_FAILURE"@)
        + when(b14, "UNKNOWN_DEVICE"@)
        + when(b15, "UNKNOWN_USER"@);
    assert(increasing(t4)) by {
        reveal(ascending_upto);
    }
    assert(t4 =~= when(b0, "ANONYMOUS_LOGIN"@)
        + when(b1, "EXTERNAL_IP"@)
        + when(b2, "FAILED_LOGIN"@)
        + when(b3, "HIGH_RISK_SCORE"@)
        + when(b4, "INTERNAL_IP"@)
        + when(b5, "IP_MISSING"@)
        + when(b6, "LOW_RISK_SCORE"@)
        + when(b7, "MEDIUM_RISK_SCORE"@)
        + when(b8, "MFA_FAILED"@)
        + when(b9, "MFA_FAILURE_REASON"@)
        + when(b10, "MFA_UNVERIFIED"@)
        + when(b11, "NO_REQUEST_ID"@)
        + when(b12, "NO_SESSION"@)
        + when(b13, "PASSWORD_FAILURE"@)
        + when(b14, "UNKNOWN_DEVICE"@)
        + when(b15, "UNKNOWN_USER"@));
}

/// The factor list of every attempt is strictly ascending: sorted, each
/// factor once.
pub proof fn lemma_risk_factors_ascending(
    failed: bool,
    user_id: u32,
    username: Seq<char>,
    ip: Seq<char>,
    has_device: bool,
    mfa_status: Seq<char>,
    failure_reason: Seq<char>,
    request_id: Seq<char>,
    score: u32,
)
    ensures
        increasing(
            risk_factors_spec(
                failed,
                user_id,
                username,
                ip,
                has_device,
                mfa_status,
                failure_reason,
                request_id,
                score,
            ),
        ),
{
    let mfa = unicode_upper(mfa_status);
    let fr = unicode_lower(failure_reason);
    let private = ip.len() > 0 && is_private_ip_spec(ip);
    lemma_factor_chain_ascending(
        user_id == 0 && username.len() == 0,
        ip.len() > 0 && !private,
        failed,
        71 <= score && score <= 100,
        private,
        ip.len() == 0,
        1 <= score && score <= 30,
        31 <= score && score <= 70,
        contains(mfa, "FAILED"@),
        fr.len() > 0 && contains(fr, "mfa"@),
        contains(mfa, "UNVERIFY"@),
        request_id.len() == 0,
        true,
        fr.len() > 0 && (contains(fr, "password"@) || contains(fr, "pwd"@) || contains(
            fr,
            "incorrect"@,
        )),
        !has_device,
        user_id == 0 && username.len() > 0,
    );
    assert(when(true, "NO_SESSION"@) == seq!["NO_SESSION"@]);
}

fn push_when(out: &mut Vec<String>, on: bool, name: &str)
    ensures
        crate::semantic::texts(final(out)@) == crate::semantic::texts(old(out)@) + when(
            on,
            name@,
        ),
{
    let ghost before = crate::semantic::texts(out@);
    if on {
        out.push(string_of(chars_of(name).as_slice()));
        assert(crate::semantic::texts(out@) =~= before + seq![name@]);
    } else {
        assert(crate::semantic::texts(out@) =~= before + Seq::<Seq<char>>::empty());
    }
}

/// The risk factors of a login attempt, deduplicated and sorted: each
/// comes strictly before the next.
#[verifier::spinoff_prover]
pub fn risk_factors(
    failed: bool,
    user_id: u32,
    username: &str,
    ip: &str,
    has_device: bool,
    mfa_status: &str,
    failure_reason: &str,
    request_id: &str,
    score: u32,
) -> (r: Vec<String>)
    ensures
        crate::semantic::texts(r@) == risk_factors_spec(
            failed,
            user_id,
            username@,
            ip@,
            has_device,
            mfa_status@,
            failure_reason@,
            request_id@,
            score,
        ),
        increasing(crate::semantic::texts(r@)),
{
    let mfa_s = to_upper_case(mfa_status);
    let mfa = chars_of(mfa_s.as_str());
    let fr_s = to_lower_case(failure_reason);
    let fr = chars_of(fr_s.as_str());
    let private = !ip.is_empty() && is_private_ip(ip);
    let has = |hay: &Vec<char>, needle: &str| -> (b: bool)
        ensures
            b == contains(hay@, needle@),
        { contains_chars(hay.as_slice(), chars_of(needle).as_slice()) };
    let mut out: Vec<String> = Vec::new();
    push_when(&mut out, user_id == 0 && username.is_empty(), "ANONYMOUS_LOGIN");
    push_when(&mut out, !ip.is_empty() && !private, "EXTERNAL_IP");
    push_when(&mut out, failed, "FAILED_LOGIN");
    push_when(&mut out, 71 <= score && score <= 100, "HIGH_RISK_SCORE");
    push_when(&mut out, private, "INTERNAL_IP");
    push_when(&mut out, ip.is_empty(), "IP_MISSING");
    push_when(&mut out, 1 <= score && score <= 30, "LOW_RISK_SCORE");
    push_when(&mut out, 31 <= score && score <= 70, "MEDIUM_RISK_SCORE");
    push_when(&mut out, has(&mfa, "FAILED"), "MFA_FAILED");
    push_when(&mut out, fr.len() > 0 && has(&fr, "mfa"), "MFA_FAILURE_REASON");
    push_when(&mut out, has(&mfa, "UNVERIFY"), "MFA_UNVERIFIED");
    push_when(&mut out, request_id.is_empty(), "NO_REQUEST_ID");
    push_when(&mut out, true, "NO_SESSION");
    push_when(
        &mut out,
        fr.len() > 0 && (has(&fr, "password") || has(&fr, "pwd") || has(&fr, "incorrect")),
        "PASSWORD_FAILURE",
    );
    push_when(&mut out, !has_device, "UNKNOWN_DEVICE");
    push_when(&mut out, user_id == 0 && !username.is_empty(), "UNKNOWN_USER");
    proof {
        lemma_risk_factors_ascending(
            failed,
            user_id,
            username@,
            ip@,
            has_device,
            mfa_status@,
            failure_reason@,
            request_id@,
            score,
        );
    }
    out
}


/// The dotted IPv4 classes: loopback (127/8), 10/8, 172.16/12,
/// 192.168/16 and link-local 169.254/16 are internal; a four-octet
/// address outside all of them is external.
pub proof fn lemma_ipv4_private_ranges(ip: Seq<char>)
    requires
        octets_of(ip).len() == 4,
    ensures
        octets_of(ip)[0] == 127 ==> is_private_ip_spec(ip),
        octets_of(ip)[0] == 10 ==> is_private_ip_spec(ip),
        octets_of(ip)[0] == 172 && 16 <= octets_of(ip)[1] <= 31 ==> is_private_ip_spec(ip),
        octets_of(ip)[0] == 192 && octets_of(ip)[1] == 168 ==> is_private_ip_spec(ip),
        octets_of(ip)[0] == 169 && octets_of(ip)[1] == 254 ==> is_private_ip_spec(ip),
        octets_of(ip)[0] != 10 && octets_of(ip)[0] != 127 && octets_of(ip)[0] != 172
            && octets_of(ip)[0] != 192 && octets_of(ip)[0] != 169 ==> !is_private_ip_spec(ip),
{
}

/// An internal address lowers the raw risk by 10 against an external one
/// and by 15 against a missing one, all other facts equal; so a loopback
/// address scores 10 below any external address.
pub proof fn lemma_private_ip_lowers_score(
    failed: bool,
    user_id: u32,
    username: Seq<char>,
    internal: Seq<char>,
    external: Seq<char>,
    has_device: bool,
)
    requires
        internal.len() > 0 && is_private_ip_spec(internal),
        external.len() > 0 && !is_private_ip_spec(external),
    ensures
        raw_risk_score(failed, user_id, username, internal, has_device) + 10 == raw_risk_score(
            failed,
            user_id,
            username,
            external,
            has_device,
        ),
        raw_risk_score(failed, user_id, username, internal, has_device) + 15 == raw_risk_score(
            failed,
            user_id,
            username,
            Seq::empty(),
            has_device,
        ),
{
}

proof fn lemma_when_contains(s: Seq<Seq<char>>, on: bool, name: Seq<char>, x: Seq<char>)
    ensures
        (s + when(on, name)).contains(x) == (s.contains(x) || (on && name == x)),
{
    let t = s + when(on, name);
    if s.contains(x) {
        let i = choose|i: int| 0 <= i < s.len() && s[i] == x;
        assert(t[i] == x);
    }
    if on && name == x {
        assert(t[s.len() as int] == x);
    }
    if t.contains(x) {
        let i = choose|i: int| 0 <= i < t.len() && t[i] == x;
        if i < s.len() {
            assert(s[i] == x);
        }
    }
}

proof fn lemma_network_names_distinct()
    ensures
        "INTERNAL_IP"@ != "ANONYMOUS_LOGIN"@,
        "INTERNAL_IP"@ != "EXTERNAL_IP"@,
        "INTERNAL_IP"@ != "FAILED_LOGIN"@,
        "INTERNAL_IP"@ != "HIGH_RISK_SCORE"@,
        "INTERNAL_IP"@ != "IP_MISSING"@,
        "INTERNAL_IP"@ != "LOW_RISK_SCORE"@,
        "INTERNAL_IP"@ != "MEDIUM_RISK_SCORE"@,
        "INTERNAL_IP"@ != "MFA_FAILED"@,
        "INTERNAL_IP"@ != "MFA_FAILURE_REASON"@,
        "INTERNAL_IP"@ != "MFA_UNVERIFIED"@,
        "INTERNAL_IP"@ != "NO_REQUEST_ID"@,
        "INTERNAL_IP"@ != "NO_SESSION"@,
        "INTERNAL_IP"@ != "PASSWORD_FAILURE"@,
        "INTERNAL_IP"@ != "UNKNOWN_DEVICE"@,
        "INTERNAL_IP"@ != "UNKNOWN_USER"@,
        "EXTERNAL_IP"@ != "ANONYMOUS_LOGIN"@,
        "EXTERNAL_IP"@ != "FAILED_LOGIN"@,
        "EXTERNAL_IP"@ != "HIGH_RISK_SCORE"@,
        "EXTERNAL_IP"@ != "INTERNAL_IP"@,
        "EXTERNAL_IP"@ != "IP_MISSING"@,
        "EXTERNAL_IP"@ != "LOW_RISK_SCORE"@,
        "EXTERNAL_IP"@ != "MEDIUM_RISK_SCORE"@,
        "EXTERNAL_IP"@ != "MFA_FAILED"@,
        "EXTERNAL_IP"@ != "MFA_FAILURE_REASON"@,
        "EXTERNAL_IP"@ != "MFA_UNVERIFIED"@,
        "EXTERNAL_IP"@ != "NO_REQUEST_ID"@,
        "EXTERNAL_IP"@ != "NO_SESSION"@,
        "EXTERNAL_IP"@ != "PASSWORD_FAILURE"@,
        "EXTERNAL_IP"@ != "UNKNOWN_DEVICE"@,
        "EXTERNAL_IP"@ != "UNKNOWN_USER"@,
{
    reveal_strlit("ANONYMOUS_LOGIN");
    reveal_strlit("EXTERNAL_IP");
    reveal_strlit("FAILED_LOGIN");
    reveal_strlit("HIGH_RISK_SCORE");
    reveal_strlit("INTERNAL_IP");
    reveal_strlit("IP_MISSING");
    reveal_strlit("LOW_RISK_SCORE");
    reveal_strlit("MEDIUM_RISK_SCORE");
    reveal_strlit("MFA_FAILED");
    reveal_strlit("MFA_FAILURE_REASON");
    reveal_strlit("MFA_UNVERIFIED");
    reveal_strlit("NO_REQUEST_ID");
    reveal_strlit("NO_SESSION");
    reveal_strlit("PASSWORD_FAILURE");
    reveal_strlit("UNKNOWN_DEVICE");
    reveal_strlit("UNKNOWN_USER");
    assert("ANONYMOUS_LOGIN"@[0] == 'A' && "ANONYMOUS_LOGIN"@[1] == 'N');
    assert("EXTERNAL_IP"@[0] == 'E' && "EXTERNAL_IP"@[1] == 'X');
    assert("FAILED_LOGIN"@[0] == 'F' && "FAILED_LOGIN"@[1] == 'A');
    assert("HIGH_RISK_SCORE"@[0] == 'H' && "HIGH_RISK_SCORE"@[1] == 'I');
    assert("INTERNAL_IP"@[0] == 'I' && "INTERNAL_IP"@[1] == 'N');
    assert("IP_MISSING"@[0] == 'I' && "IP_MISSING"@[1] == 'P');
    assert("LOW_RISK_SCORE"@[0] == 'L' && "LOW_RISK_SCORE"@[1] == 'O');
    assert("MEDIUM_RISK_SCORE"@[0] == 'M' && "MEDIUM_RISK_SCORE"@[1] == 'E');
    assert("MFA_FAILED"@[0] == 'M' && "MFA_FAILED"@[1] == 'F');
    assert("MFA_FAILURE_REASON"@[0] == 'M' && "MFA_FAILURE_REASON"@[1] == 'F');
    assert("MFA_UNVERIFIED"@[0] == 'M' && "MFA_UNVERIFIED"@[1] == 'F');
    assert("NO_REQUEST_ID"@[0] == 'N' && "NO_REQUEST_ID"@[1] == 'O');
    assert("NO_SESSION"@[0] == 'N' && "NO_SESSION"@[1] == 'O');
    assert("PASSWORD_FAILURE"@[0] == 'P' && "PASSWORD_FAILURE"@[1] == 'A');
    assert("UNKNOWN_DEVICE"@[0] == 'U' && "UNKNOWN_DEVICE"@[1] == 'N');
    assert("UNKNOWN_USER"@[0] == 'U' && "UNKNOWN_USER"@[1] == 'N');
}

#[verifier::spinoff_prover]
#[verifier::rlimit(60)]
proof fn lemma_factors_contain_network_name(
    failed: bool,
    user_id: u32,
    username: Seq<char>,
    ip: Seq<char>,
    has_device: bool,
    mfa_status: Seq<char>,
    failure_reason: Seq<char>,
    request_id: Seq<char>,
    score: u32,
    x: Seq<char>,
)
    requires
        x == "INTERNAL_IP"@ || x == "EXTERNAL_IP"@,
    ensures
        risk_factors_spec(failed, user_id, username, ip, has_device, mfa_status, failure_reason, request_id, score).contains(x) == (ip.len() > 0 && (if x == "INTERNAL_IP"@ {
            is_private_ip_spec(ip)
        } else {
            !is_private_ip_spec(ip)
        })),
{
    lemma_network_names_distinct();
    let mfa = unicode_upper(mfa_status);
    let fr = unicode_lower(failure_reason);
    let private = ip.len() > 0 && is_private_ip_spec(ip);
    assert(when(true, "NO_SESSION"@) == seq!["NO_SESSION"@]);
    let s0: Seq<Seq<char>> = Seq::empty();
    lemma_when_contains(s0, user_id == 0 && username.len() == 0, "ANONYMOUS_LOGIN"@, x);
    let s1 = s0 + when(user_id == 0 && username.len() == 0, "ANONYMOUS_LOGIN"@);
    lemma_when_contains(s1, ip.len() > 0 && !private, "EXTERNAL_IP"@, x);
    let s2 = s1 + when(ip.len() > 0 && !private, "EXTERNAL_IP"@);
    lemma_when_contains(s2, failed, "FAILED_LOGIN"@, x);
    let s3 = s2 + when(failed, "FAILED_LOGIN"@);
    lemma_when_contains(s3, 71 <= score && score <= 100, "HIGH_RISK_SCORE"@, x);
    let s4 = s3 + when(71 <= score && score <= 100, "HIGH_RISK_SCORE"@);
    lemma_when_contains(s4, private, "INTERNAL_IP"@, x);
    let s5 = s4 + when(private, "INTERNAL_IP"@);
    lemma_when_contains(s5, ip.len() == 0, "IP_MISSING"@, x);
    let s6 = s5 + when(ip.len() == 0, "IP_MISSING"@);
    lemma_when_contains(s6, 1 <= score && score <= 30, "LOW_RISK_SCORE"@, x);
    let s7 = s6 + when(1 <= score && score <= 30, "LOW_RISK_SCORE"@);
    lemma_when_contains(s7, 31 <= score && score <= 70, "MEDIUM_RISK_SCORE"@, x);
    let s8 = s7 + when(31 <= score && score <= 70, "MEDIUM_RISK_SCORE"@);
    lemma_when_contains(s8, contains(mfa, "FAILED"@), "MFA_FAILED"@, x);
    let s9 = s8 + when(contains(mfa, "FAILED"@), "MFA_FAILED"@);
    lemma_when_contains(s9, fr.len() > 0 && contains(fr, "mfa"@), "MFA_FAILURE_REASON"@, x);
    let s10 = s9 + when(fr.len() > 0 && contains(fr, "mfa"@), "MFA_FAILURE_REASON"@);
    lemma_when_contains(s10, contains(mfa, "UNVERIFY"@), "MFA_UNVERIFIED"@, x);
    let s11 = s10 + when(contains(mfa, "UNVERIFY"@), "MFA_UNVERIFIED"@);
    lemma_when_contains(s11, request_id.len() == 0, "NO_REQUEST_ID"@, x);
    let s12 = s11 + when(request_id.len() == 0, "NO_REQUEST_ID"@);
    lemma_when_contains(s12, true, "NO_SESSION"@, x);
    let s13 = s12 + when(true, "NO_SESSION"@);
    lemma_when_contains(s13, fr.len() > 0 && (contains(fr, "password"@) || contains(fr, "pwd"@) || contains(fr, "incorrect"@)), "PASSWORD_FAILURE"@, x);
    let s14 = s13 + when(fr.len() > 0 && (contains(fr, "password"@) || contains(fr, "pwd"@) || contains(fr, "incorrect"@)), "PASSWORD_FAILURE"@);
    lemma_when_contains(s14, !has_device, "UNKNOWN_DEVICE"@, x);
    let s15 = s14 + when(!has_device, "UNKNOWN_DEVICE"@);
    lemma_when_contains(s15, user_id == 0 && username.len() > 0, "UNKNOWN_USER"@, x);
    let s16 = s15 + when(user_id == 0 && username.len() > 0, "UNKNOWN_USER"@);
    assert(s16 =~= risk_factors_spec(failed, user_id, username, ip, has_device, mfa_status, failure_reason, request_id, score));
}

/// Of an attempt with an address, the factors list `INTERNAL_IP` exactly
/// when the address is internal and `EXTERNAL_IP` exactly when it is not,
/// so never both; without an address, neither.
pub proof fn lemma_factors_name_the_network(
    failed: bool,
    user_id: u32,
    username: Seq<char>,
    ip: Seq<char>,
    has_device: bool,
    mfa_status: Seq<char>,
    failure_reason: Seq<char>,
    request_id: Seq<char>,
    score: u32,
)
    ensures
        ({
            let f = risk_factors_spec(failed, user_id, username, ip, has_device, mfa_status, failure_reason, request_id, score);
            &&& f.contains("INTERNAL_IP"@) == (ip.len() > 0 && is_private_ip_spec(ip))
            &&& f.contains("EXTERNAL_IP"@) == (ip.len() > 0 && !is_private_ip_spec(ip))
        }),
{
    lemma_network_names_distinct();
    lemma_factors_contain_network_name(failed, user_id, username, ip, has_device, mfa_status, failure_reason, request_id, score, "INTERNAL_IP"@);
    lemma_factors_contain_network_name(failed, user_id, username, ip, has_device, mfa_status, failure_reason, request_id, score, "EXTERNAL_IP"@);
}


/// The weights of the score: a failed attempt adds 50, an unknown user 10
/// (20 when no name was given either), a missing device 10, each against
/// the same attempt without that fact.
pub proof fn lemma_risk_weights(
    failed: bool,
    user_id: u32,
    username: Seq<char>,
    ip: Seq<char>,
    has_device: bool,
)
    ensures
        raw_risk_score(true, user_id, username, ip, has_device) == raw_risk_score(
            false,
            user_id,
            username,
            ip,
            has_device,
        ) + 50,
        raw_risk_score(failed, user_id, username, ip, false) == raw_risk_score(
            failed,
            user_id,
            username,
            ip,
            true,
        ) + 10,
        user_id != 0 ==> raw_risk_score(failed, 0, username, ip, has_device) == raw_risk_score(
            failed,
            user_id,
            username,
            ip,
            has_device,
        ) + if username.len() == 0 {
            20int
        } else {
            10int
        },
        0 <= risk_score_spec(failed, user_id, username, ip, has_device) <= 100,
        0 <= raw_risk_score(failed, user_id, username, ip, has_device) <= 100
            ==> risk_score_spec(failed, user_id, username, ip, has_device) == raw_risk_score(
            failed,
            user_id,
            username,
            ip,
            has_device,
        ),
{
}

/// The level bands: `LOW` through 30, `MEDIUM` from 31 through 70, `HIGH`
/// above; a higher score never has a lower band.
pub proof fn lemma_risk_level_bands(score: u32, higher: u32)
    ensures
        score <= 30 ==> risk_level_spec(score) == "LOW"@,
        31 <= score <= 70 ==> risk_level_spec(score) == "MEDIUM"@,
        score > 70 ==> risk_level_spec(score) == "HIGH"@,
        score <= higher && risk_level_spec(score) == "HIGH"@ ==> risk_level_spec(higher) == "HIGH"@,
        score <= higher && risk_level_spec(higher) == "LOW"@ ==> risk_level_spec(score) == "LOW"@,
{
    reveal_strlit("LOW");
    reveal_strlit("MEDIUM");
    reveal_strlit("HIGH");
    assert("LOW"@[0] == 'L' && "MEDIUM"@[0] == 'M' && "HIGH"@[0] == 'H');
}

} // verus!
