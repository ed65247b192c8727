//! The replay corpus: a sweep over the route table (one matched-method
//! probe per route against its concrete path, plus a HEAD probe for every
//! GET route) and the curated cases read from file.

use vstd::prelude::*;
use crate::compare::Kind;
use crate::files::first_index;
use crate::text::{
    ascii_upper, chars_of, dec, decimal, push_chars, push_str, str_eq, string_of, to_ascii_upper,
};

verus! {

/// One replay case.
pub struct Case {
    /// Stable identifier (`sweep-<idx>`, `sweep-head-<idx>`, or the
    /// curated id).
    pub id: String,
    /// The exemption class.
    pub class: String,
    /// The comparison contract.
    pub kind: Kind,
    /// The HTTP method, upper-case.
    pub method: String,
    /// The concrete path.
    pub path: String,
    /// Extra request headers.
    pub headers: Vec<(String, String)>,
    /// The request body, if any.
    pub body: Option<String>,
}

/// What a case holds, as plain values.
pub open spec fn case_view(c: Case) -> (
    Seq<char>,
    Seq<char>,
    Kind,
    Seq<char>,
    Seq<char>,
    Seq<(Seq<char>, Seq<char>)>,
    Option<Seq<char>>,
) {
    (
        c.id@,
        c.class@,
        c.kind,
        c.method@,
        c.path@,
        c.headers@.map_values(|h: (String, String)| (h.0@, h.1@)),
        match c.body {
            Some(b) => Some(b@),
            None => None,
        },
    )
}

/// A route template with every `{var}` segment replaced by `1`; an
/// unclosed `{` and what follows it are kept as they are.
pub open spec fn concretized(s: Seq<char>) -> Seq<char>
    decreases s.len(),
{
    let open = first_index(s, '{');
    if open < 0 || open >= s.len() {
        s
    } else {
        let after = s.skip(open);
        let close = first_index(after, '}');
        if close < 0 || close >= after.len() {
            s
        } else {
            s.take(open) + seq!['1'] + concretized(after.skip(close + 1))
        }
    }
}

/// The first index from `from` on holding `c`, or the length.
fn find_from(s: &Vec<char>, from: usize, c: char) -> (r: usize)
    requires
        from <= s@.len(),
    ensures
        from <= r <= s@.len(),
        forall|j: int| from <= j < r ==> s@[j] != c,
        r < s@.len() ==> s@[r as int] == c,
{
    let mut i: usize = from;
    while i < s.len() && s[i] != c
        invariant
            from <= i <= s@.len(),
            forall|j: int| from <= j < i ==> s@[j] != c,
        decreases s.len() - i,
    {
        i += 1;
    }
    i
}

/// Appends `s[a..b]` to `out`.
fn push_range(out: &mut Vec<char>, s: &Vec<char>, a: usize, b: usize)
    requires
        a <= b <= s@.len(),
    ensures
        final(out)@ == old(out)@ + s@.subrange(a as int, b as int),
{
    let mut k: usize = a;
    while k < b
        invariant
            a <= k <= b <= s@.len(),
            out@ =~= old(out)@ + s@.subrange(a as int, k as int),
        decreases b - k,
    {
        out.push(s[k]);
        k += 1;
    }
}

/// Where `c` first occurs in `t`, when every earlier character differs.
proof fn lemma_first_at(t: Seq<char>, c: char, j: int)
    requires
        0 <= j <= t.len(),
        forall|i: int| 0 <= i < j ==> t[i] != c,
        j < t.len() ==> t[j] == c,
    ensures
        j < t.len() ==> first_index(t, c) == j,
        j == t.len() ==> first_index(t, c) < 0,
{
    crate::files::lemma_first_index(t, c);
    let f = first_index(t, c);
    if f >= 0 {
        assert(t[f] == c);
    }
    if j < t.len() && f < 0 {
        assert(t[j] != c);
    }
    if j < t.len() && f > j {
        assert(t[j] != c);
    }
}

/// Substitutes every `{var}` segment of a route template with `1`.
pub fn concretize(path: &str) -> (r: String)
    ensures
        r@ == concretized(path@),
{
    let s = chars_of(path);
    let mut out: Vec<char> = Vec::new();
    let mut pos: usize = 0;
    assert(s@.skip(0) =~= s@);
    while pos < s.len()
        invariant
            pos <= s@.len(),
            out@ + concretized(s@.skip(pos as int)) == concretized(s@),
        decreases s@.len() - pos,
    {
        let ghost rest = s@.skip(pos as int);
        let open = find_from(&s, pos, '{');
        proof {
            assert forall|i: int| 0 <= i < open - pos implies rest[i] != '{' by {
                assert(rest[i] == s@[pos + i]);
            }
            if open < s.len() {
                assert(rest[open - pos] == s@[open as int]);
            }
            lemma_first_at(rest, '{', open - pos);
        }
        if open == s.len() {
            push_range(&mut out, &s, pos, s.len());
            assert(s@.subrange(pos as int, s@.len() as int) =~= rest);
            assert(s@.skip(s@.len() as int) =~= Seq::<char>::empty());
            pos = s.len();
        } else {
            let close = find_from(&s, open, '}');
            let ghost after = rest.skip(open - pos);
            proof {
                assert forall|i: int| 0 <= i < close - open implies after[i] != '}' by {
                    assert(after[i] == s@[open + i]);
                }
                if close < s.len() {
                    assert(after[close - open] == s@[close as int]);
                }
                lemma_first_at(after, '}', close - open);
            }
            if close == s.len() {
                push_range(&mut out, &s, pos, s.len());
                assert(s@.subrange(pos as int, s@.len() as int) =~= rest);
                assert(s@.skip(s@.len() as int) =~= Seq::<char>::empty());
                pos = s.len();
            } else {
                let ghost before = out@;
                push_range(&mut out, &s, pos, open);
                out.push('1');
                proof {
                    assert(s@.subrange(pos as int, open as int) =~= rest.take(open - pos));
                    assert(after.skip(close - open + 1) =~= s@.skip(close + 1));
                    assert(out@ =~= before + rest.take(open - pos) + seq!['1']);
                }
                pos = close + 1;
            }
        }
    }
    assert(s@.skip(pos as int) =~= Seq::<char>::empty());
    string_of(out.as_slice())
}

/// One entry of the route table.
pub struct RouteSpec {
    /// The fully qualified service name.
    pub service_fq: String,
    /// The RPC method name.
    pub method_name: String,
    /// The HTTP method.
    pub method: String,
    /// The route template.
    pub path: String,
    /// Whether an earlier pattern route shadows this one.
    pub shadowed: bool,
}

/// A route of the table needs no credentials.
pub open spec fn auth_free(
    free: Seq<(String, String)>,
    service_fq: Seq<char>,
    method_name: Seq<char>,
) -> bool {
    exists|i: int| 0 <= i < free.len() && free[i].0@ == service_fq && free[i].1@ == method_name
}

/// The class and kind of a route's matched-method probe: shadowed routes
/// compare envelope shapes (`router-shadow`); gated ones the exact 401
/// envelope (`sweep-gated`); public ones are recorded only
/// (`sweep-public`).
pub open spec fn sweep_class(shadowed: bool, gated: bool) -> (Seq<char>, Kind) {
    if shadowed {
        ("router-shadow"@, Kind::EnvelopeShape)
    } else if gated {
        ("sweep-gated"@, Kind::EnvelopeExact)
    } else {
        ("sweep-public"@, Kind::Pending)
    }
}

/// The cases of route `idx`: the matched-method probe, then for a GET
/// route a HEAD probe of class `head-on-get`.
pub open spec fn route_cases(r: RouteSpec, idx: nat, free: Seq<(String, String)>) -> Seq<
    (Seq<char>, Seq<char>, Kind, Seq<char>, Seq<char>, Seq<(Seq<char>, Seq<char>)>, Option<Seq<char>>),
> {
    let concrete = concretized(r.path@);
    let (class, kind) = sweep_class(r.shadowed, !auth_free(free, r.service_fq@, r.method_name@));
    let probe = ("sweep-"@ + dec(idx), class, kind, ascii_upper(r.method@), concrete, seq![], None);
    if ascii_upper(r.method@) == "GET"@ {
        seq![
            probe,
            ("sweep-head-"@ + dec(idx), "head-on-get"@, Kind::Routing, "HEAD"@, concrete, seq![], None),
        ]
    } else {
        seq![probe]
    }
}

/// The sweep over the first `n` routes.
pub open spec fn sweep_spec(routes: Seq<RouteSpec>, n: nat, free: Seq<(String, String)>) -> Seq<
    (Seq<char>, Seq<char>, Kind, Seq<char>, Seq<char>, Seq<(Seq<char>, Seq<char>)>, Option<Seq<char>>),
>
    decreases n,
{
    if n == 0 {
        seq![]
    } else {
        sweep_spec(routes, (n - 1) as nat, free) + route_cases(routes[n - 1], (n - 1) as nat, free)
    }
}

fn is_auth_free(free: &Vec<(String, String)>, service_fq: &str, method_name: &str) -> (r: bool)
    ensures
        r == auth_free(free@, service_fq@, method_name@),
{
    let mut i: usize = 0;
    while i < free.len()
        invariant
            i <= free.len(),
            forall|j: int|
                0 <= j < i ==> !(free@[j].0@ == service_fq@ && free@[j].1@ == method_name@),
        decreases free.len() - i,
    {
        if str_eq(free[i].0.as_str(), service_fq) && str_eq(free[i].1.as_str(), method_name) {
            return true;
        }
        i += 1;
    }
    false
}

fn numbered(prefix: &str, idx: usize) -> (r: String)
    ensures
        r@ == prefix@ + dec(idx as nat),
{
    let mut v: Vec<char> = Vec::new();
    push_str(&mut v, prefix);
    push_chars(&mut v, decimal(idx as u64).as_slice());
    string_of(v.as_slice())
}

/// Builds the sweep over a route table, given the routes that need no
/// credentials (service, method): per route, in order, its
/// matched-method probe against the concrete path and, for a GET route,
/// a HEAD probe.
pub fn sweep_cases(routes: &Vec<RouteSpec>, free: &Vec<(String, String)>) -> (r: Vec<Case>)
    ensures
        r@.map_values(|c: Case| case_view(c)) == sweep_spec(routes@, routes@.len(), free@),
{
    let mut cases: Vec<Case> = Vec::new();
    let mut idx: usize = 0;
    while idx < routes.len()
        invariant
            idx <= routes.len(),
            cases@.map_values(|c: Case| case_view(c)) == sweep_spec(routes@, idx as nat, free@),
        decreases routes.len() - idx,
    {
        let spec = &routes[idx];
        let concrete = concretize(spec.path.as_str());
        let gated = !is_auth_free(free, spec.service_fq.as_str(), spec.method_name.as_str());
        let (class, kind): (&str, Kind) = if spec.shadowed {
            ("router-shadow", Kind::EnvelopeShape)
        } else if gated {
            ("sweep-gated", Kind::EnvelopeExact)
        } else {
            ("sweep-public", Kind::Pending)
        };
        let method = string_of(to_ascii_upper(chars_of(spec.method.as_str()).as_slice()).as_slice());
        let is_get = str_eq(method.as_str(), "GET");
        let ghost before = cases@.map_values(|c: Case| case_view(c));
        let probe = Case {
            id: numbered("sweep-", idx),
            class: class.to_owned(),
            kind,
            method,
            path: concrete.clone(),
            headers: Vec::new(),
            body: None,
        };
        assert(probe.headers@.map_values(|h: (String, String)| (h.0@, h.1@)) =~= seq![]);
        cases.push(probe);
        if is_get {
            let head = Case {
                id: numbered("sweep-head-", idx),
                class: "head-on-get".to_owned(),
                kind: Kind::Routing,
                method: "HEAD".to_owned(),
                path: concrete,
                headers: Vec::new(),
                body: None,
            };
            assert(head.headers@.map_values(|h: (String, String)| (h.0@, h.1@)) =~= seq![]);
            cases.push(head);
        }
        proof {
            let rc = route_cases(routes@[idx as int], idx as nat, free@);
            assert(cases@.map_values(|c: Case| case_view(c)) =~= before + rc);
        }
        idx += 1;
    }
    cases
}

/// The case kind a curated file spells.
pub fn kind_from_wire(name: &str) -> (r: Option<Kind>)
    ensures
        r == (if name@ == "Routing"@ {
            Some(Kind::Routing)
        } else if name@ == "EnvelopeExact"@ {
            Some(Kind::EnvelopeExact)
        } else if name@ == "EnvelopeShape"@ {
            Some(Kind::EnvelopeShape)
        } else if name@ == "Cors"@ {
            Some(Kind::Cors)
        } else if name@ == "Pending"@ {
            Some(Kind::Pending)
        } else {
            None
        }),
{
    if str_eq(name, "Routing") {
        Some(Kind::Routing)
    } else if str_eq(name, "EnvelopeExact") {
        Some(Kind::EnvelopeExact)
    } else if str_eq(name, "EnvelopeShape") {
        Some(Kind::EnvelopeShape)
    } else if str_eq(name, "Cors") {
        Some(Kind::Cors)
    } else if str_eq(name, "Pending") {
        Some(Kind::Pending)
    } else {
        None
    }
}

/// A curated case as read from file: the method upper-cased, the rest as
/// given.
pub fn curated_case(
    id: String,
    class: String,
    kind: Kind,
    method: &str,
    path: String,
    headers: Vec<(String, String)>,
    body: Option<String>,
) -> (r: Case)
    ensures
        r.id@ == id@,
        r.class@ == class@,
        r.kind == kind,
        r.method@ == ascii_upper(method@),
        r.path@ == path@,
        r.headers@ == headers@,
        r.body == body,
{
    let m = string_of(to_ascii_upper(chars_of(method).as_slice()).as_slice());
    Case { id, class, kind, method: m, path, headers, body }
}

} // verus!
