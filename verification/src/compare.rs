//! The comparators of the differential replay: each case names a contract
//! (routing classification, exact or shape-only error envelopes, CORS
//! header parity, or nothing asserted yet) and both sides' probes are
//! judged under it.

use vstd::prelude::*;
use crate::json::{as_i64, as_str, entry_value, get, has_key, value_as_i64, value_as_str, JsonValue};
use crate::probe::ProbeResult;
use crate::text::{
    ascii_lower, chars_eq, chars_of, dec, dec_int, decimal, decimal_signed, push_chars, push_str,
    string_of, to_ascii_lower,
};

verus! {

/// The comparison contract of a case.
#[derive(Debug, Clone, Copy, PartialEq, Eq, Structural)]
pub enum Kind {
    /// Both sides must agree on matched vs unmatched (404/405 = unmatched).
    Routing,
    /// Status and full body bytes must be identical.
    EnvelopeExact,
    /// Status and the envelope's `code`/`reason` must be identical.
    EnvelopeShape,
    /// The ACAO/ACAM/ACAC response headers must agree.
    Cors,
    /// Both sides recorded, nothing asserted.
    Pending,
}

/// The verdict of one judged case.
#[derive(Debug, Clone, Copy, PartialEq, Eq, Structural)]
pub enum Verdict {
    /// Both sides behaved identically under the case's contract.
    Pass,
    Fail,
    Exempt,
    Pending,
    Unreachable,
}

/// The exemption set: case classes mapped to their justifications. A
/// later insert of the same class replaces the earlier note.
pub struct Exemptions {
    entries: Vec<(String, String)>,
}

/// The map an entry list denotes, later entries winning.
pub open spec fn entries_map(e: Seq<(String, String)>) -> Map<Seq<char>, Seq<char>>
    decreases e.len(),
{
    if e.len() == 0 {
        Map::empty()
    } else {
        entries_map(e.drop_last()).insert(e.last().0@, e.last().1@)
    }
}

impl View for Exemptions {
    type V = Map<Seq<char>, Seq<char>>;

    closed spec fn view(&self) -> Map<Seq<char>, Seq<char>> {
        entries_map(self.entries@)
    }
}

impl Exemptions {
    /// The empty exemption set.
    pub fn new() -> (r: Self)
        ensures
            r@ == Map::<Seq<char>, Seq<char>>::empty(),
    {
        Exemptions { entries: Vec::new() }
    }

    /// Registers `note` as the justification of `class`.
    pub fn insert(&mut self, class: String, note: String)
        ensures
            final(self)@ == old(self)@.insert(class@, note@),
    {
        let ghost before = self.entries@;
        self.entries.push((class, note));
        assert(self.entries@.drop_last() =~= before);
    }

    /// The justification registered for `class`, if any.
    pub fn get(&self, class: &str) -> (r: Option<String>)
        ensures
            match r {
                Some(n) => self@.contains_key(class@) && self@[class@] == n@,
                None => !self@.contains_key(class@),
            },
    {
        let mut i: usize = self.entries.len();
        assert(self.entries@.subrange(0, i as int) =~= self.entries@);
        while i > 0
            invariant
                i <= self.entries.len(),
                entries_map(self.entries@).contains_key(class@) == entries_map(
                    self.entries@.subrange(0, i as int),
                ).contains_key(class@),
                entries_map(self.entries@.subrange(0, i as int)).contains_key(class@) ==> entries_map(
                    self.entries@,
                )[class@] == entries_map(self.entries@.subrange(0, i as int))[class@],
            decreases i,
        {
            let ghost pre = self.entries@.subrange(0, i as int);
            assert(pre.drop_last() =~= self.entries@.subrange(0, i - 1));
            if crate::text::str_eq(self.entries[i - 1].0.as_str(), class) {
                return Some(self.entries[i - 1].1.clone());
            }
            i -= 1;
        }
        None
    }
}

impl Default for Exemptions {
    fn default() -> (r: Self)
        ensures
            r@ == Map::<Seq<char>, Seq<char>>::empty(),
    {
        Exemptions::new()
    }
}

/// The characters of an optional string.
pub open spec fn opt_text(s: Option<String>) -> Option<Seq<char>> {
    match s {
        Some(t) => Some(t@),
        None => None,
    }
}

/// A judgment as values: the verdict and the detail text.
pub open spec fn outcome(r: (Verdict, Option<String>)) -> (Verdict, Option<Seq<char>>) {
    (r.0, opt_text(r.1))
}

/// The `Debug` spelling of an optional status: `Some(404)` or `None`.
pub open spec fn debug_status(s: Option<u16>) -> Seq<char> {
    match s {
        Some(c) => "Some("@ + dec(c as nat) + ")"@,
        None => "None"@,
    }
}

/// The `Debug` spelling of a string: quoted, with characters escaped.
pub uninterp spec fn debug_quoted(s: Seq<char>) -> Seq<char>;

/// The text of a byte sequence read as UTF-8, invalid sequences replaced
/// by U+FFFD.
pub uninterp spec fn lossy_utf8(b: Seq<u8>) -> Seq<char>;

/// The document a byte sequence parses to as JSON, if it parses.
pub uninterp spec fn parse_json_bytes(b: Seq<u8>) -> Option<JsonValue>;

/// Whether a response counts as route-unmatched on its stack (404 and 405
/// are unmatched; no status classifies nothing).
pub open spec fn unmatched_spec(status: Option<u16>) -> Option<bool> {
    match status {
        Some(c) => Some(c == 404 || c == 405),
        None => None,
    }
}

pub open spec fn match_word(unmatched: bool) -> Seq<char> {
    if unmatched {
        "unmatched"@
    } else {
        "matched"@
    }
}

/// The routing judgment of two statuses.
pub open spec fn routing_outcome(go: Option<u16>, rust: Option<u16>) -> (
    Verdict,
    Option<Seq<char>>,
) {
    match (unmatched_spec(go), unmatched_spec(rust)) {
        (Some(g), Some(r)) => if g == r {
            (Verdict::Pass, None)
        } else {
            (
                Verdict::Fail,
                Some(
                    "route classification diverged: go="@ + match_word(g) + " (status "@
                        + debug_status(go) + ") vs rust="@ + match_word(r) + " (status "@
                        + debug_status(rust) + ")"@,
                ),
            )
        },
        _ => (
            Verdict::Fail,
            Some(
                "routing probe got no status: go="@ + debug_status(go) + " rust="@ + debug_status(
                    rust,
                ),
            ),
        ),
    }
}

/// The envelope fields both sides must agree on: the value is an object
/// carrying all of `code`, `reason`, `message` and `metadata`, its code an
/// integer and its reason a string.
pub open spec fn envelope_fields(v: JsonValue) -> Option<(i64, Seq<char>)> {
    match v {
        JsonValue::Object(o) => if has_key(o@, "code"@) && has_key(o@, "reason"@) && has_key(
            o@,
            "message"@,
        ) && has_key(o@, "metadata"@) {
            match (as_i64(entry_value(o@, "code"@)), as_str(entry_value(o@, "reason"@))) {
                (Some(c), Some(r)) => Some((c, r)),
                _ => None,
            }
        } else {
            None
        },
        _ => None,
    }
}

/// The `Debug` spelling of a code/reason pair.
pub open spec fn debug_fields(f: (i64, Seq<char>)) -> Seq<char> {
    "("@ + dec_int(f.0 as int) + ", "@ + debug_quoted(f.1) + ")"@
}

/// A probe's body bytes, empty when there is none.
pub open spec fn body_bytes(p: ProbeResult) -> Seq<u8> {
    match p.body {
        Some(b) => b@,
        None => seq![],
    }
}

/// The document a probe's body parses to, if it has one and it parses.
pub open spec fn body_json(p: ProbeResult) -> Option<JsonValue> {
    match p.body {
        Some(b) => parse_json_bytes(b@),
        None => None,
    }
}

/// An envelope code equals the HTTP status the response carried.
pub open spec fn code_is_status(code: i64, status: Option<u16>) -> bool {
    match status {
        Some(st) => code == st as int,
        None => false,
    }
}

/// The envelope judgment given both sides' parsed bodies: statuses agree,
/// both bodies are envelopes with equal code and reason, that code is the
/// HTTP status, and with `exact` the bytes are identical.
pub open spec fn envelope_outcome(
    go: ProbeResult,
    rust: ProbeResult,
    exact: bool,
    go_json: Option<JsonValue>,
    rust_json: Option<JsonValue>,
) -> (Verdict, Option<Seq<char>>) {
    if go.status != rust.status {
        (
            Verdict::Fail,
            Some(
                "status diverged: go="@ + debug_status(go.status) + " rust="@ + debug_status(
                    rust.status,
                ),
            ),
        )
    } else {
        match (go_json, rust_json) {
            (Some(g), Some(r)) => match (envelope_fields(g), envelope_fields(r)) {
                (Some(gf), Some(rf)) => if gf != rf {
                    (
                        Verdict::Fail,
                        Some(
                            "envelope code/reason diverged: go="@ + debug_fields(gf) + " rust="@
                                + debug_fields(rf),
                        ),
                    )
                } else if !code_is_status(gf.0, go.status) {
                    (
                        Verdict::Fail,
                        Some(
                            "envelope code differs from the HTTP status: code="@ + dec_int(
                                gf.0 as int,
                            ) + " status="@ + debug_status(go.status),
                        ),
                    )
                } else if exact && body_bytes(go) != body_bytes(rust) {
                    (
                        Verdict::Fail,
                        Some(
                            "envelope bytes diverged beyond code/reason: go="@ + debug_quoted(
                                lossy_utf8(body_bytes(go)),
                            ) + " rust="@ + debug_quoted(lossy_utf8(body_bytes(rust))),
                        ),
                    )
                } else {
                    (Verdict::Pass, None)
                },
                _ => (Verdict::Fail, Some("one side's envelope lacks the four-field shape"@)),
            },
            _ => (Verdict::Fail, Some("one side's envelope did not parse as JSON"@)),
        }
    }
}

/// The value the last header named `k` (ASCII case-insensitively) carries.
pub open spec fn header_lookup(h: Seq<(String, Option<String>)>, k: Seq<char>) -> Option<
    Option<Seq<char>>,
>
    decreases h.len(),
{
    if h.len() == 0 {
        None
    } else if ascii_lower(h.last().0@) == k {
        Some(opt_text(h.last().1))
    } else {
        header_lookup(h.drop_last(), k)
    }
}

/// Two header captures denote the same name-to-value map.
pub open spec fn same_headers(g: Seq<(String, Option<String>)>, r: Seq<(String, Option<String>)>) -> bool {
    forall|k: Seq<char>| #[trigger] header_lookup(g, k) == header_lookup(r, k)
}

/// What the CORS judgment yields: a lost capture fails with its note,
/// differing header maps fail with a detail naming both sides' maps,
/// equal ones pass.
pub open spec fn cors_outcome(go: ProbeResult, rust: ProbeResult, r: (Verdict, Option<Seq<char>>)) -> bool {
    match (go.cors, rust.cors) {
        (Some(g), Some(h)) => if same_headers(g@, h@) {
            r == (Verdict::Pass, None::<Seq<char>>)
        } else {
            &&& r.0 == Verdict::Fail
            &&& r.1 matches Some(d) && exists|gt: Seq<char>, ut: Seq<char>|
                d == "cors response headers diverged: go="@ + gt + " rust="@ + ut
        },
        _ => r == (Verdict::Fail, Some("cors probe lost its header capture"@)),
    }
}

/// The whole judgment of one case.
pub open spec fn judged(
    kind: Kind,
    class: Seq<char>,
    go: ProbeResult,
    rust: ProbeResult,
    exemptions: Map<Seq<char>, Seq<char>>,
    r: (Verdict, Option<Seq<char>>),
) -> bool {
    if !go.reachable || !rust.reachable {
        r == (Verdict::Unreachable, None::<Seq<char>>)
    } else if exemptions.contains_key(class) {
        r == (Verdict::Exempt, Some(exemptions[class]))
    } else {
        match kind {
            Kind::Routing => r == routing_outcome(go.status, rust.status),
            Kind::EnvelopeExact => r == envelope_outcome(
                go,
                rust,
                true,
                body_json(go),
                body_json(rust),
            ),
            Kind::EnvelopeShape => r == envelope_outcome(
                go,
                rust,
                false,
                body_json(go),
                body_json(rust),
            ),
            Kind::Cors => cors_outcome(go, rust, r),
            Kind::Pending => r == (Verdict::Pending, None::<Seq<char>>),
        }
    }
}

/// A case of an exempt class never fails: with both sides up it is
/// recorded as exempt, with the class's justification.
pub proof fn lemma_exempt_never_fails(
    kind: Kind,
    class: Seq<char>,
    go: ProbeResult,
    rust: ProbeResult,
    exemptions: Map<Seq<char>, Seq<char>>,
    r: (Verdict, Option<Seq<char>>),
)
    requires
        judged(kind, class, go, rust, exemptions, r),
        exemptions.contains_key(class),
    ensures
        r.0 != Verdict::Fail,
        go.reachable && rust.reachable ==> r == (Verdict::Exempt, Some(exemptions[class])),
{
}

/// A pending case never fails: it is recorded, nothing asserted.
pub proof fn lemma_pending_never_fails(
    class: Seq<char>,
    go: ProbeResult,
    rust: ProbeResult,
    exemptions: Map<Seq<char>, Seq<char>>,
    r: (Verdict, Option<Seq<char>>),
)
    requires
        judged(Kind::Pending, class, go, rust, exemptions, r),
    ensures
        r.0 != Verdict::Fail,
{
}

/// `serde_json::from_slice` into a JSON value, converted to the library's
/// document model. Claims the result is a function of the bytes alone.
#[verifier::external_body]
fn parse_json(bytes: &[u8]) -> (r: Option<JsonValue>)
    ensures
        r == parse_json_bytes(bytes@),
        r matches Some(v) ==> crate::json::keys_distinct(v),
{
    match serde_json::from_slice::<serde_json::Value>(bytes) {
        Ok(v) => Some(crate::json_serde::from_serde(&v)),
        Err(_) => None,
    }
}

/// `format!("{:?}", s)`: claims the text is a function of `s` alone.
#[verifier::external_body]
fn debug_text(s: &str) -> (r: String)
    ensures
        r@ == debug_quoted(s@),
{
    format!("{:?}", s)
}

/// `String::from_utf8_lossy`: claims the text is a function of the bytes
/// alone.
#[verifier::external_body]
fn lossy_text(b: &[u8]) -> (r: String)
    ensures
        r@ == lossy_utf8(b@),
{
    String::from_utf8_lossy(b).into_owned()
}

/// The `Debug` text of the `HashMap` that collecting `pairs` builds
/// (later pairs winning). Nothing is stated of the text: the order in
/// which a `HashMap` prints its entries varies between runs.
#[verifier::external_body]
fn header_map_debug(pairs: &Vec<(String, Option<String>)>) -> String {
    let m: std::collections::HashMap<String, Option<String>> = pairs.iter().cloned().collect();
    format!("{m:?}")
}

fn debug_status_text(s: Option<u16>) -> (r: Vec<char>)
    ensures
        r@ == debug_status(s),
{
    match s {
        Some(c) => {
            let mut v = chars_of("Some(");
            push_chars(&mut v, decimal(c as u64).as_slice());
            push_str(&mut v, ")");
            v
        },
        None => chars_of("None"),
    }
}

/// Whether a status counts as route-unmatched.
pub fn unmatched(status: Option<u16>) -> (r: Option<bool>)
    ensures
        r == unmatched_spec(status),
{
    match status {
        Some(404) | Some(405) => Some(true),
        Some(_) => Some(false),
        None => None,
    }
}

fn match_word_text(u: bool) -> (r: &'static str)
    ensures
        r@ == match_word(u),
{
    if u {
        "unmatched"
    } else {
        "matched"
    }
}

/// The routing judgment: both sides must agree on matched vs unmatched.
pub fn judge_routing(go: &ProbeResult, rust: &ProbeResult) -> (r: (Verdict, Option<String>))
    ensures
        outcome(r) == routing_outcome(go.status, rust.status),
{
    match (unmatched(go.status), unmatched(rust.status)) {
        (Some(g), Some(u)) => {
            if g == u {
                (Verdict::Pass, None)
            } else {
                let mut m = chars_of("route classification diverged: go=");
                push_str(&mut m, match_word_text(g));
                push_str(&mut m, " (status ");
                push_chars(&mut m, debug_status_text(go.status).as_slice());
                push_str(&mut m, ") vs rust=");
                push_str(&mut m, match_word_text(u));
                push_str(&mut m, " (status ");
                push_chars(&mut m, debug_status_text(rust.status).as_slice());
                push_str(&mut m, ")");
                (Verdict::Fail, Some(string_of(m.as_slice())))
            }
        },
        _ => {
            let mut m = chars_of("routing probe got no status: go=");
            push_chars(&mut m, debug_status_text(go.status).as_slice());
            push_str(&mut m, " rust=");
            push_chars(&mut m, debug_status_text(rust.status).as_slice());
            (Verdict::Fail, Some(string_of(m.as_slice())))
        },
    }
}

fn fields_of(v: &JsonValue) -> (r: Option<(i64, String)>)
    ensures
        match r {
            Some(f) => envelope_fields(*v) == Some((f.0, f.1@)),
            None => envelope_fields(*v) is None,
        },
{
    match v {
        JsonValue::Object(o) => {
            let code = get(o, "code");
            let reason = get(o, "reason");
            let message = get(o, "message");
            let metadata = get(o, "metadata");
            match (code, reason, message, metadata) {
                (Some(c), Some(rs), Some(_), Some(_)) => match (value_as_i64(c), value_as_str(rs)) {
                    (Some(ci), Some(rt)) => Some((ci, rt.to_owned())),
                    _ => None,
                },
                _ => None,
            }
        },
        _ => None,
    }
}

fn debug_fields_text(f: &(i64, String)) -> (r: Vec<char>)
    ensures
        r@ == debug_fields((f.0, f.1@)),
{
    let mut m = chars_of("(");
    push_chars(&mut m, decimal_signed(f.0).as_slice());
    push_str(&mut m, ", ");
    let q = debug_text(f.1.as_str());
    push_str(&mut m, q.as_str());
    push_str(&mut m, ")");
    m
}

fn bytes_eq(a: &[u8], b: &[u8]) -> (r: bool)
    ensures
        r == (a@ == b@),
{
    if a.len() != b.len() {
        return false;
    }
    let mut i: usize = 0;
    while i < a.len()
        invariant
            a.len() == b.len(),
            i <= a.len(),
            forall|j: int| 0 <= j < i ==> a@[j] == b@[j],
        decreases a.len() - i,
    {
        if a[i] != b[i] {
            return false;
        }
        i += 1;
    }
    assert(a@ =~= b@);
    true
}

fn body_slice(p: &ProbeResult) -> (r: &[u8])
    ensures
        r@ == body_bytes(*p),
{
    match &p.body {
        Some(b) => b.as_slice(),
        None => &[],
    }
}

/// The envelope judgment given both sides' parsed bodies: statuses must
/// agree, both bodies must parse as envelopes with equal code and reason,
/// that code must be the HTTP status, and with `exact` the body bytes must
/// also be identical.
pub fn judge_envelope_parsed(
    go: &ProbeResult,
    rust: &ProbeResult,
    exact: bool,
    go_json: &Option<JsonValue>,
    rust_json: &Option<JsonValue>,
) -> (r: (Verdict, Option<String>))
    ensures
        outcome(r) == envelope_outcome(*go, *rust, exact, *go_json, *rust_json),
{
    if go.status != rust.status {
        let mut m = chars_of("status diverged: go=");
        push_chars(&mut m, debug_status_text(go.status).as_slice());
        push_str(&mut m, " rust=");
        push_chars(&mut m, debug_status_text(rust.status).as_slice());
        return (Verdict::Fail, Some(string_of(m.as_slice())));
    }
    let (g, u) = match (go_json, rust_json) {
        (Some(g), Some(u)) => (g, u),
        _ => {
            return (Verdict::Fail, Some(string_of(chars_of("one side's envelope did not parse as JSON").as_slice())));
        },
    };
    let (gf, uf) = match (fields_of(g), fields_of(u)) {
        (Some(gf), Some(uf)) => (gf, uf),
        _ => {
            return (Verdict::Fail, Some(string_of(chars_of("one side's envelope lacks the four-field shape").as_slice())));
        },
    };
    if gf.0 != uf.0 || !crate::text::str_eq(gf.1.as_str(), uf.1.as_str()) {
        let mut m = chars_of("envelope code/reason diverged: go=");
        push_chars(&mut m, debug_fields_text(&gf).as_slice());
        push_str(&mut m, " rust=");
        push_chars(&mut m, debug_fields_text(&uf).as_slice());
        return (Verdict::Fail, Some(string_of(m.as_slice())));
    }
    let code_ok = match go.status {
        Some(st) => gf.0 == st as i64,
        None => false,
    };
    if !code_ok {
        let mut m = chars_of("envelope code differs from the HTTP status: code=");
        push_chars(&mut m, decimal_signed(gf.0).as_slice());
        push_str(&mut m, " status=");
        push_chars(&mut m, debug_status_text(go.status).as_slice());
        return (Verdict::Fail, Some(string_of(m.as_slice())));
    }
    if exact {
        let gb = body_slice(go);
        let ub = body_slice(rust);
        if !bytes_eq(gb, ub) {
            let mut m = chars_of("envelope bytes diverged beyond code/reason: go=");
            push_str(&mut m, debug_text(lossy_text(gb).as_str()).as_str());
            push_str(&mut m, " rust=");
            push_str(&mut m, debug_text(lossy_text(ub).as_str()).as_str());
            return (Verdict::Fail, Some(string_of(m.as_slice())));
        }
    }
    (Verdict::Pass, None)
}

/// The envelope judgment: parses both bodies as JSON and judges them.
pub fn judge_envelope(go: &ProbeResult, rust: &ProbeResult, exact: bool) -> (r: (
    Verdict,
    Option<String>,
))
    ensures
        outcome(r) == envelope_outcome(*go, *rust, exact, body_json(*go), body_json(*rust)),
{
    let gj = match &go.body {
        Some(b) => parse_json(b.as_slice()),
        None => None,
    };
    let uj = match &rust.body {
        Some(b) => parse_json(b.as_slice()),
        None => None,
    };
    judge_envelope_parsed(go, rust, exact, &gj, &uj)
}

proof fn lemma_header_lookup_some(h: Seq<(String, Option<String>)>, k: Seq<char>)
    requires
        header_lookup(h, k) is Some,
    ensures
        exists|i: int| 0 <= i < h.len() && #[trigger] ascii_lower(h[i].0@) == k,
    decreases h.len(),
{
    if ascii_lower(h.last().0@) == k {
        assert(ascii_lower(h[h.len() - 1].0@) == k);
    } else {
        lemma_header_lookup_some(h.drop_last(), k);
        let i = choose|i: int| 0 <= i < h.len() - 1 && #[trigger] ascii_lower(h.drop_last()[i].0@) == k;
        assert(h.drop_last()[i] == h[i]);
    }
}

fn lookup_header(h: &Vec<(String, Option<String>)>, k: &Vec<char>) -> (r: Option<Option<Vec<char>>>)
    ensures
        match r {
            Some(Some(v)) => header_lookup(h@, k@) == Some(Some(v@)),
            Some(None) => header_lookup(h@, k@) == Some(None::<Seq<char>>),
            None => header_lookup(h@, k@) is None,
        },
{
    let mut i: usize = h.len();
    assert(h@.subrange(0, i as int) =~= h@);
    while i > 0
        invariant
            i <= h.len(),
            header_lookup(h@, k@) == header_lookup(h@.subrange(0, i as int), k@),
        decreases i,
    {
        assert(h@.subrange(0, i as int).drop_last() =~= h@.subrange(0, i - 1));
        let name = chars_of(h[i - 1].0.as_str());
        let lower = to_ascii_lower(name.as_slice());
        if chars_eq(lower.as_slice(), k.as_slice()) {
            return match &h[i - 1].1 {
                Some(v) => Some(Some(chars_of(v.as_str()))),
                None => Some(None),
            };
        }
        i -= 1;
    }
    None
}

fn lookups_agree(
    a: &Vec<(String, Option<String>)>,
    b: &Vec<(String, Option<String>)>,
    k: &Vec<char>,
) -> (r: bool)
    ensures
        r == (header_lookup(a@, k@) == header_lookup(b@, k@)),
{
    match (lookup_header(a, k), lookup_header(b, k)) {
        (None, None) => true,
        (Some(None), Some(None)) => true,
        (Some(Some(x)), Some(Some(y))) => chars_eq(x.as_slice(), y.as_slice()),
        _ => false,
    }
}

fn all_names_agree(
    a: &Vec<(String, Option<String>)>,
    b: &Vec<(String, Option<String>)>,
) -> (r: bool)
    ensures
        r == forall|i: int|
            0 <= i < a@.len() ==> header_lookup(a@, #[trigger] ascii_lower(a@[i].0@))
                == header_lookup(b@, ascii_lower(a@[i].0@)),
{
    let mut i: usize = 0;
    while i < a.len()
        invariant
            i <= a.len(),
            forall|j: int|
                0 <= j < i ==> header_lookup(a@, #[trigger] ascii_lower(a@[j].0@))
                    == header_lookup(b@, ascii_lower(a@[j].0@)),
        decreases a.len() - i,
    {
        let name = chars_of(a[i].0.as_str());
        let k = to_ascii_lower(name.as_slice());
        if !lookups_agree(a, b, &k) {
            return false;
        }
        i += 1;
    }
    true
}

/// The header pairs with each name in ASCII lower case, values kept, in
/// order.
fn lower_pairs(h: &Vec<(String, Option<String>)>) -> (r: Vec<(String, Option<String>)>)
    ensures
        r@.len() == h@.len(),
        forall|i: int|
            0 <= i < h@.len() ==> (#[trigger] r@[i]).0@ == ascii_lower(h@[i].0@) && opt_text(r@[i].1)
                == opt_text(h@[i].1),
{
    let mut out: Vec<(String, Option<String>)> = Vec::new();
    let mut i: usize = 0;
    while i < h.len()
        invariant
            i <= h.len(),
            out@.len() == i,
            forall|j: int|
                0 <= j < i ==> (#[trigger] out@[j]).0@ == ascii_lower(h@[j].0@) && opt_text(
                    out@[j].1,
                ) == opt_text(h@[j].1),
        decreases h.len() - i,
    {
        let name = chars_of(h[i].0.as_str());
        let lower = to_ascii_lower(name.as_slice());
        let value = match &h[i].1 {
            Some(v) => Some(v.clone()),
            None => None,
        };
        out.push((string_of(lower.as_slice()), value));
        i += 1;
    }
    out
}

/// The CORS judgment: both captures must denote the same header map
/// (names compared ASCII case-insensitively, later duplicates winning).
pub fn judge_cors(go: &ProbeResult, rust: &ProbeResult) -> (r: (Verdict, Option<String>))
    ensures
        cors_outcome(*go, *rust, outcome(r)),
{
    let (g, u) = match (&go.cors, &rust.cors) {
        (Some(g), Some(u)) => (g, u),
        _ => {
            return (Verdict::Fail, Some(string_of(chars_of("cors probe lost its header capture").as_slice())));
        },
    };
    let same = all_names_agree(g, u) && all_names_agree(u, g);
    proof {
        if same {
            assert forall|k: Seq<char>| #[trigger] header_lookup(g@, k) == header_lookup(u@, k) by {
                if header_lookup(g@, k) is Some {
                    lemma_header_lookup_some(g@, k);
                    let i = choose|i: int| 0 <= i < g@.len() && #[trigger] ascii_lower(g@[i].0@) == k;
                    assert(header_lookup(g@, ascii_lower(g@[i].0@)) == header_lookup(u@, ascii_lower(g@[i].0@)));
                } else if header_lookup(u@, k) is Some {
                    lemma_header_lookup_some(u@, k);
                    let i = choose|i: int| 0 <= i < u@.len() && #[trigger] ascii_lower(u@[i].0@) == k;
                    assert(header_lookup(u@, ascii_lower(u@[i].0@)) == header_lookup(g@, ascii_lower(u@[i].0@)));
                }
            }
        } else {
            if all_names_agree_spec(g@, u@) {
                assert(!forall|i: int| 0 <= i < u@.len() ==> header_lookup(u@, #[trigger] ascii_lower(u@[i].0@)) == header_lookup(g@, ascii_lower(u@[i].0@)));
            }
        }
    }
    if same {
        (Verdict::Pass, None)
    } else {
        let gt = header_map_debug(&lower_pairs(g));
        let ut = header_map_debug(&lower_pairs(u));
        let mut m = chars_of("cors response headers diverged: go=");
        push_str(&mut m, gt.as_str());
        push_str(&mut m, " rust=");
        push_str(&mut m, ut.as_str());
        let detail = string_of(m.as_slice());
        assert(detail@ == "cors response headers diverged: go="@ + gt@ + " rust="@ + ut@);
        (Verdict::Fail, Some(detail))
    }
}

spec fn all_names_agree_spec(a: Seq<(String, Option<String>)>, b: Seq<(String, Option<String>)>) -> bool {
    forall|i: int|
        0 <= i < a.len() ==> header_lookup(a, #[trigger] ascii_lower(a[i].0@)) == header_lookup(b, ascii_lower(a[i].0@))
}

/// Judges one probe pair: an unreachable side short-circuits, then an
/// exempt class, then the case's contract decides.
pub fn judge(
    kind: Kind,
    class: &str,
    go: &ProbeResult,
    rust: &ProbeResult,
    exemptions: &Exemptions,
) -> (r: (Verdict, Option<String>))
    ensures
        judged(kind, class@, *go, *rust, exemptions@, outcome(r)),
{
    if !go.reachable || !rust.reachable {
        return (Verdict::Unreachable, None);
    }
    if let Some(note) = exemptions.get(class) {
        return (Verdict::Exempt, Some(note));
    }
    match kind {
        Kind::Routing => judge_routing(go, rust),
        Kind::EnvelopeExact => judge_envelope(go, rust, true),
        Kind::EnvelopeShape => judge_envelope(go, rust, false),
        Kind::Cors => judge_cors(go, rust),
        Kind::Pending => (Verdict::Pending, None),
    }
}

/// The report spelling of a case kind.
pub open spec fn kind_text(kind: Kind) -> Seq<char> {
    match kind {
        Kind::Routing => "Routing"@,
        Kind::EnvelopeExact => "EnvelopeExact"@,
        Kind::EnvelopeShape => "EnvelopeShape"@,
        Kind::Cors => "Cors"@,
        Kind::Pending => "Pending"@,
    }
}

/// The report spelling of a verdict.
pub open spec fn verdict_text(verdict: Verdict) -> Seq<char> {
    match verdict {
        Verdict::Pass => "Ok"@,
        Verdict::Fail => "Fail"@,
        Verdict::Exempt => "Exempt"@,
        Verdict::Pending => "Pending"@,
        Verdict::Unreachable => "Unreachable"@,
    }
}

/// The report spelling of a case kind.
pub fn kind_name(kind: Kind) -> (r: &'static str)
    ensures
        r@ == kind_text(kind),
{
    match kind {
        Kind::Routing => "Routing",
        Kind::EnvelopeExact => "EnvelopeExact",
        Kind::EnvelopeShape => "EnvelopeShape",
        Kind::Cors => "Cors",
        Kind::Pending => "Pending",
    }
}

/// The report spelling of a verdict.
pub fn verdict_name(verdict: Verdict) -> (r: &'static str)
    ensures
        r@ == verdict_text(verdict),
{
    match verdict {
        Verdict::Pass => "Ok",
        Verdict::Fail => "Fail",
        Verdict::Exempt => "Exempt",
        Verdict::Pending => "Pending",
        Verdict::Unreachable => "Unreachable",
    }
}


/// An envelope judgment passes only when both sides answered with the
/// same HTTP status, both bodies are envelopes with the same code and
/// reason, that code is the status, and (when exact) the bodies are
/// byte-identical. Differing statuses fail whatever the bodies.
pub proof fn lemma_envelope_pass_needs_agreement(
    go: ProbeResult,
    rust: ProbeResult,
    exact: bool,
    go_json: Option<JsonValue>,
    rust_json: Option<JsonValue>,
)
    ensures
        go.status != rust.status ==> envelope_outcome(go, rust, exact, go_json, rust_json).0
            == Verdict::Fail,
        envelope_outcome(go, rust, exact, go_json, rust_json).0 == Verdict::Pass ==> {
            &&& go.status == rust.status
            &&& go_json matches Some(g) && envelope_fields(g) is Some
            &&& rust_json matches Some(r) && envelope_fields(r) is Some
            &&& envelope_fields(go_json->0) == envelope_fields(rust_json->0)
            &&& envelope_fields(go_json->0) matches Some(f) && code_is_status(f.0, go.status)
            &&& exact ==> body_bytes(go) == body_bytes(rust)
        },
        envelope_outcome(go, rust, exact, go_json, rust_json).0 == Verdict::Pass || envelope_outcome(
            go,
            rust,
            exact,
            go_json,
            rust_json,
        ).0 == Verdict::Fail,
{
}

/// Of a replayed envelope case (shape or exact) with both sides up and
/// its class not exempt, differing HTTP statuses are a failure, and a pass
/// means the statuses agree.
pub proof fn lemma_envelope_case_fails_on_status(
    kind: Kind,
    class: Seq<char>,
    go: ProbeResult,
    rust: ProbeResult,
    exemptions: Map<Seq<char>, Seq<char>>,
    r: (Verdict, Option<Seq<char>>),
)
    requires
        judged(kind, class, go, rust, exemptions, r),
        kind == Kind::EnvelopeShape || kind == Kind::EnvelopeExact,
        go.reachable && rust.reachable,
        !exemptions.contains_key(class),
    ensures
        go.status != rust.status ==> r.0 == Verdict::Fail,
        r.0 == Verdict::Pass ==> go.status == rust.status,
{
    lemma_envelope_pass_needs_agreement(go, rust, kind == Kind::EnvelopeExact, body_json(go), body_json(rust));
}


/// The routing judgment passes exactly when both sides answered and agree
/// on whether the route was unmatched (a 404 or 405 on both, or neither);
/// in particular two equal statuses always pass, and a 404 against a
/// status other than 404 or 405 fails.
pub proof fn lemma_routing_agreement(go: Option<u16>, rust: Option<u16>)
    ensures
        routing_outcome(go, rust).0 == Verdict::Pass <==> (go is Some && rust is Some && ((go->0
            == 404 || go->0 == 405) == (rust->0 == 404 || rust->0 == 405))),
        routing_outcome(go, rust).0 == Verdict::Pass || routing_outcome(go, rust).0 == Verdict::Fail,
        go is Some && go == rust ==> routing_outcome(go, rust).0 == Verdict::Pass,
{
}

} // verus!
