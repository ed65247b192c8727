//! The token payload — the typed view over a JWT claim bag — with its
//! mapping to and from the claim names on the wire, and the key and
//! cookie spellings of the session/token cache.

use vstd::prelude::*;
use crate::compare::opt_text;
use crate::json::{as_str, entry_value, find_key, has_key, key_index, value_as_str, JsonNumber, JsonValue};
use crate::semantic::texts;
use crate::text::{
    chars_of, dec, dec_int, decimal, decimal_signed, parse_unsigned, parse_unsigned_chars,
    push_chars, push_str, str_eq, string_of,
};

verus! {

/// `ClientType_admin` — the REST surface's client type value.
pub const CLIENT_TYPE_ADMIN: u32 = 0;

/// The typed view over the claims bag.
pub struct UserTokenPayload {
    pub username: String,
    pub user_id: u32,
    pub tenant_id: u32,
    pub org_unit_id: Option<u32>,
    pub roles: Vec<String>,
    pub client_id: Option<String>,
    pub device_id: Option<String>,
    pub data_scope: Option<String>,
    pub data_scopes: Vec<String>,
    /// Comma-joined decimal units (the `dsu` wire form).
    pub data_scope_unit_ids: Option<String>,
    pub hidden_fields: Vec<String>,
    pub is_platform_admin: Option<bool>,
    pub is_tenant_admin: Option<bool>,
    pub jti: String,
}

/// The payload as values.
pub struct PayloadView {
    pub username: Seq<char>,
    pub user_id: u32,
    pub tenant_id: u32,
    pub org_unit_id: Option<u32>,
    pub roles: Seq<Seq<char>>,
    pub client_id: Option<Seq<char>>,
    pub device_id: Option<Seq<char>>,
    pub data_scope: Option<Seq<char>>,
    pub data_scopes: Seq<Seq<char>>,
    pub data_scope_unit_ids: Option<Seq<char>>,
    pub hidden_fields: Seq<Seq<char>>,
    pub is_platform_admin: Option<bool>,
    pub is_tenant_admin: Option<bool>,
    pub jti: Seq<char>,
}

impl View for UserTokenPayload {
    type V = PayloadView;

    open spec fn view(&self) -> PayloadView {
        PayloadView {
            username: self.username@,
            user_id: self.user_id,
            tenant_id: self.tenant_id,
            org_unit_id: self.org_unit_id,
            roles: texts(self.roles@),
            client_id: opt_text(self.client_id),
            device_id: opt_text(self.device_id),
            data_scope: opt_text(self.data_scope),
            data_scopes: texts(self.data_scopes@),
            data_scope_unit_ids: opt_text(self.data_scope_unit_ids),
            hidden_fields: texts(self.hidden_fields@),
            is_platform_admin: self.is_platform_admin,
            is_tenant_admin: self.is_tenant_admin,
            jti: self.jti@,
        }
    }
}

/// The claim named `k`, if present.
pub open spec fn claim(c: Seq<(String, JsonValue)>, k: Seq<char>) -> Option<JsonValue> {
    if has_key(c, k) {
        Some(entry_value(c, k))
    } else {
        None
    }
}

/// A numeric claim: a non-negative integer (truncated to 32 bits) or a
/// string holding a decimal `u32`.
pub open spec fn claim_u32(c: Seq<(String, JsonValue)>, k: Seq<char>) -> Option<u32> {
    match claim(c, k) {
        Some(JsonValue::Number(JsonNumber::PosInt(v))) => Some((v % 0x1_0000_0000) as u32),
        Some(JsonValue::String(s)) => match parse_unsigned(s@, u32::MAX as nat) {
            Some(v) => Some(v as u32),
            None => None,
        },
        _ => None,
    }
}

/// A string claim.
pub open spec fn claim_str(c: Seq<(String, JsonValue)>, k: Seq<char>) -> Option<Seq<char>> {
    match claim(c, k) {
        Some(v) => as_str(v),
        None => None,
    }
}

/// The strings among a sequence of values, in order.
pub open spec fn strings_in(items: Seq<JsonValue>) -> Seq<Seq<char>>
    decreases items.len(),
{
    if items.len() == 0 {
        seq![]
    } else {
        let rest = strings_in(items.drop_last());
        match as_str(items.last()) {
            Some(s) => rest.push(s),
            None => rest,
        }
    }
}

/// A string-list claim: the strings of an array claim, else empty.
pub open spec fn claim_strs(c: Seq<(String, JsonValue)>, k: Seq<char>) -> Seq<Seq<char>> {
    match claim(c, k) {
        Some(JsonValue::Array(items)) => strings_in(items@),
        _ => seq![],
    }
}

/// A boolean claim: a boolean, or a string (true exactly when `"true"`).
pub open spec fn claim_bool(c: Seq<(String, JsonValue)>, k: Seq<char>) -> Option<bool> {
    match claim(c, k) {
        Some(JsonValue::Bool(b)) => Some(b),
        Some(JsonValue::String(s)) => Some(s@ == "true"@),
        _ => None,
    }
}

/// The payload a claim bag carries: `sub` and `uid` are required, a
/// missing `tid` is the platform (0), a missing `jti` is empty.
pub open spec fn payload_from_claims(c: Seq<(String, JsonValue)>) -> Option<PayloadView> {
    match (claim_str(c, "sub"@), claim_u32(c, "uid"@)) {
        (Some(username), Some(user_id)) => Some(
            PayloadView {
                username,
                user_id,
                tenant_id: match claim_u32(c, "tid"@) {
                    Some(t) => t,
                    None => 0,
                },
                org_unit_id: claim_u32(c, "ouid"@),
                roles: claim_strs(c, "roc"@),
                client_id: claim_str(c, "cid"@),
                device_id: claim_str(c, "did"@),
                data_scope: claim_str(c, "ds"@),
                data_scopes: claim_strs(c, "dss"@),
                data_scope_unit_ids: claim_str(c, "dsu"@),
                hidden_fields: claim_strs(c, "hfs"@),
                is_platform_admin: claim_bool(c, "ipa"@),
                is_tenant_admin: claim_bool(c, "ita"@),
                jti: match claim_str(c, "jti"@) {
                    Some(j) => j,
                    None => seq![],
                },
            },
        ),
        _ => None,
    }
}

fn get_claim<'a>(c: &'a Vec<(String, JsonValue)>, k: &str) -> (r: Option<&'a JsonValue>)
    ensures
        match r {
            Some(v) => claim(c@, k@) == Some(*v),
            None => claim(c@, k@) is None,
        },
{
    match find_key(c, k) {
        Some(i) => Some(&c[i].1),
        None => None,
    }
}

fn get_u32(c: &Vec<(String, JsonValue)>, k: &str) -> (r: Option<u32>)
    ensures
        r == claim_u32(c@, k@),
{
    match get_claim(c, k) {
        Some(JsonValue::Number(JsonNumber::PosInt(v))) => Some((*v % 0x1_0000_0000) as u32),
        Some(JsonValue::String(s)) => {
            let cs = chars_of(s.as_str());
            match parse_unsigned_chars(cs.as_slice(), 4294967295) {
                Some(v) => Some(v as u32),
                None => None,
            }
        },
        _ => None,
    }
}

fn get_str(c: &Vec<(String, JsonValue)>, k: &str) -> (r: Option<String>)
    ensures
        opt_text(r) == claim_str(c@, k@),
{
    match get_claim(c, k) {
        Some(v) => match value_as_str(v) {
            Some(s) => Some(s.to_owned()),
            None => None,
        },
        None => None,
    }
}

fn get_strs(c: &Vec<(String, JsonValue)>, k: &str) -> (r: Vec<String>)
    ensures
        texts(r@) == claim_strs(c@, k@),
{
    let mut out: Vec<String> = Vec::new();
    match get_claim(c, k) {
        Some(JsonValue::Array(items)) => {
            let mut i: usize = 0;
            while i < items.len()
                invariant
                    i <= items.len(),
                    texts(out@) == strings_in(items@.subrange(0, i as int)),
                decreases items.len() - i,
            {
                assert(items@.subrange(0, i + 1).drop_last() =~= items@.subrange(0, i as int));
                let ghost before = texts(out@);
                match value_as_str(&items[i]) {
                    Some(s) => {
                        out.push(s.to_owned());
                        assert(texts(out@) =~= before.push(s@));
                    },
                    None => {},
                }
                i += 1;
            }
            assert(items@.subrange(0, items.len() as int) =~= items@);
            out
        },
        _ => {
            assert(texts(out@) =~= Seq::<Seq<char>>::empty());
            out
        },
    }
}

fn get_bool(c: &Vec<(String, JsonValue)>, k: &str) -> (r: Option<bool>)
    ensures
        r == claim_bool(c@, k@),
{
    match get_claim(c, k) {
        Some(JsonValue::Bool(b)) => Some(*b),
        Some(JsonValue::String(s)) => Some(str_eq(s.as_str(), "true")),
        _ => None,
    }
}

/// The JSON form of an `i64`.
pub open spec fn int_json(i: i64) -> JsonValue {
    if i >= 0 {
        JsonValue::Number(JsonNumber::PosInt(i as u64))
    } else {
        JsonValue::Number(JsonNumber::NegInt(i))
    }
}

/// The keys of a claim bag, in order.
pub open spec fn claim_keys(c: Seq<(String, JsonValue)>) -> Seq<Seq<char>> {
    c.map_values(|e: (String, JsonValue)| e.0@)
}

/// `k` when `on`, nothing otherwise.
pub open spec fn key_if(on: bool, k: Seq<char>) -> Seq<Seq<char>> {
    if on {
        seq![k]
    } else {
        seq![]
    }
}

/// The access-claim names a payload yields, in insertion order: the
/// fixed six, then each optional claim that is set (lists when non-empty).
pub open spec fn access_claim_keys(p: PayloadView) -> Seq<Seq<char>> {
    seq!["sub"@, "uid"@, "tid"@, "iat"@, "exp"@, "jti"@] + key_if(p.roles.len() > 0, "roc"@)
        + key_if(p.device_id is Some, "did"@) + key_if(p.client_id is Some, "cid"@) + key_if(
        p.data_scope is Some,
        "ds"@,
    ) + key_if(p.data_scopes.len() > 0, "dss"@) + key_if(p.data_scope_unit_ids is Some, "dsu"@)
        + key_if(p.hidden_fields.len() > 0, "hfs"@) + key_if(p.org_unit_id is Some, "ouid"@)
        + key_if(p.is_platform_admin is Some, "ipa"@) + key_if(p.is_tenant_admin is Some, "ita"@)
}

/// The strings of an array value, when every item is a string.
pub open spec fn string_array(v: Option<JsonValue>) -> Option<Seq<Seq<char>>> {
    match v {
        Some(JsonValue::Array(items)) => if forall|i: int|
            0 <= i < items.len() ==> (#[trigger] as_str(items@[i])) is Some {
            Some(strings_in(items@))
        } else {
            None
        },
        _ => None,
    }
}

/// An optional string claim written when set.
pub open spec fn str_claim_is(c: Seq<(String, JsonValue)>, k: Seq<char>, v: Option<Seq<char>>) -> bool {
    match v {
        Some(s) => claim_str(c, k) == Some(s),
        None => claim(c, k) is None,
    }
}

/// A list claim written when non-empty.
pub open spec fn list_claim_is(c: Seq<(String, JsonValue)>, k: Seq<char>, v: Seq<Seq<char>>) -> bool {
    if v.len() > 0 {
        string_array(claim(c, k)) == Some(v)
    } else {
        claim(c, k) is None
    }
}

/// The access-claim bag of a payload issued at `iat`, expiring at `exp`.
pub open spec fn access_claims_are(c: Seq<(String, JsonValue)>, p: PayloadView, iat: i64, exp: i64) -> bool {
    &&& claim_keys(c) == access_claim_keys(p)
    &&& claim_str(c, "sub"@) == Some(p.username)
    &&& claim(c, "uid"@) == Some(JsonValue::Number(JsonNumber::PosInt(p.user_id as u64)))
    &&& claim(c, "tid"@) == Some(JsonValue::Number(JsonNumber::PosInt(p.tenant_id as u64)))
    &&& claim(c, "iat"@) == Some(int_json(iat))
    &&& claim(c, "exp"@) == Some(int_json(exp))
    &&& claim_str(c, "jti"@) == Some(p.jti)
    &&& list_claim_is(c, "roc"@, p.roles)
    &&& str_claim_is(c, "did"@, p.device_id)
    &&& str_claim_is(c, "cid"@, p.client_id)
    &&& str_claim_is(c, "ds"@, p.data_scope)
    &&& list_claim_is(c, "dss"@, p.data_scopes)
    &&& str_claim_is(c, "dsu"@, p.data_scope_unit_ids)
    &&& list_claim_is(c, "hfs"@, p.hidden_fields)
    &&& match p.org_unit_id {
        Some(o) => claim(c, "ouid"@) == Some(JsonValue::Number(JsonNumber::PosInt(o as u64))),
        None => claim(c, "ouid"@) is None,
    }
    &&& match p.is_platform_admin {
        Some(b) => claim(c, "ipa"@) == Some(JsonValue::Bool(b)),
        None => claim(c, "ipa"@) is None,
    }
    &&& match p.is_tenant_admin {
        Some(b) => claim(c, "ita"@) == Some(JsonValue::Bool(b)),
        None => claim(c, "ita"@) is None,
    }
}

/// The refresh-claim bag: `uid`, `jti`, `iat` and `exp` only.
pub open spec fn refresh_claims_are(c: Seq<(String, JsonValue)>, p: PayloadView, iat: i64, exp: i64) -> bool {
    &&& claim_keys(c) == seq!["uid"@, "jti"@, "iat"@, "exp"@]
    &&& claim(c, "uid"@) == Some(JsonValue::Number(JsonNumber::PosInt(p.user_id as u64)))
    &&& claim_str(c, "jti"@) == Some(p.jti)
    &&& claim(c, "iat"@) == Some(int_json(iat))
    &&& claim(c, "exp"@) == Some(int_json(exp))
}

/// `SystemTime::now().duration_since(UNIX_EPOCH)`: whether the clock
/// reads before the epoch, and the distance from it as whole seconds and
/// the nanoseconds beyond them. Which time comes back is the clock's and
/// is not stated.
#[verifier::external_body]
pub(crate) fn unix_time() -> (r: (bool, u64, u32))
    ensures
        r.2 < 1_000_000_000,
{
    match std::time::SystemTime::now().duration_since(std::time::UNIX_EPOCH) {
        Ok(d) => (false, d.as_secs(), d.subsec_nanos()),
        Err(e) => (true, e.duration().as_secs(), e.duration().subsec_nanos()),
    }
}

/// The whole UNIX seconds of a clock reading (`before` the epoch or not,
/// `secs` and `nanos` from it), rounded down: a reading before the epoch
/// counts as the second it lies in, negative. `None` when that second
/// does not fit an `i64`.
pub open spec fn unix_seconds_spec(before: bool, secs: u64, nanos: u32) -> Option<i64> {
    let v: int = if before {
        -(secs + if nanos > 0 {
            1int
        } else {
            0int
        })
    } else {
        secs as int
    };
    if i64::MIN <= v <= i64::MAX {
        Some(v as i64)
    } else {
        None
    }
}

/// The whole UNIX seconds of a clock reading (see `unix_seconds_spec`).
pub fn unix_seconds(before: bool, secs: u64, nanos: u32) -> (r: Option<i64>)
    ensures
        r == unix_seconds_spec(before, secs, nanos),
{
    let up: i128 = if nanos > 0 {
        1
    } else {
        0
    };
    let v: i128 = if before {
        -((secs as i128) + up)
    } else {
        secs as i128
    };
    if v >= i64::MIN as i128 && v <= i64::MAX as i128 {
        Some(v as i64)
    } else {
        None
    }
}

/// The current time as whole UNIX seconds: `unix_seconds` of the clock's
/// reading.
pub fn now_unix() -> Option<i64> {
    let (before, secs, nanos) = unix_time();
    unix_seconds(before, secs, nanos)
}

/// A lower-case hexadecimal digit.
pub open spec fn is_lower_hex(c: char) -> bool {
    ('0' <= c && c <= '9') || ('a' <= c && c <= 'f')
}

#[verifier::external_type_specification]
#[verifier::external_body]
pub struct ExContextV7(uuid::ContextV7);

#[verifier::external_type_specification]
#[verifier::external_body]
#[verifier::reject_recursive_types(T)]
pub struct ExMutex<T: ?Sized>(std::sync::Mutex<T>);

/// `uuid::Uuid::new_v7` of the UNIX time `secs` + `nanos`, counted by the
/// shared `context` (so ids from one context made within one millisecond
/// still come out in creation order), as `simple()` text: 32 lower-case
/// hex digits whose version digit is `7`. The remaining bits come from
/// the counter and the random source and are not stated.
#[verifier::external_body]
fn uuid_v7_text(context: &std::sync::Mutex<uuid::ContextV7>, secs: u64, nanos: u32) -> (r: String)
    ensures
        r@.len() == 32,
        forall|i: int| 0 <= i < 32 ==> is_lower_hex(#[trigger] r@[i]),
        r@[12] == '7',
{
    uuid::Uuid::new_v7(uuid::Timestamp::from_unix(context, secs, nanos)).simple().to_string()
}

/// The v7 id of a clock reading, as token ids and file guids use it: the
/// 32 lower-case hex digits of a new UUIDv7 stamped with the reading and
/// counted by `context`, whose version digit is `7`; `None` exactly for a
/// reading before the epoch (a v7 id holds no earlier time).
pub fn jwt_id_at(context: &std::sync::Mutex<uuid::ContextV7>, before: bool, secs: u64, nanos: u32) -> (r:
    Option<String>)
    ensures
        r is None <==> before,
        r matches Some(id) ==> {
            &&& id@.len() == 32
            &&& forall|i: int| 0 <= i < 32 ==> is_lower_hex(#[trigger] id@[i])
            &&& id@[12] == '7'
        },
{
    if before {
        None
    } else {
        Some(uuid_v7_text(context, secs, nanos))
    }
}

/// A fresh token id: `jwt_id_at` of the clock's reading. The caller
/// holds the process-wide v7 `context` (a `static` in the program), so
/// ids made within one millisecond keep their creation order.
pub fn new_jwt_id(context: &std::sync::Mutex<uuid::ContextV7>) -> (r: Option<String>)
    ensures
        r matches Some(id) ==> {
            &&& id@.len() == 32
            &&& forall|i: int| 0 <= i < 32 ==> is_lower_hex(#[trigger] id@[i])
            &&& id@[12] == '7'
        },
{
    let (before, secs, nanos) = unix_time();
    jwt_id_at(context, before, secs, nanos)
}

fn json_of_i64(i: i64) -> (r: JsonValue)
    ensures
        r == int_json(i),
{
    if i >= 0 {
        JsonValue::Number(JsonNumber::PosInt(i as u64))
    } else {
        JsonValue::Number(JsonNumber::NegInt(i))
    }
}

fn string_array_of(v: &Vec<String>) -> (r: JsonValue)
    ensures
        string_array(Some(r)) == Some(texts(v@)),
{
    let mut items: Vec<JsonValue> = Vec::new();
    let mut i: usize = 0;
    while i < v.len()
        invariant
            i <= v.len(),
            items@.len() == i,
            forall|j: int| 0 <= j < i ==> (#[trigger] as_str(items@[j])) == Some(v@[j]@),
            strings_in(items@) == texts(v@.subrange(0, i as int)),
        decreases v.len() - i,
    {
        let ghost before = items@;
        items.push(JsonValue::String(v[i].clone()));
        assert(items@.drop_last() =~= before);
        assert(texts(v@.subrange(0, i + 1)) =~= texts(v@.subrange(0, i as int)).push(v@[i as int]@));
        i += 1;
    }
    assert(v@.subrange(0, v.len() as int) =~= v@);
    JsonValue::Array(items)
}

/// Facts about looking up the claims of a bag built by appending.
proof fn lemma_claim_push(c: Seq<(String, JsonValue)>, e: (String, JsonValue), k: Seq<char>)
    ensures
        claim(c.push(e), k) == if e.0@ == k {
            Some(e.1)
        } else {
            claim(c, k)
        },
{
    assert(c.push(e).drop_last() =~= c);
    crate::json::lemma_key_index_range(c, k);
}

/// The claim names are pairwise distinct.
proof fn lemma_claim_names_distinct()
    ensures
        "sub"@ != "uid"@,
        "sub"@ != "tid"@,
        "sub"@ != "iat"@,
        "sub"@ != "exp"@,
        "sub"@ != "jti"@,
        "sub"@ != "roc"@,
        "sub"@ != "did"@,
        "sub"@ != "cid"@,
        "sub"@ != "ds"@,
        "sub"@ != "dss"@,
        "sub"@ != "dsu"@,
        "sub"@ != "hfs"@,
        "sub"@ != "ouid"@,
        "sub"@ != "ipa"@,
        "sub"@ != "ita"@,
        "uid"@ != "tid"@,
        "uid"@ != "iat"@,
        "uid"@ != "exp"@,
        "uid"@ != "jti"@,
        "uid"@ != "roc"@,
        "uid"@ != "did"@,
        "uid"@ != "cid"@,
        "uid"@ != "ds"@,
        "uid"@ != "dss"@,
        "uid"@ != "dsu"@,
        "uid"@ != "hfs"@,
        "uid"@ != "ouid"@,
        "uid"@ != "ipa"@,
        "uid"@ != "ita"@,
        "tid"@ != "iat"@,
        "tid"@ != "exp"@,
        "tid"@ != "jti"@,
        "tid"@ != "roc"@,
        "tid"@ != "did"@,
        "tid"@ != "cid"@,
        "tid"@ != "ds"@,
        "tid"@ != "dss"@,
        "tid"@ != "dsu"@,
        "tid"@ != "hfs"@,
        "tid"@ != "ouid"@,
        "tid"@ != "ipa"@,
        "tid"@ != "ita"@,
        "iat"@ != "exp"@,
        "iat"@ != "jti"@,
        "iat"@ != "roc"@,
        "iat"@ != "did"@,
        "iat"@ != "cid"@,
        "iat"@ != "ds"@,
        "iat"@ != "dss"@,
        "iat"@ != "dsu"@,
        "iat"@ != "hfs"@,
        "iat"@ != "ouid"@,
        "iat"@ != "ipa"@,
        "iat"@ != "ita"@,
        "exp"@ != "jti"@,
        "exp"@ != "roc"@,
        "exp"@ != "did"@,
        "exp"@ != "cid"@,
        "exp"@ != "ds"@,
        "exp"@ != "dss"@,
        "exp"@ != "dsu"@,
        "exp"@ != "hfs"@,
        "exp"@ != "ouid"@,
        "exp"@ != "ipa"@,
        "exp"@ != "ita"@,
        "jti"@ != "roc"@,
        "jti"@ != "did"@,
        "jti"@ != "cid"@,
        "jti"@ != "ds"@,
        "jti"@ != "dss"@,
        "jti"@ != "dsu"@,
        "jti"@ != "hfs"@,
        "jti"@ != "ouid"@,
        "jti"@ != "ipa"@,
        "jti"@ != "ita"@,
        "roc"@ != "did"@,
        "roc"@ != "cid"@,
        "roc"@ != "ds"@,
        "roc"@ != "dss"@,
        "roc"@ != "dsu"@,
        "roc"@ != "hfs"@,
        "roc"@ != "ouid"@,
        "roc"@ != "ipa"@,
        "roc"@ != "ita"@,
        "did"@ != "cid"@,
        "did"@ != "ds"@,
        "did"@ != "dss"@,
        "did"@ != "dsu"@,
        "did"@ != "hfs"@,
        "did"@ != "ouid"@,
        "did"@ != "ipa"@,
        "did"@ != "ita"@,
        "cid"@ != "ds"@,
        "cid"@ != "dss"@,
        "cid"@ != "dsu"@,
        "cid"@ != "hfs"@,
        "cid"@ != "ouid"@,
        "cid"@ != "ipa"@,
        "cid"@ != "ita"@,
        "ds"@ != "dss"@,
        "ds"@ != "dsu"@,
        "ds"@ != "hfs"@,
        "ds"@ != "ouid"@,
        "ds"@ != "ipa"@,
        "ds"@ != "ita"@,
        "dss"@ != "dsu"@,
        "dss"@ != "hfs"@,
        "dss"@ != "ouid"@,
        "dss"@ != "ipa"@,
        "dss"@ != "ita"@,
        "dsu"@ != "hfs"@,
        "dsu"@ != "ouid"@,
        "dsu"@ != "ipa"@,
        "dsu"@ != "ita"@,
        "hfs"@ != "ouid"@,
        "hfs"@ != "ipa"@,
        "hfs"@ != "ita"@,
        "ouid"@ != "ipa"@,
        "ouid"@ != "ita"@,
        "ipa"@ != "ita"@,
{
    reveal_strlit("sub");
    reveal_strlit("uid");
    reveal_strlit("tid");
    reveal_strlit("iat");
    reveal_strlit("exp");
    reveal_strlit("jti");
    reveal_strlit("roc");
    reveal_strlit("did");
    reveal_strlit("cid");
    reveal_strlit("ds");
    reveal_strlit("dss");
    reveal_strlit("dsu");
    reveal_strlit("hfs");
    reveal_strlit("ouid");
    reveal_strlit("ipa");
    reveal_strlit("ita");
    assert("sub"@[0] != "uid"@[0]);
    assert("sub"@[0] != "tid"@[0]);
    assert("sub"@[0] != "iat"@[0]);
    assert("sub"@[0] != "exp"@[0]);
    assert("sub"@[0] != "jti"@[0]);
    assert("sub"@[0] != "roc"@[0]);
    assert("sub"@[0] != "did"@[0]);
    assert("sub"@[0] != "cid"@[0]);
    assert("sub"@.len() != "ds"@.len());
    assert("sub"@[0] != "dss"@[0]);
    assert("sub"@[0] != "dsu"@[0]);
    assert("sub"@[0] != "hfs"@[0]);
    assert("sub"@.len() != "ouid"@.len());
    assert("sub"@[0] != "ipa"@[0]);
    assert("sub"@[0] != "ita"@[0]);
    assert("uid"@[0] != "tid"@[0]);
    assert("uid"@[0] != "iat"@[0]);
    assert("uid"@[0] != "exp"@[0]);
    assert("uid"@[0] != "jti"@[0]);
    assert("uid"@[0] != "roc"@[0]);
    assert("uid"@[0] != "did"@[0]);
    assert("uid"@[0] != "cid"@[0]);
    assert("uid"@.len() != "ds"@.len());
    assert("uid"@[0] != "dss"@[0]);
    assert("uid"@[0] != "dsu"@[0]);
    assert("uid"@[0] != "hfs"@[0]);
    assert("uid"@.len() != "ouid"@.len());
    assert("uid"@[0] != "ipa"@[0]);
    assert("uid"@[0] != "ita"@[0]);
    assert("tid"@[0] != "iat"@[0]);
    assert("tid"@[0] != "exp"@[0]);
    assert("tid"@[0] != "jti"@[0]);
    assert("tid"@[0] != "roc"@[0]);
    assert("tid"@[0] != "did"@[0]);
    assert("tid"@[0] != "cid"@[0]);
    assert("tid"@.len() != "ds"@.len());
    assert("tid"@[0] != "dss"@[0]);
    assert("tid"@[0] != "dsu"@[0]);
    assert("tid"@[0] != "hfs"@[0]);
    assert("tid"@.len() != "ouid"@.len());
    assert("tid"@[0] != "ipa"@[0]);
    assert("tid"@[0] != "ita"@[0]);
    assert("iat"@[0] != "exp"@[0]);
    assert("iat"@[0] != "jti"@[0]);
    assert("iat"@[0] != "roc"@[0]);
    assert("iat"@[0] != "did"@[0]);
    assert("iat"@[0] != "cid"@[0]);
    assert("iat"@.len() != "ds"@.len());
    assert("iat"@[0] != "dss"@[0]);
    assert("iat"@[0] != "dsu"@[0]);
    assert("iat"@[0] != "hfs"@[0]);
    assert("iat"@.len() != "ouid"@.len());
    assert("iat"@[1] != "ipa"@[1]);
    assert("iat"@[1] != "ita"@[1]);
    assert("exp"@[0] != "jti"@[0]);
    assert("exp"@[0] != "roc"@[0]);
    assert("exp"@[0] != "did"@[0]);
    assert("exp"@[0] != "cid"@[0]);
    assert("exp"@.len() != "ds"@.len());
    assert("exp"@[0] != "dss"@[0]);
    assert("exp"@[0] != "dsu"@[0]);
    assert("exp"@[0] != "hfs"@[0]);
    assert("exp"@.len() != "ouid"@.len());
    assert("exp"@[0] != "ipa"@[0]);
    assert("exp"@[0] != "ita"@[0]);
    assert("jti"@[0] != "roc"@[0]);
    assert("jti"@[0] != "did"@[0]);
    assert("jti"@[0] != "cid"@[0]);
    assert("jti"@.len() != "ds"@.len());
    assert("jti"@[0] != "dss"@[0]);
    assert("jti"@[0] != "dsu"@[0]);
    assert("jti"@[0] != "hfs"@[0]);
    assert("jti"@.len() != "ouid"@.len());
    assert("jti"@[0] != "ipa"@[0]);
    assert("jti"@[0] != "ita"@[0]);
    assert("roc"@[0] != "did"@[0]);
    assert("roc"@[0] != "cid"@[0]);
    assert("roc"@.len() != "ds"@.len());
    assert("roc"@[0] != "dss"@[0]);
    assert("roc"@[0] != "dsu"@[0]);
    assert("roc"@[0] != "hfs"@[0]);
    assert("roc"@.len() != "ouid"@.len());
    assert("roc"@[0] != "ipa"@[0]);
    assert("roc"@[0] != "ita"@[0]);
    assert("did"@[0] != "cid"@[0]);
    assert("did"@.len() != "ds"@.len());
    assert("did"@[1] != "dss"@[1]);
    assert("did"@[1] != "dsu"@[1]);
    assert("did"@[0] != "hfs"@[0]);
    assert("did"@.len() != "ouid"@.len());
    assert("did"@[0] != "ipa"@[0]);
    assert("did"@[0] != "ita"@[0]);
    assert("cid"@.len() != "ds"@.len());
    assert("cid"@[0] != "dss"@[0]);
    assert("cid"@[0] != "dsu"@[0]);
    assert("cid"@[0] != "hfs"@[0]);
    assert("cid"@.len() != "ouid"@.len());
    assert("cid"@[0] != "ipa"@[0]);
    assert("cid"@[0] != "ita"@[0]);
    assert("ds"@.len() != "dss"@.len());
    assert("ds"@.len() != "dsu"@.len());
    assert("ds"@.len() != "hfs"@.len());
    assert("ds"@.len() != "ouid"@.len());
    assert("ds"@.len() != "ipa"@.len());
    assert("ds"@.len() != "ita"@.len());
    assert("dss"@[2] != "dsu"@[2]);
    assert("dss"@[0] != "hfs"@[0]);
    assert("dss"@.len() != "ouid"@.len());
    assert("dss"@[0] != "ipa"@[0]);
    assert("dss"@[0] != "ita"@[0]);
    assert("dsu"@[0] != "hfs"@[0]);
    assert("dsu"@.len() != "ouid"@.len());
    assert("dsu"@[0] != "ipa"@[0]);
    assert("dsu"@[0] != "ita"@[0]);
    assert("hfs"@.len() != "ouid"@.len());
    assert("hfs"@[0] != "ipa"@[0]);
    assert("hfs"@[0] != "ita"@[0]);
    assert("ouid"@.len() != "ipa"@.len());
    assert("ouid"@.len() != "ita"@.len());
    assert("ipa"@[1] != "ita"@[1]);
}

fn push_claim(c: &mut Vec<(String, JsonValue)>, k: &str, v: JsonValue)
    ensures
        claim_keys(final(c)@) == claim_keys(old(c)@).push(k@),
        claim(final(c)@, k@) == Some(v),
        forall|q: Seq<char>| q != k@ ==> #[trigger] claim(final(c)@, q) == claim(old(c)@, q),
{
    let ghost before = c@;
    c.push((string_of(chars_of(k).as_slice()), v));
    assert(c@ == before.push(c@.last()));
    proof {
        lemma_claim_push(before, c@.last(), k@);
    }
    assert forall|q: Seq<char>| q != k@ implies #[trigger] claim(c@, q) == claim(before, q) by {
        lemma_claim_push(before, c@.last(), q);
    }
    assert(claim_keys(c@) =~= claim_keys(before).push(k@));
}

fn push_opt_str(c: &mut Vec<(String, JsonValue)>, k: &str, v: &Option<String>)
    requires
        claim(old(c)@, k@) is None,
    ensures
        claim_keys(final(c)@) == claim_keys(old(c)@) + key_if(v is Some, k@),
        str_claim_is(final(c)@, k@, opt_text(*v)),
        forall|q: Seq<char>| q != k@ ==> #[trigger] claim(final(c)@, q) == claim(old(c)@, q),
{
    match v {
        Some(s) => {
            push_claim(c, k, JsonValue::String(s.clone()));
            assert(claim_keys(c@) =~= claim_keys(old(c)@) + key_if(true, k@));
        },
        None => {
            assert(claim_keys(c@) =~= claim_keys(c@) + key_if(false, k@));
        },
    }
}

fn push_list(c: &mut Vec<(String, JsonValue)>, k: &str, v: &Vec<String>)
    requires
        claim(old(c)@, k@) is None,
    ensures
        claim_keys(final(c)@) == claim_keys(old(c)@) + key_if(v.len() > 0, k@),
        list_claim_is(final(c)@, k@, texts(v@)),
        forall|q: Seq<char>| q != k@ ==> #[trigger] claim(final(c)@, q) == claim(old(c)@, q),
{
    if v.len() > 0 {
        push_claim(c, k, string_array_of(v));
        assert(claim_keys(c@) =~= claim_keys(old(c)@) + key_if(true, k@));
    } else {
        assert(claim_keys(c@) =~= claim_keys(c@) + key_if(false, k@));
    }
}

fn push_opt_u32(c: &mut Vec<(String, JsonValue)>, k: &str, v: Option<u32>)
    requires
        claim(old(c)@, k@) is None,
    ensures
        claim_keys(final(c)@) == claim_keys(old(c)@) + key_if(v is Some, k@),
        match v {
            Some(o) => claim(final(c)@, k@) == Some(JsonValue::Number(JsonNumber::PosInt(o as u64))),
            None => claim(final(c)@, k@) is None,
        },
        forall|q: Seq<char>| q != k@ ==> #[trigger] claim(final(c)@, q) == claim(old(c)@, q),
{
    match v {
        Some(o) => {
            push_claim(c, k, JsonValue::Number(JsonNumber::PosInt(o as u64)));
            assert(claim_keys(c@) =~= claim_keys(old(c)@) + key_if(true, k@));
        },
        None => {
            assert(claim_keys(c@) =~= claim_keys(c@) + key_if(false, k@));
        },
    }
}

fn push_opt_bool(c: &mut Vec<(String, JsonValue)>, k: &str, v: Option<bool>)
    requires
        claim(old(c)@, k@) is None,
    ensures
        claim_keys(final(c)@) == claim_keys(old(c)@) + key_if(v is Some, k@),
        match v {
            Some(b) => claim(final(c)@, k@) == Some(JsonValue::Bool(b)),
            None => claim(final(c)@, k@) is None,
        },
        forall|q: Seq<char>| q != k@ ==> #[trigger] claim(final(c)@, q) == claim(old(c)@, q),
{
    match v {
        Some(b) => {
            push_claim(c, k, JsonValue::Bool(b));
            assert(claim_keys(c@) =~= claim_keys(old(c)@) + key_if(true, k@));
        },
        None => {
            assert(claim_keys(c@) =~= claim_keys(c@) + key_if(false, k@));
        },
    }
}

impl UserTokenPayload {
    /// Reads the payload out of a claim bag; `None` when `sub` or `uid`
    /// is missing or malformed.
    pub fn from_claims(claims: &Vec<(String, JsonValue)>) -> (r: Option<Self>)
        ensures
            match r {
                Some(p) => payload_from_claims(claims@) == Some(p@),
                None => payload_from_claims(claims@) is None,
            },
    {
        let username = match get_str(claims, "sub") {
            Some(u) => u,
            None => return None,
        };
        let user_id = match get_u32(claims, "uid") {
            Some(u) => u,
            None => return None,
        };
        let tenant_id = match get_u32(claims, "tid") {
            Some(t) => t,
            None => 0,
        };
        let jti = match get_str(claims, "jti") {
            Some(j) => j,
            None => String::new(),
        };
        let p = UserTokenPayload {
            username,
            user_id,
            tenant_id,
            org_unit_id: get_u32(claims, "ouid"),
            roles: get_strs(claims, "roc"),
            client_id: get_str(claims, "cid"),
            device_id: get_str(claims, "did"),
            data_scope: get_str(claims, "ds"),
            data_scopes: get_strs(claims, "dss"),
            data_scope_unit_ids: get_str(claims, "dsu"),
            hidden_fields: get_strs(claims, "hfs"),
            is_platform_admin: get_bool(claims, "ipa"),
            is_tenant_admin: get_bool(claims, "ita"),
            jti,
        };
        Some(p)
    }

    #[verifier::rlimit(60)]
    fn push_optional_strs(&self, c: &mut Vec<(String, JsonValue)>)
        requires
            claim(old(c)@, "roc"@) is None,
            claim(old(c)@, "did"@) is None,
            claim(old(c)@, "cid"@) is None,
            claim(old(c)@, "ds"@) is None,
            claim(old(c)@, "dss"@) is None,
        ensures
            claim_keys(final(c)@) == claim_keys(old(c)@) + key_if(self@.roles.len() > 0, "roc"@)
                + key_if(self@.device_id is Some, "did"@) + key_if(self@.client_id is Some, "cid"@)
                + key_if(self@.data_scope is Some, "ds"@) + key_if(self@.data_scopes.len() > 0, "dss"@),
            list_claim_is(final(c)@, "roc"@, self@.roles),
            str_claim_is(final(c)@, "did"@, self@.device_id),
            str_claim_is(final(c)@, "cid"@, self@.client_id),
            str_claim_is(final(c)@, "ds"@, self@.data_scope),
            list_claim_is(final(c)@, "dss"@, self@.data_scopes),
            forall|q: Seq<char>|
                q != "roc"@ && q != "did"@ && q != "cid"@ && q != "ds"@ && q != "dss"@
                    ==> #[trigger] claim(final(c)@, q) == claim(old(c)@, q),
    {
        proof {
            lemma_claim_names_distinct();
        }
        let ghost c0 = c@;
        push_list(c, "roc", &self.roles);
        let ghost c1 = c@;
        push_opt_str(c, "did", &self.device_id);
        let ghost c2 = c@;
        push_opt_str(c, "cid", &self.client_id);
        let ghost c3 = c@;
        push_opt_str(c, "ds", &self.data_scope);
        let ghost c4 = c@;
        push_list(c, "dss", &self.data_scopes);
        assert(claim(c@, "roc"@) == claim(c1, "roc"@));
        assert(claim(c@, "did"@) == claim(c2, "did"@));
        assert(claim(c@, "cid"@) == claim(c3, "cid"@));
        assert(claim(c@, "ds"@) == claim(c4, "ds"@));
        assert(claim_keys(c@) =~= claim_keys(c0) + key_if(self@.roles.len() > 0, "roc"@)
                + key_if(self@.device_id is Some, "did"@) + key_if(self@.client_id is Some, "cid"@)
                + key_if(self@.data_scope is Some, "ds"@) + key_if(self@.data_scopes.len() > 0, "dss"@));
    }

    #[verifier::rlimit(60)]
    fn push_optional_rest(&self, c: &mut Vec<(String, JsonValue)>)
        requires
            claim(old(c)@, "dsu"@) is None,
            claim(old(c)@, "hfs"@) is None,
            claim(old(c)@, "ouid"@) is None,
            claim(old(c)@, "ipa"@) is None,
            claim(old(c)@, "ita"@) is None,
        ensures
            claim_keys(final(c)@) == claim_keys(old(c)@) + key_if(self@.data_scope_unit_ids is Some, "dsu"@)
                + key_if(self@.hidden_fields.len() > 0, "hfs"@) + key_if(self@.org_unit_id is Some, "ouid"@)
                + key_if(self@.is_platform_admin is Some, "ipa"@) + key_if(self@.is_tenant_admin is Some, "ita"@),
            str_claim_is(final(c)@, "dsu"@, self@.data_scope_unit_ids),
            list_claim_is(final(c)@, "hfs"@, self@.hidden_fields),
            match self.org_unit_id {
                Some(o) => claim(final(c)@, "ouid"@) == Some(JsonValue::Number(JsonNumber::PosInt(o as u64))),
                None => claim(final(c)@, "ouid"@) is None,
            },
            match self.is_platform_admin {
                Some(b) => claim(final(c)@, "ipa"@) == Some(JsonValue::Bool(b)),
                None => claim(final(c)@, "ipa"@) is None,
            },
            match self.is_tenant_admin {
                Some(b) => claim(final(c)@, "ita"@) == Some(JsonValue::Bool(b)),
                None => claim(final(c)@, "ita"@) is None,
            },
            forall|q: Seq<char>|
                q != "dsu"@ && q != "hfs"@ && q != "ouid"@ && q != "ipa"@ && q != "ita"@
                    ==> #[trigger] claim(final(c)@, q) == claim(old(c)@, q),
    {
        proof {
            lemma_claim_names_distinct();
        }
        let ghost c0 = c@;
        push_opt_str(c, "dsu", &self.data_scope_unit_ids);
        let ghost c1 = c@;
        push_list(c, "hfs", &self.hidden_fields);
        let ghost c2 = c@;
        push_opt_u32(c, "ouid", self.org_unit_id);
        let ghost c3 = c@;
        push_opt_bool(c, "ipa", self.is_platform_admin);
        let ghost c4 = c@;
        push_opt_bool(c, "ita", self.is_tenant_admin);
        assert(claim(c@, "dsu"@) == claim(c1, "dsu"@));
        assert(claim(c@, "hfs"@) == claim(c2, "hfs"@));
        assert(claim(c@, "ouid"@) == claim(c3, "ouid"@));
        assert(claim(c@, "ipa"@) == claim(c4, "ipa"@));
        assert(claim_keys(c@) =~= claim_keys(c0) + key_if(self@.data_scope_unit_ids is Some, "dsu"@)
                + key_if(self@.hidden_fields.len() > 0, "hfs"@) + key_if(self@.org_unit_id is Some, "ouid"@)
                + key_if(self@.is_platform_admin is Some, "ipa"@) + key_if(self@.is_tenant_admin is Some, "ita"@));
    }

    /// The access-claim bag issued at `iat` — the claim names verbatim,
    /// `tid` always present (0 = platform), optional claims when set.
    #[verifier::rlimit(60)]
    pub fn access_claims_at(&self, iat: i64, exp_unix: i64) -> (r: Vec<(String, JsonValue)>)
        ensures
            access_claims_are(r@, self@, iat, exp_unix),
    {
        proof {
            lemma_claim_names_distinct();
        }
        let mut c: Vec<(String, JsonValue)> = Vec::new();
        assert(claim_keys(c@) =~= Seq::<Seq<char>>::empty());
        assert(forall|q: Seq<char>| #[trigger] claim(c@, q) is None);
        push_claim(&mut c, "sub", JsonValue::String(self.username.clone()));
        let ghost c1 = c@;
        push_claim(&mut c, "uid", JsonValue::Number(JsonNumber::PosInt(self.user_id as u64)));
        let ghost c2 = c@;
        push_claim(&mut c, "tid", JsonValue::Number(JsonNumber::PosInt(self.tenant_id as u64)));
        let ghost c3 = c@;
        push_claim(&mut c, "iat", json_of_i64(iat));
        let ghost c4 = c@;
        push_claim(&mut c, "exp", json_of_i64(exp_unix));
        let ghost c5 = c@;
        push_claim(&mut c, "jti", JsonValue::String(self.jti.clone()));
        let ghost c6 = c@;
        assert(claim_keys(c6) =~= seq!["sub"@, "uid"@, "tid"@, "iat"@, "exp"@, "jti"@]);
        assert(claim(c6, "sub"@) == claim(c1, "sub"@));
        assert(claim(c6, "uid"@) == claim(c2, "uid"@));
        assert(claim(c6, "tid"@) == claim(c3, "tid"@));
        assert(claim(c6, "iat"@) == claim(c4, "iat"@));
        assert(claim(c6, "exp"@) == claim(c5, "exp"@));
        self.push_optional_strs(&mut c);
        let ghost c7 = c@;
        self.push_optional_rest(&mut c);
        assert(claim(c@, "roc"@) == claim(c7, "roc"@));
        assert(claim(c@, "did"@) == claim(c7, "did"@));
        assert(claim(c@, "cid"@) == claim(c7, "cid"@));
        assert(claim(c@, "ds"@) == claim(c7, "ds"@));
        assert(claim(c@, "dss"@) == claim(c7, "dss"@));
        assert(claim_keys(c@) =~= access_claim_keys(self@));
        c
    }

    /// The access-claim bag issued now, expiring at `exp_unix`:
    /// `access_claims_at` the clock's `now_unix` reading, `None` when that
    /// reading has no whole second in `i64`.
    pub fn to_access_claims(&self, exp_unix: i64) -> (r: Option<Vec<(String, JsonValue)>>)
        ensures
            match r {
                Some(c) => exists|iat: i64| #[trigger] access_claims_are(c@, self@, iat, exp_unix),
                None => true,
            },
    {
        match now_unix() {
            Some(now) => {
                let c = self.access_claims_at(now, exp_unix);
                let r = Some(c);
                assert(access_claims_are(r->0@, self@, now, exp_unix));
                r
            },
            None => None,
        }
    }

    /// The refresh-claim bag issued at `iat`: `uid`, `jti`, `iat`, `exp`.
    pub fn refresh_claims_at(&self, iat: i64, exp_unix: i64) -> (r: Vec<(String, JsonValue)>)
        ensures
            refresh_claims_are(r@, self@, iat, exp_unix),
    {
        proof {
            lemma_claim_names_distinct();
        }
        let mut c: Vec<(String, JsonValue)> = Vec::new();
        assert(claim_keys(c@) =~= Seq::<Seq<char>>::empty());
        assert(forall|q: Seq<char>| #[trigger] claim(c@, q) is None);
        push_claim(&mut c, "uid", JsonValue::Number(JsonNumber::PosInt(self.user_id as u64)));
        push_claim(&mut c, "jti", JsonValue::String(self.jti.clone()));
        push_claim(&mut c, "iat", json_of_i64(iat));
        push_claim(&mut c, "exp", json_of_i64(exp_unix));
        assert(claim_keys(c@) =~= seq!["uid"@, "jti"@, "iat"@, "exp"@]);
        c
    }

    /// The refresh-claim bag issued now, expiring at `exp_unix`:
    /// `refresh_claims_at` the clock's `now_unix` reading, `None` when that
    /// reading has no whole second in `i64`.
    pub fn to_refresh_claims(&self, exp_unix: i64) -> (r: Option<Vec<(String, JsonValue)>>)
        ensures
            match r {
                Some(c) => exists|iat: i64| #[trigger] refresh_claims_are(c@, self@, iat, exp_unix),
                None => true,
            },
    {
        match now_unix() {
            Some(now) => {
                let c = self.refresh_claims_at(now, exp_unix);
                let r = Some(c);
                assert(refresh_claims_are(r->0@, self@, now, exp_unix));
                r
            },
            None => None,
        }
    }
}

/// Reading back an access-claim bag yields the payload it was issued for.
pub proof fn lemma_access_claims_roundtrip(c: Seq<(String, JsonValue)>, p: PayloadView, iat: i64, exp: i64)
    requires
        access_claims_are(c, p, iat, exp),
    ensures
        payload_from_claims(c) == Some(p),
{
    reveal_strlit("true");
    let q = payload_from_claims(c).unwrap();
    assert(claim_u32(c, "uid"@) == Some(p.user_id));
    assert(claim_u32(c, "tid"@) == Some(p.tenant_id));
    assert(claim_u32(c, "ouid"@) == p.org_unit_id);
    assert(claim_strs(c, "roc"@) =~= p.roles);
    assert(claim_strs(c, "dss"@) =~= p.data_scopes);
    assert(claim_strs(c, "hfs"@) =~= p.hidden_fields);
    assert(q == p);
}

} // verus!
