//! The tenant status, type and audit codes of the wire and their stored names.

use vstd::prelude::*;
use crate::text::{chars_of, str_eq, string_of};

verus! {

/// The tenant status code: `ON` (and anything unknown) is 0.
pub open spec fn tenant_status_code(s: Seq<char>) -> i32 {
    if s == "OFF"@ {
        1i32
    } else if s == "EXPIRED"@ {
        2i32
    } else if s == "FREEZE"@ {
        3i32
    } else {
        0i32
    }
}

/// The tenant status code: `ON` (and anything unknown) is 0.
pub fn status_to_proto(s: &str) -> (r: i32)
    ensures
        r == tenant_status_code(s@),
{
    if str_eq(s, "OFF") {
        1
    } else if str_eq(s, "EXPIRED") {
        2
    } else if str_eq(s, "FREEZE") {
        3
    } else {
        0
    }
}

/// The tenant status name of a code: `ON` for 0 and unknown codes.
pub open spec fn tenant_status_name(v: i32) -> Seq<char> {
    if v == 1 {
        "OFF"@
    } else if v == 2 {
        "EXPIRED"@
    } else if v == 3 {
        "FREEZE"@
    } else {
        "ON"@
    }
}

/// The tenant status name of a code: `ON` for 0 and unknown codes.
pub fn status_to_str(v: i32) -> (r: String)
    ensures
        r@ == tenant_status_name(v),
{
    let t = if v == 1 {
        "OFF"
    } else if v == 2 {
        "EXPIRED"
    } else if v == 3 {
        "FREEZE"
    } else {
        "ON"
    };
    string_of(chars_of(t).as_slice())
}

/// Every tenant status code survives the trip through its name.
pub proof fn lemma_tenant_status_roundtrip_codes(v: i32)
    requires
        v == 0 || v == 1 || v == 2 || v == 3,
    ensures
        tenant_status_code(tenant_status_name(v)) == v,
{
    reveal_strlit("ON");
    assert("ON"@.len() == 2 && "ON"@[0] == 'O');
    reveal_strlit("OFF");
    assert("OFF"@.len() == 3 && "OFF"@[0] == 'O');
    reveal_strlit("EXPIRED");
    assert("EXPIRED"@.len() == 7 && "EXPIRED"@[0] == 'E');
    reveal_strlit("FREEZE");
    assert("FREEZE"@.len() == 6 && "FREEZE"@[0] == 'F');
}

/// Every tenant status name survives the trip through its code.
pub proof fn lemma_tenant_status_roundtrip_names(s: Seq<char>)
    requires
        s == "ON"@ || s == "OFF"@ || s == "EXPIRED"@ || s == "FREEZE"@,
    ensures
        tenant_status_name(tenant_status_code(s)) == s,
{
    reveal_strlit("ON");
    assert("ON"@.len() == 2 && "ON"@[0] == 'O');
    reveal_strlit("OFF");
    assert("OFF"@.len() == 3 && "OFF"@[0] == 'O');
    reveal_strlit("EXPIRED");
    assert("EXPIRED"@.len() == 7 && "EXPIRED"@[0] == 'E');
    reveal_strlit("FREEZE");
    assert("FREEZE"@.len() == 6 && "FREEZE"@[0] == 'F');
}

/// The tenant type code: `PAID` (and anything unknown) is 1.
pub open spec fn tenant_type_code(s: Seq<char>) -> i32 {
    if s == "TRIAL"@ {
        0i32
    } else if s == "INTERNAL"@ {
        2i32
    } else if s == "PARTNER"@ {
        3i32
    } else if s == "CUSTOM"@ {
        4i32
    } else {
        1i32
    }
}

/// The tenant type code: `PAID` (and anything unknown) is 1.
pub fn type_to_proto(s: &str) -> (r: i32)
    ensures
        r == tenant_type_code(s@),
{
    if str_eq(s, "TRIAL") {
        0
    } else if str_eq(s, "INTERNAL") {
        2
    } else if str_eq(s, "PARTNER") {
        3
    } else if str_eq(s, "CUSTOM") {
        4
    } else {
        1
    }
}

/// The tenant type name of a code: `PAID` for 1 and unknown codes.
pub open spec fn tenant_type_name(v: i32) -> Seq<char> {
    if v == 0 {
        "TRIAL"@
    } else if v == 2 {
        "INTERNAL"@
    } else if v == 3 {
        "PARTNER"@
    } else if v == 4 {
        "CUSTOM"@
    } else {
        "PAID"@
    }
}

/// The tenant type name of a code: `PAID` for 1 and unknown codes.
pub fn type_to_str(v: i32) -> (r: String)
    ensures
        r@ == tenant_type_name(v),
{
    let t = if v == 0 {
        "TRIAL"
    } else if v == 2 {
        "INTERNAL"
    } else if v == 3 {
        "PARTNER"
    } else if v == 4 {
        "CUSTOM"
    } else {
        "PAID"
    };
    string_of(chars_of(t).as_slice())
}

/// Every tenant type code survives the trip through its name.
pub proof fn lemma_tenant_type_roundtrip_codes(v: i32)
    requires
        v == 1 || v == 0 || v == 2 || v == 3 || v == 4,
    ensures
        tenant_type_code(tenant_type_name(v)) == v,
{
    reveal_strlit("PAID");
    assert("PAID"@.len() == 4 && "PAID"@[0] == 'P');
    reveal_strlit("TRIAL");
    assert("TRIAL"@.len() == 5 && "TRIAL"@[0] == 'T');
    reveal_strlit("INTERNAL");
    assert("INTERNAL"@.len() == 8 && "INTERNAL"@[0] == 'I');
    reveal_strlit("PARTNER");
    assert("PARTNER"@.len() == 7 && "PARTNER"@[0] == 'P');
    reveal_strlit("CUSTOM");
    assert("CUSTOM"@.len() == 6 && "CUSTOM"@[0] == 'C');
}

/// Every tenant type name survives the trip through its code.
pub proof fn lemma_tenant_type_roundtrip_names(s: Seq<char>)
    requires
        s == "PAID"@ || s == "TRIAL"@ || s == "INTERNAL"@ || s == "PARTNER"@ || s == "CUSTOM"@,
    ensures
        tenant_type_name(tenant_type_code(s)) == s,
{
    reveal_strlit("PAID");
    assert("PAID"@.len() == 4 && "PAID"@[0] == 'P');
    reveal_strlit("TRIAL");
    assert("TRIAL"@.len() == 5 && "TRIAL"@[0] == 'T');
    reveal_strlit("INTERNAL");
    assert("INTERNAL"@.len() == 8 && "INTERNAL"@[0] == 'I');
    reveal_strlit("PARTNER");
    assert("PARTNER"@.len() == 7 && "PARTNER"@[0] == 'P');
    reveal_strlit("CUSTOM");
    assert("CUSTOM"@.len() == 6 && "CUSTOM"@[0] == 'C');
}

/// The tenant audit status code: `PENDING` (and anything unknown) is 0.
pub open spec fn tenant_audit_code(s: Seq<char>) -> i32 {
    if s == "APPROVED"@ {
        1i32
    } else if s == "REJECTED"@ {
        2i32
    } else {
        0i32
    }
}

/// The tenant audit status code: `PENDING` (and anything unknown) is 0.
pub fn audit_status_to_proto(s: &str) -> (r: i32)
    ensures
        r == tenant_audit_code(s@),
{
    if str_eq(s, "APPROVED") {
        1
    } else if str_eq(s, "REJECTED") {
        2
    } else {
        0
    }
}

} // verus!
