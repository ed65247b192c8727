//! The org-unit type codes of the wire and their stored names.

use vstd::prelude::*;
use crate::text::{chars_of, str_eq, string_of};

verus! {

/// The org-unit type code: `DEPARTMENT` (and anything unknown) is 0.
pub open spec fn org_type_code(s: Seq<char>) -> i32 {
    if s == "COMPANY"@ {
        1i32
    } else if s == "DIVISION"@ {
        2i32
    } else if s == "TEAM"@ {
        3i32
    } else if s == "PROJECT"@ {
        4i32
    } else if s == "COMMITTEE"@ {
        5i32
    } else if s == "REGION"@ {
        6i32
    } else if s == "OTHER"@ {
        7i32
    } else {
        0i32
    }
}

/// The org-unit type code: `DEPARTMENT` (and anything unknown) is 0.
pub fn org_type_to_proto(s: &str) -> (r: i32)
    ensures
        r == org_type_code(s@),
{
    if str_eq(s, "COMPANY") {
        1
    } else if str_eq(s, "DIVISION") {
        2
    } else if str_eq(s, "TEAM") {
        3
    } else if str_eq(s, "PROJECT") {
        4
    } else if str_eq(s, "COMMITTEE") {
        5
    } else if str_eq(s, "REGION") {
        6
    } else if str_eq(s, "OTHER") {
        7
    } else {
        0
    }
}

/// The org-unit type name of a code: `DEPARTMENT` for 0 and unknown codes.
pub open spec fn org_type_name(v: i32) -> Seq<char> {
    if v == 1 {
        "COMPANY"@
    } else if v == 2 {
        "DIVISION"@
    } else if v == 3 {
        "TEAM"@
    } else if v == 4 {
        "PROJECT"@
    } else if v == 5 {
        "COMMITTEE"@
    } else if v == 6 {
        "REGION"@
    } else if v == 7 {
        "OTHER"@
    } else {
        "DEPARTMENT"@
    }
}

/// The org-unit type name of a code: `DEPARTMENT` for 0 and unknown codes.
pub fn org_type_to_str(v: i32) -> (r: String)
    ensures
        r@ == org_type_name(v),
{
    let t = if v == 1 {
        "COMPANY"
    } else if v == 2 {
        "DIVISION"
    } else if v == 3 {
        "TEAM"
    } else if v == 4 {
        "PROJECT"
    } else if v == 5 {
        "COMMITTEE"
    } else if v == 6 {
        "REGION"
    } else if v == 7 {
        "OTHER"
    } else {
        "DEPARTMENT"
    };
    string_of(chars_of(t).as_slice())
}

/// Every org-unit type code survives the trip through its name.
pub proof fn lemma_org_type_roundtrip_codes(v: i32)
    requires
        v == 0 || v == 1 || v == 2 || v == 3 || v == 4 || v == 5 || v == 6 || v == 7,
    ensures
        org_type_code(org_type_name(v)) == v,
{
    reveal_strlit("DEPARTMENT");
    assert("DEPARTMENT"@.len() == 10 && "DEPARTMENT"@[0] == 'D');
    reveal_strlit("COMPANY");
    assert("COMPANY"@.len() == 7 && "COMPANY"@[0] == 'C');
    reveal_strlit("DIVISION");
    assert("DIVISION"@.len() == 8 && "DIVISION"@[0] == 'D');
    reveal_strlit("TEAM");
    assert("TEAM"@.len() == 4 && "TEAM"@[0] == 'T');
    reveal_strlit("PROJECT");
    assert("PROJECT"@.len() == 7 && "PROJECT"@[0] == 'P');
    reveal_strlit("COMMITTEE");
    assert("COMMITTEE"@.len() == 9 && "COMMITTEE"@[0] == 'C');
    reveal_strlit("REGION");
    assert("REGION"@.len() == 6 && "REGION"@[0] == 'R');
    reveal_strlit("OTHER");
    assert("OTHER"@.len() == 5 && "OTHER"@[0] == 'O');
}

/// Every org-unit type name survives the trip through its code.
pub proof fn lemma_org_type_roundtrip_names(s: Seq<char>)
    requires
        s == "DEPARTMENT"@ || s == "COMPANY"@ || s == "DIVISION"@ || s == "TEAM"@ || s == "PROJECT"@ || s == "COMMITTEE"@ || s == "REGION"@ || s == "OTHER"@,
    ensures
        org_type_name(org_type_code(s)) == s,
{
    reveal_strlit("DEPARTMENT");
    assert("DEPARTMENT"@.len() == 10 && "DEPARTMENT"@[0] == 'D');
    reveal_strlit("COMPANY");
    assert("COMPANY"@.len() == 7 && "COMPANY"@[0] == 'C');
    reveal_strlit("DIVISION");
    assert("DIVISION"@.len() == 8 && "DIVISION"@[0] == 'D');
    reveal_strlit("TEAM");
    assert("TEAM"@.len() == 4 && "TEAM"@[0] == 'T');
    reveal_strlit("PROJECT");
    assert("PROJECT"@.len() == 7 && "PROJECT"@[0] == 'P');
    reveal_strlit("COMMITTEE");
    assert("COMMITTEE"@.len() == 9 && "COMMITTEE"@[0] == 'C');
    reveal_strlit("REGION");
    assert("REGION"@.len() == 6 && "REGION"@[0] == 'R');
    reveal_strlit("OTHER");
    assert("OTHER"@.len() == 5 && "OTHER"@[0] == 'O');
}

} // verus!
