//! The position type codes of the wire and their stored names.

use vstd::prelude::*;
use crate::text::{chars_of, str_eq, string_of};

verus! {

/// The position type code: `REGULAR` (and anything unknown) is 0.
pub open spec fn position_type_code(s: Seq<char>) -> i32 {
    if s == "MANAGER"@ {
        1i32
    } else if s == "LEAD"@ {
        2i32
    } else if s == "INTERN"@ {
        3i32
    } else if s == "CONTRACT"@ {
        4i32
    } else if s == "OTHER"@ {
        5i32
    } else {
        0i32
    }
}

/// The position type code: `REGULAR` (and anything unknown) is 0.
pub fn position_type_to_proto(s: &str) -> (r: i32)
    ensures
        r == position_type_code(s@),
{
    if str_eq(s, "MANAGER") {
        1
    } else if str_eq(s, "LEAD") {
        2
    } else if str_eq(s, "INTERN") {
        3
    } else if str_eq(s, "CONTRACT") {
        4
    } else if str_eq(s, "OTHER") {
        5
    } else {
        0
    }
}

/// The position type name of a code: `REGULAR` for 0 and unknown codes.
pub open spec fn position_type_name(v: i32) -> Seq<char> {
    if v == 1 {
        "MANAGER"@
    } else if v == 2 {
        "LEAD"@
    } else if v == 3 {
        "INTERN"@
    } else if v == 4 {
        "CONTRACT"@
    } else if v == 5 {
        "OTHER"@
    } else {
        "REGULAR"@
    }
}

/// The position type name of a code: `REGULAR` for 0 and unknown codes.
pub fn position_type_to_str(v: i32) -> (r: String)
    ensures
        r@ == position_type_name(v),
{
    let t = if v == 1 {
        "MANAGER"
    } else if v == 2 {
        "LEAD"
    } else if v == 3 {
        "INTERN"
    } else if v == 4 {
        "CONTRACT"
    } else if v == 5 {
        "OTHER"
    } else {
        "REGULAR"
    };
    string_of(chars_of(t).as_slice())
}

/// Every position type code survives the trip through its name.
pub proof fn lemma_position_type_roundtrip_codes(v: i32)
    requires
        v == 0 || v == 1 || v == 2 || v == 3 || v == 4 || v == 5,
    ensures
        position_type_code(position_type_name(v)) == v,
{
    reveal_strlit("REGULAR");
    assert("REGULAR"@.len() == 7 && "REGULAR"@[0] == 'R');
    reveal_strlit("MANAGER");
    assert("MANAGER"@.len() == 7 && "MANAGER"@[0] == 'M');
    reveal_strlit("LEAD");
    assert("LEAD"@.len() == 4 && "LEAD"@[0] == 'L');
    reveal_strlit("INTERN");
    assert("INTERN"@.len() == 6 && "INTERN"@[0] == 'I');
    reveal_strlit("CONTRACT");
    assert("CONTRACT"@.len() == 8 && "CONTRACT"@[0] == 'C');
    reveal_strlit("OTHER");
    assert("OTHER"@.len() == 5 && "OTHER"@[0] == 'O');
}

/// Every position type name survives the trip through its code.
pub proof fn lemma_position_type_roundtrip_names(s: Seq<char>)
    requires
        s == "REGULAR"@ || s == "MANAGER"@ || s == "LEAD"@ || s == "INTERN"@ || s == "CONTRACT"@ || s == "OTHER"@,
    ensures
        position_type_name(position_type_code(s)) == s,
{
    reveal_strlit("REGULAR");
    assert("REGULAR"@.len() == 7 && "REGULAR"@[0] == 'R');
    reveal_strlit("MANAGER");
    assert("MANAGER"@.len() == 7 && "MANAGER"@[0] == 'M');
    reveal_strlit("LEAD");
    assert("LEAD"@.len() == 4 && "LEAD"@[0] == 'L');
    reveal_strlit("INTERN");
    assert("INTERN"@.len() == 6 && "INTERN"@[0] == 'I');
    reveal_strlit("CONTRACT");
    assert("CONTRACT"@.len() == 8 && "CONTRACT"@[0] == 'C');
    reveal_strlit("OTHER");
    assert("OTHER"@.len() == 5 && "OTHER"@[0] == 'O');
}

} // verus!
