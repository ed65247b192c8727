//! The menu status, type and module codes of the wire and their stored names.

use vstd::prelude::*;
use crate::text::{chars_of, str_eq, string_of};

verus! {

/// The on/off status code: `OFF` is 0, anything else 1.
pub open spec fn switch_code(s: Seq<char>) -> i32 {
    if s == "OFF"@ {
        0i32
    } else {
        1i32
    }
}

/// The on/off status code: `OFF` is 0, anything else 1.
pub fn status_to_proto(s: &str) -> (r: i32)
    ensures
        r == switch_code(s@),
{
    if str_eq(s, "OFF") {
        0
    } else {
        1
    }
}

/// The menu type code: `MENU` (and anything unknown) is 1.
pub open spec fn menu_type_code(s: Seq<char>) -> i32 {
    if s == "CATALOG"@ {
        0i32
    } else if s == "BUTTON"@ {
        2i32
    } else if s == "EMBEDDED"@ {
        3i32
    } else if s == "LINK"@ {
        4i32
    } else {
        1i32
    }
}

/// The menu type code: `MENU` (and anything unknown) is 1.
pub fn type_to_proto(s: &str) -> (r: i32)
    ensures
        r == menu_type_code(s@),
{
    if str_eq(s, "CATALOG") {
        0
    } else if str_eq(s, "BUTTON") {
        2
    } else if str_eq(s, "EMBEDDED") {
        3
    } else if str_eq(s, "LINK") {
        4
    } else {
        1
    }
}

/// The menu type name of a code: `MENU` for 1 and unknown codes.
pub open spec fn menu_type_name(v: i32) -> Seq<char> {
    if v == 0 {
        "CATALOG"@
    } else if v == 2 {
        "BUTTON"@
    } else if v == 3 {
        "EMBEDDED"@
    } else if v == 4 {
        "LINK"@
    } else {
        "MENU"@
    }
}

/// The menu type name of a code: `MENU` for 1 and unknown codes.
pub fn type_to_str(v: i32) -> (r: String)
    ensures
        r@ == menu_type_name(v),
{
    let t = if v == 0 {
        "CATALOG"
    } else if v == 2 {
        "BUTTON"
    } else if v == 3 {
        "EMBEDDED"
    } else if v == 4 {
        "LINK"
    } else {
        "MENU"
    };
    string_of(chars_of(t).as_slice())
}

/// Every menu type code survives the trip through its name.
pub proof fn lemma_menu_type_roundtrip_codes(v: i32)
    requires
        v == 1 || v == 0 || v == 2 || v == 3 || v == 4,
    ensures
        menu_type_code(menu_type_name(v)) == v,
{
    reveal_strlit("MENU");
    assert("MENU"@.len() == 4 && "MENU"@[0] == 'M');
    reveal_strlit("CATALOG");
    assert("CATALOG"@.len() == 7 && "CATALOG"@[0] == 'C');
    reveal_strlit("BUTTON");
    assert("BUTTON"@.len() == 6 && "BUTTON"@[0] == 'B');
    reveal_strlit("EMBEDDED");
    assert("EMBEDDED"@.len() == 8 && "EMBEDDED"@[0] == 'E');
    reveal_strlit("LINK");
    assert("LINK"@.len() == 4 && "LINK"@[0] == 'L');
}

/// Every menu type name survives the trip through its code.
pub proof fn lemma_menu_type_roundtrip_names(s: Seq<char>)
    requires
        s == "MENU"@ || s == "CATALOG"@ || s == "BUTTON"@ || s == "EMBEDDED"@ || s == "LINK"@,
    ensures
        menu_type_name(menu_type_code(s)) == s,
{
    reveal_strlit("MENU");
    assert("MENU"@.len() == 4 && "MENU"@[0] == 'M');
    reveal_strlit("CATALOG");
    assert("CATALOG"@.len() == 7 && "CATALOG"@[0] == 'C');
    reveal_strlit("BUTTON");
    assert("BUTTON"@.len() == 6 && "BUTTON"@[0] == 'B');
    reveal_strlit("EMBEDDED");
    assert("EMBEDDED"@.len() == 8 && "EMBEDDED"@[0] == 'E');
    reveal_strlit("LINK");
    assert("LINK"@.len() == 4 && "LINK"@[0] == 'L');
}

/// The business module code; unknown modules are 0.
pub open spec fn module_code(s: Seq<char>) -> i32 {
    if s == "OPM"@ {
        2i32
    } else if s == "SYSTEM"@ {
        3i32
    } else if s == "DICT"@ {
        4i32
    } else if s == "TENANT"@ {
        5i32
    } else if s == "PERMISSION"@ {
        6i32
    } else if s == "LOG"@ {
        7i32
    } else if s == "INTERNAL_MESSAGE"@ {
        8i32
    } else if s == "FILE"@ {
        9i32
    } else if s == "TASK"@ {
        10i32
    } else if s == "DASHBOARD"@ {
        1i32
    } else {
        0i32
    }
}

/// The business module code; unknown modules are 0.
pub fn module_to_proto(s: &str) -> (r: i32)
    ensures
        r == module_code(s@),
{
    if str_eq(s, "OPM") {
        2
    } else if str_eq(s, "SYSTEM") {
        3
    } else if str_eq(s, "DICT") {
        4
    } else if str_eq(s, "TENANT") {
        5
    } else if str_eq(s, "PERMISSION") {
        6
    } else if str_eq(s, "LOG") {
        7
    } else if str_eq(s, "INTERNAL_MESSAGE") {
        8
    } else if str_eq(s, "FILE") {
        9
    } else if str_eq(s, "TASK") {
        10
    } else if str_eq(s, "DASHBOARD") {
        1
    } else {
        0
    }
}

/// The business module name of a code; unknown codes name `SYSTEM`.
pub open spec fn module_name(v: i32) -> Seq<char> {
    if v == 1 {
        "DASHBOARD"@
    } else if v == 2 {
        "OPM"@
    } else if v == 3 {
        "SYSTEM"@
    } else if v == 4 {
        "DICT"@
    } else if v == 5 {
        "TENANT"@
    } else if v == 6 {
        "PERMISSION"@
    } else if v == 7 {
        "LOG"@
    } else if v == 8 {
        "INTERNAL_MESSAGE"@
    } else if v == 9 {
        "FILE"@
    } else if v == 10 {
        "TASK"@
    } else {
        "SYSTEM"@
    }
}

/// The business module name of a code; unknown codes name `SYSTEM`.
pub fn module_to_str(v: i32) -> (r: String)
    ensures
        r@ == module_name(v),
{
    let t = if v == 1 {
        "DASHBOARD"
    } else if v == 2 {
        "OPM"
    } else if v == 3 {
        "SYSTEM"
    } else if v == 4 {
        "DICT"
    } else if v == 5 {
        "TENANT"
    } else if v == 6 {
        "PERMISSION"
    } else if v == 7 {
        "LOG"
    } else if v == 8 {
        "INTERNAL_MESSAGE"
    } else if v == 9 {
        "FILE"
    } else if v == 10 {
        "TASK"
    } else {
        "SYSTEM"
    };
    string_of(chars_of(t).as_slice())
}

/// Every business module code from 1 to 10 survives the trip through its name.
pub proof fn lemma_module_roundtrip_codes(v: i32)
    requires
        v == 1 || v == 2 || v == 3 || v == 4 || v == 5 || v == 6 || v == 7 || v == 8 || v == 9 || v == 10,
    ensures
        module_code(module_name(v)) == v,
{
    reveal_strlit("DASHBOARD");
    assert("DASHBOARD"@.len() == 9 && "DASHBOARD"@[0] == 'D');
    reveal_strlit("OPM");
    assert("OPM"@.len() == 3 && "OPM"@[0] == 'O');
    reveal_strlit("SYSTEM");
    assert("SYSTEM"@.len() == 6 && "SYSTEM"@[0] == 'S');
    reveal_strlit("DICT");
    assert("DICT"@.len() == 4 && "DICT"@[0] == 'D');
    reveal_strlit("TENANT");
    assert("TENANT"@.len() == 6 && "TENANT"@[0] == 'T');
    reveal_strlit("PERMISSION");
    assert("PERMISSION"@.len() == 10 && "PERMISSION"@[0] == 'P');
    reveal_strlit("LOG");
    assert("LOG"@.len() == 3 && "LOG"@[0] == 'L');
    reveal_strlit("INTERNAL_MESSAGE");
    assert("INTERNAL_MESSAGE"@.len() == 16 && "INTERNAL_MESSAGE"@[0] == 'I');
    reveal_strlit("FILE");
    assert("FILE"@.len() == 4 && "FILE"@[0] == 'F');
    reveal_strlit("TASK");
    assert("TASK"@.len() == 4 && "TASK"@[0] == 'T');
}

/// Every business module name survives the trip through its code.
pub proof fn lemma_module_roundtrip_names(s: Seq<char>)
    requires
        s == "DASHBOARD"@ || s == "OPM"@ || s == "SYSTEM"@ || s == "DICT"@ || s == "TENANT"@ || s == "PERMISSION"@ || s == "LOG"@ || s == "INTERNAL_MESSAGE"@ || s == "FILE"@ || s == "TASK"@,
    ensures
        module_name(module_code(s)) == s,
{
    reveal_strlit("DASHBOARD");
    assert("DASHBOARD"@.len() == 9 && "DASHBOARD"@[0] == 'D');
    reveal_strlit("OPM");
    assert("OPM"@.len() == 3 && "OPM"@[0] == 'O');
    reveal_strlit("SYSTEM");
    assert("SYSTEM"@.len() == 6 && "SYSTEM"@[0] == 'S');
    reveal_strlit("DICT");
    assert("DICT"@.len() == 4 && "DICT"@[0] == 'D');
    reveal_strlit("TENANT");
    assert("TENANT"@.len() == 6 && "TENANT"@[0] == 'T');
    reveal_strlit("PERMISSION");
    assert("PERMISSION"@.len() == 10 && "PERMISSION"@[0] == 'P');
    reveal_strlit("LOG");
    assert("LOG"@.len() == 3 && "LOG"@[0] == 'L');
    reveal_strlit("INTERNAL_MESSAGE");
    assert("INTERNAL_MESSAGE"@.len() == 16 && "INTERNAL_MESSAGE"@[0] == 'I');
    reveal_strlit("FILE");
    assert("FILE"@.len() == 4 && "FILE"@[0] == 'F');
    reveal_strlit("TASK");
    assert("TASK"@.len() == 4 && "TASK"@[0] == 'T');
}

/// The on/off status name of a code: `OFF` for 0, `ON` otherwise.
pub open spec fn switch_name(v: i32) -> Seq<char> {
    if v == 0 {
        "OFF"@
    } else {
        "ON"@
    }
}

/// The on/off status name of a code: `OFF` for 0, `ON` otherwise.
pub fn switch_to_str(v: i32) -> (r: String)
    ensures
        r@ == switch_name(v),
{
    let t = if v == 0 {
        "OFF"
    } else {
        "ON"
    };
    string_of(chars_of(t).as_slice())
}

} // verus!
