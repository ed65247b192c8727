//! The script language codes of the wire and their stored names.

use vstd::prelude::*;
use crate::text::{chars_of, str_eq, string_of};

verus! {

/// The script language code: `LUA` (and anything unknown) is 0.
pub open spec fn language_code(s: Seq<char>) -> i32 {
    if s == "JAVASCRIPT"@ {
        1i32
    } else {
        0i32
    }
}

/// The script language code: `LUA` (and anything unknown) is 0.
pub fn language_to_proto(s: &str) -> (r: i32)
    ensures
        r == language_code(s@),
{
    if str_eq(s, "JAVASCRIPT") {
        1
    } else {
        0
    }
}

/// The script language name of a code: `LUA` for 0 and unknown codes.
pub open spec fn language_name(v: i32) -> Seq<char> {
    if v == 1 {
        "JAVASCRIPT"@
    } else {
        "LUA"@
    }
}

/// The script language name of a code: `LUA` for 0 and unknown codes.
pub fn language_to_str(v: i32) -> (r: String)
    ensures
        r@ == language_name(v),
{
    let t = if v == 1 {
        "JAVASCRIPT"
    } else {
        "LUA"
    };
    string_of(chars_of(t).as_slice())
}

/// Every script language code survives the trip through its name.
pub proof fn lemma_language_roundtrip_codes(v: i32)
    requires
        v == 0 || v == 1,
    ensures
        language_code(language_name(v)) == v,
{
    reveal_strlit("LUA");
    assert("LUA"@.len() == 3 && "LUA"@[0] == 'L');
    reveal_strlit("JAVASCRIPT");
    assert("JAVASCRIPT"@.len() == 10 && "JAVASCRIPT"@[0] == 'J');
}

/// Every script language name survives the trip through its code.
pub proof fn lemma_language_roundtrip_names(s: Seq<char>)
    requires
        s == "LUA"@ || s == "JAVASCRIPT"@,
    ensures
        language_name(language_code(s)) == s,
{
    reveal_strlit("LUA");
    assert("LUA"@.len() == 3 && "LUA"@[0] == 'L');
    reveal_strlit("JAVASCRIPT");
    assert("JAVASCRIPT"@.len() == 10 && "JAVASCRIPT"@[0] == 'J');
}

} // verus!
