//! The internal-message status and type codes of the wire and their stored names.

use vstd::prelude::*;
use crate::text::{chars_of, str_eq, string_of};

verus! {

/// The message status code: `DRAFT` (and anything unknown) is 0.
pub open spec fn message_status_code(s: Seq<char>) -> i32 {
    if s == "PUBLISHED"@ {
        1i32
    } else if s == "SCHEDULED"@ {
        2i32
    } else if s == "REVOKED"@ {
        3i32
    } else if s == "ARCHIVED"@ {
        4i32
    } else if s == "DELETED"@ {
        5i32
    } else {
        0i32
    }
}

/// The message status code: `DRAFT` (and anything unknown) is 0.
pub fn message_status_to_proto(s: &str) -> (r: i32)
    ensures
        r == message_status_code(s@),
{
    if str_eq(s, "PUBLISHED") {
        1
    } else if str_eq(s, "SCHEDULED") {
        2
    } else if str_eq(s, "REVOKED") {
        3
    } else if str_eq(s, "ARCHIVED") {
        4
    } else if str_eq(s, "DELETED") {
        5
    } else {
        0
    }
}

/// The recipient status code: `RECEIVED` (and anything unknown) is 1.
pub open spec fn recipient_status_code(s: Seq<char>) -> i32 {
    if s == "READ"@ {
        2i32
    } else if s == "REVOKED"@ {
        3i32
    } else if s == "DELETED"@ {
        4i32
    } else {
        1i32
    }
}

/// The recipient status code: `RECEIVED` (and anything unknown) is 1.
pub fn recipient_status_to_proto(s: &str) -> (r: i32)
    ensures
        r == recipient_status_code(s@),
{
    if str_eq(s, "READ") {
        2
    } else if str_eq(s, "REVOKED") {
        3
    } else if str_eq(s, "DELETED") {
        4
    } else {
        1
    }
}

/// The message type code: `NOTIFICATION` (and anything unknown) is 0.
pub open spec fn message_type_code(s: Seq<char>) -> i32 {
    if s == "PRIVATE"@ {
        1i32
    } else if s == "GROUP"@ {
        2i32
    } else {
        0i32
    }
}

/// The message type code: `NOTIFICATION` (and anything unknown) is 0.
pub fn message_type_to_proto(s: &str) -> (r: i32)
    ensures
        r == message_type_code(s@),
{
    if str_eq(s, "PRIVATE") {
        1
    } else if str_eq(s, "GROUP") {
        2
    } else {
        0
    }
}

/// The message type name of a code: `NOTIFICATION` for 0 and unknown codes.
pub open spec fn message_type_name(v: i32) -> Seq<char> {
    if v == 1 {
        "PRIVATE"@
    } else if v == 2 {
        "GROUP"@
    } else {
        "NOTIFICATION"@
    }
}

/// The message type name of a code: `NOTIFICATION` for 0 and unknown codes.
pub fn message_type_to_str(v: i32) -> (r: String)
    ensures
        r@ == message_type_name(v),
{
    let t = if v == 1 {
        "PRIVATE"
    } else if v == 2 {
        "GROUP"
    } else {
        "NOTIFICATION"
    };
    string_of(chars_of(t).as_slice())
}

/// Every message type code survives the trip through its name.
pub proof fn lemma_message_type_roundtrip_codes(v: i32)
    requires
        v == 0 || v == 1 || v == 2,
    ensures
        message_type_code(message_type_name(v)) == v,
{
    reveal_strlit("NOTIFICATION");
    assert("NOTIFICATION"@.len() == 12 && "NOTIFICATION"@[0] == 'N');
    reveal_strlit("PRIVATE");
    assert("PRIVATE"@.len() == 7 && "PRIVATE"@[0] == 'P');
    reveal_strlit("GROUP");
    assert("GROUP"@.len() == 5 && "GROUP"@[0] == 'G');
}

/// Every message type name survives the trip through its code.
pub proof fn lemma_message_type_roundtrip_names(s: Seq<char>)
    requires
        s == "NOTIFICATION"@ || s == "PRIVATE"@ || s == "GROUP"@,
    ensures
        message_type_name(message_type_code(s)) == s,
{
    reveal_strlit("NOTIFICATION");
    assert("NOTIFICATION"@.len() == 12 && "NOTIFICATION"@[0] == 'N');
    reveal_strlit("PRIVATE");
    assert("PRIVATE"@.len() == 7 && "PRIVATE"@[0] == 'P');
    reveal_strlit("GROUP");
    assert("GROUP"@.len() == 5 && "GROUP"@[0] == 'G');
}

} // verus!
