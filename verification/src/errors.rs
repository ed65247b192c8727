//! The service error envelope: a reason literal of the admin error table
//! (empty for the unknown branch) and a message.

use vstd::prelude::*;

verus! {

/// A service error: its reason and its message.
pub struct StatusError {
    pub reason: String,
    pub message: String,
}

/// An error with a reason of the error table.
pub fn status_error(reason: &str, message: &str) -> (r: StatusError)
    ensures
        r.reason@ == reason@,
        r.message@ == message@,
{
    StatusError { reason: reason.to_owned(), message: message.to_owned() }
}

/// The unknown branch: an empty reason.
pub fn internal_error(message: &str) -> (r: StatusError)
    ensures
        r.reason@ == Seq::<char>::empty(),
        r.message@ == message@,
{
    StatusError { reason: String::new(), message: message.to_owned() }
}

/// The missing-identity error.
pub fn operator_missing() -> (r: StatusError)
    ensures
        r.reason@ == "UNAUTHORIZED"@,
        r.message@ == "missing identity"@,
{
    status_error("UNAUTHORIZED", "missing identity")
}

/// The error of a missing record: `{what} not found`.
pub fn not_found(what: &str) -> (r: StatusError)
    ensures
        r.reason@ == "NOT_FOUND"@,
        r.message@ == what@ + " not found"@,
{
    let mut m = crate::text::chars_of(what);
    crate::text::push_str(&mut m, " not found");
    StatusError { reason: "NOT_FOUND".to_owned(), message: crate::text::string_of(m.as_slice()) }
}

/// The payload a create-style request requires.
pub fn require_data<T>(data: Option<T>) -> (r: Result<T, StatusError>)
    ensures
        data is Some ==> r == Ok::<T, StatusError>(data->0),
        data is None ==> (r matches Err(e) && e.reason@ == "BAD_REQUEST"@ && e.message@
            == "data required"@),
{
    match data {
        Some(d) => Ok(d),
        None => Err(status_error("BAD_REQUEST", "data required")),
    }
}

} // verus!
