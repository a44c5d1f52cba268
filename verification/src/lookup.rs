//! The answer of a lookup by id or at random: the row with 200, or 404 without one.

use vstd::prelude::*;

verus! {

/// The HTTP status of a lookup that found its row.
pub const STATUS_OK: u16 = 200;

/// The HTTP status of a lookup that found nothing.
pub const STATUS_NOT_FOUND: u16 = 404;

/// The status and body that answer a lookup: `200` with the row where one was
/// found, `404` with no body where none was.
pub fn lookup_response<T>(found: Option<T>) -> (res: (u16, Option<T>))
    ensures
        res.1 == found,
        res.0 == (if found is Some {
            STATUS_OK
        } else {
            STATUS_NOT_FOUND
        }),
{
    match found {
        Some(row) => (STATUS_OK, Some(row)),
        None => (STATUS_NOT_FOUND, None),
    }
}

} // verus!
