//! Decisions taken while downloading a source archive.

use vstd::prelude::*;

verus! {

/// The only response code that counts as success.
pub const HTTP_OK: u32 = 200;

/// Least time between two progress lines, in milliseconds.
pub const PROGRESS_INTERVAL_MS: u128 = 1000;

/// `Ok` for a successful response, else the code that came back.
pub fn check_response(code: u32) -> (r: Result<(), u32>)
    ensures
        code == HTTP_OK <==> r is Ok,
        code != HTTP_OK ==> r == Err::<(), u32>(code),
{
    if code == HTTP_OK {
        Ok(())
    } else {
        Err(code)
    }
}

/// Whether a progress line is due: the total size is known and the last line
/// is at least a second old.
pub fn progress_due(total_known: bool, elapsed_ms: u128) -> (r: bool)
    ensures
        r == (total_known && elapsed_ms >= PROGRESS_INTERVAL_MS),
{
    total_known && elapsed_ms >= PROGRESS_INTERVAL_MS
}

} // verus!
