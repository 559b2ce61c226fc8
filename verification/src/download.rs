//! What a download needs to know beside the bytes it moves.

use vstd::prelude::*;
use vstd::string::*;
use crate::error::{ToolError, ToolErrorView};

verus! {

/// Whether an HTTP status reports success: the codes from 200 to 299.
pub open spec fn spec_is_success(status: u16) -> bool {
    200 <= status <= 299
}

/// Whether an HTTP status reports success.
pub fn is_success(status: u16) -> (r: bool)
    ensures
        r == spec_is_success(status),
{
    200 <= status && status <= 299
}

/// Accepts the answer to the request for `url` if its status reports
/// success, and refuses it with the status and the address otherwise.
pub fn check_status(status: u16, url: &str) -> (r: Result<(), ToolError>)
    ensures
        match r {
            Ok(_) => spec_is_success(status),
            Err(e) => !spec_is_success(status) && e@ == (ToolErrorView::NetworkFailure {
                status,
                url: url@,
            }),
        },
{
    if is_success(status) {
        Ok(())
    } else {
        Err(ToolError::NetworkFailure { status, url: String::from_str(url) })
    }
}

} // verus!
