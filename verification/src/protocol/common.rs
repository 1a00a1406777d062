//! The common functionalities of the protocol.

use crate::protocol::result::{failure_report, Result};
use vstd::prelude::*;

verus! {

/// `handle_result` handles a `Result` in case of error: it hands the
/// result back, and on an error also the line to log as critical.
pub fn handle_result<T>(res: Result<T>, ctx: &str) -> (r: (Result<T>, Option<String>))
    ensures
        r.0 == res,
        match res {
            Ok(_) => r.1 is None,
            Err(err) => r.1 matches Some(line) && line@ == failure_report(ctx@, err),
        },
{
    crate::protocol::result::handle_result(res, ctx)
}

} // verus!
