//! The `Result` type of the protocol, and how a failed step is reported.

use crate::protocol::error::{spec_message, Error};
use vstd::prelude::*;
use vstd::string::StringExecFns;

verus! {

/// The `Result` type of the protocol.
pub type Result<T> = core::result::Result<T, Error>;

/// The line that reports a failure: the context, a colon, and the error.
pub open spec fn failure_report(ctx: Seq<char>, err: Error) -> Seq<char> {
    ctx + ": "@ + spec_message(err)
}

/// `handle_result` handles a `Result` in case of error: it hands the
/// result back, and on an error also the line to log as critical.
pub fn handle_result<T>(res: Result<T>, ctx: &str) -> (r: (Result<T>, Option<String>))
    ensures
        r.0 == res,
        match res {
            Ok(_) => r.1 is None,
            Err(err) => r.1 matches Some(line) && line@ == failure_report(ctx@, err),
        },
{
    match res {
        Ok(val) => (Ok(val), None),
        Err(err) => {
            let line = String::from_str(ctx).concat(": ").concat(err.message().as_str());
            (Err(err), Some(line))
        },
    }
}

} // verus!
