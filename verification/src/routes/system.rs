//! The route that describes the node's system.

use vstd::prelude::*;
use crate::text::{trim, trimmed};

verus! {

/// The kernel version the route reports: the output of `uname -r`, or
/// `unknown` when it could not run, without surrounding white space.
pub fn kernel_version(uname_output: Option<&str>) -> (r: String)
    ensures
        r@ == trimmed(
            match uname_output {
                Some(s) => s@,
                None => "unknown"@,
            },
        ),
{
    match uname_output {
        Some(s) => trim(s),
        None => trim("unknown"),
    }
}

} // verus!
