//! The health check.
use vstd::prelude::*;

verus! {

/// Answers a health check.
pub fn get_ping() -> (r: &'static str)
    ensures
        r@ == "OK"@,
{
    "OK"
}

} // verus!
