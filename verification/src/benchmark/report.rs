//! Labels written into benchmark reports.
use vstd::prelude::*;

verus! {

/// Build profile label for reports: the development profile when debug
/// assertions are compiled in, `release` otherwise.
pub fn profile(debug_build: bool) -> (r: &'static str)
    ensures
        debug_build ==> r@ == "dev (crate opt-level=1, dependencies opt-level=3)"@,
        !debug_build ==> r@ == "release"@,
{
    if debug_build {
        "dev (crate opt-level=1, dependencies opt-level=3)"
    } else {
        "release"
    }
}

} // verus!
