//! The build description printed when logging starts.
use vstd::prelude::*;

verus! {

/// `"debug"` for a build with debug assertions, `"release"` otherwise.
pub fn build_type(debug: bool) -> (r: &'static str)
    ensures
        r@ == (if debug {
            "debug"@
        } else {
            "release"@
        }),
{
    if debug {
        "debug"
    } else {
        "release"
    }
}

} // verus!
