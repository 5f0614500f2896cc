//! The version the bridge reports.

use vstd::prelude::*;

verus! {

/// The version: the CI tag the build was made for, else the package
/// version.
pub fn govee_version<'a>(ci_tag: &'a str, pkg_version: &'a str) -> (r: &'a str)
    ensures
        r@ == (if ci_tag@.len() == 0 { pkg_version@ } else { ci_tag@ }),
{
    if ci_tag.unicode_len() == 0 {
        pkg_version
    } else {
        ci_tag
    }
}

} // verus!
