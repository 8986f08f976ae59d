//! Name filters for selecting which test images a driver run processes.
//!
//! A name starting with a plus sign opts the image in: as soon as one image
//! is marked that way, only the marked ones are used.  Otherwise every
//! image runs except those opted out with a leading minus sign.

use vstd::prelude::*;
use vstd::string::StringSliceAdditionalSpecFns;

verus! {

/// Whether the image name is explicitly opted in: it begins with `+`.
pub fn is_in_whitelist(name: &str) -> (r: bool)
    ensures
        r == (name.spec_bytes().len() > 0 && name.spec_bytes()[0] == 43),
{
    let bytes = name.as_bytes();
    bytes.len() > 0 && bytes[0] == 43
}

/// Whether the image name is not opted out: it does not begin with `-`.
pub fn is_not_in_blacklist(name: &str) -> (r: bool)
    ensures
        r == !(name.spec_bytes().len() > 0 && name.spec_bytes()[0] == 45),
{
    let bytes = name.as_bytes();
    !(bytes.len() > 0 && bytes[0] == 45)
}

} // verus!
