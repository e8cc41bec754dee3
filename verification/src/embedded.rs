//! The bundle payloads compiled into the helper. This build embeds
//! none: loaders fall back to the on-disk search.

use vstd::prelude::*;

verus! {

/// The embedded bundle for an architecture tag; this build carries none.
pub fn get_bundle(arch: &str) -> (r: Option<Vec<u8>>)
    ensures
        r is None,
{
    let _ = arch;
    None
}

} // verus!
