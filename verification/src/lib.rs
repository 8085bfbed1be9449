//! Continuous enforcement of a desired file-permission mode over watched
//! directory trees.
//!
//! The library holds the reconciliation engine: deciding which observed
//! files are out of compliance (honouring ignore roots), what mode each
//! non-compliant file must receive, and when a reconciliation pass runs
//! (debouncing change notifications against a periodic timer). All
//! filesystem and OS-notification I/O lives outside the library, which
//! works on plain observed values.

pub mod config;
pub mod laws;
pub mod pass;
pub mod paths;
pub mod scan;
pub mod scheduler;

use vstd::prelude::*;

verus! {

/// The low nine bits of a mode: the owner/group/other permission triple.
pub open spec fn perm_bits(mode: u32) -> u32 {
    mode & 0x1ff
}

/// Executable counterpart of [`perm_bits`].
pub fn mask_perm_bits(mode: u32) -> (r: u32)
    ensures
        r == perm_bits(mode),
{
    mode & 0x1ff
}

} // verus!
