//! The values the checker reads: pallet identities and storage versions.
use vstd::prelude::*;

verus! {

/// The storage version of a pallet, compared by equality only.
#[derive(Clone, Copy, Debug, PartialEq, Eq, Structural)]
pub struct StorageVersion(pub u16);

impl StorageVersion {
    pub fn new(version: u16) -> (r: StorageVersion)
        ensures
            r.0 == version,
    {
        StorageVersion(version)
    }
}

/// The identity of a pallet as the runtime lists it.
#[derive(Clone, Debug)]
pub struct PalletInfo {
    pub name: String,
}

impl PalletInfo {
    pub fn new(name: String) -> (r: PalletInfo)
        ensures
            r.name == name,
    {
        PalletInfo { name }
    }
}

} // verus!
