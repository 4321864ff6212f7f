//! Post-upgrade consistency check of pallet storage versions.
//!
//! After a runtime upgrade has run its migrations, every pallet's in-code
//! storage version must equal the version recorded on chain. A difference
//! means that a migration was written but never wired into the upgrade.
use vstd::prelude::*;

pub mod checker;
pub mod laws;
pub mod report;
pub mod version;
pub mod weight;

pub use checker::{CheckPalletVersions, Mode};
pub use report::{Level, LogEntry, Mismatch, VersionMismatch};
pub use version::{PalletInfo, StorageVersion};
