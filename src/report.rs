//! What a check reports: per-pallet mismatches, the aggregate error and the
//! log entries that a run emits.
use vstd::prelude::*;

use crate::version::StorageVersion;

verus! {

/// A pallet whose on-chain storage version differs from its in-code one.
#[derive(Clone, Debug)]
pub struct Mismatch {
    pub pallet: String,
    pub current: StorageVersion,
    pub on_chain: StorageVersion,
}

/// The one error of a check: at least one pallet has a wrong version.
/// It lists every mismatch, in the order of the pallets.
#[derive(Clone, Debug)]
pub struct VersionMismatch {
    pub mismatches: Vec<Mismatch>,
}

impl VersionMismatch {
    /// The static text that stands for this error in the log.
    pub fn message(&self) -> (r: &'static str)
        ensures
            r@ == version_mismatch_text(),
    {
        "One or more pallets have incorrect versions, see log."
    }
}

/// The text of the aggregate error.
pub open spec fn version_mismatch_text() -> Seq<char> {
    "One or more pallets have incorrect versions, see log."@
}

/// Severity of a log entry.
#[derive(Clone, Copy, Debug, PartialEq, Eq, Structural)]
pub enum Level {
    Error,
    Info,
}

/// One entry that a run hands to the log sink.
#[derive(Clone, Debug)]
pub enum LogEntry {
    /// A pallet's chain and code versions disagree.
    Mismatch(Mismatch),
    /// Every pallet that was compared has the correct version.
    AllCorrect,
    /// The aggregate failure, logged by the execution hook instead of returned.
    CheckFailed,
}

/// The severity at which an entry is logged.
pub open spec fn level_of(e: LogEntry) -> Level {
    match e {
        LogEntry::AllCorrect => Level::Info,
        _ => Level::Error,
    }
}

impl LogEntry {
    pub fn level(&self) -> (r: Level)
        ensures
            r == level_of(*self),
    {
        match self {
            LogEntry::AllCorrect => Level::Info,
            _ => Level::Error,
        }
    }
}

/// How many entries of `log` have severity `level`.
pub open spec fn count_level(log: Seq<LogEntry>, level: Level) -> nat
    decreases log.len(),
{
    if log.len() == 0 {
        0
    } else {
        count_level(log.drop_last(), level) + if level_of(log.last()) == level {
            1nat
        } else {
            0nat
        }
    }
}

} // verus!
