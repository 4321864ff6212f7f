//! The checker: compares each pallet's in-code storage version with the one
//! recorded on chain.
use vstd::prelude::*;

use crate::report::{LogEntry, Mismatch, VersionMismatch};
use crate::version::{PalletInfo, StorageVersion};
use crate::weight::weight_from_parts;
use sp_weights::Weight;

verus! {

/// Where in an upgrade the check runs.
#[derive(Clone, Copy, Debug, PartialEq, Eq, Structural)]
pub enum Mode {
    /// A dry run ahead of deployment: the check's failure is returned from
    /// `post_upgrade`, so that the deployment can be stopped.
    Verification,
    /// The real upgrade: the check runs in `on_runtime_upgrade` and a failure
    /// is only logged, since stopping is no longer possible.
    Execution,
}

/// A snapshot of the runtime's pallets and of their two version lists.
///
/// The three lists are aligned by position: the i-th entry of each refers to
/// the same pallet. Where their lengths differ, only the common prefix is
/// compared and the remaining entries are ignored.
pub struct CheckPalletVersions {
    pub pallets: Vec<PalletInfo>,
    pub current: Vec<StorageVersion>,
    pub on_chain: Vec<StorageVersion>,
}

/// Number of positions that a check compares: the length of the shortest list.
pub open spec fn compared_len(
    pallets: Seq<PalletInfo>,
    current: Seq<StorageVersion>,
    on_chain: Seq<StorageVersion>,
) -> nat {
    let m = if pallets.len() <= current.len() {
        pallets.len()
    } else {
        current.len()
    };
    if m <= on_chain.len() {
        m
    } else {
        on_chain.len()
    }
}

/// The record of position `i`.
pub open spec fn mismatch_at(
    pallets: Seq<PalletInfo>,
    current: Seq<StorageVersion>,
    on_chain: Seq<StorageVersion>,
    i: int,
) -> Mismatch {
    Mismatch { pallet: pallets[i].name, current: current[i], on_chain: on_chain[i] }
}

/// The mismatched positions among the first `n`, in order.
pub open spec fn mismatches_upto(
    pallets: Seq<PalletInfo>,
    current: Seq<StorageVersion>,
    on_chain: Seq<StorageVersion>,
    n: nat,
) -> Seq<Mismatch>
    decreases n,
{
    if n == 0 {
        Seq::empty()
    } else {
        let prev = mismatches_upto(pallets, current, on_chain, (n - 1) as nat);
        if on_chain[n - 1] != current[n - 1] {
            prev.push(mismatch_at(pallets, current, on_chain, n - 1))
        } else {
            prev
        }
    }
}

/// Every compared position holds equal versions.
pub open spec fn all_consistent(
    pallets: Seq<PalletInfo>,
    current: Seq<StorageVersion>,
    on_chain: Seq<StorageVersion>,
) -> bool {
    forall|i: int|
        0 <= i < compared_len(pallets, current, on_chain) ==> #[trigger] on_chain[i] == current[i]
}

/// Every mismatch of a check, in the order of the pallets.
pub open spec fn mismatches(
    pallets: Seq<PalletInfo>,
    current: Seq<StorageVersion>,
    on_chain: Seq<StorageVersion>,
) -> Seq<Mismatch> {
    mismatches_upto(pallets, current, on_chain, compared_len(pallets, current, on_chain))
}

/// One error entry for each mismatch.
pub open spec fn mismatch_entries(ms: Seq<Mismatch>) -> Seq<LogEntry> {
    ms.map_values(|m: Mismatch| LogEntry::Mismatch(m))
}

/// The entries a check emits: one error entry per mismatch, or a single
/// informational entry when there is none.
pub open spec fn check_log(
    pallets: Seq<PalletInfo>,
    current: Seq<StorageVersion>,
    on_chain: Seq<StorageVersion>,
) -> Seq<LogEntry> {
    let ms = mismatches(pallets, current, on_chain);
    if ms.len() == 0 {
        seq![LogEntry::AllCorrect]
    } else {
        mismatch_entries(ms)
    }
}

/// There is no mismatch among the first `n` positions exactly when they all agree.
pub proof fn lemma_no_mismatch_upto(
    pallets: Seq<PalletInfo>,
    current: Seq<StorageVersion>,
    on_chain: Seq<StorageVersion>,
    n: nat,
)
    requires
        n <= current.len(),
        n <= on_chain.len(),
    ensures
        (mismatches_upto(pallets, current, on_chain, n).len() == 0) <==> (forall|i: int|
            0 <= i < n ==> #[trigger] on_chain[i] == current[i]),
    decreases n,
{
    if n > 0 {
        lemma_no_mismatch_upto(pallets, current, on_chain, (n - 1) as nat);
        if forall|i: int| 0 <= i < n ==> #[trigger] on_chain[i] == current[i] {
            assert(on_chain[n - 1] == current[n - 1]);
            assert forall|i: int| 0 <= i < n - 1 implies #[trigger] on_chain[i] == current[i] by {
                assert(on_chain[i] == current[i]);
            }
        }
    }
}

impl CheckPalletVersions {
    pub open spec fn compared_len(&self) -> nat {
        compared_len(self.pallets@, self.current@, self.on_chain@)
    }

    pub open spec fn all_consistent(&self) -> bool {
        all_consistent(self.pallets@, self.current@, self.on_chain@)
    }

    pub open spec fn mismatches(&self) -> Seq<Mismatch> {
        mismatches(self.pallets@, self.current@, self.on_chain@)
    }

    pub open spec fn check_log(&self) -> Seq<LogEntry> {
        check_log(self.pallets@, self.current@, self.on_chain@)
    }

    pub fn new(
        pallets: Vec<PalletInfo>,
        current: Vec<StorageVersion>,
        on_chain: Vec<StorageVersion>,
    ) -> (r: CheckPalletVersions)
        ensures
            r.pallets == pallets,
            r.current == current,
            r.on_chain == on_chain,
    {
        CheckPalletVersions { pallets, current, on_chain }
    }

    /// Compares every position once, without stopping at the first mismatch.
    /// Each mismatch is logged as an error; a run without one logs a single
    /// informational entry. The error lists every mismatch.
    pub fn check(&self, log: &mut Vec<LogEntry>) -> (r: Result<(), VersionMismatch>)
        ensures
            final(log)@ == old(log)@ + self.check_log(),
            r.is_ok() <==> self.all_consistent(),
            r.is_ok() <==> self.mismatches().len() == 0,
            r matches Err(e) ==> e.mismatches@ == self.mismatches(),
    {
        let ghost start = log@;
        let n: usize = if self.pallets.len() <= self.current.len() {
            self.pallets.len()
        } else {
            self.current.len()
        };
        let n: usize = if n <= self.on_chain.len() {
            n
        } else {
            self.on_chain.len()
        };
        let mut found: Vec<Mismatch> = Vec::new();
        let mut i: usize = 0;
        while i < n
            invariant
                n == self.compared_len(),
                i <= n,
                found@ == mismatches_upto(self.pallets@, self.current@, self.on_chain@, i as nat),
                log@ == start + mismatch_entries(found@),
            decreases n - i,
        {
            if self.on_chain[i] != self.current[i] {
                let entry = Mismatch {
                    pallet: self.pallets[i].name.clone(),
                    current: self.current[i],
                    on_chain: self.on_chain[i],
                };
                log.push(
                    LogEntry::Mismatch(
                        Mismatch {
                            pallet: self.pallets[i].name.clone(),
                            current: self.current[i],
                            on_chain: self.on_chain[i],
                        },
                    ),
                );
                found.push(entry);
                assert(mismatch_entries(found@) =~= mismatch_entries(found@.drop_last()).push(
                    LogEntry::Mismatch(entry),
                ));
            }
            i = i + 1;
        }
        proof {
            lemma_no_mismatch_upto(self.pallets@, self.current@, self.on_chain@, n as nat);
        }
        if found.len() > 0 {
            Err(VersionMismatch { mismatches: found })
        } else {
            log.push(LogEntry::AllCorrect);
            proof {
                assert(mismatch_entries(found@) =~= Seq::<LogEntry>::empty());
            }
            Ok(())
        }
    }

    /// The hook that runs after the upgrade's migrations. In execution mode it
    /// runs the check and logs its failure as one more error entry; in
    /// verification mode it leaves the check to `post_upgrade`. The weight
    /// reported is always zero: the scan is not billed.
    pub fn on_runtime_upgrade(&self, mode: Mode, log: &mut Vec<LogEntry>) -> (r: Weight)
        ensures
            r == weight_from_parts((0, 0)),
            mode == Mode::Verification ==> final(log)@ == old(log)@,
            mode == Mode::Execution && self.all_consistent() ==> final(log)@ == old(log)@
                + self.check_log(),
            mode == Mode::Execution && !self.all_consistent() ==> final(log)@ == old(log)@
                + self.check_log().push(LogEntry::CheckFailed),
    {
        match mode {
            Mode::Verification => {},
            Mode::Execution => {
                if self.check(log).is_err() {
                    log.push(LogEntry::CheckFailed);
                }
            },
        }
        Weight::zero()
    }

    /// The hook that runs once the whole upgrade is done. In verification mode
    /// it runs the check and returns its result; in execution mode it succeeds
    /// and logs nothing.
    pub fn post_upgrade(&self, mode: Mode, log: &mut Vec<LogEntry>) -> (r: Result<(), VersionMismatch>)
        ensures
            mode == Mode::Execution ==> r is Ok && final(log)@ == old(log)@,
            mode == Mode::Verification ==> {
                &&& final(log)@ == old(log)@ + self.check_log()
                &&& r.is_ok() <==> self.all_consistent()
                &&& r matches Err(e) ==> e.mismatches@ == self.mismatches()
            },
    {
        match mode {
            Mode::Verification => self.check(log),
            Mode::Execution => Ok(()),
        }
    }
}

} // verus!
