use check_pallet_versions::{
    CheckPalletVersions, Level, LogEntry, Mode, PalletInfo, StorageVersion, VersionMismatch,
};

fn pallets(names: &[&str]) -> Vec<PalletInfo> {
    names.iter().map(|n| PalletInfo::new(n.to_string())).collect()
}

fn versions(vs: &[u16]) -> Vec<StorageVersion> {
    vs.iter().map(|v| StorageVersion::new(*v)).collect()
}

fn checker(names: &[&str], current: &[u16], on_chain: &[u16]) -> CheckPalletVersions {
    CheckPalletVersions::new(pallets(names), versions(current), versions(on_chain))
}

fn count(log: &[LogEntry], level: Level) -> usize {
    log.iter().filter(|e| e.level() == level).count()
}

fn mismatch_of(entry: &LogEntry) -> (String, u16, u16) {
    match entry {
        LogEntry::Mismatch(m) => (m.pallet.clone(), m.current.0, m.on_chain.0),
        other => panic!("not a mismatch entry: {:?}", other),
    }
}

#[test]
fn all_versions_equal_succeeds_with_one_info() {
    let c = checker(&["A", "B", "C"], &[1, 2, 3], &[1, 2, 3]);
    let mut log = Vec::new();
    assert!(c.check(&mut log).is_ok());
    assert_eq!(log.len(), 1);
    assert!(matches!(log[0], LogEntry::AllCorrect));
    assert_eq!(count(&log, Level::Info), 1);
    assert_eq!(count(&log, Level::Error), 0);
}

#[test]
fn one_mismatch_fails_with_one_error() {
    let c = checker(&["A", "B", "C"], &[1, 2, 3], &[1, 9, 3]);
    let mut log = Vec::new();
    let err: VersionMismatch = c.check(&mut log).unwrap_err();
    assert_eq!(log.len(), 1);
    assert_eq!(count(&log, Level::Error), 1);
    assert_eq!(count(&log, Level::Info), 0);
    assert_eq!(mismatch_of(&log[0]), ("B".to_string(), 2, 9));
    assert_eq!(err.mismatches.len(), 1);
    assert_eq!(err.mismatches[0].pallet, "B");
    assert_eq!(err.mismatches[0].current, StorageVersion(2));
    assert_eq!(err.mismatches[0].on_chain, StorageVersion(9));
    assert_eq!(
        err.message(),
        "One or more pallets have incorrect versions, see log."
    );
}

#[test]
fn empty_pallet_list_succeeds_with_one_info() {
    let c = checker(&[], &[], &[]);
    let mut log = Vec::new();
    assert!(c.check(&mut log).is_ok());
    assert_eq!(log.len(), 1);
    assert_eq!(count(&log, Level::Info), 1);
    assert_eq!(count(&log, Level::Error), 0);
}

#[test]
fn shorter_version_lists_leave_last_pallet_unchecked() {
    // The third pallet has no version entry, so it is not compared at all.
    let c = checker(&["A", "B", "C"], &[1, 2], &[1, 2]);
    let mut log = Vec::new();
    assert!(c.check(&mut log).is_ok());
    assert_eq!(log.len(), 1);
    assert!(matches!(log[0], LogEntry::AllCorrect));

    // A difference beyond the shortest list is ignored too.
    let c = checker(&["A", "B"], &[1, 2, 3], &[1, 2, 4]);
    let mut log = Vec::new();
    assert!(c.check(&mut log).is_ok());

    let c = checker(&["A", "B", "C"], &[1, 5], &[1, 2, 7]);
    let mut log = Vec::new();
    let err = c.check(&mut log).unwrap_err();
    assert_eq!(err.mismatches.len(), 1);
    assert_eq!(mismatch_of(&log[0]), ("B".to_string(), 5, 2));
}

#[test]
fn every_mismatch_is_reported_in_order() {
    let c = checker(&["A", "B", "C", "D"], &[1, 2, 3, 4], &[0, 2, 7, 5]);
    let mut log = Vec::new();
    let err = c.check(&mut log).unwrap_err();
    assert_eq!(count(&log, Level::Error), 3);
    assert_eq!(count(&log, Level::Info), 0);
    assert_eq!(mismatch_of(&log[0]), ("A".to_string(), 1, 0));
    assert_eq!(mismatch_of(&log[1]), ("C".to_string(), 3, 7));
    assert_eq!(mismatch_of(&log[2]), ("D".to_string(), 4, 5));
    let names: Vec<&str> = err.mismatches.iter().map(|m| m.pallet.as_str()).collect();
    assert_eq!(names, vec!["A", "C", "D"]);
}

#[test]
fn entries_are_appended_after_earlier_ones() {
    let c = checker(&["A"], &[1], &[1]);
    let mut log = vec![LogEntry::CheckFailed];
    assert!(c.check(&mut log).is_ok());
    assert_eq!(log.len(), 2);
    assert!(matches!(log[0], LogEntry::CheckFailed));
    assert!(matches!(log[1], LogEntry::AllCorrect));
}

#[test]
fn swapping_two_pallets_with_their_versions_keeps_outcome() {
    let a = checker(&["A", "B", "C"], &[1, 2, 3], &[1, 9, 3]);
    let b = checker(&["B", "A", "C"], &[2, 1, 3], &[9, 1, 3]);
    assert!(a.check(&mut Vec::new()).is_err());
    assert!(b.check(&mut Vec::new()).is_err());

    let a = checker(&["A", "B"], &[4, 6], &[4, 6]);
    let b = checker(&["B", "A"], &[6, 4], &[6, 4]);
    assert!(a.check(&mut Vec::new()).is_ok());
    assert!(b.check(&mut Vec::new()).is_ok());
}

#[test]
fn execution_mode_logs_failure_and_returns_zero_weight() {
    let c = checker(&["A", "B"], &[1, 2], &[1, 3]);
    let mut log = Vec::new();
    let w = c.on_runtime_upgrade(Mode::Execution, &mut log);
    assert_eq!(w, sp_weights::Weight::zero());
    assert_eq!(log.len(), 2);
    assert_eq!(mismatch_of(&log[0]), ("B".to_string(), 2, 3));
    assert!(matches!(log[1], LogEntry::CheckFailed));
    assert_eq!(count(&log, Level::Error), 2);

    let mut log = Vec::new();
    assert!(c.post_upgrade(Mode::Execution, &mut log).is_ok());
    assert!(log.is_empty());
}

#[test]
fn execution_mode_success_logs_one_info() {
    let c = checker(&["A", "B"], &[1, 2], &[1, 2]);
    let mut log = Vec::new();
    let w = c.on_runtime_upgrade(Mode::Execution, &mut log);
    assert_eq!(w.ref_time(), 0);
    assert_eq!(w.proof_size(), 0);
    assert_eq!(log.len(), 1);
    assert!(matches!(log[0], LogEntry::AllCorrect));
}

#[test]
fn verification_mode_returns_failure_from_post_upgrade() {
    let c = checker(&["A", "B"], &[1, 2], &[1, 3]);
    let mut log = Vec::new();
    let w = c.on_runtime_upgrade(Mode::Verification, &mut log);
    assert_eq!(w, sp_weights::Weight::zero());
    assert!(log.is_empty());

    let err = c.post_upgrade(Mode::Verification, &mut log).unwrap_err();
    assert_eq!(err.mismatches.len(), 1);
    assert_eq!(log.len(), 1);
    assert_eq!(mismatch_of(&log[0]), ("B".to_string(), 2, 3));

    let ok = checker(&["A"], &[5], &[5]);
    let mut log = Vec::new();
    assert!(ok.post_upgrade(Mode::Verification, &mut log).is_ok());
    assert_eq!(count(&log, Level::Info), 1);
}

#[test]
fn levels_of_entries() {
    assert_eq!(LogEntry::AllCorrect.level(), Level::Info);
    assert_eq!(LogEntry::CheckFailed.level(), Level::Error);
}

#[test]
fn permuting_pallets_with_their_versions_keeps_the_mismatches() {
    let a = checker(&["A", "B", "C", "D"], &[1, 2, 3, 4], &[0, 2, 7, 5]);
    let b = checker(&["D", "B", "A", "C"], &[4, 2, 1, 3], &[5, 2, 0, 7]);
    let mut log_a = Vec::new();
    let mut log_b = Vec::new();
    let err_a = a.check(&mut log_a).unwrap_err();
    let err_b = b.check(&mut log_b).unwrap_err();
    let mut ea: Vec<(String, u16, u16)> = log_a.iter().map(mismatch_of).collect();
    let mut eb: Vec<(String, u16, u16)> = log_b.iter().map(mismatch_of).collect();
    assert_eq!(eb[0], ("D".to_string(), 4, 5));
    ea.sort();
    eb.sort();
    assert_eq!(ea, eb);
    assert_eq!(err_a.mismatches.len(), err_b.mismatches.len());
}
