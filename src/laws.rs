//! Laws of the check, proved over its specification.
use vstd::prelude::*;
use vstd::set_lib::lemma_map_size;

use crate::checker::{
    all_consistent, check_log, compared_len, lemma_no_mismatch_upto, mismatch_at,
    mismatch_entries, mismatches, mismatches_upto,
};
use crate::report::{count_level, Level, LogEntry, Mismatch};
use crate::version::{PalletInfo, StorageVersion};

verus! {

/// The positions among the first `n` whose two versions differ.
pub open spec fn mismatched_positions(
    current: Seq<StorageVersion>,
    on_chain: Seq<StorageVersion>,
    n: nat,
) -> Set<int> {
    Set::new(|i: int| 0 <= i < n && on_chain[i] != current[i])
}

/// `s` with the entries at `i` and `j` exchanged.
pub open spec fn swap<T>(s: Seq<T>, i: int, j: int) -> Seq<T> {
    s.update(i, s[j]).update(j, s[i])
}

/// `sigma` lists every position below `n` exactly once.
pub open spec fn is_permutation(sigma: Seq<int>, n: nat) -> bool {
    &&& sigma.len() == n
    &&& forall|j: int| 0 <= j < n ==> 0 <= #[trigger] sigma[j] < n
    &&& forall|a: int, b: int|
        0 <= a < n && 0 <= b < n && a != b ==> #[trigger] sigma[a] != #[trigger] sigma[b]
    &&& forall|i: int| 0 <= i < n ==> #[trigger] sigma.contains(i)
}

/// `s` reordered so that its j-th entry is the entry of `s` at `sigma[j]`.
pub open spec fn permute<T>(s: Seq<T>, sigma: Seq<int>) -> Seq<T> {
    Seq::new(sigma.len(), |j: int| s[sigma[j]])
}

/// The mismatched positions among the first `n` whose record is `m`.
pub open spec fn positions_of(
    pallets: Seq<PalletInfo>,
    current: Seq<StorageVersion>,
    on_chain: Seq<StorageVersion>,
    n: nat,
    m: Mismatch,
) -> Set<int> {
    Set::new(
        |i: int|
            0 <= i < n && on_chain[i] != current[i] && mismatch_at(pallets, current, on_chain, i)
                == m,
    )
}

/// A record occurs among the mismatches of the first `n` positions as many
/// times as there are mismatched positions with that record.
proof fn lemma_count_upto(
    pallets: Seq<PalletInfo>,
    current: Seq<StorageVersion>,
    on_chain: Seq<StorageVersion>,
    n: nat,
    m: Mismatch,
)
    requires
        n <= current.len(),
        n <= on_chain.len(),
    ensures
        positions_of(pallets, current, on_chain, n, m).finite(),
        mismatches_upto(pallets, current, on_chain, n).to_multiset().count(m) == positions_of(
            pallets,
            current,
            on_chain,
            n,
            m,
        ).len(),
    decreases n,
{
    let ms = mismatches_upto(pallets, current, on_chain, n);
    let pos = positions_of(pallets, current, on_chain, n, m);
    ms.to_multiset_ensures();
    if n == 0 {
        assert(pos =~= Set::<int>::empty());
        assert(!ms.contains(m));
    } else {
        let k = (n - 1) as nat;
        lemma_count_upto(pallets, current, on_chain, k, m);
        let prev = mismatches_upto(pallets, current, on_chain, k);
        let prev_pos = positions_of(pallets, current, on_chain, k, m);
        prev.to_multiset_ensures();
        if on_chain[k as int] != current[k as int] {
            let r = mismatch_at(pallets, current, on_chain, k as int);
            assert(ms == prev.push(r));
            assert(ms.to_multiset() =~= prev.to_multiset().insert(r));
            if r == m {
                assert(pos =~= prev_pos.insert(k as int));
                assert(!prev_pos.contains(k as int));
            } else {
                assert(pos =~= prev_pos);
            }
        } else {
            assert(pos =~= prev_pos);
        }
    }
}

/// Error entries for a list of mismatches are all errors, one per mismatch.
proof fn lemma_count_mismatch_entries(ms: Seq<Mismatch>)
    ensures
        count_level(mismatch_entries(ms), Level::Error) == ms.len(),
        count_level(mismatch_entries(ms), Level::Info) == 0,
    decreases ms.len(),
{
    if ms.len() > 0 {
        assert(mismatch_entries(ms).drop_last() =~= mismatch_entries(ms.drop_last()));
        lemma_count_mismatch_entries(ms.drop_last());
    }
}

/// The mismatches among the first `n` positions match the mismatched
/// positions one for one: as many of each, every record is that of a
/// mismatched position, and every mismatched position has a record.
pub proof fn lemma_mismatches_upto_positions(
    pallets: Seq<PalletInfo>,
    current: Seq<StorageVersion>,
    on_chain: Seq<StorageVersion>,
    n: nat,
)
    requires
        n <= current.len(),
        n <= on_chain.len(),
    ensures
        mismatched_positions(current, on_chain, n).finite(),
        mismatches_upto(pallets, current, on_chain, n).len() == mismatched_positions(
            current,
            on_chain,
            n,
        ).len(),
        forall|j: int|
            0 <= j < mismatches_upto(pallets, current, on_chain, n).len() ==> exists|i: int|
                mismatched_positions(current, on_chain, n).contains(i)
                    && #[trigger] mismatches_upto(pallets, current, on_chain, n)[j] == mismatch_at(
                    pallets,
                    current,
                    on_chain,
                    i,
                ),
        forall|i: int|
            #[trigger] mismatched_positions(current, on_chain, n).contains(i) ==> exists|j: int|
                0 <= j < mismatches_upto(pallets, current, on_chain, n).len()
                    && mismatches_upto(pallets, current, on_chain, n)[j] == mismatch_at(
                    pallets,
                    current,
                    on_chain,
                    i,
                ),
    decreases n,
{
    let pos = mismatched_positions(current, on_chain, n);
    let ms = mismatches_upto(pallets, current, on_chain, n);
    if n == 0 {
        assert(pos =~= Set::<int>::empty());
    } else {
        let m = (n - 1) as nat;
        lemma_mismatches_upto_positions(pallets, current, on_chain, m);
        let prev_pos = mismatched_positions(current, on_chain, m);
        let prev = mismatches_upto(pallets, current, on_chain, m);
        if on_chain[m as int] != current[m as int] {
            assert(pos =~= prev_pos.insert(m as int));
            assert(!prev_pos.contains(m as int));
            assert(ms == prev.push(mismatch_at(pallets, current, on_chain, m as int)));
            assert forall|j: int| 0 <= j < ms.len() implies exists|i: int|
                pos.contains(i) && #[trigger] ms[j] == mismatch_at(pallets, current, on_chain, i) by {
                if j < prev.len() {
                    assert(ms[j] == prev[j]);
                    let i = choose|i: int|
                        prev_pos.contains(i) && prev[j] == mismatch_at(pallets, current, on_chain, i);
                    assert(pos.contains(i));
                } else {
                    assert(pos.contains(m as int));
                    assert(ms[j] == mismatch_at(pallets, current, on_chain, m as int));
                }
            }
            assert forall|i: int| #[trigger] pos.contains(i) implies exists|j: int|
                0 <= j < ms.len() && ms[j] == mismatch_at(pallets, current, on_chain, i) by {
                if i < m {
                    assert(prev_pos.contains(i));
                    let j = choose|j: int|
                        0 <= j < prev.len() && prev[j] == mismatch_at(pallets, current, on_chain, i);
                    assert(ms[j] == prev[j]);
                } else {
                    assert(ms[prev.len() as int] == mismatch_at(pallets, current, on_chain, i));
                }
            }
        } else {
            assert(pos =~= prev_pos);
            assert forall|i: int| #[trigger] pos.contains(i) implies exists|j: int|
                0 <= j < ms.len() && ms[j] == mismatch_at(pallets, current, on_chain, i) by {
                assert(prev_pos.contains(i));
            }
        }
    }
}

/// Where every compared pallet has equal versions, including where there is
/// no pallet at all, a check succeeds and logs exactly one informational entry
/// and no error.
pub proof fn lemma_consistent_logs_one_info(
    pallets: Seq<PalletInfo>,
    current: Seq<StorageVersion>,
    on_chain: Seq<StorageVersion>,
)
    requires
        all_consistent(pallets, current, on_chain),
    ensures
        mismatches(pallets, current, on_chain).len() == 0,
        check_log(pallets, current, on_chain) == seq![LogEntry::AllCorrect],
        count_level(check_log(pallets, current, on_chain), Level::Info) == 1,
        count_level(check_log(pallets, current, on_chain), Level::Error) == 0,
{
    let n = compared_len(pallets, current, on_chain);
    lemma_no_mismatch_upto(pallets, current, on_chain, n);
    let log = check_log(pallets, current, on_chain);
    assert(log.drop_last() =~= Seq::<LogEntry>::empty());
    assert(count_level(log.drop_last(), Level::Info) == 0);
    assert(count_level(log.drop_last(), Level::Error) == 0);
}

/// Where exactly `k >= 1` compared positions hold different versions, a check
/// fails and logs exactly `k` error entries and no informational entry: the
/// entry of each mismatch, in order (see `lemma_mismatches_upto_positions`
/// for how the mismatches match the mismatched positions one for one).
pub proof fn lemma_mismatches_log_one_error_each(
    pallets: Seq<PalletInfo>,
    current: Seq<StorageVersion>,
    on_chain: Seq<StorageVersion>,
    k: nat,
)
    requires
        k >= 1,
        mismatched_positions(current, on_chain, compared_len(pallets, current, on_chain)).len()
            == k,
    ensures
        !all_consistent(pallets, current, on_chain),
        mismatches(pallets, current, on_chain).len() == k,
        check_log(pallets, current, on_chain) == mismatch_entries(
            mismatches(pallets, current, on_chain),
        ),
        count_level(check_log(pallets, current, on_chain), Level::Error) == k,
        count_level(check_log(pallets, current, on_chain), Level::Info) == 0,
{
    let n = compared_len(pallets, current, on_chain);
    lemma_no_mismatch_upto(pallets, current, on_chain, n);
    lemma_mismatches_upto_positions(pallets, current, on_chain, n);
    let ms = mismatches(pallets, current, on_chain);
    assert(ms.len() == k);
    lemma_count_mismatch_entries(ms);
}

/// Exchanging two compared pallets together with their own version pairs
/// does not change whether a check succeeds.
pub proof fn lemma_swap_keeps_outcome(
    pallets: Seq<PalletInfo>,
    current: Seq<StorageVersion>,
    on_chain: Seq<StorageVersion>,
    i: int,
    j: int,
)
    requires
        0 <= i < compared_len(pallets, current, on_chain),
        0 <= j < compared_len(pallets, current, on_chain),
    ensures
        all_consistent(swap(pallets, i, j), swap(current, i, j), swap(on_chain, i, j))
            == all_consistent(pallets, current, on_chain),
{
    let (p2, c2, o2) = (swap(pallets, i, j), swap(current, i, j), swap(on_chain, i, j));
    assert(compared_len(p2, c2, o2) == compared_len(pallets, current, on_chain));
    if all_consistent(pallets, current, on_chain) {
        assert forall|x: int| 0 <= x < compared_len(p2, c2, o2) implies #[trigger] o2[x] == c2[x] by {
            if x == j {
                assert(on_chain[i] == current[i]);
            } else if x == i {
                assert(on_chain[j] == current[j]);
            } else {
                assert(on_chain[x] == current[x]);
            }
        }
    }
    if all_consistent(p2, c2, o2) {
        assert forall|x: int|
            0 <= x < compared_len(pallets, current, on_chain) implies #[trigger] on_chain[x]
            == current[x] by {
            if x == i {
                assert(o2[j] == c2[j]);
            } else if x == j {
                assert(o2[i] == c2[i]);
            } else {
                assert(o2[x] == c2[x]);
            }
        }
    }
}

/// Reordering the pallets by any permutation, each together with its own
/// version pair, keeps whether a check succeeds, how many mismatches it
/// reports, and which: only their order changes.
pub proof fn lemma_permutation_keeps_outcome(
    pallets: Seq<PalletInfo>,
    current: Seq<StorageVersion>,
    on_chain: Seq<StorageVersion>,
    sigma: Seq<int>,
)
    requires
        pallets.len() == current.len(),
        current.len() == on_chain.len(),
        is_permutation(sigma, current.len()),
    ensures
        all_consistent(permute(pallets, sigma), permute(current, sigma), permute(on_chain, sigma))
            == all_consistent(pallets, current, on_chain),
        mismatches(permute(pallets, sigma), permute(current, sigma), permute(on_chain, sigma)).len()
            == mismatches(pallets, current, on_chain).len(),
        mismatches(
            permute(pallets, sigma),
            permute(current, sigma),
            permute(on_chain, sigma),
        ).to_multiset() == mismatches(pallets, current, on_chain).to_multiset(),
{
    let n = current.len();
    let (p2, c2, o2) = (permute(pallets, sigma), permute(current, sigma), permute(on_chain, sigma));
    assert(compared_len(p2, c2, o2) == n);
    assert(compared_len(pallets, current, on_chain) == n);
    if all_consistent(pallets, current, on_chain) {
        assert forall|j: int| 0 <= j < n implies #[trigger] o2[j] == c2[j] by {
            assert(on_chain[sigma[j]] == current[sigma[j]]);
        }
    }
    if all_consistent(p2, c2, o2) {
        assert forall|i: int| 0 <= i < n implies #[trigger] on_chain[i] == current[i] by {
            assert(sigma.contains(i));
            let j = choose|j: int| 0 <= j < n && sigma[j] == i;
            assert(o2[j] == c2[j]);
        }
    }
    lemma_mismatches_upto_positions(pallets, current, on_chain, n);
    lemma_mismatches_upto_positions(p2, c2, o2, n);
    let pos = mismatched_positions(current, on_chain, n);
    let pos2 = mismatched_positions(c2, o2, n);
    let f = |j: int| sigma[j];
    assert forall|i: int| pos2.map(f).contains(i) <==> pos.contains(i) by {
        if pos.contains(i) {
            assert(sigma.contains(i));
            let j = choose|j: int| 0 <= j < n && sigma[j] == i;
            assert(pos2.contains(j) && f(j) == i);
        }
    }
    assert(pos2.map(f) =~= pos);
    lemma_map_size(pos2, pos, f);
    assert forall|m: Mismatch|
        #[trigger] mismatches(p2, c2, o2).to_multiset().count(m) == mismatches(
            pallets,
            current,
            on_chain,
        ).to_multiset().count(m) by {
        lemma_count_upto(pallets, current, on_chain, n, m);
        lemma_count_upto(p2, c2, o2, n, m);
        let q = positions_of(pallets, current, on_chain, n, m);
        let q2 = positions_of(p2, c2, o2, n, m);
        assert forall|i: int| q2.map(f).contains(i) <==> q.contains(i) by {
            if q.contains(i) {
                assert(sigma.contains(i));
                let j = choose|j: int| 0 <= j < n && sigma[j] == i;
                assert(mismatch_at(p2, c2, o2, j) == mismatch_at(pallets, current, on_chain, i));
                assert(q2.contains(j) && f(j) == i);
            }
            if q2.map(f).contains(i) {
                let j = choose|j: int| q2.contains(j) && f(j) == i;
                assert(mismatch_at(p2, c2, o2, j) == mismatch_at(pallets, current, on_chain, i));
            }
        }
        assert(q2.map(f) =~= q);
        lemma_map_size(q2, q, f);
    }
    assert(mismatches(p2, c2, o2).to_multiset() =~= mismatches(
        pallets,
        current,
        on_chain,
    ).to_multiset());
}

} // verus!
