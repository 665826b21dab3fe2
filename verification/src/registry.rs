//! The registry that lists, for each data type, the schedulers made for it.

use vstd::prelude::*;

verus! {

/// The schedulers registered for `key` in `targets`, none if it is unknown.
pub open spec fn targets_of(targets: Map<u64, Seq<usize>>, key: u64) -> Seq<usize> {
    if targets.contains_key(key) {
        targets[key]
    } else {
        Seq::empty()
    }
}

/// Scheduler `x` is listed under some type.
pub open spec fn registered(targets: Map<u64, Seq<usize>>, x: int) -> bool {
    exists|k: u64, j: int|
        targets.contains_key(k) && 0 <= j < targets[k].len() && #[trigger] targets[k][j] == x
}

/// The lists of `targets` split the schedulers `0..n` between the types:
/// every list is non-empty and increasing, names only schedulers below `n`,
/// every scheduler below `n` is listed, and no scheduler under two types.
pub open spec fn registry_partition(targets: Map<u64, Seq<usize>>, n: int) -> bool {
    &&& forall|k: u64| #[trigger] targets.contains_key(k) ==> targets[k].len() > 0
    &&& forall|k: u64, i: int, j: int|
        targets.contains_key(k) && 0 <= i < j < targets[k].len() ==> #[trigger] targets[k][i]
            < #[trigger] targets[k][j]
    &&& forall|k: u64, j: int|
        targets.contains_key(k) && 0 <= j < targets[k].len() ==> #[trigger] targets[k][j] < n
    &&& forall|x: int| 0 <= x < n ==> #[trigger] registered(targets, x)
    &&& forall|k1: u64, k2: u64, j1: int, j2: int|
        targets.contains_key(k1) && targets.contains_key(k2) && 0 <= j1 < targets[k1].len() && 0
            <= j2 < targets[k2].len() && #[trigger] targets[k1][j1] == #[trigger] targets[k2][j2]
            ==> k1 == k2
}

/// Adding scheduler `n` under `key` keeps the registry a partition of the
/// schedulers, now `0..n + 1`, and puts `n` last in the list of `key`.
pub proof fn lemma_add_keeps_partition(targets: Map<u64, Seq<usize>>, n: usize, key: u64)
    requires
        registry_partition(targets, n as int),
    ensures
        registry_partition(
            targets.insert(key, targets_of(targets, key).push(n)),
            n + 1,
        ),
        targets.insert(key, targets_of(targets, key).push(n))[key].last() == n,
{
    let list = targets_of(targets, key).push(n);
    let t2 = targets.insert(key, list);
    assert forall|k: u64| #[trigger] t2.contains_key(k) implies t2[k].len() > 0 by {}
    assert forall|k: u64, j: int| t2.contains_key(k) && 0 <= j < t2[k].len() implies #[trigger] t2[k][j]
        < n + 1 by {
        if k == key && j < list.len() - 1 {
            assert(targets[key][j] == t2[k][j]);
        }
    }
    assert forall|k: u64, i: int, j: int| t2.contains_key(k) && 0 <= i < j < t2[k].len() implies #[trigger] t2[k][i]
        < #[trigger] t2[k][j] by {
        if k == key {
            if j == list.len() - 1 {
                assert(targets[key][i] == t2[k][i]);
            } else {
                assert(targets[key][i] == t2[k][i]);
                assert(targets[key][j] == t2[k][j]);
            }
        }
    }
    assert forall|x: int| 0 <= x < n + 1 implies #[trigger] registered(t2, x) by {
        if x == n {
            assert(t2[key][list.len() - 1] == x);
        } else {
            assert(registered(targets, x));
            let (k, j) = choose|k: u64, j: int|
                targets.contains_key(k) && 0 <= j < targets[k].len() && #[trigger] targets[k][j] == x;
            if k == key {
                assert(t2[key][j] == x);
            } else {
                assert(t2[k][j] == x);
            }
        }
    }
    assert forall|k1: u64, k2: u64, j1: int, j2: int|
        t2.contains_key(k1) && t2.contains_key(k2) && 0 <= j1 < t2[k1].len() && 0 <= j2
            < t2[k2].len() && #[trigger] t2[k1][j1] == #[trigger] t2[k2][j2] implies k1 == k2 by {
        let a = t2[k1][j1];
        if k1 != k2 {
            if k1 == key && j1 == list.len() - 1 {
                assert(targets[k2][j2] == a);
            } else if k2 == key && j2 == list.len() - 1 {
                assert(targets[k1][j1] == a);
            } else {
                assert(targets[k1][j1] == a);
                assert(targets[k2][j2] == a);
            }
        }
    }
}

} // verus!
