//! The process ids of a run: each id that some device reports, once, in
//! increasing order.

use vstd::prelude::*;
use crate::gpu::{DeviceSnapshot, GPUStats};

verus! {

/// Whether each entry is less than the next: the list is sorted and holds
/// nothing twice.
pub open spec fn strictly_increasing(s: Seq<u32>) -> bool {
    forall|i: int, j: int| 0 <= i < j < s.len() ==> s[i] < s[j]
}

/// The snapshots of the devices, in order.
pub open spec fn snapshots(devices: Seq<GPUStats>) -> Seq<DeviceSnapshot> {
    Seq::new(devices.len(), |i: int| devices[i]@)
}

/// Whether the device reports the process `pid`. A device that does not
/// tell its processes reports none.
pub open spec fn reports(device: DeviceSnapshot, pid: u32) -> bool {
    device.process_ids matches Some(ids) && ids.contains(pid)
}

/// Whether some device reports the process `pid`.
pub open spec fn seen(devices: Seq<DeviceSnapshot>, pid: u32) -> bool {
    exists|d: int| 0 <= d < devices.len() && reports(#[trigger] devices[d], pid)
}

/// Whether `ids` are the process ids of the devices: each id that some
/// device reports, once, in increasing order.
pub open spec fn is_pid_set(ids: Seq<u32>, devices: Seq<DeviceSnapshot>) -> bool {
    &&& strictly_increasing(ids)
    &&& forall|p: u32| ids.contains(p) <==> seen(devices, p)
}

/// Two increasing lists with the same entries are the same list.
pub proof fn lemma_increasing_lists_are_equal(a: Seq<u32>, b: Seq<u32>)
    requires
        strictly_increasing(a),
        strictly_increasing(b),
        forall|p: u32| a.contains(p) <==> b.contains(p),
    ensures
        a == b,
    decreases a.len(),
{
    if a.len() == 0 {
        if b.len() > 0 {
            assert(b.contains(b[0]));
        }
        assert(a =~= b);
    } else {
        // the largest entry of each list is its last
        let x = a.last();
        assert(a.contains(x));
        assert(b.contains(x));
        let y = b.last();
        assert(b.contains(y));
        assert(a.contains(y));
        let ia = choose|i: int| 0 <= i < a.len() && a[i] == y;
        let ib = choose|i: int| 0 <= i < b.len() && b[i] == x;
        assert(x == y) by {
            if ia < a.len() - 1 {
                assert(a[ia] < a[a.len() - 1]);
            }
            if ib < b.len() - 1 {
                assert(b[ib] < b[b.len() - 1]);
            }
        }
        let a0 = a.drop_last();
        let b0 = b.drop_last();
        assert forall|p: u32| a0.contains(p) <==> b0.contains(p) by {
            if a0.contains(p) {
                let i = choose|i: int| 0 <= i < a0.len() && a0[i] == p;
                assert(a[i] == p);
                assert(a[i] < a[a.len() - 1]);
                assert(a.contains(p));
                let j = choose|j: int| 0 <= j < b.len() && b[j] == p;
                assert(j < b.len() - 1);
                assert(b0[j] == p);
            }
            if b0.contains(p) {
                let i = choose|i: int| 0 <= i < b0.len() && b0[i] == p;
                assert(b[i] == p);
                assert(b[i] < b[b.len() - 1]);
                assert(b.contains(p));
                let j = choose|j: int| 0 <= j < a.len() && a[j] == p;
                assert(j < a.len() - 1);
                assert(a0[j] == p);
            }
        }
        assert(strictly_increasing(a0)) by {
            assert forall|i: int, j: int| 0 <= i < j < a0.len() implies a0[i] < a0[j] by {
                assert(a[i] < a[j]);
            }
        }
        assert(strictly_increasing(b0)) by {
            assert forall|i: int, j: int| 0 <= i < j < b0.len() implies b0[i] < b0[j] by {
                assert(b[i] < b[j]);
            }
        }
        lemma_increasing_lists_are_equal(a0, b0);
        assert(a =~= a0.push(x));
        assert(b =~= b0.push(y));
    }
}

/// Puts `pid` into the increasing list `set`, unless it is there.
pub fn insert_pid(set: &mut Vec<u32>, pid: u32)
    requires
        strictly_increasing(old(set)@),
    ensures
        strictly_increasing(final(set)@),
        forall|p: u32| final(set)@.contains(p) <==> (old(set)@.contains(p) || p == pid),
{
    let mut i: usize = 0;
    while i < set.len() && set[i] < pid
        invariant
            i <= set@.len(),
            set@ == old(set)@,
            forall|k: int| 0 <= k < i ==> set@[k] < pid,
        decreases set@.len() - i,
    {
        i += 1;
    }
    if i < set.len() && set[i] == pid {
        assert(set@.contains(pid));
        return;
    }
    let ghost before = set@;
    set.insert(i, pid);
    proof {
        let after = set@;
        assert forall|a: int, b: int| 0 <= a < b < after.len() implies after[a] < after[b] by {
            if b < i {
                assert(after[a] == before[a] && after[b] == before[b]);
            } else if b == i {
                assert(after[a] == before[a]);
            } else if a < i {
                assert(after[a] == before[a] && after[b] == before[b - 1]);
                assert(before[a] < before[b - 1] || a == b - 1);
                if i < before.len() {
                    assert(before[i as int] <= before[b - 1]) by {
                        if (i as int) < b - 1 {
                            assert(before[i as int] < before[b - 1]);
                        }
                    }
                }
            } else if a == i {
                assert(after[b] == before[b - 1]);
                assert(before[i as int] <= before[b - 1]) by {
                    if (i as int) < b - 1 {
                        assert(before[i as int] < before[b - 1]);
                    }
                }
            } else {
                assert(after[a] == before[a - 1] && after[b] == before[b - 1]);
            }
        }
        assert forall|p: u32| after.contains(p) <==> (before.contains(p) || p == pid) by {
            if after.contains(p) {
                let k = choose|k: int| 0 <= k < after.len() && after[k] == p;
                if k < i {
                    assert(before[k] == p);
                } else if k > i {
                    assert(before[k - 1] == p);
                }
            }
            if before.contains(p) {
                let k = choose|k: int| 0 <= k < before.len() && before[k] == p;
                if k < i {
                    assert(after[k] == p);
                } else {
                    assert(after[k + 1] == p);
                }
            }
            if p == pid {
                assert(after[i as int] == p);
            }
        }
    }
}

/// Puts each of `ids` into the increasing list `set`.
pub fn insert_pids(set: &mut Vec<u32>, ids: &Vec<u32>)
    requires
        strictly_increasing(old(set)@),
    ensures
        strictly_increasing(final(set)@),
        forall|p: u32| final(set)@.contains(p) <==> (old(set)@.contains(p) || ids@.contains(p)),
{
    let mut k: usize = 0;
    while k < ids.len()
        invariant
            k <= ids@.len(),
            strictly_increasing(set@),
            forall|p: u32|
                set@.contains(p) <==> (old(set)@.contains(p) || ids@.take(k as int).contains(p)),
        decreases ids@.len() - k,
    {
        let ghost before = set@;
        insert_pid(set, ids[k]);
        proof {
            let done = ids@.take(k as int);
            let next = ids@.take(k + 1);
            assert forall|p: u32| next.contains(p) <==> (done.contains(p) || p == ids@[k as int]) by {
                if next.contains(p) {
                    let i = choose|i: int| 0 <= i < next.len() && next[i] == p;
                    if i < k {
                        assert(done[i] == p);
                    }
                }
                if done.contains(p) {
                    let i = choose|i: int| 0 <= i < done.len() && done[i] == p;
                    assert(next[i] == p);
                }
                if p == ids@[k as int] {
                    assert(next[k as int] == p);
                }
            }
        }
        k += 1;
    }
    assert(ids@.take(k as int) =~= ids@);
}

/// The process ids of the devices: each id that some device reports, once,
/// in increasing order.
pub fn unique_pids(devices: &Vec<GPUStats>) -> (ids: Vec<u32>)
    ensures
        is_pid_set(ids@, snapshots(devices@)),
{
    let mut ids: Vec<u32> = Vec::new();
    let mut d: usize = 0;
    let ghost all = snapshots(devices@);
    assert forall|p: u32| ids@.contains(p) <==> seen(all.take(0), p) by {}
    while d < devices.len()
        invariant
            d <= devices@.len(),
            all == snapshots(devices@),
            is_pid_set(ids@, all.take(d as int)),
        decreases devices@.len() - d,
    {
        let ghost before = ids@;
        let ghost here = all[d as int];
        assert(here == devices@[d as int]@);
        match devices[d].process_ids() {
            Some(reported) => {
                insert_pids(&mut ids, reported);
                assert(here.process_ids == Some(reported@));
                assert forall|p: u32| ids@.contains(p) <==> (before.contains(p) || reports(
                    here,
                    p,
                )) by {
                    assert(reports(here, p) == reported@.contains(p));
                    assert(ids@.contains(p) <==> (before.contains(p) || reported@.contains(p)));
                }
            },
            None => {
                assert(here.process_ids.is_none());
                assert forall|p: u32| ids@.contains(p) <==> (before.contains(p) || reports(
                    here,
                    p,
                )) by {}
            },
        }
        proof {
            let done = all.take(d as int);
            let next = all.take(d + 1);
            assert forall|p: u32| seen(next, p) <==> (seen(done, p) || reports(here, p)) by {
                if seen(next, p) {
                    let i = choose|i: int| 0 <= i < next.len() && reports(#[trigger] next[i], p);
                    if i < d {
                        assert(reports(done[i], p));
                    }
                }
                if seen(done, p) {
                    let i = choose|i: int| 0 <= i < done.len() && reports(#[trigger] done[i], p);
                    assert(reports(next[i], p));
                }
                if reports(here, p) {
                    assert(reports(next[d as int], p));
                }
            }
        }
        d += 1;
    }
    assert(all.take(d as int) =~= all);
    ids
}

} // verus!
