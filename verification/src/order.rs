//! The order of the devices in a report: by their ordinals, devices
//! without an ordinal last, and devices that are alike in this in the
//! order in which they were found.

use vstd::prelude::*;
use crate::gpu::{DeviceSnapshot, GPUStats};
use crate::pids::snapshots;

verus! {

/// By what a device is ordered: its ordinal, or a number above every
/// ordinal where it gives none.
pub open spec fn rank(index: Option<u32>) -> int {
    match index {
        Some(i) => i as int,
        None => 0x1_0000_0000,
    }
}

/// Whether the ranks of the devices never fall.
pub open spec fn ascending(devices: Seq<DeviceSnapshot>) -> bool {
    forall|i: int, j: int|
        0 <= i < j < devices.len() ==> rank(devices[i].index) <= rank(devices[j].index)
}

/// How many devices at the front have a rank that is not above `key`.
pub open spec fn place(devices: Seq<DeviceSnapshot>, key: int) -> int
    decreases devices.len(),
{
    if devices.len() == 0 || rank(devices[0].index) > key {
        0
    } else {
        1 + place(devices.drop_first(), key)
    }
}

/// The devices by their ranks: each device, taken in the order in which
/// it was found, goes behind those whose rank is not above its own.
pub open spec fn by_index(devices: Seq<DeviceSnapshot>) -> Seq<DeviceSnapshot>
    decreases devices.len(),
{
    if devices.len() == 0 {
        Seq::empty()
    } else {
        let front = by_index(devices.drop_last());
        front.insert(place(front, rank(devices.last().index)), devices.last())
    }
}

/// The place is within the list; no device before it has a rank above the
/// key, and the device at it has one.
pub proof fn lemma_place(devices: Seq<DeviceSnapshot>, key: int)
    ensures
        0 <= place(devices, key) <= devices.len(),
        forall|k: int|
            0 <= k < place(devices, key) ==> rank((#[trigger] devices[k]).index) <= key,
        place(devices, key) < devices.len() ==> rank(devices[place(devices, key)].index) > key,
    decreases devices.len(),
{
    if devices.len() == 0 || rank(devices[0].index) > key {
    } else {
        let rest = devices.drop_first();
        lemma_place(rest, key);
        assert forall|k: int| 0 <= k < place(devices, key) implies rank(
            (#[trigger] devices[k]).index,
        ) <= key by {
            if k > 0 {
                assert(devices[k] == rest[k - 1]);
            }
        }
        if place(devices, key) < devices.len() {
            assert(devices[place(devices, key)] == rest[place(rest, key)]);
        }
    }
}

/// Where no device has a rank above the key, the place is the end.
pub proof fn lemma_place_at_end(devices: Seq<DeviceSnapshot>, key: int)
    requires
        forall|k: int| 0 <= k < devices.len() ==> rank((#[trigger] devices[k]).index) <= key,
    ensures
        place(devices, key) == devices.len(),
    decreases devices.len(),
{
    if devices.len() > 0 {
        let rest = devices.drop_first();
        assert forall|k: int| 0 <= k < rest.len() implies rank((#[trigger] rest[k]).index)
            <= key by {
            assert(rest[k] == devices[k + 1]);
        }
        lemma_place_at_end(rest, key);
    }
}

/// A device put at its place into an ascending list leaves it ascending.
pub proof fn lemma_insert_keeps_ascending(devices: Seq<DeviceSnapshot>, d: DeviceSnapshot)
    requires
        ascending(devices),
    ensures
        ascending(devices.insert(place(devices, rank(d.index)), d)),
{
    lemma_place(devices, rank(d.index));
    let p = place(devices, rank(d.index));
    let after = devices.insert(p, d);
    assert forall|i: int, j: int| 0 <= i < j < after.len() implies rank(after[i].index) <= rank(
        after[j].index,
    ) by {
        if j < p {
            assert(after[i] == devices[i] && after[j] == devices[j]);
        } else if j == p {
            assert(after[i] == devices[i]);
        } else if i < p {
            assert(after[i] == devices[i] && after[j] == devices[j - 1]);
            assert(rank(devices[p].index) <= rank(devices[j - 1].index) || p == j - 1);
        } else if i == p {
            assert(after[j] == devices[j - 1]);
            assert(rank(devices[p].index) <= rank(devices[j - 1].index) || p == j - 1);
        } else {
            assert(after[i] == devices[i - 1] && after[j] == devices[j - 1]);
        }
    }
}

/// The devices by their ranks are the same devices, none lost and none
/// added, and their ranks never fall.
pub proof fn lemma_by_index_sorts(devices: Seq<DeviceSnapshot>)
    ensures
        ascending(by_index(devices)),
        by_index(devices).len() == devices.len(),
        by_index(devices).to_multiset() == devices.to_multiset(),
    decreases devices.len(),
{
    broadcast use vstd::seq_lib::group_to_multiset_ensures;

    if devices.len() == 0 {
        assert(by_index(devices) =~= devices);
    } else {
        let rest = devices.drop_last();
        let d = devices.last();
        lemma_by_index_sorts(rest);
        let front = by_index(rest);
        lemma_place(front, rank(d.index));
        lemma_insert_keeps_ascending(front, d);
        let p = place(front, rank(d.index));
        let out = front.insert(p, d);
        assert(out.remove(p) =~= front);
        assert(out[p] == d);
        assert(out.to_multiset().remove(d) =~= front.to_multiset());
        assert(out.to_multiset().count(d) > 0) by {
            assert(out.contains(d));
        }
        assert(out.to_multiset() =~= front.to_multiset().insert(d));
        assert(devices =~= rest.push(d));
        assert(devices.to_multiset() =~= rest.to_multiset().insert(d));
    }
}

/// Devices whose ranks never fall stay as they are.
pub proof fn lemma_ascending_devices_stay(devices: Seq<DeviceSnapshot>)
    requires
        ascending(devices),
    ensures
        by_index(devices) == devices,
    decreases devices.len(),
{
    if devices.len() == 0 {
        assert(by_index(devices) =~= devices);
    } else {
        let rest = devices.drop_last();
        let d = devices.last();
        assert(ascending(rest)) by {
            assert forall|i: int, j: int| 0 <= i < j < rest.len() implies rank(rest[i].index)
                <= rank(rest[j].index) by {
                assert(rest[i] == devices[i] && rest[j] == devices[j]);
            }
        }
        lemma_ascending_devices_stay(rest);
        assert forall|k: int| 0 <= k < rest.len() implies rank((#[trigger] rest[k]).index)
            <= rank(d.index) by {
            assert(rest[k] == devices[k]);
            assert(rank(devices[k].index) <= rank(devices[devices.len() - 1].index));
        }
        lemma_place_at_end(rest, rank(d.index));
        assert(rest.insert(rest.len() as int, d) =~= devices);
    }
}

/// By what a device is ordered.
pub fn rank_of(index: Option<u32>) -> (r: u64)
    ensures
        r == rank(index),
{
    match index {
        Some(i) => i as u64,
        None => 0x1_0000_0000,
    }
}

/// Puts the device at its place into the list.
pub fn insert_device(sorted: &mut Vec<GPUStats>, gpu: GPUStats)
    ensures
        snapshots(final(sorted)@) == snapshots(old(sorted)@).insert(
            place(snapshots(old(sorted)@), rank(gpu@.index)),
            gpu@,
        ),
{
    let key = rank_of(gpu.index());
    let ghost before = snapshots(sorted@);
    let mut at: usize = 0;
    assert(before.skip(0) =~= before);
    while at < sorted.len() && rank_of(sorted[at].index()) <= key
        invariant
            at <= sorted@.len(),
            sorted@ == old(sorted)@,
            before == snapshots(sorted@),
            place(before, key as int) == at + place(before.skip(at as int), key as int),
        decreases sorted@.len() - at,
    {
        assert(before.skip(at as int).drop_first() =~= before.skip(at + 1));
        at += 1;
    }
    proof {
        if at < sorted@.len() {
            assert(before.skip(at as int)[0] == before[at as int]);
        }
        lemma_place(before, key as int);
    }
    sorted.insert(at, gpu);
    assert(snapshots(sorted@) =~= before.insert(at as int, gpu@));
}

/// Puts the devices in the order of their ordinals, devices without an
/// ordinal last. Devices that are alike in this keep the order in which
/// they were found.
pub fn sort_by_index(gpus: Vec<GPUStats>) -> (sorted: Vec<GPUStats>)
    ensures
        snapshots(sorted@) == by_index(snapshots(gpus@)),
        ascending(snapshots(sorted@)),
{
    let ghost all = snapshots(gpus@);
    let mut rest = gpus;
    let mut sorted: Vec<GPUStats> = Vec::new();
    let ghost mut done: int = 0;
    assert(snapshots(sorted@) =~= by_index(all.take(0)));
    assert(snapshots(rest@) =~= all.skip(0));
    while rest.len() > 0
        invariant
            0 <= done <= all.len(),
            snapshots(rest@) == all.skip(done),
            snapshots(sorted@) == by_index(all.take(done)),
        decreases rest@.len(),
    {
        let ghost was = snapshots(rest@);
        let ghost held = rest@;
        let gpu = rest.remove(0);
        proof {
            assert(was.len() == all.len() - done);
            assert(gpu@ == was[0]);
            assert(was[0] == all.skip(done)[0]);
            assert(rest@ == held.remove(0));
            assert forall|k: int| 0 <= k < rest@.len() implies snapshots(rest@)[k] == all.skip(
                done + 1,
            )[k] by {
                assert(rest@[k] == held[k + 1]);
                assert(was[k + 1] == all.skip(done)[k + 1]);
            }
            assert(snapshots(rest@) =~= all.skip(done + 1));
            assert(all.take(done + 1).drop_last() =~= all.take(done));
            assert(all.take(done + 1).last() == all[done]);
        }
        insert_device(&mut sorted, gpu);
        proof {
            done = done + 1;
        }
    }
    proof {
        assert(done == all.len()) by {
            assert(snapshots(rest@).len() == 0);
        }
        assert(all.take(done) =~= all);
        lemma_by_index_sorts(all);
    }
    sorted
}

} // verus!
