//! Which devices are throttled, and why: one entry, and one line of the
//! report, for each reason that is active on a device. A device that does
//! not tell why it is throttled has one line that says so.

use vstd::prelude::*;
use vstd::string::*;
use crate::gpu::{ordinal_string, ordinal_text, DeviceSnapshot, GPUStats};
use crate::pids::snapshots;
use crate::throttle::{lemma_reasons_are_the_active_flags, ThrottleFlags};

verus! {

/// The entries of a device with the ordinal `index` on which `flags` are
/// active: the ordinal with the name of each active reason, in reporting
/// order.
pub open spec fn entries(index: Option<u32>, flags: ThrottleFlags) -> Seq<(Option<u32>, Seq<char>)> {
    let reasons = flags.spec_reasons();
    Seq::new(reasons.len(), |i: int| (index, reasons[i].spec_name()))
}

/// The entries of one device, or `None` where the device does not tell
/// why it is throttled.
pub open spec fn diagnosis(d: DeviceSnapshot) -> Option<Seq<(Option<u32>, Seq<char>)>> {
    match d.throttle_reasons {
        Some(flags) => Some(entries(d.index, flags)),
        None => None,
    }
}

/// The line of one entry.
pub open spec fn diagnosis_line(entry: (Option<u32>, Seq<char>)) -> Seq<char> {
    "GPU "@ + ordinal_text(entry.0) + " is throttling due to: "@ + entry.1
}

/// The line of a device that does not tell why it is throttled.
pub open spec fn unknown_line(index: Option<u32>) -> Seq<char> {
    "GPU "@ + ordinal_text(index) + " throttle reasons: N/A"@
}

/// The lines of one device: one for each of its entries, or the one line
/// that says that its reasons are not known.
pub open spec fn device_lines(d: DeviceSnapshot) -> Seq<Seq<char>> {
    match diagnosis(d) {
        Some(found) => Seq::new(found.len(), |i: int| diagnosis_line(found[i])),
        None => seq![unknown_line(d.index)],
    }
}

/// The lines of the devices, device after device.
pub open spec fn bottleneck_lines(devices: Seq<DeviceSnapshot>) -> Seq<Seq<char>>
    decreases devices.len(),
{
    if devices.len() == 0 {
        Seq::empty()
    } else {
        bottleneck_lines(devices.drop_last()) + device_lines(devices.last())
    }
}

/// The lines as one text, each ended by a line feed.
pub open spec fn lines_text(lines: Seq<Seq<char>>) -> Seq<char>
    decreases lines.len(),
{
    if lines.len() == 0 {
        Seq::empty()
    } else {
        lines_text(lines.drop_last()) + lines.last() + "\n"@
    }
}

/// The bottleneck section: its title, then the lines of the devices.
pub open spec fn bottleneck_text(devices: Seq<DeviceSnapshot>) -> Seq<char> {
    "\nBottleneck diagnosis:\n"@ + lines_text(bottleneck_lines(devices))
}

/// The number of lines of one device: that of its active reasons, or one
/// where its reasons are not known.
pub open spec fn line_count(d: DeviceSnapshot) -> nat {
    match d.throttle_reasons {
        Some(flags) => flags.count(),
        None => 1,
    }
}

/// The number of lines of all the devices.
pub open spec fn expected_lines(devices: Seq<DeviceSnapshot>) -> nat
    decreases devices.len(),
{
    if devices.len() == 0 {
        0
    } else {
        expected_lines(devices.drop_last()) + line_count(devices.last())
    }
}

/// The entries as plain values, in order.
pub open spec fn entries_view(found: Seq<(Option<u32>, String)>) -> Seq<(Option<u32>, Seq<char>)> {
    Seq::new(found.len(), |i: int| (found[i].0, found[i].1@))
}

/// A device whose reasons are known has as many lines as it has active
/// reasons: none where it is not throttled. Each entry names the device
/// and a reason that is active on it.
pub proof fn lemma_one_line_for_each_active_reason(d: DeviceSnapshot, flags: ThrottleFlags)
    requires
        d.throttle_reasons == Some(flags),
    ensures
        device_lines(d).len() == flags.count(),
        diagnosis(d) == Some(entries(d.index, flags)),
        entries(d.index, flags).len() == flags.count(),
        flags.spec_is_empty() <==> device_lines(d).len() == 0,
        forall|i: int|
            0 <= i < entries(d.index, flags).len() ==> (#[trigger] entries(d.index, flags)[i]).0
                == d.index && flags.has(flags.spec_reasons()[i]),
{
    lemma_reasons_are_the_active_flags(flags);
    let reasons = flags.spec_reasons();
    assert forall|i: int| 0 <= i < entries(d.index, flags).len() implies (#[trigger] entries(
        d.index,
        flags,
    )[i]).0 == d.index && flags.has(reasons[i]) by {
        assert(reasons.contains(reasons[i]));
    }
}

/// A device that does not tell why it is throttled has the one line that
/// says so, and no other.
pub proof fn lemma_unknown_reasons_have_one_line(d: DeviceSnapshot)
    requires
        d.throttle_reasons.is_none(),
    ensures
        device_lines(d) == seq![unknown_line(d.index)],
        device_lines(d).len() == 1,
{
}

/// A device that is known not to be throttled adds nothing to the
/// section, wherever it stands among the devices.
pub proof fn lemma_unthrottled_device_adds_nothing(
    before: Seq<DeviceSnapshot>,
    d: DeviceSnapshot,
    after: Seq<DeviceSnapshot>,
)
    requires
        d.throttle_reasons matches Some(flags) && flags.spec_is_empty(),
    ensures
        bottleneck_lines(before + seq![d] + after) == bottleneck_lines(before + after),
        bottleneck_text(before + seq![d] + after) == bottleneck_text(before + after),
    decreases after.len(),
{
    lemma_one_line_for_each_active_reason(d, d.throttle_reasons->0);
    if after.len() == 0 {
        let with = before + seq![d] + after;
        assert(with.drop_last() =~= before);
        assert(with.last() == d);
        assert(before + after =~= before);
        assert(device_lines(d) =~= Seq::<Seq<char>>::empty());
        assert(bottleneck_lines(before) + device_lines(d) =~= bottleneck_lines(before));
    } else {
        let rest = after.drop_last();
        lemma_unthrottled_device_adds_nothing(before, d, rest);
        let with = before + seq![d] + after;
        let without = before + after;
        assert(with.drop_last() =~= before + seq![d] + rest);
        assert(without.drop_last() =~= before + rest);
        assert(with.last() == after.last());
        assert(without.last() == after.last());
    }
}

/// The section has one line for each active reason of each device whose
/// reasons are known, and one line for each device whose reasons are not.
pub proof fn lemma_line_count(devices: Seq<DeviceSnapshot>)
    ensures
        bottleneck_lines(devices).len() == expected_lines(devices),
    decreases devices.len(),
{
    if devices.len() > 0 {
        lemma_line_count(devices.drop_last());
        let d = devices.last();
        match d.throttle_reasons {
            Some(flags) => {
                lemma_one_line_for_each_active_reason(d, flags);
            },
            None => {
                lemma_unknown_reasons_have_one_line(d);
            },
        }
    }
}

impl GPUStats {
    /// The entries of the device: its ordinal with the name of each active
    /// reason, in reporting order. A device that is not throttled has
    /// none. Of a device that does not tell why it is throttled there is
    /// no list.
    pub fn diagnose(&self) -> (out: Option<Vec<(Option<u32>, String)>>)
        ensures
            match out {
                Some(found) => diagnosis(self@) == Some(entries_view(found@)),
                None => diagnosis(self@).is_none(),
            },
            out matches Some(found) ==> self@.throttle_reasons matches Some(flags) && found@.len()
                == flags.count(),
    {
        let flags = match self.throttle_reasons() {
            Some(flags) => flags,
            None => {
                return None;
            },
        };
        let reasons = flags.reasons();
        let index = self.index();
        let mut found: Vec<(Option<u32>, String)> = Vec::new();
        let mut i: usize = 0;
        while i < reasons.len()
            invariant
                i <= reasons@.len(),
                reasons@ == flags.spec_reasons(),
                index == self@.index,
                found@.len() == i,
                forall|k: int|
                    0 <= k < i ==> (#[trigger] found@[k]).0 == index && found@[k].1@
                        == reasons@[k].spec_name(),
            decreases reasons@.len() - i,
        {
            found.push((index, reasons[i].name()));
            i += 1;
        }
        assert(entries_view(found@) =~= entries(self@.index, flags));
        Some(found)
    }
}

/// The line of one entry.
pub fn diagnosis_line_string(index: Option<u32>, reason: &str) -> (out: String)
    ensures
        out@ == diagnosis_line((index, reason@)),
{
    let mut out = String::from_str("GPU ");
    let ordinal = ordinal_string(index);
    out.append(ordinal.as_str());
    out.append(" is throttling due to: ");
    out.append(reason);
    out
}

/// The line of a device that does not tell why it is throttled.
pub fn unknown_line_string(index: Option<u32>) -> (out: String)
    ensures
        out@ == unknown_line(index),
{
    let mut out = String::from_str("GPU ");
    let ordinal = ordinal_string(index);
    out.append(ordinal.as_str());
    out.append(" throttle reasons: N/A");
    out
}

/// Appends the lines of one device to the section.
fn push_device_lines(out: &mut String, gpu: &GPUStats)
    ensures
        final(out)@ == old(out)@ + lines_text(device_lines(gpu@)),
{
    let ghost here = device_lines(gpu@);
    match gpu.diagnose() {
        Some(found) => {
            let mut i: usize = 0;
            assert(old(out)@ + lines_text(here.take(0)) =~= old(out)@);
            while i < found.len()
                invariant
                    i <= found@.len(),
                    diagnosis(gpu@) == Some(entries_view(found@)),
                    here == device_lines(gpu@),
                    out@ == old(out)@ + lines_text(here.take(i as int)),
                decreases found@.len() - i,
            {
                let line = diagnosis_line_string(found[i].0, found[i].1.as_str());
                proof {
                    let next = here.take(i + 1);
                    assert(next.drop_last() =~= here.take(i as int));
                    assert(next.last() == here[i as int]);
                    assert(entries_view(found@)[i as int] == (found@[i as int].0, found@[i as int].1@));
                    assert(here[i as int] == line@);
                }
                out.append(line.as_str());
                out.append("\n");
                assert(out@ =~= old(out)@ + lines_text(here.take(i + 1)));
                i += 1;
            }
            assert(here.take(i as int) =~= here);
        },
        None => {
            let line = unknown_line_string(gpu.index());
            proof {
                assert(here =~= seq![line@]);
                assert(here.drop_last() =~= Seq::<Seq<char>>::empty());
                assert(lines_text(here.drop_last()) =~= Seq::<char>::empty());
            }
            out.append(line.as_str());
            out.append("\n");
            assert(out@ =~= old(out)@ + lines_text(here));
        },
    }
}

/// The bottleneck section of the devices: the title, then one line for
/// each active reason of each device. A device that is not throttled has
/// no line; one that does not tell why it is throttled has the one line
/// that says so.
pub fn bottleneck_section(gpus: &Vec<GPUStats>) -> (out: String)
    ensures
        out@ == bottleneck_text(snapshots(gpus@)),
{
    let mut out = String::from_str("\nBottleneck diagnosis:\n");
    let ghost title = out@;
    let ghost devices = snapshots(gpus@);
    let mut d: usize = 0;
    assert(title + lines_text(bottleneck_lines(devices.take(0))) =~= title);
    while d < gpus.len()
        invariant
            d <= gpus@.len(),
            devices == snapshots(gpus@),
            title == "\nBottleneck diagnosis:\n"@,
            out@ == title + lines_text(bottleneck_lines(devices.take(d as int))),
        decreases gpus@.len() - d,
    {
        let ghost done = bottleneck_lines(devices.take(d as int));
        let ghost here = device_lines(devices[d as int]);
        push_device_lines(&mut out, &gpus[d]);
        proof {
            assert(devices.take(d + 1).drop_last() =~= devices.take(d as int));
            assert(devices.take(d + 1).last() == devices[d as int]);
            lemma_lines_text_add(done, here);
            assert(out@ =~= title + lines_text(done + here));
        }
        d += 1;
    }
    assert(devices.take(d as int) =~= devices);
    out
}

/// The text of lines put behind others is the text of the others, then
/// that of the lines.
pub proof fn lemma_lines_text_add(front: Seq<Seq<char>>, back: Seq<Seq<char>>)
    ensures
        lines_text(front + back) == lines_text(front) + lines_text(back),
    decreases back.len(),
{
    if back.len() == 0 {
        assert(front + back =~= front);
        assert(lines_text(front) + lines_text(back) =~= lines_text(front));
    } else {
        let all = front + back;
        assert(all.drop_last() =~= front + back.drop_last());
        assert(all.last() == back.last());
        lemma_lines_text_add(front, back.drop_last());
        assert(lines_text(all) =~= lines_text(front) + lines_text(back));
    }
}

} // verus!
