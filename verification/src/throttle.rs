//! Why a device runs below its nominal clocks: the named reasons and the
//! set of those that are active on one device.

use vstd::prelude::*;
use vstd::string::*;

verus! {

/// One reason for throttling, in the order in which reasons are reported.
#[derive(Clone, Copy, Debug, PartialEq, Eq, Structural)]
pub enum ThrottleReason {
    GpuIdle,
    ApplicationsClocksSetting,
    SwPowerCap,
    HwSlowdown,
    SyncBoost,
    SwThermalSlowdown,
    HwThermalSlowdown,
    HwPowerBrakeSlowdown,
    DisplayClockSetting,
}

/// The set of reasons that are active on one device. Empty means that the
/// device is not throttled.
#[derive(Clone, Copy, Debug, PartialEq, Eq, Structural)]
pub struct ThrottleFlags {
    pub gpu_idle: bool,
    pub applications_clocks_setting: bool,
    pub sw_power_cap: bool,
    pub hw_slowdown: bool,
    pub sync_boost: bool,
    pub sw_thermal_slowdown: bool,
    pub hw_thermal_slowdown: bool,
    pub hw_power_brake_slowdown: bool,
    pub display_clock_setting: bool,
}

/// Every reason, in reporting order.
pub open spec fn all_reasons() -> Seq<ThrottleReason> {
    seq![
        ThrottleReason::GpuIdle,
        ThrottleReason::ApplicationsClocksSetting,
        ThrottleReason::SwPowerCap,
        ThrottleReason::HwSlowdown,
        ThrottleReason::SyncBoost,
        ThrottleReason::SwThermalSlowdown,
        ThrottleReason::HwThermalSlowdown,
        ThrottleReason::HwPowerBrakeSlowdown,
        ThrottleReason::DisplayClockSetting,
    ]
}

/// A list that is strictly increasing in rank and stays below `bound`.
pub open spec fn ranked_below(s: Seq<ThrottleReason>, bound: nat) -> bool {
    &&& forall|i: int| 0 <= i < s.len() ==> (#[trigger] s[i]).rank() < bound
    &&& forall|i: int, j: int|
        0 <= i < j < s.len() ==> #[trigger] s[i].rank() < #[trigger] s[j].rank()
}

impl ThrottleReason {
    /// The place of the reason in the reporting order.
    pub open spec fn rank(self) -> nat {
        match self {
            ThrottleReason::GpuIdle => 0,
            ThrottleReason::ApplicationsClocksSetting => 1,
            ThrottleReason::SwPowerCap => 2,
            ThrottleReason::HwSlowdown => 3,
            ThrottleReason::SyncBoost => 4,
            ThrottleReason::SwThermalSlowdown => 5,
            ThrottleReason::HwThermalSlowdown => 6,
            ThrottleReason::HwPowerBrakeSlowdown => 7,
            ThrottleReason::DisplayClockSetting => 8,
        }
    }

    /// The name under which the reason is reported.
    pub open spec fn spec_name(self) -> Seq<char> {
        match self {
            ThrottleReason::GpuIdle => "GPU_IDLE"@,
            ThrottleReason::ApplicationsClocksSetting => "APPLICATIONS_CLOCKS_SETTING"@,
            ThrottleReason::SwPowerCap => "SW_POWER_CAP"@,
            ThrottleReason::HwSlowdown => "HW_SLOWDOWN"@,
            ThrottleReason::SyncBoost => "SYNC_BOOST"@,
            ThrottleReason::SwThermalSlowdown => "SW_THERMAL_SLOWDOWN"@,
            ThrottleReason::HwThermalSlowdown => "HW_THERMAL_SLOWDOWN"@,
            ThrottleReason::HwPowerBrakeSlowdown => "HW_POWER_BRAKE_SLOWDOWN"@,
            ThrottleReason::DisplayClockSetting => "DISPLAY_CLOCK_SETTING"@,
        }
    }

    /// The name under which the reason is reported.
    pub fn name(&self) -> (s: String)
        ensures
            s@ == self.spec_name(),
    {
        match self {
            ThrottleReason::GpuIdle => String::from_str("GPU_IDLE"),
            ThrottleReason::ApplicationsClocksSetting => String::from_str(
                "APPLICATIONS_CLOCKS_SETTING",
            ),
            ThrottleReason::SwPowerCap => String::from_str("SW_POWER_CAP"),
            ThrottleReason::HwSlowdown => String::from_str("HW_SLOWDOWN"),
            ThrottleReason::SyncBoost => String::from_str("SYNC_BOOST"),
            ThrottleReason::SwThermalSlowdown => String::from_str("SW_THERMAL_SLOWDOWN"),
            ThrottleReason::HwThermalSlowdown => String::from_str("HW_THERMAL_SLOWDOWN"),
            ThrottleReason::HwPowerBrakeSlowdown => String::from_str("HW_POWER_BRAKE_SLOWDOWN"),
            ThrottleReason::DisplayClockSetting => String::from_str("DISPLAY_CLOCK_SETTING"),
        }
    }
}

impl ThrottleFlags {
    /// Whether `r` is active.
    pub open spec fn has(self, r: ThrottleReason) -> bool {
        match r {
            ThrottleReason::GpuIdle => self.gpu_idle,
            ThrottleReason::ApplicationsClocksSetting => self.applications_clocks_setting,
            ThrottleReason::SwPowerCap => self.sw_power_cap,
            ThrottleReason::HwSlowdown => self.hw_slowdown,
            ThrottleReason::SyncBoost => self.sync_boost,
            ThrottleReason::SwThermalSlowdown => self.sw_thermal_slowdown,
            ThrottleReason::HwThermalSlowdown => self.hw_thermal_slowdown,
            ThrottleReason::HwPowerBrakeSlowdown => self.hw_power_brake_slowdown,
            ThrottleReason::DisplayClockSetting => self.display_clock_setting,
        }
    }

    /// Whether no reason is active.
    pub open spec fn spec_is_empty(self) -> bool {
        forall|r: ThrottleReason| !self.has(r)
    }

    /// The active reasons, in reporting order.
    pub open spec fn spec_reasons(self) -> Seq<ThrottleReason> {
        all_reasons().filter(|r: ThrottleReason| self.has(r))
    }

    /// The number of active reasons.
    pub open spec fn count(self) -> nat {
        self.spec_reasons().len()
    }

    /// The set without any active reason.
    pub open spec fn spec_empty() -> ThrottleFlags {
        ThrottleFlags {
            gpu_idle: false,
            applications_clocks_setting: false,
            sw_power_cap: false,
            hw_slowdown: false,
            sync_boost: false,
            sw_thermal_slowdown: false,
            hw_thermal_slowdown: false,
            hw_power_brake_slowdown: false,
            display_clock_setting: false,
        }
    }

    /// The set without any active reason.
    pub fn empty() -> (f: ThrottleFlags)
        ensures
            f == ThrottleFlags::spec_empty(),
            f.spec_is_empty(),
    {
        ThrottleFlags {
            gpu_idle: false,
            applications_clocks_setting: false,
            sw_power_cap: false,
            hw_slowdown: false,
            sync_boost: false,
            sw_thermal_slowdown: false,
            hw_thermal_slowdown: false,
            hw_power_brake_slowdown: false,
            display_clock_setting: false,
        }
    }

    /// Whether `r` is active.
    pub fn is_active(&self, r: ThrottleReason) -> (on: bool)
        ensures
            on == self.has(r),
    {
        match r {
            ThrottleReason::GpuIdle => self.gpu_idle,
            ThrottleReason::ApplicationsClocksSetting => self.applications_clocks_setting,
            ThrottleReason::SwPowerCap => self.sw_power_cap,
            ThrottleReason::HwSlowdown => self.hw_slowdown,
            ThrottleReason::SyncBoost => self.sync_boost,
            ThrottleReason::SwThermalSlowdown => self.sw_thermal_slowdown,
            ThrottleReason::HwThermalSlowdown => self.hw_thermal_slowdown,
            ThrottleReason::HwPowerBrakeSlowdown => self.hw_power_brake_slowdown,
            ThrottleReason::DisplayClockSetting => self.display_clock_setting,
        }
    }

    /// Whether no reason is active.
    pub fn is_empty(&self) -> (r: bool)
        ensures
            r == self.spec_is_empty(),
    {
        let r = !(self.gpu_idle || self.applications_clocks_setting || self.sw_power_cap
            || self.hw_slowdown || self.sync_boost || self.sw_thermal_slowdown
            || self.hw_thermal_slowdown || self.hw_power_brake_slowdown
            || self.display_clock_setting);
        proof {
            if !r {
                assert(self.has(ThrottleReason::GpuIdle) || self.has(
                    ThrottleReason::ApplicationsClocksSetting,
                ) || self.has(ThrottleReason::SwPowerCap) || self.has(ThrottleReason::HwSlowdown)
                    || self.has(ThrottleReason::SyncBoost) || self.has(
                    ThrottleReason::SwThermalSlowdown,
                ) || self.has(ThrottleReason::HwThermalSlowdown) || self.has(
                    ThrottleReason::HwPowerBrakeSlowdown,
                ) || self.has(ThrottleReason::DisplayClockSetting));
            }
        }
        r
    }

    /// The active reasons, in reporting order.
    pub fn reasons(&self) -> (out: Vec<ThrottleReason>)
        ensures
            out@ == self.spec_reasons(),
    {
        let all = every_reason();
        let ghost active = |r: ThrottleReason| self.has(r);
        let mut out: Vec<ThrottleReason> = Vec::new();
        let mut i: usize = 0;
        assert(all@.take(0).filter(active) =~= Seq::<ThrottleReason>::empty()) by {
            reveal(Seq::filter);
        }
        while i < all.len()
            invariant
                i <= all@.len(),
                all@ == all_reasons(),
                active == (|r: ThrottleReason| self.has(r)),
                out@ == all@.take(i as int).filter(active),
            decreases all@.len() - i,
        {
            let r = all[i];
            proof {
                assert(all@.take(i + 1) =~= all@.take(i as int).push(r));
                all@.take(i as int).lemma_filter_push(r, active);
            }
            if self.is_active(r) {
                out.push(r);
            }
            i += 1;
        }
        assert(all@.take(i as int) =~= all@);
        out
    }
}

/// Every reason, in reporting order.
pub fn every_reason() -> (all: Vec<ThrottleReason>)
    ensures
        all@ == all_reasons(),
{
    let mut all: Vec<ThrottleReason> = Vec::new();
    all.push(ThrottleReason::GpuIdle);
    all.push(ThrottleReason::ApplicationsClocksSetting);
    all.push(ThrottleReason::SwPowerCap);
    all.push(ThrottleReason::HwSlowdown);
    all.push(ThrottleReason::SyncBoost);
    all.push(ThrottleReason::SwThermalSlowdown);
    all.push(ThrottleReason::HwThermalSlowdown);
    all.push(ThrottleReason::HwPowerBrakeSlowdown);
    all.push(ThrottleReason::DisplayClockSetting);
    assert(all@ =~= all_reasons());
    all
}

/// Filtering a list that is strictly increasing in rank keeps it so.
pub proof fn lemma_filter_keeps_order(
    s: Seq<ThrottleReason>,
    pred: spec_fn(ThrottleReason) -> bool,
    bound: nat,
)
    requires
        ranked_below(s, bound),
    ensures
        ranked_below(s.filter(pred), bound),
    decreases s.len(),
{
    reveal(Seq::filter);
    if s.len() > 0 {
        let front = s.drop_last();
        let last = s.last();
        assert forall|i: int| 0 <= i < front.len() implies (#[trigger] front[i]).rank()
            < last.rank() by {
            assert(front[i] == s[i]);
            assert(s[i].rank() < s[s.len() - 1].rank());
        }
        assert(ranked_below(front, last.rank())) by {
            assert forall|i: int, j: int| 0 <= i < j < front.len() implies #[trigger] front[i].rank()
                < #[trigger] front[j].rank() by {
                assert(front[i] == s[i] && front[j] == s[j]);
            }
        }
        lemma_filter_keeps_order(front, pred, last.rank());
    }
}

/// The list of active reasons names each active reason once and no other,
/// in reporting order.
pub proof fn lemma_reasons_are_the_active_flags(f: ThrottleFlags)
    ensures
        forall|r: ThrottleReason| f.spec_reasons().contains(r) <==> f.has(r),
        ranked_below(f.spec_reasons(), 9),
        f.spec_reasons().no_duplicates(),
        f.count() <= 9,
        f.spec_is_empty() <==> f.count() == 0,
{
    let all = all_reasons();
    let active = |r: ThrottleReason| f.has(r);
    let out = f.spec_reasons();
    assert(ranked_below(all, 9));
    lemma_filter_keeps_order(all, active, 9);
    all.lemma_filter_len(active);
    assert forall|r: ThrottleReason| out.contains(r) <==> f.has(r) by {
        if out.contains(r) {
            let i = choose|i: int| 0 <= i < out.len() && out[i] == r;
            all.lemma_filter_pred(active, i);
        }
        if f.has(r) {
            assert(all[r.rank() as int] == r);
            all.lemma_filter_contains(active, r.rank() as int);
        }
    }
    assert forall|i: int, j: int| 0 <= i < out.len() && 0 <= j < out.len() && i != j implies out[i]
        != out[j] by {
        if i < j {
            assert(out[i].rank() < out[j].rank());
        } else {
            assert(out[j].rank() < out[i].rank());
        }
    }
    if out.len() > 0 {
        assert(out.contains(out[0]));
    }
}

} // verus!
