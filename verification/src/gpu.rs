//! One accelerator device at snapshot time: what was read of it, the
//! snapshot made of the readings, and the text of each table cell.

use vstd::prelude::*;
use vstd::string::*;
use nvml_wrapper::error::NvmlError;
use nvml_wrapper::Device;
use nvml_wrapper::Nvml;
use crate::nvml::{
    is_not_supported, query_capability, query_cores, query_cuda_version, query_display_active,
    query_display_connected, query_driver_version, query_fan_count, query_fan_speed, query_index,
    query_memory, query_name, query_power_limit, query_power_usage, query_processes,
    query_temperature, query_throttle, query_utilization,
};
use crate::text::{
    decimal, decimal_string, join, join_from, join_strings, pad_left, pad_left_string,
    signed_decimal, signed_decimal_string, split_whitespace, tokens,
};
use crate::throttle::ThrottleFlags;
use crate::units::{
    fixed2, fixed2_string, gib_hundredths, hundredths_of_gib, mean, mean_of, round_watts,
    version_string, version_text, watts,
};

verus! {

/// What one query of a device gave.
pub enum Reading<T> {
    /// The device answered.
    Value(T),
    /// The device does not offer this metric.
    Unsupported,
    /// The query failed for another reason.
    Failed,
}

/// Whether a display is attached to the device, and in use.
#[derive(Clone, Copy, Debug, PartialEq, Eq, Structural)]
pub enum DisplayState {
    /// No display is attached.
    Absent,
    /// A display is attached but idle.
    Connected,
    /// The device drives a display.
    Active,
}

/// The answers of one device to the queries of a snapshot, each query on
/// its own.
pub struct DeviceReadings {
    pub index: Reading<u32>,
    pub name: Reading<String>,
    /// Degrees Celsius.
    pub temperature: Reading<u32>,
    /// Milliwatts.
    pub power_usage: Reading<u32>,
    /// Milliwatts.
    pub power_limit: Reading<u32>,
    /// Percent of time busy: compute, then memory.
    pub utilization: Reading<(u32, u32)>,
    /// Bytes: used, then total.
    pub memory: Reading<(u64, u64)>,
    /// Major, then minor.
    pub capability: Reading<(i32, i32)>,
    pub cores: Reading<u32>,
    pub throttle: Reading<ThrottleFlags>,
    /// Percent of full speed, one entry for each fan.
    pub fans: Reading<Vec<u32>>,
    pub display_connected: Reading<bool>,
    pub display_active: Reading<bool>,
    /// The ids of the compute processes on the device.
    pub processes: Reading<Vec<u32>>,
}

/// What a snapshot of one device holds. Whatever the device does not
/// offer is absent: its ordinal and its name as much as any metric.
pub struct DeviceSnapshot {
    pub index: Option<u32>,
    pub name: Option<Seq<char>>,
    pub temperature_celsius: Option<u32>,
    pub power_usage_mw: Option<u32>,
    pub power_limit_mw: Option<u32>,
    /// `gpu_utilization_pct`, then `memory_utilization_pct`.
    pub utilization: Option<(u32, u32)>,
    /// `memory_used_bytes`, then `memory_total_bytes`.
    pub memory: Option<(u64, u64)>,
    pub compute_capability: Option<(i32, i32)>,
    pub core_count: Option<u32>,
    pub fan_speed_pct: Option<u32>,
    pub display_state: DisplayState,
    pub throttle_reasons: Option<ThrottleFlags>,
    pub process_ids: Option<Seq<u32>>,
}

/// One accelerator device at snapshot time.
pub struct GPUStats {
    index: Option<u32>,
    name: Option<String>,
    temperature_celsius: Option<u32>,
    power_usage_mw: Option<u32>,
    power_limit_mw: Option<u32>,
    utilization: Option<(u32, u32)>,
    memory: Option<(u64, u64)>,
    compute_capability: Option<(i32, i32)>,
    core_count: Option<u32>,
    fan_speed_pct: Option<u32>,
    display_state: DisplayState,
    throttle_reasons: Option<ThrottleFlags>,
    process_ids: Option<Vec<u32>>,
}

/// The value of a reading, if the device answered.
pub open spec fn value_of<T>(r: Reading<T>) -> Option<T> {
    match r {
        Reading::Value(v) => Some(v),
        _ => None,
    }
}

/// The text of a reading, if the device answered.
pub open spec fn text_of(r: Reading<String>) -> Option<Seq<char>> {
    match r {
        Reading::Value(t) => Some(t@),
        _ => None,
    }
}

/// The ids of a reading, if the device answered.
pub open spec fn ids_of(r: Reading<Vec<u32>>) -> Option<Seq<u32>> {
    match r {
        Reading::Value(ids) => Some(ids@),
        _ => None,
    }
}

/// The text of a name, if there is one.
pub open spec fn name_view(name: Option<String>) -> Option<Seq<char>> {
    match name {
        Some(n) => Some(n@),
        None => None,
    }
}

/// The sequence of the ids, if there are any.
pub open spec fn ids_view(ids: Option<Vec<u32>>) -> Option<Seq<u32>> {
    match ids {
        Some(v) => Some(v@),
        None => None,
    }
}

/// The memory pair of a snapshot: the reading, unless the device gave none
/// or claimed to use more than it has.
pub open spec fn memory_of(r: Reading<(u64, u64)>) -> Option<(u64, u64)> {
    match r {
        Reading::Value(m) => if m.0 <= m.1 {
            Some(m)
        } else {
            None
        },
        _ => None,
    }
}

/// The fan speed of a snapshot: the mean of the fans, if there is one.
pub open spec fn fan_of(r: Reading<Vec<u32>>) -> Option<u32> {
    match r {
        Reading::Value(speeds) => match mean(speeds@) {
            Some(m) => Some(m as u32),
            None => None,
        },
        _ => None,
    }
}

/// `Active` if the device drives a display, else `Connected` if one is
/// attached, else `Absent`.
pub open spec fn display_of(connected: Reading<bool>, active: Reading<bool>) -> DisplayState {
    if active == Reading::Value(true) {
        DisplayState::Active
    } else if connected == Reading::Value(true) {
        DisplayState::Connected
    } else {
        DisplayState::Absent
    }
}

impl<T> Reading<T> {
    /// Whether the query failed for a reason other than want of support.
    pub open spec fn failed(self) -> bool {
        self is Failed
    }

    /// Whether the query failed for a reason other than want of support.
    pub fn is_failed(&self) -> (r: bool)
        ensures
            r == self.failed(),
    {
        match self {
            Reading::Failed => true,
            _ => false,
        }
    }

    /// The value, if the device answered.
    pub fn value(self) -> (v: Option<T>)
        ensures
            v == value_of(self),
    {
        match self {
            Reading::Value(v) => Some(v),
            _ => None,
        }
    }
}

impl DeviceReadings {
    /// Whether no snapshot can be made of the readings: a query failed for
    /// a reason other than want of support. Want of support alone never
    /// keeps a snapshot from being made.
    pub open spec fn aborted(self) -> bool {
        ||| self.index.failed()
        ||| self.name.failed()
        ||| self.temperature.failed()
        ||| self.power_usage.failed()
        ||| self.power_limit.failed()
        ||| self.utilization.failed()
        ||| self.memory.failed()
        ||| self.capability.failed()
        ||| self.cores.failed()
        ||| self.throttle.failed()
        ||| self.fans.failed()
        ||| self.display_connected.failed()
        ||| self.display_active.failed()
        ||| self.processes.failed()
    }

    /// The snapshot that is made of the readings, where one can be made.
    pub open spec fn snapshot(self) -> DeviceSnapshot {
        DeviceSnapshot {
            index: value_of(self.index),
            name: text_of(self.name),
            temperature_celsius: value_of(self.temperature),
            power_usage_mw: value_of(self.power_usage),
            power_limit_mw: value_of(self.power_limit),
            utilization: value_of(self.utilization),
            memory: memory_of(self.memory),
            compute_capability: value_of(self.capability),
            core_count: value_of(self.cores),
            fan_speed_pct: fan_of(self.fans),
            display_state: display_of(self.display_connected, self.display_active),
            throttle_reasons: value_of(self.throttle),
            process_ids: ids_of(self.processes),
        }
    }

    /// Whether no snapshot can be made of the readings.
    pub fn is_aborted(&self) -> (r: bool)
        ensures
            r == self.aborted(),
    {
        self.index.is_failed() || self.name.is_failed() || self.temperature.is_failed() || self.power_usage.is_failed()
            || self.power_limit.is_failed() || self.utilization.is_failed()
            || self.memory.is_failed() || self.capability.is_failed() || self.cores.is_failed()
            || self.throttle.is_failed() || self.fans.is_failed()
            || self.display_connected.is_failed() || self.display_active.is_failed()
            || self.processes.is_failed()
    }
}

impl DeviceSnapshot {
    /// What holds of every snapshot: a device does not use more memory than
    /// it has.
    pub open spec fn wf(self) -> bool {
        self.memory matches Some(m) ==> m.0 <= m.1
    }
}

/// Whatever was read of a device, the snapshot made of it is well formed:
/// it does not hold more memory used than there is.
pub proof fn lemma_snapshot_is_well_formed(readings: DeviceReadings)
    ensures
        readings.snapshot().wf(),
        readings.snapshot().memory matches Some(m) ==> m.0 <= m.1,
{
}

impl View for GPUStats {
    type V = DeviceSnapshot;

    closed spec fn view(&self) -> DeviceSnapshot {
        DeviceSnapshot {
            index: self.index,
            name: name_view(self.name),
            temperature_celsius: self.temperature_celsius,
            power_usage_mw: self.power_usage_mw,
            power_limit_mw: self.power_limit_mw,
            utilization: self.utilization,
            memory: self.memory,
            compute_capability: self.compute_capability,
            core_count: self.core_count,
            fan_speed_pct: self.fan_speed_pct,
            display_state: self.display_state,
            throttle_reasons: self.throttle_reasons,
            process_ids: ids_view(self.process_ids),
        }
    }
}

impl GPUStats {
    #[verifier::type_invariant]
    closed spec fn inv(self) -> bool {
        self.memory matches Some(m) ==> m.0 <= m.1
    }

    /// Makes the snapshot of a device from what was read of it. Whatever
    /// the device does not offer is absent from the snapshot; so is a
    /// memory pair that claims more memory used than there is. No snapshot
    /// is made where a query failed for another reason than want of
    /// support, and only there.
    pub fn from_readings(readings: DeviceReadings) -> (out: Option<GPUStats>)
        ensures
            readings.aborted() <==> out is None,
            out matches Some(g) ==> g@ == readings.snapshot() && g@.wf(),
    {
        if readings.is_aborted() {
            return None;
        }
        let DeviceReadings {
            index,
            name,
            temperature,
            power_usage,
            power_limit,
            utilization,
            memory,
            capability,
            cores,
            throttle,
            fans,
            display_connected,
            display_active,
            processes,
        } = readings;
        let memory = match memory {
            Reading::Value(m) => if m.0 <= m.1 {
                Some(m)
            } else {
                None
            },
            _ => None,
        };
        let fan_speed_pct = match fans {
            Reading::Value(speeds) => mean_of(&speeds),
            _ => None,
        };
        let display_state = match (display_connected, display_active) {
            (_, Reading::Value(true)) => DisplayState::Active,
            (Reading::Value(true), _) => DisplayState::Connected,
            _ => DisplayState::Absent,
        };
        let out = GPUStats {
            index: index.value(),
            name: name.value(),
            temperature_celsius: temperature.value(),
            power_usage_mw: power_usage.value(),
            power_limit_mw: power_limit.value(),
            utilization: utilization.value(),
            memory,
            compute_capability: capability.value(),
            core_count: cores.value(),
            fan_speed_pct,
            display_state,
            throttle_reasons: throttle.value(),
            process_ids: processes.value(),
        };
        Some(out)
    }

    /// The ordinal of the device, if the device gives it.
    pub fn index(&self) -> (r: Option<u32>)
        ensures
            r == self@.index,
    {
        self.index
    }

    /// The name of the device as it reports it, if it reports one.
    pub fn name(&self) -> (r: &Option<String>)
        ensures
            name_view(*r) == self@.name,
    {
        &self.name
    }

    /// Memory used and memory installed, in bytes. No device uses more than
    /// it has.
    pub fn memory(&self) -> (r: Option<(u64, u64)>)
        ensures
            r == self@.memory,
            self@.wf(),
            r matches Some(m) ==> m.0 <= m.1,
    {
        proof {
            use_type_invariant(self);
        }
        self.memory
    }

    /// The reasons for which the device is throttled, if the device tells
    /// them.
    pub fn throttle_reasons(&self) -> (r: Option<ThrottleFlags>)
        ensures
            r == self@.throttle_reasons,
    {
        self.throttle_reasons
    }

    /// The ids of the compute processes on the device, as it reported
    /// them, if it reports them.
    pub fn process_ids(&self) -> (r: &Option<Vec<u32>>)
        ensures
            ids_view(*r) == self@.process_ids,
    {
        &self.process_ids
    }
}

/// The placeholder in the cell of a metric that the device does not offer.
pub open spec fn not_applicable() -> Seq<char> {
    "N/A"@
}

/// The last two of the words, or all of them where there are fewer.
pub open spec fn last_two(words: Seq<Seq<char>>) -> Seq<Seq<char>> {
    if words.len() > 2 {
        words.skip(words.len() - 2)
    } else {
        words
    }
}

/// The name under which a device is listed: the last two words of the name
/// that it reports, with one blank between them.
pub open spec fn short_name(name: Seq<char>) -> Seq<char> {
    join(last_two(tokens(name)), " "@)
}

/// The decimal numerals of the ids, in order.
pub open spec fn numerals_of(ids: Seq<u32>) -> Seq<Seq<char>> {
    Seq::new(ids.len(), |i: int| decimal(ids[i] as nat))
}

/// An ordinal as text: its numeral, or the placeholder.
pub open spec fn ordinal_text(index: Option<u32>) -> Seq<char> {
    match index {
        Some(i) => decimal(i as nat),
        None => not_applicable(),
    }
}

/// One side of the power cell: whole watts in a field of three, or the
/// placeholder.
pub open spec fn power_side(mw: Option<u32>) -> Seq<char> {
    match mw {
        Some(v) => pad_left(decimal(round_watts(v as nat)), 3) + "W"@,
        None => not_applicable(),
    }
}

/// One side of the memory cell: GiB with two decimal places.
pub open spec fn memory_side(bytes: u64) -> Seq<char> {
    fixed2(gib_hundredths(bytes as nat)) + "GB"@
}

impl DeviceSnapshot {
    /// The cell of the ordinal.
    pub open spec fn index_text(self) -> Seq<char> {
        ordinal_text(self.index)
    }

    /// The cell of the name, before it is cut to the column.
    pub open spec fn name_text(self) -> Seq<char> {
        match self.name {
            Some(name) => short_name(name),
            None => not_applicable(),
        }
    }

    /// The cell of the temperature.
    pub open spec fn temp_text(self) -> Seq<char> {
        match self.temperature_celsius {
            Some(t) => pad_left(decimal(t as nat), 2) + "\u{b0}C"@,
            None => not_applicable(),
        }
    }

    /// The cell of the power: usage, a slash, the limit.
    pub open spec fn power_text(self) -> Seq<char> {
        power_side(self.power_usage_mw) + "/"@ + power_side(self.power_limit_mw)
    }

    /// The cell of the utilization: compute, then memory.
    pub open spec fn utilizations_text(self) -> Seq<char> {
        match self.utilization {
            Some(u) => "GPU "@ + pad_left(decimal(u.0 as nat), 3) + "% VRAM "@ + pad_left(
                decimal(u.1 as nat),
                3,
            ) + "%"@,
            None => not_applicable(),
        }
    }

    /// The cell of the memory: used, a slash, installed.
    pub open spec fn memory_text(self) -> Seq<char> {
        match self.memory {
            Some(m) => memory_side(m.0) + "/"@ + memory_side(m.1),
            None => not_applicable(),
        }
    }

    /// The cell of the compute capability: major, a dot, minor.
    pub open spec fn capability_text(self) -> Seq<char> {
        match self.compute_capability {
            Some(c) => signed_decimal(c.0 as int) + "."@ + signed_decimal(c.1 as int),
            None => not_applicable(),
        }
    }

    /// The cell of the core count.
    pub open spec fn cores_text(self) -> Seq<char> {
        match self.core_count {
            Some(c) => decimal(c as nat),
            None => not_applicable(),
        }
    }

    /// The cell of the fan speed.
    pub open spec fn fan_text(self) -> Seq<char> {
        match self.fan_speed_pct {
            Some(p) => pad_left(decimal(p as nat), 3) + "%"@,
            None => not_applicable(),
        }
    }

    /// The cell of the display state.
    pub open spec fn display_text(self) -> Seq<char> {
        match self.display_state {
            DisplayState::Absent => "None"@,
            DisplayState::Connected => "Connected"@,
            DisplayState::Active => "Active"@,
        }
    }

    /// The cell of the process ids, before it is cut to the column: the
    /// ids with a comma and a blank between them.
    pub open spec fn processes_text(self) -> Seq<char> {
        match self.process_ids {
            Some(ids) => join(numerals_of(ids), ", "@),
            None => not_applicable(),
        }
    }
}

/// An ordinal as text: its numeral, or the placeholder.
pub fn ordinal_string(index: Option<u32>) -> (out: String)
    ensures
        out@ == ordinal_text(index),
{
    match index {
        Some(i) => decimal_string(i as u64),
        None => String::from_str("N/A"),
    }
}

/// One side of the power cell.
fn power_side_string(mw: Option<u32>) -> (out: String)
    ensures
        out@ == power_side(mw),
{
    match mw {
        Some(v) => {
            let numeral = decimal_string(watts(v) as u64);
            let mut out = pad_left_string(numeral.as_str(), 3);
            out.append("W");
            out
        },
        None => String::from_str("N/A"),
    }
}

/// One side of the memory cell.
fn memory_side_string(bytes: u64) -> (out: String)
    ensures
        out@ == memory_side(bytes),
{
    let mut out = fixed2_string(hundredths_of_gib(bytes));
    out.append("GB");
    out
}

impl GPUStats {
    /// The cell of the ordinal.
    pub fn display_index(&self) -> (out: String)
        ensures
            out@ == self@.index_text(),
    {
        ordinal_string(self.index)
    }

    /// The name under which the device is listed: the last two words of
    /// its name.
    pub fn display_name(&self) -> (out: String)
        ensures
            out@ == self@.name_text(),
    {
        match &self.name {
            Some(name) => {
                let words = split_whitespace(name.as_str());
                let n = words.len();
                let from: usize = if n > 2 {
                    n - 2
                } else {
                    0
                };
                assert(words.deep_view().skip(from as int) =~= last_two(tokens(name@)));
                join_from(&words, from, " ")
            },
            None => String::from_str("N/A"),
        }
    }

    /// The cell of the process ids.
    pub fn display_processes(&self) -> (out: String)
        ensures
            out@ == self@.processes_text(),
    {
        match &self.process_ids {
            Some(ids) => {
                let mut numerals: Vec<String> = Vec::new();
                let mut i: usize = 0;
                while i < ids.len()
                    invariant
                        i <= ids@.len(),
                        numerals.deep_view() == numerals_of(ids@.take(i as int)),
                    decreases ids@.len() - i,
                {
                    let ghost before = numerals.deep_view();
                    let numeral = decimal_string(ids[i] as u64);
                    numerals.push(numeral);
                    assert(numerals.deep_view() =~= before.push(numeral@));
                    assert(numerals.deep_view() =~= numerals_of(ids@.take(i + 1)));
                    i += 1;
                }
                assert(ids@.take(i as int) =~= ids@);
                join_strings(&numerals, ", ")
            },
            None => String::from_str("N/A"),
        }
    }

    /// The cell of the temperature.
    pub fn display_temp(&self) -> (out: String)
        ensures
            out@ == self@.temp_text(),
    {
        match self.temperature_celsius {
            Some(t) => {
                let numeral = decimal_string(t as u64);
                let mut out = pad_left_string(numeral.as_str(), 2);
                out.append("\u{b0}C");
                out
            },
            None => String::from_str("N/A"),
        }
    }

    /// The cell of the power.
    pub fn display_power(&self) -> (out: String)
        ensures
            out@ == self@.power_text(),
    {
        let mut out = power_side_string(self.power_usage_mw);
        out.append("/");
        let limit = power_side_string(self.power_limit_mw);
        out.append(limit.as_str());
        out
    }

    /// The cell of the utilization.
    pub fn display_utilizations(&self) -> (out: String)
        ensures
            out@ == self@.utilizations_text(),
    {
        match self.utilization {
            Some(u) => {
                let mut out = String::from_str("GPU ");
                let gpu = decimal_string(u.0 as u64);
                let gpu = pad_left_string(gpu.as_str(), 3);
                out.append(gpu.as_str());
                out.append("% VRAM ");
                let memory = decimal_string(u.1 as u64);
                let memory = pad_left_string(memory.as_str(), 3);
                out.append(memory.as_str());
                out.append("%");
                out
            },
            None => String::from_str("N/A"),
        }
    }

    /// The cell of the memory.
    pub fn display_memory(&self) -> (out: String)
        ensures
            out@ == self@.memory_text(),
    {
        match self.memory {
            Some(m) => {
                let mut out = memory_side_string(m.0);
                out.append("/");
                let total = memory_side_string(m.1);
                out.append(total.as_str());
                out
            },
            None => String::from_str("N/A"),
        }
    }

    /// The cell of the compute capability.
    pub fn display_capability(&self) -> (out: String)
        ensures
            out@ == self@.capability_text(),
    {
        match self.compute_capability {
            Some(c) => {
                let mut out = signed_decimal_string(c.0 as i64);
                out.append(".");
                let minor = signed_decimal_string(c.1 as i64);
                out.append(minor.as_str());
                out
            },
            None => String::from_str("N/A"),
        }
    }

    /// The cell of the core count.
    pub fn display_cores(&self) -> (out: String)
        ensures
            out@ == self@.cores_text(),
    {
        match self.core_count {
            Some(c) => decimal_string(c as u64),
            None => String::from_str("N/A"),
        }
    }

    /// The cell of the fan speed.
    pub fn display_fan(&self) -> (out: String)
        ensures
            out@ == self@.fan_text(),
    {
        match self.fan_speed_pct {
            Some(p) => {
                let numeral = decimal_string(p as u64);
                let mut out = pad_left_string(numeral.as_str(), 3);
                out.append("%");
                out
            },
            None => String::from_str("N/A"),
        }
    }

    /// The cell of the display state.
    pub fn display_display(&self) -> (out: String)
        ensures
            out@ == self@.display_text(),
    {
        match self.display_state {
            DisplayState::Absent => String::from_str("None"),
            DisplayState::Connected => String::from_str("Connected"),
            DisplayState::Active => String::from_str("Active"),
        }
    }
}

/// The reading that an answer of the driver stands for: its value, or
/// which of the two kinds of failure it is.
fn reading_of<T>(answer: Result<T, NvmlError>) -> (r: Reading<T>)
    ensures
        answer matches Ok(v) ==> r == Reading::Value(v),
        answer is Err ==> !(r is Value),
{
    match answer {
        Ok(v) => Reading::Value(v),
        Err(e) => if is_not_supported(&e) {
            Reading::Unsupported
        } else {
            Reading::Failed
        },
    }
}

/// The speeds that the answers of the fans give, one answer for each fan
/// in the order of the fans: the speeds, where each fan gave one; else
/// what the first fan without a speed says.
pub open spec fn speeds_of(answers: Seq<Reading<u32>>) -> Reading<Seq<u32>>
    decreases answers.len(),
{
    if answers.len() == 0 {
        Reading::Value(Seq::empty())
    } else {
        match speeds_of(answers.drop_last()) {
            Reading::Value(front) => match answers.last() {
                Reading::Value(speed) => Reading::Value(front.push(speed)),
                Reading::Unsupported => Reading::Unsupported,
                Reading::Failed => Reading::Failed,
            },
            Reading::Unsupported => Reading::Unsupported,
            Reading::Failed => Reading::Failed,
        }
    }
}

/// The reading of the fans: where the device does not say how many fans
/// it has, what it says instead; else what the answers of its fans give.
pub open spec fn fans_reading(count: Reading<u32>, answers: Seq<Reading<u32>>) -> Reading<
    Seq<u32>,
> {
    match count {
        Reading::Value(_) => speeds_of(answers),
        Reading::Unsupported => Reading::Unsupported,
        Reading::Failed => Reading::Failed,
    }
}

/// A reading of speeds as a reading of their sequence.
pub open spec fn speeds_view(r: Reading<Vec<u32>>) -> Reading<Seq<u32>> {
    match r {
        Reading::Value(speeds) => Reading::Value(speeds@),
        Reading::Unsupported => Reading::Unsupported,
        Reading::Failed => Reading::Failed,
    }
}

/// Once a fan has given no speed, the answers of the fans behind it change
/// nothing.
pub proof fn lemma_first_fan_without_speed_decides(answers: Seq<Reading<u32>>, upto: int)
    requires
        0 <= upto <= answers.len(),
        !(speeds_of(answers.take(upto)) is Value),
    ensures
        speeds_of(answers) == speeds_of(answers.take(upto)),
    decreases answers.len() - upto,
{
    if upto < answers.len() {
        let next = answers.take(upto + 1);
        assert(next.drop_last() =~= answers.take(upto));
        lemma_first_fan_without_speed_decides(answers, upto + 1);
    } else {
        assert(answers.take(upto) =~= answers);
    }
}

/// The reading of the fans that the count and the answers of the fans
/// give: the speeds of all fans, or what the first fan without a speed
/// says.
pub fn fans_of_answers(count: Reading<u32>, answers: &Vec<Reading<u32>>) -> (r: Reading<Vec<u32>>)
    ensures
        speeds_view(r) == fans_reading(count, answers@),
{
    match count {
        Reading::Value(_) => {},
        Reading::Unsupported => {
            return Reading::Unsupported;
        },
        Reading::Failed => {
            return Reading::Failed;
        },
    }
    let mut speeds: Vec<u32> = Vec::new();
    let mut fan: usize = 0;
    assert(answers@.take(0) =~= Seq::<Reading<u32>>::empty());
    while fan < answers.len()
        invariant
            fan <= answers@.len(),
            count is Value,
            speeds_of(answers@.take(fan as int)) == Reading::Value(speeds@),
        decreases answers@.len() - fan,
    {
        assert(answers@.take(fan + 1).drop_last() =~= answers@.take(fan as int));
        assert(answers@.take(fan + 1).last() == answers@[fan as int]);
        match &answers[fan] {
            Reading::Value(speed) => {
                speeds.push(*speed);
            },
            Reading::Unsupported => {
                proof {
                    lemma_first_fan_without_speed_decides(answers@, fan + 1);
                }
                return Reading::Unsupported;
            },
            Reading::Failed => {
                proof {
                    lemma_first_fan_without_speed_decides(answers@, fan + 1);
                }
                return Reading::Failed;
            },
        }
        fan += 1;
    }
    assert(answers@.take(fan as int) =~= answers@);
    Reading::Value(speeds)
}

/// Asks the device how many fans it has and then each fan for its speed,
/// up to the first that gives none. Whatever the device answers, the
/// reading is what `fans_of_answers` makes of a count and of one answer
/// for each fan that was asked.
fn read_fans(device: &Device) -> (r: Reading<Vec<u32>>)
    ensures
        exists|count: Reading<u32>, answers: Seq<Reading<u32>>|
            answers.len() <= u32::MAX && speeds_view(r) == #[trigger] fans_reading(
                count,
                answers,
            ),
{
    let count = reading_of(query_fan_count(device));
    let fans: u32 = match &count {
        Reading::Value(n) => *n,
        _ => 0,
    };
    let mut answers: Vec<Reading<u32>> = Vec::new();
    let mut fan: u32 = 0;
    let mut silent = false;
    while fan < fans && !silent
        invariant
            fan <= fans,
            answers@.len() == fan,
        decreases fans - fan,
    {
        let answer = reading_of(query_fan_speed(device, fan));
        silent = match &answer {
            Reading::Value(_) => false,
            _ => true,
        };
        answers.push(answer);
        fan += 1;
    }
    let ghost asked = count;
    let r = fans_of_answers(count, &answers);
    assert(speeds_view(r) == fans_reading(asked, answers@));
    r
}

/// Asks the device every query of a snapshot, each on its own: what one
/// query gives does not keep another from being asked. Nothing can be said
/// of what the device answers; the reading of the fans is what
/// `fans_of_answers` makes of a count and of one answer for each fan that
/// was asked.
pub fn read_device(device: &Device) -> (readings: DeviceReadings)
    ensures
        exists|count: Reading<u32>, answers: Seq<Reading<u32>>|
            answers.len() <= u32::MAX && speeds_view(readings.fans) == #[trigger] fans_reading(
                count,
                answers,
            ),
{
    DeviceReadings {
        index: reading_of(query_index(device)),
        name: reading_of(query_name(device)),
        temperature: reading_of(query_temperature(device)),
        power_usage: reading_of(query_power_usage(device)),
        power_limit: reading_of(query_power_limit(device)),
        utilization: reading_of(query_utilization(device)),
        memory: reading_of(query_memory(device)),
        capability: reading_of(query_capability(device)),
        cores: reading_of(query_cores(device)),
        throttle: reading_of(query_throttle(device)),
        fans: read_fans(device),
        display_connected: reading_of(query_display_connected(device)),
        display_active: reading_of(query_display_active(device)),
        processes: reading_of(query_processes(device)),
    }
}

impl GPUStats {
    /// Takes the snapshot of a device: asks it every query and makes the
    /// snapshot of the answers as `from_readings` does. Whatever the device
    /// answers, the outcome is that of some readings, and a snapshot that
    /// is made is well formed.
    pub fn from_nvml_device(device: Device) -> (out: Option<GPUStats>)
        ensures
            out matches Some(g) ==> g@.wf(),
            exists|readings: DeviceReadings|
                (#[trigger] readings.aborted() <==> out is None) && (out matches Some(g) ==> g@
                    == readings.snapshot()),
    {
        let readings = read_device(&device);
        let ghost answers = readings;
        let out = GPUStats::from_readings(readings);
        assert((answers.aborted() <==> out is None) && (out matches Some(g) ==> g@
            == answers.snapshot()));
        out
    }
}

/// The text of the two versions that head the device table.
pub open spec fn driver_stats_text(cuda: Option<i32>, driver: Option<Seq<char>>) -> (
    Seq<char>,
    Seq<char>,
) {
    (
        match cuda {
            Some(v) => version_text(v as int),
            None => not_applicable(),
        },
        match driver {
            Some(d) => d,
            None => not_applicable(),
        },
    )
}

/// The CUDA version as a numeral with one decimal place, and the driver
/// version as it is; the placeholder for one that is not known.
pub fn driver_stats(cuda: Option<i32>, driver: Option<String>) -> (out: (String, String))
    ensures
        (out.0@, out.1@) == driver_stats_text(
            cuda,
            match driver {
                Some(d) => Some(d@),
                None => None,
            },
        ),
{
    let cuda_version = match cuda {
        Some(v) => version_string(v),
        None => String::from_str("N/A"),
    };
    let driver_version = match driver {
        Some(d) => d,
        None => String::from_str("N/A"),
    };
    (cuda_version, driver_version)
}

/// Asks the session for the CUDA version and the driver version, and
/// gives them as `driver_stats` does, the CUDA version first. Whatever the
/// session answers, the two texts are those of some pair of versions.
pub fn get_driver_stats(nvml: &Nvml) -> (out: (String, String))
    ensures
        exists|cuda: Option<i32>, driver: Option<Seq<char>>|
            (out.0@, out.1@) == #[trigger] driver_stats_text(cuda, driver),
{
    let cuda = match query_cuda_version(nvml) {
        Ok(v) => Some(v),
        Err(_) => None,
    };
    let driver = match query_driver_version(nvml) {
        Ok(d) => Some(d),
        Err(_) => None,
    };
    let ghost driver_text: Option<Seq<char>> = match &driver {
        Some(d) => Some(d@),
        None => None,
    };
    let out = driver_stats(cuda, driver);
    assert((out.0@, out.1@) == driver_stats_text(cuda, driver_text));
    out
}

} // verus!
