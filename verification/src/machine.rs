//! The report of one run and the way it is collected: devices first, then
//! one inspection for each process id that a device reports, then the host.
//!
//! The library decides what is to be done next and what an answer means;
//! the caller runs the queries of the operating system and hands back what
//! they printed.

use vstd::prelude::*;
use vstd::string::*;
use nvml_wrapper::error::NvmlError;
use nvml_wrapper::Nvml;
use crate::gpu::{
    driver_stats_text, get_driver_stats, lemma_snapshot_is_well_formed, read_device,
    DeviceReadings, DeviceSnapshot, GPUStats,
};
use crate::host::{parse_host, HostSnapshot, HostStats};
use crate::nvml::{init_session, query_device, query_device_count};
use crate::order::{ascending, by_index, sort_by_index};
use crate::pids::{is_pid_set, seen, snapshots, strictly_increasing, unique_pids};
use crate::process::{parse_process, ProcessSnapshot, ProcessStats};

verus! {

/// Why no report can be made.
#[derive(Clone, Copy, Debug, PartialEq, Eq, Structural)]
pub enum ReportError {
    /// The monitoring session could not be opened.
    InitializationFailure,
}

/// What a report holds.
pub struct Report {
    pub driver_version: Seq<char>,
    pub monitoring_api_version: Seq<char>,
    pub devices: Seq<DeviceSnapshot>,
    pub processes: Seq<ProcessSnapshot>,
    pub host: Option<HostSnapshot>,
}

/// The report of one run.
pub struct Machine {
    gpus: Vec<GPUStats>,
    processes: Vec<ProcessStats>,
    cuda_version: String,
    driver_version: String,
    host: Option<HostStats>,
}

/// What the collector asks its caller to do next.
#[derive(Clone, Copy, Debug, PartialEq, Eq, Structural)]
pub enum Action {
    /// Ask the process table for the line of this process.
    InspectProcess(u32),
    /// Run the three queries of the host.
    QueryHost,
    /// Nothing is left to do: the report can be taken.
    Done,
}

/// What the caller hands back after an action.
pub enum Event {
    /// What the process table printed for the process.
    ProcessTable(String),
    /// The process table could not be asked.
    ProcessQueryFailed,
    /// What the processor count query, the memory summary and the I/O
    /// statistics query printed, in this order.
    HostOutputs(String, String, String),
    /// One of the queries of the host could not be run.
    HostQueryFailed,
}

/// How far a collection has come.
pub struct Progress {
    /// The report as far as it is known.
    pub report: Report,
    /// The process ids to inspect, in the order of inspection.
    pub pending: Seq<u32>,
    /// How many of them have been dealt with.
    pub cursor: nat,
    /// Whether the host has been dealt with.
    pub host_done: bool,
}

/// A report in the making.
pub struct Collector {
    gpus: Vec<GPUStats>,
    processes: Vec<ProcessStats>,
    cuda_version: String,
    driver_version: String,
    host: Option<HostStats>,
    pending: Vec<u32>,
    cursor: usize,
    host_done: bool,
}

/// The snapshots of the processes, in order.
pub open spec fn process_snapshots(processes: Seq<ProcessStats>) -> Seq<ProcessSnapshot> {
    Seq::new(processes.len(), |i: int| processes[i]@)
}

/// The ids of the processes, in order.
pub open spec fn pids_of(processes: Seq<ProcessSnapshot>) -> Seq<u32> {
    Seq::new(processes.len(), |i: int| processes[i].pid)
}

/// The snapshot of the host, if there is one.
pub open spec fn host_snapshot(host: Option<HostStats>) -> Option<HostSnapshot> {
    match host {
        Some(h) => Some(h@),
        None => None,
    }
}

impl Report {
    /// What holds of every report: its devices are in the order of their
    /// ordinals, those without one last; its processes are in increasing
    /// order of their ids, none twice, and each of them is on some device.
    pub open spec fn wf(self) -> bool {
        &&& ascending(self.devices)
        &&& strictly_increasing(pids_of(self.processes))
        &&& forall|i: int|
            0 <= i < self.processes.len() ==> seen(self.devices, (#[trigger] self.processes[i]).pid)
    }
}

impl Progress {
    /// What the caller is to do next.
    pub open spec fn action(self) -> Action {
        if self.cursor < self.pending.len() {
            Action::InspectProcess(self.pending[self.cursor as int])
        } else if !self.host_done {
            Action::QueryHost
        } else {
            Action::Done
        }
    }

    /// The progress after `event`. An inspected process joins the report
    /// where its line can be read, and is left out where it cannot; the
    /// host joins the report where all three outputs have their shape. An
    /// event that does not answer the action changes nothing.
    pub open spec fn advance(self, event: Event) -> Progress {
        match (self.action(), event) {
            (Action::InspectProcess(pid), Event::ProcessTable(text)) => Progress {
                report: Report {
                    processes: match parse_process(pid, text@) {
                        Ok(p) => self.report.processes.push(p),
                        Err(_) => self.report.processes,
                    },
                    ..self.report
                },
                cursor: self.cursor + 1,
                ..self
            },
            (Action::InspectProcess(_), Event::ProcessQueryFailed) => Progress {
                cursor: self.cursor + 1,
                ..self
            },
            (Action::QueryHost, Event::HostOutputs(count, memory, io)) => Progress {
                report: Report { host: parse_host(count@, memory@, io@), ..self.report },
                host_done: true,
                ..self
            },
            (Action::QueryHost, Event::HostQueryFailed) => Progress { host_done: true, ..self },
            _ => self,
        }
    }

    /// What holds of every collection: the devices are in the order of
    /// their ordinals; the ids to inspect are those of the devices, each
    /// once and in increasing order; the processes in the report are among
    /// the ids dealt with, in that order; and nothing is known of the host
    /// before it was dealt with.
    pub open spec fn wf(self) -> bool {
        &&& ascending(self.report.devices)
        &&& self.cursor <= self.pending.len()
        &&& is_pid_set(self.pending, self.report.devices)
        &&& strictly_increasing(pids_of(self.report.processes))
        &&& forall|i: int|
            0 <= i < self.report.processes.len() ==> self.pending.take(self.cursor as int).contains(
                (#[trigger] self.report.processes[i]).pid,
            )
        &&& !self.host_done ==> self.report.host.is_none()
    }
}

impl View for Machine {
    type V = Report;

    closed spec fn view(&self) -> Report {
        Report {
            driver_version: self.driver_version@,
            monitoring_api_version: self.cuda_version@,
            devices: snapshots(self.gpus@),
            processes: process_snapshots(self.processes@),
            host: host_snapshot(self.host),
        }
    }
}

impl View for Collector {
    type V = Progress;

    closed spec fn view(&self) -> Progress {
        Progress {
            report: Report {
                driver_version: self.driver_version@,
                monitoring_api_version: self.cuda_version@,
                devices: snapshots(self.gpus@),
                processes: process_snapshots(self.processes@),
                host: host_snapshot(self.host),
            },
            pending: self.pending@,
            cursor: self.cursor as nat,
            host_done: self.host_done,
        }
    }
}

/// A sound collection stays sound whatever comes back, and what it adds to
/// the report is a process of a device.
pub proof fn lemma_advance_keeps_wf(progress: Progress, event: Event)
    requires
        progress.wf(),
    ensures
        progress.advance(event).wf(),
        progress.advance(event).pending == progress.pending,
        progress.advance(event).report.devices == progress.report.devices,
        progress.cursor <= progress.advance(event).cursor <= progress.cursor + 1,
{
    let next = progress.advance(event);
    let old_pids = pids_of(progress.report.processes);
    match (progress.action(), event) {
        (Action::InspectProcess(pid), Event::ProcessTable(text)) => {
            let was = progress.pending.take(progress.cursor as int);
            let now = progress.pending.take((progress.cursor + 1) as int);
            assert(now =~= was.push(pid));
            assert forall|i: int| 0 <= i < next.report.processes.len() implies now.contains(
                (#[trigger] next.report.processes[i]).pid,
            ) by {
                if i < progress.report.processes.len() {
                    let p = progress.report.processes[i].pid;
                    assert(next.report.processes[i].pid == p);
                    assert(was.contains(p));
                    let k = choose|k: int| 0 <= k < was.len() && was[k] == p;
                    assert(now[k] == p);
                } else {
                    assert(next.report.processes[i].pid == pid);
                    assert(now[progress.cursor as int] == pid);
                }
            }
            let new_pids = pids_of(next.report.processes);
            assert forall|i: int, j: int| 0 <= i < j < new_pids.len() implies new_pids[i]
                < new_pids[j] by {
                if j < old_pids.len() {
                    assert(new_pids[i] == old_pids[i] && new_pids[j] == old_pids[j]);
                } else {
                    assert(new_pids[j] == pid);
                    let p = progress.report.processes[i].pid;
                    assert(new_pids[i] == p);
                    assert(was.contains(p));
                    let k = choose|k: int| 0 <= k < was.len() && was[k] == p;
                    assert(progress.pending[k] < progress.pending[progress.cursor as int]);
                }
            }
        },
        (Action::InspectProcess(pid), Event::ProcessQueryFailed) => {
            let was = progress.pending.take(progress.cursor as int);
            let now = progress.pending.take((progress.cursor + 1) as int);
            assert forall|i: int| 0 <= i < next.report.processes.len() implies now.contains(
                (#[trigger] next.report.processes[i]).pid,
            ) by {
                let p = progress.report.processes[i].pid;
                assert(was.contains(p));
                let k = choose|k: int| 0 <= k < was.len() && was[k] == p;
                assert(now[k] == p);
            }
        },
        _ => {},
    }
}

/// Where the queries of the host could not be run, or one of their outputs
/// does not have its shape, the report holds nothing of the host, and the
/// collection goes on to its end.
pub proof fn lemma_failed_host_is_absent(progress: Progress, event: Event)
    requires
        progress.wf(),
        progress.action() == Action::QueryHost,
        event is HostQueryFailed || (event matches Event::HostOutputs(count, memory, io)
            && parse_host(count@, memory@, io@).is_none()),
    ensures
        progress.advance(event).report.host.is_none(),
        progress.advance(event).action() == Action::Done,
        progress.advance(event).report.processes == progress.report.processes,
        progress.advance(event).report.devices == progress.report.devices,
{
}

/// The report of a collection that is sound is sound.
pub proof fn lemma_report_of_sound_progress(progress: Progress)
    requires
        progress.wf(),
    ensures
        progress.report.wf(),
{
    assert forall|i: int| 0 <= i < progress.report.processes.len() implies seen(
        progress.report.devices,
        (#[trigger] progress.report.processes[i]).pid,
    ) by {
        let p = progress.report.processes[i].pid;
        let done = progress.pending.take(progress.cursor as int);
        assert(done.contains(p));
        let k = choose|k: int| 0 <= k < done.len() && done[k] == p;
        assert(progress.pending[k] == p);
        assert(progress.pending.contains(p));
    }
}

impl Collector {
    #[verifier::type_invariant]
    closed spec fn inv(self) -> bool {
        self@.wf()
    }

    /// Begins the collection of a report on the devices `gpus`, which it
    /// puts in the order of their ordinals, those without one last.
    /// Nothing is known yet of processes or host, and the ids to inspect
    /// are those of the devices, each once and in increasing order.
    pub fn start(driver_version: String, cuda_version: String, gpus: Vec<GPUStats>) -> (c:
        Collector)
        ensures
            c@.wf(),
            c@.report.driver_version == driver_version@,
            c@.report.monitoring_api_version == cuda_version@,
            c@.report.devices == by_index(snapshots(gpus@)),
            c@.report.processes.len() == 0,
            c@.report.host.is_none(),
            c@.cursor == 0,
            !c@.host_done,
    {
        let gpus = sort_by_index(gpus);
        let pending = unique_pids(&gpus);
        let c = Collector {
            gpus,
            processes: Vec::new(),
            cuda_version,
            driver_version,
            host: None,
            pending,
            cursor: 0,
            host_done: false,
        };
        c
    }

    /// What the caller is to do next.
    pub fn action(&self) -> (a: Action)
        ensures
            a == self@.action(),
            self@.wf(),
    {
        proof {
            use_type_invariant(self);
        }
        if self.cursor < self.pending.len() {
            Action::InspectProcess(self.pending[self.cursor])
        } else if !self.host_done {
            Action::QueryHost
        } else {
            Action::Done
        }
    }

    /// Takes what came back from the last action.
    pub fn advance(self, event: Event) -> (next: Collector)
        ensures
            self@.wf(),
            next@ == self@.advance(event),
            next@.wf(),
    {
        proof {
            use_type_invariant(&self);
            lemma_advance_keeps_wf(self@, event);
        }
        let action = self.action();
        let ghost before = self@;
        let Collector {
            gpus,
            mut processes,
            cuda_version,
            driver_version,
            mut host,
            pending,
            mut cursor,
            mut host_done,
        } = self;
        let total = pending.len();
        assert(before.cursor == cursor && before.pending == pending@);
        assert(action is InspectProcess ==> cursor < total);
        match (action, event) {
            (Action::InspectProcess(pid), Event::ProcessTable(text)) => {
                let ghost old_processes = processes@;
                match ProcessStats::from_pid(pid, text.as_str()) {
                    Ok(p) => {
                        processes.push(p);
                        assert(process_snapshots(processes@) =~= process_snapshots(
                            old_processes,
                        ).push(p@));
                    },
                    Err(_) => {},
                }
                cursor = cursor + 1;
            },
            (Action::InspectProcess(_), Event::ProcessQueryFailed) => {
                cursor = cursor + 1;
            },
            (Action::QueryHost, Event::HostOutputs(count, memory, io)) => {
                host = HostStats::from_outputs(count.as_str(), memory.as_str(), io.as_str());
                host_done = true;
            },
            (Action::QueryHost, Event::HostQueryFailed) => {
                host_done = true;
            },
            _ => {},
        }
        let next = Collector {
            gpus,
            processes,
            cuda_version,
            driver_version,
            host,
            pending,
            cursor,
            host_done,
        };
        next
    }

    /// The report, once nothing is left to do.
    pub fn finish(self) -> (out: Option<Machine>)
        ensures
            out is Some <==> self@.action() == Action::Done,
            out matches Some(m) ==> m@ == self@.report && m@.wf(),
    {
        proof {
            use_type_invariant(&self);
            lemma_report_of_sound_progress(self@);
        }
        match self.action() {
            Action::Done => Some(
                Machine {
                    gpus: self.gpus,
                    processes: self.processes,
                    cuda_version: self.cuda_version,
                    driver_version: self.driver_version,
                    host: self.host,
                },
            ),
            _ => None,
        }
    }
}

impl Machine {
    /// The devices, in the order of their ordinals, those without one last.
    pub fn gpus(&self) -> (r: &Vec<GPUStats>)
        ensures
            snapshots(r@) == self@.devices,
    {
        &self.gpus
    }

    /// The processes on the devices, in increasing order of their ids.
    pub fn processes(&self) -> (r: &Vec<ProcessStats>)
        ensures
            process_snapshots(r@) == self@.processes,
    {
        &self.processes
    }

    /// The version of the driver.
    pub fn driver_version(&self) -> (r: &String)
        ensures
            r@ == self@.driver_version,
    {
        &self.driver_version
    }

    /// The version of the monitoring interface.
    pub fn cuda_version(&self) -> (r: &String)
        ensures
            r@ == self@.monitoring_api_version,
    {
        &self.cuda_version
    }

    /// The host, if it could be read.
    pub fn host(&self) -> (r: &Option<HostStats>)
        ensures
            host_snapshot(*r) == self@.host,
    {
        &self.host
    }
}

/// What the answer of the driver to the opening of a session means: the
/// session, or the one failure that ends a run.
pub fn session_of(answer: Result<Nvml, NvmlError>) -> (out: Result<Nvml, ReportError>)
    ensures
        match answer {
            Ok(nvml) => out == Ok::<Nvml, ReportError>(nvml),
            Err(_) => out == Err::<Nvml, ReportError>(ReportError::InitializationFailure),
        },
{
    match answer {
        Ok(nvml) => Ok(nvml),
        Err(_) => Err(ReportError::InitializationFailure),
    }
}

/// Opens the monitoring session. Without it there is no report. Whether
/// it opens depends on the driver of the machine; what its answer means is
/// said by `session_of`.
pub fn open_session() -> (out: Result<Nvml, ReportError>) {
    session_of(init_session())
}

/// The devices after one more device was asked: where its handle could be
/// had and a snapshot can be made of its readings, the snapshot joins the
/// others; else the others stay as they are.
pub open spec fn keep(devices: Seq<DeviceSnapshot>, answer: Option<DeviceReadings>) -> Seq<
    DeviceSnapshot,
> {
    match answer {
        Some(readings) => if readings.aborted() {
            devices
        } else {
            devices.push(readings.snapshot())
        },
        None => devices,
    }
}

/// The devices that the answers give, one answer for each ordinal in
/// increasing order: `None` where the handle of the device could not be
/// had, else what was read of the device.
pub open spec fn kept(answers: Seq<Option<DeviceReadings>>) -> Seq<DeviceSnapshot>
    decreases answers.len(),
{
    if answers.len() == 0 {
        Seq::empty()
    } else {
        keep(kept(answers.drop_last()), answers.last())
    }
}

/// No answer gives more than one device, and each device that the answers
/// give is well formed.
pub proof fn lemma_kept(answers: Seq<Option<DeviceReadings>>)
    ensures
        kept(answers).len() <= answers.len(),
        forall|i: int| 0 <= i < kept(answers).len() ==> (#[trigger] kept(answers)[i]).wf(),
    decreases answers.len(),
{
    if answers.len() > 0 {
        lemma_kept(answers.drop_last());
        match answers.last() {
            Some(readings) => {
                lemma_snapshot_is_well_formed(readings);
            },
            None => {},
        }
    }
}

/// Takes what one device answered: where its handle could be had and a
/// snapshot can be made of its readings, the snapshot joins the devices;
/// else the devices stay as they are.
pub fn keep_device(gpus: &mut Vec<GPUStats>, answer: Option<DeviceReadings>)
    ensures
        snapshots(final(gpus)@) == keep(snapshots(old(gpus)@), answer),
{
    match answer {
        Some(readings) => match GPUStats::from_readings(readings) {
            Some(gpu) => {
                gpus.push(gpu);
                assert(snapshots(gpus@) =~= snapshots(old(gpus)@).push(gpu@));
            },
            None => {},
        },
        None => {},
    }
}

/// Takes the snapshot of each device of the session, in the order of their
/// ordinals. A device that cannot be reached or read is left out; the
/// others stay. Which devices answer depends on the machine. Whatever they
/// answer, the devices are what `keep_device` makes of one answer for each
/// ordinal below the count that the session gives, and each snapshot is
/// well formed.
pub fn collect_devices(nvml: &Nvml) -> (gpus: Vec<GPUStats>)
    ensures
        exists|answers: Seq<Option<DeviceReadings>>|
            answers.len() <= u32::MAX && snapshots(gpus@) == #[trigger] kept(answers),
        gpus@.len() <= u32::MAX,
        forall|i: int| 0 <= i < gpus@.len() ==> (#[trigger] gpus@[i])@.wf(),
{
    let count = match query_device_count(nvml) {
        Ok(n) => n,
        Err(_) => 0,
    };
    let mut gpus: Vec<GPUStats> = Vec::new();
    let ghost mut answers: Seq<Option<DeviceReadings>> = Seq::empty();
    let mut index: u32 = 0;
    assert(snapshots(gpus@) =~= kept(answers));
    while index < count
        invariant
            index <= count,
            answers.len() == index,
            snapshots(gpus@) == kept(answers),
        decreases count - index,
    {
        let answer = match query_device(nvml, index) {
            Ok(device) => Some(read_device(&device)),
            Err(_) => None,
        };
        proof {
            let before = answers;
            answers = answers.push(answer);
            assert(answers.drop_last() =~= before);
        }
        keep_device(&mut gpus, answer);
        index += 1;
    }
    proof {
        lemma_kept(answers);
        assert forall|i: int| 0 <= i < gpus@.len() implies (#[trigger] gpus@[i])@.wf() by {
            assert(snapshots(gpus@)[i] == gpus@[i]@);
        }
        assert(snapshots(gpus@).len() == gpus@.len());
    }
    gpus
}

/// Begins the collection of a report on the devices of the session: its
/// versions are those that `get_driver_stats` gives, its devices those
/// that `collect_devices` gives, in the order of their ordinals. Nothing
/// is known yet of processes or host.
pub fn scan(nvml: &Nvml) -> (c: Collector)
    ensures
        c@.wf(),
        exists|cuda: Option<i32>, driver: Option<Seq<char>>|
            (c@.report.monitoring_api_version, c@.report.driver_version)
                == #[trigger] driver_stats_text(cuda, driver),
        exists|answers: Seq<Option<DeviceReadings>>|
            answers.len() <= u32::MAX && c@.report.devices == by_index(#[trigger] kept(answers)),
        c@.report.processes.len() == 0,
        c@.report.host.is_none(),
        c@.cursor == 0,
        !c@.host_done,
{
    let (cuda_version, driver_version) = get_driver_stats(nvml);
    let gpus = collect_devices(nvml);
    let ghost versions = (cuda_version@, driver_version@);
    let ghost devices = snapshots(gpus@);
    let c = Collector::start(driver_version, cuda_version, gpus);
    proof {
        let (cuda, driver) = choose|cuda: Option<i32>, driver: Option<Seq<char>>|
            versions == #[trigger] driver_stats_text(cuda, driver);
        assert((c@.report.monitoring_api_version, c@.report.driver_version) == driver_stats_text(
            cuda,
            driver,
        ));
        let answers = choose|answers: Seq<Option<DeviceReadings>>|
            answers.len() <= u32::MAX && devices == #[trigger] kept(answers);
        assert(c@.report.devices == by_index(kept(answers)));
    }
    c
}

} // verus!
