//! The report as text: the device table, the process table and the
//! bottleneck section, each under its title.
//!
//! The library chooses the columns, writes the cells and cuts them to the
//! width of their column; the layout engine draws the grid.

use vstd::prelude::*;
use vstd::string::*;
use crate::bottleneck::{bottleneck_section, bottleneck_text};
use crate::gpu::{DeviceSnapshot, GPUStats};
use crate::machine::{process_snapshots, Machine, Report};
use crate::options::Sections;
use crate::pids::snapshots;
use crate::process::{ProcessSnapshot, ProcessStats};
use crate::table::{grid_text, layout_grid, layout_panel_grid, panel_grid_text};
use crate::text::{decimal, fit, fit_string, pad_right, pad_right_string};

verus! {

/// The width of the name column of the device table.
pub const NAME_WIDTH: usize = 15;

/// The width of the process column of the device table.
pub const PROCESSES_WIDTH: usize = 10;

/// The least width of the id column of the process table.
pub const PID_WIDTH: usize = 7;

/// The width of the user column of the process table.
pub const USER_WIDTH: usize = 8;

/// The width of the utilization column of the process table.
pub const UTILIZATIONS_WIDTH: usize = 20;

/// The width of the elapsed time column of the process table.
pub const ELAPSED_WIDTH: usize = 10;

/// The width of the command column of the process table.
pub const COMMAND_WIDTH: usize = 22;

/// The width of the command column of the verbose process table.
pub const COMMAND_WIDTH_VERBOSE: usize = 75;

/// The number of columns of the device table that is not verbose.
pub const BRIEF_COLUMNS: usize = 6;

/// The width of the command column.
pub open spec fn command_width(verbose: bool) -> nat {
    if verbose {
        75
    } else {
        22
    }
}

/// A section of the report: an empty line, the title, the body.
pub open spec fn section(title: Seq<char>, body: Seq<char>) -> Seq<char> {
    "\n"@ + title + "\n"@ + body + "\n"@
}

/// The titles of the columns of the device table. The verbose table has
/// the columns of the other, and five more after them.
pub open spec fn device_header(verbose: bool) -> Seq<Seq<char>> {
    let brief = seq![
        "Idx"@,
        fit("Name"@, 15),
        "Temp"@,
        "Power"@,
        "Utilizations"@,
        "Memory"@,
    ];
    if verbose {
        brief.push("Capability"@).push("Cores"@).push("Fan"@).push("Display"@).push(
            fit("Processes"@, 10),
        )
    } else {
        brief
    }
}

/// The cells of one device, column by column.
pub open spec fn device_row(d: DeviceSnapshot, verbose: bool) -> Seq<Seq<char>> {
    let brief = seq![
        d.index_text(),
        fit(d.name_text(), 15),
        d.temp_text(),
        d.power_text(),
        d.utilizations_text(),
        d.memory_text(),
    ];
    if verbose {
        brief.push(d.capability_text()).push(d.cores_text()).push(d.fan_text()).push(
            d.display_text(),
        ).push(fit(d.processes_text(), 10))
    } else {
        brief
    }
}

/// The rows of the device table: the titles, then one row for each device.
pub open spec fn device_records(devices: Seq<DeviceSnapshot>, verbose: bool) -> Seq<
    Seq<Seq<char>>,
> {
    seq![device_header(verbose)] + Seq::new(
        devices.len(),
        |i: int| device_row(devices[i], verbose),
    )
}

/// The line above the device table.
pub open spec fn device_panel(report: Report) -> Seq<char> {
    "Driver Version: "@ + report.driver_version + "  CUDA Version: "@
        + report.monitoring_api_version
}

/// The device section of the report.
pub open spec fn gpu_text(report: Report, verbose: bool) -> Seq<char> {
    section(
        "GPU Usage:"@,
        panel_grid_text(device_panel(report), device_records(report.devices, verbose)),
    )
}

/// The titles of the columns of the process table.
pub open spec fn process_header(verbose: bool) -> Seq<Seq<char>> {
    seq![
        pad_right("PID"@, 7),
        fit("USER"@, 8),
        fit("UTILIZATIONS"@, 20),
        fit("ELAPSED"@, 10),
        fit("COMMAND"@, command_width(verbose)),
    ]
}

/// The cells of one process, column by column.
pub open spec fn process_row(p: ProcessSnapshot, verbose: bool) -> Seq<Seq<char>> {
    seq![
        pad_right(decimal(p.pid as nat), 7),
        fit(p.user, 8),
        fit(p.utilizations_text(), 20),
        fit(p.elapsed, 10),
        fit(p.command, command_width(verbose)),
    ]
}

/// The rows of the process table: the titles, then one row for each
/// process.
pub open spec fn process_records(processes: Seq<ProcessSnapshot>, verbose: bool) -> Seq<
    Seq<Seq<char>>,
> {
    seq![process_header(verbose)] + Seq::new(
        processes.len(),
        |i: int| process_row(processes[i], verbose),
    )
}

/// The line that stands for a process table without processes.
pub open spec fn no_processes() -> Seq<char> {
    "no compute processes found"@
}

/// What stands under the title of the process section: the one line where
/// there is no process; else the table, under the line of the host where
/// the host is known.
pub open spec fn process_body(report: Report, verbose: bool) -> Seq<char> {
    if report.processes.len() == 0 {
        no_processes()
    } else {
        match report.host {
            Some(h) => panel_grid_text(
                h.panel_text(),
                process_records(report.processes, verbose),
            ),
            None => grid_text(process_records(report.processes, verbose)),
        }
    }
}

/// The process section of the report.
pub open spec fn cpu_text(report: Report, verbose: bool) -> Seq<char> {
    section("CPU Usage:"@, process_body(report, verbose))
}

/// The whole text of a report: the device section, then the process
/// section and the bottleneck section where they are asked for.
pub open spec fn report_text(report: Report, sections: Sections) -> Seq<char> {
    gpu_text(report, sections.verbose) + (if sections.cpu {
        cpu_text(report, sections.verbose)
    } else {
        Seq::empty()
    }) + (if sections.bottleneck {
        bottleneck_text(report.devices)
    } else {
        Seq::empty()
    })
}

/// Appends a cell to a row.
fn push_cell(row: &mut Vec<String>, cell: String)
    ensures
        final(row).deep_view() == old(row).deep_view().push(cell@),
{
    row.push(cell);
    assert(row.deep_view() =~= old(row).deep_view().push(cell@));
}

/// Appends a row to the rows of a table.
fn push_row(records: &mut Vec<Vec<String>>, row: Vec<String>)
    ensures
        final(records)@ == old(records)@.push(row),
        final(records).deep_view() == old(records).deep_view().push(row.deep_view()),
{
    records.push(row);
    assert(records.deep_view() =~= old(records).deep_view().push(row.deep_view()));
}

/// Puts a body under its title: the text of one section.
pub fn frame_section(title: &str, body: &str) -> (out: String)
    ensures
        out@ == section(title@, body@),
{
    let mut out = String::from_str("\n");
    out.append(title);
    out.append("\n");
    out.append(body);
    out.append("\n");
    out
}

/// The titles of the columns of the device table.
pub fn device_header_cells(verbose: bool) -> (row: Vec<String>)
    ensures
        row.deep_view() == device_header(verbose),
{
    let mut row: Vec<String> = Vec::new();
    assert(row.deep_view() =~= Seq::<Seq<char>>::empty());
    push_cell(&mut row, String::from_str("Idx"));
    push_cell(&mut row, fit_string("Name", NAME_WIDTH));
    push_cell(&mut row, String::from_str("Temp"));
    push_cell(&mut row, String::from_str("Power"));
    push_cell(&mut row, String::from_str("Utilizations"));
    push_cell(&mut row, String::from_str("Memory"));
    if verbose {
        push_cell(&mut row, String::from_str("Capability"));
        push_cell(&mut row, String::from_str("Cores"));
        push_cell(&mut row, String::from_str("Fan"));
        push_cell(&mut row, String::from_str("Display"));
        push_cell(&mut row, fit_string("Processes", PROCESSES_WIDTH));
    }
    row
}

/// The cells of one device, column by column.
pub fn device_cells(gpu: &GPUStats, verbose: bool) -> (row: Vec<String>)
    ensures
        row.deep_view() == device_row(gpu@, verbose),
{
    let mut row: Vec<String> = Vec::new();
    assert(row.deep_view() =~= Seq::<Seq<char>>::empty());
    push_cell(&mut row, gpu.display_index());
    let name = gpu.display_name();
    push_cell(&mut row, fit_string(name.as_str(), NAME_WIDTH));
    push_cell(&mut row, gpu.display_temp());
    push_cell(&mut row, gpu.display_power());
    push_cell(&mut row, gpu.display_utilizations());
    push_cell(&mut row, gpu.display_memory());
    if verbose {
        push_cell(&mut row, gpu.display_capability());
        push_cell(&mut row, gpu.display_cores());
        push_cell(&mut row, gpu.display_fan());
        push_cell(&mut row, gpu.display_display());
        let processes = gpu.display_processes();
        push_cell(&mut row, fit_string(processes.as_str(), PROCESSES_WIDTH));
    }
    row
}

/// The rows of the device table: the titles, then one row for each device.
pub fn device_table(gpus: &Vec<GPUStats>, verbose: bool) -> (records: Vec<Vec<String>>)
    ensures
        records.deep_view() == device_records(snapshots(gpus@), verbose),
        records@.len() > 0,
        records@[0]@.len() > 0,
{
    let ghost devices = snapshots(gpus@);
    let mut records: Vec<Vec<String>> = Vec::new();
    assert(records.deep_view() =~= Seq::<Seq<Seq<char>>>::empty());
    let header = device_header_cells(verbose);
    assert(header@.len() == header.deep_view().len() >= 6);
    push_row(&mut records, header);
    let mut i: usize = 0;
    while i < gpus.len()
        invariant
            i <= gpus@.len(),
            devices == snapshots(gpus@),
            records.deep_view() == device_records(devices.take(i as int), verbose),
            records@.len() == i + 1,
            records@[0]@.len() > 0,
        decreases gpus@.len() - i,
    {
        let row = device_cells(&gpus[i], verbose);
        push_row(&mut records, row);
        assert(records.deep_view() =~= device_records(devices.take(i + 1), verbose));
        i += 1;
    }
    assert(devices.take(i as int) =~= devices);
    records
}

/// The titles of the columns of the process table.
pub fn process_header_cells(verbose: bool) -> (row: Vec<String>)
    ensures
        row.deep_view() == process_header(verbose),
{
    let width = if verbose {
        COMMAND_WIDTH_VERBOSE
    } else {
        COMMAND_WIDTH
    };
    let mut row: Vec<String> = Vec::new();
    assert(row.deep_view() =~= Seq::<Seq<char>>::empty());
    push_cell(&mut row, pad_right_string("PID", PID_WIDTH));
    push_cell(&mut row, fit_string("USER", USER_WIDTH));
    push_cell(&mut row, fit_string("UTILIZATIONS", UTILIZATIONS_WIDTH));
    push_cell(&mut row, fit_string("ELAPSED", ELAPSED_WIDTH));
    push_cell(&mut row, fit_string("COMMAND", width));
    row
}

/// The cells of one process, column by column.
pub fn process_cells(process: &ProcessStats, verbose: bool) -> (row: Vec<String>)
    ensures
        row.deep_view() == process_row(process@, verbose),
{
    let width = if verbose {
        COMMAND_WIDTH_VERBOSE
    } else {
        COMMAND_WIDTH
    };
    let mut row: Vec<String> = Vec::new();
    assert(row.deep_view() =~= Seq::<Seq<char>>::empty());
    let pid = process.display_pid();
    push_cell(&mut row, pad_right_string(pid.as_str(), PID_WIDTH));
    push_cell(&mut row, fit_string(process.user().as_str(), USER_WIDTH));
    let shares = process.display_utilizations();
    push_cell(&mut row, fit_string(shares.as_str(), UTILIZATIONS_WIDTH));
    push_cell(&mut row, fit_string(process.elapsed().as_str(), ELAPSED_WIDTH));
    push_cell(&mut row, fit_string(process.command().as_str(), width));
    row
}

/// The rows of the process table: the titles, then one row for each
/// process.
pub fn process_table(processes: &Vec<ProcessStats>, verbose: bool) -> (records: Vec<
    Vec<String>,
>)
    ensures
        records.deep_view() == process_records(process_snapshots(processes@), verbose),
        records@.len() > 0,
        records@[0]@.len() > 0,
{
    let ghost all = process_snapshots(processes@);
    let mut records: Vec<Vec<String>> = Vec::new();
    assert(records.deep_view() =~= Seq::<Seq<Seq<char>>>::empty());
    let header = process_header_cells(verbose);
    assert(header@.len() == header.deep_view().len() == 5);
    push_row(&mut records, header);
    let mut i: usize = 0;
    while i < processes.len()
        invariant
            i <= processes@.len(),
            all == process_snapshots(processes@),
            records.deep_view() == process_records(all.take(i as int), verbose),
            records@.len() == i + 1,
            records@[0]@.len() > 0,
        decreases processes@.len() - i,
    {
        let row = process_cells(&processes[i], verbose);
        push_row(&mut records, row);
        assert(records.deep_view() =~= process_records(all.take(i + 1), verbose));
        i += 1;
    }
    assert(all.take(i as int) =~= all);
    records
}

impl Machine {
    /// The device section: the title, then the table of the devices under
    /// the line of the two versions. The table that is not verbose holds
    /// the first six columns of the verbose one.
    pub fn display_gpu_stats(&self, verbose: bool) -> (out: String)
        ensures
            out@ == gpu_text(self@, verbose),
    {
        let records = device_table(self.gpus(), verbose);
        let mut panel = String::from_str("Driver Version: ");
        panel.append(self.driver_version().as_str());
        panel.append("  CUDA Version: ");
        panel.append(self.cuda_version().as_str());
        let table = layout_panel_grid(panel.as_str(), records);
        frame_section("GPU Usage:", table.as_str())
    }

    /// The process section: the title, then the table of the processes,
    /// under the line of the host where the host is known. Where there is
    /// no process, one line says so in place of the table.
    pub fn display_cpu_stats(&self, verbose: bool) -> (out: String)
        ensures
            out@ == cpu_text(self@, verbose),
    {
        let processes = self.processes();
        if processes.len() == 0 {
            return frame_section("CPU Usage:", "no compute processes found");
        }
        let records = process_table(processes, verbose);
        let table = match self.host() {
            Some(host) => {
                let panel = host.panel();
                layout_panel_grid(panel.as_str(), records)
            },
            None => layout_grid(records),
        };
        frame_section("CPU Usage:", table.as_str())
    }

    /// The whole text of the report: the device section, then the process
    /// section and the bottleneck section where they are asked for.
    pub fn render(&self, sections: Sections) -> (out: String)
        ensures
            out@ == report_text(self@, sections),
    {
        let mut out = self.display_gpu_stats(sections.verbose);
        if sections.cpu {
            let cpu = self.display_cpu_stats(sections.verbose);
            out.append(cpu.as_str());
        }
        if sections.bottleneck {
            let bottleneck = self.display_bottleneck_diagnostics();
            out.append(bottleneck.as_str());
        }
        assert(out@ =~= report_text(self@, sections));
        out
    }

    /// The bottleneck section: the title, then one line for each active
    /// reason of each device.
    pub fn display_bottleneck_diagnostics(&self) -> (out: String)
        ensures
            out@ == bottleneck_text(self@.devices),
    {
        bottleneck_section(self.gpus())
    }
}

/// The text of a report depends on what the report holds and on nothing
/// else: reports that hold the same give the same three sections.
pub proof fn lemma_rendering_is_deterministic(a: Report, b: Report, verbose: bool)
    requires
        a.driver_version == b.driver_version,
        a.monitoring_api_version == b.monitoring_api_version,
        a.devices =~= b.devices,
        a.processes =~= b.processes,
        a.host == b.host,
    ensures
        gpu_text(a, verbose) == gpu_text(b, verbose),
        cpu_text(a, verbose) == cpu_text(b, verbose),
        bottleneck_text(a.devices) == bottleneck_text(b.devices),
{
}

/// The verbose device table adds columns after those of the other table
/// and changes none of them: each row of the table that is not verbose is
/// the first six cells of the same row of the verbose one.
pub proof fn lemma_verbose_device_table_only_adds(devices: Seq<DeviceSnapshot>)
    ensures
        device_records(devices, false).len() == device_records(devices, true).len(),
        forall|i: int|
            0 <= i < device_records(devices, false).len() ==> #[trigger] device_records(
                devices,
                false,
            )[i] == device_records(devices, true)[i].take(6),
{
    assert(device_header(false) =~= device_header(true).take(6));
    assert forall|i: int| 0 <= i < device_records(devices, false).len() implies #[trigger]
        device_records(devices, false)[i] == device_records(devices, true)[i].take(6) by {
        if i > 0 {
            let d = devices[i - 1];
            assert(device_row(d, false) =~= device_row(d, true).take(6));
        }
    }
}

/// The verbose process table has the rows and columns of the other one.
/// The cells of the first four columns are the same in both. The command
/// column is wider in the verbose table: a command that fits the narrow
/// column is cut in neither, and the narrow cell is the beginning of the
/// wide one.
pub proof fn lemma_verbose_process_table_only_widens(processes: Seq<ProcessSnapshot>)
    ensures
        process_records(processes, false).len() == process_records(processes, true).len(),
        forall|i: int|
            0 <= i < process_records(processes, false).len() ==> (#[trigger] process_records(
                processes,
                false,
            )[i]).len() == 5 && process_records(processes, true)[i].len() == 5,
        forall|i: int, c: int|
            0 <= i < process_records(processes, false).len() && 0 <= c < 4
                ==> #[trigger] process_records(processes, false)[i][c] == process_records(
                processes,
                true,
            )[i][c],
        forall|i: int|
            0 <= i < processes.len() && (#[trigger] processes[i]).command.len() <= 22
                ==> process_records(processes, false)[i + 1][4] == process_records(
                processes,
                true,
            )[i + 1][4].take(22),
{
    assert forall|i: int|
        0 <= i < processes.len() && (#[trigger] processes[i]).command.len() <= 22 implies
        process_records(processes, false)[i + 1][4] == process_records(processes, true)[i
            + 1][4].take(22) by {
        let command = processes[i].command;
        assert(fit(command, 22) =~= fit(command, 75).take(22));
    }
}

/// A report without processes has the one line in place of the process
/// table, whatever is known of the host.
pub proof fn lemma_no_process_no_table(report: Report, verbose: bool)
    requires
        report.processes.len() == 0,
    ensures
        cpu_text(report, verbose) == section("CPU Usage:"@, no_processes()),
        process_body(report, verbose) == process_body(report, !verbose),
{
}

/// Where nothing is known of the host, the process table stands without
/// the line of the host.
pub proof fn lemma_absent_host_no_panel(report: Report, verbose: bool)
    requires
        report.host.is_none(),
        report.processes.len() > 0,
    ensures
        cpu_text(report, verbose) == section(
            "CPU Usage:"@,
            grid_text(process_records(report.processes, verbose)),
        ),
{
}

} // verus!
