//! The metrics of the host that do not belong to a device.

use vstd::prelude::*;
use vstd::string::*;
use crate::disk::{get_io_stats, parse_io_stats};
use crate::process::{get_cpu_stats, parse_cpu_stats};

verus! {

/// What is known of the host.
pub struct HostSnapshot {
    pub cpu_count: Seq<char>,
    pub ram_capacity: Seq<char>,
    pub io_wait_pct: Seq<char>,
    pub io_steal_pct: Seq<char>,
    pub io_idle_pct: Seq<char>,
}

/// The metrics of the host at snapshot time.
pub struct HostStats {
    cpu_count: String,
    ram_capacity: String,
    io_wait_pct: String,
    io_steal_pct: String,
    io_idle_pct: String,
}

/// What the outputs of the three host queries say of the host. Where one
/// of them does not have its shape, nothing is known of the host.
pub open spec fn parse_host(
    count_output: Seq<char>,
    memory_output: Seq<char>,
    io_output: Seq<char>,
) -> Option<HostSnapshot> {
    match (parse_cpu_stats(count_output, memory_output), parse_io_stats(io_output)) {
        (Some(cpu), Some(io)) => Some(
            HostSnapshot {
                cpu_count: cpu.0,
                ram_capacity: cpu.1,
                io_wait_pct: io.0,
                io_steal_pct: io.1,
                io_idle_pct: io.2,
            },
        ),
        _ => None,
    }
}

impl HostSnapshot {
    /// The line above the process table.
    pub open spec fn panel_text(self) -> Seq<char> {
        "Num CPUs: "@ + self.cpu_count + "  RAM Capacity: "@ + self.ram_capacity + "  IO Wait: "@
            + self.io_wait_pct + "  Steal: "@ + self.io_steal_pct + "  Idle: "@ + self.io_idle_pct
    }
}

impl View for HostStats {
    type V = HostSnapshot;

    closed spec fn view(&self) -> HostSnapshot {
        HostSnapshot {
            cpu_count: self.cpu_count@,
            ram_capacity: self.ram_capacity@,
            io_wait_pct: self.io_wait_pct@,
            io_steal_pct: self.io_steal_pct@,
            io_idle_pct: self.io_idle_pct@,
        }
    }
}

impl HostStats {
    /// Reads the host from the outputs of the processor count query, the
    /// memory summary and the I/O statistics query.
    pub fn from_outputs(nproc_output: &str, free_output: &str, iostat_output: &str) -> (out: Option<
        HostStats,
    >)
        ensures
            match out {
                Some(h) => parse_host(nproc_output@, free_output@, iostat_output@) == Some(h@),
                None => parse_host(nproc_output@, free_output@, iostat_output@).is_none(),
            },
    {
        let cpu = get_cpu_stats(nproc_output, free_output);
        let io = get_io_stats(iostat_output);
        match (cpu, io) {
            (Some(cpu), Some(io)) => Some(
                HostStats {
                    cpu_count: cpu.0,
                    ram_capacity: cpu.1,
                    io_wait_pct: io.0,
                    io_steal_pct: io.1,
                    io_idle_pct: io.2,
                },
            ),
            _ => None,
        }
    }

    /// The line above the process table.
    pub fn panel(&self) -> (out: String)
        ensures
            out@ == self@.panel_text(),
    {
        let mut out = String::from_str("Num CPUs: ");
        out.append(self.cpu_count.as_str());
        out.append("  RAM Capacity: ");
        out.append(self.ram_capacity.as_str());
        out.append("  IO Wait: ");
        out.append(self.io_wait_pct.as_str());
        out.append("  Steal: ");
        out.append(self.io_steal_pct.as_str());
        out.append("  Idle: ");
        out.append(self.io_idle_pct.as_str());
        out
    }
}

} // verus!
