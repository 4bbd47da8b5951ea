//! One process that computes on a device, read from a line of the process
//! table, and the processor count and memory size of the host.

use vstd::prelude::*;
use vstd::string::*;
use crate::text::{chars_of, decimal, decimal_string, join, join_from, split_whitespace, tokens};

verus! {

/// Why a line of the process table gave no process.
#[derive(Clone, Copy, Debug, PartialEq, Eq, Structural)]
pub enum ProcessError {
    /// The table holds no line for the process: it has exited.
    ProcessGone,
    /// The line has fewer fields than were asked for.
    ParseFailure,
}

/// What is known of one process.
pub struct ProcessSnapshot {
    pub pid: u32,
    pub user: Seq<char>,
    pub cpu_pct: Seq<char>,
    pub mem_pct: Seq<char>,
    pub elapsed: Seq<char>,
    pub command: Seq<char>,
}

/// One process that computes on a device.
pub struct ProcessStats {
    pid: u32,
    user: String,
    cpu_pct: String,
    mem_pct: String,
    elapsed: String,
    command: String,
}

/// What the line `output` of the process table says of the process `pid`.
/// The fields are the id, the user, the processor and memory shares, the
/// elapsed time and the words of the command.
pub open spec fn parse_process(pid: u32, output: Seq<char>) -> Result<
    ProcessSnapshot,
    ProcessError,
> {
    let fields = tokens(output);
    if fields.len() == 0 {
        Err(ProcessError::ProcessGone)
    } else if fields.len() < 5 {
        Err(ProcessError::ParseFailure)
    } else {
        Ok(
            ProcessSnapshot {
                pid,
                user: fields[1],
                cpu_pct: fields[2],
                mem_pct: fields[3],
                elapsed: fields[4],
                command: join(fields.skip(5), " "@),
            },
        )
    }
}

/// Whether `c` is a decimal digit.
pub open spec fn is_digit(c: char) -> bool {
    0x30 <= c as u32 <= 0x39
}

/// Whether `s` is a numeral: digits, and at least one.
pub open spec fn is_numeral(s: Seq<char>) -> bool {
    s.len() > 0 && forall|i: int| 0 <= i < s.len() ==> is_digit(#[trigger] s[i])
}

/// The processor count and the memory size that the outputs of the two
/// host queries give: the count is the one field of the first, a numeral;
/// the size is the eighth field of the second.
pub open spec fn parse_cpu_stats(count_output: Seq<char>, memory_output: Seq<char>) -> Option<
    (Seq<char>, Seq<char>),
> {
    let count = tokens(count_output);
    let memory = tokens(memory_output);
    if count.len() == 1 && is_numeral(count[0]) && memory.len() >= 8 {
        Some((count[0], memory[7]))
    } else {
        None
    }
}

impl ProcessSnapshot {
    /// The cell that sums up the shares of the process.
    pub open spec fn utilizations_text(self) -> Seq<char> {
        "CPU "@ + self.cpu_pct + "% RAM "@ + self.mem_pct + "%"@
    }
}

impl View for ProcessStats {
    type V = ProcessSnapshot;

    closed spec fn view(&self) -> ProcessSnapshot {
        ProcessSnapshot {
            pid: self.pid,
            user: self.user@,
            cpu_pct: self.cpu_pct@,
            mem_pct: self.mem_pct@,
            elapsed: self.elapsed@,
            command: self.command@,
        }
    }
}

impl ProcessStats {
    /// Reads the process `pid` from the line that the process table gave
    /// for it. The words of the command are joined with single blanks.
    pub fn from_pid(pid: u32, ps_output: &str) -> (out: Result<ProcessStats, ProcessError>)
        ensures
            match out {
                Ok(p) => parse_process(pid, ps_output@) == Ok::<ProcessSnapshot, ProcessError>(p@),
                Err(e) => parse_process(pid, ps_output@) == Err::<ProcessSnapshot, ProcessError>(e),
            },
    {
        let fields = split_whitespace(ps_output);
        if fields.len() == 0 {
            return Err(ProcessError::ProcessGone);
        }
        if fields.len() < 5 {
            return Err(ProcessError::ParseFailure);
        }
        let command = join_from(&fields, 5, " ");
        Ok(
            ProcessStats {
                pid,
                user: fields[1].clone(),
                cpu_pct: fields[2].clone(),
                mem_pct: fields[3].clone(),
                elapsed: fields[4].clone(),
                command,
            },
        )
    }

    /// The id of the process.
    pub fn pid(&self) -> (r: u32)
        ensures
            r == self@.pid,
    {
        self.pid
    }

    /// The user who owns the process.
    pub fn user(&self) -> (r: &String)
        ensures
            r@ == self@.user,
    {
        &self.user
    }

    /// The elapsed time of the process, as the process table writes it.
    pub fn elapsed(&self) -> (r: &String)
        ensures
            r@ == self@.elapsed,
    {
        &self.elapsed
    }

    /// The command line of the process.
    pub fn command(&self) -> (r: &String)
        ensures
            r@ == self@.command,
    {
        &self.command
    }

    /// The cell of the id.
    pub fn display_pid(&self) -> (out: String)
        ensures
            out@ == decimal(self@.pid as nat),
    {
        decimal_string(self.pid as u64)
    }

    /// The cell that sums up the shares of the process.
    pub fn display_utilizations(&self) -> (out: String)
        ensures
            out@ == self@.utilizations_text(),
    {
        let mut out = String::from_str("CPU ");
        out.append(self.cpu_pct.as_str());
        out.append("% RAM ");
        out.append(self.mem_pct.as_str());
        out.append("%");
        out
    }
}

/// Decides whether `s` is a numeral.
pub fn check_numeral(s: &str) -> (r: bool)
    ensures
        r == is_numeral(s@),
{
    let chars = chars_of(s);
    if chars.len() == 0 {
        return false;
    }
    let mut i: usize = 0;
    while i < chars.len()
        invariant
            i <= chars@.len(),
            chars@ == s@,
            forall|k: int| 0 <= k < i ==> is_digit(#[trigger] s@[k]),
        decreases chars@.len() - i,
    {
        let n: u32 = chars[i] as u32;
        if n < 0x30 || n > 0x39 {
            return false;
        }
        i += 1;
    }
    true
}

/// Reads the processor count from the output of the count query and the
/// memory size from the output of the memory summary.
pub fn get_cpu_stats(nproc_output: &str, free_output: &str) -> (out: Option<(String, String)>)
    ensures
        match out {
            Some(pair) => parse_cpu_stats(nproc_output@, free_output@) == Some(
                (pair.0@, pair.1@),
            ),
            None => parse_cpu_stats(nproc_output@, free_output@).is_none(),
        },
{
    let count = split_whitespace(nproc_output);
    let memory = split_whitespace(free_output);
    if count.len() != 1 || memory.len() < 8 {
        return None;
    }
    if !check_numeral(count[0].as_str()) {
        return None;
    }
    Some((count[0].clone(), memory[7].clone()))
}

} // verus!
