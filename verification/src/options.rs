//! What the flags of the command line ask for.

use vstd::prelude::*;

verus! {

/// The flags of the command line.
#[derive(Clone, Copy, Debug, PartialEq, Eq, Structural)]
pub struct Flags {
    /// Show every column.
    pub verbose: bool,
    /// Show the processes and the host.
    pub cpu: bool,
    /// Show disk statistics.
    pub disk: bool,
    /// Show network statistics.
    pub network: bool,
    /// Show the bottleneck diagnosis.
    pub bottleneck: bool,
    /// Show the processes, the host and the bottleneck diagnosis.
    pub all: bool,
}

/// A flag that asks for what there is not.
#[derive(Clone, Copy, Debug, PartialEq, Eq, Structural)]
pub enum FlagError {
    /// Disk statistics are not implemented.
    DiskUnimplemented,
    /// Network statistics are not implemented.
    NetworkUnimplemented,
}

/// The sections to show besides the device section, which is always
/// shown, and how wide the tables are.
#[derive(Clone, Copy, Debug, PartialEq, Eq, Structural)]
pub struct Sections {
    pub verbose: bool,
    pub cpu: bool,
    pub bottleneck: bool,
}

/// What the flags ask for. The two flags without an implementation are
/// refused, the disk flag first.
pub open spec fn spec_plan(flags: Flags) -> Result<Sections, FlagError> {
    if flags.disk {
        Err(FlagError::DiskUnimplemented)
    } else if flags.network {
        Err(FlagError::NetworkUnimplemented)
    } else {
        Ok(
            Sections {
                verbose: flags.verbose,
                cpu: flags.cpu || flags.all,
                bottleneck: flags.bottleneck || flags.all,
            },
        )
    }
}

/// Decides what to show.
pub fn plan(flags: Flags) -> (out: Result<Sections, FlagError>)
    ensures
        out == spec_plan(flags),
{
    if flags.disk {
        Err(FlagError::DiskUnimplemented)
    } else if flags.network {
        Err(FlagError::NetworkUnimplemented)
    } else {
        Ok(
            Sections {
                verbose: flags.verbose,
                cpu: flags.cpu || flags.all,
                bottleneck: flags.bottleneck || flags.all,
            },
        )
    }
}

} // verus!
