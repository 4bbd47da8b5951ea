//! Point-in-time diagnostics of accelerator devices, the host and the
//! processes that use the devices, rendered as fixed-width text tables.

pub mod bottleneck;
pub mod disk;
pub mod gpu;
pub mod host;
pub mod machine;
pub mod nvml;
pub mod options;
pub mod order;
pub mod pids;
pub mod process;
pub mod render;
pub mod table;
pub mod text;
pub mod throttle;
pub mod units;
