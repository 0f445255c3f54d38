//! What one refresh of the system figures holds.

use crate::process::ProcessRecord;
use vstd::prelude::*;

verus! {

/// One processor core: its name and its load in percent, the load as the
/// bit pattern of a single-precision number.
#[derive(Clone, Debug)]
pub struct CpuCore {
    pub name: String,
    pub usage_percent_bits: u32,
}

/// Memory figures in bytes.
#[derive(Clone, Copy, Debug, PartialEq, Eq, Structural)]
pub struct MemoryUsage {
    pub total: u64,
    pub used: u64,
    pub available: u64,
    pub free: u64,
}

/// Load averages over one, five and fifteen minutes, each as the bit
/// pattern of a double-precision number.
#[derive(Clone, Copy, Debug, PartialEq, Eq, Structural)]
pub struct LoadAverage {
    pub one_bits: u64,
    pub five_bits: u64,
    pub fifteen_bits: u64,
}

/// The figures of one refresh. A snapshot is made anew for every frame and
/// is only read after that.
#[derive(Clone, Debug)]
pub struct Snapshot {
    pub cpu_cores: Vec<CpuCore>,
    pub memory: MemoryUsage,
    pub load_average: LoadAverage,
    pub processes: Vec<ProcessRecord>,
}

} // verus!
