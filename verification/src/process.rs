//! Process records: one raw reading of a process becomes one record with
//! normalized processor usage and with sizes in the units a caller expects.

use vstd::prelude::*;
use vstd::arithmetic::div_mod::lemma_div_is_ordered;

verus! {

/// Thousandths in one unit: the scale of every fractional quantity.
pub const MILLI: u64 = 1000;

/// Bytes in a kibibyte.
pub const KIB: u64 = 1024;

/// Bytes in a mebibyte.
pub const MIB: u64 = 1048576;

/// A process as the operating system reports it.
#[derive(Debug, PartialEq, Eq)]
pub struct RawProcess {
    pub pid: String,
    pub name: String,
    /// Processor usage relative to a single core, in thousandths of a percent.
    pub cpu_usage: u32,
    /// Resident memory, in bytes.
    pub memory: u64,
    /// Bytes read from disk since the process began.
    pub total_read_bytes: u64,
    /// Bytes written to disk since the process began.
    pub total_written_bytes: u64,
}

/// A process as a caller sees it.
#[derive(Debug, PartialEq, Eq)]
pub struct ProcessInfo {
    pub pid: String,
    pub name: String,
    /// Processor usage relative to the whole machine, in thousandths of a percent.
    pub cpu_usage: u32,
    /// Resident memory, in thousandths of a mebibyte.
    pub memory_mb: u64,
    /// Bytes read from disk, in thousandths of a kibibyte.
    pub read_kb: u64,
    /// Bytes written to disk, in thousandths of a kibibyte.
    pub written_kb: u64,
}

/// The records handed to a caller, with their number.
#[derive(Debug, PartialEq, Eq)]
pub struct ProcessInfoArray {
    pub data: Vec<ProcessInfo>,
    pub len: usize,
}

/// What a `RawProcess` holds.
pub ghost struct RawProcessView {
    pub pid: Seq<char>,
    pub name: Seq<char>,
    pub cpu_usage: u32,
    pub memory: u64,
    pub total_read_bytes: u64,
    pub total_written_bytes: u64,
}

/// What a `ProcessInfo` holds.
pub ghost struct ProcessRecord {
    pub pid: Seq<char>,
    pub name: Seq<char>,
    pub cpu_usage: u32,
    pub memory_mb: u64,
    pub read_kb: u64,
    pub written_kb: u64,
}

impl View for RawProcess {
    type V = RawProcessView;

    open spec fn view(&self) -> RawProcessView {
        RawProcessView {
            pid: self.pid@,
            name: self.name@,
            cpu_usage: self.cpu_usage,
            memory: self.memory,
            total_read_bytes: self.total_read_bytes,
            total_written_bytes: self.total_written_bytes,
        }
    }
}

impl View for ProcessInfo {
    type V = ProcessRecord;

    open spec fn view(&self) -> ProcessRecord {
        ProcessRecord {
            pid: self.pid@,
            name: self.name@,
            cpu_usage: self.cpu_usage,
            memory_mb: self.memory_mb,
            read_kb: self.read_kb,
            written_kb: self.written_kb,
        }
    }
}

impl Clone for RawProcess {
    fn clone(&self) -> (copy: Self)
        ensures
            copy == *self,
    {
        RawProcess {
            pid: self.pid.clone(),
            name: self.name.clone(),
            cpu_usage: self.cpu_usage,
            memory: self.memory,
            total_read_bytes: self.total_read_bytes,
            total_written_bytes: self.total_written_bytes,
        }
    }
}

impl Clone for ProcessInfo {
    fn clone(&self) -> (copy: Self)
        ensures
            copy == *self,
    {
        ProcessInfo {
            pid: self.pid.clone(),
            name: self.name.clone(),
            cpu_usage: self.cpu_usage,
            memory_mb: self.memory_mb,
            read_kb: self.read_kb,
            written_kb: self.written_kb,
        }
    }
}

/// Usage relative to the whole machine: the usage relative to one core,
/// divided by the number of cores. Without cores it is zero.
pub open spec fn normalized_usage(raw: u32, cores: usize) -> int {
    if cores == 0 {
        0
    } else {
        raw as int / cores as int
    }
}

/// A byte count in thousandths of `unit` bytes, rounded down.
pub open spec fn in_thousandths(bytes: u64, unit: u64) -> int {
    (bytes * MILLI) / (unit as int)
}

/// The record that stands for a raw reading on a machine with `cores` cores.
pub open spec fn process_record(raw: RawProcessView, cores: usize) -> ProcessRecord {
    ProcessRecord {
        pid: raw.pid,
        name: raw.name,
        cpu_usage: normalized_usage(raw.cpu_usage, cores) as u32,
        memory_mb: in_thousandths(raw.memory, MIB) as u64,
        read_kb: in_thousandths(raw.total_read_bytes, KIB) as u64,
        written_kb: in_thousandths(raw.total_written_bytes, KIB) as u64,
    }
}

/// A counter that has grown is no smaller in thousandths of a unit: what a
/// process has read or written never goes down from one record to the next.
pub proof fn lemma_in_thousandths_grows(earlier: u64, later: u64, unit: u64)
    requires
        earlier <= later,
        unit > 0,
    ensures
        0 <= in_thousandths(earlier, unit) <= in_thousandths(later, unit),
{
    lemma_div_is_ordered(earlier * MILLI, later * MILLI, unit as int);
    lemma_div_is_ordered(0, earlier * MILLI, unit as int);
}

/// Usage relative to the whole machine is never more than usage relative to
/// one core, and with one core it is the same.
pub proof fn lemma_normalized_usage_bounds(raw: u32, cores: usize)
    ensures
        0 <= normalized_usage(raw, cores) <= raw,
        normalized_usage(raw, 1) == raw,
        normalized_usage(raw, 0) == 0,
{
    if cores > 0 {
        assert(0 <= raw as int / cores as int <= raw) by (nonlinear_arith)
            requires
                cores >= 1,
                raw >= 0,
        ;
    }
}

/// Divides a usage by the number of cores; zero when there are no cores.
pub fn normalize_cpu_usage(raw: u32, cores: usize) -> (usage: u32)
    ensures
        usage == normalized_usage(raw, cores),
        usage <= raw,
{
    if cores == 0 {
        0
    } else {
        let quotient: usize = raw as usize / cores;
        assert(quotient <= raw) by (nonlinear_arith)
            requires
                quotient == raw as int / cores as int,
                cores >= 1,
        ;
        quotient as u32
    }
}

/// A byte count in thousandths of a mebibyte, rounded down.
pub fn bytes_to_mb(bytes: u64) -> (mb: u64)
    ensures
        mb == in_thousandths(bytes, MIB),
{
    let scaled: u128 = bytes as u128 * 1000 / 1048576;
    scaled as u64
}

/// A byte count in thousandths of a kibibyte, rounded down.
pub fn bytes_to_kb(bytes: u64) -> (kb: u64)
    ensures
        kb == in_thousandths(bytes, KIB),
{
    let scaled: u128 = bytes as u128 * 1000 / 1024;
    scaled as u64
}

/// Builds the record of one process from its raw reading.
pub fn create_process_info_internal(raw: &RawProcess, total_cores: usize) -> (info: ProcessInfo)
    ensures
        info@ == process_record(raw@, total_cores),
{
    ProcessInfo {
        pid: raw.pid.clone(),
        name: raw.name.clone(),
        cpu_usage: normalize_cpu_usage(raw.cpu_usage, total_cores),
        memory_mb: bytes_to_mb(raw.memory),
        read_kb: bytes_to_kb(raw.total_read_bytes),
        written_kb: bytes_to_kb(raw.total_written_bytes),
    }
}

} // verus!
