//! The processor: its brand, load and clock, and the counts reported with them.

use vstd::prelude::*;

verus! {

/// The brand reported where the machine shows no processor.
pub open spec fn unknown_brand() -> Seq<char> {
    "Unknown"@
}

/// What the operating system reports of one processor.
#[derive(Debug, PartialEq, Eq)]
pub struct CpuReading {
    pub brand: String,
    /// Load, in thousandths of a percent.
    pub usage: u32,
    /// Clock, in MHz.
    pub frequency: u64,
}

/// The processor as a caller sees it.
#[derive(Debug, PartialEq, Eq)]
pub struct CpuStaticInfo {
    pub brand: String,
    /// Load, in thousandths of a percent.
    pub usage: u32,
    /// Clock, in thousandths of a GHz.
    pub frequency: u64,
    /// Physical cores.
    pub core_count: usize,
    /// Seconds since the machine started.
    pub work_time: i64,
    /// Processes on the machine.
    pub process: i64,
}

/// What a `CpuReading` holds.
pub ghost struct CpuReadingView {
    pub brand: Seq<char>,
    pub usage: u32,
    pub frequency: u64,
}

/// What a `CpuStaticInfo` holds.
pub ghost struct CpuStaticInfoView {
    pub brand: Seq<char>,
    pub usage: u32,
    pub frequency: u64,
    pub core_count: usize,
    pub work_time: i64,
    pub process: i64,
}

impl View for CpuReading {
    type V = CpuReadingView;

    open spec fn view(&self) -> CpuReadingView {
        CpuReadingView { brand: self.brand@, usage: self.usage, frequency: self.frequency }
    }
}

impl View for CpuStaticInfo {
    type V = CpuStaticInfoView;

    open spec fn view(&self) -> CpuStaticInfoView {
        CpuStaticInfoView {
            brand: self.brand@,
            usage: self.usage,
            frequency: self.frequency,
            core_count: self.core_count,
            work_time: self.work_time,
            process: self.process,
        }
    }
}

/// An unsigned count read as a signed one of the same width: counts beyond
/// the signed range wrap around to negative numbers.
pub open spec fn as_signed(count: u64) -> int {
    if count <= i64::MAX {
        count as int
    } else {
        count - 0x1_0000_0000_0000_0000
    }
}

/// The processor information made of the given readings. A clock in MHz is
/// the same number in thousandths of a GHz.
pub open spec fn cpu_static_info(
    first_cpu: Option<CpuReadingView>,
    uptime: u64,
    process_count: usize,
    physical_cores: usize,
) -> CpuStaticInfoView {
    CpuStaticInfoView {
        brand: if first_cpu is Some {
            first_cpu->0.brand
        } else {
            unknown_brand()
        },
        usage: if first_cpu is Some {
            first_cpu->0.usage
        } else {
            0
        },
        frequency: if first_cpu is Some {
            first_cpu->0.frequency
        } else {
            0
        },
        core_count: physical_cores,
        work_time: as_signed(uptime) as i64,
        process: as_signed(process_count as u64) as i64,
    }
}

/// What an optional reading holds.
pub open spec fn reading_of(first_cpu: Option<CpuReading>) -> Option<CpuReadingView> {
    match first_cpu {
        Some(reading) => Some(reading@),
        None => None,
    }
}

/// Reads an unsigned count as a signed one of the same width.
pub fn to_signed(count: u64) -> (signed: i64)
    ensures
        signed == as_signed(count),
{
    if count <= 0x7fff_ffff_ffff_ffff {
        count as i64
    } else {
        let low: i64 = (count - 0x8000_0000_0000_0000) as i64;
        low + i64::MIN
    }
}

/// Puts the processor information together from the readings of the first
/// processor, if the machine shows one, the uptime in seconds, the number of
/// processes and the number of physical cores.
pub fn get_cpu_static_info(
    first_cpu: Option<CpuReading>,
    uptime: u64,
    process_count: usize,
    physical_cores: usize,
) -> (info: CpuStaticInfo)
    ensures
        info@ == cpu_static_info(reading_of(first_cpu), uptime, process_count, physical_cores),
{
    let work_time = to_signed(uptime);
    let process = to_signed(process_count as u64);
    match first_cpu {
        Some(reading) => CpuStaticInfo {
            brand: reading.brand,
            usage: reading.usage,
            frequency: reading.frequency,
            core_count: physical_cores,
            work_time,
            process,
        },
        None => CpuStaticInfo {
            brand: "Unknown".to_owned(),
            usage: 0,
            frequency: 0,
            core_count: physical_cores,
            work_time,
            process,
        },
    }
}

} // verus!
