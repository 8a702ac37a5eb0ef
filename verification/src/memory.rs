//! Memory readings: the name of a memory technology and the totals of the
//! machine's memory.

use vstd::prelude::*;

verus! {

/// Bytes in a gibibyte.
pub const GIB: u64 = 1073741824;

/// The speed reported for the machine's memory, in MHz.
pub const DEFAULT_MEMORY_SPEED: u64 = 2400;

/// The name of the memory technology that an SMBIOS memory-type code stands for.
pub open spec fn smbios_format_name(code: u32) -> Seq<char> {
    if code == 20 {
        "DDR"@
    } else if code == 21 {
        "DDR2"@
    } else if code == 22 {
        "DDR2 FB-DIMM"@
    } else if code == 24 {
        "DDR3"@
    } else if code == 26 {
        "DDR4"@
    } else if code == 34 {
        "DDR5"@
    } else {
        "Unknown"@
    }
}

/// The name that a legacy memory-type code stands for. The legacy table ends
/// with DDR3.
pub open spec fn legacy_format_name(code: u32) -> Seq<char> {
    if code == 26 || code == 34 {
        "Unknown"@
    } else {
        smbios_format_name(code)
    }
}

/// The SMBIOS code decides when it is present and not zero; otherwise the
/// legacy code does; with neither the format is unknown.
pub open spec fn modern_memory_format(smbios: Option<u32>, memory_type: Option<u32>) -> Seq<char> {
    if smbios is Some && smbios->0 != 0 {
        smbios_format_name(smbios->0)
    } else if memory_type is Some {
        legacy_format_name(memory_type->0)
    } else {
        "Unknown"@
    }
}

fn legacy_format(code: u32) -> (name: &'static str)
    ensures
        name@ == legacy_format_name(code),
{
    if code == 20 {
        "DDR"
    } else if code == 21 {
        "DDR2"
    } else if code == 22 {
        "DDR2 FB-DIMM"
    } else if code == 24 {
        "DDR3"
    } else {
        "Unknown"
    }
}

/// Names the memory technology of a module from its two type codes.
pub fn get_modern_memory_format(smbios: Option<u32>, memory_type: Option<u32>) -> (name:
    &'static str)
    ensures
        name@ == modern_memory_format(smbios, memory_type),
{
    match smbios {
        Some(code) if code != 0 => {
            if code == 26 {
                "DDR4"
            } else if code == 34 {
                "DDR5"
            } else {
                legacy_format(code)
            }
        },
        _ => match memory_type {
            Some(code) => legacy_format(code),
            None => "Unknown",
        },
    }
}

/// The machine's memory as a caller sees it.
#[derive(Debug, PartialEq, Eq)]
pub struct MemoryStaticInfo {
    /// All memory, in whole gibibytes.
    pub total: u64,
    /// Memory in use, in whole gibibytes.
    pub used: u64,
    /// Memory that can be handed out, in whole gibibytes.
    pub available: u64,
    /// Speed, in MHz.
    pub speed: u64,
    /// The memory technology.
    pub format: String,
}

/// What a `MemoryStaticInfo` holds.
pub ghost struct MemoryStaticInfoView {
    pub total: u64,
    pub used: u64,
    pub available: u64,
    pub speed: u64,
    pub format: Seq<char>,
}

impl View for MemoryStaticInfo {
    type V = MemoryStaticInfoView;

    open spec fn view(&self) -> MemoryStaticInfoView {
        MemoryStaticInfoView {
            total: self.total,
            used: self.used,
            available: self.available,
            speed: self.speed,
            format: self.format@,
        }
    }
}

/// The memory information made of three byte counts: each in whole
/// gibibytes, with the default speed and DDR4 as the technology.
pub open spec fn memory_static_info(total: u64, used: u64, available: u64) -> MemoryStaticInfoView {
    MemoryStaticInfoView {
        total: total / GIB,
        used: used / GIB,
        available: available / GIB,
        speed: DEFAULT_MEMORY_SPEED,
        format: "DDR4"@,
    }
}

/// Puts the memory information together from the byte counts of all memory,
/// of memory in use and of memory that can be handed out.
pub fn get_memory_static_info(total: u64, used: u64, available: u64) -> (info: MemoryStaticInfo)
    ensures
        info@ == memory_static_info(total, used, available),
{
    MemoryStaticInfo {
        total: total / GIB,
        used: used / GIB,
        available: available / GIB,
        speed: DEFAULT_MEMORY_SPEED,
        format: get_modern_memory_format(Some(26), None).to_owned(),
    }
}

/// A memory module as the firmware describes it.
#[derive(Clone, Copy, Debug, PartialEq, Eq)]
pub struct Win32PhysicalMemory {
    /// Speed, in MHz.
    pub speed: u32,
    /// The legacy memory-type code.
    pub memory_type: Option<u32>,
    /// The SMBIOS memory-type code.
    pub smbios_memory_type: Option<u32>,
}

/// A memory module as a caller sees it.
#[derive(Debug, PartialEq, Eq)]
pub struct MemoryInfo {
    /// Speed, in MHz.
    pub speed: u32,
    /// The memory technology.
    pub memory_format: String,
}

/// The memory modules handed to a caller, with their number.
#[derive(Debug, PartialEq, Eq)]
pub struct MemoryInfoArray {
    pub data: Vec<MemoryInfo>,
    pub len: usize,
}

/// What a `MemoryInfo` holds.
pub ghost struct MemoryInfoView {
    pub speed: u32,
    pub memory_format: Seq<char>,
}

impl View for MemoryInfo {
    type V = MemoryInfoView;

    open spec fn view(&self) -> MemoryInfoView {
        MemoryInfoView { speed: self.speed, memory_format: self.memory_format@ }
    }
}

/// What a list of memory modules holds.
pub open spec fn modules_of(list: Seq<MemoryInfo>) -> Seq<MemoryInfoView> {
    list.map_values(|info: MemoryInfo| info@)
}

/// The module that a caller sees for a module that the firmware describes.
pub open spec fn memory_info(module: Win32PhysicalMemory) -> MemoryInfoView {
    MemoryInfoView {
        speed: module.speed,
        memory_format: modern_memory_format(module.smbios_memory_type, module.memory_type),
    }
}

/// Names the technology of each module and keeps its speed.
pub fn internal_get_ram_info(modules: &Vec<Win32PhysicalMemory>) -> (list: Vec<MemoryInfo>)
    ensures
        modules_of(list@) == modules@.map_values(|module: Win32PhysicalMemory| memory_info(module)),
{
    let ghost all = modules@.map_values(|module: Win32PhysicalMemory| memory_info(module));
    let mut list: Vec<MemoryInfo> = Vec::new();
    let mut i: usize = 0;
    while i < modules.len()
        invariant
            i <= modules@.len(),
            all == modules@.map_values(|module: Win32PhysicalMemory| memory_info(module)),
            modules_of(list@) == all.subrange(0, i as int),
        decreases modules@.len() - i,
    {
        let module = modules[i];
        let info = MemoryInfo {
            speed: module.speed,
            memory_format: get_modern_memory_format(
                module.smbios_memory_type,
                module.memory_type,
            ).to_owned(),
        };
        let ghost shorter = modules_of(list@);
        list.push(info);
        proof {
            assert(modules_of(list@) =~= shorter.push(info@));
            assert(shorter.push(info@) =~= all.subrange(0, i + 1));
        }
        i = i + 1;
    }
    proof {
        assert(all.subrange(0, all.len() as int) =~= all);
    }
    list
}

/// The memory modules as a caller receives them: the modules of a lookup
/// that succeeded, and no modules for one that failed.
pub fn get_ram_info_array(lookup: Option<Vec<MemoryInfo>>) -> (array: MemoryInfoArray)
    ensures
        array.len == array.data@.len(),
        lookup is Some ==> array.data == lookup->0,
        lookup is None ==> array.data@.len() == 0,
{
    match lookup {
        Some(data) => {
            let len = data.len();
            MemoryInfoArray { data, len }
        },
        None => MemoryInfoArray { data: Vec::new(), len: 0 },
    }
}

} // verus!
