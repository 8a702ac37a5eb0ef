//! Disks: the name and the sizes of each.

use vstd::prelude::*;
use crate::memory::GIB;

verus! {

/// What the operating system reports of one disk.
#[derive(Debug, PartialEq, Eq)]
pub struct DiskReading {
    pub name: String,
    /// Size, in bytes.
    pub total_space: u64,
    /// Free space, in bytes.
    pub available_space: u64,
}

/// A disk as a caller sees it.
#[derive(Debug, PartialEq, Eq)]
pub struct DiskStaticInfo {
    pub name: String,
    /// Size, in whole gibibytes.
    pub total_space: u64,
    /// Free space, in whole gibibytes.
    pub available_space: u64,
}

/// The disks handed to a caller, with their number.
#[derive(Debug, PartialEq, Eq)]
pub struct DiskStaticInfoArray {
    pub data: Vec<DiskStaticInfo>,
    pub len: usize,
}

/// What a `DiskReading` or a `DiskStaticInfo` holds.
pub ghost struct DiskView {
    pub name: Seq<char>,
    pub total_space: u64,
    pub available_space: u64,
}

impl View for DiskReading {
    type V = DiskView;

    open spec fn view(&self) -> DiskView {
        DiskView {
            name: self.name@,
            total_space: self.total_space,
            available_space: self.available_space,
        }
    }
}

impl View for DiskStaticInfo {
    type V = DiskView;

    open spec fn view(&self) -> DiskView {
        DiskView {
            name: self.name@,
            total_space: self.total_space,
            available_space: self.available_space,
        }
    }
}

/// What a list of readings holds.
pub open spec fn readings_of(list: Seq<DiskReading>) -> Seq<DiskView> {
    list.map_values(|reading: DiskReading| reading@)
}

/// What a list of disks holds.
pub open spec fn disks_of(list: Seq<DiskStaticInfo>) -> Seq<DiskView> {
    list.map_values(|info: DiskStaticInfo| info@)
}

/// The disk that a caller sees for a reading: the same name, and the sizes
/// in whole gibibytes.
pub open spec fn disk_static_info(reading: DiskView) -> DiskView {
    DiskView {
        name: reading.name,
        total_space: reading.total_space / GIB,
        available_space: reading.available_space / GIB,
    }
}

/// The disks as a caller receives them: one for each reading, in the order
/// of the readings.
pub fn get_disk_static_info_array(disks: &Vec<DiskReading>) -> (array: DiskStaticInfoArray)
    ensures
        array.len == disks@.len(),
        disks_of(array.data@) == readings_of(disks@).map_values(
            |reading: DiskView| disk_static_info(reading),
        ),
{
    let ghost all = readings_of(disks@).map_values(|reading: DiskView| disk_static_info(reading));
    let mut data: Vec<DiskStaticInfo> = Vec::new();
    let mut i: usize = 0;
    while i < disks.len()
        invariant
            i <= disks@.len(),
            all == readings_of(disks@).map_values(|reading: DiskView| disk_static_info(reading)),
            disks_of(data@) == all.subrange(0, i as int),
        decreases disks@.len() - i,
    {
        let info = DiskStaticInfo {
            name: disks[i].name.clone(),
            total_space: disks[i].total_space / GIB,
            available_space: disks[i].available_space / GIB,
        };
        let ghost shorter = disks_of(data@);
        data.push(info);
        proof {
            assert(all[i as int] == disk_static_info(readings_of(disks@)[i as int]));
            assert(disks_of(data@) =~= shorter.push(info@));
            assert(shorter.push(info@) =~= all.subrange(0, i + 1));
        }
        i = i + 1;
    }
    proof {
        assert(all.subrange(0, all.len() as int) =~= all);
    }
    let len = data.len();
    DiskStaticInfoArray { data, len }
}

} // verus!
