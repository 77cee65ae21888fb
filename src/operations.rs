//! The operation plan that the layout differ produces.
use vstd::prelude::*;

use crate::fs_types::FileSystemType;

verus! {

/// A change to make to a partition that stays on the device.
#[derive(Debug, Clone, Copy, PartialEq, Eq, Structural)]
pub struct PartitionChange {
    /// The number of the partition.
    pub num: i32,
    /// Its new first sector.
    pub start: u64,
    /// Its new last sector.
    pub end: u64,
    /// The file system to format it with, if it is to be formatted.
    pub format: Option<FileSystemType>,
}

/// A partition to create on the device.
#[derive(Debug, Clone, Copy, PartialEq, Eq, Structural)]
pub struct PartitionCreate {
    pub start_sector: u64,
    pub end_sector: u64,
    pub file_system: FileSystemType,
}

/// The operations that turn a device's layout into a proposed one: first the
/// removals, then the changes, then the creations, each in the order of the layouts.
#[derive(Debug, Clone, PartialEq)]
pub struct DiskOps {
    pub remove_partitions: Vec<i32>,
    pub change_partitions: Vec<PartitionChange>,
    pub create_partitions: Vec<PartitionCreate>,
}

} // verus!
