//! The staged constructor of new partitions.
use vstd::prelude::*;

use crate::fs_types::{FileSystemType, PartitionFlag, PartitionType};
use crate::partition::{LvmEncryption, PartitionInfo};

verus! {

/// Assembles a new partition for a proposed layout.
///
/// The range is given as a first sector and the sector after the last one; a range
/// that holds no sector is refused when the partition is added to a disk.
#[derive(Debug, Clone, PartialEq)]
pub struct PartitionBuilder {
    pub start_sector: u64,
    pub end_sector: u64,
    pub filesystem: FileSystemType,
    pub part_type: PartitionType,
    pub name: Option<String>,
    pub flags: Vec<PartitionFlag>,
    pub mount: Option<String>,
    pub volume_group: Option<(String, Option<LvmEncryption>)>,
}

impl PartitionBuilder {
    /// True if `p` is the record that the builder describes: a proposed partition that
    /// does not exist on the device yet, has no number and no device path.
    pub open spec fn builds(self, p: PartitionInfo) -> bool {
        &&& !p.is_source && !p.remove && !p.format && !p.active && !p.busy && !p.swapped
        &&& p.number == -1 && p.ordering == -1
        &&& p.start_sector == self.start_sector
        &&& p.end_sector == self.end_sector - 1
        &&& p.part_type == self.part_type
        &&& p.filesystem == Some(self.filesystem)
        &&& p.flags@ == self.flags@
        &&& p.name == self.name
        &&& p.device_path@.len() == 0
        &&& p.mount_point is None
        &&& p.target == self.mount
        &&& p.original_vg is None
        &&& p.volume_group == self.volume_group
        &&& p.key_id is None
    }

    /// Starts a primary partition over `[start, end)` with the file system `fs`.
    pub fn new(start: u64, end: u64, fs: FileSystemType) -> (r: PartitionBuilder)
        ensures
            r.start_sector == start,
            r.end_sector == end,
            r.filesystem == fs,
            r.part_type == PartitionType::Primary,
            r.name is None,
            r.flags@.len() == 0,
            r.mount is None,
            r.volume_group is None,
    {
        PartitionBuilder {
            start_sector: start,
            end_sector: end,
            filesystem: fs,
            part_type: PartitionType::Primary,
            name: None,
            flags: Vec::new(),
            mount: None,
            volume_group: None,
        }
    }

    /// Sets whether the partition is primary or logical.
    pub fn partition_type(self, part_type: PartitionType) -> (r: PartitionBuilder)
        ensures
            r == (PartitionBuilder { part_type, ..self }),
    {
        PartitionBuilder { part_type, ..self }
    }

    /// Sets the label of the partition's file system.
    pub fn name(self, name: String) -> (r: PartitionBuilder)
        ensures
            r == (PartitionBuilder { name: Some(name), ..self }),
    {
        PartitionBuilder { name: Some(name), ..self }
    }

    /// Adds a partition-table flag to set on the partition.
    pub fn flag(self, flag: PartitionFlag) -> (r: PartitionBuilder)
        ensures
            r.flags@ == self.flags@.push(flag),
            (PartitionBuilder { flags: self.flags, ..r }) == self,
    {
        let mut b = self;
        b.flags.push(flag);
        b
    }

    /// Sets where the partition will be mounted.
    pub fn mount(self, target: String) -> (r: PartitionBuilder)
        ensures
            r == (PartitionBuilder { mount: Some(target), ..self }),
    {
        PartitionBuilder { mount: Some(target), ..self }
    }

    /// Sets the volume group that the partition will belong to, and its encryption.
    pub fn logical_volume(self, group: String, encryption: Option<LvmEncryption>) -> (r:
        PartitionBuilder)
        ensures
            r == (PartitionBuilder { volume_group: Some((group, encryption)), ..self }),
    {
        PartitionBuilder { volume_group: Some((group, encryption)), ..self }
    }

    /// Builds the record of the new partition, whose last sector is the one before
    /// `end_sector`.
    pub fn build(self) -> (r: PartitionInfo)
        requires
            self.start_sector < self.end_sector,
        ensures
            self.builds(r),
    {
        PartitionInfo {
            is_source: false,
            remove: false,
            format: false,
            active: false,
            busy: false,
            swapped: false,
            number: -1,
            ordering: -1,
            start_sector: self.start_sector,
            end_sector: self.end_sector - 1,
            part_type: self.part_type,
            filesystem: Some(self.filesystem),
            flags: self.flags,
            name: self.name,
            device_path: String::new(),
            mount_point: None,
            target: self.mount,
            original_vg: None,
            volume_group: self.volume_group,
            key_id: None,
        }
    }
}

} // verus!
