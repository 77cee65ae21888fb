//! The partition record and its accessors and local mutators.
use vstd::prelude::*;

use crate::fs_types::{fs_of_name, FileSystemType, PartitionFlag, PartitionType};

verus! {

/// The record mirrors a partition that exists on the device.
pub const SOURCE: u8 = 0b00_0001;

/// The partition will be removed.
pub const REMOVE: u8 = 0b00_0010;

/// The partition will be formatted.
pub const FORMAT: u8 = 0b00_0100;

/// The partition is active.
pub const ACTIVE: u8 = 0b00_1000;

/// The partition is busy.
pub const BUSY: u8 = 0b01_0000;

/// The partition is an active swap device.
pub const SWAPPED: u8 = 0b10_0000;

/// Encryption settings for a physical volume of a volume group.
#[derive(Debug, Clone, PartialEq)]
pub struct LvmEncryption {
    pub physical_volume: String,
    pub password: Option<String>,
    pub keydata: Option<String>,
}

/// Errors of the operations on a single partition record.
#[derive(Debug, Clone, Copy, PartialEq, Eq, Structural)]
pub enum PartitionError {
    ShrinkValueTooHigh,
}

/// What the partition-table library reports of one partition.
#[derive(Debug, Clone, PartialEq)]
pub struct PedPartition {
    pub number: i32,
    /// The kind of the entry: "primary", "logical", or another kind of entry.
    pub kind_name: String,
    /// The file-system name found on the partition, if any.
    pub fs_name: Option<String>,
    pub start_sector: u64,
    pub end_sector: u64,
    pub active: bool,
    pub busy: bool,
    pub flags: Vec<PartitionFlag>,
    pub device_path: String,
    /// The file-system label, if one was found.
    pub label: Option<String>,
}

/// Contains relevant information about a certain partition.
///
/// The state flags are independent of one another: a record may, for example, be a
/// source partition that is both busy and pending removal.
#[derive(Debug, Clone, PartialEq)]
pub struct PartitionInfo {
    /// The record mirrors a partition that exists on the device right now.
    pub is_source: bool,
    /// The partition will be removed.
    pub remove: bool,
    /// The partition will be formatted.
    pub format: bool,
    /// The partition is active.
    pub active: bool,
    /// The partition is in use.
    pub busy: bool,
    /// The partition is an active swap device.
    pub swapped: bool,
    /// The number that follows the disk's device path (`/dev/sda1`); -1 when unassigned.
    pub number: i32,
    /// The physical order of the partition on the disk.
    pub ordering: i32,
    /// The first sector of the partition.
    pub start_sector: u64,
    /// The last sector of the partition, inclusive.
    pub end_sector: u64,
    pub part_type: PartitionType,
    pub filesystem: Option<FileSystemType>,
    /// Partition-table flags that should be set on the partition.
    pub flags: Vec<PartitionFlag>,
    /// The file-system label.
    pub name: Option<String>,
    pub device_path: String,
    /// Where the partition is mounted now.
    pub mount_point: Option<String>,
    /// Where the partition will be mounted.
    pub target: Option<String>,
    /// The volume group that the partition belonged to when probed.
    pub original_vg: Option<String>,
    /// The volume group and encryption settings to give the partition.
    pub volume_group: Option<(String, Option<LvmEncryption>)>,
    /// The key file associated with the partition.
    pub key_id: Option<String>,
}

/// True if a record with state flags `(source, remove, format, active, busy, swapped)`
/// has one of the flags of `flag` set.
pub open spec fn flags_match(p: PartitionInfo, flag: u8) -> bool {
    (flag & SOURCE != 0 && p.is_source) || (flag & REMOVE != 0 && p.remove) || (flag & FORMAT
        != 0 && p.format) || (flag & ACTIVE != 0 && p.active) || (flag & BUSY != 0 && p.busy)
        || (flag & SWAPPED != 0 && p.swapped)
}

/// True if the file system is one that Linux can be installed on.
pub open spec fn linux_compatible(fs: FileSystemType) -> bool {
    match fs {
        FileSystemType::Btrfs | FileSystemType::Xfs | FileSystemType::Ext2 | FileSystemType::Ext3
        | FileSystemType::Ext4 | FileSystemType::F2fs => true,
        _ => false,
    }
}

/// True if the two records occupy different sectors.
pub open spec fn sectors_differ(a: PartitionInfo, b: PartitionInfo) -> bool {
    a.start_sector != b.start_sector || a.end_sector != b.end_sector
}

/// True if `new`, the proposed form of the source record `old`, asks for work on the device.
pub open spec fn changes_required(old: PartitionInfo, new: PartitionInfo) -> bool {
    sectors_differ(old, new) || old.filesystem != new.filesystem || old.flags@ != new.flags@
        || new.format
}

/// True if both records mirror the same partition of the device.
pub open spec fn same_partition(a: PartitionInfo, b: PartitionInfo) -> bool {
    a.is_source && b.is_source && a.number == b.number
}

/// The record built from what the partition-table library reports, if the entry is a
/// primary or logical partition.
pub open spec fn record_of_ped(p: PedPartition) -> Option<PartitionInfo> {
    let part_type = if p.kind_name@ == seq!['p', 'r', 'i', 'm', 'a', 'r', 'y'] {
        Some(PartitionType::Primary)
    } else if p.kind_name@ == seq!['l', 'o', 'g', 'i', 'c', 'a', 'l'] {
        Some(PartitionType::Logical)
    } else {
        None
    };
    let filesystem = match p.fs_name {
        Some(n) => fs_of_name(n@),
        None => None,
    };
    match part_type {
        Some(t) => Some(
            (PartitionInfo {
                is_source: true,
                remove: false,
                format: false,
                active: p.active,
                busy: p.busy,
                swapped: false,
                number: p.number,
                ordering: -1i32,
                start_sector: p.start_sector,
                end_sector: p.end_sector,
                part_type: t,
                filesystem,
                flags: p.flags,
                name: if filesystem is Some {
                    p.label
                } else {
                    None
                },
                device_path: p.device_path,
                mount_point: None,
                target: None,
                original_vg: None,
                volume_group: None,
                key_id: None,
            }),
        ),
        None => None,
    }
}

/// True when the string holds the same characters as the literal.
fn same_text_of(a: &String, b: &str) -> (r: bool)
    ensures
        r == (a@ == b@),
{
    let b_owned = b.to_owned();
    *a == b_owned
}

/// True when both flag lists hold the same flags in the same order.
fn same_flags(a: &Vec<PartitionFlag>, b: &Vec<PartitionFlag>) -> (r: bool)
    ensures
        r == (a@ == b@),
{
    if a.len() != b.len() {
        return false;
    }
    let mut i: usize = 0;
    while i < a.len()
        invariant
            a.len() == b.len(),
            i <= a.len(),
            forall|j: int| 0 <= j < i ==> a@[j] == b@[j],
        decreases a.len() - i,
    {
        if a[i] != b[i] {
            return false;
        }
        i = i + 1;
    }
    assert(a@ =~= b@);
    true
}

/// True when `fs` is `Some` and equal to `want`.
fn fs_is(fs: Option<FileSystemType>, want: FileSystemType) -> (r: bool)
    ensures
        r == (fs == Some(want)),
{
    match fs {
        Some(f) => f == want,
        None => false,
    }
}

/// True when both optional file systems are equal.
fn same_fs(a: Option<FileSystemType>, b: Option<FileSystemType>) -> (r: bool)
    ensures
        r == (a == b),
{
    match (a, b) {
        (Some(x), Some(y)) => x == y,
        (None, None) => true,
        _ => false,
    }
}

impl PartitionInfo {
    /// Builds the record of a partition that the partition-table library reports.
    ///
    /// Returns `None` for entries that are neither primary nor logical partitions.
    pub fn new_from_ped(partition: PedPartition) -> (r: Option<PartitionInfo>)
        ensures
            r == record_of_ped(partition),
    {
        proof {
            reveal_strlit("primary");
            assert("primary"@ =~= seq!['p', 'r', 'i', 'm', 'a', 'r', 'y']);
            reveal_strlit("logical");
            assert("logical"@ =~= seq!['l', 'o', 'g', 'i', 'c', 'a', 'l']);
        }
        let part_type = if same_text_of(&partition.kind_name, "primary") {
            PartitionType::Primary
        } else if same_text_of(&partition.kind_name, "logical") {
            PartitionType::Logical
        } else {
            return None;
        };
        let filesystem = match &partition.fs_name {
            Some(n) => FileSystemType::from(n.as_str()),
            None => None,
        };
        let name = if filesystem.is_some() {
            partition.label
        } else {
            None
        };
        Some(
            PartitionInfo {
                is_source: true,
                remove: false,
                format: false,
                active: partition.active,
                busy: partition.busy,
                swapped: false,
                number: partition.number,
                ordering: -1i32,
                start_sector: partition.start_sector,
                end_sector: partition.end_sector,
                part_type,
                filesystem,
                flags: partition.flags,
                name,
                device_path: partition.device_path,
                mount_point: None,
                target: None,
                original_vg: None,
                volume_group: None,
                key_id: None,
            },
        )
    }

    /// Records what the mount, swap and volume inspectors found for this partition.
    ///
    /// A partition without a recognised file system is recorded as LUKS when it is
    /// encrypted, else as LVM when it belongs to a volume group.
    pub fn collect_extended_information(
        &mut self,
        original_vg: Option<String>,
        encrypted: bool,
        mount_point: Option<String>,
        swapped: bool,
    )
        ensures
            final(self).filesystem == (if old(self).filesystem is Some {
                old(self).filesystem
            } else if encrypted {
                Some(FileSystemType::Luks)
            } else if original_vg is Some {
                Some(FileSystemType::Lvm)
            } else {
                None
            }),
            final(self).mount_point == mount_point,
            final(self).swapped == (old(self).swapped || swapped),
            final(self).original_vg == original_vg,
            (PartitionInfo {
                filesystem: old(self).filesystem,
                mount_point: old(self).mount_point,
                swapped: old(self).swapped,
                original_vg: old(self).original_vg,
                ..*final(self)
            }) == *old(self),
    {
        if self.filesystem.is_none() {
            self.filesystem = if encrypted {
                Some(FileSystemType::Luks)
            } else if original_vg.is_some() {
                Some(FileSystemType::Lvm)
            } else {
                None
            };
        }
        self.mount_point = mount_point;
        self.swapped = self.swapped || swapped;
        self.original_vg = original_vg;
    }

    /// True if one of the state flags in `flag` is set.
    pub fn flag_is_enabled(&self, flag: u8) -> (r: bool)
        ensures
            r == flags_match(*self, flag),
    {
        (flag & SOURCE != 0 && self.is_source) || (flag & REMOVE != 0 && self.remove) || (flag
            & FORMAT != 0 && self.format) || (flag & ACTIVE != 0 && self.active) || (flag & BUSY
            != 0 && self.busy) || (flag & SWAPPED != 0 && self.swapped)
    }

    /// Clears the state flags in `flag`.
    ///
    /// Whether the record mirrors a partition of the device is fixed when it is made, so
    /// `SOURCE` is left as it is.
    pub fn flag_disable(&mut self, flag: u8)
        ensures
            final(self).is_source == old(self).is_source,
            final(self).remove == (old(self).remove && flag & REMOVE == 0),
            final(self).format == (old(self).format && flag & FORMAT == 0),
            final(self).active == (old(self).active && flag & ACTIVE == 0),
            final(self).busy == (old(self).busy && flag & BUSY == 0),
            final(self).swapped == (old(self).swapped && flag & SWAPPED == 0),
            (PartitionInfo {
                remove: old(self).remove,
                format: old(self).format,
                active: old(self).active,
                busy: old(self).busy,
                swapped: old(self).swapped,
                ..*final(self)
            }) == *old(self),
    {
        if flag & REMOVE != 0 {
            self.remove = false;
        }
        if flag & FORMAT != 0 {
            self.format = false;
        }
        if flag & ACTIVE != 0 {
            self.active = false;
        }
        if flag & BUSY != 0 {
            self.busy = false;
        }
        if flag & SWAPPED != 0 {
            self.swapped = false;
        }
    }

    /// Assigns the partition to a key file, which then has no mount target.
    pub fn associate_keyfile(&mut self, id: String)
        ensures
            *final(self) == (PartitionInfo { key_id: Some(id), target: None, ..*old(self) }),
    {
        self.key_id = Some(id);
        self.target = None;
    }

    /// Returns the length of the partition in sectors.
    pub fn sectors(&self) -> (r: u64)
        requires
            self.start_sector <= self.end_sector,
        ensures
            r == self.end_sector - self.start_sector,
    {
        self.end_sector - self.start_sector
    }

    /// True if the partition is an EFI system partition: FAT, with the ESP flag.
    pub fn is_esp_partition(&self) -> (r: bool)
        ensures
            r == ((self.filesystem == Some(FileSystemType::Fat16) || self.filesystem == Some(
                FileSystemType::Fat32,
            )) && self.flags@.contains(PartitionFlag::Esp)),
    {
        if !(fs_is(self.filesystem, FileSystemType::Fat16) || fs_is(
            self.filesystem,
            FileSystemType::Fat32,
        )) {
            return false;
        }
        let mut i: usize = 0;
        while i < self.flags.len()
            invariant
                i <= self.flags.len(),
                self.filesystem == Some(FileSystemType::Fat16) || self.filesystem == Some(
                    FileSystemType::Fat32,
                ),
                forall|j: int| 0 <= j < i ==> self.flags@[j] != PartitionFlag::Esp,
            decreases self.flags.len() - i,
        {
            if self.flags[i] == PartitionFlag::Esp {
                assert(self.flags@[i as int] == PartitionFlag::Esp);
                return true;
            }
            i = i + 1;
        }
        false
    }

    /// True if the partition is a swap partition.
    pub fn is_swap(&self) -> (r: bool)
        ensures
            r == (self.filesystem == Some(FileSystemType::Swap)),
    {
        fs_is(self.filesystem, FileSystemType::Swap)
    }

    /// True if Linux can be installed on the partition's file system.
    pub fn is_linux_compatible(&self) -> (r: bool)
        ensures
            r == match self.filesystem {
                Some(fs) => linux_compatible(fs),
                None => false,
            },
    {
        match self.filesystem {
            Some(fs) => match fs {
                FileSystemType::Exfat | FileSystemType::Ntfs | FileSystemType::Fat16
                | FileSystemType::Fat32 | FileSystemType::Lvm | FileSystemType::Luks
                | FileSystemType::Swap => false,
                FileSystemType::Btrfs | FileSystemType::Xfs | FileSystemType::Ext2
                | FileSystemType::Ext3 | FileSystemType::Ext4 | FileSystemType::F2fs => true,
            },
            None => false,
        }
    }

    /// The volume group that the partition belonged to when probed.
    pub fn get_current_lvm_volume_group(&self) -> (r: Option<&str>)
        ensures
            match self.original_vg {
                Some(vg) => r is Some && r.unwrap()@ == vg@,
                None => r is None,
            },
    {
        match &self.original_vg {
            Some(vg) => Some(vg.as_str()),
            None => None,
        }
    }

    /// Returns the path of this partition's device.
    pub fn get_device_path(&self) -> (r: &str)
        ensures
            r@ == self.device_path@,
    {
        self.device_path.as_str()
    }

    /// True if `other`, the proposed form of this record, asks for work on the device:
    /// other sectors, another file system, other table flags, or a pending format.
    pub fn requires_changes(&self, other: &PartitionInfo) -> (r: bool)
        ensures
            r == changes_required(*self, *other),
    {
        self.sectors_differ_from(other) || !same_fs(self.filesystem, other.filesystem)
            || !same_flags(&self.flags, &other.flags) || other.format
    }

    /// True if the sectors of `other` differ from those of this record.
    pub fn sectors_differ_from(&self, other: &PartitionInfo) -> (r: bool)
        ensures
            r == sectors_differ(*self, *other),
    {
        self.start_sector != other.start_sector || self.end_sector != other.end_sector
    }

    /// True if both records mirror the same partition of the device.
    pub fn is_same_partition_as(&self, other: &PartitionInfo) -> (r: bool)
        ensures
            r == same_partition(*self, *other),
    {
        self.is_source && other.is_source && self.number == other.number
    }

    /// Defines where this partition will be mounted.
    pub fn set_mount(&mut self, target: String)
        ensures
            *final(self) == (PartitionInfo { target: Some(target), ..*old(self) }),
    {
        self.target = Some(target);
    }

    /// Defines the volume group that the partition will belong to, and, if it is to be
    /// encrypted, its encryption settings.
    pub fn set_volume_group(&mut self, group: String, encryption: Option<LvmEncryption>)
        ensures
            *final(self) == (PartitionInfo {
                volume_group: Some((group, encryption)),
                ..*old(self)
            }),
    {
        self.volume_group = Some((group, encryption));
    }

    /// Moves the end of the partition `sectors` sectors towards its start.
    pub fn shrink_to(&mut self, sectors: u64) -> (r: Result<(), PartitionError>)
        requires
            old(self).start_sector <= old(self).end_sector,
        ensures
            old(self).end_sector - old(self).start_sector < sectors ==> r == Err::<
                (),
                PartitionError,
            >(PartitionError::ShrinkValueTooHigh) && *final(self) == *old(self),
            old(self).end_sector - old(self).start_sector >= sectors ==> r is Ok && *final(self)
                == (PartitionInfo {
                end_sector: (old(self).end_sector - sectors) as u64,
                ..*old(self)
            }),
    {
        if self.end_sector - self.start_sector < sectors {
            Err(PartitionError::ShrinkValueTooHigh)
        } else {
            self.end_sector = self.end_sector - sectors;
            Ok(())
        }
    }

    /// Marks the partition to be formatted with `fs`, which also clears its label.
    pub fn format_with(&mut self, fs: FileSystemType)
        ensures
            *final(self) == (PartitionInfo {
                format: true,
                filesystem: Some(fs),
                name: None,
                ..*old(self)
            }),
    {
        self.format = true;
        self.filesystem = Some(fs);
        self.name = None;
    }

    /// Marks the partition to be formatted with `fs`, keeping its label.
    pub fn format_and_keep_name(&mut self, fs: FileSystemType)
        ensures
            *final(self) == (PartitionInfo { format: true, filesystem: Some(fs), ..*old(self) }),
    {
        self.format = true;
        self.filesystem = Some(fs);
    }

    /// True if the partition will be formatted.
    pub fn will_format(&self) -> (r: bool)
        ensures
            r == self.format,
    {
        self.format
    }

    /// Marks the partition to be removed from the partition table.
    pub fn remove(&mut self)
        ensures
            *final(self) == (PartitionInfo { remove: true, ..*old(self) }),
    {
        self.remove = true;
    }
}

} // verus!
