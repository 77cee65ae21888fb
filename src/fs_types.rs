//! File systems, partition kinds and partition-table flags.
use vstd::prelude::*;

verus! {

/// The file systems that a partition may carry.
#[derive(Debug, Clone, Copy, PartialEq, Eq, Structural, Hash)]
pub enum FileSystemType {
    Btrfs,
    Exfat,
    Ext2,
    Ext3,
    Ext4,
    F2fs,
    Fat16,
    Fat32,
    Lvm,
    Luks,
    Ntfs,
    Swap,
    Xfs,
}

/// Whether a partition is a primary or a logical partition.
#[derive(Debug, Clone, Copy, PartialEq, Eq, Structural, Hash)]
pub enum PartitionType {
    Primary,
    Logical,
}

/// The partition-table flags that a partition may have set.
#[derive(Debug, Clone, Copy, PartialEq, Eq, Structural, Hash)]
pub enum PartitionFlag {
    Boot,
    Root,
    Swap,
    Hidden,
    Raid,
    Lvm,
    Lba,
    HpService,
    Palo,
    Prep,
    MsftReserved,
    BiosGrub,
    AppleTvRecovery,
    Diag,
    LegacyBoot,
    MsftData,
    Irst,
    Esp,
}

/// The file system that the partition-table library reports under a given name.
pub open spec fn fs_of_name(name: Seq<char>) -> Option<FileSystemType> {
    if name == seq!['b', 't', 'r', 'f', 's'] {
        Some(FileSystemType::Btrfs)
    } else if name == seq!['e', 'x', 'f', 'a', 't'] {
        Some(FileSystemType::Exfat)
    } else if name == seq!['e', 'x', 't', '2'] {
        Some(FileSystemType::Ext2)
    } else if name == seq!['e', 'x', 't', '3'] {
        Some(FileSystemType::Ext3)
    } else if name == seq!['e', 'x', 't', '4'] {
        Some(FileSystemType::Ext4)
    } else if name == seq!['f', 'a', 't', '1', '6'] {
        Some(FileSystemType::Fat16)
    } else if name == seq!['f', 'a', 't', '3', '2'] {
        Some(FileSystemType::Fat32)
    } else if name == seq!['l', 'i', 'n', 'u', 'x', '-', 's', 'w', 'a', 'p', '(', 'v', '1', ')'] {
        Some(FileSystemType::Swap)
    } else if name == seq!['x', 'f', 's'] {
        Some(FileSystemType::Xfs)
    } else {
        None
    }
}

/// True when both strings hold the same characters.
fn same_text(a: &str, b: &str) -> (r: bool)
    ensures
        r == (a@ == b@),
{
    let a_owned = a.to_owned();
    let b_owned = b.to_owned();
    a_owned == b_owned
}

impl FileSystemType {
    /// Parses a file-system name as the partition-table library reports it.
    pub fn from(string: &str) -> (r: Option<FileSystemType>)
        ensures
            r == fs_of_name(string@),
    {
        proof {
            reveal_strlit("btrfs");
            assert("btrfs"@ =~= seq!['b', 't', 'r', 'f', 's']);
            reveal_strlit("exfat");
            assert("exfat"@ =~= seq!['e', 'x', 'f', 'a', 't']);
            reveal_strlit("ext2");
            assert("ext2"@ =~= seq!['e', 'x', 't', '2']);
            reveal_strlit("ext3");
            assert("ext3"@ =~= seq!['e', 'x', 't', '3']);
            reveal_strlit("ext4");
            assert("ext4"@ =~= seq!['e', 'x', 't', '4']);
            reveal_strlit("fat16");
            assert("fat16"@ =~= seq!['f', 'a', 't', '1', '6']);
            reveal_strlit("fat32");
            assert("fat32"@ =~= seq!['f', 'a', 't', '3', '2']);
            reveal_strlit("linux-swap(v1)");
            assert("linux-swap(v1)"@ =~= seq!['l', 'i', 'n', 'u', 'x', '-', 's', 'w', 'a', 'p', '(', 'v', '1', ')']);
            reveal_strlit("xfs");
            assert("xfs"@ =~= seq!['x', 'f', 's']);
        }
        if same_text(string, "btrfs") {
            Some(FileSystemType::Btrfs)
        } else if same_text(string, "exfat") {
            Some(FileSystemType::Exfat)
        } else if same_text(string, "ext2") {
            Some(FileSystemType::Ext2)
        } else if same_text(string, "ext3") {
            Some(FileSystemType::Ext3)
        } else if same_text(string, "ext4") {
            Some(FileSystemType::Ext4)
        } else if same_text(string, "fat16") {
            Some(FileSystemType::Fat16)
        } else if same_text(string, "fat32") {
            Some(FileSystemType::Fat32)
        } else if same_text(string, "linux-swap(v1)") {
            Some(FileSystemType::Swap)
        } else if same_text(string, "xfs") {
            Some(FileSystemType::Xfs)
        } else {
            None
        }
    }
}

/// The fstab mount options preferred for a file system.
pub open spec fn preferred_options(fs: FileSystemType) -> Seq<char> {
    match fs {
        FileSystemType::Fat16 | FileSystemType::Fat32 => seq![
            'u', 'm', 'a', 's', 'k', '=', '0', '0', '7', '7',
        ],
        FileSystemType::Ext4 => seq![
            'n', 'o', 'a', 't', 'i', 'm', 'e', ',', 'e', 'r', 'r', 'o', 'r', 's', '=', 'r', 'e', 'm',
            'o', 'u', 'n', 't', '-', 'r', 'o',
        ],
        FileSystemType::Swap => seq!['s', 'w'],
        _ => seq!['d', 'e', 'f', 'a', 'u', 'l', 't', 's'],
    }
}

/// Returns the fstab mount options preferred for `fs`.
pub fn get_preferred_options(fs: FileSystemType) -> (r: &'static str)
    ensures
        r@ == preferred_options(fs),
{
    proof {
        reveal_strlit("umask=0077");
        assert("umask=0077"@ =~= seq!['u', 'm', 'a', 's', 'k', '=', '0', '0', '7', '7']);
        reveal_strlit("noatime,errors=remount-ro");
        assert("noatime,errors=remount-ro"@ =~= seq!['n', 'o', 'a', 't', 'i', 'm', 'e', ',', 'e', 'r', 'r', 'o', 'r', 's', '=', 'r', 'e', 'm', 'o', 'u', 'n', 't', '-', 'r', 'o']);
        reveal_strlit("sw");
        assert("sw"@ =~= seq!['s', 'w']);
        reveal_strlit("defaults");
        assert("defaults"@ =~= seq!['d', 'e', 'f', 'a', 'u', 'l', 't', 's']);
    }
    match fs {
        FileSystemType::Fat16 | FileSystemType::Fat32 => "umask=0077",
        FileSystemType::Ext4 => "noatime,errors=remount-ro",
        FileSystemType::Swap => "sw",
        _ => "defaults",
    }
}

} // verus!
