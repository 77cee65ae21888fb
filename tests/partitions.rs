use disks::{FileSystemType, LvmEncryption, PartitionFlag, PartitionInfo, PartitionType};

fn record(
    number: i32,
    start_sector: u64,
    end_sector: u64,
    filesystem: Option<FileSystemType>,
    device_path: &str,
) -> PartitionInfo {
    PartitionInfo {
        is_source: true,
        remove: false,
        format: false,
        active: true,
        busy: false,
        swapped: false,
        number,
        ordering: number,
        start_sector,
        end_sector,
        part_type: PartitionType::Primary,
        filesystem,
        flags: vec![],
        name: None,
        device_path: device_path.to_string(),
        mount_point: None,
        target: None,
        original_vg: None,
        volume_group: None,
        key_id: None,
    }
}

fn efi_partition() -> PartitionInfo {
    let mut p = record(1, 2048, 1026047, Some(FileSystemType::Fat16), "/dev/sdz1");
    p.busy = true;
    p.flags = vec![PartitionFlag::Esp];
    p.mount_point = Some("/boot/efi".to_string());
    p.target = Some("/boot/efi".to_string());
    p
}

fn root_partition() -> PartitionInfo {
    let mut p = record(2, 1026048, 420456447, Some(FileSystemType::Btrfs), "/dev/sdz2");
    p.busy = true;
    p.mount_point = Some("/".to_string());
    p.target = Some("/".to_string());
    p.name = Some("Pop!_OS".to_string());
    p
}

fn luks_on_lvm_partition() -> PartitionInfo {
    let mut p = record(4, 420456448, 1936738303, Some(FileSystemType::Luks), "/dev/sdz3");
    p.volume_group = Some((
        "LVM_GROUP".to_string(),
        Some(LvmEncryption {
            physical_volume: "LUKS_PV".to_string(),
            password: Some("password".to_string()),
            keydata: None,
        }),
    ));
    p
}

fn lvm_partition() -> PartitionInfo {
    let mut p = record(4, 420456448, 1936738303, Some(FileSystemType::Lvm), "/dev/sdz3");
    p.volume_group = Some(("LVM_GROUP".to_string(), None));
    p
}

fn swap_partition() -> PartitionInfo {
    record(4, 1936738304, 1953523711, Some(FileSystemType::Swap), "/dev/sdz4")
}

#[test]
fn partition_sectors() {
    assert_eq!(swap_partition().sectors(), 16785407);
    assert_eq!(root_partition().sectors(), 419430399);
    assert_eq!(efi_partition().sectors(), 1023999);
}

#[test]
fn partition_is_esp_partition() {
    assert!(!root_partition().is_esp_partition());
    assert!(efi_partition().is_esp_partition());
}

#[test]
fn partition_is_linux_compatible() {
    assert!(root_partition().is_linux_compatible());
    assert!(!swap_partition().is_linux_compatible());
    assert!(!efi_partition().is_linux_compatible());
    assert!(!luks_on_lvm_partition().is_linux_compatible());
    assert!(!lvm_partition().is_linux_compatible());
}

#[test]
fn partition_requires_changes() {
    let root = root_partition();

    {
        let mut other = root_partition();
        assert!(!root.requires_changes(&other));
        other.start_sector = 0;
        assert!(root.requires_changes(&other));
    }

    {
        let mut other = root_partition();
        other.format_with(FileSystemType::Btrfs);
        assert!(root.requires_changes(&other));
    }
}

#[test]
fn partition_sectors_differ_from() {
    assert!(root_partition().sectors_differ_from(&efi_partition()));
    assert!(!root_partition().sectors_differ_from(&root_partition()));
}

#[test]
fn partition_is_same_as() {
    let root = root_partition();
    let root_dup = root.clone();
    let efi = efi_partition();

    assert!(root.is_same_partition_as(&root_dup));
    assert!(!root.is_same_partition_as(&efi));
}

#[test]
fn requires_changes_on_other_flags_or_file_system() {
    let root = root_partition();
    let mut flagged = root_partition();
    flagged.flags = vec![PartitionFlag::Boot];
    assert!(root.requires_changes(&flagged));

    let mut other_fs = root_partition();
    other_fs.filesystem = Some(FileSystemType::Ext4);
    assert!(root.requires_changes(&other_fs));

    let mut other_end = root_partition();
    other_end.end_sector += 1;
    assert!(root.requires_changes(&other_end));
    assert!(root.sectors_differ_from(&other_end));
}

#[test]
fn same_partition_needs_both_source() {
    let root = root_partition();
    let mut proposed = root_partition();
    proposed.is_source = false;
    assert!(!root.is_same_partition_as(&proposed));
    assert!(!proposed.is_same_partition_as(&root));
}

#[test]
fn esp_needs_fat_and_flag() {
    let mut p = efi_partition();
    p.filesystem = Some(FileSystemType::Fat32);
    assert!(p.is_esp_partition());
    p.filesystem = Some(FileSystemType::Ext4);
    assert!(!p.is_esp_partition());
    let mut q = efi_partition();
    q.flags = vec![PartitionFlag::Boot];
    assert!(!q.is_esp_partition());
}

#[test]
fn swap_and_linux_kinds() {
    assert!(swap_partition().is_swap());
    assert!(!root_partition().is_swap());
    let mut p = root_partition();
    p.filesystem = None;
    assert!(!p.is_swap());
    assert!(!p.is_linux_compatible());
    for fs in [
        FileSystemType::Btrfs,
        FileSystemType::Xfs,
        FileSystemType::Ext2,
        FileSystemType::Ext3,
        FileSystemType::Ext4,
        FileSystemType::F2fs,
    ] {
        p.filesystem = Some(fs);
        assert!(p.is_linux_compatible());
    }
    for fs in [FileSystemType::Exfat, FileSystemType::Ntfs, FileSystemType::Fat32] {
        p.filesystem = Some(fs);
        assert!(!p.is_linux_compatible());
    }
}

#[test]
fn flags_enable_and_disable() {
    let mut p = root_partition();
    assert!(p.flag_is_enabled(disks::partition::SOURCE));
    assert!(p.flag_is_enabled(disks::partition::BUSY | disks::partition::REMOVE));
    assert!(!p.flag_is_enabled(disks::partition::REMOVE));
    assert!(!p.flag_is_enabled(0));
    p.flag_disable(disks::partition::BUSY | disks::partition::ACTIVE | disks::partition::SOURCE);
    assert!(!p.busy);
    assert!(!p.active);
    assert!(p.is_source);
    p.remove();
    assert!(p.flag_is_enabled(disks::partition::REMOVE));
    p.flag_disable(disks::partition::REMOVE);
    assert!(!p.remove);
}

#[test]
fn format_with_clears_name_and_keep_name_does_not() {
    let mut p = root_partition();
    p.format_and_keep_name(FileSystemType::Xfs);
    assert!(p.will_format());
    assert_eq!(p.filesystem, Some(FileSystemType::Xfs));
    assert_eq!(p.name, Some("Pop!_OS".to_string()));
    p.format_with(FileSystemType::Ext4);
    assert_eq!(p.filesystem, Some(FileSystemType::Ext4));
    assert_eq!(p.name, None);
    assert!(!root_partition().will_format());
}

#[test]
fn shrink_to_moves_the_end() {
    let mut p = efi_partition();
    assert_eq!(p.shrink_to(1023999), Ok(()));
    assert_eq!(p.end_sector, 2048);
    let mut q = efi_partition();
    assert_eq!(
        q.shrink_to(1024000),
        Err(disks::PartitionError::ShrinkValueTooHigh)
    );
    assert_eq!(q.end_sector, 1026047);
    assert_eq!(q.shrink_to(1000), Ok(()));
    assert_eq!(q.end_sector, 1025047);
}

#[test]
fn setters_of_targets_and_groups() {
    let mut p = root_partition();
    p.set_mount("/home".to_string());
    assert_eq!(p.target, Some("/home".to_string()));
    p.associate_keyfile("key".to_string());
    assert_eq!(p.key_id, Some("key".to_string()));
    assert_eq!(p.target, None);
    p.set_volume_group("group".to_string(), None);
    assert_eq!(p.volume_group, Some(("group".to_string(), None)));
    assert_eq!(p.get_device_path(), "/dev/sdz2");
    assert_eq!(p.get_current_lvm_volume_group(), None);
    p.original_vg = Some("vg0".to_string());
    assert_eq!(p.get_current_lvm_volume_group(), Some("vg0"));
}

#[test]
fn extended_information_fills_unknown_file_systems() {
    let mut p = record(5, 10, 20, None, "/dev/sdz5");
    p.collect_extended_information(None, true, Some("/mnt".to_string()), true);
    assert_eq!(p.filesystem, Some(FileSystemType::Luks));
    assert_eq!(p.mount_point, Some("/mnt".to_string()));
    assert!(p.swapped);

    let mut q = record(6, 10, 20, None, "/dev/sdz6");
    q.collect_extended_information(Some("vg".to_string()), false, None, false);
    assert_eq!(q.filesystem, Some(FileSystemType::Lvm));
    assert_eq!(q.original_vg, Some("vg".to_string()));
    assert!(!q.swapped);

    let mut r = record(7, 10, 20, None, "/dev/sdz7");
    r.collect_extended_information(None, false, None, false);
    assert_eq!(r.filesystem, None);

    let mut s = root_partition();
    s.collect_extended_information(Some("vg".to_string()), true, None, false);
    assert_eq!(s.filesystem, Some(FileSystemType::Btrfs));
}
