use disks::{
    Disk, DiskError, DiskOps, FileSystemType, PartitionBuilder, PartitionChange, PartitionCreate,
    PartitionInfo, PartitionTable, PartitionType,
};

struct Disks(Vec<Disk>);

#[allow(clippy::too_many_arguments)]
fn source_part(
    active: bool,
    busy: bool,
    device_path: &str,
    mount_point: Option<&str>,
    start_sector: u64,
    end_sector: u64,
    filesystem: FileSystemType,
    name: Option<&str>,
    number: i32,
) -> PartitionInfo {
    PartitionInfo {
        is_source: true,
        remove: false,
        format: false,
        active,
        busy,
        swapped: false,
        number,
        ordering: number,
        start_sector,
        end_sector,
        part_type: PartitionType::Primary,
        filesystem: Some(filesystem),
        flags: vec![],
        name: name.map(|n| n.to_string()),
        device_path: device_path.to_string(),
        mount_point: mount_point.map(|m| m.to_string()),
        target: None,
        original_vg: None,
        volume_group: None,
        key_id: None,
    }
}

fn test_disk(partitions: Vec<PartitionInfo>) -> Disk {
    Disk {
        model_name: "Test Disk".into(),
        serial: "Test Disk 123".into(),
        device_path: "/dev/sdz".into(),
        size: 1953525168,
        sector_size: 512,
        device_type: "TEST".into(),
        table_type: Some(PartitionTable::Gpt),
        read_only: false,
        partitions,
    }
}

fn get_default() -> Disks {
    Disks(vec![test_disk(vec![
        source_part(true, true, "/dev/sdz1", Some("/boot"), 2048, 1026047, FileSystemType::Fat16, None, 1),
        source_part(
            true,
            true,
            "/dev/sdz2",
            Some("/"),
            1026048,
            420456447,
            FileSystemType::Btrfs,
            Some("Pop!_OS"),
            2,
        ),
        source_part(
            false,
            false,
            "/dev/sdz3",
            None,
            420456448,
            1936738303,
            FileSystemType::Ext4,
            Some("Solus OS"),
            3,
        ),
        source_part(true, false, "/dev/sdz4", None, 1936738304, 1953523711, FileSystemType::Swap, None, 4),
    ])])
}

fn get_empty() -> Disks {
    Disks(vec![test_disk(Vec::new())])
}

const GIB20: u64 = 41943040;

// 500 MiB Fat16 partition.
fn boot_part(start: u64) -> PartitionBuilder {
    PartitionBuilder::new(start, 1024_000 + start, FileSystemType::Fat16)
}

// 20 GiB Ext4 partition.
fn root_part(start: u64) -> PartitionBuilder {
    PartitionBuilder::new(start, GIB20 + start, FileSystemType::Ext4)
}

fn no_overlaps(disk: &Disk) -> bool {
    let live: Vec<&PartitionInfo> = disk.partitions.iter().filter(|p| !p.remove).collect();
    for (i, a) in live.iter().enumerate() {
        for (j, b) in live.iter().enumerate() {
            if i != j && !(a.end_sector < b.start_sector || a.start_sector > b.end_sector) {
                return false;
            }
        }
    }
    true
}

#[test]
fn layout_diff() {
    let source = get_default().0.into_iter().next().unwrap();
    let mut new = source.clone();
    new.remove_partition(1).unwrap();
    new.remove_partition(2).unwrap();
    new.format_partition(3, FileSystemType::Xfs).unwrap();
    new.resize_partition(3, GIB20).unwrap();
    new.remove_partition(4).unwrap();
    new.add_partition(boot_part(2048)).unwrap();
    new.add_partition(root_part(1026_048)).unwrap();
    assert_eq!(
        source.diff(&new).unwrap(),
        DiskOps {
            remove_partitions: vec![1, 2, 4],
            change_partitions: vec![PartitionChange {
                num: 3,
                start: 420456448,
                end: 420456448 + GIB20,
                format: Some(FileSystemType::Xfs),
            }],
            create_partitions: vec![
                PartitionCreate {
                    start_sector: 2048,
                    end_sector: 1024_000 + 2047,
                    file_system: FileSystemType::Fat16,
                },
                PartitionCreate {
                    start_sector: 1026_048,
                    end_sector: GIB20 + 1026_047,
                    file_system: FileSystemType::Ext4,
                },
            ],
        }
    )
}

#[test]
fn partition_add() {
    // The default sample is maxed out, so any partition added should fail.
    let mut source = get_default().0.into_iter().next().unwrap();
    assert!(source
        .add_partition(PartitionBuilder::new(2048, 2_000_000, FileSystemType::Ext4))
        .is_err());

    // Failures should also occur if the end sector exceeds the size of the disk.
    assert!(source
        .add_partition(PartitionBuilder::new(2048, 1953525169, FileSystemType::Ext4))
        .is_err());

    // An empty disk should succeed, on the other hand.
    let mut source = get_empty().0.into_iter().next().unwrap();

    // Create 500MiB Fat16 partition w/ 512 byte sectors.
    source.add_partition(boot_part(2048)).unwrap();

    // This should fail with an off by one error, due to the start
    // sector being located within the previous partition.
    assert!(source.add_partition(root_part(1026_047)).is_err());

    // Create 20GiB Ext4 partition after that.
    source.add_partition(root_part(1026_048)).unwrap();
}

#[test]
fn layout_validity() {
    // Invalid layouts are missing some of the original source partitions.
    let source = get_default().0.into_iter().next().unwrap();
    let mut duplicate = source.clone();
    assert!(source.validate_layout(&duplicate).is_ok());

    // This should fail, because a critical source partition was removed.
    duplicate.partitions.remove(0);
    assert!(source.validate_layout(&duplicate).is_err());

    // An empty partition should always succeed.
    let source = get_empty().0.into_iter().next().unwrap();
    let mut duplicate = source.clone();
    assert!(source.validate_layout(&duplicate).is_ok());
    duplicate
        .add_partition(PartitionBuilder::new(2048, 1024_00 + 2048, FileSystemType::Fat16))
        .unwrap();
    assert!(source.validate_layout(&duplicate).is_ok());
}

#[test]
fn add_errors_are_the_documented_ones() {
    let mut empty = get_empty().0.into_iter().next().unwrap();
    assert_eq!(
        empty.add_partition(PartitionBuilder::new(2048, 1953525169, FileSystemType::Ext4)),
        Err(DiskError::PartitionOOB)
    );
    // Ending exactly at the size of the disk fits.
    assert_eq!(
        empty.add_partition(PartitionBuilder::new(1953525000, 1953525168, FileSystemType::Ext4)),
        Ok(())
    );
    assert_eq!(
        empty.add_partition(PartitionBuilder::new(100, 100, FileSystemType::Ext4)),
        Err(DiskError::InvalidRange)
    );
    assert_eq!(
        empty.add_partition(PartitionBuilder::new(200, 100, FileSystemType::Ext4)),
        Err(DiskError::InvalidRange)
    );
    assert_eq!(empty.partitions.len(), 1);

    let mut full = get_default().0.into_iter().next().unwrap();
    assert_eq!(
        full.add_partition(PartitionBuilder::new(2048, 2_000_000, FileSystemType::Ext4)),
        Err(DiskError::SectorOverlaps { id: 1 })
    );
    assert_eq!(full.partitions.len(), 4);
}

#[test]
fn add_touching_the_end_of_another_overlaps() {
    let mut disk = get_empty().0.into_iter().next().unwrap();
    disk.add_partition(boot_part(2048)).unwrap();
    assert_eq!(disk.partitions[0].end_sector, 1026047);
    assert_eq!(
        disk.add_partition(root_part(1026_047)),
        Err(DiskError::SectorOverlaps { id: -1 })
    );
    disk.add_partition(root_part(1026_048)).unwrap();
    assert!(no_overlaps(&disk));
}

#[test]
fn add_over_a_removed_partition() {
    let mut disk = get_default().0.into_iter().next().unwrap();
    disk.remove_partition(1).unwrap();
    assert_eq!(disk.add_partition(boot_part(2048)), Ok(()));
    assert!(no_overlaps(&disk));
    assert_eq!(disk.partitions.len(), 5);
    let added = &disk.partitions[4];
    assert!(!added.is_source);
    assert_eq!(added.number, -1);
    assert_eq!((added.start_sector, added.end_sector), (2048, 1026047));
    assert_eq!(added.filesystem, Some(FileSystemType::Fat16));
}

#[test]
fn remove_keeps_sources_and_drops_new_partitions() {
    let mut disk = get_default().0.into_iter().next().unwrap();
    assert_eq!(
        disk.remove_partition(9),
        Err(DiskError::PartitionNotFound { partition: 9 })
    );
    disk.remove_partition(2).unwrap();
    assert_eq!(disk.partitions.len(), 4);
    assert!(disk.partitions[1].remove);

    let mut empty = get_empty().0.into_iter().next().unwrap();
    empty.add_partition(boot_part(2048)).unwrap();
    empty.add_partition(root_part(1026_048)).unwrap();
    empty.remove_partition(-1).unwrap();
    assert_eq!(empty.partitions.len(), 1);
    assert_eq!(empty.partitions[0].start_sector, 1026_048);
    empty.remove_partition(-1).unwrap();
    assert!(empty.partitions.is_empty());
}

#[test]
fn resize_below_the_minimum_is_too_small() {
    let mut disk = get_empty().0.into_iter().next().unwrap();
    disk.add_partition(boot_part(2048)).unwrap();
    // 10 MiB at 512-byte sectors.
    assert_eq!(disk.resize_partition(-1, 20480), Err(DiskError::ResizeTooSmall));
    assert_eq!(disk.resize_partition(-1, 100), Err(DiskError::ResizeTooSmall));
    assert_eq!(disk.resize_partition(7, 100), Err(DiskError::ResizeTooSmall));
    assert_eq!(disk.partitions[0].end_sector, 1026047);
    assert_eq!(disk.resize_partition(-1, 20481), Ok(()));
    assert_eq!(disk.partitions[0].end_sector, 2048 + 20481);
}

#[test]
fn failed_resize_changes_nothing() {
    let mut disk = get_default().0.into_iter().next().unwrap();
    let before = disk.clone();
    assert_eq!(
        disk.resize_partition(1, 2_000_000),
        Err(DiskError::SectorOverlaps { id: 2 })
    );
    assert_eq!(disk, before);
    assert_eq!(
        disk.resize_partition(4, 100_000_000),
        Err(DiskError::PartitionOOB)
    );
    assert_eq!(disk, before);
    assert_eq!(
        disk.resize_partition(5, 100_000_000),
        Err(DiskError::PartitionNotFound { partition: 5 })
    );
    assert_eq!(disk, before);
    // Shrinking always fits.
    assert_eq!(disk.resize_partition(3, GIB20), Ok(()));
    assert_eq!(disk.partitions[2].end_sector, 420456448 + GIB20);
    assert!(no_overlaps(&disk));
}

#[test]
fn resize_may_grow_over_a_removed_neighbour() {
    let mut disk = get_default().0.into_iter().next().unwrap();
    disk.remove_partition(2).unwrap();
    assert_eq!(disk.resize_partition(1, 2_000_000), Ok(()));
    assert_eq!(disk.partitions[0].end_sector, 2048 + 2_000_000);
    assert!(no_overlaps(&disk));
}

#[test]
fn move_shifts_both_ends() {
    let mut disk = get_default().0.into_iter().next().unwrap();
    let before = disk.clone();
    assert_eq!(disk.move_partition(1, 2048), Ok(()));
    assert_eq!(disk, before);
    assert_eq!(
        disk.move_partition(1, 4096),
        Err(DiskError::SectorOverlaps { id: 2 })
    );
    assert_eq!(disk, before);
    assert_eq!(
        disk.move_partition(8, 4096),
        Err(DiskError::PartitionNotFound { partition: 8 })
    );
    assert_eq!(
        disk.move_partition(4, 1953525000),
        Err(DiskError::PartitionOOB)
    );
    assert_eq!(disk, before);
    // Moving down over its own old range is fine once the neighbour is gone.
    disk.remove_partition(1).unwrap();
    assert_eq!(disk.move_partition(2, 2048), Ok(()));
    assert_eq!(disk.partitions[1].start_sector, 2048);
    assert_eq!(disk.partitions[1].end_sector, 420456447 - 1024000);
    assert!(no_overlaps(&disk));
}

#[test]
fn format_sets_the_file_system_and_the_flag() {
    let mut disk = get_default().0.into_iter().next().unwrap();
    assert_eq!(
        disk.format_partition(6, FileSystemType::Xfs),
        Err(DiskError::PartitionNotFound { partition: 6 })
    );
    disk.format_partition(2, FileSystemType::Xfs).unwrap();
    assert!(disk.partitions[1].format);
    assert_eq!(disk.partitions[1].filesystem, Some(FileSystemType::Xfs));
}

#[test]
fn sector_lookups() {
    let mut disk = get_default().0.into_iter().next().unwrap();
    assert_eq!(disk.get_partition_at(0), None);
    assert_eq!(disk.get_partition_at(2048), Some(1));
    assert_eq!(disk.get_partition_at(1026047), Some(1));
    assert_eq!(disk.get_partition_at(1026048), Some(2));
    assert_eq!(disk.get_partition_at(1953523712), None);
    assert_eq!(disk.overlaps_region(0, 2047), None);
    assert_eq!(disk.overlaps_region(0, 2048), Some(1));
    assert_eq!(disk.overlaps_region(1026047, 1026048), Some(1));
    assert_eq!(disk.overlaps_region(1953523711, 1953525000), Some(4));
    disk.remove_partition(1).unwrap();
    assert_eq!(disk.get_partition_at(2048), None);
    assert_eq!(disk.overlaps_region(0, 2048), None);
}

#[test]
fn diff_of_a_copy_is_empty() {
    let source = get_default().0.into_iter().next().unwrap();
    let copy = source.clone();
    assert_eq!(
        source.diff(&copy),
        Ok(DiskOps {
            remove_partitions: vec![],
            change_partitions: vec![],
            create_partitions: vec![],
        })
    );
}

#[test]
fn diff_of_a_dropped_source_is_a_layout_change() {
    let source = get_default().0.into_iter().next().unwrap();
    let mut copy = source.clone();
    copy.partitions.remove(2);
    assert_eq!(source.diff(&copy), Err(DiskError::LayoutChanged));
    assert_eq!(source.validate_layout(&copy), Err(DiskError::LayoutChanged));
}

#[test]
fn remove_then_diff_gives_one_removal() {
    let source = get_default().0.into_iter().next().unwrap();
    let mut copy = source.clone();
    copy.remove_partition(2).unwrap();
    let ops = source.diff(&copy).unwrap();
    assert_eq!(ops.remove_partitions, vec![2]);
    assert!(ops.change_partitions.iter().all(|c| c.num != 2));
    assert!(ops.change_partitions.is_empty());
    assert!(ops.create_partitions.is_empty());
}

#[test]
fn diff_follows_numbers_not_positions() {
    let source = get_default().0.into_iter().next().unwrap();
    let mut copy = source.clone();
    copy.partitions.reverse();
    copy.resize_partition(4, 16_000_000).unwrap();
    copy.partitions[3].flags = vec![disks::PartitionFlag::Boot];
    let ops = source.diff(&copy).unwrap();
    assert!(ops.remove_partitions.is_empty());
    assert_eq!(
        ops.change_partitions,
        vec![
            PartitionChange { num: 1, start: 2048, end: 1026047, format: None },
            PartitionChange {
                num: 4,
                start: 1936738304,
                end: 1936738304 + 16_000_000,
                format: None,
            },
        ]
    );
    assert!(ops.create_partitions.is_empty());
}
