//! The disk model: a disk's geometry, its partitions, and the validated mutations of a
//! proposed layout.
use vstd::prelude::*;

use crate::builder::PartitionBuilder;
use crate::fs_types::FileSystemType;
use crate::partition::{record_of_ped, PartitionInfo, PedPartition};
use crate::search::{first_of, is_first, lemma_first_of, lemma_first_of_none};

verus! {

/// Errors of the operations on a disk and its layout.
#[derive(Debug, Clone, PartialEq)]
pub enum DiskError {
    DeviceGet,
    DeviceProbe,
    DiskGet,
    DiskNew,
    LayoutChanged,
    MountsObtain { why: String },
    PartitionNotFound { partition: i32 },
    PartitionOverlaps,
    SectorOverlaps { id: i32 },
    SerialGet { why: String },
    PartitionOOB,
    ResizeTooSmall,
    /// A new partition was asked for over a range that holds no sector.
    InvalidRange,
}

/// The kinds of partition table.
#[derive(Debug, Clone, Copy, PartialEq, Eq, Structural, Hash)]
pub enum PartitionTable {
    Msdos,
    Gpt,
}

/// A disk and the partitions on it.
#[derive(Debug, Clone, PartialEq)]
pub struct Disk {
    /// The model name of the device, assigned by the manufacturer.
    pub model_name: String,
    /// A unique identifier of the disk.
    pub serial: String,
    /// Where the block device is found in the file system.
    pub device_path: String,
    /// The size of the disk in sectors.
    pub size: u64,
    /// The size of a sector in bytes.
    pub sector_size: u64,
    /// The type of the device, such as SCSI.
    pub device_type: String,
    /// The kind of partition table, if the disk has one.
    pub table_type: Option<PartitionTable>,
    /// Whether the device is read-only.
    pub read_only: bool,
    /// The partitions of the disk, in table order.
    pub partitions: Vec<PartitionInfo>,
}

/// What the partition-table library reports of a device.
#[derive(Debug, Clone, PartialEq)]
pub struct PedDevice {
    pub model_name: String,
    pub device_path: String,
    pub serial: String,
    /// The size of the device in sectors.
    pub length: u64,
    pub sector_size: u64,
    pub device_type: String,
    pub read_only: bool,
    /// The name of the kind of partition table, if the device has one.
    pub table_name: Option<String>,
    /// The entries of the partition table, in table order.
    pub partitions: Vec<PedPartition>,
}

impl PedDevice {
    /// The report is well formed: the sector size is not zero, no range is inverted, and
    /// no two valid entries share a number.
    pub open spec fn wf(&self) -> bool {
        &&& self.sector_size > 0
        &&& forall|i: int|
            0 <= i < self.partitions@.len() ==> #[trigger] self.partitions@[i].start_sector
                <= self.partitions@[i].end_sector
        &&& forall|i: int, j: int|
            0 <= i < self.partitions@.len() && 0 <= j < self.partitions@.len() && i != j
                && #[trigger] self.partitions@[i].number != -1 && #[trigger] self.partitions@[j].number
                != -1 ==> self.partitions@[i].number != self.partitions@[j].number
    }
}

/// The kind of partition table reported under `name`.
pub open spec fn table_of_name(name: Option<String>) -> Option<PartitionTable> {
    match name {
        Some(n) => if n@ == seq!['g', 'p', 't'] {
            Some(PartitionTable::Gpt)
        } else if n@ == seq!['m', 's', 'd', 'o', 's'] {
            Some(PartitionTable::Msdos)
        } else {
            None
        },
        None => None,
    }
}

/// The records of the valid primary and logical partitions among `parts`, in order;
/// entries numbered -1 are free space or metadata.
pub open spec fn records_of_ped(parts: Seq<PedPartition>) -> Seq<PartitionInfo>
    decreases parts.len(),
{
    if parts.len() == 0 {
        seq![]
    } else {
        let prev = records_of_ped(parts.drop_last());
        if parts.last().number == -1 {
            prev
        } else {
            match record_of_ped(parts.last()) {
                Some(r) => prev.push(r),
                None => prev,
            }
        }
    }
}

/// True if the inclusive ranges `[s1, e1]` and `[s2, e2]` share a sector.
pub open spec fn ranges_overlap(s1: u64, e1: u64, s2: u64, e2: u64) -> bool {
    !(e1 < s2 || s1 > e2)
}

/// True if `parts[i]`, other than `parts[skip]` and not pending removal, overlaps
/// `[start, end]`.
pub open spec fn clash_pred(parts: Seq<PartitionInfo>, skip: int, start: u64, end: u64) -> spec_fn(
    int,
) -> bool {
    |i: int|
        i != skip && !parts[i].remove && ranges_overlap(
            start,
            end,
            parts[i].start_sector,
            parts[i].end_sector,
        )
}

/// The number of the first partition, other than `parts[skip]` and not pending removal,
/// that overlaps `[start, end]`; with `skip` out of range, every partition is considered.
pub open spec fn overlapping_number(parts: Seq<PartitionInfo>, skip: int, start: u64, end: u64) -> Option<i32> {
    match first_of(parts.len() as int, clash_pred(parts, skip, start, end)) {
        Some(i) => Some(parts[i].number),
        None => None,
    }
}

/// True if `parts[i]` has the number `num`.
pub open spec fn number_pred(parts: Seq<PartitionInfo>, num: i32) -> spec_fn(int) -> bool {
    |i: int| parts[i].number == num
}

/// The index of the first partition numbered `num`.
pub open spec fn index_of(parts: Seq<PartitionInfo>, num: i32) -> Option<int> {
    first_of(parts.len() as int, number_pred(parts, num))
}

/// True if `parts[i]` is not pending removal and holds `sector`.
pub open spec fn holds_pred(parts: Seq<PartitionInfo>, sector: u64) -> spec_fn(int) -> bool {
    |i: int| !parts[i].remove && parts[i].start_sector <= sector <= parts[i].end_sector
}

/// A record is well formed: its range is not inverted, only a source partition may be
/// pending removal, and a new partition carries the file system to create it with.
pub open spec fn record_wf(p: PartitionInfo) -> bool {
    &&& p.start_sector <= p.end_sector
    &&& p.remove ==> p.is_source
    &&& !p.is_source ==> p.filesystem is Some
}

/// No two source partitions share a number.
pub open spec fn source_numbers_unique(parts: Seq<PartitionInfo>) -> bool {
    forall|i: int, j: int|
        0 <= i < parts.len() && 0 <= j < parts.len() && i != j && parts[i].is_source
            && parts[j].is_source ==> parts[i].number != parts[j].number
}

/// No two partitions that are not pending removal share a sector.
pub open spec fn no_overlaps(parts: Seq<PartitionInfo>) -> bool {
    forall|i: int, j: int|
        0 <= i < parts.len() && 0 <= j < parts.len() && i != j && !parts[i].remove
            && !parts[j].remove ==> parts[i].end_sector < parts[j].start_sector
            || parts[i].start_sector > parts[j].end_sector
}

/// The minimum-size threshold for a resize: a length of at most this many sectors
/// (10 MiB) is too small.
pub open spec fn min_resize(sector_size: u64) -> int {
    (10485760int) / (sector_size as int)
}

/// What adding the partition that `b` describes to a disk of `size` sectors holding
/// `parts` returns: a range without sectors is refused, then one whose sectors
/// `[b.start_sector, b.end_sector - 1]` overlap a partition not pending removal, then one
/// that ends beyond the disk.
pub open spec fn add_outcome(parts: Seq<PartitionInfo>, size: u64, b: PartitionBuilder) -> Result<(), DiskError> {
    if b.end_sector <= b.start_sector {
        Err(DiskError::InvalidRange)
    } else {
        match overlapping_number(parts, parts.len() as int, b.start_sector, (b.end_sector - 1) as u64) {
            Some(id) => Err(DiskError::SectorOverlaps { id }),
            None => if b.end_sector > size {
                Err(DiskError::PartitionOOB)
            } else {
                Ok(())
            },
        }
    }
}

/// What resizing partition `num` to `length` sectors returns.
pub open spec fn resize_outcome(d: Disk, num: i32, length: u64) -> Result<(), DiskError> {
    let parts = d.partitions@;
    if length as int <= min_resize(d.sector_size) {
        Err(DiskError::ResizeTooSmall)
    } else {
        match index_of(parts, num) {
            None => Err(DiskError::PartitionNotFound { partition: num }),
            Some(i) => {
                let end = parts[i].start_sector + length;
                if end > d.size {
                    Err(DiskError::PartitionOOB)
                } else {
                    match overlapping_number(parts, i, parts[i].start_sector, end as u64) {
                        Some(id) => Err(DiskError::SectorOverlaps { id }),
                        None => Ok(()),
                    }
                }
            },
        }
    }
}

/// The last sector of `p` once its first sector is moved to `start`.
pub open spec fn moved_end(p: PartitionInfo, start: u64) -> int {
    p.end_sector - p.start_sector + start
}

/// What moving partition `num` to begin at sector `start` returns.
pub open spec fn move_outcome(d: Disk, num: i32, start: u64) -> Result<(), DiskError> {
    let parts = d.partitions@;
    match index_of(parts, num) {
        None => Err(DiskError::PartitionNotFound { partition: num }),
        Some(i) => if start == parts[i].start_sector {
            Ok(())
        } else if moved_end(parts[i], start) > d.size {
            Err(DiskError::PartitionOOB)
        } else {
            match overlapping_number(parts, i, start, moved_end(parts[i], start) as u64) {
                Some(id) => Err(DiskError::SectorOverlaps { id }),
                None => Ok(()),
            }
        },
    }
}

/// Replacing `parts[i]` by a record whose range clashes with no other partition not
/// pending removal keeps the partitions apart, and keeps the records well formed when
/// the new one is.
pub proof fn lemma_replace_keeps_apart(parts: Seq<PartitionInfo>, i: int, new_parts: Seq<PartitionInfo>)
    requires
        0 <= i < parts.len(),
        new_parts.len() == parts.len(),
        forall|k: int| 0 <= k < parts.len() && k != i ==> new_parts[k] == parts[k],
        new_parts[i].remove == parts[i].remove,
        new_parts[i].is_source == parts[i].is_source,
        new_parts[i].number == parts[i].number,
        forall|k: int| 0 <= k < parts.len() ==> !#[trigger] clash_pred(
            parts,
            i,
            new_parts[i].start_sector,
            new_parts[i].end_sector,
        )(k),
    ensures
        no_overlaps(parts) ==> no_overlaps(new_parts),
        source_numbers_unique(parts) ==> source_numbers_unique(new_parts),
{
    if no_overlaps(parts) {
        assert forall|a: int, b: int|
            0 <= a < new_parts.len() && 0 <= b < new_parts.len() && a != b && !new_parts[a].remove
                && !new_parts[b].remove implies new_parts[a].end_sector < new_parts[b].start_sector
            || new_parts[a].start_sector > new_parts[b].end_sector by {
            if a == i {
                assert(!clash_pred(parts, i, new_parts[i].start_sector, new_parts[i].end_sector)(b));
            } else if b == i {
                assert(!clash_pred(parts, i, new_parts[i].start_sector, new_parts[i].end_sector)(a));
            } else {
                assert(new_parts[a] == parts[a] && new_parts[b] == parts[b]);
            }
        }
    }
    if source_numbers_unique(parts) {
        assert forall|a: int, b: int|
            0 <= a < new_parts.len() && 0 <= b < new_parts.len() && a != b && new_parts[a].is_source
                && new_parts[b].is_source implies new_parts[a].number != new_parts[b].number by {
            assert(parts[a].is_source && parts[b].is_source);
        }
    }
}

impl Disk {
    /// The disk is well formed: its sector size is not zero, each record is well formed,
    /// and no two source partitions share a number.
    pub open spec fn wf(&self) -> bool {
        &&& self.sector_size > 0
        &&& forall|i: int| 0 <= i < self.partitions@.len() ==> record_wf(#[trigger] self.partitions@[i])
        &&& source_numbers_unique(self.partitions@)
    }

    /// Every partition mirrors one on the device, with no change pending: the disk as
    /// probed.
    pub open spec fn is_probed(&self) -> bool {
        forall|i: int|
            0 <= i < self.partitions@.len() ==> #[trigger] self.partitions@[i].is_source
                && !self.partitions@[i].remove && !self.partitions@[i].format
    }

    /// `other` is this disk with its partitions replaced by `parts`.
    pub open spec fn with_partitions(&self, other: Disk, parts: Seq<PartitionInfo>) -> bool {
        &&& other.partitions@ == parts
        &&& other.model_name == self.model_name
        &&& other.serial == self.serial
        &&& other.device_path == self.device_path
        &&& other.size == self.size
        &&& other.sector_size == self.sector_size
        &&& other.device_type == self.device_type
        &&& other.table_type == self.table_type
        &&& other.read_only == self.read_only
    }

    /// Builds the disk that the partition-table library reports. A disk without a
    /// partition table of a known kind has no partitions.
    pub fn new(device: PedDevice) -> (r: Disk)
        ensures
            r.model_name == device.model_name,
            r.serial == device.serial,
            r.device_path == device.device_path,
            r.size == device.length,
            r.sector_size == device.sector_size,
            r.device_type == device.device_type,
            r.read_only == device.read_only,
            r.table_type == table_of_name(device.table_name),
            r.partitions@ == if r.table_type is Some {
                records_of_ped(device.partitions@)
            } else {
                Seq::<PartitionInfo>::empty()
            },
            device.wf() ==> r.wf() && r.is_probed(),
    {
        proof {
            reveal_strlit("gpt");
            assert("gpt"@ =~= seq!['g', 'p', 't']);
            reveal_strlit("msdos");
            assert("msdos"@ =~= seq!['m', 's', 'd', 'o', 's']);
        }
        let ghost dev = device;
        let table_type = match &device.table_name {
            Some(n) => if n.as_str().to_owned() == "gpt".to_owned() {
                Some(PartitionTable::Gpt)
            } else if n.as_str().to_owned() == "msdos".to_owned() {
                Some(PartitionTable::Msdos)
            } else {
                None
            },
            None => None,
        };
        let mut partitions: Vec<PartitionInfo> = Vec::new();
        if table_type.is_some() {
            let ghost all = device.partitions@;
            let mut rest = device.partitions;
            let ghost mut k: int = 0;
            while rest.len() > 0
                invariant
                    0 <= k <= all.len(),
                    rest@ == all.subrange(k, all.len() as int),
                    partitions@ == records_of_ped(all.subrange(0, k)),
                    all == dev.partitions@,
                    dev.wf() ==> forall|m: int|
                        0 <= m < partitions@.len() ==> {
                            let p = #[trigger] partitions@[m];
                            &&& p.start_sector <= p.end_sector
                            &&& p.is_source && !p.remove && !p.format
                            &&& p.number != -1
                            &&& exists|q: int| 0 <= q < k && all[q].number == p.number
                        },
                    dev.wf() ==> source_numbers_unique(partitions@),
                decreases rest.len(),
            {
                let part = rest.remove(0);
                proof {
                    assert(part == all[k]);
                    assert(all.subrange(0, k + 1).drop_last() =~= all.subrange(0, k));
                    assert(all.subrange(0, k + 1).last() == all[k]);
                }
                let ghost before = partitions@;
                if part.number != -1 {
                    match PartitionInfo::new_from_ped(part) {
                        Some(record) => {
                            partitions.push(record);
                            proof {
                                if dev.wf() {
                                    let new = partitions@;
                                    assert(new[before.len() as int] == record);
                                    assert forall|m: int| 0 <= m < before.len() implies #[trigger] new[m].number
                                        != record.number by {
                                        assert(new[m] == before[m]);
                                        let q = choose|q: int| 0 <= q < k && all[q].number == before[m].number;
                                        assert(all[q].number != -1 && all[k].number != -1);
                                    }
                                    assert forall|m: int| 0 <= m < new.len() implies {
                                        let p = #[trigger] new[m];
                                        &&& p.start_sector <= p.end_sector
                                        &&& p.is_source && !p.remove && !p.format
                                        &&& p.number != -1
                                        &&& exists|q: int| 0 <= q < k + 1 && all[q].number == p.number
                                    } by {
                                        if m < before.len() {
                                            assert(new[m] == before[m]);
                                        } else {
                                            assert(all[k].start_sector <= all[k].end_sector);
                                        }
                                    }
                                }
                            }
                        },
                        None => {},
                    }
                }
                proof {
                    k = k + 1;
                    assert(rest@ =~= all.subrange(k, all.len() as int));
                }
            }
            proof {
                assert(all.subrange(0, k) =~= all);
            }
        }
        Disk {
            model_name: device.model_name,
            serial: device.serial,
            device_path: device.device_path,
            size: device.length,
            sector_size: device.sector_size,
            device_type: device.device_type,
            table_type,
            read_only: device.read_only,
            partitions,
        }
    }

    /// Returns the path of the disk's device.
    pub fn path(&self) -> (r: &str)
        ensures
            r@ == self.device_path@,
    {
        self.device_path.as_str()
    }

    /// The index of the first partition that is not `skip` nor pending removal and
    /// overlaps `[start, end]`.
    fn find_clash(&self, skip: usize, start: u64, end: u64) -> (r: Option<usize>)
        ensures
            match r {
                Some(i) => is_first(
                    self.partitions@.len() as int,
                    clash_pred(self.partitions@, skip as int, start, end),
                    i as int,
                ),
                None => forall|i: int|
                    0 <= i < self.partitions@.len() ==> !#[trigger] clash_pred(
                        self.partitions@,
                        skip as int,
                        start,
                        end,
                    )(i),
            },
            first_of(self.partitions@.len() as int, clash_pred(self.partitions@, skip as int, start, end))
                == match r {
                Some(i) => Some(i as int),
                None => None::<int>,
            },
    {
        let ghost p = clash_pred(self.partitions@, skip as int, start, end);
        let mut i: usize = 0;
        while i < self.partitions.len()
            invariant
                i <= self.partitions@.len(),
                p == clash_pred(self.partitions@, skip as int, start, end),
                forall|j: int| 0 <= j < i ==> !#[trigger] p(j),
            decreases self.partitions.len() - i,
        {
            let part = &self.partitions[i];
            if i != skip && !part.remove && !(end < part.start_sector || start > part.end_sector) {
                proof {
                    lemma_first_of(self.partitions@.len() as int, p, i as int);
                }
                return Some(i);
            }
            i = i + 1;
        }
        proof {
            lemma_first_of_none(self.partitions@.len() as int, p);
        }
        None
    }

    /// The index of the first partition numbered `num`.
    fn find_number(&self, num: i32) -> (r: Option<usize>)
        ensures
            index_of(self.partitions@, num) == match r {
                Some(i) => Some(i as int),
                None => None::<int>,
            },
            match r {
                Some(i) => i < self.partitions@.len() && self.partitions@[i as int].number == num,
                None => forall|i: int|
                    0 <= i < self.partitions@.len() ==> self.partitions@[i].number != num,
            },
    {
        let ghost p = number_pred(self.partitions@, num);
        let mut i: usize = 0;
        while i < self.partitions.len()
            invariant
                i <= self.partitions@.len(),
                p == number_pred(self.partitions@, num),
                forall|j: int| 0 <= j < i ==> self.partitions@[j].number != num,
            decreases self.partitions.len() - i,
        {
            if self.partitions[i].number == num {
                proof {
                    lemma_first_of(self.partitions@.len() as int, p, i as int);
                }
                return Some(i);
            }
            i = i + 1;
        }
        proof {
            lemma_first_of_none(self.partitions@.len() as int, p);
        }
        None
    }

    /// The number of the first partition, not pending removal, that shares a sector
    /// with `[start, end]`.
    pub fn overlaps_region(&self, start: u64, end: u64) -> (r: Option<i32>)
        ensures
            r == overlapping_number(self.partitions@, self.partitions@.len() as int, start, end),
    {
        let skip = self.partitions.len();
        let found = self.find_clash(skip, start, end);
        match found {
            Some(i) => Some(self.partitions[i].number),
            None => None,
        }
    }

    /// The number of the first partition, not pending removal, that holds `sector`.
    pub fn get_partition_at(&self, sector: u64) -> (r: Option<i32>)
        ensures
            r == match first_of(self.partitions@.len() as int, holds_pred(self.partitions@, sector)) {
                Some(i) => Some(self.partitions@[i].number),
                None => None,
            },
    {
        let ghost p = holds_pred(self.partitions@, sector);
        let mut i: usize = 0;
        while i < self.partitions.len()
            invariant
                i <= self.partitions@.len(),
                p == holds_pred(self.partitions@, sector),
                forall|j: int| 0 <= j < i ==> !#[trigger] p(j),
            decreases self.partitions.len() - i,
        {
            let part = &self.partitions[i];
            if !part.remove && sector >= part.start_sector && sector <= part.end_sector {
                proof {
                    lemma_first_of(self.partitions@.len() as int, p, i as int);
                }
                return Some(part.number);
            }
            i = i + 1;
        }
        proof {
            lemma_first_of_none(self.partitions@.len() as int, p);
        }
        None
    }

    /// Adds the partition that `builder` describes to the end of the list.
    ///
    /// Fails with `InvalidRange` if the range holds no sector, with `SectorOverlaps` if it
    /// shares a sector with a partition not pending removal, and with `PartitionOOB` if it
    /// ends beyond the disk.
    pub fn add_partition(&mut self, builder: PartitionBuilder) -> (r: Result<(), DiskError>)
        ensures
            r == add_outcome(old(self).partitions@, old(self).size, builder),
            r is Err ==> *final(self) == *old(self),
            r is Ok ==> old(self).with_partitions(*final(self), final(self).partitions@)
                && final(self).partitions@.len() == old(self).partitions@.len() + 1
                && final(self).partitions@.drop_last() == old(self).partitions@
                && builder.builds(final(self).partitions@.last()),
            old(self).wf() ==> final(self).wf(),
            no_overlaps(old(self).partitions@) ==> no_overlaps(final(self).partitions@),
    {
        if builder.end_sector <= builder.start_sector {
            return Err(DiskError::InvalidRange);
        }
        let len = self.partitions.len();
        match self.find_clash(len, builder.start_sector, builder.end_sector - 1) {
            Some(i) => {
                return Err(DiskError::SectorOverlaps { id: self.partitions[i].number });
            },
            None => {},
        }
        if self.size < builder.end_sector {
            return Err(DiskError::PartitionOOB);
        }
        let ghost old_parts = self.partitions@;
        let ghost b = builder;
        let part = builder.build();
        self.partitions.push(part);
        proof {
            let parts = self.partitions@;
            assert(parts.drop_last() =~= old_parts);
            if no_overlaps(old_parts) {
                assert forall|i: int, j: int|
                    0 <= i < parts.len() && 0 <= j < parts.len() && i != j && !parts[i].remove
                        && !parts[j].remove implies parts[i].end_sector < parts[j].start_sector
                    || parts[i].start_sector > parts[j].end_sector by {
                    if i == len as int {
                        assert(!clash_pred(old_parts, len as int, b.start_sector, (b.end_sector - 1) as u64)(j));
                    } else if j == len as int {
                        assert(!clash_pred(old_parts, len as int, b.start_sector, (b.end_sector - 1) as u64)(i));
                    } else {
                        assert(parts[i] == old_parts[i] && parts[j] == old_parts[j]);
                    }
                }
            }
        }
        Ok(())
    }

    /// Removes partition `num`: a source partition is kept and marked for removal, a new
    /// one is taken out of the list.
    pub fn remove_partition(&mut self, num: i32) -> (r: Result<(), DiskError>)
        ensures
            match index_of(old(self).partitions@, num) {
                None => r == Err::<(), DiskError>(DiskError::PartitionNotFound { partition: num })
                    && *final(self) == *old(self),
                Some(i) => r is Ok && old(self).with_partitions(
                    *final(self),
                    if old(self).partitions@[i].is_source {
                        old(self).partitions@.update(
                            i,
                            PartitionInfo { remove: true, ..old(self).partitions@[i] },
                        )
                    } else {
                        old(self).partitions@.remove(i)
                    },
                ),
            },
            old(self).wf() ==> final(self).wf(),
            no_overlaps(old(self).partitions@) ==> no_overlaps(final(self).partitions@),
    {
        match self.find_number(num) {
            None => Err(DiskError::PartitionNotFound { partition: num }),
            Some(i) => {
                let ghost old_parts = self.partitions@;
                if self.partitions[i].is_source {
                    self.partitions[i].remove = true;
                    assert(self.partitions@ =~= old_parts.update(
                        i as int,
                        PartitionInfo { remove: true, ..old_parts[i as int] },
                    ));
                } else {
                    self.partitions.remove(i);
                    proof {
                        let parts = self.partitions@;
                        assert forall|a: int| 0 <= a < parts.len() implies parts[a] == old_parts[if a
                            < i { a } else { a + 1 }] by {}
                    }
                }
                Ok(())
            },
        }
    }

    /// Marks partition `num` to be formatted with `fs`.
    pub fn format_partition(&mut self, num: i32, fs: FileSystemType) -> (r: Result<(), DiskError>)
        ensures
            match index_of(old(self).partitions@, num) {
                None => r == Err::<(), DiskError>(DiskError::PartitionNotFound { partition: num })
                    && *final(self) == *old(self),
                Some(i) => r is Ok && old(self).with_partitions(
                    *final(self),
                    old(self).partitions@.update(
                        i,
                        PartitionInfo { format: true, filesystem: Some(fs), ..old(self).partitions@[i] },
                    ),
                ),
            },
            old(self).wf() ==> final(self).wf(),
            no_overlaps(old(self).partitions@) ==> no_overlaps(final(self).partitions@),
    {
        match self.find_number(num) {
            None => Err(DiskError::PartitionNotFound { partition: num }),
            Some(i) => {
                let ghost old_parts = self.partitions@;
                self.partitions[i].format = true;
                self.partitions[i].filesystem = Some(fs);
                assert(self.partitions@ =~= old_parts.update(
                    i as int,
                    PartitionInfo { format: true, filesystem: Some(fs), ..old_parts[i as int] },
                ));
                Ok(())
            },
        }
    }

    /// Resizes partition `num` to end `length` sectors after its first sector.
    ///
    /// Fails with `ResizeTooSmall` for a length of 10 MiB or less, with
    /// `PartitionNotFound` if there is no such partition, with `PartitionOOB` if the new
    /// end lies beyond the disk, and with `SectorOverlaps` if the new range shares a sector
    /// with another partition not pending removal. A failed call changes nothing.
    pub fn resize_partition(&mut self, num: i32, length: u64) -> (r: Result<(), DiskError>)
        requires
            old(self).sector_size > 0,
        ensures
            r == resize_outcome(*old(self), num, length),
            r is Err ==> *final(self) == *old(self),
            r is Ok ==> {
                let i = index_of(old(self).partitions@, num).unwrap();
                let p = old(self).partitions@[i];
                old(self).with_partitions(
                    *final(self),
                    old(self).partitions@.update(
                        i,
                        PartitionInfo { end_sector: (p.start_sector + length) as u64, ..p },
                    ),
                )
            },
            old(self).wf() ==> final(self).wf(),
            no_overlaps(old(self).partitions@) ==> no_overlaps(final(self).partitions@),
    {
        let min: u64 = 10485760 / self.sector_size;
        if length <= min {
            return Err(DiskError::ResizeTooSmall);
        }
        let i = match self.find_number(num) {
            None => {
                return Err(DiskError::PartitionNotFound { partition: num });
            },
            Some(i) => i,
        };
        let start = self.partitions[i].start_sector;
        if length > self.size || start > self.size - length {
            return Err(DiskError::PartitionOOB);
        }
        let end = start + length;
        match self.find_clash(i, start, end) {
            Some(j) => {
                return Err(DiskError::SectorOverlaps { id: self.partitions[j].number });
            },
            None => {},
        }
        let ghost old_parts = self.partitions@;
        self.partitions[i].end_sector = end;
        proof {
            let parts = self.partitions@;
            assert(parts =~= old_parts.update(
                i as int,
                PartitionInfo { end_sector: end, ..old_parts[i as int] },
            ));
            lemma_replace_keeps_apart(old_parts, i as int, parts);
        }
        Ok(())
    }

    /// Moves partition `num` to begin at sector `start`, keeping its length.
    ///
    /// Does nothing if it begins there already. Fails with `PartitionNotFound` if there is
    /// no such partition, with `PartitionOOB` if the moved partition would end beyond the
    /// disk, and with `SectorOverlaps` if the new range shares a sector with another
    /// partition not pending removal. A failed call changes nothing.
    pub fn move_partition(&mut self, num: i32, start: u64) -> (r: Result<(), DiskError>)
        requires
            old(self).wf(),
        ensures
            r == move_outcome(*old(self), num, start),
            r is Err ==> *final(self) == *old(self),
            r is Ok ==> {
                let i = index_of(old(self).partitions@, num).unwrap();
                let p = old(self).partitions@[i];
                old(self).with_partitions(
                    *final(self),
                    old(self).partitions@.update(
                        i,
                        PartitionInfo {
                            start_sector: start,
                            end_sector: moved_end(p, start) as u64,
                            ..p
                        },
                    ),
                )
            },
            final(self).wf(),
            no_overlaps(old(self).partitions@) ==> no_overlaps(final(self).partitions@),
    {
        let i = match self.find_number(num) {
            None => {
                return Err(DiskError::PartitionNotFound { partition: num });
            },
            Some(i) => i,
        };
        let old_start = self.partitions[i].start_sector;
        let old_end = self.partitions[i].end_sector;
        assert(record_wf(self.partitions@[i as int]));
        if start == old_start {
            assert(self.partitions@ =~= self.partitions@.update(
                i as int,
                PartitionInfo {
                    start_sector: start,
                    end_sector: moved_end(self.partitions@[i as int], start) as u64,
                    ..self.partitions@[i as int]
                },
            ));
            return Ok(());
        }
        let length = old_end - old_start;
        if length > self.size || start > self.size - length {
            return Err(DiskError::PartitionOOB);
        }
        let end = start + length;
        match self.find_clash(i, start, end) {
            Some(j) => {
                return Err(DiskError::SectorOverlaps { id: self.partitions[j].number });
            },
            None => {},
        }
        let ghost old_parts = self.partitions@;
        self.partitions[i].start_sector = start;
        self.partitions[i].end_sector = end;
        proof {
            let parts = self.partitions@;
            assert(parts =~= old_parts.update(
                i as int,
                PartitionInfo { start_sector: start, end_sector: end, ..old_parts[i as int] },
            ));
            lemma_replace_keeps_apart(old_parts, i as int, parts);
        }
        Ok(())
    }
}

} // verus!
