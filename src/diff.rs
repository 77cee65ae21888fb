//! The layout differ: the operations that turn a disk's layout into a proposed one, and
//! the laws that they obey.
use vstd::prelude::*;

use crate::disk::{record_wf, source_numbers_unique, Disk, DiskError};
use crate::operations::{DiskOps, PartitionChange, PartitionCreate};
use crate::partition::{changes_required, PartitionInfo};
use crate::search::{first_of, lemma_first_of, lemma_first_of_none};

verus! {

/// True if `parts[j]` is the source partition numbered `num`.
pub open spec fn source_pred(parts: Seq<PartitionInfo>, num: i32) -> spec_fn(int) -> bool {
    |j: int| parts[j].is_source && parts[j].number == num
}

/// The index of the first source partition numbered `num`.
pub open spec fn counterpart(parts: Seq<PartitionInfo>, num: i32) -> Option<int> {
    first_of(parts.len() as int, source_pred(parts, num))
}

/// True if `parts` holds a source partition numbered `num`.
pub open spec fn has_source(parts: Seq<PartitionInfo>, num: i32) -> bool {
    exists|j: int| 0 <= j < parts.len() && #[trigger] source_pred(parts, num)(j)
}

/// Every source partition of `orig` is still in `new`, possibly marked for removal.
pub open spec fn layout_kept(orig: Seq<PartitionInfo>, new: Seq<PartitionInfo>) -> bool {
    forall|i: int| 0 <= i < orig.len() && #[trigger] orig[i].is_source ==> has_source(new, orig[i].number)
}

/// True if the proposed layout `new` removes the source partition `s`.
pub open spec fn removal_of(s: PartitionInfo, new: Seq<PartitionInfo>) -> bool {
    s.is_source && match counterpart(new, s.number) {
        Some(j) => new[j].remove,
        None => false,
    }
}

/// The change that the proposed layout `new` makes to the source partition `s`, if any.
pub open spec fn change_of(s: PartitionInfo, new: Seq<PartitionInfo>) -> Option<PartitionChange> {
    if !s.is_source {
        None
    } else {
        match counterpart(new, s.number) {
            Some(j) => if !new[j].remove && changes_required(s, new[j]) {
                Some(
                    PartitionChange {
                        num: s.number,
                        start: new[j].start_sector,
                        end: new[j].end_sector,
                        format: if new[j].format {
                            new[j].filesystem
                        } else {
                            None
                        },
                    },
                )
            } else {
                None
            },
            None => None,
        }
    }
}

/// The numbers of the source partitions of `orig` that `new` removes, in order.
pub open spec fn planned_removals(orig: Seq<PartitionInfo>, new: Seq<PartitionInfo>) -> Seq<i32>
    decreases orig.len(),
{
    if orig.len() == 0 {
        seq![]
    } else {
        let prev = planned_removals(orig.drop_last(), new);
        if removal_of(orig.last(), new) {
            prev.push(orig.last().number)
        } else {
            prev
        }
    }
}

/// The changes that `new` makes to the source partitions of `orig`, in order.
pub open spec fn planned_changes(orig: Seq<PartitionInfo>, new: Seq<PartitionInfo>) -> Seq<PartitionChange>
    decreases orig.len(),
{
    if orig.len() == 0 {
        seq![]
    } else {
        let prev = planned_changes(orig.drop_last(), new);
        match change_of(orig.last(), new) {
            Some(c) => prev.push(c),
            None => prev,
        }
    }
}

/// The creation of the new partition `p`.
pub open spec fn creation_of(p: PartitionInfo) -> PartitionCreate {
    PartitionCreate {
        start_sector: p.start_sector,
        end_sector: p.end_sector,
        file_system: p.filesystem.unwrap(),
    }
}

/// The creations of the partitions of `new` that are not source partitions, in order.
pub open spec fn planned_creations(new: Seq<PartitionInfo>) -> Seq<PartitionCreate>
    decreases new.len(),
{
    if new.len() == 0 {
        seq![]
    } else {
        let prev = planned_creations(new.drop_last());
        if !new.last().is_source {
            prev.push(creation_of(new.last()))
        } else {
            prev
        }
    }
}

/// The index of the first source partition numbered `num` in `parts`.
fn find_source(parts: &Vec<PartitionInfo>, num: i32) -> (r: Option<usize>)
    ensures
        counterpart(parts@, num) == match r {
            Some(j) => Some(j as int),
            None => None::<int>,
        },
        match r {
            Some(j) => j < parts@.len() && parts@[j as int].is_source && parts@[j as int].number
                == num,
            None => !has_source(parts@, num),
        },
{
    let ghost p = source_pred(parts@, num);
    let mut j: usize = 0;
    while j < parts.len()
        invariant
            j <= parts@.len(),
            p == source_pred(parts@, num),
            forall|k: int| 0 <= k < j ==> !#[trigger] p(k),
        decreases parts.len() - j,
    {
        if parts[j].is_source && parts[j].number == num {
            proof {
                lemma_first_of(parts@.len() as int, p, j as int);
            }
            return Some(j);
        }
        j = j + 1;
    }
    proof {
        lemma_first_of_none(parts@.len() as int, p);
    }
    None
}

/// In a layout `new` whose records mirror those of `parts` one for one in source flag and
/// number, the counterpart of the source partition `parts[m]` is `new[m]`.
proof fn lemma_counterpart_in_place(parts: Seq<PartitionInfo>, new: Seq<PartitionInfo>, m: int)
    requires
        source_numbers_unique(parts),
        new.len() == parts.len(),
        forall|k: int|
            0 <= k < parts.len() ==> #[trigger] new[k].is_source == parts[k].is_source
                && new[k].number == parts[k].number,
        0 <= m < parts.len(),
        parts[m].is_source,
    ensures
        counterpart(new, parts[m].number) == Some(m),
{
    let p = source_pred(new, parts[m].number);
    assert forall|j: int| 0 <= j < m implies !#[trigger] p(j) by {
        if new[j].is_source && new[j].number == parts[m].number {
            assert(parts[j].is_source && parts[j].number == parts[m].number);
        }
    }
    lemma_first_of(new.len() as int, p, m);
}

/// Diffing a probed disk against an identical copy of itself plans nothing: no removal,
/// no change and no creation.
pub proof fn lemma_diff_identity(d: Disk)
    requires
        d.wf(),
        d.is_probed(),
    ensures
        layout_kept(d.partitions@, d.partitions@),
        planned_removals(d.partitions@, d.partitions@) == Seq::<i32>::empty(),
        planned_changes(d.partitions@, d.partitions@) == Seq::<PartitionChange>::empty(),
        planned_creations(d.partitions@) == Seq::<PartitionCreate>::empty(),
{
    let parts = d.partitions@;
    assert forall|i: int| 0 <= i < parts.len() && #[trigger] parts[i].is_source implies has_source(
        parts,
        parts[i].number,
    ) by {
        assert(source_pred(parts, parts[i].number)(i));
    }
    lemma_identity_prefix(d, parts.len() as int);
    assert(parts.subrange(0, parts.len() as int) =~= parts);
    lemma_no_creations(parts, parts.len() as int);
}

proof fn lemma_identity_prefix(d: Disk, k: int)
    requires
        d.wf(),
        d.is_probed(),
        0 <= k <= d.partitions@.len(),
    ensures
        planned_removals(d.partitions@.subrange(0, k), d.partitions@) == Seq::<i32>::empty(),
        planned_changes(d.partitions@.subrange(0, k), d.partitions@) == Seq::<
            PartitionChange,
        >::empty(),
    decreases k,
{
    let parts = d.partitions@;
    if k > 0 {
        lemma_identity_prefix(d, k - 1);
        assert(parts.subrange(0, k).drop_last() =~= parts.subrange(0, k - 1));
        let s = parts[k - 1];
        assert(s.is_source && !s.remove && !s.format);
        lemma_counterpart_in_place(parts, parts, k - 1);
        assert(s.flags@ == s.flags@);
        assert(!changes_required(s, s));
    }
}

proof fn lemma_no_creations(parts: Seq<PartitionInfo>, k: int)
    requires
        0 <= k <= parts.len(),
        forall|i: int| 0 <= i < parts.len() ==> #[trigger] parts[i].is_source,
    ensures
        planned_creations(parts.subrange(0, k)) == Seq::<PartitionCreate>::empty(),
    decreases k,
{
    if k > 0 {
        lemma_no_creations(parts, k - 1);
        assert(parts.subrange(0, k).drop_last() =~= parts.subrange(0, k - 1));
        assert(parts[k - 1].is_source);
    }
    if k == parts.len() {
        assert(parts.subrange(0, k) =~= parts);
    }
}

/// A source partition of `orig` that is absent from the list of `new`, rather than
/// marked for removal there, is a change of layout: the diff fails with `LayoutChanged`.
pub proof fn lemma_missing_source_changes_layout(orig: Seq<PartitionInfo>, new: Seq<PartitionInfo>, i: int)
    requires
        0 <= i < orig.len(),
        orig[i].is_source,
        forall|j: int|
            0 <= j < new.len() ==> !(#[trigger] new[j].is_source && new[j].number == orig[i].number),
    ensures
        !layout_kept(orig, new),
{
    assert(!has_source(new, orig[i].number));
}

/// Marking one source partition of a probed disk for removal, as `remove_partition`
/// does, and diffing gives exactly one removal, for that partition's number, and no
/// change.
pub proof fn lemma_remove_then_diff(d: Disk, i: int)
    requires
        d.wf(),
        d.is_probed(),
        0 <= i < d.partitions@.len(),
    ensures
        ({
            let parts = d.partitions@;
            let new = parts.update(i, PartitionInfo { remove: true, ..parts[i] });
            &&& layout_kept(parts, new)
            &&& planned_removals(parts, new) == seq![parts[i].number]
            &&& planned_changes(parts, new) == Seq::<PartitionChange>::empty()
        }),
{
    let parts = d.partitions@;
    let new = parts.update(i, PartitionInfo { remove: true, ..parts[i] });
    assert forall|k: int| 0 <= k < parts.len() && #[trigger] parts[k].is_source implies has_source(
        new,
        parts[k].number,
    ) by {
        assert(source_pred(new, parts[k].number)(k));
    }
    lemma_remove_prefix(d, i, parts.len() as int);
    assert(parts.subrange(0, parts.len() as int) =~= parts);
}

proof fn lemma_remove_prefix(d: Disk, i: int, k: int)
    requires
        d.wf(),
        d.is_probed(),
        0 <= i < d.partitions@.len(),
        0 <= k <= d.partitions@.len(),
    ensures
        ({
            let parts = d.partitions@;
            let new = parts.update(i, PartitionInfo { remove: true, ..parts[i] });
            &&& planned_removals(parts.subrange(0, k), new) == if k > i {
                seq![parts[i].number]
            } else {
                Seq::<i32>::empty()
            }
            &&& planned_changes(parts.subrange(0, k), new) == Seq::<PartitionChange>::empty()
        }),
    decreases k,
{
    let parts = d.partitions@;
    let new = parts.update(i, PartitionInfo { remove: true, ..parts[i] });
    if k > 0 {
        lemma_remove_prefix(d, i, k - 1);
        assert(parts.subrange(0, k).drop_last() =~= parts.subrange(0, k - 1));
        let s = parts[k - 1];
        assert(s.is_source && !s.remove && !s.format);
        assert forall|m: int| 0 <= m < parts.len() implies #[trigger] new[m].is_source
            == parts[m].is_source && new[m].number == parts[m].number by {}
        lemma_counterpart_in_place(parts, new, k - 1);
        if k - 1 != i {
            assert(new[k - 1] == s);
            assert(s.flags@ == s.flags@);
            assert(!changes_required(s, s));
        }
        if k - 1 == i {
            assert(Seq::<i32>::empty().push(parts[i].number) =~= seq![parts[i].number]);
        }
    }
}

impl Disk {
    /// Checks that every source partition of this disk is still in `new`, possibly marked
    /// for removal; fails with `LayoutChanged` otherwise.
    pub fn validate_layout(&self, new: &Disk) -> (r: Result<(), DiskError>)
        ensures
            layout_kept(self.partitions@, new.partitions@) ==> r is Ok,
            !layout_kept(self.partitions@, new.partitions@) ==> r == Err::<(), DiskError>(
                DiskError::LayoutChanged,
            ),
    {
        let mut i: usize = 0;
        while i < self.partitions.len()
            invariant
                i <= self.partitions@.len(),
                forall|k: int|
                    0 <= k < i && #[trigger] self.partitions@[k].is_source ==> has_source(
                        new.partitions@,
                        self.partitions@[k].number,
                    ),
            decreases self.partitions.len() - i,
        {
            let source = &self.partitions[i];
            if source.is_source {
                match find_source(&new.partitions, source.number) {
                    None => {
                        return Err(DiskError::LayoutChanged);
                    },
                    Some(_) => {},
                }
            }
            i = i + 1;
        }
        Ok(())
    }

    /// Computes the operations that turn this disk's layout into the proposed layout `new`.
    ///
    /// Each source partition of this disk is matched with the source partition of `new`
    /// that has its number. One marked for removal gives a removal; one whose sectors, file
    /// system or table flags differ, or that is to be formatted, gives a change. Each
    /// partition of `new` that is not a source partition gives a creation. Fails with
    /// `LayoutChanged` if a source partition of this disk is missing from `new`.
    pub fn diff(&self, new: &Disk) -> (r: Result<DiskOps, DiskError>)
        requires
            new.wf(),
        ensures
            !layout_kept(self.partitions@, new.partitions@) ==> r == Err::<DiskOps, DiskError>(
                DiskError::LayoutChanged,
            ),
            layout_kept(self.partitions@, new.partitions@) ==> r is Ok && r.unwrap().remove_partitions@
                == planned_removals(self.partitions@, new.partitions@)
                && r.unwrap().change_partitions@ == planned_changes(
                self.partitions@,
                new.partitions@,
            ) && r.unwrap().create_partitions@ == planned_creations(new.partitions@),
    {
        match self.validate_layout(new) {
            Err(e) => {
                return Err(e);
            },
            Ok(()) => {},
        }
        let ghost orig = self.partitions@;
        let ghost newp = new.partitions@;
        let mut remove_partitions: Vec<i32> = Vec::new();
        let mut change_partitions: Vec<PartitionChange> = Vec::new();
        let mut create_partitions: Vec<PartitionCreate> = Vec::new();
        let mut i: usize = 0;
        while i < self.partitions.len()
            invariant
                i <= orig.len(),
                orig == self.partitions@,
                newp == new.partitions@,
                layout_kept(orig, newp),
                remove_partitions@ == planned_removals(orig.subrange(0, i as int), newp),
                change_partitions@ == planned_changes(orig.subrange(0, i as int), newp),
            decreases self.partitions.len() - i,
        {
            let source = &self.partitions[i];
            proof {
                assert(orig.subrange(0, i + 1).drop_last() =~= orig.subrange(0, i as int));
                assert(orig.subrange(0, i + 1).last() == orig[i as int]);
            }
            if source.is_source {
                let found = find_source(&new.partitions, source.number);
                assert(has_source(newp, orig[i as int].number));
                let j = found.unwrap();
                let part = &new.partitions[j];
                if part.remove {
                    remove_partitions.push(source.number);
                } else if source.requires_changes(part) {
                    change_partitions.push(
                        PartitionChange {
                            num: source.number,
                            start: part.start_sector,
                            end: part.end_sector,
                            format: if part.format {
                                part.filesystem
                            } else {
                                None
                            },
                        },
                    );
                }
            }
            i = i + 1;
        }
        proof {
            assert(orig.subrange(0, orig.len() as int) =~= orig);
        }
        let mut j: usize = 0;
        while j < new.partitions.len()
            invariant
                j <= newp.len(),
                newp == new.partitions@,
                new.wf(),
                create_partitions@ == planned_creations(newp.subrange(0, j as int)),
            decreases new.partitions.len() - j,
        {
            let part = &new.partitions[j];
            proof {
                assert(newp.subrange(0, j + 1).drop_last() =~= newp.subrange(0, j as int));
                assert(newp.subrange(0, j + 1).last() == newp[j as int]);
                assert(record_wf(newp[j as int]));
            }
            if !part.is_source {
                create_partitions.push(
                    PartitionCreate {
                        start_sector: part.start_sector,
                        end_sector: part.end_sector,
                        file_system: part.filesystem.unwrap(),
                    },
                );
            }
            j = j + 1;
        }
        proof {
            assert(newp.subrange(0, newp.len() as int) =~= newp);
        }
        Ok(DiskOps { remove_partitions, change_partitions, create_partitions })
    }
}

} // verus!
