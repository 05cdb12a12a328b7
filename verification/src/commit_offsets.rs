use vstd::prelude::*;

use crate::kafka_types::TopicPartition;

verus! {

/// An offset entry by value: the partition and the offset.
pub type OffsetEntry = ((Seq<char>, i32), i64);

/// The entries of an offset table, by value.
pub open spec fn entry_views(entries: Seq<(TopicPartition, i64)>) -> Seq<OffsetEntry> {
    entries.map_values(|e: (TopicPartition, i64)| (e.0@, e.1))
}

/// The partitions an offset table names, in table order.
pub open spec fn partitions_of(entries: Seq<OffsetEntry>) -> Seq<(Seq<char>, i32)> {
    entries.map_values(|e: OffsetEntry| e.0)
}

/// No partition occurs twice in the table: it is the content of a map.
pub open spec fn distinct_partitions(entries: Seq<OffsetEntry>) -> bool {
    partitions_of(entries).no_duplicates()
}

/// A position at which the table names the partition, where it names it.
pub open spec fn index_of_partition(entries: Seq<OffsetEntry>, partition: (Seq<char>, i32)) -> int {
    choose|j: int| 0 <= j < entries.len() && entries[j].0 == partition
}

/// The offset the table gives for a partition, if it names that partition.
pub open spec fn offset_of(entries: Seq<OffsetEntry>, partition: (Seq<char>, i32)) -> Option<i64> {
    if exists|j: int| 0 <= j < entries.len() && entries[j].0 == partition {
        Some(entries[index_of_partition(entries, partition)].1)
    } else {
        None
    }
}

/// The table as a map from partition to offset.
pub open spec fn offsets_map(entries: Seq<OffsetEntry>) -> Map<(Seq<char>, i32), i64> {
    Map::new(
        |p: (Seq<char>, i32)| partitions_of(entries).contains(p),
        |p: (Seq<char>, i32)| offset_of(entries, p)->0,
    )
}

/// The committed offsets hold the one that was committed for this entry.
pub open spec fn entry_committed(committed: Seq<OffsetEntry>, entry: OffsetEntry) -> bool {
    offset_of(committed, entry.0) == Some(entry.1)
}

/// Why the committed offsets differ from those that were committed.
#[derive(Debug, Clone, Copy, PartialEq, Eq, Structural)]
pub enum CommitMismatch {
    /// The broker reports offsets for another number of partitions.
    CountMismatch { expected: usize, reported: usize },
    /// The broker reports no offset for the partition of this entry.
    Missing { index: usize },
    /// The broker reports another offset for the partition of this entry.
    WrongOffset { index: usize, found: i64 },
}

/// What checking the committed offsets against the committed entries finds: first the
/// number of partitions, then each entry in order; the first failing entry is named.
pub open spec fn commit_verdict(offsets: Seq<OffsetEntry>, committed: Seq<OffsetEntry>, r: Result<
    (),
    CommitMismatch,
>) -> bool {
    match r {
        Ok(()) => offsets.len() == committed.len() && forall|i: int|
            0 <= i < offsets.len() ==> entry_committed(committed, #[trigger] offsets[i]),
        Err(CommitMismatch::CountMismatch { expected, reported: n }) => {
            &&& offsets.len() != committed.len()
            &&& expected == offsets.len()
            &&& n == committed.len()
        },
        Err(CommitMismatch::Missing { index }) => {
            &&& offsets.len() == committed.len()
            &&& index < offsets.len()
            &&& offset_of(committed, offsets[index as int].0) is None
            &&& forall|i: int| 0 <= i < index ==> entry_committed(committed, #[trigger] offsets[i])
        },
        Err(CommitMismatch::WrongOffset { index, found: c }) => {
            &&& offsets.len() == committed.len()
            &&& index < offsets.len()
            &&& offset_of(committed, offsets[index as int].0) == Some(c)
            &&& c != offsets[index as int].1
            &&& forall|i: int| 0 <= i < index ==> entry_committed(committed, #[trigger] offsets[i])
        },
    }
}

fn find_committed(committed: &Vec<(TopicPartition, i64)>, partition: &TopicPartition) -> (r: Option<
    i64,
>)
    requires
        distinct_partitions(entry_views(committed@)),
    ensures
        r == offset_of(entry_views(committed@), partition@),
{
    let ghost cv = entry_views(committed@);
    let mut j: usize = 0;
    while j < committed.len()
        invariant
            j <= committed.len(),
            cv == entry_views(committed@),
            distinct_partitions(cv),
            forall|k: int| 0 <= k < j ==> cv[k].0 != partition@,
        decreases committed.len() - j,
    {
        if committed[j].0 == *partition {
            proof {
                assert(0 <= j < cv.len() && cv[j as int].0 == partition@);
                let c = index_of_partition(cv, partition@);
                assert(0 <= c < cv.len() && cv[c].0 == partition@);
                assert(partitions_of(cv)[c] == partitions_of(cv)[j as int]);
                assert(c == j);
                assert(cv[j as int].1 == committed@[j as int].1);
            }
            return Some(committed[j].1);
        }
        j = j + 1;
    }
    None
}

/// Checks the offsets a consumer group reports as committed against those it committed.
/// Both tables are the entries of maps, so neither names a partition twice.
pub fn check_committed_offsets(
    offsets: &Vec<(TopicPartition, i64)>,
    committed: &Vec<(TopicPartition, i64)>,
) -> (r: Result<(), CommitMismatch>)
    requires
        distinct_partitions(entry_views(committed@)),
    ensures
        commit_verdict(entry_views(offsets@), entry_views(committed@), r),
{
    let ghost ov = entry_views(offsets@);
    let ghost cv = entry_views(committed@);
    if offsets.len() != committed.len() {
        return Err(CommitMismatch::CountMismatch { expected: offsets.len(), reported: committed.len() });
    }
    let mut i: usize = 0;
    while i < offsets.len()
        invariant
            i <= offsets.len(),
            offsets.len() == committed.len(),
            ov == entry_views(offsets@),
            cv == entry_views(committed@),
            distinct_partitions(cv),
            forall|k: int| 0 <= k < i ==> entry_committed(cv, #[trigger] ov[k]),
        decreases offsets.len() - i,
    {
        match find_committed(committed, &offsets[i].0) {
            None => {
                return Err(CommitMismatch::Missing { index: i });
            },
            Some(c) => {
                if c != offsets[i].1 {
                    return Err(CommitMismatch::WrongOffset { index: i, found: c });
                }
            },
        }
        i = i + 1;
    }
    Ok(())
}


proof fn lemma_offset_of_entry(entries: Seq<OffsetEntry>, j: int)
    requires
        distinct_partitions(entries),
        0 <= j < entries.len(),
    ensures
        offset_of(entries, entries[j].0) == Some(entries[j].1),
        partitions_of(entries).contains(entries[j].0),
{
    let p = entries[j].0;
    assert(partitions_of(entries)[j] == p);
    assert(0 <= j < entries.len() && entries[j].0 == p);
    let c = index_of_partition(entries, p);
    assert(0 <= c < entries.len() && entries[c].0 == p);
    assert(partitions_of(entries)[c] == partitions_of(entries)[j]);
    assert(c == j);
}

proof fn lemma_offset_of_named(entries: Seq<OffsetEntry>, p: (Seq<char>, i32))
    ensures
        (offset_of(entries, p) is Some) <==> partitions_of(entries).contains(p),
{
    if partitions_of(entries).contains(p) {
        let k = choose|k: int| 0 <= k < partitions_of(entries).len() && partitions_of(entries)[k] == p;
        assert(entries[k].0 == p);
    }
    if offset_of(entries, p) is Some {
        let k = choose|k: int| 0 <= k < entries.len() && entries[k].0 == p;
        assert(partitions_of(entries)[k] == p);
    }
}

/// For tables that are the entries of maps, the committed offsets pass the check exactly
/// when, as a map from partition to offset, they are the offsets that were committed.
pub proof fn lemma_commit_check_is_map_equality(offsets: Seq<OffsetEntry>, committed: Seq<OffsetEntry>)
    requires
        distinct_partitions(offsets),
        distinct_partitions(committed),
    ensures
        commit_verdict(offsets, committed, Ok(())) <==> offsets_map(offsets) == offsets_map(committed),
{
    broadcast use vstd::seq_lib::seq_to_set_is_finite;

    let po = partitions_of(offsets);
    let pc = partitions_of(committed);
    po.unique_seq_to_set();
    pc.unique_seq_to_set();
    if commit_verdict(offsets, committed, Ok(())) {
        assert forall|p: (Seq<char>, i32)| po.to_set().contains(p) implies pc.to_set().contains(p) by {
            let i = choose|i: int| 0 <= i < po.len() && po[i] == p;
            assert(entry_committed(committed, offsets[i]));
            lemma_offset_of_named(committed, p);
        }
        vstd::set_lib::lemma_subset_equality(po.to_set(), pc.to_set());
        assert forall|p: (Seq<char>, i32)| #[trigger] pc.contains(p) == po.contains(p) by {
            assert(po.to_set().contains(p) == pc.to_set().contains(p));
        }
        assert forall|p: (Seq<char>, i32)| po.contains(p) implies offset_of(offsets, p) == offset_of(
            committed,
            p,
        ) by {
            let i = choose|i: int| 0 <= i < po.len() && po[i] == p;
            assert(entry_committed(committed, offsets[i]));
            lemma_offset_of_entry(offsets, i);
        }
        assert(offsets_map(offsets) =~= offsets_map(committed));
    }
    if offsets_map(offsets) == offsets_map(committed) {
        assert(po.to_set() =~= offsets_map(offsets).dom());
        assert(pc.to_set() =~= offsets_map(committed).dom());
        assert forall|i: int| 0 <= i < offsets.len() implies entry_committed(
            committed,
            #[trigger] offsets[i],
        ) by {
            let p = offsets[i].0;
            lemma_offset_of_entry(offsets, i);
            assert(offsets_map(offsets).dom().contains(p));
            assert(offsets_map(committed).dom().contains(p));
            lemma_offset_of_named(committed, p);
            assert(offsets_map(offsets)[p] == offsets_map(committed)[p]);
        }
    }
}

} // verus!
