//! The current records as a list without two records of one path, and the
//! map by path that the list stands for.

use vstd::prelude::*;

use crate::assoc::{
    lemma_contained, lemma_paired_push, lemma_paired_remove, lemma_paired_update, lemma_place,
    no_repeats, paired, place_of,
};
use crate::types::{record_views, Record, RecordView};

verus! {

/// The paths of a list of records.
pub open spec fn record_paths(records: Seq<Record>) -> Seq<Seq<char>> {
    records.map_values(|r: Record| r@.path())
}

/// The paths of a list of records, given by what they hold.
pub open spec fn entry_paths(entries: Seq<RecordView>) -> Seq<Seq<char>> {
    entries.map_values(|r: RecordView| r.path())
}

/// Whether no two records of the list have one path.
pub open spec fn distinct_paths(records: Seq<Record>) -> bool {
    no_repeats(record_paths(records))
}

/// The records of a list by their paths.
pub open spec fn indexed(records: Seq<Record>) -> Map<Seq<char>, RecordView> {
    paired(record_paths(records), record_views(records))
}

/// The paths of a list are the paths of what its records hold.
pub proof fn lemma_paths_of_views(records: Seq<Record>)
    ensures
        entry_paths(record_views(records)) == record_paths(records),
{
    assert(entry_paths(record_views(records)) =~= record_paths(records));
}

/// A record of the list is found under its path, at its place.
pub proof fn lemma_index_found(records: Seq<Record>, i: int)
    requires
        distinct_paths(records),
        0 <= i < records.len(),
    ensures
        indexed(records).contains_key(records[i]@.path()),
        indexed(records)[records[i]@.path()] == records[i]@,
        place_of(entry_paths(record_views(records)), records[i]@.path()) == i,
{
    lemma_paths_of_views(records);
    lemma_place(record_paths(records), record_views(records), i);
}

/// A path that no record of the list has is not in the index.
pub proof fn lemma_index_absent(records: Seq<Record>, path: Seq<char>)
    requires
        forall|j: int| 0 <= j < records.len() ==> (#[trigger] records[j])@.path() != path,
    ensures
        !indexed(records).contains_key(path),
{
    let paths = record_paths(records);
    if paths.contains(path) {
        let j = choose|j: int| 0 <= j < paths.len() && paths[j] == path;
        assert(records[j]@.path() == path);
    }
}

/// A record with a new path, put behind the list, is one more entry of the
/// index.
pub proof fn lemma_index_push(records: Seq<Record>, record: Record)
    requires
        distinct_paths(records),
        !indexed(records).contains_key(record@.path()),
    ensures
        distinct_paths(records.push(record)),
        indexed(records.push(record)) == indexed(records).insert(record@.path(), record@),
        record_views(records.push(record)) == record_views(records).push(record@),
{
    let paths = record_paths(records);
    let views = record_views(records);
    lemma_paired_push(paths, views, record@.path(), record@);
    assert(record_paths(records.push(record)) =~= paths.push(record@.path()));
    assert(record_views(records.push(record)) =~= views.push(record@));
}

/// A record put at the place of a record with its path replaces that
/// record in the index.
pub proof fn lemma_index_update(records: Seq<Record>, i: int, record: Record)
    requires
        distinct_paths(records),
        0 <= i < records.len(),
        records[i]@.path() == record@.path(),
    ensures
        distinct_paths(records.update(i, record)),
        indexed(records.update(i, record)) == indexed(records).insert(record@.path(), record@),
        record_views(records.update(i, record)) == record_views(records).update(i, record@),
        place_of(entry_paths(record_views(records)), record@.path()) == i,
{
    let paths = record_paths(records);
    let views = record_views(records);
    lemma_index_found(records, i);
    lemma_paired_update(paths, views, i, record@);
    assert(record_paths(records.update(i, record)) =~= paths);
    assert(record_views(records.update(i, record)) =~= views.update(i, record@));
}

/// A record taken out of the list is taken out of the index.
pub proof fn lemma_index_remove(records: Seq<Record>, i: int)
    requires
        distinct_paths(records),
        0 <= i < records.len(),
    ensures
        distinct_paths(records.remove(i)),
        indexed(records.remove(i)) == indexed(records).remove(records[i]@.path()),
        record_views(records.remove(i)) == record_views(records).remove(i),
        place_of(entry_paths(record_views(records)), records[i]@.path()) == i,
{
    let paths = record_paths(records);
    let views = record_views(records);
    lemma_index_found(records, i);
    lemma_paired_remove(paths, views, i);
    assert(record_paths(records.remove(i)) =~= paths.remove(i));
    assert(record_views(records.remove(i)) =~= views.remove(i));
}

/// What is left of a list without repeated paths when the entry of a path
/// is taken out: no entry of that path, and entries of the list only.
pub proof fn lemma_entries_without(entries: Seq<RecordView>, path: Seq<char>)
    requires
        no_repeats(entry_paths(entries)),
        entry_paths(entries).contains(path),
    ensures
        ({
            let left = entries.remove(place_of(entry_paths(entries), path));
            &&& left.len() == entries.len() - 1
            &&& !entry_paths(left).contains(path)
            &&& forall|k: int| 0 <= k < left.len() ==> entries.contains(#[trigger] left[k])
        }),
{
    let paths = entry_paths(entries);
    lemma_contained(paths, entries, path);
    let i = place_of(paths, path);
    let left = entries.remove(i);
    lemma_paired_remove(paths, entries, i);
    assert(entry_paths(left) =~= paths.remove(i));
    if paths.remove(i).contains(path) {
        let j = choose|j: int| 0 <= j < paths.remove(i).len() && paths.remove(i)[j] == path;
        let j0 = if j < i { j } else { j + 1 };
        assert(paths[j0] == path);
    }
    assert forall|k: int| 0 <= k < left.len() implies entries.contains(#[trigger] left[k]) by {
        let k0 = if k < i { k } else { k + 1 };
        assert(entries[k0] == left[k]);
    }
}

/// What a list without repeated paths is after a new entry took the place
/// of the entry of its path: as long as before, with the same paths in the
/// same order, and no other entry changed.
pub proof fn lemma_entries_replaced(entries: Seq<RecordView>, record: RecordView)
    requires
        no_repeats(entry_paths(entries)),
        entry_paths(entries).contains(record.path()),
    ensures
        ({
            let now = entries.update(place_of(entry_paths(entries), record.path()), record);
            &&& now.len() == entries.len()
            &&& forall|k: int| 0 <= k < now.len() ==> (#[trigger] now[k]).path() == entries[k].path()
            &&& forall|k: int|
                0 <= k < now.len() && entries[k].path() != record.path() ==> #[trigger] now[k]
                    == entries[k]
        }),
{
    let paths = entry_paths(entries);
    lemma_contained(paths, entries, record.path());
    let i = place_of(paths, record.path());
    let now = entries.update(i, record);
    assert(entries[i].path() == paths[i]);
    assert forall|k: int| 0 <= k < now.len() implies (#[trigger] now[k]).path() == entries[k].path() by {
        assert(paths[k] == entries[k].path());
    }
    assert forall|k: int|
        0 <= k < now.len() && entries[k].path() != record.path() implies #[trigger] now[k]
        == entries[k] by {
        assert(paths[k] == entries[k].path());
    }
}

} // verus!
