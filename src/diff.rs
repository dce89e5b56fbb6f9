use vstd::prelude::*;

use crate::record::{DnsRecord, RecordContent, RecordView};
use crate::state::StateMap;

verus! {

/// The contents of a list of records, as a set.
pub open spec fn contents_of(d: Seq<DnsRecord>) -> Set<RecordContent> {
    Set::new(|c: RecordContent| exists|i: int| 0 <= i < d.len() && d[i].content() == c)
}

/// The views of a list of records, in order.
pub open spec fn views_of(d: Seq<DnsRecord>) -> Seq<RecordView> {
    d.map_values(|r: DnsRecord| r@)
}

/// The ids of a list of strings, as a set.
pub open spec fn id_set(r: Seq<String>) -> Set<Seq<char>> {
    Set::new(|k: Seq<char>| exists|i: int| 0 <= i < r.len() && r[i]@ == k)
}

/// The views of a list of strings, in order.
pub open spec fn ids_of(r: Seq<String>) -> Seq<Seq<char>> {
    r.map_values(|s: String| s@)
}

/// Holds of a desired record whose content no tracked record has.
pub open spec fn untracked(prev: Map<Seq<char>, RecordContent>) -> spec_fn(RecordView) -> bool {
    |v: RecordView| !prev.values().contains(v.content)
}

/// The desired records to create: in their order, those whose content is not
/// among the tracked records.
pub open spec fn creations(prev: Map<Seq<char>, RecordContent>, desired: Seq<RecordView>) -> Seq<
    RecordView,
> {
    desired.filter(untracked(prev))
}

/// The tracked ids to delete: those whose record's content is not desired.
pub open spec fn deletions(prev: Map<Seq<char>, RecordContent>, desired: Set<RecordContent>) -> Set<
    Seq<char>,
> {
    Set::new(|k: Seq<char>| prev.contains_key(k) && !desired.contains(prev[k]))
}

/// Whether some record of the list has this record's content.
pub fn contains_content(records: &Vec<DnsRecord>, record: &DnsRecord) -> (r: bool)
    ensures
        r == contents_of(records@).contains(record.content()),
{
    let mut i: usize = 0;
    while i < records.len()
        invariant
            i <= records@.len(),
            forall|j: int| 0 <= j < i ==> records@[j].content() != record.content(),
        decreases records@.len() - i,
    {
        if records[i].same_content(record) {
            assert(records@[i as int].content() == record.content());
            return true;
        }
        i = i + 1;
    }
    false
}

/// The desired records that no tracked record matches by content, in the
/// order they are desired.
pub fn records_to_create(prev: &StateMap, desired: &Vec<DnsRecord>) -> (r: Vec<DnsRecord>)
    ensures
        views_of(r@) == creations(prev@, views_of(desired@)),
{
    let mut r: Vec<DnsRecord> = Vec::new();
    let mut i: usize = 0;
    while i < desired.len()
        invariant
            i <= desired@.len(),
            views_of(r@) == creations(prev@, views_of(desired@.subrange(0, i as int))),
        decreases desired@.len() - i,
    {
        let ghost before = views_of(desired@.subrange(0, i as int));
        let ghost x = desired@[i as int]@;
        proof {
            assert(views_of(desired@.subrange(0, i as int + 1)) =~= before.push(x));
            before.lemma_filter_push(x, untracked(prev@));
        }
        if !prev.has_content(&desired[i]) {
            let rec = desired[i].clone();
            r.push(rec);
            assert(views_of(r@) =~= creations(prev@, before).push(x));
        }
        i = i + 1;
    }
    assert(desired@.subrange(0, desired@.len() as int) =~= desired@);
    r
}

/// The tracked ids whose record no desired record matches by content, each
/// once.
pub fn records_to_delete(prev: &StateMap, desired: &Vec<DnsRecord>) -> (r: Vec<String>)
    ensures
        ids_of(r@).no_duplicates(),
        ids_of(r@).to_set() == deletions(prev@, contents_of(desired@)),
{
    let entries = prev.entries();
    let ghost want = contents_of(desired@);
    let mut r: Vec<String> = Vec::new();
    let mut i: usize = 0;
    while i < entries.len()
        invariant
            i <= entries@.len(),
            want == contents_of(desired@),
            forall|a: int, b: int|
                0 <= a < entries@.len() && 0 <= b < entries@.len() && a != b
                    ==> #[trigger] entries@[a].id@ != #[trigger] entries@[b].id@,
            forall|a: int|
                0 <= a < entries@.len() ==> {
                    &&& prev@.contains_key(#[trigger] entries@[a].id@)
                    &&& prev@[entries@[a].id@] == entries@[a].record.content()
                },
            forall|a: int, b: int|
                0 <= a < r@.len() && 0 <= b < r@.len() && a != b ==> #[trigger] r@[a]@
                    != #[trigger] r@[b]@,
            forall|a: int|
                0 <= a < r@.len() ==> exists|j: int|
                    0 <= j < i && entries@[j].id@ == #[trigger] r@[a]@,
            forall|k: Seq<char>|
                id_set(r@).contains(k) <==> exists|j: int|
                    0 <= j < i && #[trigger] entries@[j].id@ == k && !want.contains(
                        entries@[j].record.content(),
                    ),
        decreases entries@.len() - i,
    {
        if !contains_content(desired, &entries[i].record) {
            let ghost before = r@;
            let id = entries[i].id.clone();
            r.push(id);
            assert forall|a: int, b: int|
                0 <= a < r@.len() && 0 <= b < r@.len() && a != b implies #[trigger] r@[a]@
                != #[trigger] r@[b]@ by {
                if a < before.len() && b < before.len() {
                    assert(before[a] == r@[a] && before[b] == r@[b]);
                } else if a < before.len() {
                    let j = choose|j: int| 0 <= j < i && entries@[j].id@ == #[trigger] before[a]@;
                    assert(entries@[j].id@ != entries@[i as int].id@);
                } else {
                    let j = choose|j: int| 0 <= j < i && entries@[j].id@ == #[trigger] before[b]@;
                    assert(entries@[j].id@ != entries@[i as int].id@);
                }
            }
            assert forall|a: int| 0 <= a < r@.len() implies exists|j: int|
                0 <= j < i + 1 && entries@[j].id@ == #[trigger] r@[a]@ by {
                if a < before.len() {
                    assert(before[a] == r@[a]);
                    let j = choose|j: int| 0 <= j < i && entries@[j].id@ == #[trigger] before[a]@;
                } else {
                    assert(entries@[i as int].id@ == r@[a]@);
                }
            }
            assert forall|k: Seq<char>|
                id_set(r@).contains(k) <==> exists|j: int|
                    0 <= j < i + 1 && #[trigger] entries@[j].id@ == k && !want.contains(
                        entries@[j].record.content(),
                    ) by {
                if id_set(r@).contains(k) {
                    let a = choose|a: int| 0 <= a < r@.len() && r@[a]@ == k;
                    if a < before.len() {
                        assert(before[a] == r@[a]);
                        assert(id_set(before).contains(k));
                    } else {
                        assert(entries@[i as int].id@ == k);
                    }
                }
                if exists|j: int|
                    0 <= j < i + 1 && #[trigger] entries@[j].id@ == k && !want.contains(
                        entries@[j].record.content(),
                    ) {
                    let j = choose|j: int|
                        0 <= j < i + 1 && #[trigger] entries@[j].id@ == k && !want.contains(
                            entries@[j].record.content(),
                        );
                    if j < i {
                        assert(id_set(before).contains(k));
                        let a = choose|a: int| 0 <= a < before.len() && before[a]@ == k;
                        assert(r@[a] == before[a]);
                    } else {
                        assert(r@[before.len() as int]@ == k);
                    }
                }
            }
        } else {
            assert forall|k: Seq<char>|
                id_set(r@).contains(k) <==> exists|j: int|
                    0 <= j < i + 1 && #[trigger] entries@[j].id@ == k && !want.contains(
                        entries@[j].record.content(),
                    ) by {
                if exists|j: int|
                    0 <= j < i + 1 && #[trigger] entries@[j].id@ == k && !want.contains(
                        entries@[j].record.content(),
                    ) {
                    let j = choose|j: int|
                        0 <= j < i + 1 && #[trigger] entries@[j].id@ == k && !want.contains(
                            entries@[j].record.content(),
                        );
                    assert(j < i);
                }
            }
        }
        i = i + 1;
    }
    assert forall|k: Seq<char>|
        id_set(r@).contains(k) <==> deletions(prev@, want).contains(k) by {
        if prev@.contains_key(k) {
            let j = choose|j: int| 0 <= j < entries@.len() && #[trigger] entries@[j].id@ == k;
            assert(prev@[k] == entries@[j].record.content());
        }
    }
    assert(id_set(r@) =~= deletions(prev@, want));
    assert(ids_of(r@).to_set() =~= id_set(r@)) by {
        assert forall|k: Seq<char>| ids_of(r@).to_set().contains(k) implies id_set(r@).contains(k) by {
            let a = choose|a: int| 0 <= a < ids_of(r@).len() && ids_of(r@)[a] == k;
            assert(r@[a]@ == k);
        }
        assert forall|k: Seq<char>| id_set(r@).contains(k) implies ids_of(r@).to_set().contains(k) by {
            let a = choose|a: int| 0 <= a < r@.len() && r@[a]@ == k;
            assert(ids_of(r@)[a] == k);
        }
    }
    assert forall|a: int, b: int|
        0 <= a < ids_of(r@).len() && 0 <= b < ids_of(r@).len() && a != b implies ids_of(r@)[a]
        != ids_of(r@)[b] by {
        assert(r@[a]@ != r@[b]@);
    }
    r
}

/// Applying a diff in full makes the tracked contents exactly the desired
/// ones: when the result keeps every tracked entry that is not deleted, holds
/// each record to create under some id, and holds nothing else, its contents
/// are the desired records' contents.
pub proof fn lemma_full_apply_reaches_desired(
    prev: Map<Seq<char>, RecordContent>,
    desired: Seq<DnsRecord>,
    result: Map<Seq<char>, RecordContent>,
)
    requires
        forall|k: Seq<char>|
            prev.contains_key(k) && !deletions(prev, contents_of(desired)).contains(k)
                ==> #[trigger] result.contains_key(k) && result[k] == prev[k],
        forall|i: int|
            #![trigger creations(prev, views_of(desired))[i]]
            0 <= i < creations(prev, views_of(desired)).len() ==> exists|k: Seq<char>|
                #[trigger] result.contains_key(k) && result[k] == creations(
                    prev,
                    views_of(desired),
                )[i].content,
        forall|k: Seq<char>| #[trigger]
            result.contains_key(k) ==> (prev.contains_key(k) && !deletions(
                prev,
                contents_of(desired),
            ).contains(k) && result[k] == prev[k]) || exists|i: int|
                0 <= i < creations(prev, views_of(desired)).len() && result[k] == creations(
                    prev,
                    views_of(desired),
                )[i].content,
    ensures
        result.values() == contents_of(desired),
{
    let v = views_of(desired);
    let c = creations(prev, v);
    let want = contents_of(desired);
    assert forall|x: RecordContent| result.values().contains(x) implies want.contains(x) by {
        let k = choose|k: Seq<char>| result.contains_key(k) && result[k] == x;
        if !(prev.contains_key(k) && !deletions(prev, want).contains(k) && result[k] == prev[k]) {
            let i = choose|i: int| 0 <= i < c.len() && result[k] == c[i].content;
            v.lemma_filter_contains_rev(untracked(prev), c[i]);
            let j = choose|j: int| 0 <= j < v.len() && v[j] == c[i];
            assert(desired[j].content() == x);
        }
    }
    assert forall|x: RecordContent| want.contains(x) implies result.values().contains(x) by {
        let j = choose|j: int| 0 <= j < desired.len() && desired[j].content() == x;
        if prev.values().contains(x) {
            let k = choose|k: Seq<char>| prev.contains_key(k) && prev[k] == x;
            assert(!deletions(prev, want).contains(k));
            assert(result.contains_key(k));
        } else {
            assert(untracked(prev)(v[j]));
            v.lemma_filter_contains(untracked(prev), j);
            let i = choose|i: int| 0 <= i < c.len() && c[i] == v[j];
            assert(c[i] == creations(prev, views_of(desired))[i]);
            let k = choose|k: Seq<char>| #[trigger] result.contains_key(k) && result[k] == c[i].content;
            assert(result[k] == x);
        }
    }
    assert(result.values() =~= want);
}

} // verus!
