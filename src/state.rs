use vstd::prelude::*;

use crate::record::{DnsRecord, RecordContent};

verus! {

/// One tracked record and the id under which the provider holds it.
#[derive(Debug)]
pub struct StateEntry {
    pub id: String,
    pub record: DnsRecord,
}

/// The records this system created and still tracks, keyed by provider id:
/// the durable state that cleanup after a restart relies on.
pub struct StateMap {
    entries: Vec<StateEntry>,
    model: Ghost<Map<Seq<char>, RecordContent>>,
}

/// The map that inserting each entry in turn builds, a later entry with an
/// id that came before replacing the earlier one.
pub open spec fn map_of_entries(s: Seq<StateEntry>) -> Map<Seq<char>, RecordContent>
    decreases s.len(),
{
    if s.len() == 0 {
        Map::empty()
    } else {
        map_of_entries(s.drop_last()).insert(s.last().id@, s.last().record.content())
    }
}

/// The entries hold each id once, and their pairs are exactly those of the
/// map.
pub closed spec fn entries_match(e: Seq<StateEntry>, m: Map<Seq<char>, RecordContent>) -> bool {
    &&& forall|i: int, j: int|
        0 <= i < e.len() && 0 <= j < e.len() && i != j ==> #[trigger] e[i].id@ != #[trigger] e[j].id@
    &&& forall|i: int|
        0 <= i < e.len() ==> {
            &&& m.contains_key(#[trigger] e[i].id@)
            &&& m[e[i].id@] == e[i].record.content()
        }
    &&& forall|k: Seq<char>|
        #[trigger] m.contains_key(k) ==> exists|i: int| 0 <= i < e.len() && #[trigger] e[i].id@ == k
}

fn position_in(e: &Vec<StateEntry>, id: &String) -> (r: Option<usize>)
    ensures
        match r {
            Some(i) => i < e@.len() && e@[i as int].id@ == id@,
            None => forall|j: int| 0 <= j < e@.len() ==> e@[j].id@ != id@,
        },
{
    let mut i: usize = 0;
    while i < e.len()
        invariant
            i <= e@.len(),
            forall|j: int| 0 <= j < i ==> e@[j].id@ != id@,
        decreases e@.len() - i,
    {
        if e[i].id == *id {
            return Some(i);
        }
        i = i + 1;
    }
    None
}

impl View for StateMap {
    type V = Map<Seq<char>, RecordContent>;

    closed spec fn view(&self) -> Map<Seq<char>, RecordContent> {
        self.model@
    }
}

impl StateMap {
    /// Ids are unique, and the entries are exactly the pairs of the model.
    #[verifier::type_invariant]
    closed spec fn wf(self) -> bool {
        entries_match(self.entries@, self.model@)
    }

    /// An empty map.
    pub fn new() -> (r: StateMap)
        ensures
            r@ == Map::<Seq<char>, RecordContent>::empty(),
    {
        StateMap { entries: Vec::new(), model: Ghost(Map::empty()) }
    }

    /// The map built from entries in turn; where an id repeats, the later
    /// entry wins.
    pub fn from_entries(entries: Vec<StateEntry>) -> (r: StateMap)
        ensures
            r@ == map_of_entries(entries@),
    {
        let mut m = StateMap::new();
        let mut i: usize = 0;
        while i < entries.len()
            invariant
                i <= entries@.len(),
                m@ == map_of_entries(entries@.subrange(0, i as int)),
            decreases entries@.len() - i,
        {
            let e = &entries[i];
            proof {
                let pre = entries@.subrange(0, i as int + 1);
                assert(pre.drop_last() =~= entries@.subrange(0, i as int));
                assert(pre.last() == entries@[i as int]);
            }
            m.insert(e.id.clone(), e.record.clone());
            i = i + 1;
        }
        assert(entries@.subrange(0, entries@.len() as int) =~= entries@);
        m
    }

    /// The entries, each id once, with exactly the pairs of the map.
    pub fn entries(&self) -> (r: &Vec<StateEntry>)
        ensures
            forall|i: int, j: int|
                0 <= i < r@.len() && 0 <= j < r@.len() && i != j ==> #[trigger] r@[i].id@
                    != #[trigger] r@[j].id@,
            forall|i: int|
                0 <= i < r@.len() ==> {
                    &&& self@.contains_key(#[trigger] r@[i].id@)
                    &&& self@[r@[i].id@] == r@[i].record.content()
                },
            forall|k: Seq<char>|
                #[trigger] self@.contains_key(k) ==> exists|i: int|
                    0 <= i < r@.len() && #[trigger] r@[i].id@ == k,
    {
        proof {
            use_type_invariant(self);
        }
        &self.entries
    }

    fn position(&self, id: &String) -> (r: Option<usize>)
        ensures
            entries_match(self.entries@, self.model@),
            match r {
                Some(i) => i < self.entries@.len() && self.entries@[i as int].id@ == id@,
                None => !self@.contains_key(id@),
            },
    {
        proof {
            use_type_invariant(self);
        }
        match position_in(&self.entries, id) {
            Some(i) => Some(i),
            None => {
                proof {
                    if self.model@.contains_key(id@) {
                        let j = choose|j: int|
                            0 <= j < self.entries@.len() && #[trigger] self.entries@[j].id@ == id@;
                    }
                }
                None
            },
        }
    }

    /// Whether the map holds an entry under this id.
    pub fn contains_id(&self, id: &String) -> (r: bool)
        ensures
            r == self@.contains_key(id@),
    {
        self.position(id).is_some()
    }

    /// The record held under an id.
    pub fn get(&self, id: &String) -> (r: Option<&DnsRecord>)
        ensures
            r.is_some() == self@.contains_key(id@),
            r.is_some() ==> r.unwrap().content() == self@[id@],
    {
        match self.position(id) {
            Some(i) => Some(&self.entries[i].record),
            None => None,
        }
    }

    /// Puts the record under the id, replacing what was held there.
    pub fn insert(&mut self, id: String, record: DnsRecord)
        ensures
            final(self)@ == old(self)@.insert(id@, record.content()),
    {
        proof {
            use_type_invariant(&*self);
        }
        let mut parts = StateMap::new();
        std::mem::swap(self, &mut parts);
        let StateMap { mut entries, model } = parts;
        let ghost k = id@;
        let ghost c = record.content();
        let ghost m = model@.insert(k, c);
        let ghost before = entries@;
        match position_in(&entries, &id) {
            Some(i) => {
                entries.set(i, StateEntry { id, record });
                assert forall|key: Seq<char>| #[trigger] m.contains_key(key) implies exists|j: int|
                    0 <= j < entries@.len() && #[trigger] entries@[j].id@ == key by {
                    if key != k {
                        let j = choose|j: int| 0 <= j < before.len() && #[trigger] before[j].id@ == key;
                        assert(entries@[j].id@ == key);
                    } else {
                        assert(entries@[i as int].id@ == key);
                    }
                }
            },
            None => {
                entries.push(StateEntry { id, record });
                let n = entries.len() - 1;
                assert forall|key: Seq<char>| #[trigger] m.contains_key(key) implies exists|j: int|
                    0 <= j < entries@.len() && #[trigger] entries@[j].id@ == key by {
                    if key != k {
                        let j = choose|j: int| 0 <= j < before.len() && #[trigger] before[j].id@ == key;
                        assert(entries@[j].id@ == key);
                    } else {
                        assert(entries@[n as int].id@ == key);
                    }
                }
            },
        }
        *self = StateMap { entries, model: Ghost(m) };
    }

    /// Drops the entry under the id, if there is one.
    pub fn remove(&mut self, id: &String)
        ensures
            final(self)@ == old(self)@.remove(id@),
    {
        proof {
            use_type_invariant(&*self);
        }
        let mut parts = StateMap::new();
        std::mem::swap(self, &mut parts);
        let StateMap { mut entries, model } = parts;
        let ghost m = model@.remove(id@);
        let ghost before = entries@;
        match position_in(&entries, id) {
            Some(i) => {
                let _gone = entries.remove(i);
                assert forall|j: int| 0 <= j < entries@.len() implies #[trigger] entries@[j]
                    == before[if j < i { j } else { j + 1 }] by {}
                assert forall|key: Seq<char>| #[trigger] m.contains_key(key) implies exists|j: int|
                    0 <= j < entries@.len() && #[trigger] entries@[j].id@ == key by {
                    let j = choose|j: int| 0 <= j < before.len() && #[trigger] before[j].id@ == key;
                    assert(j != i);
                    if j < i {
                        assert(entries@[j].id@ == key);
                    } else {
                        assert(entries@[j - 1].id@ == key);
                    }
                }
            },
            None => {
                assert(m =~= model@);
            },
        }
        *self = StateMap { entries, model: Ghost(m) };
    }

    /// Whether some tracked record has this record's content (the id is not
    /// compared).
    pub fn has_content(&self, record: &DnsRecord) -> (r: bool)
        ensures
            r == self@.values().contains(record.content()),
    {
        proof {
            use_type_invariant(self);
        }
        let mut i: usize = 0;
        while i < self.entries.len()
            invariant
                entries_match(self.entries@, self.model@),
                i <= self.entries@.len(),
                forall|j: int| 0 <= j < i ==> self.entries@[j].record.content() != record.content(),
            decreases self.entries@.len() - i,
        {
            if self.entries[i].record.same_content(record) {
                assert(self@[self.entries@[i as int].id@] == record.content());
                return true;
            }
            i = i + 1;
        }
        assert forall|k: Seq<char>| #[trigger] self@.contains_key(k) implies self@[k]
            != record.content() by {
            let j = choose|j: int|
                0 <= j < self.entries@.len() && #[trigger] self.entries@[j].id@ == k;
        }
        false
    }

    /// Whether the two maps hold the same ids with the same contents.
    pub fn same_as(&self, other: &StateMap) -> (r: bool)
        ensures
            r == (self@ == other@),
    {
        proof {
            use_type_invariant(self);
            use_type_invariant(other);
        }
        let mut i: usize = 0;
        while i < self.entries.len()
            invariant
                entries_match(self.entries@, self.model@),
                entries_match(other.entries@, other.model@),
                i <= self.entries@.len(),
                forall|j: int|
                    0 <= j < i ==> #[trigger] other.model@.contains_key(self.entries@[j].id@),
                forall|j: int|
                    0 <= j < i ==> other.model@[#[trigger] self.entries@[j].id@] == self.entries@[j].record.content(),
            decreases self.entries@.len() - i,
        {
            match other.get(&self.entries[i].id) {
                Some(rec) => {
                    if !rec.same_content(&self.entries[i].record) {
                        return false;
                    }
                    assert(other@.contains_key(self.entries@[i as int].id@));
                },
                None => {
                    return false;
                },
            }
            i = i + 1;
        }
        let mut j: usize = 0;
        while j < other.entries.len()
            invariant
                entries_match(self.entries@, self.model@),
                entries_match(other.entries@, other.model@),
                j <= other.entries@.len(),
                forall|l: int|
                    0 <= l < self.entries@.len() ==> #[trigger] other.model@.contains_key(
                        self.entries@[l].id@,
                    ) && other.model@[self.entries@[l].id@] == self.entries@[l].record.content(),
                forall|l: int| 0 <= l < j ==> #[trigger] self@.contains_key(other.entries@[l].id@),
            decreases other.entries@.len() - j,
        {
            if !self.contains_id(&other.entries[j].id) {
                return false;
            }
            j = j + 1;
        }
        assert forall|k: Seq<char>| #[trigger] self@.contains_key(k) implies other@.contains_key(k)
            && other@[k] == self@[k] by {
            let l = choose|l: int|
                0 <= l < self.entries@.len() && #[trigger] self.entries@[l].id@ == k;
            assert(other@.contains_key(self.entries@[l].id@));
        }
        assert forall|k: Seq<char>| #[trigger] other@.contains_key(k) implies self@.contains_key(k) by {
            let l = choose|l: int|
                0 <= l < other.entries@.len() && #[trigger] other.entries@[l].id@ == k;
            assert(self@.contains_key(other.entries@[l].id@));
        }
        assert(self@ =~= other@);
        true
    }
}

impl Clone for StateMap {
    fn clone(&self) -> (r: StateMap)
        ensures
            r@ == self@,
                {
        let mut entries: Vec<StateEntry> = Vec::new();
        let mut i: usize = 0;
        while i < self.entries.len()
            invariant
                i <= self.entries@.len(),
                entries@.len() == i,
                forall|j: int|
                    0 <= j < i ==> (#[trigger] entries@[j]).id@ == self.entries@[j].id@
                        && entries@[j].record@ == self.entries@[j].record@,
            decreases self.entries@.len() - i,
        {
            let e = &self.entries[i];
            entries.push(StateEntry { id: e.id.clone(), record: e.record.clone() });
            i = i + 1;
        }
        proof {
            use_type_invariant(self);
            assert forall|k: Seq<char>| #[trigger] self.model@.contains_key(k) implies exists|j: int|
                0 <= j < entries@.len() && #[trigger] entries@[j].id@ == k by {
                let j = choose|j: int|
                    0 <= j < self.entries@.len() && #[trigger] self.entries@[j].id@ == k;
                assert(entries@[j].id@ == k);
            }
            assert forall|a: int, b: int|
                0 <= a < entries@.len() && 0 <= b < entries@.len() && a != b implies #[trigger] entries@[a].id@
                != #[trigger] entries@[b].id@ by {
                assert(self.entries@[a].id@ != self.entries@[b].id@);
            }
        }
        StateMap { entries, model: Ghost(self.model@) }
    }
}

} // verus!
