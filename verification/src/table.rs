//! The route table: a mapping from normalized URL path to content record,
//! with unique keys and last-write-wins replacement, plus the reserved
//! not-found record. Each record is installed whole; a reader never sees a
//! partially built entry.

use vstd::prelude::*;
use crate::bytes::bytes_eq;
use crate::keys::is_normalized_key;
use crate::record::{ContentRecord, RecordModel, record_wf};

verus! {

/// One table entry: a normalized key and the record it serves.
pub struct RouteSlot {
    pub key: Vec<u8>,
    pub record: ContentRecord,
}

/// The route table. `entries` carries the routed records; `not_found` is the
/// reserved body answered on a lookup miss, which carries no validators.
pub struct RouteTable {
    pub entries: Vec<RouteSlot>,
    pub not_found: Vec<u8>,
}

/// The mapping the entries denote, later slots overriding earlier ones.
pub open spec fn entries_map(s: Seq<RouteSlot>) -> Map<Seq<u8>, RecordModel>
    decreases s.len(),
{
    if s.len() == 0 {
        Map::empty()
    } else {
        entries_map(s.drop_last()).insert(s.last().key@, s.last().record@)
    }
}

impl View for RouteTable {
    type V = Map<Seq<u8>, RecordModel>;

    open spec fn view(&self) -> Map<Seq<u8>, RecordModel> {
        entries_map(self.entries@)
    }
}

/// Pairwise-distinct keys.
pub open spec fn unique_keys(s: Seq<RouteSlot>) -> bool {
    forall|i: int, j: int|
        0 <= i < s.len() && 0 <= j < s.len() && i != j ==> (#[trigger] s[i].key@)
            != (#[trigger] s[j].key@)
}

pub(crate) proof fn lemma_entries_map_contains(s: Seq<RouteSlot>)
    ensures
        forall|i: int| 0 <= i < s.len() ==> entries_map(s).contains_key(#[trigger] s[i].key@),
        forall|k: Seq<u8>| entries_map(s).contains_key(k) ==> exists|i: int|
            0 <= i < s.len() && #[trigger] s[i].key@ == k,
    decreases s.len(),
{
    if s.len() > 0 {
        lemma_entries_map_contains(s.drop_last());
        assert forall|i: int| 0 <= i < s.len() implies entries_map(s).contains_key(
            #[trigger] s[i].key@,
        ) by {
            if i < s.len() - 1 {
                assert(s.drop_last()[i] == s[i]);
            }
        }
        assert forall|k: Seq<u8>| entries_map(s).contains_key(k) implies exists|i: int|
            0 <= i < s.len() && #[trigger] s[i].key@ == k by {
            if k == s.last().key@ {
                assert(s[s.len() - 1].key@ == k);
            } else {
                assert(entries_map(s.drop_last()).contains_key(k));
                let i = choose|i: int|
                    0 <= i < s.drop_last().len() && #[trigger] s.drop_last()[i].key@ == k;
                assert(s[i].key@ == k);
            }
        }
    }
}

pub(crate) proof fn lemma_entries_map_index(s: Seq<RouteSlot>)
    requires
        unique_keys(s),
    ensures
        forall|i: int| 0 <= i < s.len() ==> entries_map(s).contains_key(#[trigger] s[i].key@)
            && entries_map(s)[s[i].key@] == s[i].record@,
    decreases s.len(),
{
    lemma_entries_map_contains(s);
    if s.len() > 0 {
        assert(unique_keys(s.drop_last())) by {
            assert(forall|i: int|
                0 <= i < s.len() - 1 ==> s.drop_last()[i] == #[trigger] s[i]);
        }
        lemma_entries_map_index(s.drop_last());
        assert forall|i: int| 0 <= i < s.len() implies entries_map(s).contains_key(
            #[trigger] s[i].key@,
        ) && entries_map(s)[s[i].key@] == s[i].record@ by {
            if i < s.len() - 1 {
                assert(s.drop_last()[i] == s[i]);
                assert(s[i].key@ != s.last().key@);
            }
        }
    }
}

proof fn lemma_entries_map_update(s: Seq<RouteSlot>, i: int, slot: RouteSlot)
    requires
        unique_keys(s),
        0 <= i < s.len(),
        slot.key@ == s[i].key@,
    ensures
        entries_map(s.update(i, slot)) =~= entries_map(s).insert(slot.key@, slot.record@),
    decreases s.len(),
{
    let t = s.update(i, slot);
    if i == s.len() - 1 {
        assert(t.drop_last() =~= s.drop_last());
        assert(t.last() == slot);
    } else {
        assert(unique_keys(s.drop_last())) by {
            assert(forall|j: int|
                0 <= j < s.len() - 1 ==> s.drop_last()[j] == #[trigger] s[j]);
        }
        assert(s.drop_last()[i] == s[i]);
        lemma_entries_map_update(s.drop_last(), i, slot);
        assert(t.drop_last() =~= s.drop_last().update(i, slot));
        assert(t.last() == s.last());
        assert(s.last().key@ != slot.key@);
        assert(entries_map(t) =~= entries_map(s).insert(slot.key@, slot.record@));
    }
}

impl RouteTable {
    /// Every key is present at most once and normalized, and every installed
    /// record is well-formed.
    pub open spec fn wf(&self) -> bool {
        &&& unique_keys(self.entries@)
        &&& forall|i: int| 0 <= i < self.entries@.len() ==> record_wf(
            #[trigger] self.entries@[i].record@,
        )
        &&& forall|i: int| 0 <= i < self.entries@.len() ==> is_normalized_key(
            #[trigger] self.entries@[i].key@,
        )
    }

    /// Every record reachable through the view is well-formed.
    pub proof fn lemma_wf_records(&self)
        requires
            self.wf(),
        ensures
            forall|k: Seq<u8>| self@.contains_key(k) ==> record_wf(#[trigger] self@[k]),
    {
        lemma_entries_map_index(self.entries@);
        assert forall|k: Seq<u8>| self@.contains_key(k) implies record_wf(#[trigger] self@[k]) by {
            lemma_entries_map_contains(self.entries@);
            let i = choose|i: int|
                0 <= i < self.entries@.len() && #[trigger] self.entries@[i].key@ == k;
            assert(self@[k] == self.entries@[i].record@);
        }
    }

    /// An empty table whose not-found body is the built-in default page.
    pub fn new() -> (t: RouteTable)
        ensures
            t.wf(),
            t@ == Map::<Seq<u8>, RecordModel>::empty(),
            t.not_found@ == spec_default_not_found(),
    {
        RouteTable { entries: Vec::new(), not_found: default_not_found_page() }
    }

    /// Installs `record` under `key`, replacing any record the key held: one
    /// atomic replacement per key, last write wins.
    pub fn insert(&mut self, key: Vec<u8>, record: ContentRecord)
        requires
            old(self).wf(),
            record_wf(record@),
            is_normalized_key(key@),
        ensures
            final(self).wf(),
            final(self)@ == old(self)@.insert(key@, record@),
            final(self).not_found@ == old(self).not_found@,
    {
        let mut i: usize = 0;
        while i < self.entries.len()
            invariant
                0 <= i <= self.entries@.len(),
                self == old(self),
                old(self).wf(),
                record_wf(record@),
                is_normalized_key(key@),
                forall|j: int| 0 <= j < i ==> #[trigger] self.entries@[j].key@ != key@,
            decreases self.entries@.len() - i,
        {
            if bytes_eq(&self.entries[i].key, &key) {
                let ghost before = self.entries@;
                let slot = RouteSlot { key, record };
                proof {
                    lemma_entries_map_update(before, i as int, slot);
                }
                self.entries[i] = slot;
                proof {
                    assert(self.entries@ == before.update(i as int, slot));
                    assert forall|a: int, b: int|
                        0 <= a < self.entries@.len() && 0 <= b < self.entries@.len() && a
                        != b implies (#[trigger] self.entries@[a].key@) != (
                    #[trigger] self.entries@[b].key@) by {
                        assert(self.entries@[a].key@ == before[a].key@);
                        assert(self.entries@[b].key@ == before[b].key@);
                    }
                    assert forall|j: int| 0 <= j < self.entries@.len() implies record_wf(
                        #[trigger] self.entries@[j].record@,
                    ) by {
                        if j != i {
                            assert(self.entries@[j] == before[j]);
                        }
                    }
                    assert forall|j: int| 0 <= j < self.entries@.len() implies is_normalized_key(
                        #[trigger] self.entries@[j].key@,
                    ) by {
                        if j != i {
                            assert(self.entries@[j] == before[j]);
                        }
                    }
                }
                return ;
            }
            i = i + 1;
        }
        let slot = RouteSlot { key, record };
        let ghost before = self.entries@;
        self.entries.push(slot);
        proof {
            assert(self.entries@.drop_last() =~= before);
            assert forall|a: int, b: int|
                0 <= a < self.entries@.len() && 0 <= b < self.entries@.len() && a != b implies (
            #[trigger] self.entries@[a].key@) != (#[trigger] self.entries@[b].key@) by {
                if a < self.entries@.len() - 1 && b < self.entries@.len() - 1 {
                    assert(before[a] == self.entries@[a] && before[b] == self.entries@[b]);
                }
            }
            assert forall|j: int| 0 <= j < self.entries@.len() implies record_wf(
                #[trigger] self.entries@[j].record@,
            ) by {
                if j < self.entries@.len() - 1 {
                    assert(self.entries@[j] == before[j]);
                }
            }
            assert forall|j: int| 0 <= j < self.entries@.len() implies is_normalized_key(
                #[trigger] self.entries@[j].key@,
            ) by {
                if j < self.entries@.len() - 1 {
                    assert(self.entries@[j] == before[j]);
                }
            }
        }
    }

    /// Looks a normalized key up; the record handed back is exactly what the
    /// table's mapping holds for it.
    pub fn get(&self, key: &Vec<u8>) -> (r: Option<&ContentRecord>)
        requires
            self.wf(),
        ensures
            match r {
                Option::Some(rec) => self@.contains_key(key@) && rec@ == self@[key@],
                Option::None => !self@.contains_key(key@),
            },
    {
        let mut i: usize = 0;
        while i < self.entries.len()
            invariant
                0 <= i <= self.entries@.len(),
                self.wf(),
                forall|j: int| 0 <= j < i ==> #[trigger] self.entries@[j].key@ != key@,
            decreases self.entries@.len() - i,
        {
            if bytes_eq(&self.entries[i].key, key) {
                proof {
                    lemma_entries_map_index(self.entries@);
                }
                return Option::Some(&self.entries[i].record);
            }
            i = i + 1;
        }
        proof {
            lemma_entries_map_contains(self.entries@);
        }
        Option::None
    }

    /// The number of routed entries.
    pub fn len(&self) -> (n: usize)
        requires
            self.wf(),
        ensures
            n == self.entries@.len(),
    {
        self.entries.len()
    }

    /// Replaces the reserved not-found body.
    pub fn set_not_found(&mut self, body: Vec<u8>)
        requires
            old(self).wf(),
        ensures
            final(self).wf(),
            final(self)@ == old(self)@,
            final(self).not_found@ == body@,
    {
        self.not_found = body;
    }
}

/// The built-in default not-found page.
pub open spec fn spec_default_not_found() -> Seq<u8> {
    seq![60u8, 104u8, 116u8, 109u8, 108u8, 62u8, 60u8, 98u8, 111u8, 100u8, 121u8, 62u8, 60u8,
        104u8, 49u8, 62u8, 52u8, 48u8, 52u8, 32u8, 78u8, 111u8, 116u8, 32u8, 70u8, 111u8, 117u8,
        110u8, 100u8, 60u8, 47u8, 104u8, 49u8, 62u8, 60u8, 47u8, 98u8, 111u8, 100u8, 121u8, 62u8,
        60u8, 47u8, 104u8, 116u8, 109u8, 108u8, 62u8]
}

/// Builds the built-in default not-found page.
pub fn default_not_found_page() -> (r: Vec<u8>)
    ensures
        r@ == spec_default_not_found(),
{
    let mut t: Vec<u8> = Vec::new();
    t.push(60);
    t.push(104);
    t.push(116);
    t.push(109);
    t.push(108);
    t.push(62);
    t.push(60);
    t.push(98);
    t.push(111);
    t.push(100);
    t.push(121);
    t.push(62);
    t.push(60);
    t.push(104);
    t.push(49);
    t.push(62);
    t.push(52);
    t.push(48);
    t.push(52);
    t.push(32);
    t.push(78);
    t.push(111);
    t.push(116);
    t.push(32);
    t.push(70);
    t.push(111);
    t.push(117);
    t.push(110);
    t.push(100);
    t.push(60);
    t.push(47);
    t.push(104);
    t.push(49);
    t.push(62);
    t.push(60);
    t.push(47);
    t.push(98);
    t.push(111);
    t.push(100);
    t.push(121);
    t.push(62);
    t.push(60);
    t.push(47);
    t.push(104);
    t.push(116);
    t.push(109);
    t.push(108);
    t.push(62);
    assert(t@ =~= spec_default_not_found());
    t
}

} // verus!
