//! Single-writer key/value cache of raw remote records.
//!
//! The store holds at most one record per composite key. `apply` is the only
//! mutating operation; it performs exactly one whole-map update, so a read
//! taken before or after it always corresponds to a complete snapshot.
//! Reads (`get`, `list`, and the projected `get_entry` / `list_entries`)
//! never observe a partially applied change.

use vstd::prelude::*;
use crate::object::{Entry, EntryView, ObjectRef, ObjectRefView, RemoteObject, RemoteObjectView};
use crate::projector::{project, project_view};

verus! {

/// No two records in the sequence share a composite key.
pub open spec fn distinct_keys(s: Seq<RemoteObjectView>) -> bool {
    forall|i: int, j: int| 0 <= i < j < s.len() ==> s[i].key() != s[j].key()
}

/// The mapping described by a sequence of records, a later record
/// superseding an earlier one with the same key.
pub open spec fn contents_of(s: Seq<RemoteObjectView>) -> Map<ObjectRefView, RemoteObjectView>
    decreases s.len(),
{
    if s.len() == 0 {
        Map::empty()
    } else {
        contents_of(s.drop_last()).insert(s.last().key(), s.last())
    }
}

/// A key is in the mapping exactly when some record in the sequence has it.
pub proof fn lemma_contents_of_domain(s: Seq<RemoteObjectView>, k: ObjectRefView)
    ensures
        contents_of(s).contains_key(k) <==> (exists|i: int| 0 <= i < s.len() && s[i].key() == k),
    decreases s.len(),
{
    if s.len() > 0 {
        lemma_contents_of_domain(s.drop_last(), k);
        if contents_of(s).contains_key(k) {
            if k == s.last().key() {
                assert(s[s.len() - 1].key() == k);
            } else {
                let i = choose|i: int|
                    0 <= i < s.drop_last().len() && s.drop_last()[i].key() == k;
                assert(s[i].key() == k);
            }
        }
        if exists|i: int| 0 <= i < s.len() && s[i].key() == k {
            let i = choose|i: int| 0 <= i < s.len() && s[i].key() == k;
            if i < s.len() - 1 {
                assert(s.drop_last()[i].key() == k);
                assert(exists|i0: int|
                    0 <= i0 < s.drop_last().len() && s.drop_last()[i0].key() == k);
            }
        }
    }
}

/// Distinctness of keys carries over to the sequence without its last record.
proof fn lemma_distinct_drop_last(s: Seq<RemoteObjectView>)
    requires
        distinct_keys(s),
        s.len() > 0,
    ensures
        distinct_keys(s.drop_last()),
{
    assert forall|i: int, j: int|
        0 <= i < j < s.drop_last().len() implies s.drop_last()[i].key() != s.drop_last()[j].key() by {
        assert(s.drop_last()[i] == s[i]);
        assert(s.drop_last()[j] == s[j]);
    }
}

/// With distinct keys, each record is the one the mapping holds for its key.
pub proof fn lemma_contents_of_at(s: Seq<RemoteObjectView>, i: int)
    requires
        distinct_keys(s),
        0 <= i < s.len(),
    ensures
        contents_of(s).contains_key(s[i].key()),
        contents_of(s)[s[i].key()] == s[i],
    decreases s.len(),
{
    if i < s.len() - 1 {
        lemma_distinct_drop_last(s);
        assert(s.drop_last()[i] == s[i]);
        lemma_contents_of_at(s.drop_last(), i);
        assert(s.last().key() != s[i].key());
    }
}

/// Appending a record updates the mapping at exactly its key.
pub proof fn lemma_contents_of_push(s: Seq<RemoteObjectView>, o: RemoteObjectView)
    ensures
        contents_of(s.push(o)) == contents_of(s).insert(o.key(), o),
{
    assert(s.push(o).drop_last() =~= s);
    assert(s.push(o).last() == o);
}

/// Removing the record at position `i` removes exactly its key.
pub proof fn lemma_contents_of_remove(s: Seq<RemoteObjectView>, i: int)
    requires
        distinct_keys(s),
        0 <= i < s.len(),
    ensures
        contents_of(s.remove(i)) == contents_of(s).remove(s[i].key()),
    decreases s.len(),
{
    let k = s[i].key();
    if i == s.len() - 1 {
        assert(s.remove(i) =~= s.drop_last());
        lemma_contents_of_domain(s.drop_last(), k);
        assert(!contents_of(s.drop_last()).contains_key(k)) by {
            if contents_of(s.drop_last()).contains_key(k) {
                let j = choose|j: int|
                    0 <= j < s.drop_last().len() && s.drop_last()[j].key() == k;
                assert(s[j].key() == k);
                assert(s[j].key() != s[i].key());
            }
        }
        assert(contents_of(s.drop_last()).insert(k, s[i]).remove(k) =~= contents_of(
            s.drop_last(),
        ));
    } else {
        lemma_distinct_drop_last(s);
        assert(s.remove(i).drop_last() =~= s.drop_last().remove(i));
        assert(s.drop_last()[i] == s[i]);
        lemma_contents_of_remove(s.drop_last(), i);
        assert(s.remove(i).last() == s.last());
        assert(s.last().key() != k);
        assert(contents_of(s.drop_last()).remove(k).insert(s.last().key(), s.last())
            =~= contents_of(s.drop_last()).insert(s.last().key(), s.last()).remove(k));
    }
}

/// The projected value a snapshot holds for a key: nothing when the key is
/// absent or its record does not project; the two cases are
/// indistinguishable by design.
pub open spec fn entry_for(m: Map<ObjectRefView, RemoteObjectView>, k: ObjectRefView) -> Option<
    EntryView,
> {
    if m.contains_key(k) {
        project_view(m[k])
    } else {
        None
    }
}

/// Concurrent key/value cache of raw remote records, one record per key.
/// A single writer mutates it through [`Store::apply`] and
/// [`Store::replace_all`]; every read returns a complete snapshot.
pub struct Store {
    entries: Vec<RemoteObject>,
}

impl View for Store {
    type V = Map<ObjectRefView, RemoteObjectView>;

    closed spec fn view(&self) -> Map<ObjectRefView, RemoteObjectView> {
        contents_of(self.entries.deep_view())
    }
}

impl Store {
    /// Well-formed: at most one record per composite key.
    pub closed spec fn wf(&self) -> bool {
        distinct_keys(self.entries.deep_view())
    }

    /// An empty store; the mirror fills it in.
    pub fn new() -> (s: Store)
        ensures
            s.wf(),
            s@ == Map::<ObjectRefView, RemoteObjectView>::empty(),
    {
        Store { entries: Vec::new() }
    }

    /// Position of the record with the given key, if one is present.
    fn find(&self, key: &ObjectRef) -> (r: Option<usize>)
        ensures
            match r {
                Some(i) => i < self.entries@.len() && self.entries@[i as int]@.key() == key@,
                None => forall|j: int|
                    0 <= j < self.entries@.len() ==> self.entries@[j]@.key() != key@,
            },
    {
        let mut i: usize = 0;
        while i < self.entries.len()
            invariant
                i <= self.entries@.len(),
                forall|j: int| 0 <= j < i ==> self.entries@[j]@.key() != key@,
            decreases self.entries@.len() - i,
        {
            let e = &self.entries[i];
            if e.namespace == key.namespace && e.name == key.name {
                return Some(i);
            }
            i += 1;
        }
        None
    }

    /// The current record for `key`, or nothing when the key is absent.
    /// Safe to call at any time: it reads one consistent snapshot.
    pub fn get(&self, key: &ObjectRef) -> (r: Option<RemoteObject>)
        requires
            self.wf(),
        ensures
            match r {
                Some(o) => self@.contains_key(key@) && o@ == self@[key@],
                None => !self@.contains_key(key@),
            },
    {
        proof {
            lemma_contents_of_domain(self.entries.deep_view(), key@);
        }
        match self.find(key) {
            Some(i) => {
                proof {
                    lemma_contents_of_at(self.entries.deep_view(), i as int);
                }
                Some(self.entries[i].clone())
            },
            None => None,
        }
    }

    /// A consistent point-in-time enumeration of all current records, in no
    /// defined order: every record of the snapshot once, and nothing else.
    pub fn list(&self) -> (r: Vec<RemoteObject>)
        requires
            self.wf(),
        ensures
            forall|i: int|
                0 <= i < r@.len() ==> self@.contains_key(#[trigger] r@[i]@.key()) && self@[r@[i]@.key()]
                    == r@[i]@,
            forall|k: ObjectRefView|
                self@.contains_key(k) ==> exists|i: int| 0 <= i < r@.len() && r@[i]@.key() == k,
            forall|i: int, j: int| 0 <= i < j < r@.len() ==> r@[i]@.key() != r@[j]@.key(),
    {
        let mut r: Vec<RemoteObject> = Vec::new();
        let mut i: usize = 0;
        while i < self.entries.len()
            invariant
                i <= self.entries@.len(),
                r@.len() == i,
                forall|j: int| 0 <= j < i ==> r@[j]@ == self.entries@[j]@,
            decreases self.entries@.len() - i,
        {
            r.push(self.entries[i].clone());
            i += 1;
        }
        proof {
            assert forall|j: int|
                0 <= j < r@.len() implies self@.contains_key(#[trigger] r@[j]@.key()) && self@[r@[j]@.key()]
                == r@[j]@ by {
                assert(self.entries.deep_view()[j] == self.entries@[j]@);
                lemma_contents_of_at(self.entries.deep_view(), j);
            }
            assert forall|k: ObjectRefView| self@.contains_key(k) implies exists|i0: int|
                0 <= i0 < r@.len() && r@[i0]@.key() == k by {
                lemma_contents_of_domain(self.entries.deep_view(), k);
                let i0 = choose|i0: int|
                    0 <= i0 < self.entries.deep_view().len() && self.entries.deep_view()[i0].key()
                        == k;
                assert(r@[i0]@.key() == k);
            }
            assert forall|a: int, b: int|
                0 <= a < b < r@.len() implies r@[a]@.key() != r@[b]@.key() by {
                assert(self.entries.deep_view()[a].key() != self.entries.deep_view()[b].key());
                assert(r@[a]@ == self.entries@[a]@);
                assert(r@[b]@ == self.entries@[b]@);
            }
        }
        r
    }

    /// The writer's single mutating operation: `Some` upserts, `None`
    /// deletes. The snapshot changes by exactly one whole-map update.
    pub fn apply(&mut self, key: &ObjectRef, object: Option<RemoteObject>)
        requires
            old(self).wf(),
            object matches Some(o) ==> o@.key() == key@,
        ensures
            final(self).wf(),
            final(self)@ == match object {
                Some(o) => old(self)@.insert(key@, o@),
                None => old(self)@.remove(key@),
            },
    {
        let found = self.find(key);
        match object {
            Some(o) => {
                proof {
                    if found is Some {
                        lemma_contents_of_remove(self.entries.deep_view(), found.unwrap() as int);
                    } else {
                        lemma_contents_of_domain(self.entries.deep_view(), key@);
                    }
                }
                let ghost before = self.entries.deep_view();
                match found {
                    Some(i) => {
                        self.entries.remove(i);
                        proof {
                            assert(self.entries.deep_view() =~= before.remove(i as int));
                            assert(distinct_keys(self.entries.deep_view())) by {
                                assert forall|a: int, b: int|
                                    0 <= a < b < self.entries.deep_view().len() implies self.entries.deep_view()[a].key()
                                    != self.entries.deep_view()[b].key() by {
                                    let s = before;
                                    let a0: int = if a < i as int {
                                        a
                                    } else {
                                        a + 1
                                    };
                                    let b0: int = if b < i as int {
                                        b
                                    } else {
                                        b + 1
                                    };
                                    assert(self.entries.deep_view()[a] == s[a0]);
                                    assert(self.entries.deep_view()[b] == s[b0]);
                                }
                            }
                        }
                    },
                    None => {},
                }
                let ghost mid = self.entries.deep_view();
                proof {
                    lemma_contents_of_domain(mid, key@);
                    lemma_contents_of_push(mid, o@);
                }
                self.entries.push(o);
                proof {
                    assert(self.entries.deep_view() =~= mid.push(o@));
                    assert(!contents_of(mid).contains_key(key@));
                    assert(distinct_keys(self.entries.deep_view())) by {
                        assert forall|a: int, b: int|
                            0 <= a < b < self.entries.deep_view().len() implies self.entries.deep_view()[a].key()
                            != self.entries.deep_view()[b].key() by {
                            if b == self.entries.deep_view().len() - 1 {
                                assert(self.entries.deep_view()[a] == mid[a]);
                            } else {
                                assert(self.entries.deep_view()[a] == mid[a]);
                                assert(self.entries.deep_view()[b] == mid[b]);
                            }
                        }
                    }
                    assert(self@ =~= old(self)@.insert(key@, o@));
                }
            },
            None => {
                match found {
                    Some(i) => {
                        let ghost before = self.entries.deep_view();
                        proof {
                            lemma_contents_of_remove(before, i as int);
                        }
                        self.entries.remove(i);
                        proof {
                            assert(self.entries.deep_view() =~= before.remove(i as int));
                            assert(distinct_keys(self.entries.deep_view())) by {
                                assert forall|a: int, b: int|
                                    0 <= a < b < self.entries.deep_view().len() implies self.entries.deep_view()[a].key()
                                    != self.entries.deep_view()[b].key() by {
                                    let a0: int = if a < i as int {
                                        a
                                    } else {
                                        a + 1
                                    };
                                    let b0: int = if b < i as int {
                                        b
                                    } else {
                                        b + 1
                                    };
                                    assert(self.entries.deep_view()[a] == before[a0]);
                                    assert(self.entries.deep_view()[b] == before[b0]);
                                }
                            }
                        }
                    },
                    None => {
                        proof {
                            lemma_contents_of_domain(self.entries.deep_view(), key@);
                            assert(!old(self)@.contains_key(key@));
                            assert(old(self)@.remove(key@) =~= old(self)@);
                        }
                    },
                }
            },
        }
    }

    /// Replace the whole snapshot with the records of a fresh bootstrap
    /// list, a later record superseding an earlier one with the same key.
    /// Prior contents are discarded unconditionally.
    pub fn replace_all(&mut self, objects: Vec<RemoteObject>)
        requires
            old(self).wf(),
        ensures
            final(self).wf(),
            final(self)@ == contents_of(objects.deep_view()),
    {
        self.entries = Vec::new();
        proof {
            assert(self.entries.deep_view() =~= Seq::<RemoteObjectView>::empty());
            assert(self@ == contents_of(objects.deep_view().take(0)));
        }
        let mut i: usize = 0;
        while i < objects.len()
            invariant
                i <= objects@.len(),
                self.wf(),
                self@ == contents_of(objects.deep_view().take(i as int)),
            decreases objects@.len() - i,
        {
            let o = objects[i].clone();
            let key = o.object_ref();
            self.apply(&key, Some(o));
            proof {
                assert(objects.deep_view().take(i + 1).drop_last() =~= objects.deep_view().take(
                    i as int,
                ));
                assert(objects.deep_view().take(i + 1).last() == objects.deep_view()[i as int]);
            }
            i += 1;
        }
        proof {
            assert(objects.deep_view().take(objects@.len() as int) =~= objects.deep_view());
        }
    }

    /// Projected point lookup: the entry for `(namespace, name)`, or nothing
    /// when the key is absent or its record does not project.
    pub fn get_entry(&self, namespace: String, name: String) -> (r: Option<Entry>)
        requires
            self.wf(),
        ensures
            r.deep_view() == entry_for(
                self@,
                (ObjectRefView { namespace: namespace@, name: name@ }),
            ),
    {
        let key = ObjectRef::new(namespace, name);
        match self.get(&key) {
            Some(o) => project(&o),
            None => None,
        }
    }

    /// All currently present, successfully projected entries, in no defined
    /// order: one entry per projectable record of the snapshot, nothing else.
    pub fn list_entries(&self) -> (r: Vec<Entry>)
        requires
            self.wf(),
        ensures
            forall|i: int|
                0 <= i < r@.len() ==> entry_for(self@, #[trigger] r@[i]@.key()) == Some(r@[i]@),
            forall|k: ObjectRefView|
                self@.contains_key(k) && project_view(self@[k]) is Some ==> exists|i: int|
                    0 <= i < r@.len() && r@[i]@.key() == k,
            forall|i: int, j: int| 0 <= i < j < r@.len() ==> r@[i]@.key() != r@[j]@.key(),
    {
        let mut r: Vec<Entry> = Vec::new();
        let mut i: usize = 0;
        while i < self.entries.len()
            invariant
                i <= self.entries@.len(),
                self.wf(),
                forall|j: int|
                    0 <= j < r@.len() ==> exists|idx: int|
                        0 <= idx < i && self.entries@[idx]@.key() == (#[trigger] r@[j]@).key()
                            && project_view(self.entries@[idx]@) == Some(r@[j]@),
                forall|idx: int|
                    0 <= idx < i && project_view((#[trigger] self.entries@[idx])@) is Some
                        ==> exists|j: int|
                        0 <= j < r@.len() && r@[j]@.key() == self.entries@[idx]@.key(),
                forall|a: int, b: int| 0 <= a < b < r@.len() ==> r@[a]@.key() != r@[b]@.key(),
            decreases self.entries@.len() - i,
        {
            let ghost old_r = r@;
            match project(&self.entries[i]) {
                Some(e) => {
                    proof {
                        assert(project_view(self.entries@[i as int]@) == Some(e@));
                        assert(e@.key() == self.entries@[i as int]@.key());
                    }
                    r.push(e);
                    proof {
                        assert forall|idx: int|
                            0 <= idx < i + 1 && project_view(
                                (#[trigger] self.entries@[idx])@,
                            ) is Some implies exists|j: int|
                            0 <= j < r@.len() && r@[j]@.key() == self.entries@[idx]@.key() by {
                            if idx == i as int {
                                assert(r@[r@.len() - 1]@.key() == self.entries@[idx]@.key());
                            } else {
                                let j = choose|j: int|
                                    0 <= j < old_r.len() && old_r[j]@.key()
                                        == self.entries@[idx]@.key();
                                assert(r@[j] == old_r[j]);
                            }
                        }
                        assert forall|a: int, b: int|
                            0 <= a < b < r@.len() implies r@[a]@.key() != r@[b]@.key() by {
                            if b < r@.len() - 1 {
                                assert(r@[a] == old_r[a]);
                                assert(r@[b] == old_r[b]);
                            } else {
                                assert(r@[a] == old_r[a]);
                                let idx = choose|idx: int|
                                    0 <= idx < i && self.entries@[idx]@.key() == old_r[a]@.key()
                                        && project_view(self.entries@[idx]@) == Some(old_r[a]@);
                                assert(self.entries.deep_view()[idx].key()
                                    != self.entries.deep_view()[i as int].key());
                            }
                        }
                    }
                },
                None => {
                    proof {
                        assert(project_view(self.entries@[i as int]@) is None);
                    }
                },
            }
            i += 1;
        }
        proof {
            assert forall|j: int|
                0 <= j < r@.len() implies entry_for(self@, (#[trigger] r@[j]@).key()) == Some(
                r@[j]@,
            ) by {
                let idx = choose|idx: int|
                    0 <= idx < self.entries@.len() && self.entries@[idx]@.key() == r@[j]@.key()
                        && project_view(self.entries@[idx]@) == Some(r@[j]@);
                assert(self.entries.deep_view()[idx] == self.entries@[idx]@);
                lemma_contents_of_at(self.entries.deep_view(), idx);
            }
            assert forall|k: ObjectRefView|
                self@.contains_key(k) && project_view(self@[k]) is Some implies exists|j: int|
                0 <= j < r@.len() && r@[j]@.key() == k by {
                lemma_contents_of_domain(self.entries.deep_view(), k);
                let idx = choose|idx: int|
                    0 <= idx < self.entries.deep_view().len() && self.entries.deep_view()[idx].key()
                        == k;
                assert(self.entries.deep_view()[idx] == self.entries@[idx]@);
                lemma_contents_of_at(self.entries.deep_view(), idx);
                assert(project_view(self.entries@[idx]@) is Some);
            }
        }
        r
    }
}

} // verus!
