use vstd::prelude::*;

verus! {

/// Whether two byte strings are equal.
pub fn bytes_equal(a: &[u8], b: &[u8]) -> (equal: bool)
    ensures
        equal == (a@ == b@),
{
    if a.len() != b.len() {
        return false;
    }
    let mut i: usize = 0;
    while i < a.len()
        invariant
            a@.len() == b@.len(),
            i <= a@.len(),
            forall|j: int| 0 <= j < i ==> a@[j] == b@[j],
        decreases a@.len() - i,
    {
        if a[i] != b[i] {
            return false;
        }
        i = i + 1;
    }
    assert(a@ =~= b@);
    true
}

/// A map from ids (byte strings) to values, each id at most once.
pub struct IdMap<V> {
    entries: Vec<(Vec<u8>, V)>,
}

/// Whether no id occurs twice among `entries`.
pub open spec fn ids_unique<V>(entries: Seq<(Vec<u8>, V)>) -> bool {
    forall|i: int, j: int|
        0 <= i < entries.len() && 0 <= j < entries.len() && i != j ==> entries[i].0@
            != entries[j].0@
}

/// The index at which `id` stands in `entries`, if it stands anywhere.
pub open spec fn index_of<V>(entries: Seq<(Vec<u8>, V)>, id: Seq<u8>) -> int {
    choose|i: int| 0 <= i < entries.len() && entries[i].0@ == id
}

/// Whether `id` stands in `entries`.
pub open spec fn holds_id<V>(entries: Seq<(Vec<u8>, V)>, id: Seq<u8>) -> bool {
    exists|i: int| 0 <= i < entries.len() && entries[i].0@ == id
}

/// The map that `entries` stand for.
pub open spec fn entries_map<V>(entries: Seq<(Vec<u8>, V)>) -> Map<Seq<u8>, V> {
    Map::new(|id: Seq<u8>| holds_id(entries, id), |id: Seq<u8>| entries[index_of(entries, id)].1)
}

/// In entries without repeated ids, the entry at `i` is what the map holds
/// under its id.
pub proof fn lemma_entry_in_map<V>(entries: Seq<(Vec<u8>, V)>, i: int)
    requires
        ids_unique(entries),
        0 <= i < entries.len(),
    ensures
        entries_map(entries).contains_key(entries[i].0@),
        entries_map(entries)[entries[i].0@] == entries[i].1,
        index_of(entries, entries[i].0@) == i,
{
    assert(holds_id(entries, entries[i].0@));
    let k = index_of(entries, entries[i].0@);
    assert(k == i);
}

/// Adding an entry with a new id adds it to the map.
pub proof fn lemma_push_entry<V>(entries: Seq<(Vec<u8>, V)>, id: Vec<u8>, v: V)
    requires
        ids_unique(entries),
        !holds_id(entries, id@),
    ensures
        ids_unique(entries.push((id, v))),
        entries_map(entries.push((id, v))) == entries_map(entries).insert(id@, v),
{
    let e2 = entries.push((id, v));
    assert(ids_unique(e2));
    let m1 = entries_map(entries).insert(id@, v);
    let m2 = entries_map(e2);
    assert forall|k: Seq<u8>| m2.contains_key(k) <==> m1.contains_key(k) by {
        if holds_id(e2, k) {
            let i = choose|i: int| 0 <= i < e2.len() && e2[i].0@ == k;
            if i < entries.len() {
                assert(holds_id(entries, k));
            }
        }
        if holds_id(entries, k) {
            let i = choose|i: int| 0 <= i < entries.len() && entries[i].0@ == k;
            assert(e2[i].0@ == k);
        }
        if k == id@ {
            assert(e2[entries.len() as int].0@ == k);
        }
    }
    assert forall|k: Seq<u8>| #[trigger] m2.contains_key(k) implies m2[k] == m1[k] by {
        let i = choose|i: int| 0 <= i < e2.len() && e2[i].0@ == k;
        lemma_entry_in_map(e2, i);
        if i < entries.len() {
            lemma_entry_in_map(entries, i);
        }
    }
    assert(m2 =~= m1);
}

/// Taking out the entry at `i` takes its id out of the map.
pub proof fn lemma_remove_entry<V>(entries: Seq<(Vec<u8>, V)>, i: int)
    requires
        ids_unique(entries),
        0 <= i < entries.len(),
    ensures
        ids_unique(entries.remove(i)),
        entries_map(entries.remove(i)) == entries_map(entries).remove(entries[i].0@),
{
    let e2 = entries.remove(i);
    let id = entries[i].0@;
    assert forall|a: int, b: int|
        0 <= a < e2.len() && 0 <= b < e2.len() && a != b implies e2[a].0@ != e2[b].0@ by {
        let a1 = if a < i { a } else { a + 1 };
        let b1 = if b < i { b } else { b + 1 };
        assert(e2[a] == entries[a1]);
        assert(e2[b] == entries[b1]);
    }
    let m1 = entries_map(entries).remove(id);
    let m2 = entries_map(e2);
    assert forall|k: Seq<u8>| m2.contains_key(k) <==> m1.contains_key(k) by {
        if holds_id(e2, k) {
            let a = choose|a: int| 0 <= a < e2.len() && e2[a].0@ == k;
            let a1 = if a < i { a } else { a + 1 };
            assert(entries[a1].0@ == k);
            assert(holds_id(entries, k));
            assert(k != id);
        }
        if holds_id(entries, k) && k != id {
            let a = choose|a: int| 0 <= a < entries.len() && entries[a].0@ == k;
            assert(a != i);
            let a2 = if a < i { a } else { a - 1 };
            assert(e2[a2].0@ == k);
        }
    }
    assert forall|k: Seq<u8>| #[trigger] m2.contains_key(k) implies m2[k] == m1[k] by {
        let a = choose|a: int| 0 <= a < e2.len() && e2[a].0@ == k;
        lemma_entry_in_map(e2, a);
        let a1 = if a < i { a } else { a + 1 };
        assert(e2[a] == entries[a1]);
        lemma_entry_in_map(entries, a1);
    }
    assert(m2 =~= m1);
}

impl<V> IdMap<V> {
    #[verifier::type_invariant]
    spec fn inv(self) -> bool {
        ids_unique(self.entries@)
    }

    /// The ids and the values held under them.
    pub closed spec fn view(&self) -> Map<Seq<u8>, V> {
        entries_map(self.entries@)
    }

    /// An empty map.
    pub fn new() -> (m: IdMap<V>)
        ensures
            m.view() == Map::<Seq<u8>, V>::empty(),
    {
        let m = IdMap { entries: Vec::new() };
        assert(m.view() =~= Map::<Seq<u8>, V>::empty());
        m
    }

    /// Where `id` stands among the entries, if it does.
    fn find(&self, id: &[u8]) -> (r: Option<usize>)
        ensures
            r matches Some(i) ==> i < self.entries@.len() && self.entries@[i as int].0@ == id@,
            r is None ==> !holds_id(self.entries@, id@),
    {
        let mut i: usize = 0;
        while i < self.entries.len()
            invariant
                i <= self.entries@.len(),
                forall|j: int| 0 <= j < i ==> self.entries@[j].0@ != id@,
            decreases self.entries@.len() - i,
        {
            if bytes_equal(self.entries[i].0.as_slice(), id) {
                return Some(i);
            }
            i = i + 1;
        }
        None
    }

    /// Whether `id` is held.
    pub fn contains(&self, id: &[u8]) -> (b: bool)
        ensures
            b == self.view().contains_key(id@),
    {
        match self.find(id) {
            Some(i) => {
                proof {
                    use_type_invariant(self);
                    lemma_entry_in_map(self.entries@, i as int);
                }
                true
            },
            None => false,
        }
    }

    /// The value held under `id`, if any.
    pub fn get(&self, id: &[u8]) -> (r: Option<&V>)
        ensures
            self.view().contains_key(id@) ==> r == Some(&self.view()[id@]),
            !self.view().contains_key(id@) ==> r is None,
    {
        match self.find(id) {
            Some(i) => {
                proof {
                    use_type_invariant(self);
                    lemma_entry_in_map(self.entries@, i as int);
                }
                Some(&self.entries[i].1)
            },
            None => None,
        }
    }

    /// Holds `value` under `id`, in place of what was held there.
    pub fn insert(&mut self, id: Vec<u8>, value: V)
        ensures
            final(self).view() == old(self).view().insert(id@, value),
    {
        proof {
            use_type_invariant(&*self);
        }
        let found = self.find(id.as_slice());
        let mut entries: Vec<(Vec<u8>, V)> = Vec::new();
        std::mem::swap(&mut entries, &mut self.entries);
        match found {
            Some(i) => {
                proof {
                    lemma_remove_entry(entries@, i as int);
                    lemma_push_entry(entries@.remove(i as int), id, value);
                }
                let _ = entries.remove(i);
                entries.push((id, value));
                proof {
                    assert(old(self).view().remove(id@).insert(id@, value) =~= old(
                        self,
                    ).view().insert(id@, value));
                }
            },
            None => {
                proof {
                    lemma_push_entry(entries@, id, value);
                }
                entries.push((id, value));
            },
        }
        self.entries = entries;
    }

    /// Takes out what is held under `id`, if anything.
    pub fn remove(&mut self, id: &[u8]) -> (r: Option<V>)
        ensures
            old(self).view().contains_key(id@) ==> r == Some(old(self).view()[id@]),
            !old(self).view().contains_key(id@) ==> r is None,
            final(self).view() == old(self).view().remove(id@),
    {
        proof {
            use_type_invariant(&*self);
        }
        match self.find(id) {
            Some(i) => {
                let mut entries: Vec<(Vec<u8>, V)> = Vec::new();
                std::mem::swap(&mut entries, &mut self.entries);
                proof {
                    lemma_remove_entry(entries@, i as int);
                    lemma_entry_in_map(entries@, i as int);
                }
                let entry = entries.remove(i);
                self.entries = entries;
                Some(entry.1)
            },
            None => {
                proof {
                    assert(old(self).view().remove(id@) =~= old(self).view());
                }
                None
            },
        }
    }

    /// Takes out the value held under `id`, which must be held.
    pub fn take(&mut self, id: &[u8]) -> (v: V)
        requires
            old(self).view().contains_key(id@),
        ensures
            v == old(self).view()[id@],
            final(self).view() == old(self).view().remove(id@),
    {
        proof {
            use_type_invariant(&*self);
        }
        let i = match self.find(id) {
            Some(i) => i,
            None => {
                proof {
                    assert(false);
                }
                0
            },
        };
        let mut entries: Vec<(Vec<u8>, V)> = Vec::new();
        std::mem::swap(&mut entries, &mut self.entries);
        proof {
            lemma_remove_entry(entries@, i as int);
            lemma_entry_in_map(entries@, i as int);
        }
        let entry = entries.remove(i);
        self.entries = entries;
        entry.1
    }
}

} // verus!
