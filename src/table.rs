//! A table keyed by task id: at most one value per id.
use vstd::prelude::*;

verus! {

/// The map that a list of `(id, value)` entries stands for; a later entry wins.
pub open spec fn entries_map<V>(s: Seq<(String, V)>) -> Map<Seq<char>, V>
    decreases s.len(),
{
    if s.len() == 0 {
        Map::empty()
    } else {
        entries_map(s.drop_last()).insert(s.last().0@, s.last().1)
    }
}

/// No id occurs twice among the entries.
pub open spec fn ids_unique<V>(s: Seq<(String, V)>) -> bool {
    forall|i: int, j: int| 0 <= i < s.len() && 0 <= j < s.len() && i != j ==> #[trigger] s[i].0@ != #[trigger] s[j].0@
}

proof fn lemma_map_absent<V>(s: Seq<(String, V)>, k: Seq<char>)
    requires
        forall|i: int| 0 <= i < s.len() ==> #[trigger] s[i].0@ != k,
    ensures
        !entries_map(s).contains_key(k),
    decreases s.len(),
{
    if s.len() > 0 {
        let s0 = s.drop_last();
        assert forall|i: int| 0 <= i < s0.len() implies #[trigger] s0[i].0@ != k by {
            assert(s0[i] == s[i]);
        }
        lemma_map_absent(s0, k);
    }
}

proof fn lemma_map_at<V>(s: Seq<(String, V)>, i: int)
    requires
        ids_unique(s),
        0 <= i < s.len(),
    ensures
        entries_map(s).contains_key(s[i].0@),
        entries_map(s)[s[i].0@] == s[i].1,
    decreases s.len(),
{
    let s0 = s.drop_last();
    if i < s.len() - 1 {
        assert(ids_unique(s0)) by {
            assert forall|a: int, b: int| 0 <= a < s0.len() && 0 <= b < s0.len() && a != b implies #[trigger] s0[a].0@ != #[trigger] s0[b].0@ by {
                assert(s0[a] == s[a] && s0[b] == s[b]);
            }
        }
        assert(s0[i] == s[i]);
        lemma_map_at(s0, i);
        assert(s[i].0@ != s.last().0@);
    }
}

proof fn lemma_unique_drop_last<V>(s: Seq<(String, V)>)
    requires
        ids_unique(s),
        s.len() > 0,
    ensures
        ids_unique(s.drop_last()),
        forall|i: int| 0 <= i < s.len() - 1 ==> #[trigger] s.drop_last()[i].0@ != s.last().0@,
{
    let s0 = s.drop_last();
    assert forall|a: int, b: int| 0 <= a < s0.len() && 0 <= b < s0.len() && a != b implies #[trigger] s0[a].0@ != #[trigger] s0[b].0@ by {
        assert(s0[a] == s[a] && s0[b] == s[b]);
    }
    assert forall|i: int| 0 <= i < s.len() - 1 implies #[trigger] s0[i].0@ != s.last().0@ by {
        assert(s0[i] == s[i]);
        assert(s.last() == s[s.len() - 1]);
    }
}

proof fn lemma_map_remove<V>(s: Seq<(String, V)>, i: int)
    requires
        ids_unique(s),
        0 <= i < s.len(),
    ensures
        entries_map(s.remove(i)) == entries_map(s).remove(s[i].0@),
        ids_unique(s.remove(i)),
    decreases s.len(),
{
    let k = s[i].0@;
    let s0 = s.drop_last();
    lemma_unique_drop_last(s);
    if i == s.len() - 1 {
        assert(s.remove(i) =~= s0);
        lemma_map_absent(s0, k);
        assert(entries_map(s0).insert(k, s.last().1).remove(k) =~= entries_map(s0));
    } else {
        lemma_map_remove(s0, i);
        assert(s0[i] == s[i]);
        assert(s.remove(i).drop_last() =~= s0.remove(i));
        assert(s.remove(i).last() == s.last());
        assert(s.last().0@ != k);
        assert(entries_map(s.remove(i)) =~= entries_map(s).remove(k));
    }
    let r = s.remove(i);
    assert forall|a: int, b: int| 0 <= a < r.len() && 0 <= b < r.len() && a != b implies #[trigger] r[a].0@ != #[trigger] r[b].0@ by {
        let a2 = if a < i { a } else { a + 1 };
        let b2 = if b < i { b } else { b + 1 };
        assert(r[a] == s[a2] && r[b] == s[b2]);
    }
}

/// Values by task id, with each id at most once.
pub struct TaskTable<V> {
    entries: Vec<(String, V)>,
}

impl<V> TaskTable<V> {
    /// The ids and their values.
    pub closed spec fn view(&self) -> Map<Seq<char>, V> {
        entries_map(self.entries@)
    }

    pub closed spec fn wf(&self) -> bool {
        ids_unique(self.entries@)
    }

    pub fn new() -> (r: Self)
        ensures
            r.wf(),
            r.view() == Map::<Seq<char>, V>::empty(),
    {
        TaskTable { entries: Vec::new() }
    }

    fn find(&self, id: &String) -> (r: Option<usize>)
        requires
            self.wf(),
        ensures
            match r {
                Some(i) => i < self.entries@.len() && self.entries@[i as int].0@ == id@,
                None => forall|i: int| 0 <= i < self.entries@.len() ==> #[trigger] self.entries@[i].0@ != id@,
            },
    {
        let mut i: usize = 0;
        while i < self.entries.len()
            invariant
                0 <= i <= self.entries@.len(),
                forall|j: int| 0 <= j < i ==> #[trigger] self.entries@[j].0@ != id@,
            decreases self.entries@.len() - i,
        {
            if self.entries[i].0 == *id {
                return Some(i);
            }
            i = i + 1;
        }
        None
    }

    /// Whether `id` has an entry.
    pub fn contains(&self, id: &String) -> (r: bool)
        requires
            self.wf(),
        ensures
            r == self.view().contains_key(id@),
    {
        match self.find(id) {
            Some(i) => {
                proof {
                    lemma_map_at(self.entries@, i as int);
                }
                true
            },
            None => {
                proof {
                    lemma_map_absent(self.entries@, id@);
                }
                false
            },
        }
    }

    /// The value stored for `id`.
    pub fn get(&self, id: &String) -> (r: Option<&V>)
        requires
            self.wf(),
        ensures
            match r {
                Some(v) => self.view().contains_key(id@) && *v == self.view()[id@],
                None => !self.view().contains_key(id@),
            },
    {
        match self.find(id) {
            Some(i) => {
                proof {
                    lemma_map_at(self.entries@, i as int);
                }
                Some(&self.entries[i].1)
            },
            None => {
                proof {
                    lemma_map_absent(self.entries@, id@);
                }
                None
            },
        }
    }

    /// Removes the entry for `id`, handing back its value.
    pub fn remove(&mut self, id: &String) -> (r: Option<V>)
        requires
            old(self).wf(),
        ensures
            final(self).wf(),
            final(self).view() == old(self).view().remove(id@),
            match r {
                Some(v) => old(self).view().contains_key(id@) && v == old(self).view()[id@],
                None => !old(self).view().contains_key(id@),
            },
    {
        match self.find(id) {
            Some(i) => {
                proof {
                    lemma_map_at(self.entries@, i as int);
                    lemma_map_remove(self.entries@, i as int);
                }
                let (_, v) = self.entries.remove(i);
                Some(v)
            },
            None => {
                proof {
                    lemma_map_absent(self.entries@, id@);
                    assert(self.view().remove(id@) =~= self.view());
                }
                None
            },
        }
    }

    /// Stores `value` for `id`, handing back the value it displaces.
    pub fn insert(&mut self, id: String, value: V) -> (r: Option<V>)
        requires
            old(self).wf(),
        ensures
            final(self).wf(),
            final(self).view() == old(self).view().insert(id@, value),
            match r {
                Some(v) => old(self).view().contains_key(id@) && v == old(self).view()[id@],
                None => !old(self).view().contains_key(id@),
            },
    {
        let old_value = self.remove(&id);
        let ghost before = self.entries@;
        proof {
            assert forall|i: int| 0 <= i < before.len() implies #[trigger] before[i].0@ != id@ by {
                if before[i].0@ == id@ {
                    lemma_map_at(before, i);
                }
            }
        }
        self.entries.push((id, value));
        proof {
            let s = self.entries@;
            assert(s.drop_last() =~= before);
            assert forall|a: int, b: int| 0 <= a < s.len() && 0 <= b < s.len() && a != b implies #[trigger] s[a].0@ != #[trigger] s[b].0@ by {
                if a < before.len() {
                    assert(s[a] == before[a]);
                }
                if b < before.len() {
                    assert(s[b] == before[b]);
                }
            }
            assert(self.view() =~= old(self).view().insert(id@, value));
        }
        old_value
    }

    /// Takes every entry out, leaving the table empty.
    pub fn drain(&mut self) -> (r: Vec<(String, V)>)
        requires
            old(self).wf(),
        ensures
            final(self).wf(),
            final(self).view() == Map::<Seq<char>, V>::empty(),
            ids_unique(r@),
            entries_map(r@) == old(self).view(),
    {
        let mut taken: Vec<(String, V)> = Vec::new();
        std::mem::swap(&mut taken, &mut self.entries);
        taken
    }

    /// The ids that have entries, each once.
    pub fn ids(&self) -> (r: Vec<String>)
        requires
            self.wf(),
        ensures
            forall|i: int| 0 <= i < r@.len() ==> self.view().contains_key(#[trigger] r@[i]@),
            forall|k: Seq<char>| self.view().contains_key(k) ==> exists|i: int| 0 <= i < r@.len() && #[trigger] r@[i]@ == k,
            forall|i: int, j: int| 0 <= i < r@.len() && 0 <= j < r@.len() && i != j ==> #[trigger] r@[i]@ != #[trigger] r@[j]@,
    {
        let mut out: Vec<String> = Vec::new();
        let mut i: usize = 0;
        while i < self.entries.len()
            invariant
                self.wf(),
                0 <= i <= self.entries@.len(),
                out@.len() == i,
                forall|j: int| 0 <= j < i ==> #[trigger] out@[j]@ == self.entries@[j].0@,
            decreases self.entries@.len() - i,
        {
            out.push(self.entries[i].0.clone());
            i = i + 1;
        }
        proof {
            let s = self.entries@;
            assert forall|j: int| 0 <= j < out@.len() implies self.view().contains_key(#[trigger] out@[j]@) by {
                lemma_map_at(s, j);
            }
            assert forall|k: Seq<char>| self.view().contains_key(k) implies exists|j: int| 0 <= j < out@.len() && #[trigger] out@[j]@ == k by {
                if !(exists|j: int| 0 <= j < out@.len() && #[trigger] out@[j]@ == k) {
                    assert forall|j: int| 0 <= j < s.len() implies #[trigger] s[j].0@ != k by {
                        assert(out@[j]@ == s[j].0@);
                    }
                    lemma_map_absent(s, k);
                }
            }
        }
        out
    }

    /// Removes every entry.
    pub fn clear(&mut self)
        requires
            old(self).wf(),
        ensures
            final(self).wf(),
            final(self).view() == Map::<Seq<char>, V>::empty(),
    {
        self.entries.clear();
        assert(self.entries@ =~= Seq::<(String, V)>::empty());
    }
}

} // verus!
