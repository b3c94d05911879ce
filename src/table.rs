use vstd::prelude::*;

use crate::text::chars_eq;
use crate::text::chars_of;

verus! {

/// No two entries share a key.
pub open spec fn keys_unique<V>(s: Seq<(String, V)>) -> bool {
    forall|i: int, j: int| 0 <= i < j < s.len() ==> s[i].0@ != s[j].0@
}

/// The map from key to value that the entries `s` describe.
pub open spec fn map_of<V>(s: Seq<(String, V)>) -> Map<Seq<char>, V>
    decreases s.len(),
{
    if s.len() == 0 {
        Map::empty()
    } else {
        map_of(s.drop_last()).insert(s.last().0@, s.last().1)
    }
}

/// A key holds in `map_of(s)` exactly when some entry has it, with that
/// entry's value when keys are unique.
pub proof fn lemma_map_of_index<V>(s: Seq<(String, V)>, k: Seq<char>)
    requires
        keys_unique(s),
    ensures
        map_of(s).contains_key(k) <==> exists|i: int| 0 <= i < s.len() && s[i].0@ == k,
        forall|i: int| 0 <= i < s.len() && s[i].0@ == k ==> map_of(s)[k] == #[trigger] s[i].1,
    decreases s.len(),
{
    if s.len() > 0 {
        let t = s.drop_last();
        assert(keys_unique(t));
        lemma_map_of_index(t, k);
        assert forall|i: int| 0 <= i < t.len() implies t[i] == s[i] by {}
        if s.last().0@ == k {
            assert(s[s.len() - 1].0@ == k);
        } else {
            if exists|i: int| 0 <= i < s.len() && s[i].0@ == k {
                let i = choose|i: int| 0 <= i < s.len() && s[i].0@ == k;
                assert(t[i].0@ == k);
            }
            if exists|i: int| 0 <= i < t.len() && t[i].0@ == k {
                let i = choose|i: int| 0 <= i < t.len() && t[i].0@ == k;
                assert(s[i].0@ == k);
            }
        }
        assert forall|i: int| 0 <= i < s.len() && s[i].0@ == k implies map_of(s)[k] == #[trigger] s[i].1 by {
            if i < s.len() - 1 {
                assert(s[i] == t[i]);
                assert(s[s.len() - 1].0@ != k);
            }
        }
    }
}

/// Removing an entry removes its key.
pub proof fn lemma_map_of_remove<V>(s: Seq<(String, V)>, i: int)
    requires
        keys_unique(s),
        0 <= i < s.len(),
    ensures
        keys_unique(s.remove(i)),
        map_of(s.remove(i)) == map_of(s).remove(s[i].0@),
    decreases s.len(),
{
    let r = s.remove(i);
    assert(keys_unique(r)) by {
        assert forall|a: int, b: int| 0 <= a < b < r.len() implies r[a].0@ != r[b].0@ by {
            let a2 = if a < i { a } else { a + 1 };
            let b2 = if b < i { b } else { b + 1 };
            assert(r[a] == s[a2] && r[b] == s[b2]);
        }
    }
    if i == s.len() - 1 {
        assert(r =~= s.drop_last());
        lemma_map_of_index(s.drop_last(), s[i].0@);
        assert(map_of(r) =~= map_of(s).remove(s[i].0@));
    } else {
        let t = s.drop_last();
        assert(keys_unique(t));
        lemma_map_of_remove(t, i);
        assert(r.drop_last() =~= t.remove(i));
        assert(r.last() == s.last());
        assert(map_of(r) =~= map_of(s).remove(s[i].0@));
    }
}

/// Entries keyed by strings, at most one per key, in insertion order.
///
/// A vector of pairs rather than a `HashMap<String, V>`: for string keys the
/// verifier's specification of the standard maps tells too little to prove
/// that a key is found again after it is inserted, while over a vector the
/// unique-key invariant and the map it describes are proved here.
pub struct Table<V> {
    entries: Vec<(String, V)>,
}

impl<V> Table<V> {
    /// The entries, in order.
    pub closed spec fn seq(&self) -> Seq<(String, V)> {
        self.entries@
    }

    pub open spec fn wf(&self) -> bool {
        keys_unique(self.seq())
    }

    /// The map from key to value.
    pub open spec fn map(&self) -> Map<Seq<char>, V> {
        map_of(self.seq())
    }

    /// An empty table.
    pub fn new() -> (r: Self)
        ensures
            r.wf(),
            r.seq().len() == 0,
            r.map() == Map::<Seq<char>, V>::empty(),
    {
        Table { entries: Vec::new() }
    }

    /// Number of entries.
    pub fn len(&self) -> (r: usize)
        ensures
            r == self.seq().len(),
    {
        self.entries.len()
    }

    /// Index of the entry with key `id`.
    pub fn find(&self, id: &str) -> (r: Option<usize>)
        requires
            self.wf(),
        ensures
            match r {
                Some(i) => i < self.seq().len() && self.seq()[i as int].0@ == id@
                    && self.map().contains_key(id@) && self.map()[id@] == self.seq()[i as int].1,
                None => !self.map().contains_key(id@) && forall|i: int|
                    0 <= i < self.seq().len() ==> (#[trigger] self.seq()[i]).0@ != id@,
            },
    {
        let key = chars_of(id);
        let n = self.entries.len();
        let mut i: usize = 0;
        while i < n
            invariant
                i <= n,
                n == self.entries@.len(),
                key@ == id@,
                keys_unique(self.entries@),
                forall|j: int| 0 <= j < i ==> (#[trigger] self.entries@[j]).0@ != id@,
            decreases n - i,
        {
            let name = chars_of(self.entries[i].0.as_str());
            if chars_eq(&name, &key) {
                proof {
                    lemma_map_of_index(self.entries@, id@);
                    assert(self.entries@[i as int].0@ == id@);
                }
                return Some(i);
            }
            i += 1;
        }
        proof {
            lemma_map_of_index(self.entries@, id@);
        }
        None
    }

    /// The value under key `id`.
    pub fn get(&self, id: &str) -> (r: Option<&V>)
        requires
            self.wf(),
        ensures
            match r {
                Some(v) => self.map().contains_key(id@) && self.map()[id@] == *v,
                None => !self.map().contains_key(id@),
            },
    {
        match self.find(id) {
            Some(i) => Some(&self.entries[i].1),
            None => None,
        }
    }

    /// Removes the entry at index `i` and hands it back.
    pub fn remove_at(&mut self, i: usize) -> (r: (String, V))
        requires
            old(self).wf(),
            i < old(self).seq().len(),
        ensures
            final(self).wf(),
            r == old(self).seq()[i as int],
            final(self).seq() == old(self).seq().remove(i as int),
            final(self).map() == old(self).map().remove(r.0@),
    {
        proof {
            lemma_map_of_remove(self.entries@, i as int);
        }
        self.entries.remove(i)
    }

    /// Adds an entry under a key that the table does not hold.
    pub fn push_new(&mut self, id: String, v: V)
        requires
            old(self).wf(),
            !old(self).map().contains_key(id@),
        ensures
            final(self).wf(),
            final(self).seq() == old(self).seq().push((id, v)),
            final(self).map() == old(self).map().insert(id@, v),
    {
        proof {
            lemma_map_of_index(self.entries@, id@);
        }
        let ghost before = self.entries@;
        self.entries.push((id, v));
        proof {
            assert(self.entries@.drop_last() =~= before);
        }
    }

    /// Removes every entry.
    pub fn clear(&mut self)
        ensures
            final(self).wf(),
            final(self).seq().len() == 0,
            final(self).map() == Map::<Seq<char>, V>::empty(),
    {
        self.entries = Vec::new();
    }
}

} // verus!
