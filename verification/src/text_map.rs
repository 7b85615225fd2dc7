//! A small map keyed by text.

use vstd::prelude::*;

verus! {

/// What a list of entries holds: the value last entered under each key.
pub open spec fn entry_map<V>(entries: Seq<(String, V)>) -> Map<Seq<char>, V>
    decreases entries.len(),
{
    if entries.len() == 0 {
        Map::empty()
    } else {
        entry_map(entries.drop_last()).insert(entries.last().0@, entries.last().1)
    }
}

/// Values by name. Entering a name again replaces its value.
pub struct TextMap<V> {
    entries: Vec<(String, V)>,
}

impl<V> View for TextMap<V> {
    type V = Map<Seq<char>, V>;

    closed spec fn view(&self) -> Map<Seq<char>, V> {
        entry_map(self.entries@)
    }
}

/// The entry at `j` counts when no later one has its key.
proof fn lemma_last_entry_counts<V>(s: Seq<(String, V)>, j: int)
    requires
        0 <= j < s.len(),
        forall|i: int| j < i < s.len() ==> (#[trigger] s[i]).0@ != s[j].0@,
    ensures
        entry_map(s).contains_key(s[j].0@),
        entry_map(s)[s[j].0@] == s[j].1,
    decreases s.len(),
{
    if j < s.len() - 1 {
        let t = s.drop_last();
        assert(t[j] == s[j]);
        assert forall|i: int| j < i < t.len() implies (#[trigger] t[i]).0@ != t[j].0@ by {
            assert(t[i] == s[i]);
        }
        lemma_last_entry_counts(t, j);
        assert(s[s.len() - 1].0@ != s[j].0@);
    }
}

/// A key that no entry has is not in the map.
proof fn lemma_absent<V>(s: Seq<(String, V)>, key: Seq<char>)
    requires
        forall|i: int| 0 <= i < s.len() ==> (#[trigger] s[i]).0@ != key,
    ensures
        !entry_map(s).contains_key(key),
    decreases s.len(),
{
    if s.len() > 0 {
        let t = s.drop_last();
        assert forall|i: int| 0 <= i < t.len() implies (#[trigger] t[i]).0@ != key by {
            assert(t[i] == s[i]);
        }
        lemma_absent(t, key);
        assert(s[s.len() - 1].0@ != key);
    }
}

/// Dropping one entry changes the map at most at its key.
proof fn lemma_drop_entry<V>(s: Seq<(String, V)>, j: int)
    requires
        0 <= j < s.len(),
    ensures
        entry_map(s.remove(j)).remove(s[j].0@) == entry_map(s).remove(s[j].0@),
    decreases s.len(),
{
    let key = s[j].0@;
    if j == s.len() - 1 {
        assert(s.remove(j) =~= s.drop_last());
        assert(entry_map(s).remove(key) =~= entry_map(s.drop_last()).remove(key));
    } else {
        let t = s.drop_last();
        assert(s.remove(j).drop_last() =~= t.remove(j));
        assert(s.remove(j).last() == s.last());
        lemma_drop_entry(t, j);
        assert(t[j] == s[j]);
        let before = entry_map(t);
        let after = entry_map(t.remove(j));
        let last = s.last();
        if last.0@ == key {
            assert(after.insert(key, last.1).remove(key) =~= after.remove(key));
            assert(before.insert(key, last.1).remove(key) =~= before.remove(key));
        } else {
            assert(after.insert(last.0@, last.1).remove(key) =~= after.remove(key).insert(
                last.0@,
                last.1,
            ));
            assert(before.insert(last.0@, last.1).remove(key) =~= before.remove(key).insert(
                last.0@,
                last.1,
            ));
        }
    }
}

impl<V> TextMap<V> {
    /// The map without entries.
    pub fn new() -> (r: Self)
        ensures
            r@ == Map::<Seq<char>, V>::empty(),
    {
        TextMap { entries: Vec::new() }
    }

    /// The value under `key`.
    pub fn get(&self, key: &str) -> (r: Option<&V>)
        ensures
            match r {
                Some(v) => self@.contains_key(key@) && *v == self@[key@],
                None => !self@.contains_key(key@),
            },
    {
        let wanted = key.to_owned();
        let mut i: usize = self.entries.len();
        while i > 0
            invariant
                wanted@ == key@,
                i <= self.entries@.len(),
                forall|j: int| i <= j < self.entries@.len() ==> (#[trigger] self.entries@[j]).0@
                    != key@,
            decreases i,
        {
            i = i - 1;
            if self.entries[i].0 == wanted {
                proof {
                    lemma_last_entry_counts(self.entries@, i as int);
                }
                return Some(&self.entries[i].1);
            }
        }
        proof {
            lemma_absent(self.entries@, key@);
        }
        None
    }

    /// Whether `key` has a value.
    pub fn contains_key(&self, key: &str) -> (r: bool)
        ensures
            r == self@.contains_key(key@),
    {
        self.get(key).is_some()
    }

    /// Take the value under `key` out of the map.
    pub fn remove(&mut self, key: &str) -> (r: Option<V>)
        ensures
            final(self)@ == old(self)@.remove(key@),
            match r {
                Some(v) => old(self)@.contains_key(key@) && v == old(self)@[key@],
                None => !old(self)@.contains_key(key@),
            },
    {
        let wanted = key.to_owned();
        let mut found: Option<V> = None;
        let mut i: usize = self.entries.len();
        let ghost start = self@;
        while i > 0
            invariant
                wanted@ == key@,
                start == old(self)@,
                i <= self.entries@.len(),
                entry_map(self.entries@).remove(key@) == start.remove(key@),
                forall|j: int| i <= j < self.entries@.len() ==> (#[trigger] self.entries@[j]).0@
                    != key@,
                found is None ==> entry_map(self.entries@) == start,
                found matches Some(v) ==> start.contains_key(key@) && start[key@] == v,
            decreases i,
        {
            i = i - 1;
            if self.entries[i].0 == wanted {
                proof {
                    if found is None {
                        lemma_last_entry_counts(self.entries@, i as int);
                    }
                    lemma_drop_entry(self.entries@, i as int);
                }
                let ghost before = self.entries@;
                let (_, value) = self.entries.remove(i);
                proof {
                    assert forall|j: int| i <= j < self.entries@.len() implies (
                    #[trigger] self.entries@[j]).0@ != key@ by {
                        assert(self.entries@[j] == before[j + 1]);
                    }
                }
                if found.is_none() {
                    found = Some(value);
                }
            }
        }
        proof {
            lemma_absent(self.entries@, key@);
            assert(entry_map(self.entries@) =~= entry_map(self.entries@).remove(key@));
        }
        found
    }

    /// Enter `value` under `key`, replacing what was there.
    pub fn insert(&mut self, key: String, value: V)
        ensures
            final(self)@ == old(self)@.insert(key@, value),
    {
        let ghost start = self@;
        let _replaced = self.remove(key.as_str());
        let ghost kept = self.entries@;
        let ghost name = key@;
        self.entries.push((key, value));
        proof {
            assert(self.entries@.drop_last() =~= kept);
            assert(self@ =~= start.insert(name, value));
        }
    }
}

} // verus!
