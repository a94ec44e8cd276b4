//! An association map from `String` keys to values, viewed as a
//! `Map<Seq<char>, V>`.
//!
//! Entries are kept in insertion order; a later insertion of the same key
//! shadows the earlier one, so lookups scan from the end.  This keeps
//! `insert` trivially in step with `Map::insert` on the view.

use vstd::prelude::*;

verus! {

#[derive(Debug)]
pub struct StrMap<V> {
    entries: Vec<(String, V)>,
}

/// The map denoted by an entry sequence: later entries win.
pub open spec fn entries_map<V>(s: Seq<(String, V)>) -> Map<Seq<char>, V>
    decreases s.len(),
{
    if s.len() == 0 {
        Map::empty()
    } else {
        entries_map(s.drop_last()).insert(s.last().0@, s.last().1)
    }
}

/// The entry sequence with every binding of `key` removed.
pub open spec fn entries_without<V>(s: Seq<(String, V)>, key: Seq<char>) -> Seq<(String, V)>
    decreases s.len(),
{
    if s.len() == 0 {
        s
    } else if s.last().0@ == key {
        entries_without(s.drop_last(), key)
    } else {
        entries_without(s.drop_last(), key).push(s.last())
    }
}

proof fn lemma_entries_without<V>(s: Seq<(String, V)>, key: Seq<char>)
    ensures
        entries_map(entries_without(s, key)) == entries_map(s).remove(key),
    decreases s.len(),
{
    if s.len() == 0 {
        assert(entries_map(s).remove(key) =~= Map::empty());
    } else {
        lemma_entries_without(s.drop_last(), key);
        if s.last().0@ == key {
            assert(entries_map(s).remove(key) =~= entries_map(s.drop_last()).remove(key));
        } else {
            let t = entries_without(s.drop_last(), key).push(s.last());
            assert(t.drop_last() =~= entries_without(s.drop_last(), key));
            assert(t.last() == s.last());
            assert(entries_map(s).remove(key) =~= entries_map(s.drop_last()).remove(key).insert(
                s.last().0@,
                s.last().1,
            ));
        }
    }
}

impl<V> View for StrMap<V> {
    type V = Map<Seq<char>, V>;

    closed spec fn view(&self) -> Map<Seq<char>, V> {
        entries_map(self.entries@)
    }
}

impl<V> StrMap<V> {
    pub fn new() -> (r: Self)
        ensures
            r@ == Map::<Seq<char>, V>::empty(),
    {
        StrMap { entries: Vec::new() }
    }

    pub fn insert(&mut self, key: String, value: V)
        ensures
            final(self)@ == old(self)@.insert(key@, value),
    {
        self.entries.push((key, value));
        proof {
            assert(self.entries@.drop_last() =~= old(self).entries@);
        }
    }

    pub fn get(&self, key: &String) -> (r: Option<&V>)
        ensures
            match r {
                Some(v) => self@.contains_key(key@) && *v == self@[key@],
                None => !self@.contains_key(key@),
            },
    {
        let mut i: usize = self.entries.len();
        proof {
            assert(self.entries@.take(i as int) =~= self.entries@);
        }
        loop
            invariant
                i <= self.entries.len(),
                // the suffix beyond i holds no binding of key@
                entries_map(self.entries@).contains_key(key@) == entries_map(
                    self.entries@.take(i as int),
                ).contains_key(key@),
                entries_map(self.entries@).contains_key(key@) ==> entries_map(self.entries@)[key@]
                    == entries_map(self.entries@.take(i as int))[key@],
            decreases i,
        {
            if i == 0 {
                proof {
                    assert(self.entries@.take(0) =~= Seq::<(String, V)>::empty());
                }
                return None;
            }
            i = i - 1;
            proof {
                assert(self.entries@.take(i + 1).drop_last() =~= self.entries@.take(i as int));
                assert(self.entries@.take(i + 1).last() == self.entries@[i as int]);
            }
            if self.entries[i].0 == *key {
                return Some(&self.entries[i].1);
            }
        }
    }

    /// Whether `key` is bound.
    pub fn contains(&self, key: &String) -> (r: bool)
        ensures
            r == self@.contains_key(key@),
    {
        match self.get(key) {
            Some(_) => true,
            None => false,
        }
    }

    /// The entries backing this map, for callers that only display it.
    pub fn items(&self) -> (r: &Vec<(String, V)>)
        ensures
            entries_map(r@) == self@,
    {
        &self.entries
    }
}

impl<V: Copy> StrMap<V> {
    /// A copy of this map: same view, fresh storage.
    pub fn duplicate(&self) -> (r: Self)
        ensures
            r@ == self@,
    {
        let mut out: Vec<(String, V)> = Vec::new();
        let mut i: usize = 0;
        while i < self.entries.len()
            invariant
                i <= self.entries.len(),
                out@ =~= self.entries@.take(i as int),
            decreases self.entries.len() - i,
        {
            let key = self.entries[i].0.clone();
            let value = self.entries[i].1;
            out.push((key, value));
            i = i + 1;
        }
        proof {
            assert(out@ =~= self.entries@);
        }
        StrMap { entries: out }
    }

    /// Removes every binding of `key`, handing back the value it denoted.
    pub fn take(&mut self, key: &String) -> (r: Option<V>)
        ensures
            final(self)@ == old(self)@.remove(key@),
            r == if old(self)@.contains_key(key@) {
                Some(old(self)@[key@])
            } else {
                None::<V>
            },
    {
        let found: Option<V> = match self.get(key) {
            Some(v) => Some(*v),
            None => None,
        };
        if found.is_none() {
            proof {
                assert(old(self)@.remove(key@) =~= old(self)@);
            }
            return None;
        }
        let mut out: Vec<(String, V)> = Vec::new();
        let mut i: usize = 0;
        while i < self.entries.len()
            invariant
                i <= self.entries.len(),
                out@ =~= entries_without(self.entries@.take(i as int), key@),
            decreases self.entries.len() - i,
        {
            proof {
                assert(self.entries@.take(i + 1).drop_last() =~= self.entries@.take(i as int));
                assert(self.entries@.take(i + 1).last() == self.entries@[i as int]);
            }
            if !(self.entries[i].0 == *key) {
                let k = self.entries[i].0.clone();
                let v = self.entries[i].1;
                out.push((k, v));
            }
            i = i + 1;
        }
        proof {
            assert(self.entries@.take(self.entries@.len() as int) =~= self.entries@);
            lemma_entries_without(self.entries@, key@);
        }
        self.entries = out;
        found
    }
}

} // verus!
