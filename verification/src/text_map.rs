//! A map from text keys to text values, kept as a list of entries whose keys
//! are all different.
use vstd::prelude::*;
use crate::text::{chars_of, same_chars};

verus! {

/// The map that a list of `(key, value)` entries stands for: each entry
/// binds its key, a later entry winning over an earlier one.
pub open spec fn entries_map(s: Seq<(Seq<char>, Seq<char>)>) -> Map<Seq<char>, Seq<char>>
    decreases s.len(),
{
    if s.len() == 0 {
        Map::empty()
    } else {
        entries_map(s.drop_last()).insert(s.last().0, s.last().1)
    }
}

/// Whether no two entries have the same key.
pub open spec fn keys_distinct(s: Seq<(Seq<char>, Seq<char>)>) -> bool {
    forall|i: int, j: int| 0 <= i < j < s.len() ==> (#[trigger] s[i]).0 != (#[trigger] s[j]).0
}

/// The text of a list of entries.
pub open spec fn entry_views(v: Seq<(String, String)>) -> Seq<(Seq<char>, Seq<char>)> {
    v.map_values(|p: (String, String)| (p.0@, p.1@))
}

/// A key is bound exactly when some entry has it, and then to that entry's
/// value, when no two entries share a key.
pub proof fn lemma_entries_map(s: Seq<(Seq<char>, Seq<char>)>)
    requires
        keys_distinct(s),
    ensures
        forall|i: int| 0 <= i < s.len() ==> entries_map(s).contains_key(#[trigger] s[i].0) && entries_map(s)[s[i].0] == s[i].1,
        forall|k: Seq<char>| entries_map(s).contains_key(k) ==> exists|i: int| 0 <= i < s.len() && (#[trigger] s[i]).0 == k,
        entries_map(s).dom().finite(),
        entries_map(s).dom().len() == s.len(),
    decreases s.len(),
{
    if s.len() > 0 {
        let t = s.drop_last();
        assert forall|i: int, j: int| 0 <= i < j < t.len() implies (#[trigger] t[i]).0 != (#[trigger] t[j]).0 by {
            assert(t[i] == s[i] && t[j] == s[j]);
        }
        lemma_entries_map(t);
        let last = s.last();
        assert(!entries_map(t).contains_key(last.0)) by {
            if entries_map(t).contains_key(last.0) {
                let i = choose|i: int| 0 <= i < t.len() && (#[trigger] t[i]).0 == last.0;
                assert(s[i] == t[i]);
                assert(s[s.len() - 1] == last);
            }
        }
        assert forall|i: int| 0 <= i < s.len() implies entries_map(s).contains_key(#[trigger] s[i].0) && entries_map(s)[s[i].0] == s[i].1 by {
            if i < s.len() - 1 {
                assert(s[i] == t[i]);
                assert(s[i].0 != last.0) by {
                    assert(s[s.len() - 1] == last);
                }
            }
        }
        assert forall|k: Seq<char>| entries_map(s).contains_key(k) implies exists|i: int| 0 <= i < s.len() && (#[trigger] s[i]).0 == k by {
            if k == last.0 {
                assert(s[s.len() - 1].0 == k);
            } else {
                let i = choose|i: int| 0 <= i < t.len() && (#[trigger] t[i]).0 == k;
                assert(s[i] == t[i]);
            }
        }
    }
}

/// Replacing the value of an entry gives the map with that key rebound.
pub proof fn lemma_entries_map_update(s: Seq<(Seq<char>, Seq<char>)>, j: int, v: Seq<char>)
    requires
        keys_distinct(s),
        0 <= j < s.len(),
    ensures
        entries_map(s.update(j, (s[j].0, v))) == entries_map(s).insert(s[j].0, v),
        keys_distinct(s.update(j, (s[j].0, v))),
    decreases s.len(),
{
    let u = s.update(j, (s[j].0, v));
    assert forall|a: int, b: int| 0 <= a < b < u.len() implies (#[trigger] u[a]).0 != (#[trigger] u[b]).0 by {
        assert(u[a].0 == s[a].0 && u[b].0 == s[b].0);
    }
    let t = s.drop_last();
    assert forall|a: int, b: int| 0 <= a < b < t.len() implies (#[trigger] t[a]).0 != (#[trigger] t[b]).0 by {
        assert(t[a] == s[a] && t[b] == s[b]);
    }
    if j == s.len() - 1 {
        assert(u.drop_last() =~= t);
        assert(entries_map(u) =~= entries_map(s).insert(s[j].0, v));
    } else {
        lemma_entries_map_update(t, j, v);
        assert(u.drop_last() =~= t.update(j, (t[j].0, v)));
        assert(s.last().0 != s[j].0) by {
            assert(s[s.len() - 1] == s.last());
        }
        assert(entries_map(u) =~= entries_map(s).insert(s[j].0, v));
    }
}

/// A map from text keys to text values.
pub struct TextMap {
    entries: Vec<(String, String)>,
}

impl View for TextMap {
    type V = Map<Seq<char>, Seq<char>>;

    /// The map's bindings.
    closed spec fn view(&self) -> Map<Seq<char>, Seq<char>> {
        entries_map(entry_views(self.entries@))
    }
}

impl TextMap {
    #[verifier::type_invariant]
    closed spec fn wf(&self) -> bool {
        keys_distinct(entry_views(self.entries@))
    }

    /// An empty map.
    pub fn new() -> (m: Self)
        ensures
            m@ == Map::<Seq<char>, Seq<char>>::empty(),
    {
        let m = TextMap { entries: Vec::new() };
        assert(entry_views(m.entries@) =~= Seq::<(Seq<char>, Seq<char>)>::empty());
        m
    }

    /// The position of the entry with key `key`, if any.
    fn position(&self, key: &str) -> (r: Option<usize>)
        ensures
            match r {
                Some(j) => j < self.entries@.len() && self.entries@[j as int].0@ == key@,
                None => forall|i: int| 0 <= i < self.entries@.len() ==> (#[trigger] self.entries@[i]).0@ != key@,
            },
    {
        let k = chars_of(key);
        let mut i: usize = 0;
        while i < self.entries.len()
            invariant
                i <= self.entries@.len(),
                k@ == key@,
                forall|a: int| 0 <= a < i ==> (#[trigger] self.entries@[a]).0@ != key@,
            decreases self.entries.len() - i,
        {
            let here = chars_of(self.entries[i].0.as_str());
            if same_chars(&here, &k) {
                return Some(i);
            }
            i += 1;
        }
        None
    }

    /// Binds `key` to `value`, replacing an earlier value of `key`.
    pub fn insert(&mut self, key: String, value: String)
        ensures
            final(self)@ == old(self)@.insert(key@, value@),
    {
        proof { use_type_invariant(&*self); }
        let ghost before = entry_views(self.entries@);
        match self.position(key.as_str()) {
            Some(j) => {
                proof {
                    assert(before[j as int].0 == key@);
                    lemma_entries_map_update(before, j as int, value@);
                }
                let ghost kv = key@;
                let ghost vv = value@;
                let mut entries = Vec::new();
                std::mem::swap(&mut entries, &mut self.entries);
                entries.set(j, (key, value));
                assert(entry_views(entries@) =~= before.update(j as int, (kv, vv)));
                self.entries = entries;
            },
            None => {
                let ghost kv = key@;
                let ghost vv = value@;
                let mut entries = Vec::new();
                std::mem::swap(&mut entries, &mut self.entries);
                entries.push((key, value));
                assert(entry_views(entries@) =~= before.push((kv, vv)));
                assert(entry_views(entries@).drop_last() =~= before);
                assert forall|a: int, b: int| 0 <= a < b < entry_views(entries@).len() implies
                    (#[trigger] entry_views(entries@)[a]).0 != (#[trigger] entry_views(entries@)[b]).0 by {
                    if b == before.len() {
                        assert(entry_views(entries@)[a] == before[a]);
                        assert(before[a].0 == entries@[a].0@);
                    } else {
                        assert(entry_views(entries@)[a] == before[a] && entry_views(entries@)[b] == before[b]);
                    }
                }
                self.entries = entries;
            },
        }
    }

    /// The value bound to `key`, if any.
    pub fn get(&self, key: &str) -> (r: Option<&String>)
        ensures
            match r {
                Some(v) => self@.contains_key(key@) && v@ == self@[key@],
                None => !self@.contains_key(key@),
            },
    {
        proof {
            use_type_invariant(self);
            lemma_entries_map(entry_views(self.entries@));
        }
        match self.position(key) {
            Some(j) => {
                assert(entry_views(self.entries@)[j as int] == (self.entries@[j as int].0@, self.entries@[j as int].1@));
                Some(&self.entries[j].1)
            },
            None => {
                proof {
                    if self@.contains_key(key@) {
                        let i = choose|i: int| 0 <= i < entry_views(self.entries@).len() && (#[trigger] entry_views(self.entries@)[i]).0 == key@;
                        assert(entry_views(self.entries@)[i].0 == self.entries@[i].0@);
                    }
                }
                None
            },
        }
    }

    /// The number of keys bound.
    pub fn len(&self) -> (n: usize)
        ensures
            n == self@.dom().len(),
    {
        proof {
            use_type_invariant(self);
            lemma_entries_map(entry_views(self.entries@));
        }
        self.entries.len()
    }
}

/// Reading a key back after binding it gives the value bound, and binding a
/// key leaves every other key as it was.
pub proof fn law_get_after_insert(m: Map<Seq<char>, Seq<char>>, k: Seq<char>, v: Seq<char>, other: Seq<char>)
    requires
        other != k,
    ensures
        m.insert(k, v).contains_key(k),
        m.insert(k, v)[k] == v,
        m.insert(k, v).contains_key(other) == m.contains_key(other),
        m.contains_key(other) ==> m.insert(k, v)[other] == m[other],
{
}

} // verus!
