//! A small map from text keys to text values, kept as a list of distinct keys.
use vstd::prelude::*;

verus! {

/// The map that a list of entries stands for: later entries win.
pub open spec fn map_of(s: Seq<(Seq<char>, Seq<char>)>) -> Map<Seq<char>, Seq<char>>
    decreases s.len(),
{
    if s.len() == 0 {
        Map::empty()
    } else {
        map_of(s.drop_last()).insert(s.last().0, s.last().1)
    }
}

/// No key occurs twice.
pub open spec fn distinct_keys(s: Seq<(Seq<char>, Seq<char>)>) -> bool {
    forall|i: int, j: int| 0 <= i < j < s.len() ==> #[trigger] s[i].0 != #[trigger] s[j].0
}

pub open spec fn entry_views(v: Seq<(String, String)>) -> Seq<(Seq<char>, Seq<char>)> {
    v.map_values(|e: (String, String)| (e.0@, e.1@))
}

/// Where `k` stands among the entries, if it is there.
pub open spec fn key_index(s: Seq<(Seq<char>, Seq<char>)>, k: Seq<char>) -> Option<int> {
    if exists|i: int| 0 <= i < s.len() && (#[trigger] s[i]).0 == k {
        Some(choose|i: int| 0 <= i < s.len() && (#[trigger] s[i]).0 == k)
    } else {
        None
    }
}

proof fn lemma_key_index_is(s: Seq<(Seq<char>, Seq<char>)>, k: Seq<char>, i: int)
    requires
        distinct_keys(s),
        0 <= i < s.len(),
        s[i].0 == k,
    ensures
        key_index(s, k) == Some(i),
{
    let j = choose|j: int| 0 <= j < s.len() && (#[trigger] s[j]).0 == k;
    assert(s[i].0 == k);
    if j < i {
        assert(s[j].0 != s[i].0);
    } else if j > i {
        assert(s[i].0 != s[j].0);
    }
}

proof fn lemma_map_of_lookup(s: Seq<(Seq<char>, Seq<char>)>, i: int)
    requires
        distinct_keys(s),
        0 <= i < s.len(),
    ensures
        map_of(s).contains_key(s[i].0),
        map_of(s)[s[i].0] == s[i].1,
    decreases s.len(),
{
    if i < s.len() - 1 {
        let t = s.drop_last();
        assert(t[i] == s[i]);
        assert(distinct_keys(t)) by {
            assert forall|a: int, b: int| 0 <= a < b < t.len() implies #[trigger] t[a].0
                != #[trigger] t[b].0 by {
                assert(t[a] == s[a] && t[b] == s[b]);
            }
        }
        lemma_map_of_lookup(t, i);
        assert(s[i].0 != s[s.len() - 1].0);
    }
}

proof fn lemma_map_of_absent(s: Seq<(Seq<char>, Seq<char>)>, k: Seq<char>)
    requires
        forall|i: int| 0 <= i < s.len() ==> (#[trigger] s[i]).0 != k,
    ensures
        !map_of(s).contains_key(k),
    decreases s.len(),
{
    if s.len() > 0 {
        let t = s.drop_last();
        assert forall|i: int| 0 <= i < t.len() implies (#[trigger] t[i]).0 != k by {
            assert(t[i] == s[i]);
        }
        lemma_map_of_absent(t, k);
        assert(s[s.len() - 1].0 != k);
    }
}

proof fn lemma_map_of_update(s: Seq<(Seq<char>, Seq<char>)>, i: int, v: Seq<char>)
    requires
        distinct_keys(s),
        0 <= i < s.len(),
    ensures
        map_of(s.update(i, (s[i].0, v))) == map_of(s).insert(s[i].0, v),
    decreases s.len(),
{
    let k = s[i].0;
    let u = s.update(i, (k, v));
    if i == s.len() - 1 {
        assert(u.drop_last() =~= s.drop_last());
        assert(map_of(u) =~= map_of(s).insert(k, v));
    } else {
        let t = s.drop_last();
        assert(distinct_keys(t)) by {
            assert forall|a: int, b: int| 0 <= a < b < t.len() implies #[trigger] t[a].0
                != #[trigger] t[b].0 by {
                assert(t[a] == s[a] && t[b] == s[b]);
            }
        }
        assert(t[i] == s[i]);
        lemma_map_of_update(t, i, v);
        assert(u.drop_last() =~= t.update(i, (k, v)));
        let last = s[s.len() - 1];
        assert(u.last() == last);
        assert(last.0 != k);
        assert(map_of(u) =~= map_of(s).insert(k, v));
    }
}

proof fn lemma_map_of_remove(s: Seq<(Seq<char>, Seq<char>)>, i: int)
    requires
        distinct_keys(s),
        0 <= i < s.len(),
    ensures
        map_of(s.remove(i)) == map_of(s).remove(s[i].0),
    decreases s.len(),
{
    let k = s[i].0;
    let t = s.drop_last();
    assert(distinct_keys(t)) by {
        assert forall|a: int, b: int| 0 <= a < b < t.len() implies #[trigger] t[a].0
            != #[trigger] t[b].0 by {
            assert(t[a] == s[a] && t[b] == s[b]);
        }
    }
    if i == s.len() - 1 {
        assert(s.remove(i) =~= t);
        assert forall|j: int| 0 <= j < t.len() implies (#[trigger] t[j]).0 != k by {
            assert(t[j] == s[j]);
        }
        lemma_map_of_absent(t, k);
        assert(map_of(s.remove(i)) =~= map_of(s).remove(k));
    } else {
        assert(t[i] == s[i]);
        lemma_map_of_remove(t, i);
        let u = s.remove(i);
        assert(u.drop_last() =~= t.remove(i));
        assert(u.last() == s.last());
        assert(s.last().0 != k);
        assert(map_of(u) =~= map_of(s).remove(k));
    }
}

/// Text keys to text values, each key at most once.
#[derive(Debug)]
pub struct TextMap {
    entries: Vec<(String, String)>,
}

impl View for TextMap {
    type V = Map<Seq<char>, Seq<char>>;

    closed spec fn view(&self) -> Map<Seq<char>, Seq<char>> {
        map_of(entry_views(self.entries@))
    }
}

impl TextMap {
    /// The entries hold no key twice.
    pub closed spec fn wf(&self) -> bool {
        distinct_keys(entry_views(self.entries@))
    }

    /// The entries, in the order their keys were first inserted.
    pub closed spec fn ordered(&self) -> Seq<(Seq<char>, Seq<char>)> {
        entry_views(self.entries@)
    }

    pub fn new() -> (m: TextMap)
        ensures
            m.wf(),
            m@ == Map::<Seq<char>, Seq<char>>::empty(),
            m.ordered() == Seq::<(Seq<char>, Seq<char>)>::empty(),
    {
        let m = TextMap { entries: Vec::new() };
        assert(entry_views(m.entries@) =~= Seq::<(Seq<char>, Seq<char>)>::empty());
        m
    }

    fn find(&self, key: &str) -> (r: Option<usize>)
        requires
            self.wf(),
        ensures
            match r {
                Some(i) => i < self.entries@.len() && self.entries@[i as int].0@ == key@,
                None => forall|i: int|
                    0 <= i < self.entries@.len() ==> (#[trigger] self.entries@[i]).0@ != key@,
            },
    {
        let wanted: String = key.to_owned();
        let mut i: usize = 0;
        while i < self.entries.len()
            invariant
                wanted@ == key@,
                i <= self.entries@.len(),
                forall|j: int| 0 <= j < i ==> (#[trigger] self.entries@[j]).0@ != key@,
            decreases self.entries.len() - i,
        {
            if self.entries[i].0 == wanted {
                return Some(i);
            }
            i = i + 1;
        }
        None
    }

    /// Sets `key` to `value`, replacing any earlier value.
    pub fn insert(&mut self, key: String, value: String)
        requires
            old(self).wf(),
        ensures
            final(self).wf(),
            final(self)@ == old(self)@.insert(key@, value@),
            final(self).ordered() == match key_index(old(self).ordered(), key@) {
                Some(i) => old(self).ordered().update(i, (key@, value@)),
                None => old(self).ordered().push((key@, value@)),
            },
    {
        let ghost ev = entry_views(self.entries@);
        match self.find(key.as_str()) {
            Some(i) => {
                proof {
                    assert(ev[i as int].0 == key@);
                    lemma_map_of_update(ev, i as int, value@);
                    lemma_key_index_is(ev, key@, i as int);
                }
                let entry = (key, value);
                self.entries.set(i, entry);
                assert(entry_views(self.entries@) =~= ev.update(i as int, (ev[i as int].0, value@)));
                assert(distinct_keys(entry_views(self.entries@))) by {
                    let nv = entry_views(self.entries@);
                    assert forall|a: int, b: int| 0 <= a < b < nv.len() implies #[trigger] nv[a].0
                        != #[trigger] nv[b].0 by {
                        assert(nv[a].0 == ev[a].0 && nv[b].0 == ev[b].0);
                    }
                }
            },
            None => {
                proof {
                    assert(!exists|j: int| 0 <= j < ev.len() && (#[trigger] ev[j]).0 == key@) by {
                        assert forall|j: int| 0 <= j < ev.len() implies (#[trigger] ev[j]).0 != key@ by {
                            assert(ev[j].0 == self.entries@[j].0@);
                        }
                    }
                }
                let ghost kv = key@;
                let ghost vv = value@;
                self.entries.push((key, value));
                let ghost nv = entry_views(self.entries@);
                assert(nv =~= ev.push((kv, vv)));
                assert(nv.drop_last() =~= ev);
                assert(distinct_keys(nv)) by {
                    assert forall|a: int, b: int| 0 <= a < b < nv.len() implies #[trigger] nv[a].0
                        != #[trigger] nv[b].0 by {
                        if b == nv.len() - 1 {
                            assert(nv[a] == ev[a]);
                            assert(self.entries@[a] == old(self).entries@[a]);
                        } else {
                            assert(nv[a] == ev[a] && nv[b] == ev[b]);
                        }
                    }
                }
            },
        }
    }

    /// Removes `key` and its value, if present.
    pub fn remove(&mut self, key: &str)
        requires
            old(self).wf(),
        ensures
            final(self).wf(),
            final(self)@ == old(self)@.remove(key@),
            final(self).ordered() == match key_index(old(self).ordered(), key@) {
                Some(i) => old(self).ordered().remove(i),
                None => old(self).ordered(),
            },
    {
        let ghost ev = entry_views(self.entries@);
        match self.find(key) {
            Some(i) => {
                proof {
                    lemma_map_of_remove(ev, i as int);
                    assert(ev[i as int].0 == key@);
                    lemma_key_index_is(ev, key@, i as int);
                }
                self.entries.remove(i);
                assert(entry_views(self.entries@) =~= ev.remove(i as int));
                assert(distinct_keys(entry_views(self.entries@))) by {
                    let nv = entry_views(self.entries@);
                    assert forall|a: int, b: int| 0 <= a < b < nv.len() implies #[trigger] nv[a].0
                        != #[trigger] nv[b].0 by {
                        if a < i {
                            assert(nv[a] == ev[a]);
                        } else {
                            assert(nv[a] == ev[a + 1]);
                        }
                        if b < i {
                            assert(nv[b] == ev[b]);
                        } else {
                            assert(nv[b] == ev[b + 1]);
                        }
                    }
                }
            },
            None => {
                proof {
                    assert forall|j: int| 0 <= j < ev.len() implies (#[trigger] ev[j]).0
                        != key@ by {
                        assert(ev[j].0 == self.entries@[j].0@);
                    }
                    lemma_map_of_absent(ev, key@);
                }
                assert(self@ =~= old(self)@.remove(key@));
                assert(key_index(ev, key@) is None);
            },
        }
    }

    /// The value stored under `key`.
    pub fn get(&self, key: &str) -> (r: Option<String>)
        requires
            self.wf(),
        ensures
            match r {
                Some(v) => self@.contains_key(key@) && self@[key@] == v@,
                None => !self@.contains_key(key@),
            },
    {
        let ghost ev = entry_views(self.entries@);
        match self.find(key) {
            Some(i) => {
                proof {
                    lemma_map_of_lookup(ev, i as int);
                }
                Some(self.entries[i].1.clone())
            },
            None => {
                proof {
                    assert forall|j: int| 0 <= j < ev.len() implies (#[trigger] ev[j]).0
                        != key@ by {
                        assert(ev[j].0 == self.entries@[j].0@);
                    }
                    lemma_map_of_absent(ev, key@);
                }
                None
            },
        }
    }

    /// The entries in the order their keys were first inserted.
    pub fn entries(&self) -> (r: &Vec<(String, String)>)
        ensures
            map_of(entry_views(r@)) == self@,
            entry_views(r@) == self.ordered(),
    {
        &self.entries
    }
}

} // verus!
