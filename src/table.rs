//! A small association table keyed by strings, viewed as a finite map.

use vstd::prelude::*;

verus! {

/// Keys of an entry sequence are pairwise distinct.
pub open spec fn keys_distinct<V>(s: Seq<(String, V)>) -> bool {
    forall|i: int, j: int|
        0 <= i < s.len() && 0 <= j < s.len() && i != j ==> #[trigger] s[i].0@ != #[trigger] s[j].0@
}

/// The map that an entry sequence denotes (a later entry overrides an earlier one).
pub open spec fn to_map<V>(s: Seq<(String, V)>) -> Map<Seq<char>, V>
    decreases s.len(),
{
    if s.len() == 0 {
        Map::empty()
    } else {
        to_map(s.drop_last()).insert(s.last().0@, s.last().1)
    }
}

pub proof fn lemma_to_map_domain<V>(s: Seq<(String, V)>, k: Seq<char>)
    ensures
        to_map(s).contains_key(k) <==> exists|i: int| 0 <= i < s.len() && s[i].0@ == k,
    decreases s.len(),
{
    if s.len() > 0 {
        let d = s.drop_last();
        lemma_to_map_domain(d, k);
        if to_map(s).contains_key(k) && s.last().0@ != k {
            let i = choose|i: int| 0 <= i < d.len() && d[i].0@ == k;
            assert(s[i].0@ == k);
        }
        if exists|i: int| 0 <= i < s.len() && s[i].0@ == k {
            let i = choose|i: int| 0 <= i < s.len() && s[i].0@ == k;
            if i < s.len() - 1 {
                assert(d[i].0@ == k);
            }
        }
    }
}

pub proof fn lemma_to_map_value<V>(s: Seq<(String, V)>, i: int)
    requires
        keys_distinct(s),
        0 <= i < s.len(),
    ensures
        to_map(s).contains_key(s[i].0@),
        to_map(s)[s[i].0@] == s[i].1,
    decreases s.len(),
{
    let d = s.drop_last();
    if i < s.len() - 1 {
        assert(keys_distinct(d)) by {
            assert forall|a: int, b: int|
                0 <= a < d.len() && 0 <= b < d.len() && a != b implies #[trigger] d[a].0@
                != #[trigger] d[b].0@ by {
                assert(d[a] == s[a] && d[b] == s[b]);
            }
        }
        lemma_to_map_value(d, i);
        assert(s[i].0@ != s[s.len() - 1].0@);
    }
}

pub proof fn lemma_to_map_update<V>(s: Seq<(String, V)>, i: int, e: (String, V))
    requires
        keys_distinct(s),
        0 <= i < s.len(),
        e.0@ == s[i].0@,
    ensures
        to_map(s.update(i, e)) == to_map(s).insert(e.0@, e.1),
        keys_distinct(s.update(i, e)),
    decreases s.len(),
{
    let u = s.update(i, e);
    let d = s.drop_last();
    assert(keys_distinct(u)) by {
        assert forall|a: int, b: int|
            0 <= a < u.len() && 0 <= b < u.len() && a != b implies #[trigger] u[a].0@
            != #[trigger] u[b].0@ by {
            assert(u[a].0@ == s[a].0@ && u[b].0@ == s[b].0@);
        }
    }
    if i == s.len() - 1 {
        assert(u.drop_last() =~= d);
        assert(to_map(u) =~= to_map(s).insert(e.0@, e.1));
    } else {
        assert(keys_distinct(d)) by {
            assert forall|a: int, b: int|
                0 <= a < d.len() && 0 <= b < d.len() && a != b implies #[trigger] d[a].0@
                != #[trigger] d[b].0@ by {
                assert(d[a] == s[a] && d[b] == s[b]);
            }
        }
        assert(u.drop_last() =~= d.update(i, e));
        lemma_to_map_update(d, i, e);
        assert(s.last().0@ != e.0@);
        assert(u.last() == s.last());
        assert(to_map(u) =~= to_map(s).insert(e.0@, e.1));
    }
}

pub proof fn lemma_to_map_remove<V>(s: Seq<(String, V)>, i: int)
    requires
        keys_distinct(s),
        0 <= i < s.len(),
    ensures
        to_map(s.remove(i)) == to_map(s).remove(s[i].0@),
        keys_distinct(s.remove(i)),
    decreases s.len(),
{
    let r = s.remove(i);
    let d = s.drop_last();
    let k = s[i].0@;
    assert(keys_distinct(r)) by {
        assert forall|a: int, b: int|
            0 <= a < r.len() && 0 <= b < r.len() && a != b implies #[trigger] r[a].0@
            != #[trigger] r[b].0@ by {
            let sa = if a < i { a } else { a + 1 };
            let sb = if b < i { b } else { b + 1 };
            assert(r[a] == s[sa] && r[b] == s[sb]);
        }
    }
    assert(keys_distinct(d)) by {
        assert forall|a: int, b: int|
            0 <= a < d.len() && 0 <= b < d.len() && a != b implies #[trigger] d[a].0@
            != #[trigger] d[b].0@ by {
            assert(d[a] == s[a] && d[b] == s[b]);
        }
    }
    if i == s.len() - 1 {
        assert(r =~= d);
        lemma_to_map_domain(d, k);
        if to_map(d).contains_key(k) {
            let j = choose|j: int| 0 <= j < d.len() && d[j].0@ == k;
            assert(s[j].0@ == k);
        }
        assert(to_map(r) =~= to_map(s).remove(k));
    } else {
        assert(r.drop_last() =~= d.remove(i));
        assert(r.last() == s.last());
        lemma_to_map_remove(d, i);
        assert(d[i] == s[i]);
        assert(s.last().0@ != k);
        assert(to_map(r) =~= to_map(s).remove(k));
    }
}

/// A table from string keys to values, with distinct keys.
pub struct KeyedTable<V> {
    entries: Vec<(String, V)>,
}

impl<V> View for KeyedTable<V> {
    type V = Map<Seq<char>, V>;

    closed spec fn view(&self) -> Map<Seq<char>, V> {
        to_map(self.entries@)
    }
}

impl<V> KeyedTable<V> {
    pub closed spec fn wf(&self) -> bool {
        keys_distinct(self.entries@)
    }

    pub fn new() -> (r: Self)
        ensures
            r.wf(),
            r@ == Map::<Seq<char>, V>::empty(),
    {
        KeyedTable { entries: Vec::new() }
    }

    fn find(&self, key: &String) -> (r: Option<usize>)
        requires
            self.wf(),
        ensures
            match r {
                Some(i) => i < self.entries@.len() && self.entries@[i as int].0@ == key@,
                None => !self@.contains_key(key@),
            },
    {
        let mut i: usize = 0;
        while i < self.entries.len()
            invariant
                i <= self.entries@.len(),
                forall|j: int| 0 <= j < i ==> self.entries@[j].0@ != key@,
            decreases self.entries@.len() - i,
        {
            if self.entries[i].0 == *key {
                return Some(i);
            }
            i = i + 1;
        }
        proof {
            lemma_to_map_domain(self.entries@, key@);
        }
        None
    }

    pub fn contains(&self, key: &String) -> (r: bool)
        requires
            self.wf(),
        ensures
            r == self@.contains_key(key@),
    {
        match self.find(key) {
            Some(i) => {
                proof {
                    lemma_to_map_value(self.entries@, i as int);
                }
                true
            },
            None => false,
        }
    }

    pub fn get(&self, key: &String) -> (r: Option<&V>)
        requires
            self.wf(),
        ensures
            match r {
                Some(v) => self@.contains_key(key@) && self@[key@] == *v,
                None => !self@.contains_key(key@),
            },
    {
        match self.find(key) {
            Some(i) => {
                proof {
                    lemma_to_map_value(self.entries@, i as int);
                }
                Some(&self.entries[i].1)
            },
            None => None,
        }
    }

    pub fn insert(&mut self, key: String, value: V)
        requires
            old(self).wf(),
        ensures
            final(self).wf(),
            final(self)@ == old(self)@.insert(key@, value),
    {
        match self.find(&key) {
            Some(i) => {
                proof {
                    lemma_to_map_update(self.entries@, i as int, (key, value));
                }
                self.entries.set(i, (key, value));
            },
            None => {
                proof {
                    lemma_to_map_domain(self.entries@, key@);
                }
                let ghost s = self.entries@;
                self.entries.push((key, value));
                proof {
                    assert(self.entries@.drop_last() =~= s);
                    assert forall|a: int, b: int|
                        0 <= a < self.entries@.len() && 0 <= b < self.entries@.len() && a
                            != b implies #[trigger] self.entries@[a].0@
                        != #[trigger] self.entries@[b].0@ by {
                        if a < s.len() && b < s.len() {
                            assert(self.entries@[a] == s[a] && self.entries@[b] == s[b]);
                        } else if a < s.len() {
                            assert(self.entries@[a] == s[a]);
                        } else {
                            assert(self.entries@[b] == s[b]);
                        }
                    }
                }
            },
        }
    }

    /// Removes the entry of `key`, returning its value if there was one.
    pub fn remove(&mut self, key: &String) -> (r: Option<V>)
        requires
            old(self).wf(),
        ensures
            final(self).wf(),
            final(self)@ == old(self)@.remove(key@),
            r == old(self)@.get(key@),
    {
        match self.find(key) {
            Some(i) => {
                proof {
                    lemma_to_map_value(self.entries@, i as int);
                    lemma_to_map_remove(self.entries@, i as int);
                }
                let e = self.entries.remove(i);
                Some(e.1)
            },
            None => {
                proof {
                    assert(self@.remove(key@) =~= self@);
                }
                None
            },
        }
    }

    /// The keys of the table, each once.
    pub fn keys(&self) -> (r: Vec<String>)
        requires
            self.wf(),
        ensures
            forall|k: Seq<char>|
                self@.contains_key(k) <==> exists|i: int| 0 <= i < r@.len() && #[trigger] r@[i]@ == k,
            r@.len() == self@.len(),
    {
        let mut out: Vec<String> = Vec::new();
        let mut i: usize = 0;
        while i < self.entries.len()
            invariant
                i <= self.entries@.len(),
                out@.len() == i,
                forall|j: int| 0 <= j < i ==> #[trigger] out@[j]@ == self.entries@[j].0@,
            decreases self.entries@.len() - i,
        {
            out.push(self.entries[i].0.clone());
            i = i + 1;
        }
        proof {
            lemma_to_map_len(self.entries@);
            assert forall|k: Seq<char>|
                self@.contains_key(k) <==> exists|i: int| 0 <= i < out@.len() && #[trigger] out@[i]@ == k by {
                lemma_to_map_domain(self.entries@, k);
                if self@.contains_key(k) {
                    let j = choose|j: int| 0 <= j < self.entries@.len() && self.entries@[j].0@ == k;
                    assert(out@[j]@ == k);
                }
            }
        }
        out
    }

    /// Empties the table and returns every value it held.
    pub fn take_values(&mut self) -> (r: Vec<V>)
        requires
            old(self).wf(),
        ensures
            final(self).wf(),
            final(self)@ == Map::<Seq<char>, V>::empty(),
            r@.len() == old(self)@.len(),
            forall|k: Seq<char>| #[trigger] old(self)@.contains_key(k) ==> r@.contains(old(self)@[k]),
    {
        let ghost s = self.entries@;
        let mut out: Vec<V> = Vec::new();
        while self.entries.len() > 0
            invariant
                self.entries@.len() <= s.len(),
                self.entries@ == s.subrange(0, self.entries@.len() as int),
                out@.len() == s.len() - self.entries@.len(),
                forall|j: int|
                    self.entries@.len() <= j < s.len() ==> out@.contains(#[trigger] s[j].1),
            decreases self.entries@.len(),
        {
            let ghost before = out@;
            let ghost n = self.entries@.len();
            let e = self.entries.pop().unwrap();
            assert(e == s[n - 1]);
            out.push(e.1);
            proof {
                assert forall|j: int|
                    self.entries@.len() <= j < s.len() implies out@.contains(#[trigger] s[j].1) by {
                    if j == n - 1 {
                        assert(out@[out@.len() - 1] == s[j].1);
                    } else {
                        assert(before.contains(s[j].1));
                        let t = choose|t: int| 0 <= t < before.len() && before[t] == s[j].1;
                        assert(out@[t] == s[j].1);
                    }
                }
            }
        }
        proof {
            lemma_to_map_len(s);
            assert forall|k: Seq<char>| #[trigger] to_map(s).contains_key(k) implies out@.contains(
                to_map(s)[k],
            ) by {
                lemma_to_map_domain(s, k);
                let j = choose|j: int| 0 <= j < s.len() && s[j].0@ == k;
                lemma_to_map_value(s, j);
            }
            assert(self@ =~= Map::<Seq<char>, V>::empty());
        }
        out
    }

    pub fn len(&self) -> (r: usize)
        requires
            self.wf(),
        ensures
            r == self@.len(),
    {
        proof {
            lemma_to_map_len(self.entries@);
        }
        self.entries.len()
    }
}

pub proof fn lemma_to_map_len<V>(s: Seq<(String, V)>)
    requires
        keys_distinct(s),
    ensures
        to_map(s).dom().finite(),
        to_map(s).len() == s.len(),
    decreases s.len(),
{
    if s.len() > 0 {
        let d = s.drop_last();
        assert(keys_distinct(d)) by {
            assert forall|a: int, b: int|
                0 <= a < d.len() && 0 <= b < d.len() && a != b implies #[trigger] d[a].0@
                != #[trigger] d[b].0@ by {
                assert(d[a] == s[a] && d[b] == s[b]);
            }
        }
        lemma_to_map_len(d);
        lemma_to_map_domain(d, s.last().0@);
        if to_map(d).contains_key(s.last().0@) {
            let j = choose|j: int| 0 <= j < d.len() && d[j].0@ == s.last().0@;
            assert(s[j].0@ == s[s.len() - 1].0@);
        }
    }
}

} // verus!
