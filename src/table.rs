use vstd::prelude::*;

verus! {

/// True when some entry of `s` is stored under key `k`.
pub open spec fn has_key<T>(s: Seq<(String, T)>, k: Seq<char>) -> bool {
    exists|i: int| 0 <= i < s.len() && (#[trigger] s[i]).0@ == k
}

/// No two entries of `s` share a key.
pub open spec fn unique_keys<T>(s: Seq<(String, T)>) -> bool {
    forall|i: int, j: int|
        0 <= i < s.len() && 0 <= j < s.len() && i != j ==> (#[trigger] s[i]).0@ != (#[trigger] s[j]).0@
}

/// The value stored under `k` (meaningful when `has_key(s, k)`).
pub open spec fn value_at<T>(s: Seq<(String, T)>, k: Seq<char>) -> T {
    s[choose|i: int| 0 <= i < s.len() && (#[trigger] s[i]).0@ == k].1
}

/// The map that a sequence of entries with unique keys stands for.
pub open spec fn keyed<T>(s: Seq<(String, T)>) -> Map<Seq<char>, T> {
    Map::new(|k: Seq<char>| has_key(s, k), |k: Seq<char>| value_at(s, k))
}

/// The map obtained by inserting the entries of `s` one after another, so that
/// a later entry replaces an earlier one under the same key.
pub open spec fn folded<T>(s: Seq<(String, T)>) -> Map<Seq<char>, T>
    decreases s.len(),
{
    if s.len() == 0 {
        Map::empty()
    } else {
        folded(s.drop_last()).insert(s.last().0@, s.last().1)
    }
}

/// `m` lookup as an optional value.
pub open spec fn lookup<T>(m: Map<Seq<char>, T>, k: Seq<char>) -> Option<T> {
    if m.contains_key(k) {
        Some(m[k])
    } else {
        None
    }
}

/// `r` lists the values of `m` along the keys `ks`: each key of `m` exactly once.
pub open spec fn listed_by<T>(m: Map<Seq<char>, T>, ks: Seq<Seq<char>>, r: Seq<T>) -> bool {
    &&& ks.len() == r.len()
    &&& ks.no_duplicates()
    &&& forall|i: int| 0 <= i < ks.len() ==> m.contains_key(#[trigger] ks[i]) && r[i] == m[ks[i]]
    &&& forall|k: Seq<char>| #[trigger] m.contains_key(k) ==> ks.contains(k)
}

/// `r` holds every value of `m` once per key, in some order.
pub open spec fn lists<T>(m: Map<Seq<char>, T>, r: Seq<T>) -> bool {
    exists|ks: Seq<Seq<char>>| listed_by(m, ks, r)
}

/// A value whose copies are equal to it.
pub trait Record: Sized {
    fn duplicate(&self) -> (r: Self)
        ensures
            r == *self,
    ;
}

/// Within entries with unique keys, the value under the key of entry `i` is
/// that entry's value.
pub proof fn lemma_value_at<T>(s: Seq<(String, T)>, i: int)
    requires
        unique_keys(s),
        0 <= i < s.len(),
    ensures
        has_key(s, s[i].0@),
        value_at(s, s[i].0@) == s[i].1,
        keyed(s).contains_key(s[i].0@),
        keyed(s)[s[i].0@] == s[i].1,
{
    let k = s[i].0@;
    assert(has_key(s, k));
    let j = choose|j: int| 0 <= j < s.len() && (#[trigger] s[j]).0@ == k;
    assert(j == i);
}

/// Inserting entries one by one gives the keyed map when no key repeats.
pub proof fn lemma_folded_keyed<T>(s: Seq<(String, T)>)
    requires
        unique_keys(s),
    ensures
        folded(s) == keyed(s),
    decreases s.len(),
{
    if s.len() > 0 {
        let p = s.drop_last();
        assert(unique_keys(p)) by {
            assert forall|i: int, j: int|
                0 <= i < p.len() && 0 <= j < p.len() && i != j implies (#[trigger] p[i]).0@
                != (#[trigger] p[j]).0@ by {
                assert(p[i] == s[i] && p[j] == s[j]);
            }
        }
        lemma_folded_keyed(p);
        let last = s.len() - 1;
        lemma_value_at(s, last);
        assert forall|k: Seq<char>| #[trigger] keyed(s).contains_key(k) == folded(s).contains_key(k)
            by {
            if keyed(s).contains_key(k) && k != s[last].0@ {
                let i = choose|i: int| 0 <= i < s.len() && (#[trigger] s[i]).0@ == k;
                assert(p[i] == s[i]);
            }
            if folded(p).contains_key(k) {
                let i = choose|i: int| 0 <= i < p.len() && (#[trigger] p[i]).0@ == k;
                assert(p[i] == s[i]);
            }
        }
        assert forall|k: Seq<char>| #[trigger] keyed(s).contains_key(k) implies keyed(s)[k]
            == folded(s)[k] by {
            if k != s[last].0@ {
                let i = choose|i: int| 0 <= i < s.len() && (#[trigger] s[i]).0@ == k;
                assert(p[i] == s[i]);
                lemma_value_at(s, i);
                lemma_value_at(p, i);
            }
        }
        assert(folded(s) =~= keyed(s));
    }
}

/// Two listings of one map hold the same values.
pub proof fn lemma_lists_same_values<T>(m: Map<Seq<char>, T>, r1: Seq<T>, r2: Seq<T>)
    requires
        lists(m, r1),
        lists(m, r2),
    ensures
        r1.to_set() == r2.to_set(),
{
    let ks1 = choose|ks: Seq<Seq<char>>| listed_by(m, ks, r1);
    let ks2 = choose|ks: Seq<Seq<char>>| listed_by(m, ks, r2);
    assert forall|x: T| r1.to_set().contains(x) implies r2.to_set().contains(x) by {
        let i = choose|i: int| 0 <= i < r1.len() && r1[i] == x;
        assert(m.contains_key(ks1[i]));
        let j = choose|j: int| 0 <= j < ks2.len() && ks2[j] == ks1[i];
        assert(r2[j] == x);
    }
    assert forall|x: T| r2.to_set().contains(x) implies r1.to_set().contains(x) by {
        let j = choose|j: int| 0 <= j < r2.len() && r2[j] == x;
        assert(m.contains_key(ks2[j]));
        let i = choose|i: int| 0 <= i < ks1.len() && ks1[i] == ks2[j];
        assert(r1[i] == x);
    }
    assert(r1.to_set() =~= r2.to_set());
}

/// A collection of values keyed by strings, searched by linear scan.
pub struct Table<T> {
    entries: Vec<(String, T)>,
}

impl<T> View for Table<T> {
    type V = Map<Seq<char>, T>;

    closed spec fn view(&self) -> Map<Seq<char>, T> {
        keyed(self.entries@)
    }
}

impl<T> Table<T> {
    #[verifier::type_invariant]
    spec fn inv(&self) -> bool {
        unique_keys(self.entries@)
    }

    /// An empty table.
    pub fn new() -> (r: Self)
        ensures
            r@ == Map::<Seq<char>, T>::empty(),
    {
        let r = Table { entries: Vec::new() };
        assert(r@ =~= Map::<Seq<char>, T>::empty());
        r
    }

    /// The position of the entry stored under `key`, if any.
    fn position(&self, key: &String) -> (r: Option<usize>)
        ensures
            match r {
                Some(i) => i < self.entries@.len() && self.entries@[i as int].0@ == key@,
                None => !has_key(self.entries@, key@),
            },
    {
        let mut i: usize = 0;
        while i < self.entries.len()
            invariant
                i <= self.entries@.len(),
                forall|j: int| 0 <= j < i ==> (#[trigger] self.entries@[j]).0@ != key@,
            decreases self.entries@.len() - i,
        {
            if self.entries[i].0 == *key {
                return Some(i);
            }
            i = i + 1;
        }
        None
    }

    /// The value stored under `key`, if any.
    pub fn get(&self, key: &String) -> (r: Option<&T>)
        ensures
            match r {
                Some(v) => self@.contains_key(key@) && *v == self@[key@],
                None => !self@.contains_key(key@),
            },
    {
        proof {
            use_type_invariant(self);
        }
        match self.position(key) {
            Some(i) => {
                proof {
                    lemma_value_at(self.entries@, i as int);
                }
                Some(&self.entries[i].1)
            },
            None => None,
        }
    }

    /// Stores `value` under `key`, replacing any value already there.
    pub fn insert(&mut self, key: String, value: T)
        ensures
            final(self)@ == old(self)@.insert(key@, value),
    {
        proof {
            use_type_invariant(&*self);
        }
        let ghost k = key@;
        let ghost s0 = self.entries@;
        let found = self.position(&key);
        let mut entries: Vec<(String, T)> = Vec::new();
        std::mem::swap(&mut entries, &mut self.entries);
        match found {
            Some(i) => {
                entries.set(i, (key, value));
                proof {
                    let s1 = entries@;
                    assert(unique_keys(s1)) by {
                        assert forall|a: int, b: int|
                            0 <= a < s1.len() && 0 <= b < s1.len() && a != b implies (
                            #[trigger] s1[a]).0@ != (#[trigger] s1[b]).0@ by {
                            assert(s0[a].0@ != s0[b].0@);
                        }
                    }
                    lemma_value_at(s1, i as int);
                    assert forall|x: Seq<char>| #[trigger] keyed(s1).contains_key(x)
                        == keyed(s0).insert(k, value).contains_key(x) by {
                        if has_key(s1, x) {
                            let j = choose|j: int| 0 <= j < s1.len() && (#[trigger] s1[j]).0@ == x;
                            if j != i {
                                assert(s0[j] == s1[j]);
                            }
                        }
                        if has_key(s0, x) {
                            let j = choose|j: int| 0 <= j < s0.len() && (#[trigger] s0[j]).0@ == x;
                            if j != i {
                                assert(s0[j] == s1[j]);
                            }
                        }
                    }
                    assert forall|x: Seq<char>| #[trigger] keyed(s1).contains_key(x) && x != k
                        implies keyed(s1)[x] == keyed(s0)[x] by {
                        let j = choose|j: int| 0 <= j < s1.len() && (#[trigger] s1[j]).0@ == x;
                        assert(s0[j] == s1[j]);
                        lemma_value_at(s1, j);
                        lemma_value_at(s0, j);
                    }
                    assert(keyed(s1) =~= keyed(s0).insert(k, value));
                }
            },
            None => {
                entries.push((key, value));
                proof {
                    let s1 = entries@;
                    assert(s1 == s0.push((s1.last().0, value)));
                    assert(unique_keys(s1)) by {
                        assert forall|a: int, b: int|
                            0 <= a < s1.len() && 0 <= b < s1.len() && a != b implies (
                            #[trigger] s1[a]).0@ != (#[trigger] s1[b]).0@ by {
                            if a < s0.len() && b < s0.len() {
                                assert(s0[a].0@ != s0[b].0@);
                            } else if a < s0.len() {
                                assert(s0[a] == s1[a]);
                            } else {
                                assert(s0[b] == s1[b]);
                            }
                        }
                    }
                    lemma_value_at(s1, s0.len() as int);
                    assert forall|x: Seq<char>| #[trigger] keyed(s1).contains_key(x)
                        == keyed(s0).insert(k, value).contains_key(x) by {
                        if has_key(s0, x) {
                            let j = choose|j: int| 0 <= j < s0.len() && (#[trigger] s0[j]).0@ == x;
                            assert(s0[j] == s1[j]);
                        }
                        if has_key(s1, x) && x != k {
                            let j = choose|j: int| 0 <= j < s1.len() && (#[trigger] s1[j]).0@ == x;
                            assert(s0[j] == s1[j]);
                        }
                    }
                    assert forall|x: Seq<char>| #[trigger] keyed(s1).contains_key(x) && x != k
                        implies keyed(s1)[x] == keyed(s0)[x] by {
                        let j = choose|j: int| 0 <= j < s1.len() && (#[trigger] s1[j]).0@ == x;
                        assert(s0[j] == s1[j]);
                        lemma_value_at(s1, j);
                        lemma_value_at(s0, j);
                    }
                    assert(keyed(s1) =~= keyed(s0).insert(k, value));
                }
            },
        }
        self.entries = entries;
    }

    /// Removes the value stored under `key`; a key that is absent changes nothing.
    pub fn remove(&mut self, key: &String)
        ensures
            final(self)@ == old(self)@.remove(key@),
    {
        proof {
            use_type_invariant(&*self);
        }
        let ghost k = key@;
        let ghost s0 = self.entries@;
        let found = self.position(key);
        let mut entries: Vec<(String, T)> = Vec::new();
        std::mem::swap(&mut entries, &mut self.entries);
        match found {
            Some(i) => {
                let _ = entries.remove(i);
                proof {
                    let s1 = entries@;
                    assert(s1 == s0.remove(i as int));
                    assert forall|j: int| 0 <= j < s1.len() implies #[trigger] s1[j] == s0[
                        if j < i { j } else { j + 1 }] by {}
                    assert(unique_keys(s1)) by {
                        assert forall|a: int, b: int|
                            0 <= a < s1.len() && 0 <= b < s1.len() && a != b implies (
                            #[trigger] s1[a]).0@ != (#[trigger] s1[b]).0@ by {
                            let a0 = if a < i { a } else { a + 1 };
                            let b0 = if b < i { b } else { b + 1 };
                            assert(s0[a0].0@ != s0[b0].0@);
                        }
                    }
                    assert forall|x: Seq<char>| #[trigger] keyed(s1).contains_key(x)
                        == keyed(s0).remove(k).contains_key(x) by {
                        if has_key(s1, x) {
                            let j = choose|j: int| 0 <= j < s1.len() && (#[trigger] s1[j]).0@ == x;
                            let j0 = if j < i { j } else { j + 1 };
                            assert(s0[j0].0@ == x);
                            assert(s0[i as int].0@ != s0[j0].0@);
                        }
                        if has_key(s0, x) && x != k {
                            let j = choose|j: int| 0 <= j < s0.len() && (#[trigger] s0[j]).0@ == x;
                            let j1 = if j < i { j } else { j - 1 };
                            assert(s1[j1] == s0[j]);
                        }
                    }
                    assert forall|x: Seq<char>| #[trigger] keyed(s1).contains_key(x) implies keyed(
                        s1)[x] == keyed(s0)[x] by {
                        let j = choose|j: int| 0 <= j < s1.len() && (#[trigger] s1[j]).0@ == x;
                        let j0 = if j < i { j } else { j + 1 };
                        lemma_value_at(s1, j);
                        lemma_value_at(s0, j0);
                    }
                    assert(keyed(s1) =~= keyed(s0).remove(k));
                }
            },
            None => {
                assert(keyed(s0) =~= keyed(s0).remove(k));
            },
        }
        self.entries = entries;
    }
}

impl<T: Record> Table<T> {
    /// Copies of all stored values, one per key, in no particular order.
    pub fn values(&self) -> (r: Vec<T>)
        ensures
            lists(self@, r@),
    {
        proof {
            use_type_invariant(self);
        }
        let ghost s = self.entries@;
        let ghost ks = s.map_values(|e: (String, T)| e.0@);
        let mut r: Vec<T> = Vec::new();
        let mut i: usize = 0;
        while i < self.entries.len()
            invariant
                i <= s.len(),
                s == self.entries@,
                unique_keys(s),
                r@.len() == i,
                forall|j: int| 0 <= j < i ==> #[trigger] r@[j] == s[j].1,
            decreases s.len() - i,
        {
            r.push(self.entries[i].1.duplicate());
            i = i + 1;
        }
        proof {
            assert(ks.no_duplicates()) by {
                assert forall|a: int, b: int| 0 <= a < ks.len() && 0 <= b < ks.len() && a != b
                    implies ks[a] != ks[b] by {
                    assert(s[a].0@ != s[b].0@);
                }
            }
            assert forall|j: int| 0 <= j < ks.len() implies self@.contains_key(#[trigger] ks[j])
                && r@[j] == self@[ks[j]] by {
                lemma_value_at(s, j);
            }
            assert forall|x: Seq<char>| #[trigger] self@.contains_key(x) implies ks.contains(x) by {
                let j = choose|j: int| 0 <= j < s.len() && (#[trigger] s[j]).0@ == x;
                assert(ks[j] == x);
            }
            assert(listed_by(self@, ks, r@));
        }
        r
    }

    /// Copies of the stored entries, each with the key it is stored under.
    pub fn entries(&self) -> (r: Vec<(String, T)>)
        ensures
            unique_keys(r@),
            keyed(r@) == self@,
    {
        proof {
            use_type_invariant(self);
        }
        let ghost s = self.entries@;
        let mut r: Vec<(String, T)> = Vec::new();
        let mut i: usize = 0;
        while i < self.entries.len()
            invariant
                i <= s.len(),
                s == self.entries@,
                r@.len() == i,
                forall|j: int| 0 <= j < i ==> #[trigger] r@[j] == s[j],
            decreases s.len() - i,
        {
            let e = &self.entries[i];
            r.push((e.0.clone(), e.1.duplicate()));
            i = i + 1;
        }
        assert(r@ =~= s);
        r
    }

    /// A table filled from `entries` in order; a later entry replaces an
    /// earlier one under the same key.
    pub fn from_entries(entries: Vec<(String, T)>) -> (r: Self)
        ensures
            r@ == folded(entries@),
    {
        let mut r = Table::new();
        let mut i: usize = 0;
        while i < entries.len()
            invariant
                i <= entries@.len(),
                r@ == folded(entries@.take(i as int)),
            decreases entries@.len() - i,
        {
            let e = &entries[i];
            r.insert(e.0.clone(), e.1.duplicate());
            proof {
                let t = entries@.take(i as int + 1);
                assert(t.drop_last() =~= entries@.take(i as int));
                assert(t.last() == entries@[i as int]);
            }
            i = i + 1;
        }
        assert(entries@.take(entries@.len() as int) =~= entries@);
        r
    }
}

} // verus!
