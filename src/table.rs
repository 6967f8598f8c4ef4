use vstd::prelude::*;

verus! {

/// The keys of `s` are pairwise distinct.
pub open spec fn distinct_keys<V>(s: Seq<(String, V)>) -> bool {
    forall|i: int, j: int|
        0 <= i < s.len() && 0 <= j < s.len() && i != j ==> s[i].0@ != s[j].0@
}

/// Some entry of `s` has key `k`.
pub open spec fn has_key<V>(s: Seq<(String, V)>, k: Seq<char>) -> bool {
    exists|i: int| 0 <= i < s.len() && s[i].0@ == k
}

/// The map that a sequence of entries with distinct keys stands for.
pub open spec fn entries_map<V>(s: Seq<(String, V)>) -> Map<Seq<char>, V> {
    Map::new(
        |k: Seq<char>| has_key(s, k),
        |k: Seq<char>| s[choose|i: int| 0 <= i < s.len() && s[i].0@ == k].1,
    )
}

/// Entry `i` is what the map holds under its key.
pub proof fn lemma_entries_map_at<V>(s: Seq<(String, V)>, i: int)
    requires
        distinct_keys(s),
        0 <= i < s.len(),
    ensures
        entries_map(s).contains_key(s[i].0@),
        entries_map(s)[s[i].0@] == s[i].1,
{
    let k = s[i].0@;
    assert(has_key(s, k));
    let j = choose|j: int| 0 <= j < s.len() && s[j].0@ == k;
    assert(j == i);
}

/// Replacing the value of entry `i` replaces it in the map.
proof fn lemma_replace<V>(
    s: Seq<(String, V)>,
    t: Seq<(String, V)>,
    i: int,
    k: Seq<char>,
    value: V,
)
    requires
        distinct_keys(s),
        distinct_keys(t),
        0 <= i < s.len(),
        s.len() == t.len(),
        s[i].0@ == k,
        t[i].0@ == k,
        t[i].1 == value,
        forall|j: int| 0 <= j < s.len() && j != i ==> t[j] == s[j],
    ensures
        entries_map(t) == entries_map(s).insert(k, value),
{
    lemma_entries_map_at(t, i);
    assert forall|q: Seq<char>| #[trigger] has_key(t, q) <==> has_key(s, q) || q == k by {
        if has_key(s, q) {
            let j = choose|j: int| 0 <= j < s.len() && s[j].0@ == q;
            if j != i {
                assert(t[j].0@ == q);
            }
        }
        if has_key(t, q) {
            let j = choose|j: int| 0 <= j < t.len() && t[j].0@ == q;
            if j != i {
                assert(s[j].0@ == q);
            }
        }
    }
    assert forall|q: Seq<char>| has_key(t, q) && q != k implies entries_map(t)[q] == entries_map(
        s,
    )[q] by {
        let j = choose|j: int| 0 <= j < t.len() && t[j].0@ == q;
        lemma_entries_map_at(t, j);
        lemma_entries_map_at(s, j);
    }
    assert(entries_map(t) =~= entries_map(s).insert(k, value));
}

/// Appending an entry with a new key adds it to the map.
proof fn lemma_append<V>(s: Seq<(String, V)>, t: Seq<(String, V)>, k: Seq<char>, value: V)
    requires
        distinct_keys(s),
        distinct_keys(t),
        t.len() == s.len() + 1,
        t[s.len() as int].0@ == k,
        t[s.len() as int].1 == value,
        forall|j: int| 0 <= j < s.len() ==> t[j] == s[j],
    ensures
        entries_map(t) == entries_map(s).insert(k, value),
{
    lemma_entries_map_at(t, s.len() as int);
    assert forall|q: Seq<char>| #[trigger] has_key(t, q) <==> has_key(s, q) || q == k by {
        if has_key(s, q) {
            let j = choose|j: int| 0 <= j < s.len() && s[j].0@ == q;
            assert(t[j].0@ == q);
        }
        if has_key(t, q) && q != k {
            let j = choose|j: int| 0 <= j < t.len() && t[j].0@ == q;
            assert(s[j].0@ == q);
        }
    }
    assert forall|q: Seq<char>| has_key(t, q) && q != k implies entries_map(t)[q] == entries_map(
        s,
    )[q] by {
        let j = choose|j: int| 0 <= j < t.len() && t[j].0@ == q;
        lemma_entries_map_at(t, j);
        lemma_entries_map_at(s, j);
    }
    assert(entries_map(t) =~= entries_map(s).insert(k, value));
}

/// Removing entry `i` removes its key from the map.
proof fn lemma_removed<V>(s: Seq<(String, V)>, t: Seq<(String, V)>, i: int, k: Seq<char>)
    requires
        distinct_keys(s),
        0 <= i < s.len(),
        s[i].0@ == k,
        t == s.remove(i),
    ensures
        entries_map(t) == entries_map(s).remove(k),
{
    assert(distinct_keys(t));
    assert forall|q: Seq<char>| #[trigger] has_key(t, q) <==> has_key(s, q) && q != k by {
        if has_key(s, q) && q != k {
            let j = choose|j: int| 0 <= j < s.len() && s[j].0@ == q;
            if j < i {
                assert(t[j].0@ == q);
            } else {
                assert(j != i);
                assert(t[j - 1].0@ == q);
            }
        }
        if has_key(t, q) {
            let j = choose|j: int| 0 <= j < t.len() && t[j].0@ == q;
            if j < i {
                assert(s[j].0@ == q);
            } else {
                assert(s[j + 1].0@ == q);
            }
        }
    }
    assert forall|q: Seq<char>| has_key(t, q) implies entries_map(t)[q] == entries_map(s)[q] by {
        let j = choose|j: int| 0 <= j < t.len() && t[j].0@ == q;
        lemma_entries_map_at(t, j);
        if j < i {
            lemma_entries_map_at(s, j);
        } else {
            lemma_entries_map_at(s, j + 1);
        }
    }
    assert(entries_map(t) =~= entries_map(s).remove(k));
}

/// `names` lists each element of `keys` exactly once, and nothing else.
pub open spec fn lists_exactly(names: Seq<String>, keys: Set<Seq<char>>) -> bool {
    &&& forall|k: Seq<char>|
        keys.contains(k) <==> exists|i: int| 0 <= i < names.len() && #[trigger] names[i]@ == k
    &&& forall|i: int, j: int|
        0 <= i < names.len() && 0 <= j < names.len() && i != j ==> names[i]@ != names[j]@
}

/// A table from text keys to values, kept as a vector of entries with distinct keys.
#[derive(Clone, Debug)]
pub struct Table<V> {
    items: Vec<(String, V)>,
}

impl<V> View for Table<V> {
    type V = Map<Seq<char>, V>;

    closed spec fn view(&self) -> Map<Seq<char>, V> {
        entries_map(self.items@)
    }
}

impl<V> Table<V> {
    /// Well-formed: no key occurs twice.
    pub closed spec fn wf(&self) -> bool {
        distinct_keys(self.items@)
    }

    /// The entries, in no particular order.
    pub closed spec fn entries(&self) -> Seq<(String, V)> {
        self.items@
    }

    pub fn new() -> (r: Self)
        ensures
            r.wf(),
            r@ == Map::<Seq<char>, V>::empty(),
    {
        let r = Table { items: Vec::new() };
        assert(r@ =~= Map::<Seq<char>, V>::empty());
        r
    }

    fn find(&self, key: &str) -> (r: Option<usize>)
        ensures
            r matches Some(i) ==> i < self.items@.len() && self.items@[i as int].0@ == key@,
            r is None ==> !has_key(self.items@, key@),
    {
        let mut i: usize = 0;
        while i < self.items.len()
            invariant
                i <= self.items@.len(),
                forall|j: int| 0 <= j < i ==> self.items@[j].0@ != key@,
            decreases self.items@.len() - i,
        {
            if crate::text::same_text(self.items[i].0.as_str(), key) {
                return Some(i);
            }
            i += 1;
        }
        None
    }

    pub fn get(&self, key: &str) -> (r: Option<&V>)
        requires
            self.wf(),
        ensures
            r is Some <==> self@.contains_key(key@),
            r matches Some(v) ==> *v == self@[key@],
    {
        match self.find(key) {
            Some(i) => {
                proof {
                    lemma_entries_map_at(self.items@, i as int);
                }
                Some(&self.items[i].1)
            },
            None => None,
        }
    }

    pub fn insert(&mut self, key: String, value: V)
        requires
            old(self).wf(),
        ensures
            final(self).wf(),
            final(self)@ == old(self)@.insert(key@, value),
    {
        let ghost s = self.items@;
        let ghost k = key@;
        match self.find(key.as_str()) {
            Some(i) => {
                self.items.set(i, (key, value));
                let ghost t = self.items@;
                assert(t == s.update(i as int, (t[i as int].0, value)));
                assert(distinct_keys(t));
                proof {
                    lemma_replace(s, t, i as int, k, value);
                }
            },
            None => {
                self.items.push((key, value));
                let ghost t = self.items@;
                assert(distinct_keys(t));
                proof {
                    lemma_append(s, t, k, value);
                }
            },
        }
    }



    pub fn remove(&mut self, key: &str) -> (r: Option<V>)
        requires
            old(self).wf(),
        ensures
            final(self).wf(),
            r == (if old(self)@.contains_key(key@) {
                Some(old(self)@[key@])
            } else {
                None
            }),
            final(self)@ == old(self)@.remove(key@),
    {
        let ghost s = self.items@;
        match self.find(key) {
            Some(i) => {
                proof {
                    lemma_entries_map_at(s, i as int);
                }
                let (_, v) = self.items.remove(i);
                let ghost t = self.items@;
                assert(t == s.remove(i as int));
                assert(distinct_keys(t));
                proof {
                    lemma_removed(s, t, i as int, key@);
                }
                Some(v)
            },
            None => {
                assert(entries_map(s) =~= entries_map(s).remove(key@));
                None
            },
        }
    }


    /// Whether the table holds no entry.
    pub fn is_empty(&self) -> (r: bool)
        requires
            self.wf(),
        ensures
            r <==> self@.dom() == Set::<Seq<char>>::empty(),
    {
        if self.items.len() == 0 {
            assert(self@.dom() =~= Set::<Seq<char>>::empty());
            true
        } else {
            proof {
                lemma_entries_map_at(self.items@, 0);
            }
            assert(self@.dom().contains(self.items@[0].0@));
            false
        }
    }

    /// The keys, one per entry.
    pub fn keys(&self) -> (r: Vec<String>)
        requires
            self.wf(),
        ensures
            lists_exactly(r@, self@.dom()),
    {
        let mut r: Vec<String> = Vec::new();
        let mut i: usize = 0;
        while i < self.items.len()
            invariant
                self.wf(),
                i <= self.items@.len(),
                r@.len() == i,
                forall|j: int| 0 <= j < i ==> #[trigger] r@[j]@ == self.items@[j].0@,
            decreases self.items@.len() - i,
        {
            r.push(self.items[i].0.clone());
            i += 1;
        }
        assert forall|k: Seq<char>|
            self@.contains_key(k) <==> exists|i: int| 0 <= i < r@.len() && #[trigger] r@[i]@ == k by {
            if self@.contains_key(k) {
                let j = choose|j: int| 0 <= j < self.items@.len() && self.items@[j].0@ == k;
                assert(r@[j]@ == k);
            }
            if exists|i: int| 0 <= i < r@.len() && #[trigger] r@[i]@ == k {
                let j = choose|j: int| 0 <= j < r@.len() && #[trigger] r@[j]@ == k;
                assert(has_key(self.items@, k));
            }
        }
        r
    }

    /// The entries as a slice.
    pub fn as_slice(&self) -> (r: &[(String, V)])
        requires
            self.wf(),
        ensures
            r@ == self.entries(),
            distinct_keys(r@),
            self@ == entries_map(r@),
    {
        self.items.as_slice()
    }
}

} // verus!
