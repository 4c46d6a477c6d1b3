use vstd::prelude::*;

verus! {

/// A finite table from string keys to values, kept as a list of entries
/// in which no key occurs twice.
pub struct Table<V> {
    entries: Vec<(String, V)>,
}

/// No two entries of `s` share a key.
pub open spec fn keys_unique<V>(s: Seq<(String, V)>) -> bool {
    forall|i: int, j: int|
        0 <= i < s.len() && 0 <= j < s.len() && i != j ==> #[trigger] s[i].0@ != #[trigger] s[j].0@
}

/// Some entry of `s` has the key `k`.
pub open spec fn has_key<V>(s: Seq<(String, V)>, k: Seq<char>) -> bool {
    exists|i: int| 0 <= i < s.len() && #[trigger] s[i].0@ == k
}

/// The value of the entry of `s` with key `k`.
pub open spec fn value_of<V: View>(s: Seq<(String, V)>, k: Seq<char>) -> V::V {
    s[choose|i: int| 0 <= i < s.len() && #[trigger] s[i].0@ == k].1@
}

/// The map that a list of entries stands for.
pub open spec fn entries_map<V: View>(s: Seq<(String, V)>) -> Map<Seq<char>, V::V> {
    Map::new(|k: Seq<char>| has_key(s, k), |k: Seq<char>| value_of(s, k))
}

impl<V: View> View for Table<V> {
    type V = Map<Seq<char>, V::V>;

    closed spec fn view(&self) -> Map<Seq<char>, V::V> {
        entries_map(self.entries@)
    }
}

/// Where keys are unique, the entry at `i` gives the map's value at its key.
proof fn lemma_entry_in_map<V: View>(s: Seq<(String, V)>, i: int)
    requires
        keys_unique(s),
        0 <= i < s.len(),
    ensures
        entries_map(s).contains_key(s[i].0@),
        entries_map(s)[s[i].0@] == s[i].1@,
{
    let k = s[i].0@;
    assert(has_key(s, k));
    let j = choose|j: int| 0 <= j < s.len() && #[trigger] s[j].0@ == k;
    assert(s[j].0@ == k);
}

/// Removing the entry at `i` removes its key from the map.
proof fn lemma_remove_entry<V: View>(s: Seq<(String, V)>, i: int)
    requires
        keys_unique(s),
        0 <= i < s.len(),
    ensures
        keys_unique(s.remove(i)),
        entries_map(s.remove(i)) == entries_map(s).remove(s[i].0@),
{
    let t = s.remove(i);
    let k = s[i].0@;
    assert forall|a: int, b: int|
        0 <= a < t.len() && 0 <= b < t.len() && a != b implies #[trigger] t[a].0@ != #[trigger] t[b].0@ by {
        let a0 = if a < i { a } else { a + 1 };
        let b0 = if b < i { b } else { b + 1 };
        assert(t[a] == s[a0]);
        assert(t[b] == s[b0]);
    }
    assert forall|x: Seq<char>| #[trigger] entries_map(t).contains_key(x) == entries_map(s).remove(k).contains_key(x) by {
        if has_key(t, x) {
            let a = choose|a: int| 0 <= a < t.len() && #[trigger] t[a].0@ == x;
            let a0 = if a < i { a } else { a + 1 };
            assert(s[a0] == t[a]);
            assert(has_key(s, x));
        }
        if has_key(s, x) && x != k {
            let a0 = choose|a: int| 0 <= a < s.len() && #[trigger] s[a].0@ == x;
            let a = if a0 < i { a0 } else { a0 - 1 };
            assert(t[a] == s[a0]);
            assert(has_key(t, x));
        }
    }
    assert forall|x: Seq<char>| #[trigger] entries_map(t).contains_key(x) implies entries_map(t)[x] == entries_map(s)[x] by {
        let a = choose|a: int| 0 <= a < t.len() && #[trigger] t[a].0@ == x;
        let a0 = if a < i { a } else { a + 1 };
        assert(s[a0] == t[a]);
        lemma_entry_in_map(t, a);
        lemma_entry_in_map(s, a0);
    }
    assert(entries_map(t) =~= entries_map(s).remove(k));
}

/// Appending an entry whose key is new binds that key in the map.
proof fn lemma_push_entry<V: View>(s: Seq<(String, V)>, t: Seq<(String, V)>, k: Seq<char>)
    requires
        keys_unique(s),
        !entries_map(s).contains_key(k),
        t.len() == s.len() + 1,
        forall|j: int| 0 <= j < s.len() ==> #[trigger] t[j] == s[j],
        t[s.len() as int].0@ == k,
    ensures
        keys_unique(t),
        entries_map(t) == entries_map(s).insert(k, t[s.len() as int].1@),
{
    let n = s.len() as int;
    assert forall|a: int, b: int|
        0 <= a < t.len() && 0 <= b < t.len() && a != b implies #[trigger] t[a].0@ != #[trigger] t[b].0@ by {
        if a < n && b < n {
            assert(t[a] == s[a] && t[b] == s[b]);
        } else if a < n {
            assert(t[a] == s[a]);
            assert(has_key(s, t[a].0@));
        } else {
            assert(t[b] == s[b]);
            assert(has_key(s, t[b].0@));
        }
    }
    assert forall|x: Seq<char>| #[trigger] entries_map(t).contains_key(x) == entries_map(s).insert(k, t[n].1@).contains_key(x) by {
        if has_key(t, x) && x != k {
            let a = choose|a: int| 0 <= a < t.len() && #[trigger] t[a].0@ == x;
            assert(t[a] == s[a]);
            assert(has_key(s, x));
        }
        if has_key(s, x) {
            let a = choose|a: int| 0 <= a < s.len() && #[trigger] s[a].0@ == x;
            assert(t[a] == s[a]);
            assert(has_key(t, x));
        }
        if x == k {
            assert(t[n].0@ == x);
        }
    }
    assert forall|x: Seq<char>| #[trigger] entries_map(t).contains_key(x) implies entries_map(t)[x] == entries_map(s).insert(k, t[n].1@)[x] by {
        let a = choose|a: int| 0 <= a < t.len() && #[trigger] t[a].0@ == x;
        lemma_entry_in_map(t, a);
        if a < n {
            assert(t[a] == s[a]);
            lemma_entry_in_map(s, a);
        }
    }
    assert(entries_map(t) =~= entries_map(s).insert(k, t[n].1@));
}

/// Where keys are unique, the map has one key per entry.
proof fn lemma_len<V: View>(s: Seq<(String, V)>)
    requires
        keys_unique(s),
    ensures
        entries_map(s).dom().finite(),
        entries_map(s).len() == s.len(),
    decreases s.len(),
{
    if s.len() == 0 {
        assert(entries_map(s) =~= Map::<Seq<char>, V::V>::empty());
    } else {
        let i = s.len() - 1;
        lemma_remove_entry(s, i);
        lemma_len(s.remove(i));
        lemma_entry_in_map(s, i);
        let m = entries_map(s);
        let k = s[i].0@;
        assert(m.remove(k).dom() == m.dom().remove(k));
        assert(m.dom() =~= m.remove(k).dom().insert(k));
    }
}

/// The map that a list of (key, value) pairs builds when bound one after the
/// other, a later pair replacing an earlier one with the same key.
pub open spec fn pairs_map<V: View>(s: Seq<(String, V)>) -> Map<Seq<char>, V::V>
    decreases s.len(),
{
    if s.len() == 0 {
        Map::empty()
    } else {
        pairs_map(s.drop_last()).insert(s.last().0@, s.last().1@)
    }
}

/// Where keys are unique, binding the pairs one after the other gives the map
/// that the list stands for.
pub proof fn lemma_pairs_map_unique<V: View>(s: Seq<(String, V)>)
    requires
        keys_unique(s),
    ensures
        pairs_map(s) == entries_map(s),
    decreases s.len(),
{
    if s.len() == 0 {
        assert(entries_map(s) =~= Map::<Seq<char>, V::V>::empty());
    } else {
        let n = s.len() - 1;
        let p = s.drop_last();
        assert(keys_unique(p)) by {
            assert forall|a: int, b: int|
                0 <= a < p.len() && 0 <= b < p.len() && a != b implies #[trigger] p[a].0@ != #[trigger] p[b].0@ by {
                assert(p[a] == s[a] && p[b] == s[b]);
            }
        }
        lemma_pairs_map_unique(p);
        assert(!entries_map(p).contains_key(s[n].0@)) by {
            if has_key(p, s[n].0@) {
                let a = choose|a: int| 0 <= a < p.len() && #[trigger] p[a].0@ == s[n].0@;
                assert(p[a] == s[a]);
            }
        }
        lemma_push_entry(p, s, s[n].0@);
    }
}

impl<V> Table<V> {
    /// Keys are unique.
    #[verifier::type_invariant]
    spec fn wf(&self) -> bool {
        keys_unique(self.entries@)
    }
}

impl<V: View> Table<V> {
    /// An empty table.
    pub fn new() -> (r: Self)
        ensures
            r@ == Map::<Seq<char>, V::V>::empty(),
    {
        let r = Table { entries: Vec::new() };
        assert(r@ =~= Map::<Seq<char>, V::V>::empty());
        r
    }

    /// The position of the entry with key `k`, if there is one.
    fn find(&self, k: &String) -> (r: Option<usize>)
        ensures
            match r {
                Some(i) => i < self.entries@.len() && self.entries@[i as int].0@ == k@,
                None => !self@.contains_key(k@),
            },
    {
        proof { use_type_invariant(&*self); }
        let mut i: usize = 0;
        while i < self.entries.len()
            invariant
                i <= self.entries@.len(),
                forall|j: int| 0 <= j < i ==> #[trigger] self.entries@[j].0@ != k@,
            decreases self.entries@.len() - i,
        {
            if self.entries[i].0.eq(k) {
                return Some(i);
            }
            i = i + 1;
        }
        None
    }

    /// The number of entries.
    pub fn len(&self) -> (r: usize)
        ensures
            r == self@.len(),
    {
        proof { use_type_invariant(&*self); }
        proof { lemma_len(self.entries@); }
        self.entries.len()
    }

    /// Whether some entry has the key `k`.
    pub fn contains_key(&self, k: &String) -> (r: bool)
        ensures
            r == self@.contains_key(k@),
    {
        proof { use_type_invariant(&*self); }
        match self.find(k) {
            Some(i) => {
                proof { lemma_entry_in_map(self.entries@, i as int); }
                true
            },
            None => false,
        }
    }

    /// The value under the key `k`, if there is one.
    pub fn get(&self, k: &String) -> (r: Option<&V>)
        ensures
            match r {
                Some(v) => self@.contains_key(k@) && v@ == self@[k@],
                None => !self@.contains_key(k@),
            },
    {
        proof { use_type_invariant(&*self); }
        match self.find(k) {
            Some(i) => {
                proof { lemma_entry_in_map(self.entries@, i as int); }
                Some(&self.entries[i].1)
            },
            None => None,
        }
    }

    /// Takes out the entry with key `k`, handing back its value.
    pub fn remove(&mut self, k: &String) -> (r: Option<V>)
        ensures
            final(self)@ == old(self)@.remove(k@),
            match r {
                Some(v) => old(self)@.contains_key(k@) && v@ == old(self)@[k@],
                None => !old(self)@.contains_key(k@),
            },
    {
        proof { use_type_invariant(&*self); }
        match self.find(k) {
            Some(i) => {
                let mut entries = Vec::new();
                std::mem::swap(&mut entries, &mut self.entries);
                let ghost s0 = entries@;
                proof { lemma_entry_in_map(s0, i as int); }
                let (_, v) = entries.remove(i);
                proof { lemma_remove_entry(s0, i as int); }
                self.entries = entries;
                Some(v)
            },
            None => {
                assert(self@ =~= old(self)@.remove(k@));
                None
            },
        }
    }

    /// Binds the key `k` to `v`, replacing the value that `k` had, if any.
    pub fn insert(&mut self, k: String, v: V)
        ensures
            final(self)@ == old(self)@.insert(k@, v@),
    {
        proof { use_type_invariant(&*self); }
        self.remove(&k);
        proof { use_type_invariant(&*self); }
        let mut entries = Vec::new();
        std::mem::swap(&mut entries, &mut self.entries);
        let ghost s0 = entries@;
        let ghost kv = k@;
        entries.push((k, v));
        proof { lemma_push_entry(s0, entries@, kv); }
        self.entries = entries;
    }

    /// A table of the pairs bound one after the other; of two pairs with one
    /// key, the later one stays.
    pub fn from_entries(pairs: Vec<(String, V)>) -> (r: Self)
        ensures
            r@ == pairs_map(pairs@),
    {
        let mut r = Table::new();
        let mut rest = pairs;
        let ghost n = pairs@.len() as int;
        let ghost mut j: int = 0;
        assert(pairs@.subrange(0, 0) =~= Seq::<(String, V)>::empty());
        assert(rest@ =~= pairs@.subrange(0, n));
        while rest.len() > 0
            invariant
                0 <= j <= n,
                n == pairs@.len(),
                rest@ == pairs@.subrange(j, n),
                r@ == pairs_map(pairs@.subrange(0, j)),
            decreases rest@.len(),
        {
            let (k, v) = rest.remove(0);
            proof {
                assert(pairs@.subrange(0, j + 1).drop_last() =~= pairs@.subrange(0, j));
                assert(rest@ =~= pairs@.subrange(j + 1, n));
            }
            r.insert(k, v);
            proof { j = j + 1; }
        }
        assert(pairs@.subrange(0, n) =~= pairs@);
        r
    }

    /// The entries of the table, no key twice.
    pub fn into_entries(self) -> (r: Vec<(String, V)>)
        ensures
            keys_unique(r@),
            entries_map(r@) == self@,
    {
        proof { use_type_invariant(&self); }
        self.entries
    }
}

impl Table<String> {
    /// Every binding, as (key, value) pairs in no particular order.
    pub fn pairs(&self) -> (r: Vec<(String, String)>)
        ensures
            keys_unique(r@),
            entries_map(r@) == self@,
    {
        proof { use_type_invariant(self); }
        let mut r: Vec<(String, String)> = Vec::new();
        let mut i: usize = 0;
        while i < self.entries.len()
            invariant
                i <= self.entries@.len(),
                r@ == self.entries@.subrange(0, i as int),
            decreases self.entries@.len() - i,
        {
            let k = self.entries[i].0.clone();
            let v = self.entries[i].1.clone();
            r.push((k, v));
            i = i + 1;
            assert(r@ =~= self.entries@.subrange(0, i as int));
        }
        assert(r@ =~= self.entries@);
        r
    }
}

} // verus!
