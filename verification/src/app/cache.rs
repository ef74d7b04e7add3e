//! Bounded caches keyed by text that forget their least recently used
//! entry first.

use vstd::prelude::*;

verus! {

/// The keys of a cache's entries are all different.
pub open spec fn keys_distinct<V>(s: Seq<(Seq<char>, V)>) -> bool {
    forall|i: int, j: int| 0 <= i < j < s.len() ==> #[trigger] s[i].0 != #[trigger] s[j].0
}

/// Whether some entry has the key.
pub open spec fn has_key<V>(s: Seq<(Seq<char>, V)>, k: Seq<char>) -> bool {
    exists|i: int| 0 <= i < s.len() && #[trigger] s[i].0 == k
}

/// The entries other than the one with the key, in order.
pub open spec fn remove_key<V>(s: Seq<(Seq<char>, V)>, k: Seq<char>) -> Seq<(Seq<char>, V)>
    decreases s.len(),
{
    if s.len() == 0 {
        s
    } else if s.last().0 == k {
        remove_key(s.drop_last(), k)
    } else {
        remove_key(s.drop_last(), k).push(s.last())
    }
}

/// The entries after adding a value under a key when a key already there
/// keeps its value and moves to the back, and a new key drops the oldest
/// entry when `max` are held.
pub open spec fn after_add<V>(s: Seq<(Seq<char>, V)>, k: Seq<char>, v: V, max: nat) -> Seq<
    (Seq<char>, V),
> {
    if has_key(s, k) {
        remove_key(s, k).push((k, value_of(s, k)->0))
    } else if s.len() >= max {
        s.skip(1).push((k, v))
    } else {
        s.push((k, v))
    }
}

/// The entries after putting a value under a key: any old entry for it goes,
/// the new one is the newest, and the oldest goes when more than `max`
/// would be held.
pub open spec fn after_put<V>(s: Seq<(Seq<char>, V)>, k: Seq<char>, v: V, max: nat) -> Seq<
    (Seq<char>, V),
> {
    let base = remove_key(s, k).push((k, v));
    if base.len() > max {
        base.skip(1)
    } else {
        base
    }
}

/// The value under the key.
pub open spec fn value_of<V>(s: Seq<(Seq<char>, V)>, k: Seq<char>) -> Option<V>
    decreases s.len(),
{
    if s.len() == 0 {
        None
    } else if s.last().0 == k {
        Some(s.last().1)
    } else {
        value_of(s.drop_last(), k)
    }
}

proof fn lemma_remove_key<V>(s: Seq<(Seq<char>, V)>, k: Seq<char>)
    requires
        keys_distinct(s),
    ensures
        keys_distinct(remove_key(s, k)),
        !has_key(remove_key(s, k), k),
        forall|x: Seq<char>| x != k ==> (has_key(remove_key(s, k), x) <==> has_key(s, x)),
        remove_key(s, k).len() == if has_key(s, k) {
            s.len() - 1
        } else {
            s.len() as int
        },
        forall|x: Seq<char>| x != k ==> value_of(remove_key(s, k), x) == value_of(s, x),
    decreases s.len(),
{
    if s.len() > 0 {
        let p = s.drop_last();
        assert(keys_distinct(p)) by {
            assert forall|i: int, j: int| 0 <= i < j < p.len() implies #[trigger] p[i].0 != #[trigger] p[j].0 by {
                assert(p[i] == s[i] && p[j] == s[j]);
            }
        }
        lemma_remove_key(p, k);
        let r = remove_key(s, k);
        let rp = remove_key(p, k);
        assert forall|x: Seq<char>| #[trigger] has_key(s, x) <==> (has_key(p, x) || s.last().0 == x) by {
            if has_key(s, x) {
                let i = choose|i: int| 0 <= i < s.len() && #[trigger] s[i].0 == x;
                if i < p.len() {
                    assert(p[i] == s[i]);
                }
            }
            if has_key(p, x) {
                let i = choose|i: int| 0 <= i < p.len() && #[trigger] p[i].0 == x;
                assert(s[i] == p[i]);
            }
            if s.last().0 == x {
                assert(s[s.len() - 1].0 == x);
            }
        }
        assert(!has_key(p, s.last().0)) by {
            if has_key(p, s.last().0) {
                let i = choose|i: int| 0 <= i < p.len() && #[trigger] p[i].0 == s.last().0;
                assert(s[i] == p[i]);
                assert(s[i].0 == s[s.len() - 1].0);
            }
        }
        assert forall|x: Seq<char>| x != k implies value_of(r, x) == value_of(s, x) by {
            assert(value_of(rp, x) == value_of(p, x));
            if s.last().0 == k {
                assert(r == rp);
            } else {
                assert(r.drop_last() =~= rp);
                assert(r.last() == s.last());
                assert(r.len() > 0);
            }
        }
        if s.last().0 != k {
            assert(r.drop_last() =~= rp);
            assert(r.last() == s.last());
            assert forall|x: Seq<char>| #[trigger] has_key(r, x) <==> (has_key(rp, x) || s.last().0 == x) by {
                if has_key(r, x) {
                    let i = choose|i: int| 0 <= i < r.len() && #[trigger] r[i].0 == x;
                    if i < rp.len() {
                        assert(rp[i] == r[i]);
                    }
                }
                if has_key(rp, x) {
                    let i = choose|i: int| 0 <= i < rp.len() && #[trigger] rp[i].0 == x;
                    assert(r[i] == rp[i]);
                }
                if s.last().0 == x {
                    assert(r[r.len() - 1].0 == x);
                }
            }
            assert forall|i: int, j: int| 0 <= i < j < r.len() implies #[trigger] r[i].0 != #[trigger] r[j].0 by {
                if j < rp.len() {
                    assert(r[i] == rp[i] && r[j] == rp[j]);
                } else {
                    assert(r[i] == rp[i]);
                    assert(has_key(rp, rp[i].0));
                    assert(has_key(p, rp[i].0));
                }
            }
        }
    }
}

/// A bounded cache: entries from the least to the most recently used.
pub struct Lru<V> {
    entries: Vec<(String, V)>,
}

impl<V> View for Lru<V> {
    type V = Seq<(Seq<char>, V)>;

    closed spec fn view(&self) -> Seq<(Seq<char>, V)> {
        self.entries@.map_values(|e: (String, V)| (e.0@, e.1))
    }
}

impl<V> Lru<V> {
    #[verifier::type_invariant]
    spec fn distinct_keys(&self) -> bool {
        keys_distinct(self@)
    }

    /// An empty cache.
    pub fn new() -> (c: Self)
        ensures
            c@ == Seq::<(Seq<char>, V)>::empty(),
    {
        let c = Lru { entries: Vec::new() };
        assert(c@ =~= Seq::<(Seq<char>, V)>::empty());
        c
    }

    /// The number of entries.
    pub fn len(&self) -> (n: usize)
        ensures
            n == self@.len(),
    {
        self.entries.len()
    }

    fn position(&self, key: &str) -> (r: Option<usize>)
        ensures
            r matches Some(i) ==> i < self@.len() && self@[i as int].0 == key@,
            r is None ==> !has_key(self@, key@),
    {
        let k = key.to_owned();
        let mut i: usize = 0;
        while i < self.entries.len()
            invariant
                i <= self@.len(),
                k@ == key@,
                self@.len() == self.entries@.len(),
                forall|j: int| 0 <= j < i ==> #[trigger] self@[j].0 != key@,
            decreases self@.len() - i,
        {
            assert(self@[i as int].0 == self.entries@[i as int].0@);
            if self.entries[i].0 == k {
                return Some(i);
            }
            i += 1;
        }
        None
    }

    /// Whether the key is cached.
    pub fn contains(&self, key: &str) -> (r: bool)
        ensures
            r == has_key(self@, key@),
    {
        self.position(key).is_some()
    }

    /// The value cached under the key.
    pub fn get(&self, key: &str) -> (r: Option<&V>)
        ensures
            r matches Some(v) ==> value_of(self@, key@) == Some(*v),
            r is None ==> value_of(self@, key@) is None,
    {
        proof {
            use_type_invariant(self);
        }
        match self.position(key) {
            Some(i) => {
                proof {
                    lemma_value_at(self@, i as int);
                }
                Some(&self.entries[i].1)
            },
            None => {
                proof {
                    lemma_value_missing(self@, key@);
                }
                None
            },
        }
    }

    /// The entries without the one under the key, and its value.
    fn take_key(&mut self, key: &str) -> (r: Option<V>)
        ensures
            final(self)@ == remove_key(old(self)@, key@),
            r matches Some(v) ==> value_of(old(self)@, key@) == Some(v),
            r is None ==> !has_key(old(self)@, key@),
    {
        proof {
            use_type_invariant(&*self);
            lemma_remove_key(self@, key@);
        }
        let ghost orig = self@;
        let k = key.to_owned();
        let mut rest: Vec<(String, V)> = Vec::new();
        std::mem::swap(&mut rest, &mut self.entries);
        let mut kept: Vec<(String, V)> = Vec::new();
        let mut found: Option<V> = None;
        let ghost rv = rest@.map_values(|e: (String, V)| (e.0@, e.1));
        assert(rv =~= orig);
        let total = rest.len();
        assert(total == orig.len());
        assert(orig.skip(0) =~= orig);
        assert(kept@.map_values(|e: (String, V)| (e.0@, e.1)) =~= remove_key(orig.take(0), key@));
        let mut i: usize = 0;
        while rest.len() > 0
            invariant
                k@ == key@,
                orig.len() <= usize::MAX,
                keys_distinct(orig),
                i + rest@.len() == orig.len(),
                rest@.map_values(|e: (String, V)| (e.0@, e.1)) == orig.skip(i as int),
                kept@.map_values(|e: (String, V)| (e.0@, e.1)) == remove_key(orig.take(i as int), key@),
                found matches Some(v) ==> value_of(orig, key@) == Some(v),
                found is None ==> forall|j: int| 0 <= j < i ==> #[trigger] orig[j].0 != key@,
            decreases rest@.len(),
        {
            let ghost before = rest@;
            let e = rest.remove(0);
            proof {
                let f = |e: (String, V)| (e.0@, e.1);
                assert(before.map_values(f)[0] == orig.skip(i as int)[0]);
                assert(orig.skip(i as int)[0] == orig[i as int]);
                assert(rest@ == before.remove(0));
                assert(rest@.map_values(f) =~= before.map_values(f).skip(1));
                assert(orig.skip(i as int).skip(1) =~= orig.skip(i + 1));
                assert(orig.take(i + 1).drop_last() =~= orig.take(i as int));
                assert(orig.take(i + 1).last() == orig[i as int]);
            }
            if e.0 == k {
                proof {
                    lemma_value_at(orig, i as int);
                }
                found = Some(e.1);
            } else {
                let ghost kb = kept@;
                kept.push(e);
                proof {
                    assert(kept@.map_values(|e: (String, V)| (e.0@, e.1)) =~= kb.map_values(
                        |e: (String, V)| (e.0@, e.1),
                    ).push(orig[i as int]));
                }
            }
            i += 1;
        }
        assert(orig.take(i as int) =~= orig);
        proof {
            if found is None {
                assert(!has_key(orig, key@)) by {
                    if has_key(orig, key@) {
                        let j = choose|j: int| 0 <= j < orig.len() && #[trigger] orig[j].0 == key@;
                    }
                }
            }
        }
        self.entries = kept;
        found
    }

    /// Moves the entry under the key, if there is one, to the most recently
    /// used end.
    pub fn touch(&mut self, key: &str)
        ensures
            final(self)@ == match value_of(old(self)@, key@) {
                Some(v) => remove_key(old(self)@, key@).push((key@, v)),
                None => old(self)@,
            },
    {
        proof {
            use_type_invariant(&*self);
            lemma_remove_key(self@, key@);
            lemma_value_has_key(self@, key@);
        }
        let ghost orig = self@;
        match self.take_key(key) {
            Some(v) => {
                self.push_new(key.to_owned(), v);
            },
            None => {
                proof {
                    lemma_remove_missing(orig, key@);
                }
            },
        }
    }

    fn push_new(&mut self, key: String, v: V)
        requires
            !has_key(old(self)@, key@),
        ensures
            final(self)@ == old(self)@.push((key@, v)),
    {
        proof {
            use_type_invariant(&*self);
        }
        let ghost orig = self@;
        let mut entries: Vec<(String, V)> = Vec::new();
        std::mem::swap(&mut entries, &mut self.entries);
        entries.push((key, v));
        proof {
            let nv = entries@.map_values(|e: (String, V)| (e.0@, e.1));
            assert(nv =~= orig.push((key@, v)));
            assert forall|i: int, j: int| 0 <= i < j < nv.len() implies #[trigger] nv[i].0 != #[trigger] nv[j].0 by {
                if j == nv.len() - 1 {
                    assert(nv[i] == orig[i]);
                    if nv[i].0 == key@ {
                        assert(has_key(orig, key@));
                    }
                } else {
                    assert(nv[i] == orig[i] && nv[j] == orig[j]);
                }
            }
        }
        self.entries = entries;
    }

    fn drop_oldest(&mut self)
        requires
            old(self)@.len() > 0,
        ensures
            final(self)@ == old(self)@.skip(1),
    {
        proof {
            use_type_invariant(&*self);
        }
        let ghost orig = self@;
        let mut entries: Vec<(String, V)> = Vec::new();
        std::mem::swap(&mut entries, &mut self.entries);
        entries.remove(0);
        proof {
            let nv = entries@.map_values(|e: (String, V)| (e.0@, e.1));
            assert(nv =~= orig.skip(1));
            assert forall|i: int, j: int| 0 <= i < j < nv.len() implies #[trigger] nv[i].0 != #[trigger] nv[j].0 by {
                assert(nv[i] == orig[i + 1] && nv[j] == orig[j + 1]);
            }
        }
        self.entries = entries;
    }

    /// Caches a value that is not cached yet, forgetting the least recently
    /// used entry first when the cache is full; a key already cached is only
    /// moved to the most recently used end, its value kept.
    pub fn add(&mut self, key: String, v: V, max: usize)
        requires
            max > 0,
            old(self)@.len() <= max,
        ensures
            final(self)@ == after_add(old(self)@, key@, v, max as nat),
            final(self)@.len() <= max,
            has_key(final(self)@, key@),
    {
        proof {
            use_type_invariant(&*self);
            lemma_value_has_key(self@, key@);
            lemma_remove_key(self@, key@);
        }
        if self.contains(key.as_str()) {
            self.touch(key.as_str());
            proof {
                assert(self@.last().0 == key@);
                assert(self@[self@.len() - 1].0 == key@);
            }
            return;
        }
        if self.entries.len() >= max {
            let ghost before = self@;
            self.drop_oldest();
            proof {
                lemma_skip_missing(before, key@);
            }
        }
        self.push_new(key, v);
        proof {
            assert(self@[self@.len() - 1].0 == key@);
        }
    }

    /// Caches a value under the key, replacing any value it had, as the most
    /// recently used entry; when that makes more than `max` entries, the
    /// least recently used goes.
    pub fn put(&mut self, key: String, v: V, max: usize)
        requires
            max > 0,
            old(self)@.len() <= max,
        ensures
            final(self)@ == after_put(old(self)@, key@, v, max as nat),
            final(self)@.len() <= max,
            value_of(final(self)@, key@) == Some(v),
    {
        proof {
            use_type_invariant(&*self);
            lemma_remove_key(self@, key@);
        }
        let _ = self.take_key(key.as_str());
        self.push_new(key, v);
        if self.entries.len() > max {
            let ghost before = self@;
            self.drop_oldest();
            proof {
                assert(before.skip(1).last() == before.last());
                lemma_value_last(before.skip(1));
            }
        } else {
            proof {
                lemma_value_last(self@);
            }
        }
    }
}

proof fn lemma_value_at<V>(s: Seq<(Seq<char>, V)>, i: int)
    requires
        keys_distinct(s),
        0 <= i < s.len(),
    ensures
        value_of(s, s[i].0) == Some(s[i].1),
    decreases s.len(),
{
    if i < s.len() - 1 {
        let p = s.drop_last();
        assert(keys_distinct(p)) by {
            assert forall|a: int, b: int| 0 <= a < b < p.len() implies #[trigger] p[a].0 != #[trigger] p[b].0 by {
                assert(p[a] == s[a] && p[b] == s[b]);
            }
        }
        assert(p[i] == s[i]);
        assert(s[i].0 != s[s.len() - 1].0);
        lemma_value_at(p, i);
    }
}

proof fn lemma_value_missing<V>(s: Seq<(Seq<char>, V)>, k: Seq<char>)
    requires
        !has_key(s, k),
    ensures
        value_of(s, k) is None,
    decreases s.len(),
{
    if s.len() > 0 {
        assert(s[s.len() - 1].0 != k);
        let p = s.drop_last();
        assert(!has_key(p, k)) by {
            if has_key(p, k) {
                let i = choose|i: int| 0 <= i < p.len() && #[trigger] p[i].0 == k;
                assert(s[i] == p[i]);
            }
        }
        lemma_value_missing(p, k);
    }
}

proof fn lemma_value_has_key<V>(s: Seq<(Seq<char>, V)>, k: Seq<char>)
    ensures
        value_of(s, k) is Some <==> has_key(s, k),
    decreases s.len(),
{
    if s.len() > 0 {
        let p = s.drop_last();
        lemma_value_has_key(p, k);
        if has_key(p, k) {
            let i = choose|i: int| 0 <= i < p.len() && #[trigger] p[i].0 == k;
            assert(s[i] == p[i]);
        }
        if has_key(s, k) && s.last().0 != k {
            let i = choose|i: int| 0 <= i < s.len() && #[trigger] s[i].0 == k;
            assert(i < s.len() - 1);
            assert(p[i] == s[i]);
        }
        if s.last().0 == k {
            assert(s[s.len() - 1].0 == k);
        }
    }
}

proof fn lemma_remove_missing<V>(s: Seq<(Seq<char>, V)>, k: Seq<char>)
    requires
        !has_key(s, k),
    ensures
        remove_key(s, k) == s,
    decreases s.len(),
{
    if s.len() > 0 {
        assert(s[s.len() - 1].0 != k);
        let p = s.drop_last();
        assert(!has_key(p, k)) by {
            if has_key(p, k) {
                let i = choose|i: int| 0 <= i < p.len() && #[trigger] p[i].0 == k;
                assert(s[i] == p[i]);
            }
        }
        lemma_remove_missing(p, k);
        assert(p.push(s.last()) =~= s);
    }
}

proof fn lemma_skip_missing<V>(s: Seq<(Seq<char>, V)>, k: Seq<char>)
    requires
        !has_key(s, k),
        s.len() > 0,
    ensures
        !has_key(s.skip(1), k),
{
    if has_key(s.skip(1), k) {
        let i = choose|i: int| 0 <= i < s.skip(1).len() && #[trigger] s.skip(1)[i].0 == k;
        assert(s[i + 1] == s.skip(1)[i]);
    }
}

proof fn lemma_value_last<V>(s: Seq<(Seq<char>, V)>)
    requires
        s.len() > 0,
    ensures
        value_of(s, s.last().0) == Some(s.last().1),
{
}

/// Adding to a cache within its bound keeps it within the bound, and what
/// was added is then there: so a cache that starts empty and is only added
/// to never holds more than its bound.
pub proof fn lemma_add_bounded<V>(s: Seq<(Seq<char>, V)>, k: Seq<char>, v: V, max: nat)
    requires
        max > 0,
        s.len() <= max,
        keys_distinct(s),
    ensures
        after_add(s, k, v, max).len() <= max,
        has_key(after_add(s, k, v, max), k),
{
    lemma_remove_key(s, k);
    lemma_value_has_key(s, k);
    let r = after_add(s, k, v, max);
    assert(r[r.len() - 1].0 == k);
}

} // verus!
