//! A small name-keyed map used throughout the crate for parameter sets and
//! registries. Entries keep their insertion order, which makes diagnostics
//! deterministic; keys are unique by their character sequences.
use vstd::prelude::*;

verus! {

/// Executable equality of string slices, specified over their views.
pub fn str_eq(a: &str, b: &str) -> (r: bool)
    ensures
        r == (a@ == b@),
{
    let alen = a.unicode_len();
    let blen = b.unicode_len();
    if alen != blen {
        return false;
    }
    let mut i: usize = 0;
    while i < alen
        invariant
            alen == a@.len(),
            alen == b@.len(),
            i <= alen,
            forall|j: int| 0 <= j < i ==> a@[j] == b@[j],
        decreases alen - i,
    {
        if a.get_char(i) != b.get_char(i) {
            return false;
        }
        i = i + 1;
    }
    proof {
        assert(a@ =~= b@);
    }
    true
}

/// A map from `String` keys to values, backed by a vector of entries in
/// insertion order. Keys are unique (compared by character sequence).
#[derive(Debug)]
pub struct StrMap<V> {
    pub entries: Vec<(String, V)>,
}

impl<V> View for StrMap<V> {
    type V = Seq<(Seq<char>, V)>;

    open spec fn view(&self) -> Seq<(Seq<char>, V)> {
        Seq::new(self.entries@.len(), |i: int| (self.entries@[i].0@, self.entries@[i].1))
    }
}

pub open spec fn entries_contain_key<V>(s: Seq<(Seq<char>, V)>, k: Seq<char>) -> bool {
    exists|i: int| 0 <= i < s.len() && s[i].0 == k
}

/// The index of the entry holding key `k`, if any.
pub open spec fn entry_index_of<V>(s: Seq<(Seq<char>, V)>, k: Seq<char>) -> int {
    choose|i: int| 0 <= i < s.len() && s[i].0 == k
}

pub open spec fn entries_value_of<V>(s: Seq<(Seq<char>, V)>, k: Seq<char>) -> V {
    s[entry_index_of(s, k)].1
}

/// Entry keys are pairwise distinct.
pub open spec fn entries_wf<V>(s: Seq<(Seq<char>, V)>) -> bool {
    forall|i: int, j: int| 0 <= i < j < s.len() ==> s[i].0 != s[j].0
}

impl<V> StrMap<V> {
    /// The keys of the map as a mathematical map to values.
    pub open spec fn as_map(&self) -> Map<Seq<char>, V> {
        Map::new(|k: Seq<char>| entries_contain_key(self@, k), |k: Seq<char>| entries_value_of(self@, k))
    }

    pub open spec fn wf(&self) -> bool {
        entries_wf(self@)
    }

    pub open spec fn contains_key_spec(&self, k: Seq<char>) -> bool {
        entries_contain_key(self@, k)
    }

    pub fn new() -> (r: Self)
        ensures
            r@ == Seq::<(Seq<char>, V)>::empty(),
            r.wf(),
    {
        let r = StrMap { entries: Vec::new() };
        proof {
            assert(r@ =~= Seq::<(Seq<char>, V)>::empty());
        }
        r
    }

    pub fn len(&self) -> (n: usize)
        ensures
            n == self@.len(),
    {
        self.entries.len()
    }

    /// The index of the entry with key `k`, searching from the front.
    fn find_index(&self, k: &str) -> (r: Option<usize>)
        ensures
            match r {
                Some(i) => i < self@.len() && self@[i as int].0 == k@,
                None => !entries_contain_key(self@, k@),
            },
    {
        let n = self.entries.len();
        let mut i: usize = 0;
        while i < n
            invariant
                n == self@.len(),
                i <= n,
                forall|j: int| 0 <= j < i ==> self@[j].0 != k@,
            decreases n - i,
        {
            if str_eq(self.entries[i].0.as_str(), k) {
                return Some(i);
            }
            i = i + 1;
        }
        None
    }

    pub fn contains_key(&self, k: &str) -> (r: bool)
        ensures
            r == self.contains_key_spec(k@),
    {
        self.find_index(k).is_some()
    }

    pub fn get<'a>(&'a self, k: &str) -> (r: Option<&'a V>)
        requires
            self.wf(),
        ensures
            match r {
                Some(v) => self.contains_key_spec(k@) && *v == self.as_map()[k@],
                None => !self.contains_key_spec(k@),
            },
    {
        match self.find_index(k) {
            Some(i) => {
                proof {
                    let wit = entry_index_of(self@, k@);
                    assert(0 <= wit < self@.len() && self@[wit].0 == k@);
                    assert(wit == i as int);
                }
                Some(&self.entries[i].1)
            },
            None => None,
        }
    }

    /// Insert or replace: an existing key keeps its position, a new key is
    /// appended at the back.
    pub fn insert(&mut self, k: String, v: V)
        requires
            old(self).wf(),
        ensures
            final(self).wf(),
            final(self).as_map() == old(self).as_map().insert(k@, v),
            final(self).contains_key_spec(k@),
            forall|q: Seq<char>|
                #![auto]
                final(self).contains_key_spec(q) <==> (old(self).contains_key_spec(q) || q == k@),
            old(self).contains_key_spec(k@) ==> final(self)@ == old(self)@.update(
                entry_index_of(old(self)@, k@),
                (k@, v),
            ),
            !old(self).contains_key_spec(k@) ==> final(self)@ == old(self)@.push((k@, v)),
    {
        let ghost kk = k@;
        let ghost old_entries = self@;
        match self.find_index(k.as_str()) {
            Some(i) => {
                self.entries.set(i, (k, v));
                proof {
                    let wit = entry_index_of(old_entries, k@);
                    assert(0 <= wit < old_entries.len() && old_entries[wit].0 == k@);
                    assert(wit == i as int);
                    assert(final(self)@ =~= old_entries.update(i as int, (k@, v)));
                    lemma_insert_update(old_entries, i as int, k@, v);
                    assert(final(self).as_map() =~= Map::new(
                        |q: Seq<char>| entries_contain_key(old_entries, q),
                        |q: Seq<char>| entries_value_of(old_entries, q),
                    ).insert(k@, v));
                }
            },
            None => {
                self.entries.push((k, v));
                proof {
                    assert(final(self)@ =~= old_entries.push((k@, v)));
                    lemma_insert_push(old_entries, k@, v);
                    assert(final(self).as_map() =~= Map::new(
                        |q: Seq<char>| entries_contain_key(old_entries, q),
                        |q: Seq<char>| entries_value_of(old_entries, q),
                    ).insert(k@, v));
                }
            },
        }
        proof {
            assert forall|q: Seq<char>|
                self.contains_key_spec(q) <==> (entries_contain_key(old_entries, q) || q
                    == kk) by {
                assert(self.as_map().dom().contains(q) == self.contains_key_spec(q));
                assert(Map::new(
                    |p: Seq<char>| entries_contain_key(old_entries, p),
                    |p: Seq<char>| entries_value_of(old_entries, p),
                ).dom().contains(q) == entries_contain_key(old_entries, q));
            }
            assert(self.as_map().dom().contains(kk) == self.contains_key_spec(kk));
            assert(self.contains_key_spec(kk));
        }
    }

    /// Decides well-formedness: no two entries share a key. Maps built by
    /// `insert` alone are well-formed by construction; this is for maps
    /// assembled field by field.
    pub fn check_wf(&self) -> (r: bool)
        ensures
            r == self.wf(),
    {
        let n = self.entries.len();
        let mut i: usize = 0;
        while i < n
            invariant
                i <= n,
                n == self@.len(),
                forall|p: int, q: int| 0 <= p < q < self@.len() && p < i ==> self@[p].0 != self@[q].0,
            decreases n - i,
        {
            let mut j: usize = i + 1;
            while j < n
                invariant
                    i < j <= n,
                    n == self@.len(),
                    forall|q: int| i < q < j ==> self@[i as int].0 != self@[q].0,
                decreases n - j,
            {
                if str_eq(self.entries[i].0.as_str(), self.entries[j].0.as_str()) {
                    proof {
                        assert(self@[i as int].0 == self@[j as int].0);
                    }
                    return false;
                }
                j = j + 1;
            }
            i = i + 1;
        }
        true
    }

    /// The keys of the map, in entry order.
    pub fn keys(&self) -> (r: Vec<String>)
        ensures
            r@.len() == self@.len(),
            forall|i: int| 0 <= i < r@.len() ==> r@[i]@ == self@[i].0,
    {
        let n = self.entries.len();
        let mut r: Vec<String> = Vec::new();
        let mut i: usize = 0;
        while i < n
            invariant
                i <= n,
                n == self@.len(),
                r@.len() == i,
                forall|j: int| 0 <= j < i ==> r@[j]@ == self@[j].0,
            decreases n - i,
        {
            r.push(self.entries[i].0.clone());
            i = i + 1;
        }
        r
    }

    /// Read access to the entry at position `i`, for iteration.
    pub fn entry_at(&self, i: usize) -> (r: &(String, V))
        requires
            i < self@.len(),
        ensures
            r.0@ == self@[i as int].0,
            r.1 == self@[i as int].1,
    {
        &self.entries[i]
    }
}

impl<V: Clone> Clone for StrMap<V> {
    /// Clones the entries one by one; keys keep their character sequences,
    /// values are whatever `V::clone` yields.
    fn clone(&self) -> (res: Self)
        ensures
            res@.len() == self@.len(),
            forall|i: int|
                0 <= i < self@.len() ==> res@[i].0 == self@[i].0 && cloned::<V>(
                    self@[i].1,
                    res@[i].1,
                ),
            self.wf() ==> res.wf(),
    {
        let n = self.entries.len();
        let mut entries: Vec<(String, V)> = Vec::new();
        let mut i: usize = 0;
        while i < n
            invariant
                i <= n,
                n == self@.len(),
                entries@.len() == i,
                forall|j: int|
                    0 <= j < i ==> entries@[j].0@ == self@[j].0 && cloned::<V>(
                        self@[j].1,
                        entries@[j].1,
                    ),
            decreases n - i,
        {
            let k = self.entries[i].0.clone();
            let v = self.entries[i].1.clone();
            entries.push((k, v));
            i = i + 1;
        }
        let res = StrMap { entries };
        proof {
            assert forall|j: int| 0 <= j < self@.len() implies res@[j].0 == self@[j].0
                && cloned::<V>(self@[j].1, res@[j].1) by {}
            if self.wf() {
                assert forall|p: int, q: int| 0 <= p < q < res@.len() implies res@[p].0
                    != res@[q].0 by {
                    assert(self@[p].0 != self@[q].0);
                }
            }
        }
        res
    }
}

/// After replacing the entry at the position of key `k`, the map reading of
/// the entries is the old reading with `k` bound to the new value.
proof fn lemma_insert_update<V>(s: Seq<(Seq<char>, V)>, i: int, k: Seq<char>, v: V)
    requires
        entries_wf(s),
        0 <= i < s.len(),
        s[i].0 == k,
    ensures
        entries_wf(s.update(i, (k, v))),
        Map::new(
            |q: Seq<char>| entries_contain_key(s.update(i, (k, v)), q),
            |q: Seq<char>| entries_value_of(s.update(i, (k, v)), q),
        ) =~= Map::new(
            |q: Seq<char>| entries_contain_key(s, q),
            |q: Seq<char>| entries_value_of(s, q),
        ).insert(k, v),
{
    let t = s.update(i, (k, v));
    assert forall|q: Seq<char>| entries_contain_key(t, q) implies entries_contain_key(s, q) by {
        let w = choose|w: int| 0 <= w < t.len() && t[w].0 == q;
        assert(s[if w == i { i } else { w }].0 == q);
    }
    assert forall|q: Seq<char>| entries_contain_key(s, q) implies entries_contain_key(t, q) by {
        let w = choose|w: int| 0 <= w < s.len() && s[w].0 == q;
        assert(t[w].0 == q);
    }
    assert forall|q: Seq<char>| entries_contain_key(t, q) && q != k implies entries_value_of(t, q)
        == entries_value_of(s, q) by {
        let wt = entry_index_of(t, q);
        let ws = entry_index_of(s, q);
        assert(0 <= wt < t.len() && t[wt].0 == q);
        assert(0 <= ws < s.len() && s[ws].0 == q);
        assert(wt != i);
        assert(s[wt].0 == q);
        assert(ws == wt);
    }
    assert(entries_contain_key(t, k) && entries_value_of(t, k) == v) by {
        assert(t[i].0 == k);
        let wt = entry_index_of(t, k);
        assert(0 <= wt < t.len() && t[wt].0 == k);
        assert(wt == i);
    }
}

/// Appending an entry with a fresh key binds exactly that key.
proof fn lemma_insert_push<V>(s: Seq<(Seq<char>, V)>, k: Seq<char>, v: V)
    requires
        entries_wf(s),
        !entries_contain_key(s, k),
    ensures
        entries_wf(s.push((k, v))),
        Map::new(
            |q: Seq<char>| entries_contain_key(s.push((k, v)), q),
            |q: Seq<char>| entries_value_of(s.push((k, v)), q),
        ) =~= Map::new(
            |q: Seq<char>| entries_contain_key(s, q),
            |q: Seq<char>| entries_value_of(s, q),
        ).insert(k, v),
{
    let t = s.push((k, v));
    assert(t[s.len() as int].0 == k);
    assert forall|q: Seq<char>| entries_contain_key(t, q) && q != k implies entries_contain_key(
        s,
        q,
    ) && entries_value_of(t, q) == entries_value_of(s, q) by {
        let w = choose|w: int| 0 <= w < t.len() && t[w].0 == q;
        assert(w != s.len() as int);
        assert(s[w].0 == q);
        let wt = entry_index_of(t, q);
        let ws = entry_index_of(s, q);
        assert(0 <= wt < t.len() && t[wt].0 == q);
        assert(wt != s.len() as int);
        assert(s[wt].0 == q);
        assert(ws == wt);
    }
    assert forall|q: Seq<char>| entries_contain_key(s, q) implies entries_contain_key(t, q) by {
        let w = choose|w: int| 0 <= w < s.len() && s[w].0 == q;
        assert(t[w].0 == q);
    }
    assert(entries_value_of(t, k) == v) by {
        let wt = entry_index_of(t, k);
        assert(0 <= wt < t.len() && t[wt].0 == k);
        if wt != s.len() as int {
            assert(s[wt].0 == k);
        }
    }
}

} // verus!
