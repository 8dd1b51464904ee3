//! A small map from strings to values.

use vstd::prelude::*;
use vstd::string::*;
use vstd::utf8;

verus! {

/// A map with string keys. Each key occurs once; keys are kept in the order in which
/// they were inserted last.
pub struct StringMap<V> {
    pub entries: Vec<(String, V)>,
}

/// Whether entry `i` has the key `k`.
pub open spec fn key_at<V>(entries: Seq<(String, V)>, i: int, k: Seq<char>) -> bool {
    0 <= i < entries.len() && entries[i].0@ == k
}

/// Whether some entry has the key `k`.
pub open spec fn has_key<V>(entries: Seq<(String, V)>, k: Seq<char>) -> bool {
    exists|i: int| key_at(entries, i, k)
}

/// The entry with the key `k`.
pub open spec fn index_of_key<V>(entries: Seq<(String, V)>, k: Seq<char>) -> int {
    choose|i: int| key_at(entries, i, k)
}

impl<V> View for StringMap<V> {
    type V = Map<Seq<char>, V>;

    open spec fn view(&self) -> Map<Seq<char>, V> {
        Map::new(
            |k: Seq<char>| has_key(self.entries@, k),
            |k: Seq<char>| self.entries@[index_of_key(self.entries@, k)].1,
        )
    }
}

impl<V> StringMap<V> {
    /// No key occurs twice.
    pub open spec fn wf(&self) -> bool {
        forall|i: int, j: int|
            #![trigger self.entries@[i], self.entries@[j]]
            0 <= i < j < self.entries@.len() ==> self.entries@[i].0@ != self.entries@[j].0@
    }

    /// With distinct keys, an entry is what the map holds for its key.
    pub proof fn lemma_entry(&self, i: int)
        requires
            self.wf(),
            0 <= i < self.entries@.len(),
        ensures
            self@.dom().contains(self.entries@[i].0@),
            self@[self.entries@[i].0@] == self.entries@[i].1,
            index_of_key(self.entries@, self.entries@[i].0@) == i,
    {
        let k = self.entries@[i].0@;
        assert(key_at(self.entries@, i, k));
        let j = index_of_key(self.entries@, k);
        assert(key_at(self.entries@, j, k));
        assert(self.entries@[i].0@ == self.entries@[j].0@);
    }

    /// An empty map.
    pub fn new() -> (r: Self)
        ensures
            r.wf(),
            r.entries@.len() == 0,
            r@ == Map::<Seq<char>, V>::empty(),
    {
        let r: StringMap<V> = StringMap { entries: Vec::new() };
        assert(r@ =~= Map::<Seq<char>, V>::empty());
        r
    }

    /// Where the key stands.
    pub fn position(&self, key: &str) -> (r: Option<usize>)
        requires
            self.wf(),
        ensures
            match r {
                Some(i) => i < self.entries@.len() && self.entries@[i as int].0@ == key@
                    && self@.dom().contains(key@) && self@[key@] == self.entries@[i as int].1,
                None => !self@.dom().contains(key@),
            },
    {
        let n: usize = self.entries.len();
        let mut i: usize = 0;
        while i < n
            invariant
                n == self.entries@.len(),
                i <= n,
                self.wf(),
                forall|j: int| 0 <= j < i ==> (#[trigger] self.entries@[j]).0@ != key@,
            decreases n - i,
        {
            if same_text(self.entries[i].0.as_str(), key) {
                proof {
                    self.lemma_entry(i as int);
                }
                return Some(i);
            }
            i += 1;
        }
        assert(!has_key(self.entries@, key@)) by {
            if has_key(self.entries@, key@) {
                let j = index_of_key(self.entries@, key@);
                assert(key_at(self.entries@, j, key@));
                assert(self.entries@[j].0@ != key@);
            }
        }
        None
    }

    /// Whether the key is there.
    pub fn contains_key(&self, key: &str) -> (r: bool)
        requires
            self.wf(),
        ensures
            r == self@.dom().contains(key@),
    {
        self.position(key).is_some()
    }

    /// The value of the key.
    pub fn get(&self, key: &str) -> (r: Option<&V>)
        requires
            self.wf(),
        ensures
            match r {
                Some(v) => self@.dom().contains(key@) && *v == self@[key@],
                None => !self@.dom().contains(key@),
            },
    {
        match self.position(key) {
            Some(i) => Some(&self.entries[i].1),
            None => None,
        }
    }

    /// Takes the key out.
    pub fn remove(&mut self, key: &str) -> (r: Option<V>)
        requires
            old(self).wf(),
        ensures
            final(self).wf(),
            final(self)@ == old(self)@.remove(key@),
            match r {
                Some(v) => old(self)@.dom().contains(key@) && v == old(self)@[key@],
                None => !old(self)@.dom().contains(key@),
            },
            final(self).entries@.len() <= old(self).entries@.len(),
            r is Some ==> final(self).entries@.len() == old(self).entries@.len() - 1,
            forall|k: Seq<char>|
                final(self)@.dom().contains(k) <==> old(self)@.dom().contains(k) && k != key@,
    {
        match self.position(key) {
            None => {
                assert(self@ =~= old(self)@.remove(key@));
                None
            },
            Some(i) => {
                let ghost before = *self;
                let (_, v): (String, V) = self.entries.remove(i);
                proof {
                    let e0 = before.entries@;
                    let e1 = self.entries@;
                    assert forall|a: int, b: int|
                        #![trigger e1[a], e1[b]]
                        0 <= a < b < e1.len() implies e1[a].0@ != e1[b].0@ by {
                        let a0 = if a < i { a } else { a + 1 };
                        let b0 = if b < i { b } else { b + 1 };
                        assert(e1[a] == e0[a0] && e1[b] == e0[b0]);
                    }
                    assert forall|k: Seq<char>| #[trigger] self@.dom().contains(k) implies before@.remove(
                        key@,
                    ).dom().contains(k) && self@[k] == before@[k] by {
                        let j = index_of_key(e1, k);
                        assert(key_at(e1, j, k));
                        let j0 = if j < i { j } else { j + 1 };
                        assert(e1[j] == e0[j0]);
                        before.lemma_entry(j0);
                        before.lemma_entry(i as int);
                        self.lemma_entry(j);
                    }
                    assert forall|k: Seq<char>| #[trigger] before@.remove(key@).dom().contains(
                        k,
                    ) implies self@.dom().contains(k) by {
                        let j = index_of_key(e0, k);
                        assert(key_at(e0, j, k));
                        let j1 = if j < i { j } else { j - 1 };
                        assert(j != i);
                        assert(e1[j1] == e0[j]);
                        assert(key_at(e1, j1, k));
                    }
                    assert(self@ =~= before@.remove(key@));
                }
                Some(v)
            },
        }
    }

    /// Sets the value of the key, and gives back the value that it had.
    pub fn insert(&mut self, key: String, value: V) -> (r: Option<V>)
        requires
            old(self).wf(),
        ensures
            final(self).wf(),
            final(self)@ == old(self)@.insert(key@, value),
            match r {
                Some(v) => old(self)@.dom().contains(key@) && v == old(self)@[key@],
                None => !old(self)@.dom().contains(key@),
            },
    {
        let prior: Option<V> = self.remove(key.as_str());
        let ghost before = *self;
        let ghost k0 = key@;
        self.entries.push((key, value));
        proof {
            let e0 = before.entries@;
            let e1 = self.entries@;
            let n = e0.len() as int;
            assert forall|a: int, b: int| #![trigger e1[a], e1[b]] 0 <= a < b < e1.len() implies e1[a].0@
                != e1[b].0@ by {
                assert(e1[a] == e0[a]);
                if b < n {
                    assert(e1[b] == e0[b]);
                } else {
                    before.lemma_entry(a);
                }
            }
            self.lemma_entry(n);
            assert forall|k: Seq<char>| #[trigger] self@.dom().contains(k) implies before@.insert(
                k0,
                value,
            ).dom().contains(k) && self@[k] == before@.insert(k0, value)[k] by {
                let j = index_of_key(e1, k);
                assert(key_at(e1, j, k));
                self.lemma_entry(j);
                if j < n {
                    assert(e1[j] == e0[j]);
                    before.lemma_entry(j);
                }
            }
            assert forall|k: Seq<char>| #[trigger] before@.insert(k0, value).dom().contains(k) implies
                self@.dom().contains(k) by {
                if k == k0 {
                    assert(key_at(e1, n, k));
                } else {
                    let j = index_of_key(e0, k);
                    assert(key_at(e0, j, k));
                    assert(e1[j] == e0[j]);
                    assert(key_at(e1, j, k));
                }
            }
            assert(self@ =~= before@.insert(k0, value));
            assert(self@ =~= old(self)@.insert(k0, value));
        }
        prior
    }

    /// How many keys there are.
    pub fn len(&self) -> (r: usize)
        ensures
            r == self.entries@.len(),
    {
        self.entries.len()
    }

    /// Takes all keys out.
    pub fn clear(&mut self)
        ensures
            final(self).wf(),
            final(self)@ == Map::<Seq<char>, V>::empty(),
            final(self).entries@.len() == 0,
    {
        self.entries.clear();
        assert(self@ =~= Map::<Seq<char>, V>::empty());
    }

    /// The keys in order.
    pub fn keys(&self) -> (r: Vec<String>)
        ensures
            r@.len() == self.entries@.len(),
            forall|i: int| 0 <= i < r@.len() ==> (#[trigger] r@[i])@ == self.entries@[i].0@,
    {
        let mut out: Vec<String> = Vec::new();
        let n: usize = self.entries.len();
        let mut i: usize = 0;
        while i < n
            invariant
                n == self.entries@.len(),
                i <= n,
                out@.len() == i,
                forall|j: int| 0 <= j < i ==> (#[trigger] out@[j])@ == self.entries@[j].0@,
            decreases n - i,
        {
            out.push(self.entries[i].0.clone());
            i += 1;
        }
        out
    }
}

/// Whether two strings have the same characters.
pub fn same_text(a: &str, b: &str) -> (r: bool)
    ensures
        r == (a@ == b@),
{
    broadcast use utf8::encode_utf8_decode_utf8;
    let x: &[u8] = a.as_bytes();
    let y: &[u8] = b.as_bytes();
    assert(utf8::decode_utf8(x@) == a@ && utf8::decode_utf8(y@) == b@);
    let n: usize = x.len();
    if y.len() != n {
        return false;
    }
    let mut i: usize = 0;
    while i < n
        invariant
            n == x@.len(),
            n == y@.len(),
            i <= n,
            x@ == utf8::encode_utf8(a@),
            y@ == utf8::encode_utf8(b@),
            forall|j: int| 0 <= j < i ==> x@[j] == y@[j],
        decreases n - i,
    {
        if x[i] != y[i] {
            return false;
        }
        i += 1;
    }
    assert(x@ =~= y@);
    true
}

} // verus!
