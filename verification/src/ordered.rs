//! Maps keyed by text and walked in the order of their keys.
use vstd::prelude::*;
use crate::text::str_less;
#[allow(unused_imports)]
use crate::text::{
    lemma_text_less_irreflexive, lemma_text_less_total, lemma_text_less_transitive, text_less,
};

verus! {

/// Whether the texts stand in strictly increasing order.
pub open spec fn increasing(keys: Seq<Seq<char>>) -> bool {
    forall|i: int, j: int| 0 <= i < j < keys.len() ==> text_less(#[trigger] keys[i], #[trigger] keys[j])
}

/// A map from texts to values that keeps its entries in the order of the keys.
pub struct TextMap<V> {
    entries: Vec<(String, V)>,
}

impl<V> TextMap<V> {
    /// The keys, in order.
    pub closed spec fn keys(&self) -> Seq<Seq<char>> {
        self.entries@.map_values(|e: (String, V)| e.0@)
    }

    /// The values, in the order of their keys.
    pub closed spec fn vals(&self) -> Seq<V> {
        self.entries@.map_values(|e: (String, V)| e.1)
    }

    /// Every key stands once, in order.
    pub open spec fn wf(&self) -> bool {
        &&& increasing(self.keys())
        &&& self.keys().len() == self.vals().len()
    }
}

impl<V> View for TextMap<V> {
    type V = Map<Seq<char>, V>;

    open spec fn view(&self) -> Map<Seq<char>, V> {
        Map::new(
            |k: Seq<char>| self.keys().contains(k),
            |k: Seq<char>| self.vals()[self.keys().index_of(k)],
        )
    }
}

/// The keys of a map in order are its domain, each once.
pub proof fn lemma_increasing_no_duplicates(keys: Seq<Seq<char>>)
    requires
        increasing(keys),
    ensures
        keys.no_duplicates(),
        keys.to_set().finite(),
        keys.to_set().len() == keys.len(),
{
    assert forall|i: int, j: int| 0 <= i < keys.len() && 0 <= j < keys.len() && i != j implies keys[i]
        != keys[j] by {
        lemma_text_less_irreflexive(keys[i]);
    }
    keys.unique_seq_to_set();
}

/// Two strictly increasing sequences with the same members are the same.
pub proof fn lemma_increasing_unique(a: Seq<Seq<char>>, b: Seq<Seq<char>>)
    requires
        increasing(a),
        increasing(b),
        forall|k: Seq<char>| a.contains(k) <==> b.contains(k),
    ensures
        a == b,
    decreases a.len(),
{
    if a.len() == 0 {
        if b.len() > 0 {
            assert(b.contains(b[0]));
        }
        assert(a =~= b);
    } else {
        assert(a.contains(a.last()));
        assert(b.len() > 0);
        let i = b.index_of(a.last());
        assert(b[i] == a.last());
        assert(b.contains(b.last()));
        let j = a.index_of(b.last());
        assert(a[j] == b.last());
        if a.last() != b.last() {
            assert(text_less(b[i], b.last()));
            assert(text_less(a[j], a.last()));
            lemma_text_less_transitive(a.last(), b.last(), a.last());
            lemma_text_less_irreflexive(a.last());
        }
        let x = a.drop_last();
        let y = b.drop_last();
        assert forall|k: Seq<char>| x.contains(k) <==> y.contains(k) by {
            lemma_drop_last_contains(a, k);
            lemma_drop_last_contains(b, k);
        }
        lemma_increasing_unique(x, y);
        assert(a =~= x.push(a.last()));
        assert(b =~= y.push(b.last()));
    }
}

proof fn lemma_drop_last_contains(a: Seq<Seq<char>>, k: Seq<char>)
    requires
        increasing(a),
        a.len() > 0,
    ensures
        a.drop_last().contains(k) <==> a.contains(k) && k != a.last(),
{
    if a.drop_last().contains(k) {
        let i = a.drop_last().index_of(k);
        assert(a[i] == k);
        assert(text_less(a[i], a[a.len() - 1]));
        lemma_text_less_irreflexive(k);
    }
    if a.contains(k) && k != a.last() {
        let i = a.index_of(k);
        assert(a.drop_last()[i] == k);
    }
}

impl<V> TextMap<V> {
    /// What the map holds at the place of each key.
    pub proof fn lemma_entry(&self, i: int)
        requires
            self.wf(),
            0 <= i < self.keys().len(),
        ensures
            self@.dom().contains(self.keys()[i]),
            self@[self.keys()[i]] == self.vals()[i],
            self.keys().index_of(self.keys()[i]) == i,
    {
        lemma_increasing_no_duplicates(self.keys());
        assert(self.keys().contains(self.keys()[i]));
    }

    /// The domain of the map is the set of its keys.
    pub proof fn lemma_domain(&self)
        requires
            self.wf(),
        ensures
            self@.dom() == self.keys().to_set(),
            self@.dom().finite(),
            self@.dom().len() == self.keys().len(),
    {
        lemma_increasing_no_duplicates(self.keys());
        assert(self@.dom() =~= self.keys().to_set());
    }

    /// The map without entries.
    pub fn new() -> (m: Self)
        ensures
            m.wf(),
            m@ == Map::<Seq<char>, V>::empty(),
            m.keys().len() == 0,
    {
        let m = TextMap { entries: Vec::new() };
        assert(m@ =~= Map::<Seq<char>, V>::empty());
        m
    }

    /// The number of entries.
    pub fn len(&self) -> (n: usize)
        requires
            self.wf(),
        ensures
            n == self.keys().len(),
            n == self.vals().len(),
            n == self@.dom().len(),
    {
        proof {
            self.lemma_domain();
        }
        self.entries.len()
    }

    /// The key at place `i` of the order.
    pub fn key_at(&self, i: usize) -> (k: &String)
        requires
            i < self.keys().len(),
        ensures
            k@ == self.keys()[i as int],
    {
        &self.entries[i].0
    }

    /// The value at place `i` of the order.
    pub fn value_at(&self, i: usize) -> (v: &V)
        requires
            i < self.vals().len(),
        ensures
            *v == self.vals()[i as int],
    {
        &self.entries[i].1
    }

    /// The first place whose key does not come before `key`.
    fn place(&self, key: &str) -> (p: usize)
        requires
            self.wf(),
        ensures
            p <= self.keys().len(),
            forall|i: int| 0 <= i < p ==> text_less(#[trigger] self.keys()[i], key@),
            forall|i: int| p <= i < self.keys().len() ==> !text_less(#[trigger] self.keys()[i], key@),
    {
        let mut low: usize = 0;
        let mut high: usize = self.entries.len();
        while low < high
            invariant
                self.wf(),
                self.keys().len() == self.entries@.len(),
                low <= high <= self.entries@.len(),
                forall|i: int| 0 <= i < low ==> text_less(#[trigger] self.keys()[i], key@),
                forall|i: int|
                    high <= i < self.keys().len() ==> !text_less(#[trigger] self.keys()[i], key@),
            decreases high - low,
        {
            let mid: usize = low + (high - low) / 2;
            if str_less(&self.entries[mid].0, key) {
                assert forall|i: int| 0 <= i < mid + 1 implies text_less(
                    #[trigger] self.keys()[i],
                    key@,
                ) by {
                    if i < mid {
                        lemma_text_less_transitive(self.keys()[i], self.keys()[mid as int], key@);
                    }
                }
                low = mid + 1;
            } else {
                assert forall|i: int| mid <= i < self.keys().len() implies !text_less(
                    #[trigger] self.keys()[i],
                    key@,
                ) by {
                    if mid < i && text_less(self.keys()[i], key@) {
                        lemma_text_less_transitive(self.keys()[mid as int], self.keys()[i], key@);
                    }
                }
                high = mid;
            }
        }
        low
    }

    /// Whether the key at place `p`, as `place` gives it, is `key`.
    fn found(&self, p: usize, key: &str) -> (r: bool)
        requires
            self.wf(),
            p <= self.keys().len(),
            forall|i: int| 0 <= i < p ==> text_less(#[trigger] self.keys()[i], key@),
            forall|i: int| p <= i < self.keys().len() ==> !text_less(#[trigger] self.keys()[i], key@),
        ensures
            r == self@.dom().contains(key@),
            r ==> p < self.keys().len() && self.keys()[p as int] == key@,
    {
        let r: bool = p < self.entries.len() && !str_less(key, &self.entries[p].0);
        proof {
            if r {
                if self.keys()[p as int] != key@ {
                    lemma_text_less_total(self.keys()[p as int], key@);
                }
                assert(self.keys().contains(key@));
            } else if self.keys().contains(key@) {
                let i = self.keys().index_of(key@);
                lemma_text_less_irreflexive(key@);
                assert(i >= p);
                if i > p {
                    assert(text_less(self.keys()[p as int], self.keys()[i]));
                }
            }
        }
        r
    }

    /// The value of a key.
    pub fn get(&self, key: &str) -> (r: Option<&V>)
        requires
            self.wf(),
        ensures
            match r {
                Some(v) => self@.dom().contains(key@) && *v == self@[key@],
                None => !self@.dom().contains(key@),
            },
    {
        let p: usize = self.place(key);
        if self.found(p, key) {
            proof {
                self.lemma_entry(p as int);
            }
            Some(&self.entries[p].1)
        } else {
            None
        }
    }

    /// Puts the value of a key, in place of an earlier one.
    pub fn insert(&mut self, key: String, value: V)
        requires
            old(self).wf(),
        ensures
            final(self).wf(),
            final(self)@ == old(self)@.insert(key@, value),
    {
        let p: usize = self.place(&key);
        let ghost before = *self;
        let ghost k = key@;
        if self.found(p, &key) {
            self.entries[p] = (key, value);
            proof {
                assert(self.keys() =~= before.keys());
                assert(self.vals() =~= before.vals().update(p as int, value));
                before.lemma_entry(p as int);
                assert forall|x: Seq<char>| #[trigger] before@.dom().contains(x) implies self@[x]
                    == before@.insert(k, value)[x] by {
                    let i = before.keys().index_of(x);
                    before.lemma_entry(i);
                    self.lemma_entry(i);
                }
                assert(self@ =~= before@.insert(k, value));
            }
        } else {
            self.entries.insert(p, (key, value));
            proof {
                assert(self.keys() =~= before.keys().insert(p as int, k));
                assert(self.vals() =~= before.vals().insert(p as int, value));
                assert forall|i: int| p <= i < before.keys().len() implies text_less(
                    k,
                    #[trigger] before.keys()[i],
                ) by {
                    if before.keys()[i] == k {
                        assert(before.keys().contains(k));
                    }
                    lemma_text_less_total(before.keys()[i], k);
                }
                assert(increasing(self.keys())) by {
                    assert forall|i: int, j: int| 0 <= i < j < self.keys().len() implies text_less(
                        #[trigger] self.keys()[i],
                        #[trigger] self.keys()[j],
                    ) by {
                        let a = if i < p { i } else { i - 1 };
                        let b = if j < p { j } else { j - 1 };
                        if i != p {
                            assert(self.keys()[i] == before.keys()[a]);
                        }
                        if j != p {
                            assert(self.keys()[j] == before.keys()[b]);
                        }
                    }
                }
                self.lemma_entry(p as int);
                assert forall|x: Seq<char>| self@.dom().contains(x) == before@.insert(
                    k,
                    value,
                ).dom().contains(x) by {
                    if before.keys().contains(x) {
                        let i = before.keys().index_of(x);
                        let t = if i < p { i } else { i + 1 };
                        assert(self.keys()[t] == x);
                    }
                    if self.keys().contains(x) && x != k {
                        let i = self.keys().index_of(x);
                        let t = if i < p { i } else { i - 1 };
                        assert(before.keys()[t] == x);
                    }
                }
                assert forall|x: Seq<char>| #[trigger] before@.dom().contains(x) implies self@[x]
                    == before@[x] by {
                    let i = before.keys().index_of(x);
                    before.lemma_entry(i);
                    let t = if i < p { i } else { i + 1 };
                    self.lemma_entry(t);
                    assert(self.keys()[t] == before.keys()[i]);
                    assert(self.vals()[t] == before.vals()[i]);
                }
                assert(self@ =~= before@.insert(k, value));
            }
        }
    }
}

} // verus!
