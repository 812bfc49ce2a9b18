//! A map from texts to values that is walked in the order of its keys.
use vstd::prelude::*;

use crate::text::{comes_before, lemma_before_irreflexive, lemma_before_total, lemma_before_transitive, less, same, texts};

verus! {

/// Each key comes before all that follow it.
pub open spec fn ascending(keys: Seq<Seq<char>>) -> bool {
    forall|i: int, j: int| 0 <= i < j < keys.len() ==> comes_before(#[trigger] keys[i], #[trigger] keys[j])
}

/// `keys` lists the domain of `m`, each key once, in ascending order.
pub open spec fn lists_domain<V>(keys: Seq<Seq<char>>, m: Map<Seq<char>, V>) -> bool {
    &&& ascending(keys)
    &&& forall|k: Seq<char>| #[trigger] keys.contains(k) <==> m.dom().contains(k)
}

/// The map that pairs `keys[i]` with `vals[i]`.
pub open spec fn paired<V>(keys: Seq<Seq<char>>, vals: Seq<V>) -> Map<Seq<char>, V> {
    Map::new(|k: Seq<char>| keys.contains(k), |k: Seq<char>| vals[keys.index_of(k)])
}

/// A map with text keys in ascending order.
#[derive(Debug)]
pub struct Table<V> {
    keys: Vec<String>,
    vals: Vec<V>,
}

impl<V> View for Table<V> {
    type V = Map<Seq<char>, V>;

    closed spec fn view(&self) -> Map<Seq<char>, V> {
        paired(texts(self.keys@), self.vals@)
    }
}

/// In an ascending list, a key stands at one place only.
pub proof fn lemma_place_unique(keys: Seq<Seq<char>>, i: int)
    requires
        ascending(keys),
        0 <= i < keys.len(),
    ensures
        keys.index_of(keys[i]) == i,
{
    let k = keys[i];
    assert(keys.contains(k));
    let j = keys.index_of(k);
    assert(0 <= j < keys.len() && keys[j] == k);
    if j != i {
        lemma_before_irreflexive(k);
    }
}

/// Two ascending lists of one domain are the same list.
pub proof fn lemma_order_unique<V>(a: Seq<Seq<char>>, b: Seq<Seq<char>>, m: Map<Seq<char>, V>)
    requires
        lists_domain(a, m),
        lists_domain(b, m),
    ensures
        a == b,
    decreases a.len(),
{
    if a.len() == 0 {
        if b.len() > 0 {
            assert(b.contains(b[0]));
            assert(a.contains(b[0]));
        }
        assert(a =~= b);
    } else {
        assert(a.contains(a[0]));
        assert(b.contains(a[0]));
        assert(b.contains(b[0]));
        assert(a.contains(b[0]));
        let i = a.index_of(b[0]);
        let j = b.index_of(a[0]);
        if i > 0 && j > 0 {
            assert(comes_before(a[0], a[i]));
            assert(comes_before(b[0], b[j]));
            lemma_before_transitive(a[0], b[0], a[0]);
            lemma_before_irreflexive(a[0]);
        }
        assert(a[0] == b[0]);
        let head = a[0];
        let x = a.subrange(1, a.len() as int);
        let y = b.subrange(1, b.len() as int);
        let rest = m.remove(head);
        assert forall|k: Seq<char>| #[trigger] x.contains(k) <==> rest.dom().contains(k) by {
            lemma_tail_has(a, k);
        }
        assert forall|k: Seq<char>| #[trigger] y.contains(k) <==> rest.dom().contains(k) by {
            lemma_tail_has(b, k);
        }
        lemma_order_unique(x, y, rest);
        assert(a =~= seq![head] + x);
        assert(b =~= seq![head] + y);
    }
}

proof fn lemma_tail_has(a: Seq<Seq<char>>, k: Seq<char>)
    requires
        ascending(a),
        a.len() > 0,
    ensures
        a.subrange(1, a.len() as int).contains(k) <==> (a.contains(k) && k != a[0]),
{
    let x = a.subrange(1, a.len() as int);
    if x.contains(k) {
        let i = x.index_of(k);
        assert(a[i + 1] == k);
        assert(comes_before(a[0], a[i + 1]));
        lemma_before_irreflexive(k);
    }
    if a.contains(k) && k != a[0] {
        let i = a.index_of(k);
        assert(x[i - 1] == k);
    }
}

impl<V> Table<V> {
    /// The keys, ascending.
    pub closed spec fn order(&self) -> Seq<Seq<char>> {
        texts(self.keys@)
    }

    /// The values, in the order of their keys.
    pub closed spec fn values(&self) -> Seq<V> {
        self.vals@
    }

    #[verifier::type_invariant]
    spec fn well_formed(&self) -> bool {
        &&& self.keys@.len() == self.vals@.len()
        &&& ascending(texts(self.keys@))
    }

    /// What `order` and `values` are to the map.
    pub open spec fn listed(&self) -> bool {
        &&& lists_domain(self.order(), self@)
        &&& self.values().len() == self.order().len()
        &&& forall|i: int| 0 <= i < self.order().len() ==> self@[self.order()[i]] == #[trigger] self.values()[i]
        &&& forall|i: int| 0 <= i < self.order().len() ==> self@.dom().contains(#[trigger] self.order()[i])
    }

    pub fn new() -> (r: Table<V>)
        ensures
            r@ == Map::<Seq<char>, V>::empty(),
            r.order() == Seq::<Seq<char>>::empty(),
    {
        let r = Table { keys: Vec::new(), vals: Vec::new() };
        assert(r.order() =~= Seq::<Seq<char>>::empty());
        assert(r@ =~= Map::<Seq<char>, V>::empty());
        r
    }

    proof fn lemma_listed(&self)
        requires
            self.well_formed(),
        ensures
            self.listed(),
    {
        assert forall|i: int| 0 <= i < self.order().len() implies self@[self.order()[i]] == #[trigger] self.values()[i] by {
            lemma_place_unique(self.order(), i);
            assert(self.order().contains(self.order()[i]));
        }
        assert forall|i: int| 0 <= i < self.order().len() implies self@.dom().contains(#[trigger] self.order()[i]) by {
            assert(self.order().contains(self.order()[i]));
        }
    }

    /// The number of keys.
    pub fn len(&self) -> (r: usize)
        ensures
            r == self.order().len(),
            self.listed(),
    {
        proof {
            use_type_invariant(self);
            self.lemma_listed();
        }
        self.keys.len()
    }

    /// Whether there is no key.
    pub fn is_empty(&self) -> (r: bool)
        ensures
            r == (self@.dom() == Set::<Seq<char>>::empty()),
            r == (self.order().len() == 0),
    {
        proof {
            use_type_invariant(self);
            self.lemma_listed();
            if self.order().len() == 0 {
                assert(self@.dom() =~= Set::<Seq<char>>::empty());
            } else {
                assert(self@.dom().contains(self.order()[0]));
            }
        }
        self.keys.len() == 0
    }

    /// The `i`-th key.
    pub fn key_at(&self, i: usize) -> (r: &String)
        requires
            i < self.order().len(),
        ensures
            r@ == self.order()[i as int],
            self.listed(),
    {
        proof {
            use_type_invariant(self);
            self.lemma_listed();
        }
        &self.keys[i]
    }

    /// The `i`-th value.
    pub fn value_at(&self, i: usize) -> (r: &V)
        requires
            i < self.order().len(),
        ensures
            *r == self.values()[i as int],
            *r == self@[self.order()[i as int]],
            self.listed(),
    {
        proof {
            use_type_invariant(self);
            self.lemma_listed();
        }
        &self.vals[i]
    }

    /// The first place whose key does not come before `k`, and whether `k` is there.
    fn place(&self, k: &str) -> (r: (usize, bool))
        ensures
            r.0 <= self.keys@.len(),
            r.1 ==> r.0 < self.keys@.len() && self.keys@[r.0 as int]@ == k@,
            !r.1 ==> !texts(self.keys@).contains(k@),
            !r.1 ==> (r.0 < self.keys@.len() ==> comes_before(k@, self.keys@[r.0 as int]@)),
            forall|j: int| 0 <= j < r.0 ==> comes_before(#[trigger] texts(self.keys@)[j], k@),
    {
        proof {
            use_type_invariant(self);
        }
        let mut i: usize = 0;
        while i < self.keys.len() && less(self.keys[i].as_str(), k)
            invariant
                i <= self.keys@.len(),
                forall|j: int| 0 <= j < i ==> comes_before(#[trigger] texts(self.keys@)[j], k@),
            decreases self.keys@.len() - i,
        {
            i = i + 1;
        }
        proof {
            lemma_before_irreflexive(k@);
        }
        if i < self.keys.len() && same(self.keys[i].as_str(), k) {
            (i, true)
        } else {
            proof {
                if i < self.keys@.len() {
                    lemma_before_total(self.keys@[i as int]@, k@);
                }
                if texts(self.keys@).contains(k@) {
                    let j = texts(self.keys@).index_of(k@);
                    assert(texts(self.keys@)[j] == k@);
                    if j > i {
                        assert(comes_before(texts(self.keys@)[i as int], texts(self.keys@)[j]));
                        lemma_before_transitive(k@, texts(self.keys@)[i as int], k@);
                    }
                }
            }
            (i, false)
        }
    }

    /// The value of `k`.
    pub fn get(&self, k: &str) -> (r: Option<&V>)
        ensures
            match r {
                Some(v) => self@.dom().contains(k@) && self@[k@] == *v,
                None => !self@.dom().contains(k@),
            },
    {
        proof {
            use_type_invariant(self);
            self.lemma_listed();
        }
        let (i, found) = self.place(k);
        if found {
            proof {
                lemma_place_unique(self.order(), i as int);
                assert(self.order()[i as int] == k@);
            }
            Some(&self.vals[i])
        } else {
            None
        }
    }

    /// Whether `k` is a key.
    pub fn contains(&self, k: &str) -> (r: bool)
        ensures
            r == self@.dom().contains(k@),
    {
        self.get(k).is_some()
    }

    /// Sets the value of `k`, whether or not it had one.
    pub fn insert(&mut self, k: String, v: V)
        ensures
            final(self)@ == old(self)@.insert(k@, v),
    {
        proof {
            use_type_invariant(&*self);
        }
        let ghost old_keys = texts(self.keys@);
        let ghost old_vals = self.vals@;
        let (i, found) = self.place(k.as_str());
        let mut taken: Table<V> = Table { keys: Vec::new(), vals: Vec::new() };
        std::mem::swap(self, &mut taken);
        let mut keys = taken.keys;
        let mut vals = taken.vals;
        if found {
            proof {
                lemma_place_unique(old_keys, i as int);
            }
            vals.set(i, v);
            proof {
                assert forall|x: Seq<char>| old_keys.contains(x) && x != k@ implies old_keys.index_of(x) != i by {}
                assert(paired(old_keys, vals@) =~= paired(old_keys, old_vals).insert(k@, v));
            }
        } else {
            keys.insert(i, k);
            vals.insert(i, v);
            proof {
                let new_keys = texts(keys@);
                assert(new_keys =~= old_keys.insert(i as int, k@));
                assert forall|a: int, b: int| 0 <= a < b < new_keys.len() implies comes_before(
                    #[trigger] new_keys[a],
                    #[trigger] new_keys[b],
                ) by {
                    if a == i {
                        if b > i + 1 {
                            lemma_before_transitive(k@, old_keys[i as int], old_keys[b - 1]);
                        }
                    } else if b == i {
                    } else {
                        let p = if a < i { a } else { a - 1 };
                        let q = if b < i { b } else { b - 1 };
                        assert(comes_before(old_keys[p], old_keys[q]));
                    }
                }
                assert(new_keys[i as int] == k@);
                lemma_place_unique(new_keys, i as int);
                let m = paired(old_keys, old_vals).insert(k@, v);
                assert forall|x: Seq<char>| #[trigger] new_keys.contains(x) == m.dom().contains(x) && (m.dom().contains(x)
                    ==> paired(new_keys, vals@)[x] == m[x]) by {
                    if old_keys.contains(x) {
                        let p = old_keys.index_of(x);
                        let q = if p < i { p } else { p + 1 };
                        assert(new_keys[q] == x);
                        lemma_place_unique(new_keys, q);
                        lemma_place_unique(old_keys, p);
                    }
                    if new_keys.contains(x) && x != k@ {
                        let q = new_keys.index_of(x);
                        let p = if q < i { q } else { q - 1 };
                        assert(old_keys[p] == x);
                    }
                }
                assert(paired(new_keys, vals@).dom() =~= m.dom());
                assert(paired(new_keys, vals@) =~= m);
            }
        }
        *self = Table { keys, vals };
    }

    /// Takes the value of `k` out, where it has one.
    pub fn remove(&mut self, k: &str) -> (r: Option<V>)
        ensures
            final(self)@ == old(self)@.remove(k@),
            r == if old(self)@.dom().contains(k@) {
                Some(old(self)@[k@])
            } else {
                None
            },
    {
        proof {
            use_type_invariant(&*self);
        }
        let ghost old_keys = texts(self.keys@);
        let ghost old_vals = self.vals@;
        let (i, found) = self.place(k);
        if !found {
            assert(self@ =~= old(self)@.remove(k@));
            return None;
        }
        let mut taken: Table<V> = Table { keys: Vec::new(), vals: Vec::new() };
        std::mem::swap(self, &mut taken);
        let mut keys = taken.keys;
        let mut vals = taken.vals;
        proof {
            assert(old_keys[i as int] == k@);
            lemma_place_unique(old_keys, i as int);
        }
        let _ = keys.remove(i);
        let v = vals.remove(i);
        proof {
            let new_keys = texts(keys@);
            assert(new_keys =~= old_keys.remove(i as int));
            assert forall|a: int, b: int| 0 <= a < b < new_keys.len() implies comes_before(
                #[trigger] new_keys[a],
                #[trigger] new_keys[b],
            ) by {
                let p = if a < i { a } else { a + 1 };
                let q = if b < i { b } else { b + 1 };
                assert(comes_before(old_keys[p], old_keys[q]));
            }
            let m = paired(old_keys, old_vals).remove(k@);
            assert forall|x: Seq<char>| #[trigger] new_keys.contains(x) == m.dom().contains(x) && (m.dom().contains(x)
                ==> paired(new_keys, vals@)[x] == m[x]) by {
                if old_keys.contains(x) && x != k@ {
                    let p = old_keys.index_of(x);
                    let q = if p < i { p } else { p - 1 };
                    assert(new_keys[q] == x);
                    lemma_place_unique(new_keys, q);
                }
                if new_keys.contains(x) {
                    let q = new_keys.index_of(x);
                    let p = if q < i { q } else { q + 1 };
                    assert(old_keys[p] == x);
                    lemma_place_unique(old_keys, p);
                }
            }
            assert(paired(new_keys, vals@).dom() =~= m.dom());
            assert(paired(new_keys, vals@) =~= m);
        }
        *self = Table { keys, vals };
        Some(v)
    }

    /// The keys, ascending.
    pub fn keys(&self) -> (r: Vec<String>)
        ensures
            texts(r@) == self.order(),
            self.listed(),
    {
        let n = self.len();
        let mut out: Vec<String> = Vec::new();
        let mut i: usize = 0;
        while i < n
            invariant
                i <= n == self.order().len(),
                texts(out@) == self.order().subrange(0, i as int),
            decreases n - i,
        {
            let ghost before = out@;
            out.push(self.key_at(i).clone());
            assert(texts(out@) =~= texts(before).push(self.order()[i as int]));
            i = i + 1;
        }
        assert(texts(out@) =~= self.order());
        out
    }
}

} // verus!
