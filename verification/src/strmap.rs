//! A map from strings to values that remembers the order of insertion.

use crate::text::str_eq;
use vstd::prelude::*;

verus! {

/// A map keyed by strings.
///
/// Its view is the mathematical map from key to value. Keys keep the order in
/// which they were first inserted (`order`), and no key occurs twice.
pub struct StrMap<V> {
    keys: Vec<String>,
    values: Vec<V>,
}

/// The position of `x` in `s`, when it occurs there.
pub open spec fn position<A>(s: Seq<A>, x: A) -> int {
    s.index_of(x)
}

/// In a sequence without duplicates the element at `i` has position `i`.
pub proof fn lemma_position<A>(s: Seq<A>, i: int)
    requires
        s.no_duplicates(),
        0 <= i < s.len(),
    ensures
        position(s, s[i]) == i,
        s.contains(s[i]),
{
    assert(s[s.index_of(s[i])] == s[i]);
}

impl<V> View for StrMap<V> {
    type V = Map<Seq<char>, V>;

    open spec fn view(&self) -> Map<Seq<char>, V> {
        Map::new(
            |k: Seq<char>| self.order().contains(k),
            |k: Seq<char>| self.contents()[position(self.order(), k)],
        )
    }
}

impl<V> StrMap<V> {
    #[verifier::type_invariant]
    spec fn consistent(self) -> bool {
        &&& self.keys@.len() == self.values@.len()
        &&& self.order().no_duplicates()
    }

    /// The keys, in the order of their first insertion.
    pub closed spec fn order(&self) -> Seq<Seq<char>> {
        Seq::new(self.keys@.len(), |i: int| self.keys@[i]@)
    }

    /// The values, in the order of their keys.
    pub closed spec fn contents(&self) -> Seq<V> {
        self.values@
    }

    /// A map holds finitely many keys.
    pub proof fn lemma_finite(&self)
        ensures
            self@.dom().finite(),
    {
        vstd::seq_lib::seq_to_set_is_finite(self.order());
        assert(self@.dom() =~= self.order().to_set());
    }

    /// An empty map.
    pub fn new() -> (r: Self)
        ensures
            r@ == Map::<Seq<char>, V>::empty(),
            r.order() == Seq::<Seq<char>>::empty(),
    {
        let r = StrMap { keys: Vec::new(), values: Vec::new() };
        assert(r.order() =~= Seq::<Seq<char>>::empty());
        assert(r@ =~= Map::<Seq<char>, V>::empty());
        r
    }

    /// The number of keys.
    pub fn len(&self) -> (r: usize)
        ensures
            r == self.order().len(),
            r == self.contents().len(),
            r == self@.len(),
            self@.dom().finite(),
            self.order().no_duplicates(),
            forall|k: Seq<char>| #[trigger] self.order().contains(k) <==> self@.contains_key(k),
            forall|i: int|
                0 <= i < r ==> #[trigger] self@[self.order()[i]] == self.contents()[i],
            self@.dom() == self.order().to_set(),
    {
        proof {
            use_type_invariant(self);
            self.order().unique_seq_to_set();
            assert(self@.dom() =~= self.order().to_set());
            assert forall|i: int| 0 <= i < self.order().len() implies #[trigger] self@[self.order()[i]]
                == self.contents()[i] by {
                lemma_position(self.order(), i);
            }
        }
        self.keys.len()
    }

    /// The key in position `i` of the order.
    pub fn key_at(&self, i: usize) -> (r: &String)
        requires
            i < self.order().len(),
        ensures
            r@ == self.order()[i as int],
    {
        &self.keys[i]
    }

    /// The value of the key in position `i` of the order.
    pub fn value_at(&self, i: usize) -> (r: &V)
        requires
            i < self.order().len(),
        ensures
            *r == self.contents()[i as int],
            *r == self@[self.order()[i as int]],
    {
        let _n: usize = self.len();
        assert(self@[self.order()[i as int]] == self.contents()[i as int]);
        &self.values[i]
    }

    /// The position of `key` in the order.
    fn find(&self, key: &str) -> (r: Option<usize>)
        ensures
            match r {
                Some(i) => i < self.order().len() && self.order()[i as int] == key@ && position(
                    self.order(),
                    key@,
                ) == i && self@.contains_key(key@) && self@[key@] == self.contents()[i as int]
                    && i < self.contents().len(),
                None => !self@.contains_key(key@) && !self.order().contains(key@),
            },
    {
        proof {
            use_type_invariant(self);
        }
        let mut i: usize = 0;
        while i < self.keys.len()
            invariant
                i <= self.keys.len(),
                self.order().no_duplicates(),
                self.keys@.len() == self.values@.len(),
                forall|j: int| 0 <= j < i ==> self.order()[j] != key@,
            decreases self.keys.len() - i,
        {
            if str_eq(self.keys[i].as_str(), key) {
                assert(self.order()[i as int] == key@);
                assert(position(self.order(), key@) == i);
                return Some(i);
            }
            assert(self.order()[i as int] != key@);
            i += 1;
        }
        None
    }

    /// Whether `key` is present.
    pub fn contains_key(&self, key: &str) -> (r: bool)
        ensures
            r == self@.contains_key(key@),
    {
        match self.find(key) {
            Some(_) => true,
            None => false,
        }
    }

    /// The value of `key`.
    pub fn get(&self, key: &str) -> (r: Option<&V>)
        ensures
            match r {
                Some(v) => self@.contains_key(key@) && *v == self@[key@],
                None => !self@.contains_key(key@),
            },
    {
        match self.find(key) {
            Some(i) => Some(&self.values[i]),
            None => None,
        }
    }

    /// What replacing the value in position `i` does to the map.
    proof fn lemma_update(&self, key: Seq<char>, i: int)
        requires
            self.consistent(),
            0 <= i < self.order().len(),
            self.order()[i] == key,
        ensures
            forall|m: StrMap<V>|
                m.keys == self.keys && m.values@ == self.values@.update(i, m.values@[i]) ==> {
                    &&& #[trigger] m.order() == self.order()
                    &&& m@ == self@.insert(key, m.values@[i])
                },
    {
        let ord = self.order();
        lemma_position(ord, i);
        assert forall|k: Seq<char>| ord.contains(k) && k != key implies #[trigger] position(ord, k)
            != i by {
            assert(ord[ord.index_of(k)] == k);
        }
        assert forall|m: StrMap<V>|
            m.keys == self.keys && m.values@ == self.values@.update(i, m.values@[i]) implies {
            &&& #[trigger] m.order() == self.order()
            &&& m@ == self@.insert(key, m.values@[i])
        } by {
            assert(m.order() =~= ord);
            assert(m@ =~= self@.insert(key, m.values@[i]));
        }
    }

    /// A mutable reference to the value of `key`. The order is kept.
    pub fn get_mut(&mut self, key: &str) -> (r: Option<&mut V>)
        ensures
            match r {
                Some(v) => {
                    &&& old(self)@.contains_key(key@)
                    &&& *v == old(self)@[key@]
                    &&& final(self)@ == old(self)@.insert(key@, *final(v))
                    &&& final(self).order() == old(self).order()
                },
                None => !old(self)@.contains_key(key@) && *final(self) == *old(self),
            },
    {
        match self.find(key) {
            Some(i) => {
                proof {
                    use_type_invariant(&*self);
                }
                proof {
                    self.lemma_update(key@, i as int);
                }
                let v = &mut self.values[i];
                Some(v)
            },
            None => None,
        }
    }

    /// A mutable reference to the value in position `i`. The order is kept.
    pub fn value_at_mut(&mut self, i: usize) -> (r: &mut V)
        requires
            i < old(self).order().len(),
        ensures
            *r == old(self).contents()[i as int],
            *r == old(self)@[old(self).order()[i as int]],
            final(self)@ == old(self)@.insert(old(self).order()[i as int], *final(r)),
            final(self).order() == old(self).order(),
    {
        let _n: usize = self.len();
        proof {
            use_type_invariant(&*self);
            self.lemma_update(self.order()[i as int], i as int);
            assert(self@[self.order()[i as int]] == self.contents()[i as int]);
        }
        &mut self.values[i]
    }

    /// Sets the value of `key` and returns the previous one. A new key goes to
    /// the end of the order; a known key keeps its position.
    pub fn insert(&mut self, key: String, value: V) -> (r: Option<V>)
        ensures
            final(self)@ == old(self)@.insert(key@, value),
            match r {
                Some(v) => {
                    &&& old(self)@.contains_key(key@)
                    &&& v == old(self)@[key@]
                    &&& final(self).order() == old(self).order()
                },
                None => {
                    &&& !old(self)@.contains_key(key@)
                    &&& final(self).order() == old(self).order().push(key@)
                },
            },
    {
        let pos = self.find(key.as_str());
        let mut taken: StrMap<V> = StrMap::new();
        std::mem::swap(self, &mut taken);
        proof {
            use_type_invariant(&taken);
        }
        let ghost before = taken;
        let ghost ord = taken.order();
        let StrMap { keys: mut ks, values: mut vs } = taken;
        match pos {
            Some(i) => {
                let mut v: V = value;
                let ghost stored = v;
                std::mem::swap(&mut v, &mut vs[i]);
                *self = StrMap { keys: ks, values: vs };
                proof {
                    assert(self.order() =~= ord);
                    assert forall|k: Seq<char>| ord.contains(k) && k != key@ implies #[trigger] position(
                        ord,
                        k,
                    ) != i by {
                        assert(ord[ord.index_of(k)] == k);
                    }
                    assert(self@ =~= before@.insert(key@, stored));
                }
                Some(v)
            },
            None => {
                let ghost k0 = key@;
                ks.push(key);
                vs.push(value);
                proof {
                    let nord = Seq::new(ks@.len(), |i: int| ks@[i]@);
                    assert(nord =~= ord.push(k0));
                }
                *self = StrMap { keys: ks, values: vs };
                proof {
                    assert(self.order() =~= ord.push(k0));
                    assert(self.order()[ord.len() as int] == k0);
                    assert forall|k: Seq<char>| ord.contains(k) implies #[trigger] position(
                        ord.push(k0),
                        k,
                    ) == position(ord, k) && ord.push(k0).contains(k) && 0 <= position(ord, k)
                        < ord.len() by {
                        let p = ord.index_of(k);
                        assert(ord[p] == k);
                        assert(ord.push(k0)[p] == k);
                        lemma_position(ord.push(k0), p);
                    }
                    lemma_position(ord.push(k0), ord.len() as int);
                    assert forall|k: Seq<char>| ord.push(k0).contains(k) implies ord.contains(k) || k == k0 by {
                        let p = ord.push(k0).index_of(k);
                        assert(ord.push(k0)[p] == k);
                        if p < ord.len() {
                            assert(ord[p] == k);
                        }
                    }
                    assert(self.contents() == before.contents().push(value));
                    assert forall|k: Seq<char>| #[trigger] before@.insert(k0, value).contains_key(k) implies self@[k]
                        == before@.insert(k0, value)[k] by {
                        if k != k0 {
                            assert(ord.contains(k));
                            assert(position(ord.push(k0), k) == position(ord, k));
                        }
                    }
                    assert forall|k: Seq<char>| #[trigger] self@.contains_key(k)
                        <==> before@.insert(k0, value).contains_key(k) by {
                        if k != k0 {
                            assert(ord.push(k0).contains(k) ==> ord.contains(k));
                            if ord.contains(k) {
                                assert(position(ord.push(k0), k) == position(ord, k));
                            }
                        }
                    }
                    assert(self@ =~= before@.insert(k0, value));
                }
                None
            },
        }
    }

    /// Removes `key` and returns its value. The other keys keep their order.
    pub fn remove(&mut self, key: &str) -> (r: Option<V>)
        ensures
            final(self)@ == old(self)@.remove(key@),
            match r {
                Some(v) => {
                    &&& old(self)@.contains_key(key@)
                    &&& v == old(self)@[key@]
                    &&& final(self).order() == old(self).order().remove(
                        position(old(self).order(), key@),
                    )
                },
                None => !old(self)@.contains_key(key@) && final(self).order() == old(
                    self,
                ).order(),
            },
    {
        match self.find(key) {
            Some(i) => Some(self.remove_at(i).1),
            None => {
                assert(self@.remove(key@) =~= self@);
                None
            },
        }
    }

    /// Removes the key in position `i` of the order with its value.
    pub fn remove_at(&mut self, i: usize) -> (r: (String, V))
        requires
            i < old(self).order().len(),
        ensures
            r.0@ == old(self).order()[i as int],
            old(self)@.contains_key(r.0@),
            r.1 == old(self)@[r.0@],
            position(old(self).order(), r.0@) == i,
            final(self)@ == old(self)@.remove(r.0@),
            final(self).order() == old(self).order().remove(i as int),
            final(self).contents() == old(self).contents().remove(i as int),
    {
        let _n: usize = self.len();
        let mut taken: StrMap<V> = StrMap::new();
        std::mem::swap(self, &mut taken);
        proof {
            use_type_invariant(&taken);
        }
        let ghost before = taken;
        let ghost ord = taken.order();
        let StrMap { keys: mut ks, values: mut vs } = taken;
        let k = ks.remove(i);
        let v = vs.remove(i);
        proof {
            let nord = Seq::new(ks@.len(), |j: int| ks@[j]@);
            assert(nord =~= ord.remove(i as int));
            assert forall|a: int, b: int| 0 <= a < nord.len() && 0 <= b < nord.len() && a != b implies nord[a]
                != nord[b] by {
                let a1 = if a < i { a } else { a + 1 };
                let b1 = if b < i { b } else { b + 1 };
                assert(nord[a] == ord[a1]);
                assert(nord[b] == ord[b1]);
            }
        }
        *self = StrMap { keys: ks, values: vs };
        proof {
            let nord = self.order();
            assert(nord =~= ord.remove(i as int));
            lemma_position(ord, i as int);
            assert forall|x: Seq<char>| nord.contains(x) <==> (ord.contains(x) && x != k@) by {
                if nord.contains(x) {
                    let p = nord.index_of(x);
                    assert(nord[p] == x);
                    let q = if p < i { p } else { p + 1 };
                    assert(ord[q] == x);
                }
                if ord.contains(x) && x != k@ {
                    let q = ord.index_of(x);
                    assert(ord[q] == x);
                    let p = if q < i { q } else { q - 1 };
                    assert(nord[p] == x);
                }
            }
            assert forall|x: Seq<char>| ord.contains(x) && x != k@ implies self.contents()[#[trigger] position(
                nord,
                x,
            )] == before.contents()[position(ord, x)] by {
                let q = ord.index_of(x);
                assert(ord[q] == x);
                let p = if q < i { q } else { q - 1 };
                assert(nord[p] == x);
                lemma_position(nord, p);
            }
            assert(self@ =~= before@.remove(k@));
        }
        (k, v)
    }

    /// Removes every entry.
    pub fn clear(&mut self)
        ensures
            final(self)@ == Map::<Seq<char>, V>::empty(),
            final(self).order() == Seq::<Seq<char>>::empty(),
    {
        *self = StrMap::new();
    }
}

impl StrMap<String> {
    /// A copy of the map.
    pub fn copy(&self) -> (r: Self)
        ensures
            r@ == self@,
            r.order() == self.order(),
    {
        let n: usize = self.len();
        let ghost order = self.order();
        let mut r: StrMap<String> = StrMap::new();
        let mut i: usize = 0;
        assert(order.take(0) =~= Seq::<Seq<char>>::empty());
        while i < n
            invariant
                i <= n,
                n == order.len(),
                order == self.order(),
                order.no_duplicates(),
                r.order() == order.take(i as int),
                forall|k: Seq<char>| #[trigger] r@.contains_key(k) <==> order.take(i as int).contains(k),
                forall|j: int| 0 <= j < i ==> r@[#[trigger] order[j]] == self@[order[j]],
            decreases n - i,
        {
            let ghost done = order.take(i as int);
            let ghost more = order.take(i + 1);
            proof {
                assert(more =~= done.push(order[i as int]));
                if done.contains(order[i as int]) {
                    let x = done.index_of(order[i as int]);
                    assert(order[x] == order[i as int]);
                }
                assert forall|k: Seq<char>| #[trigger] more.contains(k) <==> done.contains(k) || k
                    == order[i as int] by {
                    if done.contains(k) {
                        let x = done.index_of(k);
                        assert(more[x] == k);
                    }
                    if k == order[i as int] {
                        assert(more[i as int] == k);
                    }
                    if more.contains(k) {
                        let x = more.index_of(k);
                        if x < i {
                            assert(done[x] == k);
                        }
                    }
                }
            }
            let _old = r.insert(self.key_at(i).clone(), self.value_at(i).clone());
            i += 1;
        }
        proof {
            assert(order.take(n as int) =~= order);
            assert forall|k: Seq<char>| #[trigger] self@.contains_key(k) implies r@[k] == self@[k] by {
                let j = order.index_of(k);
                assert(order[j] == k);
            }
            assert(r@ =~= self@);
        }
        r
    }
}

} // verus!
