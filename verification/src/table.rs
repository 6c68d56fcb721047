//! A table keyed by text: values in the order in which their keys first came, found
//! again through a `DashMap` from key to position.
use dashmap::DashMap;
use vstd::prelude::*;

verus! {

/// `dashmap::DashMap`, an opaque map from keys to values.
#[verifier::external_type_specification]
#[verifier::external_body]
#[verifier::reject_recursive_types(K)]
#[verifier::reject_recursive_types(V)]
#[verifier::reject_recursive_types(S)]
pub struct ExDashMap<K, V, S>(DashMap<K, V, S>);

/// What a `DashMap` from text to position holds. A table keeps its map to itself, so
/// that nothing but `positions_insert` changes it.
pub uninterp spec fn positions(m: DashMap<String, usize>) -> Map<Seq<char>, usize>;

/// `DashMap::new` makes a map that holds nothing.
#[verifier::external_body]
fn positions_new() -> (m: DashMap<String, usize>)
    ensures
        (positions(m) == Map::<Seq<char>, usize>::empty()),
{
    DashMap::new()
}

/// `DashMap::get` finds the value of a key; keys are equal where their characters
/// are.
#[verifier::external_body]
fn positions_get(m: &DashMap<String, usize>, key: &str) -> (r: Option<usize>)
    ensures
        r == (if positions(*m).contains_key(key@) {
            Some(positions(*m)[key@])
        } else {
            None
        }),
{
    m.get(key).map(|entry| *entry)
}

/// `DashMap::insert` sets the value of one key and leaves the others.
#[verifier::external_body]
fn positions_insert(m: &mut DashMap<String, usize>, key: String, position: usize)
    ensures
        positions(*final(m)) == positions(*old(m)).insert(key@, position),
{
    m.insert(key, position);
}

/// A map from text to `V` that can also be walked by position.
pub struct Table<V> {
    index: DashMap<String, usize>,
    keys: Vec<String>,
    values: Vec<V>,
}

impl<V> View for Table<V> {
    type V = Map<Seq<char>, V>;

    closed spec fn view(&self) -> Map<Seq<char>, V> {
        Map::new(
            |k: Seq<char>| positions(self.index).contains_key(k),
            |k: Seq<char>| self.values@[positions(self.index)[k] as int],
        )
    }
}

impl<V> Table<V> {
    /// The index names each key with its position, and nothing else.
    pub closed spec fn wf(&self) -> bool {
        &&& self.keys@.len() == self.values@.len()
        &&& forall|i: int|
            0 <= i < self.keys@.len() ==> {
                &&& positions(self.index).contains_key(#[trigger] self.keys@[i]@)
                &&& positions(self.index)[self.keys@[i]@] == i
            }
        &&& forall|k: Seq<char>| #[trigger]
            positions(self.index).contains_key(k) ==> {
                &&& positions(self.index)[k] < self.keys@.len()
                &&& self.keys@[positions(self.index)[k] as int]@ == k
            }
    }

    /// The keys in the order in which they first came.
    pub closed spec fn order(&self) -> Seq<Seq<char>> {
        self.keys@.map_values(|k: String| k@)
    }

    /// In a sound table the order lists exactly the keys, each once.
    pub proof fn lemma_order(&self)
        requires
            self.wf(),
        ensures
            self.order().no_duplicates(),
            forall|k: Seq<char>| #[trigger] self@.contains_key(k) <==> self.order().contains(k),
    {
        let order = self.order();
        assert forall|i: int, j: int|
            0 <= i < order.len() && 0 <= j < order.len() && i != j implies order[i]
            != order[j] by {
            assert(positions(self.index)[self.keys@[i]@] == i);
            assert(positions(self.index)[self.keys@[j]@] == j);
        }
        assert forall|k: Seq<char>| #[trigger] self@.contains_key(k) <==> order.contains(k) by {
            if self@.contains_key(k) {
                assert(positions(self.index).contains_key(k));
                let i = positions(self.index)[k] as int;
                assert(order[i] == k);
            }
            if order.contains(k) {
                let i = choose|i: int| 0 <= i < order.len() && order[i] == k;
                assert(self.keys@[i]@ == k);
            }
        }
    }

    pub fn new() -> (t: Table<V>)
        ensures
            t.wf(),
            t@ == Map::<Seq<char>, V>::empty(),
            t.order() == Seq::<Seq<char>>::empty(),
    {
        let t = Table { index: positions_new(), keys: Vec::new(), values: Vec::new() };
        assert(t@ =~= Map::<Seq<char>, V>::empty());
        assert(t.order() =~= Seq::<Seq<char>>::empty());
        t
    }

    pub fn len(&self) -> (n: usize)
        ensures
            n == self.order().len(),
    {
        self.keys.len()
    }

    /// The position of a key.
    pub fn find(&self, key: &str) -> (r: Option<usize>)
        requires
            self.wf(),
        ensures
            r is Some <==> self@.contains_key(key@),
            r matches Some(i) ==> i < self.order().len() && self.order()[i as int] == key@,
    {
        match positions_get(&self.index, key) {
            Some(p) => {
                assert(positions(self.index).contains_key(key@));
                Some(p)
            },
            None => None,
        }
    }

    pub fn contains(&self, key: &str) -> (r: bool)
        requires
            self.wf(),
        ensures
            r == self@.contains_key(key@),
    {
        self.find(key).is_some()
    }

    pub fn get(&self, key: &str) -> (r: Option<&V>)
        requires
            self.wf(),
        ensures
            r == (if self@.contains_key(key@) {
                Some(&self@[key@])
            } else {
                None
            }),
    {
        match positions_get(&self.index, key) {
            Some(p) => {
                assert(positions(self.index).contains_key(key@));
                Some(&self.values[p])
            },
            None => None,
        }
    }

    /// The key at a position.
    pub fn key_at(&self, i: usize) -> (r: &String)
        requires
            i < self.order().len(),
        ensures
            r@ == self.order()[i as int],
    {
        &self.keys[i]
    }

    /// The value at a position.
    pub fn value_at(&self, i: usize) -> (r: &V)
        requires
            self.wf(),
            i < self.order().len(),
        ensures
            *r == self@[self.order()[i as int]],
    {
        proof {
            assert(positions(self.index).contains_key(self.keys@[i as int]@));
        }
        &self.values[i]
    }

    /// The value at a position, to be changed in place.
    pub fn value_mut(&mut self, i: usize) -> (r: &mut V)
        requires
            old(self).wf(),
            i < old(self).order().len(),
        ensures
            *r == old(self)@[old(self).order()[i as int]],
            final(self).wf(),
            final(self).order() == old(self).order(),
            final(self)@ == old(self)@.insert(old(self).order()[i as int], *final(r)),
    {
        proof {
            assert(positions(self.index).contains_key(self.keys@[i as int]@));
        }
        &mut self.values[i]
    }

    /// Sets the value of a key; a new key comes last.
    pub fn set(&mut self, key: &str, value: V)
        requires
            old(self).wf(),
        ensures
            final(self).wf(),
            final(self)@ == old(self)@.insert(key@, value),
            final(self).order() == (if old(self)@.contains_key(key@) {
                old(self).order()
            } else {
                old(self).order().push(key@)
            }),
    {
        match positions_get(&self.index, key) {
            Some(p) => {
                assert(positions(self.index).contains_key(key@));
                self.values.set(p, value);
                assert(self@ =~= old(self)@.insert(key@, value));
                assert(self.order() =~= old(self).order());
            },
            None => {
                let at: usize = self.keys.len();
                self.keys.push(key.to_string());
                self.values.push(value);
                positions_insert(&mut self.index, key.to_string(), at);
                proof {
                    let ghost was = old(self);
                    assert(self.keys@[at as int]@ == key@);
                    assert forall|i: int| 0 <= i < self.keys@.len() implies {
                        &&& positions(self.index).contains_key(#[trigger] self.keys@[i]@)
                        &&& positions(self.index)[self.keys@[i]@] == i
                    } by {
                        if i < at {
                            assert(self.keys@[i] == was.keys@[i]);
                        }
                    }
                    assert(self@ =~= old(self)@.insert(key@, value));
                    assert(self.order() =~= old(self).order().push(key@));
                }
            },
        }
    }
}

} // verus!
