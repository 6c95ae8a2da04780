//! Names numbered in the order in which they were first seen.
//!
//! A `NameIndex` keeps the names in a vector and finds a name's number
//! through a hash map of the `rustc_hash` crate. The map is reached through
//! four items with stated contracts; what is built on them is verified.

use rustc_hash::FxHashMap;
use rustc_hash::FxHasher;
use std::hash::BuildHasherDefault;
use vstd::prelude::*;

verus! {

#[verifier::external_type_specification]
#[verifier::external_body]
pub struct ExFxHasher(FxHasher);

#[verifier::external_type_specification]
#[verifier::external_body]
#[verifier::reject_recursive_types(H)]
pub struct ExBuildHasherDefault<H>(BuildHasherDefault<H>);

/// What a map from names to numbers holds: for each key, by its characters,
/// the number stored under it.
pub uninterp spec fn fx_entries(m: FxHashMap<String, usize>) -> Map<Seq<char>, usize>;

/// `FxHashMap::default`: a map that holds nothing.
#[verifier::external_body]
fn fx_new() -> (m: FxHashMap<String, usize>)
    ensures
        forall|k: Seq<char>| !fx_entries(m).dom().contains(k),
{
    FxHashMap::default()
}

/// `HashMap::get`: the number stored under `key`, if the map holds the key.
#[verifier::external_body]
fn fx_get(m: &FxHashMap<String, usize>, key: &str) -> (found: Option<usize>)
    ensures
        found == if fx_entries(*m).dom().contains(key@) {
            Some(fx_entries(*m)[key@])
        } else {
            None
        },
{
    m.get(key).copied()
}

/// `HashMap::insert`: afterwards the map holds `value` under `key`, and
/// under every other key what it held before.
#[verifier::external_body]
fn fx_insert(m: &mut FxHashMap<String, usize>, key: String, value: usize)
    ensures
        fx_entries(*final(m)) == fx_entries(*old(m)).insert(key@, value),
{
    m.insert(key, value);
}

/// A set of names, each with the number of its first insertion.
pub struct NameIndex {
    names: Vec<String>,
    numbers: FxHashMap<String, usize>,
}

impl NameIndex {
    /// The names, each at the position that is its number.
    pub closed spec fn view(&self) -> Seq<Seq<char>> {
        Seq::new(self.names@.len(), |i: int| self.names@[i]@)
    }

    /// The hash map and the vector agree.
    pub closed spec fn wf(&self) -> bool {
        &&& forall|i: int|
            0 <= i < self.names@.len() ==> fx_entries(self.numbers).dom().contains(
                #[trigger] self.names@[i]@,
            ) && fx_entries(self.numbers)[self.names@[i]@] == i
        &&& forall|k: Seq<char>| #[trigger]
            fx_entries(self.numbers).dom().contains(k) ==> fx_entries(self.numbers)[k]
                < self.names@.len() && self.names@[fx_entries(self.numbers)[k] as int]@ == k
    }

    /// In a well-formed index no name stands at two positions.
    pub proof fn lemma_distinct(&self, i: int, j: int)
        requires
            self.wf(),
            0 <= i < self@.len(),
            0 <= j < self@.len(),
            self@[i] == self@[j],
        ensures
            i == j,
    {
        assert(self.names@[i]@ == self@[i]);
        assert(self.names@[j]@ == self@[j]);
    }

    pub fn new() -> (index: NameIndex)
        ensures
            index.wf(),
            index@ == Seq::<Seq<char>>::empty(),
    {
        let index = NameIndex { names: Vec::new(), numbers: fx_new() };
        assert(index@ =~= Seq::<Seq<char>>::empty());
        index
    }

    pub fn len(&self) -> (n: usize)
        ensures
            n == self@.len(),
    {
        self.names.len()
    }

    /// The number of `name`, if the index holds it.
    pub fn get(&self, name: &str) -> (found: Option<usize>)
        requires
            self.wf(),
        ensures
            match found {
                Some(i) => i < self@.len() && self@[i as int] == name@,
                None => !self@.contains(name@),
            },
    {
        let found = fx_get(&self.numbers, name);
        proof {
            if found is None && self@.contains(name@) {
                let i = choose|i: int| 0 <= i < self@.len() && self@[i] == name@;
                assert(self.names@[i]@ == name@);
            }
        }
        found
    }

    /// The name with number `i`.
    pub fn name(&self, i: usize) -> (name: &str)
        requires
            i < self@.len(),
        ensures
            name@ == self@[i as int],
    {
        self.names[i].as_str()
    }

    /// The number of `name`, which is added at the end if the index does not
    /// hold it yet.
    pub fn insert(&mut self, name: &str) -> (i: usize)
        requires
            old(self).wf(),
        ensures
            final(self).wf(),
            i < final(self)@.len(),
            final(self)@[i as int] == name@,
            old(self)@.contains(name@) ==> final(self)@ == old(self)@,
            !old(self)@.contains(name@) ==> final(self)@ == old(self)@.push(name@) && i == old(
                self,
            )@.len(),
    {
        match self.get(name) {
            Some(i) => i,
            None => {
                let i = self.names.len();
                let ghost before = *self;
                self.names.push(String::from_str(name));
                fx_insert(&mut self.numbers, String::from_str(name), i);
                proof {
                    assert(self@ =~= before@.push(name@));
                    assert forall|j: int| 0 <= j < self.names@.len() implies fx_entries(
                        self.numbers,
                    ).dom().contains(#[trigger] self.names@[j]@) && fx_entries(
                        self.numbers,
                    )[self.names@[j]@] == j by {
                        if j < i {
                            assert(self.names@[j] == before.names@[j]);
                            assert(before@[j] == before.names@[j]@);
                            assert(before@.contains(before@[j]));
                        }
                    }
                }
                i
            },
        }
    }
}

} // verus!
