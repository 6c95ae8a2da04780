//! Pools that hold each distinct string once and name it by a number.

use crate::compiler::ids::{IdentId, LiteralId};
use crate::name_index::NameIndex;
use vstd::prelude::*;

verus! {

/// Pool of identifiers. The number of an identifier is the count of distinct
/// identifiers interned before it.
pub struct StringPool {
    names: NameIndex,
}

impl StringPool {
    /// The identifiers, each at the position that is its number.
    pub closed spec fn view(&self) -> Seq<Seq<char>> {
        self.names@
    }

    /// The pool's index is consistent and every number fits in 32 bits.
    pub closed spec fn wf(&self) -> bool {
        self.names.wf() && self.names@.len() <= u32::MAX
    }

    /// Equal strings have equal numbers and different strings different
    /// ones: a string stands at one position only.
    pub proof fn lemma_interning(&self, a: IdentId, b: IdentId)
        requires
            self.wf(),
            a.0 < self@.len(),
            b.0 < self@.len(),
        ensures
            (self@[a.0 as int] == self@[b.0 as int]) <==> a == b,
    {
        if self@[a.0 as int] == self@[b.0 as int] {
            self.names.lemma_distinct(a.0 as int, b.0 as int);
        }
    }

    pub fn new() -> (pool: StringPool)
        ensures
            pool.wf(),
            pool@.len() == 0,
    {
        StringPool { names: NameIndex::new() }
    }

    /// How many identifiers the pool holds.
    pub fn len(&self) -> (n: usize)
        ensures
            n == self@.len(),
    {
        self.names.len()
    }

    /// Tells whether one more identifier fits.
    pub fn has_room(&self) -> (b: bool)
        ensures
            b == (self@.len() < u32::MAX),
    {
        self.names.len() < u32::MAX as usize
    }

    /// The number of `s`, which enters the pool if it is new. What the pool
    /// held keeps its number.
    pub fn get_or_intern(&mut self, s: &str) -> (id: IdentId)
        requires
            old(self).wf(),
            old(self)@.len() < u32::MAX,
        ensures
            final(self).wf(),
            id.0 < final(self)@.len(),
            final(self)@[id.0 as int] == s@,
            old(self)@.contains(s@) ==> final(self)@ == old(self)@,
            !old(self)@.contains(s@) ==> final(self)@ == old(self)@.push(s@) && id.0 == old(
                self,
            )@.len(),
    {
        let i = self.names.insert(s);
        IdentId(i as u32)
    }

    /// The number of `s`, if the pool holds it.
    pub fn get_id(&self, s: &str) -> (id: Option<IdentId>)
        requires
            self.wf(),
        ensures
            match id {
                Some(id) => id.0 < self@.len() && self@[id.0 as int] == s@,
                None => !self@.contains(s@),
            },
    {
        match self.names.get(s) {
            Some(i) => Some(IdentId(i as u32)),
            None => None,
        }
    }

    /// The identifier with the given number.
    pub fn get(&self, id: IdentId) -> (s: Option<&str>)
        ensures
            match s {
                Some(s) => id.0 < self@.len() && s@ == self@[id.0 as int],
                None => id.0 >= self@.len(),
            },
    {
        if (id.0 as usize) < self.names.len() {
            Some(self.names.name(id.0 as usize))
        } else {
            None
        }
    }
}

/// Pool of literal strings, which may hold any bytes.
pub struct BStringPool {
    literals: Vec<Vec<u8>>,
}

impl BStringPool {
    /// The literals, each at the position that is its number.
    pub closed spec fn view(&self) -> Seq<Seq<u8>> {
        Seq::new(self.literals@.len(), |i: int| self.literals@[i]@)
    }

    /// No literal stands twice and every number fits in 32 bits.
    pub closed spec fn wf(&self) -> bool {
        &&& self.literals@.len() <= u32::MAX
        &&& forall|i: int, j: int|
            0 <= i < j < self.literals@.len() ==> self.literals@[i]@ != self.literals@[j]@
    }

    /// Equal literals have equal numbers and different literals different
    /// ones.
    pub proof fn lemma_interning(&self, a: LiteralId, b: LiteralId)
        requires
            self.wf(),
            a.0 < self@.len(),
            b.0 < self@.len(),
        ensures
            (self@[a.0 as int] == self@[b.0 as int]) <==> a == b,
    {
    }

    pub fn new() -> (pool: BStringPool)
        ensures
            pool.wf(),
            pool@.len() == 0,
    {
        BStringPool { literals: Vec::new() }
    }

    /// How many literals the pool holds.
    pub fn len(&self) -> (n: usize)
        ensures
            n == self@.len(),
    {
        self.literals.len()
    }

    /// The number of `s`, if the pool holds it.
    pub fn get_id(&self, s: &[u8]) -> (id: Option<LiteralId>)
        requires
            self.wf(),
        ensures
            match id {
                Some(id) => id.0 < self@.len() && self@[id.0 as int] == s@,
                None => !self@.contains(s@),
            },
    {
        let mut i: usize = 0;
        while i < self.literals.len()
            invariant
                i <= self.literals.len(),
                self.wf(),
                forall|j: int| 0 <= j < i ==> self@[j] != s@,
            decreases self.literals.len() - i,
        {
            if bytes_equal(self.literals[i].as_slice(), s) {
                return Some(LiteralId(i as u32));
            }
            i += 1;
        }
        None
    }

    /// The number of `s`, which enters the pool if it is new. What the pool
    /// held keeps its number.
    pub fn get_or_intern(&mut self, s: &[u8]) -> (id: LiteralId)
        requires
            old(self).wf(),
            old(self)@.len() < u32::MAX,
        ensures
            final(self).wf(),
            id.0 < final(self)@.len(),
            final(self)@[id.0 as int] == s@,
            old(self)@.contains(s@) ==> final(self)@ == old(self)@,
            !old(self)@.contains(s@) ==> final(self)@ == old(self)@.push(s@) && id.0 == old(
                self,
            )@.len(),
    {
        match self.get_id(s) {
            Some(id) => id,
            None => {
                let ghost before = *self;
                let i = self.literals.len();
                self.literals.push(copy_bytes(s));
                proof {
                    assert(self@ =~= before@.push(s@));
                    assert forall|a: int, b: int| 0 <= a < b < self.literals@.len() implies self.literals@[a]@
                        != self.literals@[b]@ by {
                        if b == i {
                            assert(before@[a] == self.literals@[a]@);
                            assert(before@.contains(before@[a]));
                        }
                    }
                }
                LiteralId(i as u32)
            },
        }
    }

    /// The literal with the given number.
    pub fn get(&self, id: LiteralId) -> (s: Option<&[u8]>)
        ensures
            match s {
                Some(s) => id.0 < self@.len() && s@ == self@[id.0 as int],
                None => id.0 >= self@.len(),
            },
    {
        if (id.0 as usize) < self.literals.len() {
            Some(self.literals[id.0 as usize].as_slice())
        } else {
            None
        }
    }
}

/// Tells whether two byte strings are the same.
pub fn bytes_equal(a: &[u8], b: &[u8]) -> (same: bool)
    ensures
        same == (a@ == b@),
{
    if a.len() != b.len() {
        return false;
    }
    let mut i: usize = 0;
    while i < a.len()
        invariant
            a.len() == b.len(),
            i <= a.len(),
            forall|j: int| 0 <= j < i ==> a@[j] == b@[j],
        decreases a.len() - i,
    {
        if a[i] != b[i] {
            return false;
        }
        i += 1;
    }
    assert(a@ =~= b@);
    true
}

/// A vector with the bytes of `s`.
pub fn copy_bytes(s: &[u8]) -> (v: Vec<u8>)
    ensures
        v@ == s@,
{
    let mut v: Vec<u8> = Vec::new();
    let mut i: usize = 0;
    while i < s.len()
        invariant
            i <= s.len(),
            v@ == s@.take(i as int),
        decreases s.len() - i,
    {
        v.push(s[i]);
        assert(v@ =~= s@.take(i + 1));
        i += 1;
    }
    assert(s@.take(s.len() as int) =~= s@);
    v
}

} // verus!
