//! The operations on strings that conditions use: comparison, search, and
//! their variants that ignore the case of ASCII letters.

use crate::parser::names::{bytes_less, bytes_lt};
use vstd::prelude::*;

verus! {

/// The byte with an ASCII capital letter made small; any other byte as it
/// is.
pub open spec fn lower(b: u8) -> u8 {
    if 0x41 <= b <= 0x5a {
        (b + 32) as u8
    } else {
        b
    }
}

/// The string as it is compared: with its ASCII capital letters made small
/// where case is ignored, as it is where not.
pub open spec fn folded(s: Seq<u8>, ignore_case: bool) -> Seq<u8> {
    if ignore_case {
        Seq::new(s.len(), |i: int| lower(s[i]))
    } else {
        s
    }
}

/// `needle` stands in `haystack` at position `at`.
pub open spec fn occurs_at(haystack: Seq<u8>, needle: Seq<u8>, at: int) -> bool {
    0 <= at && at + needle.len() <= haystack.len() && haystack.subrange(at, at + needle.len())
        == needle
}

/// `needle` stands somewhere in `haystack`.
pub open spec fn occurs(haystack: Seq<u8>, needle: Seq<u8>) -> bool {
    exists|at: int| occurs_at(haystack, needle, at)
}

/// Makes an ASCII capital letter small.
pub fn to_lower(b: u8) -> (r: u8)
    ensures
        r == lower(b),
{
    if 0x41 <= b && b <= 0x5a {
        b + 32
    } else {
        b
    }
}

/// Tells whether `needle` stands in `haystack` at position `at`.
pub fn matches_at(haystack: &[u8], needle: &[u8], at: usize, ignore_case: bool) -> (r: bool)
    ensures
        r == occurs_at(folded(haystack@, ignore_case), folded(needle@, ignore_case), at as int),
{
    if at > haystack.len() || needle.len() > haystack.len() - at {
        return false;
    }
    let ghost h = folded(haystack@, ignore_case);
    let ghost n = folded(needle@, ignore_case);
    let len = haystack.len();
    let mut i: usize = 0;
    while i < needle.len()
        invariant
            i <= needle@.len(),
            len == haystack@.len(),
            at + needle@.len() <= len,
            h == folded(haystack@, ignore_case),
            n == folded(needle@, ignore_case),
            forall|j: int| 0 <= j < i ==> h[at + j] == n[j],
        decreases needle@.len() - i,
    {
        let x = haystack[at + i];
        let y = needle[i];
        let same = if ignore_case {
            to_lower(x) == to_lower(y)
        } else {
            x == y
        };
        if !same {
            assert(h.subrange(at as int, at + needle@.len())[i as int] != n[i as int]);
            return false;
        }
        i += 1;
    }
    assert(h.subrange(at as int, at + needle@.len()) =~= n);
    true
}

/// Tells whether the strings are the same.
pub fn equals(a: &[u8], b: &[u8], ignore_case: bool) -> (r: bool)
    ensures
        r == (folded(a@, ignore_case) == folded(b@, ignore_case)),
{
    if a.len() != b.len() {
        assert(folded(a@, ignore_case).len() != folded(b@, ignore_case).len());
        return false;
    }
    let r = matches_at(a, b, 0, ignore_case);
    proof {
        let fa = folded(a@, ignore_case);
        assert(fa.subrange(0, fa.len() as int) =~= fa);
    }
    r
}

/// Tells whether `a` starts with `b`.
pub fn starts_with(a: &[u8], b: &[u8], ignore_case: bool) -> (r: bool)
    ensures
        r == occurs_at(folded(a@, ignore_case), folded(b@, ignore_case), 0),
{
    matches_at(a, b, 0, ignore_case)
}

/// Tells whether `a` ends with `b`.
pub fn ends_with(a: &[u8], b: &[u8], ignore_case: bool) -> (r: bool)
    ensures
        r == occurs_at(
            folded(a@, ignore_case),
            folded(b@, ignore_case),
            a@.len() - b@.len(),
        ),
{
    if b.len() > a.len() {
        return false;
    }
    matches_at(a, b, a.len() - b.len(), ignore_case)
}

/// Tells whether `b` stands somewhere in `a`.
pub fn contains(a: &[u8], b: &[u8], ignore_case: bool) -> (r: bool)
    ensures
        r == occurs(folded(a@, ignore_case), folded(b@, ignore_case)),
{
    let ghost h = folded(a@, ignore_case);
    let ghost n = folded(b@, ignore_case);
    if b.len() > a.len() {
        assert(!occurs(h, n)) by {
            assert forall|at: int| !occurs_at(h, n, at) by {}
        }
        return false;
    }
    let last = a.len() - b.len();
    let mut at: usize = 0;
    if last == usize::MAX {
        // Only the empty string can be sought in a string of this length,
        // and it stands at the start.
        let found = matches_at(a, b, 0, ignore_case);
        assert(occurs_at(h, n, 0)) by {
            assert(h.subrange(0, 0) =~= n);
        }
        return found;
    }
    while at <= last
        invariant
            last < usize::MAX,
            at <= last + 1,
            last == a@.len() - b@.len(),
            h == folded(a@, ignore_case),
            n == folded(b@, ignore_case),
            forall|k: int| 0 <= k < at ==> !occurs_at(h, n, k),
        decreases last + 1 - at,
    {
        if matches_at(a, b, at, ignore_case) {
            assert(occurs_at(h, n, at as int));
            return true;
        }
        at += 1;
    }
    assert(!occurs(h, n)) by {
        assert forall|k: int| !occurs_at(h, n, k) by {}
    }
    false
}

/// Tells whether `a` comes before `b`.
pub fn less(a: &[u8], b: &[u8]) -> (r: bool)
    ensures
        r == bytes_lt(a@, b@),
{
    bytes_less(a, b)
}

} // verus!
