//! The order of strings, and sequences of names without repetition in that
//! order.
//!
//! Rust orders `str` values by their UTF-8 bytes, lexicographically. The
//! definitions here state that order over the views of strings, so that a
//! sorted list of names is a mathematical object that contracts can speak of.

use vstd::prelude::*;
use vstd::utf8::*;

verus! {

/// The first index at or after `i` where `a` and `b` differ or one of them
/// ends.
pub open spec fn common_prefix(a: Seq<u8>, b: Seq<u8>, i: int) -> int
    decreases a.len() - i,
{
    if 0 <= i < a.len() && i < b.len() && a[i] == b[i] {
        common_prefix(a, b, i + 1)
    } else {
        i
    }
}

/// `a` comes strictly before `b` in the lexicographic order of bytes.
pub open spec fn bytes_lt(a: Seq<u8>, b: Seq<u8>) -> bool {
    let k = common_prefix(a, b, 0);
    k < b.len() && (k == a.len() || a[k] < b[k])
}

/// `a` comes strictly before `b` in the order of `str`.
pub open spec fn name_lt(a: Seq<char>, b: Seq<char>) -> bool {
    bytes_lt(encode_utf8(a), encode_utf8(b))
}

/// Every element comes strictly before all later ones.
pub open spec fn strictly_sorted(s: Seq<Seq<char>>) -> bool {
    forall|i: int, j: int| 0 <= i < j < s.len() ==> name_lt(#[trigger] s[i], #[trigger] s[j])
}

/// `out` holds exactly the elements of `names`, each once, in ascending order.
pub open spec fn is_sorted_distinct_of(out: Seq<Seq<char>>, names: Seq<Seq<char>>) -> bool {
    &&& strictly_sorted(out)
    &&& forall|x: Seq<char>| out.contains(x) <==> names.contains(x)
}

/// The elements of `names` in ascending order, each once.
pub open spec fn sorted_distinct(names: Seq<Seq<char>>) -> Seq<Seq<char>> {
    choose|out: Seq<Seq<char>>| is_sorted_distinct_of(out, names)
}

/// The views of a sequence of string slices.
pub open spec fn views(v: Seq<&str>) -> Seq<Seq<char>> {
    Seq::new(v.len(), |i: int| v[i]@)
}

/// What `common_prefix` returns lies between `i` and both lengths, the two
/// sequences agree below it, and they differ at it where both go on.
pub proof fn lemma_common_prefix(a: Seq<u8>, b: Seq<u8>, i: int)
    requires
        0 <= i <= a.len(),
        i <= b.len(),
    ensures
        i <= common_prefix(a, b, i) <= a.len(),
        common_prefix(a, b, i) <= b.len(),
        forall|j: int| i <= j < common_prefix(a, b, i) ==> a[j] == b[j],
        common_prefix(a, b, i) < a.len() && common_prefix(a, b, i) < b.len() ==> a[common_prefix(
            a,
            b,
            i,
        )] != b[common_prefix(a, b, i)],
    decreases a.len() - i,
{
    if i < a.len() && i < b.len() && a[i] == b[i] {
        lemma_common_prefix(a, b, i + 1);
    }
}

/// An index with the properties of `lemma_common_prefix` is the common prefix.
pub proof fn lemma_common_prefix_is(a: Seq<u8>, b: Seq<u8>, i: int, k: int)
    requires
        0 <= i <= k <= a.len(),
        k <= b.len(),
        forall|j: int| i <= j < k ==> a[j] == b[j],
        k == a.len() || k == b.len() || a[k] != b[k],
    ensures
        common_prefix(a, b, i) == k,
    decreases k - i,
{
    if i < k {
        lemma_common_prefix_is(a, b, i + 1, k);
    }
}

/// No sequence of bytes comes before itself.
pub proof fn lemma_bytes_lt_irreflexive(a: Seq<u8>)
    ensures
        !bytes_lt(a, a),
{
    lemma_common_prefix_is(a, a, 0, a.len() as int);
}

/// The order of bytes is transitive.
pub proof fn lemma_bytes_lt_transitive(a: Seq<u8>, b: Seq<u8>, c: Seq<u8>)
    requires
        bytes_lt(a, b),
        bytes_lt(b, c),
    ensures
        bytes_lt(a, c),
{
    lemma_common_prefix(a, b, 0);
    lemma_common_prefix(b, c, 0);
    let k1 = common_prefix(a, b, 0);
    let k2 = common_prefix(b, c, 0);
    let k = if k1 <= k2 {
        k1
    } else {
        k2
    };
    lemma_common_prefix_is(a, c, 0, k);
}

/// Of two different sequences of bytes one comes before the other.
pub proof fn lemma_bytes_lt_total(a: Seq<u8>, b: Seq<u8>)
    requires
        !bytes_lt(a, b),
        !bytes_lt(b, a),
    ensures
        a == b,
{
    lemma_common_prefix(a, b, 0);
    let k = common_prefix(a, b, 0);
    lemma_common_prefix_is(b, a, 0, k);
    assert(a =~= b);
}

/// The order of names is a strict total order.
pub proof fn lemma_name_lt_order(a: Seq<char>, b: Seq<char>, c: Seq<char>)
    ensures
        !name_lt(a, a),
        name_lt(a, b) && name_lt(b, c) ==> name_lt(a, c),
        !name_lt(a, b) && !name_lt(b, a) ==> a == b,
{
    lemma_bytes_lt_irreflexive(encode_utf8(a));
    if name_lt(a, b) && name_lt(b, c) {
        lemma_bytes_lt_transitive(encode_utf8(a), encode_utf8(b), encode_utf8(c));
    }
    if !name_lt(a, b) && !name_lt(b, a) {
        lemma_bytes_lt_total(encode_utf8(a), encode_utf8(b));
        encode_utf8_decode_utf8(a);
        encode_utf8_decode_utf8(b);
    }
}

/// Two ascending sequences without repetition that hold the same elements are
/// the same sequence.
pub proof fn lemma_sorted_distinct_unique(a: Seq<Seq<char>>, b: Seq<Seq<char>>)
    requires
        strictly_sorted(a),
        strictly_sorted(b),
        forall|x: Seq<char>| a.contains(x) <==> b.contains(x),
    ensures
        a == b,
    decreases a.len(),
{
    if a.len() == 0 {
        if b.len() > 0 {
            assert(b.contains(b[0]));
        }
        assert(a =~= b);
    } else if b.len() == 0 {
        assert(a.contains(a[0]));
    } else {
        assert(a.contains(a[0]));
        assert(b.contains(b[0]));
        let i = choose|i: int| 0 <= i < b.len() && b[i] == a[0];
        let j = choose|j: int| 0 <= j < a.len() && a[j] == b[0];
        lemma_name_lt_order(a[0], b[0], a[0]);
        assert(a[0] == b[0]);
        let ta = a.drop_first();
        let tb = b.drop_first();
        assert forall|x: Seq<char>| ta.contains(x) <==> tb.contains(x) by {
            lemma_name_lt_order(a[0], a[0], a[0]);
            if ta.contains(x) {
                let p = choose|p: int| 0 <= p < ta.len() && ta[p] == x;
                assert(a[p + 1] == x);
                assert(name_lt(a[0], a[p + 1]));
                assert(a.contains(x));
                let q = choose|q: int| 0 <= q < b.len() && b[q] == x;
                assert(q != 0);
                assert(tb[q - 1] == x);
            }
            if tb.contains(x) {
                let p = choose|p: int| 0 <= p < tb.len() && tb[p] == x;
                assert(b[p + 1] == x);
                assert(name_lt(b[0], b[p + 1]));
                assert(b.contains(x));
                let q = choose|q: int| 0 <= q < a.len() && a[q] == x;
                assert(q != 0);
                assert(ta[q - 1] == x);
            }
        }
        assert(strictly_sorted(ta)) by {
            assert forall|i: int, j: int| 0 <= i < j < ta.len() implies name_lt(
                #[trigger] ta[i],
                #[trigger] ta[j],
            ) by {
                assert(name_lt(a[i + 1], a[j + 1]));
            }
        }
        assert(strictly_sorted(tb)) by {
            assert forall|i: int, j: int| 0 <= i < j < tb.len() implies name_lt(
                #[trigger] tb[i],
                #[trigger] tb[j],
            ) by {
                assert(name_lt(b[i + 1], b[j + 1]));
            }
        }
        lemma_sorted_distinct_unique(ta, tb);
        assert(a =~= seq![a[0]] + ta);
        assert(b =~= seq![b[0]] + tb);
    }
}

/// A sequence that is ascending, without repetition, and holds the elements
/// of `names` is `sorted_distinct(names)`.
pub proof fn lemma_sorted_distinct_is(out: Seq<Seq<char>>, names: Seq<Seq<char>>)
    requires
        is_sorted_distinct_of(out, names),
    ensures
        sorted_distinct(names) == out,
{
    let chosen = sorted_distinct(names);
    assert(is_sorted_distinct_of(chosen, names));
    lemma_sorted_distinct_unique(chosen, out);
}

/// Tells whether `a` comes strictly before `b` in the order of `str`.
pub fn str_less(a: &str, b: &str) -> (r: bool)
    ensures
        r == name_lt(a@, b@),
{
    bytes_less(a.as_bytes(), b.as_bytes())
}

/// Tells whether `x` comes strictly before `y` in the lexicographic order
/// of bytes.
pub fn bytes_less(x: &[u8], y: &[u8]) -> (r: bool)
    ensures
        r == bytes_lt(x@, y@),
{
    let mut i: usize = 0;
    while i < x.len() && i < y.len() && x[i] == y[i]
        invariant
            i <= x.len(),
            i <= y.len(),
            common_prefix(x@, y@, 0) == common_prefix(x@, y@, i as int),
        decreases x.len() - i,
    {
        i += 1;
    }
    i < y.len() && (i == x.len() || x[i] < y[i])
}

/// Puts `name` at its place in the ascending sequence `out`, unless `out`
/// holds it already.
pub fn insert_sorted<'a>(out: &mut Vec<&'a str>, name: &'a str)
    requires
        strictly_sorted(views(old(out)@)),
    ensures
        strictly_sorted(views(final(out)@)),
        forall|x: Seq<char>|
            views(final(out)@).contains(x) <==> (views(old(out)@).contains(x) || x == name@),
{
    let ghost before = views(out@);
    let mut p: usize = 0;
    while p < out.len() && str_less(out[p], name)
        invariant
            p <= out.len(),
            views(out@) == before,
            forall|j: int| 0 <= j < p ==> name_lt(#[trigger] before[j], name@),
        decreases out.len() - p,
    {
        p += 1;
    }
    if p < out.len() && !str_less(name, out[p]) {
        proof {
            lemma_name_lt_order(name@, before[p as int], name@);
            assert(before.contains(name@));
        }
        return ;
    }
    out.insert(p, name);
    proof {
        let after = views(out@);
        assert forall|i: int, j: int| 0 <= i < j < after.len() implies name_lt(
            #[trigger] after[i],
            #[trigger] after[j],
        ) by {
            if j < p {
                assert(after[i] == before[i] && after[j] == before[j]);
            } else if j == p {
                assert(after[i] == before[i]);
            } else if i < p {
                assert(after[i] == before[i] && after[j] == before[j - 1]);
            } else if i == p {
                assert(after[j] == before[j - 1]);
                if j - 1 > p {
                    assert(name_lt(before[p as int], before[j - 1]));
                    lemma_name_lt_order(name@, before[p as int], before[j - 1]);
                }
            } else {
                assert(after[i] == before[i - 1] && after[j] == before[j - 1]);
            }
        }
        assert forall|x: Seq<char>| after.contains(x) <==> (before.contains(x) || x == name@) by {
            if after.contains(x) {
                let q = choose|q: int| 0 <= q < after.len() && after[q] == x;
                if q < p {
                    assert(before[q] == x);
                } else if q > p {
                    assert(before[q - 1] == x);
                }
            }
            if before.contains(x) {
                let q = choose|q: int| 0 <= q < before.len() && before[q] == x;
                if q < p {
                    assert(after[q] == x);
                } else {
                    assert(after[q + 1] == x);
                }
            }
            if x == name@ {
                assert(after[p as int] == x);
            }
        }
    }
}

} // verus!
