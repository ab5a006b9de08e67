//! The order of keys: byte strings compared lexicographically.

use vstd::prelude::*;

verus! {

/// `a` comes strictly before `b`: at the first place where they differ `a` holds the smaller
/// byte, or `a` is a proper prefix of `b`.
pub open spec fn lex_lt(a: Seq<u8>, b: Seq<u8>) -> bool
    decreases a.len(),
{
    if b.len() == 0 {
        false
    } else if a.len() == 0 {
        true
    } else if a[0] != b[0] {
        a[0] < b[0]
    } else {
        lex_lt(a.skip(1), b.skip(1))
    }
}

/// `a` comes before `b` or equals it.
pub open spec fn lex_le(a: Seq<u8>, b: Seq<u8>) -> bool {
    a == b || lex_lt(a, b)
}

/// `key` lies in the half-open range from `start` to `end`, where an empty `end` stands for the
/// end of the key space.
pub open spec fn in_key_range(start: Seq<u8>, end: Seq<u8>, key: Seq<u8>) -> bool {
    lex_le(start, key) && (end.len() == 0 || lex_lt(key, end))
}

/// No byte string comes before itself.
pub proof fn lemma_lex_irreflexive(a: Seq<u8>)
    ensures
        !lex_lt(a, a),
    decreases a.len(),
{
    if a.len() > 0 {
        lemma_lex_irreflexive(a.skip(1));
    }
}

/// The order is transitive.
pub proof fn lemma_lex_transitive(a: Seq<u8>, b: Seq<u8>, c: Seq<u8>)
    requires
        lex_lt(a, b),
        lex_lt(b, c),
    ensures
        lex_lt(a, c),
    decreases a.len(),
{
    if a.len() > 0 && a[0] == b[0] && b[0] == c[0] {
        lemma_lex_transitive(a.skip(1), b.skip(1), c.skip(1));
    }
}

/// Byte strings with the same first byte and the same rest are equal.
pub proof fn lemma_same_head_and_tail(a: Seq<u8>, b: Seq<u8>)
    requires
        a.len() > 0,
        b.len() > 0,
        a[0] == b[0],
        a.skip(1) == b.skip(1),
    ensures
        a == b,
{
    let (ta, tb) = (a.skip(1), b.skip(1));
    assert(ta.len() == a.len() - 1);
    assert(tb.len() == b.len() - 1);
    assert forall|i: int| 0 <= i < a.len() implies a[i] == b[i] by {
        if i > 0 {
            assert(ta[i - 1] == a[i]);
            assert(tb[i - 1] == b[i]);
        }
    }
    assert(a =~= b);
}

/// Of two different byte strings one comes before the other.
pub proof fn lemma_lex_total(a: Seq<u8>, b: Seq<u8>)
    ensures
        lex_lt(a, b) || a == b || lex_lt(b, a),
    decreases a.len(),
{
    if a.len() == 0 && b.len() == 0 {
        assert(a =~= b);
    } else if a.len() > 0 && b.len() > 0 && a[0] == b[0] {
        lemma_lex_total(a.skip(1), b.skip(1));
        if a.skip(1) == b.skip(1) {
            lemma_same_head_and_tail(a, b);
        }
    }
}

/// Two byte strings never come before each other.
pub proof fn lemma_lex_asymmetric(a: Seq<u8>, b: Seq<u8>)
    requires
        lex_lt(a, b),
    ensures
        !lex_lt(b, a),
        a != b,
{
    if lex_lt(b, a) {
        lemma_lex_transitive(a, b, a);
    }
    lemma_lex_irreflexive(a);
}

/// Not coming before is the same as coming after or being equal.
pub proof fn lemma_lex_not_lt(a: Seq<u8>, b: Seq<u8>)
    ensures
        !lex_lt(a, b) <==> lex_le(b, a),
        !lex_le(a, b) <==> lex_lt(b, a),
{
    lemma_lex_total(a, b);
    lemma_lex_irreflexive(a);
    if lex_lt(a, b) {
        lemma_lex_asymmetric(a, b);
    }
    if lex_lt(b, a) {
        lemma_lex_asymmetric(b, a);
    }
}

/// Chains of `lex_le` and `lex_lt` compose.
pub proof fn lemma_lex_chain(a: Seq<u8>, b: Seq<u8>, c: Seq<u8>)
    ensures
        lex_le(a, b) && lex_le(b, c) ==> lex_le(a, c),
        lex_lt(a, b) && lex_le(b, c) ==> lex_lt(a, c),
        lex_le(a, b) && lex_lt(b, c) ==> lex_lt(a, c),
{
    if lex_lt(a, b) && lex_lt(b, c) {
        lemma_lex_transitive(a, b, c);
    }
}

/// A common prefix does not matter to the order.
pub proof fn lemma_lex_common_prefix(p: Seq<u8>, a: Seq<u8>, b: Seq<u8>)
    ensures
        lex_lt(p + a, p + b) == lex_lt(a, b),
        lex_le(p + a, p + b) == lex_le(a, b),
    decreases p.len(),
{
    if p.len() == 0 {
        assert(p + a =~= a);
        assert(p + b =~= b);
    } else {
        lemma_lex_common_prefix(p.skip(1), a, b);
        assert((p + a).skip(1) =~= p.skip(1) + a);
        assert((p + b).skip(1) =~= p.skip(1) + b);
        if p + a == p + b {
            assert(a =~= (p + a).skip(p.len() as int));
            assert(b =~= (p + b).skip(p.len() as int));
        }
    }
}

/// A proper prefix comes before what extends it.
pub proof fn lemma_lex_extension(a: Seq<u8>, tail: Seq<u8>)
    ensures
        lex_le(a, a + tail),
        tail.len() > 0 ==> lex_lt(a, a + tail),
{
    lemma_lex_common_prefix(a, Seq::empty(), tail);
    assert(a + Seq::<u8>::empty() =~= a);
    if tail.len() == 0 {
        assert(a + tail =~= a);
    }
}

/// Where two byte strings agree up to a place at which the first holds the smaller byte, the
/// first comes before the second.
pub proof fn lemma_lex_first_difference(a: Seq<u8>, b: Seq<u8>, at: int)
    requires
        0 <= at < a.len(),
        at < b.len(),
        a.take(at) == b.take(at),
        a[at] < b[at],
    ensures
        lex_lt(a, b),
{
    lemma_lex_common_prefix(a.take(at), a.skip(at), b.skip(at));
    assert(a =~= a.take(at) + a.skip(at));
    assert(b =~= a.take(at) + b.skip(at));
}

/// Where a byte string comes before one that is not longer, so does whatever extends it.
pub proof fn lemma_lex_extends(x: Seq<u8>, y: Seq<u8>, s: Seq<u8>, t: Seq<u8>)
    requires
        lex_lt(x, y),
        y.len() <= x.len(),
    ensures
        lex_lt(x + s, y + t),
        lex_lt(x + s, y),
    decreases x.len(),
{
    assert((x + s)[0] == x[0]);
    assert((y + t)[0] == y[0]);
    if x[0] == y[0] {
        lemma_lex_extends(x.skip(1), y.skip(1), s, t);
        assert((x + s).skip(1) =~= x.skip(1) + s);
        assert((y + t).skip(1) =~= y.skip(1) + t);
    }
}

/// Whether `a` comes strictly before `b`.
pub fn bytes_lt(a: &[u8], b: &[u8]) -> (r: bool)
    ensures
        r == lex_lt(a@, b@),
{
    let mut i: usize = 0;
    assert(a@.skip(0) =~= a@);
    assert(b@.skip(0) =~= b@);
    while i < a.len() && i < b.len() && a[i] == b[i]
        invariant
            i <= a.len(),
            i <= b.len(),
            lex_lt(a@, b@) == lex_lt(a@.skip(i as int), b@.skip(i as int)),
        decreases a.len() - i,
    {
        assert(a@.skip(i as int).skip(1) =~= a@.skip(i + 1));
        assert(b@.skip(i as int).skip(1) =~= b@.skip(i + 1));
        i = i + 1;
    }
    if i >= b.len() {
        false
    } else if i >= a.len() {
        true
    } else {
        a[i] < b[i]
    }
}

/// Whether `a` comes before `b` or equals it.
pub fn bytes_le(a: &[u8], b: &[u8]) -> (r: bool)
    ensures
        r == lex_le(a@, b@),
{
    proof {
        lemma_lex_not_lt(b@, a@);
    }
    !bytes_lt(b, a)
}

/// Whether `a` and `b` hold the same bytes.
pub fn bytes_eq(a: &[u8], b: &[u8]) -> (r: bool)
    ensures
        r == (a@ == b@),
{
    if a.len() != b.len() {
        return false;
    }
    let mut i: usize = 0;
    while i < a.len()
        invariant
            i <= a.len(),
            a.len() == b.len(),
            forall|k: int| 0 <= k < i ==> a@[k] == b@[k],
        decreases a.len() - i,
    {
        if a[i] != b[i] {
            return false;
        }
        i = i + 1;
    }
    assert(a@ =~= b@);
    true
}

/// A copy of the bytes.
pub fn bytes_to_vec(a: &[u8]) -> (r: Vec<u8>)
    ensures
        r@ == a@,
{
    let mut r: Vec<u8> = Vec::new();
    let mut i: usize = 0;
    while i < a.len()
        invariant
            i <= a.len(),
            r@ == a@.take(i as int),
        decreases a.len() - i,
    {
        r.push(a[i]);
        assert(a@.take(i + 1) =~= a@.take(i as int).push(a@[i as int]));
        i = i + 1;
    }
    assert(a@.take(i as int) =~= a@);
    r
}

} // verus!
