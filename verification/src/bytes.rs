//! Byte strings: their lexicographic order, prefixes, and the few
//! operations on them that the stores need.

use vstd::prelude::*;

verus! {

/// `a` comes strictly before `b` in ascending byte order: at the first
/// position where they differ `a` holds the smaller byte, or `a` is a
/// proper prefix of `b`.
pub open spec fn lex_lt(a: Seq<u8>, b: Seq<u8>) -> bool {
    exists|i: int| #[trigger] differ_at(a, b, i)
}

/// `a` and `b` agree before position `i`, and at `i` either `a` ends
/// while `b` goes on, or `a` holds the smaller byte.
pub open spec fn differ_at(a: Seq<u8>, b: Seq<u8>, i: int) -> bool {
    &&& 0 <= i <= a.len()
    &&& i < b.len()
    &&& forall|j: int| 0 <= j < i ==> a[j] == b[j]
    &&& (i < a.len() ==> a[i] < b[i])
}

/// `p` is a prefix of `s` (every string is a prefix of itself).
pub open spec fn is_prefix(p: Seq<u8>, s: Seq<u8>) -> bool {
    p.len() <= s.len() && s.subrange(0, p.len() as int) == p
}

/// What is left of `s` after its first `n` bytes.
pub open spec fn tail_from(s: Seq<u8>, n: int) -> Seq<u8> {
    s.subrange(n, s.len() as int)
}

/// No byte string comes before itself.
pub proof fn lemma_lex_irreflexive(a: Seq<u8>)
    ensures
        !lex_lt(a, a),
{
}

/// The order is transitive.
pub proof fn lemma_lex_transitive(a: Seq<u8>, b: Seq<u8>, c: Seq<u8>)
    requires
        lex_lt(a, b),
        lex_lt(b, c),
    ensures
        lex_lt(a, c),
{
    let i = choose|i: int| differ_at(a, b, i);
    let j = choose|j: int| differ_at(b, c, j);
    let k = if i <= j { i } else { j };
    assert(differ_at(a, c, k));
}

proof fn lemma_lex_total_from(a: Seq<u8>, b: Seq<u8>, i: int)
    requires
        0 <= i <= a.len(),
        i <= b.len(),
        forall|j: int| 0 <= j < i ==> a[j] == b[j],
    ensures
        a == b || lex_lt(a, b) || lex_lt(b, a),
    decreases a.len() - i,
{
    if i == a.len() {
        if i == b.len() {
            assert(a =~= b);
        } else {
            assert(differ_at(a, b, i));
        }
    } else if i == b.len() {
        assert(differ_at(b, a, i));
    } else if a[i] < b[i] {
        assert(differ_at(a, b, i));
    } else if b[i] < a[i] {
        assert(differ_at(b, a, i));
    } else {
        lemma_lex_total_from(a, b, i + 1);
    }
}

/// Two byte strings are equal, or one comes before the other.
pub proof fn lemma_lex_total(a: Seq<u8>, b: Seq<u8>)
    ensures
        a == b || lex_lt(a, b) || lex_lt(b, a),
{
    lemma_lex_total_from(a, b, 0);
}

/// At most one of `a < b` and `b < a` holds.
pub proof fn lemma_lex_asymmetric(a: Seq<u8>, b: Seq<u8>)
    requires
        lex_lt(a, b),
    ensures
        !lex_lt(b, a),
{
    if lex_lt(b, a) {
        lemma_lex_transitive(a, b, a);
    }
}

/// Putting the same prefix in front of two byte strings keeps their order.
pub proof fn lemma_lex_common_prefix(p: Seq<u8>, a: Seq<u8>, b: Seq<u8>)
    ensures
        lex_lt(p + a, p + b) == lex_lt(a, b),
{
    let n = p.len() as int;
    if lex_lt(a, b) {
        let i = choose|i: int| differ_at(a, b, i);
        assert forall|j: int| 0 <= j < n + i implies (p + a)[j] == (p + b)[j] by {
            if j >= n {
                assert(a[j - n] == b[j - n]);
            }
        }
        assert(differ_at(p + a, p + b, n + i));
    }
    if lex_lt(p + a, p + b) {
        let i = choose|i: int| differ_at(p + a, p + b, i);
        if i < n {
            assert((p + a)[i] == p[i]);
            assert((p + b)[i] == p[i]);
        }
        assert forall|j: int| 0 <= j < i - n implies a[j] == b[j] by {
            assert((p + a)[j + n] == (p + b)[j + n]);
        }
        if i - n < a.len() {
            assert((p + a)[i] == a[i - n]);
            assert((p + b)[i] == b[i - n]);
        }
        assert(differ_at(a, b, i - n));
    }
}

/// Two byte strings that start with prefixes of which neither is a prefix
/// of the other are different.
pub proof fn lemma_distinct_prefixes(p: Seq<u8>, q: Seq<u8>, a: Seq<u8>, b: Seq<u8>)
    requires
        !is_prefix(p, q),
        !is_prefix(q, p),
    ensures
        p + a != q + b,
{
    if p + a == q + b {
        let s = p + a;
        if p.len() <= q.len() {
            assert(q.subrange(0, p.len() as int) =~= p) by {
                assert forall|j: int| 0 <= j < p.len() implies q[j] == p[j] by {
                    assert(s[j] == p[j]);
                    assert((q + b)[j] == q[j]);
                }
            }
        } else {
            assert(p.subrange(0, q.len() as int) =~= q) by {
                assert forall|j: int| 0 <= j < q.len() implies q[j] == p[j] by {
                    assert(s[j] == p[j]);
                    assert((q + b)[j] == q[j]);
                }
            }
        }
    }
}

/// Whether two byte strings are equal.
pub fn bytes_eq(a: &[u8], b: &[u8]) -> (r: bool)
    ensures
        r == (a@ == b@),
{
    if a.len() != b.len() {
        return false;
    }
    let mut i: usize = 0;
    while i < a.len()
        invariant
            a@.len() == b@.len(),
            0 <= i <= a@.len(),
            forall|j: int| 0 <= j < i ==> a@[j] == b@[j],
        decreases a@.len() - i,
    {
        if a[i] != b[i] {
            return false;
        }
        i = i + 1;
    }
    assert(a@ =~= b@);
    true
}

/// Whether `a` comes strictly before `b` in ascending byte order.
pub fn bytes_lt(a: &[u8], b: &[u8]) -> (r: bool)
    ensures
        r == lex_lt(a@, b@),
{
    let mut i: usize = 0;
    while i < a.len() && i < b.len()
        invariant
            0 <= i <= a@.len(),
            i <= b@.len(),
            forall|j: int| 0 <= j < i ==> a@[j] == b@[j],
        decreases a@.len() - i,
    {
        if a[i] < b[i] {
            assert(differ_at(a@, b@, i as int));
            return true;
        }
        if a[i] > b[i] {
            assert(differ_at(b@, a@, i as int));
            proof {
                lemma_lex_asymmetric(b@, a@);
            }
            return false;
        }
        i = i + 1;
    }
    if i < b.len() {
        assert(differ_at(a@, b@, i as int));
        true
    } else {
        proof {
            if a@.len() == b@.len() {
                assert(a@ =~= b@);
                lemma_lex_irreflexive(a@);
            } else {
                assert(differ_at(b@, a@, i as int));
                lemma_lex_asymmetric(b@, a@);
            }
        }
        false
    }
}

/// Whether `s` starts with `p`.
pub fn starts_with(s: &[u8], p: &[u8]) -> (r: bool)
    ensures
        r == is_prefix(p@, s@),
{
    if p.len() > s.len() {
        return false;
    }
    let mut i: usize = 0;
    while i < p.len()
        invariant
            p@.len() <= s@.len(),
            0 <= i <= p@.len(),
            forall|j: int| 0 <= j < i ==> s@[j] == p@[j],
        decreases p@.len() - i,
    {
        if s[i] != p[i] {
            assert(s@.subrange(0, p@.len() as int)[i as int] == s@[i as int]);
            return false;
        }
        i = i + 1;
    }
    assert(s@.subrange(0, p@.len() as int) =~= p@);
    true
}

/// A fresh copy of `a`.
pub fn copy_bytes(a: &[u8]) -> (r: Vec<u8>)
    ensures
        r@ == a@,
{
    let mut r: Vec<u8> = Vec::new();
    let mut i: usize = 0;
    while i < a.len()
        invariant
            0 <= i <= a@.len(),
            r@ == a@.subrange(0, i as int),
        decreases a@.len() - i,
    {
        r.push(a[i]);
        assert(r@ =~= a@.subrange(0, i + 1));
        i = i + 1;
    }
    assert(a@.subrange(0, a@.len() as int) =~= a@);
    r
}

/// `a` followed by `b`.
pub fn join(a: &[u8], b: &[u8]) -> (r: Vec<u8>)
    ensures
        r@ == a@ + b@,
{
    let mut r = copy_bytes(a);
    let mut i: usize = 0;
    while i < b.len()
        invariant
            0 <= i <= b@.len(),
            r@ == a@ + b@.subrange(0, i as int),
        decreases b@.len() - i,
    {
        r.push(b[i]);
        assert(r@ =~= a@ + b@.subrange(0, i + 1));
        i = i + 1;
    }
    assert(b@.subrange(0, b@.len() as int) =~= b@);
    r
}

/// `s` without its first `n` bytes.
pub fn copy_from(s: &[u8], n: usize) -> (r: Vec<u8>)
    requires
        n <= s@.len(),
    ensures
        r@ == tail_from(s@, n as int),
{
    let mut r: Vec<u8> = Vec::new();
    let mut i: usize = n;
    while i < s.len()
        invariant
            n <= i <= s@.len(),
            r@ == s@.subrange(n as int, i as int),
        decreases s@.len() - i,
    {
        r.push(s[i]);
        assert(r@ =~= s@.subrange(n as int, i + 1));
        i = i + 1;
    }
    r
}

} // verus!
