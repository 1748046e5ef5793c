//! The mathematical side of storage: tables, pending write sets, what a
//! write set makes of a table, and the part of a table that one namespace
//! sees.

use vstd::prelude::*;
use crate::bytes::{is_prefix, tail_from};

verus! {

/// A key-value state: byte strings to byte strings.
pub type Table = Map<Seq<u8>, Seq<u8>>;

/// A pending write set: for each key written, the new value, or `None`
/// where the key was deleted.
pub type Writes = Map<Seq<u8>, Option<Seq<u8>>>;

/// What `t` holds under `k`, if anything.
pub open spec fn lookup(t: Table, k: Seq<u8>) -> Option<Seq<u8>> {
    if t.contains_key(k) {
        Some(t[k])
    } else {
        None
    }
}

/// The table that results from applying the write set `w` to `base`.
pub open spec fn overlay(base: Table, w: Writes) -> Table {
    Map::new(
        |k: Seq<u8>|
            if w.contains_key(k) {
                w[k] is Some
            } else {
                base.contains_key(k)
            },
        |k: Seq<u8>|
            if w.contains_key(k) {
                w[k]->0
            } else {
                base[k]
            },
    )
}

/// The table after one write: a new value under `k`, or `k` removed.
pub open spec fn write_table(t: Table, k: Seq<u8>, w: Option<Seq<u8>>) -> Table {
    match w {
        Some(v) => t.insert(k, v),
        None => t.remove(k),
    }
}

/// The keys of `t` that start with `ns` and go on with `prefix`, each
/// without its `ns`, with their values: what a scan of `prefix` inside the
/// namespace `ns` sees.
pub open spec fn window(t: Table, ns: Seq<u8>, prefix: Seq<u8>) -> Table {
    Map::new(|k: Seq<u8>| is_prefix(prefix, k) && t.contains_key(ns + k), |k: Seq<u8>| t[ns + k])
}

/// The part of `t` that belongs to the namespace `ns`, keys without `ns`.
pub open spec fn namespace_of(t: Table, ns: Seq<u8>) -> Table {
    window(t, ns, Seq::<u8>::empty())
}

/// No name in the list is a prefix of another one, so that the key ranges
/// of the namespaces are disjoint.
pub open spec fn prefix_free(names: Seq<Seq<u8>>) -> bool {
    forall|i: int, j: int|
        0 <= i < names.len() && 0 <= j < names.len() && i != j ==> !is_prefix(
            #[trigger] names[i],
            #[trigger] names[j],
        )
}

/// One more write in the write set is one more write to the result.
pub proof fn lemma_overlay_write(base: Table, w: Writes, k: Seq<u8>, x: Option<Seq<u8>>)
    ensures
        overlay(base, w.insert(k, x)) == write_table(overlay(base, w), k, x),
{
    assert(overlay(base, w.insert(k, x)) =~= write_table(overlay(base, w), k, x));
}

/// The empty write set changes nothing.
pub proof fn lemma_overlay_nothing(base: Table)
    ensures
        overlay(base, Map::<Seq<u8>, Option<Seq<u8>>>::empty()) == base,
{
    assert(overlay(base, Map::<Seq<u8>, Option<Seq<u8>>>::empty()) =~= base);
}

/// Applying two write sets in turn is applying the second laid over the
/// first.
pub proof fn lemma_overlay_twice(base: Table, w1: Writes, w2: Writes)
    ensures
        overlay(overlay(base, w1), w2) == overlay(base, w1.union_prefer_right(w2)),
{
    assert(overlay(overlay(base, w1), w2) =~= overlay(base, w1.union_prefer_right(w2)));
}

/// A key starts with `ns + p` exactly if it starts with `ns` and goes on
/// with `p`; and `ns` can be taken off and put back.
pub proof fn lemma_split_prefix(ns: Seq<u8>, p: Seq<u8>, k: Seq<u8>)
    ensures
        is_prefix(ns + p, k) == (is_prefix(ns, k) && is_prefix(p, tail_from(k, ns.len() as int))),
        is_prefix(ns, k) ==> ns + tail_from(k, ns.len() as int) == k,
        tail_from(ns + k, ns.len() as int) == k,
        is_prefix(ns, ns + k),
{
    let n = ns.len() as int;
    assert(tail_from(ns + k, n) =~= k);
    assert((ns + k).subrange(0, n) =~= ns);
    if is_prefix(ns, k) {
        assert(ns + tail_from(k, n) =~= k);
    }
    if is_prefix(ns + p, k) {
        assert(k.subrange(0, n) =~= (ns + p).subrange(0, n)) by {
            assert(k.subrange(0, (ns + p).len() as int).subrange(0, n) =~= k.subrange(0, n));
        }
        assert((ns + p).subrange(0, n) =~= ns);
        assert(tail_from(k, n).subrange(0, p.len() as int) =~= p) by {
            assert forall|j: int| 0 <= j < p.len() implies tail_from(k, n)[j] == p[j] by {
                assert(k.subrange(0, (ns + p).len() as int)[n + j] == (ns + p)[n + j]);
            }
        }
    }
    if is_prefix(ns, k) && is_prefix(p, tail_from(k, n)) {
        assert(k.subrange(0, (ns + p).len() as int) =~= ns + p) by {
            assert forall|j: int| 0 <= j < n + p.len() implies k[j] == (ns + p)[j] by {
                if j < n {
                    assert(k.subrange(0, n)[j] == ns[j]);
                } else {
                    assert(tail_from(k, n).subrange(0, p.len() as int)[j - n] == p[j - n]);
                }
            }
        }
    }
}

/// What a namespace holds under a key is what the table holds under the
/// name followed by the key.
pub proof fn lemma_namespace_lookup(t: Table, ns: Seq<u8>, k: Seq<u8>)
    ensures
        lookup(namespace_of(t, ns), k) == lookup(t, ns + k),
{
    assert(k.subrange(0, 0) =~= Seq::<u8>::empty());
}

/// A write to the table is a write to the window if the key lies in it,
/// and leaves the window as it was if not.
pub proof fn lemma_window_write(
    t: Table,
    ns: Seq<u8>,
    prefix: Seq<u8>,
    k: Seq<u8>,
    x: Option<Seq<u8>>,
)
    ensures
        window(write_table(t, k, x), ns, prefix) == if is_prefix(ns + prefix, k) {
            write_table(window(t, ns, prefix), tail_from(k, ns.len() as int), x)
        } else {
            window(t, ns, prefix)
        },
{
    let n = ns.len() as int;
    let t2 = write_table(t, k, x);
    lemma_split_prefix(ns, prefix, k);
    assert forall|y: Seq<u8>| (ns + y == k) == (is_prefix(ns, k) && y == tail_from(k, n)) by {
        lemma_split_prefix(ns, prefix, y);
    }
    if is_prefix(ns + prefix, k) {
        assert(window(t2, ns, prefix) =~= write_table(
            window(t, ns, prefix),
            tail_from(k, n),
            x,
        ));
    } else {
        assert(window(t2, ns, prefix) =~= window(t, ns, prefix));
    }
}

} // verus!
