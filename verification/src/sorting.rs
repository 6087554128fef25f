//! Stable descending ordering of entries by size.
//!
//! The order that the analyzer returns is pinned down by a specification-level
//! stable insertion sort: an entry is placed after every entry at least as
//! large, so entries of equal size keep the order in which they were
//! discovered.

use vstd::prelude::*;
use vstd::seq_lib::group_to_multiset_ensures;
use vstd::seq_lib::lemma_multiset_commutative;
use crate::analyzer::DirectoryEntry;

verus! {

/// Entries are in descending size order.
pub open spec fn sorted_desc(s: Seq<DirectoryEntry>) -> bool {
    forall|i: int, j: int|
        0 <= i <= j < s.len() ==> #[trigger] s[i].size_bytes >= #[trigger] s[j].size_bytes
}

/// The predicate "this entry has size exactly `k`", as a function value.
pub open spec fn size_is(k: u64) -> spec_fn(DirectoryEntry) -> bool {
    |e: DirectoryEntry| e.size_bytes == k
}

/// Position at which an entry of size `key` is inserted into `s`: after every
/// element at least as large, before the first strictly smaller one.
pub open spec fn insert_pos(s: Seq<DirectoryEntry>, key: u64) -> int
    decreases s.len(),
{
    if s.len() == 0 {
        0
    } else if s[0].size_bytes < key {
        0
    } else {
        1 + insert_pos(s.drop_first(), key)
    }
}

/// `e` inserted into `s` at its stable position.
pub open spec fn insert_sorted(s: Seq<DirectoryEntry>, e: DirectoryEntry) -> Seq<DirectoryEntry> {
    s.insert(insert_pos(s, e.size_bytes), e)
}

/// Stable descending sort by `size_bytes`: the elements are inserted left to
/// right, each after all elements at least as large.
pub open spec fn stable_sort_desc(s: Seq<DirectoryEntry>) -> Seq<DirectoryEntry>
    decreases s.len(),
{
    if s.len() == 0 {
        s
    } else {
        insert_sorted(stable_sort_desc(s.drop_last()), s.last())
    }
}

/// The insertion position is within bounds, everything before it is at least
/// `key`, and the element at it (if any) is strictly smaller.
proof fn lemma_insert_pos_props(s: Seq<DirectoryEntry>, key: u64)
    ensures
        0 <= insert_pos(s, key) <= s.len(),
        forall|q: int| 0 <= q < insert_pos(s, key) ==> #[trigger] s[q].size_bytes >= key,
        insert_pos(s, key) < s.len() ==> s[insert_pos(s, key)].size_bytes < key,
    decreases s.len(),
{
    if s.len() == 0 {
    } else if s[0].size_bytes < key {
    } else {
        lemma_insert_pos_props(s.drop_first(), key);
        assert forall|q: int| 0 <= q < insert_pos(s, key) implies #[trigger] s[q].size_bytes
            >= key by {
            if q > 0 {
                assert(s.drop_first()[q - 1] == s[q]);
            }
        }
        if insert_pos(s, key) < s.len() {
            assert(s.drop_first()[insert_pos(s.drop_first(), key)] == s[insert_pos(s, key)]);
        }
    }
}

/// Any position with the properties of `lemma_insert_pos_props` is the
/// insertion position.
proof fn lemma_insert_pos_unique(s: Seq<DirectoryEntry>, key: u64, p: int)
    requires
        0 <= p <= s.len(),
        forall|q: int| 0 <= q < p ==> #[trigger] s[q].size_bytes >= key,
        p < s.len() ==> s[p].size_bytes < key,
    ensures
        p == insert_pos(s, key),
    decreases s.len(),
{
    if s.len() == 0 {
    } else if s[0].size_bytes < key {
        assert(p == 0) by {
            if p > 0 {
                assert(s[0].size_bytes >= key);
            }
        }
    } else {
        assert(p >= 1) by {
            if p == 0 {
                assert(s[p].size_bytes < key);
            }
        }
        lemma_insert_pos_unique(s.drop_first(), key, p - 1);
        assert forall|q: int| 0 <= q < p - 1 implies #[trigger] s.drop_first()[q].size_bytes
            >= key by {
            assert(s.drop_first()[q] == s[q + 1]);
        }
    }
}

/// Inserting at the stable position keeps the sequence sorted.
proof fn lemma_insert_sorted_sorted(s: Seq<DirectoryEntry>, e: DirectoryEntry)
    requires
        sorted_desc(s),
    ensures
        sorted_desc(insert_sorted(s, e)),
        insert_sorted(s, e).len() == s.len() + 1,
{
    lemma_insert_pos_props(s, e.size_bytes);
    let p = insert_pos(s, e.size_bytes);
    s.insert_ensures(p, e);
    let t = s.insert(p, e);
    assert forall|i: int, j: int| 0 <= i <= j < t.len() implies #[trigger] t[i].size_bytes
        >= #[trigger] t[j].size_bytes by {
        if i < p {
            assert(t[i] == s[i]);
        }
        if j < p {
            assert(t[j] == s[j]);
        }
        if i > p {
            assert(t[i] == s[i - 1]);
        }
        if j > p {
            assert(t[j] == s[j - 1]);
        }
        if i == p && j > p {
            assert(s[p].size_bytes < e.size_bytes);
            assert(s[p].size_bytes >= s[j - 1].size_bytes);
        }
    }
}

/// Inserting an element anywhere adds exactly it to the multiset of elements.
proof fn lemma_insert_multiset(s: Seq<DirectoryEntry>, p: int, e: DirectoryEntry)
    requires
        0 <= p <= s.len(),
    ensures
        s.insert(p, e).to_multiset() =~= s.to_multiset().insert(e),
{
    broadcast use group_to_multiset_ensures;

    let a = s.subrange(0, p);
    let b = s.subrange(p, s.len() as int);
    assert(s.insert(p, e) == a.push(e) + b);
    lemma_multiset_commutative(a.push(e), b);
    lemma_multiset_commutative(a, b);
    assert(s =~= a + b);
    assert(a.push(e).to_multiset() =~= a.to_multiset().insert(e));
}

/// The sorted sequence is in descending order and has the same length.
pub proof fn lemma_sort_sorted(s: Seq<DirectoryEntry>)
    ensures
        sorted_desc(stable_sort_desc(s)),
        stable_sort_desc(s).len() == s.len(),
    decreases s.len(),
{
    if s.len() == 0 {
    } else {
        lemma_sort_sorted(s.drop_last());
        lemma_insert_sorted_sorted(stable_sort_desc(s.drop_last()), s.last());
    }
}

/// Sorting permutes: the multiset of entries is unchanged, so two analyses of
/// the same children differ at most in the order of equal sizes.
pub proof fn lemma_sort_permutes(s: Seq<DirectoryEntry>)
    ensures
        stable_sort_desc(s).to_multiset() =~= s.to_multiset(),
    decreases s.len(),
{
    broadcast use group_to_multiset_ensures;

    if s.len() == 0 {
    } else {
        let t = stable_sort_desc(s.drop_last());
        lemma_sort_permutes(s.drop_last());
        lemma_insert_pos_props(t, s.last().size_bytes);
        lemma_insert_multiset(t, insert_pos(t, s.last().size_bytes), s.last());
        assert(s =~= s.drop_last().push(s.last()));
        assert(s.drop_last().push(s.last()).to_multiset() =~= s.drop_last().to_multiset().insert(
            s.last(),
        ));
    }
}

/// Sequences with the same multiset of elements keep the same multiset under
/// any element-wise mapping.
proof fn lemma_map_values_multiset<A, B>(a: Seq<A>, b: Seq<A>, f: spec_fn(A) -> B)
    requires
        a.to_multiset() == b.to_multiset(),
    ensures
        a.map_values(f).to_multiset() == b.map_values(f).to_multiset(),
    decreases a.len(),
{
    broadcast use group_to_multiset_ensures;

    if a.len() == 0 {
        assert(b.to_multiset().len() == 0);
        assert(a.map_values(f) =~= Seq::<B>::empty());
        assert(b.map_values(f) =~= Seq::<B>::empty());
    } else {
        let x = a.last();
        assert(a.contains(x));
        assert(b.to_multiset().count(x) > 0);
        assert(b.contains(x));
        let j = choose|j: int| 0 <= j < b.len() && b[j] == x;
        assert(a.remove(a.len() - 1) =~= a.drop_last());
        assert(a.drop_last().to_multiset() =~= a.to_multiset().remove(x));
        assert(b.remove(j).to_multiset() =~= b.to_multiset().remove(x));
        lemma_map_values_multiset(a.drop_last(), b.remove(j), f);
        assert(a.map_values(f) =~= a.drop_last().map_values(f).push(f(x)));
        assert(b.remove(j).map_values(f) =~= b.map_values(f).remove(j));
        assert(b.map_values(f)[j] == f(x));
        assert(b.map_values(f).remove(j).to_multiset() =~= b.map_values(f).to_multiset().remove(
            f(x),
        ));
        assert(a.drop_last().map_values(f).push(f(x)).to_multiset()
            =~= a.drop_last().map_values(f).to_multiset().insert(f(x)));
        assert(b.map_values(f).to_multiset().count(f(x)) > 0);
        assert(b.map_values(f).to_multiset().remove(f(x)).insert(f(x)) =~= b.map_values(
            f,
        ).to_multiset());
        assert(a.map_values(f).to_multiset() =~= b.map_values(f).to_multiset());
    }
}

/// Analysis is deterministic up to ordering: listings of the same unmodified
/// tree that differ only in discovery order sort to entry sequences with the
/// same multiset of entry values.
pub proof fn lemma_analysis_order_only(s1: Seq<DirectoryEntry>, s2: Seq<DirectoryEntry>)
    requires
        s1.map_values(crate::analyzer::entry_model_fn()).to_multiset() == s2.map_values(
            crate::analyzer::entry_model_fn(),
        ).to_multiset(),
    ensures
        stable_sort_desc(s1).map_values(crate::analyzer::entry_model_fn()).to_multiset()
            == stable_sort_desc(s2).map_values(crate::analyzer::entry_model_fn()).to_multiset(),
{
    lemma_sort_permutes(s1);
    lemma_sort_permutes(s2);
    lemma_map_values_multiset(stable_sort_desc(s1), s1, crate::analyzer::entry_model_fn());
    lemma_map_values_multiset(stable_sort_desc(s2), s2, crate::analyzer::entry_model_fn());
}

/// Every entry of the sorted sequence is an entry of the input.
pub proof fn lemma_sort_elements(s: Seq<DirectoryEntry>)
    ensures
        forall|i: int|
            0 <= i < stable_sort_desc(s).len() ==> s.contains(#[trigger] stable_sort_desc(s)[i]),
{
    broadcast use group_to_multiset_ensures;

    lemma_sort_permutes(s);
    let t = stable_sort_desc(s);
    assert forall|i: int| 0 <= i < t.len() implies s.contains(t[i]) by {
        assert(t.contains(t[i]));
        assert(s.to_multiset().count(t[i]) > 0);
    }
}

/// Stable insertion commutes with filtering by one size value.
proof fn lemma_insert_filter(s: Seq<DirectoryEntry>, e: DirectoryEntry, k: u64)
    requires
        sorted_desc(s),
    ensures
        e.size_bytes == k ==> insert_sorted(s, e).filter(size_is(k)) == s.filter(size_is(k)).push(
            e,
        ),
        e.size_bytes != k ==> insert_sorted(s, e).filter(size_is(k)) == s.filter(size_is(k)),
{
    let pk = size_is(k);
    lemma_insert_pos_props(s, e.size_bytes);
    let p = insert_pos(s, e.size_bytes);
    let a = s.subrange(0, p);
    let b = s.subrange(p, s.len() as int);
    assert(s.insert(p, e) == a.push(e) + b);
    assert(s =~= a + b);
    Seq::filter_distributes_over_add(a.push(e), b, pk);
    Seq::filter_distributes_over_add(a, b, pk);
    assert(a.push(e).drop_last() =~= a);
    reveal(Seq::filter);
    assert(a.push(e).filter(pk) == if pk(e) {
        a.filter(pk).push(e)
    } else {
        a.filter(pk)
    });
    if e.size_bytes == k {
        assert forall|i: int| 0 <= i < b.len() implies !pk(#[trigger] b[i]) by {
            assert(b[i] == s[p + i]);
            assert(s[p].size_bytes >= s[p + i].size_bytes);
        }
        b.lemma_all_neg_filter_empty(pk);
        assert(insert_sorted(s, e).filter(pk) =~= a.filter(pk).push(e));
        assert(s.filter(pk) =~= a.filter(pk));
        assert(a.filter(pk).push(e) =~= s.filter(pk).push(e));
    } else {
        assert(insert_sorted(s, e).filter(pk) =~= a.filter(pk) + b.filter(pk));
        assert(s.filter(pk) =~= a.filter(pk) + b.filter(pk));
    }
}

/// Stability: sorting does not reorder entries of equal size. For every size
/// value, the subsequence of entries with exactly that size is unchanged.
pub proof fn lemma_sort_stable(s: Seq<DirectoryEntry>, k: u64)
    ensures
        stable_sort_desc(s).filter(size_is(k)) == s.filter(size_is(k)),
    decreases s.len(),
{
    if s.len() == 0 {
    } else {
        let pk = size_is(k);
        lemma_sort_stable(s.drop_last(), k);
        lemma_sort_sorted(s.drop_last());
        lemma_insert_filter(stable_sort_desc(s.drop_last()), s.last(), k);
        reveal(Seq::filter);
        assert(s.filter(pk) == if pk(s.last()) {
            s.drop_last().filter(pk).push(s.last())
        } else {
            s.drop_last().filter(pk)
        });
    }
}

/// Sorts entries descending by size with a stable insertion sort; the result
/// is exactly the specification-level stable sort of the input.
pub fn sort_entries_desc(entries: &Vec<DirectoryEntry>) -> (r: Vec<DirectoryEntry>)
    ensures
        r@ == stable_sort_desc(entries@),
        sorted_desc(r@),
{
    let mut out: Vec<DirectoryEntry> = Vec::new();
    let mut i: usize = 0;
    while i < entries.len()
        invariant
            i <= entries@.len(),
            out@ == stable_sort_desc(entries@.take(i as int)),
        decreases entries@.len() - i,
    {
        let key = entries[i].size_bytes;
        let mut p: usize = 0;
        while p < out.len() && out[p].size_bytes >= key
            invariant
                p <= out@.len(),
                forall|q: int| 0 <= q < p ==> #[trigger] out@[q].size_bytes >= key,
            decreases out@.len() - p,
        {
            p = p + 1;
        }
        proof {
            lemma_insert_pos_unique(out@, key, p as int);
        }
        out.insert(p, entries[i].duplicate());
        proof {
            assert(entries@.take(i as int + 1).drop_last() =~= entries@.take(i as int));
            assert(entries@.take(i as int + 1).last() == entries@[i as int]);
        }
        i = i + 1;
    }
    proof {
        assert(entries@.take(entries@.len() as int) =~= entries@);
        lemma_sort_sorted(entries@);
    }
    out
}

} // verus!
