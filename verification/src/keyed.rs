//! Small tables keyed by request id, kept in a `Vec` and scanned linearly: a
//! routine has one or two requests in flight, and a tree or a hash costs more
//! than two compares.

use vstd::prelude::*;

verus! {

/// The index of the first entry for `id` in `entries`, or `-1` if there is
/// none.
pub open spec fn key_index<V>(entries: Seq<(u64, V)>, id: u64) -> int
    decreases entries.len(),
{
    if entries.len() == 0 {
        -1
    } else {
        let i = key_index(entries.drop_last(), id);
        if i >= 0 {
            i
        } else if entries.last().0 == id {
            entries.len() - 1
        } else {
            -1
        }
    }
}

/// `entries` with the entry at `i` removed by moving the last entry into its
/// place.
pub open spec fn swap_removed<V>(entries: Seq<(u64, V)>, i: int) -> Seq<(u64, V)> {
    entries.update(i, entries.last()).drop_last()
}

/// No id is in `entries` twice.
pub open spec fn distinct_keys<V>(entries: Seq<(u64, V)>) -> bool {
    forall|i: int, j: int|
        0 <= i < j < entries.len() ==> #[trigger] entries[i].0 != #[trigger] entries[j].0
}

/// What `key_index` finds: the first entry with that id, or proof there is
/// none.
pub proof fn lemma_key_index<V>(entries: Seq<(u64, V)>, id: u64)
    ensures
        -1 <= key_index(entries, id) < entries.len(),
        key_index(entries, id) >= 0 ==> entries[key_index(entries, id)].0 == id,
        forall|j: int|
            0 <= j < entries.len() && (j < key_index(entries, id) || key_index(entries, id) < 0)
                ==> #[trigger] entries[j].0 != id,
    decreases entries.len(),
{
    if entries.len() > 0 {
        lemma_key_index(entries.drop_last(), id);
        assert forall|j: int| 0 <= j < entries.len() - 1 implies #[trigger] entries[j]
            == entries.drop_last()[j] by {}
    }
}

/// Replacing an entry's value keeps every key where it was.
pub proof fn lemma_key_index_update<V>(entries: Seq<(u64, V)>, i: int, v: V, k: u64)
    requires
        0 <= i < entries.len(),
    ensures
        key_index(entries.update(i, (entries[i].0, v)), k) == key_index(entries, k),
{
    let id = entries[i].0;
    let after = entries.update(i, (id, v));
    lemma_key_index(entries, k);
    lemma_key_index(after, k);
    let a = key_index(entries, k);
    let b = key_index(after, k);
    if a >= 0 && b >= 0 {
        assert(after[a].0 == k);
        assert(entries[b].0 == k);
    } else if a >= 0 {
        assert(after[a].0 == k);
    } else if b >= 0 {
        assert(entries[b].0 == k);
    }
}

/// In a table without repeated ids, the entry for `entries[i].0` is at `i`.
pub proof fn lemma_distinct_key_index<V>(entries: Seq<(u64, V)>, i: int)
    requires
        distinct_keys(entries),
        0 <= i < entries.len(),
    ensures
        key_index(entries, entries[i].0) == i,
{
    lemma_key_index(entries, entries[i].0);
    let k = key_index(entries, entries[i].0);
    if k >= 0 && k < i {
        assert(entries[k].0 != entries[i].0);
    }
}

/// Removing an entry from a table without repeated ids leaves no entry for
/// its id, and no repeated ids.
pub proof fn lemma_swap_removed_distinct<V>(entries: Seq<(u64, V)>, i: int)
    requires
        distinct_keys(entries),
        0 <= i < entries.len(),
    ensures
        distinct_keys(swap_removed(entries, i)),
        key_index(swap_removed(entries, i), entries[i].0) < 0,
        forall|a: int|
            0 <= a < swap_removed(entries, i).len() ==> #[trigger] swap_removed(entries, i)[a] == (
            if a == i {
                entries[entries.len() - 1]
            } else {
                entries[a]
            }),
{
    let s = swap_removed(entries, i);
    let n = entries.len();
    assert forall|a: int| 0 <= a < s.len() implies #[trigger] s[a] == (if a == i {
        entries[n - 1]
    } else {
        entries[a]
    }) by {}
    assert forall|a: int, b: int| 0 <= a < b < s.len() implies #[trigger] s[a].0 != #[trigger] s[b].0 by {
        let ia = if a == i { n - 1 } else { a };
        let ib = if b == i { n - 1 } else { b };
        assert(s[a] == entries[ia]);
        assert(s[b] == entries[ib]);
        if ia < ib {
            assert(entries[ia].0 != entries[ib].0);
        } else {
            assert(entries[ib].0 != entries[ia].0);
        }
    }
    lemma_key_index(s, entries[i].0);
    let k = key_index(s, entries[i].0);
    if k >= 0 {
        let ik = if k == i { n - 1 } else { k };
        assert(s[k] == entries[ik]);
        if ik < i {
            assert(entries[ik].0 != entries[i].0);
        } else {
            assert(entries[i].0 != entries[ik].0);
        }
    }
}

} // verus!
