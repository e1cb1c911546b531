//! Tables by slot number, walked in slot order.

use std::collections::BTreeMap;
use vstd::prelude::*;
use vstd::std_specs::cmp::OrdSpec;
use vstd::std_specs::iter::IteratorSpec;

verus! {

broadcast use vstd::std_specs::btree::group_btree_axioms;

/// One more than the largest slot number.
pub open spec fn slot_limit() -> nat {
    0x1_0000_0000
}

/// Walks the slots below `n` in order: `step` takes what was made so far, the slot and its entry.
pub open spec fn fold_slots<V, A>(
    m: Map<u32, V>,
    n: nat,
    init: A,
    step: spec_fn(A, u32, V) -> A,
) -> A
    decreases n,
{
    if n == 0 {
        init
    } else {
        let before = fold_slots(m, (n - 1) as nat, init, step);
        let slot = (n - 1) as u32;
        if m.contains_key(slot) {
            step(before, slot, m[slot])
        } else {
            before
        }
    }
}

/// Where no slot lies between two bounds, walking up to either gives the same.
pub proof fn lemma_fold_gap<V, A>(
    m: Map<u32, V>,
    low: nat,
    high: nat,
    init: A,
    step: spec_fn(A, u32, V) -> A,
)
    requires
        low <= high <= slot_limit(),
        forall|k: u32| low <= k < high ==> !#[trigger] m.contains_key(k),
    ensures
        fold_slots(m, high, init, step) == fold_slots(m, low, init, step),
    decreases high,
{
    if low < high {
        let slot = (high - 1) as u32;
        assert(!m.contains_key(slot));
        lemma_fold_gap(m, low, (high - 1) as nat, init, step);
    }
}

/// The entries of a table in slot order.
pub open spec fn lists<V>(entries: Seq<(u32, &V)>, m: Map<u32, V>) -> bool {
    &&& forall|i: int, j: int|
        0 <= i < j < entries.len() ==> (#[trigger] entries[i]).0 < (#[trigger] entries[j]).0
    &&& forall|i: int|
        0 <= i < entries.len() ==> m.contains_key((#[trigger] entries[i]).0) && m[entries[i].0]
            == *entries[i].1
    &&& forall|k: u32| #[trigger]
        m.contains_key(k) ==> exists|i: int| 0 <= i < entries.len() && (#[trigger] entries[i]).0 == k
}

/// The bound below which the first `i` entries lie.
pub open spec fn bound<V>(entries: Seq<(u32, &V)>, i: int) -> nat {
    if i <= 0 {
        0
    } else {
        (entries[i - 1].0 + 1) as nat
    }
}

/// Walking one entry further is one step.
pub proof fn lemma_fold_step<V, A>(
    entries: Seq<(u32, &V)>,
    m: Map<u32, V>,
    i: int,
    init: A,
    step: spec_fn(A, u32, V) -> A,
)
    requires
        lists(entries, m),
        0 <= i < entries.len(),
    ensures
        fold_slots(m, bound(entries, i + 1), init, step) == step(
            fold_slots(m, bound(entries, i), init, step),
            entries[i].0,
            *entries[i].1,
        ),
{
    let low = bound(entries, i);
    let high = entries[i].0 as nat;
    assert forall|k: u32| low <= k < high implies !#[trigger] m.contains_key(k) by {
        if m.contains_key(k) {
            let j = choose|j: int| 0 <= j < entries.len() && (#[trigger] entries[j]).0 == k;
            if j < i {
                if j < i - 1 {
                    assert(entries[j].0 < entries[i - 1].0);
                }
            } else if j > i {
                assert(entries[i].0 < entries[j].0);
            }
        }
    }
    lemma_fold_gap(m, low, high, init, step);
}

/// Having walked every entry is having walked every slot.
pub proof fn lemma_fold_end<V, A>(
    entries: Seq<(u32, &V)>,
    m: Map<u32, V>,
    init: A,
    step: spec_fn(A, u32, V) -> A,
)
    requires
        lists(entries, m),
    ensures
        fold_slots(m, slot_limit(), init, step) == fold_slots(
            m,
            bound(entries, entries.len() as int),
            init,
            step,
        ),
{
    let low = bound(entries, entries.len() as int);
    assert forall|k: u32| low <= k < slot_limit() implies !#[trigger] m.contains_key(k) by {
        if m.contains_key(k) {
            let j = choose|j: int| 0 <= j < entries.len() && (#[trigger] entries[j]).0 == k;
            if j < entries.len() - 1 {
                assert(entries[j].0 < entries[entries.len() - 1].0);
            }
        }
    }
    lemma_fold_gap(m, low, slot_limit(), init, step);
}

/// Walking what the entries of a table hold is walking the table with what its entries hold.
pub proof fn lemma_fold_views<V: View, A>(
    m: Map<u32, V>,
    n: nat,
    init: A,
    step: spec_fn(A, u32, V::V) -> A,
)
    ensures
        fold_slots(views(m), n, init, step) == fold_slots(
            m,
            n,
            init,
            |a: A, slot: u32, v: V| step(a, slot, v@),
        ),
    decreases n,
{
    if n > 0 {
        lemma_fold_views(m, (n - 1) as nat, init, step);
    }
}

/// A table of what the entries hold.
pub open spec fn views<V: View>(m: Map<u32, V>) -> Map<u32, V::V> {
    m.map_values(|v: V| v@)
}

/// Walking one entry further is one step, on what the entries hold.
pub proof fn lemma_fold_step_views<V: View, A>(
    entries: Seq<(u32, &V)>,
    m: Map<u32, V>,
    i: int,
    init: A,
    step: spec_fn(A, u32, V::V) -> A,
)
    requires
        lists(entries, m),
        0 <= i < entries.len(),
    ensures
        fold_slots(views(m), bound(entries, i + 1), init, step) == step(
            fold_slots(views(m), bound(entries, i), init, step),
            entries[i].0,
            entries[i].1@,
        ),
{
    lemma_fold_step(entries, m, i, init, |a: A, slot: u32, v: V| step(a, slot, v@));
    lemma_fold_views(m, bound(entries, i + 1), init, step);
    lemma_fold_views(m, bound(entries, i), init, step);
}

/// Having walked every entry is having walked every slot, on what the entries hold.
pub proof fn lemma_fold_end_views<V: View, A>(
    entries: Seq<(u32, &V)>,
    m: Map<u32, V>,
    init: A,
    step: spec_fn(A, u32, V::V) -> A,
)
    requires
        lists(entries, m),
    ensures
        fold_slots(views(m), slot_limit(), init, step) == fold_slots(
            views(m),
            bound(entries, entries.len() as int),
            init,
            step,
        ),
{
    lemma_fold_end(entries, m, init, |a: A, slot: u32, v: V| step(a, slot, v@));
    lemma_fold_views(m, slot_limit(), init, step);
    lemma_fold_views(m, bound(entries, entries.len() as int), init, step);
}

/// The entries of a table in slot order.
pub fn entries_of<V>(m: &BTreeMap<u32, V>) -> (r: Vec<(u32, &V)>)
    ensures
        lists(r@, m@),
{
    let mut out: Vec<(u32, &V)> = Vec::new();
    let walk = m.iter();
    let ghost all = vstd::std_specs::btree::spec_btree_map_iter(m).remaining();
    assert(walk.remaining() == all);
    let ghost keys = all.map_values(|kv: (&u32, &V)| *kv.0);
    assert(vstd::std_specs::btree::increasing_seq(keys));
    for kv in it: walk
        invariant
            it.seq() == all,
            out@.len() == it.index(),
            forall|i: int|
                0 <= i < out@.len() ==> (#[trigger] out@[i]).0 == *it.seq()[i].0 && out@[i].1
                    == it.seq()[i].1,
    {
        out.push((*kv.0, kv.1));
    }
    proof {
        assert forall|i: int, j: int| 0 <= i < j < out@.len() implies (#[trigger] out@[i]).0 < (
        #[trigger] out@[j]).0 by {
            assert(keys[i].cmp_spec(&keys[j]) is Less);
        }
        assert forall|i: int| 0 <= i < out@.len() implies m@.contains_key((#[trigger] out@[i]).0)
            && m@[out@[i].0] == *out@[i].1 by {
            assert(m@.contains_key(*all[i].0));
        }
        assert forall|k: u32| #[trigger] m@.contains_key(k) implies exists|i: int|
            0 <= i < out@.len() && (#[trigger] out@[i]).0 == k by {
            assert(all.contains((&k, &m@[k])));
            let i = choose|i: int| 0 <= i < all.len() && all[i] == (&k, &m@[k]);
            assert(out@[i].0 == k);
        }
    }
    out
}

} // verus!
