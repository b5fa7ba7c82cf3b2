//! Bounded queues: what is kept is what came last.
use std::collections::VecDeque;
use vstd::prelude::*;

verus! {

/// The last `limit` items, in their order.
pub open spec fn newest<T>(items: Seq<T>, limit: nat) -> Seq<T> {
    if items.len() <= limit {
        items
    } else {
        items.skip(items.len() - limit)
    }
}

/// Drops items from the front until at most `limit` are left.
pub fn keep_newest<T>(items: &mut VecDeque<T>, limit: usize)
    ensures
        final(items)@ == newest(old(items)@, limit as nat),
{
    let ghost all = items@;
    while items.len() > limit
        invariant
            newest(items@, limit as nat) == newest(all, limit as nat),
        decreases items@.len(),
    {
        let ghost before = items@;
        items.pop_front();
        assert(newest(items@, limit as nat) =~= newest(before, limit as nat));
    }
}

/// How many items stand before the first that meets `wanted`; all of them, if none
/// does.
pub open spec fn first_where<T>(items: Seq<T>, wanted: spec_fn(T) -> bool) -> nat
    decreases items.len(),
{
    if items.len() == 0 || wanted(items[0]) {
        0
    } else {
        1 + first_where(items.drop_first(), wanted)
    }
}

/// Where the first wanted item stands.
pub proof fn lemma_first_where<T>(items: Seq<T>, wanted: spec_fn(T) -> bool)
    ensures
        first_where(items, wanted) <= items.len(),
        first_where(items, wanted) < items.len() ==> wanted(
            items[first_where(items, wanted) as int],
        ),
        forall|i: int| 0 <= i < first_where(items, wanted) ==> !wanted(#[trigger] items[i]),
    decreases items.len(),
{
    if items.len() > 0 && !wanted(items[0]) {
        lemma_first_where(items.drop_first(), wanted);
        assert forall|i: int| 0 <= i < first_where(items, wanted) implies !wanted(
            #[trigger] items[i],
        ) by {
            if i > 0 {
                assert(items.drop_first()[i - 1] == items[i]);
            }
        }
    }
}

/// The only place that can be that of the first wanted item.
pub proof fn lemma_is_first<T>(items: Seq<T>, wanted: spec_fn(T) -> bool, n: int)
    requires
        0 <= n <= items.len(),
        n < items.len() ==> wanted(items[n]),
        forall|i: int| 0 <= i < n ==> !wanted(#[trigger] items[i]),
    ensures
        first_where(items, wanted) == n,
{
    lemma_first_where(items, wanted);
    if first_where(items, wanted) < n {
        assert(!wanted(items[first_where(items, wanted) as int]));
    } else if n < first_where(items, wanted) {
        assert(!wanted(items[n]));
    }
}

} // verus!
