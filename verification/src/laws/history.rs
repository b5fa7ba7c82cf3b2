//! The history of requests.
use crate::providers::UsageModel;
use crate::recent::{lemma_first_where, lemma_is_first};
use crate::request_dashboard::{entry_of, time_or, EntryModel, HistoryModel, HISTORY_LIMIT};
use crate::time::Timestamp;
use vstd::prelude::*;

verus! {

/// No request has two entries.
pub open spec fn one_entry_each(entries: Seq<EntryModel>) -> bool {
    forall|i: int, j: int|
        0 <= i < j < entries.len() ==> !(#[trigger] entries[i]).usage.same(
            (#[trigger] entries[j]).usage,
        )
}

/// The entries have consecutive numbers in their order, and the last of them has the last
/// number given out.
pub open spec fn numbered(history: HistoryModel) -> bool {
    &&& history.entries.len() <= history.next_number
    &&& forall|i: int|
        0 <= i < history.entries.len() ==> (#[trigger] history.entries[i]).number
            == history.next_number - (history.entries.len() - 1 - i)
}

/// Whether some observation is of the request of an entry.
pub open spec fn observed(requests: Seq<UsageModel>, entry: EntryModel) -> bool {
    exists|i: int| 0 <= i < requests.len() && entry.usage.same(#[trigger] requests[i])
}

/// How many of some observations are of requests that have no entry when they are taken in.
pub open spec fn newcomers(
    history: HistoryModel,
    requests: Seq<UsageModel>,
    now: Timestamp,
) -> nat
    decreases requests.len(),
{
    if requests.len() == 0 {
        0
    } else {
        let before = history.after(requests.drop_last(), now);
        newcomers(history, requests.drop_last(), now) + if before.place(requests.last())
            == before.entries.len() {
            1nat
        } else {
            0
        }
    }
}

/// There are no more newcomers than observations.
pub proof fn newcomers_are_observed(
    history: HistoryModel,
    requests: Seq<UsageModel>,
    now: Timestamp,
)
    ensures
        newcomers(history, requests, now) <= requests.len(),
    decreases requests.len(),
{
    if requests.len() > 0 {
        newcomers_are_observed(history, requests.drop_last(), now);
    }
}

/// The history never holds more requests than its limit.
pub proof fn history_is_bounded(
    history: HistoryModel,
    requests: Seq<UsageModel>,
    now: Timestamp,
)
    requires
        history.entries.len() <= HISTORY_LIMIT,
    ensures
        history.after(requests, now).entries.len() <= HISTORY_LIMIT,
    decreases requests.len(),
{
    if requests.len() > 0 {
        history_is_bounded(history, requests.drop_last(), now);
    }
}

proof fn one_more_entry_each(history: HistoryModel, usage: UsageModel, now: Timestamp)
    requires
        one_entry_each(history.entries),
    ensures
        one_entry_each(history.after_one(usage, now).entries),
{
    lemma_first_where(history.entries, entry_of(usage));
    let place = history.place(usage) as int;
    let after = history.after_one(usage, now).entries;
    if place < history.entries.len() {
        assert(entry_of(usage)(history.entries[place]));
        assert forall|i: int, j: int| 0 <= i < j < after.len() implies !(
        #[trigger] after[i]).usage.same((#[trigger] after[j]).usage) by {
            assert(!history.entries[i].usage.same(history.entries[j].usage));
        }
    } else {
        let grown = history.entries.len() + 1;
        let dropped: int = if grown > HISTORY_LIMIT {
            grown - HISTORY_LIMIT
        } else {
            0
        };
        assert forall|i: int, j: int| 0 <= i < j < after.len() implies !(
        #[trigger] after[i]).usage.same((#[trigger] after[j]).usage) by {
            if dropped + j < history.entries.len() {
                assert(!history.entries[dropped + i].usage.same(
                    history.entries[dropped + j].usage,
                ));
            } else {
                assert(!entry_of(usage)(history.entries[dropped + i]));
            }
        }
    }
}

/// Observations of one request meet in one entry, however often it is observed; other
/// providers and models have entries of their own.
pub proof fn requests_have_one_entry_each(
    history: HistoryModel,
    requests: Seq<UsageModel>,
    now: Timestamp,
)
    requires
        one_entry_each(history.entries),
    ensures
        one_entry_each(history.after(requests, now).entries),
    decreases requests.len(),
{
    if requests.len() > 0 {
        requests_have_one_entry_each(history, requests.drop_last(), now);
        one_more_entry_each(
            history.after(requests.drop_last(), now),
            requests.last(),
            now,
        );
    }
}

/// Entries stay numbered without gaps, in the order in which their requests were first
/// seen, while there are numbers left.
pub proof fn entries_stay_numbered(
    history: HistoryModel,
    requests: Seq<UsageModel>,
    now: Timestamp,
)
    requires
        numbered(history),
        history.next_number + newcomers(history, requests, now) <= u64::MAX,
    ensures
        numbered(history.after(requests, now)),
        history.after(requests, now).next_number == history.next_number + newcomers(
            history,
            requests,
            now,
        ),
    decreases requests.len(),
{
    if requests.len() > 0 {
        entries_stay_numbered(history, requests.drop_last(), now);
        let before = history.after(requests.drop_last(), now);
        let usage = requests.last();
        lemma_first_where(before.entries, entry_of(usage));
        let after = before.after_one(usage, now);
        let place = before.place(usage) as int;
        if place < before.entries.len() {
            assert forall|i: int| 0 <= i < after.entries.len() implies (
            #[trigger] after.entries[i]).number == after.next_number - (after.entries.len() - 1
                - i) by {
                assert(before.entries[i].number == before.next_number - (before.entries.len() - 1
                    - i));
            }
        } else {
            let grown = before.entries.len() + 1;
            let dropped: int = if grown > HISTORY_LIMIT {
                grown - HISTORY_LIMIT
            } else {
                0
            };
            assert forall|i: int| 0 <= i < after.entries.len() implies (
            #[trigger] after.entries[i]).number == after.next_number - (after.entries.len() - 1
                - i) by {
                if dropped + i < before.entries.len() {
                    assert(before.entries[dropped + i].number == before.next_number - (
                    before.entries.len() - 1 - (dropped + i)));
                }
            }
        }
    }
}

/// The history that was never told anything.
pub open spec fn new_history() -> HistoryModel {
    HistoryModel { entries: Seq::empty(), next_number: 0 }
}

/// The history after some batches of observations, each with its time.
pub open spec fn after_batches(batches: Seq<(Seq<UsageModel>, Timestamp)>) -> HistoryModel
    decreases batches.len(),
{
    if batches.len() == 0 {
        new_history()
    } else {
        after_batches(batches.drop_last()).after(batches.last().0, batches.last().1)
    }
}

/// How many observations some batches hold.
pub open spec fn observations(batches: Seq<(Seq<UsageModel>, Timestamp)>) -> nat
    decreases batches.len(),
{
    if batches.len() == 0 {
        0
    } else {
        observations(batches.drop_last()) + batches.last().0.len()
    }
}

/// From the start on, after whatever observations, the history is bounded, has one entry
/// for each request, and numbers its entries without gaps up to the last number given
/// out; while there are numbers left.
pub proof fn histories_are_well_formed(batches: Seq<(Seq<UsageModel>, Timestamp)>)
    requires
        observations(batches) <= u64::MAX,
    ensures
        after_batches(batches).entries.len() <= HISTORY_LIMIT,
        one_entry_each(after_batches(batches).entries),
        numbered(after_batches(batches)),
        after_batches(batches).next_number <= observations(batches),
        after_batches(batches).entries.len() > 0 ==> after_batches(batches).entries.last().number
            == after_batches(batches).next_number,
    decreases batches.len(),
{
    if batches.len() > 0 {
        let before = batches.drop_last();
        histories_are_well_formed(before);
        let (requests, now) = batches.last();
        history_is_bounded(after_batches(before), requests, now);
        requests_have_one_entry_each(after_batches(before), requests, now);
        newcomers_are_observed(after_batches(before), requests, now);
        entries_stay_numbered(after_batches(before), requests, now);
    }
}

/// Requests that are no longer listed stay as they were, and an observation keeps the
/// place and the number of a request; while there is room for the newcomers, none leaves.
pub proof fn absent_requests_remain(
    history: HistoryModel,
    requests: Seq<UsageModel>,
    now: Timestamp,
)
    requires
        history.entries.len() + newcomers(history, requests, now) <= HISTORY_LIMIT,
    ensures
        history.after(requests, now).entries.len() == history.entries.len() + newcomers(
            history,
            requests,
            now,
        ),
        forall|i: int|
            0 <= i < history.entries.len() ==> {
                let after = #[trigger] history.after(requests, now).entries[i];
                &&& after.number == history.entries[i].number
                &&& after.usage.same(history.entries[i].usage)
                &&& !observed(requests, history.entries[i]) ==> after == history.entries[i]
            },
    decreases requests.len(),
{
    if requests.len() > 0 {
        let earlier = requests.drop_last();
        absent_requests_remain(history, earlier, now);
        let before = history.after(earlier, now);
        let usage = requests.last();
        let after = before.after_one(usage, now);
        lemma_first_where(before.entries, entry_of(usage));
        let place = before.place(usage) as int;
        assert forall|i: int| 0 <= i < history.entries.len() implies {
            let after = #[trigger] history.after(requests, now).entries[i];
            &&& after.number == history.entries[i].number
            &&& after.usage.same(history.entries[i].usage)
            &&& !observed(requests, history.entries[i]) ==> after == history.entries[i]
        } by {
            let kept = history.after(earlier, now).entries[i];
            assert(kept.usage.same(history.entries[i].usage));
            if !observed(requests, history.entries[i]) {
                if observed(earlier, history.entries[i]) {
                    let k = choose|k: int|
                        0 <= k < earlier.len() && history.entries[i].usage.same(
                            #[trigger] earlier[k],
                        );
                    assert(requests[k] == earlier[k]);
                }
                if place == i {
                    assert(entry_of(usage)(before.entries[i]));
                    assert(requests[requests.len() - 1] == usage);
                }
            }
        }
    }
}

/// What was observed last of a request is what its entry holds.
pub proof fn last_observation_is_held(
    history: HistoryModel,
    requests: Seq<UsageModel>,
    now: Timestamp,
)
    requires
        requests.len() > 0,
    ensures
        exists|i: int|
            0 <= i < history.after(requests, now).entries.len() && (
            #[trigger] history.after(requests, now).entries[i]).usage == requests.last(),
{
    let before = history.after(requests.drop_last(), now);
    let usage = requests.last();
    let after = history.after(requests, now);
    lemma_first_where(before.entries, entry_of(usage));
    let place = before.place(usage) as int;
    if place < before.entries.len() {
        assert(after.entries[place].usage == usage);
    } else {
        assert(after.entries[after.entries.len() - 1].usage == usage);
    }
}

/// Repeating an observation changes nothing, whatever the time: an unchanged answer
/// does not make a request younger.
pub proof fn repetition_does_not_refresh(
    history: HistoryModel,
    usage: UsageModel,
    first: Timestamp,
    later: Timestamp,
)
    ensures
        history.after_one(usage, first).after_one(usage, later) == history.after_one(usage, first),
{
    let once = history.after_one(usage, first);
    lemma_first_where(history.entries, entry_of(usage));
    let place = history.place(usage) as int;
    if place < history.entries.len() {
        assert(entry_of(usage)(once.entries[place]));
        assert forall|i: int| 0 <= i < place implies !entry_of(usage)(
            #[trigger] once.entries[i],
        ) by {
            assert(!entry_of(usage)(history.entries[i]));
        }
        lemma_is_first(once.entries, entry_of(usage), place);
        assert(once.after_one(usage, later).entries =~= once.entries);
    } else {
        let grown = history.entries.len() + 1;
        let dropped: int = if grown > HISTORY_LIMIT {
            grown - HISTORY_LIMIT
        } else {
            0
        };
        let last = once.entries.len() - 1;
        assert(entry_of(usage)(once.entries[last]));
        assert forall|i: int| 0 <= i < last implies !entry_of(usage)(
            #[trigger] once.entries[i],
        ) by {
            assert(!entry_of(usage)(history.entries[dropped + i]));
        }
        lemma_is_first(once.entries, entry_of(usage), last);
        assert(once.after_one(usage, later).entries =~= once.entries);
    }
}

/// An observation without a time of its own leaves the age of a known request as it
/// was.
pub proof fn untimed_observation_keeps_age(
    history: HistoryModel,
    usage: UsageModel,
    now: Timestamp,
)
    requires
        usage.observed_at is None,
        history.place(usage) < history.entries.len(),
    ensures
        history.after_one(usage, now).entries[history.place(usage) as int].last_seen
            == history.entries[history.place(usage) as int].last_seen,
{
}

/// An observation with a time of its own is as old as that time, whenever it is taken
/// in.
pub proof fn timed_observation_has_its_own_age(
    history: HistoryModel,
    usage: UsageModel,
    now: Timestamp,
)
    requires
        usage.observed_at is Some,
    ensures
        exists|i: int|
            0 <= i < history.after_one(usage, now).entries.len() && {
                let entry = #[trigger] history.after_one(usage, now).entries[i];
                entry.usage == usage && Some(entry.last_seen) == usage.observed_at
            },
{
    lemma_first_where(history.entries, entry_of(usage));
    let after = history.after_one(usage, now).entries;
    let place = history.place(usage) as int;
    if place < history.entries.len() {
        assert(after[place].usage == usage);
    } else {
        assert(after[after.len() - 1].usage == usage);
    }
}

/// The numbers given out never fall.
pub proof fn numbers_never_fall(
    history: HistoryModel,
    requests: Seq<UsageModel>,
    now: Timestamp,
)
    ensures
        history.next_number <= history.after(requests, now).next_number,
    decreases requests.len(),
{
    if requests.len() > 0 {
        numbers_never_fall(history, requests.drop_last(), now);
    }
}

/// Whether every one of some requests has an entry.
spec fn all_known(history: HistoryModel, requests: Seq<UsageModel>) -> bool {
    forall|k: int|
        0 <= k < requests.len() ==> history.place(#[trigger] requests[k])
            < history.entries.len()
}

/// The age of entry `i` after some observations, if it was `at` before them.
spec fn age_after(
    history: HistoryModel,
    requests: Seq<UsageModel>,
    i: int,
    at: Timestamp,
) -> Timestamp
    decreases requests.len(),
{
    if requests.len() == 0 {
        at
    } else {
        let before = age_after(history, requests.drop_last(), i, at);
        if history.place(requests.last()) == i {
            time_or(requests.last().observed_at, before)
        } else {
            before
        }
    }
}

/// Whether two histories have entries of the same requests in the same places.
spec fn same_places(a: HistoryModel, b: HistoryModel) -> bool {
    a.entries.len() == b.entries.len() && forall|i: int|
        0 <= i < a.entries.len() ==> (#[trigger] a.entries[i]).usage.same(b.entries[i].usage)
}

proof fn lemma_same_places(a: HistoryModel, b: HistoryModel, usage: UsageModel)
    requires
        same_places(a, b),
    ensures
        a.place(usage) == b.place(usage),
{
    lemma_first_where(b.entries, entry_of(usage));
    let place = b.place(usage) as int;
    assert forall|i: int| 0 <= i < place implies !entry_of(usage)(#[trigger] a.entries[i]) by {
        assert(!entry_of(usage)(b.entries[i]));
    }
    if place < a.entries.len() {
        assert(entry_of(usage)(b.entries[place]));
        assert(entry_of(usage)(a.entries[place]));
    }
    lemma_is_first(a.entries, entry_of(usage), place);
}

/// What observations of known requests change: nothing but the entries in their places.
proof fn lemma_known_after(history: HistoryModel, requests: Seq<UsageModel>, now: Timestamp)
    requires
        all_known(history, requests),
    ensures
        same_places(history.after(requests, now), history),
        history.after(requests, now).next_number == history.next_number,
        forall|i: int|
            0 <= i < history.entries.len() ==> {
                let after = #[trigger] history.after(requests, now).entries[i];
                &&& after.number == history.entries[i].number
                &&& after.last_seen == age_after(
                    history,
                    requests,
                    i,
                    history.entries[i].last_seen,
                )
                &&& (forall|k: int|
                    0 <= k < requests.len() ==> history.place(#[trigger] requests[k]) != i)
                    ==> after == history.entries[i]
            },
    decreases requests.len(),
{
    if requests.len() > 0 {
        let earlier = requests.drop_last();
        let usage = requests.last();
        assert forall|k: int| 0 <= k < earlier.len() implies history.place(#[trigger] earlier[k])
            < history.entries.len() by {
            assert(earlier[k] == requests[k]);
        }
        lemma_known_after(history, earlier, now);
        let before = history.after(earlier, now);
        lemma_same_places(before, history, usage);
        lemma_first_where(before.entries, entry_of(usage));
        assert(requests[requests.len() - 1] == usage);
        let after = history.after(requests, now);
        let place = before.place(usage) as int;
        assert(entry_of(usage)(before.entries[place]));
        assert forall|i: int| 0 <= i < after.entries.len() implies (
        #[trigger] after.entries[i]).usage.same(history.entries[i].usage) by {
            assert(before.entries[i].usage.same(history.entries[i].usage));
        }
        assert forall|i: int| 0 <= i < history.entries.len() implies {
            let after = #[trigger] history.after(requests, now).entries[i];
            &&& after.number == history.entries[i].number
            &&& after.last_seen == age_after(history, requests, i, history.entries[i].last_seen)
            &&& (forall|k: int|
                0 <= k < requests.len() ==> history.place(#[trigger] requests[k]) != i) ==> after
                == history.entries[i]
        } by {
            let kept = history.after(earlier, now).entries[i];
            assert(kept.number == history.entries[i].number);
            if forall|k: int|
                0 <= k < requests.len() ==> history.place(#[trigger] requests[k]) != i {
                assert(history.place(requests[requests.len() - 1]) != i);
                assert forall|k: int| 0 <= k < earlier.len() implies history.place(
                    #[trigger] earlier[k],
                ) != i by {
                    assert(earlier[k] == requests[k]);
                }
            }
        }
    }
}

proof fn lemma_age_by_places(
    a: HistoryModel,
    b: HistoryModel,
    requests: Seq<UsageModel>,
    i: int,
    at: Timestamp,
)
    requires
        forall|k: int|
            0 <= k < requests.len() ==> a.place(#[trigger] requests[k]) == b.place(requests[k]),
    ensures
        age_after(a, requests, i, at) == age_after(b, requests, i, at),
    decreases requests.len(),
{
    if requests.len() > 0 {
        let earlier = requests.drop_last();
        assert forall|k: int| 0 <= k < earlier.len() implies a.place(#[trigger] earlier[k])
            == b.place(earlier[k]) by {
            assert(earlier[k] == requests[k]);
        }
        lemma_age_by_places(a, b, earlier, i, at);
        assert(a.place(requests[requests.len() - 1]) == b.place(requests[requests.len() - 1]));
    }
}

/// Whether taking in some requests again would change nothing.
spec fn settled(history: HistoryModel, requests: Seq<UsageModel>) -> bool {
    all_known(history, requests) && forall|later: Timestamp| #[trigger]
        history.after(requests, later) == history
}

proof fn lemma_settled_new(
    history: HistoryModel,
    requests: Seq<UsageModel>,
    usage: UsageModel,
    now: Timestamp,
)
    requires
        settled(history, requests),
        history.place(usage) == history.entries.len(),
        history.entries.len() < HISTORY_LIMIT,
    ensures
        settled(history.after_one(usage, now), requests.push(usage)),
{
    let after = history.after_one(usage, now);
    let all = requests.push(usage);
    let last = history.entries.len() as int;
    lemma_first_where(history.entries, entry_of(usage));
    // The places of the earlier requests stay, and none of them is that of the new entry.
    assert forall|k: int| 0 <= k < requests.len() implies after.place(#[trigger] requests[k])
        == history.place(requests[k]) by {
        let wanted = entry_of(requests[k]);
        lemma_first_where(history.entries, wanted);
        let place = history.place(requests[k]) as int;
        assert(place < last);
        assert forall|i: int| 0 <= i < place implies !wanted(#[trigger] after.entries[i]) by {
            assert(!wanted(history.entries[i]));
        }
        assert(wanted(history.entries[place]));
        assert(after.entries[place] == history.entries[place]);
        lemma_is_first(after.entries, wanted, place);
    }
    assert forall|i: int| 0 <= i < last implies !entry_of(usage)(#[trigger] after.entries[i]) by {
        assert(!entry_of(usage)(history.entries[i]));
    }
    assert(entry_of(usage)(after.entries[last]));
    lemma_is_first(after.entries, entry_of(usage), last);
    assert forall|k: int| 0 <= k < all.len() implies after.place(#[trigger] all[k])
        < after.entries.len() by {
        if k < requests.len() {
            assert(all[k] == requests[k]);
            assert(history.place(requests[k]) < last);
        }
    }
    assert(all_known(after, requests)) by {
        assert forall|k: int| 0 <= k < requests.len() implies after.place(#[trigger] requests[k])
            < after.entries.len() by {
            assert(history.place(requests[k]) < last);
        }
    }
    assert forall|later: Timestamp| #[trigger] after.after(all, later) == after by {
        assert(all.drop_last() =~= requests);
        lemma_known_after(after, requests, later);
        lemma_known_after(history, requests, later);
        let again = after.after(requests, later);
        assert(history.after(requests, later) == history);
        assert forall|i: int| 0 <= i < after.entries.len() implies again.entries[i]
            == after.entries[i] by {
            if i == last {
                assert forall|k: int| 0 <= k < requests.len() implies after.place(
                    #[trigger] requests[k],
                ) != i by {
                    assert(history.place(requests[k]) < last);
                }
                assert(after.after(requests, later).entries[i] == after.entries[i]);
            } else {
                lemma_usage_by_places(after, history, requests, i, later);
                lemma_age_by_places(after, history, requests, i, history.entries[i].last_seen);
                assert(after.entries[i] == history.entries[i]);
                assert(history.after(requests, later).entries[i] == history.entries[i]);
                assert(again.entries[i].number == after.entries[i].number);
            }
        }
        assert(again.entries =~= after.entries);
        assert(again == after);
        assert(after.after_one(usage, later).entries =~= after.entries);
    }
}

/// What an entry holds after observations of known requests depends on the places of the
/// requests alone.
proof fn lemma_usage_by_places(
    a: HistoryModel,
    b: HistoryModel,
    requests: Seq<UsageModel>,
    i: int,
    now: Timestamp,
)
    requires
        all_known(a, requests),
        all_known(b, requests),
        0 <= i < a.entries.len(),
        0 <= i < b.entries.len(),
        a.entries[i].usage == b.entries[i].usage || exists|k: int|
            0 <= k < requests.len() && a.place(#[trigger] requests[k]) == i,
        forall|k: int|
            0 <= k < requests.len() ==> a.place(#[trigger] requests[k]) == b.place(requests[k]),
    ensures
        a.after(requests, now).entries[i].usage == b.after(requests, now).entries[i].usage,
    decreases requests.len(),
{
    if requests.len() > 0 {
        let earlier = requests.drop_last();
        let usage = requests.last();
        assert(requests[requests.len() - 1] == usage);
        assert forall|k: int| 0 <= k < earlier.len() implies a.place(#[trigger] earlier[k])
            == b.place(earlier[k]) && a.place(earlier[k]) < a.entries.len() && b.place(earlier[k])
            < b.entries.len() by {
            assert(earlier[k] == requests[k]);
        }
        lemma_known_after(a, earlier, now);
        lemma_known_after(b, earlier, now);
        let x = a.after(earlier, now);
        let y = b.after(earlier, now);
        lemma_same_places(x, a, usage);
        lemma_same_places(y, b, usage);
        if a.place(usage) != i {
            if a.entries[i].usage != b.entries[i].usage {
                let k = choose|k: int|
                    0 <= k < requests.len() && a.place(#[trigger] requests[k]) == i;
                assert(earlier[k] == requests[k]);
            }
            lemma_usage_by_places(a, b, earlier, i, now);
        }
    }
}

proof fn lemma_settled_known(
    history: HistoryModel,
    requests: Seq<UsageModel>,
    usage: UsageModel,
    now: Timestamp,
)
    requires
        settled(history, requests),
        history.place(usage) < history.entries.len(),
    ensures
        settled(history.after_one(usage, now), requests.push(usage)),
{
    let after = history.after_one(usage, now);
    let all = requests.push(usage);
    let place = history.place(usage) as int;
    lemma_first_where(history.entries, entry_of(usage));
    assert(entry_of(usage)(history.entries[place]));
    assert(same_places(after, history));
    assert forall|k: int| 0 <= k < all.len() implies after.place(#[trigger] all[k])
        < after.entries.len() by {
        lemma_same_places(after, history, all[k]);
        if k < requests.len() {
            assert(all[k] == requests[k]);
        }
    }
    assert forall|k: int| 0 <= k < requests.len() implies after.place(#[trigger] requests[k])
        == history.place(requests[k]) && after.place(requests[k]) < after.entries.len() by {
        lemma_same_places(after, history, requests[k]);
    }
    lemma_same_places(after, history, usage);
    assert forall|later: Timestamp| #[trigger] after.after(all, later) == after by {
        assert(all.drop_last() =~= requests);
        lemma_known_after(after, requests, later);
        lemma_known_after(history, requests, later);
        let again = after.after(requests, later);
        assert(history.after(requests, later) == history);
        lemma_same_places(again, after, usage);
        let last = again.after_one(usage, later);
        assert forall|i: int| 0 <= i < after.entries.len() implies last.entries[i]
            == after.entries[i] by {
            assert(again.entries[i].number == after.entries[i].number);
            assert(history.after(requests, later).entries[i] == history.entries[i]);
            if i == place {
                let at = history.entries[i].last_seen;
                lemma_age_by_places(after, history, requests, i, at);
                assert(age_after(history, requests, i, at) == at);
            } else {
                lemma_usage_by_places(after, history, requests, i, later);
                lemma_age_by_places(after, history, requests, i, history.entries[i].last_seen);
                assert(after.entries[i] == history.entries[i]);
            }
        }
        assert(last.entries =~= after.entries);
        assert(last == after);
    }
}

proof fn lemma_settled(history: HistoryModel, requests: Seq<UsageModel>, now: Timestamp)
    requires
        history.entries.len() + newcomers(history, requests, now) <= HISTORY_LIMIT,
    ensures
        settled(history.after(requests, now), requests),
    decreases requests.len(),
{
    if requests.len() > 0 {
        let earlier = requests.drop_last();
        let usage = requests.last();
        lemma_settled(history, earlier, now);
        absent_requests_remain(history, earlier, now);
        let before = history.after(earlier, now);
        lemma_first_where(before.entries, entry_of(usage));
        assert(earlier.push(usage) =~= requests);
        if before.place(usage) < before.entries.len() {
            lemma_settled_known(before, earlier, usage, now);
        } else {
            lemma_settled_new(before, earlier, usage, now);
        }
    }
}

/// Taking in the same list of requests again changes nothing, whatever the time, also
/// where it names a request twice; while there is room for the newcomers, so that none has
/// left in between.
pub proof fn repeated_reading_changes_nothing(
    history: HistoryModel,
    requests: Seq<UsageModel>,
    first: Timestamp,
    later: Timestamp,
)
    requires
        history.entries.len() + newcomers(history, requests, first) <= HISTORY_LIMIT,
    ensures
        history.after(requests, first).after(requests, later) == history.after(requests, first),
{
    lemma_settled(history, requests, first);
}

/// Observations taken in at once or one part after the other lead to the same history.
pub proof fn observations_add_up(
    history: HistoryModel,
    requests: Seq<UsageModel>,
    more: Seq<UsageModel>,
    now: Timestamp,
)
    ensures
        history.after(requests + more, now) == history.after(requests, now).after(more, now),
    decreases more.len(),
{
    if more.len() == 0 {
        assert(requests + more =~= requests);
    } else {
        observations_add_up(history, requests, more.drop_last(), now);
        assert((requests + more).drop_last() =~= requests + more.drop_last());
    }
}

/// The entries that stay are the newest: what leaves, leaves from the front.
pub proof fn oldest_leave_first(history: HistoryModel, usage: UsageModel, now: Timestamp)
    requires
        history.entries.len() == HISTORY_LIMIT,
        history.place(usage) == history.entries.len(),
    ensures
        history.after_one(usage, now).entries.drop_last() == history.entries.drop_first(),
        history.after_one(usage, now).entries.last().usage == usage,
{
    assert(history.after_one(usage, now).entries.drop_last() =~= history.entries.drop_first());
}

} // verus!
