//! How a prompt is judged by those before it.
use crate::phrase::PieceModel;
use crate::providers::UsageModel;
use crate::request_dashboard::{
    assessment, baseline, change_from, charted, comparison_line, insight_at, is_jump, live_at,
    not_greater, run_before, typical, Advice, Assessment, Change, EntryModel,
    HistoryModel, Tone,
};
use crate::sample::SampleModel;
use crate::telemetry::TelemetrySource;
use crate::text::{decimal, grouped};
use crate::time::Timestamp;
use vstd::prelude::*;
use vstd::relations::total_ordering;

verus! {

/// How many of some counts are less than a given one.
pub open spec fn how_many_less(counts: Seq<u64>, m: u64) -> nat
    decreases counts.len(),
{
    if counts.len() == 0 {
        0
    } else if counts.last() < m {
        how_many_less(counts.drop_last(), m) + 1
    } else {
        how_many_less(counts.drop_last(), m)
    }
}

/// How many of some counts are greater than a given one.
pub open spec fn how_many_greater(counts: Seq<u64>, m: u64) -> nat
    decreases counts.len(),
{
    if counts.len() == 0 {
        0
    } else if counts.last() > m {
        how_many_greater(counts.drop_last(), m) + 1
    } else {
        how_many_greater(counts.drop_last(), m)
    }
}

proof fn lemma_counted(counts: Seq<u64>, m: u64)
    ensures
        how_many_less(counts, m) == counts.to_multiset().filter(|x: u64| x < m).len(),
        how_many_greater(counts, m) == counts.to_multiset().filter(|x: u64| x > m).len(),
    decreases counts.len(),
{
    broadcast use vstd::multiset::group_multiset_axioms;

    let less = |x: u64| x < m;
    let greater = |x: u64| x > m;
    if counts.len() == 0 {
        counts.to_multiset_ensures();
        assert(counts.to_multiset() =~= vstd::multiset::Multiset::empty());
        assert(counts.to_multiset().filter(less) =~= vstd::multiset::Multiset::empty());
        assert(counts.to_multiset().filter(greater) =~= vstd::multiset::Multiset::empty());
    } else {
        let before = counts.drop_last();
        let last = counts.last();
        lemma_counted(before, m);
        before.to_multiset_ensures();
        assert(before.push(last) =~= counts);
        assert(counts.to_multiset() =~= before.to_multiset().insert(last));
        if last < m {
            assert(counts.to_multiset().filter(less) =~= before.to_multiset().filter(less).insert(
                last,
            ));
        } else {
            assert(counts.to_multiset().filter(less) =~= before.to_multiset().filter(less));
        }
        if last > m {
            assert(counts.to_multiset().filter(greater) =~= before.to_multiset().filter(
                greater,
            ).insert(last));
        } else {
            assert(counts.to_multiset().filter(greater) =~= before.to_multiset().filter(greater));
        }
    }
}

proof fn lemma_sorted_less(sorted: Seq<u64>, m: u64, k: int)
    requires
        forall|i: int, j: int| 0 <= i < j < sorted.len() ==> sorted[i] <= sorted[j],
        0 <= k < sorted.len(),
        forall|i: int| k <= i < sorted.len() ==> sorted[i] >= m,
    ensures
        how_many_less(sorted, m) <= k,
    decreases sorted.len(),
{
    if sorted.len() == k + 1 {
        lemma_at_most_less(sorted.drop_last(), m);
    } else {
        lemma_sorted_less(sorted.drop_last(), m, k);
    }
}

proof fn lemma_at_most_less(counts: Seq<u64>, m: u64)
    ensures
        how_many_less(counts, m) <= counts.len(),
    decreases counts.len(),
{
    if counts.len() > 0 {
        lemma_at_most_less(counts.drop_last(), m);
    }
}

proof fn lemma_sorted_greater(sorted: Seq<u64>, m: u64, k: int)
    requires
        0 <= k < sorted.len(),
        forall|i: int| 0 <= i <= k ==> sorted[i] <= m,
    ensures
        how_many_greater(sorted, m) <= sorted.len() - 1 - k,
    decreases sorted.len(),
{
    if sorted.len() == k + 1 {
        lemma_none_greater(sorted, m);
    } else {
        lemma_sorted_greater(sorted.drop_last(), m, k);
    }
}

proof fn lemma_none_greater(counts: Seq<u64>, m: u64)
    requires
        forall|i: int| 0 <= i < counts.len() ==> counts[i] <= m,
    ensures
        how_many_greater(counts, m) == 0,
    decreases counts.len(),
{
    if counts.len() > 0 {
        lemma_none_greater(counts.drop_last(), m);
    }
}

/// Whether a count is the middle one of some: one of them, with at most half of them below
/// it, and above it at most what is left of the others.
pub open spec fn in_the_middle(counts: Seq<u64>, m: u64) -> bool {
    let n = counts.len() as int;
    &&& counts.contains(m)
    &&& how_many_less(counts, m) <= n / 2
    &&& how_many_greater(counts, m) <= n - 1 - n / 2
}

/// The typical count splits the baseline in the middle. There is one from three prior
/// requests on.
pub proof fn typical_count_splits_the_baseline(entries: Seq<EntryModel>, index: int)
    requires
        0 <= index < entries.len(),
    ensures
        baseline(entries, index).len() < 3 ==> typical(entries, index) is None,
        baseline(entries, index).len() >= 3 ==> (typical(entries, index) matches Some(m)
            && in_the_middle(baseline(entries, index), m)),
{
    let counts = baseline(entries, index);
    if counts.len() >= 3 {
        let le = not_greater();
        let sorted = counts.sort_by(le);
        assert(total_ordering(le));
        counts.lemma_sort_by_ensures(le);
        sorted.to_multiset_ensures();
        counts.to_multiset_ensures();
        assert(sorted.len() == counts.len());
        assert forall|i: int, j: int| 0 <= i < j < sorted.len() implies sorted[i]
            <= sorted[j] by {
            assert(le(sorted[i], sorted[j]));
        }
        let k = counts.len() as int / 2;
        let m = sorted[k];
        lemma_sorted_less(sorted, m, k);
        lemma_sorted_greater(sorted, m, k);
        lemma_counted(sorted, m);
        lemma_counted(counts, m);
        assert(sorted.contains(m));
        assert(counts.to_multiset().count(m) > 0);
    }
}

/// There is one count in the middle only.
pub proof fn middle_is_one(counts: Seq<u64>, a: u64, b: u64)
    requires
        in_the_middle(counts, a),
        in_the_middle(counts, b),
    ensures
        a == b,
{
    if a < b {
        lemma_apart(counts, a, b);
    } else if b < a {
        lemma_apart(counts, b, a);
    }
}

proof fn lemma_apart(counts: Seq<u64>, a: u64, b: u64)
    requires
        a < b,
    ensures
        how_many_less(counts, b) + how_many_greater(counts, a) >= counts.len(),
    decreases counts.len(),
{
    if counts.len() > 0 {
        lemma_apart(counts.drop_last(), a, b);
    }
}

proof fn lemma_run_ends(entries: Seq<EntryModel>, current: UsageModel, index: int)
    requires
        0 <= index <= entries.len(),
    ensures
        run_before(entries, current, index) <= index,
        run_before(entries, current, index) < index ==> !current.comparable(
            entries[index - 1 - run_before(entries, current, index)].usage,
        ),
    decreases index,
{
    if index > 0 && current.comparable(entries[index - 1].usage) {
        lemma_run_ends(entries, current, index - 1);
    }
}

/// A baseline reaches as far back as it can: to eight requests, to the oldest one, or to
/// one of another model.
pub proof fn baselines_reach_back(entries: Seq<EntryModel>, index: int)
    requires
        0 <= index < entries.len(),
    ensures
        ({
            let n = baseline(entries, index).len();
            let current = entries[index].usage;
            &&& n <= 8
            &&& n <= index
            &&& n < 8 && n < index ==> {
                let other = entries[index - 1 - n].usage;
                other.provider != current.provider || other.model != current.model
            }
            &&& forall|k: int|
                0 <= k < n ==> {
                    let other = entries[index - 1 - k].usage;
                    &&& #[trigger] baseline(entries, index)[k] == other.prompt
                    &&& other.provider == current.provider
                    &&& other.model == current.model
                }
        }),
{
    lemma_run_ends(entries, entries[index].usage, index);
    crate::laws::panel::baselines_are_like_for_like(entries, index);
}

/// A prompt is a jump exactly if the one directly before it went to the same model, was
/// not empty, and was smaller by at least 2048 tokens and a quarter of itself.
pub proof fn jumps_are_what_is_material(current: UsageModel, previous: UsageModel)
    ensures
        is_jump(current, Some(previous)) <==> {
            &&& current.provider == previous.provider
            &&& current.model == previous.model
            &&& previous.prompt > 0
            &&& current.prompt >= previous.prompt + 2048
            &&& 4 * current.prompt >= 5 * previous.prompt
        },
        !is_jump(current, None),
{
}

/// A prompt is judged by the middle count of its baseline: large from half as much again
/// and 2048 tokens more, smaller up to three quarters, typical between. A jump goes before
/// that, and without a baseline there is no judgement.
pub proof fn prompts_are_judged_by_the_middle(entries: Seq<EntryModel>, index: int, m: u64)
    requires
        0 <= index < entries.len(),
        in_the_middle(baseline(entries, index), m),
        baseline(entries, index).len() >= 3,
    ensures
        ({
            let prompt = entries[index].usage.prompt;
            let jump = index > 0 && is_jump(entries[index].usage, Some(entries[index - 1].usage));
            let large = m > 0 && 2 * prompt >= 3 * m && prompt >= m + 2048;
            let found = assessment(entries, index);
            &&& found == Assessment::Jump <==> jump
            &&& found == Assessment::Large { median: m } <==> !jump && large
            &&& found is Large ==> found == Assessment::Large { median: m }
            &&& found == Assessment::Smaller <==> !jump && m > 0 && !large && 4 * prompt <= 3 * m
            &&& found == Assessment::Typical <==> !jump && m > 0 && !large && 4 * prompt > 3 * m
            &&& found == Assessment::Baseline <==> !jump && m == 0
        }),
{
    typical_count_splits_the_baseline(entries, index);
    middle_is_one(baseline(entries, index), m, typical(entries, index)->0);
}

/// With fewer than three requests to go by, there is a jump or no judgement.
pub proof fn short_baselines_judge_nothing(entries: Seq<EntryModel>, index: int)
    requires
        0 <= index < entries.len(),
        baseline(entries, index).len() < 3,
    ensures
        assessment(entries, index) == if index > 0 && is_jump(
            entries[index].usage,
            Some(entries[index - 1].usage),
        ) {
            Assessment::Jump
        } else {
            Assessment::Baseline
        },
        insight_at(entries, index).detail == "Building a same-model baseline"@,
{
}

/// The detail of an insight tells the middle count of the baseline and how many requests it
/// is the middle of.
pub proof fn details_tell_the_middle(entries: Seq<EntryModel>, index: int, m: u64)
    requires
        0 <= index < entries.len(),
        in_the_middle(baseline(entries, index), m),
        baseline(entries, index).len() >= 3,
    ensures
        insight_at(entries, index).detail == "Recent median "@ + grouped(m as nat) + " · "@
            + decimal(baseline(entries, index).len()) + " prior requests"@,
{
    typical_count_splits_the_baseline(entries, index);
    middle_is_one(baseline(entries, index), m, typical(entries, index)->0);
}

/// Each judgement has its title, its advice and its tone.
pub proof fn judgements_are_told_apart(entries: Seq<EntryModel>, index: int)
    requires
        0 <= index < entries.len(),
    ensures
        ({
            let insight = insight_at(entries, index);
            let prompt = entries[index].usage.prompt;
            match assessment(entries, index) {
                Assessment::Jump => {
                    &&& insight.title == seq![PieceModel::Words("PROMPT JUMP · input increased"@)]
                    &&& insight.action == Advice::InspectContext
                    &&& insight.tone == Tone::Yellow
                },
                Assessment::Large { median } => {
                    &&& insight.title == seq![
                        PieceModel::Words("LARGE VS RECENT · "@),
                        PieceModel::Times { count: prompt, base: median },
                        PieceModel::Words("× median"@),
                    ]
                    &&& insight.action == Advice::InspectContext
                    &&& insight.tone == Tone::Yellow
                },
                Assessment::Smaller => {
                    &&& insight.title == seq![
                        PieceModel::Words("SMALLER INPUT · below recent median"@),
                    ]
                    &&& insight.action == Advice::ComparePrefill
                    &&& insight.tone == Tone::Cyan
                },
                Assessment::Typical => {
                    &&& insight.title == seq![
                        PieceModel::Words("TYPICAL INPUT · near recent median"@),
                    ]
                    &&& insight.action == Advice::CheckQueue
                    &&& insight.tone == Tone::Cyan
                },
                Assessment::Baseline => {
                    &&& insight.title == seq![PieceModel::Words("BASELINE SAMPLING"@)]
                    &&& insight.action == Advice::CollectMore
                    &&& insight.tone == Tone::Muted
                },
            }
        }),
{
}

/// Advice is told in the words of its own, in full and in short.
pub proof fn advice_is_told_in_its_words()
    ensures
        Advice::InspectContext.words() == "Inspect added context or large tool results."@,
        Advice::CheckReuse.words() == "For repeating prompts, check prefix reuse."@,
        Advice::ComparePrefill.words() == "Less input; check prefill time for impact."@,
        Advice::CheckQueue.words() == "If slow, inspect prefill, queue and GPU."@,
        Advice::CollectMore.words() == "Compare more requests before judging size."@,
        Advice::InspectContext.short_words() == "Inspect context/tool results."@,
        Advice::CheckReuse.short_words() == "Repeating input? Check reuse."@,
        Advice::ComparePrefill.short_words() == "Compare prefill time."@,
        Advice::CheckQueue.short_words() == "Check prefill, queue and GPU."@,
        Advice::CollectMore.short_words() == "Collect more requests."@,
{
}

/// A request differs from the one before it by what their prompts differ by, in the
/// direction in which they do; equal prompts are a growth by nothing.
pub proof fn changes_are_differences(current: UsageModel, previous: UsageModel)
    requires
        current.provider == previous.provider,
        current.model == previous.model,
    ensures
        change_from(current, Some(previous)) is Grown <==> current.prompt >= previous.prompt,
        change_from(current, Some(previous)) is Shrunk <==> current.prompt < previous.prompt,
        change_from(current, Some(previous)) matches Change::Grown { previous: base, amount }
            ==> base == previous.prompt && base + amount == current.prompt,
        change_from(current, Some(previous)) matches Change::Shrunk { previous: base, amount }
            ==> base == previous.prompt && base - amount == current.prompt,
{
}

/// A comparison tells the previous count, the change with its sign, and the share of the
/// change in the previous count, unless that was nothing.
pub proof fn comparisons_tell_the_change(previous: u64, amount: u64)
    ensures
        ({
            let lead = "PREVIOUS OBSERVED "@ + grouped(previous as nat) + " · CHANGE "@;
            let more = lead + "+"@ + grouped(amount as nat);
            let less = lead + "−"@ + grouped(amount as nat);
            let share = PieceModel::Percent { part: amount, whole: previous };
            &&& comparison_line(Change::Grown { previous, amount }) == if previous > 0 {
                seq![
                    PieceModel::Words(more + " ("@ + "+"@),
                    share,
                    PieceModel::Words("%)"@),
                ]
            } else {
                seq![PieceModel::Words(more)]
            }
            &&& comparison_line(Change::Shrunk { previous, amount }) == if previous > 0 {
                seq![
                    PieceModel::Words(less + " ("@ + "−"@),
                    share,
                    PieceModel::Words("%)"@),
                ]
            } else {
                seq![PieceModel::Words(less)]
            }
        }),
        comparison_line(Change::Awaiting) == seq![
            PieceModel::Words("PREVIOUS OBSERVED — awaiting another request"@),
        ],
        comparison_line(Change::Different) == seq![
            PieceModel::Words("PREVIOUS OBSERVED — different provider/model; no comparison"@),
        ],
{
}

/// The chart reaches to 65536 tokens, and shows smaller prompts as they are.
pub proof fn charts_end_at_their_ceiling(prompt: u64)
    ensures
        prompt <= 65_536 ==> charted(prompt) == prompt,
        prompt > 65_536 ==> charted(prompt) == 65_536,
{
}

/// A request is live exactly if a live sample that is not stale and not older than five
/// seconds lists it, it was itself seen in the last five seconds, and it has not completed.
pub proof fn live_requests_are_listed_now(entry: EntryModel, sample: SampleModel, now: Timestamp)
    ensures
        live_at(entry, sample, now) <==> {
            &&& sample.llm_source == TelemetrySource::Live
            &&& sample.llm_status != "stale"@
            &&& !entry.usage.completed
            &&& entry.last_seen.nanos <= now.nanos <= entry.last_seen.nanos + 5_000_000_000
            &&& sample.llm_observed_at matches Some(at) && at.nanos <= now.nanos <= at.nanos
                + 5_000_000_000
            &&& exists|i: int|
                0 <= i < sample.llm_requests.len() && {
                    let listed = #[trigger] sample.llm_requests[i];
                    &&& listed.id == entry.usage.id
                    &&& listed.provider == entry.usage.provider
                    &&& listed.model == entry.usage.model
                }
        },
{
    assert forall|i: int| 0 <= i < sample.llm_requests.len() implies (entry.usage.same(
        #[trigger] sample.llm_requests[i],
    ) <==> sample.llm_requests[i].id == entry.usage.id && sample.llm_requests[i].provider
        == entry.usage.provider && sample.llm_requests[i].model == entry.usage.model) by {}
}

/// A request that is not in the history is added to its end, with the next number, its own
/// counts, and the time of its observation or else the present; the others stay as they
/// are, but the oldest leaves where there would be more than 240.
pub proof fn new_requests_are_added_last(
    history: HistoryModel,
    usage: UsageModel,
    now: Timestamp,
    i: int,
)
    requires
        forall|k: int|
            0 <= k < history.entries.len() ==> {
                let known = (#[trigger] history.entries[k]).usage;
                known.id != usage.id || known.provider != usage.provider || known.model
                    != usage.model
            },
    ensures
        ({
            let after = history.after_one(usage, now);
            let n = after.entries.len();
            &&& n == if history.entries.len() < 240 {
                history.entries.len() + 1
            } else {
                240
            }
            &&& after.entries.last().usage == usage
            &&& after.entries.last().number == after.next_number
            &&& history.next_number < u64::MAX ==> after.next_number == history.next_number + 1
            &&& history.next_number == u64::MAX ==> after.next_number == u64::MAX
            &&& usage.observed_at matches Some(at) ==> after.entries.last().last_seen == at
            &&& usage.observed_at is None ==> after.entries.last().last_seen == now
            &&& 0 <= i < n - 1 ==> after.entries[i] == history.entries[i + history.entries.len()
                + 1 - n]
        }),
{
    let wanted = crate::request_dashboard::entry_of(usage);
    assert forall|k: int| 0 <= k < history.entries.len() implies !wanted(
        #[trigger] history.entries[k],
    ) by {}
    crate::recent::lemma_is_first(history.entries, wanted, history.entries.len() as int);
}

/// A request that is in the history keeps its place and its number, and takes its new
/// counts as they are; its age is that of the new observation, or else the one it had. No
/// other entry changes.
pub proof fn known_requests_are_renewed(
    history: HistoryModel,
    usage: UsageModel,
    now: Timestamp,
    place: int,
)
    requires
        0 <= place < history.entries.len(),
        history.entries[place].usage.id == usage.id,
        history.entries[place].usage.provider == usage.provider,
        history.entries[place].usage.model == usage.model,
        forall|k: int|
            0 <= k < place ==> {
                let known = (#[trigger] history.entries[k]).usage;
                known.id != usage.id || known.provider != usage.provider || known.model
                    != usage.model
            },
    ensures
        history.after_one(usage, now) == (HistoryModel {
            entries: history.entries.update(
                place,
                EntryModel {
                    number: history.entries[place].number,
                    usage,
                    last_seen: match usage.observed_at {
                        Some(at) => at,
                        None => history.entries[place].last_seen,
                    },
                },
            ),
            next_number: history.next_number,
        }),
{
    let wanted = crate::request_dashboard::entry_of(usage);
    assert forall|k: int| 0 <= k < place implies !wanted(#[trigger] history.entries[k]) by {}
    crate::recent::lemma_is_first(history.entries, wanted, place);
}

/// What is observed at once is taken in one by one, in its order.
pub proof fn observations_are_taken_in_order(
    history: HistoryModel,
    requests: Seq<UsageModel>,
    usage: UsageModel,
    now: Timestamp,
)
    ensures
        history.after(Seq::empty(), now) == history,
        history.after(requests.push(usage), now) == history.after(requests, now).after_one(
            usage,
            now,
        ),
{
    assert(requests.push(usage).drop_last() =~= requests);
}

} // verus!
