//! What the history says of a request, and the panel that shows it.
use crate::canvas::{Ink, Rect};
use crate::laws::text::grouped_numbers_differ;
use crate::phrase::{plain, PieceModel};
use crate::prompt_panel::{
    bar_at, bar_blocks, bar_cached, bar_room, bar_total, cache_ink, cache_line, first_bar,
    headline_line, lemma_total, little_reuse, panel_at, row_part, selection, state_words, tag_mark,
    BAR_LIMIT, BAR_STEP, REUSE_FLOOR,
};
use crate::providers::{plausible_cache, UsageModel};
use crate::request_dashboard::{
    assessment, baseline, change_from, insight_at, is_jump, live_at, not_greater,
    run_before, typical,
    usage_before, Advice, Assessment, Change, EntryModel, Tone, BASELINE_LIMIT, TREND_CEILING,
};
use crate::reuse::{lemma_exact, EXACT, FIFTH_STEPS, FOUR_FIFTHS_STEPS, MIDDLE};
use crate::sample::SampleModel;
use crate::telemetry::TelemetrySource;
use crate::text::{decimal, grouped};
use crate::time::{Timestamp, FRESH};
use vstd::prelude::*;

verus! {

/// A request is live only on fresh evidence: a live sample that is at most five seconds
/// old lists it, it was seen as lately, and it was not reported as completed.
pub proof fn live_needs_fresh_evidence(entry: EntryModel, sample: SampleModel, now: Timestamp)
    requires
        live_at(entry, sample, now),
    ensures
        sample.llm_source == TelemetrySource::Live,
        !entry.usage.completed,
        0 <= now.nanos - entry.last_seen.nanos <= FRESH,
        sample.llm_observed_at matches Some(at) && 0 <= now.nanos - at.nanos <= FRESH,
        exists|i: int|
            0 <= i < sample.llm_requests.len() && entry.usage.same(
                #[trigger] sample.llm_requests[i],
            ),
{
}

/// A request that the sample does not list is not live, nor is any once the evidence is
/// more than five seconds old.
pub proof fn nothing_stays_live(
    entry: EntryModel,
    sample: SampleModel,
    now: Timestamp,
    later: Timestamp,
)
    requires
        live_at(entry, sample, now),
        later.nanos > now.nanos + FRESH,
    ensures
        !live_at(entry, sample, later),
        !live_at(entry, SampleModel { llm_requests: Seq::empty(), ..sample }, now),
{
}

/// A request that was reported as completed is never live, whatever a sample says.
pub proof fn completed_requests_are_never_live(
    entry: EntryModel,
    sample: SampleModel,
    now: Timestamp,
)
    requires
        entry.usage.completed,
    ensures
        !live_at(entry, sample, now),
{
}

/// A jump is between two comparable requests, by at least 2048 tokens and a quarter of a
/// prompt that was not empty; it is never a fall.
pub proof fn jumps_are_material(current: UsageModel, previous: UsageModel)
    requires
        is_jump(current, Some(previous)),
    ensures
        current.comparable(previous),
        current.prompt >= previous.prompt + 2048,
        4 * (current.prompt - previous.prompt) >= previous.prompt,
        previous.prompt > 0,
        change_from(current, Some(previous)) is Grown,
{
}

/// A comparison is made only between requests to the same model of the same provider.
pub proof fn comparisons_are_like_for_like(current: UsageModel, previous: Option<UsageModel>)
    ensures
        change_from(current, previous) == Change::Awaiting <==> previous is None,
        change_from(current, previous) == Change::Different <==> (previous matches Some(old)
            && !current.comparable(old)),
        change_from(current, previous) matches Change::Grown { previous: count, amount } ==> count
            + amount == current.prompt && Some(count) == (match previous {
            Some(old) => Some(old.prompt),
            None => None,
        }),
        change_from(current, previous) matches Change::Shrunk { previous: count, amount } ==> count
            - amount == current.prompt && amount > 0,
{
}

proof fn lemma_run(entries: Seq<EntryModel>, current: UsageModel, index: int)
    ensures
        0 <= run_before(entries, current, index),
        index >= 0 ==> run_before(entries, current, index) <= index,
        forall|k: int|
            0 <= k < run_before(entries, current, index) ==> current.comparable(
                (#[trigger] entries[index - 1 - k]).usage,
            ),
    decreases index,
{
    if index > 0 && current.comparable(entries[index - 1].usage) {
        lemma_run(entries, current, index - 1);
        assert forall|k: int| 0 <= k < run_before(entries, current, index) implies
            current.comparable((#[trigger] entries[index - 1 - k]).usage) by {
            if k > 0 {
                assert(entries[index - 1 - k] == entries[(index - 1) - 1 - (k - 1)]);
            }
        }
    }
}

/// A baseline is made of the latest requests to the same model of the same provider,
/// and of no more than its limit.
pub proof fn baselines_are_like_for_like(entries: Seq<EntryModel>, index: int)
    requires
        0 <= index < entries.len(),
    ensures
        baseline(entries, index).len() <= BASELINE_LIMIT,
        baseline(entries, index).len() <= index,
        forall|k: int|
            0 <= k < baseline(entries, index).len() ==> entries[index].usage.comparable(
                entries[index - 1 - k].usage,
            ) && #[trigger] baseline(entries, index)[k] == entries[index - 1 - k].usage.prompt,
{
    lemma_run(entries, entries[index].usage, index);
}

/// What counts as typical is one of the prompt counts that the baseline holds.
pub proof fn typical_count_was_observed(entries: Seq<EntryModel>, index: int)
    requires
        0 <= index < entries.len(),
    ensures
        typical(entries, index) is Some <==> baseline(entries, index).len() >= 3,
        typical(entries, index) matches Some(count) ==> baseline(entries, index).contains(count),
{
    let counts = baseline(entries, index);
    if counts.len() >= 3 {
        let sorted = counts.sort_by(not_greater());
        counts.lemma_sort_by_ensures(not_greater());
        let median = sorted[counts.len() as int / 2];
        assert(sorted.len() == counts.len()) by {
            sorted.to_multiset_ensures();
            counts.to_multiset_ensures();
        }
        assert(sorted.contains(median));
        sorted.to_multiset_ensures();
        counts.to_multiset_ensures();
        assert(counts.to_multiset().count(median) > 0);
    }
}

/// What the history shows of a request depends on its own prompt count and on those of its
/// baseline, the run of up to eight requests to the same model directly before it, and on
/// nothing else: not on identifiers, times, cached or output counts, numbers, requests to
/// other models, or what lies further back.
pub proof fn insights_depend_on_the_run(
    a: Seq<EntryModel>,
    i: int,
    b: Seq<EntryModel>,
    j: int,
)
    requires
        0 <= i < a.len(),
        0 <= j < b.len(),
        a[i].usage.prompt == b[j].usage.prompt,
        baseline(a, i) == baseline(b, j),
    ensures
        assessment(a, i) == assessment(b, j),
        insight_at(a, i) == insight_at(b, j),
{
    let x = baseline(a, i);
    let y = baseline(b, j);
    lemma_run(a, a[i].usage, i);
    lemma_run(b, b[j].usage, j);
    if x.len() > 0 {
        assert(x[0] == a[i - 1].usage.prompt);
        assert(y[0] == b[j - 1].usage.prompt);
    }
    assert(is_jump(a[i].usage, usage_before(a, i)) == is_jump(b[j].usage, usage_before(b, j)));
}

/// With fewer than three comparable requests before it, a prompt is not judged, unless
/// it is a jump from the one directly before it.
pub proof fn judgement_needs_evidence(entries: Seq<EntryModel>, index: int)
    requires
        0 <= index < entries.len(),
        run_before(entries, entries[index].usage, index) < 3,
        !is_jump(entries[index].usage, usage_before(entries, index)),
    ensures
        assessment(entries, index) == Assessment::Baseline,
        insight_at(entries, index).title == plain("BASELINE SAMPLING"@),
        insight_at(entries, index).detail == "Building a same-model baseline"@,
        insight_at(entries, index).tone == Tone::Muted,
{
}

/// After a request to another model or provider, the baseline begins anew.
pub proof fn another_model_is_not_judged(entries: Seq<EntryModel>, index: int)
    requires
        0 < index < entries.len(),
        !entries[index].usage.comparable(entries[index - 1].usage),
    ensures
        baseline(entries, index).len() == 0,
        assessment(entries, index) == Assessment::Baseline,
        insight_at(entries, index).title == plain("BASELINE SAMPLING"@),
{
}

/// Only a jump or a large prompt is emphasized as worth a look, and both are larger than
/// what they are measured against by at least 2048 tokens.
pub proof fn emphasis_has_a_reason(entries: Seq<EntryModel>, index: int)
    requires
        0 <= index < entries.len(),
        insight_at(entries, index).tone == Tone::Yellow,
    ensures
        is_jump(entries[index].usage, usage_before(entries, index)) || (typical(
            entries,
            index,
        ) matches Some(median) && median > 0 && entries[index].usage.prompt >= median + 2048
            && entries[index].usage.prompt * 2 >= median * 3),
        insight_at(entries, index).action == Advice::InspectContext,
{
}

/// A bar and its cached segment stay within the chart, and the segment within the bar; a
/// prompt from the ceiling on fills the chart.
pub proof fn bars_stay_in_the_chart(usage: UsageModel, height: nat)
    ensures
        bar_total(usage, height) <= height * 8,
        bar_cached(usage, bar_total(usage, height)) <= bar_total(usage, height),
        usage.prompt >= TREND_CEILING ==> bar_total(usage, height) == height * 8,
{
    lemma_total(usage, height);
}

/// The scale of the bars is fixed: a larger prompt of the same kind never has a lower
/// bar, and what other requests are like does not matter.
pub proof fn bar_height_is_monotone(a: UsageModel, b: UsageModel, height: nat)
    requires
        a.prompt <= b.prompt,
        plausible_cache(a.cached, a.prompt) is Some == plausible_cache(b.cached, b.prompt) is Some,
    ensures
        bar_total(a, height) <= bar_total(b, height),
{
    let low: nat = if a.prompt <= TREND_CEILING {
        a.prompt as nat
    } else {
        TREND_CEILING as nat
    };
    let high: nat = if b.prompt <= TREND_CEILING {
        b.prompt as nat
    } else {
        TREND_CEILING as nat
    };
    assert(low * height <= high * height) by (nonlinear_arith)
        requires
            low <= high,
    ;
}

/// A bar whose cached part is unknown is not split: all of it has the bar's own color.
pub proof fn unknown_cache_stays_unsplit(usage: UsageModel, plot: Rect, ink: Ink)
    requires
        plausible_cache(usage.cached, usage.prompt) is None,
    ensures
        forall|k: int|
            0 <= k < bar_blocks(usage, plot, ink).len() ==> (#[trigger] bar_blocks(
                usage,
                plot,
                ink,
            )[k]).ink == ink && bar_blocks(usage, plot, ink)[k].ground == Ink::Panel,
{
    let height: nat = if plot.height >= 2 {
        (plot.height - 2) as nat
    } else {
        0
    };
    let total = bar_total(usage, height);
    let blocks = bar_blocks(usage, plot, ink);
    assert forall|k: int| 0 <= k < blocks.len() implies (#[trigger] blocks[k]).ink == ink
        && blocks[k].ground == Ink::Panel by {
        assert(row_part(total, k as nat) > 0);
        assert(row_part(0, k as nat) == 0);
    }
}

/// A bar of a prompt that was cached as a whole is green as a whole.
pub proof fn full_reuse_is_all_green(usage: UsageModel, plot: Rect, ink: Ink)
    requires
        usage.cached == Some(usage.prompt),
    ensures
        forall|k: int|
            0 <= k < bar_blocks(usage, plot, ink).len() ==> (#[trigger] bar_blocks(
                usage,
                plot,
                ink,
            )[k]).ink == Ink::Green && bar_blocks(usage, plot, ink)[k].ground == Ink::Panel,
{
    let height: nat = if plot.height >= 2 {
        (plot.height - 2) as nat
    } else {
        0
    };
    let total = bar_total(usage, height);
    let p = usage.prompt as nat;
    if p > 0 {
        assert(p * total / p == total) by {
            vstd::arithmetic::div_mod::lemma_div_multiples_vanish(total as int, p as int);
            assert(p * total == total * p) by (nonlinear_arith);
        }
    } else {
        assert(0 * height == 0) by (nonlinear_arith);
        assert(total == 0);
    }
}

/// The newest request is selected until the operator scrolls back, and scrolling stops
/// at the oldest.
pub proof fn selection_stays_in_the_history(count: nat, scroll: nat)
    requires
        count > 0,
    ensures
        0 <= selection(count, scroll) < count,
        selection(count, 0) == count - 1,
        scroll >= count - 1 ==> selection(count, scroll) == 0,
{
}

/// The selected request always has a bar, and there are no more bars than there is room
/// for.
pub proof fn selected_bar_is_shown(index: int, width: u16)
    requires
        index >= 0,
    ensures
        0 <= first_bar(index, width) <= index,
        index + 1 - first_bar(index, width) <= bar_room(width),
        1 <= bar_room(width) <= BAR_LIMIT,
        width > BAR_STEP ==> bar_room(width) * BAR_STEP < width,
{
}

/// An unknown cached part is not shown as zero, and never as good or poor reuse.
pub proof fn unknown_cache_is_not_zero(usage: UsageModel)
    requires
        plausible_cache(usage.cached, usage.prompt) is None,
    ensures
        cache_line(usage) == plain("CACHE — not reported"@),
        cache_ink(usage) == Ink::Muted,
        !little_reuse(usage),
{
}

/// Good and poor reuse are told by the counts: at least four fifths, or less than one
/// fifth of a large prompt. Counts that are no doubles themselves are left out; they are
/// judged by the doubles nearest to them.
pub proof fn reuse_is_judged_by_counts(usage: UsageModel)
    requires
        usage.cached matches Some(cached) && cached <= usage.prompt,
        usage.prompt < EXACT,
    ensures
        cache_ink(usage) == Ink::Green <==> usage.prompt > 0 && 5 * usage.cached->0 >= 4
            * usage.prompt,
        little_reuse(usage) <==> usage.prompt >= REUSE_FLOOR && 5 * usage.cached->0 < usage.prompt,
        cache_ink(usage) == Ink::Yellow <==> little_reuse(usage),
{
    let c = usage.cached->0;
    let p = usage.prompt;
    lemma_exact(c as nat);
    lemma_exact(p as nat);
    assert(5 * MIDDLE == FIFTH_STEPS - 1);
    assert(4 * FOUR_FIFTHS_STEPS == FIFTH_STEPS);
}

/// What is not live is marked as history: in the headline's color, in the title, and by
/// muted advice.
pub proof fn history_is_marked_as_such(
    entries: Seq<EntryModel>,
    sample: SampleModel,
    now: Timestamp,
    plot: Rect,
    side: u16,
    index: int,
)
    requires
        0 <= index < entries.len(),
        !live_at(entries[index], sample, now),
    ensures
        ({
            let panel = panel_at(entries, sample, now, plot, side, index);
            &&& panel.headline_ink == Ink::Blue
            &&& panel.action_ink == Ink::Muted
            &&& panel.title.len() > 0
            &&& panel.title[0] == PieceModel::Words("HISTORY · "@)
        }),
{
}

/// A prompt beyond the chart is marked as such on its bar, which else gives its count.
pub proof fn overflow_is_marked_on_the_bar(
    entries: Seq<EntryModel>,
    sample: SampleModel,
    now: Timestamp,
    plot: Rect,
    index: int,
    i: int,
)
    requires
        0 <= i < entries.len(),
    ensures
        bar_at(entries, sample, now, plot, index, i).value.text == if entries[i].usage.prompt
            > TREND_CEILING {
            PieceModel::Words("↑"@)
        } else {
            PieceModel::Tokens(entries[i].usage.prompt)
        },
{
}

/// The headline tells two requests with different prompt counts apart, also beyond the
/// chart: it gives the exact count, and the age of its own request.
pub proof fn headline_gives_the_exact_count(a: EntryModel, b: EntryModel, live: bool)
    requires
        a.number == b.number,
        headline_line(a, live) == headline_line(b, live),
        state_words(a, live) == state_words(b, live),
    ensures
        a.usage.prompt == b.usage.prompt,
        a.last_seen == b.last_seen,
{
    let x = headline_line(a, live);
    let y = headline_line(b, live);
    assert(x[0] == y[0]);
    assert(x[1] == y[1]);
    let head = "#"@ + decimal(a.number as nat) + " · "@;
    let tail = " tokens · "@ + state_words(a, live) + " · "@;
    let m = grouped(a.usage.prompt as nat);
    let n = grouped(b.usage.prompt as nat);
    let s = x[0]->Words_0;
    let t = y[0]->Words_0;
    assert(s =~= head + m + tail);
    assert(t =~= head + n + tail);
    assert(s.subrange(head.len() as int, (head.len() + m.len()) as int) =~= m);
    assert(t.subrange(head.len() as int, (head.len() + n.len()) as int) =~= n);
    grouped_numbers_differ(a.usage.prompt as nat, b.usage.prompt as nat);
}

/// A jump is marked on its bar by color and by sign.
pub proof fn jumps_are_marked(
    entries: Seq<EntryModel>,
    sample: SampleModel,
    now: Timestamp,
    plot: Rect,
    index: int,
    i: int,
)
    requires
        0 <= i < entries.len(),
    ensures
        (bar_at(entries, sample, now, plot, index, i).value.ink == Ink::Yellow) <==> is_jump(
            entries[i].usage,
            usage_before(entries, i),
        ),
        bar_at(entries, sample, now, plot, index, i).tag matches Some(tag) ==> {
            &&& tag.ink == Ink::Yellow <==> is_jump(entries[i].usage, usage_before(entries, i))
            &&& tag.text == PieceModel::Words(
                tag_mark(i == index, is_jump(entries[i].usage, usage_before(entries, i)))
                    + decimal(entries[i].number as nat),
            )
        },
{
}

} // verus!
