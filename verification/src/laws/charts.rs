//! The charts of queue, memory and latency, and the samples behind them.
use crate::canvas::{Ink, Rect};
use crate::operator_charts::{
    active_series, broken, column_sample, div_up, fresh_sample, latency_known, latency_rows,
    level, level_row, point_of, provider_breaks, queue_cell, row_before, timing_of,
    timings_after, timings_after_one, trace_at, trace_mark, waiting_series, ChartModel,
    PointModel, TimingModel, LATENCY_CEILING, QUEUE_CEILING, TIMINGS_LIMIT,
};
use crate::providers::UsageModel;
use crate::recent::{first_where, lemma_first_where, newest};
use crate::sample::SampleModel;
use crate::telemetry::TelemetrySource;
use crate::time::{Timestamp, FRESH};
use vstd::prelude::*;

verus! {

/// No request has two timings.
pub open spec fn one_timing_each(timings: Seq<TimingModel>) -> bool {
    forall|i: int, j: int|
        0 <= i < j < timings.len() ==> (#[trigger] timings[i]).0 != (#[trigger] timings[j]).0
}

/// No latency is known.
pub open spec fn no_latency(timings: Seq<TimingModel>) -> bool {
    forall|i: int| 0 <= i < timings.len() ==> (#[trigger] timings[i]).1 is None
}

/// After a sample the charts hold at most as many points as asked for, and at most as
/// many timings as their limit.
pub proof fn chart_history_is_bounded(
    history: ChartModel,
    sample: SampleModel,
    limit: nat,
    now: Timestamp,
)
    ensures
        history.after(sample, limit, now).points.len() <= limit,
        history.after(sample, limit, now).timings.len() <= TIMINGS_LIMIT,
{
}

/// The newest point is that of the sample, wherever any point is kept.
pub proof fn newest_point_is_the_sample(
    history: ChartModel,
    sample: SampleModel,
    limit: nat,
    now: Timestamp,
)
    requires
        limit > 0,
    ensures
        history.after(sample, limit, now).points.len() > 0,
        history.after(sample, limit, now).points.last() == point_of(sample, now),
{
}

/// Queue counts are missing, not zero, unless they are a fresh live reading: neither a
/// stale reading nor a reported one leaves a count.
pub proof fn only_fresh_live_counts_are_shown(sample: SampleModel, now: Timestamp)
    ensures
        sample.llm_source != TelemetrySource::Live || sample.llm_status == "stale"@
            || sample.llm_observed_at is None || (sample.llm_observed_at matches Some(at)
            && now.nanos - at.nanos > FRESH) ==> point_of(sample, now).active is None && point_of(
            sample,
            now,
        ).waiting is None,
        fresh_sample(sample, now) ==> point_of(sample, now).active == sample.llm_active_requests
            && point_of(sample, now).waiting == sample.llm_waiting_requests,
{
}

proof fn one_more_timing_each(timings: Seq<TimingModel>, request: UsageModel, now: Timestamp)
    requires
        one_timing_each(timings),
    ensures
        one_timing_each(timings_after_one(timings, request, now)),
{
    lemma_first_where(timings, timing_of(request.key()));
    let after = timings_after_one(timings, request, now);
    assert forall|i: int, j: int| 0 <= i < j < after.len() implies (#[trigger] after[i]).0 != (
    #[trigger] after[j]).0 by {
        if j < timings.len() {
            assert(timings[i].0 != timings[j].0);
        } else {
            assert(!timing_of(request.key())(timings[i]));
        }
    }
}

proof fn timings_after_are_one_each(
    timings: Seq<TimingModel>,
    requests: Seq<UsageModel>,
    now: Timestamp,
)
    requires
        one_timing_each(timings),
    ensures
        one_timing_each(timings_after(timings, requests, now)),
    decreases requests.len(),
{
    if requests.len() > 0 {
        timings_after_are_one_each(timings, requests.drop_last(), now);
        one_more_timing_each(
            timings_after(timings, requests.drop_last(), now),
            requests.last(),
            now,
        );
    }
}

/// Polling a request again adds no second column for it.
pub proof fn requests_have_one_timing_each(
    history: ChartModel,
    sample: SampleModel,
    limit: nat,
    now: Timestamp,
)
    requires
        one_timing_each(history.timings),
    ensures
        one_timing_each(history.after(sample, limit, now).timings),
{
    timings_after_are_one_each(history.timings, sample.llm_requests, now);
    let all = timings_after(history.timings, sample.llm_requests, now);
    let kept = newest(all, TIMINGS_LIMIT as nat);
    let dropped = all.len() - kept.len();
    assert forall|i: int, j: int| 0 <= i < j < kept.len() implies (#[trigger] kept[i]).0 != (
    #[trigger] kept[j]).0 by {
        assert(all[dropped + i].0 != all[dropped + j].0);
    }
}

proof fn timings_after_have_no_latency(
    timings: Seq<TimingModel>,
    requests: Seq<UsageModel>,
    now: Timestamp,
)
    requires
        no_latency(timings),
        forall|i: int| 0 <= i < requests.len() ==> (#[trigger] requests[i]).ttft_ms is None,
    ensures
        no_latency(timings_after(timings, requests, now)),
    decreases requests.len(),
{
    if requests.len() > 0 {
        let earlier = requests.drop_last();
        assert forall|i: int| 0 <= i < earlier.len() implies (
        #[trigger] earlier[i]).ttft_ms is None by {
            assert(requests[i].ttft_ms is None);
        }
        timings_after_have_no_latency(timings, earlier, now);
        assert(requests[requests.len() - 1].ttft_ms is None);
    }
}

/// A latency shows only where one was measured: samples whose requests tell none leave
/// none.
pub proof fn latency_is_never_inferred(
    history: ChartModel,
    sample: SampleModel,
    limit: nat,
    now: Timestamp,
)
    requires
        no_latency(history.timings),
        forall|i: int|
            0 <= i < sample.llm_requests.len() ==> (
            #[trigger] sample.llm_requests[i]).ttft_ms is None,
    ensures
        no_latency(history.after(sample, limit, now).timings),
{
    timings_after_have_no_latency(history.timings, sample.llm_requests, now);
}

/// A latency that is known is not lost by an observation without one, nor does its age
/// change.
pub proof fn known_latency_stays(
    timings: Seq<TimingModel>,
    request: UsageModel,
    now: Timestamp,
)
    requires
        request.ttft_ms is None,
    ensures
        timings_after_one(timings, request, now).take(timings.len() as int) == timings,
{
    assert(timings_after_one(timings, request, now).take(timings.len() as int) =~= timings);
}

/// One call of the charts: a sample, how many points to keep, and the time.
pub type Observation = (SampleModel, nat, Timestamp);

/// The charts after some calls, from the start on.
pub open spec fn after_all(calls: Seq<Observation>) -> ChartModel
    decreases calls.len(),
{
    if calls.len() == 0 {
        ChartModel { points: Seq::empty(), timings: Seq::empty() }
    } else {
        after_all(calls.drop_last()).after(calls.last().0, calls.last().1, calls.last().2)
    }
}

/// Whether some observed request ever told its time to the first token.
pub open spec fn ever_measured(calls: Seq<Observation>) -> bool {
    exists|i: int|
        0 <= i < calls.len() && some_measured((#[trigger] calls[i]).0.llm_requests)
}

/// Whether one of some requests tells its time to the first token.
pub open spec fn some_measured(requests: Seq<UsageModel>) -> bool {
    exists|i: int| 0 <= i < requests.len() && (#[trigger] requests[i]).ttft_ms is Some
}

/// Whether all requests that were ever observed have their keys among some.
pub open spec fn identities(calls: Seq<Observation>, keys: Set<Seq<char>>) -> bool {
    forall|i: int| 0 <= i < calls.len() ==> keyed((#[trigger] calls[i]).0.llm_requests, keys)
}

/// Whether some requests have their keys among some.
pub open spec fn keyed(requests: Seq<UsageModel>, keys: Set<Seq<char>>) -> bool {
    forall|i: int| 0 <= i < requests.len() ==> keys.contains((#[trigger] requests[i]).key())
}

spec fn timings_keyed(timings: Seq<TimingModel>, keys: Set<Seq<char>>) -> bool {
    forall|i: int| 0 <= i < timings.len() ==> keys.contains((#[trigger] timings[i]).0)
}

proof fn lemma_few_timings(timings: Seq<TimingModel>, keys: Set<Seq<char>>)
    requires
        one_timing_each(timings),
        timings_keyed(timings, keys),
        keys.finite(),
    ensures
        timings.len() <= keys.len(),
{
    let names = Seq::new(timings.len(), |i: int| timings[i].0);
    assert forall|i: int, j: int| 0 <= i < names.len() && 0 <= j < names.len() && i != j implies
        names[i] != names[j] by {
        if i < j {
            assert(timings[i].0 != timings[j].0);
        } else {
            assert(timings[j].0 != timings[i].0);
        }
    }
    names.unique_seq_to_set();
    assert(names.to_set().subset_of(keys)) by {
        assert forall|name: Seq<char>| names.to_set().contains(name) implies keys.contains(
            name,
        ) by {
            let i = choose|i: int| 0 <= i < names.len() && names[i] == name;
            assert(keys.contains(timings[i].0));
        }
    }
    vstd::set_lib::lemma_len_subset(names.to_set(), keys);
}

proof fn lemma_latency_step(
    timings: Seq<TimingModel>,
    requests: Seq<UsageModel>,
    keys: Set<Seq<char>>,
    now: Timestamp,
)
    requires
        one_timing_each(timings),
        timings_keyed(timings, keys),
        keyed(requests, keys),
    ensures
        one_timing_each(timings_after(timings, requests, now)),
        timings_keyed(timings_after(timings, requests, now), keys),
        !no_latency(timings_after(timings, requests, now)) <==> !no_latency(timings)
            || some_measured(requests),
    decreases requests.len(),
{
    timings_after_are_one_each(timings, requests, now);
    if requests.len() > 0 {
        let earlier = requests.drop_last();
        let request = requests.last();
        assert(requests[requests.len() - 1] == request);
        assert forall|i: int| 0 <= i < earlier.len() implies keys.contains(
            (#[trigger] earlier[i]).key(),
        ) by {
            assert(earlier[i] == requests[i]);
        }
        lemma_latency_step(timings, earlier, keys, now);
        let before = timings_after(timings, earlier, now);
        let after = timings_after(timings, requests, now);
        lemma_first_where(before, timing_of(request.key()));
        let place = first_where(before, timing_of(request.key())) as int;
        assert(keys.contains(request.key()));
        assert forall|i: int| 0 <= i < after.len() implies keys.contains(
            (#[trigger] after[i]).0,
        ) by {
            if i < before.len() {
                assert(keys.contains(before[i].0));
            }
        }
        // A latency that was known stays known.
        if !no_latency(before) {
            let i = choose|i: int| 0 <= i < before.len() && (#[trigger] before[i]).1 is Some;
            assert(after[i].1 is Some);
        }
        if request.ttft_ms is Some {
            assert(after[place].1 is Some);
        }
        if !no_latency(after) {
            let i = choose|i: int| 0 <= i < after.len() && (#[trigger] after[i]).1 is Some;
            if request.ttft_ms is None {
                assert(i < before.len() && after[i] == before[i]);
            }
        }
        if some_measured(requests) {
            let i = choose|i: int|
                0 <= i < requests.len() && (#[trigger] requests[i]).ttft_ms is Some;
            if i < earlier.len() {
                assert(earlier[i].ttft_ms is Some);
            }
        }
        if some_measured(earlier) {
            let i = choose|i: int|
                0 <= i < earlier.len() && (#[trigger] earlier[i]).ttft_ms is Some;
            assert(requests[i].ttft_ms is Some);
        }
    }
}

proof fn lemma_latency(calls: Seq<Observation>, keys: Set<Seq<char>>)
    requires
        identities(calls, keys),
        keys.finite(),
        keys.len() <= TIMINGS_LIMIT,
    ensures
        one_timing_each(after_all(calls).timings),
        timings_keyed(after_all(calls).timings, keys),
        !no_latency(after_all(calls).timings) <==> ever_measured(calls),
    decreases calls.len(),
{
    if calls.len() > 0 {
        let earlier = calls.drop_last();
        let call = calls.last();
        assert(calls[calls.len() - 1] == call);
        assert forall|i: int| 0 <= i < earlier.len() implies keyed(
            (#[trigger] earlier[i]).0.llm_requests,
            keys,
        ) by {
            assert(earlier[i] == calls[i]);
        }
        lemma_latency(earlier, keys);
        let before = after_all(earlier).timings;
        lemma_latency_step(before, call.0.llm_requests, keys, call.2);
        lemma_few_timings(timings_after(before, call.0.llm_requests, call.2), keys);
        if ever_measured(calls) {
            let i = choose|i: int|
                0 <= i < calls.len() && some_measured((#[trigger] calls[i]).0.llm_requests);
            if i < earlier.len() {
                assert(some_measured(earlier[i].0.llm_requests));
            }
        }
        if ever_measured(earlier) {
            let i = choose|i: int|
                0 <= i < earlier.len() && some_measured((#[trigger] earlier[i]).0.llm_requests);
            assert(some_measured(calls[i].0.llm_requests));
        }
    }
}

/// Over all calls from the start on, a latency is known exactly if some request that was
/// ever observed told one; as long as no more requests were told apart than timings are
/// kept.
pub proof fn latency_is_known_exactly_if_measured(calls: Seq<Observation>, keys: Set<Seq<char>>)
    requires
        identities(calls, keys),
        keys.finite(),
        keys.len() <= TIMINGS_LIMIT,
    ensures
        latency_known(after_all(calls).timings) <==> (exists|i: int|
            0 <= i < after_all(calls).timings.len() && (#[trigger] after_all(
                calls,
            ).timings[i]).1 is Some),
        (exists|i: int|
            0 <= i < after_all(calls).timings.len() && (#[trigger] after_all(
                calls,
            ).timings[i]).1 is Some) <==> ever_measured(calls),
        one_timing_each(after_all(calls).timings),
{
    lemma_latency(calls, keys);
}

/// The scale of a trace is fixed: a larger value never stands lower.
pub proof fn level_is_monotone(a: u64, b: u64, ceiling: u64, height: nat)
    requires
        a <= b,
        ceiling > 0,
        height > 0,
    ensures
        level(a, ceiling, height) <= level(b, ceiling, height),
        level_row(b, ceiling, height) <= level_row(a, ceiling, height),
{
    let low: u64 = if a <= ceiling {
        a
    } else {
        ceiling
    };
    let high: u64 = if b <= ceiling {
        b
    } else {
        ceiling
    };
    let m = low as nat * (height - 1) as nat;
    let n = high as nat * (height - 1) as nat;
    assert(m <= n) by (nonlinear_arith)
        requires
            m == low * (height - 1),
            n == high * (height - 1),
            low <= high,
            height >= 1,
    ;
    vstd::arithmetic::div_mod::lemma_div_is_ordered(
        m + ceiling - 1,
        n + ceiling - 1,
        ceiling as int,
    );
    assert((m + ceiling - 1) / ceiling as int >= 0) by {
        vstd::arithmetic::div_mod::lemma_div_pos_is_pos(m + ceiling - 1, ceiling as int);
    }
}

/// Zero stands in the bottom row; the ceiling and everything beyond it in the top row.
pub proof fn scale_ends_at_the_edges(value: u64, ceiling: u64, height: nat)
    requires
        ceiling > 0,
        height > 0,
        value >= ceiling,
    ensures
        level_row(0, ceiling, height) == height - 1,
        level_row(value, ceiling, height) == 0,
{
    let d = ceiling as int;
    let k = height - 1;
    assert(0 * k == 0) by (nonlinear_arith);
    vstd::arithmetic::div_mod::lemma_basic_div(d - 1, d);
    assert(level(0, ceiling, height) == 0);
    vstd::arithmetic::div_mod::lemma_div_multiples_vanish_fancy(k, d - 1, d);
    assert(d * k + d - 1 == k * d + (d - 1)) by (nonlinear_arith);
    assert(level(value, ceiling, height) == k);
}

/// A new sample moves the trace by one column and changes nothing else of it, whatever
/// its value: no outlier rescales the others. Only a column that comes to stand at the left
/// edge loses its connection to the one that left.
pub proof fn outliers_do_not_rescale(
    values: Seq<Option<u64>>,
    breaks: Seq<bool>,
    value: Option<u64>,
    broke: bool,
    ceiling: u64,
    width: nat,
    height: nat,
    c: int,
    r: int,
)
    requires
        breaks.len() >= values.len(),
        1 <= c < width,
        c > 1 || row_before(
            values,
            breaks,
            ceiling,
            width,
            height,
            column_sample(values.len(), width, c),
        ) is None,
    ensures
        trace_mark(values.push(value), breaks.push(broke), ceiling, width, height, c - 1, r)
            == trace_mark(values, breaks, ceiling, width, height, c, r),
{
    let i = column_sample(values.len(), width, c);
    let grown = values.push(value);
    let marks = breaks.push(broke);
    assert(column_sample(grown.len(), width, c - 1) == i);
    if 0 <= i < values.len() {
        assert(grown[i] == values[i]);
        assert(broken(marks, i) == broken(breaks, i));
        if i >= 1 {
            assert(grown[i - 1] == values[i - 1]);
        }
        assert(row_before(grown, marks, ceiling, width, height, i) == row_before(
            values,
            breaks,
            ceiling,
            width,
            height,
            i,
        ));
    }
}

/// A missing value leaves its column empty, and the next column is not connected
/// across it.
pub proof fn gaps_stay_open(
    values: Seq<Option<u64>>,
    breaks: Seq<bool>,
    ceiling: u64,
    width: nat,
    height: nat,
    c: int,
    r: int,
)
    requires
        0 <= column_sample(values.len(), width, c) < values.len(),
        values[column_sample(values.len(), width, c)] is None,
    ensures
        trace_mark(values, breaks, ceiling, width, height, c, r) is None,
        row_before(
            values,
            breaks,
            ceiling,
            width,
            height,
            column_sample(values.len(), width, c) + 1,
        ) is None,
{
}

/// A column after a break or a gap, or at the left edge, has one mark: the one in the
/// row of its value.
pub proof fn unconnected_columns_have_one_mark(
    values: Seq<Option<u64>>,
    breaks: Seq<bool>,
    ceiling: u64,
    width: nat,
    height: nat,
    c: int,
    r: int,
)
    requires
        ceiling > 0,
        0 <= column_sample(values.len(), width, c) < values.len(),
        values[column_sample(values.len(), width, c)] is Some,
        row_before(
            values,
            breaks,
            ceiling,
            width,
            height,
            column_sample(values.len(), width, c),
        ) is None,
    ensures
        trace_mark(values, breaks, ceiling, width, height, c, r) is Some <==> r == level_row(
            values[column_sample(values.len(), width, c)]->0,
            ceiling,
            height,
        ),
{
}

/// A break disconnects the columns on its two sides.
pub proof fn breaks_disconnect(
    values: Seq<Option<u64>>,
    breaks: Seq<bool>,
    ceiling: u64,
    width: nat,
    height: nat,
    i: int,
)
    requires
        broken(breaks, i),
    ensures
        row_before(values, breaks, ceiling, width, height, i) is None,
{
}

/// A value beyond the scale is marked as such, and only such a value.
pub proof fn overflow_is_marked(
    values: Seq<Option<u64>>,
    breaks: Seq<bool>,
    ceiling: u64,
    width: nat,
    height: nat,
    c: int,
    r: int,
)
    requires
        ceiling > 0,
        0 <= column_sample(values.len(), width, c) < values.len(),
        values[column_sample(values.len(), width, c)] matches Some(value) && r == level_row(
            value,
            ceiling,
            height,
        ),
    ensures
        trace_mark(values, breaks, ceiling, width, height, c, r) == Some('↑')
            <==> values[column_sample(values.len(), width, c)]->0 > ceiling,
{
}

/// A cell of the queue chart shows an overlap exactly where both traces have a mark: a
/// series without values never overlaps with the other.
pub proof fn overlap_needs_both_series(graph: Rect, points: Seq<PointModel>, x: int, y: int)
    ensures
        (queue_cell(graph, points, x, y) matches Some(cell) && cell.ink == Ink::White) <==> (
        trace_at(
            graph,
            active_series(points),
            provider_breaks(points),
            QUEUE_CEILING,
            x,
            y,
        ) is Some && trace_at(
            graph,
            waiting_series(points),
            provider_breaks(points),
            QUEUE_CEILING,
            x,
            y,
        ) is Some),
        (forall|i: int| 0 <= i < points.len() ==> (#[trigger] points[i]).active is None) ==> (
        queue_cell(graph, points, x, y) matches Some(cell) ==> cell.ink != Ink::White && cell.ink
            != Ink::Cyan),
        (forall|i: int| 0 <= i < points.len() ==> (#[trigger] points[i]).waiting is None) ==> (
        queue_cell(graph, points, x, y) matches Some(cell) ==> cell.ink != Ink::White && cell.ink
            != Ink::Yellow),
{
    let i = column_sample(points.len(), graph.width as nat, x - graph.x);
    if 0 <= i < points.len() {
        assert(active_series(points)[i] == points[i].active);
        assert(waiting_series(points)[i] == points[i].waiting);
    }
}

/// Every latency that was measured shows, also a zero, and none reaches beyond the
/// chart.
pub proof fn measured_latency_shows(value: u64, height: nat)
    requires
        height > 0,
    ensures
        1 <= latency_rows(value, height) <= height,
        value >= LATENCY_CEILING ==> latency_rows(value, height) == height,
{
    let shown: u64 = if value <= LATENCY_CEILING {
        value
    } else {
        LATENCY_CEILING
    };
    let n = shown as nat * height;
    assert(n <= LATENCY_CEILING * height) by (nonlinear_arith)
        requires
            n == shown * height,
            shown <= LATENCY_CEILING,
    ;
    assert(div_up(n, LATENCY_CEILING as nat) <= height);
    if value >= LATENCY_CEILING {
        assert(n == LATENCY_CEILING * height);
    }
}

} // verus!
