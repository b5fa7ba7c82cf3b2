//! What the operator charts hold and show, point by point and cell by cell.
use crate::canvas::{Canvas, Cell, Ink, Rect};
use crate::operator_charts::{
    below_subtitle, div_up, footprint_cell, footprint_line, latency_cell,
    latency_known, latency_line, latency_rows, latency_words, latest_latency, level, level_row,
    memory_scale, no_counts, over, queue_cell, queue_graph, queue_line, queue_words,
    scale_label, timings_after, timings_after_one, trace_at, ChartModel, PointModel, TimingModel,
};
use crate::phrase::PieceModel;
use crate::process_memory::Reading;
use crate::providers::UsageModel;
use crate::sample::SampleModel;
use crate::telemetry::TelemetrySource;
use crate::text::decimal;
use crate::time::Timestamp;
use vstd::prelude::*;

verus! {

/// The newest point holds what the sample measured, each in its place: the footprint of the
/// process and who it is, exactly if there is a reading; the counts of the queue, exactly
/// if they are live, not stale and not older than five seconds; and the provider.
pub proof fn newest_point_holds_the_measures(
    history: ChartModel,
    sample: SampleModel,
    limit: nat,
    now: Timestamp,
)
    requires
        limit > 0,
    ensures
        ({
            let point = history.after(sample, limit, now).points.last();
            let current = sample.llm_source == TelemetrySource::Live && sample.llm_status
                != "stale"@ && (sample.llm_observed_at matches Some(at) && at.nanos <= now.nanos
                <= at.nanos + 5_000_000_000);
            &&& sample.process_memory matches Some(reading) ==> {
                &&& point.footprint == Some(reading.footprint)
                &&& point.process == Some((reading.pid, reading.started))
            }
            &&& sample.process_memory is None ==> point.footprint is None && point.process is None
            &&& current ==> {
                &&& point.active == sample.llm_active_requests
                &&& point.waiting == sample.llm_waiting_requests
            }
            &&& !current ==> point.active is None && point.waiting is None
            &&& point.provider == sample.llm_provider
        }),
{
}

/// Samples whose readings differ only in their peak, their resident size or their moment
/// leave the same point.
pub proof fn only_the_footprint_is_charted(
    history: ChartModel,
    sample: SampleModel,
    other: SampleModel,
    a: Reading,
    b: Reading,
    limit: nat,
    now: Timestamp,
)
    requires
        sample.process_memory == Some(a),
        other == (SampleModel { process_memory: Some(b), ..sample }),
        a.pid == b.pid,
        a.started == b.started,
        a.footprint == b.footprint,
    ensures
        history.after(sample, limit, now) == history.after(other, limit, now),
{
}

/// The points before the newest stay as they were; the oldest leave where there would be
/// more than asked for.
pub proof fn earlier_points_stay(
    history: ChartModel,
    sample: SampleModel,
    limit: nat,
    now: Timestamp,
    i: int,
)
    ensures
        ({
            let after = history.after(sample, limit, now).points;
            &&& after.len() == if history.points.len() < limit {
                history.points.len() + 1
            } else {
                limit
            }
            &&& 0 <= i < after.len() - 1 ==> after[i] == history.points[i + history.points.len() + 1
                - after.len()]
        }),
{
}

/// The requests of a sample are entered into the timings one by one, and the newest 240
/// timings stay.
pub proof fn timings_are_entered_in_order(
    history: ChartModel,
    sample: SampleModel,
    limit: nat,
    now: Timestamp,
    timings: Seq<TimingModel>,
    requests: Seq<UsageModel>,
    request: UsageModel,
)
    ensures
        ({
            let all = timings_after(history.timings, sample.llm_requests, now);
            let after = history.after(sample, limit, now).timings;
            &&& all.len() <= 240 ==> after == all
            &&& all.len() > 240 ==> after == all.skip(all.len() - 240)
        }),
        timings_after(timings, Seq::empty(), now) == timings,
        timings_after(timings, requests.push(request), now) == timings_after_one(
            timings_after(timings, requests, now),
            request,
            now,
        ),
{
    assert(requests.push(request).drop_last() =~= requests);
}

/// A request that has no timing yet gets one at the end: with its latency, if it tells one,
/// and the time of its observation, or else the present.
pub proof fn new_timings_are_added_last(
    timings: Seq<TimingModel>,
    request: UsageModel,
    now: Timestamp,
)
    requires
        forall|i: int| 0 <= i < timings.len() ==> (#[trigger] timings[i]).0 != request.key(),
    ensures
        timings_after_one(timings, request, now) == timings.push(
            (
                request.key(),
                request.ttft_ms,
                match request.observed_at {
                    Some(at) => at,
                    None => now,
                },
            ),
        ),
{
    let wanted = crate::operator_charts::timing_of(request.key());
    assert forall|k: int| 0 <= k < timings.len() implies !wanted(#[trigger] timings[k]) by {}
    crate::recent::lemma_is_first(timings, wanted, timings.len() as int);
}

/// A request that has a timing keeps its place. A latency that it tells replaces the one it
/// had, with the time of the observation where that is known; without one nothing changes.
pub proof fn known_timings_are_renewed(
    timings: Seq<TimingModel>,
    request: UsageModel,
    now: Timestamp,
    place: int,
)
    requires
        0 <= place < timings.len(),
        timings[place].0 == request.key(),
        forall|i: int| 0 <= i < place ==> (#[trigger] timings[i]).0 != request.key(),
    ensures
        request.ttft_ms is None ==> timings_after_one(timings, request, now) == timings,
        request.ttft_ms matches Some(ttft) ==> timings_after_one(timings, request, now)
            == timings.update(
            place,
            (
                request.key(),
                Some(ttft),
                match request.observed_at {
                    Some(at) => at,
                    None => timings[place].2,
                },
            ),
        ),
{
    let wanted = crate::operator_charts::timing_of(request.key());
    assert forall|k: int| 0 <= k < place implies !wanted(#[trigger] timings[k]) by {}
    crate::recent::lemma_is_first(timings, wanted, place);
}

/// Whether a value stands so many rows above the bottom row: the least number of rows that
/// is not below its share of the scale.
pub open spec fn stands_at(h: int, value: u64, ceiling: u64, height: int) -> bool {
    let shown: int = if value <= ceiling {
        value as int
    } else {
        ceiling as int
    };
    &&& 0 <= h
    &&& shown * (height - 1) <= h * ceiling
    &&& h > 0 ==> (h - 1) * ceiling < shown * (height - 1)
}

/// Every value has one place on the scale, the least that is not below its share.
pub proof fn values_stand_at_their_share(value: u64, ceiling: u64, height: nat, h: int)
    requires
        ceiling > 0,
        height > 0,
    ensures
        stands_at(level(value, ceiling, height) as int, value, ceiling, height as int),
        stands_at(h, value, ceiling, height as int) ==> h == level(value, ceiling, height),
        level_row(value, ceiling, height) == height - 1 - level(value, ceiling, height),
{
    let shown: int = if value <= ceiling {
        value as int
    } else {
        ceiling as int
    };
    let n = shown * (height - 1);
    let d = ceiling as int;
    assert(n >= 0) by (nonlinear_arith)
        requires
            n == shown * (height - 1),
            shown >= 0,
            height >= 1,
    ;
    lemma_div_up(n as nat, d as nat);
    let q = div_up(n as nat, d as nat) as int;
    assert(q == level(value, ceiling, height));
    if stands_at(h, value, ceiling, height as int) {
        assert(h == q) by (nonlinear_arith)
            requires
                d > 0,
                0 <= h,
                0 <= q,
                n <= h * d,
                h > 0 ==> (h - 1) * d < n,
                n <= q * d,
                q > 0 ==> (q - 1) * d < n,
        ;
    }
}

proof fn lemma_div_up(n: nat, d: nat)
    requires
        d > 0,
    ensures
        n <= div_up(n, d) * d,
        div_up(n, d) > 0 ==> (div_up(n, d) - 1) * d < n,
{
    let m = n + d - 1;
    let q = m / d as int;
    vstd::arithmetic::div_mod::lemma_fundamental_div_mod(m, d as int);
    vstd::arithmetic::div_mod::lemma_mod_bound(m, d as int);
    vstd::arithmetic::div_mod::lemma_div_pos_is_pos(m, d as int);
    assert(n <= q * d && (q > 0 ==> (q - 1) * d < n)) by (nonlinear_arith)
        requires
            m == d * q + m % (d as int),
            0 <= m % (d as int) < d,
            m == n + d - 1,
            n >= 0,
            d > 0,
    ;
}

/// A trace has one column for each sample, the newest at the right edge. The mark of a
/// sample stands in the row of its value. It is an arrow beyond the scale; else it is a
/// line, turned towards the sample before it, where that one is in the column to its left
/// and not parted from it by a break. Such a column also has the marks that lead there.
/// There is no other mark.
pub proof fn traces_connect_the_samples(
    area: Rect,
    values: Seq<Option<u64>>,
    breaks: Seq<bool>,
    ceiling: u64,
    x: int,
    y: int,
    h: int,
    g: int,
)
    requires
        area.contains(x, y),
        ceiling > 0,
    ensures
        ({
            let i = values.len() - (area.x + area.width - x);
            let bottom = area.y + area.height - 1;
            let connected = x > area.x && i > 0 && values[i - 1] is Some && !(i < breaks.len()
                && breaks[i]);
            let mark = trace_at(area, values, breaks, ceiling, x, y);
            &&& i < 0 ==> mark is None
            &&& i >= 0 && values[i] is None ==> mark is None
            &&& i >= 0 && (values[i] matches Some(value) && stands_at(
                h,
                value,
                ceiling,
                area.height as int,
            )) && (connected ==> stands_at(g, values[i - 1]->0, ceiling, area.height as int)) ==> {
                if y == bottom - h {
                    mark == Some(
                        if values[i]->0 > ceiling {
                            '↑'
                        } else if connected && h < g {
                            '┗'
                        } else if connected && h > g {
                            '┏'
                        } else {
                            '━'
                        },
                    )
                } else if connected && y == bottom - g {
                    mark == Some(
                        if h < g {
                            '┓'
                        } else {
                            '┛'
                        },
                    )
                } else if connected && (bottom - g < y < bottom - h || bottom - h < y < bottom
                    - g) {
                    mark == Some('┃')
                } else {
                    mark is None
                }
            }
        }),
{
    let i = values.len() - (area.x + area.width - x);
    let height = area.height as nat;
    if i >= 0 {
        if let Some(value) = values[i] {
            values_stand_at_their_share(value, ceiling, height, h);
            if i > 0 {
                if let Some(previous) = values[i - 1] {
                    values_stand_at_their_share(previous, ceiling, height, g);
                }
            }
        }
    }
}

/// Without a scale there is no trace, and there is none beside its area.
pub proof fn traces_need_a_scale(
    area: Rect,
    values: Seq<Option<u64>>,
    breaks: Seq<bool>,
    ceiling: u64,
    x: int,
    y: int,
)
    requires
        ceiling == 0 || !area.contains(x, y),
    ensures
        trace_at(area, values, breaks, ceiling, x, y) is None,
{
}

/// The queue chart shows two traces on a scale of sixteen, broken where the provider
/// changes: the requests at work in cyan, those that wait in yellow. Where both have a mark
/// there is a double line in white, or an arrow, if one of them is beyond the scale. Where
/// none has, the bottom row is a dim line.
pub proof fn queue_shows_both_counts(
    graph: Rect,
    points: Seq<PointModel>,
    active: Seq<Option<u64>>,
    waiting: Seq<Option<u64>>,
    breaks: Seq<bool>,
    x: int,
    y: int,
)
    requires
        active.len() == points.len(),
        waiting.len() == points.len(),
        breaks.len() == points.len(),
        forall|i: int| 0 <= i < points.len() ==> #[trigger] active[i] == points[i].active,
        forall|i: int| 0 <= i < points.len() ==> #[trigger] waiting[i] == points[i].waiting,
        forall|i: int|
            0 <= i < points.len() ==> (#[trigger] breaks[i] <==> i > 0 && points[i].provider
                != points[i - 1].provider),
    ensures
        ({
            let a = trace_at(graph, active, breaks, 16, x, y);
            let w = trace_at(graph, waiting, breaks, 16, x, y);
            let cell = queue_cell(graph, points, x, y);
            let bottom = graph.contains(x, y) && y == graph.y + graph.height - 1;
            &&& a is Some && w is Some ==> cell == Some(
                Cell {
                    glyph: if a == Some('↑') || w == Some('↑') {
                        '↑'
                    } else {
                        '═'
                    },
                    ink: Ink::White,
                },
            )
            &&& a is Some && w is None ==> cell == Some(Cell { glyph: a->0, ink: Ink::Cyan })
            &&& a is None && w is Some ==> cell == Some(Cell { glyph: w->0, ink: Ink::Yellow })
            &&& a is None && w is None && bottom ==> cell == Some(
                Cell { glyph: '─', ink: Ink::Dim },
            )
            &&& a is None && w is None && !bottom ==> cell is None
        }),
{
    assert(active =~= crate::operator_charts::active_series(points));
    assert(waiting =~= crate::operator_charts::waiting_series(points));
    assert(breaks =~= crate::operator_charts::provider_breaks(points));
}

/// The footprint chart shows the footprints in cyan on the scale of the machine's memory,
/// broken where the process changes.
pub proof fn footprint_chart_shows_the_footprints(
    plot: Rect,
    points: Seq<PointModel>,
    footprints: Seq<Option<u64>>,
    breaks: Seq<bool>,
    total: u64,
    x: int,
    y: int,
)
    requires
        footprints.len() == points.len(),
        breaks.len() == points.len(),
        forall|i: int| 0 <= i < points.len() ==> #[trigger] footprints[i] == points[i].footprint,
        forall|i: int|
            0 <= i < points.len() ==> (#[trigger] breaks[i] <==> i > 0 && points[i].process
                != points[i - 1].process),
    ensures
        footprint_cell(plot, points, total, x, y) == (match trace_at(
            plot,
            footprints,
            breaks,
            total,
            x,
            y,
        ) {
            Some(glyph) => Some(Cell { glyph, ink: Ink::Cyan }),
            None => None,
        }),
{
    assert(footprints =~= crate::operator_charts::footprint_series(points));
    assert(breaks =~= crate::operator_charts::process_breaks(points));
}

/// The queue's graph leaves three columns for its scale and a row for its legend. It has
/// its labels at its top and its bottom row; a plot that is too small has no graph.
pub proof fn queue_graph_leaves_room_for_its_scale(plot: Rect)
    requires
        plot.fits(),
    ensures
        plot.height >= 2 && plot.width >= 4 <==> queue_graph(plot) is Some,
        queue_graph(plot) matches Some(graph) ==> {
            &&& graph.x == plot.x + 3
            &&& graph.y == plot.y + 1
            &&& graph.x + graph.width == plot.x + plot.width
            &&& graph.y + graph.height == plot.y + plot.height
            &&& scale_label(graph, 0) == (graph.y as int, "16"@)
            &&& scale_label(graph, 1) == (plot.y + plot.height - 1, "0"@)
        },
{
}

/// The plot of a chart leaves one row for the subtitle, if there is any.
pub proof fn plots_leave_a_row_for_the_subtitle(inner: Rect)
    requires
        inner.fits(),
    ensures
        ({
            let plot = below_subtitle(inner);
            &&& plot.x == inner.x
            &&& plot.width == inner.width
            &&& plot.y + plot.height == inner.y + inner.height
            &&& plot.height == if inner.width > 0 && inner.height > 0 {
                inner.height - 1
            } else {
                inner.height as int
            }
        }),
{
}

/// The caption of the queue chart tells the newest point's counts, the active one before
/// the waiting one, with a dash for what is not known; and the chart is empty if no point
/// tells any count.
pub proof fn queue_caption_tells_the_newest_counts(points: Seq<PointModel>)
    ensures
        ({
            let shown = |count: Option<u64>| match count {
                Some(n) => decimal(n as nat),
                None => "—"@,
            };
            points.len() > 0 ==> queue_words(points) == "active "@ + shown(points.last().active)
                + " · waiting "@ + shown(points.last().waiting) + " "@
        }),
        points.len() == 0 ==> queue_words(points) == "active "@ + "—"@ + " · waiting "@ + "—"@
            + " "@,
        no_counts(points) <==> forall|k: int|
            0 <= k < points.len() ==> (#[trigger] points[k]).active is None && points[k].waiting
                is None,
{
}

/// The subtitle of the queue chart tells over how many samples it goes: those that there
/// are, as far as the panel without its border and its scale has columns.
pub proof fn queue_subtitle_tells_the_window(points: Seq<PointModel>, width: u16, interval: u64)
    requires
        points.len() <= usize::MAX,
    ensures
        queue_line(points, width, interval).len() == 2,
        queue_line(points, width, interval)[0] == PieceModel::Words("0–16 req · ↑ overflow · "@),
        queue_line(points, width, interval)[1] matches PieceModel::Window {
            samples,
            interval: told,
        } && told == interval && samples <= points.len() && (samples > 0 ==> samples + 5 <= width)
            && (samples < points.len() ==> samples + 5 >= width),
{
}

/// The caption of the footprint chart tells the footprint and the process, that of the
/// present reading; the subtitle tells the machine's memory, where it is known.
pub proof fn footprint_texts_tell_the_reading(sample: SampleModel)
    ensures
        sample.process_memory matches Some(reading) ==> footprint_line(sample) == seq![
            PieceModel::Size(reading.footprint),
            PieceModel::Words(" · PID "@ + decimal(reading.pid as nat) + " "@),
        ],
        sample.process_memory is None ==> footprint_line(sample) == seq![PieceModel::Words("— "@)],
        sample.total_memory > 0 ==> memory_scale(sample) == seq![
            PieceModel::Words("OS · 0–"@),
            PieceModel::Size(sample.total_memory),
            PieceModel::Words(" RAM · ↑ overflow"@),
        ],
        sample.total_memory == 0 ==> memory_scale(sample) == seq![
            PieceModel::Words("OS · scale unavailable"@),
        ],
{
}

/// A latency fills the least number of rows that is not below its share of thirty seconds,
/// and one at least.
pub proof fn latencies_fill_their_share(value: u64, height: nat)
    requires
        height > 0,
    ensures
        ({
            let shown: int = if value <= 30_000 {
                value as int
            } else {
                30_000
            };
            let rows = latency_rows(value, height);
            &&& rows >= 1
            &&& shown * height <= rows * 30_000
            &&& rows > 1 ==> (rows - 1) * 30_000 < shown * height
        }),
{
    let shown: int = if value <= 30_000 {
        value as int
    } else {
        30_000
    };
    lemma_div_up((shown * height) as nat, 30_000);
    assert(shown * height >= 0) by (nonlinear_arith)
        requires
            shown >= 0,
            height >= 0,
    ;
}

/// The latency chart has one column for each request, the newest at the right edge. A
/// column is filled from below in blue as far as its latency reaches, with arrows if that
/// is beyond thirty seconds; a request without a latency leaves its column empty.
pub proof fn latency_columns_show_the_requests(
    plot: Rect,
    timings: Seq<TimingModel>,
    x: int,
    y: int,
)
    ensures
        ({
            let i = timings.len() - (plot.x + plot.width - x);
            let cell = latency_cell(plot, timings, x, y);
            &&& !plot.contains(x, y) || i < 0 ==> cell is None
            &&& plot.contains(x, y) && i >= 0 && timings[i].1 is None ==> cell is None
            &&& plot.contains(x, y) && i >= 0 && timings[i].1 is Some ==> {
                let value = timings[i].1->0;
                let above = plot.y + plot.height - 1 - y;
                &&& cell is Some <==> above < latency_rows(value, plot.height as nat)
                &&& cell matches Some(shown) ==> shown.ink == Ink::Blue && shown.glyph == if value
                    > 30_000 {
                    '↑'
                } else {
                    '▇'
                }
            }
        }),
{
}

/// The latest latency is that of the last request that told one, with its own time.
pub proof fn latest_latency_is_the_last_told(
    timings: Seq<TimingModel>,
    timing: TimingModel,
    later: Seq<TimingModel>,
)
    requires
        forall|i: int| 0 <= i < later.len() ==> (#[trigger] later[i]).1 is None,
    ensures
        latest_latency(later) is None,
        !latency_known(later),
        timing.1 matches Some(value) ==> {
            let all = timings.push(timing) + later;
            &&& latest_latency(all) == Some((value, timing.2))
            &&& latency_known(all)
            &&& latency_words(all) == decimal(value as nat) + " ms · REPORTED "@
            &&& latency_line(all) == seq![
                PieceModel::Words("0–30s · one column/request · ↑ overflow · "@),
                PieceModel::Age(timing.2),
            ]
        },
        latency_words(later) == "— "@,
        latency_line(later) == Seq::<PieceModel>::empty(),
    decreases later.len(),
{
    let all = timings.push(timing) + later;
    assert(all[timings.len() as int] == timing);
    if later.len() == 0 {
        assert(all =~= timings.push(timing));
    } else {
        let fewer = later.drop_last();
        assert forall|i: int| 0 <= i < fewer.len() implies (#[trigger] fewer[i]).1 is None by {
            assert(fewer[i] == later[i]);
        }
        latest_latency_is_the_last_told(timings, timing, fewer);
        assert(all.drop_last() =~= timings.push(timing) + fewer);
        assert(all.last() == later.last());
        assert(later[later.len() - 1].1 is None);
    }
}

/// The cells of a canvas stand row by row, from the top and from the left; there are none
/// beside it. A mark that is drawn over a cell replaces it.
pub proof fn cells_stand_row_by_row(canvas: Canvas, x: int, y: int, mark: char, ink: Ink)
    ensures
        ({
            let area = canvas.area;
            let inside = area.x <= x < area.x + area.width && area.y <= y < area.y + area.height;
            &&& area.contains(x, y) <==> inside
            &&& inside ==> canvas.at(x, y) == canvas.cells@[(y - area.y) * area.width + (x
                - area.x)]
            &&& !inside ==> canvas.at(x, y) is None
            &&& over(Some(mark), ink, canvas.at(x, y)) == Some(Cell { glyph: mark, ink })
            &&& over(None, ink, canvas.at(x, y)) == canvas.at(x, y)
        }),
{
}

} // verus!
