//! Bounded samples of memory and queue, and explicitly reported request latency.
use crate::canvas::{Canvas, Cell, Ink, Rect};
use crate::phrase::{blank, plain, plain_line, push_piece, push_words, Piece, PieceModel};
use crate::providers::{RequestUsage, UsageModel};
use crate::recent::{first_where, keep_newest, lemma_is_first, newest};
use crate::request_dashboard::time_or;
use crate::sample::{Sample, SampleModel};
use crate::telemetry::TelemetrySource;
use crate::text::{decimal, decimal_text, push_count, push_decimal, same_text, shown_count};
use crate::time::{fresh, is_fresh, Timestamp};
use std::collections::VecDeque;
use vstd::prelude::*;

verus! {

/// How many request timings are kept.
pub const TIMINGS_LIMIT: usize = 240;

/// The number of requests at the top of the queue chart.
pub const QUEUE_CEILING: u64 = 16;

/// The latency at the top of the latency chart, in milliseconds.
pub const LATENCY_CEILING: u64 = 30_000;

/// One sample of queue and memory.
#[derive(Debug)]
pub struct Point {
    pub active: Option<u64>,
    pub waiting: Option<u64>,
    pub footprint: Option<u64>,
    pub process: Option<(u32, u64)>,
    pub provider: String,
}

/// The content of a [`Point`].
pub struct PointModel {
    pub active: Option<u64>,
    pub waiting: Option<u64>,
    pub footprint: Option<u64>,
    pub process: Option<(u32, u64)>,
    pub provider: Seq<char>,
}

impl DeepView for Point {
    type V = PointModel;

    open spec fn deep_view(&self) -> PointModel {
        PointModel {
            active: self.active,
            waiting: self.waiting,
            footprint: self.footprint,
            process: self.process,
            provider: self.provider@,
        }
    }
}

/// The latency of one request, once it is known: the request's key, the time to its
/// first token in milliseconds, and when that was observed.
pub type Timing = (String, Option<u64>, Timestamp);

/// The content of a [`Timing`].
pub type TimingModel = (Seq<char>, Option<u64>, Timestamp);

/// The samples behind the charts, the newest last.
#[derive(Debug)]
pub struct History {
    pub points: VecDeque<Point>,
    pub timings: VecDeque<Timing>,
}

/// The content of a [`History`].
#[verifier::ext_equal]
pub struct ChartModel {
    pub points: Seq<PointModel>,
    pub timings: Seq<TimingModel>,
}

impl DeepView for History {
    type V = ChartModel;

    open spec fn deep_view(&self) -> ChartModel {
        ChartModel { points: self.points.deep_view(), timings: self.timings.deep_view() }
    }
}

impl Clone for Point {
    fn clone(&self) -> (r: Self)
        ensures
            r.deep_view() == self.deep_view(),
    {
        Point {
            active: self.active,
            waiting: self.waiting,
            footprint: self.footprint,
            process: self.process,
            provider: self.provider.clone(),
        }
    }
}

impl Clone for History {
    fn clone(&self) -> (r: Self)
        ensures
            r.deep_view() == self.deep_view(),
    {
        let points = self.points.clone();
        let mut timings: VecDeque<Timing> = VecDeque::new();
        let mut j: usize = 0;
        while j < self.timings.len()
            invariant
                j <= self.timings@.len(),
                timings@.len() == j,
                forall|k: int|
                    0 <= k < j ==> (#[trigger] timings@[k]).deep_view()
                        == self.timings@[k].deep_view(),
            decreases self.timings@.len() - j,
        {
            let timing = &self.timings[j];
            timings.push_back((timing.0.clone(), timing.1, timing.2));
            j += 1;
        }
        assert(points.deep_view() =~= self.points.deep_view());
        assert(timings.deep_view() =~= self.timings.deep_view());
        History { points, timings }
    }
}

/// Whether a sample shows the server's present state.
pub open spec fn fresh_sample(sample: SampleModel, now: Timestamp) -> bool {
    sample.llm_source == TelemetrySource::Live && sample.llm_status != "stale"@ && fresh(
        sample.llm_observed_at,
        now,
    )
}

/// What a sample adds to the charts. Queue counts that are not fresh are missing,
/// not zero.
pub open spec fn point_of(sample: SampleModel, now: Timestamp) -> PointModel {
    PointModel {
        active: if fresh_sample(sample, now) {
            sample.llm_active_requests
        } else {
            None
        },
        waiting: if fresh_sample(sample, now) {
            sample.llm_waiting_requests
        } else {
            None
        },
        footprint: match sample.process_memory {
            Some(reading) => Some(reading.footprint),
            None => None,
        },
        process: match sample.process_memory {
            Some(reading) => Some((reading.pid, reading.started)),
            None => None,
        },
        provider: sample.llm_provider,
    }
}

/// The timings of one request.
pub open spec fn timing_of(key: Seq<char>) -> spec_fn(TimingModel) -> bool {
    |timing: TimingModel| timing.0 == key
}

/// The timings after one request was observed. A known request keeps its place, and
/// a latency that was reported is not lost.
pub open spec fn timings_after_one(
    timings: Seq<TimingModel>,
    request: UsageModel,
    now: Timestamp,
) -> Seq<TimingModel> {
    let i = first_where(timings, timing_of(request.key())) as int;
    if i < timings.len() {
        match request.ttft_ms {
            Some(ttft) => timings.update(
                i,
                (timings[i].0, Some(ttft), time_or(request.observed_at, timings[i].2)),
            ),
            None => timings,
        }
    } else {
        timings.push((request.key(), request.ttft_ms, time_or(request.observed_at, now)))
    }
}

/// The timings after some requests were observed, one after the other.
pub open spec fn timings_after(
    timings: Seq<TimingModel>,
    requests: Seq<UsageModel>,
    now: Timestamp,
) -> Seq<TimingModel>
    decreases requests.len(),
{
    if requests.len() == 0 {
        timings
    } else {
        timings_after_one(
            timings_after(timings, requests.drop_last(), now),
            requests.last(),
            now,
        )
    }
}

impl ChartModel {
    /// The history before any sample.
    pub open spec fn nothing() -> ChartModel {
        ChartModel { points: Seq::empty(), timings: Seq::empty() }
    }

    /// The history after a sample.
    pub open spec fn after(self, sample: SampleModel, limit: nat, now: Timestamp) -> ChartModel {
        ChartModel {
            points: newest(self.points.push(point_of(sample, now)), limit),
            timings: newest(
                timings_after(self.timings, sample.llm_requests, now),
                TIMINGS_LIMIT as nat,
            ),
        }
    }
}

impl Default for History {
    fn default() -> (r: Self)
        ensures
            r.deep_view() == ChartModel::nothing(),
    {
        let r = History { points: VecDeque::new(), timings: VecDeque::new() };
        assert(r.points.deep_view() =~= Seq::empty());
        assert(r.timings.deep_view() =~= Seq::empty());
        r
    }
}

fn observe_timing(timings: &mut VecDeque<Timing>, request: &RequestUsage, now: Timestamp)
    ensures
        final(timings).deep_view() == timings_after_one(
            old(timings).deep_view(),
            request.deep_view(),
            now,
        ),
{
    let ghost all = timings.deep_view();
    let key = request.key();
    let ghost wanted = timing_of(key@);
    let mut i: usize = 0;
    while i < timings.len() && timings[i].0 != key
        invariant
            i <= timings@.len(),
            all == timings.deep_view(),
            wanted == timing_of(key@),
            forall|k: int| 0 <= k < i ==> !wanted(#[trigger] all[k]),
        ensures
            i < timings@.len() ==> wanted(all[i as int]),
        decreases timings@.len() - i,
    {
        assert(all[i as int].0 == timings@[i as int].0@);
        i += 1;
    }
    proof {
        lemma_is_first(all, wanted, i as int);
    }
    if i < timings.len() {
        if let Some(ttft) = request.ttft_ms {
            let old = timings.remove(i).unwrap();
            let at = match request.observed_at {
                Some(at) => at,
                None => old.2,
            };
            let renewed = (old.0, Some(ttft), at);
            timings.insert(i, renewed);
            assert(timings.deep_view() =~= all.update(i as int, renewed.deep_view()));
        }
    } else {
        let at = match request.observed_at {
            Some(at) => at,
            None => now,
        };
        let added = (key, request.ttft_ms, at);
        timings.push_back(added);
        assert(timings.deep_view() =~= all.push(added.deep_view()));
    }
}

/// Whether any latency was reported.
pub open spec fn latency_known(timings: Seq<TimingModel>) -> bool {
    exists|i: int| 0 <= i < timings.len() && (#[trigger] timings[i]).1 is Some
}

impl History {
    /// Takes in a sample at the time `now`, keeping at most `limit` points.
    pub fn observe(&mut self, sample: &Sample, limit: usize, now: Timestamp)
        ensures
            final(self).deep_view() == old(self).deep_view().after(
                sample.deep_view(),
                limit as nat,
                now,
            ),
    {
        let ghost before = self.deep_view();
        let fresh = sample.llm_source == TelemetrySource::Live && !same_text(
            sample.llm_status.as_str(),
            "stale",
        ) && is_fresh(sample.llm_observed_at, now);
        let point = Point {
            active: if fresh {
                sample.llm_active_requests
            } else {
                None
            },
            waiting: if fresh {
                sample.llm_waiting_requests
            } else {
                None
            },
            footprint: match sample.process_memory {
                Some(reading) => Some(reading.footprint),
                None => None,
            },
            process: match sample.process_memory {
                Some(reading) => Some((reading.pid, reading.started)),
                None => None,
            },
            provider: sample.llm_provider.clone(),
        };
        assert(point.deep_view() == point_of(sample.deep_view(), now));
        self.points.push_back(point);
        keep_newest(&mut self.points, limit);
        assert(self.points.deep_view() =~= newest(
            before.points.push(point.deep_view()),
            limit as nat,
        ));
        let ghost requests = sample.llm_requests.deep_view();
        let ghost points = self.points.deep_view();
        let mut i: usize = 0;
        assert(requests.take(0) =~= Seq::empty());
        while i < sample.llm_requests.len()
            invariant
                i <= sample.llm_requests@.len(),
                requests == sample.llm_requests.deep_view(),
                self.points.deep_view() == points,
                self.timings.deep_view() == timings_after(
                    before.timings,
                    requests.take(i as int),
                    now,
                ),
            decreases sample.llm_requests@.len() - i,
        {
            assert(requests.take(i + 1).drop_last() =~= requests.take(i as int));
            assert(requests[i as int] == sample.llm_requests@[i as int].deep_view());
            observe_timing(&mut self.timings, &sample.llm_requests[i], now);
            i += 1;
        }
        assert(requests.take(requests.len() as int) =~= requests);
        keep_newest(&mut self.timings, TIMINGS_LIMIT);
        assert(self.timings.deep_view() =~= newest(
            timings_after(before.timings, requests, now),
            TIMINGS_LIMIT as nat,
        ));
    }

    /// Whether any latency was reported.
    pub fn has_latency(&self) -> (r: bool)
        ensures
            r == latency_known(self.deep_view().timings),
    {
        let ghost all = self.deep_view().timings;
        let mut i: usize = 0;
        while i < self.timings.len()
            invariant
                i <= self.timings@.len(),
                all == self.deep_view().timings,
                forall|k: int| 0 <= k < i ==> (#[trigger] all[k]).1 is None,
            decreases self.timings@.len() - i,
        {
            assert(all[i as int].1 == self.timings@[i as int].1);
            if self.timings[i].1.is_some() {
                return true;
            }
            i += 1;
        }
        false
    }
}

/// A quotient rounded up.
pub open spec fn div_up(n: nat, d: nat) -> nat {
    ((n + d - 1) / d as int) as nat
}

/// The height of a value on a scale of `height` rows, counted from the bottom row.
pub open spec fn level(value: u64, ceiling: u64, height: nat) -> nat {
    let shown = if value <= ceiling {
        value
    } else {
        ceiling
    };
    div_up(shown as nat * (height - 1) as nat, ceiling as nat)
}

/// The row of a value, counted from the top row.
pub open spec fn level_row(value: u64, ceiling: u64, height: nat) -> int {
    height - 1 - level(value, ceiling, height)
}

/// What stands in row `r` of a column whose value is in row `row`, next to a column
/// whose value is in row `before`, if they are connected.
pub open spec fn column_mark(before: Option<int>, row: int, overflow: bool, r: int) -> Option<
    char,
> {
    if r == row {
        Some(
            if overflow {
                '↑'
            } else {
                match before {
                    Some(old) => if row > old {
                        '┗'
                    } else if row < old {
                        '┏'
                    } else {
                        '━'
                    },
                    None => '━',
                }
            },
        )
    } else {
        match before {
            Some(old) => if r == old {
                Some(
                    if row > old {
                        '┓'
                    } else {
                        '┛'
                    },
                )
            } else if old < r < row || row < r < old {
                Some('┃')
            } else {
                None
            },
            None => None,
        }
    }
}

/// The sample that column `c` shows: the columns end at the newest.
pub open spec fn column_sample(count: nat, width: nat, c: int) -> int {
    c + count - width
}

/// Whether a break was set before sample `i`.
pub open spec fn broken(breaks: Seq<bool>, i: int) -> bool {
    0 <= i < breaks.len() && breaks[i]
}

/// The row that the trace comes from at sample `i`: that of the sample before it, if
/// that one is shown, has a value, and no break lies between.
pub open spec fn row_before(
    values: Seq<Option<u64>>,
    breaks: Seq<bool>,
    ceiling: u64,
    width: nat,
    height: nat,
    i: int,
) -> Option<int> {
    if i >= 1 && i - 1 >= values.len() - width && !broken(breaks, i) {
        match values[i - 1] {
            Some(value) => Some(level_row(value, ceiling, height)),
            None => None,
        }
    } else {
        None
    }
}

/// What a trace shows in row `r` of column `c`. There is one column for each sample;
/// a missing value leaves its column empty.
pub open spec fn trace_mark(
    values: Seq<Option<u64>>,
    breaks: Seq<bool>,
    ceiling: u64,
    width: nat,
    height: nat,
    c: int,
    r: int,
) -> Option<char> {
    let i = column_sample(values.len(), width, c);
    if 0 <= i < values.len() && ceiling > 0 {
        match values[i] {
            Some(value) => column_mark(
                row_before(values, breaks, ceiling, width, height, i),
                level_row(value, ceiling, height),
                value > ceiling,
                r,
            ),
            None => None,
        }
    } else {
        None
    }
}

/// What a trace shows at a place of the terminal.
pub open spec fn trace_at(
    area: Rect,
    values: Seq<Option<u64>>,
    breaks: Seq<bool>,
    ceiling: u64,
    x: int,
    y: int,
) -> Option<char> {
    if area.contains(x, y) {
        trace_mark(
            values,
            breaks,
            ceiling,
            area.width as nat,
            area.height as nat,
            x - area.x,
            y - area.y,
        )
    } else {
        None
    }
}

/// A drawn mark, or what was there before.
pub open spec fn over(mark: Option<char>, ink: Ink, below: Option<Cell>) -> Option<Cell> {
    match mark {
        Some(glyph) => Some(Cell { glyph, ink }),
        None => below,
    }
}

proof fn lemma_level(value: u64, ceiling: u64, height: nat)
    requires
        ceiling > 0,
        height > 0,
    ensures
        level(value, ceiling, height) < height,
{
    let shown = if value <= ceiling {
        value
    } else {
        ceiling
    };
    let n = shown as nat * (height - 1) as nat;
    assert(n <= ceiling * (height - 1)) by (nonlinear_arith)
        requires
            n == shown * (height - 1),
            shown <= ceiling,
            height >= 1,
    ;
    let q = (n + ceiling - 1) / ceiling as int;
    assert(q <= height - 1) by (nonlinear_arith)
        requires
            n <= ceiling * (height - 1),
            ceiling > 0,
            q == (n + ceiling - 1) / ceiling as int,
    ;
    assert(q >= 0) by (nonlinear_arith)
        requires
            n >= 0,
            ceiling > 0,
            q == (n + ceiling - 1) / ceiling as int,
    ;
}

/// The row of a value, counted from the top row.
fn find_row(value: u64, ceiling: u64, height: u16) -> (r: u16)
    requires
        ceiling > 0,
        height > 0,
    ensures
        r == level_row(value, ceiling, height as nat),
        r < height,
{
    let shown = if value <= ceiling {
        value
    } else {
        ceiling
    };
    proof {
        lemma_level(value, ceiling, height as nat);
        assert(shown * (height - 1) <= u64::MAX * u16::MAX) by (nonlinear_arith)
            requires
                0 <= shown <= u64::MAX,
                0 <= height - 1 <= u16::MAX,
        ;
    }
    let product = shown as u128 * (height - 1) as u128;
    let level = (product + (ceiling as u128 - 1)) / ceiling as u128;
    height - 1 - level as u16
}

fn find_mark(before: Option<u16>, row: u16, overflow: bool, r: u16) -> (g: Option<char>)
    ensures
        g == column_mark(
            match before {
                Some(old) => Some(old as int),
                None => None,
            },
            row as int,
            overflow,
            r as int,
        ),
{
    if r == row {
        if overflow {
            return Some('↑');
        }
        return match before {
            Some(old) => if row > old {
                Some('┗')
            } else if row < old {
                Some('┏')
            } else {
                Some('━')
            },
            None => Some('━'),
        };
    }
    match before {
        Some(old) => if r == old {
            if row > old {
                Some('┓')
            } else {
                Some('┛')
            }
        } else if (old < r && r < row) || (row < r && r < old) {
            Some('┃')
        } else {
            None
        },
        None => None,
    }
}

/// Draws a trace of the newest samples: one column each, on a fixed scale, without
/// connections across missing readings or breaks. Clipping never changes the scale.
pub fn trace(
    canvas: &mut Canvas,
    area: Rect,
    values: &Vec<Option<u64>>,
    breaks: &Vec<bool>,
    ceiling: u64,
    ink: Ink,
)
    requires
        old(canvas).wf(),
        area.fits(),
        forall|x: int, y: int| area.contains(x, y) ==> old(canvas).area.contains(x, y),
    ensures
        final(canvas).wf(),
        final(canvas).area == old(canvas).area,
        forall|x: int, y: int|
            #[trigger] final(canvas).at(x, y) == over(
                trace_at(area, values@, breaks@, ceiling, x, y),
                ink,
                old(canvas).at(x, y),
            ),
{
    let ghost blank = *canvas;
    if area.width == 0 || area.height == 0 || ceiling == 0 {
        return;
    }
    let width = area.width as usize;
    let count = values.len();
    let start = if count > width {
        count - width
    } else {
        0
    };
    let offset = width - (count - start);
    let mut before: Option<u16> = None;
    let mut i = start;
    while i < count
        invariant
            start <= i <= count,
            count == values@.len(),
            width == area.width,
            width > 0,
            area.height > 0,
            ceiling > 0,
            start == if count > width {
                count - width
            } else {
                0
            },
            offset == width - (count - start),
            area.fits(),
            canvas.wf(),
            canvas.area == blank.area,
            forall|x: int, y: int| area.contains(x, y) ==> blank.area.contains(x, y),
            before == (if i > start {
                match values@[i - 1] {
                    Some(value) => Some(level_row(value, ceiling, area.height as nat) as u16),
                    None => None,
                }
            } else {
                None
            }),
            before matches Some(row) ==> row == level_row(
                values@[i - 1]->0,
                ceiling,
                area.height as nat,
            ),
            forall|x: int, y: int|
                #[trigger] canvas.at(x, y) == over(
                    if x < area.x + offset + (i - start) {
                        trace_at(area, values@, breaks@, ceiling, x, y)
                    } else {
                        None
                    },
                    ink,
                    blank.at(x, y),
                ),
        decreases count - i,
    {
        let ghost painted = *canvas;
        let c = (offset + (i - start)) as u16;
        let x = area.x + c;
        if i < breaks.len() && breaks[i] {
            before = None;
        }
        assert(match before {
            Some(old) => Some(old as int),
            None => None::<int>,
        } == row_before(
            values@,
            breaks@,
            ceiling,
            area.width as nat,
            area.height as nat,
            i as int,
        ));
        match values[i] {
            Some(value) => {
                let row = find_row(value, ceiling, area.height);
                let mut r: u16 = 0;
                while r < area.height
                    invariant
                        r <= area.height,
                        area.fits(),
                        area.x <= x < area.x + area.width,
                        x == area.x + offset + (i - start),
                        start <= i < values@.len(),
                        width == area.width,
                        count == values@.len(),
                        column_sample(count as nat, width as nat, x - area.x) == i,
                        values@[i as int] == Some(value),
                        ceiling > 0,
                        row == level_row(value, ceiling, area.height as nat),
                        match before {
                            Some(old) => Some(old as int),
                            None => None::<int>,
                        } == row_before(
                            values@,
                            breaks@,
                            ceiling,
                            area.width as nat,
                            area.height as nat,
                            i as int,
                        ),
                        canvas.wf(),
                        canvas.area == painted.area,
                        forall|x: int, y: int|
                            area.contains(x, y) ==> painted.area.contains(x, y),
                        forall|a: int, b: int|
                            #[trigger] canvas.at(a, b) == over(
                                if a == x && b < area.y + r {
                                    trace_at(area, values@, breaks@, ceiling, a, b)
                                } else {
                                    None
                                },
                                ink,
                                painted.at(a, b),
                            ),
                    decreases area.height - r,
                {
                    let y = area.y + r;
                    assert(area.contains(x as int, y as int));
                    match find_mark(before, row, value > ceiling, r) {
                        Some(glyph) => canvas.set(x, y, Cell { glyph, ink }),
                        None => {},
                    }
                    r += 1;
                }
                before = Some(row);
            },
            None => {
                before = None;
            },
        }
        i += 1;
    }
}

/// The place of a chart below its subtitle, within a panel's border.
pub open spec fn below_subtitle(inner: Rect) -> Rect {
    if inner.width == 0 || inner.height == 0 {
        inner
    } else {
        Rect { y: (inner.y + 1) as u16, height: (inner.height - 1) as u16, ..inner }
    }
}

/// The place of a chart below its subtitle, within a panel's border.
pub fn panel_plot(inner: Rect) -> (r: Rect)
    requires
        inner.fits(),
    ensures
        r == below_subtitle(inner),
        r.fits(),
{
    if inner.width == 0 || inner.height == 0 {
        inner
    } else {
        Rect { x: inner.x, y: inner.y + 1, width: inner.width, height: inner.height - 1 }
    }
}

/// The numbers of requests at work.
pub open spec fn active_series(points: Seq<PointModel>) -> Seq<Option<u64>> {
    Seq::new(points.len(), |i: int| points[i].active)
}

/// The numbers of requests that wait.
pub open spec fn waiting_series(points: Seq<PointModel>) -> Seq<Option<u64>> {
    Seq::new(points.len(), |i: int| points[i].waiting)
}

/// The footprints of the process.
pub open spec fn footprint_series(points: Seq<PointModel>) -> Seq<Option<u64>> {
    Seq::new(points.len(), |i: int| points[i].footprint)
}

/// Where another provider was watched than before.
pub open spec fn provider_breaks(points: Seq<PointModel>) -> Seq<bool> {
    Seq::new(points.len(), |i: int| i > 0 && points[i].provider != points[i - 1].provider)
}

/// Where another process was measured than before.
pub open spec fn process_breaks(points: Seq<PointModel>) -> Seq<bool> {
    Seq::new(points.len(), |i: int| i > 0 && points[i].process != points[i - 1].process)
}

/// What the queue chart shows at a place of its graph. Cells that both traces share
/// show both; the bottom row is the common zero line.
pub open spec fn queue_cell(graph: Rect, points: Seq<PointModel>, x: int, y: int) -> Option<Cell> {
    let breaks = provider_breaks(points);
    let active = trace_at(graph, active_series(points), breaks, QUEUE_CEILING, x, y);
    let waiting = trace_at(graph, waiting_series(points), breaks, QUEUE_CEILING, x, y);
    match (active, waiting) {
        (Some(a), Some(w)) => Some(
            Cell {
                glyph: if a == '↑' || w == '↑' {
                    '↑'
                } else {
                    '═'
                },
                ink: Ink::White,
            },
        ),
        (Some(a), None) => Some(Cell { glyph: a, ink: Ink::Cyan }),
        (None, Some(w)) => Some(Cell { glyph: w, ink: Ink::Yellow }),
        (None, None) => if graph.contains(x, y) && y == graph.y + graph.height - 1 {
            Some(Cell { glyph: '─', ink: Ink::Dim })
        } else {
            None
        },
    }
}

/// The drawn queue chart.
#[derive(Debug)]
pub struct QueuePlot {
    /// The place of the graph, beside the scale and below the legend.
    pub graph: Rect,
    pub canvas: Canvas,
    /// Whether there is no sample to show.
    pub empty: bool,
}

/// The place of the queue's graph, beside the scale and below the legend.
pub open spec fn queue_graph(plot: Rect) -> Option<Rect> {
    if plot.height < 2 || plot.width < 4 {
        None
    } else {
        Some(
            Rect {
                x: (plot.x + 3) as u16,
                y: (plot.y + 1) as u16,
                width: (plot.width - 3) as u16,
                height: (plot.height - 1) as u16,
            },
        )
    }
}

impl History {
    fn queue_values(&self, waiting: bool) -> (r: Vec<Option<u64>>)
        ensures
            r@ == if waiting {
                waiting_series(self.deep_view().points)
            } else {
                active_series(self.deep_view().points)
            },
    {
        let ghost all = self.deep_view().points;
        let ghost wanted = if waiting {
            waiting_series(all)
        } else {
            active_series(all)
        };
        let mut out: Vec<Option<u64>> = Vec::new();
        let mut i: usize = 0;
        while i < self.points.len()
            invariant
                i <= self.points@.len(),
                all == self.deep_view().points,
                wanted == (if waiting {
                    waiting_series(all)
                } else {
                    active_series(all)
                }),
                out@ == wanted.take(i as int),
            decreases self.points@.len() - i,
        {
            assert(all[i as int] == self.points@[i as int].deep_view());
            if waiting {
                out.push(self.points[i].waiting);
            } else {
                out.push(self.points[i].active);
            }
            i += 1;
            assert(out@ =~= wanted.take(i as int));
        }
        assert(wanted.take(wanted.len() as int) =~= wanted);
        out
    }

    fn footprint_values(&self) -> (r: Vec<Option<u64>>)
        ensures
            r@ == footprint_series(self.deep_view().points),
    {
        let ghost all = self.deep_view().points;
        let ghost wanted = footprint_series(all);
        let mut out: Vec<Option<u64>> = Vec::new();
        let mut i: usize = 0;
        while i < self.points.len()
            invariant
                i <= self.points@.len(),
                all == self.deep_view().points,
                wanted == footprint_series(all),
                out@ == wanted.take(i as int),
            decreases self.points@.len() - i,
        {
            assert(all[i as int] == self.points@[i as int].deep_view());
            out.push(self.points[i].footprint);
            i += 1;
            assert(out@ =~= wanted.take(i as int));
        }
        assert(wanted.take(wanted.len() as int) =~= wanted);
        out
    }

    fn breaks_by_provider(&self) -> (r: Vec<bool>)
        ensures
            r@ == provider_breaks(self.deep_view().points),
    {
        let ghost all = self.deep_view().points;
        let ghost wanted = provider_breaks(all);
        let mut out: Vec<bool> = Vec::new();
        let mut i: usize = 0;
        while i < self.points.len()
            invariant
                i <= self.points@.len(),
                all == self.deep_view().points,
                wanted == provider_breaks(all),
                out@ == wanted.take(i as int),
            decreases self.points@.len() - i,
        {
            assert(all[i as int] == self.points@[i as int].deep_view());
            assert(i > 0 ==> all[i - 1] == self.points@[i - 1].deep_view());
            out.push(i > 0 && self.points[i].provider != self.points[i - 1].provider);
            i += 1;
            assert(out@ =~= wanted.take(i as int));
        }
        assert(wanted.take(wanted.len() as int) =~= wanted);
        out
    }

    fn breaks_by_process(&self) -> (r: Vec<bool>)
        ensures
            r@ == process_breaks(self.deep_view().points),
    {
        let ghost all = self.deep_view().points;
        let ghost wanted = process_breaks(all);
        let mut out: Vec<bool> = Vec::new();
        let mut i: usize = 0;
        while i < self.points.len()
            invariant
                i <= self.points@.len(),
                all == self.deep_view().points,
                wanted == process_breaks(all),
                out@ == wanted.take(i as int),
            decreases self.points@.len() - i,
        {
            assert(all[i as int] == self.points@[i as int].deep_view());
            assert(i > 0 ==> all[i - 1] == self.points@[i - 1].deep_view());
            let changed = i > 0 && match (self.points[i].process, self.points[i - 1].process) {
                (Some(a), Some(b)) => a.0 != b.0 || a.1 != b.1,
                (None, None) => false,
                _ => true,
            };
            out.push(changed);
            i += 1;
            assert(out@ =~= wanted.take(i as int));
        }
        assert(wanted.take(wanted.len() as int) =~= wanted);
        out
    }
}

/// Whether no sample of either series has a value.
fn all_missing(a: &Vec<Option<u64>>, b: &Vec<Option<u64>>) -> (r: bool)
    ensures
        r == ((forall|i: int| 0 <= i < a@.len() ==> #[trigger] a@[i] is None) && (forall|i: int|
            0 <= i < b@.len() ==> #[trigger] b@[i] is None)),
{
    let mut i: usize = 0;
    while i < a.len()
        invariant
            i <= a@.len(),
            forall|k: int| 0 <= k < i ==> #[trigger] a@[k] is None,
        decreases a@.len() - i,
    {
        if a[i].is_some() {
            return false;
        }
        i += 1;
    }
    let mut j: usize = 0;
    while j < b.len()
        invariant
            j <= b@.len(),
            forall|k: int| 0 <= k < a@.len() ==> #[trigger] a@[k] is None,
            forall|k: int| 0 <= k < j ==> #[trigger] b@[k] is None,
        decreases b@.len() - j,
    {
        if b[j].is_some() {
            return false;
        }
        j += 1;
    }
    true
}

/// A mark of the waiting trace laid over what the active trace left in a cell.
pub open spec fn laid_over(below: Option<Cell>, top: Option<Cell>) -> Option<Cell> {
    match (below, top) {
        (Some(a), Some(w)) => if a.ink == Ink::Cyan {
            Some(
                Cell {
                    glyph: if a.glyph == '↑' || w.glyph == '↑' {
                        '↑'
                    } else {
                        '═'
                    },
                    ink: Ink::White,
                },
            )
        } else {
            Some(w)
        },
        (below, None) => below,
        (None, top) => top,
    }
}

/// Lays the waiting trace over the active one. Where both have marks, the cell shows
/// both, also where their values cannot be told apart at the terminal's resolution.
fn lay_over(canvas: &mut Canvas, top: &Canvas)
    requires
        old(canvas).wf(),
        top.wf(),
        old(canvas).area == top.area,
    ensures
        final(canvas).wf(),
        final(canvas).area == old(canvas).area,
        forall|x: int, y: int|
            #[trigger] final(canvas).at(x, y) == laid_over(old(canvas).at(x, y), top.at(x, y)),
{
    let ghost before = *canvas;
    let area = canvas.area;
    let mut r: u16 = 0;
    while r < area.height
        invariant
            r <= area.height,
            area.fits(),
            area == top.area,
            area == before.area,
            top.wf(),
            canvas.wf(),
            canvas.area == area,
            forall|x: int, y: int|
                #[trigger] canvas.at(x, y) == if y < area.y + r {
                    laid_over(before.at(x, y), top.at(x, y))
                } else {
                    before.at(x, y)
                },
        decreases area.height - r,
    {
        let y = area.y + r;
        let mut c: u16 = 0;
        while c < area.width
            invariant
                c <= area.width,
                r < area.height,
                y == area.y + r,
                area.fits(),
                area == top.area,
                area == before.area,
                top.wf(),
                canvas.wf(),
                canvas.area == area,
                forall|a: int, b: int|
                    #[trigger] canvas.at(a, b) == if b < y || (b == y && a < area.x + c) {
                        laid_over(before.at(a, b), top.at(a, b))
                    } else {
                        before.at(a, b)
                    },
            decreases area.width - c,
        {
            let x = area.x + c;
            assert(canvas.at(x as int, y as int) == before.at(x as int, y as int));
            if let Some(w) = top.get(x, y) {
                let cell = match canvas.get(x, y) {
                    Some(a) => if a.ink == Ink::Cyan {
                        let glyph = if a.glyph == '↑' || w.glyph == '↑' {
                            '↑'
                        } else {
                            '═'
                        };
                        Cell { glyph, ink: Ink::White }
                    } else {
                        w
                    },
                    None => w,
                };
                canvas.set(x, y, cell);
            }
            c += 1;
        }
        r += 1;
    }
}

/// Draws the zero line into the bottom row.
fn draw_baseline(canvas: &mut Canvas)
    requires
        old(canvas).wf(),
        old(canvas).area.height > 0,
    ensures
        final(canvas).wf(),
        final(canvas).area == old(canvas).area,
        forall|x: int, y: int|
            #[trigger] final(canvas).at(x, y) == if old(canvas).area.contains(x, y) && y
                == old(canvas).area.y + old(canvas).area.height - 1 {
                Some(Cell { glyph: '─', ink: Ink::Dim })
            } else {
                old(canvas).at(x, y)
            },
{
    let ghost before = *canvas;
    let area = canvas.area;
    let y = area.y + (area.height - 1);
    let mut c: u16 = 0;
    while c < area.width
        invariant
            c <= area.width,
            y == area.y + area.height - 1,
            area.height > 0,
            area.fits(),
            area == before.area,
            canvas.wf(),
            canvas.area == area,
            forall|a: int, b: int|
                #[trigger] canvas.at(a, b) == if area.x <= a < area.x + c && b == y {
                    Some(Cell { glyph: '─', ink: Ink::Dim })
                } else {
                    before.at(a, b)
                },
        decreases area.width - c,
    {
        canvas.set(area.x + c, y, Cell { glyph: '─', ink: Ink::Dim });
        c += 1;
    }
}

/// Whether no sample told any queue count.
pub open spec fn no_counts(points: Seq<PointModel>) -> bool {
    forall|i: int|
        0 <= i < points.len() ==> (#[trigger] points[i]).active is None && points[i].waiting is None
}

/// Draws the queue chart into its plot: the requests at work and those that wait,
/// on one scale.
pub fn queue(plot: Rect, history: &History) -> (r: Option<QueuePlot>)
    requires
        plot.fits(),
    ensures
        match r {
            Some(drawn) => {
                let points = history.deep_view().points;
                &&& queue_graph(plot) == Some(drawn.graph)
                &&& drawn.canvas.wf()
                &&& drawn.canvas.area == drawn.graph
                &&& forall|x: int, y: int|
                    #[trigger] drawn.canvas.at(x, y) == queue_cell(drawn.graph, points, x, y)
                &&& drawn.empty == no_counts(points)
            },
            None => queue_graph(plot) is None,
        },
{
    if plot.height < 2 || plot.width < 4 {
        return None;
    }
    let ghost points = history.deep_view().points;
    let graph = Rect {
        x: plot.x + 3,
        y: plot.y + 1,
        width: plot.width - 3,
        height: plot.height - 1,
    };
    let active = history.queue_values(false);
    let waiting = history.queue_values(true);
    let breaks = history.breaks_by_provider();
    let mut canvas = Canvas::new(graph);
    draw_baseline(&mut canvas);
    trace(&mut canvas, graph, &active, &breaks, QUEUE_CEILING, Ink::Cyan);
    let mut top = Canvas::new(graph);
    trace(&mut top, graph, &waiting, &breaks, QUEUE_CEILING, Ink::Yellow);
    lay_over(&mut canvas, &top);
    let empty = all_missing(&active, &waiting);
    proof {
        assert forall|x: int, y: int|
            #[trigger] canvas.at(x, y) == queue_cell(graph, points, x, y) by {}
        if empty {
            assert forall|i: int| 0 <= i < points.len() implies (#[trigger] points[i]).active
                is None && points[i].waiting is None by {
                assert(active@[i] is None);
                assert(waiting@[i] is None);
            }
        } else {
            if forall|i: int|
                0 <= i < points.len() ==> (#[trigger] points[i]).active is None
                    && points[i].waiting is None {
                assert forall|i: int| 0 <= i < active@.len() implies #[trigger] active@[i]
                    is None by {
                    assert(points[i].active is None);
                }
                assert forall|i: int| 0 <= i < waiting@.len() implies #[trigger] waiting@[i]
                    is None by {
                    assert(points[i].waiting is None);
                }
            }
        }
    }
    Some(QueuePlot { graph, canvas, empty })
}

/// The rows of the queue's scale labels, and the labels: at the top and at the bottom of
/// its graph.
pub open spec fn scale_label(graph: Rect, i: int) -> (int, Seq<char>) {
    if i == 0 {
        (graph.y as int, "16"@)
    } else {
        (graph.y + graph.height - 1, "0"@)
    }
}

/// The labels of the queue's scale, beside the top and the bottom row of its graph.
pub fn queue_scale(graph: Rect) -> (r: [(u16, &'static str); 2])
    requires
        graph.fits(),
        graph.height > 0,
    ensures
        r[0].0 == scale_label(graph, 0).0,
        r[0].1@ == scale_label(graph, 0).1,
        r[1].0 == scale_label(graph, 1).0,
        r[1].1@ == scale_label(graph, 1).1,
{
    [(graph.y, "16"), (graph.y + (graph.height - 1), "0")]
}

/// The newest point.
pub open spec fn last_point(points: Seq<PointModel>) -> Option<PointModel> {
    if points.len() > 0 {
        Some(points.last())
    } else {
        None
    }
}

/// The caption of the queue chart: the newest counts.
pub open spec fn queue_words(points: Seq<PointModel>) -> Seq<char> {
    let last = last_point(points);
    "active "@ + shown_count(
        match last {
            Some(point) => point.active,
            None => None,
        },
    ) + " · waiting "@ + shown_count(
        match last {
            Some(point) => point.waiting,
            None => None,
        },
    ) + " "@
}

/// The caption of the queue chart: the newest counts.
pub fn queue_caption(history: &History) -> (r: String)
    ensures
        r@ == queue_words(history.deep_view().points),
{
    let count = history.points.len();
    let (active, waiting) = if count > 0 {
        assert(history.deep_view().points[count - 1] == history.points@[count - 1].deep_view());
        (history.points[count - 1].active, history.points[count - 1].waiting)
    } else {
        (None, None)
    };
    let mut text = "active ".to_owned();
    push_count(&mut text, active);
    text.append(" · waiting ");
    push_count(&mut text, waiting);
    text.append(" ");
    text
}

/// How many samples the queue chart shows in a panel of this width.
pub fn queue_window(history: &History, width: u16) -> (r: usize)
    ensures
        r == window_of(history.deep_view().points, width),
{
    let room = width.saturating_sub(5) as usize;
    let count = history.points.len();
    if count <= room {
        count
    } else {
        room
    }
}

/// How many samples the queue chart shows in a panel of this width.
pub open spec fn window_of(points: Seq<PointModel>, width: u16) -> usize {
    let room: int = if width > 5 {
        width - 5
    } else {
        0
    };
    if points.len() <= room {
        points.len() as usize
    } else {
        room as usize
    }
}

/// The subtitle of the queue chart in a panel of this width, with the nanoseconds
/// between two samples.
pub open spec fn queue_line(points: Seq<PointModel>, width: u16, interval: u64) -> Seq<
    PieceModel,
> {
    seq![
        PieceModel::Words("0–16 req · ↑ overflow · "@),
        PieceModel::Window { samples: window_of(points, width), interval },
    ]
}

/// The subtitle of the queue chart in a panel of this width, with the nanoseconds
/// between two samples.
pub fn queue_subtitle(history: &History, width: u16, interval: u64) -> (r: Vec<Piece>)
    ensures
        r.deep_view() == queue_line(history.deep_view().points, width, interval),
{
    let mut line = blank();
    push_words(&mut line, "0–16 req · ↑ overflow · ");
    let samples = queue_window(history, width);
    push_piece(&mut line, Piece::Window { samples, interval });
    assert(line.deep_view() =~= queue_line(history.deep_view().points, width, interval));
    line
}

/// What the footprint chart shows at a place of its plot, against the machine's memory.
pub open spec fn footprint_cell(
    plot: Rect,
    points: Seq<PointModel>,
    total: u64,
    x: int,
    y: int,
) -> Option<Cell> {
    over(
        trace_at(plot, footprint_series(points), process_breaks(points), total, x, y),
        Ink::Cyan,
        None,
    )
}

/// Draws the process footprint against the machine's memory.
pub fn footprint(plot: Rect, history: &History, sample: &Sample) -> (r: Canvas)
    requires
        plot.fits(),
    ensures
        r.wf(),
        r.area == plot,
        forall|x: int, y: int|
            #[trigger] r.at(x, y) == footprint_cell(
                plot,
                history.deep_view().points,
                sample.total_memory,
                x,
                y,
            ),
{
    let values = history.footprint_values();
    let breaks = history.breaks_by_process();
    let mut canvas = Canvas::new(plot);
    trace(&mut canvas, plot, &values, &breaks, sample.total_memory, Ink::Cyan);
    canvas
}

/// The caption of the footprint chart: the footprint and the process that it is of.
pub open spec fn footprint_line(sample: SampleModel) -> Seq<PieceModel> {
    match sample.process_memory {
        Some(reading) => seq![
            PieceModel::Size(reading.footprint),
            PieceModel::Words(" · PID "@ + decimal(reading.pid as nat) + " "@),
        ],
        None => plain("— "@),
    }
}

/// The caption of the footprint chart: the footprint and the process that it is of.
pub fn footprint_caption(sample: &Sample) -> (r: Vec<Piece>)
    ensures
        r.deep_view() == footprint_line(sample.deep_view()),
{
    match &sample.process_memory {
        Some(reading) => {
            let mut line = blank();
            push_piece(&mut line, Piece::Size(reading.footprint));
            let mut text = " · PID ".to_owned();
            push_decimal(&mut text, reading.pid as u64);
            text.append(" ");
            push_words(&mut line, text.as_str());
            assert(line.deep_view() =~= footprint_line(sample.deep_view()));
            line
        },
        None => plain_line("— "),
    }
}

/// The subtitle of the footprint chart: its scale, which is the machine's memory.
pub open spec fn memory_scale(sample: SampleModel) -> Seq<PieceModel> {
    if sample.total_memory > 0 {
        seq![
            PieceModel::Words("OS · 0–"@),
            PieceModel::Size(sample.total_memory),
            PieceModel::Words(" RAM · ↑ overflow"@),
        ]
    } else {
        plain("OS · scale unavailable"@)
    }
}

/// The subtitle of the footprint chart: its scale, which is the machine's memory.
pub fn footprint_subtitle(sample: &Sample) -> (r: Vec<Piece>)
    ensures
        r.deep_view() == memory_scale(sample.deep_view()),
{
    if sample.total_memory > 0 {
        let mut line = blank();
        push_words(&mut line, "OS · 0–");
        push_piece(&mut line, Piece::Size(sample.total_memory));
        push_words(&mut line, " RAM · ↑ overflow");
        assert(line.deep_view() =~= memory_scale(sample.deep_view()));
        line
    } else {
        plain_line("OS · scale unavailable")
    }
}

/// The rows that a latency fills; one at least, where there are any.
pub open spec fn latency_rows(value: u64, height: nat) -> nat {
    let shown: u64 = if value <= LATENCY_CEILING {
        value
    } else {
        LATENCY_CEILING
    };
    let rows = div_up(shown as nat * height, LATENCY_CEILING as nat);
    if height == 0 {
        0
    } else if rows == 0 {
        1
    } else {
        rows
    }
}

/// What the latency chart shows at a place of its plot. The newest request has the
/// last column, and unrelated requests are not connected.
pub open spec fn latency_cell(plot: Rect, timings: Seq<TimingModel>, x: int, y: int) -> Option<
    Cell,
> {
    let i = timings.len() - (plot.x + plot.width - x);
    if plot.contains(x, y) && 0 <= i < timings.len() {
        match timings[i].1 {
            Some(value) => if y >= plot.y + plot.height - latency_rows(value, plot.height as nat) {
                Some(
                    Cell {
                        glyph: if value > LATENCY_CEILING {
                            '↑'
                        } else {
                            '▇'
                        },
                        ink: Ink::Blue,
                    },
                )
            } else {
                None
            },
            None => None,
        }
    } else {
        None
    }
}

proof fn lemma_latency_rows(value: u64, height: nat)
    ensures
        latency_rows(value, height) <= height,
{
    let shown: u64 = if value <= LATENCY_CEILING {
        value
    } else {
        LATENCY_CEILING
    };
    let n = shown as nat * height;
    let q = (n + LATENCY_CEILING - 1) / LATENCY_CEILING as int;
    assert(q <= height) by (nonlinear_arith)
        requires
            n == shown * height,
            shown <= LATENCY_CEILING,
            height >= 0,
            q == (n + LATENCY_CEILING - 1) / LATENCY_CEILING as int,
    ;
}

fn find_rows(value: u64, height: u16) -> (r: u16)
    ensures
        r == latency_rows(value, height as nat),
        r <= height,
{
    proof {
        lemma_latency_rows(value, height as nat);
    }
    if height == 0 {
        return 0;
    }
    let shown = if value <= LATENCY_CEILING {
        value
    } else {
        LATENCY_CEILING
    };
    assert(shown * height <= LATENCY_CEILING * u16::MAX) by (nonlinear_arith)
        requires
            0 <= shown <= LATENCY_CEILING,
            0 <= height <= u16::MAX,
    ;
    let rows = (shown * height as u64 + (LATENCY_CEILING - 1)) / LATENCY_CEILING;
    if rows == 0 {
        1
    } else {
        rows as u16
    }
}

/// Draws the reported latencies, one column for each request.
pub fn latency(plot: Rect, history: &History) -> (r: Canvas)
    requires
        plot.fits(),
    ensures
        r.wf(),
        r.area == plot,
        forall|x: int, y: int|
            #[trigger] r.at(x, y) == latency_cell(plot, history.deep_view().timings, x, y),
{
    let ghost timings = history.deep_view().timings;
    let mut canvas = Canvas::new(plot);
    let count = history.timings.len();
    let mut back: usize = 0;
    while back < count && back < plot.width as usize
        invariant
            back <= count,
            back <= plot.width,
            plot.fits(),
            count == history.timings@.len(),
            timings == history.deep_view().timings,
            canvas.wf(),
            canvas.area == plot,
            forall|x: int, y: int|
                #[trigger] canvas.at(x, y) == if x >= plot.x + plot.width - back {
                    latency_cell(plot, timings, x, y)
                } else {
                    None
                },
        decreases count - back,
    {
        let x = plot.x + (plot.width - 1 - back as u16);
        let ghost painted = canvas;
        let i = count - 1 - back;
        assert(timings[i as int].1 == history.timings@[i as int].1);
        if let Some(value) = history.timings[i].1 {
            let rows = find_rows(value, plot.height);
            let glyph = if value > LATENCY_CEILING {
                '↑'
            } else {
                '▇'
            };
            let mut r: u16 = 0;
            while r < rows
                invariant
                    r <= rows <= plot.height,
                    plot.fits(),
                    plot.x <= x < plot.x + plot.width,
                    canvas.wf(),
                    canvas.area == plot,
                    forall|a: int, b: int|
                        #[trigger] canvas.at(a, b) == if a == x && plot.y + plot.height - r <= b
                            < plot.y + plot.height {
                            Some(Cell { glyph, ink: Ink::Blue })
                        } else {
                            painted.at(a, b)
                        },
                decreases rows - r,
            {
                let y = plot.y + (plot.height - 1 - r);
                canvas.set(x, y, Cell { glyph, ink: Ink::Blue });
                r += 1;
            }
        }
        back += 1;
        assert forall|a: int, b: int|
            #[trigger] canvas.at(a, b) == if a >= plot.x + plot.width - back {
                latency_cell(plot, timings, a, b)
            } else {
                None
            } by {}
    }
    canvas
}

/// The newest latency that was reported, and when that was observed.
pub open spec fn latest_latency(timings: Seq<TimingModel>) -> Option<(u64, Timestamp)>
    decreases timings.len(),
{
    if timings.len() == 0 {
        None
    } else {
        match timings.last().1 {
            Some(value) => Some((value, timings.last().2)),
            None => latest_latency(timings.drop_last()),
        }
    }
}

/// The newest latency that was reported, and when that was observed.
pub fn find_latency(history: &History) -> (r: Option<(u64, Timestamp)>)
    ensures
        r == latest_latency(history.deep_view().timings),
{
    let ghost timings = history.deep_view().timings;
    let mut i = history.timings.len();
    assert(timings.take(i as int) =~= timings);
    while i > 0
        invariant
            i <= history.timings@.len(),
            timings == history.deep_view().timings,
            latest_latency(timings) == latest_latency(timings.take(i as int)),
        decreases i,
    {
        assert(timings.take(i as int).drop_last() =~= timings.take(i - 1));
        i -= 1;
        let timing = &history.timings[i];
        assert(timings[i as int] == timing.deep_view());
        if let Some(value) = timing.1 {
            return Some((value, timing.2));
        }
    }
    None
}

/// The caption of the latency chart: the newest latency.
pub open spec fn latency_words(timings: Seq<TimingModel>) -> Seq<char> {
    match latest_latency(timings) {
        Some((value, _)) => decimal(value as nat) + " ms · REPORTED "@,
        None => "— "@,
    }
}

/// The caption of the latency chart: the newest latency.
pub fn latency_caption(history: &History) -> (r: String)
    ensures
        r@ == latency_words(history.deep_view().timings),
{
    match find_latency(history) {
        Some((value, _)) => {
            let mut text = decimal_text(value);
            text.append(" ms · REPORTED ");
            text
        },
        None => "— ".to_owned(),
    }
}

/// The subtitle of the latency chart, with the age of the newest latency.
pub open spec fn latency_line(timings: Seq<TimingModel>) -> Seq<PieceModel> {
    match latest_latency(timings) {
        Some((_, at)) => seq![
            PieceModel::Words("0–30s · one column/request · ↑ overflow · "@),
            PieceModel::Age(at),
        ],
        None => Seq::empty(),
    }
}

/// The subtitle of the latency chart, with the age of the newest latency.
pub fn latency_subtitle(history: &History) -> (r: Vec<Piece>)
    ensures
        r.deep_view() == latency_line(history.deep_view().timings),
{
    let mut line = blank();
    if let Some((_, at)) = find_latency(history) {
        push_words(&mut line, "0–30s · one column/request · ↑ overflow · ");
        push_piece(&mut line, Piece::Age(at));
    }
    assert(line.deep_view() =~= latency_line(history.deep_view().timings));
    line
}

} // verus!
