use mlxtop::canvas::{Canvas, Cell, Ink, Rect};
use mlxtop::operator_charts::{
    find_latency, footprint, footprint_caption, footprint_subtitle, latency, latency_caption,
    latency_subtitle, panel_plot, queue, queue_caption, queue_scale, queue_subtitle, queue_window,
    trace, History,
};
use mlxtop::phrase::Piece;
use mlxtop::process_memory::Reading;
use mlxtop::providers::RequestUsage;
use mlxtop::sample::Sample;
use mlxtop::telemetry::TelemetrySource;
use mlxtop::time::{Moment, Timestamp, SECOND};
use ratatui::buffer::Buffer;
use ratatui::style::{Color, Style};
use ratatui::widgets::{Block, Borders, Widget};

const NOW: Timestamp = Timestamp { nanos: 1_800_000_000_000_000_000 };

fn earlier(seconds: i128) -> Timestamp {
    Timestamp { nanos: NOW.nanos - seconds * SECOND as i128 }
}

fn worded(line: &[Piece]) -> String {
    line.iter()
        .map(|piece| match piece {
            Piece::Words(words) => words.clone(),
            Piece::Size(n) => format!("{n} B"),
            Piece::Rate(n) => format!("{n:+} B/s"),
            Piece::Percent { part, whole } => {
                format!("{:.1}", *part as f64 / *whole as f64 * 100.0)
            }
            Piece::Share { part, whole } => {
                let share = if *whole > 0 { *part as f64 / *whole as f64 } else { 0.0 };
                format!("{:.0}", share * 100.0)
            }
            Piece::Times { count, base } => format!("{:.1}", *count as f64 / *base as f64),
            Piece::Age(_) => "now".to_string(),
            Piece::Tokens(n) if *n >= 1000 => format!("{:.1}k", *n as f64 / 1000.0),
            Piece::Tokens(n) => n.to_string(),
            Piece::Window { samples, interval } => {
                format!("{}s", *samples as u64 * (interval / SECOND))
            }
            Piece::Runtime => "runtime".to_string(),
        })
        .collect()
}

fn live() -> Sample {
    Sample {
        llm_source: TelemetrySource::Live,
        llm_status: "idle".into(),
        llm_provider: "oMLX".into(),
        llm_observed_at: Some(NOW),
        llm_active_requests: Some(0),
        llm_waiting_requests: Some(0),
        ..Sample::default()
    }
}

fn glyph(canvas: &Canvas, x: u16, y: u16) -> char {
    canvas.get(x, y).map_or(' ', |cell| cell.glyph)
}

fn ink(canvas: &Canvas, x: u16, y: u16) -> Option<Ink> {
    canvas.get(x, y).map(|cell| cell.ink)
}

#[test]
fn queue_keeps_idle_zero_but_gaps_stale_and_reported_values() {
    let mut history = History::default();
    let mut sample = live();
    history.observe(&sample, 10, NOW);
    assert_eq!(history.points.back().unwrap().active, Some(0));
    sample.llm_observed_at = Some(earlier(20));
    history.observe(&sample, 10, NOW);
    assert_eq!(history.points.back().unwrap().active, None);
    sample.llm_observed_at = Some(NOW);
    sample.llm_source = TelemetrySource::Report;
    history.observe(&sample, 10, NOW);
    assert_eq!(history.points.back().unwrap().waiting, None);
    sample.llm_source = TelemetrySource::Live;
    sample.llm_waiting_requests = None;
    history.observe(&sample, 2, NOW);
    assert_eq!(history.points.len(), 2);
    assert_eq!(history.points.back().unwrap().waiting, None);
}

fn request(model: &str, id: &str, ttft_ms: Option<u64>) -> RequestUsage {
    RequestUsage {
        provider: "oMLX".into(),
        model: model.into(),
        id: id.into(),
        prompt: 100,
        cached: None,
        output: None,
        completed: true,
        observed_at: Some(NOW),
        ttft_ms,
    }
}

#[test]
fn latency_requires_explicit_measurement_and_deduplicates_requests() {
    let mut sample = live();
    sample.llm_requests.push(request("test", "one", None));
    let mut history = History::default();
    history.observe(&sample, 10, NOW);
    assert!(!history.has_latency());
    sample.llm_requests[0].ttft_ms = Some(0);
    history.observe(&sample, 10, NOW);
    history.observe(&sample, 10, NOW);
    assert!(history.has_latency());
    assert_eq!(history.timings.len(), 1);
    sample.llm_requests[0].model = "other".into();
    history.observe(&sample, 10, NOW);
    assert_eq!(history.timings.len(), 2);
}

fn traced(width: u16, height: u16, values: Vec<Option<u64>>, breaks: Vec<bool>) -> Canvas {
    let area = Rect { x: 0, y: 0, width, height };
    let mut canvas = Canvas::new(area);
    trace(&mut canvas, area, &values, &breaks, 16, Ink::Cyan);
    canvas
}

#[test]
fn stepped_trace_uses_connected_corners_for_rises_and_falls() {
    let canvas = traced(3, 5, vec![Some(0), Some(16), Some(0)], vec![false; 3]);
    assert_eq!(glyph(&canvas, 1, 4), '┛');
    assert_eq!(glyph(&canvas, 1, 0), '┏');
    assert_eq!(glyph(&canvas, 2, 0), '┓');
    assert_eq!(glyph(&canvas, 2, 4), '┗');
    assert_eq!(glyph(&canvas, 1, 2), '┃');
    assert_eq!(glyph(&canvas, 0, 4), '━');
}

// The panel of 44 columns and 10 rows, without its border.
const INNER: Rect = Rect { x: 1, y: 1, width: 42, height: 8 };

fn color(ink: Ink) -> Color {
    match ink {
        Ink::White => Color::White,
        Ink::Cyan => Color::Cyan,
        Ink::Yellow => Color::Yellow,
        _ => Color::DarkGray,
    }
}

// The queue panel as it stands on the terminal.
fn rendered(history: &History) -> Buffer {
    let area = ratatui::layout::Rect::new(0, 0, 44, 10);
    let mut buffer = Buffer::empty(area);
    let block = Block::default().borders(Borders::ALL);
    let inner = block.inner(area);
    assert_eq!((inner.x, inner.y, inner.width, inner.height), (1, 1, 42, 8));
    block.render(area, &mut buffer);
    let plot = panel_plot(INNER);
    let drawn = queue(plot, history).unwrap();
    for (y, label) in queue_scale(drawn.graph) {
        buffer.set_string(plot.x, y, label, Style::default());
    }
    for y in 0..10 {
        for x in 0..44 {
            if let Some(cell) = drawn.canvas.get(x, y) {
                buffer[(x, y)].set_char(cell.glyph).set_fg(color(cell.ink));
            }
        }
    }
    buffer
}

#[test]
fn zero_queue_series_share_labeled_baseline_and_keep_border_intact() {
    let mut history = History::default();
    for _ in 0..40 {
        history.observe(&live(), 80, NOW);
    }
    let buffer = rendered(&history);
    assert_eq!(buffer[(40, 8)].symbol(), "═");
    assert_eq!(buffer[(40, 8)].fg, Color::White);
    assert_eq!(buffer[(1, 8)].symbol(), "0");
    assert!((3..8).all(|y| buffer[(40, y)].symbol() == " "));
    assert_eq!(buffer[(1, 9)].symbol(), "─");
    let drawn = queue(panel_plot(INNER), &history).unwrap();
    assert_eq!(queue_scale(drawn.graph), [(3, "16"), (8, "0")]);
    assert!(!drawn.empty);
}

#[test]
fn unequal_queue_counts_use_one_scale_and_missing_series_is_not_overlap() {
    let mut history = History::default();
    let mut sample = live();
    sample.llm_active_requests = Some(8);
    for _ in 0..40 {
        history.observe(&sample, 80, NOW);
    }
    let buffer = rendered(&history);
    assert_eq!(buffer[(40, 5)].fg, Color::Cyan);
    assert_eq!(buffer[(40, 8)].fg, Color::Yellow);
    history = History::default();
    sample.llm_active_requests = None;
    for _ in 0..40 {
        history.observe(&sample, 80, NOW);
    }
    let buffer = rendered(&history);
    assert_eq!(buffer[(40, 8)].symbol(), "━");
    assert_eq!(buffer[(40, 8)].fg, Color::Yellow);
}

#[test]
fn trace_preserves_gaps_boundaries_and_overflow() {
    let canvas = traced(
        5,
        5,
        vec![Some(0), None, Some(16), Some(0), Some(u64::MAX)],
        vec![false, false, false, true, false],
    );
    assert_eq!(glyph(&canvas, 1, 2), ' ');
    assert_eq!(glyph(&canvas, 3, 2), ' ');
    assert_eq!(glyph(&canvas, 4, 0), '↑');
}

#[test]
fn trace_ends_at_the_newest_sample_and_starts_right_when_short() {
    let long = traced(2, 5, vec![Some(16), Some(0), Some(16)], vec![]);
    // The first column shown is not connected to the sample that has left.
    assert_eq!(glyph(&long, 0, 4), '━');
    assert_eq!(glyph(&long, 0, 0), ' ');
    assert_eq!(glyph(&long, 1, 0), '┏');
    let short = traced(4, 5, vec![Some(1)], vec![]);
    // One of sixteen rounds up to the first row above the bottom.
    assert_eq!(glyph(&short, 3, 3), '━');
    assert!((0..3).all(|x| (0..5).all(|y| short.get(x, y).is_none())));
}

#[test]
fn trace_draws_nothing_without_a_scale_or_a_place() {
    let area = Rect { x: 2, y: 3, width: 2, height: 2 };
    let mut canvas = Canvas::new(area);
    trace(&mut canvas, area, &vec![Some(1)], &vec![], 0, Ink::Cyan);
    assert!(canvas.cells.iter().all(|cell| cell.is_none()));
    let none = Rect { width: 0, ..area };
    trace(&mut canvas, none, &vec![Some(1)], &vec![], 16, Ink::Cyan);
    assert!(canvas.cells.iter().all(|cell| cell.is_none()));
    canvas.set(3, 4, Cell { glyph: 'x', ink: Ink::Blue });
    trace(&mut canvas, area, &vec![None, None], &vec![], 16, Ink::Cyan);
    assert_eq!(canvas.get(3, 4), Some(Cell { glyph: 'x', ink: Ink::Blue }));
}

#[test]
fn queue_shows_overflow_in_overlaps_and_breaks_between_providers() {
    let mut history = History::default();
    let mut sample = live();
    sample.llm_active_requests = Some(17);
    sample.llm_waiting_requests = Some(16);
    history.observe(&sample, 80, NOW);
    sample.llm_provider = "llama.cpp".into();
    sample.llm_active_requests = Some(0);
    sample.llm_waiting_requests = None;
    history.observe(&sample, 80, NOW);
    let drawn = queue(panel_plot(INNER), &history).unwrap();
    assert_eq!(drawn.canvas.get(41, 3), Some(Cell { glyph: '↑', ink: Ink::White }));
    assert_eq!(drawn.canvas.get(42, 3), None);
    assert_eq!(drawn.canvas.get(42, 8), Some(Cell { glyph: '━', ink: Ink::Cyan }));
    assert_eq!(drawn.canvas.get(40, 8), Some(Cell { glyph: '─', ink: Ink::Dim }));
}

#[test]
fn queue_without_samples_or_room_says_so() {
    let mut history = History::default();
    assert!(queue(panel_plot(INNER), &history).unwrap().empty);
    assert_eq!(queue_caption(&history), "active — · waiting — ");
    let mut sample = live();
    sample.llm_active_requests = None;
    sample.llm_waiting_requests = Some(3);
    history.observe(&sample, 10, NOW);
    assert!(!queue(panel_plot(INNER), &history).unwrap().empty);
    assert_eq!(queue_caption(&history), "active — · waiting 3 ");
    assert!(queue(Rect { x: 0, y: 0, width: 3, height: 9 }, &history).is_none());
    assert!(queue(Rect { x: 0, y: 0, width: 9, height: 1 }, &history).is_none());
    assert_eq!(queue_window(&history, 4), 0);
    assert_eq!(queue_window(&history, 6), 1);
    assert_eq!(
        worded(&queue_subtitle(&history, 6, 9 * SECOND)),
        "0–16 req · ↑ overflow · 9s"
    );
    assert_eq!(
        queue_subtitle(&history, 4, 9)[1],
        Piece::Window { samples: 0, interval: 9 }
    );
    let empty = Rect { x: 5, y: 5, width: 0, height: 3 };
    assert_eq!(panel_plot(empty), empty);
}

fn reading(pid: u32, started: u64, footprint: u64) -> Reading {
    Reading { pid, started, resident: 1, footprint, peak: footprint, at: Moment { nanos: 0 } }
}

#[test]
fn footprint_is_disconnected_between_processes() {
    let mut history = History::default();
    let mut sample = Sample { total_memory: 100, ..Sample::default() };
    for (pid, started, size) in [(1, 1, 0), (1, 1, 100), (1, 2, 0), (2, 2, 100)] {
        sample.process_memory = Some(reading(pid, started, size));
        history.observe(&sample, 10, NOW);
    }
    let plot = Rect { x: 0, y: 0, width: 4, height: 3 };
    let canvas = footprint(plot, &history, &sample);
    assert_eq!(glyph(&canvas, 0, 2), '━');
    assert_eq!(glyph(&canvas, 1, 1), '┃');
    assert_eq!(glyph(&canvas, 2, 2), '━');
    assert_eq!(glyph(&canvas, 2, 1), ' ');
    assert_eq!(glyph(&canvas, 3, 0), '━');
    assert_eq!(glyph(&canvas, 3, 1), ' ');
    assert_eq!(worded(&footprint_caption(&sample)), "100 B · PID 2 ");
    assert_eq!(worded(&footprint_subtitle(&sample)), "OS · 0–100 B RAM · ↑ overflow");
    let nothing = Sample::default();
    assert_eq!(worded(&footprint_caption(&nothing)), "— ");
    assert_eq!(worded(&footprint_subtitle(&nothing)), "OS · scale unavailable");
}

#[test]
fn latency_has_one_unconnected_column_for_each_request() {
    let mut history = History::default();
    let mut sample = live();
    sample.llm_requests = vec![
        request("m", "a", Some(15_000)),
        request("m", "b", None),
        request("m", "c", Some(0)),
        request("m", "d", Some(30_001)),
    ];
    history.observe(&sample, 10, NOW);
    let plot = Rect { x: 0, y: 0, width: 5, height: 4 };
    let canvas = latency(plot, &history);
    let column = |x: u16| (0..4).map(|y| glyph(&canvas, x, y)).collect::<String>();
    assert_eq!(column(0), "    ");
    assert_eq!(column(1), "  ▇▇");
    assert_eq!(column(2), "    ");
    assert_eq!(column(3), "   ▇");
    assert_eq!(column(4), "↑↑↑↑");
    assert_eq!(ink(&canvas, 4, 0), Some(Ink::Blue));
    assert_eq!(latency_caption(&history), "30001 ms · REPORTED ");
    assert_eq!(
        worded(&latency_subtitle(&history)),
        "0–30s · one column/request · ↑ overflow · now"
    );
    assert_eq!(latency_subtitle(&history)[1], Piece::Age(NOW));
    assert_eq!(find_latency(&history), Some((30_001, NOW)));
}

#[test]
fn reported_latency_survives_later_polls_and_keeps_its_age() {
    let mut history = History::default();
    let mut sample = live();
    sample.llm_requests = vec![request("m", "a", Some(7))];
    history.observe(&sample, 10, NOW);
    sample.llm_requests[0].ttft_ms = None;
    sample.llm_requests[0].observed_at = Some(earlier(-9));
    history.observe(&sample, 10, NOW);
    assert_eq!(find_latency(&history), Some((7, NOW)));
    assert_eq!(history.timings.len(), 1);
    let nothing = History::default();
    assert_eq!(latency_caption(&nothing), "— ");
    assert_eq!(latency_subtitle(&nothing), vec![]);
}

#[test]
fn chart_history_is_bounded() {
    let mut history = History::default();
    for n in 0..300 {
        let mut sample = live();
        sample.llm_requests = vec![request("m", &n.to_string(), None)];
        history.observe(&sample, 7, NOW);
    }
    assert_eq!(history.points.len(), 7);
    assert_eq!(history.timings.len(), 240);
    assert_eq!(history.timings[0].0, "oMLX\0m\x0060");
}

#[test]
fn copies_hold_the_same() {
    let mut history = History::default();
    let mut sample = live();
    sample.process_memory = Some(reading(3, 4, 5));
    sample.llm_requests = vec![request("m", "a", Some(7)), request("m", "b", None)];
    history.observe(&sample, 10, NOW);
    let copy = history.clone();
    assert_eq!(format!("{copy:?}"), format!("{history:?}"));
    history.observe(&sample, 10, NOW);
    assert_eq!(copy.points.len(), 1);
}
