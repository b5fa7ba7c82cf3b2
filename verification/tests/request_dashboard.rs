use mlxtop::canvas::{Ink, Rect};
use mlxtop::phrase::Piece;
use mlxtop::prompt_panel::{
    draw, empty_text, first_bar_index, header_height, selected_index, Label, Panel,
    PromptLoad,
};
use mlxtop::providers::RequestUsage;
use mlxtop::request_dashboard::{
    change, chart_value, comparison, exact, insight, is_live, material_jump, Advice, Assessment,
    Change, Entry, History, Tone, HISTORY_LIMIT, TREND_CEILING,
};
use mlxtop::reuse::{is_below_a_fifth, is_from_four_fifths};
use mlxtop::sample::Sample;
use mlxtop::telemetry::TelemetrySource;
use mlxtop::time::{Timestamp, SECOND};
use ratatui::layout::{Constraint, Layout};

const NOW: Timestamp = Timestamp { nanos: 1_800_000_000_000_000_000 };

fn later(seconds: i128) -> Timestamp {
    Timestamp { nanos: NOW.nanos + seconds * SECOND as i128 }
}

fn usage(id: &str, prompt: u64) -> RequestUsage {
    RequestUsage {
        provider: "oMLX".into(),
        model: "model".into(),
        id: id.into(),
        prompt,
        cached: None,
        output: None,
        completed: false,
        ttft_ms: None,
        observed_at: None,
    }
}

fn worded(line: &[Piece]) -> String {
    line.iter()
        .map(|piece| match piece {
            Piece::Words(words) => words.clone(),
            Piece::Size(n) => format!("{n} B"),
            Piece::Rate(n) => format!("{n:+} B/s"),
            Piece::Percent { part, whole } => {
                format!("{:.1}", *part as f64 / *whole as f64 * 100.0)
            }
            Piece::Share { part, whole } => {
                let share = if *whole > 0 { *part as f64 / *whole as f64 } else { 0.0 };
                format!("{:.0}", share * 100.0)
            }
            Piece::Times { count, base } => format!("{:.1}", *count as f64 / *base as f64),
            Piece::Age(_) => "now".to_string(),
            Piece::Tokens(n) if *n >= 1000 => format!("{:.1}k", *n as f64 / 1000.0),
            Piece::Tokens(n) => n.to_string(),
            Piece::Window { samples, interval } => {
                format!("{}s", *samples as u64 * (interval / SECOND))
            }
            Piece::Runtime => "runtime".to_string(),
        })
        .collect()
}

fn compared(current: &RequestUsage, previous: Option<&Entry>) -> String {
    worded(&comparison(current, previous))
}

#[test]
fn polls_update_one_bar_and_absent_requests_remain() {
    let mut history = History::default();
    history.observe(&[usage("a", 12000), usage("b", 20000)], NOW);
    let mut updated = usage("a", 12000);
    updated.output = Some(80);
    history.observe(&[updated], NOW);
    history.observe(&[], NOW);
    assert_eq!(history.len(), 2);
    assert_eq!(history.entries[0].usage.output, Some(80));
    assert_eq!(history.entries[1].usage.prompt, 20000);
    assert_eq!(history.entries[0].number, 1);
}

#[test]
fn history_is_bounded_and_ids_are_scoped_to_model_and_provider() {
    let mut history = History::default();
    let first = usage("a", 10);
    let mut second = first.clone();
    second.provider = "Ollama".into();
    let mut third = first.clone();
    third.model = "another".into();
    history.observe(&[first, second, third], NOW);
    assert_eq!(history.len(), 3);
    for n in 0..300 {
        history.observe(&[usage(&n.to_string(), n)], NOW);
    }
    assert_eq!(history.len(), HISTORY_LIMIT);
    assert_eq!(history.entries.back().unwrap().number, 303);
}

#[test]
fn comparison_is_explicit_and_handles_zero_and_provider_changes() {
    let mut history = History::default();
    history.observe(&[usage("previous", 22710)], NOW);
    assert_eq!(
        compared(&usage("latest", 20055), history.entries.back()),
        "PREVIOUS OBSERVED 22,710 · CHANGE −2,655 (−11.7%)"
    );
    let mut other = usage("other", 20055);
    other.model = "different".into();
    assert!(compared(&other, history.entries.back()).contains("no comparison"));
    history.observe(&[usage("zero", 0)], NOW);
    assert_eq!(
        compared(&usage("new", 10), history.entries.back()),
        "PREVIOUS OBSERVED 0 · CHANGE +10"
    );
}

#[test]
fn fixed_trend_scale_does_not_change_with_outliers() {
    let before = chart_value(20055);
    assert_eq!(chart_value(u64::MAX), TREND_CEILING);
    assert_eq!(chart_value(TREND_CEILING), TREND_CEILING);
    assert_eq!(chart_value(0), 0);
    assert_eq!(chart_value(20055), before);
    assert_eq!(before, 20055);
}

#[test]
fn live_requires_fresh_membership_and_file_history_keeps_its_age() {
    let now = NOW;
    let mut request = usage("active", 20055);
    request.observed_at = Some(now);
    let mut history = History::default();
    history.observe(&[request.clone()], now);
    let mut sample = Sample {
        llm_source: TelemetrySource::Live,
        llm_status: "generating".into(),
        llm_observed_at: Some(now),
        llm_requests: vec![request.clone()],
        ..Sample::default()
    };
    let entry = history.entries.back().unwrap();
    assert!(is_live(entry, &sample, now));
    assert!(!is_live(entry, &sample, later(6)));
    sample.llm_requests.clear();
    assert!(!is_live(entry, &sample, now));
    request.completed = true;
    request.observed_at = Some(Timestamp::from_seconds(1700000000));
    history.observe(&[request.clone()], now);
    history.observe(&[request], later(1));
    assert_eq!(
        history.entries.back().unwrap().last_seen,
        Timestamp::from_seconds(1700000000)
    );
}

#[test]
fn operator_insights_need_evidence_and_keep_model_boundaries() {
    let mut history = History::default();
    for (i, prompt) in [20000, 21000, 20500, 20055].into_iter().enumerate() {
        history.observe(&[usage(&i.to_string(), prompt)], NOW);
    }
    assert!(worded(&insight(&history, 3).title).starts_with("TYPICAL INPUT"));
    history.observe(&[usage("jump", 40000)], NOW);
    assert!(worded(&insight(&history, 4).title).starts_with("PROMPT JUMP"));
    assert_eq!(insight(&history, 4).tone, Tone::Yellow);
    let mut other = usage("other", 100000);
    other.model = "different".into();
    history.observe(&[other], NOW);
    assert_eq!(worded(&insight(&history, 5).title), "BASELINE SAMPLING");
    assert!(!material_jump(&usage("small", 1000), Some(&history.entries[0])));
}

fn label(label: &Label) -> String {
    worded(std::slice::from_ref(&label.text))
}

struct Place {
    inner: u16,
    plot: Rect,
    side: u16,
}

fn place(width: u16, height: u16) -> Place {
    let inner = ratatui::layout::Rect::new(1, 1, width - 2, height - 2);
    let rows = Layout::vertical([
        Constraint::Length(header_height(inner.width)),
        Constraint::Min(1),
    ])
    .split(inner);
    let columns =
        Layout::horizontal([Constraint::Percentage(60), Constraint::Percentage(40)]).split(rows[1]);
    Place {
        inner: inner.width,
        plot: Rect {
            x: columns[0].x,
            y: columns[0].y,
            width: columns[0].width,
            height: columns[0].height,
        },
        side: columns[1].width,
    }
}

fn panel(history: &History, sample: &Sample, scroll: usize, place: &Place) -> Panel {
    match draw(history, sample, scroll, NOW, place.plot, place.side) {
        PromptLoad::Shown(panel) => panel,
        PromptLoad::Empty(text) => panic!("no panel: {text}"),
    }
}

#[test]
fn short_prompt_bars_show_reported_cache_but_unknown_cache_stays_unsplit() {
    let mut history = History::default();
    let unknown = usage("unknown", 12000);
    let mut cached = usage("cached", 12000);
    cached.cached = Some(9000);
    history.observe(&[unknown, cached], NOW);
    let place = place(90, 8);
    let drawn = panel(&history, &Sample::default(), 0, &place);
    assert_eq!(drawn.bars[0].x, 1);
    assert_eq!(drawn.bars[1].x, 7);
    assert!(drawn.bars[1]
        .blocks
        .iter()
        .any(|b| (1..7).contains(&b.y) && b.ink == Ink::Green && b.ground == Ink::Blue));
    assert!(!drawn.bars[0].blocks.iter().any(|b| b.ink == Ink::Green));
    assert!(!drawn.bars[0].blocks.is_empty());
}

#[test]
fn colored_chart_and_operator_insights_render_together() {
    let now = NOW;
    let mut history = History::default();
    for (i, prompt) in [10000, 12000, 20000, 21000].into_iter().enumerate() {
        history.observe(&[usage(&i.to_string(), prompt)], now);
    }
    let mut current = usage("live", 40000);
    current.cached = Some(36000);
    current.observed_at = Some(now);
    history.observe(&[current.clone()], now);
    let sample = Sample {
        llm_source: TelemetrySource::Live,
        llm_status: "generating".into(),
        llm_observed_at: Some(now),
        llm_requests: vec![current],
        ..Sample::default()
    };
    let place = place(180, 7);
    assert_eq!(place.inner, 178);
    let drawn = panel(&history, &sample, 0, &place);
    let mut inks = vec![
        drawn.headline_ink,
        drawn.title_ink,
        drawn.cache_ink,
        drawn.action_ink,
    ];
    let mut text = vec![
        worded(&drawn.headline),
        worded(&drawn.change),
        worded(&drawn.title),
        drawn.detail.clone(),
        worded(&drawn.cache),
        drawn.action.clone(),
    ];
    for bar in &drawn.bars {
        inks.push(bar.value.ink);
        text.push(label(&bar.value));
        for block in &bar.blocks {
            inks.push(block.ink);
        }
    }
    for color in [Ink::Blue, Ink::Cyan, Ink::Yellow, Ink::Green] {
        assert!(inks.contains(&color), "missing semantic color {color:?}");
    }
    let text = text.join("\n");
    for label in [
        "LIVE",
        "10.0k",
        "12.0k",
        "PROMPT JUMP",
        "CACHE 90%",
        "Recent median",
        "Inspect added context",
    ] {
        assert!(text.contains(label), "missing operator insight: {label}");
    }
    assert_eq!(worded(&drawn.headline), "#5 · 40,000 tokens · LIVE · now");
    assert_eq!(worded(&drawn.change), "PREVIOUS OBSERVED 21,000 · CHANGE +19,000 (+90.5%)");
    assert_eq!(worded(&drawn.title), "PROMPT JUMP · input increased");
    assert_eq!(drawn.detail, "Recent median 20,000 · 4 prior requests");
    assert_eq!(worded(&drawn.cache), "CACHE 90% · 4,000 uncached");
    assert_eq!(drawn.action, "Inspect added context or large tool results.");
    assert_eq!(drawn.bars[4].tag.as_ref().map(label).unwrap(), "▶!5");
    assert_eq!(drawn.bars[0].tag.as_ref().map(label).unwrap(), "#1");
}

#[test]
fn narrow_history_is_shortened_marked_and_muted() {
    let mut history = History::default();
    for (i, prompt) in [20000, 20000, 20000, 20100].into_iter().enumerate() {
        history.observe(&[usage(&i.to_string(), prompt)], NOW);
    }
    let place = place(80, 8);
    let drawn = panel(&history, &Sample::default(), 0, &place);
    assert!(place.side < 48);
    assert_eq!(worded(&drawn.headline), "#4 · 20,100 tokens · LAST SEEN · now");
    assert_eq!(drawn.headline_ink, Ink::Blue);
    assert_eq!(worded(&drawn.title), "HISTORY · TYPICAL INPUT");
    assert_eq!(drawn.title_ink, Ink::Cyan);
    assert_eq!(drawn.detail, "Recent median 20,000");
    assert_eq!(worded(&drawn.cache), "CACHE — not reported");
    assert_eq!(drawn.cache_ink, Ink::Muted);
    assert_eq!(drawn.action, "Check prefill, queue and GPU.");
    assert_eq!(drawn.action_ink, Ink::Muted);
    let back = panel(&history, &Sample::default(), 99, &place);
    assert_eq!(worded(&back.headline), "#1 · 20,000 tokens · LAST SEEN · now");
    assert_eq!(worded(&back.change), "PREVIOUS OBSERVED — awaiting another request");
    assert_eq!(worded(&back.title), "HISTORY · BASELINE SAMPLING");
    assert_eq!(back.action, "Collect more requests.");
    assert_eq!(back.bars.len(), 1);
}

#[test]
fn little_reuse_of_a_large_prompt_changes_the_advice() {
    for (prompt, cached, ink, action) in [
        (5000, 999, Ink::Yellow, "For repeating prompts, check prefix reuse."),
        (5000, 1000, Ink::Cyan, "Compare more requests before judging size."),
        (4095, 0, Ink::Cyan, "Compare more requests before judging size."),
        (5000, 4000, Ink::Green, "Compare more requests before judging size."),
        (5000, 3999, Ink::Cyan, "Compare more requests before judging size."),
        (0, 0, Ink::Cyan, "Compare more requests before judging size."),
    ] {
        let mut history = History::default();
        let mut request = usage("a", prompt);
        request.cached = Some(cached);
        request.completed = true;
        history.observe(&[request], NOW);
        let drawn = panel(&history, &Sample::default(), 0, &place(180, 8));
        assert_eq!(drawn.cache_ink, ink);
        assert_eq!(drawn.action, action);
        assert!(worded(&drawn.headline).contains("REPORTED"));
        assert!(worded(&drawn.cache).ends_with(&format!("{} uncached", exact(prompt - cached))));
    }
}

#[test]
fn bars_fill_by_eighths_and_overflow_is_marked() {
    let mut history = History::default();
    let mut full = usage("full", 70000);
    full.cached = Some(70000);
    history.observe(&[usage("eighth", 1024), usage("none", 0), full], NOW);
    let plot = Rect { x: 0, y: 0, width: 30, height: 10 };
    let drawn = panel(&history, &Sample::default(), 0, &Place { inner: 0, plot, side: 60 });
    // Eight rows stand for 65,536 tokens, so that 1,024 are an eighth of a row.
    assert_eq!(drawn.bars[0].blocks.len(), 1);
    assert_eq!(drawn.bars[0].blocks[0].glyph, '▁');
    assert_eq!(drawn.bars[0].blocks[0].y, 8);
    assert_eq!(drawn.bars[1].blocks.len(), 0);
    assert_eq!(drawn.bars[2].blocks.len(), 8);
    assert!(drawn.bars[2].blocks.iter().all(|b| b.glyph == '█' && b.ink == Ink::Green));
    assert_eq!(label(&drawn.bars[2].value), "↑");
    assert_eq!(drawn.bars[0].value.text, Piece::Tokens(1024));
    assert_eq!(label(&drawn.bars[0].value), "1.0k");
    assert_eq!(drawn.bars[0].tag.as_ref().unwrap().y, 9);
}

fn waiting(sample: &Sample) -> &'static str {
    let place = place(90, 8);
    match draw(&History::default(), sample, 3, NOW, place.plot, place.side) {
        PromptLoad::Empty(text) => {
            assert_eq!(text, empty_text(sample));
            text
        }
        PromptLoad::Shown(panel) => panic!("unexpected panel: {panel:?}"),
    }
}

#[test]
fn empty_panels_say_what_they_wait_for() {
    let mut sample = Sample::default();
    assert_eq!(
        waiting(&sample),
        "No per-request counts received. Connect client usage to see prompt load."
    );
    for provider in ["oMLX", "KoboldCpp"] {
        sample.llm_provider = provider.into();
        assert_eq!(waiting(&sample), "Waiting for per-request prompt counts.");
    }
    assert_eq!(header_height(119), 2);
    assert_eq!(header_height(120), 1);
}

#[test]
fn only_the_bars_with_room_are_shown() {
    assert_eq!(first_bar_index(9, 31), 5);
    assert_eq!(first_bar_index(9, 0), 9);
    assert_eq!(first_bar_index(9, 6), 9);
    assert_eq!(first_bar_index(99, u16::MAX), 68);
    assert_eq!(first_bar_index(3, 200), 0);
}

#[test]
fn repeated_observation_does_not_make_a_request_younger() {
    let mut history = History::default();
    history.observe(&[usage("a", 10)], NOW);
    history.observe(&[usage("a", 10)], later(60));
    assert_eq!(history.entries[0].last_seen, NOW);
    assert_eq!(history.len(), 1);
    let mut timed = usage("a", 10);
    timed.observed_at = Some(later(5));
    history.observe(&[timed.clone()], later(70));
    history.observe(&[timed], later(80));
    assert_eq!(history.entries[0].last_seen, later(5));
    assert_eq!(history.next_number, 1);
}

#[test]
fn numbers_are_grouped_in_threes() {
    for (n, text) in [
        (0, "0"),
        (999, "999"),
        (1000, "1,000"),
        (12034, "12,034"),
        (1000000, "1,000,000"),
        (u64::MAX, "18,446,744,073,709,551,615"),
    ] {
        assert_eq!(exact(n), text);
    }
}

#[test]
fn assessments_follow_the_median() {
    let mut history = History::default();
    for (i, prompt) in [10000, 30000, 10000, 10000].into_iter().enumerate() {
        history.observe(&[usage(&i.to_string(), prompt)], NOW);
    }
    // Two before it are not enough.
    assert_eq!(history.assess(2), Assessment::Baseline);
    assert_eq!(history.assess(1), Assessment::Jump);
    assert_eq!(history.assess(3), Assessment::Typical);
    history.observe(&[usage("small", 7500)], NOW);
    assert_eq!(history.assess(4), Assessment::Smaller);
    history.observe(&[usage("next", 12400)], NOW);
    assert_eq!(history.assess(5), Assessment::Jump);
    let mut large = History::default();
    for (i, prompt) in [8000, 8000, 8000, 13000, 13000].into_iter().enumerate() {
        large.observe(&[usage(&i.to_string(), prompt)], NOW);
    }
    assert_eq!(large.assess(4), Assessment::Large { median: 8000 });
    let found = insight(&large, 4);
    assert_eq!(found.title[1], Piece::Times { count: 13000, base: 8000 });
    assert_eq!(worded(&found.title), "LARGE VS RECENT · 1.6× median");
    assert_eq!(found.detail, "Recent median 8,000 · 4 prior requests");
    assert_eq!(found.action, Advice::InspectContext);
    let mut empty = History::default();
    for i in 0..5 {
        empty.observe(&[usage(&i.to_string(), 0)], NOW);
    }
    assert_eq!(empty.assess(4), Assessment::Baseline);
    assert_eq!(insight(&empty, 4).detail, "Recent median 0 · 4 prior requests");
}

#[test]
fn baseline_reaches_back_eight_requests() {
    let mut history = History::default();
    for i in 0..4 {
        history.observe(&[usage(&format!("old{i}"), 90000)], NOW);
    }
    for i in 0..8 {
        history.observe(&[usage(&format!("new{i}"), 1000)], NOW);
    }
    history.observe(&[usage("last", 1000)], NOW);
    assert_eq!(insight(&history, 12).detail, "Recent median 1,000 · 8 prior requests");
}

#[test]
fn a_jump_needs_tokens_and_a_share() {
    let mut history = History::default();
    history.observe(&[usage("a", 8192)], NOW);
    let previous = history.entries.back();
    assert!(material_jump(&usage("b", 10240), previous));
    assert!(!material_jump(&usage("b", 10239), previous));
    assert!(!material_jump(&usage("b", 1), previous));
    assert!(!material_jump(&usage("b", 10240), None));
    history.observe(&[usage("big", 1000000)], NOW);
    assert!(!material_jump(&usage("b", 1249999), history.entries.back()));
    assert!(material_jump(&usage("b", 1250000), history.entries.back()));
    history.observe(&[usage("zero", 0)], NOW);
    assert!(!material_jump(&usage("b", 90000), history.entries.back()));
}

#[test]
fn stale_completed_and_reported_requests_are_not_live() {
    let mut request = usage("a", 1);
    request.observed_at = Some(NOW);
    let mut history = History::default();
    history.observe(&[request.clone()], NOW);
    let entry = history.entries.back().unwrap();
    let live = || Sample {
        llm_source: TelemetrySource::Live,
        llm_observed_at: Some(NOW),
        llm_requests: vec![request.clone()],
        ..Sample::default()
    };
    assert!(is_live(entry, &live(), later(5)));
    assert!(!is_live(entry, &live(), later(-1)));
    assert!(!is_live(entry, &Sample { llm_status: "stale".into(), ..live() }, NOW));
    assert!(!is_live(entry, &Sample { llm_source: TelemetrySource::Report, ..live() }, NOW));
    assert!(!is_live(entry, &Sample { llm_observed_at: None, ..live() }, NOW));
    let mut done = request.clone();
    done.completed = true;
    let mut finished = History::default();
    finished.observe(&[done], NOW);
    assert!(!is_live(finished.entries.back().unwrap(), &live(), NOW));
}

fn held(history: &History) -> Vec<(u64, String, u64)> {
    history.entries.iter().map(|e| (e.number, e.usage.id.clone(), e.usage.prompt)).collect()
}

#[test]
fn observations_in_parts_and_at_once_are_the_same() {
    let all: Vec<RequestUsage> =
        (0..300).map(|n: u64| usage(&(n % 250).to_string(), n)).collect();
    let mut at_once = History::default();
    at_once.observe(&all, NOW);
    let mut in_parts = History::default();
    in_parts.observe(&all[..7], NOW);
    in_parts.observe(&all[7..], NOW);
    assert_eq!(held(&at_once), held(&in_parts));
    assert_eq!(at_once.next_number, in_parts.next_number);
}

#[test]
fn oldest_requests_leave_first() {
    let mut history = History::default();
    for n in 0..240u64 {
        history.observe(&[usage(&n.to_string(), n)], NOW);
    }
    let before = held(&history);
    history.observe(&[usage("new", 1)], NOW);
    let after = held(&history);
    assert_eq!(after[..239], before[1..]);
    assert_eq!(after[239], (241, "new".to_string(), 1));
}

#[test]
fn changes_are_told_by_their_counts() {
    let mut history = History::default();
    history.observe(&[usage("a", 8)], NOW);
    let previous = history.entries.back();
    assert_eq!(change(&usage("b", 9), previous), Change::Grown { previous: 8, amount: 1 });
    assert_eq!(change(&usage("b", 5), previous), Change::Shrunk { previous: 8, amount: 3 });
    assert_eq!(change(&usage("b", 5), None), Change::Awaiting);
    assert_eq!(
        comparison(&usage("b", 5), previous)[1],
        Piece::Percent { part: 3, whole: 8 }
    );
    assert_eq!(selected_index(&history, 7), 0);
}

#[test]
fn reuse_is_judged_as_the_quotient_in_doubles() {
    let mut cases: Vec<(u64, u64)> = vec![(0, 0), (1, 5), (4, 5), (0, 1), (1, 1)];
    for shift in [0, 20, 40, 50, 52, 53, 54, 55, 58, 60, 61] {
        for whole in [5u64 << shift, (5u64 << shift) - 1, (5u64 << shift) + 1, (5 << shift) + 3] {
            for fifths in [1u64, 4] {
                let near = (whole as u128 * fifths as u128 / 5) as u64;
                for part in near.saturating_sub(3)..=near + 3 {
                    cases.push((part.min(whole), whole));
                }
                for step in [512, 1024, 2048, 4096] {
                    cases.push((near.saturating_sub(step), whole));
                    cases.push(((near + step).min(whole), whole));
                }
            }
        }
    }
    for n in 0..64 {
        cases.push((u64::MAX - n, u64::MAX));
        cases.push((u64::MAX / 5 - n, u64::MAX));
        cases.push((u64::MAX / 5 * 4 + n, u64::MAX - 1023 - n));
    }
    let mut seed: u64 = 1;
    for _ in 0..20000 {
        seed = seed.wrapping_mul(6364136223846793005).wrapping_add(1442695040888963407);
        let whole = seed >> (seed % 50);
        seed = seed.wrapping_mul(6364136223846793005).wrapping_add(1442695040888963407);
        cases.push((if whole > 0 { seed % whole } else { 0 }, whole));
    }
    for (part, whole) in cases {
        let ratio = if whole > 0 { part as f64 / whole as f64 } else { 0.0 };
        assert_eq!(is_from_four_fifths(part, whole), ratio >= 0.8, "{part} of {whole}");
        if whole > 0 {
            assert_eq!(is_below_a_fifth(part, whole), ratio < 0.2, "{part} of {whole}");
        }
    }
}

#[test]
fn reading_a_list_twice_changes_nothing_even_with_a_request_twice() {
    let mut history = History::default();
    let mut timed = usage("a", 20);
    timed.observed_at = Some(later(3));
    let list = [usage("a", 10), timed, usage("b", 5), usage("a", 30)];
    history.observe(&list, NOW);
    let once = history.clone();
    history.observe(&list, later(100));
    assert_eq!(format!("{once:?}"), format!("{history:?}"));
    assert_eq!(history.entries[0].last_seen, later(3));
    assert_eq!(history.entries[0].usage.prompt, 30);
}

#[test]
fn numbers_are_consecutive_up_to_the_last_one_given_out() {
    let mut history = History::default();
    for n in 0..500u64 {
        history.observe(&[usage(&(n % 260).to_string(), n), usage("always", n)], NOW);
    }
    let last = history.next_number;
    let numbers: Vec<u64> = history.entries.iter().map(|e| e.number).collect();
    let wanted: Vec<u64> = (last - 239..=last).collect();
    assert_eq!(numbers, wanted);
}

#[test]
fn insights_do_not_look_past_another_model() {
    let mut other = usage("other", 123);
    other.model = "another".into();
    let mut different = usage("different", 77777);
    different.provider = "Ollama".into();
    let mut a = History::default();
    a.observe(&[usage("x", 5), usage("y", 6), other], NOW);
    let mut b = History::default();
    b.observe(&[different], NOW);
    for (i, prompt) in [10000, 10000, 10000, 16000].into_iter().enumerate() {
        a.observe(&[usage(&i.to_string(), prompt)], NOW);
        b.observe(&[usage(&i.to_string(), prompt)], NOW);
    }
    let x = insight(&a, 6);
    let y = insight(&b, 4);
    assert_eq!((x.title, x.detail, x.action, x.tone), (y.title, y.detail, y.action, y.tone));
}

#[test]
fn insights_do_not_look_beyond_eight_requests_or_at_other_counts() {
    let prompts = [9000, 100, 7000, 7000, 100, 100, 7000, 7000, 12000];
    let mut short = History::default();
    let mut long = History::default();
    long.observe(&[usage("x", 1), usage("y", 900000)], NOW);
    for (i, prompt) in prompts.into_iter().enumerate() {
        short.observe(&[usage(&i.to_string(), prompt)], NOW);
        let mut other = usage(&format!("other{i}"), prompt);
        other.cached = Some(3);
        other.completed = true;
        long.observe(&[other], later(9));
    }
    let a = insight(&short, 8);
    let b = insight(&long, 10);
    assert_eq!((a.title, a.detail), (b.title, b.detail));
    assert_eq!((a.action, a.tone), (b.action, b.tone));
}

#[test]
fn a_full_history_keeps_known_requests_in_their_places() {
    let mut history = History::default();
    let all: Vec<RequestUsage> = (0..240u64).map(|n| usage(&n.to_string(), n)).collect();
    history.observe(&all, NOW);
    let once = held(&history);
    history.observe(&all, later(50));
    assert_eq!(held(&history), once);
    assert!(history.entries.iter().all(|entry| entry.last_seen == NOW));
    assert_eq!(history.next_number, 240);
}
