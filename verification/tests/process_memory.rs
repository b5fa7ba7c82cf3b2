use mlxtop::phrase::Piece;
use mlxtop::process_memory::{detail, growth, signed_rate_bytes, summary, system_pid, Reading};
use mlxtop::sample::Sample;
use mlxtop::time::{Moment, SECOND};

fn worded(line: &[Piece]) -> String {
    line.iter()
        .map(|piece| match piece {
            Piece::Words(words) => words.clone(),
            Piece::Size(n) => format!("{n} B"),
            Piece::Rate(n) => format!("{n:+} B/s"),
            Piece::Percent { part, whole } => {
                format!("{:.1}", *part as f64 / *whole as f64 * 100.0)
            }
            Piece::Share { part, whole } => {
                let share = if *whole > 0 { *part as f64 / *whole as f64 } else { 0.0 };
                format!("{:.0}", share * 100.0)
            }
            Piece::Times { count, base } => format!("{:.1}", *count as f64 / *base as f64),
            Piece::Age(_) => "now".to_string(),
            Piece::Tokens(n) if *n >= 1000 => format!("{:.1}k", *n as f64 / 1000.0),
            Piece::Tokens(n) => n.to_string(),
            Piece::Window { samples, interval } => {
                format!("{}s", *samples as u64 * (interval / SECOND))
            }
            Piece::Runtime => "runtime".to_string(),
        })
        .collect()
}

fn first() -> Reading {
    Reading {
        pid: 42,
        started: 1,
        resident: 100,
        footprint: 100,
        peak: 200,
        at: Moment { nanos: 7 * SECOND },
    }
}

#[test]
fn growth_tracks_same_process_and_preserves_decreases() {
    let first = first();
    let mut next = first.clone();
    next.at = Moment { nanos: first.at.nanos + 2 * SECOND };
    next.footprint = 140;
    assert_eq!(growth(&next, Some(&first)), Some(20));
    next.footprint = 60;
    assert_eq!(growth(&next, Some(&first)), Some(-20));
    assert_eq!(growth(&next, None), None);
    assert_eq!(growth(&first, Some(&first)), None);
    next.pid = 43;
    assert_eq!(growth(&next, Some(&first)), None);
    next.pid = 42;
    next.started = 2;
    assert_eq!(growth(&next, Some(&first)), None);
}

#[test]
fn growth_needs_time_to_pass_forward() {
    let first = first();
    let mut earlier = first;
    earlier.at = Moment { nanos: first.at.nanos - 1 };
    assert_eq!(growth(&earlier, Some(&first)), None);
}

#[test]
fn rates_are_cut_to_whole_bytes_and_saturate() {
    assert_eq!(signed_rate_bytes(10, 0, 3 * SECOND), 3);
    assert_eq!(signed_rate_bytes(0, 10, 3 * SECOND), -3);
    assert_eq!(signed_rate_bytes(u64::MAX, 0, 1), i64::MAX);
    assert_eq!(signed_rate_bytes(0, u64::MAX, 1), i64::MIN);
    assert_eq!(signed_rate_bytes(5, 5, 1), 0);
}

#[test]
fn invalid_process_numbers_are_not_asked_about() {
    assert_eq!(system_pid(0), None);
    assert_eq!(system_pid(u32::MAX), None);
    assert_eq!(system_pid(0x8000_0000), None);
    assert_eq!(system_pid(1), Some(1));
    assert_eq!(system_pid(0x7fff_ffff), Some(i32::MAX));
}

#[test]
fn process_lines_keep_the_counters_apart_and_mark_unknown_growth() {
    let mut sample = Sample::default();
    assert_eq!(worded(&summary(&sample)), "runtime");
    assert_eq!(detail(&sample), vec![]);
    sample.process_memory =
        Some(Reading { resident: 11, footprint: 22, peak: 33, ..first() });
    assert_eq!(worded(&summary(&sample)), "PROCESS 42 · footprint 22 B");
    assert_eq!(worded(&detail(&sample)), "peak 33 B · growth — · OS");
    sample.process_memory_growth = Some(3);
    assert_eq!(worded(&detail(&sample)), "peak 33 B · growth +3 B/s · OS");
    assert_eq!(detail(&sample)[1], Piece::Size(33));
    assert_eq!(detail(&sample)[3], Piece::Rate(3));
    assert_eq!(summary(&sample)[1], Piece::Size(22));
}
