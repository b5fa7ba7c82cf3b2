//! Memory accounting for one process, independent of what a server reports.
use crate::phrase::{blank, push_piece, push_words, Piece, PieceModel};
use crate::sample::{Sample, SampleModel};
use crate::text::{decimal, push_decimal};
use crate::time::{Moment, SECOND};
use vstd::prelude::*;

verus! {

/// The operating system's memory counters of one process, in bytes.
#[derive(Clone, Copy, Debug, PartialEq, Eq, Structural)]
pub struct Reading {
    pub pid: u32,
    /// When the process was started; with `pid` it tells the process from any
    /// other.
    pub started: u64,
    pub resident: u64,
    pub footprint: u64,
    pub peak: u64,
    pub at: Moment,
}

/// The number by which the operating system can be asked about a process.
pub open spec fn asked_pid(pid: u32) -> Option<i32> {
    if 0 < pid <= i32::MAX {
        Some(pid as i32)
    } else {
        None
    }
}

/// The number by which the operating system can be asked about a process.
pub fn system_pid(pid: u32) -> (r: Option<i32>)
    ensures
        r == asked_pid(pid),
{
    if 0 < pid && pid <= 0x7fff_ffff {
        Some(pid as i32)
    } else {
        None
    }
}

/// The bytes per second by which a counter grew, without its sign and cut to whole
/// bytes.
pub open spec fn rate_size(current: u64, previous: u64, elapsed: u64) -> nat {
    let difference: nat = if current >= previous {
        (current - previous) as nat
    } else {
        (previous - current) as nat
    };
    difference * SECOND as nat / elapsed as nat
}

/// The bytes per second by which a counter grew over some nanoseconds; below zero,
/// where it fell.
pub open spec fn signed_rate(current: u64, previous: u64, elapsed: u64) -> i64 {
    let size = rate_size(current, previous, elapsed);
    if current >= previous {
        (if size <= i64::MAX {
            size as i64
        } else {
            i64::MAX
        })
    } else {
        (if size <= i64::MAX {
            -size as i64
        } else {
            i64::MIN
        })
    }
}

/// The bytes per second by which a counter grew over some nanoseconds.
pub fn signed_rate_bytes(current: u64, previous: u64, elapsed: u64) -> (r: i64)
    requires
        elapsed > 0,
    ensures
        r == signed_rate(current, previous, elapsed),
{
    let grew = current >= previous;
    let difference: u64 = if grew {
        current - previous
    } else {
        previous - current
    };
    assert(difference * SECOND <= u64::MAX * SECOND) by (nonlinear_arith)
        requires
            difference <= u64::MAX,
    ;
    let size = difference as u128 * SECOND as u128 / elapsed as u128;
    if size > 0x7fff_ffff_ffff_ffff {
        if grew {
            i64::MAX
        } else {
            i64::MIN
        }
    } else if grew {
        size as i64
    } else {
        -(size as i64)
    }
}

/// How fast a process grew between two readings: only of the same run of the same
/// process, and only over some time.
pub open spec fn growth_between(current: Reading, previous: Option<Reading>) -> Option<i64> {
    match previous {
        Some(previous) => if current.pid == previous.pid && current.started == previous.started
            && current.at.nanos > previous.at.nanos {
            Some(
                signed_rate(
                    current.footprint,
                    previous.footprint,
                    (current.at.nanos - previous.at.nanos) as u64,
                ),
            )
        } else {
            None
        },
        None => None,
    }
}

/// How fast a process grew since the previous reading, in bytes per second.
pub fn growth(current: &Reading, previous: Option<&Reading>) -> (r: Option<i64>)
    ensures
        r == growth_between(
            *current,
            match previous {
                Some(previous) => Some(*previous),
                None => None,
            },
        ),
{
    let previous = match previous {
        Some(previous) => previous,
        None => return None,
    };
    if current.pid != previous.pid || current.started != previous.started {
        return None;
    }
    if current.at.nanos <= previous.at.nanos {
        return None;
    }
    Some(
        signed_rate_bytes(
            current.footprint,
            previous.footprint,
            current.at.nanos - previous.at.nanos,
        ),
    )
}

/// The line about the process: its number and its footprint. Without a reading, what is
/// known of the runtime stands in.
pub open spec fn summary_line(sample: SampleModel) -> Seq<PieceModel> {
    match sample.process_memory {
        Some(reading) => seq![
            PieceModel::Words("PROCESS "@ + decimal(reading.pid as nat) + " · footprint "@),
            PieceModel::Size(reading.footprint),
        ],
        None => seq![PieceModel::Runtime],
    }
}

/// The line about the process: its number and its footprint.
pub fn summary(sample: &Sample) -> (r: Vec<Piece>)
    ensures
        r.deep_view() == summary_line(sample.deep_view()),
{
    let mut line = blank();
    match &sample.process_memory {
        Some(reading) => {
            let mut text = "PROCESS ".to_owned();
            push_decimal(&mut text, reading.pid as u64);
            text.append(" · footprint ");
            push_words(&mut line, text.as_str());
            push_piece(&mut line, Piece::Size(reading.footprint));
        },
        None => push_piece(&mut line, Piece::Runtime),
    }
    assert(line.deep_view() =~= summary_line(sample.deep_view()));
    line
}

/// The line below it: the lifetime peak, and the growth where it is known.
pub open spec fn detail_line(sample: SampleModel) -> Seq<PieceModel> {
    match sample.process_memory {
        Some(reading) => seq![
            PieceModel::Words("peak "@),
            PieceModel::Size(reading.peak),
            PieceModel::Words(" · growth "@),
            match sample.process_memory_growth {
                Some(rate) => PieceModel::Rate(rate),
                None => PieceModel::Words("—"@),
            },
            PieceModel::Words(" · OS"@),
        ],
        None => Seq::empty(),
    }
}

/// The line below it: the lifetime peak, and the growth where it is known.
pub fn detail(sample: &Sample) -> (r: Vec<Piece>)
    ensures
        r.deep_view() == detail_line(sample.deep_view()),
{
    let mut line = blank();
    if let Some(reading) = &sample.process_memory {
        push_words(&mut line, "peak ");
        push_piece(&mut line, Piece::Size(reading.peak));
        push_words(&mut line, " · growth ");
        match sample.process_memory_growth {
            Some(rate) => push_piece(&mut line, Piece::Rate(rate)),
            None => push_words(&mut line, "—"),
        }
        push_words(&mut line, " · OS");
    }
    assert(line.deep_view() =~= detail_line(sample.deep_view()));
    line
}

} // verus!
