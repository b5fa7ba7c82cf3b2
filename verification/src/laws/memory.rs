//! The growth of a process.
use crate::phrase::PieceModel;
use crate::process_memory::{
    asked_pid, detail_line, growth_between, rate_size, signed_rate, summary_line, Reading,
};
use crate::sample::{context_tokens, SampleModel};
use crate::text::decimal;
use crate::time::SECOND;
use vstd::prelude::*;

verus! {

/// Growth is known only between two readings of the same run of the same process, the
/// later after the earlier.
pub proof fn growth_needs_two_readings_of_one_process(current: Reading, previous: Reading)
    ensures
        growth_between(current, None) is None,
        growth_between(current, Some(previous)) is Some <==> current.pid == previous.pid
            && current.started == previous.started && current.at.nanos > previous.at.nanos,
        growth_between(current, Some(current)) is None,
{
}

/// A rate has the sign of the change: it falls only where the footprint fell, and rises
/// only where it rose.
pub proof fn growth_has_the_sign_of_the_change(current: u64, previous: u64, elapsed: u64)
    requires
        elapsed > 0,
    ensures
        signed_rate(current, previous, elapsed) > 0 ==> current > previous,
        signed_rate(current, previous, elapsed) < 0 ==> current < previous,
        current == previous ==> signed_rate(current, previous, elapsed) == 0,
        current > previous && elapsed <= SECOND ==> signed_rate(current, previous, elapsed) > 0,
        current < previous && elapsed <= SECOND ==> signed_rate(current, previous, elapsed) < 0,
{
    let size = rate_size(current, previous, elapsed);
    let difference: nat = if current >= previous {
        (current - previous) as nat
    } else {
        (previous - current) as nat
    };
    let n = difference * SECOND as nat;
    let d = elapsed as nat;
    assert(size == n / d);
    if difference == 0 {
        assert(n == 0);
        assert(0nat / d == 0) by (nonlinear_arith)
            requires
                d > 0,
        ;
    } else if elapsed <= SECOND {
        assert(n >= d);
        assert(n / d >= 1) by (nonlinear_arith)
            requires
                n >= d,
                d > 0,
        ;
    }
}

/// A fall is measured like a rise: swapping two footprints turns the rate round, where
/// it fits.
pub proof fn decreases_are_preserved(current: u64, previous: u64, elapsed: u64)
    requires
        elapsed > 0,
        rate_size(current, previous, elapsed) <= i64::MAX,
    ensures
        signed_rate(current, previous, elapsed) == -signed_rate(previous, current, elapsed),
{
    assert(rate_size(current, previous, elapsed) == rate_size(previous, current, elapsed));
    if current == previous {
        growth_has_the_sign_of_the_change(current, previous, elapsed);
    }
}

/// The two lines about a process keep its counters apart: the first tells the footprint,
/// the second the lifetime peak and the growth, and neither tells the resident size.
pub proof fn counters_stay_distinct(sample: SampleModel, a: Reading, b: Reading)
    ensures
        ({
            let x = SampleModel { process_memory: Some(a), ..sample };
            let y = SampleModel { process_memory: Some(b), ..sample };
            &&& a.peak == b.peak <==> detail_line(x) == detail_line(y)
            &&& a.pid == b.pid && a.footprint == b.footprint ==> summary_line(x) == summary_line(
                y,
            )
            &&& summary_line(x) == summary_line(y) ==> a.footprint == b.footprint
        }),
{
    let x = SampleModel { process_memory: Some(a), ..sample };
    let y = SampleModel { process_memory: Some(b), ..sample };
    if detail_line(x) == detail_line(y) {
        assert(detail_line(x)[1] == detail_line(y)[1]);
    }
    if summary_line(x) == summary_line(y) {
        assert(summary_line(x)[1] == summary_line(y)[1]);
    }
}

/// An unknown growth is marked as such, and told as no rate.
pub proof fn unknown_growth_is_marked(sample: SampleModel)
    requires
        sample.process_memory is Some,
    ensures
        sample.process_memory_growth is None <==> detail_line(sample)[3] == PieceModel::Words(
            "—"@,
        ),
        sample.process_memory_growth matches Some(rate) ==> detail_line(sample)[3]
            == PieceModel::Rate(rate),
{
}

/// Growth is what the footprint changed by per second, cut to whole bytes towards zero, as
/// far as a counter with a sign goes.
pub proof fn growth_is_of_the_footprint(current: Reading, previous: Reading, rate: i64)
    requires
        growth_between(current, Some(previous)) == Some(rate),
    ensures
        ({
            let elapsed = current.at.nanos - previous.at.nanos;
            let change = (current.footprint - previous.footprint) * 1_000_000_000;
            &&& current.footprint >= previous.footprint ==> {
                &&& rate >= 0
                &&& rate * elapsed <= change
                &&& rate < i64::MAX ==> change < (rate + 1) * elapsed
            }
            &&& current.footprint < previous.footprint ==> {
                &&& rate <= 0
                &&& -rate * elapsed <= -change
                &&& rate > i64::MIN ==> -change < (1 - rate) * elapsed
            }
        }),
{
    let elapsed = (current.at.nanos - previous.at.nanos) as u64;
    let difference: int = if current.footprint >= previous.footprint {
        current.footprint - previous.footprint
    } else {
        previous.footprint - current.footprint
    };
    let n = difference * 1_000_000_000;
    let d = elapsed as int;
    let size = rate_size(current.footprint, previous.footprint, elapsed) as int;
    vstd::arithmetic::div_mod::lemma_fundamental_div_mod(n, d);
    vstd::arithmetic::div_mod::lemma_mod_bound(n, d);
    assert(size == n / d);
    assert(size * d <= n < (size + 1) * d) by (nonlinear_arith)
        requires
            n == d * (n / d) + n % d,
            0 <= n % d < d,
            size == n / d,
    ;
    assert(size > i64::MAX ==> i64::MAX * d <= n && (i64::MAX + 1) * d <= n) by (nonlinear_arith)
        requires
            size * d <= n,
            d > 0,
    ;
}

/// The lines about a process tell its number and its footprint, then its peak and its
/// growth; without a reading, what is known of the runtime, and nothing.
pub proof fn process_lines_tell_the_reading(sample: SampleModel)
    ensures
        sample.process_memory matches Some(reading) ==> {
            &&& summary_line(sample) == seq![
                PieceModel::Words("PROCESS "@ + decimal(reading.pid as nat) + " · footprint "@),
                PieceModel::Size(reading.footprint),
            ]
            &&& detail_line(sample) == seq![
                PieceModel::Words("peak "@),
                PieceModel::Size(reading.peak),
                PieceModel::Words(" · growth "@),
                if sample.process_memory_growth is Some {
                    PieceModel::Rate(sample.process_memory_growth->0)
                } else {
                    PieceModel::Words("—"@)
                },
                PieceModel::Words(" · OS"@),
            ]
        },
        sample.process_memory is None ==> {
            &&& summary_line(sample) == seq![PieceModel::Runtime]
            &&& detail_line(sample) == Seq::<PieceModel>::empty()
        },
{
}

/// A process can be asked about by its number, if that is positive with a sign too.
pub proof fn processes_are_asked_by_their_number(pid: u32)
    ensures
        1 <= pid <= 0x7fff_ffff ==> (asked_pid(pid) matches Some(n) && n == pid),
        pid == 0 || pid > 0x7fff_ffff ==> asked_pid(pid) is None,
{
}

/// The context of a request is its prompt and its output together, where both are known
/// and a counter holds them.
pub proof fn contexts_add_up(sample: SampleModel)
    ensures
        context_tokens(sample) matches Some(n) ==> {
            &&& sample.llm_prompt_tokens is Some
            &&& sample.llm_output_tokens is Some
            &&& n == sample.llm_prompt_tokens->0 + sample.llm_output_tokens->0
        },
        context_tokens(sample) is None ==> sample.llm_prompt_tokens is None
            || sample.llm_output_tokens is None || sample.llm_prompt_tokens->0
            + sample.llm_output_tokens->0 > u64::MAX,
{
}

} // verus!
