//! The file to which clients append what their requests used.
use crate::json::json_document;
use crate::laws::providers::{plausible, reported_usage_is_of_the_past};
use crate::providers::UsageModel;
use crate::recent::newest;
use crate::telemetry::{TelemetryModel, TelemetrySource};
use crate::text::{before_mark, lemma_before_mark, lemma_first_mark};
use crate::time::Timestamp;
use crate::usage_file::{
    file_reading, last_mark, last_reports, latest_record, line_record, line_records,
    record_requests, records_reading, whole_lines, NEWLINE, USAGE_LIMIT,
};
use vstd::prelude::*;

verus! {

proof fn lemma_last_mark(s: Seq<u8>)
    ensures
        -1 <= last_mark(s, NEWLINE) < s.len(),
        last_mark(s, NEWLINE) >= 0 ==> s[last_mark(s, NEWLINE)] == NEWLINE,
        forall|i: int| last_mark(s, NEWLINE) < i < s.len() ==> s[i] != NEWLINE,
    decreases s.len(),
{
    if s.len() > 0 && s.last() != NEWLINE {
        lemma_last_mark(s.drop_last());
        assert forall|i: int| last_mark(s, NEWLINE) < i < s.len() implies s[i] != NEWLINE by {
            if i < s.len() - 1 {
                assert(s.drop_last()[i] == s[i]);
            }
        }
    }
}

proof fn lemma_tail_has_no_mark(s: Seq<u8>, tail: Seq<u8>)
    requires
        forall|i: int| 0 <= i < tail.len() ==> #[trigger] tail[i] != NEWLINE,
    ensures
        last_mark(s + tail, NEWLINE) == last_mark(s, NEWLINE),
    decreases tail.len(),
{
    if tail.len() == 0 {
        assert(s + tail =~= s);
    } else {
        assert((s + tail).drop_last() =~= s + tail.drop_last());
        assert((s + tail).last() == tail[tail.len() - 1]);
        assert forall|i: int| 0 <= i < tail.drop_last().len() implies
            #[trigger] tail.drop_last()[i] != NEWLINE by {
            assert(tail[i] != NEWLINE);
        }
        lemma_tail_has_no_mark(s, tail.drop_last());
    }
}

/// A record that is still being written plays no part: what stands after the last
/// newline does not change what the file says.
pub proof fn unfinished_record_plays_no_part(
    bytes: Seq<u8>,
    tail: Seq<u8>,
    partial: bool,
    provider: Option<Seq<char>>,
    now: Timestamp,
)
    requires
        forall|i: int| 0 <= i < tail.len() ==> #[trigger] tail[i] != NEWLINE,
    ensures
        file_reading(bytes + tail, partial, provider, now) == file_reading(
            bytes,
            partial,
            provider,
            now,
        ),
{
    lemma_tail_has_no_mark(bytes, tail);
    lemma_last_mark(bytes);
    let end = last_mark(bytes, NEWLINE);
    if end >= 0 {
        lemma_before_mark(bytes, NEWLINE);
        let first = before_mark(bytes, NEWLINE) as int;
        if first >= bytes.len() {
            assert(bytes[end] != NEWLINE);
        }
        lemma_first_mark(bytes + tail, NEWLINE, first);
        let start: int = if partial {
            first + 1
        } else {
            0
        };
        if start <= end {
            assert((bytes + tail).subrange(start, end) =~= bytes.subrange(start, end));
        }
        assert(whole_lines(bytes + tail, partial) == whole_lines(bytes, partial));
    }
}

/// A text without a newline holds no record.
pub proof fn one_unfinished_line_says_nothing(
    bytes: Seq<u8>,
    partial: bool,
    provider: Option<Seq<char>>,
    now: Timestamp,
)
    requires
        forall|i: int| 0 <= i < bytes.len() ==> #[trigger] bytes[i] != NEWLINE,
    ensures
        file_reading(bytes, partial, provider, now) is None,
{
    lemma_last_mark(bytes);
    if last_mark(bytes, NEWLINE) >= 0 {
        assert(bytes[last_mark(bytes, NEWLINE)] != NEWLINE);
    }
}

/// Lines are read one by one: the records of some lines followed by others are those
/// of the ones followed by those of the others.
pub proof fn lines_are_read_one_by_one(
    lines: Seq<Seq<u8>>,
    more: Seq<Seq<u8>>,
    provider: Option<Seq<char>>,
    now: Timestamp,
)
    ensures
        line_records(lines + more, provider, now) == line_records(lines, provider, now)
            + line_records(more, provider, now),
    decreases more.len(),
{
    if more.len() == 0 {
        assert(lines + more =~= lines);
        assert(line_records(lines, provider, now) + line_records(more, provider, now)
            =~= line_records(lines, provider, now));
    } else {
        lines_are_read_one_by_one(lines, more.drop_last(), provider, now);
        assert((lines + more).drop_last() =~= lines + more.drop_last());
        assert((lines + more).last() == more.last());
        assert(line_records(lines + more, provider, now) =~= line_records(lines, provider, now)
            + line_records(more, provider, now));
    }
}

/// A line that holds no record of the selected provider changes nothing, wherever it
/// stands.
pub proof fn bad_lines_are_skipped(
    before: Seq<Seq<u8>>,
    line: Seq<u8>,
    after: Seq<Seq<u8>>,
    provider: Option<Seq<char>>,
    now: Timestamp,
)
    requires
        line_record(line, provider, now) is None,
    ensures
        line_records(before.push(line) + after, provider, now) == line_records(
            before + after,
            provider,
            now,
        ),
{
    lines_are_read_one_by_one(before.push(line), after, provider, now);
    lines_are_read_one_by_one(before, after, provider, now);
    assert(before.push(line).drop_last() =~= before);
}

/// A record as a usage file gives it.
pub open spec fn is_report(
    record: TelemetryModel,
    provider: Option<Seq<char>>,
    now: Timestamp,
) -> bool {
    &&& record.source == TelemetrySource::Report
    &&& !record.generation_tps_live
    &&& record.observed_at matches Some(at) && at.nanos <= now.nanos
    &&& record.provider is Some
    &&& provider is Some ==> record.provider == provider
    &&& record.requests.len() == 1
    &&& past_report(record.requests[0], now)
    &&& record.provider == Some(record.requests[0].provider)
}

/// A finished request that was not observed in the future.
pub open spec fn past_report(usage: UsageModel, now: Timestamp) -> bool {
    &&& usage.completed
    &&& plausible(usage)
    &&& usage.observed_at matches Some(at) && at.nanos <= now.nanos
}

proof fn lemma_records(lines: Seq<Seq<u8>>, provider: Option<Seq<char>>, now: Timestamp)
    ensures
        forall|i: int|
            0 <= i < line_records(lines, provider, now).len() ==> is_report(
                #[trigger] line_records(lines, provider, now)[i],
                provider,
                now,
            ),
    decreases lines.len(),
{
    if lines.len() > 0 {
        lemma_records(lines.drop_last(), provider, now);
        if let Some(tree) = json_document(lines.last()) {
            reported_usage_is_of_the_past(tree, now);
        }
        let before = line_records(lines.drop_last(), provider, now);
        let all = line_records(lines, provider, now);
        assert forall|i: int| 0 <= i < all.len() implies is_report(
            #[trigger] all[i],
            provider,
            now,
        ) by {
            if i < before.len() {
                assert(all[i] == before[i]);
            } else {
                assert(Some(all[i]) == line_record(lines.last(), provider, now));
            }
        }
    }
}

proof fn lemma_latest(records: Seq<TelemetryModel>, provider: Option<Seq<char>>, now: Timestamp)
    requires
        forall|i: int| 0 <= i < records.len() ==> is_report(#[trigger] records[i], provider, now),
    ensures
        latest_record(records) is Some <==> records.len() > 0,
        latest_record(records) matches Some(latest) ==> is_report(latest, provider, now)
            && forall|i: int|
            0 <= i < records.len() ==> (#[trigger] records[i]).observed_at->0.nanos
                <= latest.observed_at->0.nanos,
    decreases records.len(),
{
    if records.len() > 0 {
        let earlier = records.drop_last();
        assert forall|i: int| 0 <= i < earlier.len() implies is_report(
            #[trigger] earlier[i],
            provider,
            now,
        ) by {
            assert(is_report(records[i], provider, now));
        }
        lemma_latest(earlier, provider, now);
        assert(is_report(records[records.len() - 1], provider, now));
        let latest = latest_record(records)->0;
        assert forall|i: int| 0 <= i < records.len() implies (
        #[trigger] records[i]).observed_at->0.nanos <= latest.observed_at->0.nanos by {
            if i < earlier.len() {
                assert(earlier[i] == records[i]);
            }
        }
    }
}

proof fn lemma_requests(records: Seq<TelemetryModel>, provider: Option<Seq<char>>, now: Timestamp)
    requires
        forall|i: int| 0 <= i < records.len() ==> is_report(#[trigger] records[i], provider, now),
    ensures
        forall|i: int|
            0 <= i < record_requests(records).len() ==> past_report(
                #[trigger] record_requests(records)[i],
                now,
            ),
    decreases records.len(),
{
    if records.len() > 0 {
        let earlier = records.drop_last();
        assert forall|i: int| 0 <= i < earlier.len() implies is_report(
            #[trigger] earlier[i],
            provider,
            now,
        ) by {
            assert(is_report(records[i], provider, now));
        }
        lemma_requests(earlier, provider, now);
        assert(is_report(records[records.len() - 1], provider, now));
        let all = record_requests(records);
        let before = record_requests(earlier);
        assert forall|i: int| 0 <= i < all.len() implies past_report(#[trigger] all[i], now) by {
            if i < before.len() {
                assert(all[i] == before[i]);
            } else {
                assert(all[i] == records.last().requests[i - before.len()]);
            }
        }
    }
}

/// The last reports of one provider are reports of different requests of that
/// provider.
pub proof fn last_reports_differ(
    requests: Seq<UsageModel>,
    provider: Option<Seq<char>>,
)
    ensures
        forall|i: int|
            0 <= i < last_reports(requests, provider).len() ==> Some(
                (#[trigger] last_reports(requests, provider)[i]).provider,
            ) == provider && requests.contains(last_reports(requests, provider)[i]),
        forall|i: int, j: int|
            0 <= i < j < last_reports(requests, provider).len() ==> !(#[trigger] last_reports(
                requests,
                provider,
            )[i]).same(#[trigger] last_reports(requests, provider)[j]),
    decreases requests.len(),
{
    if requests.len() > 0 {
        let rest = requests.drop_first();
        last_reports_differ(rest, provider);
        let late = last_reports(rest, provider);
        let all = last_reports(requests, provider);
        let added: int = all.len() - late.len();
        assert forall|i: int| 0 <= i < all.len() implies Some((#[trigger] all[i]).provider)
            == provider && requests.contains(all[i]) by {
            if i < added {
                assert(requests[0] == all[i]);
            } else {
                assert(all[i] == late[i - added]);
                assert(rest.contains(late[i - added]));
                let k = choose|k: int| 0 <= k < rest.len() && rest[k] == late[i - added];
                assert(requests[k + 1] == all[i]);
            }
        }
        assert forall|i: int, j: int| 0 <= i < j < all.len() implies !(#[trigger] all[i]).same(
            #[trigger] all[j],
        ) by {
            assert(all[j] == late[j - added]);
            if i < added {
                assert(!late[j - added].same(requests[0]));
            } else {
                assert(all[i] == late[i - added]);
            }
        }
    }
}

/// Of every request of the provider, its last report is among the last reports.
pub proof fn last_reports_are_complete(
    requests: Seq<UsageModel>,
    provider: Option<Seq<char>>,
    i: int,
)
    requires
        0 <= i < requests.len(),
        Some(requests[i].provider) == provider,
        forall|j: int| i < j < requests.len() ==> !(#[trigger] requests[j]).same(requests[i]),
    ensures
        last_reports(requests, provider).contains(requests[i]),
    decreases requests.len(),
{
    let rest = requests.drop_first();
    let late = last_reports(rest, provider);
    let all = last_reports(requests, provider);
    last_reports_differ(rest, provider);
    if i == 0 {
        assert forall|k: int| 0 <= k < late.len() implies !(#[trigger] late[k]).same(
            requests[0],
        ) by {
            assert(rest.contains(late[k]));
            let j = choose|j: int| 0 <= j < rest.len() && rest[j] == late[k];
            assert(!requests[j + 1].same(requests[0]));
        }
        assert(all[0] == requests[0]);
    } else {
        assert forall|j: int| i - 1 < j < rest.len() implies !(#[trigger] rest[j]).same(
            rest[i - 1],
        ) by {
            assert(!requests[j + 1].same(requests[i]));
        }
        last_reports_are_complete(rest, provider, i - 1);
        let k = choose|k: int| 0 <= k < late.len() && late[k] == rest[i - 1];
        assert(all[k + all.len() - late.len()] == requests[i]);
    }
}

/// What a usage file says is of the past: a report of the selected provider, at the
/// latest time of its records, with finished requests of that provider, each only once
/// and at most as many as the limit.
pub proof fn file_tells_of_the_past(
    bytes: Seq<u8>,
    partial: bool,
    provider: Option<Seq<char>>,
    now: Timestamp,
)
    ensures
        file_reading(bytes, partial, provider, now) matches Some(reading) ==> {
            &&& reading.source == TelemetrySource::Report
            &&& !reading.generation_tps_live
            &&& reading.observed_at matches Some(at) && at.nanos <= now.nanos
            &&& provider is Some ==> reading.provider == provider
            &&& reading.requests.len() <= USAGE_LIMIT
            &&& forall|i: int|
                0 <= i < reading.requests.len() ==> past_report(
                    #[trigger] reading.requests[i],
                    now,
                ) && Some(reading.requests[i].provider) == reading.provider
            &&& forall|i: int, j: int|
                0 <= i < j < reading.requests.len() ==> !(#[trigger] reading.requests[i]).same(
                    #[trigger] reading.requests[j],
                )
        },
{
    if let Some(lines) = whole_lines(bytes, partial) {
        let records = line_records(lines, provider, now);
        lemma_records(lines, provider, now);
        lemma_latest(records, provider, now);
        lemma_requests(records, provider, now);
        if let Some(latest) = latest_record(records) {
            let requests = record_requests(records);
            let all = last_reports(requests, latest.provider);
            last_reports_differ(requests, latest.provider);
            let kept = newest(all, USAGE_LIMIT as nat);
            let dropped = all.len() - kept.len();
            assert forall|i: int| 0 <= i < kept.len() implies past_report(#[trigger] kept[i], now)
                && Some(kept[i].provider) == latest.provider by {
                assert(kept[i] == all[dropped + i]);
                assert(requests.contains(all[dropped + i]));
                let k = choose|k: int| 0 <= k < requests.len() && requests[k] == kept[i];
                assert(past_report(requests[k], now));
            }
            assert forall|i: int, j: int| 0 <= i < j < kept.len() implies !(
            #[trigger] kept[i]).same(#[trigger] kept[j]) by {
                assert(!all[dropped + i].same(all[dropped + j]));
            }
        }
    }
}

/// The file's reading is that of its latest record: no other record is later.
pub proof fn latest_record_is_latest(
    lines: Seq<Seq<u8>>,
    provider: Option<Seq<char>>,
    now: Timestamp,
)
    ensures
        records_reading(line_records(lines, provider, now)) is Some <==> line_records(
            lines,
            provider,
            now,
        ).len() > 0,
        records_reading(line_records(lines, provider, now)) matches Some(reading) ==> forall|
            i: int,
        |
            0 <= i < line_records(lines, provider, now).len() ==> (#[trigger] line_records(
                lines,
                provider,
                now,
            )[i]).observed_at->0.nanos <= reading.observed_at->0.nanos,
{
    lemma_records(lines, provider, now);
    lemma_latest(line_records(lines, provider, now), provider, now);
}

} // verus!
