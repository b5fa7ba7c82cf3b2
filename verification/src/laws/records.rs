//! What the usage file says, line by line and record by record.
use crate::json::json_document;
use crate::laws::providers::reported_usage_is_of_the_past;
use crate::laws::text::{pieces_are_added_last, pieces_are_parted_by_marks};
use crate::providers::{reported_usage, UsageModel};
use crate::telemetry::TelemetryModel;
use crate::text::lemma_first_mark;
use crate::time::Timestamp;
use crate::usage_file::{
    file_offset, file_reading, last_mark, last_reports, latest_record, line_record, line_records,
    record_requests, records_reading, whole_lines,
};
use vstd::prelude::*;

verus! {

/// Of a file only the last 262144 bytes are read.
pub proof fn files_are_read_at_their_end(len: u64)
    ensures
        len <= 262_144 ==> file_offset(len) == 0,
        len > 262_144 ==> file_offset(len) + 262_144 == len,
{
}

/// A record that is appended to a file, with a newline after it, is one more line.
pub proof fn appended_lines_are_read_last(bytes: Seq<u8>, line: Seq<u8>)
    requires
        forall|i: int| 0 <= i < line.len() ==> #[trigger] line[i] != 10,
        bytes.len() > 0 ==> bytes.last() == 10,
    ensures
        bytes.len() == 0 ==> whole_lines(line.push(10), false) == Some(seq![line]),
        bytes.len() > 0 ==> (whole_lines(bytes, false) matches Some(lines) && whole_lines(
            bytes + line.push(10),
            false,
        ) == Some(lines.push(line))),
        whole_lines(Seq::empty(), false) is None,
{
    assert(line.push(10).last() == 10);
    assert(line.push(10).subrange(0, line.len() as int) =~= line);
    pieces_are_parted_by_marks(line, 10u8, Seq::empty());
    if bytes.len() > 0 {
        let before = bytes.drop_last();
        let all = bytes + line.push(10);
        assert(bytes.subrange(0, bytes.len() - 1) =~= before);
        assert(all.last() == 10);
        assert(all.subrange(0, all.len() - 1) =~= before.push(10) + line);
        pieces_are_added_last(before, 10u8, line);
    }
}

/// What is left of the first line plays no part where the reading began after the start of
/// the file.
pub proof fn cut_lines_are_left_out(head: Seq<u8>, rest: Seq<u8>)
    requires
        forall|i: int| 0 <= i < head.len() ==> #[trigger] head[i] != 10,
    ensures
        whole_lines(head.push(10) + rest, true) == whole_lines(rest, false),
        whole_lines(head, true) is None,
{
    let s = head.push(10) + rest;
    assert forall|i: int| 0 <= i < head.len() implies s[i] != 10 by {
        assert(s[i] == head[i]);
    }
    lemma_first_mark(s, 10u8, head.len() as int);
    lemma_last(rest);
    lemma_last(s);
    lemma_last(head);
    let n = head.len() as int + 1;
    let end = last_mark(s, 10u8);
    let tail = last_mark(rest, 10u8);
    assert(s[head.len() as int] == 10);
    if tail >= 0 {
        assert(s[n + tail] == 10);
        assert(end == n + tail) by {
            if end > n + tail {
                assert(rest[end - n] == s[end]);
            }
        }
        assert(s.subrange(n, end) =~= rest.subrange(0, tail));
    } else {
        assert(end == head.len()) by {
            if end > head.len() {
                assert(rest[end - n] == s[end]);
            }
        }
    }
    if last_mark(head, 10u8) >= 0 {
        assert(head[last_mark(head, 10u8)] != 10);
    }
}

proof fn lemma_last(s: Seq<u8>)
    ensures
        -1 <= last_mark(s, 10u8) < s.len(),
        last_mark(s, 10u8) >= 0 ==> s[last_mark(s, 10u8)] == 10,
        forall|i: int| last_mark(s, 10u8) < i < s.len() ==> s[i] != 10,
    decreases s.len(),
{
    if s.len() > 0 && s.last() != 10 {
        lemma_last(s.drop_last());
        assert forall|i: int| last_mark(s, 10u8) < i < s.len() implies s[i] != 10 by {
            if i < s.len() - 1 {
                assert(s.drop_last()[i] == s[i]);
            }
        }
    }
}

/// A line gives a record exactly if it holds a document that is one, of the provider that
/// was asked for, if one was.
pub proof fn lines_hold_records(line: Seq<u8>, provider: Option<Seq<char>>, now: Timestamp)
    ensures
        line_record(line, provider, now) is Some <==> {
            &&& json_document(line) matches Some(tree)
            &&& reported_usage(tree, now) matches Some(record)
            &&& provider is None || record.provider == provider
        },
        line_record(line, provider, now) matches Some(record) ==> reported_usage(
            json_document(line)->0,
            now,
        ) == Some(record),
{
}

/// Records follow one another as their lines do, and their requests as they do.
pub proof fn records_follow_their_lines(
    lines: Seq<Seq<u8>>,
    line: Seq<u8>,
    provider: Option<Seq<char>>,
    records: Seq<TelemetryModel>,
    record: TelemetryModel,
    now: Timestamp,
)
    ensures
        line_records(Seq::empty(), provider, now) == Seq::<TelemetryModel>::empty(),
        line_records(lines.push(line), provider, now) == (match line_record(line, provider, now) {
            Some(found) => line_records(lines, provider, now).push(found),
            None => line_records(lines, provider, now),
        }),
        record_requests(Seq::empty()) == Seq::<UsageModel>::empty(),
        record_requests(records.push(record)) == record_requests(records) + record.requests,
{
    assert(lines.push(line).drop_last() =~= lines);
    assert(records.push(record).drop_last() =~= records);
}

/// Whether all of some records were observed at a time.
pub open spec fn all_timed(records: Seq<TelemetryModel>) -> bool {
    forall|i: int| 0 <= i < records.len() ==> (#[trigger] records[i]).observed_at is Some
}

/// A record that is not earlier than those before it takes their place as the latest; one
/// that is earlier than one of them changes nothing.
pub proof fn later_records_take_the_place(
    records: Seq<TelemetryModel>,
    record: TelemetryModel,
    i: int,
)
    requires
        all_timed(records),
        record.observed_at is Some,
    ensures
        (forall|k: int|
            0 <= k < records.len() ==> (#[trigger] records[k]).observed_at->0.nanos
                <= record.observed_at->0.nanos) ==> latest_record(records.push(record)) == Some(
            record,
        ),
        0 <= i < records.len() && records[i].observed_at->0.nanos > record.observed_at->0.nanos
            ==> latest_record(records.push(record)) == latest_record(records),
        latest_record(Seq::empty()) is None,
{
    assert(records.push(record).drop_last() =~= records);
    lemma_latest_bound(records);
}

proof fn lemma_latest_bound(records: Seq<TelemetryModel>)
    requires
        all_timed(records),
    ensures
        records.len() > 0 <==> latest_record(records) is Some,
        latest_record(records) matches Some(latest) ==> {
            &&& latest.observed_at is Some
            &&& records.contains(latest)
            &&& forall|k: int|
                0 <= k < records.len() ==> (#[trigger] records[k]).observed_at->0.nanos
                    <= latest.observed_at->0.nanos
        },
    decreases records.len(),
{
    if records.len() > 0 {
        let earlier = records.drop_last();
        assert forall|k: int| 0 <= k < earlier.len() implies (
        #[trigger] earlier[k]).observed_at is Some by {
            assert(earlier[k] == records[k]);
        }
        lemma_latest_bound(earlier);
        assert(records[records.len() - 1].observed_at is Some);
        let latest = latest_record(records)->0;
        assert(records.contains(latest)) by {
            if latest == records.last() {
                assert(records[records.len() - 1] == latest);
            } else {
                let k = choose|k: int| 0 <= k < earlier.len() && earlier[k] == latest;
                assert(records[k] == latest);
            }
        }
        assert forall|k: int| 0 <= k < records.len() implies (
        #[trigger] records[k]).observed_at->0.nanos <= latest.observed_at->0.nanos by {
            if k < earlier.len() {
                assert(earlier[k] == records[k]);
            }
        }
    }
}

/// The requests that are not the given one.
pub open spec fn others(request: UsageModel) -> spec_fn(UsageModel) -> bool {
    |other: UsageModel|
        other.id != request.id || other.provider != request.provider || other.model
            != request.model
}

proof fn lemma_filter_front(first: UsageModel, rest: Seq<UsageModel>, p: spec_fn(UsageModel) -> bool)
    ensures
        (seq![first] + rest).filter(p) == if p(first) {
            seq![first] + rest.filter(p)
        } else {
            rest.filter(p)
        },
{
    let one = seq![first];
    let none = Seq::<UsageModel>::empty();
    Seq::filter_distributes_over_add(one, rest, p);
    none.lemma_filter_push(first, p);
    assert(none.push(first) =~= one);
    assert(none.filter(p) =~= none);
    assert(one.filter(p) =~= if p(first) {
        one
    } else {
        none
    });
    assert(none + rest.filter(p) =~= rest.filter(p));
}

/// A report takes the place of the earlier ones of the same request: it comes last, and
/// what was reported of others stays in its order. Reports of other providers are left out.
pub proof fn later_reports_replace_earlier_ones(
    requests: Seq<UsageModel>,
    request: UsageModel,
    provider: Option<Seq<char>>,
)
    ensures
        last_reports(Seq::empty(), provider) == Seq::<UsageModel>::empty(),
        Some(request.provider) == provider ==> last_reports(requests.push(request), provider)
            == last_reports(requests, provider).filter(others(request)).push(request),
        Some(request.provider) != provider ==> last_reports(requests.push(request), provider)
            == last_reports(requests, provider),
    decreases requests.len(),
{
    let p = others(request);
    let all = requests.push(request);
    if requests.len() == 0 {
        assert(all.drop_first() =~= Seq::empty());
        let none = last_reports(all.drop_first(), provider);
        assert(none =~= Seq::empty());
        let reports = last_reports(requests, provider);
        assert(reports =~= Seq::empty());
        assert(reports.filter(p) =~= Seq::empty());
        if Some(request.provider) == provider {
            assert(last_reports(all, provider) =~= reports.filter(p).push(request));
        }
    } else {
        let first = requests[0];
        let rest = requests.drop_first();
        later_reports_replace_earlier_ones(rest, request, provider);
        assert(all.drop_first() =~= rest.push(request));
        assert(all[0] == first);
        let old = last_reports(rest, provider);
        let new = last_reports(rest.push(request), provider);
        let kept = Some(first.provider) == provider && !exists|k: int|
            0 <= k < old.len() && (#[trigger] old[k]).same(first);
        let still = Some(first.provider) == provider && !exists|k: int|
            0 <= k < new.len() && (#[trigger] new[k]).same(first);
        if Some(request.provider) == provider {
            broadcast use vstd::seq_lib::group_filter_ensures;

            let left = old.filter(p);
            lemma_filter_front(first, old, p);
            if !p(first) {
                assert(new[new.len() - 1] == request);
                assert(request.same(first));
                assert(!still);
                assert(last_reports(requests, provider).filter(p) =~= left);
            } else {
                assert(kept == still) by {
                    if exists|k: int| 0 <= k < old.len() && (#[trigger] old[k]).same(first) {
                        let k = choose|k: int| 0 <= k < old.len() && (#[trigger] old[k]).same(first);
                        assert(p(old[k]));
                        assert(left.contains(old[k]));
                        let j = choose|j: int| 0 <= j < left.len() && left[j] == old[k];
                        assert(new[j].same(first));
                    }
                    if exists|k: int| 0 <= k < new.len() && (#[trigger] new[k]).same(first) {
                        let k = choose|k: int| 0 <= k < new.len() && (#[trigger] new[k]).same(first);
                        assert(k < left.len());
                        assert(left[k] == new[k]);
                        assert(left.contains(left[k]));
                        old.lemma_filter_contains_rev(p, left[k]);
                        let j = choose|j: int| 0 <= j < old.len() && old[j] == left[k];
                        assert(old[j].same(first));
                    }
                }
                if kept {
                    assert(seq![first] + left.push(request) =~= (seq![first] + left).push(
                        request,
                    ));
                }
            }
        }
    }
}

/// What records say together is what the latest one says, with the last 128 of the last
/// reports of its provider as the requests.
pub proof fn records_say_what_the_latest_says(records: Seq<TelemetryModel>)
    ensures
        records_reading(records) is Some <==> latest_record(records) is Some,
        records_reading(records) matches Some(reading) ==> {
            let latest = latest_record(records)->0;
            let all = last_reports(record_requests(records), latest.provider);
            &&& reading == (TelemetryModel { requests: reading.requests, ..latest })
            &&& all.len() <= 128 ==> reading.requests == all
            &&& all.len() > 128 ==> reading.requests == all.skip(all.len() - 128)
        },
{
}

/// A file says what the records on its lines say together; without a line it says nothing.
pub proof fn files_say_what_their_records_say(
    bytes: Seq<u8>,
    partial: bool,
    provider: Option<Seq<char>>,
    now: Timestamp,
)
    ensures
        whole_lines(bytes, partial) is None ==> file_reading(bytes, partial, provider, now) is None,
        whole_lines(bytes, partial) matches Some(lines) ==> file_reading(
            bytes,
            partial,
            provider,
            now,
        ) == records_reading(line_records(lines, provider, now)),
{
}

/// A file of one record says what that record says.
pub proof fn one_record_speaks_for_itself(
    line: Seq<u8>,
    provider: Option<Seq<char>>,
    now: Timestamp,
    record: TelemetryModel,
)
    requires
        forall|i: int| 0 <= i < line.len() ==> #[trigger] line[i] != 10,
        json_document(line) is Some,
        reported_usage(json_document(line)->0, now) == Some(record),
        provider is None || record.provider == provider,
    ensures
        file_reading(line.push(10), false, provider, now) == Some(record),
{
    appended_lines_are_read_last(Seq::empty(), line);
    let lines = seq![line];
    let empty = Seq::<Seq<u8>>::empty();
    records_follow_their_lines(empty, line, provider, Seq::empty(), record, now);
    assert(empty.push(line) =~= lines);
    let records = seq![record];
    assert(Seq::<TelemetryModel>::empty().push(record) =~= records);
    reported_usage_is_of_the_past(json_document(line)->0, now);
    later_records_take_the_place(Seq::empty(), record, 0);
    let request = record.requests[0];
    let requests = seq![request];
    assert(record.requests =~= requests);
    assert(record_requests(records) =~= requests);
    later_reports_replace_earlier_ones(Seq::empty(), request, record.provider);
    let none = Seq::<UsageModel>::empty();
    assert(none.push(request) =~= requests);
    assert(none.filter(others(request)) =~= none);
    assert(last_reports(requests, record.provider) =~= requests);
    assert(records_reading(records)->0 =~= record);
}

} // verus!
