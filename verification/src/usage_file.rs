//! The optional file to which clients append what their requests used.
use crate::json::{json_document, Json, DOCUMENT_LIMIT};
use crate::providers::{
    parse_usage, reported_usage, same_request, RequestUsage, UsageModel,
};
use crate::recent::newest;
use crate::telemetry::{copy_requests, LlmTelemetry, TelemetryModel};
use crate::text::{before_mark, lemma_first_mark, piece_bounds, pieces, same_optional};
use crate::time::Timestamp;
use vstd::prelude::*;
use vstd::slice::slice_subrange;

verus! {

/// How much of the end of the file is read.
pub const MAX_USAGE_BYTES: u64 = 262_144;

/// How many requests are kept of the file.
pub const USAGE_LIMIT: usize = 128;

/// The byte at which a record ends.
pub const NEWLINE: u8 = 10;

/// What was read of the file.
#[derive(Debug)]
pub struct UsageFile {
    pub bytes: Vec<u8>,
    /// Whether the reading began after the start of the file, so that the first
    /// line may be the rest of a longer one.
    pub partial: bool,
}

/// Where to begin reading a file of this length.
pub open spec fn file_offset(len: u64) -> int {
    if len > MAX_USAGE_BYTES {
        len - MAX_USAGE_BYTES
    } else {
        0
    }
}

/// Where to begin reading a file of this length.
pub fn usage_offset(len: u64) -> (r: u64)
    ensures
        r == file_offset(len),
{
    len.saturating_sub(MAX_USAGE_BYTES)
}

/// The place of the last `mark`; minus one, if there is none.
pub open spec fn last_mark<T>(s: Seq<T>, mark: T) -> int
    decreases s.len(),
{
    if s.len() == 0 {
        -1
    } else if s.last() == mark {
        s.len() - 1
    } else {
        last_mark(s.drop_last(), mark)
    }
}

/// The complete lines of what was read. Only a line that ends in a newline is
/// complete, and the first line of a partial reading is not.
pub open spec fn whole_lines(bytes: Seq<u8>, partial: bool) -> Option<Seq<Seq<u8>>> {
    let end = last_mark(bytes, NEWLINE);
    let start: int = if partial {
        before_mark(bytes, NEWLINE) as int + 1
    } else {
        0
    };
    if end < 0 || start > end {
        None
    } else {
        Some(pieces(bytes.subrange(start, end), NEWLINE))
    }
}

/// The record that a line holds, if it is one of the selected provider.
pub open spec fn line_record(
    line: Seq<u8>,
    provider: Option<Seq<char>>,
    now: Timestamp,
) -> Option<TelemetryModel> {
    match json_document(line) {
        Some(tree) => match reported_usage(tree, now) {
            Some(record) => if provider is Some && record.provider != provider {
                None
            } else {
                Some(record)
            },
            None => None,
        },
        None => None,
    }
}

/// The records that some lines hold, in their order.
pub open spec fn line_records(
    lines: Seq<Seq<u8>>,
    provider: Option<Seq<char>>,
    now: Timestamp,
) -> Seq<TelemetryModel>
    decreases lines.len(),
{
    if lines.len() == 0 {
        Seq::empty()
    } else {
        let before = line_records(lines.drop_last(), provider, now);
        match line_record(lines.last(), provider, now) {
            Some(record) => before.push(record),
            None => before,
        }
    }
}

/// Whether the first of two optional times is the same or later.
pub open spec fn not_before(a: Option<Timestamp>, b: Option<Timestamp>) -> bool {
    match (a, b) {
        (Some(a), Some(b)) => a.nanos >= b.nanos,
        (None, Some(_)) => false,
        _ => true,
    }
}

/// The record with the latest time; of equal ones, the last.
pub open spec fn latest_record(records: Seq<TelemetryModel>) -> Option<TelemetryModel>
    decreases records.len(),
{
    if records.len() == 0 {
        None
    } else {
        match latest_record(records.drop_last()) {
            Some(old) => if not_before(records.last().observed_at, old.observed_at) {
                Some(records.last())
            } else {
                Some(old)
            },
            None => Some(records.last()),
        }
    }
}

/// The requests of some records, in their order.
pub open spec fn record_requests(records: Seq<TelemetryModel>) -> Seq<UsageModel>
    decreases records.len(),
{
    if records.len() == 0 {
        Seq::empty()
    } else {
        record_requests(records.drop_last()) + records.last().requests
    }
}

/// The requests of one provider, each only as it was reported last.
pub open spec fn last_reports(requests: Seq<UsageModel>, provider: Option<Seq<char>>) -> Seq<
    UsageModel,
>
    decreases requests.len(),
{
    if requests.len() == 0 {
        Seq::empty()
    } else {
        let rest = last_reports(requests.drop_first(), provider);
        if Some(requests[0].provider) == provider && !exists|k: int|
            0 <= k < rest.len() && (#[trigger] rest[k]).same(requests[0]) {
            seq![requests[0]] + rest
        } else {
            rest
        }
    }
}

/// What some records say together: the latest one, with the newest requests of
/// its provider.
pub open spec fn records_reading(records: Seq<TelemetryModel>) -> Option<TelemetryModel> {
    match latest_record(records) {
        Some(latest) => Some(
            TelemetryModel {
                requests: newest(
                    last_reports(record_requests(records), latest.provider),
                    USAGE_LIMIT as nat,
                ),
                ..latest
            },
        ),
        None => None,
    }
}

/// What the file says at the time `now`.
pub open spec fn file_reading(
    bytes: Seq<u8>,
    partial: bool,
    provider: Option<Seq<char>>,
    now: Timestamp,
) -> Option<TelemetryModel> {
    match whole_lines(bytes, partial) {
        Some(lines) => records_reading(line_records(lines, provider, now)),
        None => None,
    }
}

fn find_last_newline(bytes: &Vec<u8>) -> (r: Option<usize>)
    ensures
        match r {
            Some(i) => i < bytes@.len() && last_mark(bytes@, NEWLINE) == i,
            None => last_mark(bytes@, NEWLINE) == -1,
        },
{
    let mut i = bytes.len();
    assert(bytes@.take(i as int) =~= bytes@);
    while i > 0
        invariant
            i <= bytes@.len(),
            last_mark(bytes@, NEWLINE) == last_mark(bytes@.take(i as int), NEWLINE),
        decreases i,
    {
        assert(bytes@.take(i as int).drop_last() =~= bytes@.take(i - 1));
        i -= 1;
        if bytes[i] == NEWLINE {
            return Some(i);
        }
    }
    None
}

fn find_first_newline(bytes: &Vec<u8>) -> (r: usize)
    ensures
        r == before_mark(bytes@, NEWLINE),
        r <= bytes@.len(),
{
    let mut i: usize = 0;
    while i < bytes.len() && bytes[i] != NEWLINE
        invariant
            i <= bytes@.len(),
            forall|k: int| 0 <= k < i ==> bytes@[k] != NEWLINE,
        ensures
            i < bytes@.len() ==> bytes@[i as int] == NEWLINE,
        decreases bytes@.len() - i,
    {
        i += 1;
    }
    proof {
        lemma_first_mark(bytes@, NEWLINE, i as int);
    }
    i
}

fn read_line(bytes: &[u8], provider: &Option<String>, now: Timestamp) -> (r: Option<LlmTelemetry>)
    requires
        bytes@.len() <= DOCUMENT_LIMIT,
    ensures
        r.deep_view() == line_record(bytes@, provider.deep_view(), now),
{
    let record = match Json::parse(bytes) {
        Some(json) => match parse_usage(&json, now) {
            Some(record) => record,
            None => return None,
        },
        None => return None,
    };
    if provider.is_some() && !same_optional(&record.provider, provider) {
        None
    } else {
        Some(record)
    }
}

fn is_not_before(a: Option<Timestamp>, b: Option<Timestamp>) -> (r: bool)
    ensures
        r == not_before(a, b),
{
    match (a, b) {
        (Some(a), Some(b)) => a.nanos >= b.nanos,
        (None, Some(_)) => false,
        _ => true,
    }
}

/// The last reports end in the last reports of the later requests.
proof fn lemma_later_reports(requests: Seq<UsageModel>, provider: Option<Seq<char>>, i: int)
    requires
        0 <= i <= requests.len(),
    ensures
        last_reports(requests.skip(i), provider).len() <= last_reports(requests, provider).len(),
        last_reports(requests, provider).skip(
            last_reports(requests, provider).len() - last_reports(
                requests.skip(i),
                provider,
            ).len(),
        ) == last_reports(requests.skip(i), provider),
    decreases i,
{
    let all = last_reports(requests, provider);
    if i == 0 {
        assert(requests.skip(0) =~= requests);
        assert(all.skip(0) =~= all);
    } else {
        let rest = requests.drop_first();
        lemma_later_reports(rest, provider, i - 1);
        assert(rest.skip(i - 1) =~= requests.skip(i));
        let late = last_reports(requests.skip(i), provider);
        assert(all.skip(all.len() - late.len()) =~= late);
    }
}

/// The newest requests of one provider, each only as it was reported last.
fn newest_reports(requests: Vec<RequestUsage>, provider: &Option<String>) -> (r: Vec<RequestUsage>)
    ensures
        r.deep_view() == newest(
            last_reports(requests.deep_view(), provider.deep_view()),
            USAGE_LIMIT as nat,
        ),
{
    let ghost all = requests.deep_view();
    let ghost p = provider.deep_view();
    let mut rest = requests;
    let mut kept: Vec<RequestUsage> = Vec::new();
    let ghost mut late = Seq::<UsageModel>::empty();
    assert(all.skip(all.len() as int) =~= Seq::empty());
    while rest.len() > 0 && kept.len() < USAGE_LIMIT
        invariant
            rest@.len() <= all.len(),
            rest.deep_view() == all.take(rest@.len() as int),
            late == last_reports(all.skip(rest@.len() as int), p),
            kept@.len() == late.len(),
            kept@.len() <= USAGE_LIMIT,
            forall|k: int|
                0 <= k < late.len() ==> (#[trigger] kept@[k]).deep_view() == late[late.len() - 1
                    - k],
            p == provider.deep_view(),
        decreases rest@.len(),
    {
        let ghost n = rest@.len() - 1;
        assert(rest.deep_view()[n] == all[n]);
        let request = rest.pop().unwrap();
        assert(request.deep_view() == all[n]);
        assert(rest.deep_view() =~= all.take(n));
        let ghost before = late;
        proof {
            assert(all.skip(n).drop_first() =~= all.skip(n + 1));
            assert(all.skip(n)[0] == all[n]);
            late = last_reports(all.skip(n), p);
        }
        let wanted = match provider {
            Some(name) => *name == request.provider,
            None => false,
        };
        if !wanted {
            continue;
        }
        let mut known = false;
        let mut k: usize = 0;
        while k < kept.len() && !known
            invariant
                k <= kept@.len(),
                kept@.len() == before.len(),
                forall|j: int|
                    0 <= j < before.len() ==> (#[trigger] kept@[j]).deep_view()
                        == before[before.len() - 1 - j],
                known ==> exists|j: int|
                    0 <= j < before.len() && (#[trigger] before[j]).same(request.deep_view()),
                !known ==> forall|j: int|
                    0 <= j < k ==> !(#[trigger] kept@[j]).deep_view().same(request.deep_view()),
            decreases kept@.len() - k + if known {
                0int
            } else {
                1
            },
        {
            if same_request(&kept[k], &request) {
                known = true;
                assert(before[before.len() - 1 - k].same(request.deep_view()));
            } else {
                k += 1;
            }
        }
        if known {
            continue;
        }
        proof {
            assert forall|j: int| 0 <= j < before.len() implies !(#[trigger] before[j]).same(
                request.deep_view(),
            ) by {
                assert(kept@[before.len() - 1 - j].deep_view() == before[j]);
            }
            assert(late =~= seq![all[n]] + before);
        }
        kept.push(request);
        assert forall|j: int| 0 <= j < late.len() implies (#[trigger] kept@[j]).deep_view()
            == late[late.len() - 1 - j] by {
            if j < before.len() {
                assert(late[late.len() - 1 - j] == before[before.len() - 1 - j]);
            }
        }
    }
    proof {
        lemma_later_reports(all, p, rest@.len() as int);
        if rest@.len() == 0 {
            assert(all.skip(0) =~= all);
        }
        assert(late =~= newest(last_reports(all, p), USAGE_LIMIT as nat));
    }
    let mut out: Vec<RequestUsage> = Vec::new();
    while kept.len() > 0
        invariant
            kept@.len() + out@.len() == late.len(),
            forall|k: int|
                0 <= k < kept@.len() ==> (#[trigger] kept@[k]).deep_view() == late[late.len() - 1
                    - k],
            forall|k: int| 0 <= k < out@.len() ==> (#[trigger] out@[k]).deep_view() == late[k],
        decreases kept@.len(),
    {
        let request = kept.pop().unwrap();
        out.push(request);
    }
    assert(out.deep_view() =~= late);
    out
}

/// What some records say together.
pub fn gather_records(records: Vec<LlmTelemetry>) -> (r: Option<LlmTelemetry>)
    ensures
        r.deep_view() == records_reading(records.deep_view()),
{
    let ghost all = records.deep_view();
    let mut latest: Option<LlmTelemetry> = None;
    let mut requests: Vec<RequestUsage> = Vec::new();
    assert(requests.deep_view() =~= Seq::empty());
    assert(all.take(0) =~= Seq::empty());
    for record in it: records
        invariant
            all.len() == it.seq().len(),
            forall|k: int|
                0 <= k < all.len() ==> #[trigger] all[k] == it.seq()[k].deep_view(),
            latest.deep_view() == latest_record(all.take(it.index())),
            requests.deep_view() == record_requests(all.take(it.index())),
    {
        let ghost i = it.index();
        proof {
            assert(all.take(i + 1).drop_last() =~= all.take(i));
            assert(all.take(i + 1).last() == record.deep_view());
        }
        let ghost earlier = requests.deep_view();
        let mut copies = copy_requests(&record.requests);
        requests.append(&mut copies);
        assert(requests.deep_view() =~= earlier + record.deep_view().requests);
        let later = match &latest {
            Some(old) => is_not_before(record.observed_at, old.observed_at),
            None => true,
        };
        if later {
            latest = Some(record);
        }
    }
    assert(all.take(all.len() as int) =~= all);
    let mut latest = match latest {
        Some(latest) => latest,
        None => return None,
    };
    latest.requests = newest_reports(requests, &latest.provider);
    Some(latest)
}

/// Where the complete lines of what was read begin and end.
pub fn line_bounds(file: &UsageFile) -> (r: Option<Vec<(usize, usize)>>)
    ensures
        match r {
            Some(bounds) => match whole_lines(file.bytes@, file.partial) {
                Some(lines) => {
                    &&& bounds@.len() == lines.len()
                    &&& forall|k: int|
                        0 <= k < lines.len() ==> (#[trigger] bounds@[k]).0 <= bounds@[k].1
                            <= file.bytes@.len() && file.bytes@.subrange(
                            bounds@[k].0 as int,
                            bounds@[k].1 as int,
                        ) == lines[k]
                },
                None => false,
            },
            None => whole_lines(file.bytes@, file.partial) is None,
        },
{
    let bytes = &file.bytes;
    let end = match find_last_newline(bytes) {
        Some(end) => end,
        None => return None,
    };
    let first = find_first_newline(bytes);
    let start = if file.partial {
        if first >= end {
            return None;
        }
        first + 1
    } else {
        0
    };
    Some(piece_bounds(bytes, start, end, NEWLINE))
}

/// Reads the file at the time `now`, for one provider or for any.
pub fn read_usage_file(file: &UsageFile, provider: &Option<String>, now: Timestamp) -> (r: Option<
    LlmTelemetry,
>)
    requires
        file.bytes@.len() <= DOCUMENT_LIMIT,
    ensures
        r.deep_view() == file_reading(file.bytes@, file.partial, provider.deep_view(), now),
{
    let bounds = match line_bounds(file) {
        Some(bounds) => bounds,
        None => return None,
    };
    let ghost lines = whole_lines(file.bytes@, file.partial)->0;
    let ghost p = provider.deep_view();
    let mut records: Vec<LlmTelemetry> = Vec::new();
    let mut i: usize = 0;
    assert(records.deep_view() =~= Seq::empty());
    assert(lines.take(0) =~= Seq::empty());
    while i < bounds.len()
        invariant
            i <= bounds@.len(),
            bounds@.len() == lines.len(),
            file.bytes@.len() <= DOCUMENT_LIMIT,
            p == provider.deep_view(),
            forall|k: int|
                0 <= k < lines.len() ==> (#[trigger] bounds@[k]).0 <= bounds@[k].1
                    <= file.bytes@.len() && file.bytes@.subrange(
                    bounds@[k].0 as int,
                    bounds@[k].1 as int,
                ) == lines[k],
            records.deep_view() == line_records(lines.take(i as int), p, now),
        decreases bounds@.len() - i,
    {
        let ghost before = records.deep_view();
        proof {
            assert(lines.take(i + 1).drop_last() =~= lines.take(i as int));
        }
        let line = slice_subrange(file.bytes.as_slice(), bounds[i].0, bounds[i].1);
        if let Some(record) = read_line(line, provider, now) {
            let ghost found = record.deep_view();
            records.push(record);
            assert(records.deep_view() =~= before.push(found));
        }
        i += 1;
    }
    assert(lines.take(lines.len() as int) =~= lines);
    gather_records(records)
}

} // verus!
