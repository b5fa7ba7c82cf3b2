//! The watching of one server.
use crate::adapter::{
    aged, choice, combined, next_count, port_number, queries_of, session_id, session_requests,
    AdapterModel, Endpoint, MAX_BACKOFF,
};
use crate::json::JsonTree;
use crate::laws::text::{decimal_reads_back, decimals_differ};
use crate::laws::usage_file::{file_tells_of_the_past, past_report};
use crate::llama::LlamaMetrics;
use crate::providers::UsageModel;
use crate::telemetry::{TelemetryModel, TelemetrySource};
use crate::text::{decimal, is_digit};
use crate::time::{Moment, Timestamp};
use crate::usage_file::file_reading;
use vstd::arithmetic::power2::pow2;
use vstd::prelude::*;

verus! {

/// Another provider than before drops everything that was known of the one before, and
/// begins a new run.
pub proof fn switch_drops_what_was_known(
    adapter: AdapterModel,
    detected: Option<Seq<char>>,
    now: Moment,
)
    requires
        choice(adapter.configured, detected) != adapter.selected,
    ensures
        ({
            let after = adapter.after_selection(detected, now);
            &&& after.selected == choice(adapter.configured, detected)
            &&& after.cached is None
            &&& after.kobold_uptime is None
            &&& after.next_poll == now
            &&& after.backoff == 1
            &&& adapter.kobold_session < u64::MAX ==> after.kobold_session
                == adapter.kobold_session + 1
        }),
{
}

/// Choosing the same provider again changes nothing.
pub proof fn same_choice_changes_nothing(
    adapter: AdapterModel,
    detected: Option<Seq<char>>,
    now: Moment,
    later: Moment,
)
    ensures
        adapter.after_selection(detected, now).after_selection(detected, later)
            == adapter.after_selection(detected, now),
{
}

/// What the operator configured goes before what was detected, whatever that is.
pub proof fn configuration_goes_first(
    configured: Seq<char>,
    a: Option<Seq<char>>,
    b: Option<Seq<char>>,
)
    ensures
        choice(Some(configured), a) == choice(Some(configured), b),
{
}

/// The pause after an attempt is between one second and its maximum: an answer sets it
/// back to a second, and without one it never gets shorter.
pub proof fn backoff_is_bounded(
    adapter: AdapterModel,
    result: Option<TelemetryModel>,
    now: Moment,
)
    requires
        1 <= adapter.backoff <= MAX_BACKOFF,
    ensures
        1 <= adapter.after_attempt(result, now).backoff <= MAX_BACKOFF,
        result is Some ==> adapter.after_attempt(result, now).backoff == 1,
        result is None ==> adapter.after_attempt(result, now).backoff >= adapter.backoff,
        result is None && adapter.backoff < MAX_BACKOFF ==> adapter.after_attempt(
            result,
            now,
        ).backoff > adapter.backoff,
{
}

/// After an attempt the server is left alone for the pause: a poll before that changes
/// nothing, whatever came in.
pub proof fn server_is_left_alone(
    adapter: AdapterModel,
    result: Option<TelemetryModel>,
    now: Moment,
    later: Moment,
    clock: Timestamp,
    perf: Option<JsonTree>,
    slots: Option<JsonTree>,
    metrics: Option<LlamaMetrics>,
)
    requires
        later.nanos < adapter.after_attempt(result, now).next_poll.nanos,
    ensures
        ({
            let after = adapter.after_attempt(result, now);
            after.after_poll(later, clock, perf, slots, metrics) == after
        }),
{
}

/// Nothing is asked before the next attempt is due, and nothing of a server that has no
/// such endpoint.
pub proof fn only_due_servers_are_asked(adapter: AdapterModel, now: Moment)
    ensures
        now.nanos < adapter.next_poll.nanos ==> queries_of(
            adapter.endpoint(now),
            adapter.port,
        ).len() == 0,
        adapter.selected != Some("KoboldCpp"@) && adapter.selected != Some("llama.cpp"@)
            ==> queries_of(adapter.endpoint(now), adapter.port).len() == 0,
{
}

/// A port that the operator asked for goes before the server's own, for every question.
pub proof fn configured_port_is_asked(endpoint: Endpoint, port: u16, i: int)
    requires
        0 <= i < queries_of(endpoint, Some(port)).len(),
    ensures
        queries_of(endpoint, Some(port))[i].port == port,
        queries_of(endpoint, Some(port)).len() == queries_of(endpoint, None).len(),
        queries_of(endpoint, Some(port))[i].path == queries_of(endpoint, None)[i].path,
{
}

/// An attempt without an answer keeps what was known.
pub proof fn failure_keeps_the_last_answer(adapter: AdapterModel, now: Moment)
    ensures
        adapter.after_attempt(None, now).cached == adapter.cached,
{
}

/// A live reading keeps its own counters next to what clients reported: reported
/// requests join its requests after its own, and nothing else changes.
pub proof fn reports_do_not_touch_live_counters(
    native: TelemetryModel,
    reported: Option<TelemetryModel>,
)
    requires
        native.source == TelemetrySource::Live,
    ensures
        combined(Some(native), reported) matches Some(both) && {
            &&& both.source == TelemetrySource::Live
            &&& both.observed_at == native.observed_at
            &&& both.prompt_tokens == native.prompt_tokens
            &&& both.output_tokens == native.output_tokens
            &&& both.active_requests == native.active_requests
            &&& both.waiting_requests == native.waiting_requests
            &&& both.status == native.status
            &&& both.requests == native.requests + (match reported {
                Some(reported) => reported.requests,
                None => Seq::empty(),
            })
        },
{
    if reported is None {
        assert(native.requests + Seq::empty() =~= native.requests);
    }
}

/// Without a usage file's reading, what is known is the server's last answer; without an
/// answer, it is what the file says.
pub proof fn either_source_stands_alone(
    native: Option<TelemetryModel>,
    reported: Option<TelemetryModel>,
)
    ensures
        combined(native, None) == native,
        combined(None, reported) == reported,
{
}

/// A generation that was known already keeps its age: polling it again does not make it
/// new.
pub proof fn known_result_keeps_its_age(
    adapter: AdapterModel,
    perf: JsonTree,
    clock: Timestamp,
    later: Timestamp,
    now: Moment,
)
    requires
        adapter.selected == Some("KoboldCpp"@),
        adapter.kobold_result(perf, clock) is Some,
        adapter.session_of(perf) == adapter.kobold_session,
    ensures
        ({
            let first = adapter.kobold_result(perf, clock)->0;
            let again = adapter.kobold_result(perf, later)->0;
            &&& adapter.kobold_result(perf, later) is Some
            &&& again.requests == first.requests
            &&& aged(again, Some(first)) == first
            &&& AdapterModel { cached: Some(first), ..adapter }.after_attempt(
                Some(again),
                now,
            ).cached == Some(first)
        }),
{
    let first = adapter.kobold_result(perf, clock)->0;
    let again = adapter.kobold_result(perf, later)->0;
    assert(again.requests =~= first.requests);
}

proof fn lemma_same_uptime(a: AdapterModel, perf: JsonTree)
    ensures
        a.after_kobold(perf).after_kobold(perf) == a.after_kobold(perf),
        perf.counter("total_gens"@) is Some ==> a.after_kobold(perf).session_of(perf)
            == a.session_of(perf),
{
}

/// Polling a KoboldCpp server that still tells the same keeps what was known, its age
/// and its identifiers, at whatever later time, also right after a restart.
pub proof fn unchanged_answer_stays_as_it_was(
    adapter: AdapterModel,
    perf: JsonTree,
    slots: Option<JsonTree>,
    metrics: Option<LlamaMetrics>,
    first: Moment,
    clock: Timestamp,
    second: Moment,
    later: Timestamp,
)
    requires
        adapter.selected == Some("KoboldCpp"@),
        perf.counter("total_gens"@) is Some,
        adapter.next_poll.nanos <= first.nanos,
        adapter.after_poll(first, clock, Some(perf), slots, metrics).next_poll.nanos <= second.nanos,
    ensures
        ({
            let once = adapter.after_poll(first, clock, Some(perf), slots, metrics);
            let twice = once.after_poll(second, later, Some(perf), slots, metrics);
            &&& once.cached is Some
            &&& twice.cached == once.cached
            &&& twice.kobold_session == once.kobold_session
            &&& twice.backoff == 1
        }),
{
    lemma_same_uptime(adapter, perf);
    let once = adapter.after_poll(first, clock, Some(perf), slots, metrics);
    let twice = once.after_poll(second, later, Some(perf), slots, metrics);
    let a = adapter.kobold_result(perf, clock)->0;
    let b = once.kobold_result(perf, later)->0;
    assert(once.session_of(perf) == adapter.session_of(perf));
    assert(a.requests =~= b.requests);
    assert(twice.cached->0 =~= once.cached->0);
}

/// The state after a number of attempts in a row that had no answer, each made when it
/// was due.
pub open spec fn after_failures(adapter: AdapterModel, n: nat) -> AdapterModel
    decreases n,
{
    if n == 0 {
        adapter
    } else {
        let before = after_failures(adapter, (n - 1) as nat);
        before.after_attempt(None, before.next_poll)
    }
}

/// The pause doubles from attempt to attempt: from a second after an answer to its
/// maximum at the fifth failure, where it stays.
pub proof fn pauses_double_up_to_the_maximum(adapter: AdapterModel, n: nat)
    requires
        adapter.backoff == 1,
    ensures
        after_failures(adapter, n).backoff == if n < 5 {
            pow2(n)
        } else {
            MAX_BACKOFF as nat
        },
        after_failures(adapter, n).cached == adapter.cached,
    decreases n,
{
    vstd::arithmetic::power2::lemma2_to64();
    if n > 0 {
        pauses_double_up_to_the_maximum(adapter, (n - 1) as nat);
    }
}

/// Next to a live reading the usage file adds finished requests of the watched provider
/// and nothing else.
pub proof fn live_reading_gains_only_reports(
    adapter: AdapterModel,
    bytes: Seq<u8>,
    partial: bool,
    now: Timestamp,
)
    requires
        adapter.usage_file,
        adapter.selected is Some,
        adapter.cached matches Some(native) && native.source == TelemetrySource::Live,
    ensures
        ({
            let native = adapter.cached->0;
            let known = adapter.with_usage(Some((bytes, partial)), now);
            &&& known matches Some(both)
            &&& both.requests.len() >= native.requests.len()
            &&& both.requests.take(native.requests.len() as int) == native.requests
            &&& both.active_requests == native.active_requests
            &&& both.output_tokens == native.output_tokens
            &&& both.prompt_tokens == native.prompt_tokens
            &&& forall|i: int|
                native.requests.len() <= i < both.requests.len() ==> past_report(
                    #[trigger] both.requests[i],
                    now,
                ) && Some(both.requests[i].provider) == adapter.selected
        }),
{
    let native = adapter.cached->0;
    let both = adapter.with_usage(Some((bytes, partial)), now)->0;
    file_tells_of_the_past(bytes, partial, adapter.selected, now);
    let reported = file_reading(bytes, partial, adapter.selected, now);
    assert(both.requests.take(native.requests.len() as int) =~= native.requests);
    if let Some(reading) = reported {
        assert forall|i: int| native.requests.len() <= i < both.requests.len() implies past_report(
            #[trigger] both.requests[i],
            now,
        ) && Some(both.requests[i].provider) == adapter.selected by {
            assert(both.requests[i] == reading.requests[i - native.requests.len()]);
        }
    }
}

/// A port that is written as a number is read as that number.
pub proof fn ports_read_back(port: u16)
    requires
        port > 0,
    ensures
        port_number(decimal(port as nat)) == Some(port),
{
    decimal_reads_back(port as nat);
    assert(is_digit(decimal(port as nat)[0]));
}

proof fn lemma_no_dash(n: nat)
    ensures
        forall|i: int| 0 <= i < decimal(n).len() ==> #[trigger] decimal(n)[i] != '-',
{
    decimal_reads_back(n);
    assert forall|i: int| 0 <= i < decimal(n).len() implies #[trigger] decimal(n)[i] != '-' by {
        assert(is_digit(decimal(n)[i]));
    }
}

/// The identifiers of different runs of a server, or of different generations, differ.
pub proof fn session_identifiers_differ(a: u64, x: Seq<char>, b: u64, y: Seq<char>)
    requires
        session_id(a, x) == session_id(b, y),
    ensures
        a == b,
        x == y,
{
    reveal_strlit("-");
    let head = "session-"@;
    let m = decimal(a as nat);
    let n = decimal(b as nat);
    lemma_no_dash(a as nat);
    lemma_no_dash(b as nat);
    let s = session_id(a, x);
    let t = session_id(b, y);
    let k = head.len() as int;
    if m.len() < n.len() {
        assert(s[k + m.len()] == '-');
        assert(t[k + m.len()] == n[m.len() as int]);
    } else if n.len() < m.len() {
        assert(t[k + n.len()] == '-');
        assert(s[k + n.len()] == m[n.len() as int]);
    }
    assert forall|i: int| 0 <= i < m.len() implies m[i] == n[i] by {
        assert(s[k + i] == m[i]);
        assert(t[k + i] == n[i]);
    }
    assert(m =~= n);
    decimals_differ(a as nat, b as nat);
    assert(s.skip(k + m.len() + 1) =~= x);
    assert(t.skip(k + n.len() + 1) =~= y);
}

/// A restart that shows in the uptime begins a new run, whose identifiers are none of
/// the earlier one's, while runs can be counted.
pub proof fn restart_does_not_reuse_identifiers(
    adapter: AdapterModel,
    perf: JsonTree,
    x: Seq<char>,
    y: Seq<char>,
)
    requires
        adapter.kobold_session < u64::MAX,
        perf.rate("uptime"@) is Some,
        adapter.kobold_uptime is Some,
        perf.rate("uptime"@)->0.below(adapter.kobold_uptime->0),
    ensures
        adapter.session_of(perf) == adapter.kobold_session + 1,
        session_id(adapter.session_of(perf), x) != session_id(adapter.kobold_session, y),
{
    if session_id(adapter.session_of(perf), x) == session_id(adapter.kobold_session, y) {
        session_identifiers_differ(adapter.session_of(perf), x, adapter.kobold_session, y);
    }
}

/// The number of the run never falls.
pub proof fn sessions_never_fall(adapter: AdapterModel, perf: JsonTree)
    ensures
        adapter.kobold_session <= adapter.after_kobold(perf).kobold_session,
        next_count(adapter.kobold_session) >= adapter.kobold_session,
{
}

/// What a KoboldCpp answer adds to identifiers is all that it changes of the requests.
pub proof fn sessions_only_prefix_identifiers(
    session: u64,
    requests: Seq<UsageModel>,
    i: int,
)
    requires
        0 <= i < requests.len(),
    ensures
        session_requests(session, requests).len() == requests.len(),
        session_requests(session, requests)[i].prompt == requests[i].prompt,
        session_requests(session, requests)[i].completed == requests[i].completed,
        session_requests(session, requests)[i].comparable(requests[i]),
{
}

/// Nothing is asked of a server that is not known: its polls fail, and what is known
/// comes from the usage file alone.
pub proof fn unknown_servers_are_not_asked(
    adapter: AdapterModel,
    perf: Option<JsonTree>,
    slots: Option<JsonTree>,
    metrics: Option<LlamaMetrics>,
    clock: Timestamp,
)
    requires
        adapter.selected != Some("KoboldCpp"@),
        adapter.selected != Some("llama.cpp"@),
    ensures
        adapter.result(perf, slots, metrics, clock) is None,
{
}

} // verus!
