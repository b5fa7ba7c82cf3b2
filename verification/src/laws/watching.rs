//! How a server is watched: what it is asked, what its answers become, and when it is asked
//! again.
use crate::adapter::{
    aged, body_document, choice, file_content, llama_result, new_adapter, next_count,
    port_number, queries_of, session_requests, sorted_replies, AdapterModel, Answer,
    Endpoint, QueryModel, RepliesModel,
};
use crate::json::{json_document, JsonTree};
use crate::kobold::kobold_reading;
use crate::laws::documents::{
    counters_are_read_by_name, is_count_of, is_measure_of, measures, measures_are_read_by_name,
    tells,
};
use crate::laws::readings::kobold_answer_is_read_field_by_field;
use crate::llama::{gauges, slots_reading, with_metrics};
use crate::providers::{canonical, UsageModel};
use crate::telemetry::{TelemetryModel, TelemetrySource};
use crate::text::{all_digits, decimal, digits_value, is_digit};
use crate::time::{Moment, Timestamp};
use crate::usage_file::{file_reading, UsageFile};
use vstd::prelude::*;
use vstd::utf8::encode_utf8;

verus! {

/// A new watcher has what it was asked for, has seen nothing, and may ask at once.
pub proof fn watching_begins_with_nothing_known(
    configured: Option<Seq<char>>,
    usage_file: bool,
    port: Option<Seq<char>>,
    now: Moment,
)
    ensures
        ({
            let adapter = new_adapter(configured, usage_file, port, now);
            &&& adapter.configured == configured
            &&& adapter.usage_file == usage_file
            &&& adapter.selected is None
            &&& port matches Some(text) ==> adapter.port == port_number(text)
            &&& port is None ==> adapter.port is None
            &&& adapter.cached is None
            &&& adapter.next_poll == now
            &&& adapter.backoff == 1
            &&& adapter.kobold_uptime is None
            &&& adapter.kobold_session == 0
        }),
{
}

/// A port is named by its digits, with or without a plus sign; by nothing with another
/// character in it, and by no number that is zero or more than sixteen bits hold.
pub proof fn ports_are_named_by_digits(s: Seq<char>, i: int)
    requires
        0 <= i < s.len(),
    ensures
        !('0' <= s[i] <= '9') && !(i == 0 && s[0] == '+') ==> port_number(s) is None,
        s.len() == 1 && s[0] == '+' ==> port_number(s) is None,
        all_digits(s) && 0 < digits_value(s) <= 65_535 ==> port_number(s) == Some(
            digits_value(s) as u16,
        ),
        all_digits(s) && (digits_value(s) == 0 || digits_value(s) > 65_535) ==> port_number(
            s,
        ) is None,
        all_digits(s) ==> port_number(seq!['+'] + s) == port_number(s),
        port_number(Seq::empty()) is None,
{
    if !('0' <= s[i] <= '9') && !(i == 0 && s[0] == '+') {
        assert(!is_digit(s[i]));
        if s[0] == '+' {
            assert(s.drop_first()[i - 1] == s[i]);
        }
    }
    if all_digits(s) {
        assert(is_digit(s[0]));
        assert((seq!['+'] + s).drop_first() =~= s);
    }
}

/// Digits are read from left to right, each worth ten times the next.
pub proof fn digits_are_worth_their_place(s: Seq<char>, c: char)
    requires
        '0' <= c <= '9',
    ensures
        digits_value(Seq::empty()) == 0,
        digits_value(s.push(c)) == 10 * digits_value(s) + (c as nat - '0' as nat),
{
    assert(s.push(c).drop_last() =~= s);
}

/// The provider to watch is the configured one, else the detected one, under its known
/// name; one that is not known is not supported.
pub proof fn known_providers_are_watched(
    configured: Option<Seq<char>>,
    detected: Option<Seq<char>>,
)
    ensures
        ({
            let name = if configured is Some {
                configured
            } else {
                detected
            };
            let chosen = choice(configured, detected);
            &&& name is None ==> chosen is None
            &&& name matches Some(name) ==> (canonical(name) matches Some(known) ==> chosen == Some(
                known,
            ))
            &&& name matches Some(name) ==> (canonical(name) is None ==> chosen == Some(
                "unsupported"@,
            ))
        }),
{
}

/// A change of the watched provider changes nothing of what the operator asked for, and the
/// same provider changes nothing at all. The watcher is wanted with a usage file, or for a
/// provider other than oMLX.
pub proof fn choices_keep_what_was_asked_for(
    adapter: AdapterModel,
    detected: Option<Seq<char>>,
    now: Moment,
)
    ensures
        ({
            let after = adapter.after_selection(detected, now);
            &&& after.configured == adapter.configured
            &&& after.usage_file == adapter.usage_file
            &&& after.port == adapter.port
            &&& after.selected == choice(adapter.configured, detected)
            &&& adapter.selected == choice(adapter.configured, detected) ==> after == adapter
        }),
        adapter.wanted() <==> adapter.usage_file || (adapter.selected matches Some(name) && name
            != "oMLX"@),
{
}

/// A server is asked from the moment that is set on: KoboldCpp for its performance, on its
/// own port 5001; llama.cpp for its slots and then for its metrics, on its own port 8080.
pub proof fn servers_are_asked_at_their_endpoints(adapter: AdapterModel, now: Moment)
    requires
        now.nanos >= adapter.next_poll.nanos,
    ensures
        ({
            let asked = queries_of(adapter.endpoint(now), adapter.port);
            let kobold = match adapter.port {
                Some(port) => port,
                None => 5001,
            };
            let llama = match adapter.port {
                Some(port) => port,
                None => 8080,
            };
            &&& adapter.selected == Some("KoboldCpp"@) ==> adapter.endpoint(now)
                == Endpoint::Kobold && asked == seq![
                QueryModel { port: kobold, path: "/api/extra/perf"@ },
            ]
            &&& adapter.selected == Some("llama.cpp"@) ==> adapter.endpoint(now)
                == Endpoint::Llama && asked == seq![
                QueryModel { port: llama, path: "/slots"@ },
                QueryModel { port: llama, path: "/metrics"@ },
            ]
            &&& adapter.selected != Some("KoboldCpp"@) && adapter.selected != Some("llama.cpp"@)
                ==> adapter.endpoint(now) == Endpoint::Nothing
        }),
{
    reveal_strlit("KoboldCpp");
    reveal_strlit("llama.cpp");
    assert("KoboldCpp"@[0] == 'K');
    assert("llama.cpp"@[0] == 'l');
}

/// Whether an answer came and was a success with this body.
pub open spec fn succeeded(answer: Option<Answer>, body: Seq<char>) -> bool {
    answer matches Some(answer) && answer.status == 200 && answer.body@ == body
}

/// Answers are taken in the order of the questions, and only of a success.
pub proof fn answers_belong_to_their_questions(
    answers: Seq<Option<Answer>>,
    body: Seq<char>,
)
    ensures
        ({
            let kobold = sorted_replies(Endpoint::Kobold, answers);
            let llama = sorted_replies(Endpoint::Llama, answers);
            &&& kobold.perf == Some(body) <==> answers.len() > 0 && succeeded(answers[0], body)
            &&& kobold.slots is None
            &&& kobold.metrics is None
            &&& llama.slots == Some(body) <==> answers.len() > 0 && succeeded(answers[0], body)
            &&& llama.metrics == Some(body) <==> answers.len() > 1 && succeeded(answers[1], body)
            &&& llama.perf is None
        }),
        sorted_replies(Endpoint::Nothing, answers) == (RepliesModel {
            perf: None,
            slots: None,
            metrics: None,
        }),
{
}

/// The identifier of a generation tells the run of the server that it belongs to; nothing
/// else of a request changes by that.
pub proof fn runs_are_told_by_identifiers(session: u64, requests: Seq<UsageModel>, i: int)
    requires
        0 <= i < requests.len(),
    ensures
        session_requests(session, requests).len() == requests.len(),
        session_requests(session, requests)[i] == (UsageModel {
            id: "session-"@ + decimal(session as nat) + "-"@ + requests[i].id,
            ..requests[i]
        }),
{
}

/// A KoboldCpp server was restarted exactly if it tells an uptime below the one before: the
/// run then counts up. The uptime that it told last is kept.
pub proof fn restarts_are_told_by_the_uptime(adapter: AdapterModel, perf: JsonTree, n: u64)
    requires
        tells(perf, "total_gens"@, n),
    ensures
        ({
            let after = adapter.after_kobold(perf);
            &&& forall|up: crate::double::Double| #[trigger]
                measures(perf, "uptime"@, up) ==> {
                    &&& after.kobold_uptime == Some(up)
                    &&& after.kobold_session == if (adapter.kobold_uptime matches Some(before)
                        && up.magnitude() < before.magnitude()) && adapter.kobold_session
                        < u64::MAX {
                        adapter.kobold_session + 1
                    } else {
                        adapter.kobold_session as int
                    }
                }
            &&& (forall|up: crate::double::Double| !#[trigger] measures(perf, "uptime"@, up)) ==> {
                &&& after.kobold_uptime == adapter.kobold_uptime
                &&& after.kobold_session == adapter.kobold_session
            }
            &&& adapter.session_of(perf) == after.kobold_session
            &&& after == (AdapterModel {
                kobold_uptime: after.kobold_uptime,
                kobold_session: after.kobold_session,
                ..adapter
            })
        }),
{
    counters_are_read_by_name(perf, "total_gens"@);
    measures_are_read_by_name(perf, "uptime"@);
    if let Some(up) = perf.rate("uptime"@) {
        assert(measures(perf, "uptime"@, up));
    }
}

/// An answer that does not count its generations changes nothing and says nothing.
pub proof fn other_answers_are_ignored(adapter: AdapterModel, perf: JsonTree, now: Timestamp)
    requires
        forall|n: u64| !#[trigger] tells(perf, "total_gens"@, n),
    ensures
        adapter.after_kobold(perf) == adapter,
        adapter.kobold_result(perf, now) is None,
{
    counters_are_read_by_name(perf, "total_gens"@);
    if let Some(n) = perf.counter("total_gens"@) {
        assert(tells(perf, "total_gens"@, n));
    }
}

/// A body is read as the document that it holds.
pub proof fn bodies_hold_documents(body: Seq<char>)
    ensures
        body_document(Some(body)) == json_document(encode_utf8(body)),
        body_document(None) is None,
{
}

/// A poll of a KoboldCpp server that is due keeps what its answer says, field by field,
/// under an identifier of its own, and sets the next one for a second later. The other
/// replies play no part.
pub proof fn polls_of_kobold_keep_its_answer(
    adapter: AdapterModel,
    now: Moment,
    clock: Timestamp,
    replies: RepliesModel,
    body: Seq<char>,
    perf: JsonTree,
    n: u64,
)
    requires
        adapter.selected == Some("KoboldCpp"@),
        adapter.next_poll.nanos <= now.nanos,
        now.nanos + 30_000_000_000 <= u64::MAX,
        replies.perf == Some(body),
        json_document(encode_utf8(body)) == Some(perf),
        tells(perf, "total_gens"@, n),
        n > 0,
    ensures
        ({
            let after = adapter.after_replies(now, clock, replies);
            let told = adapter.after_kobold(perf);
            &&& after.cached matches Some(reading) && {
                &&& is_count_of(reading.prompt_tokens, perf, "last_input_count"@)
                &&& is_count_of(reading.output_tokens, perf, "last_token_count"@)
                &&& is_measure_of(reading.generation_tps, perf, "last_eval_speed"@)
                &&& is_measure_of(reading.prefill_tps, perf, "last_process_speed"@)
                &&& reading.provider == Some("KoboldCpp"@)
                &&& reading.status == Some("last result"@)
                &&& reading.source == TelemetrySource::Report
                &&& reading.requests.len() == 1 ==> {
                    let request = reading.requests[0];
                    &&& is_count_of(Some(request.prompt), perf, "last_input_count"@)
                    &&& is_count_of(request.output, perf, "last_token_count"@)
                    &&& request.id == "session-"@ + decimal(told.kobold_session as nat) + "-"@ + (
                    "generation-"@ + decimal(n as nat))
                }
                &&& reading.requests.len() == 1 <==> reading.prompt_tokens is Some
            }
            &&& after.next_poll.nanos == now.nanos + 1_000_000_000
            &&& after.backoff == 1
            &&& after.kobold_uptime == told.kobold_uptime
            &&& after.kobold_session == told.kobold_session
            &&& after.selected == adapter.selected
            &&& after.port == adapter.port
            &&& after.configured == adapter.configured
            &&& after.usage_file == adapter.usage_file
        }),
{
    kobold_answer_is_read_field_by_field(perf, clock, n);
    restarts_are_told_by_the_uptime(adapter, perf, n);
}

/// A poll of a llama.cpp server that is due keeps what its slots and its metrics say
/// together. The other reply plays no part.
pub proof fn polls_of_llama_keep_its_answers(
    adapter: AdapterModel,
    now: Moment,
    clock: Timestamp,
    replies: RepliesModel,
)
    requires
        adapter.selected == Some("llama.cpp"@),
        adapter.next_poll.nanos <= now.nanos,
        now.nanos + 30_000_000_000 <= u64::MAX,
        1 <= adapter.backoff <= 30,
    ensures
        ({
            let after = adapter.after_replies(now, clock, replies);
            let slots = match replies.slots {
                Some(body) => match json_document(encode_utf8(body)) {
                    Some(slots) => slots_reading(slots, clock),
                    None => None,
                },
                None => None,
            };
            let said = with_metrics(slots, gauges(replies.metrics), clock);
            &&& llama_result(replies.slots, replies.metrics, clock) == said
            &&& said is Some ==> after.cached == said && after.next_poll.nanos == now.nanos
                + 1_000_000_000
            &&& said is None ==> {
                let pause = if 2 * adapter.backoff < 30 {
                    2 * adapter.backoff
                } else {
                    30
                };
                &&& after.cached == adapter.cached
                &&& after.backoff == pause
                &&& after.next_poll.nanos == now.nanos + pause * 1_000_000_000
            }
            &&& after.kobold_uptime == adapter.kobold_uptime
            &&& after.kobold_session == adapter.kobold_session
            &&& after.selected == adapter.selected
        }),
{
    reveal_strlit("KoboldCpp");
    reveal_strlit("llama.cpp");
    assert("KoboldCpp"@[0] == 'K');
    assert("llama.cpp"@[0] == 'l');
}

/// An attempt sets the next one for the pause after it: a second after an answer, twice the
/// last pause up to thirty seconds without one.
pub proof fn attempts_are_made_after_the_pause(
    adapter: AdapterModel,
    result: Option<TelemetryModel>,
    now: Moment,
)
    requires
        1 <= adapter.backoff <= 30,
        now.nanos + 30_000_000_000 <= u64::MAX,
    ensures
        ({
            let after = adapter.after_attempt(result, now);
            let doubled = if 2 * adapter.backoff < 30 {
                2 * adapter.backoff
            } else {
                30
            };
            &&& result is Some ==> after.backoff == 1 && after.cached == Some(
                aged(result->0, adapter.cached),
            )
            &&& result is None ==> after.backoff == doubled && after.cached == adapter.cached
            &&& after.next_poll.nanos == now.nanos + after.backoff * 1_000_000_000
            &&& after == (AdapterModel {
                cached: after.cached,
                backoff: after.backoff,
                next_poll: after.next_poll,
                ..adapter
            })
        }),
{
}

/// A KoboldCpp result whose first request is the one that was known keeps the time at which
/// it was; any other reading is as it came.
pub proof fn only_known_generations_keep_their_time(
    result: TelemetryModel,
    previous: TelemetryModel,
)
    ensures
        ({
            let same = (result.requests.len() == 0 && previous.requests.len() == 0) || (
            result.requests.len() > 0 && previous.requests.len() > 0 && result.requests[0].id
                == previous.requests[0].id);
            &&& result.provider == Some("KoboldCpp"@) && same ==> aged(result, Some(previous))
                == (TelemetryModel { observed_at: previous.observed_at, ..result })
            &&& result.provider != Some("KoboldCpp"@) || !same ==> aged(result, Some(previous))
                == result
            &&& aged(result, None) == result
        }),
{
}

/// Before the next attempt is due, nothing that came in matters.
pub proof fn early_replies_play_no_part(
    adapter: AdapterModel,
    now: Moment,
    clock: Timestamp,
    replies: RepliesModel,
)
    requires
        now.nanos < adapter.next_poll.nanos,
    ensures
        adapter.after_replies(now, clock, replies) == adapter,
{
}

/// A KoboldCpp server that gave no document says nothing; one that did says what its
/// document says.
pub proof fn kobold_says_what_its_document_says(
    adapter: AdapterModel,
    body: Seq<char>,
    now: Timestamp,
)
    ensures
        json_document(encode_utf8(body)) matches Some(perf) ==> {
            &&& adapter.after_perf(Some(body)) == adapter.after_kobold(perf)
            &&& adapter.perf_result(Some(body), now) == adapter.kobold_result(perf, now)
            &&& adapter.kobold_result(perf, now) is Some <==> kobold_reading(perf, now) is Some
            &&& kobold_reading(perf, now) matches Some(reading) ==> adapter.kobold_result(perf, now)
                == Some(
                TelemetryModel {
                    requests: session_requests(
                        adapter.after_kobold(perf).kobold_session,
                        reading.requests,
                    ),
                    ..reading
                },
            )
        },
        json_document(encode_utf8(body)) is None ==> {
            &&& adapter.after_perf(Some(body)) == adapter
            &&& adapter.perf_result(Some(body), now) is None
        },
        adapter.after_perf(None) == adapter,
        adapter.perf_result(None, now) is None,
{
}

/// What is known is the last answer and what the usage file says of the watched provider,
/// where there is a file and it was asked for: a live answer with the reported requests
/// after its own, else the report, else the answer.
pub proof fn reports_stand_beside_live_answers(
    adapter: AdapterModel,
    bytes: Seq<u8>,
    partial: bool,
    now: Timestamp,
)
    ensures
        adapter.with_usage(None, now) == adapter.cached,
        !adapter.usage_file ==> adapter.with_usage(Some((bytes, partial)), now) == adapter.cached,
        adapter.usage_file ==> {
            let known = adapter.with_usage(Some((bytes, partial)), now);
            let report = file_reading(bytes, partial, adapter.selected, now);
            &&& report is None ==> known == adapter.cached
            &&& report is Some && adapter.cached is None ==> known == report
            &&& report matches Some(reported) ==> (adapter.cached matches Some(native) ==> {
                if native.source == TelemetrySource::Live {
                    known == Some(
                        TelemetryModel { requests: native.requests + reported.requests, ..native },
                    )
                } else {
                    known == report
                }
            })
        },
{
}

/// The usage file is taken with its bytes and with whether it is only the end of one.
pub proof fn files_are_taken_as_they_are(file: &UsageFile)
    ensures
        file_content(Some(file)) == Some((file.bytes@, file.partial)),
        file_content(None) is None,
{
}

/// A count goes up by one, and stays where it cannot.
pub proof fn counts_go_up_by_one(n: u64)
    ensures
        n < u64::MAX ==> next_count(n) == n + 1,
        n == u64::MAX ==> next_count(n) == n,
{
}

/// A poll of a KoboldCpp server that is due takes in what its document says, and is an
/// attempt with that outcome. A provider that cannot be asked is an attempt without one.
pub proof fn polls_are_attempts(
    adapter: AdapterModel,
    now: Moment,
    clock: Timestamp,
    replies: RepliesModel,
)
    requires
        adapter.next_poll.nanos <= now.nanos,
    ensures
        adapter.selected == Some("KoboldCpp"@) ==> adapter.after_replies(now, clock, replies)
            == adapter.after_perf(replies.perf).after_attempt(
            adapter.perf_result(replies.perf, clock),
            now,
        ),
        adapter.selected != Some("KoboldCpp"@) && adapter.selected != Some("llama.cpp"@)
            ==> adapter.after_replies(now, clock, replies) == adapter.after_attempt(None, now),
{
}

} // verus!
