//! What is read of a server's or a client's document, field by field.
use crate::json::JsonTree;
use crate::kobold::kobold_reading;
use crate::laws::documents::{
    counters_are_read_by_name, fields_are_found_by_name, holds_field, is_count_of,
    is_count_within, is_measure_of, lacks_field, measures_are_read_by_name,
    nested_counters_are_read_by_name, tells, tells_within,
};
use crate::llama::{
    active_slots, decoded_tokens, slots_reading, with_metrics, LlamaMetrics,
};
use crate::providers::{
    canonical, omlx_listed, omlx_models, omlx_phase, reported_usage, UsageModel,
};
use crate::telemetry::{TelemetryModel, TelemetrySource};
use crate::text::decimal;
use crate::time::Timestamp;
use vstd::prelude::*;

verus! {

/// A KoboldCpp answer that counts its generations is read field by field: the prompt and
/// the output of the last one from the fields of their own, and so are its two rates. The
/// one request carries the same two counts.
pub proof fn kobold_answer_is_read_field_by_field(perf: JsonTree, now: Timestamp, n: u64)
    requires
        tells(perf, "total_gens"@, n),
        n > 0,
    ensures
        kobold_reading(perf, now) matches Some(reading) && {
            &&& is_count_of(reading.prompt_tokens, perf, "last_input_count"@)
            &&& is_count_of(reading.output_tokens, perf, "last_token_count"@)
            &&& is_measure_of(reading.generation_tps, perf, "last_eval_speed"@)
            &&& is_measure_of(reading.prefill_tps, perf, "last_process_speed"@)
            &&& reading.observed_at == Some(now)
            &&& reading.provider == Some("KoboldCpp"@)
            &&& reading.status == Some("last result"@)
            &&& reading.model is None
            &&& reading.waiting_requests is None
            &&& reading.cache_efficiency is None
            &&& reading.requests.len() == if reading.prompt_tokens is Some {
                1nat
            } else {
                0
            }
            &&& reading.requests.len() == 1 ==> {
                let request = reading.requests[0];
                &&& is_count_of(Some(request.prompt), perf, "last_input_count"@)
                &&& is_count_of(request.output, perf, "last_token_count"@)
                &&& request.provider == "KoboldCpp"@
                &&& request.model == "unknown"@
                &&& request.id == "generation-"@ + decimal(n as nat)
                &&& request.cached is None
                &&& request.completed
                &&& request.ttft_ms is None
                &&& request.observed_at is None
            }
        },
{
    counters_are_read_by_name(perf, "total_gens"@);
    counters_are_read_by_name(perf, "last_input_count"@);
    counters_are_read_by_name(perf, "last_token_count"@);
    measures_are_read_by_name(perf, "last_eval_speed"@);
    measures_are_read_by_name(perf, "last_process_speed"@);
}

/// Without a generation there is a reading of an idle server and no result.
pub proof fn idle_kobold_has_no_result(perf: JsonTree, now: Timestamp)
    requires
        tells(perf, "total_gens"@, 0),
    ensures
        kobold_reading(perf, now) == Some(
            TelemetryModel {
                source: TelemetrySource::Report,
                observed_at: Some(now),
                provider: Some("KoboldCpp"@),
                status: Some("idle"@),
                ..TelemetryModel::nothing()
            },
        ),
{
    counters_are_read_by_name(perf, "total_gens"@);
    assert(kobold_reading(perf, now)->0 =~= TelemetryModel {
        source: TelemetrySource::Report,
        observed_at: Some(now),
        provider: Some("KoboldCpp"@),
        status: Some("idle"@),
        ..TelemetryModel::nothing()
    });
}

/// An answer that does not count its generations is no reading.
pub proof fn kobold_answer_needs_a_count(perf: JsonTree, now: Timestamp)
    requires
        forall|n: u64| !#[trigger] tells(perf, "total_gens"@, n),
    ensures
        kobold_reading(perf, now) is None,
{
    counters_are_read_by_name(perf, "total_gens"@);
    if let Some(n) = perf.counter("total_gens"@) {
        assert(tells(perf, "total_gens"@, n));
    }
}

/// The part of a record that holds the counts: its usage, else its statistics, else the
/// record itself.
pub open spec fn holds_counts(record: JsonTree, part: JsonTree) -> bool {
    ||| holds_field(record, "usage"@, part)
    ||| lacks_field(record, "usage"@) && holds_field(record, "stats"@, part)
    ||| lacks_field(record, "usage"@) && lacks_field(record, "stats"@) && part == record
}

/// Whether a result is the first count that a document tells under some names, in the
/// order of the names.
pub open spec fn is_first_of(result: Option<u64>, part: JsonTree, names: Seq<Seq<char>>) -> bool {
    &&& result matches Some(n) ==> exists|k: int|
        0 <= k < names.len() && #[trigger] tells(part, names[k], n) && forall|j: int, m: u64|
            0 <= j < k ==> !#[trigger] tells(part, names[j], m)
    &&& result is None ==> forall|k: int, m: u64|
        0 <= k < names.len() ==> !#[trigger] tells(part, names[k], m)
}

/// Whether a record marks itself as a part of a response that is still being made.
pub open spec fn is_unfinished(record: JsonTree) -> bool {
    holds_field(record, "done"@, JsonTree::Bool(false))
}

/// A usage record that is read gives the counts of its own, each under the names that
/// servers use for it, to the reading and to its one request alike.
pub proof fn usage_record_is_read_field_by_field(record: JsonTree, part: JsonTree, now: Timestamp)
    requires
        holds_counts(record, part),
        reported_usage(record, now) is Some,
    ensures
        reported_usage(record, now) matches Some(reading) && {
            let request = reading.requests[0];
            &&& is_first_of(
                Some(request.prompt),
                part,
                seq!["prompt_tokens"@, "input_tokens"@, "prompt_eval_count"@],
            )
            &&& reading.prompt_tokens == Some(request.prompt)
            &&& is_first_of(
                request.output,
                part,
                seq!["completion_tokens"@, "output_tokens"@, "total_output_tokens"@, "eval_count"@],
            )
            &&& reading.output_tokens == request.output
            &&& is_count_within(
                request.ttft_ms,
                record,
                "timings"@,
                "time_to_first_token_ms"@,
            )
            &&& reading.model == Some(request.model)
            &&& reading.provider == Some(request.provider)
            &&& reading.status == Some("last result"@)
            &&& request.completed
            &&& Some(request.id) == record.identifier("request_id"@)
            &&& request.observed_at == reading.observed_at
        },
{
    lemma_part(record, part);
    lemma_first3(part, "prompt_tokens"@, "input_tokens"@, "prompt_eval_count"@);
    lemma_first4(
        part,
        "completion_tokens"@,
        "output_tokens"@,
        "total_output_tokens"@,
        "eval_count"@,
    );
    nested_counters_are_read_by_name(record, "timings"@, "time_to_first_token_ms"@);
}

proof fn lemma_part(record: JsonTree, part: JsonTree)
    requires
        holds_counts(record, part),
    ensures
        crate::providers::usage_part(record) == part,
{
    fields_are_found_by_name(record, "usage"@);
    fields_are_found_by_name(record, "stats"@);
}

proof fn lemma_first3(part: JsonTree, a: Seq<char>, b: Seq<char>, c: Seq<char>)
    ensures
        is_first_of(
            crate::providers::either(
                part.counter(a),
                crate::providers::either(part.counter(b), part.counter(c)),
            ),
            part,
            seq![a, b, c],
        ),
{
    counters_are_read_by_name(part, a);
    counters_are_read_by_name(part, b);
    counters_are_read_by_name(part, c);
    let names = seq![a, b, c];
    assert forall|j: int, m: u64| 0 <= j < 3 && part.counter(names[j]) is None implies
        !#[trigger] tells(part, names[j], m) by {}
    if let Some(n) = part.counter(a) {
        assert(tells(part, names[0], n));
    } else if let Some(n) = part.counter(b) {
        assert(tells(part, names[1], n));
    } else if let Some(n) = part.counter(c) {
        assert(tells(part, names[2], n));
    }
}

proof fn lemma_first4(part: JsonTree, a: Seq<char>, b: Seq<char>, c: Seq<char>, d: Seq<char>)
    ensures
        is_first_of(
            crate::providers::either(
                part.counter(a),
                crate::providers::either(
                    part.counter(b),
                    crate::providers::either(part.counter(c), part.counter(d)),
                ),
            ),
            part,
            seq![a, b, c, d],
        ),
{
    counters_are_read_by_name(part, a);
    counters_are_read_by_name(part, b);
    counters_are_read_by_name(part, c);
    counters_are_read_by_name(part, d);
    let names = seq![a, b, c, d];
    assert forall|j: int, m: u64| 0 <= j < 4 && part.counter(names[j]) is None implies
        !#[trigger] tells(part, names[j], m) by {}
    if let Some(n) = part.counter(a) {
        assert(tells(part, names[0], n));
    } else if let Some(n) = part.counter(b) {
        assert(tells(part, names[1], n));
    } else if let Some(n) = part.counter(c) {
        assert(tells(part, names[2], n));
    } else if let Some(n) = part.counter(d) {
        assert(tells(part, names[3], n));
    }
}

/// Whether a document tells a cached count: in the details of the prompt, else in those of
/// the input, else by itself.
pub open spec fn tells_cached(part: JsonTree, n: u64) -> bool {
    let details = |outer: Seq<char>, m: u64| tells_within(part, outer, "cached_tokens"@, m);
    ||| details("prompt_tokens_details"@, n)
    ||| (forall|m: u64| !#[trigger] tells_within(part, "prompt_tokens_details"@, "cached_tokens"@, m))
        && details("input_tokens_details"@, n)
    ||| (forall|m: u64| !#[trigger] tells_within(part, "prompt_tokens_details"@, "cached_tokens"@, m))
        && (forall|m: u64|
        !#[trigger] tells_within(part, "input_tokens_details"@, "cached_tokens"@, m)) && tells(
        part,
        "cached_tokens"@,
        n,
    )
}

/// The cached count of a record is the one that it tells, unless that exceeds the prompt.
pub proof fn cached_count_is_the_records_own(
    record: JsonTree,
    part: JsonTree,
    now: Timestamp,
    n: u64,
)
    requires
        holds_counts(record, part),
        reported_usage(record, now) is Some,
    ensures
        reported_usage(record, now)->0.requests[0].cached == Some(n) <==> tells_cached(part, n) && n
            <= reported_usage(record, now)->0.requests[0].prompt,
{
    lemma_part(record, part);
    nested_counters_are_read_by_name(part, "prompt_tokens_details"@, "cached_tokens"@);
    nested_counters_are_read_by_name(part, "input_tokens_details"@, "cached_tokens"@);
    counters_are_read_by_name(part, "cached_tokens"@);
    let x = part.nested_counter("prompt_tokens_details"@, "cached_tokens"@);
    let y = part.nested_counter("input_tokens_details"@, "cached_tokens"@);
    assert(x == Some(n) <==> tells_within(part, "prompt_tokens_details"@, "cached_tokens"@, n));
    assert(y == Some(n) <==> tells_within(part, "input_tokens_details"@, "cached_tokens"@, n));
    assert(part.counter("cached_tokens"@) == Some(n) <==> tells(part, "cached_tokens"@, n));
    if let Some(m) = x {
        assert(tells_within(part, "prompt_tokens_details"@, "cached_tokens"@, m));
    }
    if let Some(m) = y {
        assert(tells_within(part, "input_tokens_details"@, "cached_tokens"@, m));
    }
}

/// The model of a record is the one that it names, else its instance, else unknown.
pub proof fn model_is_the_records_own(record: JsonTree, now: Timestamp)
    requires
        reported_usage(record, now) is Some,
    ensures
        ({
            let model = reported_usage(record, now)->0.requests[0].model;
            &&& record.identifier("model"@) matches Some(name) ==> model == name
            &&& record.identifier("model"@) is None ==> (record.identifier(
                "model_instance_id"@,
            ) matches Some(name) ==> model == name)
            &&& record.identifier("model"@) is None && record.identifier(
                "model_instance_id"@,
            ) is None ==> model == "unknown"@
        }),
{
}

/// A record is read exactly if it is finished, names a known provider and a request, tells
/// a prompt count, and was observed at a time that has come.
pub proof fn usage_records_are_read_when_complete(
    record: JsonTree,
    part: JsonTree,
    now: Timestamp,
)
    requires
        holds_counts(record, part),
    ensures
        reported_usage(record, now) is Some <==> {
            &&& !is_unfinished(record)
            &&& record.identifier("request_id"@) is Some
            &&& exists|name: Seq<char>| #[trigger]
                holds_field(record, "provider"@, JsonTree::Text(name)) && canonical(name) is Some
            &&& exists|seconds: u64| #[trigger]
                tells(record, "observed_at"@, seconds) && seconds * 1_000_000_000 <= now.nanos
            &&& exists|n: u64|
                tells(part, "prompt_tokens"@, n) || tells(part, "input_tokens"@, n) || tells(
                    part,
                    "prompt_eval_count"@,
                    n,
                )
        },
        reported_usage(record, now) matches Some(reading) ==> {
            &&& reading.observed_at matches Some(at) && exists|seconds: u64| #[trigger]
                tells(record, "observed_at"@, seconds) && at.nanos == seconds * 1_000_000_000
            &&& exists|name: Seq<char>| #[trigger]
                holds_field(record, "provider"@, JsonTree::Text(name)) && canonical(name)
                    == reading.provider
        },
{
    lemma_part(record, part);
    fields_are_found_by_name(record, "done"@);
    fields_are_found_by_name(record, "provider"@);
    counters_are_read_by_name(record, "observed_at"@);
    counters_are_read_by_name(part, "prompt_tokens"@);
    counters_are_read_by_name(part, "input_tokens"@);
    counters_are_read_by_name(part, "prompt_eval_count"@);
    if let Some(tree) = record.field("done"@) {
        assert(holds_field(record, "done"@, tree));
    }
    assert(is_unfinished(record) <==> crate::providers::unfinished(record)) by {
        assert(record.field("done"@) == Some(JsonTree::Bool(false)) <==> holds_field(
            record,
            "done"@,
            JsonTree::Bool(false),
        ));
    }
    if let Some(tree) = record.field("provider"@) {
        assert(holds_field(record, "provider"@, tree));
        if let JsonTree::Text(name) = tree {
            assert(holds_field(record, "provider"@, JsonTree::Text(name)));
        }
    }
    if let Some(seconds) = record.counter("observed_at"@) {
        assert(tells(record, "observed_at"@, seconds));
        assert(0 <= seconds * 1_000_000_000 <= u64::MAX * 1_000_000_000) by (nonlinear_arith)
            requires
                0 <= seconds <= u64::MAX,
        ;
    }
    if let Some(n) = part.counter("prompt_tokens"@) {
        assert(tells(part, "prompt_tokens"@, n));
    }
    if let Some(n) = part.counter("input_tokens"@) {
        assert(tells(part, "input_tokens"@, n));
    }
    if let Some(n) = part.counter("prompt_eval_count"@) {
        assert(tells(part, "prompt_eval_count"@, n));
    }
}

/// A request that an oMLX server lists is read field by field. It is left out without an
/// identifier or a prompt count, and while it waits untokenized.
pub proof fn omlx_request_is_read_field_by_field(
    model: JsonTree,
    request: JsonTree,
    waiting: bool,
    now: Timestamp,
)
    ensures
        ({
            let listed = omlx_phase(model, seq![request], waiting, now);
            &&& listed.len() == if request.identifier("request_id"@) is Some && exists|n: u64|
                #[trigger] tells(request, "prompt_tokens"@, n) && (n > 0 || !waiting) {
                1nat
            } else {
                0
            }
            &&& listed.len() == 1 ==> {
                let usage = listed[0];
                &&& Some(usage.id) == request.identifier("request_id"@)
                &&& is_count_of(Some(usage.prompt), request, "prompt_tokens"@)
                &&& is_count_of(usage.output, request, "generated_tokens"@)
                &&& forall|n: u64|
                    usage.cached == Some(n) <==> #[trigger] tells(request, "cached_tokens"@, n) && n
                        <= usage.prompt
                &&& usage.provider == "oMLX"@
                &&& usage.model == (match model.identifier("id"@) {
                    Some(name) => name,
                    None => "unknown"@,
                })
                &&& !usage.completed
                &&& usage.ttft_ms is None
                &&& usage.observed_at == Some(now)
            }
        }),
{
    counters_are_read_by_name(request, "prompt_tokens"@);
    counters_are_read_by_name(request, "generated_tokens"@);
    counters_are_read_by_name(request, "cached_tokens"@);
    let one = seq![request];
    assert(one.drop_last() =~= Seq::empty());
    assert(omlx_phase(model, one.drop_last(), waiting, now) =~= Seq::empty());
    if let Some(n) = request.counter("prompt_tokens"@) {
        assert(tells(request, "prompt_tokens"@, n));
    }
}

/// Requests are listed in the order of their phase's list, one by one.
pub proof fn omlx_phases_are_read_in_order(
    model: JsonTree,
    requests: Seq<JsonTree>,
    more: Seq<JsonTree>,
    waiting: bool,
    now: Timestamp,
)
    ensures
        omlx_phase(model, requests + more, waiting, now) == omlx_phase(
            model,
            requests,
            waiting,
            now,
        ) + omlx_phase(model, more, waiting, now),
    decreases more.len(),
{
    if more.len() == 0 {
        assert(requests + more =~= requests);
        assert(omlx_phase(model, requests, waiting, now) + omlx_phase(model, more, waiting, now)
            =~= omlx_phase(model, requests, waiting, now));
    } else {
        omlx_phases_are_read_in_order(model, requests, more.drop_last(), waiting, now);
        assert((requests + more).drop_last() =~= requests + more.drop_last());
        assert(omlx_phase(model, requests + more, waiting, now) =~= omlx_phase(
            model,
            requests,
            waiting,
            now,
        ) + omlx_phase(model, more, waiting, now));
    }
}

/// Whether this is the list that stands under a name; empty, where none does.
pub open spec fn is_list_of(items: Seq<JsonTree>, tree: JsonTree, name: Seq<char>) -> bool {
    ||| holds_field(tree, name, JsonTree::Array(items))
    ||| items.len() == 0 && forall|other: Seq<JsonTree>|
        !#[trigger] holds_field(tree, name, JsonTree::Array(other))
}

/// The requests of a model are those that generate, then those that prefill, then those
/// that wait; and models follow one another in the order of their list.
pub proof fn omlx_models_are_read_in_order(
    stats: JsonTree,
    active: JsonTree,
    models: Seq<JsonTree>,
    model: JsonTree,
    generating: Seq<JsonTree>,
    prefilling: Seq<JsonTree>,
    waiting: Seq<JsonTree>,
    now: Timestamp,
)
    requires
        holds_field(stats, "active_models"@, active),
        holds_field(active, "models"@, JsonTree::Array(models.push(model))),
        is_list_of(generating, model, "generating"@),
        is_list_of(prefilling, model, "prefilling"@),
        is_list_of(waiting, model, "waiting"@),
    ensures
        omlx_listed(stats, now) == omlx_models(models, now) + omlx_phase(
            model,
            generating,
            false,
            now,
        ) + omlx_phase(model, prefilling, false, now) + omlx_phase(model, waiting, true, now),
        omlx_models(Seq::empty(), now) == Seq::<UsageModel>::empty(),
{
    fields_are_found_by_name(stats, "active_models"@);
    fields_are_found_by_name(active, "models"@);
    lemma_list(model, "generating"@, generating);
    lemma_list(model, "prefilling"@, prefilling);
    lemma_list(model, "waiting"@, waiting);
    assert(models.push(model).drop_last() =~= models);
    assert(omlx_listed(stats, now) =~= omlx_models(models, now) + omlx_phase(
        model,
        generating,
        false,
        now,
    ) + omlx_phase(model, prefilling, false, now) + omlx_phase(model, waiting, true, now));
}

proof fn lemma_list(tree: JsonTree, name: Seq<char>, items: Seq<JsonTree>)
    requires
        is_list_of(items, tree, name),
    ensures
        tree.list(name) == items,
{
    fields_are_found_by_name(tree, name);
    if let Some(value) = tree.field(name) {
        assert(holds_field(tree, name, value));
        if let JsonTree::Array(other) = value {
            assert(holds_field(tree, name, JsonTree::Array(other)));
        }
    }
    assert(tree.list(name) =~= items);
}

/// Whether a slot is at work.
pub open spec fn at_work(slot: JsonTree) -> bool {
    holds_field(slot, "is_processing"@, JsonTree::Bool(true))
}

/// The slots at work are counted one by one, and their output is summed one by one: it is
/// known only where every slot at work tells its own, and idle slots do not matter.
pub proof fn slots_add_up(slots: Seq<JsonTree>, slot: JsonTree, n: u64)
    ensures
        active_slots(Seq::empty()) == 0,
        decoded_tokens(Seq::empty()) == Some(0nat),
        active_slots(slots.push(slot)) == active_slots(slots) + if at_work(slot) {
            1nat
        } else {
            0
        },
        !at_work(slot) ==> decoded_tokens(slots.push(slot)) == decoded_tokens(slots),
        at_work(slot) && tells_within(slot, "next_token"@, "n_decoded"@, n) ==> decoded_tokens(
            slots.push(slot),
        ) == (match decoded_tokens(slots) {
            Some(sum) => Some(sum + n as nat),
            None => None,
        }),
        at_work(slot) && (forall|m: u64|
            !#[trigger] tells_within(slot, "next_token"@, "n_decoded"@, m)) ==> decoded_tokens(
            slots.push(slot),
        ) is None,
{
    fields_are_found_by_name(slot, "is_processing"@);
    nested_counters_are_read_by_name(slot, "next_token"@, "n_decoded"@);
    assert(slots.push(slot).drop_last() =~= slots);
    if let Some(tree) = slot.field("is_processing"@) {
        assert(holds_field(slot, "is_processing"@, tree));
    }
    assert(at_work(slot) <==> crate::llama::slot_state(slot) == Some(true));
    if let Some(m) = slot.nested_counter("next_token"@, "n_decoded"@) {
        assert(tells_within(slot, "next_token"@, "n_decoded"@, m));
    }
}

/// A reading of the slots shows what they add up to, now, and nothing else.
pub proof fn slots_reading_shows_the_sums(slots: Seq<JsonTree>, now: Timestamp)
    requires
        slots.len() <= u64::MAX,
    ensures
        slots_reading(JsonTree::Array(slots), now) matches Some(reading) ==> {
            &&& reading.active_requests matches Some(n) && n == active_slots(slots)
            &&& reading.status == Some(
                if active_slots(slots) == 0 {
                    "idle"@
                } else {
                    "processing"@
                },
            )
            &&& reading.output_tokens matches Some(n) ==> active_slots(slots) > 0
                && decoded_tokens(slots) == Some(n as nat)
            &&& reading.output_tokens is None ==> active_slots(slots) == 0 || decoded_tokens(
                slots,
            ) is None || decoded_tokens(slots)->0 > u64::MAX
            &&& reading.provider == Some("llama.cpp"@)
            &&& reading.observed_at == Some(now)
            &&& reading.waiting_requests is None
            &&& reading.model is None
            &&& reading.prefill_tps is None
            &&& reading.cache_efficiency is None
            &&& !reading.generation_tps_live
            &&& !reading.prefill_tps_live
        },
        slots_reading(JsonTree::Null, now) is None,
        slots_reading(JsonTree::Object(Seq::empty()), now) is None,
{
    lemma_active(slots);
}

proof fn lemma_active(slots: Seq<JsonTree>)
    ensures
        active_slots(slots) <= slots.len(),
    decreases slots.len(),
{
    if slots.len() > 0 {
        lemma_active(slots.drop_last());
    }
}

/// Gauges go into a reading each under its own name, over what the slots said; a reading of
/// gauges alone is a live one of now. The count of requests at work is the slots' own where
/// they tell one.
pub proof fn gauges_go_into_the_reading(
    slots: Option<TelemetryModel>,
    metrics: LlamaMetrics,
    now: Timestamp,
)
    requires
        metrics.generation is Some || metrics.prefill is Some || metrics.active is Some
            || metrics.waiting is Some,
    ensures
        with_metrics(slots, Some(metrics), now) matches Some(reading) && {
            &&& reading.generation_tps == metrics.generation
            &&& reading.prefill_tps == metrics.prefill
            &&& reading.waiting_requests == metrics.waiting
            &&& slots is None ==> {
                &&& reading.active_requests == metrics.active
                &&& reading.source == TelemetrySource::Live
                &&& reading.observed_at == Some(now)
                &&& reading.provider == Some("llama.cpp"@)
                &&& reading.output_tokens is None
                &&& reading.prompt_tokens is None
                &&& reading.model is None
                &&& reading.cache_efficiency is None
                &&& !reading.generation_tps_live
                &&& !reading.prefill_tps_live
                &&& reading.requests.len() == 0
            }
            &&& slots matches Some(before) ==> {
                &&& reading.source == before.source
                &&& reading.observed_at == before.observed_at
                &&& reading.provider == before.provider
                &&& reading.model == before.model
                &&& reading.cache_efficiency == before.cache_efficiency
                &&& before.active_requests is None ==> reading.active_requests == metrics.active
            }
            &&& reading.active_requests is None ==> reading.status == Some("running"@)
            &&& reading.active_requests matches Some(n) ==> reading.status == Some(
                if n == 0 && (metrics.waiting is None || metrics.waiting == Some(0u64)) {
                    "idle"@
                } else {
                    "processing"@
                },
            )
        },
        with_metrics(
            slots,
            Some(LlamaMetrics { generation: None, prefill: None, active: None, waiting: None }),
            now,
        ) == slots,
{
}

/// The slots are read exactly if each of them says whether it is at work.
pub proof fn slots_are_read_when_all_tell(slots: Seq<JsonTree>, now: Timestamp)
    ensures
        slots_reading(JsonTree::Array(slots), now) is Some <==> forall|i: int|
            0 <= i < slots.len() ==> (holds_field(
                #[trigger] slots[i],
                "is_processing"@,
                JsonTree::Bool(true),
            ) || holds_field(slots[i], "is_processing"@, JsonTree::Bool(false))),
{
    assert forall|i: int| 0 <= i < slots.len() implies (crate::llama::slot_state(
        #[trigger] slots[i],
    ) is Some <==> holds_field(slots[i], "is_processing"@, JsonTree::Bool(true)) || holds_field(
        slots[i],
        "is_processing"@,
        JsonTree::Bool(false),
    )) by {
        fields_are_found_by_name(slots[i], "is_processing"@);
        if let Some(tree) = slots[i].field("is_processing"@) {
            assert(holds_field(slots[i], "is_processing"@, tree));
            if let JsonTree::Bool(state) = tree {
                assert(state || tree == JsonTree::Bool(false));
            }
        }
    }
}

/// Statistics without a list of models list no request.
pub proof fn nothing_is_listed_without_models(stats: JsonTree, now: Timestamp)
    requires
        forall|active: JsonTree, models: Seq<JsonTree>|
            !(#[trigger] holds_field(stats, "active_models"@, active) && #[trigger] holds_field(
                active,
                "models"@,
                JsonTree::Array(models),
            )),
    ensures
        omlx_listed(stats, now) == Seq::<UsageModel>::empty(),
{
    fields_are_found_by_name(stats, "active_models"@);
    if let Some(active) = stats.field("active_models"@) {
        assert(holds_field(stats, "active_models"@, active));
        fields_are_found_by_name(active, "models"@);
        if let Some(JsonTree::Array(models)) = active.field("models"@) {
            assert(holds_field(active, "models"@, JsonTree::Array(models)));
        }
    }
}

} // verus!
