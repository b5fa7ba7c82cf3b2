//! What servers and clients tell of requests.
use crate::json::JsonTree;
use crate::kobold::kobold_reading;
use crate::laws::text::lowering_is_final;
use crate::llama::{active_slots, slot_state, slots_reading, with_metrics, LlamaMetrics};
use crate::providers::{
    canonical, journal_after, omlx_listed, omlx_model, omlx_models, omlx_phase, reported_usage,
    UsageModel, IDENTIFIER_LIMIT, JOURNAL_LIMIT,
};
use crate::recent::newest;
use crate::telemetry::{TelemetryModel, TelemetrySource};
use crate::text::{is_control, lowered, visible};
use crate::time::Timestamp;
use vstd::prelude::*;

verus! {

/// Whether a cached count is part of the prompt that it belongs to.
pub open spec fn plausible(usage: UsageModel) -> bool {
    usage.cached matches Some(cached) ==> cached <= usage.prompt
}

/// Whether a text can stand as an identifier: some characters, not too many, and none
/// that controls the terminal.
pub open spec fn presentable(s: Seq<char>) -> bool {
    &&& 0 < s.len() <= IDENTIFIER_LIMIT
    &&& forall|i: int| 0 <= i < s.len() ==> !is_control(#[trigger] s[i])
}

/// What is kept of an identifier can be shown on a terminal.
pub proof fn identifiers_are_presentable(tree: JsonTree, name: Seq<char>)
    ensures
        tree.identifier(name) matches Some(id) ==> presentable(id),
{
    if let Some(id) = tree.identifier(name) {
        let raw = match tree.field(name) {
            Some(JsonTree::Text(text)) => text,
            Some(JsonTree::Number(number)) => number.text,
            _ => Seq::empty(),
        };
        let kept = raw.filter(visible());
        broadcast use vstd::seq_lib::group_filter_ensures;

        assert forall|i: int| 0 <= i < id.len() implies !is_control(#[trigger] id[i]) by {
            assert(id[i] == kept[i]);
            assert(visible()(kept[i]));
        }
    }
}

/// What an oMLX server lists is at work: not completed, without a first-token time,
/// with a cached count only as part of its own prompt.
pub open spec fn at_work(usage: UsageModel, now: Timestamp) -> bool {
    &&& usage.provider == "oMLX"@
    &&& plausible(usage)
    &&& presentable(usage.id)
    &&& !usage.completed
    &&& usage.ttft_ms is None
    &&& usage.observed_at == Some(now)
}

proof fn phase_is_at_work(
    model: JsonTree,
    requests: Seq<JsonTree>,
    waiting: bool,
    now: Timestamp,
)
    ensures
        forall|i: int|
            0 <= i < omlx_phase(model, requests, waiting, now).len() ==> at_work(
                #[trigger] omlx_phase(model, requests, waiting, now)[i],
                now,
            ) && (waiting ==> omlx_phase(model, requests, waiting, now)[i].prompt > 0),
    decreases requests.len(),
{
    if requests.len() > 0 {
        phase_is_at_work(model, requests.drop_last(), waiting, now);
        identifiers_are_presentable(requests.last(), "request_id"@);
    }
}

proof fn models_are_at_work(models: Seq<JsonTree>, now: Timestamp)
    ensures
        forall|i: int|
            0 <= i < omlx_models(models, now).len() ==> at_work(
                #[trigger] omlx_models(models, now)[i],
                now,
            ),
    decreases models.len(),
{
    if models.len() > 0 {
        let model = models.last();
        models_are_at_work(models.drop_last(), now);
        phase_is_at_work(model, model.list("generating"@), false, now);
        phase_is_at_work(model, model.list("prefilling"@), false, now);
        phase_is_at_work(model, model.list("waiting"@), true, now);
        let before = omlx_models(models.drop_last(), now);
        let all = omlx_models(models, now);
        let listed = omlx_model(model, now);
        let a = omlx_phase(model, model.list("generating"@), false, now);
        let b = omlx_phase(model, model.list("prefilling"@), false, now);
        let c = omlx_phase(model, model.list("waiting"@), true, now);
        assert forall|i: int| 0 <= i < all.len() implies at_work(#[trigger] all[i], now) by {
            let k = i - before.len();
            if k < 0 {
                assert(all[i] == before[i]);
            } else if k < a.len() {
                assert(all[i] == a[k]);
            } else if k < a.len() + b.len() {
                assert(all[i] == b[k - a.len()]);
            } else {
                assert(all[i] == c[k - a.len() - b.len()]);
            }
        }
    }
}

/// Every request that an oMLX server lists is shown as at work, and its cached count is
/// its own: no aggregate of the server stands in for it.
pub proof fn omlx_requests_are_at_work(stats: JsonTree, now: Timestamp)
    ensures
        forall|i: int|
            0 <= i < omlx_listed(stats, now).len() ==> at_work(
                #[trigger] omlx_listed(stats, now)[i],
                now,
            ),
{
    if let Some(JsonTree::Array(models)) = stats.nested("active_models"@, "models"@) {
        models_are_at_work(models, now);
    }
}

/// A usage record gives one finished request: reported, never live, at its own time,
/// which is not in the future, and without a share of any aggregate.
pub proof fn reported_usage_is_of_the_past(record: JsonTree, now: Timestamp)
    ensures
        reported_usage(record, now) matches Some(reading) ==> {
            &&& reading.source == TelemetrySource::Report
            &&& !reading.generation_tps_live
            &&& !reading.prefill_tps_live
            &&& reading.generation_tps is None
            &&& reading.prefill_tps is None
            &&& reading.cache_efficiency is None
            &&& reading.active_requests is None
            &&& reading.waiting_requests is None
            &&& reading.requests.len() == 1
            &&& reading.requests[0].completed
            &&& reading.requests[0].observed_at == reading.observed_at
            &&& reading.observed_at matches Some(at) && at.nanos <= now.nanos
            &&& reading.prompt_tokens == Some(reading.requests[0].prompt)
            &&& reading.provider == Some(reading.requests[0].provider)
            &&& plausible(reading.requests[0])
            &&& presentable(reading.requests[0].id)
        },
{
    identifiers_are_presentable(record, "request_id"@);
}

/// A record that was read once reads the same at any later time.
pub proof fn reported_usage_keeps_its_time(record: JsonTree, now: Timestamp, later: Timestamp)
    requires
        reported_usage(record, now) is Some,
        now.nanos <= later.nanos,
    ensures
        reported_usage(record, later) == reported_usage(record, now),
{
}

/// What a KoboldCpp server says of its last result never becomes a live rate, and
/// without a generation there is no result.
pub proof fn kobold_result_is_never_live(perf: JsonTree, now: Timestamp)
    ensures
        kobold_reading(perf, now) is Some <==> perf.counter("total_gens"@) is Some,
        kobold_reading(perf, now) matches Some(reading) ==> {
            &&& reading.source == TelemetrySource::Report
            &&& !reading.generation_tps_live
            &&& !reading.prefill_tps_live
            &&& reading.active_requests is None
            &&& reading.requests.len() <= 1
            &&& reading.requests.len() == 1 <==> reading.prompt_tokens is Some
            &&& perf.counter("total_gens"@) == Some(0u64) ==> {
                &&& reading.prompt_tokens is None
                &&& reading.output_tokens is None
                &&& reading.generation_tps is None
                &&& reading.prefill_tps is None
                &&& reading.requests.len() == 0
            }
        },
{
}

proof fn lemma_active_slots(slots: Seq<JsonTree>)
    ensures
        active_slots(slots) <= slots.len(),
    decreases slots.len(),
{
    if slots.len() > 0 {
        lemma_active_slots(slots.drop_last());
    }
}

/// Slots tell no prompt count: neither a slot's capacity nor its work is one. Idle
/// slots tell no output either, and unless every slot tells its state, there is no
/// reading.
pub proof fn slots_tell_no_prompt(slots: Seq<JsonTree>, now: Timestamp)
    requires
        slots.len() <= u64::MAX,
    ensures
        slots_reading(JsonTree::Array(slots), now) is Some <==> forall|i: int|
            0 <= i < slots.len() ==> slot_state(#[trigger] slots[i]) is Some,
        slots_reading(JsonTree::Array(slots), now) matches Some(reading) ==> {
            &&& reading.source == TelemetrySource::Live
            &&& reading.prompt_tokens is None
            &&& reading.requests.len() == 0
            &&& reading.generation_tps is None
            &&& reading.active_requests matches Some(n) && n == active_slots(slots) <= slots.len()
            &&& active_slots(slots) == 0 ==> reading.output_tokens is None && reading.status
                == Some("idle"@)
        },
{
    lemma_active_slots(slots);
}

/// The gauges of a metrics page are averages: with them a reading still claims no live
/// rate, and its own count of active requests, its output and its requests stand.
pub proof fn metrics_are_not_live_rates(
    slots: Option<TelemetryModel>,
    metrics: Option<LlamaMetrics>,
    now: Timestamp,
)
    requires
        slots matches Some(reading) ==> !reading.generation_tps_live && !reading.prefill_tps_live,
    ensures
        with_metrics(slots, metrics, now) matches Some(reading) ==> !reading.generation_tps_live
            && !reading.prefill_tps_live,
        slots matches Some(before) ==> {
            &&& with_metrics(slots, metrics, now) matches Some(after)
            &&& before.active_requests is Some ==> after.active_requests
                == before.active_requests
            &&& after.output_tokens == before.output_tokens
            &&& after.prompt_tokens == before.prompt_tokens
            &&& after.requests == before.requests
        },
        metrics is None ==> with_metrics(slots, metrics, now) == slots,
        slots is None && with_metrics(slots, metrics, now) is Some ==> metrics is Some,
{
}

/// Offering a request to the journal a second time adds nothing, and the journal stays
/// within its limit.
pub proof fn journal_enters_a_request_once(seen: Seq<(Seq<char>, u64)>, request: UsageModel)
    requires
        seen.len() <= JOURNAL_LIMIT,
    ensures
        journal_after(seen, request).len() <= JOURNAL_LIMIT,
        journal_after(seen, request).contains((request.key(), request.prompt)),
        journal_after(journal_after(seen, request), request) == journal_after(seen, request),
{
    let after = journal_after(seen, request);
    if !seen.contains((request.key(), request.prompt)) {
        assert(after[after.len() - 1] == (request.key(), request.prompt));
    }
}

/// The journal never remembers a request twice with the same prompt count.
pub proof fn journal_has_no_duplicates(seen: Seq<(Seq<char>, u64)>, request: UsageModel)
    requires
        seen.no_duplicates(),
    ensures
        journal_after(seen, request).no_duplicates(),
{
    let wanted = (request.key(), request.prompt);
    if !seen.contains(wanted) {
        let all = seen.push(wanted);
        let kept = newest(all, JOURNAL_LIMIT as nat);
        let dropped = all.len() - kept.len();
        assert forall|i: int, j: int| 0 <= i < kept.len() && 0 <= j < kept.len() && i != j implies
            kept[i] != kept[j] by {
            assert(kept[i] == all[dropped + i]);
            assert(kept[j] == all[dropped + j]);
            if dropped + i == seen.len() {
                assert(seen.contains(all[dropped + j]));
            } else if dropped + j == seen.len() {
                assert(seen.contains(all[dropped + i]));
            }
        }
    }
}

/// Whether a name could be mistaken for more than one part of a key.
pub open spec fn has_null(s: Seq<char>) -> bool {
    s.contains('\0')
}

proof fn lemma_split_at_null(a: Seq<char>, rest: Seq<char>, b: Seq<char>, other: Seq<char>)
    requires
        !has_null(a),
        !has_null(b),
        a.push('\0') + rest == b.push('\0') + other,
    ensures
        a == b,
        rest == other,
{
    let s = a.push('\0') + rest;
    let t = b.push('\0') + other;
    if a.len() < b.len() {
        assert(s[a.len() as int] == '\0');
        assert(t[a.len() as int] == b[a.len() as int]);
        assert(b.contains('\0'));
    } else if b.len() < a.len() {
        assert(t[b.len() as int] == '\0');
        assert(s[b.len() as int] == a[b.len() as int]);
        assert(a.contains('\0'));
    }
    assert forall|i: int| 0 <= i < a.len() implies a[i] == b[i] by {
        assert(s[i] == a[i]);
        assert(t[i] == b[i]);
    }
    assert(a =~= b);
    assert(s.skip(a.len() as int + 1) =~= rest);
    assert(t.skip(b.len() as int + 1) =~= other);
}

/// Two requests have the same key exactly if they are the same request, wherever
/// providers and models are named without null characters.
pub proof fn keys_tell_requests_apart(a: UsageModel, b: UsageModel)
    requires
        !has_null(a.provider),
        !has_null(a.model),
        !has_null(b.provider),
        !has_null(b.model),
    ensures
        a.key() == b.key() <==> a.same(b),
{
    if a.key() == b.key() {
        assert(a.key() =~= a.provider.push('\0') + (a.model.push('\0') + a.id));
        assert(b.key() =~= b.provider.push('\0') + (b.model.push('\0') + b.id));
        lemma_split_at_null(
            a.provider,
            a.model.push('\0') + a.id,
            b.provider,
            b.model.push('\0') + b.id,
        );
        lemma_split_at_null(a.model, a.id, b.model, b.id);
    }
}

/// A name that can be presented holds no null character.
pub proof fn presentable_names_have_no_null(s: Seq<char>)
    requires
        presentable(s),
    ensures
        !has_null(s),
{
    if has_null(s) {
        let i = choose|i: int| 0 <= i < s.len() && s[i] == '\0';
        assert(is_control(s[i]));
    }
}

/// The case of a provider's name does not matter.
pub proof fn provider_names_ignore_case(name: Seq<char>)
    ensures
        canonical(lowered(name)) == canonical(name),
{
    lowering_is_final(name);
}

/// The name under which a provider is known is one of its names.
pub proof fn canonical_names_stand_for_themselves(name: Seq<char>)
    ensures
        canonical(name) matches Some(known) ==> canonical(known) == Some(known),
{
    reveal_strlit("oMLX");
    reveal_strlit("omlx");
    reveal_strlit("mlx-lm");
    reveal_strlit("mlx_lm.server");
    reveal_strlit("mlx_lm");
    reveal_strlit("Ollama");
    reveal_strlit("ollama");
    reveal_strlit("llama.cpp");
    reveal_strlit("llama-server");
    reveal_strlit("LM Studio");
    reveal_strlit("lm studio");
    reveal_strlit("lmstudio");
    reveal_strlit("KoboldCpp");
    reveal_strlit("koboldcpp");
    reveal_strlit("LocalAI");
    reveal_strlit("localai");
    assert(lowered("oMLX"@) =~= "omlx"@);
    assert(lowered("mlx-lm"@) =~= "mlx-lm"@);
    assert(lowered("Ollama"@) =~= "ollama"@);
    assert(lowered("llama.cpp"@) =~= "llama.cpp"@);
    assert(lowered("LM Studio"@) =~= "lm studio"@);
    assert(lowered("KoboldCpp"@) =~= "koboldcpp"@);
    assert(lowered("LocalAI"@) =~= "localai"@);
    assert("mlx-lm"@.len() != "omlx"@.len());
    assert("ollama"@ != "mlx_lm"@) by {
        assert("ollama"@[0] != "mlx_lm"@[0]);
    }
    assert("ollama"@ != "mlx-lm"@) by {
        assert("ollama"@[0] != "mlx-lm"@[0]);
    }
    assert("lm studio"@ != "llama.cpp"@) by {
        assert("lm studio"@[1] != "llama.cpp"@[1]);
    }
    assert("koboldcpp"@ != "llama.cpp"@) by {
        assert("koboldcpp"@[0] != "llama.cpp"@[0]);
    }
    assert("koboldcpp"@ != "lm studio"@) by {
        assert("koboldcpp"@[0] != "lm studio"@[0]);
    }
}

} // verus!
