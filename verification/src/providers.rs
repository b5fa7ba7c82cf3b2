//! Read-only provider adapters. Only counters and identifiers cross into samples.
use crate::json::{trees_of, Json, JsonTree};
use crate::recent::{keep_newest, newest};
use crate::telemetry::{LlmTelemetry, TelemetryModel, TelemetrySource};
use crate::text::{
    decimal, lowered, printable, push_count, push_decimal, same_text, shown_count, to_lower,
    to_printable,
};
use crate::time::Timestamp;
use std::collections::VecDeque;
use vstd::prelude::*;

verus! {

/// How many requests the journal remembers.
pub const JOURNAL_LIMIT: usize = 512;

/// What is known of one request to a model server.
#[derive(Debug)]
pub struct RequestUsage {
    pub provider: String,
    pub model: String,
    pub id: String,
    pub prompt: u64,
    pub cached: Option<u64>,
    pub output: Option<u64>,
    pub completed: bool,
    pub ttft_ms: Option<u64>,
    pub observed_at: Option<Timestamp>,
}

/// The content of a [`RequestUsage`].
pub struct UsageModel {
    pub provider: Seq<char>,
    pub model: Seq<char>,
    pub id: Seq<char>,
    pub prompt: u64,
    pub cached: Option<u64>,
    pub output: Option<u64>,
    pub completed: bool,
    pub ttft_ms: Option<u64>,
    pub observed_at: Option<Timestamp>,
}

impl DeepView for RequestUsage {
    type V = UsageModel;

    open spec fn deep_view(&self) -> UsageModel {
        UsageModel {
            provider: self.provider@,
            model: self.model@,
            id: self.id@,
            prompt: self.prompt,
            cached: self.cached,
            output: self.output,
            completed: self.completed,
            ttft_ms: self.ttft_ms,
            observed_at: self.observed_at,
        }
    }
}

impl Clone for RequestUsage {
    fn clone(&self) -> (r: Self)
        ensures
            r.deep_view() == self.deep_view(),
    {
        RequestUsage {
            provider: self.provider.clone(),
            model: self.model.clone(),
            id: self.id.clone(),
            prompt: self.prompt,
            cached: self.cached,
            output: self.output,
            completed: self.completed,
            ttft_ms: self.ttft_ms,
            observed_at: self.observed_at,
        }
    }
}

impl UsageModel {
    /// Whether two readings are of the same request.
    pub open spec fn same(self, other: UsageModel) -> bool {
        self.id == other.id && self.provider == other.provider && self.model == other.model
    }

    /// Whether two requests went to the same model of the same provider.
    pub open spec fn comparable(self, other: UsageModel) -> bool {
        self.provider == other.provider && self.model == other.model
    }

    /// The journal line of a request.
    pub open spec fn summary(self) -> Seq<char> {
        let head = (if self.completed {
            "reported"@
        } else {
            "observed"@
        }) + " prompt "@ + decimal(self.prompt as nat) + " · out "@ + shown_count(self.output)
            + " · "@ + self.provider + " · "@ + self.model + " · "@ + self.id;
        let cached = match self.cached {
            Some(n) => head + " · cached "@ + decimal(n as nat),
            None => head,
        };
        match self.ttft_ms {
            Some(n) => cached + " · first token "@ + decimal(n as nat) + " ms (reported)"@,
            None => cached,
        }
    }

    /// The text by which a request is told from others: provider, model and
    /// identifier, with a null character between them.
    pub open spec fn key(self) -> Seq<char> {
        (self.provider.push('\0') + self.model).push('\0') + self.id
    }
}

/// Whether two readings are of the same request.
pub fn same_request(a: &RequestUsage, b: &RequestUsage) -> (r: bool)
    ensures
        r == a.deep_view().same(b.deep_view()),
{
    a.id == b.id && a.provider == b.provider && a.model == b.model
}

/// Whether two requests went to the same model of the same provider.
pub fn comparable(a: &RequestUsage, b: &RequestUsage) -> (r: bool)
    ensures
        r == a.deep_view().comparable(b.deep_view()),
{
    a.provider == b.provider && a.model == b.model
}

impl RequestUsage {
    /// The journal line of the request.
    pub fn summary(&self) -> (r: String)
        ensures
            r@ == self.deep_view().summary(),
    {
        let mut text = if self.completed {
            "reported".to_owned()
        } else {
            "observed".to_owned()
        };
        text.append(" prompt ");
        push_decimal(&mut text, self.prompt);
        text.append(" · out ");
        push_count(&mut text, self.output);
        text.append(" · ");
        text.append(self.provider.as_str());
        text.append(" · ");
        text.append(self.model.as_str());
        text.append(" · ");
        text.append(self.id.as_str());
        if let Some(cached) = self.cached {
            text.append(" · cached ");
            push_decimal(&mut text, cached);
        }
        if let Some(ttft) = self.ttft_ms {
            text.append(" · first token ");
            push_decimal(&mut text, ttft);
            text.append(" ms (reported)");
        }
        text
    }

    /// The text by which the request is told from others.
    pub fn key(&self) -> (r: String)
        ensures
            r@ == self.deep_view().key(),
    {
        let mut text = self.provider.clone();
        text.push('\0');
        text.append(self.model.as_str());
        text.push('\0');
        text.append(self.id.as_str());
        text
    }
}

/// The journal's memory after a request has been offered to it.
pub open spec fn journal_after(seen: Seq<(Seq<char>, u64)>, request: UsageModel) -> Seq<
    (Seq<char>, u64),
> {
    if seen.contains((request.key(), request.prompt)) {
        seen
    } else {
        newest(seen.push((request.key(), request.prompt)), JOURNAL_LIMIT as nat)
    }
}

/// The line that a request gets in the journal: none, if the same request with the same
/// prompt count is remembered.
pub open spec fn journal_line(seen: Seq<(Seq<char>, u64)>, request: UsageModel) -> Option<
    Seq<char>,
> {
    if seen.contains((request.key(), request.prompt)) {
        None
    } else {
        Some(request.summary())
    }
}

/// Enters a request into the journal: its line, unless the same request with the
/// same prompt count is remembered.
pub fn new_request_summary(seen: &mut VecDeque<(String, u64)>, request: &RequestUsage) -> (r:
    Option<String>)
    ensures
        final(seen).deep_view() == journal_after(old(seen).deep_view(), request.deep_view()),
        r.deep_view() == journal_line(old(seen).deep_view(), request.deep_view()),
{
    let key = request.key();
    let ghost all = seen.deep_view();
    let ghost wanted = (key@, request.prompt);
    let mut i: usize = 0;
    while i < seen.len()
        invariant
            i <= seen@.len(),
            seen.deep_view() == all,
            old(seen).deep_view() == all,
            key@ == request.deep_view().key(),
            wanted == (key@, request.prompt),
            forall|k: int| 0 <= k < i ==> all[k] != wanted,
        decreases seen@.len() - i,
    {
        assert(all[i as int] == (seen@[i as int].0@, seen@[i as int].1));
        if seen[i].0 == key && seen[i].1 == request.prompt {
            return None;
        }
        i += 1;
    }
    assert(!all.contains(wanted));
    seen.push_back((key, request.prompt));
    assert(seen.deep_view() =~= all.push(wanted));
    keep_newest(seen, JOURNAL_LIMIT);
    assert(seen.deep_view() =~= newest(all.push(wanted), JOURNAL_LIMIT as nat));
    Some(request.summary())
}

/// The longest identifier that is kept, in characters.
pub const IDENTIFIER_LIMIT: usize = 120;

/// The first of two readings that is there.
pub open spec fn either<T>(first: Option<T>, second: Option<T>) -> Option<T> {
    match first {
        Some(value) => Some(value),
        None => second,
    }
}

/// A cached count, unless it exceeds the prompt that it is part of.
pub open spec fn plausible_cache(cached: Option<u64>, prompt: u64) -> Option<u64> {
    match cached {
        Some(n) => if n <= prompt {
            Some(n)
        } else {
            None
        },
        None => None,
    }
}

/// A cached count, unless it exceeds the prompt that it is part of.
pub fn keep_plausible(cached: Option<u64>, prompt: u64) -> (r: Option<u64>)
    ensures
        r == plausible_cache(cached, prompt),
{
    match cached {
        Some(n) => if n <= prompt {
            Some(n)
        } else {
            None
        },
        None => None,
    }
}

impl JsonTree {
    /// The counter in the field called `name`.
    pub open spec fn counter(self, name: Seq<char>) -> Option<u64> {
        match self.field(name) {
            Some(tree) => tree.unsigned(),
            None => None,
        }
    }

    /// The counter in the field `inner` of the field `outer`.
    pub open spec fn nested_counter(self, outer: Seq<char>, inner: Seq<char>) -> Option<u64> {
        match self.nested(outer, inner) {
            Some(tree) => tree.unsigned(),
            None => None,
        }
    }

    /// The identifier in the field called `name`: a text or a number, without
    /// control characters, shortened, and not empty.
    pub open spec fn identifier(self, name: Seq<char>) -> Option<Seq<char>> {
        let raw = match self.field(name) {
            Some(JsonTree::Text(text)) => Some(text),
            Some(JsonTree::Number(number)) => Some(number.text),
            _ => None,
        };
        match raw {
            Some(text) => if printable(text, IDENTIFIER_LIMIT as nat).len() > 0 {
                Some(printable(text, IDENTIFIER_LIMIT as nat))
            } else {
                None
            },
            None => None,
        }
    }

    /// The list in the field called `name`; empty, if there is none.
    pub open spec fn list(self, name: Seq<char>) -> Seq<JsonTree> {
        match self.field(name) {
            Some(JsonTree::Array(items)) => items,
            _ => Seq::empty(),
        }
    }
}

/// The counter in the field called `name`.
pub fn counter(value: &Json, name: &str) -> (r: Option<u64>)
    ensures
        r == value.tree().counter(name@),
{
    match value.get(name) {
        Some(json) => json.as_u64(),
        None => None,
    }
}

/// The counter in the field `inner` of the field `outer`.
pub fn nested_counter(value: &Json, outer: &str, inner: &str) -> (r: Option<u64>)
    ensures
        r == value.tree().nested_counter(outer@, inner@),
{
    match value.get_nested(outer, inner) {
        Some(json) => json.as_u64(),
        None => None,
    }
}

/// The identifier in the field called `name`.
pub fn identifier(value: &Json, name: &str) -> (r: Option<String>)
    ensures
        r.deep_view() == value.tree().identifier(name@),
{
    let text = match value.get(name) {
        Some(Json::Text(text)) => text,
        Some(Json::Number(number)) => &number.text,
        _ => return None,
    };
    let text = to_printable(text.as_str(), IDENTIFIER_LIMIT);
    if text.as_str().is_empty() {
        None
    } else {
        Some(text)
    }
}

/// What an oMLX server says of one of its requests. A waiting request without a
/// prompt count has not been tokenized and is left out.
pub open spec fn omlx_request(
    model: JsonTree,
    request: JsonTree,
    waiting: bool,
    now: Timestamp,
) -> Option<UsageModel> {
    match (request.identifier("request_id"@), request.counter("prompt_tokens"@)) {
        (Some(id), Some(prompt)) => if prompt == 0 && waiting {
            None
        } else {
            Some(
                UsageModel {
                    provider: "oMLX"@,
                    model: match model.identifier("id"@) {
                        Some(name) => name,
                        None => "unknown"@,
                    },
                    id,
                    prompt,
                    cached: plausible_cache(request.counter("cached_tokens"@), prompt),
                    output: request.counter("generated_tokens"@),
                    completed: false,
                    ttft_ms: None,
                    observed_at: Some(now),
                },
            )
        },
        _ => None,
    }
}

/// The requests of one model that are in one phase, in their order.
pub open spec fn omlx_phase(
    model: JsonTree,
    requests: Seq<JsonTree>,
    waiting: bool,
    now: Timestamp,
) -> Seq<UsageModel>
    decreases requests.len(),
{
    if requests.len() == 0 {
        Seq::empty()
    } else {
        let before = omlx_phase(model, requests.drop_last(), waiting, now);
        match omlx_request(model, requests.last(), waiting, now) {
            Some(usage) => before.push(usage),
            None => before,
        }
    }
}

/// The requests of one model, phase by phase.
pub open spec fn omlx_model(model: JsonTree, now: Timestamp) -> Seq<UsageModel> {
    omlx_phase(model, model.list("generating"@), false, now) + omlx_phase(
        model,
        model.list("prefilling"@),
        false,
        now,
    ) + omlx_phase(model, model.list("waiting"@), true, now)
}

/// The requests of some models, model by model.
pub open spec fn omlx_models(models: Seq<JsonTree>, now: Timestamp) -> Seq<UsageModel>
    decreases models.len(),
{
    if models.len() == 0 {
        Seq::empty()
    } else {
        omlx_models(models.drop_last(), now) + omlx_model(models.last(), now)
    }
}

/// The requests that an oMLX server's statistics list.
pub open spec fn omlx_listed(stats: JsonTree, now: Timestamp) -> Seq<UsageModel> {
    match stats.nested("active_models"@, "models"@) {
        Some(JsonTree::Array(models)) => omlx_models(models, now),
        _ => Seq::empty(),
    }
}

fn push_omlx_request(
    out: &mut Vec<RequestUsage>,
    model: &Json,
    request: &Json,
    waiting: bool,
    now: Timestamp,
)
    ensures
        final(out).deep_view() == match omlx_request(model.tree(), request.tree(), waiting, now) {
            Some(usage) => old(out).deep_view().push(usage),
            None => old(out).deep_view(),
        },
{
    let id = match identifier(request, "request_id") {
        Some(id) => id,
        None => return,
    };
    let prompt = match counter(request, "prompt_tokens") {
        Some(prompt) => prompt,
        None => return,
    };
    if prompt == 0 && waiting {
        return;
    }
    let name = match identifier(model, "id") {
        Some(name) => name,
        None => "unknown".to_owned(),
    };
    let usage = RequestUsage {
        provider: "oMLX".to_owned(),
        model: name,
        id,
        prompt,
        cached: keep_plausible(counter(request, "cached_tokens"), prompt),
        output: counter(request, "generated_tokens"),
        completed: false,
        ttft_ms: None,
        observed_at: Some(now),
    };
    let ghost before = out.deep_view();
    out.push(usage);
    assert(out.deep_view() =~= before.push(usage.deep_view()));
}

fn push_omlx_phase(
    out: &mut Vec<RequestUsage>,
    model: &Json,
    phase: &str,
    waiting: bool,
    now: Timestamp,
)
    ensures
        final(out).deep_view() == old(out).deep_view() + omlx_phase(
            model.tree(),
            model.tree().list(phase@),
            waiting,
            now,
        ),
{
    let ghost before = out.deep_view();
    let requests = match model.get(phase) {
        Some(json) => match json.as_array() {
            Some(requests) => requests,
            None => {
                assert(before + Seq::<UsageModel>::empty() =~= before);
                return;
            },
        },
        None => {
            assert(before + Seq::<UsageModel>::empty() =~= before);
            return;
        },
    };
    let ghost trees = trees_of(requests@);
    let mut i: usize = 0;
    assert(before + omlx_phase(model.tree(), trees.take(0), waiting, now) =~= before);
    while i < requests.len()
        invariant
            i <= requests@.len(),
            trees == trees_of(requests@),
            out.deep_view() == before + omlx_phase(
                model.tree(),
                trees.take(i as int),
                waiting,
                now,
            ),
        decreases requests@.len() - i,
    {
        assert(trees.take(i + 1).drop_last() =~= trees.take(i as int));
        assert(trees.take(i + 1).last() == requests@[i as int].tree());
        push_omlx_request(out, model, &requests[i], waiting, now);
        i += 1;
        assert(out.deep_view() =~= before + omlx_phase(
            model.tree(),
            trees.take(i as int),
            waiting,
            now,
        ));
    }
    assert(trees.take(trees.len() as int) =~= trees);
}

/// The requests that an oMLX server's statistics list, as observed at `now`.
pub fn omlx_requests(stats: &Json, now: Timestamp) -> (r: Vec<RequestUsage>)
    ensures
        r.deep_view() == omlx_listed(stats.tree(), now),
{
    let mut out: Vec<RequestUsage> = Vec::new();
    assert(out.deep_view() =~= Seq::empty());
    let models = match stats.get_nested("active_models", "models") {
        Some(json) => match json.as_array() {
            Some(models) => models,
            None => return out,
        },
        None => return out,
    };
    let ghost trees = trees_of(models@);
    let mut i: usize = 0;
    while i < models.len()
        invariant
            i <= models@.len(),
            trees == trees_of(models@),
            out.deep_view() == omlx_models(trees.take(i as int), now),
        decreases models@.len() - i,
    {
        assert(trees.take(i + 1).drop_last() =~= trees.take(i as int));
        let ghost before = out.deep_view();
        let model = &models[i];
        push_omlx_phase(&mut out, model, "generating", false, now);
        push_omlx_phase(&mut out, model, "prefilling", false, now);
        push_omlx_phase(&mut out, model, "waiting", true, now);
        assert(out.deep_view() =~= before + omlx_model(model.tree(), now));
        i += 1;
    }
    assert(trees.take(trees.len() as int) =~= trees);
    out
}

/// The name under which a provider is known, whatever the case of its letters.
pub open spec fn canonical(name: Seq<char>) -> Option<Seq<char>> {
    let name = lowered(name);
    if name == "omlx"@ {
        Some("oMLX"@)
    } else if name == "mlx-lm"@ || name == "mlx_lm.server"@ || name == "mlx_lm"@ {
        Some("mlx-lm"@)
    } else if name == "ollama"@ {
        Some("Ollama"@)
    } else if name == "llama.cpp"@ || name == "llama-server"@ {
        Some("llama.cpp"@)
    } else if name == "lm studio"@ || name == "lmstudio"@ {
        Some("LM Studio"@)
    } else if name == "koboldcpp"@ {
        Some("KoboldCpp"@)
    } else if name == "localai"@ {
        Some("LocalAI"@)
    } else {
        None
    }
}

/// The name under which a provider is known, whatever the case of its letters.
pub fn canonical_provider(name: &str) -> (r: Option<&'static str>)
    ensures
        r.deep_view() == canonical(name@),
{
    let name = to_lower(name);
    let name = name.as_str();
    if same_text(name, "omlx") {
        Some("oMLX")
    } else if same_text(name, "mlx-lm") || same_text(name, "mlx_lm.server") || same_text(
        name,
        "mlx_lm",
    ) {
        Some("mlx-lm")
    } else if same_text(name, "ollama") {
        Some("Ollama")
    } else if same_text(name, "llama.cpp") || same_text(name, "llama-server") {
        Some("llama.cpp")
    } else if same_text(name, "lm studio") || same_text(name, "lmstudio") {
        Some("LM Studio")
    } else if same_text(name, "koboldcpp") {
        Some("KoboldCpp")
    } else if same_text(name, "localai") {
        Some("LocalAI")
    } else {
        None
    }
}

/// The part of a usage record that holds the counts.
pub open spec fn usage_part(record: JsonTree) -> JsonTree {
    match either(record.field("usage"@), record.field("stats"@)) {
        Some(part) => part,
        None => record,
    }
}

/// The prompt count, under any of the names that servers give it.
pub open spec fn prompt_count(usage: JsonTree) -> Option<u64> {
    either(
        usage.counter("prompt_tokens"@),
        either(usage.counter("input_tokens"@), usage.counter("prompt_eval_count"@)),
    )
}

/// The output count, under any of the names that servers give it.
pub open spec fn output_count(usage: JsonTree) -> Option<u64> {
    either(
        usage.counter("completion_tokens"@),
        either(
            usage.counter("output_tokens"@),
            either(usage.counter("total_output_tokens"@), usage.counter("eval_count"@)),
        ),
    )
}

/// The cached count, under any of the names that servers give it.
pub open spec fn cached_count(usage: JsonTree) -> Option<u64> {
    either(
        usage.nested_counter("prompt_tokens_details"@, "cached_tokens"@),
        either(
            usage.nested_counter("input_tokens_details"@, "cached_tokens"@),
            usage.counter("cached_tokens"@),
        ),
    )
}

/// The model that a record names.
pub open spec fn record_model(record: JsonTree) -> Seq<char> {
    match either(record.identifier("model"@), record.identifier("model_instance_id"@)) {
        Some(name) => name,
        None => "unknown"@,
    }
}

/// The provider that a record names, by its canonical name.
pub open spec fn record_provider(record: JsonTree) -> Option<Seq<char>> {
    match record.field("provider"@) {
        Some(JsonTree::Text(name)) => canonical(name),
        _ => None,
    }
}

/// Whether a record marks itself as a part of a response that is not finished.
pub open spec fn unfinished(record: JsonTree) -> bool {
    match record.field("done"@) {
        Some(tree) => tree.boolean() == Some(false),
        None => false,
    }
}

/// What a client's usage record reports: a finished request of a known provider,
/// with an identifier and a prompt count, at a time that is not in the future.
pub open spec fn reported_usage(record: JsonTree, now: Timestamp) -> Option<TelemetryModel> {
    match (
        record_provider(record),
        record.identifier("request_id"@),
        record.counter("observed_at"@),
        prompt_count(usage_part(record)),
    ) {
        (Some(provider), Some(id), Some(seconds), Some(prompt)) => {
            let at = Timestamp::of_seconds(seconds);
            let usage = usage_part(record);
            if unfinished(record) || at.nanos > now.nanos {
                None
            } else {
                Some(
                    TelemetryModel {
                        source: TelemetrySource::Report,
                        observed_at: Some(at),
                        provider: Some(provider),
                        model: Some(record_model(record)),
                        status: Some("last result"@),
                        prompt_tokens: Some(prompt),
                        output_tokens: output_count(usage),
                        requests: seq![
                            UsageModel {
                                provider,
                                model: record_model(record),
                                id,
                                prompt,
                                cached: plausible_cache(cached_count(usage), prompt),
                                output: output_count(usage),
                                completed: true,
                                ttft_ms: record.nested_counter(
                                    "timings"@,
                                    "time_to_first_token_ms"@,
                                ),
                                observed_at: Some(at),
                            },
                        ],
                        ..TelemetryModel::nothing()
                    },
                )
            }
        },
        _ => None,
    }
}

fn first_counter(first: Option<u64>, second: Option<u64>) -> (r: Option<u64>)
    ensures
        r == either(first, second),
{
    match first {
        Some(value) => Some(value),
        None => second,
    }
}

fn find_prompt(usage: &Json) -> (r: Option<u64>)
    ensures
        r == prompt_count(usage.tree()),
{
    first_counter(
        counter(usage, "prompt_tokens"),
        first_counter(counter(usage, "input_tokens"), counter(usage, "prompt_eval_count")),
    )
}

fn find_output(usage: &Json) -> (r: Option<u64>)
    ensures
        r == output_count(usage.tree()),
{
    first_counter(
        counter(usage, "completion_tokens"),
        first_counter(
            counter(usage, "output_tokens"),
            first_counter(counter(usage, "total_output_tokens"), counter(usage, "eval_count")),
        ),
    )
}

fn find_cached(usage: &Json) -> (r: Option<u64>)
    ensures
        r == cached_count(usage.tree()),
{
    first_counter(
        nested_counter(usage, "prompt_tokens_details", "cached_tokens"),
        first_counter(
            nested_counter(usage, "input_tokens_details", "cached_tokens"),
            counter(usage, "cached_tokens"),
        ),
    )
}

fn find_model(record: &Json) -> (r: String)
    ensures
        r@ == record_model(record.tree()),
{
    match identifier(record, "model") {
        Some(name) => name,
        None => match identifier(record, "model_instance_id") {
            Some(name) => name,
            None => "unknown".to_owned(),
        },
    }
}

/// Reads a client's usage record at the time `now`.
pub fn parse_usage(record: &Json, now: Timestamp) -> (r: Option<LlmTelemetry>)
    ensures
        r.deep_view() == reported_usage(record.tree(), now),
{
    if let Some(done) = record.get("done") {
        if let Some(done) = done.as_bool() {
            if !done {
                return None;
            }
        }
    }
    let provider = match record.get("provider") {
        Some(Json::Text(name)) => match canonical_provider(name.as_str()) {
            Some(provider) => provider,
            None => return None,
        },
        _ => return None,
    };
    let id = match identifier(record, "request_id") {
        Some(id) => id,
        None => return None,
    };
    let observed_at = match counter(record, "observed_at") {
        Some(seconds) => Timestamp::from_seconds(seconds),
        None => return None,
    };
    if observed_at.nanos > now.nanos {
        return None;
    }
    let usage = match record.get("usage") {
        Some(usage) => usage,
        None => match record.get("stats") {
            Some(stats) => stats,
            None => record,
        },
    };
    let prompt = match find_prompt(usage) {
        Some(prompt) => prompt,
        None => return None,
    };
    let output = find_output(usage);
    let cached = keep_plausible(find_cached(usage), prompt);
    let model = find_model(record);
    let request = RequestUsage {
        provider: provider.to_owned(),
        model: model.clone(),
        id,
        prompt,
        cached,
        output,
        completed: true,
        ttft_ms: nested_counter(record, "timings", "time_to_first_token_ms"),
        observed_at: Some(observed_at),
    };
    let mut requests: Vec<RequestUsage> = Vec::new();
    requests.push(request);
    let r = LlmTelemetry {
        source: TelemetrySource::Report,
        observed_at: Some(observed_at),
        provider: Some(provider.to_owned()),
        model: Some(model),
        status: Some("last result".to_owned()),
        prompt_tokens: Some(prompt),
        output_tokens: output,
        requests,
        ..LlmTelemetry::default()
    };
    assert(r.requests.deep_view() =~= reported_usage(record.tree(), now)->0.requests);
    Some(r)
}

} // verus!
