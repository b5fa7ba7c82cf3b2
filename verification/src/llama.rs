//! What a llama.cpp server tells of its slots and in its metrics.
use crate::double::{parse_bits, parsed_bits, Double};
use crate::json::{trees_of, Json, JsonTree};
use crate::providers::nested_counter;
use crate::telemetry::{LlmTelemetry, TelemetryModel, TelemetrySource};
use crate::text::{characters, lines, piece_bounds, pieces, same_text, words, words_between};
use crate::time::Timestamp;
use vstd::prelude::*;

verus! {

/// Whether a slot says whether it is at work.
pub open spec fn slot_state(slot: JsonTree) -> Option<bool> {
    match slot.field("is_processing"@) {
        Some(tree) => tree.boolean(),
        None => None,
    }
}

/// How many slots are at work.
pub open spec fn active_slots(slots: Seq<JsonTree>) -> nat
    decreases slots.len(),
{
    if slots.len() == 0 {
        0
    } else if slot_state(slots.last()) == Some(true) {
        active_slots(slots.drop_last()) + 1
    } else {
        active_slots(slots.drop_last())
    }
}

/// The output of all slots that are at work, if each of them tells its own.
pub open spec fn decoded_tokens(slots: Seq<JsonTree>) -> Option<nat>
    decreases slots.len(),
{
    if slots.len() == 0 {
        Some(0)
    } else if slot_state(slots.last()) != Some(true) {
        decoded_tokens(slots.drop_last())
    } else {
        match (
            decoded_tokens(slots.drop_last()),
            slots.last().nested_counter("next_token"@, "n_decoded"@),
        ) {
            (Some(sum), Some(n)) => Some(sum + n as nat),
            _ => None,
        }
    }
}

/// What the slots of a llama.cpp server say; nothing, unless every slot says
/// whether it is at work. A partial sum of the output is never shown as complete.
pub open spec fn slots_reading(slots: JsonTree, now: Timestamp) -> Option<TelemetryModel> {
    match slots {
        JsonTree::Array(items) => if exists|i: int|
            0 <= i < items.len() && slot_state(#[trigger] items[i]) is None {
            None
        } else {
            Some(
                TelemetryModel {
                    source: TelemetrySource::Live,
                    observed_at: Some(now),
                    provider: Some("llama.cpp"@),
                    status: Some(
                        if active_slots(items) == 0 {
                            "idle"@
                        } else {
                            "processing"@
                        },
                    ),
                    active_requests: Some(active_slots(items) as u64),
                    output_tokens: match decoded_tokens(items) {
                        Some(sum) => if active_slots(items) > 0 && sum <= u64::MAX {
                            Some(sum as u64)
                        } else {
                            None
                        },
                        None => None,
                    },
                    ..TelemetryModel::nothing()
                },
            )
        },
        _ => None,
    }
}

fn slot_is_active(slot: &Json) -> (r: Option<bool>)
    ensures
        r == slot_state(slot.tree()),
{
    match slot.get("is_processing") {
        Some(json) => json.as_bool(),
        None => None,
    }
}

/// Reads the slots of a llama.cpp server.
pub fn parse_llama_slots(slots: &Json, now: Timestamp) -> (r: Option<LlmTelemetry>)
    ensures
        r.deep_view() == slots_reading(slots.tree(), now),
{
    let items = match slots.as_array() {
        Some(items) => items,
        None => return None,
    };
    let ghost trees = trees_of(items@);
    let mut i: usize = 0;
    let mut active: u64 = 0;
    let mut output: Option<u64> = Some(0);
    assert(trees.take(0) =~= Seq::empty());
    while i < items.len()
        invariant
            i <= items@.len(),
            trees == trees_of(items@),
            slots.tree() == JsonTree::Array(trees),
            active == active_slots(trees.take(i as int)),
            active <= i,
            forall|k: int| 0 <= k < i ==> slot_state(#[trigger] trees[k]) is Some,
            match output {
                Some(sum) => decoded_tokens(trees.take(i as int)) == Some(sum as nat),
                None => decoded_tokens(trees.take(i as int)) matches Some(sum) ==> sum > u64::MAX,
            },
        decreases items@.len() - i,
    {
        assert(trees.take(i + 1).drop_last() =~= trees.take(i as int));
        assert(trees.take(i + 1).last() == trees[i as int]);
        match slot_is_active(&items[i]) {
            Some(true) => {
                active += 1;
                output = match (
                    output,
                    nested_counter(&items[i], "next_token", "n_decoded"),
                ) {
                    (Some(sum), Some(n)) => sum.checked_add(n),
                    _ => None,
                };
            },
            Some(false) => {},
            None => return None,
        }
        i += 1;
    }
    assert(trees.take(trees.len() as int) =~= trees);
    let status = if active == 0 {
        "idle"
    } else {
        "processing"
    };
    Some(
        LlmTelemetry {
            source: TelemetrySource::Live,
            observed_at: Some(now),
            provider: Some("llama.cpp".to_owned()),
            status: Some(status.to_owned()),
            active_requests: Some(active),
            output_tokens: if active > 0 {
                output
            } else {
                None
            },
            ..LlmTelemetry::default()
        },
    )
}

/// The value that a line gives to a metric: the word after the metric's name.
pub open spec fn line_value(line: Seq<char>, name: Seq<char>) -> Option<Seq<char>> {
    let words = words(line);
    if words.len() >= 2 && words[0] == name {
        Some(words[1])
    } else {
        None
    }
}

/// The values that some lines give to a metric, in their order.
pub open spec fn metric_values(lines: Seq<Seq<char>>, name: Seq<char>) -> Seq<Seq<char>>
    decreases lines.len(),
{
    if lines.len() == 0 {
        Seq::empty()
    } else {
        match line_value(lines.last(), name) {
            Some(value) => metric_values(lines.drop_last(), name).push(value),
            None => metric_values(lines.drop_last(), name),
        }
    }
}

/// The texts that the lines of a metrics page give as the value of a metric.
pub fn metric_texts(text: &str, name: &str) -> (r: Vec<String>)
    ensures
        r.deep_view() == metric_values(lines(text@), name@),
{
    let letters = characters(text);
    let bounds = piece_bounds(&letters, 0, letters.len(), '\n');
    let ghost rows = lines(text@);
    let ghost parts = pieces(text@, '\n');
    proof {
        assert(letters@.subrange(0, letters@.len() as int) =~= text@);
    }
    let mut out: Vec<String> = Vec::new();
    let mut i: usize = 0;
    assert(out.deep_view() =~= metric_values(rows.take(0), name@));
    while i < bounds.len()
        invariant
            i <= bounds@.len(),
            letters@ == text@,
            rows == lines(text@),
            parts == pieces(text@, '\n'),
            bounds@.len() == parts.len(),
            forall|k: int|
                0 <= k < bounds@.len() ==> (#[trigger] bounds@[k]).0 <= bounds@[k].1
                    <= letters@.len() && letters@.subrange(
                    bounds@[k].0 as int,
                    bounds@[k].1 as int,
                ) == parts[k],
            out.deep_view() == metric_values(rows.take(i as int), name@),
        decreases bounds@.len() - i,
    {
        let from = bounds[i].0;
        let mut to = bounds[i].1;
        if i < bounds.len() - 1 && from < to && letters[to - 1] == '\r' {
            to -= 1;
        }
        proof {
            assert(rows.take(i + 1).drop_last() =~= rows.take(i as int));
            assert(rows[i as int] =~= letters@.subrange(from as int, to as int));
        }
        let found = words_between(&letters, from, to);
        let ghost before = out.deep_view();
        if found.len() >= 2 && same_text(found[0].as_str(), name) {
            let value = found[1].clone();
            assert(found.deep_view()[1] == value@);
            out.push(value);
            assert(out.deep_view() =~= before.push(value@));
        }
        i += 1;
    }
    assert(rows.take(rows.len() as int) =~= rows);
    out
}

/// The first of some readings that is a finite number and not below zero.
pub open spec fn first_usable(readings: Seq<Option<u64>>) -> Option<Double>
    decreases readings.len(),
{
    if readings.len() == 0 {
        None
    } else {
        match readings[0] {
            Some(bits) => if (Double { bits }).usable() {
                Some(Double { bits })
            } else {
                first_usable(readings.drop_first())
            },
            None => first_usable(readings.drop_first()),
        }
    }
}

/// The first of some readings, by their bits, that is a finite number and not below
/// zero.
pub fn usable_reading(readings: &Vec<Option<u64>>) -> (r: Option<Double>)
    ensures
        r == first_usable(readings@),
        r matches Some(double) ==> double.usable(),
{
    let mut i: usize = 0;
    assert(readings@.skip(0) =~= readings@);
    while i < readings.len()
        invariant
            i <= readings@.len(),
            first_usable(readings@.skip(i as int)) == first_usable(readings@),
        decreases readings@.len() - i,
    {
        assert(readings@.skip(i as int).drop_first() =~= readings@.skip(i + 1));
        if let Some(bits) = readings[i] {
            let double = Double { bits };
            if double.is_usable() {
                return Some(double);
            }
        }
        i += 1;
    }
    None
}

/// What some texts read as, by the bits of the numbers.
pub open spec fn readings(texts: Seq<Seq<char>>) -> Seq<Option<u64>> {
    Seq::new(texts.len(), |i: int| parsed_bits(texts[i]))
}

/// The value of a metric on a metrics page: the first that is a finite number and not
/// below zero.
pub open spec fn metric_reading(text: Seq<char>, name: Seq<char>) -> Option<Double> {
    first_usable(readings(metric_values(lines(text), name)))
}

/// The value of a metric on a metrics page.
pub fn metric(text: &str, name: &str) -> (r: Option<Double>)
    ensures
        r == metric_reading(text@, name@),
{
    let texts = metric_texts(text, name);
    let mut found: Vec<Option<u64>> = Vec::new();
    let mut i: usize = 0;
    while i < texts.len()
        invariant
            i <= texts@.len(),
            found@.len() == i,
            forall|k: int|
                0 <= k < i ==> #[trigger] found@[k] == readings(texts.deep_view())[k],
        decreases texts@.len() - i,
    {
        assert(texts.deep_view()[i as int] == texts@[i as int]@);
        found.push(parse_bits(texts[i].as_str()));
        i += 1;
    }
    assert(found@ =~= readings(texts.deep_view()));
    usable_reading(&found)
}

/// A gauge that counts: a reading that is a whole number.
pub open spec fn whole_reading(reading: Option<Double>) -> Option<u64> {
    match reading {
        Some(double) => double.whole(),
        None => None,
    }
}

/// The value of a metric that counts.
pub fn metric_count(text: &str, name: &str) -> (r: Option<u64>)
    ensures
        r == whole_reading(metric_reading(text@, name@)),
{
    match metric(text, name) {
        Some(double) => {
            proof {
                lemma_first_usable(readings(metric_values(lines(text@), name@)));
            }
            double.to_whole()
        },
        None => None,
    }
}

proof fn lemma_first_usable(readings: Seq<Option<u64>>)
    ensures
        first_usable(readings) matches Some(double) ==> double.usable(),
    decreases readings.len(),
{
    if readings.len() > 0 {
        lemma_first_usable(readings.drop_first());
    }
}

/// The gauges that a llama.cpp server's metrics page gives.
#[derive(Clone, Copy, Debug)]
pub struct LlamaMetrics {
    pub generation: Option<Double>,
    pub prefill: Option<Double>,
    pub active: Option<u64>,
    pub waiting: Option<u64>,
}

impl LlamaMetrics {
    pub open spec fn empty(self) -> bool {
        self.generation is None && self.prefill is None && self.active is None && self.waiting
            is None
    }
}

/// The gauges that a metrics page gives.
pub open spec fn page_gauges(text: Seq<char>) -> LlamaMetrics {
    LlamaMetrics {
        generation: metric_reading(text, "llamacpp:predicted_tokens_seconds"@),
        prefill: metric_reading(text, "llamacpp:prompt_tokens_seconds"@),
        active: whole_reading(metric_reading(text, "llamacpp:requests_processing"@)),
        waiting: whole_reading(metric_reading(text, "llamacpp:requests_deferred"@)),
    }
}

/// The gauges of a metrics page, if there is a page.
pub open spec fn gauges(text: Option<Seq<char>>) -> Option<LlamaMetrics> {
    match text {
        Some(text) => Some(page_gauges(text)),
        None => None,
    }
}

/// The state that queue counts show.
pub open spec fn queue_status(active: Option<u64>, waiting: Option<u64>) -> Seq<char> {
    match active {
        Some(n) => if n == 0 && (waiting is None || waiting == Some(0u64)) {
            "idle"@
        } else {
            "processing"@
        },
        None => "running"@,
    }
}

/// A reading of the slots completed by the gauges. The rates are averages and
/// never count as live; the slots' own count of active requests stands.
pub open spec fn with_metrics(
    slots: Option<TelemetryModel>,
    metrics: Option<LlamaMetrics>,
    now: Timestamp,
) -> Option<TelemetryModel> {
    match metrics {
        Some(metrics) => if metrics.empty() {
            slots
        } else {
            let base = match slots {
                Some(slots) => slots,
                None => TelemetryModel {
                    source: TelemetrySource::Live,
                    observed_at: Some(now),
                    provider: Some("llama.cpp"@),
                    ..TelemetryModel::nothing()
                },
            };
            let active = match base.active_requests {
                Some(n) => Some(n),
                None => metrics.active,
            };
            Some(
                TelemetryModel {
                    generation_tps: metrics.generation,
                    prefill_tps: metrics.prefill,
                    active_requests: active,
                    waiting_requests: metrics.waiting,
                    status: Some(queue_status(active, metrics.waiting)),
                    ..base
                },
            )
        },
        None => slots,
    }
}

/// Completes a reading of the slots by gauges. Either may be missing.
pub fn merge_gauges(
    slots: Option<LlmTelemetry>,
    metrics: Option<LlamaMetrics>,
    now: Timestamp,
) -> (r: Option<LlmTelemetry>)
    ensures
        r.deep_view() == with_metrics(slots.deep_view(), metrics, now),
{
    let metrics = match metrics {
        Some(metrics) => metrics,
        None => return slots,
    };
    if metrics.generation.is_none() && metrics.prefill.is_none() && metrics.active.is_none()
        && metrics.waiting.is_none() {
        return slots;
    }
    let mut result = match slots {
        Some(slots) => slots,
        None => LlmTelemetry {
            source: TelemetrySource::Live,
            observed_at: Some(now),
            provider: Some("llama.cpp".to_owned()),
            ..LlmTelemetry::default()
        },
    };
    result.generation_tps = metrics.generation;
    result.prefill_tps = metrics.prefill;
    if result.active_requests.is_none() {
        result.active_requests = metrics.active;
    }
    result.waiting_requests = metrics.waiting;
    let status = match result.active_requests {
        Some(n) => {
            let waiting = match metrics.waiting {
                Some(waiting) => waiting,
                None => 0,
            };
            if n == 0 && waiting == 0 {
                "idle"
            } else {
                "processing"
            }
        },
        None => "running",
    };
    result.status = Some(status.to_owned());
    Some(result)
}

/// Completes a reading of the slots by the gauges of the metrics page. Either may
/// be missing.
pub fn merge_llama_metrics(
    slots: Option<LlmTelemetry>,
    metrics: Option<&str>,
    now: Timestamp,
) -> (r: Option<LlmTelemetry>)
    ensures
        r.deep_view() == with_metrics(slots.deep_view(), gauges(metrics.deep_view()), now),
{
    match metrics {
        Some(text) => {
            let found = LlamaMetrics {
                generation: metric(text, "llamacpp:predicted_tokens_seconds"),
                prefill: metric(text, "llamacpp:prompt_tokens_seconds"),
                active: metric_count(text, "llamacpp:requests_processing"),
                waiting: metric_count(text, "llamacpp:requests_deferred"),
            };
            merge_gauges(slots, Some(found), now)
        },
        None => merge_gauges(slots, None, now),
    }
}

} // verus!
