//! What a KoboldCpp server tells of its last generation.
use crate::double::Double;
use crate::json::{Json, JsonTree};
use crate::providers::{counter, RequestUsage, UsageModel};
use crate::telemetry::{LlmTelemetry, TelemetryModel, TelemetrySource};
use crate::text::{decimal, push_decimal};
use crate::time::Timestamp;
use vstd::prelude::*;

verus! {

impl JsonTree {
    /// The number in the field called `name`, if it is not below zero.
    pub open spec fn rate(self, name: Seq<char>) -> Option<Double> {
        match self.field(name) {
            Some(tree) => match tree.double() {
                Some(bits) => if (Double { bits }).usable() {
                    Some(Double { bits })
                } else {
                    None
                },
                None => None,
            },
            None => None,
        }
    }
}

/// The number in the field called `name`, if it is not below zero.
pub fn rate(value: &Json, name: &str) -> (r: Option<Double>)
    ensures
        r == value.tree().rate(name@),
        r matches Some(double) ==> double.usable(),
{
    match value.get(name) {
        Some(json) => match json.as_double() {
            Some(bits) => {
                let double = Double { bits };
                if double.is_usable() {
                    Some(double)
                } else {
                    None
                }
            },
            None => None,
        },
        None => None,
    }
}

/// A reading, unless there is nothing that it could be of.
pub open spec fn when<T>(condition: bool, reading: Option<T>) -> Option<T> {
    if condition {
        reading
    } else {
        None
    }
}

/// What a KoboldCpp server says of its last generation. It describes that
/// generation even while another one runs.
pub open spec fn kobold_reading(perf: JsonTree, now: Timestamp) -> Option<TelemetryModel> {
    match perf.counter("total_gens"@) {
        Some(generations) => {
            let prompt = when(generations > 0, perf.counter("last_input_count"@));
            let output = when(generations > 0, perf.counter("last_token_count"@));
            Some(
                TelemetryModel {
                    source: TelemetrySource::Report,
                    observed_at: Some(now),
                    provider: Some("KoboldCpp"@),
                    status: Some(
                        if generations > 0 {
                            "last result"@
                        } else {
                            "idle"@
                        },
                    ),
                    prompt_tokens: prompt,
                    output_tokens: output,
                    requests: match prompt {
                        Some(prompt) => seq![
                            UsageModel {
                                provider: "KoboldCpp"@,
                                model: "unknown"@,
                                id: "generation-"@ + decimal(generations as nat),
                                prompt,
                                cached: None,
                                output,
                                completed: true,
                                ttft_ms: None,
                                observed_at: None,
                            },
                        ],
                        None => Seq::empty(),
                    },
                    generation_tps: when(generations > 0, perf.rate("last_eval_speed"@)),
                    prefill_tps: when(generations > 0, perf.rate("last_process_speed"@)),
                    ..TelemetryModel::nothing()
                },
            )
        },
        None => None,
    }
}

/// Reads what a KoboldCpp server says of its last generation.
pub fn parse_kobold(perf: &Json, now: Timestamp) -> (r: Option<LlmTelemetry>)
    ensures
        r.deep_view() == kobold_reading(perf.tree(), now),
{
    let generations = match counter(perf, "total_gens") {
        Some(generations) => generations,
        None => return None,
    };
    let ran = generations > 0;
    let prompt = if ran {
        counter(perf, "last_input_count")
    } else {
        None
    };
    let output = if ran {
        counter(perf, "last_token_count")
    } else {
        None
    };
    let mut requests: Vec<RequestUsage> = Vec::new();
    if let Some(prompt) = prompt {
        let mut id = "generation-".to_owned();
        push_decimal(&mut id, generations);
        requests.push(
            RequestUsage {
                provider: "KoboldCpp".to_owned(),
                model: "unknown".to_owned(),
                id,
                prompt,
                cached: None,
                output,
                completed: true,
                ttft_ms: None,
                observed_at: None,
            },
        );
    }
    let status = if ran {
        "last result"
    } else {
        "idle"
    };
    let r = LlmTelemetry {
        source: TelemetrySource::Report,
        observed_at: Some(now),
        provider: Some("KoboldCpp".to_owned()),
        status: Some(status.to_owned()),
        prompt_tokens: prompt,
        output_tokens: output,
        requests,
        generation_tps: if ran {
            rate(perf, "last_eval_speed")
        } else {
            None
        },
        prefill_tps: if ran {
            rate(perf, "last_process_speed")
        } else {
            None
        },
        ..LlmTelemetry::default()
    };
    assert(r.requests.deep_view() =~= kobold_reading(perf.tree(), now)->0.requests);
    Some(r)
}

} // verus!
