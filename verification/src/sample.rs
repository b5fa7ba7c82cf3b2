//! One sample of everything the dashboard watches.
use crate::process_memory::Reading;
use crate::providers::{RequestUsage, UsageModel};
use crate::telemetry::TelemetrySource;
use crate::time::Timestamp;
use vstd::prelude::*;

verus! {

/// One sample of everything the dashboard watches.
#[derive(Debug)]
pub struct Sample {
    pub llm_source: TelemetrySource,
    pub llm_status: String,
    pub llm_provider: String,
    pub llm_observed_at: Option<Timestamp>,
    pub llm_active_requests: Option<u64>,
    pub llm_waiting_requests: Option<u64>,
    pub llm_prompt_tokens: Option<u64>,
    pub llm_output_tokens: Option<u64>,
    pub llm_requests: Vec<RequestUsage>,
    pub process_memory: Option<Reading>,
    pub process_memory_growth: Option<i64>,
    pub total_memory: u64,
}

/// The content of a [`Sample`].
#[verifier::ext_equal]
pub struct SampleModel {
    pub llm_source: TelemetrySource,
    pub llm_status: Seq<char>,
    pub llm_provider: Seq<char>,
    pub llm_observed_at: Option<Timestamp>,
    pub llm_active_requests: Option<u64>,
    pub llm_waiting_requests: Option<u64>,
    pub llm_prompt_tokens: Option<u64>,
    pub llm_output_tokens: Option<u64>,
    pub llm_requests: Seq<UsageModel>,
    pub process_memory: Option<Reading>,
    pub process_memory_growth: Option<i64>,
    pub total_memory: u64,
}

impl DeepView for Sample {
    type V = SampleModel;

    open spec fn deep_view(&self) -> SampleModel {
        SampleModel {
            llm_source: self.llm_source,
            llm_status: self.llm_status@,
            llm_provider: self.llm_provider@,
            llm_observed_at: self.llm_observed_at,
            llm_active_requests: self.llm_active_requests,
            llm_waiting_requests: self.llm_waiting_requests,
            llm_prompt_tokens: self.llm_prompt_tokens,
            llm_output_tokens: self.llm_output_tokens,
            llm_requests: self.llm_requests.deep_view(),
            process_memory: self.process_memory,
            process_memory_growth: self.process_memory_growth,
            total_memory: self.total_memory,
        }
    }
}

impl SampleModel {
    /// The sample that says nothing.
    pub open spec fn nothing() -> SampleModel {
        SampleModel {
            llm_source: TelemetrySource::Unavailable,
            llm_status: Seq::empty(),
            llm_provider: Seq::empty(),
            llm_observed_at: None,
            llm_active_requests: None,
            llm_waiting_requests: None,
            llm_prompt_tokens: None,
            llm_output_tokens: None,
            llm_requests: Seq::empty(),
            process_memory: None,
            process_memory_growth: None,
            total_memory: 0,
        }
    }
}

impl Default for Sample {
    fn default() -> (r: Self)
        ensures
            r.deep_view() == SampleModel::nothing(),
    {
        let r = Sample {
            llm_source: TelemetrySource::Unavailable,
            llm_status: String::new(),
            llm_provider: String::new(),
            llm_observed_at: None,
            llm_active_requests: None,
            llm_waiting_requests: None,
            llm_prompt_tokens: None,
            llm_output_tokens: None,
            llm_requests: Vec::new(),
            process_memory: None,
            process_memory_growth: None,
            total_memory: 0,
        };
        assert(r.llm_requests.deep_view() =~= Seq::empty());
        r
    }
}

/// The tokens that a request's context holds, its prompt and its output, where
/// both are known.
pub open spec fn context_tokens(sample: SampleModel) -> Option<u64> {
    match (sample.llm_prompt_tokens, sample.llm_output_tokens) {
        (Some(prompt), Some(output)) => if prompt + output <= u64::MAX {
            Some((prompt + output) as u64)
        } else {
            None
        },
        _ => None,
    }
}

/// The tokens that a request's context holds, its prompt and its output, where
/// both are known.
pub fn llm_context_tokens(sample: &Sample) -> (r: Option<u64>)
    ensures
        r == context_tokens(sample.deep_view()),
{
    match (sample.llm_prompt_tokens, sample.llm_output_tokens) {
        (Some(prompt), Some(output)) => prompt.checked_add(output),
        _ => None,
    }
}

} // verus!
