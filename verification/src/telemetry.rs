//! What one observation of a model server says.
use crate::double::Double;
use crate::providers::{RequestUsage, UsageModel};
use crate::text::copy_optional;
use crate::time::Timestamp;
use vstd::prelude::*;

verus! {

/// Where a telemetry value comes from.
#[derive(Clone, Copy, Debug, PartialEq, Eq, Structural)]
pub enum TelemetrySource {
    /// Nothing has been observed.
    Unavailable,
    /// The server's present state.
    Live,
    /// A result that has been reported after the fact.
    Report,
}

/// One observation of a model server.
#[derive(Debug)]
pub struct LlmTelemetry {
    pub source: TelemetrySource,
    pub observed_at: Option<Timestamp>,
    pub provider: Option<String>,
    pub model: Option<String>,
    pub status: Option<String>,
    pub prompt_tokens: Option<u64>,
    pub output_tokens: Option<u64>,
    pub active_requests: Option<u64>,
    pub waiting_requests: Option<u64>,
    pub generation_tps: Option<Double>,
    pub prefill_tps: Option<Double>,
    pub generation_tps_live: bool,
    pub prefill_tps_live: bool,
    pub cache_efficiency: Option<Double>,
    pub requests: Vec<RequestUsage>,
}

/// The content of an [`LlmTelemetry`].
#[verifier::ext_equal]
pub struct TelemetryModel {
    pub source: TelemetrySource,
    pub observed_at: Option<Timestamp>,
    pub provider: Option<Seq<char>>,
    pub model: Option<Seq<char>>,
    pub status: Option<Seq<char>>,
    pub prompt_tokens: Option<u64>,
    pub output_tokens: Option<u64>,
    pub active_requests: Option<u64>,
    pub waiting_requests: Option<u64>,
    pub generation_tps: Option<Double>,
    pub prefill_tps: Option<Double>,
    pub generation_tps_live: bool,
    pub prefill_tps_live: bool,
    pub cache_efficiency: Option<Double>,
    pub requests: Seq<UsageModel>,
}

impl DeepView for LlmTelemetry {
    type V = TelemetryModel;

    open spec fn deep_view(&self) -> TelemetryModel {
        TelemetryModel {
            source: self.source,
            observed_at: self.observed_at,
            provider: self.provider.deep_view(),
            model: self.model.deep_view(),
            status: self.status.deep_view(),
            prompt_tokens: self.prompt_tokens,
            output_tokens: self.output_tokens,
            active_requests: self.active_requests,
            waiting_requests: self.waiting_requests,
            generation_tps: self.generation_tps,
            prefill_tps: self.prefill_tps,
            generation_tps_live: self.generation_tps_live,
            prefill_tps_live: self.prefill_tps_live,
            cache_efficiency: self.cache_efficiency,
            requests: self.requests.deep_view(),
        }
    }
}

impl TelemetryModel {
    /// The observation that says nothing.
    pub open spec fn nothing() -> TelemetryModel {
        TelemetryModel {
            source: TelemetrySource::Unavailable,
            observed_at: None,
            provider: None,
            model: None,
            status: None,
            prompt_tokens: None,
            output_tokens: None,
            active_requests: None,
            waiting_requests: None,
            generation_tps: None,
            prefill_tps: None,
            generation_tps_live: false,
            prefill_tps_live: false,
            cache_efficiency: None,
            requests: Seq::empty(),
        }
    }
}

impl Default for LlmTelemetry {
    fn default() -> (r: Self)
        ensures
            r.deep_view() == TelemetryModel::nothing(),
    {
        let r = LlmTelemetry {
            source: TelemetrySource::Unavailable,
            observed_at: None,
            provider: None,
            model: None,
            status: None,
            prompt_tokens: None,
            output_tokens: None,
            active_requests: None,
            waiting_requests: None,
            generation_tps: None,
            prefill_tps: None,
            generation_tps_live: false,
            prefill_tps_live: false,
            cache_efficiency: None,
            requests: Vec::new(),
        };
        assert(r.requests.deep_view() =~= Seq::empty());
        r
    }
}

/// A copy of some requests.
pub fn copy_requests(requests: &Vec<RequestUsage>) -> (r: Vec<RequestUsage>)
    ensures
        r.deep_view() == requests.deep_view(),
{
    let r = requests.clone();
    assert(r.deep_view() =~= requests.deep_view());
    r
}

impl Clone for LlmTelemetry {
    fn clone(&self) -> (r: Self)
        ensures
            r.deep_view() == self.deep_view(),
    {
        LlmTelemetry {
            source: self.source,
            observed_at: self.observed_at,
            provider: copy_optional(&self.provider),
            model: copy_optional(&self.model),
            status: copy_optional(&self.status),
            prompt_tokens: self.prompt_tokens,
            output_tokens: self.output_tokens,
            active_requests: self.active_requests,
            waiting_requests: self.waiting_requests,
            generation_tps: self.generation_tps,
            prefill_tps: self.prefill_tps,
            generation_tps_live: self.generation_tps_live,
            prefill_tps_live: self.prefill_tps_live,
            cache_efficiency: self.cache_efficiency,
            requests: copy_requests(&self.requests),
        }
    }
}

} // verus!
