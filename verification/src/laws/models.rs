//! The contents that the contracts speak of are the fields of the values.
use crate::adapter::{Adapter, Query, Replies};
use crate::json::{Json, JsonNumber, JsonTree};
use crate::operator_charts::{ChartModel, Point};
use crate::phrase::{Piece, PieceModel};
use crate::prompt_panel::{Bar, Label, Panel, PromptLoad, PromptLoadModel};
use crate::providers::RequestUsage;
use crate::request_dashboard::{usage_of, Entry, History, HistoryModel, Insight};
use crate::sample::{Sample, SampleModel};
use crate::telemetry::{LlmTelemetry, TelemetryModel, TelemetrySource};
use crate::time::Timestamp;
use vstd::prelude::*;

verus! {

/// The content of a request's usage is its fields.
pub proof fn usages_hold_their_fields(usage: RequestUsage)
    ensures
        ({
            let content = usage.deep_view();
            &&& content.provider == usage.provider@
            &&& content.model == usage.model@
            &&& content.id == usage.id@
            &&& content.prompt == usage.prompt
            &&& content.cached == usage.cached
            &&& content.output == usage.output
            &&& content.completed == usage.completed
            &&& content.ttft_ms == usage.ttft_ms
            &&& content.observed_at == usage.observed_at
        }),
{
}

/// The content of an observation is its fields.
pub proof fn observations_hold_their_fields(reading: LlmTelemetry)
    ensures
        ({
            let content = reading.deep_view();
            &&& content.source == reading.source
            &&& content.observed_at == reading.observed_at
            &&& content.provider == reading.provider.deep_view()
            &&& content.model == reading.model.deep_view()
            &&& content.status == reading.status.deep_view()
            &&& content.prompt_tokens == reading.prompt_tokens
            &&& content.output_tokens == reading.output_tokens
            &&& content.active_requests == reading.active_requests
            &&& content.waiting_requests == reading.waiting_requests
            &&& content.generation_tps == reading.generation_tps
            &&& content.prefill_tps == reading.prefill_tps
            &&& content.generation_tps_live == reading.generation_tps_live
            &&& content.prefill_tps_live == reading.prefill_tps_live
            &&& content.cache_efficiency == reading.cache_efficiency
            &&& content.requests == reading.requests.deep_view()
        }),
{
}

/// The observation that says nothing has nothing in any field.
pub proof fn nothing_says_nothing()
    ensures
        ({
            let nothing = TelemetryModel::nothing();
            &&& nothing.source == TelemetrySource::Unavailable
            &&& nothing.observed_at is None
            &&& nothing.provider is None
            &&& nothing.model is None
            &&& nothing.status is None
            &&& nothing.prompt_tokens is None
            &&& nothing.output_tokens is None
            &&& nothing.active_requests is None
            &&& nothing.waiting_requests is None
            &&& nothing.generation_tps is None
            &&& nothing.prefill_tps is None
            &&& !nothing.generation_tps_live
            &&& !nothing.prefill_tps_live
            &&& nothing.cache_efficiency is None
            &&& nothing.requests.len() == 0
        }),
{
}

/// The content of a sample is its fields.
pub proof fn samples_hold_their_fields(sample: Sample)
    ensures
        ({
            let content = sample.deep_view();
            &&& content.llm_source == sample.llm_source
            &&& content.llm_status == sample.llm_status@
            &&& content.llm_provider == sample.llm_provider@
            &&& content.llm_observed_at == sample.llm_observed_at
            &&& content.llm_active_requests == sample.llm_active_requests
            &&& content.llm_waiting_requests == sample.llm_waiting_requests
            &&& content.llm_prompt_tokens == sample.llm_prompt_tokens
            &&& content.llm_output_tokens == sample.llm_output_tokens
            &&& content.llm_requests == sample.llm_requests.deep_view()
            &&& content.process_memory == sample.process_memory
            &&& content.process_memory_growth == sample.process_memory_growth
            &&& content.total_memory == sample.total_memory
        }),
{
}

/// The content of an entry is its fields, and its usage is that of the entry before another.
pub proof fn entries_hold_their_fields(entry: Entry, history: History)
    ensures
        entry.deep_view().number == entry.number,
        entry.deep_view().usage == entry.usage.deep_view(),
        entry.deep_view().last_seen == entry.last_seen,
        usage_of(Some(&entry)) == Some(entry.usage.deep_view()),
        usage_of(None) is None,
        history.deep_view().entries == history.entries.deep_view(),
        history.deep_view().next_number == history.next_number,
{
}

/// The content of a point is its fields.
pub proof fn points_hold_their_fields(point: Point, history: crate::operator_charts::History)
    ensures
        point.deep_view().active == point.active,
        point.deep_view().waiting == point.waiting,
        point.deep_view().footprint == point.footprint,
        point.deep_view().process == point.process,
        point.deep_view().provider == point.provider@,
        history.deep_view().points == history.points.deep_view(),
        history.deep_view().timings == history.timings.deep_view(),
{
}

/// The content of what a panel shows is its fields.
pub proof fn panels_hold_their_fields(
    panel: Panel,
    bar: Bar,
    label: Label,
    insight: Insight,
    text: &'static str,
)
    ensures
        ({
            let content = panel.deep_view();
            &&& content.headline == panel.headline.deep_view()
            &&& content.headline_ink == panel.headline_ink
            &&& content.change == panel.change.deep_view()
            &&& content.bars == panel.bars.deep_view()
            &&& content.title == panel.title.deep_view()
            &&& content.title_ink == panel.title_ink
            &&& content.detail == panel.detail@
            &&& content.cache == panel.cache.deep_view()
            &&& content.cache_ink == panel.cache_ink
            &&& content.action == panel.action@
            &&& content.action_ink == panel.action_ink
        }),
        bar.deep_view().x == bar.x,
        bar.deep_view().width == bar.width,
        bar.deep_view().value == bar.value.deep_view(),
        bar.deep_view().tag == bar.tag.deep_view(),
        bar.deep_view().blocks == bar.blocks@,
        label.deep_view().y == label.y,
        label.deep_view().text == label.text.deep_view(),
        label.deep_view().ink == label.ink,
        insight.deep_view().title == insight.title.deep_view(),
        insight.deep_view().detail == insight.detail@,
        insight.deep_view().action == insight.action,
        insight.deep_view().tone == insight.tone,
        PromptLoad::Empty(text).deep_view() == PromptLoadModel::Empty(text@),
        PromptLoad::Shown(panel).deep_view() == PromptLoadModel::Shown(panel.deep_view()),
{
}

/// The content of a watcher, of a question and of the replies is their fields.
pub proof fn watchers_hold_their_fields(adapter: Adapter, query: Query, replies: Replies)
    ensures
        ({
            let content = adapter.deep_view();
            &&& content.configured == adapter.configured.deep_view()
            &&& content.usage_file == adapter.usage_file
            &&& content.selected == adapter.selected.deep_view()
            &&& content.port == adapter.port
            &&& content.cached == adapter.cached.deep_view()
            &&& content.next_poll == adapter.next_poll
            &&& content.backoff == adapter.backoff
            &&& content.kobold_uptime == adapter.kobold_uptime
            &&& content.kobold_session == adapter.kobold_session
        }),
        query.deep_view().port == query.port,
        query.deep_view().path == query.path@,
        replies.deep_view().perf == replies.perf.deep_view(),
        replies.deep_view().slots == replies.slots.deep_view(),
        replies.deep_view().metrics == replies.metrics.deep_view(),
{
}

/// The content of a document is what it holds.
pub proof fn documents_hold_their_values(flag: bool, number: JsonNumber, text: String)
    ensures
        Json::Null.tree() == JsonTree::Null,
        Json::Bool(flag).tree() == JsonTree::Bool(flag),
        Json::Number(number).tree() == JsonTree::Number(number.tree()),
        number.tree().text == number.text@,
        number.tree().unsigned == number.unsigned,
        number.tree().double == number.double,
        Json::Text(text).tree() == JsonTree::Text(text@),
{
}

/// Histories begin without entries, points and timings, and number from the start; a sample
/// begins with nothing known.
pub proof fn histories_begin_with_nothing()
    ensures
        HistoryModel::nothing().entries.len() == 0,
        HistoryModel::nothing().next_number == 0,
        ChartModel::nothing().points.len() == 0,
        ChartModel::nothing().timings.len() == 0,
        ({
            let nothing = SampleModel::nothing();
            &&& nothing.llm_source == TelemetrySource::Unavailable
            &&& nothing.llm_status.len() == 0
            &&& nothing.llm_provider.len() == 0
            &&& nothing.llm_observed_at is None
            &&& nothing.llm_active_requests is None
            &&& nothing.llm_waiting_requests is None
            &&& nothing.llm_prompt_tokens is None
            &&& nothing.llm_output_tokens is None
            &&& nothing.llm_requests.len() == 0
            &&& nothing.process_memory is None
            &&& nothing.process_memory_growth is None
            &&& nothing.total_memory == 0
        }),
{
}

/// The content of a piece of a line is its fields.
pub proof fn pieces_hold_their_fields(
    text: String,
    a: u64,
    b: u64,
    rate: i64,
    at: Timestamp,
    samples: usize,
)
    ensures
        Piece::Words(text).deep_view() == PieceModel::Words(text@),
        Piece::Size(a).deep_view() == PieceModel::Size(a),
        Piece::Rate(rate).deep_view() == PieceModel::Rate(rate),
        (Piece::Percent { part: a, whole: b }).deep_view() == (PieceModel::Percent {
            part: a,
            whole: b,
        }),
        (Piece::Share { part: a, whole: b }).deep_view() == (PieceModel::Share {
            part: a,
            whole: b,
        }),
        (Piece::Times { count: a, base: b }).deep_view() == (PieceModel::Times {
            count: a,
            base: b,
        }),
        Piece::Age(at).deep_view() == PieceModel::Age(at),
        Piece::Tokens(a).deep_view() == PieceModel::Tokens(a),
        (Piece::Window { samples, interval: a }).deep_view() == (PieceModel::Window {
            samples,
            interval: a,
        }),
        Piece::Runtime.deep_view() == PieceModel::Runtime,
{
}

} // verus!
