use mlxtop::adapter::{parse_port, Adapter, Answer, Endpoint, Query, Replies};
use mlxtop::double::Double;
use mlxtop::json::Json;
use mlxtop::kobold::parse_kobold;
use mlxtop::llama::parse_llama_slots;
use mlxtop::telemetry::{LlmTelemetry, TelemetrySource};
use mlxtop::time::{Moment, Timestamp, SECOND};
use mlxtop::usage_file::{
    gather_records, line_bounds, read_usage_file, usage_offset, UsageFile, MAX_USAGE_BYTES,
};
use serde_json::Value;

const NOW: Timestamp = Timestamp { nanos: 1_800_000_000_000_000_000 };
const START: Moment = Moment { nanos: 1_000_000_000_000 };

fn object(fields: Vec<(&str, Value)>) -> Value {
    let mut map = serde_json::Map::new();
    for (name, value) in fields {
        map.insert(name.to_string(), value);
    }
    Value::Object(map)
}

fn read(value: &Value) -> Json {
    Json::parse(value.to_string().as_bytes()).unwrap()
}

fn record(provider: &str, usage: Value) -> Value {
    object(vec![
        ("provider", Value::from(provider)),
        ("request_id", Value::from("req-1")),
        ("model", Value::from("test-model")),
        ("observed_at", Value::from(1700000000_u64)),
        ("usage", usage),
    ])
}

fn perf(generations: u64, prompt: u64, uptime: f64) -> Value {
    object(vec![
        ("total_gens", Value::from(generations)),
        ("last_input_count", Value::from(prompt)),
        ("uptime", Value::from(uptime)),
    ])
}

fn slot(decoded: u64) -> Value {
    object(vec![
        ("is_processing", Value::from(true)),
        ("next_token", object(vec![("n_decoded", Value::from(decoded))])),
    ])
}

fn adapter(selected: &str) -> Adapter {
    Adapter {
        configured: None,
        usage_file: false,
        selected: Some(selected.into()),
        port: None,
        cached: None,
        next_poll: START,
        backoff: 1,
        kobold_uptime: None,
        kobold_session: 0,
    }
}

fn replies() -> Replies {
    Replies { perf: None, slots: None, metrics: None }
}

fn file(text: &str) -> UsageFile {
    UsageFile { bytes: text.as_bytes().to_vec(), partial: false }
}

fn asked(queries: &[Query]) -> Vec<(u16, &'static str)> {
    queries.iter().map(|query| (query.port, query.path)).collect()
}

fn after(seconds: u64) -> Moment {
    Moment { nanos: START.nanos + seconds * SECOND }
}

#[test]
fn usage_file_supplements_live_slots_and_filters_other_providers() {
    let llama = record(
        "llama-server",
        object(vec![
            ("prompt_tokens", Value::from(400)),
            ("completion_tokens", Value::from(30)),
        ]),
    );
    let mut ollama = record("ollama", object(vec![("prompt_eval_count", Value::from(999))]));
    ollama["observed_at"] = Value::from(1700000001);
    let content = file(&format!("{llama}\n{llama}\n{ollama}\n"));
    let adapter = Adapter {
        configured: Some("llama.cpp".into()),
        usage_file: true,
        cached: parse_llama_slots(&read(&Value::Array(vec![slot(5)])), NOW),
        ..adapter("llama.cpp")
    };
    let result = adapter.with_usage(Some(&content), NOW).unwrap();
    assert_eq!(result.source, TelemetrySource::Live);
    assert_eq!(result.active_requests, Some(1));
    assert_eq!(result.output_tokens, Some(5));
    assert_eq!(result.prompt_tokens, None);
    assert_eq!(result.requests.len(), 1);
    assert_eq!(result.requests[0].prompt, 400);
    assert!(result.requests[0].completed);
    assert_eq!(read_usage_file(&content, &None, NOW).unwrap().requests.len(), 1);
    assert_eq!(
        adapter.with_usage(Some(&file("invalid\n")), NOW).unwrap().active_requests,
        Some(1)
    );
}

#[test]
fn usage_file_ignores_partial_and_bad_records_and_keeps_original_time() {
    let valid = record("mlx-lm", object(vec![("prompt_tokens", Value::from(1024))]));
    let content = file(&format!("not json\n{valid}\n{{\"partial\":"));
    let result = read_usage_file(&content, &None, NOW).unwrap();
    assert_eq!(result.prompt_tokens, Some(1024));
    assert_eq!(result.requests.len(), 1);
    assert_eq!(result.observed_at, Some(Timestamp::from_seconds(1700000000)));
    assert!(read_usage_file(&file(&valid.to_string()), &None, NOW).is_none());
}

#[test]
fn kobold_restart_does_not_reuse_request_identity() {
    let mut adapter = adapter("KoboldCpp");
    let first = adapter.kobold_result(&read(&perf(1, 100, 500.5)), NOW).unwrap();
    let repeated = adapter.kobold_result(&read(&perf(1, 100, 501.5)), NOW).unwrap();
    let restarted = adapter.kobold_result(&read(&perf(1, 200, 5.0)), NOW).unwrap();
    assert_eq!(first.requests[0].id, repeated.requests[0].id);
    assert_ne!(first.requests[0].id, restarted.requests[0].id);
    assert_eq!(restarted.source, TelemetrySource::Report);
    assert_eq!(first.requests[0].id, "session-0-generation-1");
    assert_eq!(restarted.requests[0].id, "session-1-generation-1");
    assert_eq!(adapter.kobold_uptime, Some(Double { bits: 5.0f64.to_bits() }));
}

#[test]
fn provider_switch_drops_cached_counts() {
    let mut adapter = Adapter {
        cached: parse_kobold(
            &read(&object(vec![
                ("total_gens", Value::from(1)),
                ("last_input_count", Value::from(20)),
            ])),
            NOW,
        ),
        backoff: 30,
        ..adapter("KoboldCpp")
    };
    assert!(adapter.cached.is_some());
    assert!(adapter.selected(Some("Ollama"), START));
    assert!(adapter.cached.is_none());
    assert!(adapter.poll(START, NOW, &replies(), None).is_none());
    assert!(!adapter.selected(Some("oMLX"), START));
    assert_eq!(adapter.kobold_session, 2);
}

#[test]
fn native_poll_preserves_last_result_age() {
    let mut adapter =
        Adapter { configured: Some("KoboldCpp".into()), ..adapter("KoboldCpp") };
    assert_eq!(adapter.endpoint(START), Endpoint::Kobold);
    let body = r#"{"total_gens":1,"last_input_count":456}"#;
    let answer =
        || Endpoint::Kobold.replies(&vec![Some(Answer { status: 200, body: body.into() })]);
    assert_eq!(asked(&adapter.queries(START)), vec![(5001, "/api/extra/perf")]);
    let first = adapter.poll(START, NOW, &answer(), None).unwrap();
    assert_eq!(adapter.endpoint(START), Endpoint::Nothing);
    let later = Timestamp { nanos: NOW.nanos + 1 };
    let second = adapter.poll(after(1), later, &answer(), None).unwrap();
    assert_eq!(first.prompt_tokens, Some(456));
    assert_eq!(first.observed_at, second.observed_at);
    assert_eq!(first.observed_at, Some(NOW));
    let next = Replies {
        perf: Some(r#"{"total_gens":2,"last_input_count":1}"#.into()),
        ..replies()
    };
    let third = adapter.poll(after(2), later, &next, None).unwrap();
    assert_eq!(third.observed_at, Some(later));
}

#[test]
fn llama_polls_metrics_even_when_slots_are_disabled() {
    let mut adapter = adapter("llama.cpp");
    assert_eq!(adapter.endpoint(START), Endpoint::Llama);
    assert_eq!(asked(&adapter.queries(START)), vec![(8080, "/slots"), (8080, "/metrics")]);
    let answer = Endpoint::Llama.replies(&vec![
        Some(Answer { status: 403, body: "{}".into() }),
        Some(Answer {
            status: 200,
            body: "llamacpp:requests_processing 1\nllamacpp:requests_deferred 2\n".into(),
        }),
    ]);
    let result = adapter.poll(START, NOW, &answer, None).unwrap();
    assert_eq!(result.waiting_requests, Some(2));
    assert_eq!(result.active_requests, Some(1));
    let slots = Replies { slots: Some(format!("[{}]", slot(4))), ..replies() };
    let result = adapter.poll(after(1), NOW, &slots, None).unwrap();
    assert_eq!(result.output_tokens, Some(4));
    assert_eq!(result.waiting_requests, None);
}

#[test]
fn failures_back_off_and_keep_the_last_answer() {
    let mut adapter = adapter("KoboldCpp");
    let answer = Replies { perf: Some(perf(1, 9, 1.0).to_string()), ..replies() };
    assert!(adapter.poll(START, NOW, &answer, None).is_some());
    assert_eq!(adapter.next_poll, after(1));
    let mut now = 1;
    for pause in [2, 4, 8, 16, 30, 30] {
        let kept = adapter.poll(after(now), NOW, &replies(), None).unwrap();
        assert_eq!(kept.prompt_tokens, Some(9));
        assert_eq!(adapter.backoff, pause);
        assert_eq!(adapter.next_poll, after(now + pause));
        // Before the next attempt is due, an answer plays no part.
        let early = Replies { perf: Some(perf(7, 7, 7.0).to_string()), ..replies() };
        let kept = adapter.poll(after(now + pause - 1), NOW, &early, None).unwrap();
        assert_eq!(kept.prompt_tokens, Some(9));
        now += pause;
    }
    assert!(adapter.poll(after(now), NOW, &answer, None).is_some());
    assert_eq!(adapter.backoff, 1);
    let broken = Replies { perf: Some("{".into()), ..replies() };
    adapter.poll(after(now + 1), NOW, &broken, None);
    assert_eq!(adapter.backoff, 2);
}

#[test]
fn outcomes_are_kept_as_they_come() {
    let mut adapter = adapter("llama.cpp");
    let reading = LlmTelemetry { prompt_tokens: Some(3), ..LlmTelemetry::default() };
    adapter.settle(Some(reading), START);
    assert_eq!(adapter.cached.as_ref().unwrap().prompt_tokens, Some(3));
    assert_eq!(adapter.next_poll, after(1));
    adapter.settle(None, after(1));
    assert_eq!(adapter.cached.as_ref().unwrap().prompt_tokens, Some(3));
    assert_eq!(adapter.next_poll, after(3));
}

#[test]
fn environment_sets_provider_and_port() {
    let mut watcher = Adapter::new(Some("Llama-Server".into()), false, Some("8123"), START);
    assert!(watcher.queries(START).is_empty());
    assert_eq!(watcher.endpoint(START), Endpoint::Nothing);
    assert!(watcher.selected(Some("ollama"), START));
    assert_eq!(watcher.selected.as_deref(), Some("llama.cpp"));
    assert_eq!(watcher.endpoint(START), Endpoint::Llama);
    assert_eq!(asked(&watcher.queries(START)), vec![(8123, "/slots"), (8123, "/metrics")]);
    let mut unknown = Adapter::new(Some("vllm".into()), false, None, START);
    assert!(unknown.selected(None, START));
    assert_eq!(unknown.selected.as_deref(), Some("unsupported"));
    assert_eq!(unknown.endpoint(START), Endpoint::Nothing);
    assert!(unknown.queries(START).is_empty());
    let mut idle = Adapter::new(None, false, None, START);
    assert!(!idle.selected(None, START));
    let mut filed = Adapter::new(None, true, None, START);
    assert!(filed.selected(Some("omlx"), START));
}

#[test]
fn ports_are_positive_numbers_that_fit() {
    for (text, port) in [
        ("1", Some(1)),
        ("+80", Some(80)),
        ("00443", Some(443)),
        ("65535", Some(65535)),
        ("65536", None),
        ("99999999999999999999", None),
        ("0", None),
        ("", None),
        ("+", None),
        ("-1", None),
        (" 80", None),
        ("8o", None),
    ] {
        assert_eq!(parse_port(text), port);
    }
}

#[test]
fn same_choice_keeps_what_is_known() {
    let mut adapter = adapter("KoboldCpp");
    let answer = Replies { perf: Some(perf(1, 9, 1.0).to_string()), ..replies() };
    adapter.poll(START, NOW, &answer, None);
    assert!(adapter.selected(Some("koboldcpp"), after(9)));
    assert!(adapter.cached.is_some());
    assert_eq!(adapter.next_poll, after(1));
    assert_eq!(adapter.kobold_session, 0);
}

#[test]
fn reported_usage_stands_in_for_a_reported_result() {
    let valid = record("koboldcpp", object(vec![("prompt_tokens", Value::from(77))]));
    let content = file(&format!("{valid}\n"));
    let mut adapter = Adapter { usage_file: true, ..adapter("KoboldCpp") };
    let answer = Replies { perf: Some(perf(1, 9, 1.0).to_string()), ..replies() };
    let both = adapter.poll(START, NOW, &answer, Some(&content)).unwrap();
    assert_eq!(both.prompt_tokens, Some(77));
    assert_eq!(both.requests.len(), 1);
    let alone = adapter.with_usage(None, NOW).unwrap();
    assert_eq!(alone.prompt_tokens, Some(9));
    adapter.usage_file = false;
    assert_eq!(adapter.with_usage(Some(&content), NOW).unwrap().prompt_tokens, Some(9));
}

#[test]
fn usage_file_keeps_the_last_reports_of_the_latest_provider() {
    let line = |provider: &str, id: u64, at: u64, prompt: u64| {
        let mut value = record(provider, object(vec![("prompt_tokens", Value::from(prompt))]));
        value["request_id"] = Value::from(id);
        value["observed_at"] = Value::from(at);
        format!("{value}\n")
    };
    let mut text = String::new();
    for n in 0..200 {
        text += &line("ollama", n, 1700000000, n);
    }
    text += &line("localai", 1, 1700000000, 5);
    text += &line("ollama", 150, 1700000000, 9999);
    let reading = read_usage_file(&file(&text), &None, NOW).unwrap();
    assert_eq!(reading.provider.as_deref(), Some("Ollama"));
    assert_eq!(reading.prompt_tokens, Some(9999));
    assert_eq!(reading.requests.len(), 128);
    assert_eq!(reading.requests[127].prompt, 9999);
    assert_eq!(reading.requests[126].prompt, 199);
    assert_eq!(reading.requests.iter().filter(|r| r.id == "150").count(), 1);
    let other = read_usage_file(&file(&text), &Some("LocalAI".into()), NOW).unwrap();
    assert_eq!(other.prompt_tokens, Some(5));
    text += &line("localai", 2, 1699999999, 6);
    // An older record does not become the latest by coming later.
    let reading = read_usage_file(&file(&text), &None, NOW).unwrap();
    assert_eq!(reading.prompt_tokens, Some(9999));
}

#[test]
fn partial_readings_skip_the_first_line() {
    let valid = record("ollama", object(vec![("prompt_tokens", Value::from(8))]));
    let text = format!("{valid}\n{valid}\n");
    let cut = UsageFile { bytes: text.as_bytes().to_vec(), partial: true };
    let length = valid.to_string().len();
    assert_eq!(line_bounds(&cut), Some(vec![(length + 1, 2 * length + 1)]));
    assert_eq!(
        line_bounds(&file(&text)),
        Some(vec![(0, length), (length + 1, 2 * length + 1)])
    );
    assert_eq!(read_usage_file(&cut, &None, NOW).unwrap().prompt_tokens, Some(8));
    let one = UsageFile { bytes: format!("{valid}\n").into_bytes(), partial: true };
    assert_eq!(line_bounds(&one), None);
    assert!(read_usage_file(&one, &None, NOW).is_none());
    assert!(read_usage_file(&file(""), &None, NOW).is_none());
    assert_eq!(line_bounds(&file("\n")), Some(vec![(0, 0)]));
}

#[test]
fn records_add_up_to_the_latest() {
    let at = |seconds: u64, prompt: u64| LlmTelemetry {
        observed_at: Some(Timestamp::from_seconds(seconds)),
        prompt_tokens: Some(prompt),
        ..LlmTelemetry::default()
    };
    assert!(gather_records(vec![]).is_none());
    let latest = gather_records(vec![at(5, 1), at(9, 2), at(9, 3), at(7, 4)]).unwrap();
    assert_eq!(latest.prompt_tokens, Some(3));
}

#[test]
fn only_the_end_of_a_long_file_is_read() {
    assert_eq!(MAX_USAGE_BYTES, 256 * 1024);
    assert_eq!(usage_offset(MAX_USAGE_BYTES), 0);
    assert_eq!(usage_offset(MAX_USAGE_BYTES + 5), 5);
    assert_eq!(usage_offset(0), 0);
}

#[test]
fn answers_are_sorted_by_what_was_asked() {
    let answers = vec![
        Some(Answer { status: 200, body: "a".into() }),
        Some(Answer { status: 204, body: "b".into() }),
        Some(Answer { status: 200, body: "c".into() }),
    ];
    let kobold = Endpoint::Kobold.replies(&answers);
    assert_eq!((kobold.perf.as_deref(), kobold.slots, kobold.metrics), (Some("a"), None, None));
    let llama = Endpoint::Llama.replies(&answers);
    assert_eq!((llama.perf, llama.slots.as_deref(), llama.metrics), (None, Some("a"), None));
    let nothing = Endpoint::Nothing.replies(&answers);
    assert_eq!((nothing.perf, nothing.slots, nothing.metrics), (None, None, None));
    let missing = Endpoint::Llama.replies(&vec![None]);
    assert_eq!((missing.perf, missing.slots, missing.metrics), (None, None, None));
    let metrics = Endpoint::Llama.replies(&vec![
        None,
        Some(Answer { status: 200, body: "m".into() }),
    ]);
    assert_eq!(metrics.metrics.as_deref(), Some("m"));
}
