use mlxtop::double::Double;
use mlxtop::json::Json;
use mlxtop::kobold::parse_kobold;
use mlxtop::llama::{
    merge_gauges, merge_llama_metrics, metric, metric_count, metric_texts, parse_llama_slots,
    usable_reading, LlamaMetrics,
};
use mlxtop::providers::{
    canonical_provider, comparable, identifier, new_request_summary, omlx_requests, parse_usage,
    same_request, RequestUsage,
};
use mlxtop::sample::{llm_context_tokens, Sample};
use mlxtop::telemetry::TelemetrySource;
use mlxtop::time::Timestamp;
use serde_json::Value;
use std::collections::VecDeque;

const NOW: Timestamp = Timestamp { nanos: 1_800_000_000_000_000_000 };

fn object(fields: Vec<(&str, Value)>) -> Value {
    let mut map = serde_json::Map::new();
    for (name, value) in fields {
        map.insert(name.to_string(), value);
    }
    Value::Object(map)
}

fn array(items: Vec<Value>) -> Value {
    Value::Array(items)
}

fn read(value: &Value) -> Json {
    Json::parse(value.to_string().as_bytes()).unwrap()
}

fn record(provider: &str, usage: Value) -> Value {
    object(vec![
        ("provider", Value::from(provider)),
        ("request_id", Value::from("req-1")),
        ("model", Value::from("test-model")),
        ("observed_at", Value::from(1700000000_u64)),
        ("usage", usage),
    ])
}

fn slot(processing: bool, decoded: u64) -> Value {
    object(vec![
        ("is_processing", Value::from(processing)),
        ("next_token", object(vec![("n_decoded", Value::from(decoded))])),
    ])
}

fn double(value: f64) -> Double {
    Double { bits: value.to_bits() }
}

#[test]
fn llama_sums_active_slots_without_inventing_missing_output() {
    let mut slots = array(vec![slot(true, 12), slot(true, 8), slot(false, 999)]);
    let result = parse_llama_slots(&read(&slots), NOW).unwrap();
    assert_eq!(result.active_requests, Some(2));
    assert_eq!(result.output_tokens, Some(20));
    let sample = Sample { llm_output_tokens: result.output_tokens, ..Sample::default() };
    assert_eq!(llm_context_tokens(&sample), None);
    slots[1]["next_token"] = object(vec![]);
    assert_eq!(parse_llama_slots(&read(&slots), NOW).unwrap().output_tokens, None);
}

#[test]
fn llama_metrics_work_without_slots_and_keep_average_rates() {
    let metrics = "# TYPE llamacpp:requests_processing gauge\nllamacpp:requests_processing 2\nllamacpp:requests_deferred 3\nllamacpp:predicted_tokens_seconds 24.5\nllamacpp:prompt_tokens_seconds 100\n";
    let result = merge_llama_metrics(None, Some(metrics), NOW).unwrap();
    assert_eq!(result.active_requests, Some(2));
    assert_eq!(result.waiting_requests, Some(3));
    assert_eq!(result.generation_tps, Some(double(24.5)));
    assert_eq!(result.prefill_tps, Some(double(100.0)));
    assert!(!result.generation_tps_live);
    assert!(!result.prefill_tps_live);
    assert_eq!(result.prompt_tokens, None);
    assert!(merge_llama_metrics(None, Some("<html>disabled</html>"), NOW).is_none());
    assert_eq!(metric_count("count 1.5", "count"), None);
    assert_eq!(metric_count("count -1", "count"), None);
    assert_eq!(metric_count("count +Inf", "count"), None);
    let idle = parse_llama_slots(&read(&array(vec![])), NOW);
    assert_eq!(merge_llama_metrics(idle, None, NOW).unwrap().active_requests, Some(0));
}

#[test]
fn response_usage_and_incomplete_ollama_chunks() {
    let usage = parse_usage(
        &read(&record(
            "LocalAI",
            object(vec![
                ("input_tokens", Value::from(50)),
                ("output_tokens", Value::from(4)),
                ("input_tokens_details", object(vec![("cached_tokens", Value::from(20))])),
            ]),
        )),
        NOW,
    )
    .unwrap();
    assert_eq!(usage.output_tokens, Some(4));
    assert_eq!(usage.requests[0].cached, Some(20));
    let mut streaming = record("Ollama", object(vec![("prompt_eval_count", Value::from(50))]));
    streaming["done"] = Value::from(false);
    assert!(parse_usage(&read(&streaming), NOW).is_none());
}

#[test]
fn first_token_timing_is_explicit_not_derived_from_provider_durations() {
    let mut value = record(
        "Ollama",
        object(vec![
            ("prompt_tokens", Value::from(100)),
            ("prompt_eval_duration", Value::from(999999)),
        ]),
    );
    assert_eq!(parse_usage(&read(&value), NOW).unwrap().requests[0].ttft_ms, None);
    value["timings"] = object(vec![("time_to_first_token_ms", Value::from(1250))]);
    assert_eq!(parse_usage(&read(&value), NOW).unwrap().requests[0].ttft_ms, Some(1250));
    value["timings"] = object(vec![("time_to_first_token_ms", Value::from(-1))]);
    assert_eq!(parse_usage(&read(&value), NOW).unwrap().requests[0].ttft_ms, None);
}

#[test]
fn response_formats_preserve_full_prompt_and_cache_counts() {
    for provider in ["omlx", "mlx_lm.server", "llama.cpp", "koboldcpp", "localai"] {
        let telemetry = parse_usage(
            &read(&record(
                provider,
                object(vec![
                    ("prompt_tokens", Value::from(10000)),
                    ("completion_tokens", Value::from(12)),
                    ("prompt_tokens_details", object(vec![("cached_tokens", Value::from(9000))])),
                ]),
            )),
            NOW,
        )
        .unwrap();
        assert_eq!(telemetry.prompt_tokens, Some(10000));
        assert_eq!(telemetry.requests[0].cached, Some(9000));
        assert_eq!(telemetry.source, TelemetrySource::Report);
        assert!(!telemetry.generation_tps_live);
        assert!(telemetry.cache_efficiency.is_none());
    }
    let ollama = parse_usage(
        &read(&record(
            "Ollama",
            object(vec![("prompt_eval_count", Value::from(800)), ("eval_count", Value::from(42))]),
        )),
        NOW,
    )
    .unwrap();
    assert_eq!(ollama.prompt_tokens, Some(800));
    assert_eq!(ollama.output_tokens, Some(42));
    let lmstudio = parse_usage(
        &read(&object(vec![
            ("provider", Value::from("LM Studio")),
            ("request_id", Value::from("r")),
            ("observed_at", Value::from(1700000000)),
            (
                "stats",
                object(vec![
                    ("input_tokens", Value::from(333)),
                    ("total_output_tokens", Value::from(22)),
                ]),
            ),
        ])),
        NOW,
    )
    .unwrap();
    assert_eq!(lmstudio.prompt_tokens, Some(333));
    assert_eq!(lmstudio.output_tokens, Some(22));
    assert_eq!(lmstudio.model.as_deref(), Some("unknown"));
}

#[test]
fn missing_invalid_and_future_usage_stays_unavailable() {
    for usage in [
        object(vec![]),
        object(vec![("prompt_tokens", Value::from(-1))]),
        object(vec![("prompt_tokens", Value::from(1.5))]),
        object(vec![("prompt_tokens", Value::from("123"))]),
    ] {
        assert!(parse_usage(&read(&record("Ollama", usage)), NOW).is_none());
    }
    let mut value = record(
        "mlx-lm",
        object(vec![("prompt_tokens", Value::from(0)), ("cached_tokens", Value::from(1))]),
    );
    let parsed = parse_usage(&read(&value), NOW).unwrap();
    assert_eq!(parsed.prompt_tokens, Some(0));
    assert_eq!(parsed.requests[0].cached, None);
    value["observed_at"] = Value::from(u64::MAX);
    assert!(parse_usage(&read(&value), NOW).is_none());
    value["observed_at"] = Value::from(1700000000);
    value.as_object_mut().unwrap().remove("request_id");
    assert!(parse_usage(&read(&value), NOW).is_none());
}

#[test]
fn omlx_collects_every_model_and_request_without_aggregate_cache() {
    let request = |id: &str, prompt: u64| {
        object(vec![("request_id", Value::from(id)), ("prompt_tokens", Value::from(prompt))])
    };
    let mut cached = request("4", 300);
    cached["cached_tokens"] = Value::from(100);
    let stats = object(vec![
        ("cache_efficiency", Value::from(99)),
        (
            "active_models",
            object(vec![(
                "models",
                array(vec![
                    object(vec![
                        ("id", Value::from("a")),
                        ("generating", array(vec![request("1", 100), request("2", 200)])),
                        ("waiting", array(vec![request("3", 0)])),
                    ]),
                    object(vec![
                        ("id", Value::from("b")),
                        ("prefilling", array(vec![cached])),
                    ]),
                ]),
            )]),
        ),
    ]);
    let requests = omlx_requests(&read(&stats), NOW);
    assert_eq!(requests.len(), 3);
    assert_eq!(requests[1].prompt, 200);
    assert_eq!(requests[0].cached, None);
    assert_eq!(requests[2].cached, Some(100));
    assert_eq!(requests[0].model, "a");
    assert_eq!(requests[2].model, "b");
    assert_eq!(requests[2].id, "4");
    assert!(requests.iter().all(|r| r.provider == "oMLX" && !r.completed));
    assert!(requests.iter().all(|r| r.observed_at == Some(NOW)));
}

#[test]
fn journal_deduplicates_polling_but_preserves_equal_sized_requests() {
    let mut seen = VecDeque::new();
    let mut request = parse_usage(
        &read(&record("Ollama", object(vec![("prompt_tokens", Value::from(10))]))),
        NOW,
    )
    .unwrap()
    .requests
    .remove(0);
    assert!(new_request_summary(&mut seen, &request).is_some());
    assert!(new_request_summary(&mut seen, &request).is_none());
    request.id = "req-2".into();
    assert!(new_request_summary(&mut seen, &request).is_some());
    for n in 0..600 {
        request.id = n.to_string();
        new_request_summary(&mut seen, &request);
    }
    assert_eq!(seen.len(), 512);
    assert_eq!(seen[511], ("Ollama\0test-model\0599".to_string(), 10));
}

#[test]
fn kobold_last_result_never_becomes_a_live_rate() {
    let result = parse_kobold(
        &read(&object(vec![
            ("total_gens", Value::from(2)),
            ("last_input_count", Value::from(1000)),
            ("last_token_count", Value::from(20)),
            ("last_eval_speed", Value::from(30)),
            ("last_process_speed", Value::from(500)),
            ("idle", Value::from(0)),
        ])),
        NOW,
    )
    .unwrap();
    assert_eq!(result.prompt_tokens, Some(1000));
    assert_eq!(result.source, TelemetrySource::Report);
    assert_eq!(result.status.as_deref(), Some("last result"));
    assert!(!result.generation_tps_live);
    assert_eq!(result.generation_tps, Some(double(30.0)));
    assert_eq!(result.prefill_tps, Some(double(500.0)));
    assert_eq!(result.requests[0].id, "generation-2");
    assert_eq!(
        parse_kobold(
            &read(&object(vec![
                ("total_gens", Value::from(0)),
                ("last_input_count", Value::from(0)),
            ])),
            NOW,
        )
        .unwrap()
        .prompt_tokens,
        None
    );
    assert!(parse_kobold(&read(&object(vec![("status", Value::from("ok"))])), NOW).is_none());
}

#[test]
fn llama_capacity_and_processed_work_are_not_prompt_length() {
    let slots = array(vec![
        object(vec![
            ("id", Value::from(0)),
            ("id_task", Value::from(10)),
            ("is_processing", Value::from(true)),
            ("n_ctx", Value::from(65536)),
            ("timings", object(vec![("prompt_n", Value::from(50))])),
            ("next_token", object(vec![("n_decoded", Value::from(12))])),
        ]),
        object(vec![
            ("id", Value::from(1)),
            ("is_processing", Value::from(false)),
            ("next_token", object(vec![("n_decoded", Value::from(999))])),
        ]),
    ]);
    let result = parse_llama_slots(&read(&slots), NOW).unwrap();
    assert_eq!(result.active_requests, Some(1));
    assert_eq!(result.output_tokens, Some(12));
    assert_eq!(result.prompt_tokens, None);
    assert!(parse_llama_slots(&read(&array(vec![object(vec![])])), NOW).is_none());
    let idle = parse_llama_slots(&read(&array(vec![])), NOW).unwrap();
    assert_eq!(idle.active_requests, Some(0));
    assert_eq!(idle.output_tokens, None);
    assert_eq!(
        metric(
            "llamacpp:predicted_tokens_seconds 25\n",
            "llamacpp:predicted_tokens_seconds"
        ),
        Some(double(25.0))
    );
    assert_eq!(metric("rate NaN\n", "rate"), None);
}

#[test]
fn metric_takes_the_first_usable_line() {
    let page = "rate\nrate x\nrates 1\n\trate\u{a0}-3 \r\n rate  7.25 9\nrate 8";
    assert_eq!(metric_texts(page, "rate"), vec!["x", "-3", "7.25", "8"]);
    assert_eq!(metric(page, "rate"), Some(double(7.25)));
    assert_eq!(metric_count(page, "rate"), None);
    assert_eq!(metric_count("rate 1e3", "rate"), Some(1000));
    assert_eq!(metric_count("rate 18446744073709551616", "rate"), None);
    assert_eq!(metric_count("rate 18446744073709549568", "rate"), Some(18446744073709549568));
    assert_eq!(metric("rate -0", "rate"), Some(double(-0.0)));
    assert_eq!(metric_count("rate -0", "rate"), Some(0));
    assert_eq!(metric("rate inf\nrate 2", "rate"), Some(double(2.0)));
    assert_eq!(metric("", "rate"), None);
    assert_eq!(usable_reading(&vec![None, Some((-1.0f64).to_bits()), Some(2.5f64.to_bits())]), Some(double(2.5)));
    assert_eq!(usable_reading(&vec![Some(f64::NAN.to_bits()), Some(f64::INFINITY.to_bits())]), None);
}

#[test]
fn gauges_complete_slots_but_keep_their_active_count() {
    let slots = parse_llama_slots(&read(&array(vec![slot(true, 5)])), NOW);
    let gauges = LlamaMetrics {
        generation: Some(double(3.5)),
        prefill: None,
        active: Some(9),
        waiting: Some(4),
    };
    let merged = merge_gauges(slots, Some(gauges), NOW).unwrap();
    assert_eq!(merged.active_requests, Some(1));
    assert_eq!(merged.waiting_requests, Some(4));
    assert_eq!(merged.output_tokens, Some(5));
    assert_eq!(merged.generation_tps, Some(double(3.5)));
    assert_eq!(merged.status.as_deref(), Some("processing"));
    let idle = LlamaMetrics { active: Some(0), waiting: None, ..gauges };
    assert_eq!(merge_gauges(None, Some(idle), NOW).unwrap().status.as_deref(), Some("idle"));
    let busy = LlamaMetrics { active: Some(0), waiting: Some(1), ..gauges };
    assert_eq!(merge_gauges(None, Some(busy), NOW).unwrap().status.as_deref(), Some("processing"));
    let unknown = LlamaMetrics { active: None, waiting: Some(1), ..gauges };
    assert_eq!(merge_gauges(None, Some(unknown), NOW).unwrap().status.as_deref(), Some("running"));
    let nothing = LlamaMetrics { generation: None, prefill: None, active: None, waiting: None };
    assert!(merge_gauges(None, Some(nothing), NOW).is_none());
}

#[test]
fn slot_sums_that_do_not_fit_are_not_shown() {
    let slots = array(vec![slot(true, u64::MAX), slot(true, 1)]);
    let result = parse_llama_slots(&read(&slots), NOW).unwrap();
    assert_eq!(result.active_requests, Some(2));
    assert_eq!(result.output_tokens, None);
    assert!(parse_llama_slots(&read(&object(vec![])), NOW).is_none());
    let odd = array(vec![object(vec![("is_processing", Value::from("yes"))])]);
    assert!(parse_llama_slots(&read(&odd), NOW).is_none());
}

#[test]
fn provider_names_are_canonical() {
    for (name, known) in [
        ("OMLX", "oMLX"),
        ("mlx-lm", "mlx-lm"),
        ("MLX_LM.server", "mlx-lm"),
        ("mlx_lm", "mlx-lm"),
        ("OLLAMA", "Ollama"),
        ("llama.cpp", "llama.cpp"),
        ("Llama-Server", "llama.cpp"),
        ("LM Studio", "LM Studio"),
        ("lmstudio", "LM Studio"),
        ("KoboldCpp", "KoboldCpp"),
        ("LocalAI", "LocalAI"),
    ] {
        assert_eq!(canonical_provider(name), Some(known));
        assert_eq!(canonical_provider(known), Some(known));
    }
    assert_eq!(canonical_provider("vllm"), None);
    assert_eq!(canonical_provider("ollama "), None);
}

#[test]
fn identifiers_are_cleaned_and_shortened() {
    let value = object(vec![
        ("text", Value::from("a\u{1b}b\n\u{9f}c")),
        ("number", Value::from(12)),
        ("negative", Value::from(-7)),
        ("empty", Value::from("\n\t")),
        ("flag", Value::from(true)),
        ("long", Value::from("é".repeat(200))),
    ]);
    let json = read(&value);
    assert_eq!(identifier(&json, "text").as_deref(), Some("abc"));
    assert_eq!(identifier(&json, "number").as_deref(), Some("12"));
    assert_eq!(identifier(&json, "negative").as_deref(), Some("-7"));
    assert_eq!(identifier(&json, "empty"), None);
    assert_eq!(identifier(&json, "flag"), None);
    assert_eq!(identifier(&json, "missing"), None);
    assert_eq!(identifier(&json, "long"), Some("é".repeat(120)));
}

#[test]
fn documents_are_read_as_plain_values() {
    let text = r#"{"a":[1,-2,2.5,null,true,"x"],"b":{"c":18446744073709551615}}"#;
    let json = Json::parse(text.as_bytes()).unwrap();
    let items = json.get("a").unwrap().as_array().unwrap();
    assert_eq!(items.len(), 6);
    assert_eq!(items[0].as_u64(), Some(1));
    assert_eq!(items[0].as_double(), Some(1.0f64.to_bits()));
    assert_eq!(items[1].as_u64(), None);
    assert_eq!(items[1].as_double(), Some((-2.0f64).to_bits()));
    assert_eq!(items[2].as_u64(), None);
    assert_eq!(items[2].as_double(), Some(2.5f64.to_bits()));
    assert_eq!(items[3].as_bool(), None);
    assert_eq!(items[4].as_bool(), Some(true));
    assert_eq!(items[5].as_text().map(|s| s.as_str()), Some("x"));
    assert_eq!(json.get_nested("b", "c").unwrap().as_u64(), Some(u64::MAX));
    assert!(json.get_nested("b", "d").is_none());
    assert!(json.get("z").is_none());
    assert!(Json::parse(b"not json").is_none());
    assert!(Json::parse(b"{} {}").is_none());
    assert!(Json::parse(b"\xff").is_none());
    let twice = Json::parse(br#"{"k":1,"k":2}"#).unwrap();
    assert_eq!(twice.get("k").unwrap().as_u64(), Some(2));
}

fn usage(provider: &str, model: &str, id: &str) -> RequestUsage {
    RequestUsage {
        provider: provider.into(),
        model: model.into(),
        id: id.into(),
        prompt: 1234,
        cached: None,
        output: None,
        completed: false,
        ttft_ms: None,
        observed_at: None,
    }
}

#[test]
fn journal_lines_tell_what_is_known() {
    let mut request = usage("Ollama", "m", "r");
    assert_eq!(request.summary(), "observed prompt 1234 · out — · Ollama · m · r");
    request.completed = true;
    request.output = Some(0);
    request.cached = Some(17);
    request.ttft_ms = Some(250);
    assert_eq!(
        request.summary(),
        "reported prompt 1234 · out 0 · Ollama · m · r · cached 17 · first token 250 ms (reported)"
    );
}

#[test]
fn requests_are_told_apart_by_provider_model_and_id() {
    let a = usage("p", "m", "i");
    assert!(same_request(&a, &usage("p", "m", "i")));
    assert!(!same_request(&a, &usage("p", "m", "j")));
    assert!(!same_request(&a, &usage("p", "n", "i")));
    assert!(!same_request(&a, &usage("q", "m", "i")));
    assert!(comparable(&a, &usage("p", "m", "j")));
    assert!(!comparable(&a, &usage("p", "n", "i")));
    assert_eq!(a.key(), "p\0m\0i");
    assert_ne!(usage("p", "m", "i").key(), usage("pm", "", "i").key());
}

#[test]
fn changed_prompt_is_entered_again() {
    let mut seen = VecDeque::new();
    let mut request = usage("p", "m", "i");
    assert!(new_request_summary(&mut seen, &request).is_some());
    request.prompt += 1;
    assert!(new_request_summary(&mut seen, &request).is_some());
    assert!(new_request_summary(&mut seen, &request).is_none());
    assert_eq!(seen.len(), 2);
}

#[test]
fn usage_records_need_a_known_provider_and_a_past_time() {
    let counts = || object(vec![("prompt_tokens", Value::from(5))]);
    assert!(parse_usage(&read(&record("vllm", counts())), NOW).is_none());
    let mut value = record("ollama", counts());
    value["observed_at"] = Value::from(1_800_000_000_u64);
    assert!(parse_usage(&read(&value), NOW).is_some());
    value["observed_at"] = Value::from(1_800_000_001_u64);
    assert!(parse_usage(&read(&value), NOW).is_none());
    value["observed_at"] = Value::from("1700000000");
    assert!(parse_usage(&read(&value), NOW).is_none());
    let mut finished = record("ollama", counts());
    finished["done"] = Value::from(true);
    finished["model"] = Value::Null;
    finished["model_instance_id"] = Value::from("instance");
    let reading = parse_usage(&read(&finished), NOW).unwrap();
    assert_eq!(reading.model.as_deref(), Some("instance"));
    assert_eq!(reading.provider.as_deref(), Some("Ollama"));
    assert!(reading.requests[0].completed);
}

#[test]
fn omlx_keeps_working_requests_with_an_empty_prompt_and_names_unknown_models() {
    let request = object(vec![
        ("request_id", Value::from(7)),
        ("prompt_tokens", Value::from(0)),
        ("cached_tokens", Value::from(1)),
        ("generated_tokens", Value::from(3)),
    ]);
    let anonymous = object(vec![("prompt_tokens", Value::from(9))]);
    let stats = object(vec![(
        "active_models",
        object(vec![(
            "models",
            array(vec![object(vec![(
                "generating",
                array(vec![request, anonymous]),
            )])]),
        )]),
    )]);
    let requests = omlx_requests(&read(&stats), NOW);
    assert_eq!(requests.len(), 1);
    assert_eq!(requests[0].id, "7");
    assert_eq!(requests[0].model, "unknown");
    assert_eq!(requests[0].cached, None);
    assert_eq!(requests[0].output, Some(3));
    assert!(omlx_requests(&read(&object(vec![])), NOW).is_empty());
}
