use omniinfer::benchmark::archive::{ResultWrite, WriteEvent, WritePhase};
use omniinfer::benchmark::commands::{
    command_array, command_text, contains_unredacted_secret, is_redacted_reference,
    is_secret_name, quote_command_argument, redact_command_args,
};
use omniinfer::benchmark::environment::{catalog_device_id, resolve_device};
use omniinfer::benchmark::flags::{
    infer_positive_flag, last_option_value, last_toggle, slot_prompt_similarity,
    validate_cache_isolation,
};
use omniinfer::benchmark::ids::{
    generated_benchmark_id, slug_component, valid_catalog_id, valid_optimization_slug,
    validate_benchmark_id,
};
use omniinfer::benchmark::listing::{
    add_row, is_result_extension, is_result_file, listing, result_row, row_line, rows_payload, sort_rows, ResultRow,
};
use omniinfer::benchmark::measurement::{
    consistent_token_count, extract_measurement, positive_number, Amount, MeasurementSources,
    Timing,
};
use omniinfer::benchmark::metadata::{
    check_url_parts, validate_https_url, validate_metadata, validate_text, validated_command,
    BenchRunArgs,
};
use omniinfer::benchmark::optimizations::{
    detect_optimizations, resolve_optimization_declaration,
};
use omniinfer::benchmark::run::{
    completion_request, conclude, place_result, plan_run, read_prompt, result_file_name,
    result_path, settle,
    temporary_file_name, BenchAction, PromptInput, RunPlan, RunSequence,
};
use omniinfer::benchmark::submission::{
    metric_values, submission_begun_at, MeasuredRun, Metric, RunFacts,
};
use omniinfer::json::Json;
use omniinfer::outside::UrlParts;

fn texts(items: &[&str]) -> Vec<String> {
    items.iter().map(|item| item.to_string()).collect()
}

fn text(s: &str) -> Json {
    Json::Text(s.to_string())
}

fn object(fields: Vec<(&str, Json)>) -> Json {
    Json::Object(fields.into_iter().map(|(key, value)| (key.to_string(), value)).collect())
}

fn float(value: f64) -> Json {
    Json::Float(value.to_bits())
}

fn value_of(amount: Amount) -> f64 {
    match amount {
        Amount::Whole(n) => n as f64,
        Amount::Real(bits) => f64::from_bits(bits),
    }
}

/// The tokens per second and the duration that a timing comes to.
fn timed(tokens: u64, timing: Timing) -> (f64, f64) {
    let duration = match timing {
        Timing::Duration(amount) => value_of(amount),
        Timing::Rate(amount) => tokens as f64 * 1000.0 / value_of(amount),
    };
    (tokens as f64 * 1000.0 / duration, duration)
}

fn speeds(sources: &MeasurementSources) -> (f64, f64) {
    (
        timed(sources.prompt_tokens, sources.prefill).0,
        timed(sources.completion_tokens, sources.decode).0,
    )
}

fn usage(prompt: u64, completion: u64) -> Json {
    object(vec![
        ("prompt_tokens", Json::Unsigned(prompt)),
        ("completion_tokens", Json::Unsigned(completion)),
    ])
}

fn observed() -> Json {
    object(vec![
        ("ttft_ms", Json::Unsigned(100)),
        ("decode_ms", Json::Unsigned(500)),
        ("observed_prefill_tps", float(200.0)),
        ("observed_decode_tps", float(20.0)),
    ])
}

#[test]
fn redacts_sensitive_runtime_arguments() {
    let args = texts(&[
        "runtime",
        "--api-key",
        "secret-value",
        "TOKEN=another-secret",
        "--port",
        "9000",
    ]);
    assert_eq!(
        redact_command_args(&args),
        vec!["runtime", "--api-key", "<redacted>", "TOKEN=<redacted>", "--port", "9000"]
    );
}

#[test]
fn detects_known_optimization_markers() {
    let detected =
        detect_optimizations("turboquant-mac", &texts(&["runtime", "--dflash-mode"]));
    assert_eq!(detected, vec!["dflash", "turboquant"]);
}

#[test]
fn extracts_backend_and_observed_measurements() {
    let backend = object(vec![
        ("usage", usage(64, 16)),
        (
            "timings",
            object(vec![("prompt_ms", float(400.0)), ("predicted_ms", float(800.0))]),
        ),
    ]);
    let value = extract_measurement(&backend).unwrap();
    assert_eq!(speeds(&value), (160.0, 20.0));

    let watched = object(vec![("usage", usage(20, 10)), ("omniinfer_metrics", observed())]);
    let value = extract_measurement(&watched).unwrap();
    assert_eq!(speeds(&value), (200.0, 20.0));
    assert_eq!(value.ttft.map(value_of), Some(100.0));

    let upstream_rates = object(vec![
        ("usage", usage(20, 10)),
        (
            "timings",
            object(vec![
                ("prompt_per_second", float(400.0)),
                ("predicted_per_second", float(40.0)),
            ]),
        ),
        ("omniinfer_metrics", observed()),
    ]);
    let value = extract_measurement(&upstream_rates).unwrap();
    assert_eq!(speeds(&value), (400.0, 40.0));
}

#[test]
fn infers_common_batch_flags() {
    assert_eq!(
        infer_positive_flag(&texts(&["runtime", "-b", "256"]), &texts(&["-b"])),
        Some(256)
    );
    assert_eq!(
        infer_positive_flag(&texts(&["runtime", "--batch-size=64"]), &texts(&["--batch-size"])),
        Some(64)
    );
}

fn args() -> BenchRunArgs {
    BenchRunArgs {
        benchmark_id: Some("contract-test-omniinfer-bench".to_string()),
        catalog_model_id: "qwen3-5-2b".to_string(),
        model_name: None,
        model_format: "GGUF".to_string(),
        quantization: "Q4_0".to_string(),
        model_url: "https://example.com/qwen.gguf".to_string(),
        device_name: "Test GPU".to_string(),
        soc: "test-gpu".to_string(),
        backend_id: None,
        backend_name: None,
        backend_version: "test-runtime-1".to_string(),
        build_command: "bash scripts/build-test-runtime.sh".to_string(),
        run_command: None,
        baseline: true,
        optimizations: Vec::new(),
        context_size: None,
        batch_size: None,
        prompt: None,
        max_tokens: 128,
        timeout_seconds: 600,
        submitter_name: "OmniInfer Test".to_string(),
        organization: None,
        source_url: None,
        notes: None,
    }
}

fn state() -> Json {
    object(vec![
        ("backend_ready", Json::Bool(true)),
        ("model", text("/models/qwen.gguf")),
        ("backend", text("llama.cpp-linux-cuda")),
        ("ctx_size", Json::Unsigned(128)),
        (
            "launch_command",
            Json::Array(
                [
                    "llama-server",
                    "-m",
                    "/models/qwen.gguf",
                    "-b",
                    "64",
                    "--api-key",
                    "runtime-secret",
                ]
                .iter()
                .map(|item| text(item))
                .collect(),
            ),
        ),
    ])
}

fn measured(sources: &MeasurementSources, wall: f64) -> MeasuredRun {
    let round = |value: f64| ((value * 1_000_000.0).round() / 1_000_000.0).to_bits();
    let (prefill_tps, prefill) = timed(sources.prompt_tokens, sources.prefill);
    let (decode_tps, decode) = timed(sources.completion_tokens, sources.decode);
    MeasuredRun {
        prompt_tokens: sources.prompt_tokens,
        completion_tokens: sources.completion_tokens,
        prefill_tps: round(prefill_tps),
        decode_tps: round(decode_tps),
        prefill_duration_ms: round(prefill),
        decode_duration_ms: round(decode),
        ttft_ms: sources.ttft.map(|amount| round(value_of(amount))),
        wall_time_ms: round(wall),
        wall_time_covers_phases: wall + 0.001 >= prefill + decode,
    }
}

fn run_of(prompt: u64, completion: u64) -> MeasuredRun {
    let response = object(vec![
        ("usage", usage(prompt, completion)),
        (
            "timings",
            object(vec![("prompt_ms", float(400.0)), ("predicted_ms", float(800.0))]),
        ),
    ]);
    measured(&extract_measurement(&response).unwrap(), 1300.0)
}

fn floats(json: &Json) -> Vec<f64> {
    match json {
        Json::Array(items) => items
            .iter()
            .map(|item| match item {
                Json::Float(bits) => f64::from_bits(*bits),
                other => panic!("{other:?}"),
            })
            .collect(),
        other => panic!("{other:?}"),
    }
}

#[test]
fn bench_archives_submission_compatible_json() {
    let args = args();
    assert!(validate_metadata(&args).is_ok());
    let plan = plan_run(&args, &state(), false).unwrap();
    let (prompt, source) = read_prompt(PromptInput::Inline, &args.prompt).unwrap();
    let request = completion_request(&prompt, args.max_tokens);
    assert_eq!(request.get_flag("stream"), Some(false));
    assert_eq!(request.get_number("temperature"), Some(0));
    assert_eq!(request.get_number("max_tokens"), Some(128));

    let mut sequence = RunSequence::new(0, 3);
    let mut runs = Vec::new();
    while sequence.next() == BenchAction::Measure {
        runs.push(run_of(64, 16));
        sequence.advance();
    }
    let (id, payload) =
        conclude(&args, &plan, &prompt, &source, &runs, 1_700_000_000, 5).unwrap();
    assert_eq!(id, "contract-test-omniinfer-bench");
    assert_eq!(payload.get_text("benchmark_id").as_deref(), Some(id.as_str()));
    assert_eq!(payload.get_text("schema_version").as_deref(), Some("1.2.0"));
    let workload = payload.get("workload").unwrap();
    assert_eq!(workload.get_number("pp"), Some(64));
    assert_eq!(workload.get_number("tg"), Some(16));
    assert_eq!(workload.get_number("batch_size"), Some(64));
    assert_eq!(workload.get_number("context_size"), Some(128));
    let measured = payload.get("runs").unwrap();
    assert_eq!(floats(measured.get("prefill_tps").unwrap()), vec![160.0, 160.0, 160.0]);
    assert_eq!(floats(measured.get("decode_tps").unwrap()), vec![20.0, 20.0, 20.0]);
    assert_eq!(floats(measured.get("wall_time_ms").unwrap()), vec![1300.0; 3]);
    assert!(measured.get("ttft_ms").is_none());
    let optimization = payload.get("optimization").unwrap();
    assert_eq!(optimization.get_text("mode").as_deref(), Some("baseline"));
    assert!(optimization.get_texts("methods").unwrap().is_empty());
    let run_command = payload.get("runtime").unwrap().get_text("run_command").unwrap();
    assert!(run_command.contains("llama-server -m /models/qwen.gguf -b 64"));
    assert!(run_command.contains("--api-key"));
    assert!(run_command.contains("<redacted>"));
    assert!(!run_command.contains("runtime-secret"));
    assert!(!contains_unredacted_secret(&run_command));
    assert_eq!(
        payload.get("protocol").unwrap().get_text("started_at").as_deref(),
        Some("2023-11-14T22:13:20.000000005Z")
    );

    let row = result_row(&payload, "/results/x.json").unwrap();
    assert_eq!(row.benchmark_id.as_deref(), Some(id.as_str()));
    assert_eq!(row.model_id.as_deref(), Some("qwen3-5-2b"));
}

#[test]
fn bench_requires_an_explicit_optimization_declaration() {
    let mut undeclared = args();
    undeclared.benchmark_id = None;
    undeclared.build_command = "bash build.sh".to_string();
    undeclared.baseline = false;
    let error = validate_metadata(&undeclared).unwrap_err();
    assert!(error.message.contains("Explicit optimization declaration is required"));
}

#[test]
fn prompts_have_a_digest() {
    let prompt = read_prompt(PromptInput::File(b"abc".to_vec()), &None).unwrap();
    assert_eq!(prompt, ("abc".to_string(), "OmniInfer prompt file".to_string()));
    let plan = plan_run(&args(), &state(), false).unwrap();
    let (_, payload) =
        conclude(&args(), &plan, &prompt.0, &prompt.1, &vec![run_of(64, 16)], 0, 0).unwrap();
    let described = payload.get("workload").unwrap().get("prompt").unwrap();
    assert_eq!(
        described.get_text("sha256").as_deref(),
        Some("ba7816bf8f01cfea414140de5dae2223b00361a396177a9cb410ff61f20015ad")
    );
    let message = |input: PromptInput, inline: Option<&str>| {
        read_prompt(input, &inline.map(str::to_string)).unwrap_err().message
    };
    assert_eq!(
        message(PromptInput::Unreadable("/p".to_string()), None),
        "failed to read prompt file /p"
    );
    assert_eq!(message(PromptInput::File(vec![0xff]), None), "prompt file must be UTF-8");
    assert_eq!(message(PromptInput::File(b" \n".to_vec()), None), "prompt file must not be empty.");
    assert_eq!(message(PromptInput::Inline, Some(" ")), "--prompt must not be empty.");
}

#[test]
fn a_time_that_cannot_be_written_is_refused() {
    let plan = plan_run(&args(), &state(), false).unwrap();
    let message = |seconds: i64| {
        conclude(&args(), &plan, "p", "s", &vec![run_of(64, 16)], seconds, 0).unwrap_err().message
    };
    assert_eq!(message(i64::MAX), "timestamp was not in range");
    assert_eq!(
        message(-62_198_755_200),
        "The year component cannot be formatted into the requested format."
    );
}

#[test]
fn plans_are_refused_with_a_reason() {
    let message = |state: Json, args: &BenchRunArgs| match plan_run(args, &state, false) {
        Ok(_) => panic!("planned"),
        Err(e) => e.message,
    };
    let mut fields = match state() {
        Json::Object(fields) => fields,
        other => panic!("{other:?}"),
    };
    assert!(message(object(vec![]), &args()).starts_with("No benchmarkable runtime is ready."));
    assert_eq!(
        message(object(vec![("backend_ready", Json::Bool(true))]), &args()),
        "OmniInfer state does not identify the loaded model."
    );
    assert_eq!(
        message(
            object(vec![("backend_ready", Json::Bool(true)), ("model", text("m"))]),
            &args()
        ),
        "OmniInfer state does not identify the loaded backend."
    );
    fields.push(("backend".to_string(), text("a b")));
    assert_eq!(
        message(Json::Object(fields), &args()),
        "Loaded backend ID \"a b\" cannot be represented by the benchmark schema."
    );
    let mut other = args();
    other.backend_id = Some("vllm-linux-cuda".to_string());
    assert_eq!(
        message(state(), &other),
        "Loaded backend is llama.cpp-linux-cuda, but --backend-id requested vllm-linux-cuda."
    );
    let bare = |extra: Vec<(&str, Json)>| {
        let mut fields = vec![
            ("backend_ready", Json::Bool(true)),
            ("model", text("m")),
            ("backend", text("b")),
        ];
        fields.extend(extra);
        object(fields)
    };
    assert!(message(bare(vec![]), &args())
        .starts_with("The loaded runtime does not expose a launch command."));
    let mut stated = args();
    stated.run_command = Some("server".to_string());
    assert!(message(bare(vec![]), &stated).starts_with("Context size is unavailable"));
    stated.context_size = Some(64);
    assert!(message(bare(vec![]), &stated).starts_with("Batch size is unavailable"));
    stated.batch_size = Some(8);
    let plan = plan_run(&stated, &bare(vec![]), false).unwrap();
    assert_eq!((plan.context_size, plan.batch_size), (64, 8));
    assert_eq!(plan.run_command, "server");
    let wide = bare(vec![("ctx_size", Json::Unsigned(1 << 40))]);
    stated.context_size = None;
    assert!(message(wide, &stated).starts_with("Context size is unavailable"));
    let wrong = bare(vec![("launch_command", Json::Array(vec![Json::Null]))]);
    assert_eq!(
        message(wrong, &stated),
        "OmniInfer state field launch_command is not a string array."
    );
}

fn plan_with(context_size: u32, batch_size: u32) -> RunPlan {
    RunPlan {
        loaded_backend: "b".to_string(),
        run_command: "server".to_string(),
        optimization_mode: "baseline".to_string(),
        optimizations: Vec::new(),
        context_size,
        batch_size,
    }
}

#[test]
fn sizes_have_limits() {
    let message = |plan: RunPlan, runs: Vec<MeasuredRun>| {
        settle(&args(), &plan, &runs, 0, 0).unwrap_err().message
    };
    assert_eq!(message(plan_with(128, 1), Vec::new()), "benchmark produced no measurements");
    assert!(message(plan_with(128, 1), vec![run_of(64, 16), run_of(63, 16)])
        .starts_with("Measured prompt token counts differ"));
    assert!(message(plan_with(128, 1), vec![run_of(64, 16), run_of(64, 15)])
        .starts_with("Measured completion token counts differ"));
    assert!(message(plan_with(128, 1), vec![run_of(1_048_577, 1)]).starts_with("Measured PP/TG"));
    assert!(message(plan_with(4_194_305, 1), vec![run_of(1, 1)]).starts_with("Context size"));
    assert!(message(plan_with(128, 1_048_577), vec![run_of(1, 1)]).starts_with("Batch size"));
    assert_eq!(
        message(plan_with(79, 1), vec![run_of(64, 16)]),
        "Measured pp + tg is 80, which exceeds context size 79."
    );
    assert!(settle(&args(), &plan_with(80, 1), &vec![run_of(64, 16)], 0, 0).is_ok());
    let mut named = args();
    named.benchmark_id = Some("NO".to_string());
    let error = settle(&named, &plan_with(80, 1), &vec![run_of(64, 16)], 0, 0).unwrap_err();
    assert!(error.message.starts_with("benchmark ID must be"));
}

#[test]
fn metrics_of_single_runs_are_left_out() {
    let mut first = run_of(64, 16);
    first.ttft_ms = Some(5.0f64.to_bits());
    let mut second = run_of(64, 16);
    second.wall_time_covers_phases = false;
    let facts = RunFacts {
        benchmark_id: "id".to_string(),
        loaded_backend: "b".to_string(),
        run_command: "c".to_string(),
        optimization_mode: "baseline".to_string(),
        optimizations: Vec::new(),
        context_size: 128,
        batch_size: 1,
        prompt_source: "s".to_string(),
        prompt_sha256: "0".to_string(),
        pp: 64,
        tg: 16,
    };
    let mut named = args();
    named.model_name = Some("Qwen".to_string());
    named.notes = Some("n".to_string());
    let json = submission_begun_at(&named, &facts, "now", &vec![first, second]);
    let runs = json.get("runs").unwrap();
    assert!(runs.get("ttft_ms").is_none());
    assert!(runs.get("wall_time_ms").is_none());
    assert_eq!(json.get("model").unwrap().get_text("name").as_deref(), Some("Qwen"));
    assert_eq!(json.get("protocol").unwrap().get_text("notes").as_deref(), Some("n"));
    let json = submission_begun_at(&args(), &facts, "now", &vec![first]);
    assert_eq!(floats(json.get("runs").unwrap().get("ttft_ms").unwrap()), vec![5.0]);
    assert_eq!(floats(&metric_values(&vec![second], Metric::Ttft)), vec![0.0]);
}

#[test]
fn responses_without_timings_are_refused() {
    let message = |fields: Vec<(&str, Json)>| extract_measurement(&object(fields)).unwrap_err().message;
    assert_eq!(message(vec![]), "response is missing usage");
    assert_eq!(
        message(vec![("usage", usage(0, 1))]),
        "response is missing positive prompt_tokens"
    );
    assert_eq!(
        message(vec![("usage", usage(1, 0))]),
        "response is missing positive completion_tokens"
    );
    assert_eq!(message(vec![("usage", usage(1, 1))]), "response has no prefill timing");
    assert_eq!(
        message(vec![
            ("usage", usage(1, 1)),
            ("omniinfer_metrics", object(vec![("ttft_ms", Json::Unsigned(3))]))
        ]),
        "response has no decode timing"
    );
    let strange = object(vec![
        ("a", float(f64::INFINITY)),
        ("b", float(-1.0)),
        ("c", float(f64::NAN)),
        ("d", float(0.0)),
        ("e", text("1")),
        ("f", Json::Unsigned(7)),
    ]);
    for key in ["a", "b", "c", "d", "e"] {
        assert_eq!(positive_number(Some(&strange), &texts(&[key])), None, "{key}");
    }
    assert_eq!(positive_number(Some(&strange), &texts(&["e", "f"])), Some(Amount::Whole(7)));
    assert_eq!(positive_number(Some(&strange), &texts(&["d", "f"])), None);
    assert_eq!(positive_number(None, &texts(&["f"])), None);
    assert_eq!(consistent_token_count(&vec![4, 4], true).unwrap(), 4);
}

#[test]
fn secrets_have_names() {
    for name in ["--api-key", "TOKEN", "HF_TOKEN", "db-password", "client_secret"] {
        assert!(is_secret_name(name), "{name}");
    }
    for name in ["--port", "tokenizer", "--max-tokens"] {
        assert!(!is_secret_name(name), "{name}");
    }
    assert!(is_redacted_reference("'$KEY'"));
    assert!(is_redacted_reference("%KEY%"));
    assert!(!is_redacted_reference("abc"));
    assert!(contains_unredacted_secret("run --api-key abc"));
    assert!(!contains_unredacted_secret("run --api-key $KEY"));
    assert!(!contains_unredacted_secret("run --api-key"));
    let twice = redact_command_args(&redact_command_args(&texts(&["--token", "x"])));
    assert_eq!(twice, vec!["--token", "<redacted>"]);
}

#[test]
fn arguments_are_quoted_for_their_shell() {
    assert_eq!(quote_command_argument("plain-1.0", false), "plain-1.0");
    assert_eq!(quote_command_argument("it's", false), "'it'\"'\"'s'");
    assert_eq!(command_text(&texts(&["run", "a b"]), false), "run 'a b'");
    assert_eq!(command_text(&texts(&["run", "a b"]), true), "run \"a b\"");
    assert!(command_array(&state(), "nothing").unwrap().is_empty());
}

#[test]
fn identifiers_are_checked() {
    assert!(valid_catalog_id("Qwen3.5_2b-x"));
    assert!(!valid_catalog_id(""));
    assert!(!valid_catalog_id(".x"));
    assert!(!valid_catalog_id(&"a".repeat(129)));
    assert!(valid_optimization_slug("dflash-v2"));
    assert!(!valid_optimization_slug("baseline"));
    assert!(validate_benchmark_id("abc").is_ok());
    assert!(validate_benchmark_id("ab").is_err());
    assert!(validate_benchmark_id("-abc").is_err());
    assert_eq!(slug_component("Qwen 3.5/2B!"), "qwen-3-5-2b");
    assert_eq!(slug_component("\u{c9}cole"), "cole");
    assert_eq!(slug_component("K\u{212a}"), "kk");
    let id = generated_benchmark_id("qwen3-5-2b", "llama.cpp-linux-cuda", 1_700_000_000, 255);
    assert_eq!(id, "omniinfer-1700000000-000000ff-qwen3-5-2b-llama-cpp-linux-cuda");
    assert!(validate_benchmark_id(&id).is_ok());
    for name in ["", "\u{212a}elvin \u{130}stanbul", "\u{6a21}\u{578b}", "--Qwen 3 / 7B--"] {
        let any = generated_benchmark_id(name, name, i64::MIN, u32::MAX);
        assert!(validate_benchmark_id(&any).is_ok(), "{any}");
        assert!(any.starts_with("omniinfer-"));
    }
    assert_eq!(slug_component("\u{212a}elvin"), "kelvin");
    let long = generated_benchmark_id(&"m".repeat(128), &"b".repeat(128), 1, 1);
    assert!(validate_benchmark_id(&long).is_ok());
}

#[test]
fn flags_are_found() {
    let args = texts(&["--cache-ram", "1", "--cache-ram=2", "--x"]);
    assert_eq!(last_option_value(&args, &texts(&["--cache-ram"])).as_deref(), Some("2"));
    let toggles = texts(&["--on", "--off", "--on"]);
    assert_eq!(last_toggle(&toggles, "--on", "--off"), Some(true));
    assert_eq!(last_toggle(&args, "--on", "--off"), None);
    assert_eq!(
        slot_prompt_similarity(&texts(&["--slot-prompt-similarity", "0"])).as_deref(),
        Some("0")
    );
    assert_eq!(infer_positive_flag(&texts(&["-b", "x"]), &texts(&["-b"])), None);
}

#[test]
fn caches_are_kept_out_of_a_run() {
    let isolated = [
        "llama-server",
        "--cache-ram",
        "0",
        "--no-cache-idle-slots",
        "--no-cache-prompt",
        "--slot-prompt-similarity=0.0",
        "--slot-save-path",
        "/empty",
    ];
    let check = |backend: &str, args: &[&str], state: Json| {
        let args = texts(args);
        let zero = slot_prompt_similarity(&args)
            .and_then(|value| value.parse::<f64>().ok())
            == Some(0.0);
        validate_cache_isolation(backend, &args, zero, &state).map_err(|e| e.message)
    };
    assert_eq!(check("llama.cpp-linux-cuda", &isolated, object(vec![])), Ok(()));
    assert_eq!(check("turboquant-mac", &isolated, object(vec![("mmproj", Json::Null)])), Ok(()));
    for left_out in 1..isolated.len() {
        let mut fewer = isolated.to_vec();
        fewer.remove(left_out);
        let error = check("llama.cpp-linux-cuda", &fewer, object(vec![])).unwrap_err();
        assert!(error.starts_with("The loaded llama.cpp runtime is not benchmark-isolated."));
    }
    assert!(check("vllm-linux-cuda", &isolated, object(vec![]))
        .unwrap_err()
        .starts_with("Backend vllm-linux-cuda cannot currently prove per-run cache erasure."));
    assert!(check("llama.cpp-x", &isolated, object(vec![("mmproj", text("p"))]))
        .unwrap_err()
        .starts_with("The standard text benchmark cannot use a loaded mmproj."));
}

#[test]
fn optimizations_are_declared() {
    let seen = texts(&["dflash"]);
    let (mode, methods) =
        resolve_optimization_declaration(&texts(&["dflash-v2", " a "]), false, &seen).unwrap();
    assert_eq!(mode, "optimized");
    assert_eq!(methods, vec!["a", "dflash-v2"]);
    assert!(resolve_optimization_declaration(&Vec::new(), true, &seen).is_err());
    assert!(resolve_optimization_declaration(&texts(&["a", "a"]), false, &Vec::new()).is_err());
    assert!(resolve_optimization_declaration(&texts(&["A"]), false, &Vec::new()).is_err());
    assert!(resolve_optimization_declaration(&texts(&["a"]), false, &seen).is_err());
}

#[test]
fn metadata_is_checked() {
    let message = |args: BenchRunArgs| validate_metadata(&args).unwrap_err().message;
    let mut a = args();
    a.quantization = " ".to_string();
    assert_eq!(message(a), "--quantization must not be empty.");
    let mut a = args();
    a.soc = "x".repeat(257);
    assert_eq!(message(a), "--soc exceeds 256 characters.");
    let mut a = args();
    a.device_name = "a\u{7}b".to_string();
    assert_eq!(message(a), "--device-name contains a control character.");
    let mut a = args();
    a.model_format = "ZIP".to_string();
    assert!(message(a).starts_with("--format must be one of: GGUF, MLX"));
    let mut a = args();
    a.model_url = format!("https://example.com/{}", "a".repeat(2048));
    assert_eq!(message(a), "--model-url exceeds 2048 characters.");
    let mut a = args();
    a.source_url = Some("http://example.com".to_string());
    assert!(message(a).starts_with("--source-url must be a public HTTPS URL"));
    let mut a = args();
    a.catalog_model_id = "a b".to_string();
    assert_eq!(message(a), "--catalog-model-id must be a 1-128 character catalog slug.");
    let mut a = args();
    a.backend_id = Some("a b".to_string());
    assert_eq!(message(a), "--backend-id must be a 1-128 character catalog slug.");
    let mut a = args();
    a.optimizations = texts(&["x"]);
    assert_eq!(message(a), "--baseline conflicts with --optimization.");
    let mut a = args();
    a.build_command = "make TOKEN=abc".to_string();
    assert_eq!(message(a), "--build-command contains an unredacted credential value.");
    assert!(validate_text("--x", "a\tb", 3).is_ok());
    assert_eq!(validated_command("--x", " run ").unwrap(), "run");
}

#[test]
fn addresses_are_checked() {
    assert!(validate_https_url("--u", "https://example.com/a?b=1").is_ok());
    for bad in [
        "https://me@example.com",
        "https://me:pw@example.com",
        "https://example.com/#x",
        "ftp://example.com",
    ] {
        assert!(validate_https_url("--u", bad).is_err(), "{bad}");
    }
    assert_eq!(
        validate_https_url("--u", "not a url").unwrap_err().message,
        "--u is not a valid URL"
    );
    let parts = UrlParts {
        scheme: "https".to_string(),
        host: None,
        username: String::new(),
        password: None,
        fragment: None,
    };
    assert!(check_url_parts("--u", &Some(parts)).is_err());
}

#[test]
fn devices_are_told_apart() {
    assert!(catalog_device_id("some unknown thing").is_none());
    let given = resolve_device(&Some("D".to_string()), &Some("s".to_string()), &None).unwrap();
    assert_eq!(given, ("D".to_string(), "s".to_string()));
    assert!(resolve_device(&None, &None, &None).is_err());
}

fn row(id: &str, started_at: Option<&str>) -> ResultRow {
    ResultRow {
        benchmark_id: Some(id.to_string()),
        model_id: None,
        backend_id: None,
        started_at: started_at.map(str::to_string),
        path: format!("/{id}.json"),
    }
}

#[test]
fn the_latest_result_is_listed_first() {
    let sorted = sort_rows(vec![
        row("a", None),
        row("b", Some("2024-01-01")),
        row("c", Some("2025-01-01")),
        row("d", Some("2024-01-01")),
        row("e", None),
    ]);
    let ids: Vec<String> = sorted.iter().map(|r| r.benchmark_id.clone().unwrap()).collect();
    assert_eq!(ids, vec!["c", "b", "d", "a", "e"]);
    let mut rows = Vec::new();
    add_row(&mut rows, row("x", None));
    add_row(&mut rows, row("y", Some("1")));
    assert_eq!(rows[0].path, "/y.json");
    assert_eq!(row_line(&rows[0]), "  y  model=-  backend=-  /y.json");
    let lines = listing(&rows, "/results");
    assert_eq!(lines[0], "Archived benchmark results:");
    assert_eq!(lines.len(), 3);
    assert_eq!(
        listing(&Vec::new(), "/results"),
        vec!["No archived benchmark results in /results"]
    );
    match rows_payload(&rows) {
        Json::Array(items) => assert!(matches!(items[1].get("started_at"), Some(Json::Null))),
        other => panic!("{other:?}"),
    }
    assert!(is_result_file("x.json"));
    assert!(is_result_file("/results/x.json"));
    assert!(!is_result_file("x.json.tmp"));
    assert!(is_result_file("C:\\results\\x.json"));
    assert!(!is_result_file("/results.json/x"));
    assert!(is_result_extension(&Some("json".to_string())));
    assert!(!is_result_extension(&Some("JSON".to_string())));
    assert!(!is_result_extension(&None));
    assert!(result_row(&object(vec![("schema_version", text("1.1.0"))]), "/x").is_none());
}

#[test]
fn results_have_a_place() {
    assert_eq!(result_file_name("id"), "id.json");
    let join = |a: &str, b: &str| std::path::Path::new(a).join(b).display().to_string();
    assert_eq!(
        result_path(&None, "/results", "id", "/cwd"),
        join("/results", "id.json")
    );
    assert_eq!(
        place_result("p".to_string(), true, "/cwd/p".to_string()),
        "p".to_string()
    );
    assert_eq!(
        place_result("p".to_string(), false, "/cwd/p".to_string()),
        "/cwd/p".to_string()
    );
    assert_eq!(
        result_path(&Some("out.json".to_string()), "/results", "id", "/cwd"),
        join("/cwd", "out.json")
    );
    assert_eq!(
        temporary_file_name(&Some("id.json".to_string()), 12, 255),
        ".id.json.12-00000000000000ff.tmp"
    );
    assert!(temporary_file_name(&None, 1, 1).starts_with(".benchmark.json.1-"));
}

#[test]
fn runs_are_counted() {
    let mut sequence = RunSequence::new(1, 2);
    assert_eq!(sequence.next(), BenchAction::Warmup);
    assert_eq!(sequence.failure_context(false), "warmup run 1 failed");
    sequence.advance();
    assert_eq!(sequence.failure_context(false), "measured run 1 failed");
    sequence.advance();
    assert_eq!(sequence.failure_context(true), "measured run 2 returned incomplete metrics");
    sequence.advance();
    assert_eq!(sequence.next(), BenchAction::Conclude);
    sequence.advance();
    assert_eq!(sequence.made, 3);
}

#[test]
fn results_are_put_in_place_last() {
    let mut write = ResultWrite::new("/results/id.json", true, true, true);
    assert_eq!(write.phase, WritePhase::CheckDestination);
    write.step(WriteEvent::Done);
    assert_eq!(write.phase, WritePhase::CheckDestination);
    write.step(WriteEvent::Present(false));
    let expected = [
        WritePhase::MakeDirectory,
        WritePhase::RestrictDirectory,
        WritePhase::CreateTemporary,
        WritePhase::WriteTemporary,
        WritePhase::SyncTemporary,
        WritePhase::Rename,
    ];
    for phase in expected {
        assert_eq!(write.phase, phase);
        write.step(WriteEvent::Done);
    }
    assert_eq!(write.phase, WritePhase::Finished);
    assert!(write.error.is_none());

    let mut elsewhere = ResultWrite::new("/tmp/id.json", true, false, true);
    elsewhere.step(WriteEvent::Present(false));
    elsewhere.step(WriteEvent::Done);
    assert_eq!(elsewhere.phase, WritePhase::CreateTemporary);
}

#[test]
fn results_that_are_there_are_kept() {
    let mut write = ResultWrite::new("/results/id.json", true, true, true);
    write.step(WriteEvent::Present(true));
    assert_eq!(write.phase, WritePhase::Failed);
    assert_eq!(
        write.error.unwrap().message,
        "benchmark result already exists: /results/id.json"
    );

    let mut rootless = ResultWrite::new("/", false, false, true);
    rootless.step(WriteEvent::Present(false));
    assert_eq!(rootless.phase, WritePhase::Failed);
    assert_eq!(rootless.error.unwrap().message, "benchmark result path has no parent");
}

#[test]
fn failed_result_writes_clean_up() {
    let mut write = ResultWrite::new("/results/id.json", true, false, false);
    write.step(WriteEvent::Present(false));
    write.step(WriteEvent::Done);
    write.step(WriteEvent::Done);
    write.step(WriteEvent::Done);
    assert_eq!(write.phase, WritePhase::SyncTemporary);
    write.step(WriteEvent::Broken("disk is full".to_string()));
    assert_eq!(write.phase, WritePhase::RemoveTemporary);
    write.step(WriteEvent::Broken("no such file".to_string()));
    assert_eq!(write.phase, WritePhase::Failed);
    assert_eq!(write.error.unwrap().message, "disk is full");

    let mut early = ResultWrite::new("/results/id.json", true, false, false);
    early.step(WriteEvent::Present(false));
    early.step(WriteEvent::Broken("read-only".to_string()));
    assert_eq!(early.phase, WritePhase::Failed);
    assert_eq!(early.error.unwrap().message, "read-only");
}

#[test]
fn concluded_benchmarks_can_be_listed() {
    let plan = plan_run(&args(), &state(), false).unwrap();
    let (id, json) =
        conclude(&args(), &plan, "p", "s", &vec![run_of(64, 16)], 1_700_000_000, 0).unwrap();
    let row = result_row(&json, "/results/x.json").unwrap();
    assert_eq!(row.benchmark_id, Some(id));
    assert_eq!(row.model_id, Some(args().catalog_model_id));
    assert_eq!(row.backend_id, Some(plan.loaded_backend));
    assert_eq!(row.started_at.as_deref(), Some("2023-11-14T22:13:20Z"));
    assert_eq!(row.path, "/results/x.json");
    assert!(json.get("runs").is_some());
}
