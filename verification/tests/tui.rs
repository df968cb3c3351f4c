use omniinfer::json::Json;
use omniinfer::manager::reports::SelectedModel;
use omniinfer::tui::{
    gateway_arguments, model_supported_by_backend, run, run_server, state_matches_remembered_model,
    Console, ConsoleEvent, GatewayGuard, SelectedBackendInfo, ServeArgs, ServerEvent, ServerStart,
};

fn backend(family: &str, model_artifact: &str) -> Option<SelectedBackendInfo> {
    Some(SelectedBackendInfo {
        family: family.to_string(),
        model_artifact: model_artifact.to_string(),
    })
}

fn defaults(max_tokens: u64) -> Json {
    Json::Object(vec![("max_tokens".to_string(), Json::Unsigned(max_tokens))])
}

fn state(max_tokens: u64) -> Json {
    Json::Object(vec![
        ("model_path".to_string(), Json::Text("/models/model.gguf".to_string())),
        ("request_defaults".to_string(), defaults(max_tokens)),
    ])
}

#[test]
fn vla_backend_accepts_only_supported_checkpoint_files() {
    let backend = backend("vla.cpp", "vla-artifact");
    assert!(model_supported_by_backend("smolvla.gguf", &backend));
    assert!(model_supported_by_backend("smolvla.safetensors", &backend));
    assert!(!model_supported_by_backend("weights.bin", &backend));
    assert!(!model_supported_by_backend("config.json", &backend));
}

#[test]
fn chat_backends_do_not_claim_vla_safetensors() {
    let backend = backend("llama.cpp", "file");
    assert!(model_supported_by_backend("chat.gguf", &backend));
    assert!(!model_supported_by_backend("weights.safetensors", &backend));
    assert!(model_supported_by_backend("/models/chat.GGUF", &backend));
    assert!(!model_supported_by_backend(".gguf", &None));
}

#[test]
fn remembered_model_reuse_requires_matching_request_defaults() {
    let model = SelectedModel {
        model: "/models/model.gguf".to_string(),
        mmproj: None,
        ctx_size: Some(4096),
        request_defaults: defaults(64),
    };
    assert!(state_matches_remembered_model(&state(64), &model));
    assert!(!state_matches_remembered_model(&state(128), &model));
}

#[test]
fn defaults_that_are_not_stated_are_none() {
    let mut model = SelectedModel {
        model: "/m.gguf".to_string(),
        mmproj: None,
        ctx_size: None,
        request_defaults: Json::Object(Vec::new()),
    };
    let state =
        Json::Object(vec![("model_path".to_string(), Json::Text("/m.gguf".to_string()))]);
    assert!(state_matches_remembered_model(&state, &model));
    model.model = "/other.gguf".to_string();
    assert!(!state_matches_remembered_model(&state, &model));
}

#[test]
fn the_console_needs_a_terminal() {
    let ended = run(Console::CheckTerminal, ConsoleEvent::Answer(false));
    match ended {
        Console::Failed(e) => {
            assert_eq!(e.message, "OmniInfer TUI requires an interactive terminal.")
        }
        other => panic!("{other:?}"),
    }
}

#[test]
fn a_model_that_cannot_be_loaded_is_replaced() {
    let mut console = run(Console::CheckTerminal, ConsoleEvent::Answer(true));
    assert!(matches!(console, Console::EnsureGateway));
    console = run(console, ConsoleEvent::Done);
    console = run(console, ConsoleEvent::Answer(true));
    assert!(matches!(console, Console::LoadModel));
    console = run(console, ConsoleEvent::Broken("gone".to_string()));
    match &console {
        Console::SetUp { notice } => {
            assert_eq!(notice.as_deref(), Some("Could not load previous model: gone"))
        }
        other => panic!("{other:?}"),
    }
    console = run(console, ConsoleEvent::Loaded("llama.cpp-linux".to_string()));
    match &console {
        Console::Chat { backend } => assert_eq!(backend, "llama.cpp-linux"),
        other => panic!("{other:?}"),
    }
    assert!(matches!(run(console, ConsoleEvent::Done), Console::Finished));
}

#[test]
fn a_server_takes_what_was_chosen() {
    let args = ServeArgs {
        backend: None,
        model: Some("old".to_string()),
        options: vec!["--port".to_string(), "9000".to_string()],
    };
    let mut start = run_server(ServerStart::CheckTerminal, ServerEvent::Answer(true), &args);
    start = run_server(start, ServerEvent::Chosen(Some("b".to_string())), &args);
    start = run_server(start, ServerEvent::Chosen(Some("m".to_string())), &args);
    match start {
        ServerStart::Serve(served) => {
            assert_eq!(served.backend.as_deref(), Some("b"));
            assert_eq!(served.model.as_deref(), Some("m"));
            assert_eq!(served.options, args.options);
        }
        other => panic!("{other:?}"),
    }
    match run_server(ServerStart::CheckTerminal, ServerEvent::Answer(false), &args) {
        ServerStart::Serve(served) => assert_eq!(served.model.as_deref(), Some("old")),
        other => panic!("{other:?}"),
    }
    match run_server(ServerStart::ChooseBackend, ServerEvent::Chosen(None), &args) {
        ServerStart::Failed(e) => assert_eq!(e.message, "No backend selected."),
        other => panic!("{other:?}"),
    }
    let choosing = ServerStart::ChooseModel { backend: "b".to_string() };
    match run_server(choosing, ServerEvent::Chosen(None), &args) {
        ServerStart::Failed(e) => assert_eq!(e.message, "No model selected."),
        other => panic!("{other:?}"),
    }
}

#[test]
fn an_owned_gateway_is_stopped_once() {
    let mut guard = GatewayGuard::ensure(9000, false);
    assert!(guard.take_stop());
    assert!(!guard.take_stop());
    let mut other = GatewayGuard::ensure(9000, true);
    assert!(!other.take_stop());
    assert_eq!(
        gateway_arguments(9000),
        vec!["gateway", "--host", "127.0.0.1", "--port", "9000"]
    );
}
