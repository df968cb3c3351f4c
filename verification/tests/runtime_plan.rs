use omniinfer::json::Json;
use omniinfer::runtime::plan::{
    build_external_runtime_plan, launcher_file_to_read, plan_in_dirs, translate_wsl_model_ref,
    valid_absolute_linux_path, validate_wsl_manifest, ExternalRuntimePlan, ExternalRuntimeRequest,
    ExternalServerProtocol, RuntimePlanError, RuntimeReadinessProbe, WslVllmLauncherManifest,
};

fn text(s: &str) -> Json {
    Json::Text(s.to_string())
}

fn list(items: &[&str]) -> Json {
    Json::Array(items.iter().map(|item| text(item)).collect())
}

fn object(fields: Vec<(&str, Json)>) -> Json {
    Json::Object(fields.into_iter().map(|(key, value)| (key.to_string(), value)).collect())
}

fn request(backend: Json, model: &str, port: u16, ctx_size: Option<u32>) -> ExternalRuntimeRequest {
    ExternalRuntimeRequest {
        backend,
        model_path: model.to_string(),
        mmproj_path: None,
        host: "127.0.0.1".to_string(),
        port,
        ctx_size,
        launch_args: None,
    }
}

fn build(request: &ExternalRuntimeRequest) -> Result<ExternalRuntimePlan, RuntimePlanError> {
    build_external_runtime_plan(request, &Err("no manifest".to_string()), "wsl.exe")
}

fn pair(command: &[String], a: &str, b: &str) -> bool {
    command.windows(2).any(|items| items == [a, b])
}

fn manifest() -> WslVllmLauncherManifest {
    WslVllmLauncherManifest {
        schema_version: 1,
        backend: "vllm-wsl2-cuda".to_string(),
        distribution: "Ubuntu-24.04".to_string(),
        linux_launcher: "/home/test/runtime/current/venv/bin/vllm".to_string(),
        linux_runner: "/home/test/runtime/current/bin/omniinfer-vllm-run".to_string(),
        linux_stopper: "/home/test/runtime/current/bin/omniinfer-vllm-stop".to_string(),
        linux_pid_dir: "/home/test/runtime/current/run".to_string(),
        automount_root: "/mnt".to_string(),
    }
}

#[test]
fn builds_llama_cpp_cuda_command() {
    let backend = object(vec![
        ("id", text("llama.cpp-linux-cuda")),
        ("launcher_path", text("/runtime/llama.cpp-linux-cuda/bin/llama-server")),
        ("runtime_dir", text("/runtime/llama.cpp-linux-cuda")),
        ("default_args", list(&["-ngl", "999"])),
        ("external_server_protocol", text("llama.cpp-server")),
        ("log_file_name", text("runtime.log")),
    ]);
    let mut wanted = request(backend, "/models/qwen.gguf", 12345, Some(8192));
    wanted.mmproj_path = Some("/models/mmproj.gguf".to_string());
    let plan = build(&wanted).unwrap();
    let log_dir = std::path::PathBuf::from("/runtime/llama.cpp-linux-cuda")
        .join("logs")
        .display()
        .to_string();
    assert_eq!(plan.ctx_size, Some(8192));
    assert_eq!(plan.cwd, "/runtime/llama.cpp-linux-cuda/bin");
    assert_eq!(
        plan.command,
        vec![
            "/runtime/llama.cpp-linux-cuda/bin/llama-server".to_string(),
            "-m".to_string(),
            "/models/qwen.gguf".to_string(),
            "--host".to_string(),
            "127.0.0.1".to_string(),
            "--port".to_string(),
            "12345".to_string(),
            "--no-webui".to_string(),
            "--slot-save-path".to_string(),
            log_dir,
            "-ngl".to_string(),
            "999".to_string(),
            "-c".to_string(),
            "8192".to_string(),
            "--mmproj".to_string(),
            "/models/mmproj.gguf".to_string()
        ]
    );
    assert_eq!(plan.log_file_name, "runtime.log");
    assert!(matches!(plan.readiness_probe, RuntimeReadinessProbe::HttpHealth));
}

#[test]
fn ik_uses_webui_none() {
    let backend = object(vec![
        ("id", text("ik_llama.cpp-linux-cuda")),
        ("launcher_path", text("/runtime/ik/bin/llama-server")),
        ("runtime_dir", text("/runtime/ik")),
        ("default_args", list(&["--jinja", "-ngl", "999"])),
        ("external_server_protocol", text("llama.cpp-server")),
    ]);
    let plan = build(&request(backend, "/models/qwen.gguf", 12345, None)).unwrap();
    assert!(pair(&plan.command, "--webui", "none"));
    assert!(!plan.command.iter().any(|item| item == "--no-webui"));
}

#[test]
fn vllm_uses_openai_server_shape() {
    let backend = object(vec![
        ("id", text("vllm-linux-cuda")),
        ("launcher_path", text("/runtime/vllm/bin/vllm")),
        ("runtime_dir", text("/runtime/vllm")),
        ("default_args", list(&["--max-model-len", "4096"])),
        ("external_server_protocol", text("vllm-openai-server")),
        ("log_file_name", text("vllm-server.log")),
    ]);
    let plan = build(&request(backend, "Qwen/Qwen3.5-4B", 23456, None)).unwrap();
    assert_eq!(plan.ctx_size, Some(4096));
    assert_eq!(plan.proxy_model_ref.as_deref(), Some("local"));
    assert_eq!(
        plan.command,
        vec![
            "/runtime/vllm/bin/vllm",
            "serve",
            "Qwen/Qwen3.5-4B",
            "--host",
            "127.0.0.1",
            "--port",
            "23456",
            "--served-model-name",
            "local",
            "--max-model-len",
            "4096"
        ]
    );
}

#[test]
fn wsl_vllm_uses_manifest_and_translates_windows_model_path() {
    let backend = object(vec![
        ("id", text("vllm-wsl2-cuda")),
        ("launcher_path", text("/runtime/vllm-wsl2.json")),
        ("runtime_dir", text("/runtime")),
        ("default_args", Json::Array(Vec::new())),
        ("external_server_protocol", text("vllm-wsl2-openai-server")),
        ("log_file_name", text("vllm-wsl2-server.log")),
    ]);
    assert_eq!(launcher_file_to_read(&backend).as_deref(), Some("/runtime/vllm-wsl2.json"));
    let wanted = request(backend, r"D:\models\Qwen 4B", 24567, Some(8192));
    let plan = build_external_runtime_plan(&wanted, &Ok(manifest()), "wsl.exe").unwrap();
    assert_eq!(plan.proxy_model_ref.as_deref(), Some("local"));
    assert!(plan.command.iter().any(|arg| arg == "/mnt/d/models/Qwen 4B"));
    assert!(pair(&plan.command, "--max-model-len", "8192"));
    assert_eq!(
        plan.stop_command.as_ref().unwrap().last().unwrap(),
        "/home/test/runtime/current/run/24567.pid"
    );
}

#[test]
fn wsl_vllm_rejects_unc_model_path() {
    let error = translate_wsl_model_ref(r"\\server\share\model", "/mnt").unwrap_err();
    assert_eq!(
        error,
        RuntimePlanError::UnsupportedWslModelPath(r"\\server\share\model".to_string())
    );
}

#[test]
fn wsl_vllm_keeps_huggingface_references_and_rejects_malformed_manifest() {
    assert_eq!(
        translate_wsl_model_ref("Qwen/Qwen2.5-7B-Instruct", "/mnt").unwrap(),
        "Qwen/Qwen2.5-7B-Instruct"
    );
    let manifest = WslVllmLauncherManifest {
        schema_version: 1,
        backend: "vllm-wsl2-cuda".to_string(),
        distribution: "Ubuntu-24.04".to_string(),
        linux_launcher: "/home/test/runtime/../other/vllm".to_string(),
        linux_runner: "/home/test/runtime/run".to_string(),
        linux_stopper: "/home/test/runtime/stop".to_string(),
        linux_pid_dir: "/home/test/runtime/pids".to_string(),
        automount_root: "/mnt".to_string(),
    };
    let error = validate_wsl_manifest("vllm-wsl2-cuda", "vllm-wsl2.json", &manifest).unwrap_err();
    assert!(matches!(error, RuntimePlanError::InvalidWslLauncherManifest { .. }));
}

#[test]
fn ctx_size_replaces_existing_flag() {
    let backend = object(vec![
        ("id", text("llama.cpp-linux-cuda")),
        ("launcher_path", text("/runtime/bin/llama-server")),
        ("runtime_dir", text("/runtime")),
        ("default_args", list(&["-ngl", "999", "--ctx-size", "2048"])),
        ("external_server_protocol", text("llama.cpp-server")),
    ]);
    let plan = build(&request(backend, "/models/qwen.gguf", 12345, Some(8192))).unwrap();
    assert_eq!(plan.ctx_size, Some(8192));
    assert!(pair(&plan.command, "-c", "8192"));
    assert!(!pair(&plan.command, "--ctx-size", "2048"));
}

#[test]
fn rejects_reserved_managed_args() {
    let backend = object(vec![
        ("id", text("llama.cpp-linux-cuda")),
        ("launcher_path", text("/runtime/bin/llama-server")),
        ("runtime_dir", text("/runtime")),
        ("default_args", list(&["--host", "0.0.0.0"])),
        ("external_server_protocol", text("llama.cpp-server")),
    ]);
    let error = build(&request(backend, "/models/qwen.gguf", 12345, None)).unwrap_err();
    assert_eq!(error, RuntimePlanError::ReservedLaunchArg("--host".to_string()));
    assert_eq!(
        error.message(),
        "launch arg \"--host\" is managed by OmniInfer and must not be set in backend config"
    );
}

#[test]
fn quotes_in_a_refused_argument_are_escaped() {
    let error = RuntimePlanError::ReservedLaunchArg("a\"b\n".to_string());
    assert!(error.message().starts_with("launch arg \"a\\\"b\\n\" is managed"));
}

#[test]
fn every_refusal_names_its_cause() {
    let none = build(&request(object(vec![]), "/m.gguf", 1, None)).unwrap_err();
    assert!(matches!(none, RuntimePlanError::MissingBackendField(_)));

    let no_launcher = object(vec![
        ("id", text("llama.cpp-linux")),
        ("runtime_dir", text("/runtime")),
        ("external_server_protocol", text("llama.cpp-server")),
    ]);
    let error = build(&request(no_launcher, "/m.gguf", 1, None)).unwrap_err();
    assert_eq!(error, RuntimePlanError::MissingLauncher("llama.cpp-linux".to_string()));

    let strange = object(vec![
        ("id", text("other")),
        ("launcher_path", text("/runtime/bin/server")),
        ("runtime_dir", text("/runtime")),
        ("external_server_protocol", text("smoke-signals")),
    ]);
    let error = build(&request(strange, "/m.gguf", 1, None)).unwrap_err();
    assert_eq!(
        error.message(),
        "unsupported external runtime protocol for other: smoke-signals"
    );

    let fine = || {
        object(vec![
            ("id", text("llama.cpp-linux")),
            ("launcher_path", text("/runtime/bin/llama-server")),
            ("runtime_dir", text("/runtime")),
            ("external_server_protocol", text("llama.cpp-server")),
        ])
    };
    assert_eq!(
        build(&request(fine(), "/m.gguf", 0, None)).unwrap_err(),
        RuntimePlanError::InvalidPort
    );

    let wsl = object(vec![
        ("id", text("vllm-wsl2-cuda")),
        ("launcher_path", text("/runtime/vllm-wsl2.json")),
        ("runtime_dir", text("/runtime")),
        ("external_server_protocol", text("vllm-wsl2-openai-server")),
    ]);
    let error = build(&request(wsl, "C:\\m", 9, None)).unwrap_err();
    assert!(matches!(error, RuntimePlanError::InvalidWslLauncherManifest { .. }));
    assert!(error.message().contains("no manifest"));
}

#[test]
fn the_directories_are_taken_as_they_are_given() {
    let backend = object(vec![
        ("id", text("llama.cpp-linux")),
        ("launcher_path", text("/runtime/bin/llama-server")),
        ("runtime_dir", text("/runtime")),
        ("external_server_protocol", text("llama.cpp-server")),
    ]);
    let plan = plan_in_dirs(
        &request(backend, "/m.gguf", 9, None),
        &Err(String::new()),
        "wsl.exe",
        Some("/somewhere".to_string()),
        "/elsewhere/logs",
    )
    .unwrap();
    assert_eq!(plan.cwd, "/somewhere");
    assert!(pair(&plan.command, "--slot-save-path", "/elsewhere/logs"));
    assert_eq!(plan.protocol, ExternalServerProtocol::LlamaCppServer);
    assert_eq!(plan.protocol.as_str(), "llama.cpp-server");
}

#[test]
fn linux_paths_are_absolute_and_do_not_step_upwards() {
    assert!(valid_absolute_linux_path("/home/test/runtime"));
    assert!(!valid_absolute_linux_path("home/test"));
    assert!(!valid_absolute_linux_path("/home/../etc"));
    assert!(!valid_absolute_linux_path("/home/\u{7f}"));
    assert!(valid_absolute_linux_path("/home/..x"));
}

#[test]
fn drives_appear_under_the_automount_root() {
    assert_eq!(translate_wsl_model_ref("C:/m/a.gguf", "/").unwrap(), "/c/m/a.gguf");
    assert_eq!(translate_wsl_model_ref("/mnt/d/a", "/mnt").unwrap(), "/mnt/d/a");
}
