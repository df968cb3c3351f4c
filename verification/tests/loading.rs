use omniinfer::failure::Failure;
use omniinfer::json::Json;
use omniinfer::manager::load::{BackendSpec, LoadModelOutcome};
use omniinfer::manager::loading::{
    CudaSelection, LoadAsk, LoadEvent, ModelFiles, ModelLoad,
};
use omniinfer::manager::state::RustRuntimeManager;
use omniinfer::resources::domains::{DomainBytes, MemoryDomain};
use omniinfer::resources::estimate::GIB;
use omniinfer::runtime::process::{RuntimeProcess, RuntimeProcessError, RuntimeProcessInfo};

fn text(s: &str) -> Json {
    Json::Text(s.to_string())
}

fn object(fields: Vec<(&str, Json)>) -> Json {
    Json::Object(fields.into_iter().map(|(key, value)| (key.to_string(), value)).collect())
}

fn failure(message: &str) -> Failure {
    Failure { message: message.to_string() }
}

fn backend(capabilities: &[&str]) -> BackendSpec {
    BackendSpec {
        id: "llama.cpp-linux".to_string(),
        family: "llama.cpp".to_string(),
        runtime_dir: "/runtimes/llama".to_string(),
        launcher_path: Some("/runtimes/llama/bin/llama-server".to_string()),
        models_dir: Some("/models".to_string()),
        capabilities: capabilities.iter().map(|c| c.to_string()).collect(),
        default_args: vec!["--jinja".to_string()],
        runtime_mode: "external_server".to_string(),
        model_artifact: "file".to_string(),
        supports_mmproj: true,
        supports_ctx_size: true,
        external_server_protocol: None,
        log_file_name: "runtime.log".to_string(),
    }
}

fn ask(payload: Json) -> ModelLoad {
    ModelLoad::Look(LoadAsk {
        payload,
        host: "127.0.0.1".to_string(),
        owner_admin_id: Some("admin".to_string()),
        home: Some("/home/u".to_string()),
        default_ctx: 4096,
        unified: false,
    })
}

fn looked() -> LoadEvent {
    LoadEvent::Looked {
        shutting_down: false,
        polls: Vec::new(),
        recommended: Some("llama.cpp-linux".to_string()),
    }
}

fn launcher() -> LoadEvent {
    LoadEvent::Launcher { manifest: Err("none".to_string()), wsl: "wsl.exe".to_string() }
}

fn devices() -> LoadEvent {
    LoadEvent::Devices { selection: None, detected: Ok(Vec::new()) }
}

fn sizes() -> LoadEvent {
    LoadEvent::Sizes { weights: Ok(Some(GIB)), projector: Ok(None) }
}

fn free(bytes: u64) -> LoadEvent {
    let mut observed = DomainBytes::new();
    observed.set(&MemoryDomain::Host, bytes);
    LoadEvent::Machine(Ok(observed))
}

fn process() -> RuntimeProcess {
    RuntimeProcess {
        stop_command: None,
        stopped: false,
        info: RuntimeProcessInfo {
            pid: 77,
            port: 9000,
            command: vec!["server".to_string()],
            log_path: "/log".to_string(),
        },
    }
}

fn told(manager: &mut RustRuntimeManager, load: ModelLoad, events: Vec<LoadEvent>) -> ModelLoad {
    events.into_iter().fold(load, |load, event| manager.load_model(load, event))
}

fn request() -> Json {
    object(vec![("model", text("m.gguf")), ("backend_port", Json::Unsigned(9000))])
}

fn up_to_the_start(manager: &mut RustRuntimeManager) -> ModelLoad {
    told(
        manager,
        ask(request()),
        vec![
            looked(),
            LoadEvent::Backend(Some((backend(&[]), true))),
            LoadEvent::Place { present: true, is_dir: false },
            LoadEvent::Projector(None),
            LoadEvent::ArgumentsRead(None),
            launcher(),
            devices(),
            sizes(),
            free(1024 * GIB),
        ],
    )
}

fn message(load: ModelLoad) -> String {
    match load {
        ModelLoad::Failed(e) => e.message,
        _ => panic!("not failed"),
    }
}

fn reserved(manager: &RustRuntimeManager) -> u64 {
    manager
        .resource_ledger
        .as_ref()
        .map_or(0, |ledger| ledger.snapshot().reserved.amount_of(&MemoryDomain::Host))
}

#[test]
fn a_model_is_loaded_step_by_step() {
    let mut manager = RustRuntimeManager::default();
    let load = told(&mut manager, ask(request()), vec![looked()]);
    assert!(matches!(&load, ModelLoad::FindBackend { id, .. } if id == "llama.cpp-linux"));
    let load = manager.load_model(load, LoadEvent::Backend(Some((backend(&[]), true))));
    assert!(matches!(&load, ModelLoad::LookAtModel { path, .. } if path == "/models/m.gguf"));
    let load = manager.load_model(load, LoadEvent::Place { present: true, is_dir: false });
    assert!(matches!(&load, ModelLoad::FindProjector { .. }));
    let load = manager.load_model(load, LoadEvent::Projector(None));
    assert!(matches!(&load, ModelLoad::ReadArguments { args, .. } if *args == ["--jinja"]));
    let load = manager.load_model(load, LoadEvent::ArgumentsRead(None));
    assert!(matches!(&load, ModelLoad::ReadLauncher { port: 9000, .. }));
    let load = manager.load_model(load, launcher());
    match &load {
        ModelLoad::FindDevices(planned) => {
            assert_eq!(planned.log_path, "/runtimes/llama/logs/runtime-m.gguf.log");
            assert_eq!(planned.plan.ctx_size, Some(4096));
        }
        _ => panic!("no plan"),
    }
    let load = told(&mut manager, load, vec![devices(), sizes(), free(1024 * GIB)]);
    assert!(matches!(&load, ModelLoad::Start { .. }));
    assert!(reserved(&manager) > GIB);
    let load = manager.load_model(load, LoadEvent::Started(Ok(process())));
    assert!(matches!(&load, ModelLoad::Save { .. }));
    assert!(manager.loaded.is_empty());
    match manager.load_model(load, LoadEvent::Saved(Ok(()))) {
        ModelLoad::Answered(LoadModelOutcome::Success(answer)) => {
            assert_eq!(answer.get_flag("already_loaded"), Some(false));
            assert_eq!(answer.get_number("backend_pid"), Some(77));
            assert_eq!(answer.get_text("owner_admin_id").as_deref(), Some("admin"));
            assert_eq!(answer.get_number("generation"), Some(1));
        }
        _ => panic!("no answer"),
    }
    assert_eq!(reserved(&manager), 0);
    assert_eq!(manager.loaded.len(), 1);

    let again = told(
        &mut manager,
        ask(request()),
        vec![
            looked(),
            LoadEvent::Backend(Some((backend(&[]), true))),
            LoadEvent::Place { present: true, is_dir: false },
            LoadEvent::Projector(None),
            LoadEvent::ArgumentsRead(None),
            LoadEvent::Saved(Ok(())),
        ],
    );
    match again {
        ModelLoad::Answered(LoadModelOutcome::Success(answer)) => {
            assert_eq!(answer.get_flag("already_loaded"), Some(true));
        }
        _ => panic!("no answer"),
    }
    let other = told(
        &mut manager,
        ask(request()),
        vec![
            looked(),
            LoadEvent::Backend(Some((backend(&[]), true))),
            LoadEvent::Place { present: true, is_dir: false },
            LoadEvent::Projector(None),
            LoadEvent::ArgumentsRead(Some(8192)),
        ],
    );
    assert!(matches!(other, ModelLoad::Answered(LoadModelOutcome::ReloadRequired(_))));
}

#[test]
fn a_start_that_fails_gives_back() {
    let mut manager = RustRuntimeManager::default();
    let load = up_to_the_start(&mut manager);
    let failed =
        manager.load_model(load, LoadEvent::Started(Err(RuntimeProcessError::ReadyTimeout)));
    assert_eq!(message(failed), "runtime did not become ready in time");
    assert_eq!(reserved(&manager), 0);

    let load = up_to_the_start(&mut manager);
    let load = manager.load_model(load, LoadEvent::Started(Ok(process())));
    let load = manager.load_model(load, LoadEvent::Saved(Err(failure("disk full"))));
    assert!(matches!(&load, ModelLoad::EndProcess { started, .. } if started.pid == 77));
    assert_eq!(reserved(&manager), 0);
    let ended = manager.load_model(load, LoadEvent::Ended);
    assert_eq!(message(ended), "disk full");
    assert!(manager.loaded.is_empty());
}

#[test]
fn a_load_is_refused_with_a_reason() {
    let mut manager = RustRuntimeManager::default();
    let busy =
        LoadEvent::Looked { shutting_down: true, polls: Vec::new(), recommended: None };
    let load = manager.load_model(ask(request()), busy);
    assert_eq!(message(load), "gateway is shutting down");
    let load = manager.load_model(ask(object(vec![])), looked());
    assert_eq!(message(load), "field 'model' is required");
    let bare = LoadEvent::Looked { shutting_down: false, polls: Vec::new(), recommended: None };
    let load = manager.load_model(ask(request()), bare);
    assert_eq!(message(load), "no installed backend available");
    let found = |m: &mut RustRuntimeManager, found: Option<(BackendSpec, bool)>| {
        told(m, ask(request()), vec![looked(), LoadEvent::Backend(found)])
    };
    assert_eq!(message(found(&mut manager, None)), "unsupported backend: llama.cpp-linux");
    let mut embedded = backend(&[]);
    embedded.runtime_mode = "embedded".to_string();
    assert!(message(found(&mut manager, Some((embedded, true)))).contains("is an embedded backend"));
    assert_eq!(
        message(found(&mut manager, Some((backend(&[]), false)))),
        "backend launcher not found: /runtimes/llama/bin/llama-server"
    );
    let mut homeless = backend(&[]);
    homeless.models_dir = None;
    assert_eq!(
        message(found(&mut manager, Some((homeless, true)))),
        "relative model path requires a configured models_dir"
    );
    let load = found(&mut manager, Some((backend(&[]), true)));
    let load = manager.load_model(load, LoadEvent::Place { present: false, is_dir: false });
    assert_eq!(message(load), "model not found: /models/m.gguf");
    let load = told(
        &mut manager,
        ask(request()),
        vec![
            looked(),
            LoadEvent::Backend(Some((backend(&["cuda"]), true))),
            LoadEvent::Place { present: true, is_dir: false },
            LoadEvent::Projector(None),
            LoadEvent::ArgumentsRead(None),
            launcher(),
            LoadEvent::Devices { selection: None, detected: Err(failure("no devices")) },
        ],
    );
    assert_eq!(message(load), "no devices");
    assert!(manager.loaded.is_empty());
}

#[test]
fn a_directory_is_searched_for_the_model() {
    let mut manager = RustRuntimeManager::default();
    let payload = object(vec![("model", text("~/m")), ("mmproj", text("p.gguf"))]);
    let load = told(
        &mut manager,
        ask(payload),
        vec![
            looked(),
            LoadEvent::Backend(Some((backend(&[]), true))),
            LoadEvent::Place { present: true, is_dir: true },
        ],
    );
    assert!(matches!(&load, ModelLoad::SearchDirectory { path, .. } if path == "/home/u/m"));
    let load = manager.load_model(
        load,
        LoadEvent::Files(Ok(ModelFiles {
            model_path: "/home/u/m/a.gguf".to_string(),
            mmproj: Some("/home/u/m/mmproj.gguf".to_string()),
        })),
    );
    assert!(matches!(&load, ModelLoad::LookAtProjector { path, .. } if path == "/models/p.gguf"));
    let missing = LoadEvent::Place { present: false, is_dir: false };
    assert_eq!(
        message(manager.load_model(load, missing)),
        "mmproj file not found: /models/p.gguf"
    );
}

#[test]
fn an_answer_to_another_question_changes_nothing() {
    let mut manager = RustRuntimeManager::default();
    let load = manager.load_model(ask(request()), sizes());
    assert!(matches!(&load, ModelLoad::Look(_)));
    let load = manager.load_model(ModelLoad::Failed(failure("over")), looked());
    assert_eq!(message(load), "over");
}

#[test]
fn selected_devices_are_remembered() {
    let mut manager = RustRuntimeManager::default();
    let mut observed = DomainBytes::new();
    observed.set(&MemoryDomain::Cuda("1".to_string()), 1024 * GIB);
    let load = told(
        &mut manager,
        ask(object(vec![("model", text("/m.gguf"))])),
        vec![
            looked(),
            LoadEvent::Backend(Some((backend(&["cuda"]), true))),
            LoadEvent::Place { present: true, is_dir: false },
            LoadEvent::Projector(None),
            LoadEvent::ArgumentsRead(None),
            LoadEvent::Port(Ok(9000)),
            launcher(),
            LoadEvent::Devices {
                selection: Some(CudaSelection {
                    visible_devices: "1".to_string(),
                    warning: Some("busy".to_string()),
                }),
                detected: Ok(Vec::new()),
            },
            sizes(),
            LoadEvent::Machine(Ok(observed)),
            LoadEvent::Started(Ok(process())),
            LoadEvent::Saved(Ok(())),
        ],
    );
    match load {
        ModelLoad::Answered(LoadModelOutcome::Success(answer)) => {
            assert_eq!(answer.get_text("cuda_visible_devices").as_deref(), Some("1"));
            assert_eq!(answer.get_text("warning").as_deref(), Some("busy"));
        }
        _ => panic!("no answer"),
    }
}
