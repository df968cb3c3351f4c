use omniinfer::failure::Failure;
use omniinfer::json::{same_json, Json};
use omniinfer::manager::admission::{
    speculative_admission_payload, speculative_reservation, SpeculativeAdmission,
    SpeculativeReservation,
};
use omniinfer::manager::load::{
    expand_home, locate, model_log_file_name, new_runtime, path_for_backend, read_load_request,
    resolve_model_for_backend, LoadModelOutcome, ModelStep,
};
use omniinfer::manager::loaded::{LoadedRustRuntime, RuntimeRouteState};
use omniinfer::manager::reports::{LocalState, RequestedRuntimeConfig};
use omniinfer::manager::state::{ProcessPoll, RustRuntimeManager};
use omniinfer::paths::is_vla_checkpoint_path;
use omniinfer::resources::budget::{BudgetComponent, ResourceBudget};
use omniinfer::resources::domains::{DomainBytes, MemoryDomain};
use omniinfer::resources::estimate::GIB;
use omniinfer::resources::ledger::{ResourceCapacity, ResourceLedger, ResourceLedgerSnapshot};
use omniinfer::runtime::plan::{
    ExternalRuntimePlan, ExternalServerProtocol, RuntimeReadinessProbe,
};
use omniinfer::runtime::process::{RuntimeProcess, RuntimeProcessError, RuntimeProcessInfo};

const SPECULATIVE_ALLOCATOR_SLACK_LIMIT: u64 = 512 * 1024 * 1024;

fn cuda(id: &str) -> MemoryDomain {
    MemoryDomain::Cuda(id.to_string())
}

fn amounts(entries: &[(MemoryDomain, u64)]) -> DomainBytes {
    let mut bytes = DomainBytes::new();
    for (domain, amount) in entries {
        if *amount > 0 {
            bytes.set(domain, *amount);
        }
    }
    bytes
}

fn budget(parts: Vec<(&str, MemoryDomain, u64)>) -> ResourceBudget {
    ResourceBudget::from_components(
        parts
            .into_iter()
            .map(|(name, domain, bytes)| BudgetComponent { name: name.to_string(), domain, bytes })
            .collect(),
    )
    .unwrap()
}

fn object(fields: Vec<(&str, Json)>) -> Json {
    Json::Object(fields.into_iter().map(|(key, value)| (key.to_string(), value)).collect())
}

fn text(s: &str) -> Json {
    Json::Text(s.to_string())
}

fn speculative_budget(estimated: u64, slack: u64) -> ResourceBudget {
    budget(vec![
        ("model", cuda("0"), estimated - slack),
        ("allocator_slack", cuda("0"), slack),
    ])
}

fn speculative_snapshot(capacity: u64, reserved: u64, committed: u64) -> ResourceLedgerSnapshot {
    ResourceLedgerSnapshot {
        capacity_snapshot_id: 1,
        capacities: amounts(&[(cuda("0"), capacity)]),
        reserved: amounts(&[(cuda("0"), reserved)]),
        committed: amounts(&[(cuda("0"), committed)]),
    }
}

fn decide(
    id: &str,
    family: &str,
    is_cuda: bool,
    payload: &Json,
    budget: &ResourceBudget,
    replicate: bool,
    snapshot: ResourceLedgerSnapshot,
) -> Option<SpeculativeReservation> {
    let capabilities = if is_cuda { vec!["cuda".to_string()] } else { Vec::new() };
    speculative_reservation(
        id,
        family,
        &capabilities,
        payload,
        budget,
        replicate,
        &Some(snapshot),
        SPECULATIVE_ALLOCATOR_SLACK_LIMIT,
    )
}

fn rolls_back() {
    let mut manager = RustRuntimeManager {
        resource_ledger: Some(ResourceLedger::new(ResourceCapacity::new(
            1,
            amounts(&[(MemoryDomain::Host, 1024)]),
        ))),
        ..Default::default()
    };
    let reservation = manager
        .resource_ledger
        .as_mut()
        .unwrap()
        .reserve("failed-load", &budget(vec![("total", MemoryDomain::Host, 768)]))
        .unwrap();
    let result: Result<(), Failure> = manager.with_reservation(
        reservation,
        Err(Failure { message: "simulated readiness timeout".to_string() }),
    );
    assert!(result.is_err());
    let snapshot = manager.resource_ledger.as_ref().unwrap().snapshot();
    assert!(snapshot.reserved.is_empty());
    assert!(snapshot.committed.is_empty());
}

fn vla_extensions() {
    assert!(is_vla_checkpoint_path("model.gguf"));
    assert!(is_vla_checkpoint_path("model.SAFETENSORS"));
    assert!(!is_vla_checkpoint_path("model.bin"));
    assert!(!is_vla_checkpoint_path("model"));
}

#[test]
fn runtime_manager_failed_load_transaction_rolls_back_reservation() {
    rolls_back();
}

#[test]
fn tests_failed_load_transaction_rolls_back_reservation() {
    rolls_back();
}

#[test]
fn runtime_manager_recognizes_only_supported_vla_checkpoint_extensions() {
    vla_extensions();
}

#[test]
fn tests_recognizes_only_supported_vla_checkpoint_extensions() {
    vla_extensions();
}

#[test]
fn speculative_cuda_admission_enforces_narrow_boundaries() {
    let id = "llama.cpp-linux-cuda";
    let family = "llama.cpp";
    let wanted = speculative_budget(1_000, 100);
    let accepted = [object(vec![]), object(vec![("mmproj", text("/projector.gguf"))])];
    for payload in accepted {
        let decision =
            decide(id, family, true, &payload, &wanted, false, speculative_snapshot(900, 0, 0))
                .unwrap();
        assert_eq!(decision.available, 900);
        assert_eq!(decision.shortfall, 100);
        assert_eq!(decision.waived_slack, decision.shortfall);
        assert_eq!(decision.budget.domains().get(&cuda("0")), Some(900));
    }

    let less_than_slack = decide(
        id,
        family,
        true,
        &object(vec![]),
        &wanted,
        false,
        speculative_snapshot(950, 0, 0),
    )
    .unwrap();
    assert_eq!(less_than_slack.shortfall, 50);
    assert_eq!(less_than_slack.waived_slack, 50);

    for (available, payload, replicate) in [
        (899, object(vec![]), false),
        (1_000 - 100 - 1, object(vec![]), false),
        (900, object(vec![("resource_budget_bytes", Json::Unsigned(1))]), false),
        (900, object(vec![]), true),
    ] {
        assert!(decide(
            id,
            family,
            true,
            &payload,
            &wanted,
            replicate,
            speculative_snapshot(available, 0, 0)
        )
        .is_none());
    }

    let oversized_slack = speculative_budget(
        3 * SPECULATIVE_ALLOCATOR_SLACK_LIMIT,
        2 * SPECULATIVE_ALLOCATOR_SLACK_LIMIT,
    );
    assert!(decide(
        id,
        family,
        true,
        &object(vec![]),
        &oversized_slack,
        false,
        speculative_snapshot(2 * SPECULATIVE_ALLOCATOR_SLACK_LIMIT - 1, 0, 0)
    )
    .is_none());

    for (is_cuda, id, family, reserved, committed) in [
        (false, "llama.cpp-linux-cuda", "llama.cpp", 0, 0),
        (true, "other-cuda", "other", 0, 0),
        (true, "llama.cpp-linux-cuda", "llama.cpp", 1, 0),
        (true, "llama.cpp-linux-cuda", "llama.cpp", 0, 1),
    ] {
        assert!(decide(
            id,
            family,
            is_cuda,
            &object(vec![]),
            &wanted,
            false,
            speculative_snapshot(900, reserved, committed)
        )
        .is_none());
    }

    let multi = budget(vec![("model", cuda("0"), 900), ("model", cuda("1"), 900)]);
    assert!(decide(
        id,
        family,
        true,
        &object(vec![]),
        &multi,
        false,
        speculative_snapshot(900, 0, 0)
    )
    .is_none());
}

#[test]
fn speculative_reservation_is_exclusive_and_rolls_back() {
    let estimated = 1_000;
    let available = 900;
    let wanted = speculative_budget(estimated, 100);
    let decision = decide(
        "llama.cpp-linux-cuda",
        "llama.cpp",
        true,
        &object(vec![]),
        &wanted,
        false,
        speculative_snapshot(available, 0, 0),
    )
    .unwrap();
    let mut ledger =
        ResourceLedger::new(ResourceCapacity::new(1, amounts(&[(cuda("0"), available)])));
    let reservation = ledger.reserve("speculative", &decision.budget).unwrap();
    assert!(ledger.reserve("second", &decision.budget).is_err());
    assert!(ledger.rollback(reservation));
    assert!(ledger.reserve("second", &decision.budget).is_ok());
}

fn admission(shortfall: u64) -> SpeculativeAdmission {
    SpeculativeAdmission {
        device: "0".to_string(),
        estimated: 1_000,
        exclusive: 900,
        shortfall,
        waived_allocator_slack: shortfall,
    }
}

#[test]
fn speculative_admission_payload_is_deterministic_and_separate_from_cuda_warning() {
    assert!(same_json(&speculative_admission_payload(&None), &Json::Null));
    let payload = speculative_admission_payload(&Some(admission(100)));
    for (key, value) in [
        ("speculative", Json::Bool(true)),
        ("device", text("0")),
        ("estimated_cuda_bytes", Json::Unsigned(1_000)),
        ("exclusive_reservation_bytes", Json::Unsigned(900)),
        ("shortfall_bytes", Json::Unsigned(100)),
        ("waived_allocator_slack_bytes", Json::Unsigned(100)),
    ] {
        assert!(same_json(payload.get(key).unwrap(), &value), "{key}");
    }
    match &payload {
        Json::Object(fields) => assert_eq!(fields.len(), 6),
        other => panic!("{other:?}"),
    }
    let smaller = speculative_admission_payload(&Some(admission(37)));
    assert_eq!(smaller.get_number("waived_allocator_slack_bytes"), Some(37));
}

#[test]
fn speculative_domain_exclusivity_survives_refresh_and_releases_by_owner() {
    let observed = amounts(&[(cuda("0"), 1024 * GIB), (cuda("1"), 1024 * GIB)]);
    let mut ledger = ResourceLedger::new(ResourceCapacity::new(1, observed.copy()));
    let owner_reservation =
        ledger.reserve("speculative-owner", &budget(vec![("owner", cuda("0"), 1)])).unwrap();
    let owner_allocation = ledger.commit(owner_reservation).unwrap();
    let mut manager = RustRuntimeManager {
        resource_ledger: Some(ledger),
        speculative_domains: vec![(cuda("0"), owner_allocation)],
        next_capacity_snapshot: 2,
        ..Default::default()
    };
    let cuda0 = budget(vec![("follow_on", cuda("0"), 1)]);
    let error = manager.reserve_runtime_resources("same-device", &cuda0, &observed).unwrap_err();
    assert!(
        error.message.contains("exclusively held by a speculative runtime"),
        "{}",
        error.message
    );
    let wrong_reservation = manager
        .resource_ledger
        .as_mut()
        .unwrap()
        .reserve("reused-old-key", &budget(vec![("other", cuda("1"), 1)]))
        .unwrap();
    let wrong_allocation =
        manager.resource_ledger.as_mut().unwrap().commit(wrong_reservation).unwrap();
    manager.clear_speculative_owner(wrong_allocation);
    assert!(manager.holds_exclusively(&cuda("0")));
    manager.resource_ledger.as_mut().unwrap().release(wrong_allocation);

    let cuda1 = budget(vec![("other-device", cuda("1"), 1)]);
    let other_reservation =
        manager.reserve_runtime_resources("other-device", &cuda1, &observed).unwrap();
    manager.resource_ledger.as_mut().unwrap().rollback(other_reservation);

    manager.clear_speculative_owner(owner_allocation);
    let released_reservation =
        manager.reserve_runtime_resources("after-release", &cuda0, &observed).unwrap();
    assert!(manager.resource_ledger.as_mut().unwrap().rollback(released_reservation));
}

fn plan() -> ExternalRuntimePlan {
    ExternalRuntimePlan {
        command: vec!["server".to_string()],
        stop_command: None,
        cwd: "/".to_string(),
        port: 9000,
        ctx_size: Some(4096),
        log_file_name: "runtime.log".to_string(),
        proxy_model_ref: None,
        protocol: ExternalServerProtocol::LlamaCppServer,
        client_endpoint: "http://127.0.0.1:9000".to_string(),
        readiness_probe: RuntimeReadinessProbe::HttpHealth,
    }
}

fn process() -> RuntimeProcess {
    RuntimeProcess {
        stop_command: None,
        stopped: false,
        info: RuntimeProcessInfo {
            pid: 77,
            port: 9000,
            command: vec!["server".to_string()],
            log_path: "/log".to_string(),
        },
    }
}

fn config(key: &str, ctx_size: u32) -> RequestedRuntimeConfig {
    RequestedRuntimeConfig {
        backend_id: "llama.cpp-linux".to_string(),
        model_key: key.to_string(),
        model_path: format!("/models/{key}"),
        public_model_id: None,
        mmproj: None,
        ctx_size: Some(ctx_size),
        launch_args: Vec::new(),
    }
}

fn runtime(c: &RequestedRuntimeConfig, bytes: u64) -> LoadedRustRuntime {
    new_runtime(
        c,
        &None,
        &plan(),
        process(),
        &None,
        &None,
        budget(vec![("weights", MemoryDomain::Host, bytes)]),
    )
}

fn loaded_manager() -> RustRuntimeManager {
    let observed = amounts(&[(MemoryDomain::Host, 1000)]);
    let mut manager = RustRuntimeManager::default();
    for (key, bytes) in [("b.gguf", 300), ("a.gguf", 200)] {
        let wanted = config(key, 4096);
        assert!(manager.answer_if_loaded(&wanted).is_none());
        let id = manager
            .reserve_runtime_resources(
                key,
                &budget(vec![("weights", MemoryDomain::Host, bytes)]),
                &observed,
            )
            .unwrap();
        manager.finish_load(id, Ok(runtime(&wanted, bytes))).unwrap();
    }
    manager
}

#[test]
fn a_loaded_model_gets_its_requests() {
    let mut manager = loaded_manager();
    let polls = vec![ProcessPoll::Running, ProcessPoll::Running];
    let target =
        manager.proxy_target_for_model(&polls, &Some("a.gguf".to_string())).unwrap();
    assert_eq!(target.backend_id, "llama.cpp-linux");
    assert!(manager.proxy_target_for_model(&polls, &Some("c.gguf".to_string())).is_none());
    assert!(manager.proxy_base_for_model(&polls, &None).is_some());
    let keys: Vec<String> = manager.loaded.iter().map(|r| r.model_key.clone()).collect();
    assert_eq!(keys, vec!["a.gguf", "b.gguf"]);
}

#[test]
fn a_failed_start_gives_its_memory_back() {
    let mut manager = loaded_manager();
    let observed = amounts(&[(MemoryDomain::Host, 1000)]);
    let wanted = budget(vec![("weights", MemoryDomain::Host, 100)]);
    let before = manager.resource_ledger.as_ref().unwrap().snapshot();
    let id = manager.reserve_runtime_resources("c", &wanted, &observed).unwrap();
    let failed = manager.finish_load(id, Err(Failure { message: "no".to_string() }));
    assert_eq!(failed.unwrap_err().message, "no");
    let after = manager.resource_ledger.as_ref().unwrap().snapshot();
    assert!(after.reserved.is_empty());
    assert_eq!(
        before.committed.get(&MemoryDomain::Host),
        after.committed.get(&MemoryDomain::Host)
    );
    assert_eq!(manager.loaded.len(), 2);
}

#[test]
fn a_model_that_is_loaded_otherwise_needs_a_reload() {
    let mut manager = loaded_manager();
    match manager.answer_if_loaded(&config("a.gguf", 4096)) {
        Some(LoadModelOutcome::Success(json)) => {
            assert_eq!(json.get_flag("already_loaded"), Some(true))
        }
        other => panic!("{other:?}"),
    }
    assert!(matches!(
        manager.answer_if_loaded(&config("a.gguf", 8192)),
        Some(LoadModelOutcome::ReloadRequired(_))
    ));
    assert_eq!(manager.loaded.len(), 2);
}

#[test]
fn an_exited_runtime_is_removed_and_its_memory_released() {
    let mut manager = loaded_manager();
    manager.reap_exited_runtimes(&vec![ProcessPoll::Exited, ProcessPoll::Running]);
    assert_eq!(manager.loaded.len(), 1);
    assert_eq!(manager.loaded[0].model_key, "b.gguf");
    let snapshot = manager.resource_ledger.as_ref().unwrap().snapshot();
    assert_eq!(snapshot.committed.get(&MemoryDomain::Host), Some(300));
    assert_eq!(manager.default_model_key.as_deref(), Some("b.gguf"));
}

#[test]
fn a_runtime_that_does_not_stop_keeps_what_it_holds() {
    let mut manager = loaded_manager();
    let key = manager.begin_unload("a.gguf", &None).unwrap();
    assert_eq!(manager.loaded[0].route_state, RuntimeRouteState::Draining);
    let polls = vec![ProcessPoll::Running, ProcessPoll::Running];
    assert!(manager.proxy_target_for_model(&polls, &Some("a.gguf".to_string())).is_none());
    let result =
        manager.unload_model(&key, Err(RuntimeProcessError::StopHook("stuck".to_string())));
    assert!(result.unwrap().is_err());
    assert_eq!(manager.loaded.len(), 2);
    assert_eq!(manager.loaded[0].route_state, RuntimeRouteState::Failed);
    let snapshot = manager.resource_ledger.as_ref().unwrap().snapshot();
    assert_eq!(snapshot.committed.get(&MemoryDomain::Host), Some(500));

    let key = manager.begin_unload("b.gguf", &None).unwrap();
    assert!(manager.unload_model(&key, Ok(())).unwrap().is_ok());
    assert_eq!(manager.loaded.len(), 1);
    assert!(manager.begin_unload("nothing", &None).is_err());
}

#[test]
fn stopping_takes_all_runtimes() {
    let mut manager = loaded_manager();
    let failed = manager.stop_runtime(&vec![None, Some("stuck".to_string())], false);
    assert!(failed.is_err());
    assert_eq!(manager.loaded.len(), 1);
    assert!(manager.stop_runtime(&vec![None], true).is_ok());
    assert!(manager.loaded.is_empty());
    assert!(!manager.has_ready_runtime());
}

#[test]
fn the_state_lists_what_is_loaded() {
    let mut manager = loaded_manager();
    let polls = vec![ProcessPoll::Running, ProcessPoll::Running];
    let saved = LocalState { selected_backend: None, selected_model: None };
    let state = manager.snapshot(&polls, &saved);
    assert_eq!(state.get_flag("backend_ready"), Some(true));
    let summaries = manager.loaded_runtime_summaries(&polls);
    assert_eq!(summaries.len(), 2);
    assert_eq!(summaries[0].backend_pid, 77);
}

#[test]
fn requests_to_load_are_read() {
    let request = read_load_request(&object(vec![
        ("model", text("/m.gguf")),
        ("ctx_size", Json::Unsigned(2048)),
        ("launch_args", Json::Array(vec![text("--jinja")])),
    ]))
    .unwrap();
    assert_eq!(request.model, "/m.gguf");
    assert_eq!(request.ctx_size, Some(2048));
    assert_eq!(request.launch_args, Some(vec!["--jinja".to_string()]));
    assert!(read_load_request(&object(vec![])).is_err());
}

#[test]
fn small_decisions_about_a_load() {
    let some = |s: &str| Some(s.to_string());
    assert_eq!(expand_home("~/models/x", &some("/home/u")), "/home/u/models/x");
    assert_eq!(expand_home("/models/x", &some("/home/u")), "/models/x");
    assert_eq!(model_log_file_name("runtime.log", "org/model:1"), "runtime-org_model_1.log");
    assert_eq!(model_log_file_name("runtime", "m"), "runtime-m.log");
    assert_eq!(model_log_file_name(".log", "m"), ".log-m.log");
    assert_eq!(
        resolve_model_for_backend("/m/model.gguf", "file", false).unwrap(),
        ModelStep::UsePath
    );
    assert_eq!(
        resolve_model_for_backend("/m", "file", true).unwrap(),
        ModelStep::SearchDirectory
    );
}

#[test]
fn checkpoints_are_known_on_full_paths() {
    assert!(is_vla_checkpoint_path("/models/vla.d/smolvla.gguf"));
    assert!(is_vla_checkpoint_path("C:\\models\\smolvla.SafeTensors"));
    assert!(!is_vla_checkpoint_path("/models/smolvla.gguf/config"));
    assert!(!is_vla_checkpoint_path("/models/.gguf"));
    assert!(matches!(
        resolve_model_for_backend("/models/smolvla.gguf", "vla-artifact", false),
        Ok(ModelStep::UsePath)
    ));
    assert_eq!(
        resolve_model_for_backend("/models/smolvla.bin", "vla-artifact", false)
            .unwrap_err()
            .message,
        "vla.cpp model must be a .gguf or .safetensors checkpoint: /models/smolvla.bin"
    );
}

#[test]
fn relative_models_lie_in_the_directory_of_models() {
    let models = Some("/models".to_string());
    let join = |a: &str, b: &str| std::path::Path::new(a).join(b).display().to_string();
    assert_eq!(
        path_for_backend(" qwen.gguf ", &None, &models, "model").unwrap(),
        join("/models", "qwen.gguf")
    );
    assert_eq!(
        path_for_backend("/other/qwen.gguf", &None, &models, "model").unwrap(),
        "/other/qwen.gguf"
    );
    assert_eq!(
        path_for_backend("qwen.gguf", &None, &None, "mmproj").unwrap_err().message,
        "relative mmproj path requires a configured models_dir"
    );
    assert_eq!(
        path_for_backend("~/qwen.gguf", &Some("/home/u".to_string()), &models, "model").unwrap(),
        join("/home/u", "qwen.gguf")
    );
    assert_eq!(locate("/a".to_string(), true, None, "model").unwrap(), "/a");
    assert_eq!(locate("a".to_string(), false, Some("/m/a".to_string()), "model").unwrap(), "/m/a");
}
