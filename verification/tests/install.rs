use omniinfer::failure::Failure;
use omniinfer::json::{same_json, Json};
use omniinfer::runtime::plan::validate_wsl_manifest;
use omniinfer::wsl::catalog::{
    PinnedAsset, PythonRuntimeEntry, PythonRuntimeVariant, RocmPackageAsset, RocmSystemRuntime,
};
use omniinfer::wsl::commands::CommandInput;
use omniinfer::wsl::detection::WslContext;
use omniinfer::wsl::install::{
    discard_arguments, file_commands, install_kind, plan_install, stage_command, stage_files, InstallDecision,
    InstallKind, InstallPlan, InstallStage, Installation, WslFile,
};
use omniinfer::wsl::manifest::{
    key_from_digest, launcher_manifest, launcher_manifest_matches, launcher_payload, linux_base,
    planner_manifest, read_launcher_manifest, runtime_key, LauncherManifest,
};
use omniinfer::wsl::output::CommandOutput;
use omniinfer::wsl::packages::{
    apt_cache_path, curl_command, curl_failure, installed_version, package_need, package_query,
    package_requirements, package_source, plan_downloads, progress_due,
    query_installed_package_versions, required_names, sha256_text, validate_rocm_system_versions,
    FileFacts, PackageEvent, PackageNeed, PackagePhase, PackageSource, PROGRESS_STEP,
};
use omniinfer::wsl::preflight::Preflight;
use omniinfer::wsl::reports::{
    checksum_failed, compatibility_selected, download_progress, download_started, install_completed,
    managed_manifest, overview_lines, package_checksum_verified, planned_assets,
    system_runtime_verified, InstallSubject, PackageOrigin, PackagePlace,
};
use omniinfer::wsl::system::{
    configuration_steps, installation_steps, population_steps, SystemPhase, SystemStep,
};

fn pinned(name: &str, version: &str) -> PinnedAsset {
    PinnedAsset {
        url: format!("https://example.com/{name}"),
        sha256: format!("{name}-sum"),
        version: version.to_string(),
    }
}

fn package(name: &str) -> RocmPackageAsset {
    RocmPackageAsset {
        name: name.to_string(),
        version: "7.0".to_string(),
        filename: format!("{name}_7.0.deb"),
        url: format!("https://example.com/{name}.deb"),
        sha256: "AB".to_string(),
        size: 10,
    }
}

fn system() -> RocmSystemRuntime {
    RocmSystemRuntime {
        repository_key: pinned("key", "7.0"),
        rocdxg: pinned("rocdxg", "1.2"),
        apt_repository: "https://repo.example.com noble main".to_string(),
        packages: vec![
            ("hip".to_string(), "7.0".to_string()),
            ("rocm".to_string(), "7.1".to_string()),
        ],
        package_assets: vec![package("hip"), package("rocm")],
        minimum_windows_release: "26.1".to_string(),
        required_gfx: vec!["gfx1151".to_string()],
    }
}

fn variant(accelerator: &str) -> PythonRuntimeVariant {
    PythonRuntimeVariant {
        version: "0.1+cu".to_string(),
        reported_version: "0.1".to_string(),
        url: "https://example.com/vllm.whl".to_string(),
        sha256: "wheel-sum".to_string(),
        accelerator: accelerator.to_string(),
        runtime_version: "12.9".to_string(),
        reported_runtime_version: "12.9".to_string(),
        torch_backend: Some("cu129".to_string()),
        minimum_driver: Some("576.02".to_string()),
        build_commit: None,
        index_url: None,
        rocm_system: if accelerator == "rocm" { Some(system()) } else { None },
    }
}

fn entry() -> PythonRuntimeEntry {
    PythonRuntimeEntry {
        source: "vllm".to_string(),
        tag: "v0.1".to_string(),
        python: "3.12".to_string(),
        launcher: "vllm".to_string(),
        uv: Vec::new(),
        variants: Vec::new(),
    }
}

fn context() -> WslContext {
    WslContext {
        distribution: "Ubuntu".to_string(),
        home: "/home/me/".to_string(),
        automount_root: "/mnt".to_string(),
    }
}

fn plan(accelerator: &str) -> InstallPlan {
    plan_install(
        "vllm-wsl2-cuda",
        "/base",
        &entry(),
        &pinned("uv", "0.9"),
        &variant(accelerator),
        "cu129",
        "77",
    )
}

fn subject() -> InstallSubject {
    InstallSubject {
        backend: "vllm-wsl2-cuda".to_string(),
        distribution: "Ubuntu".to_string(),
        runtime_dir: "C:\\runtime".to_string(),
        linux_runtime: "/base/current".to_string(),
        launcher: "C:\\runtime\\bin\\vllm-wsl2.json".to_string(),
        driver: Some("581.57".to_string()),
        torch_backend: "cu129".to_string(),
    }
}

fn output(success: bool, code: i32, stdout: &str) -> CommandOutput {
    CommandOutput {
        success,
        code: Some(code),
        status: format!("exit code: {code}"),
        stdout: stdout.as_bytes().to_vec(),
        stderr: b"trouble".to_vec(),
    }
}

fn failed(reason: &str) -> Result<(), Failure> {
    Err(Failure { message: reason.to_string() })
}

#[test]
fn a_dry_run_is_no_installation() {
    let first = InstallDecision::CheckManifest;
    assert_eq!(first.step(false, true), InstallDecision::DryRun);
    assert_eq!(first.step(false, false), InstallDecision::Install);
    let checked = first.step(true, false).step(true, false).step(true, false);
    assert_eq!(checked, InstallDecision::AlreadyInstalled);
    assert_eq!(first.step(true, true).step(false, true), InstallDecision::DryRun);
}

#[test]
fn an_installation_goes_through_its_stages() {
    for rocm in [false, true] {
        let mut installation = Installation::new(InstallKind { system: rocm, rocm });
        let mut stages = Vec::new();
        while installation.stage != InstallStage::Finished {
            stages.push(installation.stage);
            installation.step(Ok(()));
        }
        assert_eq!(stages[0], InstallStage::MakeRuntimeDirectory);
        assert_eq!(stages.contains(&InstallStage::PrepareSystem), rocm);
        assert_eq!(stages.contains(&InstallStage::WritePlugin), rocm);
        let at = |stage: InstallStage| stages.iter().position(|s| *s == stage).unwrap();
        assert!(at(InstallStage::ValidateStaging) < at(InstallStage::Activate));
        assert!(at(InstallStage::ValidateCurrent) < at(InstallStage::WriteLauncher));
        assert_eq!(stages.last(), Some(&InstallStage::RemoveBackup));
        assert!(installation.error.is_none());
    }
}

fn installation_at(stage: InstallStage) -> Installation {
    let mut installation = Installation::new(InstallKind { system: false, rocm: false });
    while installation.stage != stage {
        installation.step(Ok(()));
    }
    installation
}

#[test]
fn a_failed_stage_removes_what_was_staged() {
    let mut early = Installation::new(InstallKind { system: false, rocm: false });
    early.step(failed("no space"));
    assert_eq!(early.stage, InstallStage::Failed);
    assert_eq!(early.error.unwrap().message, "no space");

    let mut staged = installation_at(InstallStage::InstallWheel);
    staged.step(failed("no wheel"));
    assert_eq!(staged.stage, InstallStage::RemoveStaging);
    staged.step(failed("cannot remove"));
    assert_eq!(staged.stage, InstallStage::Failed);
    assert_eq!(staged.error.unwrap().message, "no wheel");
}

#[test]
fn a_runtime_that_does_not_work_is_rolled_back() {
    let mut installation = installation_at(InstallStage::ValidateCurrent);
    installation.step(failed("no GPU"));
    assert_eq!(installation.stage, InstallStage::RollBack);
    installation.step(Ok(()));
    assert_eq!(installation.stage, InstallStage::RemoveStaging);
    installation.step(Ok(()));
    assert_eq!(installation.stage, InstallStage::Failed);
    assert_eq!(
        installation.error.unwrap().message,
        "post-activation WSL runtime validation failed: no GPU"
    );
    let mut worse = installation_at(InstallStage::ValidateCurrent);
    worse.step(failed("no GPU"));
    worse.step(failed("cannot move"));
    assert_eq!(worse.error.unwrap().message, "cannot move");
}

#[test]
fn a_backup_that_stays_is_no_failure() {
    let mut installation = installation_at(InstallStage::RemoveBackup);
    installation.step(failed("busy"));
    assert_eq!(installation.stage, InstallStage::Finished);
    assert!(installation.error.is_none());
}

#[test]
fn stages_have_their_commands() {
    let cuda = plan("cuda");
    assert_eq!(cuda.staging, "/base/installing-77");
    assert_eq!(cuda.backup, "/base/backup-77");
    let wheel = stage_command(&cuda, InstallStage::InstallWheel, "").unwrap().unwrap();
    assert_eq!(
        wheel.args,
        vec![
            "/base/tools/uv-0.9",
            "pip",
            "install",
            "--python",
            "/base/installing-77/venv/bin/python",
            "--torch-backend",
            "cu129",
            "--index-strategy",
            "first-index",
            "https://example.com/vllm.whl#sha256=wheel-sum"
        ]
    );
    let rocm = plan("rocm");
    let error = stage_command(&rocm, InstallStage::InstallWheel, "").unwrap().unwrap_err();
    assert_eq!(error.message, "vllm-wsl2-cuda has no pinned ROCm wheel index");
    let copy = stage_command(&cuda, InstallStage::CopyUv, "/mnt/c/uv").unwrap().unwrap();
    assert_eq!(copy.args, vec!["cp", "/mnt/c/uv", "/base/tools/uv-0.9"]);
    assert_eq!(copy.action, "stage managed uv");
    assert!(stage_command(&cuda, InstallStage::WriteRunner, "").is_none());
    assert_eq!(discard_arguments("/x"), vec!["rm", "-rf", "/x"]);
}

#[test]
fn stages_have_their_files() {
    let files = stage_files(&plan("cuda"), InstallStage::WriteRunner, "");
    assert_eq!(files.len(), 1);
    assert_eq!(files[0].path, "/base/installing-77/bin/omniinfer-vllm-run");
    assert!(files[0].executable);
    assert_eq!(stage_files(&plan("rocm"), InstallStage::WritePlugin, "").len(), 3);
    let kept = stage_files(&plan("cuda"), InstallStage::WriteManifest, "{}");
    assert_eq!(kept[0].contents, "{}");
    assert!(stage_files(&plan("cuda"), InstallStage::Activate, "").is_empty());
    let commands = file_commands(&files[0]).unwrap();
    assert_eq!(commands[0].args, vec!["mkdir", "-p", "/base/installing-77/bin"]);
    assert!(matches!(&commands[1].input, CommandInput::Bytes(b) if b.starts_with(b"#!/bin/sh")));
    assert_eq!(commands[2].args[..2], ["chmod", "0755"]);
    let lost = WslFile {
        path: "name".to_string(),
        contents: String::new(),
        executable: false,
    };
    assert_eq!(file_commands(&lost).unwrap_err().message, "invalid Linux runtime path: name");
}

#[test]
fn the_key_of_a_directory_ignores_case_and_slashes() {
    let key = runtime_key("C:\\Users\\Me\\Runtime");
    assert_eq!(key, runtime_key("c:/users/me/runtime"));
    assert_ne!(key, runtime_key("c:/users/me/other"));
    assert_eq!(key, sha256_text(&b"c:/users/me/runtime".to_vec())[..16]);
    assert_eq!(key_from_digest(&vec![0, 1, 0xab, 3, 4, 5, 6, 7, 8]), "0001ab0304050607");
}

fn manifest() -> LauncherManifest {
    let wsl = context();
    let base = linux_base(&wsl.home, "vllm-wsl2-cuda", "0123456789abcdef");
    let current = format!("{base}/current");
    launcher_manifest(
        "vllm-wsl2-cuda",
        &wsl,
        &entry(),
        &pinned("uv", "0.9"),
        &variant("cuda"),
        &current,
    )
}

#[test]
fn manifests_are_written_and_read_back() {
    let written = manifest();
    assert_eq!(
        written.linux_runner,
        "/home/me/.local/share/omniinfer/runtimes/vllm-wsl2-cuda/0123456789abcdef/current/bin/omniinfer-vllm-run"
    );
    let read = read_launcher_manifest(&launcher_payload(&written)).unwrap();
    assert!(launcher_manifest_matches(&read, &written));
    let mut other = manifest();
    other.tag = "v0.2".to_string();
    assert!(!launcher_manifest_matches(&other, &written));
    assert!(read_launcher_manifest(&Json::Object(Vec::new())).is_none());
    assert!(validate_wsl_manifest("vllm-wsl2-cuda", "m.json", &planner_manifest(&written)).is_ok());
}

#[test]
fn a_manifest_without_a_settings_version_is_an_old_one() {
    let payload = launcher_payload(&manifest());
    let fields = match payload {
        Json::Object(fields) => {
            fields.into_iter().filter(|(key, _)| key != "runtime_environment_version").collect()
        }
        other => panic!("{other:?}"),
    };
    let read = read_launcher_manifest(&Json::Object(fields)).unwrap();
    assert_eq!(read.runtime_environment_version, 0);
    assert!(!launcher_manifest_matches(&read, &manifest()));
}

#[test]
fn files_are_verified_before_they_are_used() {
    let steps = configuration_steps(&system(), b"key".to_vec(), b"deb".to_vec());
    assert_eq!(steps.len(), 8);
    match (&steps[3], &steps[5]) {
        (SystemStep::Verify { path, sha256, role }, SystemStep::Run(command)) => {
            assert_eq!(path, "/var/cache/omniinfer/rocm-key-sum.asc");
            assert_eq!(sha256, "key-sum");
            assert_eq!(role, "ROCm repository key");
            assert!(command.args.contains(path));
            assert_eq!(command.user.as_deref(), Some("root"));
        }
        other => panic!("{other:?}"),
    }
    match &steps[6] {
        SystemStep::Run(command) => match &command.input {
            CommandInput::Bytes(bytes) => assert_eq!(
                String::from_utf8(bytes.clone()).unwrap(),
                "deb [arch=amd64 signed-by=/etc/apt/keyrings/omniinfer-rocm.asc] https://repo.example.com noble main\n"
            ),
            other => panic!("{other:?}"),
        },
        other => panic!("{other:?}"),
    }
    match &installation_steps(&system())[0] {
        SystemStep::Run(command) => {
            assert_eq!(command.args[command.args.len() - 2..], ["hip=7.0", "rocm=7.1"])
        }
        other => panic!("{other:?}"),
    }
    let steps = population_steps(&package("hip"), "C:\\cache\\AB.deb");
    assert!(matches!(&steps[1], SystemStep::Verify { path, .. } if path.ends_with("/AB.deb")));
    assert!(matches!(&steps[3], SystemStep::Verify { path, .. }
        if path == "/var/cache/apt/archives/hip_7.0.deb"));
    assert!(matches!(&steps[4], SystemStep::Try(args) if args[0] == "rm"));
}

#[test]
fn a_fit_system_is_reused() {
    let first = SystemPhase::CheckVersions;
    assert_eq!(first.step(true).step(true), SystemPhase::Ready { reused: true });
    let mut phase = first.step(true).step(false);
    assert_eq!(phase, SystemPhase::DownloadKey);
    for _ in 0..7 {
        phase = phase.step(true);
    }
    assert_eq!(phase, SystemPhase::Ready { reused: false });
    assert_eq!(first.step(false).step(false), SystemPhase::Failed);
}

#[test]
fn versions_of_packages_are_read() {
    let names = vec!["hip".to_string()];
    assert_eq!(
        package_query(&names),
        vec!["dpkg-query", "-W", "-f=${Package}=${Version}\n", "hip"]
    );
    let stated =
        query_installed_package_versions(&output(false, 1, "hip=7.0\nrocm=6.0\nhip=7.1\n")).unwrap();
    assert_eq!(installed_version(&stated, "hip").as_deref(), Some("7.1"));
    assert_eq!(installed_version(&stated, "none"), None);
    assert!(query_installed_package_versions(&output(false, 2, "")).is_err());
    assert_eq!(package_requirements(&system()), vec!["hip=7.0", "rocm=7.1"]);
    assert_eq!(required_names(&system()), vec!["hip", "rocm", "rocdxg-roct"]);
}

#[test]
fn a_system_needs_all_its_packages() {
    let text = "hip=7.0\nrocm=7.1\nrocdxg-roct=1.2\n";
    assert_eq!(validate_rocm_system_versions(&output(true, 0, text), &system()).unwrap(), text);
    let error =
        validate_rocm_system_versions(&output(true, 0, "hip=7.0\n"), &system()).unwrap_err();
    assert!(error.message.ends_with("missing rocm=7.1"));
    assert!(validate_rocm_system_versions(&output(false, 1, text), &system()).is_err());
}

#[test]
fn only_missing_packages_are_downloaded() {
    let stated = vec!["hip=7.0".to_string()];
    assert_eq!(package_need(&package("hip"), &stated, false), PackageNeed::Installed);
    assert_eq!(package_need(&package("rocm"), &stated, true), PackageNeed::InCache);
    let assets = vec![package("hip"), package("rocm"), package("blas")];
    assert_eq!(plan_downloads(&assets, &stated, &vec![false, true, false]), vec![2]);
    assert_eq!(apt_cache_path(&package("hip")), "/var/cache/apt/archives/hip_7.0.deb");
}

fn found(size: u64, sha256: &str) -> PackageEvent {
    PackageEvent::Found(FileFacts { size, sha256: sha256.to_string() })
}

#[test]
fn a_package_is_fetched_and_verified() {
    let asset = package("hip");
    let missing = || PackageEvent::Missing("C:\\cache\\AB.partial".to_string());
    let cached = PackagePhase::CheckVerified.step(&asset, found(10, "ab"));
    assert!(matches!(cached, PackagePhase::Verified { cached: true }));

    let phase = PackagePhase::CheckVerified
        .step(&asset, found(9, "ab"))
        .step(&asset, PackageEvent::Done)
        .step(&asset, found(4, ""))
        .step(&asset, PackageEvent::Done);
    assert!(matches!(phase, PackagePhase::CheckFetched));
    let done = phase.step(&asset, found(10, "AB")).step(&asset, PackageEvent::Done);
    assert!(matches!(done, PackagePhase::Verified { cached: false }));

    let promoted = PackagePhase::CheckPartial.step(&asset, found(10, "Ab"));
    assert!(matches!(promoted, PackagePhase::PromotePartial));
    let removed = PackagePhase::CheckPartial.step(&asset, found(11, "ab"));
    assert!(matches!(removed, PackagePhase::RemovePartial));

    match PackagePhase::CheckFetched.step(&asset, found(10, "cd")) {
        PackagePhase::Failed(e) => assert_eq!(
            e.message,
            "ROCm package hip checksum mismatch: expected 10 bytes / AB, got 10 bytes / cd"
        ),
        other => panic!("{other:?}"),
    }
    match PackagePhase::CheckFetched.step(&asset, missing()) {
        PackagePhase::Failed(e) => assert_eq!(
            e.message,
            "downloaded ROCm package hip is missing from C:\\cache\\AB.partial"
        ),
        other => panic!("{other:?}"),
    }
    match PackagePhase::Fetch.step(&asset, PackageEvent::Broken("curl".to_string())) {
        PackagePhase::Failed(e) => assert_eq!(e.message, "curl"),
        other => panic!("{other:?}"),
    }
}

#[test]
fn downloads_are_resumed_and_reported() {
    assert!(matches!(package_source("file:///tmp/x"), PackageSource::File(p) if p == "/tmp/x"));
    assert!(matches!(package_source("https://x"), PackageSource::Network));
    let args = curl_command(&vec![("C:\\a".to_string(), "https://a".to_string())]);
    assert_eq!(args[0], "--fail");
    assert_eq!(args[18..], ["--continue-at", "-", "--output", "C:\\a", "https://a"]);
    assert!(!progress_due(PROGRESS_STEP - 1, 0, u64::MAX));
    assert!(progress_due(PROGRESS_STEP, 0, u64::MAX));
    assert!(progress_due(5, 5, 5));
    assert!(!progress_due(u64::MAX - 1, u64::MAX - 2, u64::MAX));
    assert_eq!(
        curl_failure("exit code: 28", " slow \n").message,
        "Windows curl.exe failed while downloading ROCm packages with exit code: 28: slow. Re-run the install to resume verified partial downloads."
    );
    assert_eq!(
        sha256_text(&b"abc".to_vec()),
        "ba7816bf8f01cfea414140de5dae2223b00361a396177a9cb410ff61f20015ad"
    );
}

#[test]
fn reports_say_what_is_installed() {
    let lines = overview_lines(&subject(), &variant("rocm"));
    assert_eq!(lines[0], "Managed WSL2 Python runtime: windows/vllm-wsl2-cuda");
    assert_eq!(lines[4], "  NVIDIA driver: 581.57");
    assert_eq!(lines[5], "  selected ROCM runtime: 12.9 (cu129)");
    assert_eq!(lines[6], "  minimum AMD Software release: 26.1");
    assert_eq!(lines[7], "  package metadata version: 0.1");
    assert_eq!(lines[8], "  wheel sha256: wheel-sum");
    let selected = compatibility_selected(&subject(), &variant("cuda"));
    assert_eq!(selected.get_number("runtime_environment_version"), Some(6));
    assert_eq!(selected.get_text("minimum_driver").as_deref(), Some("576.02"));
    assert_eq!(planned_assets(&pinned("uv", "0.9"), &variant("cuda")).len(), 1);
    assert_eq!(planned_assets(&pinned("uv", "0.9"), &variant("rocm")).len(), 3);
    let kept = managed_manifest(
        &subject(),
        &entry(),
        &pinned("uv", "0.9"),
        &variant("cuda"),
        Json::Null,
    );
    assert!(matches!(kept.get("rocm_platform_plugin_version"), Some(Json::Null)));
    assert_eq!(kept.get_text("uv_sha256").as_deref(), Some("uv-sum"));
    assert_eq!(
        install_completed(&subject()).get_text("manifest").as_deref(),
        Some("/base/current/managed-runtime.json")
    );
    let verified = system_runtime_verified("hip=7.0\nrocm=7.1\n", true);
    assert_eq!(verified.get_flag("reused"), Some(true));
    assert_eq!(verified.get_texts("packages").unwrap(), vec!["hip=7.0", "rocm=7.1"]);
}

#[test]
fn reports_say_what_is_downloaded() {
    let at = PackagePlace { index: 1, count: 2 };
    let asset = package("hip");
    assert_eq!(download_started(&asset, at, true).get_flag("resumable"), Some(true));
    assert!(download_started(&asset, at, false).get("resumable").is_none());
    assert_eq!(download_progress(&asset, at, 4).get_number("bytes_downloaded"), Some(4));
    assert_eq!(checksum_failed(&asset, at, 9, "cd").get_number("actual_bytes"), Some(9));
    let report = package_checksum_verified(&asset, at, PackageOrigin::WindowsCache);
    assert!(same_json(
        report.get("source").unwrap(),
        &Json::Text("windows_cache".to_string())
    ));
    assert_eq!(report.get_text("role").as_deref(), Some("ROCm package hip"));
}

#[test]
fn variants_have_their_kind_of_installation() {
    let cuda = install_kind(&variant("cuda"));
    assert_eq!(cuda, InstallKind { system: false, rocm: false });
    let mut bare = variant("rocm");
    assert_eq!(install_kind(&bare), InstallKind { system: true, rocm: true });
    bare.rocm_system = None;
    assert_eq!(install_kind(&bare), InstallKind { system: false, rocm: true });
}

fn preflight_ends(checks: Preflight) -> String {
    match checks {
        Preflight::Failed(e) => e.message,
        other => panic!("{other:?}"),
    }
}

#[test]
fn a_cuda_machine_is_checked_first() {
    let cuda = variant("cuda");
    let ask = |checks: Preflight, answer: Result<CommandOutput, Failure>| {
        checks.step("vllm-wsl2-cuda", &cuda, "Ubuntu", answer)
    };
    let checks = ask(Preflight::new(&cuda), Ok(output(true, 0, "\n 577.1 \n")));
    assert!(matches!(&checks, Preflight::QueryDevices { driver } if driver == "577.1"));
    match ask(checks, Ok(output(true, 0, "GPU"))) {
        Preflight::Fit(Some(driver)) => assert_eq!(driver, "577.1"),
        other => panic!("{other:?}"),
    }
    let old = ask(Preflight::new(&cuda), Ok(output(true, 0, "576.01")));
    assert!(preflight_ends(old).contains("is too old"));
    let unreadable = ask(Preflight::new(&cuda), Ok(output(true, 0, "x")));
    assert_eq!(preflight_ends(unreadable), "invalid NVIDIA driver version: x");
    let silent = ask(Preflight::new(&cuda), Ok(output(true, 0, "")));
    assert_eq!(preflight_ends(silent), "nvidia-smi returned no NVIDIA driver version");
    let missing = ask(Preflight::new(&cuda), Err(Failure { message: "no smi".to_string() }));
    assert_eq!(preflight_ends(missing), "no smi");
    let devices = Preflight::QueryDevices { driver: "577.1".to_string() };
    assert_eq!(
        preflight_ends(ask(devices, Ok(output(false, 9, "")))),
        "NVIDIA CUDA is not available inside WSL2 distribution \"Ubuntu\": trouble"
    );
    let mut unbounded = variant("cuda");
    unbounded.minimum_driver = None;
    let checks = Preflight::new(&unbounded).step("b", &unbounded, "U", Ok(output(true, 0, "1")));
    assert_eq!(preflight_ends(checks), "b has no minimum NVIDIA driver");
}

#[test]
fn a_rocm_machine_needs_its_release() {
    let rocm = variant("rocm");
    let ask = |answer: CommandOutput| {
        Preflight::new(&rocm).step("vllm-wsl2-rocm", &rocm, "Ubuntu", Ok(answer))
    };
    assert!(matches!(ask(output(true, 0, "ubuntu 24.04\n")), Preflight::Fit(None)));
    assert!(preflight_ends(ask(output(true, 0, "ubuntu 22.04"))).ends_with("\"ubuntu 22.04\""));
    assert_eq!(
        preflight_ends(ask(output(false, 1, ""))),
        "query WSL2 distribution failed with exit code: 1: trouble"
    );
}
