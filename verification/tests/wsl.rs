use omniinfer::json::Json;
use omniinfer::wsl::archive::{
    entry_file_name, extract_uv, find_uv, holds_overrun, is_program,
};
use omniinfer::wsl::catalog::{
    select_runtime, validate_backend_accelerator, PinnedAsset, PythonRuntimeEntry,
    PythonRuntimeVariant,
};
use omniinfer::wsl::checks::{
    dependency_query, ensure_runtime_not_active, mismatch_failure, probe_line, probe_mismatch,
    validate_native_dependencies, validate_rocm_distro, validate_wsl_cuda_gpu,
    validate_wsl_rocm_gpu, verify_wsl_sha256, wsl_file_matches_sha256, ProbeMismatch,
};
use omniinfer::wsl::commands::{command_started, wsl_arguments, CommandInput, WslCommand};
use omniinfer::wsl::detection::{WslContext, WslDetection};
use omniinfer::wsl::distros::{
    automount_root_from_c_path, choose_distro, default_distro, distro_is_wsl2,
    eligible_distro_names, is_internal_distro, listed_names,
};
use omniinfer::wsl::output::{decode_output, log_entry, require_success, CommandOutput};
use omniinfer::wsl::scripts::{
    runtime_environment, ROCM_PLATFORM_PLUGIN, ROCM_PLATFORM_PLUGIN_ENTRY_POINTS,
    ROCM_PLATFORM_PLUGIN_METADATA, ROCM_PLATFORM_PLUGIN_VERSION, RUNNER_SCRIPT,
};
use omniinfer::wsl::versions::{parse_version, read_nvidia_driver, require_minimum_driver};

fn wide(text: &str) -> Vec<u8> {
    text.encode_utf16().flat_map(u16::to_le_bytes).collect::<Vec<_>>()
}

fn output(success: bool, stdout: &str, stderr: &str) -> CommandOutput {
    CommandOutput {
        success,
        code: Some(if success { 0 } else { 1 }),
        status: if success { "exit code: 0" } else { "exit code: 1" }.to_string(),
        stdout: stdout.as_bytes().to_vec(),
        stderr: stderr.as_bytes().to_vec(),
    }
}

fn decodes_utf16() {
    let text = "Ubuntu\r\n";
    assert_eq!(decode_output(&wide(text)), text);
}

fn rejects_internal() {
    assert!(is_internal_distro("docker-desktop"));
    assert!(is_internal_distro("example-data"));
    assert!(!is_internal_distro("Ubuntu-24.04"));
}

fn selects_rows() {
    let rows = "  NAME STATE VERSION\r\n* Ubuntu Running 2\r\n  Legacy Stopped 1\r\n";
    assert!(distro_is_wsl2("Ubuntu", rows));
    assert!(!distro_is_wsl2("Legacy", rows));
    assert_eq!(default_distro(rows).as_deref(), Some("Ubuntu"));
}

fn eligible_rows() -> (Vec<String>, &'static str) {
    let names = vec![
        "Ubuntu".to_string(),
        "Legacy".to_string(),
        "docker-desktop".to_string(),
        "docker-desktop-data".to_string(),
    ];
    let rows = "  NAME STATE VERSION\r\n* Ubuntu Running 2\r\n  Legacy Stopped 1\r\n  docker-desktop Running 2\r\n  docker-desktop-data Stopped 2\r\n";
    (names, rows)
}

fn excludes_unfit() {
    let (names, rows) = eligible_rows();
    assert_eq!(eligible_distro_names(&names, rows), vec!["Ubuntu"]);
}

fn minimum_driver() {
    assert!(require_minimum_driver("581.57", "576.02").is_ok());
    let error = require_minimum_driver("575.99", "576.02").unwrap_err();
    assert!(error.message.contains("too old"));
}

fn automounts() {
    assert_eq!(automount_root_from_c_path("/mnt/c/").as_deref(), Some("/mnt"));
    assert_eq!(automount_root_from_c_path("/c").as_deref(), Some("/"));
    assert_eq!(automount_root_from_c_path("/mnt/d"), None);
}

#[test]
fn wsl_runtime_installer_decodes_utf16_wsl_output() {
    decodes_utf16();
}

#[test]
fn mod_decodes_utf16_wsl_output() {
    decodes_utf16();
}

#[test]
fn wsl_runtime_installer_rejects_internal_distributions() {
    rejects_internal();
}

#[test]
fn mod_rejects_internal_distributions() {
    rejects_internal();
}

#[test]
fn wsl_runtime_installer_selects_wsl2_rows_without_localized_headers() {
    selects_rows();
}

#[test]
fn mod_selects_wsl2_rows_without_localized_headers() {
    selects_rows();
}

#[test]
fn wsl_runtime_installer_eligible_distributions_exclude_wsl1_and_internal_distros() {
    excludes_unfit();
}

#[test]
fn mod_eligible_distributions_exclude_wsl1_and_internal_distros() {
    excludes_unfit();
}

#[test]
fn wsl_runtime_installer_minimum_driver_check_uses_windows_cuda_requirement() {
    minimum_driver();
}

#[test]
fn mod_minimum_driver_check_uses_windows_cuda_requirement() {
    minimum_driver();
}

#[test]
fn wsl_runtime_installer_derives_default_and_root_level_wsl_automounts() {
    automounts();
}

#[test]
fn mod_derives_default_and_root_level_wsl_automounts() {
    automounts();
}

#[test]
fn runtime_environment_exposes_managed_native_libraries() {
    let cuda = runtime_environment("cuda");
    assert!(cuda.contains("site-packages/torch/lib"));
    assert!(cuda.contains("site-packages/nvidia/*/lib"));
    assert!(cuda.contains("export LD_LIBRARY_PATH"));
    assert!(!cuda.contains("HSA_ENABLE_DXG_DETECTION"));

    let rocm = runtime_environment("rocm");
    assert!(rocm.contains("site-packages/torch/lib"));
    assert!(rocm.contains("HSA_ENABLE_DXG_DETECTION=1"));
    assert!(rocm.contains("CC=/opt/rocm/llvm/bin/clang"));
    assert!(rocm.contains("export CC CXX"));
    assert!(rocm.contains(r#"PYTHONPATH="$runtime_dir/plugins"#));
}

#[test]
fn runner_limits_default_rocm_kv_cache_without_overriding_explicit_policy() {
    assert!(RUNNER_SCRIPT.contains(r#"HSA_ENABLE_DXG_DETECTION:-}" = "1"#));
    assert!(RUNNER_SCRIPT.contains("--kv-cache-memory-bytes"));
    assert!(RUNNER_SCRIPT.contains("--gpu-memory-utilization"));
    assert!(RUNNER_SCRIPT.contains("memory_kib * 1024 / 5"));
    assert!(RUNNER_SCRIPT.contains("4294967296"));
}

#[test]
fn runner_applies_overridable_wsl2_rocm_execution_defaults() {
    assert!(RUNNER_SCRIPT.contains("--enforce-eager|--no-enforce-eager"));
    assert!(RUNNER_SCRIPT.contains(
        "--enable-chunked-prefill|--enable-chunked-prefill=*|--no-enable-chunked-prefill"
    ));
    assert!(RUNNER_SCRIPT.contains(r#"set -- "$@" --enforce-eager"#));
    assert!(RUNNER_SCRIPT.contains(r#"set -- "$@" --no-enable-chunked-prefill"#));
}

#[test]
fn rocm_platform_plugin_uses_the_upstream_extension_point() {
    assert!(ROCM_PLATFORM_PLUGIN.contains("torch.cuda.is_available()"));
    assert!(ROCM_PLATFORM_PLUGIN.contains("_amdsmi_has_gpu()"));
    assert!(ROCM_PLATFORM_PLUGIN.contains("_install_amdsmi_shim(devices)"));
    assert!(ROCM_PLATFORM_PLUGIN.contains("class WslRocmBuffer"));
    assert!(ROCM_PLATFORM_PLUGIN.contains("copy_to_accelerator"));
    assert!(ROCM_PLATFORM_PLUGIN_ENTRY_POINTS.contains("[vllm.platform_plugins]"));
    assert!(ROCM_PLATFORM_PLUGIN_ENTRY_POINTS.contains("[vllm.general_plugins]"));
    assert!(ROCM_PLATFORM_PLUGIN_ENTRY_POINTS.contains("omniinfer_vllm_wsl2_rocm:platform_plugin"));
}

#[test]
fn the_plugin_describes_its_version() {
    assert!(ROCM_PLATFORM_PLUGIN_METADATA
        .contains(&format!("Version: {ROCM_PLATFORM_PLUGIN_VERSION}\n")));
}

#[test]
fn single_bytes_and_replacements_are_read() {
    assert_eq!(decode_output(&b"plain\n".to_vec()), "plain\n");
    assert_eq!(decode_output(&vec![b'a', 0xff, b'b']), "a\u{fffd}b");
    assert_eq!(decode_output(&Vec::new()), "");
    let marked = wide("\u{feff}Ubuntu");
    assert_eq!(decode_output(&marked), "Ubuntu");
    let smile = wide("a\u{1f600}");
    assert_eq!(decode_output(&smile), "a\u{1f600}");
}

#[test]
fn a_failed_command_says_what_it_did() {
    assert!(require_success(&output(true, "", ""), "copy").is_ok());
    let error = require_success(&output(false, "", " no space \n"), "copy").unwrap_err();
    assert_eq!(error.message, "copy failed with exit code: 1: no space");
    assert_eq!(
        log_entry("copy", &output(true, "done\n\n", "")),
        "\n== copy ==\nstdout:\ndone\nstatus: exit code: 0\n"
    );
}

#[test]
fn distributions_are_chosen() {
    let (names, rows) = eligible_rows();
    assert_eq!(choose_distro(&None, &names, rows).unwrap(), "Ubuntu");
    assert_eq!(choose_distro(&Some(" ubuntu ".to_string()), &names, rows).unwrap(), "Ubuntu");
    let missing = choose_distro(&Some("Arch".to_string()), &names, rows).unwrap_err();
    assert_eq!(
        missing.message,
        "WSL distribution \"Arch\" is not installed; available distributions: Ubuntu, Legacy, docker-desktop, docker-desktop-data"
    );
    let internal = choose_distro(&Some("docker-desktop".to_string()), &names, rows).unwrap_err();
    assert!(internal.message.contains("reserved for another application"));
    let old = choose_distro(&Some("Legacy".to_string()), &names, rows).unwrap_err();
    assert!(old.message.ends_with("is not running as WSL2"));
    let none = choose_distro(&None, &Vec::new(), "").unwrap_err();
    assert!(none.message.starts_with("no user WSL2 distribution is available"));
    let two = vec!["A".to_string(), "B".to_string()];
    let many = choose_distro(&None, &two, "  A Running 2\n  B Running 2\n").unwrap_err();
    assert_eq!(
        many.message,
        "multiple WSL2 distributions are available (A, B); select one with --wsl-distro"
    );
    let one = choose_distro(&None, &two, "  A Running 2\n  B Running 1\n").unwrap();
    assert_eq!(one, "A");
    assert_eq!(listed_names("Ubuntu\r\n\r\n  Arch \n"), vec!["Ubuntu", "Arch"]);
}

#[test]
fn a_distribution_is_found_step_by_step() {
    let mut search = WslDetection::ListNames;
    assert_eq!(search.arguments(), vec!["--list", "--quiet"]);
    let listed = CommandOutput {
        success: true,
        code: Some(0),
        status: String::new(),
        stdout: wide("Ubuntu\r\n"),
        stderr: Vec::new(),
    };
    search = search.step(&None, &listed);
    assert_eq!(search.arguments(), vec!["--list", "--verbose"]);
    search = search.step(&None, &output(true, "* Ubuntu Running 2\n", ""));
    assert_eq!(
        search.arguments(),
        vec!["--distribution", "Ubuntu", "--exec", "sh", "-c", "printf %s \"$HOME\""]
    );
    search = search.step(&None, &output(true, "/home/me", ""));
    search = search.step(&None, &output(true, "/mnt/c/\n", ""));
    search = search.step(&None, &output(true, "x86_64\n", ""));
    match search {
        WslDetection::Found(WslContext { distribution, home, automount_root }) => {
            assert_eq!(distribution, "Ubuntu");
            assert_eq!(home, "/home/me");
            assert_eq!(automount_root, "/mnt");
        }
        other => panic!("{other:?}"),
    }
}

#[test]
fn a_search_fails_with_a_reason() {
    let failed = |search: WslDetection, out: CommandOutput| match search.step(&None, &out) {
        WslDetection::Failed(e) => e.message,
        other => panic!("{other:?}"),
    };
    assert!(failed(WslDetection::ListNames, output(false, "", "off"))
        .starts_with("WSL is unavailable."));
    let home = WslDetection::AskHome { distribution: "U".to_string() };
    assert_eq!(
        failed(home, output(true, "home", "")),
        "WSL distribution \"U\" returned an invalid HOME path"
    );
    let drive = || WslDetection::AskDrive {
        distribution: "U".to_string(),
        home: "/home".to_string(),
    };
    assert_eq!(
        failed(drive(), output(true, "/mnt/d", "")),
        "WSL distribution returned an invalid C: automount path"
    );
    assert!(failed(drive(), output(false, "", "x")).starts_with("query WSL2 distribution failed"));
    let machine = WslDetection::AskMachine {
        distribution: "U".to_string(),
        home: "/home".to_string(),
        automount_root: "/mnt".to_string(),
    };
    assert_eq!(
        failed(machine, output(true, "aarch64", "")),
        "managed vLLM requires an x86_64 WSL2 distribution, found aarch64"
    );
}

#[test]
fn drivers_are_read_and_compared() {
    assert_eq!(parse_version(" 581.57 "), Some((581, 57, 0)));
    assert_eq!(parse_version("1.2.3.4"), Some((1, 2, 3)));
    assert_eq!(parse_version("x.1"), None);
    assert!(require_minimum_driver("577", "576.02").is_ok());
    assert_eq!(
        require_minimum_driver("new", "1").unwrap_err().message,
        "invalid NVIDIA driver version: new"
    );
    assert_eq!(
        require_minimum_driver("1", "old").unwrap_err().message,
        "invalid catalog minimum driver version: old"
    );
    assert_eq!(read_nvidia_driver(&output(true, "\n 581.57\n580\n", "")).unwrap(), "581.57");
    assert!(read_nvidia_driver(&output(true, "", "")).is_err());
    assert!(read_nvidia_driver(&output(false, "", "gone")).unwrap_err().message.ends_with("gone"));
}

#[test]
fn checks_judge_what_commands_say() {
    assert!(validate_wsl_cuda_gpu(&output(true, "GPU, 581", ""), "U").is_ok());
    assert!(validate_wsl_cuda_gpu(&output(true, "", ""), "U").is_err());
    assert!(validate_rocm_distro("ubuntu 24.04\n").is_ok());
    assert!(validate_rocm_distro("debian 12").unwrap_err().message.ends_with("\"debian 12\""));
    let gfx = vec!["gfx1150".to_string(), "gfx1151".to_string()];
    assert!(validate_wsl_rocm_gpu(&output(true, "Name: gfx1151", ""), "U", "26.1", &gfx).is_ok());
    let error =
        validate_wsl_rocm_gpu(&output(true, "Name: gfx90a", ""), "U", "26.1", &gfx).unwrap_err();
    assert!(error.message.contains("gfx1150, gfx1151"));
    assert!(validate_wsl_rocm_gpu(&output(false, "", "no"), "U", "26.1", &gfx).is_err());
    assert!(ensure_runtime_not_active(&output(true, "", "")).is_ok());
    let active = ensure_runtime_not_active(&output(false, "/r/run/1.pid:9\n", "")).unwrap_err();
    assert!(active.message.starts_with("vLLM WSL2 runtime is active (/r/run/1.pid:9)"));
    let mut killed = output(false, "", "signal");
    killed.code = None;
    assert_eq!(
        ensure_runtime_not_active(&killed).unwrap_err().message,
        "failed to inspect active WSL2 runtime: signal"
    );
    assert_eq!(validate_native_dependencies(&output(true, "note\n12\n", "")).unwrap(), 12);
    assert!(validate_native_dependencies(&output(true, "none\n", "")).is_err());
    assert!(validate_native_dependencies(&output(false, "3", "x")).is_err());
    assert_eq!(dependency_query("/r").last().unwrap(), "/r");
}

#[test]
fn probes_have_to_match() {
    let line = probe_line(&output(true, "loading\n {\"a\":1}\nbye\n", "")).unwrap();
    assert_eq!(line, " {\"a\":1}");
    assert!(probe_line(&output(true, "nothing", "")).is_err());
    assert!(probe_line(&output(false, "{}", "bad")).is_err());
    let probe = Json::Object(vec![
        ("vllm_version".to_string(), Json::Text("1.0".to_string())),
        ("torch_cuda".to_string(), Json::Text("12.9".to_string())),
        ("torch_hip".to_string(), Json::Null),
    ]);
    assert_eq!(probe_mismatch(&probe, "1.0", "cuda", "12.9"), None);
    assert_eq!(probe_mismatch(&probe, "1.1", "cuda", "12.9"), Some(ProbeMismatch::Version));
    assert_eq!(probe_mismatch(&probe, "1.0", "rocm", "7.0"), Some(ProbeMismatch::Abi));
    assert_eq!(
        mismatch_failure(ProbeMismatch::Abi, "1.0", "rocm", "7.0", "null").message,
        "managed vLLM ROCm ABI mismatch: expected 7.0, got null"
    );
}

#[test]
fn checksums_are_compared() {
    assert!(wsl_file_matches_sha256(&output(true, "ABCD  /path\n", ""), "abcd"));
    assert!(!wsl_file_matches_sha256(&output(false, "abcd", ""), "abcd"));
    assert!(!wsl_file_matches_sha256(&output(true, "", ""), "abcd"));
    assert!(verify_wsl_sha256(&output(true, "ABCD x", ""), "abcd", "key").is_ok());
    assert_eq!(
        verify_wsl_sha256(&output(true, "EF x", ""), "abcd", "key").unwrap_err().message,
        "staged key checksum mismatch inside WSL2: expected abcd, got ef"
    );
    assert!(verify_wsl_sha256(&output(false, "", "gone"), "abcd", "key")
        .unwrap_err()
        .message
        .starts_with("verify staged key in WSL2 failed with"));
}

fn asset(version: &str) -> PinnedAsset {
    PinnedAsset {
        url: "https://example.com/uv.tar.gz".to_string(),
        sha256: "aa".to_string(),
        version: version.to_string(),
    }
}

fn variant(accelerator: &str, torch_backend: Option<&str>) -> PythonRuntimeVariant {
    PythonRuntimeVariant {
        version: "0.1".to_string(),
        reported_version: "0.1".to_string(),
        url: "https://example.com/vllm.whl".to_string(),
        sha256: "bb".to_string(),
        accelerator: accelerator.to_string(),
        runtime_version: "12.9".to_string(),
        reported_runtime_version: "12.9".to_string(),
        torch_backend: torch_backend.map(str::to_string),
        minimum_driver: Some("576.02".to_string()),
        build_commit: None,
        index_url: None,
        rocm_system: None,
    }
}

fn entry(uv: Option<&str>, variants: Vec<PythonRuntimeVariant>) -> PythonRuntimeEntry {
    PythonRuntimeEntry {
        source: "vllm".to_string(),
        tag: "v0.1".to_string(),
        python: "3.12".to_string(),
        launcher: "vllm".to_string(),
        uv: uv.map(|arch| (arch.to_string(), asset("0.9"))).into_iter().collect(),
        variants: variants.into_iter().map(|v| ("x86_64".to_string(), v)).collect(),
    }
}

#[test]
fn a_runtime_is_selected_from_the_catalog() {
    let good = entry(Some("x86_64"), vec![variant("cuda", Some("cu129"))]);
    assert_eq!(select_runtime("vllm-wsl2-cuda", &good, true).unwrap(), (0, 0));
    let message =
        |backend: &str, e: &PythonRuntimeEntry, ok: bool| select_runtime(backend, e, ok).unwrap_err().message;
    assert_eq!(message("other", &good, true), "unsupported managed WSL2 backend: other");
    assert_eq!(
        message("vllm-wsl2-cuda", &good, false),
        "vllm-wsl2-cuda is supported only by the Windows OmniInfer CLI"
    );
    assert_eq!(
        message("vllm-wsl2-cuda", &entry(Some("arm64"), Vec::new()), true),
        "vllm-wsl2-cuda has no managed uv asset for x86_64"
    );
    assert_eq!(
        message("vllm-wsl2-cuda", &entry(Some("x86_64"), Vec::new()), true),
        "vllm-wsl2-cuda has no managed vLLM wheel for x86_64"
    );
    assert_eq!(
        message("vllm-wsl2-rocm", &good, true),
        "vllm-wsl2-rocm catalog accelerator mismatch: expected rocm, found cuda"
    );
    let unpinned = entry(Some("x86_64"), vec![variant("cuda", None)]);
    assert_eq!(
        message("vllm-wsl2-cuda", &unpinned, true),
        "vllm-wsl2-cuda has no pinned PyTorch accelerator index"
    );
    assert!(validate_backend_accelerator("x", "cuda").is_err());
}

#[test]
fn commands_run_inside_the_distribution() {
    let args = vec!["ls".to_string()];
    assert_eq!(
        wsl_arguments("U", &Some("root".to_string()), &args),
        vec!["--distribution", "U", "--user", "root", "--exec", "ls"]
    );
    let command = WslCommand {
        user: None,
        args,
        input: CommandInput::Nothing,
        action: "list".to_string(),
    };
    let report = command_started(&command, "U");
    assert_eq!(report.get_text("command").as_deref(), Some("ls"));
    assert!(matches!(report.get("user"), Some(Json::Null)));
}

fn archive(entries: &[(&str, &[u8])]) -> Vec<u8> {
    let mut builder = tar::Builder::new(flate2::write::GzEncoder::new(
        Vec::new(),
        flate2::Compression::default(),
    ));
    for (path, contents) in entries {
        let mut header = tar::Header::new_gnu();
        header.set_size(contents.len() as u64);
        header.set_mode(0o755);
        header.set_cksum();
        builder.append_data(&mut header, path, *contents).unwrap();
    }
    builder.into_inner().unwrap().finish().unwrap()
}

#[test]
fn the_program_is_taken_out_of_its_archive() {
    let bytes = archive(&[
        ("uv-x86_64/README", b"read me"),
        ("uv-x86_64/uv", b"the program"),
        ("uv-x86_64/more/uv", b"another"),
    ]);
    assert_eq!(extract_uv(&bytes).unwrap(), b"the program".to_vec());
    let without = archive(&[("uv-x86_64/uvx", b"x")]);
    assert_eq!(
        extract_uv(&without).unwrap_err().message,
        "managed uv archive does not contain the uv executable"
    );
    assert!(extract_uv(&b"not an archive".to_vec()).is_err());
}

#[test]
fn paths_in_an_archive_need_not_be_text() {
    let mut builder = tar::Builder::new(flate2::write::GzEncoder::new(
        Vec::new(),
        flate2::Compression::default(),
    ));
    for (path, contents) in [(&b"\xff/uvx"[..], &b"x"[..]), (&b"\xff/uv"[..], &b"uv"[..])] {
        let mut header = tar::Header::new_gnu();
        header.as_old_mut().name[..path.len()].copy_from_slice(path);
        header.set_size(contents.len() as u64);
        header.set_mode(0o755);
        header.set_cksum();
        builder.append(&header, contents).unwrap();
    }
    let bytes = builder.into_inner().unwrap().finish().unwrap();
    match extract_uv(&bytes) {
        Ok(contents) => assert_eq!(contents, b"uv".to_vec()),
        Err(error) => assert!(error.message.contains("Unicode")),
    }
}

#[test]
fn file_names_are_the_last_part_of_a_path() {
    assert_eq!(entry_file_name("a/uv").as_deref(), Some("uv"));
    assert_eq!(entry_file_name("uv").as_deref(), Some("uv"));
    assert_eq!(entry_file_name("C:/a/uv").as_deref(), Some("uv"));
    assert_eq!(entry_file_name("a/uv/./").as_deref(), Some("uv"));
    assert_eq!(entry_file_name("a/.."), None);
    assert_eq!(entry_file_name(""), None);
    for path in ["a\\uv", "C:uv", "//server/uv"] {
        let expected = std::path::Path::new(path).file_name().and_then(|name| name.to_str());
        assert_eq!(entry_file_name(path).as_deref(), expected);
    }
    assert!(is_program(true, &Some("uv".to_string())));
    assert!(!is_program(false, &Some("uv".to_string())));
    assert!(!is_program(true, &Some("uvx".to_string())));
    assert!(!is_program(true, &None));
}

fn unpacked_archive() -> Vec<u8> {
    let mut builder = tar::Builder::new(Vec::new());
    for (path, contents) in [("a/README", &b"read me"[..]), ("a/uv", &b"the program"[..])] {
        let mut header = tar::Header::new_gnu();
        header.set_size(contents.len() as u64);
        header.set_mode(0o755);
        header.set_cksum();
        builder.append_data(&mut header, path, contents).unwrap();
    }
    builder.into_inner().unwrap()
}

fn gzipped(bytes: &[u8]) -> Vec<u8> {
    let mut encoder =
        flate2::write::GzEncoder::new(Vec::new(), flate2::Compression::default());
    std::io::Write::write_all(&mut encoder, bytes).unwrap();
    encoder.finish().unwrap()
}

#[test]
fn a_program_before_the_break_is_found() {
    let whole = unpacked_archive();
    let broken = Some("it breaks off".to_string());
    let uv_end = 3 * 512 + b"the program".len();
    assert_eq!(find_uv(whole[..uv_end].to_vec(), &broken).unwrap(), b"the program".to_vec());
    for cut in [0, 100, 512, 600, 1024, 1200, 1536, uv_end - 1] {
        assert_eq!(
            find_uv(whole[..cut].to_vec(), &broken).unwrap_err().message,
            "it breaks off",
            "{cut}"
        );
    }
    assert_eq!(
        find_uv(vec![0; 1024], &broken).unwrap_err().message,
        "managed uv archive does not contain the uv executable"
    );
    assert_eq!(
        find_uv(Vec::new(), &None).unwrap_err().message,
        "managed uv archive does not contain the uv executable"
    );
}

#[test]
fn a_wrong_checksum_behind_the_program_is_passed_over() {
    let mut bytes = gzipped(&unpacked_archive());
    let checksum = bytes.len() - 8;
    bytes[checksum] ^= 1;
    assert_eq!(extract_uv(&bytes).unwrap(), b"the program".to_vec());
    assert_eq!(
        extract_uv(&b"not an archive".to_vec()).unwrap_err().message,
        "invalid gzip header"
    );
}

fn sparse_archive(size: u64, binary: bool) -> Vec<u8> {
    let mut header = tar::Header::new_gnu();
    header.set_entry_type(tar::EntryType::GNUSparse);
    header.set_size(size);
    header.as_gnu_mut().unwrap().isextended[0] = 1;
    if binary {
        header.as_gnu_mut().unwrap().size[0] |= 0x80;
    }
    header.set_cksum();
    let mut bytes = header.as_bytes().to_vec();
    bytes.extend(vec![0; 512]);
    bytes
}

#[test]
fn sizes_that_cannot_be_counted_with_are_refused() {
    let huge = sparse_archive(u64::MAX - 1023, true);
    assert!(holds_overrun(&huge));
    assert_eq!(
        extract_uv(&gzipped(&huge)).unwrap_err().message,
        "managed uv archive holds a sparse file of a size that cannot be read"
    );
    let small = sparse_archive(512, false);
    assert!(!holds_overrun(&small));
    assert!(extract_uv(&gzipped(&small)).is_err());
    let mut extended = sparse_archive(512, false);
    let mut header = tar::Header::new_ustar();
    header.set_entry_type(tar::EntryType::XHeader);
    extended.extend(header.as_bytes());
    assert!(holds_overrun(&extended));
    assert!(!holds_overrun(&unpacked_archive()));
    assert!(!holds_overrun(&huge[..511].to_vec()));
}
