use omniinfer::runtime::args::{
    extract_server_arg_value, find_managed, launch_args_have_ctx_size, merged_launch_args,
    with_server_arg,
};

fn texts(items: &[&str]) -> Vec<String> {
    items.iter().map(|item| item.to_string()).collect()
}

fn llama_context_args() {
    assert!(launch_args_have_ctx_size("llama.cpp", &texts(&["-c", "8192"])));
    assert!(launch_args_have_ctx_size("llama.cpp", &texts(&["--ctx-size=4096"])));
    assert!(!launch_args_have_ctx_size("llama.cpp", &texts(&["-ngl", "999"])));
}

fn vllm_context_args() {
    assert!(launch_args_have_ctx_size("vllm", &texts(&["--max-model-len=65536"])));
    assert!(!launch_args_have_ctx_size("vllm", &texts(&["--gpu-memory-utilization", "0.9"])));
}

fn official_launch_args() {
    let defaults = texts(&[
        "--slot-prompt-similarity",
        "0",
        "--cache-idle-slots",
        "--cache-ram",
        "8192",
    ]);
    let requested = texts(&["-np", "5", "--cache-ram", "32768"]);
    assert_eq!(
        merged_launch_args("llama.cpp-linux-cuda", "llama.cpp", &defaults, &Some(requested)),
        vec![
            "--slot-prompt-similarity",
            "0",
            "--cache-idle-slots",
            "--cache-ram",
            "8192",
            "-np",
            "5",
            "--cache-ram",
            "32768"
        ]
    );
    assert_eq!(
        merged_launch_args("llama.cpp-linux-cuda", "llama.cpp", &defaults, &None),
        defaults
    );
}

fn other_launch_args() {
    let defaults = texts(&["--jinja", "-ngl", "999"]);
    let requested = texts(&["-ngl", "12"]);
    assert_eq!(
        merged_launch_args(
            "ik_llama.cpp-linux-cuda",
            "llama.cpp",
            &defaults,
            &Some(requested.clone())
        ),
        requested
    );
}

#[test]
fn runtime_manager_detects_llama_context_args() {
    llama_context_args();
}

#[test]
fn tests_detects_llama_context_args() {
    llama_context_args();
}

#[test]
fn runtime_manager_detects_vllm_context_args() {
    vllm_context_args();
}

#[test]
fn tests_detects_vllm_context_args() {
    vllm_context_args();
}

#[test]
fn runtime_manager_official_llama_launch_args_extend_defaults_with_user_overrides_last() {
    official_launch_args();
}

#[test]
fn tests_official_llama_launch_args_extend_defaults_with_user_overrides_last() {
    official_launch_args();
}

#[test]
fn runtime_manager_non_official_llama_launch_args_keep_replacement_semantics() {
    other_launch_args();
}

#[test]
fn tests_non_official_llama_launch_args_keep_replacement_semantics() {
    other_launch_args();
}

#[test]
fn a_flag_that_is_set_is_read_back() {
    let flags = texts(&["-c", "--ctx-size"]);
    let args = texts(&["-ngl", "999", "--ctx-size", "2048", "--jinja"]);
    let set = with_server_arg(&args, &flags, "8192");
    assert_eq!(extract_server_arg_value(&set, &flags).as_deref(), Some("8192"));
    assert!(!set.contains(&"2048".to_string()));
    assert!(set.contains(&"--jinja".to_string()));
    let again = with_server_arg(&set, &flags, "4096");
    assert_eq!(extract_server_arg_value(&again, &flags).as_deref(), Some("4096"));
    assert_eq!(again.len(), set.len());
}

#[test]
fn managed_flags_are_found_in_both_forms() {
    assert_eq!(find_managed(&texts(&["-ngl", "9", "--port", "1"])).as_deref(), Some("--port"));
    assert!(find_managed(&texts(&["--host=0.0.0.0"])).is_some());
    assert_eq!(find_managed(&texts(&["--jinja", "-ngl", "9"])), None);
}
