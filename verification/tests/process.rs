use omniinfer::runtime::plan::{
    ExternalRuntimePlan, ExternalServerProtocol, RuntimeReadinessProbe,
};
use omniinfer::runtime::process::{
    ProcessStart, RuntimeProcess, RuntimeProcessError, StartEvent, StartPhase,
};
use omniinfer::runtime::readiness::{
    health_request, health_status_ok, LogScan, ReadyEvent, ReadyPhase, ReadyWatch,
};
use omniinfer::runtime::termination::{
    process_group_id, stop_hook_timeout, terminate_runtime, EndEvent, EndPhase, HookEvent,
    HookPhase, ProcessEnd, StopHook,
};

fn plan(stop_command: Option<Vec<String>>) -> ExternalRuntimePlan {
    ExternalRuntimePlan {
        command: vec!["server".to_string()],
        stop_command,
        cwd: "/".to_string(),
        port: 9000,
        ctx_size: None,
        log_file_name: "runtime.log".to_string(),
        proxy_model_ref: None,
        protocol: ExternalServerProtocol::LlamaCppServer,
        client_endpoint: "http://127.0.0.1:9000".to_string(),
        readiness_probe: RuntimeReadinessProbe::HttpHealth,
    }
}

fn started() -> ProcessStart {
    let mut start =
        ProcessStart::new(&vec!["server".to_string()], "/log/r.log", Some("/log".to_string()));
    start.step(StartEvent::Done);
    start.step(StartEvent::Done);
    start.step(StartEvent::Done);
    assert_eq!(start.phase, StartPhase::Spawn);
    start.step(StartEvent::Spawned(42));
    start
}

#[test]
fn a_process_starts_and_becomes_ready() {
    let mut start = started();
    start.step(StartEvent::Watched(ReadyPhase::Ready, None));
    let process = RuntimeProcess::start(&plan(None), start).unwrap().unwrap();
    assert_eq!(process.info().pid, 42);
    assert_eq!(process.info().port, 9000);
    assert!(process.must_stop());
    assert!(process.has_exited(Ok(true)).unwrap());
    assert!(process.has_exited(Err("lost".to_string())).is_err());
}

#[test]
fn a_process_that_does_not_become_ready_is_ended() {
    let mut start = started();
    start.step(StartEvent::Watched(ReadyPhase::EarlyExit, None));
    assert_eq!(start.phase, StartPhase::Terminate);
    start.step(StartEvent::SystemError("cannot end".to_string()));
    let result = RuntimeProcess::start(&plan(None), start).unwrap();
    assert!(matches!(result, Err(RuntimeProcessError::EarlyExit)));

    let mut start = started();
    start.step(StartEvent::Watched(ReadyPhase::TimedOut, None));
    start.step(StartEvent::Done);
    let result = RuntimeProcess::start(&plan(None), start).unwrap();
    assert!(matches!(result, Err(RuntimeProcessError::ReadyTimeout)));
}

#[test]
fn a_start_fails_with_its_step() {
    let start = ProcessStart::new(&Vec::new(), "/r.log", None);
    assert!(matches!(start.error, Some(RuntimeProcessError::EmptyCommand)));
    let mut start = ProcessStart::new(&vec!["x".to_string()], "/l/r.log", Some("/l".to_string()));
    start.step(StartEvent::SystemError("denied".to_string()));
    let error = match RuntimeProcess::start(&plan(None), start) {
        Some(Err(error)) => error,
        _ => panic!("started"),
    };
    assert!(error.message().contains("/l"));
    assert!(error.message().contains("denied"));
    let mut start = ProcessStart::new(&vec!["x".to_string()], "/r.log", None);
    start.step(StartEvent::SystemError("full".to_string()));
    assert!(matches!(start.error, Some(RuntimeProcessError::OpenLog { .. })));
}

#[test]
fn a_stopped_process_is_not_stopped_again() {
    let mut start = started();
    start.step(StartEvent::Watched(ReadyPhase::Ready, None));
    let mut process =
        RuntimeProcess::start(&plan(Some(vec!["stop".to_string()])), start).unwrap().unwrap();
    assert!(process.stop(true, Ok(())).is_ok());
    assert!(!process.must_stop());
}

#[test]
fn markers_are_found_across_pieces() {
    let mut scan = LogScan { cursor: 0, tail: Vec::new() };
    let marker = b"server is listening".to_vec();
    assert!(!scan.appended_log_contains(&b"... server is li".to_vec(), &marker));
    assert!(scan.appended_log_contains(&b"stening on 9000".to_vec(), &marker));
    assert_eq!(scan.cursor, 31);
    assert!(scan.appended_log_contains(&Vec::new(), &Vec::new()));
}

#[test]
fn a_watch_over_the_health_endpoint() {
    let mut watch = ReadyWatch::new(&RuntimeReadinessProbe::HttpHealth, 100, 0);
    watch.step(ReadyEvent::Clock(1));
    watch.step(ReadyEvent::Child(false));
    assert_eq!(watch.phase, ReadyPhase::AskHealth);
    watch.step(ReadyEvent::Health(false));
    watch.step(ReadyEvent::Paused);
    watch.step(ReadyEvent::Clock(2));
    watch.step(ReadyEvent::Child(false));
    watch.step(ReadyEvent::Health(true));
    assert_eq!(watch.phase, ReadyPhase::Ready);

    let mut late = ReadyWatch::new(&RuntimeReadinessProbe::HttpHealth, 100, 0);
    late.step(ReadyEvent::Clock(100));
    assert_eq!(late.phase, ReadyPhase::LastCheck);
    late.step(ReadyEvent::Child(true));
    assert_eq!(late.phase, ReadyPhase::EarlyExit);
}

#[test]
fn an_old_marker_does_not_count() {
    let probe = RuntimeReadinessProbe::TcpConnectAndLog { marker: "ready".to_string() };
    let mut watch = ReadyWatch::new(&probe, 100, 500);
    watch.step(ReadyEvent::Clock(1));
    watch.step(ReadyEvent::Child(false));
    assert_eq!(watch.phase, ReadyPhase::ReadLog);
    assert_eq!(watch.scan.cursor, 500);
    watch.step(ReadyEvent::Log(Some(b"starting".to_vec())));
    assert_eq!(watch.phase, ReadyPhase::Pause);
    watch.step(ReadyEvent::Paused);
    watch.step(ReadyEvent::Clock(2));
    watch.step(ReadyEvent::Child(false));
    watch.step(ReadyEvent::Log(Some(b"now ready".to_vec())));
    assert_eq!(watch.phase, ReadyPhase::Connect);
    watch.step(ReadyEvent::Connected(true));
    assert_eq!(watch.phase, ReadyPhase::Ready);
}

#[test]
fn health_is_asked_for_over_http() {
    assert!(health_request("127.0.0.1", 9000).starts_with("GET /health HTTP/1.1\r\n"));
    assert!(health_status_ok("HTTP/1.1 200 OK"));
    assert!(health_status_ok("HTTP/1.1 204 No Content"));
    assert!(!health_status_ok("HTTP/1.1 503 Service Unavailable"));
    assert!(!health_status_ok("nonsense"));
}

#[test]
fn a_process_is_asked_before_it_is_forced() {
    let mut end = ProcessEnd::new(false, 10);
    end.step(EndEvent::Child(false));
    assert_eq!(end.phase, EndPhase::AskToEnd);
    end.step(EndEvent::Done);
    end.step(EndEvent::Clock(10));
    assert_eq!(end.phase, EndPhase::Kill);
    let mut quick = ProcessEnd::new(false, 10);
    quick.step(EndEvent::Child(true));
    assert!(matches!(quick.result(), Some(Ok(()))));
}

#[test]
fn a_stop_command_is_given_its_time() {
    assert_eq!(stop_hook_timeout(1), 1);
    assert_eq!(stop_hook_timeout(60_000_000_000), 5_000_000_000);
    let mut hook = StopHook::new(&vec!["stop".to_string()], 10);
    hook.step(HookEvent::Done);
    hook.step(HookEvent::Running);
    hook.step(HookEvent::Clock(10));
    assert_eq!(hook.phase, HookPhase::Kill);
    hook.step(HookEvent::Done);
    assert_eq!(
        hook.error.unwrap().message(),
        "runtime stop hook failed: stop command timed out"
    );
    let mut failing = StopHook::new(&vec!["stop".to_string()], 10);
    failing.step(HookEvent::Done);
    failing.step(HookEvent::Unsuccessful {
        status: "exit code: 7".to_string(),
        stderr: " broken \n".to_string(),
    });
    assert_eq!(failing.error.unwrap().message(), "runtime stop hook failed: broken");
    assert!(StopHook::new(&Vec::new(), 10).error.is_some());
}

#[test]
fn both_endings_count() {
    let hook = || Err(RuntimeProcessError::StopHook("x".to_string()));
    assert!(terminate_runtime(Ok(()), Ok(())).is_ok());
    assert!(terminate_runtime(hook(), Ok(())).is_err());
    assert!(terminate_runtime(Ok(()), Err(RuntimeProcessError::EarlyExit)).is_err());
    assert_eq!(process_group_id(42), Some(42));
    assert_eq!(process_group_id(u32::MAX), None);
}
