//! How runtimes start, become ready and end, told from what is seen of them.
use vstd::prelude::*;

use crate::manager::retry::{
    retried, AttemptOutcome, ColdStartRetry, RetryEvent, WSL_ROCM_COLD_START_INITIAL_ATTEMPT,
    WSL_ROCM_COLD_START_RETRY_COOLDOWN, WSL_ROCM_COLD_START_RETRY_MINIMUM_BUDGET,
};
use crate::runtime::plan::PlanView;
use crate::runtime::process::{
    fresh_start, process_error_message, start_step, started_process, ProcessErrorView,
    StartEventView, StartView,
};
use crate::runtime::readiness::{
    bytes_occur, fresh_watch, health_request_text, reported_status, scanned, watched,
    ReadyEventView, ReadyPhase, ScanView, WatchView,
};
use crate::runtime::termination::{
    end_step, fresh_end, fresh_hook, hook_step, EndEventView, EndView, HookEventView, HookView,
    STOP_HOOK_LIMIT,
};
use crate::text::number::decimal;
use crate::text::pieces::words_of;
use crate::text::trim::trimmed;

verus! {

/// A runtime is called ready just where its health endpoint answers with success while it is
/// asked, or where a connection is made while one is tried.
pub proof fn readiness_is_seen(w: WatchView, e: ReadyEventView)
    requires
        !(w.phase is Ready),
    ensures
        watched(w, e).phase is Ready <==> (w.phase is AskHealth && e == ReadyEventView::Health(
            true,
        )) || (w.phase is Connect && e == ReadyEventView::Connected(true)),
{
}

/// A runtime is given up for want of time just where, once the deadline has come, its process
/// is still there; and for having ended just where its process is seen to have.
pub proof fn watches_are_given_up_for_a_reason(w: WatchView, e: ReadyEventView)
    requires
        !(w.phase is TimedOut) && !(w.phase is EarlyExit) && !(w.phase is PollFailed),
    ensures
        watched(w, e).phase is TimedOut <==> w.phase is LastCheck && e == ReadyEventView::Child(
            false,
        ),
        watched(w, e).phase is EarlyExit <==> (w.phase is LastCheck || w.phase is CheckChild) && e
            == ReadyEventView::Child(true),
        watched(w, e).phase is PollFailed <==> (w.phase is LastCheck || w.phase is CheckChild) && e
            is ChildFailed,
        watched(w, e).phase is PollFailed ==> watched(w, e).failure == Some(e->ChildFailed_0),
{
}

/// A look at the clock goes on before the deadline and not from the deadline on; a look at a
/// process that runs goes on to its log where a marker is waited for, and to its health where
/// none is; what is not there yet is waited for.
pub proof fn watches_go_on_until_the_deadline(w: WatchView, now: u128)
    ensures
        w.phase is CheckTime && now < w.deadline ==> watched(w, ReadyEventView::Clock(now)).phase
            is CheckChild,
        w.phase is CheckTime && now >= w.deadline ==> watched(w, ReadyEventView::Clock(now)).phase
            is LastCheck,
        w.phase is CheckChild && w.marker is Some ==> watched(w, ReadyEventView::Child(false)).phase
            is ReadLog,
        w.phase is CheckChild && w.marker is None ==> watched(w, ReadyEventView::Child(false)).phase
            is AskHealth,
        w.phase is AskHealth ==> watched(w, ReadyEventView::Health(false)).phase is Pause,
        w.phase is Connect ==> watched(w, ReadyEventView::Connected(false)).phase is Pause,
        w.phase is Pause ==> watched(w, ReadyEventView::Paused).phase is CheckTime,
{
}

/// A connection is tried just where the marker has been seen, in what was read now together
/// with the end of what was read before; a marker that was seen stays seen.
pub proof fn markers_come_before_connections(w: WatchView, read: Option<Seq<u8>>)
    requires
        w.phase is ReadLog,
        w.marker is Some,
        w.marker->0.len() > 0,
    ensures
        ({
            let next = watched(w, ReadyEventView::Log(read));
            let seen = w.seen || (read is Some && bytes_occur(
                w.scan.tail + read->0,
                w.marker->0,
            ));
            &&& next.seen == seen
            &&& seen ==> next.phase is Connect
            &&& !seen ==> next.phase is Pause
            &&& read is None ==> next.scan == w.scan
            &&& read matches Some(bytes) ==> w.scan.cursor + bytes.len() <= u64::MAX
                ==> next.scan.cursor == w.scan.cursor + bytes.len()
        }),
{
}

/// A watch begins by looking at the clock, at the place in the log that it is told, with
/// nothing seen.
pub proof fn watches_begin_afresh(marker: Option<Seq<u8>>, deadline: u128, log_start: u64)
    ensures
        ({
            let w = fresh_watch(marker, deadline, log_start);
            &&& w.phase is CheckTime
            &&& w.deadline == deadline
            &&& w.marker == marker
            &&& w.scan.cursor == log_start
            &&& w.scan.tail.len() == 0
            &&& !w.seen
            &&& w.failure is None
        }),
{
}

/// The request for the health of a runtime goes to that host and port; and an answer counts
/// by its second word.
pub proof fn health_is_asked_of_the_runtime(host: Seq<char>, port: u16, line: Seq<char>, n: nat)
    requires
        n <= 65535,
    ensures
        health_request_text(host, port) == "GET /health HTTP/1.1\r\nHost: "@ + host + ":"@
            + decimal(port as nat) + "\r\nConnection: close\r\n\r\n"@,
        words_of(line).len() >= 2 && words_of(line)[1] == decimal(n) ==> reported_status(line)
            == Some(n),
        words_of(line).len() < 2 ==> reported_status(line) is None,
{
    crate::text::number::parsing_undoes_showing(n, u16::MAX as nat);
}

/// A start makes the directory of the log where there is one, opens the log, starts the
/// process and watches it, in this order; without a command it fails at once.
pub proof fn starts_go_in_order(
    s: StartView,
    command: Seq<Seq<char>>,
    log_path: Seq<char>,
    log_dir: Option<Seq<char>>,
    pid: u32,
)
    ensures
        ({
            let begun = fresh_start(command, log_path, log_dir);
            &&& begun.log_path == log_path
            &&& begun.log_dir == log_dir
            &&& command.len() == 0 ==> begun.phase is Failed && begun.error
                == Some(ProcessErrorView::EmptyCommand)
            &&& command.len() > 0 && log_dir is Some ==> begun.phase is CreateLogDir
                && begun.error is None
            &&& command.len() > 0 && log_dir is None ==> begun.phase is OpenLog && begun.error
                is None
        }),
        s.phase is CreateLogDir ==> start_step(s, StartEventView::Done).phase is OpenLog,
        s.phase is OpenLog ==> start_step(s, StartEventView::Done).phase is CloneLog,
        s.phase is CloneLog ==> start_step(s, StartEventView::Done).phase is Spawn,
        s.phase is Spawn ==> start_step(s, StartEventView::Spawned(pid)).phase is AwaitReady
            && start_step(s, StartEventView::Spawned(pid)).pid == pid,
        s.phase is AwaitReady ==> start_step(
            s,
            StartEventView::Watched(ReadyPhase::Ready, None),
        ).phase is Started,
{
}

/// A start that fails tells what failed: the directory or the log with its path, the process,
/// its early end, or the time that it took.
pub proof fn failed_starts_tell_what_failed(
    s: StartView,
    said: Seq<char>,
    dir: Seq<char>,
)
    ensures
        s.phase is CreateLogDir && s.log_dir == Some(dir) ==> start_step(
            s,
            StartEventView::SystemError(said),
        ).error == Some(ProcessErrorView::CreateLogDir { path: dir, source: said }),
        s.phase is OpenLog ==> start_step(s, StartEventView::SystemError(said)).error == Some(
            ProcessErrorView::OpenLog { path: s.log_path, source: said },
        ),
        s.phase is CloneLog ==> start_step(s, StartEventView::SystemError(said)).error == Some(
            ProcessErrorView::CloneLog { path: s.log_path, source: said },
        ),
        s.phase is Spawn ==> start_step(s, StartEventView::SystemError(said)).error == Some(
            ProcessErrorView::Spawn(said),
        ),
        s.phase is CreateLogDir || s.phase is OpenLog || s.phase is CloneLog || s.phase is Spawn
            ==> start_step(s, StartEventView::SystemError(said)).phase is Failed,
        s.phase is AwaitReady ==> {
            &&& start_step(s, StartEventView::Watched(ReadyPhase::TimedOut, None)).error == Some(
                ProcessErrorView::ReadyTimeout,
            )
            &&& start_step(s, StartEventView::Watched(ReadyPhase::EarlyExit, None)).error == Some(
                ProcessErrorView::EarlyExit,
            )
            &&& start_step(
                s,
                StartEventView::Watched(ReadyPhase::PollFailed, Some(said)),
            ).error == Some(ProcessErrorView::Spawn(said))
            &&& start_step(s, StartEventView::Watched(ReadyPhase::TimedOut, None)).phase
                is Terminate
            &&& start_step(s, StartEventView::Watched(ReadyPhase::EarlyExit, None)).phase
                is Terminate
            &&& start_step(
                s,
                StartEventView::Watched(ReadyPhase::PollFailed, Some(said)),
            ).phase is Terminate
        },
        s.phase is Terminate ==> start_step(s, StartEventView::Done).phase is Failed,
{
}

/// What a start leaves is the process that was started, for the plan that it was started for.
pub proof fn started_processes_are_those_of_their_plan(plan: PlanView, start: StartView)
    ensures
        started_process(plan, start).info.pid == start.pid,
        started_process(plan, start).info.port == plan.port,
        started_process(plan, start).info.command == plan.command,
        started_process(plan, start).info.log_path == start.log_path,
        started_process(plan, start).stop_command == plan.stop_command,
        !started_process(plan, start).stopped,
{
}

/// The end of a process that is not one of a group is told where it has exited; the end of a
/// group where it has no member left; and of either after it was killed and waited for.
pub proof fn ends_are_seen(s: EndView, e: EndEventView)
    requires
        !(s.phase is Ended),
    ensures
        end_step(s, e).phase is Ended <==> {
            ||| !s.grouped && (s.phase is FirstLook || s.phase is CheckChild) && e
                == EndEventView::Child(true)
            ||| s.phase is CheckGroup && e == EndEventView::Group(false)
            ||| s.phase is Wait && (e is Done || e is SystemError)
        },
        end_step(s, e).grouped == s.grouped,
        end_step(s, e).deadline == s.deadline,
{
}

/// A process is asked to end first, and killed from the deadline on, with its group where it
/// has one; until then it is looked at again and again.
pub proof fn processes_are_asked_before_they_are_killed(s: EndView, now: u128)
    ensures
        s.phase is FirstLook ==> end_step(s, EndEventView::Child(false)).phase is AskToEnd,
        s.phase is AskToEnd ==> end_step(s, EndEventView::Done).phase is CheckTime,
        s.phase is CheckTime && now < s.deadline ==> end_step(s, EndEventView::Clock(now)).phase
            is CheckChild,
        s.phase is CheckTime && now >= s.deadline && s.grouped ==> end_step(
            s,
            EndEventView::Clock(now),
        ).phase is KillGroup,
        s.phase is CheckTime && now >= s.deadline && !s.grouped ==> end_step(
            s,
            EndEventView::Clock(now),
        ).phase is Kill,
        s.phase is CheckChild ==> end_step(s, EndEventView::Child(false)).phase is Pause,
        s.phase is CheckChild && s.grouped ==> end_step(s, EndEventView::Child(true)).phase
            is CheckGroup,
        s.phase is CheckGroup ==> end_step(s, EndEventView::Group(true)).phase is Pause,
        s.phase is Pause ==> end_step(s, EndEventView::Done).phase is CheckTime,
        s.phase is KillGroup ==> end_step(s, EndEventView::Done).phase is LookAgain,
        s.phase is LookAgain ==> end_step(s, EndEventView::Child(true)).phase is Wait,
        s.phase is LookAgain ==> end_step(s, EndEventView::Child(false)).phase is Kill,
        s.phase is Kill ==> end_step(s, EndEventView::Done).phase is Wait,
        ({
            let begun = fresh_end(s.grouped, now);
            begun.phase is FirstLook && begun.deadline == now && begun.grouped == s.grouped
                && begun.error is None
        }),
{
}

/// An attempt to end a process fails just where it cannot be looked at or killed, with what
/// the system said.
pub proof fn failed_ends_tell_what_was_said(s: EndView, e: EndEventView)
    requires
        !(s.phase is Failed),
    ensures
        end_step(s, e).phase is Failed <==> e is SystemError && (s.phase is FirstLook || s.phase
            is CheckChild || s.phase is LookAgain || s.phase is Kill),
        end_step(s, e).phase is Failed ==> end_step(s, e).error == Some(e->SystemError_0),
{
}

/// A stop command succeeds just where it is seen to have succeeded, and fails with what it
/// wrote, with its status where it wrote nothing, or for want of time.
pub proof fn stop_commands_tell_how_they_ended(
    s: HookView,
    e: HookEventView,
    status: Seq<char>,
    stderr: Seq<char>,
)
    ensures
        !(s.phase is Succeeded) ==> (hook_step(s, e).phase is Succeeded <==> s.phase is Check && e
            is Succeeded),
        s.phase is Check ==> {
            let next = hook_step(s, HookEventView::Unsuccessful { status, stderr });
            &&& next.phase is Failed
            &&& trimmed(stderr).len() > 0 ==> next.error == Some(
                ProcessErrorView::StopHook(trimmed(stderr)),
            )
            &&& trimmed(stderr).len() == 0 ==> next.error == Some(
                ProcessErrorView::StopHook("command exited with "@ + status),
            )
        },
        s.phase is Spawn || s.phase is Check ==> hook_step(
            s,
            HookEventView::SystemError(stderr),
        ).error == Some(ProcessErrorView::Spawn(stderr)),
        s.phase is Spawn || s.phase is Check ==> hook_step(
            s,
            HookEventView::SystemError(stderr),
        ).phase is Failed,
{
}

/// A stop command is watched until its deadline, and killed from then on; one without a
/// program fails at once.
pub proof fn stop_commands_are_killed_in_the_end(
    s: HookView,
    now: u128,
    command: Seq<Seq<char>>,
)
    ensures
        s.phase is Spawn ==> hook_step(s, HookEventView::Done).phase is Check,
        s.phase is Check ==> hook_step(s, HookEventView::Running).phase is CheckTime,
        s.phase is CheckTime && now < s.deadline ==> hook_step(s, HookEventView::Clock(now)).phase
            is Pause,
        s.phase is CheckTime && now >= s.deadline ==> hook_step(s, HookEventView::Clock(now)).phase
            is Kill,
        s.phase is Pause ==> hook_step(s, HookEventView::Done).phase is Check,
        s.phase is Kill ==> hook_step(s, HookEventView::Done).phase is Failed,
        fresh_hook(command, now).deadline == now,
        command.len() > 0 ==> fresh_hook(command, now).phase is Spawn && fresh_hook(
            command,
            now,
        ).error is None,
        command.len() == 0 ==> fresh_hook(command, now).phase is Failed && fresh_hook(
            command,
            now,
        ).error == Some(ProcessErrorView::StopHook("stop command is empty"@)),
        STOP_HOOK_LIMIT == 5_000_000_000,
{
}

/// What is said of an error holds what the system said, and the path where there is one.
pub proof fn errors_hold_what_was_said(path: Seq<char>, said: Seq<char>)
    ensures
        process_error_message(ProcessErrorView::CreateLogDir { path, source: said })
            == "failed to create runtime log directory "@ + path + ": "@ + said,
        process_error_message(ProcessErrorView::OpenLog { path, source: said })
            == "failed to open runtime log "@ + path + ": "@ + said,
        process_error_message(ProcessErrorView::CloneLog { path, source: said })
            == "failed to duplicate runtime log handle "@ + path + ": "@ + said,
        process_error_message(ProcessErrorView::Spawn(said)) == "failed to spawn runtime process: "@
            + said,
        process_error_message(ProcessErrorView::StopHook(said)) == "runtime stop hook failed: "@
            + said,
        process_error_message(ProcessErrorView::EarlyExit)
            == "runtime exited before becoming ready"@,
        process_error_message(ProcessErrorView::ReadyTimeout)
            == "runtime did not become ready in time"@,
        process_error_message(ProcessErrorView::Interrupted) == "runtime startup was interrupted"@,
        process_error_message(ProcessErrorView::EmptyCommand) == "runtime command is empty"@,
{
}

/// There is a second attempt just where the first one took too long and more time is left than
/// the pause takes; it gets all the time that is left after the pause.
pub proof fn second_attempts_follow_a_timeout(
    s: ColdStartRetry,
    outcome: AttemptOutcome,
    elapsed: u128,
)
    ensures
        s.phase is FirstAttempt ==> (retried(
            s,
            RetryEvent::Attempted { outcome, elapsed },
        ).phase is Cooldown <==> outcome is ReadyTimeout && elapsed + s.cooldown
            < s.total_timeout),
        s.phase is CheckTime ==> (retried(s, RetryEvent::Elapsed(elapsed)).phase is SecondAttempt
            <==> elapsed < s.total_timeout),
        s.phase is CheckTime && elapsed >= s.total_timeout ==> retried(
            s,
            RetryEvent::Elapsed(elapsed),
        ).phase is ReadyTimeout,
        s.phase is Cooldown ==> retried(
            s,
            RetryEvent::Cooling { over: false, cancelled: true },
        ).phase is Interrupted,
        s.phase is Cooldown ==> retried(
            s,
            RetryEvent::Cooling { over: true, cancelled: false },
        ).phase is CheckTime,
        s.phase is Cooldown ==> retried(
            s,
            RetryEvent::Cooling { over: false, cancelled: false },
        ).phase is Cooldown,
        s.phase is SecondAttempt ==> {
            let next = retried(s, RetryEvent::Attempted { outcome, elapsed });
            &&& outcome is Ready <==> next.phase is Ready
            &&& outcome is ReadyTimeout <==> next.phase is ReadyTimeout
            &&& outcome is OtherFailure <==> next.phase is OtherFailure
        },
        s.phase is FirstAttempt && outcome is Ready ==> retried(
            s,
            RetryEvent::Attempted { outcome, elapsed },
        ).phase is Ready,
        s.phase is FirstAttempt && outcome is OtherFailure ==> retried(
            s,
            RetryEvent::Attempted { outcome, elapsed },
        ).phase is OtherFailure,
        WSL_ROCM_COLD_START_RETRY_MINIMUM_BUDGET == 360_000_000_000,
        WSL_ROCM_COLD_START_INITIAL_ATTEMPT == 120_000_000_000,
        WSL_ROCM_COLD_START_RETRY_COOLDOWN == 90_000_000_000,
{
}

/// A look into the log goes on where the last one ended. As long as the marker is not seen, no
/// more of the log is kept than could be the beginning of one, and that is its end.
pub proof fn logs_are_read_on_where_they_ended(s: ScanView, appended: Seq<u8>, marker: Seq<u8>)
    requires
        s.cursor + appended.len() <= u64::MAX,
        marker.len() > 0,
    ensures
        ({
            let after = scanned(s, appended, marker);
            let all = s.tail + appended;
            let n = after.tail.len();
            &&& after.cursor == s.cursor + appended.len()
            &&& n <= all.len() && after.tail == all.skip(all.len() - n)
            &&& !bytes_occur(all, marker) ==> n < marker.len() && (n == all.len() || n
                == marker.len() - 1)
        }),
{
    let all = s.tail + appended;
    assert(all.skip(0) =~= all);
}

} // verus!
