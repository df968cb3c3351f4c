//! A runtime process: how it is started, what is known of it, and that it is stopped
//! once.
//!
//! Starting is a machine: it says what to do next, and is told how that went.
use vstd::prelude::*;

use crate::runtime::plan::ExternalRuntimePlan;
use crate::runtime::readiness::ReadyPhase;
use crate::text::compose::{copy_texts, opt_text, opt_texts, texts};

verus! {

/// How long a runtime gets to exit after it failed to become ready.
pub const FAILED_START_GRACE_MILLIS: u64 = 2000;

/// How long a runtime gets to exit when its handle is dropped.
pub const DROP_GRACE_MILLIS: u64 = 1000;

/// How a runtime process is started.
#[derive(Debug)]
pub struct RuntimeProcessOptions {
    pub log_path: String,
    pub env: Vec<(String, String)>,
    /// In nanoseconds.
    pub startup_timeout: u128,
    pub health_host: String,
}

/// What is known of a runtime process.
#[derive(Debug)]
pub struct RuntimeProcessInfo {
    pub pid: u32,
    pub port: u16,
    pub command: Vec<String>,
    pub log_path: String,
}

pub struct ProcessInfoView {
    pub pid: u32,
    pub port: u16,
    pub command: Seq<Seq<char>>,
    pub log_path: Seq<char>,
}

impl View for RuntimeProcessInfo {
    type V = ProcessInfoView;

    open spec fn view(&self) -> ProcessInfoView {
        ProcessInfoView {
            pid: self.pid,
            port: self.port,
            command: texts(self.command@),
            log_path: self.log_path@,
        }
    }
}

/// Why a runtime process did not start or stop. A `source` is what the system said.
#[derive(Debug)]
pub enum RuntimeProcessError {
    EmptyCommand,
    CreateLogDir { path: String, source: String },
    OpenLog { path: String, source: String },
    CloneLog { path: String, source: String },
    Spawn(String),
    EarlyExit,
    ReadyTimeout,
    StopHook(String),
    Interrupted,
}

pub enum ProcessErrorView {
    EmptyCommand,
    CreateLogDir { path: Seq<char>, source: Seq<char> },
    OpenLog { path: Seq<char>, source: Seq<char> },
    CloneLog { path: Seq<char>, source: Seq<char> },
    Spawn(Seq<char>),
    EarlyExit,
    ReadyTimeout,
    StopHook(Seq<char>),
    Interrupted,
}

impl View for RuntimeProcessError {
    type V = ProcessErrorView;

    open spec fn view(&self) -> ProcessErrorView {
        match self {
            RuntimeProcessError::EmptyCommand => ProcessErrorView::EmptyCommand,
            RuntimeProcessError::CreateLogDir { path, source } => {
                ProcessErrorView::CreateLogDir { path: path@, source: source@ }
            },
            RuntimeProcessError::OpenLog { path, source } => {
                ProcessErrorView::OpenLog { path: path@, source: source@ }
            },
            RuntimeProcessError::CloneLog { path, source } => {
                ProcessErrorView::CloneLog { path: path@, source: source@ }
            },
            RuntimeProcessError::Spawn(s) => ProcessErrorView::Spawn(s@),
            RuntimeProcessError::EarlyExit => ProcessErrorView::EarlyExit,
            RuntimeProcessError::ReadyTimeout => ProcessErrorView::ReadyTimeout,
            RuntimeProcessError::StopHook(s) => ProcessErrorView::StopHook(s@),
            RuntimeProcessError::Interrupted => ProcessErrorView::Interrupted,
        }
    }
}

/// What is said of an error.
pub open spec fn process_error_message(e: ProcessErrorView) -> Seq<char> {
    match e {
        ProcessErrorView::EmptyCommand => "runtime command is empty"@,
        ProcessErrorView::CreateLogDir { path, source } => {
            "failed to create runtime log directory "@ + path + ": "@ + source
        },
        ProcessErrorView::OpenLog { path, source } => {
            "failed to open runtime log "@ + path + ": "@ + source
        },
        ProcessErrorView::CloneLog { path, source } => {
            "failed to duplicate runtime log handle "@ + path + ": "@ + source
        },
        ProcessErrorView::Spawn(s) => "failed to spawn runtime process: "@ + s,
        ProcessErrorView::EarlyExit => "runtime exited before becoming ready"@,
        ProcessErrorView::ReadyTimeout => "runtime did not become ready in time"@,
        ProcessErrorView::StopHook(s) => "runtime stop hook failed: "@ + s,
        ProcessErrorView::Interrupted => "runtime startup was interrupted"@,
    }
}

fn told(about: &str, path: &str, source: &str) -> (r: String)
    ensures
        r@ == about@ + path@ + ": "@ + source@,
{
    about.to_owned().concat(path).concat(": ").concat(source)
}

impl RuntimeProcessError {
    /// What is said of the error.
    pub fn message(&self) -> (r: String)
        ensures
            r@ == process_error_message(self@),
    {
        match self {
            RuntimeProcessError::EmptyCommand => "runtime command is empty".to_owned(),
            RuntimeProcessError::CreateLogDir { path, source } => told(
                "failed to create runtime log directory ",
                path.as_str(),
                source.as_str(),
            ),
            RuntimeProcessError::OpenLog { path, source } => told(
                "failed to open runtime log ",
                path.as_str(),
                source.as_str(),
            ),
            RuntimeProcessError::CloneLog { path, source } => told(
                "failed to duplicate runtime log handle ",
                path.as_str(),
                source.as_str(),
            ),
            RuntimeProcessError::Spawn(s) => "failed to spawn runtime process: ".to_owned().concat(
                s.as_str(),
            ),
            RuntimeProcessError::EarlyExit => "runtime exited before becoming ready".to_owned(),
            RuntimeProcessError::ReadyTimeout => "runtime did not become ready in time".to_owned(),
            RuntimeProcessError::StopHook(s) => "runtime stop hook failed: ".to_owned().concat(
                s.as_str(),
            ),
            RuntimeProcessError::Interrupted => "runtime startup was interrupted".to_owned(),
        }
    }
}

/// What a start does next, or how it ended.
#[derive(Clone, Copy, Debug, PartialEq, Eq, Structural)]
pub enum StartPhase {
    /// Make the directory of the log, where its path has one.
    CreateLogDir,
    /// Open the log for appending.
    OpenLog,
    /// Get a second handle on the log.
    CloneLog,
    /// Start the process.
    Spawn,
    /// Watch until the process is ready.
    AwaitReady,
    /// End the process that did not become ready, whatever comes of it.
    Terminate,
    Started,
    Failed,
}

/// The start of a runtime process.
pub struct ProcessStart {
    pub phase: StartPhase,
    pub log_path: String,
    pub log_dir: Option<String>,
    pub pid: u32,
    pub error: Option<RuntimeProcessError>,
}

pub struct StartView {
    pub phase: StartPhase,
    pub log_path: Seq<char>,
    pub log_dir: Option<Seq<char>>,
    pub pid: u32,
    pub error: Option<ProcessErrorView>,
}

impl View for ProcessStart {
    type V = StartView;

    open spec fn view(&self) -> StartView {
        StartView {
            phase: self.phase,
            log_path: self.log_path@,
            log_dir: opt_text(self.log_dir),
            pid: self.pid,
            error: match self.error {
                Some(e) => Some(e@),
                None => None,
            },
        }
    }
}

/// How a step of a start went.
pub enum StartEvent {
    /// The step succeeded.
    Done,
    /// The step failed, and this is what the system said.
    SystemError(String),
    /// The process was started under this id.
    Spawned(u32),
    /// How the watch ended, and what was said where it failed.
    Watched(ReadyPhase, Option<String>),
}

pub enum StartEventView {
    Done,
    SystemError(Seq<char>),
    Spawned(u32),
    Watched(ReadyPhase, Option<Seq<char>>),
}

impl View for StartEvent {
    type V = StartEventView;

    open spec fn view(&self) -> StartEventView {
        match self {
            StartEvent::Done => StartEventView::Done,
            StartEvent::SystemError(s) => StartEventView::SystemError(s@),
            StartEvent::Spawned(pid) => StartEventView::Spawned(*pid),
            StartEvent::Watched(p, s) => StartEventView::Watched(*p, opt_text(*s)),
        }
    }
}

/// The beginning of a start.
pub open spec fn fresh_start(
    command: Seq<Seq<char>>,
    log_path: Seq<char>,
    log_dir: Option<Seq<char>>,
) -> StartView {
    StartView {
        phase: if command.len() == 0 {
            StartPhase::Failed
        } else if log_dir is Some {
            StartPhase::CreateLogDir
        } else {
            StartPhase::OpenLog
        },
        log_path,
        log_dir,
        pid: 0,
        error: if command.len() == 0 {
            Some(ProcessErrorView::EmptyCommand)
        } else {
            None
        },
    }
}

pub open spec fn start_failed(s: StartView, error: ProcessErrorView) -> StartView {
    StartView { phase: StartPhase::Failed, error: Some(error), ..s }
}

pub open spec fn to_terminate(s: StartView, error: ProcessErrorView) -> StartView {
    StartView { phase: StartPhase::Terminate, error: Some(error), ..s }
}

/// One step of a start. An event that does not answer what was asked changes nothing.
pub open spec fn start_step(s: StartView, e: StartEventView) -> StartView {
    match (s.phase, e) {
        (StartPhase::CreateLogDir, StartEventView::Done) => StartView {
            phase: StartPhase::OpenLog,
            ..s
        },
        (StartPhase::CreateLogDir, StartEventView::SystemError(source)) => start_failed(
            s,
            ProcessErrorView::CreateLogDir {
                path: match s.log_dir {
                    Some(d) => d,
                    None => s.log_path,
                },
                source,
            },
        ),
        (StartPhase::OpenLog, StartEventView::Done) => StartView {
            phase: StartPhase::CloneLog,
            ..s
        },
        (StartPhase::OpenLog, StartEventView::SystemError(source)) => start_failed(
            s,
            ProcessErrorView::OpenLog { path: s.log_path, source },
        ),
        (StartPhase::CloneLog, StartEventView::Done) => StartView { phase: StartPhase::Spawn, ..s },
        (StartPhase::CloneLog, StartEventView::SystemError(source)) => start_failed(
            s,
            ProcessErrorView::CloneLog { path: s.log_path, source },
        ),
        (StartPhase::Spawn, StartEventView::Spawned(pid)) => StartView {
            phase: StartPhase::AwaitReady,
            pid,
            ..s
        },
        (StartPhase::Spawn, StartEventView::SystemError(source)) => start_failed(
            s,
            ProcessErrorView::Spawn(source),
        ),
        (StartPhase::AwaitReady, StartEventView::Watched(phase, said)) => match phase {
            ReadyPhase::Ready => StartView { phase: StartPhase::Started, ..s },
            ReadyPhase::TimedOut => to_terminate(s, ProcessErrorView::ReadyTimeout),
            ReadyPhase::EarlyExit => to_terminate(s, ProcessErrorView::EarlyExit),
            ReadyPhase::PollFailed => to_terminate(
                s,
                ProcessErrorView::Spawn(
                    match said {
                        Some(m) => m,
                        None => seq![],
                    },
                ),
            ),
            _ => s,
        },
        (StartPhase::Terminate, StartEventView::Done) => StartView {
            phase: StartPhase::Failed,
            ..s
        },
        (StartPhase::Terminate, StartEventView::SystemError(_)) => StartView {
            phase: StartPhase::Failed,
            ..s
        },
        _ => s,
    }
}

fn or_empty(o: Option<String>) -> (r: String)
    ensures
        r@ == (match opt_text(o) {
            Some(s) => s,
            None => seq![],
        }),
{
    match o {
        Some(s) => s,
        None => {
            let r = String::new();
            assert(r@ =~= Seq::<char>::empty());
            r
        },
    }
}

impl ProcessStart {
    /// The beginning of a start; `log_dir` is the directory of the log.
    pub fn new(command: &Vec<String>, log_path: &str, log_dir: Option<String>) -> (r: ProcessStart)
        ensures
            r@ == fresh_start(texts(command@), log_path@, opt_text(log_dir)),
    {
        assert(texts(command@).len() == command@.len());
        let empty = command.len() == 0;
        let phase = if empty {
            StartPhase::Failed
        } else if log_dir.is_some() {
            StartPhase::CreateLogDir
        } else {
            StartPhase::OpenLog
        };
        let error = if empty {
            Some(RuntimeProcessError::EmptyCommand)
        } else {
            None
        };
        ProcessStart { phase, log_path: log_path.to_owned(), log_dir, pid: 0, error }
    }

    /// Tells the start how a step went.
    pub fn step(&mut self, event: StartEvent)
        ensures
            final(self)@ == start_step(old(self)@, event@),
    {
        match (self.phase, event) {
            (StartPhase::CreateLogDir, StartEvent::Done) => {
                self.phase = StartPhase::OpenLog;
            },
            (StartPhase::CreateLogDir, StartEvent::SystemError(source)) => {
                let path = match &self.log_dir {
                    Some(dir) => dir.as_str().to_owned(),
                    None => self.log_path.as_str().to_owned(),
                };
                self.phase = StartPhase::Failed;
                self.error = Some(RuntimeProcessError::CreateLogDir { path, source });
            },
            (StartPhase::OpenLog, StartEvent::Done) => {
                self.phase = StartPhase::CloneLog;
            },
            (StartPhase::OpenLog, StartEvent::SystemError(source)) => {
                let path = self.log_path.as_str().to_owned();
                self.phase = StartPhase::Failed;
                self.error = Some(RuntimeProcessError::OpenLog { path, source });
            },
            (StartPhase::CloneLog, StartEvent::Done) => {
                self.phase = StartPhase::Spawn;
            },
            (StartPhase::CloneLog, StartEvent::SystemError(source)) => {
                let path = self.log_path.as_str().to_owned();
                self.phase = StartPhase::Failed;
                self.error = Some(RuntimeProcessError::CloneLog { path, source });
            },
            (StartPhase::Spawn, StartEvent::Spawned(pid)) => {
                self.phase = StartPhase::AwaitReady;
                self.pid = pid;
            },
            (StartPhase::Spawn, StartEvent::SystemError(source)) => {
                self.phase = StartPhase::Failed;
                self.error = Some(RuntimeProcessError::Spawn(source));
            },
            (StartPhase::AwaitReady, StartEvent::Watched(phase, said)) => match phase {
                ReadyPhase::Ready => {
                    self.phase = StartPhase::Started;
                },
                ReadyPhase::TimedOut => {
                    self.phase = StartPhase::Terminate;
                    self.error = Some(RuntimeProcessError::ReadyTimeout);
                },
                ReadyPhase::EarlyExit => {
                    self.phase = StartPhase::Terminate;
                    self.error = Some(RuntimeProcessError::EarlyExit);
                },
                ReadyPhase::PollFailed => {
                    self.phase = StartPhase::Terminate;
                    self.error = Some(RuntimeProcessError::Spawn(or_empty(said)));
                },
                _ => {},
            },
            (StartPhase::Terminate, StartEvent::Done) => {
                self.phase = StartPhase::Failed;
            },
            (StartPhase::Terminate, StartEvent::SystemError(_)) => {
                self.phase = StartPhase::Failed;
            },
            _ => {},
        }
    }
}

/// What holds of a start in every state: it has an error exactly where it failed or is
/// about to fail.
pub open spec fn start_is_sound(s: StartView) -> bool {
    (s.error is Some) == (s.phase == StartPhase::Failed || s.phase == StartPhase::Terminate)
}

/// Soundness holds at the beginning and is kept by every step.
pub proof fn starts_stay_sound(
    s: StartView,
    e: StartEventView,
    command: Seq<Seq<char>>,
    log_path: Seq<char>,
    log_dir: Option<Seq<char>>,
)
    requires
        start_is_sound(s),
    ensures
        start_is_sound(start_step(s, e)),
        start_is_sound(fresh_start(command, log_path, log_dir)),
{
}

/// A process that was spawned is never left behind: the start ends with the process
/// ready, or it ends the process first.
pub proof fn a_spawned_process_is_ready_or_ended(s: StartView, e: StartEventView)
    requires
        s.phase == StartPhase::AwaitReady,
    ensures
        start_step(s, e).phase == StartPhase::AwaitReady || start_step(s, e).phase
            == StartPhase::Started || start_step(s, e).phase == StartPhase::Terminate,
        start_step(s, e).phase == StartPhase::Started ==> (e matches StartEventView::Watched(p, _)
            && p == ReadyPhase::Ready),
        start_step(s, e).pid == s.pid,
{
}

/// The failure that made a start end the process is the one that is reported, whatever
/// came of ending it.
pub proof fn ending_the_process_keeps_the_error(s: StartView, e: StartEventView)
    requires
        s.phase == StartPhase::Terminate,
    ensures
        start_step(s, e).error == s.error,
{
}

/// A runtime process that became ready.
pub struct RuntimeProcess {
    pub stop_command: Option<Vec<String>>,
    pub stopped: bool,
    pub info: RuntimeProcessInfo,
}

pub struct ProcessView {
    pub stop_command: Option<Seq<Seq<char>>>,
    pub stopped: bool,
    pub info: ProcessInfoView,
}

impl View for RuntimeProcess {
    type V = ProcessView;

    open spec fn view(&self) -> ProcessView {
        ProcessView {
            stop_command: opt_texts(self.stop_command),
            stopped: self.stopped,
            info: self.info@,
        }
    }
}

/// The process that a finished start leaves.
pub open spec fn started_process(
    plan: crate::runtime::plan::PlanView,
    start: StartView,
) -> ProcessView {
    ProcessView {
        stop_command: plan.stop_command,
        stopped: false,
        info: ProcessInfoView {
            pid: start.pid,
            port: plan.port,
            command: plan.command,
            log_path: start.log_path,
        },
    }
}

impl RuntimeProcess {
    /// What a start that has come to its end leaves: the process, or the error. A start
    /// that is still under way leaves nothing.
    pub fn start(plan: &ExternalRuntimePlan, start: ProcessStart) -> (r: Option<
        Result<RuntimeProcess, RuntimeProcessError>,
    >)
        ensures
            match r {
                None => start@.phase != StartPhase::Started && (start@.phase == StartPhase::Failed
                    ==> start@.error is None),
                Some(Ok(p)) => start@.phase == StartPhase::Started && p@ == started_process(
                    plan@,
                    start@,
                ),
                Some(Err(e)) => start@.phase == StartPhase::Failed && start@.error == Some(e@),
            },
    {
        match start.phase {
            StartPhase::Started => {
                let stop_command = match &plan.stop_command {
                    Some(command) => Some(copy_texts(command)),
                    None => None,
                };
                Some(
                    Ok(
                        RuntimeProcess {
                            stop_command,
                            stopped: false,
                            info: RuntimeProcessInfo {
                                pid: start.pid,
                                port: plan.port,
                                command: copy_texts(&plan.command),
                                log_path: start.log_path,
                            },
                        },
                    ),
                )
            },
            StartPhase::Failed => match start.error {
                Some(error) => Some(Err(error)),
                None => None,
            },
            _ => None,
        }
    }

    /// What is known of the process.
    pub fn info(&self) -> (r: &RuntimeProcessInfo)
        ensures
            *r == self.info,
    {
        &self.info
    }

    /// Whether the process has exited, given what looking at it gave: nothing where it
    /// runs, or what the system said where it could not be looked at.
    pub fn has_exited(&self, polled: Result<bool, String>) -> (r: Result<
        bool,
        RuntimeProcessError,
    >)
        ensures
            match (polled, r) {
                (Ok(exited), Ok(b)) => b == exited,
                (Err(said), Err(e)) => e@ == ProcessErrorView::Spawn(said@),
                _ => false,
            },
    {
        match polled {
            Ok(exited) => Ok(exited),
            Err(said) => Err(RuntimeProcessError::Spawn(said)),
        }
    }

    /// Whether a request to stop has anything to do. Once the process is known to have
    /// ended, it has not: neither the stop command nor a signal is used again.
    pub fn must_stop(&self) -> (r: bool)
        ensures
            r == !self@.stopped,
    {
        !self.stopped
    }

    /// Ends a request to stop: `exited` is whether the process is seen to have ended
    /// after it, and `result` what came of ending it, which is handed on.
    pub fn stop(&mut self, exited: bool, result: Result<(), RuntimeProcessError>) -> (r: Result<
        (),
        RuntimeProcessError,
    >)
        ensures
            final(self)@ == (ProcessView { stopped: old(self)@.stopped || exited, ..old(self)@ }),
            r == (if old(self)@.stopped {
                Ok(())
            } else {
                result
            }),
    {
        if self.stopped {
            return Ok(());
        }
        if exited {
            self.stopped = true;
        }
        result
    }
}

} // verus!
