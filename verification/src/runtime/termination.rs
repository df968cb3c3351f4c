//! How a runtime process is ended: first by its stop command where it has one, then by
//! signals, and by force where it does not go in time.
//!
//! Each part is a machine: it says what to do next, and is told how that went.
use vstd::prelude::*;

use crate::runtime::process::{ProcessErrorView, RuntimeProcessError};
use crate::text::compose::{opt_text, texts};
use crate::text::trim::{trim, trimmed};

verus! {

/// The longest time that a stop command gets, in nanoseconds.
pub const STOP_HOOK_LIMIT: u128 = 5_000_000_000;

/// How long to pause between two looks at a process that is to end.
pub const TERMINATE_PAUSE_MILLIS: u64 = 50;

/// How long to pause between two looks at a stop command.
pub const STOP_HOOK_PAUSE_MILLIS: u64 = 25;

/// What ending a process does next, or how it ended.
#[derive(Clone, Copy, Debug, PartialEq, Eq, Structural)]
pub enum EndPhase {
    /// Look whether the process has already exited.
    FirstLook,
    /// Ask the process and its descendants to end.
    AskToEnd,
    /// Look at the clock.
    CheckTime,
    /// Look whether the process has exited.
    CheckChild,
    /// Look whether the group of the process still has members.
    CheckGroup,
    /// Pause, then look at the clock again.
    Pause,
    /// Kill the whole group.
    KillGroup,
    /// Look whether the process has exited after that.
    LookAgain,
    /// Kill the process itself.
    Kill,
    /// Wait until the process is gone.
    Wait,
    Ended,
    Failed,
}

/// How a step of ending a process went.
pub enum EndEvent {
    /// Whether the process has exited.
    Child(bool),
    /// The step failed, and this is what the system said.
    SystemError(String),
    /// The time, in the unit of the deadline.
    Clock(u128),
    /// Whether the group still has members.
    Group(bool),
    /// The step was done.
    Done,
}

pub enum EndEventView {
    Child(bool),
    SystemError(Seq<char>),
    Clock(u128),
    Group(bool),
    Done,
}

impl View for EndEvent {
    type V = EndEventView;

    open spec fn view(&self) -> EndEventView {
        match self {
            EndEvent::Child(b) => EndEventView::Child(*b),
            EndEvent::SystemError(s) => EndEventView::SystemError(s@),
            EndEvent::Clock(t) => EndEventView::Clock(*t),
            EndEvent::Group(b) => EndEventView::Group(*b),
            EndEvent::Done => EndEventView::Done,
        }
    }
}

/// The ending of a process. Where processes come in groups the whole group is ended;
/// elsewhere the system ends the descendants along with the process.
pub struct ProcessEnd {
    pub phase: EndPhase,
    pub grouped: bool,
    pub deadline: u128,
    pub error: Option<String>,
}

pub struct EndView {
    pub phase: EndPhase,
    pub grouped: bool,
    pub deadline: u128,
    pub error: Option<Seq<char>>,
}

impl View for ProcessEnd {
    type V = EndView;

    open spec fn view(&self) -> EndView {
        EndView {
            phase: self.phase,
            grouped: self.grouped,
            deadline: self.deadline,
            error: opt_text(self.error),
        }
    }
}

pub open spec fn end_in(s: EndView, phase: EndPhase) -> EndView {
    EndView { phase, ..s }
}

/// One step of ending a process. An event that does not answer what was asked changes
/// nothing.
pub open spec fn end_step(s: EndView, e: EndEventView) -> EndView {
    match (s.phase, e) {
        (EndPhase::FirstLook, EndEventView::Child(exited)) => end_in(
            s,
            if exited && !s.grouped {
                EndPhase::Ended
            } else {
                EndPhase::AskToEnd
            },
        ),
        (EndPhase::AskToEnd, EndEventView::Done) => end_in(s, EndPhase::CheckTime),
        (EndPhase::CheckTime, EndEventView::Clock(now)) => end_in(
            s,
            if now < s.deadline {
                EndPhase::CheckChild
            } else if s.grouped {
                EndPhase::KillGroup
            } else {
                EndPhase::Kill
            },
        ),
        (EndPhase::CheckChild, EndEventView::Child(exited)) => end_in(
            s,
            if !exited {
                EndPhase::Pause
            } else if s.grouped {
                EndPhase::CheckGroup
            } else {
                EndPhase::Ended
            },
        ),
        (EndPhase::CheckGroup, EndEventView::Group(left)) => end_in(
            s,
            if left {
                EndPhase::Pause
            } else {
                EndPhase::Ended
            },
        ),
        (EndPhase::Pause, EndEventView::Done) => end_in(s, EndPhase::CheckTime),
        (EndPhase::KillGroup, EndEventView::Done) => end_in(s, EndPhase::LookAgain),
        (EndPhase::LookAgain, EndEventView::Child(exited)) => end_in(
            s,
            if exited {
                EndPhase::Wait
            } else {
                EndPhase::Kill
            },
        ),
        (EndPhase::Kill, EndEventView::Done) => end_in(s, EndPhase::Wait),
        (EndPhase::Wait, EndEventView::Done) => end_in(s, EndPhase::Ended),
        (EndPhase::Wait, EndEventView::SystemError(_)) => end_in(s, EndPhase::Ended),
        (EndPhase::FirstLook, EndEventView::SystemError(said))
        | (EndPhase::CheckChild, EndEventView::SystemError(said))
        | (EndPhase::LookAgain, EndEventView::SystemError(said))
        | (EndPhase::Kill, EndEventView::SystemError(said)) => EndView {
            phase: EndPhase::Failed,
            error: Some(said),
            ..s
        },
        _ => s,
    }
}

pub open spec fn fresh_end(grouped: bool, deadline: u128) -> EndView {
    EndView { phase: EndPhase::FirstLook, grouped, deadline, error: None }
}

impl ProcessEnd {
    /// The beginning of ending a process.
    pub fn new(grouped: bool, deadline: u128) -> (r: ProcessEnd)
        ensures
            r@ == fresh_end(grouped, deadline),
    {
        ProcessEnd { phase: EndPhase::FirstLook, grouped, deadline, error: None }
    }

    /// Tells how a step went.
    pub fn step(&mut self, event: EndEvent)
        ensures
            final(self)@ == end_step(old(self)@, event@),
    {
        match event {
            EndEvent::Child(exited) => match self.phase {
                EndPhase::FirstLook => {
                    self.phase = if exited && !self.grouped {
                        EndPhase::Ended
                    } else {
                        EndPhase::AskToEnd
                    };
                },
                EndPhase::CheckChild => {
                    self.phase = if !exited {
                        EndPhase::Pause
                    } else if self.grouped {
                        EndPhase::CheckGroup
                    } else {
                        EndPhase::Ended
                    };
                },
                EndPhase::LookAgain => {
                    self.phase = if exited {
                        EndPhase::Wait
                    } else {
                        EndPhase::Kill
                    };
                },
                _ => {},
            },
            EndEvent::Clock(now) => {
                if self.phase == EndPhase::CheckTime {
                    self.phase = if now < self.deadline {
                        EndPhase::CheckChild
                    } else if self.grouped {
                        EndPhase::KillGroup
                    } else {
                        EndPhase::Kill
                    };
                }
            },
            EndEvent::Group(left) => {
                if self.phase == EndPhase::CheckGroup {
                    self.phase = if left {
                        EndPhase::Pause
                    } else {
                        EndPhase::Ended
                    };
                }
            },
            EndEvent::Done => match self.phase {
                EndPhase::AskToEnd => {
                    self.phase = EndPhase::CheckTime;
                },
                EndPhase::Pause => {
                    self.phase = EndPhase::CheckTime;
                },
                EndPhase::KillGroup => {
                    self.phase = EndPhase::LookAgain;
                },
                EndPhase::Kill => {
                    self.phase = EndPhase::Wait;
                },
                EndPhase::Wait => {
                    self.phase = EndPhase::Ended;
                },
                _ => {},
            },
            EndEvent::SystemError(said) => match self.phase {
                EndPhase::Wait => {
                    self.phase = EndPhase::Ended;
                },
                EndPhase::FirstLook | EndPhase::CheckChild | EndPhase::LookAgain | EndPhase::Kill => {
                    self.phase = EndPhase::Failed;
                    self.error = Some(said);
                },
                _ => {},
            },
        }
    }

    /// What came of ending the process, once that is over.
    pub fn result(self) -> (r: Option<Result<(), RuntimeProcessError>>)
        ensures
            match r {
                Some(Ok(_)) => self@.phase == EndPhase::Ended,
                Some(Err(e)) => self@.phase == EndPhase::Failed && self@.error is Some && e@
                    == ProcessErrorView::Spawn(self@.error->0),
                None => self@.phase != EndPhase::Ended && (self@.phase == EndPhase::Failed
                    ==> self@.error is None),
            },
    {
        match self.phase {
            EndPhase::Ended => Some(Ok(())),
            EndPhase::Failed => match self.error {
                Some(said) => Some(Err(RuntimeProcessError::Spawn(said))),
                None => None,
            },
            _ => None,
        }
    }
}

/// A failure to end a process always comes with what the system said.
pub proof fn a_failed_end_has_its_error(s: EndView, e: EndEventView, deadline: u128)
    requires
        s.phase == EndPhase::Failed ==> s.error is Some,
    ensures
        end_step(s, e).phase == EndPhase::Failed ==> end_step(s, e).error is Some,
        fresh_end(s.grouped, deadline).phase != EndPhase::Failed,
{
}

/// Where processes come in groups, the group is asked to end even where the process
/// itself has already exited, and the end is reported only when no member is left or
/// everything was killed.
pub proof fn a_group_is_ended_with_its_process(s: EndView, e: EndEventView)
    requires
        s.grouped,
        s.phase != EndPhase::Ended,
    ensures
        s.phase == EndPhase::FirstLook && e is Child ==> end_step(s, e).phase == EndPhase::AskToEnd,
        end_step(s, e).phase == EndPhase::Ended ==> s.phase == EndPhase::Wait || (s.phase
            == EndPhase::CheckGroup && e == EndEventView::Group(false)),
{
}

/// Force is used only after the time is up, and the process is waited for after it.
pub proof fn force_comes_after_the_deadline(s: EndView, e: EndEventView)
    requires
        s.phase == EndPhase::CheckTime,
        end_step(s, e).phase == EndPhase::KillGroup || end_step(s, e).phase == EndPhase::Kill,
    ensures
        e matches EndEventView::Clock(now) && now >= s.deadline,
        end_step(end_in(s, EndPhase::Kill), EndEventView::Done).phase == EndPhase::Wait,
        end_step(end_in(s, EndPhase::LookAgain), EndEventView::Child(true)).phase
            == EndPhase::Wait,
{
}

/// The time that a stop command gets: the grace that the process gets, up to a limit.
pub fn stop_hook_timeout(grace: u128) -> (r: u128)
    ensures
        r == (if grace < STOP_HOOK_LIMIT {
            grace
        } else {
            STOP_HOOK_LIMIT
        }),
{
    if grace < STOP_HOOK_LIMIT {
        grace
    } else {
        STOP_HOOK_LIMIT
    }
}

/// What a stop command does next, or how it ended.
#[derive(Clone, Copy, Debug, PartialEq, Eq, Structural)]
pub enum HookPhase {
    /// Start the command.
    Spawn,
    /// Look whether it has ended.
    Check,
    /// Look at the clock.
    CheckTime,
    /// Pause, then look again.
    Pause,
    /// It is out of time: kill it and wait for it.
    Kill,
    Succeeded,
    Failed,
}

/// How a step of a stop command went.
pub enum HookEvent {
    /// The command was started or killed, or the pause is over.
    Done,
    /// The step failed, and this is what the system said.
    SystemError(String),
    /// It runs on.
    Running,
    /// It ended with success.
    Succeeded,
    /// It ended without success: its status, and what it wrote to its error output.
    Unsuccessful { status: String, stderr: String },
    /// The time, in the unit of the deadline.
    Clock(u128),
}

pub enum HookEventView {
    Done,
    SystemError(Seq<char>),
    Running,
    Succeeded,
    Unsuccessful { status: Seq<char>, stderr: Seq<char> },
    Clock(u128),
}

impl View for HookEvent {
    type V = HookEventView;

    open spec fn view(&self) -> HookEventView {
        match self {
            HookEvent::Done => HookEventView::Done,
            HookEvent::SystemError(s) => HookEventView::SystemError(s@),
            HookEvent::Running => HookEventView::Running,
            HookEvent::Succeeded => HookEventView::Succeeded,
            HookEvent::Unsuccessful { status, stderr } => HookEventView::Unsuccessful {
                status: status@,
                stderr: stderr@,
            },
            HookEvent::Clock(t) => HookEventView::Clock(*t),
        }
    }
}

/// The run of a stop command.
pub struct StopHook {
    pub phase: HookPhase,
    pub deadline: u128,
    pub error: Option<RuntimeProcessError>,
}

pub struct HookView {
    pub phase: HookPhase,
    pub deadline: u128,
    pub error: Option<ProcessErrorView>,
}

impl View for StopHook {
    type V = HookView;

    open spec fn view(&self) -> HookView {
        HookView {
            phase: self.phase,
            deadline: self.deadline,
            error: match self.error {
                Some(e) => Some(e@),
                None => None,
            },
        }
    }
}

/// What is said of a stop command that ended without success: what it wrote, or its
/// status where it wrote nothing.
pub open spec fn unsuccessful_detail(status: Seq<char>, stderr: Seq<char>) -> Seq<char> {
    if trimmed(stderr).len() == 0 {
        "command exited with "@ + status
    } else {
        trimmed(stderr)
    }
}

pub open spec fn hook_in(s: HookView, phase: HookPhase) -> HookView {
    HookView { phase, ..s }
}

pub open spec fn hook_failed(s: HookView, error: ProcessErrorView) -> HookView {
    HookView { phase: HookPhase::Failed, error: Some(error), ..s }
}

/// One step of a stop command. An event that does not answer what was asked changes
/// nothing.
pub open spec fn hook_step(s: HookView, e: HookEventView) -> HookView {
    match (s.phase, e) {
        (HookPhase::Spawn, HookEventView::Done) => hook_in(s, HookPhase::Check),
        (HookPhase::Spawn, HookEventView::SystemError(said)) => hook_failed(
            s,
            ProcessErrorView::Spawn(said),
        ),
        (HookPhase::Check, HookEventView::Running) => hook_in(s, HookPhase::CheckTime),
        (HookPhase::Check, HookEventView::Succeeded) => hook_in(s, HookPhase::Succeeded),
        (HookPhase::Check, HookEventView::Unsuccessful { status, stderr }) => hook_failed(
            s,
            ProcessErrorView::StopHook(unsuccessful_detail(status, stderr)),
        ),
        (HookPhase::Check, HookEventView::SystemError(said)) => hook_failed(
            s,
            ProcessErrorView::Spawn(said),
        ),
        (HookPhase::CheckTime, HookEventView::Clock(now)) => hook_in(
            s,
            if now >= s.deadline {
                HookPhase::Kill
            } else {
                HookPhase::Pause
            },
        ),
        (HookPhase::Pause, HookEventView::Done) => hook_in(s, HookPhase::Check),
        (HookPhase::Kill, HookEventView::Done) => hook_failed(
            s,
            ProcessErrorView::StopHook("stop command timed out"@),
        ),
        _ => s,
    }
}

/// The beginning of a stop command; one without a program fails at once.
pub open spec fn fresh_hook(command: Seq<Seq<char>>, deadline: u128) -> HookView {
    if command.len() == 0 {
        HookView {
            phase: HookPhase::Failed,
            deadline,
            error: Some(ProcessErrorView::StopHook("stop command is empty"@)),
        }
    } else {
        HookView { phase: HookPhase::Spawn, deadline, error: None }
    }
}

impl StopHook {
    /// The beginning of a stop command.
    pub fn new(command: &Vec<String>, deadline: u128) -> (r: StopHook)
        ensures
            r@ == fresh_hook(texts(command@), deadline),
    {
        assert(texts(command@).len() == command@.len());
        if command.len() == 0 {
            StopHook {
                phase: HookPhase::Failed,
                deadline,
                error: Some(RuntimeProcessError::StopHook("stop command is empty".to_owned())),
            }
        } else {
            StopHook { phase: HookPhase::Spawn, deadline, error: None }
        }
    }

    fn fail(&mut self, error: RuntimeProcessError)
        ensures
            final(self)@ == hook_failed(old(self)@, error@),
    {
        self.phase = HookPhase::Failed;
        self.error = Some(error);
    }

    /// Tells how a step went.
    pub fn step(&mut self, event: HookEvent)
        ensures
            final(self)@ == hook_step(old(self)@, event@),
    {
        match (self.phase, event) {
            (HookPhase::Spawn, HookEvent::Done) => {
                self.phase = HookPhase::Check;
            },
            (HookPhase::Spawn, HookEvent::SystemError(said)) => {
                self.fail(RuntimeProcessError::Spawn(said));
            },
            (HookPhase::Check, HookEvent::Running) => {
                self.phase = HookPhase::CheckTime;
            },
            (HookPhase::Check, HookEvent::Succeeded) => {
                self.phase = HookPhase::Succeeded;
            },
            (HookPhase::Check, HookEvent::Unsuccessful { status, stderr }) => {
                let written = trim(stderr.as_str());
                let detail = if written.as_str().is_empty() {
                    "command exited with ".to_owned().concat(status.as_str())
                } else {
                    written
                };
                self.fail(RuntimeProcessError::StopHook(detail));
            },
            (HookPhase::Check, HookEvent::SystemError(said)) => {
                self.fail(RuntimeProcessError::Spawn(said));
            },
            (HookPhase::CheckTime, HookEvent::Clock(now)) => {
                self.phase = if now >= self.deadline {
                    HookPhase::Kill
                } else {
                    HookPhase::Pause
                };
            },
            (HookPhase::Pause, HookEvent::Done) => {
                self.phase = HookPhase::Check;
            },
            (HookPhase::Kill, HookEvent::Done) => {
                self.fail(RuntimeProcessError::StopHook("stop command timed out".to_owned()));
            },
            _ => {},
        }
    }
}

/// A stop command is never left running: it is killed before it is given up.
pub proof fn a_stop_command_is_not_left_running(s: HookView, e: HookEventView)
    requires
        s.phase != HookPhase::Failed,
        hook_step(s, e).phase == HookPhase::Failed,
    ensures
        s.phase == HookPhase::Spawn || s.phase == HookPhase::Check || s.phase == HookPhase::Kill,
        s.phase == HookPhase::Kill ==> hook_step(s, e).error == Some(
            ProcessErrorView::StopHook("stop command timed out"@),
        ),
{
}

/// What came of ending a runtime: the process is ended whatever came of the stop
/// command, whose failure is the one that is told.
pub fn terminate_runtime(
    hook: Result<(), RuntimeProcessError>,
    child: Result<(), RuntimeProcessError>,
) -> (r: Result<(), RuntimeProcessError>)
    ensures
        r == (if hook is Err {
            hook
        } else {
            child
        }),
{
    match hook {
        Err(error) => Err(error),
        Ok(_) => child,
    }
}

/// The group that signals for a process go to: the process id, where it is a positive
/// 32-bit signed number.
pub fn process_group_id(pid: u32) -> (r: Option<i32>)
    ensures
        match r {
            Some(group) => group == pid && group > 0,
            None => pid == 0 || pid > i32::MAX,
        },
{
    if pid == 0 || pid > 0x7fff_ffff {
        None
    } else {
        Some(pid as i32)
    }
}

} // verus!
