//! Keeping a result: it appears at its place whole or not at all.
//!
//! The writing is a machine: it says what to do next, and is told how that went.
use vstd::prelude::*;

use crate::failure::Failure;

verus! {

/// What is done next, or how the writing ended.
#[derive(Clone, Copy, Debug, PartialEq, Eq, Structural)]
pub enum WritePhase {
    /// Look whether there is something at the place of the result.
    CheckDestination,
    /// Make the directory of the result.
    MakeDirectory,
    /// Keep others out of the directory of results.
    RestrictDirectory,
    /// Make a temporary file, which nobody else can have made.
    CreateTemporary,
    /// Write the result into it.
    WriteTemporary,
    /// Make sure that it is on the disk.
    SyncTemporary,
    /// Put it at the place of the result.
    Rename,
    /// Remove it again.
    RemoveTemporary,
    Finished,
    Failed,
}

/// How a step of the writing went.
#[derive(Debug)]
pub enum WriteEvent {
    /// Whether there is something at the place.
    Present(bool),
    /// The step was done.
    Done,
    /// The step failed, and this is what the system said.
    Broken(String),
}

/// The writing of a result.
#[derive(Debug)]
pub struct ResultWrite {
    pub phase: WritePhase,
    pub destination: String,
    /// Whether the place lies in a directory.
    pub has_parent: bool,
    /// Whether others are kept out of that directory.
    pub restricted: bool,
    /// Why the writing failed.
    pub error: Option<Failure>,
}

/// What the writing says.
#[verifier::ext_equal]
pub struct WriteView {
    pub phase: WritePhase,
    pub destination: Seq<char>,
    pub has_parent: bool,
    pub restricted: bool,
    pub error: Option<Seq<char>>,
}

impl View for ResultWrite {
    type V = WriteView;

    open spec fn view(&self) -> WriteView {
        WriteView {
            phase: self.phase,
            destination: self.destination@,
            has_parent: self.has_parent,
            restricted: self.restricted,
            error: match self.error {
                Some(e) => Some(e@),
                None => None,
            },
        }
    }
}

pub open spec fn in_write_phase(v: WriteView, phase: WritePhase) -> WriteView {
    WriteView { phase, ..v }
}

pub open spec fn write_failed(v: WriteView, reason: Seq<char>) -> WriteView {
    WriteView { phase: WritePhase::Failed, error: Some(reason), ..v }
}

/// Whether there is a temporary file.
pub open spec fn has_temporary(phase: WritePhase) -> bool {
    phase is WriteTemporary || phase is SyncTemporary || phase is Rename || phase
        is RemoveTemporary
}

/// What is done after a step that was done.
pub open spec fn next_phase(v: WriteView) -> WritePhase {
    match v.phase {
        WritePhase::MakeDirectory => if v.restricted {
            WritePhase::RestrictDirectory
        } else {
            WritePhase::CreateTemporary
        },
        WritePhase::RestrictDirectory => WritePhase::CreateTemporary,
        WritePhase::CreateTemporary => WritePhase::WriteTemporary,
        WritePhase::WriteTemporary => WritePhase::SyncTemporary,
        WritePhase::SyncTemporary => WritePhase::Rename,
        WritePhase::Rename => WritePhase::Finished,
        WritePhase::RemoveTemporary => WritePhase::Failed,
        phase => phase,
    }
}

/// One step of the writing. An event that does not answer what was asked changes nothing.
pub open spec fn write_after(v: WriteView, event: WriteEvent) -> WriteView {
    match (v.phase, event) {
        (WritePhase::Finished, _) => v,
        (WritePhase::Failed, _) => v,
        (WritePhase::CheckDestination, WriteEvent::Present(present)) => if present {
            write_failed(v, "benchmark result already exists: "@ + v.destination)
        } else if !v.has_parent {
            write_failed(v, "benchmark result path has no parent"@)
        } else {
            in_write_phase(v, WritePhase::MakeDirectory)
        },
        (WritePhase::CheckDestination, _) => v,
        (_, WriteEvent::Present(_)) => v,
        (_, WriteEvent::Done) => in_write_phase(v, next_phase(v)),
        (WritePhase::RemoveTemporary, WriteEvent::Broken(_)) => in_write_phase(
            v,
            WritePhase::Failed,
        ),
        (phase, WriteEvent::Broken(reason)) => if has_temporary(phase) {
            WriteView { phase: WritePhase::RemoveTemporary, error: Some(reason@), ..v }
        } else {
            write_failed(v, reason@)
        },
    }
}

impl ResultWrite {
    /// The writing of a result to a path. Others are kept out of the directory that the
    /// path leads into where that is the directory of results, on machines that can do so.
    pub fn new(
        destination: &str,
        has_parent: bool,
        in_results_dir: bool,
        can_restrict: bool,
    ) -> (r: ResultWrite)
        ensures
            r@ == (WriteView {
                phase: WritePhase::CheckDestination,
                destination: destination@,
                has_parent,
                restricted: can_restrict && in_results_dir,
                error: None,
            }),
    {
        ResultWrite {
            phase: WritePhase::CheckDestination,
            destination: destination.to_owned(),
            has_parent,
            restricted: can_restrict && in_results_dir,
            error: None,
        }
    }

    fn next(&self) -> (r: WritePhase)
        ensures
            r == next_phase(self@),
    {
        match self.phase {
            WritePhase::MakeDirectory => if self.restricted {
                WritePhase::RestrictDirectory
            } else {
                WritePhase::CreateTemporary
            },
            WritePhase::RestrictDirectory => WritePhase::CreateTemporary,
            WritePhase::CreateTemporary => WritePhase::WriteTemporary,
            WritePhase::WriteTemporary => WritePhase::SyncTemporary,
            WritePhase::SyncTemporary => WritePhase::Rename,
            WritePhase::Rename => WritePhase::Finished,
            WritePhase::RemoveTemporary => WritePhase::Failed,
            phase => phase,
        }
    }

    /// Tells how a step went.
    pub fn step(&mut self, event: WriteEvent)
        ensures
            final(self)@ == write_after(old(self)@, event),
    {
        let phase = self.phase;
        match (phase, event) {
            (WritePhase::Finished, _) => {},
            (WritePhase::Failed, _) => {},
            (WritePhase::CheckDestination, WriteEvent::Present(present)) => {
                if present {
                    self.error = Some(
                        Failure::about(
                            "benchmark result already exists: ",
                            self.destination.as_str(),
                        ),
                    );
                    self.phase = WritePhase::Failed;
                } else if !self.has_parent {
                    self.error = Some(Failure::new("benchmark result path has no parent"));
                    self.phase = WritePhase::Failed;
                } else {
                    self.phase = WritePhase::MakeDirectory;
                }
            },
            (WritePhase::CheckDestination, _) => {},
            (_, WriteEvent::Present(_)) => {},
            (_, WriteEvent::Done) => {
                self.phase = self.next();
            },
            (WritePhase::RemoveTemporary, WriteEvent::Broken(_)) => {
                self.phase = WritePhase::Failed;
            },
            (_, WriteEvent::Broken(reason)) => {
                self.error = Some(Failure { message: reason });
                self.phase = match phase {
                    WritePhase::WriteTemporary => WritePhase::RemoveTemporary,
                    WritePhase::SyncTemporary => WritePhase::RemoveTemporary,
                    WritePhase::Rename => WritePhase::RemoveTemporary,
                    _ => WritePhase::Failed,
                };
            },
        }
    }
}

/// A result that is there is never replaced: nothing is written before the place was
/// seen to be empty.
pub proof fn existing_results_are_kept(v: WriteView, event: WriteEvent)
    requires
        v.phase is CheckDestination,
    ensures
        event == WriteEvent::Present(true) ==> write_after(v, event).phase is Failed,
        !(write_after(v, event).phase is CheckDestination) && !(write_after(v, event).phase
            is Failed) ==> event == WriteEvent::Present(false),
{
}

/// A result appears only after all of it was written and is on the disk.
pub proof fn results_appear_whole(v: WriteView, event: WriteEvent)
    ensures
        write_after(v, event).phase is Finished && !(v.phase is Finished) ==> v.phase is Rename
            && event is Done,
        write_after(v, event).phase is Rename && !(v.phase is Rename) ==> v.phase is SyncTemporary
            && event is Done,
        write_after(v, event).phase is SyncTemporary && !(v.phase is SyncTemporary) ==> v.phase
            is WriteTemporary && event is Done,
{
}

/// Writing that fails once there is a temporary file removes that file before it ends,
/// and reports the first failure whatever comes of the removal.
pub proof fn failed_writes_leave_nothing(v: WriteView, event: WriteEvent)
    requires
        has_temporary(v.phase),
    ensures
        write_after(v, event).phase is Failed ==> v.phase is RemoveTemporary,
        v.phase is RemoveTemporary ==> write_after(v, event).error == v.error,
        event is Broken && !(v.phase is RemoveTemporary) ==> write_after(v, event).phase
            is RemoveTemporary && write_after(v, event).error is Some,
{
}

} // verus!
