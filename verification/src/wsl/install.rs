//! Installing a managed runtime inside a distribution.
use vstd::prelude::*;

use crate::failure::Failure;
use crate::text::bytes::bytes_of;
use crate::text::chars::text_eq;
use crate::text::compose::{opt_text, texts};
use crate::text::search::{cut_last, rsplit_once};
use crate::wsl::catalog::{PinnedAsset, PythonRuntimeEntry, PythonRuntimeVariant};
use crate::wsl::commands::{
    as_user, no_args, user_command, Args, CommandInput, CommandView, InputView, WslCommand,
};
use crate::wsl::scripts::{
    environment_for, runtime_environment, ACTIVATE_SCRIPT, ROCM_PLATFORM_PLUGIN,
    ROCM_PLATFORM_PLUGIN_ENTRY_POINTS, ROCM_PLATFORM_PLUGIN_METADATA, ROLLBACK_SCRIPT,
    RUNNER_SCRIPT, STOPPER_SCRIPT,
};

verus! {

/// What is found out before anything is installed, and what follows from it.
#[derive(Clone, Copy, Debug, PartialEq, Eq, Structural)]
pub enum InstallDecision {
    /// Whether the manifest is the expected one.
    CheckManifest,
    /// Whether the system runtime fits.
    CheckSystem,
    /// Whether the runtime works.
    CheckRuntime,
    /// It is installed and works.
    AlreadyInstalled,
    /// It is only said what would be done.
    DryRun,
    /// It is installed.
    Install,
}

/// What follows from an answer.
pub open spec fn decision_after(d: InstallDecision, answer: bool, dry_run: bool) -> InstallDecision {
    match d {
        InstallDecision::AlreadyInstalled => d,
        InstallDecision::DryRun => d,
        InstallDecision::Install => d,
        _ => if !answer {
            if dry_run {
                InstallDecision::DryRun
            } else {
                InstallDecision::Install
            }
        } else {
            match d {
                InstallDecision::CheckManifest => InstallDecision::CheckSystem,
                InstallDecision::CheckSystem => InstallDecision::CheckRuntime,
                _ => InstallDecision::AlreadyInstalled,
            }
        },
    }
}

impl InstallDecision {
    /// What follows from an answer.
    pub fn step(self, answer: bool, dry_run: bool) -> (r: InstallDecision)
        ensures
            r == decision_after(self, answer, dry_run),
    {
        match self {
            InstallDecision::AlreadyInstalled => InstallDecision::AlreadyInstalled,
            InstallDecision::DryRun => InstallDecision::DryRun,
            InstallDecision::Install => InstallDecision::Install,
            _ => if !answer {
                if dry_run {
                    InstallDecision::DryRun
                } else {
                    InstallDecision::Install
                }
            } else {
                match self {
                    InstallDecision::CheckManifest => InstallDecision::CheckSystem,
                    InstallDecision::CheckSystem => InstallDecision::CheckRuntime,
                    _ => InstallDecision::AlreadyInstalled,
                }
            },
        }
    }
}

/// A dry run never leads to an installation, and neither does a runtime that is installed
/// as expected, on a system that fits, and works.
pub proof fn a_dry_run_installs_nothing(d: InstallDecision, answer: bool, dry_run: bool)
    requires
        !(d is Install),
        dry_run || answer,
    ensures
        !(decision_after(d, answer, dry_run) is Install),
{
}

/// A runtime counts as installed only where all three answers were yes.
pub proof fn an_installed_runtime_was_checked(a: bool, b: bool, c: bool, dry_run: bool)
    ensures
        decision_after(
            decision_after(decision_after(InstallDecision::CheckManifest, a, dry_run), b, dry_run),
            c,
            dry_run,
        ) is AlreadyInstalled <==> a && b && c,
{
}

/// What an installation works with.
#[derive(Debug)]
pub struct InstallPlan {
    pub base: String,
    pub current: String,
    pub staging: String,
    pub backup: String,
    pub uv: String,
    pub backend: String,
    pub python: String,
    pub requirement: String,
    pub accelerator: String,
    pub torch_backend: String,
    pub index_url: Option<String>,
}

/// What a plan says.
#[verifier::ext_equal]
pub struct InstallPlanView {
    pub base: Seq<char>,
    pub current: Seq<char>,
    pub staging: Seq<char>,
    pub backup: Seq<char>,
    pub uv: Seq<char>,
    pub backend: Seq<char>,
    pub python: Seq<char>,
    pub requirement: Seq<char>,
    pub accelerator: Seq<char>,
    pub torch_backend: Seq<char>,
    pub index_url: Option<Seq<char>>,
}

impl View for InstallPlan {
    type V = InstallPlanView;

    open spec fn view(&self) -> InstallPlanView {
        InstallPlanView {
            base: self.base@,
            current: self.current@,
            staging: self.staging@,
            backup: self.backup@,
            uv: self.uv@,
            backend: self.backend@,
            python: self.python@,
            requirement: self.requirement@,
            accelerator: self.accelerator@,
            torch_backend: self.torch_backend@,
            index_url: opt_text(self.index_url),
        }
    }
}

/// What an installation under a directory works with; the suffix tells it from others.
pub open spec fn install_plan(
    backend: Seq<char>,
    base: Seq<char>,
    entry: PythonRuntimeEntry,
    uv: PinnedAsset,
    variant: PythonRuntimeVariant,
    torch_backend: Seq<char>,
    suffix: Seq<char>,
) -> InstallPlanView {
    InstallPlanView {
        base,
        current: base + "/current"@,
        staging: base + "/installing-"@ + suffix,
        backup: base + "/backup-"@ + suffix,
        uv: base + "/tools/uv-"@ + uv.version@,
        backend,
        python: entry.python@,
        requirement: variant.url@ + "#sha256="@ + variant.sha256@,
        accelerator: variant.accelerator@,
        torch_backend,
        index_url: opt_text(variant.index_url),
    }
}

/// What an installation under a directory works with; the suffix tells it from others.
pub fn plan_install(
    backend: &str,
    base: &str,
    entry: &PythonRuntimeEntry,
    uv: &PinnedAsset,
    variant: &PythonRuntimeVariant,
    torch_backend: &str,
    suffix: &str,
) -> (r: InstallPlan)
    ensures
        r@ == install_plan(backend@, base@, *entry, *uv, *variant, torch_backend@, suffix@),
{
    InstallPlan {
        base: base.to_owned(),
        current: base.to_owned().concat("/current"),
        staging: base.to_owned().concat("/installing-").concat(suffix),
        backup: base.to_owned().concat("/backup-").concat(suffix),
        uv: base.to_owned().concat("/tools/uv-").concat(uv.version.as_str()),
        backend: backend.to_owned(),
        python: entry.python.as_str().to_owned(),
        requirement: variant.url.as_str().to_owned().concat("#sha256=").concat(
            variant.sha256.as_str(),
        ),
        accelerator: variant.accelerator.as_str().to_owned(),
        torch_backend: torch_backend.to_owned(),
        index_url: crate::text::compose::copy_opt(&variant.index_url),
    }
}

/// What tells installations apart: whether a system runtime is set up first, and whether
/// the runtime is for ROCm.
#[derive(Clone, Copy, Debug, PartialEq, Eq, Structural)]
pub struct InstallKind {
    pub system: bool,
    pub rocm: bool,
}

/// The kind of installation that a variant takes.
pub fn install_kind(variant: &PythonRuntimeVariant) -> (r: InstallKind)
    ensures
        r.system == (variant.rocm_system is Some),
        r.rocm == (variant.accelerator@ == "rocm"@),
{
    InstallKind {
        system: variant.rocm_system.is_some(),
        rocm: text_eq(variant.accelerator.as_str(), "rocm"),
    }
}

/// How far an installation has come: what is done next, or how it ended.
#[derive(Clone, Copy, Debug, PartialEq, Eq, Structural)]
pub enum InstallStage {
    /// Makes the directory on the side of Windows.
    MakeRuntimeDirectory,
    /// Keeps other installations out.
    AcquireLock,
    /// Makes sure that the runtime is not in use.
    CheckIdle,
    DownloadUv,
    ExtractUv,
    /// Finds `uv` from inside the distribution.
    LocateUv,
    MakeDirectories,
    /// Sets the ROCm system runtime up.
    PrepareSystem,
    /// Makes sure that there are devices.
    CheckDevices,
    CopyUv,
    MarkUv,
    ClearStaging,
    MakeStaging,
    MakeEnvironment,
    InstallWheel,
    CheckDependencies,
    WriteRunner,
    WriteStopper,
    WriteEnvironment,
    WritePlugin,
    WriteManifest,
    ValidateStaging,
    /// Puts the staged runtime in the place of the current one.
    Activate,
    ValidateCurrent,
    /// Puts the former runtime back.
    RollBack,
    /// Removes the staged runtime.
    RemoveStaging,
    /// Writes the manifest on the side of Windows, by which the runtime is found.
    WriteLauncher,
    /// Removes the former runtime.
    RemoveBackup,
    Finished,
    Failed,
}

/// Whether a failure leaves a staged runtime behind.
pub open spec fn staged(stage: InstallStage) -> bool {
    match stage {
        InstallStage::MakeEnvironment => true,
        InstallStage::InstallWheel => true,
        InstallStage::CheckDependencies => true,
        InstallStage::WriteRunner => true,
        InstallStage::WriteStopper => true,
        InstallStage::WriteEnvironment => true,
        InstallStage::WritePlugin => true,
        InstallStage::WriteManifest => true,
        InstallStage::ValidateStaging => true,
        InstallStage::Activate => true,
        InstallStage::ValidateCurrent => true,
        _ => false,
    }
}

/// What is done after a stage that succeeded.
pub open spec fn following(stage: InstallStage, kind: InstallKind) -> InstallStage {
    match stage {
        InstallStage::MakeRuntimeDirectory => InstallStage::AcquireLock,
        InstallStage::AcquireLock => InstallStage::CheckIdle,
        InstallStage::CheckIdle => InstallStage::DownloadUv,
        InstallStage::DownloadUv => InstallStage::ExtractUv,
        InstallStage::ExtractUv => InstallStage::LocateUv,
        InstallStage::LocateUv => InstallStage::MakeDirectories,
        InstallStage::MakeDirectories => if kind.system {
            InstallStage::PrepareSystem
        } else {
            InstallStage::CopyUv
        },
        InstallStage::PrepareSystem => InstallStage::CheckDevices,
        InstallStage::CheckDevices => InstallStage::CopyUv,
        InstallStage::CopyUv => InstallStage::MarkUv,
        InstallStage::MarkUv => InstallStage::ClearStaging,
        InstallStage::ClearStaging => InstallStage::MakeStaging,
        InstallStage::MakeStaging => InstallStage::MakeEnvironment,
        InstallStage::MakeEnvironment => InstallStage::InstallWheel,
        InstallStage::InstallWheel => InstallStage::CheckDependencies,
        InstallStage::CheckDependencies => InstallStage::WriteRunner,
        InstallStage::WriteRunner => InstallStage::WriteStopper,
        InstallStage::WriteStopper => InstallStage::WriteEnvironment,
        InstallStage::WriteEnvironment => if kind.rocm {
            InstallStage::WritePlugin
        } else {
            InstallStage::WriteManifest
        },
        InstallStage::WritePlugin => InstallStage::WriteManifest,
        InstallStage::WriteManifest => InstallStage::ValidateStaging,
        InstallStage::ValidateStaging => InstallStage::Activate,
        InstallStage::Activate => InstallStage::ValidateCurrent,
        InstallStage::ValidateCurrent => InstallStage::WriteLauncher,
        InstallStage::RollBack => InstallStage::RemoveStaging,
        InstallStage::RemoveStaging => InstallStage::Failed,
        InstallStage::WriteLauncher => InstallStage::RemoveBackup,
        InstallStage::RemoveBackup => InstallStage::Finished,
        InstallStage::Finished => InstallStage::Finished,
        InstallStage::Failed => InstallStage::Failed,
    }
}

/// What is done after a stage that succeeded or failed.
pub open spec fn stage_after(stage: InstallStage, kind: InstallKind, succeeded: bool) -> InstallStage {
    if succeeded {
        following(stage, kind)
    } else {
        match stage {
            InstallStage::ValidateCurrent => InstallStage::RollBack,
            InstallStage::RollBack => InstallStage::RemoveStaging,
            InstallStage::RemoveStaging => InstallStage::Failed,
            InstallStage::RemoveBackup => InstallStage::Finished,
            InstallStage::Finished => InstallStage::Finished,
            _ => if staged(stage) {
                InstallStage::RemoveStaging
            } else {
                InstallStage::Failed
            },
        }
    }
}

impl InstallStage {
    fn is_staged(self) -> (r: bool)
        ensures
            r == staged(self),
    {
        match self {
            InstallStage::MakeEnvironment => true,
            InstallStage::InstallWheel => true,
            InstallStage::CheckDependencies => true,
            InstallStage::WriteRunner => true,
            InstallStage::WriteStopper => true,
            InstallStage::WriteEnvironment => true,
            InstallStage::WritePlugin => true,
            InstallStage::WriteManifest => true,
            InstallStage::ValidateStaging => true,
            InstallStage::Activate => true,
            InstallStage::ValidateCurrent => true,
            _ => false,
        }
    }

    fn next(self, kind: InstallKind) -> (r: InstallStage)
        ensures
            r == following(self, kind),
    {
        match self {
            InstallStage::MakeRuntimeDirectory => InstallStage::AcquireLock,
            InstallStage::AcquireLock => InstallStage::CheckIdle,
            InstallStage::CheckIdle => InstallStage::DownloadUv,
            InstallStage::DownloadUv => InstallStage::ExtractUv,
            InstallStage::ExtractUv => InstallStage::LocateUv,
            InstallStage::LocateUv => InstallStage::MakeDirectories,
            InstallStage::MakeDirectories => if kind.system {
                InstallStage::PrepareSystem
            } else {
                InstallStage::CopyUv
            },
            InstallStage::PrepareSystem => InstallStage::CheckDevices,
            InstallStage::CheckDevices => InstallStage::CopyUv,
            InstallStage::CopyUv => InstallStage::MarkUv,
            InstallStage::MarkUv => InstallStage::ClearStaging,
            InstallStage::ClearStaging => InstallStage::MakeStaging,
            InstallStage::MakeStaging => InstallStage::MakeEnvironment,
            InstallStage::MakeEnvironment => InstallStage::InstallWheel,
            InstallStage::InstallWheel => InstallStage::CheckDependencies,
            InstallStage::CheckDependencies => InstallStage::WriteRunner,
            InstallStage::WriteRunner => InstallStage::WriteStopper,
            InstallStage::WriteStopper => InstallStage::WriteEnvironment,
            InstallStage::WriteEnvironment => if kind.rocm {
                InstallStage::WritePlugin
            } else {
                InstallStage::WriteManifest
            },
            InstallStage::WritePlugin => InstallStage::WriteManifest,
            InstallStage::WriteManifest => InstallStage::ValidateStaging,
            InstallStage::ValidateStaging => InstallStage::Activate,
            InstallStage::Activate => InstallStage::ValidateCurrent,
            InstallStage::ValidateCurrent => InstallStage::WriteLauncher,
            InstallStage::RollBack => InstallStage::RemoveStaging,
            InstallStage::RemoveStaging => InstallStage::Failed,
            InstallStage::WriteLauncher => InstallStage::RemoveBackup,
            InstallStage::RemoveBackup => InstallStage::Finished,
            InstallStage::Finished => InstallStage::Finished,
            InstallStage::Failed => InstallStage::Failed,
        }
    }
}

/// An installation on its way.
#[derive(Debug)]
pub struct Installation {
    pub stage: InstallStage,
    pub kind: InstallKind,
    /// Why the installation failed.
    pub error: Option<Failure>,
}

pub open spec fn error_said(e: Option<Failure>) -> Option<Seq<char>> {
    match e {
        Some(f) => Some(f@),
        None => None,
    }
}

/// What an installation says.
#[verifier::ext_equal]
pub struct InstallationView {
    pub stage: InstallStage,
    pub kind: InstallKind,
    pub error: Option<Seq<char>>,
}

impl View for Installation {
    type V = InstallationView;

    open spec fn view(&self) -> InstallationView {
        InstallationView { stage: self.stage, kind: self.kind, error: error_said(self.error) }
    }
}

/// Why an installation fails after a stage that failed. Failures to clean up do not count,
/// but a failure to put the former runtime back does.
pub open spec fn error_after(v: InstallationView, reason: Seq<char>) -> Option<Seq<char>> {
    match v.stage {
        InstallStage::ValidateCurrent => Some(
            "post-activation WSL runtime validation failed: "@ + reason,
        ),
        InstallStage::RemoveStaging => v.error,
        InstallStage::RemoveBackup => v.error,
        InstallStage::Finished => v.error,
        InstallStage::Failed => v.error,
        _ => Some(reason),
    }
}

/// An installation after a stage that succeeded or failed.
pub open spec fn installation_after(v: InstallationView, outcome: Result<(), Failure>) -> InstallationView {
    InstallationView {
        stage: stage_after(v.stage, v.kind, outcome is Ok),
        kind: v.kind,
        error: match outcome {
            Ok(_) => v.error,
            Err(e) => error_after(v, e@),
        },
    }
}

impl Installation {
    /// An installation that has not begun.
    pub fn new(kind: InstallKind) -> (r: Installation)
        ensures
            r@ == (InstallationView {
                stage: InstallStage::MakeRuntimeDirectory,
                kind,
                error: None,
            }),
    {
        Installation { stage: InstallStage::MakeRuntimeDirectory, kind, error: None }
    }

    /// Notes that the stage succeeded or failed.
    pub fn step(&mut self, outcome: Result<(), Failure>)
        ensures
            final(self)@ == installation_after(old(self)@, outcome),
    {
        let stage = self.stage;
        match outcome {
            Ok(_) => {
                self.stage = stage.next(self.kind);
            },
            Err(e) => match stage {
                InstallStage::ValidateCurrent => {
                    self.stage = InstallStage::RollBack;
                    self.error = Some(
                        Failure::about(
                            "post-activation WSL runtime validation failed: ",
                            e.message.as_str(),
                        ),
                    );
                },
                InstallStage::RollBack => {
                    self.stage = InstallStage::RemoveStaging;
                    self.error = Some(e);
                },
                InstallStage::RemoveStaging => {
                    self.stage = InstallStage::Failed;
                },
                InstallStage::RemoveBackup => {
                    self.stage = InstallStage::Finished;
                },
                InstallStage::Finished => {},
                InstallStage::Failed => {},
                _ => {
                    self.stage = if stage.is_staged() {
                        InstallStage::RemoveStaging
                    } else {
                        InstallStage::Failed
                    };
                    self.error = Some(e);
                },
            },
        }
    }
}

/// The stage after some stages that succeeded or failed, from the beginning.
pub open spec fn stage_run(kind: InstallKind, outcomes: Seq<bool>) -> InstallStage
    decreases outcomes.len(),
{
    if outcomes.len() == 0 {
        InstallStage::MakeRuntimeDirectory
    } else {
        stage_after(stage_run(kind, outcomes.drop_last()), kind, outcomes.last())
    }
}

pub open spec fn all_true(v: Seq<bool>) -> bool {
    forall|i: int| 0 <= i < v.len() ==> #[trigger] v[i]
}

pub open spec fn failing(stage: InstallStage) -> bool {
    stage is RollBack || stage is RemoveStaging || stage is Failed
}

/// The manifest by which a runtime is found is written only when everything before it
/// succeeded: the runtime was installed, was validated where it was staged, was activated
/// and was validated again.
pub proof fn the_launcher_is_written_last(kind: InstallKind, outcomes: Seq<bool>)
    ensures
        !failing(stage_run(kind, outcomes)) && !(stage_run(kind, outcomes) is Finished)
            ==> all_true(outcomes),
        stage_run(kind, outcomes) is Finished ==> exists|n: int|
            0 <= n < outcomes.len() && #[trigger] all_true(outcomes.take(n)) && stage_run(
                kind,
                outcomes.take(n),
            ) is RemoveBackup,
    decreases outcomes.len(),
{
    if outcomes.len() > 0 {
        let before = outcomes.drop_last();
        the_launcher_is_written_last(kind, before);
        let stage = stage_run(kind, before);
        let now = stage_run(kind, outcomes);
        if !failing(now) && !(now is Finished) {
            assert(!failing(stage) && !(stage is Finished));
            assert(outcomes.last());
            assert forall|i: int| 0 <= i < outcomes.len() implies #[trigger] outcomes[i] by {
                if i < before.len() {
                    assert(before[i]);
                }
            }
        }
        if now is Finished {
            if stage is Finished {
                let n = choose|n: int|
                    0 <= n < before.len() && #[trigger] all_true(before.take(n)) && stage_run(
                        kind,
                        before.take(n),
                    ) is RemoveBackup;
                assert(before.take(n) =~= outcomes.take(n));
                assert(all_true(outcomes.take(n)));
            } else {
                assert(stage is RemoveBackup);
                assert(outcomes.take(before.len() as int) =~= before);
                assert(all_true(outcomes.take(before.len() as int)));
            }
        }
    }
}

/// A failure while a runtime is staged removes what was staged before the installation
/// ends; and a runtime that does not work once it is activated is taken back first.
pub proof fn failed_installations_leave_nothing(stage: InstallStage, kind: InstallKind, cleaned: bool)
    ensures
        staged(stage) && !(stage is ValidateCurrent) ==> stage_after(stage, kind, false)
            is RemoveStaging,
        stage_after(InstallStage::ValidateCurrent, kind, false) is RollBack,
        stage_after(InstallStage::RollBack, kind, cleaned) is RemoveStaging,
        stage_after(InstallStage::RemoveStaging, kind, cleaned) is Failed,
        stage_after(InstallStage::Failed, kind, cleaned) is Failed,
{
}

/// An installation that failed has a reason, and one that did not has none.
pub open spec fn reason_is_known(v: InstallationView) -> bool {
    failing(v.stage) <==> v.error is Some
}

/// At every point an installation has a reason just where it is failing.
pub proof fn failures_have_reasons(v: InstallationView, outcome: Result<(), Failure>)
    requires
        reason_is_known(v),
    ensures
        reason_is_known(installation_after(v, outcome)),
{
}

/// The command of a stage; nothing for one that is done otherwise.
pub open spec fn stage_command_view(p: InstallPlanView, stage: InstallStage, uv_source: Seq<char>) -> Option<
    Result<CommandView, Seq<char>>,
> {
    match stage {
        InstallStage::MakeDirectories => Some(
            Ok(
                as_user(
                    no_args().push("mkdir"@).push("-p"@).push(p.base).push(p.base + "/tools"@),
                    "prepare WSL runtime directories"@,
                ),
            ),
        ),
        InstallStage::CopyUv => Some(
            Ok(
                as_user(
                    no_args().push("cp"@).push(uv_source).push(p.uv),
                    "stage managed uv"@,
                ),
            ),
        ),
        InstallStage::MarkUv => Some(
            Ok(
                as_user(
                    no_args().push("chmod"@).push("0755"@).push(p.uv),
                    "mark managed uv executable"@,
                ),
            ),
        ),
        InstallStage::ClearStaging => Some(
            Ok(
                as_user(
                    no_args().push("rm"@).push("-rf"@).push(p.staging),
                    "clear stale WSL staging runtime"@,
                ),
            ),
        ),
        InstallStage::MakeStaging => Some(
            Ok(
                as_user(
                    no_args().push("mkdir"@).push("-p"@).push(p.staging + "/bin"@).push(
                        p.staging + "/run"@,
                    ),
                    "create WSL staging runtime"@,
                ),
            ),
        ),
        InstallStage::MakeEnvironment => Some(
            Ok(
                as_user(
                    no_args().push(p.uv).push("venv"@).push("--no-project"@).push(
                        "--relocatable"@,
                    ).push("--python"@).push(p.python).push(p.staging + "/venv"@),
                    "create managed WSL Python environment"@,
                ),
            ),
        ),
        InstallStage::InstallWheel => Some(wheel_command_view(p)),
        InstallStage::CheckDependencies => Some(
            Ok(
                as_user(
                    no_args().push(p.uv).push("pip"@).push("check"@).push("--python"@).push(
                        p.staging + "/venv/bin/python"@,
                    ),
                    "check managed WSL Python dependencies"@,
                ),
            ),
        ),
        InstallStage::Activate => Some(
            Ok(
                as_user(
                    no_args().push("sh"@).push("-c"@).push(ACTIVATE_SCRIPT@).push("sh"@).push(
                        p.base,
                    ).push(p.staging).push(p.current).push(p.backup),
                    "activate managed WSL runtime"@,
                ),
            ),
        ),
        InstallStage::RollBack => Some(
            Ok(
                as_user(
                    no_args().push("sh"@).push("-c"@).push(ROLLBACK_SCRIPT@).push("sh"@).push(
                        p.current,
                    ).push(p.backup),
                    "roll back managed WSL runtime"@,
                ),
            ),
        ),
        _ => None,
    }
}

/// The command that installs vLLM, held to the contents of its wheel.
pub open spec fn wheel_command_view(p: InstallPlanView) -> Result<CommandView, Seq<char>> {
    let start = no_args().push(p.uv).push("pip"@).push("install"@).push("--python"@).push(
        p.staging + "/venv/bin/python"@,
    );
    if p.accelerator == "cuda"@ {
        Ok(
            as_user(
                start.push("--torch-backend"@).push(p.torch_backend).push("--index-strategy"@).push(
                    "first-index"@,
                ).push(p.requirement),
                "install pinned vLLM wheel"@,
            ),
        )
    } else {
        match p.index_url {
            Some(index) => Ok(
                as_user(
                    start.push("--extra-index-url"@).push(index).push("--index-strategy"@).push(
                        "unsafe-best-match"@,
                    ).push(p.requirement),
                    "install pinned vLLM wheel"@,
                ),
            ),
            None => Err(p.backend + " has no pinned ROCm wheel index"@),
        }
    }
}

pub open spec fn command_said(r: Result<WslCommand, Failure>) -> Result<CommandView, Seq<char>> {
    match r {
        Ok(c) => Ok(c@),
        Err(e) => Err(e@),
    }
}

fn wheel_command(p: &InstallPlan) -> (r: Result<WslCommand, Failure>)
    ensures
        command_said(r) == wheel_command_view(p@),
{
    let python = p.staging.as_str().to_owned().concat("/venv/bin/python");
    let start = Args::new().with(p.uv.as_str()).with("pip").with("install").with("--python").with(
        python.as_str(),
    );
    let args = if text_eq(p.accelerator.as_str(), "cuda") {
        start.with("--torch-backend").with(p.torch_backend.as_str()).with("--index-strategy").with(
            "first-index",
        )
    } else {
        match &p.index_url {
            Some(index) => start.with("--extra-index-url").with(index.as_str()).with(
                "--index-strategy",
            ).with("unsafe-best-match"),
            None => {
                return Err(
                    Failure::about(p.backend.as_str(), " has no pinned ROCm wheel index"),
                );
            },
        }
    };
    Ok(user_command(args.with(p.requirement.as_str()), "install pinned vLLM wheel"))
}

pub open spec fn opt_command_said(r: Option<Result<WslCommand, Failure>>) -> Option<
    Result<CommandView, Seq<char>>,
> {
    match r {
        Some(c) => Some(command_said(c)),
        None => None,
    }
}

/// The command of a stage; nothing for one that is done otherwise. `uv_source` is where
/// `uv` is seen from inside the distribution.
pub fn stage_command(p: &InstallPlan, stage: InstallStage, uv_source: &str) -> (r: Option<
    Result<WslCommand, Failure>,
>)
    ensures
        opt_command_said(r) == stage_command_view(p@, stage, uv_source@),
{
    match stage {
        InstallStage::MakeDirectories => {
            let tools = p.base.as_str().to_owned().concat("/tools");
            let args = Args::new().with("mkdir").with("-p").with(p.base.as_str()).with(
                tools.as_str(),
            );
            Some(Ok(user_command(args, "prepare WSL runtime directories")))
        },
        InstallStage::CopyUv => {
            let args = Args::new().with("cp").with(uv_source).with(p.uv.as_str());
            Some(Ok(user_command(args, "stage managed uv")))
        },
        InstallStage::MarkUv => {
            let args = Args::new().with("chmod").with("0755").with(p.uv.as_str());
            Some(Ok(user_command(args, "mark managed uv executable")))
        },
        InstallStage::ClearStaging => {
            let args = Args::new().with("rm").with("-rf").with(p.staging.as_str());
            Some(Ok(user_command(args, "clear stale WSL staging runtime")))
        },
        InstallStage::MakeStaging => {
            let bin = p.staging.as_str().to_owned().concat("/bin");
            let run = p.staging.as_str().to_owned().concat("/run");
            let args = Args::new().with("mkdir").with("-p").with(bin.as_str()).with(run.as_str());
            Some(Ok(user_command(args, "create WSL staging runtime")))
        },
        InstallStage::MakeEnvironment => {
            let venv = p.staging.as_str().to_owned().concat("/venv");
            let args = Args::new().with(p.uv.as_str()).with("venv").with("--no-project").with(
                "--relocatable",
            ).with("--python").with(p.python.as_str()).with(venv.as_str());
            Some(Ok(user_command(args, "create managed WSL Python environment")))
        },
        InstallStage::InstallWheel => Some(wheel_command(p)),
        InstallStage::CheckDependencies => {
            let python = p.staging.as_str().to_owned().concat("/venv/bin/python");
            let args = Args::new().with(p.uv.as_str()).with("pip").with("check").with(
                "--python",
            ).with(python.as_str());
            Some(Ok(user_command(args, "check managed WSL Python dependencies")))
        },
        InstallStage::Activate => {
            let args = Args::new().with("sh").with("-c").with(ACTIVATE_SCRIPT).with("sh").with(
                p.base.as_str(),
            ).with(p.staging.as_str()).with(p.current.as_str()).with(p.backup.as_str());
            Some(Ok(user_command(args, "activate managed WSL runtime")))
        },
        InstallStage::RollBack => {
            let args = Args::new().with("sh").with("-c").with(ROLLBACK_SCRIPT).with("sh").with(
                p.current.as_str(),
            ).with(p.backup.as_str());
            Some(Ok(user_command(args, "roll back managed WSL runtime")))
        },
        _ => None,
    }
}

/// The arguments that remove a directory, whether it is there or not.
pub fn discard_arguments(path: &str) -> (r: Vec<String>)
    ensures
        texts(r@) == no_args().push("rm"@).push("-rf"@).push(path@),
{
    Args::new().with("rm").with("-rf").with(path).done()
}

/// A file that is written inside a distribution.
#[derive(Debug)]
pub struct WslFile {
    pub path: String,
    pub contents: String,
    pub executable: bool,
}

/// What a file says.
#[verifier::ext_equal]
pub struct FileView {
    pub path: Seq<char>,
    pub contents: Seq<char>,
    pub executable: bool,
}

impl View for WslFile {
    type V = FileView;

    open spec fn view(&self) -> FileView {
        FileView { path: self.path@, contents: self.contents@, executable: self.executable }
    }
}

pub open spec fn file_views(v: Seq<WslFile>) -> Seq<FileView> {
    Seq::new(v.len(), |i: int| v[i]@)
}

pub open spec fn no_files() -> Seq<FileView> {
    Seq::empty()
}

/// The directory that describes the plugin.
pub open spec fn plugin_description(staging: Seq<char>) -> Seq<char> {
    staging + "/plugins/omniinfer_vllm_wsl2_rocm-1.1.0.dist-info"@
}

/// The files of a stage; none for one that is done otherwise.
pub open spec fn stage_files_view(p: InstallPlanView, stage: InstallStage, manifest: Seq<char>) -> Seq<
    FileView,
> {
    match stage {
        InstallStage::WriteRunner => no_files().push(
            FileView {
                path: p.staging + "/bin/omniinfer-vllm-run"@,
                contents: RUNNER_SCRIPT@,
                executable: true,
            },
        ),
        InstallStage::WriteStopper => no_files().push(
            FileView {
                path: p.staging + "/bin/omniinfer-vllm-stop"@,
                contents: STOPPER_SCRIPT@,
                executable: true,
            },
        ),
        InstallStage::WriteEnvironment => no_files().push(
            FileView {
                path: p.staging + "/runtime.env"@,
                contents: environment_for(p.accelerator),
                executable: false,
            },
        ),
        InstallStage::WritePlugin => no_files()
            .push(
                FileView {
                    path: p.staging + "/plugins/omniinfer_vllm_wsl2_rocm.py"@,
                    contents: ROCM_PLATFORM_PLUGIN@,
                    executable: false,
                },
            )
            .push(
                FileView {
                    path: plugin_description(p.staging) + "/METADATA"@,
                    contents: ROCM_PLATFORM_PLUGIN_METADATA@,
                    executable: false,
                },
            )
            .push(
                FileView {
                    path: plugin_description(p.staging) + "/entry_points.txt"@,
                    contents: ROCM_PLATFORM_PLUGIN_ENTRY_POINTS@,
                    executable: false,
                },
            ),
        InstallStage::WriteManifest => no_files().push(
            FileView {
                path: p.staging + "/managed-runtime.json"@,
                contents: manifest,
                executable: false,
            },
        ),
        _ => no_files(),
    }
}

fn add_file(v: &mut Vec<WslFile>, path: String, contents: &str, executable: bool)
    ensures
        file_views(final(v)@) == file_views(old(v)@).push(
            (FileView { path: path@, contents: contents@, executable }),
        ),
{
    let ghost was = v@;
    let file = WslFile { path, contents: contents.to_owned(), executable };
    v.push(file);
    assert(file_views(v@) =~= file_views(was).push(file@));
}

/// The files of a stage; none for one that is done otherwise. `manifest` is what is kept of
/// the runtime inside the distribution.
pub fn stage_files(p: &InstallPlan, stage: InstallStage, manifest: &str) -> (r: Vec<WslFile>)
    ensures
        file_views(r@) == stage_files_view(p@, stage, manifest@),
{
    let mut r: Vec<WslFile> = Vec::new();
    assert(file_views(r@) =~= no_files());
    let staging = p.staging.as_str();
    match stage {
        InstallStage::WriteRunner => {
            add_file(
                &mut r,
                staging.to_owned().concat("/bin/omniinfer-vllm-run"),
                RUNNER_SCRIPT,
                true,
            );
        },
        InstallStage::WriteStopper => {
            add_file(
                &mut r,
                staging.to_owned().concat("/bin/omniinfer-vllm-stop"),
                STOPPER_SCRIPT,
                true,
            );
        },
        InstallStage::WriteEnvironment => {
            let environment = runtime_environment(p.accelerator.as_str());
            add_file(
                &mut r,
                staging.to_owned().concat("/runtime.env"),
                environment.as_str(),
                false,
            );
        },
        InstallStage::WritePlugin => {
            let description = staging.to_owned().concat(
                "/plugins/omniinfer_vllm_wsl2_rocm-1.1.0.dist-info",
            );
            add_file(
                &mut r,
                staging.to_owned().concat("/plugins/omniinfer_vllm_wsl2_rocm.py"),
                ROCM_PLATFORM_PLUGIN,
                false,
            );
            add_file(
                &mut r,
                description.as_str().to_owned().concat("/METADATA"),
                ROCM_PLATFORM_PLUGIN_METADATA,
                false,
            );
            add_file(
                &mut r,
                description.concat("/entry_points.txt"),
                ROCM_PLATFORM_PLUGIN_ENTRY_POINTS,
                false,
            );
        },
        InstallStage::WriteManifest => {
            add_file(
                &mut r,
                staging.to_owned().concat("/managed-runtime.json"),
                manifest,
                false,
            );
        },
        _ => {},
    }
    r
}

/// The commands that write a file, or why it cannot be written.
pub open spec fn file_commands_view(f: FileView) -> Result<Seq<CommandView>, Seq<char>> {
    match cut_last(f.path, '/') {
        None => Err("invalid Linux runtime path: "@ + f.path),
        Some((parent, _)) => {
            let written = Seq::<CommandView>::empty()
                .push(
                    as_user(
                        no_args().push("mkdir"@).push("-p"@).push(parent),
                        "create WSL file parent"@,
                    ),
                )
                .push(
                    CommandView {
                        user: None,
                        args: no_args().push("tee"@).push(f.path),
                        input: InputView::Bytes(vstd::utf8::encode_utf8(f.contents)),
                        action: "write WSL runtime file"@,
                    },
                );
            Ok(
                if f.executable {
                    written.push(
                        as_user(
                            no_args().push("chmod"@).push("0755"@).push(f.path),
                            "mark WSL runtime file executable"@,
                        ),
                    )
                } else {
                    written
                },
            )
        },
    }
}

pub open spec fn command_views(v: Seq<WslCommand>) -> Seq<CommandView> {
    Seq::new(v.len(), |i: int| v[i]@)
}

fn add_command(v: &mut Vec<WslCommand>, c: WslCommand)
    ensures
        command_views(final(v)@) == command_views(old(v)@).push(c@),
{
    let ghost was = v@;
    v.push(c);
    assert(command_views(v@) =~= command_views(was).push(c@));
}

/// The commands that write a file: its directory is made first, and it is made executable
/// where it has to be.
pub fn file_commands(f: &WslFile) -> (r: Result<Vec<WslCommand>, Failure>)
    ensures
        match r {
            Ok(v) => file_commands_view(f@) == Ok::<Seq<CommandView>, Seq<char>>(command_views(v@)),
            Err(e) => file_commands_view(f@) == Err::<Seq<CommandView>, Seq<char>>(e@),
        },
{
    let (parent, _) = match rsplit_once(f.path.as_str(), '/') {
        Some(cut) => cut,
        None => {
            return Err(Failure::about("invalid Linux runtime path: ", f.path.as_str()));
        },
    };
    let mut r: Vec<WslCommand> = Vec::new();
    assert(command_views(r@) =~= Seq::<CommandView>::empty());
    let args = Args::new().with("mkdir").with("-p").with(parent.as_str());
    add_command(&mut r, user_command(args, "create WSL file parent"));
    let args = Args::new().with("tee").with(f.path.as_str());
    add_command(
        &mut r,
        WslCommand {
            user: None,
            args: args.done(),
            input: CommandInput::Bytes(bytes_of(f.contents.as_str())),
            action: "write WSL runtime file".to_owned(),
        },
    );
    if f.executable {
        let args = Args::new().with("chmod").with("0755").with(f.path.as_str());
        add_command(&mut r, user_command(args, "mark WSL runtime file executable"));
    }
    Ok(r)
}

} // verus!
