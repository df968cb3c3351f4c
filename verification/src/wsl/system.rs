//! Setting up the ROCm system runtime inside a distribution.
use vstd::prelude::*;

use crate::text::bytes::bytes_of;
use crate::text::compose::texts;
use crate::wsl::catalog::{RocmPackageAsset, RocmSystemRuntime};
use crate::wsl::commands::{
    as_root, no_args, root_command, Args, CommandInput, CommandView, InputView, WslCommand,
};
use crate::wsl::packages::{package_requirements, pinned_packages};

verus! {

/// Something that is done inside a distribution.
#[derive(Debug)]
pub enum SystemStep {
    /// A command that has to succeed.
    Run(WslCommand),
    /// The contents of a file have to be the expected ones.
    Verify { path: String, sha256: String, role: String },
    /// A command of the administrator that may fail.
    Try(Vec<String>),
}

/// What a step says.
pub enum StepView {
    Run(CommandView),
    Verify { path: Seq<char>, sha256: Seq<char>, role: Seq<char> },
    Try(Seq<Seq<char>>),
}

impl View for SystemStep {
    type V = StepView;

    open spec fn view(&self) -> StepView {
        match self {
            SystemStep::Run(c) => StepView::Run(c@),
            SystemStep::Verify { path, sha256, role } => {
                StepView::Verify { path: path@, sha256: sha256@, role: role@ }
            },
            SystemStep::Try(args) => StepView::Try(texts(args@)),
        }
    }
}

pub open spec fn no_steps() -> Seq<StepView> {
    Seq::empty()
}

pub open spec fn step_views(v: Seq<SystemStep>) -> Seq<StepView> {
    Seq::new(v.len(), |i: int| v[i]@)
}

fn add_step(v: &mut Vec<SystemStep>, step: SystemStep)
    ensures
        step_views(final(v)@) == step_views(old(v)@).push(step@),
{
    let ghost was = v@;
    v.push(step);
    assert(step_views(v@) =~= step_views(was).push(step@));
}

fn new_steps() -> (r: Vec<SystemStep>)
    ensures
        step_views(r@) == no_steps(),
{
    let r: Vec<SystemStep> = Vec::new();
    assert(step_views(r@) =~= no_steps());
    r
}

/// Where the key of the package repository is staged.
pub open spec fn key_path(system: RocmSystemRuntime) -> Seq<char> {
    "/var/cache/omniinfer/rocm-"@ + system.repository_key.sha256@ + ".asc"@
}

/// Where the ROCDXG runtime is staged.
pub open spec fn rocdxg_path(system: RocmSystemRuntime) -> Seq<char> {
    "/var/cache/omniinfer/rocdxg-"@ + system.rocdxg.sha256@ + ".deb"@
}

/// The entry for the package repository.
pub open spec fn apt_source(system: RocmSystemRuntime) -> Seq<char> {
    "deb [arch=amd64 signed-by=/etc/apt/keyrings/omniinfer-rocm.asc] "@ + system.apt_repository@
        + "\n"@
}

/// What is done before packages are installed: both files are staged and verified, and
/// the repository is set up.
pub open spec fn configuration(system: RocmSystemRuntime, key: Seq<u8>, rocdxg: Seq<u8>) -> Seq<
    StepView,
> {
    no_steps()
        .push(
            StepView::Run(
                as_root(
                    no_args().push("install"@).push("-d"@).push("-m"@).push("0755"@).push(
                        "/etc/apt/keyrings"@,
                    ).push("/var/cache/omniinfer"@),
                    InputView::Nothing,
                    "prepare protected ROCm system directories"@,
                ),
            ),
        )
        .push(
            StepView::Run(
                as_root(
                    no_args().push("dd"@).push("of="@ + key_path(system)).push("status=none"@),
                    InputView::Bytes(key),
                    "stage verified ROCm repository key"@,
                ),
            ),
        )
        .push(
            StepView::Run(
                as_root(
                    no_args().push("dd"@).push("of="@ + rocdxg_path(system)).push("status=none"@),
                    InputView::Bytes(rocdxg),
                    "stage verified ROCDXG runtime"@,
                ),
            ),
        )
        .push(
            StepView::Verify {
                path: key_path(system),
                sha256: system.repository_key.sha256@,
                role: "ROCm repository key"@,
            },
        )
        .push(
            StepView::Verify {
                path: rocdxg_path(system),
                sha256: system.rocdxg.sha256@,
                role: "ROCDXG runtime"@,
            },
        )
        .push(
            StepView::Run(
                as_root(
                    no_args().push("install"@).push("-m"@).push("0644"@).push(
                        key_path(system),
                    ).push("/etc/apt/keyrings/omniinfer-rocm.asc"@),
                    InputView::Nothing,
                    "install verified ROCm repository key"@,
                ),
            ),
        )
        .push(
            StepView::Run(
                as_root(
                    no_args().push("tee"@).push("/etc/apt/sources.list.d/omniinfer-rocm.list"@),
                    InputView::Bytes(vstd::utf8::encode_utf8(apt_source(system))),
                    "configure pinned ROCm apt repository"@,
                ),
            ),
        )
        .push(
            StepView::Run(
                as_root(
                    no_args().push("apt-get"@).push("update"@),
                    InputView::Nothing,
                    "refresh ROCm package metadata"@,
                ),
            ),
        )
}

/// What is done before packages are installed.
pub fn configuration_steps(system: &RocmSystemRuntime, key: Vec<u8>, rocdxg: Vec<u8>) -> (r: Vec<
    SystemStep,
>)
    ensures
        step_views(r@) == configuration(*system, key@, rocdxg@),
{
    let key_source = "/var/cache/omniinfer/rocm-".to_owned().concat(
        system.repository_key.sha256.as_str(),
    ).concat(".asc");
    let rocdxg_source = "/var/cache/omniinfer/rocdxg-".to_owned().concat(
        system.rocdxg.sha256.as_str(),
    ).concat(".deb");
    let key_output = "of=".to_owned().concat(key_source.as_str());
    let rocdxg_output = "of=".to_owned().concat(rocdxg_source.as_str());
    let source = "deb [arch=amd64 signed-by=/etc/apt/keyrings/omniinfer-rocm.asc] ".to_owned().concat(
        system.apt_repository.as_str(),
    ).concat("\n");
    let mut r = new_steps();
    let args = Args::new().with("install").with("-d").with("-m").with("0755").with(
        "/etc/apt/keyrings",
    ).with("/var/cache/omniinfer");
    add_step(
        &mut r,
        SystemStep::Run(
            root_command(args, CommandInput::Nothing, "prepare protected ROCm system directories"),
        ),
    );
    let args = Args::new().with("dd").with(key_output.as_str()).with("status=none");
    add_step(
        &mut r,
        SystemStep::Run(
            root_command(args, CommandInput::Bytes(key), "stage verified ROCm repository key"),
        ),
    );
    let args = Args::new().with("dd").with(rocdxg_output.as_str()).with("status=none");
    add_step(
        &mut r,
        SystemStep::Run(
            root_command(args, CommandInput::Bytes(rocdxg), "stage verified ROCDXG runtime"),
        ),
    );
    add_step(
        &mut r,
        SystemStep::Verify {
            path: key_source.as_str().to_owned(),
            sha256: system.repository_key.sha256.as_str().to_owned(),
            role: "ROCm repository key".to_owned(),
        },
    );
    add_step(
        &mut r,
        SystemStep::Verify {
            path: rocdxg_source,
            sha256: system.rocdxg.sha256.as_str().to_owned(),
            role: "ROCDXG runtime".to_owned(),
        },
    );
    let args = Args::new().with("install").with("-m").with("0644").with(key_source.as_str()).with(
        "/etc/apt/keyrings/omniinfer-rocm.asc",
    );
    add_step(
        &mut r,
        SystemStep::Run(
            root_command(args, CommandInput::Nothing, "install verified ROCm repository key"),
        ),
    );
    let args = Args::new().with("tee").with("/etc/apt/sources.list.d/omniinfer-rocm.list");
    add_step(
        &mut r,
        SystemStep::Run(
            root_command(
                args,
                CommandInput::Bytes(bytes_of(source.as_str())),
                "configure pinned ROCm apt repository",
            ),
        ),
    );
    let args = Args::new().with("apt-get").with("update");
    add_step(
        &mut r,
        SystemStep::Run(
            root_command(args, CommandInput::Nothing, "refresh ROCm package metadata"),
        ),
    );
    r
}

/// How packages are installed: each in its version, without questions.
pub open spec fn installation(system: RocmSystemRuntime) -> Seq<StepView> {
    no_steps()
        .push(
            StepView::Run(
                as_root(
                    no_args().push("env"@).push("DEBIAN_FRONTEND=noninteractive"@).push(
                        "apt-get"@,
                    ).push("install"@).push("--no-install-recommends"@).push(
                        "--allow-downgrades"@,
                    ).push("-y"@) + pinned_packages(system.packages@),
                    InputView::Nothing,
                    "install pinned ROCm runtime packages"@,
                ),
            ),
        )
        .push(
            StepView::Run(
                as_root(
                    no_args().push("dpkg"@).push("-i"@).push(rocdxg_path(system)),
                    InputView::Nothing,
                    "install verified ROCDXG runtime"@,
                ),
            ),
        )
        .push(
            StepView::Run(
                as_root(
                    no_args().push("/sbin/ldconfig"@),
                    InputView::Nothing,
                    "refresh ROCm runtime linker cache"@,
                ),
            ),
        )
}

/// How packages are installed.
pub fn installation_steps(system: &RocmSystemRuntime) -> (r: Vec<SystemStep>)
    ensures
        step_views(r@) == installation(*system),
{
    let rocdxg_source = "/var/cache/omniinfer/rocdxg-".to_owned().concat(
        system.rocdxg.sha256.as_str(),
    ).concat(".deb");
    let mut r = new_steps();
    let args = Args::new().with("env").with("DEBIAN_FRONTEND=noninteractive").with("apt-get").with(
        "install",
    ).with("--no-install-recommends").with("--allow-downgrades").with("-y").with_all(
        &package_requirements(system),
    );
    add_step(
        &mut r,
        SystemStep::Run(
            root_command(args, CommandInput::Nothing, "install pinned ROCm runtime packages"),
        ),
    );
    let args = Args::new().with("dpkg").with("-i").with(rocdxg_source.as_str());
    add_step(
        &mut r,
        SystemStep::Run(
            root_command(args, CommandInput::Nothing, "install verified ROCDXG runtime"),
        ),
    );
    let args = Args::new().with("/sbin/ldconfig");
    add_step(
        &mut r,
        SystemStep::Run(
            root_command(args, CommandInput::Nothing, "refresh ROCm runtime linker cache"),
        ),
    );
    r
}

/// The command that makes the directory for staged packages.
pub fn package_directory_command() -> (r: WslCommand)
    ensures
        r@ == as_root(
            no_args().push("install"@).push("-d"@).push("-m"@).push("0755"@).push(
                "/var/cache/omniinfer/rocm-packages"@,
            ),
            InputView::Nothing,
            "prepare protected ROCm package cache"@,
        ),
{
    let args = Args::new().with("install").with("-d").with("-m").with("0755").with(
        "/var/cache/omniinfer/rocm-packages",
    );
    root_command(args, CommandInput::Nothing, "prepare protected ROCm package cache")
}

/// Where the file of a package is staged.
pub open spec fn staged_path(asset: RocmPackageAsset) -> Seq<char> {
    "/var/cache/omniinfer/rocm-packages/"@ + asset.sha256@ + ".deb"@
}

/// Where the distribution keeps the file of a package.
pub open spec fn cached_path(asset: RocmPackageAsset) -> Seq<char> {
    "/var/cache/apt/archives/"@ + asset.filename@
}

/// How the file of a package gets into the cache of the distribution: it is verified once
/// it is staged, and again once it is there.
pub open spec fn population(asset: RocmPackageAsset, file: Seq<char>) -> Seq<StepView> {
    no_steps()
        .push(
            StepView::Run(
                as_root(
                    no_args().push("dd"@).push("of="@ + staged_path(asset)).push("status=none"@),
                    InputView::File(file),
                    "stage verified ROCm package "@ + asset.name@,
                ),
            ),
        )
        .push(
            StepView::Verify {
                path: staged_path(asset),
                sha256: asset.sha256@,
                role: "ROCm package "@ + asset.name@,
            },
        )
        .push(
            StepView::Run(
                as_root(
                    no_args().push("install"@).push("-m"@).push("0644"@).push(
                        staged_path(asset),
                    ).push(cached_path(asset)),
                    InputView::Nothing,
                    "populate APT cache for ROCm package "@ + asset.name@,
                ),
            ),
        )
        .push(
            StepView::Verify {
                path: cached_path(asset),
                sha256: asset.sha256@,
                role: "APT cache package "@ + asset.name@,
            },
        )
        .push(StepView::Try(no_args().push("rm"@).push("-f"@).push(staged_path(asset))))
}

/// How the file of a package gets into the cache of the distribution.
pub fn population_steps(asset: &RocmPackageAsset, file: &str) -> (r: Vec<SystemStep>)
    ensures
        step_views(r@) == population(*asset, file@),
{
    let staged = "/var/cache/omniinfer/rocm-packages/".to_owned().concat(
        asset.sha256.as_str(),
    ).concat(".deb");
    let cached = "/var/cache/apt/archives/".to_owned().concat(asset.filename.as_str());
    let output = "of=".to_owned().concat(staged.as_str());
    let mut r = new_steps();
    let args = Args::new().with("dd").with(output.as_str()).with("status=none");
    add_step(
        &mut r,
        SystemStep::Run(
            root_command(
                args,
                CommandInput::File(file.to_owned()),
                "stage verified ROCm package ".to_owned().concat(asset.name.as_str()).as_str(),
            ),
        ),
    );
    add_step(
        &mut r,
        SystemStep::Verify {
            path: staged.as_str().to_owned(),
            sha256: asset.sha256.as_str().to_owned(),
            role: "ROCm package ".to_owned().concat(asset.name.as_str()),
        },
    );
    let args = Args::new().with("install").with("-m").with("0644").with(staged.as_str()).with(
        cached.as_str(),
    );
    add_step(
        &mut r,
        SystemStep::Run(
            root_command(
                args,
                CommandInput::Nothing,
                "populate APT cache for ROCm package ".to_owned().concat(
                    asset.name.as_str(),
                ).as_str(),
            ),
        ),
    );
    add_step(
        &mut r,
        SystemStep::Verify {
            path: cached,
            sha256: asset.sha256.as_str().to_owned(),
            role: "APT cache package ".to_owned().concat(asset.name.as_str()),
        },
    );
    let args = Args::new().with("rm").with("-f").with(staged.as_str());
    add_step(&mut r, SystemStep::Try(args.done()));
    r
}

/// Whether the contents of a file have been verified before a step.
pub open spec fn verified_before(
    steps: Seq<StepView>,
    at: int,
    path: Seq<char>,
    sha256: Seq<char>,
) -> bool {
    exists|i: int|
        0 <= i < at && i < steps.len() && (#[trigger] steps[i] matches StepView::Verify {
            path: p,
            sha256: s,
            role: _,
        } && p == path && s == sha256)
}

/// The key of the repository is verified before it is trusted, and the ROCDXG runtime
/// before anything is installed.
pub proof fn staged_files_are_verified_first(
    system: RocmSystemRuntime,
    key: Seq<u8>,
    rocdxg: Seq<u8>,
)
    ensures
        verified_before(
            configuration(system, key, rocdxg),
            5,
            key_path(system),
            system.repository_key.sha256@,
        ),
        verified_before(
            configuration(system, key, rocdxg),
            5,
            rocdxg_path(system),
            system.rocdxg.sha256@,
        ),
        configuration(system, key, rocdxg)[5] == StepView::Run(
            as_root(
                no_args().push("install"@).push("-m"@).push("0644"@).push(key_path(system)).push(
                    "/etc/apt/keyrings/omniinfer-rocm.asc"@,
                ),
                InputView::Nothing,
                "install verified ROCm repository key"@,
            ),
        ),
{
    let steps = configuration(system, key, rocdxg);
    assert(steps[3] == StepView::Verify {
        path: key_path(system),
        sha256: system.repository_key.sha256@,
        role: "ROCm repository key"@,
    });
    assert(steps[4] == StepView::Verify {
        path: rocdxg_path(system),
        sha256: system.rocdxg.sha256@,
        role: "ROCDXG runtime"@,
    });
}

/// A package is verified where it is staged before it gets into the cache of the
/// distribution, and verified again where it is then.
pub proof fn cached_packages_are_verified_twice(asset: RocmPackageAsset, file: Seq<char>)
    ensures
        verified_before(population(asset, file), 2, staged_path(asset), asset.sha256@),
        verified_before(population(asset, file), 4, cached_path(asset), asset.sha256@),
{
    let steps = population(asset, file);
    assert(steps[1] == StepView::Verify {
        path: staged_path(asset),
        sha256: asset.sha256@,
        role: "ROCm package "@ + asset.name@,
    });
    assert(steps[3] == StepView::Verify {
        path: cached_path(asset),
        sha256: asset.sha256@,
        role: "APT cache package "@ + asset.name@,
    });
}

/// How far the set-up of a system runtime has come: what is done next, or how it ended.
#[derive(Clone, Copy, Debug, PartialEq, Eq, Structural)]
pub enum SystemPhase {
    /// Looks for the packages.
    CheckVersions,
    /// Looks for the devices.
    CheckDevices,
    /// Downloads the key of the repository.
    DownloadKey,
    /// Downloads the ROCDXG runtime.
    DownloadRocdxg,
    /// Stages both and sets the repository up.
    Configure,
    /// Fills the cache of packages.
    PrepareCache,
    /// Installs the packages.
    Install,
    /// Looks for the packages again.
    VerifyVersions,
    /// Removes what was downloaded.
    RemoveDownloads,
    /// The system runtime is there; `reused` is whether it was before.
    Ready { reused: bool },
    Failed,
}

/// How far the set-up has come after its next step succeeded or failed. What is there
/// already is used where it fits.
pub open spec fn system_after(phase: SystemPhase, succeeded: bool) -> SystemPhase {
    match phase {
        SystemPhase::CheckVersions => if succeeded {
            SystemPhase::CheckDevices
        } else {
            SystemPhase::DownloadKey
        },
        SystemPhase::CheckDevices => if succeeded {
            SystemPhase::Ready { reused: true }
        } else {
            SystemPhase::DownloadKey
        },
        SystemPhase::Ready { reused } => phase,
        SystemPhase::Failed => phase,
        _ => if !succeeded {
            SystemPhase::Failed
        } else {
            match phase {
                SystemPhase::DownloadKey => SystemPhase::DownloadRocdxg,
                SystemPhase::DownloadRocdxg => SystemPhase::Configure,
                SystemPhase::Configure => SystemPhase::PrepareCache,
                SystemPhase::PrepareCache => SystemPhase::Install,
                SystemPhase::Install => SystemPhase::VerifyVersions,
                SystemPhase::VerifyVersions => SystemPhase::RemoveDownloads,
                _ => SystemPhase::Ready { reused: false },
            }
        },
    }
}

impl SystemPhase {
    /// How far the set-up has come after its next step succeeded or failed.
    pub fn step(self, succeeded: bool) -> (r: SystemPhase)
        ensures
            r == system_after(self, succeeded),
    {
        match self {
            SystemPhase::CheckVersions => if succeeded {
                SystemPhase::CheckDevices
            } else {
                SystemPhase::DownloadKey
            },
            SystemPhase::CheckDevices => if succeeded {
                SystemPhase::Ready { reused: true }
            } else {
                SystemPhase::DownloadKey
            },
            SystemPhase::Ready { reused } => SystemPhase::Ready { reused },
            SystemPhase::Failed => SystemPhase::Failed,
            _ => if !succeeded {
                SystemPhase::Failed
            } else {
                match self {
                    SystemPhase::DownloadKey => SystemPhase::DownloadRocdxg,
                    SystemPhase::DownloadRocdxg => SystemPhase::Configure,
                    SystemPhase::Configure => SystemPhase::PrepareCache,
                    SystemPhase::PrepareCache => SystemPhase::Install,
                    SystemPhase::Install => SystemPhase::VerifyVersions,
                    SystemPhase::VerifyVersions => SystemPhase::RemoveDownloads,
                    _ => SystemPhase::Ready { reused: false },
                }
            },
        }
    }
}

/// Whether the versions were found right after everything was installed, in a set-up that
/// has come to the given phase.
pub open spec fn past_verification(phase: SystemPhase) -> bool {
    phase is RemoveDownloads || phase == (SystemPhase::Ready { reused: false })
}

/// A system runtime counts as ready only where a check of its versions succeeded: the
/// first one, where it is reused, or the one after everything was installed.
pub proof fn a_ready_system_was_verified(phase: SystemPhase, succeeded: bool)
    ensures
        system_after(phase, succeeded) == (SystemPhase::Ready { reused: true }) ==> phase
            is CheckDevices && succeeded || phase == (SystemPhase::Ready { reused: true }),
        !past_verification(phase) && past_verification(system_after(phase, succeeded)) ==> phase
            is VerifyVersions && succeeded,
        system_after(phase, succeeded) is CheckDevices ==> phase is CheckVersions && succeeded,
{
}

} // verus!
