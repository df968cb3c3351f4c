//! What the steps of an installation do to the directories that it works with.
use vstd::prelude::*;

use crate::text::compose::opt_text;
use crate::text::search::cut_last;
use crate::wsl::catalog::{PinnedAsset, PythonRuntimeEntry, PythonRuntimeVariant};
use crate::wsl::commands::InputView;
use crate::wsl::detection::WslContext;
use crate::wsl::install::{
    file_commands_view, following, install_plan, stage_command_view, stage_files_view, FileView,
    InstallKind, InstallPlanView, InstallStage,
};
use crate::wsl::manifest::expected_launcher;
use crate::wsl::scripts::{
    ACTIVATE_SCRIPT, COMMON_ENVIRONMENT, ROCM_ENVIRONMENT, ROCM_PLATFORM_PLUGIN,
    ROCM_PLATFORM_PLUGIN_ENTRY_POINTS, ROCM_PLATFORM_PLUGIN_METADATA, ROLLBACK_SCRIPT,
    RUNNER_SCRIPT, STOPPER_SCRIPT,
};

verus! {

/// The words of the command of a stage.
pub open spec fn words(p: InstallPlanView, stage: InstallStage, uv_source: Seq<char>) -> Seq<
    Seq<char>,
> {
    stage_command_view(p, stage, uv_source)->0->Ok_0.args
}

/// Whether a stage is done by a command of the user that reads nothing.
pub open spec fn is_command(p: InstallPlanView, stage: InstallStage, uv_source: Seq<char>) -> bool {
    &&& stage_command_view(p, stage, uv_source) is Some
    &&& stage_command_view(p, stage, uv_source)->0 is Ok
    &&& stage_command_view(p, stage, uv_source)->0->Ok_0.user is None
    &&& stage_command_view(p, stage, uv_source)->0->Ok_0.input is Nothing
}

/// What is activated is the directory that was staged: the script is told the base, then the
/// staging directory, which the stages before it have filled, then the current directory,
/// which the launcher manifest names, then the directory for the former runtime; and the
/// script that rolls back is told the same current and former directories.
pub proof fn staged_runtimes_are_activated(
    backend: Seq<char>,
    base: Seq<char>,
    wsl: WslContext,
    entry: PythonRuntimeEntry,
    uv: PinnedAsset,
    variant: PythonRuntimeVariant,
    torch_backend: Seq<char>,
    suffix: Seq<char>,
    uv_source: Seq<char>,
    manifest: Seq<char>,
)
    ensures
        ({
            let p = install_plan(backend, base, entry, uv, variant, torch_backend, suffix);
            let activate = words(p, InstallStage::Activate, uv_source);
            let back = words(p, InstallStage::RollBack, uv_source);
            let launcher = expected_launcher(backend, wsl, entry, uv, variant, p.current);
            &&& is_command(p, InstallStage::Activate, uv_source)
            &&& is_command(p, InstallStage::RollBack, uv_source)
            &&& activate.len() == 8
            &&& activate[0] == "sh"@ && activate[1] == "-c"@ && activate[2] == ACTIVATE_SCRIPT@
            &&& activate[4] == base
            &&& words(p, InstallStage::ClearStaging, uv_source).last() == activate[5]
            &&& words(p, InstallStage::MakeStaging, uv_source)[2] == activate[5] + "/bin"@
            &&& words(p, InstallStage::MakeStaging, uv_source)[3] == activate[5] + "/run"@
            &&& words(p, InstallStage::MakeEnvironment, uv_source).last() == activate[5] + "/venv"@
            &&& words(p, InstallStage::CheckDependencies, uv_source).last() == activate[5]
                + "/venv/bin/python"@
            &&& stage_files_view(p, InstallStage::WriteManifest, manifest)[0].path == activate[5]
                + "/managed-runtime.json"@
            &&& stage_files_view(p, InstallStage::WriteRunner, manifest)[0].path == activate[5]
                + "/bin/omniinfer-vllm-run"@
            &&& launcher.linux_runner == activate[6] + "/bin/omniinfer-vllm-run"@
            &&& launcher.linux_stopper == activate[6] + "/bin/omniinfer-vllm-stop"@
            &&& launcher.linux_launcher == activate[6] + "/venv/bin/"@ + entry.launcher@
            &&& launcher.linux_pid_dir == activate[6] + "/run"@
            &&& back.len() == 6
            &&& back[0] == "sh"@ && back[1] == "-c"@ && back[2] == ROLLBACK_SCRIPT@
            &&& back[4] == activate[6]
            &&& back[5] == activate[7]
        }),
{
}

/// The directories of an installation are named after its base, and those that are not kept
/// after its suffix too.
pub proof fn installations_work_under_their_base(
    backend: Seq<char>,
    base: Seq<char>,
    entry: PythonRuntimeEntry,
    uv: PinnedAsset,
    variant: PythonRuntimeVariant,
    torch_backend: Seq<char>,
    suffix: Seq<char>,
    uv_source: Seq<char>,
)
    ensures
        ({
            let p = install_plan(backend, base, entry, uv, variant, torch_backend, suffix);
            let activate = words(p, InstallStage::Activate, uv_source);
            &&& activate[4] == base
            &&& activate[5] == base + "/installing-"@ + suffix
            &&& activate[6] == base + "/current"@
            &&& activate[7] == base + "/backup-"@ + suffix
            &&& p.base == base
            &&& p.uv == base + "/tools/uv-"@ + uv.version@
            &&& p.backend == backend
            &&& p.python == entry.python@
            &&& p.requirement == variant.url@ + "#sha256="@ + variant.sha256@
            &&& p.accelerator == variant.accelerator@
            &&& p.torch_backend == torch_backend
            &&& p.index_url == opt_text(variant.index_url)
        }),
{
}

/// The commands of an installation, word by word, over the directories of any plan.
pub proof fn stages_work_on_their_directories(p: InstallPlanView, uv_source: Seq<char>)
    ensures
        words(p, InstallStage::MakeDirectories, uv_source) == seq![
            "mkdir"@,
            "-p"@,
            p.base,
            p.base + "/tools"@,
        ],
        words(p, InstallStage::CopyUv, uv_source) == seq!["cp"@, uv_source, p.uv],
        words(p, InstallStage::MarkUv, uv_source) == seq!["chmod"@, "0755"@, p.uv],
        words(p, InstallStage::ClearStaging, uv_source) == seq!["rm"@, "-rf"@, p.staging],
        words(p, InstallStage::MakeStaging, uv_source) == seq![
            "mkdir"@,
            "-p"@,
            p.staging + "/bin"@,
            p.staging + "/run"@,
        ],
        words(p, InstallStage::MakeEnvironment, uv_source) == seq![
            p.uv,
            "venv"@,
            "--no-project"@,
            "--relocatable"@,
            "--python"@,
            p.python,
            p.staging + "/venv"@,
        ],
        words(p, InstallStage::CheckDependencies, uv_source) == seq![
            p.uv,
            "pip"@,
            "check"@,
            "--python"@,
            p.staging + "/venv/bin/python"@,
        ],
        words(p, InstallStage::Activate, uv_source) == seq![
            "sh"@,
            "-c"@,
            ACTIVATE_SCRIPT@,
            "sh"@,
            p.base,
            p.staging,
            p.current,
            p.backup,
        ],
        words(p, InstallStage::RollBack, uv_source) == seq![
            "sh"@,
            "-c"@,
            ROLLBACK_SCRIPT@,
            "sh"@,
            p.current,
            p.backup,
        ],
        is_command(p, InstallStage::MakeDirectories, uv_source),
        is_command(p, InstallStage::CopyUv, uv_source),
        is_command(p, InstallStage::MarkUv, uv_source),
        is_command(p, InstallStage::ClearStaging, uv_source),
        is_command(p, InstallStage::MakeStaging, uv_source),
        is_command(p, InstallStage::MakeEnvironment, uv_source),
        is_command(p, InstallStage::CheckDependencies, uv_source),
        is_command(p, InstallStage::Activate, uv_source),
        is_command(p, InstallStage::RollBack, uv_source),
{
    assert(words(p, InstallStage::MakeDirectories, uv_source) =~= seq![
        "mkdir"@,
        "-p"@,
        p.base,
        p.base + "/tools"@,
    ]);
}

/// The wheel that is installed is the pinned one, into the environment that is staged; for
/// CUDA with the given build of torch, and else from the pinned index, without which there
/// is no command.
pub proof fn the_pinned_wheel_is_installed(p: InstallPlanView, uv_source: Seq<char>)
    ensures
        p.accelerator == "cuda"@ || p.index_url is Some <==> is_command(
            p,
            InstallStage::InstallWheel,
            uv_source,
        ),
        p.accelerator == "cuda"@ ==> words(p, InstallStage::InstallWheel, uv_source) == seq![
            p.uv,
            "pip"@,
            "install"@,
            "--python"@,
            p.staging + "/venv/bin/python"@,
            "--torch-backend"@,
            p.torch_backend,
            "--index-strategy"@,
            "first-index"@,
            p.requirement,
        ],
        p.accelerator != "cuda"@ && p.index_url is Some ==> words(
            p,
            InstallStage::InstallWheel,
            uv_source,
        ) == seq![
            p.uv,
            "pip"@,
            "install"@,
            "--python"@,
            p.staging + "/venv/bin/python"@,
            "--extra-index-url"@,
            p.index_url->0,
            "--index-strategy"@,
            "unsafe-best-match"@,
            p.requirement,
        ],
{
}

/// Every file that is written goes into the staging directory; the runner and the stopper can
/// be run, and the manifest is the given one.
pub proof fn files_are_written_where_they_are_staged(
    p: InstallPlanView,
    stage: InstallStage,
    manifest: Seq<char>,
    i: int,
)
    requires
        0 <= i < stage_files_view(p, stage, manifest).len(),
    ensures
        ({
            let f = stage_files_view(p, stage, manifest)[i];
            &&& f.path.len() > p.staging.len()
            &&& f.path.take(p.staging.len() as int) == p.staging
            &&& f.path[p.staging.len() as int] == '/'
            &&& f.executable <==> stage is WriteRunner || stage is WriteStopper
            &&& stage is WriteRunner ==> f.contents == RUNNER_SCRIPT@ && f.path == p.staging
                + "/bin/omniinfer-vllm-run"@
            &&& stage is WriteStopper ==> f.contents == STOPPER_SCRIPT@ && f.path == p.staging
                + "/bin/omniinfer-vllm-stop"@
            &&& stage is WriteManifest ==> f.contents == manifest && f.path == p.staging
                + "/managed-runtime.json"@
            &&& stage is WriteEnvironment ==> f.path == p.staging + "/runtime.env"@
            &&& stage is WriteEnvironment && p.accelerator == "rocm"@ ==> f.contents
                == COMMON_ENVIRONMENT@ + ROCM_ENVIRONMENT@
            &&& stage is WriteEnvironment && p.accelerator != "rocm"@ ==> f.contents
                == COMMON_ENVIRONMENT@
            &&& stage is WritePlugin && i == 0 ==> f.contents == ROCM_PLATFORM_PLUGIN@ && f.path
                == p.staging + "/plugins/omniinfer_vllm_wsl2_rocm.py"@
            &&& stage is WritePlugin && i == 1 ==> f.contents == ROCM_PLATFORM_PLUGIN_METADATA@
                && f.path == p.staging + "/plugins/omniinfer_vllm_wsl2_rocm-1.1.0.dist-info"@
                + "/METADATA"@
            &&& stage is WritePlugin && i == 2 ==> f.contents
                == ROCM_PLATFORM_PLUGIN_ENTRY_POINTS@ && f.path == p.staging
                + "/plugins/omniinfer_vllm_wsl2_rocm-1.1.0.dist-info"@ + "/entry_points.txt"@
            &&& (stage is WriteRunner || stage is WriteStopper || stage is WriteManifest || stage
                is WriteEnvironment || stage is WritePlugin)
        }),
{
    reveal_strlit("/bin/omniinfer-vllm-run");
    reveal_strlit("/bin/omniinfer-vllm-stop");
    reveal_strlit("/managed-runtime.json");
    reveal_strlit("/runtime.env");
    reveal_strlit("/plugins/omniinfer_vllm_wsl2_rocm.py");
    reveal_strlit("/plugins/omniinfer_vllm_wsl2_rocm-1.1.0.dist-info");
    let f = stage_files_view(p, stage, manifest)[i];
    assert(f.path.take(p.staging.len() as int) =~= p.staging);
}

/// The files of a stage are written each once, and no other stage writes any.
pub proof fn stages_write_their_files(p: InstallPlanView, stage: InstallStage, manifest: Seq<char>)
    ensures
        stage_files_view(p, stage, manifest).len() == (if stage is WritePlugin {
            3nat
        } else if stage is WriteRunner || stage is WriteStopper || stage is WriteManifest || stage
            is WriteEnvironment {
            1nat
        } else {
            0nat
        }),
{
}

/// A file is written as it is: its directory is made, its contents go to its path, and it is
/// made executable where it has to be, and there alone.
pub proof fn files_are_written_as_they_are(dir: Seq<char>, name: Seq<char>, f: FileView)
    requires
        !name.contains('/'),
        f.path == dir + seq!['/'] + name,
    ensures
        file_commands_view(f) is Ok,
        ({
            let cs = file_commands_view(f)->Ok_0;
            &&& cs.len() == (if f.executable {
                3nat
            } else {
                2nat
            })
            &&& forall|i: int| 0 <= i < cs.len() ==> (#[trigger] cs[i]).user is None
            &&& cs[0].args == seq!["mkdir"@, "-p"@, dir]
            &&& cs[1].args == seq!["tee"@, f.path]
            &&& cs[1].input == InputView::Bytes(vstd::utf8::encode_utf8(f.contents))
            &&& f.executable ==> cs[2].args == seq!["chmod"@, "0755"@, f.path]
        }),
{
    lemma_cut_last(dir, name);
}

proof fn lemma_cut_last(dir: Seq<char>, name: Seq<char>)
    requires
        !name.contains('/'),
    ensures
        cut_last(dir + seq!['/'] + name, '/') == Some((dir, name)),
    decreases name.len(),
{
    let whole = dir + seq!['/'] + name;
    let place = dir.len() as int;
    assert(whole[place] == '/');
    assert forall|i: int| place < i < whole.len() implies whole[i] != '/' by {
        assert(whole[i] == name[i - place - 1]);
    }
    crate::text::search::lemma_last_of(whole, '/');
    assert(whole.take(place) =~= dir);
    assert(whole.skip(place + 1) =~= name);
}

/// The stages of an installation that goes well come in one order: a runtime is staged whole
/// and checked before it is activated, and the launcher manifest is written after that; the
/// system is prepared only where the kind asks for it, and the plugin written only for ROCm.
pub proof fn installations_go_in_order(kind: InstallKind)
    ensures
        following(InstallStage::MakeRuntimeDirectory, kind) is AcquireLock,
        following(InstallStage::AcquireLock, kind) is CheckIdle,
        following(InstallStage::CheckIdle, kind) is DownloadUv,
        following(InstallStage::DownloadUv, kind) is ExtractUv,
        following(InstallStage::ExtractUv, kind) is LocateUv,
        following(InstallStage::LocateUv, kind) is MakeDirectories,
        kind.system <==> following(InstallStage::MakeDirectories, kind)
            is PrepareSystem,
        !kind.system <==> following(InstallStage::MakeDirectories, kind)
            is CopyUv,
        following(InstallStage::PrepareSystem, kind) is CheckDevices,
        following(InstallStage::CheckDevices, kind) is CopyUv,
        following(InstallStage::CopyUv, kind) is MarkUv,
        following(InstallStage::MarkUv, kind) is ClearStaging,
        following(InstallStage::ClearStaging, kind) is MakeStaging,
        following(InstallStage::MakeStaging, kind) is MakeEnvironment,
        following(InstallStage::MakeEnvironment, kind) is InstallWheel,
        following(InstallStage::InstallWheel, kind) is CheckDependencies,
        following(InstallStage::CheckDependencies, kind) is WriteRunner,
        following(InstallStage::WriteRunner, kind) is WriteStopper,
        following(InstallStage::WriteStopper, kind) is WriteEnvironment,
        kind.rocm <==> following(InstallStage::WriteEnvironment, kind)
            is WritePlugin,
        !kind.rocm <==> following(InstallStage::WriteEnvironment, kind)
            is WriteManifest,
        following(InstallStage::WritePlugin, kind) is WriteManifest,
        following(InstallStage::WriteManifest, kind) is ValidateStaging,
        following(InstallStage::ValidateStaging, kind) is Activate,
        following(InstallStage::Activate, kind) is ValidateCurrent,
        following(InstallStage::ValidateCurrent, kind) is WriteLauncher,
        following(InstallStage::WriteLauncher, kind) is RemoveBackup,
        following(InstallStage::RemoveBackup, kind) is Finished,
{
}

} // verus!
