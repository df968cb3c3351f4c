//! What is said and kept of an installation, told from what is installed.
use vstd::prelude::*;

use crate::json::{lemma_field_at, member, number_member, text_member, JsonView};
use crate::manager::laws::opt_value;
use crate::text::chars::lowered;
use crate::text::compose::{opt_text, replaced};
use crate::text::number::hex_bytes;
use crate::text::trim::{right_trimmed, trimmed, CharClass};
use crate::wsl::catalog::{
    accelerator_refusal, selects, PinnedAsset, PythonRuntimeEntry, PythonRuntimeVariant,
    RocmPackageAsset,
};
use crate::wsl::detection::WslContext;
use crate::wsl::manifest::{
    base_path, expected_launcher, key_of, launcher_in, launcher_json, plain_directory, planner_part,
    LauncherView,
};
use crate::wsl::output::{decoded, failure_words, logged, CommandOutput};
use crate::wsl::reports::{
    all_planned, download_fields, managed_json, overview, planned_json, selected_json,
    InstallSubject, PackagePlace,
};

verus! {

/// What was selected for a machine is reported as it is.
#[verifier::rlimit(40)]
pub proof fn selections_are_reported_as_they_are(
    s: InstallSubject,
    v: PythonRuntimeVariant,
)
    ensures
        member(selected_json(s, v), "architecture"@) == Some(JsonView::Text("x86_64"@)),
        member(selected_json(s, v), "distribution"@) == Some(JsonView::Text(s.distribution@)),
        member(selected_json(s, v), "driver"@) == Some(opt_value(opt_text(s.driver))),
        member(selected_json(s, v), "minimum_driver"@) == Some(
            opt_value(opt_text(v.minimum_driver)),
        ),
        member(selected_json(s, v), "accelerator"@) == Some(JsonView::Text(v.accelerator@)),
        member(selected_json(s, v), "runtime_version"@) == Some(JsonView::Text(v.runtime_version@)),
        member(selected_json(s, v), "reported_runtime_version"@) == Some(
            JsonView::Text(v.reported_runtime_version@),
        ),
        member(selected_json(s, v), "runtime_environment_version"@) == Some(JsonView::Unsigned(6)),
        member(selected_json(s, v), "torch_backend"@) == Some(JsonView::Text(s.torch_backend@)),
        member(selected_json(s, v), "wheel_url"@) == Some(JsonView::Text(v.url@)),
        member(selected_json(s, v), "package_version"@) == Some(JsonView::Text(v.version@)),
        member(selected_json(s, v), "reported_package_version"@) == Some(
            JsonView::Text(v.reported_version@),
        ),
        member(selected_json(s, v), "wheel_sha256"@) == Some(JsonView::Text(v.sha256@)),
        member(selected_json(s, v), "linux_runtime"@) == Some(JsonView::Text(s.linux_runtime@)),
{
    let fields = selected_json(s, v)->Object_0;
    reveal_strlit("architecture");
    reveal_strlit("distribution");
    reveal_strlit("driver");
    reveal_strlit("minimum_driver");
    reveal_strlit("accelerator");
    reveal_strlit("runtime_version");
    reveal_strlit("reported_runtime_version");
    reveal_strlit("runtime_environment_version");
    reveal_strlit("torch_backend");
    reveal_strlit("wheel_url");
    reveal_strlit("package_version");
    reveal_strlit("reported_package_version");
    reveal_strlit("wheel_sha256");
    reveal_strlit("linux_runtime");
    assert("architecture"@.len() == 12);
    assert("distribution"@.len() == 12);
    assert("driver"@.len() == 6);
    assert("minimum_driver"@.len() == 14);
    assert("accelerator"@.len() == 11);
    assert("runtime_version"@.len() == 15);
    assert("reported_runtime_version"@.len() == 24);
    assert("runtime_environment_version"@.len() == 27);
    assert("torch_backend"@.len() == 13);
    assert("wheel_url"@.len() == 9);
    assert("package_version"@.len() == 15);
    assert("reported_package_version"@.len() == 24);
    assert("wheel_sha256"@.len() == 12);
    assert("linux_runtime"@.len() == 13);
    assert("architecture"@[0] == 'a');
    assert("distribution"@[0] == 'd');
    assert("wheel_sha256"@[0] == 'w');
    assert("runtime_version"@[0] == 'r');
    assert("package_version"@[0] == 'p');
    assert("reported_runtime_version"@[9] == 'r');
    assert("reported_package_version"@[9] == 'p');
    assert("torch_backend"@[0] == 't');
    assert("linux_runtime"@[0] == 'l');
    lemma_field_at(fields, 0);
    lemma_field_at(fields, 1);
    lemma_field_at(fields, 2);
    lemma_field_at(fields, 3);
    lemma_field_at(fields, 4);
    lemma_field_at(fields, 5);
    lemma_field_at(fields, 6);
    lemma_field_at(fields, 7);
    lemma_field_at(fields, 8);
    lemma_field_at(fields, 9);
    lemma_field_at(fields, 10);
    lemma_field_at(fields, 11);
    lemma_field_at(fields, 12);
    lemma_field_at(fields, 13);
}

/// A file that is to be fetched is reported with its role, its address and its checksum.
pub proof fn planned_files_are_reported_as_they_are(
    role: Seq<char>,
    a: PinnedAsset,
)
    ensures
        member(planned_json(role, a), "role"@) == Some(JsonView::Text(role)),
        member(planned_json(role, a), "url"@) == Some(JsonView::Text(a.url@)),
        member(planned_json(role, a), "expected_sha256"@) == Some(JsonView::Text(a.sha256@)),
{
    let fields = planned_json(role, a)->Object_0;
    reveal_strlit("role");
    reveal_strlit("url");
    reveal_strlit("expected_sha256");
    assert("role"@.len() == 4);
    assert("url"@.len() == 3);
    assert("expected_sha256"@.len() == 15);
    lemma_field_at(fields, 0);
    lemma_field_at(fields, 1);
    lemma_field_at(fields, 2);
}

/// Planned is `uv`, and where a system runtime is set up its key and the ROCDXG runtime.
pub proof fn every_file_is_planned(uv: PinnedAsset, v: PythonRuntimeVariant)
    ensures
        all_planned(uv, v).len() == (if v.rocm_system is Some {
            3nat
        } else {
            1nat
        }),
        member(all_planned(uv, v)[0], "url"@) == Some(JsonView::Text(uv.url@)),
        v.rocm_system matches Some(system) ==> member(all_planned(uv, v)[1], "url"@) == Some(
            JsonView::Text(system.repository_key.url@),
        ) && member(all_planned(uv, v)[2], "url"@) == Some(JsonView::Text(system.rocdxg.url@)),
{
    planned_files_are_reported_as_they_are("uv"@, uv);
    if let Some(system) = v.rocm_system {
        planned_files_are_reported_as_they_are("ROCm repository key"@, system.repository_key);
        planned_files_are_reported_as_they_are("ROCDXG runtime"@, system.rocdxg);
    }
}

/// What is kept of a runtime inside its distribution says where everything came from.
#[verifier::rlimit(80)]
pub proof fn kept_manifests_say_where_everything_came_from(
    s: InstallSubject,
    e: PythonRuntimeEntry,
    uv: PinnedAsset,
    v: PythonRuntimeVariant,
    rocm_system: JsonView,
)
    ensures
        member(managed_json(s, e, uv, v, rocm_system), "schema_version"@) == Some(
            JsonView::Unsigned(1),
        ),
        member(managed_json(s, e, uv, v, rocm_system), "backend"@) == Some(
            JsonView::Text(s.backend@),
        ),
        member(managed_json(s, e, uv, v, rocm_system), "source"@) == Some(
            JsonView::Text(e.source@),
        ),
        member(managed_json(s, e, uv, v, rocm_system), "tag"@) == Some(JsonView::Text(e.tag@)),
        member(managed_json(s, e, uv, v, rocm_system), "python"@) == Some(
            JsonView::Text(e.python@),
        ),
        member(managed_json(s, e, uv, v, rocm_system), "uv_version"@) == Some(
            JsonView::Text(uv.version@),
        ),
        member(managed_json(s, e, uv, v, rocm_system), "uv_sha256"@) == Some(
            JsonView::Text(uv.sha256@),
        ),
        member(managed_json(s, e, uv, v, rocm_system), "wheel_url"@) == Some(
            JsonView::Text(v.url@),
        ),
        member(managed_json(s, e, uv, v, rocm_system), "package_version"@) == Some(
            JsonView::Text(v.version@),
        ),
        member(managed_json(s, e, uv, v, rocm_system), "reported_package_version"@) == Some(
            JsonView::Text(v.reported_version@),
        ),
        member(managed_json(s, e, uv, v, rocm_system), "wheel_sha256"@) == Some(
            JsonView::Text(v.sha256@),
        ),
        member(managed_json(s, e, uv, v, rocm_system), "accelerator"@) == Some(
            JsonView::Text(v.accelerator@),
        ),
        member(managed_json(s, e, uv, v, rocm_system), "runtime_version"@) == Some(
            JsonView::Text(v.runtime_version@),
        ),
        member(managed_json(s, e, uv, v, rocm_system), "reported_runtime_version"@) == Some(
            JsonView::Text(v.reported_runtime_version@),
        ),
        member(managed_json(s, e, uv, v, rocm_system), "runtime_environment_version"@) == Some(
            JsonView::Unsigned(6),
        ),
        member(managed_json(s, e, uv, v, rocm_system), "torch_backend"@) == Some(
            JsonView::Text(s.torch_backend@),
        ),
        member(managed_json(s, e, uv, v, rocm_system), "minimum_driver"@) == Some(
            opt_value(opt_text(v.minimum_driver)),
        ),
        member(managed_json(s, e, uv, v, rocm_system), "driver"@) == Some(
            opt_value(opt_text(s.driver)),
        ),
        member(managed_json(s, e, uv, v, rocm_system), "build_commit"@) == Some(
            opt_value(opt_text(v.build_commit)),
        ),
        member(managed_json(s, e, uv, v, rocm_system), "index_url"@) == Some(
            opt_value(opt_text(v.index_url)),
        ),
        member(managed_json(s, e, uv, v, rocm_system), "rocm_system"@) == Some(rocm_system),
        v.accelerator@ == "rocm"@ ==> member(
            managed_json(s, e, uv, v, rocm_system),
            "rocm_platform_plugin_version"@,
        ) == Some(JsonView::Text("1.1.0"@)),
        v.accelerator@ != "rocm"@ ==> member(
            managed_json(s, e, uv, v, rocm_system),
            "rocm_platform_plugin_version"@,
        ) == Some(JsonView::Null),
{
    let fields = managed_json(s, e, uv, v, rocm_system)->Object_0;
    reveal_strlit("schema_version");
    reveal_strlit("backend");
    reveal_strlit("source");
    reveal_strlit("tag");
    reveal_strlit("python");
    reveal_strlit("uv_version");
    reveal_strlit("uv_sha256");
    reveal_strlit("wheel_url");
    reveal_strlit("package_version");
    reveal_strlit("reported_package_version");
    reveal_strlit("wheel_sha256");
    reveal_strlit("accelerator");
    reveal_strlit("runtime_version");
    reveal_strlit("reported_runtime_version");
    reveal_strlit("runtime_environment_version");
    reveal_strlit("rocm_platform_plugin_version");
    reveal_strlit("torch_backend");
    reveal_strlit("minimum_driver");
    reveal_strlit("driver");
    reveal_strlit("build_commit");
    reveal_strlit("index_url");
    reveal_strlit("rocm_system");
    assert("schema_version"@.len() == 14);
    assert("backend"@.len() == 7);
    assert("source"@.len() == 6);
    assert("tag"@.len() == 3);
    assert("python"@.len() == 6);
    assert("uv_version"@.len() == 10);
    assert("uv_sha256"@.len() == 9);
    assert("wheel_url"@.len() == 9);
    assert("package_version"@.len() == 15);
    assert("reported_package_version"@.len() == 24);
    assert("wheel_sha256"@.len() == 12);
    assert("accelerator"@.len() == 11);
    assert("runtime_version"@.len() == 15);
    assert("reported_runtime_version"@.len() == 24);
    assert("runtime_environment_version"@.len() == 27);
    assert("rocm_platform_plugin_version"@.len() == 28);
    assert("torch_backend"@.len() == 13);
    assert("minimum_driver"@.len() == 14);
    assert("driver"@.len() == 6);
    assert("build_commit"@.len() == 12);
    assert("index_url"@.len() == 9);
    assert("rocm_system"@.len() == 11);
    assert("schema_version"@[0] == 's');
    assert("minimum_driver"@[0] == 'm');
    assert("source"@[0] == 's');
    assert("python"@[0] == 'p');
    assert("driver"@[0] == 'd');
    assert("uv_sha256"@[0] == 'u');
    assert("wheel_url"@[0] == 'w');
    assert("index_url"@[0] == 'i');
    assert("package_version"@[0] == 'p');
    assert("runtime_version"@[0] == 'r');
    assert("reported_package_version"@[9] == 'p');
    assert("reported_runtime_version"@[9] == 'r');
    assert("wheel_sha256"@[0] == 'w');
    assert("build_commit"@[0] == 'b');
    assert("accelerator"@[0] == 'a');
    assert("rocm_system"@[0] == 'r');
    lemma_field_at(fields, 0);
    lemma_field_at(fields, 1);
    lemma_field_at(fields, 2);
    lemma_field_at(fields, 3);
    lemma_field_at(fields, 4);
    lemma_field_at(fields, 5);
    lemma_field_at(fields, 6);
    lemma_field_at(fields, 7);
    lemma_field_at(fields, 8);
    lemma_field_at(fields, 9);
    lemma_field_at(fields, 10);
    lemma_field_at(fields, 11);
    lemma_field_at(fields, 12);
    lemma_field_at(fields, 13);
    lemma_field_at(fields, 14);
    lemma_field_at(fields, 15);
    lemma_field_at(fields, 16);
    lemma_field_at(fields, 17);
    lemma_field_at(fields, 18);
    lemma_field_at(fields, 19);
    lemma_field_at(fields, 20);
    lemma_field_at(fields, 21);
}

/// A download is reported with its package, its place among all of them and its address.
pub proof fn downloads_are_reported_as_they_are(
    a: RocmPackageAsset,
    at: PackagePlace,
)
    ensures
        member(JsonView::Object(download_fields(a, at)), "role"@) == Some(
            JsonView::Text("ROCm package "@ + a.name@),
        ),
        member(JsonView::Object(download_fields(a, at)), "package"@) == Some(
            JsonView::Text(a.name@),
        ),
        member(JsonView::Object(download_fields(a, at)), "asset_index"@) == Some(
            JsonView::Unsigned(at.index as nat),
        ),
        member(JsonView::Object(download_fields(a, at)), "asset_count"@) == Some(
            JsonView::Unsigned(at.count as nat),
        ),
        member(JsonView::Object(download_fields(a, at)), "url"@) == Some(JsonView::Text(a.url@)),
{
    let fields = JsonView::Object(download_fields(a, at))->Object_0;
    reveal_strlit("role");
    reveal_strlit("package");
    reveal_strlit("asset_index");
    reveal_strlit("asset_count");
    reveal_strlit("url");
    assert("role"@.len() == 4);
    assert("package"@.len() == 7);
    assert("asset_index"@.len() == 11);
    assert("asset_count"@.len() == 11);
    assert("url"@.len() == 3);
    assert("asset_index"@[6] == 'i');
    assert("asset_count"@[6] == 'c');
    lemma_field_at(fields, 0);
    lemma_field_at(fields, 1);
    lemma_field_at(fields, 2);
    lemma_field_at(fields, 3);
    lemma_field_at(fields, 4);
}

/// A launcher manifest is written with each of its parts under its name.
#[verifier::rlimit(60)]
pub proof fn launcher_manifests_are_written_as_they_are(
    m: LauncherView,
)
    ensures
        member(launcher_json(m), "schema_version"@) == Some(
            JsonView::Unsigned(m.schema_version as nat),
        ),
        member(launcher_json(m), "backend"@) == Some(JsonView::Text(m.backend)),
        member(launcher_json(m), "distribution"@) == Some(JsonView::Text(m.distribution)),
        member(launcher_json(m), "linux_launcher"@) == Some(JsonView::Text(m.linux_launcher)),
        member(launcher_json(m), "linux_runner"@) == Some(JsonView::Text(m.linux_runner)),
        member(launcher_json(m), "linux_stopper"@) == Some(JsonView::Text(m.linux_stopper)),
        member(launcher_json(m), "linux_pid_dir"@) == Some(JsonView::Text(m.linux_pid_dir)),
        member(launcher_json(m), "automount_root"@) == Some(JsonView::Text(m.automount_root)),
        member(launcher_json(m), "source"@) == Some(JsonView::Text(m.source)),
        member(launcher_json(m), "tag"@) == Some(JsonView::Text(m.tag)),
        member(launcher_json(m), "python"@) == Some(JsonView::Text(m.python)),
        member(launcher_json(m), "uv_version"@) == Some(JsonView::Text(m.uv_version)),
        member(launcher_json(m), "uv_sha256"@) == Some(JsonView::Text(m.uv_sha256)),
        member(launcher_json(m), "package_version"@) == Some(JsonView::Text(m.package_version)),
        member(launcher_json(m), "wheel_sha256"@) == Some(JsonView::Text(m.wheel_sha256)),
        member(launcher_json(m), "accelerator"@) == Some(JsonView::Text(m.accelerator)),
        member(launcher_json(m), "runtime_version"@) == Some(JsonView::Text(m.runtime_version)),
        member(launcher_json(m), "runtime_environment_version"@) == Some(
            JsonView::Unsigned(m.runtime_environment_version as nat),
        ),
{
    let fields = launcher_json(m)->Object_0;
    reveal_strlit("schema_version");
    reveal_strlit("backend");
    reveal_strlit("distribution");
    reveal_strlit("linux_launcher");
    reveal_strlit("linux_runner");
    reveal_strlit("linux_stopper");
    reveal_strlit("linux_pid_dir");
    reveal_strlit("automount_root");
    reveal_strlit("source");
    reveal_strlit("tag");
    reveal_strlit("python");
    reveal_strlit("uv_version");
    reveal_strlit("uv_sha256");
    reveal_strlit("package_version");
    reveal_strlit("wheel_sha256");
    reveal_strlit("accelerator");
    reveal_strlit("runtime_version");
    reveal_strlit("runtime_environment_version");
    assert("schema_version"@.len() == 14);
    assert("backend"@.len() == 7);
    assert("distribution"@.len() == 12);
    assert("linux_launcher"@.len() == 14);
    assert("linux_runner"@.len() == 12);
    assert("linux_stopper"@.len() == 13);
    assert("linux_pid_dir"@.len() == 13);
    assert("automount_root"@.len() == 14);
    assert("source"@.len() == 6);
    assert("tag"@.len() == 3);
    assert("python"@.len() == 6);
    assert("uv_version"@.len() == 10);
    assert("uv_sha256"@.len() == 9);
    assert("package_version"@.len() == 15);
    assert("wheel_sha256"@.len() == 12);
    assert("accelerator"@.len() == 11);
    assert("runtime_version"@.len() == 15);
    assert("runtime_environment_version"@.len() == 27);
    assert("schema_version"@[0] == 's');
    assert("linux_launcher"@[0] == 'l');
    assert("automount_root"@[0] == 'a');
    assert("distribution"@[0] == 'd');
    assert("linux_runner"@[0] == 'l');
    assert("wheel_sha256"@[0] == 'w');
    assert("linux_stopper"@[6] == 's');
    assert("linux_pid_dir"@[6] == 'p');
    assert("source"@[0] == 's');
    assert("python"@[0] == 'p');
    assert("package_version"@[0] == 'p');
    assert("runtime_version"@[0] == 'r');
    lemma_field_at(fields, 0);
    lemma_field_at(fields, 1);
    lemma_field_at(fields, 2);
    lemma_field_at(fields, 3);
    lemma_field_at(fields, 4);
    lemma_field_at(fields, 5);
    lemma_field_at(fields, 6);
    lemma_field_at(fields, 7);
    lemma_field_at(fields, 8);
    lemma_field_at(fields, 9);
    lemma_field_at(fields, 10);
    lemma_field_at(fields, 11);
    lemma_field_at(fields, 12);
    lemma_field_at(fields, 13);
    lemma_field_at(fields, 14);
    lemma_field_at(fields, 15);
    lemma_field_at(fields, 16);
    lemma_field_at(fields, 17);
}

/// A launcher manifest is read with each of its parts from its name; only the version of the
/// settings may be missing, and is zero there.
pub proof fn launcher_manifests_are_read_by_their_names(v: JsonView)
    ensures
        launcher_in(v) matches Some(m) ==> {
            &&& number_member(v, "schema_version"@) == Some(m.schema_version as nat)
            &&& text_member(v, "backend"@) == Some(m.backend)
            &&& text_member(v, "distribution"@) == Some(m.distribution)
            &&& text_member(v, "linux_launcher"@) == Some(m.linux_launcher)
            &&& text_member(v, "linux_runner"@) == Some(m.linux_runner)
            &&& text_member(v, "linux_stopper"@) == Some(m.linux_stopper)
            &&& text_member(v, "linux_pid_dir"@) == Some(m.linux_pid_dir)
            &&& text_member(v, "automount_root"@) == Some(m.automount_root)
            &&& text_member(v, "source"@) == Some(m.source)
            &&& text_member(v, "tag"@) == Some(m.tag)
            &&& text_member(v, "python"@) == Some(m.python)
            &&& text_member(v, "uv_version"@) == Some(m.uv_version)
            &&& text_member(v, "uv_sha256"@) == Some(m.uv_sha256)
            &&& text_member(v, "package_version"@) == Some(m.package_version)
            &&& text_member(v, "wheel_sha256"@) == Some(m.wheel_sha256)
            &&& text_member(v, "accelerator"@) == Some(m.accelerator)
            &&& text_member(v, "runtime_version"@) == Some(m.runtime_version)
            &&& member(v, "runtime_environment_version"@) is None ==> m.runtime_environment_version
                == 0
            &&& number_member(v, "runtime_environment_version"@) matches Some(n)
                ==> m.runtime_environment_version == n
        },
        text_member(v, "backend"@) is None ==> launcher_in(v) is None,
        text_member(v, "distribution"@) is None ==> launcher_in(v) is None,
        text_member(v, "linux_launcher"@) is None ==> launcher_in(v) is None,
        text_member(v, "linux_runner"@) is None ==> launcher_in(v) is None,
        text_member(v, "linux_stopper"@) is None ==> launcher_in(v) is None,
        text_member(v, "linux_pid_dir"@) is None ==> launcher_in(v) is None,
        text_member(v, "automount_root"@) is None ==> launcher_in(v) is None,
        text_member(v, "source"@) is None ==> launcher_in(v) is None,
        text_member(v, "tag"@) is None ==> launcher_in(v) is None,
        text_member(v, "python"@) is None ==> launcher_in(v) is None,
        text_member(v, "uv_version"@) is None ==> launcher_in(v) is None,
        text_member(v, "uv_sha256"@) is None ==> launcher_in(v) is None,
        text_member(v, "package_version"@) is None ==> launcher_in(v) is None,
        text_member(v, "wheel_sha256"@) is None ==> launcher_in(v) is None,
        text_member(v, "accelerator"@) is None ==> launcher_in(v) is None,
        text_member(v, "runtime_version"@) is None ==> launcher_in(v) is None,
{
}

/// The launcher manifest of an installation is that of the catalog: in the distribution that
/// was found, with the programs of the current directory, in the pinned versions.
pub proof fn launchers_are_those_of_the_catalog(
    backend: Seq<char>,
    wsl: WslContext,
    entry: PythonRuntimeEntry,
    uv: PinnedAsset,
    variant: PythonRuntimeVariant,
    current: Seq<char>,
)
    ensures
        ({
            let m = expected_launcher(backend, wsl, entry, uv, variant, current);
            &&& m.schema_version == 1
            &&& m.backend == backend
            &&& m.distribution == wsl.distribution@
            &&& m.automount_root == wsl.automount_root@
            &&& m.linux_launcher == current + "/venv/bin/"@ + entry.launcher@
            &&& m.linux_runner == current + "/bin/omniinfer-vllm-run"@
            &&& m.linux_stopper == current + "/bin/omniinfer-vllm-stop"@
            &&& m.linux_pid_dir == current + "/run"@
            &&& m.source == entry.source@
            &&& m.tag == entry.tag@
            &&& m.python == entry.python@
            &&& m.uv_version == uv.version@
            &&& m.uv_sha256 == uv.sha256@
            &&& m.package_version == variant.version@
            &&& m.wheel_sha256 == variant.sha256@
            &&& m.accelerator == variant.accelerator@
            &&& m.runtime_version == variant.runtime_version@
            &&& m.runtime_environment_version == 6
        }),
{
}

/// What a planner reads of a manifest is what the manifest says.
pub proof fn planners_read_what_is_written(m: LauncherView)
    ensures
        planner_part(m).schema_version == m.schema_version,
        planner_part(m).backend == m.backend,
        planner_part(m).distribution == m.distribution,
        planner_part(m).linux_launcher == m.linux_launcher,
        planner_part(m).linux_runner == m.linux_runner,
        planner_part(m).linux_stopper == m.linux_stopper,
        planner_part(m).linux_pid_dir == m.linux_pid_dir,
        planner_part(m).automount_root == m.automount_root,
{
}

/// Runtimes lie in the home directory, apart by backend and by key; the key is the beginning
/// of a digest, and neither the kind of slashes nor the case of a directory counts for it.
pub proof fn runtimes_lie_apart(
    home: Seq<char>,
    backend: Seq<char>,
    key: Seq<char>,
    digest: Seq<u8>,
    dir: Seq<char>,
)
    requires
        home.len() > 0 ==> home.last() != '/',
        digest.len() >= 8,
    ensures
        base_path(home, backend, key) == home + "/.local/share/omniinfer/runtimes/"@ + backend + "/"@
            + key,
        base_path(home.push('/'), backend, key) == base_path(home, backend, key),
        key_of(digest) == hex_bytes(digest.take(8)),
        key_of(digest).len() == 16,
        plain_directory(dir) == lowered(replaced(dir, '\\', "/"@)),
{
    assert(home.push('/').drop_last() =~= home);
    reveal_with_fuel(right_trimmed, 2);
    let first = digest.take(8);
    crate::text::laws::bytes_are_written_with_two_digits(first, 0);
}

/// A backend is installed from the entries for the one architecture, where its accelerator is
/// the one of the catalog and the index of torch is pinned.
pub proof fn catalogs_fit_their_backend(
    backend: Seq<char>,
    accelerator: Seq<char>,
    entry: PythonRuntimeEntry,
    supported: bool,
    r: Result<(int, int), Seq<char>>,
)
    ensures
        accelerator_refusal(backend, accelerator) is None <==> (backend == "vllm-wsl2-cuda"@
            && accelerator == "cuda"@) || (backend == "vllm-wsl2-rocm"@ && accelerator == "rocm"@),
        selects(backend, entry, supported, r) && r is Ok ==> {
            let (u, v) = r->Ok_0;
            &&& supported
            &&& 0 <= u < entry.uv@.len() && entry.uv@[u].0@ == "x86_64"@
            &&& 0 <= v < entry.variants@.len() && entry.variants@[v].0@ == "x86_64"@
            &&& entry.variants@[v].1.torch_backend is Some
            &&& backend == "vllm-wsl2-cuda"@ ==> entry.variants@[v].1.accelerator@ == "cuda"@
            &&& backend == "vllm-wsl2-rocm"@ ==> entry.variants@[v].1.accelerator@ == "rocm"@
            &&& backend == "vllm-wsl2-cuda"@ || backend == "vllm-wsl2-rocm"@
        },
{
    reveal_strlit("vllm-wsl2-cuda");
    reveal_strlit("vllm-wsl2-rocm");
    assert("vllm-wsl2-cuda"@[10] == 'c' && "vllm-wsl2-rocm"@[10] == 'r');
}

/// What is said of a failed command is what it was to do, how it ended and what it wrote.
pub proof fn failures_say_what_failed(output: CommandOutput, action: Seq<char>)
    ensures
        failure_words(output, action) == action + " failed with "@ + output.status@ + ": "@
            + trimmed(decoded(output.stderr@)),
        crate::text::trim::blank(decoded(output.stdout@)) && crate::text::trim::blank(
            decoded(output.stderr@),
        ) ==> logged(action, output) == "\n== "@ + action + " ==\n"@ + ""@ + ""@ + "status: "@
            + output.status@ + "\n"@,
        !crate::text::trim::blank(decoded(output.stdout@)) && !crate::text::trim::blank(
            decoded(output.stderr@),
        ) ==> logged(action, output) == "\n== "@ + action + " ==\n"@ + ("stdout"@ + ":\n"@
            + right_trimmed(decoded(output.stdout@), CharClass::White) + "\n"@) + ("stderr"@
            + ":\n"@ + right_trimmed(decoded(output.stderr@), CharClass::White) + "\n"@)
            + "status: "@ + output.status@ + "\n"@,
{
}

/// What is installed is told line by line: the backend, the distribution, both directories,
/// the driver where it is known, the version of the runtime, and at the end the checksum.
pub proof fn overviews_tell_what_is_installed(s: InstallSubject, v: PythonRuntimeVariant)
    ensures
        ({
            let lines = overview(s, v);
            &&& lines.len() >= 6
            &&& lines[0] == "Managed WSL2 Python runtime: windows/"@ + s.backend@
            &&& lines[1] == "  distribution: "@ + s.distribution@
            &&& lines[2] == "  Windows runtime: "@ + s.runtime_dir@
            &&& lines[3] == "  Linux runtime: "@ + s.linux_runtime@
            &&& s.driver matches Some(d) ==> lines[4] == "  NVIDIA driver: "@ + d@
            &&& lines.last() == "  wheel sha256: "@ + v.sha256@
        }),
{
}

} // verus!
