//! What is reported while a runtime is installed.
use vstd::prelude::*;

use crate::json::{no_fields, text_array, text_or_null, Fields, Json, JsonView};
use crate::text::chars::{text_eq, to_upper, uppered};
use crate::text::compose::{opt_text, put, no_texts, texts};
use crate::text::pieces::{lines, lines_of};
use crate::wsl::catalog::{
    PinnedAsset, PythonRuntimeEntry, PythonRuntimeVariant, RocmPackageAsset,
};
use crate::wsl::scripts::{ROCM_PLATFORM_PLUGIN_VERSION, RUNTIME_ENVIRONMENT_VERSION};

verus! {

/// What all reports of an installation are about.
#[derive(Debug)]
pub struct InstallSubject {
    pub backend: String,
    pub distribution: String,
    pub runtime_dir: String,
    pub linux_runtime: String,
    /// The path of the manifest by which the runtime is found.
    pub launcher: String,
    pub driver: Option<String>,
    pub torch_backend: String,
}

/// The lines with one more where there is something to say.
pub open spec fn with_line(lines: Seq<Seq<char>>, add: bool, line: Seq<char>) -> Seq<Seq<char>> {
    if add {
        lines.push(line)
    } else {
        lines
    }
}

/// What is said before an installation.
pub open spec fn overview(s: InstallSubject, v: PythonRuntimeVariant) -> Seq<Seq<char>> {
    let start = Seq::<Seq<char>>::empty()
        .push("Managed WSL2 Python runtime: windows/"@ + s.backend@)
        .push("  distribution: "@ + s.distribution@)
        .push("  Windows runtime: "@ + s.runtime_dir@)
        .push("  Linux runtime: "@ + s.linux_runtime@);
    let driven = match s.driver {
        Some(driver) => start.push("  NVIDIA driver: "@ + driver@),
        None => start,
    };
    let selected = driven.push(
        "  selected "@ + uppered(v.accelerator@) + " runtime: "@ + v.runtime_version@ + " ("@
            + s.torch_backend@ + ")"@,
    );
    let released = match v.rocm_system {
        Some(system) => selected.push(
            "  minimum AMD Software release: "@ + system.minimum_windows_release@,
        ),
        None => selected,
    };
    let described = with_line(
        released,
        v.reported_version@ != v.version@,
        "  package metadata version: "@ + v.reported_version@,
    );
    let matched = with_line(
        described,
        v.reported_runtime_version@ != v.runtime_version@,
        "  reported accelerator ABI: "@ + v.reported_runtime_version@,
    );
    matched.push("  wheel sha256: "@ + v.sha256@)
}

/// What is said before an installation, line by line.
pub fn overview_lines(s: &InstallSubject, v: &PythonRuntimeVariant) -> (r: Vec<String>)
    ensures
        texts(r@) == overview(*s, *v),
{
    let mut r = no_texts();
    put(
        &mut r,
        "Managed WSL2 Python runtime: windows/".to_owned().concat(s.backend.as_str()).as_str(),
    );
    put(&mut r, "  distribution: ".to_owned().concat(s.distribution.as_str()).as_str());
    put(&mut r, "  Windows runtime: ".to_owned().concat(s.runtime_dir.as_str()).as_str());
    put(&mut r, "  Linux runtime: ".to_owned().concat(s.linux_runtime.as_str()).as_str());
    if let Some(driver) = &s.driver {
        put(&mut r, "  NVIDIA driver: ".to_owned().concat(driver.as_str()).as_str());
    }
    put(
        &mut r,
        "  selected ".to_owned().concat(to_upper(v.accelerator.as_str()).as_str()).concat(
            " runtime: ",
        ).concat(v.runtime_version.as_str()).concat(" (").concat(s.torch_backend.as_str()).concat(
            ")",
        ).as_str(),
    );
    if let Some(system) = &v.rocm_system {
        put(
            &mut r,
            "  minimum AMD Software release: ".to_owned().concat(
                system.minimum_windows_release.as_str(),
            ).as_str(),
        );
    }
    if !text_eq(v.reported_version.as_str(), v.version.as_str()) {
        put(
            &mut r,
            "  package metadata version: ".to_owned().concat(v.reported_version.as_str()).as_str(),
        );
    }
    if !text_eq(v.reported_runtime_version.as_str(), v.runtime_version.as_str()) {
        put(
            &mut r,
            "  reported accelerator ABI: ".to_owned().concat(
                v.reported_runtime_version.as_str(),
            ).as_str(),
        );
    }
    put(&mut r, "  wheel sha256: ".to_owned().concat(v.sha256.as_str()).as_str());
    r
}

/// What is reported of the runtime that was selected.
pub open spec fn selected_json(s: InstallSubject, v: PythonRuntimeVariant) -> JsonView {
    JsonView::Object(
        no_fields()
            .push(("architecture"@, JsonView::Text("x86_64"@)))
            .push(("distribution"@, JsonView::Text(s.distribution@)))
            .push(("driver"@, text_or_null(opt_text(s.driver))))
            .push(("minimum_driver"@, text_or_null(opt_text(v.minimum_driver))))
            .push(("accelerator"@, JsonView::Text(v.accelerator@)))
            .push(("runtime_version"@, JsonView::Text(v.runtime_version@)))
            .push(("reported_runtime_version"@, JsonView::Text(v.reported_runtime_version@)))
            .push(
                (
                    "runtime_environment_version"@,
                    JsonView::Unsigned(RUNTIME_ENVIRONMENT_VERSION as nat),
                ),
            )
            .push(("torch_backend"@, JsonView::Text(s.torch_backend@)))
            .push(("wheel_url"@, JsonView::Text(v.url@)))
            .push(("package_version"@, JsonView::Text(v.version@)))
            .push(("reported_package_version"@, JsonView::Text(v.reported_version@)))
            .push(("wheel_sha256"@, JsonView::Text(v.sha256@)))
            .push(("linux_runtime"@, JsonView::Text(s.linux_runtime@))),
    )
}

/// What is reported of the runtime that was selected.
pub fn compatibility_selected(s: &InstallSubject, v: &PythonRuntimeVariant) -> (json: Json)
    ensures
        json@ == selected_json(*s, *v),
{
    let mut fields = Fields::new();
    fields.text("architecture", "x86_64");
    fields.text("distribution", s.distribution.as_str());
    fields.opt_text("driver", &s.driver);
    fields.opt_text("minimum_driver", &v.minimum_driver);
    fields.text("accelerator", v.accelerator.as_str());
    fields.text("runtime_version", v.runtime_version.as_str());
    fields.text("reported_runtime_version", v.reported_runtime_version.as_str());
    fields.number("runtime_environment_version", RUNTIME_ENVIRONMENT_VERSION as u64);
    fields.text("torch_backend", s.torch_backend.as_str());
    fields.text("wheel_url", v.url.as_str());
    fields.text("package_version", v.version.as_str());
    fields.text("reported_package_version", v.reported_version.as_str());
    fields.text("wheel_sha256", v.sha256.as_str());
    fields.text("linux_runtime", s.linux_runtime.as_str());
    fields.done()
}

/// What is reported of a runtime that was there already.
pub fn already_installed(s: &InstallSubject) -> (json: Json)
    ensures
        json@ == JsonView::Object(
            no_fields()
                .push(("runtime_dir"@, JsonView::Text(s.runtime_dir@)))
                .push(("distribution"@, JsonView::Text(s.distribution@)))
                .push(("linux_runtime"@, JsonView::Text(s.linux_runtime@)))
                .push(("launcher"@, JsonView::Text(s.launcher@))),
        ),
{
    let mut fields = Fields::new();
    fields.text("runtime_dir", s.runtime_dir.as_str());
    fields.text("distribution", s.distribution.as_str());
    fields.text("linux_runtime", s.linux_runtime.as_str());
    fields.text("launcher", s.launcher.as_str());
    fields.done()
}

/// What is reported of something that would be downloaded.
pub open spec fn planned_json(role: Seq<char>, a: PinnedAsset) -> JsonView {
    JsonView::Object(
        no_fields()
            .push(("role"@, JsonView::Text(role)))
            .push(("url"@, JsonView::Text(a.url@)))
            .push(("expected_sha256"@, JsonView::Text(a.sha256@))),
    )
}

fn asset_planned(role: &str, a: &PinnedAsset) -> (json: Json)
    ensures
        json@ == planned_json(role@, *a),
{
    let mut fields = Fields::new();
    fields.text("role", role);
    fields.text("url", a.url.as_str());
    fields.text("expected_sha256", a.sha256.as_str());
    fields.done()
}

/// What is reported of everything that would be downloaded.
pub open spec fn all_planned(uv: PinnedAsset, v: PythonRuntimeVariant) -> Seq<JsonView> {
    let first = Seq::<JsonView>::empty().push(planned_json("uv"@, uv));
    match v.rocm_system {
        Some(system) => first.push(
            planned_json("ROCm repository key"@, system.repository_key),
        ).push(planned_json("ROCDXG runtime"@, system.rocdxg)),
        None => first,
    }
}

/// What is reported of everything that would be downloaded, one by one.
pub fn planned_assets(uv: &PinnedAsset, v: &PythonRuntimeVariant) -> (r: Vec<Json>)
    ensures
        crate::json::views(r@) == all_planned(*uv, *v),
{
    let mut r: Vec<Json> = Vec::new();
    r.push(asset_planned("uv", uv));
    if let Some(system) = &v.rocm_system {
        r.push(asset_planned("ROCm repository key", &system.repository_key));
        r.push(asset_planned("ROCDXG runtime", &system.rocdxg));
    }
    assert(crate::json::views(r@) =~= all_planned(*uv, *v));
    r
}

/// What is reported at the end of a dry run.
pub fn dry_run_completed(s: &InstallSubject, v: &PythonRuntimeVariant) -> (json: Json)
    ensures
        json@ == JsonView::Object(
            no_fields()
                .push(("runtime_dir"@, JsonView::Text(s.runtime_dir@)))
                .push(("distribution"@, JsonView::Text(s.distribution@)))
                .push(("linux_runtime"@, JsonView::Text(s.linux_runtime@)))
                .push(("wheel_url"@, JsonView::Text(v.url@)))
                .push(("package_version"@, JsonView::Text(v.version@)))
                .push(("reported_package_version"@, JsonView::Text(v.reported_version@)))
                .push(("reported_runtime_version"@, JsonView::Text(v.reported_runtime_version@)))
                .push(("wheel_sha256"@, JsonView::Text(v.sha256@))),
        ),
{
    let mut fields = Fields::new();
    fields.text("runtime_dir", s.runtime_dir.as_str());
    fields.text("distribution", s.distribution.as_str());
    fields.text("linux_runtime", s.linux_runtime.as_str());
    fields.text("wheel_url", v.url.as_str());
    fields.text("package_version", v.version.as_str());
    fields.text("reported_package_version", v.reported_version.as_str());
    fields.text("reported_runtime_version", v.reported_runtime_version.as_str());
    fields.text("wheel_sha256", v.sha256.as_str());
    fields.done()
}

/// What is reported when a runtime is being staged.
pub fn staging_started(distribution: &str, staging: &str) -> (json: Json)
    ensures
        json@ == JsonView::Object(
            no_fields()
                .push(("distribution"@, JsonView::Text(distribution@)))
                .push(("staging"@, JsonView::Text(staging@))),
        ),
{
    let mut fields = Fields::new();
    fields.text("distribution", distribution);
    fields.text("staging", staging);
    fields.done()
}

/// What is reported when a runtime has been installed.
pub fn install_completed(s: &InstallSubject) -> (json: Json)
    ensures
        json@ == JsonView::Object(
            no_fields()
                .push(("runtime_dir"@, JsonView::Text(s.runtime_dir@)))
                .push(("distribution"@, JsonView::Text(s.distribution@)))
                .push(("linux_runtime"@, JsonView::Text(s.linux_runtime@)))
                .push(("launcher"@, JsonView::Text(s.launcher@)))
                .push(
                    (
                        "manifest"@,
                        JsonView::Text(s.linux_runtime@ + "/"@ + "managed-runtime.json"@),
                    ),
                ),
        ),
{
    let manifest = s.linux_runtime.as_str().to_owned().concat("/").concat("managed-runtime.json");
    let mut fields = Fields::new();
    fields.text("runtime_dir", s.runtime_dir.as_str());
    fields.text("distribution", s.distribution.as_str());
    fields.text("linux_runtime", s.linux_runtime.as_str());
    fields.text("launcher", s.launcher.as_str());
    fields.text("manifest", manifest.as_str());
    fields.done()
}

/// What is kept of a runtime inside the distribution.
pub open spec fn managed_json(
    s: InstallSubject,
    e: PythonRuntimeEntry,
    uv: PinnedAsset,
    v: PythonRuntimeVariant,
    rocm_system: JsonView,
) -> JsonView {
    JsonView::Object(
        no_fields()
            .push(("schema_version"@, JsonView::Unsigned(1)))
            .push(("backend"@, JsonView::Text(s.backend@)))
            .push(("source"@, JsonView::Text(e.source@)))
            .push(("tag"@, JsonView::Text(e.tag@)))
            .push(("python"@, JsonView::Text(e.python@)))
            .push(("uv_version"@, JsonView::Text(uv.version@)))
            .push(("uv_sha256"@, JsonView::Text(uv.sha256@)))
            .push(("wheel_url"@, JsonView::Text(v.url@)))
            .push(("package_version"@, JsonView::Text(v.version@)))
            .push(("reported_package_version"@, JsonView::Text(v.reported_version@)))
            .push(("wheel_sha256"@, JsonView::Text(v.sha256@)))
            .push(("accelerator"@, JsonView::Text(v.accelerator@)))
            .push(("runtime_version"@, JsonView::Text(v.runtime_version@)))
            .push(("reported_runtime_version"@, JsonView::Text(v.reported_runtime_version@)))
            .push(
                (
                    "runtime_environment_version"@,
                    JsonView::Unsigned(RUNTIME_ENVIRONMENT_VERSION as nat),
                ),
            )
            .push(
                (
                    "rocm_platform_plugin_version"@,
                    if v.accelerator@ == "rocm"@ {
                        JsonView::Text(ROCM_PLATFORM_PLUGIN_VERSION@)
                    } else {
                        JsonView::Null
                    },
                ),
            )
            .push(("torch_backend"@, JsonView::Text(s.torch_backend@)))
            .push(("minimum_driver"@, text_or_null(opt_text(v.minimum_driver))))
            .push(("driver"@, text_or_null(opt_text(s.driver))))
            .push(("build_commit"@, text_or_null(opt_text(v.build_commit))))
            .push(("index_url"@, text_or_null(opt_text(v.index_url))))
            .push(("rocm_system"@, rocm_system)),
    )
}

/// What is kept of a runtime inside the distribution; `rocm_system` is what the catalog
/// says of the system runtime.
pub fn managed_manifest(
    s: &InstallSubject,
    e: &PythonRuntimeEntry,
    uv: &PinnedAsset,
    v: &PythonRuntimeVariant,
    rocm_system: Json,
) -> (json: Json)
    ensures
        json@ == managed_json(*s, *e, *uv, *v, rocm_system@),
{
    let mut fields = Fields::new();
    fields.number("schema_version", 1);
    fields.text("backend", s.backend.as_str());
    fields.text("source", e.source.as_str());
    fields.text("tag", e.tag.as_str());
    fields.text("python", e.python.as_str());
    fields.text("uv_version", uv.version.as_str());
    fields.text("uv_sha256", uv.sha256.as_str());
    fields.text("wheel_url", v.url.as_str());
    fields.text("package_version", v.version.as_str());
    fields.text("reported_package_version", v.reported_version.as_str());
    fields.text("wheel_sha256", v.sha256.as_str());
    fields.text("accelerator", v.accelerator.as_str());
    fields.text("runtime_version", v.runtime_version.as_str());
    fields.text("reported_runtime_version", v.reported_runtime_version.as_str());
    fields.number("runtime_environment_version", RUNTIME_ENVIRONMENT_VERSION as u64);
    if text_eq(v.accelerator.as_str(), "rocm") {
        fields.text("rocm_platform_plugin_version", ROCM_PLATFORM_PLUGIN_VERSION);
    } else {
        fields.null("rocm_platform_plugin_version");
    }
    fields.text("torch_backend", s.torch_backend.as_str());
    fields.opt_text("minimum_driver", &v.minimum_driver);
    fields.opt_text("driver", &s.driver);
    fields.opt_text("build_commit", &v.build_commit);
    fields.opt_text("index_url", &v.index_url);
    fields.put("rocm_system", rocm_system);
    fields.done()
}

/// What is reported of a system runtime that fits; `reused` is said only where it was there
/// before.
pub fn system_runtime_verified(installed: &str, reused: bool) -> (json: Json)
    ensures
        json@ == JsonView::Object(
            (if reused {
                no_fields().push(("accelerator"@, JsonView::Text("rocm"@))).push(
                    ("reused"@, JsonView::Bool(true)),
                )
            } else {
                no_fields().push(("accelerator"@, JsonView::Text("rocm"@)))
            }).push(("packages"@, text_array(lines_of(installed@)))),
        ),
{
    let mut fields = Fields::new();
    fields.text("accelerator", "rocm");
    if reused {
        fields.flag("reused", true);
    }
    fields.texts("packages", &lines(installed));
    fields.done()
}

/// A package among those of a system runtime: its place, counted from one, and how many
/// there are.
#[derive(Clone, Copy, Debug)]
pub struct PackagePlace {
    pub index: u64,
    pub count: u64,
}

/// How a package is called in reports.
pub open spec fn package_role(a: RocmPackageAsset) -> Seq<char> {
    "ROCm package "@ + a.name@
}

fn role_of(a: &RocmPackageAsset) -> (r: String)
    ensures
        r@ == package_role(*a),
{
    "ROCm package ".to_owned().concat(a.name.as_str())
}

/// What is reported of a package that is not downloaded because it is installed.
pub fn package_download_skipped(a: &RocmPackageAsset, at: PackagePlace) -> (json: Json)
    ensures
        json@ == JsonView::Object(
            no_fields()
                .push(("role"@, JsonView::Text("ROCm package"@)))
                .push(("package"@, JsonView::Text(a.name@)))
                .push(("version"@, JsonView::Text(a.version@)))
                .push(("reason"@, JsonView::Text("exact_version_installed"@)))
                .push(("asset_index"@, JsonView::Unsigned(at.index as nat)))
                .push(("asset_count"@, JsonView::Unsigned(at.count as nat))),
        ),
{
    let mut fields = Fields::new();
    fields.text("role", "ROCm package");
    fields.text("package", a.name.as_str());
    fields.text("version", a.version.as_str());
    fields.text("reason", "exact_version_installed");
    fields.number("asset_index", at.index);
    fields.number("asset_count", at.count);
    fields.done()
}

/// Where a package was found.
#[derive(Clone, Copy, Debug, PartialEq, Eq, Structural)]
pub enum PackageOrigin {
    /// In the cache of the distribution.
    AptCache,
    /// On the side of Windows.
    WindowsCache,
    Download,
}

pub open spec fn origin_name(o: PackageOrigin) -> Seq<char> {
    match o {
        PackageOrigin::AptCache => "wsl_apt_cache"@,
        PackageOrigin::WindowsCache => "windows_cache"@,
        PackageOrigin::Download => "download"@,
    }
}

/// What is reported of a package whose checksum is right.
pub fn package_checksum_verified(a: &RocmPackageAsset, at: PackagePlace, origin: PackageOrigin) -> (json:
    Json)
    ensures
        json@ == JsonView::Object(
            no_fields()
                .push(("role"@, JsonView::Text(package_role(*a))))
                .push(("package"@, JsonView::Text(a.name@)))
                .push(("version"@, JsonView::Text(a.version@)))
                .push(("url"@, JsonView::Text(a.url@)))
                .push(("bytes"@, JsonView::Unsigned(a.size as nat)))
                .push(("sha256"@, JsonView::Text(a.sha256@)))
                .push(("expected_sha256"@, JsonView::Text(a.sha256@)))
                .push(("source"@, JsonView::Text(origin_name(origin))))
                .push(("asset_index"@, JsonView::Unsigned(at.index as nat)))
                .push(("asset_count"@, JsonView::Unsigned(at.count as nat))),
        ),
{
    let mut fields = Fields::new();
    fields.text("role", role_of(a).as_str());
    fields.text("package", a.name.as_str());
    fields.text("version", a.version.as_str());
    fields.text("url", a.url.as_str());
    fields.number("bytes", a.size);
    fields.text("sha256", a.sha256.as_str());
    fields.text("expected_sha256", a.sha256.as_str());
    fields.text(
        "source",
        match origin {
            PackageOrigin::AptCache => "wsl_apt_cache",
            PackageOrigin::WindowsCache => "windows_cache",
            PackageOrigin::Download => "download",
        },
    );
    fields.number("asset_index", at.index);
    fields.number("asset_count", at.count);
    fields.done()
}

/// What every report of a download starts with.
pub open spec fn download_fields(a: RocmPackageAsset, at: PackagePlace) -> Seq<
    (Seq<char>, JsonView),
> {
    no_fields()
        .push(("role"@, JsonView::Text(package_role(a))))
        .push(("package"@, JsonView::Text(a.name@)))
        .push(("asset_index"@, JsonView::Unsigned(at.index as nat)))
        .push(("asset_count"@, JsonView::Unsigned(at.count as nat)))
        .push(("url"@, JsonView::Text(a.url@)))
}

fn start_download_report(a: &RocmPackageAsset, at: PackagePlace) -> (r: Fields)
    ensures
        r@ == download_fields(*a, at),
{
    let mut fields = Fields::new();
    fields.text("role", role_of(a).as_str());
    fields.text("package", a.name.as_str());
    fields.number("asset_index", at.index);
    fields.number("asset_count", at.count);
    fields.text("url", a.url.as_str());
    fields
}

/// What is reported when a download starts; whether it can be resumed is said where it can.
pub fn download_started(a: &RocmPackageAsset, at: PackagePlace, resumable: bool) -> (json: Json)
    ensures
        json@ == JsonView::Object(
            if resumable {
                download_fields(*a, at).push(("resumable"@, JsonView::Bool(true)))
            } else {
                download_fields(*a, at)
            },
        ),
{
    let mut fields = start_download_report(a, at);
    if resumable {
        fields.flag("resumable", true);
    }
    fields.done()
}

/// What is reported of a download on its way.
pub fn download_progress(a: &RocmPackageAsset, at: PackagePlace, downloaded: u64) -> (json: Json)
    ensures
        json@ == JsonView::Object(
            download_fields(*a, at)
                .push(("bytes_downloaded"@, JsonView::Unsigned(downloaded as nat)))
                .push(("bytes_total"@, JsonView::Unsigned(a.size as nat))),
        ),
{
    let mut fields = start_download_report(a, at);
    fields.number("bytes_downloaded", downloaded);
    fields.number("bytes_total", a.size);
    fields.done()
}

/// What is reported of a download whose checksum is wrong.
pub fn checksum_failed(a: &RocmPackageAsset, at: PackagePlace, size: u64, sha256: &str) -> (json:
    Json)
    ensures
        json@ == JsonView::Object(
            download_fields(*a, at)
                .push(("expected_bytes"@, JsonView::Unsigned(a.size as nat)))
                .push(("actual_bytes"@, JsonView::Unsigned(size as nat)))
                .push(("expected_sha256"@, JsonView::Text(a.sha256@)))
                .push(("actual_sha256"@, JsonView::Text(sha256@))),
        ),
{
    let mut fields = start_download_report(a, at);
    fields.number("expected_bytes", a.size);
    fields.number("actual_bytes", size);
    fields.text("expected_sha256", a.sha256.as_str());
    fields.text("actual_sha256", sha256);
    fields.done()
}

/// What is reported of a package that got into the cache of the distribution.
pub fn package_cache_populated(a: &RocmPackageAsset, at: PackagePlace) -> (json: Json)
    ensures
        json@ == JsonView::Object(
            no_fields()
                .push(("role"@, JsonView::Text("ROCm package"@)))
                .push(("package"@, JsonView::Text(a.name@)))
                .push(("version"@, JsonView::Text(a.version@)))
                .push(("filename"@, JsonView::Text(a.filename@)))
                .push(("sha256"@, JsonView::Text(a.sha256@)))
                .push(("asset_index"@, JsonView::Unsigned(at.index as nat)))
                .push(("asset_count"@, JsonView::Unsigned(at.count as nat))),
        ),
{
    let mut fields = Fields::new();
    fields.text("role", "ROCm package");
    fields.text("package", a.name.as_str());
    fields.text("version", a.version.as_str());
    fields.text("filename", a.filename.as_str());
    fields.text("sha256", a.sha256.as_str());
    fields.number("asset_index", at.index);
    fields.number("asset_count", at.count);
    fields.done()
}

} // verus!
