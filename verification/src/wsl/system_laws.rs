//! What is asked of a machine, and what its answers come to.
use vstd::prelude::*;

use crate::json::{text_member, JsonView};
use crate::text::number::{decimal, parsing_undoes_showing};
use crate::text::chars::lowered;
use crate::text::pieces::{lines_of, pieces, words_of};
use crate::text::search::{contains, ends_with, starts_with};
use crate::text::trim::trimmed;
use crate::wsl::catalog::{RocmPackageAsset, RocmSystemRuntime};
use crate::wsl::checks::{
    busy_refusal, checked_libraries, checksum_refusal, mismatch, rocm_refusal, ProbeMismatch,
};
use crate::wsl::commands::InputView;
use crate::wsl::detection::{detection_after, question, DetectionView};
use crate::wsl::distros::{
    chosen_distro, default_among, eligible_among, internal, mount_root, named, names_among,
    runs_as_second,
};
use crate::wsl::output::{decoded, CommandOutput};
use crate::wsl::packages::{
    curl_arguments, is_package, need_of, package_after, requirements, stated_version, version_query,
    FileFacts, PackageEvent, PackagePhaseView,
};
use crate::wsl::preflight::{checked_further, first_check, PreflightView};
use crate::wsl::system::{
    configuration, installation, population, system_after, StepView, SystemPhase,
};
use crate::wsl::versions::{driver_refusal, older, reported_driver, version_of};

verus! {

/// Whether a step is a command of the administrator with these words and this input.
pub open spec fn runs_as_root(step: StepView, words: Seq<Seq<char>>, input: InputView) -> bool {
    step matches StepView::Run(c) && c.user == Some("root"@) && c.args =~= words && c.input == input
}

/// Whether a step verifies a file.
pub open spec fn verifies(step: StepView, path: Seq<char>, sha256: Seq<char>) -> bool {
    step matches StepView::Verify { path: p, sha256: s, role: _ } && p == path && s == sha256
}

/// The system is set up from the files that were handed over: the key and the ROCDXG runtime
/// are staged under their checksums, each with its own contents, and verified there; then the
/// key is trusted, the repository of the catalog is entered, and the metadata are refreshed.
pub proof fn systems_are_set_up_from_verified_files(
    system: RocmSystemRuntime,
    key: Seq<u8>,
    rocdxg: Seq<u8>,
)
    ensures
        ({
            let steps = configuration(system, key, rocdxg);
            let key_file = "/var/cache/omniinfer/rocm-"@ + system.repository_key.sha256@ + ".asc"@;
            let dxg_file = "/var/cache/omniinfer/rocdxg-"@ + system.rocdxg.sha256@ + ".deb"@;
            &&& steps.len() == 8
            &&& runs_as_root(
                steps[0],
                seq![
                    "install"@,
                    "-d"@,
                    "-m"@,
                    "0755"@,
                    "/etc/apt/keyrings"@,
                    "/var/cache/omniinfer"@,
                ],
                InputView::Nothing,
            )
            &&& runs_as_root(
                steps[1],
                seq!["dd"@, "of="@ + key_file, "status=none"@],
                InputView::Bytes(key),
            )
            &&& runs_as_root(
                steps[2],
                seq!["dd"@, "of="@ + dxg_file, "status=none"@],
                InputView::Bytes(rocdxg),
            )
            &&& verifies(steps[3], key_file, system.repository_key.sha256@)
            &&& verifies(steps[4], dxg_file, system.rocdxg.sha256@)
            &&& runs_as_root(
                steps[5],
                seq!["install"@, "-m"@, "0644"@, key_file, "/etc/apt/keyrings/omniinfer-rocm.asc"@],
                InputView::Nothing,
            )
            &&& runs_as_root(
                steps[6],
                seq!["tee"@, "/etc/apt/sources.list.d/omniinfer-rocm.list"@],
                InputView::Bytes(
                    vstd::utf8::encode_utf8(
                        "deb [arch=amd64 signed-by=/etc/apt/keyrings/omniinfer-rocm.asc] "@
                            + system.apt_repository@ + "\n"@,
                    ),
                ),
            )
            &&& runs_as_root(steps[7], seq!["apt-get"@, "update"@], InputView::Nothing)
        }),
{
}

/// The packages that are installed are those of the catalog, each in its version, and then
/// the ROCDXG runtime that was staged.
pub proof fn pinned_packages_are_installed(system: RocmSystemRuntime, i: int)
    ensures
        ({
            let steps = installation(system);
            let n = system.packages@.len();
            let words = steps[0]->Run_0.args;
            &&& steps.len() == 3
            &&& steps[0] is Run && steps[0]->Run_0.user == Some("root"@)
            &&& words.len() == 7 + n
            &&& words.take(7) =~= seq![
                "env"@,
                "DEBIAN_FRONTEND=noninteractive"@,
                "apt-get"@,
                "install"@,
                "--no-install-recommends"@,
                "--allow-downgrades"@,
                "-y"@,
            ]
            &&& 0 <= i < n ==> words[7 + i] == system.packages@[i].0@ + "="@
                + system.packages@[i].1@
            &&& runs_as_root(
                steps[1],
                seq![
                    "dpkg"@,
                    "-i"@,
                    "/var/cache/omniinfer/rocdxg-"@ + system.rocdxg.sha256@ + ".deb"@,
                ],
                InputView::Nothing,
            )
            &&& runs_as_root(steps[2], seq!["/sbin/ldconfig"@], InputView::Nothing)
        }),
{
    let words = installation(system)[0]->Run_0.args;
    assert(words.take(7) =~= seq![
        "env"@,
        "DEBIAN_FRONTEND=noninteractive"@,
        "apt-get"@,
        "install"@,
        "--no-install-recommends"@,
        "--allow-downgrades"@,
        "-y"@,
    ]);
}

/// What has to be installed is every package of the catalog in its version, and the ROCDXG
/// runtime in its version.
pub proof fn requirements_are_those_of_the_catalog(system: RocmSystemRuntime, i: int)
    ensures
        requirements(system).len() == system.packages@.len() + 1,
        0 <= i < system.packages@.len() ==> requirements(system)[i] == system.packages@[i].0@
            + "="@ + system.packages@[i].1@,
        requirements(system).last() == "rocdxg-roct"@ + "="@ + system.rocdxg.version@,
{
}

/// The file of a package goes through the staging directory into the cache of the
/// distribution, under its own name, and is verified in both places; what was staged is
/// removed.
pub proof fn packages_reach_the_cache_verified(asset: RocmPackageAsset, file: Seq<char>)
    ensures
        ({
            let steps = population(asset, file);
            let staged = "/var/cache/omniinfer/rocm-packages/"@ + asset.sha256@ + ".deb"@;
            let cached = "/var/cache/apt/archives/"@ + asset.filename@;
            &&& steps.len() == 5
            &&& runs_as_root(
                steps[0],
                seq!["dd"@, "of="@ + staged, "status=none"@],
                InputView::File(file),
            )
            &&& verifies(steps[1], staged, asset.sha256@)
            &&& runs_as_root(
                steps[2],
                seq!["install"@, "-m"@, "0644"@, staged, cached],
                InputView::Nothing,
            )
            &&& verifies(steps[3], cached, asset.sha256@)
            &&& steps[4] matches StepView::Try(words) && words =~= seq!["rm"@, "-f"@, staged]
        }),
{
}

/// A system that has what it needs is used as it is; any other is set up step by step, and a
/// step that fails ends that.
pub proof fn systems_are_set_up_in_order(phase: SystemPhase)
    ensures
        system_after(SystemPhase::CheckVersions, true) is CheckDevices,
        system_after(SystemPhase::CheckVersions, false) is DownloadKey,
        system_after(SystemPhase::CheckDevices, true) == (SystemPhase::Ready { reused: true }),
        system_after(SystemPhase::CheckDevices, false) is DownloadKey,
        system_after(SystemPhase::DownloadKey, true) is DownloadRocdxg,
        system_after(SystemPhase::DownloadRocdxg, true) is Configure,
        system_after(SystemPhase::Configure, true) is PrepareCache,
        system_after(SystemPhase::PrepareCache, true) is Install,
        system_after(SystemPhase::Install, true) is VerifyVersions,
        system_after(SystemPhase::VerifyVersions, true) is RemoveDownloads,
        system_after(SystemPhase::RemoveDownloads, true) == (SystemPhase::Ready { reused: false }),
        !(phase is CheckVersions) && !(phase is CheckDevices) && !(phase is Ready)
            ==> system_after(phase, false) is Failed,
{
}

/// A package is left alone where its version is stated as installed; where it is not, its file
/// is taken from the cache of the distribution, and only else downloaded.
pub proof fn packages_are_downloaded_where_they_are_missing(
    asset: RocmPackageAsset,
    lines: Seq<Seq<char>>,
    cached: bool,
)
    ensures
        stated_version(lines, asset.name@) == Some(asset.version@) <==> need_of(
            asset,
            lines,
            cached,
        ) is Installed,
        stated_version(lines, asset.name@) != Some(asset.version@) && cached <==> need_of(
            asset,
            lines,
            cached,
        ) is InCache,
        stated_version(lines, asset.name@) != Some(asset.version@) && !cached <==> need_of(
            asset,
            lines,
            cached,
        ) is Download,
{
}

/// The version of a package is what the last line about it states behind its name.
pub proof fn versions_are_stated_behind_names(
    lines: Seq<Seq<char>>,
    line: Seq<char>,
    name: Seq<char>,
    version: Seq<char>,
)
    requires
        trimmed(line) == name + "="@ + version,
        !name.contains('='),
    ensures
        stated_version(lines.push(line), name) == Some(version),
{
    reveal_strlit("=");
    let all = lines.push(line);
    assert(all.last() == line);
    let text = trimmed(line);
    assert(text[name.len() as int] == '=');
    assert forall|i: int| 0 <= i < name.len() implies text[i] != '=' by {
        assert(text[i] == name[i]);
    }
    crate::text::search::lemma_first_of(text, '=');
    assert(crate::text::search::first_of(text, '=') == name.len()) by {
        let p = crate::text::search::first_of(text, '=');
        if p > name.len() {
            assert(text[name.len() as int] == '=');
        }
    }
    assert(text.take(name.len() as int) =~= name);
    assert(text.skip(name.len() as int + 1) =~= version);
}

/// A download is what it should be where it has the length and, whatever its case, the
/// checksum of the package.
pub proof fn packages_have_their_length_and_checksum(file: FileFacts, asset: RocmPackageAsset)
    ensures
        is_package(file, asset) <==> file.size == asset.size && lowered(file.sha256@) == lowered(
            asset.sha256@,
        ),
{
}

/// A finished file is kept where it is right and removed where it is not; a part is fetched
/// on, taken for the file, or removed; and what was fetched has to be right.
pub proof fn downloads_are_kept_where_they_are_right(
    asset: RocmPackageAsset,
    file: FileFacts,
    path: String,
)
    ensures
        ({
            let right = is_package(file, asset);
            let found = PackageEvent::Found(file);
            let missing = PackageEvent::Missing(path);
            let step = |p: PackagePhaseView, e: PackageEvent| package_after(p, asset, e);
            &&& right ==> step(PackagePhaseView::CheckVerified, found) == (
            PackagePhaseView::Verified { cached: true })
            &&& !right ==> step(PackagePhaseView::CheckVerified, found) is RemoveVerified
            &&& step(PackagePhaseView::CheckVerified, missing) is CheckPartial
            &&& step(PackagePhaseView::RemoveVerified, PackageEvent::Done) is CheckPartial
            &&& step(PackagePhaseView::CheckPartial, missing) is Fetch
            &&& file.size >= asset.size && right ==> step(PackagePhaseView::CheckPartial, found)
                is PromotePartial
            &&& file.size >= asset.size && !right ==> step(PackagePhaseView::CheckPartial, found)
                is RemovePartial
            &&& step(PackagePhaseView::PromotePartial, PackageEvent::Done) == (
            PackagePhaseView::Verified { cached: true })
            &&& step(PackagePhaseView::RemovePartial, PackageEvent::Done) is Fetch
            &&& step(PackagePhaseView::Fetch, PackageEvent::Done) is CheckFetched
            &&& right ==> step(PackagePhaseView::CheckFetched, found) is Commit
            &&& !right ==> step(PackagePhaseView::CheckFetched, found) is Failed
            &&& step(PackagePhaseView::CheckFetched, missing) is Failed
            &&& step(PackagePhaseView::Commit, PackageEvent::Done) == (
            PackagePhaseView::Verified { cached: false })
        }),
{
}

/// Every file is fetched from its own address to its own path, on from where it was left.
pub proof fn files_are_fetched_to_their_paths(targets: Seq<(String, String)>, i: int)
    requires
        0 <= i < targets.len(),
    ensures
        curl_arguments(targets).len() == 18 + 5 * targets.len(),
        ({
            let words = curl_arguments(targets);
            let at = 18 + 5 * i;
            &&& words[at] == "--continue-at"@
            &&& words[at + 1] == "-"@
            &&& words[at + 2] == "--output"@
            &&& words[at + 3] == targets[i].0@
            &&& words[at + 4] == targets[i].1@
            &&& words[0] == "--fail"@ && words[1] == "--location"@
        }),
    decreases targets.len(),
{
    let rest = targets.drop_last();
    if rest.len() > 0 {
        if i < rest.len() {
            files_are_fetched_to_their_paths(rest, i);
        } else {
            files_are_fetched_to_their_paths(rest, 0);
        }
    } else {
        assert(curl_arguments(rest).len() == 18);
    }
    if i < rest.len() {
        assert(rest[i] == targets[i]);
    }
}

/// The versions of packages are asked for by their names.
pub proof fn versions_are_asked_by_name(names: Seq<Seq<char>>, i: int)
    requires
        0 <= i < names.len(),
    ensures
        version_query(names).len() == names.len() + 3,
        version_query(names)[0] == "dpkg-query"@,
        version_query(names)[1] == "-W"@,
        version_query(names)[2] == "-f=${Package}=${Version}\n"@,
        version_query(names)[3 + i] == names[i],
{
}

/// A version with three numbers is these numbers, and versions are compared by the first that
/// differs.
pub proof fn versions_are_compared_by_their_parts(a: (nat, nat, nat), b: (nat, nat, nat))
    ensures
        a.0 < b.0 ==> older(a, b),
        a.0 == b.0 && a.1 < b.1 ==> older(a, b),
        a.0 == b.0 && a.1 == b.1 && a.2 < b.2 ==> older(a, b),
        older(a, b) ==> !older(b, a) && a != b,
        !older(a, b) && !older(b, a) ==> a == b,
{
}

/// The parts of a version are its numbers between dots; parts that are missing are zero.
pub proof fn versions_are_read_by_their_parts(value: Seq<char>, a: nat, b: nat, c: nat)
    requires
        a <= 0xffff_ffff,
        b <= 0xffff_ffff,
        c <= 0xffff_ffff,
    ensures
        pieces(trimmed(value), '.') == seq![decimal(a), decimal(b), decimal(c)] ==> version_of(
            value,
        ) == Some((a, b, c)),
        pieces(trimmed(value), '.') == seq![decimal(a), decimal(b)] ==> version_of(value) == Some(
            (a, b, 0nat),
        ),
        pieces(trimmed(value), '.') == seq![decimal(a)] ==> version_of(value) == Some(
            (a, 0nat, 0nat),
        ),
{
    parsing_undoes_showing(a, u32::MAX as nat);
    parsing_undoes_showing(b, u32::MAX as nat);
    parsing_undoes_showing(c, u32::MAX as nat);
}

/// A driver is accepted just where both versions can be read and it is not the older one.
pub proof fn drivers_are_accepted_from_the_minimum_on(actual: Seq<char>, minimum: Seq<char>)
    ensures
        driver_refusal(actual, minimum) is None <==> (version_of(actual) is Some && version_of(
            minimum,
        ) is Some && !older(version_of(actual)->0, version_of(minimum)->0)),
{
}

/// The driver is the first line that says something, where the command succeeded.
pub proof fn drivers_are_read_from_the_first_line(output: CommandOutput)
    ensures
        !output.success ==> reported_driver(output) is Err,
        output.success && lines_of(decoded(output.stdout@)).len() > 0 && trimmed(
            lines_of(decoded(output.stdout@))[0],
        ).len() > 0 ==> reported_driver(output) == Ok::<Seq<char>, Seq<char>>(
            trimmed(lines_of(decoded(output.stdout@))[0]),
        ),
        output.success && lines_of(decoded(output.stdout@)).len() == 0 ==> reported_driver(output)
            is Err,
{
}

/// A machine for CUDA is asked for its driver and then for its devices; any other for its
/// release alone. It is fit just where every answer is good.
pub proof fn machines_are_asked_what_matters(
    backend: Seq<char>,
    minimum: Option<Seq<char>>,
    distribution: Seq<char>,
    driver: Seq<char>,
    output: CommandOutput,
    accelerator: Seq<char>,
)
    ensures
        accelerator == "cuda"@ <==> first_check(accelerator) is QueryDriver,
        accelerator != "cuda"@ <==> first_check(accelerator) is QueryRelease,
        ({
            let next = checked_further(
                PreflightView::QueryDriver,
                backend,
                minimum,
                distribution,
                Ok(output),
            );
            &&& next is QueryDevices <==> (reported_driver(output) is Ok && minimum is Some
                && driver_refusal(reported_driver(output)->Ok_0, minimum->0) is None)
            &&& next is QueryDevices ==> next->driver == reported_driver(output)->Ok_0
            &&& next is QueryDevices || next is Failed
        }),
        ({
            let next = checked_further(
                PreflightView::QueryDevices { driver },
                backend,
                minimum,
                distribution,
                Ok(output),
            );
            &&& output.success && output.stdout@.len() > 0 ==> next == PreflightView::Fit(
                Some(driver),
            )
            &&& !output.success || output.stdout@.len() == 0 ==> next is Failed
        }),
        ({
            let next = checked_further(
                PreflightView::QueryRelease,
                backend,
                minimum,
                distribution,
                Ok(output),
            );
            let release = trimmed(trimmed(decoded(output.stdout@)));
            &&& output.success && release == "ubuntu 24.04"@ ==> next == PreflightView::Fit(None)
            &&& !output.success || release != "ubuntu 24.04"@ ==> next is Failed
        }),
{
}

/// ROCm can be used where the probe succeeds and names one of the required targets.
pub proof fn rocm_needs_a_required_target(
    output: CommandOutput,
    distribution: Seq<char>,
    minimum_release: Seq<char>,
    required: Seq<Seq<char>>,
)
    ensures
        rocm_refusal(output, distribution, minimum_release, required) is None <==> (output.success
            && exists|i: int|
            0 <= i < required.len() && contains(
                decoded(output.stdout@),
                #[trigger] required[i],
            )),
{
}

/// A runtime is idle where the probe ends with zero, and busy otherwise.
pub proof fn idle_runtimes_end_with_zero(output: CommandOutput)
    ensures
        busy_refusal(output) is None <==> output.code == Some(0i32),
{
}

/// A probe passes where it states the version of vLLM and, for its accelerator, the version of
/// the runtime.
pub proof fn probes_state_both_versions(
    probe: JsonView,
    version: Seq<char>,
    accelerator: Seq<char>,
    runtime: Seq<char>,
)
    ensures
        mismatch(probe, version, accelerator, runtime) is None <==> (text_member(
            probe,
            "vllm_version"@,
        ) == Some(version) && (accelerator == "rocm"@ ==> text_member(probe, "torch_hip"@) == Some(
            runtime,
        )) && (accelerator != "rocm"@ ==> text_member(probe, "torch_cuda"@) == Some(runtime))),
        mismatch(probe, version, accelerator, runtime) == Some(ProbeMismatch::Version)
            <==> text_member(probe, "vllm_version"@) != Some(version),
{
}

/// A staged file is accepted where the sum is the expected one, whatever its case.
pub proof fn staged_files_have_the_expected_sum(
    output: CommandOutput,
    expected: Seq<char>,
    role: Seq<char>,
)
    requires
        words_of(decoded(output.stdout@)).len() > 0,
    ensures
        checksum_refusal(output, expected, role) is None <==> output.success && lowered(
            words_of(decoded(output.stdout@))[0],
        ) == lowered(expected),
{
}

/// The count of checked libraries is the number in the last line.
pub proof fn libraries_are_counted_in_the_last_line(output: CommandOutput, n: nat)
    requires
        n <= u64::MAX,
        output.success,
        lines_of(decoded(output.stdout@)).len() > 0,
        trimmed(lines_of(decoded(output.stdout@)).last()) == decimal(n),
    ensures
        checked_libraries(output) == Ok::<nat, Seq<char>>(n),
{
    parsing_undoes_showing(n, u64::MAX as nat);
}

/// A search asks for the names and the versions of the distributions, and then, inside the one
/// that was chosen, for the home, the first drive and the kind of machine.
pub proof fn searches_ask_inside_the_chosen_distribution(
    names: Seq<Seq<char>>,
    d: Seq<char>,
    home: Seq<char>,
    root: Seq<char>,
)
    ensures
        question(DetectionView::ListNames) == seq!["--list"@, "--quiet"@],
        question(DetectionView::ListVersions { names }) == seq!["--list"@, "--verbose"@],
        question(DetectionView::AskHome { distribution: d }) == seq![
            "--distribution"@,
            d,
            "--exec"@,
            "sh"@,
            "-c"@,
            "printf %s \"$HOME\""@,
        ],
        question(DetectionView::AskDrive { distribution: d, home }) == seq![
            "--distribution"@,
            d,
            "--exec"@,
            "wslpath"@,
            "-a"@,
            "-u"@,
            "C:\\"@,
        ],
        question(
            DetectionView::AskMachine { distribution: d, home, automount_root: root },
        ) == seq!["--distribution"@, d, "--exec"@, "uname"@, "-m"@],
{
}

/// What is found out of a distribution is what it answers: its home, the directory above its
/// first drive, and that its machine is the right one; any other answer ends the search.
pub proof fn searches_keep_what_was_answered(
    requested: Option<Seq<char>>,
    output: CommandOutput,
    names: Seq<Seq<char>>,
    d: Seq<char>,
    home: Seq<char>,
    root: Seq<char>,
)
    ensures
        ({
            let said = trimmed(decoded(output.stdout@));
            let at_home = detection_after(
                DetectionView::AskHome { distribution: d },
                requested,
                output,
            );
            let at_drive = detection_after(
                DetectionView::AskDrive { distribution: d, home },
                requested,
                output,
            );
            let at_machine = detection_after(
                DetectionView::AskMachine { distribution: d, home, automount_root: root },
                requested,
                output,
            );
            let at_versions = detection_after(
                DetectionView::ListVersions { names },
                requested,
                output,
            );
            &&& output.success && starts_with(said, "/"@) ==> at_home == (DetectionView::AskDrive {
                distribution: d,
                home: said,
            })
            &&& !output.success || !starts_with(said, "/"@) ==> at_home is Failed
            &&& output.success && mount_root(said) is Some ==> at_drive == (
            DetectionView::AskMachine {
                distribution: d,
                home,
                automount_root: mount_root(said)->0,
            })
            &&& !output.success || mount_root(said) is None ==> at_drive is Failed
            &&& output.success && said == "x86_64"@ ==> at_machine == (DetectionView::Found {
                distribution: d,
                home,
                automount_root: root,
            })
            &&& !output.success || said != "x86_64"@ ==> at_machine is Failed
            &&& chosen_distro(requested, names, decoded(output.stdout@)) matches Ok(c)
                ==> at_versions == (DetectionView::AskHome { distribution: c })
            &&& chosen_distro(requested, names, decoded(output.stdout@)) is Err ==> at_versions
                is Failed
            &&& output.success ==> detection_after(
                DetectionView::ListNames,
                requested,
                output,
            ) == (DetectionView::ListVersions {
                names: names_among(lines_of(decoded(output.stdout@))),
            })
            &&& !output.success ==> detection_after(DetectionView::ListNames, requested, output)
                is Failed
        }),
{
}

/// A distribution that is asked for is used where it is installed, is not another
/// application's and runs under the second version, and refused otherwise. Without a request,
/// the default is used where it is fit, else the only one that is.
pub proof fn distributions_are_chosen_as_asked(
    requested: Option<Seq<char>>,
    names: Seq<Seq<char>>,
    verbose: Seq<char>,
)
    ensures
        requested is Some && trimmed(requested->0).len() > 0 ==> {
            let name = trimmed(requested->0);
            &&& chosen_distro(requested, names, verbose) is Ok <==> (named(names, name) is Some
                && !internal(name) && runs_as_second(verbose, name))
            &&& chosen_distro(requested, names, verbose) matches Ok(c) ==> Some(c) == named(
                names,
                name,
            )
        },
        requested is None || trimmed(requested->0).len() == 0 ==> {
            let fit = eligible_among(names, verbose);
            let default = default_among(lines_of(verbose));
            &&& default is Some && fit.contains(default->0) ==> chosen_distro(
                requested,
                names,
                verbose,
            ) == Ok::<Seq<char>, Seq<char>>(default->0)
            &&& !(default is Some && fit.contains(default->0)) && fit.len() == 1 ==> chosen_distro(
                requested,
                names,
                verbose,
            ) == Ok::<Seq<char>, Seq<char>>(fit[0])
            &&& !(default is Some && fit.contains(default->0)) && fit.len() != 1 ==> chosen_distro(
                requested,
                names,
                verbose,
            ) is Err
        },
{
}

/// A distribution belongs to another application where its name, in small letters, is one of
/// Docker's or ends as those for data do.
pub proof fn data_distributions_are_left_alone(name: Seq<char>)
    ensures
        internal(name) <==> (lowered(name) == "docker-desktop"@ || lowered(name)
            == "docker-desktop-data"@ || ends_with(lowered(name), "-data"@)),
{
}

/// The distributions that can be used are those of the list that are not another application's
/// and run under the second version.
pub proof fn fit_distributions_are_listed_and_current(
    names: Seq<Seq<char>>,
    verbose: Seq<char>,
    name: Seq<char>,
)
    ensures
        eligible_among(names, verbose).contains(name) <==> (names.contains(name) && !internal(name)
            && runs_as_second(verbose, name)),
    decreases names.len(),
{
    let all = eligible_among(names, verbose);
    if names.len() > 0 {
        let rest = names.drop_last();
        let less = eligible_among(rest, verbose);
        fit_distributions_are_listed_and_current(rest, verbose, name);
        if all.contains(name) {
            let i = choose|i: int| 0 <= i < all.len() && all[i] == name;
            if i < less.len() {
                assert(less[i] == name);
                assert(less.contains(name));
                let k = choose|k: int| 0 <= k < rest.len() && rest[k] == name;
                assert(names[k] == name);
            } else {
                assert(names[names.len() - 1] == name);
            }
        }
        if names.contains(name) && !internal(name) && runs_as_second(verbose, name) {
            let k = choose|k: int| 0 <= k < names.len() && names[k] == name;
            if k < rest.len() {
                assert(rest[k] == name);
                assert(rest.contains(name));
                let i = choose|i: int| 0 <= i < less.len() && less[i] == name;
                assert(all[i] == name);
            } else {
                assert(all[all.len() - 1] == name);
            }
        }
    }
}

} // verus!
