//! The packages of the ROCm system runtime.
use vstd::prelude::*;

use crate::failure::Failure;
use crate::outside::{sha256, sha256_digest};
use crate::text::chars::{eq_ignoring_case, same_ignoring_case, text_eq};
use crate::text::compose::{no_texts, opt_text, put, texts};
use crate::text::number::{decimal, hex_bytes, show, show_hex_bytes};
use crate::text::pieces::{lines, lines_of};
use crate::text::search::{cut_once, split_once, strip_prefix, without_prefix};
use crate::text::trim::{trim, trimmed};
use crate::wsl::catalog::{RocmPackageAsset, RocmSystemRuntime};
use crate::wsl::commands::{no_args, Args};
use crate::wsl::output::{decode_output, decoded, failure_words, require_success, CommandOutput};

verus! {

/// The arguments that ask for the versions of packages.
pub open spec fn version_query(names: Seq<Seq<char>>) -> Seq<Seq<char>> {
    no_args().push("dpkg-query"@).push("-W"@).push("-f=${Package}=${Version}\n"@) + names
}

/// The arguments that ask for the versions of packages.
pub fn package_query(names: &Vec<String>) -> (r: Vec<String>)
    ensures
        texts(r@) == version_query(texts(names@)),
{
    Args::new().with("dpkg-query").with("-W").with("-f=${Package}=${Version}\n").with_all(
        names,
    ).done()
}

/// The versions that lines state; of two for one package the later one counts.
pub open spec fn stated_version(lines: Seq<Seq<char>>, name: Seq<char>) -> Option<Seq<char>>
    decreases lines.len(),
{
    if lines.len() == 0 {
        None
    } else {
        match cut_once(trimmed(lines.last()), '=') {
            Some((package, version)) => if package == name {
                Some(version)
            } else {
                stated_version(lines.drop_last(), name)
            },
            None => stated_version(lines.drop_last(), name),
        }
    }
}

/// The lines that state versions, or why there are none. That some packages are not
/// installed is no failure.
pub open spec fn version_lines(output: CommandOutput) -> Result<Seq<Seq<char>>, Seq<char>> {
    if !output.success && output.code != Some(1i32) {
        Err(failure_words(output, "query installed ROCm package versions"@))
    } else {
        Ok(lines_of(decoded(output.stdout@)))
    }
}

/// The lines that state the versions of installed packages.
pub fn query_installed_package_versions(output: &CommandOutput) -> (r: Result<
    Vec<String>,
    Failure,
>)
    ensures
        match r {
            Ok(v) => version_lines(*output) == Ok::<Seq<Seq<char>>, Seq<char>>(texts(v@)),
            Err(e) => version_lines(*output) == Err::<Seq<Seq<char>>, Seq<char>>(e@),
        },
{
    if !output.success && output.code != Some(1) {
        if let Err(e) = require_success(output, "query installed ROCm package versions") {
            return Err(e);
        }
    }
    Ok(lines(decode_output(&output.stdout).as_str()))
}

/// The version of a package among lines that state versions.
pub fn installed_version(stated: &Vec<String>, name: &str) -> (r: Option<String>)
    ensures
        opt_text(r) == stated_version(texts(stated@), name@),
{
    let ghost all = texts(stated@);
    let mut n: usize = stated.len();
    assert(all.take(n as int) =~= all);
    while n > 0
        invariant
            n <= stated@.len(),
            all == texts(stated@),
            stated_version(all, name@) == stated_version(all.take(n as int), name@),
        decreases n,
    {
        assert(all.take(n as int).last() == stated@[n - 1]@);
        assert(all.take(n as int).drop_last() =~= all.take(n - 1));
        if let Some((package, version)) = split_once(trim(stated[n - 1].as_str()).as_str(), '=') {
            if text_eq(package.as_str(), name) {
                return Some(version);
            }
        }
        n -= 1;
    }
    assert(all.take(0) =~= Seq::<Seq<char>>::empty());
    None
}

/// A package with the version that it is held to.
pub open spec fn pinned(name: Seq<char>, version: Seq<char>) -> Seq<char> {
    name + "="@ + version
}

/// The packages of a system runtime with the versions that they are held to.
pub open spec fn pinned_packages(packages: Seq<(String, String)>) -> Seq<Seq<char>> {
    Seq::new(packages.len(), |i: int| pinned(packages[i].0@, packages[i].1@))
}

/// Everything that has to be installed, with its version.
pub open spec fn requirements(system: RocmSystemRuntime) -> Seq<Seq<char>> {
    pinned_packages(system.packages@).push(pinned("rocdxg-roct"@, system.rocdxg.version@))
}

/// The packages of a system runtime with the versions that they are held to.
pub fn package_requirements(system: &RocmSystemRuntime) -> (r: Vec<String>)
    ensures
        texts(r@) == pinned_packages(system.packages@),
{
    let mut r = no_texts();
    let mut i: usize = 0;
    while i < system.packages.len()
        invariant
            i <= system.packages@.len(),
            texts(r@) == pinned_packages(system.packages@).take(i as int),
        decreases system.packages@.len() - i,
    {
        let text = system.packages[i].0.as_str().to_owned().concat("=").concat(
            system.packages[i].1.as_str(),
        );
        put(&mut r, text.as_str());
        assert(pinned_packages(system.packages@).take(i as int + 1) =~= pinned_packages(
            system.packages@,
        ).take(i as int).push(pinned_packages(system.packages@)[i as int]));
        i += 1;
    }
    assert(pinned_packages(system.packages@).take(i as int) =~= pinned_packages(
        system.packages@,
    ));
    r
}

/// The names of everything that has to be installed.
pub fn required_names(system: &RocmSystemRuntime) -> (r: Vec<String>)
    ensures
        texts(r@) == Seq::new(
            system.packages@.len(),
            |i: int| system.packages@[i].0@,
        ).push("rocdxg-roct"@),
{
    let ghost names = Seq::new(system.packages@.len(), |i: int| system.packages@[i].0@);
    let mut r = no_texts();
    let mut i: usize = 0;
    while i < system.packages.len()
        invariant
            i <= system.packages@.len(),
            names == Seq::new(system.packages@.len(), |i: int| system.packages@[i].0@),
            texts(r@) == names.take(i as int),
        decreases system.packages@.len() - i,
    {
        put(&mut r, system.packages[i].0.as_str());
        assert(names.take(i as int + 1) =~= names.take(i as int).push(names[i as int]));
        i += 1;
    }
    assert(names.take(i as int) =~= names);
    put(&mut r, "rocdxg-roct");
    r
}

pub open spec fn all_trimmed_lines(text: Seq<char>) -> Seq<Seq<char>> {
    Seq::new(lines_of(text).len(), |i: int| trimmed(lines_of(text)[i]))
}

/// The first requirement that no line states.
pub open spec fn first_missing(wanted: Seq<Seq<char>>, stated: Seq<Seq<char>>) -> Option<Seq<char>>
    decreases wanted.len(),
{
    if wanted.len() == 0 {
        None
    } else if !stated.contains(wanted[0]) {
        Some(wanted[0])
    } else {
        first_missing(wanted.drop_first(), stated)
    }
}

/// What is installed of a system runtime, or why it does not fit.
pub open spec fn system_state(output: CommandOutput, system: RocmSystemRuntime) -> Result<
    Seq<char>,
    Seq<char>,
> {
    if !output.success {
        Err(failure_words(output, "verify installed ROCm system package versions"@))
    } else {
        match first_missing(requirements(system), all_trimmed_lines(decoded(output.stdout@))) {
            Some(missing) => Err(
                "installed ROCm system runtime does not match the pinned catalog: missing "@
                    + missing,
            ),
            None => Ok(decoded(output.stdout@)),
        }
    }
}

fn states(found: &Vec<String>, wanted: &str) -> (r: bool)
    ensures
        r == Seq::new(found@.len(), |i: int| trimmed(found@[i]@)).contains(wanted@),
{
    let ghost all = Seq::new(found@.len(), |i: int| trimmed(found@[i]@));
    let mut i: usize = 0;
    while i < found.len()
        invariant
            i <= found@.len(),
            all == Seq::new(found@.len(), |i: int| trimmed(found@[i]@)),
            forall|j: int| 0 <= j < i ==> #[trigger] all[j] != wanted@,
        decreases found@.len() - i,
    {
        if text_eq(trim(found[i].as_str()).as_str(), wanted) {
            assert(all[i as int] == wanted@);
            return true;
        }
        i += 1;
    }
    false
}

/// What is installed of a system runtime, where all of it is there in its version.
pub fn validate_rocm_system_versions(output: &CommandOutput, system: &RocmSystemRuntime) -> (r:
    Result<String, Failure>)
    ensures
        crate::failure::text_result(r) == system_state(*output, *system),
{
    if let Err(e) = require_success(output, "verify installed ROCm system package versions") {
        return Err(e);
    }
    let text = decode_output(&output.stdout);
    let found = lines(text.as_str());
    let ghost stated = all_trimmed_lines(text@);
    assert(Seq::new(found@.len(), |i: int| trimmed(found@[i]@)) =~= stated) by {
        assert forall|i: int| 0 <= i < found@.len() implies trimmed(#[trigger] found@[i]@)
            == stated[i] by {
            assert(texts(found@)[i] == found@[i]@);
        }
    }
    let mut wanted = package_requirements(system);
    put(&mut wanted, "rocdxg-roct=".to_owned().concat(system.rocdxg.version.as_str()).as_str());
    let ghost all = texts(wanted@);
    proof {
        reveal_strlit("rocdxg-roct=");
        reveal_strlit("rocdxg-roct");
        reveal_strlit("=");
        assert("rocdxg-roct="@ =~= "rocdxg-roct"@ + "="@);
        assert(all =~= requirements(*system));
    }
    let mut i: usize = 0;
    assert(all.skip(0) =~= all);
    while i < wanted.len()
        invariant
            i <= wanted@.len(),
            output.success,
            text@ == decoded(output.stdout@),
            stated == all_trimmed_lines(text@),
            Seq::new(found@.len(), |i: int| trimmed(found@[i]@)) == stated,
            all == texts(wanted@),
            all == requirements(*system),
            first_missing(all, stated) == first_missing(all.skip(i as int), stated),
        decreases wanted@.len() - i,
    {
        assert(all.skip(i as int).drop_first() =~= all.skip(i as int + 1));
        assert(all.skip(i as int)[0] == wanted@[i as int]@);
        if !states(&found, wanted[i].as_str()) {
            return Err(
                Failure::about(
                    "installed ROCm system runtime does not match the pinned catalog: missing ",
                    wanted[i].as_str(),
                ),
            );
        }
        i += 1;
    }
    assert(all.skip(i as int) =~= Seq::<Seq<char>>::empty());
    Ok(text)
}

/// A system runtime passes only where everything that it needs is installed in the
/// version that it is held to.
pub proof fn a_fit_system_has_everything(output: CommandOutput, system: RocmSystemRuntime, i: int)
    requires
        system_state(output, system) is Ok,
        0 <= i < requirements(system).len(),
    ensures
        all_trimmed_lines(decoded(output.stdout@)).contains(requirements(system)[i]),
{
    lemma_nothing_missing(requirements(system), all_trimmed_lines(decoded(output.stdout@)), i);
}

proof fn lemma_nothing_missing(wanted: Seq<Seq<char>>, stated: Seq<Seq<char>>, i: int)
    requires
        first_missing(wanted, stated) is None,
        0 <= i < wanted.len(),
    ensures
        stated.contains(wanted[i]),
    decreases wanted.len(),
{
    if i > 0 {
        lemma_nothing_missing(wanted.drop_first(), stated, i - 1);
    }
}

/// What is done about a package.
#[derive(Clone, Copy, Debug, PartialEq, Eq, Structural)]
pub enum PackageNeed {
    /// It is installed in its version.
    Installed,
    /// Its file is in the cache of the distribution.
    InCache,
    /// It has to be downloaded.
    Download,
}

/// What is done about a package.
pub open spec fn need_of(asset: RocmPackageAsset, stated: Seq<Seq<char>>, cached: bool) -> PackageNeed {
    if stated_version(stated, asset.name@) == Some(asset.version@) {
        PackageNeed::Installed
    } else if cached {
        PackageNeed::InCache
    } else {
        PackageNeed::Download
    }
}

/// What is done about a package; `cached` is whether the cache of the distribution holds
/// its file.
pub fn package_need(asset: &RocmPackageAsset, stated: &Vec<String>, cached: bool) -> (r: PackageNeed)
    ensures
        r == need_of(*asset, texts(stated@), cached),
{
    let installed = match installed_version(stated, asset.name.as_str()) {
        Some(version) => text_eq(version.as_str(), asset.version.as_str()),
        None => false,
    };
    if installed {
        PackageNeed::Installed
    } else if cached {
        PackageNeed::InCache
    } else {
        PackageNeed::Download
    }
}

/// Where the distribution keeps the file of a package.
pub fn apt_cache_path(asset: &RocmPackageAsset) -> (r: String)
    ensures
        r@ == "/var/cache/apt/archives/"@ + asset.filename@,
{
    "/var/cache/apt/archives/".to_owned().concat(asset.filename.as_str())
}

/// The places of the packages that have to be downloaded.
pub open spec fn pending(
    assets: Seq<RocmPackageAsset>,
    stated: Seq<Seq<char>>,
    cached: Seq<bool>,
) -> Seq<int>
    decreases assets.len(),
{
    if assets.len() == 0 {
        Seq::empty()
    } else {
        let i = assets.len() - 1;
        let before = pending(assets.drop_last(), stated, cached);
        if need_of(assets[i], stated, cached[i]) is Download {
            before.push(i)
        } else {
            before
        }
    }
}

pub open spec fn as_ints(v: Seq<usize>) -> Seq<int> {
    Seq::new(v.len(), |i: int| v[i] as int)
}

/// The places of the packages that have to be downloaded.
pub fn plan_downloads(
    assets: &Vec<RocmPackageAsset>,
    stated: &Vec<String>,
    cached: &Vec<bool>,
) -> (r: Vec<usize>)
    requires
        cached@.len() == assets@.len(),
    ensures
        as_ints(r@) == pending(assets@, texts(stated@), cached@),
{
    let ghost s = texts(stated@);
    let mut r: Vec<usize> = Vec::new();
    let mut i: usize = 0;
    assert(as_ints(r@) =~= pending(assets@.take(0), s, cached@));
    while i < assets.len()
        invariant
            i <= assets@.len(),
            cached@.len() == assets@.len(),
            s == texts(stated@),
            as_ints(r@) == pending(assets@.take(i as int), s, cached@),
        decreases assets@.len() - i,
    {
        assert(assets@.take(i as int + 1).drop_last() =~= assets@.take(i as int));
        assert(assets@.take(i as int + 1)[i as int] == assets@[i as int]);
        let ghost before = r@;
        match package_need(&assets[i], stated, cached[i]) {
            PackageNeed::Download => {
                r.push(i);
                assert(as_ints(r@) =~= as_ints(before).push(i as int));
            },
            _ => {},
        }
        i += 1;
    }
    assert(assets@.take(i as int) =~= assets@);
    r
}

/// A file on this machine: its length and its checksum.
#[derive(Debug)]
pub struct FileFacts {
    pub size: u64,
    pub sha256: String,
}

/// The checksum of bytes, as it is written.
pub fn sha256_text(bytes: &Vec<u8>) -> (r: String)
    ensures
        r@ == hex_bytes(sha256_digest(bytes@)),
{
    show_hex_bytes(&sha256(bytes))
}

/// Whether a file is that of a package.
pub open spec fn is_package(file: FileFacts, asset: RocmPackageAsset) -> bool {
    file.size == asset.size && same_ignoring_case(file.sha256@, asset.sha256@)
}

/// How far the download of a package has come.
#[derive(Debug)]
pub enum PackagePhase {
    /// Looks for the finished file.
    CheckVerified,
    /// Removes a finished file with other contents.
    RemoveVerified,
    /// Looks for a part of the file.
    CheckPartial,
    /// Takes a part that turned out to be whole for the finished file.
    PromotePartial,
    /// Removes a part that cannot become the file.
    RemovePartial,
    /// Fetches the file, or the rest of it.
    Fetch,
    /// Looks at what was fetched.
    CheckFetched,
    /// Takes what was fetched for the finished file.
    Commit,
    /// The finished file is there; `cached` is whether it was there before.
    Verified { cached: bool },
    Failed(Failure),
}

pub enum PackagePhaseView {
    CheckVerified,
    RemoveVerified,
    CheckPartial,
    PromotePartial,
    RemovePartial,
    Fetch,
    CheckFetched,
    Commit,
    Verified { cached: bool },
    Failed(Seq<char>),
}

impl View for PackagePhase {
    type V = PackagePhaseView;

    open spec fn view(&self) -> PackagePhaseView {
        match self {
            PackagePhase::CheckVerified => PackagePhaseView::CheckVerified,
            PackagePhase::RemoveVerified => PackagePhaseView::RemoveVerified,
            PackagePhase::CheckPartial => PackagePhaseView::CheckPartial,
            PackagePhase::PromotePartial => PackagePhaseView::PromotePartial,
            PackagePhase::RemovePartial => PackagePhaseView::RemovePartial,
            PackagePhase::Fetch => PackagePhaseView::Fetch,
            PackagePhase::CheckFetched => PackagePhaseView::CheckFetched,
            PackagePhase::Commit => PackagePhaseView::Commit,
            PackagePhase::Verified { cached } => PackagePhaseView::Verified { cached: *cached },
            PackagePhase::Failed(e) => PackagePhaseView::Failed(e@),
        }
    }
}

/// What came of a phase.
#[derive(Debug)]
pub enum PackageEvent {
    /// There is no file at this path.
    Missing(String),
    /// There is one.
    Found(FileFacts),
    /// What was to be done is done.
    Done,
    /// It went wrong.
    Broken(String),
}

/// What is said of a package that is not what it should be.
pub open spec fn package_mismatch(asset: RocmPackageAsset, file: FileFacts) -> Seq<char> {
    "ROCm package "@ + asset.name@ + " checksum mismatch: expected "@ + decimal(asset.size as nat)
        + " bytes / "@ + asset.sha256@ + ", got "@ + decimal(file.size as nat) + " bytes / "@
        + file.sha256@
}

/// How far the download of a package has come after an event. An event that does not fit
/// the phase changes nothing.
pub open spec fn package_after(
    phase: PackagePhaseView,
    asset: RocmPackageAsset,
    event: PackageEvent,
) -> PackagePhaseView {
    match (phase, event) {
        (PackagePhaseView::Verified { cached }, _) => phase,
        (PackagePhaseView::Failed(e), _) => phase,
        (_, PackageEvent::Broken(reason)) => PackagePhaseView::Failed(reason@),
        (PackagePhaseView::CheckVerified, PackageEvent::Missing(_)) => PackagePhaseView::CheckPartial,
        (PackagePhaseView::CheckVerified, PackageEvent::Found(file)) => if is_package(
            file,
            asset,
        ) {
            PackagePhaseView::Verified { cached: true }
        } else {
            PackagePhaseView::RemoveVerified
        },
        (PackagePhaseView::RemoveVerified, PackageEvent::Done) => PackagePhaseView::CheckPartial,
        (PackagePhaseView::CheckPartial, PackageEvent::Missing(_)) => PackagePhaseView::Fetch,
        (PackagePhaseView::CheckPartial, PackageEvent::Found(file)) => if file.size < asset.size {
            PackagePhaseView::Fetch
        } else if is_package(file, asset) {
            PackagePhaseView::PromotePartial
        } else {
            PackagePhaseView::RemovePartial
        },
        (PackagePhaseView::PromotePartial, PackageEvent::Done) => PackagePhaseView::Verified {
            cached: true,
        },
        (PackagePhaseView::RemovePartial, PackageEvent::Done) => PackagePhaseView::Fetch,
        (PackagePhaseView::Fetch, PackageEvent::Done) => PackagePhaseView::CheckFetched,
        (PackagePhaseView::CheckFetched, PackageEvent::Missing(path)) => PackagePhaseView::Failed(
            "downloaded ROCm package "@ + asset.name@ + " is missing from "@ + path@,
        ),
        (PackagePhaseView::CheckFetched, PackageEvent::Found(file)) => if is_package(file, asset) {
            PackagePhaseView::Commit
        } else {
            PackagePhaseView::Failed(package_mismatch(asset, file))
        },
        (PackagePhaseView::Commit, PackageEvent::Done) => PackagePhaseView::Verified {
            cached: false,
        },
        _ => phase,
    }
}

fn matches_package(file: &FileFacts, asset: &RocmPackageAsset) -> (r: bool)
    ensures
        r == is_package(*file, *asset),
{
    file.size == asset.size && eq_ignoring_case(file.sha256.as_str(), asset.sha256.as_str())
}

impl PackagePhase {
    /// How far the download has come after an event.
    pub fn step(self, asset: &RocmPackageAsset, event: PackageEvent) -> (r: PackagePhase)
        ensures
            r@ == package_after(self@, *asset, event),
    {
        match (self, event) {
            (PackagePhase::Verified { cached }, _) => PackagePhase::Verified { cached },
            (PackagePhase::Failed(e), _) => PackagePhase::Failed(e),
            (_, PackageEvent::Broken(reason)) => PackagePhase::Failed(
                Failure { message: reason },
            ),
            (PackagePhase::CheckVerified, PackageEvent::Missing(_)) => PackagePhase::CheckPartial,
            (PackagePhase::CheckVerified, PackageEvent::Found(file)) => if matches_package(
                &file,
                asset,
            ) {
                PackagePhase::Verified { cached: true }
            } else {
                PackagePhase::RemoveVerified
            },
            (PackagePhase::RemoveVerified, PackageEvent::Done) => PackagePhase::CheckPartial,
            (PackagePhase::CheckPartial, PackageEvent::Missing(_)) => PackagePhase::Fetch,
            (PackagePhase::CheckPartial, PackageEvent::Found(file)) => {
                if file.size < asset.size {
                    PackagePhase::Fetch
                } else if matches_package(&file, asset) {
                    PackagePhase::PromotePartial
                } else {
                    PackagePhase::RemovePartial
                }
            },
            (PackagePhase::PromotePartial, PackageEvent::Done) => PackagePhase::Verified {
                cached: true,
            },
            (PackagePhase::RemovePartial, PackageEvent::Done) => PackagePhase::Fetch,
            (PackagePhase::Fetch, PackageEvent::Done) => PackagePhase::CheckFetched,
            (PackagePhase::CheckFetched, PackageEvent::Missing(path)) => PackagePhase::Failed(
                Failure {
                    message: "downloaded ROCm package ".to_owned().concat(
                        asset.name.as_str(),
                    ).concat(" is missing from ").concat(path.as_str()),
                },
            ),
            (PackagePhase::CheckFetched, PackageEvent::Found(file)) => {
                if matches_package(&file, asset) {
                    PackagePhase::Commit
                } else {
                    let message = "ROCm package ".to_owned().concat(asset.name.as_str()).concat(
                        " checksum mismatch: expected ",
                    ).concat(show(asset.size).as_str()).concat(" bytes / ").concat(
                        asset.sha256.as_str(),
                    ).concat(", got ").concat(show(file.size).as_str()).concat(" bytes / ").concat(
                        file.sha256.as_str(),
                    );
                    PackagePhase::Failed(Failure { message })
                }
            },
            (PackagePhase::Commit, PackageEvent::Done) => PackagePhase::Verified { cached: false },
            (phase, _) => phase,
        }
    }
}

/// Whether the file of a package is known to be right, or has just been found so.
pub open spec fn found_right(phase: PackagePhaseView) -> bool {
    phase is PromotePartial || phase is Commit || phase is Verified
}

/// A file is taken for that of a package only when it has been seen to have the length and
/// the checksum that the package is held to.
pub proof fn packages_are_verified_first(
    phase: PackagePhaseView,
    asset: RocmPackageAsset,
    event: PackageEvent,
)
    requires
        !found_right(phase),
        found_right(package_after(phase, asset, event)),
    ensures
        event matches PackageEvent::Found(file) && is_package(file, asset),
{
}

/// A part of a file that can still grow into the package is kept.
pub proof fn unfinished_downloads_are_resumed(asset: RocmPackageAsset, file: FileFacts)
    requires
        file.size < asset.size,
    ensures
        package_after(PackagePhaseView::CheckPartial, asset, PackageEvent::Found(file)) is Fetch,
{
}

/// Where a package comes from.
#[derive(Debug)]
pub enum PackageSource {
    /// A file at a path on this machine.
    File(String),
    /// The network.
    Network,
}

/// Where a package comes from.
pub fn package_source(url: &str) -> (r: PackageSource)
    ensures
        match r {
            PackageSource::File(path) => without_prefix(url@, "file://"@) == Some(path@),
            PackageSource::Network => without_prefix(url@, "file://"@) is None,
        },
{
    match strip_prefix(url, "file://") {
        Some(path) => PackageSource::File(path),
        None => PackageSource::Network,
    }
}

/// How much has to have come in before progress is reported again.
pub const PROGRESS_STEP: u64 = 8_388_608;

/// Whether progress is reported: enough has come in since the last time, or all of it.
pub fn progress_due(downloaded: u64, reported: u64, size: u64) -> (r: bool)
    ensures
        r == (downloaded >= size || (if reported + PROGRESS_STEP > u64::MAX {
            downloaded == u64::MAX
        } else {
            downloaded >= reported + PROGRESS_STEP
        })),
{
    if downloaded >= size {
        return true;
    }
    if reported > 18_446_744_073_701_163_007 {
        downloaded == u64::MAX
    } else {
        downloaded >= reported + PROGRESS_STEP
    }
}

/// The arguments for `curl` before those of the single files.
pub open spec fn curl_options() -> Seq<Seq<char>> {
    no_args().push("--fail"@).push("--location"@).push("--retry"@).push("8"@).push(
        "--retry-all-errors"@,
    ).push("--retry-delay"@).push("2"@).push("--connect-timeout"@).push("30"@).push(
        "--speed-limit"@,
    ).push("1024"@).push("--speed-time"@).push("60"@).push("--parallel"@).push(
        "--parallel-max"@,
    ).push("4"@).push("--silent"@).push("--show-error"@)
}

/// The arguments for `curl` for the first files: each goes on where it was left.
pub open spec fn curl_arguments(targets: Seq<(String, String)>) -> Seq<Seq<char>>
    decreases targets.len(),
{
    if targets.len() == 0 {
        curl_options()
    } else {
        curl_arguments(targets.drop_last()).push("--continue-at"@).push("-"@).push(
            "--output"@,
        ).push(targets.last().0@).push(targets.last().1@)
    }
}

/// The arguments for `curl`: each of the files goes on where it was left. A file is given
/// by its path and its address.
pub fn curl_command(targets: &Vec<(String, String)>) -> (r: Vec<String>)
    ensures
        texts(r@) == curl_arguments(targets@),
{
    let mut args = Args::new().with("--fail").with("--location").with("--retry").with("8").with(
        "--retry-all-errors",
    ).with("--retry-delay").with("2").with("--connect-timeout").with("30").with(
        "--speed-limit",
    ).with("1024").with("--speed-time").with("60").with("--parallel").with("--parallel-max").with(
        "4",
    ).with("--silent").with("--show-error");
    let mut i: usize = 0;
    assert(targets@.take(0) =~= Seq::<(String, String)>::empty());
    while i < targets.len()
        invariant
            i <= targets@.len(),
            args@ == curl_arguments(targets@.take(i as int)),
        decreases targets@.len() - i,
    {
        assert(targets@.take(i as int + 1).drop_last() =~= targets@.take(i as int));
        assert(targets@.take(i as int + 1).last() == targets@[i as int]);
        args = args.with("--continue-at").with("-").with("--output").with(
            targets[i].0.as_str(),
        ).with(targets[i].1.as_str());
        i += 1;
    }
    assert(targets@.take(i as int) =~= targets@);
    args.done()
}

/// What is said where `curl` failed.
pub fn curl_failure(status: &str, stderr: &str) -> (r: Failure)
    ensures
        r@ == "Windows curl.exe failed while downloading ROCm packages with "@ + status@ + ": "@
            + trimmed(stderr@)
            + ". Re-run the install to resume verified partial downloads."@,
{
    let message = "Windows curl.exe failed while downloading ROCm packages with ".to_owned().concat(
        status,
    ).concat(": ").concat(trim(stderr).as_str()).concat(
        ". Re-run the install to resume verified partial downloads.",
    );
    Failure { message }
}

} // verus!
