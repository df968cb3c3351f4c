//! What is kept of an installed runtime.
use vstd::prelude::*;

use crate::json::{field, member, no_fields, number_member, text_member, Fields, Json, JsonView};
use crate::outside::{sha256, sha256_digest};
use crate::runtime::plan::{
    absolute_linux_path, has_control, usable_manifest, ManifestView, WslVllmLauncherManifest,
};
use crate::text::bytes::bytes_of;
use crate::text::chars::{control, lowered, text_eq, to_lower};
use crate::text::compose::{replace, replaced};
use crate::text::number::{digit_char, hex_bytes, hex_digits, show_hex_bytes};
use crate::text::pieces::pieces;
use crate::text::trim::{blank, right_trimmed, trim_end_of, CharClass};
use crate::wsl::catalog::{managed_backend, PinnedAsset, PythonRuntimeEntry, PythonRuntimeVariant};
use crate::wsl::detection::WslContext;
use crate::wsl::scripts::RUNTIME_ENVIRONMENT_VERSION;

verus! {

/// What a digest of a directory comes to as part of a path.
pub open spec fn key_of(digest: Seq<u8>) -> Seq<char> {
    hex_bytes(digest.take(8))
}

/// A directory of Windows as it is told apart from others: the kind of its slashes and the
/// case of its letters do not count.
pub open spec fn plain_directory(runtime_dir: Seq<char>) -> Seq<char> {
    lowered(replaced(runtime_dir, '\\', "/"@))
}

/// What a digest of a directory comes to as part of a path.
pub fn key_from_digest(digest: &Vec<u8>) -> (r: String)
    requires
        digest@.len() >= 8,
    ensures
        r@ == key_of(digest@),
{
    let mut first: Vec<u8> = Vec::new();
    let mut i: usize = 0;
    while i < 8
        invariant
            i <= 8,
            digest@.len() >= 8,
            first@ == digest@.take(i as int),
        decreases 8 - i,
    {
        first.push(digest[i]);
        assert(digest@.take(i as int + 1) =~= digest@.take(i as int).push(digest@[i as int]));
        i += 1;
    }
    show_hex_bytes(&first)
}

/// The name under which the runtimes of a directory are kept inside the distribution.
pub fn runtime_key(runtime_dir: &str) -> (r: String)
    ensures
        r@ == key_of(sha256_digest(vstd::utf8::encode_utf8(plain_directory(runtime_dir@)))),
{
    let plain = to_lower(replace(runtime_dir, '\\', "/").as_str());
    let digest = sha256(&bytes_of(plain.as_str()));
    key_from_digest(&digest)
}

/// The directory for the runtimes of a backend.
pub open spec fn base_path(home: Seq<char>, backend: Seq<char>, key: Seq<char>) -> Seq<char> {
    right_trimmed(home, CharClass::Only('/')) + "/.local/share/omniinfer/runtimes/"@ + backend
        + "/"@ + key
}

/// The directory for the runtimes of a backend.
pub fn linux_base(home: &str, backend: &str, key: &str) -> (r: String)
    ensures
        r@ == base_path(home@, backend@, key@),
{
    trim_end_of(home, CharClass::Only('/')).concat("/.local/share/omniinfer/runtimes/").concat(
        backend,
    ).concat("/").concat(key)
}

/// What is kept on the side of Windows of an installed runtime.
#[derive(Debug)]
pub struct LauncherManifest {
    pub schema_version: u32,
    pub backend: String,
    pub distribution: String,
    pub linux_launcher: String,
    pub linux_runner: String,
    pub linux_stopper: String,
    pub linux_pid_dir: String,
    pub automount_root: String,
    pub source: String,
    pub tag: String,
    pub python: String,
    pub uv_version: String,
    pub uv_sha256: String,
    pub package_version: String,
    pub wheel_sha256: String,
    pub accelerator: String,
    pub runtime_version: String,
    pub runtime_environment_version: u32,
}

/// What a manifest says.
#[verifier::ext_equal]
pub struct LauncherView {
    pub schema_version: u32,
    pub backend: Seq<char>,
    pub distribution: Seq<char>,
    pub linux_launcher: Seq<char>,
    pub linux_runner: Seq<char>,
    pub linux_stopper: Seq<char>,
    pub linux_pid_dir: Seq<char>,
    pub automount_root: Seq<char>,
    pub source: Seq<char>,
    pub tag: Seq<char>,
    pub python: Seq<char>,
    pub uv_version: Seq<char>,
    pub uv_sha256: Seq<char>,
    pub package_version: Seq<char>,
    pub wheel_sha256: Seq<char>,
    pub accelerator: Seq<char>,
    pub runtime_version: Seq<char>,
    pub runtime_environment_version: u32,
}

impl View for LauncherManifest {
    type V = LauncherView;

    open spec fn view(&self) -> LauncherView {
        LauncherView {
            schema_version: self.schema_version,
            backend: self.backend@,
            distribution: self.distribution@,
            linux_launcher: self.linux_launcher@,
            linux_runner: self.linux_runner@,
            linux_stopper: self.linux_stopper@,
            linux_pid_dir: self.linux_pid_dir@,
            automount_root: self.automount_root@,
            source: self.source@,
            tag: self.tag@,
            python: self.python@,
            uv_version: self.uv_version@,
            uv_sha256: self.uv_sha256@,
            package_version: self.package_version@,
            wheel_sha256: self.wheel_sha256@,
            accelerator: self.accelerator@,
            runtime_version: self.runtime_version@,
            runtime_environment_version: self.runtime_environment_version,
        }
    }
}

/// The manifest of a runtime that is installed as the catalog says.
pub open spec fn expected_launcher(
    backend: Seq<char>,
    wsl: WslContext,
    entry: PythonRuntimeEntry,
    uv: PinnedAsset,
    variant: PythonRuntimeVariant,
    current: Seq<char>,
) -> LauncherView {
    LauncherView {
        schema_version: 1,
        backend,
        distribution: wsl.distribution@,
        linux_launcher: current + "/venv/bin/"@ + entry.launcher@,
        linux_runner: current + "/bin/omniinfer-vllm-run"@,
        linux_stopper: current + "/bin/omniinfer-vllm-stop"@,
        linux_pid_dir: current + "/run"@,
        automount_root: wsl.automount_root@,
        source: entry.source@,
        tag: entry.tag@,
        python: entry.python@,
        uv_version: uv.version@,
        uv_sha256: uv.sha256@,
        package_version: variant.version@,
        wheel_sha256: variant.sha256@,
        accelerator: variant.accelerator@,
        runtime_version: variant.runtime_version@,
        runtime_environment_version: RUNTIME_ENVIRONMENT_VERSION,
    }
}

/// The manifest of a runtime that is installed as the catalog says.
pub fn launcher_manifest(
    backend: &str,
    wsl: &WslContext,
    entry: &PythonRuntimeEntry,
    uv: &PinnedAsset,
    variant: &PythonRuntimeVariant,
    current: &str,
) -> (r: LauncherManifest)
    ensures
        r@ == expected_launcher(backend@, *wsl, *entry, *uv, *variant, current@),
{
    LauncherManifest {
        schema_version: 1,
        backend: backend.to_owned(),
        distribution: wsl.distribution.as_str().to_owned(),
        linux_launcher: current.to_owned().concat("/venv/bin/").concat(entry.launcher.as_str()),
        linux_runner: current.to_owned().concat("/bin/omniinfer-vllm-run"),
        linux_stopper: current.to_owned().concat("/bin/omniinfer-vllm-stop"),
        linux_pid_dir: current.to_owned().concat("/run"),
        automount_root: wsl.automount_root.as_str().to_owned(),
        source: entry.source.as_str().to_owned(),
        tag: entry.tag.as_str().to_owned(),
        python: entry.python.as_str().to_owned(),
        uv_version: uv.version.as_str().to_owned(),
        uv_sha256: uv.sha256.as_str().to_owned(),
        package_version: variant.version.as_str().to_owned(),
        wheel_sha256: variant.sha256.as_str().to_owned(),
        accelerator: variant.accelerator.as_str().to_owned(),
        runtime_version: variant.runtime_version.as_str().to_owned(),
        runtime_environment_version: RUNTIME_ENVIRONMENT_VERSION,
    }
}

/// Whether a manifest is the expected one, in every part.
pub fn launcher_manifest_matches(actual: &LauncherManifest, expected: &LauncherManifest) -> (r:
    bool)
    ensures
        r == (actual@ == expected@),
{
    actual.schema_version == expected.schema_version && text_eq(
        actual.backend.as_str(),
        expected.backend.as_str(),
    ) && text_eq(actual.distribution.as_str(), expected.distribution.as_str()) && text_eq(
        actual.source.as_str(),
        expected.source.as_str(),
    ) && text_eq(actual.tag.as_str(), expected.tag.as_str()) && text_eq(
        actual.python.as_str(),
        expected.python.as_str(),
    ) && text_eq(actual.uv_version.as_str(), expected.uv_version.as_str()) && text_eq(
        actual.uv_sha256.as_str(),
        expected.uv_sha256.as_str(),
    ) && text_eq(actual.package_version.as_str(), expected.package_version.as_str()) && text_eq(
        actual.wheel_sha256.as_str(),
        expected.wheel_sha256.as_str(),
    ) && text_eq(actual.accelerator.as_str(), expected.accelerator.as_str()) && text_eq(
        actual.runtime_version.as_str(),
        expected.runtime_version.as_str(),
    ) && actual.runtime_environment_version == expected.runtime_environment_version && text_eq(
        actual.linux_launcher.as_str(),
        expected.linux_launcher.as_str(),
    ) && text_eq(actual.linux_runner.as_str(), expected.linux_runner.as_str()) && text_eq(
        actual.linux_stopper.as_str(),
        expected.linux_stopper.as_str(),
    ) && text_eq(actual.linux_pid_dir.as_str(), expected.linux_pid_dir.as_str()) && text_eq(
        actual.automount_root.as_str(),
        expected.automount_root.as_str(),
    )
}

/// A manifest as it is written down.
pub open spec fn launcher_json(m: LauncherView) -> JsonView {
    JsonView::Object(
        no_fields()
            .push(("schema_version"@, JsonView::Unsigned(m.schema_version as nat)))
            .push(("backend"@, JsonView::Text(m.backend)))
            .push(("distribution"@, JsonView::Text(m.distribution)))
            .push(("linux_launcher"@, JsonView::Text(m.linux_launcher)))
            .push(("linux_runner"@, JsonView::Text(m.linux_runner)))
            .push(("linux_stopper"@, JsonView::Text(m.linux_stopper)))
            .push(("linux_pid_dir"@, JsonView::Text(m.linux_pid_dir)))
            .push(("automount_root"@, JsonView::Text(m.automount_root)))
            .push(("source"@, JsonView::Text(m.source)))
            .push(("tag"@, JsonView::Text(m.tag)))
            .push(("python"@, JsonView::Text(m.python)))
            .push(("uv_version"@, JsonView::Text(m.uv_version)))
            .push(("uv_sha256"@, JsonView::Text(m.uv_sha256)))
            .push(("package_version"@, JsonView::Text(m.package_version)))
            .push(("wheel_sha256"@, JsonView::Text(m.wheel_sha256)))
            .push(("accelerator"@, JsonView::Text(m.accelerator)))
            .push(("runtime_version"@, JsonView::Text(m.runtime_version)))
            .push(
                (
                    "runtime_environment_version"@,
                    JsonView::Unsigned(m.runtime_environment_version as nat),
                ),
            ),
    )
}

/// A manifest as it is written down.
pub fn launcher_payload(m: &LauncherManifest) -> (json: Json)
    ensures
        json@ == launcher_json(m@),
{
    let mut fields = Fields::new();
    fields.number("schema_version", m.schema_version as u64);
    fields.text("backend", m.backend.as_str());
    fields.text("distribution", m.distribution.as_str());
    fields.text("linux_launcher", m.linux_launcher.as_str());
    fields.text("linux_runner", m.linux_runner.as_str());
    fields.text("linux_stopper", m.linux_stopper.as_str());
    fields.text("linux_pid_dir", m.linux_pid_dir.as_str());
    fields.text("automount_root", m.automount_root.as_str());
    fields.text("source", m.source.as_str());
    fields.text("tag", m.tag.as_str());
    fields.text("python", m.python.as_str());
    fields.text("uv_version", m.uv_version.as_str());
    fields.text("uv_sha256", m.uv_sha256.as_str());
    fields.text("package_version", m.package_version.as_str());
    fields.text("wheel_sha256", m.wheel_sha256.as_str());
    fields.text("accelerator", m.accelerator.as_str());
    fields.text("runtime_version", m.runtime_version.as_str());
    fields.number("runtime_environment_version", m.runtime_environment_version as u64);
    fields.done()
}

/// A number under a key that fits into 32 bits.
pub open spec fn small_number(v: JsonView, key: Seq<char>) -> Option<u32> {
    match number_member(v, key) {
        Some(n) => if n <= u32::MAX {
            Some(n as u32)
        } else {
            None
        },
        None => None,
    }
}

/// A number under a key, or zero where the key is missing.
pub open spec fn defaulted_number(v: JsonView, key: Seq<char>) -> Option<u32> {
    match member(v, key) {
        None => Some(0u32),
        Some(_) => small_number(v, key),
    }
}

/// The first half of what a manifest says of its texts.
pub open spec fn first_texts(v: JsonView) -> Option<
    (Seq<char>, Seq<char>, Seq<char>, Seq<char>, Seq<char>, Seq<char>, Seq<char>, Seq<char>),
> {
    match (
        text_member(v, "backend"@),
        text_member(v, "distribution"@),
        text_member(v, "linux_launcher"@),
        text_member(v, "linux_runner"@),
        text_member(v, "linux_stopper"@),
        text_member(v, "linux_pid_dir"@),
        text_member(v, "automount_root"@),
        text_member(v, "source"@),
    ) {
        (Some(a), Some(b), Some(c), Some(d), Some(e), Some(f), Some(g), Some(h)) => Some(
            (a, b, c, d, e, f, g, h),
        ),
        _ => None,
    }
}

/// The second half of what a manifest says of its texts.
pub open spec fn second_texts(v: JsonView) -> Option<
    (Seq<char>, Seq<char>, Seq<char>, Seq<char>, Seq<char>, Seq<char>, Seq<char>, Seq<char>),
> {
    match (
        text_member(v, "tag"@),
        text_member(v, "python"@),
        text_member(v, "uv_version"@),
        text_member(v, "uv_sha256"@),
        text_member(v, "package_version"@),
        text_member(v, "wheel_sha256"@),
        text_member(v, "accelerator"@),
        text_member(v, "runtime_version"@),
    ) {
        (Some(a), Some(b), Some(c), Some(d), Some(e), Some(f), Some(g), Some(h)) => Some(
            (a, b, c, d, e, f, g, h),
        ),
        _ => None,
    }
}

/// The manifest that was written down; nothing where a part is missing or is of another
/// kind. Only the version of the settings may be missing.
pub open spec fn launcher_in(v: JsonView) -> Option<LauncherView> {
    match (
        small_number(v, "schema_version"@),
        first_texts(v),
        second_texts(v),
        defaulted_number(v, "runtime_environment_version"@),
    ) {
        (Some(schema_version), Some(p), Some(q), Some(runtime_environment_version)) => Some(
            LauncherView {
                schema_version,
                backend: p.0,
                distribution: p.1,
                linux_launcher: p.2,
                linux_runner: p.3,
                linux_stopper: p.4,
                linux_pid_dir: p.5,
                automount_root: p.6,
                source: p.7,
                tag: q.0,
                python: q.1,
                uv_version: q.2,
                uv_sha256: q.3,
                package_version: q.4,
                wheel_sha256: q.5,
                accelerator: q.6,
                runtime_version: q.7,
                runtime_environment_version,
            },
        ),
        _ => None,
    }
}

fn get_small(v: &Json, key: &str) -> (r: Option<u32>)
    ensures
        r == small_number(v@, key@),
{
    match v.get_number(key) {
        Some(n) => if n <= 0xffff_ffff {
            Some(n as u32)
        } else {
            None
        },
        None => None,
    }
}

/// The manifest that was written down.
pub fn read_launcher_manifest(v: &Json) -> (r: Option<LauncherManifest>)
    ensures
        match r {
            Some(m) => launcher_in(v@) == Some(m@),
            None => launcher_in(v@) is None,
        },
{
    let schema_version: u32 = match get_small(v, "schema_version") {
        Some(n) => n,
        None => {
            return None;
        },
    };
    let runtime_environment_version: u32 = match v.get("runtime_environment_version") {
        None => 0,
        Some(_) => match get_small(v, "runtime_environment_version") {
            Some(n) => n,
            None => {
                return None;
            },
        },
    };
    match (
        v.get_text("backend"),
        v.get_text("distribution"),
        v.get_text("linux_launcher"),
        v.get_text("linux_runner"),
        v.get_text("linux_stopper"),
        v.get_text("linux_pid_dir"),
        v.get_text("automount_root"),
        v.get_text("source"),
    ) {
        (
            Some(backend),
            Some(distribution),
            Some(linux_launcher),
            Some(linux_runner),
            Some(linux_stopper),
            Some(linux_pid_dir),
            Some(automount_root),
            Some(source),
        ) => match (
            v.get_text("tag"),
            v.get_text("python"),
            v.get_text("uv_version"),
            v.get_text("uv_sha256"),
            v.get_text("package_version"),
            v.get_text("wheel_sha256"),
            v.get_text("accelerator"),
            v.get_text("runtime_version"),
        ) {
            (
                Some(tag),
                Some(python),
                Some(uv_version),
                Some(uv_sha256),
                Some(package_version),
                Some(wheel_sha256),
                Some(accelerator),
                Some(runtime_version),
            ) => Some(
                LauncherManifest {
                    schema_version,
                    backend,
                    distribution,
                    linux_launcher,
                    linux_runner,
                    linux_stopper,
                    linux_pid_dir,
                    automount_root,
                    source,
                    tag,
                    python,
                    uv_version,
                    uv_sha256,
                    package_version,
                    wheel_sha256,
                    accelerator,
                    runtime_version,
                    runtime_environment_version,
                },
            ),
            _ => None,
        },
        _ => None,
    }
}

proof fn lemma_one_more(fields: Seq<(Seq<char>, JsonView)>, key: Seq<char>, value: JsonView)
    ensures
        field(fields.push((key, value)), key) == Some(value),
        forall|other: Seq<char>|
            other != key ==> #[trigger] field(fields.push((key, value)), other) == field(
                fields,
                other,
            ),
{
    assert(fields.push((key, value)).drop_last() =~= fields);
}

/// A manifest that was written down is read back as it was.
pub proof fn written_manifests_are_read_back(m: LauncherView)
    ensures
        launcher_in(launcher_json(m)) == Some(m),
{
    reveal_strlit("schema_version");
    reveal_strlit("backend");
    reveal_strlit("distribution");
    reveal_strlit("linux_launcher");
    reveal_strlit("linux_runner");
    reveal_strlit("linux_stopper");
    reveal_strlit("linux_pid_dir");
    reveal_strlit("automount_root");
    reveal_strlit("source");
    reveal_strlit("tag");
    reveal_strlit("python");
    reveal_strlit("uv_version");
    reveal_strlit("uv_sha256");
    reveal_strlit("package_version");
    reveal_strlit("wheel_sha256");
    reveal_strlit("accelerator");
    reveal_strlit("runtime_version");
    reveal_strlit("runtime_environment_version");
    assert("schema_version"@.len() == 14);
    assert("backend"@.len() == 7);
    assert("distribution"@.len() == 12);
    assert("linux_launcher"@.len() == 14);
    assert("linux_runner"@.len() == 12);
    assert("linux_stopper"@.len() == 13);
    assert("linux_pid_dir"@.len() == 13);
    assert("automount_root"@.len() == 14);
    assert("source"@.len() == 6);
    assert("tag"@.len() == 3);
    assert("python"@.len() == 6);
    assert("uv_version"@.len() == 10);
    assert("uv_sha256"@.len() == 9);
    assert("package_version"@.len() == 15);
    assert("wheel_sha256"@.len() == 12);
    assert("accelerator"@.len() == 11);
    assert("runtime_version"@.len() == 15);
    assert("runtime_environment_version"@.len() == 27);
    assert("schema_version"@[0] == 's' && "linux_launcher"@[0] == 'l' && "automount_root"@[0]
        == 'a');
    assert("distribution"@[0] == 'd' && "linux_runner"@[0] == 'l' && "wheel_sha256"@[0] == 'w');
    assert("linux_stopper"@[6] == 's' && "linux_pid_dir"@[6] == 'p');
    assert("source"@[0] == 's' && "python"@[0] == 'p');
    assert("package_version"@[0] == 'p' && "runtime_version"@[0] == 'r');
    let upto0 = no_fields();
    let upto1 = upto0.push(("schema_version"@, JsonView::Unsigned(m.schema_version as nat)));
    lemma_one_more(upto0, "schema_version"@, JsonView::Unsigned(m.schema_version as nat));
    let upto2 = upto1.push(("backend"@, JsonView::Text(m.backend)));
    lemma_one_more(upto1, "backend"@, JsonView::Text(m.backend));
    let upto3 = upto2.push(("distribution"@, JsonView::Text(m.distribution)));
    lemma_one_more(upto2, "distribution"@, JsonView::Text(m.distribution));
    let upto4 = upto3.push(("linux_launcher"@, JsonView::Text(m.linux_launcher)));
    lemma_one_more(upto3, "linux_launcher"@, JsonView::Text(m.linux_launcher));
    let upto5 = upto4.push(("linux_runner"@, JsonView::Text(m.linux_runner)));
    lemma_one_more(upto4, "linux_runner"@, JsonView::Text(m.linux_runner));
    let upto6 = upto5.push(("linux_stopper"@, JsonView::Text(m.linux_stopper)));
    lemma_one_more(upto5, "linux_stopper"@, JsonView::Text(m.linux_stopper));
    let upto7 = upto6.push(("linux_pid_dir"@, JsonView::Text(m.linux_pid_dir)));
    lemma_one_more(upto6, "linux_pid_dir"@, JsonView::Text(m.linux_pid_dir));
    let upto8 = upto7.push(("automount_root"@, JsonView::Text(m.automount_root)));
    lemma_one_more(upto7, "automount_root"@, JsonView::Text(m.automount_root));
    let upto9 = upto8.push(("source"@, JsonView::Text(m.source)));
    lemma_one_more(upto8, "source"@, JsonView::Text(m.source));
    let upto10 = upto9.push(("tag"@, JsonView::Text(m.tag)));
    lemma_one_more(upto9, "tag"@, JsonView::Text(m.tag));
    let upto11 = upto10.push(("python"@, JsonView::Text(m.python)));
    lemma_one_more(upto10, "python"@, JsonView::Text(m.python));
    let upto12 = upto11.push(("uv_version"@, JsonView::Text(m.uv_version)));
    lemma_one_more(upto11, "uv_version"@, JsonView::Text(m.uv_version));
    let upto13 = upto12.push(("uv_sha256"@, JsonView::Text(m.uv_sha256)));
    lemma_one_more(upto12, "uv_sha256"@, JsonView::Text(m.uv_sha256));
    let upto14 = upto13.push(("package_version"@, JsonView::Text(m.package_version)));
    lemma_one_more(upto13, "package_version"@, JsonView::Text(m.package_version));
    let upto15 = upto14.push(("wheel_sha256"@, JsonView::Text(m.wheel_sha256)));
    lemma_one_more(upto14, "wheel_sha256"@, JsonView::Text(m.wheel_sha256));
    let upto16 = upto15.push(("accelerator"@, JsonView::Text(m.accelerator)));
    lemma_one_more(upto15, "accelerator"@, JsonView::Text(m.accelerator));
    let upto17 = upto16.push(("runtime_version"@, JsonView::Text(m.runtime_version)));
    lemma_one_more(upto16, "runtime_version"@, JsonView::Text(m.runtime_version));
    let last = JsonView::Unsigned(m.runtime_environment_version as nat);
    lemma_one_more(upto17, "runtime_environment_version"@, last);
    let all = upto17.push(("runtime_environment_version"@, last));
    assert(launcher_json(m) == JsonView::Object(all));
    assert(field(all, "schema_version"@) == Some(JsonView::Unsigned(m.schema_version as nat)));
    assert(field(all, "backend"@) == Some(JsonView::Text(m.backend)));
    assert(field(all, "distribution"@) == Some(JsonView::Text(m.distribution)));
    assert(field(all, "linux_launcher"@) == Some(JsonView::Text(m.linux_launcher)));
    assert(field(all, "linux_runner"@) == Some(JsonView::Text(m.linux_runner)));
    assert(field(all, "linux_stopper"@) == Some(JsonView::Text(m.linux_stopper)));
    assert(field(all, "linux_pid_dir"@) == Some(JsonView::Text(m.linux_pid_dir)));
    assert(field(all, "automount_root"@) == Some(JsonView::Text(m.automount_root)));
    assert(field(all, "source"@) == Some(JsonView::Text(m.source)));
    assert(field(all, "tag"@) == Some(JsonView::Text(m.tag)));
    assert(field(all, "python"@) == Some(JsonView::Text(m.python)));
    assert(field(all, "uv_version"@) == Some(JsonView::Text(m.uv_version)));
    assert(field(all, "uv_sha256"@) == Some(JsonView::Text(m.uv_sha256)));
    assert(field(all, "package_version"@) == Some(JsonView::Text(m.package_version)));
    assert(field(all, "wheel_sha256"@) == Some(JsonView::Text(m.wheel_sha256)));
    assert(field(all, "accelerator"@) == Some(JsonView::Text(m.accelerator)));
    assert(field(all, "runtime_version"@) == Some(JsonView::Text(m.runtime_version)));
    assert(field(all, "runtime_environment_version"@) == Some(JsonView::Unsigned(m.runtime_environment_version as nat)));
}

/// What the planner of a runtime reads of a manifest.
pub open spec fn planner_part(m: LauncherView) -> ManifestView {
    ManifestView {
        schema_version: m.schema_version,
        backend: m.backend,
        distribution: m.distribution,
        linux_launcher: m.linux_launcher,
        linux_runner: m.linux_runner,
        linux_stopper: m.linux_stopper,
        linux_pid_dir: m.linux_pid_dir,
        automount_root: m.automount_root,
    }
}

/// What the planner of a runtime reads of a manifest.
pub fn planner_manifest(m: &LauncherManifest) -> (r: WslVllmLauncherManifest)
    ensures
        r@ == planner_part(m@),
{
    WslVllmLauncherManifest {
        schema_version: m.schema_version,
        backend: m.backend.as_str().to_owned(),
        distribution: m.distribution.as_str().to_owned(),
        linux_launcher: m.linux_launcher.as_str().to_owned(),
        linux_runner: m.linux_runner.as_str().to_owned(),
        linux_stopper: m.linux_stopper.as_str().to_owned(),
        linux_pid_dir: m.linux_pid_dir.as_str().to_owned(),
        automount_root: m.automount_root.as_str().to_owned(),
    }
}

/// A name that can be part of a path: no slash and no control character.
#[verifier::opaque]
pub open spec fn clean(s: Seq<char>) -> bool
    decreases s.len(),
{
    s.len() == 0 || (s.last() != '/' && !control(s.last()) && clean(s.drop_last()))
}

proof fn lemma_clean(s: Seq<char>, i: int)
    requires
        clean(s),
        0 <= i < s.len(),
    ensures
        s[i] != '/',
        !control(s[i]),
    decreases s.len(),
{
    reveal_with_fuel(clean, 1);
    if i < s.len() - 1 {
        lemma_clean(s.drop_last(), i);
        assert(s.drop_last()[i] == s[i]);
    }
}

/// A beginning of an absolute path: no control character and no step upwards.
#[verifier::opaque]
pub open spec fn path_start(p: Seq<char>) -> bool {
    &&& p.len() > 0 ==> p[0] == '/'
    &&& !has_control(p)
    &&& !pieces(p, '/').contains(".."@)
}

proof fn lemma_added(p: Seq<char>, name: Seq<char>)
    requires
        clean(name),
    ensures
        pieces(p + seq!['/'] + name, '/') == pieces(p, '/').push(name),
    decreases name.len(),
{
    reveal_with_fuel(clean, 1);
    let whole = p + seq!['/'] + name;
    if name.len() == 0 {
        assert(whole =~= p.push('/'));
        assert(whole.drop_last() =~= p);
        assert(name =~= Seq::<char>::empty());
    } else {
        let less = name.drop_last();
        lemma_added(p, less);
        assert(whole.drop_last() =~= p + seq!['/'] + less);
        let before = pieces(whole.drop_last(), '/');
        assert(before.drop_last() =~= pieces(p, '/'));
        assert(less.push(name.last()) =~= name);
    }
}

proof fn lemma_longer(p: Seq<char>, name: Seq<char>)
    requires
        path_start(p),
        clean(name),
        name != ".."@,
    ensures
        path_start(p + "/"@ + name),
        absolute_linux_path(p + "/"@ + name),
{
    reveal(path_start);
    reveal_strlit("/");
    assert("/"@ =~= seq!['/']);
    let whole = p + "/"@ + name;
    lemma_added(p, name);
    assert(whole[0] == '/');
    assert forall|i: int| 0 <= i < whole.len() implies !control(#[trigger] whole[i]) by {
        if i < p.len() {
            assert(!control(p[i]));
        } else if i > p.len() {
            lemma_clean(name, i - p.len() - 1);
            assert(whole[i] == name[i - p.len() - 1]);
        }
    }
    let all = pieces(p, '/').push(name);
    if all.contains(".."@) {
        let i = choose|i: int| 0 <= i < all.len() && all[i] == ".."@;
        assert(pieces(p, '/')[i] == ".."@);
    }
}

proof fn lemma_shorter(p: Seq<char>)
    requires
        absolute_linux_path(p),
    ensures
        path_start(right_trimmed(p, CharClass::Only('/'))),
    decreases p.len(),
{
    reveal(path_start);
    let short = right_trimmed(p, CharClass::Only('/'));
    if p.last() == '/' {
        let q = p.drop_last();
        assert forall|i: int| 0 <= i < q.len() implies !control(#[trigger] q[i]) by {
            assert(!control(p[i]));
        }
        assert(pieces(p, '/') == pieces(q, '/').push(seq![]));
        if pieces(q, '/').contains(".."@) {
            let i = choose|i: int| 0 <= i < pieces(q, '/').len() && pieces(q, '/')[i] == ".."@;
            assert(pieces(p, '/')[i] == ".."@);
        }
        if q.len() > 0 {
            lemma_shorter(q);
        } else {
            assert(right_trimmed(q, CharClass::Only('/')) == q);
            assert(short == q);
        }
    }
}

proof fn lemma_key_is_clean(bytes: Seq<u8>)
    ensures
        clean(hex_bytes(bytes)),
        hex_bytes(bytes).len() == 2 * bytes.len(),
    decreases bytes.len(),
{
    reveal_with_fuel(clean, 1);
    if bytes.len() > 0 {
        let before = hex_bytes(bytes.drop_last());
        lemma_key_is_clean(bytes.drop_last());
        let n = bytes.last() as nat;
        reveal_with_fuel(hex_digits, 3);
        let high = digit_char((n / 16) % 16);
        let low = digit_char(n % 16);
        assert(hex_bytes(bytes) =~= before.push(high).push(low));
        assert(before.push(high).push(low).drop_last() =~= before.push(high));
        assert(before.push(high).drop_last() =~= before);
        assert(clean(before.push(high)));
    }
}

proof fn lemma_backend_is_clean(backend: Seq<char>)
    requires
        managed_backend(backend),
    ensures
        clean(backend) && backend != ".."@,
{
    reveal_with_fuel(clean, 16);
    reveal_strlit("..");
    reveal_strlit("vllm-wsl2-cuda");
    reveal_strlit("vllm-wsl2-rocm");
    assert("vllm-wsl2-cuda"@.len() == 14 && "vllm-wsl2-rocm"@.len() == 14 && ".."@.len() == 2);
    if backend == "vllm-wsl2-cuda"@ {
        assert(clean("vllm-wsl2-cuda"@));
    } else {
        assert(clean("vllm-wsl2-rocm"@));
    }
}

proof fn lemma_base_parts_are_clean()
    ensures
        clean(".local"@) && ".local"@ != ".."@,
        clean("share"@) && "share"@ != ".."@,
        clean("omniinfer"@) && "omniinfer"@ != ".."@,
        clean("runtimes"@) && "runtimes"@ != ".."@,
        clean("current"@) && "current"@ != ".."@,
{
    reveal_with_fuel(clean, 10);
    reveal_strlit("..");
    reveal_strlit(".local");
    reveal_strlit("share");
    reveal_strlit("omniinfer");
    reveal_strlit("runtimes");
    reveal_strlit("current");
    assert(".local"@.len() == 6 && "share"@.len() == 5 && "omniinfer"@.len() == 9
        && "runtimes"@.len() == 8 && "current"@.len() == 7 && ".."@.len() == 2);
}

proof fn lemma_run_parts_are_clean()
    ensures
        clean("venv"@) && "venv"@ != ".."@,
        clean("bin"@) && "bin"@ != ".."@,
        clean("run"@) && "run"@ != ".."@,
        clean("omniinfer-vllm-run"@) && "omniinfer-vllm-run"@ != ".."@,
        clean("omniinfer-vllm-stop"@) && "omniinfer-vllm-stop"@ != ".."@,
{
    reveal_strlit("..");
    reveal_strlit("venv");
    reveal_strlit("bin");
    reveal_strlit("run");
    reveal_strlit("omniinfer-vllm-run");
    reveal_strlit("omniinfer-vllm-stop");
    assert("venv"@.len() == 4 && "bin"@.len() == 3 && "run"@.len() == 3 && ".."@.len() == 2
        && "omniinfer-vllm-run"@.len() == 18 && "omniinfer-vllm-stop"@.len() == 19);
    assert(clean("venv"@) && clean("bin"@) && clean("run"@)) by {
        reveal_with_fuel(clean, 5);
    }
    assert(clean("omniinfer-vllm-run"@)) by {
        reveal_with_fuel(clean, 20);
    }
    assert(clean("omniinfer-vllm-stop"@)) by {
        reveal_with_fuel(clean, 20);
    }
}

/// A manifest that is written for a distribution with a usable home directory is one that
/// the planner of a runtime accepts.
pub proof fn written_manifests_can_be_used(
    backend: Seq<char>,
    wsl: WslContext,
    entry: PythonRuntimeEntry,
    uv: PinnedAsset,
    variant: PythonRuntimeVariant,
    digest: Seq<u8>,
)
    requires
        managed_backend(backend),
        digest.len() >= 8,
        absolute_linux_path(wsl.home@),
        absolute_linux_path(wsl.automount_root@),
        !blank(wsl.distribution@),
        !has_control(wsl.distribution@),
        clean(entry.launcher@),
        entry.launcher@ != ".."@,
    ensures
        usable_manifest(
            backend,
            planner_part(
                expected_launcher(
                    backend,
                    wsl,
                    entry,
                    uv,
                    variant,
                    base_path(wsl.home@, backend, key_of(digest)) + "/current"@,
                ),
            ),
        ),
{
    let home = right_trimmed(wsl.home@, CharClass::Only('/'));
    let key = key_of(digest);
    let base = base_path(wsl.home@, backend, key);
    lemma_shorter(wsl.home@);
    lemma_base_parts_are_clean();
    lemma_run_parts_are_clean();
    lemma_key_is_clean(digest.take(8));
    assert(key.len() == 16);
    lemma_base(home, backend, key);
    let current = base + "/current"@;
    lemma_literals();
    lemma_joined(base, "current"@, "/current"@);
    lemma_joined(current, "run"@, "/run"@);
    lemma_joined(current, "bin"@, "/"@ + "bin"@);
    lemma_joined(current + ("/"@ + "bin"@), "omniinfer-vllm-run"@, "/"@ + "omniinfer-vllm-run"@);
    lemma_joined(current + ("/"@ + "bin"@), "omniinfer-vllm-stop"@, "/"@ + "omniinfer-vllm-stop"@);
    lemma_two_parts(current, "/"@ + "bin"@, "/"@ + "omniinfer-vllm-run"@);
    assert(("/"@ + "bin"@) + ("/"@ + "omniinfer-vllm-run"@) =~= "/bin/omniinfer-vllm-run"@);
    lemma_two_parts(current, "/"@ + "bin"@, "/"@ + "omniinfer-vllm-stop"@);
    assert(("/"@ + "bin"@) + ("/"@ + "omniinfer-vllm-stop"@) =~= "/bin/omniinfer-vllm-stop"@);
    lemma_joined(current, "venv"@, "/"@ + "venv"@);
    lemma_joined(current + ("/"@ + "venv"@), "bin"@, "/"@ + "bin"@);
    lemma_joined(
        current + ("/"@ + "venv"@) + ("/"@ + "bin"@),
        entry.launcher@,
        "/"@ + entry.launcher@,
    );
    lemma_launcher(current, entry.launcher@);
}

proof fn lemma_two_parts(p: Seq<char>, a: Seq<char>, b: Seq<char>)
    ensures
        p + (a + b) == p + a + b,
{
    assert(p + (a + b) =~= p + a + b);
}

proof fn lemma_launcher(current: Seq<char>, launcher: Seq<char>)
    ensures
        current + "/venv/bin/"@ + launcher == current + ("/"@ + "venv"@) + ("/"@ + "bin"@) + ("/"@
            + launcher),
{
    lemma_literals();
    assert(current + "/venv/bin/"@ + launcher =~= current + ("/"@ + "venv"@) + ("/"@ + "bin"@)
        + ("/"@ + launcher));
}

proof fn lemma_joined(p: Seq<char>, name: Seq<char>, tail: Seq<char>)
    requires
        path_start(p),
        clean(name),
        name != ".."@,
        tail == "/"@ + name,
    ensures
        path_start(p + tail),
        absolute_linux_path(p + tail),
{
    lemma_longer(p, name);
    assert(p + tail =~= p + "/"@ + name);
}

proof fn lemma_base(home: Seq<char>, backend: Seq<char>, key: Seq<char>)
    requires
        path_start(home),
        managed_backend(backend),
        clean(key),
        key.len() == 16,
    ensures
        path_start(home + "/.local/share/omniinfer/runtimes/"@ + backend + "/"@ + key),
{
    lemma_backend_is_clean(backend);
    lemma_base_parts_are_clean();
    reveal_strlit("..");
    let p1 = home + "/"@ + ".local"@;
    lemma_longer(home, ".local"@);
    let p2 = p1 + "/"@ + "share"@;
    lemma_longer(p1, "share"@);
    let p3 = p2 + "/"@ + "omniinfer"@;
    lemma_longer(p2, "omniinfer"@);
    let p4 = p3 + "/"@ + "runtimes"@;
    lemma_longer(p3, "runtimes"@);
    lemma_longer(p4, backend);
    lemma_longer(p4 + "/"@ + backend, key);
    lemma_split(home);
}

proof fn lemma_split(home: Seq<char>)
    ensures
        home + "/.local/share/omniinfer/runtimes/"@ == home + "/"@ + ".local"@ + "/"@ + "share"@
            + "/"@ + "omniinfer"@ + "/"@ + "runtimes"@ + "/"@,
{
    lemma_literals();
    let a = "/"@ + ".local"@ + "/"@ + "share"@;
    let b = "/"@ + "omniinfer"@ + "/"@ + "runtimes"@ + "/"@;
    assert(a + b =~= "/.local/share/omniinfer/runtimes/"@);
    assert(home + (a + b) =~= home + a + b);
    assert(home + a =~= home + "/"@ + ".local"@ + "/"@ + "share"@);
    let c = home + a;
    assert(c + b =~= c + "/"@ + "omniinfer"@ + "/"@ + "runtimes"@ + "/"@);
}

proof fn lemma_literals()
    ensures
        "/.local/share/omniinfer/runtimes/"@ == "/"@ + ".local"@ + "/"@ + "share"@ + "/"@
            + "omniinfer"@ + "/"@ + "runtimes"@ + "/"@,
        "/current"@ == "/"@ + "current"@,
        "/venv/bin/"@ == "/"@ + "venv"@ + "/"@ + "bin"@ + "/"@,
        "/bin/omniinfer-vllm-run"@ == "/"@ + "bin"@ + "/"@ + "omniinfer-vllm-run"@,
        "/bin/omniinfer-vllm-stop"@ == "/"@ + "bin"@ + "/"@ + "omniinfer-vllm-stop"@,
        "/run"@ == "/"@ + "run"@,
{
    reveal_strlit("/.local/share/omniinfer/runtimes/");
    reveal_strlit("/current");
    reveal_strlit("/venv/bin/");
    reveal_strlit("/bin/omniinfer-vllm-run");
    reveal_strlit("/bin/omniinfer-vllm-stop");
    reveal_strlit("/run");
    reveal_strlit("/");
    reveal_strlit(".local");
    reveal_strlit("share");
    reveal_strlit("omniinfer");
    reveal_strlit("runtimes");
    reveal_strlit("current");
    reveal_strlit("venv");
    reveal_strlit("bin");
    reveal_strlit("run");
    reveal_strlit("omniinfer-vllm-run");
    reveal_strlit("omniinfer-vllm-stop");
    assert("/.local/share/omniinfer/runtimes/"@ =~= "/"@ + ".local"@ + "/"@ + "share"@ + "/"@
        + "omniinfer"@ + "/"@ + "runtimes"@ + "/"@);
    assert("/current"@ =~= "/"@ + "current"@);
    assert("/venv/bin/"@ =~= "/"@ + "venv"@ + "/"@ + "bin"@ + "/"@);
    assert("/bin/omniinfer-vllm-run"@ =~= "/"@ + "bin"@ + "/"@ + "omniinfer-vllm-run"@);
    assert("/bin/omniinfer-vllm-stop"@ =~= "/"@ + "bin"@ + "/"@ + "omniinfer-vllm-stop"@);
    assert("/run"@ =~= "/"@ + "run"@);
}

} // verus!
