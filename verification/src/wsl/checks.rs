//! What is checked inside a distribution, and how the answers are judged.
use vstd::prelude::*;

use crate::failure::{checked, Failure};
use crate::json::{no_fields, text_member, Fields, Json, JsonView};
use crate::runtime::plan::{debug_quoted, debug_text};
use crate::text::chars::{eq_ignoring_case, lowered, same_ignoring_case, text_eq, to_lower};
use crate::text::compose::{join, joined, opt_text, put, texts};
use crate::text::number::{parse_u64, parsed};
use crate::text::pieces::{lines, lines_of, words, words_of};
use crate::text::search::{contains, has_prefix, has_text, starts_with};
use crate::text::trim::{left_trimmed, trim, trim_start_of, trimmed, CharClass};
use crate::wsl::commands::{no_args, Args};
use crate::wsl::output::{decode_output, decoded, failure_words, require_success, CommandOutput};
use crate::wsl::scripts::{GPU_PROBE, GPU_PROBE_RUNNER, IDLE_PROBE, NATIVE_DEPENDENCY_PROBE};

verus! {

/// The arguments that ask for the NVIDIA devices.
pub fn cuda_gpu_query() -> (r: Vec<String>)
    ensures
        texts(r@) == no_args().push("nvidia-smi"@).push("--query-gpu=name,driver_version"@).push(
            "--format=csv,noheader"@,
        ),
{
    Args::new().with("nvidia-smi").with("--query-gpu=name,driver_version").with(
        "--format=csv,noheader",
    ).done()
}

/// Why CUDA cannot be used.
pub open spec fn cuda_refusal(output: CommandOutput, distribution: Seq<char>) -> Option<Seq<char>> {
    if !output.success || output.stdout@.len() == 0 {
        Some(
            "NVIDIA CUDA is not available inside WSL2 distribution "@ + debug_text(distribution)
                + ": "@ + trimmed(decoded(output.stderr@)),
        )
    } else {
        None
    }
}

/// Refuses a distribution without NVIDIA devices.
pub fn validate_wsl_cuda_gpu(output: &CommandOutput, distribution: &str) -> (r: Result<
    (),
    Failure,
>)
    ensures
        checked(r, cuda_refusal(*output, distribution@)),
{
    if output.success && output.stdout.len() > 0 {
        return Ok(());
    }
    let message = "NVIDIA CUDA is not available inside WSL2 distribution ".to_owned().concat(
        debug_quoted(distribution).as_str(),
    ).concat(": ").concat(trim(decode_output(&output.stderr).as_str()).as_str());
    Err(Failure { message })
}

/// The arguments that ask for the release of Linux.
pub fn release_query() -> (r: Vec<String>)
    ensures
        texts(r@) == no_args().push("sh"@).push("-c"@).push(
            ". /etc/os-release; printf '%s %s' \"$ID\" \"$VERSION_ID\""@,
        ),
{
    Args::new().with("sh").with("-c").with(
        ". /etc/os-release; printf '%s %s' \"$ID\" \"$VERSION_ID\"",
    ).done()
}

/// Why a release of Linux cannot hold ROCm.
pub open spec fn release_refusal(release: Seq<char>) -> Option<Seq<char>> {
    if trimmed(release) == "ubuntu 24.04"@ {
        None
    } else {
        Some(
            "vllm-wsl2-rocm requires an Ubuntu 24.04 WSL2 distribution because its ROCm packages are pinned to noble; found "@
                + debug_text(release),
        )
    }
}

/// Refuses a release of Linux that cannot hold ROCm.
pub fn validate_rocm_distro(release: &str) -> (r: Result<(), Failure>)
    ensures
        checked(r, release_refusal(release@)),
{
    if text_eq(trim(release).as_str(), "ubuntu 24.04") {
        return Ok(());
    }
    Err(
        Failure::about(
            "vllm-wsl2-rocm requires an Ubuntu 24.04 WSL2 distribution because its ROCm packages are pinned to noble; found ",
            debug_quoted(release).as_str(),
        ),
    )
}

/// The arguments that ask for the AMD devices.
pub fn rocm_gpu_query() -> (r: Vec<String>)
    ensures
        texts(r@) == no_args().push("env"@).push("HSA_ENABLE_DXG_DETECTION=1"@).push(
            "/opt/rocm/bin/rocminfo"@,
        ),
{
    Args::new().with("env").with("HSA_ENABLE_DXG_DETECTION=1").with("/opt/rocm/bin/rocminfo").done()
}

pub open spec fn names_any(text: Seq<char>, parts: Seq<Seq<char>>) -> bool {
    exists|i: int| 0 <= i < parts.len() && contains(text, #[trigger] parts[i])
}

/// Why ROCm cannot be used.
pub open spec fn rocm_refusal(
    output: CommandOutput,
    distribution: Seq<char>,
    minimum_release: Seq<char>,
    required_gfx: Seq<Seq<char>>,
) -> Option<Seq<char>> {
    if !output.success {
        Some(
            "AMD ROCm is not available inside WSL2 distribution "@ + debug_text(distribution)
                + "; install AMD Software "@ + minimum_release + " or newer and retry: "@
                + trimmed(decoded(output.stderr@)),
        )
    } else if !names_any(decoded(output.stdout@), required_gfx) {
        Some(
            "ROCm detected no supported Ryzen GPU target (expected one of "@ + joined(
                required_gfx,
                ", "@,
            ) + "); install AMD Software "@ + minimum_release
                + " or newer and verify Ryzen WSL support"@,
        )
    } else {
        None
    }
}

/// Refuses a distribution without AMD devices that are supported.
pub fn validate_wsl_rocm_gpu(
    output: &CommandOutput,
    distribution: &str,
    minimum_release: &str,
    required_gfx: &Vec<String>,
) -> (r: Result<(), Failure>)
    ensures
        checked(r, rocm_refusal(*output, distribution@, minimum_release@, texts(required_gfx@))),
{
    if !output.success {
        let message = "AMD ROCm is not available inside WSL2 distribution ".to_owned().concat(
            debug_quoted(distribution).as_str(),
        ).concat("; install AMD Software ").concat(minimum_release).concat(
            " or newer and retry: ",
        ).concat(trim(decode_output(&output.stderr).as_str()).as_str());
        return Err(Failure { message });
    }
    let text = decode_output(&output.stdout);
    let mut i: usize = 0;
    while i < required_gfx.len()
        invariant
            i <= required_gfx@.len(),
            output.success,
            text@ == decoded(output.stdout@),
            forall|j: int|
                0 <= j < i ==> !contains(text@, #[trigger] texts(required_gfx@)[j]),
        decreases required_gfx@.len() - i,
    {
        if has_text(text.as_str(), required_gfx[i].as_str()) {
            assert(contains(text@, texts(required_gfx@)[i as int]));
            return Ok(());
        }
        i += 1;
    }
    let message = "ROCm detected no supported Ryzen GPU target (expected one of ".to_owned().concat(
        join(required_gfx, ", ").as_str(),
    ).concat("); install AMD Software ").concat(minimum_release).concat(
        " or newer and verify Ryzen WSL support",
    );
    Err(Failure { message })
}

/// The arguments that look for processes of a runtime.
pub fn idle_query(runtime: &str) -> (r: Vec<String>)
    ensures
        texts(r@) == no_args().push("sh"@).push("-c"@).push(IDLE_PROBE@).push("sh"@).push(runtime@),
{
    Args::new().with("sh").with("-c").with(IDLE_PROBE).with("sh").with(runtime).done()
}

/// Why a runtime cannot be replaced.
pub open spec fn busy_refusal(output: CommandOutput) -> Option<Seq<char>> {
    if output.code == Some(0i32) {
        None
    } else if output.code == Some(1i32) {
        Some(
            "vLLM WSL2 runtime is active ("@ + trimmed(decoded(output.stdout@))
                + "); unload the model or stop OmniInfer before reinstalling"@,
        )
    } else {
        Some("failed to inspect active WSL2 runtime: "@ + trimmed(decoded(output.stderr@)))
    }
}

/// Refuses to replace a runtime that is in use.
pub fn ensure_runtime_not_active(output: &CommandOutput) -> (r: Result<(), Failure>)
    ensures
        checked(r, busy_refusal(*output)),
{
    match output.code {
        Some(0) => Ok(()),
        Some(1) => Err(
            Failure::of(
                "vLLM WSL2 runtime is active (",
                trim(decode_output(&output.stdout).as_str()).as_str(),
                "); unload the model or stop OmniInfer before reinstalling",
            ),
        ),
        _ => Err(
            Failure::about(
                "failed to inspect active WSL2 runtime: ",
                trim(decode_output(&output.stderr).as_str()).as_str(),
            ),
        ),
    }
}

/// The arguments that look for native libraries that a runtime lacks.
pub fn dependency_query(runtime: &str) -> (r: Vec<String>)
    ensures
        texts(r@) == no_args().push("sh"@).push("-c"@).push(NATIVE_DEPENDENCY_PROBE@).push(
            "sh"@,
        ).push(runtime@),
{
    Args::new().with("sh").with("-c").with(NATIVE_DEPENDENCY_PROBE).with("sh").with(runtime).done()
}

/// The last of some lines that is a number.
pub open spec fn last_count(lines: Seq<Seq<char>>) -> Option<nat>
    decreases lines.len(),
{
    if lines.len() == 0 {
        None
    } else {
        match parsed(trimmed(lines.last()), u64::MAX as nat) {
            Some(n) => Some(n),
            None => last_count(lines.drop_last()),
        }
    }
}

/// How many native libraries were checked, or why the check failed.
pub open spec fn checked_libraries(output: CommandOutput) -> Result<nat, Seq<char>> {
    if !output.success {
        Err(
            "managed vLLM native dependency validation failed: "@ + trimmed(
                decoded(output.stderr@),
            ),
        )
    } else {
        match last_count(lines_of(decoded(output.stdout@))) {
            Some(n) => Ok(n),
            None => Err("managed native dependency probe returned no count"@),
        }
    }
}

/// How many native libraries were checked.
pub fn validate_native_dependencies(output: &CommandOutput) -> (r: Result<u64, Failure>)
    ensures
        match r {
            Ok(n) => checked_libraries(*output) == Ok::<nat, Seq<char>>(n as nat),
            Err(e) => checked_libraries(*output) == Err::<nat, Seq<char>>(e@),
        },
{
    if !output.success {
        return Err(
            Failure::about(
                "managed vLLM native dependency validation failed: ",
                trim(decode_output(&output.stderr).as_str()).as_str(),
            ),
        );
    }
    let found = lines(decode_output(&output.stdout).as_str());
    let ghost all = texts(found@);
    let mut n: usize = found.len();
    assert(all.take(n as int) =~= all);
    while n > 0
        invariant
            n <= found@.len(),
            output.success,
            all == texts(found@),
            all == lines_of(decoded(output.stdout@)),
            last_count(all) == last_count(all.take(n as int)),
        decreases n,
    {
        assert(all.take(n as int).last() == found@[n - 1]@);
        assert(all.take(n as int).drop_last() =~= all.take(n - 1));
        if let Some(count) = parse_u64(trim(found[n - 1].as_str()).as_str()) {
            return Ok(count);
        }
        n -= 1;
    }
    assert(all.take(0) =~= Seq::<Seq<char>>::empty());
    Err(Failure::new("managed native dependency probe returned no count"))
}

/// What is reported when the native libraries have been checked.
pub fn dependencies_verified(distribution: &str, runtime: &str, checked: u64) -> (json: Json)
    ensures
        json@ == JsonView::Object(
            no_fields()
                .push(("distribution"@, JsonView::Text(distribution@)))
                .push(("runtime"@, JsonView::Text(runtime@)))
                .push(("extensions_checked"@, JsonView::Unsigned(checked as nat))),
        ),
{
    let mut fields = Fields::new();
    fields.text("distribution", distribution);
    fields.text("runtime", runtime);
    fields.number("extensions_checked", checked);
    fields.done()
}

/// The arguments that ask vLLM for the device that it uses.
pub fn gpu_probe_query(runtime: &str, accelerator: &str) -> (r: Vec<String>)
    ensures
        texts(r@) == no_args().push("sh"@).push("-c"@).push(GPU_PROBE_RUNNER@).push("sh"@).push(
            runtime@,
        ).push(runtime@ + "/venv/bin/python"@).push(GPU_PROBE@).push(accelerator@),
{
    let python = runtime.to_owned().concat("/venv/bin/python");
    Args::new().with("sh").with("-c").with(GPU_PROBE_RUNNER).with("sh").with(runtime).with(
        python.as_str(),
    ).with(GPU_PROBE).with(accelerator).done()
}

/// The last of some lines that starts like an object.
pub open spec fn last_object_line(lines: Seq<Seq<char>>) -> Option<Seq<char>>
    decreases lines.len(),
{
    if lines.len() == 0 {
        None
    } else if starts_with(left_trimmed(lines.last(), CharClass::White), "{"@) {
        Some(lines.last())
    } else {
        last_object_line(lines.drop_last())
    }
}

/// The line in which a probe reports, or why there is none.
pub open spec fn probe_report(output: CommandOutput) -> Result<Seq<char>, Seq<char>> {
    if !output.success {
        Err("managed vLLM GPU validation failed: "@ + trimmed(decoded(output.stderr@)))
    } else {
        match last_object_line(lines_of(decoded(output.stdout@))) {
            Some(line) => Ok(line),
            None => Err("managed vLLM GPU probe returned no JSON result"@),
        }
    }
}

/// The line in which a probe reports.
pub fn probe_line(output: &CommandOutput) -> (r: Result<String, Failure>)
    ensures
        crate::failure::text_result(r) == probe_report(*output),
{
    if !output.success {
        return Err(
            Failure::about(
                "managed vLLM GPU validation failed: ",
                trim(decode_output(&output.stderr).as_str()).as_str(),
            ),
        );
    }
    let found = lines(decode_output(&output.stdout).as_str());
    let ghost all = texts(found@);
    let mut n: usize = found.len();
    assert(all.take(n as int) =~= all);
    while n > 0
        invariant
            n <= found@.len(),
            output.success,
            all == texts(found@),
            all == lines_of(decoded(output.stdout@)),
            last_object_line(all) == last_object_line(all.take(n as int)),
        decreases n,
    {
        assert(all.take(n as int).last() == found@[n - 1]@);
        assert(all.take(n as int).drop_last() =~= all.take(n - 1));
        let start = trim_start_of(found[n - 1].as_str(), CharClass::White);
        if has_prefix(start.as_str(), "{") {
            return Ok(found[n - 1].as_str().to_owned());
        }
        n -= 1;
    }
    assert(all.take(0) =~= Seq::<Seq<char>>::empty());
    Err(Failure::new("managed vLLM GPU probe returned no JSON result"))
}

/// What is wrong with a report.
#[derive(Clone, Copy, Debug, PartialEq, Eq, Structural)]
pub enum ProbeMismatch {
    /// The version of vLLM.
    Version,
    /// The version of the accelerator.
    Abi,
}

/// The field of a report that holds the version of the accelerator.
pub open spec fn abi_field(accelerator: Seq<char>) -> Seq<char> {
    if accelerator == "rocm"@ {
        "torch_hip"@
    } else {
        "torch_cuda"@
    }
}

pub open spec fn abi_label(accelerator: Seq<char>) -> Seq<char> {
    if accelerator == "rocm"@ {
        "ROCm"@
    } else {
        "CUDA"@
    }
}

/// What is wrong with a report.
pub open spec fn mismatch(
    probe: JsonView,
    version: Seq<char>,
    accelerator: Seq<char>,
    runtime: Seq<char>,
) -> Option<ProbeMismatch> {
    if text_member(probe, "vllm_version"@) != Some(version) {
        Some(ProbeMismatch::Version)
    } else if text_member(probe, abi_field(accelerator)) != Some(runtime) {
        Some(ProbeMismatch::Abi)
    } else {
        None
    }
}

fn text_is(o: &Option<String>, s: &str) -> (r: bool)
    ensures
        r == (opt_text(*o) == Some(s@)),
{
    match o {
        Some(t) => text_eq(t.as_str(), s),
        None => false,
    }
}

/// What is wrong with a report.
pub fn probe_mismatch(probe: &Json, version: &str, accelerator: &str, runtime: &str) -> (r: Option<
    ProbeMismatch,
>)
    ensures
        r == mismatch(probe@, version@, accelerator@, runtime@),
{
    if !text_is(&probe.get_text("vllm_version"), version) {
        return Some(ProbeMismatch::Version);
    }
    let field = if text_eq(accelerator, "rocm") {
        "torch_hip"
    } else {
        "torch_cuda"
    };
    if !text_is(&probe.get_text(field), runtime) {
        return Some(ProbeMismatch::Abi);
    }
    None
}

/// The field of a report that is wrong.
pub fn mismatched_field(m: ProbeMismatch, accelerator: &str) -> (r: String)
    ensures
        r@ == (match m {
            ProbeMismatch::Version => "vllm_version"@,
            ProbeMismatch::Abi => abi_field(accelerator@),
        }),
{
    match m {
        ProbeMismatch::Version => "vllm_version".to_owned(),
        ProbeMismatch::Abi => if text_eq(accelerator, "rocm") {
            "torch_hip".to_owned()
        } else {
            "torch_cuda".to_owned()
        },
    }
}

/// What is said of a report that is wrong; `shown` is the field in JSON.
pub fn mismatch_failure(
    m: ProbeMismatch,
    version: &str,
    accelerator: &str,
    runtime: &str,
    shown: &str,
) -> (r: Failure)
    ensures
        r@ == (match m {
            ProbeMismatch::Version => "managed vLLM version mismatch: expected "@ + version@
                + ", got "@ + shown@,
            ProbeMismatch::Abi => "managed vLLM "@ + abi_label(accelerator@)
                + " ABI mismatch: expected "@ + runtime@ + ", got "@ + shown@,
        }),
{
    let message = match m {
        ProbeMismatch::Version => "managed vLLM version mismatch: expected ".to_owned().concat(
            version,
        ).concat(", got ").concat(shown),
        ProbeMismatch::Abi => {
            let label = if text_eq(accelerator, "rocm") {
                "ROCm"
            } else {
                "CUDA"
            };
            "managed vLLM ".to_owned().concat(label).concat(" ABI mismatch: expected ").concat(
                runtime,
            ).concat(", got ").concat(shown)
        },
    };
    Failure { message }
}

/// What is reported when a runtime has been validated.
pub fn validation_passed(distribution: &str, runtime: &str, probe: Json) -> (json: Json)
    ensures
        json@ == JsonView::Object(
            no_fields()
                .push(("distribution"@, JsonView::Text(distribution@)))
                .push(("runtime"@, JsonView::Text(runtime@)))
                .push(("probe"@, probe@)),
        ),
{
    let mut fields = Fields::new();
    fields.text("distribution", distribution);
    fields.text("runtime", runtime);
    fields.put("probe", probe);
    fields.done()
}

/// A report that passes states both versions as they are expected.
pub proof fn passed_probes_match(
    probe: JsonView,
    version: Seq<char>,
    accelerator: Seq<char>,
    runtime: Seq<char>,
)
    ensures
        mismatch(probe, version, accelerator, runtime) is None <==> text_member(
            probe,
            "vllm_version"@,
        ) == Some(version) && text_member(probe, abi_field(accelerator)) == Some(runtime),
{
}

/// The arguments that ask for the checksum of a file.
pub fn checksum_query(path: &str) -> (r: Vec<String>)
    ensures
        texts(r@) == no_args().push("sha256sum"@).push(path@),
{
    Args::new().with("sha256sum").with(path).done()
}

/// The checksum in a report.
pub open spec fn reported_sum(output: CommandOutput) -> Option<Seq<char>> {
    let cells = words_of(decoded(output.stdout@));
    if cells.len() > 0 {
        Some(cells[0])
    } else {
        None
    }
}

fn read_sum(output: &CommandOutput) -> (r: Option<String>)
    ensures
        opt_text(r) == reported_sum(*output),
{
    let cells = words(decode_output(&output.stdout).as_str());
    assert(cells@.len() > 0 ==> texts(cells@)[0] == cells@[0]@);
    if cells.len() > 0 {
        Some(cells[0].as_str().to_owned())
    } else {
        None
    }
}

/// Whether a report gives the expected checksum. A file that could not be read has none.
pub fn wsl_file_matches_sha256(output: &CommandOutput, expected: &str) -> (r: bool)
    ensures
        r == (output.success && (reported_sum(*output) matches Some(actual) && same_ignoring_case(
            actual,
            expected@,
        ))),
{
    if !output.success {
        return false;
    }
    match read_sum(output) {
        Some(actual) => eq_ignoring_case(actual.as_str(), expected),
        None => false,
    }
}

/// The checksum in a report, in small letters; nothing where there is none.
pub open spec fn small_sum(output: CommandOutput) -> Seq<char> {
    match reported_sum(output) {
        Some(actual) => lowered(actual),
        None => lowered(""@),
    }
}

/// Why a staged file is refused.
pub open spec fn checksum_refusal(
    output: CommandOutput,
    expected: Seq<char>,
    role: Seq<char>,
) -> Option<Seq<char>> {
    if !output.success {
        Some(failure_words(output, "verify staged "@ + role + " in WSL2"@))
    } else if small_sum(output) != lowered(expected) {
        Some(
            "staged "@ + role + " checksum mismatch inside WSL2: expected "@ + expected + ", got "@
                + small_sum(output),
        )
    } else {
        None
    }
}

/// Refuses a staged file whose contents are not the expected ones.
pub fn verify_wsl_sha256(output: &CommandOutput, expected: &str, role: &str) -> (r: Result<
    (),
    Failure,
>)
    ensures
        checked(r, checksum_refusal(*output, expected@, role@)),
{
    let action = "verify staged ".to_owned().concat(role).concat(" in WSL2");
    if let Err(e) = require_success(output, action.as_str()) {
        return Err(e);
    }
    let actual = match read_sum(output) {
        Some(sum) => to_lower(sum.as_str()),
        None => to_lower(""),
    };
    if text_eq(actual.as_str(), to_lower(expected).as_str()) {
        return Ok(());
    }
    let message = "staged ".to_owned().concat(role).concat(
        " checksum mismatch inside WSL2: expected ",
    ).concat(expected).concat(", got ").concat(actual.as_str());
    Err(Failure { message })
}

/// Only a file with the expected checksum passes.
pub proof fn verified_files_match(output: CommandOutput, expected: Seq<char>, role: Seq<char>)
    requires
        expected.len() > 0,
    ensures
        checksum_refusal(output, expected, role) is None ==> (reported_sum(output) matches Some(
            actual,
        ) && same_ignoring_case(actual, expected)),
{
    reveal_strlit("");
    if checksum_refusal(output, expected, role) is None {
        assert(lowered(expected).len() == expected.len());
        assert(lowered(""@).len() == 0);
    }
}

} // verus!
