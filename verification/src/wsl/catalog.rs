//! What the catalog says of a managed runtime.
use vstd::prelude::*;

use crate::failure::{checked, Failure};
use crate::text::chars::text_eq;

verus! {

/// Something to download, held to its contents.
#[derive(Debug)]
pub struct PinnedAsset {
    pub url: String,
    pub sha256: String,
    pub version: String,
}

/// A package of the ROCm system runtime, held to its contents.
#[derive(Debug)]
pub struct RocmPackageAsset {
    pub name: String,
    pub version: String,
    pub filename: String,
    pub url: String,
    pub sha256: String,
    pub size: u64,
}

/// The ROCm system runtime that a managed runtime needs.
#[derive(Debug)]
pub struct RocmSystemRuntime {
    pub repository_key: PinnedAsset,
    pub rocdxg: PinnedAsset,
    pub apt_repository: String,
    /// The packages and their versions, in the order of their names.
    pub packages: Vec<(String, String)>,
    /// The files of the packages, in the order of their names.
    pub package_assets: Vec<RocmPackageAsset>,
    pub minimum_windows_release: String,
    pub required_gfx: Vec<String>,
}

/// A managed runtime for one kind of machine.
#[derive(Debug)]
pub struct PythonRuntimeVariant {
    pub version: String,
    /// The version that the package reports of itself.
    pub reported_version: String,
    pub url: String,
    pub sha256: String,
    pub accelerator: String,
    pub runtime_version: String,
    /// The version that the accelerator reports of itself.
    pub reported_runtime_version: String,
    pub torch_backend: Option<String>,
    pub minimum_driver: Option<String>,
    pub build_commit: Option<String>,
    pub index_url: Option<String>,
    pub rocm_system: Option<RocmSystemRuntime>,
}

/// A managed runtime, by the kind of machine.
#[derive(Debug)]
pub struct PythonRuntimeEntry {
    pub source: String,
    pub tag: String,
    pub python: String,
    pub launcher: String,
    pub uv: Vec<(String, PinnedAsset)>,
    pub variants: Vec<(String, PythonRuntimeVariant)>,
}

/// The kind of machine that is supported.
pub const ARCHITECTURE: &'static str = "x86_64";

/// Whether `i` is the first place of a list with the given key.
pub open spec fn first_with_key<T>(list: Seq<(String, T)>, key: Seq<char>, i: int) -> bool {
    &&& 0 <= i < list.len()
    &&& list[i].0@ == key
    &&& forall|j: int| 0 <= j < i ==> (#[trigger] list[j]).0@ != key
}

pub open spec fn has_key<T>(list: Seq<(String, T)>, key: Seq<char>) -> bool {
    exists|i: int| #[trigger] first_with_key(list, key, i)
}

fn find_key<T>(list: &Vec<(String, T)>, key: &str) -> (r: Option<usize>)
    ensures
        match r {
            Some(i) => first_with_key(list@, key@, i as int),
            None => !has_key(list@, key@),
        },
{
    let mut i: usize = 0;
    while i < list.len()
        invariant
            i <= list@.len(),
            forall|j: int| 0 <= j < i ==> (#[trigger] list@[j]).0@ != key@,
        decreases list@.len() - i,
    {
        if text_eq(list[i].0.as_str(), key) {
            assert(first_with_key(list@, key@, i as int));
            return Some(i);
        }
        i += 1;
    }
    None
}

pub open spec fn managed_backend(backend: Seq<char>) -> bool {
    backend == "vllm-wsl2-cuda"@ || backend == "vllm-wsl2-rocm"@
}

/// The kind of device that a backend is for.
pub open spec fn device_of(backend: Seq<char>) -> Seq<char> {
    if backend == "vllm-wsl2-cuda"@ {
        "cuda"@
    } else {
        "rocm"@
    }
}

/// Why a variant does not fit its backend.
pub open spec fn accelerator_refusal(backend: Seq<char>, accelerator: Seq<char>) -> Option<
    Seq<char>,
> {
    if !managed_backend(backend) {
        Some("unsupported managed WSL2 backend: "@ + backend)
    } else if accelerator != device_of(backend) {
        Some(
            backend + " catalog accelerator mismatch: expected "@ + device_of(backend)
                + ", found "@ + accelerator,
        )
    } else {
        None
    }
}

/// Refuses a variant for another kind of device.
pub fn validate_backend_accelerator(backend: &str, accelerator: &str) -> (r: Result<(), Failure>)
    ensures
        checked(r, accelerator_refusal(backend@, accelerator@)),
{
    let expected = if text_eq(backend, "vllm-wsl2-cuda") {
        "cuda"
    } else if text_eq(backend, "vllm-wsl2-rocm") {
        "rocm"
    } else {
        return Err(Failure::about("unsupported managed WSL2 backend: ", backend));
    };
    if text_eq(accelerator, expected) {
        return Ok(());
    }
    let message = backend.to_owned().concat(" catalog accelerator mismatch: expected ").concat(
        expected,
    ).concat(", found ").concat(accelerator);
    Err(Failure { message })
}

/// Whether the runtime of a backend can be installed from an entry, and at which places of
/// the entry its parts are; or why it cannot.
pub open spec fn selects(
    backend: Seq<char>,
    entry: PythonRuntimeEntry,
    supported: bool,
    r: Result<(int, int), Seq<char>>,
) -> bool {
    if !managed_backend(backend) {
        r == Err::<(int, int), Seq<char>>("unsupported managed WSL2 backend: "@ + backend)
    } else if !supported {
        r == Err::<(int, int), Seq<char>>(
            backend + " is supported only by the Windows OmniInfer CLI"@,
        )
    } else if !has_key(entry.uv@, ARCHITECTURE@) {
        r == Err::<(int, int), Seq<char>>(backend + " has no managed uv asset for x86_64"@)
    } else if !has_key(entry.variants@, ARCHITECTURE@) {
        r == Err::<(int, int), Seq<char>>(backend + " has no managed vLLM wheel for x86_64"@)
    } else {
        exists|u: int, v: int|
            #[trigger] first_with_key(entry.uv@, ARCHITECTURE@, u) && #[trigger] first_with_key(
                entry.variants@,
                ARCHITECTURE@,
                v,
            ) && r == (match accelerator_refusal(backend, entry.variants@[v].1.accelerator@) {
                Some(reason) => Err::<(int, int), Seq<char>>(reason),
                None => if entry.variants@[v].1.torch_backend is None {
                    Err::<(int, int), Seq<char>>(
                        backend + " has no pinned PyTorch accelerator index"@,
                    )
                } else {
                    Ok::<(int, int), Seq<char>>((u, v))
                },
            })
    }
}

pub open spec fn places(r: Result<(usize, usize), Failure>) -> Result<(int, int), Seq<char>> {
    match r {
        Ok((u, v)) => Ok((u as int, v as int)),
        Err(e) => Err(e@),
    }
}

/// Finds the parts of an entry from which the runtime of a backend is installed: the
/// places of `uv` and of the variant. `supported` is whether this machine can hold it.
pub fn select_runtime(backend: &str, entry: &PythonRuntimeEntry, supported: bool) -> (r: Result<
    (usize, usize),
    Failure,
>)
    ensures
        selects(backend@, *entry, supported, places(r)),
{
    if !text_eq(backend, "vllm-wsl2-cuda") && !text_eq(backend, "vllm-wsl2-rocm") {
        return Err(Failure::about("unsupported managed WSL2 backend: ", backend));
    }
    if !supported {
        return Err(Failure::about(backend, " is supported only by the Windows OmniInfer CLI"));
    }
    let uv: usize = match find_key(&entry.uv, ARCHITECTURE) {
        Some(i) => i,
        None => {
            return Err(Failure::about(backend, " has no managed uv asset for x86_64"));
        },
    };
    let variant: usize = match find_key(&entry.variants, ARCHITECTURE) {
        Some(i) => i,
        None => {
            return Err(Failure::about(backend, " has no managed vLLM wheel for x86_64"));
        },
    };
    assert(first_with_key(entry.uv@, ARCHITECTURE@, uv as int));
    assert(first_with_key(entry.variants@, ARCHITECTURE@, variant as int));
    if let Err(e) = validate_backend_accelerator(
        backend,
        entry.variants[variant].1.accelerator.as_str(),
    ) {
        return Err(e);
    }
    if entry.variants[variant].1.torch_backend.is_none() {
        return Err(Failure::about(backend, " has no pinned PyTorch accelerator index"));
    }
    Ok((uv, variant))
}

} // verus!
