//! How a model is loaded: what a request asks for, whether a runtime already serves it,
//! and what is recorded once a runtime has been started for it.
use vstd::prelude::*;

use crate::failure::{text_result, Failure};
use crate::json::{
    no_fields, number_member, stated_member, text_array, text_or_null, texts_member, Fields, Json,
    JsonView,
};
use crate::manager::admission::given_back;
use crate::manager::loaded::{
    a_placed_runtime_is_found, find_key, lemma_key_place, place_runtime, runtimes_stay_in_order,
    under_key, with_runtime, LoadedRustRuntime, RuntimeRouteState, RuntimeView,
};
use crate::manager::reports::{
    load_payload, model_load_response, reload_payload, reload_required_response,
    same_configuration, same_load_configuration, ConfigView, RequestedRuntimeConfig,
};
use crate::manager::state::{
    matching_key, promoted, promotes, proxy_target, reaped, target_of, ManagerView, ProcessPoll,
    RustRuntimeManager,
};
use crate::paths::{
    backfiled, dotted_extension, extended, extension_of, filed, is_vla_checkpoint_path,
    joined_path, lemma_not_verbatim, path_is_absolute, path_join, surely_relative, twin_start,
    verbatim, vla_extension,
};
use crate::resources::budget::ResourceBudget;
use crate::resources::ledger::{has_holding, with_commit, AllocationId, ReservationId};
use crate::runtime::args::{launch_args_have_ctx_size, merged, merged_launch_args, sets_ctx_size};
use crate::runtime::plan::{ExternalRuntimePlan, PlanView};
use crate::runtime::process::{ProcessView, RuntimeProcess};
use crate::text::chars::{
    alphanumeric, chars_of, is_alphanumeric, text_eq,
};
use crate::text::compose::{
    copy_opt, copy_texts, has_item, join, joined, opt_text, opt_texts, texts,
};
use crate::text::search::{cut_last, rsplit_once, starts_with, strip_prefix, without_prefix};
use crate::text::trim::{trim, trimmed};

verus! {

/// What is known of a backend.
#[derive(Debug)]
pub struct BackendSpec {
    pub id: String,
    pub family: String,
    pub runtime_dir: String,
    pub launcher_path: Option<String>,
    pub models_dir: Option<String>,
    pub capabilities: Vec<String>,
    pub default_args: Vec<String>,
    pub runtime_mode: String,
    pub model_artifact: String,
    pub supports_mmproj: bool,
    pub supports_ctx_size: bool,
    pub external_server_protocol: Option<String>,
    pub log_file_name: String,
}

/// A backend as a plan is made from it.
pub open spec fn backend_fields(b: BackendSpec) -> JsonView {
    JsonView::Object(
        no_fields()
            .push(("id"@, JsonView::Text(b.id@)))
            .push(("family"@, JsonView::Text(b.family@)))
            .push(("runtime_dir"@, JsonView::Text(b.runtime_dir@)))
            .push(("launcher_path"@, text_or_null(opt_text(b.launcher_path))))
            .push(("models_dir"@, text_or_null(opt_text(b.models_dir))))
            .push(("capabilities"@, text_array(texts(b.capabilities@))))
            .push(("default_args"@, text_array(texts(b.default_args@))))
            .push(("runtime_mode"@, JsonView::Text(b.runtime_mode@)))
            .push(("model_artifact"@, JsonView::Text(b.model_artifact@)))
            .push(("supports_mmproj"@, JsonView::Bool(b.supports_mmproj)))
            .push(("supports_ctx_size"@, JsonView::Bool(b.supports_ctx_size)))
            .push(
                (
                    "external_server_protocol"@,
                    text_or_null(opt_text(b.external_server_protocol)),
                ),
            )
            .push(("log_file_name"@, JsonView::Text(b.log_file_name@))),
    )
}

/// A backend as a plan is made from it.
pub fn backend_payload(b: &BackendSpec) -> (json: Json)
    ensures
        json@ == backend_fields(*b),
{
    let mut fields = Fields::new();
    fields.text("id", b.id.as_str());
    fields.text("family", b.family.as_str());
    fields.text("runtime_dir", b.runtime_dir.as_str());
    fields.opt_text("launcher_path", &b.launcher_path);
    fields.opt_text("models_dir", &b.models_dir);
    fields.texts("capabilities", &b.capabilities);
    fields.texts("default_args", &b.default_args);
    fields.text("runtime_mode", b.runtime_mode.as_str());
    fields.text("model_artifact", b.model_artifact.as_str());
    fields.flag("supports_mmproj", b.supports_mmproj);
    fields.flag("supports_ctx_size", b.supports_ctx_size);
    fields.opt_text("external_server_protocol", &b.external_server_protocol);
    fields.text("log_file_name", b.log_file_name.as_str());
    fields.done()
}

/// What a request to load a model asks for.
#[derive(Debug)]
pub struct LoadRequest {
    pub model: String,
    pub public_model_id: Option<String>,
    pub mmproj: Option<String>,
    pub ctx_size: Option<u32>,
    pub launch_args: Option<Vec<String>>,
    pub backend_port: Option<u16>,
}

pub struct LoadRequestView {
    pub model: Seq<char>,
    pub public_model_id: Option<Seq<char>>,
    pub mmproj: Option<Seq<char>>,
    pub ctx_size: Option<u32>,
    pub launch_args: Option<Seq<Seq<char>>>,
    pub backend_port: Option<u16>,
}

impl View for LoadRequest {
    type V = LoadRequestView;

    open spec fn view(&self) -> LoadRequestView {
        LoadRequestView {
            model: self.model@,
            public_model_id: opt_text(self.public_model_id),
            mmproj: opt_text(self.mmproj),
            ctx_size: self.ctx_size,
            launch_args: opt_texts(self.launch_args),
            backend_port: self.backend_port,
        }
    }
}

/// What a request to load a model asks for. A context size or a port that cannot be one
/// counts as not given.
pub open spec fn read_request(payload: JsonView) -> Result<LoadRequestView, Seq<char>> {
    match stated_member(payload, "model"@) {
        None => Err("field 'model' is required"@),
        Some(model) => Ok(
            LoadRequestView {
                model,
                public_model_id: stated_member(payload, "public_model_id"@),
                mmproj: stated_member(payload, "mmproj"@),
                ctx_size: match number_member(payload, "ctx_size"@) {
                    Some(n) => if n <= u32::MAX {
                        Some(n as u32)
                    } else {
                        None
                    },
                    None => None,
                },
                launch_args: texts_member(payload, "launch_args"@),
                backend_port: match number_member(payload, "backend_port"@) {
                    Some(n) => if 1 <= n <= u16::MAX {
                        Some(n as u16)
                    } else {
                        None
                    },
                    None => None,
                },
            },
        ),
    }
}

/// Reads what a request to load a model asks for.
pub fn read_load_request(payload: &Json) -> (r: Result<LoadRequest, Failure>)
    ensures
        match r {
            Ok(q) => read_request(payload@) == Ok::<LoadRequestView, Seq<char>>(q@),
            Err(e) => read_request(payload@) == Err::<LoadRequestView, Seq<char>>(e@),
        },
{
    let model = match payload.get_stated("model") {
        Some(model) => model,
        None => {
            return Err(Failure::new("field 'model' is required"));
        },
    };
    let ctx_size: Option<u32> = match payload.get_number("ctx_size") {
        Some(n) => if n <= 0xffff_ffff {
            Some(n as u32)
        } else {
            None
        },
        None => None,
    };
    let backend_port: Option<u16> = match payload.get_number("backend_port") {
        Some(n) => if n >= 1 && n <= 0xffff {
            Some(n as u16)
        } else {
            None
        },
        None => None,
    };
    Ok(
        LoadRequest {
            model,
            public_model_id: payload.get_stated("public_model_id"),
            mmproj: payload.get_stated("mmproj"),
            ctx_size,
            launch_args: payload.get_texts("launch_args"),
            backend_port,
        },
    )
}

/// The key that a request asks for: the public name of the model, or else its path.
pub open spec fn requested_key(q: LoadRequestView) -> Seq<char> {
    match q.public_model_id {
        Some(id) => id,
        None => q.model,
    }
}

/// The backend that a request is for: the one it names, the one that is selected, or
/// the one that is recommended.
pub open spec fn requested_backend(
    payload: JsonView,
    selected: Option<Seq<char>>,
    recommended: Option<Seq<char>>,
) -> Result<Seq<char>, Seq<char>> {
    match (stated_member(payload, "backend"@), selected, recommended) {
        (Some(b), _, _) => Ok(b),
        (None, Some(b), _) => Ok(b),
        (None, None, Some(b)) => Ok(b),
        _ => Err("no installed backend available"@),
    }
}

/// Why a backend cannot run a model.
pub open spec fn backend_refusal(b: BackendSpec, binary_exists: bool) -> Option<Seq<char>> {
    if b.runtime_mode@ != "external_server"@ {
        Some(
            b.id@
                + " is an embedded backend. Python control-plane fallback has been removed; use an external-server backend or a backend adapter service."@,
        )
    } else if !binary_exists {
        Some(
            "backend launcher not found: "@ + (match opt_text(b.launcher_path) {
                Some(p) => p,
                None => "(unset)"@,
            }),
        )
    } else {
        None
    }
}

/// The context size that a model is loaded with: the one that is asked for, the one
/// that the launch arguments set, or the default where the backend takes one and the
/// arguments say nothing of it.
pub open spec fn chosen_ctx_size(
    requested: Option<u32>,
    from_args: Option<u32>,
    supported: bool,
    args_have_ctx: bool,
    default_ctx: u32,
) -> Option<u32> {
    match (requested, from_args) {
        (Some(n), _) => Some(n),
        (None, Some(n)) => Some(n),
        (None, None) => if supported && !args_have_ctx {
            Some(default_ctx)
        } else {
            None
        },
    }
}

/// The settings that a model is loaded with.
pub open spec fn settings(
    q: LoadRequestView,
    b: BackendSpec,
    binary_exists: bool,
    model_path: Seq<char>,
    mmproj: Option<Seq<char>>,
    args_ctx: Option<u32>,
    default_ctx: u32,
) -> Result<ConfigView, Seq<char>> {
    let args = merged(b.id@, b.family@, texts(b.default_args@), q.launch_args);
    if backend_refusal(b, binary_exists) is Some {
        Err(backend_refusal(b, binary_exists)->0)
    } else if mmproj is Some && !b.supports_mmproj {
        Err(b.id@ + " does not support mmproj inputs"@)
    } else {
        Ok(
            ConfigView {
                backend_id: b.id@,
                model_key: requested_key(q),
                model_path,
                public_model_id: q.public_model_id,
                mmproj,
                ctx_size: chosen_ctx_size(
                    q.ctx_size,
                    args_ctx,
                    b.supports_ctx_size,
                    exists|i: int| 0 <= i < args.len() && #[trigger] sets_ctx_size(b.family@, args[i]),
                    default_ctx,
                ),
                launch_args: args,
            },
        )
    }
}

/// Refuses a backend that cannot run a model.
pub fn check_backend(b: &BackendSpec, binary_exists: bool) -> (r: Result<(), Failure>)
    ensures
        match r {
            Ok(_) => backend_refusal(*b, binary_exists) is None,
            Err(e) => backend_refusal(*b, binary_exists) == Some(e@),
        },
{
    if !text_eq(b.runtime_mode.as_str(), "external_server") {
        return Err(
            Failure::about(
                b.id.as_str(),
                " is an embedded backend. Python control-plane fallback has been removed; use an external-server backend or a backend adapter service.",
            ),
        );
    }
    if !binary_exists {
        let launcher = match &b.launcher_path {
            Some(p) => p.as_str(),
            None => "(unset)",
        };
        return Err(Failure::about("backend launcher not found: ", launcher));
    }
    Ok(())
}

/// The settings that a model is loaded with. `model_path` and `mmproj` are what the
/// request was found to mean, and `args_ctx` is the context size that the launch
/// arguments set.
pub fn load_settings(
    request: &LoadRequest,
    b: &BackendSpec,
    binary_exists: bool,
    model_path: &str,
    mmproj: &Option<String>,
    args_ctx: Option<u32>,
    default_ctx: u32,
) -> (r: Result<RequestedRuntimeConfig, Failure>)
    ensures
        match r {
            Ok(c) => settings(
                request@,
                *b,
                binary_exists,
                model_path@,
                opt_text(*mmproj),
                args_ctx,
                default_ctx,
            ) == Ok::<ConfigView, Seq<char>>(c@),
            Err(e) => settings(
                request@,
                *b,
                binary_exists,
                model_path@,
                opt_text(*mmproj),
                args_ctx,
                default_ctx,
            ) == Err::<ConfigView, Seq<char>>(e@),
        },
{
    if let Err(e) = check_backend(b, binary_exists) {
        return Err(e);
    }
    if mmproj.is_some() && !b.supports_mmproj {
        return Err(Failure::about(b.id.as_str(), " does not support mmproj inputs"));
    }
    let launch_args = merged_launch_args(
        b.id.as_str(),
        b.family.as_str(),
        &b.default_args,
        &request.launch_args,
    );
    let have_ctx = launch_args_have_ctx_size(b.family.as_str(), &launch_args);
    assert(texts(launch_args@).len() == launch_args@.len());
    let ctx_size: Option<u32> = match request.ctx_size {
        Some(n) => Some(n),
        None => match args_ctx {
            Some(n) => Some(n),
            None => if b.supports_ctx_size && !have_ctx {
                Some(default_ctx)
            } else {
                None
            },
        },
    };
    let model_key = match &request.public_model_id {
        Some(id) => id.as_str().to_owned(),
        None => request.model.as_str().to_owned(),
    };
    Ok(
        RequestedRuntimeConfig {
            backend_id: b.id.as_str().to_owned(),
            model_key,
            model_path: model_path.to_owned(),
            public_model_id: copy_opt(&request.public_model_id),
            mmproj: copy_opt(mmproj),
            ctx_size,
            launch_args,
        },
    )
}

/// The devices that a budget is made for: those selected, or else all that there are;
/// none for a backend without CUDA.
pub fn budget_devices(
    capabilities: &Vec<String>,
    selection: &Option<String>,
    detected: &Vec<String>,
) -> (r: Option<String>)
    ensures
        opt_text(r) == (if texts(capabilities@).contains("cuda"@) {
            match opt_text(*selection) {
                Some(s) => Some(s),
                None => Some(joined(texts(detected@), ","@)),
            }
        } else {
            None
        }),
{
    if !has_item(capabilities, "cuda") {
        return None;
    }
    match selection {
        Some(s) => Some(s.as_str().to_owned()),
        None => Some(join(detected, ",")),
    }
}

/// A character that a log file name can have.
pub open spec fn file_char(c: char) -> bool {
    alphanumeric(c) || c == '.' || c == '_' || c == '-'
}

/// A key as part of a file name.
pub open spec fn sanitized(key: Seq<char>) -> Seq<char> {
    Seq::new(
        key.len(),
        |i: int|
            if file_char(key[i]) {
                key[i]
            } else {
                '_'
            },
    )
}

/// The name of the log file of a model: the key goes before the extension.
pub open spec fn log_file_name(base: Seq<char>, key: Seq<char>) -> Seq<char> {
    match cut_last(base, '.') {
        Some((stem, ext)) => if stem.len() > 0 && ext.len() > 0 {
            stem + "-"@ + sanitized(key) + "."@ + ext
        } else {
            base + "-"@ + sanitized(key) + ".log"@
        },
        None => base + "-"@ + sanitized(key) + ".log"@,
    }
}

/// The name of the log file of a model.
pub fn model_log_file_name(base: &str, model_key: &str) -> (r: String)
    ensures
        r@ == log_file_name(base@, model_key@),
{
    let v = chars_of(model_key);
    let mut safe = String::new();
    let mut i: usize = 0;
    assert(safe@ =~= sanitized(model_key@).take(0));
    while i < v.len()
        invariant
            i <= v@.len(),
            v@ == model_key@,
            safe@ == sanitized(model_key@).take(i as int),
        decreases v@.len() - i,
    {
        let c = v[i];
        if is_alphanumeric(c) || c == '.' || c == '_' || c == '-' {
            safe.push(c);
        } else {
            safe.push('_');
        }
        assert(safe@ =~= sanitized(model_key@).take(i as int + 1));
        i += 1;
    }
    assert(safe@ =~= sanitized(model_key@));
    match rsplit_once(base, '.') {
        Some((stem, ext)) => {
            if !stem.as_str().is_empty() && !ext.as_str().is_empty() {
                return stem.concat("-").concat(safe.as_str()).concat(".").concat(ext.as_str());
            }
        },
        None => {},
    }
    base.to_owned().concat("-").concat(safe.as_str()).concat(".log")
}

/// A key, whatever it holds, brings no separator into the name of a log file, so that
/// the log stays in its directory.
pub proof fn a_key_brings_no_separator(key: Seq<char>)
    ensures
        sanitized(key).len() == key.len(),
        forall|i: int|
            0 <= i < key.len() ==> #[trigger] sanitized(key)[i] != '/' && sanitized(key)[i] != '\\'
                && sanitized(key)[i] != ':',
{
}

/// A path that starts in the home directory, as seen from there.
pub open spec fn expanded(text: Seq<char>, home: Option<Seq<char>>, r: Seq<char>) -> bool {
    match (without_prefix(text, "~/"@), home) {
        (Some(rest), Some(h)) => joined_path(h, rest, r),
        _ => r == text,
    }
}

/// A path with the home directory put in; `home` is that directory, where it is known.
pub fn expand_home(text: &str, home: &Option<String>) -> (r: String)
    ensures
        expanded(text@, opt_text(*home), r@),
{
    if let Some(rest) = strip_prefix(text, "~/") {
        if let Some(home) = home {
            return path_join(home.as_str(), rest.as_str());
        }
    }
    text.to_owned()
}

/// The path that a text means, given whether it is absolute and where it lies in the
/// directory of models, where there is one.
pub open spec fn located(
    path: Seq<char>,
    absolute: bool,
    inside: Option<Seq<char>>,
    label: Seq<char>,
) -> Result<Seq<char>, Seq<char>> {
    if absolute {
        Ok(path)
    } else {
        match inside {
            Some(p) => Ok(p),
            None => Err("relative "@ + label + " path requires a configured models_dir"@),
        }
    }
}

/// The path that a text means, given whether it is absolute and where it lies in the
/// directory of models, where there is one.
pub fn locate(path: String, absolute: bool, inside: Option<String>, label: &str) -> (r: Result<
    String,
    Failure,
>)
    ensures
        text_result(r) == located(path@, absolute, opt_text(inside), label@),
{
    if absolute {
        return Ok(path);
    }
    match inside {
        Some(p) => Ok(p),
        None => Err(Failure::of("relative ", label, " path requires a configured models_dir")),
    }
}

/// Whether `inside` can be where a path lies in the directory of models.
pub open spec fn in_models_dir(
    models_dir: Option<Seq<char>>,
    path: Seq<char>,
    inside: Option<Seq<char>>,
) -> bool {
    match models_dir {
        Some(dir) => inside is Some && joined_path(dir, path, inside->0),
        None => inside is None,
    }
}

/// Whether `r` can be the path that a text in a request means, or what stands against it.
pub open spec fn path_meant(
    text: Seq<char>,
    home: Option<Seq<char>>,
    models_dir: Option<Seq<char>>,
    label: Seq<char>,
    r: Result<Seq<char>, Seq<char>>,
) -> bool {
    exists|path: Seq<char>, absolute: bool, inside: Option<Seq<char>>|
        {
            &&& expanded(trimmed(text), home, path)
            &&& absolute ==> !surely_relative(path)
            &&& in_models_dir(models_dir, path, inside)
            &&& r == #[trigger] located(path, absolute, inside, label)
        }
}

/// The path that a text in a request means: relative ones lie in the directory of
/// models.
pub fn path_for_backend(
    text: &str,
    home: &Option<String>,
    models_dir: &Option<String>,
    label: &str,
) -> (r: Result<String, Failure>)
    ensures
        path_meant(text@, opt_text(*home), opt_text(*models_dir), label@, text_result(r)),
{
    let path = expand_home(trim(text).as_str(), home);
    let absolute = path_is_absolute(path.as_str());
    let inside = match models_dir {
        Some(dir) => Some(path_join(dir.as_str(), path.as_str())),
        None => None,
    };
    assert(in_models_dir(opt_text(*models_dir), path@, opt_text(inside)));
    let ghost (path_view, inside_view) = (path@, opt_text(inside));
    let r = locate(path, absolute, inside, label);
    assert(text_result(r) == located(path_view, absolute, inside_view, label@));
    r
}

/// A relative path means a file in the directory of models.
pub proof fn relative_paths_lie_in_the_models_dir(
    text: Seq<char>,
    home: Option<Seq<char>>,
    models_dir: Seq<char>,
    label: Seq<char>,
    r: Result<Seq<char>, Seq<char>>,
)
    requires
        path_meant(text, home, Some(models_dir), label, r),
        surely_relative(trimmed(text)),
        without_prefix(trimmed(text), "~/"@) is None,
        !verbatim(models_dir),
    ensures
        r matches Ok(path) && extended(models_dir, trimmed(text), path),
{
}

/// A relative path means nothing where there is no directory of models.
pub proof fn relative_paths_need_a_models_dir(
    text: Seq<char>,
    home: Option<Seq<char>>,
    label: Seq<char>,
    r: Result<Seq<char>, Seq<char>>,
)
    requires
        path_meant(text, home, None, label, r),
        surely_relative(trimmed(text)),
        without_prefix(trimmed(text), "~/"@) is None,
    ensures
        r == Err::<Seq<char>, Seq<char>>(
            "relative "@ + label + " path requires a configured models_dir"@,
        ),
{
}

/// A path that starts with a slash means itself, where the directory of models is on no
/// drive or server of its own.
pub proof fn rooted_paths_mean_themselves(
    text: Seq<char>,
    home: Option<Seq<char>>,
    models_dir: Seq<char>,
    label: Seq<char>,
    r: Result<Seq<char>, Seq<char>>,
)
    requires
        path_meant(text, home, Some(models_dir), label, r),
        trimmed(text).len() > 0,
        trimmed(text)[0] == '/',
        !models_dir.contains(':'),
        !twin_start(models_dir),
    ensures
        r == Ok::<Seq<char>, Seq<char>>(trimmed(text)),
{
    reveal_strlit("~/");
    assert(without_prefix(trimmed(text), "~/"@) is None) by {
        if starts_with(trimmed(text), "~/"@) {
            assert(trimmed(text).subrange(0, 2)[0] == "~/"@[0]);
        }
    }
    lemma_not_verbatim(models_dir);
}

/// Why a path cannot be used, given what is there.
pub open spec fn path_refusal(
    path: Seq<char>,
    label: Seq<char>,
    model_artifact: Seq<char>,
    present: bool,
    is_dir: bool,
) -> Option<Seq<char>> {
    if label == "model"@ && model_artifact == "directory"@ {
        if is_dir {
            None
        } else {
            Some("model directory not found: "@ + path)
        }
    } else if present {
        None
    } else {
        Some(label + " not found: "@ + path)
    }
}

/// Refuses a path that cannot be used, given what is there.
pub fn resolve_path_for_backend(
    path: &str,
    label: &str,
    model_artifact: &str,
    present: bool,
    is_dir: bool,
) -> (r: Result<(), Failure>)
    ensures
        match r {
            Ok(_) => path_refusal(path@, label@, model_artifact@, present, is_dir) is None,
            Err(e) => path_refusal(path@, label@, model_artifact@, present, is_dir) == Some(e@),
        },
{
    if text_eq(label, "model") && text_eq(model_artifact, "directory") {
        if !is_dir {
            return Err(Failure::about("model directory not found: ", path));
        }
    } else if !present {
        return Err(Failure::of(label, " not found: ", path));
    }
    Ok(())
}

/// Whether a backend takes its models by reference, so that they are no paths.
pub fn takes_references(model_artifact: &str) -> (r: bool)
    ensures
        r == (model_artifact@ == "reference"@),
{
    text_eq(model_artifact, "reference")
}

/// What to do with a model path that can be used.
#[derive(Clone, Copy, Debug, PartialEq, Eq, Structural)]
pub enum ModelStep {
    /// Load the path itself.
    UsePath,
    /// Look for the model's files in the directory.
    SearchDirectory,
}

/// What is made of a model path, given whether it is a directory and whether its
/// extension is that of a checkpoint for vla.cpp.
pub open spec fn model_step(
    path: Seq<char>,
    model_artifact: Seq<char>,
    is_dir: bool,
    checkpoint: bool,
) -> Result<ModelStep, Seq<char>> {
    if model_artifact == "vla-artifact"@ && is_dir {
        Err("vla.cpp model must be a checkpoint file, not a directory: "@ + path)
    } else if model_artifact == "vla-artifact"@ && !checkpoint {
        Err("vla.cpp model must be a .gguf or .safetensors checkpoint: "@ + path)
    } else if model_artifact == "file"@ && is_dir {
        Ok(ModelStep::SearchDirectory)
    } else {
        Ok(ModelStep::UsePath)
    }
}

/// Whether `r` can be what is made of a model path.
pub open spec fn model_meant(
    path: Seq<char>,
    model_artifact: Seq<char>,
    is_dir: bool,
    r: Result<ModelStep, Seq<char>>,
) -> bool {
    exists|extension: Option<Seq<char>>| #[trigger]
        extension_of(path, extension) && r == model_step(
            path,
            model_artifact,
            is_dir,
            vla_extension(extension),
        )
}

/// What is made of a model path.
pub fn resolve_model_for_backend(path: &str, model_artifact: &str, is_dir: bool) -> (r: Result<
    ModelStep,
    Failure,
>)
    ensures
        model_meant(path@, model_artifact@, is_dir, crate::failure::plain_result(r)),
{
    let checkpoint = is_vla_checkpoint_path(path);
    decide_model_step(path, model_artifact, is_dir, checkpoint)
}

/// What is made of a model path, given whether its extension is that of a checkpoint
/// for vla.cpp.
pub fn decide_model_step(path: &str, model_artifact: &str, is_dir: bool, checkpoint: bool) -> (r:
    Result<ModelStep, Failure>)
    ensures
        crate::failure::plain_result(r) == model_step(path@, model_artifact@, is_dir, checkpoint),
{
    if text_eq(model_artifact, "vla-artifact") {
        if is_dir {
            return Err(
                Failure::about(
                    "vla.cpp model must be a checkpoint file, not a directory: ",
                    path,
                ),
            );
        }
        if !checkpoint {
            return Err(
                Failure::about(
                    "vla.cpp model must be a .gguf or .safetensors checkpoint: ",
                    path,
                ),
            );
        }
    }
    if text_eq(model_artifact, "file") && is_dir {
        return Ok(ModelStep::SearchDirectory);
    }
    Ok(ModelStep::UsePath)
}

/// A file behind a directory is a checkpoint for vla.cpp just where its extension says so.
pub proof fn checkpoints_are_known_by_their_extension(
    path: Seq<char>,
    dir: Seq<char>,
    name: Seq<char>,
    r: Result<ModelStep, Seq<char>>,
)
    requires
        filed(path, dir, name) || backfiled(path, dir, name),
        model_meant(path, "vla-artifact"@, false, r),
    ensures
        r == (if vla_extension(dotted_extension(name)) {
            Ok::<ModelStep, Seq<char>>(ModelStep::UsePath)
        } else {
            Err::<ModelStep, Seq<char>>(
                "vla.cpp model must be a .gguf or .safetensors checkpoint: "@ + path,
            )
        }),
{
    reveal_strlit("vla-artifact");
    reveal_strlit("file");
}

/// How a request to load a model is answered.
#[derive(Debug)]
pub enum LoadModelOutcome {
    Success(Json),
    ReloadRequired(Json),
}

pub enum OutcomeView {
    Success(JsonView),
    ReloadRequired(JsonView),
}

impl View for LoadModelOutcome {
    type V = OutcomeView;

    open spec fn view(&self) -> OutcomeView {
        match self {
            LoadModelOutcome::Success(j) => OutcomeView::Success(j@),
            LoadModelOutcome::ReloadRequired(j) => OutcomeView::ReloadRequired(j@),
        }
    }
}

/// What comes of a request for a model that may already be loaded: the manager after
/// it, and the answer, or none where a runtime has to be started.
pub open spec fn answered(m: ManagerView, c: ConfigView) -> (ManagerView, Option<OutcomeView>) {
    match matching_key(m.loaded, c.model_key, c.model_path, c.public_model_id) {
        None => (m, None),
        Some(key) => match under_key(m.loaded, key) {
            None => (m, None),
            Some(r) => if same_configuration(r, c) {
                let s = promoted(m.loaded, key, c.model_key, c.public_model_id);
                let now = if promotes(m.loaded, key, c.model_key, c.public_model_id) {
                    c.model_key
                } else {
                    key
                };
                (
                    ManagerView { loaded: s, default_model_key: Some(now), ..m },
                    Some(OutcomeView::Success(load_payload(under_key(s, now)->0, true))),
                )
            } else {
                (m, Some(OutcomeView::ReloadRequired(reload_payload(r, c))))
            },
        },
    }
}

/// The manager with a runtime that was started under a reservation.
pub open spec fn with_started(m: ManagerView, id: u64, r: RuntimeView) -> ManagerView {
    let l = m.ledger->0;
    ManagerView {
        selected_backend: Some(r.backend_id),
        loaded: with_runtime(m.loaded, numbered(m, r)),
        default_model_key: Some(r.model_key),
        ledger: Some(with_commit(l, id)),
        next_generation: (m.next_generation + 1) as u64,
        ..m
    }
}

/// A runtime with the numbers that it gets when it is recorded.
pub open spec fn numbered(m: ManagerView, r: RuntimeView) -> RuntimeView {
    RuntimeView {
        generation: m.next_generation,
        route_state: RuntimeRouteState::Ready,
        allocation_id: AllocationId { value: m.ledger->0.next_id },
        ..r
    }
}

/// Why a runtime that was started cannot be recorded.
pub open spec fn record_refusal(m: ManagerView, id: u64) -> Option<Seq<char>> {
    if m.next_generation == u64::MAX {
        Some("runtime generation overflow"@)
    } else if !has_holding(m.ledger->0.reservations, id) {
        Some("resource reservation is unknown"@)
    } else if m.ledger->0.next_id == u64::MAX {
        Some("resource ledger is out of numbers"@)
    } else {
        None
    }
}

impl RustRuntimeManager {
    /// Begins a load: refuses it while the gateway shuts down, and takes note of a look
    /// at all runtimes otherwise.
    pub fn begin_load(&mut self, shutting_down: bool, polls: &Vec<ProcessPoll>) -> (r: Result<
        (),
        Failure,
    >)
        requires
            old(self)@.wf(),
        ensures
            final(self)@.wf(),
            match r {
                Ok(_) => !shutting_down && final(self)@ == reaped(old(self)@, polls@),
                Err(e) => shutting_down && final(self)@ == old(self)@ && e@
                    == "gateway is shutting down"@,
            },
    {
        if shutting_down {
            return Err(Failure::new("gateway is shutting down"));
        }
        self.reap_exited_runtimes(polls);
        Ok(())
    }

    /// The backend that a request is for.
    pub fn resolve_requested_backend(
        &self,
        payload: &Json,
        recommended: &Option<String>,
    ) -> (r: Result<String, Failure>)
        ensures
            text_result(r) == requested_backend(
                payload@,
                self@.selected_backend,
                opt_text(*recommended),
            ),
    {
        if let Some(b) = payload.get_stated("backend") {
            return Ok(b);
        }
        if let Some(b) = &self.selected_backend {
            return Ok(b.as_str().to_owned());
        }
        match recommended {
            Some(b) => Ok(b.as_str().to_owned()),
            None => Err(Failure::new("no installed backend available")),
        }
    }

    /// Answers a request for a model that is already loaded: with the same settings it
    /// becomes the default, and with others it has to be unloaded first. Gives nothing
    /// where a runtime has to be started.
    pub fn answer_if_loaded(&mut self, c: &RequestedRuntimeConfig) -> (r: Option<LoadModelOutcome>)
        requires
            old(self)@.wf(),
        ensures
            final(self)@.wf(),
            final(self)@ == answered(old(self)@, c@).0,
            match r {
                Some(o) => answered(old(self)@, c@).1 == Some(o@),
                None => answered(old(self)@, c@).1 is None,
            },
    {
        let ghost before = self@;
        let key = match self.matching_loaded_model_key(
            c.model_key.as_str(),
            c.model_path.as_str(),
            &c.public_model_id,
        ) {
            Some(key) => key,
            None => {
                return None;
            },
        };
        proof {
            lemma_key_place(before.loaded, key@);
        }
        let i: usize = match find_key(&self.loaded, key.as_str()) {
            Some(i) => i,
            None => {
                return None;
            },
        };
        assert(self.loaded@[i as int]@ == before.loaded[i as int]);
        if !same_load_configuration(&self.loaded[i], c) {
            return Some(
                LoadModelOutcome::ReloadRequired(reload_required_response(&self.loaded[i], c)),
            );
        }
        let now = self.promote_loaded_model_key(
            key.as_str(),
            c.model_key.as_str(),
            &c.public_model_id,
        );
        proof {
            let s = self@.loaded;
            if promotes(before.loaded, key@, c@.model_key, c@.public_model_id) {
                runtimes_stay_in_order(
                    before.loaded,
                    key@,
                    RuntimeRouteState::Ready,
                    before.loaded[i as int],
                );
                a_placed_runtime_is_found(
                    crate::manager::loaded::without_key(before.loaded, key@),
                    RuntimeView {
                        model_key: c@.model_key,
                        public_model_id: c@.public_model_id,
                        ..before.loaded[i as int]
                    },
                );
            }
            lemma_key_place(s, now@);
        }
        let at: usize = match find_key(&self.loaded, now.as_str()) {
            Some(at) => at,
            None => {
                assert(false);
                return None;
            },
        };
        let response = model_load_response(&self.loaded[at], true);
        self.default_model_key = Some(now);
        assert(self@ =~= answered(before, c@).0);
        Some(LoadModelOutcome::Success(response))
    }

    /// Ends a load: records the runtime that was started under a reservation, and gives
    /// the answer; where it was not started or cannot be recorded, the reservation is
    /// given back.
    pub fn finish_load(
        &mut self,
        id: ReservationId,
        started: Result<LoadedRustRuntime, Failure>,
    ) -> (r: Result<Json, Failure>)
        requires
            old(self)@.wf(),
            old(self)@.ledger is Some,
        ensures
            final(self)@.wf(),
            match (started, r) {
                (Err(error), Err(e)) => e@ == error@ && final(self)@ == given_back(
                    old(self)@,
                    id.value,
                ),
                (Ok(runtime), Err(e)) => record_refusal(old(self)@, id.value) == Some(e@)
                    && final(self)@ == given_back(
                    ManagerView {
                        next_generation: if old(self)@.next_generation == u64::MAX {
                            u64::MAX
                        } else {
                            (old(self)@.next_generation + 1) as u64
                        },
                        ..old(self)@
                    },
                    id.value,
                ),
                (Ok(runtime), Ok(answer)) => record_refusal(old(self)@, id.value) is None
                    && final(self)@ == with_started(old(self)@, id.value, runtime@) && answer@
                    == load_payload(numbered(old(self)@, runtime@), false),
                _ => false,
            },
    {
        let ghost before = self@;
        let mut runtime = match started {
            Ok(runtime) => runtime,
            Err(e) => {
                return self.with_reservation(id, Err(e));
            },
        };
        let ghost was = runtime@;
        let generation: u64 = match self.take_generation() {
            Ok(n) => n,
            Err(e) => {
                return self.with_reservation(id, Err(e));
            },
        };
        let ghost counted = self@;
        let committed = match &mut self.resource_ledger {
            Some(ledger) => ledger.commit(id),
            None => Err(Failure::new("resource reservation is unknown")),
        };
        let allocation = match committed {
            Ok(a) => a,
            Err(e) => {
                assert(self@ =~= counted);
                return self.with_reservation(id, Err(e));
            },
        };
        runtime.generation = generation;
        runtime.route_state = RuntimeRouteState::Ready;
        runtime.allocation_id = allocation;
        assert(runtime@ == numbered(before, was));
        let response = model_load_response(&runtime, false);
        self.selected_backend = Some(runtime.backend_id.as_str().to_owned());
        self.default_model_key = Some(runtime.model_key.as_str().to_owned());
        proof {
            runtimes_stay_in_order(
                before.loaded,
                was.model_key,
                RuntimeRouteState::Ready,
                runtime@,
            );
        }
        place_runtime(&mut self.loaded, runtime);
        assert(self@ =~= with_started(before, id.value, was));
        Ok(response)
    }
}

/// A runtime that was started for the given settings, before it has its numbers.
pub open spec fn started_runtime(
    c: ConfigView,
    owner: Option<Seq<char>>,
    plan: PlanView,
    process: ProcessView,
    devices: Option<Seq<char>>,
    warning: Option<Seq<char>>,
    r: RuntimeView,
) -> bool {
    &&& r.model_key == c.model_key
    &&& r.owner_admin_id == owner
    &&& r.backend_id == c.backend_id
    &&& r.model == c.model_path
    &&& r.public_model_id == c.public_model_id
    &&& r.mmproj == c.mmproj
    &&& r.ctx_size == plan.ctx_size
    &&& r.launch_args == c.launch_args
    &&& r.cuda_visible_devices == devices
    &&& r.cuda_warning == warning
    &&& r.external_server_protocol == plan.protocol
    &&& r.client_endpoint == plan.client_endpoint
    &&& r.process == process
    &&& r.proxy_model_ref == plan.proxy_model_ref
}

/// What is kept of a runtime that was started for the given settings.
pub fn new_runtime(
    c: &RequestedRuntimeConfig,
    owner_admin_id: &Option<String>,
    plan: &ExternalRuntimePlan,
    process: RuntimeProcess,
    devices: &Option<String>,
    warning: &Option<String>,
    budget: ResourceBudget,
) -> (r: LoadedRustRuntime)
    ensures
        started_runtime(
            c@,
            opt_text(*owner_admin_id),
            plan@,
            process@,
            opt_text(*devices),
            opt_text(*warning),
            r@,
        ),
        r@.resource_budget == budget@,
{
    LoadedRustRuntime {
        model_key: c.model_key.as_str().to_owned(),
        owner_admin_id: copy_opt(owner_admin_id),
        backend_id: c.backend_id.as_str().to_owned(),
        model: c.model_path.as_str().to_owned(),
        public_model_id: copy_opt(&c.public_model_id),
        mmproj: copy_opt(&c.mmproj),
        ctx_size: plan.ctx_size,
        launch_args: copy_texts(&c.launch_args),
        cuda_visible_devices: copy_opt(devices),
        cuda_warning: copy_opt(warning),
        external_server_protocol: plan.protocol,
        client_endpoint: plan.client_endpoint.as_str().to_owned(),
        process,
        proxy_model_ref: copy_opt(&plan.proxy_model_ref),
        generation: 0,
        route_state: RuntimeRouteState::Ready,
        allocation_id: AllocationId { value: 0 },
        resource_budget: budget,
    }
}

/// A model that was loaded is the default and is sent requests at once.
pub proof fn a_loaded_model_is_sent_requests(m: ManagerView, id: u64, r: RuntimeView)
    requires
        m.wf(),
        m.ledger is Some,
        record_refusal(m, id) is None,
    ensures
        under_key(with_started(m, id, r).loaded, r.model_key) == Some(numbered(m, r)),
        proxy_target(with_started(m, id, r), None) == Some(target_of(numbered(m, r))),
        with_started(m, id, r).next_generation > numbered(m, r).generation,
{
    a_placed_runtime_is_found(m.loaded, numbered(m, r));
}

/// A request for what is already loaded starts nothing: no number is used up, nothing
/// more is held, and as many runtimes are loaded as before.
pub proof fn an_answer_starts_nothing(m: ManagerView, c: ConfigView)
    requires
        m.wf(),
        answered(m, c).1 is Some,
    ensures
        answered(m, c).0.ledger == m.ledger,
        answered(m, c).0.next_generation == m.next_generation,
        answered(m, c).0.loaded.len() <= m.loaded.len(),
{
    let key = matching_key(m.loaded, c.model_key, c.model_path, c.public_model_id)->0;
    lemma_key_place(m.loaded, key);
    if promotes(m.loaded, key, c.model_key, c.public_model_id) {
        let s = crate::manager::loaded::without_key(m.loaded, key);
        runtimes_stay_in_order(m.loaded, key, RuntimeRouteState::Ready, m.loaded[0]);
        crate::text::order::lemma_rank(crate::manager::loaded::keys(s), c.model_key);
    }
}

/// A request with other settings than those of the loaded runtime changes nothing.
pub proof fn a_refused_reload_changes_nothing(m: ManagerView, c: ConfigView)
    requires
        answered(m, c).1 matches Some(OutcomeView::ReloadRequired(_)),
    ensures
        answered(m, c).0 == m,
{
}

} // verus!
