//! What it takes to run an external server: its command line, its working directory,
//! how it is stopped and where it answers.
use vstd::prelude::*;

use crate::json::{stated_member, texts_member, Json, JsonView};
use crate::paths::{filed, joined_path, parent_of, path_join, path_parent, tidy_dir};
use crate::runtime::args::{
    extract_server_arg_value, find_managed, first_managed, last_value,
    reading_a_set_flag_gives_its_value, with_flag, with_server_arg,
};
use crate::text::chars::{
    chars_of, control, is_control, is_letter, letter, lower_char, lowered_char, string_of, text_eq,
};
use crate::text::compose::{
    copy_texts, has_item, no_texts, one, opt_text, opt_texts, put, put_all, replace, replaced,
    texts,
};
use crate::text::number::{decimal, parse_u32, parsed, parsing_undoes_showing, show};
use crate::text::pieces::{pieces, split};
use crate::text::search::{has_prefix, starts_with};
use crate::text::trim::{
    blank, is_blank, left_trimmed, right_trimmed, trim_end_of, trim_start_of, CharClass,
};

verus! {

/// What a runtime is asked to run.
#[derive(Debug)]
pub struct ExternalRuntimeRequest {
    pub backend: Json,
    pub model_path: String,
    pub mmproj_path: Option<String>,
    pub host: String,
    pub port: u16,
    pub ctx_size: Option<u32>,
    pub launch_args: Option<Vec<String>>,
}

pub struct RequestView {
    pub backend: JsonView,
    pub model_path: Seq<char>,
    pub mmproj_path: Option<Seq<char>>,
    pub host: Seq<char>,
    pub port: u16,
    pub ctx_size: Option<u32>,
    pub launch_args: Option<Seq<Seq<char>>>,
}

impl View for ExternalRuntimeRequest {
    type V = RequestView;

    open spec fn view(&self) -> RequestView {
        RequestView {
            backend: self.backend@,
            model_path: self.model_path@,
            mmproj_path: opt_text(self.mmproj_path),
            host: self.host@,
            port: self.port,
            ctx_size: self.ctx_size,
            launch_args: opt_texts(self.launch_args),
        }
    }
}

/// The protocols that an external server can speak.
#[derive(Clone, Copy, Debug, PartialEq, Eq, Structural)]
pub enum ExternalServerProtocol {
    LlamaCppServer,
    VllmOpenaiServer,
    VllmWsl2OpenaiServer,
    VlaCppZmqServer,
}

impl ExternalServerProtocol {
    pub open spec fn name(self) -> Seq<char> {
        match self {
            ExternalServerProtocol::LlamaCppServer => "llama.cpp-server"@,
            ExternalServerProtocol::VllmOpenaiServer => "vllm-openai-server"@,
            ExternalServerProtocol::VllmWsl2OpenaiServer => "vllm-wsl2-openai-server"@,
            ExternalServerProtocol::VlaCppZmqServer => "vla.cpp-zmq-server"@,
        }
    }

    /// The name of the protocol.
    pub fn as_str(self) -> (r: &'static str)
        ensures
            r@ == self.name(),
    {
        match self {
            ExternalServerProtocol::LlamaCppServer => "llama.cpp-server",
            ExternalServerProtocol::VllmOpenaiServer => "vllm-openai-server",
            ExternalServerProtocol::VllmWsl2OpenaiServer => "vllm-wsl2-openai-server",
            ExternalServerProtocol::VlaCppZmqServer => "vla.cpp-zmq-server",
        }
    }

    /// Whether requests in the form of the OpenAI API can be passed on to the server.
    pub fn is_openai_compatible(self) -> (r: bool)
        ensures
            r == (self != ExternalServerProtocol::VlaCppZmqServer),
    {
        match self {
            ExternalServerProtocol::VlaCppZmqServer => false,
            _ => true,
        }
    }
}

/// How one sees that a runtime has become ready.
#[derive(Debug)]
pub enum RuntimeReadinessProbe {
    /// Its health endpoint answers with success.
    HttpHealth,
    /// It has written the marker to its log and accepts connections.
    TcpConnectAndLog { marker: String },
}

/// The plan of a runtime process.
#[derive(Debug)]
pub struct ExternalRuntimePlan {
    pub command: Vec<String>,
    pub stop_command: Option<Vec<String>>,
    pub cwd: String,
    pub port: u16,
    pub ctx_size: Option<u32>,
    pub log_file_name: String,
    pub proxy_model_ref: Option<String>,
    pub protocol: ExternalServerProtocol,
    pub client_endpoint: String,
    pub readiness_probe: RuntimeReadinessProbe,
}

#[verifier::ext_equal]
pub struct PlanView {
    pub command: Seq<Seq<char>>,
    pub stop_command: Option<Seq<Seq<char>>>,
    pub cwd: Seq<char>,
    pub port: u16,
    pub ctx_size: Option<u32>,
    pub log_file_name: Seq<char>,
    pub proxy_model_ref: Option<Seq<char>>,
    pub protocol: ExternalServerProtocol,
    pub client_endpoint: Seq<char>,
    pub marker: Option<Seq<char>>,
}

impl View for ExternalRuntimePlan {
    type V = PlanView;

    open spec fn view(&self) -> PlanView {
        PlanView {
            command: texts(self.command@),
            stop_command: opt_texts(self.stop_command),
            cwd: self.cwd@,
            port: self.port,
            ctx_size: self.ctx_size,
            log_file_name: self.log_file_name@,
            proxy_model_ref: opt_text(self.proxy_model_ref),
            protocol: self.protocol,
            client_endpoint: self.client_endpoint@,
            marker: match self.readiness_probe {
                RuntimeReadinessProbe::HttpHealth => None,
                RuntimeReadinessProbe::TcpConnectAndLog { marker } => Some(marker@),
            },
        }
    }
}

/// Why there is no plan for a request.
#[derive(Debug, PartialEq, Eq)]
pub enum RuntimePlanError {
    MissingBackendField(String),
    MissingLauncher(String),
    ReservedLaunchArg(String),
    UnsupportedProtocol { backend: String, protocol: String },
    InvalidPort,
    InvalidWslLauncherManifest { path: String, message: String },
    UnsupportedWslModelPath(String),
}

pub enum PlanErrorView {
    MissingBackendField(Seq<char>),
    MissingLauncher(Seq<char>),
    ReservedLaunchArg(Seq<char>),
    UnsupportedProtocol { backend: Seq<char>, protocol: Seq<char> },
    InvalidPort,
    InvalidWslLauncherManifest { path: Seq<char>, message: Seq<char> },
    UnsupportedWslModelPath(Seq<char>),
}

impl View for RuntimePlanError {
    type V = PlanErrorView;

    open spec fn view(&self) -> PlanErrorView {
        match self {
            RuntimePlanError::MissingBackendField(s) => PlanErrorView::MissingBackendField(s@),
            RuntimePlanError::MissingLauncher(s) => PlanErrorView::MissingLauncher(s@),
            RuntimePlanError::ReservedLaunchArg(s) => PlanErrorView::ReservedLaunchArg(s@),
            RuntimePlanError::UnsupportedProtocol { backend, protocol } => {
                PlanErrorView::UnsupportedProtocol { backend: backend@, protocol: protocol@ }
            },
            RuntimePlanError::InvalidPort => PlanErrorView::InvalidPort,
            RuntimePlanError::InvalidWslLauncherManifest { path, message } => {
                PlanErrorView::InvalidWslLauncherManifest { path: path@, message: message@ }
            },
            RuntimePlanError::UnsupportedWslModelPath(s) => {
                PlanErrorView::UnsupportedWslModelPath(s@)
            },
        }
    }
}

/// How `str`'s `Debug` writes a text.
pub uninterp spec fn debug_text(s: Seq<char>) -> Seq<char>;

/// The `Debug` formatting of `str`, which quotes the text and escapes it.
#[verifier::external_body]
pub(crate) fn debug_quoted(s: &str) -> (r: String)
    ensures
        r@ == debug_text(s@),
{
    format!("{s:?}")
}

/// What is said of an error.
pub open spec fn plan_error_message(e: PlanErrorView) -> Seq<char> {
    match e {
        PlanErrorView::MissingBackendField(field) => "backend payload is missing field: "@ + field,
        PlanErrorView::MissingLauncher(backend) => "backend launcher not found: "@ + backend,
        PlanErrorView::ReservedLaunchArg(arg) => "launch arg "@ + debug_text(arg)
            + " is managed by OmniInfer and must not be set in backend config"@,
        PlanErrorView::UnsupportedProtocol { backend, protocol } => {
            "unsupported external runtime protocol for "@ + backend + ": "@ + protocol
        },
        PlanErrorView::InvalidPort => "port must be in 1-65535"@,
        PlanErrorView::InvalidWslLauncherManifest { path, message } => {
            "invalid WSL2 launcher manifest "@ + path + ": "@ + message
        },
        PlanErrorView::UnsupportedWslModelPath(path) => {
            "WSL2 vLLM does not support this Windows model path: "@ + path
        },
    }
}

impl RuntimePlanError {
    /// What is said of the error.
    pub fn message(&self) -> (r: String)
        ensures
            r@ == plan_error_message(self@),
    {
        match self {
            RuntimePlanError::MissingBackendField(field) => {
                "backend payload is missing field: ".to_owned().concat(field.as_str())
            },
            RuntimePlanError::MissingLauncher(backend) => {
                "backend launcher not found: ".to_owned().concat(backend.as_str())
            },
            RuntimePlanError::ReservedLaunchArg(arg) => {
                "launch arg ".to_owned().concat(debug_quoted(arg.as_str()).as_str()).concat(
                    " is managed by OmniInfer and must not be set in backend config",
                )
            },
            RuntimePlanError::UnsupportedProtocol { backend, protocol } => {
                "unsupported external runtime protocol for ".to_owned().concat(
                    backend.as_str(),
                ).concat(": ").concat(protocol.as_str())
            },
            RuntimePlanError::InvalidPort => "port must be in 1-65535".to_owned(),
            RuntimePlanError::InvalidWslLauncherManifest { path, message } => {
                "invalid WSL2 launcher manifest ".to_owned().concat(path.as_str()).concat(
                    ": ",
                ).concat(message.as_str())
            },
            RuntimePlanError::UnsupportedWslModelPath(path) => {
                "WSL2 vLLM does not support this Windows model path: ".to_owned().concat(
                    path.as_str(),
                )
            },
        }
    }
}

/// What the launcher file of a WSL2 runtime says.
#[derive(Debug)]
pub struct WslVllmLauncherManifest {
    pub schema_version: u32,
    pub backend: String,
    pub distribution: String,
    pub linux_launcher: String,
    pub linux_runner: String,
    pub linux_stopper: String,
    pub linux_pid_dir: String,
    pub automount_root: String,
}

pub struct ManifestView {
    pub schema_version: u32,
    pub backend: Seq<char>,
    pub distribution: Seq<char>,
    pub linux_launcher: Seq<char>,
    pub linux_runner: Seq<char>,
    pub linux_stopper: Seq<char>,
    pub linux_pid_dir: Seq<char>,
    pub automount_root: Seq<char>,
}

impl View for WslVllmLauncherManifest {
    type V = ManifestView;

    open spec fn view(&self) -> ManifestView {
        ManifestView {
            schema_version: self.schema_version,
            backend: self.backend@,
            distribution: self.distribution@,
            linux_launcher: self.linux_launcher@,
            linux_runner: self.linux_runner@,
            linux_stopper: self.linux_stopper@,
            linux_pid_dir: self.linux_pid_dir@,
            automount_root: self.automount_root@,
        }
    }
}

pub open spec fn manifest_read(
    r: Result<WslVllmLauncherManifest, String>,
) -> Result<ManifestView, Seq<char>> {
    match r {
        Ok(m) => Ok(m@),
        Err(e) => Err(e@),
    }
}

pub open spec fn plan_outcome(
    r: Result<ExternalRuntimePlan, RuntimePlanError>,
) -> Result<PlanView, PlanErrorView> {
    match r {
        Ok(p) => Ok(p@),
        Err(e) => Err(e@),
    }
}

pub open spec fn has_control(s: Seq<char>) -> bool {
    exists|i: int| 0 <= i < s.len() && control(#[trigger] s[i])
}

/// An absolute path without control characters and without a step upwards.
pub open spec fn absolute_linux_path(s: Seq<char>) -> bool {
    &&& s.len() > 0 && s[0] == '/'
    &&& !has_control(s)
    &&& !pieces(s, '/').contains(".."@)
}

/// A launcher file that can be used for the backend.
pub open spec fn usable_manifest(backend_id: Seq<char>, m: ManifestView) -> bool {
    &&& m.schema_version == 1
    &&& m.backend == backend_id
    &&& !blank(m.distribution)
    &&& !has_control(m.distribution)
    &&& absolute_linux_path(m.linux_launcher)
    &&& absolute_linux_path(m.linux_runner)
    &&& absolute_linux_path(m.linux_stopper)
    &&& absolute_linux_path(m.linux_pid_dir)
    &&& absolute_linux_path(m.automount_root)
}

pub open spec fn unusable_manifest_error(path: Seq<char>) -> PlanErrorView {
    PlanErrorView::InvalidWslLauncherManifest {
        path,
        message: "unsupported schema or incomplete absolute Linux paths"@,
    }
}

/// A reference that starts with a Windows drive: a letter, a colon and a separator.
pub open spec fn drive_path(s: Seq<char>) -> bool {
    s.len() >= 3 && letter(s[0]) && s[1] == ':' && (s[2] == '\\' || s[2] == '/')
}

/// A path on a drive, as the mounted drive shows it inside the distribution.
pub open spec fn mounted(s: Seq<char>, automount_root: Seq<char>) -> Seq<char> {
    right_trimmed(automount_root, CharClass::Only('/')) + "/"@ + seq![lowered_char(s[0])] + "/"@
        + left_trimmed(replaced(s.skip(3), '\\', "/"@), CharClass::Only('/'))
}

/// How a model reference reads inside the distribution.
pub open spec fn translated(s: Seq<char>, automount_root: Seq<char>) -> Result<
    Seq<char>,
    PlanErrorView,
> {
    if drive_path(s) {
        Ok(mounted(s, automount_root))
    } else if starts_with(s, "\\\\"@) {
        Err(PlanErrorView::UnsupportedWslModelPath(s))
    } else {
        Ok(s)
    }
}

pub open spec fn vllm_protocol(protocol: Seq<char>) -> bool {
    protocol == "vllm-openai-server"@ || protocol == "vllm-wsl2-openai-server"@
}

/// The flags that set the context size.
pub open spec fn ctx_flags(protocol: Seq<char>) -> Seq<Seq<char>> {
    if vllm_protocol(protocol) {
        seq!["--max-model-len"@, ""@]
    } else {
        seq!["-c"@, "--ctx-size"@]
    }
}

pub open spec fn name_flags() -> Seq<Seq<char>> {
    seq!["--served-model-name"@]
}

/// The protocol that a backend states, llama.cpp's where it states none.
pub open spec fn stated_protocol(backend: JsonView) -> Seq<char> {
    match stated_member(backend, "external_server_protocol"@) {
        Some(p) => p,
        None => "llama.cpp-server"@,
    }
}

/// The arguments of the server: those of the request or else the backend's defaults,
/// with the requested context size set.
pub open spec fn server_args(request: RequestView) -> Seq<Seq<char>> {
    let flags = ctx_flags(stated_protocol(request.backend));
    match request.ctx_size {
        Some(size) => with_flag(base_args(request), flags, decimal(size as nat)),
        None => base_args(request),
    }
}

pub open spec fn base_args(request: RequestView) -> Seq<Seq<char>> {
    match request.launch_args {
        Some(args) => args,
        None => match texts_member(request.backend, "default_args"@) {
            Some(args) => args,
            None => seq![],
        },
    }
}

/// The context size that the arguments set.
pub open spec fn effective_ctx_size(args: Seq<Seq<char>>, flags: Seq<Seq<char>>) -> Option<u32> {
    match last_value(args, flags) {
        Some(value) => match parsed(value, u32::MAX as nat) {
            Some(n) => Some(n as u32),
            None => None,
        },
        None => None,
    }
}

/// The arguments of a vLLM server, which serves its model under a name in any case.
pub open spec fn named_args(args: Seq<Seq<char>>) -> Seq<Seq<char>> {
    if last_value(args, name_flags()) is None {
        seq!["--served-model-name"@, "local"@] + args
    } else {
        args
    }
}

pub open spec fn http_endpoint(host: Seq<char>, port: u16) -> Seq<char> {
    "http://"@ + host + ":"@ + decimal(port as nat)
}

pub open spec fn working_dir(parent: Option<Seq<char>>) -> Seq<char> {
    match parent {
        Some(p) => p,
        None => "."@,
    }
}

pub open spec fn log_name(backend: JsonView) -> Seq<char> {
    match stated_member(backend, "log_file_name"@) {
        Some(s) => s,
        None => "runtime.log"@,
    }
}

pub open spec fn runtime_dir(backend: JsonView) -> Seq<char> {
    match stated_member(backend, "runtime_dir"@) {
        Some(s) => s,
        None => "."@,
    }
}

pub open spec fn llama_command(
    backend_id: Seq<char>,
    launcher: Seq<char>,
    request: RequestView,
    args: Seq<Seq<char>>,
    log_dir: Seq<char>,
) -> Seq<Seq<char>> {
    let start = seq![
        launcher,
        "-m"@,
        request.model_path,
        "--host"@,
        request.host,
        "--port"@,
        decimal(request.port as nat),
    ];
    let ui = if starts_with(backend_id, "ik_llama.cpp"@) {
        start.push("--webui"@).push("none"@)
    } else {
        start.push("--no-webui"@)
    };
    let served = ui.push("--slot-save-path"@).push(log_dir) + args;
    match request.mmproj_path {
        Some(p) => if p.len() == 0 {
            served
        } else {
            served.push("--mmproj"@).push(p)
        },
        None => served,
    }
}

pub open spec fn llama_plan(
    backend_id: Seq<char>,
    launcher: Seq<char>,
    request: RequestView,
    args: Seq<Seq<char>>,
    ctx_size: Option<u32>,
    parent: Option<Seq<char>>,
    log_dir: Seq<char>,
) -> PlanView {
    PlanView {
        command: llama_command(backend_id, launcher, request, args, log_dir),
        stop_command: None,
        cwd: working_dir(parent),
        port: request.port,
        ctx_size,
        log_file_name: log_name(request.backend),
        proxy_model_ref: None,
        protocol: ExternalServerProtocol::LlamaCppServer,
        client_endpoint: http_endpoint(request.host, request.port),
        marker: None,
    }
}

pub open spec fn vllm_plan(
    launcher: Seq<char>,
    request: RequestView,
    args: Seq<Seq<char>>,
    ctx_size: Option<u32>,
    parent: Option<Seq<char>>,
) -> PlanView {
    PlanView {
        command: seq![
            launcher,
            "serve"@,
            request.model_path,
            "--host"@,
            request.host,
            "--port"@,
            decimal(request.port as nat),
        ] + named_args(args),
        stop_command: None,
        cwd: working_dir(parent),
        port: request.port,
        ctx_size,
        log_file_name: log_name(request.backend),
        proxy_model_ref: last_value(named_args(args), name_flags()),
        protocol: ExternalServerProtocol::VllmOpenaiServer,
        client_endpoint: http_endpoint(request.host, request.port),
        marker: None,
    }
}

/// The file that holds the process id of the server on the given port.
pub open spec fn pid_file(m: ManifestView, port: u16) -> Seq<char> {
    right_trimmed(m.linux_pid_dir, CharClass::Only('/')) + "/"@ + decimal(port as nat) + ".pid"@
}

pub open spec fn wsl_plan(
    request: RequestView,
    args: Seq<Seq<char>>,
    ctx_size: Option<u32>,
    m: ManifestView,
    model: Seq<char>,
    wsl: Seq<char>,
    parent: Option<Seq<char>>,
) -> PlanView {
    PlanView {
        command: seq![
            wsl,
            "--distribution"@,
            m.distribution,
            "--exec"@,
            m.linux_runner,
            pid_file(m, request.port),
            m.linux_launcher,
            "serve"@,
            model,
            "--host"@,
            request.host,
            "--port"@,
            decimal(request.port as nat),
        ] + named_args(args),
        stop_command: Some(
            seq![
                wsl,
                "--distribution"@,
                m.distribution,
                "--exec"@,
                m.linux_stopper,
                pid_file(m, request.port),
            ],
        ),
        cwd: working_dir(parent),
        port: request.port,
        ctx_size,
        log_file_name: log_name(request.backend),
        proxy_model_ref: last_value(named_args(args), name_flags()),
        protocol: ExternalServerProtocol::VllmWsl2OpenaiServer,
        client_endpoint: http_endpoint(request.host, request.port),
        marker: None,
    }
}

/// The plan through a WSL2 launcher file, given what reading that file gave.
pub open spec fn wsl_outcome(
    backend_id: Seq<char>,
    path: Seq<char>,
    request: RequestView,
    args: Seq<Seq<char>>,
    ctx_size: Option<u32>,
    manifest: Result<ManifestView, Seq<char>>,
    wsl: Seq<char>,
    parent: Option<Seq<char>>,
) -> Result<PlanView, PlanErrorView> {
    match manifest {
        Err(message) => Err(PlanErrorView::InvalidWslLauncherManifest { path, message }),
        Ok(m) => if !usable_manifest(backend_id, m) {
            Err(unusable_manifest_error(path))
        } else {
            match translated(request.model_path, m.automount_root) {
                Err(e) => Err(e),
                Ok(model) => Ok(wsl_plan(request, args, ctx_size, m, model, wsl, parent)),
            }
        },
    }
}

/// The launcher that a backend states.
pub open spec fn stated_launcher(backend: JsonView) -> Option<Seq<char>> {
    stated_member(backend, "launcher_path"@)
}

/// The outcome of planning. `manifest` is what reading the launcher as a launcher file
/// gave, which counts for the WSL2 protocol alone; `wsl` is the program that enters a
/// distribution; `parent` is the directory of the launcher, and `log_dir` that of the
/// runtime's logs.
pub open spec fn planned(
    request: RequestView,
    manifest: Result<ManifestView, Seq<char>>,
    wsl: Seq<char>,
    parent: Option<Seq<char>>,
    log_dir: Seq<char>,
) -> Result<PlanView, PlanErrorView> {
    let protocol = stated_protocol(request.backend);
    let args = server_args(request);
    let ctx_size = effective_ctx_size(args, ctx_flags(protocol));
    if request.port == 0 {
        Err(PlanErrorView::InvalidPort)
    } else {
        match stated_member(request.backend, "id"@) {
            None => Err(PlanErrorView::MissingBackendField("id"@)),
            Some(id) => match stated_launcher(request.backend) {
                None => Err(PlanErrorView::MissingLauncher(id)),
                Some(launcher) => match first_managed(base_args(request)) {
                    Some(flag) => Err(PlanErrorView::ReservedLaunchArg(flag)),
                    None => if protocol == "llama.cpp-server"@ {
                        Ok(llama_plan(id, launcher, request, args, ctx_size, parent, log_dir))
                    } else if protocol == "vllm-openai-server"@ {
                        Ok(vllm_plan(launcher, request, args, ctx_size, parent))
                    } else if protocol == "vllm-wsl2-openai-server"@ {
                        wsl_outcome(id, launcher, request, args, ctx_size, manifest, wsl, parent)
                    } else {
                        Err(PlanErrorView::UnsupportedProtocol { backend: id, protocol })
                    },
                },
            },
        }
    }
}

fn contains_control(s: &str) -> (r: bool)
    ensures
        r == has_control(s@),
{
    let v = chars_of(s);
    let mut i: usize = 0;
    while i < v.len()
        invariant
            i <= v@.len(),
            v@ == s@,
            forall|j: int| 0 <= j < i ==> !control(#[trigger] v@[j]),
        decreases v@.len() - i,
    {
        if is_control(v[i]) {
            assert(control(s@[i as int]));
            return true;
        }
        i += 1;
    }
    false
}

/// Whether the text is an absolute path without control characters and steps upwards.
pub fn valid_absolute_linux_path(value: &str) -> (r: bool)
    ensures
        r == absolute_linux_path(value@),
{
    let v = chars_of(value);
    if v.len() == 0 || v[0] != '/' || contains_control(value) {
        return false;
    }
    let parts = split(value, '/');
    !has_item(&parts, "..")
}

/// Accepts a launcher file that can be used for the backend.
pub fn validate_wsl_manifest(
    backend_id: &str,
    path: &str,
    manifest: &WslVllmLauncherManifest,
) -> (r: Result<(), RuntimePlanError>)
    ensures
        match r {
            Ok(_) => usable_manifest(backend_id@, manifest@),
            Err(e) => !usable_manifest(backend_id@, manifest@) && e@ == unusable_manifest_error(
                path@,
            ),
        },
{
    let valid = manifest.schema_version == 1 && text_eq(manifest.backend.as_str(), backend_id)
        && !is_blank(manifest.distribution.as_str()) && !contains_control(
        manifest.distribution.as_str(),
    ) && valid_absolute_linux_path(manifest.linux_launcher.as_str()) && valid_absolute_linux_path(
        manifest.linux_runner.as_str(),
    ) && valid_absolute_linux_path(manifest.linux_stopper.as_str()) && valid_absolute_linux_path(
        manifest.linux_pid_dir.as_str(),
    ) && valid_absolute_linux_path(manifest.automount_root.as_str());
    if valid {
        Ok(())
    } else {
        Err(
            RuntimePlanError::InvalidWslLauncherManifest {
                path: path.to_owned(),
                message: "unsupported schema or incomplete absolute Linux paths".to_owned(),
            },
        )
    }
}

/// How a model reference reads inside the distribution.
pub fn translate_wsl_model_ref(model: &str, automount_root: &str) -> (r: Result<
    String,
    RuntimePlanError,
>)
    ensures
        match r {
            Ok(s) => translated(model@, automount_root@) == Ok::<Seq<char>, PlanErrorView>(s@),
            Err(e) => translated(model@, automount_root@) == Err::<Seq<char>, PlanErrorView>(e@),
        },
{
    let v = chars_of(model);
    if v.len() >= 3 && is_letter(v[0]) && v[1] == ':' && (v[2] == '\\' || v[2] == '/') {
        let mut drive = String::new();
        drive.push(lower_char(v[0]));
        assert(drive@ =~= seq![lowered_char(model@[0])]);
        let behind = string_of(&v, 3, v.len());
        assert(behind@ =~= model@.skip(3));
        let suffix = trim_start_of(replace(behind.as_str(), '\\', "/").as_str(), CharClass::Only('/'));
        let root = trim_end_of(automount_root, CharClass::Only('/'));
        return Ok(
            root.concat("/").concat(drive.as_str()).concat("/").concat(suffix.as_str()),
        );
    }
    if has_prefix(model, "\\\\") {
        return Err(RuntimePlanError::UnsupportedWslModelPath(model.to_owned()));
    }
    Ok(model.to_owned())
}

/// The flags that set the context size.
pub fn ctx_size_flags(protocol: &str) -> (r: Vec<String>)
    ensures
        texts(r@) == ctx_flags(protocol@),
        r@.len() > 0,
{
    let mut r = no_texts();
    if text_eq(protocol, "vllm-openai-server") || text_eq(protocol, "vllm-wsl2-openai-server") {
        put(&mut r, "--max-model-len");
        put(&mut r, "");
    } else {
        put(&mut r, "-c");
        put(&mut r, "--ctx-size");
    }
    assert(texts(r@).len() == 2);
    r
}

/// Refuses arguments that set a flag which the gateway sets itself.
pub fn validate_launch_args(args: &Vec<String>) -> (r: Result<(), RuntimePlanError>)
    ensures
        match r {
            Ok(_) => first_managed(texts(args@)) is None,
            Err(e) => first_managed(texts(args@)) is Some && e@
                == PlanErrorView::ReservedLaunchArg(first_managed(texts(args@))->0),
        },
{
    match find_managed(args) {
        Some(flag) => Err(RuntimePlanError::ReservedLaunchArg(flag)),
        None => Ok(()),
    }
}

fn or_text(o: Option<String>, otherwise: &str) -> (r: String)
    ensures
        r@ == (match opt_text(o) {
            Some(s) => s,
            None => otherwise@,
        }),
{
    match o {
        Some(s) => s,
        None => otherwise.to_owned(),
    }
}

fn endpoint(host: &str, port: u16) -> (r: String)
    ensures
        r@ == http_endpoint(host@, port),
{
    "http://".to_owned().concat(host).concat(":").concat(show(port as u64).as_str())
}

fn build_llama_cpp_plan(
    backend_id: &str,
    launcher: &str,
    request: &ExternalRuntimeRequest,
    args: &Vec<String>,
    ctx_size: Option<u32>,
    parent: Option<String>,
    log_dir: &str,
) -> (r: ExternalRuntimePlan)
    ensures
        r@ == llama_plan(
            backend_id@,
            launcher@,
            request@,
            texts(args@),
            ctx_size,
            opt_text(parent),
            log_dir@,
        ),
{
    let mut command = one(launcher);
    put(&mut command, "-m");
    put(&mut command, request.model_path.as_str());
    put(&mut command, "--host");
    put(&mut command, request.host.as_str());
    put(&mut command, "--port");
    put(&mut command, show(request.port as u64).as_str());
    if has_prefix(backend_id, "ik_llama.cpp") {
        put(&mut command, "--webui");
        put(&mut command, "none");
    } else {
        put(&mut command, "--no-webui");
    }
    put(&mut command, "--slot-save-path");
    put(&mut command, log_dir);
    put_all(&mut command, args);
    match &request.mmproj_path {
        Some(mmproj) => {
            if !mmproj.as_str().is_empty() {
                put(&mut command, "--mmproj");
                put(&mut command, mmproj.as_str());
            }
        },
        None => {},
    }
    ExternalRuntimePlan {
        command,
        stop_command: None,
        cwd: or_text(parent, "."),
        port: request.port,
        ctx_size,
        log_file_name: or_text(request.backend.get_stated("log_file_name"), "runtime.log"),
        proxy_model_ref: None,
        protocol: ExternalServerProtocol::LlamaCppServer,
        client_endpoint: endpoint(request.host.as_str(), request.port),
        readiness_probe: RuntimeReadinessProbe::HttpHealth,
    }
}

fn served_under_a_name(args: &Vec<String>) -> (r: (Vec<String>, Option<String>))
    ensures
        texts(r.0@) == named_args(texts(args@)),
        opt_text(r.1) == last_value(named_args(texts(args@)), name_flags()),
{
    let flags = one("--served-model-name");
    let mut named = no_texts();
    if extract_server_arg_value(args, &flags).is_none() {
        put(&mut named, "--served-model-name");
        put(&mut named, "local");
    }
    put_all(&mut named, args);
    assert(texts(named@) =~= named_args(texts(args@)));
    let name = extract_server_arg_value(&named, &flags);
    (named, name)
}

fn build_vllm_plan(
    launcher: &str,
    request: &ExternalRuntimeRequest,
    args: &Vec<String>,
    ctx_size: Option<u32>,
    parent: Option<String>,
) -> (r: ExternalRuntimePlan)
    ensures
        r@ == vllm_plan(launcher@, request@, texts(args@), ctx_size, opt_text(parent)),
{
    let (named, name) = served_under_a_name(args);
    let mut command = one(launcher);
    put(&mut command, "serve");
    put(&mut command, request.model_path.as_str());
    put(&mut command, "--host");
    put(&mut command, request.host.as_str());
    put(&mut command, "--port");
    put(&mut command, show(request.port as u64).as_str());
    put_all(&mut command, &named);
    ExternalRuntimePlan {
        command,
        stop_command: None,
        cwd: or_text(parent, "."),
        port: request.port,
        ctx_size,
        log_file_name: or_text(request.backend.get_stated("log_file_name"), "runtime.log"),
        proxy_model_ref: name,
        protocol: ExternalServerProtocol::VllmOpenaiServer,
        client_endpoint: endpoint(request.host.as_str(), request.port),
        readiness_probe: RuntimeReadinessProbe::HttpHealth,
    }
}

fn build_wsl_vllm_plan(
    backend_id: &str,
    path: &str,
    request: &ExternalRuntimeRequest,
    args: &Vec<String>,
    ctx_size: Option<u32>,
    manifest: &Result<WslVllmLauncherManifest, String>,
    wsl: &str,
    parent: Option<String>,
) -> (r: Result<ExternalRuntimePlan, RuntimePlanError>)
    ensures
        plan_outcome(r) == wsl_outcome(
            backend_id@,
            path@,
            request@,
            texts(args@),
            ctx_size,
            manifest_read(*manifest),
            wsl@,
            opt_text(parent),
        ),
{
    let m = match manifest {
        Err(message) => {
            return Err(
                RuntimePlanError::InvalidWslLauncherManifest {
                    path: path.to_owned(),
                    message: message.as_str().to_owned(),
                },
            );
        },
        Ok(m) => m,
    };
    if let Err(error) = validate_wsl_manifest(backend_id, path, m) {
        return Err(error);
    }
    let (named, name) = served_under_a_name(args);
    let model = match translate_wsl_model_ref(
        request.model_path.as_str(),
        m.automount_root.as_str(),
    ) {
        Ok(model) => model,
        Err(error) => {
            return Err(error);
        },
    };
    let port = show(request.port as u64);
    let pid = trim_end_of(m.linux_pid_dir.as_str(), CharClass::Only('/')).concat("/").concat(
        port.as_str(),
    ).concat(".pid");
    let mut command = one(wsl);
    put(&mut command, "--distribution");
    put(&mut command, m.distribution.as_str());
    put(&mut command, "--exec");
    put(&mut command, m.linux_runner.as_str());
    put(&mut command, pid.as_str());
    put(&mut command, m.linux_launcher.as_str());
    put(&mut command, "serve");
    put(&mut command, model.as_str());
    put(&mut command, "--host");
    put(&mut command, request.host.as_str());
    put(&mut command, "--port");
    put(&mut command, port.as_str());
    put_all(&mut command, &named);
    let mut stop = one(wsl);
    put(&mut stop, "--distribution");
    put(&mut stop, m.distribution.as_str());
    put(&mut stop, "--exec");
    put(&mut stop, m.linux_stopper.as_str());
    put(&mut stop, pid.as_str());
    let plan = ExternalRuntimePlan {
        command,
        stop_command: Some(stop),
        cwd: or_text(parent, "."),
        port: request.port,
        ctx_size,
        log_file_name: or_text(request.backend.get_stated("log_file_name"), "runtime.log"),
        proxy_model_ref: name,
        protocol: ExternalServerProtocol::VllmWsl2OpenaiServer,
        client_endpoint: endpoint(request.host.as_str(), request.port),
        readiness_probe: RuntimeReadinessProbe::HttpHealth,
    };
    assert(pid@ == pid_file(m@, request.port));
    assert(plan@ =~= wsl_plan(
        request@,
        texts(args@),
        ctx_size,
        m@,
        model@,
        wsl@,
        opt_text(parent),
    ));
    Ok(plan)
}

/// The plan for a request, given the directory of the launcher and that of the logs.
pub fn plan_in_dirs(
    request: &ExternalRuntimeRequest,
    manifest: &Result<WslVllmLauncherManifest, String>,
    wsl: &str,
    parent: Option<String>,
    log_dir: &str,
) -> (r: Result<ExternalRuntimePlan, RuntimePlanError>)
    ensures
        plan_outcome(r) == planned(
            request@,
            manifest_read(*manifest),
            wsl@,
            opt_text(parent),
            log_dir@,
        ),
{
    if request.port == 0 {
        return Err(RuntimePlanError::InvalidPort);
    }
    let backend_id = match request.backend.get_stated("id") {
        Some(id) => id,
        None => {
            return Err(RuntimePlanError::MissingBackendField("id".to_owned()));
        },
    };
    let protocol = or_text(
        request.backend.get_stated("external_server_protocol"),
        "llama.cpp-server",
    );
    let launcher = match request.backend.get_stated("launcher_path") {
        Some(launcher) => launcher,
        None => {
            return Err(RuntimePlanError::MissingLauncher(backend_id));
        },
    };
    let base = match &request.launch_args {
        Some(args) => copy_texts(args),
        None => match request.backend.get_texts("default_args") {
            Some(args) => args,
            None => no_texts(),
        },
    };
    if let Err(error) = validate_launch_args(&base) {
        return Err(error);
    }
    let flags = ctx_size_flags(protocol.as_str());
    let args = match request.ctx_size {
        Some(size) => with_server_arg(&base, &flags, show(size as u64).as_str()),
        None => base,
    };
    let ctx_size = match extract_server_arg_value(&args, &flags) {
        Some(value) => parse_u32(value.as_str()),
        None => None,
    };
    assert(texts(args@) == server_args(request@));
    assert(ctx_size == effective_ctx_size(server_args(request@), ctx_flags(protocol@)));
    if text_eq(protocol.as_str(), "llama.cpp-server") {
        Ok(
            build_llama_cpp_plan(
                backend_id.as_str(),
                launcher.as_str(),
                request,
                &args,
                ctx_size,
                parent,
                log_dir,
            ),
        )
    } else if text_eq(protocol.as_str(), "vllm-openai-server") {
        Ok(build_vllm_plan(launcher.as_str(), request, &args, ctx_size, parent))
    } else if text_eq(protocol.as_str(), "vllm-wsl2-openai-server") {
        build_wsl_vllm_plan(
            backend_id.as_str(),
            launcher.as_str(),
            request,
            &args,
            ctx_size,
            manifest,
            wsl,
            parent,
        )
    } else {
        Err(RuntimePlanError::UnsupportedProtocol { backend: backend_id, protocol })
    }
}

/// The launcher file that has to be read before a plan can be made: the launcher, where
/// the backend speaks the WSL2 protocol.
pub fn launcher_file_to_read(backend: &Json) -> (r: Option<String>)
    ensures
        opt_text(r) == (if stated_protocol(backend@) == "vllm-wsl2-openai-server"@ {
            stated_launcher(backend@)
        } else {
            None
        }),
{
    let protocol = or_text(backend.get_stated("external_server_protocol"), "llama.cpp-server");
    if text_eq(protocol.as_str(), "vllm-wsl2-openai-server") {
        backend.get_stated("launcher_path")
    } else {
        None
    }
}

/// Whether `r` can be the plan for a request, or what stands against it.
pub open spec fn plan_meant(
    request: RequestView,
    manifest: Result<ManifestView, Seq<char>>,
    wsl: Seq<char>,
    r: Result<PlanView, PlanErrorView>,
) -> bool {
    exists|parent: Option<Seq<char>>, log_dir: Seq<char>|
        {
            &&& match stated_launcher(request.backend) {
                Some(launcher) => parent_of(launcher, parent),
                None => parent is None,
            }
            &&& joined_path(runtime_dir(request.backend), "logs"@, log_dir)
            &&& r == #[trigger] planned(request, manifest, wsl, parent, log_dir)
        }
}

/// The plan for a request. The launcher runs in its own directory, and a llama.cpp
/// server keeps its slots in the log directory of the runtime.
pub fn build_external_runtime_plan(
    request: &ExternalRuntimeRequest,
    manifest: &Result<WslVllmLauncherManifest, String>,
    wsl: &str,
) -> (r: Result<ExternalRuntimePlan, RuntimePlanError>)
    ensures
        plan_meant(request@, manifest_read(*manifest), wsl@, plan_outcome(r)),
{
    let parent = match request.backend.get_stated("launcher_path") {
        Some(launcher) => path_parent(launcher.as_str()),
        None => None,
    };
    let dir = or_text(request.backend.get_stated("runtime_dir"), ".");
    let log_dir = path_join(dir.as_str(), "logs");
    let ghost parent_view = opt_text(parent);
    let r = plan_in_dirs(request, manifest, wsl, parent, log_dir.as_str());
    assert(plan_outcome(r) == planned(
        request@,
        manifest_read(*manifest),
        wsl@,
        parent_view,
        log_dir@,
    ));
    r
}

/// A launcher behind a directory and a slash runs in that directory.
pub proof fn launchers_run_in_their_directory(
    request: RequestView,
    manifest: Result<ManifestView, Seq<char>>,
    wsl: Seq<char>,
    dir: Seq<char>,
    name: Seq<char>,
    r: Result<PlanView, PlanErrorView>,
)
    requires
        plan_meant(request, manifest, wsl, r),
        stated_launcher(request.backend) matches Some(launcher) && filed(launcher, dir, name),
        tidy_dir(dir),
        r is Ok,
    ensures
        r->Ok_0.cwd == dir,
{
}

/// A context size that is asked for is the one that the runtime gets.
pub proof fn requested_ctx_size_takes_effect(
    request: RequestView,
    manifest: Result<ManifestView, Seq<char>>,
    wsl: Seq<char>,
    parent: Option<Seq<char>>,
    log_dir: Seq<char>,
)
    requires
        request.ctx_size is Some,
        planned(request, manifest, wsl, parent, log_dir) is Ok,
    ensures
        planned(request, manifest, wsl, parent, log_dir)->Ok_0.ctx_size == request.ctx_size,
{
    let flags = ctx_flags(stated_protocol(request.backend));
    let size = request.ctx_size->0;
    reading_a_set_flag_gives_its_value(base_args(request), flags, decimal(size as nat));
    parsing_undoes_showing(size as nat, u32::MAX as nat);
}

/// A vLLM server always serves its model under a name, and requests are passed on
/// under that name.
pub proof fn vllm_models_are_served_under_a_name(args: Seq<Seq<char>>)
    ensures
        last_value(named_args(args), name_flags()) is Some,
        last_value(args, name_flags()) is None ==> last_value(named_args(args), name_flags())
            == Some("local"@),
{
    if last_value(args, name_flags()) is None {
        let named = named_args(args);
        assert(named[0] == "--served-model-name"@ && named[1] == "local"@);
        assert(name_flags()[0] == named[0]);
        assert(named.skip(2) =~= args);
    }
}

/// No plan is made from arguments of which one sets a managed flag.
pub proof fn managed_flags_are_refused(
    request: RequestView,
    manifest: Result<ManifestView, Seq<char>>,
    wsl: Seq<char>,
    parent: Option<Seq<char>>,
    log_dir: Seq<char>,
    i: int,
)
    requires
        planned(request, manifest, wsl, parent, log_dir) is Ok,
        0 <= i < base_args(request).len(),
    ensures
        !crate::runtime::args::managed_flag(
            crate::runtime::args::flag_of(base_args(request)[i]),
        ),
{
    lemma_none_managed(base_args(request), i);
}

proof fn lemma_none_managed(args: Seq<Seq<char>>, i: int)
    requires
        first_managed(args) is None,
        0 <= i < args.len(),
    ensures
        !crate::runtime::args::managed_flag(crate::runtime::args::flag_of(args[i])),
    decreases args.len(),
{
    if i > 0 {
        lemma_none_managed(args.drop_first(), i - 1);
    }
}

/// A reference that was translated for a usable launcher file stays as it is when it
/// is translated again.
pub proof fn translating_twice_changes_nothing(s: Seq<char>, automount_root: Seq<char>)
    requires
        absolute_linux_path(automount_root),
        translated(s, automount_root) is Ok,
    ensures
        translated(translated(s, automount_root)->Ok_0, automount_root) == translated(
            s,
            automount_root,
        ),
{
    if drive_path(s) {
        let root = right_trimmed(automount_root, CharClass::Only('/'));
        let t = mounted(s, automount_root);
        reveal_strlit("/");
        reveal_strlit("\\\\");
        crate::text::trim::lemma_right_trimmed(automount_root, CharClass::Only('/'));
        assert(t[0] == '/');
        assert(!drive_path(t));
        assert(!starts_with(t, "\\\\"@)) by {
            if starts_with(t, "\\\\"@) {
                assert("\\\\"@[0] == '\\');
                assert(t.subrange(0, 2)[0] == t[0]);
            }
        }
    }
}

/// A process that is stopped through its stop command is found by the same file that it
/// was started with.
pub proof fn stop_command_names_the_started_process(
    backend_id: Seq<char>,
    path: Seq<char>,
    request: RequestView,
    args: Seq<Seq<char>>,
    ctx_size: Option<u32>,
    manifest: Result<ManifestView, Seq<char>>,
    wsl: Seq<char>,
    parent: Option<Seq<char>>,
)
    requires
        wsl_outcome(backend_id, path, request, args, ctx_size, manifest, wsl, parent) is Ok,
    ensures
        ({
            let plan = wsl_outcome(
                backend_id,
                path,
                request,
                args,
                ctx_size,
                manifest,
                wsl,
                parent,
            )->Ok_0;
            plan.stop_command is Some && plan.stop_command->0[5] == plan.command[5]
                && plan.stop_command->0[2] == plan.command[2]
        }),
{
}

} // verus!
