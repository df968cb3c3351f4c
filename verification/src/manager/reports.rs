//! What is reported of the gateway's runtimes.
use vstd::prelude::*;

use crate::json::{
    no_fields, number_or_null, text_array, text_or_null, views, Fields, Json, JsonView,
};
use crate::manager::loaded::{
    find_key, lemma_key_place, runtime_views, under_key, LoadedRustRuntime, RuntimeRouteState,
    RuntimeView,
};
use crate::manager::state::{reaped, ManagerView, ProcessPoll, RustRuntimeManager};
use crate::resources::budget::budget_payload;
use crate::resources::ledger::{ledger_payload, snapshot_of};
use crate::runtime::plan::ExternalServerProtocol;
use crate::text::chars::text_eq;
use crate::text::compose::{copy_opt, opt_eq, opt_text, texts, texts_eq};

verus! {

pub open spec fn openai_compatible(p: ExternalServerProtocol) -> bool {
    p != ExternalServerProtocol::VlaCppZmqServer
}

/// What is reported of a loaded runtime.
pub open spec fn runtime_payload(r: RuntimeView) -> JsonView {
    JsonView::Object(
        no_fields()
            .push(("id"@, JsonView::Text(r.model_key)))
            .push(("owner_admin_id"@, text_or_null(r.owner_admin_id)))
            .push(("backend"@, JsonView::Text(r.backend_id)))
            .push(("model"@, JsonView::Text(r.model_key)))
            .push(("model_path"@, JsonView::Text(r.model)))
            .push(("public_model_id"@, text_or_null(r.public_model_id)))
            .push(("mmproj"@, text_or_null(r.mmproj)))
            .push(("ctx_size"@, number_or_null(r.ctx_size)))
            .push(("runtime_mode"@, JsonView::Text("external_server"@)))
            .push(("backend_pid"@, JsonView::Unsigned(r.process.info.pid as nat)))
            .push(("backend_port"@, JsonView::Unsigned(r.process.info.port as nat)))
            .push(("generation"@, JsonView::Unsigned(r.generation as nat)))
            .push(("route_state"@, JsonView::Text(r.route_state.name())))
            .push(("allocation_id"@, JsonView::Unsigned(r.allocation_id.value as nat)))
            .push(("resource_budget"@, budget_payload(r.resource_budget)))
            .push(("launch_args"@, text_array(r.launch_args)))
            .push(("cuda_visible_devices"@, text_or_null(r.cuda_visible_devices)))
            .push(("warning"@, text_or_null(r.cuda_warning)))
            .push(("launch_command"@, text_array(r.process.info.command)))
            .push(("proxy_model"@, text_or_null(r.proxy_model_ref)))
            .push(("external_server_protocol"@, JsonView::Text(r.external_server_protocol.name())))
            .push(("client_endpoint"@, JsonView::Text(r.client_endpoint)))
            .push(("openai_compatible"@, JsonView::Bool(openai_compatible(r.external_server_protocol))))
            .push(("backend_log"@, JsonView::Text(r.process.info.log_path))),
    )
}

/// What is reported of a loaded runtime.
pub fn loaded_runtime_payload(r: &LoadedRustRuntime) -> (json: Json)
    ensures
        json@ == runtime_payload(r@),
{
    let mut fields = Fields::new();
    fields.text("id", r.model_key.as_str());
    fields.opt_text("owner_admin_id", &r.owner_admin_id);
    fields.text("backend", r.backend_id.as_str());
    fields.text("model", r.model_key.as_str());
    fields.text("model_path", r.model.as_str());
    fields.opt_text("public_model_id", &r.public_model_id);
    fields.opt_text("mmproj", &r.mmproj);
    fields.put("ctx_size", Json::opt_number(r.ctx_size));
    fields.text("runtime_mode", "external_server");
    fields.number("backend_pid", r.process.info.pid as u64);
    fields.number("backend_port", r.process.info.port as u64);
    fields.number("generation", r.generation);
    fields.text("route_state", r.route_state.as_str());
    fields.number("allocation_id", r.allocation_id.get());
    fields.put("resource_budget", r.resource_budget.payload());
    fields.texts("launch_args", &r.launch_args);
    fields.opt_text("cuda_visible_devices", &r.cuda_visible_devices);
    fields.opt_text("warning", &r.cuda_warning);
    fields.texts("launch_command", &r.process.info.command);
    fields.opt_text("proxy_model", &r.proxy_model_ref);
    fields.text("external_server_protocol", r.external_server_protocol.as_str());
    fields.text("client_endpoint", r.client_endpoint.as_str());
    fields.flag("openai_compatible", r.external_server_protocol.is_openai_compatible());
    fields.text("backend_log", r.process.info.log_path.as_str());
    fields.done()
}

pub open spec fn load_fields(r: RuntimeView, already_loaded: bool) -> Seq<(Seq<char>, JsonView)> {
    no_fields()
            .push(("ok"@, JsonView::Bool(true)))
            .push(("already_loaded"@, JsonView::Bool(already_loaded)))
            .push(("requires_reload"@, JsonView::Bool(false)))
            .push(("model"@, JsonView::Text(r.model_key)))
            .push(("owner_admin_id"@, text_or_null(r.owner_admin_id)))
            .push(("selected_backend"@, JsonView::Text(r.backend_id)))
            .push(("selected_model"@, JsonView::Text(r.model)))
            .push(("selected_public_model_id"@, text_or_null(r.public_model_id)))
            .push(("selected_mmproj"@, text_or_null(r.mmproj)))
            .push(("selected_ctx_size"@, number_or_null(r.ctx_size)))
            .push(("backend_pid"@, JsonView::Unsigned(r.process.info.pid as nat)))
            .push(("backend_port"@, JsonView::Unsigned(r.process.info.port as nat)))
            .push(("generation"@, JsonView::Unsigned(r.generation as nat)))
            .push(("route_state"@, JsonView::Text(r.route_state.name())))
            .push(("allocation_id"@, JsonView::Unsigned(r.allocation_id.value as nat)))
            .push(("resource_budget"@, budget_payload(r.resource_budget)))
            .push(("launch_command"@, text_array(r.process.info.command)))
            .push(("log_path"@, JsonView::Text(r.process.info.log_path)))
            .push(("external_server_protocol"@, JsonView::Text(r.external_server_protocol.name())))
            .push(("client_endpoint"@, JsonView::Text(r.client_endpoint)))
            .push(("openai_compatible"@, JsonView::Bool(openai_compatible(r.external_server_protocol))))
}

/// What is answered when a model is loaded: its devices and its warning only where it
/// has any.
pub open spec fn load_payload(r: RuntimeView, already_loaded: bool) -> JsonView {
    let start = load_fields(r, already_loaded);
    let devices = match r.cuda_visible_devices {
        Some(d) => start.push(("cuda_visible_devices"@, JsonView::Text(d))),
        None => start,
    };
    JsonView::Object(
        match r.cuda_warning {
            Some(w) => devices.push(("warning"@, JsonView::Text(w))),
            None => devices,
        },
    )
}

/// What is answered when a model is loaded.
pub fn model_load_response(r: &LoadedRustRuntime, already_loaded: bool) -> (json: Json)
    ensures
        json@ == load_payload(r@, already_loaded),
{
    let mut fields = Fields::new();
    fields.flag("ok", true);
    fields.flag("already_loaded", already_loaded);
    fields.flag("requires_reload", false);
    fields.text("model", r.model_key.as_str());
    fields.opt_text("owner_admin_id", &r.owner_admin_id);
    fields.text("selected_backend", r.backend_id.as_str());
    fields.text("selected_model", r.model.as_str());
    fields.opt_text("selected_public_model_id", &r.public_model_id);
    fields.opt_text("selected_mmproj", &r.mmproj);
    fields.put("selected_ctx_size", Json::opt_number(r.ctx_size));
    fields.number("backend_pid", r.process.info.pid as u64);
    fields.number("backend_port", r.process.info.port as u64);
    fields.number("generation", r.generation);
    fields.text("route_state", r.route_state.as_str());
    fields.number("allocation_id", r.allocation_id.get());
    fields.put("resource_budget", r.resource_budget.payload());
    fields.texts("launch_command", &r.process.info.command);
    fields.text("log_path", r.process.info.log_path.as_str());
    fields.text("external_server_protocol", r.external_server_protocol.as_str());
    fields.text("client_endpoint", r.client_endpoint.as_str());
    fields.flag("openai_compatible", r.external_server_protocol.is_openai_compatible());
    if let Some(devices) = &r.cuda_visible_devices {
        fields.text("cuda_visible_devices", devices.as_str());
    }
    if let Some(warning) = &r.cuda_warning {
        fields.text("warning", warning.as_str());
    }
    fields.done()
}

/// The settings that a model is asked to be loaded with.
pub struct RequestedRuntimeConfig {
    pub backend_id: String,
    pub model_key: String,
    pub model_path: String,
    pub public_model_id: Option<String>,
    pub mmproj: Option<String>,
    pub ctx_size: Option<u32>,
    pub launch_args: Vec<String>,
}

pub struct ConfigView {
    pub backend_id: Seq<char>,
    pub model_key: Seq<char>,
    pub model_path: Seq<char>,
    pub public_model_id: Option<Seq<char>>,
    pub mmproj: Option<Seq<char>>,
    pub ctx_size: Option<u32>,
    pub launch_args: Seq<Seq<char>>,
}

impl View for RequestedRuntimeConfig {
    type V = ConfigView;

    open spec fn view(&self) -> ConfigView {
        ConfigView {
            backend_id: self.backend_id@,
            model_key: self.model_key@,
            model_path: self.model_path@,
            public_model_id: opt_text(self.public_model_id),
            mmproj: opt_text(self.mmproj),
            ctx_size: self.ctx_size,
            launch_args: texts(self.launch_args@),
        }
    }
}

/// Whether a runtime runs with the settings that are asked for.
pub open spec fn same_configuration(r: RuntimeView, c: ConfigView) -> bool {
    &&& r.backend_id == c.backend_id
    &&& r.model == c.model_path
    &&& r.mmproj == c.mmproj
    &&& r.ctx_size == c.ctx_size
    &&& r.launch_args == c.launch_args
}

/// Whether a runtime runs with the settings that are asked for.
pub fn same_load_configuration(loaded: &LoadedRustRuntime, c: &RequestedRuntimeConfig) -> (r: bool)
    ensures
        r == same_configuration(loaded@, c@),
{
    text_eq(loaded.backend_id.as_str(), c.backend_id.as_str()) && text_eq(
        loaded.model.as_str(),
        c.model_path.as_str(),
    ) && opt_eq(&loaded.mmproj, &c.mmproj) && loaded.ctx_size == c.ctx_size && texts_eq(
        &loaded.launch_args,
        &c.launch_args,
    )
}

pub open spec fn current_settings(r: RuntimeView) -> JsonView {
    JsonView::Object(
        no_fields()
            .push(("backend"@, JsonView::Text(r.backend_id)))
            .push(("model"@, JsonView::Text(r.model_key)))
            .push(("model_path"@, JsonView::Text(r.model)))
            .push(("public_model_id"@, text_or_null(r.public_model_id)))
            .push(("mmproj"@, text_or_null(r.mmproj)))
            .push(("ctx_size"@, number_or_null(r.ctx_size)))
            .push(("launch_args"@, text_array(r.launch_args))),
    )
}

pub open spec fn requested_settings(c: ConfigView) -> JsonView {
    JsonView::Object(
        no_fields()
            .push(("backend"@, JsonView::Text(c.backend_id)))
            .push(("model"@, JsonView::Text(c.model_key)))
            .push(("model_path"@, JsonView::Text(c.model_path)))
            .push(("public_model_id"@, text_or_null(c.public_model_id)))
            .push(("mmproj"@, text_or_null(c.mmproj)))
            .push(("ctx_size"@, number_or_null(c.ctx_size)))
            .push(("launch_args"@, text_array(c.launch_args))),
    )
}

/// What is answered when a model is loaded with other settings than those asked for.
pub open spec fn reload_payload(r: RuntimeView, c: ConfigView) -> JsonView {
    JsonView::Object(
        no_fields()
            .push(("ok"@, JsonView::Bool(false)))
            .push(("already_loaded"@, JsonView::Bool(true)))
            .push(("requires_reload"@, JsonView::Bool(true)))
            .push(
                (
                    "error"@,
                    JsonView::Object(
                        no_fields()
                            .push(("code"@, JsonView::Text("model_reload_required"@)))
                            .push(
                                (
                                    "message"@,
                                    JsonView::Text(
                                        "model '"@ + c.model_key
                                            + "' is already loaded with different runtime settings; unload it before selecting the new configuration"@,
                                    ),
                                ),
                            ),
                    ),
                ),
            )
            .push(("current"@, current_settings(r)))
            .push(("requested"@, requested_settings(c))),
    )
}

fn describe_current(r: &LoadedRustRuntime) -> (json: Json)
    ensures
        json@ == current_settings(r@),
{
    let mut fields = Fields::new();
    fields.text("backend", r.backend_id.as_str());
    fields.text("model", r.model_key.as_str());
    fields.text("model_path", r.model.as_str());
    fields.opt_text("public_model_id", &r.public_model_id);
    fields.opt_text("mmproj", &r.mmproj);
    fields.put("ctx_size", Json::opt_number(r.ctx_size));
    fields.texts("launch_args", &r.launch_args);
    fields.done()
}

fn describe_requested(c: &RequestedRuntimeConfig) -> (json: Json)
    ensures
        json@ == requested_settings(c@),
{
    let mut fields = Fields::new();
    fields.text("backend", c.backend_id.as_str());
    fields.text("model", c.model_key.as_str());
    fields.text("model_path", c.model_path.as_str());
    fields.opt_text("public_model_id", &c.public_model_id);
    fields.opt_text("mmproj", &c.mmproj);
    fields.put("ctx_size", Json::opt_number(c.ctx_size));
    fields.texts("launch_args", &c.launch_args);
    fields.done()
}

/// What is answered when a model is loaded with other settings than those asked for.
pub fn reload_required_response(r: &LoadedRustRuntime, c: &RequestedRuntimeConfig) -> (json: Json)
    ensures
        json@ == reload_payload(r@, c@),
{
    let message = "model '".to_owned().concat(c.model_key.as_str()).concat(
        "' is already loaded with different runtime settings; unload it before selecting the new configuration",
    );
    let mut error = Fields::new();
    error.text("code", "model_reload_required");
    error.text("message", message.as_str());
    let mut fields = Fields::new();
    fields.flag("ok", false);
    fields.flag("already_loaded", true);
    fields.flag("requires_reload", true);
    fields.put("error", error.done());
    fields.put("current", describe_current(r));
    fields.put("requested", describe_requested(c));
    fields.done()
}

pub open spec fn runtime_payloads(s: Seq<RuntimeView>) -> JsonView {
    JsonView::Array(Seq::new(s.len(), |i: int| runtime_payload(s[i])))
}

pub open spec fn model_list_payload(s: Seq<RuntimeView>) -> JsonView {
    JsonView::Object(
        no_fields()
            .push(("object"@, JsonView::Text("list"@)))
            .push(("data"@, runtime_payloads(s))),
    )
}

fn describe_all(v: &Vec<LoadedRustRuntime>) -> (json: Json)
    ensures
        json@ == runtime_payloads(runtime_views(v@)),
{
    let mut items: Vec<Json> = Vec::new();
    let mut i: usize = 0;
    while i < v.len()
        invariant
            i <= v@.len(),
            items@.len() == i,
            forall|j: int| 0 <= j < i ==> #[trigger] items@[j]@ == runtime_payload(v@[j]@),
        decreases v@.len() - i,
    {
        items.push(loaded_runtime_payload(&v[i]));
        i += 1;
    }
    assert(views(items@) =~= Seq::new(
        runtime_views(v@).len(),
        |i: int| runtime_payload(runtime_views(v@)[i]),
    ));
    Json::array(items)
}

pub open spec fn runtime_section(r: RuntimeView) -> JsonView {
    JsonView::Object(
        no_fields()
            .push(("mode"@, JsonView::Text("external_server"@)))
            .push(("host"@, JsonView::Text("127.0.0.1"@)))
            .push(("port"@, JsonView::Unsigned(r.process.info.port as nat)))
            .push(("pid"@, JsonView::Unsigned(r.process.info.pid as nat)))
            .push(("cuda_visible_devices"@, text_or_null(r.cuda_visible_devices)))
            .push(("launch_command"@, text_array(r.process.info.command)))
            .push(("log_path"@, JsonView::Text(r.process.info.log_path)))
            .push(("proxy_model_ref"@, text_or_null(r.proxy_model_ref)))
            .push(("external_server_protocol"@, JsonView::Text(r.external_server_protocol.name())))
            .push(("client_endpoint"@, JsonView::Text(r.client_endpoint)))
            .push(("openai_compatible"@, JsonView::Bool(openai_compatible(r.external_server_protocol)))),
    )
}

fn describe_process(r: &LoadedRustRuntime) -> (json: Json)
    ensures
        json@ == runtime_section(r@),
{
    let mut fields = Fields::new();
    fields.text("mode", "external_server");
    fields.text("host", "127.0.0.1");
    fields.number("port", r.process.info.port as u64);
    fields.number("pid", r.process.info.pid as u64);
    fields.opt_text("cuda_visible_devices", &r.cuda_visible_devices);
    fields.texts("launch_command", &r.process.info.command);
    fields.text("log_path", r.process.info.log_path.as_str());
    fields.opt_text("proxy_model_ref", &r.proxy_model_ref);
    fields.text("external_server_protocol", r.external_server_protocol.as_str());
    fields.text("client_endpoint", r.client_endpoint.as_str());
    fields.flag("openai_compatible", r.external_server_protocol.is_openai_compatible());
    fields.done()
}

/// What is reported of the default runtime.
pub open spec fn active_fields(r: RuntimeView, loaded_models: JsonView) -> Seq<
    (Seq<char>, JsonView),
> {
    no_fields()
            .push(("backend"@, JsonView::Text(r.backend_id)))
            .push(("backend_ready"@, JsonView::Bool(true)))
            .push(("model"@, JsonView::Text(r.model_key)))
            .push(("model_path"@, JsonView::Text(r.model)))
            .push(("public_model_id"@, text_or_null(r.public_model_id)))
            .push(("owner_admin_id"@, text_or_null(r.owner_admin_id)))
            .push(("mmproj"@, text_or_null(r.mmproj)))
            .push(("ctx_size"@, number_or_null(r.ctx_size)))
            .push(("request_defaults"@, JsonView::Object(no_fields())))
            .push(("runtime_mode"@, JsonView::Text("external_server"@)))
            .push(("backend_pid"@, JsonView::Unsigned(r.process.info.pid as nat)))
            .push(("backend_port"@, JsonView::Unsigned(r.process.info.port as nat)))
            .push(("generation"@, JsonView::Unsigned(r.generation as nat)))
            .push(("route_state"@, JsonView::Text(r.route_state.name())))
            .push(("allocation_id"@, JsonView::Unsigned(r.allocation_id.value as nat)))
            .push(("resource_budget"@, budget_payload(r.resource_budget)))
            .push(("launch_args"@, text_array(r.launch_args)))
            .push(("cuda_visible_devices"@, text_or_null(r.cuda_visible_devices)))
            .push(("warning"@, text_or_null(r.cuda_warning)))
            .push(("launch_command"@, text_array(r.process.info.command)))
            .push(("proxy_model"@, text_or_null(r.proxy_model_ref)))
            .push(("external_server_protocol"@, JsonView::Text(r.external_server_protocol.name())))
            .push(("client_endpoint"@, JsonView::Text(r.client_endpoint)))
            .push(("openai_compatible"@, JsonView::Bool(openai_compatible(r.external_server_protocol))))
            .push(("backend_log"@, JsonView::Text(r.process.info.log_path)))
            .push(("effective_parameters"@, JsonView::Object(no_fields())))
            .push(("runtime"@, runtime_section(r)))
            .push(("log_path"@, JsonView::Text(r.process.info.log_path)))
            .push(("loaded_models"@, loaded_models))
            .push(("default_model"@, JsonView::Text(r.model_key)))
}

/// What is reported where there is no default runtime.
pub open spec fn idle_fields(
    selected_backend: Option<Seq<char>>,
    loaded_models: JsonView,
) -> Seq<(Seq<char>, JsonView)> {
    no_fields()
            .push(("backend"@, text_or_null(selected_backend)))
            .push(("backend_ready"@, JsonView::Bool(false)))
            .push(("model"@, JsonView::Null))
            .push(("public_model_id"@, JsonView::Null))
            .push(("mmproj"@, JsonView::Null))
            .push(("ctx_size"@, JsonView::Null))
            .push(("request_defaults"@, JsonView::Object(no_fields())))
            .push(("runtime_mode"@, JsonView::Null))
            .push(("backend_pid"@, JsonView::Null))
            .push(("backend_port"@, JsonView::Null))
            .push(("launch_args"@, JsonView::Array(Seq::empty())))
            .push(("cuda_visible_devices"@, JsonView::Null))
            .push(("warning"@, JsonView::Null))
            .push(("launch_command"@, JsonView::Array(Seq::empty())))
            .push(("proxy_model"@, JsonView::Null))
            .push(("external_server_protocol"@, JsonView::Null))
            .push(("client_endpoint"@, JsonView::Null))
            .push(("openai_compatible"@, JsonView::Bool(true)))
            .push(("backend_log"@, JsonView::Null))
            .push(("effective_parameters"@, JsonView::Object(no_fields())))
            .push(("runtime"@, JsonView::Null))
            .push(("loaded_models"@, loaded_models))
            .push(("default_model"@, JsonView::Null))
}

fn describe_active(r: &LoadedRustRuntime, loaded_models: Json) -> (fields: Fields)
    ensures
        fields@ == active_fields(r@, loaded_models@),
{
    let mut fields = Fields::new();
    fields.text("backend", r.backend_id.as_str());
    fields.flag("backend_ready", true);
    fields.text("model", r.model_key.as_str());
    fields.text("model_path", r.model.as_str());
    fields.opt_text("public_model_id", &r.public_model_id);
    fields.opt_text("owner_admin_id", &r.owner_admin_id);
    fields.opt_text("mmproj", &r.mmproj);
    fields.put("ctx_size", Json::opt_number(r.ctx_size));
    fields.put("request_defaults", Json::empty_object());
    fields.text("runtime_mode", "external_server");
    fields.number("backend_pid", r.process.info.pid as u64);
    fields.number("backend_port", r.process.info.port as u64);
    fields.number("generation", r.generation);
    fields.text("route_state", r.route_state.as_str());
    fields.number("allocation_id", r.allocation_id.get());
    fields.put("resource_budget", r.resource_budget.payload());
    fields.texts("launch_args", &r.launch_args);
    fields.opt_text("cuda_visible_devices", &r.cuda_visible_devices);
    fields.opt_text("warning", &r.cuda_warning);
    fields.texts("launch_command", &r.process.info.command);
    fields.opt_text("proxy_model", &r.proxy_model_ref);
    fields.text("external_server_protocol", r.external_server_protocol.as_str());
    fields.text("client_endpoint", r.client_endpoint.as_str());
    fields.flag("openai_compatible", r.external_server_protocol.is_openai_compatible());
    fields.text("backend_log", r.process.info.log_path.as_str());
    fields.put("effective_parameters", Json::empty_object());
    fields.put("runtime", describe_process(r));
    fields.text("log_path", r.process.info.log_path.as_str());
    fields.put("loaded_models", loaded_models);
    fields.text("default_model", r.model_key.as_str());
    fields
}

fn describe_idle(selected_backend: &Option<String>, loaded_models: Json) -> (fields: Fields)
    ensures
        fields@ == idle_fields(opt_text(*selected_backend), loaded_models@),
{
    let mut fields = Fields::new();
    fields.opt_text("backend", selected_backend);
    fields.flag("backend_ready", false);
    fields.null("model");
    fields.null("public_model_id");
    fields.null("mmproj");
    fields.null("ctx_size");
    fields.put("request_defaults", Json::empty_object());
    fields.null("runtime_mode");
    fields.null("backend_pid");
    fields.null("backend_port");
    fields.put("launch_args", Json::empty_array());
    fields.null("cuda_visible_devices");
    fields.null("warning");
    fields.put("launch_command", Json::empty_array());
    fields.null("proxy_model");
    fields.null("external_server_protocol");
    fields.null("client_endpoint");
    fields.flag("openai_compatible", true);
    fields.null("backend_log");
    fields.put("effective_parameters", Json::empty_object());
    fields.null("runtime");
    fields.put("loaded_models", loaded_models);
    fields.null("default_model");
    fields
}

/// The model that was selected last, as it was saved.
#[derive(Debug)]
pub struct SelectedModel {
    pub model: String,
    pub mmproj: Option<String>,
    pub ctx_size: Option<u32>,
    /// What requests are to state where they do not say otherwise.
    pub request_defaults: Json,
}

/// What was saved of the last session.
#[derive(Debug)]
pub struct LocalState {
    pub selected_backend: Option<String>,
    pub selected_model: Option<SelectedModel>,
}

pub struct SelectedView {
    pub model: Seq<char>,
    pub mmproj: Option<Seq<char>>,
    pub ctx_size: Option<u32>,
    pub request_defaults: JsonView,
}

pub struct LocalStateView {
    pub selected_backend: Option<Seq<char>>,
    pub selected_model: Option<SelectedView>,
}

impl View for LocalState {
    type V = LocalStateView;

    open spec fn view(&self) -> LocalStateView {
        LocalStateView {
            selected_backend: opt_text(self.selected_backend),
            selected_model: match self.selected_model {
                Some(s) => Some(
                    SelectedView {
                        model: s.model@,
                        mmproj: opt_text(s.mmproj),
                        ctx_size: s.ctx_size,
                        request_defaults: s.request_defaults@,
                    },
                ),
                None => None,
            },
        }
    }
}

/// Whether a runtime is the one that was saved.
pub open spec fn restores(
    r: RuntimeView,
    backend: Option<Seq<char>>,
    selected: SelectedView,
) -> bool {
    &&& r.route_state == RuntimeRouteState::Ready
    &&& backend is None || r.backend_id == backend->0
    &&& r.model == selected.model
    &&& r.mmproj == selected.mmproj
    &&& r.ctx_size == selected.ctx_size
}

/// Whether what was saved is loaded.
pub open spec fn restored(
    s: Seq<RuntimeView>,
    backend: Option<Seq<char>>,
    selected: SelectedView,
) -> bool {
    exists|i: int| 0 <= i < s.len() && restores(#[trigger] s[i], backend, selected)
}

/// The report with what is said of the last session.
pub open spec fn with_restore_state(
    fields: Seq<(Seq<char>, JsonView)>,
    state: LocalStateView,
    s: Seq<RuntimeView>,
) -> Seq<(Seq<char>, JsonView)> {
    match state.selected_model {
        None => fields
            .push(("restore_selection"@, JsonView::Null))
            .push(("restore_status"@, JsonView::Text("not_configured"@)))
            .push(("restore_completed"@, JsonView::Bool(false))),
        Some(selected) => {
            let done = restored(s, state.selected_backend, selected);
            fields
                .push(
                    (
                        "restore_selection"@,
                        JsonView::Object(
                            no_fields()
                                .push(("backend"@, text_or_null(state.selected_backend)))
                                .push(("model"@, JsonView::Text(selected.model)))
                                .push(("mmproj"@, text_or_null(selected.mmproj)))
                                .push(("ctx_size"@, number_or_null(selected.ctx_size))),
                        ),
                    ),
                )
                .push(
                    (
                        "restore_status"@,
                        JsonView::Text(
                            if done {
                                "loaded"@
                            } else {
                                "pending"@
                            },
                        ),
                    ),
                )
                .push(("restore_completed"@, JsonView::Bool(done)))
        },
    }
}

/// Adds to a report what is said of the last session.
pub fn annotate_restore_state(
    fields: &mut Fields,
    state: &LocalState,
    loaded: &Vec<LoadedRustRuntime>,
)
    ensures
        final(fields)@ == with_restore_state(old(fields)@, state@, runtime_views(loaded@)),
{
    match &state.selected_model {
        None => {
            fields.null("restore_selection");
            fields.text("restore_status", "not_configured");
            fields.flag("restore_completed", false);
        },
        Some(selected) => {
            let ghost view = state@.selected_model->0;
            let ghost backend = state@.selected_backend;
            let ghost all = runtime_views(loaded@);
            let mut done = false;
            let mut i: usize = 0;
            while i < loaded.len()
                invariant
                    i <= loaded@.len(),
                    all == runtime_views(loaded@),
                    backend == opt_text(state.selected_backend),
                    view == (SelectedView {
                        model: selected.model@,
                        mmproj: opt_text(selected.mmproj),
                        ctx_size: selected.ctx_size,
                        request_defaults: selected.request_defaults@,
                    }),
                    done == exists|j: int|
                        0 <= j < i && restores(#[trigger] all[j], backend, view),
                decreases loaded@.len() - i,
            {
                let runtime = &loaded[i];
                assert(all[i as int] == runtime@);
                let same_backend = match &state.selected_backend {
                    Some(id) => text_eq(runtime.backend_id.as_str(), id.as_str()),
                    None => true,
                };
                let ghost was = done;
                let this = runtime.route_state == RuntimeRouteState::Ready && same_backend
                    && text_eq(runtime.model.as_str(), selected.model.as_str()) && opt_eq(
                    &runtime.mmproj,
                    &selected.mmproj,
                ) && runtime.ctx_size == selected.ctx_size;
                assert(this == restores(all[i as int], backend, view));
                if this {
                    done = true;
                }
                i += 1;
            }
            let mut selection = Fields::new();
            selection.opt_text("backend", &state.selected_backend);
            selection.text("model", selected.model.as_str());
            selection.opt_text("mmproj", &selected.mmproj);
            selection.put("ctx_size", Json::opt_number(selected.ctx_size));
            fields.put("restore_selection", selection.done());
            fields.text(
                "restore_status",
                if done {
                    "loaded"
                } else {
                    "pending"
                },
            );
            fields.flag("restore_completed", done);
        },
    }
}

pub open spec fn ledger_section(m: ManagerView) -> JsonView {
    match m.ledger {
        Some(l) => ledger_payload(snapshot_of(l)),
        None => JsonView::Null,
    }
}

/// The default runtime.
pub open spec fn default_runtime(m: ManagerView) -> Option<RuntimeView> {
    match m.default_model_key {
        Some(key) => under_key(m.loaded, key),
        None => None,
    }
}

/// The state of the gateway, as it is reported.
pub open spec fn state_payload(m: ManagerView, saved: LocalStateView) -> JsonView {
    let start = match default_runtime(m) {
        Some(r) => active_fields(r, runtime_payloads(m.loaded)),
        None => idle_fields(
            match m.selected_backend {
                Some(b) => Some(b),
                None => saved.selected_backend,
            },
            runtime_payloads(m.loaded),
        ),
    };
    JsonView::Object(
        with_restore_state(start, saved, m.loaded).push(("resource_ledger"@, ledger_section(m))),
    )
}

/// What is told of a runtime that can be sent requests.
#[derive(Debug)]
pub struct LoadedRuntimeSummary {
    pub id: String,
    pub owner_admin_id: Option<String>,
    pub backend_pid: u32,
}

pub struct SummaryView {
    pub id: Seq<char>,
    pub owner_admin_id: Option<Seq<char>>,
    pub backend_pid: u32,
}

pub open spec fn summary_views(v: Seq<LoadedRuntimeSummary>) -> Seq<SummaryView> {
    Seq::new(
        v.len(),
        |i: int|
            SummaryView {
                id: v[i].id@,
                owner_admin_id: opt_text(v[i].owner_admin_id),
                backend_pid: v[i].backend_pid,
            },
    )
}

/// What is told of the runtimes that can be sent requests.
pub open spec fn summaries(s: Seq<RuntimeView>) -> Seq<SummaryView>
    decreases s.len(),
{
    if s.len() == 0 {
        seq![]
    } else if s.last().route_state == RuntimeRouteState::Ready {
        summaries(s.drop_last()).push(
            SummaryView {
                id: s.last().model_key,
                owner_admin_id: s.last().owner_admin_id,
                backend_pid: s.last().process.info.pid,
            },
        )
    } else {
        summaries(s.drop_last())
    }
}

impl RustRuntimeManager {
    fn describe_ledger(&self) -> (json: Json)
        requires
            self@.wf(),
        ensures
            json@ == ledger_section(self@),
    {
        match &self.resource_ledger {
            Some(ledger) => ledger.snapshot().payload(),
            None => Json::Null,
        }
    }

    /// The loaded models, as they are listed, after a look at all runtimes.
    pub fn loaded_models_payload(&mut self, polls: &Vec<ProcessPoll>) -> (json: Json)
        requires
            old(self)@.wf(),
        ensures
            final(self)@.wf(),
            final(self)@ == reaped(old(self)@, polls@),
            json@ == model_list_payload(final(self)@.loaded),
    {
        self.reap_exited_runtimes(polls);
        let mut fields = Fields::new();
        fields.text("object", "list");
        fields.put("data", describe_all(&self.loaded));
        fields.done()
    }

    /// What is told of the runtimes that can be sent requests, after a look at all.
    pub fn loaded_runtime_summaries(&mut self, polls: &Vec<ProcessPoll>) -> (v: Vec<
        LoadedRuntimeSummary,
    >)
        requires
            old(self)@.wf(),
        ensures
            final(self)@.wf(),
            final(self)@ == reaped(old(self)@, polls@),
            summary_views(v@) == summaries(final(self)@.loaded),
    {
        self.reap_exited_runtimes(polls);
        let ghost all = self@.loaded;
        let mut v: Vec<LoadedRuntimeSummary> = Vec::new();
        let mut i: usize = 0;
        assert(summary_views(v@) =~= summaries(all.take(0)));
        while i < self.loaded.len()
            invariant
                i <= self.loaded@.len(),
                all == runtime_views(self.loaded@),
                summary_views(v@) == summaries(all.take(i as int)),
            decreases self.loaded@.len() - i,
        {
            assert(all.take(i as int + 1).drop_last() =~= all.take(i as int));
            assert(all.take(i as int + 1).last() == all[i as int]);
            let runtime = &self.loaded[i];
            assert(all[i as int] == runtime@);
            if runtime.route_state == RuntimeRouteState::Ready {
                let ghost was = summary_views(v@);
                v.push(
                    LoadedRuntimeSummary {
                        id: runtime.model_key.as_str().to_owned(),
                        owner_admin_id: copy_opt(&runtime.owner_admin_id),
                        backend_pid: runtime.process.info.pid,
                    },
                );
                assert(summary_views(v@) =~= summaries(all.take(i as int + 1)));
            }
            i += 1;
        }
        assert(all.take(i as int) =~= all);
        v
    }

    /// The state of the gateway, as it is reported, after a look at all runtimes;
    /// `saved` is what was saved of the last session.
    pub fn snapshot(&mut self, polls: &Vec<ProcessPoll>, saved: &LocalState) -> (json: Json)
        requires
            old(self)@.wf(),
        ensures
            final(self)@.wf(),
            final(self)@ == reaped(old(self)@, polls@),
            json@ == state_payload(final(self)@, saved@),
    {
        self.reap_exited_runtimes(polls);
        let loaded_models = describe_all(&self.loaded);
        let place = match &self.default_model_key {
            Some(key) => {
                proof {
                    lemma_key_place(self@.loaded, key@);
                }
                find_key(&self.loaded, key.as_str())
            },
            None => None,
        };
        let mut fields = match place {
            Some(i) => describe_active(&self.loaded[i], loaded_models),
            None => {
                let backend = match &self.selected_backend {
                    Some(b) => Some(b.as_str().to_owned()),
                    None => copy_opt(&saved.selected_backend),
                };
                describe_idle(&backend, loaded_models)
            },
        };
        annotate_restore_state(&mut fields, saved, &self.loaded);
        fields.put("resource_ledger", self.describe_ledger());
        fields.done()
    }
}

} // verus!
