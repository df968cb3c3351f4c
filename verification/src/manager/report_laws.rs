//! What is reported of runtimes, told from the runtimes.
use vstd::prelude::*;

use crate::json::{field, lemma_field_at, member, no_fields, JsonView};
use crate::manager::laws::{is_texts, opt_value};
use crate::manager::loaded::{under_key, RuntimeRouteState, RuntimeView};
use crate::manager::reports::{
    current_settings, load_payload, model_list_payload, reload_payload, requested_settings,
    runtime_payload, runtime_section, same_configuration, state_payload, summaries, ConfigView,
    LocalStateView, SelectedView,
};
use crate::manager::state::{selected_payload, stopped_payload, unloaded_payload, ManagerView};
use crate::resources::budget::budget_payload;
use crate::runtime::plan::ExternalServerProtocol;

verus! {

/// The value of an optional number: null where there is none.
pub open spec fn opt_number(o: Option<u32>) -> JsonView {
    match o {
        Some(n) => JsonView::Unsigned(n as nat),
        None => JsonView::Null,
    }
}

/// What a state is called.
pub open spec fn state_name(s: RuntimeRouteState) -> Seq<char> {
    match s {
        RuntimeRouteState::Ready => "ready"@,
        RuntimeRouteState::Draining => "draining"@,
        RuntimeRouteState::Failed => "failed"@,
    }
}

/// What a protocol is called.
pub open spec fn protocol_name(p: ExternalServerProtocol) -> Seq<char> {
    match p {
        ExternalServerProtocol::LlamaCppServer => "llama.cpp-server"@,
        ExternalServerProtocol::VllmOpenaiServer => "vllm-openai-server"@,
        ExternalServerProtocol::VllmWsl2OpenaiServer => "vllm-wsl2-openai-server"@,
        ExternalServerProtocol::VlaCppZmqServer => "vla.cpp-zmq-server"@,
    }
}

/// A runtime is reported with everything that is known of it, each under its name.
#[verifier::rlimit(40)]
pub proof fn runtimes_are_reported_as_they_are(r: RuntimeView)
    ensures
        member(runtime_payload(r), "id"@) == Some(JsonView::Text(r.model_key)),
        member(runtime_payload(r), "owner_admin_id"@) == Some(opt_value(r.owner_admin_id)),
        member(runtime_payload(r), "backend"@) == Some(JsonView::Text(r.backend_id)),
        member(runtime_payload(r), "model"@) == Some(JsonView::Text(r.model_key)),
        member(runtime_payload(r), "model_path"@) == Some(JsonView::Text(r.model)),
        member(runtime_payload(r), "public_model_id"@) == Some(opt_value(r.public_model_id)),
        member(runtime_payload(r), "mmproj"@) == Some(opt_value(r.mmproj)),
        member(runtime_payload(r), "ctx_size"@) == Some(opt_number(r.ctx_size)),
        member(runtime_payload(r), "runtime_mode"@) == Some(JsonView::Text("external_server"@)),
        member(runtime_payload(r), "backend_pid"@) == Some(
            JsonView::Unsigned(r.process.info.pid as nat),
        ),
        member(runtime_payload(r), "backend_port"@) == Some(
            JsonView::Unsigned(r.process.info.port as nat),
        ),
        member(runtime_payload(r), "generation"@) == Some(JsonView::Unsigned(r.generation as nat)),
        member(runtime_payload(r), "route_state"@) == Some(
            JsonView::Text(state_name(r.route_state)),
        ),
        member(runtime_payload(r), "allocation_id"@) == Some(
            JsonView::Unsigned(r.allocation_id.value as nat),
        ),
        member(runtime_payload(r), "resource_budget"@) == Some(budget_payload(r.resource_budget)),
        is_texts(member(runtime_payload(r), "launch_args"@), r.launch_args),
        member(runtime_payload(r), "cuda_visible_devices"@) == Some(
            opt_value(r.cuda_visible_devices),
        ),
        member(runtime_payload(r), "warning"@) == Some(opt_value(r.cuda_warning)),
        is_texts(member(runtime_payload(r), "launch_command"@), r.process.info.command),
        member(runtime_payload(r), "proxy_model"@) == Some(opt_value(r.proxy_model_ref)),
        member(runtime_payload(r), "external_server_protocol"@) == Some(
            JsonView::Text(protocol_name(r.external_server_protocol)),
        ),
        member(runtime_payload(r), "client_endpoint"@) == Some(JsonView::Text(r.client_endpoint)),
        member(runtime_payload(r), "openai_compatible"@) == Some(
            JsonView::Bool(!(r.external_server_protocol is VlaCppZmqServer)),
        ),
        member(runtime_payload(r), "backend_log"@) == Some(JsonView::Text(r.process.info.log_path)),
{
    let fields = runtime_payload(r)->Object_0;
    reveal_strlit("id");
    reveal_strlit("owner_admin_id");
    reveal_strlit("backend");
    reveal_strlit("model");
    reveal_strlit("model_path");
    reveal_strlit("public_model_id");
    reveal_strlit("mmproj");
    reveal_strlit("ctx_size");
    reveal_strlit("runtime_mode");
    reveal_strlit("backend_pid");
    reveal_strlit("backend_port");
    reveal_strlit("generation");
    reveal_strlit("route_state");
    reveal_strlit("allocation_id");
    reveal_strlit("resource_budget");
    reveal_strlit("launch_args");
    reveal_strlit("cuda_visible_devices");
    reveal_strlit("warning");
    reveal_strlit("launch_command");
    reveal_strlit("proxy_model");
    reveal_strlit("external_server_protocol");
    reveal_strlit("client_endpoint");
    reveal_strlit("openai_compatible");
    reveal_strlit("backend_log");
    assert("id"@.len() == 2);
    assert("owner_admin_id"@.len() == 14);
    assert("backend"@.len() == 7);
    assert("model"@.len() == 5);
    assert("model_path"@.len() == 10);
    assert("public_model_id"@.len() == 15);
    assert("mmproj"@.len() == 6);
    assert("ctx_size"@.len() == 8);
    assert("runtime_mode"@.len() == 12);
    assert("backend_pid"@.len() == 11);
    assert("backend_port"@.len() == 12);
    assert("generation"@.len() == 10);
    assert("route_state"@.len() == 11);
    assert("allocation_id"@.len() == 13);
    assert("resource_budget"@.len() == 15);
    assert("launch_args"@.len() == 11);
    assert("cuda_visible_devices"@.len() == 20);
    assert("warning"@.len() == 7);
    assert("launch_command"@.len() == 14);
    assert("proxy_model"@.len() == 11);
    assert("external_server_protocol"@.len() == 24);
    assert("client_endpoint"@.len() == 15);
    assert("openai_compatible"@.len() == 17);
    assert("backend_log"@.len() == 11);
    assert("owner_admin_id"@[0] == 'o');
    assert("launch_command"@[0] == 'l');
    assert("backend"@[0] == 'b');
    assert("warning"@[0] == 'w');
    assert("model_path"@[0] == 'm');
    assert("generation"@[0] == 'g');
    assert("public_model_id"@[0] == 'p');
    assert("resource_budget"@[0] == 'r');
    assert("client_endpoint"@[0] == 'c');
    assert("runtime_mode"@[0] == 'r');
    assert("backend_port"@[0] == 'b');
    assert("backend_pid"@[0] == 'b');
    assert("route_state"@[0] == 'r');
    assert("launch_args"@[0] == 'l');
    assert("proxy_model"@[0] == 'p');
    assert("backend_pid"@[8] == 'p');
    assert("backend_log"@[8] == 'l');
    assert("backend_log"@[0] == 'b');
    lemma_field_at(fields, 0);
    lemma_field_at(fields, 1);
    lemma_field_at(fields, 2);
    lemma_field_at(fields, 3);
    lemma_field_at(fields, 4);
    lemma_field_at(fields, 5);
    lemma_field_at(fields, 6);
    lemma_field_at(fields, 7);
    lemma_field_at(fields, 8);
    lemma_field_at(fields, 9);
    lemma_field_at(fields, 10);
    lemma_field_at(fields, 11);
    lemma_field_at(fields, 12);
    lemma_field_at(fields, 13);
    lemma_field_at(fields, 14);
    lemma_field_at(fields, 15);
    lemma_field_at(fields, 16);
    lemma_field_at(fields, 17);
    lemma_field_at(fields, 18);
    lemma_field_at(fields, 19);
    lemma_field_at(fields, 20);
    lemma_field_at(fields, 21);
    lemma_field_at(fields, 22);
    lemma_field_at(fields, 23);
}

/// The answer to a load says what was loaded, and how; its devices and its warning only
/// where it has any.
#[verifier::rlimit(60)]
pub proof fn loads_are_answered_with_what_was_loaded(r: RuntimeView, already_loaded: bool)
    ensures
        member(load_payload(r, already_loaded), "ok"@) == Some(JsonView::Bool(true)),
        member(load_payload(r, already_loaded), "already_loaded"@) == Some(
            JsonView::Bool(already_loaded),
        ),
        member(load_payload(r, already_loaded), "requires_reload"@) == Some(JsonView::Bool(false)),
        member(load_payload(r, already_loaded), "model"@) == Some(JsonView::Text(r.model_key)),
        member(load_payload(r, already_loaded), "owner_admin_id"@) == Some(
            opt_value(r.owner_admin_id),
        ),
        member(load_payload(r, already_loaded), "selected_backend"@) == Some(
            JsonView::Text(r.backend_id),
        ),
        member(load_payload(r, already_loaded), "selected_model"@) == Some(JsonView::Text(r.model)),
        member(load_payload(r, already_loaded), "selected_public_model_id"@) == Some(
            opt_value(r.public_model_id),
        ),
        member(load_payload(r, already_loaded), "selected_mmproj"@) == Some(opt_value(r.mmproj)),
        member(load_payload(r, already_loaded), "selected_ctx_size"@) == Some(
            opt_number(r.ctx_size),
        ),
        member(load_payload(r, already_loaded), "backend_pid"@) == Some(
            JsonView::Unsigned(r.process.info.pid as nat),
        ),
        member(load_payload(r, already_loaded), "backend_port"@) == Some(
            JsonView::Unsigned(r.process.info.port as nat),
        ),
        member(load_payload(r, already_loaded), "generation"@) == Some(
            JsonView::Unsigned(r.generation as nat),
        ),
        member(load_payload(r, already_loaded), "route_state"@) == Some(
            JsonView::Text(state_name(r.route_state)),
        ),
        member(load_payload(r, already_loaded), "allocation_id"@) == Some(
            JsonView::Unsigned(r.allocation_id.value as nat),
        ),
        member(load_payload(r, already_loaded), "resource_budget"@) == Some(
            budget_payload(r.resource_budget),
        ),
        is_texts(member(load_payload(r, already_loaded), "launch_command"@), r.process.info.command),
        member(load_payload(r, already_loaded), "log_path"@) == Some(
            JsonView::Text(r.process.info.log_path),
        ),
        member(load_payload(r, already_loaded), "external_server_protocol"@) == Some(
            JsonView::Text(protocol_name(r.external_server_protocol)),
        ),
        member(load_payload(r, already_loaded), "client_endpoint"@) == Some(
            JsonView::Text(r.client_endpoint),
        ),
        member(load_payload(r, already_loaded), "openai_compatible"@) == Some(
            JsonView::Bool(!(r.external_server_protocol is VlaCppZmqServer)),
        ),
        r.cuda_visible_devices matches Some(d) ==> member(
            load_payload(r, already_loaded),
            "cuda_visible_devices"@,
        ) == Some(JsonView::Text(d)),
        r.cuda_warning matches Some(w) ==> member(
            load_payload(r, already_loaded),
            "warning"@,
        ) == Some(JsonView::Text(w)),
{
    let fields = load_payload(r, already_loaded)->Object_0;
    reveal_strlit("ok");
    reveal_strlit("already_loaded");
    reveal_strlit("requires_reload");
    reveal_strlit("model");
    reveal_strlit("owner_admin_id");
    reveal_strlit("selected_backend");
    reveal_strlit("selected_model");
    reveal_strlit("selected_public_model_id");
    reveal_strlit("selected_mmproj");
    reveal_strlit("selected_ctx_size");
    reveal_strlit("backend_pid");
    reveal_strlit("backend_port");
    reveal_strlit("generation");
    reveal_strlit("route_state");
    reveal_strlit("allocation_id");
    reveal_strlit("resource_budget");
    reveal_strlit("launch_command");
    reveal_strlit("log_path");
    reveal_strlit("external_server_protocol");
    reveal_strlit("client_endpoint");
    reveal_strlit("openai_compatible");
    reveal_strlit("cuda_visible_devices");
    reveal_strlit("warning");
    assert("ok"@.len() == 2);
    assert("already_loaded"@.len() == 14);
    assert("requires_reload"@.len() == 15);
    assert("model"@.len() == 5);
    assert("owner_admin_id"@.len() == 14);
    assert("selected_backend"@.len() == 16);
    assert("selected_model"@.len() == 14);
    assert("selected_public_model_id"@.len() == 24);
    assert("selected_mmproj"@.len() == 15);
    assert("selected_ctx_size"@.len() == 17);
    assert("backend_pid"@.len() == 11);
    assert("backend_port"@.len() == 12);
    assert("generation"@.len() == 10);
    assert("route_state"@.len() == 11);
    assert("allocation_id"@.len() == 13);
    assert("resource_budget"@.len() == 15);
    assert("launch_command"@.len() == 14);
    assert("log_path"@.len() == 8);
    assert("external_server_protocol"@.len() == 24);
    assert("client_endpoint"@.len() == 15);
    assert("openai_compatible"@.len() == 17);
    assert("cuda_visible_devices"@.len() == 20);
    assert("warning"@.len() == 7);
    assert("already_loaded"@[0] == 'a');
    assert("owner_admin_id"@[0] == 'o');
    assert("selected_model"@[0] == 's');
    assert("launch_command"@[0] == 'l');
    assert("requires_reload"@[0] == 'r');
    assert("selected_mmproj"@[0] == 's');
    assert("requires_reload"@[2] == 'q');
    assert("resource_budget"@[2] == 's');
    assert("client_endpoint"@[0] == 'c');
    assert("selected_public_model_id"@[0] == 's');
    assert("external_server_protocol"@[0] == 'e');
    assert("resource_budget"@[0] == 'r');
    assert("selected_ctx_size"@[0] == 's');
    assert("openai_compatible"@[0] == 'o');
    assert("backend_pid"@[0] == 'b');
    assert("route_state"@[0] == 'r');
    lemma_field_at(fields, 0);
    lemma_field_at(fields, 1);
    lemma_field_at(fields, 2);
    lemma_field_at(fields, 3);
    lemma_field_at(fields, 4);
    lemma_field_at(fields, 5);
    lemma_field_at(fields, 6);
    lemma_field_at(fields, 7);
    lemma_field_at(fields, 8);
    lemma_field_at(fields, 9);
    lemma_field_at(fields, 10);
    lemma_field_at(fields, 11);
    lemma_field_at(fields, 12);
    lemma_field_at(fields, 13);
    lemma_field_at(fields, 14);
    lemma_field_at(fields, 15);
    lemma_field_at(fields, 16);
    lemma_field_at(fields, 17);
    lemma_field_at(fields, 18);
    lemma_field_at(fields, 19);
    lemma_field_at(fields, 20);
    if r.cuda_visible_devices is Some {
        lemma_field_at(fields, 21);
    }
    if r.cuda_warning is Some {
        lemma_field_at(fields, fields.len() - 1);
    }
}

/// The settings of a runtime are reported as they are.
pub proof fn current_settings_are_those_of_the_runtime(r: RuntimeView)
    ensures
        member(current_settings(r), "backend"@) == Some(JsonView::Text(r.backend_id)),
        member(current_settings(r), "model"@) == Some(JsonView::Text(r.model_key)),
        member(current_settings(r), "model_path"@) == Some(JsonView::Text(r.model)),
        member(current_settings(r), "public_model_id"@) == Some(opt_value(r.public_model_id)),
        member(current_settings(r), "mmproj"@) == Some(opt_value(r.mmproj)),
        member(current_settings(r), "ctx_size"@) == Some(opt_number(r.ctx_size)),
        is_texts(member(current_settings(r), "launch_args"@), r.launch_args),
{
    let fields = current_settings(r)->Object_0;
    reveal_strlit("backend");
    reveal_strlit("model");
    reveal_strlit("model_path");
    reveal_strlit("public_model_id");
    reveal_strlit("mmproj");
    reveal_strlit("ctx_size");
    reveal_strlit("launch_args");
    assert("backend"@.len() == 7);
    assert("model"@.len() == 5);
    assert("model_path"@.len() == 10);
    assert("public_model_id"@.len() == 15);
    assert("mmproj"@.len() == 6);
    assert("ctx_size"@.len() == 8);
    assert("launch_args"@.len() == 11);
    lemma_field_at(fields, 0);
    lemma_field_at(fields, 1);
    lemma_field_at(fields, 2);
    lemma_field_at(fields, 3);
    lemma_field_at(fields, 4);
    lemma_field_at(fields, 5);
    lemma_field_at(fields, 6);
}

/// The settings of a request are reported as they are.
pub proof fn requested_settings_are_those_of_the_request(c: ConfigView)
    ensures
        member(requested_settings(c), "backend"@) == Some(JsonView::Text(c.backend_id)),
        member(requested_settings(c), "model"@) == Some(JsonView::Text(c.model_key)),
        member(requested_settings(c), "model_path"@) == Some(JsonView::Text(c.model_path)),
        member(requested_settings(c), "public_model_id"@) == Some(opt_value(c.public_model_id)),
        member(requested_settings(c), "mmproj"@) == Some(opt_value(c.mmproj)),
        member(requested_settings(c), "ctx_size"@) == Some(opt_number(c.ctx_size)),
        is_texts(member(requested_settings(c), "launch_args"@), c.launch_args),
{
    let fields = requested_settings(c)->Object_0;
    reveal_strlit("backend");
    reveal_strlit("model");
    reveal_strlit("model_path");
    reveal_strlit("public_model_id");
    reveal_strlit("mmproj");
    reveal_strlit("ctx_size");
    reveal_strlit("launch_args");
    assert("backend"@.len() == 7);
    assert("model"@.len() == 5);
    assert("model_path"@.len() == 10);
    assert("public_model_id"@.len() == 15);
    assert("mmproj"@.len() == 6);
    assert("ctx_size"@.len() == 8);
    assert("launch_args"@.len() == 11);
    lemma_field_at(fields, 0);
    lemma_field_at(fields, 1);
    lemma_field_at(fields, 2);
    lemma_field_at(fields, 3);
    lemma_field_at(fields, 4);
    lemma_field_at(fields, 5);
    lemma_field_at(fields, 6);
}

/// A load with other settings than those of the runtime is answered with both, and with the
/// reason.
pub proof fn reloads_are_answered_with_both_settings(r: RuntimeView, c: ConfigView)
    ensures
        member(reload_payload(r, c), "ok"@) == Some(JsonView::Bool(false)),
        member(reload_payload(r, c), "already_loaded"@) == Some(JsonView::Bool(true)),
        member(reload_payload(r, c), "requires_reload"@) == Some(JsonView::Bool(true)),
        member(reload_payload(r, c), "error"@) matches Some(e) && member(e, "code"@) == Some(
            JsonView::Text("model_reload_required"@),
        ),
        member(reload_payload(r, c), "current"@) == Some(current_settings(r)),
        member(reload_payload(r, c), "requested"@) == Some(requested_settings(c)),
{
    let fields = reload_payload(r, c)->Object_0;
    reveal_strlit("ok");
    reveal_strlit("already_loaded");
    reveal_strlit("requires_reload");
    reveal_strlit("error");
    reveal_strlit("current");
    reveal_strlit("requested");
    assert("ok"@.len() == 2);
    assert("already_loaded"@.len() == 14);
    assert("requires_reload"@.len() == 15);
    assert("error"@.len() == 5);
    assert("current"@.len() == 7);
    assert("requested"@.len() == 9);
    lemma_field_at(fields, 0);
    lemma_field_at(fields, 1);
    lemma_field_at(fields, 2);
    lemma_field_at(fields, 3);
    lemma_field_at(fields, 4);
    lemma_field_at(fields, 5);
    let error = fields[3].1->Object_0;
    reveal_strlit("code");
    reveal_strlit("message");
    assert("code"@.len() == 4);
    assert("message"@.len() == 7);
    lemma_field_at(error, 0);
}

/// A runtime runs with the settings that are asked for where its backend, its file, its
/// projector, its context size and its arguments are those, whatever its names are.
pub proof fn settings_are_compared_one_by_one(r: RuntimeView, c: ConfigView)
    ensures
        same_configuration(r, c) <==> r.backend_id == c.backend_id && r.model == c.model_path
            && r.mmproj == c.mmproj && r.ctx_size == c.ctx_size && r.launch_args
            == c.launch_args,
{
}

/// All runtimes are listed, in order, each as it is reported alone.
pub proof fn every_runtime_is_listed(s: Seq<RuntimeView>)
    ensures
        member(model_list_payload(s), "object"@) == Some(JsonView::Text("list"@)),
        member(model_list_payload(s), "data"@) matches Some(JsonView::Array(items))
            && items.len() == s.len() && forall|i: int|
            0 <= i < s.len() ==> #[trigger] items[i] == runtime_payload(s[i]),
{
    let fields = model_list_payload(s)->Object_0;
    reveal_strlit("object");
    reveal_strlit("data");
    assert("object"@.len() == 6);
    assert("data"@.len() == 4);
    lemma_field_at(fields, 0);
    lemma_field_at(fields, 1);
}

/// The process of a runtime is reported as it is.
#[verifier::rlimit(30)]
pub proof fn processes_are_reported_as_they_are(r: RuntimeView)
    ensures
        member(runtime_section(r), "mode"@) == Some(JsonView::Text("external_server"@)),
        member(runtime_section(r), "host"@) == Some(JsonView::Text("127.0.0.1"@)),
        member(runtime_section(r), "port"@) == Some(JsonView::Unsigned(r.process.info.port as nat)),
        member(runtime_section(r), "pid"@) == Some(JsonView::Unsigned(r.process.info.pid as nat)),
        member(runtime_section(r), "cuda_visible_devices"@) == Some(
            opt_value(r.cuda_visible_devices),
        ),
        is_texts(member(runtime_section(r), "launch_command"@), r.process.info.command),
        member(runtime_section(r), "log_path"@) == Some(JsonView::Text(r.process.info.log_path)),
        member(runtime_section(r), "proxy_model_ref"@) == Some(opt_value(r.proxy_model_ref)),
        member(runtime_section(r), "external_server_protocol"@) == Some(
            JsonView::Text(protocol_name(r.external_server_protocol)),
        ),
        member(runtime_section(r), "client_endpoint"@) == Some(JsonView::Text(r.client_endpoint)),
        member(runtime_section(r), "openai_compatible"@) == Some(
            JsonView::Bool(!(r.external_server_protocol is VlaCppZmqServer)),
        ),
{
    let fields = runtime_section(r)->Object_0;
    reveal_strlit("mode");
    reveal_strlit("host");
    reveal_strlit("port");
    reveal_strlit("pid");
    reveal_strlit("cuda_visible_devices");
    reveal_strlit("launch_command");
    reveal_strlit("log_path");
    reveal_strlit("proxy_model_ref");
    reveal_strlit("external_server_protocol");
    reveal_strlit("client_endpoint");
    reveal_strlit("openai_compatible");
    assert("mode"@.len() == 4);
    assert("host"@.len() == 4);
    assert("port"@.len() == 4);
    assert("pid"@.len() == 3);
    assert("cuda_visible_devices"@.len() == 20);
    assert("launch_command"@.len() == 14);
    assert("log_path"@.len() == 8);
    assert("proxy_model_ref"@.len() == 15);
    assert("external_server_protocol"@.len() == 24);
    assert("client_endpoint"@.len() == 15);
    assert("openai_compatible"@.len() == 17);
    assert("mode"@[0] == 'm');
    assert("host"@[0] == 'h');
    assert("port"@[0] == 'p');
    assert("proxy_model_ref"@[0] == 'p');
    assert("client_endpoint"@[0] == 'c');
    lemma_field_at(fields, 0);
    lemma_field_at(fields, 1);
    lemma_field_at(fields, 2);
    lemma_field_at(fields, 3);
    lemma_field_at(fields, 4);
    lemma_field_at(fields, 5);
    lemma_field_at(fields, 6);
    lemma_field_at(fields, 7);
    lemma_field_at(fields, 8);
    lemma_field_at(fields, 9);
    lemma_field_at(fields, 10);
}

/// Whether a report says of the last session what there is to say: nothing where nothing was
/// saved, and else what was saved, and whether it is loaded.
pub open spec fn says_what_was_saved(
    report: JsonView,
    saved: LocalStateView,
    s: Seq<RuntimeView>,
) -> bool {
    match saved.selected_model {
        None => {
            &&& member(report, "restore_selection"@) == Some(JsonView::Null)
            &&& member(report, "restore_status"@) == Some(JsonView::Text("not_configured"@))
            &&& member(report, "restore_completed"@) == Some(JsonView::Bool(false))
        },
        Some(selected) => {
            let loaded = exists|i: int|
                0 <= i < s.len() && is_the_saved(#[trigger] s[i], saved.selected_backend, selected);
            &&& member(report, "restore_selection"@) matches Some(v) && member(v, "backend"@)
                == Some(opt_value(saved.selected_backend)) && member(v, "model"@) == Some(
                JsonView::Text(selected.model),
            ) && member(v, "mmproj"@) == Some(opt_value(selected.mmproj)) && member(
                v,
                "ctx_size"@,
            ) == Some(opt_number(selected.ctx_size))
            &&& member(report, "restore_completed"@) == Some(JsonView::Bool(loaded))
            &&& loaded ==> member(report, "restore_status"@) == Some(JsonView::Text("loaded"@))
            &&& !loaded ==> member(report, "restore_status"@) == Some(JsonView::Text("pending"@))
        },
    }
}

/// Whether a runtime is ready and is the one that was saved.
pub open spec fn is_the_saved(
    r: RuntimeView,
    backend: Option<Seq<char>>,
    selected: SelectedView,
) -> bool {
    r.route_state is Ready && (backend is Some ==> r.backend_id == backend->0) && r.model
        == selected.model && r.mmproj == selected.mmproj && r.ctx_size == selected.ctx_size
}

/// The state of a gateway with a default runtime is that of this runtime, with all runtimes
/// and with what was saved.
#[verifier::rlimit(100)]
pub proof fn states_report_the_default_runtime(
    m: ManagerView,
    saved: LocalStateView,
    key: Seq<char>,
    r: RuntimeView,
)
    requires
        m.default_model_key == Some(key),
        under_key(m.loaded, key) == Some(r),
    ensures
        member(state_payload(m, saved), "backend"@) == Some(JsonView::Text(r.backend_id)),
        member(state_payload(m, saved), "backend_ready"@) == Some(JsonView::Bool(true)),
        member(state_payload(m, saved), "model"@) == Some(JsonView::Text(r.model_key)),
        member(state_payload(m, saved), "model_path"@) == Some(JsonView::Text(r.model)),
        member(state_payload(m, saved), "public_model_id"@) == Some(opt_value(r.public_model_id)),
        member(state_payload(m, saved), "owner_admin_id"@) == Some(opt_value(r.owner_admin_id)),
        member(state_payload(m, saved), "mmproj"@) == Some(opt_value(r.mmproj)),
        member(state_payload(m, saved), "ctx_size"@) == Some(opt_number(r.ctx_size)),
        member(state_payload(m, saved), "request_defaults"@) == Some(JsonView::Object(no_fields())),
        member(state_payload(m, saved), "runtime_mode"@) == Some(
            JsonView::Text("external_server"@),
        ),
        member(state_payload(m, saved), "backend_pid"@) == Some(
            JsonView::Unsigned(r.process.info.pid as nat),
        ),
        member(state_payload(m, saved), "backend_port"@) == Some(
            JsonView::Unsigned(r.process.info.port as nat),
        ),
        member(state_payload(m, saved), "generation"@) == Some(
            JsonView::Unsigned(r.generation as nat),
        ),
        member(state_payload(m, saved), "route_state"@) == Some(
            JsonView::Text(state_name(r.route_state)),
        ),
        member(state_payload(m, saved), "allocation_id"@) == Some(
            JsonView::Unsigned(r.allocation_id.value as nat),
        ),
        member(state_payload(m, saved), "resource_budget"@) == Some(
            budget_payload(r.resource_budget),
        ),
        is_texts(member(state_payload(m, saved), "launch_args"@), r.launch_args),
        member(state_payload(m, saved), "cuda_visible_devices"@) == Some(
            opt_value(r.cuda_visible_devices),
        ),
        member(state_payload(m, saved), "warning"@) == Some(opt_value(r.cuda_warning)),
        is_texts(member(state_payload(m, saved), "launch_command"@), r.process.info.command),
        member(state_payload(m, saved), "proxy_model"@) == Some(opt_value(r.proxy_model_ref)),
        member(state_payload(m, saved), "external_server_protocol"@) == Some(
            JsonView::Text(protocol_name(r.external_server_protocol)),
        ),
        member(state_payload(m, saved), "client_endpoint"@) == Some(
            JsonView::Text(r.client_endpoint),
        ),
        member(state_payload(m, saved), "openai_compatible"@) == Some(
            JsonView::Bool(!(r.external_server_protocol is VlaCppZmqServer)),
        ),
        member(state_payload(m, saved), "backend_log"@) == Some(
            JsonView::Text(r.process.info.log_path),
        ),
        member(state_payload(m, saved), "effective_parameters"@) == Some(
            JsonView::Object(no_fields()),
        ),
        member(state_payload(m, saved), "log_path"@) == Some(
            JsonView::Text(r.process.info.log_path),
        ),
        member(state_payload(m, saved), "default_model"@) == Some(JsonView::Text(r.model_key)),
        member(state_payload(m, saved), "loaded_models"@) matches Some(JsonView::Array(items))
            && items.len() == m.loaded.len() && forall|i: int|
            0 <= i < items.len() ==> #[trigger] items[i] == runtime_payload(m.loaded[i]),
        says_what_was_saved(state_payload(m, saved), saved, m.loaded),
{
    let fields = state_payload(m, saved)->Object_0;
    assert(fields.len() == 34);
    reveal_strlit("backend");
    reveal_strlit("backend_ready");
    reveal_strlit("model");
    reveal_strlit("model_path");
    reveal_strlit("public_model_id");
    reveal_strlit("owner_admin_id");
    reveal_strlit("mmproj");
    reveal_strlit("ctx_size");
    reveal_strlit("request_defaults");
    reveal_strlit("runtime_mode");
    reveal_strlit("backend_pid");
    reveal_strlit("backend_port");
    reveal_strlit("generation");
    reveal_strlit("route_state");
    reveal_strlit("allocation_id");
    reveal_strlit("resource_budget");
    reveal_strlit("launch_args");
    reveal_strlit("cuda_visible_devices");
    reveal_strlit("warning");
    reveal_strlit("launch_command");
    reveal_strlit("proxy_model");
    reveal_strlit("external_server_protocol");
    reveal_strlit("client_endpoint");
    reveal_strlit("openai_compatible");
    reveal_strlit("backend_log");
    reveal_strlit("effective_parameters");
    reveal_strlit("runtime");
    reveal_strlit("log_path");
    reveal_strlit("loaded_models");
    reveal_strlit("default_model");
    reveal_strlit("restore_selection");
    reveal_strlit("restore_status");
    reveal_strlit("restore_completed");
    reveal_strlit("resource_ledger");
    assert("backend"@.len() == 7);
    assert("backend_ready"@.len() == 13);
    assert("model"@.len() == 5);
    assert("model_path"@.len() == 10);
    assert("public_model_id"@.len() == 15);
    assert("owner_admin_id"@.len() == 14);
    assert("mmproj"@.len() == 6);
    assert("ctx_size"@.len() == 8);
    assert("request_defaults"@.len() == 16);
    assert("runtime_mode"@.len() == 12);
    assert("backend_pid"@.len() == 11);
    assert("backend_port"@.len() == 12);
    assert("generation"@.len() == 10);
    assert("route_state"@.len() == 11);
    assert("allocation_id"@.len() == 13);
    assert("resource_budget"@.len() == 15);
    assert("launch_args"@.len() == 11);
    assert("cuda_visible_devices"@.len() == 20);
    assert("warning"@.len() == 7);
    assert("launch_command"@.len() == 14);
    assert("proxy_model"@.len() == 11);
    assert("external_server_protocol"@.len() == 24);
    assert("client_endpoint"@.len() == 15);
    assert("openai_compatible"@.len() == 17);
    assert("backend_log"@.len() == 11);
    assert("effective_parameters"@.len() == 20);
    assert("runtime"@.len() == 7);
    assert("log_path"@.len() == 8);
    assert("loaded_models"@.len() == 13);
    assert("default_model"@.len() == 13);
    assert("restore_selection"@.len() == 17);
    assert("restore_status"@.len() == 14);
    assert("restore_completed"@.len() == 17);
    assert("resource_ledger"@.len() == 15);
    assert("backend"@[0] == 'b');
    assert("warning"@[0] == 'w');
    assert("runtime"@[0] == 'r');
    assert("backend_ready"@[0] == 'b');
    assert("allocation_id"@[0] == 'a');
    assert("loaded_models"@[0] == 'l');
    assert("default_model"@[0] == 'd');
    assert("model_path"@[0] == 'm');
    assert("generation"@[0] == 'g');
    assert("public_model_id"@[0] == 'p');
    assert("resource_budget"@[0] == 'r');
    assert("client_endpoint"@[0] == 'c');
    assert("resource_ledger"@[0] == 'r');
    assert("owner_admin_id"@[0] == 'o');
    assert("launch_command"@[0] == 'l');
    assert("restore_status"@[0] == 'r');
    assert("ctx_size"@[0] == 'c');
    assert("log_path"@[0] == 'l');
    assert("runtime_mode"@[0] == 'r');
    assert("backend_port"@[0] == 'b');
    assert("backend_pid"@[0] == 'b');
    assert("route_state"@[0] == 'r');
    assert("launch_args"@[0] == 'l');
    assert("proxy_model"@[0] == 'p');
    assert("backend_pid"@[8] == 'p');
    assert("backend_log"@[8] == 'l');
    assert("backend_log"@[0] == 'b');
    assert("resource_budget"@[9] == 'b');
    assert("resource_ledger"@[9] == 'l');
    assert("cuda_visible_devices"@[0] == 'c');
    assert("effective_parameters"@[0] == 'e');
    assert("openai_compatible"@[0] == 'o');
    assert("restore_selection"@[0] == 'r');
    assert("restore_completed"@[0] == 'r');
    assert("restore_selection"@[8] == 's');
    assert("restore_completed"@[8] == 'c');
    lemma_field_at(fields, 0);
    lemma_field_at(fields, 1);
    lemma_field_at(fields, 2);
    lemma_field_at(fields, 3);
    lemma_field_at(fields, 4);
    lemma_field_at(fields, 5);
    lemma_field_at(fields, 6);
    lemma_field_at(fields, 7);
    lemma_field_at(fields, 8);
    lemma_field_at(fields, 9);
    lemma_field_at(fields, 10);
    lemma_field_at(fields, 11);
    lemma_field_at(fields, 12);
    lemma_field_at(fields, 13);
    lemma_field_at(fields, 14);
    lemma_field_at(fields, 15);
    lemma_field_at(fields, 16);
    lemma_field_at(fields, 17);
    lemma_field_at(fields, 18);
    lemma_field_at(fields, 19);
    lemma_field_at(fields, 20);
    lemma_field_at(fields, 21);
    lemma_field_at(fields, 22);
    lemma_field_at(fields, 23);
    lemma_field_at(fields, 24);
    lemma_field_at(fields, 25);
    lemma_field_at(fields, 26);
    lemma_field_at(fields, 27);
    lemma_field_at(fields, 28);
    lemma_field_at(fields, 29);
    lemma_field_at(fields, 30);
    lemma_field_at(fields, 31);
    lemma_field_at(fields, 32);
    lemma_field_at(fields, 33);
    assert(fields.take(30) =~= crate::manager::reports::active_fields(
        r,
        crate::manager::reports::runtime_payloads(m.loaded),
    ));
    lemma_saved(state_payload(m, saved), saved, m.loaded, 30);
}

/// The state of a gateway without a default runtime says so: nothing is ready, and its backend
/// is the selected one, or else the one that was saved.
#[verifier::rlimit(100)]
pub proof fn states_without_a_default_say_so(m: ManagerView, saved: LocalStateView)
    requires
        m.default_model_key matches Some(key) ==> under_key(m.loaded, key) is None,
    ensures
        member(state_payload(m, saved), "backend_ready"@) == Some(JsonView::Bool(false)),
        member(state_payload(m, saved), "model"@) == Some(JsonView::Null),
        member(state_payload(m, saved), "public_model_id"@) == Some(JsonView::Null),
        member(state_payload(m, saved), "mmproj"@) == Some(JsonView::Null),
        member(state_payload(m, saved), "ctx_size"@) == Some(JsonView::Null),
        member(state_payload(m, saved), "request_defaults"@) == Some(JsonView::Object(no_fields())),
        member(state_payload(m, saved), "runtime_mode"@) == Some(JsonView::Null),
        member(state_payload(m, saved), "backend_pid"@) == Some(JsonView::Null),
        member(state_payload(m, saved), "backend_port"@) == Some(JsonView::Null),
        member(state_payload(m, saved), "cuda_visible_devices"@) == Some(JsonView::Null),
        member(state_payload(m, saved), "warning"@) == Some(JsonView::Null),
        member(state_payload(m, saved), "proxy_model"@) == Some(JsonView::Null),
        member(state_payload(m, saved), "external_server_protocol"@) == Some(JsonView::Null),
        member(state_payload(m, saved), "client_endpoint"@) == Some(JsonView::Null),
        member(state_payload(m, saved), "openai_compatible"@) == Some(JsonView::Bool(true)),
        member(state_payload(m, saved), "backend_log"@) == Some(JsonView::Null),
        member(state_payload(m, saved), "effective_parameters"@) == Some(
            JsonView::Object(no_fields()),
        ),
        member(state_payload(m, saved), "runtime"@) == Some(JsonView::Null),
        member(state_payload(m, saved), "default_model"@) == Some(JsonView::Null),
        m.selected_backend is Some ==> member(state_payload(m, saved), "backend"@) == Some(
            JsonView::Text(m.selected_backend->0),
        ),
        m.selected_backend is None ==> member(state_payload(m, saved), "backend"@) == Some(
            opt_value(saved.selected_backend),
        ),
        member(state_payload(m, saved), "loaded_models"@) matches Some(JsonView::Array(items))
            && items.len() == m.loaded.len() && forall|i: int|
            0 <= i < items.len() ==> #[trigger] items[i] == runtime_payload(m.loaded[i]),
        says_what_was_saved(state_payload(m, saved), saved, m.loaded),
{
    let fields = state_payload(m, saved)->Object_0;
    assert(fields.len() == 27);
    reveal_strlit("backend");
    reveal_strlit("backend_ready");
    reveal_strlit("model");
    reveal_strlit("public_model_id");
    reveal_strlit("mmproj");
    reveal_strlit("ctx_size");
    reveal_strlit("request_defaults");
    reveal_strlit("runtime_mode");
    reveal_strlit("backend_pid");
    reveal_strlit("backend_port");
    reveal_strlit("launch_args");
    reveal_strlit("cuda_visible_devices");
    reveal_strlit("warning");
    reveal_strlit("launch_command");
    reveal_strlit("proxy_model");
    reveal_strlit("external_server_protocol");
    reveal_strlit("client_endpoint");
    reveal_strlit("openai_compatible");
    reveal_strlit("backend_log");
    reveal_strlit("effective_parameters");
    reveal_strlit("runtime");
    reveal_strlit("loaded_models");
    reveal_strlit("default_model");
    reveal_strlit("restore_selection");
    reveal_strlit("restore_status");
    reveal_strlit("restore_completed");
    reveal_strlit("resource_ledger");
    assert("backend"@.len() == 7);
    assert("backend_ready"@.len() == 13);
    assert("model"@.len() == 5);
    assert("public_model_id"@.len() == 15);
    assert("mmproj"@.len() == 6);
    assert("ctx_size"@.len() == 8);
    assert("request_defaults"@.len() == 16);
    assert("runtime_mode"@.len() == 12);
    assert("backend_pid"@.len() == 11);
    assert("backend_port"@.len() == 12);
    assert("launch_args"@.len() == 11);
    assert("cuda_visible_devices"@.len() == 20);
    assert("warning"@.len() == 7);
    assert("launch_command"@.len() == 14);
    assert("proxy_model"@.len() == 11);
    assert("external_server_protocol"@.len() == 24);
    assert("client_endpoint"@.len() == 15);
    assert("openai_compatible"@.len() == 17);
    assert("backend_log"@.len() == 11);
    assert("effective_parameters"@.len() == 20);
    assert("runtime"@.len() == 7);
    assert("loaded_models"@.len() == 13);
    assert("default_model"@.len() == 13);
    assert("restore_selection"@.len() == 17);
    assert("restore_status"@.len() == 14);
    assert("restore_completed"@.len() == 17);
    assert("resource_ledger"@.len() == 15);
    assert("backend"@[0] == 'b');
    assert("warning"@[0] == 'w');
    assert("runtime"@[0] == 'r');
    assert("backend_ready"@[0] == 'b');
    assert("loaded_models"@[0] == 'l');
    assert("default_model"@[0] == 'd');
    assert("public_model_id"@[0] == 'p');
    assert("client_endpoint"@[0] == 'c');
    assert("resource_ledger"@[0] == 'r');
    assert("runtime_mode"@[0] == 'r');
    assert("backend_port"@[0] == 'b');
    assert("backend_pid"@[0] == 'b');
    assert("launch_args"@[0] == 'l');
    assert("proxy_model"@[0] == 'p');
    assert("backend_pid"@[8] == 'p');
    assert("backend_log"@[8] == 'l');
    assert("backend_log"@[0] == 'b');
    assert("cuda_visible_devices"@[0] == 'c');
    assert("effective_parameters"@[0] == 'e');
    assert("launch_command"@[0] == 'l');
    assert("restore_status"@[0] == 'r');
    assert("openai_compatible"@[0] == 'o');
    assert("restore_selection"@[0] == 'r');
    assert("restore_completed"@[0] == 'r');
    assert("restore_selection"@[8] == 's');
    assert("restore_completed"@[8] == 'c');
    lemma_field_at(fields, 0);
    lemma_field_at(fields, 1);
    lemma_field_at(fields, 2);
    lemma_field_at(fields, 3);
    lemma_field_at(fields, 4);
    lemma_field_at(fields, 5);
    lemma_field_at(fields, 6);
    lemma_field_at(fields, 7);
    lemma_field_at(fields, 8);
    lemma_field_at(fields, 9);
    lemma_field_at(fields, 10);
    lemma_field_at(fields, 11);
    lemma_field_at(fields, 12);
    lemma_field_at(fields, 13);
    lemma_field_at(fields, 14);
    lemma_field_at(fields, 15);
    lemma_field_at(fields, 16);
    lemma_field_at(fields, 17);
    lemma_field_at(fields, 18);
    lemma_field_at(fields, 19);
    lemma_field_at(fields, 20);
    lemma_field_at(fields, 21);
    lemma_field_at(fields, 22);
    lemma_field_at(fields, 23);
    lemma_field_at(fields, 24);
    lemma_field_at(fields, 25);
    lemma_field_at(fields, 26);
    assert(fields.take(23) =~= crate::manager::reports::idle_fields(
        match m.selected_backend {
            Some(b) => Some(b),
            None => saved.selected_backend,
        },
        crate::manager::reports::runtime_payloads(m.loaded),
    ));
    lemma_saved(state_payload(m, saved), saved, m.loaded, 23);
}

proof fn lemma_saved(report: JsonView, saved: LocalStateView, s: Seq<RuntimeView>, n: int)
    requires
        report is Object,
        n >= 0,
        report->Object_0.len() == n + 4,
        report->Object_0 == crate::manager::reports::with_restore_state(
            report->Object_0.take(n),
            saved,
            s,
        ).push(report->Object_0[n + 3]),
        forall|i: int|
            n <= i < n + 3 ==> field(report->Object_0, (#[trigger] report->Object_0[i]).0) == Some(
                report->Object_0[i].1,
            ),
    ensures
        says_what_was_saved(report, saved, s),
{
    let fields = report->Object_0;
    assert(fields[n].0 == "restore_selection"@);
    assert(fields[n + 1].0 == "restore_status"@);
    assert(fields[n + 2].0 == "restore_completed"@);
    if let Some(selected) = saved.selected_model {
        let part = fields[n].1->Object_0;
        reveal_strlit("backend");
        reveal_strlit("model");
        reveal_strlit("mmproj");
        reveal_strlit("ctx_size");
        assert("backend"@.len() == 7);
        assert("model"@.len() == 5);
        assert("mmproj"@.len() == 6);
        assert("ctx_size"@.len() == 8);
        lemma_field_at(part, 0);
        lemma_field_at(part, 1);
        lemma_field_at(part, 2);
        lemma_field_at(part, 3);
        assert forall|i: int| 0 <= i < s.len() implies is_the_saved(
            #[trigger] s[i],
            saved.selected_backend,
            selected,
        ) == crate::manager::reports::restores(s[i], saved.selected_backend, selected) by {}
    }
}

/// Those runtimes are summed up that are ready, each by its key, its owner and its process.
pub proof fn ready_runtimes_are_summed_up(s: Seq<RuntimeView>, i: int)
    requires
        0 <= i < s.len(),
    ensures
        s[i].route_state is Ready ==> exists|j: int|
            0 <= j < summaries(s).len() && (#[trigger] summaries(s)[j]).id == s[i].model_key
                && summaries(s)[j].owner_admin_id == s[i].owner_admin_id
                && summaries(s)[j].backend_pid == s[i].process.info.pid,
        forall|j: int|
            0 <= j < summaries(s).len() ==> exists|k: int|
                0 <= k < s.len() && (#[trigger] s[k]).route_state is Ready && s[k].model_key == (
                #[trigger] summaries(s)[j]).id,
    decreases s.len(),
{
    let rest = s.drop_last();
    if rest.len() > 0 {
        if i < rest.len() {
            ready_runtimes_are_summed_up(rest, i);
            assert(rest[i] == s[i]);
        } else {
            ready_runtimes_are_summed_up(rest, 0);
        }
    } else {
        assert(summaries(rest).len() == 0);
    }
    if s.last().route_state == RuntimeRouteState::Ready {
        let all = summaries(s);
        assert(all.last().id == s[s.len() - 1].model_key);
        if i < rest.len() && s[i].route_state is Ready {
            let j = choose|j: int|
                0 <= j < summaries(rest).len() && (#[trigger] summaries(rest)[j]).id
                    == rest[i].model_key && summaries(rest)[j].owner_admin_id
                    == rest[i].owner_admin_id && summaries(rest)[j].backend_pid
                    == rest[i].process.info.pid;
            assert(all[j] == summaries(rest)[j]);
        } else if i == rest.len() {
            assert(all[all.len() - 1].id == s[i].model_key);
        }
        assert forall|j: int| 0 <= j < all.len() implies exists|k: int|
            0 <= k < s.len() && (#[trigger] s[k]).route_state is Ready && s[k].model_key == (
            #[trigger] all[j]).id by {
            if j < all.len() - 1 {
                assert(all[j] == summaries(rest)[j]);
                let k = choose|k: int|
                    0 <= k < rest.len() && (#[trigger] rest[k]).route_state is Ready
                        && rest[k].model_key == summaries(rest)[j].id;
                assert(rest[k] == s[k]);
            } else {
                assert(s[s.len() - 1].model_key == all[j].id);
            }
        }
    } else {
        assert forall|j: int| 0 <= j < summaries(s).len() implies exists|k: int|
            0 <= k < s.len() && (#[trigger] s[k]).route_state is Ready && s[k].model_key == (
            #[trigger] summaries(s)[j]).id by {
            assert(rest.len() > 0);
            let k = choose|k: int|
                0 <= k < rest.len() && (#[trigger] rest[k]).route_state is Ready
                    && rest[k].model_key == summaries(rest)[j].id;
            assert(rest[k] == s[k]);
        }
    }
}

/// What is answered when a runtime was unloaded, a backend selected or everything stopped.
pub proof fn answers_say_what_was_done(
    r: RuntimeView,
    id: Seq<char>,
    binary_exists: bool,
    models_dir: Option<Seq<char>>,
    selected: Option<Seq<char>>,
    preserved: bool,
)
    ensures
        member(unloaded_payload(r), "ok"@) == Some(JsonView::Bool(true)),
        member(unloaded_payload(r), "unloaded"@) == Some(JsonView::Bool(true)),
        member(unloaded_payload(r), "model"@) == Some(JsonView::Text(r.model_key)),
        member(unloaded_payload(r), "owner_admin_id"@) == Some(opt_value(r.owner_admin_id)),
        member(unloaded_payload(r), "invalidated_generation"@) == Some(
            JsonView::Unsigned(r.generation as nat),
        ),
        member(unloaded_payload(r), "resources_released"@) == Some(JsonView::Bool(true)),
        member(selected_payload(id, binary_exists, models_dir), "ok"@) == Some(
            JsonView::Bool(true),
        ),
        member(selected_payload(id, binary_exists, models_dir), "selected_backend"@) == Some(
            JsonView::Text(id),
        ),
        member(selected_payload(id, binary_exists, models_dir), "binary_exists"@) == Some(
            JsonView::Bool(binary_exists),
        ),
        member(selected_payload(id, binary_exists, models_dir), "models_dir"@) == Some(
            opt_value(models_dir),
        ),
        member(stopped_payload(selected, preserved), "ok"@) == Some(JsonView::Bool(true)),
        member(stopped_payload(selected, preserved), "stopped"@) == Some(JsonView::Bool(true)),
        member(stopped_payload(selected, preserved), "selected_backend"@) == Some(
            opt_value(selected),
        ),
        member(stopped_payload(selected, preserved), "selected_model_preserved"@) == Some(
            JsonView::Bool(preserved),
        ),
        preserved ==> member(stopped_payload(selected, preserved), "restore_status"@) == Some(
            JsonView::Text("pending"@),
        ),
        !preserved ==> member(stopped_payload(selected, preserved), "restore_status"@) == Some(
            JsonView::Text("not_configured"@),
        ),
{
    let a = unloaded_payload(r)->Object_0;
    let b = selected_payload(id, binary_exists, models_dir)->Object_0;
    let c = stopped_payload(selected, preserved)->Object_0;
    reveal_strlit("ok");
    reveal_strlit("unloaded");
    reveal_strlit("model");
    reveal_strlit("owner_admin_id");
    reveal_strlit("invalidated_generation");
    reveal_strlit("resources_released");
    reveal_strlit("selected_backend");
    reveal_strlit("binary_exists");
    reveal_strlit("models_dir");
    reveal_strlit("stopped");
    reveal_strlit("selected_model_preserved");
    reveal_strlit("restore_status");
    assert("ok"@.len() == 2);
    assert("unloaded"@.len() == 8);
    assert("model"@.len() == 5);
    assert("owner_admin_id"@.len() == 14);
    assert("invalidated_generation"@.len() == 22);
    assert("resources_released"@.len() == 18);
    assert("selected_backend"@.len() == 16);
    assert("binary_exists"@.len() == 13);
    assert("models_dir"@.len() == 10);
    assert("stopped"@.len() == 7);
    assert("selected_model_preserved"@.len() == 24);
    assert("restore_status"@.len() == 14);
    assert("owner_admin_id"@[0] == 'o');
    assert("restore_status"@[0] == 'r');
    lemma_field_at(a, 0);
    lemma_field_at(a, 1);
    lemma_field_at(a, 2);
    lemma_field_at(a, 3);
    lemma_field_at(a, 4);
    lemma_field_at(a, 5);
    lemma_field_at(b, 0);
    lemma_field_at(b, 1);
    lemma_field_at(b, 2);
    lemma_field_at(b, 3);
    lemma_field_at(c, 0);
    lemma_field_at(c, 1);
    lemma_field_at(c, 2);
    lemma_field_at(c, 3);
    lemma_field_at(c, 4);
}

} // verus!
