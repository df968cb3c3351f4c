//! What a load comes to, told from the request for it.
use vstd::prelude::*;

use crate::json::{lemma_field_at, member, number_member, stated_member, texts_member, JsonView};
use crate::manager::load::{
    backend_fields, read_request, requested_backend, settings, BackendSpec, LoadRequestView,
    OutcomeView,
};
use crate::manager::loaded::{a_placed_runtime_is_found, under_key, RuntimeView};
use crate::manager::loading::{load_stepped, LoadAsk, LoadCase, LoadEvent, ModelLoad, PlannedLoad};
use crate::manager::reports::ConfigView;
use crate::manager::state::ManagerView;
use crate::runtime::laws::plans_keep_what_was_asked_for;
use crate::runtime::plan::{
    manifest_read, plan_meant, planned, ManifestView, PlanErrorView, PlanView, RequestView,
};
use crate::text::compose::{opt_text, texts};
use crate::text::number::decimal;
use crate::text::search::{before_first, starts_with};

verus! {

/// Whether an argument is a flag that sets a context size, alone or with its value.
pub open spec fn is_context_flag(family: Seq<char>, arg: Seq<char>) -> bool {
    let flag = before_first(arg, '=');
    ||| family == "vllm"@ && flag == "--max-model-len"@
    ||| family != "vllm"@ && (flag == "-c"@ || flag == "--ctx-size"@)
    ||| family != "vllm"@ && family != "llama.cpp"@ && family != "turboquant"@ && flag
        == "--max-model-len"@
}

/// A model is loaded with the context size of the request; without one, with that of the
/// launch arguments; and with the default only where neither says anything and the backend
/// takes one. It is loaded from the file that was found, under its public name where it has
/// one, and with the launch arguments of the request behind those that the backend keeps.
pub proof fn loads_have_the_settings_of_the_request(
    q: LoadRequestView,
    b: BackendSpec,
    binary_exists: bool,
    model_path: Seq<char>,
    mmproj: Option<Seq<char>>,
    args_ctx: Option<u32>,
    default_ctx: u32,
)
    requires
        settings(q, b, binary_exists, model_path, mmproj, args_ctx, default_ctx) is Ok,
    ensures
        ({
            let c = settings(
                q,
                b,
                binary_exists,
                model_path,
                mmproj,
                args_ctx,
                default_ctx,
            )->Ok_0;
            let said = exists|i: int|
                0 <= i < c.launch_args.len() && is_context_flag(
                    b.family@,
                    #[trigger] c.launch_args[i],
                );
            &&& q.ctx_size is Some ==> c.ctx_size == q.ctx_size
            &&& q.ctx_size is None && args_ctx is Some ==> c.ctx_size == args_ctx
            &&& q.ctx_size is None && args_ctx is None && b.supports_ctx_size && !said
                ==> c.ctx_size == Some(default_ctx)
            &&& q.ctx_size is None && args_ctx is None && (!b.supports_ctx_size || said)
                ==> c.ctx_size is None
            &&& c.backend_id == b.id@
            &&& c.model_path == model_path
            &&& c.mmproj == mmproj
            &&& c.public_model_id == q.public_model_id
            &&& q.public_model_id is Some ==> c.model_key == q.public_model_id->0
            &&& q.public_model_id is None ==> c.model_key == q.model
            &&& q.launch_args is None ==> c.launch_args == texts(b.default_args@)
            &&& q.launch_args is Some && b.family@ == "llama.cpp"@ && starts_with(
                b.id@,
                "llama.cpp-"@,
            ) ==> c.launch_args == texts(b.default_args@) + q.launch_args->0
            &&& q.launch_args is Some && !(b.family@ == "llama.cpp"@ && starts_with(
                b.id@,
                "llama.cpp-"@,
            )) ==> c.launch_args == q.launch_args->0
        }),
{
    reveal_strlit("vllm");
    reveal_strlit("llama.cpp");
    reveal_strlit("turboquant");
    assert("vllm"@.len() == 4 && "llama.cpp"@.len() == 9 && "turboquant"@.len() == 10);
    let args = settings(
        q,
        b,
        binary_exists,
        model_path,
        mmproj,
        args_ctx,
        default_ctx,
    )->Ok_0.launch_args;
    assert forall|i: int| 0 <= i < args.len() implies is_context_flag(
        b.family@,
        #[trigger] args[i],
    ) == crate::runtime::args::sets_ctx_size(b.family@, args[i]) by {}
}

/// A model is refused just where the backend is an embedded one, its launcher is missing, or
/// it takes no projector and there is one.
pub proof fn loads_are_refused_for_their_backend(
    q: LoadRequestView,
    b: BackendSpec,
    binary_exists: bool,
    model_path: Seq<char>,
    mmproj: Option<Seq<char>>,
    args_ctx: Option<u32>,
    default_ctx: u32,
)
    ensures
        settings(q, b, binary_exists, model_path, mmproj, args_ctx, default_ctx) is Err <==> (
        b.runtime_mode@ != "external_server"@ || !binary_exists || (mmproj is Some
            && !b.supports_mmproj)),
{
}

/// A request asks for what stands under the names of its members.
pub proof fn requests_ask_for_their_members(payload: JsonView)
    ensures
        stated_member(payload, "model"@) is None <==> read_request(payload) is Err,
        read_request(payload) matches Ok(q) ==> {
            &&& Some(q.model) == stated_member(payload, "model"@)
            &&& q.public_model_id == stated_member(payload, "public_model_id"@)
            &&& q.mmproj == stated_member(payload, "mmproj"@)
            &&& q.launch_args == texts_member(payload, "launch_args"@)
            &&& number_member(payload, "ctx_size"@) matches Some(n) ==> n <= 0xffff_ffff
                ==> q.ctx_size is Some && q.ctx_size->0 == n
            &&& q.ctx_size matches Some(n) ==> number_member(payload, "ctx_size"@) == Some(
                n as nat,
            )
            &&& number_member(payload, "backend_port"@) matches Some(n) ==> 1 <= n <= 0xffff
                ==> q.backend_port is Some && q.backend_port->0 == n
            &&& q.backend_port matches Some(n) ==> n > 0 && number_member(
                payload,
                "backend_port"@,
            ) == Some(n as nat)
        },
{
}

/// A request is for the backend that it names, else for the selected one, and only then for
/// the recommended one.
pub proof fn named_backends_go_first(
    payload: JsonView,
    selected: Option<Seq<char>>,
    recommended: Option<Seq<char>>,
)
    ensures
        stated_member(payload, "backend"@) matches Some(b) ==> requested_backend(
            payload,
            selected,
            recommended,
        ) == Ok::<Seq<char>, Seq<char>>(b),
        stated_member(payload, "backend"@) is None && selected is Some ==> requested_backend(
            payload,
            selected,
            recommended,
        ) == Ok::<Seq<char>, Seq<char>>(selected->0),
        stated_member(payload, "backend"@) is None && selected is None && recommended is Some
            ==> requested_backend(payload, selected, recommended) == Ok::<Seq<char>, Seq<char>>(
            recommended->0,
        ),
        stated_member(payload, "backend"@) is None && selected is None && recommended is None
            ==> requested_backend(payload, selected, recommended) is Err,
{
}

/// The value of an optional text: null where there is none.
pub open spec fn opt_value(o: Option<Seq<char>>) -> JsonView {
    match o {
        Some(s) => JsonView::Text(s),
        None => JsonView::Null,
    }
}

/// Whether a value is an array of the given texts.
pub open spec fn is_texts(v: Option<JsonView>, all: Seq<Seq<char>>) -> bool {
    v matches Some(JsonView::Array(items)) && items.len() == all.len() && forall|i: int|
        0 <= i < all.len() ==> #[trigger] items[i] == JsonView::Text(all[i])
}

/// A backend is handed on with everything that is known of it, each under its name.
pub proof fn backends_are_handed_on(b: BackendSpec)
    ensures
        member(backend_fields(b), "id"@) == Some(JsonView::Text(b.id@)),
        member(backend_fields(b), "family"@) == Some(JsonView::Text(b.family@)),
        member(backend_fields(b), "runtime_dir"@) == Some(JsonView::Text(b.runtime_dir@)),
        member(backend_fields(b), "launcher_path"@) == Some(opt_value(opt_text(b.launcher_path))),
        member(backend_fields(b), "models_dir"@) == Some(opt_value(opt_text(b.models_dir))),
        is_texts(member(backend_fields(b), "capabilities"@), texts(b.capabilities@)),
        is_texts(member(backend_fields(b), "default_args"@), texts(b.default_args@)),
        member(backend_fields(b), "runtime_mode"@) == Some(JsonView::Text(b.runtime_mode@)),
        member(backend_fields(b), "model_artifact"@) == Some(JsonView::Text(b.model_artifact@)),
        member(backend_fields(b), "supports_mmproj"@) == Some(JsonView::Bool(b.supports_mmproj)),
        member(backend_fields(b), "supports_ctx_size"@) == Some(
            JsonView::Bool(b.supports_ctx_size),
        ),
        member(backend_fields(b), "external_server_protocol"@) == Some(
            opt_value(opt_text(b.external_server_protocol)),
        ),
        member(backend_fields(b), "log_file_name"@) == Some(JsonView::Text(b.log_file_name@)),
{
    let fields = backend_fields(b)->Object_0;
    reveal_strlit("id");
    reveal_strlit("family");
    reveal_strlit("runtime_dir");
    reveal_strlit("launcher_path");
    reveal_strlit("models_dir");
    reveal_strlit("capabilities");
    reveal_strlit("default_args");
    reveal_strlit("runtime_mode");
    reveal_strlit("model_artifact");
    reveal_strlit("supports_mmproj");
    reveal_strlit("supports_ctx_size");
    reveal_strlit("external_server_protocol");
    reveal_strlit("log_file_name");
    assert("id"@.len() == 2);
    assert("family"@.len() == 6);
    assert("runtime_dir"@.len() == 11);
    assert("launcher_path"@.len() == 13);
    assert("models_dir"@.len() == 10);
    assert("capabilities"@.len() == 12);
    assert("default_args"@.len() == 12);
    assert("runtime_mode"@.len() == 12);
    assert("model_artifact"@.len() == 14);
    assert("supports_mmproj"@.len() == 15);
    assert("supports_ctx_size"@.len() == 17);
    assert("external_server_protocol"@.len() == 24);
    assert("log_file_name"@.len() == 13);
    assert("launcher_path"@[1] == 'a');
    assert("log_file_name"@[1] == 'o');
    assert("capabilities"@[0] == 'c');
    assert("default_args"@[0] == 'd');
    assert("runtime_mode"@[0] == 'r');
    assert(fields.len() == 13);
    lemma_field_at(fields, 0);
    lemma_field_at(fields, 1);
    lemma_field_at(fields, 2);
    lemma_field_at(fields, 3);
    lemma_field_at(fields, 4);
    lemma_field_at(fields, 5);
    lemma_field_at(fields, 6);
    lemma_field_at(fields, 7);
    lemma_field_at(fields, 8);
    lemma_field_at(fields, 9);
    lemma_field_at(fields, 10);
    lemma_field_at(fields, 11);
    lemma_field_at(fields, 12);
}

/// Whether a load in a state is the one that was asked for: its request is what the payload
/// says, its settings are those of the request, and its plan is one for these settings.
pub open spec fn is_the_load_of(s: ModelLoad, ask: LoadAsk) -> bool {
    match s {
        ModelLoad::Look(a) => a == ask,
        ModelLoad::FindBackend { ask: a, request, id } => a == ask && read_request(
            ask.payload@,
        ) == Ok::<LoadRequestView, Seq<char>>(request@),
        ModelLoad::LookAtModel { case, path } => is_the_case_of(case, ask)
            && case.backend.model_artifact@ != "reference"@,
        ModelLoad::SearchDirectory { case, path } => is_the_case_of(case, ask)
            && case.backend.model_artifact@ != "reference"@,
        ModelLoad::LookAtProjector { case, model_path, path } => is_the_case_of(case, ask)
            && is_the_model_of(case, model_path@),
        ModelLoad::FindProjector { case, model_path } => is_the_case_of(case, ask)
            && is_the_model_of(case, model_path@) && case.request.mmproj is None,
        ModelLoad::ReadArguments { case, files, args } => is_the_case_of(case, ask)
            && is_the_model_of(case, files.model_path@) && (case.request.mmproj is Some
            ==> files.mmproj is Some),
        ModelLoad::PickPort { case, config } => is_the_case_of(case, ask) && are_the_settings_of(
            case,
            config@,
        ) && case.request.backend_port is None,
        ModelLoad::ReadLauncher { case, config, port } => is_the_case_of(case, ask)
            && are_the_settings_of(case, config@) && (case.request.backend_port is Some ==> port
            == case.request.backend_port->0),
        ModelLoad::FindDevices(p) => is_the_plan_of(p, ask),
        ModelLoad::Measure(p) => is_the_plan_of(p.planned, ask),
        ModelLoad::LookAtMachine(l) => is_the_plan_of(l.placed.planned, ask),
        ModelLoad::Start { load, reservation } => is_the_plan_of(load.placed.planned, ask),
        ModelLoad::Save { load, reservation, process } => is_the_plan_of(
            load.placed.planned,
            ask,
        ),
        _ => true,
    }
}

/// Whether a case is one of the given ask.
pub open spec fn is_the_case_of(case: LoadCase, ask: LoadAsk) -> bool {
    case.ask == ask && read_request(ask.payload@) == Ok::<LoadRequestView, Seq<char>>(
        case.request@,
    )
}

/// Whether a path can be that of the model of a case: a model that is only referred to is
/// taken by its name.
pub open spec fn is_the_model_of(case: LoadCase, path: Seq<char>) -> bool {
    case.backend.model_artifact@ == "reference"@ ==> path == case.request.model@
}

/// Whether settings are those that the request of a case asks for.
pub open spec fn are_the_settings_of(case: LoadCase, c: ConfigView) -> bool {
    let q = case.request@;
    &&& q.ctx_size is Some ==> c.ctx_size == q.ctx_size
    &&& c.backend_id == case.backend.id@
    &&& c.public_model_id == q.public_model_id
    &&& q.public_model_id is Some ==> c.model_key == q.public_model_id->0
    &&& q.public_model_id is None ==> c.model_key == q.model
    &&& q.mmproj is Some ==> c.mmproj is Some
    &&& c.mmproj is Some ==> case.backend.supports_mmproj
    &&& is_the_model_of(case, c.model_path)
    &&& q.launch_args is None ==> c.launch_args == texts(case.backend.default_args@)
    &&& q.launch_args matches Some(args) ==> c.launch_args == args || c.launch_args == texts(
        case.backend.default_args@,
    ) + args
}

/// Whether a plan is one for the settings of its load: it listens on the host of the ask, on
/// the port of the request where that has one, and with the context size of the settings.
pub open spec fn is_the_plan_of(p: PlannedLoad, ask: LoadAsk) -> bool {
    &&& is_the_case_of(p.case, ask)
    &&& are_the_settings_of(p.case, p.config@)
    &&& p.config.ctx_size is Some ==> p.plan@.ctx_size == p.config.ctx_size
    &&& p.case.request.backend_port is Some ==> p.plan@.port == p.case.request.backend_port->0
    &&& p.plan@.client_endpoint == "http://"@ + ask.host@ + ":"@ + decimal(p.plan@.port as nat)
    &&& exists|q: RequestView, manifest: Result<ManifestView, Seq<char>>, wsl: Seq<char>|
        {
            &&& #[trigger] plan_meant(q, manifest, wsl, Ok::<PlanView, PlanErrorView>(p.plan@))
            &&& q.model_path == p.config@.model_path
            &&& q.mmproj_path == p.config@.mmproj
            &&& q.host == ask.host@
            &&& q.ctx_size == p.config@.ctx_size
            &&& q.launch_args == Some(p.config@.launch_args)
            &&& member(q.backend, "id"@) == Some(JsonView::Text(p.case.backend.id@))
        }
}

/// Every step of a load keeps to what was asked for.
pub proof fn steps_keep_to_the_request(
    m: ManagerView,
    s: ModelLoad,
    e: LoadEvent,
    m2: ManagerView,
    s2: ModelLoad,
    ask: LoadAsk,
)
    requires
        is_the_load_of(s, ask),
        load_stepped(m, s, e, m2, s2),
    ensures
        is_the_load_of(s2, ask),
{
    match (s, e) {
        (ModelLoad::ReadArguments { case, files, args }, LoadEvent::ArgumentsRead(ctx)) => {
            let asked = settings(
                case.request@,
                case.backend,
                true,
                files.model_path@,
                opt_text(files.mmproj),
                ctx,
                case.ask.default_ctx,
            );
            if asked is Ok {
                loads_have_the_settings_of_the_request(
                    case.request@,
                    case.backend,
                    true,
                    files.model_path@,
                    opt_text(files.mmproj),
                    ctx,
                    case.ask.default_ctx,
                );
                assert(are_the_settings_of(case, asked->Ok_0));
            }
        },
        (
            ModelLoad::ReadLauncher { case, config, port },
            LoadEvent::Launcher { manifest, wsl },
        ) => {
            let q = crate::manager::loading::plan_request(case, config@, port);
            let outcome = choose|outcome: Result<PlanView, PlanErrorView>|
                {
                    &&& #[trigger] plan_meant(q, manifest_read(manifest), wsl@, outcome)
                    &&& match outcome {
                        Err(e) => crate::manager::loading::failed_with(
                            s2,
                            crate::runtime::plan::plan_error_message(e),
                        ),
                        Ok(plan) => {
                            &&& s2 matches ModelLoad::FindDevices(p)
                            &&& p.case == case
                            &&& p.config == config
                            &&& p.plan@ == plan
                        },
                    }
                };
            if let Ok(plan) = outcome {
                lemma_plan_for(q, manifest_read(manifest), wsl@, plan);
                backends_are_handed_on(case.backend);
                let p = s2->FindDevices_0;
                assert(plan_meant(
                    q,
                    manifest_read(manifest),
                    wsl@,
                    Ok::<PlanView, PlanErrorView>(p.plan@),
                ));
            }
        },
        _ => {},
    }
}

proof fn lemma_plan_for(
    q: RequestView,
    manifest: Result<ManifestView, Seq<char>>,
    wsl: Seq<char>,
    plan: PlanView,
)
    requires
        plan_meant(q, manifest, wsl, Ok::<PlanView, PlanErrorView>(plan)),
    ensures
        plan.port == q.port,
        q.ctx_size is Some ==> plan.ctx_size == q.ctx_size,
        plan.client_endpoint == "http://"@ + q.host + ":"@ + decimal(q.port as nat),
{
    let (parent, log_dir) = choose|parent: Option<Seq<char>>, log_dir: Seq<char>|
        Ok::<PlanView, PlanErrorView>(plan) == #[trigger] planned(
            q,
            manifest,
            wsl,
            parent,
            log_dir,
        );
    plans_keep_what_was_asked_for(q, manifest, wsl, parent, log_dir);
}

/// Whether states and managers are those of a load that was asked for, event by event.
pub open spec fn is_course(
    ask: LoadAsk,
    ms: Seq<ManagerView>,
    ss: Seq<ModelLoad>,
    es: Seq<LoadEvent>,
) -> bool {
    &&& ss.len() == es.len() + 1
    &&& ms.len() == ss.len()
    &&& ss[0] == ModelLoad::Look(ask)
    &&& forall|i: int|
        0 <= i < es.len() ==> load_stepped(
            ms[i],
            ss[i],
            #[trigger] es[i],
            ms[i + 1],
            ss[i + 1],
        )
}

/// Whatever happens in the course of a load, the runtime that is planned for a payload with a
/// valid context size has that context size, and the one for a payload with a valid port has
/// that port.
pub proof fn a_load_keeps_to_its_payload(
    ask: LoadAsk,
    ms: Seq<ManagerView>,
    ss: Seq<ModelLoad>,
    es: Seq<LoadEvent>,
    i: int,
)
    requires
        is_course(ask, ms, ss, es),
        0 <= i < ss.len(),
    ensures
        is_the_load_of(ss[i], ask),
        ss[i] matches ModelLoad::FindDevices(p) ==> {
            &&& number_member(ask.payload@, "ctx_size"@) matches Some(n) ==> n <= 0xffff_ffff
                ==> p.plan@.ctx_size is Some && p.plan@.ctx_size->0 == n && p.config.ctx_size
                is Some && p.config.ctx_size->0 == n
            &&& number_member(ask.payload@, "backend_port"@) matches Some(n) ==> 1 <= n <= 0xffff
                ==> p.plan@.port == n
            &&& stated_member(ask.payload@, "public_model_id"@) matches Some(id)
                ==> p.config@.model_key == id
        },
    decreases i,
{
    if i > 0 {
        a_load_keeps_to_its_payload(ask, ms, ss, es, i - 1);
        assert(load_stepped(ms[i - 1], ss[i - 1], es[i - 1], ms[i], ss[i]));
        steps_keep_to_the_request(ms[i - 1], ss[i - 1], es[i - 1], ms[i], ss[i], ask);
    }
    if let ModelLoad::FindDevices(p) = ss[i] {
        requests_ask_for_their_members(ask.payload@);
        assert(p.case.request@.ctx_size == p.case.request.ctx_size);
        assert(p.config@.ctx_size == p.config.ctx_size);
    }
}

/// Whether a runtime is what a planned load has started: it has the key, the file, the
/// projector, the arguments and the backend of the settings, the context size, the protocol
/// and the address of the plan, and the process that was started.
pub open spec fn runs(r: RuntimeView, p: PlannedLoad, process: crate::runtime::process::ProcessView) -> bool {
    &&& r.model_key == p.config@.model_key
    &&& r.backend_id == p.config@.backend_id
    &&& r.model == p.config@.model_path
    &&& r.public_model_id == p.config@.public_model_id
    &&& r.mmproj == p.config@.mmproj
    &&& r.launch_args == p.config@.launch_args
    &&& r.ctx_size == p.plan@.ctx_size
    &&& r.external_server_protocol == p.plan@.protocol
    &&& r.client_endpoint == p.plan@.client_endpoint
    &&& r.proxy_model_ref == p.plan@.proxy_model_ref
    &&& r.owner_admin_id == opt_text(p.case.ask.owner_admin_id)
    &&& r.process == process
}

/// A load that succeeds leaves the runtime that it has started under its key, ready, as the
/// default, with its budget, its own numbers and its devices; every other runtime stays.
pub proof fn started_loads_are_recorded(
    m: ManagerView,
    s: ModelLoad,
    m2: ManagerView,
    s2: ModelLoad,
)
    requires
        m.wf(),
        s is Save,
        load_stepped(m, s, LoadEvent::Saved(Ok(())), m2, s2),
        s2 is Answered,
    ensures
        ({
            let load = s->Save_load;
            let key = load.placed.planned.config@.model_key;
            let r = under_key(m2.loaded, key)->0;
            &&& under_key(m2.loaded, key) is Some
            &&& runs(r, load.placed.planned, s->process@)
            &&& r.resource_budget == load.budget@
            &&& r.route_state is Ready
            &&& r.generation == m.next_generation
            &&& m2.next_generation == m.next_generation + 1
            &&& r.allocation_id.value == m.ledger->0.next_id
            &&& load.placed.selection matches Some(chosen) ==> r.cuda_visible_devices == Some(
                chosen.visible_devices@,
            )
            &&& load.placed.selection is None ==> r.cuda_visible_devices is None
            &&& m2.default_model_key == Some(key)
            &&& m2.selected_backend == Some(load.placed.planned.config@.backend_id)
            &&& s2->Answered_0@ is Success
        }),
{
    let load = s->Save_load;
    let r = choose|r: RuntimeView|
        {
            &&& #[trigger] crate::manager::loading::is_loads_runtime(load, s->process@, r)
            &&& m2 == crate::manager::load::with_started(m, s->Save_reservation.value, r)
            &&& s2 matches ModelLoad::Answered(o)
            &&& o@ == OutcomeView::Success(
                crate::manager::reports::load_payload(
                    crate::manager::load::numbered(m, r),
                    false,
                ),
            )
        };
    a_placed_runtime_is_found(m.loaded, crate::manager::load::numbered(m, r));
}

} // verus!
