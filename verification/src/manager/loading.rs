//! The whole of a load, from the request to the answer.
//!
//! A load is a machine: it says what to look at or to do next, and is told how that
//! went. What it decides in between, and what it does to the manager, is all here.
use vstd::prelude::*;

use crate::failure::{plain_result, text_result, Failure};
use crate::json::Json;
use crate::manager::admission::{admitted, given_back, ledger_or_empty};
use crate::manager::load::{
    answered, backend_fields, backend_payload, backend_refusal, budget_devices, check_backend,
    load_settings, log_file_name, model_log_file_name, model_meant, new_runtime,
    numbered, path_for_backend, path_meant, path_refusal, read_load_request, read_request,
    record_refusal, requested_backend, resolve_model_for_backend, resolve_path_for_backend,
    settings, started_runtime, takes_references, with_started, BackendSpec, LoadModelOutcome,
    LoadRequest, ModelStep, OutcomeView,
};
use crate::manager::loaded::{a_placed_runtime_is_found, under_key, RuntimeView};
use crate::manager::reports::{load_payload, ConfigView, RequestedRuntimeConfig};
use crate::manager::state::{reaped, ManagerView, ProcessPoll, RustRuntimeManager};
use crate::paths::{
    extended, joined_path, lemma_not_verbatim, path_join, separator, surely_relative, twin_start,
};
use crate::resources::budget::{totals, BudgetView, ResourceBudget};
use crate::resources::domains::DomainBytes;
use crate::resources::estimate::{budgeted, build_runtime_resource_budget};
use crate::resources::ledger::{has_holding, ReservationId};
use crate::runtime::args::{merged, merged_launch_args};
use crate::runtime::plan::{
    build_external_runtime_plan, manifest_read, plan_error_message, plan_meant, plan_outcome,
    ExternalRuntimePlan, ExternalRuntimeRequest, PlanErrorView, PlanView, RequestView,
    WslVllmLauncherManifest,
};
use crate::runtime::process::{
    process_error_message, ProcessView, RuntimeProcess, RuntimeProcessError,
};
use crate::text::compose::{
    copy_opt, copy_texts, has_item, joined, no_texts, opt_text, opt_texts, texts,
};

verus! {

/// What a load starts from.
pub struct LoadAsk {
    pub payload: Json,
    /// The host that the runtime listens on.
    pub host: String,
    pub owner_admin_id: Option<String>,
    /// The home directory, where it is known.
    pub home: Option<String>,
    /// The context size that a model gets where nothing else says one.
    pub default_ctx: u32,
    /// Whether the machine has one memory for all.
    pub unified: bool,
}

/// A load whose backend is known and can run models.
pub struct LoadCase {
    pub ask: LoadAsk,
    pub request: LoadRequest,
    pub backend: BackendSpec,
}

/// The files of a model.
pub struct ModelFiles {
    pub model_path: String,
    pub mmproj: Option<String>,
}

/// The CUDA devices that a runtime is confined to, and what there is to warn of.
pub struct CudaSelection {
    pub visible_devices: String,
    pub warning: Option<String>,
}

/// A load whose runtime has been planned.
pub struct PlannedLoad {
    pub case: LoadCase,
    pub config: RequestedRuntimeConfig,
    pub plan: ExternalRuntimePlan,
    pub log_path: String,
}

/// A load whose devices are known. `devices` are those that a budget is made for.
pub struct PlacedLoad {
    pub planned: PlannedLoad,
    pub selection: Option<CudaSelection>,
    pub devices: Option<String>,
}

/// A load whose budget is known.
pub struct BudgetedLoad {
    pub placed: PlacedLoad,
    pub budget: ResourceBudget,
}

/// What a load does next, or how it ended.
pub enum ModelLoad {
    /// Look at all runtimes, and whether the gateway shuts down.
    Look(LoadAsk),
    /// Look up the backend with the given name.
    FindBackend { ask: LoadAsk, request: LoadRequest, id: String },
    /// Look what is at the path of the model.
    LookAtModel { case: LoadCase, path: String },
    /// Look for the files of the model in a directory.
    SearchDirectory { case: LoadCase, path: String },
    /// Look what is at the path of the projector.
    LookAtProjector { case: LoadCase, model_path: String, path: String },
    /// Look for a projector that fits the model.
    FindProjector { case: LoadCase, model_path: String },
    /// Read the context size that launch arguments set.
    ReadArguments { case: LoadCase, files: ModelFiles, args: Vec<String> },
    /// Remember the settings of a model that is already loaded.
    SaveAnswer { config: RequestedRuntimeConfig, answer: Json },
    /// Find a free port.
    PickPort { case: LoadCase, config: RequestedRuntimeConfig },
    /// Read the launcher file, where there is one to read.
    ReadLauncher { case: LoadCase, config: RequestedRuntimeConfig, port: u16 },
    /// Find the devices that the runtime is to use.
    FindDevices(PlannedLoad),
    /// Look how large the model and its projector are.
    Measure(PlacedLoad),
    /// Look how much memory is free.
    LookAtMachine(BudgetedLoad),
    /// Start the runtime.
    Start { load: BudgetedLoad, reservation: ReservationId },
    /// Remember the settings of the runtime that was started.
    Save { load: BudgetedLoad, reservation: ReservationId, process: RuntimeProcess },
    /// End a process that was started in vain.
    EndProcess { started: ProcessToEnd, error: Failure },
    Answered(LoadModelOutcome),
    Failed(Failure),
}

/// A process that was started and is not kept.
pub struct ProcessToEnd {
    pub pid: u32,
    pub stop_command: Option<Vec<String>>,
}

/// What was seen or done.
pub enum LoadEvent {
    Looked { shutting_down: bool, polls: Vec<ProcessPoll>, recommended: Option<String> },
    /// The backend, where there is one of that name, and whether its launcher is there.
    Backend(Option<(BackendSpec, bool)>),
    /// What is at a path.
    Place { present: bool, is_dir: bool },
    /// What was found in a directory.
    Files(Result<ModelFiles, Failure>),
    Projector(Option<String>),
    ArgumentsRead(Option<u32>),
    Saved(Result<(), Failure>),
    Port(Result<u16, Failure>),
    /// What the launcher file says, and the path of the WSL program.
    Launcher { manifest: Result<WslVllmLauncherManifest, String>, wsl: String },
    /// The selected devices, and all that there are, which only counts where none is
    /// selected.
    Devices { selection: Option<CudaSelection>, detected: Result<Vec<String>, Failure> },
    /// The sizes of the model and of its projector.
    Sizes { weights: Result<Option<u64>, Failure>, projector: Result<Option<u64>, Failure> },
    Machine(Result<DomainBytes, Failure>),
    Started(Result<RuntimeProcess, RuntimeProcessError>),
    Ended,
}

/// Whether a load has failed with the given message.
pub open spec fn failed_with(s: ModelLoad, message: Seq<char>) -> bool {
    s matches ModelLoad::Failed(e) && e@ == message
}

/// After a look at all runtimes.
pub open spec fn looked(
    m: ManagerView,
    ask: LoadAsk,
    shutting_down: bool,
    polls: Seq<ProcessPoll>,
    recommended: Option<Seq<char>>,
    m2: ManagerView,
    s2: ModelLoad,
) -> bool {
    if shutting_down {
        m2 == m && failed_with(s2, "gateway is shutting down"@)
    } else {
        m2 == reaped(m, polls) && match read_request(ask.payload@) {
            Err(message) => failed_with(s2, message),
            Ok(q) => match requested_backend(ask.payload@, m2.selected_backend, recommended) {
                Err(message) => failed_with(s2, message),
                Ok(b) => {
                    &&& s2 matches ModelLoad::FindBackend { ask: ask2, request, id }
                    &&& ask2 == ask
                    &&& request@ == q
                    &&& id@ == b
                },
            },
        }
    }
}

/// Once the files are known: a projector needs a backend that takes one.
pub open spec fn files_known(
    case: LoadCase,
    model_path: Seq<char>,
    mmproj: Option<Seq<char>>,
    s2: ModelLoad,
) -> bool {
    if mmproj is Some && !case.backend.supports_mmproj {
        failed_with(s2, case.backend.id@ + " does not support mmproj inputs"@)
    } else {
        &&& s2 matches ModelLoad::ReadArguments { case: case2, files, args }
        &&& case2 == case
        &&& files.model_path@ == model_path
        &&& opt_text(files.mmproj) == mmproj
        &&& texts(args@) == merged(
            case.backend.id@,
            case.backend.family@,
            texts(case.backend.default_args@),
            opt_texts(case.request.launch_args),
        )
    }
}

/// Once the model is found: its projector is the one that is asked for, the one found
/// with the model, or one that fits.
pub open spec fn model_found(
    case: LoadCase,
    model: Seq<char>,
    found: Option<Seq<char>>,
    s2: ModelLoad,
) -> bool {
    match case.request.mmproj {
        Some(text) => exists|meant: Result<Seq<char>, Seq<char>>|
            {
                &&& #[trigger] path_meant(
                    text@,
                    opt_text(case.ask.home),
                    opt_text(case.backend.models_dir),
                    "mmproj file"@,
                    meant,
                )
                &&& match meant {
                    Err(message) => failed_with(s2, message),
                    Ok(p) => {
                        &&& s2 matches ModelLoad::LookAtProjector { case: case2, model_path, path }
                        &&& case2 == case
                        &&& model_path@ == model
                        &&& path@ == p
                    },
                }
            },
        None => if found is Some {
            files_known(case, model, found, s2)
        } else {
            &&& s2 matches ModelLoad::FindProjector { case: case2, model_path }
            &&& case2 == case
            &&& model_path@ == model
        },
    }
}

/// After a backend was looked up.
pub open spec fn backend_found(
    ask: LoadAsk,
    request: LoadRequest,
    id: Seq<char>,
    found: Option<(BackendSpec, bool)>,
    s2: ModelLoad,
) -> bool {
    match found {
        None => failed_with(s2, "unsupported backend: "@ + id),
        Some((backend, launcher)) => {
            let new_case = LoadCase { ask, request, backend };
            if backend_refusal(backend, launcher) is Some {
                failed_with(s2, backend_refusal(backend, launcher)->0)
            } else if backend.model_artifact@ == "reference"@ {
                model_found(new_case, request.model@, None, s2)
            } else {
                exists|meant: Result<Seq<char>, Seq<char>>|
                    {
                        &&& #[trigger] path_meant(
                            request.model@,
                            opt_text(ask.home),
                            opt_text(backend.models_dir),
                            "model"@,
                            meant,
                        )
                        &&& match meant {
                            Err(message) => failed_with(s2, message),
                            Ok(p) => {
                                &&& s2 matches ModelLoad::LookAtModel { case, path }
                                &&& case == new_case
                                &&& path@ == p
                            },
                        }
                    }
            }
        },
    }
}

/// After a look at the path of the model.
pub open spec fn model_seen(
    case: LoadCase,
    path: String,
    present: bool,
    is_dir: bool,
    s2: ModelLoad,
) -> bool {
    let artifact = case.backend.model_artifact@;
    if path_refusal(path@, "model"@, artifact, present, is_dir) is Some {
        failed_with(s2, path_refusal(path@, "model"@, artifact, present, is_dir)->0)
    } else {
        exists|step: Result<ModelStep, Seq<char>>|
            {
                &&& #[trigger] model_meant(path@, artifact, is_dir, step)
                &&& match step {
                    Err(message) => failed_with(s2, message),
                    Ok(ModelStep::SearchDirectory) => s2 == (ModelLoad::SearchDirectory {
                        case,
                        path,
                    }),
                    Ok(ModelStep::UsePath) => model_found(case, path@, None, s2),
                }
            }
    }
}

/// The settings that a load asks for.
pub open spec fn asked_settings(
    case: LoadCase,
    files: ModelFiles,
    args_ctx: Option<u32>,
) -> Result<ConfigView, Seq<char>> {
    settings(
        case.request@,
        case.backend,
        true,
        files.model_path@,
        opt_text(files.mmproj),
        args_ctx,
        case.ask.default_ctx,
    )
}

/// Once the settings are known: what is loaded already is answered for.
pub open spec fn settled(
    m: ManagerView,
    case: LoadCase,
    files: ModelFiles,
    args_ctx: Option<u32>,
    m2: ManagerView,
    s2: ModelLoad,
) -> bool {
    match asked_settings(case, files, args_ctx) {
        Err(message) => m2 == m && failed_with(s2, message),
        Ok(c) => m2 == answered(m, c).0 && match answered(m, c).1 {
            Some(OutcomeView::ReloadRequired(payload)) => s2 matches ModelLoad::Answered(o) && o@
                == OutcomeView::ReloadRequired(payload),
            Some(OutcomeView::Success(payload)) => s2 matches ModelLoad::SaveAnswer {
                config,
                answer,
            } && config@ == c && answer@ == payload,
            None => match case.request.backend_port {
                Some(p) => s2 matches ModelLoad::ReadLauncher { case: case2, config, port } && case2
                    == case && config@ == c && port == p,
                None => s2 matches ModelLoad::PickPort { case: case2, config } && case2 == case
                    && config@ == c,
            },
        },
    }
}

/// The request for a plan that a load makes.
pub open spec fn plan_request(case: LoadCase, c: ConfigView, port: u16) -> RequestView {
    RequestView {
        backend: backend_fields(case.backend),
        model_path: c.model_path,
        mmproj_path: c.mmproj,
        host: case.ask.host@,
        port,
        ctx_size: c.ctx_size,
        launch_args: Some(c.launch_args),
    }
}

/// Whether a path is that of the log file of a load.
pub open spec fn is_log_path(dir: Seq<char>, plan: PlanView, key: Seq<char>, r: Seq<char>) -> bool {
    exists|logs: Seq<char>|
        #[trigger] joined_path(dir, "logs"@, logs) && joined_path(
            logs,
            log_file_name(plan.log_file_name, key),
            r,
        )
}

/// The log of a load lies in the directory for logs of its backend.
pub proof fn logs_lie_in_their_directory(
    dir: Seq<char>,
    plan: PlanView,
    key: Seq<char>,
    r: Seq<char>,
)
    requires
        is_log_path(dir, plan, key, r),
        dir.len() > 0,
        !separator(dir.last()),
        dir.last() != ':',
        !twin_start(dir),
        surely_relative(log_file_name(plan.log_file_name, key)),
    ensures
        exists|a: char, b: char|
            #![trigger separator(a), separator(b)]
            separator(a) && separator(b) && r == dir + seq![a] + "logs"@ + seq![b]
                + log_file_name(plan.log_file_name, key),
{
    reveal_strlit("logs");
    lemma_not_verbatim(dir);
    let name = log_file_name(plan.log_file_name, key);
    let logs = choose|logs: Seq<char>| #[trigger]
        joined_path(dir, "logs"@, logs) && joined_path(logs, name, r);
    assert(extended(dir, "logs"@, logs));
    let a = logs[dir.len() as int];
    assert(logs =~= dir + seq![a] + "logs"@);
    assert(!twin_start(logs));
    lemma_not_verbatim(logs);
    let b = r[logs.len() as int];
    assert(r =~= dir + seq![a] + "logs"@ + seq![b] + name);
    assert(separator(a) && separator(b));
}

/// After the launcher file was read.
pub open spec fn launcher_read(
    case: LoadCase,
    config: RequestedRuntimeConfig,
    port: u16,
    manifest: Result<WslVllmLauncherManifest, String>,
    wsl: Seq<char>,
    s2: ModelLoad,
) -> bool {
    exists|outcome: Result<PlanView, PlanErrorView>|
        {
            &&& #[trigger] plan_meant(
                plan_request(case, config@, port),
                manifest_read(manifest),
                wsl,
                outcome,
            )
            &&& match outcome {
                Err(e) => failed_with(s2, plan_error_message(e)),
                Ok(plan) => {
                    &&& s2 matches ModelLoad::FindDevices(p)
                    &&& p.case == case
                    &&& p.config == config
                    &&& p.plan@ == plan
                    &&& is_log_path(case.backend.runtime_dir@, plan, config@.model_key, p.log_path@)
                },
            }
        }
}

/// After the devices were found. They count for a backend with CUDA only.
pub open spec fn devices_found(
    planned: PlannedLoad,
    selection: Option<CudaSelection>,
    detected: Result<Vec<String>, Failure>,
    s2: ModelLoad,
) -> bool {
    let cuda = texts(planned.case.backend.capabilities@).contains("cuda"@);
    if cuda && selection is None && detected is Err {
        failed_with(s2, detected->Err_0@)
    } else {
        &&& s2 matches ModelLoad::Measure(p)
        &&& p.planned == planned
        &&& p.selection == selection
        &&& opt_text(p.devices) == (if !cuda {
            None
        } else {
            match selection {
                Some(chosen) => Some(chosen.visible_devices@),
                None => Some(joined(texts(detected->Ok_0@), ","@)),
            }
        })
    }
}

/// The budget of a load. A projector counts where there is one.
pub open spec fn load_budget(
    p: PlacedLoad,
    weights: Result<Option<u64>, Failure>,
    projector: Result<Option<u64>, Failure>,
) -> Result<BudgetView, Seq<char>> {
    let case = p.planned.case;
    budgeted(
        case.ask.payload@,
        texts(case.backend.capabilities@),
        plain_result(weights),
        if p.planned.config.mmproj is Some {
            plain_result(projector)
        } else {
            Ok(None)
        },
        match p.planned.plan.ctx_size {
            Some(n) => n as nat,
            None => case.ask.default_ctx as nat,
        },
        case.ask.default_ctx as nat,
        opt_text(p.devices),
        p.selection is None && p.devices is Some,
        case.ask.unified,
    )
}

/// After the model was measured.
pub open spec fn measured(
    p: PlacedLoad,
    weights: Result<Option<u64>, Failure>,
    projector: Result<Option<u64>, Failure>,
    s2: ModelLoad,
) -> bool {
    match load_budget(p, weights, projector) {
        Err(message) => failed_with(s2, message),
        Ok(b) => s2 matches ModelLoad::LookAtMachine(load) && load.placed == p && load.budget@ == b,
    }
}

/// After a look at the machine: what the runtime needs is reserved.
pub open spec fn machine_seen(
    m: ManagerView,
    load: BudgetedLoad,
    observed: Result<DomainBytes, Failure>,
    m2: ManagerView,
    s2: ModelLoad,
) -> bool {
    match observed {
        Err(e) => m2 == m && failed_with(s2, e@),
        Ok(free) => {
            let (after, outcome) = admitted(
                m,
                load.placed.planned.config@.model_key,
                load.budget@.domains,
                free@,
            );
            m2 == after && match outcome {
                Err(message) => failed_with(s2, message),
                Ok(id) => s2 == (ModelLoad::Start { load, reservation: ReservationId { value: id } }),
            }
        },
    }
}

/// After an attempt to start the runtime: where it failed, the reservation is given back.
pub open spec fn attempted(
    m: ManagerView,
    load: BudgetedLoad,
    reservation: ReservationId,
    outcome: Result<RuntimeProcess, RuntimeProcessError>,
    m2: ManagerView,
    s2: ModelLoad,
) -> bool {
    match outcome {
        Err(e) => m2 == given_back(m, reservation.value) && failed_with(
            s2,
            process_error_message(e@),
        ),
        Ok(process) => m2 == m && s2 == (ModelLoad::Save { load, reservation, process }),
    }
}

/// Whether a process is to be ended because of the given failure.
pub open spec fn ends_process(s: ModelLoad, p: ProcessView, message: Seq<char>) -> bool {
    &&& s matches ModelLoad::EndProcess { started, error }
    &&& started.pid == p.info.pid
    &&& opt_texts(started.stop_command) == p.stop_command
    &&& error@ == message
}

/// The runtime that a load has started.
pub open spec fn is_loads_runtime(
    load: BudgetedLoad,
    process: ProcessView,
    r: RuntimeView,
) -> bool {
    let planned = load.placed.planned;
    &&& started_runtime(
        planned.config@,
        opt_text(planned.case.ask.owner_admin_id),
        planned.plan@,
        process,
        match load.placed.selection {
            Some(chosen) => Some(chosen.visible_devices@),
            None => None,
        },
        match load.placed.selection {
            Some(chosen) => opt_text(chosen.warning),
            None => None,
        },
        r,
    )
    &&& r.resource_budget == load.budget@
}

/// The manager after a runtime that was started could not be recorded.
pub open spec fn unrecorded(m: ManagerView, id: u64) -> ManagerView {
    given_back(
        ManagerView {
            next_generation: if m.next_generation == u64::MAX {
                u64::MAX
            } else {
                (m.next_generation + 1) as u64
            },
            ..m
        },
        id,
    )
}

/// After the settings were remembered: the runtime is recorded.
pub open spec fn remembered(
    m: ManagerView,
    load: BudgetedLoad,
    reservation: ReservationId,
    process: ProcessView,
    outcome: Result<(), Failure>,
    m2: ManagerView,
    s2: ModelLoad,
) -> bool {
    match outcome {
        Err(e) => m2 == given_back(m, reservation.value) && ends_process(s2, process, e@),
        Ok(_) => if record_refusal(m, reservation.value) is Some {
            m2 == unrecorded(m, reservation.value) && ends_process(
                s2,
                process,
                record_refusal(m, reservation.value)->0,
            )
        } else {
            exists|r: RuntimeView|
                {
                    &&& #[trigger] is_loads_runtime(load, process, r)
                    &&& m2 == with_started(m, reservation.value, r)
                    &&& s2 matches ModelLoad::Answered(o)
                    &&& o@ == OutcomeView::Success(load_payload(numbered(m, r), false))
                }
        },
    }
}

/// One step of a load. An event that does not answer what was asked changes nothing.
pub open spec fn load_stepped(
    m: ManagerView,
    s: ModelLoad,
    e: LoadEvent,
    m2: ManagerView,
    s2: ModelLoad,
) -> bool {
    match (s, e) {
        (ModelLoad::Look(ask), LoadEvent::Looked { shutting_down, polls, recommended }) => looked(
            m,
            ask,
            shutting_down,
            polls@,
            opt_text(recommended),
            m2,
            s2,
        ),
        (ModelLoad::FindBackend { ask, request, id }, LoadEvent::Backend(found)) => m2 == m
            && backend_found(ask, request, id@, found, s2),
        (ModelLoad::LookAtModel { case, path }, LoadEvent::Place { present, is_dir }) => m2 == m
            && model_seen(case, path, present, is_dir, s2),
        (ModelLoad::SearchDirectory { case, path }, LoadEvent::Files(found)) => m2 == m
            && match found {
            Err(e) => failed_with(s2, e@),
            Ok(files) => model_found(case, files.model_path@, opt_text(files.mmproj), s2),
        },
        (
            ModelLoad::LookAtProjector { case, model_path, path },
            LoadEvent::Place { present, is_dir },
        ) => m2 == m && match path_refusal(
            path@,
            "mmproj file"@,
            case.backend.model_artifact@,
            present,
            is_dir,
        ) {
            Some(message) => failed_with(s2, message),
            None => files_known(case, model_path@, Some(path@), s2),
        },
        (ModelLoad::FindProjector { case, model_path }, LoadEvent::Projector(found)) => m2 == m
            && files_known(case, model_path@, opt_text(found), s2),
        (ModelLoad::ReadArguments { case, files, args }, LoadEvent::ArgumentsRead(ctx)) => settled(
            m,
            case,
            files,
            ctx,
            m2,
            s2,
        ),
        (ModelLoad::SaveAnswer { config, answer }, LoadEvent::Saved(outcome)) => m2 == m
            && match outcome {
            Err(e) => failed_with(s2, e@),
            Ok(_) => s2 == ModelLoad::Answered(LoadModelOutcome::Success(answer)),
        },
        (ModelLoad::PickPort { case, config }, LoadEvent::Port(found)) => m2 == m && match found {
            Err(e) => failed_with(s2, e@),
            Ok(port) => s2 == (ModelLoad::ReadLauncher { case, config, port }),
        },
        (
            ModelLoad::ReadLauncher { case, config, port },
            LoadEvent::Launcher { manifest, wsl },
        ) => m2 == m && launcher_read(case, config, port, manifest, wsl@, s2),
        (ModelLoad::FindDevices(planned), LoadEvent::Devices { selection, detected }) => m2 == m
            && devices_found(planned, selection, detected, s2),
        (ModelLoad::Measure(placed), LoadEvent::Sizes { weights, projector }) => m2 == m
            && measured(placed, weights, projector, s2),
        (ModelLoad::LookAtMachine(load), LoadEvent::Machine(observed)) => machine_seen(
            m,
            load,
            observed,
            m2,
            s2,
        ),
        (ModelLoad::Start { load, reservation }, LoadEvent::Started(outcome)) => attempted(
            m,
            load,
            reservation,
            outcome,
            m2,
            s2,
        ),
        (ModelLoad::Save { load, reservation, process }, LoadEvent::Saved(outcome)) => remembered(
            m,
            load,
            reservation,
            process@,
            outcome,
            m2,
            s2,
        ),
        (ModelLoad::EndProcess { started, error }, LoadEvent::Ended) => m2 == m && s2
            == ModelLoad::Failed(error),
        _ => m2 == m && s2 == s,
    }
}

/// The reservation that a load holds.
pub open spec fn held_by(s: ModelLoad) -> Option<u64> {
    match s {
        ModelLoad::Start { load, reservation } => Some(reservation.value),
        ModelLoad::Save { load, reservation, process } => Some(reservation.value),
        _ => None,
    }
}

/// What holds of every load and the manager that it is for: a budget adds up, and a
/// reservation is one that the manager's ledger has.
pub open spec fn load_fits(m: ManagerView, s: ModelLoad) -> bool {
    &&& s matches ModelLoad::LookAtMachine(load) ==> load.budget@.domains == totals(
        load.budget@.components,
    )
    &&& held_by(s) matches Some(id) ==> m.ledger is Some && has_holding(
        m.ledger->0.reservations,
        id,
    )
}


impl LoadCase {
    fn with_files(self, model_path: String, mmproj: Option<String>) -> (r: ModelLoad)
        ensures
            files_known(self, model_path@, opt_text(mmproj), r),
    {
        if mmproj.is_some() && !self.backend.supports_mmproj {
            return ModelLoad::Failed(
                Failure::about(self.backend.id.as_str(), " does not support mmproj inputs"),
            );
        }
        let args = merged_launch_args(
            self.backend.id.as_str(),
            self.backend.family.as_str(),
            &self.backend.default_args,
            &self.request.launch_args,
        );
        ModelLoad::ReadArguments { case: self, files: ModelFiles { model_path, mmproj }, args }
    }

    fn with_model(self, model_path: String, found: Option<String>) -> (r: ModelLoad)
        ensures
            model_found(self, model_path@, opt_text(found), r),
    {
        match &self.request.mmproj {
            Some(text) => {
                let meant = path_for_backend(
                    text.as_str(),
                    &self.ask.home,
                    &self.backend.models_dir,
                    "mmproj file",
                );
                let ghost said = text_result(meant);
                assert(path_meant(
                    text@,
                    opt_text(self.ask.home),
                    opt_text(self.backend.models_dir),
                    "mmproj file"@,
                    said,
                ));
                match meant {
                    Ok(path) => ModelLoad::LookAtProjector { case: self, model_path, path },
                    Err(e) => ModelLoad::Failed(e),
                }
            },
            None => if found.is_some() {
                self.with_files(model_path, found)
            } else {
                ModelLoad::FindProjector { case: self, model_path }
            },
        }
    }
}

fn find_model(
    ask: LoadAsk,
    request: LoadRequest,
    id: String,
    found: Option<(BackendSpec, bool)>,
) -> (r: ModelLoad)
    ensures
        backend_found(ask, request, id@, found, r),
{
    let (backend, launcher) = match found {
        Some(pair) => pair,
        None => {
            return ModelLoad::Failed(Failure::about("unsupported backend: ", id.as_str()));
        },
    };
    if let Err(e) = check_backend(&backend, launcher) {
        return ModelLoad::Failed(e);
    }
    let case = LoadCase { ask, request, backend };
    if takes_references(case.backend.model_artifact.as_str()) {
        let model = case.request.model.as_str().to_owned();
        return case.with_model(model, None);
    }
    let meant = path_for_backend(
        case.request.model.as_str(),
        &case.ask.home,
        &case.backend.models_dir,
        "model",
    );
    let ghost said = text_result(meant);
    assert(path_meant(
        request.model@,
        opt_text(ask.home),
        opt_text(backend.models_dir),
        "model"@,
        said,
    ));
    match meant {
        Ok(path) => ModelLoad::LookAtModel { case, path },
        Err(e) => ModelLoad::Failed(e),
    }
}

fn see_model(case: LoadCase, path: String, present: bool, is_dir: bool) -> (r: ModelLoad)
    ensures
        model_seen(case, path, present, is_dir, r),
{
    if let Err(e) = resolve_path_for_backend(
        path.as_str(),
        "model",
        case.backend.model_artifact.as_str(),
        present,
        is_dir,
    ) {
        return ModelLoad::Failed(e);
    }
    let step = resolve_model_for_backend(
        path.as_str(),
        case.backend.model_artifact.as_str(),
        is_dir,
    );
    let ghost said = plain_result(step);
    assert(model_meant(path@, case.backend.model_artifact@, is_dir, said));
    match step {
        Err(e) => ModelLoad::Failed(e),
        Ok(ModelStep::SearchDirectory) => ModelLoad::SearchDirectory { case, path },
        Ok(ModelStep::UsePath) => case.with_model(path, None),
    }
}

fn see_projector(
    case: LoadCase,
    model_path: String,
    path: String,
    present: bool,
    is_dir: bool,
) -> (r: ModelLoad)
    ensures
        match path_refusal(
            path@,
            "mmproj file"@,
            case.backend.model_artifact@,
            present,
            is_dir,
        ) {
            Some(message) => failed_with(r, message),
            None => files_known(case, model_path@, Some(path@), r),
        },
{
    match resolve_path_for_backend(
        path.as_str(),
        "mmproj file",
        case.backend.model_artifact.as_str(),
        present,
        is_dir,
    ) {
        Ok(_) => case.with_files(model_path, Some(path)),
        Err(e) => ModelLoad::Failed(e),
    }
}

fn plan_runtime(
    case: LoadCase,
    config: RequestedRuntimeConfig,
    port: u16,
    manifest: Result<WslVllmLauncherManifest, String>,
    wsl: String,
) -> (r: ModelLoad)
    ensures
        launcher_read(case, config, port, manifest, wsl@, r),
{
    let request = ExternalRuntimeRequest {
        backend: backend_payload(&case.backend),
        model_path: config.model_path.as_str().to_owned(),
        mmproj_path: copy_opt(&config.mmproj),
        host: case.ask.host.as_str().to_owned(),
        port,
        ctx_size: config.ctx_size,
        launch_args: Some(copy_texts(&config.launch_args)),
    };
    assert(request@ == plan_request(case, config@, port));
    let outcome = build_external_runtime_plan(&request, &manifest, wsl.as_str());
    let ghost said = plan_outcome(outcome);
    assert(plan_meant(
        plan_request(case, config@, port),
        manifest_read(manifest),
        wsl@,
        said,
    ));
    match outcome {
        Err(e) => ModelLoad::Failed(Failure { message: e.message() }),
        Ok(plan) => {
            let logs = path_join(case.backend.runtime_dir.as_str(), "logs");
            let name = model_log_file_name(
                plan.log_file_name.as_str(),
                config.model_key.as_str(),
            );
            let log_path = path_join(logs.as_str(), name.as_str());
            assert(joined_path(case.backend.runtime_dir@, "logs"@, logs@));
            assert(is_log_path(case.backend.runtime_dir@, plan@, config@.model_key, log_path@));
            ModelLoad::FindDevices(PlannedLoad { case, config, plan, log_path })
        },
    }
}

fn place_load(
    planned: PlannedLoad,
    selection: Option<CudaSelection>,
    detected: Result<Vec<String>, Failure>,
) -> (r: ModelLoad)
    ensures
        devices_found(planned, selection, detected, r),
{
    let chosen = match &selection {
        Some(c) => Some(c.visible_devices.as_str().to_owned()),
        None => None,
    };
    let cuda = has_item(&planned.case.backend.capabilities, "cuda");
    let all = match detected {
        Ok(all) => all,
        Err(e) => {
            if cuda && chosen.is_none() {
                return ModelLoad::Failed(e);
            }
            no_texts()
        },
    };
    let devices = budget_devices(&planned.case.backend.capabilities, &chosen, &all);
    ModelLoad::Measure(PlacedLoad { planned, selection, devices })
}

proof fn lemma_budget_adds_up(
    p: PlacedLoad,
    weights: Result<Option<u64>, Failure>,
    projector: Result<Option<u64>, Failure>,
)
    ensures
        load_budget(p, weights, projector) matches Ok(b) ==> b.domains == totals(b.components),
{
}

fn budget_load(
    placed: PlacedLoad,
    weights: Result<Option<u64>, Failure>,
    projector: Result<Option<u64>, Failure>,
) -> (r: ModelLoad)
    ensures
        measured(placed, weights, projector, r),
        r matches ModelLoad::LookAtMachine(load) ==> load.budget@.domains == totals(
            load.budget@.components,
        ),
{
    proof {
        lemma_budget_adds_up(placed, weights, projector);
    }
    let ctx: u32 = match placed.planned.plan.ctx_size {
        Some(n) => n,
        None => placed.planned.case.ask.default_ctx,
    };
    let projector = if placed.planned.config.mmproj.is_some() {
        projector
    } else {
        Ok(None)
    };
    match build_runtime_resource_budget(
        &placed.planned.case.ask.payload,
        &placed.planned.case.backend.capabilities,
        weights,
        projector,
        ctx,
        placed.planned.case.ask.default_ctx,
        &placed.devices,
        placed.selection.is_none() && placed.devices.is_some(),
        placed.planned.case.ask.unified,
    ) {
        Ok(budget) => ModelLoad::LookAtMachine(BudgetedLoad { placed, budget }),
        Err(e) => ModelLoad::Failed(e),
    }
}

impl RustRuntimeManager {
    fn begin(
        &mut self,
        ask: LoadAsk,
        shutting_down: bool,
        polls: &Vec<ProcessPoll>,
        recommended: &Option<String>,
    ) -> (r: ModelLoad)
        requires
            old(self)@.wf(),
        ensures
            final(self)@.wf(),
            looked(
                old(self)@,
                ask,
                shutting_down,
                polls@,
                opt_text(*recommended),
                final(self)@,
                r,
            ),
    {
        if let Err(e) = self.begin_load(shutting_down, polls) {
            return ModelLoad::Failed(e);
        }
        let request = match read_load_request(&ask.payload) {
            Ok(request) => request,
            Err(e) => {
                return ModelLoad::Failed(e);
            },
        };
        match self.resolve_requested_backend(&ask.payload, recommended) {
            Ok(id) => ModelLoad::FindBackend { ask, request, id },
            Err(e) => ModelLoad::Failed(e),
        }
    }

    fn settle(&mut self, case: LoadCase, files: ModelFiles, args_ctx: Option<u32>) -> (r: ModelLoad)
        requires
            old(self)@.wf(),
        ensures
            final(self)@.wf(),
            settled(old(self)@, case, files, args_ctx, final(self)@, r),
    {
        let config = match load_settings(
            &case.request,
            &case.backend,
            true,
            files.model_path.as_str(),
            &files.mmproj,
            args_ctx,
            case.ask.default_ctx,
        ) {
            Ok(config) => config,
            Err(e) => {
                return ModelLoad::Failed(e);
            },
        };
        match self.answer_if_loaded(&config) {
            Some(LoadModelOutcome::Success(answer)) => ModelLoad::SaveAnswer { config, answer },
            Some(LoadModelOutcome::ReloadRequired(payload)) => ModelLoad::Answered(
                LoadModelOutcome::ReloadRequired(payload),
            ),
            None => match case.request.backend_port {
                Some(port) => ModelLoad::ReadLauncher { case, config, port },
                None => ModelLoad::PickPort { case, config },
            },
        }
    }

    fn reserve_for(&mut self, load: BudgetedLoad, observed: Result<DomainBytes, Failure>) -> (r:
        ModelLoad)
        requires
            old(self)@.wf(),
            load.budget@.domains == totals(load.budget@.components),
        ensures
            final(self)@.wf(),
            machine_seen(old(self)@, load, observed, final(self)@, r),
            load_fits(final(self)@, r),
    {
        let free = match observed {
            Ok(free) => free,
            Err(e) => {
                return ModelLoad::Failed(e);
            },
        };
        let key = load.placed.planned.config.model_key.as_str();
        match self.reserve_runtime_resources(key, &load.budget, &free) {
            Ok(reservation) => {
                let ghost l = self@.ledger->0;
                assert(l.reservations.last().id == reservation.value);
                assert(has_holding(l.reservations, reservation.value));
                ModelLoad::Start { load, reservation }
            },
            Err(e) => ModelLoad::Failed(e),
        }
    }

    fn attempt(
        &mut self,
        load: BudgetedLoad,
        reservation: ReservationId,
        outcome: Result<RuntimeProcess, RuntimeProcessError>,
    ) -> (r: ModelLoad)
        requires
            old(self)@.wf(),
            load_fits(old(self)@, (ModelLoad::Start { load, reservation })),
        ensures
            final(self)@.wf(),
            attempted(old(self)@, load, reservation, outcome, final(self)@, r),
            load_fits(final(self)@, r),
    {
        let started = match outcome {
            Ok(process) => Ok(process),
            Err(e) => Err(Failure { message: e.message() }),
        };
        match self.with_reservation(reservation, started) {
            Ok(process) => ModelLoad::Save { load, reservation, process },
            Err(error) => ModelLoad::Failed(error),
        }
    }

    fn record(
        &mut self,
        load: BudgetedLoad,
        reservation: ReservationId,
        process: RuntimeProcess,
        outcome: Result<(), Failure>,
    ) -> (r: ModelLoad)
        requires
            old(self)@.wf(),
            old(self)@.ledger is Some,
        ensures
            final(self)@.wf(),
            remembered(old(self)@, load, reservation, process@, outcome, final(self)@, r),
    {
        let ghost before = self@;
        let to_end = ProcessToEnd {
            pid: process.info.pid,
            stop_command: match &process.stop_command {
                Some(command) => Some(copy_texts(command)),
                None => None,
            },
        };
        let ghost seen = process@;
        assert(opt_texts(to_end.stop_command) == seen.stop_command);
        if let Err(error) = self.with_reservation(reservation, outcome) {
            return ModelLoad::EndProcess { started: to_end, error };
        }
        let (devices, warning) = match &load.placed.selection {
            Some(chosen) => (
                Some(chosen.visible_devices.as_str().to_owned()),
                copy_opt(&chosen.warning),
            ),
            None => (None, None),
        };
        let ghost whole = load;
        let planned = load.placed.planned;
        let runtime = new_runtime(
            &planned.config,
            &planned.case.ask.owner_admin_id,
            &planned.plan,
            process,
            &devices,
            &warning,
            load.budget,
        );
        let ghost made = runtime@;
        assert(is_loads_runtime(whole, seen, made));
        match self.finish_load(reservation, Ok(runtime)) {
            Ok(answer) => ModelLoad::Answered(LoadModelOutcome::Success(answer)),
            Err(error) => ModelLoad::EndProcess { started: to_end, error },
        }
    }

    /// Tells a load what was seen or done.
    pub fn load_model(&mut self, load: ModelLoad, event: LoadEvent) -> (r: ModelLoad)
        requires
            old(self)@.wf(),
            load_fits(old(self)@, load),
        ensures
            final(self)@.wf(),
            load_fits(final(self)@, r),
            load_stepped(old(self)@, load, event, final(self)@, r),
    {
        match (load, event) {
            (ModelLoad::Look(ask), LoadEvent::Looked { shutting_down, polls, recommended }) => {
                self.begin(ask, shutting_down, &polls, &recommended)
            },
            (ModelLoad::FindBackend { ask, request, id }, LoadEvent::Backend(found)) => {
                find_model(ask, request, id, found)
            },
            (ModelLoad::LookAtModel { case, path }, LoadEvent::Place { present, is_dir }) => {
                see_model(case, path, present, is_dir)
            },
            (ModelLoad::SearchDirectory { case, path: _ }, LoadEvent::Files(found)) => {
                match found {
                    Ok(files) => case.with_model(files.model_path, files.mmproj),
                    Err(e) => ModelLoad::Failed(e),
                }
            },
            (
                ModelLoad::LookAtProjector { case, model_path, path },
                LoadEvent::Place { present, is_dir },
            ) => see_projector(case, model_path, path, present, is_dir),
            (ModelLoad::FindProjector { case, model_path }, LoadEvent::Projector(found)) => {
                case.with_files(model_path, found)
            },
            (ModelLoad::ReadArguments { case, files, args: _ }, LoadEvent::ArgumentsRead(ctx)) => {
                self.settle(case, files, ctx)
            },
            (ModelLoad::SaveAnswer { config: _, answer }, LoadEvent::Saved(outcome)) => {
                match outcome {
                    Ok(_) => ModelLoad::Answered(LoadModelOutcome::Success(answer)),
                    Err(e) => ModelLoad::Failed(e),
                }
            },
            (ModelLoad::PickPort { case, config }, LoadEvent::Port(found)) => match found {
                Ok(port) => ModelLoad::ReadLauncher { case, config, port },
                Err(e) => ModelLoad::Failed(e),
            },
            (
                ModelLoad::ReadLauncher { case, config, port },
                LoadEvent::Launcher { manifest, wsl },
            ) => plan_runtime(case, config, port, manifest, wsl),
            (ModelLoad::FindDevices(planned), LoadEvent::Devices { selection, detected }) => {
                place_load(planned, selection, detected)
            },
            (ModelLoad::Measure(placed), LoadEvent::Sizes { weights, projector }) => {
                budget_load(placed, weights, projector)
            },
            (ModelLoad::LookAtMachine(load), LoadEvent::Machine(observed)) => {
                self.reserve_for(load, observed)
            },
            (ModelLoad::Start { load, reservation }, LoadEvent::Started(outcome)) => {
                self.attempt(load, reservation, outcome)
            },
            (ModelLoad::Save { load, reservation, process }, LoadEvent::Saved(outcome)) => {
                self.record(load, reservation, process, outcome)
            },
            (ModelLoad::EndProcess { started: _, error }, LoadEvent::Ended) => {
                ModelLoad::Failed(error)
            },
            (load, _) => load,
        }
    }
}

/// A load that ends in vain gives its reservation back, and leaves the runtimes alone.
pub proof fn a_failed_load_gives_back(
    m: ManagerView,
    s: ModelLoad,
    e: LoadEvent,
    m2: ManagerView,
    s2: ModelLoad,
)
    requires
        load_stepped(m, s, e, m2, s2),
        held_by(s) is Some,
        held_by(s2) is None,
        !(s2 is Answered),
    ensures
        s2 is Failed || s2 is EndProcess,
        m2.ledger == given_back(m, held_by(s)->0).ledger,
        m2.loaded == m.loaded,
        m2.default_model_key == m.default_model_key,
{
}

/// A load that fails before it has reserved anything leaves what is held, and the
/// runtimes, as they were.
pub proof fn early_failures_reserve_nothing(
    m: ManagerView,
    s: ModelLoad,
    e: LoadEvent,
    m2: ManagerView,
    s2: ModelLoad,
)
    requires
        load_stepped(m, s, e, m2, s2),
        !(s is Look),
        held_by(s) is None,
        s2 is Failed,
    ensures
        ledger_or_empty(m2).reservations == ledger_or_empty(m).reservations,
        ledger_or_empty(m2).allocations == ledger_or_empty(m).allocations,
        m2.loaded == m.loaded,
{
}

/// A runtime is started only once all that its budget needs is reserved for it.
pub proof fn starts_are_reserved(
    m: ManagerView,
    s: ModelLoad,
    e: LoadEvent,
    m2: ManagerView,
    s2: ModelLoad,
)
    requires
        load_stepped(m, s, e, m2, s2),
        s2 is Start,
        !(s is Start),
    ensures
        s is LookAtMachine,
        m2.ledger is Some,
        m2.ledger->0.reservations.len() > 0,
        m2.ledger->0.reservations.last().id == held_by(s2)->0,
        m2.ledger->0.reservations.last().domains == s2->Start_load.budget@.domains,
{
}

/// A process that was started for a load is kept under the key that was asked for, or
/// has to be ended.
pub proof fn started_processes_are_kept_or_ended(
    m: ManagerView,
    s: ModelLoad,
    e: LoadEvent,
    m2: ManagerView,
    s2: ModelLoad,
)
    requires
        m.wf(),
        load_fits(m, s),
        load_stepped(m, s, e, m2, s2),
        s is Save,
        e is Saved,
    ensures
        s2 is EndProcess ==> s2->started.pid == s->process@.info.pid,
        s2 is Answered ==> {
            let kept = under_key(m2.loaded, s->Save_load.placed.planned.config@.model_key);
            kept is Some && kept->0.process == s->process@
        },
        s2 is EndProcess || s2 is Answered,
{
    if s2 is Answered {
        let id = held_by(s)->0;
        let r = choose|r: RuntimeView|
            {
                &&& #[trigger] is_loads_runtime(s->Save_load, s->process@, r)
                &&& m2 == with_started(m, id, r)
                &&& s2 matches ModelLoad::Answered(o)
                &&& o@ == OutcomeView::Success(load_payload(numbered(m, r), false))
            };
        a_placed_runtime_is_found(m.loaded, numbered(m, r));
    }
}

/// A load that has ended stays as it is, and does nothing more.
pub proof fn an_ended_load_stays(
    m: ManagerView,
    s: ModelLoad,
    e: LoadEvent,
    m2: ManagerView,
    s2: ModelLoad,
)
    requires
        load_stepped(m, s, e, m2, s2),
        s is Answered || s is Failed,
    ensures
        m2 == m,
        s2 == s,
{
}

} // verus!
