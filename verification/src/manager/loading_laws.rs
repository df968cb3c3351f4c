//! What each step of a load does with what it was told.
use vstd::prelude::*;

use crate::failure::Failure;
use crate::manager::admission::given_back;
use crate::manager::load::{located, path_meant, BackendSpec, LoadModelOutcome};
use crate::manager::loading::{load_stepped, CudaSelection, LoadEvent, ModelFiles, ModelLoad};
use crate::manager::state::ManagerView;
use crate::paths::{surely_relative, verbatim};
use crate::runtime::process::{process_error_message, RuntimeProcess, RuntimeProcessError};
use crate::text::compose::{joined, opt_text, opt_texts, texts};
use crate::text::search::{ends_with, starts_with};
use crate::text::trim::trimmed;

verus! {

/// Whether launch arguments are those of a backend and a request: the defaults where none are
/// requested, both for an official llama.cpp backend, and those of the request elsewhere.
pub open spec fn are_the_arguments_of(
    args: Seq<Seq<char>>,
    b: BackendSpec,
    requested: Option<Seq<Seq<char>>>,
) -> bool {
    match requested {
        None => args == texts(b.default_args@),
        Some(own) => if b.family@ == "llama.cpp"@ && starts_with(b.id@, "llama.cpp-"@) {
            args == texts(b.default_args@) + own
        } else {
            args == own
        },
    }
}

/// A load fails while the gateway shuts down, and changes nothing there.
pub proof fn no_load_begins_during_a_shutdown(
    m: ManagerView,
    s: ModelLoad,
    polls: Vec<crate::manager::state::ProcessPoll>,
    recommended: Option<String>,
    m2: ManagerView,
    s2: ModelLoad,
)
    requires
        s is Look,
        load_stepped(
            m,
            s,
            LoadEvent::Looked { shutting_down: true, polls, recommended },
            m2,
            s2,
        ),
    ensures
        m2 == m,
        s2 is Failed,
{
}

/// A load fails where its backend is not known, is an embedded one, or lacks its launcher.
/// The model of a backend that only refers to models is taken by its name; of any other its
/// path is looked at.
pub proof fn loads_need_a_usable_backend(
    m: ManagerView,
    s: ModelLoad,
    found: Option<(BackendSpec, bool)>,
    m2: ManagerView,
    s2: ModelLoad,
)
    requires
        s is FindBackend,
        load_stepped(m, s, LoadEvent::Backend(found), m2, s2),
    ensures
        m2 == m,
        found is None ==> s2 is Failed,
        found matches Some((b, launcher)) ==> {
            let request = s->FindBackend_request;
            let usable = b.runtime_mode@ == "external_server"@ && launcher;
            &&& !usable ==> s2 is Failed
            &&& usable && b.model_artifact@ == "reference"@ && request.mmproj is None ==> s2
                is FindProjector && s2->FindProjector_model_path@ == request.model@
                && s2->FindProjector_case.backend == b
            &&& usable && b.model_artifact@ != "reference"@ ==> s2 is LookAtModel || s2 is Failed
            &&& usable && b.model_artifact@ != "reference"@ && s2 is LookAtModel
                ==> s2->LookAtModel_case.backend == b && s2->LookAtModel_case.request == request
        },
{
}

/// The projector of a model is the one of the request; without one, the one that was found
/// with the model; and only then one is looked for.
pub proof fn projectors_are_those_asked_for(
    m: ManagerView,
    s: ModelLoad,
    files: ModelFiles,
    m2: ManagerView,
    s2: ModelLoad,
)
    requires
        s is SearchDirectory,
        load_stepped(m, s, LoadEvent::Files(Ok(files)), m2, s2),
    ensures
        m2 == m,
        ({
            let case = s->SearchDirectory_case;
            &&& case.request.mmproj is Some ==> s2 is LookAtProjector || s2 is Failed
            &&& case.request.mmproj is Some && s2 is LookAtProjector
                ==> s2->LookAtProjector_model_path@ == files.model_path@
            &&& case.request.mmproj is None && files.mmproj is Some && case.backend.supports_mmproj
                ==> s2 is ReadArguments && s2->ReadArguments_files.model_path@ == files.model_path@
                && opt_text(s2->ReadArguments_files.mmproj) == opt_text(files.mmproj)
            &&& case.request.mmproj is None && files.mmproj is Some && !case.backend.supports_mmproj
                ==> s2 is Failed
            &&& case.request.mmproj is None && files.mmproj is None ==> s2 is FindProjector
                && s2->FindProjector_model_path@ == files.model_path@
        }),
{
}

/// A projector that is there is used with the model, where the backend takes one; one that was
/// asked for and is not there fails the load; and none is needed.
pub proof fn projectors_are_used_with_their_model(
    m: ManagerView,
    s: ModelLoad,
    present: bool,
    is_dir: bool,
    m2: ManagerView,
    s2: ModelLoad,
)
    requires
        s is LookAtProjector,
        load_stepped(m, s, LoadEvent::Place { present, is_dir }, m2, s2),
    ensures
        m2 == m,
        !present ==> s2 is Failed,
        present && !s->LookAtProjector_case.backend.supports_mmproj ==> s2 is Failed,
        present && s->LookAtProjector_case.backend.supports_mmproj ==> {
            &&& s2 is ReadArguments
            &&& s2->ReadArguments_files.model_path@ == s->LookAtProjector_model_path@
            &&& opt_text(s2->ReadArguments_files.mmproj) == Some(s->LookAtProjector_path@)
            &&& are_the_arguments_of(
                texts(s2->ReadArguments_args@),
                s->LookAtProjector_case.backend,
                opt_texts(s->LookAtProjector_case.request.launch_args),
            )
        },
{
    reveal_strlit("mmproj file");
    reveal_strlit("model");
    assert("mmproj file"@.len() == 11 && "model"@.len() == 5);
}

/// Without a projector a load goes on with the model alone, and with the launch arguments of
/// the backend and the request.
pub proof fn models_go_without_a_projector(
    m: ManagerView,
    s: ModelLoad,
    m2: ManagerView,
    s2: ModelLoad,
)
    requires
        s is FindProjector,
        load_stepped(m, s, LoadEvent::Projector(None), m2, s2),
    ensures
        m2 == m,
        s2 is ReadArguments,
        s2->ReadArguments_files.model_path@ == s->FindProjector_model_path@,
        s2->ReadArguments_files.mmproj is None,
        are_the_arguments_of(
            texts(s2->ReadArguments_args@),
            s->FindProjector_case.backend,
            opt_texts(s->FindProjector_case.request.launch_args),
        ),
{
}

/// A port that was found is the one that is planned with, and where none is found the load
/// fails with the reason.
pub proof fn found_ports_are_used(
    m: ManagerView,
    s: ModelLoad,
    found: Result<u16, Failure>,
    m2: ManagerView,
    s2: ModelLoad,
)
    requires
        s is PickPort,
        load_stepped(m, s, LoadEvent::Port(found), m2, s2),
    ensures
        m2 == m,
        found matches Ok(port) ==> s2 is ReadLauncher && s2->ReadLauncher_port == port
            && s2->ReadLauncher_config == s->PickPort_config,
        found matches Err(e) ==> s2 is Failed && s2->Failed_0@ == e@,
{
}

/// A runtime with CUDA is budgeted for the devices that were selected, and where none were for
/// all that there are; any other for none. It fails where it needs devices that cannot be
/// found.
pub proof fn devices_are_those_selected(
    m: ManagerView,
    s: ModelLoad,
    selection: Option<CudaSelection>,
    detected: Result<Vec<String>, Failure>,
    m2: ManagerView,
    s2: ModelLoad,
)
    requires
        s is FindDevices,
        load_stepped(m, s, LoadEvent::Devices { selection, detected }, m2, s2),
    ensures
        m2 == m,
        ({
            let cuda = texts(s->FindDevices_0.case.backend.capabilities@).contains("cuda"@);
            &&& cuda && selection is None && detected is Err ==> s2 is Failed
            &&& !(cuda && selection is None && detected is Err) ==> s2 is Measure
                && s2->Measure_0.planned == s->FindDevices_0 && s2->Measure_0.selection == selection
            &&& cuda && selection is Some ==> opt_text(s2->Measure_0.devices) == Some(
                selection->0.visible_devices@,
            )
            &&& cuda && selection is None && detected is Ok ==> opt_text(s2->Measure_0.devices)
                == Some(joined(texts(detected->Ok_0@), ","@))
            &&& !cuda ==> s2->Measure_0.devices is None
        }),
{
}

/// A runtime that did not start gives back what was reserved for it, and the load fails with
/// what was said; one that started is kept with its reservation.
pub proof fn failed_starts_give_back(
    m: ManagerView,
    s: ModelLoad,
    outcome: Result<RuntimeProcess, RuntimeProcessError>,
    m2: ManagerView,
    s2: ModelLoad,
)
    requires
        s is Start,
        load_stepped(m, s, LoadEvent::Started(outcome), m2, s2),
    ensures
        outcome matches Err(e) ==> m2 == given_back(m, s->Start_reservation.value) && s2 is Failed
            && s2->Failed_0@ == process_error_message(e@),
        outcome matches Ok(process) ==> m2 == m && s2 is Save && s2->Save_load == s->Start_load
            && s2->Save_reservation == s->Start_reservation && s2->process == process,
{
}

/// A runtime whose settings could not be remembered is ended, with its own stop command, and
/// what was reserved for it is given back.
pub proof fn unremembered_runtimes_are_ended(
    m: ManagerView,
    s: ModelLoad,
    e: Failure,
    m2: ManagerView,
    s2: ModelLoad,
)
    requires
        s is Save,
        load_stepped(m, s, LoadEvent::Saved(Err(e)), m2, s2),
    ensures
        m2 == given_back(m, s->Save_reservation.value),
        s2 is EndProcess,
        s2->started.pid == s->process@.info.pid,
        opt_texts(s2->started.stop_command) == s->process@.stop_command,
        s2->error@ == e@,
{
}

/// An answer for what is loaded already is given once its settings are remembered, and fails
/// where they are not.
pub proof fn answers_are_given_once_remembered(
    m: ManagerView,
    s: ModelLoad,
    outcome: Result<(), Failure>,
    m2: ManagerView,
    s2: ModelLoad,
)
    requires
        s is SaveAnswer,
        load_stepped(m, s, LoadEvent::Saved(outcome), m2, s2),
    ensures
        m2 == m,
        outcome is Ok ==> s2 == ModelLoad::Answered(LoadModelOutcome::Success(s->answer)),
        outcome matches Err(e) ==> s2 is Failed && s2->Failed_0@ == e@,
{
}

/// An absolute path is taken as it stands. Another one lies in the directory of models, and
/// means nothing where there is no such directory.
pub proof fn paths_are_taken_or_looked_up(
    path: Seq<char>,
    inside: Option<Seq<char>>,
    label: Seq<char>,
)
    ensures
        located(path, true, inside, label) == Ok::<Seq<char>, Seq<char>>(path),
        inside matches Some(p) ==> located(path, false, inside, label) == Ok::<
            Seq<char>,
            Seq<char>,
        >(p),
        inside is None ==> located(path, false, inside, label) is Err,
{
}

/// A relative path that a request names is looked up under the directory of models, and is
/// refused where there is none. One that is found begins with that directory and ends with
/// what the request says, without the white space around it.
pub proof fn relative_paths_lie_in_the_directory_of_models(
    text: Seq<char>,
    home: Option<Seq<char>>,
    models_dir: Option<Seq<char>>,
    label: Seq<char>,
    r: Result<Seq<char>, Seq<char>>,
)
    requires
        surely_relative(trimmed(text)),
        !starts_with(trimmed(text), "~/"@),
        path_meant(text, home, models_dir, label, r),
    ensures
        models_dir is None ==> r is Err,
        models_dir matches Some(dir) ==> r is Ok && (!verbatim(dir) ==> starts_with(r->Ok_0, dir)
            && ends_with(r->Ok_0, trimmed(text))),
{
    if let (Some(dir), Ok(p)) = (models_dir, r) {
        let name = trimmed(text);
        assert((dir + name).take(dir.len() as int) =~= dir);
        assert((dir + seq!['/'] + name).take(dir.len() as int) =~= dir);
        assert((dir + seq!['\\'] + name).take(dir.len() as int) =~= dir);
    }
}

} // verus!
