//! How the console and the start of a server go on.
use vstd::prelude::*;

use crate::json::{no_fields, text_member, member, JsonView};
use crate::manager::reports::SelectedModel;
use crate::text::chars::lowered;
use crate::tui::{
    console_after, is_remembered, loads_extension, server_after, ConsoleEvent, ConsoleView,
    SelectedBackendInfo, ServeView, ServerEvent, ServerStartView,
};

verus! {

/// A console needs somebody there and a gateway; it loads the model of the last session where
/// there is one, lets one be chosen otherwise, and talks to it until it is done.
pub proof fn consoles_go_on_as_they_are_answered(
    notice: Option<Seq<char>>,
    backend: Seq<char>,
    loaded: String,
    reason: String,
)
    ensures
        console_after(ConsoleView::CheckTerminal, ConsoleEvent::Answer(true)) is EnsureGateway,
        console_after(ConsoleView::CheckTerminal, ConsoleEvent::Answer(false)) is Failed,
        console_after(ConsoleView::EnsureGateway, ConsoleEvent::Done) is FindModel,
        console_after(ConsoleView::EnsureGateway, ConsoleEvent::Broken(reason))
            == ConsoleView::Failed(reason@),
        console_after(ConsoleView::FindModel, ConsoleEvent::Answer(true)) is LoadModel,
        console_after(ConsoleView::FindModel, ConsoleEvent::Answer(false)) == (ConsoleView::SetUp {
            notice: None,
        }),
        console_after(ConsoleView::LoadModel, ConsoleEvent::Loaded(loaded)) == (ConsoleView::Chat {
            backend: loaded@,
        }),
        console_after(ConsoleView::LoadModel, ConsoleEvent::Broken(reason)) == (ConsoleView::SetUp {
            notice: Some("Could not load previous model: "@ + reason@),
        }),
        console_after(ConsoleView::SetUp { notice }, ConsoleEvent::Loaded(loaded)) == (
        ConsoleView::Chat { backend: loaded@ }),
        console_after(ConsoleView::SetUp { notice }, ConsoleEvent::Broken(reason))
            == ConsoleView::Failed(reason@),
        console_after(ConsoleView::Chat { backend }, ConsoleEvent::Done) is Finished,
        console_after(ConsoleView::Chat { backend }, ConsoleEvent::Broken(reason))
            == ConsoleView::Failed(reason@),
{
}

/// A server is started as it is asked for where nobody is there, and else with the backend and
/// the model that are chosen; where none is chosen, or something goes wrong, it is not.
pub proof fn servers_are_started_with_what_was_chosen(
    args: ServeView,
    backend: String,
    chosen: Seq<char>,
    model: String,
    reason: String,
)
    ensures
        server_after(ServerStartView::CheckTerminal, ServerEvent::Answer(false), args)
            == ServerStartView::Serve(args),
        server_after(ServerStartView::CheckTerminal, ServerEvent::Answer(true), args)
            is ChooseBackend,
        server_after(ServerStartView::ChooseBackend, ServerEvent::Chosen(Some(backend)), args) == (
        ServerStartView::ChooseModel { backend: backend@ }),
        server_after(ServerStartView::ChooseBackend, ServerEvent::Chosen(None), args) is Failed,
        server_after(
            ServerStartView::ChooseModel { backend: chosen },
            ServerEvent::Chosen(Some(model)),
            args,
        ) matches ServerStartView::Serve(served) && served.backend == Some(chosen) && served.model
            == Some(model@) && served.options == args.options,
        server_after(
            ServerStartView::ChooseModel { backend: chosen },
            ServerEvent::Chosen(None),
            args,
        ) is Failed,
        server_after(ServerStartView::ChooseBackend, ServerEvent::Broken(reason), args)
            == ServerStartView::Failed(reason@),
        server_after(
            ServerStartView::ChooseModel { backend: chosen },
            ServerEvent::Broken(reason),
            args,
        ) == ServerStartView::Failed(reason@),
{
}

/// A file is offered for its extension, whatever the case: GGUF for every backend, and
/// safetensors besides for those of vla.cpp.
pub proof fn files_are_offered_for_their_extension(
    extension: Option<Seq<char>>,
    backend: Option<SelectedBackendInfo>,
)
    ensures
        extension is None ==> !loads_extension(extension, backend),
        extension matches Some(e) ==> {
            let vla = backend is Some && (backend->0.family@ == "vla.cpp"@
                || backend->0.model_artifact@ == "vla-artifact"@);
            &&& !vla ==> (loads_extension(extension, backend) <==> lowered(e) == lowered("gguf"@))
            &&& vla ==> (loads_extension(extension, backend) <==> lowered(e) == lowered("gguf"@)
                || lowered(e) == lowered("safetensors"@))
        },
{
}

/// A model is the one of the last session where its file is, and its defaults are the same, or
/// are none on both sides.
pub proof fn models_are_remembered_by_file_and_defaults(state: JsonView, model: SelectedModel)
    ensures
        text_member(state, "model_path"@) != Some(model.model@) ==> !is_remembered(state, model),
        text_member(state, "model_path"@) == Some(model.model@) && member(
            state,
            "request_defaults"@,
        ) == Some(model.request_defaults@) ==> is_remembered(state, model),
        text_member(state, "model_path"@) == Some(model.model@) && member(
            state,
            "request_defaults"@,
        ) is None ==> (is_remembered(state, model) <==> model.request_defaults@ == JsonView::Object(
            no_fields(),
        )),
{
}

} // verus!
