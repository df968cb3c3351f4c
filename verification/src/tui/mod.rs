//! The interactive console: what it does next, and what it decides on the way.
pub mod laws;

use vstd::prelude::*;

use crate::failure::Failure;
use crate::json::{member, no_fields, same_json, text_member, Json, JsonView};
use crate::manager::reports::SelectedModel;
use crate::paths::{
    backfiled, dotted_extension, extension_of, filed, is_vla_extension, path_extension,
    plain_name, vla_extension,
};
use crate::text::chars::{eq_ignoring_case, same_ignoring_case, text_eq};
use crate::text::compose::{copy_opt, copy_texts, no_texts, opt_text, put, texts};
use crate::text::number::{decimal, show};

verus! {

/// How far the console has come: what it does next, or how it ended.
#[derive(Debug)]
pub enum Console {
    /// Finds out whether somebody is there.
    CheckTerminal,
    /// Makes sure that a gateway is running.
    EnsureGateway,
    /// Finds out whether the model of the last session is still there.
    FindModel,
    /// Loads the model of the last session.
    LoadModel,
    /// Lets a model be chosen; before that it says why the last one was not loaded.
    SetUp { notice: Option<String> },
    /// Talks to the model that a backend has loaded.
    Chat { backend: String },
    Finished,
    Failed(Failure),
}

/// What a console says.
pub enum ConsoleView {
    CheckTerminal,
    EnsureGateway,
    FindModel,
    LoadModel,
    SetUp { notice: Option<Seq<char>> },
    Chat { backend: Seq<char> },
    Finished,
    Failed(Seq<char>),
}

impl View for Console {
    type V = ConsoleView;

    open spec fn view(&self) -> ConsoleView {
        match self {
            Console::CheckTerminal => ConsoleView::CheckTerminal,
            Console::EnsureGateway => ConsoleView::EnsureGateway,
            Console::FindModel => ConsoleView::FindModel,
            Console::LoadModel => ConsoleView::LoadModel,
            Console::SetUp { notice } => ConsoleView::SetUp { notice: opt_text(*notice) },
            Console::Chat { backend } => ConsoleView::Chat { backend: backend@ },
            Console::Finished => ConsoleView::Finished,
            Console::Failed(e) => ConsoleView::Failed(e@),
        }
    }
}

/// What came of what a console did.
#[derive(Debug)]
pub enum ConsoleEvent {
    /// The answer to a question.
    Answer(bool),
    /// It is done.
    Done,
    /// A backend has a model loaded.
    Loaded(String),
    /// It went wrong.
    Broken(String),
}

/// How far a console has come after an event. An event that does not fit changes nothing.
pub open spec fn console_after(v: ConsoleView, event: ConsoleEvent) -> ConsoleView {
    match (v, event) {
        (ConsoleView::CheckTerminal, ConsoleEvent::Answer(interactive)) => if interactive {
            ConsoleView::EnsureGateway
        } else {
            ConsoleView::Failed("OmniInfer TUI requires an interactive terminal."@)
        },
        (ConsoleView::EnsureGateway, ConsoleEvent::Done) => ConsoleView::FindModel,
        (ConsoleView::EnsureGateway, ConsoleEvent::Broken(reason)) => ConsoleView::Failed(reason@),
        (ConsoleView::FindModel, ConsoleEvent::Answer(there)) => if there {
            ConsoleView::LoadModel
        } else {
            ConsoleView::SetUp { notice: None }
        },
        (ConsoleView::LoadModel, ConsoleEvent::Loaded(backend)) => ConsoleView::Chat {
            backend: backend@,
        },
        (ConsoleView::LoadModel, ConsoleEvent::Broken(reason)) => ConsoleView::SetUp {
            notice: Some("Could not load previous model: "@ + reason@),
        },
        (ConsoleView::SetUp { notice }, ConsoleEvent::Loaded(backend)) => ConsoleView::Chat {
            backend: backend@,
        },
        (ConsoleView::SetUp { notice }, ConsoleEvent::Broken(reason)) => ConsoleView::Failed(
            reason@,
        ),
        (ConsoleView::Chat { backend }, ConsoleEvent::Done) => ConsoleView::Finished,
        (ConsoleView::Chat { backend }, ConsoleEvent::Broken(reason)) => ConsoleView::Failed(
            reason@,
        ),
        _ => v,
    }
}

/// Runs the console on by one event: what it does next.
pub fn run(console: Console, event: ConsoleEvent) -> (r: Console)
    ensures
        r@ == console_after(console@, event),
{
    match (console, event) {
        (Console::CheckTerminal, ConsoleEvent::Answer(interactive)) => if interactive {
            Console::EnsureGateway
        } else {
            Console::Failed(Failure::new("OmniInfer TUI requires an interactive terminal."))
        },
        (Console::EnsureGateway, ConsoleEvent::Done) => Console::FindModel,
        (Console::EnsureGateway, ConsoleEvent::Broken(reason)) => Console::Failed(
            Failure { message: reason },
        ),
        (Console::FindModel, ConsoleEvent::Answer(there)) => if there {
            Console::LoadModel
        } else {
            Console::SetUp { notice: None }
        },
        (Console::LoadModel, ConsoleEvent::Loaded(backend)) => Console::Chat { backend },
        (Console::LoadModel, ConsoleEvent::Broken(reason)) => Console::SetUp {
            notice: Some(
                "Could not load previous model: ".to_owned().concat(reason.as_str()),
            ),
        },
        (Console::SetUp { notice }, ConsoleEvent::Loaded(backend)) => Console::Chat { backend },
        (Console::SetUp { notice }, ConsoleEvent::Broken(reason)) => Console::Failed(
            Failure { message: reason },
        ),
        (Console::Chat { backend }, ConsoleEvent::Done) => Console::Finished,
        (Console::Chat { backend }, ConsoleEvent::Broken(reason)) => Console::Failed(
            Failure { message: reason },
        ),
        (console, _) => console,
    }
}

/// A model of the last session that cannot be loaded does not end the console: another one
/// can be chosen.
pub proof fn a_lost_model_is_replaced(reason: String)
    ensures
        console_after(ConsoleView::LoadModel, ConsoleEvent::Broken(reason)) is SetUp,
{
}

/// Nobody talks to a model before a backend has one loaded.
pub proof fn chats_have_a_backend(v: ConsoleView, event: ConsoleEvent)
    requires
        !(v is Chat),
        console_after(v, event) is Chat,
    ensures
        v is LoadModel || v is SetUp,
        event matches ConsoleEvent::Loaded(backend) && console_after(v, event) == (
        ConsoleView::Chat { backend: backend@ }),
{
}

/// The gateway that a console uses.
#[derive(Clone, Copy, Debug, PartialEq, Eq, Structural)]
pub struct GatewayGuard {
    pub port: u16,
    /// Whether the console has started it.
    pub owned: bool,
    /// Whether the console has stopped it.
    pub stopped: bool,
}

impl GatewayGuard {
    /// The gateway at a port; the console starts it unless it is running.
    pub fn ensure(port: u16, running: bool) -> (r: GatewayGuard)
        ensures
            r == (GatewayGuard { port, owned: !running, stopped: false }),
    {
        GatewayGuard { port, owned: !running, stopped: false }
    }

    /// Whether the gateway has to be stopped now.
    pub open spec fn to_stop(self) -> bool {
        self.owned && !self.stopped
    }

    /// Whether the gateway has to be stopped now; from here on it counts as stopped.
    pub fn take_stop(&mut self) -> (r: bool)
        ensures
            r == old(self).to_stop(),
            *final(self) == (GatewayGuard {
                stopped: old(self).stopped || old(self).owned,
                ..*old(self)
            }),
    {
        if self.owned && !self.stopped {
            self.stopped = true;
            true
        } else {
            false
        }
    }
}

/// A gateway is stopped once at most, and never where it was running before.
pub proof fn a_gateway_is_stopped_once(before: GatewayGuard, after: GatewayGuard)
    requires
        after == (GatewayGuard { stopped: before.stopped || before.owned, ..before }),
    ensures
        !after.to_stop(),
        !before.owned ==> !before.to_stop(),
{
}

/// The arguments with which the console starts a gateway.
pub fn gateway_arguments(port: u16) -> (r: Vec<String>)
    ensures
        texts(r@) == Seq::<Seq<char>>::empty().push("gateway"@).push("--host"@).push(
            "127.0.0.1"@,
        ).push("--port"@).push(decimal(port as nat)),
{
    let mut r = no_texts();
    put(&mut r, "gateway");
    put(&mut r, "--host");
    put(&mut r, "127.0.0.1");
    put(&mut r, "--port");
    put(&mut r, show(port as u64).as_str());
    r
}

/// What a server is started with.
#[derive(Debug)]
pub struct ServeArgs {
    pub backend: Option<String>,
    pub model: Option<String>,
    /// Everything else, as it was stated.
    pub options: Vec<String>,
}

/// What the arguments say.
#[verifier::ext_equal]
pub struct ServeView {
    pub backend: Option<Seq<char>>,
    pub model: Option<Seq<char>>,
    pub options: Seq<Seq<char>>,
}

impl View for ServeArgs {
    type V = ServeView;

    open spec fn view(&self) -> ServeView {
        ServeView {
            backend: opt_text(self.backend),
            model: opt_text(self.model),
            options: texts(self.options@),
        }
    }
}

/// How far the start of a server has come: what is done next, or how it ended.
#[derive(Debug)]
pub enum ServerStart {
    /// Finds out whether somebody is there.
    CheckTerminal,
    /// Lets a backend be chosen.
    ChooseBackend,
    /// Lets a model be chosen.
    ChooseModel { backend: String },
    /// Serves.
    Serve(ServeArgs),
    Failed(Failure),
}

/// What the start of a server says.
pub enum ServerStartView {
    CheckTerminal,
    ChooseBackend,
    ChooseModel { backend: Seq<char> },
    Serve(ServeView),
    Failed(Seq<char>),
}

impl View for ServerStart {
    type V = ServerStartView;

    open spec fn view(&self) -> ServerStartView {
        match self {
            ServerStart::CheckTerminal => ServerStartView::CheckTerminal,
            ServerStart::ChooseBackend => ServerStartView::ChooseBackend,
            ServerStart::ChooseModel { backend } => {
                ServerStartView::ChooseModel { backend: backend@ }
            },
            ServerStart::Serve(args) => ServerStartView::Serve(args@),
            ServerStart::Failed(e) => ServerStartView::Failed(e@),
        }
    }
}

/// What came of what was done to start a server.
#[derive(Debug)]
pub enum ServerEvent {
    /// The answer to a question.
    Answer(bool),
    /// What was chosen, if anything.
    Chosen(Option<String>),
    /// It went wrong.
    Broken(String),
}

/// How far the start of a server has come after an event. Where nobody is there, the
/// arguments are taken as they are. An event that does not fit changes nothing.
pub open spec fn server_after(
    v: ServerStartView,
    event: ServerEvent,
    args: ServeView,
) -> ServerStartView {
    match (v, event) {
        (ServerStartView::CheckTerminal, ServerEvent::Answer(interactive)) => if interactive {
            ServerStartView::ChooseBackend
        } else {
            ServerStartView::Serve(args)
        },
        (ServerStartView::ChooseBackend, ServerEvent::Chosen(Some(backend))) => {
            ServerStartView::ChooseModel { backend: backend@ }
        },
        (ServerStartView::ChooseBackend, ServerEvent::Chosen(None)) => ServerStartView::Failed(
            "No backend selected."@,
        ),
        (ServerStartView::ChooseModel { backend }, ServerEvent::Chosen(Some(model))) => {
            ServerStartView::Serve(
                ServeView { backend: Some(backend), model: Some(model@), options: args.options },
            )
        },
        (ServerStartView::ChooseModel { backend }, ServerEvent::Chosen(None)) => {
            ServerStartView::Failed("No model selected."@)
        },
        (ServerStartView::ChooseBackend, ServerEvent::Broken(reason)) => ServerStartView::Failed(
            reason@,
        ),
        (ServerStartView::ChooseModel { backend }, ServerEvent::Broken(reason)) => {
            ServerStartView::Failed(reason@)
        },
        _ => v,
    }
}

/// Runs the start of a server on by one event: what is done next.
pub fn run_server(start: ServerStart, event: ServerEvent, args: &ServeArgs) -> (r: ServerStart)
    ensures
        r@ == server_after(start@, event, args@),
{
    match (start, event) {
        (ServerStart::CheckTerminal, ServerEvent::Answer(interactive)) => if interactive {
            ServerStart::ChooseBackend
        } else {
            ServerStart::Serve(
                ServeArgs {
                    backend: copy_opt(&args.backend),
                    model: copy_opt(&args.model),
                    options: copy_texts(&args.options),
                },
            )
        },
        (ServerStart::ChooseBackend, ServerEvent::Chosen(Some(backend))) => {
            ServerStart::ChooseModel { backend }
        },
        (ServerStart::ChooseBackend, ServerEvent::Chosen(None)) => ServerStart::Failed(
            Failure::new("No backend selected."),
        ),
        (ServerStart::ChooseModel { backend }, ServerEvent::Chosen(Some(model))) => {
            ServerStart::Serve(
                ServeArgs {
                    backend: Some(backend),
                    model: Some(model),
                    options: copy_texts(&args.options),
                },
            )
        },
        (ServerStart::ChooseModel { backend }, ServerEvent::Chosen(None)) => ServerStart::Failed(
            Failure::new("No model selected."),
        ),
        (ServerStart::ChooseBackend, ServerEvent::Broken(reason)) => ServerStart::Failed(
            Failure { message: reason },
        ),
        (ServerStart::ChooseModel { backend }, ServerEvent::Broken(reason)) => ServerStart::Failed(
            Failure { message: reason },
        ),
        (start, _) => start,
    }
}

/// A server that is started from the terminal has the backend and the model that were
/// chosen, and keeps every other option; one that is started otherwise keeps them all.
pub proof fn servers_keep_their_options(v: ServerStartView, event: ServerEvent, args: ServeView)
    requires
        !(v is Serve),
        server_after(v, event, args) is Serve,
    ensures
        server_after(v, event, args) matches ServerStartView::Serve(served) && served.options
            == args.options && (v is CheckTerminal ==> served == args) && (!(v is CheckTerminal)
            ==> served.backend is Some && served.model is Some),
{
}

/// What is known of the backend that was chosen.
#[derive(Debug)]
pub struct SelectedBackendInfo {
    pub family: String,
    pub model_artifact: String,
}

/// Whether the backend can load a file with an extension.
pub open spec fn loads_extension(
    extension: Option<Seq<char>>,
    backend: Option<SelectedBackendInfo>,
) -> bool {
    match backend {
        Some(info) => if info.family@ == "vla.cpp"@ || info.model_artifact@ == "vla-artifact"@ {
            vla_extension(extension)
        } else {
            extension is Some && same_ignoring_case(extension->0, "gguf"@)
        },
        None => extension is Some && same_ignoring_case(extension->0, "gguf"@),
    }
}

/// Whether the backend can load a file with an extension.
pub fn extension_supported(extension: &Option<String>, backend: &Option<SelectedBackendInfo>) -> (r:
    bool)
    ensures
        r == loads_extension(opt_text(*extension), *backend),
{
    let vla = match backend {
        Some(info) => text_eq(info.family.as_str(), "vla.cpp") || text_eq(
            info.model_artifact.as_str(),
            "vla-artifact",
        ),
        None => false,
    };
    if vla {
        is_vla_extension(extension)
    } else {
        match extension {
            Some(e) => eq_ignoring_case(e.as_str(), "gguf"),
            None => false,
        }
    }
}

/// Whether the backend can load the file at a path.
pub fn model_supported_by_backend(path: &str, backend: &Option<SelectedBackendInfo>) -> (r: bool)
    ensures
        exists|e: Option<Seq<char>>|
            #[trigger] extension_of(path@, e) && r == loads_extension(e, *backend),
        plain_name(path@) ==> r == loads_extension(dotted_extension(path@), *backend),
        forall|dir: Seq<char>, name: Seq<char>| #[trigger]
            filed(path@, dir, name) ==> r == loads_extension(dotted_extension(name), *backend),
        forall|dir: Seq<char>, name: Seq<char>| #[trigger]
            backfiled(path@, dir, name) ==> r == loads_extension(
                dotted_extension(name),
                *backend,
            ),
{
    let extension = path_extension(path);
    assert(extension_of(path@, opt_text(extension)));
    extension_supported(&extension, backend)
}

/// Whether the gateway has the model of the last session loaded, with the same defaults for
/// requests. Defaults that are not stated are none.
pub open spec fn is_remembered(state: JsonView, model: SelectedModel) -> bool {
    &&& text_member(state, "model_path"@) == Some(model.model@)
    &&& match member(state, "request_defaults"@) {
        Some(defaults) => defaults == model.request_defaults@,
        None => model.request_defaults@ == JsonView::Object(no_fields()),
    }
}

/// Whether the gateway has the model of the last session loaded, with the same defaults for
/// requests.
pub fn state_matches_remembered_model(state: &Json, model: &SelectedModel) -> (r: bool)
    ensures
        r == is_remembered(state@, *model),
{
    match state.get_text("model_path") {
        Some(path) => if !text_eq(path.as_str(), model.model.as_str()) {
            return false;
        },
        None => {
            return false;
        },
    }
    match state.get("request_defaults") {
        Some(defaults) => same_json(defaults, &model.request_defaults),
        None => same_json(&Json::empty_object(), &model.request_defaults),
    }
}

} // verus!
