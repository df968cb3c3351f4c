//! Commands that run inside a distribution.
use vstd::prelude::*;

use crate::json::{no_fields, text_or_null, Fields, Json, JsonView};
use crate::text::compose::{no_texts, opt_text, put, put_all, texts};

verus! {

/// A list of arguments that is put together one by one.
pub struct Args {
    list: Vec<String>,
}

impl View for Args {
    type V = Seq<Seq<char>>;

    closed spec fn view(&self) -> Seq<Seq<char>> {
        texts(self.list@)
    }
}

pub open spec fn no_args() -> Seq<Seq<char>> {
    Seq::empty()
}

impl Args {
    /// No arguments.
    pub fn new() -> (r: Args)
        ensures
            r@ == no_args(),
    {
        Args { list: no_texts() }
    }

    /// The arguments with one more.
    pub fn with(self, argument: &str) -> (r: Args)
        ensures
            r@ == self@.push(argument@),
    {
        let mut list = self.list;
        put(&mut list, argument);
        Args { list }
    }

    /// The arguments with more behind them.
    pub fn with_all(self, more: &Vec<String>) -> (r: Args)
        ensures
            r@ == self@ + texts(more@),
    {
        let mut list = self.list;
        put_all(&mut list, more);
        Args { list }
    }

    /// The arguments.
    pub fn done(self) -> (r: Vec<String>)
        ensures
            texts(r@) == self@,
    {
        self.list
    }
}

/// What a command reads.
#[derive(Debug)]
pub enum CommandInput {
    Nothing,
    Bytes(Vec<u8>),
    /// The contents of the file at a path.
    File(String),
}

/// What an input says.
pub enum InputView {
    Nothing,
    Bytes(Seq<u8>),
    File(Seq<char>),
}

impl View for CommandInput {
    type V = InputView;

    open spec fn view(&self) -> InputView {
        match self {
            CommandInput::Nothing => InputView::Nothing,
            CommandInput::Bytes(b) => InputView::Bytes(b@),
            CommandInput::File(p) => InputView::File(p@),
        }
    }
}

/// A command that runs inside a distribution and has to succeed.
#[derive(Debug)]
pub struct WslCommand {
    pub user: Option<String>,
    pub args: Vec<String>,
    pub input: CommandInput,
    /// What the command does, in words.
    pub action: String,
}

/// What a command says.
#[verifier::ext_equal]
pub struct CommandView {
    pub user: Option<Seq<char>>,
    pub args: Seq<Seq<char>>,
    pub input: InputView,
    pub action: Seq<char>,
}

impl View for WslCommand {
    type V = CommandView;

    open spec fn view(&self) -> CommandView {
        CommandView {
            user: opt_text(self.user),
            args: texts(self.args@),
            input: self.input@,
            action: self.action@,
        }
    }
}

/// A command that the user of the distribution runs.
pub open spec fn as_user(args: Seq<Seq<char>>, action: Seq<char>) -> CommandView {
    CommandView { user: None, args, input: InputView::Nothing, action }
}

/// A command that the system's administrator runs.
pub open spec fn as_root(
    args: Seq<Seq<char>>,
    input: InputView,
    action: Seq<char>,
) -> CommandView {
    CommandView { user: Some("root"@), args, input, action }
}

/// A command that the user of the distribution runs.
pub fn user_command(args: Args, action: &str) -> (r: WslCommand)
    ensures
        r@ == as_user(args@, action@),
{
    WslCommand {
        user: None,
        args: args.done(),
        input: CommandInput::Nothing,
        action: action.to_owned(),
    }
}

/// A command that the system's administrator runs.
pub fn root_command(args: Args, input: CommandInput, action: &str) -> (r: WslCommand)
    ensures
        r@ == as_root(args@, input@, action@),
{
    WslCommand {
        user: Some("root".to_owned()),
        args: args.done(),
        input,
        action: action.to_owned(),
    }
}

/// The arguments with which `wsl.exe` runs a command.
pub open spec fn full_arguments(
    distribution: Seq<char>,
    user: Option<Seq<char>>,
    args: Seq<Seq<char>>,
) -> Seq<Seq<char>> {
    let start = no_args().push("--distribution"@).push(distribution);
    let named = match user {
        Some(u) => start.push("--user"@).push(u),
        None => start,
    };
    named.push("--exec"@) + args
}

/// The arguments with which `wsl.exe` runs a command.
pub fn wsl_arguments(distribution: &str, user: &Option<String>, args: &Vec<String>) -> (r: Vec<
    String,
>)
    ensures
        texts(r@) == full_arguments(distribution@, opt_text(*user), texts(args@)),
{
    let start = Args::new().with("--distribution").with(distribution);
    let named = match user {
        Some(u) => start.with("--user").with(u.as_str()),
        None => start,
    };
    named.with("--exec").with_all(args).done()
}

/// What is reported when a command starts.
pub open spec fn started_report(c: CommandView, distribution: Seq<char>) -> JsonView {
    JsonView::Object(
        no_fields()
            .push(("action"@, JsonView::Text(c.action)))
            .push(("distribution"@, JsonView::Text(distribution)))
            .push(
                (
                    "command"@,
                    if c.args.len() > 0 {
                        JsonView::Text(c.args[0])
                    } else {
                        JsonView::Null
                    },
                ),
            )
            .push(("user"@, text_or_null(c.user))),
    )
}

/// What is reported when a command starts.
pub fn command_started(c: &WslCommand, distribution: &str) -> (json: Json)
    ensures
        json@ == started_report(c@, distribution@),
{
    let mut fields = Fields::new();
    fields.text("action", c.action.as_str());
    fields.text("distribution", distribution);
    if c.args.len() > 0 {
        assert(texts(c.args@)[0] == c.args@[0]@);
        fields.text("command", c.args[0].as_str());
    } else {
        fields.null("command");
    }
    fields.opt_text("user", &c.user);
    fields.done()
}

/// What is reported when a command has succeeded.
pub fn command_completed(action: &str) -> (json: Json)
    ensures
        json@ == JsonView::Object(no_fields().push(("action"@, JsonView::Text(action@)))),
{
    let mut fields = Fields::new();
    fields.text("action", action);
    fields.done()
}

/// The command is run as it stands, behind what says where it is run.
pub proof fn commands_come_last(
    distribution: Seq<char>,
    user: Option<Seq<char>>,
    args: Seq<Seq<char>>,
)
    ensures
        full_arguments(distribution, user, args).len() == args.len() + (if user is Some {
            5int
        } else {
            3int
        }),
        full_arguments(distribution, user, args).skip(
            full_arguments(distribution, user, args).len() - args.len(),
        ) == args,
        full_arguments(distribution, user, args)[1] == distribution,
{
    let full = full_arguments(distribution, user, args);
    assert(full.skip(full.len() - args.len()) =~= args);
}

} // verus!
