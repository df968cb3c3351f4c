//! What a plan says of a request, told from the request alone.
use vstd::prelude::*;

use crate::json::{stated_member, texts_member};
use crate::runtime::args::{
    first_managed, flag_of, last_value, managed_flag, with_flag, without_flags,
};
use crate::runtime::plan::{
    plan_error_message, planned, translated, ExternalServerProtocol, ManifestView, PlanErrorView,
    PlanView, RequestView,
};
use crate::text::chars::{control, letter};
use crate::text::number::{decimal, parsing_undoes_showing};
use crate::text::pieces::pieces;
use crate::text::search::{before_first, first_of, lemma_first_of, starts_with};
use crate::text::trim::blank;

verus! {

/// Whether a backend speaks the protocol of llama.cpp: it states that, or states none.
pub open spec fn speaks_llama(request: RequestView) -> bool {
    match stated_member(request.backend, "external_server_protocol"@) {
        Some(p) => p == "llama.cpp-server"@,
        None => true,
    }
}

/// Whether a backend speaks the given protocol.
pub open spec fn speaks(request: RequestView, protocol: Seq<char>) -> bool {
    stated_member(request.backend, "external_server_protocol"@) == Some(protocol)
}

/// Whether `part` stands in a command from a place on.
pub open spec fn runs_from(command: Seq<Seq<char>>, at: int, part: Seq<Seq<char>>) -> bool {
    0 <= at && at + part.len() <= command.len() && command.subrange(at, at + part.len()) == part
}

/// How many words a llama.cpp command has before its launch arguments.
pub open spec fn llama_head(id: Seq<char>) -> int {
    if starts_with(id, "ik_llama.cpp"@) {
        11
    } else {
        10
    }
}

/// A llama.cpp server is launched by its launcher, for the model of the request, on the
/// host and port of the request, with its slots in the directory of the logs; and its
/// projector, where there is one, comes last.
pub proof fn llama_commands_serve_the_request(
    request: RequestView,
    manifest: Result<ManifestView, Seq<char>>,
    wsl: Seq<char>,
    parent: Option<Seq<char>>,
    log_dir: Seq<char>,
)
    requires
        speaks_llama(request),
        planned(request, manifest, wsl, parent, log_dir) is Ok,
    ensures
        ({
            let plan = planned(request, manifest, wsl, parent, log_dir)->Ok_0;
            let c = plan.command;
            let id = stated_member(request.backend, "id"@)->0;
            let n = llama_head(id);
            &&& c.len() >= n
            &&& Some(c[0]) == stated_member(request.backend, "launcher_path"@)
            &&& c[1] == "-m"@ && c[2] == request.model_path
            &&& c[3] == "--host"@ && c[4] == request.host
            &&& c[5] == "--port"@ && c[6] == decimal(request.port as nat)
            &&& starts_with(id, "ik_llama.cpp"@) ==> c[7] == "--webui"@ && c[8] == "none"@
            &&& !starts_with(id, "ik_llama.cpp"@) ==> c[7] == "--no-webui"@
            &&& c[n - 2] == "--slot-save-path"@ && c[n - 1] == log_dir
            &&& match request.mmproj_path {
                Some(p) => p.len() > 0 ==> c.len() >= n + 2 && c[c.len() - 2] == "--mmproj"@
                    && c.last() == p,
                None => true,
            }
            &&& plan.protocol == ExternalServerProtocol::LlamaCppServer
            &&& plan.stop_command is None
            &&& plan.proxy_model_ref is None
        }),
{
    reveal_strlit("llama.cpp-server");
    reveal_strlit("vllm-openai-server");
    reveal_strlit("vllm-wsl2-openai-server");
}

/// The words of a plan's command that come of launch arguments: those behind its head and
/// before its projector.
pub open spec fn llama_tail(request: RequestView, command: Seq<Seq<char>>) -> Seq<Seq<char>> {
    let n = llama_head(stated_member(request.backend, "id"@)->0);
    let m: int = if request.mmproj_path is Some && request.mmproj_path->0.len() > 0 {
        2
    } else {
        0
    };
    command.subrange(n, command.len() - m)
}

/// The launch arguments of a request are those that a llama.cpp server gets, word for word;
/// those of the backend count only where the request has none. A context size of the
/// request is set behind them.
pub proof fn llama_servers_get_the_launch_args(
    request: RequestView,
    manifest: Result<ManifestView, Seq<char>>,
    wsl: Seq<char>,
    parent: Option<Seq<char>>,
    log_dir: Seq<char>,
)
    requires
        speaks_llama(request),
        planned(request, manifest, wsl, parent, log_dir) is Ok,
    ensures
        ({
            let tail = llama_tail(
                request,
                planned(request, manifest, wsl, parent, log_dir)->Ok_0.command,
            );
            &&& request.ctx_size is None && request.launch_args is Some ==> tail
                == request.launch_args->0
            &&& request.ctx_size is None && request.launch_args is None ==> tail == (
            match texts_member(request.backend, "default_args"@) {
                Some(args) => args,
                None => seq![],
            })
            &&& request.ctx_size is Some ==> tail.len() >= 2 && tail[tail.len() - 2] == "-c"@
                && tail.last() == decimal(request.ctx_size->0 as nat)
            &&& request.ctx_size is Some && request.launch_args is Some && !(
            request.launch_args->0.contains("-c"@)) && !(request.launch_args->0.contains(
                "--ctx-size"@,
            )) ==> tail.drop_last().drop_last() == request.launch_args->0
        }),
{
    reveal_strlit("llama.cpp-server");
    reveal_strlit("vllm-openai-server");
    reveal_strlit("vllm-wsl2-openai-server");
    assert("llama.cpp-server"@.len() == 16);
    assert("vllm-openai-server"@.len() == 18);
    assert("vllm-wsl2-openai-server"@.len() == 23);
    let plan = planned(request, manifest, wsl, parent, log_dir)->Ok_0;
    let tail = llama_tail(request, plan.command);
    let flags = seq!["-c"@, "--ctx-size"@];
    let base = match request.launch_args {
        Some(args) => args,
        None => match texts_member(request.backend, "default_args"@) {
            Some(args) => args,
            None => seq![],
        },
    };
    match request.ctx_size {
        None => {
            assert(tail =~= base);
        },
        Some(n) => {
            let set = with_flag(base, flags, decimal(n as nat));
            assert(tail =~= set);
            if request.launch_args is Some && !base.contains("-c"@) && !base.contains(
                "--ctx-size"@,
            ) {
                assert forall|i: int| 0 <= i < base.len() implies !flags.contains(
                    #[trigger] base[i],
                ) by {
                    assert(base.contains(base[i]));
                    assert(flags[0] == "-c"@ && flags[1] == "--ctx-size"@);
                }
                lemma_no_flags(base, flags);
                assert(tail.drop_last().drop_last() =~= base);
            }
        },
    }
}

proof fn lemma_no_flags(args: Seq<Seq<char>>, flags: Seq<Seq<char>>)
    requires
        forall|i: int| 0 <= i < args.len() ==> !flags.contains(#[trigger] args[i]),
    ensures
        without_flags(args, flags) == args,
        last_value(args, flags) is None,
    decreases args.len(),
{
    if args.len() > 0 {
        let rest = args.drop_first();
        assert(!flags.contains(args[0]));
        assert forall|i: int| 0 <= i < rest.len() implies !flags.contains(#[trigger] rest[i]) by {
            assert(rest[i] == args[i + 1]);
        }
        lemma_no_flags(rest, flags);
        assert(seq![args[0]] + rest =~= args);
    }
}

/// A flag that is set stands at the end with its value, and under none of its names before.
/// Everything that no name of it stands before stays.
pub proof fn a_set_flag_stands_alone(args: Seq<Seq<char>>, flags: Seq<Seq<char>>, value: Seq<char>)
    requires
        flags.len() > 0,
    ensures
        ({
            let set = with_flag(args, flags, value);
            &&& set.len() >= 2 && set[set.len() - 2] == flags[0] && set.last() == value
            &&& forall|i: int| 0 <= i < set.len() - 2 ==> !flags.contains(#[trigger] set[i])
            &&& args.len() > 0 && !flags.contains(args[0]) ==> set == seq![args[0]] + with_flag(
                args.drop_first(),
                flags,
                value,
            )
            &&& args.len() > 1 && flags.contains(args[0]) ==> set == with_flag(
                args.skip(2),
                flags,
                value,
            )
        }),
{
    lemma_without_flags(args, flags);
    let set = with_flag(args, flags, value);
    assert forall|i: int| 0 <= i < set.len() - 2 implies !flags.contains(#[trigger] set[i]) by {
        assert(set[i] == without_flags(args, flags)[i]);
    }
    if args.len() > 0 && !flags.contains(args[0]) {
        assert(set =~= seq![args[0]] + with_flag(args.drop_first(), flags, value));
    }
}

proof fn lemma_without_flags(args: Seq<Seq<char>>, flags: Seq<Seq<char>>)
    ensures
        forall|i: int|
            0 <= i < without_flags(args, flags).len() ==> !flags.contains(
                #[trigger] without_flags(args, flags)[i],
            ),
    decreases args.len(),
{
    if args.len() > 0 {
        if !flags.contains(args[0]) {
            let rest = without_flags(args.drop_first(), flags);
            lemma_without_flags(args.drop_first(), flags);
            assert(without_flags(args, flags) == seq![args[0]] + rest);
            assert forall|i: int| 0 <= i < without_flags(args, flags).len() implies !flags.contains(
                #[trigger] without_flags(args, flags)[i],
            ) by {
                if i > 0 {
                    assert(without_flags(args, flags)[i] == rest[i - 1]);
                }
            }
        } else if args.len() > 1 {
            lemma_without_flags(args.skip(2), flags);
            assert(without_flags(args, flags) == without_flags(args.skip(2), flags));
        }
    }
}

/// Where a request has launch arguments, the defaults of its backend make no difference.
pub proof fn launch_args_replace_the_defaults(
    a: RequestView,
    b: RequestView,
    manifest: Result<ManifestView, Seq<char>>,
    wsl: Seq<char>,
    parent: Option<Seq<char>>,
    log_dir: Seq<char>,
)
    requires
        a.launch_args is Some,
        b == (RequestView { backend: b.backend, ..a }),
        stated_member(a.backend, "id"@) == stated_member(b.backend, "id"@),
        stated_member(a.backend, "launcher_path"@) == stated_member(b.backend, "launcher_path"@),
        stated_member(a.backend, "log_file_name"@) == stated_member(b.backend, "log_file_name"@),
        stated_member(a.backend, "external_server_protocol"@) == stated_member(
            b.backend,
            "external_server_protocol"@,
        ),
    ensures
        planned(a, manifest, wsl, parent, log_dir) == planned(b, manifest, wsl, parent, log_dir),
{
}

/// A runtime runs in the directory of its launcher, on the port and under the address of
/// the request, and writes the log that its backend names.
pub proof fn plans_keep_what_was_asked_for(
    request: RequestView,
    manifest: Result<ManifestView, Seq<char>>,
    wsl: Seq<char>,
    parent: Option<Seq<char>>,
    log_dir: Seq<char>,
)
    requires
        planned(request, manifest, wsl, parent, log_dir) is Ok,
    ensures
        ({
            let plan = planned(request, manifest, wsl, parent, log_dir)->Ok_0;
            &&& request.port > 0 && plan.port == request.port
            &&& parent is Some ==> plan.cwd == parent->0
            &&& parent is None ==> plan.cwd == "."@
            &&& plan.client_endpoint == "http://"@ + request.host + ":"@ + decimal(
                request.port as nat,
            )
            &&& match stated_member(request.backend, "log_file_name"@) {
                Some(name) => plan.log_file_name == name,
                None => plan.log_file_name == "runtime.log"@,
            }
            &&& plan.marker is None
            &&& request.ctx_size is Some ==> plan.ctx_size == request.ctx_size
        }),
{
    if request.ctx_size is Some {
        crate::runtime::plan::requested_ctx_size_takes_effect(
            request,
            manifest,
            wsl,
            parent,
            log_dir,
        );
    }
}

/// The launch arguments that a request is served with, before a context size is set.
pub open spec fn served_args(request: RequestView) -> Seq<Seq<char>> {
    match request.launch_args {
        Some(args) => args,
        None => match texts_member(request.backend, "default_args"@) {
            Some(args) => args,
            None => seq![],
        },
    }
}

/// A vLLM server is launched by its launcher, for the model of the request, on the host and
/// port of the request, and ends with its launch arguments.
pub proof fn vllm_commands_serve_the_request(
    request: RequestView,
    manifest: Result<ManifestView, Seq<char>>,
    wsl: Seq<char>,
    parent: Option<Seq<char>>,
    log_dir: Seq<char>,
)
    requires
        speaks(request, "vllm-openai-server"@),
        planned(request, manifest, wsl, parent, log_dir) is Ok,
    ensures
        ({
            let plan = planned(request, manifest, wsl, parent, log_dir)->Ok_0;
            let c = plan.command;
            let args = served_args(request);
            &&& c.len() >= 7
            &&& Some(c[0]) == stated_member(request.backend, "launcher_path"@)
            &&& c[1] == "serve"@ && c[2] == request.model_path
            &&& c[3] == "--host"@ && c[4] == request.host
            &&& c[5] == "--port"@ && c[6] == decimal(request.port as nat)
            &&& request.ctx_size is None ==> runs_from(c, c.len() - args.len(), args) && (c.len()
                == 7 + args.len() || c.len() == 9 + args.len() && c[7]
                == "--served-model-name"@ && c[8] == "local"@)
            &&& request.ctx_size is Some ==> c[c.len() - 2] == "--max-model-len"@ && c.last()
                == decimal(request.ctx_size->0 as nat)
            &&& plan.protocol == ExternalServerProtocol::VllmOpenaiServer
            &&& plan.stop_command is None
            &&& plan.proxy_model_ref is Some
        }),
{
    reveal_strlit("llama.cpp-server");
    reveal_strlit("vllm-openai-server");
    assert("llama.cpp-server"@.len() == 16);
    assert("vllm-openai-server"@.len() == 18);
    let c = planned(request, manifest, wsl, parent, log_dir)->Ok_0.command;
    let args = served_args(request);
    if request.ctx_size is None {
        assert(c.subrange(c.len() - args.len(), c.len() as int) =~= args);
        crate::runtime::plan::vllm_models_are_served_under_a_name(args);
    } else {
        let set = with_flag(
            args,
            seq!["--max-model-len"@, ""@],
            decimal(request.ctx_size->0 as nat),
        );
        crate::runtime::plan::vllm_models_are_served_under_a_name(set);
    }
}

/// A vLLM server whose arguments name no model serves it as the local one, and requests are
/// sent on under that name; a name in the arguments is kept.
pub proof fn vllm_models_have_the_name_that_is_served(
    request: RequestView,
    manifest: Result<ManifestView, Seq<char>>,
    wsl: Seq<char>,
    parent: Option<Seq<char>>,
    log_dir: Seq<char>,
    name: Seq<char>,
)
    requires
        speaks(request, "vllm-openai-server"@) || speaks(request, "vllm-wsl2-openai-server"@),
        planned(request, manifest, wsl, parent, log_dir) is Ok,
        request.ctx_size is None,
    ensures
        ({
            let plan = planned(request, manifest, wsl, parent, log_dir)->Ok_0;
            let args = served_args(request);
            let n = plan.command.len() - args.len();
            &&& !args.contains("--served-model-name"@) ==> n >= 2 && plan.command[n - 2]
                == "--served-model-name"@ && plan.command[n - 1] == "local"@
                && plan.proxy_model_ref == Some("local"@)
            &&& args == seq!["--served-model-name"@, name] ==> plan.proxy_model_ref == Some(name)
        }),
{
    reveal_strlit("llama.cpp-server");
    reveal_strlit("vllm-openai-server");
    reveal_strlit("vllm-wsl2-openai-server");
    assert("llama.cpp-server"@.len() == 16);
    assert("vllm-openai-server"@.len() == 18);
    assert("vllm-wsl2-openai-server"@.len() == 23);
    let args = served_args(request);
    let flags = seq!["--served-model-name"@];
    assert(flags[0] == "--served-model-name"@);
    reveal_with_fuel(last_value, 2);
    if !args.contains("--served-model-name"@) {
        assert forall|i: int| 0 <= i < args.len() implies !flags.contains(#[trigger] args[i]) by {
            assert(args.contains(args[i]));
        }
        lemma_no_flags(args, flags);
        let all = seq!["--served-model-name"@, "local"@] + args;
        assert(all[0] == "--served-model-name"@ && all[1] == "local"@);
        assert(all.skip(2) =~= args);
        assert(last_value(all, flags) == Some("local"@));
    }
    if args == seq!["--served-model-name"@, name] {
        assert(args[0] == "--served-model-name"@ && args[1] == name);
        assert(args.skip(2) =~= Seq::<Seq<char>>::empty());
        assert(last_value(args, flags) == Some(name));
    }
}

/// A vLLM server in a distribution is launched there through the runner of its launcher
/// file, which notes its process under the port, for the model as the distribution sees
/// it; and it is stopped there through the stopper, by the same note.
pub proof fn wsl_commands_serve_the_request(
    request: RequestView,
    m: ManifestView,
    wsl: Seq<char>,
    parent: Option<Seq<char>>,
    log_dir: Seq<char>,
)
    requires
        speaks(request, "vllm-wsl2-openai-server"@),
        planned(request, Ok(m), wsl, parent, log_dir) is Ok,
    ensures
        ({
            let plan = planned(request, Ok(m), wsl, parent, log_dir)->Ok_0;
            let c = plan.command;
            let s = plan.stop_command->0;
            let args = served_args(request);
            &&& c.len() >= 13
            &&& c[0] == wsl && c[1] == "--distribution"@ && c[2] == m.distribution
            &&& c[3] == "--exec"@ && c[4] == m.linux_runner
            &&& starts_with(c[5], crate::text::trim::right_trimmed(
                m.linux_pid_dir,
                crate::text::trim::CharClass::Only('/'),
            ) + "/"@ + decimal(request.port as nat))
            &&& c[6] == m.linux_launcher && c[7] == "serve"@
            &&& Ok::<Seq<char>, PlanErrorView>(c[8]) == translated(
                request.model_path,
                m.automount_root,
            )
            &&& c[9] == "--host"@ && c[10] == request.host
            &&& c[11] == "--port"@ && c[12] == decimal(request.port as nat)
            &&& request.ctx_size is None ==> runs_from(c, c.len() - args.len(), args)
            &&& request.ctx_size is Some ==> c[c.len() - 2] == "--max-model-len"@ && c.last()
                == decimal(request.ctx_size->0 as nat)
            &&& plan.stop_command is Some && s.len() == 6
            &&& s[0] == wsl && s[1] == "--distribution"@ && s[2] == m.distribution
            &&& s[3] == "--exec"@ && s[4] == m.linux_stopper && s[5] == c[5]
            &&& plan.protocol == ExternalServerProtocol::VllmWsl2OpenaiServer
            &&& m.schema_version == 1
            &&& Some(m.backend) == stated_member(request.backend, "id"@)
            &&& m.linux_launcher[0] == '/' && m.linux_runner[0] == '/'
            &&& m.linux_stopper[0] == '/' && m.linux_pid_dir[0] == '/'
            &&& m.automount_root[0] == '/'
        }),
{
    reveal_strlit("llama.cpp-server");
    reveal_strlit("vllm-openai-server");
    reveal_strlit("vllm-wsl2-openai-server");
    assert("llama.cpp-server"@.len() == 16);
    assert("vllm-openai-server"@.len() == 18);
    assert("vllm-wsl2-openai-server"@.len() == 23);
    let c = planned(request, Ok(m), wsl, parent, log_dir)->Ok_0.command;
    let args = served_args(request);
    if request.ctx_size is None {
        assert(c.subrange(c.len() - args.len(), c.len() as int) =~= args);
    }
    let start = crate::text::trim::right_trimmed(
        m.linux_pid_dir,
        crate::text::trim::CharClass::Only('/'),
    ) + "/"@ + decimal(request.port as nat);
    assert(c[5].subrange(0, start.len() as int) =~= start);
}

proof fn lemma_single_flag(args: Seq<Seq<char>>, flags: Seq<Seq<char>>, i: int)
    requires
        0 <= i < args.len() - 1,
        flags.contains(args[i]),
        forall|j: int| 0 <= j < args.len() && j != i ==> !flags.contains(#[trigger] args[j]),
    ensures
        last_value(args, flags) == Some(args[i + 1]),
    decreases args.len(),
{
    if i == 0 {
        let rest = args.skip(2);
        assert forall|j: int| 0 <= j < rest.len() implies !flags.contains(#[trigger] rest[j]) by {
            assert(rest[j] == args[j + 2]);
        }
        lemma_no_flags(rest, flags);
    } else {
        assert(!flags.contains(args[0]));
        let rest = args.drop_first();
        assert(rest[i - 1] == args[i] && rest[i] == args[i + 1]);
        assert forall|j: int| 0 <= j < rest.len() && j != i - 1 implies !flags.contains(
            #[trigger] rest[j],
        ) by {
            assert(rest[j] == args[j + 1]);
        }
        lemma_single_flag(rest, flags, i - 1);
    }
}

/// A context size that the launch arguments of a llama.cpp server set is the one that is
/// known of it; there is none where they set none.
pub proof fn context_sizes_in_arguments_are_known(
    request: RequestView,
    manifest: Result<ManifestView, Seq<char>>,
    wsl: Seq<char>,
    parent: Option<Seq<char>>,
    log_dir: Seq<char>,
    i: int,
    n: u32,
)
    requires
        speaks_llama(request),
        request.ctx_size is None,
        planned(request, manifest, wsl, parent, log_dir) is Ok,
    ensures
        ({
            let plan = planned(request, manifest, wsl, parent, log_dir)->Ok_0;
            let args = served_args(request);
            &&& 0 <= i < args.len() - 1 && (args[i] == "-c"@ || args[i] == "--ctx-size"@)
                && args[i + 1] == decimal(n as nat) && (forall|j: int|
                0 <= j < args.len() && j != i ==> #[trigger] args[j] != "-c"@ && args[j]
                    != "--ctx-size"@) ==> plan.ctx_size == Some(n)
            &&& !args.contains("-c"@) && !args.contains("--ctx-size"@) ==> plan.ctx_size is None
        }),
{
    reveal_strlit("llama.cpp-server");
    reveal_strlit("vllm-openai-server");
    reveal_strlit("vllm-wsl2-openai-server");
    assert("llama.cpp-server"@.len() == 16);
    assert("vllm-openai-server"@.len() == 18);
    assert("vllm-wsl2-openai-server"@.len() == 23);
    let args = served_args(request);
    let flags = seq!["-c"@, "--ctx-size"@];
    assert(flags[0] == "-c"@ && flags[1] == "--ctx-size"@);
    if 0 <= i < args.len() - 1 && (args[i] == "-c"@ || args[i] == "--ctx-size"@) && args[i + 1]
        == decimal(n as nat) && (forall|j: int|
        0 <= j < args.len() && j != i ==> #[trigger] args[j] != "-c"@ && args[j]
            != "--ctx-size"@) {
        lemma_single_flag(args, flags, i);
        parsing_undoes_showing(n as nat, u32::MAX as nat);
    }
    if !args.contains("-c"@) && !args.contains("--ctx-size"@) {
        assert forall|j: int| 0 <= j < args.len() implies !flags.contains(#[trigger] args[j]) by {
            assert(args.contains(args[j]));
        }
        lemma_no_flags(args, flags);
    }
}

/// The flags that a gateway sets by itself.
pub open spec fn set_by_the_gateway(flag: Seq<char>) -> bool {
    flag == "-m"@ || flag == "--model"@ || flag == "-mm"@ || flag == "--mmproj"@ || flag
        == "--host"@ || flag == "--port"@ || flag == "--no-webui"@
}

proof fn lemma_flags_without_equals(flag: Seq<char>)
    requires
        set_by_the_gateway(flag),
    ensures
        !flag.contains('='),
{
    reveal_strlit("-m");
    reveal_strlit("--model");
    reveal_strlit("-mm");
    reveal_strlit("--mmproj");
    reveal_strlit("--host");
    reveal_strlit("--port");
    reveal_strlit("--no-webui");
}

proof fn lemma_flag_before_equals(flag: Seq<char>, rest: Seq<char>)
    requires
        !flag.contains('='),
    ensures
        flag_of(flag) == flag,
        flag_of(flag + seq!['='] + rest) == flag,
{
    lemma_first_of(flag, '=');
    if first_of(flag, '=') < flag.len() {
        assert(flag.contains(flag[first_of(flag, '=')]));
    }
    assert(flag.take(flag.len() as int) =~= flag);
    let all = flag + seq!['='] + rest;
    lemma_first_of(all, '=');
    let k = first_of(all, '=');
    if k < flag.len() {
        assert(flag[k] == '=');
        assert(flag.contains('='));
    }
    assert(all[flag.len() as int] == '=');
    assert(k == flag.len());
    assert(all.take(k) =~= flag);
}

proof fn lemma_managed_found(args: Seq<Seq<char>>, i: int)
    requires
        0 <= i < args.len(),
        managed_flag(flag_of(args[i])),
    ensures
        first_managed(args) is Some,
    decreases args.len(),
{
    if i > 0 {
        assert(args.drop_first()[i - 1] == args[i]);
        lemma_managed_found(args.drop_first(), i - 1);
    }
}

/// Launch arguments cannot set the model, the projector, the host, the port or the web page
/// of a server, neither as a word nor before an equals sign.
pub proof fn arguments_leave_the_gateway_its_flags(
    request: RequestView,
    manifest: Result<ManifestView, Seq<char>>,
    wsl: Seq<char>,
    parent: Option<Seq<char>>,
    log_dir: Seq<char>,
    i: int,
    flag: Seq<char>,
    rest: Seq<char>,
)
    requires
        set_by_the_gateway(flag),
        0 <= i < served_args(request).len(),
        served_args(request)[i] == flag || served_args(request)[i] == flag + seq!['='] + rest,
    ensures
        planned(request, manifest, wsl, parent, log_dir) is Err,
{
    lemma_flags_without_equals(flag);
    lemma_flag_before_equals(flag, rest);
    lemma_managed_found(served_args(request), i);
}

/// What is refused of such arguments is the first flag that is not theirs to set, without what
/// stands behind its equals sign.
pub proof fn the_first_reserved_flag_is_named(
    request: RequestView,
    manifest: Result<ManifestView, Seq<char>>,
    wsl: Seq<char>,
    parent: Option<Seq<char>>,
    log_dir: Seq<char>,
    i: int,
    flag: Seq<char>,
    rest: Seq<char>,
)
    requires
        request.port > 0,
        stated_member(request.backend, "id"@) is Some,
        stated_member(request.backend, "launcher_path"@) is Some,
        set_by_the_gateway(flag),
        0 <= i < served_args(request).len(),
        served_args(request)[i] == flag || served_args(request)[i] == flag + seq!['='] + rest,
        forall|j: int|
            0 <= j < i ==> !set_by_the_gateway(
                before_first(#[trigger] served_args(request)[j], '='),
            ),
    ensures
        planned(request, manifest, wsl, parent, log_dir) == Err::<PlanView, PlanErrorView>(
            PlanErrorView::ReservedLaunchArg(flag),
        ),
{
    lemma_flags_without_equals(flag);
    lemma_flag_before_equals(flag, rest);
    lemma_first_reserved(served_args(request), i);
}

proof fn lemma_first_reserved(args: Seq<Seq<char>>, i: int)
    requires
        0 <= i < args.len(),
        managed_flag(flag_of(args[i])),
        forall|j: int| 0 <= j < i ==> !set_by_the_gateway(before_first(#[trigger] args[j], '=')),
    ensures
        first_managed(args) == Some(flag_of(args[i])),
    decreases args.len(),
{
    if i > 0 {
        let rest = args.drop_first();
        assert(!set_by_the_gateway(before_first(args[0], '=')));
        assert(rest[i - 1] == args[i]);
        assert forall|j: int| 0 <= j < i - 1 implies !set_by_the_gateway(
            before_first(#[trigger] rest[j], '='),
        ) by {
            assert(rest[j] == args[j + 1]);
        }
        lemma_first_reserved(rest, i - 1);
    }
}

/// A request on a port, of a backend with a name and a launcher, with arguments that set
/// none of the gateway's flags, is planned.
pub proof fn usable_requests_are_planned(
    request: RequestView,
    manifest: Result<ManifestView, Seq<char>>,
    wsl: Seq<char>,
    parent: Option<Seq<char>>,
    log_dir: Seq<char>,
)
    requires
        request.port > 0,
        stated_member(request.backend, "id"@) is Some,
        stated_member(request.backend, "launcher_path"@) is Some,
        forall|i: int|
            0 <= i < served_args(request).len() ==> !set_by_the_gateway(
                before_first(#[trigger] served_args(request)[i], '='),
            ),
        speaks_llama(request) || speaks(request, "vllm-openai-server"@),
    ensures
        planned(request, manifest, wsl, parent, log_dir) is Ok,
{
    lemma_none_managed(served_args(request));
}

proof fn lemma_none_managed(args: Seq<Seq<char>>)
    requires
        forall|i: int|
            0 <= i < args.len() ==> !set_by_the_gateway(before_first(#[trigger] args[i], '=')),
    ensures
        first_managed(args) is None,
    decreases args.len(),
{
    if args.len() > 0 {
        let rest = args.drop_first();
        assert(!set_by_the_gateway(before_first(args[0], '=')));
        assert forall|i: int| 0 <= i < rest.len() implies !set_by_the_gateway(
            before_first(#[trigger] rest[i], '='),
        ) by {
            assert(rest[i] == args[i + 1]);
        }
        lemma_none_managed(rest);
    }
}

/// What is refused, and with which error: a port that is none, a backend without a name or a
/// launcher, and a protocol that is not known.
pub proof fn unusable_requests_are_refused(
    request: RequestView,
    manifest: Result<ManifestView, Seq<char>>,
    wsl: Seq<char>,
    parent: Option<Seq<char>>,
    log_dir: Seq<char>,
)
    ensures
        request.port == 0 ==> planned(request, manifest, wsl, parent, log_dir) == Err::<
            PlanView,
            PlanErrorView,
        >(PlanErrorView::InvalidPort),
        request.port > 0 && stated_member(request.backend, "id"@) is None ==> planned(
            request,
            manifest,
            wsl,
            parent,
            log_dir,
        ) == Err::<PlanView, PlanErrorView>(PlanErrorView::MissingBackendField("id"@)),
        request.port > 0 && stated_member(request.backend, "id"@) is Some && stated_member(
            request.backend,
            "launcher_path"@,
        ) is None ==> planned(request, manifest, wsl, parent, log_dir) == Err::<
            PlanView,
            PlanErrorView,
        >(PlanErrorView::MissingLauncher(stated_member(request.backend, "id"@)->0)),
        planned(request, manifest, wsl, parent, log_dir) is Ok ==> speaks_llama(request)
            || speaks(request, "vllm-openai-server"@) || (speaks(
            request,
            "vllm-wsl2-openai-server"@,
        ) && manifest is Ok),
{
}

/// A path on a Windows drive is seen in a distribution under the mount root, in a directory
/// named by the small letter of the drive, with slashes for backslashes; a path on a server
/// is not seen at all; and any other reference stays as it is.
pub proof fn drives_are_seen_under_the_mount_root(
    drive: char,
    sep: char,
    name: Seq<char>,
    root: Seq<char>,
    other: Seq<char>,
)
    requires
        letter(drive),
        sep == '\\' || sep == '/',
        name.len() > 0,
        !separates(name[0]),
        root.len() > 0,
        root.last() != '/',
    ensures
        translated(seq![drive, ':', sep] + name, root) == Ok::<Seq<char>, PlanErrorView>(
            root + seq!['/', crate::text::chars::lowered_char(drive), '/'] + Seq::new(
                name.len(),
                |i: int|
                    if name[i] == '\\' {
                        '/'
                    } else {
                        name[i]
                    },
            ),
        ),
        translated(seq!['\\', '\\'] + other, root) is Err,
        (other.len() == 0 || other[0] != '\\') && !(other.len() >= 3 && letter(other[0])
            && other[1] == ':' && separates(other[2])) ==> translated(other, root) == Ok::<
            Seq<char>,
            PlanErrorView,
        >(other),
{
    reveal_strlit("/");
    reveal_strlit("\\\\");
    assert("\\\\"@ =~= seq!['\\', '\\']);
    let s = seq![drive, ':', sep] + name;
    assert(s[0] == drive && s[1] == ':' && s[2] == sep);
    assert(s.skip(3) =~= name);
    lemma_slashes(name);
    let slashes = Seq::new(
        name.len(),
        |i: int|
            if name[i] == '\\' {
                '/'
            } else {
                name[i]
            },
    );
    assert(slashes[0] == name[0]);
    assert(crate::text::trim::right_trimmed(root, crate::text::trim::CharClass::Only('/'))
        == root);
    assert(crate::text::trim::left_trimmed(slashes, crate::text::trim::CharClass::Only('/'))
        == slashes);
    assert(translated(s, root)->Ok_0 =~= root + seq![
        '/',
        crate::text::chars::lowered_char(drive),
        '/',
    ] + slashes);
    let u = seq!['\\', '\\'] + other;
    assert(u[0] == '\\' && u[1] == '\\');
    assert(u.subrange(0, 2) =~= "\\\\"@);
    if (other.len() == 0 || other[0] != '\\') && starts_with(other, "\\\\"@) {
        assert(other.subrange(0, 2)[0] == '\\');
    }
}

/// What separates the parts of a Windows path.
pub open spec fn separates(c: char) -> bool {
    c == '\\' || c == '/'
}

proof fn lemma_slashes(s: Seq<char>)
    ensures
        crate::text::compose::replaced(s, '\\', "/"@) == Seq::new(
            s.len(),
            |i: int|
                if s[i] == '\\' {
                    '/'
                } else {
                    s[i]
                },
        ),
    decreases s.len(),
{
    reveal_strlit("/");
    assert("/"@ =~= seq!['/']);
    if s.len() > 0 {
        lemma_slashes(s.drop_last());
    }
    assert(crate::text::compose::replaced(s, '\\', "/"@) =~= Seq::new(
        s.len(),
        |i: int|
            if s[i] == '\\' {
                '/'
            } else {
                s[i]
            },
    ));
}

/// Whether a path begins with a slash, holds no control character and leads nowhere upwards.
pub open spec fn leads_down(path: Seq<char>) -> bool {
    &&& path.len() > 0 && path[0] == '/'
    &&& forall|i: int| 0 <= i < path.len() ==> !control(#[trigger] path[i])
    &&& !pieces(path, '/').contains(".."@)
}

/// A launcher manifest is used where it is of the first schema, is that of the backend, names
/// a distribution and has nothing but absolute paths; a request with any other is refused.
pub proof fn launcher_manifests_have_to_be_sound(
    request: RequestView,
    m: ManifestView,
    wsl: Seq<char>,
    parent: Option<Seq<char>>,
    log_dir: Seq<char>,
)
    requires
        speaks(request, "vllm-wsl2-openai-server"@),
    ensures
        planned(request, Ok(m), wsl, parent, log_dir) is Ok ==> {
            &&& m.schema_version == 1
            &&& stated_member(request.backend, "id"@) == Some(m.backend)
            &&& !blank(m.distribution)
            &&& forall|i: int| 0 <= i < m.distribution.len() ==> !control(#[trigger] m.distribution[i])
            &&& leads_down(m.linux_launcher) && leads_down(m.linux_runner)
            &&& leads_down(m.linux_stopper) && leads_down(m.linux_pid_dir)
            &&& leads_down(m.automount_root)
        },
        planned(request, Err::<ManifestView, Seq<char>>(wsl), wsl, parent, log_dir) is Err,
{
    reveal_strlit("llama.cpp-server");
    reveal_strlit("vllm-openai-server");
    reveal_strlit("vllm-wsl2-openai-server");
    assert("llama.cpp-server"@.len() == 16);
    assert("vllm-openai-server"@.len() == 18);
    assert("vllm-wsl2-openai-server"@.len() == 23);
    lemma_leads_down(m.linux_launcher);
    lemma_leads_down(m.linux_runner);
    lemma_leads_down(m.linux_stopper);
    lemma_leads_down(m.linux_pid_dir);
    lemma_leads_down(m.automount_root);
    lemma_no_control(m.distribution);
}

/// A request through a launcher manifest is planned where the manifest is sound and the model
/// can be seen in the distribution.
pub proof fn sound_manifests_are_used(
    request: RequestView,
    m: ManifestView,
    wsl: Seq<char>,
    parent: Option<Seq<char>>,
    log_dir: Seq<char>,
)
    requires
        speaks(request, "vllm-wsl2-openai-server"@),
        request.port > 0,
        stated_member(request.backend, "id"@) == Some(m.backend),
        stated_member(request.backend, "launcher_path"@) is Some,
        forall|i: int|
            0 <= i < served_args(request).len() ==> !set_by_the_gateway(
                before_first(#[trigger] served_args(request)[i], '='),
            ),
        m.schema_version == 1,
        !blank(m.distribution),
        forall|i: int| 0 <= i < m.distribution.len() ==> !control(#[trigger] m.distribution[i]),
        leads_down(m.linux_launcher),
        leads_down(m.linux_runner),
        leads_down(m.linux_stopper),
        leads_down(m.linux_pid_dir),
        leads_down(m.automount_root),
        request.model_path.len() > 0,
        request.model_path[0] == '/',
    ensures
        planned(request, Ok(m), wsl, parent, log_dir) is Ok,
        planned(request, Ok(m), wsl, parent, log_dir)->Ok_0.command[8] == request.model_path,
{
    reveal_strlit("llama.cpp-server");
    reveal_strlit("vllm-openai-server");
    reveal_strlit("vllm-wsl2-openai-server");
    reveal_strlit("\\\\");
    assert("llama.cpp-server"@.len() == 16);
    assert("vllm-openai-server"@.len() == 18);
    assert("vllm-wsl2-openai-server"@.len() == 23);
    lemma_none_managed(served_args(request));
    lemma_leads_down(m.linux_launcher);
    lemma_leads_down(m.linux_runner);
    lemma_leads_down(m.linux_stopper);
    lemma_leads_down(m.linux_pid_dir);
    lemma_leads_down(m.automount_root);
    lemma_no_control(m.distribution);
    let path = request.model_path;
    if starts_with(path, "\\\\"@) {
        assert(path.subrange(0, 2)[0] == '\\');
    }
}

proof fn lemma_no_control(s: Seq<char>)
    ensures
        crate::runtime::plan::has_control(s) <==> !(forall|i: int|
            0 <= i < s.len() ==> !control(#[trigger] s[i])),
{
}

proof fn lemma_leads_down(path: Seq<char>)
    ensures
        crate::runtime::plan::absolute_linux_path(path) <==> leads_down(path),
{
    lemma_no_control(path);
}

/// What is said of a request that cannot be planned holds what is wrong with it.
pub proof fn plan_errors_hold_what_is_wrong(a: Seq<char>, b: Seq<char>)
    ensures
        plan_error_message(PlanErrorView::MissingBackendField(a))
            == "backend payload is missing field: "@ + a,
        plan_error_message(PlanErrorView::MissingLauncher(a)) == "backend launcher not found: "@ + a,
        plan_error_message(PlanErrorView::UnsupportedProtocol { backend: a, protocol: b })
            == "unsupported external runtime protocol for "@ + a + ": "@ + b,
        plan_error_message(PlanErrorView::InvalidPort) == "port must be in 1-65535"@,
        plan_error_message(PlanErrorView::InvalidWslLauncherManifest { path: a, message: b })
            == "invalid WSL2 launcher manifest "@ + a + ": "@ + b,
        plan_error_message(PlanErrorView::UnsupportedWslModelPath(a))
            == "WSL2 vLLM does not support this Windows model path: "@ + a,
{
}

} // verus!
