//! The course of a benchmark: what is checked before it, what is asked for, and what its
//! runs come to.
use vstd::prelude::*;

use crate::benchmark::commands::{
    all_texts, command_array, command_text, exposes_any, quoted_all, redact_command_args, redacted,
};
use crate::benchmark::flags::{first_flag_number, infer_positive_flag};
use crate::benchmark::ids::{
    bad_benchmark_id_message, benchmark_id, catalog_id, generated_benchmark_id, generated_id,
    valid_catalog_id, validate_benchmark_id,
};
use crate::benchmark::listing::{kept_submissions_are_listed, row_of, RowView};
use crate::benchmark::measurement::{common_count, consistent_token_count};
use crate::benchmark::metadata::{command_refusal, either, validated_command, BenchRunArgs};
use crate::benchmark::optimizations::{
    declaration, detect_optimizations, methods_seen, resolve_optimization_declaration,
};
use crate::benchmark::submission::{
    build_submission, runs_section, submission, MeasuredRun, RunFacts,
};
use crate::failure::{checked, Failure};
use crate::json::{
    flag_member, member, no_fields, number_member, text_member, views, Fields, Json, JsonView,
};
use crate::outside::{rfc3339_notation, sha256, sha256_digest, utf8_text};
use crate::paths::{
    extended, joined_path, lemma_not_verbatim, path_is_absolute, path_join, surely_relative,
    twin_start, verbatim,
};
use crate::runtime::plan::{debug_quoted, debug_text};
use crate::text::bytes::bytes_of;
use crate::text::chars::text_eq;
use crate::text::compose::{copy_texts, joined, no_texts, opt_text, put, texts};
use crate::text::number::{decimal, hex_bytes, hex_digits, show, show_hex, show_hex_bytes};
use crate::text::pieces::{trimming_keeps_the_words, words_of};
use crate::text::trim::{blank, is_blank, trimmed};

verus! {

/// The most tokens that a submission can have on either side.
pub const TOKEN_LIMIT: u64 = 1_048_576;

/// The largest context that a submission can have.
pub const CONTEXT_LIMIT: u32 = 4_194_304;

/// The largest batch that a submission can have.
pub const BATCH_LIMIT: u32 = 1_048_576;

/// What a benchmark measures, as far as it is known before its first run.
pub struct RunPlan {
    pub loaded_backend: String,
    pub run_command: String,
    pub optimization_mode: String,
    pub optimizations: Vec<String>,
    pub context_size: u32,
    pub batch_size: u32,
}

/// What a plan says.
#[verifier::ext_equal]
pub struct RunPlanView {
    pub loaded_backend: Seq<char>,
    pub run_command: Seq<char>,
    pub optimization_mode: Seq<char>,
    pub optimizations: Seq<Seq<char>>,
    pub context_size: nat,
    pub batch_size: nat,
}

impl View for RunPlan {
    type V = RunPlanView;

    open spec fn view(&self) -> RunPlanView {
        RunPlanView {
            loaded_backend: self.loaded_backend@,
            run_command: self.run_command@,
            optimization_mode: self.optimization_mode@,
            optimizations: texts(self.optimizations@),
            context_size: self.context_size as nat,
            batch_size: self.batch_size as nat,
        }
    }
}

/// Why a gateway in the given state cannot be benchmarked.
pub open spec fn state_refusal(state: JsonView) -> Option<Seq<char>> {
    if flag_member(state, "backend_ready"@) != Some(true) {
        Some(
            "No benchmarkable runtime is ready. Load a model first with `omniinfer load -m <model>`."@,
        )
    } else if text_member(state, "model"@) is None {
        Some("OmniInfer state does not identify the loaded model."@)
    } else if text_member(state, "backend"@) is None {
        Some("OmniInfer state does not identify the loaded backend."@)
    } else {
        None
    }
}

/// Why a benchmark of the loaded backend is refused.
pub open spec fn backend_refusal(loaded: Seq<char>, expected: Option<Seq<char>>) -> Option<
    Seq<char>,
> {
    if !catalog_id(loaded) {
        Some(
            "Loaded backend ID "@ + debug_text(loaded)
                + " cannot be represented by the benchmark schema."@,
        )
    } else {
        match expected {
            Some(e) => if e != loaded {
                Some(
                    "Loaded backend is "@ + loaded + ", but --backend-id requested "@ + e + "."@,
                )
            } else {
                None
            },
            None => None,
        }
    }
}

/// The command under which the runtime is reported: the one that is stated, or the one
/// that was used, without its secrets.
pub open spec fn reported_command(
    stated: Option<Seq<char>>,
    launched: Seq<Seq<char>>,
    windows: bool,
) -> Result<Seq<char>, Seq<char>> {
    match stated {
        Some(command) => match command_refusal("--run-command"@, command) {
            Some(reason) => Err(reason),
            None => Ok(trimmed(command)),
        },
        None => if launched.len() == 0 {
            Err(
                "The loaded runtime does not expose a launch command. Pass --run-command with the effective runtime command."@,
            )
        } else {
            let command = joined(quoted_all(redacted(launched), windows), " "@);
            match command_refusal("captured runtime command"@, command) {
                Some(reason) => Err(reason),
                None => Ok(trimmed(command)),
            }
        },
    }
}

/// The flags that set a batch size.
pub open spec fn batch_flags() -> Seq<Seq<char>> {
    Seq::<Seq<char>>::empty().push("-b"@).push("--batch-size"@).push("--batch_size"@)
}

/// The context size that is stated, or else the one of the loaded model.
pub open spec fn known_context(stated: Option<u32>, state: JsonView) -> Option<nat> {
    let known = match stated {
        Some(n) => Some(n as nat),
        None => match number_member(state, "ctx_size"@) {
            Some(n) => if n <= u32::MAX {
                Some(n)
            } else {
                None
            },
            None => None,
        },
    };
    if known == Some(0nat) {
        None
    } else {
        known
    }
}

/// The batch size that is stated, or else the one that the command sets.
pub open spec fn known_batch(stated: Option<u32>, launched: Seq<Seq<char>>) -> Option<nat> {
    let known = match stated {
        Some(n) => Some(n as nat),
        None => first_flag_number(launched, 0, batch_flags()),
    };
    if known == Some(0nat) {
        None
    } else {
        known
    }
}

/// What a benchmark measures, or why there is none.
pub open spec fn run_plan(a: BenchRunArgs, state: JsonView, windows: bool) -> Result<
    RunPlanView,
    Seq<char>,
> {
    let loaded = text_member(state, "backend"@);
    let refusal = match loaded {
        Some(backend) => either(
            state_refusal(state),
            backend_refusal(backend, opt_text(a.backend_id)),
        ),
        None => state_refusal(state),
    };
    match (loaded, refusal) {
        (None, _) => Err(refusal->0),
        (_, Some(reason)) => Err(reason),
        (Some(backend), None) => match all_texts(state, "launch_command"@) {
            Err(reason) => Err(reason),
            Ok(launched) => match declaration(
                texts(a.optimizations@),
                a.baseline,
                methods_seen(backend, launched),
            ) {
                Err(reason) => Err(reason),
                Ok((mode, methods)) => match reported_command(
                    opt_text(a.run_command),
                    launched,
                    windows,
                ) {
                    Err(reason) => Err(reason),
                    Ok(command) => match (
                        known_context(a.context_size, state),
                        known_batch(a.batch_size, launched),
                    ) {
                        (None, _) => Err(
                            "Context size is unavailable from the loaded runtime. Pass --context-size explicitly."@,
                        ),
                        (_, None) => Err(
                            "Batch size is unavailable from the launch command. Pass --batch-size explicitly."@,
                        ),
                        (Some(context), Some(batch)) => Ok(
                            RunPlanView {
                                loaded_backend: backend,
                                run_command: command,
                                optimization_mode: mode,
                                optimizations: methods,
                                context_size: context,
                                batch_size: batch,
                            },
                        ),
                    },
                },
            },
        },
    }
}

fn check_backend(loaded: &str, expected: &Option<String>) -> (r: Result<(), Failure>)
    ensures
        checked(r, backend_refusal(loaded@, opt_text(*expected))),
{
    if !valid_catalog_id(loaded) {
        return Err(
            Failure::of(
                "Loaded backend ID ",
                debug_quoted(loaded).as_str(),
                " cannot be represented by the benchmark schema.",
            ),
        );
    }
    if let Some(e) = expected {
        if !text_eq(e.as_str(), loaded) {
            let message = "Loaded backend is ".to_owned().concat(loaded).concat(
                ", but --backend-id requested ",
            ).concat(e.as_str()).concat(".");
            return Err(Failure { message });
        }
    }
    Ok(())
}

fn report_command(stated: &Option<String>, launched: &Vec<String>, windows: bool) -> (r: Result<
    String,
    Failure,
>)
    ensures
        crate::failure::text_result(r) == reported_command(
            opt_text(*stated),
            texts(launched@),
            windows,
        ),
{
    if let Some(command) = stated {
        return validated_command("--run-command", command.as_str());
    }
    if launched.len() == 0 {
        return Err(
            Failure::new(
                "The loaded runtime does not expose a launch command. Pass --run-command with the effective runtime command.",
            ),
        );
    }
    let shown = redact_command_args(launched);
    validated_command("captured runtime command", command_text(&shown, windows).as_str())
}

fn find_context(stated: Option<u32>, state: &Json) -> (r: Option<u32>)
    ensures
        match r {
            Some(n) => known_context(stated, state@) == Some(n as nat),
            None => known_context(stated, state@) is None,
        },
{
    let known: u32 = match stated {
        Some(n) => n,
        None => match state.get_number("ctx_size") {
            Some(n) => if n <= 0xffff_ffff {
                n as u32
            } else {
                0
            },
            None => 0,
        },
    };
    if known == 0 {
        None
    } else {
        Some(known)
    }
}

fn find_batch(stated: Option<u32>, launched: &Vec<String>) -> (r: Option<u32>)
    ensures
        match r {
            Some(n) => known_batch(stated, texts(launched@)) == Some(n as nat),
            None => known_batch(stated, texts(launched@)) is None,
        },
{
    let mut flags = no_texts();
    put(&mut flags, "-b");
    put(&mut flags, "--batch-size");
    put(&mut flags, "--batch_size");
    let known: u32 = match stated {
        Some(n) => n,
        None => match infer_positive_flag(launched, &flags) {
            Some(n) => n,
            None => 0,
        },
    };
    if known == 0 {
        None
    } else {
        Some(known)
    }
}

/// What a plan or a failure says.
pub open spec fn plan_said(r: Result<RunPlan, Failure>) -> Result<RunPlanView, Seq<char>> {
    match r {
        Ok(p) => Ok(p@),
        Err(e) => Err(e@),
    }
}

/// Finds out what a benchmark measures from the state of the gateway; `windows` is
/// whether commands are quoted as on Windows.
pub fn plan_run(a: &BenchRunArgs, state: &Json, windows: bool) -> (r: Result<RunPlan, Failure>)
    ensures
        plan_said(r) == run_plan(*a, state@, windows),
{
    match state.get_flag("backend_ready") {
        Some(true) => {},
        _ => {
            return Err(
                Failure::new(
                    "No benchmarkable runtime is ready. Load a model first with `omniinfer load -m <model>`.",
                ),
            );
        },
    }
    if state.get_text("model").is_none() {
        return Err(Failure::new("OmniInfer state does not identify the loaded model."));
    }
    let loaded_backend = match state.get_text("backend") {
        Some(b) => b,
        None => {
            return Err(Failure::new("OmniInfer state does not identify the loaded backend."));
        },
    };
    if let Err(e) = check_backend(loaded_backend.as_str(), &a.backend_id) {
        return Err(e);
    }
    let launched = match command_array(state, "launch_command") {
        Ok(v) => v,
        Err(e) => {
            return Err(e);
        },
    };
    let seen = detect_optimizations(loaded_backend.as_str(), &launched);
    let (optimization_mode, optimizations) = match resolve_optimization_declaration(
        &a.optimizations,
        a.baseline,
        &seen,
    ) {
        Ok(d) => d,
        Err(e) => {
            return Err(e);
        },
    };
    let run_command = match report_command(&a.run_command, &launched, windows) {
        Ok(c) => c,
        Err(e) => {
            return Err(e);
        },
    };
    let context_size: u32 = match find_context(a.context_size, state) {
        Some(n) => n,
        None => {
            return Err(
                Failure::new(
                    "Context size is unavailable from the loaded runtime. Pass --context-size explicitly.",
                ),
            );
        },
    };
    let batch_size: u32 = match find_batch(a.batch_size, &launched) {
        Some(n) => n,
        None => {
            return Err(
                Failure::new(
                    "Batch size is unavailable from the launch command. Pass --batch-size explicitly.",
                ),
            );
        },
    };
    Ok(
        RunPlan {
            loaded_backend,
            run_command,
            optimization_mode,
            optimizations,
            context_size,
            batch_size,
        },
    )
}

/// Where the prompt of a benchmark comes from.
pub enum PromptInput {
    /// From the options, or from nowhere.
    Inline,
    /// From a file at the given path, which could not be read.
    Unreadable(String),
    /// From a file with the given contents.
    File(Vec<u8>),
}

/// The prompt that is used where none is given.
pub open spec fn default_prompt() -> Seq<char> {
    "Write a detailed but concise explanation of why local language-model inference speed varies across hardware and runtimes."@
}

/// The prompt and what is said of its source, or why there is none.
pub open spec fn prompt_of(input: PromptInput, inline: Option<Seq<char>>) -> Result<
    (Seq<char>, Seq<char>),
    Seq<char>,
> {
    match input {
        PromptInput::Unreadable(path) => Err("failed to read prompt file "@ + path@),
        PromptInput::File(raw) => if !vstd::utf8::valid_utf8(raw@) {
            Err("prompt file must be UTF-8"@)
        } else if blank(vstd::utf8::decode_utf8(raw@)) {
            Err("prompt file must not be empty."@)
        } else {
            Ok((vstd::utf8::decode_utf8(raw@), "OmniInfer prompt file"@))
        },
        PromptInput::Inline => {
            let prompt = match inline {
                Some(p) => p,
                None => default_prompt(),
            };
            if blank(prompt) {
                Err("--prompt must not be empty."@)
            } else {
                Ok((prompt, "OmniInfer inline prompt"@))
            }
        },
    }
}

/// The prompt and what is said of its source.
pub fn read_prompt(input: PromptInput, inline: &Option<String>) -> (r: Result<
    (String, String),
    Failure,
>)
    ensures
        match r {
            Ok((prompt, source)) => prompt_of(input, opt_text(*inline)) == Ok::<
                (Seq<char>, Seq<char>),
                Seq<char>,
            >((prompt@, source@)),
            Err(e) => prompt_of(input, opt_text(*inline)) == Err::<
                (Seq<char>, Seq<char>),
                Seq<char>,
            >(e@),
        },
{
    match input {
        PromptInput::Unreadable(path) => Err(
            Failure::about("failed to read prompt file ", path.as_str()),
        ),
        PromptInput::File(raw) => match utf8_text(raw) {
            Some(prompt) => if is_blank(prompt.as_str()) {
                Err(Failure::new("prompt file must not be empty."))
            } else {
                Ok((prompt, "OmniInfer prompt file".to_owned()))
            },
            None => Err(Failure::new("prompt file must be UTF-8")),
        },
        PromptInput::Inline => {
            let prompt = match inline {
                Some(p) => p.as_str().to_owned(),
                None => "Write a detailed but concise explanation of why local language-model inference speed varies across hardware and runtimes.".to_owned(),
            };
            if is_blank(prompt.as_str()) {
                Err(Failure::new("--prompt must not be empty."))
            } else {
                Ok((prompt, "OmniInfer inline prompt".to_owned()))
            }
        },
    }
}

/// The request that every run makes.
pub open spec fn run_request(prompt: Seq<char>, max_tokens: u32) -> JsonView {
    JsonView::Object(
        no_fields()
            .push(
                (
                    "messages"@,
                    JsonView::Array(
                        Seq::<JsonView>::empty().push(
                            JsonView::Object(
                                no_fields()
                                    .push(("role"@, JsonView::Text("user"@)))
                                    .push(("content"@, JsonView::Text(prompt))),
                            ),
                        ),
                    ),
                ),
            )
            .push(("temperature"@, JsonView::Unsigned(0)))
            .push(("max_tokens"@, JsonView::Unsigned(max_tokens as nat)))
            .push(("stream"@, JsonView::Bool(false)))
            .push(("think"@, JsonView::Bool(false))),
    )
}

/// The request that every run makes.
pub fn completion_request(prompt: &str, max_tokens: u32) -> (json: Json)
    ensures
        json@ == run_request(prompt@, max_tokens),
{
    let mut message = Fields::new();
    message.text("role", "user");
    message.text("content", prompt);
    let mut messages: Vec<Json> = Vec::new();
    let item = message.done();
    messages.push(item);
    assert(views(messages@) =~= Seq::<JsonView>::empty().push(item@));
    let mut fields = Fields::new();
    fields.put("messages", Json::array(messages));
    fields.number("temperature", 0);
    fields.number("max_tokens", max_tokens as u64);
    fields.flag("stream", false);
    fields.flag("think", false);
    fields.done()
}

/// What a benchmark does next.
#[derive(Clone, Copy, Debug, PartialEq, Eq, Structural)]
pub enum BenchAction {
    /// Makes a run that is not measured.
    Warmup,
    /// Makes a run that is measured.
    Measure,
    /// Puts the results together.
    Conclude,
}

/// The runs of a benchmark: those that are not measured come first.
#[derive(Clone, Copy, Debug)]
pub struct RunSequence {
    pub warmup_runs: u16,
    pub runs: u16,
    /// How many runs have been made.
    pub made: u32,
}

impl RunSequence {
    /// A sequence of which no run has been made.
    pub fn new(warmup_runs: u16, runs: u16) -> (r: RunSequence)
        ensures
            r == (RunSequence { warmup_runs, runs, made: 0 }),
    {
        RunSequence { warmup_runs, runs, made: 0 }
    }

    pub open spec fn action(self) -> BenchAction {
        if self.made < self.warmup_runs {
            BenchAction::Warmup
        } else if self.made < self.warmup_runs + self.runs {
            BenchAction::Measure
        } else {
            BenchAction::Conclude
        }
    }

    /// The sequence after one more run; nothing changes where all have been made.
    pub open spec fn after_run(self) -> RunSequence {
        if self.action() is Conclude {
            self
        } else {
            RunSequence { made: (self.made + 1) as u32, ..self }
        }
    }

    /// What the benchmark does next.
    pub fn next(&self) -> (r: BenchAction)
        ensures
            r == self.action(),
    {
        if self.made < self.warmup_runs as u32 {
            BenchAction::Warmup
        } else if self.made < self.warmup_runs as u32 + self.runs as u32 {
            BenchAction::Measure
        } else {
            BenchAction::Conclude
        }
    }

    /// Notes that the next run has been made.
    pub fn advance(&mut self)
        ensures
            *final(self) == old(self).after_run(),
    {
        match self.next() {
            BenchAction::Conclude => {},
            _ => {
                self.made = self.made + 1;
            },
        }
    }

    /// What is said of a failure of the next run; `answered` is whether the run itself
    /// was made.
    pub open spec fn failure_words(self, answered: bool) -> Seq<char> {
        match self.action() {
            BenchAction::Warmup => "warmup run "@ + decimal((self.made + 1) as nat) + " failed"@,
            _ => "measured run "@ + decimal((self.made - self.warmup_runs + 1) as nat) + (
            if answered {
                " returned incomplete metrics"@
            } else {
                " failed"@
            }),
        }
    }

    /// What is said of a failure of the next run; `answered` is whether the run itself
    /// was made.
    pub fn failure_context(&self, answered: bool) -> (r: String)
        ensures
            r@ == self.failure_words(answered),
    {
        match self.next() {
            BenchAction::Warmup => "warmup run ".to_owned().concat(
                show(self.made as u64 + 1).as_str(),
            ).concat(" failed"),
            _ => {
                let end = if answered {
                    " returned incomplete metrics"
                } else {
                    " failed"
                };
                "measured run ".to_owned().concat(
                    show(self.made as u64 - self.warmup_runs as u64 + 1).as_str(),
                ).concat(end)
            },
        }
    }
}

/// A sequence after some runs.
pub open spec fn after_runs(s: RunSequence, n: nat) -> RunSequence
    decreases n,
{
    if n == 0 {
        s
    } else {
        after_runs(s, (n - 1) as nat).after_run()
    }
}

/// Every warm-up run comes before the first measured one, all runs are made, and the
/// results are put together when they have been.
pub proof fn all_runs_are_made(s: RunSequence, n: nat)
    requires
        s.made == 0,
    ensures
        after_runs(s, n).action() == (if n < s.warmup_runs {
            BenchAction::Warmup
        } else if n < s.warmup_runs + s.runs {
            BenchAction::Measure
        } else {
            BenchAction::Conclude
        }),
        after_runs(s, n).warmup_runs == s.warmup_runs,
        after_runs(s, n).runs == s.runs,
        n <= s.warmup_runs + s.runs ==> after_runs(s, n).made == n,
        n > s.warmup_runs + s.runs ==> after_runs(s, n).made == s.warmup_runs + s.runs,
    decreases n,
{
    if n > 0 {
        all_runs_are_made(s, (n - 1) as nat);
    }
}

pub open spec fn prompt_counts(runs: Seq<MeasuredRun>) -> Seq<u64> {
    Seq::new(runs.len(), |i: int| runs[i].prompt_tokens)
}

pub open spec fn completion_counts(runs: Seq<MeasuredRun>) -> Seq<u64> {
    Seq::new(runs.len(), |i: int| runs[i].completion_tokens)
}

/// A sum that stops at the largest number.
pub open spec fn capped_sum(a: u64, b: u64) -> nat {
    if a + b > u64::MAX {
        u64::MAX as nat
    } else {
        (a + b) as nat
    }
}

/// Why the sizes of a benchmark cannot be submitted.
pub open spec fn size_refusal(pp: u64, tg: u64, context: nat, batch: nat) -> Option<Seq<char>> {
    if pp > TOKEN_LIMIT || tg > TOKEN_LIMIT {
        Some("Measured PP/TG exceeds the submission contract limit of 1,048,576 tokens."@)
    } else if context > CONTEXT_LIMIT {
        Some("Context size exceeds the submission contract limit of 4,194,304."@)
    } else if batch > BATCH_LIMIT {
        Some("Batch size exceeds the submission contract limit of 1,048,576."@)
    } else if context < capped_sum(pp, tg) {
        Some(
            "Measured pp + tg is "@ + decimal(capped_sum(pp, tg))
                + ", which exceeds context size "@ + decimal(context) + "."@,
        )
    } else {
        None
    }
}

/// The identifier that is given, or else one that is made up.
pub open spec fn chosen_id(
    given: Option<Seq<char>>,
    model: Seq<char>,
    backend: Seq<char>,
    seconds: int,
    nanoseconds: nat,
) -> Seq<char> {
    match given {
        Some(id) => id,
        None => generated_id(model, backend, seconds, nanoseconds),
    }
}

/// What the runs of a benchmark have in common: its identifier and its token counts.
pub open spec fn settled(
    a: BenchRunArgs,
    plan: RunPlanView,
    runs: Seq<MeasuredRun>,
    seconds: int,
    nanoseconds: nat,
) -> Result<(Seq<char>, u64, u64), Seq<char>> {
    let id = chosen_id(
        opt_text(a.benchmark_id),
        a.catalog_model_id@,
        plan.loaded_backend,
        seconds,
        nanoseconds,
    );
    match common_count(prompt_counts(runs), true) {
        Err(reason) => Err(reason),
        Ok(pp) => match common_count(completion_counts(runs), false) {
            Err(reason) => Err(reason),
            Ok(tg) => match size_refusal(pp, tg, plan.context_size, plan.batch_size) {
                Some(reason) => Err(reason),
                None => if !benchmark_id(id) {
                    Err(bad_benchmark_id_message())
                } else {
                    Ok((id, pp, tg))
                },
            },
        },
    }
}

fn check_sizes(pp: u64, tg: u64, context_size: u32, batch_size: u32) -> (r: Result<(), Failure>)
    ensures
        checked(
            r,
            size_refusal(pp, tg, context_size as nat, batch_size as nat),
        ),
{
    if pp > TOKEN_LIMIT || tg > TOKEN_LIMIT {
        return Err(
            Failure::new(
                "Measured PP/TG exceeds the submission contract limit of 1,048,576 tokens.",
            ),
        );
    }
    if context_size > CONTEXT_LIMIT {
        return Err(
            Failure::new("Context size exceeds the submission contract limit of 4,194,304."),
        );
    }
    if batch_size > BATCH_LIMIT {
        return Err(
            Failure::new("Batch size exceeds the submission contract limit of 1,048,576."),
        );
    }
    let sum: u64 = pp + tg;
    if (context_size as u64) < sum {
        let message = "Measured pp + tg is ".to_owned().concat(show(sum).as_str()).concat(
            ", which exceeds context size ",
        ).concat(show(context_size as u64).as_str()).concat(".");
        return Err(Failure { message });
    }
    Ok(())
}

fn counts_of(runs: &Vec<MeasuredRun>, prompt: bool) -> (r: Vec<u64>)
    ensures
        prompt ==> r@ == prompt_counts(runs@),
        !prompt ==> r@ == completion_counts(runs@),
{
    let mut counts: Vec<u64> = Vec::new();
    let mut i: usize = 0;
    while i < runs.len()
        invariant
            i <= runs@.len(),
            counts@.len() == i,
            forall|j: int|
                0 <= j < i ==> #[trigger] counts@[j] == (if prompt {
                    runs@[j].prompt_tokens
                } else {
                    runs@[j].completion_tokens
                }),
        decreases runs@.len() - i,
    {
        counts.push(
            if prompt {
                runs[i].prompt_tokens
            } else {
                runs[i].completion_tokens
            },
        );
        i += 1;
    }
    assert(prompt ==> counts@ =~= prompt_counts(runs@));
    assert(!prompt ==> counts@ =~= completion_counts(runs@));
    counts
}

/// Finds out what the runs of a benchmark have in common: its identifier and its token
/// counts. The point in time is that of the first measured run.
pub fn settle(
    a: &BenchRunArgs,
    plan: &RunPlan,
    runs: &Vec<MeasuredRun>,
    seconds: i64,
    nanoseconds: u32,
) -> (r: Result<(String, u64, u64), Failure>)
    ensures
        match r {
            Ok((id, pp, tg)) => settled(*a, plan@, runs@, seconds as int, nanoseconds as nat)
                == Ok::<(Seq<char>, u64, u64), Seq<char>>((id@, pp, tg)),
            Err(e) => settled(*a, plan@, runs@, seconds as int, nanoseconds as nat) == Err::<
                (Seq<char>, u64, u64),
                Seq<char>,
            >(e@),
        },
{
    let pp: u64 = match consistent_token_count(&counts_of(runs, true), true) {
        Ok(n) => n,
        Err(e) => {
            return Err(e);
        },
    };
    let tg: u64 = match consistent_token_count(&counts_of(runs, false), false) {
        Ok(n) => n,
        Err(e) => {
            return Err(e);
        },
    };
    if let Err(e) = check_sizes(pp, tg, plan.context_size, plan.batch_size) {
        return Err(e);
    }
    let id = match &a.benchmark_id {
        Some(id) => id.as_str().to_owned(),
        None => generated_benchmark_id(
            a.catalog_model_id.as_str(),
            plan.loaded_backend.as_str(),
            seconds,
            nanoseconds,
        ),
    };
    if let Err(e) = validate_benchmark_id(id.as_str()) {
        return Err(e);
    }
    Ok((id, pp, tg))
}

/// Whether facts are those of a benchmark that ran as planned.
pub open spec fn facts_of(
    f: RunFacts,
    plan: RunPlanView,
    prompt: Seq<char>,
    prompt_source: Seq<char>,
    id: Seq<char>,
    pp: u64,
    tg: u64,
) -> bool {
    &&& f.benchmark_id@ == id
    &&& f.loaded_backend@ == plan.loaded_backend
    &&& f.run_command@ == plan.run_command
    &&& f.optimization_mode@ == plan.optimization_mode
    &&& texts(f.optimizations@) == plan.optimizations
    &&& f.context_size as nat == plan.context_size
    &&& f.batch_size as nat == plan.batch_size
    &&& f.prompt_source@ == prompt_source
    &&& f.prompt_sha256@ == hex_bytes(sha256_digest(vstd::utf8::encode_utf8(prompt)))
    &&& f.pp == pp
    &&& f.tg == tg
}

/// Whether a submission is that of a benchmark that ran as planned.
pub open spec fn submitted(
    json: JsonView,
    a: BenchRunArgs,
    plan: RunPlanView,
    prompt: Seq<char>,
    prompt_source: Seq<char>,
    id: Seq<char>,
    pp: u64,
    tg: u64,
    started_at: Seq<char>,
    runs: Seq<MeasuredRun>,
) -> bool {
    exists|f: RunFacts|
        #[trigger] facts_of(f, plan, prompt, prompt_source, id, pp, tg) && json == submission(a, f, started_at, runs)
}

/// Puts the results of a benchmark together: its identifier and its submission.
pub fn conclude(
    a: &BenchRunArgs,
    plan: &RunPlan,
    prompt: &str,
    prompt_source: &str,
    runs: &Vec<MeasuredRun>,
    seconds: i64,
    nanoseconds: u32,
) -> (r: Result<(String, Json), Failure>)
    ensures
        match settled(*a, plan@, runs@, seconds as int, nanoseconds as nat) {
            Err(reason) => r is Err && r->Err_0@ == reason,
            Ok((id, pp, tg)) => match rfc3339_notation(seconds as int, nanoseconds as nat) {
                Ok(started_at) => r is Ok && r->Ok_0.0@ == id && submitted(
                    r->Ok_0.1@,
                    *a,
                    plan@,
                    prompt@,
                    prompt_source@,
                    id,
                    pp,
                    tg,
                    started_at,
                    runs@,
                ),
                Err(reason) => r is Err && r->Err_0@ == reason,
            },
        },
{
    let (id, pp, tg) = match settle(a, plan, runs, seconds, nanoseconds) {
        Ok(s) => s,
        Err(e) => {
            return Err(e);
        },
    };
    let digest = sha256(&bytes_of(prompt));
    let facts = RunFacts {
        benchmark_id: id.as_str().to_owned(),
        loaded_backend: plan.loaded_backend.as_str().to_owned(),
        run_command: plan.run_command.as_str().to_owned(),
        optimization_mode: plan.optimization_mode.as_str().to_owned(),
        optimizations: copy_texts(&plan.optimizations),
        context_size: plan.context_size,
        batch_size: plan.batch_size,
        prompt_source: prompt_source.to_owned(),
        prompt_sha256: show_hex_bytes(&digest),
        pp,
        tg,
    };
    assert(facts_of(facts, plan@, prompt@, prompt_source@, id@, pp, tg));
    match build_submission(a, &facts, seconds, nanoseconds, runs) {
        Ok(json) => {
            assert(submitted(
                json@,
                *a,
                plan@,
                prompt@,
                prompt_source@,
                id@,
                pp,
                tg,
                rfc3339_notation(seconds as int, nanoseconds as nat)->Ok_0,
                runs@,
            ));
            Ok((id, json))
        },
        Err(e) => Err(e),
    }
}

/// The result of a benchmark, kept at a path, is listed under the identifier that was
/// reported for it, with the backend that was loaded, and holds every run.
pub proof fn concluded_benchmarks_are_listed(
    json: JsonView,
    a: BenchRunArgs,
    plan: RunPlanView,
    prompt: Seq<char>,
    prompt_source: Seq<char>,
    id: Seq<char>,
    pp: u64,
    tg: u64,
    started_at: Seq<char>,
    runs: Seq<MeasuredRun>,
    path: Seq<char>,
)
    requires
        submitted(json, a, plan, prompt, prompt_source, id, pp, tg, started_at, runs),
    ensures
        row_of(json, path) == Some(
            RowView {
                benchmark_id: Some(id),
                model_id: Some(a.catalog_model_id@),
                backend_id: Some(plan.loaded_backend),
                started_at: Some(started_at),
                path,
            },
        ),
        member(json, "runs"@) == Some(runs_section(runs)),
{
    let f = choose|f: RunFacts| #[trigger]
        facts_of(f, plan, prompt, prompt_source, id, pp, tg) && json == submission(
            a,
            f,
            started_at,
            runs,
        );
    kept_submissions_are_listed(a, f, started_at, runs, path);
}

/// What is submitted fits into the context that is submitted with it, has no more tokens
/// than can be submitted, and has an identifier that is accepted.
pub proof fn submissions_stay_within_limits(
    a: BenchRunArgs,
    plan: RunPlanView,
    runs: Seq<MeasuredRun>,
    seconds: int,
    nanoseconds: nat,
)
    ensures
        settled(a, plan, runs, seconds, nanoseconds) matches Ok((id, pp, tg)) ==> {
            &&& pp + tg <= plan.context_size <= CONTEXT_LIMIT
            &&& pp <= TOKEN_LIMIT && tg <= TOKEN_LIMIT
            &&& plan.batch_size <= BATCH_LIMIT
            &&& benchmark_id(id)
            &&& runs.len() > 0
            &&& forall|i: int|
                0 <= i < runs.len() ==> (#[trigger] runs[i]).prompt_tokens == pp
                    && runs[i].completion_tokens == tg
        },
{
    if settled(a, plan, runs, seconds, nanoseconds) is Ok {
        let pps = prompt_counts(runs);
        let tgs = completion_counts(runs);
        assert forall|i: int| 0 <= i < runs.len() implies (#[trigger] runs[i]).prompt_tokens
            == pps[0] && runs[i].completion_tokens == tgs[0] by {
            assert(pps[i] == runs[i].prompt_tokens);
            assert(tgs[i] == runs[i].completion_tokens);
        }
    }
}

/// The runtime that a benchmark is planned for is the one that is loaded, and both sizes
/// are known.
pub proof fn plans_are_for_the_loaded_backend(a: BenchRunArgs, state: JsonView, windows: bool)
    ensures
        run_plan(a, state, windows) matches Ok(plan) ==> {
            &&& flag_member(state, "backend_ready"@) == Some(true)
            &&& text_member(state, "backend"@) == Some(plan.loaded_backend)
            &&& catalog_id(plan.loaded_backend)
            &&& a.backend_id matches Some(id) ==> id@ == plan.loaded_backend
            &&& plan.context_size > 0
            &&& plan.batch_size > 0
        },
{
}

/// The command under which a runtime is reported gives no secret away, whether it was
/// stated or captured.
pub proof fn reported_commands_expose_nothing(a: BenchRunArgs, state: JsonView, windows: bool)
    ensures
        run_plan(a, state, windows) matches Ok(plan) ==> !exposes_any(words_of(plan.run_command)),
{
    if run_plan(a, state, windows) is Ok {
        let launched = all_texts(state, "launch_command"@)->Ok_0;
        let command = match a.run_command {
            Some(stated) => stated@,
            None => joined(quoted_all(redacted(launched), windows), " "@),
        };
        trimming_keeps_the_words(command);
    }
}

/// The name of the file in which a result is kept.
pub fn result_file_name(benchmark_id: &str) -> (r: String)
    ensures
        r@ == benchmark_id@ + ".json"@,
{
    benchmark_id.to_owned().concat(".json")
}

/// Whether `r` is a path as seen from a directory, where it is not absolute.
pub open spec fn seen_from(directory: Seq<char>, path: Seq<char>, r: Seq<char>) -> bool {
    &&& r == path || joined_path(directory, path, r)
    &&& surely_relative(path) ==> joined_path(directory, path, r)
}

/// Whether `r` can be where a result is kept.
pub open spec fn kept_at(
    output: Option<Seq<char>>,
    results_dir: Seq<char>,
    benchmark_id: Seq<char>,
    current_dir: Seq<char>,
    r: Seq<char>,
) -> bool {
    match output {
        Some(path) => seen_from(current_dir, path, r),
        None => exists|path: Seq<char>| #[trigger]
            joined_path(results_dir, benchmark_id + ".json"@, path) && seen_from(
                current_dir,
                path,
                r,
            ),
    }
}

/// A result for which no path is given is kept in the directory of results, where that
/// starts with a slash and the current directory is on no drive or server of its own.
pub proof fn results_lie_in_their_directory(
    results_dir: Seq<char>,
    benchmark_id: Seq<char>,
    current_dir: Seq<char>,
    r: Seq<char>,
)
    requires
        kept_at(None, results_dir, benchmark_id, current_dir, r),
        results_dir.len() > 0,
        results_dir[0] == '/',
        surely_relative(benchmark_id),
        benchmark_id.len() > 0,
        !current_dir.contains(':'),
        !twin_start(current_dir),
    ensures
        extended(results_dir, benchmark_id + ".json"@, r),
{
    let name = benchmark_id + ".json"@;
    reveal_strlit(".json");
    assert(!name.contains(':')) by {
        if name.contains(':') {
            let i = choose|i: int| 0 <= i < name.len() && name[i] == ':';
            if i < benchmark_id.len() {
                assert(benchmark_id[i] == ':');
            }
        }
    }
    assert(!verbatim(results_dir)) by {
        if verbatim(results_dir) {
            assert(results_dir.subrange(0, 4)[0] == '\\');
        }
    }
    lemma_not_verbatim(current_dir);
    let path = choose|path: Seq<char>| #[trigger]
        joined_path(results_dir, name, path) && seen_from(current_dir, path, r);
    assert(path[0] == '/');
}

/// Where a result is kept, given the path to it, whether that is absolute, and where it
/// lies as seen from the current directory.
pub fn place_result(path: String, absolute: bool, inside: String) -> (r: String)
    ensures
        r@ == (if absolute {
            path@
        } else {
            inside@
        }),
{
    if absolute {
        path
    } else {
        inside
    }
}

/// Where a result is kept: at the given path, or else in the directory of results.
pub fn result_path(
    output: &Option<String>,
    results_dir: &str,
    benchmark_id: &str,
    current_dir: &str,
) -> (r: String)
    ensures
        kept_at(opt_text(*output), results_dir@, benchmark_id@, current_dir@, r@),
{
    let path = match output {
        Some(p) => p.as_str().to_owned(),
        None => path_join(results_dir, result_file_name(benchmark_id).as_str()),
    };
    let absolute = path_is_absolute(path.as_str());
    let inside = path_join(current_dir, path.as_str());
    place_result(path, absolute, inside)
}

/// The name of the file in which a result is written before it takes its place. The
/// number is a random one.
pub fn temporary_file_name(file_name: &Option<String>, process: u32, number: u64) -> (r: String)
    ensures
        r@ == "."@ + (match *file_name {
            Some(name) => name@,
            None => "benchmark.json"@,
        }) + "."@ + decimal(process as nat) + "-"@ + hex_digits(number as nat, 16) + ".tmp"@,
{
    let name = match file_name {
        Some(name) => name.as_str().to_owned(),
        None => "benchmark.json".to_owned(),
    };
    ".".to_owned().concat(name.as_str()).concat(".").concat(show(process as u64).as_str()).concat(
        "-",
    ).concat(show_hex(number, 16).as_str()).concat(".tmp")
}

} // verus!
