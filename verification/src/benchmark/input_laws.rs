//! What a benchmark accepts, and what it makes of what it is told.
use vstd::prelude::*;

use crate::benchmark::archive::{write_after, WriteEvent, WritePhase, WriteView};
use crate::benchmark::commands::{
    all_texts, exposes_any, quoted, quoted_all, redacted, redacted_reference, secret_name,
};
use crate::benchmark::environment::{
    device_for, device_id, device_name, gpu_name, listed_devices, provenance, runtime_dir_in,
};
use crate::benchmark::flags::{first_flag_number, isolation_refusal, option_value, toggled};
use crate::benchmark::ids::{
    benchmark_id, catalog_id, generated_id, lowercase_text, optimization_slug, slug, slug_so_far,
};
use crate::benchmark::laws::{has_object, inside, public_address, shows};
use crate::benchmark::listing::{latest_first, row_json, row_of, row_words, RowView};
use crate::benchmark::measurement::{measured, Amount, Timing};
use crate::benchmark::metadata::{metadata_refusal, BenchRunArgs};
use crate::benchmark::optimizations::{declaration, methods_seen};
use crate::benchmark::run::{run_plan, settled, RunPlanView};
use crate::benchmark::submission::MeasuredRun;
use crate::json::{flag_member, lemma_field_at, member, number_member, text_member, JsonView};
use crate::text::chars::{alphanumeric, control, lowered};
use crate::text::compose::{joined, opt_text, texts};
use crate::text::number::{decimal, parsing_undoes_showing, signed_decimal};
use crate::text::order::before;
use crate::text::pieces::{lines_of, words_of};
use crate::text::search::{contains, starts_with};
use crate::text::trim::{
    left_trimmed, lemma_left_trimmed, lemma_right_trimmed, right_trimmed, trimmed, CharClass,
};

verus! {

/// Whether a text says something, is not too long and has no control character but ends of
/// lines and tabs.
pub open spec fn is_fine(s: Seq<char>, max: nat) -> bool {
    &&& 0 < trimmed(s).len() <= max
    &&& forall|i: int|
        0 <= i < trimmed(s).len() ==> (control(#[trigger] trimmed(s)[i]) ==> trimmed(s)[i] == '\n'
            || trimmed(s)[i] == '\r' || trimmed(s)[i] == '\t')
}

/// Whether a text is fine where it is given.
pub open spec fn is_fine_if_given(o: Option<Seq<char>>, max: nat) -> bool {
    o is Some ==> is_fine(o->0, max)
}

/// Whether an address is public and of at most the length that is allowed.
pub open spec fn is_fine_address(s: Seq<char>) -> bool {
    public_address(crate::outside::url_meaning(s)) && vstd::utf8::encode_utf8(s).len() <= 2048
}

/// Whether a format is one that is known.
pub open spec fn is_known_format(f: Seq<char>) -> bool {
    f == "GGUF"@ || f == "MLX"@ || f == "Safetensors"@ || f == "MNN"@ || f == "TFLite"@ || f
        == "LiteRT"@ || f == "LITERTLM"@ || f == "ONNX"@ || f == "ExecuTorch"@ || f == "Other"@
}

/// What is declared for a benchmark is accepted just where every text is fine, every address
/// is public, the format is known, the identifiers are such, no secret is given away, and the
/// optimizations are declared in one way.
pub proof fn metadata_are_accepted_where_all_is_fine(a: BenchRunArgs)
    ensures
        metadata_refusal(a) is None <==> {
            &&& is_fine(a.catalog_model_id@, 128) && catalog_id(a.catalog_model_id@)
            &&& is_fine(a.quantization@, 256) && is_fine(a.device_name@, 256) && is_fine(a.soc@, 256)
            &&& is_fine(a.backend_version@, 256) && is_fine(a.submitter_name@, 256)
            &&& is_known_format(a.model_format@)
            &&& is_fine_address(a.model_url@)
            &&& a.source_url is Some ==> is_fine_address(a.source_url->0@)
            &&& is_fine_if_given(opt_text(a.model_name), 256)
            &&& is_fine_if_given(opt_text(a.backend_id), 256)
            &&& a.backend_id is Some ==> catalog_id(a.backend_id->0@)
            &&& is_fine_if_given(opt_text(a.backend_name), 256)
            &&& is_fine_if_given(opt_text(a.organization), 256)
            &&& is_fine_if_given(opt_text(a.notes), 2048)
            &&& is_fine(a.build_command@, 16384) && !exposes_any(words_of(a.build_command@))
            &&& a.baseline <==> a.optimizations@.len() == 0
        },
{
    lemma_format(a.model_format@);
    lemma_text(a.catalog_model_id@, 128);
    lemma_text(a.quantization@, 256);
    lemma_text(a.device_name@, 256);
    lemma_text(a.soc@, 256);
    lemma_text(a.backend_version@, 256);
    lemma_text(a.submitter_name@, 256);
    lemma_text(a.build_command@, 16384);
    lemma_text(a.model_name->0@, 256);
    lemma_text(a.backend_id->0@, 256);
    lemma_text(a.backend_name->0@, 256);
    lemma_text(a.organization->0@, 256);
    lemma_text(a.notes->0@, 2048);
}

proof fn lemma_format(f: Seq<char>)
    ensures
        crate::benchmark::metadata::model_formats().contains(f) <==> is_known_format(f),
{
    let all = crate::benchmark::metadata::model_formats();
    assert(all.len() == 10);
    assert(all[0] == "GGUF"@ && all[1] == "MLX"@ && all[2] == "Safetensors"@ && all[3] == "MNN"@
        && all[4] == "TFLite"@ && all[5] == "LiteRT"@ && all[6] == "LITERTLM"@ && all[7] == "ONNX"@
        && all[8] == "ExecuTorch"@ && all[9] == "Other"@);
}

proof fn lemma_text(s: Seq<char>, max: nat)
    ensures
        forall|label: Seq<char>|
            #[trigger] crate::benchmark::metadata::text_refusal(label, s, max) is None <==> is_fine(
                s,
                max,
            ),
{
    let t = trimmed(s);
    if crate::benchmark::metadata::has_forbidden(t) {
        let i = choose|i: int|
            0 <= i < t.len() && crate::benchmark::metadata::forbidden(#[trigger] t[i]);
        assert(control(t[i]));
    } else {
        assert forall|i: int| 0 <= i < t.len() && control(#[trigger] t[i]) implies t[i] == '\n'
            || t[i] == '\r' || t[i] == '\t' by {
            assert(!crate::benchmark::metadata::forbidden(t[i]));
        }
    }
}

/// Identifiers are made of letters, digits, and behind the first character of dots,
/// underscores and hyphens; all but those of a catalog in small letters.
pub proof fn identifiers_are_plain(s: Seq<char>)
    ensures
        catalog_id(s) <==> (1 <= s.len() <= 128 && forall|i: int|
            0 <= i < s.len() ==> ('a' <= #[trigger] s[i] <= 'z' || 'A' <= s[i] <= 'Z' || '0' <= s[i]
                <= '9' || (i > 0 && (s[i] == '.' || s[i] == '_' || s[i] == '-')))),
        benchmark_id(s) <==> (3 <= s.len() <= 128 && forall|i: int|
            0 <= i < s.len() ==> ('a' <= #[trigger] s[i] <= 'z' || '0' <= s[i] <= '9' || (i > 0 && (
            s[i] == '.' || s[i] == '_' || s[i] == '-')))),
        optimization_slug(s) <==> (1 <= s.len() <= 64 && s != "none"@ && s != "baseline"@ && s
            != "default"@ && forall|i: int|
            0 <= i < s.len() ==> ('a' <= #[trigger] s[i] <= 'z' || '0' <= s[i] <= '9' || (i > 0 && (
            s[i] == '.' || s[i] == '_' || s[i] == '-')))),
{
    let plain = |i: int|
        'a' <= s[i] <= 'z' || '0' <= s[i] <= '9' || (i > 0 && (s[i] == '.' || s[i] == '_' || s[i]
            == '-'));
    assert forall|i: int| 0 <= i < s.len() implies crate::benchmark::ids::slug_char(
        #[trigger] s[i],
        i == 0,
    ) == plain(i) by {}
    assert forall|i: int| 0 <= i < s.len() implies crate::benchmark::ids::catalog_char(
        #[trigger] s[i],
        i == 0,
    ) == (plain(i) || 'A' <= s[i] <= 'Z') by {}
}

/// An identifier that is made up begins with the gateway and the point in time.
pub proof fn made_up_identifiers_tell_the_time(
    model: Seq<char>,
    backend: Seq<char>,
    seconds: int,
    nanoseconds: nat,
)
    ensures
        ({
            let id = generated_id(model, backend, seconds, nanoseconds);
            let start = "omniinfer-"@ + signed_decimal(seconds) + "-"@
                + crate::text::number::hex_digits(nanoseconds, 8) + "-"@;
            id.len() >= start.len() && id.take(start.len() as int) == start
        }),
{
    let id = generated_id(model, backend, seconds, nanoseconds);
    let start = "omniinfer-"@ + signed_decimal(seconds) + "-"@
        + crate::text::number::hex_digits(nanoseconds, 8) + "-"@;
    assert(id.take(start.len() as int) =~= start);
}

/// A runtime that is ready is planned for as it was stated, where everything that is needed is
/// stated and nothing stands against it.
pub proof fn ready_runtimes_are_planned(
    a: BenchRunArgs,
    state: JsonView,
    windows: bool,
    backend: Seq<char>,
)
    requires
        flag_member(state, "backend_ready"@) == Some(true),
        text_member(state, "model"@) is Some,
        text_member(state, "backend"@) == Some(backend),
        catalog_id(backend),
        a.backend_id is Some ==> a.backend_id->0@ == backend,
        member(state, "launch_command"@) is None,
        !contains(lowered(backend), "dflash"@),
        !contains(lowered(backend), "turboquant"@),
        a.baseline && a.optimizations@.len() == 0,
        a.run_command is Some,
        is_fine(a.run_command->0@, 16384),
        !exposes_any(words_of(a.run_command->0@)),
        a.context_size is Some && a.context_size->0 > 0,
        a.batch_size is Some && a.batch_size->0 > 0,
    ensures
        run_plan(a, state, windows) is Ok,
{
    lemma_text(a.run_command->0@, 16384);
    assert(texts(a.optimizations@) =~= Seq::<Seq<char>>::empty());
    assert(crate::benchmark::optimizations::all_trimmed(texts(a.optimizations@)) =~= Seq::<
        Seq<char>,
    >::empty());
    assert(methods_seen(backend, seq![]).len() == 0);
}

/// A runtime that is not ready, or is not the one that was asked for, is not planned for.
pub proof fn other_runtimes_are_not_planned(a: BenchRunArgs, state: JsonView, windows: bool)
    ensures
        flag_member(state, "backend_ready"@) != Some(true) ==> run_plan(a, state, windows) is Err,
        text_member(state, "model"@) is None ==> run_plan(a, state, windows) is Err,
        text_member(state, "backend"@) is None ==> run_plan(a, state, windows) is Err,
        text_member(state, "backend"@) matches Some(b) ==> (!catalog_id(b) || (a.backend_id is Some
            && a.backend_id->0@ != b)) ==> run_plan(a, state, windows) is Err,
        a.context_size == Some(0u32) ==> run_plan(a, state, windows) is Err,
        a.batch_size == Some(0u32) ==> run_plan(a, state, windows) is Err,
{
}

/// Whether an argument says something of the batch size.
pub open spec fn is_batch_flag(arg: Seq<char>) -> bool {
    arg == "-b"@ || arg == "--batch-size"@ || arg == "--batch_size"@ || starts_with(
        arg,
        "-b"@ + "="@,
    ) || starts_with(arg, "--batch-size"@ + "="@) || starts_with(arg, "--batch_size"@ + "="@)
}

/// A benchmark that states no batch size is planned as one that does. Its batch size is the
/// first one that the command of the runtime sets.
pub proof fn batch_sizes_are_read_from_the_command(
    a: BenchRunArgs,
    stating: BenchRunArgs,
    state: JsonView,
    windows: bool,
    args: Seq<Seq<char>>,
    i: int,
    n: nat,
)
    requires
        run_plan(stating, state, windows) is Ok,
        stating.batch_size is Some,
        a == (BenchRunArgs { batch_size: None, ..stating }),
        member(state, "launch_command"@) is Some,
        member(state, "launch_command"@)->0 is Array,
        member(state, "launch_command"@)->0->Array_0.len() == args.len(),
        forall|j: int|
            0 <= j < args.len() ==> #[trigger] member(state, "launch_command"@)->0->Array_0[j]
                == JsonView::Text(args[j]),
        0 <= i < args.len() - 1,
        0 < n <= 0xffff_ffff,
        args[i + 1] == decimal(n),
        args[i] == "-b"@ || args[i] == "--batch-size"@ || args[i] == "--batch_size"@,
        forall|j: int| 0 <= j < i ==> !is_batch_flag(#[trigger] args[j]),
    ensures
        run_plan(a, state, windows) == Ok::<RunPlanView, Seq<char>>(
            RunPlanView { batch_size: n, ..run_plan(stating, state, windows)->Ok_0 },
        ),
{
    parsing_undoes_showing(n, u32::MAX as nat);
    let items = member(state, "launch_command"@)->0->Array_0;
    let launched = all_texts(state, "launch_command"@)->Ok_0;
    assert forall|j: int| 0 <= j < items.len() implies (#[trigger] items[j]) is Text by {}
    assert(launched =~= args);
    lemma_batch_at(args, i, n);
    assert forall|j: int| 0 <= j < i implies crate::benchmark::flags::any_flag_number(
        args,
        j,
        crate::benchmark::run::batch_flags(),
    ) is None && #[trigger] args[j] == args[j] by {
        assert(!is_batch_flag(args[j]));
        reveal_with_fuel(crate::benchmark::flags::any_flag_number, 4);
        let flags = crate::benchmark::run::batch_flags();
        assert(flags[0] == "-b"@ && flags[1] == "--batch-size"@ && flags[2] == "--batch_size"@);
        assert(flags.drop_first()[0] == "--batch-size"@);
        assert(flags.drop_first().drop_first()[0] == "--batch_size"@);
        assert(flags.drop_first().drop_first().drop_first().len() == 0);
    }
    lemma_first_at(args, 0, i, n);
}

proof fn lemma_first_at(args: Seq<Seq<char>>, from: int, i: int, n: nat)
    requires
        0 <= from <= i < args.len(),
        crate::benchmark::flags::any_flag_number(
            args,
            i,
            crate::benchmark::run::batch_flags(),
        ) == Some(n),
        forall|j: int|
            from <= j < i ==> crate::benchmark::flags::any_flag_number(
                args,
                j,
                crate::benchmark::run::batch_flags(),
            ) is None && #[trigger] args[j] == args[j],
    ensures
        first_flag_number(args, from, crate::benchmark::run::batch_flags()) == Some(n),
    decreases i - from,
{
    if from < i {
        assert(args[from] == args[from]);
        lemma_first_at(args, from + 1, i, n);
    }
}

proof fn lemma_batch_at(args: Seq<Seq<char>>, i: int, n: nat)
    requires
        0 <= i < args.len() - 1,
        crate::text::number::parsed(args[i + 1], u32::MAX as nat) == Some(n),
        args[i] == "-b"@ || args[i] == "--batch-size"@ || args[i] == "--batch_size"@,
    ensures
        crate::benchmark::flags::any_flag_number(
            args,
            i,
            crate::benchmark::run::batch_flags(),
        ) == Some(n),
{
    reveal_with_fuel(crate::benchmark::flags::any_flag_number, 4);
    let flags = crate::benchmark::run::batch_flags();
    assert(flags[0] == "-b"@ && flags[1] == "--batch-size"@ && flags[2] == "--batch_size"@);
    assert(flags.drop_first()[0] == "--batch-size"@);
    assert(flags.drop_first().drop_first()[0] == "--batch_size"@);
    reveal_strlit("-b");
    reveal_strlit("--batch-size");
    reveal_strlit("--batch_size");
    reveal_strlit("=");
    assert("--batch-size"@[7] == '-' && "--batch_size"@[7] == '_');
    assert("-b"@.len() == 2 && "--batch-size"@.len() == 12 && "--batch_size"@.len() == 12);
    assert("--batch-size"@[2] == 'b' && "--batch-size"@[1] == '-' && "--batch_size"@[1] == '-');
    assert("-b"@[1] == 'b');
    let w = args[i];
    if w != "-b"@ {
        let p = "-b"@ + "="@;
        if starts_with(w, p) {
            assert(w.subrange(0, p.len() as int)[1] == w[1]);
            assert(p[1] == 'b');
        }
    }
    if w == "--batch_size"@ {
        let p = "--batch-size"@ + "="@;
        assert(p.len() == 13);
    }
}

/// Runs that agree, within the limits, are settled on with the identifier that was given.
pub proof fn agreeing_runs_are_settled(
    a: BenchRunArgs,
    plan: RunPlanView,
    runs: Seq<MeasuredRun>,
    seconds: int,
    nanoseconds: nat,
    pp: u64,
    tg: u64,
)
    requires
        runs.len() > 0,
        forall|i: int|
            0 <= i < runs.len() ==> (#[trigger] runs[i]).prompt_tokens == pp
                && runs[i].completion_tokens == tg,
        pp <= 1048576,
        tg <= 1048576,
        plan.context_size <= 4194304,
        plan.batch_size <= 1048576,
        pp + tg <= plan.context_size,
        a.benchmark_id is Some,
        benchmark_id(a.benchmark_id->0@),
    ensures
        settled(a, plan, runs, seconds, nanoseconds) == Ok::<(Seq<char>, u64, u64), Seq<char>>(
            (a.benchmark_id->0@, pp, tg),
        ),
{
    let prompts = crate::benchmark::run::prompt_counts(runs);
    let completions = crate::benchmark::run::completion_counts(runs);
    assert forall|i: int| 0 <= i < prompts.len() implies #[trigger] prompts[i] == pp by {
        assert(runs[i].prompt_tokens == pp);
    }
    assert forall|i: int| 0 <= i < completions.len() implies #[trigger] completions[i] == tg by {
        assert(runs[i].completion_tokens == tg);
    }
}

/// A response is measured where it counts its tokens and gives the duration of both phases.
pub proof fn complete_responses_are_measured(response: JsonView, a: Amount, b: Amount, n: nat, k: nat)
    requires
        has_object(response, "usage"@),
        has_object(response, "timings"@),
        inside(response, "usage"@, "prompt_tokens"@) == Some(JsonView::Unsigned(n)),
        inside(response, "usage"@, "completion_tokens"@) == Some(JsonView::Unsigned(k)),
        n > 0,
        k > 0,
        shows(inside(response, "timings"@, "prompt_ms"@), a),
        shows(inside(response, "timings"@, "predicted_ms"@), b),
    ensures
        measured(response) matches Ok(m) && m.prompt_tokens == n as u64 && m.completion_tokens
            == k as u64 && m.prefill == Timing::Duration(a) && m.decode == Timing::Duration(b),
{
    reveal_with_fuel(crate::benchmark::measurement::first_number, 3);
}

/// A response without positive counts of tokens is not measured.
pub proof fn responses_without_counts_are_not_measured(response: JsonView)
    ensures
        !has_object(response, "usage"@) ==> measured(response) is Err,
        !(inside(response, "usage"@, "prompt_tokens"@) matches Some(JsonView::Unsigned(n)) && n > 0)
            ==> measured(response) is Err,
        !(inside(response, "usage"@, "completion_tokens"@) matches Some(JsonView::Unsigned(n)) && n
            > 0) ==> measured(response) is Err,
{
}

/// A runtime is benchmarked where it is a llama.cpp or TurboQuant one without a projector and
/// every one of its caches is switched off.
pub proof fn runtimes_without_caches_are_benchmarked(
    backend: Seq<char>,
    args: Seq<Seq<char>>,
    similarity_is_zero: bool,
    state: JsonView,
)
    requires
        member(state, "mmproj"@) is None || member(state, "mmproj"@) == Some(JsonView::Null),
        starts_with(backend, "llama.cpp-"@) || contains(backend, "turboquant"@),
        option_value(args, seq!["-cram"@, "--cache-ram"@], None) == Some("0"@),
        option_value(args, seq!["--slot-prompt-similarity"@], None) is Some,
        similarity_is_zero,
        toggled(args, "--cache-prompt"@, "--no-cache-prompt"@) == Some(false),
        toggled(args, "--cache-idle-slots"@, "--no-cache-idle-slots"@) == Some(false),
        option_value(args, seq!["--slot-save-path"@], None) is Some,
        option_value(args, seq!["--slot-save-path"@], None)->0.len() > 0,
    ensures
        isolation_refusal(backend, args, similarity_is_zero, state) is None,
{
}

/// The methods that are seen are DFlash and TurboQuant, each where the backend or an argument
/// names it, whatever the case.
pub proof fn methods_are_seen_where_they_are_named(backend: Seq<char>, args: Seq<Seq<char>>)
    ensures
        methods_seen(backend, args).contains("dflash"@) <==> (contains(lowered(backend), "dflash"@)
            || exists|i: int| 0 <= i < args.len() && contains(lowered(#[trigger] args[i]), "dflash"@)),
        methods_seen(backend, args).contains("turboquant"@) <==> (contains(
            lowered(backend),
            "turboquant"@,
        ) || exists|i: int|
            0 <= i < args.len() && contains(lowered(#[trigger] args[i]), "turboquant"@)),
        methods_seen(backend, args).len() <= 2,
{
    reveal_strlit("dflash");
    reveal_strlit("turboquant");
    assert("dflash"@.len() == 6 && "turboquant"@.len() == 10);
    let all = methods_seen(backend, args);
    if crate::benchmark::optimizations::speaks_of(backend, args, "dflash"@) {
        assert(all[0] == "dflash"@);
    }
    if crate::benchmark::optimizations::speaks_of(backend, args, "turboquant"@) {
        assert(all[all.len() - 1] == "turboquant"@);
    }
}

/// A baseline is declared where nothing is seen; and one method that is an identifier and is
/// all that is seen is declared as it is.
pub proof fn declarations_are_taken_as_made(option: Seq<char>, seen: Seq<Seq<char>>)
    ensures
        seen.len() == 0 ==> declaration(seq![], true, seen) == Ok::<
            (Seq<char>, Seq<Seq<char>>),
            Seq<char>,
        >(("baseline"@, seq![])),
        seen.len() > 0 ==> declaration(seq![], true, seen) is Err,
        optimization_slug(trimmed(option)) && seen.len() == 0 ==> declaration(
            seq![option],
            false,
            seen,
        ) == Ok::<(Seq<char>, Seq<Seq<char>>), Seq<char>>(("optimized"@, seq![trimmed(option)])),
        !optimization_slug(trimmed(option)) ==> declaration(seq![option], false, seen) is Err,
{
    let none = Seq::<Seq<char>>::empty();
    let one = seq![option];
    reveal_with_fuel(crate::text::order::in_order, 2);
    reveal_with_fuel(crate::benchmark::optimizations::first_bad_slug, 2);
    assert(crate::benchmark::optimizations::all_trimmed(none) =~= none);
    let t = crate::benchmark::optimizations::all_trimmed(one);
    assert(t =~= seq![trimmed(option)]);
    assert(t.drop_last() =~= none);
    assert(crate::text::order::placed(none, trimmed(option)) =~= seq![trimmed(option)]);
    assert(crate::text::order::in_order(t) =~= seq![trimmed(option)]);
    assert(seq![trimmed(option)].drop_first() =~= none);
}

/// A device is known by its name: Apple's, AMD's and x86-64 processors.
pub proof fn devices_are_known_by_their_names(name: Seq<char>)
    ensures
        contains(lowered(name), "apple"@) ==> device_id(name) == Some("apple-silicon"@),
        !contains(lowered(name), "apple"@) && contains(lowered(name), "radeon 8060s"@) ==> device_id(
            name,
        ) == Some("radeon-8060s"@),
        !contains(lowered(name), "apple"@) && !contains(lowered(name), "radeon 8060s"@) && contains(
            lowered(name),
            "radeon"@,
        ) ==> device_id(name) == Some("amd-radeon-pc"@),
        !contains(lowered(name), "apple"@) && !contains(lowered(name), "radeon 8060s"@)
            && !contains(lowered(name), "radeon"@) && (contains(lowered(name), "x86-64"@)
            || contains(lowered(name), "x86_64"@)) ==> device_id(name) == Some("x86-64-cpu"@),
{
}

/// The device of a backend is what its machine has: the GPU that is listed for CUDA, the brand
/// of the processor for Macs, and else the architecture where it is the known one.
pub proof fn devices_are_those_of_the_machine(
    backend: Seq<char>,
    state: JsonView,
    gpus: Option<Seq<char>>,
    brand: Option<Seq<char>>,
    arch: Seq<char>,
)
    ensures
        contains(backend, "cuda"@) && gpus is None ==> device_name(
            backend,
            state,
            gpus,
            brand,
            arch,
        ) is None,
        contains(backend, "cuda"@) && gpus is Some && listed_devices(lines_of(gpus->0)).len() == 1
            && text_member(state, "cuda_visible_devices"@) is None ==> device_name(
            backend,
            state,
            gpus,
            brand,
            arch,
        ) == Some(listed_devices(lines_of(gpus->0))[0].1),
        !contains(backend, "cuda"@) && contains(backend, "mac"@) && brand is Some && trimmed(
            brand->0,
        ).len() > 0 ==> device_name(backend, state, gpus, brand, arch) == Some(trimmed(brand->0)),
        !contains(backend, "cuda"@) && contains(backend, "mac"@) && brand is None ==> device_name(
            backend,
            state,
            gpus,
            brand,
            arch,
        ) is None,
        !contains(backend, "cuda"@) && !contains(backend, "mac"@) && arch == "x86_64"@
            && !contains(backend, "rocm"@) ==> device_name(backend, state, gpus, brand, arch)
            == Some("x86-64 PC CPU"@),
        !contains(backend, "cuda"@) && !contains(backend, "mac"@) && (arch != "x86_64"@
            || contains(backend, "rocm"@)) ==> device_name(backend, state, gpus, brand, arch)
            is None,
{
}

/// Of several GPUs the one with the index that the runtime sees is the device; without such
/// an index there is none, unless there is only one GPU.
pub proof fn the_visible_gpu_is_the_device(
    devices: Seq<(Seq<char>, Seq<char>)>,
    index: Seq<char>,
    i: int,
)
    requires
        0 <= i < devices.len(),
        devices[i].0 == index,
        forall|j: int| 0 <= j < i ==> (#[trigger] devices[j]).0 != index,
    ensures
        gpu_name(Some(index), devices) == Some(devices[i].1),
        devices.len() != 1 ==> gpu_name(None, devices) is None,
{
    lemma_name_at(devices, index, i);
}

proof fn lemma_name_at(devices: Seq<(Seq<char>, Seq<char>)>, index: Seq<char>, i: int)
    requires
        0 <= i < devices.len(),
        devices[i].0 == index,
        forall|j: int| 0 <= j < i ==> (#[trigger] devices[j]).0 != index,
    ensures
        crate::benchmark::environment::name_at(devices, index) == Some(devices[i].1),
    decreases i,
{
    if i > 0 {
        let rest = devices.drop_first();
        assert(devices[0].0 != index);
        assert forall|j: int| 0 <= j < i - 1 implies (#[trigger] rest[j]).0 != index by {
            assert(rest[j] == devices[j + 1]);
        }
        lemma_name_at(rest, index, i - 1);
    }
}

/// What is given and fine is used as it is.
pub proof fn given_devices_and_versions_are_used(
    name: Seq<char>,
    soc: Seq<char>,
    detected: Option<Seq<char>>,
    version: Seq<char>,
    command: Seq<char>,
    record: Option<JsonView>,
    backend: Seq<char>,
)
    ensures
        is_fine(name, 256) && is_fine(soc, 256) ==> device_for(Some(name), Some(soc), detected)
            == Ok::<(Seq<char>, Seq<char>), Seq<char>>((name, soc)),
        !is_fine(name, 256) || !is_fine(soc, 256) ==> device_for(Some(name), Some(soc), detected)
            is Err,
        detected is None ==> device_for(None, Some(soc), detected) is Err,
        is_fine(version, 256) && is_fine(trimmed(command), 16384) && !exposes_any(
            words_of(trimmed(command)),
        ) ==> provenance(Some(version), Some(command), record, backend) == Ok::<
            (Seq<char>, Seq<char>),
            Seq<char>,
        >((version, trimmed(command))),
        record is None ==> provenance(None, Some(command), record, backend) is Err && provenance(
            Some(version),
            None,
            record,
            backend,
        ) is Err,
{
    lemma_text(name, 256);
    lemma_text(soc, 256);
    lemma_text(version, 256);
    lemma_text(trimmed(command), 16384);
}

/// The directory of a backend is the one that the state lists for it.
pub proof fn runtime_directories_are_those_listed(
    state: JsonView,
    entries: Seq<JsonView>,
    backend: Seq<char>,
    i: int,
)
    requires
        inside(state, "available_backends"@, "data"@) == Some(JsonView::Array(entries)),
        0 <= i < entries.len(),
        text_member(entries[i], "id"@) == Some(backend),
        forall|j: int| 0 <= j < i ==> text_member(#[trigger] entries[j], "id"@) != Some(backend),
    ensures
        runtime_dir_in(state, backend) == text_member(entries[i], "runtime_dir"@),
{
    lemma_dir_at(entries, backend, i);
}

proof fn lemma_dir_at(entries: Seq<JsonView>, backend: Seq<char>, i: int)
    requires
        0 <= i < entries.len(),
        text_member(entries[i], "id"@) == Some(backend),
        forall|j: int| 0 <= j < i ==> text_member(#[trigger] entries[j], "id"@) != Some(backend),
    ensures
        crate::benchmark::environment::listed_runtime_dir(entries, backend) == text_member(
            entries[i],
            "runtime_dir"@,
        ),
    decreases i,
{
    if i > 0 {
        let rest = entries.drop_first();
        assert(text_member(entries[0], "id"@) != Some(backend));
        assert forall|j: int| 0 <= j < i - 1 implies text_member(#[trigger] rest[j], "id"@) != Some(
            backend,
        ) by {
            assert(rest[j] == entries[j + 1]);
        }
        lemma_dir_at(rest, backend, i - 1);
    }
}

/// A secret that an argument gives behind its equals sign is replaced, and one that the next
/// argument gives too; the name stays.
pub proof fn secrets_are_replaced(name: Seq<char>, value: Seq<char>)
    requires
        !name.contains('='),
        secret_name(name),
    ensures
        redacted(seq![name + "="@ + value]) == seq![name + "="@ + "<redacted>"@],
        redacted(seq![name, value]) == seq![name, "<redacted>"@],
{
    reveal_strlit("=");
    let joint = name + "="@ + value;
    crate::text::laws::texts_are_cut_at_their_separator(name, '=', value);
    assert(joint =~= name + seq!['='] + value);
    reveal_with_fuel(crate::benchmark::commands::is_replaced, 2);
    assert(redacted(seq![joint]) =~= seq![name + "="@ + "<redacted>"@]);
    crate::text::laws::texts_are_cut_at_their_separator(name, '=', seq![]);
    let two = seq![name, value];
    assert(two[0] == name);
    assert(redacted(two) =~= seq![name, "<redacted>"@]);
}

/// A name is that of a secret where, without leading hyphens, in small letters and with
/// underscores for hyphens, it speaks of an API key, a token, a password or a secret.
pub proof fn secrets_are_known_by_their_names(name: Seq<char>)
    requires
        name.len() > 0,
        forall|i: int| 0 <= i < name.len() ==> 'a' <= #[trigger] name[i] <= 'z' || name[i] == '_',
    ensures
        secret_name(name) <==> (contains(name, "api_key"@) || name == "token"@
            || crate::text::search::ends_with(name, "_token"@) || contains(name, "password"@)
            || contains(name, "secret"@)),
        secret_name(seq!['-', '-'] + name) <==> secret_name(name),
        secret_name(seq!['-'] + name) <==> secret_name(name),
{
    lemma_plain(name);
    lemma_hyphens(name);
}

proof fn lemma_plain(name: Seq<char>)
    requires
        name.len() > 0,
        forall|i: int| 0 <= i < name.len() ==> 'a' <= #[trigger] name[i] <= 'z' || name[i] == '_',
    ensures
        crate::benchmark::commands::plain_name_of(name) == name,
{
    assert(name[0] != '-');
    assert(crate::text::trim::left_trimmed(name, crate::text::trim::CharClass::Only('-')) == name);
    assert(lowered(name) =~= name);
    lemma_no_hyphen(name, "_"@);
}

proof fn lemma_no_hyphen(s: Seq<char>, by: Seq<char>)
    requires
        forall|i: int| 0 <= i < s.len() ==> #[trigger] s[i] != '-',
    ensures
        crate::text::compose::replaced(s, '-', by) == s,
    decreases s.len(),
{
    if s.len() > 0 {
        let rest = s.drop_last();
        assert forall|i: int| 0 <= i < rest.len() implies #[trigger] rest[i] != '-' by {
            assert(rest[i] == s[i]);
        }
        lemma_no_hyphen(rest, by);
        assert(s[s.len() - 1] != '-');
        assert(rest + seq![s.last()] =~= s);
    } else {
        assert(crate::text::compose::replaced(s, '-', by) =~= s);
    }
}

proof fn lemma_hyphens(name: Seq<char>)
    requires
        name.len() > 0,
        name[0] != '-',
    ensures
        crate::benchmark::commands::plain_name_of(seq!['-'] + name)
            == crate::benchmark::commands::plain_name_of(name),
        crate::benchmark::commands::plain_name_of(seq!['-', '-'] + name)
            == crate::benchmark::commands::plain_name_of(name),
{
    let class = crate::text::trim::CharClass::Only('-');
    let one = seq!['-'] + name;
    let two = seq!['-', '-'] + name;
    reveal_with_fuel(crate::text::trim::left_trimmed, 3);
    assert(one.drop_first() =~= name);
    assert(two.drop_first() =~= one);
    assert(crate::text::trim::left_trimmed(one, class) == name);
    assert(crate::text::trim::left_trimmed(two, class) == name);
    assert(crate::text::trim::left_trimmed(name, class) == name);
}

/// A value gives no secret away where, without quotes, it was redacted or refers to a
/// variable.
pub proof fn references_give_nothing_away(value: Seq<char>)
    requires
        value.len() > 0,
        value[0] != '\'' && value[0] != '"' && value.last() != '\'' && value.last() != '"',
    ensures
        redacted_reference(value) <==> value == "<redacted>"@ || value[0] == '$' || value[0] == '%',
{
    let class = crate::text::trim::CharClass::Either('\'', '"');
    assert(crate::text::trim::both_trimmed(value, class) == value);
}

/// The command of a runtime that states none is the one that it was launched with, without its
/// secrets, each argument as it is written.
pub proof fn captured_commands_are_reported(
    a: BenchRunArgs,
    state: JsonView,
    windows: bool,
)
    requires
        run_plan(a, state, windows) is Ok,
        a.run_command is None,
    ensures
        member(state, "launch_command"@) matches Some(JsonView::Array(items)) && items.len() > 0
            && (forall|i: int| 0 <= i < items.len() ==> (#[trigger] items[i]) is Text)
            && run_plan(a, state, windows)->Ok_0.run_command == trimmed(
            joined(
                quoted_all(
                    redacted(Seq::new(items.len(), |i: int| items[i]->Text_0)),
                    windows,
                ),
                " "@,
            ),
        ),
{
}

/// A graphics card of the catalog is known by its number, and a longer name before a shorter
/// one.
pub proof fn cards_are_known_by_their_number(name: Seq<char>)
    requires
        !contains(lowered(name), "apple"@),
        !contains(lowered(name), "radeon 8060s"@),
        !contains(lowered(name), "radeon"@),
        !contains(lowered(name), "x86-64"@),
        !contains(lowered(name), "x86_64"@),
    ensures
        contains(lowered(name), "rtx "@ + "5090"@) ==> device_id(name) == Some(
            "rtx-"@ + crate::text::compose::replaced("5090"@, ' ', "-"@),
        ),
        (forall|i: int|
            0 <= i < 23 ==> !contains(lowered(name), "rtx "@ + #[trigger] catalog_cards()[i]))
            ==> device_id(name) is None,
        device_id(name) matches Some(id) ==> exists|i: int|
            0 <= i < 23 && contains(lowered(name), "rtx "@ + #[trigger] catalog_cards()[i]) && (
            forall|j: int|
                0 <= j < i ==> !contains(lowered(name), "rtx "@ + #[trigger] catalog_cards()[j]))
                && id == "rtx-"@ + crate::text::compose::replaced(catalog_cards()[i], ' ', "-"@),
{
    let n = lowered(name);
    let cards = crate::benchmark::environment::known_cards();
    assert(cards =~= catalog_cards());
    lemma_cards(cards, n);
    assert(cards[0] == "5090"@);
}

proof fn lemma_cards(cards: Seq<Seq<char>>, n: Seq<char>)
    ensures
        (forall|i: int|
            0 <= i < cards.len() ==> !contains(n, "rtx "@ + #[trigger] cards[i]))
            ==> crate::benchmark::environment::first_card(cards, n) is None,
        crate::benchmark::environment::first_card(cards, n) matches Some(id) ==> exists|i: int|
            0 <= i < cards.len() && contains(n, "rtx "@ + #[trigger] cards[i]) && (forall|j: int|
                0 <= j < i ==> !contains(n, "rtx "@ + #[trigger] cards[j])) && id == "rtx-"@
                + crate::text::compose::replaced(cards[i], ' ', "-"@),
    decreases cards.len(),
{
    if cards.len() > 0 {
        let rest = cards.drop_first();
        lemma_cards(rest, n);
        if contains(n, "rtx "@ + cards[0]) {
            assert(contains(n, "rtx "@ + cards[0]));
        } else {
            if forall|i: int| 0 <= i < cards.len() ==> !contains(n, "rtx "@ + #[trigger] cards[i]) {
                assert forall|i: int| 0 <= i < rest.len() implies !contains(
                    n,
                    "rtx "@ + #[trigger] rest[i],
                ) by {
                    assert(rest[i] == cards[i + 1]);
                }
            }
            if let Some(id) = crate::benchmark::environment::first_card(rest, n) {
                let k = choose|i: int|
                    0 <= i < rest.len() && contains(n, "rtx "@ + #[trigger] rest[i]) && (forall|
                        j: int,
                    | 0 <= j < i ==> !contains(n, "rtx "@ + #[trigger] rest[j])) && id == "rtx-"@
                        + crate::text::compose::replaced(rest[i], ' ', "-"@);
                assert(rest[k] == cards[k + 1]);
                assert forall|j: int| 0 <= j < k + 1 implies !contains(
                    n,
                    "rtx "@ + #[trigger] cards[j],
                ) by {
                    if j > 0 {
                        assert(rest[j - 1] == cards[j]);
                    }
                }
            }
        }
    }
}

/// The graphics cards of the catalog by their numbers, the longer names first.
pub open spec fn catalog_cards() -> Seq<Seq<char>> {
    seq![
        "5090"@,
        "5080"@,
        "5070 ti"@,
        "5070"@,
        "5060 ti"@,
        "5060"@,
        "4090"@,
        "4080 super"@,
        "4080"@,
        "4070 ti super"@,
        "4070 ti"@,
        "4070 super"@,
        "4070"@,
        "4060 ti"@,
        "4060"@,
        "3090 ti"@,
        "3090"@,
        "3080 ti"@,
        "3080"@,
        "3070 ti"@,
        "3070"@,
        "3060 ti"@,
        "3060"@,
    ]
}

/// An argument is written as it is where it is harmless, and in quotes where it is empty.
pub proof fn harmless_arguments_are_written_as_they_are(argument: Seq<char>)
    ensures
        argument.len() > 0 && (forall|i: int|
            0 <= i < argument.len() ==> 'a' <= #[trigger] argument[i] <= 'z') ==> quoted(
            argument,
            false,
        ) == argument && quoted(argument, true) == argument,
        argument.len() == 0 ==> quoted(argument, false).len() == 2 && quoted(argument, true).len()
            == 2,
{
    reveal_strlit("'");
    reveal_strlit("\"");
    if argument.len() > 0 && (forall|i: int|
        0 <= i < argument.len() ==> 'a' <= #[trigger] argument[i] <= 'z') {
        assert forall|i: int| 0 <= i < argument.len() implies crate::benchmark::commands::shell_safe(
            #[trigger] argument[i],
        ) && !crate::text::chars::white(argument[i]) && argument[i] != '"' by {}
    }
}

/// A result is listed by what it says of itself, each under its name, where it is of the
/// current schema; any other is not listed.
pub proof fn rows_say_what_results_say(payload: JsonView, path: Seq<char>)
    ensures
        text_member(payload, "schema_version"@) == Some("1.2.0"@) <==> row_of(payload, path) is Some,
        row_of(payload, path) matches Some(r) ==> {
            &&& r.benchmark_id == text_member(payload, "benchmark_id"@)
            &&& r.path == path
            &&& inside(payload, "model"@, "catalog_model_id"@) matches Some(JsonView::Text(s))
                ==> r.model_id == Some(s)
            &&& inside(payload, "backend"@, "catalog_backend_id"@) matches Some(JsonView::Text(s))
                ==> r.backend_id == Some(s)
            &&& inside(payload, "protocol"@, "started_at"@) matches Some(JsonView::Text(s))
                ==> r.started_at == Some(s)
            &&& inside(payload, "model"@, "catalog_model_id"@) is None ==> r.model_id is None
            &&& inside(payload, "backend"@, "catalog_backend_id"@) is None ==> r.backend_id is None
            &&& inside(payload, "protocol"@, "started_at"@) is None ==> r.started_at is None
        },
{
}

/// The value of an optional text: null where there is none.
pub open spec fn or_null(o: Option<Seq<char>>) -> JsonView {
    match o {
        Some(s) => JsonView::Text(s),
        None => JsonView::Null,
    }
}

/// A row is listed for a program with each of its parts under its name, and for a reader in
/// one line.
pub proof fn rows_are_listed_as_they_are(row: RowView)
    ensures
        member(row_json(row), "benchmark_id"@) == Some(or_null(row.benchmark_id)),
        member(row_json(row), "model_id"@) == Some(or_null(row.model_id)),
        member(row_json(row), "backend_id"@) == Some(or_null(row.backend_id)),
        member(row_json(row), "started_at"@) == Some(or_null(row.started_at)),
        member(row_json(row), "path"@) == Some(JsonView::Text(row.path)),
        row.benchmark_id is Some && row.model_id is Some && row.backend_id is Some ==> row_words(row)
            == "  "@ + row.benchmark_id->0 + "  model="@ + row.model_id->0 + "  backend="@
            + row.backend_id->0 + "  "@ + row.path,
{
    let fields = row_json(row)->Object_0;
    reveal_strlit("benchmark_id");
    reveal_strlit("model_id");
    reveal_strlit("backend_id");
    reveal_strlit("started_at");
    reveal_strlit("path");
    assert("benchmark_id"@.len() == 12);
    assert("model_id"@.len() == 8);
    assert("backend_id"@.len() == 10);
    assert("started_at"@.len() == 10);
    assert("path"@.len() == 4);
    assert("backend_id"@[0] == 'b');
    assert("started_at"@[0] == 's');
    lemma_field_at(fields, 0);
    lemma_field_at(fields, 1);
    lemma_field_at(fields, 2);
    lemma_field_at(fields, 3);
    lemma_field_at(fields, 4);
}

/// A result is written where nothing is at its place: the directory is made, and kept from
/// others where it has to be, a temporary file is written and put on the disk, and takes the
/// place; what fails once there is a temporary file removes it first.
pub proof fn results_are_written_in_order(v: WriteView, reason: String)
    ensures
        ({
            let done = |p: WritePhase|
                write_after(WriteView { phase: p, ..v }, WriteEvent::Done).phase;
            let broken = |p: WritePhase|
                write_after(WriteView { phase: p, ..v }, WriteEvent::Broken(reason));
            let seen = |b: bool|
                write_after(
                    WriteView { phase: WritePhase::CheckDestination, ..v },
                    WriteEvent::Present(b),
                );
            &&& seen(true).phase is Failed && seen(true).error is Some
            &&& v.has_parent ==> seen(false).phase is MakeDirectory
            &&& !v.has_parent ==> seen(false).phase is Failed
            &&& v.restricted ==> done(WritePhase::MakeDirectory) is RestrictDirectory
            &&& !v.restricted ==> done(WritePhase::MakeDirectory) is CreateTemporary
            &&& done(WritePhase::RestrictDirectory) is CreateTemporary
            &&& done(WritePhase::CreateTemporary) is WriteTemporary
            &&& done(WritePhase::WriteTemporary) is SyncTemporary
            &&& done(WritePhase::SyncTemporary) is Rename
            &&& done(WritePhase::Rename) is Finished
            &&& done(WritePhase::RemoveTemporary) is Failed
            &&& broken(WritePhase::MakeDirectory).phase is Failed
            &&& broken(WritePhase::RestrictDirectory).phase is Failed
            &&& broken(WritePhase::CreateTemporary).phase is Failed
            &&& broken(WritePhase::WriteTemporary).phase is RemoveTemporary
            &&& broken(WritePhase::SyncTemporary).phase is RemoveTemporary
            &&& broken(WritePhase::Rename).phase is RemoveTemporary
            &&& broken(WritePhase::Rename).error == Some(reason@)
            &&& broken(WritePhase::CreateTemporary).error == Some(reason@)
        }),
{
}

/// A benchmark that states no context size is planned as one that does. Its context size is
/// that of the runtime.
pub proof fn context_sizes_are_read_from_the_state(
    a: BenchRunArgs,
    stating: BenchRunArgs,
    state: JsonView,
    windows: bool,
    n: nat,
)
    requires
        run_plan(stating, state, windows) is Ok,
        stating.context_size is Some,
        a == (BenchRunArgs { context_size: None, ..stating }),
        number_member(state, "ctx_size"@) == Some(n),
        0 < n <= 0xffff_ffff,
    ensures
        run_plan(a, state, windows) == Ok::<RunPlanView, Seq<char>>(
            RunPlanView { context_size: n, ..run_plan(stating, state, windows)->Ok_0 },
        ),
{
}

/// Whether an amount is above zero and finite.
pub open spec fn is_positive(a: Amount) -> bool {
    match a {
        Amount::Whole(n) => n > 0,
        Amount::Real(bits) => 0 < bits < 0x7ff0_0000_0000_0000,
    }
}

/// The amount of a timing.
pub open spec fn timed(t: Timing) -> Amount {
    match t {
        Timing::Duration(a) => a,
        Timing::Rate(a) => a,
    }
}

/// Whether a value is no whole number beyond a machine word.
pub open spec fn fits_a_word(v: Option<JsonView>) -> bool {
    v matches Some(JsonView::Unsigned(n)) ==> n <= u64::MAX
}

/// Whether a value is a number that cannot be a duration or a rate.
pub open spec fn is_unusable(v: Option<JsonView>) -> bool {
    match v {
        Some(JsonView::Unsigned(n)) => n == 0,
        Some(JsonView::Negative(_)) => true,
        Some(JsonView::Float(bits)) => bits == 0 || bits >= 0x7ff0_0000_0000_0000,
        _ => false,
    }
}

/// Whatever is measured is positive and finite. A duration that is not so is passed over, and
/// the rate takes its place.
pub proof fn measured_amounts_are_positive(response: JsonView, a: Amount)
    requires
        measured(response) is Ok,
        forall|section: Seq<char>, key: Seq<char>|
            fits_a_word(#[trigger] inside(response, section, key)),
    ensures
        ({
            let m = measured(response)->Ok_0;
            &&& is_positive(timed(m.prefill))
            &&& is_positive(timed(m.decode))
            &&& m.ttft is Some ==> is_positive(m.ttft->0)
        }),
        has_object(response, "timings"@) && is_unusable(inside(response, "timings"@, "prompt_ms"@))
            && shows(inside(response, "timings"@, "prompt_per_second"@), a) ==> measured(
            response,
        )->Ok_0.prefill == Timing::Rate(a),
        has_object(response, "timings"@) && is_unusable(
            inside(response, "timings"@, "predicted_ms"@),
        ) && shows(inside(response, "timings"@, "predicted_per_second"@), a) ==> measured(
            response,
        )->Ok_0.decode == Timing::Rate(a),
{
    reveal_with_fuel(crate::benchmark::measurement::first_number, 3);
    assert(fits_a_word(inside(response, "timings"@, "prompt_ms"@)));
    assert(fits_a_word(inside(response, "timings"@, "prompt_per_second"@)));
    assert(fits_a_word(inside(response, "timings"@, "predicted_ms"@)));
    assert(fits_a_word(inside(response, "timings"@, "decode_ms"@)));
    assert(fits_a_word(inside(response, "timings"@, "predicted_per_second"@)));
    assert(fits_a_word(inside(response, "timings"@, "decode_tps"@)));
    assert(fits_a_word(inside(response, "omniinfer_metrics"@, "observed_prefill_tps"@)));
    assert(fits_a_word(inside(response, "omniinfer_metrics"@, "ttft_ms"@)));
    assert(fits_a_word(inside(response, "omniinfer_metrics"@, "observed_decode_tps"@)));
    assert(fits_a_word(inside(response, "omniinfer_metrics"@, "decode_ms"@)));
}

/// In a list the later start comes first, and results without one come last.
pub proof fn later_results_are_listed_first(rows: Seq<RowView>, i: int, j: int)
    requires
        0 <= i < j < rows.len(),
    ensures
        ({
            let a = latest_first(rows)[i].started_at;
            let b = latest_first(rows)[j].started_at;
            &&& b is Some ==> a is Some
            &&& a is Some && b is Some ==> a == b || before(b->0, a->0)
        }),
{
    crate::benchmark::listing::the_latest_result_comes_first(rows);
    assert(latest_first(rows).len() == rows.len()) by {
        broadcast use vstd::seq_lib::group_to_multiset_ensures;

        assert(latest_first(rows).to_multiset().len() == rows.to_multiset().len());
    }
    let a = latest_first(rows)[i].started_at;
    let b = latest_first(rows)[j].started_at;
    if a is Some && b is Some {
        crate::text::order::lemma_total(a->0, b->0);
    }
}

/// On Windows an argument that holds white space or a quote stands in quotes, and each quote in
/// it behind a backslash.
pub proof fn windows_arguments_stand_in_quotes(a: Seq<char>, b: Seq<char>, c: char)
    ensures
        ({
            let whole = a + seq![c] + b;
            let inner = |s: Seq<char>| crate::text::compose::replaced(s, '"', seq!['\\', '"']);
            &&& c == ' ' || c == '\t' ==> quoted(whole, true) == seq!['"'] + inner(a) + seq![c]
                + inner(b) + seq!['"']
            &&& c == '"' ==> quoted(whole, true) == seq!['"'] + inner(a) + seq!['\\', '"'] + inner(b)
                + seq!['"']
            &&& !a.contains('"') ==> inner(a) == a
        }),
{
    reveal_strlit("\"");
    reveal_strlit("\\\"");
    let whole = a + seq![c] + b;
    assert("\""@ =~= seq!['"']);
    assert("\\\""@ =~= seq!['\\', '"']);
    let by = seq!['\\', '"'];
    assert(whole[a.len() as int] == c);
    crate::text::laws::replacing_goes_character_by_character(a, seq![c], '"', by);
    crate::text::laws::replacing_goes_character_by_character(a + seq![c], b, '"', by);
    crate::text::laws::white_space_is_that_of_unicode(c);
    if !a.contains('"') {
        lemma_nothing_replaced(a, by);
    }
    if c == ' ' || c == '\t' || c == '"' {
        assert(quoted(whole, true) == "\""@ + crate::text::compose::replaced(whole, '"', by)
            + "\""@);
        assert(quoted(whole, true) =~= seq!['"'] + crate::text::compose::replaced(a, '"', by)
            + crate::text::compose::replaced(seq![c], '"', by) + crate::text::compose::replaced(
            b,
            '"',
            by,
        ) + seq!['"']);
    }
}

proof fn lemma_nothing_replaced(a: Seq<char>, by: Seq<char>)
    requires
        !a.contains('"'),
    ensures
        crate::text::compose::replaced(a, '"', by) == a,
    decreases a.len(),
{
    if a.len() > 0 {
        assert(a.last() != '"') by {
            assert(a[a.len() - 1] == a.last());
        }
        assert(!a.drop_last().contains('"')) by {
            if a.drop_last().contains('"') {
                let i = choose|i: int| 0 <= i < a.len() - 1 && a.drop_last()[i] == '"';
                assert(a[i] == '"');
            }
        }
        lemma_nothing_replaced(a.drop_last(), by);
        assert(crate::text::compose::replaced(a, '"', by) =~= a);
    } else {
        assert(a =~= Seq::<char>::empty());
    }
}

/// A later mention of an option goes before an earlier one.
pub proof fn later_mentions_go_first(
    rest: Seq<Seq<char>>,
    name: Seq<char>,
    value: Seq<char>,
    so_far: Option<Seq<char>>,
)
    requires
        name.len() > 0,
    ensures
        option_value(seq![name, value] + rest, seq![name], so_far) == option_value(
            rest,
            seq![name],
            Some(value),
        ),
        option_value(seq![name + "="@ + value] + rest, seq![name], so_far) == option_value(
            rest,
            seq![name],
            Some(value),
        ),
        option_value(seq![name], seq![name], so_far) is None,
{
    reveal_strlit("=");
    let names = seq![name];
    assert(names[0] == name);
    reveal_with_fuel(crate::benchmark::flags::option_hit, 2);
    let two = seq![name, value] + rest;
    assert(two[0] == name && two[1] == value);
    assert(two.skip(2) =~= rest);
    let w = name + "="@ + value;
    let inline = seq![w] + rest;
    assert(inline[0] == w);
    assert(w.len() > name.len());
    assert(w.subrange(0, (name + "="@).len() as int) =~= name + "="@);
    assert(w.skip((name + "="@).len() as int) =~= value);
    assert(inline.drop_first() =~= rest);
}

/// A word for an identifier is made of small letters and digits, with single hyphens between
/// them and none around them. A text of that kind without hyphens is its own word.
pub proof fn words_for_identifiers_have_single_hyphens(s: Seq<char>, i: int)
    ensures
        ({
            let r = slug(s);
            &&& r.len() > 0 ==> r[0] != '-' && r.last() != '-'
            &&& 0 <= i < r.len() ==> alphanumeric(r[i]) || r[i] == '-'
            &&& 0 <= i < r.len() - 1 ==> !(r[i] == '-' && r[i + 1] == '-')
            &&& lowercase_text(s) == s && (forall|j: int|
                0 <= j < s.len() ==> alphanumeric(#[trigger] s[j])) ==> r == s
        }),
{
    let lower = lowercase_text(s);
    let t = slug_so_far(lower);
    let class = CharClass::Only('-');
    lemma_single_hyphens(lower);
    lemma_left_trimmed(t, class);
    let u = left_trimmed(t, class);
    lemma_right_trimmed(u, class);
    let r = slug(s);
    let from = t.len() - u.len();
    assert(forall|j: int| 0 <= j < r.len() ==> #[trigger] r[j] == t[from + j]);
    if r.len() > 0 {
        assert(r[0] == u[0]);
    }
    if lower == s && (forall|j: int| 0 <= j < s.len() ==> alphanumeric(#[trigger] s[j])) {
        lemma_own_word(s);
        if s.len() > 0 {
            assert(alphanumeric(s[0]) && alphanumeric(s[s.len() - 1]));
        }
    }
}

proof fn lemma_single_hyphens(s: Seq<char>)
    ensures
        ({
            let t = slug_so_far(s);
            &&& forall|j: int| 0 <= j < t.len() ==> alphanumeric(#[trigger] t[j]) || t[j] == '-'
            &&& forall|j: int|
                0 <= j < t.len() - 1 ==> !(#[trigger] t[j] == '-' && t[j + 1] == '-')
            &&& t.len() > 0 && alphanumeric(s.last()) ==> t.last() != '-'
        }),
    decreases s.len(),
{
    if s.len() > 0 {
        let before = slug_so_far(s.drop_last());
        lemma_single_hyphens(s.drop_last());
        let t = slug_so_far(s);
        if s.len() > 1 {
            assert(s.drop_last().last() == s[s.len() - 2]);
        }
        assert forall|j: int| 0 <= j < t.len() - 1 implies !(#[trigger] t[j] == '-' && t[j + 1]
            == '-') by {
            assert(t[j] == before[j]);
            if j + 1 < before.len() {
                assert(t[j + 1] == before[j + 1]);
            }
        }
    }
}

proof fn lemma_own_word(s: Seq<char>)
    requires
        forall|j: int| 0 <= j < s.len() ==> alphanumeric(#[trigger] s[j]),
    ensures
        slug_so_far(s) == s,
    decreases s.len(),
{
    if s.len() > 0 {
        let rest = s.drop_last();
        assert forall|j: int| 0 <= j < rest.len() implies alphanumeric(#[trigger] rest[j]) by {
            assert(rest[j] == s[j]);
        }
        lemma_own_word(rest);
        assert(alphanumeric(s[s.len() - 1]));
        assert(slug_so_far(s) =~= s);
    } else {
        assert(slug_so_far(s) =~= s);
    }
}

/// An identifier that is made up ends with the model and the backend, each as a word, where
/// there is room for both.
pub proof fn made_up_identifiers_tell_what_was_measured(
    model: Seq<char>,
    backend: Seq<char>,
    seconds: int,
    nanoseconds: nat,
)
    requires
        slug(model).len() > 0,
        slug(backend).len() > 0,
        ("omniinfer-"@ + signed_decimal(seconds) + "-"@ + crate::text::number::hex_digits(
            nanoseconds,
            8,
        )).len() + slug(model).len() + slug(backend).len() <= 125,
    ensures
        generated_id(model, backend, seconds, nanoseconds) == "omniinfer-"@ + signed_decimal(
            seconds,
        ) + "-"@ + crate::text::number::hex_digits(nanoseconds, 8) + "-"@ + slug(model) + "-"@
            + slug(backend),
{
    reveal_strlit("-");
    words_for_identifiers_have_single_hyphens(model, 0);
    words_for_identifiers_have_single_hyphens(backend, 0);
    let whole = slug(model) + "-"@ + slug(backend);
    let class = CharClass::Only('-');
    assert(whole[0] == slug(model)[0]);
    assert(whole.last() == slug(backend).last());
    assert(left_trimmed(whole, class) == whole);
    assert(right_trimmed(whole, class) == whole);
    assert(generated_id(model, backend, seconds, nanoseconds) =~= "omniinfer-"@ + signed_decimal(
        seconds,
    ) + "-"@ + crate::text::number::hex_digits(nanoseconds, 8) + "-"@ + slug(model) + "-"@ + slug(
        backend,
    ));
}

} // verus!
