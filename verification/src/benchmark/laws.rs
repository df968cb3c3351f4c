//! What a benchmark reports, told from what was declared and measured.
use vstd::prelude::*;

use crate::benchmark::environment::{device_for, provenance};
use crate::benchmark::flags::{isolation_refusal, option_value, toggled};
use crate::benchmark::measurement::{measured, Amount, Timing};
use crate::benchmark::metadata::{metadata_refusal, BenchRunArgs};
use crate::benchmark::run::{
    facts_of, prompt_of, run_plan, run_request, settled, submitted, PromptInput, RunPlanView,
};
use crate::benchmark::submission::{
    backend_section, metric_array, model_section, protocol_section, provenance_section,
    runs_section, submission, workload_section, MeasuredRun, Metric, RunFacts,
};
use crate::json::{field, flag_member, lemma_field_at, member, number_member, text_member, JsonView};
use crate::outside::sha256_digest;
use crate::text::compose::opt_text;
use crate::text::number::hex_bytes;
use crate::text::search::{contains, starts_with};
use crate::text::trim::{blank, trimmed};

verus! {

/// What an object holds under a key of the object under another key.
pub open spec fn inside(v: JsonView, outer: Seq<char>, inner: Seq<char>) -> Option<JsonView> {
    match member(v, outer) {
        Some(o) => member(o, inner),
        None => None,
    }
}

/// Whether a value is an array with one number for each of some runs.
pub open spec fn lists(v: Option<JsonView>, bits: Seq<u64>) -> bool {
    v matches Some(JsonView::Array(items)) && items.len() == bits.len() && forall|i: int|
        0 <= i < bits.len() ==> #[trigger] items[i] == JsonView::Float(bits[i])
}

/// Every metric that is reported is the one that it is called, run by run.
pub proof fn metrics_are_what_they_are_called(runs: Seq<MeasuredRun>)
    ensures
        lists(
            Some(metric_array(runs, Metric::PrefillTps)),
            Seq::new(runs.len(), |i: int| runs[i].prefill_tps),
        ),
        lists(
            Some(metric_array(runs, Metric::DecodeTps)),
            Seq::new(runs.len(), |i: int| runs[i].decode_tps),
        ),
        lists(
            Some(metric_array(runs, Metric::PrefillDuration)),
            Seq::new(runs.len(), |i: int| runs[i].prefill_duration_ms),
        ),
        lists(
            Some(metric_array(runs, Metric::DecodeDuration)),
            Seq::new(runs.len(), |i: int| runs[i].decode_duration_ms),
        ),
        lists(
            Some(metric_array(runs, Metric::WallTime)),
            Seq::new(runs.len(), |i: int| runs[i].wall_time_ms),
        ),
        (forall|i: int| 0 <= i < runs.len() ==> (#[trigger] runs[i]).ttft_ms is Some) ==> lists(
            Some(metric_array(runs, Metric::Ttft)),
            Seq::new(runs.len(), |i: int| runs[i].ttft_ms->0),
        ),
{
}

/// The metrics of a submission stand under their names. The time to the first token is
/// reported just where every run has one, and the time on the wall just where it covers the
/// phases of every run.
pub proof fn submissions_report_the_runs(
    a: BenchRunArgs,
    f: RunFacts,
    started_at: Seq<char>,
    runs: Seq<MeasuredRun>,
)
    ensures
        ({
            let json = submission(a, f, started_at, runs);
            &&& lists(
                inside(json, "runs"@, "prefill_tps"@),
                Seq::new(runs.len(), |i: int| runs[i].prefill_tps),
            )
            &&& lists(
                inside(json, "runs"@, "decode_tps"@),
                Seq::new(runs.len(), |i: int| runs[i].decode_tps),
            )
            &&& lists(
                inside(json, "runs"@, "prefill_duration_ms"@),
                Seq::new(runs.len(), |i: int| runs[i].prefill_duration_ms),
            )
            &&& lists(
                inside(json, "runs"@, "decode_duration_ms"@),
                Seq::new(runs.len(), |i: int| runs[i].decode_duration_ms),
            )
            &&& if forall|i: int| 0 <= i < runs.len() ==> (#[trigger] runs[i]).ttft_ms is Some {
                lists(
                    inside(json, "runs"@, "ttft_ms"@),
                    Seq::new(runs.len(), |i: int| runs[i].ttft_ms->0),
                )
            } else {
                inside(json, "runs"@, "ttft_ms"@) is None
            }
            &&& if forall|i: int|
                0 <= i < runs.len() ==> (#[trigger] runs[i]).wall_time_covers_phases {
                lists(
                    inside(json, "runs"@, "wall_time_ms"@),
                    Seq::new(runs.len(), |i: int| runs[i].wall_time_ms),
                )
            } else {
                inside(json, "runs"@, "wall_time_ms"@) is None
            }
        }),
{
    let whole = submission(a, f, started_at, runs)->Object_0;
    reveal_strlit("schema_version");
    reveal_strlit("benchmark_id");
    reveal_strlit("model");
    reveal_strlit("device");
    reveal_strlit("backend");
    reveal_strlit("runtime");
    reveal_strlit("optimization");
    reveal_strlit("workload");
    reveal_strlit("protocol");
    reveal_strlit("runs");
    reveal_strlit("provenance");
    assert("schema_version"@.len() == 14);
    assert("benchmark_id"@.len() == 12);
    assert("model"@.len() == 5);
    assert("device"@.len() == 6);
    assert("backend"@.len() == 7);
    assert("runtime"@.len() == 7);
    assert("optimization"@.len() == 12);
    assert("workload"@.len() == 8);
    assert("protocol"@.len() == 8);
    assert("runs"@.len() == 4);
    assert("provenance"@.len() == 10);
    assert("benchmark_id"@[0] == 'b');
    assert("optimization"@[0] == 'o');
    assert("backend"@[0] == 'b');
    assert("runtime"@[0] == 'r');
    assert("workload"@[0] == 'w');
    assert("protocol"@[0] == 'p');
    assert(whole.len() == 11);
    lemma_field_at(whole, 9);
    metrics_are_what_they_are_called(runs);
    let part = runs_section(runs)->Object_0;
    reveal_strlit("prefill_tps");
    reveal_strlit("decode_tps");
    reveal_strlit("prefill_duration_ms");
    reveal_strlit("decode_duration_ms");
    reveal_strlit("ttft_ms");
    reveal_strlit("wall_time_ms");
    assert("prefill_tps"@.len() == 11);
    assert("decode_tps"@.len() == 10);
    assert("prefill_duration_ms"@.len() == 19);
    assert("decode_duration_ms"@.len() == 18);
    assert("ttft_ms"@.len() == 7);
    assert("wall_time_ms"@.len() == 12);
    lemma_field_at(part, 0);
    lemma_field_at(part, 1);
    lemma_field_at(part, 2);
    lemma_field_at(part, 3);
    let timed = forall|i: int| 0 <= i < runs.len() ==> (#[trigger] runs[i]).ttft_ms is Some;
    let covered = forall|i: int|
        0 <= i < runs.len() ==> (#[trigger] runs[i]).wall_time_covers_phases;
    if timed {
        lemma_field_at(part, 4);
    } else {
        lemma_no_field(part, "ttft_ms"@);
    }
    if covered {
        lemma_field_at(part, part.len() - 1);
    } else {
        lemma_no_field(part, "wall_time_ms"@);
    }
}

proof fn lemma_no_field(fields: Seq<(Seq<char>, JsonView)>, key: Seq<char>)
    requires
        forall|i: int| 0 <= i < fields.len() ==> (#[trigger] fields[i]).0 != key,
    ensures
        field(fields, key) is None,
    decreases fields.len(),
{
    if fields.len() > 0 {
        assert(fields[fields.len() - 1].0 != key);
        let rest = fields.drop_last();
        assert forall|i: int| 0 <= i < rest.len() implies (#[trigger] rest[i]).0 != key by {
            assert(rest[i] == fields[i]);
        }
        lemma_no_field(rest, key);
    }
}

/// The text of an option, as a value.
pub open spec fn as_text(o: Option<Seq<char>>) -> Option<JsonView> {
    match o {
        Some(s) => Some(JsonView::Text(s)),
        None => None,
    }
}

/// A submission says under each name what was declared, planned and counted: the model, the
/// device, the backend, the commands, the optimizations, the workload with the checksum of
/// its prompt, and who submits it.
pub proof fn submissions_say_what_was_declared(
    json: JsonView,
    a: BenchRunArgs,
    plan: RunPlanView,
    prompt: Seq<char>,
    prompt_source: Seq<char>,
    id: Seq<char>,
    pp: u64,
    tg: u64,
    started_at: Seq<char>,
    runs: Seq<MeasuredRun>,
)
    requires
        submitted(json, a, plan, prompt, prompt_source, id, pp, tg, started_at, runs),
    ensures
        member(json, "schema_version"@) == Some(JsonView::Text("1.2.0"@)),
        member(json, "benchmark_id"@) == Some(JsonView::Text(id)),
        inside(json, "model"@, "catalog_model_id"@) == Some(JsonView::Text(a.catalog_model_id@)),
        inside(json, "model"@, "format"@) == Some(JsonView::Text(a.model_format@)),
        inside(json, "model"@, "quantization"@) == Some(JsonView::Text(a.quantization@)),
        inside(json, "model"@, "download_url"@) == Some(JsonView::Text(a.model_url@)),
        inside(json, "model"@, "name"@) == as_text(opt_text(a.model_name)),
        inside(json, "device"@, "name"@) == Some(JsonView::Text(a.device_name@)),
        inside(json, "device"@, "soc"@) == Some(JsonView::Text(a.soc@)),
        inside(json, "backend"@, "catalog_backend_id"@) == Some(
            JsonView::Text(plan.loaded_backend),
        ),
        inside(json, "backend"@, "version"@) == Some(JsonView::Text(a.backend_version@)),
        inside(json, "backend"@, "name"@) == as_text(opt_text(a.backend_name)),
        inside(json, "runtime"@, "build_command"@) == Some(
            JsonView::Text(trimmed(a.build_command@)),
        ),
        inside(json, "runtime"@, "run_command"@) == Some(JsonView::Text(plan.run_command)),
        inside(json, "optimization"@, "mode"@) == Some(JsonView::Text(plan.optimization_mode)),
        inside(json, "optimization"@, "methods"@) matches Some(JsonView::Array(methods))
            && methods.len() == plan.optimizations.len() && forall|i: int|
            0 <= i < methods.len() ==> #[trigger] methods[i] == JsonView::Text(
                plan.optimizations[i],
            ),
        inside(json, "workload"@, "task"@) == Some(JsonView::Text("text_generation"@)),
        inside(json, "workload"@, "pp"@) == Some(JsonView::Unsigned(pp as nat)),
        inside(json, "workload"@, "tg"@) == Some(JsonView::Unsigned(tg as nat)),
        inside(json, "workload"@, "context_size"@) == Some(JsonView::Unsigned(plan.context_size)),
        inside(json, "workload"@, "batch_size"@) == Some(JsonView::Unsigned(plan.batch_size)),
        inside(json, "workload"@, "concurrency"@) == Some(JsonView::Unsigned(1)),
        inside(json, "workload"@, "prompt"@) matches Some(p) && member(p, "source"@) == Some(
            JsonView::Text(prompt_source),
        ) && member(p, "sha256"@) == Some(
            JsonView::Text(hex_bytes(sha256_digest(vstd::utf8::encode_utf8(prompt)))),
        ),
        inside(json, "protocol"@, "run_mode"@) == Some(JsonView::Text("steady_state"@)),
        inside(json, "protocol"@, "cache_policy"@) == Some(
            JsonView::Text("reused_within_submission"@),
        ),
        inside(json, "protocol"@, "timeout_seconds"@) == Some(
            JsonView::Unsigned(a.timeout_seconds as nat),
        ),
        inside(json, "protocol"@, "started_at"@) == Some(JsonView::Text(started_at)),
        inside(json, "protocol"@, "notes"@) == as_text(opt_text(a.notes)),
        inside(json, "provenance"@, "submitter_name"@) == Some(
            JsonView::Text(a.submitter_name@),
        ),
        inside(json, "provenance"@, "organization"@) == as_text(opt_text(a.organization)),
        inside(json, "provenance"@, "source_url"@) == as_text(opt_text(a.source_url)),
{
    let f = choose|f: RunFacts| #[trigger]
        facts_of(f, plan, prompt, prompt_source, id, pp, tg) && json == submission(
            a,
            f,
            started_at,
            runs,
        );
    let whole = json->Object_0;
    reveal_strlit("schema_version");
    reveal_strlit("benchmark_id");
    reveal_strlit("model");
    reveal_strlit("device");
    reveal_strlit("backend");
    reveal_strlit("runtime");
    reveal_strlit("optimization");
    reveal_strlit("workload");
    reveal_strlit("protocol");
    reveal_strlit("runs");
    reveal_strlit("provenance");
    assert("schema_version"@.len() == 14);
    assert("benchmark_id"@.len() == 12);
    assert("model"@.len() == 5);
    assert("device"@.len() == 6);
    assert("backend"@.len() == 7);
    assert("runtime"@.len() == 7);
    assert("optimization"@.len() == 12);
    assert("workload"@.len() == 8);
    assert("protocol"@.len() == 8);
    assert("runs"@.len() == 4);
    assert("provenance"@.len() == 10);
    assert("benchmark_id"@[0] == 'b');
    assert("optimization"@[0] == 'o');
    assert("backend"@[0] == 'b');
    assert("runtime"@[0] == 'r');
    assert("workload"@[0] == 'w');
    assert("protocol"@[0] == 'p');
    assert(whole.len() == 11);
    lemma_field_at(whole, 0);
    lemma_field_at(whole, 1);
    lemma_field_at(whole, 2);
    lemma_field_at(whole, 3);
    lemma_field_at(whole, 4);
    lemma_field_at(whole, 5);
    lemma_field_at(whole, 6);
    lemma_field_at(whole, 7);
    lemma_field_at(whole, 8);
    lemma_field_at(whole, 10);
    lemma_model_section(a);
    lemma_backend_section(a, f.loaded_backend@);
    lemma_workload_section(f);
    lemma_protocol_section(a, started_at);
    lemma_provenance_section(a);
    let device = whole[3].1->Object_0;
    reveal_strlit("name");
    reveal_strlit("soc");
    assert("name"@.len() == 4);
    assert("soc"@.len() == 3);
    lemma_field_at(device, 0);
    lemma_field_at(device, 1);
    let runtime = whole[5].1->Object_0;
    reveal_strlit("build_command");
    reveal_strlit("run_command");
    assert("build_command"@.len() == 13);
    assert("run_command"@.len() == 11);
    lemma_field_at(runtime, 0);
    lemma_field_at(runtime, 1);
    let optimization = whole[6].1->Object_0;
    reveal_strlit("mode");
    reveal_strlit("methods");
    assert("mode"@.len() == 4);
    assert("methods"@.len() == 7);
    lemma_field_at(optimization, 0);
    lemma_field_at(optimization, 1);
}

proof fn lemma_model_section(a: BenchRunArgs)
    ensures
        member(model_section(a), "catalog_model_id"@) == Some(JsonView::Text(a.catalog_model_id@)),
        member(model_section(a), "format"@) == Some(JsonView::Text(a.model_format@)),
        member(model_section(a), "quantization"@) == Some(JsonView::Text(a.quantization@)),
        member(model_section(a), "download_url"@) == Some(JsonView::Text(a.model_url@)),
        member(model_section(a), "name"@) == as_text(opt_text(a.model_name)),
{
    let part = model_section(a)->Object_0;
    reveal_strlit("catalog_model_id");
    reveal_strlit("format");
    reveal_strlit("quantization");
    reveal_strlit("download_url");
    reveal_strlit("name");
    assert("catalog_model_id"@.len() == 16);
    assert("format"@.len() == 6);
    assert("quantization"@.len() == 12);
    assert("download_url"@.len() == 12);
    assert("name"@.len() == 4);
    assert("quantization"@[0] == 'q');
    assert("download_url"@[0] == 'd');
    lemma_field_at(part, 0);
    lemma_field_at(part, 1);
    lemma_field_at(part, 2);
    lemma_field_at(part, 3);
    if a.model_name is Some {
        lemma_field_at(part, 4);
    } else {
        lemma_no_field(part, "name"@);
    }
}

proof fn lemma_backend_section(a: BenchRunArgs, loaded: Seq<char>)
    ensures
        member(backend_section(a, loaded), "catalog_backend_id"@) == Some(JsonView::Text(loaded)),
        member(backend_section(a, loaded), "version"@) == Some(JsonView::Text(a.backend_version@)),
        member(backend_section(a, loaded), "name"@) == as_text(opt_text(a.backend_name)),
{
    let part = backend_section(a, loaded)->Object_0;
    reveal_strlit("catalog_backend_id");
    reveal_strlit("version");
    reveal_strlit("name");
    assert("catalog_backend_id"@.len() == 18);
    assert("version"@.len() == 7);
    assert("name"@.len() == 4);
    lemma_field_at(part, 0);
    lemma_field_at(part, 1);
    if a.backend_name is Some {
        lemma_field_at(part, 2);
    } else {
        lemma_no_field(part, "name"@);
    }
}

proof fn lemma_protocol_section(a: BenchRunArgs, started_at: Seq<char>)
    ensures
        member(protocol_section(a, started_at), "run_mode"@) == Some(
            JsonView::Text("steady_state"@),
        ),
        member(protocol_section(a, started_at), "cache_policy"@) == Some(
            JsonView::Text("reused_within_submission"@),
        ),
        member(protocol_section(a, started_at), "timeout_seconds"@) == Some(
            JsonView::Unsigned(a.timeout_seconds as nat),
        ),
        member(protocol_section(a, started_at), "started_at"@) == Some(JsonView::Text(started_at)),
        member(protocol_section(a, started_at), "notes"@) == as_text(opt_text(a.notes)),
{
    let part = protocol_section(a, started_at)->Object_0;
    reveal_strlit("run_mode");
    reveal_strlit("cache_policy");
    reveal_strlit("timeout_seconds");
    reveal_strlit("started_at");
    reveal_strlit("notes");
    assert("run_mode"@.len() == 8);
    assert("cache_policy"@.len() == 12);
    assert("timeout_seconds"@.len() == 15);
    assert("started_at"@.len() == 10);
    assert("notes"@.len() == 5);
    lemma_field_at(part, 0);
    lemma_field_at(part, 1);
    lemma_field_at(part, 2);
    lemma_field_at(part, 3);
    if a.notes is Some {
        lemma_field_at(part, 4);
    } else {
        lemma_no_field(part, "notes"@);
    }
}

proof fn lemma_provenance_section(a: BenchRunArgs)
    ensures
        member(provenance_section(a), "submitter_name"@) == Some(JsonView::Text(a.submitter_name@)),
        member(provenance_section(a), "organization"@) == as_text(opt_text(a.organization)),
        member(provenance_section(a), "source_url"@) == as_text(opt_text(a.source_url)),
{
    let part = provenance_section(a)->Object_0;
    reveal_strlit("submitter_name");
    reveal_strlit("organization");
    reveal_strlit("source_url");
    assert("submitter_name"@.len() == 14);
    assert("organization"@.len() == 12);
    assert("source_url"@.len() == 10);
    lemma_field_at(part, 0);
    if a.organization is Some {
        lemma_field_at(part, 1);
    } else {
        lemma_no_field(part, "organization"@);
    }
    if a.source_url is Some {
        lemma_field_at(part, part.len() - 1);
    } else {
        lemma_no_field(part, "source_url"@);
    }
}

proof fn lemma_workload_section(f: RunFacts)
    ensures
        member(workload_section(f), "task"@) == Some(JsonView::Text("text_generation"@)),
        member(workload_section(f), "pp"@) == Some(JsonView::Unsigned(f.pp as nat)),
        member(workload_section(f), "tg"@) == Some(JsonView::Unsigned(f.tg as nat)),
        member(workload_section(f), "context_size"@) == Some(
            JsonView::Unsigned(f.context_size as nat),
        ),
        member(workload_section(f), "batch_size"@) == Some(JsonView::Unsigned(f.batch_size as nat)),
        member(workload_section(f), "concurrency"@) == Some(JsonView::Unsigned(1)),
        member(workload_section(f), "prompt"@) matches Some(p) && member(p, "source"@) == Some(JsonView::Text(f.prompt_source@))
            && member(p, "sha256"@) == Some(JsonView::Text(f.prompt_sha256@)),
{
    let part = workload_section(f)->Object_0;
    reveal_strlit("task");
    reveal_strlit("pp");
    reveal_strlit("tg");
    reveal_strlit("context_size");
    reveal_strlit("batch_size");
    reveal_strlit("concurrency");
    reveal_strlit("prompt");
    assert("task"@.len() == 4);
    assert("pp"@.len() == 2);
    assert("tg"@.len() == 2);
    assert("context_size"@.len() == 12);
    assert("batch_size"@.len() == 10);
    assert("concurrency"@.len() == 11);
    assert("prompt"@.len() == 6);
    assert("pp"@[0] == 'p');
    assert("tg"@[0] == 't');
    lemma_field_at(part, 0);
    lemma_field_at(part, 1);
    lemma_field_at(part, 2);
    lemma_field_at(part, 3);
    lemma_field_at(part, 4);
    lemma_field_at(part, 5);
    lemma_field_at(part, 6);
    let prompt = part[6].1->Object_0;
    reveal_strlit("source");
    reveal_strlit("sha256");
    assert("source"@.len() == 6);
    assert("sha256"@.len() == 6);
    assert("source"@[1] == 'o');
    assert("sha256"@[1] == 'h');
    lemma_field_at(prompt, 0);
    lemma_field_at(prompt, 1);
}

/// Every run asks for one answer to the prompt, of at most the given length, without chance,
/// all at once and without thinking.
pub proof fn runs_ask_for_the_prompt(prompt: Seq<char>, max_tokens: u32)
    ensures
        member(run_request(prompt, max_tokens), "messages"@) matches Some(JsonView::Array(ms))
            && ms.len() == 1 && member(ms[0], "role"@) == Some(JsonView::Text("user"@)) && member(
            ms[0],
            "content"@,
        ) == Some(JsonView::Text(prompt)),
        member(run_request(prompt, max_tokens), "max_tokens"@) == Some(
            JsonView::Unsigned(max_tokens as nat),
        ),
        member(run_request(prompt, max_tokens), "temperature"@) == Some(JsonView::Unsigned(0)),
        member(run_request(prompt, max_tokens), "stream"@) == Some(JsonView::Bool(false)),
        member(run_request(prompt, max_tokens), "think"@) == Some(JsonView::Bool(false)),
{
    let part = run_request(prompt, max_tokens)->Object_0;
    reveal_strlit("messages");
    reveal_strlit("temperature");
    reveal_strlit("max_tokens");
    reveal_strlit("stream");
    reveal_strlit("think");
    assert("messages"@.len() == 8);
    assert("temperature"@.len() == 11);
    assert("max_tokens"@.len() == 10);
    assert("stream"@.len() == 6);
    assert("think"@.len() == 5);
    lemma_field_at(part, 0);
    lemma_field_at(part, 1);
    lemma_field_at(part, 2);
    lemma_field_at(part, 3);
    lemma_field_at(part, 4);
    let message = part[0].1->Array_0[0]->Object_0;
    reveal_strlit("role");
    reveal_strlit("content");
    assert("role"@.len() == 4);
    assert("content"@.len() == 7);
    lemma_field_at(message, 0);
    lemma_field_at(message, 1);
}

/// Whether a value is a positive finite number, and which.
pub open spec fn shows(v: Option<JsonView>, a: Amount) -> bool {
    match v {
        Some(JsonView::Unsigned(n)) => 0 < n <= u64::MAX && a == Amount::Whole(n as u64),
        Some(JsonView::Float(bits)) => 0 < bits < 0x7ff0_0000_0000_0000 && a == Amount::Real(bits),
        _ => false,
    }
}

/// Whether a value is no number at all.
pub open spec fn no_number(v: Option<JsonView>) -> bool {
    match v {
        Some(JsonView::Unsigned(_)) => false,
        Some(JsonView::Negative(_)) => false,
        Some(JsonView::Float(_)) => false,
        _ => true,
    }
}

/// Whether there is an object under a key.
pub open spec fn has_object(v: JsonView, key: Seq<char>) -> bool {
    member(v, key) matches Some(o) && o is Object
}

/// What is measured is what the response says under the name of the phase: the counts of
/// tokens, then for each phase the duration of the server, its rate, the rate that was
/// observed and the duration that was observed, the first of them that there is.
pub proof fn measurements_are_read_under_their_names(response: JsonView, a: Amount)
    requires
        measured(response) is Ok,
        has_object(response, "timings"@),
        has_object(response, "omniinfer_metrics"@),
    ensures
        ({
            let m = measured(response)->Ok_0;
            let t = |key: Seq<char>| inside(response, "timings"@, key);
            let o = |key: Seq<char>| inside(response, "omniinfer_metrics"@, key);
            &&& inside(response, "usage"@, "prompt_tokens"@) matches Some(JsonView::Unsigned(n))
                && n > 0 && m.prompt_tokens == n as u64
            &&& inside(response, "usage"@, "completion_tokens"@) matches Some(
                JsonView::Unsigned(n),
            ) && n > 0 && m.completion_tokens == n as u64
            &&& shows(t("prompt_ms"@), a) ==> m.prefill == Timing::Duration(a)
            &&& no_number(t("prompt_ms"@)) && shows(t("prompt_per_second"@), a) ==> m.prefill
                == Timing::Rate(a)
            &&& no_number(t("prompt_ms"@)) && no_number(t("prompt_per_second"@)) && shows(
                o("observed_prefill_tps"@),
                a,
            ) ==> m.prefill == Timing::Rate(a)
            &&& no_number(t("prompt_ms"@)) && no_number(t("prompt_per_second"@)) && no_number(
                o("observed_prefill_tps"@),
            ) && shows(o("ttft_ms"@), a) ==> m.prefill == Timing::Duration(a)
            &&& shows(t("predicted_ms"@), a) ==> m.decode == Timing::Duration(a)
            &&& no_number(t("predicted_ms"@)) && shows(t("decode_ms"@), a) ==> m.decode
                == Timing::Duration(a)
            &&& no_number(t("predicted_ms"@)) && no_number(t("decode_ms"@)) && shows(
                t("predicted_per_second"@),
                a,
            ) ==> m.decode == Timing::Rate(a)
            &&& no_number(t("predicted_ms"@)) && no_number(t("decode_ms"@)) && no_number(
                t("predicted_per_second"@),
            ) && shows(t("decode_tps"@), a) ==> m.decode == Timing::Rate(a)
            &&& no_number(t("predicted_ms"@)) && no_number(t("decode_ms"@)) && no_number(
                t("predicted_per_second"@),
            ) && no_number(t("decode_tps"@)) && shows(o("observed_decode_tps"@), a) ==> m.decode
                == Timing::Rate(a)
            &&& no_number(t("predicted_ms"@)) && no_number(t("decode_ms"@)) && no_number(
                t("predicted_per_second"@),
            ) && no_number(t("decode_tps"@)) && no_number(o("observed_decode_tps"@)) && shows(
                o("decode_ms"@),
                a,
            ) ==> m.decode == Timing::Duration(a)
            &&& shows(o("ttft_ms"@), a) ==> m.ttft == Some(a)
            &&& no_number(o("ttft_ms"@)) ==> m.ttft is None
        }),
{
    reveal_with_fuel(crate::benchmark::measurement::first_number, 3);
}

/// A plan is for what is loaded and ready. What was stated goes before what is known of the
/// runtime: the context, the batch and the command.
pub proof fn plans_keep_what_was_stated(a: BenchRunArgs, state: JsonView, windows: bool)
    requires
        run_plan(a, state, windows) is Ok,
    ensures
        ({
            let plan = run_plan(a, state, windows)->Ok_0;
            &&& flag_member(state, "backend_ready"@) == Some(true)
            &&& text_member(state, "backend"@) == Some(plan.loaded_backend)
            &&& text_member(state, "model"@) is Some
            &&& a.backend_id is Some ==> a.backend_id->0@ == plan.loaded_backend
            &&& a.context_size is Some ==> plan.context_size == a.context_size->0
            &&& a.context_size is None ==> number_member(state, "ctx_size"@) == Some(
                plan.context_size,
            )
            &&& a.batch_size is Some ==> plan.batch_size == a.batch_size->0
            &&& plan.context_size > 0 && plan.batch_size > 0
            &&& a.run_command is Some ==> plan.run_command == trimmed(a.run_command->0@)
            &&& a.baseline ==> plan.optimization_mode == "baseline"@ && plan.optimizations.len()
                == 0
            &&& !a.baseline ==> plan.optimization_mode == "optimized"@
        }),
{
}

/// The counts that are submitted are those of every run; they fit into the context; and an
/// identifier that is given is the one that is used.
pub proof fn counts_are_those_of_every_run(
    a: BenchRunArgs,
    plan: RunPlanView,
    runs: Seq<MeasuredRun>,
    seconds: int,
    nanoseconds: nat,
    i: int,
)
    requires
        settled(a, plan, runs, seconds, nanoseconds) is Ok,
        0 <= i < runs.len(),
    ensures
        ({
            let (id, pp, tg) = settled(a, plan, runs, seconds, nanoseconds)->Ok_0;
            &&& runs[i].prompt_tokens == pp
            &&& runs[i].completion_tokens == tg
            &&& pp + tg <= plan.context_size
            &&& a.benchmark_id is Some ==> id == a.benchmark_id->0@
            &&& pp <= 1048576 && tg <= 1048576 && plan.context_size <= 4194304
                && plan.batch_size <= 1048576
        }),
{
    let prompts = crate::benchmark::run::prompt_counts(runs);
    let completions = crate::benchmark::run::completion_counts(runs);
    assert(prompts[i] == runs[i].prompt_tokens && completions[i] == runs[i].completion_tokens);
}

/// A benchmark without a run has no result.
pub proof fn no_runs_have_no_result(
    a: BenchRunArgs,
    plan: RunPlanView,
    seconds: int,
    nanoseconds: nat,
)
    ensures
        settled(a, plan, seq![], seconds, nanoseconds) is Err,
{
}

/// A prompt that is given is the one that is used, as it is, and is never empty: a file goes
/// before the options.
pub proof fn prompts_are_used_as_given(input: PromptInput, inline: Option<Seq<char>>)
    ensures
        prompt_of(input, inline) matches Ok((prompt, _)) ==> !blank(prompt),
        input is Inline && inline is Some && !blank(inline->0) ==> prompt_of(input, inline) == Ok::<
            (Seq<char>, Seq<char>),
            Seq<char>,
        >((inline->0, "OmniInfer inline prompt"@)),
        input matches PromptInput::File(raw) ==> vstd::utf8::valid_utf8(raw@) && !blank(
            vstd::utf8::decode_utf8(raw@),
        ) ==> prompt_of(input, inline) == Ok::<(Seq<char>, Seq<char>), Seq<char>>(
            (vstd::utf8::decode_utf8(raw@), "OmniInfer prompt file"@),
        ),
        input is Unreadable ==> prompt_of(input, inline) is Err,
{
}

/// What is given of a device or a runtime goes before what was found of it.
pub proof fn what_is_given_goes_first(
    name: Option<Seq<char>>,
    soc: Option<Seq<char>>,
    detected: Option<Seq<char>>,
    version: Option<Seq<char>>,
    command: Option<Seq<char>>,
    record: Option<JsonView>,
    backend: Seq<char>,
)
    ensures
        device_for(name, soc, detected) matches Ok((n, s)) ==> (name is Some ==> n == name->0) && (
        name is None ==> detected == Some(n)) && (soc is Some ==> s == soc->0),
        provenance(version, command, record, backend) matches Ok((v, c)) ==> (version is Some ==> v
            == version->0) && (command is Some ==> c == trimmed(command->0)) && (version is None
            ==> record is Some && text_member(record->0, "backend"@) == Some(backend)
            && text_member(record->0, "tag"@) == Some(v)) && (command is None ==> record is Some
            && text_member(record->0, "backend"@) == Some(backend) && c
            == "omniinfer backend install "@ + backend),
{
}

/// A runtime is benchmarked only where no cache can carry over from run to run: a llama.cpp
/// or TurboQuant backend without a projector, with every one of its caches switched off.
pub proof fn benchmarked_runtimes_have_no_caches(
    backend: Seq<char>,
    args: Seq<Seq<char>>,
    similarity_is_zero: bool,
    state: JsonView,
)
    requires
        isolation_refusal(backend, args, similarity_is_zero, state) is None,
    ensures
        member(state, "mmproj"@) is None || member(state, "mmproj"@) == Some(JsonView::Null),
        starts_with(backend, "llama.cpp-"@) || contains(backend, "turboquant"@),
        option_value(args, seq!["-cram"@, "--cache-ram"@], None) == Some("0"@),
        option_value(args, seq!["--slot-prompt-similarity"@], None) is Some,
        similarity_is_zero,
        toggled(args, "--cache-prompt"@, "--no-cache-prompt"@) == Some(false),
        toggled(args, "--cache-idle-slots"@, "--no-cache-idle-slots"@) == Some(false),
        option_value(args, seq!["--slot-save-path"@], None) matches Some(path) && path.len() > 0,
{
}

/// The value of an option is the word behind its last mention, or what stands behind its
/// equals sign there.
pub proof fn options_have_their_last_value(
    args: Seq<Seq<char>>,
    name: Seq<char>,
    value: Seq<char>,
    so_far: Option<Seq<char>>,
)
    requires
        name.len() > 0,
        !name.contains('='),
        forall|i: int|
            0 <= i < args.len() ==> #[trigger] args[i] != name && !starts_with(
                args[i],
                name + "="@,
            ),
    ensures
        option_value(args.push(name).push(value), seq![name], so_far) == Some(value),
        option_value(args.push(name + "="@ + value), seq![name], so_far) == Some(value),
        option_value(args, seq![name], so_far) == so_far,
    decreases args.len(),
{
    reveal_strlit("=");
    let names = seq![name];
    assert(names[0] == name);
    assert(names.drop_first() =~= Seq::<Seq<char>>::empty());
    reveal_with_fuel(crate::benchmark::flags::option_hit, 2);
    reveal_with_fuel(option_value, 2);
    let two = args.push(name).push(value);
    let inline = args.push(name + "="@ + value);
    if args.len() == 0 {
        assert(two[0] == name && two[1] == value);
        assert(two.skip(2) =~= Seq::<Seq<char>>::empty());
        let w = name + "="@ + value;
        assert(inline[0] == w);
        assert(w != name) by {
            assert(w.len() > name.len());
        }
        assert(w.subrange(0, (name + "="@).len() as int) =~= name + "="@);
        assert(w.skip((name + "="@).len() as int) =~= value);
        assert(inline.drop_first() =~= Seq::<Seq<char>>::empty());
    } else {
        let rest = args.drop_first();
        assert(args[0] != name && !starts_with(args[0], name + "="@));
        assert forall|i: int| 0 <= i < rest.len() implies #[trigger] rest[i] != name
            && !starts_with(rest[i], name + "="@) by {
            assert(rest[i] == args[i + 1]);
        }
        options_have_their_last_value(rest, name, value, so_far);
        assert(two[0] == args[0] && inline[0] == args[0]);
        assert(two.drop_first() =~= rest.push(name).push(value));
        assert(inline.drop_first() =~= rest.push(name + "="@ + value));
    }
}

/// What is accepted for a benchmark has every text that is asked for, none of them too long,
/// and addresses that are public.
pub proof fn accepted_metadata_says_enough(a: BenchRunArgs)
    requires
        metadata_refusal(a) is None,
    ensures
        0 < trimmed(a.quantization@).len() <= 256,
        0 < trimmed(a.device_name@).len() <= 256,
        0 < trimmed(a.soc@).len() <= 256,
        0 < trimmed(a.backend_version@).len() <= 256,
        0 < trimmed(a.submitter_name@).len() <= 256,
        0 < trimmed(a.build_command@).len() <= 16384,
        public_address(crate::outside::url_meaning(a.model_url@)),
        a.source_url is Some ==> public_address(crate::outside::url_meaning(a.source_url->0@)),
        a.notes is Some ==> 0 < trimmed(a.notes->0@).len() <= 2048,
        a.model_name is Some ==> 0 < trimmed(a.model_name->0@).len() <= 256,
        a.organization is Some ==> 0 < trimmed(a.organization->0@).len() <= 256,
        a.model_format@ == "GGUF"@ || a.model_format@ == "MLX"@ || a.model_format@
            == "Safetensors"@ || a.model_format@ == "MNN"@ || a.model_format@ == "TFLite"@
            || a.model_format@ == "LiteRT"@ || a.model_format@ == "LITERTLM"@ || a.model_format@
            == "ONNX"@ || a.model_format@ == "ExecuTorch"@ || a.model_format@ == "Other"@,
{
    let formats = crate::benchmark::metadata::model_formats();
    let i = choose|i: int| 0 <= i < formats.len() && formats[i] == a.model_format@;
    assert(formats.len() == 10);
}

/// Whether an address is one over HTTPS with a host, without credentials or a fragment.
pub open spec fn public_address(
    meaning: Option<
        (Seq<char>, Option<Seq<char>>, Seq<char>, Option<Seq<char>>, Option<Seq<char>>),
    >,
) -> bool {
    meaning matches Some((scheme, host, username, password, fragment)) && scheme == "https"@
        && host is Some && username.len() == 0 && password is None && fragment is None
}

} // verus!
