//! The submission that a benchmark comes to.
use vstd::prelude::*;

use crate::benchmark::metadata::BenchRunArgs;
use crate::failure::Failure;
use crate::json::{no_fields, text_array, views, Fields, Json, JsonView};
use crate::outside::{rfc3339, rfc3339_notation};
use crate::text::compose::{opt_text, texts};
use crate::text::trim::{trim, trimmed};

verus! {

/// The version of the form that submissions have.
pub const BENCHMARK_SCHEMA_VERSION: &'static str = "1.2.0";

/// A run that was measured. Its metrics are given by the bits of their double-precision
/// form, rounded as they are to be reported.
#[derive(Clone, Copy, Debug)]
pub struct MeasuredRun {
    pub prompt_tokens: u64,
    pub completion_tokens: u64,
    pub prefill_tps: u64,
    pub decode_tps: u64,
    pub prefill_duration_ms: u64,
    pub decode_duration_ms: u64,
    pub ttft_ms: Option<u64>,
    pub wall_time_ms: u64,
    /// Whether the run took at least as long as its two phases together.
    pub wall_time_covers_phases: bool,
}

/// What a submission is made of besides what is declared.
pub struct RunFacts {
    pub benchmark_id: String,
    pub loaded_backend: String,
    pub run_command: String,
    pub optimization_mode: String,
    pub optimizations: Vec<String>,
    pub context_size: u32,
    pub batch_size: u32,
    pub prompt_source: String,
    pub prompt_sha256: String,
    pub pp: u64,
    pub tg: u64,
}

/// The metrics that a submission reports.
#[derive(Clone, Copy, Debug, PartialEq, Eq, Structural)]
pub enum Metric {
    PrefillTps,
    DecodeTps,
    PrefillDuration,
    DecodeDuration,
    Ttft,
    WallTime,
}

/// A metric of a run; one that was not measured counts as zero.
pub open spec fn metric_of(r: MeasuredRun, m: Metric) -> u64 {
    match m {
        Metric::PrefillTps => r.prefill_tps,
        Metric::DecodeTps => r.decode_tps,
        Metric::PrefillDuration => r.prefill_duration_ms,
        Metric::DecodeDuration => r.decode_duration_ms,
        Metric::Ttft => match r.ttft_ms {
            Some(t) => t,
            None => 0,
        },
        Metric::WallTime => r.wall_time_ms,
    }
}

/// A metric of all runs, in the order in which they were made.
pub open spec fn metric_array(runs: Seq<MeasuredRun>, m: Metric) -> JsonView {
    JsonView::Array(Seq::new(runs.len(), |i: int| JsonView::Float(metric_of(runs[i], m))))
}

/// A metric of all runs, in the order in which they were made.
pub fn metric_values(runs: &Vec<MeasuredRun>, m: Metric) -> (json: Json)
    ensures
        json@ == metric_array(runs@, m),
{
    let mut items: Vec<Json> = Vec::new();
    let mut i: usize = 0;
    while i < runs.len()
        invariant
            i <= runs@.len(),
            items@.len() == i,
            forall|j: int|
                0 <= j < i ==> #[trigger] items@[j]@ == JsonView::Float(metric_of(runs@[j], m)),
        decreases runs@.len() - i,
    {
        let r = runs[i];
        let bits: u64 = match m {
            Metric::PrefillTps => r.prefill_tps,
            Metric::DecodeTps => r.decode_tps,
            Metric::PrefillDuration => r.prefill_duration_ms,
            Metric::DecodeDuration => r.decode_duration_ms,
            Metric::Ttft => match r.ttft_ms {
                Some(t) => t,
                None => 0,
            },
            Metric::WallTime => r.wall_time_ms,
        };
        items.push(Json::Float(bits));
        i += 1;
    }
    assert(views(items@) =~= Seq::new(
        runs@.len(),
        |i: int| JsonView::Float(metric_of(runs@[i], m)),
    ));
    Json::array(items)
}

/// The fields with one more where there is something to put in it.
pub open spec fn with_opt(
    fields: Seq<(Seq<char>, JsonView)>,
    key: Seq<char>,
    value: Option<Seq<char>>,
) -> Seq<(Seq<char>, JsonView)> {
    match value {
        Some(v) => fields.push((key, JsonView::Text(v))),
        None => fields,
    }
}

fn put_opt(fields: &mut Fields, key: &str, value: &Option<String>)
    ensures
        final(fields)@ == with_opt(old(fields)@, key@, opt_text(*value)),
{
    if let Some(v) = value {
        fields.text(key, v.as_str());
    }
}

pub open spec fn model_section(a: BenchRunArgs) -> JsonView {
    JsonView::Object(
        with_opt(
            no_fields()
                .push(("catalog_model_id"@, JsonView::Text(a.catalog_model_id@)))
                .push(("format"@, JsonView::Text(a.model_format@)))
                .push(("quantization"@, JsonView::Text(a.quantization@)))
                .push(("download_url"@, JsonView::Text(a.model_url@))),
            "name"@,
            opt_text(a.model_name),
        ),
    )
}

pub open spec fn backend_section(a: BenchRunArgs, loaded: Seq<char>) -> JsonView {
    JsonView::Object(
        with_opt(
            no_fields()
                .push(("catalog_backend_id"@, JsonView::Text(loaded)))
                .push(("version"@, JsonView::Text(a.backend_version@))),
            "name"@,
            opt_text(a.backend_name),
        ),
    )
}

pub open spec fn protocol_section(a: BenchRunArgs, started_at: Seq<char>) -> JsonView {
    JsonView::Object(
        with_opt(
            no_fields()
                .push(("run_mode"@, JsonView::Text("steady_state"@)))
                .push(("cache_policy"@, JsonView::Text("reused_within_submission"@)))
                .push(("timeout_seconds"@, JsonView::Unsigned(a.timeout_seconds as nat)))
                .push(("started_at"@, JsonView::Text(started_at))),
            "notes"@,
            opt_text(a.notes),
        ),
    )
}

pub open spec fn provenance_section(a: BenchRunArgs) -> JsonView {
    JsonView::Object(
        with_opt(
            with_opt(
                no_fields().push(("submitter_name"@, JsonView::Text(a.submitter_name@))),
                "organization"@,
                opt_text(a.organization),
            ),
            "source_url"@,
            opt_text(a.source_url),
        ),
    )
}

/// Whether every run was measured up to its first token.
pub open spec fn all_have_ttft(runs: Seq<MeasuredRun>) -> bool {
    forall|i: int| 0 <= i < runs.len() ==> (#[trigger] runs[i]).ttft_ms is Some
}

/// Whether every run took at least as long as its phases.
pub open spec fn all_cover_phases(runs: Seq<MeasuredRun>) -> bool {
    forall|i: int| 0 <= i < runs.len() ==> (#[trigger] runs[i]).wall_time_covers_phases
}

/// The metrics of the runs; the time to the first token and the time on the wall only
/// where they hold of every run.
pub open spec fn runs_section(runs: Seq<MeasuredRun>) -> JsonView {
    let start = no_fields()
        .push(("prefill_tps"@, metric_array(runs, Metric::PrefillTps)))
        .push(("decode_tps"@, metric_array(runs, Metric::DecodeTps)))
        .push(("prefill_duration_ms"@, metric_array(runs, Metric::PrefillDuration)))
        .push(("decode_duration_ms"@, metric_array(runs, Metric::DecodeDuration)));
    let first_token = if all_have_ttft(runs) {
        start.push(("ttft_ms"@, metric_array(runs, Metric::Ttft)))
    } else {
        start
    };
    JsonView::Object(
        if all_cover_phases(runs) {
            first_token.push(("wall_time_ms"@, metric_array(runs, Metric::WallTime)))
        } else {
            first_token
        },
    )
}

pub open spec fn workload_section(f: RunFacts) -> JsonView {
    JsonView::Object(
        no_fields()
            .push(("task"@, JsonView::Text("text_generation"@)))
            .push(("pp"@, JsonView::Unsigned(f.pp as nat)))
            .push(("tg"@, JsonView::Unsigned(f.tg as nat)))
            .push(("context_size"@, JsonView::Unsigned(f.context_size as nat)))
            .push(("batch_size"@, JsonView::Unsigned(f.batch_size as nat)))
            .push(("concurrency"@, JsonView::Unsigned(1)))
            .push(
                (
                    "prompt"@,
                    JsonView::Object(
                        no_fields()
                            .push(("source"@, JsonView::Text(f.prompt_source@)))
                            .push(("sha256"@, JsonView::Text(f.prompt_sha256@))),
                    ),
                ),
            ),
    )
}

/// The submission of a benchmark that was begun at the given time.
pub open spec fn submission(
    a: BenchRunArgs,
    f: RunFacts,
    started_at: Seq<char>,
    runs: Seq<MeasuredRun>,
) -> JsonView {
    JsonView::Object(
        no_fields()
            .push(("schema_version"@, JsonView::Text(BENCHMARK_SCHEMA_VERSION@)))
            .push(("benchmark_id"@, JsonView::Text(f.benchmark_id@)))
            .push(("model"@, model_section(a)))
            .push(
                (
                    "device"@,
                    JsonView::Object(
                        no_fields()
                            .push(("name"@, JsonView::Text(a.device_name@)))
                            .push(("soc"@, JsonView::Text(a.soc@))),
                    ),
                ),
            )
            .push(("backend"@, backend_section(a, f.loaded_backend@)))
            .push(
                (
                    "runtime"@,
                    JsonView::Object(
                        no_fields()
                            .push(("build_command"@, JsonView::Text(trimmed(a.build_command@))))
                            .push(("run_command"@, JsonView::Text(f.run_command@))),
                    ),
                ),
            )
            .push(
                (
                    "optimization"@,
                    JsonView::Object(
                        no_fields()
                            .push(("mode"@, JsonView::Text(f.optimization_mode@)))
                            .push(("methods"@, text_array(texts(f.optimizations@)))),
                    ),
                ),
            )
            .push(("workload"@, workload_section(f)))
            .push(("protocol"@, protocol_section(a, started_at)))
            .push(("runs"@, runs_section(runs)))
            .push(("provenance"@, provenance_section(a))),
    )
}

fn build_model(a: &BenchRunArgs) -> (json: Json)
    ensures
        json@ == model_section(*a),
{
    let mut fields = Fields::new();
    fields.text("catalog_model_id", a.catalog_model_id.as_str());
    fields.text("format", a.model_format.as_str());
    fields.text("quantization", a.quantization.as_str());
    fields.text("download_url", a.model_url.as_str());
    put_opt(&mut fields, "name", &a.model_name);
    fields.done()
}

fn build_backend(a: &BenchRunArgs, loaded: &str) -> (json: Json)
    ensures
        json@ == backend_section(*a, loaded@),
{
    let mut fields = Fields::new();
    fields.text("catalog_backend_id", loaded);
    fields.text("version", a.backend_version.as_str());
    put_opt(&mut fields, "name", &a.backend_name);
    fields.done()
}

fn build_protocol(a: &BenchRunArgs, started_at: &str) -> (json: Json)
    ensures
        json@ == protocol_section(*a, started_at@),
{
    let mut fields = Fields::new();
    fields.text("run_mode", "steady_state");
    fields.text("cache_policy", "reused_within_submission");
    fields.number("timeout_seconds", a.timeout_seconds as u64);
    fields.text("started_at", started_at);
    put_opt(&mut fields, "notes", &a.notes);
    fields.done()
}

fn build_provenance(a: &BenchRunArgs) -> (json: Json)
    ensures
        json@ == provenance_section(*a),
{
    let mut fields = Fields::new();
    fields.text("submitter_name", a.submitter_name.as_str());
    put_opt(&mut fields, "organization", &a.organization);
    put_opt(&mut fields, "source_url", &a.source_url);
    fields.done()
}

fn build_runs(runs: &Vec<MeasuredRun>) -> (json: Json)
    ensures
        json@ == runs_section(runs@),
{
    let mut with_ttft = true;
    let mut with_wall = true;
    let mut i: usize = 0;
    while i < runs.len()
        invariant
            i <= runs@.len(),
            with_ttft == (forall|j: int| 0 <= j < i ==> (#[trigger] runs@[j]).ttft_ms is Some),
            with_wall == (forall|j: int| 0 <= j < i ==> (#[trigger] runs@[j]).wall_time_covers_phases),
        decreases runs@.len() - i,
    {
        let r = runs[i];
        assert(r == runs@[i as int]);
        if r.ttft_ms.is_none() {
            with_ttft = false;
        }
        if !r.wall_time_covers_phases {
            with_wall = false;
        }
        i += 1;
    }
    let mut fields = Fields::new();
    fields.put("prefill_tps", metric_values(runs, Metric::PrefillTps));
    fields.put("decode_tps", metric_values(runs, Metric::DecodeTps));
    fields.put("prefill_duration_ms", metric_values(runs, Metric::PrefillDuration));
    fields.put("decode_duration_ms", metric_values(runs, Metric::DecodeDuration));
    if with_ttft {
        fields.put("ttft_ms", metric_values(runs, Metric::Ttft));
    }
    if with_wall {
        fields.put("wall_time_ms", metric_values(runs, Metric::WallTime));
    }
    fields.done()
}

fn build_workload(f: &RunFacts) -> (json: Json)
    ensures
        json@ == workload_section(*f),
{
    let mut prompt = Fields::new();
    prompt.text("source", f.prompt_source.as_str());
    prompt.text("sha256", f.prompt_sha256.as_str());
    let mut fields = Fields::new();
    fields.text("task", "text_generation");
    fields.number("pp", f.pp);
    fields.number("tg", f.tg);
    fields.number("context_size", f.context_size as u64);
    fields.number("batch_size", f.batch_size as u64);
    fields.number("concurrency", 1);
    fields.put("prompt", prompt.done());
    fields.done()
}

/// The submission of a benchmark that was begun at the given time, in the notation in
/// which it is reported.
pub fn submission_begun_at(
    a: &BenchRunArgs,
    f: &RunFacts,
    started_at: &str,
    runs: &Vec<MeasuredRun>,
) -> (json: Json)
    ensures
        json@ == submission(*a, *f, started_at@, runs@),
{
    let mut device = Fields::new();
    device.text("name", a.device_name.as_str());
    device.text("soc", a.soc.as_str());
    let mut runtime = Fields::new();
    runtime.text("build_command", trim(a.build_command.as_str()).as_str());
    runtime.text("run_command", f.run_command.as_str());
    let mut optimization = Fields::new();
    optimization.text("mode", f.optimization_mode.as_str());
    optimization.texts("methods", &f.optimizations);
    let mut fields = Fields::new();
    fields.text("schema_version", BENCHMARK_SCHEMA_VERSION);
    fields.text("benchmark_id", f.benchmark_id.as_str());
    fields.put("model", build_model(a));
    fields.put("device", device.done());
    fields.put("backend", build_backend(a, f.loaded_backend.as_str()));
    fields.put("runtime", runtime.done());
    fields.put("optimization", optimization.done());
    fields.put("workload", build_workload(f));
    fields.put("protocol", build_protocol(a, started_at));
    fields.put("runs", build_runs(runs));
    fields.put("provenance", build_provenance(a));
    fields.done()
}

/// The submission of a benchmark that was begun at a point in time.
pub fn build_submission(
    a: &BenchRunArgs,
    f: &RunFacts,
    seconds: i64,
    nanoseconds: u32,
    runs: &Vec<MeasuredRun>,
) -> (r: Result<Json, Failure>)
    ensures
        match rfc3339_notation(seconds as int, nanoseconds as nat) {
            Ok(started_at) => r matches Ok(json) && json@ == submission(
                *a,
                *f,
                started_at,
                runs@,
            ),
            Err(reason) => r matches Err(e) && e@ == reason,
        },
{
    match rfc3339(seconds, nanoseconds) {
        Ok(started_at) => Ok(submission_begun_at(a, f, started_at.as_str(), runs)),
        Err(reason) => Err(Failure { message: reason }),
    }
}

/// A metric that was not measured in some run is not reported at all, and every metric
/// that is reported has one value for each run.
pub proof fn metrics_are_reported_for_every_run(runs: Seq<MeasuredRun>, m: Metric)
    ensures
        metric_array(runs, m)->Array_0.len() == runs.len(),
        !all_have_ttft(runs) ==> forall|i: int|
            0 <= i < runs_section(runs)->Object_0.len() ==> (
            #[trigger] runs_section(runs)->Object_0[i]).0 != "ttft_ms"@,
{
    reveal_strlit("ttft_ms");
    reveal_strlit("prefill_tps");
    reveal_strlit("decode_tps");
    reveal_strlit("prefill_duration_ms");
    reveal_strlit("decode_duration_ms");
    reveal_strlit("wall_time_ms");
    assert("ttft_ms"@.len() == 7);
}

} // verus!
