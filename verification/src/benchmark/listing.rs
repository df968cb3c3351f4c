//! The list of the results that have been kept.
use vstd::prelude::*;

use crate::benchmark::metadata::BenchRunArgs;
use crate::benchmark::submission::{
    backend_section, model_section, protocol_section, runs_section, submission, workload_section,
    MeasuredRun, RunFacts, BENCHMARK_SCHEMA_VERSION,
};
use crate::json::{
    lemma_field_at, member, no_fields, text_member, text_or_null, views, Fields, Json, JsonView,
};
use crate::paths::{
    backfiled, dotted_extension, extension_of, filed, path_extension, plain_name,
};
use crate::text::chars::text_eq;
use crate::text::compose::opt_text;
use crate::text::order::{before, comes_before, lemma_total, lemma_transitive};

verus! {

/// What is listed of a result.
pub struct ResultRow {
    pub benchmark_id: Option<String>,
    pub model_id: Option<String>,
    pub backend_id: Option<String>,
    pub started_at: Option<String>,
    pub path: String,
}

/// What a row says.
#[verifier::ext_equal]
pub struct RowView {
    pub benchmark_id: Option<Seq<char>>,
    pub model_id: Option<Seq<char>>,
    pub backend_id: Option<Seq<char>>,
    pub started_at: Option<Seq<char>>,
    pub path: Seq<char>,
}

impl View for ResultRow {
    type V = RowView;

    open spec fn view(&self) -> RowView {
        RowView {
            benchmark_id: opt_text(self.benchmark_id),
            model_id: opt_text(self.model_id),
            backend_id: opt_text(self.backend_id),
            started_at: opt_text(self.started_at),
            path: self.path@,
        }
    }
}

pub open spec fn row_views(v: Seq<ResultRow>) -> Seq<RowView> {
    Seq::new(v.len(), |i: int| v[i]@)
}

/// The text under a key of the object under another key.
pub open spec fn inner_text(v: JsonView, outer: Seq<char>, inner: Seq<char>) -> Option<Seq<char>> {
    match member(v, outer) {
        Some(object) => text_member(object, inner),
        None => None,
    }
}

/// The row for a result at a path; nothing where it is none of the current schema.
pub open spec fn row_of(payload: JsonView, path: Seq<char>) -> Option<RowView> {
    if text_member(payload, "schema_version"@) == Some(BENCHMARK_SCHEMA_VERSION@) {
        Some(
            RowView {
                benchmark_id: text_member(payload, "benchmark_id"@),
                model_id: inner_text(payload, "model"@, "catalog_model_id"@),
                backend_id: inner_text(payload, "backend"@, "catalog_backend_id"@),
                started_at: inner_text(payload, "protocol"@, "started_at"@),
                path,
            },
        )
    } else {
        None
    }
}

fn get_inner(v: &Json, outer: &str, inner: &str) -> (r: Option<String>)
    ensures
        opt_text(r) == inner_text(v@, outer@, inner@),
{
    match v.get(outer) {
        Some(object) => object.get_text(inner),
        None => None,
    }
}

/// The row for a result at a path; nothing where it is none of the current schema.
pub fn result_row(payload: &Json, path: &str) -> (r: Option<ResultRow>)
    ensures
        match r {
            Some(row) => row_of(payload@, path@) == Some(row@),
            None => row_of(payload@, path@) is None,
        },
{
    match payload.get_text("schema_version") {
        Some(version) => if !text_eq(version.as_str(), BENCHMARK_SCHEMA_VERSION) {
            return None;
        },
        None => {
            return None;
        },
    }
    Some(
        ResultRow {
            benchmark_id: payload.get_text("benchmark_id"),
            model_id: get_inner(payload, "model", "catalog_model_id"),
            backend_id: get_inner(payload, "backend", "catalog_backend_id"),
            started_at: get_inner(payload, "protocol", "started_at"),
            path: path.to_owned(),
        },
    )
}

/// Whether an extension is that of a file that may hold a result.
pub fn is_result_extension(extension: &Option<String>) -> (r: bool)
    ensures
        r == (opt_text(*extension) == Some("json"@)),
{
    match extension {
        Some(e) => text_eq(e.as_str(), "json"),
        None => false,
    }
}

/// Whether a path is that of a file that may hold a result.
pub fn is_result_file(path: &str) -> (r: bool)
    ensures
        exists|e: Option<Seq<char>>|
            #[trigger] extension_of(path@, e) && r == (e == Some("json"@)),
        plain_name(path@) ==> r == (dotted_extension(path@) == Some("json"@)),
        forall|dir: Seq<char>, name: Seq<char>| #[trigger]
            filed(path@, dir, name) ==> r == (dotted_extension(name) == Some("json"@)),
        forall|dir: Seq<char>, name: Seq<char>| #[trigger]
            backfiled(path@, dir, name) ==> r == (dotted_extension(name) == Some("json"@)),
{
    let extension = path_extension(path);
    assert(extension_of(path@, opt_text(extension)));
    is_result_extension(&extension)
}

/// Whether the first of two points in time is the later one; one that is not known is
/// earlier than all others.
pub open spec fn later(a: Option<Seq<char>>, b: Option<Seq<char>>) -> bool {
    match (a, b) {
        (Some(x), Some(y)) => before(y, x),
        (Some(_), None) => true,
        (None, _) => false,
    }
}

/// How many rows at the beginning are no earlier than a point in time.
pub open spec fn row_rank(rows: Seq<RowView>, at: Option<Seq<char>>) -> int
    decreases rows.len(),
{
    if rows.len() == 0 || later(at, rows[0].started_at) {
        0
    } else {
        1 + row_rank(rows.drop_first(), at)
    }
}

/// The rows from the latest to the earliest; those of the same time stay as they are.
pub open spec fn latest_first(rows: Seq<RowView>) -> Seq<RowView>
    decreases rows.len(),
{
    if rows.len() == 0 {
        Seq::empty()
    } else {
        let rest = latest_first(rows.drop_last());
        rest.insert(row_rank(rest, rows.last().started_at), rows.last())
    }
}

fn is_later(a: &Option<String>, b: &Option<String>) -> (r: bool)
    ensures
        r == later(opt_text(*a), opt_text(*b)),
{
    match (a, b) {
        (Some(x), Some(y)) => comes_before(y.as_str(), x.as_str()),
        (Some(_), None) => true,
        (None, _) => false,
    }
}

proof fn lemma_row_rank(rows: Seq<RowView>, at: Option<Seq<char>>)
    ensures
        0 <= row_rank(rows, at) <= rows.len(),
        forall|i: int|
            0 <= i < row_rank(rows, at) ==> !later(at, (#[trigger] rows[i]).started_at),
        row_rank(rows, at) < rows.len() ==> later(at, rows[row_rank(rows, at)].started_at),
    decreases rows.len(),
{
    if rows.len() > 0 && !later(at, rows[0].started_at) {
        let rest = rows.drop_first();
        lemma_row_rank(rest, at);
        assert forall|i: int| 0 <= i < row_rank(rows, at) implies !later(
            at,
            (#[trigger] rows[i]).started_at,
        ) by {
            if i > 0 {
                assert(rows[i] == rest[i - 1]);
            }
        }
        if row_rank(rows, at) < rows.len() {
            assert(rows[row_rank(rows, at)] == rest[row_rank(rest, at)]);
        }
    }
}

proof fn lemma_row_rank_is(rows: Seq<RowView>, at: Option<Seq<char>>, n: int)
    requires
        0 <= n <= rows.len(),
        forall|i: int| 0 <= i < n ==> !later(at, (#[trigger] rows[i]).started_at),
        n < rows.len() ==> later(at, rows[n].started_at),
    ensures
        row_rank(rows, at) == n,
{
    lemma_row_rank(rows, at);
    let r = row_rank(rows, at);
    if r < n {
        assert(!later(at, rows[r].started_at));
    } else if r > n {
        assert(!later(at, rows[n].started_at));
    }
}

/// Adds a row to rows that run from the latest to the earliest.
pub fn add_row(rows: &mut Vec<ResultRow>, row: ResultRow)
    ensures
        row_views(final(rows)@) == row_views(old(rows)@).insert(
            row_rank(row_views(old(rows)@), row@.started_at),
            row@,
        ),
{
    let mut i: usize = 0;
    while i < rows.len() && !is_later(&row.started_at, &rows[i].started_at)
        invariant
            i <= rows@.len(),
            forall|j: int|
                0 <= j < i ==> !later(row@.started_at, (#[trigger] row_views(rows@)[j]).started_at),
        decreases rows@.len() - i,
    {
        i += 1;
    }
    let ghost was = rows@;
    let ghost added = row@;
    proof {
        lemma_row_rank_is(row_views(was), added.started_at, i as int);
    }
    rows.insert(i, row);
    assert(row_views(rows@) =~= row_views(was).insert(i as int, added));
}

/// The rows from the latest to the earliest; those of the same time stay as they are.
pub fn sort_rows(rows: Vec<ResultRow>) -> (r: Vec<ResultRow>)
    ensures
        row_views(r@) == latest_first(row_views(rows@)),
{
    let mut rest = rows;
    let mut backwards: Vec<ResultRow> = Vec::new();
    let ghost all = row_views(rows@);
    while rest.len() > 0
        invariant
            rest@.len() + backwards@.len() == all.len(),
            row_views(rest@) == all.take(rest@.len() as int),
            forall|j: int|
                0 <= j < backwards@.len() ==> #[trigger] backwards@[j]@ == all[all.len() - 1 - j],
        decreases rest@.len(),
    {
        let ghost was = rest@;
        let row = rest.pop().unwrap();
        assert(row@ == row_views(was)[was.len() - 1]);
        assert(row_views(rest@) =~= all.take(rest@.len() as int)) by {
            assert(rest@ =~= was.drop_last());
            assert forall|j: int| 0 <= j < rest@.len() implies #[trigger] row_views(rest@)[j]
                == all.take(rest@.len() as int)[j] by {
                assert(row_views(rest@)[j] == row_views(was)[j]);
            }
        }
        backwards.push(row);
    }
    let mut sorted: Vec<ResultRow> = Vec::new();
    assert(row_views(sorted@) =~= latest_first(all.take(0)));
    while backwards.len() > 0
        invariant
            backwards@.len() <= all.len(),
            row_views(sorted@) == latest_first(all.take(all.len() - backwards@.len())),
            forall|j: int|
                0 <= j < backwards@.len() ==> #[trigger] backwards@[j]@ == all[all.len() - 1 - j],
        decreases backwards@.len(),
    {
        let ghost n = all.len() - backwards@.len();
        let ghost was = backwards@;
        let row = backwards.pop().unwrap();
        assert(row@ == was[was.len() - 1]@);
        assert(row@ == all[n]);
        assert(all.take(n + 1).drop_last() =~= all.take(n));
        assert(all.take(n + 1).last() == all[n]);
        add_row(&mut sorted, row);
        assert(forall|j: int|
            0 <= j < backwards@.len() ==> #[trigger] backwards@[j] == was[j]);
    }
    assert(all.take(all.len() as int) =~= all);
    sorted
}

/// Whether no row is later than one before it.
pub open spec fn descending(rows: Seq<RowView>) -> bool {
    forall|i: int, j: int|
        0 <= i < j < rows.len() ==> !later(
            (#[trigger] rows[j]).started_at,
            (#[trigger] rows[i]).started_at,
        )
}

proof fn lemma_later_chain(a: Option<Seq<char>>, b: Option<Seq<char>>, c: Option<Seq<char>>)
    requires
        !later(b, a),
        !later(c, b),
    ensures
        !later(c, a),
{
    if let (Some(x), Some(y), Some(z)) = (a, b, c) {
        lemma_total(x, y);
        lemma_total(y, z);
        if before(x, z) {
            if before(y, x) {
                lemma_transitive(y, x, z);
            }
        }
    }
}

proof fn lemma_later_one_way(a: Option<Seq<char>>, b: Option<Seq<char>>)
    requires
        later(a, b),
    ensures
        !later(b, a),
{
    if let (Some(x), Some(y)) = (a, b) {
        if before(x, y) {
            lemma_transitive(x, y, x);
            crate::text::order::lemma_irreflexive(x);
        }
    }
}

/// Listed rows run from the latest to the earliest, and they are the rows that were read.
pub proof fn the_latest_result_comes_first(rows: Seq<RowView>)
    ensures
        descending(latest_first(rows)),
        latest_first(rows).to_multiset() == rows.to_multiset(),
    decreases rows.len(),
{
    broadcast use vstd::seq_lib::group_to_multiset_ensures;

    if rows.len() == 0 {
        assert(latest_first(rows) =~= rows);
    } else {
        let rest = latest_first(rows.drop_last());
        let row = rows.last();
        the_latest_result_comes_first(rows.drop_last());
        lemma_row_rank(rest, row.started_at);
        let n = row_rank(rest, row.started_at);
        let r = rest.insert(n, row);
        assert forall|i: int, j: int| 0 <= i < j < r.len() implies !later(
            (#[trigger] r[j]).started_at,
            (#[trigger] r[i]).started_at,
        ) by {
            if i == n {
                assert(r[j] == rest[j - 1]);
                lemma_later_one_way(row.started_at, rest[n].started_at);
                if j - 1 > n {
                    assert(!later(rest[j - 1].started_at, rest[n].started_at));
                    lemma_later_chain(
                        row.started_at,
                        rest[n].started_at,
                        rest[j - 1].started_at,
                    );
                }
            } else if j == n {
                assert(r[i] == rest[i]);
            } else {
                let a = if i < n {
                    i
                } else {
                    i - 1
                };
                let b = if j < n {
                    j
                } else {
                    j - 1
                };
                assert(r[i] == rest[a] && r[j] == rest[b]);
            }
        }
        vstd::seq_lib::to_multiset_insert(rest, n, row);
        assert(rows =~= rows.drop_last().push(row));
        assert(r.to_multiset() =~= rows.to_multiset());
    }
}

/// A row as it is listed for a program.
pub open spec fn row_json(row: RowView) -> JsonView {
    JsonView::Object(
        no_fields()
            .push(("benchmark_id"@, text_or_null(row.benchmark_id)))
            .push(("model_id"@, text_or_null(row.model_id)))
            .push(("backend_id"@, text_or_null(row.backend_id)))
            .push(("started_at"@, text_or_null(row.started_at)))
            .push(("path"@, JsonView::Text(row.path))),
    )
}

/// Rows as they are listed for a program.
pub fn rows_payload(rows: &Vec<ResultRow>) -> (json: Json)
    ensures
        json@ == JsonView::Array(
            Seq::new(rows@.len(), |i: int| row_json(row_views(rows@)[i])),
        ),
{
    let mut items: Vec<Json> = Vec::new();
    let mut i: usize = 0;
    while i < rows.len()
        invariant
            i <= rows@.len(),
            items@.len() == i,
            forall|j: int| 0 <= j < i ==> #[trigger] items@[j]@ == row_json(row_views(rows@)[j]),
        decreases rows@.len() - i,
    {
        let row = &rows[i];
        let mut fields = Fields::new();
        fields.opt_text("benchmark_id", &row.benchmark_id);
        fields.opt_text("model_id", &row.model_id);
        fields.opt_text("backend_id", &row.backend_id);
        fields.opt_text("started_at", &row.started_at);
        fields.text("path", row.path.as_str());
        items.push(fields.done());
        i += 1;
    }
    assert(views(items@) =~= Seq::new(rows@.len(), |i: int| row_json(row_views(rows@)[i])));
    Json::array(items)
}

pub open spec fn or_dash(o: Option<Seq<char>>) -> Seq<char> {
    match o {
        Some(s) => s,
        None => "-"@,
    }
}

/// A row as it is listed for a reader.
pub open spec fn row_words(row: RowView) -> Seq<char> {
    "  "@ + or_dash(row.benchmark_id) + "  model="@ + or_dash(row.model_id) + "  backend="@
        + or_dash(row.backend_id) + "  "@ + row.path
}

fn dashed(o: &Option<String>) -> (r: String)
    ensures
        r@ == or_dash(opt_text(*o)),
{
    match o {
        Some(s) => s.as_str().to_owned(),
        None => "-".to_owned(),
    }
}

/// A row as it is listed for a reader.
pub fn row_line(row: &ResultRow) -> (r: String)
    ensures
        r@ == row_words(row@),
{
    "  ".to_owned().concat(dashed(&row.benchmark_id).as_str()).concat("  model=").concat(
        dashed(&row.model_id).as_str(),
    ).concat("  backend=").concat(dashed(&row.backend_id).as_str()).concat("  ").concat(
        row.path.as_str(),
    )
}

/// The lines in which the results of a directory are listed for a reader.
pub fn listing(rows: &Vec<ResultRow>, directory: &str) -> (r: Vec<String>)
    ensures
        rows@.len() == 0 ==> crate::text::compose::texts(r@) == Seq::<Seq<char>>::empty().push(
            "No archived benchmark results in "@ + directory@,
        ),
        rows@.len() > 0 ==> r@.len() == rows@.len() + 1 && r@[0]@
            == "Archived benchmark results:"@ && forall|i: int|
            0 <= i < rows@.len() ==> (#[trigger] r@[i + 1])@ == row_words(row_views(rows@)[i]),
{
    let mut lines = crate::text::compose::no_texts();
    if rows.len() == 0 {
        crate::text::compose::put(
            &mut lines,
            "No archived benchmark results in ".to_owned().concat(directory).as_str(),
        );
        return lines;
    }
    lines.push("Archived benchmark results:".to_owned());
    let mut i: usize = 0;
    while i < rows.len()
        invariant
            i <= rows@.len(),
            lines@.len() == i + 1,
            lines@[0]@ == "Archived benchmark results:"@,
            forall|j: int| 0 <= j < i ==> (#[trigger] lines@[j + 1])@ == row_words(
                row_views(rows@)[j],
            ),
        decreases rows@.len() - i,
    {
        let ghost was = lines@;
        lines.push(row_line(&rows[i]));
        assert forall|j: int| 0 <= j < i + 1 implies (#[trigger] lines@[j + 1])@ == row_words(
            row_views(rows@)[j],
        ) by {
            if j < i {
                assert(lines@[j + 1] == was[j + 1]);
            }
        }
        i += 1;
    }
    lines
}

/// A submission that was kept at a path is listed there: with its identifier, its model,
/// the backend that it was measured with, and when it was begun.
pub proof fn kept_submissions_are_listed(
    a: BenchRunArgs,
    f: RunFacts,
    started_at: Seq<char>,
    runs: Seq<MeasuredRun>,
    path: Seq<char>,
)
    ensures
        row_of(submission(a, f, started_at, runs), path) == Some(
            RowView {
                benchmark_id: Some(f.benchmark_id@),
                model_id: Some(a.catalog_model_id@),
                backend_id: Some(f.loaded_backend@),
                started_at: Some(started_at),
                path,
            },
        ),
        member(submission(a, f, started_at, runs), "runs"@) == Some(runs_section(runs)),
        member(submission(a, f, started_at, runs), "workload"@) == Some(workload_section(f)),
{
    let whole = submission(a, f, started_at, runs)->Object_0;
    reveal_strlit("schema_version");
    reveal_strlit("benchmark_id");
    reveal_strlit("model");
    reveal_strlit("device");
    reveal_strlit("backend");
    reveal_strlit("runtime");
    reveal_strlit("optimization");
    reveal_strlit("workload");
    reveal_strlit("protocol");
    reveal_strlit("runs");
    reveal_strlit("provenance");
    assert("schema_version"@.len() == 14 && "benchmark_id"@.len() == 12 && "model"@.len() == 5
        && "device"@.len() == 6 && "backend"@.len() == 7 && "runtime"@.len() == 7
        && "optimization"@.len() == 12 && "workload"@.len() == 8 && "protocol"@.len() == 8
        && "runs"@.len() == 4 && "provenance"@.len() == 10);
    assert("benchmark_id"@[0] == 'b' && "optimization"@[0] == 'o');
    assert("backend"@[0] == 'b' && "runtime"@[0] == 'r');
    assert("workload"@[0] == 'w' && "protocol"@[0] == 'p');
    assert(whole.len() == 11);
    lemma_field_at(whole, 0);
    lemma_field_at(whole, 1);
    lemma_field_at(whole, 2);
    lemma_field_at(whole, 4);
    lemma_field_at(whole, 7);
    lemma_field_at(whole, 8);
    lemma_field_at(whole, 9);
    let model = model_section(a)->Object_0;
    reveal_strlit("catalog_model_id");
    reveal_strlit("format");
    reveal_strlit("quantization");
    reveal_strlit("download_url");
    reveal_strlit("name");
    assert("catalog_model_id"@.len() == 16 && "format"@.len() == 6 && "quantization"@.len() == 12
        && "download_url"@.len() == 12 && "name"@.len() == 4);
    lemma_field_at(model, 0);
    let backend = backend_section(a, f.loaded_backend@)->Object_0;
    reveal_strlit("catalog_backend_id");
    reveal_strlit("version");
    assert("catalog_backend_id"@.len() == 18 && "version"@.len() == 7);
    lemma_field_at(backend, 0);
    let protocol = protocol_section(a, started_at)->Object_0;
    reveal_strlit("started_at");
    reveal_strlit("notes");
    assert("started_at"@.len() == 10 && "notes"@.len() == 5);
    lemma_field_at(protocol, 3);
}

} // verus!
