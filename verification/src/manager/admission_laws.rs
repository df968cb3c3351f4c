//! What is let in, held and given back, and how the files of a load are understood.
use vstd::prelude::*;

use crate::json::{lemma_field_at, member, JsonView};
use crate::manager::admission::{
    admitted, slack_of, slack_waived, speculated, speculative_payload, SpeculativeAdmission,
};
use crate::manager::load::{
    answered, log_file_name, model_step, path_refusal, record_refusal, sanitized, ModelStep,
    OutcomeView,
};
use crate::manager::loaded::lemma_key_place_is;
use crate::manager::loading::{load_stepped, LoadEvent, ModelLoad};
use crate::manager::reports::{load_payload, reload_payload, ConfigView};
use crate::manager::state::ManagerView;
use crate::resources::budget::{
    budget_payload, bytes_named, component_payload, spread, BudgetView, ComponentView,
};
use crate::resources::domains::{amount, amounts_payload, domain_key, found, DomainView};
use crate::resources::ledger::{
    entry_refusal, held, ledger_payload, snapshot_of, with_commit, with_release, with_reservation,
    with_rollback, without_holding, HoldingView, LedgerView, SnapshotView,
};
use crate::text::chars::alphanumeric;
use crate::text::compose::{opt_text, texts};
use crate::text::number::decimal;
use crate::text::search::starts_with;

verus! {

/// Beyond its estimate a runtime is let in only where it is an official llama.cpp one for
/// CUDA, whose client has stated no total, on one device that nothing else uses; and where
/// the slack and the limit both cover what the device falls short of.
pub proof fn speculation_has_its_conditions(
    id: Seq<char>,
    family: Seq<char>,
    capabilities: Seq<Seq<char>>,
    payload: JsonView,
    budget: BudgetView,
    replicate: bool,
    snapshot: Option<SnapshotView>,
    limit: nat,
)
    requires
        speculated(id, family, capabilities, payload, budget, replicate, snapshot, limit) is Some,
    ensures
        ({
            let r = speculated(
                id,
                family,
                capabilities,
                payload,
                budget,
                replicate,
                snapshot,
                limit,
            )->0;
            let device = budget.domains[0].0;
            let needed = budget.domains[0].1;
            &&& family == "llama.cpp"@ && starts_with(id, "llama.cpp-"@)
            &&& capabilities.contains("cuda"@)
            &&& crate::resources::estimate::stated_total(payload) is None
            &&& !replicate
            &&& budget.domains.len() == 1 && device is Cuda
            &&& snapshot matches Some(s) && found(s.capacities, device) matches Some(capacity)
                && capacity < needed && r.shortfall == needed - capacity && r.available == capacity
                && amount(s.reserved, device) == 0 && amount(s.committed, device) == 0
            &&& r.waived_slack == r.shortfall
            &&& r.shortfall <= limit
            &&& r.shortfall <= slack_of(budget.components)
            &&& r.budget.components.len() == budget.components.len()
        }),
{
    lemma_waived(budget.components, speculated(
        id,
        family,
        capabilities,
        payload,
        budget,
        replicate,
        snapshot,
        limit,
    )->0.waived_slack, 0);
}

/// A runtime is let in beyond its estimate wherever these conditions hold.
pub proof fn speculation_is_granted(
    id: Seq<char>,
    family: Seq<char>,
    capabilities: Seq<Seq<char>>,
    payload: JsonView,
    budget: BudgetView,
    s: SnapshotView,
    limit: nat,
    capacity: nat,
)
    requires
        family == "llama.cpp"@,
        starts_with(id, "llama.cpp-"@),
        capabilities.contains("cuda"@),
        crate::resources::estimate::stated_total(payload) is None,
        budget.domains.len() == 1,
        budget.domains[0].0 is Cuda,
        found(s.capacities, budget.domains[0].0) == Some(capacity),
        amount(s.reserved, budget.domains[0].0) == 0,
        amount(s.committed, budget.domains[0].0) == 0,
        capacity < budget.domains[0].1,
        budget.domains[0].1 - capacity <= slack_of(budget.components),
        budget.domains[0].1 - capacity <= limit,
        !crate::resources::budget::totals_overflow(
            slack_waived(budget.components, (budget.domains[0].1 - capacity) as nat),
        ),
    ensures
        speculated(id, family, capabilities, payload, budget, false, Some(s), limit) is Some,
{
}

/// A runtime that was started cannot be recorded where the numbers are used up or its
/// reservation is unknown, and is recorded otherwise.
pub proof fn started_runtimes_are_recorded_where_numbers_are_left(m: ManagerView, id: u64)
    requires
        m.ledger is Some,
    ensures
        record_refusal(m, id) is None <==> (m.next_generation < u64::MAX && m.ledger->0.next_id
            < u64::MAX && exists|i: int|
            0 <= i < m.ledger->0.reservations.len() && (#[trigger] m.ledger->0.reservations[i]).id
                == id),
{
}

/// What is waived is slack alone: every other part of a budget stays as it is.
pub proof fn only_slack_is_waived(cs: Seq<ComponentView>, waived: nat, i: int)
    requires
        0 <= i < cs.len(),
    ensures
        slack_waived(cs, waived).len() == cs.len(),
        slack_waived(cs, waived)[i].name == cs[i].name,
        slack_waived(cs, waived)[i].domain == cs[i].domain,
        cs[i].name != "allocator_slack"@ ==> slack_waived(cs, waived)[i] == cs[i],
        slack_waived(cs, waived)[i].bytes <= cs[i].bytes,
        slack_of(cs) == bytes_named(cs, "allocator_slack"@),
    decreases cs.len(),
{
    lemma_waived(cs, waived, i);
    lemma_slack(cs);
}

proof fn lemma_waived(cs: Seq<ComponentView>, waived: nat, i: int)
    ensures
        slack_waived(cs, waived).len() == cs.len(),
        0 <= i < cs.len() ==> {
            &&& slack_waived(cs, waived)[i].name == cs[i].name
            &&& slack_waived(cs, waived)[i].domain == cs[i].domain
            &&& cs[i].name != "allocator_slack"@ ==> slack_waived(cs, waived)[i] == cs[i]
            &&& slack_waived(cs, waived)[i].bytes <= cs[i].bytes
        },
    decreases cs.len(),
{
    if cs.len() > 0 {
        let rest = cs.drop_last();
        let last = cs.last();
        let cut = if last.name == "allocator_slack"@ {
            if last.bytes < waived {
                last.bytes
            } else {
                waived
            }
        } else {
            0
        };
        lemma_waived(rest, (waived - cut) as nat, i);
        if 0 <= i < rest.len() {
            assert(rest[i] == cs[i]);
        }
    }
}

proof fn lemma_slack(cs: Seq<ComponentView>)
    ensures
        slack_of(cs) == bytes_named(cs, "allocator_slack"@),
    decreases cs.len(),
{
    if cs.len() > 0 {
        lemma_slack(cs.drop_last());
    }
}

/// A runtime that was let in beyond its estimate is reported with what it was charged, and
/// one that was not with nothing.
pub proof fn speculation_is_reported(a: SpeculativeAdmission)
    ensures
        speculative_payload(None) == JsonView::Null,
        member(speculative_payload(Some(a)), "speculative"@) == Some(JsonView::Bool(true)),
        member(speculative_payload(Some(a)), "device"@) == Some(JsonView::Text(a.device@)),
        member(speculative_payload(Some(a)), "estimated_cuda_bytes"@) == Some(
            JsonView::Unsigned(a.estimated as nat),
        ),
        member(speculative_payload(Some(a)), "exclusive_reservation_bytes"@) == Some(
            JsonView::Unsigned(a.exclusive as nat),
        ),
        member(speculative_payload(Some(a)), "shortfall_bytes"@) == Some(
            JsonView::Unsigned(a.shortfall as nat),
        ),
        member(speculative_payload(Some(a)), "waived_allocator_slack_bytes"@) == Some(
            JsonView::Unsigned(a.waived_allocator_slack as nat),
        ),
{
    let fields = speculative_payload(Some(a))->Object_0;
    reveal_strlit("speculative");
    reveal_strlit("device");
    reveal_strlit("estimated_cuda_bytes");
    reveal_strlit("exclusive_reservation_bytes");
    reveal_strlit("shortfall_bytes");
    reveal_strlit("waived_allocator_slack_bytes");
    assert("speculative"@.len() == 11);
    assert("device"@.len() == 6);
    assert("estimated_cuda_bytes"@.len() == 20);
    assert("exclusive_reservation_bytes"@.len() == 27);
    assert("shortfall_bytes"@.len() == 15);
    assert("waived_allocator_slack_bytes"@.len() == 28);
    lemma_field_at(fields, 0);
    lemma_field_at(fields, 1);
    lemma_field_at(fields, 2);
    lemma_field_at(fields, 3);
    lemma_field_at(fields, 4);
    lemma_field_at(fields, 5);
}

/// Memories have their names.
pub proof fn memories_have_their_names(device: Seq<char>)
    ensures
        domain_key(DomainView::Host) == "host"@,
        domain_key(DomainView::Cuda(device)) == "cuda:"@ + device,
        domain_key(DomainView::Unified(device)) == "unified:"@ + device,
{
}

/// Amounts are reported under the names of their memories.
pub proof fn amounts_are_reported_by_memory(s: Seq<(DomainView, nat)>, i: int)
    requires
        0 <= i < s.len(),
        forall|j: int| i < j < s.len() ==> domain_key((#[trigger] s[j]).0) != domain_key(s[i].0),
    ensures
        member(amounts_payload(s), domain_key(s[i].0)) == Some(JsonView::Unsigned(s[i].1)),
{
    let fields = amounts_payload(s)->Object_0;
    assert forall|j: int| i < j < fields.len() implies (#[trigger] fields[j]).0
        != fields[i].0 by {
        assert(domain_key(s[j].0) != domain_key(s[i].0));
    }
    lemma_field_at(fields, i);
}

/// A budget is reported with its totals and with every part, by name, memory and bytes.
pub proof fn budgets_are_reported_part_by_part(b: BudgetView, i: int)
    requires
        0 <= i < b.components.len(),
    ensures
        member(budget_payload(b), "domains_bytes"@) == Some(amounts_payload(b.domains)),
        member(budget_payload(b), "components"@) matches Some(JsonView::Array(items))
            && items.len() == b.components.len() && member(items[i], "name"@) == Some(
            JsonView::Text(b.components[i].name),
        ) && member(items[i], "domain"@) == Some(
            JsonView::Text(domain_key(b.components[i].domain)),
        ) && member(items[i], "bytes"@) == Some(JsonView::Unsigned(b.components[i].bytes)),
{
    let fields = budget_payload(b)->Object_0;
    reveal_strlit("domains_bytes");
    reveal_strlit("components");
    assert("domains_bytes"@.len() == 13);
    assert("components"@.len() == 10);
    lemma_field_at(fields, 0);
    lemma_field_at(fields, 1);
    let part = component_payload(b.components[i])->Object_0;
    reveal_strlit("name");
    reveal_strlit("domain");
    reveal_strlit("bytes");
    assert("name"@.len() == 4);
    assert("domain"@.len() == 6);
    assert("bytes"@.len() == 5);
    lemma_field_at(part, 0);
    lemma_field_at(part, 1);
    lemma_field_at(part, 2);
}

/// A ledger is reported with its capacities, with what is reserved and with what is
/// committed, each under its name.
pub proof fn ledgers_are_reported_as_they_are(l: LedgerView)
    ensures
        member(ledger_payload(snapshot_of(l)), "capacity_snapshot_id"@) == Some(
            JsonView::Unsigned(l.snapshot_id as nat),
        ),
        member(ledger_payload(snapshot_of(l)), "capacity_bytes"@) == Some(
            amounts_payload(l.capacities),
        ),
        member(ledger_payload(snapshot_of(l)), "reserved_bytes"@) == Some(
            amounts_payload(crate::resources::ledger::held_totals(l.reservations)),
        ),
        member(ledger_payload(snapshot_of(l)), "committed_bytes"@) == Some(
            amounts_payload(crate::resources::ledger::held_totals(l.allocations)),
        ),
{
    let fields = ledger_payload(snapshot_of(l))->Object_0;
    reveal_strlit("capacity_snapshot_id");
    reveal_strlit("capacity_bytes");
    reveal_strlit("reserved_bytes");
    reveal_strlit("committed_bytes");
    reveal_strlit("available_bytes");
    assert("capacity_snapshot_id"@.len() == 20);
    assert("capacity_bytes"@.len() == 14);
    assert("reserved_bytes"@.len() == 14);
    assert("committed_bytes"@.len() == 15);
    assert("available_bytes"@.len() == 15);
    assert("capacity_bytes"@[0] == 'c');
    assert("reserved_bytes"@[0] == 'r');
    assert("committed_bytes"@[0] == 'c');
    assert("available_bytes"@[0] == 'a');
    lemma_field_at(fields, 0);
    lemma_field_at(fields, 1);
    lemma_field_at(fields, 2);
    lemma_field_at(fields, 3);
}

/// A reservation holds what was asked for under a number of its own; committing it makes it an
/// allocation of the same amounts under a new number; and either is gone once it is given back.
pub proof fn holdings_are_what_was_asked_for(
    l: LedgerView,
    entries: Seq<(DomainView, nat)>,
    d: DomainView,
)
    requires
        l.next_id < u64::MAX - 1,
        forall|i: int| 0 <= i < l.reservations.len() ==> (#[trigger] l.reservations[i]).id < l.next_id,
        forall|i: int| 0 <= i < l.allocations.len() ==> (#[trigger] l.allocations[i]).id < l.next_id,
    ensures
        ({
            let reserved = with_reservation(l, entries);
            let committed = with_commit(reserved, l.next_id);
            &&& reserved.reservations.last() == (HoldingView { id: l.next_id, domains: entries })
            &&& reserved.used(d) == l.used(d) + amount(entries, d)
            &&& reserved.allocations == l.allocations
            &&& reserved.capacities == l.capacities
            &&& reserved.next_id == l.next_id + 1
            &&& committed.allocations.last() == (HoldingView {
                id: (l.next_id + 1) as u64,
                domains: entries,
            })
            &&& committed.reservations == l.reservations
            &&& committed.used(d) == l.used(d) + amount(entries, d)
            &&& with_rollback(reserved, l.next_id).reservations == l.reservations
            &&& with_release(committed, (l.next_id + 1) as u64).allocations == l.allocations
        }),
{
    let reserved = with_reservation(l, entries);
    assert(reserved.reservations.drop_last() =~= l.reservations);
    lemma_without(l.reservations, l.next_id);
    assert(without_holding(reserved.reservations, l.next_id) == l.reservations);
    let committed = with_commit(reserved, l.next_id);
    assert(committed.allocations.drop_last() =~= l.allocations);
    lemma_without(l.allocations, (l.next_id + 1) as u64);
}

proof fn lemma_without(hs: Seq<HoldingView>, id: u64)
    requires
        forall|i: int| 0 <= i < hs.len() ==> (#[trigger] hs[i]).id < id,
    ensures
        without_holding(hs, id) == hs,
    decreases hs.len(),
{
    if hs.len() > 0 {
        let rest = hs.drop_last();
        assert forall|i: int| 0 <= i < rest.len() implies (#[trigger] rest[i]).id < id by {
            assert(rest[i] == hs[i]);
        }
        assert(hs[hs.len() - 1].id < id);
        lemma_without(rest, id);
        assert(rest.push(hs.last()) =~= hs);
    } else {
        assert(without_holding(hs, id) =~= hs);
    }
}

/// A memory that is not there is refused, and so is one that has too little left.
pub proof fn memories_are_refused_where_they_do_not_suffice(
    l: LedgerView,
    request: Seq<char>,
    d: DomainView,
    n: nat,
)
    ensures
        found(l.capacities, d) is None ==> entry_refusal(l, request, (d, n)) == Some(
            "resource domain is not available: "@ + domain_key(d),
        ),
        found(l.capacities, d) matches Some(c) ==> l.used(d) + n > c ==> entry_refusal(
            l,
            request,
            (d, n),
        ) == Some(
            "insufficient "@ + domain_key(d) + " memory for "@ + request + ": "@ + decimal(n)
                + " bytes required"@,
        ),
        found(l.capacities, d) matches Some(c) ==> l.used(d) + n <= c ==> entry_refusal(
            l,
            request,
            (d, n),
        ) is None,
{
}

/// A part is spread over memories evenly: each gets its share of the whole, the first ones one
/// byte more where it does not come out even.
pub proof fn parts_are_spread_evenly(name: Seq<char>, bytes: nat, domains: Seq<DomainView>, i: int)
    requires
        0 <= i < domains.len(),
    ensures
        ({
            let c = spread(name, bytes, domains)[i];
            let n = domains.len();
            &&& c.name == name
            &&& c.domain == domains[i]
            &&& i < bytes % n ==> c.bytes == bytes / n + 1
            &&& i >= bytes % n ==> c.bytes == bytes / n
        }),
{
}

/// A path is refused where nothing is there, and for a model that has to be a directory where
/// no directory is there.
pub proof fn missing_files_are_refused(
    path: Seq<char>,
    label: Seq<char>,
    artifact: Seq<char>,
    present: bool,
    is_dir: bool,
)
    ensures
        label == "model"@ && artifact == "directory"@ ==> (path_refusal(
            path,
            label,
            artifact,
            present,
            is_dir,
        ) is None <==> is_dir),
        !(label == "model"@ && artifact == "directory"@) ==> (path_refusal(
            path,
            label,
            artifact,
            present,
            is_dir,
        ) is None <==> present),
{
}

/// A model of vla.cpp has to be a checkpoint file; a directory is searched where a file is
/// wanted; and any other path is taken as it is.
pub proof fn models_are_taken_by_their_kind(
    path: Seq<char>,
    artifact: Seq<char>,
    is_dir: bool,
    checkpoint: bool,
)
    ensures
        artifact == "vla-artifact"@ ==> (model_step(path, artifact, is_dir, checkpoint) is Ok <==> (
        !is_dir && checkpoint)),
        artifact != "vla-artifact"@ ==> model_step(path, artifact, is_dir, checkpoint) is Ok,
        model_step(path, artifact, is_dir, checkpoint) == Ok::<ModelStep, Seq<char>>(
            ModelStep::SearchDirectory,
        ) <==> artifact == "file"@ && is_dir,
{
    reveal_strlit("vla-artifact");
    reveal_strlit("file");
    assert("vla-artifact"@.len() == 12 && "file"@.len() == 4);
}

/// The log of a model is named after the log of its backend with the key before the extension;
/// in the key every character that is neither plain nor a dot, an underscore or a hyphen is
/// replaced.
pub proof fn logs_are_named_after_their_model(
    stem: Seq<char>,
    ext: Seq<char>,
    key: Seq<char>,
    i: int,
)
    requires
        !ext.contains('.'),
        stem.len() > 0,
        ext.len() > 0,
    ensures
        log_file_name(stem + seq!['.'] + ext, key) == stem + "-"@ + sanitized(key) + "."@ + ext,
        !stem.contains('.') ==> log_file_name(stem, key) == stem + "-"@ + sanitized(key) + ".log"@,
        0 <= i < key.len() && (alphanumeric(key[i]) || key[i] == '.' || key[i] == '_' || key[i]
            == '-') ==> sanitized(key)[i] == key[i],
        0 <= i < key.len() && !(alphanumeric(key[i]) || key[i] == '.' || key[i] == '_' || key[i]
            == '-') ==> sanitized(key)[i] == '_',
{
    crate::text::laws::texts_are_cut_at_their_separator(stem, '.', ext);
}

/// A request for what is loaded with the same settings is answered as already loaded, and that
/// runtime becomes the default; with other settings a reload is asked for, and nothing
/// changes; and what is not loaded is not answered.
pub proof fn loaded_models_are_answered_for(m: ManagerView, c: ConfigView, i: int)
    requires
        m.wf(),
        0 <= i < m.loaded.len(),
        m.loaded[i].model_key == c.model_key,
    ensures
        ({
            let r = m.loaded[i];
            let same = r.backend_id == c.backend_id && r.model == c.model_path && r.mmproj
                == c.mmproj && r.ctx_size == c.ctx_size && r.launch_args == c.launch_args;
            &&& same ==> answered(m, c).1 == Some(OutcomeView::Success(load_payload(r, true)))
                && answered(m, c).0.default_model_key == Some(c.model_key) && answered(m, c).0.loaded
                == m.loaded
            &&& !same ==> answered(m, c).1 == Some(OutcomeView::ReloadRequired(reload_payload(r, c)))
                && answered(m, c).0 == m
        }),
{
    lemma_key_place_is(m.loaded, c.model_key, i);
}

/// A load whose model was measured has a budget with all of its weights and, where it has a
/// projector, all of that, unless the client states a total of its own.
pub proof fn loads_are_budgeted_for_what_was_measured(
    m: ManagerView,
    s: ModelLoad,
    size: u64,
    projector: u64,
    m2: ManagerView,
    s2: ModelLoad,
)
    requires
        s is Measure,
        load_stepped(
            m,
            s,
            LoadEvent::Sizes { weights: Ok(Some(size)), projector: Ok(Some(projector)) },
            m2,
            s2,
        ),
        s2 is LookAtMachine,
        crate::resources::laws::states_no_total(s->Measure_0.planned.case.ask.payload@),
    ensures
        s2->LookAtMachine_0.placed == s->Measure_0,
        !(s->Measure_0.selection is None && s->Measure_0.devices is Some) ==> {
            let cs = s2->LookAtMachine_0.budget@.components;
            &&& bytes_named(cs, "weights"@) == crate::resources::laws::larger(size as int, 1)
            &&& s->Measure_0.planned.config.mmproj is Some ==> bytes_named(cs, "mmproj"@)
                == projector
            &&& s->Measure_0.planned.config.mmproj is None ==> bytes_named(cs, "mmproj"@) == 0
        },
{
    let p = s->Measure_0;
    let case = p.planned.case;
    let ctx = match p.planned.plan.ctx_size {
        Some(n) => n as nat,
        None => case.ask.default_ctx as nat,
    };
    crate::resources::laws::budgets_hold_what_is_loaded(
        case.ask.payload@,
        texts(case.backend.capabilities@),
        size,
        if p.planned.config.mmproj is Some {
            Some(projector)
        } else {
            None
        },
        ctx,
        case.ask.default_ctx as nat,
        opt_text(p.devices),
        p.selection is None && p.devices is Some,
        case.ask.unified,
    );
}

/// A request is let in or refused on a look at the machine of its own, which has the next
/// number. Where nothing can be written down of what was seen, the request is refused and
/// nothing changes.
pub proof fn requests_are_held_against_a_new_look(
    m: ManagerView,
    request: Seq<char>,
    entries: Seq<(DomainView, nat)>,
    observed: Seq<(DomainView, nat)>,
    i: int,
)
    ensures
        ({
            let (after, outcome) = admitted(m, request, entries, observed);
            let held = if m.ledger is Some {
                m.ledger->0.used(observed[i].0)
            } else {
                0
            };
            &&& outcome is Ok ==> after.ledger is Some && after.ledger->0.snapshot_id
                == m.next_capacity_snapshot && after.next_capacity_snapshot
                == m.next_capacity_snapshot + 1 && after.loaded == m.loaded
            &&& 0 <= i < observed.len() && observed[i].1 + held > u64::MAX ==> outcome is Err
                && after == m
            &&& m.next_capacity_snapshot == u64::MAX ==> outcome is Err && after == m
        }),
{
    if m.ledger is None {
        let l = crate::manager::admission::ledger_or_empty(m);
        assert(l.used(observed[i].0) == 0);
    }
    if 0 <= i < observed.len() {
        let l = crate::manager::admission::ledger_or_empty(m);
        assert(observed[i].1 + l.used(observed[i].0) > u64::MAX ==>
            crate::manager::admission::refresh_overflows(l, observed));
    }
}

} // verus!
