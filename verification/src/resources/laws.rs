//! What a budget holds, told from what is loaded and where.
use vstd::prelude::*;

use crate::json::{number_member, JsonView};
use crate::resources::budget::{assigned, bytes_named, copies, lemma_assigned_bytes, totals_add_up};
use crate::resources::domains::{
    amount, found, lemma_place, listed, setting_an_amount, single, sum, DomainView,
};
use crate::resources::estimate::{
    artifact_size, assigned_parts, available, budget_with, budgeted, cuda_devices, domains_for,
    estimated_parts, lemma_assigned_parts, lemma_estimated_bytes, lemma_times, overlaid,
    reported_bytes, reported_mib, row_mib, stated_parts, Artifact,
};
use crate::resources::ledger::{
    left_over, refusal, snapshot_of, snapshots_report_what_is_held, LedgerView,
};
use crate::text::number::{decimal, parsing_undoes_showing};
use crate::text::order::ordering_keeps_the_texts;
use crate::text::pieces::pieces;
use crate::text::trim::{blank, trimmed};

verus! {

/// Whether a client states no total of its own.
pub open spec fn states_no_total(payload: JsonView) -> bool {
    match number_member(payload, "resource_budget_bytes"@) {
        Some(n) => n == 0,
        None => true,
    }
}

/// The larger of two amounts.
pub open spec fn larger(a: int, b: int) -> int {
    if a < b {
        b
    } else {
        a
    }
}

/// A budget has all the weights of a model and all of its projector, so that it is never
/// below the size of what is loaded. Its overheads are eight and four percent of both, and
/// at least 384 and 160 MiB.
pub proof fn budgets_hold_what_is_loaded(
    payload: JsonView,
    capabilities: Seq<Seq<char>>,
    size: u64,
    projector: Option<u64>,
    ctx: nat,
    default_ctx: nat,
    visible: Option<Seq<char>>,
    replicate: bool,
    unified: bool,
)
    requires
        states_no_total(payload),
        budget_with(
            payload,
            capabilities,
            size,
            projector,
            ctx,
            default_ctx,
            visible,
            replicate,
            unified,
        ) is Ok,
    ensures
        ({
            let budget = budget_with(
                payload,
                capabilities,
                size,
                projector,
                ctx,
                default_ctx,
                visible,
                replicate,
                unified,
            )->Ok_0;
            let cs = budget.components;
            let w = larger(size as int, 1);
            let p = match projector {
                Some(n) => n as int,
                None => 0,
            };
            &&& !replicate ==> bytes_named(cs, "weights"@) == w
            &&& !replicate ==> bytes_named(cs, "mmproj"@) == p
            &&& !replicate ==> bytes_named(cs, "framework_overhead"@) == larger(
                (w + p) * 8 / 100,
                402653184,
            )
            &&& !replicate ==> bytes_named(cs, "allocator_slack"@) == larger(
                (w + p) * 4 / 100,
                167772160,
            )
            &&& bytes_named(cs, "weights"@) >= w
            &&& bytes_named(cs, "mmproj"@) >= p
            &&& bytes_named(cs, "kv_cache"@) >= 268435456
            &&& bytes_named(cs, "activation"@) >= 134217728
            &&& !replicate ==> sum(budget.domains) == w + p + bytes_named(cs, "kv_cache"@)
                + bytes_named(cs, "activation"@) + bytes_named(cs, "framework_overhead"@)
                + bytes_named(cs, "allocator_slack"@)
            &&& sum(budget.domains) >= size + p
        }),
{
    let domains = domains_for(capabilities, visible, unified)->Ok_0;
    let w = larger(size as int, 1) as nat;
    let p: nat = match projector {
        Some(n) => n as nat,
        None => 0,
    };
    let c = larger(ctx as int, 1) as nat;
    let n = copies(domains, replicate);
    let parts = estimated_parts(w, p, c, default_ctx)->0;
    let cs = assigned_parts(parts, domains, replicate);
    lemma_estimated_bytes(w, p, c, default_ctx);
    lemma_assigned_parts(parts, domains, replicate, "weights"@);
    lemma_assigned_parts(parts, domains, replicate, "kv_cache"@);
    lemma_assigned_parts(parts, domains, replicate, "activation"@);
    lemma_assigned_parts(parts, domains, replicate, "framework_overhead"@);
    lemma_assigned_parts(parts, domains, replicate, "allocator_slack"@);
    lemma_assigned_parts(parts, domains, replicate, "mmproj"@);
    totals_add_up(cs, DomainView::Host);
    lemma_times(n, 0, parts[0].1);
    lemma_times(n, 0, parts[1].1);
    lemma_times(n, 0, parts[2].1);
    lemma_times(n, 0, p);
    let all = parts[0].1 + parts[1].1 + parts[2].1 + parts[3].1 + parts[4].1 + p;
    lemma_times(n, 0, all);
    if !replicate {
        assert(forall|x: nat| #[trigger] (1 * x) == x);
    }
}

/// The caches of a budget follow the context: they are three percent of what stands for the
/// parameters of the model at the default context, and grow with the context in proportion;
/// what is needed to compute is a third of that, and stops growing at four times the default.
pub proof fn caches_follow_the_context(
    payload: JsonView,
    capabilities: Seq<Seq<char>>,
    size: u64,
    projector: Option<u64>,
    ctx: nat,
    default_ctx: nat,
    visible: Option<Seq<char>>,
    unified: bool,
)
    requires
        states_no_total(payload),
        default_ctx > 0,
        ctx > 0,
        budget_with(
            payload,
            capabilities,
            size,
            projector,
            ctx,
            default_ctx,
            visible,
            false,
            unified,
        ) is Ok,
    ensures
        ({
            let cs = budget_with(
                payload,
                capabilities,
                size,
                projector,
                ctx,
                default_ctx,
                visible,
                false,
                unified,
            )->Ok_0.components;
            let params = larger(2 * larger(size as int, 1), 1073741824);
            &&& params <= u64::MAX && params * 3 / 100 * ctx <= u64::MAX ==> bytes_named(
                cs,
                "kv_cache"@,
            ) == larger(params * 3 / 100 * ctx / default_ctx as int, 268435456)
            &&& params <= u64::MAX && ctx <= 4 * default_ctx && params / 100 * ctx <= u64::MAX
                ==> bytes_named(cs, "activation"@) == larger(
                params / 100 * ctx / default_ctx as int,
                134217728,
            )
            &&& params <= u64::MAX && ctx > 4 * default_ctx && params / 100 * (4 * default_ctx)
                <= u64::MAX ==> bytes_named(cs, "activation"@) == larger(
                params / 100 * (4 * default_ctx) / default_ctx as int,
                134217728,
            )
        }),
{
    let domains = domains_for(capabilities, visible, unified)->Ok_0;
    let w = larger(size as int, 1) as nat;
    let p: nat = match projector {
        Some(n) => n as nat,
        None => 0,
    };
    let parts = estimated_parts(w, p, ctx, default_ctx)->0;
    lemma_estimated_bytes(w, p, ctx, default_ctx);
    lemma_assigned_parts(parts, domains, false, "kv_cache"@);
    lemma_assigned_parts(parts, domains, false, "activation"@);
    assert(forall|x: nat| #[trigger] (1 * x) == x);
    assert(default_ctx * 4 == 4 * default_ctx);
}

proof fn lemma_assigned_parts_domains(
    parts: Seq<(Seq<char>, nat)>,
    domains: Seq<DomainView>,
    replicate: bool,
    i: int,
)
    requires
        0 <= i < assigned_parts(parts, domains, replicate).len(),
    ensures
        domains.contains(assigned_parts(parts, domains, replicate)[i].domain),
    decreases parts.len(),
{
    if parts.len() > 0 {
        let rest = assigned_parts(parts.drop_last(), domains, replicate);
        let last = assigned(parts.last().0, parts.last().1, domains, replicate);
        if i < rest.len() {
            lemma_assigned_parts_domains(parts.drop_last(), domains, replicate, i);
            assert((rest + last)[i] == rest[i]);
        } else {
            assert((rest + last)[i] == last[i - rest.len()]);
            assert(last[i - rest.len()].domain == domains[i - rest.len()]);
        }
    }
}

/// A budget charges the memories that the backend lives in and no others: the one memory of
/// a machine that has one for all or of a backend that shares it, the selected devices of a
/// backend with CUDA, and the memory of the host elsewhere.
pub proof fn budgets_charge_the_right_memories(
    payload: JsonView,
    capabilities: Seq<Seq<char>>,
    weights: Result<Option<u64>, Seq<char>>,
    projector: Result<Option<u64>, Seq<char>>,
    ctx: nat,
    default_ctx: nat,
    visible: Option<Seq<char>>,
    replicate: bool,
    unified: bool,
    d: DomainView,
)
    requires
        budgeted(
            payload,
            capabilities,
            weights,
            projector,
            ctx,
            default_ctx,
            visible,
            replicate,
            unified,
        ) is Ok,
        listed(
            budgeted(
                payload,
                capabilities,
                weights,
                projector,
                ctx,
                default_ctx,
                visible,
                replicate,
                unified,
            )->Ok_0.domains,
            d,
        ),
    ensures
        if unified || capabilities.contains("shared-memory"@) {
            d == DomainView::Unified("system"@)
        } else if capabilities.contains("cuda"@) {
            d matches DomainView::Cuda(device) && visible is Some && names_device(
                visible->0,
                device,
            )
        } else {
            d == DomainView::Host
        },
{
    let domains = domains_for(capabilities, visible, unified)->Ok_0;
    let cs = budgeted(
        payload,
        capabilities,
        weights,
        projector,
        ctx,
        default_ctx,
        visible,
        replicate,
        unified,
    )->Ok_0.components;
    totals_add_up(cs, d);
    let i = choose|i: int| 0 <= i < cs.len() && (#[trigger] cs[i]).domain == d;
    if exists|parts: Seq<(Seq<char>, nat)>| cs == #[trigger] assigned_parts(
        parts,
        domains,
        replicate,
    ) {
        let parts = choose|parts: Seq<(Seq<char>, nat)>| cs == #[trigger] assigned_parts(
            parts,
            domains,
            replicate,
        );
        lemma_assigned_parts_domains(parts, domains, replicate, i);
    } else {
        let total = number_member(payload, "resource_budget_bytes"@)->0;
        assert(cs == assigned("client_provided_total"@, total, domains, replicate));
        assert(cs[i].domain == domains[i]);
    }
    let j = choose|j: int| 0 <= j < domains.len() && domains[j] == d;
    if !unified && !capabilities.contains("shared-memory"@) && capabilities.contains("cuda"@) {
        let device = cuda_devices(visible->0)[j];
        assert(d == DomainView::Cuda(device));
        assert(cuda_devices(visible->0).contains(device));
        devices_are_those_that_are_named(visible->0, device);
    }
}

/// Whether a list names a device between its commas.
pub open spec fn names_device(list: Seq<char>, device: Seq<char>) -> bool {
    exists|i: int|
        0 <= i < pieces(list, ',').len() && !blank(#[trigger] pieces(list, ',')[i]) && trimmed(
            pieces(list, ',')[i],
        ) == device
}

proof fn lemma_stated_parts(parts: Seq<Seq<char>>, x: Seq<char>)
    ensures
        stated_parts(parts).contains(x) <==> exists|i: int|
            0 <= i < parts.len() && !blank(#[trigger] parts[i]) && trimmed(parts[i]) == x,
    decreases parts.len(),
{
    if parts.len() > 0 {
        let rest = parts.drop_last();
        let kept = stated_parts(rest);
        lemma_stated_parts(rest, x);
        if kept.contains(x) {
            let i = choose|i: int|
                0 <= i < rest.len() && !blank(#[trigger] rest[i]) && trimmed(rest[i]) == x;
            assert(parts[i] == rest[i]);
            let k = choose|k: int| 0 <= k < kept.len() && kept[k] == x;
            assert(stated_parts(parts)[k] == x);
        }
        if !blank(parts.last()) && trimmed(parts.last()) == x {
            assert(parts[parts.len() - 1] == parts.last());
            assert(stated_parts(parts)[kept.len() as int] == x);
        }
        if stated_parts(parts).contains(x) && !kept.contains(x) {
            let k = choose|k: int|
                0 <= k < stated_parts(parts).len() && stated_parts(parts)[k] == x;
            if k < kept.len() {
                assert(kept[k] == x);
            }
            assert(parts[parts.len() - 1] == parts.last());
        }
        if exists|i: int|
            0 <= i < parts.len() && !blank(#[trigger] parts[i]) && trimmed(parts[i]) == x {
            let i = choose|i: int|
                0 <= i < parts.len() && !blank(#[trigger] parts[i]) && trimmed(parts[i]) == x;
            if i < rest.len() {
                assert(rest[i] == parts[i]);
            }
        }
    }
}

/// A list of devices means the devices that stand between its commas, without the space
/// round them, and no others.
pub proof fn devices_are_those_that_are_named(list: Seq<char>, device: Seq<char>)
    ensures
        cuda_devices(list).contains(device) <==> names_device(list, device),
{
    lemma_stated_parts(pieces(list, ','), device);
    ordering_keeps_the_texts(stated_parts(pieces(list, ',')));
}

/// A total that a client states is what its budget comes to.
pub proof fn stated_totals_are_taken(
    payload: JsonView,
    total: nat,
    capabilities: Seq<Seq<char>>,
    weights: Result<Option<u64>, Seq<char>>,
    projector: Result<Option<u64>, Seq<char>>,
    ctx: nat,
    default_ctx: nat,
    visible: Option<Seq<char>>,
    unified: bool,
)
    requires
        number_member(payload, "resource_budget_bytes"@) == Some(total),
        total > 0,
        budgeted(
            payload,
            capabilities,
            weights,
            projector,
            ctx,
            default_ctx,
            visible,
            false,
            unified,
        ) is Ok,
    ensures
        sum(
            budgeted(
                payload,
                capabilities,
                weights,
                projector,
                ctx,
                default_ctx,
                visible,
                false,
                unified,
            )->Ok_0.domains,
        ) == total,
{
    let domains = domains_for(capabilities, visible, unified)->Ok_0;
    let cs = assigned("client_provided_total"@, total, domains, false);
    lemma_assigned_bytes("client_provided_total"@, total, domains, false, "client_provided_total"@);
    totals_add_up(cs, DomainView::Host);
    assert(1 * total == total);
}

/// A model of which the size is not known can be budgeted only by a stated total, and what
/// went wrong when a size was looked for is what is said.
pub proof fn unknown_sizes_need_a_total(
    payload: JsonView,
    capabilities: Seq<Seq<char>>,
    weights: Result<Option<u64>, Seq<char>>,
    projector: Result<Option<u64>, Seq<char>>,
    ctx: nat,
    default_ctx: nat,
    visible: Option<Seq<char>>,
    replicate: bool,
    unified: bool,
)
    ensures
        ({
            let r = budgeted(
                payload,
                capabilities,
                weights,
                projector,
                ctx,
                default_ctx,
                visible,
                replicate,
                unified,
            );
            &&& weights is Err ==> r is Err
            &&& projector is Err ==> r is Err
            &&& weights == Ok::<Option<u64>, Seq<char>>(None) && states_no_total(payload) ==> r
                is Err
            &&& !unified && !capabilities.contains("shared-memory"@) && capabilities.contains(
                "cuda"@,
            ) && (visible is None || visible->0.len() == 0) ==> r is Err
        }),
{
    if visible is Some && visible->0.len() == 0 {
        let list = visible->0;
        assert(pieces(list, ',') == seq![Seq::<char>::empty()]);
        if cuda_devices(list).len() > 0 {
            let device = cuda_devices(list)[0];
            assert(cuda_devices(list).contains(device));
            devices_are_those_that_are_named(list, device);
            let i = choose|i: int|
                0 <= i < pieces(list, ',').len() && !blank(#[trigger] pieces(list, ',')[i])
                    && trimmed(pieces(list, ',')[i]) == device;
            assert(pieces(list, ',')[i] == Seq::<char>::empty());
        }
    }
}

/// A file has its size, and one more file in a directory adds its size.
pub proof fn artifacts_have_the_size_of_their_files(
    n: u64,
    few: Artifact,
    more: Artifact,
    last: u64,
)
    requires
        few is Directory,
        more is Directory,
        more->Directory_0@ == few->Directory_0@.push(last),
    ensures
        artifact_size(Artifact::File(n)) == Ok::<Option<u64>, Seq<char>>(Some(n)),
        artifact_size(Artifact::Missing) == Ok::<Option<u64>, Seq<char>>(None),
        artifact_size(more) matches Ok(Some(total)) ==> (artifact_size(few) matches Ok(before)
            && total == last + (match before {
            Some(b) => b as int,
            None => 0,
        })),
        few->Directory_0@.len() == 0 ==> artifact_size(few) == Ok::<Option<u64>, Seq<char>>(None),
{
    assert(more->Directory_0@.drop_last() =~= few->Directory_0@);
}

/// The free memory of a device is that of the line that names it by its number or its
/// identifier, in mebibytes.
pub proof fn free_memory_is_read_from_the_line_of_the_device(
    rows: Seq<Seq<char>>,
    i: int,
    device: Seq<char>,
    n: nat,
)
    requires
        0 <= i < rows.len(),
        pieces(rows[i], ',').len() >= 3,
        trimmed(pieces(rows[i], ',')[0]) == device || trimmed(pieces(rows[i], ',')[1]) == device,
        trimmed(pieces(rows[i], ',')[2]) == decimal(n),
        n * 1048576 <= u64::MAX,
        forall|j: int|
            0 <= j < rows.len() && j != i && pieces(#[trigger] rows[j], ',').len() >= 3
                ==> trimmed(pieces(rows[j], ',')[0]) != device && trimmed(
                pieces(rows[j], ',')[1],
            ) != device,
    ensures
        reported_bytes(rows, seq![device]) == Ok::<Seq<(DomainView, nat)>, Seq<char>>(
            seq![(DomainView::Cuda(device), n * 1048576)],
        ),
{
    parsing_undoes_showing(n, u64::MAX as nat);
    lemma_reported_line(rows, i, device);
    let one = seq![device];
    assert(one.drop_last() =~= Seq::<Seq<char>>::empty());
    assert(reported_bytes(rows, one.drop_last()) == Ok::<Seq<(DomainView, nat)>, Seq<char>>(
        seq![],
    ));
    assert(reported_bytes(rows, one)->Ok_0 =~= seq![
        (DomainView::Cuda(device), n * 1048576),
    ]);
}

proof fn lemma_reported_line(rows: Seq<Seq<char>>, i: int, device: Seq<char>)
    requires
        0 <= i < rows.len(),
        row_mib(rows[i], device) is Some,
        forall|j: int| 0 <= j < rows.len() && j != i ==> row_mib(#[trigger] rows[j], device) is None,
    ensures
        reported_mib(rows, device) == row_mib(rows[i], device),
    decreases rows.len(),
{
    if i > 0 {
        let rest = rows.drop_first();
        assert(row_mib(rows[0], device) is None);
        assert(rest[i - 1] == rows[i]);
        assert forall|j: int| 0 <= j < rest.len() && j != i - 1 implies row_mib(
            #[trigger] rest[j],
            device,
        ) is None by {
            assert(rest[j] == rows[j + 1]);
        }
        lemma_reported_line(rest, i - 1, device);
    }
}

/// A device that no line names is an error.
pub proof fn devices_have_to_be_reported(rows: Seq<Seq<char>>, device: Seq<char>)
    requires
        forall|j: int|
            0 <= j < rows.len() && pieces(#[trigger] rows[j], ',').len() >= 3 ==> trimmed(
                pieces(rows[j], ',')[0],
            ) != device && trimmed(pieces(rows[j], ',')[1]) != device,
    ensures
        reported_bytes(rows, seq![device]) is Err,
{
    lemma_unreported(rows, device);
    let one = seq![device];
    assert(one.drop_last() =~= Seq::<Seq<char>>::empty());
}

proof fn lemma_unreported(rows: Seq<Seq<char>>, device: Seq<char>)
    requires
        forall|j: int| 0 <= j < rows.len() ==> row_mib(#[trigger] rows[j], device) is None,
    ensures
        reported_mib(rows, device) is None,
    decreases rows.len(),
{
    if rows.len() > 0 {
        assert(row_mib(rows[0], device) is None);
        let rest = rows.drop_first();
        assert forall|j: int| 0 <= j < rest.len() implies row_mib(#[trigger] rest[j], device)
            is None by {
            assert(rest[j] == rows[j + 1]);
        }
        lemma_unreported(rest, device);
    }
}

/// A machine has its free memory to give, to the host and as one memory for all, and on each
/// device what the device has free.
pub proof fn machines_give_what_is_free(
    memory: nat,
    devices: Seq<(DomainView, nat)>,
    d: DomainView,
)
    requires
        single(devices),
    ensures
        listed(devices, d) ==> found(available(memory, devices), d) == found(devices, d),
        !listed(devices, d) && (d == DomainView::Host || d == DomainView::Unified("system"@))
            ==> found(available(memory, devices), d) == Some(memory),
        !listed(devices, d) && !(d == DomainView::Host || d == DomainView::Unified("system"@))
            ==> found(available(memory, devices), d) is None,
{
    let start = Seq::<(DomainView, nat)>::empty()
        .push((DomainView::Host, memory))
        .push((DomainView::Unified("system"@), memory));
    lemma_place(start, d);
    assert(start[0].0 == DomainView::Host && start[1].0 == DomainView::Unified("system"@));
    lemma_overlaid(start, devices, d);
}

proof fn lemma_overlaid(s: Seq<(DomainView, nat)>, more: Seq<(DomainView, nat)>, d: DomainView)
    requires
        single(more),
    ensures
        listed(more, d) ==> found(overlaid(s, more), d) == found(more, d),
        !listed(more, d) ==> found(overlaid(s, more), d) == found(s, d),
    decreases more.len(),
{
    if more.len() > 0 {
        let rest = more.drop_last();
        assert forall|i: int, j: int| 0 <= i < j < rest.len() implies (#[trigger] rest[i]).0 != (
        #[trigger] rest[j]).0 by {
            assert(more[i].0 != more[j].0);
        }
        lemma_overlaid(s, rest, d);
        setting_an_amount(overlaid(s, rest), more.last().0, more.last().1, d);
        lemma_place(rest, d);
    }
}

/// A request is reserved just where each memory that it needs is known and has enough left
/// of its capacity.
pub proof fn requests_are_reserved_where_they_fit(
    l: LedgerView,
    request: Seq<char>,
    entries: Seq<(DomainView, nat)>,
)
    ensures
        refusal(l, request, entries) is None <==> forall|i: int|
            0 <= i < entries.len() ==> listed(l.capacities, (#[trigger] entries[i]).0) && l.used(
                entries[i].0,
            ) + entries[i].1 <= amount(l.capacities, entries[i].0),
    decreases entries.len(),
{
    if entries.len() > 0 {
        let rest = entries.drop_first();
        requests_are_reserved_where_they_fit(l, request, rest);
        if refusal(l, request, entries) is None {
            assert forall|i: int| 0 <= i < entries.len() implies listed(
                l.capacities,
                (#[trigger] entries[i]).0,
            ) && l.used(entries[i].0) + entries[i].1 <= amount(l.capacities, entries[i].0) by {
                if i > 0 {
                    assert(rest[i - 1] == entries[i]);
                }
            }
        }
        if forall|i: int|
            0 <= i < entries.len() ==> listed(l.capacities, (#[trigger] entries[i]).0) && l.used(
                entries[i].0,
            ) + entries[i].1 <= amount(l.capacities, entries[i].0) {
            assert(listed(l.capacities, entries[0].0));
            assert forall|i: int| 0 <= i < rest.len() implies listed(
                l.capacities,
                (#[trigger] rest[i]).0,
            ) && l.used(rest[i].0) + rest[i].1 <= amount(l.capacities, rest[i].0) by {
                assert(rest[i] == entries[i + 1]);
            }
        }
    }
}

/// What is left of a memory is its capacity without what is reserved and committed of it.
pub proof fn what_is_left_is_what_nobody_holds(l: LedgerView, d: DomainView)
    requires
        l.wf(),
        l.within_capacity(),
        single(l.capacities),
        listed(l.capacities, d),
    ensures
        left_over(snapshot_of(l)) is Some,
        found(left_over(snapshot_of(l))->0, d) == Some(
            (amount(l.capacities, d) - l.used(d)) as nat,
        ),
{
    let s = snapshot_of(l);
    assert forall|i: int| 0 <= i < s.capacities.len() implies amount(
        s.reserved,
        (#[trigger] s.capacities[i]).0,
    ) + amount(s.committed, s.capacities[i].0) <= s.capacities[i].1 by {
        let k = s.capacities[i].0;
        snapshots_report_what_is_held(l, k);
        lemma_place(s.capacities, k);
        let at = crate::resources::domains::place_of(s.capacities, k);
        assert(s.capacities[at].0 == s.capacities[i].0);
        assert(at == i);
        assert(l.used(k) <= amount(l.capacities, k));
    }
    snapshots_report_what_is_held(l, d);
    let r = left_over(s)->0;
    lemma_place(s.capacities, d);
    lemma_place(r, d);
    let at = crate::resources::domains::place_of(s.capacities, d);
    assert(r[at].0 == d);
    let to = crate::resources::domains::place_of(r, d);
    assert(s.capacities[to].0 == d);
    assert(to == at);
}

} // verus!
