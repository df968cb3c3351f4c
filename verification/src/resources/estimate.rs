//! What a runtime will need, estimated from the size of its model, and what the machine
//! has to give.
use vstd::prelude::*;

use crate::failure::{plain_result, Failure};
use crate::json::{number_member, Json, JsonView};
use crate::resources::budget::{
    assign_component, assigned, budget_of, bytes_named, component_sum, component_views, copies,
    domain_views, lemma_assigned_bytes, lemma_assigned_grows, lemma_fitting_totals,
    lemma_parts_add, needed_of, totals, totals_add_up, totals_overflow, BudgetComponent,
    BudgetView, ComponentView, ResourceBudget,
};
use crate::resources::domains::{
    largest, sum, with_amount, DomainBytes, DomainView, MemoryDomain,
};
use crate::text::chars::text_eq;
use crate::text::compose::{has_item, no_texts, opt_text, replace, replaced, texts};
use crate::text::number::{decimal, parse_u64, parsed, show};
use crate::text::order::{in_order, ordering_keeps_the_texts, place};
use crate::text::pieces::{lines, lines_of, pieces, split};
use crate::text::trim::{blank, trim, trimmed};

verus! {

pub const MIB: u64 = 1048576;

pub const GIB: u64 = 1073741824;

/// What a model path leads to.
pub enum Artifact {
    /// Nothing that can be looked at.
    Missing,
    /// A file of the given size.
    File(u64),
    /// A directory with files of the given sizes in it, at any depth, links left out.
    Directory(Vec<u64>),
    /// Something else.
    Other,
}

/// The sizes taken together.
pub open spec fn size_sum(sizes: Seq<u64>) -> nat
    decreases sizes.len(),
{
    if sizes.len() == 0 {
        0
    } else {
        size_sum(sizes.drop_last()) + sizes.last() as nat
    }
}

/// The size of what a model path leads to, where it has one.
pub open spec fn artifact_size(a: Artifact) -> Result<Option<u64>, Seq<char>> {
    match a {
        Artifact::Missing => Ok(None),
        Artifact::Other => Ok(None),
        Artifact::File(n) => Ok(Some(n)),
        Artifact::Directory(sizes) => if size_sum(sizes@) > u64::MAX {
            Err("model artifact size overflow"@)
        } else if size_sum(sizes@) == 0 {
            Ok(None)
        } else {
            Ok(Some(size_sum(sizes@) as u64))
        },
    }
}

proof fn lemma_size_prefix(sizes: Seq<u64>, n: int)
    requires
        0 <= n <= sizes.len(),
    ensures
        size_sum(sizes.take(n)) <= size_sum(sizes),
    decreases sizes.len() - n,
{
    if n < sizes.len() {
        assert(sizes.take(n + 1).drop_last() =~= sizes.take(n));
        lemma_size_prefix(sizes, n + 1);
    } else {
        assert(sizes.take(n) =~= sizes);
    }
}

/// The size of what a model path leads to.
pub fn artifact_size_bytes(artifact: &Artifact) -> (r: Result<Option<u64>, Failure>)
    ensures
        plain_result(r) == artifact_size(*artifact),
{
    match artifact {
        Artifact::Missing => Ok(None),
        Artifact::Other => Ok(None),
        Artifact::File(n) => Ok(Some(*n)),
        Artifact::Directory(sizes) => {
            let mut total: u64 = 0;
            let mut i: usize = 0;
            while i < sizes.len()
                invariant
                    i <= sizes@.len(),
                    *artifact == Artifact::Directory(*sizes),
                    total == size_sum(sizes@.take(i as int)),
                decreases sizes@.len() - i,
            {
                assert(sizes@.take(i as int + 1).drop_last() =~= sizes@.take(i as int));
                let n: u64 = sizes[i];
                if total > u64::MAX - n {
                    proof {
                        lemma_size_prefix(sizes@, i as int + 1);
                    }
                    return Err(Failure::new("model artifact size overflow"));
                }
                total = total + n;
                i += 1;
            }
            assert(sizes@.take(i as int) =~= sizes@);
            if total == 0 {
                Ok(None)
            } else {
                Ok(Some(total))
            }
        },
    }
}

/// A fraction of an amount, where the product can be written down.
pub open spec fn scaled(value: nat, numerator: nat, denominator: nat) -> Option<nat> {
    if value * numerator > u64::MAX || denominator == 0 {
        None
    } else {
        Some(value * numerator / denominator)
    }
}

/// A fraction of an amount.
pub fn checked_scaled(value: u64, numerator: u64, denominator: u64) -> (r: Result<u64, Failure>)
    ensures
        match r {
            Ok(n) => scaled(value as nat, numerator as nat, denominator as nat) == Some(n as nat),
            Err(e) => scaled(value as nat, numerator as nat, denominator as nat) is None && e@
                == "resource budget overflow"@,
        },
{
    match value.checked_mul(numerator) {
        Some(product) => if denominator == 0 {
            Err(Failure::new("resource budget overflow"))
        } else {
            assert(product / denominator <= product) by (nonlinear_arith)
                requires
                    denominator > 0,
            ;
            Ok(product / denominator)
        },
        None => Err(Failure::new("resource budget overflow")),
    }
}

/// The parts of a list, trimmed, without the blank ones.
pub open spec fn stated_parts(parts: Seq<Seq<char>>) -> Seq<Seq<char>>
    decreases parts.len(),
{
    if parts.len() == 0 {
        seq![]
    } else if blank(parts.last()) {
        stated_parts(parts.drop_last())
    } else {
        stated_parts(parts.drop_last()).push(trimmed(parts.last()))
    }
}

/// The devices that a comma-separated list names, in order, each once.
pub open spec fn cuda_devices(visible: Seq<char>) -> Seq<Seq<char>> {
    in_order(stated_parts(pieces(visible, ',')))
}

/// The devices that a comma-separated list names, in order, each once.
pub fn parse_cuda_devices(visible: &str) -> (r: Vec<String>)
    ensures
        texts(r@) == cuda_devices(visible@),
        crate::text::order::ascending(texts(r@)),
{
    let parts = split(visible, ',');
    let ghost all = pieces(visible@, ',');
    let mut r = no_texts();
    let mut i: usize = 0;
    assert(texts(r@) =~= in_order(stated_parts(all.take(0))));
    while i < parts.len()
        invariant
            i <= parts@.len(),
            all == texts(parts@),
            texts(r@) == in_order(stated_parts(all.take(i as int))),
        decreases parts@.len() - i,
    {
        assert(all.take(i as int + 1).drop_last() =~= all.take(i as int));
        let device = trim(parts[i].as_str());
        if !device.as_str().is_empty() {
            let ghost before = stated_parts(all.take(i as int));
            place(&mut r, device.as_str());
            assert(before.push(device@).drop_last() =~= before);
        }
        i += 1;
    }
    assert(all.take(i as int) =~= all);
    proof {
        ordering_keeps_the_texts(stated_parts(all));
    }
    r
}

/// The devices that a list with one device per line names.
pub fn listed_cuda_devices(output: &str) -> (r: Result<Vec<String>, Failure>)
    ensures
        match r {
            Ok(devices) => texts(devices@) == cuda_devices(replaced(output@, '\n', ","@))
                && devices@.len() > 0,
            Err(e) => cuda_devices(replaced(output@, '\n', ","@)).len() == 0 && e@
                == "nvidia-smi did not report any CUDA devices"@,
        },
{
    let devices = parse_cuda_devices(replace(output, '\n', ",").as_str());
    assert(texts(devices@).len() == devices@.len());
    if devices.len() == 0 {
        return Err(Failure::new("nvidia-smi did not report any CUDA devices"));
    }
    Ok(devices)
}

pub open spec fn no_device_message() -> Seq<char> {
    "CUDA resource budgeting requires a selected device"@
}

/// The memories that a runtime of the given capabilities lives in.
pub open spec fn domains_for(
    capabilities: Seq<Seq<char>>,
    visible: Option<Seq<char>>,
    unified: bool,
) -> Result<Seq<DomainView>, Seq<char>> {
    if unified || capabilities.contains("shared-memory"@) {
        Ok(seq![DomainView::Unified("system"@)])
    } else if capabilities.contains("cuda"@) {
        match visible {
            None => Err(no_device_message()),
            Some(list) => if cuda_devices(list).len() == 0 {
                Err(no_device_message())
            } else {
                Ok(
                    Seq::new(
                        cuda_devices(list).len(),
                        |i: int| DomainView::Cuda(cuda_devices(list)[i]),
                    ),
                )
            },
        }
    } else {
        Ok(seq![DomainView::Host])
    }
}

fn choose_domains(
    capabilities: &Vec<String>,
    visible: &Option<String>,
    unified: bool,
) -> (r: Result<Vec<MemoryDomain>, Failure>)
    ensures
        match r {
            Ok(v) => domains_for(texts(capabilities@), opt_text(*visible), unified) == Ok::<
                Seq<DomainView>,
                Seq<char>,
            >(domain_views(v@)) && v@.len() > 0,
            Err(e) => domains_for(texts(capabilities@), opt_text(*visible), unified) == Err::<
                Seq<DomainView>,
                Seq<char>,
            >(e@),
        },
{
    let mut v: Vec<MemoryDomain> = Vec::new();
    if unified || has_item(capabilities, "shared-memory") {
        v.push(MemoryDomain::Unified("system".to_owned()));
        assert(domain_views(v@) =~= seq![DomainView::Unified("system"@)]);
        return Ok(v);
    }
    if has_item(capabilities, "cuda") {
        match visible {
            None => {
                return Err(Failure::new("CUDA resource budgeting requires a selected device"));
            },
            Some(list) => {
                let devices = parse_cuda_devices(list.as_str());
                let ghost names = cuda_devices(list@);
                assert(texts(devices@).len() == devices@.len());
                if devices.len() == 0 {
                    return Err(Failure::new("CUDA resource budgeting requires a selected device"));
                }
                let mut i: usize = 0;
                while i < devices.len()
                    invariant
                        i <= devices@.len(),
                        names == texts(devices@),
                        v@.len() == i,
                        forall|j: int|
                            0 <= j < i ==> #[trigger] v@[j]@ == DomainView::Cuda(names[j]),
                    decreases devices@.len() - i,
                {
                    v.push(MemoryDomain::Cuda(devices[i].as_str().to_owned()));
                    i += 1;
                }
                assert(domain_views(v@) =~= Seq::new(
                    names.len(),
                    |i: int| DomainView::Cuda(names[i]),
                ));
                return Ok(v);
            },
        }
    }
    v.push(MemoryDomain::Host);
    assert(domain_views(v@) =~= seq![DomainView::Host]);
    Ok(v)
}

pub open spec fn at_least(a: nat, b: nat) -> nat {
    if a < b {
        b
    } else {
        a
    }
}

pub open spec fn at_most(a: nat, b: nat) -> nat {
    if a < b {
        a
    } else {
        b
    }
}

/// An amount that grows with the context, with the default context as the unit; as
/// large as can be written down where it would be larger.
pub open spec fn per_context(bytes: nat, ctx: nat, default_ctx: nat) -> nat {
    if bytes * ctx > u64::MAX || default_ctx == 0 {
        u64::MAX as nat
    } else {
        bytes * ctx / default_ctx
    }
}

/// What stands for the number of parameters of a model: twice its size, a gibibyte at
/// the least.
pub open spec fn parameter_proxy(weights: nat) -> nat {
    at_least(at_most(weights * 2, u64::MAX as nat), GIB as nat)
}

/// The parts that a runtime needs, by name. The caches follow from the weights and the
/// context alone; the overheads follow from all that is loaded.
pub open spec fn estimated_parts(weights: nat, projector: nat, ctx: nat, default_ctx: nat) -> Option<
    Seq<(Seq<char>, nat)>,
> {
    let proxy = parameter_proxy(weights);
    let base = weights + projector;
    if scaled(proxy, 3, 100) is None || scaled(base, 8, 100) is None {
        None
    } else {
        let kv_cache = at_least(per_context(proxy * 3 / 100, ctx, default_ctx), 256 * MIB as nat);
        let activation = at_least(
            per_context(proxy / 100, at_most(ctx, default_ctx * 4), default_ctx),
            128 * MIB as nat,
        );
        let start = Seq::<(Seq<char>, nat)>::empty()
            .push(("weights"@, weights))
            .push(("kv_cache"@, kv_cache))
            .push(("activation"@, activation))
            .push(("framework_overhead"@, at_least(base * 8 / 100, 384 * MIB as nat)))
            .push(("allocator_slack"@, at_least(base * 4 / 100, 160 * MIB as nat)));
        Some(
            if projector > 0 {
                start.push(("mmproj"@, projector))
            } else {
                start
            },
        )
    }
}

/// The parts, assigned to the memories.
pub open spec fn assigned_parts(
    parts: Seq<(Seq<char>, nat)>,
    domains: Seq<DomainView>,
    replicate: bool,
) -> Seq<ComponentView>
    decreases parts.len(),
{
    if parts.len() == 0 {
        seq![]
    } else {
        assigned_parts(parts.drop_last(), domains, replicate) + assigned(
            parts.last().0,
            parts.last().1,
            domains,
            replicate,
        )
    }
}

/// The total that a client has stated.
pub open spec fn stated_total(payload: JsonView) -> Option<nat> {
    match number_member(payload, "resource_budget_bytes"@) {
        Some(n) => if n > 0 {
            Some(n)
        } else {
            None
        },
        None => None,
    }
}

pub open spec fn with_parts(cs: Seq<ComponentView>) -> Result<BudgetView, Seq<char>> {
    if totals_overflow(cs) {
        Err("resource budget overflow"@)
    } else {
        Ok(budget_of(cs))
    }
}

/// The least that a client may state: what the fullest memory needs where parts are
/// repeated, and what is needed altogether elsewhere.
pub open spec fn least_total(cs: Seq<ComponentView>, replicate: bool) -> nat {
    if replicate {
        largest(totals(cs))
    } else {
        sum(totals(cs))
    }
}

pub open spec fn client_parts(total: nat, domains: Seq<DomainView>, replicate: bool) -> Result<
    BudgetView,
    Seq<char>,
> {
    with_parts(assigned("client_provided_total"@, total, domains, replicate))
}

/// The budget of a runtime whose model has the given size.
pub open spec fn sized_budget(
    stated: Option<nat>,
    weights: nat,
    projector: nat,
    ctx: nat,
    default_ctx: nat,
    domains: Seq<DomainView>,
    replicate: bool,
) -> Result<BudgetView, Seq<char>> {
    let ctx = at_least(ctx, 1);
    if weights + projector > u64::MAX {
        Err("model artifact size overflow"@)
    } else {
        match estimated_parts(weights, projector, ctx, default_ctx) {
            None => Err("resource budget overflow"@),
            Some(parts) => {
                let cs = assigned_parts(parts, domains, replicate);
                match (with_parts(cs), stated) {
                    (Err(e), _) => Err(e),
                    (Ok(b), None) => Ok(b),
                    (Ok(b), Some(total)) => if least_total(cs, replicate) > u64::MAX {
                        Err("resource budget overflow"@)
                    } else if total < least_total(cs, replicate) {
                        Err(
                            "resource_budget_bytes is below the estimated minimum of "@ + decimal(
                                least_total(cs, replicate),
                            ) + " bytes"@,
                        )
                    } else {
                        client_parts(total, domains, replicate)
                    },
                }
            },
        }
    }
}

/// The budget of a runtime. `weights` and `projector` are what looking at the model and
/// at its projector gave; `unified` is whether the machine has one memory for all.
pub open spec fn budgeted(
    payload: JsonView,
    capabilities: Seq<Seq<char>>,
    weights: Result<Option<u64>, Seq<char>>,
    projector: Result<Option<u64>, Seq<char>>,
    ctx: nat,
    default_ctx: nat,
    visible: Option<Seq<char>>,
    replicate: bool,
    unified: bool,
) -> Result<BudgetView, Seq<char>> {
    match domains_for(capabilities, visible, unified) {
        Err(e) => Err(e),
        Ok(domains) => match (weights, projector) {
            (Err(e), _) => Err(e),
            (_, Err(e)) => Err(e),
            (Ok(None), _) => match stated_total(payload) {
                None => Err(
                    "model artifact size is unknown; provide a non-zero resource_budget_bytes value"@,
                ),
                Some(total) => client_parts(total, domains, replicate),
            },
            (Ok(Some(size)), Ok(p)) => sized_budget(
                stated_total(payload),
                at_least(size as nat, 1),
                match p {
                    Some(n) => n as nat,
                    None => 0,
                },
                ctx,
                default_ctx,
                domains,
                replicate,
            ),
        },
    }
}

pub open spec fn budget_result(r: Result<ResourceBudget, Failure>) -> Result<
    BudgetView,
    Seq<char>,
> {
    match r {
        Ok(b) => Ok(b@),
        Err(e) => Err(e@),
    }
}

fn larger_of(a: u64, b: u64) -> (r: u64)
    ensures
        r == at_least(a as nat, b as nat),
{
    if a < b {
        b
    } else {
        a
    }
}

fn contextual(bytes: u64, ctx: u64, default_ctx: u32) -> (r: u64)
    ensures
        r == per_context(bytes as nat, ctx as nat, default_ctx as nat),
{
    match bytes.checked_mul(ctx) {
        Some(product) => if default_ctx == 0 {
            u64::MAX
        } else {
            let unit: u64 = default_ctx as u64;
            assert(product / unit <= product) by (nonlinear_arith)
                requires
                    unit > 0,
            ;
            product / unit
        },
        None => u64::MAX,
    }
}

fn client_budget(total: u64, domains: &Vec<MemoryDomain>, replicate: bool) -> (r: Result<
    ResourceBudget,
    Failure,
>)
    requires
        domains@.len() > 0,
        total > 0,
    ensures
        budget_result(r) == client_parts(total as nat, domain_views(domains@), replicate),
{
    match assign_component("client_provided_total", total, domains, replicate) {
        Ok(cs) => ResourceBudget::from_components(cs),
        Err(e) => Err(e),
    }
}

fn append_part(
    cs: &mut Vec<BudgetComponent>,
    name: &str,
    bytes: u64,
    domains: &Vec<MemoryDomain>,
    replicate: bool,
)
    requires
        domains@.len() > 0,
        bytes > 0,
    ensures
        component_views(final(cs)@) == component_views(old(cs)@) + assigned(
            name@,
            bytes as nat,
            domain_views(domains@),
            replicate,
        ),
{
    let ghost before = component_views(cs@);
    match assign_component(name, bytes, domains, replicate) {
        Ok(mut more) => {
            let ghost added = component_views(more@);
            let ghost was = cs@;
            let ghost new = more@;
            cs.append(&mut more);
            assert(component_views(cs@) =~= before + added);
        },
        Err(_) => {},
    }
}

proof fn lemma_parts_push(
    parts: Seq<(Seq<char>, nat)>,
    part: (Seq<char>, nat),
    domains: Seq<DomainView>,
    replicate: bool,
)
    ensures
        assigned_parts(parts.push(part), domains, replicate) == assigned_parts(
            parts,
            domains,
            replicate,
        ) + assigned(part.0, part.1, domains, replicate),
{
    assert(parts.push(part).drop_last() =~= parts);
}

fn estimate_parts(weights: u64, projector: u64, ctx: u64, default_ctx: u32) -> (r: Result<
    Vec<(String, u64)>,
    Failure,
>)
    requires
        weights > 0,
        weights + projector <= u64::MAX,
    ensures
        match r {
            Ok(v) => estimated_parts(
                weights as nat,
                projector as nat,
                ctx as nat,
                default_ctx as nat,
            ) == Some(part_views(v@)),
            Err(e) => estimated_parts(
                weights as nat,
                projector as nat,
                ctx as nat,
                default_ctx as nat,
            ) is None && e@ == "resource budget overflow"@,
        },
{
    let base: u64 = weights + projector;
    let doubled: u64 = if weights > u64::MAX / 2 {
        u64::MAX
    } else {
        weights * 2
    };
    let proxy: u64 = larger_of(doubled, GIB);
    assert(proxy == parameter_proxy(weights as nat));
    let kv_base: u64 = match checked_scaled(proxy, 3, 100) {
        Ok(n) => n,
        Err(e) => {
            return Err(e);
        },
    };
    let activation_base: u64 = proxy / 100;
    let framework: u64 = match checked_scaled(base, 8, 100) {
        Ok(n) => larger_of(n, 384 * MIB),
        Err(e) => {
            return Err(e);
        },
    };
    let slack: u64 = larger_of(base * 4 / 100, 160 * MIB);
    let kv_cache: u64 = larger_of(contextual(kv_base, ctx, default_ctx), 256 * MIB);
    let widest: u64 = default_ctx as u64 * 4;
    let activation_ctx: u64 = if ctx < widest {
        ctx
    } else {
        widest
    };
    let activation: u64 = larger_of(
        contextual(activation_base, activation_ctx, default_ctx),
        128 * MIB,
    );
    let mut v: Vec<(String, u64)> = Vec::new();
    assert(part_views(v@) =~= Seq::<(Seq<char>, nat)>::empty());
    push_part(&mut v, "weights", weights);
    push_part(&mut v, "kv_cache", kv_cache);
    push_part(&mut v, "activation", activation);
    push_part(&mut v, "framework_overhead", framework);
    push_part(&mut v, "allocator_slack", slack);
    if projector > 0 {
        push_part(&mut v, "mmproj", projector);
    }
    Ok(v)
}

pub open spec fn part_views(v: Seq<(String, u64)>) -> Seq<(Seq<char>, nat)> {
    Seq::new(v.len(), |i: int| (v[i].0@, v[i].1 as nat))
}

fn push_part(v: &mut Vec<(String, u64)>, name: &str, bytes: u64)
    ensures
        part_views(final(v)@) == part_views(old(v)@).push((name@, bytes as nat)),
{
    let ghost before = part_views(v@);
    v.push((name.to_owned(), bytes));
    assert(part_views(v@) =~= before.push((name@, bytes as nat)));
}

proof fn lemma_parts_positive(weights: nat, projector: nat, ctx: nat, default_ctx: nat, i: int)
    requires
        weights > 0,
        estimated_parts(weights, projector, ctx, default_ctx) is Some,
        0 <= i < estimated_parts(weights, projector, ctx, default_ctx)->0.len(),
    ensures
        estimated_parts(weights, projector, ctx, default_ctx)->0[i].1 > 0,
{
}

fn assign_parts(parts: &Vec<(String, u64)>, domains: &Vec<MemoryDomain>, replicate: bool) -> (r: Vec<
    BudgetComponent,
>)
    requires
        domains@.len() > 0,
        forall|i: int| 0 <= i < parts@.len() ==> (#[trigger] parts@[i]).1 > 0,
    ensures
        component_views(r@) == assigned_parts(part_views(parts@), domain_views(domains@), replicate),
{
    let ghost all = part_views(parts@);
    let mut cs: Vec<BudgetComponent> = Vec::new();
    let mut i: usize = 0;
    assert(component_views(cs@) =~= assigned_parts(all.take(0), domain_views(domains@), replicate));
    while i < parts.len()
        invariant
            i <= parts@.len(),
            all == part_views(parts@),
            domains@.len() > 0,
            forall|j: int| 0 <= j < parts@.len() ==> (#[trigger] parts@[j]).1 > 0,
            component_views(cs@) == assigned_parts(
                all.take(i as int),
                domain_views(domains@),
                replicate,
            ),
        decreases parts@.len() - i,
    {
        assert(all.take(i as int + 1) =~= all.take(i as int).push(all[i as int]));
        proof {
            lemma_parts_push(all.take(i as int), all[i as int], domain_views(domains@), replicate);
        }
        assert(parts@[i as int].1 > 0);
        append_part(&mut cs, parts[i].0.as_str(), parts[i].1, domains, replicate);
        i += 1;
    }
    assert(all.take(i as int) =~= all);
    cs
}

fn budget_by_size(
    stated: Option<u64>,
    weights: u64,
    projector: u64,
    ctx: u64,
    default_ctx: u32,
    domains: &Vec<MemoryDomain>,
    replicate: bool,
) -> (r: Result<ResourceBudget, Failure>)
    requires
        weights > 0,
        domains@.len() > 0,
        stated is Some ==> stated->0 > 0,
    ensures
        budget_result(r) == sized_budget(
            match stated {
                Some(n) => Some(n as nat),
                None => None,
            },
            weights as nat,
            projector as nat,
            ctx as nat,
            default_ctx as nat,
            domain_views(domains@),
            replicate,
        ),
{
    if weights > u64::MAX - projector {
        return Err(Failure::new("model artifact size overflow"));
    }
    let ctx: u64 = larger_of(ctx, 1);
    let parts = match estimate_parts(weights, projector, ctx, default_ctx) {
        Ok(parts) => parts,
        Err(e) => {
            return Err(e);
        },
    };
    assert forall|i: int| 0 <= i < parts@.len() implies (#[trigger] parts@[i]).1 > 0 by {
        lemma_parts_positive(
            weights as nat,
            projector as nat,
            ctx as nat,
            default_ctx as nat,
            i,
        );
        assert(part_views(parts@)[i].1 == parts@[i].1);
    }
    let cs = assign_parts(&parts, domains, replicate);
    let estimated = match ResourceBudget::from_components(cs) {
        Ok(b) => b,
        Err(e) => {
            return Err(e);
        },
    };
    match stated {
        None => Ok(estimated),
        Some(total) => {
            let least: u64 = if replicate {
                estimated.domains().maximum()
            } else {
                match estimated.domains().total() {
                    Some(n) => n,
                    None => {
                        return Err(Failure::new("resource budget overflow"));
                    },
                }
            };
            if total < least {
                return Err(
                    Failure::of(
                        "resource_budget_bytes is below the estimated minimum of ",
                        show(least).as_str(),
                        " bytes",
                    ),
                );
            }
            client_budget(total, domains, replicate)
        },
    }
}

/// The budget of a runtime. `weights` and `projector` are what looking at the model and
/// at its projector gave, a projector that is not asked for counting as none;
/// `default_ctx` is the context size that the estimate is made for, and `unified` is
/// whether the machine has one memory for all.
pub fn build_runtime_resource_budget(
    payload: &Json,
    capabilities: &Vec<String>,
    weights: Result<Option<u64>, Failure>,
    projector: Result<Option<u64>, Failure>,
    ctx_size: u32,
    default_ctx: u32,
    cuda_visible_devices: &Option<String>,
    replicate_across_domains: bool,
    unified: bool,
) -> (r: Result<ResourceBudget, Failure>)
    ensures
        budget_result(r) == budgeted(
            payload@,
            texts(capabilities@),
            plain_result(weights),
            plain_result(projector),
            ctx_size as nat,
            default_ctx as nat,
            opt_text(*cuda_visible_devices),
            replicate_across_domains,
            unified,
        ),
{
    let domains = match choose_domains(capabilities, cuda_visible_devices, unified) {
        Ok(domains) => domains,
        Err(e) => {
            return Err(e);
        },
    };
    let stated: Option<u64> = match payload.get_number("resource_budget_bytes") {
        Some(n) => if n > 0 {
            Some(n)
        } else {
            None
        },
        None => None,
    };
    let weights = match weights {
        Ok(w) => w,
        Err(e) => {
            return Err(e);
        },
    };
    let projector: u64 = match projector {
        Ok(Some(n)) => n,
        Ok(None) => 0,
        Err(e) => {
            return Err(e);
        },
    };
    let weights: u64 = match weights {
        Some(n) => larger_of(n, 1),
        None => {
            return match stated {
                Some(total) => client_budget(total, &domains, replicate_across_domains),
                None => Err(
                    Failure::new(
                        "model artifact size is unknown; provide a non-zero resource_budget_bytes value",
                    ),
                ),
            };
        },
    };
    budget_by_size(
        stated,
        weights,
        projector,
        ctx_size as u64,
        default_ctx,
        &domains,
        replicate_across_domains,
    )
}

/// What a line of the device report says of a device: its free memory in mebibytes,
/// where the line is about the device and has a number there.
pub open spec fn row_mib(line: Seq<char>, device: Seq<char>) -> Option<nat> {
    let parts = pieces(line, ',');
    if parts.len() >= 3 && (trimmed(parts[0]) == device || trimmed(parts[1]) == device) {
        parsed(trimmed(parts[2]), u64::MAX as nat)
    } else {
        None
    }
}

/// What the first line that says something of a device says.
pub open spec fn reported_mib(rows: Seq<Seq<char>>, device: Seq<char>) -> Option<nat>
    decreases rows.len(),
{
    if rows.len() == 0 {
        None
    } else if row_mib(rows[0], device) is Some {
        row_mib(rows[0], device)
    } else {
        reported_mib(rows.drop_first(), device)
    }
}

/// The free memory of each of the devices.
pub open spec fn reported_bytes(rows: Seq<Seq<char>>, devices: Seq<Seq<char>>) -> Result<
    Seq<(DomainView, nat)>,
    Seq<char>,
>
    decreases devices.len(),
{
    if devices.len() == 0 {
        Ok(seq![])
    } else {
        match reported_bytes(rows, devices.drop_last()) {
            Err(e) => Err(e),
            Ok(so_far) => match reported_mib(rows, devices.last()) {
                None => Err(
                    "selected CUDA device was not reported by nvidia-smi: "@ + devices.last(),
                ),
                Some(mib) => if mib * MIB > u64::MAX {
                    Err("CUDA capacity overflow"@)
                } else {
                    Ok(with_amount(so_far, DomainView::Cuda(devices.last()), mib * MIB as nat))
                },
            },
        }
    }
}

fn row_free_mib(line: &str, device: &str) -> (r: Option<u64>)
    ensures
        match r {
            Some(n) => row_mib(line@, device@) == Some(n as nat),
            None => row_mib(line@, device@) is None,
        },
{
    let parts = split(line, ',');
    assert(texts(parts@).len() == parts@.len());
    if parts.len() < 3 {
        return None;
    }
    assert(texts(parts@)[0] == parts@[0]@ && texts(parts@)[1] == parts@[1]@ && texts(parts@)[2]
        == parts@[2]@);
    if text_eq(trim(parts[0].as_str()).as_str(), device) || text_eq(
        trim(parts[1].as_str()).as_str(),
        device,
    ) {
        parse_u64(trim(parts[2].as_str()).as_str())
    } else {
        None
    }
}

fn free_mib(rows: &Vec<String>, device: &str) -> (r: Option<u64>)
    ensures
        match r {
            Some(n) => reported_mib(texts(rows@), device@) == Some(n as nat),
            None => reported_mib(texts(rows@), device@) is None,
        },
{
    let ghost all = texts(rows@);
    let mut i: usize = 0;
    assert(all.skip(0) =~= all);
    while i < rows.len()
        invariant
            i <= rows@.len(),
            all == texts(rows@),
            reported_mib(all, device@) == reported_mib(all.skip(i as int), device@),
        decreases rows@.len() - i,
    {
        assert(all.skip(i as int).drop_first() =~= all.skip(i as int + 1));
        if let Some(n) = row_free_mib(rows[i].as_str(), device) {
            return Some(n);
        }
        i += 1;
    }
    None
}

/// The free memory of the devices that a list names, as the device report has it.
pub fn cuda_available_bytes(visible: &str, report: &str) -> (r: Result<DomainBytes, Failure>)
    ensures
        match r {
            Ok(d) => cuda_devices(visible@).len() > 0 && reported_bytes(
                lines_of(report@),
                cuda_devices(visible@),
            ) == Ok::<Seq<(DomainView, nat)>, Seq<char>>(d@),
            Err(e) => if cuda_devices(visible@).len() == 0 {
                e@ == "CUDA device selection is empty"@
            } else {
                reported_bytes(lines_of(report@), cuda_devices(visible@)) == Err::<
                    Seq<(DomainView, nat)>,
                    Seq<char>,
                >(e@)
            },
        },
{
    let devices = parse_cuda_devices(visible);
    let ghost names = cuda_devices(visible@);
    assert(texts(devices@).len() == devices@.len());
    if devices.len() == 0 {
        return Err(Failure::new("CUDA device selection is empty"));
    }
    let rows = lines(report);
    let mut free = DomainBytes::new();
    let mut i: usize = 0;
    while i < devices.len()
        invariant
            i <= devices@.len(),
            names == texts(devices@),
            names == cuda_devices(visible@),
            texts(rows@) == lines_of(report@),
            devices@.len() > 0,
            reported_bytes(lines_of(report@), names.take(i as int)) == Ok::<
                Seq<(DomainView, nat)>,
                Seq<char>,
            >(free@),
        decreases devices@.len() - i,
    {
        assert(names.take(i as int + 1).drop_last() =~= names.take(i as int));
        assert(names.take(i as int + 1).last() == devices@[i as int]@);
        let mib: u64 = match free_mib(&rows, devices[i].as_str()) {
            Some(n) => n,
            None => {
                proof {
                    lemma_reported_prefix(lines_of(report@), names, i as int + 1);
                }
                return Err(
                    Failure::about(
                        "selected CUDA device was not reported by nvidia-smi: ",
                        devices[i].as_str(),
                    ),
                );
            },
        };
        match mib.checked_mul(MIB) {
            Some(bytes) => {
                free.set(&MemoryDomain::Cuda(devices[i].as_str().to_owned()), bytes);
            },
            None => {
                proof {
                    lemma_reported_prefix(lines_of(report@), names, i as int + 1);
                }
                return Err(Failure::new("CUDA capacity overflow"));
            },
        }
        i += 1;
    }
    assert(names.take(i as int) =~= names);
    Ok(free)
}

proof fn lemma_reported_prefix(rows: Seq<Seq<char>>, devices: Seq<Seq<char>>, n: int)
    requires
        0 <= n <= devices.len(),
        reported_bytes(rows, devices.take(n)) is Err,
    ensures
        reported_bytes(rows, devices) == reported_bytes(rows, devices.take(n)),
    decreases devices.len() - n,
{
    if n < devices.len() {
        assert(devices.take(n + 1).drop_last() =~= devices.take(n));
        lemma_reported_prefix(rows, devices, n + 1);
    } else {
        assert(devices.take(n) =~= devices);
    }
}

/// Sets every amount of a list.
pub open spec fn overlaid(s: Seq<(DomainView, nat)>, more: Seq<(DomainView, nat)>) -> Seq<
    (DomainView, nat),
>
    decreases more.len(),
{
    if more.len() == 0 {
        s
    } else {
        with_amount(overlaid(s, more.drop_last()), more.last().0, more.last().1)
    }
}

/// What the machine has to give: its free memory, which is also that of a unified
/// memory, and the free memory of the devices.
pub open spec fn available(memory: nat, devices: Seq<(DomainView, nat)>) -> Seq<(DomainView, nat)> {
    overlaid(
        Seq::<(DomainView, nat)>::empty()
            .push((DomainView::Host, memory))
            .push((DomainView::Unified("system"@), memory)),
        devices,
    )
}

/// What the machine has to give; `devices` is what was found of the devices that are
/// asked for, if any are.
pub fn detect_available_resources(
    available_memory: u64,
    devices: Option<Result<DomainBytes, Failure>>,
) -> (r: Result<DomainBytes, Failure>)
    ensures
        match r {
            Ok(d) => available_memory > 0 && match devices {
                None => d@ == available(available_memory as nat, seq![]),
                Some(Ok(found)) => d@ == available(available_memory as nat, found@),
                Some(Err(_)) => false,
            },
            Err(e) => if available_memory == 0 {
                e@ == "available system memory could not be detected"@
            } else {
                devices matches Some(Err(f)) && e@ == f@
            },
        },
{
    if available_memory == 0 {
        return Err(Failure::new("available system memory could not be detected"));
    }
    let mut domains = DomainBytes::new();
    domains.entries.push((MemoryDomain::Host, available_memory));
    domains.entries.push((MemoryDomain::Unified("system".to_owned()), available_memory));
    assert(domains@ =~= available(available_memory as nat, seq![]));
    match devices {
        None => Ok(domains),
        Some(Err(e)) => Err(e),
        Some(Ok(found)) => {
            let ghost start = domains@;
            let mut i: usize = 0;
            while i < found.entries.len()
                invariant
                    i <= found.entries@.len(),
                    domains@ == overlaid(start, found@.take(i as int)),
                decreases found.entries@.len() - i,
            {
                assert(found@.take(i as int + 1).drop_last() =~= found@.take(i as int));
                assert(found@.take(i as int + 1).last() == found@[i as int]);
                domains.set(&found.entries[i].0, found.entries[i].1);
                i += 1;
            }
            assert(found@.take(i as int) =~= found@);
            Ok(domains)
        },
    }
}

/// A projector adds its own part and widens the overheads; what the model needs for its
/// context stays as it is.
pub proof fn a_projector_leaves_the_context_parts(
    weights: nat,
    projector: nat,
    ctx: nat,
    default_ctx: nat,
)
    requires
        projector > 0,
        estimated_parts(weights, projector, ctx, default_ctx) is Some,
    ensures
        estimated_parts(weights, 0, ctx, default_ctx) is Some,
        ({
            let with = estimated_parts(weights, projector, ctx, default_ctx)->0;
            let without = estimated_parts(weights, 0, ctx, default_ctx)->0;
            &&& with[0] == without[0]
            &&& with[1] == without[1]
            &&& with[2] == without[2]
            &&& with[3].1 >= without[3].1
            &&& with[4].1 >= without[4].1
            &&& weights * 8 / 100 >= 384 * MIB && projector * 8 >= 100 ==> with[3].1
                > without[3].1
            &&& weights * 4 / 100 >= 160 * MIB && projector * 4 >= 100 ==> with[4].1
                > without[4].1
            &&& with.len() == without.len() + 1
            &&& with[5] == ("mmproj"@, projector)
        }),
{
}

/// What the parts of one name come to, before they are assigned to memories.
pub open spec fn part_bytes(parts: Seq<(Seq<char>, nat)>, name: Seq<char>) -> nat
    decreases parts.len(),
{
    if parts.len() == 0 {
        0
    } else if parts.last().0 == name {
        part_bytes(parts.drop_last(), name) + parts.last().1
    } else {
        part_bytes(parts.drop_last(), name)
    }
}

/// What all parts come to, before they are assigned to memories.
pub open spec fn all_part_bytes(parts: Seq<(Seq<char>, nat)>) -> nat
    decreases parts.len(),
{
    if parts.len() == 0 {
        0
    } else {
        all_part_bytes(parts.drop_last()) + parts.last().1
    }
}

/// What parts come to once they are assigned to memories.
pub proof fn lemma_assigned_parts(
    parts: Seq<(Seq<char>, nat)>,
    domains: Seq<DomainView>,
    replicate: bool,
    name: Seq<char>,
)
    requires
        domains.len() > 0,
    ensures
        bytes_named(assigned_parts(parts, domains, replicate), name) == copies(domains, replicate)
            * part_bytes(parts, name),
        component_sum(assigned_parts(parts, domains, replicate)) == copies(domains, replicate)
            * all_part_bytes(parts),
    decreases parts.len(),
{
    let n = copies(domains, replicate);
    if parts.len() == 0 {
        assert(n * 0 == 0);
    } else {
        let rest = parts.drop_last();
        let (own, bytes) = parts.last();
        lemma_assigned_parts(rest, domains, replicate, name);
        lemma_assigned_bytes(own, bytes, domains, replicate, name);
        lemma_parts_add(
            assigned_parts(rest, domains, replicate),
            assigned(own, bytes, domains, replicate),
            name,
            DomainView::Host,
        );
        let (x, y) = (part_bytes(rest, name), all_part_bytes(rest));
        assert(n * (x + bytes) == n * x + n * bytes) by (nonlinear_arith);
        assert(n * (y + bytes) == n * y + n * bytes) by (nonlinear_arith);
    }
}

proof fn lemma_parts_grow(
    parts: Seq<(Seq<char>, nat)>,
    more: Seq<(Seq<char>, nat)>,
    domains: Seq<DomainView>,
    replicate: bool,
    d: DomainView,
)
    requires
        parts.len() <= more.len(),
        forall|i: int|
            0 <= i < parts.len() ==> (#[trigger] parts[i]).0 == more[i].0 && parts[i].1
                <= more[i].1,
    ensures
        needed_of(assigned_parts(parts, domains, replicate), d) <= needed_of(
            assigned_parts(more, domains, replicate),
            d,
        ),
    decreases more.len(),
{
    if more.len() > 0 {
        let last = more.last();
        let rest = more.drop_last();
        lemma_parts_add(
            assigned_parts(rest, domains, replicate),
            assigned(last.0, last.1, domains, replicate),
            last.0,
            d,
        );
        if parts.len() == more.len() {
            let own = parts.drop_last();
            assert forall|i: int| 0 <= i < own.len() implies (#[trigger] own[i]).0 == rest[i].0
                && own[i].1 <= rest[i].1 by {
                assert(own[i] == parts[i] && rest[i] == more[i]);
            }
            lemma_parts_grow(own, rest, domains, replicate, d);
            assert(parts[parts.len() - 1].0 == last.0);
            lemma_parts_add(
                assigned_parts(own, domains, replicate),
                assigned(last.0, parts.last().1, domains, replicate),
                last.0,
                d,
            );
            lemma_assigned_grows(last.0, parts.last().1, last.1, domains, replicate, d);
        } else {
            assert forall|i: int| 0 <= i < parts.len() implies (#[trigger] parts[i]).0
                == rest[i].0 && parts[i].1 <= rest[i].1 by {
                assert(rest[i] == more[i]);
            }
            lemma_parts_grow(parts, rest, domains, replicate, d);
        }
    }
}

proof fn lemma_part_names()
    ensures
        "weights"@ != "kv_cache"@,
        "weights"@ != "activation"@,
        "weights"@ != "framework_overhead"@,
        "weights"@ != "allocator_slack"@,
        "weights"@ != "mmproj"@,
        "kv_cache"@ != "activation"@,
        "kv_cache"@ != "framework_overhead"@,
        "kv_cache"@ != "allocator_slack"@,
        "kv_cache"@ != "mmproj"@,
        "activation"@ != "framework_overhead"@,
        "activation"@ != "allocator_slack"@,
        "activation"@ != "mmproj"@,
        "framework_overhead"@ != "allocator_slack"@,
        "framework_overhead"@ != "mmproj"@,
        "allocator_slack"@ != "mmproj"@,
{
    reveal_strlit("weights");
    reveal_strlit("kv_cache");
    reveal_strlit("activation");
    reveal_strlit("framework_overhead");
    reveal_strlit("allocator_slack");
    reveal_strlit("mmproj");
    assert("weights"@.len() == 7);
    assert("kv_cache"@.len() == 8);
    assert("activation"@.len() == 10);
    assert("framework_overhead"@.len() == 18);
    assert("allocator_slack"@.len() == 15);
    assert("mmproj"@.len() == 6);
}

/// What each of the estimated parts comes to.
pub proof fn lemma_estimated_bytes(weights: nat, projector: nat, ctx: nat, default_ctx: nat)
    requires
        estimated_parts(weights, projector, ctx, default_ctx) is Some,
    ensures
        ({
            let parts = estimated_parts(weights, projector, ctx, default_ctx)->0;
            &&& part_bytes(parts, "weights"@) == parts[0].1
            &&& part_bytes(parts, "kv_cache"@) == parts[1].1
            &&& part_bytes(parts, "activation"@) == parts[2].1
            &&& part_bytes(parts, "framework_overhead"@) == parts[3].1
            &&& part_bytes(parts, "allocator_slack"@) == parts[4].1
            &&& part_bytes(parts, "mmproj"@) == projector
            &&& all_part_bytes(parts) == parts[0].1 + parts[1].1 + parts[2].1 + parts[3].1
                + parts[4].1 + projector
        }),
{
    lemma_part_names();
    let parts = estimated_parts(weights, projector, ctx, default_ctx)->0;
    let five = if projector > 0 {
        parts.drop_last()
    } else {
        parts
    };
    let four = five.drop_last();
    let three = four.drop_last();
    let two = three.drop_last();
    let one = two.drop_last();
    assert(one.drop_last() =~= seq![]);
    assert(five.len() == 5);
    reveal_with_fuel(part_bytes, 7);
    reveal_with_fuel(all_part_bytes, 7);
}

/// The budget of a runtime whose model and projector have the given sizes.
pub open spec fn budget_with(
    payload: JsonView,
    capabilities: Seq<Seq<char>>,
    size: u64,
    projector: Option<u64>,
    ctx: nat,
    default_ctx: nat,
    visible: Option<Seq<char>>,
    replicate: bool,
    unified: bool,
) -> Result<BudgetView, Seq<char>> {
    budgeted(
        payload,
        capabilities,
        Ok(Some(size)),
        Ok(projector),
        ctx,
        default_ctx,
        visible,
        replicate,
        unified,
    )
}

/// With a projector a budget has the projector as one more part and needs more altogether.
/// What the model and its context need stays as it is, and the overheads grow, where they
/// stand above their floors and the projector is not too small to count.
pub proof fn a_projector_grows_the_budget(
    payload: JsonView,
    capabilities: Seq<Seq<char>>,
    size: u64,
    projector: u64,
    ctx: nat,
    default_ctx: nat,
    visible: Option<Seq<char>>,
    replicate: bool,
    unified: bool,
)
    requires
        stated_total(payload) is None,
        projector > 0,
        budget_with(
            payload,
            capabilities,
            size,
            Some(projector),
            ctx,
            default_ctx,
            visible,
            replicate,
            unified,
        ) is Ok,
    ensures
        ({
            let text = budget_with(
                payload,
                capabilities,
                size,
                None,
                ctx,
                default_ctx,
                visible,
                replicate,
                unified,
            );
            let visual = budget_with(
                payload,
                capabilities,
                size,
                Some(projector),
                ctx,
                default_ctx,
                visible,
                replicate,
                unified,
            );
            let a = text->Ok_0.components;
            let b = visual->Ok_0.components;
            &&& text is Ok
            &&& bytes_named(a, "weights"@) == bytes_named(b, "weights"@)
            &&& bytes_named(a, "kv_cache"@) == bytes_named(b, "kv_cache"@)
            &&& bytes_named(a, "activation"@) == bytes_named(b, "activation"@)
            &&& bytes_named(a, "framework_overhead"@) <= bytes_named(b, "framework_overhead"@)
            &&& bytes_named(a, "allocator_slack"@) <= bytes_named(b, "allocator_slack"@)
            &&& size * 8 / 100 >= 384 * MIB && projector * 8 >= 100 ==> bytes_named(
                a,
                "framework_overhead"@,
            ) < bytes_named(b, "framework_overhead"@)
            &&& size * 4 / 100 >= 160 * MIB && projector * 4 >= 100 ==> bytes_named(
                a,
                "allocator_slack"@,
            ) < bytes_named(b, "allocator_slack"@)
            &&& bytes_named(a, "mmproj"@) == 0
            &&& bytes_named(b, "mmproj"@) >= projector
            &&& sum(text->Ok_0.domains) + projector <= sum(visual->Ok_0.domains)
        }),
{
    let domains = domains_for(capabilities, visible, unified)->Ok_0;
    let weights = at_least(size as nat, 1);
    let p = projector as nat;
    let c = at_least(ctx, 1);
    let n = copies(domains, replicate);
    a_projector_leaves_the_context_parts(weights, p, c, default_ctx);
    let with = estimated_parts(weights, p, c, default_ctx)->0;
    let without = estimated_parts(weights, 0, c, default_ctx)->0;
    let a = assigned_parts(without, domains, replicate);
    let b = assigned_parts(with, domains, replicate);
    lemma_fitting_totals(a);
    lemma_fitting_totals(b);
    assert forall|d: DomainView| #[trigger] needed_of(a, d) <= u64::MAX by {
        lemma_parts_grow(without, with, domains, replicate, d);
        assert(needed_of(b, d) <= u64::MAX);
    }
    lemma_estimated_bytes(weights, p, c, default_ctx);
    lemma_estimated_bytes(weights, 0, c, default_ctx);
    lemma_assigned_parts(without, domains, replicate, "weights"@);
    lemma_assigned_parts(with, domains, replicate, "weights"@);
    lemma_assigned_parts(without, domains, replicate, "kv_cache"@);
    lemma_assigned_parts(with, domains, replicate, "kv_cache"@);
    lemma_assigned_parts(without, domains, replicate, "activation"@);
    lemma_assigned_parts(with, domains, replicate, "activation"@);
    lemma_assigned_parts(without, domains, replicate, "framework_overhead"@);
    lemma_assigned_parts(with, domains, replicate, "framework_overhead"@);
    lemma_assigned_parts(without, domains, replicate, "allocator_slack"@);
    lemma_assigned_parts(with, domains, replicate, "allocator_slack"@);
    lemma_assigned_parts(without, domains, replicate, "mmproj"@);
    lemma_assigned_parts(with, domains, replicate, "mmproj"@);
    totals_add_up(a, DomainView::Host);
    totals_add_up(b, DomainView::Host);
    lemma_times(n, without[3].1, with[3].1);
    lemma_times(n, without[4].1, with[4].1);
    lemma_times(n, 0, p);
    lemma_times(n, all_part_bytes(without) + p, all_part_bytes(with));
    lemma_times(n, all_part_bytes(without), all_part_bytes(without) + p);
    let x = all_part_bytes(without);
    assert(n * (x + p) == n * x + n * p) by (nonlinear_arith);
}

/// Multiplying keeps an order.
pub proof fn lemma_times(n: nat, a: nat, b: nat)
    requires
        n > 0,
        a <= b,
    ensures
        n * a <= n * b,
        a < b ==> n * a < n * b,
        n * b >= b,
        n * 0 == 0,
{
    assert(n * a <= n * b) by (nonlinear_arith)
        requires
            a <= b,
    ;
    assert(a < b ==> n * a < n * b) by (nonlinear_arith)
        requires
            n > 0,
    ;
    assert(n * b >= b) by (nonlinear_arith)
        requires
            n > 0,
    ;
}

/// A client can ask for more than the estimate but not for less.
pub proof fn a_stated_total_covers_the_estimate(
    total: nat,
    weights: nat,
    projector: nat,
    ctx: nat,
    default_ctx: nat,
    domains: Seq<DomainView>,
    replicate: bool,
)
    requires
        sized_budget(Some(total), weights, projector, ctx, default_ctx, domains, replicate) is Ok,
    ensures
        sized_budget(None, weights, projector, ctx, default_ctx, domains, replicate) is Ok,
        ({
            let estimate = sized_budget(
                None,
                weights,
                projector,
                ctx,
                default_ctx,
                domains,
                replicate,
            )->Ok_0;
            total >= least_total(estimate.components, replicate)
        }),
{
}

/// A longer context never needs less.
pub proof fn a_longer_context_needs_no_less(bytes: nat, ctx: nat, longer: nat, default_ctx: nat)
    requires
        ctx <= longer,
    ensures
        per_context(bytes, ctx, default_ctx) <= per_context(bytes, longer, default_ctx),
{
    assert(bytes * ctx <= bytes * longer) by (nonlinear_arith)
        requires
            ctx <= longer,
    ;
    if default_ctx > 0 {
        assert(bytes * ctx / default_ctx <= bytes * longer / default_ctx) by (nonlinear_arith)
            requires
                bytes * ctx <= bytes * longer,
                default_ctx > 0,
        ;
        assert(bytes * ctx / default_ctx <= bytes * ctx) by (nonlinear_arith)
            requires
                default_ctx > 0,
        ;
    }
}

} // verus!
