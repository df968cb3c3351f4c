//! What a runtime needs of each memory, part by part.
use vstd::prelude::*;

use crate::failure::Failure;
use crate::json::{no_fields, views, Fields, Json, JsonView};
use crate::resources::domains::{
    adding_to_an_amount, amount, amounts_payload, domain_key, found, listed, setting_an_amount,
    single, sum, with_more, DomainBytes, DomainView, MemoryDomain,
};

verus! {

/// A part of what a runtime needs.
#[derive(Debug)]
pub struct BudgetComponent {
    pub name: String,
    pub domain: MemoryDomain,
    pub bytes: u64,
}

pub struct ComponentView {
    pub name: Seq<char>,
    pub domain: DomainView,
    pub bytes: nat,
}

impl View for BudgetComponent {
    type V = ComponentView;

    open spec fn view(&self) -> ComponentView {
        ComponentView { name: self.name@, domain: self.domain@, bytes: self.bytes as nat }
    }
}

pub open spec fn component_views(v: Seq<BudgetComponent>) -> Seq<ComponentView> {
    Seq::new(v.len(), |i: int| v[i]@)
}

pub open spec fn domain_views(v: Seq<MemoryDomain>) -> Seq<DomainView> {
    Seq::new(v.len(), |i: int| v[i]@)
}

/// What all parts need of each memory.
pub open spec fn totals(cs: Seq<ComponentView>) -> Seq<(DomainView, nat)>
    decreases cs.len(),
{
    if cs.len() == 0 {
        seq![]
    } else {
        with_more(totals(cs.drop_last()), cs.last().domain, cs.last().bytes)
    }
}

/// All parts together.
pub open spec fn component_sum(cs: Seq<ComponentView>) -> nat
    decreases cs.len(),
{
    if cs.len() == 0 {
        0
    } else {
        component_sum(cs.drop_last()) + cs.last().bytes
    }
}

/// What the parts need of one memory.
pub open spec fn needed_of(cs: Seq<ComponentView>, d: DomainView) -> nat
    decreases cs.len(),
{
    if cs.len() == 0 {
        0
    } else if cs.last().domain == d {
        needed_of(cs.drop_last(), d) + cs.last().bytes
    } else {
        needed_of(cs.drop_last(), d)
    }
}

/// Whether what is needed of some memory is too large to write down.
pub open spec fn totals_overflow(cs: Seq<ComponentView>) -> bool {
    exists|i: int|
        0 <= i < cs.len() && #[trigger] amount(totals(cs.take(i)), cs[i].domain) + cs[i].bytes
            > u64::MAX
}

/// What is needed of a memory altogether is what its parts need.
pub proof fn totals_add_up(cs: Seq<ComponentView>, d: DomainView)
    ensures
        amount(totals(cs), d) == needed_of(cs, d),
        sum(totals(cs)) == component_sum(cs),
        single(totals(cs)),
        listed(totals(cs), d) <==> exists|i: int|
            0 <= i < cs.len() && (#[trigger] cs[i]).domain == d,
    decreases cs.len(),
{
    if cs.len() > 0 {
        let rest = cs.drop_last();
        let last = cs.last();
        totals_add_up(rest, d);
        totals_add_up(rest, last.domain);
        let before = totals(rest);
        setting_an_amount(before, last.domain, amount(before, last.domain) + last.bytes, d);
        adding_to_an_amount(before, last.domain, last.bytes);
        assert(cs[cs.len() - 1] == last);
        if exists|i: int| 0 <= i < rest.len() && (#[trigger] rest[i]).domain == d {
            let i = choose|i: int| 0 <= i < rest.len() && (#[trigger] rest[i]).domain == d;
            assert(cs[i].domain == d);
        }
        if d != last.domain {
            if exists|i: int| 0 <= i < cs.len() && (#[trigger] cs[i]).domain == d {
                let i = choose|i: int| 0 <= i < cs.len() && (#[trigger] cs[i]).domain == d;
                assert(rest[i] == cs[i]);
            }
        }
    }
}

/// What a runtime needs.
#[derive(Debug)]
pub struct ResourceBudget {
    pub components: Vec<BudgetComponent>,
    pub domains: DomainBytes,
}

pub struct BudgetView {
    pub components: Seq<ComponentView>,
    pub domains: Seq<(DomainView, nat)>,
}

impl View for ResourceBudget {
    type V = BudgetView;

    open spec fn view(&self) -> BudgetView {
        BudgetView { components: component_views(self.components@), domains: self.domains@ }
    }
}

/// The budget with the given parts.
pub open spec fn budget_of(cs: Seq<ComponentView>) -> BudgetView {
    BudgetView { components: cs, domains: totals(cs) }
}

pub open spec fn component_payload(c: ComponentView) -> JsonView {
    JsonView::Object(
        no_fields()
            .push(("name"@, JsonView::Text(c.name)))
            .push(("domain"@, JsonView::Text(domain_key(c.domain))))
            .push(("bytes"@, JsonView::Unsigned(c.bytes))),
    )
}

pub open spec fn budget_payload(b: BudgetView) -> JsonView {
    let components = Seq::new(b.components.len(), |i: int| component_payload(b.components[i]));
    JsonView::Object(
        no_fields()
            .push(("domains_bytes"@, amounts_payload(b.domains)))
            .push(("components"@, JsonView::Array(components))),
    )
}

impl ResourceBudget {
    /// The budget with the given parts, unless some memory would be needed beyond what
    /// can be written down.
    pub fn from_components(components: Vec<BudgetComponent>) -> (r: Result<ResourceBudget, Failure>)
        ensures
            match r {
                Ok(b) => !totals_overflow(component_views(components@)) && b@ == budget_of(
                    component_views(components@),
                ),
                Err(e) => totals_overflow(component_views(components@)) && e@
                    == "resource budget overflow"@,
            },
    {
        let ghost cs = component_views(components@);
        let mut domains = DomainBytes::new();
        let mut i: usize = 0;
        while i < components.len()
            invariant
                i <= components@.len(),
                cs == component_views(components@),
                domains@ == totals(cs.take(i as int)),
                forall|j: int|
                    0 <= j < i ==> !(#[trigger] amount(totals(cs.take(j)), cs[j].domain)
                        + cs[j].bytes > u64::MAX),
            decreases components@.len() - i,
        {
            assert(cs.take(i as int + 1).drop_last() =~= cs.take(i as int));
            assert(cs.take(i as int + 1).last() == cs[i as int]);
            if !domains.add(&components[i].domain, components[i].bytes) {
                assert(amount(totals(cs.take(i as int)), cs[i as int].domain) + cs[i as int].bytes
                    > u64::MAX);
                return Err(Failure::new("resource budget overflow"));
            }
            i += 1;
        }
        assert(cs.take(i as int) =~= cs);
        Ok(ResourceBudget { components, domains })
    }

    /// What is needed of each memory.
    pub fn domains(&self) -> (r: &DomainBytes)
        ensures
            r@ == self@.domains,
    {
        &self.domains
    }

    /// The parts.
    pub fn components(&self) -> (r: &Vec<BudgetComponent>)
        ensures
            component_views(r@) == self@.components,
    {
        &self.components
    }

    pub fn copy(&self) -> (r: ResourceBudget)
        ensures
            r@ == self@,
    {
        let components = copy_components(&self.components);
        ResourceBudget { components, domains: self.domains.copy() }
    }

    /// The budget as a JSON object.
    pub fn payload(&self) -> (r: Json)
        ensures
            r@ == budget_payload(self@),
    {
        let mut items: Vec<Json> = Vec::new();
        let mut i: usize = 0;
        while i < self.components.len()
            invariant
                i <= self.components@.len(),
                items@.len() == i,
                forall|j: int|
                    0 <= j < i ==> #[trigger] items@[j]@ == component_payload(
                        self@.components[j],
                    ),
            decreases self.components@.len() - i,
        {
            let c = &self.components[i];
            let mut fields = Fields::new();
            fields.text("name", c.name.as_str());
            fields.text("domain", c.domain.key().as_str());
            fields.number("bytes", c.bytes);
            items.push(fields.done());
            i += 1;
        }
        assert(views(items@) =~= Seq::new(
            self@.components.len(),
            |i: int| component_payload(self@.components[i]),
        ));
        let mut fields = Fields::new();
        fields.put("domains_bytes", self.domains.payload());
        fields.put("components", Json::array(items));
        fields.done()
    }
}

pub fn copy_components(v: &Vec<BudgetComponent>) -> (r: Vec<BudgetComponent>)
    ensures
        component_views(r@) == component_views(v@),
{
    let mut r: Vec<BudgetComponent> = Vec::new();
    let mut i: usize = 0;
    while i < v.len()
        invariant
            i <= v@.len(),
            r@.len() == i,
            forall|j: int| 0 <= j < i ==> #[trigger] r@[j]@ == v@[j]@,
        decreases v@.len() - i,
    {
        r.push(
            BudgetComponent {
                name: v[i].name.as_str().to_owned(),
                domain: v[i].domain.copy(),
                bytes: v[i].bytes,
            },
        );
        i += 1;
    }
    assert(component_views(r@) =~= component_views(v@));
    r
}

pub open spec fn no_component_message() -> Seq<char> {
    "resource component requires non-zero bytes and at least one domain"@
}

/// The share of one of `count` memories in an amount: an equal part, and one more byte
/// for the first ones where the parts do not come out even.
pub open spec fn share(bytes: nat, count: nat, i: int) -> nat {
    if i < bytes % count {
        bytes / count + 1
    } else {
        bytes / count
    }
}

/// A part spread over the given memories.
pub open spec fn spread(name: Seq<char>, bytes: nat, domains: Seq<DomainView>) -> Seq<
    ComponentView,
> {
    Seq::new(
        domains.len(),
        |i: int|
            ComponentView { name, domain: domains[i], bytes: share(bytes, domains.len(), i) },
    )
}

/// A part in full in each of the given memories.
pub open spec fn repeated(name: Seq<char>, bytes: nat, domains: Seq<DomainView>) -> Seq<
    ComponentView,
> {
    Seq::new(domains.len(), |i: int| ComponentView { name, domain: domains[i], bytes })
}

pub open spec fn assigned(
    name: Seq<char>,
    bytes: nat,
    domains: Seq<DomainView>,
    replicate: bool,
) -> Seq<ComponentView> {
    if replicate {
        repeated(name, bytes, domains)
    } else {
        spread(name, bytes, domains)
    }
}

/// A part of what a runtime needs: in full in each of the memories where it is not
/// known which of them will hold it, and spread over them otherwise.
pub fn assign_component(
    name: &str,
    bytes: u64,
    domains: &Vec<MemoryDomain>,
    replicate: bool,
) -> (r: Result<Vec<BudgetComponent>, Failure>)
    ensures
        match r {
            Ok(cs) => domains@.len() > 0 && bytes > 0 && component_views(cs@) == assigned(
                name@,
                bytes as nat,
                domain_views(domains@),
                replicate,
            ),
            Err(e) => (domains@.len() == 0 || bytes == 0) && e@ == no_component_message(),
        },
{
    if replicate {
        if domains.len() == 0 || bytes == 0 {
            return Err(
                Failure::new("resource component requires non-zero bytes and at least one domain"),
            );
        }
        let mut cs: Vec<BudgetComponent> = Vec::new();
        let mut i: usize = 0;
        while i < domains.len()
            invariant
                i <= domains@.len(),
                cs@.len() == i,
                forall|j: int|
                    0 <= j < i ==> #[trigger] cs@[j]@ == (ComponentView {
                        name: name@,
                        domain: domains@[j]@,
                        bytes: bytes as nat,
                    }),
            decreases domains@.len() - i,
        {
            cs.push(
                BudgetComponent { name: name.to_owned(), domain: domains[i].copy(), bytes },
            );
            i += 1;
        }
        assert(component_views(cs@) =~= repeated(name@, bytes as nat, domain_views(domains@)));
        return Ok(cs);
    }
    distribute_component(name, bytes, domains)
}

/// A part of what a runtime needs, spread over the given memories.
pub fn distribute_component(name: &str, bytes: u64, domains: &Vec<MemoryDomain>) -> (r: Result<
    Vec<BudgetComponent>,
    Failure,
>)
    ensures
        match r {
            Ok(cs) => domains@.len() > 0 && bytes > 0 && component_views(cs@) == spread(
                name@,
                bytes as nat,
                domain_views(domains@),
            ),
            Err(e) => (domains@.len() == 0 || bytes == 0) && e@ == no_component_message(),
        },
{
    let count: u64 = domains.len() as u64;
    if count == 0 || bytes == 0 {
        return Err(
            Failure::new("resource component requires non-zero bytes and at least one domain"),
        );
    }
    let base: u64 = bytes / count;
    let remainder: u64 = bytes % count;
    let mut cs: Vec<BudgetComponent> = Vec::new();
    let mut i: usize = 0;
    while i < domains.len()
        invariant
            i <= domains@.len(),
            count == domains@.len(),
            count > 0,
            base == bytes / count,
            remainder == bytes % count,
            cs@.len() == i,
            forall|j: int|
                0 <= j < i ==> #[trigger] cs@[j]@ == (ComponentView {
                    name: name@,
                    domain: domains@[j]@,
                    bytes: share(bytes as nat, count as nat, j),
                }),
        decreases domains@.len() - i,
    {
        let extra: u64 = if (i as u64) < remainder {
            1
        } else {
            0
        };
        if extra == 1 {
            assert(base < u64::MAX) by (nonlinear_arith)
                requires
                    base == bytes / count,
                    remainder == bytes % count,
                    0 < remainder,
                    count > 0,
            ;
        }
        cs.push(
            BudgetComponent {
                name: name.to_owned(),
                domain: domains[i].copy(),
                bytes: base + extra,
            },
        );
        i += 1;
    }
    assert(component_views(cs@) =~= spread(name@, bytes as nat, domain_views(domains@)));
    Ok(cs)
}

pub proof fn lemma_component_sum_push(cs: Seq<ComponentView>, c: ComponentView)
    ensures
        component_sum(cs.push(c)) == component_sum(cs) + c.bytes,
{
    assert(cs.push(c).drop_last() =~= cs);
}

proof fn lemma_spread_prefix(name: Seq<char>, bytes: nat, domains: Seq<DomainView>, k: nat)
    requires
        domains.len() > 0,
        k <= domains.len(),
    ensures
        component_sum(spread(name, bytes, domains).take(k as int)) == k * (bytes / domains.len())
            + (if k < bytes % domains.len() {
            k
        } else {
            bytes % domains.len()
        }),
    decreases k,
{
    let all = spread(name, bytes, domains);
    let q = bytes / domains.len();
    if k > 0 {
        let p = (k - 1) as nat;
        lemma_spread_prefix(name, bytes, domains, p);
        assert(all.take(k as int).drop_last() =~= all.take(p as int));
        assert(k * q == p * q + q) by (nonlinear_arith)
            requires
                k == p + 1,
        ;
    } else {
        assert(all.take(0) =~= Seq::<ComponentView>::empty());
        assert(0 * q == 0) by (nonlinear_arith);
    }
}

/// A part that is spread over several memories is spread completely: the shares add up
/// to the part, and no two of them differ by more than one byte.
pub proof fn shares_add_up(name: Seq<char>, bytes: nat, domains: Seq<DomainView>)
    requires
        domains.len() > 0,
    ensures
        component_sum(spread(name, bytes, domains)) == bytes,
        forall|i: int, j: int|
            0 <= i < domains.len() && 0 <= j < domains.len() ==> #[trigger] share(
                bytes,
                domains.len(),
                i,
            ) <= #[trigger] share(bytes, domains.len(), j) + 1,
{
    let n = domains.len();
    let all = spread(name, bytes, domains);
    lemma_spread_prefix(name, bytes, domains, n);
    assert(all.take(n as int) =~= all);
    assert(n * (bytes / n) + bytes % n == bytes && bytes % n < n) by (nonlinear_arith)
        requires
            n > 0,
    ;
}

/// A part that is spread or repeated lies in the given memories alone.
pub proof fn parts_stay_in_their_memories(
    name: Seq<char>,
    bytes: nat,
    domains: Seq<DomainView>,
    replicate: bool,
    d: DomainView,
)
    requires
        !domains.contains(d),
    ensures
        found(totals(assigned(name, bytes, domains, replicate)), d) is None,
{
    let cs = assigned(name, bytes, domains, replicate);
    totals_add_up(cs, d);
    if exists|i: int| 0 <= i < cs.len() && (#[trigger] cs[i]).domain == d {
        let i = choose|i: int| 0 <= i < cs.len() && (#[trigger] cs[i]).domain == d;
        assert(domains[i] == d);
    }
}

proof fn lemma_needed_once(cs: Seq<ComponentView>, d: DomainView, i: int)
    requires
        0 <= i < cs.len(),
        cs[i].domain == d,
        forall|j: int| 0 <= j < cs.len() && j != i ==> (#[trigger] cs[j]).domain != d,
    ensures
        needed_of(cs, d) == cs[i].bytes,
    decreases cs.len(),
{
    let rest = cs.drop_last();
    if i == cs.len() - 1 {
        lemma_needed_none(rest, d);
    } else {
        lemma_needed_once(rest, d, i);
    }
}

proof fn lemma_needed_none(cs: Seq<ComponentView>, d: DomainView)
    requires
        forall|j: int| 0 <= j < cs.len() ==> (#[trigger] cs[j]).domain != d,
    ensures
        needed_of(cs, d) == 0,
    decreases cs.len(),
{
    if cs.len() > 0 {
        assert(cs[cs.len() - 1].domain != d);
        lemma_needed_none(cs.drop_last(), d);
    }
}

/// Where it is not known which memory will hold a part, each of them is charged with
/// all of it; otherwise each is charged with its share.
pub proof fn each_memory_is_charged(
    name: Seq<char>,
    bytes: nat,
    domains: Seq<DomainView>,
    replicate: bool,
    i: int,
)
    requires
        0 <= i < domains.len(),
        domains.no_duplicates(),
    ensures
        amount(totals(assigned(name, bytes, domains, replicate)), domains[i]) == (if replicate {
            bytes
        } else {
            share(bytes, domains.len(), i)
        }),
{
    let cs = assigned(name, bytes, domains, replicate);
    totals_add_up(cs, domains[i]);
    assert forall|j: int| 0 <= j < cs.len() && j != i implies (#[trigger] cs[j]).domain
        != domains[i] by {
        assert(cs[j].domain == domains[j]);
    }
    lemma_needed_once(cs, domains[i], i);
}

/// What the parts of one name come to.
pub open spec fn bytes_named(cs: Seq<ComponentView>, name: Seq<char>) -> nat
    decreases cs.len(),
{
    if cs.len() == 0 {
        0
    } else if cs.last().name == name {
        bytes_named(cs.drop_last(), name) + cs.last().bytes
    } else {
        bytes_named(cs.drop_last(), name)
    }
}

/// Two lists of parts need together what each of them needs.
pub proof fn lemma_parts_add(
    a: Seq<ComponentView>,
    b: Seq<ComponentView>,
    name: Seq<char>,
    d: DomainView,
)
    ensures
        bytes_named(a + b, name) == bytes_named(a, name) + bytes_named(b, name),
        needed_of(a + b, d) == needed_of(a, d) + needed_of(b, d),
        component_sum(a + b) == component_sum(a) + component_sum(b),
    decreases b.len(),
{
    if b.len() == 0 {
        assert(a + b =~= a);
    } else {
        assert((a + b).drop_last() =~= a + b.drop_last());
        lemma_parts_add(a, b.drop_last(), name, d);
    }
}

proof fn lemma_one_name(cs: Seq<ComponentView>, own: Seq<char>, name: Seq<char>)
    requires
        forall|i: int| 0 <= i < cs.len() ==> (#[trigger] cs[i]).name == own,
    ensures
        bytes_named(cs, name) == (if own == name {
            component_sum(cs)
        } else {
            0
        }),
    decreases cs.len(),
{
    if cs.len() > 0 {
        assert(cs[cs.len() - 1].name == own);
        let rest = cs.drop_last();
        assert forall|i: int| 0 <= i < rest.len() implies (#[trigger] rest[i]).name == own by {
            assert(rest[i] == cs[i]);
        }
        lemma_one_name(rest, own, name);
    }
}

/// How often a part is counted that lives in the given memories.
pub open spec fn copies(domains: Seq<DomainView>, replicate: bool) -> nat {
    if replicate {
        domains.len()
    } else {
        1
    }
}

proof fn lemma_repeated_sum(name: Seq<char>, bytes: nat, domains: Seq<DomainView>)
    ensures
        component_sum(repeated(name, bytes, domains)) == domains.len() * bytes,
    decreases domains.len(),
{
    if domains.len() > 0 {
        let rest = domains.drop_last();
        lemma_repeated_sum(name, bytes, rest);
        assert(repeated(name, bytes, domains).drop_last() =~= repeated(name, bytes, rest));
        assert(domains.len() * bytes == rest.len() * bytes + bytes) by (nonlinear_arith)
            requires
                domains.len() == rest.len() + 1,
        ;
    } else {
        assert(domains.len() * bytes == 0) by (nonlinear_arith)
            requires
                domains.len() == 0,
        ;
    }
}

/// A part that is assigned to memories comes to its bytes, once or for each of them.
pub proof fn lemma_assigned_bytes(
    own: Seq<char>,
    bytes: nat,
    domains: Seq<DomainView>,
    replicate: bool,
    name: Seq<char>,
)
    requires
        domains.len() > 0,
    ensures
        component_sum(assigned(own, bytes, domains, replicate)) == copies(domains, replicate)
            * bytes,
        bytes_named(assigned(own, bytes, domains, replicate), name) == (if own == name {
            copies(domains, replicate) * bytes
        } else {
            0
        }),
{
    let cs = assigned(own, bytes, domains, replicate);
    if replicate {
        lemma_repeated_sum(own, bytes, domains);
    } else {
        shares_add_up(own, bytes, domains);
    }
    lemma_one_name(cs, own, name);
}

proof fn lemma_share(bytes: nat, count: nat, i: int)
    requires
        0 <= i < count,
    ensures
        share(bytes, count, i) == (bytes + count - 1 - i) / count as int,
{
    let q = bytes / count;
    let m = bytes % count;
    assert(bytes == q * count + m && m < count) by (nonlinear_arith)
        requires
            q == bytes / count,
            m == bytes % count,
            count > 0,
    ;
    let x = bytes + count - 1 - i;
    if i < m {
        assert(x / count as int == q + 1) by (nonlinear_arith)
            requires
                x == q * count + m + count - 1 - i,
                0 <= i < m < count,
        ;
    } else {
        assert(x / count as int == q) by (nonlinear_arith)
            requires
                x == q * count + m + count - 1 - i,
                m <= i < count,
        ;
    }
}

/// A larger part needs no less of any memory.
pub proof fn lemma_assigned_grows(
    name: Seq<char>,
    bytes: nat,
    more: nat,
    domains: Seq<DomainView>,
    replicate: bool,
    d: DomainView,
)
    requires
        bytes <= more,
    ensures
        needed_of(assigned(name, bytes, domains, replicate), d) <= needed_of(
            assigned(name, more, domains, replicate),
            d,
        ),
{
    let a = assigned(name, bytes, domains, replicate);
    let b = assigned(name, more, domains, replicate);
    assert forall|i: int| 0 <= i < a.len() implies (#[trigger] a[i]).domain == b[i].domain
        && a[i].bytes <= b[i].bytes by {
        if !replicate {
            let n = domains.len();
            lemma_share(bytes, n, i);
            lemma_share(more, n, i);
            let x = bytes + n - 1 - i;
            let y = more + n - 1 - i;
            assert(x / n as int <= y / n as int) by (nonlinear_arith)
                requires
                    x <= y,
                    n > 0,
            ;
        }
    }
    lemma_needed_grows(a, b, d);
}

proof fn lemma_needed_grows(a: Seq<ComponentView>, b: Seq<ComponentView>, d: DomainView)
    requires
        a.len() == b.len(),
        forall|i: int|
            0 <= i < a.len() ==> (#[trigger] a[i]).domain == b[i].domain && a[i].bytes
                <= b[i].bytes,
    ensures
        needed_of(a, d) <= needed_of(b, d),
    decreases a.len(),
{
    if a.len() > 0 {
        let (x, y) = (a.drop_last(), b.drop_last());
        assert forall|i: int| 0 <= i < x.len() implies (#[trigger] x[i]).domain == y[i].domain
            && x[i].bytes <= y[i].bytes by {
            assert(x[i] == a[i] && y[i] == b[i]);
        }
        lemma_needed_grows(x, y, d);
        assert(a[a.len() - 1].domain == b[a.len() - 1].domain);
    }
}

proof fn lemma_needed_prefix(cs: Seq<ComponentView>, n: int, d: DomainView)
    requires
        0 <= n <= cs.len(),
    ensures
        needed_of(cs.take(n), d) <= needed_of(cs, d),
{
    assert(cs =~= cs.take(n) + cs.skip(n));
    lemma_parts_add(cs.take(n), cs.skip(n), seq![], d);
}

/// What is needed can be written down just where what is needed of each memory can be.
pub proof fn lemma_fitting_totals(cs: Seq<ComponentView>)
    ensures
        !totals_overflow(cs) <==> forall|d: DomainView| #[trigger] needed_of(cs, d) <= u64::MAX,
{
    if !totals_overflow(cs) {
        assert forall|d: DomainView| #[trigger] needed_of(cs, d) <= u64::MAX by {
            lemma_needed_fits(cs, d, cs.len() as int);
            assert(cs.take(cs.len() as int) =~= cs);
        }
    }
    if forall|d: DomainView| #[trigger] needed_of(cs, d) <= u64::MAX {
        assert forall|i: int| 0 <= i < cs.len() implies #[trigger] amount(
            totals(cs.take(i)),
            cs[i].domain,
        ) + cs[i].bytes <= u64::MAX by {
            let d = cs[i].domain;
            totals_add_up(cs.take(i), d);
            assert(cs.take(i + 1).drop_last() =~= cs.take(i));
            lemma_needed_prefix(cs, i + 1, d);
            assert(needed_of(cs, d) <= u64::MAX);
        }
    }
}

proof fn lemma_needed_fits(cs: Seq<ComponentView>, d: DomainView, n: int)
    requires
        !totals_overflow(cs),
        0 <= n <= cs.len(),
    ensures
        needed_of(cs.take(n), d) <= u64::MAX,
    decreases n,
{
    if n > 0 {
        lemma_needed_fits(cs, d, n - 1);
        assert(cs.take(n).drop_last() =~= cs.take(n - 1));
        assert(cs.take(n).last() == cs[n - 1]);
        totals_add_up(cs.take(n - 1), d);
        assert(amount(totals(cs.take(n - 1)), cs[n - 1].domain) + cs[n - 1].bytes <= u64::MAX);
    }
}

} // verus!
