//! Whether a runtime may be loaded: what it needs is reserved first, and given back
//! where the runtime does not start.
use vstd::prelude::*;

use crate::failure::Failure;
use crate::json::{no_fields, Fields, Json, JsonView};
use crate::manager::state::{without_owner, ManagerView, RustRuntimeManager};
use crate::resources::budget::{
    component_views, copy_components, totals, totals_overflow, BudgetView, ComponentView,
    ResourceBudget,
};
use crate::resources::domains::{
    amount, domain_key, found, listed, with_amount, DomainBytes, DomainView, MemoryDomain,
};
use crate::resources::estimate::stated_total;
use crate::resources::ledger::{
    empty_ledger, entry_refusal, held, refusal, rolling_back_undoes_reserving,
    snapshots_report_what_is_held, with_reservation, with_rollback, AllocationId, LedgerView,
    ReservationId, ResourceCapacity, ResourceLedger, ResourceLedgerSnapshot, SnapshotView,
};
use crate::text::chars::text_eq;
use crate::text::compose::{has_item, texts};
use crate::text::search::{has_prefix, starts_with};

verus! {

/// The capacities after a look at the machine: what was seen to be free, together with
/// what is held. Memories that were not looked at keep the capacity they had.
pub open spec fn refreshed(l: LedgerView, observed: Seq<(DomainView, nat)>) -> Seq<
    (DomainView, nat),
>
    decreases observed.len(),
{
    if observed.len() == 0 {
        l.capacities
    } else {
        with_amount(
            refreshed(l, observed.drop_last()),
            observed.last().0,
            observed.last().1 + l.used(observed.last().0),
        )
    }
}

/// Whether some capacity becomes too large to write down.
pub open spec fn refresh_overflows(l: LedgerView, observed: Seq<(DomainView, nat)>) -> bool {
    exists|i: int|
        0 <= i < observed.len() && (#[trigger] observed[i]).1 + l.used(observed[i].0) > u64::MAX
}

/// The ledger that a look at the machine is held against: an empty one at first.
pub open spec fn ledger_or_empty(m: ManagerView) -> LedgerView {
    match m.ledger {
        Some(l) => l,
        None => empty_ledger(0, seq![]),
    }
}

/// The manager after a look at the machine.
pub open spec fn with_look(m: ManagerView, observed: Seq<(DomainView, nat)>) -> ManagerView {
    let l = ledger_or_empty(m);
    ManagerView {
        ledger: Some(
            LedgerView {
                snapshot_id: m.next_capacity_snapshot,
                capacities: refreshed(l, observed),
                ..l
            },
        ),
        next_capacity_snapshot: (m.next_capacity_snapshot + 1) as u64,
        ..m
    }
}

/// The first memory of a request that one runtime has to itself.
pub open spec fn first_exclusive(m: ManagerView, entries: Seq<(DomainView, nat)>) -> Option<
    DomainView,
>
    decreases entries.len(),
{
    if entries.len() == 0 {
        None
    } else if is_exclusive(m, entries[0].0) {
        Some(entries[0].0)
    } else {
        first_exclusive(m, entries.drop_first())
    }
}

/// Whether one runtime has a memory to itself.
pub open spec fn is_exclusive(m: ManagerView, d: DomainView) -> bool {
    exists|i: int| 0 <= i < m.speculative.len() && (#[trigger] m.speculative[i]).0 == d
}

/// What comes of a request to reserve memory, given what was seen to be free: the
/// manager after it, and the number of the reservation or what stands against it.
pub open spec fn admitted(
    m: ManagerView,
    request: Seq<char>,
    entries: Seq<(DomainView, nat)>,
    observed: Seq<(DomainView, nat)>,
) -> (ManagerView, Result<u64, Seq<char>>) {
    let l = ledger_or_empty(m);
    if first_exclusive(m, entries) is Some {
        (
            m,
            Err(
                domain_key(first_exclusive(m, entries)->0)
                    + " is exclusively held by a speculative runtime"@,
            ),
        )
    } else if refresh_overflows(l, observed) {
        (m, Err("resource capacity overflow"@))
    } else if m.next_capacity_snapshot == u64::MAX {
        (m, Err("resource capacity snapshot overflow"@))
    } else {
        let looked = with_look(m, observed);
        let now = looked.ledger->0;
        match refusal(now, request, entries) {
            Some(message) => (looked, Err(message)),
            None => if now.next_id == u64::MAX {
                (looked, Err("resource ledger is out of numbers"@))
            } else {
                (
                    ManagerView { ledger: Some(with_reservation(now, entries)), ..looked },
                    Ok(now.next_id),
                )
            },
        }
    }
}

impl RustRuntimeManager {
    fn find_exclusive(&self, entries: &DomainBytes) -> (r: Option<Failure>)
        ensures
            match r {
                Some(e) => first_exclusive(self@, entries@) is Some && e@ == domain_key(
                    first_exclusive(self@, entries@)->0,
                ) + " is exclusively held by a speculative runtime"@,
                None => first_exclusive(self@, entries@) is None,
            },
    {
        let ghost all = entries@;
        let mut i: usize = 0;
        assert(all.skip(0) =~= all);
        while i < entries.entries.len()
            invariant
                i <= entries.entries@.len(),
                all == entries@,
                first_exclusive(self@, all) == first_exclusive(self@, all.skip(i as int)),
            decreases entries.entries@.len() - i,
        {
            assert(all.skip(i as int).drop_first() =~= all.skip(i as int + 1));
            let domain = &entries.entries[i].0;
            assert(all[i as int].0 == domain@);
            if self.holds_exclusively(domain) {
                return Some(
                    Failure::about(
                        domain.key().as_str(),
                        " is exclusively held by a speculative runtime",
                    ),
                );
            }
            i += 1;
        }
        None
    }

    /// Whether one runtime has a memory to itself.
    pub fn holds_exclusively(&self, domain: &MemoryDomain) -> (r: bool)
        ensures
            r == is_exclusive(self@, domain@),
    {
        let mut i: usize = 0;
        while i < self.speculative_domains.len()
            invariant
                i <= self.speculative_domains@.len(),
                forall|j: int| 0 <= j < i ==> (#[trigger] self@.speculative[j]).0 != domain@,
            decreases self.speculative_domains@.len() - i,
        {
            assert(self@.speculative[i as int].0 == self.speculative_domains@[i as int].0@);
            if self.speculative_domains[i].0.same(domain) {
                return true;
            }
            i += 1;
        }
        false
    }

    /// Reserves what a budget needs, given what was seen to be free on the machine.
    pub fn reserve_runtime_resources(
        &mut self,
        request_id: &str,
        budget: &ResourceBudget,
        observed: &DomainBytes,
    ) -> (r: Result<ReservationId, Failure>)
        requires
            old(self)@.wf(),
            budget@.domains == totals(budget@.components),
        ensures
            final(self)@.wf(),
            final(self)@ == admitted(old(self)@, request_id@, budget@.domains, observed@).0,
            match r {
                Ok(id) => admitted(old(self)@, request_id@, budget@.domains, observed@).1 == Ok::<
                    u64,
                    Seq<char>,
                >(id.value),
                Err(e) => admitted(old(self)@, request_id@, budget@.domains, observed@).1 == Err::<
                    u64,
                    Seq<char>,
                >(e@),
            },
    {
        let ghost before = self@;
        let ghost l = ledger_or_empty(before);
        if let Some(e) = self.find_exclusive(&budget.domains) {
            return Err(e);
        }
        let (mut capacities, reserved, committed) = match &self.resource_ledger {
            Some(ledger) => {
                let snapshot = ledger.snapshot();
                (snapshot.capacities, snapshot.reserved, snapshot.committed)
            },
            None => (DomainBytes::new(), DomainBytes::new(), DomainBytes::new()),
        };
        proof {
            assert forall|d: DomainView|
                #![trigger l.used(d)]
                amount(reserved@, d) + amount(committed@, d) == l.used(d) && l.used(d)
                    <= u64::MAX by {
                match before.ledger {
                    Some(x) => {
                        snapshots_report_what_is_held(x, d);
                    },
                    None => {},
                }
            }
        }
        let mut i: usize = 0;
        assert(observed@.take(0) =~= Seq::<(DomainView, nat)>::empty());
        while i < observed.entries.len()
            invariant
                i <= observed.entries@.len(),
                self@ == before,
                before.wf(),
                l == ledger_or_empty(before),
                first_exclusive(before, budget@.domains) is None,
                capacities@ == refreshed(l, observed@.take(i as int)),
                forall|d: DomainView|
                    #![trigger l.used(d)]
                    amount(reserved@, d) + amount(committed@, d) == l.used(d) && l.used(d)
                        <= u64::MAX,
                forall|j: int|
                    0 <= j < i ==> (#[trigger] observed@[j]).1 + l.used(observed@[j].0)
                        <= u64::MAX,
            decreases observed.entries@.len() - i,
        {
            assert(observed@.take(i as int + 1).drop_last() =~= observed@.take(i as int));
            let domain = &observed.entries[i].0;
            let free: u64 = observed.entries[i].1;
            assert(observed@[i as int] == (domain@, free as nat));
            assert(amount(reserved@, domain@) + amount(committed@, domain@) == l.used(domain@));
            let used: u64 = reserved.amount_of(domain) + committed.amount_of(domain);
            if free > u64::MAX - used {
                return Err(Failure::new("resource capacity overflow"));
            }
            capacities.set(domain, free + used);
            i += 1;
        }
        assert(observed@.take(i as int) =~= observed@);
        if self.next_capacity_snapshot == u64::MAX {
            return Err(Failure::new("resource capacity snapshot overflow"));
        }
        let snapshot_id: u64 = self.next_capacity_snapshot;
        self.next_capacity_snapshot = snapshot_id + 1;
        let capacity = ResourceCapacity::new(snapshot_id, capacities);
        let mut ledger = match self.resource_ledger.take() {
            Some(mut ledger) => {
                let _ = ledger.update_capacity(capacity);
                ledger
            },
            None => ResourceLedger::new(capacity),
        };
        assert(ledger@ == with_look(before, observed@).ledger->0);
        let result = ledger.reserve(request_id, budget);
        self.resource_ledger = Some(ledger);
        assert(self@ =~= admitted(before, request_id@, budget@.domains, observed@).0);
        result
    }

    /// Hands on what came of starting a runtime that holds a reservation, and gives the
    /// reservation back where it failed.
    pub fn with_reservation<T>(&mut self, id: ReservationId, result: Result<T, Failure>) -> (r:
        Result<T, Failure>)
        requires
            old(self)@.wf(),
        ensures
            final(self)@.wf(),
            r == result,
            final(self)@ == (match result {
                Ok(_) => old(self)@,
                Err(_) => given_back(old(self)@, id.value),
            }),
    {
        let ghost before = self@;
        if result.is_err() {
            if let Some(ledger) = &mut self.resource_ledger {
                let _ = ledger.rollback(id);
            }
            assert(self@ =~= given_back(before, id.value));
        }
        result
    }

    /// Takes a number for a runtime that has been started; the next one is larger.
    pub fn take_generation(&mut self) -> (r: Result<u64, Failure>)
        ensures
            match r {
                Ok(n) => n == old(self)@.next_generation && n < u64::MAX && final(self)@ == (
                ManagerView { next_generation: (n + 1) as u64, ..old(self)@ }),
                Err(e) => old(self)@.next_generation == u64::MAX && final(self)@ == old(self)@
                    && e@ == "runtime generation overflow"@,
            },
    {
        let generation: u64 = self.next_generation;
        if generation == u64::MAX {
            return Err(Failure::new("runtime generation overflow"));
        }
        self.next_generation = generation + 1;
        Ok(generation)
    }
}

/// The manager without a reservation.
pub open spec fn given_back(m: ManagerView, id: u64) -> ManagerView {
    ManagerView {
        ledger: match m.ledger {
            Some(l) => Some(with_rollback(l, id)),
            None => None,
        },
        ..m
    }
}

/// A load that fails leaves what is held as it was before its reservation.
pub proof fn a_failed_load_leaves_the_ledger(
    m: ManagerView,
    request: Seq<char>,
    components: Seq<ComponentView>,
    observed: Seq<(DomainView, nat)>,
)
    requires
        m.wf(),
        admitted(m, request, totals(components), observed).1 is Ok,
    ensures
        ({
            let (after, id) = admitted(m, request, totals(components), observed);
            let back = given_back(after, id->Ok_0);
            &&& back.ledger->0.reservations == ledger_or_empty(m).reservations
            &&& back.ledger->0.allocations == ledger_or_empty(m).allocations
            &&& back.loaded == m.loaded
            &&& back.default_model_key == m.default_model_key
        }),
{
    let looked = with_look(m, observed);
    let now = looked.ledger->0;
    let l = ledger_or_empty(m);
    crate::resources::budget::totals_add_up(components, DomainView::Host);
    assert forall|d: DomainView| #[trigger] now.used(d) <= u64::MAX by {
        assert(now.used(d) == l.used(d));
        if m.ledger is Some {
            assert(l.used(d) <= u64::MAX);
        }
    }
    rolling_back_undoes_reserving(now, totals(components));
}

/// A runtime is admitted only into memory that was seen to be free: what it needs fits
/// into what was seen, for every memory that was looked at.
pub proof fn admission_fits_what_is_free(
    m: ManagerView,
    request: Seq<char>,
    entries: Seq<(DomainView, nat)>,
    observed: Seq<(DomainView, nat)>,
    d: DomainView,
)
    requires
        crate::resources::domains::single(observed),
        listed(observed, d),
        amount(entries, d) > 0,
        admitted(m, request, entries, observed).1 is Ok,
    ensures
        amount(entries, d) <= amount(observed, d),
{
    let looked = with_look(m, observed);
    let now = looked.ledger->0;
    let l = ledger_or_empty(m);
    crate::resources::ledger::reserved_stays_within_capacity(now, request, entries, d);
    lemma_refreshed(l, observed, d);
}

proof fn lemma_refreshed(l: LedgerView, observed: Seq<(DomainView, nat)>, d: DomainView)
    requires
        crate::resources::domains::single(observed),
        listed(observed, d),
    ensures
        amount(refreshed(l, observed), d) == amount(observed, d) + l.used(d),
        listed(refreshed(l, observed), d),
    decreases observed.len(),
{
    let rest = observed.drop_last();
    let (k, n) = observed.last();
    crate::resources::domains::setting_an_amount(refreshed(l, rest), k, n + l.used(k), d);
    if k != d {
        assert forall|i: int, j: int| 0 <= i < j < rest.len() implies (#[trigger] rest[i]).0 != (
        #[trigger] rest[j]).0 by {
            assert(observed[i].0 != observed[j].0);
        }
        crate::resources::domains::lemma_place(rest, d);
        lemma_refreshed(l, rest, d);
        assert(rest[crate::resources::domains::place_of(rest, d)]
            == observed[crate::resources::domains::place_of(rest, d)]);
    }
}

/// The manager after the memories were given back that an allocation had to itself.
pub open spec fn without_speculation(m: ManagerView, owner: AllocationId) -> ManagerView {
    ManagerView { speculative: without_owner(m.speculative, owner), ..m }
}

proof fn lemma_without_owner(
    s: Seq<(DomainView, AllocationId)>,
    owner: AllocationId,
    e: (DomainView, AllocationId),
)
    ensures
        without_owner(s, owner).contains(e) <==> s.contains(e) && e.1 != owner,
    decreases s.len(),
{
    if s.len() > 0 {
        let rest = s.drop_last();
        lemma_without_owner(rest, owner, e);
        let kept = without_owner(rest, owner);
        assert(s =~= rest.push(s.last()));
        if s.contains(e) && e != s.last() {
            let i = choose|i: int| 0 <= i < s.len() && s[i] == e;
            assert(rest[i] == e);
        }
        if rest.contains(e) {
            let i = choose|i: int| 0 <= i < rest.len() && rest[i] == e;
            assert(s[i] == e);
        }
        if s.last() == e {
            assert(s[s.len() - 1] == e);
        }
        if s.last().1 != owner {
            let r = kept.push(s.last());
            if kept.contains(e) {
                let i = choose|i: int| 0 <= i < kept.len() && kept[i] == e;
                assert(r[i] == e);
            }
            if s.last() == e {
                assert(r[r.len() - 1] == e);
            }
            if r.contains(e) && e != s.last() {
                let i = choose|i: int| 0 <= i < r.len() && r[i] == e;
                assert(kept[i] == e);
            }
        }
    }
}

proof fn lemma_first_exclusive(m: ManagerView, entries: Seq<(DomainView, nat)>)
    ensures
        first_exclusive(m, entries) is Some <==> exists|i: int|
            0 <= i < entries.len() && is_exclusive(m, (#[trigger] entries[i]).0),
        first_exclusive(m, entries) is Some ==> is_exclusive(m, first_exclusive(m, entries)->0),
    decreases entries.len(),
{
    if entries.len() > 0 && !is_exclusive(m, entries[0].0) {
        let rest = entries.drop_first();
        lemma_first_exclusive(m, rest);
        if first_exclusive(m, rest) is Some {
            let i = choose|i: int| 0 <= i < rest.len() && is_exclusive(m, (#[trigger] rest[i]).0);
            assert(entries[i + 1] == rest[i]);
        }
        if exists|i: int| 0 <= i < entries.len() && is_exclusive(m, (#[trigger] entries[i]).0) {
            let i = choose|i: int|
                0 <= i < entries.len() && is_exclusive(m, (#[trigger] entries[i]).0);
            assert(rest[i - 1] == entries[i]);
        }
    }
}

/// A request for a memory that one runtime has to itself is refused, whatever is free on
/// the machine, and changes nothing.
pub proof fn an_exclusive_memory_is_refused(
    m: ManagerView,
    request: Seq<char>,
    entries: Seq<(DomainView, nat)>,
    observed: Seq<(DomainView, nat)>,
    i: int,
)
    requires
        0 <= i < entries.len(),
        is_exclusive(m, entries[i].0),
    ensures
        admitted(m, request, entries, observed).0 == m,
        exists|d: DomainView|
            is_exclusive(m, d) && admitted(m, request, entries, observed).1 == Err::<
                u64,
                Seq<char>,
            >(#[trigger] domain_key(d) + " is exclusively held by a speculative runtime"@),
{
    lemma_first_exclusive(m, entries);
    let d = first_exclusive(m, entries)->0;
    assert(is_exclusive(m, d));
    assert(admitted(m, request, entries, observed).1 == Err::<u64, Seq<char>>(
        domain_key(d) + " is exclusively held by a speculative runtime"@,
    ));
}

/// No request and no look at the machine takes a memory from the runtime that has it to
/// itself, or gives one to a runtime.
pub proof fn a_request_leaves_exclusive_memories(
    m: ManagerView,
    request: Seq<char>,
    entries: Seq<(DomainView, nat)>,
    observed: Seq<(DomainView, nat)>,
)
    ensures
        admitted(m, request, entries, observed).0.speculative == m.speculative,
{
}

/// Clearing an owner frees the memories that it alone had, and no other.
pub proof fn clearing_an_owner_frees_its_memories(
    m: ManagerView,
    owner: AllocationId,
    d: DomainView,
)
    ensures
        is_exclusive(without_speculation(m, owner), d) <==> exists|i: int|
            0 <= i < m.speculative.len() && (#[trigger] m.speculative[i]).0 == d
                && m.speculative[i].1 != owner,
{
    let kept = without_owner(m.speculative, owner);
    if is_exclusive(without_speculation(m, owner), d) {
        let i = choose|i: int| 0 <= i < kept.len() && (#[trigger] kept[i]).0 == d;
        assert(kept.contains(kept[i]));
        lemma_without_owner(m.speculative, owner, kept[i]);
        let j = choose|j: int| 0 <= j < m.speculative.len() && m.speculative[j] == kept[i];
        assert(m.speculative[j].0 == d);
    }
    if exists|i: int|
        0 <= i < m.speculative.len() && (#[trigger] m.speculative[i]).0 == d
            && m.speculative[i].1 != owner {
        let i = choose|i: int|
            0 <= i < m.speculative.len() && (#[trigger] m.speculative[i]).0 == d
                && m.speculative[i].1 != owner;
        let e = m.speculative[i];
        assert(m.speculative.contains(e));
        lemma_without_owner(m.speculative, owner, e);
        let j = choose|j: int| 0 <= j < kept.len() && kept[j] == e;
        assert(without_speculation(m, owner).speculative[j].0 == d);
    }
}

proof fn lemma_fitting(l: LedgerView, request: Seq<char>, entries: Seq<(DomainView, nat)>)
    requires
        forall|i: int|
            0 <= i < entries.len() ==> entry_refusal(l, request, #[trigger] entries[i]) is None,
    ensures
        refusal(l, request, entries) is None,
    decreases entries.len(),
{
    if entries.len() > 0 {
        let rest = entries.drop_first();
        assert forall|i: int| 0 <= i < rest.len() implies entry_refusal(
            l,
            request,
            #[trigger] rest[i],
        ) is None by {
            assert(rest[i] == entries[i + 1]);
        }
        assert(entry_refusal(l, request, entries[0]) is None);
        lemma_fitting(l, request, rest);
    }
}

proof fn lemma_unseen(l: LedgerView, observed: Seq<(DomainView, nat)>, d: DomainView)
    requires
        !listed(observed, d),
    ensures
        found(refreshed(l, observed), d) == found(l.capacities, d),
    decreases observed.len(),
{
    if observed.len() > 0 {
        let (k, n) = observed.last();
        lemma_unseen(l, observed.drop_last(), d);
        crate::resources::domains::setting_an_amount(
            refreshed(l, observed.drop_last()),
            k,
            n + l.used(k),
            d,
        );
    }
}

/// Whether there is enough of a memory: it was seen to be free, or, where nothing was
/// seen of it, it is left of the capacity that is known.
pub open spec fn has_room(
    m: ManagerView,
    observed: Seq<(DomainView, nat)>,
    e: (DomainView, nat),
) -> bool {
    if listed(observed, e.0) {
        e.1 <= amount(observed, e.0)
    } else {
        match found(ledger_or_empty(m).capacities, e.0) {
            Some(capacity) => ledger_or_empty(m).used(e.0) + e.1 <= capacity,
            None => false,
        }
    }
}

/// Whether no number has run out that a manager counts with.
pub open spec fn can_count(m: ManagerView, observed: Seq<(DomainView, nat)>) -> bool {
    &&& !refresh_overflows(ledger_or_empty(m), observed)
    &&& m.next_capacity_snapshot < u64::MAX
    &&& ledger_or_empty(m).next_id < u64::MAX
}

/// A request for memories that no runtime has to itself, and of which there is enough, is
/// let in, unless a number has run out that the manager counts with.
pub proof fn a_fitting_request_is_admitted(
    m: ManagerView,
    request: Seq<char>,
    entries: Seq<(DomainView, nat)>,
    observed: Seq<(DomainView, nat)>,
)
    requires
        crate::resources::domains::single(observed),
        forall|i: int|
            0 <= i < entries.len() ==> !is_exclusive(m, (#[trigger] entries[i]).0) && has_room(
                m,
                observed,
                entries[i],
            ),
        can_count(m, observed),
    ensures
        admitted(m, request, entries, observed).1 == Ok::<u64, Seq<char>>(
            ledger_or_empty(m).next_id,
        ),
{
    let l = ledger_or_empty(m);
    let now = with_look(m, observed).ledger->0;
    lemma_first_exclusive(m, entries);
    assert forall|i: int| 0 <= i < entries.len() implies entry_refusal(
        now,
        request,
        #[trigger] entries[i],
    ) is None by {
        let d = entries[i].0;
        if listed(observed, d) {
            lemma_refreshed(l, observed, d);
        } else {
            lemma_unseen(l, observed, d);
        }
        assert(now.used(d) == l.used(d));
    }
    lemma_fitting(now, request, entries);
}

/// A memory that one runtime has to itself is refused to others until that owner is
/// cleared: clearing another changes nothing of it, and clearing the owner lets a request
/// in for which there is enough.
pub proof fn a_memory_is_exclusive_until_its_owner_is_cleared(
    m: ManagerView,
    owner: AllocationId,
    other: AllocationId,
    request: Seq<char>,
    e: (DomainView, nat),
    observed: Seq<(DomainView, nat)>,
)
    requires
        other != owner,
        is_exclusive(m, e.0),
        forall|i: int|
            0 <= i < m.speculative.len() && (#[trigger] m.speculative[i]).0 == e.0
                ==> m.speculative[i].1 == owner,
        crate::resources::domains::single(observed),
        has_room(m, observed, e),
        can_count(m, observed),
    ensures
        admitted(m, request, seq![e], observed) == (
            m,
            Err::<u64, Seq<char>>(
                domain_key(e.0) + " is exclusively held by a speculative runtime"@,
            ),
        ),
        admitted(without_speculation(m, other), request, seq![e], observed).1 == admitted(
            m,
            request,
            seq![e],
            observed,
        ).1,
        admitted(without_speculation(m, owner), request, seq![e], observed).1 is Ok,
{
    let entries = seq![e];
    assert(entries[0] == e);
    clearing_an_owner_frees_its_memories(m, other, e.0);
    let i = choose|i: int| 0 <= i < m.speculative.len() && (#[trigger] m.speculative[i]).0 == e.0;
    assert(m.speculative[i].1 != other);
    clearing_an_owner_frees_its_memories(m, owner, e.0);
    let freed = without_speculation(m, owner);
    a_fitting_request_is_admitted(freed, request, entries, observed);
}

/// A memory stays exclusive through all that happens to others: while its owner holds it,
/// requests for it are refused before and after another owner is cleared, the machine is
/// looked at again and another memory is reserved. Once that reservation was given back and
/// the owner is cleared, the request is let in.
pub proof fn exclusivity_lasts_until_the_owner_is_cleared(
    m: ManagerView,
    owner: AllocationId,
    other: AllocationId,
    request: Seq<char>,
    e: (DomainView, nat),
    free: (DomainView, nat),
    observed: Seq<(DomainView, nat)>,
)
    requires
        m.wf(),
        other != owner,
        is_exclusive(m, e.0),
        forall|i: int|
            0 <= i < m.speculative.len() && (#[trigger] m.speculative[i]).0 == e.0
                ==> m.speculative[i].1 == owner,
        !is_exclusive(m, free.0),
        crate::resources::domains::single(observed),
        listed(observed, e.0),
        e.1 <= amount(observed, e.0),
        listed(observed, free.0),
        free.1 <= amount(observed, free.0),
        !refresh_overflows(ledger_or_empty(m), observed),
        m.next_capacity_snapshot < u64::MAX - 1,
        ledger_or_empty(m).next_id < u64::MAX - 1,
    ensures
        ({
            let refused = Err::<u64, Seq<char>>(
                domain_key(e.0) + " is exclusively held by a speculative runtime"@,
            );
            let cleared = without_speculation(m, other);
            let (after, id) = admitted(cleared, request, seq![free], observed);
            let back = given_back(after, id->Ok_0);
            &&& admitted(m, request, seq![e], observed) == (m, refused)
            &&& admitted(cleared, request, seq![e], observed) == (cleared, refused)
            &&& id is Ok
            &&& admitted(after, request, seq![e], observed) == (after, refused)
            &&& admitted(back, request, seq![e], observed) == (back, refused)
            &&& admitted(without_speculation(back, owner), request, seq![e], observed).1 is Ok
        }),
{
    let wanted = seq![e];
    assert(wanted[0] == e);
    let others = seq![free];
    assert(others[0] == free);
    let cleared = without_speculation(m, other);
    clearing_an_owner_frees_its_memories(m, other, e.0);
    clearing_an_owner_frees_its_memories(m, other, free.0);
    let i = choose|i: int| 0 <= i < m.speculative.len() && (#[trigger] m.speculative[i]).0 == e.0;
    assert(m.speculative[i].1 != other);
    assert(is_exclusive(cleared, e.0));
    a_fitting_request_is_admitted(cleared, request, others, observed);
    let (after, id) = admitted(cleared, request, others, observed);
    let back = given_back(after, id->Ok_0);
    let l = ledger_or_empty(m);
    let now = with_look(cleared, observed).ledger->0;
    assert(after.speculative == cleared.speculative);
    assert(is_exclusive(after, e.0) && is_exclusive(back, e.0));
    assert(now.wf()) by {
        assert forall|d: DomainView| #[trigger] now.used(d) <= u64::MAX by {
            assert(now.used(d) == l.used(d));
            if m.ledger is Some {
                assert(l.used(d) <= u64::MAX);
            }
        }
    }
    rolling_back_undoes_reserving(now, others);
    let freed = without_speculation(back, owner);
    assert forall|d: DomainView| #[trigger] freed.ledger->0.used(d) == l.used(d) by {}
    lemma_without_both(m.speculative, owner, other, e.0);
    assert(!refresh_overflows(ledger_or_empty(freed), observed)) by {
        if refresh_overflows(ledger_or_empty(freed), observed) {
            let j = choose|j: int|
                0 <= j < observed.len() && (#[trigger] observed[j]).1 + ledger_or_empty(
                    freed,
                ).used(observed[j].0) > u64::MAX;
            assert(observed[j].1 + l.used(observed[j].0) > u64::MAX);
        }
    }
    a_fitting_request_is_admitted(freed, request, wanted, observed);
}

proof fn lemma_without_both(
    s: Seq<(DomainView, AllocationId)>,
    owner: AllocationId,
    other: AllocationId,
    d: DomainView,
)
    requires
        forall|i: int| 0 <= i < s.len() && (#[trigger] s[i]).0 == d ==> s[i].1 == owner,
    ensures
        forall|i: int|
            0 <= i < without_owner(without_owner(s, other), owner).len() ==> (
            #[trigger] without_owner(without_owner(s, other), owner)[i]).0 != d,
{
    let kept = without_owner(without_owner(s, other), owner);
    assert forall|i: int| 0 <= i < kept.len() implies (#[trigger] kept[i]).0 != d by {
        assert(kept.contains(kept[i]));
        lemma_without_owner(without_owner(s, other), owner, kept[i]);
        lemma_without_owner(s, other, kept[i]);
        let j = choose|j: int| 0 <= j < s.len() && s[j] == kept[i];
        assert(s[j].1 != owner);
    }
}

/// A runtime that is let in although its memory falls short by a part of the slack that
/// the estimate keeps for the allocator.
#[derive(Debug)]
pub struct SpeculativeReservation {
    pub available: u64,
    pub shortfall: u64,
    pub waived_slack: u64,
    pub budget: ResourceBudget,
}

pub struct SpeculativeView {
    pub available: nat,
    pub shortfall: nat,
    pub waived_slack: nat,
    pub budget: BudgetView,
}

impl View for SpeculativeReservation {
    type V = SpeculativeView;

    open spec fn view(&self) -> SpeculativeView {
        SpeculativeView {
            available: self.available as nat,
            shortfall: self.shortfall as nat,
            waived_slack: self.waived_slack as nat,
            budget: self.budget@,
        }
    }
}

/// What the slack for the allocator comes to.
pub open spec fn slack_of(cs: Seq<ComponentView>) -> nat
    decreases cs.len(),
{
    if cs.len() == 0 {
        0
    } else if cs.last().name == "allocator_slack"@ {
        slack_of(cs.drop_last()) + cs.last().bytes
    } else {
        slack_of(cs.drop_last())
    }
}

/// The parts with the slack made smaller by the given amount.
pub open spec fn slack_waived(cs: Seq<ComponentView>, waived: nat) -> Seq<ComponentView>
    decreases cs.len(),
{
    if cs.len() == 0 {
        seq![]
    } else {
        let last = cs.last();
        if last.name == "allocator_slack"@ {
            let cut = if last.bytes < waived {
                last.bytes
            } else {
                waived
            };
            slack_waived(cs.drop_last(), (waived - cut) as nat).push(
                ComponentView { bytes: (last.bytes - cut) as nat, ..last },
            )
        } else {
            slack_waived(cs.drop_last(), waived).push(last)
        }
    }
}

/// Whether a runtime may be let in beyond its estimate at all: one of an official
/// llama.cpp backend for CUDA, on one device that nothing else uses, without a total
/// that the client has stated.
pub open spec fn may_speculate(
    id: Seq<char>,
    family: Seq<char>,
    capabilities: Seq<Seq<char>>,
    payload: JsonView,
    domains: Seq<(DomainView, nat)>,
    replicate: bool,
) -> bool {
    &&& family == "llama.cpp"@
    &&& starts_with(id, "llama.cpp-"@)
    &&& capabilities.contains("cuda"@)
    &&& stated_total(payload) is None
    &&& !replicate
    &&& domains.len() == 1
    &&& domains[0].0 is Cuda
}

/// By how much a device falls short of an estimate, where nothing else uses it.
pub open spec fn shortfall_on(s: SnapshotView, entry: (DomainView, nat)) -> Option<nat> {
    match found(s.capacities, entry.0) {
        Some(capacity) => if amount(s.reserved, entry.0) == 0 && amount(s.committed, entry.0) == 0
            && capacity < entry.1 {
            Some((entry.1 - capacity) as nat)
        } else {
            None
        },
        None => None,
    }
}

/// The reservation of a runtime that is let in beyond its estimate: what it falls short
/// of is taken from the slack, which must cover it, and is limited.
pub open spec fn speculated(
    id: Seq<char>,
    family: Seq<char>,
    capabilities: Seq<Seq<char>>,
    payload: JsonView,
    budget: BudgetView,
    replicate: bool,
    snapshot: Option<SnapshotView>,
    limit: nat,
) -> Option<SpeculativeView> {
    if !may_speculate(id, family, capabilities, payload, budget.domains, replicate) {
        None
    } else {
        match snapshot {
            None => None,
            Some(s) => match shortfall_on(s, budget.domains[0]) {
                None => None,
                Some(short) => if short <= slack_of(budget.components) && short <= limit {
                    let cs = slack_waived(budget.components, short);
                    if totals_overflow(cs) {
                        None
                    } else {
                        Some(
                            SpeculativeView {
                                available: (budget.domains[0].1 - short) as nat,
                                shortfall: short,
                                waived_slack: short,
                                budget: BudgetView { components: cs, domains: totals(cs) },
                            },
                        )
                    }
                } else {
                    None
                },
            },
        }
    }
}

fn covers_slack(budget: &ResourceBudget, needed: u64) -> (r: bool)
    ensures
        r == (needed <= slack_of(budget@.components)),
{
    let ghost cs = budget@.components;
    let mut found: u64 = 0;
    let mut i: usize = 0;
    assert(cs.take(0) =~= Seq::<ComponentView>::empty());
    while i < budget.components.len()
        invariant
            i <= budget.components@.len(),
            cs == component_views(budget.components@),
            found <= slack_of(cs.take(i as int)),
            found < needed ==> found == slack_of(cs.take(i as int)),
        decreases budget.components@.len() - i,
    {
        assert(cs.take(i as int + 1).drop_last() =~= cs.take(i as int));
        assert(cs.take(i as int + 1).last() == budget.components@[i as int]@);
        if text_eq(budget.components[i].name.as_str(), "allocator_slack") && found < needed {
            let bytes: u64 = budget.components[i].bytes;
            if bytes >= needed - found {
                found = needed;
            } else {
                found = found + bytes;
            }
        }
        i += 1;
    }
    assert(cs.take(i as int) =~= cs);
    needed <= found
}

/// The reservation of a runtime that is let in beyond its estimate, where it may be.
pub fn speculative_reservation(
    backend_id: &str,
    family: &str,
    capabilities: &Vec<String>,
    payload: &Json,
    budget: &ResourceBudget,
    replicate: bool,
    snapshot: &Option<ResourceLedgerSnapshot>,
    limit: u64,
) -> (r: Option<SpeculativeReservation>)
    ensures
        match r {
            Some(s) => speculated(
                backend_id@,
                family@,
                texts(capabilities@),
                payload@,
                budget@,
                replicate,
                match snapshot {
                    Some(x) => Some(x@),
                    None => None,
                },
                limit as nat,
            ) == Some(s@),
            None => speculated(
                backend_id@,
                family@,
                texts(capabilities@),
                payload@,
                budget@,
                replicate,
                match snapshot {
                    Some(x) => Some(x@),
                    None => None,
                },
                limit as nat,
            ) is None,
        },
{
    if !text_eq(family, "llama.cpp") || !has_prefix(backend_id, "llama.cpp-") || !has_item(
        capabilities,
        "cuda",
    ) || replicate || budget.domains.entries.len() != 1 {
        return None;
    }
    if let Some(n) = payload.get_number("resource_budget_bytes") {
        if n > 0 {
            return None;
        }
    }
    let domain = &budget.domains.entries[0].0;
    let estimated: u64 = budget.domains.entries[0].1;
    assert(budget@.domains[0] == (domain@, estimated as nat));
    match domain {
        MemoryDomain::Cuda(_) => {},
        _ => {
            return None;
        },
    }
    let s = match snapshot {
        Some(s) => s,
        None => {
            return None;
        },
    };
    let available: u64 = match s.capacities.get(domain) {
        Some(n) => n,
        None => {
            return None;
        },
    };
    if s.reserved.amount_of(domain) != 0 || s.committed.amount_of(domain) != 0 || available
        >= estimated {
        return None;
    }
    let shortfall: u64 = estimated - available;
    if shortfall > limit || !covers_slack(budget, shortfall) {
        return None;
    }
    let components = waive_slack(&budget.components, shortfall);
    match ResourceBudget::from_components(components) {
        Ok(reduced) => Some(
            SpeculativeReservation {
                available,
                shortfall,
                waived_slack: shortfall,
                budget: reduced,
            },
        ),
        Err(_) => None,
    }
}

fn waive_slack(v: &Vec<crate::resources::budget::BudgetComponent>, waived: u64) -> (r: Vec<
    crate::resources::budget::BudgetComponent,
>)
    ensures
        component_views(r@) == slack_waived(component_views(v@), waived as nat),
{
    let ghost cs = component_views(v@);
    let mut r = copy_components(v);
    let mut left: u64 = waived;
    let mut i: usize = r.len();
    assert(component_views(r@).len() == r@.len());
    assert(cs.take(i as int) =~= cs);
    assert(slack_waived(cs, waived as nat) + cs.skip(cs.len() as int) =~= slack_waived(
        cs,
        waived as nat,
    ));
    while i > 0
        invariant
            i <= r@.len(),
            r@.len() == cs.len(),
            component_views(r@).take(i as int) == cs.take(i as int),
            slack_waived(cs.take(i as int), left as nat) + component_views(r@).skip(i as int)
                == slack_waived(cs, waived as nat),
        decreases i,
    {
        let ghost before = component_views(r@);
        let ghost was = r@;
        let at: usize = i - 1;
        assert(cs.take(i as int).drop_last() =~= cs.take(at as int));
        assert(cs.take(i as int).last() == cs[at as int]);
        assert(before.take(i as int)[at as int] == before[at as int]);
        let ghost kept = left as nat;
        let mut cut: u64 = 0;
        if text_eq(r[at].name.as_str(), "allocator_slack") {
            cut = if r[at].bytes < left {
                r[at].bytes
            } else {
                left
            };
            let bytes: u64 = r[at].bytes - cut;
            r[at].bytes = bytes;
            left = left - cut;
        }
        let ghost now = component_views(r@);
        assert forall|j: int| 0 <= j < now.len() && j != at implies now[j] == before[j] by {
            assert(r@[j] == was[j]);
        }
        assert(now.take(at as int) =~= cs.take(at as int)) by {
            assert forall|j: int| 0 <= j < at implies now[j] == cs[j] by {
                assert(before.take(i as int)[j] == cs.take(i as int)[j]);
            }
        }
        assert(now.skip(at as int) =~= seq![now[at as int]] + before.skip(i as int));
        assert(slack_waived(cs.take(i as int), kept) == slack_waived(
            cs.take(at as int),
            left as nat,
        ).push(now[at as int]));
        assert(slack_waived(cs.take(at as int), left as nat) + now.skip(at as int)
            =~= slack_waived(cs.take(at as int), left as nat).push(now[at as int]) + before.skip(
            i as int,
        ));
        i = at;
    }
    assert(cs.take(0) =~= Seq::<ComponentView>::empty());
    assert(component_views(r@).skip(0) =~= component_views(r@));
    assert(slack_waived(cs.take(0), left as nat) + component_views(r@) =~= component_views(r@));
    r
}

/// What is reported of a runtime that was let in beyond its estimate.
#[derive(Debug)]
pub struct SpeculativeAdmission {
    pub device: String,
    pub estimated: u64,
    pub exclusive: u64,
    pub shortfall: u64,
    pub waived_allocator_slack: u64,
}

pub open spec fn speculative_payload(a: Option<SpeculativeAdmission>) -> JsonView {
    match a {
        None => JsonView::Null,
        Some(a) => JsonView::Object(
            no_fields()
                .push(("speculative"@, JsonView::Bool(true)))
                .push(("device"@, JsonView::Text(a.device@)))
                .push(("estimated_cuda_bytes"@, JsonView::Unsigned(a.estimated as nat)))
                .push(("exclusive_reservation_bytes"@, JsonView::Unsigned(a.exclusive as nat)))
                .push(("shortfall_bytes"@, JsonView::Unsigned(a.shortfall as nat)))
                .push(
                    (
                        "waived_allocator_slack_bytes"@,
                        JsonView::Unsigned(a.waived_allocator_slack as nat),
                    ),
                ),
        ),
    }
}

/// What is reported of a runtime that was let in beyond its estimate: null for one that
/// was not.
pub fn speculative_admission_payload(admission: &Option<SpeculativeAdmission>) -> (r: Json)
    ensures
        r@ == speculative_payload(*admission),
{
    match admission {
        None => Json::Null,
        Some(a) => {
            let mut fields = Fields::new();
            fields.flag("speculative", true);
            fields.text("device", a.device.as_str());
            fields.number("estimated_cuda_bytes", a.estimated);
            fields.number("exclusive_reservation_bytes", a.exclusive);
            fields.number("shortfall_bytes", a.shortfall);
            fields.number("waived_allocator_slack_bytes", a.waived_allocator_slack);
            fields.done()
        },
    }
}

proof fn lemma_waived_sum(cs: Seq<ComponentView>, waived: nat)
    requires
        waived <= slack_of(cs),
    ensures
        crate::resources::budget::component_sum(slack_waived(cs, waived))
            == crate::resources::budget::component_sum(cs) - waived,
        slack_waived(cs, waived).len() == cs.len(),
    decreases cs.len(),
{
    if cs.len() > 0 {
        let rest = cs.drop_last();
        let last = cs.last();
        let r = slack_waived(cs, waived);
        if last.name == "allocator_slack"@ {
            let cut = if last.bytes < waived {
                last.bytes
            } else {
                waived
            };
            lemma_waived_sum(rest, (waived - cut) as nat);
            assert(r.drop_last() =~= slack_waived(rest, (waived - cut) as nat));
        } else {
            lemma_waived_sum(rest, waived);
            assert(r.drop_last() =~= slack_waived(rest, waived));
        }
    }
}

/// A runtime that is let in beyond its estimate is charged with exactly what its device
/// has, and only slack was taken from its estimate.
pub proof fn speculation_fills_the_device(
    id: Seq<char>,
    family: Seq<char>,
    capabilities: Seq<Seq<char>>,
    payload: JsonView,
    components: Seq<ComponentView>,
    replicate: bool,
    s: SnapshotView,
    limit: nat,
)
    requires
        speculated(
            id,
            family,
            capabilities,
            payload,
            crate::resources::budget::budget_of(components),
            replicate,
            Some(s),
            limit,
        ) is Some,
    ensures
        ({
            let r = speculated(
                id,
                family,
                capabilities,
                payload,
                crate::resources::budget::budget_of(components),
                replicate,
                Some(s),
                limit,
            )->0;
            &&& crate::resources::domains::sum(r.budget.domains) == r.available
            &&& found(s.capacities, totals(components)[0].0) == Some(r.available)
            &&& r.shortfall <= limit
            &&& r.shortfall > 0
        }),
{
    let short = shortfall_on(s, totals(components)[0])->0;
    lemma_waived_sum(components, short);
    crate::resources::budget::totals_add_up(components, DomainView::Host);
    crate::resources::budget::totals_add_up(
        slack_waived(components, short),
        DomainView::Host,
    );
    let t = totals(components);
    assert(t.drop_last() =~= Seq::<(DomainView, nat)>::empty());
    assert(crate::resources::domains::sum(t.drop_last()) == 0);
}

} // verus!
