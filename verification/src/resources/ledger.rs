//! Who holds how much of which memory.
//!
//! A runtime that is being started holds a reservation, which becomes an allocation when
//! it has started, and is given back when it has not.
use vstd::prelude::*;

use crate::failure::Failure;
use crate::json::{no_fields, Fields, Json, JsonView};
use crate::resources::budget::{totals, totals_add_up, ResourceBudget};
use crate::resources::domains::{
    amount, amounts_payload, domain_key, found, lemma_place, listed, merge_domain_totals,
    merge_overflows, merged_amounts, merging_adds_amounts, place_of, single, DomainBytes,
    DomainView, MemoryDomain,
};
use crate::text::number::{decimal, show};

verus! {

#[derive(Clone, Copy, Debug, PartialEq, Eq, Structural)]
pub struct ReservationId {
    pub value: u64,
}

#[derive(Clone, Copy, Debug, PartialEq, Eq, Structural)]
pub struct AllocationId {
    pub value: u64,
}

impl AllocationId {
    /// The number that stands for the allocation in reports.
    pub fn get(self) -> (r: u64)
        ensures
            r == self.value,
    {
        self.value
    }
}

/// What the machine had to give at some point; a later look has a larger number.
#[derive(Debug)]
pub struct ResourceCapacity {
    pub snapshot_id: u64,
    pub capacities: DomainBytes,
}

impl ResourceCapacity {
    pub fn new(snapshot_id: u64, capacities: DomainBytes) -> (r: ResourceCapacity)
        ensures
            r.snapshot_id == snapshot_id,
            r.capacities@ == capacities@,
    {
        ResourceCapacity { snapshot_id, capacities }
    }
}

/// An amount of memory that something holds.
#[derive(Debug)]
pub struct Holding {
    pub id: u64,
    pub domains: DomainBytes,
}

pub struct HoldingView {
    pub id: u64,
    pub domains: Seq<(DomainView, nat)>,
}

impl View for Holding {
    type V = HoldingView;

    open spec fn view(&self) -> HoldingView {
        HoldingView { id: self.id, domains: self.domains@ }
    }
}

pub open spec fn holding_views(v: Seq<Holding>) -> Seq<HoldingView> {
    Seq::new(v.len(), |i: int| v[i]@)
}

/// What is held of a memory.
pub open spec fn held(hs: Seq<HoldingView>, d: DomainView) -> nat
    decreases hs.len(),
{
    if hs.len() == 0 {
        0
    } else {
        held(hs.drop_last(), d) + amount(hs.last().domains, d)
    }
}

/// What is held of each memory.
pub open spec fn held_totals(hs: Seq<HoldingView>) -> Seq<(DomainView, nat)>
    decreases hs.len(),
{
    if hs.len() == 0 {
        seq![]
    } else {
        merged_amounts(held_totals(hs.drop_last()), hs.last().domains)
    }
}

/// Whether one of the holdings has the given number.
pub open spec fn has_holding(hs: Seq<HoldingView>, id: u64) -> bool {
    exists|i: int| 0 <= i < hs.len() && (#[trigger] hs[i]).id == id
}

/// The holdings without that of the given number.
pub open spec fn without_holding(hs: Seq<HoldingView>, id: u64) -> Seq<HoldingView>
    decreases hs.len(),
{
    if hs.len() == 0 {
        seq![]
    } else if hs.last().id == id {
        without_holding(hs.drop_last(), id)
    } else {
        without_holding(hs.drop_last(), id).push(hs.last())
    }
}

/// What the holdings of the given number hold.
pub open spec fn held_under(hs: Seq<HoldingView>, id: u64) -> Option<Seq<(DomainView, nat)>>
    decreases hs.len(),
{
    if hs.len() == 0 {
        None
    } else if hs.last().id == id {
        Some(hs.last().domains)
    } else {
        held_under(hs.drop_last(), id)
    }
}

pub open spec fn single_holdings(hs: Seq<HoldingView>) -> bool {
    &&& forall|i: int| 0 <= i < hs.len() ==> single((#[trigger] hs[i]).domains)
    &&& forall|i: int, j: int|
        0 <= i < j < hs.len() ==> (#[trigger] hs[i]).id != (#[trigger] hs[j]).id
}

pub open spec fn numbered_below(hs: Seq<HoldingView>, n: u64) -> bool {
    forall|i: int| 0 <= i < hs.len() ==> (#[trigger] hs[i]).id < n
}

/// The ledger of a machine's memories.
#[derive(Debug)]
pub struct ResourceLedger {
    pub capacity: ResourceCapacity,
    pub reservations: Vec<Holding>,
    pub allocations: Vec<Holding>,
    pub next_id: u64,
}

pub struct LedgerView {
    pub snapshot_id: u64,
    pub capacities: Seq<(DomainView, nat)>,
    pub reservations: Seq<HoldingView>,
    pub allocations: Seq<HoldingView>,
    pub next_id: u64,
}

impl View for ResourceLedger {
    type V = LedgerView;

    open spec fn view(&self) -> LedgerView {
        LedgerView {
            snapshot_id: self.capacity.snapshot_id,
            capacities: self.capacity.capacities@,
            reservations: holding_views(self.reservations@),
            allocations: holding_views(self.allocations@),
            next_id: self.next_id,
        }
    }
}

impl LedgerView {
    /// What is reserved or allocated of a memory.
    pub open spec fn used(self, d: DomainView) -> nat {
        held(self.reservations, d) + held(self.allocations, d)
    }

    /// What every ledger keeps: each holding has a number of its own, and what is held
    /// of a memory can be written down.
    pub open spec fn wf(self) -> bool {
        &&& single_holdings(self.reservations)
        &&& single_holdings(self.allocations)
        &&& numbered_below(self.reservations, self.next_id)
        &&& numbered_below(self.allocations, self.next_id)
        &&& forall|d: DomainView| #[trigger] self.used(d) <= u64::MAX
    }

    /// Whether no memory is held beyond its capacity.
    pub open spec fn within_capacity(self) -> bool {
        forall|d: DomainView| #[trigger] self.used(d) <= amount(self.capacities, d)
    }
}

pub open spec fn empty_ledger(snapshot_id: u64, capacities: Seq<(DomainView, nat)>) -> LedgerView {
    LedgerView {
        snapshot_id,
        capacities,
        reservations: seq![],
        allocations: seq![],
        next_id: 1,
    }
}

/// Why an amount of one memory cannot be reserved.
pub open spec fn entry_refusal(
    l: LedgerView,
    request: Seq<char>,
    entry: (DomainView, nat),
) -> Option<Seq<char>> {
    match found(l.capacities, entry.0) {
        None => Some("resource domain is not available: "@ + domain_key(entry.0)),
        Some(capacity) => if l.used(entry.0) + entry.1 > capacity {
            Some(
                "insufficient "@ + domain_key(entry.0) + " memory for "@ + request + ": "@
                    + decimal(entry.1) + " bytes required"@,
            )
        } else {
            None
        },
    }
}

/// Why a request cannot be reserved: what stands against its first entry that does not
/// fit.
pub open spec fn refusal(
    l: LedgerView,
    request: Seq<char>,
    entries: Seq<(DomainView, nat)>,
) -> Option<Seq<char>>
    decreases entries.len(),
{
    if entries.len() == 0 {
        None
    } else if entry_refusal(l, request, entries[0]) is Some {
        entry_refusal(l, request, entries[0])
    } else {
        refusal(l, request, entries.drop_first())
    }
}

/// The ledger with one more reservation.
pub open spec fn with_reservation(l: LedgerView, entries: Seq<(DomainView, nat)>) -> LedgerView {
    LedgerView {
        reservations: l.reservations.push(HoldingView { id: l.next_id, domains: entries }),
        next_id: (l.next_id + 1) as u64,
        ..l
    }
}

/// The ledger with a reservation made an allocation.
pub open spec fn with_commit(l: LedgerView, id: u64) -> LedgerView {
    LedgerView {
        reservations: without_holding(l.reservations, id),
        allocations: l.allocations.push(
            HoldingView { id: l.next_id, domains: held_under(l.reservations, id)->0 },
        ),
        next_id: (l.next_id + 1) as u64,
        ..l
    }
}

/// The ledger without a reservation.
pub open spec fn with_rollback(l: LedgerView, id: u64) -> LedgerView {
    LedgerView { reservations: without_holding(l.reservations, id), ..l }
}

/// The ledger without an allocation.
pub open spec fn with_release(l: LedgerView, id: u64) -> LedgerView {
    LedgerView { allocations: without_holding(l.allocations, id), ..l }
}

proof fn lemma_prefix(hs: Seq<HoldingView>, n: u64)
    requires
        hs.len() > 0,
        single_holdings(hs),
        numbered_below(hs, n),
    ensures
        single_holdings(hs.drop_last()),
        numbered_below(hs.drop_last(), n),
        single(hs.last().domains),
        hs.last().id < n,
        !has_holding(hs.drop_last(), hs.last().id),
{
    let rest = hs.drop_last();
    assert(forall|i: int| 0 <= i < rest.len() ==> rest[i] == #[trigger] hs[i]);
    assert forall|i: int| 0 <= i < rest.len() implies single((#[trigger] rest[i]).domains) by {
        assert(single(hs[i].domains));
    }
    assert forall|i: int, j: int| 0 <= i < j < rest.len() implies (#[trigger] rest[i]).id != (
    #[trigger] rest[j]).id by {
        assert(hs[i].id != hs[j].id);
    }
    assert forall|i: int| 0 <= i < rest.len() implies (#[trigger] rest[i]).id < n by {
        assert(hs[i].id < n);
    }
    assert(hs[hs.len() - 1].id < n);
    assert(single(hs[hs.len() - 1].domains));
    if has_holding(rest, hs.last().id) {
        let i = choose|i: int| 0 <= i < rest.len() && (#[trigger] rest[i]).id == hs.last().id;
        assert(hs[i].id != hs[hs.len() - 1].id);
    }
}

proof fn lemma_absent(hs: Seq<HoldingView>, id: u64)
    requires
        !has_holding(hs, id),
    ensures
        without_holding(hs, id) == hs,
        held_under(hs, id) is None,
    decreases hs.len(),
{
    if hs.len() > 0 {
        let rest = hs.drop_last();
        assert(hs[hs.len() - 1].id != id);
        if has_holding(rest, id) {
            let i = choose|i: int| 0 <= i < rest.len() && (#[trigger] rest[i]).id == id;
            assert(hs[i].id == id);
        }
        lemma_absent(rest, id);
        assert(rest.push(hs.last()) =~= hs);
    } else {
        assert(without_holding(hs, id) =~= hs);
    }
}

/// Taking one holding out gives back what it held and leaves the others alone.
proof fn lemma_without(hs: Seq<HoldingView>, id: u64, n: u64, d: DomainView)
    requires
        single_holdings(hs),
        numbered_below(hs, n),
    ensures
        single_holdings(without_holding(hs, id)),
        numbered_below(without_holding(hs, id), n),
        !has_holding(without_holding(hs, id), id),
        has_holding(hs, id) <==> held_under(hs, id) is Some,
        held_under(hs, id) is Some ==> single(held_under(hs, id)->0),
        held(without_holding(hs, id), d) == held(hs, d) - (match held_under(hs, id) {
            Some(e) => amount(e, d) as int,
            None => 0,
        }),
        forall|other: u64| other != id ==> (has_holding(without_holding(hs, id), other)
            <==> has_holding(hs, other)),
    decreases hs.len(),
{
    if hs.len() > 0 {
        let rest = hs.drop_last();
        let last = hs.last();
        lemma_prefix(hs, n);
        lemma_without(rest, id, n, d);
        let kept = without_holding(rest, id);
        let r = without_holding(hs, id);
        assert(hs[hs.len() - 1] == last);
        assert forall|other: u64| has_holding(hs, other) <==> (has_holding(rest, other) || last.id
            == other) by {
            if has_holding(rest, other) {
                let i = choose|i: int| 0 <= i < rest.len() && (#[trigger] rest[i]).id == other;
                assert(hs[i].id == other);
            }
            if has_holding(hs, other) && last.id != other {
                let i = choose|i: int| 0 <= i < hs.len() && (#[trigger] hs[i]).id == other;
                assert(rest[i].id == other);
            }
        }
        if last.id == id {
            lemma_absent(rest, id);
        } else {
            assert(r.drop_last() =~= kept);
            assert(r[r.len() - 1] == last);
            assert(!has_holding(kept, last.id));
            assert forall|i: int, j: int| 0 <= i < j < r.len() implies (#[trigger] r[i]).id != (
            #[trigger] r[j]).id by {
                if j == kept.len() {
                    assert(kept[i] == r[i]);
                } else {
                    assert(kept[i] == r[i] && kept[j] == r[j]);
                }
            }
            assert forall|i: int| 0 <= i < r.len() implies single((#[trigger] r[i]).domains)
                && r[i].id < n by {
                if i < kept.len() {
                    assert(kept[i] == r[i]);
                }
            }
            assert forall|other: u64| has_holding(r, other) <==> (has_holding(kept, other)
                || last.id == other) by {
                if has_holding(kept, other) {
                    let i = choose|i: int| 0 <= i < kept.len() && (#[trigger] kept[i]).id == other;
                    assert(r[i].id == other);
                }
                if has_holding(r, other) && last.id != other {
                    let i = choose|i: int| 0 <= i < r.len() && (#[trigger] r[i]).id == other;
                    assert(kept[i].id == other);
                }
            }
        }
    }
}

proof fn lemma_push(hs: Seq<HoldingView>, h: HoldingView, d: DomainView)
    requires
        single_holdings(hs),
        numbered_below(hs, h.id),
        h.id < u64::MAX,
        single(h.domains),
    ensures
        single_holdings(hs.push(h)),
        numbered_below(hs.push(h), (h.id + 1) as u64),
        held(hs.push(h), d) == held(hs, d) + amount(h.domains, d),
        without_holding(hs.push(h), h.id) == hs,
        held_under(hs.push(h), h.id) == Some(h.domains),
        has_holding(hs.push(h), h.id),
{
    let r = hs.push(h);
    assert(r.drop_last() =~= hs);
    assert(r[r.len() - 1] == h);
    assert(!has_holding(hs, h.id));
    lemma_absent(hs, h.id);
    assert forall|i: int| 0 <= i < r.len() implies single((#[trigger] r[i]).domains) && r[i].id < (
    h.id + 1) as u64 by {
        if i < hs.len() {
            assert(r[i] == hs[i]);
        }
    }
    assert forall|i: int, j: int| 0 <= i < j < r.len() implies (#[trigger] r[i]).id != (
    #[trigger] r[j]).id by {
        assert(r[i] == hs[i]);
        if j < hs.len() {
            assert(r[j] == hs[j]);
        }
    }
}

proof fn lemma_numbered_up(hs: Seq<HoldingView>, n: u64)
    requires
        numbered_below(hs, n),
        n < u64::MAX,
    ensures
        numbered_below(hs, (n + 1) as u64),
{
    assert forall|i: int| 0 <= i < hs.len() implies (#[trigger] hs[i]).id < (n + 1) as u64 by {
        assert(hs[i].id < n);
    }
}

proof fn lemma_held_totals(hs: Seq<HoldingView>, d: DomainView)
    requires
        forall|i: int| 0 <= i < hs.len() ==> single((#[trigger] hs[i]).domains),
    ensures
        amount(held_totals(hs), d) == held(hs, d),
    decreases hs.len(),
{
    if hs.len() > 0 {
        let rest = hs.drop_last();
        assert forall|i: int| 0 <= i < rest.len() implies single((#[trigger] rest[i]).domains) by {
            assert(rest[i] == hs[i]);
        }
        lemma_held_totals(rest, d);
        assert(single(hs[hs.len() - 1].domains));
        merging_adds_amounts(held_totals(rest), hs.last().domains, d);
    }
}

proof fn lemma_merge_fits(left: Seq<(DomainView, nat)>, right: Seq<(DomainView, nat)>)
    requires
        single(right),
        forall|d: DomainView| #[trigger] amount(left, d) + amount(right, d) <= u64::MAX,
    ensures
        !merge_overflows(left, right),
{
    if merge_overflows(left, right) {
        let i = choose|i: int|
            0 <= i < right.len() && #[trigger] amount(
                merged_amounts(left, right.take(i)),
                right[i].0,
            ) + right[i].1 > u64::MAX;
        let k = right[i].0;
        let start = right.take(i);
        assert forall|a: int, b: int| 0 <= a < b < start.len() implies (#[trigger] start[a]).0 != (
        #[trigger] start[b]).0 by {
            assert(right[a].0 != right[b].0);
        }
        merging_adds_amounts(left, start, k);
        lemma_place(start, k);
        if listed(start, k) {
            let p = place_of(start, k);
            assert(right[p].0 != right[i].0);
        }
        lemma_place(right, k);
        let q = place_of(right, k);
        assert(listed(right, k));
        if q != i {
            assert(right[i].0 == right[q].0);
        }
        assert(amount(left, k) + amount(right, k) <= u64::MAX);
    }
}

fn sum_up(hs: &Vec<Holding>) -> (r: DomainBytes)
    requires
        forall|i: int| 0 <= i < hs@.len() ==> single((#[trigger] hs@[i])@.domains),
        forall|d: DomainView| #[trigger] held(holding_views(hs@), d) <= u64::MAX,
    ensures
        r@ == held_totals(holding_views(hs@)),
{
    let ghost all = holding_views(hs@);
    let mut totals = DomainBytes::new();
    let mut i: usize = 0;
    assert(totals@ =~= held_totals(all.take(0)));
    while i < hs.len()
        invariant
            i <= hs@.len(),
            all == holding_views(hs@),
            forall|j: int| 0 <= j < hs@.len() ==> single((#[trigger] hs@[j])@.domains),
            forall|d: DomainView| #[trigger] held(all, d) <= u64::MAX,
            totals@ == held_totals(all.take(i as int)),
        decreases hs@.len() - i,
    {
        let ghost now = all.take(i as int);
        let ghost next = all.take(i as int + 1);
        assert(next.drop_last() =~= now);
        assert(next.last() == hs@[i as int]@);
        proof {
            assert forall|j: int| 0 <= j < now.len() implies single((#[trigger] now[j]).domains) by {
                assert(now[j] == hs@[j]@);
            }
            assert(single(hs@[i as int]@.domains));
            assert forall|d: DomainView| #[trigger] amount(held_totals(now), d) + amount(
                hs@[i as int]@.domains,
                d,
            ) <= u64::MAX by {
                lemma_held_totals(now, d);
                lemma_held_prefix(all, i as int + 1, d);
                assert(held(all, d) <= u64::MAX);
            }
            lemma_merge_fits(held_totals(now), hs@[i as int]@.domains);
        }
        match merge_domain_totals(&totals, &hs[i].domains) {
            Ok(m) => {
                totals = m;
            },
            Err(_) => {
                assert(false);
            },
        }
        i += 1;
    }
    assert(all.take(i as int) =~= all);
    totals
}

proof fn lemma_held_prefix(hs: Seq<HoldingView>, n: int, d: DomainView)
    requires
        0 <= n <= hs.len(),
    ensures
        held(hs.take(n), d) <= held(hs, d),
    decreases hs.len() - n,
{
    if n < hs.len() {
        assert(hs.take(n + 1).drop_last() =~= hs.take(n));
        lemma_held_prefix(hs, n + 1, d);
    } else {
        assert(hs.take(n) =~= hs);
    }
}

fn amount_held(hs: &Vec<Holding>, domain: &MemoryDomain) -> (r: u64)
    requires
        held(holding_views(hs@), domain@) <= u64::MAX,
    ensures
        r == held(holding_views(hs@), domain@),
{
    let ghost all = holding_views(hs@);
    let mut total: u64 = 0;
    let mut i: usize = 0;
    while i < hs.len()
        invariant
            i <= hs@.len(),
            all == holding_views(hs@),
            held(all, domain@) <= u64::MAX,
            total == held(all.take(i as int), domain@),
        decreases hs@.len() - i,
    {
        assert(all.take(i as int + 1).drop_last() =~= all.take(i as int));
        proof {
            lemma_held_prefix(all, i as int + 1, domain@);
        }
        total = total + hs[i].domains.amount_of(domain);
        i += 1;
    }
    assert(all.take(i as int) =~= all);
    total
}

fn find_holding(hs: &Vec<Holding>, id: u64) -> (r: Option<usize>)
    requires
        single_holdings(holding_views(hs@)),
    ensures
        match r {
            Some(i) => i < hs@.len() && hs@[i as int].id == id && has_holding(
                holding_views(hs@),
                id,
            ),
            None => !has_holding(holding_views(hs@), id),
        },
{
    let mut i: usize = 0;
    while i < hs.len()
        invariant
            i <= hs@.len(),
            forall|j: int| 0 <= j < i ==> (#[trigger] holding_views(hs@)[j]).id != id,
        decreases hs@.len() - i,
    {
        if hs[i].id == id {
            assert(holding_views(hs@)[i as int].id == id);
            return Some(i);
        }
        i += 1;
    }
    None
}

proof fn lemma_remove(hs: Seq<HoldingView>, i: int)
    requires
        single_holdings(hs),
        0 <= i < hs.len(),
    ensures
        hs.remove(i) == without_holding(hs, hs[i].id),
        held_under(hs, hs[i].id) == Some(hs[i].domains),
    decreases hs.len(),
{
    let rest = hs.drop_last();
    let id = hs[i].id;
    if i == hs.len() - 1 {
        if has_holding(rest, id) {
            let j = choose|j: int| 0 <= j < rest.len() && (#[trigger] rest[j]).id == id;
            assert(hs[j].id != hs[i].id);
        }
        lemma_absent(rest, id);
        assert(hs.remove(i) =~= rest);
    } else {
        assert(hs[hs.len() - 1].id != id);
        assert forall|a: int| 0 <= a < rest.len() implies single((#[trigger] rest[a]).domains) by {
            assert(rest[a] == hs[a]);
        }
        assert forall|a: int, b: int| 0 <= a < b < rest.len() implies (#[trigger] rest[a]).id != (
        #[trigger] rest[b]).id by {
            assert(hs[a].id != hs[b].id);
        }
        lemma_remove(rest, i);
        assert(rest[i] == hs[i]);
        assert(hs.remove(i) =~= rest.remove(i).push(hs.last()));
    }
}

/// What a ledger says of itself at some point.
#[derive(Debug)]
pub struct ResourceLedgerSnapshot {
    pub capacity_snapshot_id: u64,
    pub capacities: DomainBytes,
    pub reserved: DomainBytes,
    pub committed: DomainBytes,
}

pub struct SnapshotView {
    pub capacity_snapshot_id: u64,
    pub capacities: Seq<(DomainView, nat)>,
    pub reserved: Seq<(DomainView, nat)>,
    pub committed: Seq<(DomainView, nat)>,
}

impl View for ResourceLedgerSnapshot {
    type V = SnapshotView;

    open spec fn view(&self) -> SnapshotView {
        SnapshotView {
            capacity_snapshot_id: self.capacity_snapshot_id,
            capacities: self.capacities@,
            reserved: self.reserved@,
            committed: self.committed@,
        }
    }
}

pub open spec fn snapshot_of(l: LedgerView) -> SnapshotView {
    SnapshotView {
        capacity_snapshot_id: l.snapshot_id,
        capacities: l.capacities,
        reserved: held_totals(l.reservations),
        committed: held_totals(l.allocations),
    }
}

/// What is left of each memory: nothing is said where more is held than there is.
pub open spec fn left_over(s: SnapshotView) -> Option<Seq<(DomainView, nat)>> {
    if exists|i: int|
        0 <= i < s.capacities.len() && amount(s.reserved, (#[trigger] s.capacities[i]).0) + amount(
            s.committed,
            s.capacities[i].0,
        ) > s.capacities[i].1 {
        None
    } else {
        Some(
            Seq::new(
                s.capacities.len(),
                |i: int|
                    (
                        s.capacities[i].0,
                        (s.capacities[i].1 - amount(s.reserved, s.capacities[i].0) - amount(
                            s.committed,
                            s.capacities[i].0,
                        )) as nat,
                    ),
            ),
        )
    }
}

impl ResourceLedgerSnapshot {
    /// What is left of each memory.
    pub fn available(&self) -> (r: Option<DomainBytes>)
        ensures
            match r {
                Some(d) => left_over(self@) == Some(d@),
                None => left_over(self@) is None,
            },
    {
        let mut entries: Vec<(MemoryDomain, u64)> = Vec::new();
        let mut i: usize = 0;
        while i < self.capacities.entries.len()
            invariant
                i <= self.capacities.entries@.len(),
                entries@.len() == i,
                forall|j: int|
                    0 <= j < i ==> amount(self@.reserved, (#[trigger] self@.capacities[j]).0)
                        + amount(self@.committed, self@.capacities[j].0) <= self@.capacities[j].1,
                forall|j: int|
                    0 <= j < i ==> (#[trigger] entries@[j]).0@ == self@.capacities[j].0
                        && entries@[j].1 == self@.capacities[j].1 - amount(
                        self@.reserved,
                        self@.capacities[j].0,
                    ) - amount(self@.committed, self@.capacities[j].0),
            decreases self.capacities.entries@.len() - i,
        {
            let domain = &self.capacities.entries[i].0;
            let capacity: u64 = self.capacities.entries[i].1;
            let reserved: u64 = self.reserved.amount_of(domain);
            let committed: u64 = self.committed.amount_of(domain);
            assert(self@.capacities[i as int] == (domain@, capacity as nat));
            if reserved > capacity || committed > capacity - reserved {
                return None;
            }
            entries.push((domain.copy(), capacity - reserved - committed));
            i += 1;
        }
        let d = DomainBytes { entries };
        assert(left_over(self@) is Some);
        assert(d@ =~= left_over(self@)->0);
        Some(d)
    }
}

pub open spec fn ledger_payload(s: SnapshotView) -> JsonView {
    JsonView::Object(
        no_fields()
            .push(("capacity_snapshot_id"@, JsonView::Unsigned(s.capacity_snapshot_id as nat)))
            .push(("capacity_bytes"@, amounts_payload(s.capacities)))
            .push(("reserved_bytes"@, amounts_payload(s.reserved)))
            .push(("committed_bytes"@, amounts_payload(s.committed)))
            .push(
                (
                    "available_bytes"@,
                    amounts_payload(
                        match left_over(s) {
                            Some(d) => d,
                            None => seq![],
                        },
                    ),
                ),
            ),
    )
}

impl ResourceLedgerSnapshot {
    /// The snapshot as a JSON object.
    pub fn payload(&self) -> (r: Json)
        ensures
            r@ == ledger_payload(self@),
    {
        let left = match self.available() {
            Some(d) => d,
            None => DomainBytes::new(),
        };
        let mut fields = Fields::new();
        fields.number("capacity_snapshot_id", self.capacity_snapshot_id);
        fields.put("capacity_bytes", self.capacities.payload());
        fields.put("reserved_bytes", self.reserved.payload());
        fields.put("committed_bytes", self.committed.payload());
        fields.put("available_bytes", left.payload());
        fields.done()
    }
}

impl ResourceLedger {
    /// A ledger in which nothing is held.
    pub fn new(capacity: ResourceCapacity) -> (r: ResourceLedger)
        ensures
            r@ == empty_ledger(capacity.snapshot_id, capacity.capacities@),
            r@.wf(),
    {
        let r = ResourceLedger {
            capacity,
            reservations: Vec::new(),
            allocations: Vec::new(),
            next_id: 1,
        };
        assert(r@.reservations =~= Seq::<HoldingView>::empty());
        assert(r@.allocations =~= Seq::<HoldingView>::empty());
        r
    }

    /// Takes note of a later look at the machine.
    pub fn update_capacity(&mut self, capacity: ResourceCapacity) -> (r: Result<(), Failure>)
        ensures
            old(self)@.wf() ==> final(self)@.wf(),
            match r {
                Ok(_) => capacity.snapshot_id > old(self)@.snapshot_id && final(self)@ == (
                LedgerView {
                    snapshot_id: capacity.snapshot_id,
                    capacities: capacity.capacities@,
                    ..old(self)@
                }),
                Err(e) => capacity.snapshot_id <= old(self)@.snapshot_id && final(self)@ == old(
                    self,
                )@ && e@ == "resource capacity snapshot is stale"@,
            },
    {
        if capacity.snapshot_id <= self.capacity.snapshot_id {
            return Err(Failure::new("resource capacity snapshot is stale"));
        }
        let ghost before = self@;
        self.capacity = capacity;
        proof {
            if before.wf() {
                assert forall|d: DomainView| #[trigger] self@.used(d) <= u64::MAX by {
                    assert(before.used(d) <= u64::MAX);
                }
            }
        }
        Ok(())
    }

    fn refuse(&self, request: &str, entries: &DomainBytes) -> (r: Option<Failure>)
        requires
            self@.wf(),
        ensures
            match r {
                Some(e) => refusal(self@, request@, entries@) == Some(e@),
                None => refusal(self@, request@, entries@) is None,
            },
    {
        let ghost all = entries@;
        let mut i: usize = 0;
        assert(all.skip(0) =~= all);
        while i < entries.entries.len()
            invariant
                i <= entries.entries@.len(),
                all == entries@,
                self@.wf(),
                refusal(self@, request@, all) == refusal(self@, request@, all.skip(i as int)),
            decreases entries.entries@.len() - i,
        {
            assert(all.skip(i as int).drop_first() =~= all.skip(i as int + 1));
            let domain = &entries.entries[i].0;
            let bytes: u64 = entries.entries[i].1;
            assert(all[i as int] == (domain@, bytes as nat));
            assert(self@.used(domain@) <= u64::MAX);
            let used: u64 = amount_held(&self.reservations, domain) + amount_held(
                &self.allocations,
                domain,
            );
            match self.capacity.capacities.get(domain) {
                None => {
                    return Some(
                        Failure::about(
                            "resource domain is not available: ",
                            domain.key().as_str(),
                        ),
                    );
                },
                Some(capacity) => {
                    if used > capacity || bytes > capacity - used {
                        let message = "insufficient ".to_owned().concat(
                            domain.key().as_str(),
                        ).concat(" memory for ").concat(request).concat(": ").concat(
                            show(bytes).as_str(),
                        ).concat(" bytes required");
                        return Some(Failure { message });
                    }
                },
            }
            i += 1;
        }
        None
    }

    /// Reserves what a budget needs, where all of it is free.
    pub fn reserve(&mut self, request: &str, budget: &ResourceBudget) -> (r: Result<
        ReservationId,
        Failure,
    >)
        requires
            old(self)@.wf(),
            budget@.domains == totals(budget@.components),
        ensures
            final(self)@.wf(),
            match r {
                Ok(id) => refusal(old(self)@, request@, budget@.domains) is None && id.value
                    == old(self)@.next_id && old(self)@.next_id < u64::MAX && final(self)@
                    == with_reservation(old(self)@, budget@.domains),
                Err(e) => final(self)@ == old(self)@ && if refusal(
                    old(self)@,
                    request@,
                    budget@.domains,
                ) is Some {
                    refusal(old(self)@, request@, budget@.domains) == Some(e@)
                } else {
                    old(self)@.next_id == u64::MAX && e@ == "resource ledger is out of numbers"@
                },
            },
    {
        let ghost before = self@;
        if let Some(e) = self.refuse(request, &budget.domains) {
            return Err(e);
        }
        if self.next_id == u64::MAX {
            return Err(Failure::new("resource ledger is out of numbers"));
        }
        let id: u64 = self.next_id;
        let holding = Holding { id, domains: budget.domains.copy() };
        let ghost h = holding@;
        self.reservations.push(holding);
        self.next_id = id + 1;
        assert(self@.reservations =~= before.reservations.push(h));
        proof {
            totals_add_up(budget@.components, DomainView::Host);
            lemma_push(before.reservations, h, DomainView::Host);
            lemma_numbered_up(before.allocations, id);
            assert forall|d: DomainView| #[trigger] self@.used(d) <= u64::MAX by {
                lemma_push(before.reservations, h, d);
                assert(before.used(d) <= u64::MAX);
                if amount(budget@.domains, d) > 0 {
                    reserved_stays_within_capacity(before, request@, budget@.domains, d);
                    lemma_amount_fits(self.capacity.capacities, d);
                }
            }
        }
        Ok(ReservationId { value: id })
    }

    /// Gives back a reservation, and says whether there was one.
    pub fn rollback(&mut self, id: ReservationId) -> (r: bool)
        requires
            old(self)@.wf(),
        ensures
            final(self)@.wf(),
            r == has_holding(old(self)@.reservations, id.value),
            final(self)@ == with_rollback(old(self)@, id.value),
    {
        let ghost before = self@;
        match find_holding(&self.reservations, id.value) {
            Some(i) => {
                proof {
                    lemma_remove(before.reservations, i as int);
                }
                let _ = self.reservations.remove(i);
                assert(self@.reservations =~= before.reservations.remove(i as int));
                proof {
                    rolling_back_keeps_the_ledger(before, id.value);
                }
                true
            },
            None => {
                proof {
                    lemma_absent(before.reservations, id.value);
                }
                false
            },
        }
    }

    /// Makes a reservation an allocation.
    pub fn commit(&mut self, id: ReservationId) -> (r: Result<AllocationId, Failure>)
        requires
            old(self)@.wf(),
        ensures
            final(self)@.wf(),
            match r {
                Ok(a) => has_holding(old(self)@.reservations, id.value) && old(self)@.next_id
                    < u64::MAX && a.value == old(self)@.next_id && final(self)@ == with_commit(
                    old(self)@,
                    id.value,
                ),
                Err(e) => final(self)@ == old(self)@ && if !has_holding(
                    old(self)@.reservations,
                    id.value,
                ) {
                    e@ == "resource reservation is unknown"@
                } else {
                    old(self)@.next_id == u64::MAX && e@ == "resource ledger is out of numbers"@
                },
            },
    {
        let ghost before = self@;
        match find_holding(&self.reservations, id.value) {
            None => Err(Failure::new("resource reservation is unknown")),
            Some(i) => {
                if self.next_id == u64::MAX {
                    return Err(Failure::new("resource ledger is out of numbers"));
                }
                proof {
                    lemma_remove(before.reservations, i as int);
                }
                let taken = self.reservations.remove(i);
                assert(taken@ == before.reservations[i as int]);
                let allocation: u64 = self.next_id;
                let holding = Holding { id: allocation, domains: taken.domains };
                let ghost h = holding@;
                self.allocations.push(holding);
                self.next_id = allocation + 1;
                assert(self@.reservations =~= before.reservations.remove(i as int));
                assert(self@.allocations =~= before.allocations.push(h));
                proof {
                    committing_keeps_the_ledger(before, id.value);
                }
                Ok(AllocationId { value: allocation })
            },
        }
    }

    /// Gives back an allocation, and says whether there was one.
    pub fn release(&mut self, id: AllocationId) -> (r: bool)
        requires
            old(self)@.wf(),
        ensures
            final(self)@.wf(),
            r == has_holding(old(self)@.allocations, id.value),
            final(self)@ == with_release(old(self)@, id.value),
    {
        let ghost before = self@;
        match find_holding(&self.allocations, id.value) {
            Some(i) => {
                proof {
                    lemma_remove(before.allocations, i as int);
                }
                let _ = self.allocations.remove(i);
                assert(self@.allocations =~= before.allocations.remove(i as int));
                proof {
                    releasing_keeps_the_ledger(before, id.value);
                }
                true
            },
            None => {
                proof {
                    lemma_absent(before.allocations, id.value);
                }
                false
            },
        }
    }

    /// What the ledger says of itself.
    pub fn snapshot(&self) -> (r: ResourceLedgerSnapshot)
        requires
            self@.wf(),
        ensures
            r@ == snapshot_of(self@),
    {
        proof {
            assert forall|i: int| 0 <= i < self.reservations@.len() implies single(
                (#[trigger] self.reservations@[i])@.domains,
            ) by {
                assert(single(self@.reservations[i].domains));
            }
            assert forall|i: int| 0 <= i < self.allocations@.len() implies single(
                (#[trigger] self.allocations@[i])@.domains,
            ) by {
                assert(single(self@.allocations[i].domains));
            }
            assert forall|d: DomainView| #[trigger] held(
                holding_views(self.reservations@),
                d,
            ) <= u64::MAX by {
                assert(self@.used(d) <= u64::MAX);
            }
            assert forall|d: DomainView| #[trigger] held(
                holding_views(self.allocations@),
                d,
            ) <= u64::MAX by {
                assert(self@.used(d) <= u64::MAX);
            }
        }
        ResourceLedgerSnapshot {
            capacity_snapshot_id: self.capacity.snapshot_id,
            capacities: self.capacity.capacities.copy(),
            reserved: sum_up(&self.reservations),
            committed: sum_up(&self.allocations),
        }
    }
}

proof fn lemma_amount_fits(b: DomainBytes, d: DomainView)
    ensures
        amount(b@, d) <= u64::MAX,
{
    lemma_place(b@, d);
}

proof fn lemma_refusal(
    l: LedgerView,
    request: Seq<char>,
    entries: Seq<(DomainView, nat)>,
    i: int,
)
    requires
        refusal(l, request, entries) is None,
        0 <= i < entries.len(),
    ensures
        entry_refusal(l, request, entries[i]) is None,
    decreases entries.len(),
{
    if i > 0 {
        lemma_refusal(l, request, entries.drop_first(), i - 1);
    }
}

/// What is reserved fits: no memory that a reservation needs is held beyond its
/// capacity after it.
pub proof fn reserved_stays_within_capacity(
    l: LedgerView,
    request: Seq<char>,
    entries: Seq<(DomainView, nat)>,
    d: DomainView,
)
    requires
        refusal(l, request, entries) is None,
        amount(entries, d) > 0,
    ensures
        l.used(d) + amount(entries, d) <= amount(l.capacities, d),
{
    lemma_place(entries, d);
    lemma_refusal(l, request, entries, place_of(entries, d));
}

/// A reservation that was made keeps a ledger within its capacity.
pub proof fn reserving_keeps_capacity(
    l: LedgerView,
    request: Seq<char>,
    entries: Seq<(DomainView, nat)>,
)
    requires
        l.wf(),
        l.within_capacity(),
        l.next_id < u64::MAX,
        single(entries),
        refusal(l, request, entries) is None,
    ensures
        with_reservation(l, entries).within_capacity(),
{
    let r = with_reservation(l, entries);
    let h = HoldingView { id: l.next_id, domains: entries };
    assert forall|d: DomainView| #[trigger] r.used(d) <= amount(r.capacities, d) by {
        lemma_push(l.reservations, h, d);
        assert(l.used(d) <= amount(l.capacities, d));
        if amount(entries, d) > 0 {
            reserved_stays_within_capacity(l, request, entries, d);
        }
    }
}

/// Giving back a reservation keeps a ledger well-formed and within its capacity, and
/// frees what the reservation held.
pub proof fn rolling_back_keeps_the_ledger(l: LedgerView, id: u64)
    requires
        l.wf(),
    ensures
        with_rollback(l, id).wf(),
        l.within_capacity() ==> with_rollback(l, id).within_capacity(),
        forall|d: DomainView|
            #[trigger] with_rollback(l, id).used(d) == l.used(d) - (match held_under(
                l.reservations,
                id,
            ) {
                Some(e) => amount(e, d) as int,
                None => 0,
            }),
{
    let r = with_rollback(l, id);
    lemma_without(l.reservations, id, l.next_id, DomainView::Host);
    assert forall|d: DomainView| #[trigger] r.used(d) == l.used(d) - (match held_under(
        l.reservations,
        id,
    ) {
        Some(e) => amount(e, d) as int,
        None => 0,
    }) by {
        lemma_without(l.reservations, id, l.next_id, d);
    }
    assert forall|d: DomainView| #[trigger] r.used(d) <= u64::MAX by {
        assert(l.used(d) <= u64::MAX);
    }
    if l.within_capacity() {
        assert forall|d: DomainView| #[trigger] r.used(d) <= amount(r.capacities, d) by {
            assert(l.used(d) <= amount(l.capacities, d));
        }
    }
}

/// Giving back an allocation keeps a ledger well-formed and within its capacity, and
/// frees what the allocation held.
pub proof fn releasing_keeps_the_ledger(l: LedgerView, id: u64)
    requires
        l.wf(),
    ensures
        with_release(l, id).wf(),
        l.within_capacity() ==> with_release(l, id).within_capacity(),
        forall|d: DomainView|
            #[trigger] with_release(l, id).used(d) == l.used(d) - (match held_under(
                l.allocations,
                id,
            ) {
                Some(e) => amount(e, d) as int,
                None => 0,
            }),
{
    let r = with_release(l, id);
    lemma_without(l.allocations, id, l.next_id, DomainView::Host);
    assert forall|d: DomainView| #[trigger] r.used(d) == l.used(d) - (match held_under(
        l.allocations,
        id,
    ) {
        Some(e) => amount(e, d) as int,
        None => 0,
    }) by {
        lemma_without(l.allocations, id, l.next_id, d);
    }
    assert forall|d: DomainView| #[trigger] r.used(d) <= u64::MAX by {
        assert(l.used(d) <= u64::MAX);
    }
    if l.within_capacity() {
        assert forall|d: DomainView| #[trigger] r.used(d) <= amount(r.capacities, d) by {
            assert(l.used(d) <= amount(l.capacities, d));
        }
    }
}

/// Making a reservation an allocation changes no amount that is used.
pub proof fn committing_keeps_the_ledger(l: LedgerView, id: u64)
    requires
        l.wf(),
        has_holding(l.reservations, id),
        l.next_id < u64::MAX,
    ensures
        with_commit(l, id).wf(),
        l.within_capacity() ==> with_commit(l, id).within_capacity(),
        forall|d: DomainView| #[trigger] with_commit(l, id).used(d) == l.used(d),
{
    let r = with_commit(l, id);
    lemma_without(l.reservations, id, l.next_id, DomainView::Host);
    let h = HoldingView { id: l.next_id, domains: held_under(l.reservations, id)->0 };
    lemma_push(l.allocations, h, DomainView::Host);
    lemma_numbered_up(without_holding(l.reservations, id), l.next_id);
    assert forall|d: DomainView| #[trigger] r.used(d) == l.used(d) by {
        lemma_without(l.reservations, id, l.next_id, d);
        lemma_push(l.allocations, h, d);
    }
    assert forall|d: DomainView| #[trigger] r.used(d) <= u64::MAX by {
        assert(l.used(d) <= u64::MAX);
    }
    if l.within_capacity() {
        assert forall|d: DomainView| #[trigger] r.used(d) <= amount(r.capacities, d) by {
            assert(l.used(d) <= amount(l.capacities, d));
        }
    }
}

/// Giving back a reservation that was just made leaves the ledger as it was, but for
/// the number that was used up.
pub proof fn rolling_back_undoes_reserving(l: LedgerView, entries: Seq<(DomainView, nat)>)
    requires
        l.wf(),
        l.next_id < u64::MAX,
        single(entries),
    ensures
        has_holding(with_reservation(l, entries).reservations, l.next_id),
        with_rollback(with_reservation(l, entries), l.next_id) == (LedgerView {
            next_id: (l.next_id + 1) as u64,
            ..l
        }),
{
    lemma_push(
        l.reservations,
        HoldingView { id: l.next_id, domains: entries },
        DomainView::Host,
    );
}

/// A runtime that was loaded and unloaded again leaves the ledger as it was, but for
/// the numbers that were used up.
pub proof fn releasing_undoes_loading(l: LedgerView, entries: Seq<(DomainView, nat)>)
    requires
        l.wf(),
        l.next_id < u64::MAX - 1,
        single(entries),
    ensures
        ({
            let reserved = with_reservation(l, entries);
            let committed = with_commit(reserved, l.next_id);
            with_release(committed, reserved.next_id) == (LedgerView {
                next_id: (l.next_id + 2) as u64,
                ..l
            })
        }),
{
    let reserved = with_reservation(l, entries);
    let h = HoldingView { id: l.next_id, domains: entries };
    lemma_push(l.reservations, h, DomainView::Host);
    lemma_numbered_up(l.allocations, l.next_id);
    let a = HoldingView { id: reserved.next_id, domains: entries };
    lemma_push(l.allocations, a, DomainView::Host);
}

/// What a snapshot reports as reserved and committed is what is held.
pub proof fn snapshots_report_what_is_held(l: LedgerView, d: DomainView)
    requires
        l.wf(),
    ensures
        amount(snapshot_of(l).reserved, d) == held(l.reservations, d),
        amount(snapshot_of(l).committed, d) == held(l.allocations, d),
{
    lemma_held_totals(l.reservations, d);
    lemma_held_totals(l.allocations, d);
}

} // verus!
