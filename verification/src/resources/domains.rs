//! The memories of a machine, and amounts of each.
use vstd::prelude::*;

use crate::json::{Fields, Json, JsonView};
use crate::text::chars::text_eq;

verus! {

/// A memory that runtimes share.
#[derive(Debug)]
pub enum MemoryDomain {
    /// The memory of the machine.
    Host,
    /// The memory of a CUDA device.
    Cuda(String),
    /// A memory that processor and accelerator have in common.
    Unified(String),
}

pub enum DomainView {
    Host,
    Cuda(Seq<char>),
    Unified(Seq<char>),
}

impl View for MemoryDomain {
    type V = DomainView;

    open spec fn view(&self) -> DomainView {
        match self {
            MemoryDomain::Host => DomainView::Host,
            MemoryDomain::Cuda(s) => DomainView::Cuda(s@),
            MemoryDomain::Unified(s) => DomainView::Unified(s@),
        }
    }
}

/// The name of a memory in reports.
pub open spec fn domain_key(d: DomainView) -> Seq<char> {
    match d {
        DomainView::Host => "host"@,
        DomainView::Cuda(s) => "cuda:"@ + s,
        DomainView::Unified(s) => "unified:"@ + s,
    }
}

impl MemoryDomain {
    /// The name of the memory in reports.
    pub fn key(&self) -> (r: String)
        ensures
            r@ == domain_key(self@),
    {
        match self {
            MemoryDomain::Host => "host".to_owned(),
            MemoryDomain::Cuda(s) => "cuda:".to_owned().concat(s.as_str()),
            MemoryDomain::Unified(s) => "unified:".to_owned().concat(s.as_str()),
        }
    }

    pub fn copy(&self) -> (r: MemoryDomain)
        ensures
            r@ == self@,
    {
        match self {
            MemoryDomain::Host => MemoryDomain::Host,
            MemoryDomain::Cuda(s) => MemoryDomain::Cuda(s.as_str().to_owned()),
            MemoryDomain::Unified(s) => MemoryDomain::Unified(s.as_str().to_owned()),
        }
    }

    /// Whether two values stand for the same memory.
    pub fn same(&self, other: &MemoryDomain) -> (r: bool)
        ensures
            r == (self@ == other@),
    {
        match (self, other) {
            (MemoryDomain::Host, MemoryDomain::Host) => true,
            (MemoryDomain::Cuda(a), MemoryDomain::Cuda(b)) => text_eq(a.as_str(), b.as_str()),
            (MemoryDomain::Unified(a), MemoryDomain::Unified(b)) => text_eq(
                a.as_str(),
                b.as_str(),
            ),
            _ => false,
        }
    }
}

/// The place of the last entry for a memory, or -1.
pub open spec fn place_of(s: Seq<(DomainView, nat)>, d: DomainView) -> int
    decreases s.len(),
{
    if s.len() == 0 {
        -1
    } else if s.last().0 == d {
        s.len() - 1
    } else {
        place_of(s.drop_last(), d)
    }
}

/// Whether there is an entry for a memory.
pub open spec fn listed(s: Seq<(DomainView, nat)>, d: DomainView) -> bool {
    place_of(s, d) >= 0
}

/// The amount for a memory, where there is an entry for it.
pub open spec fn found(s: Seq<(DomainView, nat)>, d: DomainView) -> Option<nat> {
    if listed(s, d) {
        Some(s[place_of(s, d)].1)
    } else {
        None
    }
}

/// The amount for a memory, nothing where there is no entry for it.
pub open spec fn amount(s: Seq<(DomainView, nat)>, d: DomainView) -> nat {
    match found(s, d) {
        Some(n) => n,
        None => 0,
    }
}

/// The amounts with that for one memory set.
pub open spec fn with_amount(s: Seq<(DomainView, nat)>, d: DomainView, n: nat) -> Seq<
    (DomainView, nat),
> {
    if listed(s, d) {
        s.update(place_of(s, d), (d, n))
    } else {
        s.push((d, n))
    }
}

/// The amounts with more of one memory.
pub open spec fn with_more(s: Seq<(DomainView, nat)>, d: DomainView, n: nat) -> Seq<
    (DomainView, nat),
> {
    with_amount(s, d, amount(s, d) + n)
}

/// Whether no memory has two entries.
pub open spec fn single(s: Seq<(DomainView, nat)>) -> bool {
    forall|i: int, j: int| 0 <= i < j < s.len() ==> (#[trigger] s[i]).0 != (#[trigger] s[j]).0
}

/// All amounts together.
pub open spec fn sum(s: Seq<(DomainView, nat)>) -> nat
    decreases s.len(),
{
    if s.len() == 0 {
        0
    } else {
        sum(s.drop_last()) + s.last().1
    }
}

/// The largest of the amounts, or nothing where there is none.
pub open spec fn largest(s: Seq<(DomainView, nat)>) -> nat
    decreases s.len(),
{
    if s.len() == 0 {
        0
    } else if largest(s.drop_last()) < s.last().1 {
        s.last().1
    } else {
        largest(s.drop_last())
    }
}

pub proof fn lemma_place(s: Seq<(DomainView, nat)>, d: DomainView)
    ensures
        -1 <= place_of(s, d) < s.len(),
        listed(s, d) ==> s[place_of(s, d)].0 == d,
        listed(s, d) <==> exists|i: int| 0 <= i < s.len() && (#[trigger] s[i]).0 == d,
        forall|i: int| place_of(s, d) < i < s.len() ==> (#[trigger] s[i]).0 != d,
    decreases s.len(),
{
    if s.len() > 0 && s.last().0 != d {
        let rest = s.drop_last();
        lemma_place(rest, d);
        assert(forall|i: int| 0 <= i < rest.len() ==> rest[i] == #[trigger] s[i]);
    }
}

proof fn lemma_place_is(s: Seq<(DomainView, nat)>, d: DomainView, n: int)
    requires
        0 <= n < s.len(),
        s[n].0 == d,
        forall|i: int| n < i < s.len() ==> (#[trigger] s[i]).0 != d,
    ensures
        place_of(s, d) == n,
{
    lemma_place(s, d);
    if place_of(s, d) > n {
        assert(s[place_of(s, d)].0 != d);
    } else if place_of(s, d) < n {
        assert(s[n].0 != d);
    }
}

/// Setting the amount for a memory changes that for no other, and keeps the entries
/// single.
pub proof fn setting_an_amount(s: Seq<(DomainView, nat)>, d: DomainView, n: nat, other: DomainView)
    ensures
        found(with_amount(s, d, n), d) == Some(n),
        other != d ==> found(with_amount(s, d, n), other) == found(s, other),
        single(s) ==> single(with_amount(s, d, n)),
{
    lemma_place(s, d);
    lemma_place(s, other);
    let r = with_amount(s, d, n);
    let p = place_of(s, d);
    if listed(s, d) {
        assert forall|i: int| p < i < r.len() implies (#[trigger] r[i]).0 != d by {
            assert(r[i] == s[i]);
        }
        lemma_place_is(r, d, p);
        if other != d {
            lemma_place(r, other);
            if listed(s, other) {
                let q = place_of(s, other);
                assert forall|i: int| q < i < r.len() implies (#[trigger] r[i]).0 != other by {
                    if i != p {
                        assert(r[i] == s[i]);
                    }
                }
                lemma_place_is(r, other, q);
            } else if listed(r, other) {
                let q = place_of(r, other);
                assert(q != p);
                assert(s[q].0 == other);
            }
        }
        if single(s) {
            assert forall|i: int, j: int| 0 <= i < j < r.len() implies (#[trigger] r[i]).0 != (
            #[trigger] r[j]).0 by {
                assert(s[i].0 != s[j].0);
                assert(r[i].0 == s[i].0 && r[j].0 == s[j].0);
            }
        }
    } else {
        assert(r.drop_last() =~= s);
        if single(s) {
            assert forall|i: int, j: int| 0 <= i < j < r.len() implies (#[trigger] r[i]).0 != (
            #[trigger] r[j]).0 by {
                if j == s.len() {
                    assert(r[i] == s[i]);
                } else {
                    assert(r[i] == s[i] && r[j] == s[j]);
                }
            }
        }
    }
}

proof fn lemma_sum_update(s: Seq<(DomainView, nat)>, i: int, e: (DomainView, nat))
    requires
        0 <= i < s.len(),
    ensures
        sum(s.update(i, e)) == sum(s) - s[i].1 + e.1,
    decreases s.len(),
{
    let r = s.update(i, e);
    if i == s.len() - 1 {
        assert(r.drop_last() =~= s.drop_last());
    } else {
        assert(r.drop_last() =~= s.drop_last().update(i, e));
        lemma_sum_update(s.drop_last(), i, e);
    }
}

/// More of one memory is as much more altogether.
pub proof fn adding_to_an_amount(s: Seq<(DomainView, nat)>, d: DomainView, n: nat)
    ensures
        sum(with_more(s, d, n)) == sum(s) + n,
{
    lemma_place(s, d);
    if listed(s, d) {
        lemma_sum_update(s, place_of(s, d), (d, amount(s, d) + n));
    } else {
        assert(with_more(s, d, n).drop_last() =~= s);
    }
}

/// No amount is larger than the largest, and the largest is one of them.
pub proof fn the_largest_amount(s: Seq<(DomainView, nat)>)
    ensures
        forall|i: int| 0 <= i < s.len() ==> (#[trigger] s[i]).1 <= largest(s),
        s.len() > 0 ==> exists|i: int| 0 <= i < s.len() && (#[trigger] s[i]).1 == largest(s),
    decreases s.len(),
{
    if s.len() > 0 {
        let rest = s.drop_last();
        the_largest_amount(rest);
        assert(forall|i: int| 0 <= i < rest.len() ==> rest[i] == #[trigger] s[i]);
        assert(s[s.len() - 1] == s.last());
        if rest.len() > 0 {
            let i = choose|i: int| 0 <= i < rest.len() && (#[trigger] rest[i]).1 == largest(rest);
            assert(s[i].1 == largest(rest));
        }
    }
}

/// Amounts of memory, in bytes.
#[derive(Debug)]
pub struct DomainBytes {
    pub entries: Vec<(MemoryDomain, u64)>,
}

impl View for DomainBytes {
    type V = Seq<(DomainView, nat)>;

    open spec fn view(&self) -> Seq<(DomainView, nat)> {
        Seq::new(self.entries@.len(), |i: int| (self.entries@[i].0@, self.entries@[i].1 as nat))
    }
}

impl DomainBytes {
    /// No amounts.
    pub fn new() -> (r: DomainBytes)
        ensures
            r@ == Seq::<(DomainView, nat)>::empty(),
    {
        let r = DomainBytes { entries: Vec::new() };
        assert(r@ =~= Seq::<(DomainView, nat)>::empty());
        r
    }

    pub fn copy(&self) -> (r: DomainBytes)
        ensures
            r@ == self@,
    {
        let mut entries: Vec<(MemoryDomain, u64)> = Vec::new();
        let mut i: usize = 0;
        while i < self.entries.len()
            invariant
                i <= self.entries@.len(),
                entries@.len() == i,
                forall|j: int|
                    0 <= j < i ==> (#[trigger] entries@[j]).0@ == self.entries@[j].0@
                        && entries@[j].1 == self.entries@[j].1,
            decreases self.entries@.len() - i,
        {
            entries.push((self.entries[i].0.copy(), self.entries[i].1));
            i += 1;
        }
        let r = DomainBytes { entries };
        assert(r@ =~= self@);
        r
    }

    fn find(&self, domain: &MemoryDomain) -> (r: Option<usize>)
        ensures
            match r {
                Some(i) => place_of(self@, domain@) == i && i < self.entries@.len(),
                None => place_of(self@, domain@) == -1,
            },
    {
        let mut i: usize = self.entries.len();
        assert(self@.take(i as int) =~= self@);
        while i > 0
            invariant
                i <= self.entries@.len(),
                place_of(self@, domain@) == place_of(self@.take(i as int), domain@),
            decreases i,
        {
            assert(self@.take(i as int).drop_last() =~= self@.take(i - 1));
            assert(self@.take(i as int).last() == self@[i - 1]);
            if self.entries[i - 1].0.same(domain) {
                return Some(i - 1);
            }
            i -= 1;
        }
        None
    }

    /// The amount for a memory.
    pub fn get(&self, domain: &MemoryDomain) -> (r: Option<u64>)
        ensures
            match r {
                Some(n) => found(self@, domain@) == Some(n as nat),
                None => found(self@, domain@) is None,
            },
    {
        match self.find(domain) {
            Some(i) => Some(self.entries[i].1),
            None => None,
        }
    }

    /// The amount for a memory, nothing where there is no entry for it.
    pub fn amount_of(&self, domain: &MemoryDomain) -> (r: u64)
        ensures
            r == amount(self@, domain@),
    {
        match self.get(domain) {
            Some(n) => n,
            None => 0,
        }
    }

    /// Sets the amount for a memory.
    pub fn set(&mut self, domain: &MemoryDomain, bytes: u64)
        ensures
            final(self)@ == with_amount(old(self)@, domain@, bytes as nat),
    {
        let ghost before = self@;
        match self.find(domain) {
            Some(i) => {
                self.entries[i] = (domain.copy(), bytes);
                assert(self@ =~= before.update(i as int, (domain@, bytes as nat)));
            },
            None => {
                self.entries.push((domain.copy(), bytes));
                assert(self@ =~= before.push((domain@, bytes as nat)));
            },
        }
    }

    /// Adds to the amount for a memory; where the result is too large to write down,
    /// nothing is changed.
    pub fn add(&mut self, domain: &MemoryDomain, bytes: u64) -> (r: bool)
        ensures
            r == (amount(old(self)@, domain@) + bytes <= u64::MAX),
            final(self)@ == (if r {
                with_more(old(self)@, domain@, bytes as nat)
            } else {
                old(self)@
            }),
    {
        let held = self.amount_of(domain);
        if held > u64::MAX - bytes {
            return false;
        }
        self.set(domain, held + bytes);
        true
    }

    /// Whether there are no entries.
    pub fn is_empty(&self) -> (r: bool)
        ensures
            r == (self@.len() == 0),
    {
        self.entries.len() == 0
    }

    /// All amounts together, where that can be written down.
    pub fn total(&self) -> (r: Option<u64>)
        ensures
            match r {
                Some(n) => n == sum(self@),
                None => sum(self@) > u64::MAX,
            },
    {
        let mut total: u64 = 0;
        let mut i: usize = 0;
        while i < self.entries.len()
            invariant
                i <= self.entries@.len(),
                total == sum(self@.take(i as int)),
            decreases self.entries@.len() - i,
        {
            assert(self@.take(i as int + 1).drop_last() =~= self@.take(i as int));
            let n: u64 = self.entries[i].1;
            if total > u64::MAX - n {
                proof {
                    lemma_sum_prefix(self@, i as int + 1);
                }
                return None;
            }
            total = total + n;
            i += 1;
        }
        assert(self@.take(i as int) =~= self@);
        Some(total)
    }

    /// The largest of the amounts.
    pub fn maximum(&self) -> (r: u64)
        ensures
            r == largest(self@),
    {
        let mut most: u64 = 0;
        let mut i: usize = 0;
        while i < self.entries.len()
            invariant
                i <= self.entries@.len(),
                most == largest(self@.take(i as int)),
            decreases self.entries@.len() - i,
        {
            assert(self@.take(i as int + 1).drop_last() =~= self@.take(i as int));
            let n: u64 = self.entries[i].1;
            if most < n {
                most = n;
            }
            i += 1;
        }
        assert(self@.take(i as int) =~= self@);
        most
    }

    /// The amounts as a JSON object, under the names of the memories.
    pub fn payload(&self) -> (r: Json)
        ensures
            r@ == amounts_payload(self@),
    {
        let mut fields = Fields::new();
        let mut i: usize = 0;
        assert(fields@ =~= amount_fields(self@.take(0)));
        while i < self.entries.len()
            invariant
                i <= self.entries@.len(),
                fields@ == amount_fields(self@.take(i as int)),
            decreases self.entries@.len() - i,
        {
            fields.number(self.entries[i].0.key().as_str(), self.entries[i].1);
            assert(fields@ =~= amount_fields(self@.take(i as int + 1)));
            i += 1;
        }
        assert(self@.take(i as int) =~= self@);
        fields.done()
    }
}

proof fn lemma_sum_prefix(s: Seq<(DomainView, nat)>, n: int)
    requires
        0 <= n <= s.len(),
    ensures
        sum(s.take(n)) <= sum(s),
    decreases s.len() - n,
{
    if n < s.len() {
        assert(s.take(n + 1).drop_last() =~= s.take(n));
        lemma_sum_prefix(s, n + 1);
    } else {
        assert(s.take(n) =~= s);
    }
}

pub open spec fn amount_fields(s: Seq<(DomainView, nat)>) -> Seq<(Seq<char>, JsonView)> {
    Seq::new(s.len(), |i: int| (domain_key(s[i].0), JsonView::Unsigned(s[i].1)))
}

/// The amounts as a JSON object, under the names of the memories.
pub open spec fn amounts_payload(s: Seq<(DomainView, nat)>) -> JsonView {
    JsonView::Object(amount_fields(s))
}

/// Two lists of amounts taken together.
pub open spec fn merged_amounts(
    left: Seq<(DomainView, nat)>,
    right: Seq<(DomainView, nat)>,
) -> Seq<(DomainView, nat)>
    decreases right.len(),
{
    if right.len() == 0 {
        left
    } else {
        with_more(merged_amounts(left, right.drop_last()), right.last().0, right.last().1)
    }
}

/// Whether some amount becomes too large to write down while two lists are taken
/// together.
pub open spec fn merge_overflows(
    left: Seq<(DomainView, nat)>,
    right: Seq<(DomainView, nat)>,
) -> bool {
    exists|i: int|
        0 <= i < right.len() && #[trigger] amount(
            merged_amounts(left, right.take(i)),
            right[i].0,
        ) + right[i].1 > u64::MAX
}

/// Two lists of amounts taken together.
pub fn merge_domain_totals(left: &DomainBytes, right: &DomainBytes) -> (r: Result<
    DomainBytes,
    crate::failure::Failure,
>)
    ensures
        match r {
            Ok(m) => !merge_overflows(left@, right@) && m@ == merged_amounts(left@, right@),
            Err(e) => merge_overflows(left@, right@) && e@ == "resource usage overflow"@,
        },
{
    let mut m = left.copy();
    let mut i: usize = 0;
    while i < right.entries.len()
        invariant
            i <= right.entries@.len(),
            m@ == merged_amounts(left@, right@.take(i as int)),
            forall|j: int|
                0 <= j < i ==> !(#[trigger] amount(
                    merged_amounts(left@, right@.take(j)),
                    right@[j].0,
                ) + right@[j].1 > u64::MAX),
        decreases right.entries@.len() - i,
    {
        assert(right@.take(i as int + 1).drop_last() =~= right@.take(i as int));
        assert(right@.take(i as int + 1).last() == right@[i as int]);
        if !m.add(&right.entries[i].0, right.entries[i].1) {
            assert(amount(merged_amounts(left@, right@.take(i as int)), right@[i as int].0)
                + right@[i as int].1 > u64::MAX);
            return Err(crate::failure::Failure::new("resource usage overflow"));
        }
        i += 1;
    }
    assert(right@.take(i as int) =~= right@);
    Ok(m)
}

/// Taken together, each memory has what both lists have of it.
pub proof fn merging_adds_amounts(
    left: Seq<(DomainView, nat)>,
    right: Seq<(DomainView, nat)>,
    d: DomainView,
)
    requires
        single(right),
    ensures
        amount(merged_amounts(left, right), d) == amount(left, d) + amount(right, d),
        sum(merged_amounts(left, right)) == sum(left) + sum(right),
    decreases right.len(),
{
    if right.len() > 0 {
        let rest = right.drop_last();
        assert(single(rest)) by {
            assert forall|i: int, j: int| 0 <= i < j < rest.len() implies (#[trigger] rest[i]).0
                != (#[trigger] rest[j]).0 by {
                assert(rest[i] == right[i] && rest[j] == right[j]);
            }
        }
        merging_adds_amounts(left, rest, d);
        let m = merged_amounts(left, rest);
        let (k, n) = right.last();
        setting_an_amount(m, k, amount(m, k) + n, d);
        adding_to_an_amount(m, k, n);
        lemma_place(rest, k);
        lemma_place(rest, d);
        if d == k {
            merging_adds_amounts(left, rest, k);
            assert(!listed(rest, k)) by {
                if listed(rest, k) {
                    let p = place_of(rest, k);
                    assert(rest[p] == right[p]);
                    assert(right[right.len() - 1].0 == k);
                }
            }
        } else {
            let p = place_of(rest, d);
            if p >= 0 {
                assert(rest[p] == right[p]);
            }
        }
    }
}

} // verus!
