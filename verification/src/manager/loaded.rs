//! Loaded runtimes, kept in the order of their keys.
use vstd::prelude::*;

use crate::resources::budget::{BudgetView, ResourceBudget};
use crate::resources::ledger::AllocationId;
use crate::runtime::plan::ExternalServerProtocol;
use crate::runtime::process::{ProcessView, RuntimeProcess};
use crate::text::chars::text_eq;
use crate::text::compose::{opt_text, texts};
use crate::text::order::{
    ascending, before, comes_before, lemma_irreflexive, lemma_rank, lemma_rank_is, lemma_total,
    lemma_transitive, rank,
};

verus! {

/// Whether requests can be sent to a runtime.
#[derive(Clone, Copy, Debug, PartialEq, Eq, Structural)]
pub enum RuntimeRouteState {
    Ready,
    Draining,
    Failed,
}

impl RuntimeRouteState {
    pub open spec fn name(self) -> Seq<char> {
        match self {
            RuntimeRouteState::Ready => "ready"@,
            RuntimeRouteState::Draining => "draining"@,
            RuntimeRouteState::Failed => "failed"@,
        }
    }

    /// The name of the state in reports.
    pub fn as_str(self) -> (r: &'static str)
        ensures
            r@ == self.name(),
    {
        match self {
            RuntimeRouteState::Ready => "ready",
            RuntimeRouteState::Draining => "draining",
            RuntimeRouteState::Failed => "failed",
        }
    }
}

/// A runtime that has been loaded.
pub struct LoadedRustRuntime {
    pub model_key: String,
    pub owner_admin_id: Option<String>,
    pub backend_id: String,
    pub model: String,
    pub public_model_id: Option<String>,
    pub mmproj: Option<String>,
    pub ctx_size: Option<u32>,
    pub launch_args: Vec<String>,
    pub cuda_visible_devices: Option<String>,
    pub cuda_warning: Option<String>,
    pub external_server_protocol: ExternalServerProtocol,
    pub client_endpoint: String,
    pub process: RuntimeProcess,
    pub proxy_model_ref: Option<String>,
    pub generation: u64,
    pub route_state: RuntimeRouteState,
    pub allocation_id: AllocationId,
    pub resource_budget: ResourceBudget,
}

pub struct RuntimeView {
    pub model_key: Seq<char>,
    pub owner_admin_id: Option<Seq<char>>,
    pub backend_id: Seq<char>,
    pub model: Seq<char>,
    pub public_model_id: Option<Seq<char>>,
    pub mmproj: Option<Seq<char>>,
    pub ctx_size: Option<u32>,
    pub launch_args: Seq<Seq<char>>,
    pub cuda_visible_devices: Option<Seq<char>>,
    pub cuda_warning: Option<Seq<char>>,
    pub external_server_protocol: ExternalServerProtocol,
    pub client_endpoint: Seq<char>,
    pub process: ProcessView,
    pub proxy_model_ref: Option<Seq<char>>,
    pub generation: u64,
    pub route_state: RuntimeRouteState,
    pub allocation_id: AllocationId,
    pub resource_budget: BudgetView,
}

impl View for LoadedRustRuntime {
    type V = RuntimeView;

    open spec fn view(&self) -> RuntimeView {
        RuntimeView {
            model_key: self.model_key@,
            owner_admin_id: opt_text(self.owner_admin_id),
            backend_id: self.backend_id@,
            model: self.model@,
            public_model_id: opt_text(self.public_model_id),
            mmproj: opt_text(self.mmproj),
            ctx_size: self.ctx_size,
            launch_args: texts(self.launch_args@),
            cuda_visible_devices: opt_text(self.cuda_visible_devices),
            cuda_warning: opt_text(self.cuda_warning),
            external_server_protocol: self.external_server_protocol,
            client_endpoint: self.client_endpoint@,
            process: self.process@,
            proxy_model_ref: opt_text(self.proxy_model_ref),
            generation: self.generation,
            route_state: self.route_state,
            allocation_id: self.allocation_id,
            resource_budget: self.resource_budget@,
        }
    }
}

pub open spec fn runtime_views(v: Seq<LoadedRustRuntime>) -> Seq<RuntimeView> {
    Seq::new(v.len(), |i: int| v[i]@)
}

/// The keys of runtimes.
pub open spec fn keys(s: Seq<RuntimeView>) -> Seq<Seq<char>> {
    Seq::new(s.len(), |i: int| s[i].model_key)
}

/// Whether runtimes stand in the order of their keys.
pub open spec fn in_key_order(s: Seq<RuntimeView>) -> bool {
    ascending(keys(s))
}

/// The place of the runtime with the given key, or -1.
pub open spec fn key_place(s: Seq<RuntimeView>, key: Seq<char>) -> int
    decreases s.len(),
{
    if s.len() == 0 {
        -1
    } else if s.last().model_key == key {
        s.len() - 1
    } else {
        key_place(s.drop_last(), key)
    }
}

/// The runtime with the given key.
pub open spec fn under_key(s: Seq<RuntimeView>, key: Seq<char>) -> Option<RuntimeView> {
    if key_place(s, key) >= 0 {
        Some(s[key_place(s, key)])
    } else {
        None
    }
}

/// The runtimes without the one with the given key.
pub open spec fn without_key(s: Seq<RuntimeView>, key: Seq<char>) -> Seq<RuntimeView> {
    if key_place(s, key) >= 0 {
        s.remove(key_place(s, key))
    } else {
        s
    }
}

/// The runtimes with one put in its place; it replaces one with the same key.
pub open spec fn with_runtime(s: Seq<RuntimeView>, r: RuntimeView) -> Seq<RuntimeView> {
    let i = rank(keys(s), r.model_key);
    if i < s.len() && s[i].model_key == r.model_key {
        s.update(i, r)
    } else {
        s.insert(i, r)
    }
}

pub open spec fn in_state(r: RuntimeView, state: RuntimeRouteState) -> RuntimeView {
    RuntimeView { route_state: state, ..r }
}

/// The runtimes with the state of one of them set.
pub open spec fn with_state(
    s: Seq<RuntimeView>,
    key: Seq<char>,
    state: RuntimeRouteState,
) -> Seq<RuntimeView> {
    if key_place(s, key) >= 0 {
        s.update(key_place(s, key), in_state(s[key_place(s, key)], state))
    } else {
        s
    }
}

pub proof fn lemma_key_place(s: Seq<RuntimeView>, key: Seq<char>)
    ensures
        -1 <= key_place(s, key) < s.len(),
        key_place(s, key) >= 0 ==> s[key_place(s, key)].model_key == key,
        key_place(s, key) >= 0 <==> keys(s).contains(key),
        key_place(s, key) < 0 ==> forall|i: int|
            0 <= i < s.len() ==> (#[trigger] s[i]).model_key != key,
    decreases s.len(),
{
    if s.len() > 0 {
        let rest = s.drop_last();
        lemma_key_place(rest, key);
        if s.last().model_key == key {
            assert(keys(s)[s.len() - 1] == key);
        } else {
            if keys(rest).contains(key) {
                let i = choose|i: int| 0 <= i < rest.len() && keys(rest)[i] == key;
                assert(keys(s)[i] == key);
            }
            if keys(s).contains(key) {
                let i = choose|i: int| 0 <= i < s.len() && keys(s)[i] == key;
                assert(keys(rest)[i] == key);
            }
            if key_place(s, key) < 0 {
                assert forall|i: int| 0 <= i < s.len() implies (#[trigger] s[i]).model_key
                    != key by {
                    if i < s.len() - 1 {
                        assert(rest[i] == s[i]);
                    }
                }
            }
        }
    }
}

pub proof fn lemma_key_place_is(s: Seq<RuntimeView>, key: Seq<char>, n: int)
    requires
        in_key_order(s),
        0 <= n < s.len(),
        s[n].model_key == key,
    ensures
        key_place(s, key) == n,
{
    lemma_key_place(s, key);
    let p = key_place(s, key);
    assert(keys(s)[n] == key);
    lemma_irreflexive(key);
    if p < n {
        assert(before(keys(s)[p], keys(s)[n]));
    } else if p > n {
        assert(before(keys(s)[n], keys(s)[p]));
    }
}

pub proof fn lemma_remove_order(s: Seq<RuntimeView>, p: int)
    requires
        in_key_order(s),
        0 <= p < s.len(),
    ensures
        in_key_order(s.remove(p)),
{
    let r = s.remove(p);
    assert forall|i: int, j: int| 0 <= i < j < r.len() implies before(
        #[trigger] keys(r)[i],
        #[trigger] keys(r)[j],
    ) by {
        let a = if i < p {
            i
        } else {
            i + 1
        };
        let b = if j < p {
            j
        } else {
            j + 1
        };
        assert(keys(r)[i] == keys(s)[a] && keys(r)[j] == keys(s)[b]);
    }
}

pub proof fn lemma_update_order(s: Seq<RuntimeView>, p: int, r: RuntimeView)
    requires
        in_key_order(s),
        0 <= p < s.len(),
        r.model_key == s[p].model_key,
    ensures
        in_key_order(s.update(p, r)),
        keys(s.update(p, r)) == keys(s),
{
    assert(keys(s.update(p, r)) =~= keys(s));
}

/// Taking a runtime out, setting the state of one, and putting one in its place keep
/// runtimes in the order of their keys.
pub proof fn runtimes_stay_in_order(
    s: Seq<RuntimeView>,
    key: Seq<char>,
    state: RuntimeRouteState,
    r: RuntimeView,
)
    requires
        in_key_order(s),
    ensures
        in_key_order(without_key(s, key)),
        in_key_order(with_state(s, key, state)),
        keys(with_state(s, key, state)) == keys(s),
        in_key_order(with_runtime(s, r)),
{
    lemma_key_place(s, key);
    if key_place(s, key) >= 0 {
        lemma_remove_order(s, key_place(s, key));
        lemma_update_order(s, key_place(s, key), in_state(s[key_place(s, key)], state));
    }
    let n = rank(keys(s), r.model_key);
    lemma_rank(keys(s), r.model_key);
    if n < s.len() && s[n].model_key == r.model_key {
        lemma_update_order(s, n, r);
    } else {
        if n < s.len() {
            lemma_total(keys(s)[n], r.model_key);
        }
        let t = s.insert(n, r);
        assert forall|i: int, j: int| 0 <= i < j < t.len() implies before(
            #[trigger] keys(t)[i],
            #[trigger] keys(t)[j],
        ) by {
            if i == n {
                assert(keys(t)[j] == keys(s)[j - 1]);
                if j - 1 > n {
                    lemma_transitive(r.model_key, keys(s)[n], keys(s)[j - 1]);
                }
            } else if j == n {
                assert(keys(t)[i] == keys(s)[i]);
            } else {
                let a = if i < n {
                    i
                } else {
                    i - 1
                };
                let b = if j < n {
                    j
                } else {
                    j - 1
                };
                assert(keys(t)[i] == keys(s)[a] && keys(t)[j] == keys(s)[b]);
            }
        }
    }
}

/// A runtime that was put in its place is found under its key, and is the only one
/// that was added.
pub proof fn a_placed_runtime_is_found(s: Seq<RuntimeView>, r: RuntimeView)
    requires
        in_key_order(s),
    ensures
        under_key(with_runtime(s, r), r.model_key) == Some(r),
        forall|i: int|
            0 <= i < with_runtime(s, r).len() ==> #[trigger] with_runtime(s, r)[i] == r || s.contains(
                with_runtime(s, r)[i],
            ),
{
    runtimes_stay_in_order(s, r.model_key, RuntimeRouteState::Ready, r);
    let n = rank(keys(s), r.model_key);
    lemma_rank(keys(s), r.model_key);
    let t = with_runtime(s, r);
    assert(t[n] == r);
    lemma_key_place_is(t, r.model_key, n);
    assert forall|i: int| 0 <= i < t.len() implies #[trigger] t[i] == r || s.contains(t[i]) by {
        if n < s.len() && s[n].model_key == r.model_key {
            if i != n {
                assert(t[i] == s[i]);
            }
        } else if i < n {
            assert(t[i] == s[i]);
        } else if i > n {
            assert(t[i] == s[i - 1]);
        }
    }
}

/// The place of the runtime with the given key.
pub fn find_key(v: &Vec<LoadedRustRuntime>, key: &str) -> (r: Option<usize>)
    ensures
        match r {
            Some(i) => i == key_place(runtime_views(v@), key@) && i < v@.len(),
            None => key_place(runtime_views(v@), key@) < 0,
        },
{
    let ghost all = runtime_views(v@);
    let mut i: usize = v.len();
    assert(all.take(i as int) =~= all);
    while i > 0
        invariant
            i <= v@.len(),
            all == runtime_views(v@),
            key_place(all, key@) == key_place(all.take(i as int), key@),
        decreases i,
    {
        assert(all.take(i as int).drop_last() =~= all.take(i - 1));
        assert(all.take(i as int).last() == all[i - 1]);
        if text_eq(v[i - 1].model_key.as_str(), key) {
            return Some(i - 1);
        }
        i -= 1;
    }
    None
}

/// Puts a runtime in its place; it replaces one with the same key.
pub fn place_runtime(v: &mut Vec<LoadedRustRuntime>, runtime: LoadedRustRuntime)
    ensures
        runtime_views(final(v)@) == with_runtime(runtime_views(old(v)@), runtime@),
{
    let ghost all = runtime_views(v@);
    let ghost r = runtime@;
    let mut i: usize = 0;
    while i < v.len() && comes_before(v[i].model_key.as_str(), runtime.model_key.as_str())
        invariant
            i <= v@.len(),
            all == runtime_views(v@),
            r == runtime@,
            forall|j: int| 0 <= j < i ==> before(#[trigger] keys(all)[j], r.model_key),
        decreases v@.len() - i,
    {
        assert(before(keys(all)[i as int], r.model_key));
        i += 1;
    }
    proof {
        lemma_rank_is(keys(all), r.model_key, i as int);
    }
    if i < v.len() && text_eq(v[i].model_key.as_str(), runtime.model_key.as_str()) {
        v[i] = runtime;
        assert(runtime_views(v@) =~= all.update(i as int, r));
    } else {
        v.insert(i, runtime);
        assert(runtime_views(v@) =~= all.insert(i as int, r));
    }
}

} // verus!
