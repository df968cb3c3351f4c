//! The state of the gateway's runtimes, and how it changes as runtimes come and go.
//!
//! What has to be asked of a process, the caller asks; what follows from the answer is
//! decided here.
use vstd::prelude::*;

use crate::failure::Failure;
use crate::json::{no_fields, text_or_null, Fields, Json, JsonView};
use crate::manager::loaded::{
    find_key, in_key_order, in_state, key_place, keys, lemma_key_place, lemma_remove_order,
    lemma_update_order, place_runtime, runtime_views, runtimes_stay_in_order, under_key,
    with_runtime, with_state, without_key, LoadedRustRuntime, RuntimeRouteState, RuntimeView,
};
use crate::resources::domains::{DomainView, MemoryDomain};
use crate::resources::ledger::{with_release, AllocationId, LedgerView, ResourceLedger};
use crate::runtime::plan::ExternalServerProtocol;
use crate::runtime::process::{process_error_message, RuntimeProcessError};
use crate::text::chars::text_eq;
use crate::text::compose::{copy_opt, join, joined, no_texts, opt_eq, opt_text, put, texts};
use crate::text::trim::{trim, trimmed};

verus! {

/// The runtimes of a gateway.
pub struct RustRuntimeManager {
    pub selected_backend: Option<String>,
    pub loaded: Vec<LoadedRustRuntime>,
    pub default_model_key: Option<String>,
    pub resource_ledger: Option<ResourceLedger>,
    pub next_capacity_snapshot: u64,
    pub next_generation: u64,
    /// The memories that one runtime has to itself, each with what that runtime holds.
    pub speculative_domains: Vec<(MemoryDomain, AllocationId)>,
}

#[verifier::ext_equal]
pub struct ManagerView {
    pub selected_backend: Option<Seq<char>>,
    pub loaded: Seq<RuntimeView>,
    pub default_model_key: Option<Seq<char>>,
    pub ledger: Option<LedgerView>,
    pub next_capacity_snapshot: u64,
    pub next_generation: u64,
    pub speculative: Seq<(DomainView, AllocationId)>,
}

pub open spec fn exclusive_views(v: Seq<(MemoryDomain, AllocationId)>) -> Seq<
    (DomainView, AllocationId),
> {
    Seq::new(v.len(), |i: int| (v[i].0@, v[i].1))
}

impl View for RustRuntimeManager {
    type V = ManagerView;

    open spec fn view(&self) -> ManagerView {
        ManagerView {
            selected_backend: opt_text(self.selected_backend),
            loaded: runtime_views(self.loaded@),
            default_model_key: opt_text(self.default_model_key),
            ledger: match self.resource_ledger {
                Some(l) => Some(l@),
                None => None,
            },
            next_capacity_snapshot: self.next_capacity_snapshot,
            next_generation: self.next_generation,
            speculative: exclusive_views(self.speculative_domains@),
        }
    }
}

impl ManagerView {
    /// What every manager keeps: its runtimes stand in the order of their keys, and its
    /// ledger is well-formed and older than the next look at the machine.
    pub open spec fn wf(self) -> bool {
        &&& in_key_order(self.loaded)
        &&& self.ledger is Some ==> self.ledger->0.wf() && self.ledger->0.snapshot_id
            < self.next_capacity_snapshot
    }
}

pub open spec fn empty_manager() -> ManagerView {
    ManagerView {
        selected_backend: None,
        loaded: seq![],
        default_model_key: None,
        ledger: None,
        next_capacity_snapshot: 1,
        next_generation: 1,
        speculative: seq![],
    }
}

impl Default for RustRuntimeManager {
    /// A manager that has loaded nothing.
    fn default() -> (r: RustRuntimeManager)
        ensures
            r@ == empty_manager(),
            r@.wf(),
    {
        let r = RustRuntimeManager {
            selected_backend: None,
            loaded: Vec::new(),
            default_model_key: None,
            resource_ledger: None,
            next_capacity_snapshot: 1,
            next_generation: 1,
            speculative_domains: Vec::new(),
        };
        assert(r@ =~= empty_manager());
        r
    }
}

/// Whether a text names a runtime other than by its key.
pub open spec fn also_named(r: RuntimeView, name: Seq<char>) -> bool {
    r.public_model_id == Some(name) || r.model == name || r.proxy_model_ref == Some(name)
}

/// The key of the first runtime that is also named by a text.
pub open spec fn first_also_named(s: Seq<RuntimeView>, name: Seq<char>) -> Option<Seq<char>>
    decreases s.len(),
{
    if s.len() == 0 {
        None
    } else if also_named(s[0], name) {
        Some(s[0].model_key)
    } else {
        first_also_named(s.drop_first(), name)
    }
}

/// The key of the runtime that a request means: the key itself, or else another name.
pub open spec fn resolved_key(s: Seq<RuntimeView>, requested: Seq<char>) -> Option<Seq<char>> {
    let name = trimmed(requested);
    if name.len() == 0 {
        None
    } else if key_place(s, name) >= 0 {
        Some(name)
    } else {
        first_also_named(s, name)
    }
}

/// The key of the runtime that a request is passed on to. A request that names no model,
/// or the gateway itself, goes to the default.
pub open spec fn proxy_key(m: ManagerView, requested: Option<Seq<char>>) -> Option<Seq<char>> {
    match requested {
        None => m.default_model_key,
        Some(text) => {
            let name = trimmed(text);
            if name.len() == 0 || name == "omniinfer"@ || name == "local"@ {
                m.default_model_key
            } else {
                resolved_key(m.loaded, name)
            }
        },
    }
}

/// Whether a runtime serves the model file that is asked for, under a public name that
/// does not contradict.
pub open spec fn serves(
    r: RuntimeView,
    model_path: Seq<char>,
    public_model_id: Option<Seq<char>>,
) -> bool {
    r.model == model_path && (r.public_model_id is None || public_model_id is None
        || r.public_model_id == public_model_id)
}

pub open spec fn first_serving(
    s: Seq<RuntimeView>,
    model_path: Seq<char>,
    public_model_id: Option<Seq<char>>,
) -> Option<Seq<char>>
    decreases s.len(),
{
    if s.len() == 0 {
        None
    } else if serves(s[0], model_path, public_model_id) {
        Some(s[0].model_key)
    } else {
        first_serving(s.drop_first(), model_path, public_model_id)
    }
}

/// The key of the runtime that already serves what is to be loaded.
pub open spec fn matching_key(
    s: Seq<RuntimeView>,
    requested_key: Seq<char>,
    model_path: Seq<char>,
    public_model_id: Option<Seq<char>>,
) -> Option<Seq<char>> {
    if key_place(s, requested_key) >= 0 {
        Some(requested_key)
    } else {
        first_serving(s, model_path, public_model_id)
    }
}

/// Whether a runtime moves to the key under which it is asked for: it has no public
/// name yet and is asked for under one.
pub open spec fn promotes(
    s: Seq<RuntimeView>,
    loaded_key: Seq<char>,
    requested_key: Seq<char>,
    public_model_id: Option<Seq<char>>,
) -> bool {
    &&& loaded_key != requested_key
    &&& public_model_id is Some
    &&& key_place(s, loaded_key) >= 0
    &&& s[key_place(s, loaded_key)].public_model_id is None
}

pub open spec fn promoted(
    s: Seq<RuntimeView>,
    loaded_key: Seq<char>,
    requested_key: Seq<char>,
    public_model_id: Option<Seq<char>>,
) -> Seq<RuntimeView> {
    if promotes(s, loaded_key, requested_key, public_model_id) {
        with_runtime(
            without_key(s, loaded_key),
            RuntimeView {
                model_key: requested_key,
                public_model_id,
                ..s[key_place(s, loaded_key)]
            },
        )
    } else {
        s
    }
}

/// Whether the runtime under a key can be sent requests.
pub open spec fn ready_under(s: Seq<RuntimeView>, key: Seq<char>) -> bool {
    under_key(s, key) is Some && under_key(s, key)->0.route_state == RuntimeRouteState::Ready
}

/// The last key, in the order of keys, whose runtime can be sent requests.
pub open spec fn last_ready(s: Seq<RuntimeView>) -> Option<Seq<char>>
    decreases s.len(),
{
    if s.len() == 0 {
        None
    } else if s.last().route_state == RuntimeRouteState::Ready {
        Some(s.last().model_key)
    } else {
        last_ready(s.drop_last())
    }
}

/// The manager with a default that can be sent requests, where there is any.
pub open spec fn with_fallback(m: ManagerView) -> ManagerView {
    if m.default_model_key is Some && ready_under(m.loaded, m.default_model_key->0) {
        m
    } else {
        ManagerView { default_model_key: last_ready(m.loaded), ..m }
    }
}

/// The memories that runtimes have to themselves, without those of one allocation.
pub open spec fn without_owner(
    s: Seq<(DomainView, AllocationId)>,
    owner: AllocationId,
) -> Seq<(DomainView, AllocationId)>
    decreases s.len(),
{
    if s.len() == 0 {
        seq![]
    } else if s.last().1 == owner {
        without_owner(s.drop_last(), owner)
    } else {
        without_owner(s.drop_last(), owner).push(s.last())
    }
}

/// The manager without the runtime under a key, and with what it held given back.
pub open spec fn released(m: ManagerView, key: Seq<char>) -> ManagerView {
    match under_key(m.loaded, key) {
        None => m,
        Some(r) => ManagerView {
            loaded: without_key(m.loaded, key),
            ledger: match m.ledger {
                Some(l) => Some(with_release(l, r.allocation_id.value)),
                None => None,
            },
            speculative: without_owner(m.speculative, r.allocation_id),
            ..m
        },
    }
}

pub open spec fn released_all(m: ManagerView, ks: Seq<Seq<char>>) -> ManagerView
    decreases ks.len(),
{
    if ks.len() == 0 {
        m
    } else {
        released(released_all(m, ks.drop_last()), ks.last())
    }
}

/// How a look at a process came out.
#[derive(Clone, Copy, Debug, PartialEq, Eq, Structural)]
pub enum ProcessPoll {
    Running,
    Exited,
    /// The process could not be looked at.
    Unknown,
}

/// What was seen of the runtime at a place; one that was not looked at runs.
pub open spec fn poll_at(polls: Seq<ProcessPoll>, i: int) -> ProcessPoll {
    if 0 <= i < polls.len() {
        polls[i]
    } else {
        ProcessPoll::Running
    }
}

/// The runtimes with those marked that could not be looked at.
pub open spec fn marked(s: Seq<RuntimeView>, polls: Seq<ProcessPoll>) -> Seq<RuntimeView> {
    Seq::new(
        s.len(),
        |i: int|
            if poll_at(polls, i) == ProcessPoll::Unknown {
                in_state(s[i], RuntimeRouteState::Failed)
            } else {
                s[i]
            },
    )
}

/// The keys of the runtimes that were seen to have exited.
pub open spec fn exited_keys(s: Seq<RuntimeView>, polls: Seq<ProcessPoll>) -> Seq<Seq<char>>
    decreases s.len(),
{
    if s.len() == 0 {
        seq![]
    } else if poll_at(polls, s.len() - 1) == ProcessPoll::Exited {
        exited_keys(s.drop_last(), polls).push(s.last().model_key)
    } else {
        exited_keys(s.drop_last(), polls)
    }
}

/// The manager after its runtimes were looked at.
pub open spec fn reaped(m: ManagerView, polls: Seq<ProcessPoll>) -> ManagerView {
    with_fallback(
        released_all(
            ManagerView { loaded: marked(m.loaded, polls), ..m },
            exited_keys(m.loaded, polls),
        ),
    )
}

/// The manager after an attempt to stop the runtime under a key: gone where it
/// succeeded, and out of service where it did not.
pub open spec fn after_stop(m: ManagerView, key: Seq<char>, failed: bool) -> ManagerView {
    if failed {
        ManagerView { loaded: with_state(m.loaded, key, RuntimeRouteState::Failed), ..m }
    } else {
        released(m, key)
    }
}

/// The manager after attempts to stop the runtimes under the first `n` keys.
pub open spec fn after_stops(
    m: ManagerView,
    ks: Seq<Seq<char>>,
    outcomes: Seq<Option<Seq<char>>>,
    n: nat,
) -> ManagerView
    decreases n,
{
    if n == 0 {
        m
    } else {
        let i = (n - 1) as nat;
        after_stop(after_stops(m, ks, outcomes, i), ks[i as int], outcomes[i as int] is Some)
    }
}

/// What is told of the attempts that failed.
pub open spec fn stop_failures(ks: Seq<Seq<char>>, outcomes: Seq<Option<Seq<char>>>, n: nat) -> Seq<
    Seq<char>,
>
    decreases n,
{
    if n == 0 {
        seq![]
    } else {
        let i = (n - 1) as nat;
        match outcomes[i as int] {
            Some(error) => stop_failures(ks, outcomes, i).push(ks[i as int] + ": "@ + error),
            None => stop_failures(ks, outcomes, i),
        }
    }
}

pub open spec fn outcome_views(v: Seq<Option<String>>) -> Seq<Option<Seq<char>>> {
    Seq::new(v.len(), |i: int| opt_text(v[i]))
}

/// What is answered when all runtimes were stopped.
pub open spec fn stopped_payload(selected: Option<Seq<char>>, preserved: bool) -> JsonView {
    JsonView::Object(
        no_fields()
            .push(("ok"@, JsonView::Bool(true)))
            .push(("stopped"@, JsonView::Bool(true)))
            .push(("selected_backend"@, text_or_null(selected)))
            .push(("selected_model_preserved"@, JsonView::Bool(preserved)))
            .push(
                (
                    "restore_status"@,
                    JsonView::Text(
                        if preserved {
                            "pending"@
                        } else {
                            "not_configured"@
                        },
                    ),
                ),
            ),
    )
}

/// What is answered when a runtime was unloaded.
pub open spec fn unloaded_payload(r: RuntimeView) -> JsonView {
    JsonView::Object(
        no_fields()
            .push(("ok"@, JsonView::Bool(true)))
            .push(("unloaded"@, JsonView::Bool(true)))
            .push(("model"@, JsonView::Text(r.model_key)))
            .push(("owner_admin_id"@, text_or_null(r.owner_admin_id)))
            .push(("invalidated_generation"@, JsonView::Unsigned(r.generation as nat)))
            .push(("resources_released"@, JsonView::Bool(true))),
    )
}

/// What is answered when a backend was selected.
pub open spec fn selected_payload(
    id: Seq<char>,
    binary_exists: bool,
    models_dir: Option<Seq<char>>,
) -> JsonView {
    JsonView::Object(
        no_fields()
            .push(("ok"@, JsonView::Bool(true)))
            .push(("selected_backend"@, JsonView::Text(id)))
            .push(("binary_exists"@, JsonView::Bool(binary_exists)))
            .push(("models_dir"@, text_or_null(models_dir))),
    )
}

/// Where a request is passed on to.
#[derive(Debug)]
pub struct RuntimeProxyTarget {
    pub base_url: Option<String>,
    pub client_endpoint: String,
    pub protocol: ExternalServerProtocol,
    pub backend_id: String,
    pub model: Option<String>,
    pub generation: u64,
}

pub struct TargetView {
    pub base_url: Option<Seq<char>>,
    pub client_endpoint: Seq<char>,
    pub protocol: ExternalServerProtocol,
    pub backend_id: Seq<char>,
    pub model: Option<Seq<char>>,
    pub generation: u64,
}

impl View for RuntimeProxyTarget {
    type V = TargetView;

    open spec fn view(&self) -> TargetView {
        TargetView {
            base_url: opt_text(self.base_url),
            client_endpoint: self.client_endpoint@,
            protocol: self.protocol,
            backend_id: self.backend_id@,
            model: opt_text(self.model),
            generation: self.generation,
        }
    }
}

pub open spec fn target_of(r: RuntimeView) -> TargetView {
    TargetView {
        base_url: if r.external_server_protocol != ExternalServerProtocol::VlaCppZmqServer {
            Some(r.client_endpoint)
        } else {
            None
        },
        client_endpoint: r.client_endpoint,
        protocol: r.external_server_protocol,
        backend_id: r.backend_id,
        model: r.proxy_model_ref,
        generation: r.generation,
    }
}

/// Where a request is passed on to: a runtime that can be sent requests, or none.
pub open spec fn proxy_target(m: ManagerView, requested: Option<Seq<char>>) -> Option<TargetView> {
    match proxy_key(m, requested) {
        None => None,
        Some(key) => if ready_under(m.loaded, key) {
            Some(target_of(under_key(m.loaded, key)->0))
        } else {
            None
        },
    }
}

proof fn lemma_take_last<A>(s: Seq<A>, i: int)
    requires
        0 <= i < s.len(),
    ensures
        s.take(i + 1).drop_last() == s.take(i),
        s.take(i + 1).last() == s[i],
{
    assert(s.take(i + 1).drop_last() =~= s.take(i));
}

impl RustRuntimeManager {
    /// The key of the runtime that a request means.
    pub fn resolve_loaded_model_key(&self, requested: &str) -> (r: Option<String>)
        ensures
            opt_text(r) == resolved_key(self@.loaded, requested@),
    {
        let name = trim(requested);
        if name.as_str().is_empty() {
            return None;
        }
        proof {
            lemma_key_place(self@.loaded, name@);
        }
        if find_key(&self.loaded, name.as_str()).is_some() {
            return Some(name);
        }
        let ghost all = self@.loaded;
        let mut i: usize = 0;
        assert(all.skip(0) =~= all);
        while i < self.loaded.len()
            invariant
                i <= self.loaded@.len(),
                all == runtime_views(self.loaded@),
                name@ == trimmed(requested@),
                name@.len() > 0,
                key_place(all, name@) < 0,
                first_also_named(all, name@) == first_also_named(all.skip(i as int), name@),
            decreases self.loaded@.len() - i,
        {
            assert(all.skip(i as int).drop_first() =~= all.skip(i as int + 1));
            let runtime = &self.loaded[i];
            let some = Some(name.as_str().to_owned());
            if opt_eq(&runtime.public_model_id, &some) || text_eq(
                runtime.model.as_str(),
                name.as_str(),
            ) || opt_eq(&runtime.proxy_model_ref, &some) {
                return Some(runtime.model_key.as_str().to_owned());
            }
            i += 1;
        }
        None
    }

    /// The key of the runtime that a request is passed on to.
    pub fn resolve_proxy_model_key(&self, requested_model: &Option<String>) -> (r: Option<String>)
        ensures
            opt_text(r) == proxy_key(self@, opt_text(*requested_model)),
    {
        match requested_model {
            None => copy_opt(&self.default_model_key),
            Some(text) => {
                let name = trim(text.as_str());
                if name.as_str().is_empty() || text_eq(name.as_str(), "omniinfer") || text_eq(
                    name.as_str(),
                    "local",
                ) {
                    copy_opt(&self.default_model_key)
                } else {
                    self.resolve_loaded_model_key(name.as_str())
                }
            },
        }
    }

    /// The key of the runtime that already serves what is to be loaded.
    pub fn matching_loaded_model_key(
        &self,
        requested_key: &str,
        model_path: &str,
        public_model_id: &Option<String>,
    ) -> (r: Option<String>)
        ensures
            opt_text(r) == matching_key(
                self@.loaded,
                requested_key@,
                model_path@,
                opt_text(*public_model_id),
            ),
    {
        proof {
            lemma_key_place(self@.loaded, requested_key@);
        }
        if find_key(&self.loaded, requested_key).is_some() {
            return Some(requested_key.to_owned());
        }
        let ghost all = self@.loaded;
        let ghost id = opt_text(*public_model_id);
        let mut i: usize = 0;
        assert(all.skip(0) =~= all);
        while i < self.loaded.len()
            invariant
                i <= self.loaded@.len(),
                all == runtime_views(self.loaded@),
                id == opt_text(*public_model_id),
                key_place(all, requested_key@) < 0,
                first_serving(all, model_path@, id) == first_serving(
                    all.skip(i as int),
                    model_path@,
                    id,
                ),
            decreases self.loaded@.len() - i,
        {
            assert(all.skip(i as int).drop_first() =~= all.skip(i as int + 1));
            let runtime = &self.loaded[i];
            let compatible = runtime.public_model_id.is_none() || public_model_id.is_none()
                || opt_eq(&runtime.public_model_id, public_model_id);
            if text_eq(runtime.model.as_str(), model_path) && compatible {
                return Some(runtime.model_key.as_str().to_owned());
            }
            i += 1;
        }
        None
    }

    /// Moves a runtime without a public name to the key and the public name under which
    /// it is asked for, and says under which key it is found from now on.
    pub fn promote_loaded_model_key(
        &mut self,
        loaded_key: &str,
        requested_key: &str,
        public_model_id: &Option<String>,
    ) -> (r: String)
        requires
            old(self)@.wf(),
        ensures
            final(self)@.wf(),
            final(self)@ == (ManagerView {
                loaded: promoted(
                    old(self)@.loaded,
                    loaded_key@,
                    requested_key@,
                    opt_text(*public_model_id),
                ),
                ..old(self)@
            }),
            r@ == (if promotes(
                old(self)@.loaded,
                loaded_key@,
                requested_key@,
                opt_text(*public_model_id),
            ) {
                requested_key@
            } else {
                loaded_key@
            }),
    {
        if text_eq(loaded_key, requested_key) || public_model_id.is_none() {
            return loaded_key.to_owned();
        }
        let ghost before = self@;
        proof {
            lemma_key_place(before.loaded, loaded_key@);
        }
        let i: usize = match find_key(&self.loaded, loaded_key) {
            Some(i) => i,
            None => {
                return loaded_key.to_owned();
            },
        };
        if self.loaded[i].public_model_id.is_some() {
            return loaded_key.to_owned();
        }
        let mut runtime = self.loaded.remove(i);
        let ghost was = runtime@;
        assert(was == before.loaded[i as int]);
        assert(self@.loaded =~= before.loaded.remove(i as int));
        runtime.model_key = requested_key.to_owned();
        runtime.public_model_id = copy_opt(public_model_id);
        proof {
            lemma_remove_order(before.loaded, i as int);
            runtimes_stay_in_order(
                self@.loaded,
                loaded_key@,
                RuntimeRouteState::Ready,
                runtime@,
            );
        }
        place_runtime(&mut self.loaded, runtime);
        assert(self@ =~= (ManagerView {
            loaded: promoted(
                before.loaded,
                loaded_key@,
                requested_key@,
                opt_text(*public_model_id),
            ),
            ..before
        }));
        requested_key.to_owned()
    }

    /// Gives the manager a default that can be sent requests, where there is any.
    pub fn select_fallback_default(&mut self)
        ensures
            final(self)@ == with_fallback(old(self)@),
    {
        let ghost before = self@;
        let keep = match &self.default_model_key {
            Some(key) => {
                proof {
                    lemma_key_place(before.loaded, key@);
                }
                match find_key(&self.loaded, key.as_str()) {
                    Some(i) => self.loaded[i].route_state == RuntimeRouteState::Ready,
                    None => false,
                }
            },
            None => false,
        };
        if keep {
            return;
        }
        let ghost all = self@.loaded;
        let mut chosen: Option<String> = None;
        let mut i: usize = self.loaded.len();
        assert(all.take(i as int) =~= all);
        while i > 0 && chosen.is_none()
            invariant
                i <= self.loaded@.len(),
                all == runtime_views(self.loaded@),
                chosen is None ==> last_ready(all) == last_ready(all.take(i as int)),
                chosen is Some ==> last_ready(all) == opt_text(chosen),
            decreases i,
        {
            proof {
                lemma_take_last(all, i - 1);
            }
            if self.loaded[i - 1].route_state == RuntimeRouteState::Ready {
                chosen = Some(self.loaded[i - 1].model_key.as_str().to_owned());
            }
            i -= 1;
        }
        self.default_model_key = chosen;
        assert(self@ =~= with_fallback(before));
    }

    /// Gives back the memories that the runtime with an allocation had to itself.
    pub fn clear_speculative_owner(&mut self, owner: AllocationId)
        ensures
            final(self)@ == (ManagerView {
                speculative: without_owner(old(self)@.speculative, owner),
                ..old(self)@
            }),
    {
        let ghost before = self@;
        let ghost all = exclusive_views(self.speculative_domains@);
        let mut kept: Vec<(MemoryDomain, AllocationId)> = Vec::new();
        let mut i: usize = 0;
        assert(exclusive_views(kept@) =~= without_owner(all.take(0), owner));
        while i < self.speculative_domains.len()
            invariant
                i <= self.speculative_domains@.len(),
                all == exclusive_views(self.speculative_domains@),
                exclusive_views(kept@) == without_owner(all.take(i as int), owner),
            decreases self.speculative_domains@.len() - i,
        {
            proof {
                lemma_take_last(all, i as int);
            }
            let id = self.speculative_domains[i].1;
            if id != owner {
                let ghost was = exclusive_views(kept@);
                kept.push((self.speculative_domains[i].0.copy(), id));
                assert(exclusive_views(kept@) =~= was.push(all[i as int]));
            }
            i += 1;
        }
        assert(all.take(i as int) =~= all);
        self.speculative_domains = kept;
        assert(self@ =~= (ManagerView {
            speculative: without_owner(before.speculative, owner),
            ..before
        }));
    }

    /// Takes out the runtime under a key and gives back what it held.
    pub fn remove_runtime_and_release(&mut self, key: &str)
        requires
            old(self)@.wf(),
        ensures
            final(self)@.wf(),
            final(self)@ == released(old(self)@, key@),
    {
        let ghost before = self@;
        proof {
            lemma_key_place(before.loaded, key@);
        }
        if let Some(i) = find_key(&self.loaded, key) {
            let runtime = self.loaded.remove(i);
            assert(runtime@ == before.loaded[i as int]);
            assert(self@.loaded =~= before.loaded.remove(i as int));
            proof {
                lemma_remove_order(before.loaded, i as int);
            }
            let id = runtime.allocation_id;
            if let Some(ledger) = &mut self.resource_ledger {
                let _ = ledger.release(id);
            }
            self.clear_speculative_owner(id);
            assert(self@ =~= released(before, key@));
        }
    }

    /// Takes note of a look at every runtime: those that have exited are taken out, and
    /// those that could not be looked at are put out of service.
    pub fn reap_exited_runtimes(&mut self, polls: &Vec<ProcessPoll>)
        requires
            old(self)@.wf(),
        ensures
            final(self)@.wf(),
            final(self)@ == reaped(old(self)@, polls@),
    {
        let ghost before = self@;
        let ghost all = self@.loaded;
        let mut exited = no_texts();
        let mut i: usize = 0;
        assert(marked(all, polls@).take(0) + all.skip(0) =~= all);
        assert(texts(exited@) =~= exited_keys(all.take(0), polls@));
        while i < self.loaded.len()
            invariant
                i <= self.loaded@.len(),
                self.loaded@.len() == all.len(),
                before.loaded == all,
                self@ == (ManagerView { loaded: self@.loaded, ..before }),
                self@.loaded == marked(all, polls@).take(i as int) + all.skip(i as int),
                texts(exited@) == exited_keys(all.take(i as int), polls@),
            decreases self.loaded@.len() - i,
        {
            proof {
                lemma_take_last(all, i as int);
            }
            assert(self@.loaded[i as int] == all[i as int]);
            let poll = if i < polls.len() {
                polls[i]
            } else {
                ProcessPoll::Running
            };
            assert(poll == poll_at(polls@, i as int));
            let ghost now = self@.loaded;
            match poll {
                ProcessPoll::Exited => {
                    put(&mut exited, self.loaded[i].model_key.as_str());
                },
                ProcessPoll::Unknown => {
                    self.loaded[i].route_state = RuntimeRouteState::Failed;
                },
                ProcessPoll::Running => {},
            }
            let ghost next = marked(all, polls@).take(i as int + 1) + all.skip(i as int + 1);
            assert forall|j: int| 0 <= j < all.len() implies self@.loaded[j] == next[j] by {
                if j != i {
                    assert(self@.loaded[j] == now[j]);
                }
            }
            assert(self@.loaded =~= next);
            i += 1;
        }
        assert(self@.loaded =~= marked(all, polls@));
        assert(all.take(i as int) =~= all);
        assert(keys(marked(all, polls@)) =~= keys(all));
        let ghost start = self@;
        assert(start =~= (ManagerView { loaded: marked(all, polls@), ..before }));
        let ghost ks = texts(exited@);
        let mut k: usize = 0;
        while k < exited.len()
            invariant
                k <= exited@.len(),
                ks == texts(exited@),
                self@.wf(),
                self@ == released_all(start, ks.take(k as int)),
            decreases exited@.len() - k,
        {
            proof {
                lemma_take_last(ks, k as int);
            }
            self.remove_runtime_and_release(exited[k].as_str());
            k += 1;
        }
        assert(ks.take(k as int) =~= ks);
        self.select_fallback_default();
    }

    /// Whether some runtime can be sent requests.
    pub fn has_ready_runtime(&self) -> (r: bool)
        ensures
            r == exists|i: int|
                0 <= i < self@.loaded.len() && (#[trigger] self@.loaded[i]).route_state
                    == RuntimeRouteState::Ready,
    {
        let mut i: usize = 0;
        while i < self.loaded.len()
            invariant
                i <= self.loaded@.len(),
                forall|j: int|
                    0 <= j < i ==> (#[trigger] self@.loaded[j]).route_state
                        != RuntimeRouteState::Ready,
            decreases self.loaded@.len() - i,
        {
            assert(self@.loaded[i as int] == self.loaded@[i as int]@);
            if self.loaded[i].route_state == RuntimeRouteState::Ready {
                return true;
            }
            i += 1;
        }
        false
    }

    /// Whether some runtime can be sent requests, after a look at all of them.
    pub fn has_loaded_runtime(&mut self, polls: &Vec<ProcessPoll>) -> (r: bool)
        requires
            old(self)@.wf(),
        ensures
            final(self)@.wf(),
            final(self)@ == reaped(old(self)@, polls@),
            r == exists|i: int|
                0 <= i < final(self)@.loaded.len() && (#[trigger] final(self)@.loaded[i]).route_state
                    == RuntimeRouteState::Ready,
    {
        self.reap_exited_runtimes(polls);
        self.has_ready_runtime()
    }

    /// Where a request is passed on to, after a look at all runtimes.
    pub fn proxy_target_for_model(
        &mut self,
        polls: &Vec<ProcessPoll>,
        requested_model: &Option<String>,
    ) -> (r: Option<RuntimeProxyTarget>)
        requires
            old(self)@.wf(),
        ensures
            final(self)@.wf(),
            final(self)@ == reaped(old(self)@, polls@),
            match r {
                Some(t) => proxy_target(final(self)@, opt_text(*requested_model)) == Some(t@),
                None => proxy_target(final(self)@, opt_text(*requested_model)) is None,
            },
    {
        self.reap_exited_runtimes(polls);
        let key = match self.resolve_proxy_model_key(requested_model) {
            Some(key) => key,
            None => {
                return None;
            },
        };
        proof {
            lemma_key_place(self@.loaded, key@);
        }
        let i: usize = match find_key(&self.loaded, key.as_str()) {
            Some(i) => i,
            None => {
                return None;
            },
        };
        let runtime = &self.loaded[i];
        assert(runtime@ == self@.loaded[i as int]);
        if runtime.route_state != RuntimeRouteState::Ready {
            return None;
        }
        let base_url = if runtime.external_server_protocol.is_openai_compatible() {
            Some(runtime.client_endpoint.as_str().to_owned())
        } else {
            None
        };
        Some(
            RuntimeProxyTarget {
                base_url,
                client_endpoint: runtime.client_endpoint.as_str().to_owned(),
                protocol: runtime.external_server_protocol,
                backend_id: runtime.backend_id.as_str().to_owned(),
                model: copy_opt(&runtime.proxy_model_ref),
                generation: runtime.generation,
            },
        )
    }

    /// The address that a request is passed on to, after a look at all runtimes.
    pub fn proxy_base_for_model(
        &mut self,
        polls: &Vec<ProcessPoll>,
        requested_model: &Option<String>,
    ) -> (r: Option<String>)
        requires
            old(self)@.wf(),
        ensures
            final(self)@.wf(),
            final(self)@ == reaped(old(self)@, polls@),
            opt_text(r) == (match proxy_target(final(self)@, opt_text(*requested_model)) {
                Some(t) => t.base_url,
                None => None,
            }),
    {
        match self.proxy_target_for_model(polls, requested_model) {
            Some(target) => target.base_url,
            None => None,
        }
    }

    fn set_state(&mut self, key: &str, state: RuntimeRouteState)
        requires
            old(self)@.wf(),
        ensures
            final(self)@.wf(),
            final(self)@ == (ManagerView {
                loaded: with_state(old(self)@.loaded, key@, state),
                ..old(self)@
            }),
    {
        let ghost before = self@;
        proof {
            lemma_key_place(before.loaded, key@);
        }
        if let Some(i) = find_key(&self.loaded, key) {
            proof {
                lemma_update_order(
                    before.loaded,
                    i as int,
                    in_state(before.loaded[i as int], state),
                );
            }
            self.loaded[i].route_state = state;
            assert(self@.loaded =~= with_state(before.loaded, key@, state));
        }
        assert(self@ =~= (ManagerView {
            loaded: with_state(before.loaded, key@, state),
            ..before
        }));
    }

    /// Whether the runtimes have to be stopped before a backend is selected.
    pub fn must_stop_for(&self, backend_id: &str) -> (r: bool)
        ensures
            r == (self@.selected_backend != Some(backend_id@)),
    {
        match &self.selected_backend {
            Some(id) => !text_eq(id.as_str(), backend_id),
            None => true,
        }
    }

    /// Selects a backend, and gives the answer.
    pub fn select_backend(
        &mut self,
        backend_id: &str,
        binary_exists: bool,
        models_dir: &Option<String>,
    ) -> (r: Json)
        ensures
            final(self)@ == (ManagerView {
                selected_backend: Some(backend_id@),
                ..old(self)@
            }),
            r@ == selected_payload(backend_id@, binary_exists, opt_text(*models_dir)),
    {
        self.selected_backend = Some(backend_id.to_owned());
        let mut fields = Fields::new();
        fields.flag("ok", true);
        fields.text("selected_backend", backend_id);
        fields.flag("binary_exists", binary_exists);
        fields.opt_text("models_dir", models_dir);
        fields.done()
    }

    /// Takes note of an attempt to stop every runtime, in the order of their keys:
    /// `outcomes` holds the error of each attempt that failed. Gives the answer.
    pub fn stop_runtime(
        &mut self,
        outcomes: &Vec<Option<String>>,
        selected_model_preserved: bool,
    ) -> (r: Result<Json, Failure>)
        requires
            old(self)@.wf(),
            outcomes@.len() == old(self)@.loaded.len(),
        ensures
            final(self)@.wf(),
            final(self)@ == with_fallback(
                after_stops(
                    old(self)@,
                    keys(old(self)@.loaded),
                    outcome_views(outcomes@),
                    outcomes@.len(),
                ),
            ),
            ({
                let failures = stop_failures(
                    keys(old(self)@.loaded),
                    outcome_views(outcomes@),
                    outcomes@.len(),
                );
                match r {
                    Ok(answer) => failures.len() == 0 && answer@ == stopped_payload(
                        old(self)@.selected_backend,
                        selected_model_preserved,
                    ),
                    Err(e) => failures.len() > 0 && e@ == "failed to stop runtimes: "@ + joined(
                        failures,
                        "; "@,
                    ),
                }
            }),
    {
        let ghost before = self@;
        let ghost ks = keys(before.loaded);
        let ghost said = outcome_views(outcomes@);
        let mut names = no_texts();
        let mut n: usize = 0;
        assert(texts(names@) =~= ks.take(0));
        while n < self.loaded.len()
            invariant
                n <= self.loaded@.len(),
                ks == keys(self@.loaded),
                texts(names@) == ks.take(n as int),
            decreases self.loaded@.len() - n,
        {
            put(&mut names, self.loaded[n].model_key.as_str());
            assert(ks.take(n as int + 1) =~= ks.take(n as int).push(ks[n as int]));
            n += 1;
        }
        assert(ks.take(n as int) =~= ks);
        assert(names@.len() == texts(names@).len());
        let mut failures = no_texts();
        let mut i: usize = 0;
        while i < outcomes.len()
            invariant
                i <= outcomes@.len(),
                outcomes@.len() == names@.len(),
                ks == texts(names@),
                said == outcome_views(outcomes@),
                self@.wf(),
                self@ == after_stops(before, ks, said, i as nat),
                self@.selected_backend == before.selected_backend,
                texts(failures@) == stop_failures(ks, said, i as nat),
            decreases outcomes@.len() - i,
        {
            assert(ks[i as int] == names@[i as int]@);
            assert(said[i as int] == opt_text(outcomes@[i as int]));
            let key = names[i].as_str();
            match &outcomes[i] {
                None => {
                    self.remove_runtime_and_release(key);
                },
                Some(error) => {
                    self.set_state(key, RuntimeRouteState::Failed);
                    put(
                        &mut failures,
                        key.to_owned().concat(": ").concat(error.as_str()).as_str(),
                    );
                },
            }
            i += 1;
        }
        self.select_fallback_default();
        assert(failures@.len() == texts(failures@).len());
        if failures.len() > 0 {
            return Err(
                Failure::about(
                    "failed to stop runtimes: ",
                    join(&failures, "; ").as_str(),
                ),
            );
        }
        let mut fields = Fields::new();
        fields.flag("ok", true);
        fields.flag("stopped", true);
        fields.opt_text("selected_backend", &self.selected_backend);
        fields.flag("selected_model_preserved", selected_model_preserved);
        fields.text(
            "restore_status",
            if selected_model_preserved {
                "pending"
            } else {
                "not_configured"
            },
        );
        Ok(fields.done())
    }

    /// Begins to unload a model: finds its runtime, refuses an admin who does not own
    /// it, and lets the runtime take no more requests. Gives the key of the runtime.
    pub fn begin_unload(&mut self, model: &str, admin_id: &Option<String>) -> (r: Result<
        String,
        Failure,
    >)
        requires
            old(self)@.wf(),
        ensures
            final(self)@.wf(),
            match r {
                Ok(key) => unload_refusal(old(self)@.loaded, model@, opt_text(*admin_id)) is None
                    && resolved_key(old(self)@.loaded, model@) == Some(key@) && final(self)@ == (
                ManagerView {
                    loaded: with_state(old(self)@.loaded, key@, RuntimeRouteState::Draining),
                    ..old(self)@
                }),
                Err(e) => unload_refusal(old(self)@.loaded, model@, opt_text(*admin_id)) == Some(
                    e@,
                ) && final(self)@ == old(self)@,
            },
    {
        let key = match self.resolve_loaded_model_key(model) {
            Some(key) => key,
            None => {
                return Err(Failure::about("model is not loaded: ", model));
            },
        };
        proof {
            lemma_key_place(self@.loaded, key@);
        }
        let owner = match find_key(&self.loaded, key.as_str()) {
            Some(i) => copy_opt(&self.loaded[i].owner_admin_id),
            None => None,
        };
        if let (Some(owner), Some(admin)) = (&owner, admin_id) {
            if !text_eq(owner.as_str(), admin.as_str()) {
                let message = "model '".to_owned().concat(key.as_str()).concat(
                    "' is owned by admin '",
                ).concat(owner.as_str()).concat("' and cannot be unloaded by admin '").concat(
                    admin.as_str(),
                ).concat("'");
                return Err(Failure { message });
            }
        }
        self.set_state(key.as_str(), RuntimeRouteState::Draining);
        Ok(key)
    }

    /// Ends the unloading of the runtime under a key, given what came of stopping its
    /// process. Gives the answer, or nothing where there is no such runtime.
    pub fn unload_model(&mut self, key: &str, stopped: Result<(), RuntimeProcessError>) -> (r:
        Option<Result<Json, Failure>>)
        requires
            old(self)@.wf(),
        ensures
            final(self)@.wf(),
            match under_key(old(self)@.loaded, key@) {
                None => r is None && final(self)@ == old(self)@,
                Some(runtime) => match (stopped, r) {
                    (Ok(_), Some(Ok(answer))) => final(self)@ == with_fallback(
                        released(old(self)@, key@),
                    ) && answer@ == unloaded_payload(runtime),
                    (Err(error), Some(Err(e))) => final(self)@ == (ManagerView {
                        loaded: with_state(old(self)@.loaded, key@, RuntimeRouteState::Failed),
                        ..old(self)@
                    }) && e@ == process_error_message(error@),
                    _ => false,
                },
            },
    {
        let ghost before = self@;
        proof {
            lemma_key_place(before.loaded, key@);
        }
        let i: usize = match find_key(&self.loaded, key) {
            Some(i) => i,
            None => {
                return None;
            },
        };
        let generation: u64 = self.loaded[i].generation;
        let owner = copy_opt(&self.loaded[i].owner_admin_id);
        match stopped {
            Err(error) => {
                self.set_state(key, RuntimeRouteState::Failed);
                Some(Err(Failure { message: error.message() }))
            },
            Ok(_) => {
                self.remove_runtime_and_release(key);
                self.select_fallback_default();
                let mut fields = Fields::new();
                fields.flag("ok", true);
                fields.flag("unloaded", true);
                fields.text("model", key);
                fields.opt_text("owner_admin_id", &owner);
                fields.number("invalidated_generation", generation);
                fields.flag("resources_released", true);
                Some(Ok(fields.done()))
            },
        }
    }
}

/// Why a model cannot be unloaded: it is not loaded, or it is another admin's.
pub open spec fn unload_refusal(
    s: Seq<RuntimeView>,
    model: Seq<char>,
    admin: Option<Seq<char>>,
) -> Option<Seq<char>> {
    match resolved_key(s, model) {
        None => Some("model is not loaded: "@ + model),
        Some(key) => match (under_key(s, key), admin) {
            (Some(r), Some(a)) => if r.owner_admin_id is Some && r.owner_admin_id->0 != a {
                Some(
                    "model '"@ + key + "' is owned by admin '"@ + r.owner_admin_id->0
                        + "' and cannot be unloaded by admin '"@ + a + "'"@,
                )
            } else {
                None
            },
            _ => None,
        },
    }
}

/// Requests are passed on only to a runtime that can be sent requests: not to one that
/// is being stopped, nor to one that failed.
pub proof fn requests_go_to_ready_runtimes(m: ManagerView, requested: Option<Seq<char>>)
    requires
        proxy_target(m, requested) is Some,
    ensures
        exists|i: int|
            0 <= i < m.loaded.len() && (#[trigger] m.loaded[i]).route_state
                == RuntimeRouteState::Ready && proxy_target(m, requested) == Some(
                target_of(m.loaded[i]),
            ),
{
    let key = proxy_key(m, requested)->0;
    lemma_key_place(m.loaded, key);
    let i = key_place(m.loaded, key);
    assert(m.loaded[i].route_state == RuntimeRouteState::Ready);
}

proof fn lemma_last_ready(s: Seq<RuntimeView>)
    requires
        in_key_order(s),
    ensures
        match last_ready(s) {
            Some(key) => ready_under(s, key),
            None => forall|i: int|
                0 <= i < s.len() ==> (#[trigger] s[i]).route_state != RuntimeRouteState::Ready,
        },
    decreases s.len(),
{
    if s.len() > 0 {
        let rest = s.drop_last();
        if s.last().route_state == RuntimeRouteState::Ready {
            assert(s[s.len() - 1] == s.last());
        } else {
            assert(in_key_order(rest)) by {
                assert forall|i: int, j: int| 0 <= i < j < rest.len() implies crate::text::order::before(
                    #[trigger] keys(rest)[i],
                    #[trigger] keys(rest)[j],
                ) by {
                    assert(keys(rest)[i] == keys(s)[i] && keys(rest)[j] == keys(s)[j]);
                }
            }
            lemma_last_ready(rest);
            match last_ready(s) {
                Some(key) => {
                    lemma_key_place(rest, key);
                    let p = key_place(rest, key);
                    assert(rest[p] == s[p]);
                    crate::manager::loaded::lemma_key_place_is(s, key, p);
                },
                None => {
                    assert forall|i: int| 0 <= i < s.len() implies (#[trigger] s[i]).route_state
                        != RuntimeRouteState::Ready by {
                        if i < s.len() - 1 {
                            assert(rest[i] == s[i]);
                        }
                    }
                },
            }
        }
    }
}

/// After a fallback was chosen, the default can be sent requests, and there is none only
/// where no runtime can.
pub proof fn the_default_can_be_sent_requests(m: ManagerView)
    requires
        m.wf(),
    ensures
        match with_fallback(m).default_model_key {
            Some(key) => ready_under(m.loaded, key),
            None => forall|i: int|
                0 <= i < m.loaded.len() ==> (#[trigger] m.loaded[i]).route_state
                    != RuntimeRouteState::Ready,
        },
        with_fallback(with_fallback(m)) == with_fallback(m),
{
    lemma_last_ready(m.loaded);
}

/// A runtime that was asked to take no more requests is not chosen for any.
pub proof fn a_draining_runtime_gets_no_requests(
    m: ManagerView,
    key: Seq<char>,
    requested: Option<Seq<char>>,
)
    requires
        m.wf(),
        proxy_key(
            ManagerView { loaded: with_state(m.loaded, key, RuntimeRouteState::Draining), ..m },
            requested,
        ) == Some(key),
    ensures
        proxy_target(
            ManagerView { loaded: with_state(m.loaded, key, RuntimeRouteState::Draining), ..m },
            requested,
        ) is None,
{
    let s = with_state(m.loaded, key, RuntimeRouteState::Draining);
    lemma_key_place(m.loaded, key);
    let p = key_place(m.loaded, key);
    if p >= 0 {
        runtimes_stay_in_order(m.loaded, key, RuntimeRouteState::Draining, m.loaded[p]);
        assert(s[p].model_key == key);
        crate::manager::loaded::lemma_key_place_is(s, key, p);
    }
}

/// A runtime whose stop failed stays loaded, with what it holds, and is sent no
/// requests.
pub proof fn a_failed_stop_keeps_what_is_held(m: ManagerView, key: Seq<char>)
    requires
        m.wf(),
    ensures
        after_stop(m, key, true).ledger == m.ledger,
        keys(after_stop(m, key, true).loaded) == keys(m.loaded),
        !ready_under(after_stop(m, key, true).loaded, key),
{
    let s = with_state(m.loaded, key, RuntimeRouteState::Failed);
    lemma_key_place(m.loaded, key);
    let p = key_place(m.loaded, key);
    if p >= 0 {
        runtimes_stay_in_order(m.loaded, key, RuntimeRouteState::Failed, m.loaded[p]);
        assert(s[p].model_key == key);
        crate::manager::loaded::lemma_key_place_is(s, key, p);
    }
}

} // verus!
