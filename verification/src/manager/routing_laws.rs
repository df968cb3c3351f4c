//! Which runtime a request reaches, and what becomes of runtimes, told from what is loaded.
use vstd::prelude::*;

use crate::manager::loaded::{
    a_placed_runtime_is_found, in_key_order, key_place, keys, lemma_key_place, lemma_key_place_is,
    lemma_remove_order, runtimes_stay_in_order, under_key, with_state, without_key,
    RuntimeRouteState, RuntimeView,
};
use crate::manager::state::{
    after_stop, after_stops, exited_keys, first_also_named, first_serving, last_ready, marked,
    matching_key, poll_at, promoted, proxy_target, reaped, released, released_all, resolved_key,
    stop_failures, unload_refusal, with_fallback, without_owner, ManagerView, ProcessPoll,
    TargetView,
};
use crate::resources::ledger::with_release;
use crate::text::trim::trimmed;

verus! {

/// Whether a request reaches a runtime: at its address, in its protocol, under the name that
/// it serves its model by.
pub open spec fn reaches(t: Option<TargetView>, r: RuntimeView) -> bool {
    &&& t is Some
    &&& t->0.client_endpoint == r.client_endpoint
    &&& t->0.protocol == r.external_server_protocol
    &&& t->0.backend_id == r.backend_id
    &&& t->0.model == r.proxy_model_ref
    &&& t->0.generation == r.generation
    &&& r.external_server_protocol is VlaCppZmqServer ==> t->0.base_url is None
    &&& !(r.external_server_protocol is VlaCppZmqServer) ==> t->0.base_url == Some(
        r.client_endpoint,
    )
}

/// Whether a text stands for the gateway itself and not for a model.
pub open spec fn names_no_model(requested: Option<Seq<char>>) -> bool {
    match requested {
        None => true,
        Some(text) => trimmed(text).len() == 0 || trimmed(text) == "omniinfer"@ || trimmed(text)
            == "local"@,
    }
}

/// Whether a runtime is known by a text that is not its key.
pub open spec fn known_as(r: RuntimeView, name: Seq<char>) -> bool {
    r.public_model_id == Some(name) || r.model == name || r.proxy_model_ref == Some(name)
}

/// A request that names no model reaches the default runtime where that is ready, and nothing
/// where it is not.
pub proof fn requests_without_a_model_reach_the_default(
    m: ManagerView,
    requested: Option<Seq<char>>,
    i: int,
)
    requires
        m.wf(),
        names_no_model(requested),
        0 <= i < m.loaded.len(),
    ensures
        m.default_model_key == Some(m.loaded[i].model_key) && m.loaded[i].route_state is Ready
            ==> reaches(proxy_target(m, requested), m.loaded[i]),
        m.default_model_key == Some(m.loaded[i].model_key) && !(m.loaded[i].route_state is Ready)
            ==> proxy_target(m, requested) is None,
        m.default_model_key is None ==> proxy_target(m, requested) is None,
{
    lemma_key_place_is(m.loaded, m.loaded[i].model_key, i);
}

/// A request that names a model reaches the runtime with that key. Where none has it, it
/// reaches the first that is known by that name. It never reaches one that is not ready.
pub proof fn requests_reach_the_runtime_that_they_name(
    m: ManagerView,
    requested: Option<Seq<char>>,
    i: int,
)
    requires
        m.wf(),
        !names_no_model(requested),
        0 <= i < m.loaded.len(),
    ensures
        ({
            let name = trimmed(requested->0);
            let by_key = m.loaded[i].model_key == trimmed(name);
            let by_name = known_as(m.loaded[i], trimmed(name)) && (forall|j: int|
                0 <= j < m.loaded.len() ==> (#[trigger] m.loaded[j]).model_key != trimmed(name))
                && (forall|j: int|
                0 <= j < i ==> !known_as(#[trigger] m.loaded[j], trimmed(name)));
            &&& (by_key || by_name) && trimmed(name).len() > 0 && m.loaded[i].route_state is Ready
                ==> reaches(proxy_target(m, requested), m.loaded[i])
            &&& (by_key || by_name) && trimmed(name).len() > 0 && !(m.loaded[i].route_state
                is Ready) ==> proxy_target(m, requested) is None
        }),
{
    let name = trimmed(trimmed(requested->0));
    lemma_key_place(m.loaded, name);
    lemma_key_place_is(m.loaded, m.loaded[i].model_key, i);
    if key_place(m.loaded, name) < 0 && known_as(m.loaded[i], name) {
        if forall|j: int| 0 <= j < i ==> !known_as(#[trigger] m.loaded[j], name) {
            lemma_first_known(m.loaded, name, i);
        }
    }
    if m.loaded[i].model_key != name {
        if forall|j: int| 0 <= j < m.loaded.len() ==> (#[trigger] m.loaded[j]).model_key != name {
            assert(key_place(m.loaded, name) < 0) by {
                if key_place(m.loaded, name) >= 0 {
                    assert(m.loaded[key_place(m.loaded, name)].model_key == name);
                }
            }
        }
    }
}

/// A request for a model that no runtime is known by reaches nothing.
pub proof fn requests_for_unknown_models_reach_nothing(m: ManagerView, requested: Option<Seq<char>>)
    requires
        !names_no_model(requested),
        forall|j: int|
            0 <= j < m.loaded.len() ==> (#[trigger] m.loaded[j]).model_key != trimmed(
                trimmed(requested->0),
            ) && !known_as(m.loaded[j], trimmed(trimmed(requested->0))),
    ensures
        proxy_target(m, requested) is None,
        resolved_key(m.loaded, trimmed(requested->0)) is None,
{
    let name = trimmed(trimmed(requested->0));
    lemma_key_place(m.loaded, name);
    lemma_none_known(m.loaded, name);
}

proof fn lemma_first_known(s: Seq<RuntimeView>, name: Seq<char>, i: int)
    requires
        0 <= i < s.len(),
        known_as(s[i], name),
        forall|j: int| 0 <= j < i ==> !known_as(#[trigger] s[j], name),
    ensures
        first_also_named(s, name) == Some(s[i].model_key),
    decreases i,
{
    if i > 0 {
        assert(!known_as(s[0], name));
        let rest = s.drop_first();
        assert forall|j: int| 0 <= j < i - 1 implies !known_as(#[trigger] rest[j], name) by {
            assert(rest[j] == s[j + 1]);
        }
        lemma_first_known(rest, name, i - 1);
    }
}

proof fn lemma_none_known(s: Seq<RuntimeView>, name: Seq<char>)
    requires
        forall|j: int| 0 <= j < s.len() ==> !known_as(#[trigger] s[j], name),
    ensures
        first_also_named(s, name) is None,
    decreases s.len(),
{
    if s.len() > 0 {
        assert(!known_as(s[0], name));
        let rest = s.drop_first();
        assert forall|j: int| 0 <= j < rest.len() implies !known_as(#[trigger] rest[j], name) by {
            assert(rest[j] == s[j + 1]);
        }
        lemma_none_known(rest, name);
    }
}

/// Whether a runtime has the file of a request, under a public name that does not contradict.
pub open spec fn has_the_file(r: RuntimeView, path: Seq<char>, id: Option<Seq<char>>) -> bool {
    r.model == path && (r.public_model_id is Some && id is Some ==> r.public_model_id == id)
}

/// What is to be loaded is already served by the runtime with the same key; where none has it,
/// by the first with the same file; and else by none.
pub proof fn loaded_models_are_recognised(
    s: Seq<RuntimeView>,
    key: Seq<char>,
    path: Seq<char>,
    id: Option<Seq<char>>,
    i: int,
)
    requires
        in_key_order(s),
        0 <= i < s.len(),
    ensures
        s[i].model_key == key ==> matching_key(s, key, path, id) == Some(key),
        (forall|j: int| 0 <= j < s.len() ==> (#[trigger] s[j]).model_key != key) && has_the_file(
            s[i],
            path,
            id,
        ) && (forall|j: int| 0 <= j < i ==> !has_the_file(#[trigger] s[j], path, id))
            ==> matching_key(s, key, path, id) == Some(s[i].model_key),
        (forall|j: int|
            0 <= j < s.len() ==> (#[trigger] s[j]).model_key != key && !has_the_file(
                s[j],
                path,
                id,
            )) ==> matching_key(s, key, path, id) is None,
{
    lemma_key_place(s, key);
    lemma_key_place_is(s, s[i].model_key, i);
    if key_place(s, key) < 0 {
        if has_the_file(s[i], path, id) && (forall|j: int|
            0 <= j < i ==> !has_the_file(#[trigger] s[j], path, id)) {
            lemma_first_with_the_file(s, path, id, i);
        }
        if forall|j: int| 0 <= j < s.len() ==> !has_the_file(#[trigger] s[j], path, id) {
            lemma_none_with_the_file(s, path, id);
        }
    } else {
        assert(s[key_place(s, key)].model_key == key);
    }
}

proof fn lemma_first_with_the_file(
    s: Seq<RuntimeView>,
    path: Seq<char>,
    id: Option<Seq<char>>,
    i: int,
)
    requires
        0 <= i < s.len(),
        has_the_file(s[i], path, id),
        forall|j: int| 0 <= j < i ==> !has_the_file(#[trigger] s[j], path, id),
    ensures
        first_serving(s, path, id) == Some(s[i].model_key),
    decreases i,
{
    if i > 0 {
        assert(!has_the_file(s[0], path, id));
        let rest = s.drop_first();
        assert forall|j: int| 0 <= j < i - 1 implies !has_the_file(#[trigger] rest[j], path, id) by {
            assert(rest[j] == s[j + 1]);
        }
        lemma_first_with_the_file(rest, path, id, i - 1);
    }
}

proof fn lemma_none_with_the_file(s: Seq<RuntimeView>, path: Seq<char>, id: Option<Seq<char>>)
    requires
        forall|j: int| 0 <= j < s.len() ==> !has_the_file(#[trigger] s[j], path, id),
    ensures
        first_serving(s, path, id) is None,
    decreases s.len(),
{
    if s.len() > 0 {
        assert(!has_the_file(s[0], path, id));
        let rest = s.drop_first();
        assert forall|j: int| 0 <= j < rest.len() implies !has_the_file(
            #[trigger] rest[j],
            path,
            id,
        ) by {
            assert(rest[j] == s[j + 1]);
        }
        lemma_none_with_the_file(rest, path, id);
    }
}

/// A runtime without a public name that is asked for under one moves to that name, with
/// everything else that it has; any other stays where it is.
pub proof fn runtimes_move_to_their_public_name(
    s: Seq<RuntimeView>,
    i: int,
    key: Seq<char>,
    id: Option<Seq<char>>,
)
    requires
        in_key_order(s),
        0 <= i < s.len(),
    ensures
        s[i].model_key != key && id is Some && s[i].public_model_id is None ==> under_key(
            promoted(s, s[i].model_key, key, id),
            key,
        ) == Some(RuntimeView { model_key: key, public_model_id: id, ..s[i] }),
        s[i].model_key == key || id is None || s[i].public_model_id is Some ==> promoted(
            s,
            s[i].model_key,
            key,
            id,
        ) == s,
{
    lemma_key_place_is(s, s[i].model_key, i);
    runtimes_stay_in_order(s, s[i].model_key, RuntimeRouteState::Ready, s[i]);
    a_placed_runtime_is_found(
        without_key(s, s[i].model_key),
        RuntimeView { model_key: key, public_model_id: id, ..s[i] },
    );
}

/// A default that is ready stays; where it is not, the last runtime that is ready takes its
/// place, and nothing else changes.
pub proof fn the_last_ready_runtime_takes_over(m: ManagerView, i: int)
    requires
        m.wf(),
        0 <= i < m.loaded.len(),
    ensures
        with_fallback(m).loaded == m.loaded,
        with_fallback(m).ledger == m.ledger,
        with_fallback(m).selected_backend == m.selected_backend,
        with_fallback(m).next_generation == m.next_generation,
        with_fallback(m).speculative == m.speculative,
        m.default_model_key == Some(m.loaded[i].model_key) && m.loaded[i].route_state is Ready
            ==> with_fallback(m).default_model_key == m.default_model_key,
        m.default_model_key is None && m.loaded[i].route_state is Ready && (forall|j: int|
            i < j < m.loaded.len() ==> !((#[trigger] m.loaded[j]).route_state is Ready))
            ==> with_fallback(m).default_model_key == Some(m.loaded[i].model_key),
        m.default_model_key is None && (forall|j: int|
            0 <= j < m.loaded.len() ==> !((#[trigger] m.loaded[j]).route_state is Ready))
            ==> with_fallback(m).default_model_key is None,
{
    lemma_key_place_is(m.loaded, m.loaded[i].model_key, i);
    if m.loaded[i].route_state is Ready && (forall|j: int|
        i < j < m.loaded.len() ==> !((#[trigger] m.loaded[j]).route_state is Ready)) {
        lemma_last_ready_is(m.loaded, i);
    }
    if forall|j: int| 0 <= j < m.loaded.len() ==> !((#[trigger] m.loaded[j]).route_state is Ready) {
        lemma_none_ready(m.loaded);
    }
}

proof fn lemma_last_ready_is(s: Seq<RuntimeView>, i: int)
    requires
        0 <= i < s.len(),
        s[i].route_state is Ready,
        forall|j: int| i < j < s.len() ==> !((#[trigger] s[j]).route_state is Ready),
    ensures
        last_ready(s) == Some(s[i].model_key),
    decreases s.len(),
{
    if i < s.len() - 1 {
        assert(!(s[s.len() - 1].route_state is Ready));
        let rest = s.drop_last();
        assert forall|j: int| i < j < rest.len() implies !((#[trigger] rest[j]).route_state
            is Ready) by {
            assert(rest[j] == s[j]);
        }
        lemma_last_ready_is(rest, i);
    }
}

proof fn lemma_none_ready(s: Seq<RuntimeView>)
    requires
        forall|j: int| 0 <= j < s.len() ==> !((#[trigger] s[j]).route_state is Ready),
    ensures
        last_ready(s) is None,
    decreases s.len(),
{
    if s.len() > 0 {
        assert(!(s[s.len() - 1].route_state is Ready));
        let rest = s.drop_last();
        assert forall|j: int| 0 <= j < rest.len() implies !((#[trigger] rest[j]).route_state
            is Ready) by {
            assert(rest[j] == s[j]);
        }
        lemma_none_ready(rest);
    }
}

/// A runtime that is removed is gone, what it held is given back, the memories that it had to
/// itself are free, and the others stay.
pub proof fn removed_runtimes_leave_nothing(m: ManagerView, i: int, j: int)
    requires
        m.wf(),
        0 <= i < m.loaded.len(),
        0 <= j < m.loaded.len(),
        i != j,
    ensures
        ({
            let after = released(m, m.loaded[i].model_key);
            &&& under_key(after.loaded, m.loaded[i].model_key) is None
            &&& under_key(after.loaded, m.loaded[j].model_key) == Some(m.loaded[j])
            &&& after.loaded.len() == m.loaded.len() - 1
            &&& m.ledger matches Some(l) ==> after.ledger == Some(
                with_release(l, m.loaded[i].allocation_id.value),
            )
            &&& forall|k: int|
                0 <= k < after.speculative.len() ==> (#[trigger] after.speculative[k]).1
                    != m.loaded[i].allocation_id
            &&& after.default_model_key == m.default_model_key
            &&& after.selected_backend == m.selected_backend
        }),
{
    lemma_key_place_is(m.loaded, m.loaded[i].model_key, i);
    lemma_removed(m.loaded, i, j);
    lemma_no_owner(m.speculative, m.loaded[i].allocation_id);
}

proof fn lemma_removed(s: Seq<RuntimeView>, i: int, j: int)
    requires
        in_key_order(s),
        0 <= i < s.len(),
        0 <= j < s.len(),
    ensures
        in_key_order(s.remove(i)),
        under_key(s.remove(i), s[i].model_key) is None,
        j != i ==> under_key(s.remove(i), s[j].model_key) == Some(s[j]),
{
    let t = s.remove(i);
    lemma_remove_order(s, i);
    lemma_key_place(t, s[i].model_key);
    let p = key_place(t, s[i].model_key);
    if p >= 0 {
        let q = if p < i {
            p
        } else {
            p + 1
        };
        assert(t[p] == s[q]);
        lemma_key_place_is(s, s[i].model_key, q);
        lemma_key_place_is(s, s[i].model_key, i);
    }
    if j != i {
        let q = if j < i {
            j
        } else {
            j - 1
        };
        assert(t[q] == s[j]);
        lemma_key_place_is(t, s[j].model_key, q);
    }
}

proof fn lemma_no_owner(
    s: Seq<(crate::resources::domains::DomainView, crate::resources::ledger::AllocationId)>,
    owner: crate::resources::ledger::AllocationId,
)
    ensures
        forall|k: int|
            0 <= k < without_owner(s, owner).len() ==> (#[trigger] without_owner(s, owner)[k]).1
                != owner,
    decreases s.len(),
{
    let all = without_owner(s, owner);
    if s.len() > 0 {
        lemma_no_owner(s.drop_last(), owner);
        let less = without_owner(s.drop_last(), owner);
        assert forall|k: int| 0 <= k < all.len() implies (#[trigger] all[k]).1 != owner by {
            if k < less.len() {
                assert(all[k] == less[k]);
            }
        }
    }
}

proof fn lemma_released_order(m: ManagerView, key: Seq<char>)
    requires
        in_key_order(m.loaded),
    ensures
        in_key_order(released(m, key).loaded),
        under_key(released(m, key).loaded, key) is None,
        forall|other: Seq<char>|
            other != key ==> #[trigger] under_key(released(m, key).loaded, other) == under_key(
                m.loaded,
                other,
            ),
{
    lemma_key_place(m.loaded, key);
    let p = key_place(m.loaded, key);
    if p >= 0 {
        lemma_removed(m.loaded, p, p);
        let t = m.loaded.remove(p);
        assert forall|other: Seq<char>| other != key implies #[trigger] under_key(t, other)
            == under_key(m.loaded, other) by {
            lemma_key_place(m.loaded, other);
            lemma_key_place(t, other);
            let q = key_place(m.loaded, other);
            if q >= 0 {
                lemma_removed(m.loaded, p, q);
            } else if key_place(t, other) >= 0 {
                let k = key_place(t, other);
                assert(t[k] == m.loaded[if k < p {
                    k
                } else {
                    k + 1
                }]);
            }
        }
    }
}

proof fn lemma_released_all(m: ManagerView, ks: Seq<Seq<char>>, key: Seq<char>)
    requires
        in_key_order(m.loaded),
    ensures
        in_key_order(released_all(m, ks).loaded),
        ks.contains(key) ==> under_key(released_all(m, ks).loaded, key) is None,
        !ks.contains(key) ==> under_key(released_all(m, ks).loaded, key) == under_key(
            m.loaded,
            key,
        ),
    decreases ks.len(),
{
    if ks.len() > 0 {
        let rest = ks.drop_last();
        lemma_released_all(m, rest, key);
        lemma_released_order(released_all(m, rest), ks.last());
        if ks.contains(key) && ks.last() != key {
            let i = choose|i: int| 0 <= i < ks.len() && ks[i] == key;
            assert(rest[i] == key);
            assert(rest.contains(key));
        }
        if rest.contains(key) {
            let i = choose|i: int| 0 <= i < rest.len() && rest[i] == key;
            assert(ks[i] == key);
        }
        assert(ks[ks.len() - 1] == ks.last());
    }
}

proof fn lemma_exited(s: Seq<RuntimeView>, polls: Seq<ProcessPoll>, key: Seq<char>)
    ensures
        exited_keys(s, polls).contains(key) <==> exists|i: int|
            0 <= i < s.len() && (#[trigger] s[i]).model_key == key && poll_at(polls, i)
                == ProcessPoll::Exited,
    decreases s.len(),
{
    let all = exited_keys(s, polls);
    if s.len() > 0 {
        let rest = s.drop_last();
        let less = exited_keys(rest, polls);
        lemma_exited(rest, polls, key);
        if poll_at(polls, s.len() - 1) == ProcessPoll::Exited {
            assert(all[all.len() - 1] == s.last().model_key);
        }
        if all.contains(key) {
            let k = choose|k: int| 0 <= k < all.len() && all[k] == key;
            if k < less.len() {
                assert(less[k] == key);
                let i = choose|i: int|
                    0 <= i < rest.len() && (#[trigger] rest[i]).model_key == key && poll_at(
                        polls,
                        i,
                    ) == ProcessPoll::Exited;
                assert(s[i] == rest[i]);
            } else {
                assert(s[s.len() - 1].model_key == key);
            }
        }
        if exists|i: int|
            0 <= i < s.len() && (#[trigger] s[i]).model_key == key && poll_at(polls, i)
                == ProcessPoll::Exited {
            let i = choose|i: int|
                0 <= i < s.len() && (#[trigger] s[i]).model_key == key && poll_at(polls, i)
                    == ProcessPoll::Exited;
            if i < rest.len() {
                assert(rest[i].model_key == key);
                let k = choose|k: int| 0 <= k < less.len() && less[k] == key;
                assert(all[k] == key);
            }
        }
    }
}

/// After a look at all runtimes, one that has exited is gone, one that could not be looked at
/// counts as failed, and one that runs, or was not looked at, stays as it was.
pub proof fn a_look_removes_what_has_exited(m: ManagerView, polls: Seq<ProcessPoll>, i: int)
    requires
        m.wf(),
        0 <= i < m.loaded.len(),
    ensures
        ({
            let now = under_key(reaped(m, polls).loaded, m.loaded[i].model_key);
            &&& i < polls.len() && polls[i] is Exited ==> now is None
            &&& i < polls.len() && polls[i] is Unknown ==> now == Some(
                RuntimeView { route_state: RuntimeRouteState::Failed, ..m.loaded[i] },
            )
            &&& i >= polls.len() || polls[i] is Running ==> now == Some(m.loaded[i])
        }),
{
    let key = m.loaded[i].model_key;
    let seen = marked(m.loaded, polls);
    assert(keys(seen) =~= keys(m.loaded));
    lemma_exited(m.loaded, polls, key);
    lemma_released_all(
        ManagerView { loaded: seen, ..m },
        exited_keys(m.loaded, polls),
        key,
    );
    assert(seen[i].model_key == key);
    lemma_key_place_is(seen, key, i);
    if exists|j: int|
        0 <= j < m.loaded.len() && (#[trigger] m.loaded[j]).model_key == key && poll_at(polls, j)
            == ProcessPoll::Exited {
        let j = choose|j: int|
            0 <= j < m.loaded.len() && (#[trigger] m.loaded[j]).model_key == key && poll_at(
                polls,
                j,
            ) == ProcessPoll::Exited;
        lemma_key_place_is(m.loaded, key, i);
        lemma_key_place_is(m.loaded, key, j);
    }
}

proof fn lemma_stop_order(m: ManagerView, key: Seq<char>, failed: bool)
    requires
        in_key_order(m.loaded),
    ensures
        in_key_order(after_stop(m, key, failed).loaded),
        !failed ==> under_key(after_stop(m, key, failed).loaded, key) is None,
        failed ==> (under_key(m.loaded, key) matches Some(r) ==> under_key(
            after_stop(m, key, failed).loaded,
            key,
        ) == Some(RuntimeView { route_state: RuntimeRouteState::Failed, ..r })),
        forall|other: Seq<char>|
            other != key ==> #[trigger] under_key(after_stop(m, key, failed).loaded, other)
                == under_key(m.loaded, other),
{
    lemma_released_order(m, key);
    if failed {
        lemma_key_place(m.loaded, key);
        let p = key_place(m.loaded, key);
        runtimes_stay_in_order(m.loaded, key, RuntimeRouteState::Failed, m.loaded[0]);
        let t = with_state(m.loaded, key, RuntimeRouteState::Failed);
        if p >= 0 {
            assert(t[p].model_key == key);
            lemma_key_place_is(t, key, p);
        }
        assert forall|other: Seq<char>| other != key implies #[trigger] under_key(t, other)
            == under_key(m.loaded, other) by {
            lemma_key_place(m.loaded, other);
            lemma_key_place(t, other);
            let q = key_place(m.loaded, other);
            if q >= 0 {
                assert(t[q] == m.loaded[q]);
                lemma_key_place_is(t, other, q);
            } else if key_place(t, other) >= 0 {
                assert(t[key_place(t, other)].model_key == m.loaded[key_place(
                    t,
                    other,
                )].model_key);
            }
        }
    }
}

proof fn lemma_stops(
    m: ManagerView,
    outcomes: Seq<Option<Seq<char>>>,
    n: nat,
    i: int,
)
    requires
        in_key_order(m.loaded),
        n <= m.loaded.len(),
        outcomes.len() == m.loaded.len(),
        0 <= i < m.loaded.len(),
    ensures
        in_key_order(after_stops(m, keys(m.loaded), outcomes, n).loaded),
        ({
            let now = under_key(
                after_stops(m, keys(m.loaded), outcomes, n).loaded,
                m.loaded[i].model_key,
            );
            &&& i >= n ==> now == Some(m.loaded[i])
            &&& i < n && outcomes[i] is None ==> now is None
            &&& i < n && outcomes[i] is Some ==> now == Some(
                RuntimeView { route_state: RuntimeRouteState::Failed, ..m.loaded[i] },
            )
        }),
    decreases n,
{
    let key = m.loaded[i].model_key;
    lemma_key_place_is(m.loaded, key, i);
    if n > 0 {
        let k = (n - 1) as nat;
        let ks = keys(m.loaded);
        lemma_stops(m, outcomes, k, i);
        lemma_stops(m, outcomes, k, k as int);
        let before = after_stops(m, ks, outcomes, k);
        assert(ks[k as int] == m.loaded[k as int].model_key);
        lemma_stop_order(before, ks[k as int], outcomes[k as int] is Some);
        if i != k {
            if ks[k as int] == key {
                lemma_key_place_is(m.loaded, key, k as int);
            }
        }
    }
}

/// After every runtime was told to stop, those that stopped are gone, and those that did not
/// stay loaded, and count as failed.
pub proof fn stopped_runtimes_are_gone(
    m: ManagerView,
    outcomes: Seq<Option<Seq<char>>>,
    i: int,
)
    requires
        m.wf(),
        outcomes.len() == m.loaded.len(),
        0 <= i < m.loaded.len(),
    ensures
        ({
            let now = under_key(
                after_stops(m, keys(m.loaded), outcomes, outcomes.len()).loaded,
                m.loaded[i].model_key,
            );
            &&& outcomes[i] is None ==> now is None
            &&& outcomes[i] is Some ==> now == Some(
                RuntimeView { route_state: RuntimeRouteState::Failed, ..m.loaded[i] },
            )
        }),
{
    lemma_stops(m, outcomes, outcomes.len(), i);
}

/// A failure to stop is told of just those runtimes that did not stop, with their keys and
/// with the reasons.
pub proof fn failures_to_stop_are_told(
    ks: Seq<Seq<char>>,
    outcomes: Seq<Option<Seq<char>>>,
    n: nat,
    i: int,
)
    requires
        n <= outcomes.len(),
        ks.len() == outcomes.len(),
        0 <= i < n,
    ensures
        stop_failures(ks, outcomes, n).len() <= n,
        outcomes[i] matches Some(error) ==> stop_failures(ks, outcomes, n).contains(
            ks[i] + ": "@ + error,
        ),
        (forall|j: int| 0 <= j < n ==> (#[trigger] outcomes[j]) is None) ==> stop_failures(
            ks,
            outcomes,
            n,
        ).len() == 0,
    decreases n,
{
    let k = (n - 1) as nat;
    if k == 0 {
        assert(stop_failures(ks, outcomes, 0).len() == 0);
    } else if i < k {
        failures_to_stop_are_told(ks, outcomes, k, i);
    } else {
        failures_to_stop_are_told(ks, outcomes, k, 0);
    }
    let all = stop_failures(ks, outcomes, n);
    let less = stop_failures(ks, outcomes, k);
    if i == k {
        if outcomes[i] is Some {
            assert(all.last() == ks[i] + ": "@ + outcomes[i]->0);
        }
    } else if let Some(error) = outcomes[i] {
        let said = ks[i] + ": "@ + error;
        let j = choose|j: int| 0 <= j < less.len() && less[j] == said;
        assert(all[j] == said);
    }
    if forall|j: int| 0 <= j < n ==> (#[trigger] outcomes[j]) is None {
        assert(outcomes[k as int] is None);
    }
}

/// A model is unloaded for its owner, for whoever states no name, and where it has no owner;
/// it is refused to any other admin, and where it is not loaded.
pub proof fn models_are_unloaded_for_their_owner(
    s: Seq<RuntimeView>,
    i: int,
    model: Seq<char>,
    admin: Option<Seq<char>>,
)
    requires
        in_key_order(s),
        0 <= i < s.len(),
        s[i].model_key == trimmed(model),
        trimmed(model).len() > 0,
    ensures
        resolved_key(s, model) == Some(s[i].model_key),
        unload_refusal(s, model, admin) is Some <==> (s[i].owner_admin_id is Some && admin is Some
            && s[i].owner_admin_id->0 != admin->0),
{
    lemma_key_place_is(s, trimmed(model), i);
}

} // verus!
