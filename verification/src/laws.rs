//! What holds of the store and the resolver as a whole.
//!
//! Every operation of the store asks for a consistent store and leaves one,
//! so what is proved here of a consistent store holds at every moment.

use vstd::prelude::*;
use crate::database::backend::{
    lemma_stream_run_yields_output, queued_statuses, ran_stream, StreamView,
};
use crate::database::connect::{
    connect_spec, key_holder_index, lemma_connect_wf, lemma_no_stale_binding,
    lemma_unheld_key_is_free, new_backend_for, resolve_cluster, token_for, FreshView, UrlPartView,
};
use crate::database::invariants::{
    lemma_create_backend_wf, lemma_find_push, lemma_find_same, lemma_issue_token_wf,
    lemma_status_bounds_log, lemma_update_keepalive_wf, lemma_update_status_wf,
};
use crate::database::model::{
    by_backend_id, by_key, by_key_holder, by_token, create_backend_spec, find, issue_token_spec,
    lemma_first_match, log_of, route_of, scheduled_backend, status_note, update_keepalive_spec,
    update_status_spec, KeyRowView, KeyView, NewBackendView, StatusLogView, StoreError, StoreView,
    TokenView,
};
use crate::database::node::{
    heartbeat_spec, lemma_heartbeat_wf, lemma_mark_offline_wf, lemma_register_wf,
    mark_offline_spec, register_spec, RegistrationView,
};
use crate::database::subscribe::{
    published_all, receives, BusView, KeyTopic, NotificationKind, NotificationView,
    SubscriptionView,
};
use crate::names::NodeId;
use crate::protocol::RouteInfoView;
use crate::scheduler::select_drone_spec;
use crate::status::{BackendStatus, Timestamp, TimestampedBackendStatus};
use crate::stream::{
    ends_at_terminated, lemma_stream_is_complete, lemma_stream_is_monotone, non_decreasing,
    stream_output, strictly_increasing,
};
use crate::types::{BackendAddr, ConnectError, ConnectRequestView, ConnectResponseView};

verus! {

/// Within a cluster a key has at most one binding, and the
/// backend that holds it is in the store, belongs to the cluster, and has
/// not terminated. So at no moment do two live backends hold the same key.
pub proof fn lemma_key_singleton(s: StoreView, i: int, j: int)
    requires
        s.wf(),
        0 <= i < s.keys.len(),
        0 <= j < s.keys.len(),
        s.keys[i].cluster == s.keys[j].cluster,
        s.keys[i].key == s.keys[j].key,
    ensures
        i == j,
        s.keys[i].backend == s.keys[j].backend,
        s.key_holder(s.keys[i].cluster, s.keys[i].key) == Some(s.keys[i].backend),
        s.backend(s.keys[i].backend).is_some(),
        s.backend(s.keys[i].backend).unwrap().last_status != BackendStatus::Terminated,
        s.backend(s.keys[i].backend).unwrap().cluster == s.keys[i].cluster,
{
    lemma_first_match(s.keys, by_key(s.keys[i].cluster, s.keys[i].key), 0);
    assert(by_key(s.keys[i].cluster, s.keys[i].key)(s.keys[i]));
}

/// Along the log the statuses of one backend never go
/// back, none is later than the backend's current status, and after a row
/// with `Terminated` every row of the backend has `Terminated`.
pub proof fn lemma_status_is_monotone(s: StoreView, i: int, j: int)
    requires
        s.wf(),
        0 <= i <= j < s.log.len(),
        s.log[i].backend == s.log[j].backend,
    ensures
        s.log[i].status.spec_le(s.log[j].status),
        s.log[i].status == BackendStatus::Terminated ==> s.log[j].status
            == BackendStatus::Terminated,
        s.backend(s.log[j].backend).is_some(),
        s.log[j].status.spec_le(s.backend(s.log[j].backend).unwrap().last_status),
{
    lemma_first_match(s.backends, by_backend_id(s.log[j].backend), 0);
    let b = find(s.backends, by_backend_id(s.log[j].backend)).unwrap();
    lemma_status_bounds_log(s, b, j);
    assert(s.log[i].status.spec_le(s.log[j].status));
}

/// `Terminated` is final. A backend that has terminated takes no other
/// status: the attempt fails with `InvalidTransition` and changes nothing.
pub proof fn lemma_terminated_is_final(
    s: StoreView,
    backend: Seq<char>,
    status: BackendStatus,
    address: Option<BackendAddr>,
    exit_code: Option<i32>,
    now: Timestamp,
)
    requires
        s.backend(backend).is_some(),
        s.backend(backend).unwrap().last_status == BackendStatus::Terminated,
        status != BackendStatus::Terminated,
    ensures
        update_status_spec(s, backend, status, address, exit_code, now) == Err::<
            StoreView,
            StoreError,
        >(StoreError::InvalidTransition),
{
}

/// A status is refused exactly where it is earlier than the current one;
/// what is recorded becomes the current status and the last row of the log.
pub proof fn lemma_update_status_outcome(
    s: StoreView,
    backend: Seq<char>,
    status: BackendStatus,
    address: Option<BackendAddr>,
    exit_code: Option<i32>,
    now: Timestamp,
)
    requires
        s.wf(),
        s.backend(backend).is_some(),
    ensures
        match update_status_spec(s, backend, status, address, exit_code, now) {
            Ok(t) => s.backend(backend).unwrap().last_status.spec_le(status) && t.backend(
                backend,
            ).is_some() && t.backend(backend).unwrap().last_status == status && t.backend(
                backend,
            ).unwrap().cluster_address == address && log_of(t.log, backend) == log_of(
                s.log,
                backend,
            ).push(TimestampedBackendStatus { status, time: now }),
            Err(e) => e == StoreError::InvalidTransition && status.spec_lt(
                s.backend(backend).unwrap().last_status,
            ),
        },
{
    lemma_first_match(s.backends, by_backend_id(backend), 0);
    let r = update_status_spec(s, backend, status, address, exit_code, now);
    if r.is_ok() {
        let t = r.unwrap();
        lemma_find_same(s.backends, t.backends, by_backend_id(backend));
        assert(t.log.drop_last() == s.log);
    }
}

/// The rows of one backend's log, as a status stream reads them, never go back.
pub proof fn lemma_history_is_monotone(s: StoreView, backend: Seq<char>)
    requires
        s.wf(),
    ensures
        non_decreasing(log_of(s.log, backend)),
{
    lemma_log_of_monotone(s.log, backend);
}

/// Every row that `log_of` picks is a row of `backend` in the log.
pub proof fn lemma_log_of_members(log: Seq<StatusLogView>, backend: Seq<char>, a: int) -> (j: int)
    requires
        0 <= a < log_of(log, backend).len(),
    ensures
        0 <= j < log.len(),
        log[j].backend == backend,
        log[j].status == log_of(log, backend)[a].status,
        log[j].created_at == log_of(log, backend)[a].time,
    decreases log.len(),
{
    let front = log.drop_last();
    if log.last().backend == backend && a == log_of(front, backend).len() {
        log.len() - 1
    } else {
        let j = lemma_log_of_members(front, backend, a);
        assert(front[j] == log[j]);
        j
    }
}

/// The rows of `backend` picked from a log in which the statuses of one
/// backend never go back never go back either.
pub proof fn lemma_log_of_monotone(log: Seq<StatusLogView>, backend: Seq<char>)
    requires
        forall|i: int, j: int|
            0 <= i <= j < log.len() && log[i].backend == log[j].backend ==> log[i].status.spec_le(
                log[j].status,
            ),
    ensures
        non_decreasing(log_of(log, backend)),
    decreases log.len(),
{
    if log.len() > 0 {
        let front = log.drop_last();
        assert forall|i: int, j: int|
            0 <= i <= j < front.len()
                && front[i].backend == front[j].backend implies front[i].status.spec_le(
            front[j].status,
        ) by {
            assert(front[i] == log[i] && front[j] == log[j]);
        }
        lemma_log_of_monotone(front, backend);
        let picked = log_of(log, backend);
        let before = log_of(front, backend);
        assert forall|a: int, b: int| 0 <= a <= b < picked.len() implies picked[a].status.spec_le(
            picked[b].status,
        ) by {
            if b < before.len() {
                assert(picked[a] == before[a] && picked[b] == before[b]);
            } else if a < b {
                assert(picked[a] == before[a]);
                let j = lemma_log_of_members(front, backend, a);
                assert(log[j] == front[j]);
                assert(log[j].status.spec_le(log[log.len() - 1].status));
            }
        }
    }
}

/// Whatever is delivered live to the subscriber of a
/// backend's status stream, the statuses it observes never go back, and
/// nothing follows `Terminated`.
pub proof fn lemma_observed_statuses_are_monotone(
    s: StoreView,
    backend: Seq<char>,
    live: Seq<TimestampedBackendStatus>,
)
    requires
        s.wf(),
    ensures
        non_decreasing(stream_output(log_of(s.log, backend), live)),
        ends_at_terminated(stream_output(log_of(s.log, backend), live)),
{
    lemma_history_is_monotone(s, backend);
    lemma_stream_is_monotone(log_of(s.log, backend), live);
}

/// Removing another element moves a match by at most one place and leaves it a match.
pub proof fn lemma_find_remove<T>(s: Seq<T>, p: spec_fn(T) -> bool, k: int)
    requires
        0 <= k < s.len(),
        find(s, p).is_some(),
        find(s, p).unwrap() != k,
    ensures
        find(s.remove(k), p) == Some(
            if find(s, p).unwrap() < k {
                find(s, p).unwrap()
            } else {
                find(s, p).unwrap() - 1
            },
        ),
        s.remove(k)[find(s.remove(k), p).unwrap()] == s[find(s, p).unwrap()],
{
    lemma_first_match(s, p, 0);
    lemma_first_match(s.remove(k), p, 0);
    let i = find(s, p).unwrap();
    let t = s.remove(k);
    let target = if i < k {
        i
    } else {
        i - 1
    };
    assert(t[target] == s[i]);
    assert forall|j: int| 0 <= j < target implies !p(t[j]) by {
        if j < k {
            assert(t[j] == s[j]);
        } else {
            assert(t[j] == s[j + 1]);
        }
    }
}

/// A request whose key is held is connected to the holder: nothing
/// is started and no key is bound or released. The request can fail only
/// where its token is already in use.
pub proof fn lemma_connect_reuses_holder(
    s: StoreView,
    default_cluster: Option<Seq<char>>,
    req: ConnectRequestView,
    fresh: FreshView,
    template: Seq<UrlPartView>,
    now: Timestamp,
    cluster: Seq<char>,
    key: KeyView,
    holder: Seq<char>,
)
    requires
        s.wf(),
        resolve_cluster(default_cluster, req) == Some(cluster),
        req.key == Some(key),
        s.key_holder(cluster, key) == Some(holder),
    ensures
        match connect_spec(s, default_cluster, req, fresh, template, now) {
            Ok(outcome) => outcome.response.backend_id == holder && !outcome.response.spawned
                && outcome.action.is_none() && outcome.store.backends == s.backends
                && outcome.store.keys == s.keys && outcome.store.log == s.log
                && outcome.response.status == s.backend(holder).unwrap().last_status,
            Err(e) => e == ConnectError::DbError && find(s.tokens, by_token(fresh.token)).is_some(),
        },
{
    lemma_first_match(s.keys, by_key(cluster, key), 0);
    let k = find(s.keys, by_key(cluster, key)).unwrap();
    assert(s.keys[k].backend == holder);
    lemma_first_match(s.backends, by_backend_id(holder), 0);
}

/// A request that has a backend started is connected to the backend of the
/// fresh name, which was not in the store before; its key, if it has one, was
/// free before and is held by that backend afterwards.
pub proof fn lemma_connect_spawn(
    s: StoreView,
    default_cluster: Option<Seq<char>>,
    req: ConnectRequestView,
    fresh: FreshView,
    template: Seq<UrlPartView>,
    now: Timestamp,
)
    requires
        s.wf(),
        connect_spec(s, default_cluster, req, fresh, template, now).is_ok(),
        connect_spec(s, default_cluster, req, fresh, template, now).unwrap().response.spawned,
    ensures
        ({
            let outcome = connect_spec(s, default_cluster, req, fresh, template, now).unwrap();
            let cluster = resolve_cluster(default_cluster, req).unwrap();
            &&& outcome.response.backend_id == fresh.backend
            &&& outcome.response.status == BackendStatus::Scheduled
            &&& s.backend(fresh.backend).is_none()
            &&& outcome.store.backend(fresh.backend).is_some()
            &&& outcome.store.backend(fresh.backend).unwrap().cluster == cluster
            &&& req.spawn_config.is_some()
            &&& req.key.is_some() ==> s.key_holder(cluster, req.key.unwrap()).is_none()
                && outcome.store.key_holder(cluster, req.key.unwrap()) == Some(fresh.backend)
        }),
{
    let outcome = connect_spec(s, default_cluster, req, fresh, template, now).unwrap();
    let cluster = resolve_cluster(default_cluster, req).unwrap();
    assert(key_holder_index(s, cluster, req.key).is_none());
    lemma_no_stale_binding(s, cluster, req.key);
    if req.key.is_some() {
        lemma_unheld_key_is_free(s, cluster, req.key.unwrap());
    }
    let config = req.spawn_config.unwrap();
    let drone = select_drone_spec(s, cluster, now).unwrap();
    let backend = new_backend_for(
        cluster,
        config,
        req.key,
        fresh.backend,
        drone,
        now,
    ).unwrap();
    let added = create_backend_spec(s, backend, now).unwrap();
    lemma_find_push(s.backends, by_backend_id(fresh.backend), scheduled_backend(backend, now));
    if req.key.is_some() {
        let key = req.key.unwrap();
        lemma_find_push(
            s.keys,
            by_key(cluster, key),
            KeyRowView { cluster, key, backend: fresh.backend },
        );
    }
}

/// A binding outlasts every connect request: a key that is held before a
/// request is held by the same backend after it.
pub proof fn lemma_connect_keeps_bindings(
    s: StoreView,
    default_cluster: Option<Seq<char>>,
    req: ConnectRequestView,
    fresh: FreshView,
    template: Seq<UrlPartView>,
    now: Timestamp,
    cluster: Seq<char>,
    key: KeyView,
)
    requires
        s.wf(),
        s.key_holder(cluster, key).is_some(),
        connect_spec(s, default_cluster, req, fresh, template, now).is_ok(),
    ensures
        connect_spec(s, default_cluster, req, fresh, template, now).unwrap().store.key_holder(
            cluster,
            key,
        ) == s.key_holder(cluster, key),
{
    let outcome = connect_spec(s, default_cluster, req, fresh, template, now).unwrap();
    let target = resolve_cluster(default_cluster, req).unwrap();
    match key_holder_index(s, target, req.key) {
        Some(b) => {
            assert(outcome.store.keys == s.keys);
        },
        None => {
            lemma_no_stale_binding(s, target, req.key);
            let config = req.spawn_config.unwrap();
            let drone = select_drone_spec(s, target, now).unwrap();
            let backend = new_backend_for(
                target,
                config,
                req.key,
                fresh.backend,
                drone,
                now,
            ).unwrap();
            let added = create_backend_spec(s, backend, now).unwrap();
            assert(outcome.store.keys == added.keys);
            lemma_first_match(s.keys, by_key(cluster, key), 0);
            let k = find(s.keys, by_key(cluster, key)).unwrap();
            if req.key.is_some() {
                let row = KeyRowView {
                    cluster: target,
                    key: req.key.unwrap(),
                    backend: fresh.backend,
                };
                lemma_find_push(s.keys, by_key(cluster, key), row);
                assert(added.keys == s.keys.push(row));
                assert(added.keys[k] == s.keys[k]);
            } else {
                assert(added.keys == s.keys);
            }
        },
    }
}

/// A binding outlasts every status of another backend, and every status
/// of its holder but `Terminated`.
pub proof fn lemma_update_status_keeps_bindings(
    s: StoreView,
    backend: Seq<char>,
    status: BackendStatus,
    address: Option<BackendAddr>,
    exit_code: Option<i32>,
    now: Timestamp,
    cluster: Seq<char>,
    key: KeyView,
)
    requires
        s.wf(),
        s.key_holder(cluster, key).is_some(),
        update_status_spec(s, backend, status, address, exit_code, now).is_ok(),
        status != BackendStatus::Terminated || s.key_holder(cluster, key) != Some(backend),
    ensures
        update_status_spec(s, backend, status, address, exit_code, now).unwrap().key_holder(
            cluster,
            key,
        ) == s.key_holder(cluster, key),
{
    if status == BackendStatus::Terminated {
        lemma_first_match(s.keys, by_key_holder(backend), 0);
        lemma_first_match(s.keys, by_key(cluster, key), 0);
        match find(s.keys, by_key_holder(backend)) {
            Some(k) => {
                lemma_find_remove(s.keys, by_key(cluster, key), k);
            },
            None => {},
        }
    }
}

/// After a request with a key has had a backend started,
/// the next request with that key for the same cluster is connected to that
/// backend and starts nothing.
pub proof fn lemma_second_connect_reuses(
    s: StoreView,
    default_cluster: Option<Seq<char>>,
    first: ConnectRequestView,
    first_names: FreshView,
    second: ConnectRequestView,
    second_names: FreshView,
    template: Seq<UrlPartView>,
    now: Timestamp,
    later: Timestamp,
)
    requires
        s.wf(),
        first.key.is_some(),
        second.key == first.key,
        resolve_cluster(default_cluster, second) == resolve_cluster(default_cluster, first),
        connect_spec(s, default_cluster, first, first_names, template, now).is_ok(),
        connect_spec(s, default_cluster, first, first_names, template, now).unwrap().response.spawned,
        connect_spec(
            connect_spec(s, default_cluster, first, first_names, template, now).unwrap().store,
            default_cluster,
            second,
            second_names,
            template,
            later,
        ).is_ok(),
    ensures
        ({
            let one = connect_spec(s, default_cluster, first, first_names, template, now).unwrap();
            let two = connect_spec(
                one.store,
                default_cluster,
                second,
                second_names,
                template,
                later,
            ).unwrap();
            two.response.backend_id == one.response.backend_id && !two.response.spawned
        }),
{
    let one = connect_spec(s, default_cluster, first, first_names, template, now).unwrap();
    let cluster = resolve_cluster(default_cluster, first).unwrap();
    lemma_connect_spawn(s, default_cluster, first, first_names, template, now);
    lemma_connect_wf(s, default_cluster, first, first_names, template, now);
    lemma_connect_reuses_holder(
        one.store,
        default_cluster,
        second,
        second_names,
        template,
        later,
        cluster,
        first.key.unwrap(),
        first_names.backend,
    );
}

/// Once the holder of a key has terminated, the key is free,
/// and a request with that key has a new backend started: it is connected
/// to a backend other than the one that terminated.
pub proof fn lemma_key_release(
    s: StoreView,
    cluster: Seq<char>,
    key: KeyView,
    holder: Seq<char>,
    address: Option<BackendAddr>,
    exit_code: Option<i32>,
    now: Timestamp,
    default_cluster: Option<Seq<char>>,
    req: ConnectRequestView,
    fresh: FreshView,
    template: Seq<UrlPartView>,
    later: Timestamp,
)
    requires
        s.wf(),
        s.key_holder(cluster, key) == Some(holder),
        resolve_cluster(default_cluster, req) == Some(cluster),
        req.key == Some(key),
    ensures
        update_status_spec(s, holder, BackendStatus::Terminated, address, exit_code, now).is_ok(),
        ({
            let after = update_status_spec(
                s,
                holder,
                BackendStatus::Terminated,
                address,
                exit_code,
                now,
            ).unwrap();
            &&& after.key_holder(cluster, key).is_none()
            &&& match connect_spec(after, default_cluster, req, fresh, template, later) {
                Ok(outcome) => outcome.response.spawned && outcome.response.backend_id != holder
                    && outcome.response.backend_id == fresh.backend,
                Err(e) => e != ConnectError::Conflict,
            }
        }),
{
    lemma_key_singleton_at(s, cluster, key);
    lemma_first_match(s.keys, by_key(cluster, key), 0);
    lemma_first_match(s.keys, by_key_holder(holder), 0);
    lemma_first_match(s.backends, by_backend_id(holder), 0);
    let k = find(s.keys, by_key(cluster, key)).unwrap();
    let after = update_status_spec(s, holder, BackendStatus::Terminated, address, exit_code, now).unwrap();
    lemma_update_status_wf(
        s,
        holder,
        BackendStatus::Terminated,
        address,
        exit_code,
        now,
    );
    assert(by_key_holder(holder)(s.keys[k]));
    let h = find(s.keys, by_key_holder(holder)).unwrap();
    assert(h == k);
    lemma_first_match(after.keys, by_key(cluster, key), 0);
    assert forall|j: int| 0 <= j < after.keys.len() implies !by_key(cluster, key)(
        #[trigger] after.keys[j],
    ) by {
        if j < k {
            assert(after.keys[j] == s.keys[j]);
        } else {
            assert(after.keys[j] == s.keys[j + 1]);
        }
    }
    lemma_find_same(s.backends, after.backends, by_backend_id(holder));
    let r = connect_spec(after, default_cluster, req, fresh, template, later);
    lemma_no_stale_binding(after, cluster, req.key);
    if r.is_ok() {
        lemma_connect_spawn_or_reuse(after, default_cluster, req, fresh, template, later);
        lemma_connect_spawn(after, default_cluster, req, fresh, template, later);
    } else {
        lemma_unheld_key_is_free(after, cluster, key);
    }
}

/// A request whose key is held, and whose token is not in use, succeeds:
/// it is connected to the holder, starts nothing, and adds no backend, no
/// log row and no binding.
pub proof fn lemma_bound_key_is_reused(
    s: StoreView,
    default_cluster: Option<Seq<char>>,
    req: ConnectRequestView,
    fresh: FreshView,
    template: Seq<UrlPartView>,
    now: Timestamp,
    cluster: Seq<char>,
    key: KeyView,
    holder: Seq<char>,
)
    requires
        s.wf(),
        resolve_cluster(default_cluster, req) == Some(cluster),
        req.key == Some(key),
        s.key_holder(cluster, key) == Some(holder),
        find(s.tokens, by_token(fresh.token)).is_none(),
    ensures
        connect_spec(s, default_cluster, req, fresh, template, now).is_ok(),
        ({
            let outcome = connect_spec(s, default_cluster, req, fresh, template, now).unwrap();
            &&& outcome.response.backend_id == holder
            &&& !outcome.response.spawned
            &&& outcome.store.backends == s.backends
            &&& outcome.store.keys == s.keys
            &&& outcome.store.log == s.log
            &&& outcome.store.key_holder(cluster, key) == Some(holder)
        }),
{
    lemma_connect_reuses_holder(
        s,
        default_cluster,
        req,
        fresh,
        template,
        now,
        cluster,
        key,
        holder,
    );
}

/// Once the holder of a key has been recorded as terminated, a request
/// with that key and a spawn configuration succeeds wherever a drone can take
/// a backend, the limits of the request can be stored and the fresh names are
/// not in use: a backend other than the old holder is started, and the key is
/// bound to it.
pub proof fn lemma_released_key_starts_anew(
    s: StoreView,
    cluster: Seq<char>,
    key: KeyView,
    holder: Seq<char>,
    address: Option<BackendAddr>,
    exit_code: Option<i32>,
    now: Timestamp,
    default_cluster: Option<Seq<char>>,
    req: ConnectRequestView,
    fresh: FreshView,
    template: Seq<UrlPartView>,
    later: Timestamp,
)
    requires
        s.wf(),
        s.key_holder(cluster, key) == Some(holder),
        resolve_cluster(default_cluster, req) == Some(cluster),
        req.key == Some(key),
        req.spawn_config.is_some(),
        ({
            let after = update_status_spec(
                s,
                holder,
                BackendStatus::Terminated,
                address,
                exit_code,
                now,
            ).unwrap();
            &&& select_drone_spec(after, cluster, later).is_some()
            &&& new_backend_for(
                cluster,
                req.spawn_config.unwrap(),
                req.key,
                fresh.backend,
                select_drone_spec(after, cluster, later).unwrap(),
                later,
            ).is_some()
            &&& after.backend(fresh.backend).is_none()
            &&& find(after.tokens, by_token(fresh.token)).is_none()
        }),
    ensures
        update_status_spec(s, holder, BackendStatus::Terminated, address, exit_code, now).is_ok(),
        ({
            let after = update_status_spec(
                s,
                holder,
                BackendStatus::Terminated,
                address,
                exit_code,
                now,
            ).unwrap();
            let result = connect_spec(after, default_cluster, req, fresh, template, later);
            &&& result.is_ok()
            &&& result.unwrap().response.spawned
            &&& result.unwrap().response.backend_id == fresh.backend
            &&& result.unwrap().response.backend_id != holder
            &&& result.unwrap().store.key_holder(cluster, key) == Some(fresh.backend)
        }),
{
    lemma_key_release(
        s,
        cluster,
        key,
        holder,
        address,
        exit_code,
        now,
        default_cluster,
        req,
        fresh,
        template,
        later,
    );
    let after = update_status_spec(s, holder, BackendStatus::Terminated, address, exit_code, now).unwrap();
    lemma_update_status_wf(s, holder, BackendStatus::Terminated, address, exit_code, now);
    lemma_no_stale_binding(after, cluster, req.key);
    lemma_first_match(after.keys, by_key(cluster, key), 0);
    let drone = select_drone_spec(after, cluster, later).unwrap();
    let backend = new_backend_for(
        cluster,
        req.spawn_config.unwrap(),
        req.key,
        fresh.backend,
        drone,
        later,
    ).unwrap();
    let added = create_backend_spec(after, backend, later).unwrap();
    lemma_find_push(after.backends, by_backend_id(fresh.backend), scheduled_backend(backend, later));
    assert(connect_spec(after, default_cluster, req, fresh, template, later).is_ok());
    lemma_connect_spawn(after, default_cluster, req, fresh, template, later);
}

/// One of several connect requests: the fresh names made for it and the
/// time at which it takes effect.
pub struct ConnectCall {
    pub fresh: FreshView,
    pub now: Timestamp,
}

/// The store after the same request was made once for each call of
/// `calls`, one taking effect after the other, and what each was answered.
pub open spec fn connected_in_turn(
    s: StoreView,
    default_cluster: Option<Seq<char>>,
    req: ConnectRequestView,
    calls: Seq<ConnectCall>,
    template: Seq<UrlPartView>,
) -> (StoreView, Seq<Result<ConnectResponseView, ConnectError>>)
    decreases calls.len(),
{
    if calls.len() == 0 {
        (s, Seq::empty())
    } else {
        let before = connected_in_turn(s, default_cluster, req, calls.drop_last(), template);
        match connect_spec(
            before.0,
            default_cluster,
            req,
            calls.last().fresh,
            template,
            calls.last().now,
        ) {
            Ok(outcome) => (outcome.store, before.1.push(Ok(outcome.response))),
            Err(e) => (before.0, before.1.push(Err(e))),
        }
    }
}

/// Many requests with one key start one backend. The same request, with a
/// key that nobody holds, is made many times over; each takes effect as a
/// whole, one after the other, in whatever order. Where all of them succeed,
/// the one that takes effect first has a backend started, every other is
/// connected to that backend and starts nothing, and the store has one
/// backend more than before, which holds the key.
pub proof fn lemma_identical_connects_start_one_backend(
    s: StoreView,
    default_cluster: Option<Seq<char>>,
    req: ConnectRequestView,
    calls: Seq<ConnectCall>,
    template: Seq<UrlPartView>,
    cluster: Seq<char>,
    key: KeyView,
)
    requires
        s.wf(),
        resolve_cluster(default_cluster, req) == Some(cluster),
        req.key == Some(key),
        s.key_holder(cluster, key).is_none(),
        calls.len() >= 1,
        forall|i: int|
            0 <= i < calls.len() ==> (#[trigger] connected_in_turn(
                s,
                default_cluster,
                req,
                calls,
                template,
            ).1[i]).is_ok(),
    ensures
        ({
            let after = connected_in_turn(s, default_cluster, req, calls, template);
            &&& after.0.wf()
            &&& after.1.len() == calls.len()
            &&& after.1[0].unwrap().spawned
            &&& after.1[0].unwrap().backend_id == calls[0].fresh.backend
            &&& forall|i: int|
                1 <= i < calls.len() ==> !(#[trigger] after.1[i]).unwrap().spawned
            &&& forall|i: int|
                0 <= i < calls.len() ==> (#[trigger] after.1[i]).unwrap().backend_id
                    == calls[0].fresh.backend
            &&& after.0.backends.len() == s.backends.len() + 1
            &&& after.0.key_holder(cluster, key) == Some(calls[0].fresh.backend)
        }),
    decreases calls.len(),
{
    let after = connected_in_turn(s, default_cluster, req, calls, template);
    let front = calls.drop_last();
    let before = connected_in_turn(s, default_cluster, req, front, template);
    let last = calls.last();
    lemma_connected_in_turn_len(s, default_cluster, req, calls, template);
    lemma_connected_in_turn_len(s, default_cluster, req, front, template);
    assert forall|i: int| 0 <= i < front.len() implies (#[trigger] before.1[i]).is_ok() by {
        assert(after.1[i] == before.1[i]);
        assert(after.1[i].is_ok());
    }
    assert(after.1[calls.len() - 1].is_ok());
    if calls.len() == 1 {
        assert(before.0 == s);
        lemma_no_stale_binding(s, cluster, req.key);
        lemma_first_match(s.keys, by_key(cluster, key), 0);
        lemma_connect_wf(s, default_cluster, req, last.fresh, template, last.now);
        lemma_connect_spawn_or_reuse(s, default_cluster, req, last.fresh, template, last.now);
        lemma_connect_spawn(s, default_cluster, req, last.fresh, template, last.now);
        let drone = select_drone_spec(s, cluster, last.now).unwrap();
        let backend = new_backend_for(
            cluster,
            req.spawn_config.unwrap(),
            req.key,
            last.fresh.backend,
            drone,
            last.now,
        ).unwrap();
        assert(after.0.backends == s.backends.push(scheduled_backend(backend, last.now)));
    } else {
        lemma_identical_connects_start_one_backend(
            s,
            default_cluster,
            req,
            front,
            template,
            cluster,
            key,
        );
        assert(front[0] == calls[0]);
        lemma_connect_reuses_holder(
            before.0,
            default_cluster,
            req,
            last.fresh,
            template,
            last.now,
            cluster,
            key,
            calls[0].fresh.backend,
        );
        lemma_connect_wf(before.0, default_cluster, req, last.fresh, template, last.now);
        assert forall|i: int| 0 <= i < calls.len() implies (#[trigger] after.1[i]).unwrap().backend_id
            == calls[0].fresh.backend by {
            if i < front.len() {
                assert(after.1[i] == before.1[i]);
            }
        }
        assert forall|i: int| 1 <= i < calls.len() implies !(#[trigger] after.1[i]).unwrap().spawned by {
            if i < front.len() {
                assert(after.1[i] == before.1[i]);
            }
        }
        assert(after.1[0] == before.1[0]);
    }
}

/// Each call is answered once.
pub proof fn lemma_connected_in_turn_len(
    s: StoreView,
    default_cluster: Option<Seq<char>>,
    req: ConnectRequestView,
    calls: Seq<ConnectCall>,
    template: Seq<UrlPartView>,
)
    ensures
        connected_in_turn(s, default_cluster, req, calls, template).1.len() == calls.len(),
        calls.len() > 0 ==> forall|i: int|
            0 <= i < calls.len() - 1 ==> connected_in_turn(
                s,
                default_cluster,
                req,
                calls,
                template,
            ).1[i] == connected_in_turn(s, default_cluster, req, calls.drop_last(), template).1[i],
    decreases calls.len(),
{
    if calls.len() > 0 {
        lemma_connected_in_turn_len(s, default_cluster, req, calls.drop_last(), template);
    }
}

/// A key that is held is found at the one place at which it is bound.
pub proof fn lemma_key_singleton_at(s: StoreView, cluster: Seq<char>, key: KeyView)
    requires
        s.wf(),
        s.key_holder(cluster, key).is_some(),
    ensures
        find(s.keys, by_key(cluster, key)).is_some(),
        s.backend(s.key_holder(cluster, key).unwrap()).is_some(),
        s.backend(s.key_holder(cluster, key).unwrap()).unwrap().last_status
            != BackendStatus::Terminated,
{
    lemma_first_match(s.keys, by_key(cluster, key), 0);
    let k = find(s.keys, by_key(cluster, key)).unwrap();
    lemma_key_singleton(s, k, k);
}

/// A request starts a backend exactly where its key has no holder.
pub proof fn lemma_connect_spawn_or_reuse(
    s: StoreView,
    default_cluster: Option<Seq<char>>,
    req: ConnectRequestView,
    fresh: FreshView,
    template: Seq<UrlPartView>,
    now: Timestamp,
)
    requires
        connect_spec(s, default_cluster, req, fresh, template, now).is_ok(),
    ensures
        connect_spec(s, default_cluster, req, fresh, template, now).unwrap().response.spawned
            == key_holder_index(
            s,
            resolve_cluster(default_cluster, req).unwrap(),
            req.key,
        ).is_none(),
{
}

/// The token that a request was issued leads to the backend
/// that the request was connected to, once that backend has an address, with
/// the secret, the user and the data of that request. Until the backend has
/// an address the token leads nowhere; so it is right after a backend was
/// started.
pub proof fn lemma_token_leads_to_backend(
    s: StoreView,
    default_cluster: Option<Seq<char>>,
    req: ConnectRequestView,
    fresh: FreshView,
    template: Seq<UrlPartView>,
    now: Timestamp,
)
    requires
        s.wf(),
        connect_spec(s, default_cluster, req, fresh, template, now).is_ok(),
    ensures
        ({
            let outcome = connect_spec(s, default_cluster, req, fresh, template, now).unwrap();
            let backend = outcome.store.backend(outcome.response.backend_id);
            &&& outcome.response.token == fresh.token
            &&& backend.is_some()
            &&& route_of(outcome.store, outcome.response.token) == match backend.unwrap().cluster_address {
                None => None::<RouteInfoView>,
                Some(address) => Some(
                    RouteInfoView {
                        backend_id: outcome.response.backend_id,
                        address,
                        secret_token: outcome.response.secret_token,
                        user: req.user,
                        user_data: Some(req.auth),
                    },
                ),
            }
            &&& outcome.response.spawned ==> route_of(outcome.store, outcome.response.token).is_none()
        }),
{
    let outcome = connect_spec(s, default_cluster, req, fresh, template, now).unwrap();
    let cluster = resolve_cluster(default_cluster, req).unwrap();
    let id = outcome.response.backend_id;
    let token = token_for(req, fresh, id);
    match key_holder_index(s, cluster, req.key) {
        Some(b) => {
            lemma_first_match(s.backends, by_backend_id(s.backends[b].id), 0);
            lemma_find_push(s.tokens, by_token(fresh.token), token);
        },
        None => {
            lemma_no_stale_binding(s, cluster, req.key);
            let config = req.spawn_config.unwrap();
            let drone = select_drone_spec(s, cluster, now).unwrap();
            let backend = new_backend_for(
                cluster,
                config,
                req.key,
                fresh.backend,
                drone,
                now,
            ).unwrap();
            lemma_find_push(s.backends, by_backend_id(fresh.backend), scheduled_backend(backend, now));
            lemma_find_push(s.tokens, by_token(fresh.token), token);
        },
    }
}

/// A token leads somewhere exactly where it was issued and its backend has
/// an address; then it leads to that backend at that address.
pub proof fn lemma_route_exactly(s: StoreView, token: Seq<char>)
    requires
        s.wf(),
    ensures
        route_of(s, token).is_some() <==> (find(s.tokens, by_token(token)).is_some() && s.backend(
            s.tokens[find(s.tokens, by_token(token)).unwrap()].backend,
        ).unwrap().cluster_address.is_some()),
        route_of(s, token).is_some() ==> route_of(s, token).unwrap().backend_id
            == s.tokens[find(s.tokens, by_token(token)).unwrap()].backend && Some(
            route_of(s, token).unwrap().address,
        ) == s.backend(route_of(s, token).unwrap().backend_id).unwrap().cluster_address,
{
    lemma_first_match(s.tokens, by_token(token), 0);
}

/// A token is for good: whatever status its backend takes, the token leads
/// to that backend whenever the backend has an address, and nowhere else.
pub proof fn lemma_route_follows_status(
    s: StoreView,
    token: Seq<char>,
    backend: Seq<char>,
    status: BackendStatus,
    address: Option<BackendAddr>,
    exit_code: Option<i32>,
    now: Timestamp,
)
    requires
        s.wf(),
        find(s.tokens, by_token(token)).is_some(),
        s.tokens[find(s.tokens, by_token(token)).unwrap()].backend == backend,
        update_status_spec(s, backend, status, address, exit_code, now).is_ok(),
    ensures
        ({
            let after = update_status_spec(s, backend, status, address, exit_code, now).unwrap();
            match address {
                None => route_of(after, token).is_none(),
                Some(a) => route_of(after, token).is_some()
                    && route_of(after, token).unwrap().backend_id
                    == backend && route_of(after, token).unwrap().address == a,
            }
        }),
{
    let after = update_status_spec(s, backend, status, address, exit_code, now).unwrap();
    lemma_first_match(s.backends, by_backend_id(backend), 0);
    lemma_find_same(s.backends, after.backends, by_backend_id(backend));
}

/// Publishing `a` and then `b` is publishing `a + b`.
pub proof fn lemma_published_all_concat(bus: BusView, a: Seq<NotificationView>, b: Seq<NotificationView>)
    ensures
        published_all(bus, a + b) == published_all(published_all(bus, a), b),
    decreases b.len(),
{
    if b.len() == 0 {
        assert(a + b == a);
    } else {
        lemma_published_all_concat(bus, a, b.drop_last());
        assert((a + b).drop_last() == a + b.drop_last());
        assert((a + b).last() == b.last());
    }
}

/// The notifications of `notes` that `sub` is to get, in order.
pub open spec fn addressed_to(
    notes: Seq<NotificationView>,
    sub: SubscriptionView,
) -> Seq<NotificationView>
    decreases notes.len(),
{
    if notes.len() == 0 {
        Seq::empty()
    } else if receives(sub, notes.last()) {
        addressed_to(notes.drop_last(), sub).push(notes.last())
    } else {
        addressed_to(notes.drop_last(), sub)
    }
}

/// A subscriber whose queue does not overflow finds in it
/// the notifications of its kind and key in the order in which they were
/// published, after what was queued before; nothing else is put there.
pub proof fn lemma_delivery_keeps_order(bus: BusView, notes: Seq<NotificationView>, i: int)
    requires
        0 <= i < bus.subscriptions.len(),
        !bus.subscriptions[i].closed,
        !bus.subscriptions[i].lagged,
        bus.subscriptions[i].queue.len() + addressed_to(notes, bus.subscriptions[i]).len()
            <= bus.capacity,
    ensures
        published_all(bus, notes).subscriptions.len() == bus.subscriptions.len(),
        published_all(bus, notes).capacity == bus.capacity,
        published_all(bus, notes).subscriptions[i] == (SubscriptionView {
            queue: bus.subscriptions[i].queue + addressed_to(notes, bus.subscriptions[i]),
            ..bus.subscriptions[i]
        }),
    decreases notes.len(),
{
    let sub = bus.subscriptions[i];
    if notes.len() == 0 {
        assert(sub.queue + addressed_to(notes, sub) == sub.queue);
    } else {
        lemma_delivery_keeps_order(bus, notes.drop_last(), i);
        let before = published_all(bus, notes.drop_last());
        let mid = before.subscriptions[i];
        assert(receives(mid, notes.last()) == receives(sub, notes.last()));
        if receives(sub, notes.last()) {
            assert(sub.queue + addressed_to(notes, sub) == (sub.queue + addressed_to(
                notes.drop_last(),
                sub,
            )).push(notes.last()));
        }
    }
}

/// What a drone reports of a backend at one time.
pub struct StatusReport {
    pub status: BackendStatus,
    pub address: Option<BackendAddr>,
    pub exit_code: Option<i32>,
    pub time: Timestamp,
}

/// The store after the reports of `reports` were recorded for `backend` one
/// after the other; `None` where one of them was refused.
pub open spec fn recorded(s: StoreView, backend: Seq<char>, reports: Seq<StatusReport>) -> Option<
    StoreView,
>
    decreases reports.len(),
{
    if reports.len() == 0 {
        Some(s)
    } else {
        match recorded(s, backend, reports.drop_last()) {
            None => None,
            Some(t) => match update_status_spec(
                t,
                backend,
                reports.last().status,
                reports.last().address,
                reports.last().exit_code,
                reports.last().time,
            ) {
                Ok(u) => Some(u),
                Err(_) => None,
            },
        }
    }
}

/// The statuses of `reports` with their times, in order.
pub open spec fn statuses_of(reports: Seq<StatusReport>) -> Seq<TimestampedBackendStatus> {
    Seq::new(
        reports.len(),
        |i: int| TimestampedBackendStatus { status: reports[i].status, time: reports[i].time },
    )
}

/// What is announced when the reports of `reports` are recorded for `backend`.
pub open spec fn announced(backend: Seq<char>, reports: Seq<StatusReport>) -> Seq<NotificationView> {
    Seq::new(
        reports.len(),
        |i: int| status_note(backend, reports[i].status, reports[i].time),
    )
}

/// Recording reports keeps the store consistent and appends their
/// statuses, in order, to the log of the backend.
pub proof fn lemma_recorded_extends_log(s: StoreView, backend: Seq<char>, reports: Seq<StatusReport>)
    requires
        s.wf(),
        recorded(s, backend, reports).is_some(),
    ensures
        recorded(s, backend, reports).unwrap().wf(),
        log_of(recorded(s, backend, reports).unwrap().log, backend) == log_of(s.log, backend)
            + statuses_of(reports),
    decreases reports.len(),
{
    if reports.len() == 0 {
        assert(log_of(s.log, backend) + statuses_of(reports) == log_of(s.log, backend));
    } else {
        let front = reports.drop_last();
        let last = reports.last();
        lemma_recorded_extends_log(s, backend, front);
        let t = recorded(s, backend, front).unwrap();
        lemma_update_status_wf(
            t,
            backend,
            last.status,
            last.address,
            last.exit_code,
            last.time,
        );
        lemma_first_match(t.backends, by_backend_id(backend), 0);
        lemma_update_status_outcome(t, backend, last.status, last.address, last.exit_code, last.time);
        assert(statuses_of(reports) == statuses_of(front).push(
            TimestampedBackendStatus { status: last.status, time: last.time },
        ));
    }
}

/// A subscriber of the statuses of a backend is to get every announcement of them.
pub proof fn lemma_announced_is_addressed(
    backend: Seq<char>,
    reports: Seq<StatusReport>,
    sub: SubscriptionView,
)
    requires
        !sub.closed,
        !sub.lagged,
        sub.kind == NotificationKind::BackendState,
        sub.key == KeyTopic::Backend(backend),
    ensures
        addressed_to(announced(backend, reports), sub) == announced(backend, reports),
    decreases reports.len(),
{
    let notes = announced(backend, reports);
    if reports.len() == 0 {
        assert(notes == Seq::<NotificationView>::empty());
    } else {
        lemma_announced_is_addressed(backend, reports.drop_last(), sub);
        assert(notes.drop_last() == announced(backend, reports.drop_last()));
        assert(receives(sub, notes.last()));
        assert(announced(backend, reports.drop_last()).push(notes.last()) == notes);
    }
}

/// A subscriber opens the status stream
/// of a backend: it subscribes and reads the log. After that, reports are
/// recorded for the backend, no more than the queue of the subscriber holds.
/// Then the queue holds the announcements of exactly these reports, in
/// order; the log of the backend is what the subscriber read followed by
/// their statuses; and what the subscriber observes when it takes what is
/// queued never goes back. Where no status was recorded twice, it observes
/// the whole log, each row once.
pub proof fn lemma_subscriber_observes_the_log(
    s: StoreView,
    bus: BusView,
    backend: Seq<char>,
    reports: Seq<StatusReport>,
    subscription: int,
)
    requires
        s.wf(),
        recorded(s, backend, reports).is_some(),
        0 <= subscription < bus.subscriptions.len(),
        bus.subscriptions[subscription] == (SubscriptionView {
            kind: NotificationKind::BackendState,
            key: KeyTopic::Backend(backend),
            queue: Seq::empty(),
            lagged: false,
            closed: false,
        }),
        reports.len() <= bus.capacity,
    ensures
        published_all(bus, announced(backend, reports)).subscriptions[subscription].queue
            == announced(backend, reports),
        !published_all(bus, announced(backend, reports)).subscriptions[subscription].lagged,
        log_of(recorded(s, backend, reports).unwrap().log, backend) == log_of(s.log, backend)
            + statuses_of(reports),
        non_decreasing(stream_output(log_of(s.log, backend), statuses_of(reports))),
        ends_at_terminated(stream_output(log_of(s.log, backend), statuses_of(reports))),
        strictly_increasing(log_of(recorded(s, backend, reports).unwrap().log, backend))
            ==> stream_output(log_of(s.log, backend), statuses_of(reports)) == log_of(
            recorded(s, backend, reports).unwrap().log,
            backend,
        ),
{
    let sub = bus.subscriptions[subscription];
    let notes = announced(backend, reports);
    lemma_announced_is_addressed(backend, reports, sub);
    lemma_delivery_keeps_order(bus, notes, subscription);
    assert(sub.queue + notes == notes);
    lemma_recorded_extends_log(s, backend, reports);
    lemma_observed_statuses_are_monotone(s, backend, statuses_of(reports));
    let history = log_of(s.log, backend);
    let log = log_of(recorded(s, backend, reports).unwrap().log, backend);
    if strictly_increasing(log) {
        lemma_stream_is_complete(log, history.len() as int, history.len() as int);
        assert(log.take(history.len() as int) == history);
        assert(log.skip(history.len() as int) == statuses_of(reports));
    }
}

/// The announcements of reports carry the statuses of the reports.
pub proof fn lemma_announced_statuses(backend: Seq<char>, reports: Seq<StatusReport>)
    ensures
        queued_statuses(announced(backend, reports)) == statuses_of(reports),
    decreases reports.len(),
{
    let notes = announced(backend, reports);
    if reports.len() == 0 {
        assert(statuses_of(reports) == Seq::<TimestampedBackendStatus>::empty());
    } else {
        lemma_announced_statuses(backend, reports.drop_last());
        assert(notes.drop_last() == announced(backend, reports.drop_last()));
        assert(statuses_of(reports) == statuses_of(reports.drop_last()).push(
            TimestampedBackendStatus { status: reports.last().status, time: reports.last().time },
        ));
    }
}

/// What a subscriber is handed. A stream is opened on a store: it has its
/// subscription, new and empty, and the rows that the log of its backend
/// holds. Reports are then recorded for the backend, no more than the queue
/// holds. Stepping the stream once for each row and each report hands over
/// exactly the stream's output of these rows and these statuses. So all
/// that is proved of that output holds of what the steps hand over: the
/// statuses never go back, nothing follows `Terminated`, and where the log
/// holds no status twice, the whole log is handed over, each row once.
pub proof fn lemma_opened_stream_hands_over_the_log(
    s: StoreView,
    bus: BusView,
    backend: Seq<char>,
    reports: Seq<StatusReport>,
    stream: StreamView,
)
    requires
        s.wf(),
        recorded(s, backend, reports).is_some(),
        stream.position == 0,
        stream.last_status.is_none(),
        stream.history == log_of(s.log, backend),
        stream.subscription.index < bus.subscriptions.len(),
        bus.subscriptions[stream.subscription.index as int] == (SubscriptionView {
            kind: NotificationKind::BackendState,
            key: KeyTopic::Backend(backend),
            queue: Seq::empty(),
            lagged: false,
            closed: false,
        }),
        reports.len() <= bus.capacity,
    ensures
        ({
            let handed = ran_stream(
                stream,
                published_all(bus, announced(backend, reports)),
                stream.history.len() + reports.len(),
            ).2;
            let log = log_of(recorded(s, backend, reports).unwrap().log, backend);
            &&& handed == stream_output(log_of(s.log, backend), statuses_of(reports))
            &&& non_decreasing(handed)
            &&& ends_at_terminated(handed)
            &&& log == log_of(s.log, backend) + statuses_of(reports)
            &&& strictly_increasing(log) ==> handed == log
        }),
{
    let index = stream.subscription.index as int;
    lemma_subscriber_observes_the_log(s, bus, backend, reports, index);
    let after = published_all(bus, announced(backend, reports));
    lemma_announced_is_addressed(backend, reports, bus.subscriptions[index]);
    assert(bus.subscriptions[index].queue + announced(backend, reports) == announced(
        backend,
        reports,
    ));
    lemma_delivery_keeps_order(bus, announced(backend, reports), index);
    lemma_stream_run_yields_output(stream, after);
    lemma_announced_statuses(backend, reports);
}

/// One operation on the store, as one of its callers asks for it.
pub enum Operation {
    Connect {
        default_cluster: Option<Seq<char>>,
        request: ConnectRequestView,
        fresh: FreshView,
        template: Seq<UrlPartView>,
        now: Timestamp,
    },
    CreateBackend { added: NewBackendView, now: Timestamp },
    UpdateStatus {
        backend: Seq<char>,
        status: BackendStatus,
        address: Option<BackendAddr>,
        exit_code: Option<i32>,
        now: Timestamp,
    },
    UpdateKeepalive { backend: Seq<char>, now: Timestamp },
    IssueToken { token: TokenView },
    Register { registration: RegistrationView, now: Timestamp },
    MarkOffline { node: NodeId, now: Timestamp },
    Heartbeat { node: NodeId, capacity: Option<u32>, now: Timestamp },
}

/// The store after an operation. An operation that fails leaves the store as it was.
pub open spec fn applied(s: StoreView, op: Operation) -> StoreView {
    match op {
        Operation::Connect { default_cluster, request, fresh, template, now } => match connect_spec(
            s,
            default_cluster,
            request,
            fresh,
            template,
            now,
        ) {
            Ok(outcome) => outcome.store,
            Err(_) => s,
        },
        Operation::CreateBackend { added, now } => match create_backend_spec(s, added, now) {
            Ok(t) => t,
            Err(_) => s,
        },
        Operation::UpdateStatus { backend, status, address, exit_code, now } => match update_status_spec(
            s,
            backend,
            status,
            address,
            exit_code,
            now,
        ) {
            Ok(t) => t,
            Err(_) => s,
        },
        Operation::UpdateKeepalive { backend, now } => match update_keepalive_spec(s, backend, now) {
            Ok(t) => t,
            Err(_) => s,
        },
        Operation::IssueToken { token } => match issue_token_spec(s, token) {
            Ok(t) => t,
            Err(_) => s,
        },
        Operation::Register { registration, now } => match register_spec(s, registration, now) {
            Ok((t, _)) => t,
            Err(_) => s,
        },
        Operation::MarkOffline { node, now } => match mark_offline_spec(s, node, now) {
            Ok(t) => t,
            Err(_) => s,
        },
        Operation::Heartbeat { node, capacity, now } => match heartbeat_spec(s, node, capacity, now) {
            Ok(t) => t,
            Err(_) => s,
        },
    }
}

/// The store after the operations of `ops`, one after the other.
pub open spec fn ran(s: StoreView, ops: Seq<Operation>) -> StoreView
    decreases ops.len(),
{
    if ops.len() == 0 {
        s
    } else {
        applied(ran(s, ops.drop_last()), ops.last())
    }
}

/// Whether an operation records that `backend` has terminated.
pub open spec fn terminates(op: Operation, backend: Seq<char>) -> bool {
    match op {
        Operation::UpdateStatus { backend: b, status, .. } => b == backend && status
            == BackendStatus::Terminated,
        _ => false,
    }
}

/// Every operation keeps the store consistent, whether it succeeds or fails.
pub proof fn lemma_operation_keeps_consistency(s: StoreView, op: Operation)
    requires
        s.wf(),
    ensures
        applied(s, op).wf(),
{
    match op {
        Operation::Connect { default_cluster, request, fresh, template, now } => {
            if connect_spec(s, default_cluster, request, fresh, template, now).is_ok() {
                lemma_connect_wf(s, default_cluster, request, fresh, template, now);
            }
        },
        Operation::CreateBackend { added, now } => {
            if create_backend_spec(s, added, now).is_ok() {
                lemma_create_backend_wf(s, added, now);
            }
        },
        Operation::UpdateStatus { backend, status, address, exit_code, now } => {
            if update_status_spec(s, backend, status, address, exit_code, now).is_ok() {
                lemma_update_status_wf(
                    s,
                    backend,
                    status,
                    address,
                    exit_code,
                    now,
                );
            }
        },
        Operation::UpdateKeepalive { backend, now } => {
            if update_keepalive_spec(s, backend, now).is_ok() {
                lemma_update_keepalive_wf(s, backend, now);
            }
        },
        Operation::IssueToken { token } => {
            if issue_token_spec(s, token).is_ok() {
                lemma_issue_token_wf(s, token);
            }
        },
        Operation::Register { registration, now } => {
            if register_spec(s, registration, now).is_ok() {
                lemma_register_wf(s, registration, now);
            }
        },
        Operation::MarkOffline { node, now } => {
            if mark_offline_spec(s, node, now).is_ok() {
                lemma_mark_offline_wf(s, node, now);
            }
        },
        Operation::Heartbeat { node, capacity, now } => {
            if heartbeat_spec(s, node, capacity, now).is_ok() {
                lemma_heartbeat_wf(s, node, capacity, now);
            }
        },
    }
}

/// Whatever operations are made on a
/// consistent store, in whatever order, the store is consistent after each
/// of them. With `lemma_key_singleton` and `lemma_status_is_monotone` this
/// says that at no moment two live backends hold one key, and that at no
/// moment a status log goes back.
pub proof fn lemma_consistent_at_every_moment(s: StoreView, ops: Seq<Operation>)
    requires
        s.wf(),
    ensures
        ran(s, ops).wf(),
    decreases ops.len(),
{
    if ops.len() > 0 {
        lemma_consistent_at_every_moment(s, ops.drop_last());
        lemma_operation_keeps_consistency(ran(s, ops.drop_last()), ops.last());
    }
}

/// A store that starts empty is consistent at every moment.
pub proof fn lemma_consistent_from_the_start(ops: Seq<Operation>)
    ensures
        ran(StoreView::empty(), ops).wf(),
{
    lemma_consistent_at_every_moment(StoreView::empty(), ops);
}

/// A binding outlasts every operation but the one that records that its
/// holder has terminated.
pub proof fn lemma_operation_keeps_binding(
    s: StoreView,
    op: Operation,
    cluster: Seq<char>,
    key: KeyView,
    holder: Seq<char>,
)
    requires
        s.wf(),
        s.key_holder(cluster, key) == Some(holder),
        !terminates(op, holder),
    ensures
        applied(s, op).key_holder(cluster, key) == Some(holder),
{
    match op {
        Operation::Connect { default_cluster, request, fresh, template, now } => {
            if connect_spec(s, default_cluster, request, fresh, template, now).is_ok() {
                lemma_connect_keeps_bindings(
                    s,
                    default_cluster,
                    request,
                    fresh,
                    template,
                    now,
                    cluster,
                    key,
                );
            }
        },
        Operation::CreateBackend { added, now } => {
            if create_backend_spec(s, added, now).is_ok() && added.key.is_some() {
                lemma_find_push(
                    s.keys,
                    by_key(cluster, key),
                    KeyRowView { cluster: added.cluster, key: added.key.unwrap(), backend: added.id },
                );
                lemma_first_match(s.keys, by_key(cluster, key), 0);
                let k = find(s.keys, by_key(cluster, key)).unwrap();
                let t = create_backend_spec(s, added, now).unwrap();
                assert(t.keys[k] == s.keys[k]);
            }
        },
        Operation::UpdateStatus { backend, status, address, exit_code, now } => {
            if update_status_spec(s, backend, status, address, exit_code, now).is_ok() {
                lemma_update_status_keeps_bindings(
                    s,
                    backend,
                    status,
                    address,
                    exit_code,
                    now,
                    cluster,
                    key,
                );
            }
        },
        _ => {},
    }
}

/// As long as no operation records that
/// the holder of a key has terminated, the key stays bound to it whatever
/// else is done, and every request with that key is connected to it and
/// starts nothing.
pub proof fn lemma_binding_lasts_until_termination(
    s: StoreView,
    ops: Seq<Operation>,
    cluster: Seq<char>,
    key: KeyView,
    holder: Seq<char>,
    default_cluster: Option<Seq<char>>,
    req: ConnectRequestView,
    fresh: FreshView,
    template: Seq<UrlPartView>,
    now: Timestamp,
)
    requires
        s.wf(),
        s.key_holder(cluster, key) == Some(holder),
        forall|i: int| 0 <= i < ops.len() ==> !terminates(#[trigger] ops[i], holder),
        resolve_cluster(default_cluster, req) == Some(cluster),
        req.key == Some(key),
    ensures
        ran(s, ops).wf(),
        ran(s, ops).key_holder(cluster, key) == Some(holder),
        match connect_spec(ran(s, ops), default_cluster, req, fresh, template, now) {
            Ok(outcome) => outcome.response.backend_id == holder && !outcome.response.spawned,
            Err(e) => e == ConnectError::DbError,
        },
    decreases ops.len(),
{
    lemma_consistent_at_every_moment(s, ops);
    if ops.len() > 0 {
        let front = ops.drop_last();
        assert forall|i: int| 0 <= i < front.len() implies !terminates(
            #[trigger] front[i],
            holder,
        ) by {
            assert(front[i] == ops[i]);
        }
        lemma_binding_lasts_until_termination(
            s,
            front,
            cluster,
            key,
            holder,
            default_cluster,
            req,
            fresh,
            template,
            now,
        );
        assert(!terminates(ops[ops.len() - 1], holder));
        lemma_operation_keeps_binding(ran(s, front), ops.last(), cluster, key, holder);
    }
    lemma_connect_reuses_holder(
        ran(s, ops),
        default_cluster,
        req,
        fresh,
        template,
        now,
        cluster,
        key,
        holder,
    );
}

} // verus!
