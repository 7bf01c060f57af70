//! The connect resolver: a client asks for a backend and is given the one
//! that holds its key, or a new one where the key is free.
//!
//! Within a cluster a key is held by at most one live backend. A request that
//! names a held key is connected to the holder and nothing is started. A
//! request that names a free key, or none, has a backend started on the drone
//! that placement picks, and the key, if any, is bound to it in the same step.
//! Every request that succeeds is issued a token of its own.

use vstd::prelude::*;
use vstd::string::StringExecFns;
use crate::database::backend::{BackendDatabase, NewBackend};
use crate::database::invariants::{lemma_create_backend_wf, lemma_find_push, lemma_issue_token_wf};
use crate::database::model::{
    by_backend_id, by_key, create_backend_spec, find, issue_token_spec, lemma_first_match,
    scheduled_backend, status_note, KeyView, NewBackendView, StoreError, StoreView, TokenView,
};
use crate::database::subscribe::{
    published, BusView, KeyTopic, NotificationView, PayloadView,
};
use crate::database::{lemma_views, views, PlaneDatabase, TokenRecord};
use crate::names::{BackendActionName, BackendName, BearerToken, ClusterName, NodeId, SecretToken};
use crate::protocol::{ActionMessageView, ActionView, BackendAction, BackendActionMessage};
use crate::scheduler::{
    choose_drone, chosen, select_drone_spec, standings_of, DroneStanding, StandingView,
};
use crate::status::{shifted, BackendStatus, Timestamp};
use crate::types::{
    clone_opt_text, opt_view, ConnectError, ConnectRequest, ConnectRequestView, ConnectResponse,
    ConnectResponseView, SpawnConfig, SpawnView,
};

verus! {

/// One piece of the template from which the URL of a connection is made.
#[derive(Debug, PartialEq, Eq)]
pub enum UrlPart {
    /// Text that is taken as it stands.
    Text(String),
    /// Stands for the name of the cluster.
    Cluster,
    /// Stands for the name of the backend.
    Backend,
    /// Stands for the bearer token.
    Token,
}

/// The model of a `UrlPart`.
pub enum UrlPartView {
    Text(Seq<char>),
    Cluster,
    Backend,
    Token,
}

impl View for UrlPart {
    type V = UrlPartView;

    open spec fn view(&self) -> UrlPartView {
        match *self {
            UrlPart::Text(text) => UrlPartView::Text(text@),
            UrlPart::Cluster => UrlPartView::Cluster,
            UrlPart::Backend => UrlPartView::Backend,
            UrlPart::Token => UrlPartView::Token,
        }
    }
}

/// What one piece of a template stands for.
pub open spec fn part_text(
    part: UrlPartView,
    cluster: Seq<char>,
    backend: Seq<char>,
    token: Seq<char>,
) -> Seq<char> {
    match part {
        UrlPartView::Text(text) => text,
        UrlPartView::Cluster => cluster,
        UrlPartView::Backend => backend,
        UrlPartView::Token => token,
    }
}

/// The URL that a template gives: what its pieces stand for, one after the other.
pub open spec fn rendered(
    template: Seq<UrlPartView>,
    cluster: Seq<char>,
    backend: Seq<char>,
    token: Seq<char>,
) -> Seq<char>
    decreases template.len(),
{
    if template.len() == 0 {
        Seq::empty()
    } else {
        rendered(template.drop_last(), cluster, backend, token) + part_text(
            template.last(),
            cluster,
            backend,
            token,
        )
    }
}

/// Makes the URL of a connection from a template.
pub fn render_url(
    template: &Vec<UrlPart>,
    cluster: &ClusterName,
    backend: &BackendName,
    token: &BearerToken,
) -> (url: String)
    ensures
        url@ == rendered(views(template@), cluster@, backend@, token@),
{
    let ghost parts = views(template@);
    let mut url = String::new();
    let mut i: usize = 0;
    while i < template.len()
        invariant
            i <= template@.len(),
            parts == views(template@),
            url@ == rendered(parts.take(i as int), cluster@, backend@, token@),
        decreases template@.len() - i,
    {
        proof {
            assert(parts.take(i + 1).drop_last() == parts.take(i as int));
            assert(parts.take(i + 1).last() == template@[i as int]@);
        }
        match &template[i] {
            UrlPart::Text(text) => url.append(text.as_str()),
            UrlPart::Cluster => url.append(cluster.0.as_str()),
            UrlPart::Backend => url.append(backend.0.as_str()),
            UrlPart::Token => url.append(token.0.as_str()),
        }
        i += 1;
    }
    proof {
        assert(parts.take(template@.len() as int) == parts);
    }
    url
}

/// The names that a connect request may need, made anew for it: nobody has
/// seen them before and nobody can guess them.
pub struct FreshNames {
    /// The name of the backend, should one be started.
    pub backend: BackendName,
    /// The name of the action that asks the drone to start it.
    pub action: BackendActionName,
    pub token: BearerToken,
    pub secret_token: SecretToken,
}

/// The model of a `FreshNames`.
pub struct FreshView {
    pub backend: Seq<char>,
    pub action: Seq<char>,
    pub token: Seq<char>,
    pub secret_token: Seq<char>,
}

impl View for FreshNames {
    type V = FreshView;

    open spec fn view(&self) -> FreshView {
        FreshView {
            backend: self.backend@,
            action: self.action@,
            token: self.token@,
            secret_token: self.secret_token@,
        }
    }
}

impl Clone for FreshNames {
    fn clone(&self) -> (r: Self)
        ensures
            r == *self,
    {
        FreshNames {
            backend: self.backend.clone(),
            action: self.action.clone(),
            token: self.token.clone(),
            secret_token: self.secret_token.clone(),
        }
    }
}

/// What a connect request that succeeded has made.
pub struct ConnectOutcome {
    /// The content of the store afterwards.
    pub store: StoreView,
    pub response: ConnectResponseView,
    /// What the chosen drone is asked to do, where a backend was started.
    pub action: Option<ActionMessageView>,
}

/// The cluster that a request is for: the one its spawn configuration
/// names, else the controller's default.
pub open spec fn resolve_cluster(default_cluster: Option<Seq<char>>, req: ConnectRequestView) -> Option<
    Seq<char>,
> {
    match req.spawn_config {
        Some(config) => match config.cluster {
            Some(cluster) => Some(cluster),
            None => default_cluster,
        },
        None => default_cluster,
    }
}

/// The place of the live backend that holds the key of a request, if the
/// request has a key and the key is held by a backend that has not terminated.
pub open spec fn key_holder_index(s: StoreView, cluster: Seq<char>, key: Option<KeyView>) -> Option<
    int,
> {
    match key {
        None => None,
        Some(k) => match s.key_holder(cluster, k) {
            None => None,
            Some(id) => match find(s.backends, by_backend_id(id)) {
                Some(b) => if s.backends[b].last_status != BackendStatus::Terminated {
                    Some(b)
                } else {
                    None
                },
                None => None,
            },
        },
    }
}

/// The store without the binding of the key of a request, where that
/// binding has no live holder. A consistent store has no such binding; it
/// is cleared away so that it cannot stand in the way of a new backend.
pub open spec fn without_stale_binding(s: StoreView, cluster: Seq<char>, key: Option<KeyView>) -> StoreView {
    match key {
        None => s,
        Some(k) => match find(s.keys, by_key(cluster, k)) {
            Some(i) => if key_holder_index(s, cluster, key).is_none() {
                StoreView { keys: s.keys.remove(i), ..s }
            } else {
                s
            },
            None => s,
        },
    }
}

/// The number of seconds as the store holds it, where it can.
pub open spec fn idle_seconds(limit: Option<i64>) -> Option<Option<i32>> {
    match limit {
        None => Some(None),
        Some(seconds) => if i32::MIN <= seconds <= i32::MAX {
            Some(Some(seconds as i32))
        } else {
            None
        },
    }
}

/// The time at which a backend made at `now` expires, where it can be represented.
pub open spec fn expiration(limit: Option<i64>, now: Timestamp) -> Option<Option<Timestamp>> {
    match limit {
        None => Some(None),
        Some(seconds) => match shifted(now, seconds as int) {
            Some(deadline) => Some(Some(deadline)),
            None => None,
        },
    }
}

/// The backend to add for a request, where its limits can be stored.
pub open spec fn new_backend_for(
    cluster: Seq<char>,
    config: SpawnView,
    key: Option<KeyView>,
    name: Seq<char>,
    drone: NodeId,
    now: Timestamp,
) -> Option<NewBackendView> {
    match (expiration(config.lifetime_limit_seconds, now), idle_seconds(config.max_idle_seconds)) {
        (Some(expiration_time), Some(allowed_idle_seconds)) => Some(
            NewBackendView {
                id: name,
                cluster,
                drone_id: drone,
                expiration_time,
                allowed_idle_seconds,
                key,
            },
        ),
        _ => None,
    }
}

/// The token that a request is issued for the backend `backend`.
pub open spec fn token_for(req: ConnectRequestView, fresh: FreshView, backend: Seq<char>) -> TokenView {
    TokenView {
        token: fresh.token,
        backend,
        username: req.user,
        auth: req.auth,
        secret_token: fresh.secret_token,
    }
}

/// The notification that carries an action to its drone.
pub open spec fn action_note(message: ActionMessageView, now: Timestamp) -> NotificationView {
    NotificationView {
        key: KeyTopic::Node(message.drone_id),
        payload: PayloadView::Action(message),
        timestamp: now,
    }
}

/// The last step of a connect: the token is issued and the answer made up.
pub open spec fn concluded(
    s: StoreView,
    req: ConnectRequestView,
    fresh: FreshView,
    template: Seq<UrlPartView>,
    cluster: Seq<char>,
    backend: Seq<char>,
    status: BackendStatus,
    action: Option<ActionMessageView>,
) -> Result<ConnectOutcome, ConnectError> {
    match issue_token_spec(s, token_for(req, fresh, backend)) {
        Err(_) => Err(ConnectError::DbError),
        Ok(store) => Ok(
            ConnectOutcome {
                store,
                response: ConnectResponseView {
                    backend_id: backend,
                    spawned: action.is_some(),
                    token: fresh.token,
                    url: rendered(template, cluster, backend, fresh.token),
                    secret_token: fresh.secret_token,
                    status,
                },
                action,
            },
        ),
    }
}

/// What a connect request makes of the store, or the error with which it fails.
///
/// The request fails with `NoCluster` where it names no cluster and there is
/// no default. Where its key is held, it is connected to the holder. Else it
/// fails with `NotFound` where it brings no spawn configuration, with
/// `NoDroneAvailable` where placement finds no drone, and with `DbError`
/// where its limits cannot be stored or the new backend's name is taken;
/// otherwise a binding of the key that has no live holder is cleared away,
/// a backend is added in status `Scheduled` and the key, if any, bound to it.
/// In both cases a token is issued; the request fails with `DbError` where
/// the token is in use.
pub open spec fn connect_spec(
    s: StoreView,
    default_cluster: Option<Seq<char>>,
    req: ConnectRequestView,
    fresh: FreshView,
    template: Seq<UrlPartView>,
    now: Timestamp,
) -> Result<ConnectOutcome, ConnectError> {
    match resolve_cluster(default_cluster, req) {
        None => Err(ConnectError::NoCluster),
        Some(cluster) => match key_holder_index(s, cluster, req.key) {
            Some(b) => concluded(
                s,
                req,
                fresh,
                template,
                cluster,
                s.backends[b].id,
                s.backends[b].last_status,
                None,
            ),
            None => match req.spawn_config {
                None => Err(ConnectError::NotFound),
                Some(config) => match select_drone_spec(s, cluster, now) {
                    None => Err(ConnectError::NoDroneAvailable),
                    Some(drone) => match new_backend_for(
                        cluster,
                        config,
                        req.key,
                        fresh.backend,
                        drone,
                        now,
                    ) {
                        None => Err(ConnectError::DbError),
                        Some(backend) => match create_backend_spec(
                            without_stale_binding(s, cluster, req.key),
                            backend,
                            now,
                        ) {
                            Err(StoreError::Conflict) => Err(ConnectError::Conflict),
                            Err(_) => Err(ConnectError::DbError),
                            Ok(added) => concluded(
                                added,
                                req,
                                fresh,
                                template,
                                cluster,
                                fresh.backend,
                                BackendStatus::Scheduled,
                                Some(
                                    ActionMessageView {
                                        action_id: fresh.action,
                                        backend_id: fresh.backend,
                                        drone_id: drone,
                                        action: ActionView::Spawn {
                                            executable: config.executable,
                                            expiration_time: backend.expiration_time,
                                            allowed_idle_seconds: backend.allowed_idle_seconds,
                                        },
                                    },
                                ),
                            ),
                        },
                    },
                },
            },
        },
    }
}

/// The bus after a connect: where a backend was started, its first status
/// was announced and then the action sent to the drone.
pub open spec fn bus_after_connect(bus: BusView, outcome: ConnectOutcome, now: Timestamp) -> BusView {
    match outcome.action {
        Some(message) => published(
            published(bus, status_note(message.backend_id, BackendStatus::Scheduled, now)),
            action_note(message, now),
        ),
        None => bus,
    }
}

/// In a consistent store a key that is bound has a live holder, so that a
/// request whose key has no live holder finds the key free.
pub proof fn lemma_unheld_key_is_free(s: StoreView, cluster: Seq<char>, key: KeyView)
    requires
        s.wf(),
        key_holder_index(s, cluster, Some(key)).is_none(),
    ensures
        find(s.keys, by_key(cluster, key)).is_none(),
{
    lemma_first_match(s.keys, by_key(cluster, key), 0);
}

/// A consistent store has no binding without a live holder: there is
/// nothing to clear away.
pub proof fn lemma_no_stale_binding(s: StoreView, cluster: Seq<char>, key: Option<KeyView>)
    requires
        s.wf(),
    ensures
        without_stale_binding(s, cluster, key) == s,
        key.is_some() && find(s.keys, by_key(cluster, key.unwrap())).is_some()
            ==> key_holder_index(s, cluster, key).is_some(),
{
    if key.is_some() {
        lemma_first_match(s.keys, by_key(cluster, key.unwrap()), 0);
    }
}

/// A connect request keeps the store consistent.
pub proof fn lemma_connect_wf(
    s: StoreView,
    default_cluster: Option<Seq<char>>,
    req: ConnectRequestView,
    fresh: FreshView,
    template: Seq<UrlPartView>,
    now: Timestamp,
)
    requires
        s.wf(),
        connect_spec(s, default_cluster, req, fresh, template, now).is_ok(),
    ensures
        connect_spec(s, default_cluster, req, fresh, template, now).unwrap().store.wf(),
{
    let cluster = resolve_cluster(default_cluster, req).unwrap();
    match key_holder_index(s, cluster, req.key) {
        Some(b) => {
            lemma_issue_token_wf(s, token_for(req, fresh, s.backends[b].id));
        },
        None => {
            let config = req.spawn_config.unwrap();
            let drone = select_drone_spec(s, cluster, now).unwrap();
            let backend = new_backend_for(cluster, config, req.key, fresh.backend, drone, now).unwrap();
            lemma_no_stale_binding(s, cluster, req.key);
            lemma_create_backend_wf(s, backend, now);
            let added = create_backend_spec(s, backend, now).unwrap();
            lemma_issue_token_wf(added, token_for(req, fresh, fresh.backend));
        },
    }
}

/// How often a connect request is tried before it fails with `Conflict`.
pub const MAX_CONNECT_ATTEMPTS: u32 = 3;

/// Whether a connect request that failed with `error` after `attempts`
/// attempts is to be tried again: only a conflict is, and only while
/// attempts are left.
pub fn should_retry(error: ConnectError, attempts: u32) -> (r: bool)
    ensures
        r == (error == ConnectError::Conflict && attempts < MAX_CONNECT_ATTEMPTS),
{
    match error {
        ConnectError::Conflict => attempts < MAX_CONNECT_ATTEMPTS,
        _ => false,
    }
}

/// Seconds that a connect request may take before it fails with `DbError`.
pub const CONNECT_TIMEOUT_SECONDS: i64 = 5;

/// Whether a connect request that began at `started` has, at `now`, taken
/// longer than it may.
pub fn timed_out(started: Timestamp, now: Timestamp) -> (r: bool)
    ensures
        r == (now.micros - started.micros > CONNECT_TIMEOUT_SECONDS * 1_000_000),
{
    let limit: i128 = (CONNECT_TIMEOUT_SECONDS as i128) * 1_000_000;
    now.micros_since(started) > limit
}

/// The cluster that `request` is for.
pub fn cluster_of<'a>(default_cluster: Option<&'a ClusterName>, request: &'a ConnectRequest) -> (r:
    Option<&'a ClusterName>)
    ensures
        opt_view(r) == resolve_cluster(opt_view(default_cluster), request@),
{
    match &request.spawn_config {
        Some(config) => match &config.cluster {
            Some(cluster) => Some(cluster),
            None => default_cluster,
        },
        None => default_cluster,
    }
}

/// The limits of a new backend as the store holds them.
pub fn limits_of(config: &SpawnConfig, now: Timestamp) -> (r: Option<
    (Option<Timestamp>, Option<i32>),
>)
    ensures
        r == match (
            expiration(config.lifetime_limit_seconds, now),
            idle_seconds(config.max_idle_seconds),
        ) {
            (Some(e), Some(i)) => Some((e, i)),
            _ => None,
        },
{
    let expiration_time = match config.lifetime_limit_seconds {
        None => None,
        Some(seconds) => match now.plus_seconds(seconds) {
            Some(deadline) => Some(deadline),
            None => {
                return None;
            },
        },
    };
    let allowed_idle_seconds = match config.max_idle_seconds {
        None => None,
        Some(seconds) => if seconds < (i32::MIN as i64) || seconds > (i32::MAX as i64) {
            return None;
        } else {
            Some(seconds as i32)
        },
    };
    Some((expiration_time, allowed_idle_seconds))
}

/// What the store holds of the key of a request: the backend that the key
/// is bound to, and the status of that backend (`None` where the store has
/// no such backend).
pub struct KeyBinding {
    pub backend: BackendName,
    pub status: Option<BackendStatus>,
}

/// The model of a `KeyBinding`.
pub struct BindingView {
    pub backend: Seq<char>,
    pub status: Option<BackendStatus>,
}

impl View for KeyBinding {
    type V = BindingView;

    open spec fn view(&self) -> BindingView {
        BindingView { backend: self.backend@, status: self.status }
    }
}

/// What is to be written and sent to carry a connect request out.
pub struct ConnectPlan {
    /// Whether the binding of the key is to be cleared away first: it has no live holder.
    pub clear_binding: bool,
    /// The backend to add, where one is to be started.
    pub backend: Option<NewBackend>,
    /// The token to issue.
    pub token: TokenRecord,
    /// What the drone is to be asked, where a backend is to be started.
    pub action: Option<BackendActionMessage>,
    /// The answer to give once all is written.
    pub response: ConnectResponse,
}

/// The model of a `ConnectPlan`.
pub struct PlanView {
    pub clear_binding: bool,
    pub backend: Option<NewBackendView>,
    pub token: TokenView,
    pub action: Option<ActionMessageView>,
    pub response: ConnectResponseView,
}

impl View for ConnectPlan {
    type V = PlanView;

    open spec fn view(&self) -> PlanView {
        PlanView {
            clear_binding: self.clear_binding,
            backend: opt_view(self.backend),
            token: self.token@,
            action: opt_view(self.action),
            response: self.response@,
        }
    }
}

/// The binding of a key in the store, as the resolver reads it.
pub open spec fn binding_in(s: StoreView, cluster: Seq<char>, key: Option<KeyView>) -> Option<
    BindingView,
> {
    match key {
        None => None,
        Some(k) => match find(s.keys, by_key(cluster, k)) {
            None => None,
            Some(i) => Some(
                BindingView {
                    backend: s.keys[i].backend,
                    status: match s.backend(s.keys[i].backend) {
                        Some(b) => Some(b.last_status),
                        None => None,
                    },
                },
            ),
        },
    }
}

/// The status of the holder of a binding, where the holder is live.
pub open spec fn live_status(binding: Option<BindingView>) -> Option<BackendStatus> {
    match binding {
        Some(b) => match b.status {
            Some(status) => if status != BackendStatus::Terminated {
                Some(status)
            } else {
                None
            },
            None => None,
        },
        None => None,
    }
}

/// The plan for a connect request, from what was read of the store: the
/// binding of the request's key in the request's cluster and where the
/// nodes stand.
///
/// The request fails with `NoCluster` where it names no cluster and there
/// is no default. Where its key has a live holder, the plan is to issue a
/// token for the holder. Else the request fails with `NotFound` where it
/// brings no spawn configuration, with `NoDroneAvailable` where no drone can
/// take a backend, and with `DbError` where its limits cannot be stored;
/// otherwise the plan is to clear away the binding, if there is one, to add
/// a backend under the fresh name on the drone chosen, to issue a token for
/// it, and to ask the drone to start it.
pub open spec fn planned(
    default_cluster: Option<Seq<char>>,
    req: ConnectRequestView,
    binding: Option<BindingView>,
    standings: Seq<StandingView>,
    fresh: FreshView,
    template: Seq<UrlPartView>,
    now: Timestamp,
) -> Result<PlanView, ConnectError> {
    match resolve_cluster(default_cluster, req) {
        None => Err(ConnectError::NoCluster),
        Some(cluster) => match live_status(binding) {
            Some(status) => Ok(
                PlanView {
                    clear_binding: false,
                    backend: None,
                    token: token_for(req, fresh, binding.unwrap().backend),
                    action: None,
                    response: ConnectResponseView {
                        backend_id: binding.unwrap().backend,
                        spawned: false,
                        token: fresh.token,
                        url: rendered(template, cluster, binding.unwrap().backend, fresh.token),
                        secret_token: fresh.secret_token,
                        status,
                    },
                },
            ),
            None => match req.spawn_config {
                None => Err(ConnectError::NotFound),
                Some(config) => match chosen(standings, cluster, now) {
                    None => Err(ConnectError::NoDroneAvailable),
                    Some(drone) => match new_backend_for(
                        cluster,
                        config,
                        req.key,
                        fresh.backend,
                        drone,
                        now,
                    ) {
                        None => Err(ConnectError::DbError),
                        Some(backend) => Ok(
                            PlanView {
                                clear_binding: binding.is_some(),
                                backend: Some(backend),
                                token: token_for(req, fresh, fresh.backend),
                                action: Some(
                                    ActionMessageView {
                                        action_id: fresh.action,
                                        backend_id: fresh.backend,
                                        drone_id: drone,
                                        action: ActionView::Spawn {
                                            executable: config.executable,
                                            expiration_time: backend.expiration_time,
                                            allowed_idle_seconds: backend.allowed_idle_seconds,
                                        },
                                    },
                                ),
                                response: ConnectResponseView {
                                    backend_id: fresh.backend,
                                    spawned: true,
                                    token: fresh.token,
                                    url: rendered(template, cluster, fresh.backend, fresh.token),
                                    secret_token: fresh.secret_token,
                                    status: BackendStatus::Scheduled,
                                },
                            },
                        ),
                    },
                },
            },
        },
    }
}

/// The store after a plan was carried out, or the error with which the
/// writes fail: `DbError` where the name of the new backend or the token is
/// taken, `Conflict` where the key is bound in spite of all.
pub open spec fn carried_out(
    s: StoreView,
    cluster: Seq<char>,
    key: Option<KeyView>,
    plan: PlanView,
    now: Timestamp,
) -> Result<StoreView, ConnectError> {
    match plan.backend {
        None => match issue_token_spec(s, plan.token) {
            Ok(t) => Ok(t),
            Err(_) => Err(ConnectError::DbError),
        },
        Some(backend) => match create_backend_spec(
            if plan.clear_binding {
                without_stale_binding(s, cluster, key)
            } else {
                s
            },
            backend,
            now,
        ) {
            Err(StoreError::Conflict) => Err(ConnectError::Conflict),
            Err(_) => Err(ConnectError::DbError),
            Ok(added) => match issue_token_spec(added, plan.token) {
                Ok(t) => Ok(t),
                Err(_) => Err(ConnectError::DbError),
            },
        },
    }
}

/// A connect request does what its plan says: the plan is made from the
/// binding of the key and the standing of the nodes in the store, and
/// carried out on the store.
pub proof fn lemma_connect_follows_plan(
    s: StoreView,
    default_cluster: Option<Seq<char>>,
    req: ConnectRequestView,
    fresh: FreshView,
    template: Seq<UrlPartView>,
    now: Timestamp,
)
    requires
        resolve_cluster(default_cluster, req).is_some(),
    ensures
        ({
            let cluster = resolve_cluster(default_cluster, req).unwrap();
            let plan = planned(
                default_cluster,
                req,
                binding_in(s, cluster, req.key),
                standings_of(s),
                fresh,
                template,
                now,
            );
            connect_spec(s, default_cluster, req, fresh, template, now) == match plan {
                Err(e) => Err::<ConnectOutcome, ConnectError>(e),
                Ok(p) => match carried_out(s, cluster, req.key, p, now) {
                    Err(e) => Err(e),
                    Ok(store) => Ok(ConnectOutcome { store, response: p.response, action: p.action }),
                },
            }
        }),
{
    let cluster = resolve_cluster(default_cluster, req).unwrap();
    if req.key.is_some() {
        let key = req.key.unwrap();
        lemma_first_match(s.keys, by_key(cluster, key), 0);
        if find(s.keys, by_key(cluster, key)).is_some() {
            let i = find(s.keys, by_key(cluster, key)).unwrap();
            lemma_first_match(s.backends, by_backend_id(s.keys[i].backend), 0);
        }
    }
}

/// Makes the plan for a connect request from what was read of the store.
pub fn plan_connect(
    default_cluster: Option<&ClusterName>,
    request: &ConnectRequest,
    binding: &Option<KeyBinding>,
    standings: &Vec<DroneStanding>,
    fresh: FreshNames,
    template: &Vec<UrlPart>,
    now: Timestamp,
) -> (r: Result<ConnectPlan, ConnectError>)
    ensures
        match planned(
            opt_view(default_cluster),
            request@,
            opt_view(*binding),
            views(standings@),
            fresh@,
            views(template@),
            now,
        ) {
            Ok(plan) => r matches Ok(made) && made@ == plan,
            Err(e) => r matches Err(failure) && failure == e,
        },
{
    let cluster = match cluster_of(default_cluster, request) {
        None => {
            return Err(ConnectError::NoCluster);
        },
        Some(cluster) => cluster,
    };
    let holder = match binding {
        Some(found) => match found.status {
            Some(status) => if status.is_terminated() {
                None
            } else {
                Some((found.backend.clone(), status))
            },
            None => None,
        },
        None => None,
    };
    match holder {
        Some((backend_id, status)) => {
            let token = TokenRecord {
                token: fresh.token.clone(),
                backend: backend_id.clone(),
                username: clone_opt_text(&request.user),
                auth: request.auth.clone(),
                secret_token: fresh.secret_token.clone(),
            };
            let url = render_url(template, cluster, &backend_id, &fresh.token);
            Ok(
                ConnectPlan {
                    clear_binding: false,
                    backend: None,
                    token,
                    action: None,
                    response: ConnectResponse {
                        backend_id,
                        spawned: false,
                        token: fresh.token,
                        url,
                        secret_token: fresh.secret_token,
                        status,
                    },
                },
            )
        },
        None => {
            let config = match &request.spawn_config {
                None => {
                    return Err(ConnectError::NotFound);
                },
                Some(config) => config,
            };
            let drone = match choose_drone(standings, cluster, now) {
                None => {
                    return Err(ConnectError::NoDroneAvailable);
                },
                Some(drone) => drone,
            };
            let (expiration_time, allowed_idle_seconds) = match limits_of(config, now) {
                None => {
                    return Err(ConnectError::DbError);
                },
                Some(limits) => limits,
            };
            let key = match &request.key {
                Some(key) => Some(key.clone()),
                None => None,
            };
            let backend = NewBackend {
                id: fresh.backend.clone(),
                cluster: cluster.clone(),
                drone_id: drone,
                expiration_time,
                allowed_idle_seconds,
                key,
            };
            let token = TokenRecord {
                token: fresh.token.clone(),
                backend: fresh.backend.clone(),
                username: clone_opt_text(&request.user),
                auth: request.auth.clone(),
                secret_token: fresh.secret_token.clone(),
            };
            let message = BackendActionMessage {
                action_id: fresh.action,
                backend_id: fresh.backend.clone(),
                drone_id: drone,
                action: BackendAction::Spawn {
                    executable: config.executable.clone(),
                    expiration_time,
                    allowed_idle_seconds,
                },
            };
            let url = render_url(template, cluster, &fresh.backend, &fresh.token);
            Ok(
                ConnectPlan {
                    clear_binding: binding.is_some(),
                    backend: Some(backend),
                    token,
                    action: Some(message),
                    response: ConnectResponse {
                        backend_id: fresh.backend,
                        spawned: true,
                        token: fresh.token,
                        url,
                        secret_token: fresh.secret_token,
                        status: BackendStatus::Scheduled,
                    },
                },
            )
        },
    }
}

impl PlaneDatabase {
    /// Issues a token for a backend.
    pub fn issue_token(&mut self, token: TokenRecord) -> (r: Result<(), StoreError>)
        requires
            old(self).wf(),
        ensures
            match issue_token_spec(old(self)@, token@) {
                Ok(s) => r.is_ok() && final(self)@ == s,
                Err(e) => r == Err::<(), StoreError>(e) && final(self)@ == old(self)@,
            },
            final(self).bus_view() == old(self).bus_view(),
            final(self).wf(),
    {
        if self.find_token(&token.token).is_some() || self.find_backend(&token.backend).is_none() {
            return Err(StoreError::DbError);
        }
        proof {
            lemma_issue_token_wf(self@, token@);
            lemma_views(self.tokens@, token, 0);
        }
        self.tokens.push(token);
        Ok(())
    }

    /// Connects a client to the backend that holds the key of its request,
    /// or to a backend started for it. An attempt that fails with a conflict
    /// is made again, `MAX_CONNECT_ATTEMPTS` times at most.
    pub fn connect(
        &mut self,
        default_cluster: Option<&ClusterName>,
        request: &ConnectRequest,
        fresh: FreshNames,
        template: &Vec<UrlPart>,
        now: Timestamp,
    ) -> (r: Result<ConnectResponse, ConnectError>)
        requires
            old(self).wf(),
        ensures
            match connect_spec(
                old(self)@,
                opt_view(default_cluster),
                request@,
                fresh@,
                views(template@),
                now,
            ) {
                Ok(outcome) => r.is_ok() && r.unwrap()@ == outcome.response && final(self)@
                    == outcome.store && final(self).bus_view() == bus_after_connect(
                    old(self).bus_view(),
                    outcome,
                    now,
                ),
                Err(e) => r == Err::<ConnectResponse, ConnectError>(e) && final(self)@ == old(self)@
                    && final(self).bus_view() == old(self).bus_view(),
            },
            final(self).wf(),
    {
        let mut attempts: u32 = 0;
        loop
            invariant
                attempts < MAX_CONNECT_ATTEMPTS,
                self@ == old(self)@,
                self.bus_view() == old(self).bus_view(),
                self.wf(),
            decreases MAX_CONNECT_ATTEMPTS - attempts,
        {
            let attempt = self.connect_once(default_cluster, request, fresh.clone(), template, now);
            attempts = attempts + 1;
            match attempt {
                Ok(response) => {
                    return Ok(response);
                },
                Err(e) => {
                    if !should_retry(e, attempts) {
                        return Err(e);
                    }
                },
            }
        }
    }

    /// One attempt to connect a client.
    pub fn connect_once(
        &mut self,
        default_cluster: Option<&ClusterName>,
        request: &ConnectRequest,
        fresh: FreshNames,
        template: &Vec<UrlPart>,
        now: Timestamp,
    ) -> (r: Result<ConnectResponse, ConnectError>)
        requires
            old(self).wf(),
        ensures
            match connect_spec(
                old(self)@,
                opt_view(default_cluster),
                request@,
                fresh@,
                views(template@),
                now,
            ) {
                Ok(outcome) => r.is_ok() && r.unwrap()@ == outcome.response && final(self)@
                    == outcome.store && final(self).bus_view() == bus_after_connect(
                    old(self).bus_view(),
                    outcome,
                    now,
                ),
                Err(e) => r == Err::<ConnectResponse, ConnectError>(e) && final(self)@ == old(self)@
                    && final(self).bus_view() == old(self).bus_view(),
            },
            final(self).wf(),
    {
        let cluster = match cluster_of(default_cluster, request) {
            None => {
                return Err(ConnectError::NoCluster);
            },
            Some(cluster) => cluster,
        };
        let place = match &request.key {
            None => None,
            Some(key) => self.find_key(cluster, key),
        };
        let binding = match place {
            None => None,
            Some(k) => {
                let holder = self.keys[k].backend.clone();
                let status = match self.find_backend(&holder) {
                    None => None,
                    Some(b) => Some(self.backends[b].last_status),
                };
                Some(KeyBinding { backend: holder, status })
            },
        };
        let standings = self.standings();
        proof {
            lemma_connect_follows_plan(
                self@,
                opt_view(default_cluster),
                request@,
                fresh@,
                views(template@),
                now,
            );
            lemma_no_stale_binding(self@, cluster@, request@.key);
        }
        let plan = match plan_connect(
            default_cluster,
            request,
            &binding,
            &standings,
            fresh,
            template,
            now,
        ) {
            Err(e) => {
                return Err(e);
            },
            Ok(plan) => plan,
        };
        let ConnectPlan { clear_binding, backend, token, action, response } = plan;
        match backend {
            None => match self.issue_token(token) {
                Err(_) => Err(ConnectError::DbError),
                Ok(()) => Ok(response),
            },
            Some(backend) => {
                if self.find_backend(&backend.id).is_some() || self.find_token(&token.token).is_some() {
                    return Err(ConnectError::DbError);
                }
                proof {
                    if request@.key.is_some() {
                        lemma_unheld_key_is_free(self@, cluster@, request@.key.unwrap());
                    }
                    lemma_find_push(
                        self@.backends,
                        by_backend_id(backend.id@),
                        scheduled_backend(backend@, now),
                    );
                }
                if clear_binding {
                    match place {
                        Some(k) => {
                            // The binding has no live holder: clear it away.
                            self.keys.remove(k);
                        },
                        None => {},
                    }
                }
                let created = BackendDatabase::new(&mut *self).create_backend(backend, now);
                assert(created.is_ok());
                let issued = self.issue_token(token);
                assert(issued.is_ok());
                match action {
                    Some(message) => {
                        self.send_action(message, now);
                    },
                    None => {},
                }
                Ok(response)
            },
        }
    }
}

} // verus!
