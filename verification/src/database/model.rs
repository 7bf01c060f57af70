//! The mathematical model of the store: what its tables hold, when their
//! content is consistent, and what each operation makes of it.
//!
//! Every executable operation of the store is specified as one function of
//! this module, from the content before the operation to the content after it
//! or to the error with which it fails. An operation that fails changes nothing.

use vstd::prelude::*;
use crate::database::subscribe::{KeyTopic, NotificationView, PayloadView};
use crate::names::{NodeId, NodeKind};
use crate::protocol::RouteInfoView;
use crate::status::{BackendStatus, Timestamp, TimestampedBackendStatus};
use crate::types::BackendAddr;

verus! {

/// One backend, as the store holds it.
pub struct BackendView {
    pub id: Seq<char>,
    pub cluster: Seq<char>,
    pub drone_id: NodeId,
    pub last_status: BackendStatus,
    pub last_status_time: Timestamp,
    pub last_keepalive: Timestamp,
    pub expiration_time: Option<Timestamp>,
    pub allowed_idle_seconds: Option<i32>,
    pub cluster_address: Option<BackendAddr>,
    pub exit_code: Option<i32>,
}

/// One row of the status log. Rows are numbered by their place in the log.
pub struct StatusLogView {
    pub backend: Seq<char>,
    pub status: BackendStatus,
    pub created_at: Timestamp,
}

/// A key, as a client names it.
pub struct KeyView {
    pub name: Seq<char>,
    pub namespace: Seq<char>,
    pub tag: Seq<char>,
}

/// The binding of a key, within a cluster, to the backend that holds it.
pub struct KeyRowView {
    pub cluster: Seq<char>,
    pub key: KeyView,
    pub backend: Seq<char>,
}

/// A bearer token and what it gives access to.
pub struct TokenView {
    pub token: Seq<char>,
    pub backend: Seq<char>,
    pub username: Option<Seq<char>>,
    pub auth: Seq<char>,
    pub secret_token: Seq<char>,
}

/// One node, as the store holds it.
pub struct NodeView {
    pub id: NodeId,
    pub name: Seq<char>,
    pub kind: NodeKind,
    pub cluster: Option<Seq<char>>,
    pub controller: Seq<char>,
    pub plane_version: Seq<char>,
    pub ip: Seq<char>,
    pub last_heartbeat: Timestamp,
    pub offline_at: Option<Timestamp>,
    pub capacity: Option<u32>,
}

/// The content of the store.
pub struct StoreView {
    pub backends: Seq<BackendView>,
    pub log: Seq<StatusLogView>,
    pub keys: Seq<KeyRowView>,
    pub tokens: Seq<TokenView>,
    pub nodes: Seq<NodeView>,
    /// The identifier that the next new node gets.
    pub next_node_id: int,
}

/// Why an operation of the store failed.
#[derive(Clone, Copy, Debug, PartialEq, Eq, Structural)]
pub enum StoreError {
    /// The backend or node that the operation names is not in the store.
    NotFound,
    /// The status would take the backend back to an earlier status.
    InvalidTransition,
    /// The key is bound to another backend.
    Conflict,
    /// The name that a node presents shows no kind of node.
    InvalidHandshake,
    /// The store refused the write or holds what cannot be read.
    DbError,
}

impl StoreError {
    /// The name of the error.
    pub open spec fn text(self) -> Seq<char> {
        match self {
            StoreError::NotFound => "not-found"@,
            StoreError::InvalidTransition => "invalid-transition"@,
            StoreError::Conflict => "conflict"@,
            StoreError::InvalidHandshake => "invalid-handshake"@,
            StoreError::DbError => "db-error"@,
        }
    }

    /// The HTTP status with which the error is reported to a client, for
    /// the errors that a client can cause.
    pub open spec fn spec_http_status(self) -> Option<u16> {
        match self {
            StoreError::NotFound => Some(404u16),
            StoreError::InvalidTransition => Some(409u16),
            StoreError::Conflict => Some(409u16),
            StoreError::InvalidHandshake => None,
            StoreError::DbError => Some(500u16),
        }
    }

    #[verifier::when_used_as_spec(spec_http_status)]
    pub fn http_status(self) -> (code: Option<u16>)
        ensures
            code == self.spec_http_status(),
    {
        match self {
            StoreError::NotFound => Some(404),
            StoreError::InvalidTransition => Some(409),
            StoreError::Conflict => Some(409),
            StoreError::InvalidHandshake => None,
            StoreError::DbError => Some(500),
        }
    }

    pub fn to_string(self) -> (s: String)
        ensures
            s@ == self.text(),
    {
        match self {
            StoreError::NotFound => "not-found".to_owned(),
            StoreError::InvalidTransition => "invalid-transition".to_owned(),
            StoreError::Conflict => "conflict".to_owned(),
            StoreError::InvalidHandshake => "invalid-handshake".to_owned(),
            StoreError::DbError => "db-error".to_owned(),
        }
    }
}

/// The first place at or after `from` at which `s` holds an element that meets `p`.
pub open spec fn first_match<T>(s: Seq<T>, p: spec_fn(T) -> bool, from: int) -> Option<int>
    decreases s.len() - from,
{
    if from < 0 || from >= s.len() {
        None
    } else if p(s[from]) {
        Some(from)
    } else {
        first_match(s, p, from + 1)
    }
}

/// The first place at which `s` holds an element that meets `p`.
pub open spec fn find<T>(s: Seq<T>, p: spec_fn(T) -> bool) -> Option<int> {
    first_match(s, p, 0)
}

/// What `first_match` finds is the first match, and it finds one if there is any.
pub proof fn lemma_first_match<T>(s: Seq<T>, p: spec_fn(T) -> bool, from: int)
    requires
        0 <= from <= s.len(),
    ensures
        match first_match(s, p, from) {
            Some(i) => from <= i < s.len() && p(s[i]) && forall|j: int| from <= j < i ==> !p(s[j]),
            None => forall|j: int| from <= j < s.len() ==> !p(s[j]),
        },
    decreases s.len() - from,
{
    if from < s.len() && !p(s[from]) {
        lemma_first_match(s, p, from + 1);
    }
}

pub open spec fn by_backend_id(id: Seq<char>) -> spec_fn(BackendView) -> bool {
    |b: BackendView| b.id == id
}

pub open spec fn by_key(cluster: Seq<char>, key: KeyView) -> spec_fn(KeyRowView) -> bool {
    |k: KeyRowView| k.cluster == cluster && k.key == key
}

pub open spec fn by_key_holder(backend: Seq<char>) -> spec_fn(KeyRowView) -> bool {
    |k: KeyRowView| k.backend == backend
}

pub open spec fn by_token(token: Seq<char>) -> spec_fn(TokenView) -> bool {
    |t: TokenView| t.token == token
}

pub open spec fn by_node_name(name: Seq<char>) -> spec_fn(NodeView) -> bool {
    |n: NodeView| n.name == name
}

pub open spec fn by_node_id(id: NodeId) -> spec_fn(NodeView) -> bool {
    |n: NodeView| n.id == id
}

/// The status of the last log row of `backend`, if the log has a row of it.
pub open spec fn last_logged(log: Seq<StatusLogView>, backend: Seq<char>) -> Option<BackendStatus>
    decreases log.len(),
{
    if log.len() == 0 {
        None
    } else if log.last().backend == backend {
        Some(log.last().status)
    } else {
        last_logged(log.drop_last(), backend)
    }
}

impl StoreView {
    /// The store with nothing in it.
    pub open spec fn empty() -> StoreView {
        StoreView {
            backends: Seq::empty(),
            log: Seq::empty(),
            keys: Seq::empty(),
            tokens: Seq::empty(),
            nodes: Seq::empty(),
            next_node_id: 1,
        }
    }

    /// No two backends share a name.
    pub open spec fn backends_unique(self) -> bool {
        forall|i: int, j: int|
            0 <= i < self.backends.len() && 0 <= j < self.backends.len() && i != j
                ==> self.backends[i].id != self.backends[j].id
    }

    /// Within a cluster a key is bound at most once, and a backend holds at most one key.
    pub open spec fn keys_unique(self) -> bool {
        forall|i: int, j: int|
            0 <= i < self.keys.len() && 0 <= j < self.keys.len() && i != j ==> {
                &&& !(self.keys[i].cluster == self.keys[j].cluster && self.keys[i].key
                    == self.keys[j].key)
                &&& self.keys[i].backend != self.keys[j].backend
            }
    }

    /// A key is bound only to a backend of the store, in the key's cluster,
    /// that has not terminated.
    pub open spec fn keys_live(self) -> bool {
        forall|k: int|
            0 <= k < self.keys.len() ==> match find(
                self.backends,
                by_backend_id(#[trigger] self.keys[k].backend),
            ) {
                Some(b) => self.backends[b].last_status != BackendStatus::Terminated
                    && self.backends[b].cluster == self.keys[k].cluster,
                None => false,
            }
    }

    /// No two rows share a token, and every token belongs to a backend of the store.
    pub open spec fn tokens_sound(self) -> bool {
        &&& forall|i: int, j: int|
            0 <= i < self.tokens.len() && 0 <= j < self.tokens.len() && i != j
                ==> self.tokens[i].token != self.tokens[j].token
        &&& forall|t: int|
            0 <= t < self.tokens.len() ==> find(
                self.backends,
                by_backend_id(#[trigger] self.tokens[t].backend),
            ).is_some()
    }

    /// The status of a backend is the status of its last log row.
    pub open spec fn log_current(self) -> bool {
        forall|b: int|
            0 <= b < self.backends.len() ==> last_logged(self.log, #[trigger] self.backends[b].id)
                == Some(self.backends[b].last_status)
    }

    /// Along the log the statuses of one backend never go back.
    pub open spec fn log_monotone(self) -> bool {
        forall|i: int, j: int|
            0 <= i <= j < self.log.len() && self.log[i].backend == self.log[j].backend
                ==> self.log[i].status.spec_le(self.log[j].status)
    }

    /// Every log row belongs to a backend of the store.
    pub open spec fn log_owned(self) -> bool {
        forall|i: int|
            0 <= i < self.log.len() ==> find(
                self.backends,
                by_backend_id(#[trigger] self.log[i].backend),
            ).is_some()
    }

    /// No two nodes share a name or an identifier, and every identifier in
    /// use lies below the next one to be handed out.
    pub open spec fn nodes_sound(self) -> bool {
        &&& 1 <= self.next_node_id <= i32::MAX + 1
        &&& forall|i: int|
            0 <= i < self.nodes.len() ==> 1 <= (#[trigger] self.nodes[i]).id.0
                < self.next_node_id
        &&& forall|i: int, j: int|
            0 <= i < self.nodes.len() && 0 <= j < self.nodes.len() && i != j ==> {
                &&& self.nodes[i].id != self.nodes[j].id
                &&& self.nodes[i].name != self.nodes[j].name
            }
    }

    /// The content of the store is consistent.
    pub open spec fn wf(self) -> bool {
        &&& self.backends_unique()
        &&& self.keys_unique()
        &&& self.keys_live()
        &&& self.tokens_sound()
        &&& self.log_current()
        &&& self.log_monotone()
        &&& self.log_owned()
        &&& self.nodes_sound()
    }

    /// The backend that holds `key` in `cluster`, if the key is bound.
    pub open spec fn key_holder(self, cluster: Seq<char>, key: KeyView) -> Option<Seq<char>> {
        match find(self.keys, by_key(cluster, key)) {
            Some(k) => Some(self.keys[k].backend),
            None => None,
        }
    }

    /// The backend named `id`, if the store has it.
    pub open spec fn backend(self, id: Seq<char>) -> Option<BackendView> {
        match find(self.backends, by_backend_id(id)) {
            Some(b) => Some(self.backends[b]),
            None => None,
        }
    }
}

/// What is needed to add a backend to the store.
pub struct NewBackendView {
    pub id: Seq<char>,
    pub cluster: Seq<char>,
    pub drone_id: NodeId,
    pub expiration_time: Option<Timestamp>,
    pub allowed_idle_seconds: Option<i32>,
    /// The key under which the backend is to be found again, if any.
    pub key: Option<KeyView>,
}

/// The row of a backend that has just been added.
pub open spec fn scheduled_backend(nb: NewBackendView, now: Timestamp) -> BackendView {
    BackendView {
        id: nb.id,
        cluster: nb.cluster,
        drone_id: nb.drone_id,
        last_status: BackendStatus::Scheduled,
        last_status_time: now,
        last_keepalive: now,
        expiration_time: nb.expiration_time,
        allowed_idle_seconds: nb.allowed_idle_seconds,
        cluster_address: None,
        exit_code: None,
    }
}

/// Adding a backend: its row in status `Scheduled`, the first row of its
/// status log, and the binding of its key if it has one. Fails with `DbError`
/// where the name is taken and with `Conflict` where the key is bound.
pub open spec fn create_backend_spec(s: StoreView, nb: NewBackendView, now: Timestamp) -> Result<
    StoreView,
    StoreError,
> {
    if find(s.backends, by_backend_id(nb.id)).is_some() {
        Err(StoreError::DbError)
    } else if nb.key.is_some() && find(s.keys, by_key(nb.cluster, nb.key.unwrap())).is_some() {
        Err(StoreError::Conflict)
    } else {
        Ok(
            StoreView {
                backends: s.backends.push(scheduled_backend(nb, now)),
                log: s.log.push(
                    StatusLogView {
                        backend: nb.id,
                        status: BackendStatus::Scheduled,
                        created_at: now,
                    },
                ),
                keys: match nb.key {
                    Some(key) => s.keys.push(
                        KeyRowView { cluster: nb.cluster, key, backend: nb.id },
                    ),
                    None => s.keys,
                },
                ..s
            },
        )
    }
}

/// The keys without the one that `backend` holds.
pub open spec fn keys_released(keys: Seq<KeyRowView>, backend: Seq<char>) -> Seq<KeyRowView> {
    match find(keys, by_key_holder(backend)) {
        Some(k) => keys.remove(k),
        None => keys,
    }
}

/// Recording a status: the backend takes the status, the time, the address
/// and the exit code; the log gets a row; a backend that terminates gives up
/// its key. Fails with `NotFound` where the store has no such backend and with
/// `InvalidTransition` where the status is earlier than the current one.
pub open spec fn update_status_spec(
    s: StoreView,
    backend: Seq<char>,
    status: BackendStatus,
    address: Option<BackendAddr>,
    exit_code: Option<i32>,
    now: Timestamp,
) -> Result<StoreView, StoreError> {
    match find(s.backends, by_backend_id(backend)) {
        None => Err(StoreError::NotFound),
        Some(b) => if status.spec_lt(s.backends[b].last_status) {
            Err(StoreError::InvalidTransition)
        } else {
            Ok(
                StoreView {
                    backends: s.backends.update(
                        b,
                        BackendView {
                            last_status: status,
                            last_status_time: now,
                            cluster_address: address,
                            exit_code,
                            ..s.backends[b]
                        },
                    ),
                    log: s.log.push(StatusLogView { backend, status, created_at: now }),
                    keys: if status == BackendStatus::Terminated {
                        keys_released(s.keys, backend)
                    } else {
                        s.keys
                    },
                    ..s
                },
            )
        },
    }
}

/// Recording a sign of life. Fails with `NotFound` where the store has no such backend.
pub open spec fn update_keepalive_spec(s: StoreView, backend: Seq<char>, now: Timestamp) -> Result<
    StoreView,
    StoreError,
> {
    match find(s.backends, by_backend_id(backend)) {
        None => Err(StoreError::NotFound),
        Some(b) => Ok(
            StoreView {
                backends: s.backends.update(b, BackendView { last_keepalive: now, ..s.backends[b] }),
                ..s
            },
        ),
    }
}

/// Issuing a token. Fails with `DbError` where the token is in use or the
/// store has no such backend.
pub open spec fn issue_token_spec(s: StoreView, token: TokenView) -> Result<StoreView, StoreError> {
    if find(s.tokens, by_token(token.token)).is_some() || find(
        s.backends,
        by_backend_id(token.backend),
    ).is_none() {
        Err(StoreError::DbError)
    } else {
        Ok(StoreView { tokens: s.tokens.push(token), ..s })
    }
}

/// What a query for a backend answers: the backend's row and the time of the query.
pub struct BackendRowView {
    pub id: Seq<char>,
    pub cluster: Seq<char>,
    pub last_status: BackendStatus,
    pub last_status_time: Timestamp,
    pub last_keepalive: Timestamp,
    pub drone_id: NodeId,
    pub expiration_time: Option<Timestamp>,
    pub allowed_idle_seconds: Option<i32>,
    pub as_of: Timestamp,
}

/// What a query at time `now` answers for the backend `b`.
pub open spec fn row_of(b: BackendView, now: Timestamp) -> BackendRowView {
    BackendRowView {
        id: b.id,
        cluster: b.cluster,
        last_status: b.last_status,
        last_status_time: b.last_status_time,
        last_keepalive: b.last_keepalive,
        drone_id: b.drone_id,
        expiration_time: b.expiration_time,
        allowed_idle_seconds: b.allowed_idle_seconds,
        as_of: now,
    }
}

/// What a query at time `now` answers for each backend of `backends`, in order.
pub open spec fn rows_of(backends: Seq<BackendView>, now: Timestamp) -> Seq<BackendRowView> {
    Seq::new(backends.len(), |i: int| row_of(backends[i], now))
}

/// A backend that is due to be terminated, with the time at which this was found.
pub struct CandidateView {
    pub backend_id: Seq<char>,
    pub expiration_time: Option<Timestamp>,
    pub last_keepalive: Timestamp,
    pub allowed_idle_seconds: Option<i32>,
    pub as_of: Timestamp,
}

/// The backend has given no sign of life for longer than it is allowed to.
pub open spec fn is_idle(b: BackendView, now: Timestamp) -> bool {
    match b.allowed_idle_seconds {
        Some(seconds) => now.micros - b.last_keepalive.micros > seconds * 1_000_000,
        None => false,
    }
}

/// The backend has outlived the time it was given.
pub open spec fn is_expired(b: BackendView, now: Timestamp) -> bool {
    match b.expiration_time {
        Some(deadline) => now.micros > deadline.micros,
        None => false,
    }
}

/// The backend runs on `drone`, has not terminated, and is idle or expired.
pub open spec fn is_due(b: BackendView, drone: NodeId, now: Timestamp) -> bool {
    b.drone_id == drone && b.last_status != BackendStatus::Terminated && (is_idle(b, now)
        || is_expired(b, now))
}

/// The backends of `backends` that are due on `drone` at time `now`, in order.
pub open spec fn candidates_of(backends: Seq<BackendView>, drone: NodeId, now: Timestamp) -> Seq<
    CandidateView,
>
    decreases backends.len(),
{
    if backends.len() == 0 {
        Seq::empty()
    } else {
        let before = candidates_of(backends.drop_last(), drone, now);
        let b = backends.last();
        if is_due(b, drone, now) {
            before.push(
                CandidateView {
                    backend_id: b.id,
                    expiration_time: b.expiration_time,
                    last_keepalive: b.last_keepalive,
                    allowed_idle_seconds: b.allowed_idle_seconds,
                    as_of: now,
                },
            )
        } else {
            before
        }
    }
}

/// The rows of the status log of `backend`, in order.
pub open spec fn log_of(log: Seq<StatusLogView>, backend: Seq<char>) -> Seq<
    TimestampedBackendStatus,
>
    decreases log.len(),
{
    if log.len() == 0 {
        Seq::empty()
    } else {
        let before = log_of(log.drop_last(), backend);
        if log.last().backend == backend {
            before.push(
                TimestampedBackendStatus { status: log.last().status, time: log.last().created_at },
            )
        } else {
            before
        }
    }
}

/// Where a token leads: to the backend it was issued for, once that backend has an address.
pub open spec fn route_of(s: StoreView, token: Seq<char>) -> Option<RouteInfoView> {
    match find(s.tokens, by_token(token)) {
        None => None,
        Some(t) => match find(s.backends, by_backend_id(s.tokens[t].backend)) {
            None => None,
            Some(b) => match s.backends[b].cluster_address {
                None => None,
                Some(address) => Some(
                    RouteInfoView {
                        backend_id: s.tokens[t].backend,
                        address,
                        secret_token: s.tokens[t].secret_token,
                        user: s.tokens[t].username,
                        user_data: Some(s.tokens[t].auth),
                    },
                ),
            },
        },
    }
}

/// The notification that announces a status of a backend.
pub open spec fn status_note(backend: Seq<char>, status: BackendStatus, now: Timestamp) -> NotificationView {
    NotificationView {
        key: KeyTopic::Backend(backend),
        payload: PayloadView::State(status),
        timestamp: now,
    }
}

} // verus!
