//! The state store of the control plane: backends, their status log, the keys
//! they hold, the tokens issued for them and the nodes they run on, together
//! with the bus on which changes are announced.

use vstd::prelude::*;
use crate::database::model::{
    by_backend_id, by_key, by_key_holder, by_node_id, by_node_name, by_token, find, first_match,
    BackendView, KeyRowView, NodeView, StatusLogView, StoreView, TokenView,
};
use crate::database::subscribe::{
    bus_closed, bus_taken, BusView, EventBus, NotificationKey, NotificationKind, Received, SubscriptionHandle,
    SubscriptionView,
};
use crate::names::{
    AnyNodeName, BackendName, BearerToken, ClusterName, ControllerName, NodeId, SecretToken,
};
use crate::status::{BackendStatus, Timestamp};
use crate::types::{opt_text, opt_view, BackendAddr, KeyConfig};

pub mod backend;
pub mod connect;
pub mod invariants;
pub mod model;
pub mod node;
pub mod rows;
pub mod subscribe;

verus! {

/// The row of one backend.
pub struct BackendRecord {
    pub id: BackendName,
    pub cluster: ClusterName,
    pub drone_id: NodeId,
    pub last_status: BackendStatus,
    pub last_status_time: Timestamp,
    pub last_keepalive: Timestamp,
    pub expiration_time: Option<Timestamp>,
    pub allowed_idle_seconds: Option<i32>,
    pub cluster_address: Option<BackendAddr>,
    pub exit_code: Option<i32>,
}

impl View for BackendRecord {
    type V = BackendView;

    open spec fn view(&self) -> BackendView {
        BackendView {
            id: self.id@,
            cluster: self.cluster@,
            drone_id: self.drone_id,
            last_status: self.last_status,
            last_status_time: self.last_status_time,
            last_keepalive: self.last_keepalive,
            expiration_time: self.expiration_time,
            allowed_idle_seconds: self.allowed_idle_seconds,
            cluster_address: self.cluster_address,
            exit_code: self.exit_code,
        }
    }
}

/// One row of the status log.
pub struct StatusLogRecord {
    pub backend: BackendName,
    pub status: BackendStatus,
    pub created_at: Timestamp,
}

impl View for StatusLogRecord {
    type V = StatusLogView;

    open spec fn view(&self) -> StatusLogView {
        StatusLogView { backend: self.backend@, status: self.status, created_at: self.created_at }
    }
}

/// The binding of a key to the backend that holds it.
pub struct KeyRecord {
    pub cluster: ClusterName,
    pub key: KeyConfig,
    pub backend: BackendName,
}

impl View for KeyRecord {
    type V = KeyRowView;

    open spec fn view(&self) -> KeyRowView {
        KeyRowView { cluster: self.cluster@, key: self.key@, backend: self.backend@ }
    }
}

/// The row of one token.
pub struct TokenRecord {
    pub token: BearerToken,
    pub backend: BackendName,
    pub username: Option<String>,
    pub auth: String,
    pub secret_token: SecretToken,
}

impl View for TokenRecord {
    type V = TokenView;

    open spec fn view(&self) -> TokenView {
        TokenView {
            token: self.token@,
            backend: self.backend@,
            username: opt_text(self.username),
            auth: self.auth@,
            secret_token: self.secret_token@,
        }
    }
}

/// The row of one node.
pub struct NodeRecord {
    pub id: NodeId,
    pub name: AnyNodeName,
    pub cluster: Option<ClusterName>,
    pub controller: ControllerName,
    pub plane_version: String,
    pub ip: String,
    pub last_heartbeat: Timestamp,
    pub offline_at: Option<Timestamp>,
    pub capacity: Option<u32>,
}

impl View for NodeRecord {
    type V = NodeView;

    open spec fn view(&self) -> NodeView {
        NodeView {
            id: self.id,
            name: self.name@,
            kind: self.name.kind,
            cluster: opt_view(self.cluster),
            controller: self.controller@,
            plane_version: self.plane_version@,
            ip: self.ip@,
            last_heartbeat: self.last_heartbeat,
            offline_at: self.offline_at,
            capacity: self.capacity,
        }
    }
}

/// The views of the elements of `v`, in order.
pub open spec fn views<T: View>(v: Seq<T>) -> Seq<T::V> {
    Seq::new(v.len(), |i: int| v[i]@)
}

/// Appending, replacing and removing an element do to the views what they do
/// to the elements.
pub proof fn lemma_views<T: View>(v: Seq<T>, x: T, i: int)
    ensures
        views(v.push(x)) == views(v).push(x@),
        0 <= i < v.len() ==> views(v.update(i, x)) == views(v).update(i, x@),
        0 <= i < v.len() ==> views(v.remove(i)) == views(v).remove(i),
{
    assert(views(v.push(x)) =~= views(v).push(x@));
    if 0 <= i < v.len() {
        assert(views(v.update(i, x)) =~= views(v).update(i, x@));
        assert(views(v.remove(i)) =~= views(v).remove(i));
    }
}

/// How many notifications a subscriber's queue holds unless the store is told otherwise.
pub const DEFAULT_QUEUE_CAPACITY: usize = 1024;

/// The store.
pub struct PlaneDatabase {
    pub(crate) backends: Vec<BackendRecord>,
    pub(crate) log: Vec<StatusLogRecord>,
    pub(crate) keys: Vec<KeyRecord>,
    pub(crate) tokens: Vec<TokenRecord>,
    pub(crate) nodes: Vec<NodeRecord>,
    pub(crate) next_node_id: i64,
    pub(crate) bus: EventBus,
}

impl PlaneDatabase {
    /// What the tables of the store hold.
    pub open(crate) spec fn view(&self) -> StoreView {
        StoreView {
            backends: views(self.backends@),
            log: views(self.log@),
            keys: views(self.keys@),
            tokens: views(self.tokens@),
            nodes: views(self.nodes@),
            next_node_id: self.next_node_id as int,
        }
    }

    /// What the bus of the store holds.
    pub open(crate) spec fn bus_view(&self) -> BusView {
        self.bus@
    }

    /// The content of the store is consistent.
    pub open spec fn wf(&self) -> bool {
        self@.wf()
    }

    /// An empty store whose subscribers can each have `DEFAULT_QUEUE_CAPACITY`
    /// notifications queued.
    pub fn new() -> (db: PlaneDatabase)
        ensures
            db@ == StoreView::empty(),
            db.bus_view().subscriptions.len() == 0,
            db.bus_view().capacity == DEFAULT_QUEUE_CAPACITY,
            db.wf(),
    {
        PlaneDatabase::with_queue_capacity(DEFAULT_QUEUE_CAPACITY)
    }

    /// An empty store whose subscribers can each have `capacity` notifications queued.
    pub fn with_queue_capacity(capacity: usize) -> (db: PlaneDatabase)
        ensures
            db@ == StoreView::empty(),
            db.bus_view().subscriptions.len() == 0,
            db.bus_view().capacity == capacity,
            db.wf(),
    {
        let db = PlaneDatabase {
            backends: Vec::new(),
            log: Vec::new(),
            keys: Vec::new(),
            tokens: Vec::new(),
            nodes: Vec::new(),
            next_node_id: 1,
            bus: EventBus::new(capacity),
        };
        proof {
            assert(db@.backends =~= Seq::<BackendView>::empty());
            assert(db@.log =~= Seq::<StatusLogView>::empty());
            assert(db@.keys =~= Seq::<KeyRowView>::empty());
            assert(db@.tokens =~= Seq::<TokenView>::empty());
            assert(db@.nodes =~= Seq::<NodeView>::empty());
        }
        db
    }

    /// Opens a subscription to the notifications of `kind` under `key` that
    /// are published from now on.
    pub fn subscribe(&mut self, kind: NotificationKind, key: NotificationKey) -> (handle:
        SubscriptionHandle)
        ensures
            final(self)@ == old(self)@,
            handle.index == old(self).bus_view().subscriptions.len(),
            final(self).bus_view() == (BusView {
                subscriptions: old(self).bus_view().subscriptions.push(
                    SubscriptionView {
                        kind,
                        key: key@,
                        queue: Seq::empty(),
                        lagged: false,
                        closed: false,
                    },
                ),
                ..old(self).bus_view()
            }),
    {
        self.bus.subscribe(kind, key)
    }

    /// Takes the next notification of a subscription.
    pub fn next_notification(&mut self, handle: SubscriptionHandle) -> (r: Received)
        ensures
            final(self)@ == old(self)@,
            r@ == bus_taken(old(self).bus_view(), handle).1,
            final(self).bus_view() == bus_taken(old(self).bus_view(), handle).0,
    {
        self.bus.next(handle)
    }

    /// Closes a subscription. What was queued for it is dropped.
    pub fn unsubscribe(&mut self, handle: SubscriptionHandle)
        ensures
            final(self)@ == old(self)@,
            final(self).bus_view() == bus_closed(old(self).bus_view(), handle),
    {
        self.bus.close(handle)
    }

    /// The place of the backend named `id`.
    pub(crate) fn find_backend(&self, id: &BackendName) -> (r: Option<usize>)
        ensures
            match r {
                Some(i) => find(self@.backends, by_backend_id(id@)) == Some(i as int) && i
                    < self.backends@.len(),
                None => find(self@.backends, by_backend_id(id@)).is_none(),
            },
    {
        let mut i: usize = 0;
        while i < self.backends.len()
            invariant
                i <= self.backends@.len(),
                find(self@.backends, by_backend_id(id@)) == first_match(
                    self@.backends,
                    by_backend_id(id@),
                    i as int,
                ),
            decreases self.backends@.len() - i,
        {
            if self.backends[i].id.same_as(id) {
                return Some(i);
            }
            i += 1;
        }
        None
    }

    /// The place of the binding of `key` in `cluster`.
    pub(crate) fn find_key(&self, cluster: &ClusterName, key: &KeyConfig) -> (r: Option<usize>)
        ensures
            match r {
                Some(i) => find(self@.keys, by_key(cluster@, key@)) == Some(i as int) && i
                    < self.keys@.len(),
                None => find(self@.keys, by_key(cluster@, key@)).is_none(),
            },
    {
        let mut i: usize = 0;
        while i < self.keys.len()
            invariant
                i <= self.keys@.len(),
                find(self@.keys, by_key(cluster@, key@)) == first_match(
                    self@.keys,
                    by_key(cluster@, key@),
                    i as int,
                ),
            decreases self.keys@.len() - i,
        {
            if self.keys[i].cluster.same_as(cluster) && self.keys[i].key.same_as(key) {
                return Some(i);
            }
            i += 1;
        }
        None
    }

    /// The place of the binding of the key that `backend` holds.
    pub(crate) fn find_key_of(&self, backend: &BackendName) -> (r: Option<usize>)
        ensures
            match r {
                Some(i) => find(self@.keys, by_key_holder(backend@)) == Some(i as int) && i
                    < self.keys@.len(),
                None => find(self@.keys, by_key_holder(backend@)).is_none(),
            },
    {
        let mut i: usize = 0;
        while i < self.keys.len()
            invariant
                i <= self.keys@.len(),
                find(self@.keys, by_key_holder(backend@)) == first_match(
                    self@.keys,
                    by_key_holder(backend@),
                    i as int,
                ),
            decreases self.keys@.len() - i,
        {
            if self.keys[i].backend.same_as(backend) {
                return Some(i);
            }
            i += 1;
        }
        None
    }

    /// The place of the row of `token`.
    pub(crate) fn find_token(&self, token: &BearerToken) -> (r: Option<usize>)
        ensures
            match r {
                Some(i) => find(self@.tokens, by_token(token@)) == Some(i as int) && i
                    < self.tokens@.len(),
                None => find(self@.tokens, by_token(token@)).is_none(),
            },
    {
        let mut i: usize = 0;
        while i < self.tokens.len()
            invariant
                i <= self.tokens@.len(),
                find(self@.tokens, by_token(token@)) == first_match(
                    self@.tokens,
                    by_token(token@),
                    i as int,
                ),
            decreases self.tokens@.len() - i,
        {
            if self.tokens[i].token.same_as(token) {
                return Some(i);
            }
            i += 1;
        }
        None
    }

    /// The place of the node named `name`.
    pub(crate) fn find_node_named(&self, name: &AnyNodeName) -> (r: Option<usize>)
        ensures
            match r {
                Some(i) => find(self@.nodes, by_node_name(name@)) == Some(i as int) && i
                    < self.nodes@.len(),
                None => find(self@.nodes, by_node_name(name@)).is_none(),
            },
    {
        let mut i: usize = 0;
        while i < self.nodes.len()
            invariant
                i <= self.nodes@.len(),
                find(self@.nodes, by_node_name(name@)) == first_match(
                    self@.nodes,
                    by_node_name(name@),
                    i as int,
                ),
            decreases self.nodes@.len() - i,
        {
            if self.nodes[i].name.text == name.text {
                return Some(i);
            }
            i += 1;
        }
        None
    }

    /// The place of the node with identifier `id`.
    pub(crate) fn find_node(&self, id: NodeId) -> (r: Option<usize>)
        ensures
            match r {
                Some(i) => find(self@.nodes, by_node_id(id)) == Some(i as int) && i
                    < self.nodes@.len(),
                None => find(self@.nodes, by_node_id(id)).is_none(),
            },
    {
        let mut i: usize = 0;
        while i < self.nodes.len()
            invariant
                i <= self.nodes@.len(),
                find(self@.nodes, by_node_id(id)) == first_match(self@.nodes, by_node_id(id), i as int),
            decreases self.nodes@.len() - i,
        {
            if self.nodes[i].id == id {
                return Some(i);
            }
            i += 1;
        }
        None
    }
}

} // verus!
