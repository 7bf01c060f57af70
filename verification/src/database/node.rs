//! The node registry: which drones and proxies are known, and which are online.

use vstd::prelude::*;
use crate::database::model::{
    by_node_id, by_node_name, find, lemma_first_match, NodeView, StoreError, StoreView,
};
use crate::database::{lemma_views, NodeRecord, PlaneDatabase};
use crate::names::{AnyNodeName, ClusterName, ControllerName, NodeId, NodeKind};
use crate::status::Timestamp;
use crate::types::opt_view;

verus! {

/// What a node presents when it registers.
pub struct Registration {
    pub name: AnyNodeName,
    pub cluster: Option<ClusterName>,
    pub controller: ControllerName,
    pub plane_version: String,
    pub ip: String,
}

/// The model of a `Registration`.
pub struct RegistrationView {
    pub name: Seq<char>,
    pub kind: NodeKind,
    pub cluster: Option<Seq<char>>,
    pub controller: Seq<char>,
    pub plane_version: Seq<char>,
    pub ip: Seq<char>,
}

impl View for Registration {
    type V = RegistrationView;

    open spec fn view(&self) -> RegistrationView {
        RegistrationView {
            name: self.name@,
            kind: self.name.kind,
            cluster: opt_view(self.cluster),
            controller: self.controller@,
            plane_version: self.plane_version@,
            ip: self.ip@,
        }
    }
}

/// The row of a node that has just registered under the identifier `id`,
/// with the capacity it had reported before, if it was known.
pub open spec fn registered_node(
    id: NodeId,
    r: RegistrationView,
    capacity: Option<u32>,
    now: Timestamp,
) -> NodeView {
    NodeView {
        id,
        name: r.name,
        kind: r.kind,
        cluster: r.cluster,
        controller: r.controller,
        plane_version: r.plane_version,
        ip: r.ip,
        last_heartbeat: now,
        offline_at: None,
        capacity,
    }
}

/// Registering a node. A node whose name is known keeps its identifier and
/// has its row brought up to date; a new node gets the next identifier. Either
/// way the node is online afterwards. Fails with `DbError` where no
/// identifier is left.
pub open spec fn register_spec(s: StoreView, r: RegistrationView, now: Timestamp) -> Result<
    (StoreView, NodeId),
    StoreError,
> {
    match find(s.nodes, by_node_name(r.name)) {
        Some(i) => Ok(
            (
                StoreView {
                    nodes: s.nodes.update(
                        i,
                        registered_node(s.nodes[i].id, r, s.nodes[i].capacity, now),
                    ),
                    ..s
                },
                s.nodes[i].id,
            ),
        ),
        None => if s.next_node_id > i32::MAX {
            Err(StoreError::DbError)
        } else {
            Ok(
                (
                    StoreView {
                        nodes: s.nodes.push(
                            registered_node(NodeId(s.next_node_id as i32), r, None, now),
                        ),
                        next_node_id: s.next_node_id + 1,
                        ..s
                    },
                    NodeId(s.next_node_id as i32),
                ),
            )
        },
    }
}

/// Marking a node offline. Fails with `NotFound` where the store has no such node.
pub open spec fn mark_offline_spec(s: StoreView, id: NodeId, now: Timestamp) -> Result<
    StoreView,
    StoreError,
> {
    match find(s.nodes, by_node_id(id)) {
        None => Err(StoreError::NotFound),
        Some(i) => Ok(
            StoreView {
                nodes: s.nodes.update(i, NodeView { offline_at: Some(now), ..s.nodes[i] }),
                ..s
            },
        ),
    }
}

/// Recording a heartbeat of a node and the number of backends it reports
/// it can run. Fails with `NotFound` where the store has no such node.
pub open spec fn heartbeat_spec(
    s: StoreView,
    id: NodeId,
    capacity: Option<u32>,
    now: Timestamp,
) -> Result<StoreView, StoreError> {
    match find(s.nodes, by_node_id(id)) {
        None => Err(StoreError::NotFound),
        Some(i) => Ok(
            StoreView {
                nodes: s.nodes.update(
                    i,
                    NodeView { last_heartbeat: now, capacity, ..s.nodes[i] },
                ),
                ..s
            },
        ),
    }
}

/// Registering a node keeps the store consistent, and an identifier that is
/// handed out to a new node was never in use.
pub proof fn lemma_register_wf(s: StoreView, r: RegistrationView, now: Timestamp)
    requires
        s.wf(),
        register_spec(s, r, now).is_ok(),
    ensures
        register_spec(s, r, now).unwrap().0.wf(),
        find(s.nodes, by_node_name(r.name)).is_none() ==> forall|i: int|
            0 <= i < s.nodes.len() ==> (#[trigger] s.nodes[i]).id != register_spec(
                s,
                r,
                now,
            ).unwrap().1,
{
    let t = register_spec(s, r, now).unwrap().0;
    lemma_first_match(s.nodes, by_node_name(r.name), 0);
    match find(s.nodes, by_node_name(r.name)) {
        Some(i) => {
            assert forall|j: int| 0 <= j < s.nodes.len() implies (#[trigger] t.nodes[j]).id
                == s.nodes[j].id && t.nodes[j].name == s.nodes[j].name by {}
        },
        None => {
            assert forall|j: int| 0 <= j < s.nodes.len() implies #[trigger] t.nodes[j]
                == s.nodes[j] by {}
        },
    }
    assert(t.nodes_sound());
}

/// Marking a node offline keeps the store consistent.
pub proof fn lemma_mark_offline_wf(s: StoreView, id: NodeId, now: Timestamp)
    requires
        s.wf(),
        mark_offline_spec(s, id, now).is_ok(),
    ensures
        mark_offline_spec(s, id, now).unwrap().wf(),
{
    let t = mark_offline_spec(s, id, now).unwrap();
    lemma_first_match(s.nodes, by_node_id(id), 0);
    assert forall|j: int| 0 <= j < s.nodes.len() implies (#[trigger] t.nodes[j]).id
        == s.nodes[j].id && t.nodes[j].name == s.nodes[j].name by {}
    assert(t.nodes_sound());
}

/// Recording a heartbeat keeps the store consistent.
pub proof fn lemma_heartbeat_wf(s: StoreView, id: NodeId, capacity: Option<u32>, now: Timestamp)
    requires
        s.wf(),
        heartbeat_spec(s, id, capacity, now).is_ok(),
    ensures
        heartbeat_spec(s, id, capacity, now).unwrap().wf(),
{
    let t = heartbeat_spec(s, id, capacity, now).unwrap();
    lemma_first_match(s.nodes, by_node_id(id), 0);
    assert forall|j: int| 0 <= j < s.nodes.len() implies (#[trigger] t.nodes[j]).id
        == s.nodes[j].id && t.nodes[j].name == s.nodes[j].name by {}
    assert(t.nodes_sound());
}

/// The nodes of a store.
pub struct NodeDatabase<'a> {
    pub db: &'a mut PlaneDatabase,
}

impl<'a> NodeDatabase<'a> {
    /// The store whose nodes these are.
    pub open spec fn store(&self) -> PlaneDatabase {
        *self.db
    }

    /// The nodes of `db`.
    pub fn new(db: &'a mut PlaneDatabase) -> (r: Self)
        ensures
            *r.db == *old(db),
            *final(r.db) == *final(db),
    {
        Self { db }
    }

    /// Registers a node and gives its identifier.
    pub fn register(&mut self, registration: Registration, now: Timestamp) -> (r: Result<
        NodeId,
        StoreError,
    >)
        requires
            old(self).store().wf(),
        ensures
            match register_spec(old(self).store()@, registration@, now) {
                Ok((s, id)) => r == Ok::<NodeId, StoreError>(id) && final(self).store()@ == s,
                Err(e) => r == Err::<NodeId, StoreError>(e)
                    && final(self).store()@ == old(self).store()@,
            },
            final(self).store().bus_view() == old(self).store().bus_view(),
            final(self).store().wf(),
            *final(final(self).db) == *final(old(self).db),
    {
        match self.db.find_node_named(&registration.name) {
            Some(i) => {
                proof {
                    lemma_register_wf(self.db@, registration@, now);
                }
                let ghost before = self.db.nodes@;
                let row = &mut self.db.nodes[i];
                let id = row.id;
                row.name = registration.name;
                row.cluster = registration.cluster;
                row.controller = registration.controller;
                row.plane_version = registration.plane_version;
                row.ip = registration.ip;
                row.last_heartbeat = now;
                row.offline_at = None;
                proof {
                    assert(self.db.nodes@ =~= before.update(i as int, self.db.nodes@[i as int]));
                    lemma_views(before, self.db.nodes@[i as int], i as int);
                }
                Ok(id)
            },
            None => {
                if self.db.next_node_id > i32::MAX as i64 {
                    return Err(StoreError::DbError);
                }
                proof {
                    lemma_register_wf(self.db@, registration@, now);
                }
                let id = NodeId(self.db.next_node_id as i32);
                let row = NodeRecord {
                    id,
                    name: registration.name,
                    cluster: registration.cluster,
                    controller: registration.controller,
                    plane_version: registration.plane_version,
                    ip: registration.ip,
                    last_heartbeat: now,
                    offline_at: None,
                    capacity: None,
                };
                proof {
                    lemma_views(self.db.nodes@, row, 0);
                }
                self.db.nodes.push(row);
                self.db.next_node_id = self.db.next_node_id + 1;
                Ok(id)
            },
        }
    }

    /// Marks a node offline as of `now`.
    pub fn mark_offline(&mut self, id: NodeId, now: Timestamp) -> (r: Result<(), StoreError>)
        requires
            old(self).store().wf(),
        ensures
            match mark_offline_spec(old(self).store()@, id, now) {
                Ok(s) => r.is_ok() && final(self).store()@ == s,
                Err(e) => r == Err::<(), StoreError>(e)
                    && final(self).store()@ == old(self).store()@,
            },
            final(self).store().bus_view() == old(self).store().bus_view(),
            final(self).store().wf(),
            *final(final(self).db) == *final(old(self).db),
    {
        match self.db.find_node(id) {
            None => Err(StoreError::NotFound),
            Some(i) => {
                proof {
                    lemma_mark_offline_wf(self.db@, id, now);
                }
                let ghost before = self.db.nodes@;
                let row = &mut self.db.nodes[i];
                row.offline_at = Some(now);
                proof {
                    assert(self.db.nodes@ =~= before.update(i as int, self.db.nodes@[i as int]));
                    lemma_views(before, self.db.nodes@[i as int], i as int);
                }
                Ok(())
            },
        }
    }

    /// Records a heartbeat of a node, with the number of backends that the
    /// node reports it can run (`None`: no limit).
    pub fn heartbeat(&mut self, id: NodeId, capacity: Option<u32>, now: Timestamp) -> (r: Result<
        (),
        StoreError,
    >)
        requires
            old(self).store().wf(),
        ensures
            match heartbeat_spec(old(self).store()@, id, capacity, now) {
                Ok(s) => r.is_ok() && final(self).store()@ == s,
                Err(e) => r == Err::<(), StoreError>(e)
                    && final(self).store()@ == old(self).store()@,
            },
            final(self).store().bus_view() == old(self).store().bus_view(),
            final(self).store().wf(),
            *final(final(self).db) == *final(old(self).db),
    {
        match self.db.find_node(id) {
            None => Err(StoreError::NotFound),
            Some(i) => {
                proof {
                    lemma_heartbeat_wf(self.db@, id, capacity, now);
                }
                let ghost before = self.db.nodes@;
                let row = &mut self.db.nodes[i];
                row.last_heartbeat = now;
                row.capacity = capacity;
                proof {
                    assert(self.db.nodes@ =~= before.update(i as int, self.db.nodes@[i as int]));
                    lemma_views(before, self.db.nodes@[i as int], i as int);
                }
                Ok(())
            },
        }
    }
}

} // verus!
