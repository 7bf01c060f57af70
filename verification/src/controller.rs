//! The controller: the store together with what the controller is called
//! and how it answers, and the handle by which a connected node is held online.

use vstd::prelude::*;
use crate::database::connect::{bus_after_connect, connect_spec, FreshNames, UrlPart};
use crate::database::model::StoreError;
use crate::database::node::{
    mark_offline_spec, register_spec, NodeDatabase, Registration, RegistrationView,
};
use crate::database::{views, PlaneDatabase};
use crate::names::{node_kind_of, AnyNodeName, ClusterName, ControllerName, NodeId};
use crate::status::Timestamp;
use crate::types::{opt_view, ConnectError, ConnectRequest, ConnectResponse};
use crate::PlaneVersionInfo;

verus! {

/// What a node says of itself when it connects.
pub struct Handshake {
    pub version: PlaneVersionInfo,
    pub name: String,
}

/// The controller.
pub struct Controller {
    pub db: PlaneDatabase,
    pub id: ControllerName,
    /// The template from which the URLs of connections are made.
    pub connect_url: Vec<UrlPart>,
    /// The cluster of requests that name none.
    pub default_cluster: Option<ClusterName>,
}

/// Holds a node online. The node is online from its registration until
/// its handle is released; a handle can be released once.
#[derive(Debug)]
pub struct NodeHandle {
    pub id: NodeId,
}

/// What a handshake registers, where its name shows a kind of node.
pub open spec fn registration_of(
    name: Seq<char>,
    version: Seq<char>,
    cluster: Option<Seq<char>>,
    controller: Seq<char>,
    ip: Seq<char>,
) -> Option<RegistrationView> {
    match node_kind_of(name) {
        Some(kind) => Some(
            RegistrationView { name, kind, cluster, controller, plane_version: version, ip },
        ),
        None => None,
    }
}

impl NodeHandle {
    /// Releases the handle: the node is marked offline as of `now`.
    pub fn release(self, db: &mut PlaneDatabase, now: Timestamp) -> (r: Result<(), StoreError>)
        requires
            old(db).wf(),
        ensures
            match mark_offline_spec(old(db)@, self.id, now) {
                Ok(s) => r.is_ok() && final(db)@ == s,
                Err(e) => r == Err::<(), StoreError>(e) && final(db)@ == old(db)@,
            },
            final(db).bus_view() == old(db).bus_view(),
            final(db).wf(),
    {
        NodeDatabase::new(db).mark_offline(self.id, now)
    }
}

impl Controller {
    /// A controller over `db`.
    pub fn new(
        db: PlaneDatabase,
        id: ControllerName,
        connect_url: Vec<UrlPart>,
        default_cluster: Option<ClusterName>,
    ) -> (c: Self)
        ensures
            c.db == db,
            c.id == id,
            c.connect_url == connect_url,
            c.default_cluster == default_cluster,
    {
        Self { db, id, connect_url, default_cluster }
    }

    /// Registers the node that presents `handshake` from the address `ip`
    /// and gives the handle that holds it online. Fails with
    /// `InvalidHandshake` where the name shows no kind of node.
    pub fn register_node(
        &mut self,
        handshake: Handshake,
        cluster: Option<&ClusterName>,
        ip: String,
        now: Timestamp,
    ) -> (r: Result<NodeHandle, StoreError>)
        requires
            old(self).db.wf(),
        ensures
            match registration_of(
                handshake.name@,
                handshake.version.version@,
                opt_view(cluster),
                old(self).id@,
                ip@,
            ) {
                None => (r matches Err(failure) && failure == StoreError::InvalidHandshake)
                    && final(self).db@ == old(self).db@,
                Some(registration) => match register_spec(old(self).db@, registration, now) {
                    Ok((s, id)) => r.is_ok() && r.unwrap().id == id && final(self).db@ == s,
                    Err(e) => (r matches Err(failure) && failure == e)
                        && final(self).db@ == old(self).db@,
                },
            },
            final(self).db.bus_view() == old(self).db.bus_view(),
            final(self).db.wf(),
            final(self).id == old(self).id,
            final(self).connect_url == old(self).connect_url,
            final(self).default_cluster == old(self).default_cluster,
    {
        let name = match AnyNodeName::try_from_text(handshake.name) {
            None => {
                return Err(StoreError::InvalidHandshake);
            },
            Some(name) => name,
        };
        let registration = Registration {
            name,
            cluster: match cluster {
                Some(c) => Some(c.clone()),
                None => None,
            },
            controller: self.id.clone(),
            plane_version: handshake.version.version,
            ip,
        };
        match NodeDatabase::new(&mut self.db).register(registration, now) {
            Ok(id) => Ok(NodeHandle { id }),
            Err(e) => Err(e),
        }
    }

    /// Connects a client to a backend.
    pub fn connect(&mut self, connect_request: &ConnectRequest, fresh: FreshNames, now: Timestamp) -> (r:
        Result<ConnectResponse, ConnectError>)
        requires
            old(self).db.wf(),
        ensures
            match connect_spec(
                old(self).db@,
                opt_view(old(self).default_cluster),
                connect_request@,
                fresh@,
                views(old(self).connect_url@),
                now,
            ) {
                Ok(outcome) => r.is_ok() && r.unwrap()@ == outcome.response && final(self).db@
                    == outcome.store && final(self).db.bus_view() == bus_after_connect(
                    old(self).db.bus_view(),
                    outcome,
                    now,
                ),
                Err(e) => r == Err::<ConnectResponse, ConnectError>(e)
                    && final(self).db@ == old(self).db@
                    && final(self).db.bus_view() == old(self).db.bus_view(),
            },
            final(self).db.wf(),
            final(self).id == old(self).id,
            final(self).connect_url == old(self).connect_url,
            final(self).default_cluster == old(self).default_cluster,
    {
        let default_cluster = match &self.default_cluster {
            Some(c) => Some(c),
            None => None,
        };
        self.db.connect(default_cluster, connect_request, fresh, &self.connect_url, now)
    }
}

} // verus!
