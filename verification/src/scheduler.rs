//! Placement: which drone of a cluster is to run a new backend.
//!
//! A drone can take a backend when it belongs to the cluster, is online, has
//! been heard of recently and has room. Among the drones that can, the one
//! with the fewest live backends is chosen, and among equally loaded ones the
//! one with the lowest identifier.

use vstd::prelude::*;
use crate::database::model::{BackendView, NodeView, StoreView};
use crate::database::{views, BackendRecord, NodeRecord, PlaneDatabase};
use crate::names::{ClusterName, NodeId, NodeKind};
use crate::status::{BackendStatus, Timestamp};
use crate::types::opt_view;

verus! {

/// Seconds after its last heartbeat for which a drone still counts as heard of.
pub const DRONE_HEARTBEAT_STALENESS_SECONDS: i64 = 30;

/// What placement needs to know of one node.
pub struct DroneStanding {
    pub id: NodeId,
    pub kind: NodeKind,
    pub cluster: Option<ClusterName>,
    pub last_heartbeat: Timestamp,
    pub offline_at: Option<Timestamp>,
    /// The number of backends that the node reports it can run; `None`: no limit.
    pub capacity: Option<u32>,
    /// The number of backends on the node that have not terminated.
    pub load: usize,
}

/// The model of a `DroneStanding`.
pub struct StandingView {
    pub id: NodeId,
    pub kind: NodeKind,
    pub cluster: Option<Seq<char>>,
    pub last_heartbeat: Timestamp,
    pub offline_at: Option<Timestamp>,
    pub capacity: Option<u32>,
    pub load: nat,
}

impl View for DroneStanding {
    type V = StandingView;

    open spec fn view(&self) -> StandingView {
        StandingView {
            id: self.id,
            kind: self.kind,
            cluster: opt_view(self.cluster),
            last_heartbeat: self.last_heartbeat,
            offline_at: self.offline_at,
            capacity: self.capacity,
            load: self.load as nat,
        }
    }
}

/// The number of backends of `backends` that run on `drone` and have not terminated.
pub open spec fn load(backends: Seq<BackendView>, drone: NodeId) -> nat
    decreases backends.len(),
{
    if backends.len() == 0 {
        0
    } else {
        let rest = load(backends.drop_last(), drone);
        if backends.last().drone_id == drone && backends.last().last_status
            != BackendStatus::Terminated {
            rest + 1
        } else {
            rest
        }
    }
}

/// Where the node `n` stands in the store `s`.
pub open spec fn standing_of(s: StoreView, n: NodeView) -> StandingView {
    StandingView {
        id: n.id,
        kind: n.kind,
        cluster: n.cluster,
        last_heartbeat: n.last_heartbeat,
        offline_at: n.offline_at,
        capacity: n.capacity,
        load: load(s.backends, n.id),
    }
}

/// Where the nodes of the store stand, in the order of the nodes.
pub open spec fn standings_of(s: StoreView) -> Seq<StandingView> {
    Seq::new(s.nodes.len(), |i: int| standing_of(s, s.nodes[i]))
}

/// The node has been heard of within the staleness bound before `now`.
pub open spec fn is_fresh(n: StandingView, now: Timestamp) -> bool {
    now.micros - n.last_heartbeat.micros <= DRONE_HEARTBEAT_STALENESS_SECONDS * 1_000_000
}

/// The node has room for another backend.
pub open spec fn has_room(n: StandingView) -> bool {
    match n.capacity {
        Some(limit) => n.load < limit,
        None => true,
    }
}

/// The node can take a new backend of `cluster` at `now`.
pub open spec fn is_eligible(n: StandingView, cluster: Seq<char>, now: Timestamp) -> bool {
    &&& n.kind == NodeKind::Drone
    &&& n.cluster == Some(cluster)
    &&& n.offline_at.is_none()
    &&& is_fresh(n, now)
    &&& has_room(n)
}

/// `a` is to be chosen before `b`: it has fewer live backends, or as many
/// and the lower identifier.
pub open spec fn goes_before(a: StandingView, b: StandingView) -> bool {
    a.load < b.load || (a.load == b.load && a.id.0 < b.id.0)
}

/// The place of the drone to choose among the first `upto` of `standings`.
pub open spec fn best_drone(
    standings: Seq<StandingView>,
    cluster: Seq<char>,
    now: Timestamp,
    upto: int,
) -> Option<int>
    decreases upto,
{
    if upto <= 0 || upto > standings.len() {
        None
    } else {
        let before = best_drone(standings, cluster, now, upto - 1);
        let candidate = standings[upto - 1];
        if !is_eligible(candidate, cluster, now) {
            before
        } else {
            match before {
                None => Some(upto - 1),
                Some(b) => if goes_before(candidate, standings[b]) {
                    Some(upto - 1)
                } else {
                    Some(b)
                },
            }
        }
    }
}

/// The drone to choose among `standings` for a new backend of `cluster`, if any can take one.
pub open spec fn chosen(standings: Seq<StandingView>, cluster: Seq<char>, now: Timestamp) -> Option<
    NodeId,
> {
    match best_drone(standings, cluster, now, standings.len() as int) {
        Some(i) => Some(standings[i].id),
        None => None,
    }
}

/// The drone that is to run a new backend of `cluster`, if any can.
pub open spec fn select_drone_spec(s: StoreView, cluster: Seq<char>, now: Timestamp) -> Option<
    NodeId,
> {
    chosen(standings_of(s), cluster, now)
}

/// The drone chosen among the first `upto` nodes can take a backend, and no
/// other of them that can goes before it. None is chosen only where none can.
pub proof fn lemma_best_drone(
    standings: Seq<StandingView>,
    cluster: Seq<char>,
    now: Timestamp,
    upto: int,
)
    requires
        0 <= upto <= standings.len(),
    ensures
        match best_drone(standings, cluster, now, upto) {
            Some(b) => 0 <= b < upto && is_eligible(standings[b], cluster, now) && forall|j: int|
                0 <= j < upto && is_eligible(#[trigger] standings[j], cluster, now)
                    ==> !goes_before(standings[j], standings[b]),
            None => forall|j: int|
                0 <= j < upto ==> !is_eligible(#[trigger] standings[j], cluster, now),
        },
    decreases upto,
{
    if upto > 0 {
        lemma_best_drone(standings, cluster, now, upto - 1);
    }
}

/// Placement picks the least loaded eligible drone, the lowest identifier
/// breaking ties, and fails exactly where no drone is eligible.
pub proof fn lemma_select_drone(s: StoreView, cluster: Seq<char>, now: Timestamp)
    ensures
        match select_drone_spec(s, cluster, now) {
            Some(id) => exists|b: int|
                0 <= b < s.nodes.len() && (#[trigger] s.nodes[b]).id == id && is_eligible(
                    standing_of(s, s.nodes[b]),
                    cluster,
                    now,
                ) && forall|j: int|
                    0 <= j < s.nodes.len() && is_eligible(
                        standing_of(s, #[trigger] s.nodes[j]),
                        cluster,
                        now,
                    ) ==> !goes_before(standing_of(s, s.nodes[j]), standing_of(s, s.nodes[b])),
            None => forall|j: int|
                0 <= j < s.nodes.len() ==> !is_eligible(
                    standing_of(s, #[trigger] s.nodes[j]),
                    cluster,
                    now,
                ),
        },
{
    let standings = standings_of(s);
    lemma_best_drone(standings, cluster, now, standings.len() as int);
    match best_drone(standings, cluster, now, standings.len() as int) {
        Some(b) => {
            assert(s.nodes[b].id == standings[b].id);
            assert forall|j: int|
                0 <= j < s.nodes.len() && is_eligible(
                    standing_of(s, #[trigger] s.nodes[j]),
                    cluster,
                    now,
                ) implies !goes_before(standing_of(s, s.nodes[j]), standing_of(s, s.nodes[b])) by {
                assert(standings[j] == standing_of(s, s.nodes[j]));
            }
        },
        None => {
            assert forall|j: int| 0 <= j < s.nodes.len() implies !is_eligible(
                standing_of(s, #[trigger] s.nodes[j]),
                cluster,
                now,
            ) by {
                assert(standings[j] == standing_of(s, s.nodes[j]));
            }
        },
    }
}

/// The number of live backends on `drone`.
pub fn count_load(backends: &Vec<BackendRecord>, drone: NodeId) -> (n: usize)
    ensures
        n == load(views(backends@), drone),
{
    let ghost all = views(backends@);
    let mut n: usize = 0;
    let mut i: usize = 0;
    while i < backends.len()
        invariant
            i <= backends@.len(),
            all == views(backends@),
            n == load(all.take(i as int), drone),
            n <= i,
        decreases backends@.len() - i,
    {
        proof {
            assert(all.take(i + 1).drop_last() == all.take(i as int));
            assert(all.take(i + 1).last() == backends@[i as int]@);
        }
        if backends[i].drone_id == drone && !backends[i].last_status.is_terminated() {
            n += 1;
        }
        i += 1;
    }
    proof {
        assert(all.take(backends@.len() as int) == all);
    }
    n
}

/// Whether `node` can take a new backend of `cluster` at `now`.
pub fn standing_is_eligible(node: &DroneStanding, cluster: &ClusterName, now: Timestamp) -> (r: bool)
    ensures
        r == is_eligible(node@, cluster@, now),
{
    let in_cluster = match &node.cluster {
        Some(c) => c.same_as(cluster),
        None => false,
    };
    let bound: i128 = (DRONE_HEARTBEAT_STALENESS_SECONDS as i128) * 1_000_000;
    let fresh = now.micros_since(node.last_heartbeat) <= bound;
    let room = match node.capacity {
        Some(limit) => node.load < limit as usize,
        None => true,
    };
    node.kind == NodeKind::Drone && in_cluster && node.offline_at.is_none() && fresh && room
}

/// Chooses, among the nodes of `standings`, the drone that is to run a new
/// backend of `cluster`. `None` where none of them can take one.
pub fn choose_drone(standings: &Vec<DroneStanding>, cluster: &ClusterName, now: Timestamp) -> (r:
    Option<NodeId>)
    ensures
        r == chosen(views(standings@), cluster@, now),
{
    let ghost all = views(standings@);
    let mut best: Option<usize> = None;
    let mut i: usize = 0;
    while i < standings.len()
        invariant
            i <= standings@.len(),
            all == views(standings@),
            match best {
                Some(b) => best_drone(all, cluster@, now, i as int) == Some(b as int) && b < i,
                None => best_drone(all, cluster@, now, i as int).is_none(),
            },
        decreases standings@.len() - i,
    {
        let node = &standings[i];
        if standing_is_eligible(node, cluster, now) {
            match best {
                None => {
                    best = Some(i);
                },
                Some(b) => {
                    let held = &standings[b];
                    if node.load < held.load || (node.load == held.load && node.id.0 < held.id.0) {
                        best = Some(i);
                    }
                },
            }
        }
        i += 1;
    }
    match best {
        Some(b) => Some(standings[b].id),
        None => None,
    }
}

impl PlaneDatabase {
    /// Where the nodes of the store stand.
    pub fn standings(&self) -> (r: Vec<DroneStanding>)
        ensures
            views(r@) == standings_of(self@),
    {
        let mut r: Vec<DroneStanding> = Vec::new();
        let mut i: usize = 0;
        while i < self.nodes.len()
            invariant
                i <= self.nodes@.len(),
                r@.len() == i,
                forall|j: int|
                    0 <= j < i ==> (#[trigger] r@[j])@ == standing_of(self@, self@.nodes[j]),
            decreases self.nodes@.len() - i,
        {
            let node: &NodeRecord = &self.nodes[i];
            r.push(
                DroneStanding {
                    id: node.id,
                    kind: node.name.kind,
                    cluster: match &node.cluster {
                        Some(c) => Some(c.clone()),
                        None => None,
                    },
                    last_heartbeat: node.last_heartbeat,
                    offline_at: node.offline_at,
                    capacity: node.capacity,
                    load: count_load(&self.backends, node.id),
                },
            );
            i += 1;
        }
        assert(views(r@) =~= standings_of(self@));
        r
    }

    /// Chooses the drone that is to run a new backend of `cluster`.
    /// `None` where no drone of the cluster can take one.
    pub fn select_drone(&self, cluster: &ClusterName, now: Timestamp) -> (r: Option<NodeId>)
        ensures
            r == select_drone_spec(self@, cluster@, now),
    {
        choose_drone(&self.standings(), cluster, now)
    }
}

} // verus!
