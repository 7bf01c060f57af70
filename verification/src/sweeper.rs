//! The termination sweeper of one drone: which of the backends that are due
//! are asked to stop, and how firmly.
//!
//! A backend that is found due for the first time is asked to stop. One that
//! is still due after the grace window is stopped hard. Asking again is
//! harmless: a drone ignores what it is asked of a backend that has terminated.

use vstd::prelude::*;
use crate::database::backend::TerminationCandidate;
use crate::database::model::{find, first_match, CandidateView};
use crate::database::subscribe::{published, Notification, NotificationKey, Payload};
use crate::database::connect::action_note;
use crate::database::{views, PlaneDatabase};
use crate::names::BackendName;
use crate::protocol::{BackendActionMessage, TerminationKind};
use crate::status::Timestamp;

verus! {

/// Seconds that a backend is given to stop before it is stopped hard.
pub const TERMINATION_GRACE_SECONDS: i64 = 10;

/// A backend that was found due, with the time at which it was first found so.
pub struct Observation {
    pub backend: BackendName,
    pub first_seen: Timestamp,
}

/// The model of an `Observation`.
pub struct ObservationView {
    pub backend: Seq<char>,
    pub first_seen: Timestamp,
}

impl View for Observation {
    type V = ObservationView;

    open spec fn view(&self) -> ObservationView {
        ObservationView { backend: self.backend@, first_seen: self.first_seen }
    }
}

/// What a drone is to be asked of one backend.
#[derive(Debug, PartialEq, Eq)]
pub struct TerminateOrder {
    pub backend_id: BackendName,
    pub kind: TerminationKind,
}

/// The model of a `TerminateOrder`.
pub struct OrderView {
    pub backend_id: Seq<char>,
    pub kind: TerminationKind,
}

impl View for TerminateOrder {
    type V = OrderView;

    open spec fn view(&self) -> OrderView {
        OrderView { backend_id: self.backend_id@, kind: self.kind }
    }
}

pub open spec fn by_observed(backend: Seq<char>) -> spec_fn(ObservationView) -> bool {
    |o: ObservationView| o.backend == backend
}

/// When `backend` was first found due, if it was found due at the last sweep.
pub open spec fn first_seen(observed: Seq<ObservationView>, backend: Seq<char>) -> Option<Timestamp> {
    match find(observed, by_observed(backend)) {
        Some(i) => Some(observed[i].first_seen),
        None => None,
    }
}

/// How firmly a backend is asked to end at `now`: softly when it is found
/// due for the first time or the grace window has not passed since, hard
/// after that.
pub open spec fn kind_for(seen: Option<Timestamp>, now: Timestamp) -> TerminationKind {
    match seen {
        Some(t) => if now.micros - t.micros > TERMINATION_GRACE_SECONDS * 1_000_000 {
            TerminationKind::Hard
        } else {
            TerminationKind::Soft
        },
        None => TerminationKind::Soft,
    }
}

/// What the sweeper remembers after a sweep: the backends that were due,
/// each with the time at which it was first found so.
pub open spec fn observed_after(observed: Seq<ObservationView>, candidates: Seq<CandidateView>) -> Seq<
    ObservationView,
> {
    Seq::new(
        candidates.len(),
        |i: int|
            ObservationView {
                backend: candidates[i].backend_id,
                first_seen: match first_seen(observed, candidates[i].backend_id) {
                    Some(t) => t,
                    None => candidates[i].as_of,
                },
            },
    )
}

/// What a sweep orders: for each backend that is due, in order, how it is to end.
pub open spec fn orders_for(observed: Seq<ObservationView>, candidates: Seq<CandidateView>) -> Seq<
    OrderView,
> {
    Seq::new(
        candidates.len(),
        |i: int|
            OrderView {
                backend_id: candidates[i].backend_id,
                kind: kind_for(
                    first_seen(observed, candidates[i].backend_id),
                    candidates[i].as_of,
                ),
            },
    )
}

/// How firmly a backend is asked to end at `now`.
pub fn termination_kind(seen: Option<Timestamp>, now: Timestamp) -> (kind: TerminationKind)
    ensures
        kind == kind_for(seen, now),
{
    match seen {
        Some(t) => {
            let grace: i128 = (TERMINATION_GRACE_SECONDS as i128) * 1_000_000;
            if now.micros_since(t) > grace {
                TerminationKind::Hard
            } else {
                TerminationKind::Soft
            }
        },
        None => TerminationKind::Soft,
    }
}

/// The sweeper of one drone.
pub struct Sweeper {
    /// The backends that were due at the last sweep.
    pub observed: Vec<Observation>,
}

impl View for Sweeper {
    type V = Seq<ObservationView>;

    open spec fn view(&self) -> Seq<ObservationView> {
        views(self.observed@)
    }
}

impl Sweeper {
    /// A sweeper that has seen nothing.
    pub fn new() -> (s: Sweeper)
        ensures
            s@ == Seq::<ObservationView>::empty(),
    {
        let s = Sweeper { observed: Vec::new() };
        assert(s@ =~= Seq::<ObservationView>::empty());
        s
    }

    /// When `backend` was first found due, if it was found due at the last sweep.
    pub fn first_seen_of(&self, backend: &BackendName) -> (r: Option<Timestamp>)
        ensures
            r == first_seen(self@, backend@),
    {
        let mut i: usize = 0;
        while i < self.observed.len()
            invariant
                i <= self.observed@.len(),
                find(self@, by_observed(backend@)) == first_match(
                    self@,
                    by_observed(backend@),
                    i as int,
                ),
            decreases self.observed@.len() - i,
        {
            if self.observed[i].backend.same_as(backend) {
                return Some(self.observed[i].first_seen);
            }
            i += 1;
        }
        None
    }

    /// Takes the backends that are due on the drone and says what the drone
    /// is to be asked of each.
    pub fn sweep(&mut self, candidates: &Vec<TerminationCandidate>) -> (orders: Vec<TerminateOrder>)
        ensures
            views(orders@) == orders_for(old(self)@, views(candidates@)),
            final(self)@ == observed_after(old(self)@, views(candidates@)),
    {
        let mut orders: Vec<TerminateOrder> = Vec::new();
        let mut observed: Vec<Observation> = Vec::new();
        let mut i: usize = 0;
        while i < candidates.len()
            invariant
                i <= candidates@.len(),
                orders@.len() == i,
                observed@.len() == i,
                *self == *old(self),
                forall|j: int|
                    0 <= j < i ==> (#[trigger] orders@[j])@ == orders_for(
                        old(self)@,
                        views(candidates@),
                    )[j],
                forall|j: int|
                    0 <= j < i ==> (#[trigger] observed@[j])@ == observed_after(
                        old(self)@,
                        views(candidates@),
                    )[j],
            decreases candidates@.len() - i,
        {
            let candidate = &candidates[i];
            let seen = self.first_seen_of(&candidate.backend_id);
            orders.push(
                TerminateOrder {
                    backend_id: candidate.backend_id.clone(),
                    kind: termination_kind(seen, candidate.as_of),
                },
            );
            observed.push(
                Observation {
                    backend: candidate.backend_id.clone(),
                    first_seen: match seen {
                        Some(t) => t,
                        None => candidate.as_of,
                    },
                },
            );
            i += 1;
        }
        self.observed = observed;
        assert(views(orders@) =~= orders_for(old(self)@, views(candidates@)));
        assert(self@ =~= observed_after(old(self)@, views(candidates@)));
        orders
    }
}

impl PlaneDatabase {
    /// Sends an action to the drone it is addressed to.
    pub fn send_action(&mut self, message: BackendActionMessage, now: Timestamp)
        ensures
            final(self)@ == old(self)@,
            final(self).bus_view() == published(old(self).bus_view(), action_note(message@, now)),
    {
        let note = Notification {
            key: NotificationKey::Node(message.drone_id),
            payload: Payload::Action(message),
            timestamp: now,
        };
        self.bus.publish(&note);
    }
}

} // verus!
