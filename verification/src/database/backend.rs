//! Reading and writing the backends of the store.

use vstd::prelude::*;
use crate::database::invariants::{
    lemma_create_backend_wf, lemma_update_keepalive_wf, lemma_update_status_wf,
};
use crate::database::model::{
    candidates_of, create_backend_spec, is_due, log_of, route_of, row_of, rows_of, status_note,
    update_keepalive_spec, update_status_spec, BackendRowView, CandidateView, NewBackendView,
    StoreError,
};
use crate::database::subscribe::{
    bus_closed, bus_taken, published, BusView, KeyTopic, Notification, NotificationKey,
    NotificationKind, NotificationView, Payload, PayloadView, Received, ReceivedView,
    SubscriptionHandle, SubscriptionView,
};
use crate::stream::{
    drained, is_over, next_step, raised, replayed, stream_output, LiveItem, StreamState,
    StreamStep,
};
use crate::database::{lemma_views, views, BackendRecord, KeyRecord, PlaneDatabase, StatusLogRecord};
use crate::names::{BackendName, BearerToken, ClusterName, NodeId};
use crate::protocol::RouteInfo;
use crate::status::{BackendStatus, Timestamp, TimestampedBackendStatus};
use crate::types::{clone_opt_text, opt_view, BackendAddr, KeyConfig};

verus! {

/// What a query for a backend answers.
#[derive(Debug)]
pub struct BackendRow {
    pub id: BackendName,
    pub cluster: String,
    pub last_status: BackendStatus,
    pub last_status_time: Timestamp,
    pub last_keepalive: Timestamp,
    pub drone_id: NodeId,
    pub expiration_time: Option<Timestamp>,
    pub allowed_idle_seconds: Option<i32>,
    /// The time of the query.
    pub as_of: Timestamp,
}

impl View for BackendRow {
    type V = BackendRowView;

    open spec fn view(&self) -> BackendRowView {
        BackendRowView {
            id: self.id@,
            cluster: self.cluster@,
            last_status: self.last_status,
            last_status_time: self.last_status_time,
            last_keepalive: self.last_keepalive,
            drone_id: self.drone_id,
            expiration_time: self.expiration_time,
            allowed_idle_seconds: self.allowed_idle_seconds,
            as_of: self.as_of,
        }
    }
}

impl BackendRow {
    /// Microseconds for which the backend has had its status, as of the time of the query.
    pub fn status_age(&self) -> (age: i128)
        ensures
            age == self.as_of.micros - self.last_status_time.micros,
    {
        self.as_of.micros_since(self.last_status_time)
    }

    /// What a query at time `now` answers for `record`.
    pub fn of_record(record: &BackendRecord, now: Timestamp) -> (row: BackendRow)
        ensures
            row@ == row_of(record@, now),
    {
        BackendRow {
            id: record.id.clone(),
            cluster: record.cluster.to_string(),
            last_status: record.last_status,
            last_status_time: record.last_status_time,
            last_keepalive: record.last_keepalive,
            drone_id: record.drone_id,
            expiration_time: record.expiration_time,
            allowed_idle_seconds: record.allowed_idle_seconds,
            as_of: now,
        }
    }
}

/// A backend that is due to be terminated.
#[derive(Debug)]
pub struct TerminationCandidate {
    pub backend_id: BackendName,
    pub expiration_time: Option<Timestamp>,
    pub last_keepalive: Timestamp,
    pub allowed_idle_seconds: Option<i32>,
    /// The time at which the backend was found to be due.
    pub as_of: Timestamp,
}

impl View for TerminationCandidate {
    type V = CandidateView;

    open spec fn view(&self) -> CandidateView {
        CandidateView {
            backend_id: self.backend_id@,
            expiration_time: self.expiration_time,
            last_keepalive: self.last_keepalive,
            allowed_idle_seconds: self.allowed_idle_seconds,
            as_of: self.as_of,
        }
    }
}

impl Clone for TerminationCandidate {
    fn clone(&self) -> (r: Self)
        ensures
            r == *self,
    {
        TerminationCandidate {
            backend_id: self.backend_id.clone(),
            expiration_time: self.expiration_time,
            last_keepalive: self.last_keepalive,
            allowed_idle_seconds: self.allowed_idle_seconds,
            as_of: self.as_of,
        }
    }
}

/// What is needed to add a backend to the store.
pub struct NewBackend {
    pub id: BackendName,
    pub cluster: ClusterName,
    pub drone_id: NodeId,
    pub expiration_time: Option<Timestamp>,
    pub allowed_idle_seconds: Option<i32>,
    /// The key under which the backend is to be found again, if any.
    pub key: Option<KeyConfig>,
}

impl View for NewBackend {
    type V = NewBackendView;

    open spec fn view(&self) -> NewBackendView {
        NewBackendView {
            id: self.id@,
            cluster: self.cluster@,
            drone_id: self.drone_id,
            expiration_time: self.expiration_time,
            allowed_idle_seconds: self.allowed_idle_seconds,
            key: opt_view(self.key),
        }
    }
}

/// Whether `record` runs on `drone`, has not terminated, and is idle or expired at `now`.
pub fn record_is_due(record: &BackendRecord, drone: NodeId, now: Timestamp) -> (r: bool)
    ensures
        r == is_due(record@, drone, now),
{
    if record.drone_id != drone || record.last_status.is_terminated() {
        return false;
    }
    let idle = match record.allowed_idle_seconds {
        Some(seconds) => {
            let allowed: i128 = (seconds as i128) * 1_000_000;
            now.micros_since(record.last_keepalive) > allowed
        },
        None => false,
    };
    let expired = match record.expiration_time {
        Some(deadline) => now.is_after(deadline),
        None => false,
    };
    idle || expired
}

/// Whether a backend in status `current` may take the status `next`: it may
/// unless `next` is earlier than `current`.
pub fn check_transition(current: BackendStatus, next: BackendStatus) -> (r: Result<(), StoreError>)
    ensures
        next.spec_lt(current) ==> r == Err::<(), StoreError>(StoreError::InvalidTransition),
        !next.spec_lt(current) ==> r.is_ok(),
{
    if next.lt(current) {
        Err(StoreError::InvalidTransition)
    } else {
        Ok(())
    }
}

/// What is to be written to record a status of a backend.
#[derive(Clone, Copy, Debug, PartialEq, Eq, Structural)]
pub struct StatusPlan {
    /// Whether the backend gives up its key: it does when it terminates.
    pub release_key: bool,
}

/// What recording the status `next` for a backend comes to, given the
/// status that the store holds of it (`None`: the store has no such backend).
pub open spec fn status_planned(current: Option<BackendStatus>, next: BackendStatus) -> Result<
    StatusPlan,
    StoreError,
> {
    match current {
        None => Err(StoreError::NotFound),
        Some(held) => if next.spec_lt(held) {
            Err(StoreError::InvalidTransition)
        } else {
            Ok(StatusPlan { release_key: next == BackendStatus::Terminated })
        },
    }
}

/// Decides what recording the status `next` comes to: it fails with
/// `NotFound` where there is no such backend and with `InvalidTransition`
/// where `next` is earlier than the status held; otherwise the status is
/// written and logged, and the key given up where the backend terminates.
pub fn plan_status(current: Option<BackendStatus>, next: BackendStatus) -> (r: Result<
    StatusPlan,
    StoreError,
>)
    ensures
        r == status_planned(current, next),
{
    match current {
        None => Err(StoreError::NotFound),
        Some(held) => match check_transition(held, next) {
            Err(e) => Err(e),
            Ok(()) => Ok(StatusPlan { release_key: next.is_terminated() }),
        },
    }
}

/// The backends of a store.
pub struct BackendDatabase<'a> {
    pub db: &'a mut PlaneDatabase,
}

impl<'a> BackendDatabase<'a> {
    /// The store whose backends these are.
    pub open spec fn store(&self) -> PlaneDatabase {
        *self.db
    }

    /// The backends of `db`.
    pub fn new(db: &'a mut PlaneDatabase) -> (r: Self)
        ensures
            *r.db == *old(db),
            *final(r.db) == *final(db),
    {
        Self { db }
    }

    /// The row of a backend, as of `now`; `None` where the store has no such backend.
    pub fn backend(&self, backend_id: &BackendName, now: Timestamp) -> (r: Option<BackendRow>)
        ensures
            opt_view(r) == match self.store()@.backend(backend_id@) {
                Some(b) => Some(row_of(b, now)),
                None => None,
            },
    {
        match self.db.find_backend(backend_id) {
            None => None,
            Some(i) => Some(BackendRow::of_record(&self.db.backends[i], now)),
        }
    }

    /// The rows of all backends, as of `now`, in the order in which they were added.
    pub fn list_backends(&self, now: Timestamp) -> (rows: Vec<BackendRow>)
        ensures
            views(rows@) == rows_of(self.store()@.backends, now),
    {
        let mut rows: Vec<BackendRow> = Vec::new();
        let mut i: usize = 0;
        while i < self.db.backends.len()
            invariant
                i <= self.db.backends@.len(),
                rows@.len() == i,
                forall|j: int| 0 <= j < i ==> (#[trigger] rows@[j])@ == row_of(self.db@.backends[j], now),
            decreases self.db.backends@.len() - i,
        {
            rows.push(BackendRow::of_record(&self.db.backends[i], now));
            i += 1;
        }
        assert(views(rows@) =~= rows_of(self.db@.backends, now));
        rows
    }

    /// Adds a backend in status `Scheduled`, starts its status log, binds its
    /// key if it has one, and announces the status.
    pub fn create_backend(&mut self, backend: NewBackend, now: Timestamp) -> (r: Result<
        BackendName,
        StoreError,
    >)
        requires
            old(self).store().wf(),
        ensures
            match create_backend_spec(old(self).store()@, backend@, now) {
                Ok(s) => r.is_ok()
                    && r.unwrap()@ == backend.id@
                    && final(self).store()@ == s
                    && final(self).store().bus_view() == published(
                    old(self).store().bus_view(),
                    status_note(backend.id@, BackendStatus::Scheduled, now),
                ),
                Err(e) => r == Err::<BackendName, StoreError>(e)
                    && final(self).store()@ == old(self).store()@
                    && final(self).store().bus_view() == old(self).store().bus_view(),
            },
            final(self).store().wf(),
            *final(final(self).db) == *final(old(self).db),
    {
        if self.db.find_backend(&backend.id).is_some() {
            return Err(StoreError::DbError);
        }
        match &backend.key {
            Some(key) => {
                if self.db.find_key(&backend.cluster, key).is_some() {
                    return Err(StoreError::Conflict);
                }
            },
            None => {},
        }
        proof {
            lemma_create_backend_wf(self.db@, backend@, now);
        }
        let name = backend.id.clone();
        let record = BackendRecord {
            id: backend.id.clone(),
            cluster: backend.cluster.clone(),
            drone_id: backend.drone_id,
            last_status: BackendStatus::Scheduled,
            last_status_time: now,
            last_keepalive: now,
            expiration_time: backend.expiration_time,
            allowed_idle_seconds: backend.allowed_idle_seconds,
            cluster_address: None,
            exit_code: None,
        };
        let entry = StatusLogRecord {
            backend: backend.id.clone(),
            status: BackendStatus::Scheduled,
            created_at: now,
        };
        proof {
            lemma_views(self.db.backends@, record, 0);
            lemma_views(self.db.log@, entry, 0);
        }
        self.db.backends.push(record);
        self.db.log.push(entry);
        match backend.key {
            Some(key) => {
                let binding = KeyRecord {
                    cluster: backend.cluster,
                    key,
                    backend: backend.id.clone(),
                };
                proof {
                    lemma_views(self.db.keys@, binding, 0);
                }
                self.db.keys.push(binding);
            },
            None => {},
        }
        let note = Notification {
            key: NotificationKey::Backend(name.to_string()),
            payload: Payload::State(BackendStatus::Scheduled),
            timestamp: now,
        };
        self.db.bus.publish(&note);
        Ok(name)
    }

    /// Records a status of a backend, with the address and the exit code
    /// that the drone reports with it, and announces the status. A backend
    /// that terminates gives up its key.
    pub fn update_status(
        &mut self,
        backend: &BackendName,
        status: BackendStatus,
        address: Option<BackendAddr>,
        exit_code: Option<i32>,
        now: Timestamp,
    ) -> (r: Result<(), StoreError>)
        requires
            old(self).store().wf(),
        ensures
            match update_status_spec(
                old(self).store()@,
                backend@,
                status,
                address,
                exit_code,
                now,
            ) {
                Ok(s) => r.is_ok()
                    && final(self).store()@ == s
                    && final(self).store().bus_view() == published(
                    old(self).store().bus_view(),
                    status_note(backend@, status, now),
                ),
                Err(e) => r == Err::<(), StoreError>(e)
                    && final(self).store()@ == old(self).store()@
                    && final(self).store().bus_view() == old(self).store().bus_view(),
            },
            final(self).store().wf(),
            *final(final(self).db) == *final(old(self).db),
    {
        let place = self.db.find_backend(backend);
        let current = match place {
            None => None,
            Some(i) => Some(self.db.backends[i].last_status),
        };
        let plan = match plan_status(current, status) {
            Err(e) => {
                return Err(e);
            },
            Ok(plan) => plan,
        };
        let i = match place {
            None => {
                return Err(StoreError::NotFound);
            },
            Some(i) => i,
        };
        proof {
            lemma_update_status_wf(self.db@, backend@, status, address, exit_code, now);
        }
        let ghost before = self.db.backends@;
        let row = &mut self.db.backends[i];
        row.last_status = status;
        row.last_status_time = now;
        row.cluster_address = address;
        row.exit_code = exit_code;
        let entry = StatusLogRecord { backend: backend.clone(), status, created_at: now };
        proof {
            assert(self.db.backends@ =~= before.update(i as int, self.db.backends@[i as int]));
            lemma_views(before, self.db.backends@[i as int], i as int);
            lemma_views(self.db.log@, entry, 0);
        }
        self.db.log.push(entry);
        if plan.release_key {
            match self.db.find_key_of(backend) {
                Some(k) => {
                    proof {
                        lemma_views(self.db.keys@, self.db.keys@[0], k as int);
                    }
                    self.db.keys.remove(k);
                },
                None => {},
            }
        }
        let note = Notification {
            key: NotificationKey::Backend(backend.to_string()),
            payload: Payload::State(status),
            timestamp: now,
        };
        self.db.bus.publish(&note);
        Ok(())
    }

    /// Records a sign of life of a backend.
    pub fn update_keepalive(&mut self, backend_id: &BackendName, now: Timestamp) -> (r: Result<
        (),
        StoreError,
    >)
        requires
            old(self).store().wf(),
        ensures
            match update_keepalive_spec(old(self).store()@, backend_id@, now) {
                Ok(s) => r.is_ok() && final(self).store()@ == s,
                Err(e) => r == Err::<(), StoreError>(e)
                    && final(self).store()@ == old(self).store()@,
            },
            final(self).store().bus_view() == old(self).store().bus_view(),
            final(self).store().wf(),
            *final(final(self).db) == *final(old(self).db),
    {
        match self.db.find_backend(backend_id) {
            None => Err(StoreError::NotFound),
            Some(i) => {
                proof {
                    lemma_update_keepalive_wf(self.db@, backend_id@, now);
                }
                let ghost before = self.db.backends@;
                let row = &mut self.db.backends[i];
                row.last_keepalive = now;
                proof {
                    assert(self.db.backends@ =~= before.update(i as int, self.db.backends@[i as int]));
                    lemma_views(before, self.db.backends@[i as int], i as int);
                }
                Ok(())
            },
        }
    }

    /// The backends on `drone_id` that have not terminated and, at `now`,
    /// have been idle for longer than they are allowed or have outlived
    /// their time. Each comes with `now`, the time at which it was found due.
    pub fn termination_candidates(&self, drone_id: NodeId, now: Timestamp) -> (candidates: Vec<
        TerminationCandidate,
    >)
        ensures
            views(candidates@) == candidates_of(self.store()@.backends, drone_id, now),
    {
        let mut candidates: Vec<TerminationCandidate> = Vec::new();
        let mut i: usize = 0;
        while i < self.db.backends.len()
            invariant
                i <= self.db.backends@.len(),
                views(candidates@) == candidates_of(self.db@.backends.take(i as int), drone_id, now),
            decreases self.db.backends@.len() - i,
        {
            let row = &self.db.backends[i];
            proof {
                assert(self.db@.backends.take(i + 1).drop_last() == self.db@.backends.take(i as int));
                assert(self.db@.backends.take(i + 1).last() == row@);
            }
            if record_is_due(row, drone_id, now) {
                let candidate = TerminationCandidate {
                    backend_id: row.id.clone(),
                    expiration_time: row.expiration_time,
                    last_keepalive: row.last_keepalive,
                    allowed_idle_seconds: row.allowed_idle_seconds,
                    as_of: now,
                };
                proof {
                    lemma_views(candidates@, candidate, 0);
                }
                candidates.push(candidate);
            }
            i += 1;
        }
        proof {
            assert(self.db@.backends.take(self.db.backends@.len() as int) == self.db@.backends);
        }
        candidates
    }

    /// Where a token leads. `None` where the token is unknown or its backend
    /// has no address yet. The third way in which a token leads nowhere, an
    /// address that cannot be read, does not arise here: the store holds
    /// addresses, not text. Text that is no address exists only in stored
    /// rows, and `read_route_row` answers it with `None`.
    pub fn route_info_for_token(&self, token: &BearerToken) -> (r: Option<RouteInfo>)
        ensures
            opt_view(r) == route_of(self.store()@, token@),
    {
        let t = match self.db.find_token(token) {
            None => {
                return None;
            },
            Some(t) => t,
        };
        let row = &self.db.tokens[t];
        let b = match self.db.find_backend(&row.backend) {
            None => {
                return None;
            },
            Some(b) => b,
        };
        match &self.db.backends[b].cluster_address {
            None => None,
            Some(address) => Some(
                RouteInfo {
                    backend_id: row.backend.clone(),
                    address: *address,
                    secret_token: row.secret_token.clone(),
                    user: clone_opt_text(&row.username),
                    user_data: Some(row.auth.clone()),
                },
            ),
        }
    }

    /// The rows of the status log of `backend`, in order.
    pub fn status_history(&self, backend: &BackendName) -> (rows: Vec<TimestampedBackendStatus>)
        ensures
            rows@ == log_of(self.store()@.log, backend@),
    {
        let mut rows: Vec<TimestampedBackendStatus> = Vec::new();
        let mut i: usize = 0;
        while i < self.db.log.len()
            invariant
                i <= self.db.log@.len(),
                rows@ == log_of(self.db@.log.take(i as int), backend@),
            decreases self.db.log@.len() - i,
        {
            let entry = &self.db.log[i];
            proof {
                assert(self.db@.log.take(i + 1).drop_last() == self.db@.log.take(i as int));
                assert(self.db@.log.take(i + 1).last() == entry@);
            }
            if entry.backend.same_as(backend) {
                rows.push(TimestampedBackendStatus { status: entry.status, time: entry.created_at });
            }
            i += 1;
        }
        proof {
            assert(self.db@.log.take(self.db.log@.len() as int) == self.db@.log);
        }
        rows
    }
}

/// What a live subscription answered, as the stream takes it; `None` for a
/// notification that carries no status.
pub open spec fn live_item(received: ReceivedView) -> Option<LiveItem> {
    match received {
        ReceivedView::Event(note) => match note.payload {
            PayloadView::State(status) => Some(
                LiveItem::Event(TimestampedBackendStatus { status, time: note.timestamp }),
            ),
            PayloadView::Action(_) => None,
        },
        ReceivedView::Empty => Some(LiveItem::Idle),
        ReceivedView::Lagged => Some(LiveItem::Lagged),
        ReceivedView::Closed => Some(LiveItem::Closed),
    }
}

/// What the stream does with what a live subscription answered.
pub open spec fn step_for(last: Option<BackendStatus>, received: ReceivedView) -> StreamStep {
    match live_item(received) {
        Some(item) => next_step(last, item),
        None => StreamStep::Skip,
    }
}

/// The status stream of one backend: the rows that its log had when the
/// stream was opened, then what is announced of it, nothing twice.
pub struct StatusStream {
    /// The subscription to what is announced of the backend.
    pub subscription: SubscriptionHandle,
    pub state: StreamState,
    /// The rows that the log had when the stream was opened.
    pub history: Vec<TimestampedBackendStatus>,
    /// How many rows of `history` have been replayed.
    pub position: usize,
}

/// The model of a `StatusStream`.
pub struct StreamView {
    pub subscription: SubscriptionHandle,
    pub last_status: Option<BackendStatus>,
    pub history: Seq<TimestampedBackendStatus>,
    pub position: nat,
}

impl View for StatusStream {
    type V = StreamView;

    open spec fn view(&self) -> StreamView {
        StreamView {
            subscription: self.subscription,
            last_status: self.state.last_status,
            history: self.history@,
            position: self.position as nat,
        }
    }
}

/// One step of a stream on a bus: the stream and the bus afterwards, and
/// what the step gives.
///
/// A stream that has yielded `Terminated` has ended. Before that the rows
/// of the log are yielded one by one, and after them what the subscription
/// delivers, but for what repeats a status already yielded.
pub open spec fn next_of(stream: StreamView, bus: BusView) -> (StreamView, BusView, StreamStep) {
    if is_over(stream.last_status) {
        (stream, bus, StreamStep::End)
    } else if stream.position < stream.history.len() {
        let row = stream.history[stream.position as int];
        (
            StreamView {
                last_status: Some(raised(stream.last_status, row.status)),
                position: stream.position + 1,
                ..stream
            },
            bus,
            StreamStep::Yield(row),
        )
    } else {
        let taken = bus_taken(bus, stream.subscription);
        let step = step_for(stream.last_status, taken.1);
        (
            StreamView {
                last_status: match step {
                    StreamStep::Yield(event) => Some(event.status),
                    _ => stream.last_status,
                },
                ..stream
            },
            taken.0,
            step,
        )
    }
}

/// The stream and the bus after `steps` steps, and what the steps have
/// yielded, in order.
pub open spec fn ran_stream(stream: StreamView, bus: BusView, steps: nat) -> (
    StreamView,
    BusView,
    Seq<TimestampedBackendStatus>,
)
    decreases steps,
{
    if steps == 0 {
        (stream, bus, Seq::empty())
    } else {
        let before = ran_stream(stream, bus, (steps - 1) as nat);
        let next = next_of(before.0, before.1);
        (
            next.0,
            next.1,
            match next.2 {
                StreamStep::Yield(event) => before.2.push(event),
                _ => before.2,
            },
        )
    }
}

/// The statuses that the notifications of `queue` carry, with their times, in order.
pub open spec fn queued_statuses(queue: Seq<NotificationView>) -> Seq<TimestampedBackendStatus>
    decreases queue.len(),
{
    if queue.len() == 0 {
        Seq::empty()
    } else {
        let before = queued_statuses(queue.drop_last());
        match queue.last().payload {
            PayloadView::State(status) => before.push(
                TimestampedBackendStatus { status, time: queue.last().timestamp },
            ),
            PayloadView::Action(_) => before,
        }
    }
}

/// What a new stream has yielded after `steps` steps is what a stream
/// yields of the rows it has replayed and the notifications it has taken by
/// then; and unless it has ended, it has replayed or taken one with each step.
pub proof fn lemma_stream_run(stream: StreamView, bus: BusView, steps: nat)
    requires
        stream.position == 0,
        stream.last_status.is_none(),
        stream.subscription.index < bus.subscriptions.len(),
        !bus.subscriptions[stream.subscription.index as int].closed,
        !bus.subscriptions[stream.subscription.index as int].lagged,
        steps <= stream.history.len() + bus.subscriptions[stream.subscription.index as int].queue.len(),
    ensures
        ({
            let h = stream.history.len();
            let sub = bus.subscriptions[stream.subscription.index as int];
            let replayed_rows = if steps <= h {
                steps as int
            } else {
                h as int
            };
            let taken_notes = steps - replayed_rows;
            let after = ran_stream(stream, bus, steps);
            &&& (after.0.last_status, after.2) == drained(
                replayed(stream.history.take(replayed_rows)),
                queued_statuses(sub.queue.take(taken_notes)),
            )
            &&& after.0.history == stream.history
            &&& after.0.subscription == stream.subscription
            &&& after.1.subscriptions.len() == bus.subscriptions.len()
            &&& !is_over(after.0.last_status) ==> after.0.position == replayed_rows
                && after.1.subscriptions[stream.subscription.index as int] == (SubscriptionView {
                queue: sub.queue.skip(taken_notes),
                ..sub
            })
        }),
    decreases steps,
{
    let h = stream.history.len();
    let index = stream.subscription.index as int;
    let sub = bus.subscriptions[index];
    if steps == 0 {
        assert(stream.history.take(0) == Seq::<TimestampedBackendStatus>::empty());
        assert(sub.queue.take(0) == Seq::<NotificationView>::empty());
        assert(sub.queue.skip(0) == sub.queue);
    } else {
        let n = (steps - 1) as nat;
        lemma_stream_run(stream, bus, n);
        let before = ran_stream(stream, bus, n);
        if n < h {
            assert(stream.history.take(n as int + 1).drop_last() == stream.history.take(n as int));
            assert(stream.history.take(n as int + 1).last() == stream.history[n as int]);
            assert(sub.queue.take(0) == Seq::<NotificationView>::empty());
        } else {
            let b = n - h;
            assert(sub.queue.take(b + 1).drop_last() == sub.queue.take(b));
            assert(sub.queue.take(b + 1).last() == sub.queue[b]);
            assert(sub.queue.skip(b).skip(1) == sub.queue.skip(b + 1));
            if !is_over(before.0.last_status) {
                assert(sub.queue.skip(b)[0] == sub.queue[b]);
                let taken = bus_taken(before.1, stream.subscription);
                assert(taken.1 == ReceivedView::Event(sub.queue[b]));
                match sub.queue[b].payload {
                    PayloadView::State(status) => {
                        let event = TimestampedBackendStatus { status, time: sub.queue[b].timestamp };
                        let statuses = queued_statuses(sub.queue.take(b));
                        assert(queued_statuses(sub.queue.take(b + 1)) == statuses.push(event));
                        assert(statuses.push(event).drop_last() == statuses);
                    },
                    PayloadView::Action(_) => {},
                }
            } else {
                match sub.queue[b].payload {
                    PayloadView::State(status) => {
                        let event = TimestampedBackendStatus { status, time: sub.queue[b].timestamp };
                        let statuses = queued_statuses(sub.queue.take(b));
                        assert(statuses.push(event).drop_last() == statuses);
                    },
                    PayloadView::Action(_) => {},
                }
            }
        }
    }
}

/// A run of a stream yields the stream's output. A new stream that is
/// stepped once for each row it read and each notification queued for it
/// has yielded exactly what `stream_output` gives of these rows and the
/// statuses of these notifications.
pub proof fn lemma_stream_run_yields_output(stream: StreamView, bus: BusView)
    requires
        stream.position == 0,
        stream.last_status.is_none(),
        stream.subscription.index < bus.subscriptions.len(),
        !bus.subscriptions[stream.subscription.index as int].closed,
        !bus.subscriptions[stream.subscription.index as int].lagged,
    ensures
        ran_stream(
            stream,
            bus,
            stream.history.len() + bus.subscriptions[stream.subscription.index as int].queue.len(),
        ).2 == stream_output(
            stream.history,
            queued_statuses(bus.subscriptions[stream.subscription.index as int].queue),
        ),
{
    let queue = bus.subscriptions[stream.subscription.index as int].queue;
    lemma_stream_run(stream, bus, stream.history.len() + queue.len());
    assert(stream.history.take(stream.history.len() as int) == stream.history);
    assert(queue.take(queue.len() as int) == queue);
}

impl StatusStream {
    /// Moves the stream on by one step.
    ///
    /// A stream that has yielded `Terminated` has ended. Before that the
    /// rows of the log are yielded one by one, and after them what the
    /// subscription delivers, but for what repeats a status already yielded.
    pub fn next(&mut self, db: &mut PlaneDatabase) -> (step: StreamStep)
        ensures
            final(db)@ == old(db)@,
            (final(self)@, final(db).bus_view(), step) == next_of(old(self)@, old(db).bus_view()),
    {
        if self.state.is_finished() {
            return StreamStep::End;
        }
        if self.position < self.history.len() {
            let row = self.history[self.position];
            self.position = self.position + 1;
            match self.state.replay(row) {
                Some(r) => StreamStep::Yield(r),
                None => StreamStep::End,
            }
        } else {
            match db.bus.next(self.subscription) {
                Received::Event(note) => match note.payload {
                    Payload::State(status) => self.state.step(
                        LiveItem::Event(TimestampedBackendStatus { status, time: note.timestamp }),
                    ),
                    Payload::Action(_) => StreamStep::Skip,
                },
                Received::Empty => self.state.step(LiveItem::Idle),
                Received::Lagged => self.state.step(LiveItem::Lagged),
                Received::Closed => self.state.step(LiveItem::Closed),
            }
        }
    }

    /// Ends the stream: its subscription is closed.
    pub fn close(self, db: &mut PlaneDatabase)
        ensures
            final(db)@ == old(db)@,
            final(db).bus_view() == bus_closed(old(db).bus_view(), self.subscription),
    {
        db.unsubscribe(self.subscription);
    }
}

impl<'a> BackendDatabase<'a> {
    /// Opens the status stream of a backend. The subscription is made
    /// before the log is read, so that no status is lost between the two.
    pub fn status_stream(&mut self, backend: &BackendName) -> (stream: StatusStream)
        ensures
            final(self).store()@ == old(self).store()@,
            stream.subscription.index == old(self).store().bus_view().subscriptions.len(),
            final(self).store().bus_view() == (BusView {
                subscriptions: old(self).store().bus_view().subscriptions.push(
                    SubscriptionView {
                        kind: NotificationKind::BackendState,
                        key: KeyTopic::Backend(backend@),
                        queue: Seq::empty(),
                        lagged: false,
                        closed: false,
                    },
                ),
                ..old(self).store().bus_view()
            }),
            stream.history@ == log_of(old(self).store()@.log, backend@),
            stream.position == 0,
            stream.state.last_status.is_none(),
            *final(final(self).db) == *final(old(self).db),
    {
        let subscription = self.db.bus.subscribe(
            NotificationKind::BackendState,
            NotificationKey::Backend(backend.to_string()),
        );
        let history = self.status_history(backend);
        StatusStream { subscription, state: StreamState::new(), history, position: 0 }
    }
}

} // verus!
