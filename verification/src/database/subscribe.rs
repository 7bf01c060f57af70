//! The event bus: notifications, keyed by kind and key, fanned out to the
//! subscribers of that kind and key in the order in which they were committed.
//!
//! A writer stages its notifications on a transaction. They reach the
//! subscribers when the transaction commits and are dropped when it is rolled
//! back, so that a notification is seen exactly when the write that caused it
//! has lasted. Each subscriber has a queue of bounded length; a subscriber
//! whose queue is full when a notification arrives has lagged: it loses what
//! was queued and gets no more.

use vstd::prelude::*;
use crate::names::NodeId;
use crate::protocol::{ActionMessageView, BackendActionMessage};
use crate::status::{BackendStatus, Timestamp};

verus! {

/// The kinds of notification. The kind fixes what a notification carries.
#[derive(Clone, Copy, Debug, PartialEq, Eq, Structural, Hash)]
pub enum NotificationKind {
    /// A backend took a status; keyed by the backend's name.
    BackendState,
    /// A drone is asked to act on a backend; keyed by the drone's identifier.
    BackendAction,
}

impl NotificationKind {
    /// The name of the kind.
    pub open spec fn text(self) -> Seq<char> {
        match self {
            NotificationKind::BackendState => "backend_state"@,
            NotificationKind::BackendAction => "backend_action"@,
        }
    }

    /// The kind that `text` names, if it names one.
    pub open spec fn parse(text: Seq<char>) -> Option<NotificationKind> {
        if text == "backend_state"@ {
            Some(NotificationKind::BackendState)
        } else if text == "backend_action"@ {
            Some(NotificationKind::BackendAction)
        } else {
            None
        }
    }

    pub fn to_string(self) -> (s: String)
        ensures
            s@ == self.text(),
    {
        match self {
            NotificationKind::BackendState => "backend_state".to_owned(),
            NotificationKind::BackendAction => "backend_action".to_owned(),
        }
    }

    /// Reads the name of a kind. Text that names no kind gives `None`.
    pub fn try_from_text(text: &String) -> (r: Option<NotificationKind>)
        ensures
            r == NotificationKind::parse(text@),
    {
        if *text == "backend_state".to_owned() {
            Some(NotificationKind::BackendState)
        } else if *text == "backend_action".to_owned() {
            Some(NotificationKind::BackendAction)
        } else {
            None
        }
    }
}

/// The names of the kinds are distinct: reading back the name of a kind gives that kind.
pub proof fn lemma_kind_text_round_trip(kind: NotificationKind)
    ensures
        NotificationKind::parse(kind.text()) == Some(kind),
{
    reveal_strlit("backend_state");
    reveal_strlit("backend_action");
    assert("backend_state"@.len() == 13);
    assert("backend_action"@.len() == 14);
}

/// What a notification carries.
#[derive(Debug, PartialEq, Eq)]
pub enum Payload {
    State(BackendStatus),
    Action(BackendActionMessage),
}

/// The model of a `Payload`.
pub enum PayloadView {
    State(BackendStatus),
    Action(ActionMessageView),
}

impl PayloadView {
    /// The kind under which the payload is published.
    pub open spec fn kind(self) -> NotificationKind {
        match self {
            PayloadView::State(_) => NotificationKind::BackendState,
            PayloadView::Action(_) => NotificationKind::BackendAction,
        }
    }
}

impl View for Payload {
    type V = PayloadView;

    open spec fn view(&self) -> PayloadView {
        match *self {
            Payload::State(status) => PayloadView::State(status),
            Payload::Action(message) => PayloadView::Action(message@),
        }
    }
}

impl Clone for Payload {
    fn clone(&self) -> (r: Self)
        ensures
            r == *self,
    {
        match self {
            Payload::State(status) => Payload::State(*status),
            Payload::Action(message) => Payload::Action(message.clone()),
        }
    }
}

impl Payload {
    /// The kind under which the payload is published.
    pub fn kind(&self) -> (k: NotificationKind)
        ensures
            k == self@.kind(),
    {
        match self {
            Payload::State(_) => NotificationKind::BackendState,
            Payload::Action(_) => NotificationKind::BackendAction,
        }
    }
}

/// What notifications of one kind are told apart by.
#[derive(Debug, PartialEq, Eq, Hash)]
pub enum NotificationKey {
    /// The name of a backend.
    Backend(String),
    /// The identifier of a node.
    Node(NodeId),
}

/// The model of a `NotificationKey`.
pub enum KeyTopic {
    Backend(Seq<char>),
    Node(NodeId),
}

impl View for NotificationKey {
    type V = KeyTopic;

    open spec fn view(&self) -> KeyTopic {
        match *self {
            NotificationKey::Backend(name) => KeyTopic::Backend(name@),
            NotificationKey::Node(id) => KeyTopic::Node(id),
        }
    }
}

impl Clone for NotificationKey {
    fn clone(&self) -> (r: Self)
        ensures
            r == *self,
    {
        match self {
            NotificationKey::Backend(name) => NotificationKey::Backend(name.clone()),
            NotificationKey::Node(id) => NotificationKey::Node(*id),
        }
    }
}

impl NotificationKey {
    pub fn same_as(&self, other: &NotificationKey) -> (r: bool)
        ensures
            r == (self@ == other@),
    {
        match (self, other) {
            (NotificationKey::Backend(a), NotificationKey::Backend(b)) => *a == *b,
            (NotificationKey::Node(a), NotificationKey::Node(b)) => *a == *b,
            _ => false,
        }
    }
}

/// A payload under its key, with the time at which it was emitted.
#[derive(Debug, PartialEq, Eq)]
pub struct Notification {
    pub key: NotificationKey,
    pub payload: Payload,
    pub timestamp: Timestamp,
}

/// The model of a `Notification`.
pub struct NotificationView {
    pub key: KeyTopic,
    pub payload: PayloadView,
    pub timestamp: Timestamp,
}

impl View for Notification {
    type V = NotificationView;

    open spec fn view(&self) -> NotificationView {
        NotificationView { key: self.key@, payload: self.payload@, timestamp: self.timestamp }
    }
}

impl Clone for Notification {
    fn clone(&self) -> (r: Self)
        ensures
            r == *self,
    {
        Notification {
            key: self.key.clone(),
            payload: self.payload.clone(),
            timestamp: self.timestamp,
        }
    }
}

/// The views of the notifications of `notes`, in order.
pub open spec fn note_views(notes: Seq<Notification>) -> Seq<NotificationView> {
    Seq::new(notes.len(), |i: int| notes[i]@)
}

/// One subscriber's end of the bus.
pub struct Subscription {
    pub kind: NotificationKind,
    pub key: NotificationKey,
    /// What was delivered and not yet taken, oldest first.
    pub queue: Vec<Notification>,
    pub lagged: bool,
    pub closed: bool,
}

/// The model of a `Subscription`.
pub struct SubscriptionView {
    pub kind: NotificationKind,
    pub key: KeyTopic,
    pub queue: Seq<NotificationView>,
    pub lagged: bool,
    pub closed: bool,
}

impl View for Subscription {
    type V = SubscriptionView;

    open spec fn view(&self) -> SubscriptionView {
        SubscriptionView {
            kind: self.kind,
            key: self.key@,
            queue: note_views(self.queue@),
            lagged: self.lagged,
            closed: self.closed,
        }
    }
}

/// Names a subscription of a bus.
#[derive(Clone, Copy, Debug, PartialEq, Eq, Structural, Hash)]
pub struct SubscriptionHandle {
    pub index: usize,
}

/// What a subscriber gets when it asks for its next notification.
#[derive(Debug, PartialEq, Eq)]
pub enum Received {
    /// The oldest notification that was queued.
    Event(Notification),
    /// Nothing is queued at present.
    Empty,
    /// The subscriber lagged. It must subscribe anew and start from the store.
    Lagged,
    /// The subscription was closed, or the handle names none.
    Closed,
}

/// The model of a `Received`.
pub enum ReceivedView {
    Event(NotificationView),
    Empty,
    Lagged,
    Closed,
}

impl View for Received {
    type V = ReceivedView;

    open spec fn view(&self) -> ReceivedView {
        match *self {
            Received::Event(note) => ReceivedView::Event(note@),
            Received::Empty => ReceivedView::Empty,
            Received::Lagged => ReceivedView::Lagged,
            Received::Closed => ReceivedView::Closed,
        }
    }
}

/// The model of an `EventBus`.
pub struct BusView {
    pub subscriptions: Seq<SubscriptionView>,
    /// How many notifications a subscriber's queue can hold.
    pub capacity: nat,
}

/// Whether a notification is one of `kind` under `key`.
pub open spec fn addressed(kind: NotificationKind, key: KeyTopic, note: NotificationView) -> bool {
    kind == note.payload.kind() && key == note.key
}

/// Whether `sub` is to get `note`.
pub open spec fn receives(sub: SubscriptionView, note: NotificationView) -> bool {
    !sub.closed && !sub.lagged && addressed(sub.kind, sub.key, note)
}

/// Whether a subscriber to the notifications of `kind` under `key` is to get `note`.
pub fn is_addressed(kind: NotificationKind, key: &NotificationKey, note: &Notification) -> (r: bool)
    ensures
        r == addressed(kind, key@, note@),
{
    kind == note.payload.kind() && key.same_as(&note.key)
}

/// A subscription after `note` was published.
pub open spec fn delivered(sub: SubscriptionView, note: NotificationView, capacity: nat) -> SubscriptionView {
    if !receives(sub, note) {
        sub
    } else if sub.queue.len() < capacity {
        SubscriptionView { queue: sub.queue.push(note), ..sub }
    } else {
        SubscriptionView { queue: Seq::empty(), lagged: true, ..sub }
    }
}

/// The bus after `note` was published.
pub open spec fn published(bus: BusView, note: NotificationView) -> BusView {
    BusView {
        subscriptions: Seq::new(
            bus.subscriptions.len(),
            |i: int| delivered(bus.subscriptions[i], note, bus.capacity),
        ),
        ..bus
    }
}

/// The bus after the notifications of `notes` were published in order.
pub open spec fn published_all(bus: BusView, notes: Seq<NotificationView>) -> BusView
    decreases notes.len(),
{
    if notes.len() == 0 {
        bus
    } else {
        published(published_all(bus, notes.drop_last()), notes.last())
    }
}

/// A subscription after its owner asked for the next notification, and what the owner got.
pub open spec fn taken(sub: SubscriptionView) -> (SubscriptionView, ReceivedView) {
    if sub.closed {
        (sub, ReceivedView::Closed)
    } else if sub.lagged {
        (sub, ReceivedView::Lagged)
    } else if sub.queue.len() == 0 {
        (sub, ReceivedView::Empty)
    } else {
        (SubscriptionView { queue: sub.queue.skip(1), ..sub }, ReceivedView::Event(sub.queue[0]))
    }
}

/// What the subscription `handle` of `bus` answers next, and the bus afterwards.
pub open spec fn bus_taken(bus: BusView, handle: SubscriptionHandle) -> (BusView, ReceivedView) {
    if handle.index >= bus.subscriptions.len() {
        (bus, ReceivedView::Closed)
    } else {
        (
            BusView {
                subscriptions: bus.subscriptions.update(
                    handle.index as int,
                    taken(bus.subscriptions[handle.index as int]).0,
                ),
                ..bus
            },
            taken(bus.subscriptions[handle.index as int]).1,
        )
    }
}

/// The bus after the subscription `handle` was closed: what was queued for
/// it is dropped and it gets no more. A handle that names no subscription
/// changes nothing.
pub open spec fn bus_closed(bus: BusView, handle: SubscriptionHandle) -> BusView {
    if handle.index >= bus.subscriptions.len() {
        bus
    } else {
        BusView {
            subscriptions: bus.subscriptions.update(
                handle.index as int,
                SubscriptionView {
                    queue: Seq::empty(),
                    closed: true,
                    ..bus.subscriptions[handle.index as int]
                },
            ),
            ..bus
        }
    }
}

/// The notifications that a writer has emitted and not yet committed.
pub struct Transaction {
    pub staged: Vec<Notification>,
}

impl View for Transaction {
    type V = Seq<NotificationView>;

    open spec fn view(&self) -> Seq<NotificationView> {
        note_views(self.staged@)
    }
}

impl Transaction {
    /// A transaction with nothing staged.
    pub fn begin() -> (txn: Transaction)
        ensures
            txn@ == Seq::<NotificationView>::empty(),
    {
        let txn = Transaction { staged: Vec::new() };
        assert(txn@ =~= Seq::<NotificationView>::empty());
        txn
    }

    /// Stages a notification. No subscriber sees it before the transaction commits.
    pub fn emit(&mut self, key: NotificationKey, payload: Payload, timestamp: Timestamp)
        ensures
            final(self)@ == old(self)@.push(
                NotificationView { key: key@, payload: payload@, timestamp },
            ),
    {
        self.staged.push(Notification { key, payload, timestamp });
        assert(self@ =~= old(self)@.push(NotificationView { key: key@, payload: payload@, timestamp }));
    }

    /// Gives the transaction up. What was staged reaches nobody.
    pub fn rollback(self) {
    }
}

/// The bus.
pub struct EventBus {
    pub subscriptions: Vec<Subscription>,
    pub capacity: usize,
}

impl View for EventBus {
    type V = BusView;

    open spec fn view(&self) -> BusView {
        BusView {
            subscriptions: Seq::new(self.subscriptions@.len(), |i: int| self.subscriptions@[i]@),
            capacity: self.capacity as nat,
        }
    }
}

impl EventBus {
    /// A bus without subscribers, on which each subscriber to come can have
    /// `capacity` notifications queued.
    pub fn new(capacity: usize) -> (bus: EventBus)
        ensures
            bus@.subscriptions.len() == 0,
            bus@.capacity == capacity,
    {
        EventBus { subscriptions: Vec::new(), capacity }
    }

    /// Opens a subscription to the notifications of `kind` under `key` that
    /// are published from now on.
    pub fn subscribe(&mut self, kind: NotificationKind, key: NotificationKey) -> (handle: SubscriptionHandle)
        ensures
            handle.index == old(self)@.subscriptions.len(),
            final(self)@ == (BusView {
                subscriptions: old(self)@.subscriptions.push(
                    SubscriptionView {
                        kind,
                        key: key@,
                        queue: Seq::empty(),
                        lagged: false,
                        closed: false,
                    },
                ),
                ..old(self)@
            }),
    {
        let index = self.subscriptions.len();
        let sub = Subscription { kind, key, queue: Vec::new(), lagged: false, closed: false };
        assert(sub@.queue =~= Seq::<NotificationView>::empty());
        self.subscriptions.push(sub);
        assert(self@.subscriptions =~= old(self)@.subscriptions.push(sub@));
        SubscriptionHandle { index }
    }

    /// Publishes one notification to the subscribers of its kind and key.
    pub fn publish(&mut self, note: &Notification)
        ensures
            final(self)@ == published(old(self)@, note@),
    {
        let n = self.subscriptions.len();
        let capacity = self.capacity;
        let mut i: usize = 0;
        while i < n
            invariant
                i <= n,
                n == self.subscriptions@.len(),
                n == old(self).subscriptions@.len(),
                capacity == old(self).capacity,
                self.capacity == capacity,
                forall|j: int|
                    0 <= j < i ==> (#[trigger] self.subscriptions@[j])@ == delivered(
                        old(self).subscriptions@[j]@,
                        note@,
                        capacity as nat,
                    ),
                forall|j: int|
                    i <= j < n ==> #[trigger] self.subscriptions@[j] == old(self).subscriptions@[j],
            decreases n - i,
        {
            let ghost before = self.subscriptions@;
            let sub = &mut self.subscriptions[i];
            if !sub.closed && !sub.lagged && is_addressed(sub.kind, &sub.key, note) {
                if sub.queue.len() < capacity {
                    let ghost queue = sub.queue@;
                    sub.queue.push(note.clone());
                    assert(note_views(sub.queue@) =~= note_views(queue).push(note@));
                } else {
                    sub.queue = Vec::new();
                    sub.lagged = true;
                    assert(note_views(sub.queue@) =~= Seq::<NotificationView>::empty());
                }
            }
            assert(forall|j: int| 0 <= j < n && j != i ==> self.subscriptions@[j] == before[j]);
            i += 1;
        }
        assert(self@.subscriptions =~= published(old(self)@, note@).subscriptions);
    }

    /// Commits a transaction: what it staged is published, in the order in which it was staged.
    pub fn commit(&mut self, txn: Transaction)
        ensures
            final(self)@ == published_all(old(self)@, txn@),
    {
        let mut i: usize = 0;
        while i < txn.staged.len()
            invariant
                i <= txn.staged@.len(),
                self@ == published_all(old(self)@, txn@.take(i as int)),
            decreases txn.staged@.len() - i,
        {
            proof {
                assert(txn@.take(i + 1).drop_last() == txn@.take(i as int));
                assert(txn@.take(i + 1).last() == txn.staged@[i as int]@);
            }
            self.publish(&txn.staged[i]);
            i += 1;
        }
        proof {
            assert(txn@.take(txn.staged@.len() as int) == txn@);
        }
    }

    /// Takes the next notification of a subscription.
    pub fn next(&mut self, handle: SubscriptionHandle) -> (r: Received)
        ensures
            r@ == bus_taken(old(self)@, handle).1,
            final(self)@ == bus_taken(old(self)@, handle).0,
    {
        if handle.index >= self.subscriptions.len() {
            return Received::Closed;
        }
        let ghost before = self.subscriptions@;
        let sub = &mut self.subscriptions[handle.index];
        let r = if sub.closed {
            Received::Closed
        } else if sub.lagged {
            Received::Lagged
        } else if sub.queue.len() == 0 {
            Received::Empty
        } else {
            let ghost queue = sub.queue@;
            let note = sub.queue.remove(0);
            assert(note_views(sub.queue@) =~= note_views(queue).skip(1));
            Received::Event(note)
        };
        assert(forall|j: int|
            0 <= j < before.len() && j != handle.index ==> self.subscriptions@[j] == before[j]);
        assert(self@.subscriptions =~= old(self)@.subscriptions.update(
            handle.index as int,
            taken(old(self)@.subscriptions[handle.index as int]).0,
        ));
        r
    }

    /// Closes a subscription. What was queued for it is dropped.
    pub fn close(&mut self, handle: SubscriptionHandle)
        ensures
            final(self)@ == bus_closed(old(self)@, handle),
    {
        if handle.index < self.subscriptions.len() {
            let ghost before = self.subscriptions@;
            let sub = &mut self.subscriptions[handle.index];
            sub.queue = Vec::new();
            sub.closed = true;
            assert(note_views(sub.queue@) =~= Seq::<NotificationView>::empty());
            assert(forall|j: int|
                0 <= j < before.len() && j != handle.index ==> self.subscriptions@[j] == before[j]);
            assert(self@.subscriptions =~= old(self)@.subscriptions.update(
                handle.index as int,
                SubscriptionView {
                    queue: Seq::empty(),
                    closed: true,
                    ..old(self)@.subscriptions[handle.index as int]
                },
            ));
        }
    }
}

} // verus!
