//! The status stream of one backend: the rows already in the status log,
//! followed by live notifications, with nothing lost and nothing repeated
//! where the two overlap.
//!
//! A subscriber first subscribes to live notifications and only then reads the
//! log. Notifications that arrive between the two are therefore delivered
//! twice, once as a log row and once live. Because statuses only advance, a
//! live notification that is not later than the last status yielded is such a
//! repetition and is dropped.

use vstd::prelude::*;
use crate::status::{later_of, BackendStatus, Timestamp, TimestampedBackendStatus};

verus! {

/// A row of the status log as it is stored: the status is text. Rows are
/// handed over in the order in which they were written.
pub struct StatusRow {
    pub created_at: Timestamp,
    pub status: String,
}

/// What has been yielded so far, as far as the rest of the stream depends on it.
#[derive(Clone, Copy, Debug, PartialEq, Eq, Structural)]
pub struct StreamState {
    /// The latest status yielded so far; `None` before the first.
    pub last_status: Option<BackendStatus>,
}

/// How a live subscription can answer a request for its next item.
#[derive(Clone, Copy, Debug, PartialEq, Eq, Structural)]
pub enum LiveItem {
    /// A notification was delivered.
    Event(TimestampedBackendStatus),
    /// Nothing was delivered yet.
    Idle,
    /// The subscriber fell behind and the subscription was closed.
    Lagged,
    /// The subscription ended.
    Closed,
}

/// What the stream does with one live item.
#[derive(Clone, Copy, Debug, PartialEq, Eq, Structural)]
pub enum StreamStep {
    /// Hand this status to the consumer and go on.
    Yield(TimestampedBackendStatus),
    /// Nothing to hand on; ask for the next item.
    Skip,
    /// Nothing to hand on until something is delivered.
    Wait,
    /// The stream is complete.
    End,
    /// The stream failed because the subscriber lagged; open a new one.
    Lag,
}

/// The later of the last status yielded and `status`.
pub open spec fn raised(last: Option<BackendStatus>, status: BackendStatus) -> BackendStatus {
    match last {
        None => status,
        Some(l) => later_of(l, status),
    }
}

/// A stream is over once `Terminated` has been yielded.
pub open spec fn is_over(last: Option<BackendStatus>) -> bool {
    last == Some(BackendStatus::Terminated)
}

/// A live status repeats what was already yielded when it is not later than
/// the last status yielded.
pub open spec fn is_repetition(last: Option<BackendStatus>, status: BackendStatus) -> bool {
    match last {
        None => false,
        Some(l) => status.spec_le(l),
    }
}

/// The state and the output after the rows of `history` have been replayed in
/// order: every row is yielded until `Terminated` has been yielded.
pub open spec fn replayed(history: Seq<TimestampedBackendStatus>) -> (
    Option<BackendStatus>,
    Seq<TimestampedBackendStatus>,
)
    decreases history.len(),
{
    if history.len() == 0 {
        (None, Seq::empty())
    } else {
        let before = replayed(history.drop_last());
        let row = history.last();
        if is_over(before.0) {
            before
        } else {
            (Some(raised(before.0, row.status)), before.1.push(row))
        }
    }
}

/// The state and the output after the live notifications `live` have been
/// taken in order, starting from `start`: a notification is yielded unless the
/// stream is over or the notification repeats what was yielded.
pub open spec fn drained(
    start: (Option<BackendStatus>, Seq<TimestampedBackendStatus>),
    live: Seq<TimestampedBackendStatus>,
) -> (Option<BackendStatus>, Seq<TimestampedBackendStatus>)
    decreases live.len(),
{
    if live.len() == 0 {
        start
    } else {
        let before = drained(start, live.drop_last());
        let event = live.last();
        if is_over(before.0) || is_repetition(before.0, event.status) {
            before
        } else {
            (Some(event.status), before.1.push(event))
        }
    }
}

/// Everything a subscriber observes, given the log rows it read and the live
/// notifications delivered to its subscription.
pub open spec fn stream_output(
    history: Seq<TimestampedBackendStatus>,
    live: Seq<TimestampedBackendStatus>,
) -> Seq<TimestampedBackendStatus> {
    drained(replayed(history), live).1
}

/// The rows of `rows` whose status text names a status, in order.
pub open spec fn decoded_rows(rows: Seq<StatusRow>) -> Seq<TimestampedBackendStatus>
    decreases rows.len(),
{
    if rows.len() == 0 {
        Seq::empty()
    } else {
        let before = decoded_rows(rows.drop_last());
        let row = rows.last();
        match BackendStatus::parse(row.status@) {
            Some(status) => before.push(TimestampedBackendStatus { status, time: row.created_at }),
            None => before,
        }
    }
}

/// Reads stored log rows. A row whose status text names no status is left out.
pub fn decode_status_rows(rows: &Vec<StatusRow>) -> (out: Vec<TimestampedBackendStatus>)
    ensures
        out@ == decoded_rows(rows@),
{
    let mut out: Vec<TimestampedBackendStatus> = Vec::new();
    let mut i: usize = 0;
    while i < rows.len()
        invariant
            i <= rows.len(),
            out@ == decoded_rows(rows@.take(i as int)),
        decreases rows.len() - i,
    {
        proof {
            assert(rows@.take(i + 1).drop_last() == rows@.take(i as int));
        }
        match BackendStatus::try_from_text(&rows[i].status) {
            Some(status) => {
                out.push(TimestampedBackendStatus { status, time: rows[i].created_at });
            },
            None => {},
        }
        i += 1;
    }
    proof {
        assert(rows@.take(rows.len() as int) == rows@);
    }
    out
}

impl StreamState {
    /// The state of a stream that has yielded nothing.
    pub fn new() -> (s: StreamState)
        ensures
            s.last_status.is_none(),
    {
        StreamState { last_status: None }
    }

    /// Whether `Terminated` has been yielded.
    pub fn is_finished(&self) -> (r: bool)
        ensures
            r == is_over(self.last_status),
    {
        match self.last_status {
            Some(l) => l.is_terminated(),
            None => false,
        }
    }

    /// Replays one row of the log. The row is handed back when it is to be
    /// yielded, which is unless the stream is over.
    pub fn replay(&mut self, row: TimestampedBackendStatus) -> (r: Option<TimestampedBackendStatus>)
        ensures
            is_over(old(self).last_status) ==> r.is_none() && *final(self) == *old(self),
            !is_over(old(self).last_status) ==> r == Some(row) && final(self).last_status == Some(
                raised(old(self).last_status, row.status),
            ),
    {
        if self.is_finished() {
            return None;
        }
        let next = match self.last_status {
            None => row.status,
            Some(l) => if l.le(row.status) {
                row.status
            } else {
                l
            },
        };
        self.last_status = Some(next);
        Some(row)
    }

    /// Takes one live notification. The notification is handed back when it
    /// is to be yielded: the stream is not over and the status is later than
    /// the last one yielded.
    pub fn accept(&mut self, event: TimestampedBackendStatus) -> (r: Option<TimestampedBackendStatus>)
        ensures
            is_over(old(self).last_status) || is_repetition(old(self).last_status, event.status)
                ==> r.is_none() && *final(self) == *old(self),
            !(is_over(old(self).last_status) || is_repetition(old(self).last_status, event.status))
                ==> r == Some(event) && final(self).last_status == Some(event.status),
    {
        if self.is_finished() {
            return None;
        }
        let repeats = match self.last_status {
            None => false,
            Some(l) => event.status.le(l),
        };
        if repeats {
            None
        } else {
            self.last_status = Some(event.status);
            Some(event)
        }
    }

    /// Decides what to do with the next answer of the live subscription.
    ///
    /// A stream that is over ends whatever the answer. Otherwise a lagging
    /// subscription fails the stream, a closed one ends it, an idle one makes
    /// it wait, and a notification is yielded unless it repeats what was yielded.
    pub fn step(&mut self, item: LiveItem) -> (r: StreamStep)
        ensures
            r == next_step(old(self).last_status, item),
            final(self).last_status == (match r {
                StreamStep::Yield(event) => Some(event.status),
                _ => old(self).last_status,
            }),
    {
        if self.is_finished() {
            return StreamStep::End;
        }
        match item {
            LiveItem::Idle => StreamStep::Wait,
            LiveItem::Lagged => StreamStep::Lag,
            LiveItem::Closed => StreamStep::End,
            LiveItem::Event(event) => {
                match self.accept(event) {
                    Some(e) => StreamStep::Yield(e),
                    None => StreamStep::Skip,
                }
            },
        }
    }
}

/// What a stream whose last yielded status is `last` does with `item`.
pub open spec fn next_step(last: Option<BackendStatus>, item: LiveItem) -> StreamStep {
    if is_over(last) {
        StreamStep::End
    } else {
        match item {
            LiveItem::Idle => StreamStep::Wait,
            LiveItem::Lagged => StreamStep::Lag,
            LiveItem::Closed => StreamStep::End,
            LiveItem::Event(event) => if is_repetition(last, event.status) {
                StreamStep::Skip
            } else {
                StreamStep::Yield(event)
            },
        }
    }
}

/// Runs a whole stream over the log rows read at subscription time and the
/// live notifications delivered afterwards, and collects what is yielded.
pub fn collect_stream(
    history: &Vec<TimestampedBackendStatus>,
    live: &Vec<TimestampedBackendStatus>,
) -> (out: Vec<TimestampedBackendStatus>)
    ensures
        out@ == stream_output(history@, live@),
{
    let mut state = StreamState::new();
    let mut out: Vec<TimestampedBackendStatus> = Vec::new();
    let mut i: usize = 0;
    while i < history.len()
        invariant
            i <= history.len(),
            (state.last_status, out@) == replayed(history@.take(i as int)),
        decreases history.len() - i,
    {
        proof {
            assert(history@.take(i + 1).drop_last() == history@.take(i as int));
        }
        match state.replay(history[i]) {
            Some(row) => {
                out.push(row);
            },
            None => {},
        }
        i += 1;
    }
    proof {
        assert(history@.take(history.len() as int) == history@);
    }
    let mut j: usize = 0;
    while j < live.len()
        invariant
            j <= live.len(),
            (state.last_status, out@) == drained(replayed(history@), live@.take(j as int)),
        decreases live.len() - j,
    {
        proof {
            assert(live@.take(j + 1).drop_last() == live@.take(j as int));
        }
        match state.accept(live[j]) {
            Some(event) => {
                out.push(event);
            },
            None => {},
        }
        j += 1;
    }
    proof {
        assert(live@.take(live.len() as int) == live@);
    }
    out
}

/// Statuses never go back along `s`.
pub open spec fn non_decreasing(s: Seq<TimestampedBackendStatus>) -> bool {
    forall|a: int, b: int| 0 <= a <= b < s.len() ==> s[a].status.spec_le(s[b].status)
}

/// Every status along `s` is later than the one before it.
pub open spec fn strictly_increasing(s: Seq<TimestampedBackendStatus>) -> bool {
    forall|a: int, b: int| 0 <= a < b < s.len() ==> s[a].status.spec_lt(s[b].status)
}

/// `Terminated` occurs in `s` at the last place or not at all.
pub open spec fn ends_at_terminated(s: Seq<TimestampedBackendStatus>) -> bool {
    forall|a: int| 0 <= a < s.len() && s[a].status == BackendStatus::Terminated ==> a == s.len() - 1
}

/// The status of the last element of `s`, if `s` has one.
pub open spec fn last_status_of(s: Seq<TimestampedBackendStatus>) -> Option<BackendStatus> {
    if s.len() == 0 {
        None
    } else {
        Some(s.last().status)
    }
}

/// Taking `a` and then `b` is the same as taking `a + b`.
pub proof fn lemma_drained_concat(
    start: (Option<BackendStatus>, Seq<TimestampedBackendStatus>),
    a: Seq<TimestampedBackendStatus>,
    b: Seq<TimestampedBackendStatus>,
)
    ensures
        drained(start, a + b) == drained(drained(start, a), b),
    decreases b.len(),
{
    if b.len() == 0 {
        assert(a + b == a);
    } else {
        lemma_drained_concat(start, a, b.drop_last());
        assert((a + b).drop_last() == a + b.drop_last());
        assert((a + b).last() == b.last());
    }
}

/// After a replay the stream is over, or the last status yielded is at least
/// every status of the replayed rows.
pub proof fn lemma_replayed_covers_history(history: Seq<TimestampedBackendStatus>)
    ensures
        history.len() > 0 ==> replayed(history).0.is_some(),
        is_over(replayed(history).0) || forall|i: int|
            0 <= i < history.len() ==> is_repetition(replayed(history).0, #[trigger] history[i].status),
    decreases history.len(),
{
    if history.len() > 0 {
        lemma_replayed_covers_history(history.drop_last());
        let before = replayed(history.drop_last());
        if !is_over(before.0) && !is_over(replayed(history).0) {
            assert forall|i: int| 0 <= i < history.len() implies is_repetition(
                replayed(history).0,
                #[trigger] history[i].status,
            ) by {
                if i < history.len() - 1 {
                    assert(history.drop_last()[i] == history[i]);
                    assert(is_repetition(before.0, history.drop_last()[i].status));
                }
            }
        }
    }
}

/// Live notifications that are all repetitions change nothing.
pub proof fn lemma_repetitions_are_dropped(
    start: (Option<BackendStatus>, Seq<TimestampedBackendStatus>),
    events: Seq<TimestampedBackendStatus>,
)
    requires
        is_over(start.0) || forall|i: int|
            0 <= i < events.len() ==> is_repetition(start.0, #[trigger] events[i].status),
    ensures
        drained(start, events) == start,
    decreases events.len(),
{
    if events.len() > 0 {
        assert forall|i: int| 0 <= i < events.drop_last().len() implies is_repetition(
            start.0,
            #[trigger] events.drop_last()[i].status,
        ) || is_over(start.0) by {
            assert(events.drop_last()[i] == events[i]);
        }
        lemma_repetitions_are_dropped(start, events.drop_last());
        assert(events.last() == events[events.len() - 1]);
    }
}

/// The log `log` grows while a subscriber opens its stream:
/// it subscribes when the log has `subscribed` rows and reads the log when it
/// has `read` rows. The rows written in between reach it twice, as log rows
/// and as live notifications. What it observes is the same as if it had
/// subscribed at the very moment of reading: no row is lost and none of the
/// rows in between is yielded a second time.
pub proof fn lemma_handoff_has_no_repetition(
    log: Seq<TimestampedBackendStatus>,
    subscribed: int,
    read: int,
)
    requires
        0 <= subscribed <= read <= log.len(),
    ensures
        stream_output(log.take(read), log.skip(subscribed)) == stream_output(
            log.take(read),
            log.skip(read),
        ),
{
    let history = log.take(read);
    let overlap = log.subrange(subscribed, read);
    let start = replayed(history);
    lemma_replayed_covers_history(history);
    assert forall|i: int| 0 <= i < overlap.len() implies is_repetition(
        start.0,
        #[trigger] overlap[i].status,
    ) || is_over(start.0) by {
        assert(overlap[i] == history[subscribed + i]);
    }
    lemma_repetitions_are_dropped(start, overlap);
    lemma_drained_concat(start, overlap, log.skip(read));
    assert(overlap + log.skip(read) == log.skip(subscribed));
}

/// Replaying rows whose statuses strictly increase yields all of them.
pub proof fn lemma_replay_of_increasing_rows(history: Seq<TimestampedBackendStatus>)
    requires
        strictly_increasing(history),
    ensures
        replayed(history) == (last_status_of(history), history),
    decreases history.len(),
{
    if history.len() == 0 {
        assert(history == Seq::<TimestampedBackendStatus>::empty());
    } else {
        let front = history.drop_last();
        assert forall|a: int, b: int| 0 <= a < b < front.len() implies front[a].status.spec_lt(
            front[b].status,
        ) by {
            assert(front[a] == history[a] && front[b] == history[b]);
        }
        lemma_replay_of_increasing_rows(front);
        if front.len() > 0 {
            assert(front.last() == history[history.len() - 2]);
            assert(history[history.len() - 2].status.spec_lt(history[history.len() - 1].status));
        }
        assert(front.push(history.last()) == history);
    }
}

/// Live notifications whose statuses go on strictly increasing are all yielded.
pub proof fn lemma_drain_of_increasing_events(log: Seq<TimestampedBackendStatus>, read: int, upto: int)
    requires
        strictly_increasing(log),
        0 <= read <= upto <= log.len(),
    ensures
        drained((last_status_of(log.take(read)), log.take(read)), log.subrange(read, upto)) == (
            last_status_of(log.take(upto)),
            log.take(upto),
        ),
    decreases upto - read,
{
    let start = (last_status_of(log.take(read)), log.take(read));
    if upto == read {
        assert(log.subrange(read, upto).len() == 0);
    } else {
        lemma_drain_of_increasing_events(log, read, upto - 1);
        let events = log.subrange(read, upto);
        assert(events.drop_last() == log.subrange(read, upto - 1));
        assert(events.last() == log[upto - 1]);
        let before = drained(start, events.drop_last());
        assert(before == (last_status_of(log.take(upto - 1)), log.take(upto - 1)));
        if upto - 1 > 0 {
            assert(log.take(upto - 1).last() == log[upto - 2]);
            assert(log[upto - 2].status.spec_lt(log[upto - 1].status));
        }
        assert(log.take(upto - 1).push(log[upto - 1]) == log.take(upto));
        assert(log.take(upto).last() == log[upto - 1]);
    }
}

/// Where every status is written to the log once, a subscriber
/// that subscribes when the log has `subscribed` rows and reads it when it has
/// `read` rows observes the whole log, each row once and in order, whatever
/// was written before, between and after the two moments.
pub proof fn lemma_stream_is_complete(
    log: Seq<TimestampedBackendStatus>,
    subscribed: int,
    read: int,
)
    requires
        strictly_increasing(log),
        0 <= subscribed <= read <= log.len(),
    ensures
        stream_output(log.take(read), log.skip(subscribed)) == log,
{
    lemma_handoff_has_no_repetition(log, subscribed, read);
    let history = log.take(read);
    assert(strictly_increasing(history)) by {
        assert forall|a: int, b: int| 0 <= a < b < history.len() implies history[a].status.spec_lt(
            history[b].status,
        ) by {
            assert(history[a] == log[a] && history[b] == log[b]);
        }
    }
    lemma_replay_of_increasing_rows(history);
    lemma_drain_of_increasing_events(log, read, log.len() as int);
    assert(log.subrange(read, log.len() as int) == log.skip(read));
    assert(log.take(log.len() as int) == log);
}

/// What a replay of a log whose statuses never go back has yielded: the
/// statuses never go back, `Terminated` comes last if at all, and the state
/// holds the status of the last row yielded.
pub proof fn lemma_replayed_is_monotone(history: Seq<TimestampedBackendStatus>)
    requires
        non_decreasing(history),
    ensures
        non_decreasing(replayed(history).1),
        ends_at_terminated(replayed(history).1),
        replayed(history).0 == last_status_of(replayed(history).1),
    decreases history.len(),
{
    if history.len() > 0 {
        let front = history.drop_last();
        assert forall|a: int, b: int| 0 <= a <= b < front.len() implies front[a].status.spec_le(
            front[b].status,
        ) by {
            assert(front[a] == history[a] && front[b] == history[b]);
        }
        lemma_replayed_is_monotone(front);
        lemma_replayed_prefix(front);
        let before = replayed(front);
        if !is_over(before.0) {
            let out = before.1.push(history.last());
            assert forall|a: int, b: int| 0 <= a <= b < out.len() implies out[a].status.spec_le(
                out[b].status,
            ) by {
                if b == out.len() - 1 && a < b {
                    assert(out[a] == history[a]);
                }
            }
            if before.1.len() > 0 {
                assert(before.1.last() == history[before.1.len() - 1]);
            }
        }
    }
}

/// A replay yields a prefix of the rows it was given.
pub proof fn lemma_replayed_prefix(history: Seq<TimestampedBackendStatus>)
    ensures
        replayed(history).1.len() <= history.len(),
        replayed(history).1 == history.take(replayed(history).1.len() as int),
        !is_over(replayed(history).0) ==> replayed(history).1 == history,
    decreases history.len(),
{
    if history.len() > 0 {
        let front = history.drop_last();
        lemma_replayed_prefix(front);
        let before = replayed(front);
        if is_over(before.0) {
            assert(front.take(before.1.len() as int) == history.take(before.1.len() as int));
        } else {
            assert(front.push(history.last()) == history);
            assert(history.take(history.len() as int) == history);
        }
    } else {
        assert(history.take(0) == Seq::<TimestampedBackendStatus>::empty());
    }
}

/// Starting from output whose statuses never go back,
/// with `Terminated` last if at all, live notifications keep it so, whatever
/// their order: each status yielded live is strictly later than the one
/// yielded before it.
pub proof fn lemma_drained_is_monotone(
    start: (Option<BackendStatus>, Seq<TimestampedBackendStatus>),
    live: Seq<TimestampedBackendStatus>,
)
    requires
        non_decreasing(start.1),
        ends_at_terminated(start.1),
        start.0 == last_status_of(start.1),
    ensures
        non_decreasing(drained(start, live).1),
        ends_at_terminated(drained(start, live).1),
        drained(start, live).0 == last_status_of(drained(start, live).1),
        start.1.len() <= drained(start, live).1.len(),
        drained(start, live).1.take(start.1.len() as int) == start.1,
        forall|a: int, b: int|
            start.1.len() <= b < drained(start, live).1.len() && 0 <= a < b ==> drained(
                start,
                live,
            ).1[a].status.spec_lt(drained(start, live).1[b].status),
    decreases live.len(),
{
    if live.len() == 0 {
        assert(start.1.take(start.1.len() as int) == start.1);
    } else {
        lemma_drained_is_monotone(start, live.drop_last());
        let before = drained(start, live.drop_last());
        let event = live.last();
        if !(is_over(before.0) || is_repetition(before.0, event.status)) {
            let out = before.1.push(event);
            assert(out.take(start.1.len() as int) == before.1.take(start.1.len() as int));
            assert forall|a: int, b: int| 0 <= a < b < out.len()
                && b == out.len() - 1 implies out[a].status.spec_lt(
                out[b].status,
            ) by {
                assert(out[a] == before.1[a]);
                assert(before.1[a].status.spec_le(before.1.last().status));
            }
            assert forall|a: int, b: int| 0 <= a <= b < out.len() implies out[a].status.spec_le(
                out[b].status,
            ) by {
                if b < out.len() - 1 {
                    assert(out[a] == before.1[a] && out[b] == before.1[b]);
                } else if a < b {
                    assert(out[a].status.spec_lt(out[b].status));
                }
            }
            assert forall|a: int| 0 <= a < out.len() && out[a].status
                == BackendStatus::Terminated implies a == out.len() - 1 by {
                if a < out.len() - 1 {
                    assert(out[a] == before.1[a]);
                    assert(a == before.1.len() - 1);
                }
            }
        }
    }
}

/// Whatever a subscriber reads from a log whose statuses
/// never go back, and whatever is delivered to it live, the statuses it
/// observes never go back, and nothing follows `Terminated`.
pub proof fn lemma_stream_is_monotone(
    history: Seq<TimestampedBackendStatus>,
    live: Seq<TimestampedBackendStatus>,
)
    requires
        non_decreasing(history),
    ensures
        non_decreasing(stream_output(history, live)),
        ends_at_terminated(stream_output(history, live)),
{
    lemma_replayed_is_monotone(history);
    lemma_drained_is_monotone(replayed(history), live);
}

/// How often `status` occurs in `s`.
pub open spec fn occurrences(s: Seq<TimestampedBackendStatus>, status: BackendStatus) -> nat
    decreases s.len(),
{
    if s.len() == 0 {
        0
    } else if s.last().status == status {
        occurrences(s.drop_last(), status) + 1
    } else {
        occurrences(s.drop_last(), status)
    }
}

/// A status that stands somewhere in `s` occurs in it.
pub proof fn lemma_occurs(s: Seq<TimestampedBackendStatus>, i: int)
    requires
        0 <= i < s.len(),
    ensures
        occurrences(s, s[i].status) >= 1,
    decreases s.len(),
{
    if i < s.len() - 1 {
        assert(s.drop_last()[i] == s[i]);
        lemma_occurs(s.drop_last(), i);
    }
}

/// A status that stands nowhere in `s` does not occur in it.
pub proof fn lemma_occurs_not(s: Seq<TimestampedBackendStatus>, status: BackendStatus)
    requires
        forall|i: int| 0 <= i < s.len() ==> (#[trigger] s[i]).status != status,
    ensures
        occurrences(s, status) == 0,
    decreases s.len(),
{
    if s.len() > 0 {
        assert forall|i: int| 0 <= i < s.drop_last().len() implies (#[trigger] s.drop_last()[i]).status
            != status by {
            assert(s.drop_last()[i] == s[i]);
        }
        lemma_occurs_not(s.drop_last(), status);
        assert(s.last() == s[s.len() - 1]);
    }
}

/// A replay of rows whose statuses never go back yields a status as
/// often as the rows hold it, where they hold it once at most.
pub proof fn lemma_replayed_occurrences(history: Seq<TimestampedBackendStatus>, status: BackendStatus)
    requires
        non_decreasing(history),
        occurrences(history, status) <= 1,
    ensures
        occurrences(replayed(history).1, status) == occurrences(history, status),
    decreases history.len(),
{
    if history.len() > 0 {
        let front = history.drop_last();
        let row = history.last();
        assert forall|a: int, b: int| 0 <= a <= b < front.len() implies front[a].status.spec_le(
            front[b].status,
        ) by {
            assert(front[a] == history[a] && front[b] == history[b]);
        }
        lemma_replayed_occurrences(front, status);
        let before = replayed(front);
        if is_over(before.0) {
            lemma_replayed_is_monotone(front);
            lemma_replayed_prefix(front);
            let n = before.1.len() as int;
            assert(before.1.last() == front[n - 1]);
            assert(front[n - 1] == history[n - 1]);
            assert(history[n - 1].status.spec_le(history[history.len() - 1].status));
            assert(row.status == BackendStatus::Terminated);
            if status == BackendStatus::Terminated {
                lemma_occurs(front, n - 1);
            }
        } else {
            assert(before.1.push(row).drop_last() == before.1);
        }
    }
}

/// What live notifications add to output whose statuses, taken together
/// with theirs, never go back: each status that the output did not hold and
/// the notifications bring is yielded once, and nothing else is.
pub proof fn lemma_drained_occurrences(
    start: (Option<BackendStatus>, Seq<TimestampedBackendStatus>),
    live: Seq<TimestampedBackendStatus>,
    status: BackendStatus,
)
    requires
        start.0 == last_status_of(start.1),
        non_decreasing(start.1 + live),
    ensures
        occurrences(drained(start, live).1, status) == occurrences(start.1, status) + (if occurrences(
            start.1,
            status,
        ) == 0 && occurrences(live, status) > 0 {
            1nat
        } else {
            0nat
        }),
        drained(start, live).0 == last_status_of(drained(start, live).1),
        non_decreasing(drained(start, live).1),
        drained(start, live).1.len() > 0 ==> exists|i: int|
            0 <= i < (start.1 + live).len() && (#[trigger] (start.1 + live)[i]).status == drained(
                start,
                live,
            ).1.last().status,
    decreases live.len(),
{
    let all = start.1 + live;
    if live.len() == 0 {
        assert(all == start.1);
        if start.1.len() > 0 {
            assert(all[start.1.len() - 1].status == start.1.last().status);
        }
    } else {
        let front = live.drop_last();
        let event = live.last();
        let shorter = start.1 + front;
        assert forall|a: int, b: int| 0 <= a <= b < shorter.len() implies shorter[a].status.spec_le(
            shorter[b].status,
        ) by {
            assert(shorter[a] == all[a] && shorter[b] == all[b]);
        }
        lemma_drained_occurrences(start, front, status);
        let before = drained(start, front);
        assert(all.last() == event);
        if before.1.len() > 0 {
            let i = choose|i: int|
                0 <= i < shorter.len() && (#[trigger] shorter[i]).status == before.1.last().status;
            assert(shorter[i] == all[i]);
            assert(all[i].status.spec_le(all[all.len() - 1].status));
            assert(before.1.last().status.spec_le(event.status));
        }
        if is_over(before.0) || is_repetition(before.0, event.status) {
            // The notification repeats the last status yielded.
            assert(event.status == before.1.last().status);
            lemma_occurs(before.1, before.1.len() - 1);
            let i = choose|i: int|
                0 <= i < shorter.len() && (#[trigger] shorter[i]).status == before.1.last().status;
            assert(all[i] == shorter[i]);
        } else {
            let out = before.1.push(event);
            assert(out.drop_last() == before.1);
            assert(all[all.len() - 1].status == out.last().status);
            assert forall|a: int, b: int| 0 <= a <= b < out.len() implies out[a].status.spec_le(
                out[b].status,
            ) by {
                if b < out.len() - 1 {
                    assert(out[a] == before.1[a] && out[b] == before.1[b]);
                } else if a < b {
                    assert(out[a] == before.1[a]);
                    assert(before.1[a].status.spec_le(before.1[before.1.len() - 1].status));
                }
            }
            if event.status == status {
                assert forall|a: int| 0 <= a < before.1.len() implies (#[trigger] before.1[a]).status
                    != status by {
                    assert(before.1[a].status.spec_le(before.1[before.1.len() - 1].status));
                }
                lemma_occurs_not(before.1, status);
            }
        }
    }
}

/// Each status is observed once. The log `log` of a backend, whose statuses
/// never go back, grows while a subscriber opens its stream: it subscribes
/// when the log has `subscribed` rows and reads it when it has `read` rows.
/// A status that is written at or after the subscription, and that the rows
/// read do not hold more than once, is observed exactly once, wherever it
/// stands and whatever else is written.
pub proof fn lemma_written_status_is_observed_once(
    log: Seq<TimestampedBackendStatus>,
    subscribed: int,
    read: int,
    at: int,
)
    requires
        non_decreasing(log),
        0 <= subscribed <= read <= log.len(),
        subscribed <= at < log.len(),
        occurrences(log.take(read), log[at].status) <= 1,
    ensures
        occurrences(stream_output(log.take(read), log.skip(subscribed)), log[at].status) == 1,
{
    let status = log[at].status;
    let history = log.take(read);
    let rest = log.skip(read);
    lemma_handoff_has_no_repetition(log, subscribed, read);
    assert forall|a: int, b: int| 0 <= a <= b < history.len() implies history[a].status.spec_le(
        history[b].status,
    ) by {
        assert(history[a] == log[a] && history[b] == log[b]);
    }
    lemma_replayed_occurrences(history, status);
    lemma_replayed_is_monotone(history);
    lemma_replayed_prefix(history);
    let start = replayed(history);
    let n = start.1.len() as int;
    let all = start.1 + rest;
    assert forall|a: int, b: int| 0 <= a <= b < all.len() implies all[a].status.spec_le(
        all[b].status,
    ) by {
        let x = if a < n {
            a
        } else {
            read + (a - n)
        };
        let y = if b < n {
            b
        } else {
            read + (b - n)
        };
        assert(all[a] == log[x] && all[b] == log[y]);
    }
    lemma_drained_occurrences(start, rest, status);
    if at < read {
        assert(history[at] == log[at]);
        lemma_occurs(history, at);
    } else {
        assert(rest[at - read] == log[at]);
        lemma_occurs(rest, at - read);
    }
}

} // verus!
