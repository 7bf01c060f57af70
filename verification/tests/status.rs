use plane::status::{BackendStatus, Timestamp, TimestampedBackendStatus};
use plane::stream::{
    collect_stream, decode_status_rows, LiveItem, StatusRow, StreamState, StreamStep,
};
use plane::types::ConnectError;
use plane::database::model::StoreError;
use plane::{plane_version_info, PLANE_VERSION};

fn all_statuses() -> Vec<BackendStatus> {
    vec![
        BackendStatus::Scheduled,
        BackendStatus::Loading,
        BackendStatus::Starting,
        BackendStatus::Waiting,
        BackendStatus::Ready,
        BackendStatus::Terminating,
        BackendStatus::HardTerminating,
        BackendStatus::Terminated,
    ]
}

fn at(status: BackendStatus, micros: i64) -> TimestampedBackendStatus {
    TimestampedBackendStatus { status, time: Timestamp { micros } }
}

#[test]
fn statuses_are_totally_ordered_as_listed() {
    let all = all_statuses();
    for (i, a) in all.iter().enumerate() {
        assert_eq!(a.rank() as usize, i);
        for (j, b) in all.iter().enumerate() {
            assert_eq!(a.le(*b), i <= j);
            assert_eq!(a.lt(*b), i < j);
        }
    }
}

#[test]
fn only_terminated_is_terminated() {
    for s in all_statuses() {
        assert_eq!(s.is_terminated(), s == BackendStatus::Terminated);
    }
}

#[test]
fn status_names_are_exact() {
    let names: Vec<String> = all_statuses().into_iter().map(|s| s.to_string()).collect();
    assert_eq!(
        names,
        vec![
            "scheduled",
            "loading",
            "starting",
            "waiting",
            "ready",
            "terminating",
            "hard-terminating",
            "terminated"
        ]
    );
}

#[test]
fn status_names_read_back() {
    for s in all_statuses() {
        assert_eq!(BackendStatus::try_from_text(&s.to_string()), Some(s));
    }
}

#[test]
fn unknown_status_names_are_refused() {
    for text in ["", "Ready", "ready ", "hard_terminating", "done"] {
        assert_eq!(BackendStatus::try_from_text(&text.to_string()), None);
    }
}

#[test]
fn timestamp_difference_is_exact_at_the_extremes() {
    let late = Timestamp::from_micros(i64::MAX);
    let early = Timestamp::from_micros(i64::MIN);
    assert_eq!(late.micros_since(early), (i64::MAX as i128) - (i64::MIN as i128));
    assert_eq!(early.micros_since(late), (i64::MIN as i128) - (i64::MAX as i128));
    assert_eq!(Timestamp::from_micros(7).micros_since(Timestamp::from_micros(10)), -3);
}

#[test]
fn timestamp_plus_seconds() {
    let t = Timestamp::from_micros(1_500_000);
    assert_eq!(t.plus_seconds(5), Some(Timestamp { micros: 6_500_000 }));
    assert_eq!(t.plus_seconds(-2), Some(Timestamp { micros: -500_000 }));
    assert_eq!(t.plus_seconds(0), Some(t));
    assert_eq!(t.plus_seconds(i64::MAX), None);
    assert_eq!(t.plus_seconds(i64::MIN), None);
    assert_eq!(Timestamp::from_micros(i64::MAX).plus_seconds(1), None);
    assert_eq!(
        Timestamp::from_micros(i64::MAX - 1_000_000).plus_seconds(1),
        Some(Timestamp { micros: i64::MAX })
    );
}

#[test]
fn timestamp_is_after_is_strict() {
    let t = Timestamp::from_micros(10);
    assert!(Timestamp::from_micros(11).is_after(t));
    assert!(!t.is_after(t));
    assert!(!Timestamp::from_micros(9).is_after(t));
}

#[test]
fn stream_yields_history_then_new_events() {
    let history = vec![at(BackendStatus::Scheduled, 1), at(BackendStatus::Loading, 2)];
    let live = vec![at(BackendStatus::Starting, 3), at(BackendStatus::Ready, 4)];
    let out = collect_stream(&history, &live);
    assert_eq!(
        out,
        vec![
            at(BackendStatus::Scheduled, 1),
            at(BackendStatus::Loading, 2),
            at(BackendStatus::Starting, 3),
            at(BackendStatus::Ready, 4)
        ]
    );
}

#[test]
fn stream_drops_what_the_history_already_held() {
    // The subscription was opened after `Scheduled` was written and the log
    // was read after `Starting` was written.
    let log = vec![
        at(BackendStatus::Scheduled, 1),
        at(BackendStatus::Loading, 2),
        at(BackendStatus::Starting, 3),
        at(BackendStatus::Ready, 4),
        at(BackendStatus::Terminated, 5),
    ];
    let history = log[..3].to_vec();
    let live = log[1..].to_vec();
    assert_eq!(collect_stream(&history, &live), log);
}

#[test]
fn stream_is_whole_for_every_moment_of_subscribing_and_reading() {
    let log = vec![
        at(BackendStatus::Scheduled, 1),
        at(BackendStatus::Starting, 2),
        at(BackendStatus::Ready, 3),
        at(BackendStatus::Terminating, 4),
        at(BackendStatus::Terminated, 5),
    ];
    for read in 0..=log.len() {
        for subscribed in 0..=read {
            let out = collect_stream(&log[..read].to_vec(), &log[subscribed..].to_vec());
            assert_eq!(out, log, "subscribed at {}, read at {}", subscribed, read);
        }
    }
}

#[test]
fn stream_ends_after_terminated() {
    let history = vec![at(BackendStatus::Ready, 1), at(BackendStatus::Terminated, 2)];
    let live = vec![at(BackendStatus::Terminated, 3), at(BackendStatus::Ready, 4)];
    assert_eq!(collect_stream(&history, &live), history);
    let early = vec![
        at(BackendStatus::Terminated, 1),
        at(BackendStatus::Terminated, 2),
        at(BackendStatus::Ready, 3),
    ];
    assert_eq!(collect_stream(&early, &vec![]), vec![at(BackendStatus::Terminated, 1)]);
}

#[test]
fn stream_without_history_yields_live_events_in_increasing_order_only() {
    let live = vec![
        at(BackendStatus::Starting, 1),
        at(BackendStatus::Loading, 2),
        at(BackendStatus::Starting, 3),
        at(BackendStatus::Ready, 4),
    ];
    assert_eq!(
        collect_stream(&vec![], &live),
        vec![at(BackendStatus::Starting, 1), at(BackendStatus::Ready, 4)]
    );
}

#[test]
fn stream_history_may_repeat_a_status() {
    let history = vec![at(BackendStatus::Scheduled, 1), at(BackendStatus::Scheduled, 2)];
    assert_eq!(collect_stream(&history, &vec![]), history);
}

#[test]
fn stream_tracks_the_latest_status_of_the_history() {
    // A history that goes back: the latest status yielded stays the bound.
    let history = vec![at(BackendStatus::Ready, 1), at(BackendStatus::Loading, 2)];
    let live = vec![at(BackendStatus::Starting, 3), at(BackendStatus::Terminating, 4)];
    assert_eq!(
        collect_stream(&history, &live),
        vec![
            at(BackendStatus::Ready, 1),
            at(BackendStatus::Loading, 2),
            at(BackendStatus::Terminating, 4)
        ]
    );
}

#[test]
fn stream_state_steps() {
    let mut s = StreamState::new();
    assert!(!s.is_finished());
    assert_eq!(s.step(LiveItem::Idle), StreamStep::Wait);
    let ready = at(BackendStatus::Ready, 1);
    assert_eq!(s.step(LiveItem::Event(ready)), StreamStep::Yield(ready));
    assert_eq!(s.last_status, Some(BackendStatus::Ready));
    assert_eq!(s.step(LiveItem::Event(at(BackendStatus::Ready, 2))), StreamStep::Skip);
    assert_eq!(s.step(LiveItem::Event(at(BackendStatus::Loading, 3))), StreamStep::Skip);
    assert_eq!(s.last_status, Some(BackendStatus::Ready));
    let done = at(BackendStatus::Terminated, 4);
    assert_eq!(s.step(LiveItem::Event(done)), StreamStep::Yield(done));
    assert!(s.is_finished());
    assert_eq!(s.step(LiveItem::Event(done)), StreamStep::End);
    assert_eq!(s.step(LiveItem::Lagged), StreamStep::End);
    assert_eq!(s.step(LiveItem::Idle), StreamStep::End);
}

#[test]
fn stream_fails_when_the_subscriber_lagged() {
    let mut s = StreamState::new();
    assert_eq!(s.step(LiveItem::Lagged), StreamStep::Lag);
    assert_eq!(s.last_status, None);
    let mut s = StreamState { last_status: Some(BackendStatus::Ready) };
    assert_eq!(s.step(LiveItem::Lagged), StreamStep::Lag);
    assert_eq!(s.step(LiveItem::Closed), StreamStep::End);
}

#[test]
fn stream_replay_and_accept() {
    let mut s = StreamState::new();
    let a = at(BackendStatus::Starting, 1);
    assert_eq!(s.replay(a), Some(a));
    let b = at(BackendStatus::Loading, 2);
    assert_eq!(s.replay(b), Some(b));
    assert_eq!(s.last_status, Some(BackendStatus::Starting));
    assert_eq!(s.accept(at(BackendStatus::Starting, 3)), None);
    let c = at(BackendStatus::Waiting, 4);
    assert_eq!(s.accept(c), Some(c));
    let t = at(BackendStatus::Terminated, 5);
    assert_eq!(s.replay(t), Some(t));
    assert_eq!(s.replay(t), None);
    assert_eq!(s.accept(t), None);
}

#[test]
fn stored_status_rows_with_unknown_status_are_left_out() {
    let rows = vec![
        StatusRow { created_at: Timestamp { micros: 10 }, status: "scheduled".to_string() },
        StatusRow { created_at: Timestamp { micros: 20 }, status: "bogus".to_string() },
        StatusRow { created_at: Timestamp { micros: 30 }, status: "ready".to_string() },
    ];
    assert_eq!(
        decode_status_rows(&rows),
        vec![at(BackendStatus::Scheduled, 10), at(BackendStatus::Ready, 30)]
    );
    assert_eq!(decode_status_rows(&vec![]), vec![]);
}

#[test]
fn connect_errors_have_their_names_and_codes() {
    let table = [
        (ConnectError::NoCluster, "no-cluster", 400, false),
        (ConnectError::NotFound, "not-found", 404, false),
        (ConnectError::NoDroneAvailable, "no-drone-available", 503, true),
        (ConnectError::Conflict, "conflict", 409, true),
        (ConnectError::DbError, "db-error", 500, false),
    ];
    for (e, name, code, retry) in table {
        assert_eq!(e.to_string(), name);
        assert_eq!(e.http_status(), code);
        assert_eq!(e.is_retryable(), retry);
    }
}

#[test]
fn store_errors_have_their_names() {
    assert_eq!(StoreError::NotFound.to_string(), "not-found");
    assert_eq!(StoreError::InvalidTransition.to_string(), "invalid-transition");
    assert_eq!(StoreError::Conflict.to_string(), "conflict");
    assert_eq!(StoreError::InvalidHandshake.to_string(), "invalid-handshake");
    assert_eq!(StoreError::DbError.to_string(), "db-error");
    assert_eq!(StoreError::NotFound.http_status(), Some(404));
    assert_eq!(StoreError::InvalidTransition.http_status(), Some(409));
    assert_eq!(StoreError::Conflict.http_status(), Some(409));
    assert_eq!(StoreError::DbError.http_status(), Some(500));
    assert_eq!(StoreError::InvalidHandshake.http_status(), None);
}

#[test]
fn version_info_reports_the_build() {
    let info = plane_version_info("0a1b2c3");
    assert_eq!(info.version, PLANE_VERSION);
    assert_eq!(info.git_hash, "0a1b2c3");
    assert_eq!(info.version, "0.4.0");
    assert_eq!(plane_version_info("").git_hash, "");
}
