use plane::database::backend::{
    check_transition, plan_status, BackendDatabase, NewBackend, StatusPlan,
};
use plane::database::model::StoreError;
use plane::database::subscribe::{
    Notification, NotificationKey, NotificationKind, Payload, Received,
};
use plane::database::PlaneDatabase;
use plane::database::connect::{FreshNames, UrlPart};
use plane::names::{
    BackendActionName, BackendName, BearerToken, ClusterName, NodeId, SecretToken,
};
use plane::status::{BackendStatus, Timestamp, TimestampedBackendStatus};
use plane::stream::StreamStep;
use plane::types::{BackendAddr, ConnectRequest, KeyConfig};

fn name(s: &str) -> BackendName {
    BackendName(s.to_string())
}

fn cluster(s: &str) -> ClusterName {
    ClusterName(s.to_string())
}

fn t(seconds: i64) -> Timestamp {
    Timestamp { micros: seconds * 1_000_000 }
}

fn key(s: &str) -> KeyConfig {
    KeyConfig { name: s.to_string(), namespace: "".to_string(), tag: "".to_string() }
}

fn new_backend(id: &str, drone: i32, key: Option<KeyConfig>) -> NewBackend {
    NewBackend {
        id: name(id),
        cluster: cluster("c"),
        drone_id: NodeId(drone),
        expiration_time: None,
        allowed_idle_seconds: None,
        key,
    }
}

fn add(db: &mut PlaneDatabase, backend: NewBackend, now: Timestamp) -> Result<BackendName, StoreError> {
    BackendDatabase::new(db).create_backend(backend, now)
}

fn set(db: &mut PlaneDatabase, id: &str, status: BackendStatus, now: Timestamp) -> Result<(), StoreError> {
    BackendDatabase::new(db).update_status(&name(id), status, None, None, now)
}

fn history(db: &mut PlaneDatabase, id: &str) -> Vec<BackendStatus> {
    BackendDatabase::new(db).status_history(&name(id)).into_iter().map(|e| e.status).collect()
}

fn connect_with_key(db: &mut PlaneDatabase, k: &str, n: u32, now: Timestamp) -> (BackendName, bool) {
    let request = ConnectRequest {
        spawn_config: None,
        key: Some(key(k)),
        user: None,
        auth: "{}".to_string(),
    };
    let fresh = FreshNames {
        backend: name(&format!("fresh-{}", n)),
        action: BackendActionName(format!("ak-{}", n)),
        token: BearerToken(format!("tk-{}", n)),
        secret_token: SecretToken(format!("sk-{}", n)),
    };
    let template = vec![UrlPart::Token];
    let response = db.connect(Some(&cluster("c")), &request, fresh, &template, now).unwrap();
    (response.backend_id, response.spawned)
}

#[test]
fn a_new_backend_is_scheduled() {
    let mut db = PlaneDatabase::new();
    assert_eq!(add(&mut db, new_backend("b1", 1, None), t(10)), Ok(name("b1")));
    let row = BackendDatabase::new(&mut db).backend(&name("b1"), t(12)).unwrap();
    assert_eq!(row.id, name("b1"));
    assert_eq!(row.cluster, "c");
    assert_eq!(row.last_status, BackendStatus::Scheduled);
    assert_eq!(row.last_status_time, t(10));
    assert_eq!(row.last_keepalive, t(10));
    assert_eq!(row.drone_id, NodeId(1));
    assert_eq!(row.expiration_time, None);
    assert_eq!(row.allowed_idle_seconds, None);
    assert_eq!(row.as_of, t(12));
    assert_eq!(row.status_age(), 2_000_000);
    assert_eq!(history(&mut db, "b1"), vec![BackendStatus::Scheduled]);
}

#[test]
fn an_unknown_backend_has_no_row() {
    let mut db = PlaneDatabase::new();
    assert!(BackendDatabase::new(&mut db).backend(&name("nope"), t(1)).is_none());
    add(&mut db, new_backend("b1", 1, None), t(1)).unwrap();
    assert!(BackendDatabase::new(&mut db).backend(&name("b2"), t(1)).is_none());
}

#[test]
fn a_backend_name_is_used_once() {
    let mut db = PlaneDatabase::new();
    add(&mut db, new_backend("b1", 1, None), t(1)).unwrap();
    assert_eq!(add(&mut db, new_backend("b1", 2, None), t(2)), Err(StoreError::DbError));
    assert_eq!(BackendDatabase::new(&mut db).list_backends(t(3)).len(), 1);
    assert_eq!(history(&mut db, "b1"), vec![BackendStatus::Scheduled]);
}

#[test]
fn a_key_is_bound_once_in_a_cluster() {
    let mut db = PlaneDatabase::new();
    add(&mut db, new_backend("b1", 1, Some(key("k"))), t(1)).unwrap();
    assert_eq!(add(&mut db, new_backend("b2", 1, Some(key("k"))), t(2)), Err(StoreError::Conflict));
    assert!(BackendDatabase::new(&mut db).backend(&name("b2"), t(3)).is_none());
    // Another key, and the same key in another cluster, are free.
    assert!(add(&mut db, new_backend("b3", 1, Some(key("k2"))), t(3)).is_ok());
    let mut other = new_backend("b4", 1, Some(key("k")));
    other.cluster = cluster("d");
    assert!(add(&mut db, other, t(4)).is_ok());
}

#[test]
fn keys_differ_by_name_namespace_and_tag() {
    let mut db = PlaneDatabase::new();
    let base = KeyConfig { name: "n".to_string(), namespace: "ns".to_string(), tag: "t".to_string() };
    let mut other_ns = base.clone();
    other_ns.namespace = "ns2".to_string();
    let mut other_tag = base.clone();
    other_tag.tag = "t2".to_string();
    assert!(add(&mut db, new_backend("b1", 1, Some(base.clone())), t(1)).is_ok());
    assert!(add(&mut db, new_backend("b2", 1, Some(other_ns)), t(1)).is_ok());
    assert!(add(&mut db, new_backend("b3", 1, Some(other_tag)), t(1)).is_ok());
    assert_eq!(add(&mut db, new_backend("b4", 1, Some(base)), t(1)), Err(StoreError::Conflict));
}

#[test]
fn status_updates_are_recorded_and_logged() {
    let mut db = PlaneDatabase::new();
    add(&mut db, new_backend("b1", 1, None), t(1)).unwrap();
    assert_eq!(set(&mut db, "b1", BackendStatus::Loading, t(2)), Ok(()));
    assert_eq!(set(&mut db, "b1", BackendStatus::Ready, t(3)), Ok(()));
    let row = BackendDatabase::new(&mut db).backend(&name("b1"), t(4)).unwrap();
    assert_eq!(row.last_status, BackendStatus::Ready);
    assert_eq!(row.last_status_time, t(3));
    assert_eq!(row.last_keepalive, t(1));
    assert_eq!(
        BackendDatabase::new(&mut db).status_history(&name("b1")),
        vec![
            TimestampedBackendStatus { status: BackendStatus::Scheduled, time: t(1) },
            TimestampedBackendStatus { status: BackendStatus::Loading, time: t(2) },
            TimestampedBackendStatus { status: BackendStatus::Ready, time: t(3) },
        ]
    );
}

#[test]
fn status_of_an_unknown_backend_is_not_found() {
    let mut db = PlaneDatabase::new();
    assert_eq!(set(&mut db, "b1", BackendStatus::Ready, t(1)), Err(StoreError::NotFound));
    add(&mut db, new_backend("b1", 1, None), t(1)).unwrap();
    assert_eq!(set(&mut db, "b2", BackendStatus::Ready, t(1)), Err(StoreError::NotFound));
}

#[test]
fn a_status_that_goes_back_is_refused_and_changes_nothing() {
    let mut db = PlaneDatabase::new();
    add(&mut db, new_backend("b1", 1, None), t(1)).unwrap();
    set(&mut db, "b1", BackendStatus::Ready, t(2)).unwrap();
    for earlier in [
        BackendStatus::Scheduled,
        BackendStatus::Loading,
        BackendStatus::Starting,
        BackendStatus::Waiting,
    ] {
        assert_eq!(set(&mut db, "b1", earlier, t(3)), Err(StoreError::InvalidTransition));
    }
    let row = BackendDatabase::new(&mut db).backend(&name("b1"), t(4)).unwrap();
    assert_eq!(row.last_status, BackendStatus::Ready);
    assert_eq!(row.last_status_time, t(2));
    assert_eq!(history(&mut db, "b1"), vec![BackendStatus::Scheduled, BackendStatus::Ready]);
}

#[test]
fn the_same_status_may_be_recorded_again() {
    let mut db = PlaneDatabase::new();
    add(&mut db, new_backend("b1", 1, None), t(1)).unwrap();
    set(&mut db, "b1", BackendStatus::Ready, t(2)).unwrap();
    assert_eq!(set(&mut db, "b1", BackendStatus::Ready, t(3)), Ok(()));
    assert_eq!(
        history(&mut db, "b1"),
        vec![BackendStatus::Scheduled, BackendStatus::Ready, BackendStatus::Ready]
    );
}

#[test]
fn recording_a_status_is_planned_from_the_status_held() {
    assert_eq!(plan_status(None, BackendStatus::Ready), Err(StoreError::NotFound));
    assert_eq!(plan_status(None, BackendStatus::Terminated), Err(StoreError::NotFound));
    assert_eq!(
        plan_status(Some(BackendStatus::Ready), BackendStatus::Waiting),
        Err(StoreError::InvalidTransition)
    );
    assert_eq!(
        plan_status(Some(BackendStatus::Ready), BackendStatus::Ready),
        Ok(StatusPlan { release_key: false })
    );
    assert_eq!(
        plan_status(Some(BackendStatus::Ready), BackendStatus::Terminating),
        Ok(StatusPlan { release_key: false })
    );
    assert_eq!(
        plan_status(Some(BackendStatus::Scheduled), BackendStatus::Terminated),
        Ok(StatusPlan { release_key: true })
    );
    assert_eq!(
        plan_status(Some(BackendStatus::Terminated), BackendStatus::Terminated),
        Ok(StatusPlan { release_key: true })
    );
    assert_eq!(check_transition(BackendStatus::Ready, BackendStatus::Ready), Ok(()));
    assert_eq!(
        check_transition(BackendStatus::Ready, BackendStatus::Loading),
        Err(StoreError::InvalidTransition)
    );
}

#[test]
fn terminated_is_final() {
    let mut db = PlaneDatabase::new();
    add(&mut db, new_backend("b1", 1, None), t(1)).unwrap();
    set(&mut db, "b1", BackendStatus::Terminated, t(2)).unwrap();
    for s in [
        BackendStatus::Scheduled,
        BackendStatus::Ready,
        BackendStatus::Terminating,
        BackendStatus::HardTerminating,
    ] {
        assert_eq!(set(&mut db, "b1", s, t(3)), Err(StoreError::InvalidTransition));
    }
    assert_eq!(set(&mut db, "b1", BackendStatus::Terminated, t(4)), Ok(()));
}

#[test]
fn every_log_is_monotone_after_random_updates() {
    let all = [
        BackendStatus::Scheduled,
        BackendStatus::Loading,
        BackendStatus::Starting,
        BackendStatus::Waiting,
        BackendStatus::Ready,
        BackendStatus::Terminating,
        BackendStatus::HardTerminating,
        BackendStatus::Terminated,
    ];
    let mut db = PlaneDatabase::new();
    for b in ["a", "b", "c"] {
        add(&mut db, new_backend(b, 1, None), t(0)).unwrap();
    }
    let mut seed: u64 = 12345;
    for step in 0..300 {
        seed = seed.wrapping_mul(6364136223846793005).wrapping_add(1442695040888963407);
        let b = ["a", "b", "c"][(seed >> 33) as usize % 3];
        let s = all[(seed >> 40) as usize % 8];
        let before = BackendDatabase::new(&mut db).backend(&name(b), t(step)).unwrap().last_status;
        let r = set(&mut db, b, s, t(step));
        assert_eq!(r.is_err(), s.lt(before));
    }
    for b in ["a", "b", "c"] {
        let h = history(&mut db, b);
        for w in h.windows(2) {
            assert!(w[0].le(w[1]));
        }
        let last = BackendDatabase::new(&mut db).backend(&name(b), t(0)).unwrap().last_status;
        assert_eq!(*h.last().unwrap(), last);
    }
}

#[test]
fn a_backend_that_terminates_gives_up_its_key() {
    let mut db = PlaneDatabase::new();
    add(&mut db, new_backend("b1", 1, Some(key("k"))), t(1)).unwrap();
    add(&mut db, new_backend("b2", 1, Some(key("k2"))), t(1)).unwrap();
    set(&mut db, "b1", BackendStatus::Ready, t(2)).unwrap();
    assert_eq!(add(&mut db, new_backend("b3", 1, Some(key("k"))), t(3)), Err(StoreError::Conflict));
    set(&mut db, "b1", BackendStatus::Terminated, t(4)).unwrap();
    assert_eq!(add(&mut db, new_backend("b3", 1, Some(key("k"))), t(5)), Ok(name("b3")));
    // The key of the other backend is still bound.
    assert_eq!(connect_with_key(&mut db, "k2", 1, t(6)), (name("b2"), false));
    assert_eq!(connect_with_key(&mut db, "k", 2, t(6)), (name("b3"), false));
}

#[test]
fn address_and_exit_code_are_set_by_each_update() {
    let mut db = PlaneDatabase::new();
    add(&mut db, new_backend("b1", 1, None), t(1)).unwrap();
    db.issue_token(plane::database::TokenRecord {
        token: BearerToken("tok".to_string()),
        backend: name("b1"),
        username: Some("u".to_string()),
        auth: "{\"a\":1}".to_string(),
        secret_token: SecretToken("sec".to_string()),
    })
    .unwrap();
    let token = BearerToken("tok".to_string());
    assert!(BackendDatabase::new(&mut db).route_info_for_token(&token).is_none());
    BackendDatabase::new(&mut db)
        .update_status(
            &name("b1"),
            BackendStatus::Ready,
            Some(BackendAddr::v4(10, 0, 0, 1, 8080)),
            None,
            t(2),
        )
        .unwrap();
    let route = BackendDatabase::new(&mut db).route_info_for_token(&token).unwrap();
    assert_eq!(route.backend_id, name("b1"));
    assert_eq!(route.address, BackendAddr::v4(10, 0, 0, 1, 8080));
    assert_eq!(route.secret_token, SecretToken("sec".to_string()));
    assert_eq!(route.user, Some("u".to_string()));
    assert_eq!(route.user_data, Some("{\"a\":1}".to_string()));
    // An update without an address takes the address away.
    BackendDatabase::new(&mut db)
        .update_status(&name("b1"), BackendStatus::Terminated, None, Some(3), t(3))
        .unwrap();
    assert!(BackendDatabase::new(&mut db).route_info_for_token(&token).is_none());
}

#[test]
fn an_unknown_token_leads_nowhere() {
    let mut db = PlaneDatabase::new();
    let token = BearerToken("tok".to_string());
    assert!(BackendDatabase::new(&mut db).route_info_for_token(&token).is_none());
}

#[test]
fn a_token_is_issued_once_and_only_for_a_known_backend() {
    let mut db = PlaneDatabase::new();
    let make = |tok: &str, backend: &str| plane::database::TokenRecord {
        token: BearerToken(tok.to_string()),
        backend: name(backend),
        username: None,
        auth: "{}".to_string(),
        secret_token: SecretToken("s".to_string()),
    };
    assert_eq!(db.issue_token(make("t1", "b1")), Err(StoreError::DbError));
    add(&mut db, new_backend("b1", 1, None), t(1)).unwrap();
    assert_eq!(db.issue_token(make("t1", "b1")), Ok(()));
    assert_eq!(db.issue_token(make("t1", "b1")), Err(StoreError::DbError));
    assert_eq!(db.issue_token(make("t2", "b1")), Ok(()));
}

#[test]
fn keepalive_is_recorded() {
    let mut db = PlaneDatabase::new();
    assert_eq!(
        BackendDatabase::new(&mut db).update_keepalive(&name("b1"), t(1)),
        Err(StoreError::NotFound)
    );
    add(&mut db, new_backend("b1", 1, None), t(1)).unwrap();
    assert_eq!(BackendDatabase::new(&mut db).update_keepalive(&name("b1"), t(5)), Ok(()));
    let row = BackendDatabase::new(&mut db).backend(&name("b1"), t(6)).unwrap();
    assert_eq!(row.last_keepalive, t(5));
    assert_eq!(row.last_status_time, t(1));
    assert_eq!(row.last_status, BackendStatus::Scheduled);
}

#[test]
fn list_backends_gives_all_rows_in_order() {
    let mut db = PlaneDatabase::new();
    assert!(BackendDatabase::new(&mut db).list_backends(t(0)).is_empty());
    add(&mut db, new_backend("b1", 1, None), t(1)).unwrap();
    add(&mut db, new_backend("b2", 2, None), t(2)).unwrap();
    set(&mut db, "b1", BackendStatus::Terminated, t(3)).unwrap();
    let rows = BackendDatabase::new(&mut db).list_backends(t(9));
    assert_eq!(rows.len(), 2);
    assert_eq!(rows[0].id, name("b1"));
    assert_eq!(rows[0].last_status, BackendStatus::Terminated);
    assert_eq!(rows[0].status_age(), 6_000_000);
    assert_eq!(rows[1].id, name("b2"));
    assert_eq!(rows[1].drone_id, NodeId(2));
    assert_eq!(rows[1].as_of, t(9));
    assert_eq!(rows[1].status_age(), 7_000_000);
}

#[test]
fn idle_backends_are_due_strictly_after_their_allowance() {
    let mut db = PlaneDatabase::new();
    let mut b = new_backend("b1", 1, None);
    b.allowed_idle_seconds = Some(10);
    add(&mut db, b, t(100)).unwrap();
    let due = |db: &mut PlaneDatabase, now: Timestamp| {
        BackendDatabase::new(db).termination_candidates(NodeId(1), now)
    };
    assert!(due(&mut db, t(105)).is_empty());
    assert!(due(&mut db, t(110)).is_empty());
    let found = due(&mut db, Timestamp { micros: 110_000_001 });
    assert_eq!(found.len(), 1);
    assert_eq!(found[0].backend_id, name("b1"));
    assert_eq!(found[0].allowed_idle_seconds, Some(10));
    assert_eq!(found[0].last_keepalive, t(100));
    assert_eq!(found[0].expiration_time, None);
    assert_eq!(found[0].as_of, Timestamp { micros: 110_000_001 });
    BackendDatabase::new(&mut db).update_keepalive(&name("b1"), t(108)).unwrap();
    assert!(due(&mut db, t(112)).is_empty());
    assert_eq!(due(&mut db, t(119)).len(), 1);
}

#[test]
fn expired_backends_are_due_strictly_after_their_deadline() {
    let mut db = PlaneDatabase::new();
    let mut b = new_backend("b1", 1, None);
    b.expiration_time = Some(t(50));
    add(&mut db, b, t(10)).unwrap();
    let due = |db: &mut PlaneDatabase, now: Timestamp| {
        BackendDatabase::new(db).termination_candidates(NodeId(1), now).len()
    };
    assert_eq!(due(&mut db, t(49)), 0);
    assert_eq!(due(&mut db, t(50)), 0);
    assert_eq!(due(&mut db, Timestamp { micros: 50_000_001 }), 1);
    BackendDatabase::new(&mut db).update_keepalive(&name("b1"), t(60)).unwrap();
    assert_eq!(due(&mut db, t(61)), 1);
}

#[test]
fn only_live_backends_of_the_drone_are_due() {
    let mut db = PlaneDatabase::new();
    for (id, drone) in [("b1", 1), ("b2", 2), ("b3", 1), ("b4", 1)] {
        let mut b = new_backend(id, drone, None);
        b.expiration_time = Some(t(5));
        add(&mut db, b, t(1)).unwrap();
    }
    add(&mut db, new_backend("b5", 1, None), t(1)).unwrap();
    set(&mut db, "b3", BackendStatus::Terminated, t(2)).unwrap();
    set(&mut db, "b4", BackendStatus::Terminating, t(2)).unwrap();
    let found = BackendDatabase::new(&mut db).termination_candidates(NodeId(1), t(100));
    let ids: Vec<BackendName> = found.iter().map(|c| c.backend_id.clone()).collect();
    assert_eq!(ids, vec![name("b1"), name("b4")]);
    let found = BackendDatabase::new(&mut db).termination_candidates(NodeId(2), t(100));
    assert_eq!(found.len(), 1);
    assert_eq!(found[0].backend_id, name("b2"));
    assert!(BackendDatabase::new(&mut db).termination_candidates(NodeId(3), t(100)).is_empty());
}

#[test]
fn a_negative_idle_allowance_makes_a_backend_due_at_once() {
    let mut db = PlaneDatabase::new();
    let mut b = new_backend("b1", 1, None);
    b.allowed_idle_seconds = Some(-1);
    add(&mut db, b, t(10)).unwrap();
    assert_eq!(BackendDatabase::new(&mut db).termination_candidates(NodeId(1), t(10)).len(), 1);
}

#[test]
fn status_changes_are_announced_to_subscribers_of_the_backend() {
    let mut db = PlaneDatabase::new();
    add(&mut db, new_backend("b1", 1, None), t(1)).unwrap();
    add(&mut db, new_backend("b2", 1, None), t(1)).unwrap();
    let mut stream = BackendDatabase::new(&mut db).status_stream(&name("b1"));
    set(&mut db, "b2", BackendStatus::Ready, t(2)).unwrap();
    set(&mut db, "b1", BackendStatus::Ready, t(3)).unwrap();
    assert_eq!(set(&mut db, "b1", BackendStatus::Loading, t(4)), Err(StoreError::InvalidTransition));
    let scheduled = TimestampedBackendStatus { status: BackendStatus::Scheduled, time: t(1) };
    let ready = TimestampedBackendStatus { status: BackendStatus::Ready, time: t(3) };
    assert_eq!(stream.next(&mut db), StreamStep::Yield(scheduled));
    assert_eq!(stream.next(&mut db), StreamStep::Yield(ready));
    assert_eq!(stream.next(&mut db), StreamStep::Wait);
}

#[test]
fn two_streams_opened_at_different_times_observe_the_same() {
    let mut db = PlaneDatabase::new();
    add(&mut db, new_backend("b1", 1, None), t(1)).unwrap();
    let mut first = BackendDatabase::new(&mut db).status_stream(&name("b1"));
    set(&mut db, "b1", BackendStatus::Loading, t(2)).unwrap();
    set(&mut db, "b1", BackendStatus::Starting, t(3)).unwrap();
    let mut second = BackendDatabase::new(&mut db).status_stream(&name("b1"));
    set(&mut db, "b1", BackendStatus::Ready, t(4)).unwrap();
    set(&mut db, "b1", BackendStatus::Terminated, t(5)).unwrap();
    let drain = |s: &mut plane::database::backend::StatusStream, db: &mut PlaneDatabase| {
        let mut seen = vec![];
        loop {
            match s.next(db) {
                StreamStep::Yield(e) => seen.push(e),
                StreamStep::Skip => {}
                StreamStep::End => break,
                other => panic!("unexpected {:?}", other),
            }
        }
        seen
    };
    let a = drain(&mut first, &mut db);
    let b = drain(&mut second, &mut db);
    let expected: Vec<TimestampedBackendStatus> = [
        (BackendStatus::Scheduled, 1),
        (BackendStatus::Loading, 2),
        (BackendStatus::Starting, 3),
        (BackendStatus::Ready, 4),
        (BackendStatus::Terminated, 5),
    ]
    .into_iter()
    .map(|(status, s)| TimestampedBackendStatus { status, time: t(s) })
    .collect();
    assert_eq!(a, expected);
    assert_eq!(b, expected);
    assert_eq!(first.next(&mut db), StreamStep::End);
}

#[test]
fn a_stream_whose_subscriber_lagged_fails() {
    let mut db = PlaneDatabase::with_queue_capacity(2);
    add(&mut db, new_backend("b1", 1, None), t(1)).unwrap();
    let mut stream = BackendDatabase::new(&mut db).status_stream(&name("b1"));
    set(&mut db, "b1", BackendStatus::Loading, t(2)).unwrap();
    set(&mut db, "b1", BackendStatus::Starting, t(3)).unwrap();
    set(&mut db, "b1", BackendStatus::Ready, t(4)).unwrap();
    let scheduled = TimestampedBackendStatus { status: BackendStatus::Scheduled, time: t(1) };
    assert_eq!(stream.next(&mut db), StreamStep::Yield(scheduled));
    assert_eq!(stream.next(&mut db), StreamStep::Lag);
    assert_eq!(stream.next(&mut db), StreamStep::Lag);
    // A new stream starts from the log and is whole again.
    let mut again = BackendDatabase::new(&mut db).status_stream(&name("b1"));
    let mut seen = vec![];
    while let StreamStep::Yield(e) = again.next(&mut db) {
        seen.push(e.status);
    }
    assert_eq!(
        seen,
        vec![
            BackendStatus::Scheduled,
            BackendStatus::Loading,
            BackendStatus::Starting,
            BackendStatus::Ready
        ]
    );
}

#[test]
fn a_closed_stream_ends() {
    let mut db = PlaneDatabase::new();
    add(&mut db, new_backend("b1", 1, None), t(1)).unwrap();
    let stream = BackendDatabase::new(&mut db).status_stream(&name("b1"));
    let handle = stream.subscription;
    stream.close(&mut db);
    set(&mut db, "b1", BackendStatus::Ready, t(2)).unwrap();
    assert_eq!(db.next_notification(handle), Received::Closed);
    let other = db.subscribe(NotificationKind::BackendState, NotificationKey::Backend("b1".to_string()));
    set(&mut db, "b1", BackendStatus::Terminated, t(3)).unwrap();
    assert_eq!(
        db.next_notification(other),
        Received::Event(Notification {
            key: NotificationKey::Backend("b1".to_string()),
            payload: Payload::State(BackendStatus::Terminated),
            timestamp: t(3),
        })
    );
    db.unsubscribe(other);
    assert_eq!(db.next_notification(other), Received::Closed);
}
