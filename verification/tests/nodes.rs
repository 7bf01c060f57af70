use plane::controller::{Controller, Handshake, NodeHandle};
use plane::database::backend::{BackendDatabase, NewBackend, TerminationCandidate};
use plane::database::model::StoreError;
use plane::database::node::{NodeDatabase, Registration};
use plane::database::subscribe::{NotificationKey, NotificationKind, Payload, Received};
use plane::database::PlaneDatabase;
use plane::names::{
    check_name, AnyNodeName, BackendActionName, BackendName, ClusterName, ControllerName, NodeId,
    NodeKind, MAX_NAME_LENGTH,
};
use plane::protocol::{BackendAction, BackendActionMessage, TerminationKind};
use plane::scheduler::{
    choose_drone, count_load, standing_is_eligible, DroneStanding,
    DRONE_HEARTBEAT_STALENESS_SECONDS,
};
use plane::status::{BackendStatus, Timestamp};
use plane::sweeper::{termination_kind, Sweeper, TERMINATION_GRACE_SECONDS};
use plane::PlaneVersionInfo;

fn t(seconds: i64) -> Timestamp {
    Timestamp { micros: seconds * 1_000_000 }
}

fn cluster(s: &str) -> ClusterName {
    ClusterName(s.to_string())
}

fn registration(name: &str, in_cluster: Option<&str>) -> Registration {
    Registration {
        name: AnyNodeName::try_from_text(name.to_string()).unwrap(),
        cluster: in_cluster.map(cluster),
        controller: ControllerName("co-1".to_string()),
        plane_version: "0.4.0".to_string(),
        ip: "10.0.0.1".to_string(),
    }
}

fn register(db: &mut PlaneDatabase, name: &str, in_cluster: Option<&str>, now: Timestamp) -> NodeId {
    NodeDatabase::new(db).register(registration(name, in_cluster), now).unwrap()
}

fn run(db: &mut PlaneDatabase, id: &str, drone: NodeId, now: Timestamp) {
    BackendDatabase::new(db)
        .create_backend(
            NewBackend {
                id: BackendName(id.to_string()),
                cluster: cluster("c"),
                drone_id: drone,
                expiration_time: None,
                allowed_idle_seconds: None,
                key: None,
            },
            now,
        )
        .unwrap();
}

fn end(db: &mut PlaneDatabase, id: &str, now: Timestamp) {
    BackendDatabase::new(db)
        .update_status(&BackendName(id.to_string()), BackendStatus::Terminated, None, None, now)
        .unwrap();
}

fn candidate(id: &str, as_of: Timestamp) -> TerminationCandidate {
    TerminationCandidate {
        backend_id: BackendName(id.to_string()),
        expiration_time: None,
        last_keepalive: t(0),
        allowed_idle_seconds: Some(1),
        as_of,
    }
}

#[test]
fn names_are_valid_up_to_the_longest_length() {
    assert_eq!(MAX_NAME_LENGTH, 45);
    assert!(!check_name(&"".to_string()));
    assert!(check_name(&"a".to_string()));
    assert!(check_name(&"a".repeat(45)));
    assert!(!check_name(&"a".repeat(46)));
    // Length counts characters, not bytes.
    assert!(check_name(&"é".repeat(45)));
    assert!(BackendName::try_from_text("b1".to_string()).is_some());
    assert_eq!(BackendName::try_from_text("b1".to_string()).unwrap().0, "b1");
    assert!(BackendName::try_from_text("".to_string()).is_none());
    assert!(BackendName::try_from_text("x".repeat(46)).is_none());
}

#[test]
fn node_names_show_their_kind() {
    let kind = |s: &str| AnyNodeName::try_from_text(s.to_string()).map(|n| n.kind());
    assert_eq!(kind("dr-abc"), Some(NodeKind::Drone));
    assert_eq!(kind("pr-abc"), Some(NodeKind::Proxy));
    assert_eq!(kind("ns-abc"), Some(NodeKind::AcmeDnsServer));
    assert_eq!(kind("dr-"), Some(NodeKind::Drone));
    for bad in ["", "dr", "drone", "co-abc", "ba-abc", "DR-abc", "dr_abc", "xdr-abc", "d-r"] {
        assert_eq!(kind(bad), None, "{}", bad);
    }
    assert_eq!(kind(&format!("dr-{}", "a".repeat(42))), Some(NodeKind::Drone));
    assert_eq!(kind(&format!("dr-{}", "a".repeat(43))), None);
    assert_eq!(AnyNodeName::try_from_text("pr-x".to_string()).unwrap().to_string(), "pr-x");
}

#[test]
fn nodes_get_increasing_identifiers() {
    let mut db = PlaneDatabase::new();
    assert_eq!(register(&mut db, "dr-a", Some("c"), t(1)), NodeId(1));
    assert_eq!(register(&mut db, "pr-a", None, t(2)), NodeId(2));
    assert_eq!(register(&mut db, "dr-b", Some("c"), t(3)), NodeId(3));
    assert_eq!(NodeId(3).as_i32(), 3);
    assert_eq!(NodeId::from(7), NodeId(7));
}

#[test]
fn a_node_that_registers_again_keeps_its_identifier() {
    let mut db = PlaneDatabase::new();
    let a = register(&mut db, "dr-a", Some("c"), t(1));
    let b = register(&mut db, "dr-b", Some("c"), t(1));
    NodeDatabase::new(&mut db).mark_offline(a, t(2)).unwrap();
    assert_eq!(register(&mut db, "dr-a", Some("d"), t(3)), a);
    assert_eq!(register(&mut db, "dr-b", Some("c"), t(3)), b);
    assert_eq!(register(&mut db, "dr-c", Some("c"), t(3)), NodeId(3));
    // The node is online again, and in the cluster it registered for last.
    assert_eq!(db.select_drone(&cluster("d"), t(3)), Some(a));
}

#[test]
fn marking_an_unknown_node_offline_is_not_found() {
    let mut db = PlaneDatabase::new();
    assert_eq!(NodeDatabase::new(&mut db).mark_offline(NodeId(1), t(1)), Err(StoreError::NotFound));
    assert_eq!(
        NodeDatabase::new(&mut db).heartbeat(NodeId(1), None, t(1)),
        Err(StoreError::NotFound)
    );
    register(&mut db, "dr-a", Some("c"), t(1));
    assert_eq!(NodeDatabase::new(&mut db).mark_offline(NodeId(2), t(1)), Err(StoreError::NotFound));
    assert_eq!(NodeDatabase::new(&mut db).mark_offline(NodeId(1), t(1)), Ok(()));
}

#[test]
fn placement_needs_an_online_drone_of_the_cluster() {
    let mut db = PlaneDatabase::new();
    assert_eq!(db.select_drone(&cluster("c"), t(1)), None);
    register(&mut db, "pr-a", Some("c"), t(1));
    register(&mut db, "ns-a", Some("c"), t(1));
    register(&mut db, "dr-a", Some("d"), t(1));
    register(&mut db, "dr-b", None, t(1));
    assert_eq!(db.select_drone(&cluster("c"), t(1)), None);
    let d = register(&mut db, "dr-c", Some("c"), t(1));
    assert_eq!(db.select_drone(&cluster("c"), t(1)), Some(d));
    NodeDatabase::new(&mut db).mark_offline(d, t(2)).unwrap();
    assert_eq!(db.select_drone(&cluster("c"), t(2)), None);
}

#[test]
fn placement_needs_a_recent_heartbeat() {
    assert_eq!(DRONE_HEARTBEAT_STALENESS_SECONDS, 30);
    let mut db = PlaneDatabase::new();
    let d = register(&mut db, "dr-a", Some("c"), t(100));
    assert_eq!(db.select_drone(&cluster("c"), t(130)), Some(d));
    assert_eq!(db.select_drone(&cluster("c"), Timestamp { micros: 130_000_001 }), None);
    NodeDatabase::new(&mut db).heartbeat(d, None, t(120)).unwrap();
    assert_eq!(db.select_drone(&cluster("c"), t(150)), Some(d));
    assert_eq!(db.select_drone(&cluster("c"), t(151)), None);
    // A heartbeat from the future counts as recent.
    assert_eq!(db.select_drone(&cluster("c"), t(0)), Some(d));
}

#[test]
fn placement_picks_the_least_loaded_drone() {
    let mut db = PlaneDatabase::new();
    let a = register(&mut db, "dr-a", Some("c"), t(1));
    let b = register(&mut db, "dr-b", Some("c"), t(1));
    let c = register(&mut db, "dr-c", Some("c"), t(1));
    // With equal load the lowest identifier wins.
    assert_eq!(db.select_drone(&cluster("c"), t(1)), Some(a));
    run(&mut db, "b1", a, t(1));
    assert_eq!(db.select_drone(&cluster("c"), t(1)), Some(b));
    run(&mut db, "b2", b, t(1));
    run(&mut db, "b3", c, t(1));
    run(&mut db, "b4", c, t(1));
    assert_eq!(db.select_drone(&cluster("c"), t(1)), Some(a));
    run(&mut db, "b5", a, t(1));
    assert_eq!(db.select_drone(&cluster("c"), t(1)), Some(b));
    // Backends that have terminated do not count.
    end(&mut db, "b3", t(2));
    end(&mut db, "b4", t(2));
    assert_eq!(db.select_drone(&cluster("c"), t(2)), Some(c));
}

#[test]
fn placement_respects_the_capacity_that_a_drone_reports() {
    let mut db = PlaneDatabase::new();
    let a = register(&mut db, "dr-a", Some("c"), t(1));
    let b = register(&mut db, "dr-b", Some("c"), t(1));
    NodeDatabase::new(&mut db).heartbeat(a, Some(1), t(1)).unwrap();
    NodeDatabase::new(&mut db).heartbeat(b, Some(0), t(1)).unwrap();
    assert_eq!(db.select_drone(&cluster("c"), t(1)), Some(a));
    run(&mut db, "b1", a, t(1));
    assert_eq!(db.select_drone(&cluster("c"), t(1)), None);
    NodeDatabase::new(&mut db).heartbeat(b, Some(5), t(1)).unwrap();
    assert_eq!(db.select_drone(&cluster("c"), t(1)), Some(b));
    end(&mut db, "b1", t(2));
    assert_eq!(db.select_drone(&cluster("c"), t(2)), Some(a));
    // Registering again keeps the reported capacity.
    register(&mut db, "dr-b", Some("c"), t(3));
    NodeDatabase::new(&mut db).heartbeat(a, Some(0), t(3)).unwrap();
    run(&mut db, "b2", b, t(3));
    assert_eq!(db.select_drone(&cluster("c"), t(3)), Some(b));
}

fn standing(id: i32, load: usize) -> DroneStanding {
    DroneStanding {
        id: NodeId(id),
        kind: NodeKind::Drone,
        cluster: Some(cluster("c")),
        last_heartbeat: t(100),
        offline_at: None,
        capacity: None,
        load,
    }
}

#[test]
fn the_least_loaded_standing_is_chosen_and_the_lowest_identifier_breaks_ties() {
    let c = cluster("c");
    assert_eq!(choose_drone(&vec![], &c, t(100)), None);
    let all = vec![standing(5, 2), standing(3, 1), standing(9, 1), standing(1, 4), standing(2, 1)];
    assert_eq!(choose_drone(&all, &c, t(100)), Some(NodeId(2)));
    let all = vec![standing(2, 3), standing(7, 0)];
    assert_eq!(choose_drone(&all, &c, t(100)), Some(NodeId(7)));
    assert_eq!(choose_drone(&all, &cluster("d"), t(100)), None);
}

#[test]
fn a_standing_is_eligible_only_if_all_conditions_hold() {
    let c = cluster("c");
    assert!(standing_is_eligible(&standing(1, 0), &c, t(100)));
    assert!(standing_is_eligible(&standing(1, 0), &c, t(130)));
    assert!(!standing_is_eligible(&standing(1, 0), &c, Timestamp { micros: 130_000_001 }));
    let mut s = standing(1, 0);
    s.kind = NodeKind::Proxy;
    assert!(!standing_is_eligible(&s, &c, t(100)));
    let mut s = standing(1, 0);
    s.cluster = None;
    assert!(!standing_is_eligible(&s, &c, t(100)));
    let mut s = standing(1, 0);
    s.offline_at = Some(t(1));
    assert!(!standing_is_eligible(&s, &c, t(100)));
    let mut s = standing(1, 3);
    s.capacity = Some(3);
    assert!(!standing_is_eligible(&s, &c, t(100)));
    s.capacity = Some(4);
    assert!(standing_is_eligible(&s, &c, t(100)));
    s.capacity = Some(0);
    s.load = 0;
    assert!(!standing_is_eligible(&s, &c, t(100)));
}

#[test]
fn the_store_reports_where_its_nodes_stand() {
    let mut db = PlaneDatabase::new();
    let a = register(&mut db, "dr-a", Some("c"), t(1));
    let b = register(&mut db, "pr-b", None, t(2));
    run(&mut db, "b1", a, t(3));
    run(&mut db, "b2", a, t(3));
    end(&mut db, "b1", t(4));
    NodeDatabase::new(&mut db).heartbeat(a, Some(7), t(5)).unwrap();
    NodeDatabase::new(&mut db).mark_offline(b, t(6)).unwrap();
    let standings = db.standings();
    assert_eq!(standings.len(), 2);
    assert_eq!(standings[0].id, a);
    assert_eq!(standings[0].kind, NodeKind::Drone);
    assert_eq!(standings[0].cluster, Some(cluster("c")));
    assert_eq!(standings[0].last_heartbeat, t(5));
    assert_eq!(standings[0].offline_at, None);
    assert_eq!(standings[0].capacity, Some(7));
    assert_eq!(standings[0].load, 1);
    assert_eq!(standings[1].id, b);
    assert_eq!(standings[1].kind, NodeKind::Proxy);
    assert_eq!(standings[1].cluster, None);
    assert_eq!(standings[1].offline_at, Some(t(6)));
    assert_eq!(standings[1].load, 0);
}

#[test]
fn load_counts_live_backends_of_the_drone() {
    let mut db = PlaneDatabase::new();
    let a = register(&mut db, "dr-a", Some("c"), t(1));
    let b = register(&mut db, "dr-b", Some("c"), t(1));
    run(&mut db, "b1", a, t(1));
    run(&mut db, "b2", a, t(1));
    run(&mut db, "b3", b, t(1));
    end(&mut db, "b2", t(2));
    let mut c = Controller::new(db, ControllerName("co".to_string()), vec![], None);
    let rows = BackendDatabase::new(&mut c.db).list_backends(t(2));
    assert_eq!(rows.iter().filter(|r| r.drone_id == a).count(), 2);
    assert_eq!(count_load(&vec![], a), 0);
}

#[test]
fn a_handshake_with_an_unknown_kind_of_name_is_refused() {
    let mut c = Controller::new(PlaneDatabase::new(), ControllerName("co-1".to_string()), vec![], None);
    let version = || PlaneVersionInfo { version: "0.4.0".to_string(), git_hash: "x".to_string() };
    let r = c.register_node(
        Handshake { version: version(), name: "controller".to_string() },
        None,
        "10.0.0.1".to_string(),
        t(1),
    );
    assert_eq!(r.map(|h| h.id), Err(StoreError::InvalidHandshake));
    let r = c.register_node(
        Handshake { version: version(), name: "dr-1".to_string() },
        Some(&cluster("c")),
        "10.0.0.1".to_string(),
        t(1),
    );
    assert_eq!(r.map(|h| h.id), Ok(NodeId(1)));
}

#[test]
fn releasing_the_handle_takes_the_node_offline() {
    let mut c = Controller::new(PlaneDatabase::new(), ControllerName("co-1".to_string()), vec![], None);
    let version = || PlaneVersionInfo { version: "0.4.0".to_string(), git_hash: "x".to_string() };
    let cl = cluster("c");
    let handle = c
        .register_node(
            Handshake { version: version(), name: "dr-1".to_string() },
            Some(&cl),
            "10.0.0.1".to_string(),
            t(1),
        )
        .unwrap();
    assert_eq!(c.db.select_drone(&cl, t(2)), Some(handle.id));
    let id = handle.id;
    assert_eq!(handle.release(&mut c.db, t(3)), Ok(()));
    assert_eq!(c.db.select_drone(&cl, t(3)), None);
    // The node comes back online when it registers again.
    let again = c
        .register_node(
            Handshake { version: version(), name: "dr-1".to_string() },
            Some(&cl),
            "10.0.0.2".to_string(),
            t(4),
        )
        .unwrap();
    assert_eq!(again.id, id);
    assert_eq!(c.db.select_drone(&cl, t(4)), Some(id));
    assert_eq!(NodeHandle { id: NodeId(99) }.release(&mut c.db, t(5)), Err(StoreError::NotFound));
}

#[test]
fn the_kind_of_termination_depends_on_the_grace_window() {
    assert_eq!(TERMINATION_GRACE_SECONDS, 10);
    assert_eq!(termination_kind(None, t(100)), TerminationKind::Soft);
    assert_eq!(termination_kind(Some(t(100)), t(100)), TerminationKind::Soft);
    assert_eq!(termination_kind(Some(t(100)), t(110)), TerminationKind::Soft);
    assert_eq!(
        termination_kind(Some(t(100)), Timestamp { micros: 110_000_001 }),
        TerminationKind::Hard
    );
    assert_eq!(termination_kind(Some(t(100)), t(50)), TerminationKind::Soft);
}

#[test]
fn the_sweeper_remembers_when_a_backend_was_first_due() {
    let mut s = Sweeper::new();
    let orders = s.sweep(&vec![candidate("a", t(10)), candidate("b", t(10))]);
    let kinds: Vec<(String, TerminationKind)> =
        orders.into_iter().map(|o| (o.backend_id.0, o.kind)).collect();
    assert_eq!(
        kinds,
        vec![("a".to_string(), TerminationKind::Soft), ("b".to_string(), TerminationKind::Soft)]
    );
    assert_eq!(s.first_seen_of(&BackendName("a".to_string())), Some(t(10)));
    assert_eq!(s.first_seen_of(&BackendName("c".to_string())), None);
    // `b` is no longer due at the next sweep and `c` is new.
    let orders = s.sweep(&vec![candidate("c", t(21)), candidate("a", t(21))]);
    let kinds: Vec<(String, TerminationKind)> =
        orders.into_iter().map(|o| (o.backend_id.0, o.kind)).collect();
    assert_eq!(
        kinds,
        vec![("c".to_string(), TerminationKind::Soft), ("a".to_string(), TerminationKind::Hard)]
    );
    assert_eq!(s.first_seen_of(&BackendName("a".to_string())), Some(t(10)));
    assert_eq!(s.first_seen_of(&BackendName("b".to_string())), None);
    assert_eq!(s.first_seen_of(&BackendName("c".to_string())), Some(t(21)));
    // A backend that is due again later starts a new grace window.
    let orders = s.sweep(&vec![candidate("b", t(40))]);
    assert_eq!(orders[0].kind, TerminationKind::Soft);
    assert_eq!(s.observed.len(), 1);
}

#[test]
fn actions_reach_the_subscribers_of_the_drone() {
    let mut db = PlaneDatabase::new();
    let one = db.subscribe(NotificationKind::BackendAction, NotificationKey::Node(NodeId(1)));
    let two = db.subscribe(NotificationKind::BackendAction, NotificationKey::Node(NodeId(2)));
    let message = BackendActionMessage {
        action_id: BackendActionName("ak-1".to_string()),
        backend_id: BackendName("b1".to_string()),
        drone_id: NodeId(1),
        action: BackendAction::Terminate { kind: TerminationKind::Hard },
    };
    db.send_action(message.clone(), t(5));
    match db.next_notification(one) {
        Received::Event(note) => {
            assert_eq!(note.key, NotificationKey::Node(NodeId(1)));
            assert_eq!(note.payload, Payload::Action(message));
            assert_eq!(note.timestamp, t(5));
        }
        other => panic!("unexpected {:?}", other),
    }
    assert_eq!(db.next_notification(two), Received::Empty);
}
