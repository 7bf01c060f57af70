use plane::controller::{Controller, Handshake};
use plane::database::backend::BackendDatabase;
use plane::database::connect::{
    plan_connect, render_url, should_retry, timed_out, FreshNames, KeyBinding, UrlPart,
    MAX_CONNECT_ATTEMPTS,
};
use plane::names::NodeKind;
use plane::scheduler::DroneStanding;
use plane::database::node::NodeDatabase;
use plane::database::subscribe::{NotificationKey, NotificationKind, Payload, Received};
use plane::database::PlaneDatabase;
use plane::names::{
    BackendActionName, BackendName, BearerToken, ClusterName, ControllerName, NodeId, SecretToken,
};
use plane::protocol::BackendAction;
use plane::status::{BackendStatus, Timestamp};
use plane::stream::StreamStep;
use plane::sweeper::Sweeper;
use plane::protocol::TerminationKind;
use plane::types::{
    BackendAddr, ConnectError, ConnectRequest, ConnectResponse, ExecutorConfig, KeyConfig,
    SpawnConfig,
};
use plane::PlaneVersionInfo;

fn t(seconds: i64) -> Timestamp {
    Timestamp { micros: seconds * 1_000_000 }
}

fn cluster(s: &str) -> ClusterName {
    ClusterName(s.to_string())
}

fn template() -> Vec<UrlPart> {
    vec![
        UrlPart::Text("https://".to_string()),
        UrlPart::Cluster,
        UrlPart::Text("/".to_string()),
        UrlPart::Token,
        UrlPart::Text("/".to_string()),
    ]
}

fn controller(default_cluster: Option<&str>) -> Controller {
    Controller::new(
        PlaneDatabase::new(),
        ControllerName("co-1".to_string()),
        template(),
        default_cluster.map(cluster),
    )
}

fn handshake(name: &str) -> Handshake {
    Handshake {
        version: PlaneVersionInfo { version: "0.4.0".to_string(), git_hash: "abc".to_string() },
        name: name.to_string(),
    }
}

fn add_drone(c: &mut Controller, name: &str, in_cluster: &str, now: Timestamp) -> NodeId {
    let cl = cluster(in_cluster);
    c.register_node(handshake(name), Some(&cl), "10.0.0.9".to_string(), now).unwrap().id
}

fn fresh(n: u32) -> FreshNames {
    FreshNames {
        backend: BackendName(format!("backend-{}", n)),
        action: BackendActionName(format!("ak-{}", n)),
        token: BearerToken(format!("token-{}", n)),
        secret_token: SecretToken(format!("secret-{}", n)),
    }
}

fn spawn_config(in_cluster: Option<&str>) -> SpawnConfig {
    SpawnConfig {
        cluster: in_cluster.map(cluster),
        executable: ExecutorConfig { image: "demo".to_string(), settings: "{}".to_string() },
        lifetime_limit_seconds: Some(5),
        max_idle_seconds: None,
    }
}

fn key(name: &str) -> KeyConfig {
    KeyConfig { name: name.to_string(), namespace: "".to_string(), tag: "".to_string() }
}

fn request(config: Option<SpawnConfig>, key: Option<KeyConfig>) -> ConnectRequest {
    ConnectRequest { spawn_config: config, key, user: None, auth: "{}".to_string() }
}

fn set_status(c: &mut Controller, id: &BackendName, status: BackendStatus, now: Timestamp) {
    BackendDatabase::new(&mut c.db).update_status(id, status, None, None, now).unwrap();
}

#[test]
fn reuse_key() {
    let mut c = controller(None);
    add_drone(&mut c, "dr-1", "c", t(0));
    let req = request(Some(spawn_config(Some("c"))), Some(key("reuse-key")));

    let response = c.connect(&req, fresh(1), t(1)).unwrap();
    assert!(response.spawned);
    let backend_id = response.backend_id.clone();
    let mut stream = BackendDatabase::new(&mut c.db).status_stream(&backend_id);

    let response2 = c.connect(&req, fresh(2), t(1)).unwrap();
    assert!(!response2.spawned);
    assert_eq!(response2.backend_id, backend_id);
    assert_ne!(response2.token, response.token);

    for (status, at) in [
        (BackendStatus::Loading, 2),
        (BackendStatus::Ready, 3),
        (BackendStatus::Terminating, 7),
        (BackendStatus::Terminated, 8),
    ] {
        set_status(&mut c, &backend_id, status, t(at));
    }
    let mut seen = vec![];
    loop {
        match stream.next(&mut c.db) {
            StreamStep::Yield(e) => {
                seen.push(e.status);
                if e.status == BackendStatus::Terminated {
                    break;
                }
            }
            other => panic!("unexpected {:?}", other),
        }
    }
    assert_eq!(
        seen,
        vec![
            BackendStatus::Scheduled,
            BackendStatus::Loading,
            BackendStatus::Ready,
            BackendStatus::Terminating,
            BackendStatus::Terminated
        ]
    );

    let response3 = c.connect(&req, fresh(3), t(9)).unwrap();
    assert!(response3.spawned);
    assert_ne!(response3.backend_id, backend_id);
}

#[test]
fn connect_without_drone_fails() {
    let mut c = controller(None);
    let req = request(Some(spawn_config(Some("c"))), None);
    assert_eq!(c.connect(&req, fresh(1), t(1)), Err(ConnectError::NoDroneAvailable));
    // A drone of another cluster does not help, nor does a proxy of this one.
    add_drone(&mut c, "dr-1", "d", t(0));
    add_drone(&mut c, "pr-1", "c", t(0));
    assert_eq!(c.connect(&req, fresh(1), t(1)), Err(ConnectError::NoDroneAvailable));
    assert!(BackendDatabase::new(&mut c.db).list_backends(t(1)).is_empty());
}

#[test]
fn connect_without_config_and_key_is_not_found() {
    let mut c = controller(Some("c"));
    add_drone(&mut c, "dr-1", "c", t(0));
    assert_eq!(c.connect(&request(None, None), fresh(1), t(1)), Err(ConnectError::NotFound));
}

#[test]
fn connect_without_config_and_with_unbound_key_is_not_found() {
    let mut c = controller(Some("c"));
    add_drone(&mut c, "dr-1", "c", t(0));
    let req = request(None, Some(key("k")));
    assert_eq!(c.connect(&req, fresh(1), t(1)), Err(ConnectError::NotFound));
}

#[test]
fn connect_without_any_cluster_fails() {
    let mut c = controller(None);
    add_drone(&mut c, "dr-1", "c", t(0));
    assert_eq!(c.connect(&request(None, None), fresh(1), t(1)), Err(ConnectError::NoCluster));
    let req = request(Some(spawn_config(None)), Some(key("k")));
    assert_eq!(c.connect(&req, fresh(1), t(1)), Err(ConnectError::NoCluster));
}

#[test]
fn the_cluster_of_the_request_goes_before_the_default() {
    let mut c = controller(Some("d"));
    add_drone(&mut c, "dr-1", "c", t(0));
    let req = request(Some(spawn_config(Some("c"))), None);
    let r = c.connect(&req, fresh(1), t(1)).unwrap();
    assert_eq!(r.url, "https://c/token-1/");
    let row = BackendDatabase::new(&mut c.db).backend(&r.backend_id, t(1)).unwrap();
    assert_eq!(row.cluster, "c");
    let req = request(Some(spawn_config(None)), None);
    assert_eq!(c.connect(&req, fresh(2), t(1)), Err(ConnectError::NoDroneAvailable));
}

#[test]
fn fifty_connects_with_one_key_start_one_backend() {
    let mut c = controller(None);
    add_drone(&mut c, "dr-1", "c", t(0));
    let req = request(Some(spawn_config(Some("c"))), Some(key("k")));
    let responses: Vec<ConnectResponse> =
        (0..50).map(|i| c.connect(&req, fresh(i), t(1)).unwrap()).collect();
    assert_eq!(responses.iter().filter(|r| r.spawned).count(), 1);
    assert!(responses[0].spawned);
    for r in &responses {
        assert_eq!(r.backend_id, responses[0].backend_id);
    }
    let mut tokens: Vec<&String> = responses.iter().map(|r| &r.token.0).collect();
    tokens.sort();
    tokens.dedup();
    assert_eq!(tokens.len(), 50);
    assert_eq!(BackendDatabase::new(&mut c.db).list_backends(t(1)).len(), 1);
}

#[test]
fn a_spawn_answers_with_the_fresh_names_and_status_scheduled() {
    let mut c = controller(Some("c"));
    let drone = add_drone(&mut c, "dr-1", "c", t(95));
    let mut req = request(Some(spawn_config(None)), None);
    req.user = Some("ann".to_string());
    req.auth = "{\"role\":\"x\"}".to_string();
    let r = c.connect(&req, fresh(7), t(100)).unwrap();
    assert_eq!(
        r,
        ConnectResponse {
            backend_id: BackendName("backend-7".to_string()),
            spawned: true,
            token: BearerToken("token-7".to_string()),
            url: "https://c/token-7/".to_string(),
            secret_token: SecretToken("secret-7".to_string()),
            status: BackendStatus::Scheduled,
        }
    );
    let row = BackendDatabase::new(&mut c.db).backend(&r.backend_id, t(100)).unwrap();
    assert_eq!(row.drone_id, drone);
    assert_eq!(row.expiration_time, Some(t(105)));
    assert_eq!(row.allowed_idle_seconds, None);
    assert_eq!(row.last_status, BackendStatus::Scheduled);
}

#[test]
fn a_reuse_answers_with_the_current_status() {
    let mut c = controller(Some("c"));
    add_drone(&mut c, "dr-1", "c", t(0));
    let req = request(Some(spawn_config(None)), Some(key("k")));
    let first = c.connect(&req, fresh(1), t(1)).unwrap();
    set_status(&mut c, &first.backend_id, BackendStatus::Ready, t(2));
    // A request with the key alone is enough to be connected.
    let second = c.connect(&request(None, Some(key("k"))), fresh(2), t(3)).unwrap();
    assert_eq!(second.backend_id, first.backend_id);
    assert!(!second.spawned);
    assert_eq!(second.status, BackendStatus::Ready);
    assert_eq!(second.token, BearerToken("token-2".to_string()));
    assert_eq!(second.secret_token, SecretToken("secret-2".to_string()));
    assert_eq!(second.url, "https://c/token-2/");
}

#[test]
fn a_key_is_scoped_to_its_cluster() {
    let mut c = controller(None);
    add_drone(&mut c, "dr-1", "c", t(0));
    add_drone(&mut c, "dr-2", "d", t(0));
    let in_c = request(Some(spawn_config(Some("c"))), Some(key("k")));
    let in_d = request(Some(spawn_config(Some("d"))), Some(key("k")));
    let a = c.connect(&in_c, fresh(1), t(1)).unwrap();
    let b = c.connect(&in_d, fresh(2), t(1)).unwrap();
    assert!(a.spawned && b.spawned);
    assert_ne!(a.backend_id, b.backend_id);
    assert_eq!(c.connect(&in_c, fresh(3), t(1)).unwrap().backend_id, a.backend_id);
    assert_eq!(c.connect(&in_d, fresh(4), t(1)).unwrap().backend_id, b.backend_id);
}

#[test]
fn a_key_is_free_again_once_its_backend_has_terminated() {
    let mut c = controller(Some("c"));
    add_drone(&mut c, "dr-1", "c", t(0));
    let req = request(Some(spawn_config(None)), Some(key("k")));
    let first = c.connect(&req, fresh(1), t(1)).unwrap();
    set_status(&mut c, &first.backend_id, BackendStatus::Terminating, t(2));
    assert_eq!(c.connect(&req, fresh(2), t(3)).unwrap().backend_id, first.backend_id);
    set_status(&mut c, &first.backend_id, BackendStatus::Terminated, t(4));
    // Without a spawn configuration there is nothing to connect to.
    assert_eq!(
        c.connect(&request(None, Some(key("k"))), fresh(3), t(5)),
        Err(ConnectError::NotFound)
    );
    let again = c.connect(&req, fresh(4), t(5)).unwrap();
    assert!(again.spawned);
    assert_eq!(again.backend_id, BackendName("backend-4".to_string()));
    assert_eq!(c.connect(&req, fresh(5), t(6)).unwrap().backend_id, again.backend_id);
}

#[test]
fn names_that_are_not_fresh_fail_the_request_and_change_nothing() {
    let mut c = controller(Some("c"));
    add_drone(&mut c, "dr-1", "c", t(0));
    let req = request(Some(spawn_config(None)), None);
    c.connect(&req, fresh(1), t(1)).unwrap();
    // The backend name is taken.
    let mut names = fresh(2);
    names.backend = BackendName("backend-1".to_string());
    assert_eq!(c.connect(&req, names, t(2)), Err(ConnectError::DbError));
    // The token is taken.
    let mut names = fresh(3);
    names.token = BearerToken("token-1".to_string());
    assert_eq!(c.connect(&req, names, t(2)), Err(ConnectError::DbError));
    assert_eq!(BackendDatabase::new(&mut c.db).list_backends(t(2)).len(), 1);
    // On reuse only the token matters.
    let keyed = request(Some(spawn_config(None)), Some(key("k")));
    c.connect(&keyed, fresh(4), t(3)).unwrap();
    let mut names = fresh(5);
    names.backend = BackendName("backend-4".to_string());
    assert!(c.connect(&keyed, names, t(3)).is_ok());
    let mut names = fresh(6);
    names.token = BearerToken("token-4".to_string());
    assert_eq!(c.connect(&keyed, names, t(3)), Err(ConnectError::DbError));
}

#[test]
fn limits_that_cannot_be_stored_fail_the_request() {
    let mut c = controller(Some("c"));
    add_drone(&mut c, "dr-1", "c", t(0));
    let mut config = spawn_config(None);
    config.lifetime_limit_seconds = Some(i64::MAX);
    assert_eq!(c.connect(&request(Some(config), None), fresh(1), t(1)), Err(ConnectError::DbError));
    let mut config = spawn_config(None);
    config.max_idle_seconds = Some(i32::MAX as i64 + 1);
    assert_eq!(c.connect(&request(Some(config), None), fresh(1), t(1)), Err(ConnectError::DbError));
    let mut config = spawn_config(None);
    config.lifetime_limit_seconds = None;
    config.max_idle_seconds = Some(i32::MAX as i64);
    let r = c.connect(&request(Some(config), None), fresh(1), t(1)).unwrap();
    let row = BackendDatabase::new(&mut c.db).backend(&r.backend_id, t(1)).unwrap();
    assert_eq!(row.allowed_idle_seconds, Some(i32::MAX));
    assert_eq!(row.expiration_time, None);
}

#[test]
fn a_token_leads_to_its_backend_once_the_backend_has_an_address() {
    let mut c = controller(Some("c"));
    add_drone(&mut c, "dr-1", "c", t(0));
    let mut req = request(Some(spawn_config(None)), Some(key("k")));
    req.user = Some("ann".to_string());
    let first = c.connect(&req, fresh(1), t(1)).unwrap();
    req.user = Some("bob".to_string());
    let second = c.connect(&req, fresh(2), t(1)).unwrap();
    assert!(BackendDatabase::new(&mut c.db).route_info_for_token(&first.token).is_none());
    assert!(BackendDatabase::new(&mut c.db).route_info_for_token(&second.token).is_none());
    BackendDatabase::new(&mut c.db)
        .update_status(
            &first.backend_id,
            BackendStatus::Ready,
            Some(BackendAddr::v4(10, 1, 2, 3, 4000)),
            None,
            t(2),
        )
        .unwrap();
    let a = BackendDatabase::new(&mut c.db).route_info_for_token(&first.token).unwrap();
    let b = BackendDatabase::new(&mut c.db).route_info_for_token(&second.token).unwrap();
    assert_eq!(a.backend_id, first.backend_id);
    assert_eq!(b.backend_id, first.backend_id);
    assert_eq!(a.address, BackendAddr::v4(10, 1, 2, 3, 4000));
    assert_eq!(a.secret_token, first.secret_token);
    assert_eq!(b.secret_token, second.secret_token);
    assert_eq!(a.user, Some("ann".to_string()));
    assert_eq!(b.user, Some("bob".to_string()));
    assert_eq!(a.user_data, Some("{}".to_string()));
}

#[test]
fn a_spawn_is_announced_and_sent_to_the_drone() {
    let mut c = controller(Some("c"));
    let drone = add_drone(&mut c, "dr-1", "c", t(0));
    let actions = c.db.subscribe(NotificationKind::BackendAction, NotificationKey::Node(drone));
    let mut config = spawn_config(None);
    config.max_idle_seconds = Some(30);
    let req = request(Some(config), Some(key("k")));
    let r = c.connect(&req, fresh(1), t(10)).unwrap();
    match c.db.next_notification(actions) {
        Received::Event(note) => {
            assert_eq!(note.timestamp, t(10));
            match note.payload {
                Payload::Action(m) => {
                    assert_eq!(m.action_id, BackendActionName("ak-1".to_string()));
                    assert_eq!(m.backend_id, r.backend_id);
                    assert_eq!(m.drone_id, drone);
                    assert_eq!(
                        m.action,
                        BackendAction::Spawn {
                            executable: ExecutorConfig { image: "demo".to_string(), settings: "{}".to_string() },
                            expiration_time: Some(t(15)),
                            allowed_idle_seconds: Some(30),
                        }
                    );
                }
                other => panic!("unexpected {:?}", other),
            }
        }
        other => panic!("unexpected {:?}", other),
    }
    // A reuse sends nothing.
    c.connect(&req, fresh(2), t(11)).unwrap();
    assert_eq!(c.db.next_notification(actions), Received::Empty);
}

#[test]
fn a_failed_connect_sends_nothing() {
    let mut c = controller(Some("c"));
    let drone = add_drone(&mut c, "dr-1", "c", t(0));
    let actions = c.db.subscribe(NotificationKind::BackendAction, NotificationKey::Node(drone));
    let mut config = spawn_config(None);
    config.lifetime_limit_seconds = Some(i64::MAX);
    assert!(c.connect(&request(Some(config), None), fresh(1), t(1)).is_err());
    assert_eq!(c.db.next_notification(actions), Received::Empty);
}

#[test]
fn one_attempt_does_what_a_connect_does() {
    let mut c = controller(Some("c"));
    add_drone(&mut c, "dr-1", "c", t(0));
    let req = request(Some(spawn_config(None)), Some(key("k")));
    let cl = cluster("c");
    let first = c.db.connect_once(Some(&cl), &req, fresh(1), &template(), t(1)).unwrap();
    assert!(first.spawned);
    let second = c.db.connect_once(Some(&cl), &req, fresh(2), &template(), t(1)).unwrap();
    assert!(!second.spawned);
    assert_eq!(second.backend_id, first.backend_id);
    assert_eq!(
        c.db.connect_once(None, &request(None, None), fresh(3), &template(), t(1)),
        Err(ConnectError::NoCluster)
    );
}

fn drone(id: i32, load: usize) -> DroneStanding {
    DroneStanding {
        id: NodeId(id),
        kind: NodeKind::Drone,
        cluster: Some(cluster("c")),
        last_heartbeat: t(100),
        offline_at: None,
        capacity: None,
        load,
    }
}

#[test]
fn the_plan_for_a_live_holder_is_to_issue_a_token_only() {
    let cl = cluster("c");
    let req = request(Some(spawn_config(None)), Some(key("k")));
    let binding = Some(KeyBinding {
        backend: BackendName("held".to_string()),
        status: Some(BackendStatus::Ready),
    });
    let plan = plan_connect(Some(&cl), &req, &binding, &vec![], fresh(1), &template(), t(100))
        .ok()
        .unwrap();
    assert!(!plan.clear_binding);
    assert!(plan.backend.is_none());
    assert!(plan.action.is_none());
    assert_eq!(plan.token.token, BearerToken("token-1".to_string()));
    assert_eq!(plan.token.backend, BackendName("held".to_string()));
    assert_eq!(plan.token.secret_token, SecretToken("secret-1".to_string()));
    assert_eq!(plan.token.auth, "{}");
    assert_eq!(
        plan.response,
        ConnectResponse {
            backend_id: BackendName("held".to_string()),
            spawned: false,
            token: BearerToken("token-1".to_string()),
            url: "https://c/token-1/".to_string(),
            secret_token: SecretToken("secret-1".to_string()),
            status: BackendStatus::Ready,
        }
    );
}

#[test]
fn the_plan_for_a_free_key_is_to_start_a_backend_on_the_drone_chosen() {
    let cl = cluster("c");
    let mut config = spawn_config(None);
    config.max_idle_seconds = Some(9);
    let req = request(Some(config), Some(key("k")));
    let standings = vec![drone(3, 2), drone(8, 1), drone(5, 1)];
    let plan = plan_connect(Some(&cl), &req, &None, &standings, fresh(1), &template(), t(100))
        .ok()
        .unwrap();
    assert!(!plan.clear_binding);
    let backend = plan.backend.unwrap();
    assert_eq!(backend.id, BackendName("backend-1".to_string()));
    assert_eq!(backend.cluster, cl);
    assert_eq!(backend.drone_id, NodeId(5));
    assert_eq!(backend.expiration_time, Some(t(105)));
    assert_eq!(backend.allowed_idle_seconds, Some(9));
    assert_eq!(backend.key, Some(key("k")));
    assert_eq!(plan.token.backend, BackendName("backend-1".to_string()));
    let action = plan.action.unwrap();
    assert_eq!(action.drone_id, NodeId(5));
    assert_eq!(action.backend_id, BackendName("backend-1".to_string()));
    assert_eq!(action.action_id, BackendActionName("ak-1".to_string()));
    assert!(plan.response.spawned);
    assert_eq!(plan.response.status, BackendStatus::Scheduled);
    assert_eq!(plan.response.url, "https://c/token-1/");
}

#[test]
fn the_plan_clears_a_binding_without_a_live_holder() {
    let cl = cluster("c");
    let req = request(Some(spawn_config(None)), Some(key("k")));
    for status in [Some(BackendStatus::Terminated), None] {
        let binding = Some(KeyBinding { backend: BackendName("old".to_string()), status });
        let plan =
            plan_connect(Some(&cl), &req, &binding, &vec![drone(1, 0)], fresh(1), &template(), t(100))
                .ok()
                .unwrap();
        assert!(plan.clear_binding);
        assert_eq!(plan.backend.unwrap().id, BackendName("backend-1".to_string()));
        assert!(plan.response.spawned);
    }
}

#[test]
fn a_plan_fails_as_a_connect_does() {
    let cl = cluster("c");
    let err = |default: Option<&ClusterName>,
               req: ConnectRequest,
               binding: Option<KeyBinding>,
               standings: Vec<DroneStanding>| {
        plan_connect(default, &req, &binding, &standings, fresh(1), &template(), t(100)).err()
    };
    assert_eq!(err(None, request(None, None), None, vec![]), Some(ConnectError::NoCluster));
    assert_eq!(err(Some(&cl), request(None, Some(key("k"))), None, vec![]), Some(ConnectError::NotFound));
    let stale = Some(KeyBinding {
        backend: BackendName("old".to_string()),
        status: Some(BackendStatus::Terminated),
    });
    assert_eq!(
        err(Some(&cl), request(None, Some(key("k"))), stale, vec![drone(1, 0)]),
        Some(ConnectError::NotFound)
    );
    assert_eq!(
        err(Some(&cl), request(Some(spawn_config(None)), None), None, vec![]),
        Some(ConnectError::NoDroneAvailable)
    );
    let mut config = spawn_config(None);
    config.max_idle_seconds = Some(i64::MIN);
    assert_eq!(
        err(Some(&cl), request(Some(config), None), None, vec![drone(1, 0)]),
        Some(ConnectError::DbError)
    );
}

#[test]
fn urls_are_made_from_the_template() {
    let cl = cluster("plane.test");
    let b = BackendName("b1".to_string());
    let tok = BearerToken("tok".to_string());
    assert_eq!(render_url(&template(), &cl, &b, &tok), "https://plane.test/tok/");
    assert_eq!(render_url(&vec![], &cl, &b, &tok), "");
    let other = vec![
        UrlPart::Backend,
        UrlPart::Text(".".to_string()),
        UrlPart::Cluster,
        UrlPart::Text("?t=".to_string()),
        UrlPart::Token,
        UrlPart::Token,
    ];
    assert_eq!(render_url(&other, &cl, &b, &tok), "b1.plane.test?t=toktok");
}

#[test]
fn only_conflicts_are_retried_and_only_so_often() {
    assert_eq!(MAX_CONNECT_ATTEMPTS, 3);
    assert!(should_retry(ConnectError::Conflict, 0));
    assert!(should_retry(ConnectError::Conflict, 2));
    assert!(!should_retry(ConnectError::Conflict, 3));
    assert!(!should_retry(ConnectError::Conflict, u32::MAX));
    for e in [
        ConnectError::NoCluster,
        ConnectError::NotFound,
        ConnectError::NoDroneAvailable,
        ConnectError::DbError,
    ] {
        assert!(!should_retry(e, 0));
    }
}

#[test]
fn a_request_times_out_after_five_seconds() {
    assert!(!timed_out(t(10), t(15)));
    assert!(timed_out(t(10), Timestamp { micros: 15_000_001 }));
    assert!(!timed_out(t(10), t(9)));
    assert!(timed_out(Timestamp { micros: i64::MIN }, Timestamp { micros: i64::MAX }));
}

#[test]
fn lifetime_eviction() {
    let mut c = controller(Some("c"));
    let drone = add_drone(&mut c, "dr-1", "c", t(95));
    let r = c.connect(&request(Some(spawn_config(None)), None), fresh(1), t(100)).unwrap();
    let mut sweeper = Sweeper::new();
    let due = BackendDatabase::new(&mut c.db).termination_candidates(drone, t(105));
    assert!(sweeper.sweep(&due).is_empty());
    let due = BackendDatabase::new(&mut c.db).termination_candidates(drone, t(106));
    let orders = sweeper.sweep(&due);
    assert_eq!(orders.len(), 1);
    assert_eq!(orders[0].backend_id, r.backend_id);
    assert_eq!(orders[0].kind, TerminationKind::Soft);
    let due = BackendDatabase::new(&mut c.db).termination_candidates(drone, t(116));
    assert_eq!(sweeper.sweep(&due)[0].kind, TerminationKind::Soft);
    let due = BackendDatabase::new(&mut c.db).termination_candidates(drone, t(117));
    assert_eq!(sweeper.sweep(&due)[0].kind, TerminationKind::Hard);
    set_status(&mut c, &r.backend_id, BackendStatus::Terminated, t(118));
    let due = BackendDatabase::new(&mut c.db).termination_candidates(drone, t(119));
    assert!(sweeper.sweep(&due).is_empty());
    assert!(sweeper.observed.is_empty());
    let _ = NodeDatabase::new(&mut c.db);
}
