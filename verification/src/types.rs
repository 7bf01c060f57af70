//! What clients send to the controller and what they get back.

use vstd::prelude::*;
use crate::database::model::KeyView;
use crate::names::{BackendName, BearerToken, ClusterName, SecretToken};
use crate::status::BackendStatus;

verus! {

/// The view of an optional value: the view of what it holds.
pub open spec fn opt_view<T: View>(o: Option<T>) -> Option<T::V> {
    match o {
        Some(x) => Some(x@),
        None => None,
    }
}

/// The view of an optional text.
pub open spec fn opt_text(o: Option<String>) -> Option<Seq<char>> {
    match o {
        Some(x) => Some(x@),
        None => None,
    }
}

/// Copies an optional text.
pub fn clone_opt_text(o: &Option<String>) -> (r: Option<String>)
    ensures
        r == *o,
{
    match o {
        Some(x) => Some(x.clone()),
        None => None,
    }
}

/// An internet address, as the number that its bytes make when read from
/// the first to the last.
#[derive(Clone, Copy, Debug, PartialEq, Eq, Structural, Hash)]
pub enum IpAddress {
    /// An address of four bytes.
    V4(u32),
    /// An address of sixteen bytes.
    V6(u128),
}

/// The address at which a backend listens: an internet address and a port.
/// Every value is an address; text that is none cannot be made into one.
#[derive(Clone, Copy, Debug, PartialEq, Eq, Structural, Hash)]
pub struct BackendAddr {
    pub ip: IpAddress,
    pub port: u16,
}

/// The number that the four bytes of an address make.
pub open spec fn v4_number(a: u8, b: u8, c: u8, d: u8) -> int {
    a * 16_777_216 + b * 65_536 + c * 256 + d
}

impl BackendAddr {
    /// The address `a.b.c.d:port`.
    pub fn v4(a: u8, b: u8, c: u8, d: u8, port: u16) -> (r: BackendAddr)
        ensures
            r.ip == IpAddress::V4(v4_number(a, b, c, d) as u32),
            r.port == port,
    {
        let number: u32 = (a as u32) * 16_777_216 + (b as u32) * 65_536 + (c as u32) * 256 + (
        d as u32);
        BackendAddr { ip: IpAddress::V4(number), port }
    }
}

/// What a drone is to run for a backend.
#[derive(Debug, PartialEq, Eq)]
pub struct ExecutorConfig {
    pub image: String,
    /// Whatever else the drone needs to run the image; handed on unread.
    pub settings: String,
}

/// The model of an `ExecutorConfig`.
pub struct ExecutorView {
    pub image: Seq<char>,
    pub settings: Seq<char>,
}

impl View for ExecutorConfig {
    type V = ExecutorView;

    open spec fn view(&self) -> ExecutorView {
        ExecutorView { image: self.image@, settings: self.settings@ }
    }
}

impl Clone for ExecutorConfig {
    fn clone(&self) -> (r: Self)
        ensures
            r == *self,
    {
        ExecutorConfig { image: self.image.clone(), settings: self.settings.clone() }
    }
}

/// Names the slot that at most one live backend of a cluster can hold.
#[derive(Debug, PartialEq, Eq, Hash)]
pub struct KeyConfig {
    pub name: String,
    pub namespace: String,
    pub tag: String,
}

impl View for KeyConfig {
    type V = KeyView;

    open spec fn view(&self) -> KeyView {
        KeyView { name: self.name@, namespace: self.namespace@, tag: self.tag@ }
    }
}

impl Clone for KeyConfig {
    fn clone(&self) -> (r: Self)
        ensures
            r == *self,
    {
        KeyConfig {
            name: self.name.clone(),
            namespace: self.namespace.clone(),
            tag: self.tag.clone(),
        }
    }
}

impl KeyConfig {
    pub fn same_as(&self, other: &KeyConfig) -> (r: bool)
        ensures
            r == (self@ == other@),
    {
        self.name == other.name && self.namespace == other.namespace && self.tag == other.tag
    }
}

/// How to start a backend where none can be reused.
#[derive(Debug, PartialEq, Eq)]
pub struct SpawnConfig {
    /// The cluster to place the backend in; the controller's default where absent.
    pub cluster: Option<ClusterName>,
    pub executable: ExecutorConfig,
    /// Seconds after which the backend is terminated, counted from its creation.
    pub lifetime_limit_seconds: Option<i64>,
    /// Seconds without a sign of life after which the backend is terminated.
    pub max_idle_seconds: Option<i64>,
}

/// The model of a `SpawnConfig`.
pub struct SpawnView {
    pub cluster: Option<Seq<char>>,
    pub executable: ExecutorView,
    pub lifetime_limit_seconds: Option<i64>,
    pub max_idle_seconds: Option<i64>,
}

impl View for SpawnConfig {
    type V = SpawnView;

    open spec fn view(&self) -> SpawnView {
        SpawnView {
            cluster: opt_view(self.cluster),
            executable: self.executable@,
            lifetime_limit_seconds: self.lifetime_limit_seconds,
            max_idle_seconds: self.max_idle_seconds,
        }
    }
}

/// A request to be connected to a backend: to the one that holds `key`, if
/// there is one, else to a new one made from `spawn_config`.
#[derive(Debug, PartialEq, Eq)]
pub struct ConnectRequest {
    pub spawn_config: Option<SpawnConfig>,
    pub key: Option<KeyConfig>,
    pub user: Option<String>,
    /// What the client's application attaches to the connection; handed on unread.
    pub auth: String,
}

/// The model of a `ConnectRequest`.
pub struct ConnectRequestView {
    pub spawn_config: Option<SpawnView>,
    pub key: Option<KeyView>,
    pub user: Option<Seq<char>>,
    pub auth: Seq<char>,
}

impl View for ConnectRequest {
    type V = ConnectRequestView;

    open spec fn view(&self) -> ConnectRequestView {
        ConnectRequestView {
            spawn_config: opt_view(self.spawn_config),
            key: opt_view(self.key),
            user: opt_text(self.user),
            auth: self.auth@,
        }
    }
}

/// The answer to a connect request.
#[derive(Debug, PartialEq, Eq)]
pub struct ConnectResponse {
    pub backend_id: BackendName,
    /// Whether the backend was started for this request.
    pub spawned: bool,
    pub token: BearerToken,
    pub url: String,
    pub secret_token: SecretToken,
    pub status: BackendStatus,
}

/// The model of a `ConnectResponse`.
pub struct ConnectResponseView {
    pub backend_id: Seq<char>,
    pub spawned: bool,
    pub token: Seq<char>,
    pub url: Seq<char>,
    pub secret_token: Seq<char>,
    pub status: BackendStatus,
}

impl View for ConnectResponse {
    type V = ConnectResponseView;

    open spec fn view(&self) -> ConnectResponseView {
        ConnectResponseView {
            backend_id: self.backend_id@,
            spawned: self.spawned,
            token: self.token@,
            url: self.url@,
            secret_token: self.secret_token@,
            status: self.status,
        }
    }
}

/// Why a connect request failed.
#[derive(Clone, Copy, Debug, PartialEq, Eq, Structural, Hash)]
pub enum ConnectError {
    /// The request names no cluster and the controller has no default.
    NoCluster,
    /// The request brings no spawn configuration and its key is not bound.
    NotFound,
    /// No drone of the cluster can take another backend.
    NoDroneAvailable,
    /// Another request bound the key first, each time this one tried.
    Conflict,
    /// The store failed in a way that the request cannot mend.
    DbError,
}

impl ConnectError {
    /// The name of the error.
    pub open spec fn text(self) -> Seq<char> {
        match self {
            ConnectError::NoCluster => "no-cluster"@,
            ConnectError::NotFound => "not-found"@,
            ConnectError::NoDroneAvailable => "no-drone-available"@,
            ConnectError::Conflict => "conflict"@,
            ConnectError::DbError => "db-error"@,
        }
    }

    /// The HTTP status with which the error is reported.
    pub open spec fn spec_http_status(self) -> u16 {
        match self {
            ConnectError::NoCluster => 400,
            ConnectError::NotFound => 404,
            ConnectError::NoDroneAvailable => 503,
            ConnectError::Conflict => 409,
            ConnectError::DbError => 500,
        }
    }

    /// Whether the same request may succeed when sent again.
    pub open spec fn spec_is_retryable(self) -> bool {
        self == ConnectError::NoDroneAvailable || self == ConnectError::Conflict
    }

    pub fn to_string(self) -> (s: String)
        ensures
            s@ == self.text(),
    {
        match self {
            ConnectError::NoCluster => "no-cluster".to_owned(),
            ConnectError::NotFound => "not-found".to_owned(),
            ConnectError::NoDroneAvailable => "no-drone-available".to_owned(),
            ConnectError::Conflict => "conflict".to_owned(),
            ConnectError::DbError => "db-error".to_owned(),
        }
    }

    #[verifier::when_used_as_spec(spec_http_status)]
    pub fn http_status(self) -> (code: u16)
        ensures
            code == self.spec_http_status(),
    {
        match self {
            ConnectError::NoCluster => 400,
            ConnectError::NotFound => 404,
            ConnectError::NoDroneAvailable => 503,
            ConnectError::Conflict => 409,
            ConnectError::DbError => 500,
        }
    }

    #[verifier::when_used_as_spec(spec_is_retryable)]
    pub fn is_retryable(self) -> (r: bool)
        ensures
            r == self.spec_is_retryable(),
    {
        match self {
            ConnectError::NoDroneAvailable => true,
            ConnectError::Conflict => true,
            _ => false,
        }
    }
}

} // verus!
