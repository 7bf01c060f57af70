//! What the controller sends to drones and answers to proxies.

use vstd::prelude::*;
use crate::names::{BackendActionName, BackendName, NodeId, SecretToken};
use crate::status::Timestamp;
use crate::types::{opt_text, BackendAddr, ExecutorConfig, ExecutorView};

verus! {

/// How firmly a backend is asked to end.
#[derive(Clone, Copy, Debug, PartialEq, Eq, Structural, Hash)]
pub enum TerminationKind {
    /// The backend is asked to stop and may take its time.
    Soft,
    /// The backend is stopped at once.
    Hard,
}

/// What a drone is asked to do with a backend.
#[derive(Debug, PartialEq, Eq)]
pub enum BackendAction {
    Spawn {
        executable: ExecutorConfig,
        expiration_time: Option<Timestamp>,
        allowed_idle_seconds: Option<i32>,
    },
    Terminate { kind: TerminationKind },
}

/// The model of a `BackendAction`.
pub enum ActionView {
    Spawn {
        executable: ExecutorView,
        expiration_time: Option<Timestamp>,
        allowed_idle_seconds: Option<i32>,
    },
    Terminate { kind: TerminationKind },
}

impl View for BackendAction {
    type V = ActionView;

    open spec fn view(&self) -> ActionView {
        match *self {
            BackendAction::Spawn { executable, expiration_time, allowed_idle_seconds } => {
                ActionView::Spawn { executable: executable@, expiration_time, allowed_idle_seconds }
            },
            BackendAction::Terminate { kind } => ActionView::Terminate { kind },
        }
    }
}

impl Clone for BackendAction {
    fn clone(&self) -> (r: Self)
        ensures
            r == *self,
    {
        match self {
            BackendAction::Spawn { executable, expiration_time, allowed_idle_seconds } => {
                BackendAction::Spawn {
                    executable: executable.clone(),
                    expiration_time: *expiration_time,
                    allowed_idle_seconds: *allowed_idle_seconds,
                }
            },
            BackendAction::Terminate { kind } => BackendAction::Terminate { kind: *kind },
        }
    }
}

/// An action addressed to the drone that runs, or is to run, a backend.
#[derive(Debug, PartialEq, Eq)]
pub struct BackendActionMessage {
    pub action_id: BackendActionName,
    pub backend_id: BackendName,
    pub drone_id: NodeId,
    pub action: BackendAction,
}

/// The model of a `BackendActionMessage`.
pub struct ActionMessageView {
    pub action_id: Seq<char>,
    pub backend_id: Seq<char>,
    pub drone_id: NodeId,
    pub action: ActionView,
}

impl View for BackendActionMessage {
    type V = ActionMessageView;

    open spec fn view(&self) -> ActionMessageView {
        ActionMessageView {
            action_id: self.action_id@,
            backend_id: self.backend_id@,
            drone_id: self.drone_id,
            action: self.action@,
        }
    }
}

impl Clone for BackendActionMessage {
    fn clone(&self) -> (r: Self)
        ensures
            r == *self,
    {
        BackendActionMessage {
            action_id: self.action_id.clone(),
            backend_id: self.backend_id.clone(),
            drone_id: self.drone_id,
            action: self.action.clone(),
        }
    }
}

/// What a proxy needs to forward a request to a backend.
#[derive(Debug, PartialEq, Eq)]
pub struct RouteInfo {
    pub backend_id: BackendName,
    pub address: BackendAddr,
    pub secret_token: SecretToken,
    pub user: Option<String>,
    pub user_data: Option<String>,
}

/// The model of a `RouteInfo`.
pub struct RouteInfoView {
    pub backend_id: Seq<char>,
    pub address: BackendAddr,
    pub secret_token: Seq<char>,
    pub user: Option<Seq<char>>,
    pub user_data: Option<Seq<char>>,
}

impl View for RouteInfo {
    type V = RouteInfoView;

    open spec fn view(&self) -> RouteInfoView {
        RouteInfoView {
            backend_id: self.backend_id@,
            address: self.address,
            secret_token: self.secret_token@,
            user: opt_text(self.user),
            user_data: opt_text(self.user_data),
        }
    }
}

} // verus!
