//! The connect-and-reuse core of a control plane for short-lived backends:
//! the backend state store, its status log and change notifications, the node
//! registry, drone placement, the connect resolver, status streams and the
//! termination sweeper.

use vstd::prelude::*;

pub mod controller;
pub mod database;
pub mod laws;
pub mod names;
pub mod protocol;
pub mod scheduler;
pub mod status;
pub mod stream;
pub mod sweeper;
pub mod types;

verus! {

/// Version of the control plane that this build reports to its peers.
pub const PLANE_VERSION: &'static str = "0.4.0";

/// What a node or a controller reports about the build it runs.
pub struct PlaneVersionInfo {
    pub version: String,
    pub git_hash: String,
}

/// The version record of this build. `git_hash` is the revision of the
/// sources that the build was made from, which only the build knows.
pub fn plane_version_info(git_hash: &str) -> (info: PlaneVersionInfo)
    ensures
        info.version@ == PLANE_VERSION@,
        info.git_hash@ == git_hash@,
{
    PlaneVersionInfo { version: PLANE_VERSION.to_owned(), git_hash: git_hash.to_owned() }
}

} // verus!
