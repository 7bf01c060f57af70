//! Reading rows as a database stores them: names and statuses are text, and
//! text that was not written by this library need not name anything.

use vstd::prelude::*;
use crate::database::backend::{BackendRow, TerminationCandidate};
use crate::database::model::{BackendRowView, CandidateView, StoreError};
use crate::names::{is_valid_name, BackendName, NodeId, SecretToken};
use crate::protocol::{RouteInfo, RouteInfoView};
use crate::status::{BackendStatus, Timestamp};
use crate::types::{opt_text, opt_view, BackendAddr};

verus! {

/// The row of a backend as it is stored.
pub struct StoredBackendRow {
    pub id: String,
    pub cluster: String,
    pub last_status: String,
    pub last_status_time: Timestamp,
    pub drone_id: i32,
    pub expiration_time: Option<Timestamp>,
    pub allowed_idle_seconds: Option<i32>,
    pub last_keepalive: Timestamp,
    /// The time of the query.
    pub as_of: Timestamp,
}

/// The row of a backend that is due, as it is stored.
pub struct StoredCandidateRow {
    pub backend_id: String,
    pub expiration_time: Option<Timestamp>,
    pub allowed_idle_seconds: Option<i32>,
    pub last_keepalive: Timestamp,
    /// The time of the query.
    pub as_of: Timestamp,
}

/// The row of a token, joined with the address of its backend, as it is stored.
pub struct StoredRouteRow {
    pub backend_id: String,
    pub username: Option<String>,
    pub auth: String,
    pub cluster_address: Option<String>,
    pub secret_token: String,
}

/// What a stored backend row reads as; `None` where its name or its status names nothing.
pub open spec fn backend_row_read(row: StoredBackendRow) -> Option<BackendRowView> {
    if !is_valid_name(row.id@) {
        None
    } else {
        match BackendStatus::parse(row.last_status@) {
            None => None,
            Some(status) => Some(
                BackendRowView {
                    id: row.id@,
                    cluster: row.cluster@,
                    last_status: status,
                    last_status_time: row.last_status_time,
                    last_keepalive: row.last_keepalive,
                    drone_id: NodeId(row.drone_id),
                    expiration_time: row.expiration_time,
                    allowed_idle_seconds: row.allowed_idle_seconds,
                    as_of: row.as_of,
                },
            ),
        }
    }
}

/// What a stored candidate row reads as; `None` where its name names nothing.
pub open spec fn candidate_row_read(row: StoredCandidateRow) -> Option<CandidateView> {
    if !is_valid_name(row.backend_id@) {
        None
    } else {
        Some(
            CandidateView {
                backend_id: row.backend_id@,
                expiration_time: row.expiration_time,
                last_keepalive: row.last_keepalive,
                allowed_idle_seconds: row.allowed_idle_seconds,
                as_of: row.as_of,
            },
        )
    }
}

/// Reads a stored backend row. Fails with `DbError` where the name or the status names nothing.
pub fn read_backend_row(row: &StoredBackendRow) -> (r: Result<BackendRow, StoreError>)
    ensures
        match backend_row_read(*row) {
            Some(read) => r.is_ok() && r.unwrap()@ == read,
            None => (r matches Err(failure) && failure == StoreError::DbError),
        },
{
    let id = match BackendName::try_from_text(row.id.clone()) {
        None => {
            return Err(StoreError::DbError);
        },
        Some(id) => id,
    };
    let last_status = match BackendStatus::try_from_text(&row.last_status) {
        None => {
            return Err(StoreError::DbError);
        },
        Some(status) => status,
    };
    Ok(
        BackendRow {
            id,
            cluster: row.cluster.clone(),
            last_status,
            last_status_time: row.last_status_time,
            last_keepalive: row.last_keepalive,
            drone_id: NodeId::from(row.drone_id),
            expiration_time: row.expiration_time,
            allowed_idle_seconds: row.allowed_idle_seconds,
            as_of: row.as_of,
        },
    )
}

/// Reads stored backend rows, in order. Fails with `DbError` where any of
/// them cannot be read.
pub fn read_backend_rows(rows: &Vec<StoredBackendRow>) -> (r: Result<Vec<BackendRow>, StoreError>)
    ensures
        match r {
            Ok(read) => read@.len() == rows@.len() && forall|i: int|
                0 <= i < rows@.len() ==> backend_row_read(#[trigger] rows@[i]) == Some(read@[i]@),
            Err(e) => e == StoreError::DbError && exists|i: int|
                0 <= i < rows@.len() && backend_row_read(#[trigger] rows@[i]).is_none(),
        },
{
    let mut read: Vec<BackendRow> = Vec::new();
    let mut i: usize = 0;
    while i < rows.len()
        invariant
            i <= rows@.len(),
            read@.len() == i,
            forall|j: int| 0 <= j < i ==> backend_row_read(#[trigger] rows@[j]) == Some(read@[j]@),
        decreases rows@.len() - i,
    {
        match read_backend_row(&rows[i]) {
            Ok(row) => {
                read.push(row);
            },
            Err(e) => {
                assert(backend_row_read(rows@[i as int]).is_none());
                return Err(StoreError::DbError);
            },
        }
        i += 1;
    }
    Ok(read)
}

/// Reads the stored rows of the backends that are due, in order. Fails
/// with `DbError` where any of them cannot be read.
pub fn read_candidate_rows(rows: &Vec<StoredCandidateRow>) -> (r: Result<
    Vec<TerminationCandidate>,
    StoreError,
>)
    ensures
        match r {
            Ok(read) => read@.len() == rows@.len() && forall|i: int|
                0 <= i < rows@.len() ==> candidate_row_read(#[trigger] rows@[i]) == Some(read@[i]@),
            Err(e) => e == StoreError::DbError && exists|i: int|
                0 <= i < rows@.len() && candidate_row_read(#[trigger] rows@[i]).is_none(),
        },
{
    let mut read: Vec<TerminationCandidate> = Vec::new();
    let mut i: usize = 0;
    while i < rows.len()
        invariant
            i <= rows@.len(),
            read@.len() == i,
            forall|j: int| 0 <= j < i ==> candidate_row_read(#[trigger] rows@[j]) == Some(read@[j]@),
        decreases rows@.len() - i,
    {
        let row = &rows[i];
        match BackendName::try_from_text(row.backend_id.clone()) {
            Some(backend_id) => {
                read.push(
                    TerminationCandidate {
                        backend_id,
                        expiration_time: row.expiration_time,
                        last_keepalive: row.last_keepalive,
                        allowed_idle_seconds: row.allowed_idle_seconds,
                        as_of: row.as_of,
                    },
                );
            },
            None => {
                assert(candidate_row_read(rows@[i as int]).is_none());
                return Err(StoreError::DbError);
            },
        }
        i += 1;
    }
    Ok(read)
}

/// Where a stored token row leads, given what its address reads as.
///
/// The row leads nowhere where there is none, where it has no address,
/// and where the address cannot be read (`address` is `None`). Otherwise the
/// name of the backend must be readable.
pub open spec fn route_row_read(row: Option<StoredRouteRow>, address: Option<BackendAddr>) -> Result<
    Option<RouteInfoView>,
    StoreError,
> {
    match row {
        None => Ok(None),
        Some(row) => if row.cluster_address.is_none() || address.is_none() {
            Ok(None)
        } else if !is_valid_name(row.backend_id@) {
            Err(StoreError::DbError)
        } else {
            Ok(
                Some(
                    RouteInfoView {
                        backend_id: row.backend_id@,
                        address: address.unwrap(),
                        secret_token: row.secret_token@,
                        user: opt_text(row.username),
                        user_data: Some(row.auth@),
                    },
                ),
            )
        },
    }
}

/// Reads the stored row of a token. `address` is what the row's address
/// was read as, `None` where it could not be read.
pub fn read_route_row(row: Option<StoredRouteRow>, address: Option<BackendAddr>) -> (r: Result<
    Option<RouteInfo>,
    StoreError,
>)
    ensures
        match route_row_read(row, address) {
            Ok(read) => r.is_ok() && opt_view(r.unwrap()) == read,
            Err(e) => (r matches Err(failure) && failure == e),
        },
{
    let row = match row {
        None => {
            return Ok(None);
        },
        Some(row) => row,
    };
    if row.cluster_address.is_none() {
        return Ok(None);
    }
    let address = match address {
        None => {
            return Ok(None);
        },
        Some(address) => address,
    };
    let backend_id = match BackendName::try_from_text(row.backend_id) {
        None => {
            return Err(StoreError::DbError);
        },
        Some(id) => id,
    };
    Ok(
        Some(
            RouteInfo {
                backend_id,
                address,
                secret_token: SecretToken(row.secret_token),
                user: row.username,
                user_data: Some(row.auth),
            },
        ),
    )
}

/// What an update that touched `rows_affected` rows of one backend
/// amounts to: `NotFound` where it touched none.
pub fn touched(rows_affected: u64) -> (r: Result<(), StoreError>)
    ensures
        rows_affected == 0 ==> r == Err::<(), StoreError>(StoreError::NotFound),
        rows_affected != 0 ==> r.is_ok(),
{
    if rows_affected == 0 {
        Err(StoreError::NotFound)
    } else {
        Ok(())
    }
}

} // verus!
