//! Every operation of the store keeps its content consistent.

use vstd::prelude::*;
use crate::database::model::{
    by_backend_id, by_key, by_key_holder, by_token, create_backend_spec, find, issue_token_spec,
    last_logged, lemma_first_match, update_keepalive_spec, update_status_spec, NewBackendView,
    StatusLogView, StoreView, TokenView,
};
use crate::status::{BackendStatus, Timestamp};
use crate::types::BackendAddr;

verus! {

/// Appending an element leaves an earlier match in place; without one, the
/// new element is the match if it meets `p`.
pub proof fn lemma_find_push<T>(s: Seq<T>, p: spec_fn(T) -> bool, x: T)
    ensures
        find(s.push(x), p) == match find(s, p) {
            Some(i) => Some(i),
            None => if p(x) {
                Some(s.len() as int)
            } else {
                None
            },
        },
{
    lemma_first_match(s, p, 0);
    lemma_first_match(s.push(x), p, 0);
    match find(s, p) {
        Some(i) => {
            assert(s.push(x)[i] == s[i]);
            assert forall|j: int| 0 <= j < i implies !p(s.push(x)[j]) by {
                assert(s.push(x)[j] == s[j]);
            }
        },
        None => {
            assert forall|j: int| 0 <= j < s.len() implies !p(s.push(x)[j]) by {
                assert(s.push(x)[j] == s[j]);
            }
            assert(s.push(x)[s.len() as int] == x);
        },
    }
}

/// Two sequences that agree, place by place, on which elements meet `p`
/// have their first match at the same place.
pub proof fn lemma_find_same<T>(s: Seq<T>, t: Seq<T>, p: spec_fn(T) -> bool)
    requires
        s.len() == t.len(),
        forall|j: int| 0 <= j < s.len() ==> p(s[j]) == p(t[j]),
    ensures
        find(s, p) == find(t, p),
{
    lemma_first_match(s, p, 0);
    lemma_first_match(t, p, 0);
}

/// What `last_logged` gives is the status of the last row of the backend.
pub proof fn lemma_last_logged(log: Seq<StatusLogView>, backend: Seq<char>)
    ensures
        match last_logged(log, backend) {
            Some(status) => exists|m: int|
                0 <= m < log.len() && #[trigger] log[m].backend == backend && log[m].status
                    == status && forall|j: int|
                    m < j < log.len() ==> (#[trigger] log[j]).backend != backend,
            None => forall|j: int| 0 <= j < log.len() ==> (#[trigger] log[j]).backend != backend,
        },
    decreases log.len(),
{
    if log.len() > 0 {
        if log.last().backend == backend {
            let m = log.len() - 1;
            assert(log[m].backend == backend && log[m].status == log.last().status);
        } else {
            lemma_last_logged(log.drop_last(), backend);
            let front = log.drop_last();
            match last_logged(front, backend) {
                Some(status) => {
                    let m = choose|m: int|
                        0 <= m < front.len() && #[trigger] front[m].backend == backend
                            && front[m].status == status && forall|j: int|
                            m < j < front.len() ==> (#[trigger] front[j]).backend != backend;
                    assert(log[m] == front[m]);
                    assert forall|j: int| m < j < log.len() implies (#[trigger] log[j]).backend
                        != backend by {
                        if j < front.len() {
                            assert(log[j] == front[j]);
                        }
                    }
                },
                None => {
                    assert forall|j: int| 0 <= j < log.len() implies (#[trigger] log[j]).backend
                        != backend by {
                        if j < front.len() {
                            assert(log[j] == front[j]);
                        }
                    }
                },
            }
        }
    }
}

/// In a consistent store no row of a backend's log is later than its status.
pub proof fn lemma_status_bounds_log(s: StoreView, b: int, i: int)
    requires
        s.wf(),
        0 <= b < s.backends.len(),
        0 <= i < s.log.len(),
        s.log[i].backend == s.backends[b].id,
    ensures
        s.log[i].status.spec_le(s.backends[b].last_status),
{
    lemma_last_logged(s.log, s.backends[b].id);
    assert(last_logged(s.log, s.backends[b].id) == Some(s.backends[b].last_status));
}

/// A row appended for another backend leaves the last logged status of `backend` as it was.
pub proof fn lemma_last_logged_push(log: Seq<StatusLogView>, row: StatusLogView, backend: Seq<char>)
    ensures
        last_logged(log.push(row), backend) == if row.backend == backend {
            Some(row.status)
        } else {
            last_logged(log, backend)
        },
{
    assert(log.push(row).drop_last() == log);
    assert(log.push(row).last() == row);
}

/// Adding a backend keeps the store consistent.
pub proof fn lemma_create_backend_wf(s: StoreView, nb: NewBackendView, now: Timestamp)
    requires
        s.wf(),
        create_backend_spec(s, nb, now).is_ok(),
    ensures
        create_backend_spec(s, nb, now).unwrap().wf(),
{
    let t = create_backend_spec(s, nb, now).unwrap();
    let row = t.backends.last();
    let n = s.backends.len() as int;
    lemma_first_match(s.backends, by_backend_id(nb.id), 0);
    assert forall|i: int| 0 <= i < n implies t.backends[i] == s.backends[i] by {}
    assert(t.backends_unique());
    assert forall|k: int| 0 <= k < s.keys.len() implies s.keys[k].backend != nb.id by {
        lemma_first_match(s.backends, by_backend_id(s.keys[k].backend), 0);
    }
    if nb.key.is_some() {
        lemma_first_match(s.keys, by_key(nb.cluster, nb.key.unwrap()), 0);
        assert forall|i: int| 0 <= i < s.keys.len() implies t.keys[i] == s.keys[i] by {}
    }
    assert(t.keys_unique());
    assert forall|k: int| 0 <= k < t.keys.len() implies match find(
        t.backends,
        by_backend_id(#[trigger] t.keys[k].backend),
    ) {
        Some(b) => t.backends[b].last_status != BackendStatus::Terminated && t.backends[b].cluster
            == t.keys[k].cluster,
        None => false,
    } by {
        lemma_find_push(s.backends, by_backend_id(t.keys[k].backend), row);
        if k < s.keys.len() {
            assert(t.keys[k] == s.keys[k]);
            lemma_first_match(s.backends, by_backend_id(s.keys[k].backend), 0);
        }
    }
    assert forall|x: int| 0 <= x < t.tokens.len() implies find(
        t.backends,
        by_backend_id(#[trigger] t.tokens[x].backend),
    ).is_some() by {
        lemma_find_push(s.backends, by_backend_id(t.tokens[x].backend), row);
    }
    let entry = t.log.last();
    assert forall|b: int| 0 <= b < t.backends.len() implies last_logged(
        t.log,
        #[trigger] t.backends[b].id,
    ) == Some(t.backends[b].last_status) by {
        lemma_last_logged_push(s.log, entry, t.backends[b].id);
        if b < n {
            assert(t.backends[b] == s.backends[b]);
        }
    }
    assert forall|i: int| 0 <= i < t.log.len() implies find(
        t.backends,
        by_backend_id(#[trigger] t.log[i].backend),
    ).is_some() by {
        lemma_find_push(s.backends, by_backend_id(t.log[i].backend), row);
        if i < s.log.len() {
            assert(t.log[i] == s.log[i]);
        }
    }
    assert forall|i: int, j: int|
        0 <= i <= j < t.log.len()
            && t.log[i].backend == t.log[j].backend implies t.log[i].status.spec_le(
        t.log[j].status,
    ) by {
        if j < s.log.len() {
            assert(t.log[i] == s.log[i] && t.log[j] == s.log[j]);
        } else if i < s.log.len() {
            assert(t.log[i] == s.log[i]);
            lemma_first_match(s.backends, by_backend_id(s.log[i].backend), 0);
        }
    }
}

/// Recording a status keeps the store consistent.
pub proof fn lemma_update_status_wf(
    s: StoreView,
    backend: Seq<char>,
    status: BackendStatus,
    address: Option<BackendAddr>,
    exit_code: Option<i32>,
    now: Timestamp,
)
    requires
        s.wf(),
        update_status_spec(s, backend, status, address, exit_code, now).is_ok(),
    ensures
        update_status_spec(s, backend, status, address, exit_code, now).unwrap().wf(),
{
    let t = update_status_spec(s, backend, status, address, exit_code, now).unwrap();
    lemma_first_match(s.backends, by_backend_id(backend), 0);
    let b = find(s.backends, by_backend_id(backend)).unwrap();
    assert forall|i: int| 0 <= i < s.backends.len() implies (#[trigger] t.backends[i]).id
        == s.backends[i].id && (i != b ==> t.backends[i] == s.backends[i]) by {}
    assert(t.backends_unique());
    assert forall|id: Seq<char>| find(t.backends, by_backend_id(id)) == find(
        s.backends,
        by_backend_id(id),
    ) by {
        lemma_find_same(s.backends, t.backends, by_backend_id(id));
    }
    // keys
    lemma_first_match(s.keys, by_key_holder(backend), 0);
    let released = status == BackendStatus::Terminated
        && find(s.keys, by_key_holder(backend)).is_some();
    if released {
        let k = find(s.keys, by_key_holder(backend)).unwrap();
        assert(t.keys == s.keys.remove(k));
        assert forall|i: int| 0 <= i < t.keys.len() implies #[trigger] t.keys[i] == s.keys[if i < k {
            i
        } else {
            i + 1
        }] by {}
        assert(t.keys_unique());
        assert forall|i: int| 0 <= i < t.keys.len() implies (#[trigger] t.keys[i]).backend
            != backend by {
            let src = if i < k {
                i
            } else {
                i + 1
            };
            assert(t.keys[i] == s.keys[src]);
            assert(src != k);
        }
    } else {
        assert(t.keys == s.keys);
    }
    assert forall|k: int| 0 <= k < t.keys.len() implies match find(
        t.backends,
        by_backend_id(#[trigger] t.keys[k].backend),
    ) {
        Some(x) => t.backends[x].last_status != BackendStatus::Terminated && t.backends[x].cluster
            == t.keys[k].cluster,
        None => false,
    } by {
        let src = if released && k >= find(s.keys, by_key_holder(backend)).unwrap() {
            k + 1
        } else {
            k
        };
        assert(t.keys[k] == s.keys[src]);
        lemma_first_match(s.backends, by_backend_id(s.keys[src].backend), 0);
        let x = find(s.backends, by_backend_id(s.keys[src].backend)).unwrap();
        if x == b {
            assert(s.keys[src].backend == backend);
            if status == BackendStatus::Terminated {
                assert(by_key_holder(backend)(s.keys[src]));
            }
        }
    }
    assert(t.tokens_sound());
    // log
    let entry = t.log.last();
    assert forall|x: int| 0 <= x < t.backends.len() implies last_logged(
        t.log,
        #[trigger] t.backends[x].id,
    ) == Some(t.backends[x].last_status) by {
        lemma_last_logged_push(s.log, entry, t.backends[x].id);
        assert(last_logged(s.log, s.backends[x].id) == Some(s.backends[x].last_status));
    }
    assert forall|i: int| 0 <= i < t.log.len() implies find(
        t.backends,
        by_backend_id(#[trigger] t.log[i].backend),
    ).is_some() by {
        if i < s.log.len() {
            assert(t.log[i] == s.log[i]);
        }
    }
    assert forall|i: int, j: int|
        0 <= i <= j < t.log.len()
            && t.log[i].backend == t.log[j].backend implies t.log[i].status.spec_le(
        t.log[j].status,
    ) by {
        if j < s.log.len() {
            assert(t.log[i] == s.log[i] && t.log[j] == s.log[j]);
        } else if i < s.log.len() {
            assert(t.log[i] == s.log[i]);
            lemma_status_bounds_log(s, b, i);
        }
    }
}

/// Recording a sign of life keeps the store consistent.
pub proof fn lemma_update_keepalive_wf(s: StoreView, backend: Seq<char>, now: Timestamp)
    requires
        s.wf(),
        update_keepalive_spec(s, backend, now).is_ok(),
    ensures
        update_keepalive_spec(s, backend, now).unwrap().wf(),
{
    let t = update_keepalive_spec(s, backend, now).unwrap();
    lemma_first_match(s.backends, by_backend_id(backend), 0);
    let b = find(s.backends, by_backend_id(backend)).unwrap();
    assert forall|i: int| 0 <= i < s.backends.len() implies (#[trigger] t.backends[i]).id
        == s.backends[i].id && t.backends[i].last_status == s.backends[i].last_status
        && t.backends[i].cluster == s.backends[i].cluster by {}
    assert(t.backends_unique());
    assert forall|id: Seq<char>| find(t.backends, by_backend_id(id)) == find(
        s.backends,
        by_backend_id(id),
    ) by {
        lemma_find_same(s.backends, t.backends, by_backend_id(id));
    }
    assert forall|k: int| 0 <= k < t.keys.len() implies match find(
        t.backends,
        by_backend_id(#[trigger] t.keys[k].backend),
    ) {
        Some(x) => t.backends[x].last_status != BackendStatus::Terminated && t.backends[x].cluster
            == t.keys[k].cluster,
        None => false,
    } by {
        lemma_first_match(s.backends, by_backend_id(s.keys[k].backend), 0);
    }
    assert forall|x: int| 0 <= x < t.backends.len() implies last_logged(
        t.log,
        #[trigger] t.backends[x].id,
    ) == Some(t.backends[x].last_status) by {
        assert(last_logged(s.log, s.backends[x].id) == Some(s.backends[x].last_status));
    }
}

/// Issuing a token keeps the store consistent.
pub proof fn lemma_issue_token_wf(s: StoreView, token: TokenView)
    requires
        s.wf(),
        issue_token_spec(s, token).is_ok(),
    ensures
        issue_token_spec(s, token).unwrap().wf(),
{
    let t = issue_token_spec(s, token).unwrap();
    lemma_first_match(s.tokens, by_token(token.token), 0);
    assert forall|i: int| 0 <= i < s.tokens.len() implies t.tokens[i] == s.tokens[i] by {}
    assert forall|x: int| 0 <= x < t.tokens.len() implies find(
        t.backends,
        by_backend_id(#[trigger] t.tokens[x].backend),
    ).is_some() by {
        if x < s.tokens.len() {
            assert(t.tokens[x] == s.tokens[x]);
        }
    }
}

} // verus!
