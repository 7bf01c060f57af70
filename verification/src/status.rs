//! The lifecycle status of a backend and its total order.

use vstd::prelude::*;

verus! {

/// Where a backend stands in its life. The variants are listed in the order in
/// which a backend passes through them; a backend never moves to an earlier one.
#[derive(Clone, Copy, Debug, PartialEq, Eq, Structural, Hash)]
pub enum BackendStatus {
    Scheduled,
    Loading,
    Starting,
    Waiting,
    Ready,
    Terminating,
    HardTerminating,
    Terminated,
}

/// A status together with the time at which it was recorded.
#[derive(Clone, Copy, Debug, PartialEq, Eq, Structural)]
pub struct TimestampedBackendStatus {
    pub status: BackendStatus,
    pub time: Timestamp,
}

/// A point in time, in microseconds since the Unix epoch.
#[derive(Clone, Copy, Debug, PartialEq, Eq, Structural, Hash)]
pub struct Timestamp {
    pub micros: i64,
}

/// Number of microseconds in one second.
pub const MICROS_PER_SECOND: i64 = 1_000_000;

impl Timestamp {
    pub fn from_micros(micros: i64) -> (t: Timestamp)
        ensures
            t.micros == micros,
    {
        Timestamp { micros }
    }

    /// Microseconds from `earlier` to `self`; negative when `self` comes first.
    pub fn micros_since(&self, earlier: Timestamp) -> (d: i128)
        ensures
            d == self.micros - earlier.micros,
    {
        let a: i128 = self.micros as i128;
        let b: i128 = earlier.micros as i128;
        a - b
    }

    /// Whether `self` lies strictly after `other`.
    pub fn is_after(&self, other: Timestamp) -> (r: bool)
        ensures
            r == (self.micros > other.micros),
    {
        self.micros > other.micros
    }

    /// The instant `seconds` after `self`, or `None` where it cannot be represented.
    pub fn plus_seconds(&self, seconds: i64) -> (r: Option<Timestamp>)
        ensures
            r == shifted(*self, seconds as int),
    {
        let span: i128 = (seconds as i128) * 1_000_000;
        let wide: i128 = (self.micros as i128) + span;
        if wide < (i64::MIN as i128) || wide > (i64::MAX as i128) {
            None
        } else {
            Some(Timestamp { micros: wide as i64 })
        }
    }
}

/// The instant `seconds` after `t`, where it fits the representation.
pub open spec fn shifted(t: Timestamp, seconds: int) -> Option<Timestamp> {
    let wide = t.micros + seconds * 1_000_000;
    if i64::MIN <= wide <= i64::MAX {
        Some(Timestamp { micros: wide as i64 })
    } else {
        None
    }
}

impl BackendStatus {
    /// Position of the status in the lifecycle, from 0 (`Scheduled`) to 7 (`Terminated`).
    pub open spec fn spec_rank(self) -> int {
        match self {
            BackendStatus::Scheduled => 0,
            BackendStatus::Loading => 1,
            BackendStatus::Starting => 2,
            BackendStatus::Waiting => 3,
            BackendStatus::Ready => 4,
            BackendStatus::Terminating => 5,
            BackendStatus::HardTerminating => 6,
            BackendStatus::Terminated => 7,
        }
    }

    /// `self` comes no later than `other` in the lifecycle.
    pub open spec fn spec_le(self, other: BackendStatus) -> bool {
        self.spec_rank() <= other.spec_rank()
    }

    /// `self` comes strictly before `other` in the lifecycle.
    pub open spec fn spec_lt(self, other: BackendStatus) -> bool {
        self.spec_rank() < other.spec_rank()
    }

    /// The name under which the status is stored and sent.
    pub open spec fn text(self) -> Seq<char> {
        match self {
            BackendStatus::Scheduled => "scheduled"@,
            BackendStatus::Loading => "loading"@,
            BackendStatus::Starting => "starting"@,
            BackendStatus::Waiting => "waiting"@,
            BackendStatus::Ready => "ready"@,
            BackendStatus::Terminating => "terminating"@,
            BackendStatus::HardTerminating => "hard-terminating"@,
            BackendStatus::Terminated => "terminated"@,
        }
    }

    /// The status that is stored under the name `s`, if `s` names one.
    pub open spec fn parse(s: Seq<char>) -> Option<BackendStatus> {
        if s == "scheduled"@ {
            Some(BackendStatus::Scheduled)
        } else if s == "loading"@ {
            Some(BackendStatus::Loading)
        } else if s == "starting"@ {
            Some(BackendStatus::Starting)
        } else if s == "waiting"@ {
            Some(BackendStatus::Waiting)
        } else if s == "ready"@ {
            Some(BackendStatus::Ready)
        } else if s == "terminating"@ {
            Some(BackendStatus::Terminating)
        } else if s == "hard-terminating"@ {
            Some(BackendStatus::HardTerminating)
        } else if s == "terminated"@ {
            Some(BackendStatus::Terminated)
        } else {
            None
        }
    }

    /// Position of the status in the lifecycle.
    pub fn rank(self) -> (r: u8)
        ensures
            r == self.spec_rank(),
    {
        match self {
            BackendStatus::Scheduled => 0,
            BackendStatus::Loading => 1,
            BackendStatus::Starting => 2,
            BackendStatus::Waiting => 3,
            BackendStatus::Ready => 4,
            BackendStatus::Terminating => 5,
            BackendStatus::HardTerminating => 6,
            BackendStatus::Terminated => 7,
        }
    }

    #[verifier::when_used_as_spec(spec_le)]
    pub fn le(self, other: BackendStatus) -> (r: bool)
        ensures
            r == self.spec_le(other),
    {
        self.rank() <= other.rank()
    }

    #[verifier::when_used_as_spec(spec_lt)]
    pub fn lt(self, other: BackendStatus) -> (r: bool)
        ensures
            r == self.spec_lt(other),
    {
        self.rank() < other.rank()
    }

    /// Whether the backend has ended. No status follows this one.
    pub fn is_terminated(self) -> (r: bool)
        ensures
            r == (self == BackendStatus::Terminated),
    {
        self.rank() == 7
    }

    /// The name under which the status is stored and sent.
    pub fn to_string(self) -> (s: String)
        ensures
            s@ == self.text(),
    {
        match self {
            BackendStatus::Scheduled => "scheduled".to_owned(),
            BackendStatus::Loading => "loading".to_owned(),
            BackendStatus::Starting => "starting".to_owned(),
            BackendStatus::Waiting => "waiting".to_owned(),
            BackendStatus::Ready => "ready".to_owned(),
            BackendStatus::Terminating => "terminating".to_owned(),
            BackendStatus::HardTerminating => "hard-terminating".to_owned(),
            BackendStatus::Terminated => "terminated".to_owned(),
        }
    }

    /// Reads a stored status name. Any text that names no status gives `None`.
    pub fn try_from_text(s: &String) -> (r: Option<BackendStatus>)
        ensures
            r == BackendStatus::parse(s@),
    {
        if *s == "scheduled".to_owned() {
            Some(BackendStatus::Scheduled)
        } else if *s == "loading".to_owned() {
            Some(BackendStatus::Loading)
        } else if *s == "starting".to_owned() {
            Some(BackendStatus::Starting)
        } else if *s == "waiting".to_owned() {
            Some(BackendStatus::Waiting)
        } else if *s == "ready".to_owned() {
            Some(BackendStatus::Ready)
        } else if *s == "terminating".to_owned() {
            Some(BackendStatus::Terminating)
        } else if *s == "hard-terminating".to_owned() {
            Some(BackendStatus::HardTerminating)
        } else if *s == "terminated".to_owned() {
            Some(BackendStatus::Terminated)
        } else {
            None
        }
    }
}

/// The later of two statuses.
pub open spec fn later_of(a: BackendStatus, b: BackendStatus) -> BackendStatus {
    if a.spec_le(b) {
        b
    } else {
        a
    }
}

/// The order of statuses is total: reflexive, antisymmetric, transitive, and any
/// two statuses are comparable. `Scheduled` is the least and `Terminated` the greatest.
pub proof fn lemma_status_order_is_total(a: BackendStatus, b: BackendStatus, c: BackendStatus)
    ensures
        a.spec_le(a),
        a.spec_le(b) || b.spec_le(a),
        a.spec_le(b) && b.spec_le(a) ==> a == b,
        a.spec_le(b) && b.spec_le(c) ==> a.spec_le(c),
        a.spec_lt(b) <==> a.spec_le(b) && a != b,
        BackendStatus::Scheduled.spec_le(a),
        a.spec_le(BackendStatus::Terminated),
{
}

/// Once `Terminated`, a status that does not go back is `Terminated`.
pub proof fn lemma_terminated_is_last(a: BackendStatus)
    requires
        BackendStatus::Terminated.spec_le(a),
    ensures
        a == BackendStatus::Terminated,
{
}

/// The stored names are pairwise distinct: reading back the name of a status
/// gives that status, and a text that reads as a status is that status' name.
pub proof fn lemma_status_text_round_trip(a: BackendStatus)
    ensures
        BackendStatus::parse(a.text()) == Some(a),
        forall|s: Seq<char>| BackendStatus::parse(s) == Some(a) ==> s == a.text(),
{
    reveal_strlit("scheduled");
    reveal_strlit("loading");
    reveal_strlit("starting");
    reveal_strlit("waiting");
    reveal_strlit("ready");
    reveal_strlit("terminating");
    reveal_strlit("hard-terminating");
    reveal_strlit("terminated");
    assert("scheduled"@.len() == 9);
    assert("loading"@.len() == 7);
    assert("starting"@.len() == 8);
    assert("waiting"@.len() == 7);
    assert("ready"@.len() == 5);
    assert("terminating"@.len() == 11);
    assert("hard-terminating"@.len() == 16);
    assert("terminated"@.len() == 10);
    assert("loading"@[0] == 'l');
    assert("waiting"@[0] == 'w');
}

} // verus!
