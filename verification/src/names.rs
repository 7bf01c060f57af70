//! Names of the entities of the control plane. Each kind of name is a type of
//! its own, so that a token cannot be passed where a backend name is expected.

use vstd::prelude::*;

verus! {

/// Longest name, in characters, that the store accepts.
pub const MAX_NAME_LENGTH: usize = 45;

/// A text is usable as a name when it is not empty and not too long.
pub open spec fn is_valid_name(text: Seq<char>) -> bool {
    0 < text.len() <= MAX_NAME_LENGTH
}

/// Whether `text` is usable as a name.
pub fn check_name(text: &String) -> (r: bool)
    ensures
        r == is_valid_name(text@),
{
    let n: usize = text.as_str().unicode_len();
    0 < n && n <= MAX_NAME_LENGTH
}

/// Identifies one backend. No two backends ever share a name.
#[derive(Debug, PartialEq, Eq, Hash)]
pub struct BackendName(pub String);

/// Names a cluster: a set of drones within which backends are placed and keys are scoped.
#[derive(Debug, PartialEq, Eq, Hash)]
pub struct ClusterName(pub String);

/// Names a controller.
#[derive(Debug, PartialEq, Eq, Hash)]
pub struct ControllerName(pub String);

/// Identifies one action sent to a drone.
#[derive(Debug, PartialEq, Eq, Hash)]
pub struct BackendActionName(pub String);

/// What a client presents to be routed to a backend.
#[derive(Debug, PartialEq, Eq, Hash)]
pub struct BearerToken(pub String);

/// What a backend uses to recognise requests that came through the proxy.
#[derive(Debug, PartialEq, Eq, Hash)]
pub struct SecretToken(pub String);

impl View for BackendName {
    type V = Seq<char>;

    open spec fn view(&self) -> Seq<char> {
        self.0@
    }
}

impl View for ClusterName {
    type V = Seq<char>;

    open spec fn view(&self) -> Seq<char> {
        self.0@
    }
}

impl View for ControllerName {
    type V = Seq<char>;

    open spec fn view(&self) -> Seq<char> {
        self.0@
    }
}

impl View for BackendActionName {
    type V = Seq<char>;

    open spec fn view(&self) -> Seq<char> {
        self.0@
    }
}

impl View for BearerToken {
    type V = Seq<char>;

    open spec fn view(&self) -> Seq<char> {
        self.0@
    }
}

impl View for SecretToken {
    type V = Seq<char>;

    open spec fn view(&self) -> Seq<char> {
        self.0@
    }
}

impl Clone for BackendName {
    fn clone(&self) -> (r: Self)
        ensures
            r == *self,
    {
        BackendName(self.0.clone())
    }
}

impl Clone for ClusterName {
    fn clone(&self) -> (r: Self)
        ensures
            r == *self,
    {
        ClusterName(self.0.clone())
    }
}

impl Clone for ControllerName {
    fn clone(&self) -> (r: Self)
        ensures
            r == *self,
    {
        ControllerName(self.0.clone())
    }
}

impl Clone for BackendActionName {
    fn clone(&self) -> (r: Self)
        ensures
            r == *self,
    {
        BackendActionName(self.0.clone())
    }
}

impl Clone for BearerToken {
    fn clone(&self) -> (r: Self)
        ensures
            r == *self,
    {
        BearerToken(self.0.clone())
    }
}

impl Clone for SecretToken {
    fn clone(&self) -> (r: Self)
        ensures
            r == *self,
    {
        SecretToken(self.0.clone())
    }
}

impl BackendName {
    /// Reads a stored backend name. A text that is no valid name gives `None`.
    pub fn try_from_text(text: String) -> (r: Option<BackendName>)
        ensures
            is_valid_name(text@) ==> r.is_some() && r.unwrap()@ == text@,
            !is_valid_name(text@) ==> r.is_none(),
    {
        if check_name(&text) {
            Some(BackendName(text))
        } else {
            None
        }
    }

    pub fn to_string(&self) -> (s: String)
        ensures
            s@ == self@,
    {
        self.0.clone()
    }

    pub fn same_as(&self, other: &BackendName) -> (r: bool)
        ensures
            r == (self@ == other@),
    {
        self.0 == other.0
    }
}

impl ClusterName {
    pub fn to_string(&self) -> (s: String)
        ensures
            s@ == self@,
    {
        self.0.clone()
    }

    pub fn same_as(&self, other: &ClusterName) -> (r: bool)
        ensures
            r == (self@ == other@),
    {
        self.0 == other.0
    }
}

impl BearerToken {
    pub fn to_string(&self) -> (s: String)
        ensures
            s@ == self@,
    {
        self.0.clone()
    }

    pub fn same_as(&self, other: &BearerToken) -> (r: bool)
        ensures
            r == (self@ == other@),
    {
        self.0 == other.0
    }
}

/// The kinds of node that take part in the control plane.
#[derive(Clone, Copy, Debug, PartialEq, Eq, Structural, Hash)]
pub enum NodeKind {
    /// Runs backends.
    Drone,
    /// Routes client traffic to backends.
    Proxy,
    /// Answers DNS challenges for certificates.
    AcmeDnsServer,
}

/// The kind of node that a name belongs to. A node name begins with the mark
/// of its kind, `dr-`, `pr-` or `ns-`, and is a valid name as a whole.
pub open spec fn node_kind_of(text: Seq<char>) -> Option<NodeKind> {
    if !is_valid_name(text) || text.len() < 3 || text[2] != '-' {
        None
    } else if text[0] == 'd' && text[1] == 'r' {
        Some(NodeKind::Drone)
    } else if text[0] == 'p' && text[1] == 'r' {
        Some(NodeKind::Proxy)
    } else if text[0] == 'n' && text[1] == 's' {
        Some(NodeKind::AcmeDnsServer)
    } else {
        None
    }
}

/// The name of a node of any kind, with the kind that the name shows.
#[derive(Debug, PartialEq, Eq, Hash)]
pub struct AnyNodeName {
    pub kind: NodeKind,
    pub text: String,
}

impl View for AnyNodeName {
    type V = Seq<char>;

    open spec fn view(&self) -> Seq<char> {
        self.text@
    }
}

impl Clone for AnyNodeName {
    fn clone(&self) -> (r: Self)
        ensures
            r == *self,
    {
        AnyNodeName { kind: self.kind, text: self.text.clone() }
    }
}

impl AnyNodeName {
    /// The name is one that `try_from_text` gives: its kind is the one that its text shows.
    pub open spec fn wf(&self) -> bool {
        node_kind_of(self.text@) == Some(self.kind)
    }

    /// Reads the name that a node presents. A text that shows no kind of node gives `None`.
    pub fn try_from_text(text: String) -> (r: Option<AnyNodeName>)
        ensures
            match r {
                Some(name) => name@ == text@ && name.wf(),
                None => node_kind_of(text@).is_none(),
            },
    {
        if !check_name(&text) {
            return None;
        }
        let n: usize = text.as_str().unicode_len();
        if n < 3 {
            return None;
        }
        let c0 = text.as_str().get_char(0);
        let c1 = text.as_str().get_char(1);
        let c2 = text.as_str().get_char(2);
        if c2 != '-' {
            None
        } else if c0 == 'd' && c1 == 'r' {
            Some(AnyNodeName { kind: NodeKind::Drone, text })
        } else if c0 == 'p' && c1 == 'r' {
            Some(AnyNodeName { kind: NodeKind::Proxy, text })
        } else if c0 == 'n' && c1 == 's' {
            Some(AnyNodeName { kind: NodeKind::AcmeDnsServer, text })
        } else {
            None
        }
    }

    /// The kind of node that the name belongs to.
    pub fn kind(&self) -> (k: NodeKind)
        ensures
            k == self.kind,
    {
        self.kind
    }

    pub fn to_string(&self) -> (s: String)
        ensures
            s@ == self@,
    {
        self.text.clone()
    }
}

/// Identifies a node. Identifiers are handed out in increasing order and never used again.
#[derive(Clone, Copy, Debug, PartialEq, Eq, Structural, Hash)]
pub struct NodeId(pub i32);

impl NodeId {
    pub fn from(id: i32) -> (r: NodeId)
        ensures
            r.0 == id,
    {
        NodeId(id)
    }

    pub fn as_i32(&self) -> (id: i32)
        ensures
            id == self.0,
    {
        self.0
    }
}

} // verus!
