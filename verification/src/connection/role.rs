use vstd::prelude::*;

verus! {

/// Which side of a connection an endpoint plays.
#[derive(Debug, Clone, Copy, PartialEq, Eq, Structural)]
pub enum RoleKind {
    Client,
    Server,
    Any,
}

/// A connection role, chosen as a type parameter of the connection.
pub trait RoleType {
    spec fn spec_kind() -> RoleKind;

    fn kind() -> (r: RoleKind)
        ensures
            r == Self::spec_kind(),
    ;
}

/// The client role: sends CONNECT, SUBSCRIBE, UNSUBSCRIBE and PINGREQ.
#[derive(Debug, Clone, Copy, PartialEq, Eq)]
pub struct Client;

/// The server role: sends CONNACK, SUBACK, UNSUBACK and PINGRESP.
#[derive(Debug, Clone, Copy, PartialEq, Eq)]
pub struct Server;

/// A role that may send any packet.
#[derive(Debug, Clone, Copy, PartialEq, Eq)]
pub struct Any;

impl RoleType for Client {
    open spec fn spec_kind() -> RoleKind {
        RoleKind::Client
    }

    fn kind() -> (r: RoleKind) {
        RoleKind::Client
    }
}

impl RoleType for Server {
    open spec fn spec_kind() -> RoleKind {
        RoleKind::Server
    }

    fn kind() -> (r: RoleKind) {
        RoleKind::Server
    }
}

impl RoleType for Any {
    open spec fn spec_kind() -> RoleKind {
        RoleKind::Any
    }

    fn kind() -> (r: RoleKind) {
        RoleKind::Any
    }
}

} // verus!
