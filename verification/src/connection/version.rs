use vstd::prelude::*;

verus! {

/// MQTT protocol version of a connection.
#[derive(Debug, Clone, Copy, PartialEq, Eq, Structural)]
pub enum Version {
    /// Not known yet: a server learns it from the CONNECT it receives.
    Undetermined,
    V3_1_1,
    V5_0,
}

} // verus!
