//! What can go wrong in a reconciliation cycle.
use vstd::prelude::*;

verus! {

/// The failures of the engine. A command's exit code is `None` where the
/// process was ended by a signal.
#[derive(Clone, Copy, Debug, PartialEq, Eq, Structural)]
pub enum MeshError {
    /// The static configuration is missing or malformed.
    ConfigLoad,
    /// The database could not be reached, queried or given its schema.
    Database,
    /// An address read from the database or from a command is not an address.
    MalformedAddress,
    /// A command on the network device failed.
    Interface(Option<i32>),
    /// The WireGuard configuration tool failed.
    Apply(Option<i32>),
    /// The local server has no row in the database.
    NotRegistered,
    /// The client is authorized on no server.
    NoConnection,
}

} // verus!
