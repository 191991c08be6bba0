//! Why a discovery step cannot go on.
use vstd::prelude::*;

verus! {

/// A condition that stops a discovery step before any probe runs.
#[derive(Debug, PartialEq, Eq)]
pub enum DiscoveryError {
    /// The counter catalog has no entry of this name.
    UnknownEvent(String),
    /// The addressing scheme defines no identifiers of this width.
    UnsupportedWidth(u8),
    /// The mesh holds positions that identifiers of this width cannot address.
    MeshTooLarge(u8),
    /// Zero cores per cluster.
    NoCoresPerCluster,
}

} // verus!
