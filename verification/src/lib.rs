//! Resolution and caching of Git-based dependencies.
//!
//! Given a repository address and a symbolic reference, the library decides
//! whether a local mirror already answers the request, orchestrates a network
//! update when it does not, and materializes an immutable checkout directory
//! keyed by a stable cache identity and a short commit id.

pub mod canonical;
pub mod credentials;
pub mod digest;
pub mod identity;
pub mod memory;
pub mod scan;
pub mod source;
