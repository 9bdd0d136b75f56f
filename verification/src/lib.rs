//! Verified core of a kiosk game launcher.
//!
//! The library aggregates a station's assigned product list with a full
//! product-metadata catalog into display cards, classifies the virtual
//! "desktop" entry, resolves per-product launch parameters, and names files
//! for a content-addressed image cache with TTL-based expiry.  All I/O
//! (HTTP, file system, registry/environment, process spawning) lives outside
//! this crate; the functions here work on plain values and carry contracts.

use vstd::prelude::*;

pub mod cache;
pub mod catalog;
pub mod launch;
pub mod records;
pub mod text;
pub mod urls;

verus! {

/// Errors of the fatal, per-call kind that the verified core can itself
/// detect.  Transport, decode and spawn failures arise only in the I/O layer
/// around the library and are reported there.
#[derive(Clone, Copy, Debug, PartialEq, Eq, Structural)]
pub enum LauncherError {
    /// The station's product list holds no enabled, verified entry.
    EmptyCatalog,
    /// No launch descriptor is stored for the requested product id.
    LaunchNotFound,
    /// The stored launch descriptor has an empty executable path.
    EmptyLaunchPath,
    /// A local cache path could not be rendered as a file URL.
    FileUrlConversion,
}

} // verus!
