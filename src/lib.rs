//! Mirrors the releases of a repository on one registry (the origin) to a
//! registry with limited storage (the mirror).
//!
//! The library holds the decisions of a sync run: which origin releases are
//! candidates, how each one is correlated with the mirror by tag name, when a
//! mirror release is created or updated, which assets are transferred, and
//! which mirror releases are pruned. The network and the file system are left
//! to the caller, which performs the actions that [`sync::SyncRun`] hands out.
pub mod model;
pub mod reconcile;
pub mod releases;
pub mod sync;
pub mod version;
