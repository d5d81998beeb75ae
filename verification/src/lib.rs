//! A local secret store: named modules of label → secret entries, each
//! optionally sealed at rest under a key derived from a password.
//!
//! The library never touches the file system. Every operation takes the bytes
//! it needs and hands back the bytes to be written, so the whole lock / unlock
//! lifecycle is a function of plain values.

/// Association lists read as finite maps.
pub mod assoc;
/// The failures that the store reports.
pub mod error;
/// Secrets, their generation, and the entry store with its JSON form.
pub mod password;
/// Key derivation and authenticated encryption under a persisted scheme.
pub mod pbes;
/// The scheme registry and its RON form.
pub mod registry;
/// A module and its lifecycle.
pub mod modules;
/// The list of modules: discovery, creation, shutdown.
pub mod module_list;
/// Sealing single files with a scheme file beside them.
pub mod files;
/// The session of the boundary layer: selection, prompt, key handling.
pub mod ui;
