//! Extension registry and capability-consent core.
//!
//! An extension is a user-supplied script unit with a manifest declaring its
//! identity and the capabilities it requires. This library models the
//! manifest, the four capability categories with their three-state semantics,
//! the registry of installed extensions, and the consent protocol that gates
//! installing or running capability-requesting code.

pub mod auth;
pub mod consent;
pub mod errors;
pub mod extension;
pub mod listing;
pub mod manifest;
pub mod paths;
pub mod permissions;
pub mod registry;
pub mod style;
pub mod text;
