//! Installer core for a desktop client modification: install discovery,
//! reversible patching of the client's startup bundle, persisted version
//! bookkeeping, sandbox-permission overrides, and an ordered command bus.

pub mod appstate;
pub mod bootstrap;
pub mod bus;
pub mod detect;
pub mod error;
pub mod fetch;
pub mod installer;
pub mod json;
pub mod overrides;
pub mod patch;
pub mod paths;
pub mod text;
pub mod types;
pub mod versions;
