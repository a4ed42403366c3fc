//! A verified core for a profile-switching tool: a persisted store of named
//! proxy profiles (base URL plus credentials), an explicit environment
//! projection, an interactive list selector modelled as a pure state machine,
//! and the controller that composes them.
use vstd::prelude::*;

pub mod config;
pub mod env_manager;
pub mod proxy;
pub mod render;
pub mod selector;
pub mod strutil;

verus! {

/// Errors the controller can report. I/O and parse failures live at the
/// application boundary; these are the core's own failure cases.
#[derive(Debug, Clone, Copy, PartialEq, Eq, Structural)]
pub enum ProxyError {
    /// The referenced profile id is not present in the store.
    NotFound,
    /// The profile has neither a non-empty api key nor a non-empty auth token.
    MissingCredential,
    /// No config file exists at all (reload refuses to run).
    NoConfigFile,
}

} // verus!
