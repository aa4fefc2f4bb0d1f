//! Terminals and the sources of their bytes.

pub mod runtime_registry;
pub mod source;
