//! What the core provides when the configuration leaves a handler unset.

pub mod error_handlers;
