//! Document-session core of a language server for a structured configuration
//! text format: a per-document state store under full-document
//! synchronization, a text-offset to line/column mapping layer, and the
//! configuration-resolution and request-dispatch discipline that feature
//! handlers rely on.

pub mod adapter;
pub mod config;
pub mod document;
pub mod mapper;
pub mod session;
pub mod store;
