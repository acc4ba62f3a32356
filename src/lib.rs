//! Routing of generation requests across configured upstream channels:
//! a registry of channels, probe classification, priority-ordered
//! selection and normalisation of heterogeneous response bodies.
pub mod text;

pub mod error;
pub mod json;
pub mod config;
pub mod codec;
pub mod probe;
pub mod select;
pub mod client;
