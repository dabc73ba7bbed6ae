//! Layered graph layout requests, their wire format and their results.
pub mod decode;
pub mod error;
pub mod fault_laws;
pub mod float_bits;
pub mod force;
pub mod graph;
pub mod laws;
pub mod layout;
pub mod layout_ext;
pub mod name_laws;
pub mod options;
pub mod plan_laws;
pub mod request;
pub mod text;
pub mod wire;
