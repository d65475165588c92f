//! The backends: what is particular to the wire format of each.

pub mod custom;
pub mod decode;
pub mod ollama;
pub mod types;
