//! The core of a chat completion gateway: request building, stream framing,
//! reasoning segmentation and token accounting for several chat backends.

pub mod cache;
pub mod chat;

pub mod client;
pub mod delivery;
pub mod entities;
pub mod errors;
pub mod framing;
pub mod json;
pub mod log_utils;
pub mod models;
pub mod providers;
pub mod reasoning;
pub mod segmenter;
pub mod settings;
pub mod stream;
pub mod text;
pub mod transport;
pub mod usage;
