//! The public endpoints under `/v1`.

pub mod audio;
pub mod chat_flow;
pub mod completions;
pub mod embeddings;
pub mod fallback;
pub mod feedback;
pub mod gate;
pub mod health;
pub mod images;
pub mod lifecycle;
pub mod mcp;
pub mod messages;
pub mod models;
pub mod proxy;
pub mod responses;
pub mod router_meta;
pub mod search;
pub mod stream_log;
pub mod systemone;
pub mod usage;
