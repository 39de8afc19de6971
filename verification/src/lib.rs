//! The decisions of an OpenAI-compatible model router.

pub mod api;
pub mod archival;
pub mod callbacks;
pub mod clock;
pub mod codec;
pub mod json;
pub mod ordered;
pub mod records;
pub mod sums;
pub mod text;
pub mod text_map;
