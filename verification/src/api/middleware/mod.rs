//! What every request passes through.

pub mod ip_rate_limit;
