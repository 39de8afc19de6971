//! The HTTP surface: what a request must look like, what is done with it and
//! what is answered.

pub mod admin;
pub mod attribution;
pub mod auth;
pub mod error;
pub mod failure_log;
pub mod headers;
pub mod middleware;
pub mod routes;
