//! The admin API and the dashboard.

pub mod aliases;
pub mod attribution;
pub mod audit;
pub mod auth;
pub mod budgets;
pub mod cache;
pub mod compare;
pub mod dashboard;
pub mod experiment_results;
pub mod experiments;
pub mod groups;
pub mod keys;
pub mod models;
pub mod oidc;
pub mod reports;
pub mod routes;
pub mod templates;
pub mod webhooks;
