//! Core of an uptime monitor: the registry of scheduled jobs, the incident
//! state machine with its hysteresis, and the reconciliation of tracked
//! incidents with their durable mirror.

pub mod incident;
pub mod health;
pub mod reconcile;
pub mod jobs;
pub mod schedule;
pub mod monitors;
pub mod events;
pub mod ident;
pub mod app_url;
pub mod config;
pub mod probe;
pub mod notifs;
pub mod api;
pub mod text;

pub use app_url::get_app_url;
pub use ident::generate_id;
