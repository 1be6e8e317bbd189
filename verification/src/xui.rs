//! The 3x-ui panel of a server: its API, and the backups of its database.

pub mod api;
pub mod db;
pub mod types;
