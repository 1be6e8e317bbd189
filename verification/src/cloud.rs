//! The cloud as it is declared, provisioned and monitored.

pub mod config;
pub mod expand;
pub mod laws;
pub mod monitor;
pub mod probe;
pub mod rebase;
pub mod reconcile;
pub mod report;
pub mod server;
pub mod service;
pub mod sublink;
