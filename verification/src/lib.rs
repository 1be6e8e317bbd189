//! A control plane for a cloud of Xray servers: the declarative model of the
//! cloud, the rules that reconcile two models of it, the decisions of its
//! monitoring and repair loop, and the texts and file names that go with them.
//!
//! Everything here is a function of plain values. Files, sockets, the database
//! and the remote calls belong to the program that uses the library.

pub mod ansible;
pub mod cli;
pub mod cloud;
pub mod cloudflare;
pub mod constants;
pub mod daemon;
pub mod db;
pub mod document;
pub mod outside;
pub mod strmap;
pub mod text;
pub mod types;
pub mod workspace;
pub mod xui;
