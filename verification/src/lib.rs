//! A self-hosted page bin.
pub mod auth;
pub mod config;
pub mod error;
pub mod host;
pub mod ip;
pub mod ip6;
pub mod laws;
pub mod routes;
pub mod sites;
pub mod status;
pub mod table;
pub mod text;
pub mod web;
