//! Connections: where to connect, and what a client knows of one.

pub mod client_context;
pub mod connection_actions;
pub mod datasource_parser;
pub mod sources;
pub mod tds_client;
pub mod transport;
