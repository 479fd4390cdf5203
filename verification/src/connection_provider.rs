//! Making connections.

pub mod tds_connection_provider;
