//! The logic of a client for the Tabular Data Stream (TDS) protocol.

pub mod bytes;
pub mod connection;
pub mod connection_provider;
pub mod datatypes;
pub mod error;
pub mod io;
pub mod message;
pub mod settings;
pub mod strings;
pub mod text;
pub mod token;
