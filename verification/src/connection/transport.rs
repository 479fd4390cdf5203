//! Getting packets from and to a server.

pub mod buffers;
pub mod network_transport;

