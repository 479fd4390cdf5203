//! Reading and writing the packets and tokens of the protocol.

pub mod arrival;
pub mod packet_reader;
pub mod packet_writer;
pub mod rows;
pub mod token_stream;
