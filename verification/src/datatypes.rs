//! The data types of the protocol, their values, and their form on the wire.

pub mod arrow_columns;
pub mod arrow_writer;
pub mod column_values;
pub mod decimal;
pub mod decoder;
pub mod lcid_encoding;
pub mod meaning;
pub mod metadata;
pub mod round_trip;
pub mod row_writer;
pub mod sql_string;
pub mod sql_vector;
pub mod sqldatatypes;
pub mod sync_decoder;
pub mod tds_value_serializer;
pub mod wire;
pub mod written;
