# mssql_tds

The logic of a client for SQL Server's protocol, Tabular Data Stream (TDS), written in Verus.

- `src/` is the library. Every function states what it does, and Verus proves it: decoding and
  encoding values, framing messages in packets, reading tokens and rows, parsing the name of a data
  source, and deciding how a connection is made, followed and given up.
- `app/` is the program around it: sockets, timers, and floating-point numbers. It hands bytes and
  tokens to the library and does what comes back.
- `tests/` runs the library, with the crates that it calls.

Functions named `law_...` are proofs of what holds of the library as a whole, for example:

- What is written of a value that fits its column is read back as that value (`datatypes/round_trip.rs`).
  A decimal number is read back as an equal one, with as many parts as its precision asks for; text in a
  variant is read back in UTF-16. Left out is text of `NCHAR(n)` and `NVARCHAR(n)` columns other than the
  empty one: its length is written as a number of characters, and read as a number of bytes. Empty data
  in chunks is read back as empty, but four of its bytes are left unread.
- However a stream is cut into reads, the same packets come out of it
  (`connection/transport/buffers.rs`).
- Every packet of a message but the last is full, only the last ends the message, and their headers state
  their lengths and count them (`io/packet_writer.rs`).
- Wherever a message is cut into packets, the same rows come out of it, and a row that is decoded at once
  from a buffer is the same whatever stands behind it (`io/arrival.rs`).
