//! Server side of the PostgreSQL frontend/backend wire protocol, version 3.0.
//!
//! The crate frames and parses client messages, serialises backend messages,
//! accumulates encoded data rows, and holds the rules by which a connection
//! answers. Every function carries a contract over the bytes on the wire or
//! over the state of the connection.
//!
//! - `protocol`: the messages, their bodies, and the codec that frames them.
//! - `protocol_ext`: batches of data rows.
//! - `table`: the mapping between column types, and columns written as rows.
//! - `connection`: the state of a connection and its steps.
//! - `buffer`, `wire`, `text`, `names`: the byte buffer, integers on the
//!   wire, decimal text, and tables of named entries.

pub mod buffer;
pub mod connection;
pub mod names;
pub mod protocol;
pub mod protocol_ext;
pub mod table;
pub mod text;
pub mod wire;
