//! The messages of the protocol and their encoding.

pub mod backend;
pub mod client;
pub mod codec;
pub mod round_trip;
pub mod types;

pub use self::backend::AuthenticationOk;
pub use self::backend::BackendMessage;
pub use self::backend::BindComplete;
pub use self::backend::CommandComplete;
pub use self::backend::EmptyQueryResponse;
pub use self::backend::ErrorResponse;
pub use self::backend::FieldDescription;
pub use self::backend::ParameterDescription;
pub use self::backend::ParameterStatus;
pub use self::backend::ParseComplete;
pub use self::backend::ReadyForQuery;
pub use self::backend::RowDescription;
pub use self::backend::Severity;
pub use self::backend::SqlState;
pub use self::client::Bind;
pub use self::client::BindFormat;
pub use self::client::ClientMessage;
pub use self::client::Describe;
pub use self::client::Execute;
pub use self::client::Parse;
pub use self::client::Startup;
pub use self::codec::ConnectionCodec;
pub use self::codec::ProtocolError;
pub use self::types::DataTypeOid;
pub use self::types::FormatCode;
