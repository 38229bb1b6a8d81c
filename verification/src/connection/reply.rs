//! What a connection sends, and what it asks its driver to do next.

use bytes::BytesMut;
use vstd::prelude::*;
use vstd::string::StringExecFns;
use crate::buffer::buffer_bytes;
use crate::connection::model::Reply;
use crate::protocol::backend::{
    AuthenticationOk, BackendMessage, BindComplete, CommandComplete, EmptyQueryResponse,
    ErrorResponse, ParameterDescription, ParameterStatus, ParseComplete, ReadyForQuery,
    RowDescription,
};
use crate::protocol::codec::{frame_bytes, ConnectionCodec};
use crate::protocol_ext::{data_rows_bytes, DataRowBatch};
use crate::text::{append_decimal, decimal_chars};

verus! {

/// The kind of command that a statement is. It decides the tag that reports
/// the statement's completion.
#[derive(Debug, Clone, Copy, PartialEq, Eq, Structural)]
pub enum CommandKind {
    Select,
    Insert,
    Update,
    Delete,
}

/// The tag that reports the completion of a command over `rows` rows:
/// `SELECT`, `UPDATE` or `DELETE` with the number of rows, and `INSERT 0`
/// with it.
pub open spec fn command_tag(kind: CommandKind, rows: nat) -> Seq<char> {
    match kind {
        CommandKind::Select => "SELECT "@ + decimal_chars(rows),
        CommandKind::Insert => "INSERT 0 "@ + decimal_chars(rows),
        CommandKind::Update => "UPDATE "@ + decimal_chars(rows),
        CommandKind::Delete => "DELETE "@ + decimal_chars(rows),
    }
}

/// Writes out the tag that reports the completion of a command.
pub fn make_command_tag(kind: CommandKind, rows: usize) -> (tag: String)
    ensures
        tag@ == command_tag(kind, rows as nat),
{
    let mut tag = match kind {
        CommandKind::Select => String::from_str("SELECT "),
        CommandKind::Insert => String::from_str("INSERT 0 "),
        CommandKind::Update => String::from_str("UPDATE "),
        CommandKind::Delete => String::from_str("DELETE "),
    };
    append_decimal(&mut tag, rows as u64);
    tag
}

/// A message, or a run of data rows, for the client.
pub enum Response {
    AuthenticationOk,
    ParameterStatus(ParameterStatus),
    ReadyForQuery,
    ParseComplete,
    BindComplete,
    ParameterDescription,
    RowDescription(RowDescription),
    DataRows(DataRowBatch),
    CommandComplete(CommandComplete),
    EmptyQueryResponse,
    ErrorResponse(ErrorResponse),
}

impl Response {
    /// The kind of the reply.
    pub open spec fn kind(self) -> Reply {
        match self {
            Response::AuthenticationOk => Reply::AuthenticationOk,
            Response::ParameterStatus(_) => Reply::ParameterStatus,
            Response::ReadyForQuery => Reply::ReadyForQuery,
            Response::ParseComplete => Reply::ParseComplete,
            Response::BindComplete => Reply::BindComplete,
            Response::ParameterDescription => Reply::ParameterDescription,
            Response::RowDescription(_) => Reply::RowDescription,
            Response::DataRows(_) => Reply::DataRows,
            Response::CommandComplete(_) => Reply::CommandComplete,
            Response::EmptyQueryResponse => Reply::EmptyQueryResponse,
            Response::ErrorResponse(_) => Reply::ErrorResponse,
        }
    }

    /// Whether the reply can be written at all: a row description has to fit
    /// its fields, and a batch of rows has to be well formed.
    pub open spec fn fits(self) -> bool {
        match self {
            Response::RowDescription(description) => description.fits(),
            Response::DataRows(batch) => batch.wf(),
            _ => true,
        }
    }

    /// The tag and the body of the reply, where it is one message.
    pub open spec fn message(self) -> Option<(u8, Seq<u8>)> {
        match self {
            Response::AuthenticationOk => Some(
                (AuthenticationOk::tag_byte(), AuthenticationOk.body()),
            ),
            Response::ParameterStatus(status) => Some((ParameterStatus::tag_byte(), status.body())),
            Response::ReadyForQuery => Some((ReadyForQuery::tag_byte(), ReadyForQuery.body())),
            Response::ParseComplete => Some((ParseComplete::tag_byte(), ParseComplete.body())),
            Response::BindComplete => Some((BindComplete::tag_byte(), BindComplete.body())),
            Response::ParameterDescription => Some(
                (ParameterDescription::tag_byte(), (ParameterDescription {  }).body()),
            ),
            Response::RowDescription(description) => Some(
                (RowDescription::tag_byte(), description.body()),
            ),
            Response::DataRows(_) => None,
            Response::CommandComplete(complete) => Some(
                (CommandComplete::tag_byte(), complete.body()),
            ),
            Response::EmptyQueryResponse => Some(
                (EmptyQueryResponse::tag_byte(), EmptyQueryResponse.body()),
            ),
            Response::ErrorResponse(error) => Some((ErrorResponse::tag_byte(), error.body())),
        }
    }

    /// Whether the body of the reply is short enough for a frame. The rows of
    /// a batch are framed one by one as they are written, and always are.
    pub open spec fn frame_fits(self) -> bool {
        match self.message() {
            Some((_, body)) => body.len() + 4 <= i32::MAX,
            None => true,
        }
    }

    /// The bytes of the reply on the wire.
    pub open spec fn bytes(self) -> Seq<u8> {
        match self {
            Response::DataRows(batch) => data_rows_bytes(batch.rows()),
            _ => frame_bytes(self.message().unwrap().0, self.message().unwrap().1),
        }
    }
}

/// The kinds of the given replies, in order.
pub open spec fn kinds(replies: Seq<Response>) -> Seq<Reply> {
    replies.map_values(|reply: Response| reply.kind())
}

/// Whether the reply reports an error of the given code and text that leaves
/// the connection open.
pub open spec fn is_error(reply: Response, code: Seq<char>, message: Seq<char>) -> bool {
    reply matches Response::ErrorResponse(error) && error.sql_state.0@ == code
        && error.severity.0@ == "ERROR"@ && error.message@ == message
}

/// Whether the reply reports an error of the given code and text that ends
/// the connection.
pub open spec fn is_fatal(reply: Response, code: Seq<char>, message: Seq<char>) -> bool {
    reply matches Response::ErrorResponse(error) && error.sql_state.0@ == code
        && error.severity.0@ == "FATAL"@ && error.message@ == message
}

/// Writes a reply to the end of `dst`, unless its body is too long for a
/// frame; then nothing is written.
pub fn write_response(codec: &mut ConnectionCodec, response: Response, dst: &mut BytesMut) -> (written:
    bool)
    requires
        response.fits(),
    ensures
        written == response.frame_fits(),
        written ==> buffer_bytes(*final(dst)) == buffer_bytes(*old(dst)) + response.bytes(),
        !written ==> buffer_bytes(*final(dst)) == buffer_bytes(*old(dst)),
        final(codec).startup_received() == old(codec).startup_received(),
{
    match response {
        Response::AuthenticationOk => codec.try_encode(AuthenticationOk, dst),
        Response::ParameterStatus(status) => codec.try_encode(status, dst),
        Response::ReadyForQuery => codec.try_encode(ReadyForQuery, dst),
        Response::ParseComplete => codec.try_encode(ParseComplete, dst),
        Response::BindComplete => codec.try_encode(BindComplete, dst),
        Response::ParameterDescription => codec.try_encode(ParameterDescription {  }, dst),
        Response::RowDescription(description) => codec.try_encode(description, dst),
        Response::DataRows(batch) => {
            batch.encode_rows(dst);
            true
        },
        Response::CommandComplete(complete) => codec.try_encode(complete, dst),
        Response::EmptyQueryResponse => codec.try_encode(EmptyQueryResponse, dst),
        Response::ErrorResponse(error) => codec.try_encode(error, dst),
    }
}

/// What the driver of a connection does next.
pub enum Request<P> {
    /// Read the next message of the client and hand it to `receive`.
    Receive,
    /// Parse the text and hand the outcome to `parsed`.
    ParseSql(String),
    /// Ask the engine for the result columns of the connection's current
    /// statement and hand the outcome to `prepared`.
    Prepare,
    /// Ask the engine for a portal of the connection's current statement and
    /// hand the outcome to `portal_created`.
    CreatePortal,
    /// Let the portal write its rows into the batch and hand both back to
    /// `fetched`.
    Fetch(P, DataRowBatch),
    /// Close the connection.
    Close,
}

/// The replies to send, in order, and what to do after sending them.
pub struct Step<P> {
    pub replies: Vec<Response>,
    pub next: Request<P>,
}

} // verus!
