//! The messages that a client sends, and the grammar of their bodies.

use vstd::prelude::*;
use vstd::utf8::{decode_utf8, valid_utf8};
use crate::protocol::codec::ProtocolFault;
use crate::protocol::types::{DataTypeOid, FormatCode};
use crate::wire::{i16_from_be, i32_from_be};

verus! {

/// The first message of a connection: the protocol version that the client
/// asks for, and its run-time parameters. No parameter name occurs twice.
#[derive(Debug)]
pub struct Startup {
    pub requested_protocol_version: (i16, i16),
    pub parameters: Vec<(String, String)>,
}

/// What a startup message says.
pub struct StartupView {
    pub requested_protocol_version: (i16, i16),
    pub parameters: Map<Seq<char>, Seq<char>>,
}

/// The mapping that a list of name and value pairs stands for. Where a name
/// occurs again, the later value counts.
pub open spec fn parameter_map(pairs: Seq<(String, String)>) -> Map<Seq<char>, Seq<char>>
    decreases pairs.len(),
{
    if pairs.len() == 0 {
        Map::empty()
    } else {
        parameter_map(pairs.drop_last()).insert(pairs.last().0@, pairs.last().1@)
    }
}

/// No name occurs twice in the list.
pub open spec fn distinct_names(pairs: Seq<(String, String)>) -> bool {
    forall|i: int, j: int| 0 <= i < j < pairs.len() ==> pairs[i].0@ != pairs[j].0@
}

impl View for Startup {
    type V = StartupView;

    open spec fn view(&self) -> StartupView {
        StartupView {
            requested_protocol_version: self.requested_protocol_version,
            parameters: parameter_map(self.parameters@),
        }
    }
}

/// A request to describe a portal or a prepared statement, by name.
#[derive(Debug)]
pub enum Describe {
    Portal(String),
    PreparedStatement(String),
}

pub enum DescribeView {
    Portal(Seq<char>),
    PreparedStatement(Seq<char>),
}

impl View for Describe {
    type V = DescribeView;

    open spec fn view(&self) -> DescribeView {
        match self {
            Describe::Portal(name) => DescribeView::Portal(name@),
            Describe::PreparedStatement(name) => DescribeView::PreparedStatement(name@),
        }
    }
}

/// A request to parse a query and keep it under a name. The parameter types
/// that the client declares are read and dropped, so the list is empty.
#[derive(Debug)]
pub struct Parse {
    pub prepared_statement_name: String,
    pub query: String,
    pub parameter_types: Vec<DataTypeOid>,
}

pub struct ParseView {
    pub prepared_statement_name: Seq<char>,
    pub query: Seq<char>,
    pub parameter_types: Seq<DataTypeOid>,
}

impl View for Parse {
    type V = ParseView;

    open spec fn view(&self) -> ParseView {
        ParseView {
            prepared_statement_name: self.prepared_statement_name@,
            query: self.query@,
            parameter_types: self.parameter_types@,
        }
    }
}

/// The formats that a client asks for the result columns of a portal: one for
/// all of them, or one for each.
#[derive(Debug)]
pub enum BindFormat {
    All(FormatCode),
    PerColumn(Vec<FormatCode>),
}

pub enum BindFormatView {
    All(FormatCode),
    PerColumn(Seq<FormatCode>),
}

impl View for BindFormat {
    type V = BindFormatView;

    open spec fn view(&self) -> BindFormatView {
        match self {
            BindFormat::All(format) => BindFormatView::All(*format),
            BindFormat::PerColumn(formats) => BindFormatView::PerColumn(formats@),
        }
    }
}

/// A request to bind a prepared statement to a portal.
#[derive(Debug)]
pub struct Bind {
    pub portal: String,
    pub prepared_statement_name: String,
    pub result_format: BindFormat,
}

pub struct BindView {
    pub portal: Seq<char>,
    pub prepared_statement_name: Seq<char>,
    pub result_format: BindFormatView,
}

impl View for Bind {
    type V = BindView;

    open spec fn view(&self) -> BindView {
        BindView {
            portal: self.portal@,
            prepared_statement_name: self.prepared_statement_name@,
            result_format: self.result_format@,
        }
    }
}

/// A request to run a portal. `max_rows` is `None` where the client sets no
/// limit.
#[derive(Debug)]
pub struct Execute {
    pub portal: String,
    pub max_rows: Option<i32>,
}

pub struct ExecuteView {
    pub portal: Seq<char>,
    pub max_rows: Option<i32>,
}

impl View for Execute {
    type V = ExecuteView;

    open spec fn view(&self) -> ExecuteView {
        ExecuteView { portal: self.portal@, max_rows: self.max_rows }
    }
}

/// A message from the client.
#[derive(Debug)]
pub enum ClientMessage {
    Startup(Startup),
    Parse(Parse),
    Describe(Describe),
    Bind(Bind),
    Sync,
    Execute(Execute),
    Query(String),
    Terminate,
}

pub enum ClientMessageView {
    Startup(StartupView),
    Parse(ParseView),
    Describe(DescribeView),
    Bind(BindView),
    Sync,
    Execute(ExecuteView),
    Query(Seq<char>),
    Terminate,
}

impl View for ClientMessage {
    type V = ClientMessageView;

    open spec fn view(&self) -> ClientMessageView {
        match self {
            ClientMessage::Startup(startup) => ClientMessageView::Startup(startup@),
            ClientMessage::Parse(parse) => ClientMessageView::Parse(parse@),
            ClientMessage::Describe(describe) => ClientMessageView::Describe(describe@),
            ClientMessage::Bind(bind) => ClientMessageView::Bind(bind@),
            ClientMessage::Sync => ClientMessageView::Sync,
            ClientMessage::Execute(execute) => ClientMessageView::Execute(execute@),
            ClientMessage::Query(query) => ClientMessageView::Query(query@),
            ClientMessage::Terminate => ClientMessageView::Terminate,
        }
    }
}

/// The index of the first NUL byte at or after `from`; the length of `b`
/// where there is none.
pub open spec fn nul_position(b: Seq<u8>, from: int) -> int
    decreases b.len() - from,
{
    if from < 0 || from >= b.len() {
        b.len() as int
    } else if b[from] == 0 {
        from
    } else {
        nul_position(b, from + 1)
    }
}

/// The string that starts at `pos` and ends before the next NUL byte, with
/// the position after that byte. Without a NUL byte the body is malformed;
/// bytes that are not UTF-8 are an error of their own.
pub open spec fn cstring_at(b: Seq<u8>, pos: int) -> Result<(Seq<char>, int), ProtocolFault> {
    let end = nul_position(b, pos);
    if end >= b.len() {
        Err(ProtocolFault::ParserError)
    } else if !valid_utf8(b.subrange(pos, end)) {
        Err(ProtocolFault::Utf8)
    } else {
        Ok((decode_utf8(b.subrange(pos, end)), end + 1))
    }
}

/// The signed 16-bit integer at `pos`.
pub open spec fn i16_at(b: Seq<u8>, pos: int) -> i16 {
    i16_from_be(b.subrange(pos, pos + 2))
}

/// The signed 32-bit integer at `pos`.
pub open spec fn i32_at(b: Seq<u8>, pos: int) -> i32 {
    i32_from_be(b.subrange(pos, pos + 4))
}

/// How many items a count on the wire announces: a negative count announces
/// none.
pub open spec fn announced(count: i16) -> int {
    if count < 0 {
        0
    } else {
        count as int
    }
}

/// The body of a `Parse` message: two strings, a count, and one 32-bit OID
/// for each parameter counted.
pub open spec fn parse_message(b: Seq<u8>) -> Result<ParseView, ProtocolFault> {
    match cstring_at(b, 0) {
        Err(fault) => Err(fault),
        Ok((name, after_name)) => match cstring_at(b, after_name) {
            Err(fault) => Err(fault),
            Ok((query, after_query)) => {
                if after_query + 2 > b.len() {
                    Err(ProtocolFault::ParserError)
                } else if after_query + 2 + 4 * announced(i16_at(b, after_query)) > b.len() {
                    Err(ProtocolFault::ParserError)
                } else {
                    Ok(
                        ParseView {
                            prepared_statement_name: name,
                            query,
                            parameter_types: Seq::empty(),
                        },
                    )
                }
            },
        },
    }
}

/// The body of a `Describe` message: a byte that says what is described,
/// `P` for a portal or `S` for a statement, and its name.
pub open spec fn describe_message(b: Seq<u8>) -> Result<DescribeView, ProtocolFault> {
    if b.len() < 1 {
        Err(ProtocolFault::ParserError)
    } else {
        match cstring_at(b, 1) {
            Err(fault) => Err(fault),
            Ok((name, _)) => {
                if b[0] == 80 {
                    Ok(DescribeView::Portal(name))
                } else if b[0] == 83 {
                    Ok(DescribeView::PreparedStatement(name))
                } else {
                    Err(ProtocolFault::ParserError)
                }
            },
        }
    }
}

/// The position after `count` parameter values from `pos` on, each a 32-bit
/// length and as many bytes. A negative length is malformed.
pub open spec fn parameters_end(b: Seq<u8>, pos: int, count: int) -> Result<int, ProtocolFault>
    decreases count,
{
    if count <= 0 {
        Ok(pos)
    } else if pos + 4 > b.len() {
        Err(ProtocolFault::ParserError)
    } else if i32_at(b, pos) < 0 || pos + 4 + i32_at(b, pos) > b.len() {
        Err(ProtocolFault::ParserError)
    } else {
        parameters_end(b, pos + 4 + i32_at(b, pos), count - 1)
    }
}

/// The `count` format codes from `pos` on, after those in `read`. The first
/// number that is no format code is an error.
pub open spec fn format_codes_at(b: Seq<u8>, pos: int, count: int, read: Seq<FormatCode>) -> Result<
    Seq<FormatCode>,
    ProtocolFault,
>
    decreases count,
{
    if count <= 0 {
        Ok(read)
    } else if pos + 2 > b.len() {
        Err(ProtocolFault::ParserError)
    } else {
        match FormatCode::of_number(i16_at(b, pos)) {
            None => Err(ProtocolFault::InvalidFormatCode(i16_at(b, pos))),
            Some(format) => format_codes_at(b, pos + 2, count - 1, read.push(format)),
        }
    }
}

/// The result formats of a `Bind` message at `pos`: a count, then as many
/// codes. No code means text for every column, one code is for every column,
/// and more are one for each column.
pub open spec fn result_format_at(b: Seq<u8>, pos: int) -> Result<BindFormatView, ProtocolFault> {
    if pos + 2 > b.len() {
        Err(ProtocolFault::ParserError)
    } else if i16_at(b, pos) == 0 {
        Ok(BindFormatView::All(FormatCode::Text))
    } else if i16_at(b, pos) == 1 {
        if pos + 4 > b.len() {
            Err(ProtocolFault::ParserError)
        } else {
            match FormatCode::of_number(i16_at(b, pos + 2)) {
                None => Err(ProtocolFault::InvalidFormatCode(i16_at(b, pos + 2))),
                Some(format) => Ok(BindFormatView::All(format)),
            }
        }
    } else {
        match format_codes_at(b, pos + 2, i16_at(b, pos) as int, Seq::empty()) {
            Err(fault) => Err(fault),
            Ok(formats) => Ok(BindFormatView::PerColumn(formats)),
        }
    }
}

/// The body of a `Bind` message: the portal's name, the statement's name,
/// the formats of the parameters, the parameters, and the result formats.
/// Parameter formats and values are passed over.
pub open spec fn bind_message(b: Seq<u8>) -> Result<BindView, ProtocolFault> {
    match cstring_at(b, 0) {
        Err(fault) => Err(fault),
        Ok((portal, after_portal)) => match cstring_at(b, after_portal) {
            Err(fault) => Err(fault),
            Ok((statement, after_statement)) => {
                if after_statement + 2 > b.len() {
                    Err(ProtocolFault::ParserError)
                } else {
                    let after_formats = after_statement + 2 + 2 * announced(
                        i16_at(b, after_statement),
                    );
                    if after_formats + 2 > b.len() {
                        Err(ProtocolFault::ParserError)
                    } else {
                        match parameters_end(
                            b,
                            after_formats + 2,
                            announced(i16_at(b, after_formats)),
                        ) {
                            Err(fault) => Err(fault),
                            Ok(after_parameters) => match result_format_at(b, after_parameters) {
                                Err(fault) => Err(fault),
                                Ok(result_format) => Ok(
                                    BindView {
                                        portal,
                                        prepared_statement_name: statement,
                                        result_format,
                                    },
                                ),
                            },
                        }
                    }
                }
            },
        },
    }
}

/// The body of an `Execute` message: the portal's name and the most rows to
/// return, where zero sets no limit.
pub open spec fn execute_message(b: Seq<u8>) -> Result<ExecuteView, ProtocolFault> {
    match cstring_at(b, 0) {
        Err(fault) => Err(fault),
        Ok((portal, after_portal)) => {
            if after_portal + 4 > b.len() {
                Err(ProtocolFault::ParserError)
            } else if i32_at(b, after_portal) == 0 {
                Ok(ExecuteView { portal, max_rows: None })
            } else {
                Ok(ExecuteView { portal, max_rows: Some(i32_at(b, after_portal)) })
            }
        },
    }
}

/// The body of a `Query` message: the query text.
pub open spec fn query_message(b: Seq<u8>) -> Result<Seq<char>, ProtocolFault> {
    match cstring_at(b, 0) {
        Err(fault) => Err(fault),
        Ok((query, _)) => Ok(query),
    }
}

/// The message that a tag and a body stand for. What follows the last field
/// of a body is passed over.
pub open spec fn regular_message(tag: u8, b: Seq<u8>) -> Result<ClientMessageView, ProtocolFault> {
    if tag == 80 {
        match parse_message(b) {
            Ok(parse) => Ok(ClientMessageView::Parse(parse)),
            Err(fault) => Err(fault),
        }
    } else if tag == 68 {
        match describe_message(b) {
            Ok(describe) => Ok(ClientMessageView::Describe(describe)),
            Err(fault) => Err(fault),
        }
    } else if tag == 83 {
        Ok(ClientMessageView::Sync)
    } else if tag == 66 {
        match bind_message(b) {
            Ok(bind) => Ok(ClientMessageView::Bind(bind)),
            Err(fault) => Err(fault),
        }
    } else if tag == 69 {
        match execute_message(b) {
            Ok(execute) => Ok(ClientMessageView::Execute(execute)),
            Err(fault) => Err(fault),
        }
    } else if tag == 81 {
        match query_message(b) {
            Ok(query) => Ok(ClientMessageView::Query(query)),
            Err(fault) => Err(fault),
        }
    } else if tag == 88 {
        Ok(ClientMessageView::Terminate)
    } else {
        Err(ProtocolFault::InvalidMessageType(tag))
    }
}

/// The parameters of a startup message from `pos` on: NUL-terminated strings
/// that are in turn a name and its value. `name` is the name that still
/// waits for its value, and `read` holds the pairs before `pos`. A name
/// without a value, and bytes without a closing NUL, are passed over.
pub open spec fn startup_parameters(
    b: Seq<u8>,
    pos: int,
    name: Option<Seq<char>>,
    read: Map<Seq<char>, Seq<char>>,
) -> Result<Map<Seq<char>, Seq<char>>, ProtocolFault>
    decreases b.len() - pos,
{
    let end = nul_position(b, pos);
    if pos < 0 || pos >= b.len() || end >= b.len() {
        Ok(read)
    } else if !valid_utf8(b.subrange(pos, end)) {
        Err(ProtocolFault::Utf8)
    } else {
        proof {
            lemma_nul_position_bounds(b, pos);
        }
        let text = decode_utf8(b.subrange(pos, end));
        match name {
            Some(name) => startup_parameters(b, end + 1, None, read.insert(name, text)),
            None => startup_parameters(b, end + 1, Some(text), read),
        }
    }
}

/// The first NUL byte at or after a position lies at or after it, and within
/// the bytes or at their end.
pub proof fn lemma_nul_position_bounds(b: Seq<u8>, from: int)
    requires
        0 <= from <= b.len(),
    ensures
        from <= nul_position(b, from) <= b.len(),
        nul_position(b, from) < b.len() ==> b[nul_position(b, from)] == 0,
        forall|k: int| from <= k < nul_position(b, from) ==> b[k] != 0,
    decreases b.len() - from,
{
    if from < b.len() && b[from] != 0 {
        lemma_nul_position_bounds(b, from + 1);
    }
}

} // verus!
