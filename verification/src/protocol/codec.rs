//! Framing of messages on the byte stream.
//!
//! The first frame of a connection is the startup frame: a 32-bit length
//! that counts itself, the protocol version, and the parameters. Every later
//! frame is a tag byte, a 32-bit length that counts itself and the body, and
//! the body.

use bytes::Buf;
use bytes::BufMut;
use bytes::BytesMut;
use vstd::prelude::*;
use vstd::slice::{slice_subrange, slice_to_vec};
use vstd::std_specs::convert::FromSpecImpl;
use vstd::utf8::{decode_utf8, encode_utf8, encode_utf8_decode_utf8, valid_utf8};
use crate::buffer::{buffer_bytes, put_i32, put_u8};
use crate::protocol::backend::BackendMessage;
use crate::protocol::client::{
    announced, bind_message, cstring_at, describe_message, distinct_names, execute_message,
    format_codes_at, i16_at, i32_at, lemma_nul_position_bounds, nul_position, parameter_map,
    parameters_end, parse_message, query_message, regular_message, result_format_at,
    startup_parameters, Bind, BindFormat, ClientMessage, ClientMessageView, Describe, Execute,
    Parse, Startup, StartupView,
};
use crate::protocol::types::FormatCode;
use crate::wire::{be_bytes_i32, lemma_i32_round_trip, read_i16, read_i32, read_u8};

verus! {

/// `std::string::FromUtf8Error`, carried through without a look inside.
#[verifier::external_type_specification]
#[verifier::external_body]
pub struct ExFromUtf8Error(std::string::FromUtf8Error);

/// `std::io::Error`, carried through without a look inside.
#[verifier::external_type_specification]
#[verifier::external_body]
pub struct ExIoError(std::io::Error);

/// Why bytes could not be read as a message.
#[derive(Debug)]
pub enum ProtocolError {
    /// The transport failed.
    Io(std::io::Error),
    /// A string on the wire is not UTF-8.
    Utf8(std::string::FromUtf8Error),
    /// A message body does not have the shape its tag calls for.
    ParserError,
    /// No client message has this tag.
    InvalidMessageType(u8),
    /// No value format has this number.
    InvalidFormatCode(i16),
}

impl From<std::io::Error> for ProtocolError {
    fn from(error: std::io::Error) -> (wrapped: Self) {
        ProtocolError::Io(error)
    }
}

impl FromSpecImpl<std::io::Error> for ProtocolError {
    open spec fn obeys_from_spec() -> bool {
        true
    }

    open spec fn from_spec(error: std::io::Error) -> Self {
        ProtocolError::Io(error)
    }
}

impl From<std::string::FromUtf8Error> for ProtocolError {
    fn from(error: std::string::FromUtf8Error) -> (wrapped: Self) {
        ProtocolError::Utf8(error)
    }
}

impl FromSpecImpl<std::string::FromUtf8Error> for ProtocolError {
    open spec fn obeys_from_spec() -> bool {
        true
    }

    open spec fn from_spec(error: std::string::FromUtf8Error) -> Self {
        ProtocolError::Utf8(error)
    }
}

/// The kind of a protocol error, without what the standard library attaches
/// to it.
pub enum ProtocolFault {
    Io,
    Utf8,
    ParserError,
    InvalidMessageType(u8),
    InvalidFormatCode(i16),
}

impl View for ProtocolError {
    type V = ProtocolFault;

    open spec fn view(&self) -> ProtocolFault {
        match self {
            ProtocolError::Io(_) => ProtocolFault::Io,
            ProtocolError::Utf8(_) => ProtocolFault::Utf8,
            ProtocolError::ParserError => ProtocolFault::ParserError,
            ProtocolError::InvalidMessageType(tag) => ProtocolFault::InvalidMessageType(*tag),
            ProtocolError::InvalidFormatCode(code) => ProtocolFault::InvalidFormatCode(*code),
        }
    }
}

/// `String::from_utf8`: succeeds on exactly the byte vectors that are valid
/// UTF-8, and the string then has those bytes as its encoding.
#[verifier::external_body]
fn string_from_utf8(bytes: Vec<u8>) -> (text: Result<String, std::string::FromUtf8Error>)
    ensures
        text is Ok <==> valid_utf8(bytes@),
        text matches Ok(s) ==> encode_utf8(s@) == bytes@,
{
    String::from_utf8(bytes)
}

/// What a byte buffer holds at its front.
pub enum Decoded {
    /// Not yet a whole frame: more bytes are needed.
    Incomplete,
    /// A frame that is no message.
    Malformed(ProtocolFault),
    /// A message, in a frame of `consumed` bytes.
    Message { message: ClientMessageView, consumed: int },
}

/// The startup frame at the front of `b`. Its length counts the whole frame,
/// so a length under eight is malformed.
pub open spec fn decode_startup(b: Seq<u8>) -> Decoded {
    if b.len() < 8 {
        Decoded::Incomplete
    } else if i32_at(b, 0) < 8 {
        Decoded::Malformed(ProtocolFault::ParserError)
    } else if b.len() < i32_at(b, 0) {
        Decoded::Incomplete
    } else {
        match startup_parameters(b.subrange(8, i32_at(b, 0) as int), 0, None, Map::empty()) {
            Err(fault) => Decoded::Malformed(fault),
            Ok(parameters) => Decoded::Message {
                message: ClientMessageView::Startup(
                    StartupView {
                        requested_protocol_version: (i16_at(b, 4), i16_at(b, 6)),
                        parameters,
                    },
                ),
                consumed: i32_at(b, 0) as int,
            },
        }
    }
}

/// What a byte buffer holds at its front, read as a regular frame.
pub enum Frame {
    /// Not yet a whole frame.
    Incomplete,
    /// A length that no frame has.
    Malformed,
    /// A frame of `size` bytes, with its tag and its body.
    Whole { tag: u8, body: Seq<u8>, size: int },
}

/// The regular frame at the front of `b`, once all of it is there. The
/// length counts itself and the body, so a length under four is malformed.
pub open spec fn split_frame(b: Seq<u8>) -> Frame {
    if b.len() < 5 {
        Frame::Incomplete
    } else if i32_at(b, 1) < 4 {
        Frame::Malformed
    } else if b.len() < 1 + i32_at(b, 1) {
        Frame::Incomplete
    } else {
        Frame::Whole { tag: b[0], body: b.subrange(5, 1 + i32_at(b, 1)), size: 1 + i32_at(b, 1) }
    }
}

/// The regular frame at the front of `b`, read as a message.
pub open spec fn decode_regular(b: Seq<u8>) -> Decoded {
    match split_frame(b) {
        Frame::Incomplete => Decoded::Incomplete,
        Frame::Malformed => Decoded::Malformed(ProtocolFault::ParserError),
        Frame::Whole { tag, body, size } => match regular_message(tag, body) {
            Err(fault) => Decoded::Malformed(fault),
            Ok(message) => Decoded::Message { message, consumed: size },
        },
    }
}

/// What a connection reads next from `b`: the startup frame until one was
/// read, a regular frame from then on.
pub open spec fn decode_frame(startup_received: bool, b: Seq<u8>) -> Decoded {
    if startup_received {
        decode_regular(b)
    } else {
        decode_startup(b)
    }
}

/// The frame of a message: its tag, the length of the body and of the length
/// field itself, and the body.
pub open spec fn frame_bytes(tag: u8, body: Seq<u8>) -> Seq<u8> {
    seq![tag] + be_bytes_i32((body.len() + 4) as i32) + body
}

/// Whether an outcome of reading agrees with what the grammar says.
pub open spec fn agrees<T: View>(
    outcome: Result<T, ProtocolError>,
    expected: Result<T::V, ProtocolFault>,
) -> bool {
    match expected {
        Ok(value) => outcome matches Ok(read) && read@ == value,
        Err(fault) => outcome matches Err(error) && error@ == fault,
    }
}

/// Finds the first NUL byte at or after `from`.
fn find_nul(buf: &[u8], from: usize) -> (end: usize)
    requires
        from <= buf@.len(),
    ensures
        end == nul_position(buf@, from as int),
        from <= end <= buf@.len(),
{
    let mut i: usize = from;
    while i < buf.len() && buf[i] != 0
        invariant
            from <= i <= buf@.len(),
            nul_position(buf@, from as int) == nul_position(buf@, i as int),
        decreases buf@.len() - i,
    {
        i += 1;
    }
    i
}

/// Reads the string that ends at the byte before `end`.
fn read_text(buf: &[u8], pos: usize, end: usize) -> (text: Result<String, ProtocolError>)
    requires
        pos <= end <= buf@.len(),
    ensures
        text is Ok <==> valid_utf8(buf@.subrange(pos as int, end as int)),
        text matches Ok(s) ==> s@ == decode_utf8(buf@.subrange(pos as int, end as int)),
        text matches Err(error) ==> error@ == ProtocolFault::Utf8,
{
    let bytes = slice_to_vec(slice_subrange(buf, pos, end));
    match string_from_utf8(bytes) {
        Ok(s) => {
            proof {
                encode_utf8_decode_utf8(s@);
            }
            Ok(s)
        },
        Err(error) => Err(ProtocolError::from(error)),
    }
}

/// Reads the NUL-terminated string at `pos`, and gives the position after
/// its NUL byte.
fn read_cstr(buf: &[u8], pos: usize) -> (read: Result<(String, usize), ProtocolError>)
    requires
        pos <= buf@.len(),
    ensures
        match cstring_at(buf@, pos as int) {
            Ok((text, next)) => read matches Ok((s, n)) && s@ == text && n == next && pos < n
                <= buf@.len(),
            Err(fault) => read matches Err(error) && error@ == fault,
        },
{
    let end = find_nul(buf, pos);
    if end >= buf.len() {
        return Err(ProtocolError::ParserError);
    }
    match read_text(buf, pos, end) {
        Ok(s) => Ok((s, end + 1)),
        Err(error) => Err(error),
    }
}

/// Reads a count at `pos`; a negative count stands for none.
fn read_count(buf: &[u8], pos: usize) -> (count: usize)
    requires
        pos + 2 <= buf@.len(),
    ensures
        count == announced(i16_at(buf@, pos as int)),
        count <= 32767,
{
    let n = read_i16(buf, pos);
    if n < 0 {
        0
    } else {
        n as usize
    }
}

/// Reads the body of a `Parse` message.
fn read_parse(body: &[u8]) -> (read: Result<Parse, ProtocolError>)
    ensures
        agrees(read, parse_message(body@)),
{
    let (name, after_name) = match read_cstr(body, 0) {
        Ok(found) => found,
        Err(error) => { return Err(error); },
    };
    let (query, after_query) = match read_cstr(body, after_name) {
        Ok(found) => found,
        Err(error) => { return Err(error); },
    };
    if body.len() - after_query < 2 {
        return Err(ProtocolError::ParserError);
    }
    let count = read_count(body, after_query);
    if body.len() - after_query - 2 < 4 * count {
        return Err(ProtocolError::ParserError);
    }
    Ok(Parse { prepared_statement_name: name, query, parameter_types: Vec::new() })
}

/// Reads the body of a `Describe` message.
fn read_describe(body: &[u8]) -> (read: Result<Describe, ProtocolError>)
    ensures
        agrees(read, describe_message(body@)),
{
    if body.len() < 1 {
        return Err(ProtocolError::ParserError);
    }
    let target = read_u8(body, 0);
    let (name, _) = match read_cstr(body, 1) {
        Ok(found) => found,
        Err(error) => { return Err(error); },
    };
    if target == 80 {
        Ok(Describe::Portal(name))
    } else if target == 83 {
        Ok(Describe::PreparedStatement(name))
    } else {
        Err(ProtocolError::ParserError)
    }
}

/// Passes over `count` parameter values.
fn skip_parameters(body: &[u8], pos: usize, count: usize) -> (end: Result<usize, ProtocolError>)
    requires
        pos <= body@.len(),
    ensures
        match parameters_end(body@, pos as int, count as int) {
            Ok(next) => end matches Ok(n) && n == next && n <= body@.len(),
            Err(fault) => end matches Err(error) && error@ == fault,
        },
{
    let mut at: usize = pos;
    let mut left: usize = count;
    while left > 0
        invariant
            at <= body@.len(),
            parameters_end(body@, pos as int, count as int) == parameters_end(
                body@,
                at as int,
                left as int,
            ),
        decreases left,
    {
        if body.len() - at < 4 {
            return Err(ProtocolError::ParserError);
        }
        let len = read_i32(body, at);
        if len < 0 || body.len() - at - 4 < len as usize {
            return Err(ProtocolError::ParserError);
        }
        at = at + 4 + len as usize;
        left -= 1;
    }
    Ok(at)
}

/// Reads the format code at `pos`.
fn read_format(body: &[u8], pos: usize) -> (format: Result<FormatCode, ProtocolError>)
    requires
        pos + 2 <= body@.len(),
    ensures
        match FormatCode::of_number(i16_at(body@, pos as int)) {
            Some(expected) => format == Ok::<FormatCode, ProtocolError>(expected),
            None => format matches Err(error) && error@ == ProtocolFault::InvalidFormatCode(
                i16_at(body@, pos as int),
            ),
        },
{
    let code = read_i16(body, pos);
    if code == 0 {
        Ok(FormatCode::Text)
    } else if code == 1 {
        Ok(FormatCode::Binary)
    } else {
        Err(ProtocolError::InvalidFormatCode(code))
    }
}

/// Reads the result formats of a `Bind` message.
fn read_result_format(body: &[u8], pos: usize) -> (read: Result<BindFormat, ProtocolError>)
    requires
        pos <= body@.len(),
    ensures
        agrees(read, result_format_at(body@, pos as int)),
{
    if body.len() - pos < 2 {
        return Err(ProtocolError::ParserError);
    }
    let announced_formats = read_i16(body, pos);
    if announced_formats == 0 {
        return Ok(BindFormat::All(FormatCode::Text));
    }
    if announced_formats == 1 {
        if body.len() - pos < 4 {
            return Err(ProtocolError::ParserError);
        }
        return match read_format(body, pos + 2) {
            Ok(format) => Ok(BindFormat::All(format)),
            Err(error) => Err(error),
        };
    }
    let mut formats: Vec<FormatCode> = Vec::new();
    let mut at: usize = pos + 2;
    let mut left: i16 = announced_formats;
    while left > 0
        invariant
            at <= body@.len(),
            pos + 2 <= body@.len(),
            announced_formats == i16_at(body@, pos as int),
            announced_formats != 0,
            announced_formats != 1,
            format_codes_at(body@, pos + 2, announced_formats as int, Seq::empty())
                == format_codes_at(body@, at as int, left as int, formats@),
        decreases left,
    {
        if body.len() - at < 2 {
            return Err(ProtocolError::ParserError);
        }
        match read_format(body, at) {
            Ok(format) => { formats.push(format); },
            Err(error) => { return Err(error); },
        }
        at += 2;
        left -= 1;
    }
    Ok(BindFormat::PerColumn(formats))
}

/// Reads the body of a `Bind` message.
fn read_bind(body: &[u8]) -> (read: Result<Bind, ProtocolError>)
    ensures
        agrees(read, bind_message(body@)),
{
    let (portal, after_portal) = match read_cstr(body, 0) {
        Ok(found) => found,
        Err(error) => { return Err(error); },
    };
    let (statement, after_statement) = match read_cstr(body, after_portal) {
        Ok(found) => found,
        Err(error) => { return Err(error); },
    };
    if body.len() - after_statement < 2 {
        return Err(ProtocolError::ParserError);
    }
    let formats = read_count(body, after_statement);
    if body.len() - after_statement - 2 < 2 * formats {
        return Err(ProtocolError::ParserError);
    }
    let after_formats = after_statement + 2 + 2 * formats;
    if body.len() - after_formats < 2 {
        return Err(ProtocolError::ParserError);
    }
    let parameters = read_count(body, after_formats);
    let after_parameters = match skip_parameters(body, after_formats + 2, parameters) {
        Ok(next) => next,
        Err(error) => { return Err(error); },
    };
    match read_result_format(body, after_parameters) {
        Ok(result_format) => Ok(
            Bind { portal, prepared_statement_name: statement, result_format },
        ),
        Err(error) => Err(error),
    }
}

/// Reads the body of an `Execute` message.
fn read_execute(body: &[u8]) -> (read: Result<Execute, ProtocolError>)
    ensures
        agrees(read, execute_message(body@)),
{
    let (portal, after_portal) = match read_cstr(body, 0) {
        Ok(found) => found,
        Err(error) => { return Err(error); },
    };
    if body.len() - after_portal < 4 {
        return Err(ProtocolError::ParserError);
    }
    let limit = read_i32(body, after_portal);
    if limit == 0 {
        Ok(Execute { portal, max_rows: None })
    } else {
        Ok(Execute { portal, max_rows: Some(limit) })
    }
}

/// Reads the body of a `Query` message.
fn read_query(body: &[u8]) -> (read: Result<String, ProtocolError>)
    ensures
        match query_message(body@) {
            Ok(text) => read matches Ok(s) && s@ == text,
            Err(fault) => read matches Err(error) && error@ == fault,
        },
{
    match read_cstr(body, 0) {
        Ok((query, _)) => Ok(query),
        Err(error) => Err(error),
    }
}

/// Reads the body of a regular frame as the message that its tag announces.
pub fn read_message(tag: u8, body: &[u8]) -> (read: Result<ClientMessage, ProtocolError>)
    ensures
        agrees(read, regular_message(tag, body@)),
{
    if tag == 80 {
        match read_parse(body) {
            Ok(parse) => Ok(ClientMessage::Parse(parse)),
            Err(error) => Err(error),
        }
    } else if tag == 68 {
        match read_describe(body) {
            Ok(describe) => Ok(ClientMessage::Describe(describe)),
            Err(error) => Err(error),
        }
    } else if tag == 83 {
        Ok(ClientMessage::Sync)
    } else if tag == 66 {
        match read_bind(body) {
            Ok(bind) => Ok(ClientMessage::Bind(bind)),
            Err(error) => Err(error),
        }
    } else if tag == 69 {
        match read_execute(body) {
            Ok(execute) => Ok(ClientMessage::Execute(execute)),
            Err(error) => Err(error),
        }
    } else if tag == 81 {
        match read_query(body) {
            Ok(query) => Ok(ClientMessage::Query(query)),
            Err(error) => Err(error),
        }
    } else if tag == 88 {
        Ok(ClientMessage::Terminate)
    } else {
        Err(ProtocolError::InvalidMessageType(tag))
    }
}

/// Setting the value at an index where the name already stands changes the
/// mapping as an insertion of that name does.
proof fn lemma_parameter_replaced(pairs: Seq<(String, String)>, i: int, name: String, value: String)
    requires
        0 <= i < pairs.len(),
        distinct_names(pairs),
        pairs[i].0@ == name@,
    ensures
        parameter_map(pairs.update(i, (name, value))) == parameter_map(pairs).insert(
            name@,
            value@,
        ),
        distinct_names(pairs.update(i, (name, value))),
    decreases pairs.len(),
{
    let changed = pairs.update(i, (name, value));
    if i == pairs.len() - 1 {
        assert(changed.drop_last() =~= pairs.drop_last());
        assert(parameter_map(changed) =~= parameter_map(pairs).insert(name@, value@));
    } else {
        assert(changed.drop_last() =~= pairs.drop_last().update(i, (name, value)));
        assert(changed.last() == pairs.last());
        lemma_parameter_replaced(pairs.drop_last(), i, name, value);
        assert(pairs.last().0@ != name@);
        assert(parameter_map(changed) =~= parameter_map(pairs).insert(name@, value@));
    }
}

/// Sets the value of a parameter, in place where the name is already there.
fn set_parameter(pairs: &mut Vec<(String, String)>, name: String, value: String)
    requires
        distinct_names(old(pairs)@),
    ensures
        distinct_names(final(pairs)@),
        parameter_map(final(pairs)@) == parameter_map(old(pairs)@).insert(name@, value@),
{
    let mut i: usize = 0;
    while i < pairs.len()
        invariant
            i <= pairs@.len(),
            pairs@ == old(pairs)@,
            distinct_names(pairs@),
            forall|k: int| 0 <= k < i ==> pairs@[k].0@ != name@,
        decreases pairs@.len() - i,
    {
        if pairs[i].0 == name {
            proof {
                lemma_parameter_replaced(pairs@, i as int, name, value);
            }
            pairs.set(i, (name, value));
            return ;
        }
        i += 1;
    }
    pairs.push((name, value));
    assert(pairs@.drop_last() =~= old(pairs)@);
}

/// Reads the parameters of a startup frame.
fn read_startup_parameters(body: &[u8]) -> (read: Result<Vec<(String, String)>, ProtocolError>)
    ensures
        match startup_parameters(body@, 0, None, Map::empty()) {
            Ok(parameters) => read matches Ok(pairs) && parameter_map(pairs@) == parameters
                && distinct_names(pairs@),
            Err(fault) => read matches Err(error) && error@ == fault,
        },
{
    let mut pairs: Vec<(String, String)> = Vec::new();
    let mut name: Option<String> = None;
    let mut at: usize = 0;
    loop
        invariant
            at <= body@.len(),
            distinct_names(pairs@),
            startup_parameters(body@, 0, None, Map::empty()) == startup_parameters(
                body@,
                at as int,
                match name {
                    Some(n) => Some(n@),
                    None => None,
                },
                parameter_map(pairs@),
            ),
        decreases body@.len() - at,
    {
        if at >= body.len() {
            return Ok(pairs);
        }
        let end = find_nul(body, at);
        if end >= body.len() {
            return Ok(pairs);
        }
        let text = match read_text(body, at, end) {
            Ok(s) => s,
            Err(error) => { return Err(error); },
        };
        match name {
            Some(n) => {
                set_parameter(&mut pairs, n, text);
                name = None;
            },
            None => {
                name = Some(text);
            },
        }
        at = end + 1;
    }
}

/// Reads frames off a connection's byte stream and writes frames onto it.
/// It remembers one thing: whether the startup frame was read.
#[derive(Debug)]
pub struct ConnectionCodec {
    startup_received: bool,
}

impl Default for ConnectionCodec {
    fn default() -> (codec: Self)
        ensures
            !codec.startup_received(),
    {
        ConnectionCodec { startup_received: false }
    }
}

impl ConnectionCodec {
    /// Whether the startup frame was read.
    pub closed spec fn startup_received(&self) -> bool {
        self.startup_received
    }

    /// A codec at the start of a connection.
    pub fn new() -> (codec: Self)
        ensures
            !codec.startup_received(),
    {
        Self { startup_received: false }
    }

    /// Tells whether the startup frame was read.
    pub fn is_started(&self) -> (started: bool)
        ensures
            started == self.startup_received(),
    {
        self.startup_received
    }

    /// Reads the next message off the front of `src`.
    ///
    /// Until the frame is whole, nothing is read and nothing changes. A
    /// malformed frame is an error and leaves `src` and the codec as they
    /// were. A message leaves with its whole frame, and after the startup
    /// message the codec reads regular frames.
    pub fn decode(&mut self, src: &mut BytesMut) -> (read: Result<
        Option<ClientMessage>,
        ProtocolError,
    >)
        ensures
            match decode_frame(old(self).startup_received(), buffer_bytes(*old(src))) {
                Decoded::Incomplete => {
                    &&& read matches Ok(None)
                    &&& buffer_bytes(*final(src)) == buffer_bytes(*old(src))
                    &&& final(self).startup_received() == old(self).startup_received()
                },
                Decoded::Malformed(fault) => {
                    &&& read matches Err(error)
                    &&& error@ == fault
                    &&& buffer_bytes(*final(src)) == buffer_bytes(*old(src))
                    &&& final(self).startup_received() == old(self).startup_received()
                },
                Decoded::Message { message, consumed } => {
                    &&& read matches Ok(Some(m))
                    &&& m@ == message
                    &&& m matches ClientMessage::Startup(startup) ==> distinct_names(
                        startup.parameters@,
                    )
                    &&& 0 <= consumed <= buffer_bytes(*old(src)).len()
                    &&& buffer_bytes(*final(src)) == buffer_bytes(*old(src)).skip(consumed)
                    &&& final(self).startup_received()
                },
            },
    {
        if !self.startup_received {
            let message = {
                let bytes: &[u8] = src;
                if bytes.len() < 8 {
                    return Ok(None);
                }
                let length = read_i32(bytes, 0);
                if length < 8 {
                    return Err(ProtocolError::ParserError);
                }
                let size = length as usize;
                if bytes.len() < size {
                    return Ok(None);
                }
                let major = read_i16(bytes, 4);
                let minor = read_i16(bytes, 6);
                let parameters = match read_startup_parameters(slice_subrange(bytes, 8, size)) {
                    Ok(pairs) => pairs,
                    Err(error) => { return Err(error); },
                };
                (Startup { requested_protocol_version: (major, minor), parameters }, size)
            };
            src.advance(message.1);
            self.startup_received = true;
            return Ok(Some(ClientMessage::Startup(message.0)));
        }
        let message = {
            let bytes: &[u8] = src;
            if bytes.len() < 5 {
                return Ok(None);
            }
            let tag = read_u8(bytes, 0);
            let length = read_i32(bytes, 1);
            if length < 4 {
                return Err(ProtocolError::ParserError);
            }
            let size = length as usize + 1;
            if bytes.len() < size {
                return Ok(None);
            }
            match read_message(tag, slice_subrange(bytes, 5, size)) {
                Ok(message) => (message, size),
                Err(error) => { return Err(error); },
            }
        };
        src.advance(message.1);
        Ok(Some(message.0))
    }

    /// Writes the frame of `item` to the end of `dst`: its tag, the length of
    /// its body and of the length field, and its body.
    pub fn encode<T: BackendMessage>(&mut self, item: T, dst: &mut BytesMut) -> (written: Result<
        (),
        ProtocolError,
    >)
        requires
            item.fits(),
            item.body().len() + 4 <= i32::MAX,
        ensures
            written is Ok,
            buffer_bytes(*final(dst)) == buffer_bytes(*old(dst)) + frame_bytes(
                T::tag_byte(),
                item.body(),
            ),
            final(self).startup_received() == old(self).startup_received(),
    {
        let mut body = BytesMut::new();
        item.encode(&mut body);
        assert(buffer_bytes(body) =~= item.body());
        write_frame(T::tag(), &body, dst);
        Ok(())
    }

    /// Writes the frame of `item` to the end of `dst`, unless the body is too
    /// long for the length field; then nothing is written.
    pub fn try_encode<T: BackendMessage>(&mut self, item: T, dst: &mut BytesMut) -> (written: bool)
        requires
            item.fits(),
        ensures
            written == (item.body().len() + 4 <= i32::MAX),
            written ==> buffer_bytes(*final(dst)) == buffer_bytes(*old(dst)) + frame_bytes(
                T::tag_byte(),
                item.body(),
            ),
            !written ==> buffer_bytes(*final(dst)) == buffer_bytes(*old(dst)),
            final(self).startup_received() == old(self).startup_received(),
    {
        let mut body = BytesMut::new();
        item.encode(&mut body);
        assert(buffer_bytes(body) =~= item.body());
        if body.len() > 2147483643 {
            return false;
        }
        write_frame(T::tag(), &body, dst);
        true
    }
}

/// Writes the frame of a tag and a body to the end of `dst`.
pub fn write_frame(tag: u8, body: &[u8], dst: &mut BytesMut)
    requires
        body@.len() + 4 <= i32::MAX,
    ensures
        buffer_bytes(*final(dst)) == buffer_bytes(*old(dst)) + frame_bytes(tag, body@),
{
    put_u8(dst, tag);
    put_i32(dst, (body.len() + 4) as i32);
    dst.put_slice(body);
    assert(buffer_bytes(*dst) =~= buffer_bytes(*old(dst)) + frame_bytes(tag, body@));
}

/// A frame is five bytes longer than its body, and its length field holds
/// the length of the body and of the field itself.
pub proof fn lemma_frame_length(tag: u8, body: Seq<u8>)
    requires
        body.len() + 4 <= i32::MAX,
    ensures
        frame_bytes(tag, body).len() == 5 + body.len(),
        frame_bytes(tag, body)[0] == tag,
        i32_at(frame_bytes(tag, body), 1) == body.len() + 4,
{
    let length = (body.len() + 4) as i32;
    lemma_i32_round_trip(length);
    assert(frame_bytes(tag, body).subrange(1, 5) =~= be_bytes_i32(length));
}

/// Splitting what a frame was written as gives back the tag and the body,
/// byte for byte, whatever follows the frame.
pub proof fn lemma_frame_round_trip(tag: u8, body: Seq<u8>, rest: Seq<u8>)
    requires
        body.len() + 4 <= i32::MAX,
    ensures
        split_frame(frame_bytes(tag, body) + rest) == (Frame::Whole {
            tag,
            body,
            size: 5 + body.len() as int,
        }),
{
    let length = (body.len() + 4) as i32;
    let bytes = frame_bytes(tag, body) + rest;
    lemma_i32_round_trip(length);
    assert(bytes.subrange(1, 5) =~= be_bytes_i32(length));
    assert(bytes.subrange(5, 1 + length) =~= body);
}

/// For every backend message: splitting the frame that `encode` writes for
/// it gives back the message's tag and a body equal to the message's body.
pub proof fn lemma_backend_frame_round_trip<T: BackendMessage>(item: T, rest: Seq<u8>)
    requires
        item.body().len() + 4 <= i32::MAX,
    ensures
        split_frame(frame_bytes(T::tag_byte(), item.body()) + rest) == (Frame::Whole {
            tag: T::tag_byte(),
            body: item.body(),
            size: 5 + item.body().len() as int,
        }),
{
    lemma_frame_round_trip(T::tag_byte(), item.body(), rest);
}

/// A message leaves with exactly its frame. The length field of a regular
/// frame counts the frame without its tag; that of the startup frame counts
/// the whole frame.
pub proof fn lemma_decoded_length(startup_received: bool, b: Seq<u8>)
    ensures
        decode_frame(startup_received, b) matches Decoded::Message { consumed, .. } ==> {
            &&& consumed <= b.len()
            &&& startup_received ==> consumed == 1 + i32_at(b, 1) && consumed >= 5
            &&& !startup_received ==> consumed == i32_at(b, 0) && consumed >= 8
        },
{
}

/// Only the first frame of a connection is read as a startup message: once
/// one was read, no frame is. An unread connection reads nothing else. A
/// second startup frame is then a regular frame with the tag of its first
/// byte, and no message has the tag zero.
pub proof fn lemma_startup_once(b: Seq<u8>)
    ensures
        decode_frame(true, b) matches Decoded::Message { message, .. } ==> !(message is Startup),
        decode_frame(false, b) matches Decoded::Message { message, .. } ==> message is Startup,
        split_frame(b) matches Frame::Whole { tag, .. } && tag == 0 ==> decode_frame(true, b) == (
        Decoded::Malformed(ProtocolFault::InvalidMessageType(0))),
{
}

} // verus!
