//! The messages that the server sends, and the bytes of their bodies.

use bytes::BufMut;
use bytes::BytesMut;
use vstd::prelude::*;
use vstd::utf8::encode_utf8;
use crate::buffer::{buffer_bytes, put_i16, put_i32, put_u32, put_u8};
use crate::protocol::types::{DataTypeOid, FormatCode};
use crate::wire::{be_bytes_i16, be_bytes_i32, be_bytes_u32};

verus! {

/// The bytes of a string on the wire: its UTF-8 encoding and a closing NUL.
pub open spec fn cstring_bytes(text: Seq<char>) -> Seq<u8> {
    encode_utf8(text).push(0u8)
}

/// A message from the server to the client: a one-byte tag and a body.
pub trait BackendMessage {
    /// The byte that announces the message.
    spec fn tag_byte() -> u8;

    /// The byte that announces the message.
    fn tag() -> (tag: u8)
        ensures
            tag == Self::tag_byte(),
    ;

    /// The bytes of the message body, without tag and length.
    spec fn body(&self) -> Seq<u8>;

    /// Whether every field fits the width that the body gives it.
    spec fn fits(&self) -> bool;

    /// Appends the message body to `dst`.
    fn encode(&self, dst: &mut BytesMut)
        requires
            self.fits(),
        ensures
            buffer_bytes(*final(dst)) == buffer_bytes(*old(dst)) + self.body(),
    ;
}

/// Appends a string and its closing NUL.
pub fn put_cstring(dst: &mut BytesMut, text: &str)
    ensures
        buffer_bytes(*final(dst)) == buffer_bytes(*old(dst)) + cstring_bytes(text@),
{
    dst.put_slice(text.as_bytes());
    put_u8(dst, 0);
    assert(buffer_bytes(*dst) =~= buffer_bytes(*old(dst)) + cstring_bytes(text@));
}

/// A five-character code that classifies an error.
#[derive(Debug, Clone, PartialEq)]
pub struct SqlState(pub &'static str);

impl SqlState {
    /// Nothing went wrong.
    pub fn successful_completion() -> (state: SqlState)
        ensures
            state.0@ == "00000"@,
    {
        SqlState("00000")
    }

    /// The request asks for something the server does not offer.
    pub fn feature_not_supported() -> (state: SqlState)
        ensures
            state.0@ == "0A000"@,
    {
        SqlState("0A000")
    }

    /// No portal has the name given.
    pub fn invalid_cursor_name() -> (state: SqlState)
        ensures
            state.0@ == "34000"@,
    {
        SqlState("34000")
    }

    /// The connection or its transport failed.
    pub fn connection_exception() -> (state: SqlState)
        ensures
            state.0@ == "08000"@,
    {
        SqlState("08000")
    }

    /// No prepared statement has the name given.
    pub fn invalid_sql_statement_name() -> (state: SqlState)
        ensures
            state.0@ == "26000"@,
    {
        SqlState("26000")
    }

    /// The engine could not produce the data.
    pub fn data_exception() -> (state: SqlState)
        ensures
            state.0@ == "22000"@,
    {
        SqlState("22000")
    }

    /// The client sent bytes that are no message.
    pub fn protocol_violation() -> (state: SqlState)
        ensures
            state.0@ == "08P01"@,
    {
        SqlState("08P01")
    }

    /// The query text could not be parsed.
    pub fn syntax_error() -> (state: SqlState)
        ensures
            state.0@ == "42601"@,
    {
        SqlState("42601")
    }
}

/// How grave an error is.
#[derive(Debug, Clone, PartialEq)]
pub struct Severity(pub &'static str);

impl Severity {
    /// The statement failed; the connection goes on.
    pub fn error() -> (severity: Severity)
        ensures
            severity.0@ == "ERROR"@,
    {
        Severity("ERROR")
    }

    /// The connection cannot go on.
    pub fn fatal() -> (severity: Severity)
        ensures
            severity.0@ == "FATAL"@,
    {
        Severity("FATAL")
    }
}

/// An error reported to the client.
#[derive(Debug, Clone)]
pub struct ErrorResponse {
    pub sql_state: SqlState,
    pub severity: Severity,
    pub message: String,
}

impl ErrorResponse {
    pub fn new(sql_state: SqlState, severity: Severity, message: String) -> (response: Self)
        ensures
            response.sql_state == sql_state,
            response.severity == severity,
            response.message == message,
    {
        ErrorResponse { sql_state, severity, message }
    }

    /// An error that leaves the connection open.
    pub fn error(sql_state: SqlState, message: String) -> (response: Self)
        ensures
            response.sql_state == sql_state,
            response.severity.0@ == "ERROR"@,
            response.message == message,
    {
        Self::new(sql_state, Severity::error(), message)
    }

    /// An error that ends the connection.
    pub fn fatal(sql_state: SqlState, message: String) -> (response: Self)
        ensures
            response.sql_state == sql_state,
            response.severity.0@ == "FATAL"@,
            response.message == message,
    {
        Self::new(sql_state, Severity::fatal(), message)
    }
}

impl ErrorResponse {
    /// The byte that announces the message.
    pub const TAG: u8 = 69;
}

impl BackendMessage for ErrorResponse {
    open spec fn tag_byte() -> u8 {
        69
    }

    fn tag() -> (tag: u8) {
        69
    }

    open spec fn body(&self) -> Seq<u8> {
        seq![67u8] + cstring_bytes(self.sql_state.0@) + seq![83u8] + cstring_bytes(
            self.severity.0@,
        ) + seq![77u8] + cstring_bytes(self.message@) + seq![0u8]
    }

    open spec fn fits(&self) -> bool {
        true
    }

    fn encode(&self, dst: &mut BytesMut) {
        put_u8(dst, 67);
        put_cstring(dst, self.sql_state.0);
        put_u8(dst, 83);
        put_cstring(dst, self.severity.0);
        put_u8(dst, 77);
        put_cstring(dst, self.message.as_str());
        put_u8(dst, 0);
        assert(buffer_bytes(*dst) =~= buffer_bytes(*old(dst)) + self.body());
    }
}

/// The description of the parameters of a prepared statement. No statement
/// has parameters here, so the body only says that there are none.
#[derive(Debug)]
pub struct ParameterDescription {}

impl ParameterDescription {
    /// The byte that announces the message.
    pub const TAG: u8 = 116;
}

impl BackendMessage for ParameterDescription {
    open spec fn tag_byte() -> u8 {
        116
    }

    fn tag() -> (tag: u8) {
        116
    }

    open spec fn body(&self) -> Seq<u8> {
        be_bytes_i16(0)
    }

    open spec fn fits(&self) -> bool {
        true
    }

    fn encode(&self, dst: &mut BytesMut) {
        put_i16(dst, 0);
    }
}

/// The name and type of one result column.
#[derive(Debug, Clone)]
pub struct FieldDescription {
    pub name: String,
    pub data_type: DataTypeOid,
}

impl FieldDescription {
    /// The record that describes the column in a row description: its name,
    /// no table and no attribute number, the type's OID and size, no type
    /// modifier, and the format of its values.
    pub open spec fn record(&self, format_code: FormatCode) -> Seq<u8> {
        cstring_bytes(self.name@) + be_bytes_i32(0) + be_bytes_i16(0) + be_bytes_u32(
            self.data_type.oid(),
        ) + be_bytes_i16(self.data_type.wire_size()) + be_bytes_i32(-1i32) + be_bytes_i16(
            format_code.number(),
        )
    }
}

/// The records of the given columns, one after the other.
pub open spec fn field_records(fields: Seq<FieldDescription>, format_code: FormatCode) -> Seq<u8>
    decreases fields.len(),
{
    if fields.len() == 0 {
        Seq::<u8>::empty()
    } else {
        field_records(fields.drop_last(), format_code) + fields.last().record(format_code)
    }
}

/// The columns of a result, and the one format in which all their values are
/// written.
#[derive(Debug, Clone)]
pub struct RowDescription {
    pub fields: Vec<FieldDescription>,
    pub format_code: FormatCode,
}

impl RowDescription {
    /// Tells whether the description can be written: the number of columns
    /// fits sixteen bits and every column's type has a known size.
    pub fn is_encodable(&self) -> (ok: bool)
        ensures
            ok == self.fits(),
    {
        if self.fields.len() > 32767 {
            return false;
        }
        let mut i: usize = 0;
        while i < self.fields.len()
            invariant
                i <= self.fields@.len(),
                forall|k: int| 0 <= k < i ==> (#[trigger] self.fields@[k]).data_type.is_known(),
            decreases self.fields@.len() - i,
        {
            if !self.fields[i].data_type.is_supported() {
                return false;
            }
            i += 1;
        }
        true
    }
}

impl RowDescription {
    /// The byte that announces the message.
    pub const TAG: u8 = 84;
}

impl BackendMessage for RowDescription {
    open spec fn tag_byte() -> u8 {
        84
    }

    fn tag() -> (tag: u8) {
        84
    }

    open spec fn body(&self) -> Seq<u8> {
        be_bytes_i16(self.fields@.len() as i16) + field_records(self.fields@, self.format_code)
    }

    open spec fn fits(&self) -> bool {
        &&& self.fields@.len() <= 32767
        &&& forall|k: int|
            0 <= k < self.fields@.len() ==> (#[trigger] self.fields@[k]).data_type.is_known()
    }

    fn encode(&self, dst: &mut BytesMut) {
        let count: usize = self.fields.len();
        put_i16(dst, count as i16);
        let mut i: usize = 0;
        while i < count
            invariant
                i <= count,
                count == self.fields@.len(),
                self.fits(),
                buffer_bytes(*dst) == buffer_bytes(*old(dst)) + be_bytes_i16(count as i16)
                    + field_records(self.fields@.take(i as int), self.format_code),
            decreases count - i,
        {
            let field = &self.fields[i];
            let ghost before = buffer_bytes(*dst);
            put_cstring(dst, field.name.as_str());
            put_i32(dst, 0);
            put_i16(dst, 0);
            put_u32(dst, field.data_type.to_oid());
            put_i16(dst, field.data_type.size_bytes());
            put_i32(dst, -1);
            put_i16(dst, self.format_code.code());
            proof {
                let done = self.fields@.take(i + 1);
                assert(done.drop_last() =~= self.fields@.take(i as int));
                assert(done.last() == self.fields@[i as int]);
                assert(buffer_bytes(*dst) =~= before + field.record(self.format_code));
            }
            i += 1;
        }
        assert(self.fields@.take(count as int) =~= self.fields@);
    }
}

/// The server accepts the client without asking for credentials.
#[derive(Debug)]
pub struct AuthenticationOk;

impl AuthenticationOk {
    /// The byte that announces the message.
    pub const TAG: u8 = 82;
}

impl BackendMessage for AuthenticationOk {
    open spec fn tag_byte() -> u8 {
        82
    }

    fn tag() -> (tag: u8) {
        82
    }

    open spec fn body(&self) -> Seq<u8> {
        be_bytes_i32(0)
    }

    open spec fn fits(&self) -> bool {
        true
    }

    fn encode(&self, dst: &mut BytesMut) {
        put_i32(dst, 0);
    }
}

/// The server waits for the next query, outside any transaction.
#[derive(Debug)]
pub struct ReadyForQuery;

impl ReadyForQuery {
    /// The byte that announces the message.
    pub const TAG: u8 = 90;
}

impl BackendMessage for ReadyForQuery {
    open spec fn tag_byte() -> u8 {
        90
    }

    fn tag() -> (tag: u8) {
        90
    }

    open spec fn body(&self) -> Seq<u8> {
        seq![73u8]
    }

    open spec fn fits(&self) -> bool {
        true
    }

    fn encode(&self, dst: &mut BytesMut) {
        put_u8(dst, 73);
    }
}

/// A statement was parsed and stored.
#[derive(Debug)]
pub struct ParseComplete;

impl ParseComplete {
    /// The byte that announces the message.
    pub const TAG: u8 = 49;
}

impl BackendMessage for ParseComplete {
    open spec fn tag_byte() -> u8 {
        49
    }

    fn tag() -> (tag: u8) {
        49
    }

    open spec fn body(&self) -> Seq<u8> {
        Seq::<u8>::empty()
    }

    open spec fn fits(&self) -> bool {
        true
    }

    fn encode(&self, dst: &mut BytesMut) {
    }
}

/// A statement was bound to a portal.
#[derive(Debug)]
pub struct BindComplete;

impl BindComplete {
    /// The byte that announces the message.
    pub const TAG: u8 = 50;
}

impl BackendMessage for BindComplete {
    open spec fn tag_byte() -> u8 {
        50
    }

    fn tag() -> (tag: u8) {
        50
    }

    open spec fn body(&self) -> Seq<u8> {
        Seq::<u8>::empty()
    }

    open spec fn fits(&self) -> bool {
        true
    }

    fn encode(&self, dst: &mut BytesMut) {
    }
}

/// The query text held no statement.
#[derive(Debug)]
pub struct EmptyQueryResponse;

impl EmptyQueryResponse {
    /// The byte that announces the message.
    pub const TAG: u8 = 73;
}

impl BackendMessage for EmptyQueryResponse {
    open spec fn tag_byte() -> u8 {
        73
    }

    fn tag() -> (tag: u8) {
        73
    }

    open spec fn body(&self) -> Seq<u8> {
        Seq::<u8>::empty()
    }

    open spec fn fits(&self) -> bool {
        true
    }

    fn encode(&self, dst: &mut BytesMut) {
    }
}

/// A statement ran to its end; the tag names the command and its row count.
#[derive(Debug)]
pub struct CommandComplete {
    pub command_tag: String,
}

impl CommandComplete {
    /// The byte that announces the message.
    pub const TAG: u8 = 67;
}

impl BackendMessage for CommandComplete {
    open spec fn tag_byte() -> u8 {
        67
    }

    fn tag() -> (tag: u8) {
        67
    }

    open spec fn body(&self) -> Seq<u8> {
        cstring_bytes(self.command_tag@)
    }

    open spec fn fits(&self) -> bool {
        true
    }

    fn encode(&self, dst: &mut BytesMut) {
        put_cstring(dst, self.command_tag.as_str());
    }
}

/// The value of one run-time parameter of the server.
#[derive(Debug)]
pub struct ParameterStatus {
    name: String,
    value: String,
}

impl ParameterStatus {
    /// The parameter's name.
    pub closed spec fn name_view(&self) -> Seq<char> {
        self.name@
    }

    /// The parameter's value.
    pub closed spec fn value_view(&self) -> Seq<char> {
        self.value@
    }

    /// The status of the parameter called `name`, with `value`.
    pub fn new(name: String, value: String) -> (status: Self)
        ensures
            status.name_view() == name@,
            status.value_view() == value@,
    {
        Self { name, value }
    }
}

impl ParameterStatus {
    /// The byte that announces the message.
    pub const TAG: u8 = 83;
}

impl BackendMessage for ParameterStatus {
    open spec fn tag_byte() -> u8 {
        83
    }

    fn tag() -> (tag: u8) {
        83
    }

    open spec fn body(&self) -> Seq<u8> {
        cstring_bytes(self.name_view()) + cstring_bytes(self.value_view())
    }

    open spec fn fits(&self) -> bool {
        true
    }

    fn encode(&self, dst: &mut BytesMut) {
        put_cstring(dst, self.name.as_str());
        put_cstring(dst, self.value.as_str());
        assert(buffer_bytes(*dst) =~= buffer_bytes(*old(dst)) + self.body());
    }
}

} // verus!
