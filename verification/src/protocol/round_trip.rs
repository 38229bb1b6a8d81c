//! Client frames written back from the messages read out of them.

use vstd::prelude::*;
use vstd::utf8::decode_utf8_encode_utf8;
use crate::protocol::backend::cstring_bytes;
use crate::protocol::client::{
    bind_message, cstring_at, describe_message, execute_message, format_codes_at, i16_at,
    lemma_nul_position_bounds, nul_position, parameters_end, parse_message, query_message,
    regular_message, result_format_at, BindFormatView, ClientMessageView, DescribeView,
};
use crate::protocol::codec::{
    decode_regular, frame_bytes, split_frame, Decoded, Frame, ProtocolFault,
};
use crate::protocol::types::FormatCode;
use crate::wire::{
    be_bytes_i16, be_bytes_i32, lemma_i16_bytes_round_trip, lemma_i32_bytes_round_trip,
};

verus! {

/// The given format codes on the wire, one after the other.
pub open spec fn format_codes_bytes(formats: Seq<FormatCode>) -> Seq<u8>
    decreases formats.len(),
{
    if formats.len() == 0 {
        Seq::<u8>::empty()
    } else {
        be_bytes_i16(formats[0].number()) + format_codes_bytes(formats.drop_first())
    }
}

/// The result formats of a `Bind` message on the wire: no code for text in
/// every column, one code for binary in every column, and else one code for
/// each column.
pub open spec fn result_format_bytes(format: BindFormatView) -> Seq<u8> {
    match format {
        BindFormatView::All(FormatCode::Text) => be_bytes_i16(0),
        BindFormatView::All(FormatCode::Binary) => be_bytes_i16(1) + be_bytes_i16(1),
        BindFormatView::PerColumn(formats) => be_bytes_i16(formats.len() as i16)
            + format_codes_bytes(formats),
    }
}

/// The tag of a client message.
pub open spec fn client_tag(message: ClientMessageView) -> u8 {
    match message {
        ClientMessageView::Startup(_) => 0,
        ClientMessageView::Parse(_) => 80,
        ClientMessageView::Describe(_) => 68,
        ClientMessageView::Bind(_) => 66,
        ClientMessageView::Sync => 83,
        ClientMessageView::Execute(_) => 69,
        ClientMessageView::Query(_) => 81,
        ClientMessageView::Terminate => 88,
    }
}

/// The body of a client message that declares no parameter types and binds
/// no parameters. A startup message has no body of this kind.
pub open spec fn client_body(message: ClientMessageView) -> Seq<u8> {
    match message {
        ClientMessageView::Startup(_) => Seq::<u8>::empty(),
        ClientMessageView::Parse(parse) => cstring_bytes(parse.prepared_statement_name)
            + cstring_bytes(parse.query) + be_bytes_i16(0),
        ClientMessageView::Describe(DescribeView::Portal(name)) => seq![80u8] + cstring_bytes(
            name,
        ),
        ClientMessageView::Describe(DescribeView::PreparedStatement(name)) => seq![83u8]
            + cstring_bytes(name),
        ClientMessageView::Bind(bind) => cstring_bytes(bind.portal) + cstring_bytes(
            bind.prepared_statement_name,
        ) + be_bytes_i16(0) + be_bytes_i16(0) + result_format_bytes(bind.result_format),
        ClientMessageView::Sync => Seq::<u8>::empty(),
        ClientMessageView::Execute(execute) => cstring_bytes(execute.portal) + be_bytes_i32(
            match execute.max_rows {
                None => 0i32,
                Some(limit) => limit,
            },
        ),
        ClientMessageView::Query(query) => cstring_bytes(query),
        ClientMessageView::Terminate => Seq::<u8>::empty(),
    }
}

/// The frame of a client message.
pub open spec fn client_frame(message: ClientMessageView) -> Seq<u8> {
    frame_bytes(client_tag(message), client_body(message))
}

/// Whether the body of a frame carries nothing that reading drops, and says
/// what it says in the one way in which `client_body` writes it: nothing
/// follows the last field, `Parse` declares no parameter types, `Bind`
/// declares no parameter formats and no parameters, and the number of
/// result formats is zero, or one with the code for binary, or two and more.
pub open spec fn plain_body(tag: u8, body: Seq<u8>) -> bool {
    let first = nul_position(body, 0) + 1;
    let second = nul_position(body, first) + 1;
    if tag == 80 {
        body.len() == second + 2 && i16_at(body, second) == 0
    } else if tag == 68 {
        body.len() == nul_position(body, 1) + 1
    } else if tag == 66 {
        &&& i16_at(body, second) == 0
        &&& i16_at(body, second + 2) == 0
        &&& {
            let count = i16_at(body, second + 4);
            ||| count == 0 && body.len() == second + 6
            ||| count == 1 && i16_at(body, second + 6) == 1 && body.len() == second + 8
            ||| count >= 2 && body.len() == second + 6 + 2 * count
        }
    } else if tag == 69 {
        body.len() == first + 4
    } else if tag == 81 {
        body.len() == first
    } else {
        body.len() == 0
    }
}

/// A string read off the wire is written back as the bytes it was read
/// from, up to and with its closing NUL.
pub proof fn lemma_cstring_round_trip(b: Seq<u8>, pos: int)
    requires
        0 <= pos <= b.len(),
        cstring_at(b, pos) is Ok,
    ensures
        cstring_at(b, pos) matches Ok((text, next)) && cstring_bytes(text) == b.subrange(pos, next)
            && next == nul_position(b, pos) + 1 && pos < next <= b.len(),
{
    lemma_nul_position_bounds(b, pos);
    let end = nul_position(b, pos);
    decode_utf8_encode_utf8(b.subrange(pos, end));
    assert(b.subrange(pos, end).push(0u8) =~= b.subrange(pos, end + 1));
}

/// Format codes read off the wire are written back as the bytes they were
/// read from.
proof fn lemma_format_codes_round_trip(b: Seq<u8>, pos: int, count: int, read: Seq<FormatCode>)
    requires
        0 <= pos <= b.len(),
        0 <= count,
        format_codes_at(b, pos, count, read) is Ok,
    ensures
        format_codes_at(b, pos, count, read) matches Ok(formats) && formats.len() == read.len()
            + count && formats.take(read.len() as int) == read && pos + 2 * count <= b.len()
            && format_codes_bytes(formats.skip(read.len() as int)) == b.subrange(
            pos,
            pos + 2 * count,
        ),
    decreases count,
{
    if count == 0 {
        assert(read.take(read.len() as int) =~= read);
        assert(read.skip(read.len() as int) =~= Seq::<FormatCode>::empty());
        assert(b.subrange(pos, pos) =~= Seq::<u8>::empty());
    } else {
        let format = FormatCode::of_number(i16_at(b, pos)).unwrap();
        lemma_format_codes_round_trip(b, pos + 2, count - 1, read.push(format));
        let formats = format_codes_at(b, pos, count, read)->Ok_0;
        let rest = formats.skip(read.len() as int);
        assert(formats.take(read.len() as int) =~= formats.take(read.len() as int + 1).take(
            read.len() as int,
        ));
        assert(read.push(format).take(read.len() as int) =~= read);
        assert(formats[read.len() as int] == read.push(format)[read.len() as int]);
        assert(rest[0] == format);
        assert(rest.drop_first() =~= formats.skip(read.len() as int + 1));
        lemma_i16_bytes_round_trip(b.subrange(pos, pos + 2));
        assert(format.number() == i16_at(b, pos));
        assert(b.subrange(pos, pos + 2) + b.subrange(pos + 2, pos + 2 * count) =~= b.subrange(
            pos,
            pos + 2 * count,
        ));
    }
}

/// A regular frame that carries nothing that reading drops is written back,
/// byte for byte, from the message read out of it.
pub proof fn lemma_client_frame_round_trip(b: Seq<u8>)
    requires
        decode_regular(b) is Message,
        split_frame(b) matches Frame::Whole { tag, body, .. } && plain_body(tag, body),
    ensures
        decode_regular(b) matches Decoded::Message { message, consumed } && client_frame(message)
            == b.take(consumed),
{
    let tag = split_frame(b)->tag;
    let body = split_frame(b)->body;
    let size = split_frame(b)->size;
    let message = decode_regular(b)->message;
    lemma_i32_bytes_round_trip(b.subrange(1, 5));
    assert(b.take(size) =~= seq![tag] + b.subrange(1, 5) + body);
    assert(client_tag(message) == tag);
    assert(client_body(message) == body) by {
        lemma_body_round_trip(tag, body);
    }
}

/// The body of a `Parse` message is written back from what was read.
proof fn lemma_parse_round_trip(body: Seq<u8>)
    requires
        parse_message(body) is Ok,
        plain_body(80, body),
    ensures
        parse_message(body) matches Ok(parse) && client_body(ClientMessageView::Parse(parse))
            == body,
{
    let first = nul_position(body, 0) + 1;
    let second = nul_position(body, first) + 1;
    lemma_cstring_round_trip(body, 0);
    lemma_cstring_round_trip(body, first);
    lemma_i16_bytes_round_trip(body.subrange(second, second + 2));
    assert(body =~= body.subrange(0, first) + body.subrange(first, second) + body.subrange(
        second,
        second + 2,
    ));
}

/// The body of a `Describe` message is written back from what was read.
proof fn lemma_describe_round_trip(body: Seq<u8>)
    requires
        describe_message(body) is Ok,
        plain_body(68, body),
    ensures
        describe_message(body) matches Ok(describe) && client_body(
            ClientMessageView::Describe(describe),
        ) == body,
{
    lemma_cstring_round_trip(body, 1);
    assert(body =~= seq![body[0]] + body.subrange(1, body.len() as int));
}

/// The result formats of a `Bind` message are written back from what was
/// read.
proof fn lemma_result_format_round_trip(body: Seq<u8>, pos: int)
    requires
        0 <= pos <= body.len(),
        result_format_at(body, pos) is Ok,
        ({
            let count = i16_at(body, pos);
            ||| count == 0 && body.len() == pos + 2
            ||| count == 1 && i16_at(body, pos + 2) == 1 && body.len() == pos + 4
            ||| count >= 2 && body.len() == pos + 2 + 2 * count
        }),
    ensures
        result_format_at(body, pos) matches Ok(format) && result_format_bytes(format)
            == body.subrange(pos, body.len() as int),
{
    let count = i16_at(body, pos);
    lemma_i16_bytes_round_trip(body.subrange(pos, pos + 2));
    if count == 0 {
    } else if count == 1 {
        lemma_i16_bytes_round_trip(body.subrange(pos + 2, pos + 4));
        assert(body.subrange(pos, pos + 2) + body.subrange(pos + 2, pos + 4) =~= body.subrange(
            pos,
            body.len() as int,
        ));
    } else {
        lemma_format_codes_round_trip(body, pos + 2, count as int, Seq::empty());
        let formats = format_codes_at(body, pos + 2, count as int, Seq::empty())->Ok_0;
        assert(formats.skip(0) =~= formats);
        assert(body.subrange(pos, pos + 2) + body.subrange(pos + 2, pos + 2 + 2 * count)
            =~= body.subrange(pos, body.len() as int));
    }
}

/// The body of a `Bind` message is written back from what was read.
proof fn lemma_bind_round_trip(body: Seq<u8>)
    requires
        bind_message(body) is Ok,
        plain_body(66, body),
    ensures
        bind_message(body) matches Ok(bind) && client_body(ClientMessageView::Bind(bind)) == body,
{
    let first = nul_position(body, 0) + 1;
    let second = nul_position(body, first) + 1;
    lemma_cstring_round_trip(body, 0);
    lemma_cstring_round_trip(body, first);
    lemma_i16_bytes_round_trip(body.subrange(second, second + 2));
    lemma_i16_bytes_round_trip(body.subrange(second + 2, second + 4));
    assert(parameters_end(body, second + 4, 0) == Ok::<int, ProtocolFault>(second + 4));
    lemma_result_format_round_trip(body, second + 4);
    assert(body =~= body.subrange(0, first) + body.subrange(first, second) + body.subrange(
        second,
        second + 2,
    ) + body.subrange(second + 2, second + 4) + body.subrange(second + 4, body.len() as int));
}

/// The body of an `Execute` message is written back from what was read.
proof fn lemma_execute_round_trip(body: Seq<u8>)
    requires
        execute_message(body) is Ok,
        plain_body(69, body),
    ensures
        execute_message(body) matches Ok(execute) && client_body(
            ClientMessageView::Execute(execute),
        ) == body,
{
    let first = nul_position(body, 0) + 1;
    lemma_cstring_round_trip(body, 0);
    lemma_i32_bytes_round_trip(body.subrange(first, first + 4));
    assert(body =~= body.subrange(0, first) + body.subrange(first, first + 4));
}

/// The body of a `Query` message is written back from what was read.
proof fn lemma_query_round_trip(body: Seq<u8>)
    requires
        query_message(body) is Ok,
        plain_body(81, body),
    ensures
        query_message(body) matches Ok(query) && client_body(ClientMessageView::Query(query))
            == body,
{
    let first = nul_position(body, 0) + 1;
    lemma_cstring_round_trip(body, 0);
    assert(body =~= body.subrange(0, first));
}

/// The body of a message that carries nothing that reading drops is written
/// back from the message read out of it.
proof fn lemma_body_round_trip(tag: u8, body: Seq<u8>)
    requires
        regular_message(tag, body) is Ok,
        plain_body(tag, body),
    ensures
        regular_message(tag, body) matches Ok(message) && client_body(message) == body
            && client_tag(message) == tag,
{
    if tag == 80 {
        lemma_parse_round_trip(body);
    } else if tag == 68 {
        lemma_describe_round_trip(body);
    } else if tag == 66 {
        lemma_bind_round_trip(body);
    } else if tag == 69 {
        lemma_execute_round_trip(body);
    } else if tag == 81 {
        lemma_query_round_trip(body);
    } else {
        assert(body =~= Seq::<u8>::empty());
    }
}

} // verus!
