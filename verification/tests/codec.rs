use bytes::BytesMut;
use convergence::protocol::{
    AuthenticationOk, BackendMessage, Bind, BindComplete, BindFormat, ClientMessage,
    CommandComplete, ConnectionCodec, DataTypeOid, Describe, EmptyQueryResponse, ErrorResponse,
    Execute, FieldDescription, FormatCode, ParameterDescription, ParameterStatus, Parse,
    ParseComplete, ProtocolError, ReadyForQuery, RowDescription, Severity, SqlState,
};

fn started() -> ConnectionCodec {
    let mut codec = ConnectionCodec::new();
    let mut buf = BytesMut::from(&[0u8, 0, 0, 8, 0, 3, 0, 0][..]);
    let first = codec.decode(&mut buf).unwrap();
    assert!(matches!(first, Some(ClientMessage::Startup(_))));
    assert!(codec.is_started());
    codec
}

fn frame(tag: u8, body: &[u8]) -> Vec<u8> {
    let mut out = vec![tag];
    out.extend_from_slice(&((body.len() as i32 + 4).to_be_bytes()));
    out.extend_from_slice(body);
    out
}

fn decode_one(bytes: &[u8]) -> Result<Option<ClientMessage>, ProtocolError> {
    let mut codec = started();
    let mut buf = BytesMut::from(bytes);
    codec.decode(&mut buf)
}

fn encoded<T: BackendMessage>(item: T) -> Vec<u8> {
    let mut codec = ConnectionCodec::new();
    let mut dst = BytesMut::new();
    codec.encode(item, &mut dst).unwrap();
    dst.to_vec()
}

#[test]
fn startup_frame_is_decoded() {
    let mut codec = ConnectionCodec::new();
    assert!(!codec.is_started());
    let mut bytes = vec![0u8, 0, 0, 0x14, 0, 3, 0, 0];
    bytes.extend_from_slice(b"user\0alice\0\0");
    let mut buf = BytesMut::from(&bytes[..]);
    match codec.decode(&mut buf).unwrap() {
        Some(ClientMessage::Startup(startup)) => {
            assert_eq!(startup.requested_protocol_version, (3, 0));
            assert_eq!(startup.parameters, vec![("user".to_string(), "alice".to_string())]);
        }
        other => panic!("not a startup message: {:?}", other),
    }
    assert_eq!(buf.len(), 0);
    assert!(codec.is_started());
}

#[test]
fn startup_waits_for_the_whole_frame() {
    let mut codec = ConnectionCodec::new();
    let mut bytes = vec![0u8, 0, 0, 0x14, 0, 3, 0, 0];
    bytes.extend_from_slice(b"user\0ali");
    let mut buf = BytesMut::from(&bytes[..]);
    assert!(matches!(codec.decode(&mut buf), Ok(None)));
    assert_eq!(&buf[..], &bytes[..]);
    assert!(!codec.is_started());
    let mut short = BytesMut::from(&[0u8, 0, 0][..]);
    assert!(matches!(codec.decode(&mut short), Ok(None)));
    assert_eq!(short.len(), 3);
}

#[test]
fn startup_leaves_the_next_frame_in_the_buffer() {
    let mut codec = ConnectionCodec::new();
    let mut bytes = vec![0u8, 0, 0, 0x14, 0, 3, 0, 0];
    bytes.extend_from_slice(b"user\0alice\0\0");
    bytes.extend_from_slice(&frame(b'S', b""));
    let mut buf = BytesMut::from(&bytes[..]);
    assert!(matches!(codec.decode(&mut buf), Ok(Some(ClientMessage::Startup(_)))));
    assert_eq!(&buf[..], &[b'S', 0, 0, 0, 4][..]);
    assert!(matches!(codec.decode(&mut buf), Ok(Some(ClientMessage::Sync))));
    assert_eq!(buf.len(), 0);
}

#[test]
fn startup_keeps_the_later_value_of_a_repeated_name() {
    let mut codec = ConnectionCodec::new();
    let body = b"a\01\0b\02\0a\03\0\0";
    let mut bytes = vec![0u8, 0, 0, (8 + body.len()) as u8, 0, 3, 0, 0];
    bytes.extend_from_slice(body);
    let mut buf = BytesMut::from(&bytes[..]);
    match codec.decode(&mut buf).unwrap() {
        Some(ClientMessage::Startup(startup)) => {
            let mut pairs = startup.parameters.clone();
            pairs.sort();
            assert_eq!(
                pairs,
                vec![("a".to_string(), "3".to_string()), ("b".to_string(), "2".to_string())]
            );
        }
        other => panic!("not a startup message: {:?}", other),
    }
}

#[test]
fn startup_passes_over_a_name_without_value_and_an_open_string() {
    let mut codec = ConnectionCodec::new();
    let body = b"k\0v\0lonely\0tail";
    let mut bytes = vec![0u8, 0, 0, (8 + body.len()) as u8, 0, 3, 0, 1];
    bytes.extend_from_slice(body);
    let mut buf = BytesMut::from(&bytes[..]);
    match codec.decode(&mut buf).unwrap() {
        Some(ClientMessage::Startup(startup)) => {
            assert_eq!(startup.requested_protocol_version, (3, 1));
            assert_eq!(startup.parameters, vec![("k".to_string(), "v".to_string())]);
        }
        other => panic!("not a startup message: {:?}", other),
    }
    assert_eq!(buf.len(), 0);
}

#[test]
fn startup_stops_at_the_end_of_its_frame() {
    let mut codec = ConnectionCodec::new();
    let mut bytes = vec![0u8, 0, 0, 12, 0, 3, 0, 0];
    bytes.extend_from_slice(b"a\0b\0");
    bytes.extend_from_slice(b"c\0d\0");
    let mut buf = BytesMut::from(&bytes[..]);
    match codec.decode(&mut buf).unwrap() {
        Some(ClientMessage::Startup(startup)) => {
            assert_eq!(startup.parameters, vec![("a".to_string(), "b".to_string())]);
        }
        other => panic!("not a startup message: {:?}", other),
    }
    assert_eq!(&buf[..], b"c\0d\0");
}

#[test]
fn startup_with_bad_utf8_is_an_error() {
    let mut codec = ConnectionCodec::new();
    let bytes = [0u8, 0, 0, 11, 0, 3, 0, 0, 0xff, 0xfe, 0];
    let mut buf = BytesMut::from(&bytes[..]);
    assert!(matches!(codec.decode(&mut buf), Err(ProtocolError::Utf8(_))));
    assert_eq!(&buf[..], &bytes[..]);
    assert!(!codec.is_started());
}

#[test]
fn startup_with_a_length_under_eight_is_an_error() {
    let mut codec = ConnectionCodec::new();
    let mut buf = BytesMut::from(&[0u8, 0, 0, 7, 0, 3, 0, 0][..]);
    assert!(matches!(codec.decode(&mut buf), Err(ProtocolError::ParserError)));
    let mut negative = BytesMut::from(&[0xffu8, 0xff, 0xff, 0xff, 0, 3, 0, 0][..]);
    assert!(matches!(codec.decode(&mut negative), Err(ProtocolError::ParserError)));
}

#[test]
fn second_startup_frame_is_read_as_a_regular_frame() {
    let mut codec = started();
    let mut bytes = vec![0u8, 0, 0, 0x14, 0, 3, 0, 0];
    bytes.extend_from_slice(b"user\0alice\0\0");
    let mut buf = BytesMut::from(&bytes[..]);
    // tag 0x00, length 0x00001400: the frame is not whole yet
    assert!(matches!(codec.decode(&mut buf), Ok(None)));
    bytes.resize(1 + 0x1400, 0);
    let mut whole = BytesMut::from(&bytes[..]);
    assert!(matches!(codec.decode(&mut whole), Err(ProtocolError::InvalidMessageType(0))));
}

#[test]
fn query_is_decoded() {
    let mut codec = started();
    let mut bytes = vec![b'Q', 0, 0, 0, 0x0d];
    bytes.extend_from_slice(b"SELECT 1\0");
    let mut buf = BytesMut::from(&bytes[..]);
    match codec.decode(&mut buf).unwrap() {
        Some(ClientMessage::Query(query)) => assert_eq!(query, "SELECT 1"),
        other => panic!("not a query: {:?}", other),
    }
    assert_eq!(buf.len(), 0);
}

#[test]
fn empty_query_is_decoded() {
    match decode_one(&[b'Q', 0, 0, 0, 5, 0]).unwrap() {
        Some(ClientMessage::Query(query)) => assert_eq!(query, ""),
        other => panic!("not a query: {:?}", other),
    }
}

#[test]
fn regular_frame_waits_for_all_its_bytes() {
    let mut codec = started();
    let whole = frame(b'Q', b"SELECT 1\0");
    for cut in 0..whole.len() {
        let mut buf = BytesMut::from(&whole[..cut]);
        assert!(matches!(codec.decode(&mut buf), Ok(None)), "cut at {}", cut);
        assert_eq!(&buf[..], &whole[..cut]);
    }
}

#[test]
fn regular_frame_with_a_length_under_four_is_an_error() {
    assert!(matches!(decode_one(&[b'S', 0, 0, 0, 3]), Err(ProtocolError::ParserError)));
    assert!(matches!(
        decode_one(&[b'S', 0x80, 0, 0, 0]),
        Err(ProtocolError::ParserError)
    ));
}

#[test]
fn unknown_tag_is_an_error() {
    assert!(matches!(
        decode_one(&frame(b'!', b"")),
        Err(ProtocolError::InvalidMessageType(b'!'))
    ));
}

#[test]
fn error_leaves_the_buffer_as_it_was() {
    let mut codec = started();
    let bytes = frame(b'Q', b"no terminator");
    let mut buf = BytesMut::from(&bytes[..]);
    assert!(matches!(codec.decode(&mut buf), Err(ProtocolError::ParserError)));
    assert_eq!(&buf[..], &bytes[..]);
}

#[test]
fn query_with_bad_utf8_is_an_error() {
    assert!(matches!(decode_one(&frame(b'Q', &[0xc3, 0x28, 0])), Err(ProtocolError::Utf8(_))));
}

#[test]
fn query_text_is_read_as_utf8() {
    match decode_one(&frame(b'Q', "SELECT 'é€'\0".as_bytes())).unwrap() {
        Some(ClientMessage::Query(query)) => assert_eq!(query, "SELECT 'é€'"),
        other => panic!("not a query: {:?}", other),
    }
}

#[test]
fn sync_and_terminate_are_decoded() {
    assert!(matches!(decode_one(&[b'S', 0, 0, 0, 4]), Ok(Some(ClientMessage::Sync))));
    assert!(matches!(decode_one(&[b'X', 0, 0, 0, 4]), Ok(Some(ClientMessage::Terminate))));
}

#[test]
fn what_follows_the_last_field_leaves_with_the_frame() {
    let mut codec = started();
    let mut bytes = frame(b'S', b"junk");
    bytes.extend_from_slice(&frame(b'X', b""));
    let mut buf = BytesMut::from(&bytes[..]);
    assert!(matches!(codec.decode(&mut buf), Ok(Some(ClientMessage::Sync))));
    assert!(matches!(codec.decode(&mut buf), Ok(Some(ClientMessage::Terminate))));
    assert_eq!(buf.len(), 0);
}

#[test]
fn parse_is_decoded_and_parameter_types_are_dropped() {
    let mut body = Vec::new();
    body.extend_from_slice(b"stmt\0SELECT $1\0");
    body.extend_from_slice(&[0, 2, 0, 0, 0, 23, 0, 0, 0, 25]);
    match decode_one(&frame(b'P', &body)).unwrap() {
        Some(ClientMessage::Parse(Parse { prepared_statement_name, query, parameter_types })) => {
            assert_eq!(prepared_statement_name, "stmt");
            assert_eq!(query, "SELECT $1");
            assert!(parameter_types.is_empty());
        }
        other => panic!("not a parse: {:?}", other),
    }
}

#[test]
fn parse_with_missing_parameter_types_is_an_error() {
    let mut body = Vec::new();
    body.extend_from_slice(b"\0SELECT 1\0");
    body.extend_from_slice(&[0, 2, 0, 0, 0, 23]);
    assert!(matches!(decode_one(&frame(b'P', &body)), Err(ProtocolError::ParserError)));
    assert!(matches!(decode_one(&frame(b'P', b"\0SELECT 1\0\0")), Err(ProtocolError::ParserError)));
    assert!(matches!(decode_one(&frame(b'P', b"\0SELECT 1")), Err(ProtocolError::ParserError)));
}

#[test]
fn parse_with_a_negative_count_has_no_parameter_types() {
    let mut body = Vec::new();
    body.extend_from_slice(b"\0SELECT 1\0");
    body.extend_from_slice(&[0xff, 0xff]);
    assert!(matches!(decode_one(&frame(b'P', &body)), Ok(Some(ClientMessage::Parse(_)))));
}

#[test]
fn describe_is_decoded() {
    match decode_one(&frame(b'D', b"Pportal\0")).unwrap() {
        Some(ClientMessage::Describe(Describe::Portal(name))) => assert_eq!(name, "portal"),
        other => panic!("not a describe: {:?}", other),
    }
    match decode_one(&frame(b'D', b"Sstmt\0")).unwrap() {
        Some(ClientMessage::Describe(Describe::PreparedStatement(name))) => {
            assert_eq!(name, "stmt")
        }
        other => panic!("not a describe: {:?}", other),
    }
}

#[test]
fn describe_with_a_bad_target_is_an_error() {
    assert!(matches!(decode_one(&frame(b'D', b"Xname\0")), Err(ProtocolError::ParserError)));
    assert!(matches!(decode_one(&frame(b'D', b"")), Err(ProtocolError::ParserError)));
    assert!(matches!(decode_one(&frame(b'D', b"Pname")), Err(ProtocolError::ParserError)));
}

fn bind_body(tail: &[u8]) -> Vec<u8> {
    let mut body = Vec::new();
    body.extend_from_slice(b"p\0s\0");
    body.extend_from_slice(tail);
    body
}

#[test]
fn bind_without_result_formats_asks_for_text() {
    match decode_one(&frame(b'B', &bind_body(&[0, 0, 0, 0, 0, 0]))).unwrap() {
        Some(ClientMessage::Bind(Bind { portal, prepared_statement_name, result_format })) => {
            assert_eq!(portal, "p");
            assert_eq!(prepared_statement_name, "s");
            assert!(matches!(result_format, BindFormat::All(FormatCode::Text)));
        }
        other => panic!("not a bind: {:?}", other),
    }
}

#[test]
fn bind_with_one_result_format_applies_it_to_all() {
    match decode_one(&frame(b'B', &bind_body(&[0, 0, 0, 0, 0, 1, 0, 1]))).unwrap() {
        Some(ClientMessage::Bind(bind)) => {
            assert!(matches!(bind.result_format, BindFormat::All(FormatCode::Binary)))
        }
        other => panic!("not a bind: {:?}", other),
    }
    match decode_one(&frame(b'B', &bind_body(&[0, 0, 0, 0, 0, 1, 0, 0]))).unwrap() {
        Some(ClientMessage::Bind(bind)) => {
            assert!(matches!(bind.result_format, BindFormat::All(FormatCode::Text)))
        }
        other => panic!("not a bind: {:?}", other),
    }
}

#[test]
fn bind_with_more_result_formats_keeps_one_for_each_column() {
    match decode_one(&frame(b'B', &bind_body(&[0, 0, 0, 0, 0, 3, 0, 1, 0, 0, 0, 1]))).unwrap() {
        Some(ClientMessage::Bind(bind)) => match bind.result_format {
            BindFormat::PerColumn(formats) => assert_eq!(
                formats,
                vec![FormatCode::Binary, FormatCode::Text, FormatCode::Binary]
            ),
            other => panic!("not per column: {:?}", other),
        },
        other => panic!("not a bind: {:?}", other),
    }
}

#[test]
fn bind_passes_over_parameter_formats_and_values() {
    let tail = [
        0, 2, 0, 0, 0, 1, // two parameter formats
        0, 2, // two parameters
        0, 0, 0, 3, b'a', b'b', b'c', // three bytes
        0, 0, 0, 0, // no bytes
        0, 1, 0, 1, // binary results
    ];
    match decode_one(&frame(b'B', &bind_body(&tail))).unwrap() {
        Some(ClientMessage::Bind(bind)) => {
            assert!(matches!(bind.result_format, BindFormat::All(FormatCode::Binary)))
        }
        other => panic!("not a bind: {:?}", other),
    }
}

#[test]
fn bind_with_an_invalid_format_code_is_an_error() {
    assert!(matches!(
        decode_one(&frame(b'B', &bind_body(&[0, 0, 0, 0, 0, 1, 0, 7]))),
        Err(ProtocolError::InvalidFormatCode(7))
    ));
    assert!(matches!(
        decode_one(&frame(b'B', &bind_body(&[0, 0, 0, 0, 0, 2, 0, 1, 0xff, 0xfe]))),
        Err(ProtocolError::InvalidFormatCode(-2))
    ));
}

#[test]
fn bind_that_ends_early_is_an_error() {
    let tails: [&[u8]; 7] = [
        &[],
        &[0, 1],
        &[0, 0],
        &[0, 0, 0, 1, 0, 0, 0, 5, b'a'],
        &[0, 0, 0, 1, 0xff, 0xff, 0xff, 0xff],
        &[0, 0, 0, 0, 0, 1],
        &[0, 0, 0, 0, 0, 2, 0, 1],
    ];
    for tail in tails.iter() {
        assert!(
            matches!(decode_one(&frame(b'B', &bind_body(tail))), Err(ProtocolError::ParserError)),
            "tail {:?}",
            tail
        );
    }
}

#[test]
fn execute_is_decoded() {
    match decode_one(&frame(b'E', b"\0\0\0\0\0")).unwrap() {
        Some(ClientMessage::Execute(Execute { portal, max_rows })) => {
            assert_eq!(portal, "");
            assert_eq!(max_rows, None);
        }
        other => panic!("not an execute: {:?}", other),
    }
    match decode_one(&frame(b'E', b"nope\0\0\0\0\x05")).unwrap() {
        Some(ClientMessage::Execute(Execute { portal, max_rows })) => {
            assert_eq!(portal, "nope");
            assert_eq!(max_rows, Some(5));
        }
        other => panic!("not an execute: {:?}", other),
    }
    match decode_one(&frame(b'E', b"\0\xff\xff\xff\xff")).unwrap() {
        Some(ClientMessage::Execute(execute)) => assert_eq!(execute.max_rows, Some(-1)),
        other => panic!("not an execute: {:?}", other),
    }
    assert!(matches!(decode_one(&frame(b'E', b"\0\0\0")), Err(ProtocolError::ParserError)));
}

#[test]
fn authentication_ok_is_encoded() {
    assert_eq!(encoded(AuthenticationOk), vec![b'R', 0, 0, 0, 8, 0, 0, 0, 0]);
}

#[test]
fn ready_for_query_is_encoded() {
    assert_eq!(encoded(ReadyForQuery), vec![b'Z', 0, 0, 0, 5, b'I']);
}

#[test]
fn messages_without_body_are_encoded() {
    assert_eq!(encoded(ParseComplete), vec![b'1', 0, 0, 0, 4]);
    assert_eq!(encoded(BindComplete), vec![b'2', 0, 0, 0, 4]);
    assert_eq!(encoded(EmptyQueryResponse), vec![b'I', 0, 0, 0, 4]);
}

#[test]
fn parameter_description_is_encoded() {
    assert_eq!(encoded(ParameterDescription {}), vec![b't', 0, 0, 0, 6, 0, 0]);
}

#[test]
fn command_complete_is_encoded() {
    let mut expected = vec![b'C', 0, 0, 0, 13];
    expected.extend_from_slice(b"SELECT 1\0");
    assert_eq!(encoded(CommandComplete { command_tag: "SELECT 1".to_string() }), expected);
}

#[test]
fn parameter_status_is_encoded() {
    let mut expected = vec![b'S', 0, 0, 0, 25];
    expected.extend_from_slice(b"server_encoding\0UTF8\0");
    assert_eq!(
        encoded(ParameterStatus::new("server_encoding".to_string(), "UTF8".to_string())),
        expected
    );
}

#[test]
fn error_response_is_encoded() {
    let mut expected = vec![b'E', 0, 0, 0, 25];
    expected.extend_from_slice(b"C22000\0SERROR\0Mboom\0\0");
    assert_eq!(encoded(ErrorResponse::error(SqlState::data_exception(), "boom".to_string())), expected);
    let mut fatal = vec![b'E', 0, 0, 0, 25];
    fatal.extend_from_slice(b"C08P01\0SFATAL\0Mboom\0\0");
    assert_eq!(encoded(ErrorResponse::fatal(SqlState::protocol_violation(), "boom".to_string())), fatal);
    let plain = ErrorResponse::new(SqlState::syntax_error(), Severity::error(), String::from("x"));
    assert_eq!(plain.sql_state, SqlState("42601"));
    assert_eq!(plain.severity, Severity("ERROR"));
    assert_eq!(plain.message, "x");
}

#[test]
fn sql_states_have_their_codes() {
    assert_eq!(SqlState::successful_completion().0, "00000");
    assert_eq!(SqlState::feature_not_supported().0, "0A000");
    assert_eq!(SqlState::invalid_cursor_name().0, "34000");
    assert_eq!(SqlState::connection_exception().0, "08000");
    assert_eq!(SqlState::invalid_sql_statement_name().0, "26000");
    assert_eq!(SqlState::data_exception().0, "22000");
    assert_eq!(SqlState::protocol_violation().0, "08P01");
    assert_eq!(SqlState::syntax_error().0, "42601");
    assert_eq!(Severity::error().0, "ERROR");
    assert_eq!(Severity::fatal().0, "FATAL");
}

#[test]
fn row_description_is_encoded() {
    let description = RowDescription {
        fields: vec![
            FieldDescription { name: "?column?".to_string(), data_type: DataTypeOid::Int4 },
            FieldDescription { name: "t".to_string(), data_type: DataTypeOid::Text },
        ],
        format_code: FormatCode::Binary,
    };
    assert!(description.is_encodable());
    let mut body = vec![0u8, 2];
    body.extend_from_slice(b"?column?\0");
    body.extend_from_slice(&[0, 0, 0, 0, 0, 0, 0, 0, 0, 23, 0, 4, 0xff, 0xff, 0xff, 0xff, 0, 1]);
    body.extend_from_slice(b"t\0");
    body.extend_from_slice(&[0, 0, 0, 0, 0, 0, 0, 0, 0, 25, 0xff, 0xff, 0xff, 0xff, 0xff, 0xff, 0, 1]);
    assert_eq!(encoded(description), frame(b'T', &body));
}

#[test]
fn row_description_of_an_unknown_type_cannot_be_encoded() {
    let description = RowDescription {
        fields: vec![FieldDescription { name: "x".to_string(), data_type: DataTypeOid::Unknown(9) }],
        format_code: FormatCode::Text,
    };
    assert!(!description.is_encodable());
}

#[test]
fn tags_are_those_of_the_protocol() {
    assert_eq!(AuthenticationOk::TAG, b'R');
    assert_eq!(ParameterStatus::TAG, b'S');
    assert_eq!(ParseComplete::TAG, b'1');
    assert_eq!(BindComplete::TAG, b'2');
    assert_eq!(ParameterDescription::TAG, b't');
    assert_eq!(RowDescription::TAG, b'T');
    assert_eq!(CommandComplete::TAG, b'C');
    assert_eq!(EmptyQueryResponse::TAG, b'I');
    assert_eq!(ErrorResponse::TAG, b'E');
    assert_eq!(ReadyForQuery::TAG, b'Z');
    assert_eq!(<ReadyForQuery as BackendMessage>::tag(), b'Z');
    assert_eq!(<ErrorResponse as BackendMessage>::tag(), ErrorResponse::TAG);
}

#[test]
fn encoded_frame_splits_into_tag_and_body() {
    let message = CommandComplete { command_tag: "INSERT 0 3".to_string() };
    let mut body = BytesMut::new();
    message.encode(&mut body);
    let bytes = encoded(message);
    assert_eq!(bytes[0], b'C');
    let length = i32::from_be_bytes([bytes[1], bytes[2], bytes[3], bytes[4]]);
    assert_eq!(length as usize, body.len() + 4);
    assert_eq!(&bytes[5..], &body[..]);
    assert_eq!(bytes.len(), 1 + length as usize);
}

#[test]
fn encode_appends_to_what_is_there() {
    let mut codec = ConnectionCodec::new();
    let mut dst = BytesMut::from(&b"xy"[..]);
    codec.encode(ParseComplete, &mut dst).unwrap();
    assert!(codec.try_encode(ReadyForQuery, &mut dst));
    assert_eq!(&dst[..], &[b'x', b'y', b'1', 0, 0, 0, 4, b'Z', 0, 0, 0, 5, b'I'][..]);
    assert!(!codec.is_started());
}

#[test]
fn default_codec_has_read_no_startup() {
    assert!(!ConnectionCodec::default().is_started());
}

fn cstring(text: &str) -> Vec<u8> {
    let mut out = text.as_bytes().to_vec();
    out.push(0);
    out
}

fn written_back(message: &ClientMessage) -> Vec<u8> {
    match message {
        ClientMessage::Startup(_) => panic!("a startup message has no regular frame"),
        ClientMessage::Parse(parse) => {
            let mut body = cstring(&parse.prepared_statement_name);
            body.extend(cstring(&parse.query));
            body.extend_from_slice(&[0, 0]);
            frame(b'P', &body)
        }
        ClientMessage::Describe(Describe::Portal(name)) => {
            let mut body = vec![b'P'];
            body.extend(cstring(name));
            frame(b'D', &body)
        }
        ClientMessage::Describe(Describe::PreparedStatement(name)) => {
            let mut body = vec![b'S'];
            body.extend(cstring(name));
            frame(b'D', &body)
        }
        ClientMessage::Bind(bind) => {
            let mut body = cstring(&bind.portal);
            body.extend(cstring(&bind.prepared_statement_name));
            body.extend_from_slice(&[0, 0, 0, 0]);
            match &bind.result_format {
                BindFormat::All(FormatCode::Text) => body.extend_from_slice(&[0, 0]),
                BindFormat::All(FormatCode::Binary) => body.extend_from_slice(&[0, 1, 0, 1]),
                BindFormat::PerColumn(formats) => {
                    body.extend_from_slice(&(formats.len() as i16).to_be_bytes());
                    for format in formats {
                        body.extend_from_slice(&format.code().to_be_bytes());
                    }
                }
            }
            frame(b'B', &body)
        }
        ClientMessage::Sync => frame(b'S', b""),
        ClientMessage::Execute(execute) => {
            let mut body = cstring(&execute.portal);
            body.extend_from_slice(&execute.max_rows.unwrap_or(0).to_be_bytes());
            frame(b'E', &body)
        }
        ClientMessage::Query(query) => frame(b'Q', &cstring(query)),
        ClientMessage::Terminate => frame(b'X', b""),
    }
}

#[test]
fn client_frames_are_written_back_from_their_messages() {
    let frames: Vec<Vec<u8>> = vec![
        frame(b'Q', b"SELECT 1\0"),
        frame(b'Q', b"\0"),
        frame(b'P', b"name\0SELECT 'x'\0\0\0"),
        frame(b'D', b"Pportal\0"),
        frame(b'D', b"S\0"),
        frame(b'B', &bind_body(&[0, 0, 0, 0, 0, 0])),
        frame(b'B', &bind_body(&[0, 0, 0, 0, 0, 1, 0, 1])),
        frame(b'B', &bind_body(&[0, 0, 0, 0, 0, 2, 0, 1, 0, 0])),
        frame(b'E', b"p\0\0\0\0\0"),
        frame(b'E', b"\0\x7f\xff\xff\xff"),
        frame(b'S', b""),
        frame(b'X', b""),
    ];
    for bytes in frames.iter() {
        let message = decode_one(bytes).unwrap().unwrap();
        assert_eq!(&written_back(&message), bytes);
    }
}

#[test]
fn frames_that_carry_more_than_their_message_do_not_come_back() {
    let with_parameter_type = frame(b'P', b"\0SELECT $1\0\0\x01\0\0\0\x17");
    let message = decode_one(&with_parameter_type).unwrap().unwrap();
    assert_ne!(written_back(&message), with_parameter_type);
    let text_spelled_out = frame(b'B', &bind_body(&[0, 0, 0, 0, 0, 1, 0, 0]));
    let message = decode_one(&text_spelled_out).unwrap().unwrap();
    assert_ne!(written_back(&message), text_spelled_out);
}

#[test]
fn errors_of_the_standard_library_become_protocol_errors() {
    let io = std::io::Error::new(std::io::ErrorKind::Other, "gone");
    assert!(matches!(ProtocolError::from(io), ProtocolError::Io(_)));
    let utf8 = String::from_utf8(vec![0xff]).unwrap_err();
    assert!(matches!(ProtocolError::from(utf8), ProtocolError::Utf8(_)));
}
