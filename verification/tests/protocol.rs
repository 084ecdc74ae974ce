//! Messages, byte for byte.

use zero_postgres::params::{Params, ToParams};
use zero_postgres::protocol::backend::{
    is_async_type, parse_async, parse_columns, parse_complete, parse_empty, parse_error, parse_header,
    parse_ready, parse_row,
};
use zero_postgres::protocol::frontend::{
    write_bind, write_close_portal, write_describe_portal, write_execute, write_flush, write_parse,
    write_sync, write_terminate,
};
use zero_postgres::protocol::wire::{count16, get16, get32, length32, push16, push32, push_frame};
use zero_postgres::text::{push_decimal, quote};
use zero_postgres::types::AsyncMessage;
use zero_postgres::{Error, TransactionStatus};

fn protocol_error<T>(result: Result<T, Error>, text: &str) {
    match result {
        Err(Error::Protocol(m)) => assert_eq!(m, text),
        _ => panic!("expected a protocol error"),
    }
}

#[test]
fn numbers_are_big_endian() {
    let mut out = vec![9];
    push16(&mut out, 0x0102);
    push32(&mut out, 0xfffe_0304);
    assert_eq!(out, [9, 1, 2, 0xff, 0xfe, 3, 4]);
    assert_eq!(get16(&out, 1), 0x0102);
    assert_eq!(get32(&out, 3), 0xfffe_0304);
    assert_eq!(count16(65_537), 1);
    assert_eq!(length32(7), 7);
}

#[test]
fn decimal_and_quoted_text() {
    for n in [0, 7, 10, 99, 100, u64::MAX] {
        let mut text = String::from("n=");
        push_decimal(&mut text, n);
        assert_eq!(text, format!("n={n}"));
    }
    assert_eq!(quote("got ", b'Z'), "got 'Z'");
    assert_eq!(quote("got ", 0xe9), "got 'é'");
}

#[test]
fn frames_read_back() {
    let mut out = vec![];
    push_frame(&mut out, b'Q', b"SELECT 1\0");
    assert_eq!(&out[..5], [b'Q', 0, 0, 0, 13]);
    let header: [u8; 5] = out[..5].try_into().unwrap();
    assert_eq!(parse_header(&header).unwrap(), (b'Q', 9));
    assert_eq!(&out[5..], b"SELECT 1\0");
    protocol_error(parse_header(&[b'Z', 0, 0, 0, 3]), "malformed message header");
    assert_eq!(parse_header(&[b'Z', 0, 0, 0, 4]).unwrap(), (b'Z', 0));
}

#[test]
fn empty_requests() {
    let mut out = vec![];
    write_sync(&mut out);
    write_flush(&mut out);
    write_terminate(&mut out);
    assert_eq!(out, [b'S', 0, 0, 0, 4, b'H', 0, 0, 0, 4, b'X', 0, 0, 0, 4]);
}

#[test]
fn parse_request() {
    let mut out = vec![];
    write_parse(&mut out, "s", "é", &[23, 25]);
    assert_eq!(
        out,
        [
            b'P', 0, 0, 0, 19, b's', 0, 0xc3, 0xa9, 0, 0, 2, 0, 0, 0, 23, 0, 0, 0, 25
        ]
    );
}

#[test]
fn portal_requests() {
    let mut out = vec![];
    write_describe_portal(&mut out, "p");
    write_execute(&mut out, "p", 258);
    write_close_portal(&mut out, "p");
    assert_eq!(
        out,
        [
            b'D', 0, 0, 0, 7, b'P', b'p', 0, b'E', 0, 0, 0, 10, b'p', 0, 0, 0, 1, 2, b'C', 0, 0, 0,
            7, b'P', b'p', 0
        ]
    );
}

#[test]
fn bind_request() {
    let params = Params { oids: vec![23, 25], values: vec![Some(vec![1, 2]), None] };
    let mut out = vec![7];
    write_bind(&mut out, "p", "s", &params, &params.natural_oids()).unwrap();
    assert_eq!(
        out,
        [
            7, b'B', 0, 0, 0, 28, b'p', 0, b's', 0, 0, 1, 0, 1, 0, 2, 0, 0, 0, 2, 1, 2, 0xff, 0xff,
            0xff, 0xff, 0, 1, 0, 1
        ]
    );
}

#[test]
fn bind_of_the_wrong_count_writes_nothing() {
    let mut out = vec![7];
    let params = Params { oids: vec![23], values: vec![None] };
    match write_bind(&mut out, "", "", &params, &[23, 23]) {
        Err(Error::Encode(m)) => assert_eq!(m, "wrong number of parameters"),
        _ => panic!("expected an encoding error"),
    }
    match write_bind(&mut out, "", "", &(), &[23]) {
        Err(Error::Encode(m)) => assert_eq!(m, "wrong number of parameters"),
        _ => panic!("expected an encoding error"),
    }
    assert_eq!(out, [7]);
}

#[test]
fn asynchronous_types() {
    for kind in 0..=255_u8 {
        assert_eq!(is_async_type(kind), b"NAS".contains(&kind));
    }
}

#[test]
fn ready_for_query() {
    assert_eq!(parse_ready(b"I").unwrap(), TransactionStatus::Idle);
    assert_eq!(parse_ready(b"T").unwrap(), TransactionStatus::InTransaction);
    assert_eq!(parse_ready(b"E").unwrap(), TransactionStatus::Failed);
    assert_eq!(parse_ready(b"?").unwrap(), TransactionStatus::Idle);
    protocol_error(parse_ready(b""), "malformed ReadyForQuery");
    protocol_error(parse_ready(b"II"), "malformed ReadyForQuery");
    assert!(!TransactionStatus::Idle.in_transaction());
    assert!(TransactionStatus::InTransaction.in_transaction());
    assert!(TransactionStatus::Failed.in_transaction());
}

#[test]
fn messages_without_payload() {
    parse_empty(b"", "NoData").unwrap();
    protocol_error(parse_empty(b"x", "NoData"), "malformed NoData");
}

#[test]
fn error_response() {
    let error = parse_error(b"SERROR\0C22012\0Mdivision by zero\0\0").unwrap();
    assert_eq!(error.field(b'C').unwrap(), b"22012");
    assert_eq!(error.field(b'M').unwrap(), b"division by zero");
    assert!(error.field(b'V').is_none());
    assert!(!error.is_fatal());
    assert!(!Error::Server(error).is_connection_broken());
    protocol_error(parse_error(b""), "malformed ErrorResponse");
    protocol_error(parse_error(b"SERROR\0"), "malformed ErrorResponse");
    protocol_error(parse_error(b"SERROR"), "malformed ErrorResponse");
    assert!(parse_error(b"\0").unwrap().fields.is_empty());
}

#[test]
fn severity_decides_whether_the_session_ends() {
    assert!(parse_error(b"SFATAL\0\0").unwrap().is_fatal());
    assert!(parse_error(b"SPANIC\0\0").unwrap().is_fatal());
    assert!(parse_error(b"SFATAL\0VFATAL\0\0").unwrap().is_fatal());
    // The severity that is not localized takes precedence.
    assert!(parse_error(b"SFATAL_\0VPANIC\0\0").unwrap().is_fatal());
    assert!(!parse_error(b"SFATAL\0VERROR\0\0").unwrap().is_fatal());
    assert!(!parse_error(b"SFATALE\0\0").unwrap().is_fatal());
    assert!(!parse_error(b"\0").unwrap().is_fatal());
}

#[test]
fn broken_connection_errors() {
    assert!(Error::ConnectionBroken.is_connection_broken());
    assert!(Error::Io("reset".into()).is_connection_broken());
    let fatal = parse_error(b"VFATAL\0\0").unwrap();
    assert!(Error::Server(fatal).is_connection_broken());
    for error in [
        Error::Protocol("".into()),
        Error::LibraryBug("".into()),
        Error::InvalidUsage("".into()),
        Error::Unsupported("".into()),
        Error::Encode("".into()),
        Error::Decode("".into()),
    ] {
        assert!(!error.is_connection_broken());
    }
}

#[test]
fn command_complete() {
    assert_eq!(parse_complete(b"SELECT 1\0").unwrap().tag, b"SELECT 1");
    assert_eq!(parse_complete(b"\0").unwrap().tag, b"");
    protocol_error(parse_complete(b"SELECT 1"), "malformed CommandComplete");
}

#[test]
fn row_description() {
    let payload = [
        &[0, 1][..],
        b"value\0",
        &[0, 0, 1, 2, 0, 3, 0, 0, 0, 23, 0, 4, 0xff, 0xff, 0xff, 0xff, 0, 1],
    ]
    .concat();
    let description = parse_columns(&payload).unwrap();
    assert_eq!(description.columns.len(), 1);
    let column = &description.columns[0];
    assert_eq!(column.name, b"value");
    assert_eq!(column.table_oid, 258);
    assert_eq!(column.attribute, 3);
    assert_eq!(column.type_oid, 23);
    assert_eq!(column.type_length, 4);
    assert_eq!(column.type_modifier, u32::MAX);
    assert_eq!(column.format, 1);
    assert!(parse_columns(&[0, 0]).unwrap().columns.is_empty());
    protocol_error(parse_columns(&[]), "malformed RowDescription");
    protocol_error(parse_columns(&[0, 1]), "malformed RowDescription");
    protocol_error(parse_columns(&payload[..payload.len() - 1]), "malformed RowDescription");
    protocol_error(parse_columns(b"\0\x01value"), "malformed RowDescription");
}

#[test]
fn data_row() {
    let payload = [0, 3, 0, 0, 0, 2, 5, 6, 0xff, 0xff, 0xff, 0xff, 0, 0, 0, 0];
    let row = parse_row(&payload).unwrap();
    assert_eq!(row.values, vec![Some(vec![5, 6]), None, Some(vec![])]);
    protocol_error(parse_row(&[0]), "malformed DataRow");
    protocol_error(parse_row(&payload[..15]), "malformed DataRow");
    protocol_error(parse_row(&payload[..7]), "malformed DataRow");
}

#[test]
fn asynchronous_messages() {
    match parse_async(b'A', b"\0\0\x01\x02ch\0hi\0") {
        Some(AsyncMessage::Notification { process_id, channel, payload }) => {
            assert_eq!(process_id, 258);
            assert_eq!((&channel[..], &payload[..]), (&b"ch"[..], &b"hi"[..]));
        }
        _ => panic!("expected a notification"),
    }
    match parse_async(b'S', b"TimeZone\0\0") {
        Some(AsyncMessage::ParameterChanged { name, value }) => {
            assert_eq!((&name[..], &value[..]), (&b"TimeZone"[..], &b""[..]));
        }
        _ => panic!("expected a parameter change"),
    }
    match parse_async(b'N', b"MNote\0\0") {
        Some(AsyncMessage::Notice(notice)) => assert_eq!(notice.field(b'M').unwrap(), b"Note"),
        _ => panic!("expected a notice"),
    }
    assert!(parse_async(b'A', b"\0\0\0").is_none());
    assert!(parse_async(b'A', b"\0\0\0\x01ch\0hi").is_none());
    assert!(parse_async(b'S', b"TimeZone\0UTC").is_none());
    assert!(parse_async(b'N', b"MNote\0").is_none());
    assert!(parse_async(b'Z', b"I").is_none());
}
