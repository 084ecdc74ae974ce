//! Pipelines, step by step.

use zero_postgres::conn::drive::{Action, Progress};
use zero_postgres::pipeline::Next;
use zero_postgres::protocol::backend::Message;
use zero_postgres::params::Params;
use zero_postgres::types::AsyncMessage;
use zero_postgres::{Conn, Error, Pipeline, PreparedStatement, TransactionStatus};

fn connection() -> Conn<()> {
    Conn::established(None, vec![], TransactionStatus::Idle)
}

fn message(type_byte: u8, payload: &[u8]) -> Result<Message, Error> {
    Ok(Message { type_byte, payload: payload.to_vec() })
}

fn columns() -> Vec<u8> {
    [
        &[0, 1][..],
        b"n\0",
        &[0, 0, 0, 0, 0, 0, 0, 0, 0, 23, 0, 4, 0, 0, 0, 0, 0, 1],
    ]
    .concat()
}

fn prepared(row_desc_payload: Option<Vec<u8>>) -> PreparedStatement {
    PreparedStatement { idx: 1, param_oids: vec![], row_desc_payload }
}

fn io() -> Error {
    Error::Io("connection reset".into())
}

fn kinds(buffer: &[u8]) -> String {
    let mut out = String::new();
    let mut at: usize = 0;
    while at < buffer.len() {
        out.push(buffer[at] as char);
        let length: [u8; 4] = buffer[at + 1..at + 5].try_into().unwrap();
        at += 1 + u32::from_be_bytes(length) as usize;
    }
    out
}

fn feed(p: &mut Pipeline<'_, ()>, messages: &[(u8, &[u8])]) {
    for (kind, payload) in messages {
        assert!(matches!(p.received(message(*kind, payload)), Next::Read));
    }
}

fn send(p: &mut Pipeline<'_, ()>, next: Next) {
    assert!(matches!(next, Next::Write));
    assert!(matches!(p.sent(Ok(())), Next::Done(Ok(()))));
}

/// Ends the exchange that a failure has left unfinished.
fn finish(conn: &mut Conn<()>) {
    assert!(matches!(conn.bind_step(Ok(Action::Finished)), Progress::Done(Ok(()))));
}

fn bug(next: Next, text: &str) {
    match next {
        Next::Done(Err(Error::LibraryBug(m))) => assert_eq!(m, text),
        _ => panic!("expected the error {text}"),
    }
}

#[test]
fn executions_are_buffered() {
    let mut conn = connection();
    conn.write_buffer_mut().push(1);
    let mut p = Pipeline::new(&mut conn);
    assert!(p.conn().write_buffer().is_empty());
    p.exec("SELECT 1", ()).unwrap();
    assert_eq!(kinds(p.conn().write_buffer()), "PBDE");
    p.exec(&prepared(None), ()).unwrap();
    assert_eq!(kinds(p.conn().write_buffer()), "PBDEBE");
    assert_eq!(p.pending_count(), 2);
    assert_eq!((p.queue_seq(), p.claim_seq()), (2, 0));
    let next = p.sync();
    assert!(matches!(next, Next::Write));
    assert_eq!(kinds(p.conn().write_buffer()), "PBDEBES");
    assert!(matches!(p.sent(Ok(())), Next::Done(Ok(()))));
    assert!(p.conn().write_buffer().is_empty());
}

#[test]
fn an_execution_that_cannot_be_encoded() {
    let mut conn = connection();
    let mut p = Pipeline::new(&mut conn);
    p.exec(&prepared(None), ()).unwrap();
    let bad = || Params { oids: vec![], values: vec![None] };
    assert!(matches!(p.exec("SELECT 1", bad()), Err(Error::Encode(_))));
    assert_eq!(kinds(p.conn().write_buffer()), "BE");
    assert!(matches!(p.exec(&prepared(None), bad()), Err(Error::Encode(_))));
    assert_eq!(kinds(p.conn().write_buffer()), "BE");
    assert_eq!(p.pending_count(), 1);
    assert!(matches!(p.cleanup(), Next::Write));
    assert!(matches!(p.sent(Ok(())), Next::Read));
    feed(&mut p, &[(b'2', b""), (b'I', b"")]);
    assert!(matches!(p.received(message(b'Z', b"I")), Next::Done(Ok(()))));
    // The next ticket can be claimed in its turn.
    assert!(p.exec("SELECT 1", bad()).is_err());
    let ticket = p.exec("SELECT 1", ()).unwrap();
    assert_eq!(p.pending_count(), 1);
    assert!(matches!(p.claim(ticket), Next::Write));
    assert_eq!(kinds(p.conn().write_buffer()), "PBDES");
}

#[test]
fn claims_are_in_order() {
    let mut conn = connection();
    let mut p = Pipeline::new(&mut conn);
    let first = p.exec("A", ()).unwrap();
    let second = p.exec("B", ()).unwrap();
    let third = p.exec("C", ()).unwrap();
    match p.claim(second) {
        Next::Done(Err(Error::InvalidUsage(m))) => {
            assert_eq!(m, "claim out of order: expected seq 0, got 1");
        }
        _ => panic!("expected an error"),
    }
    match p.claim(third) {
        Next::Done(Err(Error::InvalidUsage(m))) => {
            assert_eq!(m, "claim out of order: expected seq 0, got 2");
        }
        _ => panic!("expected an error"),
    }
    assert_eq!(p.pending_count(), 3);
    // A claim sends what is buffered, with a Sync.
    assert!(matches!(p.claim(first), Next::Write));
    assert_eq!(kinds(p.conn().write_buffer()), "PBDEPBDEPBDES");
    assert!(matches!(p.sent(Ok(())), Next::Read));
    feed(&mut p, &[(b'1', b""), (b'N', b"\0"), (b'2', b""), (b'n', b"")]);
    assert!(matches!(p.received(message(b'I', b"")), Next::Done(Ok(()))));
    assert_eq!(p.pending_count(), 2);
    assert!(!p.is_aborted());
}

#[test]
fn rows_of_sql_and_of_prepared_statements() {
    let mut conn = connection();
    let mut p = Pipeline::new(&mut conn);
    let cached = prepared(Some(columns()));
    let first = p.exec("SELECT 9", ()).unwrap();
    let second = p.exec(&cached, ()).unwrap();
    let next = p.sync();
    send(&mut p, next);
    assert!(matches!(p.claim(first), Next::Read));
    feed(&mut p, &[(b'1', b""), (b'2', b""), (b'T', &columns())]);
    match p.received(message(b'D', &[0, 1, 0, 0, 0, 1, 9])) {
        Next::Row(c, row) => {
            assert_eq!(c.columns[0].name, b"n");
            assert_eq!(row.values, [Some(vec![9])]);
        }
        _ => panic!("expected a row"),
    }
    assert!(matches!(p.called_back(Ok(())), Next::Read));
    match p.received(message(b'C', b"SELECT 1\0")) {
        Next::End(c) => assert_eq!(c.tag, b"SELECT 1"),
        _ => panic!("expected the end"),
    }
    assert!(matches!(p.called_back(Ok(())), Next::Done(Ok(()))));
    assert!(matches!(p.claim(second), Next::Read));
    feed(&mut p, &[(b'2', b"")]);
    match p.received(message(b'D', &[0, 1, 0xff, 0xff, 0xff, 0xff])) {
        Next::Row(c, row) => {
            assert_eq!(c.columns[0].type_oid, 23);
            assert_eq!(row.values, [None]);
        }
        _ => panic!("expected a row"),
    }
    assert!(matches!(p.called_back(Ok(())), Next::Read));
    assert!(matches!(p.received(message(b'C', b"SELECT 1\0")), Next::End(_)));
    // The claim takes the ReadyForQuery that follows.
    assert!(matches!(p.called_back(Ok(())), Next::Read));
    feed(&mut p, &[(b'S', b"a\0b\0"), (b'3', b"")]);
    assert!(matches!(p.received(message(b'Z', b"T")), Next::Done(Ok(()))));
    p.abandon();
    assert!(!conn.is_broken());
    assert!(conn.in_transaction());
}

#[test]
fn messages_that_do_not_fit_leave_the_exchange_unfinished() {
    let cases: [(&[(u8, &[u8])], u8, &str); 5] = [
        (&[], b'2', "expected ParseComplete, got '2'"),
        (&[(b'1', b"")], b'1', "expected BindComplete, got '1'"),
        (&[(b'1', b""), (b'2', b"")], b'C', "expected RowDescription or NoData, got 'C'"),
        (
            &[(b'1', b""), (b'2', b""), (b'n', b"")],
            b'D',
            "received DataRow but no RowDescription",
        ),
        (
            &[(b'1', b""), (b'2', b""), (b'n', b"")],
            b'Z',
            "unexpected message type in pipeline claim: 'Z'",
        ),
    ];
    for (before, kind, text) in cases {
        let mut conn = connection();
        let mut p = Pipeline::new(&mut conn);
        let ticket = p.exec("SELECT 1", ()).unwrap();
        let next = p.sync();
        send(&mut p, next);
        assert!(matches!(p.claim(ticket), Next::Read));
        feed(&mut p, before);
        bug(p.received(message(kind, b"")), text);
        assert!(matches!(p.sync(), Next::Done(Err(Error::ConnectionBroken))));
        assert!(matches!(p.flush(), Next::Done(Err(Error::ConnectionBroken))));
        assert!(matches!(p.cleanup(), Next::Done(Ok(()))));
        assert!(conn.is_broken());
    }
}

#[test]
fn malformed_messages() {
    let cases: [(&[(u8, &[u8])], u8, &[u8]); 8] = [
        (&[], b'1', b"x"),
        (&[(b'1', b"")], b'2', b"x"),
        (&[(b'1', b""), (b'2', b"")], b'n', b"x"),
        (&[(b'1', b""), (b'2', b""), (b'T', b"")], b'D', b"\0\0"),
        (&[(b'1', b""), (b'2', b""), (b'T', b"\0\0")], b'D', b""),
        (&[(b'1', b""), (b'2', b""), (b'n', b"")], b'C', b"x"),
        (&[(b'1', b""), (b'2', b""), (b'n', b"")], b'I', b"x"),
        (&[], b'E', b""),
    ];
    for (before, kind, payload) in cases {
        let mut conn = connection();
        let mut p = Pipeline::new(&mut conn);
        let ticket = p.exec("SELECT 1", ()).unwrap();
        assert!(matches!(p.claim(ticket), Next::Write));
        assert!(matches!(p.sent(Ok(())), Next::Read));
        feed(&mut p, before);
        assert!(matches!(
            p.received(message(kind, payload)),
            Next::Done(Err(Error::Protocol(_)))
        ));
        assert!(!p.is_aborted());
        assert!(conn.is_broken());
    }
}

#[test]
fn a_row_without_cached_columns() {
    let mut conn = connection();
    let mut p = Pipeline::new(&mut conn);
    let stmt = prepared(None);
    let ticket = p.exec(&stmt, ()).unwrap();
    assert!(matches!(p.claim(ticket), Next::Write));
    assert!(matches!(p.sent(Ok(())), Next::Read));
    feed(&mut p, &[(b'2', b"")]);
    bug(
        p.received(message(b'D', &[0, 0])),
        "received DataRow but no RowDescription cached",
    );
}

#[test]
fn a_recoverable_error_aborts_up_to_the_sync() {
    let mut conn = connection();
    let mut p = Pipeline::new(&mut conn);
    let first = p.exec("A", ()).unwrap();
    let second = p.exec("B", ()).unwrap();
    let next = p.sync();
    send(&mut p, next);
    assert!(matches!(p.claim(first), Next::Read));
    assert!(matches!(
        p.received(message(b'E', b"SERROR\0\0")),
        Next::Done(Err(Error::Server(_)))
    ));
    assert!(p.is_aborted());
    // The server has skipped the second execution.
    assert!(matches!(p.claim(second), Next::Read));
    bug(p.received(message(b'Z', b"I")), "pipeline aborted due to earlier error");
    assert!(!p.is_aborted());
    assert_eq!(p.pending_count(), 0);
    p.abandon();
    assert!(!conn.is_broken());
}

#[test]
fn waiting_for_ready_for_query_fails() {
    for (kind, payload, broken) in [
        (b'E', &b"SERROR\0\0"[..], false),
        (b'E', b"SFATAL\0\0", true),
        (b'E', b"", false),
        (b'Z', b"", false),
    ] {
        let mut conn = connection();
        let mut p = Pipeline::new(&mut conn);
        let ticket = p.exec("A", ()).unwrap();
        assert!(matches!(p.claim(ticket), Next::Write));
        assert!(matches!(p.sent(Ok(())), Next::Read));
        feed(&mut p, &[(b'1', b""), (b'2', b""), (b'n', b""), (b'I', b"")]);
        assert!(matches!(p.received(message(kind, payload)), Next::Done(Err(_))));
        finish(&mut conn);
        assert_eq!(conn.ensure_exchange_ready().is_err(), broken);
    }
}

#[test]
fn transport_failures() {
    let mut conn = connection();
    let mut p = Pipeline::new(&mut conn);
    let ticket = p.exec("A", ()).unwrap();
    assert!(matches!(p.flush(), Next::Write));
    assert_eq!(kinds(p.conn().write_buffer()), "PBDEH");
    assert!(matches!(p.sent(Err(io())), Next::Done(Err(Error::Io(_)))));
    assert!(matches!(p.claim(ticket), Next::Done(Err(Error::ConnectionBroken))));
    // A flush that fails leaves its exchange unfinished; a sync also fails the connection.
    finish(&mut conn);
    assert!(conn.ensure_exchange_ready().is_ok());
    let mut conn = connection();
    let mut p = Pipeline::new(&mut conn);
    let ticket = p.exec("A", ()).unwrap();
    assert!(matches!(p.sync(), Next::Write));
    assert!(matches!(p.sent(Err(io())), Next::Done(Err(Error::Io(_)))));
    assert!(matches!(p.claim(ticket), Next::Done(Err(Error::ConnectionBroken))));
    finish(&mut conn);
    assert!(conn.ensure_exchange_ready().is_err());

    let mut conn = connection();
    let mut p = Pipeline::new(&mut conn);
    let ticket = p.exec("A", ()).unwrap();
    assert!(matches!(p.claim(ticket), Next::Write));
    assert!(matches!(p.sent(Ok(())), Next::Read));
    assert!(matches!(p.received(Err(io())), Next::Done(Err(Error::Io(_)))));
    assert!(conn.is_broken());

    let mut conn = connection();
    let mut p = Pipeline::new(&mut conn);
    p.exec("A", ()).unwrap();
    assert!(matches!(p.cleanup(), Next::Write));
    assert!(matches!(p.sent(Err(io())), Next::Done(Ok(()))));
    assert!(matches!(p.cleanup(), Next::Done(Ok(()))));
    finish(&mut conn);
    assert!(conn.ensure_exchange_ready().is_err());

    let mut conn = connection();
    let mut p = Pipeline::new(&mut conn);
    p.exec("A", ()).unwrap();
    assert!(matches!(p.cleanup(), Next::Write));
    assert!(matches!(p.sent(Ok(())), Next::Read));
    assert!(matches!(p.received(Err(io())), Next::Done(Ok(()))));
    assert!(conn.is_broken());
}

#[test]
fn claims_without_an_execution() {
    let mut conn = connection();
    let mut p = Pipeline::new(&mut conn);
    let foreign = p.exec("A", ()).unwrap();
    p = Pipeline::new(&mut conn);
    bug(p.claim(foreign), "no expectation in queue");

    let mut conn = connection();
    let mut p = Pipeline::new(&mut conn);
    let foreign = p.exec("A", ()).unwrap();
    p = Pipeline::new(&mut conn);
    let next = p.sync();
    send(&mut p, next);
    assert!(matches!(p.claim(foreign), Next::Read));
    bug(p.received(message(b'Z', b"I")), "no expectation in queue");
    assert!(conn.is_broken());
}

#[test]
fn cleanup_drains_what_is_left() {
    let mut conn = connection();
    let mut p = Pipeline::new(&mut conn);
    // Nothing was queued.
    assert!(matches!(p.cleanup(), Next::Done(Ok(()))));
    assert!(p.conn().write_buffer().is_empty());
    p.exec("A", ()).unwrap();
    p.exec("B", ()).unwrap();
    let next = p.sync();
    send(&mut p, next);
    p.exec(&prepared(None), ()).unwrap();
    assert!(matches!(p.cleanup(), Next::Write));
    assert_eq!(kinds(p.conn().write_buffer()), "BES");
    assert!(matches!(p.sent(Ok(())), Next::Read));
    feed(
        &mut p,
        &[
            (b'1', b""),
            (b'2', b""),
            (b'T', b""),
            (b'D', b""),
            (b'C', b"SELECT 1\0"),
            // The second execution fails.
            (b'E', b"SERROR\0\0"),
            (b'Z', b"E"),
            // The third one goes through.
            (b'2', b""),
            (b'I', b""),
        ],
    );
    assert!(p.conn().is_broken());
    assert!(matches!(p.received(message(b'Z', b"I")), Next::Done(Ok(()))));
    assert_eq!((p.queue_seq(), p.claim_seq()), (0, 0));
    p.abandon();
    assert!(!conn.is_broken());
}

#[test]
fn cleanup_skips_what_the_server_has_skipped() {
    let mut conn = connection();
    let mut p = Pipeline::new(&mut conn);
    p.exec("A", ()).unwrap();
    p.exec("B", ()).unwrap();
    p.exec("C", ()).unwrap();
    assert!(matches!(p.cleanup(), Next::Write));
    assert!(matches!(p.sent(Ok(())), Next::Read));
    feed(&mut p, &[(b'E', b"SERROR\0\0")]);
    assert!(matches!(p.received(message(b'Z', b"I")), Next::Done(Ok(()))));
    assert!(!p.is_aborted());
    assert!(!conn.is_broken());
}

#[test]
fn cleanup_that_cannot_finish() {
    for (kind, payload) in [
        (b'E', &b""[..]),
        (b'E', b"SFATAL\0\0"),
        (b'C', b"x"),
        (b'I', b"x"),
        (b'Z', b"I"),
    ] {
        let mut conn = connection();
        let mut p = Pipeline::new(&mut conn);
        p.exec("A", ()).unwrap();
        assert!(matches!(p.cleanup(), Next::Write));
        assert!(matches!(p.sent(Ok(())), Next::Read));
        assert!(matches!(p.received(message(kind, payload)), Next::Done(Ok(()))));
        assert!(matches!(p.cleanup(), Next::Done(Ok(()))));
        assert!(conn.is_broken());
    }
}

#[test]
fn flush_of_nothing_does_nothing() {
    let mut conn = connection();
    let mut p = Pipeline::new(&mut conn);
    assert!(matches!(p.flush(), Next::Done(Ok(()))));
    p.abandon();
    assert!(!conn.is_broken());
}

#[test]
fn an_abandoned_pipeline_fails_its_connection() {
    let mut conn = connection();
    let mut p = Pipeline::new(&mut conn);
    p.exec("A", ()).unwrap();
    let next = p.flush();
    send(&mut p, next);
    p.abandon();
    assert!(conn.is_broken());
    assert!(matches!(conn.ensure_exchange_ready(), Err(Error::ConnectionBroken)));
}

#[test]
fn every_sync_is_answered_when_the_connection_is_usable_again() {
    let mut conn = connection();
    let mut p = Pipeline::new(&mut conn);
    let ticket = p.exec("A", ()).unwrap();
    for _ in 0..3 {
        let next = p.sync();
        send(&mut p, next);
    }
    assert!(matches!(p.claim(ticket), Next::Read));
    feed(&mut p, &[(b'1', b""), (b'2', b""), (b'n', b""), (b'I', b"")]);
    // Three Syncs, three answers.
    feed(&mut p, &[(b'Z', b"I"), (b'Z', b"I")]);
    assert!(p.conn().is_broken());
    assert!(matches!(p.received(message(b'Z', b"I")), Next::Done(Ok(()))));
    assert!(!conn.is_broken());
}

#[test]
fn cleanup_drains_what_was_flushed_after_the_last_sync() {
    let mut conn = connection();
    let mut p = Pipeline::new(&mut conn);
    p.exec("SELECT 1", ()).unwrap();
    let next = p.sync();
    send(&mut p, next);
    p.exec("SELECT 2", ()).unwrap();
    let next = p.flush();
    send(&mut p, next);
    assert!(matches!(p.cleanup(), Next::Write));
    assert_eq!(kinds(p.conn().write_buffer()), "S");
    assert!(matches!(p.sent(Ok(())), Next::Read));
    let answers: [(u8, &[u8]); 4] = [(b'1', b""), (b'2', b""), (b'n', b""), (b'C', b"SELECT 1\0")];
    feed(&mut p, &answers);
    feed(&mut p, &[(b'Z', b"I")]);
    feed(&mut p, &answers);
    assert!(matches!(p.received(message(b'Z', b"I")), Next::Done(Ok(()))));
    assert_eq!(p.pending_count(), 0);
    p.abandon();
    assert!(!conn.is_broken());
}

#[test]
fn a_claim_takes_the_ready_for_query_before_its_execution() {
    let mut conn = connection();
    let mut p = Pipeline::new(&mut conn);
    let first = p.exec("SELECT 42", ()).unwrap();
    let next = p.flush();
    send(&mut p, next);
    assert!(matches!(p.claim(first), Next::Read));
    feed(&mut p, &[(b'1', b""), (b'2', b""), (b'n', b"")]);
    assert!(matches!(p.received(message(b'I', b"")), Next::Done(Ok(()))));
    for _ in 0..2 {
        let next = p.sync();
        send(&mut p, next);
    }
    let second = p.exec("SELECT 99", ()).unwrap();
    assert!(matches!(p.claim(second), Next::Write));
    assert!(matches!(p.sent(Ok(())), Next::Read));
    feed(&mut p, &[(b'Z', b"T"), (b'Z', b"I"), (b'1', b""), (b'2', b""), (b'T', &columns())]);
    match p.received(message(b'D', &[0, 1, 0, 0, 0, 1, 99])) {
        Next::Row(_, row) => assert_eq!(row.values, [Some(vec![99])]),
        _ => panic!("expected a row"),
    }
    assert!(matches!(p.called_back(Ok(())), Next::Read));
    assert!(matches!(p.received(message(b'C', b"SELECT 1\0")), Next::End(_)));
    assert!(matches!(p.called_back(Ok(())), Next::Read));
    assert!(matches!(p.received(message(b'Z', b"I")), Next::Done(Ok(()))));
    assert!(!conn.is_broken());
}

#[test]
fn a_claim_after_an_aborted_one_takes_the_sync_between_them() {
    let mut conn = connection();
    let mut p = Pipeline::new(&mut conn);
    let first = p.exec("A", ()).unwrap();
    let next = p.flush();
    send(&mut p, next);
    assert!(matches!(p.claim(first), Next::Read));
    assert!(matches!(
        p.received(message(b'E', b"SERROR\0\0")),
        Next::Done(Err(Error::Server(_)))
    ));
    assert!(p.is_aborted());
    let next = p.sync();
    send(&mut p, next);
    let second = p.exec("B", ()).unwrap();
    let next = p.flush();
    send(&mut p, next);
    assert!(matches!(p.claim(second), Next::Read));
    // The answer to the Sync ends the aborted state.
    feed(&mut p, &[(b'Z', b"I")]);
    assert!(!p.is_aborted());
    feed(&mut p, &[(b'1', b""), (b'2', b""), (b'n', b"")]);
    assert!(matches!(p.received(message(b'I', b"")), Next::Done(Ok(()))));
    // What was flushed is still to be synced.
    assert!(p.conn().is_broken());
    assert!(matches!(p.cleanup(), Next::Write));
    assert!(matches!(p.sent(Ok(())), Next::Read));
    assert!(matches!(p.received(message(b'Z', b"I")), Next::Done(Ok(()))));
    assert!(!conn.is_broken());
}

#[test]
fn the_ready_for_query_before_an_execution_does_not_come() {
    for (kind, payload) in [(b'E', &b"SERROR\0\0"[..]), (b'Z', b"")] {
        let mut conn = connection();
        let mut p = Pipeline::new(&mut conn);
        let next = p.sync();
        send(&mut p, next);
        let ticket = p.exec("A", ()).unwrap();
        let next = p.flush();
        send(&mut p, next);
        assert!(matches!(p.claim(ticket), Next::Read));
        assert!(matches!(p.received(message(kind, payload)), Next::Done(Err(_))));
        assert!(matches!(p.sync(), Next::Done(Err(Error::ConnectionBroken))));
    }
}

#[test]
fn the_handler_hears_what_comes_during_a_pipeline() {
    let mut conn = connection();
    conn.set_async_message_handler(());
    let mut p = Pipeline::new(&mut conn);
    let ticket = p.exec("A", ()).unwrap();
    assert!(matches!(p.claim(ticket), Next::Write));
    assert!(matches!(p.sent(Ok(())), Next::Read));
    match p.received(message(b'A', b"\0\0\0\x01ch\0hi\0")) {
        Next::Notify(AsyncMessage::Notification { process_id, channel, payload }) => {
            assert_eq!(process_id, 1);
            assert_eq!((&channel[..], &payload[..]), (&b"ch"[..], &b"hi"[..]));
        }
        _ => panic!("the message is lost"),
    }
    feed(&mut p, &[(b'1', b""), (b'2', b""), (b'n', b""), (b'I', b"")]);
    assert!(matches!(
        p.received(message(b'N', b"SNOTICE\0\0")),
        Next::Notify(AsyncMessage::Notice(_))
    ));
    assert!(matches!(p.received(message(b'Z', b"I")), Next::Done(Ok(()))));
    assert!(!conn.is_broken());
}
