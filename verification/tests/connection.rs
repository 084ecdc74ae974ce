//! The state of a connection, low-level exchanges, batches and scopes.

use zero_postgres::conn::batch::{BatchNext, DEFAULT_CHUNK_SIZE};
use zero_postgres::conn::drive::{startup_step, Action, Demand, Progress};
use zero_postgres::conn::exchange::Fetch;
use zero_postgres::conn::scope::{
    prepared, BindPlan, Plan, PortalNext, PortalOutcome, PortalRun, TransactionNext,
    TransactionOutcome, TransactionRun, BEGIN, COMMIT, PING, ROLLBACK,
};
use zero_postgres::conn::target::{
    first_socket_dir, socket_path, upgraded_or, Target, SOCKET_DIRECTORIES_QUERY,
};
use zero_postgres::params::Params;
use zero_postgres::protocol::backend::{parse_error, Message};
use zero_postgres::types::{AsyncMessage, BackendKeyData};
use zero_postgres::{
    Conn, Error, NamedPortal, Opts, PreparedStatement, ServerError, TransactionStatus,
    UnnamedPortal,
};

fn connection() -> Conn<Vec<String>> {
    let key = BackendKeyData { process_id: 123, secret_key: vec![1] };
    let params = vec![("TimeZone".to_string(), "UTC".to_string())];
    Conn::established(Some(key), params, TransactionStatus::Idle)
}

fn message(type_byte: u8, payload: &[u8]) -> Result<Message, Error> {
    Ok(Message { type_byte, payload: payload.to_vec() })
}

fn server_error() -> ServerError {
    parse_error(b"SERROR\0\0").unwrap()
}

fn io() -> Error {
    Error::Io("connection reset".into())
}

fn bug<T>(progress: Progress<T>, text: &str) {
    match progress {
        Progress::Done(Err(Error::LibraryBug(m))) => assert_eq!(m, text),
        _ => panic!("expected the error {text}"),
    }
}

#[test]
fn a_new_connection_is_usable() {
    let mut conn = connection();
    assert!(!conn.is_broken());
    assert_eq!(conn.connection_id(), 123);
    assert_eq!(conn.backend_key().unwrap().secret_key, [1]);
    assert_eq!(conn.server_params(), [("TimeZone".to_string(), "UTC".to_string())]);
    assert_eq!(conn.transaction_status(), TransactionStatus::Idle);
    assert!(!conn.in_transaction());
    conn.ensure_usable().unwrap();
    conn.ensure_exchange_ready().unwrap();
    let bare: Conn<()> = Conn::established(None, vec![], TransactionStatus::Failed);
    assert_eq!(bare.connection_id(), 0);
    assert!(bare.backend_key().is_none());
    assert!(bare.in_transaction());
    conn.set_async_message_handler(vec!["first".into()]);
    conn.async_message_handler().unwrap().push("second".into());
    assert_eq!(conn.async_message_handler().unwrap().len(), 2);
    conn.clear_async_message_handler();
    assert!(conn.async_message_handler().is_none());
}

/// Ends an exchange.
fn finish(conn: &mut Conn<Vec<String>>) {
    assert!(matches!(conn.bind_step(Ok(Action::Finished)), Progress::Done(Ok(()))));
}

#[test]
fn an_exchange_blocks_use_until_its_end() {
    let mut conn = connection();
    conn.begin_exchange().unwrap();
    assert!(conn.is_broken());
    assert!(matches!(conn.begin_exchange(), Err(Error::ConnectionBroken)));
    assert!(matches!(conn.ensure_exchange_ready(), Err(Error::ConnectionBroken)));
    finish(&mut conn);
    assert!(!conn.is_broken());
}

#[test]
fn a_failure_is_permanent() {
    let mut conn = connection();
    let recoverable = conn.conclude::<()>(Err(Error::Server(server_error())));
    assert!(matches!(recoverable, Err(Error::Server(_))));
    assert!(!conn.is_broken());
    conn.begin_exchange().unwrap();
    assert!(matches!(conn.conclude::<()>(Err(io())), Err(Error::Io(_))));
    finish(&mut conn);
    assert!(conn.is_broken());
    assert_eq!(conn.conclude(Ok(5)).unwrap(), 5);
    assert!(conn.is_broken());
    assert!(matches!(conn.close(), Err(Error::ConnectionBroken)));
}

#[test]
fn close_writes_terminate() {
    let mut conn = connection();
    conn.write_buffer_mut().push(1);
    conn.close().unwrap();
    assert_eq!(conn.write_buffer(), [b'X', 0, 0, 0, 4]);
}

#[test]
fn names_are_unique() {
    let mut conn = connection();
    assert_eq!(conn.next_portal_name(), "_zero_p_1");
    let first = conn.prepare("SELECT $1").unwrap();
    assert_eq!((first.idx, first.query, first.oids), (2, "SELECT $1", &[][..]));
    finish(&mut conn);
    assert_eq!(conn.prepare_batch(&["a", "b", "c"]).unwrap(), [3, 4, 5]);
    finish(&mut conn);
    assert!(conn.prepare_batch(&[]).unwrap().is_empty());
    assert!(!conn.is_broken());
    let typed = conn.prepare_typed("SELECT $2", &[23, 25]).unwrap();
    assert_eq!((typed.idx, typed.query, typed.oids), (6, "SELECT $2", &[23, 25][..]));
    finish(&mut conn);
    assert_eq!(conn.next_portal_name(), "_zero_p_7");
    let stmt = PreparedStatement { idx: 12, param_oids: vec![], row_desc_payload: None };
    assert_eq!(stmt.wire_name(), "_zero_s_12");
    assert_eq!(conn.close_statement(&stmt).unwrap(), "_zero_s_12");
    assert!(conn.is_broken());
}

#[test]
fn statements_are_planned() {
    let conn = connection();
    assert!(matches!(conn.exec("SELECT 1"), Ok(Plan::Sql("SELECT 1"))));
    let stmt = PreparedStatement { idx: 3, param_oids: vec![23], row_desc_payload: None };
    match conn.create_named_portal("p", &stmt) {
        Ok(BindPlan { portal, plan: Plan::Prepared { name, oids } }) => {
            assert_eq!(portal, "p");
            assert_eq!(name, "_zero_s_3");
            assert_eq!(oids, [23]);
        }
        _ => panic!("expected a prepared plan"),
    }
    assert!(matches!(
        conn.create_named_portal("q", "SELECT 1"),
        Ok(BindPlan { portal: "q", plan: Plan::Sql("SELECT 1") })
    ));
    assert!(matches!(
        conn.exec_portal("SELECT 2"),
        Ok(BindPlan { portal: "", plan: Plan::Sql("SELECT 2") })
    ));
    assert_eq!(prepared(Some(stmt)).unwrap().idx, 3);
    match prepared(None) {
        Err(Error::LibraryBug(m)) => assert_eq!(m, "No prepared statement"),
        _ => panic!("expected an error"),
    }
}

#[test]
fn startup_steps() {
    let step = |action| startup_step(Ok(action), false);
    assert!(matches!(step(Action::WriteAndReadByte), Progress::Io(Demand::WriteReadByte)));
    assert!(matches!(step(Action::ReadMessage), Progress::Io(Demand::Read)));
    assert!(matches!(step(Action::Write), Progress::Io(Demand::Write)));
    assert!(matches!(step(Action::WriteAndReadMessage), Progress::Io(Demand::WriteRead)));
    let notice = AsyncMessage::Notice(server_error());
    assert!(matches!(
        step(Action::HandleAsyncMessageAndReadMessage(notice)),
        Progress::Io(Demand::Read)
    ));
    assert!(matches!(step(Action::Finished), Progress::Done(Ok(()))));
    bug(step(Action::Error(server_error())), "unexpected server error during connection startup");
    match step(Action::TlsHandshake) {
        Progress::Done(Err(Error::Unsupported(m))) => {
            assert_eq!(m, "TLS requested but compio-tls feature not enabled");
        }
        _ => panic!("expected an error"),
    }
    assert!(matches!(
        startup_step(Ok(Action::TlsHandshake), true),
        Progress::Io(Demand::TlsHandshake)
    ));
    assert!(matches!(startup_step(Err(io()), true), Progress::Done(Err(Error::Io(_)))));
}

#[test]
fn query_steps() {
    let mut conn = connection();
    assert_eq!(conn.query("SELECT 1").unwrap(), "SELECT 1");
    let idle = TransactionStatus::Idle;
    let failed = TransactionStatus::Failed;
    bug(
        conn.drive_step(Ok(Action::WriteAndReadByte), idle),
        "Unexpected WriteAndReadByte in query state machine",
    );
    bug(
        conn.drive_step(Ok(Action::TlsHandshake), idle),
        "Unexpected TlsHandshake in query state machine",
    );
    let changed =
        || AsyncMessage::ParameterChanged { name: "TimeZone".into(), value: "CET".into() };
    assert!(matches!(
        conn.drive_step(Ok(Action::HandleAsyncMessageAndReadMessage(changed())), idle),
        Progress::Io(Demand::Read)
    ));
    conn.set_async_message_handler(vec![]);
    match conn.drive_step(Ok(Action::HandleAsyncMessageAndReadMessage(changed())), idle) {
        Progress::Io(Demand::NotifyRead(AsyncMessage::ParameterChanged { name, value })) => {
            assert_eq!((&name[..], &value[..]), (&b"TimeZone"[..], &b"CET"[..]));
        }
        _ => panic!("expected a notification"),
    }
    assert!(matches!(conn.drive_step(Ok(Action::Write), idle), Progress::Io(Demand::Write)));
    let decode = Error::Decode("bad".into());
    assert!(matches!(conn.drive_step(Err(decode), idle), Progress::Done(Err(Error::Decode(_)))));
    assert!(conn.is_broken());
    assert!(matches!(
        conn.drive_step(Ok(Action::Error(server_error())), failed),
        Progress::Done(Err(Error::Server(_)))
    ));
    assert!(!conn.is_broken());
    assert_eq!(conn.transaction_status(), failed);
    assert_eq!(conn.query("SELECT 1").unwrap(), "SELECT 1");
    assert!(matches!(conn.drive_step(Ok(Action::Finished), idle), Progress::Done(Ok(()))));
    assert_eq!(conn.transaction_status(), idle);
}

#[test]
fn other_drivers_refuse_other_actions() {
    let mut conn = connection();
    let idle = TransactionStatus::Idle;
    conn.begin_exchange().unwrap();
    bug(conn.bind_step(Ok(Action::TlsHandshake)), "Unexpected action in bind");
    bug(conn.bind_step(Ok(Action::Error(server_error()))), "Unexpected action in bind");
    assert!(matches!(conn.bind_step(Ok(Action::Write)), Progress::Io(Demand::Write)));
    bug(conn.prepare_batch_step(Ok(Action::Write), idle), "Unexpected action in batch prepare");
    bug(conn.batch_step(Ok(Action::Write), idle), "Unexpected action in batch");
    assert!(conn.is_broken());
    assert!(matches!(conn.bind_step(Ok(Action::Finished)), Progress::Done(Ok(()))));
    assert!(!conn.is_broken());
    conn.begin_exchange().unwrap();
    let status = TransactionStatus::InTransaction;
    assert!(matches!(
        conn.batch_step(Ok(Action::Error(server_error())), status),
        Progress::Done(Err(Error::Server(_)))
    ));
    assert!(!conn.is_broken());
    assert!(conn.in_transaction());
}

#[test]
fn every_driver_hands_messages_to_the_handler() {
    let notice = || {
        Ok(Action::HandleAsyncMessageAndReadMessage(AsyncMessage::ParameterChanged {
            name: "TimeZone".into(),
            value: "CET".into(),
        }))
    };
    let idle = TransactionStatus::Idle;
    for handled in [false, true] {
        let mut conn = connection();
        if handled {
            conn.set_async_message_handler(vec![]);
        }
        conn.begin_exchange().unwrap();
        for progress in [
            conn.drive_step(notice(), idle),
            conn.bind_step(notice()),
            conn.prepare_batch_step(notice(), idle),
            conn.batch_step(notice(), idle),
        ] {
            match progress {
                Progress::Io(Demand::NotifyRead(AsyncMessage::ParameterChanged {
                    name,
                    value,
                })) => {
                    assert!(handled);
                    assert_eq!((&name[..], &value[..]), (&b"TimeZone"[..], &b"CET"[..]));
                }
                Progress::Io(Demand::Read) => assert!(!handled),
                _ => panic!("expected to read on"),
            }
        }
        // The exchange goes on.
        assert!(matches!(conn.ensure_exchange_ready(), Err(Error::ConnectionBroken)));
        finish(&mut conn);
        assert!(!conn.is_broken());
    }
}

#[test]
fn pings_are_empty_queries() {
    let mut conn = connection();
    assert_eq!(conn.ping().unwrap(), PING);
    assert_eq!(PING, "");
    assert!(matches!(conn.ping(), Err(Error::ConnectionBroken)));
}

#[test]
fn flush_ends_with_its_write() {
    let mut conn = connection();
    conn.lowlevel_flush().unwrap();
    assert_eq!(conn.write_buffer(), [b'H', 0, 0, 0, 4]);
    assert!(conn.is_broken());
    assert!(matches!(conn.flush_sent(Err(io())), Err(Error::Io(_))));
    assert!(conn.is_broken());
    conn.flush_sent(Ok(())).unwrap();
    assert!(!conn.is_broken());
}

#[test]
fn sync_reports_a_server_error_at_its_end() {
    let mut conn = connection();
    let mut sync = conn.lowlevel_sync().unwrap();
    assert_eq!(conn.write_buffer(), [b'S', 0, 0, 0, 4]);
    for (kind, payload) in [(b'N', &b"\0"[..]), (b'C', b"X\0"), (b'E', b"SERROR\0\0")] {
        assert!(matches!(
            sync.received(&mut conn, message(kind, payload)),
            Progress::Io(Demand::Read)
        ));
    }
    assert!(matches!(
        sync.received(&mut conn, message(b'Z', b"T")),
        Progress::Done(Err(Error::Server(_)))
    ));
    assert!(!conn.is_broken());
    assert!(conn.in_transaction());
}

#[test]
fn sync_fails() {
    let mut conn = connection();
    let mut sync = conn.lowlevel_sync().unwrap();
    assert!(matches!(sync.received(&mut conn, Err(io())), Progress::Done(Err(Error::Io(_)))));
    assert!(matches!(
        sync.received(&mut conn, message(b'Z', b"")),
        Progress::Done(Err(Error::Protocol(_)))
    ));
    assert!(matches!(
        sync.received(&mut conn, message(b'E', b"")),
        Progress::Done(Err(Error::Protocol(_)))
    ));
    assert!(matches!(
        sync.received(&mut conn, message(b'E', b"SFATAL\0\0")),
        Progress::Done(Err(Error::Server(_)))
    ));
    finish(&mut conn);
    assert!(conn.is_broken());
}

#[test]
fn bind_and_close_wait_for_one_confirmation() {
    let mut conn = connection();
    let params = Params { oids: vec![23], values: vec![None] };
    let mut bind = conn.lowlevel_bind("p", "s", &params).unwrap();
    assert_eq!(conn.write_buffer()[0], b'B');
    assert_eq!(&conn.write_buffer()[23..], [b'H', 0, 0, 0, 4]);
    assert!(matches!(bind.received(&mut conn, message(b'S', b"")), Progress::Io(Demand::Read)));
    bug(
        bind.received(&mut conn, message(b'3', b"")),
        "Expected BindComplete or ErrorResponse, got '3'",
    );
    assert!(matches!(
        bind.received(&mut conn, message(b'2', b"x")),
        Progress::Done(Err(Error::Protocol(_)))
    ));
    assert!(conn.is_broken());
    assert!(matches!(bind.received(&mut conn, message(b'2', b"")), Progress::Done(Ok(()))));
    assert!(!conn.is_broken());
    let mut close = conn.lowlevel_close_portal("p").unwrap();
    bug(
        close.received(&mut conn, message(b'2', b"")),
        "Expected CloseComplete or ErrorResponse, got '2'",
    );
    assert!(matches!(close.received(&mut conn, message(b'3', b"")), Progress::Done(Ok(()))));
    // Parameters that cannot be encoded never reach the server.
    let params = Params { oids: vec![], values: vec![None] };
    assert!(matches!(conn.lowlevel_bind("p", "s", &params), Err(Error::Encode(_))));
    assert!(conn.write_buffer().is_empty());
    assert!(!conn.is_broken());
}

#[test]
fn execute_hands_out_rows() {
    let mut conn = connection();
    let mut execute = conn.lowlevel_execute("p", 2).unwrap();
    assert_eq!(
        conn.write_buffer(),
        [
            b'D', 0, 0, 0, 7, b'P', b'p', 0, b'E', 0, 0, 0, 10, b'p', 0, 0, 0, 0, 2, b'H', 0, 0, 0,
            4
        ]
    );
    let columns = [
        &[0, 1][..],
        b"n\0",
        &[0, 0, 0, 0, 0, 0, 0, 0, 0, 23, 0, 4, 0, 0, 0, 0, 0, 1],
    ]
    .concat();
    match execute.received(&mut conn, message(b'T', &columns)) {
        Fetch::ResultStart(c) => assert_eq!(c.columns[0].name, b"n"),
        _ => panic!("expected the columns"),
    }
    assert!(matches!(execute.called_back(&mut conn, Ok(())), Fetch::Read));
    match execute.received(&mut conn, message(b'D', &[0, 1, 0, 0, 0, 1, 9])) {
        Fetch::Row(c, row) => {
            assert_eq!(c.columns[0].type_oid, 23);
            assert_eq!(row.values, [Some(vec![9])]);
        }
        _ => panic!("expected a row"),
    }
    assert!(matches!(execute.called_back(&mut conn, Ok(())), Fetch::Read));
    match execute.received(&mut conn, message(b'C', b"SELECT 1\0")) {
        Fetch::ResultEnd(c) => assert_eq!(c.tag, b"SELECT 1"),
        _ => panic!("expected the end"),
    }
    assert!(conn.is_broken());
    assert!(matches!(execute.called_back(&mut conn, Ok(())), Fetch::Done(Ok(false))));
    assert!(!conn.is_broken());
}

#[test]
fn execute_fails() {
    let mut conn = connection();
    let mut execute = conn.lowlevel_execute("p", 0).unwrap();
    assert!(matches!(execute.received(&mut conn, Err(io())), Fetch::Done(Err(Error::Io(_)))));
    // A row before its columns.
    assert!(matches!(
        execute.received(&mut conn, message(b'D', &[0, 0])),
        Fetch::Done(Err(Error::Protocol(_)))
    ));
    match execute.received(&mut conn, message(b'Z', b"I")) {
        Fetch::Done(Err(Error::LibraryBug(m))) => {
            assert_eq!(m, "Unexpected message in execute: 'Z'");
        }
        _ => panic!("expected an error"),
    }
    assert!(matches!(
        execute.received(&mut conn, message(b'E', b"SERROR\0\0")),
        Fetch::Done(Err(Error::Server(_)))
    ));
    assert!(matches!(execute.received(&mut conn, message(b'n', b"")), Fetch::Read));
    let stopped = Error::InvalidUsage("stopped".into());
    assert!(matches!(
        execute.called_back(&mut conn, Err(stopped)),
        Fetch::Done(Err(Error::InvalidUsage(_)))
    ));
    assert!(conn.is_broken());
    assert!(matches!(execute.received(&mut conn, message(b's', b"")), Fetch::Done(Ok(true))));
    assert!(!conn.is_broken());
}

#[test]
fn named_portal() {
    let mut conn = connection();
    let mut portal = NamedPortal::new(conn.next_portal_name());
    assert_eq!(portal.name(), "_zero_p_1");
    assert!(!portal.is_complete());
    let mut execute = portal.exec(&mut conn, 1).unwrap();
    assert!(matches!(execute.received(&mut conn, message(b's', b"")), Fetch::Done(Ok(true))));
    portal.executed(Ok(true)).unwrap();
    assert!(!portal.is_complete());
    portal.executed(Ok(false)).unwrap();
    assert!(portal.is_complete());
    assert!(matches!(portal.executed(Err(io())), Err(Error::Io(_))));
    assert!(portal.is_complete());
    let mut close = portal.close(&mut conn).unwrap();
    assert!(matches!(close.received(&mut conn, message(b'3', b"")), Progress::Done(Ok(()))));
    let mut sync = portal.closed(&mut conn, Ok(())).unwrap();
    assert!(matches!(sync.received(&mut conn, message(b'Z', b"I")), Progress::Done(Ok(()))));
    assert!(!conn.is_broken());
    let portal = NamedPortal::new("p".into());
    assert!(matches!(portal.closed(&mut conn, Err(io())), Err(Error::Io(_))));
    assert!(conn.is_broken());
}

#[test]
fn a_fatal_outcome_is_permanent() {
    let fatal = || parse_error(b"SFATAL\0\0").unwrap();
    let idle = TransactionStatus::Idle;
    let mut conn = connection();
    assert_eq!(conn.query("SELECT 1").unwrap(), "SELECT 1");
    assert!(matches!(
        conn.drive_step(Ok(Action::Error(fatal())), idle),
        Progress::Done(Err(Error::Server(_)))
    ));
    assert!(conn.is_broken());
    assert!(matches!(conn.ensure_exchange_ready(), Err(Error::ConnectionBroken)));
    let mut conn = connection();
    conn.begin_exchange().unwrap();
    assert!(matches!(
        conn.batch_step(Ok(Action::Error(fatal())), idle),
        Progress::Done(Err(Error::Server(_)))
    ));
    assert!(conn.is_broken());
    let mut conn = connection();
    conn.begin_exchange().unwrap();
    assert!(matches!(
        conn.prepare_batch_step(Err(io()), idle),
        Progress::Done(Err(Error::Io(_)))
    ));
    finish(&mut conn);
    assert!(conn.is_broken());
}

const NOTIFICATION: &[u8] = b"\0\0\0\x01ch\0hi\0";

fn is_notification(m: &AsyncMessage) -> bool {
    matches!(
        m,
        AsyncMessage::Notification { process_id: 1, channel, payload }
            if channel == b"ch" && payload == b"hi"
    )
}

#[test]
fn the_handler_hears_what_comes_during_an_exchange() {
    let mut conn = connection();
    conn.set_async_message_handler(vec![]);
    let mut sync = conn.lowlevel_sync().unwrap();
    let mut calls = 0;
    for (kind, payload) in [(b'A', NOTIFICATION), (b'Z', b"I")] {
        match sync.received(&mut conn, message(kind, payload)) {
            Progress::Io(Demand::NotifyRead(m)) => {
                assert!(is_notification(&m));
                calls += 1;
            }
            Progress::Done(result) => result.unwrap(),
            _ => panic!("the message is lost"),
        }
    }
    assert_eq!(calls, 1);
    assert!(!conn.is_broken());
    let mut bind = conn.lowlevel_bind("", "", &()).unwrap();
    match bind.received(&mut conn, message(b'N', b"SNOTICE\0Mhello\0\0")) {
        Progress::Io(Demand::NotifyRead(AsyncMessage::Notice(notice))) => {
            assert_eq!(notice.field(b'M').unwrap(), b"hello");
        }
        _ => panic!("the message is lost"),
    }
    assert!(matches!(bind.received(&mut conn, message(b'2', b"")), Progress::Done(Ok(()))));
    let mut execute = conn.lowlevel_execute("", 0).unwrap();
    match execute.received(&mut conn, message(b'S', b"TimeZone\0CET\0")) {
        Fetch::Notify(AsyncMessage::ParameterChanged { name, value }) => {
            assert_eq!((&name[..], &value[..]), (&b"TimeZone"[..], &b"CET"[..]));
        }
        _ => panic!("the message is lost"),
    }
    // What cannot be decoded is read over.
    assert!(matches!(execute.received(&mut conn, message(b'A', b"\0\0\0")), Fetch::Read));
    assert!(matches!(execute.received(&mut conn, message(b's', b"")), Fetch::Done(Ok(true))));
    assert!(!conn.is_broken());
    // Without a handler nobody hears of it.
    conn.clear_async_message_handler();
    let mut sync = conn.lowlevel_sync().unwrap();
    assert!(matches!(
        sync.received(&mut conn, message(b'A', NOTIFICATION)),
        Progress::Io(Demand::Read)
    ));
}

#[test]
fn unnamed_portal_scope() {
    let mut conn = connection();
    let mut run = PortalRun::new();
    assert!(matches!(run.step(&mut conn, PortalOutcome::Made(Ok(()))), PortalNext::Bind));
    assert!(matches!(conn.bind_step(Ok(Action::Finished)), Progress::Done(Ok(()))));
    assert!(matches!(run.step(&mut conn, PortalOutcome::Bound(Ok(()))), PortalNext::Call));
    assert!(conn.is_broken());
    conn.ensure_exchange_ready().unwrap();
    let mut portal = UnnamedPortal { conn: &mut conn };
    let mut execute = portal.exec(1).unwrap();
    assert!(matches!(portal.exec(1), Err(Error::ConnectionBroken)));
    assert!(matches!(execute.received(portal.conn, message(b's', b"")), Fetch::Done(Ok(true))));
    let mut sync = match run.step(&mut conn, PortalOutcome::Returned(Ok(3))) {
        PortalNext::Sync(sync) => sync,
        _ => panic!("expected a Sync"),
    };
    assert_eq!(conn.write_buffer(), [b'S', 0, 0, 0, 4]);
    assert!(matches!(sync.received(&mut conn, message(b'Z', b"I")), Progress::Done(Ok(()))));
    assert!(conn.is_broken());
    assert!(matches!(
        run.step(&mut conn, PortalOutcome::Synced(Ok(()))),
        PortalNext::Done(Ok(3))
    ));
    assert!(!conn.is_broken());
}

/// A run that has come to its closure.
fn called(conn: &mut Conn<Vec<String>>) -> PortalRun<u8> {
    let mut run = PortalRun::new();
    assert!(matches!(run.step(conn, PortalOutcome::Made(Ok(()))), PortalNext::Bind));
    finish(conn);
    assert!(matches!(run.step(conn, PortalOutcome::Bound(Ok(()))), PortalNext::Call));
    run
}

#[test]
fn unnamed_portal_outcomes() {
    let stopped = || Error::InvalidUsage("stopped".into());
    // The closure has failed: a Sync is sent all the same, and its outcome does not matter.
    for synced in [Ok(()), Err(io())] {
        let mut conn = connection();
        let mut run = called(&mut conn);
        assert!(matches!(
            run.step(&mut conn, PortalOutcome::Returned(Err(stopped()))),
            PortalNext::Sync(_)
        ));
        if synced.is_ok() {
            finish(&mut conn);
        }
        let usable = synced.is_ok();
        assert!(matches!(
            run.step(&mut conn, PortalOutcome::Synced(synced)),
            PortalNext::Done(Err(Error::InvalidUsage(_)))
        ));
        assert_eq!(conn.is_broken(), !usable);
    }
    // The Sync has failed.
    let mut conn = connection();
    let mut run = called(&mut conn);
    assert!(matches!(run.step(&mut conn, PortalOutcome::Returned(Ok(1))), PortalNext::Sync(_)));
    finish(&mut conn);
    let error = Error::Server(server_error());
    assert!(matches!(
        run.step(&mut conn, PortalOutcome::Synced(Err(error))),
        PortalNext::Done(Err(Error::Server(_)))
    ));
    assert!(!conn.is_broken());
    // The exchange was interrupted: the scope stays pending.
    let mut conn = connection();
    let mut run = called(&mut conn);
    conn.begin_exchange().unwrap();
    assert!(matches!(
        run.step(&mut conn, PortalOutcome::Returned(Ok(1))),
        PortalNext::Done(Err(Error::ConnectionBroken))
    ));
    finish(&mut conn);
    assert!(conn.is_broken());
}

#[test]
fn an_unnamed_portal_that_is_not_bound() {
    let encode = || Error::Encode("bad".into());
    let mut conn = connection();
    let mut run = PortalRun::<u8>::new();
    assert!(matches!(
        run.step(&mut conn, PortalOutcome::Made(Err(encode()))),
        PortalNext::Done(Err(Error::Encode(_)))
    ));
    assert!(!conn.is_broken());
    let mut run = PortalRun::<u8>::new();
    assert!(matches!(run.step(&mut conn, PortalOutcome::Made(Ok(()))), PortalNext::Bind));
    assert!(matches!(
        run.step(&mut conn, PortalOutcome::Bound(Err(Error::Server(server_error())))),
        PortalNext::Done(Err(Error::Server(_)))
    ));
    assert!(conn.is_broken());
    let mut run = PortalRun::<u8>::new();
    assert!(matches!(
        run.step(&mut conn, PortalOutcome::Made(Ok(()))),
        PortalNext::Done(Err(Error::ConnectionBroken))
    ));
}

/// A connection inside a transaction.
fn in_transaction() -> Conn<()> {
    Conn::established(None, vec![], TransactionStatus::InTransaction)
}

/// A transaction whose closure has been called.
fn transaction_called(conn: &Conn<()>) -> TransactionRun<u8> {
    let (mut run, next) = conn.transaction();
    assert!(matches!(next, TransactionNext::Query("BEGIN")));
    let next = run.step(conn, TransactionOutcome::Queried(Ok(())));
    assert!(matches!(next, TransactionNext::Call));
    run
}

#[test]
fn transactions_are_ended_where_they_are_open() {
    assert_eq!((BEGIN, COMMIT, ROLLBACK), ("BEGIN", "COMMIT", "ROLLBACK"));
    let idle: Conn<()> = Conn::established(None, vec![], TransactionStatus::Idle);
    let open = in_transaction();
    let failed: Conn<()> = Conn::established(None, vec![], TransactionStatus::Failed);
    let decode = || Error::Decode("bad".into());
    // The closure has ended the transaction by itself.
    let mut run = transaction_called(&idle);
    assert!(matches!(
        run.step(&idle, TransactionOutcome::Returned(Ok(1))),
        TransactionNext::Done(Ok(1))
    ));
    let mut run = transaction_called(&idle);
    assert!(matches!(
        run.step(&idle, TransactionOutcome::Returned(Err(decode()))),
        TransactionNext::Done(Err(Error::Decode(_)))
    ));
    // It is committed, or the error of the commit comes out.
    let mut run = transaction_called(&idle);
    assert!(matches!(
        run.step(&open, TransactionOutcome::Returned(Ok(2))),
        TransactionNext::Query("COMMIT")
    ));
    assert!(matches!(
        run.step(&idle, TransactionOutcome::Queried(Ok(()))),
        TransactionNext::Done(Ok(2))
    ));
    let mut run = transaction_called(&idle);
    assert!(matches!(
        run.step(&failed, TransactionOutcome::Returned(Ok(2))),
        TransactionNext::Query("COMMIT")
    ));
    assert!(matches!(
        run.step(&failed, TransactionOutcome::Queried(Err(io()))),
        TransactionNext::Done(Err(Error::Io(_)))
    ));
    // It is rolled back, and the error of the closure comes out.
    for ended in [Ok(()), Err(io())] {
        let mut run = transaction_called(&idle);
        assert!(matches!(
            run.step(&open, TransactionOutcome::Returned(Err(decode()))),
            TransactionNext::Query("ROLLBACK")
        ));
        assert!(matches!(
            run.step(&idle, TransactionOutcome::Queried(ended)),
            TransactionNext::Done(Err(Error::Decode(_)))
        ));
    }
}

#[test]
fn a_transaction_that_does_not_begin() {
    let (_, next) = in_transaction().transaction::<u8>();
    match next {
        TransactionNext::Done(Err(Error::InvalidUsage(m))) => {
            assert_eq!(m, "nested transactions are not supported");
        }
        _ => panic!("expected an error"),
    }
    let idle: Conn<()> = Conn::established(None, vec![], TransactionStatus::Idle);
    let (mut run, next) = idle.transaction::<u8>();
    assert!(matches!(next, TransactionNext::Query("BEGIN")));
    // The closure is not called.
    assert!(matches!(
        run.step(&idle, TransactionOutcome::Queried(Err(io()))),
        TransactionNext::Done(Err(Error::Io(_)))
    ));
}

fn int4(value: i32) -> Params {
    Params { oids: vec![23], values: vec![Some(value.to_be_bytes().to_vec())] }
}

/// The types of the messages in a buffer.
fn kinds(buffer: &[u8]) -> String {
    let mut out = String::new();
    let mut at: usize = 0;
    while at < buffer.len() {
        out.push(buffer[at] as char);
        let length: [u8; 4] = buffer[at + 1..at + 5].try_into().unwrap();
        at += 1 + u32::from_be_bytes(length) as usize;
    }
    out
}

#[test]
fn batches_are_sent_in_chunks() {
    let mut conn = connection();
    let params: Vec<Params> = (0..5).map(int4).collect();
    let mut batch = conn.exec_batch_chunked("INSERT", &params, 2).unwrap();
    for expected in ["PBEBES", "PBEBES", "PBES"] {
        assert!(matches!(
            batch.next_chunk(&mut conn, &params, Ok(())),
            BatchNext::Drive { parse: true }
        ));
        assert_eq!(kinds(conn.write_buffer()), expected);
        assert!(conn.is_broken());
        let done = conn.batch_step(Ok(Action::Finished), TransactionStatus::Idle);
        assert!(matches!(done, Progress::Done(Ok(()))));
    }
    assert!(matches!(batch.next_chunk(&mut conn, &params, Ok(())), BatchNext::Finished));
    assert!(!conn.is_broken());
    // Every set was sent once: the last chunk holds the last one.
    assert_eq!(conn.write_buffer()[39], 4);
}

#[test]
fn batches_of_prepared_statements() {
    let mut conn = connection();
    let stmt = PreparedStatement { idx: 1, param_oids: vec![23], row_desc_payload: None };
    let params = [int4(1), int4(2), int4(3)];
    let mut batch = conn.exec_batch_chunked(&stmt, &params, 0).unwrap();
    for _ in 0..3 {
        assert!(matches!(
            batch.next_chunk(&mut conn, &params, Ok(())),
            BatchNext::Drive { parse: false }
        ));
        assert_eq!(kinds(conn.write_buffer()), "BES");
        // A second chunk before the end of the first.
        assert!(matches!(
            conn.exec_batch(&stmt, &params).err(),
            Some(Error::ConnectionBroken)
        ));
        finish(&mut conn);
    }
    let none: [Params; 0] = [];
    let mut batch = conn.exec_batch(&stmt, &none).unwrap();
    assert!(matches!(batch.next_chunk(&mut conn, &none, Ok(())), BatchNext::Finished));
    assert_eq!(DEFAULT_CHUNK_SIZE, 1000);
}

#[test]
fn a_failed_chunk_is_the_end_of_its_batch() {
    let mut conn = connection();
    let params = [int4(1), int4(2)];
    let mut batch = conn.exec_batch_chunked("INSERT", &params, 1).unwrap();
    assert!(matches!(batch.next_chunk(&mut conn, &params, Ok(())), BatchNext::Drive { .. }));
    let failed = conn.batch_step(Ok(Action::Error(server_error())), TransactionStatus::Idle);
    let previous = match failed {
        Progress::Done(result) => result,
        _ => panic!("expected the end of the chunk"),
    };
    conn.write_buffer_mut().clear();
    assert!(matches!(
        batch.next_chunk(&mut conn, &params, previous),
        BatchNext::Failed(Error::Server(_))
    ));
    assert!(conn.write_buffer().is_empty());
    assert!(!conn.is_broken());
    // A failure of the transport is one of the connection.
    let mut batch = conn.exec_batch("INSERT", &params).unwrap();
    assert!(matches!(
        batch.next_chunk(&mut conn, &params, Err(io())),
        BatchNext::Failed(Error::Io(_))
    ));
    assert!(conn.is_broken());
}

#[test]
fn a_batch_sends_a_sync_for_each_chunk() {
    for (length, chunk_size, expected) in
        [(0, 3, 0), (1, 3, 1), (3, 3, 1), (4, 3, 2), (6, 3, 2), (3, 0, 3), (3, 1, 3)]
    {
        let mut conn = connection();
        let params: Vec<Params> = (0..length).map(int4).collect();
        let mut batch = conn.exec_batch_chunked("INSERT", &params, chunk_size).unwrap();
        let mut syncs = 0;
        while let BatchNext::Drive { .. } = batch.next_chunk(&mut conn, &params, Ok(())) {
            syncs += kinds(conn.write_buffer()).matches('S').count();
            finish(&mut conn);
        }
        assert_eq!(syncs, expected);
    }
}

#[test]
fn a_batch_with_a_bad_set_sends_nothing_of_its_chunk() {
    let mut conn = connection();
    let bad = Params { oids: vec![], values: vec![] };
    let params = [int4(1), bad, int4(3)];
    let mut batch = conn.exec_batch("INSERT", &params).unwrap();
    assert!(matches!(
        batch.next_chunk(&mut conn, &params, Ok(())),
        BatchNext::Failed(Error::Encode(_))
    ));
    assert_eq!(kinds(conn.write_buffer()), "PBE");
    assert!(!conn.is_broken());
}

#[test]
fn targets() {
    let opts = Opts { host: "db".into(), port: 6543, ..Opts::default() };
    assert!(matches!(opts.target(true), Ok(Target::Tcp(a)) if a == "db:6543"));
    match Opts::default().target(true) {
        Err(Error::InvalidUsage(m)) => assert_eq!(m, "host is empty"),
        _ => panic!("expected an error"),
    }
    let opts = Opts { socket: Some("/tmp/s".into()), host: "db".into(), ..Opts::default() };
    assert!(matches!(opts.target(true), Ok(Target::Unix(p)) if p == "/tmp/s"));
    match opts.target(false) {
        Err(Error::Unsupported(m)) => {
            assert_eq!(m, "Unix sockets are not supported on this platform");
        }
        _ => panic!("expected an error"),
    }
}

#[test]
fn upgrade_to_a_unix_socket() {
    let opts = Opts { host: "localhost".into(), ..Opts::default() };
    assert!(opts.wants_upgrade(true));
    assert!(!opts.wants_upgrade(false));
    let plain = opts.without_upgrade();
    assert!(!plain.wants_upgrade(true));
    assert_eq!((plain.host.as_str(), plain.port), ("localhost", 5432));
    assert_eq!(plain.pool_max_idle_conn, 100);
    assert_eq!(SOCKET_DIRECTORIES_QUERY, "SHOW unix_socket_directories");
    assert_eq!(first_socket_dir(" /run/pg \t, /tmp").unwrap(), "/run/pg");
    assert_eq!(first_socket_dir("\u{a0}/run pg\u{3000}").unwrap(), "/run pg");
    assert_eq!(first_socket_dir(""), None);
    assert_eq!(first_socket_dir("  , /tmp"), None);
    assert_eq!(socket_path("/tmp", 5432), "/tmp/.s.PGSQL.5432");
    let dirs = |text: &str| Ok(Some(text.to_string()));
    assert_eq!(opts.upgrade_path(dirs("/tmp")).unwrap(), "/tmp/.s.PGSQL.5432");
    assert_eq!(opts.upgrade_path(dirs("")), None);
    assert_eq!(opts.upgrade_path(Ok(None)), None);
    assert_eq!(opts.upgrade_path(Err(io())), None);
    assert_eq!(upgraded_or(1, Ok(2)), 2);
    assert_eq!(upgraded_or(1, Err(io())), 1);
}
